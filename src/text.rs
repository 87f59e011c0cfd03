use vstd::prelude::*;

verus! {

/// The sixteen lower-case hexadecimal digits, in order.
pub open spec fn hex_alphabet() -> Seq<char> {
    seq!['0', '1', '2', '3', '4', '5', '6', '7', '8', '9', 'a', 'b', 'c', 'd', 'e', 'f']
}

/// The lower-case hexadecimal digit for `d` (`d < 16`).
pub open spec fn hex_digit(d: nat) -> char {
    hex_alphabet()[d as int]
}

/// The decimal digit for `d` (`d < 10`).
pub open spec fn dec_digit(d: nat) -> char {
    hex_alphabet()[d as int]
}

/// `n` written in lower-case hexadecimal, without leading zeros ("0" for zero).
pub open spec fn hex_text(n: nat) -> Seq<char>
    decreases n,
{
    if n < 16 {
        seq![hex_digit(n)]
    } else {
        hex_text(n / 16).push(hex_digit(n % 16))
    }
}

/// `n` written in decimal, without leading zeros ("0" for zero).
pub open spec fn dec_text(n: nat) -> Seq<char>
    decreases n,
{
    if n < 10 {
        seq![dec_digit(n)]
    } else {
        dec_text(n / 10).push(dec_digit(n % 10))
    }
}

/// Appends the hexadecimal digit for `d`.
fn push_hex_digit(s: &mut String, d: u64)
    requires
        d < 16,
    ensures
        final(s)@ == old(s)@.push(hex_digit(d as nat)),
{
    let digits: &str = "0123456789abcdef";
    proof {
        reveal_strlit("0123456789abcdef");
        assert(digits@ =~= hex_alphabet());
    }
    let piece = digits.substring_char(d as usize, d as usize + 1);
    s.append(piece);
    assert(old(s)@ + piece@ =~= old(s)@.push(hex_digit(d as nat)));
}

/// Appends `n` in lower-case hexadecimal.
pub fn push_hex(s: &mut String, n: u64)
    ensures
        final(s)@ == old(s)@ + hex_text(n as nat),
    decreases n,
{
    if n < 16 {
        push_hex_digit(s, n);
        assert(old(s)@.push(hex_digit(n as nat)) =~= old(s)@ + hex_text(n as nat));
    } else {
        push_hex(s, n / 16);
        push_hex_digit(s, n % 16);
        assert(old(s)@ + hex_text(n as nat) =~= old(s)@ + hex_text((n / 16) as nat) + seq![
            hex_digit((n % 16) as nat),
        ]);
    }
}

/// Appends `n` in decimal.
pub fn push_dec(s: &mut String, n: u64)
    ensures
        final(s)@ == old(s)@ + dec_text(n as nat),
    decreases n,
{
    if n < 10 {
        push_hex_digit(s, n);
        assert(old(s)@.push(hex_digit(n as nat)) =~= old(s)@ + dec_text(n as nat));
    } else {
        push_dec(s, n / 10);
        push_hex_digit(s, n % 10);
        assert(old(s)@ + dec_text(n as nat) =~= old(s)@ + dec_text((n / 10) as nat) + seq![
            dec_digit((n % 10) as nat),
        ]);
    }
}

} // verus!
