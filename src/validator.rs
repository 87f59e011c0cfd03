use vstd::prelude::*;

use crate::text::{hex_text, push_hex};

verus! {

/// A modification time: whole seconds since the Unix epoch and the
/// nanoseconds within that second.
#[derive(Clone, Copy, Debug, PartialEq, Eq, Structural)]
pub struct Timestamp {
    pub secs: u64,
    pub nanos: u32,
}

/// What negotiation reads of a file: its length, its modification time when
/// the platform has one, and its inode-like identifier (0 where there is none).
#[derive(Clone, Copy, Debug, PartialEq, Eq, Structural)]
pub struct FileMeta {
    pub len: u64,
    pub modified: Option<Timestamp>,
    pub ino: u64,
}

/// An entity tag: an opaque value, marked weak or strong.
#[derive(Clone, Debug)]
pub struct EntityTag {
    pub weak: bool,
    pub tag: String,
}

/// The text of the strong tag built from the file's identity:
/// `ino:len:secs:nanos`, each field in lower-case hexadecimal.
pub open spec fn etag_text(ino: u64, len: u64, t: Timestamp) -> Seq<char> {
    hex_text(ino as nat) + seq![':'] + hex_text(len as nat) + seq![':'] + hex_text(t.secs as nat)
        + seq![':'] + hex_text(t.nanos as nat)
}

/// The entity tag of a file, absent when it has no modification time.
pub open spec fn etag_of(m: FileMeta) -> Option<Seq<char>> {
    match m.modified {
        Some(t) => Some(etag_text(m.ino, m.len, t)),
        None => None,
    }
}

/// The Last-Modified value of a file, in whole seconds since the epoch.
pub open spec fn last_modified_of(m: FileMeta) -> Option<u64> {
    match m.modified {
        Some(t) => Some(t.secs),
        None => None,
    }
}

/// Strong comparison: both tags strong and their values identical.
pub open spec fn strong_eq_spec(a: (bool, Seq<char>), b: (bool, Seq<char>)) -> bool {
    !a.0 && !b.0 && a.1 == b.1
}

/// Weak comparison: the values are identical, whatever the markers.
pub open spec fn weak_eq_spec(a: (bool, Seq<char>), b: (bool, Seq<char>)) -> bool {
    a.1 == b.1
}

impl View for EntityTag {
    type V = (bool, Seq<char>);

    open spec fn view(&self) -> (bool, Seq<char>) {
        (self.weak, self.tag@)
    }
}

impl EntityTag {
    /// A strong tag with the given value.
    pub fn strong(tag: String) -> (r: EntityTag)
        ensures
            r@ == (false, tag@),
    {
        EntityTag { weak: false, tag }
    }

    /// A weak tag with the given value.
    pub fn weak(tag: String) -> (r: EntityTag)
        ensures
            r@ == (true, tag@),
    {
        EntityTag { weak: true, tag }
    }

    /// Whether the two tags are strongly equal.
    pub fn strong_eq(&self, other: &EntityTag) -> (r: bool)
        ensures
            r == strong_eq_spec(self@, other@),
    {
        !self.weak && !other.weak && self.tag == other.tag
    }

    /// Whether the two tags are weakly equal.
    pub fn weak_eq(&self, other: &EntityTag) -> (r: bool)
        ensures
            r == weak_eq_spec(self@, other@),
    {
        self.tag == other.tag
    }
}

/// Appends a colon.
fn push_colon(s: &mut String)
    ensures
        final(s)@ == old(s)@ + seq![':'],
{
    let colon: &str = ":";
    proof {
        reveal_strlit(":");
    }
    s.append(colon);
}

impl FileMeta {
    /// The strong entity tag of the file, or `None` when it has no
    /// modification time. The same metadata always gives the same tag.
    pub fn derive_etag(&self) -> (r: Option<EntityTag>)
        ensures
            match r {
                Some(e) => !e.weak && etag_of(*self) == Some(e.tag@),
                None => etag_of(*self) is None,
            },
    {
        match self.modified {
            Some(t) => {
                let mut s = String::new();
                push_hex(&mut s, self.ino);
                push_colon(&mut s);
                push_hex(&mut s, self.len);
                push_colon(&mut s);
                push_hex(&mut s, t.secs);
                push_colon(&mut s);
                push_hex(&mut s, t.nanos as u64);
                assert(s@ =~= etag_text(self.ino, self.len, t));
                Some(EntityTag::strong(s))
            },
            None => None,
        }
    }

    /// The Last-Modified value of the file, in whole seconds since the epoch,
    /// or `None` when it has no modification time.
    pub fn derive_last_modified(&self) -> (r: Option<u64>)
        ensures
            r == last_modified_of(*self),
    {
        match self.modified {
            Some(t) => Some(t.secs),
            None => None,
        }
    }
}

} // verus!
