use vstd::prelude::*;

use crate::range::{find_char, find_char_exec, parse_range, selected_range, ByteRange};
use vstd::string::string_is_ascii;
use vstd::utf8::is_ascii_chars;
use crate::text::{dec_text, push_dec};
use crate::validator::{
    etag_of, last_modified_of, strong_eq_spec, weak_eq_spec, EntityTag, FileMeta,
};

verus! {

/// A content coding for the response body.
#[derive(Clone, Copy, Debug, PartialEq, Eq, Structural)]
pub enum Encoding {
    Identity,
    Brotli,
    Deflate,
    Gzip,
    Zstd,
}

/// The Content-Disposition of the response: `inline` or `attachment`, the
/// file name, and whether an extended UTF-8 copy of the name is sent too.
#[derive(Debug)]
pub struct ContentDisposition {
    pub inline: bool,
    pub filename: String,
    pub utf8_filename: bool,
}

impl View for ContentDisposition {
    type V = (bool, Seq<char>, bool);

    open spec fn view(&self) -> (bool, Seq<char>, bool) {
        (self.inline, self.filename@, self.utf8_filename)
    }
}

impl ContentDisposition {
    /// A copy of this disposition.
    pub fn duplicate(&self) -> (r: ContentDisposition)
        ensures
            r@ == self@,
    {
        ContentDisposition {
            inline: self.inline,
            filename: self.filename.clone(),
            utf8_filename: self.utf8_filename,
        }
    }
}

/// Which optional headers are sent.
#[derive(Clone, Copy, Debug, PartialEq, Eq, Structural)]
pub struct Flags {
    pub etag: bool,
    pub last_modified: bool,
    pub content_disposition: bool,
    pub prefer_utf8: bool,
}

impl Default for Flags {
    /// ETag, Last-Modified and Content-Disposition on; UTF-8 preference off.
    fn default() -> (r: Flags)
        ensures
            r == (Flags {
                etag: true,
                last_modified: true,
                content_disposition: true,
                prefer_utf8: false,
            }),
    {
        Flags { etag: true, last_modified: true, content_disposition: true, prefer_utf8: false }
    }
}

/// The value of an If-Match or If-None-Match header.
#[derive(Debug)]
pub enum TagList {
    /// `*`
    Any,
    Items(Vec<EntityTag>),
    /// Present, but neither `*` nor a valid list of entity tags.
    Malformed,
}

/// The Range header of a request.
#[derive(Debug)]
pub enum RangeHeader {
    Absent,
    /// Present, but its value is not valid header text.
    Invalid,
    Value(String),
}

/// The headers of a request that negotiation reads. An absent If-Match or
/// If-None-Match is `None`, one that failed to parse is
/// `Some(TagList::Malformed)`. Dates are whole seconds since the Unix epoch;
/// a date header that is absent or failed to parse is `None`.
#[derive(Debug)]
pub struct RequestConditionals {
    pub if_match: Option<TagList>,
    pub if_none_match: Option<TagList>,
    pub if_unmodified_since: Option<u64>,
    pub if_modified_since: Option<u64>,
    pub range: RangeHeader,
}

/// What the response carries.
#[derive(Clone, Copy, Debug, PartialEq, Eq, Structural)]
pub enum Body {
    Empty,
    /// `length` bytes of the file, read from `offset`.
    Window { offset: u64, length: u64 },
}

/// The outcome of negotiation: a status, the headers to send, and the body.
#[derive(Debug)]
pub struct Response {
    pub status: u16,
    pub content_type: Option<String>,
    pub content_disposition: Option<ContentDisposition>,
    pub encoding: Option<Encoding>,
    /// Last-Modified, in whole seconds since the Unix epoch.
    pub last_modified: Option<u64>,
    pub etag: Option<EntityTag>,
    /// `Accept-Ranges: bytes`.
    pub accept_ranges: bool,
    pub content_range: Option<String>,
    pub body: Body,
}

/// The abstract value of a response.
pub struct ResponseModel {
    pub status: u16,
    pub content_type: Option<Seq<char>>,
    pub content_disposition: Option<(bool, Seq<char>, bool)>,
    pub encoding: Option<Encoding>,
    pub last_modified: Option<u64>,
    pub etag: Option<(bool, Seq<char>)>,
    pub accept_ranges: bool,
    pub content_range: Option<Seq<char>>,
    pub body: Body,
}

pub open spec fn opt_text(o: Option<String>) -> Option<Seq<char>> {
    match o {
        Some(s) => Some(s@),
        None => None,
    }
}

pub open spec fn opt_tag(o: Option<EntityTag>) -> Option<(bool, Seq<char>)> {
    match o {
        Some(t) => Some(t@),
        None => None,
    }
}

impl View for Response {
    type V = ResponseModel;

    open spec fn view(&self) -> ResponseModel {
        ResponseModel {
            status: self.status,
            content_type: opt_text(self.content_type),
            content_disposition: match self.content_disposition {
                Some(d) => Some(d@),
                None => None,
            },
            encoding: self.encoding,
            last_modified: self.last_modified,
            etag: opt_tag(self.etag),
            accept_ranges: self.accept_ranges,
            content_range: opt_text(self.content_range),
            body: self.body,
        }
    }
}

/// Whether one of the tags is strongly equal to `e`.
pub open spec fn strongly_listed(items: Seq<EntityTag>, e: (bool, Seq<char>)) -> bool {
    exists|k: int| 0 <= k < items.len() && strong_eq_spec(#[trigger] items[k]@, e)
}

/// Whether one of the tags is weakly equal to `e`.
pub open spec fn weakly_listed(items: Seq<EntityTag>, e: (bool, Seq<char>)) -> bool {
    exists|k: int| 0 <= k < items.len() && weak_eq_spec(#[trigger] items[k]@, e)
}

/// Whether an If-Match condition holds: no header or `*` always does; a list
/// holds when the current tag exists and is strongly equal to one of its tags;
/// a malformed header never does.
pub open spec fn any_match_spec(etag: Option<(bool, Seq<char>)>, cond: Option<TagList>) -> bool {
    match cond {
        None => true,
        Some(TagList::Any) => true,
        Some(TagList::Malformed) => false,
        Some(TagList::Items(items)) => match etag {
            Some(e) => strongly_listed(items@, e),
            None => false,
        },
    }
}

/// Whether an If-None-Match condition lets the request through (the
/// resource counts as changed): `*` never does; a list does unless the
/// current tag exists and is weakly equal to one of its tags; no header, or a
/// malformed one, does.
pub open spec fn none_match_spec(etag: Option<(bool, Seq<char>)>, cond: Option<TagList>) -> bool {
    match cond {
        None => true,
        Some(TagList::Any) => false,
        Some(TagList::Malformed) => true,
        Some(TagList::Items(items)) => match etag {
            Some(e) => !weakly_listed(items@, e),
            None => true,
        },
    }
}

/// Returns true when the request has no If-Match header, or one that the
/// current tag satisfies.
pub fn any_match(etag: &Option<EntityTag>, cond: &Option<TagList>) -> (r: bool)
    ensures
        r == any_match_spec(opt_tag(*etag), *cond),
{
    match cond {
        None => true,
        Some(TagList::Any) => true,
        Some(TagList::Malformed) => false,
        Some(TagList::Items(items)) => {
            match etag {
                None => false,
                Some(e) => {
                    let mut i: usize = 0;
                    while i < items.len()
                        invariant
                            0 <= i <= items@.len(),
                            *cond == Some(TagList::Items(*items)),
                            opt_tag(*etag) == Some(e@),
                            forall|k: int| 0 <= k < i ==> !strong_eq_spec(#[trigger] items@[k]@, e@),
                        decreases items@.len() - i,
                    {
                        if items[i].strong_eq(e) {
                            assert(strong_eq_spec(items@[i as int]@, e@));
                            assert(strongly_listed(items@, e@));
                            return true;
                        }
                        i = i + 1;
                    }
                    false
                },
            }
        },
    }
}

/// Returns true when the request has no If-None-Match header that the
/// current tag satisfies, that is when the resource counts as changed.
pub fn none_match(etag: &Option<EntityTag>, cond: &Option<TagList>) -> (r: bool)
    ensures
        r == none_match_spec(opt_tag(*etag), *cond),
{
    match cond {
        None => true,
        Some(TagList::Any) => false,
        Some(TagList::Malformed) => true,
        Some(TagList::Items(items)) => {
            match etag {
                None => true,
                Some(e) => {
                    let mut i: usize = 0;
                    while i < items.len()
                        invariant
                            0 <= i <= items@.len(),
                            *cond == Some(TagList::Items(*items)),
                            opt_tag(*etag) == Some(e@),
                            forall|k: int| 0 <= k < i ==> !weak_eq_spec(#[trigger] items@[k]@, e@),
                        decreases items@.len() - i,
                    {
                        if items[i].weak_eq(e) {
                            assert(weak_eq_spec(items@[i as int]@, e@));
                            assert(weakly_listed(items@, e@));
                            return false;
                        }
                        i = i + 1;
                    }
                    true
                },
            }
        },
    }
}

/// What the path names as its final component, decoded lossily to text.
pub uninterp spec fn file_name_of(path: Seq<char>) -> Option<Seq<char>>;

/// Relies on std's `Path::file_name` and `OsStr::to_string_lossy`: the final
/// component of the path, or `None` where it has none (as for the root `/`).
#[verifier::external_body]
fn final_component(path: &str) -> (r: Option<String>)
    ensures
        opt_text(r) == file_name_of(path@),
        path@ == seq!['/'] ==> r is None,
{
    std::path::Path::new(path).file_name().map(|n| n.to_string_lossy().into_owned())
}

/// The name a file is served under: the path's final component; the empty
/// path has none.
pub open spec fn path_file_name(path: Seq<char>) -> Option<Seq<char>> {
    if path.len() == 0 {
        None
    } else {
        file_name_of(path)
    }
}

/// The MIME type guessed from a path's extension.
pub uninterp spec fn guessed_mime(path: Seq<char>) -> Seq<char>;

/// Relies on `mime_guess::from_path` and `MimeGuess::first_or_octet_stream`:
/// the first MIME type known for the path's extension, else
/// `application/octet-stream`, written out by `mime::Mime`'s `Display`.
#[verifier::external_body]
fn guess_content_type(path: &str) -> (r: String)
    ensures
        r@ == guessed_mime(path@),
{
    mime_guess::from_path(path).first_or_octet_stream().to_string()
}

/// The top-level type of a MIME type: what precedes its `/`.
pub open spec fn top_level(ct: Seq<char>) -> Seq<char> {
    ct.subrange(0, find_char(ct, '/', 0, ct.len() as int))
}

/// Whether a file of this content type is shown inline by default (images,
/// text and video) rather than offered as an attachment.
pub open spec fn inline_by_default(ct: Seq<char>) -> bool {
    top_level(ct) == seq!['i', 'm', 'a', 'g', 'e'] || top_level(ct) == seq!['t', 'e', 'x', 't']
        || top_level(ct) == seq!['v', 'i', 'd', 'e', 'o']
}

/// The parameter that declares a UTF-8 text type.
pub open spec fn charset_utf8() -> Seq<char> {
    seq![';', ' ', 'c', 'h', 'a', 'r', 's', 'e', 't', '=', 'u', 't', 'f', '-', '8']
}

/// The Content-Type sent: the configured type, with `; charset=utf-8`
/// added when UTF-8 is preferred, the type is textual and carries no
/// parameter yet.
pub open spec fn content_type_text(ct: Seq<char>, prefer_utf8: bool) -> Seq<char> {
    if prefer_utf8 && top_level(ct) == seq!['t', 'e', 'x', 't'] && find_char(
        ct,
        ';',
        0,
        ct.len() as int,
    ) == ct.len() {
        ct + charset_utf8()
    } else {
        ct
    }
}

/// Whether the top-level type of `ct` is `name`.
fn top_level_is(ct: &str, name: &str) -> (r: bool)
    ensures
        r == (top_level(ct@) == name@),
{
    let n = ct.unicode_len();
    let slash = find_char_exec(ct, '/', 0, n);
    if slash != name.unicode_len() {
        return false;
    }
    let mut i: usize = 0;
    while i < slash
        invariant
            0 <= i <= slash <= n,
            n == ct@.len(),
            slash == name@.len(),
            slash == find_char(ct@, '/', 0, n as int),
            forall|k: int| 0 <= k < i ==> ct@[k] == name@[k],
        decreases slash - i,
    {
        if ct.get_char(i) != name.get_char(i) {
            assert(top_level(ct@)[i as int] != name@[i as int]);
            return false;
        }
        i = i + 1;
    }
    assert(top_level(ct@) =~= name@);
    true
}

fn is_text_type(ct: &str) -> (r: bool)
    ensures
        r == (top_level(ct@) == seq!['t', 'e', 'x', 't']),
{
    let name: &str = "text";
    proof {
        reveal_strlit("text");
        assert(name@ =~= seq!['t', 'e', 'x', 't']);
    }
    top_level_is(ct, name)
}

fn is_inline_type(ct: &str) -> (r: bool)
    ensures
        r == inline_by_default(ct@),
{
    let image: &str = "image";
    let video: &str = "video";
    proof {
        reveal_strlit("image");
        reveal_strlit("video");
        assert(image@ =~= seq!['i', 'm', 'a', 'g', 'e']);
        assert(video@ =~= seq!['v', 'i', 'd', 'e', 'o']);
    }
    top_level_is(ct, image) || is_text_type(ct) || top_level_is(ct, video)
}

/// Builds the Content-Type header value.
pub fn content_type_header(ct: &String, prefer_utf8: bool) -> (r: String)
    ensures
        r@ == content_type_text(ct@, prefer_utf8),
{
    let n = ct.unicode_len();
    if prefer_utf8 && is_text_type(ct.as_str()) && find_char_exec(ct.as_str(), ';', 0, n) == n {
        let suffix: &str = "; charset=utf-8";
        proof {
            reveal_strlit("; charset=utf-8");
            assert(suffix@ =~= charset_utf8());
        }
        let mut r = ct.clone();
        r.append(suffix);
        r
    } else {
        ct.clone()
    }
}

/// A failure to build a `NamedFile`.
#[derive(Clone, Copy, Debug, PartialEq, Eq, Structural)]
pub enum NamedFileError {
    /// The path has no final component to name the file by.
    NoFileName,
}

/// A file to serve, with its metadata and serving configuration.
#[derive(Debug)]
pub struct NamedFile {
    pub path: String,
    pub meta: FileMeta,
    pub flags: Flags,
    pub status_code: u16,
    pub content_type: String,
    pub content_disposition: ContentDisposition,
    pub encoding: Option<Encoding>,
}

/// A service that serves the file at `path` on each request.
#[derive(Debug)]
pub struct NamedFileService {
    pub path: String,
}

/// The flags a new `NamedFile` starts with.
pub open spec fn default_flags() -> Flags {
    Flags { etag: true, last_modified: true, content_disposition: true, prefer_utf8: false }
}

/// The entity tag used in negotiation: the file's own, if enabled.
pub open spec fn used_etag(f: NamedFile) -> Option<(bool, Seq<char>)> {
    if f.flags.etag {
        match etag_of(f.meta) {
            Some(t) => Some((false, t)),
            None => None,
        }
    } else {
        None
    }
}

/// The Last-Modified value used in negotiation, if enabled.
pub open spec fn used_last_modified(f: NamedFile) -> Option<u64> {
    if f.flags.last_modified {
        last_modified_of(f.meta)
    } else {
        None
    }
}

/// Whether the request fails its preconditions: If-Match is not satisfied,
/// or the file changed after the If-Unmodified-Since date.
pub open spec fn precondition_failed(f: NamedFile, req: RequestConditionals) -> bool {
    !any_match_spec(used_etag(f), req.if_match) || match (
        used_last_modified(f),
        req.if_unmodified_since,
    ) {
        (Some(m), Some(since)) => m > since,
        _ => false,
    }
}

/// Whether the client's copy is current: an If-None-Match list names the
/// current tag; or, only when no If-None-Match header is present at all, the
/// file has not changed after the If-Modified-Since date.
///
/// `If-None-Match: *` never makes the copy current, though `none_match`
/// reports no match for it: the wildcard forces a full response, so only a
/// list of tags can yield "not modified". Any other If-None-Match header
/// (`*` or a malformed one) still keeps If-Modified-Since out of the
/// decision.
pub open spec fn not_modified(f: NamedFile, req: RequestConditionals) -> bool {
    if req.if_none_match != Some(TagList::Any) && !none_match_spec(used_etag(f), req.if_none_match) {
        true
    } else if req.if_none_match is Some {
        false
    } else {
        match (used_last_modified(f), req.if_modified_since) {
            (Some(m), Some(since)) => m <= since,
            _ => false,
        }
    }
}

/// `bytes first-last/total` for a served range.
pub open spec fn content_range_text(r: ByteRange, total: u64) -> Seq<char> {
    seq!['b', 'y', 't', 'e', 's', ' '] + dec_text(r.start as nat) + seq!['-'] + dec_text(
        (r.start + r.length - 1) as nat,
    ) + seq!['/'] + dec_text(total as nat)
}

/// `bytes */total` for a range that cannot be served.
pub open spec fn unsatisfied_range_text(total: u64) -> Seq<char> {
    seq!['b', 'y', 't', 'e', 's', ' ', '*', '/'] + dec_text(total as nat)
}

/// The headers every served response starts with, and the whole file.
pub open spec fn base_response(f: NamedFile, validators: bool) -> ResponseModel {
    ResponseModel {
        status: f.status_code,
        content_type: Some(content_type_text(f.content_type@, f.flags.prefer_utf8)),
        content_disposition: if f.flags.content_disposition {
            Some(f.content_disposition@)
        } else {
            None
        },
        encoding: f.encoding,
        last_modified: if validators {
            used_last_modified(f)
        } else {
            None
        },
        etag: if validators {
            used_etag(f)
        } else {
            None
        },
        accept_ranges: validators,
        content_range: None,
        body: Body::Window { offset: 0, length: f.meta.len },
    }
}

/// A response with a status and, but for `content_range`, no headers.
pub open spec fn error_response(status: u16, content_range: Option<Seq<char>>) -> ResponseModel {
    ResponseModel {
        status,
        content_type: None,
        content_disposition: None,
        encoding: None,
        last_modified: None,
        etag: None,
        accept_ranges: false,
        content_range,
        body: Body::Empty,
    }
}

/// The last step: a failed precondition gives 412, a current copy 304, both
/// without a body; else the window is served, with 206 when it is not the
/// whole file.
pub open spec fn finish(f: NamedFile, req: RequestConditionals, m: ResponseModel) -> ResponseModel {
    if precondition_failed(f, req) {
        ResponseModel { status: 412, body: Body::Empty, ..m }
    } else if not_modified(f, req) {
        ResponseModel { status: 304, body: Body::Empty, ..m }
    } else if m.body == (Body::Window { offset: 0, length: f.meta.len }) {
        m
    } else {
        ResponseModel { status: 206, ..m }
    }
}

/// The response to a request for the file.
pub open spec fn expected_response(f: NamedFile, req: RequestConditionals) -> ResponseModel {
    if f.status_code != 200 {
        base_response(f, false)
    } else {
        let base = base_response(f, true);
        match req.range {
            RangeHeader::Absent => finish(f, req, base),
            RangeHeader::Invalid => error_response(400, None),
            RangeHeader::Value(h) => match selected_range(h@, f.meta.len) {
                None => error_response(416, Some(unsatisfied_range_text(f.meta.len))),
                Some(r) => finish(
                    f,
                    req,
                    ResponseModel {
                        encoding: Some(Encoding::Identity),
                        content_range: Some(content_range_text(r, f.meta.len)),
                        body: Body::Window { offset: r.start, length: r.length },
                        ..base
                    },
                ),
            },
        }
    }
}

fn append_lit(s: &mut String, lit: &str)
    ensures
        final(s)@ == old(s)@ + lit@,
{
    s.append(lit);
}

/// Builds `bytes first-last/total`.
fn content_range_header(r: ByteRange, total: u64) -> (t: String)
    requires
        r.length > 0,
        r.start + r.length <= total,
    ensures
        t@ == content_range_text(r, total),
{
    let mut t = String::new();
    let prefix: &str = "bytes ";
    let dash: &str = "-";
    let slash: &str = "/";
    proof {
        reveal_strlit("bytes ");
        reveal_strlit("-");
        reveal_strlit("/");
    }
    append_lit(&mut t, prefix);
    push_dec(&mut t, r.start);
    append_lit(&mut t, dash);
    push_dec(&mut t, r.start + r.length - 1);
    append_lit(&mut t, slash);
    push_dec(&mut t, total);
    assert(t@ =~= content_range_text(r, total));
    t
}

/// Builds `bytes */total`.
fn unsatisfied_range_header(total: u64) -> (t: String)
    ensures
        t@ == unsatisfied_range_text(total),
{
    let mut t = String::new();
    let prefix: &str = "bytes */";
    proof {
        reveal_strlit("bytes */");
    }
    append_lit(&mut t, prefix);
    push_dec(&mut t, total);
    assert(t@ =~= unsatisfied_range_text(total));
    t
}

fn error_reply(status: u16, content_range: Option<String>) -> (r: Response)
    ensures
        r@ == error_response(status, opt_text(content_range)),
{
    Response {
        status,
        content_type: None,
        content_disposition: None,
        encoding: None,
        last_modified: None,
        etag: None,
        accept_ranges: false,
        content_range,
        body: Body::Empty,
    }
}

impl NamedFile {
    /// Creates an instance for a file with the given metadata. The path need
    /// not exist: it gives the default Content-Type (guessed from its
    /// extension) and Content-Disposition (inline for images, text and video,
    /// else attachment, named by the path's final component). A path without
    /// a final component, such as the root or the empty path, is refused.
    pub fn from_file(meta: FileMeta, path: &str) -> (r: Result<NamedFile, NamedFileError>)
        ensures
            path@ == seq!['/'] ==> r == Err::<NamedFile, NamedFileError>(NamedFileError::NoFileName),
            path@.len() == 0 ==> r == Err::<NamedFile, NamedFileError>(NamedFileError::NoFileName),
            match path_file_name(path@) {
                None => r == Err::<NamedFile, NamedFileError>(NamedFileError::NoFileName),
                Some(name) => r is Ok && r.unwrap().path@ == path@ && r.unwrap().meta == meta
                    && r.unwrap().flags == default_flags() && r.unwrap().status_code == 200
                    && r.unwrap().content_type@ == guessed_mime(path@)
                    && r.unwrap().content_disposition@ == (
                    inline_by_default(guessed_mime(path@)),
                    name,
                    !is_ascii_chars(name),
                ) && r.unwrap().encoding is None,
            },
    {
        if path.unicode_len() == 0 {
            return Err(NamedFileError::NoFileName);
        }
        let filename = match final_component(path) {
            Some(name) => name,
            None => {
                return Err(NamedFileError::NoFileName);
            },
        };
        let ct = guess_content_type(path);
        let inline = is_inline_type(ct.as_str());
        let utf8_filename = !filename.is_ascii();
        Ok(NamedFile {
            path: String::from_str(path),
            meta,
            flags: Flags::default(),
            status_code: 200,
            content_type: ct,
            content_disposition: ContentDisposition { inline, filename, utf8_filename },
            encoding: None,
        })
    }

    /// The path this file was created with.
    pub fn path(&self) -> (r: &str)
        ensures
            r@ == self.path@,
    {
        self.path.as_str()
    }

    /// Sets the response status code.
    pub fn set_status_code(self, status: u16) -> (r: NamedFile)
        ensures
            r == (NamedFile { status_code: status, ..self }),
    {
        NamedFile { status_code: status, ..self }
    }

    /// Sets the MIME Content-Type, which is otherwise guessed from the path.
    pub fn set_content_type(self, mime_type: String) -> (r: NamedFile)
        ensures
            r == (NamedFile { content_type: mime_type, ..self }),
    {
        NamedFile { content_type: mime_type, ..self }
    }

    /// Sets the Content-Disposition, and enables the header.
    pub fn set_content_disposition(self, cd: ContentDisposition) -> (r: NamedFile)
        ensures
            r == (NamedFile {
                content_disposition: cd,
                flags: Flags { content_disposition: true, ..self.flags },
                ..self
            }),
    {
        let flags = Flags { content_disposition: true, ..self.flags };
        NamedFile { content_disposition: cd, flags, ..self }
    }

    /// Disables the Content-Disposition header.
    pub fn disable_content_disposition(self) -> (r: NamedFile)
        ensures
            r == (NamedFile { flags: Flags { content_disposition: false, ..self.flags }, ..self }),
    {
        let flags = Flags { content_disposition: false, ..self.flags };
        NamedFile { flags, ..self }
    }

    /// Sets the content encoding of the response.
    pub fn set_content_encoding(self, enc: Encoding) -> (r: NamedFile)
        ensures
            r == (NamedFile { encoding: Some(enc), ..self }),
    {
        NamedFile { encoding: Some(enc), ..self }
    }

    /// Whether to send and check an ETag (default true).
    pub fn use_etag(self, value: bool) -> (r: NamedFile)
        ensures
            r == (NamedFile { flags: Flags { etag: value, ..self.flags }, ..self }),
    {
        let flags = Flags { etag: value, ..self.flags };
        NamedFile { flags, ..self }
    }

    /// Whether to send and check Last-Modified (default true).
    pub fn use_last_modified(self, value: bool) -> (r: NamedFile)
        ensures
            r == (NamedFile { flags: Flags { last_modified: value, ..self.flags }, ..self }),
    {
        let flags = Flags { last_modified: value, ..self.flags };
        NamedFile { flags, ..self }
    }

    /// Whether text responses declare UTF-8 (default false).
    pub fn prefer_utf8(self, value: bool) -> (r: NamedFile)
        ensures
            r == (NamedFile { flags: Flags { prefer_utf8: value, ..self.flags }, ..self }),
    {
        let flags = Flags { prefer_utf8: value, ..self.flags };
        NamedFile { flags, ..self }
    }

    /// A service that serves this file's path.
    pub fn new_service(&self) -> (r: NamedFileService)
        ensures
            r.path@ == self.path@,
    {
        NamedFileService { path: self.path.clone() }
    }

    /// Negotiates the response to a request for this file.
    pub fn into_response(&self, req: &RequestConditionals) -> (r: Response)
        ensures
            r@ == expected_response(*self, *req),
    {
        let content_type = content_type_header(&self.content_type, self.flags.prefer_utf8);
        let content_disposition = if self.flags.content_disposition {
            Some(self.content_disposition.duplicate())
        } else {
            None
        };
        if self.status_code != 200 {
            return Response {
                status: self.status_code,
                content_type: Some(content_type),
                content_disposition,
                encoding: self.encoding,
                last_modified: None,
                etag: None,
                accept_ranges: false,
                content_range: None,
                body: Body::Window { offset: 0, length: self.meta.len },
            };
        }
        let etag = if self.flags.etag {
            self.meta.derive_etag()
        } else {
            None
        };
        let last_modified = if self.flags.last_modified {
            self.meta.derive_last_modified()
        } else {
            None
        };
        assert(opt_tag(etag) == used_etag(*self));
        let failed = if !any_match(&etag, &req.if_match) {
            true
        } else {
            match (last_modified, req.if_unmodified_since) {
                (Some(m), Some(since)) => m > since,
                _ => false,
            }
        };
        let wildcard = matches!(req.if_none_match, Some(TagList::Any));
        let fresh = if !wildcard && !none_match(&etag, &req.if_none_match) {
            true
        } else if req.if_none_match.is_some() {
            false
        } else {
            match (last_modified, req.if_modified_since) {
                (Some(m), Some(since)) => m <= since,
                _ => false,
            }
        };
        let mut resp = Response {
            status: 200,
            content_type: Some(content_type),
            content_disposition,
            encoding: self.encoding,
            last_modified,
            etag,
            accept_ranges: true,
            content_range: None,
            body: Body::Window { offset: 0, length: self.meta.len },
        };
        match &req.range {
            RangeHeader::Absent => {},
            RangeHeader::Invalid => {
                return error_reply(400, None);
            },
            RangeHeader::Value(h) => {
                match parse_range(h.as_str(), self.meta.len) {
                    Ok(b) => {
                        resp.encoding = Some(Encoding::Identity);
                        resp.content_range = Some(content_range_header(b, self.meta.len));
                        resp.body = Body::Window { offset: b.start, length: b.length };
                    },
                    Err(_) => {
                        return error_reply(416, Some(unsatisfied_range_header(self.meta.len)));
                    },
                }
            },
        }
        if failed {
            resp.status = 412;
            resp.body = Body::Empty;
        } else if fresh {
            resp.status = 304;
            resp.body = Body::Empty;
        } else if resp.body != (Body::Window { offset: 0, length: self.meta.len }) {
            resp.status = 206;
        }
        resp
    }
}

} // verus!
