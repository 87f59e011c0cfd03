use vstd::prelude::*;

use crate::named::{
    any_match_spec, expected_response, none_match_spec, used_etag, Body, not_modified, precondition_failed, NamedFile,
    RangeHeader, RequestConditionals, TagList,
};
use crate::range::{closed_range_header, lemma_closed_range, selected_range};
use crate::validator::{etag_of, EntityTag, FileMeta};

verus! {

/// An If-Match header that failed to parse is never satisfied.
pub proof fn lemma_malformed_if_match_fails(etag: Option<(bool, Seq<char>)>)
    ensures
        !any_match_spec(etag, Some(TagList::Malformed)),
{
}

/// `If-Match: *` is satisfied whether or not the file has an entity tag.
pub proof fn lemma_if_match_any_passes(etag: Option<(bool, Seq<char>)>)
    ensures
        any_match_spec(etag, Some(TagList::Any)),
{
}

/// An If-Match list is never satisfied by a tag that is only weakly equal to
/// the current one: when every listed tag is weak or has another value, the
/// condition fails.
pub proof fn lemma_if_match_strong_only(items: Vec<EntityTag>, etag: Option<(bool, Seq<char>)>)
    requires
        forall|k: int|
            0 <= k < items@.len() ==> (#[trigger] items@[k]).weak || (etag is Some
                && items@[k].tag@ != etag.unwrap().1),
    ensures
        !any_match_spec(etag, Some(TagList::Items(items))),
{
}

/// `If-None-Match: *` matches no tag in `none_match`, yet never makes the
/// file count as not modified: the wildcard forces a full response, and so
/// never yields 304 (unless 304 is the configured status).
pub proof fn lemma_if_none_match_any_is_stale(f: NamedFile, req: RequestConditionals)
    requires
        req.if_none_match == Some(TagList::Any),
    ensures
        !none_match_spec(used_etag(f), req.if_none_match),
        !not_modified(f, req),
        f.status_code != 304 ==> expected_response(f, req).status != 304,
{
}

/// While an If-None-Match header is present, the If-Modified-Since date
/// plays no part: any other date gives the same decision.
pub proof fn lemma_if_modified_since_ignored(
    f: NamedFile,
    req: RequestConditionals,
    other_since: Option<u64>,
)
    requires
        req.if_none_match is Some,
    ensures
        not_modified(f, req) == not_modified(
            f,
            RequestConditionals { if_modified_since: other_since, ..req },
        ),
{
}

/// A failed precondition wins over a satisfiable range: the response is
/// 412, not 206.
pub proof fn lemma_precondition_beats_range(f: NamedFile, req: RequestConditionals)
    requires
        f.status_code == 200,
        precondition_failed(f, req),
        match req.range {
            RangeHeader::Value(h) => selected_range(h@, f.meta.len) is Some,
            _ => false,
        },
    ensures
        expected_response(f, req).status == 412,
{
}

/// Two derivations of the entity tag from the same metadata give the same
/// value.
pub proof fn lemma_etag_stable(m: FileMeta, a: Option<EntityTag>, b: Option<EntityTag>)
    requires
        m.modified is Some,
        match a {
            Some(e) => !e.weak && etag_of(m) == Some(e.tag@),
            None => etag_of(m) is None,
        },
        match b {
            Some(e) => !e.weak && etag_of(m) == Some(e.tag@),
            None => etag_of(m) is None,
        },
    ensures
        a is Some && b is Some,
        a.unwrap()@ == b.unwrap()@,
{
}

/// `Range: bytes=0-<size-1>` on a non-empty file is served as the whole
/// file: status 200, not 206, and every byte from offset 0.
pub proof fn lemma_whole_range_is_full(f: NamedFile, req: RequestConditionals)
    requires
        f.status_code == 200,
        f.meta.len > 0,
        !precondition_failed(f, req),
        !not_modified(f, req),
        match req.range {
            RangeHeader::Value(h) => h@ == closed_range_header(0, (f.meta.len - 1) as u64),
            _ => false,
        },
    ensures
        expected_response(f, req).status == 200,
        expected_response(f, req).body == (Body::Window { offset: 0, length: f.meta.len }),
{
    lemma_closed_range(0, (f.meta.len - 1) as u64, f.meta.len);
}

} // verus!
