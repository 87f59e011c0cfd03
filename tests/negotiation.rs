use named_file::{
    any_match, content_type_header, none_match, parse_range, push_dec, push_hex, Body,
    ByteRange, Encoding, EntityTag, FileMeta, NamedFile, NamedFileError, RangeHeader,
    RequestConditionals, TagList, Timestamp,
};

fn meta(len: u64) -> FileMeta {
    FileMeta {
        len,
        modified: Some(Timestamp { secs: 1_600_000_000, nanos: 5 }),
        ino: 0x1234,
    }
}

fn file(len: u64) -> NamedFile {
    NamedFile::from_file(meta(len), "/srv/files/data.bin").unwrap()
}

fn plain_request() -> RequestConditionals {
    RequestConditionals {
        if_match: None,
        if_none_match: None,
        if_unmodified_since: None,
        if_modified_since: None,
        range: RangeHeader::Absent,
    }
}

fn ranged(h: &str) -> RequestConditionals {
    RequestConditionals { range: RangeHeader::Value(h.to_string()), ..plain_request() }
}

fn strong(t: &str) -> EntityTag {
    EntityTag::strong(t.to_string())
}

#[test]
fn etag_is_stable_and_exact() {
    let m = meta(1000);
    let a = m.derive_etag().unwrap();
    let b = m.derive_etag().unwrap();
    assert_eq!(a.tag, "1234:3e8:5f5e1000:5");
    assert!(!a.weak);
    assert_eq!(a.tag, b.tag);
    let f = file(1000);
    let r1 = f.into_response(&plain_request());
    let r2 = f.into_response(&plain_request());
    assert_eq!(r1.etag.unwrap().tag, r2.etag.unwrap().tag);
}

#[test]
fn no_modification_time_gives_no_validators() {
    let m = FileMeta { len: 10, modified: None, ino: 1 };
    assert!(m.derive_etag().is_none());
    assert!(m.derive_last_modified().is_none());
    let f = NamedFile::from_file(m, "a.txt").unwrap();
    let r = f.into_response(&plain_request());
    assert_eq!(r.status, 200);
    assert!(r.etag.is_none());
    assert!(r.last_modified.is_none());
}

#[test]
fn if_match_star_passes() {
    assert!(any_match(&None, &Some(TagList::Any)));
    assert!(any_match(&Some(strong("x")), &Some(TagList::Any)));
    assert!(any_match(&None, &None));
    let f = file(1000);
    let req = RequestConditionals { if_match: Some(TagList::Any), ..plain_request() };
    assert_eq!(f.into_response(&req).status, 200);
}

#[test]
fn malformed_if_match_fails() {
    assert!(!any_match(&Some(strong("abc")), &Some(TagList::Malformed)));
    assert!(!any_match(&None, &Some(TagList::Malformed)));
    assert!(none_match(&Some(strong("abc")), &Some(TagList::Malformed)));
    let f = file(1000);
    let req = RequestConditionals { if_match: Some(TagList::Malformed), ..plain_request() };
    let r = f.into_response(&req);
    assert_eq!(r.status, 412);
    assert_eq!(r.body, Body::Empty);
}

#[test]
fn if_match_needs_strong_equality() {
    let current = Some(strong("abc"));
    let weak_same = Some(TagList::Items(vec![EntityTag::weak("abc".to_string())]));
    assert!(!any_match(&current, &weak_same));
    let other = Some(TagList::Items(vec![strong("zzz")]));
    assert!(!any_match(&current, &other));
    let same = Some(TagList::Items(vec![strong("zzz"), strong("abc")]));
    assert!(any_match(&current, &same));
    assert!(!any_match(&None, &same));
}

#[test]
fn if_none_match_uses_weak_equality() {
    let current = Some(strong("abc"));
    let weak_same = Some(TagList::Items(vec![EntityTag::weak("abc".to_string())]));
    assert!(!none_match(&current, &weak_same));
    let other = Some(TagList::Items(vec![strong("zzz")]));
    assert!(none_match(&current, &other));
    assert!(none_match(&None, &weak_same));
    assert!(none_match(&current, &None));
    assert!(!none_match(&current, &Some(TagList::Any)));
    assert!(!none_match(&None, &Some(TagList::Any)));
}

#[test]
fn if_none_match_star_forces_full_response() {
    let f = file(1000);
    let req = RequestConditionals {
        if_none_match: Some(TagList::Any),
        if_modified_since: Some(2_000_000_000),
        ..plain_request()
    };
    let r = f.into_response(&req);
    assert_eq!(r.status, 200);
    assert_eq!(r.body, Body::Window { offset: 0, length: 1000 });
}

#[test]
fn if_modified_since_ignored_with_if_none_match() {
    let f = file(1000);
    let req = RequestConditionals {
        if_none_match: Some(TagList::Items(vec![strong("other")])),
        if_modified_since: Some(2_000_000_000),
        ..plain_request()
    };
    assert_eq!(f.into_response(&req).status, 200);
    let unparsed = RequestConditionals {
        if_none_match: Some(TagList::Malformed),
        if_modified_since: Some(2_000_000_000),
        ..plain_request()
    };
    assert_eq!(f.into_response(&unparsed).status, 200);
    let alone = RequestConditionals { if_modified_since: Some(2_000_000_000), ..plain_request() };
    assert_eq!(f.into_response(&alone).status, 304);
    let older = RequestConditionals { if_modified_since: Some(1_000_000_000), ..plain_request() };
    assert_eq!(f.into_response(&older).status, 200);
    let same_second = RequestConditionals { if_modified_since: Some(1_600_000_000), ..plain_request() };
    assert_eq!(f.into_response(&same_second).status, 304);
}

#[test]
fn whole_file_range_is_200() {
    let f = file(1000);
    let r = f.into_response(&ranged("bytes=0-999"));
    assert_eq!(r.status, 200);
    assert_eq!(r.body, Body::Window { offset: 0, length: 1000 });
    assert_eq!(r.content_range.unwrap(), "bytes 0-999/1000");
}

#[test]
fn whole_file_range_is_200_for_other_sizes() {
    for size in [1u64, 10, 5000, 65_537] {
        let f = file(size);
        let r = f.into_response(&ranged(&format!("bytes=0-{}", size - 1)));
        assert_eq!(r.status, 200);
        assert_eq!(r.body, Body::Window { offset: 0, length: size });
    }
}

#[test]
fn range_10_19_is_partial() {
    let f = file(1000);
    let r = f.into_response(&ranged("bytes=10-19"));
    assert_eq!(r.status, 206);
    assert_eq!(r.content_range.unwrap(), "bytes 10-19/1000");
    assert_eq!(r.body, Body::Window { offset: 10, length: 10 });
    assert_eq!(r.encoding, Some(Encoding::Identity));
    assert!(r.accept_ranges);
}

#[test]
fn range_past_end_is_416() {
    let f = file(1000);
    let r = f.into_response(&ranged("bytes=2000-3000"));
    assert_eq!(r.status, 416);
    assert_eq!(r.content_range.unwrap(), "bytes */1000");
    assert_eq!(r.body, Body::Empty);
    assert!(r.content_type.is_none());
}

#[test]
fn failed_if_match_beats_range() {
    let f = file(1000);
    let req = RequestConditionals {
        if_match: Some(TagList::Items(vec![strong("nope")])),
        ..ranged("bytes=10-19")
    };
    let r = f.into_response(&req);
    assert_eq!(r.status, 412);
    assert_eq!(r.body, Body::Empty);
}

#[test]
fn range_error_beats_failed_if_match() {
    let f = file(1000);
    let req = RequestConditionals {
        if_match: Some(TagList::Items(vec![strong("nope")])),
        ..ranged("bytes=2000-")
    };
    assert_eq!(f.into_response(&req).status, 416);
    let bad = RequestConditionals { range: RangeHeader::Invalid, ..req };
    let r = f.into_response(&bad);
    assert_eq!(r.status, 400);
    assert!(r.content_range.is_none());
    assert_eq!(r.body, Body::Empty);
}

#[test]
fn path_without_file_name_is_refused() {
    assert_eq!(NamedFile::from_file(meta(10), "/").err(), Some(NamedFileError::NoFileName));
    assert_eq!(NamedFile::from_file(meta(10), "").err(), Some(NamedFileError::NoFileName));
    assert_eq!(NamedFile::from_file(meta(10), "a/..").err(), Some(NamedFileError::NoFileName));
}

#[test]
fn end_to_end_full_response() {
    let f = file(5000);
    let r = f.into_response(&plain_request());
    assert_eq!(r.status, 200);
    assert_eq!(r.body, Body::Window { offset: 0, length: 5000 });
    assert!(r.accept_ranges);
    assert_eq!(r.etag.unwrap().tag, "1234:1388:5f5e1000:5");
    assert_eq!(r.last_modified, Some(1_600_000_000));
    assert!(r.content_range.is_none());
}

#[test]
fn end_to_end_not_modified() {
    let f = file(5000);
    let tag = f.meta.derive_etag().unwrap();
    let req = RequestConditionals {
        if_none_match: Some(TagList::Items(vec![tag])),
        ..plain_request()
    };
    let r = f.into_response(&req);
    assert_eq!(r.status, 304);
    assert_eq!(r.body, Body::Empty);
}

#[test]
fn if_unmodified_since_checks_seconds() {
    let f = file(100);
    let before = RequestConditionals { if_unmodified_since: Some(1_599_999_999), ..plain_request() };
    assert_eq!(f.into_response(&before).status, 412);
    let same = RequestConditionals { if_unmodified_since: Some(1_600_000_000), ..plain_request() };
    assert_eq!(f.into_response(&same).status, 200);
    let no_lm = file(100).use_last_modified(false);
    assert_eq!(no_lm.into_response(&before).status, 200);
}

#[test]
fn disabled_etag_is_not_used() {
    let f = file(100).use_etag(false);
    let tag = f.meta.derive_etag().unwrap();
    let req = RequestConditionals {
        if_none_match: Some(TagList::Items(vec![tag])),
        ..plain_request()
    };
    let r = f.into_response(&req);
    assert_eq!(r.status, 200);
    assert!(r.etag.is_none());
}

#[test]
fn configured_status_serves_whole_file() {
    let f = file(100).set_status_code(404);
    let r = f.into_response(&ranged("bytes=2000-3000"));
    assert_eq!(r.status, 404);
    assert_eq!(r.body, Body::Window { offset: 0, length: 100 });
    assert!(r.etag.is_none());
    assert!(!r.accept_ranges);
    assert_eq!(r.content_type.unwrap(), "application/octet-stream");
}

#[test]
fn range_forms() {
    assert_eq!(parse_range("bytes=-100", 1000), Ok(ByteRange { start: 900, length: 100 }));
    assert_eq!(parse_range("bytes=-5000", 1000), Ok(ByteRange { start: 0, length: 1000 }));
    assert_eq!(parse_range("bytes=900-", 1000), Ok(ByteRange { start: 900, length: 100 }));
    assert_eq!(parse_range("bytes=990-5000", 1000), Ok(ByteRange { start: 990, length: 10 }));
    assert_eq!(parse_range("bytes= 1-2 , 5-9", 1000), Ok(ByteRange { start: 1, length: 2 }));
    assert_eq!(parse_range("bytes=2000-,5-9", 1000), Ok(ByteRange { start: 5, length: 5 }));
    assert_eq!(parse_range("bytes=0-0", 1), Ok(ByteRange { start: 0, length: 1 }));
}

#[test]
fn range_refusals() {
    assert!(parse_range("", 1000).is_err());
    assert!(parse_range("bytes=", 1000).is_err());
    assert!(parse_range("items=0-1", 1000).is_err());
    assert!(parse_range("bytes=a-b", 1000).is_err());
    assert!(parse_range("bytes=5-2", 1000).is_err());
    assert!(parse_range("bytes=5", 1000).is_err());
    assert!(parse_range("bytes=0-1,x-2", 1000).is_err());
    assert!(parse_range("bytes=-0", 1000).is_err());
    assert!(parse_range("bytes=0-", 0).is_err());
    assert!(parse_range("bytes=99999999999999999999-", 1000).is_err());
}

#[test]
fn content_type_and_disposition_defaults() {
    let html = NamedFile::from_file(meta(1), "site/index.html").unwrap();
    assert_eq!(html.content_type, "text/html");
    assert!(html.content_disposition.inline);
    assert_eq!(html.content_disposition.filename, "index.html");
    assert!(!html.content_disposition.utf8_filename);
    let zip = NamedFile::from_file(meta(1), "archive.zip").unwrap();
    assert!(!zip.content_disposition.inline);
    let png = NamedFile::from_file(meta(1), "p.png").unwrap();
    assert!(png.content_disposition.inline);
    let accented = NamedFile::from_file(meta(1), "caf\u{e9}.txt").unwrap();
    assert!(accented.content_disposition.utf8_filename);
    assert_eq!(accented.path(), "caf\u{e9}.txt");
}

#[test]
fn utf8_preference() {
    let f = NamedFile::from_file(meta(1), "notes.txt").unwrap().prefer_utf8(true);
    let r = f.into_response(&plain_request());
    assert_eq!(r.content_type.unwrap(), "text/plain; charset=utf-8");
    assert_eq!(content_type_header(&"image/png".to_string(), true), "image/png");
    assert_eq!(content_type_header(&"text/plain".to_string(), false), "text/plain");
    assert_eq!(
        content_type_header(&"text/plain; charset=latin1".to_string(), true),
        "text/plain; charset=latin1"
    );
}

#[test]
fn disposition_toggles() {
    let f = file(1).disable_content_disposition();
    assert!(f.into_response(&plain_request()).content_disposition.is_none());
    let on = file(1);
    let d = on.into_response(&plain_request()).content_disposition.unwrap();
    assert_eq!(d.filename, "data.bin");
    let enc = file(1).set_content_encoding(Encoding::Gzip);
    assert_eq!(enc.into_response(&plain_request()).encoding, Some(Encoding::Gzip));
    let svc = file(1).new_service();
    assert_eq!(svc.path, "/srv/files/data.bin");
}

#[test]
fn number_text() {
    let mut s = String::new();
    push_hex(&mut s, 255);
    assert_eq!(s, "ff");
    push_hex(&mut s, 0);
    assert_eq!(s, "ff0");
    let mut d = String::new();
    push_dec(&mut d, 1000);
    assert_eq!(d, "1000");
    push_dec(&mut d, u64::MAX);
    assert_eq!(d, "100018446744073709551615");
}
