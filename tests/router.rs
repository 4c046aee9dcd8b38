use irec::{manage_accept, Endpoint, FileTy};

const SECRET: &[u8] = b"abc";

#[test]
fn accepts_store_with_kind_and_key() {
    assert_eq!(
        manage_accept(b"/store?ft=audio,key=abc", Some(SECRET)),
        Some((Endpoint::Store, FileTy::Audio))
    );
    assert_eq!(
        manage_accept(b"/store?ft=video,key=abc", Some(SECRET)),
        Some((Endpoint::Store, FileTy::Video))
    );
}

#[test]
fn field_order_does_not_matter() {
    assert_eq!(
        manage_accept(b"/store?key=abc,ft=video", Some(SECRET)),
        Some((Endpoint::Store, FileTy::Video))
    );
}

#[test]
fn rejects_wrong_key() {
    assert_eq!(manage_accept(b"/store?ft=audio,key=abd", Some(SECRET)), None);
    assert_eq!(manage_accept(b"/store?ft=audio,key=ab", Some(SECRET)), None);
    assert_eq!(manage_accept(b"/store?ft=audio,key=abcd", Some(SECRET)), None);
    assert_eq!(manage_accept(b"/store?ft=audio,key=", Some(SECRET)), None);
}

#[test]
fn rejects_without_secret() {
    assert_eq!(manage_accept(b"/store?ft=audio,key=abc", None), None);
    assert_eq!(manage_accept(b"/store?ft=audio,key=", None), None);
}

#[test]
fn rejects_other_routes() {
    for path in [
        &b"/store-file?ft=audio,key=abc"[..],
        b"/stor?ft=audio,key=abc",
        b"store?ft=audio,key=abc",
        b"/Store?ft=audio,key=abc",
        b"?ft=audio,key=abc",
        b"",
    ] {
        assert_eq!(manage_accept(path, Some(SECRET)), None);
    }
}

#[test]
fn requires_a_known_kind() {
    assert_eq!(manage_accept(b"/store?key=abc", Some(SECRET)), None);
    assert_eq!(manage_accept(b"/store?ft=mp3,key=abc", Some(SECRET)), None);
    assert_eq!(manage_accept(b"/store?ft=,key=abc", Some(SECRET)), None);
    assert_eq!(manage_accept(b"/store", Some(SECRET)), None);
    assert_eq!(manage_accept(b"/store?", Some(SECRET)), None);
}

#[test]
fn fields_match_by_prefix() {
    assert_eq!(manage_accept(b"/store?xft=audio,key=abc", Some(SECRET)), None);
    assert_eq!(manage_accept(b"/store?ft=audio,xkey=abc", Some(SECRET)), None);
}

#[test]
fn reads_at_most_two_fields() {
    assert_eq!(
        manage_accept(b"/store?ft=audio,key=abc,key=zzz,ft=video", Some(SECRET)),
        Some((Endpoint::Store, FileTy::Audio))
    );
    assert_eq!(manage_accept(b"/store?ft=audio,x=1,key=abc", Some(SECRET)), None);
    assert_eq!(manage_accept(b"/store?key=abc,x=1,ft=audio", Some(SECRET)), None);
}

#[test]
fn later_kind_overrides_earlier() {
    assert_eq!(manage_accept(b"/store?ft=audio,ft=video", Some(SECRET)), None);
    assert_eq!(
        manage_accept(b"/store?ft=mp3,key=abc", Some(b"abc")),
        None
    );
}

#[test]
fn query_ends_only_at_first_question_mark() {
    assert_eq!(
        manage_accept(b"/store?ft=audio,key=a?c", Some(b"a?c")),
        Some((Endpoint::Store, FileTy::Audio))
    );
}
