use irec::{dir_in, file_path, manage_accept, Action, Endpoint, FileTy, OpCode, Session, MAX_FRAMES};

#[test]
fn store_audio_end_to_end() {
    let accepted = manage_accept(b"/store?ft=audio,key=abc", Some(b"abc"));
    assert_eq!(accepted, Some((Endpoint::Store, FileTy::Audio)));
    let (_, ft) = accepted.unwrap();

    let dir = dir_in(b"/home/u", ft);
    assert_eq!(dir, b"/home/u/.irec/audio");
    let path = file_path(&dir, ft, 42);
    assert_eq!(path, b"/home/u/.irec/audio/irec-audio-42.webm");

    let mut session = Session::new(MAX_FRAMES);
    let mut file = Vec::new();
    assert!(session.exhausted().is_none());
    match session.on_frame(OpCode::Binary) {
        Action::Append => file.extend_from_slice(b"123"),
        other => panic!("unexpected action {other:?}"),
    }
    assert!(session.exhausted().is_none());
    assert!(matches!(session.on_frame(OpCode::Close), Action::Finish));
    assert_eq!(file, b"123");
}
