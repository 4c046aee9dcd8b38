use irec::{Error, FileTy};

#[test]
fn parses_known_tokens() {
    assert_eq!(FileTy::try_from("audio").unwrap(), FileTy::Audio);
    assert_eq!(FileTy::try_from("video").unwrap(), FileTy::Video);
}

#[test]
fn rejects_unknown_tokens() {
    for token in ["", "Audio", "VIDEO", "audi", "audios", "mp3", " video"] {
        assert!(matches!(FileTy::try_from(token), Err(Error::UnknownFileTyStr)));
    }
}

#[test]
fn names_each_kind() {
    assert_eq!(<&str>::from(FileTy::Audio), "audio");
    assert_eq!(<&str>::from(FileTy::Video), "video");
    assert_eq!(FileTy::Audio.as_bytes(), b"audio");
    assert_eq!(FileTy::Video.as_bytes(), b"video");
}

#[test]
fn token_round_trips() {
    for ft in [FileTy::Audio, FileTy::Video] {
        assert_eq!(FileTy::try_from(<&str>::from(ft)).unwrap(), ft);
        assert_eq!(FileTy::from_token(ft.as_bytes()).unwrap(), ft);
    }
}
