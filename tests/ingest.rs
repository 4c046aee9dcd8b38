use irec::{Action, Error, OpCode, Session, MAX_FRAMES};

/// Runs a session on `frames` as a server's driver does, and returns the
/// bytes it would write, how it ended, and how many frames it read.
fn drive(ceiling: u16, frames: &[(OpCode, &[u8])]) -> (Vec<u8>, Option<Result<(), Error>>, usize) {
    let mut session = Session::new(ceiling);
    let mut written = Vec::new();
    let mut read = 0;
    loop {
        if let Some(err) = session.exhausted() {
            return (written, Some(Err(err)), read);
        }
        let Some((op, payload)) = frames.get(read) else {
            return (written, None, read);
        };
        read += 1;
        match session.on_frame(*op) {
            Action::Append => written.extend_from_slice(payload),
            Action::Finish => return (written, Some(Ok(())), read),
            Action::Abort(err) => return (written, Some(Err(err)), read),
        }
    }
}

#[test]
fn binary_frames_then_close_succeed() {
    let frames: [(OpCode, &[u8]); 4] = [
        (OpCode::Binary, b"12"),
        (OpCode::Binary, b""),
        (OpCode::Binary, b"345"),
        (OpCode::Close, b""),
    ];
    let (written, end, read) = drive(5, &frames);
    assert_eq!(written, b"12345");
    assert!(matches!(end, Some(Ok(()))));
    assert_eq!(read, 4);
}

#[test]
fn close_right_below_ceiling_succeeds() {
    let frames: [(OpCode, &[u8]); 3] =
        [(OpCode::Binary, b"a"), (OpCode::Binary, b"b"), (OpCode::Close, b"")];
    let (written, end, read) = drive(3, &frames);
    assert_eq!(written, b"ab");
    assert!(matches!(end, Some(Ok(()))));
    assert_eq!(read, 3);
}

#[test]
fn ceiling_of_binary_frames_fails() {
    let frames: [(OpCode, &[u8]); 4] = [
        (OpCode::Binary, b"a"),
        (OpCode::Binary, b"b"),
        (OpCode::Binary, b"c"),
        (OpCode::Close, b""),
    ];
    let (written, end, read) = drive(3, &frames);
    assert_eq!(written, b"abc");
    assert!(matches!(end, Some(Err(Error::LargeAmountOfFrames))));
    assert_eq!(read, 3);
}

#[test]
fn zero_ceiling_reads_nothing() {
    let frames: [(OpCode, &[u8]); 1] = [(OpCode::Close, b"")];
    let (written, end, read) = drive(0, &frames);
    assert!(written.is_empty());
    assert!(matches!(end, Some(Err(Error::LargeAmountOfFrames))));
    assert_eq!(read, 0);
}

#[test]
fn other_op_codes_abort() {
    for op in [OpCode::Text, OpCode::Ping, OpCode::Pong, OpCode::Continuation] {
        let frames: [(OpCode, &[u8]); 4] = [
            (OpCode::Binary, b"x"),
            (op, b"y"),
            (OpCode::Binary, b"z"),
            (OpCode::Close, b""),
        ];
        let (written, end, read) = drive(10, &frames);
        assert_eq!(written, b"x");
        assert!(matches!(end, Some(Err(Error::UnexpectedFrameOpCode))));
        assert_eq!(read, 2);
    }
}

#[test]
fn other_op_code_first_aborts_with_nothing_written() {
    let frames: [(OpCode, &[u8]); 2] = [(OpCode::Text, b"hello"), (OpCode::Close, b"")];
    let (written, end, read) = drive(MAX_FRAMES, &frames);
    assert!(written.is_empty());
    assert!(matches!(end, Some(Err(Error::UnexpectedFrameOpCode))));
    assert_eq!(read, 1);
}

#[test]
fn session_waits_while_below_ceiling() {
    let frames: [(OpCode, &[u8]); 2] = [(OpCode::Binary, b"a"), (OpCode::Binary, b"b")];
    let (written, end, read) = drive(MAX_FRAMES, &frames);
    assert_eq!(written, b"ab");
    assert!(end.is_none());
    assert_eq!(read, 2);
}

#[test]
fn default_ceiling_is_ten_thousand() {
    assert_eq!(MAX_FRAMES, 10000);
    let mut session = Session::new(MAX_FRAMES);
    for _ in 0..MAX_FRAMES {
        assert!(session.exhausted().is_none());
        assert!(matches!(session.on_frame(OpCode::Binary), Action::Append));
    }
    assert!(matches!(session.exhausted(), Some(Error::LargeAmountOfFrames)));
}
