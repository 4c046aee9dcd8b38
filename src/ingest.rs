use vstd::prelude::*;

use crate::error::Error;

verus! {

/// The most frames that one ingestion session accepts.
pub const MAX_FRAMES: u16 = 10000;

/// The op-code of a WebSocket frame.
#[derive(Clone, Copy, Debug, PartialEq, Eq, Structural)]
pub enum OpCode {
    /// Continuation of a fragmented message.
    Continuation,
    /// Text data.
    Text,
    /// Binary data.
    Binary,
    /// Closing handshake.
    Close,
    /// Ping.
    Ping,
    /// Pong.
    Pong,
}

/// What the driver of a session does with the frame it has just read.
#[derive(Debug)]
pub enum Action {
    /// Append the frame's payload to the file, then read the next frame.
    Append,
    /// Flush the file and end the session successfully.
    Finish,
    /// Flush the file and end the session with this error.
    Abort(Error),
}

/// The abstract state of an ingestion session: how many frames it has read,
/// and how many it reads at most.
pub struct SessionView {
    pub received: nat,
    pub ceiling: nat,
}

/// The state of one connection's frame ingestion: a frame counter bounded by
/// a fixed ceiling.
///
/// A driver asks [`Session::exhausted`] before each read; where it answers
/// with an error the session ends with it. Otherwise the driver reads one
/// frame and does what [`Session::on_frame`] answers.
pub struct Session {
    received: u16,
    ceiling: u16,
}

impl View for Session {
    type V = SessionView;

    closed spec fn view(&self) -> SessionView {
        SessionView { received: self.received as nat, ceiling: self.ceiling as nat }
    }
}

/// The state of a session that has read no frame yet.
pub open spec fn initial(ceiling: nat) -> SessionView {
    SessionView { received: 0, ceiling }
}

/// Whether a session has read as many frames as it accepts.
pub open spec fn is_exhausted(s: SessionView) -> bool {
    s.received >= s.ceiling
}

/// The next state of a session, and the action, on a frame with op-code `op`:
/// a binary frame is appended, a close frame ends the session successfully,
/// and any other op-code ends it with [`Error::UnexpectedFrameOpCode`].
pub open spec fn step(s: SessionView, op: OpCode) -> (SessionView, Action) {
    let next = SessionView { received: s.received + 1, ceiling: s.ceiling };
    match op {
        OpCode::Binary => (next, Action::Append),
        OpCode::Close => (next, Action::Finish),
        _ => (next, Action::Abort(Error::UnexpectedFrameOpCode)),
    }
}

/// What a driver has done after it ran a session on a sequence of frames.
pub struct Run {
    /// The payload bytes appended to the file, in order.
    pub written: Seq<u8>,
    /// How the session ended; none where it still waits for a frame.
    pub end: Option<Result<(), Error>>,
    /// How many frames it read.
    pub consumed: nat,
}

/// A run that appended `written`, ended as `end` and read `consumed` frames.
pub open spec fn run(written: Seq<u8>, end: Option<Result<(), Error>>, consumed: nat) -> Run {
    Run { written, end, consumed }
}

/// A driver running the session from `s` on `frames` (op-codes and
/// payloads, in arrival order), as [`Session::exhausted`] and
/// [`Session::on_frame`] direct it.
pub open spec fn drive(s: SessionView, frames: Seq<(OpCode, Seq<u8>)>) -> Run
    decreases frames.len(),
{
    if is_exhausted(s) {
        Run { written: Seq::empty(), end: Some(Err(Error::LargeAmountOfFrames)), consumed: 0 }
    } else if frames.len() == 0 {
        Run { written: Seq::empty(), end: None, consumed: 0 }
    } else {
        let (next, action) = step(s, frames[0].0);
        match action {
            Action::Append => {
                let r = drive(next, frames.drop_first());
                Run { written: frames[0].1 + r.written, end: r.end, consumed: r.consumed + 1 }
            },
            Action::Finish => Run { written: Seq::empty(), end: Some(Ok(())), consumed: 1 },
            Action::Abort(e) => Run { written: Seq::empty(), end: Some(Err(e)), consumed: 1 },
        }
    }
}

/// Binary frames carrying `payloads`, in order.
pub open spec fn binaries(payloads: Seq<Seq<u8>>) -> Seq<(OpCode, Seq<u8>)> {
    payloads.map_values(|p: Seq<u8>| (OpCode::Binary, p))
}

impl Session {
    /// Whether the frame counter is within the ceiling.
    pub open spec fn wf(&self) -> bool {
        self@.received <= self@.ceiling
    }

    /// A session that has read no frame and reads at most `ceiling` frames.
    pub fn new(ceiling: u16) -> (s: Session)
        ensures
            s@ == initial(ceiling as nat),
            s.wf(),
    {
        Session { received: 0, ceiling }
    }

    /// The error that ends the session before the next read: none while
    /// fewer frames than the ceiling have been read, and
    /// [`Error::LargeAmountOfFrames`] once the ceiling is reached.
    pub fn exhausted(&self) -> (r: Option<Error>)
        ensures
            r == (if is_exhausted(self@) {
                Some(Error::LargeAmountOfFrames)
            } else {
                None
            }),
    {
        if self.received >= self.ceiling {
            Some(Error::LargeAmountOfFrames)
        } else {
            None
        }
    }

    /// Counts a frame with op-code `op` and says what to do with it.
    pub fn on_frame(&mut self, op: OpCode) -> (r: Action)
        requires
            !is_exhausted(old(self)@),
        ensures
            (final(self)@, r) == step(old(self)@, op),
            final(self).wf(),
    {
        self.received = self.received + 1;
        match op {
            OpCode::Binary => Action::Append,
            OpCode::Close => Action::Finish,
            OpCode::Continuation | OpCode::Text | OpCode::Ping | OpCode::Pong => Action::Abort(
                Error::UnexpectedFrameOpCode,
            ),
        }
    }
}

/// Binary frames that stay within the ceiling are appended in order, after
/// which the session goes on from a counter advanced by their number.
pub proof fn lemma_drive_binaries(
    s: SessionView,
    payloads: Seq<Seq<u8>>,
    rest: Seq<(OpCode, Seq<u8>)>,
)
    requires
        s.received + payloads.len() <= s.ceiling,
    ensures
        ({
            let after = drive(
                SessionView { received: s.received + payloads.len(), ceiling: s.ceiling },
                rest,
            );
            drive(s, binaries(payloads) + rest) == run(
                payloads.flatten() + after.written,
                after.end,
                payloads.len() + after.consumed,
            )
        }),
    decreases payloads.len(),
{
    let frames = binaries(payloads) + rest;
    if payloads.len() == 0 {
        assert(frames == rest);
        assert(s == SessionView { received: s.received + payloads.len(), ceiling: s.ceiling });
        assert(payloads.flatten() + drive(s, rest).written == drive(s, rest).written);
    } else {
        let next = SessionView { received: s.received + 1, ceiling: s.ceiling };
        let tail = payloads.drop_first();
        assert(frames[0] == (OpCode::Binary, payloads[0]));
        assert(frames.drop_first() == binaries(tail) + rest);
        lemma_drive_binaries(next, tail, rest);
        assert(next.received + tail.len() == s.received + payloads.len());
        assert(payloads.flatten() == payloads[0] + tail.flatten());
        let after = drive(
            SessionView { received: s.received + payloads.len(), ceiling: s.ceiling },
            rest,
        );
        assert(payloads[0] + (tail.flatten() + after.written) == payloads.flatten()
            + after.written);
    }
}

/// Fewer binary frames than the ceiling followed by a close frame: the file
/// receives exactly the binary payloads, in order, and the session succeeds.
pub proof fn lemma_close_after_binaries(
    ceiling: nat,
    payloads: Seq<Seq<u8>>,
    close_payload: Seq<u8>,
)
    requires
        payloads.len() < ceiling,
    ensures
        drive(initial(ceiling), binaries(payloads).push((OpCode::Close, close_payload))) == run(
            payloads.flatten(),
            Some(Ok(())),
            payloads.len() + 1,
        ),
{
    let rest = seq![(OpCode::Close, close_payload)];
    assert(binaries(payloads).push((OpCode::Close, close_payload)) == binaries(payloads) + rest);
    lemma_drive_binaries(initial(ceiling), payloads, rest);
    assert(payloads.flatten() + Seq::<u8>::empty() == payloads.flatten());
}

/// As many binary frames as the ceiling, and no close frame among them: the
/// session ends with [`Error::LargeAmountOfFrames`] after reading exactly
/// those frames, whatever would follow them, and the file holds their
/// payloads in order.
pub proof fn lemma_ceiling_reached(
    ceiling: nat,
    payloads: Seq<Seq<u8>>,
    rest: Seq<(OpCode, Seq<u8>)>,
)
    requires
        payloads.len() == ceiling,
    ensures
        drive(initial(ceiling), binaries(payloads) + rest) == run(
            payloads.flatten(),
            Some(Err(Error::LargeAmountOfFrames)),
            ceiling,
        ),
{
    lemma_drive_binaries(initial(ceiling), payloads, rest);
    assert(payloads.flatten() + Seq::<u8>::empty() == payloads.flatten());
}

/// A text, ping, pong or continuation frame after fewer binary frames than
/// the ceiling ends the session with [`Error::UnexpectedFrameOpCode`]; the
/// file holds exactly the payloads of the binary frames before it, and
/// nothing after it is read.
pub proof fn lemma_unexpected_op_code(
    ceiling: nat,
    payloads: Seq<Seq<u8>>,
    op: OpCode,
    payload: Seq<u8>,
    rest: Seq<(OpCode, Seq<u8>)>,
)
    requires
        payloads.len() < ceiling,
        op != OpCode::Binary && op != OpCode::Close,
    ensures
        drive(initial(ceiling), binaries(payloads) + (seq![(op, payload)] + rest)) == run(
            payloads.flatten(),
            Some(Err(Error::UnexpectedFrameOpCode)),
            payloads.len() + 1,
        ),
{
    let tail = seq![(op, payload)] + rest;
    lemma_drive_binaries(initial(ceiling), payloads, tail);
    assert(tail[0] == (op, payload));
    assert(payloads.flatten() + Seq::<u8>::empty() == payloads.flatten());
}

} // verus!
