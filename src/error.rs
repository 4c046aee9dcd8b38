use vstd::prelude::*;
use wtx::Error as WtxError;

verus! {

/// `std::io::Error`, carried through opaque inside [`Error::Io`].
#[verifier::external_type_specification]
#[verifier::external_body]
pub struct ExIoError(std::io::Error);

/// `std::time::SystemTimeError`, carried through opaque inside
/// [`Error::SystemTimeError`].
#[verifier::external_type_specification]
#[verifier::external_body]
pub struct ExSystemTimeError(std::time::SystemTimeError);

/// `wtx::Error`, the WebSocket transport's error, carried through opaque
/// inside [`Error::Wtx`].
#[verifier::external_type_specification]
#[verifier::external_body]
pub struct ExWtxError(WtxError);

/// The ways an ingestion session, or the work around it, can fail.
#[derive(Debug)]
pub enum Error {
    /// A file or network operation failed.
    Io(std::io::Error),
    /// The system clock reads a time before the Unix epoch.
    SystemTimeError(std::time::SystemTimeError),
    /// The WebSocket transport failed.
    Wtx(WtxError),
    /// The peer sent as many frames as a session accepts without closing it.
    LargeAmountOfFrames,
    /// The peer sent a frame whose op-code this endpoint does not accept.
    UnexpectedFrameOpCode,
    /// A stream-kind token other than `audio` or `video`.
    UnknownFileTyStr,
    /// The home directory could not be located.
    UnknownHomeDirectory,
}

impl From<std::io::Error> for Error {
    fn from(e: std::io::Error) -> (r: Error) {
        Error::Io(e)
    }
}

impl vstd::std_specs::convert::FromSpecImpl<std::io::Error> for Error {
    open spec fn obeys_from_spec() -> bool {
        true
    }

    open spec fn from_spec(e: std::io::Error) -> Error {
        Error::Io(e)
    }
}

impl From<std::time::SystemTimeError> for Error {
    fn from(e: std::time::SystemTimeError) -> (r: Error) {
        Error::SystemTimeError(e)
    }
}

impl vstd::std_specs::convert::FromSpecImpl<std::time::SystemTimeError> for Error {
    open spec fn obeys_from_spec() -> bool {
        true
    }

    open spec fn from_spec(e: std::time::SystemTimeError) -> Error {
        Error::SystemTimeError(e)
    }
}

impl From<WtxError> for Error {
    fn from(e: WtxError) -> (r: Error) {
        Error::Wtx(e)
    }
}

impl vstd::std_specs::convert::FromSpecImpl<WtxError> for Error {
    open spec fn obeys_from_spec() -> bool {
        true
    }

    open spec fn from_spec(e: WtxError) -> Error {
        Error::Wtx(e)
    }
}

} // verus!
