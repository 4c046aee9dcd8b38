use vstd::prelude::*;
use vstd::string::StringSliceAdditionalSpecFns;

use crate::bytes::bytes_eq;
use crate::error::Error;

verus! {

/// The category of a stored stream.
#[derive(Clone, Copy, Debug, PartialEq, Eq, Structural)]
pub enum FileTy {
    /// Audio
    Audio,
    /// Video
    Video,
}

/// The bytes of the token `audio`.
pub open spec fn audio_token() -> Seq<u8> {
    seq![97u8, 117u8, 100u8, 105u8, 111u8]
}

/// The bytes of the token `video`.
pub open spec fn video_token() -> Seq<u8> {
    seq![118u8, 105u8, 100u8, 101u8, 111u8]
}

impl FileTy {
    /// The lowercase token that names this kind.
    pub open spec fn token(self) -> Seq<u8> {
        match self {
            FileTy::Audio => audio_token(),
            FileTy::Video => video_token(),
        }
    }

    /// The kind that `s` names, if any.
    pub open spec fn parse(s: Seq<u8>) -> Option<FileTy> {
        if s == audio_token() {
            Some(FileTy::Audio)
        } else if s == video_token() {
            Some(FileTy::Video)
        } else {
            None
        }
    }

    /// Each kind reads back from its own token.
    pub proof fn lemma_token_round_trip(ft: FileTy)
        ensures
            FileTy::parse(ft.token()) == Some(ft),
    {
        assert(audio_token()[0] != video_token()[0]);
    }

    /// The token of this kind, as bytes.
    pub fn as_bytes(self) -> (r: &'static [u8])
        ensures
            r@ == self.token(),
    {
        match self {
            FileTy::Audio => &[97u8, 117u8, 100u8, 105u8, 111u8],
            FileTy::Video => &[118u8, 105u8, 100u8, 101u8, 111u8],
        }
    }

    /// The kind that the token `s` names: `audio` or `video`, and
    /// [`Error::UnknownFileTyStr`] for any other token.
    pub fn from_token(s: &[u8]) -> (r: Result<FileTy, Error>)
        ensures
            r matches Ok(ft) ==> FileTy::parse(s@) == Some(ft),
            r matches Err(e) ==> FileTy::parse(s@) is None && e is UnknownFileTyStr,
    {
        if bytes_eq(s, &[97u8, 117u8, 100u8, 105u8, 111u8]) {
            Ok(FileTy::Audio)
        } else if bytes_eq(s, &[118u8, 105u8, 100u8, 101u8, 111u8]) {
            Ok(FileTy::Video)
        } else {
            Err(Error::UnknownFileTyStr)
        }
    }
}

} // verus!

verus! {

impl TryFrom<&str> for FileTy {
    type Error = Error;

    fn try_from(s: &str) -> (r: Result<FileTy, Error>) {
        FileTy::from_token(s.as_bytes())
    }
}

impl vstd::std_specs::convert::TryFromSpecImpl<&str> for FileTy {
    open spec fn obeys_try_from_spec() -> bool {
        true
    }

    open spec fn try_from_spec(s: &str) -> Result<FileTy, Error> {
        match FileTy::parse(s.spec_bytes()) {
            Some(ft) => Ok(ft),
            None => Err(Error::UnknownFileTyStr),
        }
    }
}

impl From<FileTy> for &'static str {
    fn from(ft: FileTy) -> (r: &'static str) {
        match ft {
            FileTy::Audio => "audio",
            FileTy::Video => "video",
        }
    }
}

impl vstd::std_specs::convert::FromSpecImpl<FileTy> for &'static str {
    open spec fn obeys_from_spec() -> bool {
        true
    }

    open spec fn from_spec(ft: FileTy) -> &'static str {
        match ft {
            FileTy::Audio => "audio",
            FileTy::Video => "video",
        }
    }
}

} // verus!
