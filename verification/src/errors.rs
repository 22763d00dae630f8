//! # The errors
//!
//! The RTMP connection can also fail. These are the errors that the handshake
//! and the connection's handling give back. Each holds a description of what
//! went wrong.
use vstd::prelude::*;
use crate::text::str_equals;

verus! {

/// # The chunk length error
///
/// Used when a chunk could not be read completely, or was shorter than its
/// format demands.
pub struct ChunkLengthError {
    description: String,
}

impl View for ChunkLengthError {
    type V = Seq<char>;

    closed spec fn view(&self) -> Seq<char> {
        self.description@
    }
}

impl ChunkLengthError {
    /// Constructs a new `ChunkLengthError` with its description.
    pub fn new(description: String) -> (r: Self)
        ensures
            r@ == description@,
    {
        ChunkLengthError { description }
    }

    /// The text that names this error and its description, ended by a line break.
    pub fn to_string(&self) -> (r: String)
        ensures
            r@ == "ChunkLengthError: description "@ + self@ + ", source None\n"@,
    {
        let mut r = "ChunkLengthError: description ".to_owned();
        r.append(self.description.as_str());
        r.append(", source None\n");
        r
    }
}

/// # The chunk format error
///
/// Used when some field of a chunk was invalid.
pub struct ChunkFormatError {
    description: String,
}

impl View for ChunkFormatError {
    type V = Seq<char>;

    closed spec fn view(&self) -> Seq<char> {
        self.description@
    }
}

impl ChunkFormatError {
    /// Constructs a new `ChunkFormatError` with its description.
    pub fn new(description: String) -> (r: Self)
        ensures
            r@ == description@,
    {
        ChunkFormatError { description }
    }

    /// The text that names this error and its description, ended by a line break.
    pub fn to_string(&self) -> (r: String)
        ensures
            r@ == "ChunkFormatError: description "@ + self@ + ", source None\n"@,
    {
        let mut r = "ChunkFormatError: description ".to_owned();
        r.append(self.description.as_str());
        r.append(", source None\n");
        r
    }
}

/// # The digest verification error
///
/// Used when the HMAC-SHA256 digest was not found in the client's handshake chunk.
pub struct DigestVerificationError {
    description: String,
}

impl View for DigestVerificationError {
    type V = Seq<char>;

    closed spec fn view(&self) -> Seq<char> {
        self.description@
    }
}

impl DigestVerificationError {
    /// Constructs a new `DigestVerificationError` with its description.
    pub fn new(description: String) -> (r: Self)
        ensures
            r@ == description@,
    {
        DigestVerificationError { description }
    }

    /// The text that names this error and its description, ended by a line break.
    pub fn to_string(&self) -> (r: String)
        ensures
            r@ == "DigestVerificationError: description "@ + self@ + ", source None\n"@,
    {
        let mut r = "DigestVerificationError: description ".to_owned();
        r.append(self.description.as_str());
        r.append(", source None\n");
        r
    }
}

/// # The digest offset error
///
/// Used when the offset computed for the HMAC-SHA256 digest was invalid.
pub struct DigestOffsetError {
    description: String,
}

impl View for DigestOffsetError {
    type V = Seq<char>;

    closed spec fn view(&self) -> Seq<char> {
        self.description@
    }
}

impl DigestOffsetError {
    /// Constructs a new `DigestOffsetError` with its description.
    pub fn new(description: String) -> (r: Self)
        ensures
            r@ == description@,
    {
        DigestOffsetError { description }
    }

    /// The text that names this error and its description, ended by a line break.
    pub fn to_string(&self) -> (r: String)
        ensures
            r@ == "DigestOffsetError: description "@ + self@ + ", source None\n"@,
    {
        let mut r = "DigestOffsetError: description ".to_owned();
        r.append(self.description.as_str());
        r.append(", source None\n");
        r
    }
}

/// # The RTMP state error
///
/// Used when the RTMP connection was not in a state that allows what was asked.
pub struct RtmpStateError {
    description: String,
}

impl View for RtmpStateError {
    type V = Seq<char>;

    closed spec fn view(&self) -> Seq<char> {
        self.description@
    }
}

impl RtmpStateError {
    /// Constructs a new `RtmpStateError` with its description.
    pub fn new(description: String) -> (r: Self)
        ensures
            r@ == description@,
    {
        RtmpStateError { description }
    }

    /// The text that names this error and its description, ended by a line break.
    pub fn to_string(&self) -> (r: String)
        ensures
            r@ == "RtmpStateError: description "@ + self@ + ", source None\n"@,
    {
        let mut r = "RtmpStateError: description ".to_owned();
        r.append(self.description.as_str());
        r.append(", source None\n");
        r
    }
}

/// # The signature does not match error
///
/// Used when the HMAC-SHA256 signature did not match the one the server holds.
pub struct SignatureDoesNotMatchError {
    description: String,
}

impl View for SignatureDoesNotMatchError {
    type V = Seq<char>;

    closed spec fn view(&self) -> Seq<char> {
        self.description@
    }
}

impl SignatureDoesNotMatchError {
    /// Constructs a new `SignatureDoesNotMatchError` with its description.
    pub fn new(description: String) -> (r: Self)
        ensures
            r@ == description@,
    {
        SignatureDoesNotMatchError { description }
    }

    /// The text that names this error and its description, ended by a line break.
    pub fn to_string(&self) -> (r: String)
        ensures
            r@ == "SignatureDoesNotMatchError: description "@ + self@ + ", source: None\n"@,
    {
        let mut r = "SignatureDoesNotMatchError: description ".to_owned();
        r.append(self.description.as_str());
        r.append(", source: None\n");
        r
    }
}

/// Every error of the handshake and of the connection's handling.
pub enum RtmpError {
    ChunkLength(ChunkLengthError),
    ChunkFormat(ChunkFormatError),
    DigestVerification(DigestVerificationError),
    DigestOffset(DigestOffsetError),
    RtmpState(RtmpStateError),
    SignatureDoesNotMatch(SignatureDoesNotMatchError),
}

/// The kind of I/O error that an error of the handshake or of the
/// connection's handling travels as.
#[derive(Clone, Copy, Debug, PartialEq, Eq, Structural)]
pub enum IoKind {
    InvalidInput,
    InvalidData,
    Other,
}

impl RtmpError {
    /// The kind of this error: a digest that does not verify, a signature that
    /// does not match and a header whose format is invalid are invalid data; a
    /// state that is not handled is another kind; the rest is invalid input.
    pub open spec fn io_kind_spec(&self) -> IoKind {
        match self {
            RtmpError::DigestVerification(_) => IoKind::InvalidData,
            RtmpError::SignatureDoesNotMatch(_) => IoKind::InvalidData,
            RtmpError::ChunkFormat(e) => if e@ == "The basic header format is invalid."@ || e@
                == "The message header format is invalid."@ {
                IoKind::InvalidData
            } else {
                IoKind::InvalidInput
            },
            RtmpError::RtmpState(_) => IoKind::Other,
            _ => IoKind::InvalidInput,
        }
    }

    /// Returns the kind of I/O error that this error travels as (see
    /// `io_kind_spec`).
    pub fn io_kind(&self) -> (r: IoKind)
        ensures
            r == self.io_kind_spec(),
    {
        match self {
            RtmpError::DigestVerification(_) => IoKind::InvalidData,
            RtmpError::SignatureDoesNotMatch(_) => IoKind::InvalidData,
            RtmpError::ChunkFormat(e) => if str_equals(&e.description, "The basic header format is invalid.")
                || str_equals(&e.description, "The message header format is invalid.") {
                IoKind::InvalidData
            } else {
                IoKind::InvalidInput
            },
            RtmpError::RtmpState(_) => IoKind::Other,
            _ => IoKind::InvalidInput,
        }
    }
}

} // verus!
