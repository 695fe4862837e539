use vstd::prelude::*;

verus! {

/// Errors returned by the encoding and decoding processes.
#[derive(Debug, Clone, PartialEq, Eq)]
pub enum Error {
    /// Invalid remaining length.
    InvalidRemainingLength,
    /// No subscription in a subscribe packet.
    EmptySubscription,
    /// Packet identifier is 0.
    ZeroPid,
    /// Invalid QoS value.
    InvalidQos(u8),
    /// Invalid connect flags.
    InvalidConnectFlags(u8),
    /// Invalid connack flags (not 0 or 1).
    InvalidConnackFlags(u8),
    /// Invalid connect return code (value > 5).
    InvalidConnectReturnCode(u8),
    /// Invalid protocol name or level.
    InvalidProtocol(String, u8),
    /// Unexpected protocol version.
    UnexpectedProtocol(crate::types::Protocol),
    /// Invalid fixed header (packet type, flags, or remaining length).
    InvalidHeader,
    /// Invalid variable byte integer: the value must be smaller than 268,435,456.
    InvalidVarByteInt,
    /// Invalid topic name.
    InvalidTopicName(String),
    /// Invalid topic filter.
    InvalidTopicFilter(String),
    /// Trying to decode a string that is not UTF-8.
    InvalidString,
    /// An input/output failure.
    IoError(IoErrorKind),
}

/// The kind of an input/output failure.
#[derive(Debug, Clone, Copy, PartialEq, Eq)]
pub enum IoErrorKind {
    UnexpectedEof,
    InvalidData,
    WriteZero,
    Other,
}

/// What a spec decoder says that an error is: an error without a string, or
/// the bytes of the string that a topic or protocol error carries.
pub enum DecodeErr {
    Plain(Error),
    TopicName(Seq<u8>),
    TopicFilter(Seq<u8>),
    Protocol(Seq<u8>, u8),
}

/// The result of a spec decoder: the value and the offset after it.
pub type PResult<T> = Result<(T, int), DecodeErr>;

impl Error {
    /// Whether this error is the one the spec decoder describes.
    pub open spec fn is(self, d: DecodeErr) -> bool {
        match d {
            DecodeErr::Plain(e) => self == e,
            DecodeErr::TopicName(b) => self matches Error::InvalidTopicName(s) && vstd::utf8::encode_utf8(s@) == b,
            DecodeErr::TopicFilter(b) => self matches Error::InvalidTopicFilter(s) && vstd::utf8::encode_utf8(s@) == b,
            DecodeErr::Protocol(b, l) => self matches Error::InvalidProtocol(s, level) && vstd::utf8::encode_utf8(s@) == b && level == l,
        }
    }

    /// The error that a read past the end of the input gives.
    pub open spec fn eof() -> Error {
        Error::IoError(IoErrorKind::UnexpectedEof)
    }

    /// Whether the error says that the input ended too early.
    pub fn is_eof(&self) -> (r: bool)
        ensures
            r == (*self == Error::eof()),
    {
        match self {
            Error::IoError(IoErrorKind::UnexpectedEof) => true,
            _ => false,
        }
    }
}

} // verus!
