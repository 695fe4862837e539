use vstd::prelude::*;

use crate::buf::{sp_u8, sp_var_int, PacketBuf};
use crate::error::{DecodeErr, Error, PResult};
use crate::types::QoS;

verus! {

/// MQTT v5.0 packet type, without the packet's data.
#[derive(Debug, Copy, Clone, PartialEq, Eq, Structural, Hash)]
pub enum PacketType {
    Connect,
    Connack,
    Publish,
    Puback,
    Pubrec,
    Pubrel,
    Pubcomp,
    Subscribe,
    Suback,
    Unsubscribe,
    Unsuback,
    Pingreq,
    Pingresp,
    Disconnect,
    Auth,
}

/// Property identifier.
#[derive(Debug, Clone, Copy, PartialEq, Eq, Structural, Hash)]
pub enum PropertyId {
    PayloadFormatIndicator,
    MessageExpiryInterval,
    ContentType,
    ResponseTopic,
    CorrelationData,
    SubscriptionIdentifier,
    SessionExpiryInterval,
    AssignedClientIdentifier,
    ServerKeepAlive,
    AuthenticationMethod,
    AuthenticationData,
    RequestProblemInformation,
    WillDelayInterval,
    RequestResponseInformation,
    ResponseInformation,
    ServerReference,
    ReasonString,
    ReceiveMaximum,
    TopicAliasMaximum,
    TopicAlias,
    MaximumQoS,
    RetainAvailable,
    UserProperty,
    MaximumPacketSize,
    WildcardSubscriptionAvailable,
    SubscriptionIdentifierAvailable,
    SharedSubscriptionAvailable,
}

impl PropertyId {
    /// The wire value.
    pub open spec fn spec_u8(self) -> u8 {
        match self {
            PropertyId::PayloadFormatIndicator => 0x01,
            PropertyId::MessageExpiryInterval => 0x02,
            PropertyId::ContentType => 0x03,
            PropertyId::ResponseTopic => 0x08,
            PropertyId::CorrelationData => 0x09,
            PropertyId::SubscriptionIdentifier => 0x0B,
            PropertyId::SessionExpiryInterval => 0x11,
            PropertyId::AssignedClientIdentifier => 0x12,
            PropertyId::ServerKeepAlive => 0x13,
            PropertyId::AuthenticationMethod => 0x15,
            PropertyId::AuthenticationData => 0x16,
            PropertyId::RequestProblemInformation => 0x17,
            PropertyId::WillDelayInterval => 0x18,
            PropertyId::RequestResponseInformation => 0x19,
            PropertyId::ResponseInformation => 0x1A,
            PropertyId::ServerReference => 0x1C,
            PropertyId::ReasonString => 0x1F,
            PropertyId::ReceiveMaximum => 0x21,
            PropertyId::TopicAliasMaximum => 0x22,
            PropertyId::TopicAlias => 0x23,
            PropertyId::MaximumQoS => 0x24,
            PropertyId::RetainAvailable => 0x25,
            PropertyId::UserProperty => 0x26,
            PropertyId::MaximumPacketSize => 0x27,
            PropertyId::WildcardSubscriptionAvailable => 0x28,
            PropertyId::SubscriptionIdentifierAvailable => 0x29,
            PropertyId::SharedSubscriptionAvailable => 0x2A,
        }
    }

    /// The identifier of a wire value, if any.
    pub open spec fn spec_from_u8(value: u8) -> Option<PropertyId> {
        if value == 0x01 {
            Some(PropertyId::PayloadFormatIndicator)
        } else if value == 0x02 {
            Some(PropertyId::MessageExpiryInterval)
        } else if value == 0x03 {
            Some(PropertyId::ContentType)
        } else if value == 0x08 {
            Some(PropertyId::ResponseTopic)
        } else if value == 0x09 {
            Some(PropertyId::CorrelationData)
        } else if value == 0x0B {
            Some(PropertyId::SubscriptionIdentifier)
        } else if value == 0x11 {
            Some(PropertyId::SessionExpiryInterval)
        } else if value == 0x12 {
            Some(PropertyId::AssignedClientIdentifier)
        } else if value == 0x13 {
            Some(PropertyId::ServerKeepAlive)
        } else if value == 0x15 {
            Some(PropertyId::AuthenticationMethod)
        } else if value == 0x16 {
            Some(PropertyId::AuthenticationData)
        } else if value == 0x17 {
            Some(PropertyId::RequestProblemInformation)
        } else if value == 0x18 {
            Some(PropertyId::WillDelayInterval)
        } else if value == 0x19 {
            Some(PropertyId::RequestResponseInformation)
        } else if value == 0x1A {
            Some(PropertyId::ResponseInformation)
        } else if value == 0x1C {
            Some(PropertyId::ServerReference)
        } else if value == 0x1F {
            Some(PropertyId::ReasonString)
        } else if value == 0x21 {
            Some(PropertyId::ReceiveMaximum)
        } else if value == 0x22 {
            Some(PropertyId::TopicAliasMaximum)
        } else if value == 0x23 {
            Some(PropertyId::TopicAlias)
        } else if value == 0x24 {
            Some(PropertyId::MaximumQoS)
        } else if value == 0x25 {
            Some(PropertyId::RetainAvailable)
        } else if value == 0x26 {
            Some(PropertyId::UserProperty)
        } else if value == 0x27 {
            Some(PropertyId::MaximumPacketSize)
        } else if value == 0x28 {
            Some(PropertyId::WildcardSubscriptionAvailable)
        } else if value == 0x29 {
            Some(PropertyId::SubscriptionIdentifierAvailable)
        } else if value == 0x2A {
            Some(PropertyId::SharedSubscriptionAvailable)
        } else {
            None
        }
    }

    /// The wire values that MQTT 5.0 fixes for property identifiers: each identifier is written as the value
    /// beside it below, that value decodes to the identifier, and no other byte
    /// decodes.
    pub proof fn lemma_wire_values()
        ensures
            PropertyId::PayloadFormatIndicator.spec_u8() == 0x01u8,
            PropertyId::MessageExpiryInterval.spec_u8() == 0x02u8,
            PropertyId::ContentType.spec_u8() == 0x03u8,
            PropertyId::ResponseTopic.spec_u8() == 0x08u8,
            PropertyId::CorrelationData.spec_u8() == 0x09u8,
            PropertyId::SubscriptionIdentifier.spec_u8() == 0x0Bu8,
            PropertyId::SessionExpiryInterval.spec_u8() == 0x11u8,
            PropertyId::AssignedClientIdentifier.spec_u8() == 0x12u8,
            PropertyId::ServerKeepAlive.spec_u8() == 0x13u8,
            PropertyId::AuthenticationMethod.spec_u8() == 0x15u8,
            PropertyId::AuthenticationData.spec_u8() == 0x16u8,
            PropertyId::RequestProblemInformation.spec_u8() == 0x17u8,
            PropertyId::WillDelayInterval.spec_u8() == 0x18u8,
            PropertyId::RequestResponseInformation.spec_u8() == 0x19u8,
            PropertyId::ResponseInformation.spec_u8() == 0x1Au8,
            PropertyId::ServerReference.spec_u8() == 0x1Cu8,
            PropertyId::ReasonString.spec_u8() == 0x1Fu8,
            PropertyId::ReceiveMaximum.spec_u8() == 0x21u8,
            PropertyId::TopicAliasMaximum.spec_u8() == 0x22u8,
            PropertyId::TopicAlias.spec_u8() == 0x23u8,
            PropertyId::MaximumQoS.spec_u8() == 0x24u8,
            PropertyId::RetainAvailable.spec_u8() == 0x25u8,
            PropertyId::UserProperty.spec_u8() == 0x26u8,
            PropertyId::MaximumPacketSize.spec_u8() == 0x27u8,
            PropertyId::WildcardSubscriptionAvailable.spec_u8() == 0x28u8,
            PropertyId::SubscriptionIdentifierAvailable.spec_u8() == 0x29u8,
            PropertyId::SharedSubscriptionAvailable.spec_u8() == 0x2Au8,
            PropertyId::spec_from_u8(0x01u8) == Some(PropertyId::PayloadFormatIndicator),
            PropertyId::spec_from_u8(0x02u8) == Some(PropertyId::MessageExpiryInterval),
            PropertyId::spec_from_u8(0x03u8) == Some(PropertyId::ContentType),
            PropertyId::spec_from_u8(0x08u8) == Some(PropertyId::ResponseTopic),
            PropertyId::spec_from_u8(0x09u8) == Some(PropertyId::CorrelationData),
            PropertyId::spec_from_u8(0x0Bu8) == Some(PropertyId::SubscriptionIdentifier),
            PropertyId::spec_from_u8(0x11u8) == Some(PropertyId::SessionExpiryInterval),
            PropertyId::spec_from_u8(0x12u8) == Some(PropertyId::AssignedClientIdentifier),
            PropertyId::spec_from_u8(0x13u8) == Some(PropertyId::ServerKeepAlive),
            PropertyId::spec_from_u8(0x15u8) == Some(PropertyId::AuthenticationMethod),
            PropertyId::spec_from_u8(0x16u8) == Some(PropertyId::AuthenticationData),
            PropertyId::spec_from_u8(0x17u8) == Some(PropertyId::RequestProblemInformation),
            PropertyId::spec_from_u8(0x18u8) == Some(PropertyId::WillDelayInterval),
            PropertyId::spec_from_u8(0x19u8) == Some(PropertyId::RequestResponseInformation),
            PropertyId::spec_from_u8(0x1Au8) == Some(PropertyId::ResponseInformation),
            PropertyId::spec_from_u8(0x1Cu8) == Some(PropertyId::ServerReference),
            PropertyId::spec_from_u8(0x1Fu8) == Some(PropertyId::ReasonString),
            PropertyId::spec_from_u8(0x21u8) == Some(PropertyId::ReceiveMaximum),
            PropertyId::spec_from_u8(0x22u8) == Some(PropertyId::TopicAliasMaximum),
            PropertyId::spec_from_u8(0x23u8) == Some(PropertyId::TopicAlias),
            PropertyId::spec_from_u8(0x24u8) == Some(PropertyId::MaximumQoS),
            PropertyId::spec_from_u8(0x25u8) == Some(PropertyId::RetainAvailable),
            PropertyId::spec_from_u8(0x26u8) == Some(PropertyId::UserProperty),
            PropertyId::spec_from_u8(0x27u8) == Some(PropertyId::MaximumPacketSize),
            PropertyId::spec_from_u8(0x28u8) == Some(PropertyId::WildcardSubscriptionAvailable),
            PropertyId::spec_from_u8(0x29u8) == Some(PropertyId::SubscriptionIdentifierAvailable),
            PropertyId::spec_from_u8(0x2Au8) == Some(PropertyId::SharedSubscriptionAvailable),
            forall|b: u8| #[trigger] PropertyId::spec_from_u8(b) is Some ==> (b == 0x01u8 || b == 0x02u8 || b == 0x03u8 || b == 0x08u8 || b == 0x09u8 || b == 0x0Bu8 || b == 0x11u8 || b == 0x12u8 || b == 0x13u8 || b == 0x15u8 || b == 0x16u8 || b == 0x17u8 || b == 0x18u8 || b == 0x19u8 || b == 0x1Au8 || b == 0x1Cu8 || b == 0x1Fu8 || b == 0x21u8 || b == 0x22u8 || b == 0x23u8 || b == 0x24u8 || b == 0x25u8 || b == 0x26u8 || b == 0x27u8 || b == 0x28u8 || b == 0x29u8 || b == 0x2Au8),
    {
    }

    /// Decodes a wire value; an unknown one is an error.
    pub fn from_u8(value: u8) -> (r: Result<PropertyId, ErrorV5>)
        ensures
            match PropertyId::spec_from_u8(value) {
                Some(id) => r == Ok::<PropertyId, ErrorV5>(id),
                None => r == Err::<PropertyId, ErrorV5>(ErrorV5::InvalidPropertyId(value)),
            },
    {
        match value {
            0x01 => Ok(PropertyId::PayloadFormatIndicator),
            0x02 => Ok(PropertyId::MessageExpiryInterval),
            0x03 => Ok(PropertyId::ContentType),
            0x08 => Ok(PropertyId::ResponseTopic),
            0x09 => Ok(PropertyId::CorrelationData),
            0x0B => Ok(PropertyId::SubscriptionIdentifier),
            0x11 => Ok(PropertyId::SessionExpiryInterval),
            0x12 => Ok(PropertyId::AssignedClientIdentifier),
            0x13 => Ok(PropertyId::ServerKeepAlive),
            0x15 => Ok(PropertyId::AuthenticationMethod),
            0x16 => Ok(PropertyId::AuthenticationData),
            0x17 => Ok(PropertyId::RequestProblemInformation),
            0x18 => Ok(PropertyId::WillDelayInterval),
            0x19 => Ok(PropertyId::RequestResponseInformation),
            0x1A => Ok(PropertyId::ResponseInformation),
            0x1C => Ok(PropertyId::ServerReference),
            0x1F => Ok(PropertyId::ReasonString),
            0x21 => Ok(PropertyId::ReceiveMaximum),
            0x22 => Ok(PropertyId::TopicAliasMaximum),
            0x23 => Ok(PropertyId::TopicAlias),
            0x24 => Ok(PropertyId::MaximumQoS),
            0x25 => Ok(PropertyId::RetainAvailable),
            0x26 => Ok(PropertyId::UserProperty),
            0x27 => Ok(PropertyId::MaximumPacketSize),
            0x28 => Ok(PropertyId::WildcardSubscriptionAvailable),
            0x29 => Ok(PropertyId::SubscriptionIdentifierAvailable),
            0x2A => Ok(PropertyId::SharedSubscriptionAvailable),
            _ => Err(ErrorV5::InvalidPropertyId(value)),
        }
    }

    /// The wire value.
    pub fn to_u8(self) -> (r: u8)
        ensures
            r == self.spec_u8(),
    {
        match self {
            PropertyId::PayloadFormatIndicator => 0x01,
            PropertyId::MessageExpiryInterval => 0x02,
            PropertyId::ContentType => 0x03,
            PropertyId::ResponseTopic => 0x08,
            PropertyId::CorrelationData => 0x09,
            PropertyId::SubscriptionIdentifier => 0x0B,
            PropertyId::SessionExpiryInterval => 0x11,
            PropertyId::AssignedClientIdentifier => 0x12,
            PropertyId::ServerKeepAlive => 0x13,
            PropertyId::AuthenticationMethod => 0x15,
            PropertyId::AuthenticationData => 0x16,
            PropertyId::RequestProblemInformation => 0x17,
            PropertyId::WillDelayInterval => 0x18,
            PropertyId::RequestResponseInformation => 0x19,
            PropertyId::ResponseInformation => 0x1A,
            PropertyId::ServerReference => 0x1C,
            PropertyId::ReasonString => 0x1F,
            PropertyId::ReceiveMaximum => 0x21,
            PropertyId::TopicAliasMaximum => 0x22,
            PropertyId::TopicAlias => 0x23,
            PropertyId::MaximumQoS => 0x24,
            PropertyId::RetainAvailable => 0x25,
            PropertyId::UserProperty => 0x26,
            PropertyId::MaximumPacketSize => 0x27,
            PropertyId::WildcardSubscriptionAvailable => 0x28,
            PropertyId::SubscriptionIdentifierAvailable => 0x29,
            PropertyId::SharedSubscriptionAvailable => 0x2A,
        }
    }

    /// The wire value of an identifier decodes to the identifier, and a wire
    /// value that decodes is the wire value of its identifier.
    pub proof fn lemma_u8_roundtrip(id: PropertyId, value: u8)
        ensures
            PropertyId::spec_from_u8(id.spec_u8()) == Some(id),
            PropertyId::spec_from_u8(value) matches Some(d) ==> d.spec_u8() == value,
    {
    }
}

/// Errors of the MQTT v5.0 encoding and decoding processes.
#[derive(Debug, Clone, PartialEq, Eq)]
pub enum ErrorV5 {
    /// An error that v3 and v5 share.
    Common(Error),
    /// Invalid reason code for a packet type.
    InvalidReasonCode(PacketType, u8),
    /// Invalid subscription option byte.
    InvalidSubscriptionOption(u8),
    /// The payload is marked UTF-8 and is not.
    InvalidPayloadFormat,
    /// Invalid response topic.
    InvalidResponseTopic,
    /// Unknown property identifier.
    InvalidPropertyId(u8),
    /// The properties do not add up to their length.
    InvalidPropertyLength(u32),
    /// Invalid byte value of a property.
    InvalidByteProperty(PropertyId, u8),
    /// A property that occurs twice.
    DuplicatedProperty(PropertyId),
    /// A property that the packet type does not take.
    InvalidProperty(PacketType, PropertyId),
    /// A property that a will message does not take.
    InvalidWillProperty(PropertyId),
}

/// What a spec decoder says that a v5.0 error is.
pub enum DecodeErrV5 {
    Common(DecodeErr),
    Other(ErrorV5),
}

/// The result of a v5.0 spec decoder: the value and the offset after it.
pub type VResult<T> = Result<(T, int), DecodeErrV5>;

/// Turns a v3/v5 decoder result into a v5.0 one.
pub open spec fn common<T>(p: PResult<T>) -> VResult<T> {
    match p {
        Ok(x) => Ok(x),
        Err(e) => Err(DecodeErrV5::Common(e)),
    }
}

/// Turns a primitive parse into a v5.0 decoder result.
pub open spec fn vplain<T>(p: Result<(T, int), Error>) -> VResult<T> {
    match p {
        Ok(x) => Ok(x),
        Err(e) => Err(DecodeErrV5::Common(DecodeErr::Plain(e))),
    }
}

/// A v5.0 error that is not a shared one.
pub open spec fn v5err<T>(e: ErrorV5) -> VResult<T> {
    Err(DecodeErrV5::Other(e))
}

/// A shared error without a string.
pub open spec fn cerr<T>(e: Error) -> VResult<T> {
    Err(DecodeErrV5::Common(DecodeErr::Plain(e)))
}

impl ErrorV5 {
    /// Whether this error is the one the spec decoder describes.
    pub open spec fn is(self, e: DecodeErrV5) -> bool {
        match e {
            DecodeErrV5::Common(d) => self matches ErrorV5::Common(x) && x.is(d),
            DecodeErrV5::Other(o) => !(o is Common) && self == o,
        }
    }

    /// Whether the error says that the input ended too early.
    pub fn is_eof(&self) -> (r: bool)
        ensures
            r == (*self == ErrorV5::Common(Error::eof())),
    {
        match self {
            ErrorV5::Common(err) => err.is_eof(),
            _ => false,
        }
    }
}

impl From<Error> for ErrorV5 {
    fn from(err: Error) -> (r: ErrorV5) {
        ErrorV5::Common(err)
    }
}

impl vstd::std_specs::convert::FromSpecImpl<Error> for ErrorV5 {
    open spec fn obeys_from_spec() -> bool {
        true
    }

    open spec fn from_spec(err: Error) -> ErrorV5 {
        ErrorV5::Common(err)
    }
}

/// Variable byte integer: a value below 268,435,456.
#[derive(Debug, Clone, Copy, PartialEq, Eq, Hash, Default, PartialOrd, Ord)]
pub struct VarByteInt(u32);

impl VarByteInt {
    #[verifier::type_invariant]
    spec fn fits(self) -> bool {
        self.0 < 268435456
    }

    /// The value.
    pub closed spec fn spec_value(self) -> u32 {
        self.0
    }

    /// The value.
    pub fn value(self) -> (r: u32)
        ensures
            r == self.spec_value(),
            r < 268435456,
    {
        proof {
            use_type_invariant(&self);
        }
        self.0
    }

    /// The integer of a value.
    pub closed spec fn new_spec(value: u32) -> VarByteInt {
        VarByteInt(value)
    }

    pub proof fn lemma_new_spec(value: u32)
        ensures
            VarByteInt::new_spec(value).spec_value() == value,
    {
    }

    /// Makes the value if it fits.
    pub fn try_new(value: u32) -> (r: Result<VarByteInt, ErrorV5>)
        ensures
            value < 268435456 ==> r == Ok::<VarByteInt, ErrorV5>(VarByteInt::new_spec(value)),
            value < 268435456 ==> (r matches Ok(v) && v.spec_value() == value),
            value >= 268435456 ==> r == Err::<VarByteInt, ErrorV5>(
                ErrorV5::Common(Error::InvalidVarByteInt),
            ),
    {
        if value < 268435456 {
            Ok(VarByteInt(value))
        } else {
            Err(ErrorV5::Common(Error::InvalidVarByteInt))
        }
    }
}

impl TryFrom<u32> for VarByteInt {
    type Error = ErrorV5;

    fn try_from(value: u32) -> (r: Result<VarByteInt, ErrorV5>) {
        VarByteInt::try_new(value)
    }
}

impl vstd::std_specs::convert::TryFromSpecImpl<u32> for VarByteInt {
    open spec fn obeys_try_from_spec() -> bool {
        true
    }

    open spec fn try_from_spec(value: u32) -> Result<VarByteInt, ErrorV5> {
        if value < 268435456 {
            Ok(VarByteInt::new_spec(value))
        } else {
            Err(ErrorV5::Common(Error::InvalidVarByteInt))
        }
    }
}

/// A user property: a pair of UTF-8 strings.
#[derive(Debug, Clone, PartialEq, Eq, Hash)]
pub struct UserProperty {
    /// The name.
    pub name: String,
    /// The value.
    pub value: String,
}

impl View for UserProperty {
    type V = (Seq<u8>, Seq<u8>);

    open spec fn view(&self) -> (Seq<u8>, Seq<u8>) {
        (vstd::utf8::encode_utf8(self.name@), vstd::utf8::encode_utf8(self.value@))
    }
}

/// When the server sends the retained messages of a new subscription.
#[derive(Debug, Clone, Copy, PartialEq, Eq, Structural, Hash)]
pub enum RetainHandling {
    SendAtSubscribe,
    SendAtSubscribeIfNotExist,
    DoNotSend,
}

impl RetainHandling {
    /// The wire value.
    pub open spec fn spec_u8(self) -> u8 {
        match self {
            RetainHandling::SendAtSubscribe => 0,
            RetainHandling::SendAtSubscribeIfNotExist => 1,
            RetainHandling::DoNotSend => 2,
        }
    }

    /// The option of a wire value, if any.
    pub open spec fn spec_from_u8(value: u8) -> Option<RetainHandling> {
        if value == 0 {
            Some(RetainHandling::SendAtSubscribe)
        } else if value == 1 {
            Some(RetainHandling::SendAtSubscribeIfNotExist)
        } else if value == 2 {
            Some(RetainHandling::DoNotSend)
        } else {
            None
        }
    }

    /// Decodes a wire value.
    pub fn from_u8(value: u8) -> (r: Option<RetainHandling>)
        ensures
            r == RetainHandling::spec_from_u8(value),
    {
        match value {
            0 => Some(RetainHandling::SendAtSubscribe),
            1 => Some(RetainHandling::SendAtSubscribeIfNotExist),
            2 => Some(RetainHandling::DoNotSend),
            _ => None,
        }
    }

    /// The wire value.
    pub fn to_u8(self) -> (r: u8)
        ensures
            r == self.spec_u8(),
    {
        match self {
            RetainHandling::SendAtSubscribe => 0,
            RetainHandling::SendAtSubscribeIfNotExist => 1,
            RetainHandling::DoNotSend => 2,
        }
    }

    /// The wire values that MQTT 5.0 fixes: each option is written as the value
    /// beside it below, that value decodes to the option, and no other byte
    /// decodes.
    pub proof fn lemma_wire_values()
        ensures
            RetainHandling::SendAtSubscribe.spec_u8() == 0x00u8,
            RetainHandling::SendAtSubscribeIfNotExist.spec_u8() == 0x01u8,
            RetainHandling::DoNotSend.spec_u8() == 0x02u8,
            RetainHandling::spec_from_u8(0x00u8) == Some(RetainHandling::SendAtSubscribe),
            RetainHandling::spec_from_u8(0x01u8) == Some(RetainHandling::SendAtSubscribeIfNotExist),
            RetainHandling::spec_from_u8(0x02u8) == Some(RetainHandling::DoNotSend),
            forall|b: u8| #[trigger] RetainHandling::spec_from_u8(b) is Some ==> (b == 0x00u8 || b == 0x01u8 || b == 0x02u8),
    {
    }

    /// The wire value of an option decodes to the option, and a wire value
    /// that decodes is the wire value of its option.
    pub proof fn lemma_u8_roundtrip(c: RetainHandling, value: u8)
        ensures
            RetainHandling::spec_from_u8(c.spec_u8()) == Some(c),
            RetainHandling::spec_from_u8(value) matches Some(d) ==> d.spec_u8() == value,
    {
    }
}

/// The options of one subscription.
#[derive(Debug, Clone, Copy, PartialEq, Eq, Structural, Hash)]
pub struct SubscriptionOptions {
    pub max_qos: QoS,
    pub no_local: bool,
    pub retain_as_published: bool,
    pub retain_handling: RetainHandling,
}

impl SubscriptionOptions {
    /// The options byte: QoS in bits 0-1, no local in bit 2, retain as
    /// published in bit 3, retain handling in bits 4-5.
    pub open spec fn spec_u8(self) -> u8 {
        (self.max_qos.spec_u8() + (if self.no_local {
            4u8
        } else {
            0u8
        }) + (if self.retain_as_published {
            8u8
        } else {
            0u8
        }) + 16 * self.retain_handling.spec_u8()) as u8
    }

    /// The options of a byte; `None` when bits 6-7 are set or the QoS or
    /// retain handling field has no meaning.
    pub open spec fn spec_from_u8(b: u8) -> Option<SubscriptionOptions> {
        if b >= 64 {
            None
        } else {
            match (QoS::spec_from_u8(b % 4), RetainHandling::spec_from_u8(b / 16)) {
                (Some(q), Some(rh)) => Some(
                    SubscriptionOptions {
                        max_qos: q,
                        no_local: (b / 4) % 2 == 1,
                        retain_as_published: (b / 8) % 2 == 1,
                        retain_handling: rh,
                    },
                ),
                _ => None,
            }
        }
    }

    /// Options with the given QoS: local messages, retain as published,
    /// retained messages sent at subscribe.
    pub fn new(max_qos: QoS) -> (r: Self)
        ensures
            r == (SubscriptionOptions {
                max_qos,
                no_local: false,
                retain_as_published: true,
                retain_handling: RetainHandling::SendAtSubscribe,
            }),
    {
        SubscriptionOptions {
            max_qos,
            no_local: false,
            retain_as_published: true,
            retain_handling: RetainHandling::SendAtSubscribe,
        }
    }

    /// The options byte.
    pub fn to_u8(&self) -> (r: u8)
        ensures
            r == self.spec_u8(),
    {
        let mut byte = self.max_qos.to_u8();
        if self.no_local {
            byte += 4;
        }
        if self.retain_as_published {
            byte += 8;
        }
        byte + 16 * self.retain_handling.to_u8()
    }

    /// Decodes an options byte.
    pub fn from_u8(b: u8) -> (r: Result<SubscriptionOptions, ErrorV5>)
        ensures
            match SubscriptionOptions::spec_from_u8(b) {
                Some(o) => r == Ok::<SubscriptionOptions, ErrorV5>(o),
                None => r == Err::<SubscriptionOptions, ErrorV5>(
                    ErrorV5::InvalidSubscriptionOption(b),
                ),
            },
    {
        if b >= 64 {
            return Err(ErrorV5::InvalidSubscriptionOption(b));
        }
        let max_qos = match QoS::from_u8(b % 4) {
            Ok(q) => q,
            Err(_) => return Err(ErrorV5::InvalidSubscriptionOption(b)),
        };
        let retain_handling = match RetainHandling::from_u8(b / 16) {
            Some(rh) => rh,
            None => return Err(ErrorV5::InvalidSubscriptionOption(b)),
        };
        Ok(
            SubscriptionOptions {
                max_qos,
                no_local: (b / 4) % 2 == 1,
                retain_as_published: (b / 8) % 2 == 1,
                retain_handling,
            },
        )
    }

    /// The bit layout of the options byte: bits 0-1 hold the QoS level, bit 2
    /// is No Local, bit 3 is Retain As Published, bits 4-5 hold the retain
    /// handling, bits 6-7 are zero; decoding reads each field from the same
    /// bits, and a byte decodes exactly when bits 6-7 are zero and both of
    /// its two-bit fields have a meaning.
    pub proof fn lemma_bit_layout(o: SubscriptionOptions, b: u8)
        ensures
            o.spec_u8() & 3u8 == o.max_qos.spec_u8(),
            (o.spec_u8() & 4u8 != 0) == o.no_local,
            (o.spec_u8() & 8u8 != 0) == o.retain_as_published,
            o.spec_u8() >> 4u8 == o.retain_handling.spec_u8(),
            o.spec_u8() & 0xC0u8 == 0,
            SubscriptionOptions::spec_from_u8(b) matches Some(p) ==> {
                &&& b & 0xC0u8 == 0
                &&& p.max_qos.spec_u8() == b & 3u8
                &&& p.no_local == (b & 4u8 != 0)
                &&& p.retain_as_published == (b & 8u8 != 0)
                &&& p.retain_handling.spec_u8() == b >> 4u8
            },
            (b & 0xC0u8 == 0 && QoS::spec_from_u8(b & 3u8) is Some && RetainHandling::spec_from_u8(
                b >> 4u8,
            ) is Some) ==> SubscriptionOptions::spec_from_u8(b) is Some,
    {
        let q = o.max_qos.spec_u8();
        let rh = o.retain_handling.spec_u8();
        let n: u8 = if o.no_local { 4 } else { 0 };
        let r: u8 = if o.retain_as_published { 8 } else { 0 };
        let v = o.spec_u8();
        assert(q <= 2 && rh <= 2);
        assert(v == (q + n + r + 16 * rh) as u8);
        assert(v & 3u8 == q && ((v & 4u8 != 0) == (n == 4)) && ((v & 8u8 != 0) == (r == 8)) && v >> 4u8
            == rh && v & 0xC0u8 == 0) by (bit_vector)
            requires
                v == (q + n + r + 16 * rh) as u8,
                q <= 2,
                rh <= 2,
                n == 0 || n == 4,
                r == 0 || r == 8,
        ;
        assert(b % 4 == b & 3u8 && b / 16 == b >> 4u8 && (((b / 4) % 2 == 1) == (b & 4u8 != 0)) && (((
        b / 8) % 2 == 1) == (b & 8u8 != 0)) && ((b >= 64) == (b & 0xC0u8 != 0))) by (bit_vector);
        if let Some(p) = SubscriptionOptions::spec_from_u8(b) {
            QoS::lemma_u8_roundtrip(p.max_qos, (b % 4) as u8);
            RetainHandling::lemma_u8_roundtrip(p.retain_handling, (b / 16) as u8);
        }
    }

    /// The byte of options decodes to the options.
    pub proof fn lemma_u8_roundtrip(o: SubscriptionOptions)
        ensures
            SubscriptionOptions::spec_from_u8(o.spec_u8()) == Some(o),
    {
        let b = o.spec_u8();
        assert(b % 4 == o.max_qos.spec_u8());
        assert(b / 16 == o.retain_handling.spec_u8());
    }
}

/// Fixed header.
#[derive(Debug, Clone, Copy, PartialEq, Eq, Structural, Hash)]
pub struct Header {
    pub typ: PacketType,
    pub dup: bool,
    pub qos: QoS,
    pub retain: bool,
    pub remaining_len: u32,
}

/// The packet type of the upper four bits of the first byte, and the flags
/// that its lower four bits must hold (publish takes any).
pub open spec fn spec_type_of(hd: u8) -> Option<(PacketType, Option<u8>)> {
    let t = hd / 16;
    if t == 1 {
        Some((PacketType::Connect, Some(0u8)))
    } else if t == 2 {
        Some((PacketType::Connack, Some(0u8)))
    } else if t == 3 {
        Some((PacketType::Publish, None))
    } else if t == 4 {
        Some((PacketType::Puback, Some(0u8)))
    } else if t == 5 {
        Some((PacketType::Pubrec, Some(0u8)))
    } else if t == 6 {
        Some((PacketType::Pubrel, Some(2u8)))
    } else if t == 7 {
        Some((PacketType::Pubcomp, Some(0u8)))
    } else if t == 8 {
        Some((PacketType::Subscribe, Some(2u8)))
    } else if t == 9 {
        Some((PacketType::Suback, Some(0u8)))
    } else if t == 10 {
        Some((PacketType::Unsubscribe, Some(2u8)))
    } else if t == 11 {
        Some((PacketType::Unsuback, Some(0u8)))
    } else if t == 12 {
        Some((PacketType::Pingreq, Some(0u8)))
    } else if t == 13 {
        Some((PacketType::Pingresp, Some(0u8)))
    } else if t == 14 {
        Some((PacketType::Disconnect, Some(0u8)))
    } else if t == 15 {
        Some((PacketType::Auth, Some(0u8)))
    } else {
        None
    }
}

/// The packet type numbers of MQTT 5.0 in the upper four bits of the first
/// byte, and the flags that its lower four bits must hold: 1 connect,
/// 2 connack, 3 publish (any flags), 4 puback, 5 pubrec, 6 pubrel (flags 2),
/// 7 pubcomp, 8 subscribe (flags 2), 9 suback, 10 unsubscribe (flags 2),
/// 11 unsuback, 12 ping request, 13 ping response, 14 disconnect, 15 auth;
/// 0 is no type. Only the upper four bits choose the type.
pub proof fn lemma_type_numbers(hd: u8)
    ensures
        spec_type_of(16u8) == Some((PacketType::Connect, Some(0u8))),
        spec_type_of(32u8) == Some((PacketType::Connack, Some(0u8))),
        spec_type_of(48u8) == Some((PacketType::Publish, None::<u8>)),
        spec_type_of(64u8) == Some((PacketType::Puback, Some(0u8))),
        spec_type_of(80u8) == Some((PacketType::Pubrec, Some(0u8))),
        spec_type_of(96u8) == Some((PacketType::Pubrel, Some(2u8))),
        spec_type_of(112u8) == Some((PacketType::Pubcomp, Some(0u8))),
        spec_type_of(128u8) == Some((PacketType::Subscribe, Some(2u8))),
        spec_type_of(144u8) == Some((PacketType::Suback, Some(0u8))),
        spec_type_of(160u8) == Some((PacketType::Unsubscribe, Some(2u8))),
        spec_type_of(176u8) == Some((PacketType::Unsuback, Some(0u8))),
        spec_type_of(192u8) == Some((PacketType::Pingreq, Some(0u8))),
        spec_type_of(208u8) == Some((PacketType::Pingresp, Some(0u8))),
        spec_type_of(224u8) == Some((PacketType::Disconnect, Some(0u8))),
        spec_type_of(240u8) == Some((PacketType::Auth, Some(0u8))),
        spec_type_of(0u8) is None,
        spec_type_of(hd) == spec_type_of(((hd / 16) * 16) as u8),
{
}


/// The header of a first byte and a remaining length.
pub open spec fn spec_header(hd: u8, remaining_len: u32) -> Result<Header, Error> {
    match spec_type_of(hd) {
        None => Err(Error::InvalidHeader),
        Some((typ, Some(flags))) => if hd % 16 == flags {
            Ok(Header { typ, dup: false, qos: QoS::Level0, retain: false, remaining_len })
        } else {
            Err(Error::InvalidHeader)
        },
        Some((typ, None)) => match QoS::spec_from_u8((hd % 8) / 2) {
            Some(qos) => Ok(
                Header {
                    typ,
                    dup: (hd / 8) % 2 == 1,
                    qos,
                    retain: hd % 2 == 1,
                    remaining_len,
                },
            ),
            None => Err(Error::InvalidQos((hd % 8) / 2)),
        },
    }
}

/// Decodes a fixed header at `off`.
pub open spec fn sp_header(d: Seq<u8>, off: int) -> Result<(Header, int), Error> {
    match sp_u8(d, off) {
        Ok((hd, o1)) => match sp_var_int(d, o1) {
            Ok((rem, o2)) => match spec_header(hd, rem as u32) {
                Ok(h) => Ok((h, o2)),
                Err(e) => Err(e),
            },
            Err(e) => Err(e),
        },
        Err(e) => Err(e),
    }
}

impl Header {
    pub fn new(typ: PacketType, dup: bool, qos: QoS, retain: bool, remaining_len: u32) -> (r: Self)
        ensures
            r == (Header { typ, dup, qos, retain, remaining_len }),
    {
        Header { typ, dup, qos, retain, remaining_len }
    }

    /// Makes the header of a first byte and a remaining length.
    pub fn new_with(hd: u8, remaining_len: u32) -> (r: Result<Header, ErrorV5>)
        ensures
            match spec_header(hd, remaining_len) {
                Ok(h) => r == Ok::<Header, ErrorV5>(h),
                Err(e) => r == Err::<Header, ErrorV5>(ErrorV5::Common(e)),
            },
    {
        let flags = hd % 16;
        let (typ, flags_ok) = match hd / 16 {
            1 => (PacketType::Connect, flags == 0),
            2 => (PacketType::Connack, flags == 0),
            3 => {
                let qos = match QoS::from_u8((hd % 8) / 2) {
                    Ok(q) => q,
                    Err(e) => return Err(ErrorV5::Common(e)),
                };
                return Ok(
                    Header {
                        typ: PacketType::Publish,
                        dup: (hd / 8) % 2 == 1,
                        qos,
                        retain: hd % 2 == 1,
                        remaining_len,
                    },
                );
            },
            4 => (PacketType::Puback, flags == 0),
            5 => (PacketType::Pubrec, flags == 0),
            6 => (PacketType::Pubrel, flags == 2),
            7 => (PacketType::Pubcomp, flags == 0),
            8 => (PacketType::Subscribe, flags == 2),
            9 => (PacketType::Suback, flags == 0),
            10 => (PacketType::Unsubscribe, flags == 2),
            11 => (PacketType::Unsuback, flags == 0),
            12 => (PacketType::Pingreq, flags == 0),
            13 => (PacketType::Pingresp, flags == 0),
            14 => (PacketType::Disconnect, flags == 0),
            15 => (PacketType::Auth, flags == 0),
            _ => return Err(ErrorV5::Common(Error::InvalidHeader)),
        };
        if !flags_ok {
            return Err(ErrorV5::Common(Error::InvalidHeader));
        }
        Ok(Header { typ, dup: false, qos: QoS::Level0, retain: false, remaining_len })
    }

    /// Decodes a fixed header at the start of `bytes`.
    pub fn decode(bytes: &[u8]) -> (r: Result<Header, ErrorV5>)
        ensures
            match sp_header(bytes@, 0) {
                Ok((h, _)) => r == Ok::<Header, ErrorV5>(h),
                Err(e) => r == Err::<Header, ErrorV5>(ErrorV5::Common(e)),
            },
    {
        let mut buf = PacketBuf::new(bytes);
        Self::decode_buf(&mut buf)
    }

    /// Decodes a fixed header at the cursor.
    pub fn decode_buf(buf: &mut PacketBuf) -> (r: Result<Header, ErrorV5>)
        ensures
            final(buf).bytes() == old(buf).bytes(),
            match sp_header(old(buf).bytes(), old(buf).pos()) {
                Ok((h, next)) => r == Ok::<Header, ErrorV5>(h) && final(buf).pos() == next,
                Err(e) => r == Err::<Header, ErrorV5>(ErrorV5::Common(e)),
            },
    {
        let hd = match buf.read_u8() {
            Ok(b) => b,
            Err(e) => return Err(ErrorV5::Common(e)),
        };
        let (remaining_len, _) = match buf.decode_var_int() {
            Ok(v) => v,
            Err(e) => return Err(ErrorV5::Common(e)),
        };
        Header::new_with(hd, remaining_len)
    }
}

} // verus!
