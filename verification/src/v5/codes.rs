use vstd::prelude::*;

verus! {

/// Reason code of a connack packet.
#[derive(Debug, Clone, Copy, PartialEq, Eq, Structural, Hash)]
pub enum ConnectReasonCode {
    Success,
    UnspecifiedError,
    MalformedPacket,
    ProtocolError,
    ImplementationSpecificError,
    UnsupportedProtocolVersion,
    ClientIdentifierNotValid,
    BadUserNameOrPassword,
    NotAuthorized,
    ServerUnavailable,
    ServerBusy,
    Banned,
    BadAuthMethod,
    TopicNameInvalid,
    PacketTooLarge,
    QuotaExceeded,
    PayloadFormatInvalid,
    RetainNotSupported,
    QoSNotSupported,
    UseAnotherServer,
    ServerMoved,
    ConnectionRateExceeded,
}

impl ConnectReasonCode {
    /// The wire value.
    pub open spec fn spec_u8(self) -> u8 {
        match self {
            ConnectReasonCode::Success => 0x00,
            ConnectReasonCode::UnspecifiedError => 0x80,
            ConnectReasonCode::MalformedPacket => 0x81,
            ConnectReasonCode::ProtocolError => 0x82,
            ConnectReasonCode::ImplementationSpecificError => 0x83,
            ConnectReasonCode::UnsupportedProtocolVersion => 0x84,
            ConnectReasonCode::ClientIdentifierNotValid => 0x85,
            ConnectReasonCode::BadUserNameOrPassword => 0x86,
            ConnectReasonCode::NotAuthorized => 0x87,
            ConnectReasonCode::ServerUnavailable => 0x88,
            ConnectReasonCode::ServerBusy => 0x89,
            ConnectReasonCode::Banned => 0x8A,
            ConnectReasonCode::BadAuthMethod => 0x8C,
            ConnectReasonCode::TopicNameInvalid => 0x90,
            ConnectReasonCode::PacketTooLarge => 0x95,
            ConnectReasonCode::QuotaExceeded => 0x97,
            ConnectReasonCode::PayloadFormatInvalid => 0x99,
            ConnectReasonCode::RetainNotSupported => 0x9A,
            ConnectReasonCode::QoSNotSupported => 0x9B,
            ConnectReasonCode::UseAnotherServer => 0x9C,
            ConnectReasonCode::ServerMoved => 0x9D,
            ConnectReasonCode::ConnectionRateExceeded => 0x9F,
        }
    }

    /// The code of a wire value, if any.
    pub open spec fn spec_from_u8(value: u8) -> Option<ConnectReasonCode> {
        if value == 0x00 {
            Some(ConnectReasonCode::Success)
        } else if value == 0x80 {
            Some(ConnectReasonCode::UnspecifiedError)
        } else if value == 0x81 {
            Some(ConnectReasonCode::MalformedPacket)
        } else if value == 0x82 {
            Some(ConnectReasonCode::ProtocolError)
        } else if value == 0x83 {
            Some(ConnectReasonCode::ImplementationSpecificError)
        } else if value == 0x84 {
            Some(ConnectReasonCode::UnsupportedProtocolVersion)
        } else if value == 0x85 {
            Some(ConnectReasonCode::ClientIdentifierNotValid)
        } else if value == 0x86 {
            Some(ConnectReasonCode::BadUserNameOrPassword)
        } else if value == 0x87 {
            Some(ConnectReasonCode::NotAuthorized)
        } else if value == 0x88 {
            Some(ConnectReasonCode::ServerUnavailable)
        } else if value == 0x89 {
            Some(ConnectReasonCode::ServerBusy)
        } else if value == 0x8A {
            Some(ConnectReasonCode::Banned)
        } else if value == 0x8C {
            Some(ConnectReasonCode::BadAuthMethod)
        } else if value == 0x90 {
            Some(ConnectReasonCode::TopicNameInvalid)
        } else if value == 0x95 {
            Some(ConnectReasonCode::PacketTooLarge)
        } else if value == 0x97 {
            Some(ConnectReasonCode::QuotaExceeded)
        } else if value == 0x99 {
            Some(ConnectReasonCode::PayloadFormatInvalid)
        } else if value == 0x9A {
            Some(ConnectReasonCode::RetainNotSupported)
        } else if value == 0x9B {
            Some(ConnectReasonCode::QoSNotSupported)
        } else if value == 0x9C {
            Some(ConnectReasonCode::UseAnotherServer)
        } else if value == 0x9D {
            Some(ConnectReasonCode::ServerMoved)
        } else if value == 0x9F {
            Some(ConnectReasonCode::ConnectionRateExceeded)
        } else {
            None
        }
    }

    /// Decodes a wire value.
    pub fn from_u8(value: u8) -> (r: Option<ConnectReasonCode>)
        ensures
            r == ConnectReasonCode::spec_from_u8(value),
    {
        match value {
            0x00 => Some(ConnectReasonCode::Success),
            0x80 => Some(ConnectReasonCode::UnspecifiedError),
            0x81 => Some(ConnectReasonCode::MalformedPacket),
            0x82 => Some(ConnectReasonCode::ProtocolError),
            0x83 => Some(ConnectReasonCode::ImplementationSpecificError),
            0x84 => Some(ConnectReasonCode::UnsupportedProtocolVersion),
            0x85 => Some(ConnectReasonCode::ClientIdentifierNotValid),
            0x86 => Some(ConnectReasonCode::BadUserNameOrPassword),
            0x87 => Some(ConnectReasonCode::NotAuthorized),
            0x88 => Some(ConnectReasonCode::ServerUnavailable),
            0x89 => Some(ConnectReasonCode::ServerBusy),
            0x8A => Some(ConnectReasonCode::Banned),
            0x8C => Some(ConnectReasonCode::BadAuthMethod),
            0x90 => Some(ConnectReasonCode::TopicNameInvalid),
            0x95 => Some(ConnectReasonCode::PacketTooLarge),
            0x97 => Some(ConnectReasonCode::QuotaExceeded),
            0x99 => Some(ConnectReasonCode::PayloadFormatInvalid),
            0x9A => Some(ConnectReasonCode::RetainNotSupported),
            0x9B => Some(ConnectReasonCode::QoSNotSupported),
            0x9C => Some(ConnectReasonCode::UseAnotherServer),
            0x9D => Some(ConnectReasonCode::ServerMoved),
            0x9F => Some(ConnectReasonCode::ConnectionRateExceeded),
            _ => None,
        }
    }

    /// The wire value.
    pub fn to_u8(self) -> (r: u8)
        ensures
            r == self.spec_u8(),
    {
        match self {
            ConnectReasonCode::Success => 0x00,
            ConnectReasonCode::UnspecifiedError => 0x80,
            ConnectReasonCode::MalformedPacket => 0x81,
            ConnectReasonCode::ProtocolError => 0x82,
            ConnectReasonCode::ImplementationSpecificError => 0x83,
            ConnectReasonCode::UnsupportedProtocolVersion => 0x84,
            ConnectReasonCode::ClientIdentifierNotValid => 0x85,
            ConnectReasonCode::BadUserNameOrPassword => 0x86,
            ConnectReasonCode::NotAuthorized => 0x87,
            ConnectReasonCode::ServerUnavailable => 0x88,
            ConnectReasonCode::ServerBusy => 0x89,
            ConnectReasonCode::Banned => 0x8A,
            ConnectReasonCode::BadAuthMethod => 0x8C,
            ConnectReasonCode::TopicNameInvalid => 0x90,
            ConnectReasonCode::PacketTooLarge => 0x95,
            ConnectReasonCode::QuotaExceeded => 0x97,
            ConnectReasonCode::PayloadFormatInvalid => 0x99,
            ConnectReasonCode::RetainNotSupported => 0x9A,
            ConnectReasonCode::QoSNotSupported => 0x9B,
            ConnectReasonCode::UseAnotherServer => 0x9C,
            ConnectReasonCode::ServerMoved => 0x9D,
            ConnectReasonCode::ConnectionRateExceeded => 0x9F,
        }
    }

    /// The wire values that MQTT 5.0 fixes: each code is written as the value
    /// beside it below, that value decodes to the code, and no other byte
    /// decodes.
    pub proof fn lemma_wire_values()
        ensures
            ConnectReasonCode::Success.spec_u8() == 0x00u8,
            ConnectReasonCode::UnspecifiedError.spec_u8() == 0x80u8,
            ConnectReasonCode::MalformedPacket.spec_u8() == 0x81u8,
            ConnectReasonCode::ProtocolError.spec_u8() == 0x82u8,
            ConnectReasonCode::ImplementationSpecificError.spec_u8() == 0x83u8,
            ConnectReasonCode::UnsupportedProtocolVersion.spec_u8() == 0x84u8,
            ConnectReasonCode::ClientIdentifierNotValid.spec_u8() == 0x85u8,
            ConnectReasonCode::BadUserNameOrPassword.spec_u8() == 0x86u8,
            ConnectReasonCode::NotAuthorized.spec_u8() == 0x87u8,
            ConnectReasonCode::ServerUnavailable.spec_u8() == 0x88u8,
            ConnectReasonCode::ServerBusy.spec_u8() == 0x89u8,
            ConnectReasonCode::Banned.spec_u8() == 0x8Au8,
            ConnectReasonCode::BadAuthMethod.spec_u8() == 0x8Cu8,
            ConnectReasonCode::TopicNameInvalid.spec_u8() == 0x90u8,
            ConnectReasonCode::PacketTooLarge.spec_u8() == 0x95u8,
            ConnectReasonCode::QuotaExceeded.spec_u8() == 0x97u8,
            ConnectReasonCode::PayloadFormatInvalid.spec_u8() == 0x99u8,
            ConnectReasonCode::RetainNotSupported.spec_u8() == 0x9Au8,
            ConnectReasonCode::QoSNotSupported.spec_u8() == 0x9Bu8,
            ConnectReasonCode::UseAnotherServer.spec_u8() == 0x9Cu8,
            ConnectReasonCode::ServerMoved.spec_u8() == 0x9Du8,
            ConnectReasonCode::ConnectionRateExceeded.spec_u8() == 0x9Fu8,
            ConnectReasonCode::spec_from_u8(0x00u8) == Some(ConnectReasonCode::Success),
            ConnectReasonCode::spec_from_u8(0x80u8) == Some(ConnectReasonCode::UnspecifiedError),
            ConnectReasonCode::spec_from_u8(0x81u8) == Some(ConnectReasonCode::MalformedPacket),
            ConnectReasonCode::spec_from_u8(0x82u8) == Some(ConnectReasonCode::ProtocolError),
            ConnectReasonCode::spec_from_u8(0x83u8) == Some(ConnectReasonCode::ImplementationSpecificError),
            ConnectReasonCode::spec_from_u8(0x84u8) == Some(ConnectReasonCode::UnsupportedProtocolVersion),
            ConnectReasonCode::spec_from_u8(0x85u8) == Some(ConnectReasonCode::ClientIdentifierNotValid),
            ConnectReasonCode::spec_from_u8(0x86u8) == Some(ConnectReasonCode::BadUserNameOrPassword),
            ConnectReasonCode::spec_from_u8(0x87u8) == Some(ConnectReasonCode::NotAuthorized),
            ConnectReasonCode::spec_from_u8(0x88u8) == Some(ConnectReasonCode::ServerUnavailable),
            ConnectReasonCode::spec_from_u8(0x89u8) == Some(ConnectReasonCode::ServerBusy),
            ConnectReasonCode::spec_from_u8(0x8Au8) == Some(ConnectReasonCode::Banned),
            ConnectReasonCode::spec_from_u8(0x8Cu8) == Some(ConnectReasonCode::BadAuthMethod),
            ConnectReasonCode::spec_from_u8(0x90u8) == Some(ConnectReasonCode::TopicNameInvalid),
            ConnectReasonCode::spec_from_u8(0x95u8) == Some(ConnectReasonCode::PacketTooLarge),
            ConnectReasonCode::spec_from_u8(0x97u8) == Some(ConnectReasonCode::QuotaExceeded),
            ConnectReasonCode::spec_from_u8(0x99u8) == Some(ConnectReasonCode::PayloadFormatInvalid),
            ConnectReasonCode::spec_from_u8(0x9Au8) == Some(ConnectReasonCode::RetainNotSupported),
            ConnectReasonCode::spec_from_u8(0x9Bu8) == Some(ConnectReasonCode::QoSNotSupported),
            ConnectReasonCode::spec_from_u8(0x9Cu8) == Some(ConnectReasonCode::UseAnotherServer),
            ConnectReasonCode::spec_from_u8(0x9Du8) == Some(ConnectReasonCode::ServerMoved),
            ConnectReasonCode::spec_from_u8(0x9Fu8) == Some(ConnectReasonCode::ConnectionRateExceeded),
            forall|b: u8| #[trigger] ConnectReasonCode::spec_from_u8(b) is Some ==> (b == 0x00u8 || b == 0x80u8 || b == 0x81u8 || b == 0x82u8 || b == 0x83u8 || b == 0x84u8 || b == 0x85u8 || b == 0x86u8 || b == 0x87u8 || b == 0x88u8 || b == 0x89u8 || b == 0x8Au8 || b == 0x8Cu8 || b == 0x90u8 || b == 0x95u8 || b == 0x97u8 || b == 0x99u8 || b == 0x9Au8 || b == 0x9Bu8 || b == 0x9Cu8 || b == 0x9Du8 || b == 0x9Fu8),
    {
    }

    /// The wire value of a code decodes to the code, and a wire value that
    /// decodes is the wire value of its code.
    pub proof fn lemma_u8_roundtrip(c: ConnectReasonCode, value: u8)
        ensures
            ConnectReasonCode::spec_from_u8(c.spec_u8()) == Some(c),
            ConnectReasonCode::spec_from_u8(value) matches Some(d) ==> d.spec_u8() == value,
    {
    }
}

/// Reason code of a disconnect packet.
#[derive(Debug, Clone, Copy, PartialEq, Eq, Structural, Hash)]
pub enum DisconnectReasonCode {
    NormalDisconnect,
    DisconnectWithWillMessage,
    UnspecifiedError,
    MalformedPacket,
    ProtocolError,
    ImplementationSpecificError,
    NotAuthorized,
    ServerBusy,
    ServerShuttingDown,
    KeepAliveTimeout,
    SessionTakenOver,
    TopicFilterInvalid,
    TopicNameInvalid,
    ReceiveMaximumExceeded,
    TopicAliasInvalid,
    PacketTooLarge,
    MessageRateTooHigh,
    QuotaExceeded,
    AdministrativeAction,
    PayloadFormatInvalid,
    RetainNotSupported,
    QoSNotSupported,
    UserAnotherServer,
    ServerMoved,
    SharedSubscriptionNotSupported,
    ConnectionRateExceeded,
    MaximumConnectTime,
    SubscriptionIdentifiersNotSupported,
    WildcardSubscriptionsNotSupported,
}

impl DisconnectReasonCode {
    /// The wire value.
    pub open spec fn spec_u8(self) -> u8 {
        match self {
            DisconnectReasonCode::NormalDisconnect => 0x00,
            DisconnectReasonCode::DisconnectWithWillMessage => 0x04,
            DisconnectReasonCode::UnspecifiedError => 0x80,
            DisconnectReasonCode::MalformedPacket => 0x81,
            DisconnectReasonCode::ProtocolError => 0x82,
            DisconnectReasonCode::ImplementationSpecificError => 0x83,
            DisconnectReasonCode::NotAuthorized => 0x87,
            DisconnectReasonCode::ServerBusy => 0x89,
            DisconnectReasonCode::ServerShuttingDown => 0x8B,
            DisconnectReasonCode::KeepAliveTimeout => 0x8D,
            DisconnectReasonCode::SessionTakenOver => 0x8E,
            DisconnectReasonCode::TopicFilterInvalid => 0x8F,
            DisconnectReasonCode::TopicNameInvalid => 0x90,
            DisconnectReasonCode::ReceiveMaximumExceeded => 0x93,
            DisconnectReasonCode::TopicAliasInvalid => 0x94,
            DisconnectReasonCode::PacketTooLarge => 0x95,
            DisconnectReasonCode::MessageRateTooHigh => 0x96,
            DisconnectReasonCode::QuotaExceeded => 0x97,
            DisconnectReasonCode::AdministrativeAction => 0x98,
            DisconnectReasonCode::PayloadFormatInvalid => 0x99,
            DisconnectReasonCode::RetainNotSupported => 0x9A,
            DisconnectReasonCode::QoSNotSupported => 0x9B,
            DisconnectReasonCode::UserAnotherServer => 0x9C,
            DisconnectReasonCode::ServerMoved => 0x9D,
            DisconnectReasonCode::SharedSubscriptionNotSupported => 0x9E,
            DisconnectReasonCode::ConnectionRateExceeded => 0x9F,
            DisconnectReasonCode::MaximumConnectTime => 0xA0,
            DisconnectReasonCode::SubscriptionIdentifiersNotSupported => 0xA1,
            DisconnectReasonCode::WildcardSubscriptionsNotSupported => 0xA2,
        }
    }

    /// The code of a wire value, if any.
    pub open spec fn spec_from_u8(value: u8) -> Option<DisconnectReasonCode> {
        if value == 0x00 {
            Some(DisconnectReasonCode::NormalDisconnect)
        } else if value == 0x04 {
            Some(DisconnectReasonCode::DisconnectWithWillMessage)
        } else if value == 0x80 {
            Some(DisconnectReasonCode::UnspecifiedError)
        } else if value == 0x81 {
            Some(DisconnectReasonCode::MalformedPacket)
        } else if value == 0x82 {
            Some(DisconnectReasonCode::ProtocolError)
        } else if value == 0x83 {
            Some(DisconnectReasonCode::ImplementationSpecificError)
        } else if value == 0x87 {
            Some(DisconnectReasonCode::NotAuthorized)
        } else if value == 0x89 {
            Some(DisconnectReasonCode::ServerBusy)
        } else if value == 0x8B {
            Some(DisconnectReasonCode::ServerShuttingDown)
        } else if value == 0x8D {
            Some(DisconnectReasonCode::KeepAliveTimeout)
        } else if value == 0x8E {
            Some(DisconnectReasonCode::SessionTakenOver)
        } else if value == 0x8F {
            Some(DisconnectReasonCode::TopicFilterInvalid)
        } else if value == 0x90 {
            Some(DisconnectReasonCode::TopicNameInvalid)
        } else if value == 0x93 {
            Some(DisconnectReasonCode::ReceiveMaximumExceeded)
        } else if value == 0x94 {
            Some(DisconnectReasonCode::TopicAliasInvalid)
        } else if value == 0x95 {
            Some(DisconnectReasonCode::PacketTooLarge)
        } else if value == 0x96 {
            Some(DisconnectReasonCode::MessageRateTooHigh)
        } else if value == 0x97 {
            Some(DisconnectReasonCode::QuotaExceeded)
        } else if value == 0x98 {
            Some(DisconnectReasonCode::AdministrativeAction)
        } else if value == 0x99 {
            Some(DisconnectReasonCode::PayloadFormatInvalid)
        } else if value == 0x9A {
            Some(DisconnectReasonCode::RetainNotSupported)
        } else if value == 0x9B {
            Some(DisconnectReasonCode::QoSNotSupported)
        } else if value == 0x9C {
            Some(DisconnectReasonCode::UserAnotherServer)
        } else if value == 0x9D {
            Some(DisconnectReasonCode::ServerMoved)
        } else if value == 0x9E {
            Some(DisconnectReasonCode::SharedSubscriptionNotSupported)
        } else if value == 0x9F {
            Some(DisconnectReasonCode::ConnectionRateExceeded)
        } else if value == 0xA0 {
            Some(DisconnectReasonCode::MaximumConnectTime)
        } else if value == 0xA1 {
            Some(DisconnectReasonCode::SubscriptionIdentifiersNotSupported)
        } else if value == 0xA2 {
            Some(DisconnectReasonCode::WildcardSubscriptionsNotSupported)
        } else {
            None
        }
    }

    /// Decodes a wire value.
    pub fn from_u8(value: u8) -> (r: Option<DisconnectReasonCode>)
        ensures
            r == DisconnectReasonCode::spec_from_u8(value),
    {
        match value {
            0x00 => Some(DisconnectReasonCode::NormalDisconnect),
            0x04 => Some(DisconnectReasonCode::DisconnectWithWillMessage),
            0x80 => Some(DisconnectReasonCode::UnspecifiedError),
            0x81 => Some(DisconnectReasonCode::MalformedPacket),
            0x82 => Some(DisconnectReasonCode::ProtocolError),
            0x83 => Some(DisconnectReasonCode::ImplementationSpecificError),
            0x87 => Some(DisconnectReasonCode::NotAuthorized),
            0x89 => Some(DisconnectReasonCode::ServerBusy),
            0x8B => Some(DisconnectReasonCode::ServerShuttingDown),
            0x8D => Some(DisconnectReasonCode::KeepAliveTimeout),
            0x8E => Some(DisconnectReasonCode::SessionTakenOver),
            0x8F => Some(DisconnectReasonCode::TopicFilterInvalid),
            0x90 => Some(DisconnectReasonCode::TopicNameInvalid),
            0x93 => Some(DisconnectReasonCode::ReceiveMaximumExceeded),
            0x94 => Some(DisconnectReasonCode::TopicAliasInvalid),
            0x95 => Some(DisconnectReasonCode::PacketTooLarge),
            0x96 => Some(DisconnectReasonCode::MessageRateTooHigh),
            0x97 => Some(DisconnectReasonCode::QuotaExceeded),
            0x98 => Some(DisconnectReasonCode::AdministrativeAction),
            0x99 => Some(DisconnectReasonCode::PayloadFormatInvalid),
            0x9A => Some(DisconnectReasonCode::RetainNotSupported),
            0x9B => Some(DisconnectReasonCode::QoSNotSupported),
            0x9C => Some(DisconnectReasonCode::UserAnotherServer),
            0x9D => Some(DisconnectReasonCode::ServerMoved),
            0x9E => Some(DisconnectReasonCode::SharedSubscriptionNotSupported),
            0x9F => Some(DisconnectReasonCode::ConnectionRateExceeded),
            0xA0 => Some(DisconnectReasonCode::MaximumConnectTime),
            0xA1 => Some(DisconnectReasonCode::SubscriptionIdentifiersNotSupported),
            0xA2 => Some(DisconnectReasonCode::WildcardSubscriptionsNotSupported),
            _ => None,
        }
    }

    /// The wire value.
    pub fn to_u8(self) -> (r: u8)
        ensures
            r == self.spec_u8(),
    {
        match self {
            DisconnectReasonCode::NormalDisconnect => 0x00,
            DisconnectReasonCode::DisconnectWithWillMessage => 0x04,
            DisconnectReasonCode::UnspecifiedError => 0x80,
            DisconnectReasonCode::MalformedPacket => 0x81,
            DisconnectReasonCode::ProtocolError => 0x82,
            DisconnectReasonCode::ImplementationSpecificError => 0x83,
            DisconnectReasonCode::NotAuthorized => 0x87,
            DisconnectReasonCode::ServerBusy => 0x89,
            DisconnectReasonCode::ServerShuttingDown => 0x8B,
            DisconnectReasonCode::KeepAliveTimeout => 0x8D,
            DisconnectReasonCode::SessionTakenOver => 0x8E,
            DisconnectReasonCode::TopicFilterInvalid => 0x8F,
            DisconnectReasonCode::TopicNameInvalid => 0x90,
            DisconnectReasonCode::ReceiveMaximumExceeded => 0x93,
            DisconnectReasonCode::TopicAliasInvalid => 0x94,
            DisconnectReasonCode::PacketTooLarge => 0x95,
            DisconnectReasonCode::MessageRateTooHigh => 0x96,
            DisconnectReasonCode::QuotaExceeded => 0x97,
            DisconnectReasonCode::AdministrativeAction => 0x98,
            DisconnectReasonCode::PayloadFormatInvalid => 0x99,
            DisconnectReasonCode::RetainNotSupported => 0x9A,
            DisconnectReasonCode::QoSNotSupported => 0x9B,
            DisconnectReasonCode::UserAnotherServer => 0x9C,
            DisconnectReasonCode::ServerMoved => 0x9D,
            DisconnectReasonCode::SharedSubscriptionNotSupported => 0x9E,
            DisconnectReasonCode::ConnectionRateExceeded => 0x9F,
            DisconnectReasonCode::MaximumConnectTime => 0xA0,
            DisconnectReasonCode::SubscriptionIdentifiersNotSupported => 0xA1,
            DisconnectReasonCode::WildcardSubscriptionsNotSupported => 0xA2,
        }
    }

    /// The wire values that MQTT 5.0 fixes: each code is written as the value
    /// beside it below, that value decodes to the code, and no other byte
    /// decodes.
    pub proof fn lemma_wire_values()
        ensures
            DisconnectReasonCode::NormalDisconnect.spec_u8() == 0x00u8,
            DisconnectReasonCode::DisconnectWithWillMessage.spec_u8() == 0x04u8,
            DisconnectReasonCode::UnspecifiedError.spec_u8() == 0x80u8,
            DisconnectReasonCode::MalformedPacket.spec_u8() == 0x81u8,
            DisconnectReasonCode::ProtocolError.spec_u8() == 0x82u8,
            DisconnectReasonCode::ImplementationSpecificError.spec_u8() == 0x83u8,
            DisconnectReasonCode::NotAuthorized.spec_u8() == 0x87u8,
            DisconnectReasonCode::ServerBusy.spec_u8() == 0x89u8,
            DisconnectReasonCode::ServerShuttingDown.spec_u8() == 0x8Bu8,
            DisconnectReasonCode::KeepAliveTimeout.spec_u8() == 0x8Du8,
            DisconnectReasonCode::SessionTakenOver.spec_u8() == 0x8Eu8,
            DisconnectReasonCode::TopicFilterInvalid.spec_u8() == 0x8Fu8,
            DisconnectReasonCode::TopicNameInvalid.spec_u8() == 0x90u8,
            DisconnectReasonCode::ReceiveMaximumExceeded.spec_u8() == 0x93u8,
            DisconnectReasonCode::TopicAliasInvalid.spec_u8() == 0x94u8,
            DisconnectReasonCode::PacketTooLarge.spec_u8() == 0x95u8,
            DisconnectReasonCode::MessageRateTooHigh.spec_u8() == 0x96u8,
            DisconnectReasonCode::QuotaExceeded.spec_u8() == 0x97u8,
            DisconnectReasonCode::AdministrativeAction.spec_u8() == 0x98u8,
            DisconnectReasonCode::PayloadFormatInvalid.spec_u8() == 0x99u8,
            DisconnectReasonCode::RetainNotSupported.spec_u8() == 0x9Au8,
            DisconnectReasonCode::QoSNotSupported.spec_u8() == 0x9Bu8,
            DisconnectReasonCode::UserAnotherServer.spec_u8() == 0x9Cu8,
            DisconnectReasonCode::ServerMoved.spec_u8() == 0x9Du8,
            DisconnectReasonCode::SharedSubscriptionNotSupported.spec_u8() == 0x9Eu8,
            DisconnectReasonCode::ConnectionRateExceeded.spec_u8() == 0x9Fu8,
            DisconnectReasonCode::MaximumConnectTime.spec_u8() == 0xA0u8,
            DisconnectReasonCode::SubscriptionIdentifiersNotSupported.spec_u8() == 0xA1u8,
            DisconnectReasonCode::WildcardSubscriptionsNotSupported.spec_u8() == 0xA2u8,
            DisconnectReasonCode::spec_from_u8(0x00u8) == Some(DisconnectReasonCode::NormalDisconnect),
            DisconnectReasonCode::spec_from_u8(0x04u8) == Some(DisconnectReasonCode::DisconnectWithWillMessage),
            DisconnectReasonCode::spec_from_u8(0x80u8) == Some(DisconnectReasonCode::UnspecifiedError),
            DisconnectReasonCode::spec_from_u8(0x81u8) == Some(DisconnectReasonCode::MalformedPacket),
            DisconnectReasonCode::spec_from_u8(0x82u8) == Some(DisconnectReasonCode::ProtocolError),
            DisconnectReasonCode::spec_from_u8(0x83u8) == Some(DisconnectReasonCode::ImplementationSpecificError),
            DisconnectReasonCode::spec_from_u8(0x87u8) == Some(DisconnectReasonCode::NotAuthorized),
            DisconnectReasonCode::spec_from_u8(0x89u8) == Some(DisconnectReasonCode::ServerBusy),
            DisconnectReasonCode::spec_from_u8(0x8Bu8) == Some(DisconnectReasonCode::ServerShuttingDown),
            DisconnectReasonCode::spec_from_u8(0x8Du8) == Some(DisconnectReasonCode::KeepAliveTimeout),
            DisconnectReasonCode::spec_from_u8(0x8Eu8) == Some(DisconnectReasonCode::SessionTakenOver),
            DisconnectReasonCode::spec_from_u8(0x8Fu8) == Some(DisconnectReasonCode::TopicFilterInvalid),
            DisconnectReasonCode::spec_from_u8(0x90u8) == Some(DisconnectReasonCode::TopicNameInvalid),
            DisconnectReasonCode::spec_from_u8(0x93u8) == Some(DisconnectReasonCode::ReceiveMaximumExceeded),
            DisconnectReasonCode::spec_from_u8(0x94u8) == Some(DisconnectReasonCode::TopicAliasInvalid),
            DisconnectReasonCode::spec_from_u8(0x95u8) == Some(DisconnectReasonCode::PacketTooLarge),
            DisconnectReasonCode::spec_from_u8(0x96u8) == Some(DisconnectReasonCode::MessageRateTooHigh),
            DisconnectReasonCode::spec_from_u8(0x97u8) == Some(DisconnectReasonCode::QuotaExceeded),
            DisconnectReasonCode::spec_from_u8(0x98u8) == Some(DisconnectReasonCode::AdministrativeAction),
            DisconnectReasonCode::spec_from_u8(0x99u8) == Some(DisconnectReasonCode::PayloadFormatInvalid),
            DisconnectReasonCode::spec_from_u8(0x9Au8) == Some(DisconnectReasonCode::RetainNotSupported),
            DisconnectReasonCode::spec_from_u8(0x9Bu8) == Some(DisconnectReasonCode::QoSNotSupported),
            DisconnectReasonCode::spec_from_u8(0x9Cu8) == Some(DisconnectReasonCode::UserAnotherServer),
            DisconnectReasonCode::spec_from_u8(0x9Du8) == Some(DisconnectReasonCode::ServerMoved),
            DisconnectReasonCode::spec_from_u8(0x9Eu8) == Some(DisconnectReasonCode::SharedSubscriptionNotSupported),
            DisconnectReasonCode::spec_from_u8(0x9Fu8) == Some(DisconnectReasonCode::ConnectionRateExceeded),
            DisconnectReasonCode::spec_from_u8(0xA0u8) == Some(DisconnectReasonCode::MaximumConnectTime),
            DisconnectReasonCode::spec_from_u8(0xA1u8) == Some(DisconnectReasonCode::SubscriptionIdentifiersNotSupported),
            DisconnectReasonCode::spec_from_u8(0xA2u8) == Some(DisconnectReasonCode::WildcardSubscriptionsNotSupported),
            forall|b: u8| #[trigger] DisconnectReasonCode::spec_from_u8(b) is Some ==> (b == 0x00u8 || b == 0x04u8 || b == 0x80u8 || b == 0x81u8 || b == 0x82u8 || b == 0x83u8 || b == 0x87u8 || b == 0x89u8 || b == 0x8Bu8 || b == 0x8Du8 || b == 0x8Eu8 || b == 0x8Fu8 || b == 0x90u8 || b == 0x93u8 || b == 0x94u8 || b == 0x95u8 || b == 0x96u8 || b == 0x97u8 || b == 0x98u8 || b == 0x99u8 || b == 0x9Au8 || b == 0x9Bu8 || b == 0x9Cu8 || b == 0x9Du8 || b == 0x9Eu8 || b == 0x9Fu8 || b == 0xA0u8 || b == 0xA1u8 || b == 0xA2u8),
    {
    }

    /// The wire value of a code decodes to the code, and a wire value that
    /// decodes is the wire value of its code.
    pub proof fn lemma_u8_roundtrip(c: DisconnectReasonCode, value: u8)
        ensures
            DisconnectReasonCode::spec_from_u8(c.spec_u8()) == Some(c),
            DisconnectReasonCode::spec_from_u8(value) matches Some(d) ==> d.spec_u8() == value,
    {
    }
}

/// Reason code of an auth packet.
#[derive(Debug, Clone, Copy, PartialEq, Eq, Structural, Hash)]
pub enum AuthReasonCode {
    Success,
    ContinueAuthentication,
    ReAuthentication,
}

impl AuthReasonCode {
    /// The wire value.
    pub open spec fn spec_u8(self) -> u8 {
        match self {
            AuthReasonCode::Success => 0x00,
            AuthReasonCode::ContinueAuthentication => 0x18,
            AuthReasonCode::ReAuthentication => 0x19,
        }
    }

    /// The code of a wire value, if any.
    pub open spec fn spec_from_u8(value: u8) -> Option<AuthReasonCode> {
        if value == 0x00 {
            Some(AuthReasonCode::Success)
        } else if value == 0x18 {
            Some(AuthReasonCode::ContinueAuthentication)
        } else if value == 0x19 {
            Some(AuthReasonCode::ReAuthentication)
        } else {
            None
        }
    }

    /// Decodes a wire value.
    pub fn from_u8(value: u8) -> (r: Option<AuthReasonCode>)
        ensures
            r == AuthReasonCode::spec_from_u8(value),
    {
        match value {
            0x00 => Some(AuthReasonCode::Success),
            0x18 => Some(AuthReasonCode::ContinueAuthentication),
            0x19 => Some(AuthReasonCode::ReAuthentication),
            _ => None,
        }
    }

    /// The wire value.
    pub fn to_u8(self) -> (r: u8)
        ensures
            r == self.spec_u8(),
    {
        match self {
            AuthReasonCode::Success => 0x00,
            AuthReasonCode::ContinueAuthentication => 0x18,
            AuthReasonCode::ReAuthentication => 0x19,
        }
    }

    /// The wire values that MQTT 5.0 fixes: each code is written as the value
    /// beside it below, that value decodes to the code, and no other byte
    /// decodes.
    pub proof fn lemma_wire_values()
        ensures
            AuthReasonCode::Success.spec_u8() == 0x00u8,
            AuthReasonCode::ContinueAuthentication.spec_u8() == 0x18u8,
            AuthReasonCode::ReAuthentication.spec_u8() == 0x19u8,
            AuthReasonCode::spec_from_u8(0x00u8) == Some(AuthReasonCode::Success),
            AuthReasonCode::spec_from_u8(0x18u8) == Some(AuthReasonCode::ContinueAuthentication),
            AuthReasonCode::spec_from_u8(0x19u8) == Some(AuthReasonCode::ReAuthentication),
            forall|b: u8| #[trigger] AuthReasonCode::spec_from_u8(b) is Some ==> (b == 0x00u8 || b == 0x18u8 || b == 0x19u8),
    {
    }

    /// The wire value of a code decodes to the code, and a wire value that
    /// decodes is the wire value of its code.
    pub proof fn lemma_u8_roundtrip(c: AuthReasonCode, value: u8)
        ensures
            AuthReasonCode::spec_from_u8(c.spec_u8()) == Some(c),
            AuthReasonCode::spec_from_u8(value) matches Some(d) ==> d.spec_u8() == value,
    {
    }
}

/// Reason code of a puback packet.
#[derive(Debug, Clone, Copy, PartialEq, Eq, Structural, Hash)]
pub enum PubackReasonCode {
    Success,
    NoMatchingSubscribers,
    UnspecifiedError,
    ImplementationSpecificError,
    NotAuthorized,
    TopicNameInvalid,
    PacketIdentifierInUse,
    QuotaExceeded,
    PayloadFormatInvalid,
}

impl PubackReasonCode {
    /// The wire value.
    pub open spec fn spec_u8(self) -> u8 {
        match self {
            PubackReasonCode::Success => 0x00,
            PubackReasonCode::NoMatchingSubscribers => 0x10,
            PubackReasonCode::UnspecifiedError => 0x80,
            PubackReasonCode::ImplementationSpecificError => 0x83,
            PubackReasonCode::NotAuthorized => 0x87,
            PubackReasonCode::TopicNameInvalid => 0x90,
            PubackReasonCode::PacketIdentifierInUse => 0x91,
            PubackReasonCode::QuotaExceeded => 0x97,
            PubackReasonCode::PayloadFormatInvalid => 0x99,
        }
    }

    /// The code of a wire value, if any.
    pub open spec fn spec_from_u8(value: u8) -> Option<PubackReasonCode> {
        if value == 0x00 {
            Some(PubackReasonCode::Success)
        } else if value == 0x10 {
            Some(PubackReasonCode::NoMatchingSubscribers)
        } else if value == 0x80 {
            Some(PubackReasonCode::UnspecifiedError)
        } else if value == 0x83 {
            Some(PubackReasonCode::ImplementationSpecificError)
        } else if value == 0x87 {
            Some(PubackReasonCode::NotAuthorized)
        } else if value == 0x90 {
            Some(PubackReasonCode::TopicNameInvalid)
        } else if value == 0x91 {
            Some(PubackReasonCode::PacketIdentifierInUse)
        } else if value == 0x97 {
            Some(PubackReasonCode::QuotaExceeded)
        } else if value == 0x99 {
            Some(PubackReasonCode::PayloadFormatInvalid)
        } else {
            None
        }
    }

    /// Decodes a wire value.
    pub fn from_u8(value: u8) -> (r: Option<PubackReasonCode>)
        ensures
            r == PubackReasonCode::spec_from_u8(value),
    {
        match value {
            0x00 => Some(PubackReasonCode::Success),
            0x10 => Some(PubackReasonCode::NoMatchingSubscribers),
            0x80 => Some(PubackReasonCode::UnspecifiedError),
            0x83 => Some(PubackReasonCode::ImplementationSpecificError),
            0x87 => Some(PubackReasonCode::NotAuthorized),
            0x90 => Some(PubackReasonCode::TopicNameInvalid),
            0x91 => Some(PubackReasonCode::PacketIdentifierInUse),
            0x97 => Some(PubackReasonCode::QuotaExceeded),
            0x99 => Some(PubackReasonCode::PayloadFormatInvalid),
            _ => None,
        }
    }

    /// The wire value.
    pub fn to_u8(self) -> (r: u8)
        ensures
            r == self.spec_u8(),
    {
        match self {
            PubackReasonCode::Success => 0x00,
            PubackReasonCode::NoMatchingSubscribers => 0x10,
            PubackReasonCode::UnspecifiedError => 0x80,
            PubackReasonCode::ImplementationSpecificError => 0x83,
            PubackReasonCode::NotAuthorized => 0x87,
            PubackReasonCode::TopicNameInvalid => 0x90,
            PubackReasonCode::PacketIdentifierInUse => 0x91,
            PubackReasonCode::QuotaExceeded => 0x97,
            PubackReasonCode::PayloadFormatInvalid => 0x99,
        }
    }

    /// The wire values that MQTT 5.0 fixes: each code is written as the value
    /// beside it below, that value decodes to the code, and no other byte
    /// decodes.
    pub proof fn lemma_wire_values()
        ensures
            PubackReasonCode::Success.spec_u8() == 0x00u8,
            PubackReasonCode::NoMatchingSubscribers.spec_u8() == 0x10u8,
            PubackReasonCode::UnspecifiedError.spec_u8() == 0x80u8,
            PubackReasonCode::ImplementationSpecificError.spec_u8() == 0x83u8,
            PubackReasonCode::NotAuthorized.spec_u8() == 0x87u8,
            PubackReasonCode::TopicNameInvalid.spec_u8() == 0x90u8,
            PubackReasonCode::PacketIdentifierInUse.spec_u8() == 0x91u8,
            PubackReasonCode::QuotaExceeded.spec_u8() == 0x97u8,
            PubackReasonCode::PayloadFormatInvalid.spec_u8() == 0x99u8,
            PubackReasonCode::spec_from_u8(0x00u8) == Some(PubackReasonCode::Success),
            PubackReasonCode::spec_from_u8(0x10u8) == Some(PubackReasonCode::NoMatchingSubscribers),
            PubackReasonCode::spec_from_u8(0x80u8) == Some(PubackReasonCode::UnspecifiedError),
            PubackReasonCode::spec_from_u8(0x83u8) == Some(PubackReasonCode::ImplementationSpecificError),
            PubackReasonCode::spec_from_u8(0x87u8) == Some(PubackReasonCode::NotAuthorized),
            PubackReasonCode::spec_from_u8(0x90u8) == Some(PubackReasonCode::TopicNameInvalid),
            PubackReasonCode::spec_from_u8(0x91u8) == Some(PubackReasonCode::PacketIdentifierInUse),
            PubackReasonCode::spec_from_u8(0x97u8) == Some(PubackReasonCode::QuotaExceeded),
            PubackReasonCode::spec_from_u8(0x99u8) == Some(PubackReasonCode::PayloadFormatInvalid),
            forall|b: u8| #[trigger] PubackReasonCode::spec_from_u8(b) is Some ==> (b == 0x00u8 || b == 0x10u8 || b == 0x80u8 || b == 0x83u8 || b == 0x87u8 || b == 0x90u8 || b == 0x91u8 || b == 0x97u8 || b == 0x99u8),
    {
    }

    /// The wire value of a code decodes to the code, and a wire value that
    /// decodes is the wire value of its code.
    pub proof fn lemma_u8_roundtrip(c: PubackReasonCode, value: u8)
        ensures
            PubackReasonCode::spec_from_u8(c.spec_u8()) == Some(c),
            PubackReasonCode::spec_from_u8(value) matches Some(d) ==> d.spec_u8() == value,
    {
    }
}

/// Reason code of a pubrec packet.
#[derive(Debug, Clone, Copy, PartialEq, Eq, Structural, Hash)]
pub enum PubrecReasonCode {
    Success,
    NoMatchingSubscribers,
    UnspecifiedError,
    ImplementationSpecificError,
    NotAuthorized,
    TopicNameInvalid,
    PacketIdentifierInUse,
    QuotaExceeded,
    PayloadFormatInvalid,
}

impl PubrecReasonCode {
    /// The wire value.
    pub open spec fn spec_u8(self) -> u8 {
        match self {
            PubrecReasonCode::Success => 0x00,
            PubrecReasonCode::NoMatchingSubscribers => 0x10,
            PubrecReasonCode::UnspecifiedError => 0x80,
            PubrecReasonCode::ImplementationSpecificError => 0x83,
            PubrecReasonCode::NotAuthorized => 0x87,
            PubrecReasonCode::TopicNameInvalid => 0x90,
            PubrecReasonCode::PacketIdentifierInUse => 0x91,
            PubrecReasonCode::QuotaExceeded => 0x97,
            PubrecReasonCode::PayloadFormatInvalid => 0x99,
        }
    }

    /// The code of a wire value, if any.
    pub open spec fn spec_from_u8(value: u8) -> Option<PubrecReasonCode> {
        if value == 0x00 {
            Some(PubrecReasonCode::Success)
        } else if value == 0x10 {
            Some(PubrecReasonCode::NoMatchingSubscribers)
        } else if value == 0x80 {
            Some(PubrecReasonCode::UnspecifiedError)
        } else if value == 0x83 {
            Some(PubrecReasonCode::ImplementationSpecificError)
        } else if value == 0x87 {
            Some(PubrecReasonCode::NotAuthorized)
        } else if value == 0x90 {
            Some(PubrecReasonCode::TopicNameInvalid)
        } else if value == 0x91 {
            Some(PubrecReasonCode::PacketIdentifierInUse)
        } else if value == 0x97 {
            Some(PubrecReasonCode::QuotaExceeded)
        } else if value == 0x99 {
            Some(PubrecReasonCode::PayloadFormatInvalid)
        } else {
            None
        }
    }

    /// Decodes a wire value.
    pub fn from_u8(value: u8) -> (r: Option<PubrecReasonCode>)
        ensures
            r == PubrecReasonCode::spec_from_u8(value),
    {
        match value {
            0x00 => Some(PubrecReasonCode::Success),
            0x10 => Some(PubrecReasonCode::NoMatchingSubscribers),
            0x80 => Some(PubrecReasonCode::UnspecifiedError),
            0x83 => Some(PubrecReasonCode::ImplementationSpecificError),
            0x87 => Some(PubrecReasonCode::NotAuthorized),
            0x90 => Some(PubrecReasonCode::TopicNameInvalid),
            0x91 => Some(PubrecReasonCode::PacketIdentifierInUse),
            0x97 => Some(PubrecReasonCode::QuotaExceeded),
            0x99 => Some(PubrecReasonCode::PayloadFormatInvalid),
            _ => None,
        }
    }

    /// The wire value.
    pub fn to_u8(self) -> (r: u8)
        ensures
            r == self.spec_u8(),
    {
        match self {
            PubrecReasonCode::Success => 0x00,
            PubrecReasonCode::NoMatchingSubscribers => 0x10,
            PubrecReasonCode::UnspecifiedError => 0x80,
            PubrecReasonCode::ImplementationSpecificError => 0x83,
            PubrecReasonCode::NotAuthorized => 0x87,
            PubrecReasonCode::TopicNameInvalid => 0x90,
            PubrecReasonCode::PacketIdentifierInUse => 0x91,
            PubrecReasonCode::QuotaExceeded => 0x97,
            PubrecReasonCode::PayloadFormatInvalid => 0x99,
        }
    }

    /// The wire values that MQTT 5.0 fixes: each code is written as the value
    /// beside it below, that value decodes to the code, and no other byte
    /// decodes.
    pub proof fn lemma_wire_values()
        ensures
            PubrecReasonCode::Success.spec_u8() == 0x00u8,
            PubrecReasonCode::NoMatchingSubscribers.spec_u8() == 0x10u8,
            PubrecReasonCode::UnspecifiedError.spec_u8() == 0x80u8,
            PubrecReasonCode::ImplementationSpecificError.spec_u8() == 0x83u8,
            PubrecReasonCode::NotAuthorized.spec_u8() == 0x87u8,
            PubrecReasonCode::TopicNameInvalid.spec_u8() == 0x90u8,
            PubrecReasonCode::PacketIdentifierInUse.spec_u8() == 0x91u8,
            PubrecReasonCode::QuotaExceeded.spec_u8() == 0x97u8,
            PubrecReasonCode::PayloadFormatInvalid.spec_u8() == 0x99u8,
            PubrecReasonCode::spec_from_u8(0x00u8) == Some(PubrecReasonCode::Success),
            PubrecReasonCode::spec_from_u8(0x10u8) == Some(PubrecReasonCode::NoMatchingSubscribers),
            PubrecReasonCode::spec_from_u8(0x80u8) == Some(PubrecReasonCode::UnspecifiedError),
            PubrecReasonCode::spec_from_u8(0x83u8) == Some(PubrecReasonCode::ImplementationSpecificError),
            PubrecReasonCode::spec_from_u8(0x87u8) == Some(PubrecReasonCode::NotAuthorized),
            PubrecReasonCode::spec_from_u8(0x90u8) == Some(PubrecReasonCode::TopicNameInvalid),
            PubrecReasonCode::spec_from_u8(0x91u8) == Some(PubrecReasonCode::PacketIdentifierInUse),
            PubrecReasonCode::spec_from_u8(0x97u8) == Some(PubrecReasonCode::QuotaExceeded),
            PubrecReasonCode::spec_from_u8(0x99u8) == Some(PubrecReasonCode::PayloadFormatInvalid),
            forall|b: u8| #[trigger] PubrecReasonCode::spec_from_u8(b) is Some ==> (b == 0x00u8 || b == 0x10u8 || b == 0x80u8 || b == 0x83u8 || b == 0x87u8 || b == 0x90u8 || b == 0x91u8 || b == 0x97u8 || b == 0x99u8),
    {
    }

    /// The wire value of a code decodes to the code, and a wire value that
    /// decodes is the wire value of its code.
    pub proof fn lemma_u8_roundtrip(c: PubrecReasonCode, value: u8)
        ensures
            PubrecReasonCode::spec_from_u8(c.spec_u8()) == Some(c),
            PubrecReasonCode::spec_from_u8(value) matches Some(d) ==> d.spec_u8() == value,
    {
    }
}

/// Reason code of a pubrel packet.
#[derive(Debug, Clone, Copy, PartialEq, Eq, Structural, Hash)]
pub enum PubrelReasonCode {
    Success,
    PacketIdentifierNotFound,
}

impl PubrelReasonCode {
    /// The wire value.
    pub open spec fn spec_u8(self) -> u8 {
        match self {
            PubrelReasonCode::Success => 0x00,
            PubrelReasonCode::PacketIdentifierNotFound => 0x92,
        }
    }

    /// The code of a wire value, if any.
    pub open spec fn spec_from_u8(value: u8) -> Option<PubrelReasonCode> {
        if value == 0x00 {
            Some(PubrelReasonCode::Success)
        } else if value == 0x92 {
            Some(PubrelReasonCode::PacketIdentifierNotFound)
        } else {
            None
        }
    }

    /// Decodes a wire value.
    pub fn from_u8(value: u8) -> (r: Option<PubrelReasonCode>)
        ensures
            r == PubrelReasonCode::spec_from_u8(value),
    {
        match value {
            0x00 => Some(PubrelReasonCode::Success),
            0x92 => Some(PubrelReasonCode::PacketIdentifierNotFound),
            _ => None,
        }
    }

    /// The wire value.
    pub fn to_u8(self) -> (r: u8)
        ensures
            r == self.spec_u8(),
    {
        match self {
            PubrelReasonCode::Success => 0x00,
            PubrelReasonCode::PacketIdentifierNotFound => 0x92,
        }
    }

    /// The wire values that MQTT 5.0 fixes: each code is written as the value
    /// beside it below, that value decodes to the code, and no other byte
    /// decodes.
    pub proof fn lemma_wire_values()
        ensures
            PubrelReasonCode::Success.spec_u8() == 0x00u8,
            PubrelReasonCode::PacketIdentifierNotFound.spec_u8() == 0x92u8,
            PubrelReasonCode::spec_from_u8(0x00u8) == Some(PubrelReasonCode::Success),
            PubrelReasonCode::spec_from_u8(0x92u8) == Some(PubrelReasonCode::PacketIdentifierNotFound),
            forall|b: u8| #[trigger] PubrelReasonCode::spec_from_u8(b) is Some ==> (b == 0x00u8 || b == 0x92u8),
    {
    }

    /// The wire value of a code decodes to the code, and a wire value that
    /// decodes is the wire value of its code.
    pub proof fn lemma_u8_roundtrip(c: PubrelReasonCode, value: u8)
        ensures
            PubrelReasonCode::spec_from_u8(c.spec_u8()) == Some(c),
            PubrelReasonCode::spec_from_u8(value) matches Some(d) ==> d.spec_u8() == value,
    {
    }
}

/// Reason code of a pubcomp packet.
#[derive(Debug, Clone, Copy, PartialEq, Eq, Structural, Hash)]
pub enum PubcompReasonCode {
    Success,
    PacketIdentifierNotFound,
}

impl PubcompReasonCode {
    /// The wire value.
    pub open spec fn spec_u8(self) -> u8 {
        match self {
            PubcompReasonCode::Success => 0x00,
            PubcompReasonCode::PacketIdentifierNotFound => 0x92,
        }
    }

    /// The code of a wire value, if any.
    pub open spec fn spec_from_u8(value: u8) -> Option<PubcompReasonCode> {
        if value == 0x00 {
            Some(PubcompReasonCode::Success)
        } else if value == 0x92 {
            Some(PubcompReasonCode::PacketIdentifierNotFound)
        } else {
            None
        }
    }

    /// Decodes a wire value.
    pub fn from_u8(value: u8) -> (r: Option<PubcompReasonCode>)
        ensures
            r == PubcompReasonCode::spec_from_u8(value),
    {
        match value {
            0x00 => Some(PubcompReasonCode::Success),
            0x92 => Some(PubcompReasonCode::PacketIdentifierNotFound),
            _ => None,
        }
    }

    /// The wire value.
    pub fn to_u8(self) -> (r: u8)
        ensures
            r == self.spec_u8(),
    {
        match self {
            PubcompReasonCode::Success => 0x00,
            PubcompReasonCode::PacketIdentifierNotFound => 0x92,
        }
    }

    /// The wire values that MQTT 5.0 fixes: each code is written as the value
    /// beside it below, that value decodes to the code, and no other byte
    /// decodes.
    pub proof fn lemma_wire_values()
        ensures
            PubcompReasonCode::Success.spec_u8() == 0x00u8,
            PubcompReasonCode::PacketIdentifierNotFound.spec_u8() == 0x92u8,
            PubcompReasonCode::spec_from_u8(0x00u8) == Some(PubcompReasonCode::Success),
            PubcompReasonCode::spec_from_u8(0x92u8) == Some(PubcompReasonCode::PacketIdentifierNotFound),
            forall|b: u8| #[trigger] PubcompReasonCode::spec_from_u8(b) is Some ==> (b == 0x00u8 || b == 0x92u8),
    {
    }

    /// The wire value of a code decodes to the code, and a wire value that
    /// decodes is the wire value of its code.
    pub proof fn lemma_u8_roundtrip(c: PubcompReasonCode, value: u8)
        ensures
            PubcompReasonCode::spec_from_u8(c.spec_u8()) == Some(c),
            PubcompReasonCode::spec_from_u8(value) matches Some(d) ==> d.spec_u8() == value,
    {
    }
}

/// Reason code of each entry of a suback packet.
#[derive(Debug, Clone, Copy, PartialEq, Eq, Structural, Hash)]
pub enum SubscribeReasonCode {
    GrantedQoS0,
    GrantedQoS1,
    GrantedQoS2,
    UnspecifiedError,
    ImplementationSpecificError,
    NotAuthorized,
    TopicFilterInvalid,
    PacketIdentifierInUse,
    QuotaExceeded,
    SharedSubscriptionNotSupported,
    SubscriptionIdentifiersNotSupported,
    WildcardSubscriptionsNotSupported,
}

impl SubscribeReasonCode {
    /// The wire value.
    pub open spec fn spec_u8(self) -> u8 {
        match self {
            SubscribeReasonCode::GrantedQoS0 => 0x00,
            SubscribeReasonCode::GrantedQoS1 => 0x01,
            SubscribeReasonCode::GrantedQoS2 => 0x02,
            SubscribeReasonCode::UnspecifiedError => 0x80,
            SubscribeReasonCode::ImplementationSpecificError => 0x83,
            SubscribeReasonCode::NotAuthorized => 0x87,
            SubscribeReasonCode::TopicFilterInvalid => 0x8F,
            SubscribeReasonCode::PacketIdentifierInUse => 0x91,
            SubscribeReasonCode::QuotaExceeded => 0x97,
            SubscribeReasonCode::SharedSubscriptionNotSupported => 0x9E,
            SubscribeReasonCode::SubscriptionIdentifiersNotSupported => 0xA1,
            SubscribeReasonCode::WildcardSubscriptionsNotSupported => 0xA2,
        }
    }

    /// The code of a wire value, if any.
    pub open spec fn spec_from_u8(value: u8) -> Option<SubscribeReasonCode> {
        if value == 0x00 {
            Some(SubscribeReasonCode::GrantedQoS0)
        } else if value == 0x01 {
            Some(SubscribeReasonCode::GrantedQoS1)
        } else if value == 0x02 {
            Some(SubscribeReasonCode::GrantedQoS2)
        } else if value == 0x80 {
            Some(SubscribeReasonCode::UnspecifiedError)
        } else if value == 0x83 {
            Some(SubscribeReasonCode::ImplementationSpecificError)
        } else if value == 0x87 {
            Some(SubscribeReasonCode::NotAuthorized)
        } else if value == 0x8F {
            Some(SubscribeReasonCode::TopicFilterInvalid)
        } else if value == 0x91 {
            Some(SubscribeReasonCode::PacketIdentifierInUse)
        } else if value == 0x97 {
            Some(SubscribeReasonCode::QuotaExceeded)
        } else if value == 0x9E {
            Some(SubscribeReasonCode::SharedSubscriptionNotSupported)
        } else if value == 0xA1 {
            Some(SubscribeReasonCode::SubscriptionIdentifiersNotSupported)
        } else if value == 0xA2 {
            Some(SubscribeReasonCode::WildcardSubscriptionsNotSupported)
        } else {
            None
        }
    }

    /// Decodes a wire value.
    pub fn from_u8(value: u8) -> (r: Option<SubscribeReasonCode>)
        ensures
            r == SubscribeReasonCode::spec_from_u8(value),
    {
        match value {
            0x00 => Some(SubscribeReasonCode::GrantedQoS0),
            0x01 => Some(SubscribeReasonCode::GrantedQoS1),
            0x02 => Some(SubscribeReasonCode::GrantedQoS2),
            0x80 => Some(SubscribeReasonCode::UnspecifiedError),
            0x83 => Some(SubscribeReasonCode::ImplementationSpecificError),
            0x87 => Some(SubscribeReasonCode::NotAuthorized),
            0x8F => Some(SubscribeReasonCode::TopicFilterInvalid),
            0x91 => Some(SubscribeReasonCode::PacketIdentifierInUse),
            0x97 => Some(SubscribeReasonCode::QuotaExceeded),
            0x9E => Some(SubscribeReasonCode::SharedSubscriptionNotSupported),
            0xA1 => Some(SubscribeReasonCode::SubscriptionIdentifiersNotSupported),
            0xA2 => Some(SubscribeReasonCode::WildcardSubscriptionsNotSupported),
            _ => None,
        }
    }

    /// The wire value.
    pub fn to_u8(self) -> (r: u8)
        ensures
            r == self.spec_u8(),
    {
        match self {
            SubscribeReasonCode::GrantedQoS0 => 0x00,
            SubscribeReasonCode::GrantedQoS1 => 0x01,
            SubscribeReasonCode::GrantedQoS2 => 0x02,
            SubscribeReasonCode::UnspecifiedError => 0x80,
            SubscribeReasonCode::ImplementationSpecificError => 0x83,
            SubscribeReasonCode::NotAuthorized => 0x87,
            SubscribeReasonCode::TopicFilterInvalid => 0x8F,
            SubscribeReasonCode::PacketIdentifierInUse => 0x91,
            SubscribeReasonCode::QuotaExceeded => 0x97,
            SubscribeReasonCode::SharedSubscriptionNotSupported => 0x9E,
            SubscribeReasonCode::SubscriptionIdentifiersNotSupported => 0xA1,
            SubscribeReasonCode::WildcardSubscriptionsNotSupported => 0xA2,
        }
    }

    /// The wire values that MQTT 5.0 fixes: each code is written as the value
    /// beside it below, that value decodes to the code, and no other byte
    /// decodes.
    pub proof fn lemma_wire_values()
        ensures
            SubscribeReasonCode::GrantedQoS0.spec_u8() == 0x00u8,
            SubscribeReasonCode::GrantedQoS1.spec_u8() == 0x01u8,
            SubscribeReasonCode::GrantedQoS2.spec_u8() == 0x02u8,
            SubscribeReasonCode::UnspecifiedError.spec_u8() == 0x80u8,
            SubscribeReasonCode::ImplementationSpecificError.spec_u8() == 0x83u8,
            SubscribeReasonCode::NotAuthorized.spec_u8() == 0x87u8,
            SubscribeReasonCode::TopicFilterInvalid.spec_u8() == 0x8Fu8,
            SubscribeReasonCode::PacketIdentifierInUse.spec_u8() == 0x91u8,
            SubscribeReasonCode::QuotaExceeded.spec_u8() == 0x97u8,
            SubscribeReasonCode::SharedSubscriptionNotSupported.spec_u8() == 0x9Eu8,
            SubscribeReasonCode::SubscriptionIdentifiersNotSupported.spec_u8() == 0xA1u8,
            SubscribeReasonCode::WildcardSubscriptionsNotSupported.spec_u8() == 0xA2u8,
            SubscribeReasonCode::spec_from_u8(0x00u8) == Some(SubscribeReasonCode::GrantedQoS0),
            SubscribeReasonCode::spec_from_u8(0x01u8) == Some(SubscribeReasonCode::GrantedQoS1),
            SubscribeReasonCode::spec_from_u8(0x02u8) == Some(SubscribeReasonCode::GrantedQoS2),
            SubscribeReasonCode::spec_from_u8(0x80u8) == Some(SubscribeReasonCode::UnspecifiedError),
            SubscribeReasonCode::spec_from_u8(0x83u8) == Some(SubscribeReasonCode::ImplementationSpecificError),
            SubscribeReasonCode::spec_from_u8(0x87u8) == Some(SubscribeReasonCode::NotAuthorized),
            SubscribeReasonCode::spec_from_u8(0x8Fu8) == Some(SubscribeReasonCode::TopicFilterInvalid),
            SubscribeReasonCode::spec_from_u8(0x91u8) == Some(SubscribeReasonCode::PacketIdentifierInUse),
            SubscribeReasonCode::spec_from_u8(0x97u8) == Some(SubscribeReasonCode::QuotaExceeded),
            SubscribeReasonCode::spec_from_u8(0x9Eu8) == Some(SubscribeReasonCode::SharedSubscriptionNotSupported),
            SubscribeReasonCode::spec_from_u8(0xA1u8) == Some(SubscribeReasonCode::SubscriptionIdentifiersNotSupported),
            SubscribeReasonCode::spec_from_u8(0xA2u8) == Some(SubscribeReasonCode::WildcardSubscriptionsNotSupported),
            forall|b: u8| #[trigger] SubscribeReasonCode::spec_from_u8(b) is Some ==> (b == 0x00u8 || b == 0x01u8 || b == 0x02u8 || b == 0x80u8 || b == 0x83u8 || b == 0x87u8 || b == 0x8Fu8 || b == 0x91u8 || b == 0x97u8 || b == 0x9Eu8 || b == 0xA1u8 || b == 0xA2u8),
    {
    }

    /// The wire value of a code decodes to the code, and a wire value that
    /// decodes is the wire value of its code.
    pub proof fn lemma_u8_roundtrip(c: SubscribeReasonCode, value: u8)
        ensures
            SubscribeReasonCode::spec_from_u8(c.spec_u8()) == Some(c),
            SubscribeReasonCode::spec_from_u8(value) matches Some(d) ==> d.spec_u8() == value,
    {
    }
}

/// Reason code of each entry of an unsuback packet.
#[derive(Debug, Clone, Copy, PartialEq, Eq, Structural, Hash)]
pub enum UnsubscribeReasonCode {
    Success,
    NoSubscriptionExisted,
    UnspecifiedError,
    ImplementationSpecificError,
    NotAuthorized,
    TopicFilterInvalid,
    PacketIdentifierInUse,
}

impl UnsubscribeReasonCode {
    /// The wire value.
    pub open spec fn spec_u8(self) -> u8 {
        match self {
            UnsubscribeReasonCode::Success => 0x00,
            UnsubscribeReasonCode::NoSubscriptionExisted => 0x11,
            UnsubscribeReasonCode::UnspecifiedError => 0x80,
            UnsubscribeReasonCode::ImplementationSpecificError => 0x83,
            UnsubscribeReasonCode::NotAuthorized => 0x87,
            UnsubscribeReasonCode::TopicFilterInvalid => 0x8F,
            UnsubscribeReasonCode::PacketIdentifierInUse => 0x91,
        }
    }

    /// The code of a wire value, if any.
    pub open spec fn spec_from_u8(value: u8) -> Option<UnsubscribeReasonCode> {
        if value == 0x00 {
            Some(UnsubscribeReasonCode::Success)
        } else if value == 0x11 {
            Some(UnsubscribeReasonCode::NoSubscriptionExisted)
        } else if value == 0x80 {
            Some(UnsubscribeReasonCode::UnspecifiedError)
        } else if value == 0x83 {
            Some(UnsubscribeReasonCode::ImplementationSpecificError)
        } else if value == 0x87 {
            Some(UnsubscribeReasonCode::NotAuthorized)
        } else if value == 0x8F {
            Some(UnsubscribeReasonCode::TopicFilterInvalid)
        } else if value == 0x91 {
            Some(UnsubscribeReasonCode::PacketIdentifierInUse)
        } else {
            None
        }
    }

    /// Decodes a wire value.
    pub fn from_u8(value: u8) -> (r: Option<UnsubscribeReasonCode>)
        ensures
            r == UnsubscribeReasonCode::spec_from_u8(value),
    {
        match value {
            0x00 => Some(UnsubscribeReasonCode::Success),
            0x11 => Some(UnsubscribeReasonCode::NoSubscriptionExisted),
            0x80 => Some(UnsubscribeReasonCode::UnspecifiedError),
            0x83 => Some(UnsubscribeReasonCode::ImplementationSpecificError),
            0x87 => Some(UnsubscribeReasonCode::NotAuthorized),
            0x8F => Some(UnsubscribeReasonCode::TopicFilterInvalid),
            0x91 => Some(UnsubscribeReasonCode::PacketIdentifierInUse),
            _ => None,
        }
    }

    /// The wire value.
    pub fn to_u8(self) -> (r: u8)
        ensures
            r == self.spec_u8(),
    {
        match self {
            UnsubscribeReasonCode::Success => 0x00,
            UnsubscribeReasonCode::NoSubscriptionExisted => 0x11,
            UnsubscribeReasonCode::UnspecifiedError => 0x80,
            UnsubscribeReasonCode::ImplementationSpecificError => 0x83,
            UnsubscribeReasonCode::NotAuthorized => 0x87,
            UnsubscribeReasonCode::TopicFilterInvalid => 0x8F,
            UnsubscribeReasonCode::PacketIdentifierInUse => 0x91,
        }
    }

    /// The wire values that MQTT 5.0 fixes: each code is written as the value
    /// beside it below, that value decodes to the code, and no other byte
    /// decodes.
    pub proof fn lemma_wire_values()
        ensures
            UnsubscribeReasonCode::Success.spec_u8() == 0x00u8,
            UnsubscribeReasonCode::NoSubscriptionExisted.spec_u8() == 0x11u8,
            UnsubscribeReasonCode::UnspecifiedError.spec_u8() == 0x80u8,
            UnsubscribeReasonCode::ImplementationSpecificError.spec_u8() == 0x83u8,
            UnsubscribeReasonCode::NotAuthorized.spec_u8() == 0x87u8,
            UnsubscribeReasonCode::TopicFilterInvalid.spec_u8() == 0x8Fu8,
            UnsubscribeReasonCode::PacketIdentifierInUse.spec_u8() == 0x91u8,
            UnsubscribeReasonCode::spec_from_u8(0x00u8) == Some(UnsubscribeReasonCode::Success),
            UnsubscribeReasonCode::spec_from_u8(0x11u8) == Some(UnsubscribeReasonCode::NoSubscriptionExisted),
            UnsubscribeReasonCode::spec_from_u8(0x80u8) == Some(UnsubscribeReasonCode::UnspecifiedError),
            UnsubscribeReasonCode::spec_from_u8(0x83u8) == Some(UnsubscribeReasonCode::ImplementationSpecificError),
            UnsubscribeReasonCode::spec_from_u8(0x87u8) == Some(UnsubscribeReasonCode::NotAuthorized),
            UnsubscribeReasonCode::spec_from_u8(0x8Fu8) == Some(UnsubscribeReasonCode::TopicFilterInvalid),
            UnsubscribeReasonCode::spec_from_u8(0x91u8) == Some(UnsubscribeReasonCode::PacketIdentifierInUse),
            forall|b: u8| #[trigger] UnsubscribeReasonCode::spec_from_u8(b) is Some ==> (b == 0x00u8 || b == 0x11u8 || b == 0x80u8 || b == 0x83u8 || b == 0x87u8 || b == 0x8Fu8 || b == 0x91u8),
    {
    }

    /// The wire value of a code decodes to the code, and a wire value that
    /// decodes is the wire value of its code.
    pub proof fn lemma_u8_roundtrip(c: UnsubscribeReasonCode, value: u8)
        ensures
            UnsubscribeReasonCode::spec_from_u8(c.spec_u8()) == Some(c),
            UnsubscribeReasonCode::spec_from_u8(value) matches Some(d) ==> d.spec_u8() == value,
    {
    }
}

/// When the server sends retained messages on a subscription.
#[derive(Debug, Clone, Copy, PartialEq, Eq, Structural, Hash)]
pub enum RetainHandling {
    SendAtSubscribe,
    SendAtSubscribeIfNotExist,
    DoNotSend,
}

impl RetainHandling {
    /// The wire value.
    pub open spec fn spec_u8(self) -> u8 {
        match self {
            RetainHandling::SendAtSubscribe => 0x00,
            RetainHandling::SendAtSubscribeIfNotExist => 0x01,
            RetainHandling::DoNotSend => 0x02,
        }
    }

    /// The code of a wire value, if any.
    pub open spec fn spec_from_u8(value: u8) -> Option<RetainHandling> {
        if value == 0x00 {
            Some(RetainHandling::SendAtSubscribe)
        } else if value == 0x01 {
            Some(RetainHandling::SendAtSubscribeIfNotExist)
        } else if value == 0x02 {
            Some(RetainHandling::DoNotSend)
        } else {
            None
        }
    }

    /// Decodes a wire value.
    pub fn from_u8(value: u8) -> (r: Option<RetainHandling>)
        ensures
            r == RetainHandling::spec_from_u8(value),
    {
        match value {
            0x00 => Some(RetainHandling::SendAtSubscribe),
            0x01 => Some(RetainHandling::SendAtSubscribeIfNotExist),
            0x02 => Some(RetainHandling::DoNotSend),
            _ => None,
        }
    }

    /// The wire value.
    pub fn to_u8(self) -> (r: u8)
        ensures
            r == self.spec_u8(),
    {
        match self {
            RetainHandling::SendAtSubscribe => 0x00,
            RetainHandling::SendAtSubscribeIfNotExist => 0x01,
            RetainHandling::DoNotSend => 0x02,
        }
    }

    /// The wire values that MQTT 5.0 fixes: each code is written as the value
    /// beside it below, that value decodes to the code, and no other byte
    /// decodes.
    pub proof fn lemma_wire_values()
        ensures
            RetainHandling::SendAtSubscribe.spec_u8() == 0x00u8,
            RetainHandling::SendAtSubscribeIfNotExist.spec_u8() == 0x01u8,
            RetainHandling::DoNotSend.spec_u8() == 0x02u8,
            RetainHandling::spec_from_u8(0x00u8) == Some(RetainHandling::SendAtSubscribe),
            RetainHandling::spec_from_u8(0x01u8) == Some(RetainHandling::SendAtSubscribeIfNotExist),
            RetainHandling::spec_from_u8(0x02u8) == Some(RetainHandling::DoNotSend),
            forall|b: u8| #[trigger] RetainHandling::spec_from_u8(b) is Some ==> (b == 0x00u8 || b == 0x01u8 || b == 0x02u8),
    {
    }

    /// The wire value of a code decodes to the code, and a wire value that
    /// decodes is the wire value of its code.
    pub proof fn lemma_u8_roundtrip(c: RetainHandling, value: u8)
        ensures
            RetainHandling::spec_from_u8(c.spec_u8()) == Some(c),
            RetainHandling::spec_from_u8(value) matches Some(d) ==> d.spec_u8() == value,
    {
    }
}

} // verus!
