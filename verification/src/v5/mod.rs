//! Codec for MQTT v5.0.

mod codes;
mod laws;
mod connect;
mod packet;
mod packet_laws;
mod poll;
mod prefix;
mod props;
mod publish;
mod subscribe;
mod types;

pub use codes::{
    AuthReasonCode, ConnectReasonCode, DisconnectReasonCode, PubackReasonCode, PubcompReasonCode,
    PubrecReasonCode, PubrelReasonCode, SubscribeReasonCode, UnsubscribeReasonCode,
};
pub use connect::{
    Auth, AuthModel, Connack, ConnackModel, Connect, ConnectModel, Disconnect, DisconnectModel,
    LastWill, LastWillModel,
};
pub use publish::{
    Puback, PubackModel, Pubcomp, PubcompModel, Publish, PublishModel, Pubrec, PubrecModel,
    Pubrel, PubrelModel,
};
pub use packet::{encodable, sp_body, sp_body_end, sp_packet, Packet, PacketModel};
pub use packet_laws::{lemma_packet_roundtrip, lemma_packet_stream_roundtrip};
pub use prefix::lemma_packet_prefix;
pub use poll::{poll_body_complete, poll_header_complete, reading_body, PollPacketState};
pub use props::{
    AuthProperties, ConnackProperties, ConnectProperties, DisconnectProperties, PropVal,
    PropertySet, PropertyValue, PropsKind, PropsModel, PubackProperties, PubcompProperties,
    PublishProperties, PubrecProperties, PubrelProperties, SubackProperties,
    SubscribeProperties, UnsubackProperties, UnsubscribeProperties, ValueKind, WillProperties,
};
pub use subscribe::{
    Suback, SubackModel, Subscribe, SubscribeModel, Unsuback, UnsubackModel, Unsubscribe,
    UnsubscribeModel,
};
pub use types::{
    DecodeErrV5, ErrorV5, Header, PacketType, PropertyId, RetainHandling, SubscriptionOptions,
    UserProperty, VarByteInt,
};
