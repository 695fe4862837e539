//! Codec for MQTT v3.1.1 and v3.1.

pub(crate) mod connect;
mod packet;
mod poll;
pub(crate) mod prefix;
pub(crate) mod publish;
pub(crate) mod subscribe;

pub use connect::{Connack, Connect, ConnectReturnCode, LastWill};
pub use connect::{ConnectModel, LastWillModel};
pub use packet::{sp_body, sp_body_end, sp_packet, Header, Packet, PacketModel, PacketType};
pub use poll::{
    poll_body_complete, poll_header_complete, reading_body, sp_body_buf, sp_body_buf_end, PollPacketState,
};
pub use publish::{Publish, PublishModel};
pub use subscribe::{Suback, Subscribe, SubscribeReturnCode, Unsubscribe};
pub use subscribe::{SubackModel, SubscribeModel, UnsubscribeModel};
pub(crate) mod laws;

pub use laws::{lemma_packet_roundtrip, lemma_packet_stream_roundtrip};
pub use prefix::lemma_packet_prefix;
