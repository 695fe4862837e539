mod buf;
mod buffer;
mod codec;
mod cut;
mod error;
pub mod poll;
mod text;
mod topic;
mod types;
pub mod v3;
pub mod v5;

pub use buf::PacketBuf;
pub use buffer::{AcquirePlan, MockBufferConfig, ReadStrategy, ReturnPlan};
pub use codec::{header_len, lemma_total_remaining_roundtrip, remaining_len, total_len, var_int_len};
pub use error::{Error, IoErrorKind};
pub use poll::{GenericPollPacketState, HeaderProgress};
pub use types::{Pid, Protocol, QoS, QosPid, VarBytes};
pub use topic::{TopicFilter, TopicName};
