use vstd::prelude::*;

use crate::buf::PacketBuf;
use crate::codec::{total_len, var_int, write_var_int, VAR_INT_LIMIT};
use crate::error::{DecodeErr, Error};
use crate::types::{QoS, QosPid, VarBytes};

use super::connect::{
    sp_auth, sp_connack, sp_connect, sp_disconnect, Auth, AuthModel, Connack, ConnackModel, Connect,
    ConnectModel, Disconnect, DisconnectModel,
};
use super::publish::{
    sp_puback, sp_pubcomp, sp_publish, sp_pubrec, sp_pubrel, Puback, PubackModel, Pubcomp,
    PubcompModel, Publish, PublishModel, Pubrec, PubrecModel, Pubrel, PubrelModel,
};
use super::subscribe::{
    sp_suback, sp_subscribe, sp_unsuback, sp_unsubscribe, Suback, SubackModel, Subscribe,
    SubscribeModel, Unsuback, UnsubackModel, Unsubscribe, UnsubscribeModel,
};
use super::types::{sp_header, DecodeErrV5, ErrorV5, Header, PacketType};

verus! {

/// MQTT v5.0 packet.
#[derive(Debug, Clone, PartialEq, Eq)]
pub enum Packet {
    Connect(Connect),
    Connack(Connack),
    Publish(Publish),
    Puback(Puback),
    Pubrec(Pubrec),
    Pubrel(Pubrel),
    Pubcomp(Pubcomp),
    Subscribe(Subscribe),
    Suback(Suback),
    Unsubscribe(Unsubscribe),
    Unsuback(Unsuback),
    Pingreq,
    Pingresp,
    Disconnect(Disconnect),
    Auth(Auth),
}

/// A packet as values.
pub enum PacketModel {
    Connect(ConnectModel),
    Connack(ConnackModel),
    Publish(PublishModel),
    Puback(PubackModel),
    Pubrec(PubrecModel),
    Pubrel(PubrelModel),
    Pubcomp(PubcompModel),
    Subscribe(SubscribeModel),
    Suback(SubackModel),
    Unsubscribe(UnsubscribeModel),
    Unsuback(UnsubackModel),
    Pingreq,
    Pingresp,
    Disconnect(DisconnectModel),
    Auth(AuthModel),
}

impl View for Packet {
    type V = PacketModel;

    open spec fn view(&self) -> PacketModel {
        match self {
            Packet::Connect(p) => PacketModel::Connect(p@),
            Packet::Connack(p) => PacketModel::Connack(p@),
            Packet::Publish(p) => PacketModel::Publish(p@),
            Packet::Puback(p) => PacketModel::Puback(p@),
            Packet::Pubrec(p) => PacketModel::Pubrec(p@),
            Packet::Pubrel(p) => PacketModel::Pubrel(p@),
            Packet::Pubcomp(p) => PacketModel::Pubcomp(p@),
            Packet::Subscribe(p) => PacketModel::Subscribe(p@),
            Packet::Suback(p) => PacketModel::Suback(p@),
            Packet::Unsubscribe(p) => PacketModel::Unsubscribe(p@),
            Packet::Unsuback(p) => PacketModel::Unsuback(p@),
            Packet::Pingreq => PacketModel::Pingreq,
            Packet::Pingresp => PacketModel::Pingresp,
            Packet::Disconnect(p) => PacketModel::Disconnect(p@),
            Packet::Auth(p) => PacketModel::Auth(p@),
        }
    }
}

impl PacketModel {
    /// The first byte: packet type and flags.
    pub open spec fn control_byte(self) -> u8 {
        match self {
            PacketModel::Connect(_) => 0x10,
            PacketModel::Connack(_) => 0x20,
            PacketModel::Publish(p) => (0x30 + p.qos_pid.spec_qos().spec_u8() * 2 + (if p.dup {
                8u8
            } else {
                0u8
            }) + (if p.retain {
                1u8
            } else {
                0u8
            })) as u8,
            PacketModel::Puback(_) => 0x40,
            PacketModel::Pubrec(_) => 0x50,
            PacketModel::Pubrel(_) => 0x62,
            PacketModel::Pubcomp(_) => 0x70,
            PacketModel::Subscribe(_) => 0x82,
            PacketModel::Suback(_) => 0x90,
            PacketModel::Unsubscribe(_) => 0xA2,
            PacketModel::Unsuback(_) => 0xB0,
            PacketModel::Pingreq => 0xC0,
            PacketModel::Pingresp => 0xD0,
            PacketModel::Disconnect(_) => 0xE0,
            PacketModel::Auth(_) => 0xF0,
        }
    }

    /// The encoding of the packet's body.
    pub open spec fn body(self) -> Seq<u8> {
        match self {
            PacketModel::Connect(p) => p.spec_encode(),
            PacketModel::Connack(p) => p.spec_encode(),
            PacketModel::Publish(p) => p.spec_encode(),
            PacketModel::Puback(p) => p.spec_encode(),
            PacketModel::Pubrec(p) => p.spec_encode(),
            PacketModel::Pubrel(p) => p.spec_encode(),
            PacketModel::Pubcomp(p) => p.spec_encode(),
            PacketModel::Subscribe(p) => p.spec_encode(),
            PacketModel::Suback(p) => p.spec_encode(),
            PacketModel::Unsubscribe(p) => p.spec_encode(),
            PacketModel::Unsuback(p) => p.spec_encode(),
            PacketModel::Pingreq => Seq::empty(),
            PacketModel::Pingresp => Seq::empty(),
            PacketModel::Disconnect(p) => p.spec_encode(),
            PacketModel::Auth(p) => p.spec_encode(),
        }
    }

    /// The encoding of the packet: first byte, remaining length, body.
    pub open spec fn spec_encode(self) -> Seq<u8> {
        seq![self.control_byte()] + var_int(self.body().len()) + self.body()
    }

    /// Whether the properties of the packet can be encoded.
    pub open spec fn props_encodable(self) -> bool {
        match self {
            PacketModel::Connect(p) => p.encodable(),
            PacketModel::Connack(p) => p.encodable(),
            PacketModel::Publish(p) => p.encodable(),
            PacketModel::Puback(p) => p.encodable(),
            PacketModel::Pubrec(p) => p.encodable(),
            PacketModel::Pubrel(p) => p.encodable(),
            PacketModel::Pubcomp(p) => p.encodable(),
            PacketModel::Subscribe(p) => p.encodable(),
            PacketModel::Suback(p) => p.encodable(),
            PacketModel::Unsubscribe(p) => p.encodable(),
            PacketModel::Unsuback(p) => p.encodable(),
            PacketModel::Pingreq => true,
            PacketModel::Pingresp => true,
            PacketModel::Disconnect(p) => p.encodable(),
            PacketModel::Auth(p) => p.encodable(),
        }
    }
}

/// A packet's body fits the variable byte integer of the remaining length.
pub open spec fn encodable(p: PacketModel) -> bool {
    p.body().len() < VAR_INT_LIMIT
}

/// Decodes the body of a packet of the given header: the packet and the
/// offset after the body.
#[verifier::opaque]
pub open spec fn sp_body_end(d: Seq<u8>, off: int, h: Header) -> Result<(PacketModel, int), DecodeErrV5> {
    match h.typ {
        PacketType::Connect => match sp_connect(d, off) {
            Ok((m, next)) => Ok((PacketModel::Connect(m), next)),
            Err(e) => Err(e),
        },
        PacketType::Connack => match sp_connack(d, off, h) {
            Ok((m, next)) => Ok((PacketModel::Connack(m), next)),
            Err(e) => Err(e),
        },
        PacketType::Publish => match sp_publish(d, off, h) {
            Ok((m, next)) => Ok((PacketModel::Publish(m), next)),
            Err(e) => Err(e),
        },
        PacketType::Puback => match sp_puback(d, off, h) {
            Ok((m, next)) => Ok((PacketModel::Puback(m), next)),
            Err(e) => Err(e),
        },
        PacketType::Pubrec => match sp_pubrec(d, off, h) {
            Ok((m, next)) => Ok((PacketModel::Pubrec(m), next)),
            Err(e) => Err(e),
        },
        PacketType::Pubrel => match sp_pubrel(d, off, h) {
            Ok((m, next)) => Ok((PacketModel::Pubrel(m), next)),
            Err(e) => Err(e),
        },
        PacketType::Pubcomp => match sp_pubcomp(d, off, h) {
            Ok((m, next)) => Ok((PacketModel::Pubcomp(m), next)),
            Err(e) => Err(e),
        },
        PacketType::Subscribe => match sp_subscribe(d, off, h) {
            Ok((m, next)) => Ok((PacketModel::Subscribe(m), next)),
            Err(e) => Err(e),
        },
        PacketType::Suback => match sp_suback(d, off, h) {
            Ok((m, next)) => Ok((PacketModel::Suback(m), next)),
            Err(e) => Err(e),
        },
        PacketType::Unsubscribe => match sp_unsubscribe(d, off, h) {
            Ok((m, next)) => Ok((PacketModel::Unsubscribe(m), next)),
            Err(e) => Err(e),
        },
        PacketType::Unsuback => match sp_unsuback(d, off, h) {
            Ok((m, next)) => Ok((PacketModel::Unsuback(m), next)),
            Err(e) => Err(e),
        },
        PacketType::Pingreq => Ok((PacketModel::Pingreq, off)),
        PacketType::Pingresp => Ok((PacketModel::Pingresp, off)),
        PacketType::Disconnect => match sp_disconnect(d, off, h) {
            Ok((m, next)) => Ok((PacketModel::Disconnect(m), next)),
            Err(e) => Err(e),
        },
        PacketType::Auth => match sp_auth(d, off, h) {
            Ok((m, next)) => Ok((PacketModel::Auth(m), next)),
            Err(e) => Err(e),
        },
    }
}

/// Decodes the body of a packet of the given header.
pub open spec fn sp_body(d: Seq<u8>, off: int, h: Header) -> Result<PacketModel, DecodeErrV5> {
    match sp_body_end(d, off, h) {
        Ok((m, _)) => Ok(m),
        Err(e) => Err(e),
    }
}

/// Decodes a packet at the start of `d`: `None` when the bytes end before
/// the packet does.
pub open spec fn sp_packet(d: Seq<u8>) -> Result<Option<PacketModel>, DecodeErrV5> {
    match sp_header(d, 0) {
        Ok((h, off)) => match sp_body(d, off, h) {
            Ok(m) => Ok(Some(m)),
            Err(DecodeErrV5::Common(DecodeErr::Plain(e))) => if e == Error::eof() {
                Ok(None)
            } else {
                Err(DecodeErrV5::Common(DecodeErr::Plain(e)))
            },
            Err(e) => Err(e),
        },
        Err(e) => if e == Error::eof() {
            Ok(None)
        } else {
            Err(DecodeErrV5::Common(DecodeErr::Plain(e)))
        },
    }
}

impl Packet {
    /// The packet type.
    pub fn get_type(&self) -> (r: PacketType)
        ensures
            r == match self {
                Packet::Connect(_) => PacketType::Connect,
                Packet::Connack(_) => PacketType::Connack,
                Packet::Publish(_) => PacketType::Publish,
                Packet::Puback(_) => PacketType::Puback,
                Packet::Pubrec(_) => PacketType::Pubrec,
                Packet::Pubrel(_) => PacketType::Pubrel,
                Packet::Pubcomp(_) => PacketType::Pubcomp,
                Packet::Subscribe(_) => PacketType::Subscribe,
                Packet::Suback(_) => PacketType::Suback,
                Packet::Unsubscribe(_) => PacketType::Unsubscribe,
                Packet::Unsuback(_) => PacketType::Unsuback,
                Packet::Pingreq => PacketType::Pingreq,
                Packet::Pingresp => PacketType::Pingresp,
                Packet::Disconnect(_) => PacketType::Disconnect,
                Packet::Auth(_) => PacketType::Auth,
            },
    {
        match self {
            Packet::Connect(_) => PacketType::Connect,
            Packet::Connack(_) => PacketType::Connack,
            Packet::Publish(_) => PacketType::Publish,
            Packet::Puback(_) => PacketType::Puback,
            Packet::Pubrec(_) => PacketType::Pubrec,
            Packet::Pubrel(_) => PacketType::Pubrel,
            Packet::Pubcomp(_) => PacketType::Pubcomp,
            Packet::Subscribe(_) => PacketType::Subscribe,
            Packet::Suback(_) => PacketType::Suback,
            Packet::Unsubscribe(_) => PacketType::Unsubscribe,
            Packet::Unsuback(_) => PacketType::Unsuback,
            Packet::Pingreq => PacketType::Pingreq,
            Packet::Pingresp => PacketType::Pingresp,
            Packet::Disconnect(_) => PacketType::Disconnect,
            Packet::Auth(_) => PacketType::Auth,
        }
    }

    /// The length of the packet's body.
    fn body_len(&self) -> (r: usize)
        requires
            self@.props_encodable(),
            self@.body().len() <= usize::MAX,
        ensures
            r == self@.body().len(),
    {
        match self {
            Packet::Connect(inner) => inner.encode_len(),
            Packet::Connack(inner) => inner.encode_len(),
            Packet::Publish(inner) => inner.encode_len(),
            Packet::Puback(inner) => inner.encode_len(),
            Packet::Pubrec(inner) => inner.encode_len(),
            Packet::Pubrel(inner) => inner.encode_len(),
            Packet::Pubcomp(inner) => inner.encode_len(),
            Packet::Subscribe(inner) => inner.encode_len(),
            Packet::Suback(inner) => inner.encode_len(),
            Packet::Unsubscribe(inner) => inner.encode_len(),
            Packet::Unsuback(inner) => inner.encode_len(),
            Packet::Pingreq => 0,
            Packet::Pingresp => 0,
            Packet::Disconnect(inner) => inner.encode_len(),
            Packet::Auth(inner) => inner.encode_len(),
        }
    }

    /// The first byte: packet type and flags.
    fn control_byte(&self) -> (r: u8)
        ensures
            r == self@.control_byte(),
    {
        match self {
            Packet::Connect(_) => 0x10,
            Packet::Connack(_) => 0x20,
            Packet::Publish(publish) => {
                let qos = publish.qos_pid.qos().to_u8();
                let dup: u8 = if publish.dup { 8 } else { 0 };
                let retain: u8 = if publish.retain { 1 } else { 0 };
                0x30 + qos * 2 + dup + retain
            },
            Packet::Puback(_) => 0x40,
            Packet::Pubrec(_) => 0x50,
            Packet::Pubrel(_) => 0x62,
            Packet::Pubcomp(_) => 0x70,
            Packet::Subscribe(_) => 0x82,
            Packet::Suback(_) => 0x90,
            Packet::Unsubscribe(_) => 0xA2,
            Packet::Unsuback(_) => 0xB0,
            Packet::Pingreq => 0xC0,
            Packet::Pingresp => 0xD0,
            Packet::Disconnect(_) => 0xE0,
            Packet::Auth(_) => 0xF0,
        }
    }

    /// Appends the encoding of the packet's body.
    fn encode_body(&self, buf: &mut Vec<u8>)
        requires
            self@.props_encodable(),
        ensures
            final(buf)@ == old(buf)@ + self@.body(),
    {
        match self {
            Packet::Connect(inner) => inner.encode(buf),
            Packet::Connack(inner) => inner.encode(buf),
            Packet::Publish(inner) => inner.encode(buf),
            Packet::Puback(inner) => inner.encode(buf),
            Packet::Pubrec(inner) => inner.encode(buf),
            Packet::Pubrel(inner) => inner.encode(buf),
            Packet::Pubcomp(inner) => inner.encode(buf),
            Packet::Subscribe(inner) => inner.encode(buf),
            Packet::Suback(inner) => inner.encode(buf),
            Packet::Unsubscribe(inner) => inner.encode(buf),
            Packet::Unsuback(inner) => inner.encode(buf),
            Packet::Pingreq => {},
            Packet::Pingresp => {},
            Packet::Disconnect(inner) => inner.encode(buf),
            Packet::Auth(inner) => inner.encode(buf),
        }
        assert(buf@ =~= old(buf)@ + self@.body());
    }

    /// Encodes the packet; fails when the body is too long for the remaining
    /// length.
    pub fn encode(&self) -> (r: Result<VarBytes, Error>)
        requires
            self@.props_encodable(),
            self@.body().len() <= usize::MAX,
        ensures
            encodable(self@) ==> (r matches Ok(v) && v.spec_bytes() == self@.spec_encode()),
            !encodable(self@) ==> r == Err::<VarBytes, Error>(Error::InvalidVarByteInt),
    {
        let remaining_len = self.body_len();
        if remaining_len >= VAR_INT_LIMIT {
            return Err(Error::InvalidVarByteInt);
        }
        let control = self.control_byte();
        match self {
            Packet::Pingreq | Packet::Pingresp => {
                let r = VarBytes::Fixed2([control, 0]);
                assert(r.spec_bytes() =~= self@.spec_encode());
                return Ok(r);
            },
            _ => {},
        }
        let mut buf: Vec<u8> = Vec::new();
        buf.push(control);
        write_var_int(&mut buf, remaining_len);
        self.encode_body(&mut buf);
        assert(buf@ =~= self@.spec_encode());
        Ok(VarBytes::Dynamic(buf))
    }

    /// The total encoded length of the packet.
    pub fn encode_len(&self) -> (r: Result<usize, ErrorV5>)
        requires
            self@.props_encodable(),
            self@.body().len() <= usize::MAX,
        ensures
            encodable(self@) ==> r == Ok::<usize, ErrorV5>(self@.spec_encode().len() as usize),
            !encodable(self@) ==> r == Err::<usize, ErrorV5>(
                ErrorV5::Common(Error::InvalidVarByteInt),
            ),
    {
        proof {
            if encodable(self@) {
                crate::codec::lemma_var_int_len(self@.body().len());
            }
        }
        match total_len(self.body_len()) {
            Ok(n) => Ok(n),
            Err(e) => Err(ErrorV5::Common(e)),
        }
    }

    /// Decodes the body of a packet of the given header.
    #[verifier::rlimit(60)]
    pub fn decode_body(buf: &mut PacketBuf, header: Header) -> (r: Result<Packet, ErrorV5>)
        ensures
            final(buf).bytes() == old(buf).bytes(),
            match sp_body_end(old(buf).bytes(), old(buf).pos(), header) {
                Ok((m, next)) => r matches Ok(p) && p@ == m && final(buf).pos() == next,
                Err(e) => r matches Err(x) && x.is(e),
            },
    {
        proof {
            reveal(sp_body_end);
        }
        match header.typ {
            PacketType::Connect => match Connect::decode(buf) {
                Ok(p) => Ok(Packet::Connect(p)),
                Err(e) => Err(e),
            },
            PacketType::Connack => match Connack::decode(buf, header) {
                Ok(p) => Ok(Packet::Connack(p)),
                Err(e) => Err(e),
            },
            PacketType::Publish => match Publish::decode(buf, header) {
                Ok(p) => Ok(Packet::Publish(p)),
                Err(e) => Err(e),
            },
            PacketType::Puback => match Puback::decode(buf, header) {
                Ok(p) => Ok(Packet::Puback(p)),
                Err(e) => Err(e),
            },
            PacketType::Pubrec => match Pubrec::decode(buf, header) {
                Ok(p) => Ok(Packet::Pubrec(p)),
                Err(e) => Err(e),
            },
            PacketType::Pubrel => match Pubrel::decode(buf, header) {
                Ok(p) => Ok(Packet::Pubrel(p)),
                Err(e) => Err(e),
            },
            PacketType::Pubcomp => match Pubcomp::decode(buf, header) {
                Ok(p) => Ok(Packet::Pubcomp(p)),
                Err(e) => Err(e),
            },
            PacketType::Subscribe => match Subscribe::decode(buf, header) {
                Ok(p) => Ok(Packet::Subscribe(p)),
                Err(e) => Err(e),
            },
            PacketType::Suback => match Suback::decode(buf, header) {
                Ok(p) => Ok(Packet::Suback(p)),
                Err(e) => Err(e),
            },
            PacketType::Unsubscribe => match Unsubscribe::decode(buf, header) {
                Ok(p) => Ok(Packet::Unsubscribe(p)),
                Err(e) => Err(e),
            },
            PacketType::Unsuback => match Unsuback::decode(buf, header) {
                Ok(p) => Ok(Packet::Unsuback(p)),
                Err(e) => Err(e),
            },
            PacketType::Pingreq => Ok(Packet::Pingreq),
            PacketType::Pingresp => Ok(Packet::Pingresp),
            PacketType::Disconnect => match Disconnect::decode(buf, header) {
                Ok(p) => Ok(Packet::Disconnect(p)),
                Err(e) => Err(e),
            },
            PacketType::Auth => match Auth::decode(buf, header) {
                Ok(p) => Ok(Packet::Auth(p)),
                Err(e) => Err(e),
            },
        }
    }

    /// Decodes a packet at the start of `bytes`; `None` when the bytes end
    /// before the packet does.
    pub fn decode(bytes: &[u8]) -> (r: Result<Option<Packet>, ErrorV5>)
        ensures
            match sp_packet(bytes@) {
                Ok(Some(m)) => r matches Ok(Some(p)) && p@ == m,
                Ok(None) => r matches Ok(None),
                Err(e) => r matches Err(x) && x.is(e),
            },
    {
        let mut buf = PacketBuf::new(bytes);
        let header = match Header::decode_buf(&mut buf) {
            Ok(h) => h,
            Err(e) => {
                if e.is_eof() {
                    return Ok(None);
                } else {
                    return Err(e);
                }
            },
        };
        let r = Packet::decode_body(&mut buf, header);
        match r {
            Ok(p) => Ok(Some(p)),
            Err(e) => {
                if e.is_eof() {
                    Ok(None)
                } else {
                    Err(e)
                }
            },
        }
    }
}

impl From<Connect> for Packet {
    fn from(p: Connect) -> (r: Packet) {
        Packet::Connect(p)
    }
}

impl vstd::std_specs::convert::FromSpecImpl<Connect> for Packet {
    open spec fn obeys_from_spec() -> bool {
        true
    }

    open spec fn from_spec(p: Connect) -> Packet {
        Packet::Connect(p)
    }
}

impl From<Connack> for Packet {
    fn from(p: Connack) -> (r: Packet) {
        Packet::Connack(p)
    }
}

impl vstd::std_specs::convert::FromSpecImpl<Connack> for Packet {
    open spec fn obeys_from_spec() -> bool {
        true
    }

    open spec fn from_spec(p: Connack) -> Packet {
        Packet::Connack(p)
    }
}

impl From<Publish> for Packet {
    fn from(p: Publish) -> (r: Packet) {
        Packet::Publish(p)
    }
}

impl vstd::std_specs::convert::FromSpecImpl<Publish> for Packet {
    open spec fn obeys_from_spec() -> bool {
        true
    }

    open spec fn from_spec(p: Publish) -> Packet {
        Packet::Publish(p)
    }
}

impl From<Puback> for Packet {
    fn from(p: Puback) -> (r: Packet) {
        Packet::Puback(p)
    }
}

impl vstd::std_specs::convert::FromSpecImpl<Puback> for Packet {
    open spec fn obeys_from_spec() -> bool {
        true
    }

    open spec fn from_spec(p: Puback) -> Packet {
        Packet::Puback(p)
    }
}

impl From<Pubrec> for Packet {
    fn from(p: Pubrec) -> (r: Packet) {
        Packet::Pubrec(p)
    }
}

impl vstd::std_specs::convert::FromSpecImpl<Pubrec> for Packet {
    open spec fn obeys_from_spec() -> bool {
        true
    }

    open spec fn from_spec(p: Pubrec) -> Packet {
        Packet::Pubrec(p)
    }
}

impl From<Pubrel> for Packet {
    fn from(p: Pubrel) -> (r: Packet) {
        Packet::Pubrel(p)
    }
}

impl vstd::std_specs::convert::FromSpecImpl<Pubrel> for Packet {
    open spec fn obeys_from_spec() -> bool {
        true
    }

    open spec fn from_spec(p: Pubrel) -> Packet {
        Packet::Pubrel(p)
    }
}

impl From<Pubcomp> for Packet {
    fn from(p: Pubcomp) -> (r: Packet) {
        Packet::Pubcomp(p)
    }
}

impl vstd::std_specs::convert::FromSpecImpl<Pubcomp> for Packet {
    open spec fn obeys_from_spec() -> bool {
        true
    }

    open spec fn from_spec(p: Pubcomp) -> Packet {
        Packet::Pubcomp(p)
    }
}

impl From<Subscribe> for Packet {
    fn from(p: Subscribe) -> (r: Packet) {
        Packet::Subscribe(p)
    }
}

impl vstd::std_specs::convert::FromSpecImpl<Subscribe> for Packet {
    open spec fn obeys_from_spec() -> bool {
        true
    }

    open spec fn from_spec(p: Subscribe) -> Packet {
        Packet::Subscribe(p)
    }
}

impl From<Suback> for Packet {
    fn from(p: Suback) -> (r: Packet) {
        Packet::Suback(p)
    }
}

impl vstd::std_specs::convert::FromSpecImpl<Suback> for Packet {
    open spec fn obeys_from_spec() -> bool {
        true
    }

    open spec fn from_spec(p: Suback) -> Packet {
        Packet::Suback(p)
    }
}

impl From<Unsubscribe> for Packet {
    fn from(p: Unsubscribe) -> (r: Packet) {
        Packet::Unsubscribe(p)
    }
}

impl vstd::std_specs::convert::FromSpecImpl<Unsubscribe> for Packet {
    open spec fn obeys_from_spec() -> bool {
        true
    }

    open spec fn from_spec(p: Unsubscribe) -> Packet {
        Packet::Unsubscribe(p)
    }
}

impl From<Unsuback> for Packet {
    fn from(p: Unsuback) -> (r: Packet) {
        Packet::Unsuback(p)
    }
}

impl vstd::std_specs::convert::FromSpecImpl<Unsuback> for Packet {
    open spec fn obeys_from_spec() -> bool {
        true
    }

    open spec fn from_spec(p: Unsuback) -> Packet {
        Packet::Unsuback(p)
    }
}

impl From<Disconnect> for Packet {
    fn from(p: Disconnect) -> (r: Packet) {
        Packet::Disconnect(p)
    }
}

impl vstd::std_specs::convert::FromSpecImpl<Disconnect> for Packet {
    open spec fn obeys_from_spec() -> bool {
        true
    }

    open spec fn from_spec(p: Disconnect) -> Packet {
        Packet::Disconnect(p)
    }
}

impl From<Auth> for Packet {
    fn from(p: Auth) -> (r: Packet) {
        Packet::Auth(p)
    }
}

impl vstd::std_specs::convert::FromSpecImpl<Auth> for Packet {
    open spec fn obeys_from_spec() -> bool {
        true
    }

    open spec fn from_spec(p: Auth) -> Packet {
        Packet::Auth(p)
    }
}

} // verus!
