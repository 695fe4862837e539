use vstd::prelude::*;

use crate::buf::{sp_u8, sp_var_int, PacketBuf};
use crate::codec::{be16, spec_total_len, total_len, var_int, write_var_int, VAR_INT_LIMIT};
use crate::error::{DecodeErr, Error, IoErrorKind};
use crate::types::{Pid, QoS, QosPid, VarBytes};

use super::connect::{sp_connack, sp_connect, Connack, Connect, ConnectModel};
use super::publish::{read_pid, sp_pid, sp_publish, Publish, PublishModel};
use super::subscribe::{
    sp_suback, sp_subscribe, sp_unsubscribe, Suback, SubackModel, Subscribe, SubscribeModel,
    Unsubscribe, UnsubscribeModel,
};

verus! {

/// Packet type, without the packet's data.
#[derive(Debug, Copy, Clone, PartialEq, Eq, Structural, Hash)]
pub enum PacketType {
    Connect,
    Connack,
    Publish,
    Puback,
    Pubrec,
    Pubrel,
    Pubcomp,
    Subscribe,
    Suback,
    Unsubscribe,
    Unsuback,
    Pingreq,
    Pingresp,
    Disconnect,
}

/// Fixed header.
#[derive(Debug, Clone, Copy, PartialEq, Eq, Structural, Hash)]
pub struct Header {
    pub typ: PacketType,
    pub dup: bool,
    pub qos: QoS,
    pub retain: bool,
    pub remaining_len: u32,
    /// The number of bytes that the remaining length took.
    pub remaining_len_bytes: u8,
}

/// The packet type of the upper four bits of the first byte, and the flags
/// that its lower four bits must hold (publish takes any).
pub open spec fn spec_type_of(hd: u8) -> Option<(PacketType, Option<u8>)> {
    let t = hd / 16;
    if t == 1 {
        Some((PacketType::Connect, Some(0u8)))
    } else if t == 2 {
        Some((PacketType::Connack, Some(0u8)))
    } else if t == 3 {
        Some((PacketType::Publish, None))
    } else if t == 4 {
        Some((PacketType::Puback, Some(0u8)))
    } else if t == 5 {
        Some((PacketType::Pubrec, Some(0u8)))
    } else if t == 6 {
        Some((PacketType::Pubrel, Some(2u8)))
    } else if t == 7 {
        Some((PacketType::Pubcomp, Some(0u8)))
    } else if t == 8 {
        Some((PacketType::Subscribe, Some(2u8)))
    } else if t == 9 {
        Some((PacketType::Suback, Some(0u8)))
    } else if t == 10 {
        Some((PacketType::Unsubscribe, Some(2u8)))
    } else if t == 11 {
        Some((PacketType::Unsuback, Some(0u8)))
    } else if t == 12 {
        Some((PacketType::Pingreq, Some(0u8)))
    } else if t == 13 {
        Some((PacketType::Pingresp, Some(0u8)))
    } else if t == 14 {
        Some((PacketType::Disconnect, Some(0u8)))
    } else {
        None
    }
}

/// The packet type numbers of MQTT 3.1.1 in the upper four bits of the first
/// byte, and the flags that its lower four bits must hold: 1 connect,
/// 2 connack, 3 publish (any flags), 4 puback, 5 pubrec, 6 pubrel (flags 2),
/// 7 pubcomp, 8 subscribe (flags 2), 9 suback, 10 unsubscribe (flags 2),
/// 11 unsuback, 12 ping request, 13 ping response, 14 disconnect;
/// 0 and 15 are no type. Only the upper four bits choose the type.
pub proof fn lemma_type_numbers(hd: u8)
    ensures
        spec_type_of(16u8) == Some((PacketType::Connect, Some(0u8))),
        spec_type_of(32u8) == Some((PacketType::Connack, Some(0u8))),
        spec_type_of(48u8) == Some((PacketType::Publish, None::<u8>)),
        spec_type_of(64u8) == Some((PacketType::Puback, Some(0u8))),
        spec_type_of(80u8) == Some((PacketType::Pubrec, Some(0u8))),
        spec_type_of(96u8) == Some((PacketType::Pubrel, Some(2u8))),
        spec_type_of(112u8) == Some((PacketType::Pubcomp, Some(0u8))),
        spec_type_of(128u8) == Some((PacketType::Subscribe, Some(2u8))),
        spec_type_of(144u8) == Some((PacketType::Suback, Some(0u8))),
        spec_type_of(160u8) == Some((PacketType::Unsubscribe, Some(2u8))),
        spec_type_of(176u8) == Some((PacketType::Unsuback, Some(0u8))),
        spec_type_of(192u8) == Some((PacketType::Pingreq, Some(0u8))),
        spec_type_of(208u8) == Some((PacketType::Pingresp, Some(0u8))),
        spec_type_of(224u8) == Some((PacketType::Disconnect, Some(0u8))),
        spec_type_of(0u8) is None && spec_type_of(240u8) is None,
        spec_type_of(hd) == spec_type_of(((hd / 16) * 16) as u8),
{
}

/// The header of a first byte and a remaining length.
pub open spec fn spec_header(hd: u8, remaining_len: u32, len_bytes: u8) -> Result<Header, Error> {
    match spec_type_of(hd) {
        None => Err(Error::InvalidHeader),
        Some((typ, Some(flags))) => if hd % 16 == flags {
            Ok(
                Header {
                    typ,
                    dup: false,
                    qos: QoS::Level0,
                    retain: false,
                    remaining_len,
                    remaining_len_bytes: len_bytes,
                },
            )
        } else {
            Err(Error::InvalidHeader)
        },
        Some((typ, None)) => match QoS::spec_from_u8((hd % 8) / 2) {
            Some(qos) => Ok(
                Header {
                    typ,
                    dup: (hd / 8) % 2 == 1,
                    qos,
                    retain: hd % 2 == 1,
                    remaining_len,
                    remaining_len_bytes: len_bytes,
                },
            ),
            None => Err(Error::InvalidQos((hd % 8) / 2)),
        },
    }
}

/// Decodes a fixed header at the start of `d`.
pub open spec fn sp_header(d: Seq<u8>) -> Result<(Header, int), Error> {
    sp_header_at(d, 0)
}

/// Decodes a fixed header at `off`.
pub open spec fn sp_header_at(d: Seq<u8>, off: int) -> Result<(Header, int), Error> {
    match sp_u8(d, off) {
        Ok((hd, o1)) => match sp_var_int(d, o1) {
            Ok((rem, o2)) => match spec_header(hd, rem as u32, (o2 - o1) as u8) {
                Ok(h) => Ok((h, o2)),
                Err(e) => Err(e),
            },
            Err(e) => Err(e),
        },
        Err(e) => Err(e),
    }
}

impl Header {
    pub fn new(
        typ: PacketType,
        dup: bool,
        qos: QoS,
        retain: bool,
        remaining_len: u32,
        remaining_len_bytes: u8,
    ) -> (r: Self)
        ensures
            r == (Header { typ, dup, qos, retain, remaining_len, remaining_len_bytes }),
    {
        Header { typ, dup, qos, retain, remaining_len, remaining_len_bytes }
    }

    /// Makes the header of a first byte and a remaining length.
    pub fn new_with(hd: u8, remaining_len: u32, remaining_len_bytes: u8) -> (r: Result<Header, Error>)
        ensures
            r == spec_header(hd, remaining_len, remaining_len_bytes),
    {
        let flags = hd % 16;
        let (typ, flags_ok) = match hd / 16 {
            1 => (PacketType::Connect, flags == 0),
            2 => (PacketType::Connack, flags == 0),
            3 => {
                let qos = QoS::from_u8((hd % 8) / 2)?;
                return Ok(
                    Header {
                        typ: PacketType::Publish,
                        dup: (hd / 8) % 2 == 1,
                        qos,
                        retain: hd % 2 == 1,
                        remaining_len,
                        remaining_len_bytes,
                    },
                );
            },
            4 => (PacketType::Puback, flags == 0),
            5 => (PacketType::Pubrec, flags == 0),
            6 => (PacketType::Pubrel, flags == 2),
            7 => (PacketType::Pubcomp, flags == 0),
            8 => (PacketType::Subscribe, flags == 2),
            9 => (PacketType::Suback, flags == 0),
            10 => (PacketType::Unsubscribe, flags == 2),
            11 => (PacketType::Unsuback, flags == 0),
            12 => (PacketType::Pingreq, flags == 0),
            13 => (PacketType::Pingresp, flags == 0),
            14 => (PacketType::Disconnect, flags == 0),
            _ => return Err(Error::InvalidHeader),
        };
        if !flags_ok {
            return Err(Error::InvalidHeader);
        }
        Ok(
            Header {
                typ,
                dup: false,
                qos: QoS::Level0,
                retain: false,
                remaining_len,
                remaining_len_bytes,
            },
        )
    }

    /// Decodes a fixed header at the start of `bytes`.
    pub fn decode(bytes: &[u8]) -> (r: Result<Header, Error>)
        ensures
            match sp_header(bytes@) {
                Ok((h, _)) => r == Ok::<Header, Error>(h),
                Err(e) => r == Err::<Header, Error>(e),
            },
    {
        let mut buf = PacketBuf::new(bytes);
        Self::decode_buf(&mut buf)
    }

    /// Decodes a fixed header at the cursor.
    pub fn decode_buf(buf: &mut PacketBuf) -> (r: Result<Header, Error>)
        ensures
            final(buf).bytes() == old(buf).bytes(),
            match sp_header_at(old(buf).bytes(), old(buf).pos()) {
                Ok((h, next)) => r == Ok::<Header, Error>(h) && final(buf).pos() == next,
                Err(e) => r == Err::<Header, Error>(e),
            },
    {
        let hd = buf.read_u8()?;
        let (remaining_len, len_bytes) = buf.decode_var_int()?;
        Header::new_with(hd, remaining_len, len_bytes as u8)
    }
}


/// MQTT v3.1.1 packet.
#[derive(Debug, Clone, PartialEq, Eq)]
pub enum Packet {
    Connect(Connect),
    Connack(Connack),
    Publish(Publish),
    Puback(Pid),
    Pubrec(Pid),
    Pubrel(Pid),
    Pubcomp(Pid),
    Subscribe(Subscribe),
    Suback(Suback),
    Unsubscribe(Unsubscribe),
    Unsuback(Pid),
    Pingreq,
    Pingresp,
    Disconnect,
}

/// A packet as values.
pub enum PacketModel {
    Connect(ConnectModel),
    Connack(Connack),
    Publish(PublishModel),
    Puback(Pid),
    Pubrec(Pid),
    Pubrel(Pid),
    Pubcomp(Pid),
    Subscribe(SubscribeModel),
    Suback(SubackModel),
    Unsubscribe(UnsubscribeModel),
    Unsuback(Pid),
    Pingreq,
    Pingresp,
    Disconnect,
}

impl View for Packet {
    type V = PacketModel;

    open spec fn view(&self) -> PacketModel {
        match self {
            Packet::Connect(p) => PacketModel::Connect(p@),
            Packet::Connack(p) => PacketModel::Connack(*p),
            Packet::Publish(p) => PacketModel::Publish(p@),
            Packet::Puback(p) => PacketModel::Puback(*p),
            Packet::Pubrec(p) => PacketModel::Pubrec(*p),
            Packet::Pubrel(p) => PacketModel::Pubrel(*p),
            Packet::Pubcomp(p) => PacketModel::Pubcomp(*p),
            Packet::Subscribe(p) => PacketModel::Subscribe(p@),
            Packet::Suback(p) => PacketModel::Suback(p@),
            Packet::Unsubscribe(p) => PacketModel::Unsubscribe(p@),
            Packet::Unsuback(p) => PacketModel::Unsuback(*p),
            Packet::Pingreq => PacketModel::Pingreq,
            Packet::Pingresp => PacketModel::Pingresp,
            Packet::Disconnect => PacketModel::Disconnect,
        }
    }
}

impl PacketModel {
    /// The first byte: packet type and flags.
    pub open spec fn control_byte(self) -> u8 {
        match self {
            PacketModel::Connect(_) => 0x10,
            PacketModel::Connack(_) => 0x20,
            PacketModel::Publish(p) => (0x30 + p.qos_pid.spec_qos().spec_u8() * 2 + (if p.dup {
                8u8
            } else {
                0u8
            }) + (if p.retain {
                1u8
            } else {
                0u8
            })) as u8,
            PacketModel::Puback(_) => 0x40,
            PacketModel::Pubrec(_) => 0x50,
            PacketModel::Pubrel(_) => 0x62,
            PacketModel::Pubcomp(_) => 0x70,
            PacketModel::Subscribe(_) => 0x82,
            PacketModel::Suback(_) => 0x90,
            PacketModel::Unsubscribe(_) => 0xA2,
            PacketModel::Unsuback(_) => 0xB0,
            PacketModel::Pingreq => 0xC0,
            PacketModel::Pingresp => 0xD0,
            PacketModel::Disconnect => 0xE0,
        }
    }

    /// The encoding of the packet's body.
    pub open spec fn body(self) -> Seq<u8> {
        match self {
            PacketModel::Connect(p) => p.spec_encode(),
            PacketModel::Connack(p) => p.spec_encode(),
            PacketModel::Publish(p) => p.spec_encode(),
            PacketModel::Puback(pid) => be16(pid.id() as int),
            PacketModel::Pubrec(pid) => be16(pid.id() as int),
            PacketModel::Pubrel(pid) => be16(pid.id() as int),
            PacketModel::Pubcomp(pid) => be16(pid.id() as int),
            PacketModel::Subscribe(p) => p.spec_encode(),
            PacketModel::Suback(p) => p.spec_encode(),
            PacketModel::Unsubscribe(p) => p.spec_encode(),
            PacketModel::Unsuback(pid) => be16(pid.id() as int),
            PacketModel::Pingreq => Seq::empty(),
            PacketModel::Pingresp => Seq::empty(),
            PacketModel::Disconnect => Seq::empty(),
        }
    }

    /// The encoding of the packet: first byte, remaining length, body.
    pub open spec fn spec_encode(self) -> Seq<u8> {
        seq![self.control_byte()] + var_int(self.body().len()) + self.body()
    }
}

/// Decodes the body of a packet of the given header: the packet and the
/// offset after the body.
pub open spec fn sp_body_end(d: Seq<u8>, off: int, h: Header) -> Result<(PacketModel, int), DecodeErr> {
    let r: Result<(PacketModel, int), DecodeErr> = match h.typ {
        PacketType::Pingreq => Ok((PacketModel::Pingreq, off)),
        PacketType::Pingresp => Ok((PacketModel::Pingresp, off)),
        PacketType::Disconnect => Ok((PacketModel::Disconnect, off)),
        PacketType::Connect => match sp_connect(d, off) {
            Ok((m, next)) => Ok((PacketModel::Connect(m), next)),
            Err(e) => Err(e),
        },
        PacketType::Connack => match sp_connack(d, off) {
            Ok((m, next)) => Ok((PacketModel::Connack(m), next)),
            Err(e) => Err(e),
        },
        PacketType::Publish => match sp_publish(d, off, h) {
            Ok((m, next)) => Ok((PacketModel::Publish(m), next)),
            Err(e) => Err(e),
        },
        PacketType::Puback => match sp_pid(d, off) {
            Ok((m, next)) => Ok((PacketModel::Puback(m), next)),
            Err(e) => Err(e),
        },
        PacketType::Pubrec => match sp_pid(d, off) {
            Ok((m, next)) => Ok((PacketModel::Pubrec(m), next)),
            Err(e) => Err(e),
        },
        PacketType::Pubrel => match sp_pid(d, off) {
            Ok((m, next)) => Ok((PacketModel::Pubrel(m), next)),
            Err(e) => Err(e),
        },
        PacketType::Pubcomp => match sp_pid(d, off) {
            Ok((m, next)) => Ok((PacketModel::Pubcomp(m), next)),
            Err(e) => Err(e),
        },
        PacketType::Subscribe => match sp_subscribe(d, off, h) {
            Ok((m, next)) => Ok((PacketModel::Subscribe(m), next)),
            Err(e) => Err(e),
        },
        PacketType::Suback => match sp_suback(d, off, h) {
            Ok((m, next)) => Ok((PacketModel::Suback(m), next)),
            Err(e) => Err(e),
        },
        PacketType::Unsubscribe => match sp_unsubscribe(d, off, h) {
            Ok((m, next)) => Ok((PacketModel::Unsubscribe(m), next)),
            Err(e) => Err(e),
        },
        PacketType::Unsuback => match sp_pid(d, off) {
            Ok((m, next)) => Ok((PacketModel::Unsuback(m), next)),
            Err(e) => Err(e),
        },
    };
    r
}

/// Decodes the body of a packet of the given header.
pub open spec fn sp_body(d: Seq<u8>, off: int, h: Header) -> Result<PacketModel, DecodeErr> {
    match sp_body_end(d, off, h) {
        Ok((m, _)) => Ok(m),
        Err(e) => Err(e),
    }
}

/// Decodes a packet at the start of `d`: `None` when the bytes end before
/// the packet does.
pub open spec fn sp_packet(d: Seq<u8>) -> Result<Option<PacketModel>, DecodeErr> {
    match sp_header(d) {
        Ok((h, off)) => match sp_body(d, off, h) {
            Ok(m) => Ok(Some(m)),
            Err(DecodeErr::Plain(e)) => if e == Error::eof() {
                Ok(None)
            } else {
                Err(DecodeErr::Plain(e))
            },
            Err(e) => Err(e),
        },
        Err(e) => if e == Error::eof() {
            Ok(None)
        } else {
            Err(DecodeErr::Plain(e))
        },
    }
}

/// A packet's encoding fits the variable byte integer of the remaining length.
pub open spec fn encodable(p: PacketModel) -> bool {
    p.body().len() < VAR_INT_LIMIT
}

impl Packet {
    /// The packet type.
    pub fn get_type(&self) -> (r: PacketType)
        ensures
            r == match self {
                Packet::Connect(_) => PacketType::Connect,
                Packet::Connack(_) => PacketType::Connack,
                Packet::Publish(_) => PacketType::Publish,
                Packet::Puback(_) => PacketType::Puback,
                Packet::Pubrec(_) => PacketType::Pubrec,
                Packet::Pubrel(_) => PacketType::Pubrel,
                Packet::Pubcomp(_) => PacketType::Pubcomp,
                Packet::Subscribe(_) => PacketType::Subscribe,
                Packet::Suback(_) => PacketType::Suback,
                Packet::Unsubscribe(_) => PacketType::Unsubscribe,
                Packet::Unsuback(_) => PacketType::Unsuback,
                Packet::Pingreq => PacketType::Pingreq,
                Packet::Pingresp => PacketType::Pingresp,
                Packet::Disconnect => PacketType::Disconnect,
            },
    {
        match self {
            Packet::Connect(_) => PacketType::Connect,
            Packet::Connack(_) => PacketType::Connack,
            Packet::Publish(_) => PacketType::Publish,
            Packet::Puback(_) => PacketType::Puback,
            Packet::Pubrec(_) => PacketType::Pubrec,
            Packet::Pubrel(_) => PacketType::Pubrel,
            Packet::Pubcomp(_) => PacketType::Pubcomp,
            Packet::Subscribe(_) => PacketType::Subscribe,
            Packet::Suback(_) => PacketType::Suback,
            Packet::Unsubscribe(_) => PacketType::Unsubscribe,
            Packet::Unsuback(_) => PacketType::Unsuback,
            Packet::Pingreq => PacketType::Pingreq,
            Packet::Pingresp => PacketType::Pingresp,
            Packet::Disconnect => PacketType::Disconnect,
        }
    }

    /// The length of the packet's body.
    fn body_len(&self) -> (r: usize)
        requires
            self@.body().len() <= usize::MAX,
        ensures
            r == self@.body().len(),
    {
        match self {
            Packet::Connect(inner) => inner.encode_len(),
            Packet::Connack(_) => 2,
            Packet::Publish(inner) => inner.encode_len(),
            Packet::Puback(_) => 2,
            Packet::Pubrec(_) => 2,
            Packet::Pubrel(_) => 2,
            Packet::Pubcomp(_) => 2,
            Packet::Subscribe(inner) => inner.encode_len(),
            Packet::Suback(inner) => inner.encode_len(),
            Packet::Unsubscribe(inner) => inner.encode_len(),
            Packet::Unsuback(_) => 2,
            Packet::Pingreq => 0,
            Packet::Pingresp => 0,
            Packet::Disconnect => 0,
        }
    }

    /// The first byte: packet type and flags.
    fn control_byte(&self) -> (r: u8)
        ensures
            r == self@.control_byte(),
    {
        match self {
            Packet::Connect(_) => 0x10,
            Packet::Connack(_) => 0x20,
            Packet::Publish(publish) => {
                let qos = publish.qos_pid.qos().to_u8();
                let dup: u8 = if publish.dup { 8 } else { 0 };
                let retain: u8 = if publish.retain { 1 } else { 0 };
                0x30 + qos * 2 + dup + retain
            },
            Packet::Puback(_) => 0x40,
            Packet::Pubrec(_) => 0x50,
            Packet::Pubrel(_) => 0x62,
            Packet::Pubcomp(_) => 0x70,
            Packet::Subscribe(_) => 0x82,
            Packet::Suback(_) => 0x90,
            Packet::Unsubscribe(_) => 0xA2,
            Packet::Unsuback(_) => 0xB0,
            Packet::Pingreq => 0xC0,
            Packet::Pingresp => 0xD0,
            Packet::Disconnect => 0xE0,
        }
    }

    /// Appends the encoding of the packet's body.
    fn encode_body(&self, buf: &mut Vec<u8>)
        ensures
            final(buf)@ == old(buf)@ + self@.body(),
    {
        match self {
            Packet::Connect(inner) => inner.encode(buf),
            Packet::Connack(connack) => {
                let flags: u8 = if connack.session_present { 1 } else { 0 };
                buf.push(flags);
                buf.push(connack.code.to_u8());
            },
            Packet::Publish(inner) => inner.encode(buf),
            Packet::Puback(pid) => crate::codec::write_u16(buf, pid.value()),
            Packet::Pubrec(pid) => crate::codec::write_u16(buf, pid.value()),
            Packet::Pubrel(pid) => crate::codec::write_u16(buf, pid.value()),
            Packet::Pubcomp(pid) => crate::codec::write_u16(buf, pid.value()),
            Packet::Subscribe(inner) => inner.encode(buf),
            Packet::Suback(inner) => inner.encode(buf),
            Packet::Unsubscribe(inner) => inner.encode(buf),
            Packet::Unsuback(pid) => crate::codec::write_u16(buf, pid.value()),
            Packet::Pingreq => {},
            Packet::Pingresp => {},
            Packet::Disconnect => {},
        }
        assert(buf@ == old(buf)@ + self@.body());
    }

    /// Encodes the packet; fails when the body is too long for the remaining
    /// length.
    pub fn encode(&self) -> (r: Result<VarBytes, Error>)
        requires
            self@.body().len() <= usize::MAX,
        ensures
            encodable(self@) ==> (r matches Ok(v) && v.spec_bytes() == self@.spec_encode()),
            !encodable(self@) ==> r == Err::<VarBytes, Error>(Error::InvalidVarByteInt),
    {
        let remaining_len = self.body_len();
        if remaining_len >= VAR_INT_LIMIT {
            return Err(Error::InvalidVarByteInt);
        }
        let control = self.control_byte();
        match self {
            Packet::Connack(connack) => {
                let flags: u8 = if connack.session_present { 1 } else { 0 };
                let r = VarBytes::Fixed4([control, 2, flags, connack.code.to_u8()]);
                assert(r.spec_bytes() =~= self@.spec_encode());
                return Ok(r);
            },
            Packet::Puback(pid) | Packet::Pubrec(pid) | Packet::Pubrel(pid) | Packet::Pubcomp(pid)
            | Packet::Unsuback(pid) => {
                let val = pid.value();
                let r = VarBytes::Fixed4([control, 2, (val / 256) as u8, (val % 256) as u8]);
                assert(r.spec_bytes() =~= self@.spec_encode());
                return Ok(r);
            },
            Packet::Pingreq | Packet::Pingresp | Packet::Disconnect => {
                let r = VarBytes::Fixed2([control, 0]);
                assert(r.spec_bytes() =~= self@.spec_encode());
                return Ok(r);
            },
            _ => {},
        }
        let mut buf: Vec<u8> = Vec::new();
        buf.push(control);
        write_var_int(&mut buf, remaining_len);
        self.encode_body(&mut buf);
        assert(buf@ =~= self@.spec_encode());
        Ok(VarBytes::Dynamic(buf))
    }

    /// The total encoded length of the packet.
    pub fn encode_len(&self) -> (r: Result<usize, Error>)
        requires
            self@.body().len() <= usize::MAX,
        ensures
            encodable(self@) ==> r == Ok::<usize, Error>(self@.spec_encode().len() as usize),
            !encodable(self@) ==> r == Err::<usize, Error>(Error::InvalidVarByteInt),
    {
        proof {
            if encodable(self@) {
                crate::codec::lemma_var_int_len(self@.body().len());
            }
        }
        total_len(self.body_len())
    }

    /// Decodes the body of a packet of the given header.
    pub fn decode_body(buf: &mut PacketBuf, header: Header) -> (r: Result<Packet, Error>)
        ensures
            final(buf).bytes() == old(buf).bytes(),
            match sp_body_end(old(buf).bytes(), old(buf).pos(), header) {
                Ok((m, next)) => r matches Ok(p) && p@ == m && final(buf).pos() == next,
                Err(e) => r matches Err(x) && x.is(e),
            },
    {
        match header.typ {
            PacketType::Pingreq => Ok(Packet::Pingreq),
            PacketType::Pingresp => Ok(Packet::Pingresp),
            PacketType::Disconnect => Ok(Packet::Disconnect),
            PacketType::Connect => match Connect::decode(buf) {
                Ok(p) => Ok(Packet::Connect(p)),
                Err(e) => Err(e),
            },
            PacketType::Connack => match Connack::decode(buf) {
                Ok(p) => Ok(Packet::Connack(p)),
                Err(e) => Err(e),
            },
            PacketType::Publish => match Publish::decode(buf, header) {
                Ok(p) => Ok(Packet::Publish(p)),
                Err(e) => Err(e),
            },
            PacketType::Puback => match read_pid(buf) {
                Ok(p) => Ok(Packet::Puback(p)),
                Err(e) => Err(e),
            },
            PacketType::Pubrec => match read_pid(buf) {
                Ok(p) => Ok(Packet::Pubrec(p)),
                Err(e) => Err(e),
            },
            PacketType::Pubrel => match read_pid(buf) {
                Ok(p) => Ok(Packet::Pubrel(p)),
                Err(e) => Err(e),
            },
            PacketType::Pubcomp => match read_pid(buf) {
                Ok(p) => Ok(Packet::Pubcomp(p)),
                Err(e) => Err(e),
            },
            PacketType::Subscribe => match Subscribe::decode_stream(buf, header) {
                Ok(p) => Ok(Packet::Subscribe(p)),
                Err(e) => Err(e),
            },
            PacketType::Suback => match Suback::decode(buf, header) {
                Ok(p) => Ok(Packet::Suback(p)),
                Err(e) => Err(e),
            },
            PacketType::Unsubscribe => match Unsubscribe::decode(buf, header) {
                Ok(p) => Ok(Packet::Unsubscribe(p)),
                Err(e) => Err(e),
            },
            PacketType::Unsuback => match read_pid(buf) {
                Ok(p) => Ok(Packet::Unsuback(p)),
                Err(e) => Err(e),
            },
        }
    }

    /// Decodes a packet at the start of `bytes`; `None` when the bytes end
    /// before the packet does.
    pub fn decode(bytes: &[u8]) -> (r: Result<Option<Packet>, Error>)
        ensures
            match sp_packet(bytes@) {
                Ok(Some(m)) => r matches Ok(Some(p)) && p@ == m,
                Ok(None) => r matches Ok(None),
                Err(e) => r matches Err(x) && x.is(e),
            },
    {
        let mut buf = PacketBuf::new(bytes);
        let header = match Header::decode_buf(&mut buf) {
            Ok(h) => h,
            Err(e) => {
                if e.is_eof() {
                    return Ok(None);
                } else {
                    return Err(e);
                }
            },
        };
        let r = Packet::decode_body(&mut buf, header);
        match r {
            Ok(p) => Ok(Some(p)),
            Err(e) => {
                if e.is_eof() {
                    Ok(None)
                } else {
                    Err(e)
                }
            },
        }
    }
}

impl From<Connect> for Packet {
    fn from(p: Connect) -> (r: Packet) {
        Packet::Connect(p)
    }
}

impl vstd::std_specs::convert::FromSpecImpl<Connect> for Packet {
    open spec fn obeys_from_spec() -> bool {
        true
    }

    open spec fn from_spec(p: Connect) -> Packet {
        Packet::Connect(p)
    }
}

impl From<Publish> for Packet {
    fn from(p: Publish) -> (r: Packet) {
        Packet::Publish(p)
    }
}

impl vstd::std_specs::convert::FromSpecImpl<Publish> for Packet {
    open spec fn obeys_from_spec() -> bool {
        true
    }

    open spec fn from_spec(p: Publish) -> Packet {
        Packet::Publish(p)
    }
}

impl From<Suback> for Packet {
    fn from(p: Suback) -> (r: Packet) {
        Packet::Suback(p)
    }
}

impl vstd::std_specs::convert::FromSpecImpl<Suback> for Packet {
    open spec fn obeys_from_spec() -> bool {
        true
    }

    open spec fn from_spec(p: Suback) -> Packet {
        Packet::Suback(p)
    }
}

impl From<Connack> for Packet {
    fn from(p: Connack) -> (r: Packet) {
        Packet::Connack(p)
    }
}

impl vstd::std_specs::convert::FromSpecImpl<Connack> for Packet {
    open spec fn obeys_from_spec() -> bool {
        true
    }

    open spec fn from_spec(p: Connack) -> Packet {
        Packet::Connack(p)
    }
}

impl From<Subscribe> for Packet {
    fn from(p: Subscribe) -> (r: Packet) {
        Packet::Subscribe(p)
    }
}

impl vstd::std_specs::convert::FromSpecImpl<Subscribe> for Packet {
    open spec fn obeys_from_spec() -> bool {
        true
    }

    open spec fn from_spec(p: Subscribe) -> Packet {
        Packet::Subscribe(p)
    }
}

impl From<Unsubscribe> for Packet {
    fn from(p: Unsubscribe) -> (r: Packet) {
        Packet::Unsubscribe(p)
    }
}

impl vstd::std_specs::convert::FromSpecImpl<Unsubscribe> for Packet {
    open spec fn obeys_from_spec() -> bool {
        true
    }

    open spec fn from_spec(p: Unsubscribe) -> Packet {
        Packet::Unsubscribe(p)
    }
}

} // verus!
