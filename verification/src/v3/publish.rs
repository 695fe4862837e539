use vstd::prelude::*;

use crate::buf::{plain, sp_raw, sp_string, sp_u16, PacketBuf};
use crate::codec::{be16, field, write_bytes, write_raw, write_u16};
use crate::error::{DecodeErr, Error, PResult};
use crate::topic::{topic_name_valid, TopicName};
use crate::types::{Pid, QoS, QosPid};

use super::packet::Header;

verus! {

/// Publish packet body.
#[derive(Debug, Clone, PartialEq, Eq)]
pub struct Publish {
    pub dup: bool,
    pub retain: bool,
    pub qos_pid: QosPid,
    pub topic_name: TopicName,
    pub payload: Vec<u8>,
}

/// A publish packet body as values.
pub struct PublishModel {
    pub dup: bool,
    pub retain: bool,
    pub qos_pid: QosPid,
    pub topic: Seq<u8>,
    pub payload: Seq<u8>,
}

impl View for Publish {
    type V = PublishModel;

    open spec fn view(&self) -> PublishModel {
        PublishModel {
            dup: self.dup,
            retain: self.retain,
            qos_pid: self.qos_pid,
            topic: self.topic_name.bytes(),
            payload: self.payload@,
        }
    }
}

/// The packet identifier bytes of a QoS and packet identifier.
pub open spec fn qos_pid_bytes(q: QosPid) -> Seq<u8> {
    match q {
        QosPid::Level0 => Seq::empty(),
        QosPid::Level1(p) => be16(p.id() as int),
        QosPid::Level2(p) => be16(p.id() as int),
    }
}

impl PublishModel {
    /// The encoding of the body: topic, packet identifier, then payload.
    pub open spec fn spec_encode(self) -> Seq<u8> {
        field(self.topic) + qos_pid_bytes(self.qos_pid) + self.payload
    }
}

/// Reads the packet identifier that the QoS of the header asks for, and takes
/// its two bytes off the remaining length.
pub open spec fn sp_qos_pid(d: Seq<u8>, off: int, qos: QoS, rem: int) -> PResult<(QosPid, int)> {
    match qos {
        QoS::Level0 => Ok(((QosPid::Level0, rem), off)),
        _ => if rem < 2 {
            Err(DecodeErr::Plain(Error::InvalidRemainingLength))
        } else {
            match plain(sp_u16(d, off)) {
                Ok((v, o1)) => if v == 0 {
                    Err(DecodeErr::Plain(Error::ZeroPid))
                } else if qos == QoS::Level1 {
                    Ok(((QosPid::Level1(Pid::new_spec(v)), rem - 2), o1))
                } else {
                    Ok(((QosPid::Level2(Pid::new_spec(v)), rem - 2), o1))
                },
                Err(e) => Err(e),
            }
        },
    }
}

/// Reads a packet identifier and checks it.
pub open spec fn sp_pid(d: Seq<u8>, off: int) -> PResult<Pid> {
    match plain(sp_u16(d, off)) {
        Ok((v, o1)) => if v == 0 {
            Err(DecodeErr::Plain(Error::ZeroPid))
        } else {
            Ok((Pid::new_spec(v), o1))
        },
        Err(e) => Err(e),
    }
}

/// Reads the payload: all that the remaining length leaves.
pub open spec fn sp_payload(d: Seq<u8>, off: int, rem: int) -> PResult<Seq<u8>> {
    if rem > 0 {
        plain(sp_raw(d, off, rem))
    } else {
        Ok((Seq::empty(), off))
    }
}

/// Decodes a publish body of the given header.
pub open spec fn sp_publish(d: Seq<u8>, off: int, header: Header) -> PResult<PublishModel> {
    match plain(sp_string(d, off)) {
        Ok((topic, o1)) => if header.remaining_len < 2 + topic.len() {
            Err(DecodeErr::Plain(Error::InvalidRemainingLength))
        } else {
            match sp_qos_pid(d, o1, header.qos, header.remaining_len - 2 - topic.len()) {
                Ok(((qos_pid, rem), o2)) => match sp_payload(d, o2, rem) {
                    Ok((payload, o3)) => if topic_name_valid(topic) {
                        Ok(
                            (
                                PublishModel {
                                    dup: header.dup,
                                    retain: header.retain,
                                    qos_pid,
                                    topic,
                                    payload,
                                },
                                o3,
                            ),
                        )
                    } else {
                        Err(DecodeErr::TopicName(topic))
                    },
                    Err(e) => Err(e),
                },
                Err(e) => Err(e),
            }
        },
        Err(e) => Err(e),
    }
}

/// Reads a packet identifier and checks it.
pub fn read_pid(buf: &mut PacketBuf) -> (r: Result<Pid, Error>)
    ensures
        final(buf).bytes() == old(buf).bytes(),
        match sp_pid(old(buf).bytes(), old(buf).pos()) {
            Ok((p, next)) => r == Ok::<Pid, Error>(p) && final(buf).pos() == next,
            Err(e) => r matches Err(x) && x.is(e),
        },
{
    let v = buf.read_u16()?;
    let pid = Pid::try_new(v)?;
    proof {
        Pid::lemma_new_spec(v);
        Pid::lemma_id_eq(pid, Pid::new_spec(v));
    }
    Ok(pid)
}

impl Publish {
    /// A publish packet that is neither a duplicate nor retained.
    pub fn new(qos_pid: QosPid, topic_name: TopicName, payload: Vec<u8>) -> (r: Self)
        ensures
            !r.dup,
            !r.retain,
            r.qos_pid == qos_pid,
            r.topic_name == topic_name,
            r.payload == payload,
    {
        Publish { dup: false, retain: false, qos_pid, topic_name, payload }
    }

    /// Decodes a publish body of the given header.
    pub fn decode(buf: &mut PacketBuf, header: Header) -> (r: Result<Self, Error>)
        ensures
            final(buf).bytes() == old(buf).bytes(),
            match sp_publish(old(buf).bytes(), old(buf).pos(), header) {
                Ok((m, next)) => r matches Ok(p) && p@ == m && final(buf).pos() == next,
                Err(e) => r matches Err(x) && x.is(e),
            },
    {
        let mut remaining_len = header.remaining_len as usize;
        let topic_name = buf.read_string()?;
        let topic_len = topic_name.as_bytes().len();
        if remaining_len < 2 || remaining_len - 2 < topic_len {
            return Err(Error::InvalidRemainingLength);
        }
        remaining_len = remaining_len - 2 - topic_len;
        let qos_pid = match header.qos {
            QoS::Level0 => QosPid::Level0,
            QoS::Level1 => {
                if remaining_len < 2 {
                    return Err(Error::InvalidRemainingLength);
                }
                remaining_len = remaining_len - 2;
                QosPid::Level1(read_pid(buf)?)
            },
            QoS::Level2 => {
                if remaining_len < 2 {
                    return Err(Error::InvalidRemainingLength);
                }
                remaining_len = remaining_len - 2;
                QosPid::Level2(read_pid(buf)?)
            },
        };
        let payload = if remaining_len > 0 {
            vstd::slice::slice_to_vec(buf.read_raw_bytes(remaining_len)?)
        } else {
            Vec::new()
        };
        let topic_name = TopicName::from_str(topic_name)?;
        proof {
            topic_name.lemma_bytes();
        }
        Ok(Publish { dup: header.dup, qos_pid, retain: header.retain, topic_name, payload })
    }

    /// Appends the encoding of the body.
    pub fn encode(&self, buf: &mut Vec<u8>)
        ensures
            final(buf)@ == old(buf)@ + self@.spec_encode(),
    {
        let ghost start = buf@;
        write_bytes(buf, self.topic_name.as_bytes());
        match self.qos_pid {
            QosPid::Level0 => {},
            QosPid::Level1(pid) => write_u16(buf, pid.value()),
            QosPid::Level2(pid) => write_u16(buf, pid.value()),
        }
        write_raw(buf, self.payload.as_slice());
        assert(buf@ == start + self@.spec_encode());
    }

    /// The encoded length of the body.
    pub fn encode_len(&self) -> (r: usize)
        requires
            self@.spec_encode().len() <= usize::MAX,
        ensures
            r == self@.spec_encode().len(),
    {
        let mut length = 2 + self.topic_name.len();
        match self.qos_pid {
            QosPid::Level0 => {},
            QosPid::Level1(_) | QosPid::Level2(_) => {
                length += 2;
            },
        }
        length += self.payload.len();
        length
    }
}

} // verus!
