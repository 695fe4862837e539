use vstd::prelude::*;
use vstd::utf8::*;

use crate::buf::{sp_raw, sp_string, sp_u8, PacketBuf};
use crate::codec::{be16, field, var_int_len, var_int_size, write_bytes, write_raw, write_u16, write_u8, lemma_var_int_len};
use crate::error::{DecodeErr, Error};
use crate::topic::{topic_name_valid, TopicName};
use crate::types::{Pid, QoS, QosPid};
use crate::v3::publish::{qos_pid_bytes, read_pid, sp_pid, sp_qos_pid};

use super::codes::{PubackReasonCode, PubcompReasonCode, PubrecReasonCode, PubrelReasonCode};
use super::connect::{check_payload_format, payload_format_bad, props_fit};
use super::props::{
    decode_properties, lemma_restricted, props_encode, sp_properties, PropsKind, PropsModel,
    PubackProperties, PubcompProperties, PublishProperties, PubrecProperties, PubrelProperties,
};
use super::types::{cerr, common, v5err, DecodeErrV5, ErrorV5, Header, VResult};

verus! {

/// Publish packet body.
#[derive(Debug, Clone, PartialEq, Eq)]
pub struct Publish {
    pub dup: bool,
    pub retain: bool,
    pub qos_pid: QosPid,
    pub topic_name: TopicName,
    pub payload: Vec<u8>,
    pub properties: PublishProperties,
}

/// A publish packet body as values.
pub struct PublishModel {
    pub dup: bool,
    pub retain: bool,
    pub qos_pid: QosPid,
    pub topic: Seq<u8>,
    pub payload: Seq<u8>,
    pub properties: PropsModel,
}

impl View for Publish {
    type V = PublishModel;

    open spec fn view(&self) -> PublishModel {
        PublishModel {
            dup: self.dup,
            retain: self.retain,
            qos_pid: self.qos_pid,
            topic: self.topic_name.bytes(),
            payload: self.payload@,
            properties: self.properties@,
        }
    }
}

impl PublishModel {
    /// The encoding of the body: topic, packet identifier, properties, then
    /// payload.
    pub open spec fn spec_encode(self) -> Seq<u8> {
        field(self.topic) + qos_pid_bytes(self.qos_pid) + props_encode(
            self.properties,
            PublishProperties::fields_order(),
        ) + self.payload
    }

    /// Whether the properties can be encoded.
    pub open spec fn encodable(self) -> bool {
        props_fit(self.properties, PublishProperties::fields_order())
    }
}

/// Reads the payload: all that the remaining length leaves, checked against
/// the payload format property.
pub open spec fn sp_payload(d: Seq<u8>, off: int, rem: int, props: PropsModel) -> VResult<Seq<u8>> {
    if rem > 0 {
        match sp_raw(d, off, rem) {
            Err(e) => cerr(e),
            Ok((p, o)) => if payload_format_bad(props, p) {
                v5err(ErrorV5::InvalidPayloadFormat)
            } else {
                Ok((p, o))
            },
        }
    } else {
        Ok((Seq::empty(), off))
    }
}

/// Decodes a publish body of the given header. The properties take from the
/// remaining length their length as the encoder writes it.
pub open spec fn sp_publish(d: Seq<u8>, off: int, header: Header) -> VResult<PublishModel> {
    match sp_string(d, off) {
        Err(e) => cerr(e),
        Ok((topic, o1)) => if header.remaining_len < 2 + topic.len() {
            cerr(Error::InvalidRemainingLength)
        } else {
            match common(sp_qos_pid(d, o1, header.qos, header.remaining_len - 2 - topic.len())) {
                Err(e) => Err(e),
                Ok(((qos_pid, rem), o2)) => match sp_properties(d, o2, PropsKind::Publish) {
                    Err(e) => Err(e),
                    Ok(((properties, total, _), o3)) => if rem < total + var_int_size(total) {
                        cerr(Error::InvalidRemainingLength)
                    } else {
                        match sp_payload(d, o3, rem - total - var_int_size(total), properties) {
                            Err(e) => Err(e),
                            Ok((payload, o4)) => if topic_name_valid(topic) {
                                Ok(
                                    (
                                        PublishModel {
                                            dup: header.dup,
                                            retain: header.retain,
                                            qos_pid,
                                            topic,
                                            payload,
                                            properties,
                                        },
                                        o4,
                                    ),
                                )
                            } else {
                                Err(DecodeErrV5::Common(DecodeErr::TopicName(topic)))
                            },
                        }
                    },
                },
            }
        },
    }
}

impl Publish {
    /// A publish packet that is neither a duplicate nor retained, without
    /// properties.
    pub fn new(qos_pid: QosPid, topic_name: TopicName, payload: Vec<u8>) -> (r: Self)
        ensures
            !r.dup,
            !r.retain,
            r.qos_pid == qos_pid,
            r.topic_name == topic_name,
            r.payload == payload,
            r.properties@ == PropsModel::empty(),
    {
        Publish {
            dup: false,
            retain: false,
            qos_pid,
            topic_name,
            payload,
            properties: PublishProperties::default(),
        }
    }

    /// Decodes a publish body.
    pub fn decode(buf: &mut PacketBuf, header: Header) -> (r: Result<Self, ErrorV5>)
        ensures
            final(buf).bytes() == old(buf).bytes(),
            match sp_publish(old(buf).bytes(), old(buf).pos(), header) {
                Ok((m, next)) => r matches Ok(p) && p@ == m && final(buf).pos() == next,
                Err(e) => r matches Err(x) && x.is(e),
            },
    {
        let mut remaining_len = header.remaining_len as usize;
        let topic = match buf.read_string() {
            Ok(s) => s,
            Err(e) => return Err(ErrorV5::Common(e)),
        };
        let topic_len = topic.as_bytes().len();
        if remaining_len < 2 || remaining_len - 2 < topic_len {
            return Err(ErrorV5::Common(Error::InvalidRemainingLength));
        }
        remaining_len = remaining_len - 2 - topic_len;
        let qos_pid = match header.qos {
            QoS::Level0 => QosPid::Level0,
            QoS::Level1 => {
                if remaining_len < 2 {
                    return Err(ErrorV5::Common(Error::InvalidRemainingLength));
                }
                remaining_len = remaining_len - 2;
                match read_pid(buf) {
                    Ok(p) => QosPid::Level1(p),
                    Err(e) => return Err(ErrorV5::Common(e)),
                }
            },
            QoS::Level2 => {
                if remaining_len < 2 {
                    return Err(ErrorV5::Common(Error::InvalidRemainingLength));
                }
                remaining_len = remaining_len - 2;
                match read_pid(buf) {
                    Ok(p) => QosPid::Level2(p),
                    Err(e) => return Err(ErrorV5::Common(e)),
                }
            },
        };
        let ghost p0 = buf.pos();
        let (set, total, _) = decode_properties(buf, PropsKind::Publish)?;
        proof {
            lemma_restricted(buf.bytes(), p0, PropsKind::Publish);
            lemma_var_int_len(total as nat);
        }
        let properties = PublishProperties::from_set(set);
        let props_len = total as usize + var_int_len(total as usize).unwrap();
        if remaining_len < props_len {
            return Err(ErrorV5::Common(Error::InvalidRemainingLength));
        }
        remaining_len = remaining_len - props_len;
        let payload = if remaining_len > 0 {
            let data = match buf.read_raw_bytes(remaining_len) {
                Ok(s) => s,
                Err(e) => return Err(ErrorV5::Common(e)),
            };
            check_payload_format(properties.payload_is_utf8, data)?;
            vstd::slice::slice_to_vec(data)
        } else {
            Vec::new()
        };
        let topic_name = match TopicName::from_str(topic) {
            Ok(t) => t,
            Err(e) => return Err(ErrorV5::Common(e)),
        };
        proof {
            topic_name.lemma_bytes();
        }
        Ok(
            Publish {
                dup: header.dup,
                retain: header.retain,
                qos_pid,
                topic_name,
                payload,
                properties,
            },
        )
    }

    /// Appends the encoding of the body.
    pub fn encode(&self, buf: &mut Vec<u8>)
        requires
            self@.encodable(),
        ensures
            final(buf)@ == old(buf)@ + self@.spec_encode(),
    {
        let ghost start = buf@;
        write_bytes(buf, self.topic_name.as_bytes());
        match self.qos_pid {
            QosPid::Level0 => {},
            QosPid::Level1(pid) => write_u16(buf, pid.value()),
            QosPid::Level2(pid) => write_u16(buf, pid.value()),
        }
        self.properties.encode(buf);
        write_raw(buf, self.payload.as_slice());
        assert(buf@ =~= start + self@.spec_encode());
    }

    /// The encoded length of the body.
    pub fn encode_len(&self) -> (r: usize)
        requires
            self@.encodable(),
            self@.spec_encode().len() <= usize::MAX,
        ensures
            r == self@.spec_encode().len(),
    {
        let mut length = 2 + self.topic_name.len();
        match self.qos_pid {
            QosPid::Level0 => {},
            QosPid::Level1(_) | QosPid::Level2(_) => {
                length += 2;
            },
        }
        length += self.properties.encode_len();
        length += self.payload.len();
        length
    }
}


/// Puback packet body.
#[derive(Debug, Clone, PartialEq, Eq)]
pub struct Puback {
    pub pid: Pid,
    pub reason_code: PubackReasonCode,
    pub properties: PubackProperties,
}

/// A puback packet body as values.
pub struct PubackModel {
    pub pid: Pid,
    pub reason_code: PubackReasonCode,
    pub properties: PropsModel,
}

impl View for Puback {
    type V = PubackModel;

    open spec fn view(&self) -> PubackModel {
        PubackModel { pid: self.pid, reason_code: self.reason_code, properties: self.properties@ }
    }
}

impl PubackModel {
    /// The encoding: the packet identifier; then nothing for a success
    /// without properties, the reason code alone without properties, else
    /// both.
    pub open spec fn spec_encode(self) -> Seq<u8> {
        be16(self.pid.id() as int) + if self.properties == PropsModel::empty() {
            if self.reason_code == PubackReasonCode::Success {
                Seq::empty()
            } else {
                seq![self.reason_code.spec_u8()]
            }
        } else {
            seq![self.reason_code.spec_u8()] + props_encode(
                self.properties,
                PubackProperties::fields_order(),
            )
        }
    }

    /// Whether the properties can be encoded.
    pub open spec fn encodable(self) -> bool {
        props_fit(self.properties, PubackProperties::fields_order())
    }
}

/// Decodes a puback body of the given header: the reason code and the
/// properties are there as the remaining length says.
pub open spec fn sp_puback(d: Seq<u8>, off: int, header: Header) -> VResult<PubackModel> {
    match common(sp_pid(d, off)) {
        Err(e) => Err(e),
        Ok((pid, o1)) => if header.remaining_len == 2 {
            Ok(
                (
                    PubackModel {
                        pid,
                        reason_code: PubackReasonCode::Success,
                        properties: PropsModel::empty(),
                    },
                    o1,
                ),
            )
        } else {
            match sp_u8(d, o1) {
                Err(e) => cerr(e),
                Ok((b, o2)) => match PubackReasonCode::spec_from_u8(b) {
                    None => v5err(ErrorV5::InvalidReasonCode(header.typ, b)),
                    Some(reason_code) => if header.remaining_len == 3 {
                        Ok((PubackModel { pid, reason_code, properties: PropsModel::empty() }, o2))
                    } else {
                        match sp_properties(d, o2, PropsKind::Puback) {
                            Err(e) => Err(e),
                            Ok(((properties, _, _), o3)) => Ok(
                                (PubackModel { pid, reason_code, properties }, o3),
                            ),
                        }
                    },
                },
            }
        },
    }
}

impl Puback {
    /// A puback without properties.
    pub fn new(pid: Pid, reason_code: PubackReasonCode) -> (r: Self)
        ensures
            r.pid == pid,
            r.reason_code == reason_code,
            r.properties@ == PropsModel::empty(),
    {
        Puback { pid, reason_code, properties: PubackProperties::default() }
    }

    /// A successful puback without properties.
    pub fn new_success(pid: Pid) -> (r: Self)
        ensures
            r.pid == pid,
            r.reason_code == PubackReasonCode::Success,
            r.properties@ == PropsModel::empty(),
    {
        Self::new(pid, PubackReasonCode::Success)
    }

    /// Decodes a puback body.
    pub fn decode(buf: &mut PacketBuf, header: Header) -> (r: Result<Self, ErrorV5>)
        ensures
            final(buf).bytes() == old(buf).bytes(),
            match sp_puback(old(buf).bytes(), old(buf).pos(), header) {
                Ok((m, next)) => r matches Ok(p) && p@ == m && final(buf).pos() == next,
                Err(e) => r matches Err(x) && x.is(e),
            },
    {
        let pid = match read_pid(buf) {
            Ok(p) => p,
            Err(e) => return Err(ErrorV5::Common(e)),
        };
        if header.remaining_len == 2 {
            return Ok(Puback::new(pid, PubackReasonCode::Success));
        }
        let b = match buf.read_u8() {
            Ok(b) => b,
            Err(e) => return Err(ErrorV5::Common(e)),
        };
        let reason_code = match PubackReasonCode::from_u8(b) {
            Some(c) => c,
            None => return Err(ErrorV5::InvalidReasonCode(header.typ, b)),
        };
        if header.remaining_len == 3 {
            return Ok(Puback::new(pid, reason_code));
        }
        let properties = PubackProperties::decode(buf)?;
        Ok(Puback { pid, reason_code, properties })
    }

    /// Appends the encoding of the body.
    pub fn encode(&self, buf: &mut Vec<u8>)
        requires
            self@.encodable(),
        ensures
            final(buf)@ == old(buf)@ + self@.spec_encode(),
    {
        write_u16(buf, self.pid.value());
        if self.properties.is_default() {
            if self.reason_code != PubackReasonCode::Success {
                write_u8(buf, self.reason_code.to_u8());
            }
        } else {
            write_u8(buf, self.reason_code.to_u8());
            self.properties.encode(buf);
        }
        assert(buf@ =~= old(buf)@ + self@.spec_encode());
    }

    /// The encoded length of the body.
    pub fn encode_len(&self) -> (r: usize)
        requires
            self@.encodable(),
        ensures
            r == self@.spec_encode().len(),
    {
        if self.properties.is_default() {
            if self.reason_code == PubackReasonCode::Success {
                2
            } else {
                3
            }
        } else {
            3 + self.properties.encode_len()
        }
    }
}


/// Pubrec packet body.
#[derive(Debug, Clone, PartialEq, Eq)]
pub struct Pubrec {
    pub pid: Pid,
    pub reason_code: PubrecReasonCode,
    pub properties: PubrecProperties,
}

/// A pubrec packet body as values.
pub struct PubrecModel {
    pub pid: Pid,
    pub reason_code: PubrecReasonCode,
    pub properties: PropsModel,
}

impl View for Pubrec {
    type V = PubrecModel;

    open spec fn view(&self) -> PubrecModel {
        PubrecModel { pid: self.pid, reason_code: self.reason_code, properties: self.properties@ }
    }
}

impl PubrecModel {
    /// The encoding: the packet identifier; then nothing for a success
    /// without properties, the reason code alone without properties, else
    /// both.
    pub open spec fn spec_encode(self) -> Seq<u8> {
        be16(self.pid.id() as int) + if self.properties == PropsModel::empty() {
            if self.reason_code == PubrecReasonCode::Success {
                Seq::empty()
            } else {
                seq![self.reason_code.spec_u8()]
            }
        } else {
            seq![self.reason_code.spec_u8()] + props_encode(
                self.properties,
                PubrecProperties::fields_order(),
            )
        }
    }

    /// Whether the properties can be encoded.
    pub open spec fn encodable(self) -> bool {
        props_fit(self.properties, PubrecProperties::fields_order())
    }
}

/// Decodes a pubrec body of the given header: the reason code and the
/// properties are there as the remaining length says.
pub open spec fn sp_pubrec(d: Seq<u8>, off: int, header: Header) -> VResult<PubrecModel> {
    match common(sp_pid(d, off)) {
        Err(e) => Err(e),
        Ok((pid, o1)) => if header.remaining_len == 2 {
            Ok(
                (
                    PubrecModel {
                        pid,
                        reason_code: PubrecReasonCode::Success,
                        properties: PropsModel::empty(),
                    },
                    o1,
                ),
            )
        } else {
            match sp_u8(d, o1) {
                Err(e) => cerr(e),
                Ok((b, o2)) => match PubrecReasonCode::spec_from_u8(b) {
                    None => v5err(ErrorV5::InvalidReasonCode(header.typ, b)),
                    Some(reason_code) => if header.remaining_len == 3 {
                        Ok((PubrecModel { pid, reason_code, properties: PropsModel::empty() }, o2))
                    } else {
                        match sp_properties(d, o2, PropsKind::Pubrec) {
                            Err(e) => Err(e),
                            Ok(((properties, _, _), o3)) => Ok(
                                (PubrecModel { pid, reason_code, properties }, o3),
                            ),
                        }
                    },
                },
            }
        },
    }
}

impl Pubrec {
    /// A pubrec without properties.
    pub fn new(pid: Pid, reason_code: PubrecReasonCode) -> (r: Self)
        ensures
            r.pid == pid,
            r.reason_code == reason_code,
            r.properties@ == PropsModel::empty(),
    {
        Pubrec { pid, reason_code, properties: PubrecProperties::default() }
    }

    /// A successful pubrec without properties.
    pub fn new_success(pid: Pid) -> (r: Self)
        ensures
            r.pid == pid,
            r.reason_code == PubrecReasonCode::Success,
            r.properties@ == PropsModel::empty(),
    {
        Self::new(pid, PubrecReasonCode::Success)
    }

    /// Decodes a pubrec body.
    pub fn decode(buf: &mut PacketBuf, header: Header) -> (r: Result<Self, ErrorV5>)
        ensures
            final(buf).bytes() == old(buf).bytes(),
            match sp_pubrec(old(buf).bytes(), old(buf).pos(), header) {
                Ok((m, next)) => r matches Ok(p) && p@ == m && final(buf).pos() == next,
                Err(e) => r matches Err(x) && x.is(e),
            },
    {
        let pid = match read_pid(buf) {
            Ok(p) => p,
            Err(e) => return Err(ErrorV5::Common(e)),
        };
        if header.remaining_len == 2 {
            return Ok(Pubrec::new(pid, PubrecReasonCode::Success));
        }
        let b = match buf.read_u8() {
            Ok(b) => b,
            Err(e) => return Err(ErrorV5::Common(e)),
        };
        let reason_code = match PubrecReasonCode::from_u8(b) {
            Some(c) => c,
            None => return Err(ErrorV5::InvalidReasonCode(header.typ, b)),
        };
        if header.remaining_len == 3 {
            return Ok(Pubrec::new(pid, reason_code));
        }
        let properties = PubrecProperties::decode(buf)?;
        Ok(Pubrec { pid, reason_code, properties })
    }

    /// Appends the encoding of the body.
    pub fn encode(&self, buf: &mut Vec<u8>)
        requires
            self@.encodable(),
        ensures
            final(buf)@ == old(buf)@ + self@.spec_encode(),
    {
        write_u16(buf, self.pid.value());
        if self.properties.is_default() {
            if self.reason_code != PubrecReasonCode::Success {
                write_u8(buf, self.reason_code.to_u8());
            }
        } else {
            write_u8(buf, self.reason_code.to_u8());
            self.properties.encode(buf);
        }
        assert(buf@ =~= old(buf)@ + self@.spec_encode());
    }

    /// The encoded length of the body.
    pub fn encode_len(&self) -> (r: usize)
        requires
            self@.encodable(),
        ensures
            r == self@.spec_encode().len(),
    {
        if self.properties.is_default() {
            if self.reason_code == PubrecReasonCode::Success {
                2
            } else {
                3
            }
        } else {
            3 + self.properties.encode_len()
        }
    }
}


/// Pubrel packet body.
#[derive(Debug, Clone, PartialEq, Eq)]
pub struct Pubrel {
    pub pid: Pid,
    pub reason_code: PubrelReasonCode,
    pub properties: PubrelProperties,
}

/// A pubrel packet body as values.
pub struct PubrelModel {
    pub pid: Pid,
    pub reason_code: PubrelReasonCode,
    pub properties: PropsModel,
}

impl View for Pubrel {
    type V = PubrelModel;

    open spec fn view(&self) -> PubrelModel {
        PubrelModel { pid: self.pid, reason_code: self.reason_code, properties: self.properties@ }
    }
}

impl PubrelModel {
    /// The encoding: the packet identifier; then nothing for a success
    /// without properties, the reason code alone without properties, else
    /// both.
    pub open spec fn spec_encode(self) -> Seq<u8> {
        be16(self.pid.id() as int) + if self.properties == PropsModel::empty() {
            if self.reason_code == PubrelReasonCode::Success {
                Seq::empty()
            } else {
                seq![self.reason_code.spec_u8()]
            }
        } else {
            seq![self.reason_code.spec_u8()] + props_encode(
                self.properties,
                PubrelProperties::fields_order(),
            )
        }
    }

    /// Whether the properties can be encoded.
    pub open spec fn encodable(self) -> bool {
        props_fit(self.properties, PubrelProperties::fields_order())
    }
}

/// Decodes a pubrel body of the given header: the reason code and the
/// properties are there as the remaining length says.
pub open spec fn sp_pubrel(d: Seq<u8>, off: int, header: Header) -> VResult<PubrelModel> {
    match common(sp_pid(d, off)) {
        Err(e) => Err(e),
        Ok((pid, o1)) => if header.remaining_len == 2 {
            Ok(
                (
                    PubrelModel {
                        pid,
                        reason_code: PubrelReasonCode::Success,
                        properties: PropsModel::empty(),
                    },
                    o1,
                ),
            )
        } else {
            match sp_u8(d, o1) {
                Err(e) => cerr(e),
                Ok((b, o2)) => match PubrelReasonCode::spec_from_u8(b) {
                    None => v5err(ErrorV5::InvalidReasonCode(header.typ, b)),
                    Some(reason_code) => if header.remaining_len == 3 {
                        Ok((PubrelModel { pid, reason_code, properties: PropsModel::empty() }, o2))
                    } else {
                        match sp_properties(d, o2, PropsKind::Pubrel) {
                            Err(e) => Err(e),
                            Ok(((properties, _, _), o3)) => Ok(
                                (PubrelModel { pid, reason_code, properties }, o3),
                            ),
                        }
                    },
                },
            }
        },
    }
}

impl Pubrel {
    /// A pubrel without properties.
    pub fn new(pid: Pid, reason_code: PubrelReasonCode) -> (r: Self)
        ensures
            r.pid == pid,
            r.reason_code == reason_code,
            r.properties@ == PropsModel::empty(),
    {
        Pubrel { pid, reason_code, properties: PubrelProperties::default() }
    }

    /// A successful pubrel without properties.
    pub fn new_success(pid: Pid) -> (r: Self)
        ensures
            r.pid == pid,
            r.reason_code == PubrelReasonCode::Success,
            r.properties@ == PropsModel::empty(),
    {
        Self::new(pid, PubrelReasonCode::Success)
    }

    /// Decodes a pubrel body.
    pub fn decode(buf: &mut PacketBuf, header: Header) -> (r: Result<Self, ErrorV5>)
        ensures
            final(buf).bytes() == old(buf).bytes(),
            match sp_pubrel(old(buf).bytes(), old(buf).pos(), header) {
                Ok((m, next)) => r matches Ok(p) && p@ == m && final(buf).pos() == next,
                Err(e) => r matches Err(x) && x.is(e),
            },
    {
        let pid = match read_pid(buf) {
            Ok(p) => p,
            Err(e) => return Err(ErrorV5::Common(e)),
        };
        if header.remaining_len == 2 {
            return Ok(Pubrel::new(pid, PubrelReasonCode::Success));
        }
        let b = match buf.read_u8() {
            Ok(b) => b,
            Err(e) => return Err(ErrorV5::Common(e)),
        };
        let reason_code = match PubrelReasonCode::from_u8(b) {
            Some(c) => c,
            None => return Err(ErrorV5::InvalidReasonCode(header.typ, b)),
        };
        if header.remaining_len == 3 {
            return Ok(Pubrel::new(pid, reason_code));
        }
        let properties = PubrelProperties::decode(buf)?;
        Ok(Pubrel { pid, reason_code, properties })
    }

    /// Appends the encoding of the body.
    pub fn encode(&self, buf: &mut Vec<u8>)
        requires
            self@.encodable(),
        ensures
            final(buf)@ == old(buf)@ + self@.spec_encode(),
    {
        write_u16(buf, self.pid.value());
        if self.properties.is_default() {
            if self.reason_code != PubrelReasonCode::Success {
                write_u8(buf, self.reason_code.to_u8());
            }
        } else {
            write_u8(buf, self.reason_code.to_u8());
            self.properties.encode(buf);
        }
        assert(buf@ =~= old(buf)@ + self@.spec_encode());
    }

    /// The encoded length of the body.
    pub fn encode_len(&self) -> (r: usize)
        requires
            self@.encodable(),
        ensures
            r == self@.spec_encode().len(),
    {
        if self.properties.is_default() {
            if self.reason_code == PubrelReasonCode::Success {
                2
            } else {
                3
            }
        } else {
            3 + self.properties.encode_len()
        }
    }
}


/// Pubcomp packet body.
#[derive(Debug, Clone, PartialEq, Eq)]
pub struct Pubcomp {
    pub pid: Pid,
    pub reason_code: PubcompReasonCode,
    pub properties: PubcompProperties,
}

/// A pubcomp packet body as values.
pub struct PubcompModel {
    pub pid: Pid,
    pub reason_code: PubcompReasonCode,
    pub properties: PropsModel,
}

impl View for Pubcomp {
    type V = PubcompModel;

    open spec fn view(&self) -> PubcompModel {
        PubcompModel { pid: self.pid, reason_code: self.reason_code, properties: self.properties@ }
    }
}

impl PubcompModel {
    /// The encoding: the packet identifier; then nothing for a success
    /// without properties, the reason code alone without properties, else
    /// both.
    pub open spec fn spec_encode(self) -> Seq<u8> {
        be16(self.pid.id() as int) + if self.properties == PropsModel::empty() {
            if self.reason_code == PubcompReasonCode::Success {
                Seq::empty()
            } else {
                seq![self.reason_code.spec_u8()]
            }
        } else {
            seq![self.reason_code.spec_u8()] + props_encode(
                self.properties,
                PubcompProperties::fields_order(),
            )
        }
    }

    /// Whether the properties can be encoded.
    pub open spec fn encodable(self) -> bool {
        props_fit(self.properties, PubcompProperties::fields_order())
    }
}

/// Decodes a pubcomp body of the given header: the reason code and the
/// properties are there as the remaining length says.
pub open spec fn sp_pubcomp(d: Seq<u8>, off: int, header: Header) -> VResult<PubcompModel> {
    match common(sp_pid(d, off)) {
        Err(e) => Err(e),
        Ok((pid, o1)) => if header.remaining_len == 2 {
            Ok(
                (
                    PubcompModel {
                        pid,
                        reason_code: PubcompReasonCode::Success,
                        properties: PropsModel::empty(),
                    },
                    o1,
                ),
            )
        } else {
            match sp_u8(d, o1) {
                Err(e) => cerr(e),
                Ok((b, o2)) => match PubcompReasonCode::spec_from_u8(b) {
                    None => v5err(ErrorV5::InvalidReasonCode(header.typ, b)),
                    Some(reason_code) => if header.remaining_len == 3 {
                        Ok((PubcompModel { pid, reason_code, properties: PropsModel::empty() }, o2))
                    } else {
                        match sp_properties(d, o2, PropsKind::Pubcomp) {
                            Err(e) => Err(e),
                            Ok(((properties, _, _), o3)) => Ok(
                                (PubcompModel { pid, reason_code, properties }, o3),
                            ),
                        }
                    },
                },
            }
        },
    }
}

impl Pubcomp {
    /// A pubcomp without properties.
    pub fn new(pid: Pid, reason_code: PubcompReasonCode) -> (r: Self)
        ensures
            r.pid == pid,
            r.reason_code == reason_code,
            r.properties@ == PropsModel::empty(),
    {
        Pubcomp { pid, reason_code, properties: PubcompProperties::default() }
    }

    /// A successful pubcomp without properties.
    pub fn new_success(pid: Pid) -> (r: Self)
        ensures
            r.pid == pid,
            r.reason_code == PubcompReasonCode::Success,
            r.properties@ == PropsModel::empty(),
    {
        Self::new(pid, PubcompReasonCode::Success)
    }

    /// Decodes a pubcomp body.
    pub fn decode(buf: &mut PacketBuf, header: Header) -> (r: Result<Self, ErrorV5>)
        ensures
            final(buf).bytes() == old(buf).bytes(),
            match sp_pubcomp(old(buf).bytes(), old(buf).pos(), header) {
                Ok((m, next)) => r matches Ok(p) && p@ == m && final(buf).pos() == next,
                Err(e) => r matches Err(x) && x.is(e),
            },
    {
        let pid = match read_pid(buf) {
            Ok(p) => p,
            Err(e) => return Err(ErrorV5::Common(e)),
        };
        if header.remaining_len == 2 {
            return Ok(Pubcomp::new(pid, PubcompReasonCode::Success));
        }
        let b = match buf.read_u8() {
            Ok(b) => b,
            Err(e) => return Err(ErrorV5::Common(e)),
        };
        let reason_code = match PubcompReasonCode::from_u8(b) {
            Some(c) => c,
            None => return Err(ErrorV5::InvalidReasonCode(header.typ, b)),
        };
        if header.remaining_len == 3 {
            return Ok(Pubcomp::new(pid, reason_code));
        }
        let properties = PubcompProperties::decode(buf)?;
        Ok(Pubcomp { pid, reason_code, properties })
    }

    /// Appends the encoding of the body.
    pub fn encode(&self, buf: &mut Vec<u8>)
        requires
            self@.encodable(),
        ensures
            final(buf)@ == old(buf)@ + self@.spec_encode(),
    {
        write_u16(buf, self.pid.value());
        if self.properties.is_default() {
            if self.reason_code != PubcompReasonCode::Success {
                write_u8(buf, self.reason_code.to_u8());
            }
        } else {
            write_u8(buf, self.reason_code.to_u8());
            self.properties.encode(buf);
        }
        assert(buf@ =~= old(buf)@ + self@.spec_encode());
    }

    /// The encoded length of the body.
    pub fn encode_len(&self) -> (r: usize)
        requires
            self@.encodable(),
        ensures
            r == self@.spec_encode().len(),
    {
        if self.properties.is_default() {
            if self.reason_code == PubcompReasonCode::Success {
                2
            } else {
                3
            }
        } else {
            3 + self.properties.encode_len()
        }
    }
}


} // verus!
