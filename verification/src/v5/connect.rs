use vstd::prelude::*;
use vstd::utf8::*;

use crate::buf::{read_owned_bytes, read_owned_string, sp_bytes, sp_raw, sp_string, sp_u16, sp_u8, PacketBuf};
use crate::codec::{be16, field, write_bytes, write_u16, write_u8};
use crate::error::{DecodeErr, Error};
use crate::text::check_utf8;
use crate::topic::{topic_name_valid, TopicName};
use crate::types::{sp_protocol, Protocol, QoS};
use crate::v3::connect::{connect_flags, opt_field, opt_str_bytes, opt_vec_bytes};

use super::codes::{AuthReasonCode, ConnectReasonCode, DisconnectReasonCode};
use super::props::{
    props_body, props_encode, sp_properties, AuthProperties, ConnackProperties, ConnectProperties,
    DisconnectProperties, PropVal, PropsKind, PropsModel, WillProperties,
};
use super::types::{cerr, common, v5err, vplain, DecodeErrV5, ErrorV5, Header, VResult};

verus! {

/// Whether the properties mark the payload as UTF-8 and it is not.
pub open spec fn payload_format_bad(props: PropsModel, payload: Seq<u8>) -> bool {
    props.payload_is_utf8 == Some(PropVal::Bool(true)) && !valid_utf8(payload)
}

/// Whether properties fit the variable byte integer of their length.
pub open spec fn props_fit(m: PropsModel, order: Seq<super::types::PropertyId>) -> bool {
    props_body(m, order).len() < 268435456
}

/// The will message of a connect packet.
#[derive(Debug, Clone, PartialEq, Eq)]
pub struct LastWill {
    pub qos: QoS,
    pub retain: bool,
    pub topic_name: TopicName,
    pub payload: Vec<u8>,
    pub properties: WillProperties,
}

/// A will message as values.
pub struct LastWillModel {
    pub qos: QoS,
    pub retain: bool,
    pub topic: Seq<u8>,
    pub payload: Seq<u8>,
    pub properties: PropsModel,
}

impl View for LastWill {
    type V = LastWillModel;

    open spec fn view(&self) -> LastWillModel {
        LastWillModel {
            qos: self.qos,
            retain: self.retain,
            topic: self.topic_name.bytes(),
            payload: self.payload@,
            properties: self.properties@,
        }
    }
}

impl LastWillModel {
    /// The encoding: properties, topic, payload.
    pub open spec fn spec_encode(self) -> Seq<u8> {
        props_encode(self.properties, WillProperties::fields_order()) + field(self.topic) + field(
            self.payload,
        )
    }

    /// Whether the properties can be encoded.
    pub open spec fn encodable(self) -> bool {
        props_fit(self.properties, WillProperties::fields_order())
    }
}

/// Decodes a will message of the given QoS and retain flag.
pub open spec fn sp_last_will(d: Seq<u8>, off: int, qos: QoS, retain: bool) -> VResult<LastWillModel> {
    match sp_properties(d, off, PropsKind::Will) {
        Err(e) => Err(e),
        Ok(((properties, _, _), o1)) => match sp_string(d, o1) {
            Err(e) => cerr(e),
            Ok((topic, o2)) => if !topic_name_valid(topic) {
                Err(DecodeErrV5::Common(DecodeErr::TopicName(topic)))
            } else {
                match sp_bytes(d, o2) {
                    Err(e) => cerr(e),
                    Ok((payload, o3)) => if payload_format_bad(properties, payload) {
                        v5err(ErrorV5::InvalidPayloadFormat)
                    } else {
                        Ok((LastWillModel { qos, retain, topic, payload, properties }, o3))
                    },
                }
            },
        },
    }
}

/// Checks a payload against the payload format property.
pub fn check_payload_format(is_utf8: Option<bool>, payload: &[u8]) -> (r: Result<(), ErrorV5>)
    ensures
        (is_utf8 == Some(true) && !valid_utf8(payload@)) ==> r == Err::<(), ErrorV5>(
            ErrorV5::InvalidPayloadFormat,
        ),
        !(is_utf8 == Some(true) && !valid_utf8(payload@)) ==> r is Ok,
{
    if is_utf8 == Some(true) {
        match check_utf8(payload) {
            Some(_) => Ok(()),
            None => Err(ErrorV5::InvalidPayloadFormat),
        }
    } else {
        Ok(())
    }
}

impl LastWill {
    /// A will message that is not retained and has no properties.
    pub fn new(qos: QoS, topic_name: TopicName, payload: Vec<u8>) -> (r: Self)
        ensures
            r.qos == qos,
            !r.retain,
            r.topic_name == topic_name,
            r.payload == payload,
            r.properties@ == PropsModel::empty(),
    {
        LastWill { qos, retain: false, topic_name, payload, properties: WillProperties::default() }
    }

    /// Decodes a will message of the given QoS and retain flag.
    pub fn decode(buf: &mut PacketBuf, qos: QoS, retain: bool) -> (r: Result<Self, ErrorV5>)
        ensures
            final(buf).bytes() == old(buf).bytes(),
            match sp_last_will(old(buf).bytes(), old(buf).pos(), qos, retain) {
                Ok((m, next)) => r matches Ok(w) && w@ == m && final(buf).pos() == next,
                Err(e) => r matches Err(x) && x.is(e),
            },
    {
        let properties = WillProperties::decode(buf)?;
        let topic = match buf.read_string() {
            Ok(s) => s,
            Err(e) => return Err(ErrorV5::Common(e)),
        };
        let topic_name = match TopicName::from_str(topic) {
            Ok(t) => t,
            Err(e) => return Err(ErrorV5::Common(e)),
        };
        proof {
            topic_name.lemma_bytes();
        }
        let payload = match read_owned_bytes(buf) {
            Ok(p) => p,
            Err(e) => return Err(ErrorV5::Common(e)),
        };
        check_payload_format(properties.payload_is_utf8, payload.as_slice())?;
        Ok(LastWill { qos, retain, topic_name, payload, properties })
    }

    /// Appends the encoding.
    pub fn encode(&self, buf: &mut Vec<u8>)
        requires
            self@.encodable(),
        ensures
            final(buf)@ == old(buf)@ + self@.spec_encode(),
    {
        self.properties.encode(buf);
        write_bytes(buf, self.topic_name.as_bytes());
        write_bytes(buf, self.payload.as_slice());
        assert(buf@ =~= old(buf)@ + self@.spec_encode());
    }

    /// The encoded length.
    pub fn encode_len(&self) -> (r: usize)
        requires
            self@.encodable(),
            self@.spec_encode().len() <= usize::MAX,
        ensures
            r == self@.spec_encode().len(),
    {
        let p = self.properties.encode_len();
        p + 4 + self.topic_name.len() + self.payload.len()
    }
}

/// Connect packet body.
#[derive(Debug, Clone, PartialEq, Eq)]
pub struct Connect {
    pub protocol: Protocol,
    pub clean_start: bool,
    pub keep_alive: u16,
    pub properties: ConnectProperties,
    pub client_id: String,
    pub last_will: Option<LastWill>,
    pub username: Option<String>,
    pub password: Option<Vec<u8>>,
}

/// A connect packet body as values.
pub struct ConnectModel {
    pub protocol: Protocol,
    pub clean_start: bool,
    pub keep_alive: u16,
    pub properties: PropsModel,
    pub client_id: Seq<u8>,
    pub last_will: Option<LastWillModel>,
    pub username: Option<Seq<u8>>,
    pub password: Option<Seq<u8>>,
}

impl View for Connect {
    type V = ConnectModel;

    open spec fn view(&self) -> ConnectModel {
        ConnectModel {
            protocol: self.protocol,
            clean_start: self.clean_start,
            keep_alive: self.keep_alive,
            properties: self.properties@,
            client_id: encode_utf8(self.client_id@),
            last_will: match self.last_will {
                Some(w) => Some(w@),
                None => None,
            },
            username: opt_str_bytes(self.username),
            password: opt_vec_bytes(self.password),
        }
    }
}

impl ConnectModel {
    /// The connect flags.
    pub open spec fn flags(self) -> u8 {
        connect_flags(
            self.clean_start,
            self.username is Some,
            self.password is Some,
            match self.last_will {
                Some(w) => Some((w.qos, w.retain)),
                None => None,
            },
        )
    }

    /// The encoding of the body.
    pub open spec fn spec_encode(self) -> Seq<u8> {
        self.protocol.spec_encode() + seq![self.flags()] + be16(self.keep_alive as int)
            + props_encode(self.properties, ConnectProperties::fields_order()) + field(
            self.client_id,
        ) + match self.last_will {
            Some(w) => w.spec_encode(),
            None => Seq::empty(),
        } + opt_field(self.username) + opt_field(self.password)
    }

    /// Whether the properties can be encoded.
    pub open spec fn encodable(self) -> bool {
        &&& props_fit(self.properties, ConnectProperties::fields_order())
        &&& (self.last_will matches Some(w) ==> w.encodable())
    }
}

/// Decodes an optional string.
pub open spec fn sp_opt_string(d: Seq<u8>, off: int, present: bool) -> VResult<Option<Seq<u8>>> {
    if present {
        match sp_string(d, off) {
            Ok((s, next)) => Ok((Some(s), next)),
            Err(e) => cerr(e),
        }
    } else {
        Ok((None, off))
    }
}

/// Decodes an optional length-prefixed field.
pub open spec fn sp_opt_bytes(d: Seq<u8>, off: int, present: bool) -> VResult<Option<Seq<u8>>> {
    if present {
        match sp_bytes(d, off) {
            Ok((s, next)) => Ok((Some(s), next)),
            Err(e) => cerr(e),
        }
    } else {
        Ok((None, off))
    }
}

/// Decodes the will message that the connect flags announce.
pub open spec fn sp_opt_will(d: Seq<u8>, off: int, flags: u8) -> VResult<Option<LastWillModel>> {
    if flags & 4 != 0 {
        match QoS::spec_from_u8((flags & 24) >> 3u8) {
            None => cerr(Error::InvalidQos((flags & 24) >> 3u8)),
            Some(qos) => match sp_last_will(d, off, qos, flags & 32 != 0) {
                Ok((w, next)) => Ok((Some(w), next)),
                Err(e) => Err(e),
            },
        }
    } else if flags & 24 != 0 {
        cerr(Error::InvalidConnectFlags(flags))
    } else {
        Ok((None, off))
    }
}

/// Decodes the rest of a connect body after its protocol.
pub open spec fn sp_connect_rest(d: Seq<u8>, off: int, protocol: Protocol) -> VResult<ConnectModel> {
    if protocol != Protocol::V500 {
        cerr(Error::UnexpectedProtocol(protocol))
    } else {
        match sp_u8(d, off) {
            Err(e) => cerr(e),
            Ok((flags, o1)) => if flags & 1 != 0 {
                cerr(Error::InvalidConnectFlags(flags))
            } else {
                match sp_u16(d, o1) {
                    Err(e) => cerr(e),
                    Ok((keep_alive, o2)) => match sp_properties(d, o2, PropsKind::Connect) {
                        Err(e) => Err(e),
                        Ok(((properties, _, _), o3)) => match sp_string(d, o3) {
                            Err(e) => cerr(e),
                            Ok((client_id, o4)) => match sp_opt_will(d, o4, flags) {
                                Err(e) => Err(e),
                                Ok((last_will, o5)) => match sp_opt_string(d, o5, flags & 128 != 0) {
                                    Err(e) => Err(e),
                                    Ok((username, o6)) => match sp_opt_bytes(
                                        d,
                                        o6,
                                        flags & 64 != 0,
                                    ) {
                                        Err(e) => Err(e),
                                        Ok((password, o7)) => Ok(
                                            (
                                                ConnectModel {
                                                    protocol,
                                                    clean_start: flags & 2 != 0,
                                                    keep_alive,
                                                    properties,
                                                    client_id,
                                                    last_will,
                                                    username,
                                                    password,
                                                },
                                                o7,
                                            ),
                                        ),
                                    },
                                },
                            },
                        },
                    },
                }
            },
        }
    }
}

/// Decodes a connect body.
pub open spec fn sp_connect(d: Seq<u8>, off: int) -> VResult<ConnectModel> {
    match common(sp_protocol(d, off)) {
        Ok((protocol, o1)) => sp_connect_rest(d, o1, protocol),
        Err(e) => Err(e),
    }
}

impl Connect {
    /// A clean-start connect packet of protocol 5.0 without properties.
    pub fn new(client_id: String, keep_alive: u16) -> (r: Self)
        ensures
            r.protocol == Protocol::V500,
            r.clean_start,
            r.keep_alive == keep_alive,
            r.properties@ == PropsModel::empty(),
            r.client_id == client_id,
            r.last_will is None,
            r.username is None,
            r.password is None,
    {
        Connect {
            protocol: Protocol::V500,
            clean_start: true,
            keep_alive,
            properties: ConnectProperties::default(),
            client_id,
            last_will: None,
            username: None,
            password: None,
        }
    }

    /// Decodes a connect body.
    pub fn decode(buf: &mut PacketBuf) -> (r: Result<Self, ErrorV5>)
        ensures
            final(buf).bytes() == old(buf).bytes(),
            match sp_connect(old(buf).bytes(), old(buf).pos()) {
                Ok((m, next)) => r matches Ok(c) && c@ == m && final(buf).pos() == next,
                Err(e) => r matches Err(x) && x.is(e),
            },
    {
        let protocol = match Protocol::decode(buf) {
            Ok(p) => p,
            Err(e) => return Err(ErrorV5::Common(e)),
        };
        Self::decode_with_protocol(buf, protocol)
    }

    /// Decodes a connect body after its protocol.
    pub fn decode_with_protocol(buf: &mut PacketBuf, protocol: Protocol) -> (r: Result<Self, ErrorV5>)
        ensures
            final(buf).bytes() == old(buf).bytes(),
            match sp_connect_rest(old(buf).bytes(), old(buf).pos(), protocol) {
                Ok((m, next)) => r matches Ok(c) && c@ == m && final(buf).pos() == next,
                Err(e) => r matches Err(x) && x.is(e),
            },
    {
        if protocol != Protocol::V500 {
            return Err(ErrorV5::Common(Error::UnexpectedProtocol(protocol)));
        }
        let connect_flags: u8 = match buf.read_u8() {
            Ok(b) => b,
            Err(e) => return Err(ErrorV5::Common(e)),
        };
        if connect_flags & 1 != 0 {
            return Err(ErrorV5::Common(Error::InvalidConnectFlags(connect_flags)));
        }
        let keep_alive = match buf.read_u16() {
            Ok(v) => v,
            Err(e) => return Err(ErrorV5::Common(e)),
        };
        let properties = ConnectProperties::decode(buf)?;
        let client_id = match read_owned_string(buf) {
            Ok(s) => s,
            Err(e) => return Err(ErrorV5::Common(e)),
        };
        let last_will = if connect_flags & 4 != 0 {
            let qos = match QoS::from_u8((connect_flags & 24) >> 3) {
                Ok(q) => q,
                Err(e) => return Err(ErrorV5::Common(e)),
            };
            let retain = (connect_flags & 32) != 0;
            Some(LastWill::decode(buf, qos, retain)?)
        } else if connect_flags & 24 != 0 {
            return Err(ErrorV5::Common(Error::InvalidConnectFlags(connect_flags)));
        } else {
            None
        };
        let username = if connect_flags & 128 != 0 {
            match read_owned_string(buf) {
                Ok(s) => Some(s),
                Err(e) => return Err(ErrorV5::Common(e)),
            }
        } else {
            None
        };
        let password = if connect_flags & 64 != 0 {
            match read_owned_bytes(buf) {
                Ok(p) => Some(p),
                Err(e) => return Err(ErrorV5::Common(e)),
            }
        } else {
            None
        };
        let clean_start = (connect_flags & 2) != 0;
        Ok(
            Connect {
                protocol,
                clean_start,
                keep_alive,
                properties,
                client_id,
                last_will,
                username,
                password,
            },
        )
    }

    /// The connect flags.
    fn flags(&self) -> (r: u8)
        ensures
            r == self@.flags(),
    {
        let mut connect_flags: u8 = 0;
        if self.clean_start {
            connect_flags = 2;
        }
        if self.username.is_some() {
            connect_flags = connect_flags | 128;
        }
        if self.password.is_some() {
            connect_flags = connect_flags | 64;
        }
        match &self.last_will {
            Some(last_will) => {
                connect_flags = connect_flags | 4 | (last_will.qos.to_u8() << 3);
                if last_will.retain {
                    connect_flags = connect_flags | 32;
                }
            },
            None => {},
        }
        connect_flags
    }

    /// Appends the encoding of the body.
    #[verifier::rlimit(100)]
    pub fn encode(&self, buf: &mut Vec<u8>)
        requires
            self@.encodable(),
        ensures
            final(buf)@ == old(buf)@ + self@.spec_encode(),
    {
        let ghost start = buf@;
        let connect_flags = self.flags();
        self.protocol.encode(buf);
        write_u8(buf, connect_flags);
        write_u16(buf, self.keep_alive);
        self.properties.encode(buf);
        write_bytes(buf, self.client_id.as_str().as_bytes());
        let ghost b1 = buf@;
        match &self.last_will {
            Some(last_will) => last_will.encode(buf),
            None => {},
        }
        let ghost b2 = buf@;
        match &self.username {
            Some(username) => write_bytes(buf, username.as_str().as_bytes()),
            None => {},
        }
        let ghost b3 = buf@;
        match &self.password {
            Some(password) => write_bytes(buf, password.as_slice()),
            None => {},
        }
        proof {
            let m = self@;
            let w = match m.last_will {
                Some(w) => w.spec_encode(),
                None => Seq::empty(),
            };
            assert(b1 == start + m.protocol.spec_encode() + seq![m.flags()] + be16(
                m.keep_alive as int,
            ) + props_encode(m.properties, ConnectProperties::fields_order()) + field(
                m.client_id,
            ));
            assert(b2 == b1 + w);
            assert(b3 == b2 + opt_field(m.username));
            assert(buf@ == b3 + opt_field(m.password));
            assert(buf@ =~= start + m.spec_encode());
        }
    }

    /// The encoded length of the body.
    pub fn encode_len(&self) -> (r: usize)
        requires
            self@.encodable(),
            self@.spec_encode().len() <= usize::MAX,
        ensures
            r == self@.spec_encode().len(),
    {
        let mut length = self.protocol.encode_len();
        length += 1 + 2;
        length += self.properties.encode_len();
        length += 2 + self.client_id.as_str().as_bytes().len();
        match &self.last_will {
            Some(last_will) => {
                length += last_will.encode_len();
            },
            None => {},
        }
        match &self.username {
            Some(username) => {
                length += 2 + username.as_str().as_bytes().len();
            },
            None => {},
        }
        match &self.password {
            Some(password) => {
                length += 2 + password.len();
            },
            None => {},
        }
        length
    }
}

/// Connack packet body.
#[derive(Debug, Clone, PartialEq, Eq)]
pub struct Connack {
    pub session_present: bool,
    pub reason_code: ConnectReasonCode,
    pub properties: ConnackProperties,
}

/// A connack packet body as values.
pub struct ConnackModel {
    pub session_present: bool,
    pub reason_code: ConnectReasonCode,
    pub properties: PropsModel,
}

impl View for Connack {
    type V = ConnackModel;

    open spec fn view(&self) -> ConnackModel {
        ConnackModel {
            session_present: self.session_present,
            reason_code: self.reason_code,
            properties: self.properties@,
        }
    }
}

impl ConnackModel {
    /// The encoding: flags, reason code, properties.
    pub open spec fn spec_encode(self) -> Seq<u8> {
        seq![if self.session_present { 1u8 } else { 0u8 }, self.reason_code.spec_u8()]
            + props_encode(self.properties, ConnackProperties::fields_order())
    }

    /// Whether the properties can be encoded.
    pub open spec fn encodable(self) -> bool {
        props_fit(self.properties, ConnackProperties::fields_order())
    }
}

/// Decodes a connack body.
pub open spec fn sp_connack(d: Seq<u8>, off: int, header: Header) -> VResult<ConnackModel> {
    match sp_raw(d, off, 2) {
        Err(e) => cerr(e),
        Ok((two, o1)) => if two[0] > 1 {
            cerr(Error::InvalidConnackFlags(two[0]))
        } else {
            match ConnectReasonCode::spec_from_u8(two[1]) {
                None => v5err(ErrorV5::InvalidReasonCode(header.typ, two[1])),
                Some(reason_code) => match sp_properties(d, o1, PropsKind::Connack) {
                    Err(e) => Err(e),
                    Ok(((properties, _, _), o2)) => Ok(
                        (
                            ConnackModel { session_present: two[0] == 1, reason_code, properties },
                            o2,
                        ),
                    ),
                },
            }
        },
    }
}

impl Connack {
    /// A connack without properties.
    pub fn new(session_present: bool, reason_code: ConnectReasonCode) -> (r: Self)
        ensures
            r.session_present == session_present,
            r.reason_code == reason_code,
            r.properties@ == PropsModel::empty(),
    {
        Connack { session_present, reason_code, properties: ConnackProperties::default() }
    }

    /// Decodes a connack body.
    pub fn decode(buf: &mut PacketBuf, header: Header) -> (r: Result<Self, ErrorV5>)
        ensures
            final(buf).bytes() == old(buf).bytes(),
            match sp_connack(old(buf).bytes(), old(buf).pos(), header) {
                Ok((m, next)) => r matches Ok(c) && c@ == m && final(buf).pos() == next,
                Err(e) => r matches Err(x) && x.is(e),
            },
    {
        let two = match buf.read_raw_bytes(2) {
            Ok(s) => s,
            Err(e) => return Err(ErrorV5::Common(e)),
        };
        let flags = two[0];
        let code = two[1];
        let session_present = match flags {
            0 => false,
            1 => true,
            _ => return Err(ErrorV5::Common(Error::InvalidConnackFlags(flags))),
        };
        let reason_code = match ConnectReasonCode::from_u8(code) {
            Some(c) => c,
            None => return Err(ErrorV5::InvalidReasonCode(header.typ, code)),
        };
        let properties = ConnackProperties::decode(buf)?;
        Ok(Connack { session_present, reason_code, properties })
    }

    /// Appends the encoding of the body.
    pub fn encode(&self, buf: &mut Vec<u8>)
        requires
            self@.encodable(),
        ensures
            final(buf)@ == old(buf)@ + self@.spec_encode(),
    {
        write_u8(buf, if self.session_present { 1 } else { 0 });
        write_u8(buf, self.reason_code.to_u8());
        self.properties.encode(buf);
        assert(buf@ =~= old(buf)@ + self@.spec_encode());
    }

    /// The encoded length of the body.
    pub fn encode_len(&self) -> (r: usize)
        requires
            self@.encodable(),
        ensures
            r == self@.spec_encode().len(),
    {
        2 + self.properties.encode_len()
    }
}

/// Disconnect packet body.
#[derive(Debug, Clone, PartialEq, Eq)]
pub struct Disconnect {
    pub reason_code: DisconnectReasonCode,
    pub properties: DisconnectProperties,
}

/// A disconnect packet body as values.
pub struct DisconnectModel {
    pub reason_code: DisconnectReasonCode,
    pub properties: PropsModel,
}

impl View for Disconnect {
    type V = DisconnectModel;

    open spec fn view(&self) -> DisconnectModel {
        DisconnectModel { reason_code: self.reason_code, properties: self.properties@ }
    }
}

impl DisconnectModel {
    /// The encoding: nothing for a normal disconnect without properties, the
    /// reason code alone without properties, else both.
    pub open spec fn spec_encode(self) -> Seq<u8> {
        if self.properties == PropsModel::empty() {
            if self.reason_code == DisconnectReasonCode::NormalDisconnect {
                Seq::empty()
            } else {
                seq![self.reason_code.spec_u8()]
            }
        } else {
            seq![self.reason_code.spec_u8()] + props_encode(
                self.properties,
                DisconnectProperties::fields_order(),
            )
        }
    }

    /// Whether the properties can be encoded.
    pub open spec fn encodable(self) -> bool {
        props_fit(self.properties, DisconnectProperties::fields_order())
    }
}

/// Decodes a disconnect body of the given header.
pub open spec fn sp_disconnect(d: Seq<u8>, off: int, header: Header) -> VResult<DisconnectModel> {
    if header.remaining_len == 0 {
        Ok(
            (
                DisconnectModel {
                    reason_code: DisconnectReasonCode::NormalDisconnect,
                    properties: PropsModel::empty(),
                },
                off,
            ),
        )
    } else {
        match sp_u8(d, off) {
            Err(e) => cerr(e),
            Ok((b, o1)) => match DisconnectReasonCode::spec_from_u8(b) {
                None => v5err(ErrorV5::InvalidReasonCode(header.typ, b)),
                Some(reason_code) => if header.remaining_len == 1 {
                    Ok((DisconnectModel { reason_code, properties: PropsModel::empty() }, o1))
                } else {
                    match sp_properties(d, o1, PropsKind::Disconnect) {
                        Err(e) => Err(e),
                        Ok(((properties, _, _), o2)) => Ok(
                            (DisconnectModel { reason_code, properties }, o2),
                        ),
                    }
                },
            },
        }
    }
}

impl Disconnect {
    /// A disconnect without properties.
    pub fn new(reason_code: DisconnectReasonCode) -> (r: Self)
        ensures
            r.reason_code == reason_code,
            r.properties@ == PropsModel::empty(),
    {
        Disconnect { reason_code, properties: DisconnectProperties::default() }
    }

    /// A normal disconnect without properties.
    pub fn new_normal() -> (r: Self)
        ensures
            r.reason_code == DisconnectReasonCode::NormalDisconnect,
            r.properties@ == PropsModel::empty(),
    {
        Self::new(DisconnectReasonCode::NormalDisconnect)
    }

    /// Decodes a disconnect body.
    pub fn decode(buf: &mut PacketBuf, header: Header) -> (r: Result<Self, ErrorV5>)
        ensures
            final(buf).bytes() == old(buf).bytes(),
            match sp_disconnect(old(buf).bytes(), old(buf).pos(), header) {
                Ok((m, next)) => r matches Ok(c) && c@ == m && final(buf).pos() == next,
                Err(e) => r matches Err(x) && x.is(e),
            },
    {
        if header.remaining_len == 0 {
            return Ok(Disconnect::new_normal());
        }
        let b = match buf.read_u8() {
            Ok(b) => b,
            Err(e) => return Err(ErrorV5::Common(e)),
        };
        let reason_code = match DisconnectReasonCode::from_u8(b) {
            Some(c) => c,
            None => return Err(ErrorV5::InvalidReasonCode(header.typ, b)),
        };
        if header.remaining_len == 1 {
            return Ok(Disconnect::new(reason_code));
        }
        let properties = DisconnectProperties::decode(buf)?;
        Ok(Disconnect { reason_code, properties })
    }

    /// Appends the encoding of the body.
    pub fn encode(&self, buf: &mut Vec<u8>)
        requires
            self@.encodable(),
        ensures
            final(buf)@ == old(buf)@ + self@.spec_encode(),
    {
        if self.properties.is_default() {
            if self.reason_code != DisconnectReasonCode::NormalDisconnect {
                write_u8(buf, self.reason_code.to_u8());
            }
        } else {
            write_u8(buf, self.reason_code.to_u8());
            self.properties.encode(buf);
        }
        assert(buf@ =~= old(buf)@ + self@.spec_encode());
    }

    /// The encoded length of the body.
    pub fn encode_len(&self) -> (r: usize)
        requires
            self@.encodable(),
        ensures
            r == self@.spec_encode().len(),
    {
        if self.properties.is_default() {
            if self.reason_code == DisconnectReasonCode::NormalDisconnect {
                0
            } else {
                1
            }
        } else {
            1 + self.properties.encode_len()
        }
    }
}

/// Auth packet body.
#[derive(Debug, Clone, PartialEq, Eq)]
pub struct Auth {
    pub reason_code: AuthReasonCode,
    pub properties: AuthProperties,
}

/// An auth packet body as values.
pub struct AuthModel {
    pub reason_code: AuthReasonCode,
    pub properties: PropsModel,
}

impl View for Auth {
    type V = AuthModel;

    open spec fn view(&self) -> AuthModel {
        AuthModel { reason_code: self.reason_code, properties: self.properties@ }
    }
}

impl AuthModel {
    /// The encoding: nothing for a success without properties, else the
    /// reason code and the properties.
    pub open spec fn spec_encode(self) -> Seq<u8> {
        if self.reason_code == AuthReasonCode::Success && self.properties == PropsModel::empty() {
            Seq::empty()
        } else {
            seq![self.reason_code.spec_u8()] + props_encode(
                self.properties,
                AuthProperties::fields_order(),
            )
        }
    }

    /// Whether the properties can be encoded.
    pub open spec fn encodable(self) -> bool {
        props_fit(self.properties, AuthProperties::fields_order())
    }
}

/// Decodes an auth body of the given header.
pub open spec fn sp_auth(d: Seq<u8>, off: int, header: Header) -> VResult<AuthModel> {
    if header.remaining_len == 0 {
        Ok(
            (
                AuthModel { reason_code: AuthReasonCode::Success, properties: PropsModel::empty() },
                off,
            ),
        )
    } else {
        match sp_u8(d, off) {
            Err(e) => cerr(e),
            Ok((b, o1)) => match AuthReasonCode::spec_from_u8(b) {
                None => v5err(ErrorV5::InvalidReasonCode(header.typ, b)),
                Some(reason_code) => match sp_properties(d, o1, PropsKind::Auth) {
                    Err(e) => Err(e),
                    Ok(((properties, _, _), o2)) => Ok((AuthModel { reason_code, properties }, o2)),
                },
            },
        }
    }
}

impl Auth {
    /// An auth packet without properties.
    pub fn new(reason_code: AuthReasonCode) -> (r: Self)
        ensures
            r.reason_code == reason_code,
            r.properties@ == PropsModel::empty(),
    {
        Auth { reason_code, properties: AuthProperties::default() }
    }

    /// A successful auth packet without properties.
    pub fn new_success() -> (r: Self)
        ensures
            r.reason_code == AuthReasonCode::Success,
            r.properties@ == PropsModel::empty(),
    {
        Self::new(AuthReasonCode::Success)
    }

    /// Decodes an auth body.
    pub fn decode(buf: &mut PacketBuf, header: Header) -> (r: Result<Self, ErrorV5>)
        ensures
            final(buf).bytes() == old(buf).bytes(),
            match sp_auth(old(buf).bytes(), old(buf).pos(), header) {
                Ok((m, next)) => r matches Ok(c) && c@ == m && final(buf).pos() == next,
                Err(e) => r matches Err(x) && x.is(e),
            },
    {
        if header.remaining_len == 0 {
            return Ok(Auth::new_success());
        }
        let b = match buf.read_u8() {
            Ok(b) => b,
            Err(e) => return Err(ErrorV5::Common(e)),
        };
        let reason_code = match AuthReasonCode::from_u8(b) {
            Some(c) => c,
            None => return Err(ErrorV5::InvalidReasonCode(header.typ, b)),
        };
        let properties = AuthProperties::decode(buf)?;
        Ok(Auth { reason_code, properties })
    }

    /// Appends the encoding of the body.
    pub fn encode(&self, buf: &mut Vec<u8>)
        requires
            self@.encodable(),
        ensures
            final(buf)@ == old(buf)@ + self@.spec_encode(),
    {
        if self.reason_code != AuthReasonCode::Success || !self.properties.is_default() {
            write_u8(buf, self.reason_code.to_u8());
            self.properties.encode(buf);
        }
        assert(buf@ =~= old(buf)@ + self@.spec_encode());
    }

    /// The encoded length of the body.
    pub fn encode_len(&self) -> (r: usize)
        requires
            self@.encodable(),
        ensures
            r == self@.spec_encode().len(),
    {
        if self.reason_code == AuthReasonCode::Success && self.properties.is_default() {
            0
        } else {
            1 + self.properties.encode_len()
        }
    }
}

} // verus!
