use vstd::prelude::*;
use vstd::utf8::*;

use crate::buf::{plain, read_owned_bytes, read_owned_string, sp_bytes, sp_string, sp_u16, sp_u8, PacketBuf};
use crate::codec::{be16, field, write_bytes, write_u16, write_u8};
use crate::error::{DecodeErr, Error, PResult};
use crate::topic::{topic_name_valid, TopicName};
use crate::types::{sp_protocol, Protocol, QoS};

verus! {

/// The will message that the server publishes when the client disconnects.
#[derive(Debug, Clone, PartialEq, Eq)]
pub struct LastWill {
    pub qos: QoS,
    pub retain: bool,
    pub topic_name: TopicName,
    pub message: Vec<u8>,
}

/// A will message as values: the topic and message are bytes.
pub struct LastWillModel {
    pub qos: QoS,
    pub retain: bool,
    pub topic: Seq<u8>,
    pub message: Seq<u8>,
}

impl View for LastWill {
    type V = LastWillModel;

    open spec fn view(&self) -> LastWillModel {
        LastWillModel {
            qos: self.qos,
            retain: self.retain,
            topic: self.topic_name.bytes(),
            message: self.message@,
        }
    }
}

impl LastWillModel {
    /// The encoding: the topic and the message as length-prefixed fields.
    pub open spec fn spec_encode(self) -> Seq<u8> {
        field(self.topic) + field(self.message)
    }
}

impl LastWill {
    /// A will message that is not retained.
    pub fn new(qos: QoS, topic_name: TopicName, message: Vec<u8>) -> (r: Self)
        ensures
            r.qos == qos,
            !r.retain,
            r.topic_name == topic_name,
            r.message == message,
    {
        LastWill { qos, retain: false, topic_name, message }
    }

    /// Appends the encoding.
    pub fn encode(&self, buf: &mut Vec<u8>)
        ensures
            final(buf)@ == old(buf)@ + self@.spec_encode(),
    {
        write_bytes(buf, self.topic_name.as_bytes());
        write_bytes(buf, self.message.as_slice());
        assert(old(buf)@ + field(self@.topic) + field(self@.message) == old(buf)@ + self@.spec_encode());
    }

    /// The encoded length.
    pub fn encode_len(&self) -> (r: usize)
        requires
            self@.spec_encode().len() <= usize::MAX,
        ensures
            r == self@.spec_encode().len(),
    {
        4 + self.topic_name.len() + self.message.len()
    }
}

/// Connect packet body.
#[derive(Debug, Clone, PartialEq, Eq)]
pub struct Connect {
    pub protocol: Protocol,
    pub clean_session: bool,
    pub keep_alive: u16,
    pub client_id: String,
    pub last_will: Option<LastWill>,
    pub username: Option<String>,
    pub password: Option<Vec<u8>>,
}

/// A connect packet body as values: strings are their UTF-8 bytes.
pub struct ConnectModel {
    pub protocol: Protocol,
    pub clean_session: bool,
    pub keep_alive: u16,
    pub client_id: Seq<u8>,
    pub last_will: Option<LastWillModel>,
    pub username: Option<Seq<u8>>,
    pub password: Option<Seq<u8>>,
}

/// The bytes of an optional string.
pub open spec fn opt_str_bytes(s: Option<String>) -> Option<Seq<u8>> {
    match s {
        Some(x) => Some(encode_utf8(x@)),
        None => None,
    }
}

/// The bytes of an optional vector.
pub open spec fn opt_vec_bytes(v: Option<Vec<u8>>) -> Option<Seq<u8>> {
    match v {
        Some(x) => Some(x@),
        None => None,
    }
}

/// A length-prefixed field if present, nothing if absent.
pub open spec fn opt_field(v: Option<Seq<u8>>) -> Seq<u8> {
    match v {
        Some(x) => field(x),
        None => Seq::empty(),
    }
}

impl View for Connect {
    type V = ConnectModel;

    open spec fn view(&self) -> ConnectModel {
        ConnectModel {
            protocol: self.protocol,
            clean_session: self.clean_session,
            keep_alive: self.keep_alive,
            client_id: encode_utf8(self.client_id@),
            last_will: match self.last_will {
                Some(w) => Some(w@),
                None => None,
            },
            username: opt_str_bytes(self.username),
            password: opt_vec_bytes(self.password),
        }
    }
}

/// The connect flags of a connect packet.
pub open spec fn connect_flags(
    clean_session: bool,
    username: bool,
    password: bool,
    will: Option<(QoS, bool)>,
) -> u8 {
    let f0: u8 = if clean_session { 2 } else { 0 };
    let f1: u8 = if username { f0 | 128 } else { f0 };
    let f2: u8 = if password { f1 | 64 } else { f1 };
    match will {
        Some((qos, retain)) => {
            let f3: u8 = f2 | 4 | (qos.spec_u8() << 3u8);
            if retain { f3 | 32 } else { f3 }
        },
        None => f2,
    }
}

impl ConnectModel {
    /// The connect flags.
    pub open spec fn flags(self) -> u8 {
        connect_flags(
            self.clean_session,
            self.username is Some,
            self.password is Some,
            match self.last_will {
                Some(w) => Some((w.qos, w.retain)),
                None => None,
            },
        )
    }

    /// The encoding of the body.
    pub open spec fn spec_encode(self) -> Seq<u8> {
        self.protocol.spec_encode() + seq![self.flags()] + be16(self.keep_alive as int) + field(
            self.client_id,
        ) + match self.last_will {
            Some(w) => w.spec_encode(),
            None => Seq::empty(),
        } + opt_field(self.username) + opt_field(self.password)
    }
}

/// Decodes a will message, as the connect flags say.
pub open spec fn sp_last_will(d: Seq<u8>, off: int, flags: u8) -> PResult<Option<LastWillModel>> {
    if flags & 4 != 0 {
        match plain(sp_string(d, off)) {
            Ok((topic, o1)) => match plain(sp_bytes(d, o1)) {
                Ok((message, o2)) => match QoS::spec_from_u8((flags & 24) >> 3u8) {
                    Some(qos) => if topic_name_valid(topic) {
                        Ok(
                            (
                                Some(
                                    LastWillModel {
                                        qos,
                                        retain: flags & 32 != 0,
                                        topic,
                                        message,
                                    },
                                ),
                                o2,
                            ),
                        )
                    } else {
                        Err(DecodeErr::TopicName(topic))
                    },
                    None => Err(DecodeErr::Plain(Error::InvalidQos((flags & 24) >> 3u8))),
                },
                Err(e) => Err(e),
            },
            Err(e) => Err(e),
        }
    } else if flags & 24 != 0 {
        Err(DecodeErr::Plain(Error::InvalidConnectFlags(flags)))
    } else {
        Ok((None, off))
    }
}

/// Decodes an optional string.
pub open spec fn sp_opt_string(d: Seq<u8>, off: int, present: bool) -> PResult<Option<Seq<u8>>> {
    if present {
        match plain(sp_string(d, off)) {
            Ok((s, next)) => Ok((Some(s), next)),
            Err(e) => Err(e),
        }
    } else {
        Ok((None, off))
    }
}

/// Decodes an optional length-prefixed field.
pub open spec fn sp_opt_bytes(d: Seq<u8>, off: int, present: bool) -> PResult<Option<Seq<u8>>> {
    if present {
        match plain(sp_bytes(d, off)) {
            Ok((s, next)) => Ok((Some(s), next)),
            Err(e) => Err(e),
        }
    } else {
        Ok((None, off))
    }
}

/// Decodes the rest of a connect body after its protocol.
pub open spec fn sp_connect_rest(d: Seq<u8>, off: int, protocol: Protocol) -> PResult<ConnectModel> {
    if protocol.spec_level() > 4 {
        Err(DecodeErr::Plain(Error::UnexpectedProtocol(protocol)))
    } else {
        match plain(sp_u8(d, off)) {
            Ok((flags, o1)) => if flags & 1 != 0 {
                Err(DecodeErr::Plain(Error::InvalidConnectFlags(flags)))
            } else {
                match plain(sp_u16(d, o1)) {
                    Ok((keep_alive, o2)) => match plain(sp_string(d, o2)) {
                        Ok((client_id, o3)) => match sp_last_will(d, o3, flags) {
                            Ok((last_will, o4)) => match sp_opt_string(d, o4, flags & 128 != 0) {
                                Ok((username, o5)) => match sp_opt_bytes(d, o5, flags & 64 != 0) {
                                    Ok((password, o6)) => Ok(
                                        (
                                            ConnectModel {
                                                protocol,
                                                clean_session: flags & 2 != 0,
                                                keep_alive,
                                                client_id,
                                                last_will,
                                                username,
                                                password,
                                            },
                                            o6,
                                        ),
                                    ),
                                    Err(e) => Err(e),
                                },
                                Err(e) => Err(e),
                            },
                            Err(e) => Err(e),
                        },
                        Err(e) => Err(e),
                    },
                    Err(e) => Err(e),
                }
            },
            Err(e) => Err(e),
        }
    }
}

/// Decodes a connect body.
pub open spec fn sp_connect(d: Seq<u8>, off: int) -> PResult<ConnectModel> {
    match sp_protocol(d, off) {
        Ok((protocol, o1)) => sp_connect_rest(d, o1, protocol),
        Err(e) => Err(e),
    }
}

impl Connect {
    /// A clean-session connect packet of protocol 3.1.1.
    pub fn new(client_id: String, keep_alive: u16) -> (r: Self)
        ensures
            r.protocol == Protocol::V311,
            r.clean_session,
            r.keep_alive == keep_alive,
            r.client_id == client_id,
            r.last_will is None,
            r.username is None,
            r.password is None,
    {
        Connect {
            protocol: Protocol::V311,
            clean_session: true,
            keep_alive,
            client_id,
            last_will: None,
            username: None,
            password: None,
        }
    }

    /// Decodes a connect body.
    pub fn decode(buf: &mut PacketBuf) -> (r: Result<Self, Error>)
        ensures
            final(buf).bytes() == old(buf).bytes(),
            match sp_connect(old(buf).bytes(), old(buf).pos()) {
                Ok((m, next)) => r matches Ok(c) && c@ == m && final(buf).pos() == next,
                Err(e) => r matches Err(x) && x.is(e),
            },
    {
        let protocol = Protocol::decode(buf)?;
        Self::decode_buffer_with_protocol(buf, protocol)
    }

    /// Decodes a connect body after its protocol.
    pub fn decode_buffer_with_protocol(buf: &mut PacketBuf, protocol: Protocol) -> (r: Result<Self, Error>)
        ensures
            final(buf).bytes() == old(buf).bytes(),
            match sp_connect_rest(old(buf).bytes(), old(buf).pos(), protocol) {
                Ok((m, next)) => r matches Ok(c) && c@ == m && final(buf).pos() == next,
                Err(e) => r matches Err(x) && x.is(e),
            },
    {
        if protocol.level() > 4 {
            return Err(Error::UnexpectedProtocol(protocol));
        }
        let connect_flags: u8 = buf.read_u8()?;
        if connect_flags & 1 != 0 {
            return Err(Error::InvalidConnectFlags(connect_flags));
        }
        let keep_alive = buf.read_u16()?;
        let client_id = read_owned_string(buf)?;
        let last_will = if connect_flags & 4 != 0 {
            let topic_name = buf.read_string()?;
            let message = read_owned_bytes(buf)?;
            let qos = QoS::from_u8((connect_flags & 24) >> 3)?;
            let retain = (connect_flags & 32) != 0;
            let topic_name = TopicName::from_str(topic_name)?;
            proof {
                topic_name.lemma_bytes();
            }
            Some(LastWill { topic_name, message, qos, retain })
        } else if connect_flags & 24 != 0 {
            return Err(Error::InvalidConnectFlags(connect_flags));
        } else {
            None
        };
        let username = if connect_flags & 128 != 0 {
            Some(read_owned_string(buf)?)
        } else {
            None
        };
        let password = if connect_flags & 64 != 0 {
            Some(read_owned_bytes(buf)?)
        } else {
            None
        };
        let clean_session = (connect_flags & 2) != 0;
        Ok(Connect { protocol, clean_session, keep_alive, client_id, last_will, username, password })
    }
}


impl Connect {
    /// The connect flags.
    fn flags(&self) -> (r: u8)
        ensures
            r == self@.flags(),
    {
        let mut connect_flags: u8 = 0;
        if self.clean_session {
            connect_flags = 2;
        }
        if self.username.is_some() {
            connect_flags = connect_flags | 128;
        }
        if self.password.is_some() {
            connect_flags = connect_flags | 64;
        }
        match &self.last_will {
            Some(last_will) => {
                connect_flags = connect_flags | 4 | (last_will.qos.to_u8() << 3);
                if last_will.retain {
                    connect_flags = connect_flags | 32;
                }
            },
            None => {},
        }
        connect_flags
    }

    /// Appends the encoding of the body.
    pub fn encode(&self, buf: &mut Vec<u8>)
        ensures
            final(buf)@ == old(buf)@ + self@.spec_encode(),
    {
        let ghost start = buf@;
        let connect_flags = self.flags();
        self.protocol.encode(buf);
        write_u8(buf, connect_flags);
        write_u16(buf, self.keep_alive);
        write_bytes(buf, self.client_id.as_str().as_bytes());
        let ghost b1 = buf@;
        match &self.last_will {
            Some(last_will) => last_will.encode(buf),
            None => {},
        }
        let ghost b2 = buf@;
        match &self.username {
            Some(username) => write_bytes(buf, username.as_str().as_bytes()),
            None => {},
        }
        let ghost b3 = buf@;
        match &self.password {
            Some(password) => write_bytes(buf, password.as_slice()),
            None => {},
        }
        proof {
            let m = self@;
            let w = match m.last_will {
                Some(w) => w.spec_encode(),
                None => Seq::empty(),
            };
            assert(b1 == start + m.protocol.spec_encode() + seq![m.flags()] + be16(m.keep_alive as int) + field(m.client_id));
            assert(b2 == b1 + w);
            assert(b3 == b2 + opt_field(m.username));
            assert(buf@ == b3 + opt_field(m.password));
            assert(buf@ == start + m.spec_encode());
        }
    }

    /// The encoded length of the body.
    pub fn encode_len(&self) -> (r: usize)
        requires
            self@.spec_encode().len() <= usize::MAX,
        ensures
            r == self@.spec_encode().len(),
    {
        let ghost m = self@;
        let mut length = self.protocol.encode_len();
        length += 1 + 2;
        length += 2 + self.client_id.as_str().as_bytes().len();
        match &self.last_will {
            Some(last_will) => {
                length += last_will.encode_len();
            },
            None => {},
        }
        match &self.username {
            Some(username) => {
                length += 2 + username.as_str().as_bytes().len();
            },
            None => {},
        }
        match &self.password {
            Some(password) => {
                length += 2 + password.len();
            },
            None => {},
        }
        length
    }
}

/// Return code of a connack packet.
#[derive(Debug, Clone, Copy, PartialEq, Eq, Structural, Hash)]
pub enum ConnectReturnCode {
    Accepted,
    UnacceptableProtocolVersion,
    IdentifierRejected,
    ServerUnavailable,
    BadUserNameOrPassword,
    NotAuthorized,
}

impl ConnectReturnCode {
    /// The wire value.
    pub open spec fn spec_u8(self) -> u8 {
        match self {
            ConnectReturnCode::Accepted => 0,
            ConnectReturnCode::UnacceptableProtocolVersion => 1,
            ConnectReturnCode::IdentifierRejected => 2,
            ConnectReturnCode::ServerUnavailable => 3,
            ConnectReturnCode::BadUserNameOrPassword => 4,
            ConnectReturnCode::NotAuthorized => 5,
        }
    }

    /// The code of a wire value, if any.
    pub open spec fn spec_from_u8(byte: u8) -> Option<ConnectReturnCode> {
        if byte == 0 {
            Some(ConnectReturnCode::Accepted)
        } else if byte == 1 {
            Some(ConnectReturnCode::UnacceptableProtocolVersion)
        } else if byte == 2 {
            Some(ConnectReturnCode::IdentifierRejected)
        } else if byte == 3 {
            Some(ConnectReturnCode::ServerUnavailable)
        } else if byte == 4 {
            Some(ConnectReturnCode::BadUserNameOrPassword)
        } else if byte == 5 {
            Some(ConnectReturnCode::NotAuthorized)
        } else {
            None
        }
    }

    /// Decodes a wire value.
    pub fn from_u8(byte: u8) -> (r: Result<ConnectReturnCode, Error>)
        ensures
            match ConnectReturnCode::spec_from_u8(byte) {
                Some(c) => r == Ok::<ConnectReturnCode, Error>(c),
                None => r == Err::<ConnectReturnCode, Error>(Error::InvalidConnectReturnCode(byte)),
            },
    {
        match byte {
            0 => Ok(ConnectReturnCode::Accepted),
            1 => Ok(ConnectReturnCode::UnacceptableProtocolVersion),
            2 => Ok(ConnectReturnCode::IdentifierRejected),
            3 => Ok(ConnectReturnCode::ServerUnavailable),
            4 => Ok(ConnectReturnCode::BadUserNameOrPassword),
            5 => Ok(ConnectReturnCode::NotAuthorized),
            n => Err(Error::InvalidConnectReturnCode(n)),
        }
    }

    /// The wire value.
    pub fn to_u8(self) -> (r: u8)
        ensures
            r == self.spec_u8(),
    {
        match self {
            ConnectReturnCode::Accepted => 0,
            ConnectReturnCode::UnacceptableProtocolVersion => 1,
            ConnectReturnCode::IdentifierRejected => 2,
            ConnectReturnCode::ServerUnavailable => 3,
            ConnectReturnCode::BadUserNameOrPassword => 4,
            ConnectReturnCode::NotAuthorized => 5,
        }
    }

    /// The wire values that MQTT 3.1.1 fixes: each code is written as the value
    /// beside it below, that value decodes to the code, and no other byte
    /// decodes.
    pub proof fn lemma_wire_values()
        ensures
            ConnectReturnCode::Accepted.spec_u8() == 0x00u8,
            ConnectReturnCode::UnacceptableProtocolVersion.spec_u8() == 0x01u8,
            ConnectReturnCode::IdentifierRejected.spec_u8() == 0x02u8,
            ConnectReturnCode::ServerUnavailable.spec_u8() == 0x03u8,
            ConnectReturnCode::BadUserNameOrPassword.spec_u8() == 0x04u8,
            ConnectReturnCode::NotAuthorized.spec_u8() == 0x05u8,
            ConnectReturnCode::spec_from_u8(0x00u8) == Some(ConnectReturnCode::Accepted),
            ConnectReturnCode::spec_from_u8(0x01u8) == Some(ConnectReturnCode::UnacceptableProtocolVersion),
            ConnectReturnCode::spec_from_u8(0x02u8) == Some(ConnectReturnCode::IdentifierRejected),
            ConnectReturnCode::spec_from_u8(0x03u8) == Some(ConnectReturnCode::ServerUnavailable),
            ConnectReturnCode::spec_from_u8(0x04u8) == Some(ConnectReturnCode::BadUserNameOrPassword),
            ConnectReturnCode::spec_from_u8(0x05u8) == Some(ConnectReturnCode::NotAuthorized),
            forall|b: u8| #[trigger] ConnectReturnCode::spec_from_u8(b) is Some ==> (b == 0x00u8 || b == 0x01u8 || b == 0x02u8 || b == 0x03u8 || b == 0x04u8 || b == 0x05u8),
    {
    }

    /// The wire value of a code decodes to the code.
    pub proof fn lemma_u8_roundtrip(c: ConnectReturnCode)
        ensures
            ConnectReturnCode::spec_from_u8(c.spec_u8()) == Some(c),
    {
    }
}

/// Connack packet body.
#[derive(Debug, Clone, Copy, PartialEq, Eq, Structural)]
pub struct Connack {
    pub session_present: bool,
    pub code: ConnectReturnCode,
}

/// Decodes a connack body: both bytes must be there before either is checked.
pub open spec fn sp_connack(d: Seq<u8>, off: int) -> PResult<Connack> {
    if 0 <= off && off + 2 <= d.len() {
        let flags = d[off];
        if flags > 1 {
            Err(DecodeErr::Plain(Error::InvalidConnackFlags(flags)))
        } else {
            match ConnectReturnCode::spec_from_u8(d[off + 1]) {
                Some(code) => Ok((Connack { session_present: flags == 1, code }, off + 2)),
                None => Err(DecodeErr::Plain(Error::InvalidConnectReturnCode(d[off + 1]))),
            }
        }
    } else {
        Err(DecodeErr::Plain(Error::eof()))
    }
}

impl Connack {
    pub fn new(session_present: bool, code: ConnectReturnCode) -> (r: Self)
        ensures
            r == (Connack { session_present, code }),
    {
        Connack { session_present, code }
    }

    /// The encoding of the body: the flags, then the return code.
    pub open spec fn spec_encode(self) -> Seq<u8> {
        seq![if self.session_present { 1u8 } else { 0u8 }, self.code.spec_u8()]
    }

    /// Decodes a connack body.
    pub fn decode(buf: &mut PacketBuf) -> (r: Result<Self, Error>)
        ensures
            final(buf).bytes() == old(buf).bytes(),
            match sp_connack(old(buf).bytes(), old(buf).pos()) {
                Ok((m, next)) => r == Ok::<Connack, Error>(m) && final(buf).pos() == next,
                Err(e) => r matches Err(x) && x.is(e),
            },
    {
        if buf.remaining() < 2 {
            return Err(Error::IoError(crate::error::IoErrorKind::UnexpectedEof));
        }
        let flags = buf.read_u8()?;
        let code_byte = buf.read_u8()?;
        let session_present = match flags {
            0 => false,
            1 => true,
            flag => return Err(Error::InvalidConnackFlags(flag)),
        };
        let code = ConnectReturnCode::from_u8(code_byte)?;
        Ok(Connack { session_present, code })
    }
}

} // verus!
