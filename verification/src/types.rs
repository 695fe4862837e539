use vstd::prelude::*;
use vstd::string::StringSliceAdditionalSpecFns;
use vstd::utf8::*;

use crate::buf::{sp_bytes, sp_u8, PacketBuf, Parsed};
use crate::codec::{field, write_bytes, write_u8};
use crate::error::{DecodeErr, Error, PResult};
use crate::text::check_utf8;

verus! {

/// The protocol name of MQTT 3.1: "MQIsdp".
pub open spec fn mqisdp_name() -> Seq<u8> {
    seq![77u8, 81, 73, 115, 100, 112]
}

/// The protocol name of MQTT 3.1.1 and 5.0: "MQTT".
pub open spec fn mqtt_name() -> Seq<u8> {
    seq![77u8, 81, 84, 84]
}

/// Protocol version.
#[derive(Debug, Clone, Copy, PartialEq, Eq, Structural, Hash, PartialOrd, Ord)]
pub enum Protocol {
    /// MQTT 3.1
    V310,
    /// MQTT 3.1.1, the most commonly implemented version.
    V311,
    /// MQTT 5.0
    V500,
}

/// The protocol a name and a level stand for, if any.
pub open spec fn spec_protocol(name: Seq<u8>, level: u8) -> Option<Protocol> {
    if name == mqisdp_name() && level == 3 {
        Some(Protocol::V310)
    } else if name == mqtt_name() && level == 4 {
        Some(Protocol::V311)
    } else if name == mqtt_name() && level == 5 {
        Some(Protocol::V500)
    } else {
        None
    }
}

/// What `Protocol::new` gives for a name and a level, the string of the
/// error aside.
pub open spec fn spec_protocol_new_ok(name: Seq<u8>, level: u8, r: Result<Protocol, Error>) -> bool {
    match spec_protocol(name, level) {
        Some(p) => r == Ok::<Protocol, Error>(p),
        None => if valid_utf8(name) {
            r matches Err(Error::InvalidProtocol(s, l)) && encode_utf8(s@) == name && l == level
        } else {
            r == Err::<Protocol, Error>(Error::InvalidString)
        },
    }
}

impl Protocol {
    /// The protocol level byte.
    pub open spec fn spec_level(self) -> u8 {
        match self {
            Protocol::V310 => 3,
            Protocol::V311 => 4,
            Protocol::V500 => 5,
        }
    }

    /// The protocol name.
    pub open spec fn spec_name(self) -> Seq<u8> {
        match self {
            Protocol::V310 => mqisdp_name(),
            _ => mqtt_name(),
        }
    }

    /// The encoding: the name as a length-prefixed field, then the level.
    pub open spec fn spec_encode(self) -> Seq<u8> {
        field(self.spec_name()).push(self.spec_level())
    }

    /// The protocol level byte.
    pub fn level(self) -> (r: u8)
        ensures
            r == self.spec_level(),
    {
        match self {
            Protocol::V310 => 3,
            Protocol::V311 => 4,
            Protocol::V500 => 5,
        }
    }

    /// Finds the protocol of a name and a level.
    pub fn new(name: &[u8], level: u8) -> (r: Result<Protocol, Error>)
        ensures
            spec_protocol_new_ok(name@, level, r),
    {
        let (mqisdp, _) = Protocol::V310.to_pair();
        let (mqtt, _) = Protocol::V311.to_pair();
        if level == 3 && bytes_equal(name, mqisdp) {
            Ok(Protocol::V310)
        } else if level == 4 && bytes_equal(name, mqtt) {
            Ok(Protocol::V311)
        } else if level == 5 && bytes_equal(name, mqtt) {
            Ok(Protocol::V500)
        } else {
            match check_utf8(name) {
                Some(s) => {
                    let owned = s.to_owned();
                    Err(Error::InvalidProtocol(owned, level))
                },
                None => Err(Error::InvalidString),
            }
        }
    }

    /// The protocol name and level.
    pub fn to_pair(self) -> (r: (&'static [u8], u8))
        ensures
            r.0@ == self.spec_name(),
            r.1 == self.spec_level(),
    {
        match self {
            Protocol::V310 => (&[77u8, 81, 73, 115, 100, 112], 3),
            Protocol::V311 => (&[77u8, 81, 84, 84], 4),
            Protocol::V500 => (&[77u8, 81, 84, 84], 5),
        }
    }

    /// The version as text: "v3.1", "v3.1.1" or "v5.0".
    pub fn to_string(&self) -> (r: String)
        ensures
            r@ == match self {
                Protocol::V310 => "v3.1"@,
                Protocol::V311 => "v3.1.1"@,
                Protocol::V500 => "v5.0"@,
            },
    {
        match self {
            Protocol::V310 => "v3.1".to_owned(),
            Protocol::V311 => "v3.1.1".to_owned(),
            Protocol::V500 => "v5.0".to_owned(),
        }
    }

    /// Decodes a protocol name and level.
    pub fn decode(buf: &mut PacketBuf) -> (r: Result<Self, Error>)
        ensures
            final(buf).bytes() == old(buf).bytes(),
            match sp_protocol(old(buf).bytes(), old(buf).pos()) {
                Ok((p, next)) => r == Ok::<Protocol, Error>(p) && final(buf).pos() == next,
                Err(e) => r matches Err(x) && x.is(e),
            },
    {
        let name_buf = buf.read_bytes()?;
        let level = buf.read_u8()?;
        Protocol::new(name_buf, level)
    }

    /// Appends the encoding.
    pub fn encode(&self, buf: &mut Vec<u8>)
        ensures
            final(buf)@ == old(buf)@ + self.spec_encode(),
    {
        let (name, level) = self.to_pair();
        write_bytes(buf, name);
        write_u8(buf, level);
    }

    /// The encoded length.
    pub fn encode_len(&self) -> (r: usize)
        ensures
            r == self.spec_encode().len(),
    {
        match self {
            Protocol::V310 => 2 + 6 + 1,
            Protocol::V311 => 2 + 4 + 1,
            Protocol::V500 => 2 + 4 + 1,
        }
    }
}

/// Reads a protocol name and level, before they are checked.
pub open spec fn sp_protocol_raw(d: Seq<u8>, off: int) -> Parsed<(Seq<u8>, u8)> {
    match sp_bytes(d, off) {
        Ok((name, next)) => match sp_u8(d, next) {
            Ok((level, next2)) => Ok(((name, level), next2)),
            Err(e) => Err(e),
        },
        Err(e) => Err(e),
    }
}

/// Decodes a protocol name and level and checks them.
pub open spec fn sp_protocol(d: Seq<u8>, off: int) -> PResult<Protocol> {
    match sp_protocol_raw(d, off) {
        Ok(((name, level), next)) => match spec_protocol(name, level) {
            Some(p) => Ok((p, next)),
            None => if valid_utf8(name) {
                Err(DecodeErr::Protocol(name, level))
            } else {
                Err(DecodeErr::Plain(Error::InvalidString))
            },
        },
        Err(e) => Err(DecodeErr::Plain(e)),
    }
}

/// Compares two byte slices.
pub fn bytes_equal(a: &[u8], b: &[u8]) -> (r: bool)
    ensures
        r == (a@ == b@),
{
    if a.len() != b.len() {
        return false;
    }
    let mut i: usize = 0;
    while i < a.len()
        invariant
            a@.len() == b@.len(),
            i <= a@.len(),
            forall|k: int| 0 <= k < i ==> a@[k] == b@[k],
        decreases a.len() - i,
    {
        if a[i] != b[i] {
            return false;
        }
        i += 1;
    }
    assert(a@ =~= b@);
    true
}

/// Packet identifier.
#[derive(Debug, Clone, Copy, PartialEq, Eq, Structural, Hash, Ord, PartialOrd)]
pub struct Pid(u16);

/// The cycle that packet identifiers walk: 1, 2, ..., 65535, 1, ...
pub open spec fn pid_cycle(x: int) -> int {
    (x - 1) % 65535 + 1
}

impl Pid {
    /// The raw value.
    pub closed spec fn id(self) -> u16 {
        self.0
    }

    /// Equal raw values make equal identifiers.
    pub proof fn lemma_id_eq(a: Pid, b: Pid)
        ensures
            (a.id() == b.id()) == (a == b),
    {
    }

    /// The value of `self + u`: wraps around and skips 0.
    pub open spec fn spec_add(self, u: u16) -> u16 {
        if self.id() + u <= 65535 {
            (self.id() + u) as u16
        } else {
            (self.id() + u - 65536 + 1) as u16
        }
    }

    /// The value of `self - u`: wraps around and skips 0.
    pub open spec fn spec_sub(self, u: u16) -> u16 {
        if self.id() == u {
            u16::MAX
        } else if self.id() > u {
            (self.id() - u) as u16
        } else if self.id() - u + 65536 == 0 {
            u16::MAX
        } else {
            (self.id() - u + 65536 - 1) as u16
        }
    }

    /// Makes an identifier of any value, 0 included.
    pub fn new(value: u16) -> (r: Pid)
        ensures
            r.id() == value,
    {
        Pid(value)
    }

    /// The raw value.
    pub fn value(self) -> (r: u16)
        ensures
            r == self.id(),
    {
        self.0
    }

    /// A valid identifier is not 0.
    pub fn is_valid(self) -> (r: bool)
        ensures
            r == (self.id() != 0),
    {
        self.0 != 0
    }

    /// Makes an identifier; 0 is refused.
    pub fn try_new(value: u16) -> (r: Result<Pid, Error>)
        ensures
            value == 0 ==> r == Err::<Pid, Error>(Error::ZeroPid),
            value != 0 ==> (r matches Ok(p) && p.id() == value),
    {
        if value == 0 {
            Err(Error::ZeroPid)
        } else {
            Ok(Pid(value))
        }
    }

    /// Adds `u`, wrapping around and skipping 0.
    pub fn add_u16(self, u: u16) -> (r: Pid)
        ensures
            r.id() == self.spec_add(u),
    {
        let n = if self.0 as u32 + u as u32 <= 65535 {
            self.0 + u
        } else {
            (self.0 as u32 + u as u32 - 65536 + 1) as u16
        };
        Pid(n)
    }

    /// Subtracts `u`, wrapping around and skipping 0.
    pub fn sub_u16(self, u: u16) -> (r: Pid)
        ensures
            r.id() == self.spec_sub(u),
    {
        let n = if self.0 == u {
            u16::MAX
        } else if self.0 > u {
            self.0 - u
        } else {
            (self.0 as u32 + 65536 - u as u32 - 1) as u16
        };
        Pid(n)
    }

    /// On valid identifiers, adding and subtracting walk the cycle of
    /// the 65535 valid values, so both keep identifiers valid.
    pub proof fn lemma_add_sub_cycle(p: Pid, u: u16)
        requires
            p.id() != 0,
        ensures
            p.spec_add(u) == pid_cycle(p.id() + u),
            p.spec_sub(u) == pid_cycle(p.id() - u),
            p.spec_add(u) != 0,
            p.spec_sub(u) != 0,
    {
    }

    /// Subtracting `u` undoes adding `u`, and adding undoes subtracting.
    pub proof fn lemma_add_sub_inverse(p: Pid, u: u16)
        requires
            p.id() != 0,
        ensures
            Pid::new_spec(p.spec_add(u)).spec_sub(u) == p.id(),
            Pid::new_spec(p.spec_sub(u)).spec_add(u) == p.id(),
    {
    }

    /// The identifier of a raw value.
    pub closed spec fn new_spec(v: u16) -> Pid {
        Pid(v)
    }

    pub proof fn lemma_new_spec(v: u16)
        ensures
            Pid::new_spec(v).id() == v,
    {
    }

    pub proof fn lemma_new_spec_id(p: Pid)
        ensures
            Pid::new_spec(p.id()) == p,
    {
    }
}

impl Default for Pid {
    fn default() -> (r: Pid)
        ensures
            r.id() == 1,
    {
        Pid(1)
    }
}

impl TryFrom<u16> for Pid {
    type Error = Error;

    fn try_from(value: u16) -> (r: Result<Pid, Error>) {
        proof {
            Pid::lemma_new_spec(value);
        }
        let r = Pid::try_new(value);
        proof {
            if value != 0 {
                Pid::lemma_id_eq(r.unwrap(), Pid::new_spec(value));
            }
        }
        r
    }
}

impl vstd::std_specs::convert::TryFromSpecImpl<u16> for Pid {
    open spec fn obeys_try_from_spec() -> bool {
        true
    }

    open spec fn try_from_spec(v: u16) -> Result<Pid, Error> {
        if v == 0 {
            Err(Error::ZeroPid)
        } else {
            Ok(Pid::new_spec(v))
        }
    }
}

impl vstd::std_specs::ops::AddSpecImpl<u16> for Pid {
    open spec fn obeys_add_spec() -> bool {
        true
    }

    open spec fn add_req(self, rhs: u16) -> bool {
        true
    }

    open spec fn add_spec(self, rhs: u16) -> Pid {
        Pid::new_spec(self.spec_add(rhs))
    }
}

impl vstd::std_specs::ops::SubSpecImpl<u16> for Pid {
    open spec fn obeys_sub_spec() -> bool {
        true
    }

    open spec fn sub_req(self, rhs: u16) -> bool {
        true
    }

    open spec fn sub_spec(self, rhs: u16) -> Pid {
        Pid::new_spec(self.spec_sub(rhs))
    }
}

impl std::ops::Add<u16> for Pid {
    type Output = Pid;

    /// Adding a `u16` to a `Pid` wraps around and avoids 0.
    fn add(self, u: u16) -> (r: Pid) {
        let r = self.add_u16(u);
        proof {
            Pid::lemma_new_spec(self.spec_add(u));
            Pid::lemma_id_eq(r, Pid::new_spec(self.spec_add(u)));
        }
        r
    }
}

impl std::ops::Sub<u16> for Pid {
    type Output = Pid;

    /// Subtracting a `u16` from a `Pid` wraps around and avoids 0.
    fn sub(self, u: u16) -> (r: Pid) {
        let r = self.sub_u16(u);
        proof {
            Pid::lemma_new_spec(self.spec_sub(u));
            Pid::lemma_id_eq(r, Pid::new_spec(self.spec_sub(u)));
        }
        r
    }
}

impl std::ops::AddAssign<u16> for Pid {
    fn add_assign(&mut self, other: u16)
        ensures
            final(self).id() == old(self).spec_add(other),
    {
        *self = self.add_u16(other);
    }
}

impl std::ops::SubAssign<u16> for Pid {
    fn sub_assign(&mut self, other: u16)
        ensures
            final(self).id() == old(self).spec_sub(other),
    {
        *self = self.sub_u16(other);
    }
}

/// Packet delivery Quality of Service level.
#[derive(Debug, Clone, Copy, PartialEq, Eq, Structural, Hash, PartialOrd, Ord)]
pub enum QoS {
    /// At most once. No ack needed.
    Level0,
    /// At least once. One ack needed.
    Level1,
    /// Exactly once. Two acks needed.
    Level2,
}

impl QoS {
    /// The wire value.
    pub open spec fn spec_u8(self) -> u8 {
        match self {
            QoS::Level0 => 0,
            QoS::Level1 => 1,
            QoS::Level2 => 2,
        }
    }

    /// The level of a wire value, if any.
    pub open spec fn spec_from_u8(byte: u8) -> Option<QoS> {
        if byte == 0 {
            Some(QoS::Level0)
        } else if byte == 1 {
            Some(QoS::Level1)
        } else if byte == 2 {
            Some(QoS::Level2)
        } else {
            None
        }
    }

    /// Decodes a wire value.
    pub fn from_u8(byte: u8) -> (r: Result<QoS, Error>)
        ensures
            match QoS::spec_from_u8(byte) {
                Some(q) => r == Ok::<QoS, Error>(q),
                None => r == Err::<QoS, Error>(Error::InvalidQos(byte)),
            },
    {
        match byte {
            0 => Ok(QoS::Level0),
            1 => Ok(QoS::Level1),
            2 => Ok(QoS::Level2),
            n => Err(Error::InvalidQos(n)),
        }
    }

    /// The wire value.
    pub fn to_u8(self) -> (r: u8)
        ensures
            r == self.spec_u8(),
    {
        match self {
            QoS::Level0 => 0,
            QoS::Level1 => 1,
            QoS::Level2 => 2,
        }
    }

    /// The wire values that MQTT fixes: each code is written as the value
    /// beside it below, that value decodes to the code, and no other byte
    /// decodes.
    pub proof fn lemma_wire_values()
        ensures
            QoS::Level0.spec_u8() == 0x00u8,
            QoS::Level1.spec_u8() == 0x01u8,
            QoS::Level2.spec_u8() == 0x02u8,
            QoS::spec_from_u8(0x00u8) == Some(QoS::Level0),
            QoS::spec_from_u8(0x01u8) == Some(QoS::Level1),
            QoS::spec_from_u8(0x02u8) == Some(QoS::Level2),
            forall|b: u8| #[trigger] QoS::spec_from_u8(b) is Some ==> (b == 0x00u8 || b == 0x01u8 || b == 0x02u8),
    {
    }

    /// Decoding the wire value of a level gives the level back, and every
    /// wire value that decodes is the wire value of what it decodes to.
    pub proof fn lemma_u8_roundtrip(q: QoS, byte: u8)
        ensures
            QoS::spec_from_u8(q.spec_u8()) == Some(q),
            QoS::spec_from_u8(byte) matches Some(p) ==> p.spec_u8() == byte,
    {
    }
}

/// Combined QoS and packet identifier, used in publish packets.
#[derive(Debug, Clone, Copy, PartialEq, Eq, Structural, Hash)]
pub enum QosPid {
    Level0,
    Level1(Pid),
    Level2(Pid),
}

impl QosPid {
    /// The packet identifier, if any.
    pub fn pid(self) -> (r: Option<Pid>)
        ensures
            r == match self {
                QosPid::Level0 => None::<Pid>,
                QosPid::Level1(p) => Some(p),
                QosPid::Level2(p) => Some(p),
            },
    {
        match self {
            QosPid::Level0 => None,
            QosPid::Level1(p) => Some(p),
            QosPid::Level2(p) => Some(p),
        }
    }

    /// The QoS level.
    pub open spec fn spec_qos(self) -> QoS {
        match self {
            QosPid::Level0 => QoS::Level0,
            QosPid::Level1(_) => QoS::Level1,
            QosPid::Level2(_) => QoS::Level2,
        }
    }

    /// The QoS level.
    pub fn qos(self) -> (r: QoS)
        ensures
            r == self.spec_qos(),
    {
        match self {
            QosPid::Level0 => QoS::Level0,
            QosPid::Level1(_) => QoS::Level1,
            QosPid::Level2(_) => QoS::Level2,
        }
    }
}

/// Bytes held either in a vector or in a fixed array.
#[derive(Debug, Clone, PartialEq, Eq, Hash)]
pub enum VarBytes {
    Dynamic(Vec<u8>),
    Fixed2([u8; 2]),
    Fixed4([u8; 4]),
}

impl VarBytes {
    /// The bytes held.
    pub open spec fn spec_bytes(&self) -> Seq<u8> {
        match self {
            VarBytes::Dynamic(v) => v@,
            VarBytes::Fixed2(a) => a@,
            VarBytes::Fixed4(a) => a@,
        }
    }

    /// The bytes held.
    pub fn as_slice(&self) -> (r: &[u8])
        ensures
            r@ == self.spec_bytes(),
    {
        match self {
            VarBytes::Dynamic(vec) => vec.as_slice(),
            VarBytes::Fixed2(arr) => arr.as_slice(),
            VarBytes::Fixed4(arr) => arr.as_slice(),
        }
    }
}

impl AsRef<[u8]> for VarBytes {
    fn as_ref(&self) -> (r: &[u8])
        ensures
            r@ == self.spec_bytes(),
    {
        self.as_slice()
    }
}

} // verus!
