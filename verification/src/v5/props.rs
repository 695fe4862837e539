use vstd::prelude::*;
use vstd::string::StringSliceAdditionalSpecFns;
use vstd::utf8::encode_utf8;

use crate::buf::{sp_bytes, sp_string, sp_u16, sp_u32, sp_u8, sp_var_int, PacketBuf, read_owned_bytes, read_owned_string};
use crate::codec::{be16, be32, field, lemma_var_int_len, var_int, var_int_len, var_int_size, write_bytes, write_u16, write_u32, write_u8, write_var_int, VAR_INT_LIMIT};
use crate::topic::{topic_name_valid, TopicName};
use crate::types::QoS;

use super::types::{cerr, v5err, DecodeErrV5, ErrorV5, PacketType, PropertyId, UserProperty, VResult, VarByteInt};

verus! {

/// A property value as values; strings are their UTF-8 bytes.
pub enum PropVal {
    Bool(bool),
    Qos(QoS),
    U16(u16),
    U32(u32),
    Str(Seq<u8>),
    Bin(Seq<u8>),
    Int(u32),
}

/// The type of a property's value.
#[derive(Debug, Clone, Copy, PartialEq, Eq, Structural)]
pub enum ValueKind {
    /// A byte that is 0 or 1.
    Bool,
    /// A byte that is QoS 0 or 1.
    Qos,
    U16,
    U32,
    /// A UTF-8 string.
    Str,
    /// A UTF-8 string that is a valid topic name.
    Topic,
    /// Binary data.
    Bin,
    /// A variable byte integer.
    Int,
    /// A pair of UTF-8 strings.
    User,
}

/// A decoded property value.
pub enum PropertyValue {
    Bool(bool),
    Qos(QoS),
    U16(u16),
    U32(u32),
    Str(String),
    Topic(TopicName),
    Bin(Vec<u8>),
    Int(VarByteInt),
}

impl View for PropertyValue {
    type V = PropVal;

    open spec fn view(&self) -> PropVal {
        match self {
            PropertyValue::Bool(b) => PropVal::Bool(*b),
            PropertyValue::Qos(q) => PropVal::Qos(*q),
            PropertyValue::U16(v) => PropVal::U16(*v),
            PropertyValue::U32(v) => PropVal::U32(*v),
            PropertyValue::Str(s) => PropVal::Str(encode_utf8(s@)),
            PropertyValue::Topic(t) => PropVal::Str(t.bytes()),
            PropertyValue::Bin(b) => PropVal::Bin(b@),
            PropertyValue::Int(i) => PropVal::Int(i.spec_value()),
        }
    }
}

impl PropertyValue {
    /// Whether the value is of the type of the property.
    pub open spec fn fits(&self, id: PropertyId) -> bool {
        match (id.spec_kind(), *self) {
            (ValueKind::Bool, PropertyValue::Bool(_)) => true,
            (ValueKind::Qos, PropertyValue::Qos(_)) => true,
            (ValueKind::U16, PropertyValue::U16(_)) => true,
            (ValueKind::U32, PropertyValue::U32(_)) => true,
            (ValueKind::Str, PropertyValue::Str(_)) => true,
            (ValueKind::Topic, PropertyValue::Topic(_)) => true,
            (ValueKind::Bin, PropertyValue::Bin(_)) => true,
            (ValueKind::Int, PropertyValue::Int(_)) => true,
            _ => false,
        }
    }
}

pub open spec fn ov_bool(o: Option<bool>) -> Option<PropVal> {
    match o {
        Some(b) => Some(PropVal::Bool(b)),
        None => None,
    }
}

pub open spec fn ov_qos(o: Option<QoS>) -> Option<PropVal> {
    match o {
        Some(q) => Some(PropVal::Qos(q)),
        None => None,
    }
}

pub open spec fn ov_u16(o: Option<u16>) -> Option<PropVal> {
    match o {
        Some(v) => Some(PropVal::U16(v)),
        None => None,
    }
}

pub open spec fn ov_u32(o: Option<u32>) -> Option<PropVal> {
    match o {
        Some(v) => Some(PropVal::U32(v)),
        None => None,
    }
}

pub open spec fn ov_str(o: Option<String>) -> Option<PropVal> {
    match o {
        Some(s) => Some(PropVal::Str(encode_utf8(s@))),
        None => None,
    }
}

pub open spec fn ov_topic(o: Option<TopicName>) -> Option<PropVal> {
    match o {
        Some(t) => Some(PropVal::Str(t.bytes())),
        None => None,
    }
}

pub open spec fn ov_bin(o: Option<Vec<u8>>) -> Option<PropVal> {
    match o {
        Some(b) => Some(PropVal::Bin(b@)),
        None => None,
    }
}

pub open spec fn ov_int(o: Option<VarByteInt>) -> Option<PropVal> {
    match o {
        Some(i) => Some(PropVal::Int(i.spec_value())),
        None => None,
    }
}

/// The user properties as pairs of bytes.
pub open spec fn users_view(u: Vec<UserProperty>) -> Seq<(Seq<u8>, Seq<u8>)> {
    u@.map_values(|p: UserProperty| p@)
}

/// The encoding of a value.
pub open spec fn value_bytes(v: PropVal) -> Seq<u8> {
    match v {
        PropVal::Bool(b) => seq![if b { 1u8 } else { 0u8 }],
        PropVal::Qos(q) => seq![q.spec_u8()],
        PropVal::U16(x) => be16(x as int),
        PropVal::U32(x) => be32(x as int),
        PropVal::Str(s) => field(s),
        PropVal::Bin(s) => field(s),
        PropVal::Int(x) => var_int(x as nat),
    }
}

/// The encoding of a property if present: the identifier, then the value.
pub open spec fn opt_prop(id: PropertyId, o: Option<PropVal>) -> Seq<u8> {
    match o {
        Some(v) => seq![id.spec_u8()] + value_bytes(v),
        None => Seq::empty(),
    }
}

/// The encoding of one property of a set.
pub open spec fn prop_bytes(m: PropsModel, id: PropertyId) -> Seq<u8> {
    opt_prop(id, m.get(id))
}

/// The encoding of the properties of a set in the given order.
pub open spec fn fields_bytes(m: PropsModel, order: Seq<PropertyId>) -> Seq<u8>
    decreases order.len(),
{
    if order.len() == 0 {
        Seq::empty()
    } else {
        fields_bytes(m, order.drop_last()) + prop_bytes(m, order.last())
    }
}

/// The encoding of a user property.
pub open spec fn user_bytes(u: (Seq<u8>, Seq<u8>)) -> Seq<u8> {
    seq![0x26u8] + field(u.0) + field(u.1)
}

/// The encoding of user properties in order.
pub open spec fn users_bytes(us: Seq<(Seq<u8>, Seq<u8>)>) -> Seq<u8>
    decreases us.len(),
{
    if us.len() == 0 {
        Seq::empty()
    } else {
        users_bytes(us.drop_last()) + user_bytes(us.last())
    }
}

/// The properties after their length: the others in order, then the user
/// properties.
pub open spec fn props_body(m: PropsModel, order: Seq<PropertyId>) -> Seq<u8> {
    fields_bytes(m, order) + users_bytes(m.user_properties)
}

/// The encoding of properties: their length, then the properties.
pub open spec fn props_encode(m: PropsModel, order: Seq<PropertyId>) -> Seq<u8> {
    var_int(props_body(m, order).len()) + props_body(m, order)
}

/// Decodes the value of a property other than a user property.
pub open spec fn sp_value(d: Seq<u8>, off: int, id: PropertyId) -> VResult<PropVal> {
    match id.spec_kind() {
        ValueKind::Bool => match sp_u8(d, off) {
            Ok((b, o)) => if b > 1 {
                v5err(ErrorV5::InvalidByteProperty(id, b))
            } else {
                Ok((PropVal::Bool(b == 1), o))
            },
            Err(e) => cerr(e),
        },
        ValueKind::Qos => match sp_u8(d, off) {
            Ok((b, o)) => if b > 1 {
                v5err(ErrorV5::InvalidByteProperty(id, b))
            } else {
                Ok((PropVal::Qos(if b == 0 { QoS::Level0 } else { QoS::Level1 }), o))
            },
            Err(e) => cerr(e),
        },
        ValueKind::U16 => match sp_u16(d, off) {
            Ok((v, o)) => Ok((PropVal::U16(v), o)),
            Err(e) => cerr(e),
        },
        ValueKind::U32 => match sp_u32(d, off) {
            Ok((v, o)) => Ok((PropVal::U32(v), o)),
            Err(e) => cerr(e),
        },
        ValueKind::Str => match sp_string(d, off) {
            Ok((s, o)) => Ok((PropVal::Str(s), o)),
            Err(e) => cerr(e),
        },
        ValueKind::Topic => match sp_string(d, off) {
            Ok((s, o)) => if topic_name_valid(s) {
                Ok((PropVal::Str(s), o))
            } else {
                v5err(ErrorV5::InvalidResponseTopic)
            },
            Err(e) => cerr(e),
        },
        ValueKind::Bin => match sp_bytes(d, off) {
            Ok((s, o)) => Ok((PropVal::Bin(s), o)),
            Err(e) => cerr(e),
        },
        ValueKind::Int => match sp_var_int(d, off) {
            Ok((v, o)) => Ok((PropVal::Int(v as u32), o)),
            Err(e) => cerr(e),
        },
        ValueKind::User => cerr(crate::error::Error::eof()),
    }
}

/// The length that a value adds to the properties: its encoded length as
/// the encoder writes it.
pub open spec fn val_len(v: PropVal) -> nat {
    match v {
        PropVal::Bool(_) => 1,
        PropVal::Qos(_) => 1,
        PropVal::U16(_) => 2,
        PropVal::U32(_) => 4,
        PropVal::Str(s) => 2 + s.len(),
        PropVal::Bin(s) => 2 + s.len(),
        PropVal::Int(x) => var_int_size(x as nat),
    }
}

/// Decodes properties from `pos` on, with `len` of `total` counted so far,
/// into `m`.
#[verifier::opaque]
pub open spec fn sp_props_from(
    d: Seq<u8>,
    pos: int,
    total: nat,
    len: nat,
    m: PropsModel,
    kind: PropsKind,
) -> VResult<PropsModel>
    decreases (if len < total { total - len } else { 0 }),
{
    if len < total {
        match sp_u8(d, pos) {
            Err(e) => cerr(e),
            Ok((b, p1)) => match PropertyId::spec_from_u8(b) {
                None => v5err(ErrorV5::InvalidPropertyId(b)),
                Some(id) => if id == PropertyId::UserProperty {
                    match sp_string(d, p1) {
                        Err(e) => cerr(e),
                        Ok((name, p2)) => match sp_string(d, p2) {
                            Err(e) => cerr(e),
                            Ok((value, p3)) => sp_props_from(
                                d,
                                p3,
                                total,
                                len + 5 + name.len() + value.len(),
                                m.add_user(name, value),
                                kind,
                            ),
                        },
                    }
                } else if !allowed(kind, id) {
                    v5err(kind.not_allowed(id))
                } else if m.get(id) is Some {
                    v5err(ErrorV5::DuplicatedProperty(id))
                } else {
                    match sp_value(d, p1, id) {
                        Err(e) => Err(e),
                        Ok((v, p2)) => sp_props_from(
                            d,
                            p2,
                            total,
                            len + 1 + val_len(v),
                            m.set(id, v),
                            kind,
                        ),
                    }
                },
            },
        }
    } else if len == total {
        Ok((m, pos))
    } else {
        v5err(ErrorV5::InvalidPropertyLength(total as u32))
    }
}

/// Decodes properties at `off`: their length, then the properties. Gives the
/// properties, their length and the number of bytes that the length took.
pub open spec fn sp_properties(d: Seq<u8>, off: int, kind: PropsKind) -> VResult<(PropsModel, nat, nat)> {
    match sp_var_int(d, off) {
        Err(e) => cerr(e),
        Ok((total, p)) => match sp_props_from(d, p, total, 0, PropsModel::empty(), kind) {
            Ok((m, next)) => Ok(((m, total, (p - off) as nat), next)),
            Err(e) => Err(e),
        },
    }
}

/// Decoded properties are those that the kind takes.
#[verifier::rlimit(50)]
proof fn lemma_props_from_restricted(
    d: Seq<u8>,
    pos: int,
    total: nat,
    len: nat,
    m: PropsModel,
    kind: PropsKind,
)
    requires
        m.restrict(kind) == m,
    ensures
        sp_props_from(d, pos, total, len, m, kind) matches Ok((r, _)) ==> r.restrict(kind) == r,
    decreases (if len < total { total - len } else { 0 }),
{
    reveal(sp_props_from);
    if len < total {
        if let Ok((b, p1)) = sp_u8(d, pos) {
            if let Some(id) = PropertyId::spec_from_u8(b) {
                if id == PropertyId::UserProperty {
                    if let Ok((name, p2)) = sp_string(d, p1) {
                        if let Ok((value, p3)) = sp_string(d, p2) {
                            let m2 = m.add_user(name, value);
                            assert(m2.restrict(kind) == m2);
                            lemma_props_from_restricted(
                                d,
                                p3,
                                total,
                                len + 5 + name.len() + value.len(),
                                m2,
                                kind,
                            );
                        }
                    }
                } else if allowed(kind, id) && m.get(id) is None {
                    if let Ok((v, p2)) = sp_value(d, p1, id) {
                        let m2 = m.set(id, v);
                        assert(m2.restrict(kind) == m2);
                        lemma_props_from_restricted(d, p2, total, len + 1 + val_len(v), m2, kind);
                    }
                }
            }
        }
    }
}

pub proof fn lemma_restricted(d: Seq<u8>, off: int, kind: PropsKind)
    ensures
        sp_properties(d, off, kind) matches Ok(((m, _, _), _)) ==> m.restrict(kind) == m,
{
    if let Ok((total, p)) = sp_var_int(d, off) {
        assert(PropsModel::empty().restrict(kind) == PropsModel::empty());
        lemma_props_from_restricted(d, p, total, 0, PropsModel::empty(), kind);
    }
}

/// Reads the value of a property other than a user property.
fn read_value(buf: &mut PacketBuf, id: PropertyId) -> (r: Result<PropertyValue, ErrorV5>)
    requires
        id != PropertyId::UserProperty,
    ensures
        final(buf).bytes() == old(buf).bytes(),
        match sp_value(old(buf).bytes(), old(buf).pos(), id) {
            Ok((v, next)) => r matches Ok(x) && x@ == v && x.fits(id) && final(buf).pos() == next,
            Err(e) => r matches Err(x) && x.is(e),
        },
{
    match id.kind() {
        ValueKind::Bool => {
            let b = match buf.read_u8() {
                Ok(b) => b,
                Err(e) => return Err(ErrorV5::Common(e)),
            };
            if b > 1 {
                Err(ErrorV5::InvalidByteProperty(id, b))
            } else {
                Ok(PropertyValue::Bool(b == 1))
            }
        },
        ValueKind::Qos => {
            let b = match buf.read_u8() {
                Ok(b) => b,
                Err(e) => return Err(ErrorV5::Common(e)),
            };
            if b > 1 {
                Err(ErrorV5::InvalidByteProperty(id, b))
            } else if b == 0 {
                Ok(PropertyValue::Qos(QoS::Level0))
            } else {
                Ok(PropertyValue::Qos(QoS::Level1))
            }
        },
        ValueKind::U16 => match buf.read_u16() {
            Ok(v) => Ok(PropertyValue::U16(v)),
            Err(e) => Err(ErrorV5::Common(e)),
        },
        ValueKind::U32 => match buf.read_u32() {
            Ok(v) => Ok(PropertyValue::U32(v)),
            Err(e) => Err(ErrorV5::Common(e)),
        },
        ValueKind::Str => match read_owned_string(buf) {
            Ok(s) => Ok(PropertyValue::Str(s)),
            Err(e) => Err(ErrorV5::Common(e)),
        },
        ValueKind::Topic => {
            let s = match buf.read_string() {
                Ok(s) => s,
                Err(e) => return Err(ErrorV5::Common(e)),
            };
            match TopicName::from_str(s) {
                Ok(t) => {
                    proof {
                        t.lemma_bytes();
                    }
                    Ok(PropertyValue::Topic(t))
                },
                Err(_) => Err(ErrorV5::InvalidResponseTopic),
            }
        },
        ValueKind::Bin => match read_owned_bytes(buf) {
            Ok(b) => Ok(PropertyValue::Bin(b)),
            Err(e) => Err(ErrorV5::Common(e)),
        },
        ValueKind::Int => match buf.decode_var_int() {
            Ok((v, _)) => match VarByteInt::try_new(v) {
                Ok(i) => Ok(PropertyValue::Int(i)),
                Err(e) => Err(e),
            },
            Err(e) => Err(ErrorV5::Common(e)),
        },
        ValueKind::User => Err(ErrorV5::Common(crate::error::Error::IoError(crate::error::IoErrorKind::UnexpectedEof))),
    }
}

/// The length that a value adds to the properties.
fn value_len(v: &PropertyValue) -> (r: usize)
    requires
        val_len(v@) <= 65537,
    ensures
        r == val_len(v@),
{
    match v {
        PropertyValue::Bool(_) => 1,
        PropertyValue::Qos(_) => 1,
        PropertyValue::U16(_) => 2,
        PropertyValue::U32(_) => 4,
        PropertyValue::Str(s) => 2 + s.as_str().len(),
        PropertyValue::Topic(t) => 2 + t.len(),
        PropertyValue::Bin(b) => 2 + b.len(),
        PropertyValue::Int(i) => {
            let x = i.value();
            proof {
                lemma_var_int_len(x as nat);
            }
            var_int_len(x as usize).unwrap()
        },
    }
}

} // verus!


verus! {

/// A decoded value is at most a two byte length and 65,535 bytes long.
proof fn lemma_value_len(d: Seq<u8>, off: int, id: PropertyId)
    ensures
        sp_value(d, off, id) matches Ok((v, _)) ==> val_len(v) <= 65537,
{
    if let Ok((v, next)) = sp_value(d, off, id) {
        if let Ok((l, n1)) = sp_u16(d, off) {
            assert(l <= 65535);
        }
        if let PropVal::Int(x) = v {
            assert(var_int_size(x as nat) <= 4);
        }
    }
}

/// A decoded string is at most 65,535 bytes long.
proof fn lemma_string_len(d: Seq<u8>, off: int)
    ensures
        sp_string(d, off) matches Ok((s, _)) ==> s.len() <= 65535,
{
    if let Ok((l, n1)) = sp_u16(d, off) {
        assert(l <= 65535);
    }
}

/// Decodes properties at the cursor: their length, then the properties.
/// Gives the properties, their length and the number of bytes that the
/// length took.
pub fn decode_properties(buf: &mut PacketBuf, kind: PropsKind) -> (r: Result<
    (PropertySet, u32, usize),
    ErrorV5,
>)
    ensures
        final(buf).bytes() == old(buf).bytes(),
        match sp_properties(old(buf).bytes(), old(buf).pos(), kind) {
            Ok(((m, total, nb), next)) => r matches Ok((s, t, n)) && s@ == m && t == total && n
                == nb && final(buf).pos() == next,
            Err(e) => r matches Err(x) && x.is(e),
        },
        r matches Ok((_, t, _)) ==> t < 268435456,
{
    let ghost d = buf.bytes();
    let ghost start = buf.pos();
    let (total, nbytes) = match buf.decode_var_int() {
        Ok(v) => v,
        Err(e) => return Err(ErrorV5::Common(e)),
    };
    let mut set = PropertySet::new();
    let mut len: usize = 0;
    while len < total as usize
        invariant
            buf.bytes() == d,
            d == old(buf).bytes(),
            start == old(buf).pos(),
            total < 268435456,
            len < total + 131076,
            sp_var_int(d, start) matches Ok((t, p)) && t == total && p - start == nbytes,
            sp_properties(d, start, kind) == match sp_props_from(
                d,
                buf.pos(),
                total as nat,
                len as nat,
                set@,
                kind,
            ) {
                Ok((m, next)) => Ok::<((PropsModel, nat, nat), int), DecodeErrV5>(
                    ((m, total as nat, nbytes as nat), next),
                ),
                Err(e) => Err(e),
            },
        decreases total + 131076 - len,
    {
        let ghost pos0 = buf.pos();
        proof {
            reveal(sp_props_from);
        }
        let b = match buf.read_u8() {
            Ok(b) => b,
            Err(e) => return Err(ErrorV5::Common(e)),
        };
        let id = PropertyId::from_u8(b)?;
        if id == PropertyId::UserProperty {
            let ghost p1 = buf.pos();
            proof {
                lemma_string_len(d, p1);
            }
            let name = match read_owned_string(buf) {
                Ok(s) => s,
                Err(e) => return Err(ErrorV5::Common(e)),
            };
            let ghost p2 = buf.pos();
            proof {
                lemma_string_len(d, p2);
            }
            let value = match read_owned_string(buf) {
                Ok(s) => s,
                Err(e) => return Err(ErrorV5::Common(e)),
            };
            let n = 5 + name.as_str().len() + value.as_str().len();
            let ghost users0 = set.user_properties@;
            let u = UserProperty { name, value };
            set.user_properties.push(u);
            proof {
                assert(set.user_properties@.map_values(|p: UserProperty| p@) =~= users0.map_values(
                    |p: UserProperty| p@,
                ).push(u@));
            }
            len = len + n;
        } else {
            if !is_allowed(kind, id) {
                return Err(kind.not_allowed_err(id));
            }
            if set.has(id) {
                return Err(ErrorV5::DuplicatedProperty(id));
            }
            let ghost p1 = buf.pos();
            proof {
                lemma_value_len(d, p1, id);
            }
            let v = read_value(buf, id)?;
            len = len + 1 + value_len(&v);
            set.set(id, v);
        }
    }
    proof {
        reveal(sp_props_from);
    }
    if len != total as usize {
        return Err(ErrorV5::InvalidPropertyLength(total));
    }
    Ok((set, total, nbytes))
}

fn put_bool(buf: &mut Vec<u8>, id: PropertyId, v: Option<bool>)
    ensures
        final(buf)@ == old(buf)@ + opt_prop(id, ov_bool(v)),
{
    if let Some(b) = v {
        write_u8(buf, id.to_u8());
        write_u8(buf, if b { 1 } else { 0 });
        assert(buf@ =~= old(buf)@ + opt_prop(id, ov_bool(v)));
    } else {
        assert(buf@ =~= old(buf)@ + opt_prop(id, ov_bool(v)));
    }
}

fn put_qos(buf: &mut Vec<u8>, id: PropertyId, v: Option<QoS>)
    ensures
        final(buf)@ == old(buf)@ + opt_prop(id, ov_qos(v)),
{
    if let Some(q) = v {
        write_u8(buf, id.to_u8());
        write_u8(buf, q.to_u8());
        assert(buf@ =~= old(buf)@ + opt_prop(id, ov_qos(v)));
    } else {
        assert(buf@ =~= old(buf)@ + opt_prop(id, ov_qos(v)));
    }
}

fn put_u16(buf: &mut Vec<u8>, id: PropertyId, v: Option<u16>)
    ensures
        final(buf)@ == old(buf)@ + opt_prop(id, ov_u16(v)),
{
    if let Some(x) = v {
        write_u8(buf, id.to_u8());
        write_u16(buf, x);
        assert(buf@ =~= old(buf)@ + opt_prop(id, ov_u16(v)));
    } else {
        assert(buf@ =~= old(buf)@ + opt_prop(id, ov_u16(v)));
    }
}

fn put_u32(buf: &mut Vec<u8>, id: PropertyId, v: Option<u32>)
    ensures
        final(buf)@ == old(buf)@ + opt_prop(id, ov_u32(v)),
{
    if let Some(x) = v {
        write_u8(buf, id.to_u8());
        write_u32(buf, x);
        assert(buf@ =~= old(buf)@ + opt_prop(id, ov_u32(v)));
    } else {
        assert(buf@ =~= old(buf)@ + opt_prop(id, ov_u32(v)));
    }
}

fn put_str(buf: &mut Vec<u8>, id: PropertyId, v: &Option<String>)
    ensures
        final(buf)@ == old(buf)@ + opt_prop(id, ov_str(*v)),
{
    if let Some(s) = v {
        write_u8(buf, id.to_u8());
        write_bytes(buf, s.as_str().as_bytes());
        assert(buf@ =~= old(buf)@ + opt_prop(id, ov_str(*v)));
    } else {
        assert(buf@ =~= old(buf)@ + opt_prop(id, ov_str(*v)));
    }
}

fn put_topic(buf: &mut Vec<u8>, id: PropertyId, v: &Option<TopicName>)
    ensures
        final(buf)@ == old(buf)@ + opt_prop(id, ov_topic(*v)),
{
    if let Some(t) = v {
        write_u8(buf, id.to_u8());
        write_bytes(buf, t.as_bytes());
        assert(buf@ =~= old(buf)@ + opt_prop(id, ov_topic(*v)));
    } else {
        assert(buf@ =~= old(buf)@ + opt_prop(id, ov_topic(*v)));
    }
}

fn put_bin(buf: &mut Vec<u8>, id: PropertyId, v: &Option<Vec<u8>>)
    ensures
        final(buf)@ == old(buf)@ + opt_prop(id, ov_bin(*v)),
{
    if let Some(b) = v {
        write_u8(buf, id.to_u8());
        write_bytes(buf, b.as_slice());
        assert(buf@ =~= old(buf)@ + opt_prop(id, ov_bin(*v)));
    } else {
        assert(buf@ =~= old(buf)@ + opt_prop(id, ov_bin(*v)));
    }
}

fn put_int(buf: &mut Vec<u8>, id: PropertyId, v: Option<VarByteInt>)
    ensures
        final(buf)@ == old(buf)@ + opt_prop(id, ov_int(v)),
{
    if let Some(i) = v {
        write_u8(buf, id.to_u8());
        write_var_int(buf, i.value() as usize);
        assert(buf@ =~= old(buf)@ + opt_prop(id, ov_int(v)));
    } else {
        assert(buf@ =~= old(buf)@ + opt_prop(id, ov_int(v)));
    }
}

/// Appends the user properties in order.
fn put_users(buf: &mut Vec<u8>, users: &Vec<UserProperty>)
    ensures
        final(buf)@ == old(buf)@ + users_bytes(users_view(*users)),
{
    let ghost start = buf@;
    let ghost us = users_view(*users);
    let mut i: usize = 0;
    while i < users.len()
        invariant
            i <= users.len(),
            us == users_view(*users),
            start == old(buf)@,
            buf@ == start + users_bytes(us.take(i as int)),
        decreases users.len() - i,
    {
        let u = &users[i];
        write_u8(buf, 0x26);
        write_bytes(buf, u.name.as_str().as_bytes());
        write_bytes(buf, u.value.as_str().as_bytes());
        proof {
            assert(us.take(i + 1).drop_last() =~= us.take(i as int));
            assert(us[i as int] == u@);
        }
        i = i + 1;
        assert(buf@ =~= start + users_bytes(us.take(i as int)));
    }
    assert(us.take(users.len() as int) =~= us);
}

/// The length of user properties grows with their number.
proof fn lemma_users_len_mono(us: Seq<(Seq<u8>, Seq<u8>)>, i: int)
    requires
        0 <= i <= us.len(),
    ensures
        users_bytes(us.take(i)).len() <= users_bytes(us).len(),
    decreases us.len() - i,
{
    if i < us.len() {
        lemma_users_len_mono(us, i + 1);
        assert(us.take(i + 1).drop_last() =~= us.take(i));
    } else {
        assert(us.take(i) =~= us);
    }
}

/// The encoded length of user properties.
fn users_len(users: &Vec<UserProperty>) -> (r: usize)
    requires
        users_bytes(users_view(*users)).len() < VAR_INT_LIMIT,
    ensures
        r == users_bytes(users_view(*users)).len(),
{
    let ghost us = users_view(*users);
    let mut n: usize = 0;
    let mut i: usize = 0;
    while i < users.len()
        invariant
            i <= users.len(),
            us == users_view(*users),
            users_bytes(us).len() < VAR_INT_LIMIT,
            n == users_bytes(us.take(i as int)).len(),
        decreases users.len() - i,
    {
        let u = &users[i];
        proof {
            assert(us.take(i + 1).drop_last() =~= us.take(i as int));
            assert(us[i as int] == u@);
            lemma_users_len_mono(us, i + 1);
        }
        n = n + 5 + u.name.as_str().len() + u.value.as_str().len();
        i = i + 1;
    }
    assert(us.take(users.len() as int) =~= us);
    n
}

fn len_bool(o: Option<bool>, id: PropertyId) -> (r: usize)
    ensures
        r == opt_prop(id, ov_bool(o)).len(),
{
    if o.is_some() { 2 } else { 0 }
}

fn len_qos(o: Option<QoS>, id: PropertyId) -> (r: usize)
    ensures
        r == opt_prop(id, ov_qos(o)).len(),
{
    if o.is_some() { 2 } else { 0 }
}

fn len_u16(o: Option<u16>, id: PropertyId) -> (r: usize)
    ensures
        r == opt_prop(id, ov_u16(o)).len(),
{
    if o.is_some() { 3 } else { 0 }
}

fn len_u32(o: Option<u32>, id: PropertyId) -> (r: usize)
    ensures
        r == opt_prop(id, ov_u32(o)).len(),
{
    if o.is_some() { 5 } else { 0 }
}

fn len_str(o: &Option<String>, id: PropertyId) -> (r: usize)
    requires
        opt_prop(id, ov_str(*o)).len() < VAR_INT_LIMIT,
    ensures
        r == opt_prop(id, ov_str(*o)).len(),
{
    match o {
        Some(s) => 3 + s.as_str().len(),
        None => 0,
    }
}

fn len_topic(o: &Option<TopicName>, id: PropertyId) -> (r: usize)
    ensures
        r == opt_prop(id, ov_topic(*o)).len(),
{
    match o {
        Some(t) => 3 + t.len(),
        None => 0,
    }
}

fn len_bin(o: &Option<Vec<u8>>, id: PropertyId) -> (r: usize)
    requires
        opt_prop(id, ov_bin(*o)).len() < VAR_INT_LIMIT,
    ensures
        r == opt_prop(id, ov_bin(*o)).len(),
{
    match o {
        Some(b) => 3 + b.len(),
        None => 0,
    }
}

fn len_int(o: Option<VarByteInt>, id: PropertyId) -> (r: usize)
    ensures
        r == opt_prop(id, ov_int(o)).len(),
{
    match o {
        Some(i) => {
            let x = i.value();
            proof {
                lemma_var_int_len(x as nat);
            }
            1 + var_int_len(x as usize).unwrap()
        },
        None => 0,
    }
}

} // verus!

verus! {

/// Properties as values: every property that a packet can carry, by field.
pub struct PropsModel {
    pub payload_is_utf8: Option<PropVal>,
    pub message_expiry_interval: Option<PropVal>,
    pub content_type: Option<PropVal>,
    pub response_topic: Option<PropVal>,
    pub correlation_data: Option<PropVal>,
    pub subscription_id: Option<PropVal>,
    pub session_expiry_interval: Option<PropVal>,
    pub assigned_client_id: Option<PropVal>,
    pub server_keep_alive: Option<PropVal>,
    pub auth_method: Option<PropVal>,
    pub auth_data: Option<PropVal>,
    pub request_problem_info: Option<PropVal>,
    pub delay_interval: Option<PropVal>,
    pub request_response_info: Option<PropVal>,
    pub response_info: Option<PropVal>,
    pub server_reference: Option<PropVal>,
    pub reason_string: Option<PropVal>,
    pub receive_max: Option<PropVal>,
    pub topic_alias_max: Option<PropVal>,
    pub topic_alias: Option<PropVal>,
    pub max_qos: Option<PropVal>,
    pub retain_available: Option<PropVal>,
    pub max_packet_size: Option<PropVal>,
    pub wildcard_subscription_available: Option<PropVal>,
    pub subscription_id_available: Option<PropVal>,
    pub shared_subscription_available: Option<PropVal>,
    pub user_properties: Seq<(Seq<u8>, Seq<u8>)>,
}

impl PropsModel {
    /// No property.
    pub open spec fn empty() -> PropsModel {
        PropsModel {
            payload_is_utf8: None,
            message_expiry_interval: None,
            content_type: None,
            response_topic: None,
            correlation_data: None,
            subscription_id: None,
            session_expiry_interval: None,
            assigned_client_id: None,
            server_keep_alive: None,
            auth_method: None,
            auth_data: None,
            request_problem_info: None,
            delay_interval: None,
            request_response_info: None,
            response_info: None,
            server_reference: None,
            reason_string: None,
            receive_max: None,
            topic_alias_max: None,
            topic_alias: None,
            max_qos: None,
            retain_available: None,
            max_packet_size: None,
            wildcard_subscription_available: None,
            subscription_id_available: None,
            shared_subscription_available: None,
            user_properties: Seq::empty(),
        }
    }

    /// The value of a property other than a user property.
    pub open spec fn get(self, id: PropertyId) -> Option<PropVal> {
        match id {
            PropertyId::PayloadFormatIndicator => self.payload_is_utf8,
            PropertyId::MessageExpiryInterval => self.message_expiry_interval,
            PropertyId::ContentType => self.content_type,
            PropertyId::ResponseTopic => self.response_topic,
            PropertyId::CorrelationData => self.correlation_data,
            PropertyId::SubscriptionIdentifier => self.subscription_id,
            PropertyId::SessionExpiryInterval => self.session_expiry_interval,
            PropertyId::AssignedClientIdentifier => self.assigned_client_id,
            PropertyId::ServerKeepAlive => self.server_keep_alive,
            PropertyId::AuthenticationMethod => self.auth_method,
            PropertyId::AuthenticationData => self.auth_data,
            PropertyId::RequestProblemInformation => self.request_problem_info,
            PropertyId::WillDelayInterval => self.delay_interval,
            PropertyId::RequestResponseInformation => self.request_response_info,
            PropertyId::ResponseInformation => self.response_info,
            PropertyId::ServerReference => self.server_reference,
            PropertyId::ReasonString => self.reason_string,
            PropertyId::ReceiveMaximum => self.receive_max,
            PropertyId::TopicAliasMaximum => self.topic_alias_max,
            PropertyId::TopicAlias => self.topic_alias,
            PropertyId::MaximumQoS => self.max_qos,
            PropertyId::RetainAvailable => self.retain_available,
            PropertyId::MaximumPacketSize => self.max_packet_size,
            PropertyId::WildcardSubscriptionAvailable => self.wildcard_subscription_available,
            PropertyId::SubscriptionIdentifierAvailable => self.subscription_id_available,
            PropertyId::SharedSubscriptionAvailable => self.shared_subscription_available,
            PropertyId::UserProperty => None,
        }
    }

    /// The properties with one more property other than a user property.
    pub open spec fn set(self, id: PropertyId, v: PropVal) -> PropsModel {
        match id {
            PropertyId::PayloadFormatIndicator => PropsModel { payload_is_utf8: Some(v), ..self },
            PropertyId::MessageExpiryInterval => PropsModel { message_expiry_interval: Some(v), ..self },
            PropertyId::ContentType => PropsModel { content_type: Some(v), ..self },
            PropertyId::ResponseTopic => PropsModel { response_topic: Some(v), ..self },
            PropertyId::CorrelationData => PropsModel { correlation_data: Some(v), ..self },
            PropertyId::SubscriptionIdentifier => PropsModel { subscription_id: Some(v), ..self },
            PropertyId::SessionExpiryInterval => PropsModel { session_expiry_interval: Some(v), ..self },
            PropertyId::AssignedClientIdentifier => PropsModel { assigned_client_id: Some(v), ..self },
            PropertyId::ServerKeepAlive => PropsModel { server_keep_alive: Some(v), ..self },
            PropertyId::AuthenticationMethod => PropsModel { auth_method: Some(v), ..self },
            PropertyId::AuthenticationData => PropsModel { auth_data: Some(v), ..self },
            PropertyId::RequestProblemInformation => PropsModel { request_problem_info: Some(v), ..self },
            PropertyId::WillDelayInterval => PropsModel { delay_interval: Some(v), ..self },
            PropertyId::RequestResponseInformation => PropsModel { request_response_info: Some(v), ..self },
            PropertyId::ResponseInformation => PropsModel { response_info: Some(v), ..self },
            PropertyId::ServerReference => PropsModel { server_reference: Some(v), ..self },
            PropertyId::ReasonString => PropsModel { reason_string: Some(v), ..self },
            PropertyId::ReceiveMaximum => PropsModel { receive_max: Some(v), ..self },
            PropertyId::TopicAliasMaximum => PropsModel { topic_alias_max: Some(v), ..self },
            PropertyId::TopicAlias => PropsModel { topic_alias: Some(v), ..self },
            PropertyId::MaximumQoS => PropsModel { max_qos: Some(v), ..self },
            PropertyId::RetainAvailable => PropsModel { retain_available: Some(v), ..self },
            PropertyId::MaximumPacketSize => PropsModel { max_packet_size: Some(v), ..self },
            PropertyId::WildcardSubscriptionAvailable => PropsModel { wildcard_subscription_available: Some(v), ..self },
            PropertyId::SubscriptionIdentifierAvailable => PropsModel { subscription_id_available: Some(v), ..self },
            PropertyId::SharedSubscriptionAvailable => PropsModel { shared_subscription_available: Some(v), ..self },
            PropertyId::UserProperty => self,
        }
    }

    /// The properties with one more user property.
    pub open spec fn add_user(self, name: Seq<u8>, value: Seq<u8>) -> PropsModel {
        PropsModel { user_properties: self.user_properties.push((name, value)), ..self }
    }

    /// The properties that a packet kind takes; the others are dropped.
    pub open spec fn restrict(self, kind: PropsKind) -> PropsModel {
        PropsModel {
            payload_is_utf8: if allowed(kind, PropertyId::PayloadFormatIndicator) { self.payload_is_utf8 } else { None },
            message_expiry_interval: if allowed(kind, PropertyId::MessageExpiryInterval) { self.message_expiry_interval } else { None },
            content_type: if allowed(kind, PropertyId::ContentType) { self.content_type } else { None },
            response_topic: if allowed(kind, PropertyId::ResponseTopic) { self.response_topic } else { None },
            correlation_data: if allowed(kind, PropertyId::CorrelationData) { self.correlation_data } else { None },
            subscription_id: if allowed(kind, PropertyId::SubscriptionIdentifier) { self.subscription_id } else { None },
            session_expiry_interval: if allowed(kind, PropertyId::SessionExpiryInterval) { self.session_expiry_interval } else { None },
            assigned_client_id: if allowed(kind, PropertyId::AssignedClientIdentifier) { self.assigned_client_id } else { None },
            server_keep_alive: if allowed(kind, PropertyId::ServerKeepAlive) { self.server_keep_alive } else { None },
            auth_method: if allowed(kind, PropertyId::AuthenticationMethod) { self.auth_method } else { None },
            auth_data: if allowed(kind, PropertyId::AuthenticationData) { self.auth_data } else { None },
            request_problem_info: if allowed(kind, PropertyId::RequestProblemInformation) { self.request_problem_info } else { None },
            delay_interval: if allowed(kind, PropertyId::WillDelayInterval) { self.delay_interval } else { None },
            request_response_info: if allowed(kind, PropertyId::RequestResponseInformation) { self.request_response_info } else { None },
            response_info: if allowed(kind, PropertyId::ResponseInformation) { self.response_info } else { None },
            server_reference: if allowed(kind, PropertyId::ServerReference) { self.server_reference } else { None },
            reason_string: if allowed(kind, PropertyId::ReasonString) { self.reason_string } else { None },
            receive_max: if allowed(kind, PropertyId::ReceiveMaximum) { self.receive_max } else { None },
            topic_alias_max: if allowed(kind, PropertyId::TopicAliasMaximum) { self.topic_alias_max } else { None },
            topic_alias: if allowed(kind, PropertyId::TopicAlias) { self.topic_alias } else { None },
            max_qos: if allowed(kind, PropertyId::MaximumQoS) { self.max_qos } else { None },
            retain_available: if allowed(kind, PropertyId::RetainAvailable) { self.retain_available } else { None },
            max_packet_size: if allowed(kind, PropertyId::MaximumPacketSize) { self.max_packet_size } else { None },
            wildcard_subscription_available: if allowed(kind, PropertyId::WildcardSubscriptionAvailable) { self.wildcard_subscription_available } else { None },
            subscription_id_available: if allowed(kind, PropertyId::SubscriptionIdentifierAvailable) { self.subscription_id_available } else { None },
            shared_subscription_available: if allowed(kind, PropertyId::SharedSubscriptionAvailable) { self.shared_subscription_available } else { None },
            user_properties: self.user_properties,
        }
    }
}

impl PropertyId {
    /// The type of the property's value.
    pub open spec fn spec_kind(self) -> ValueKind {
        match self {
            PropertyId::PayloadFormatIndicator => ValueKind::Bool,
            PropertyId::MessageExpiryInterval => ValueKind::U32,
            PropertyId::ContentType => ValueKind::Str,
            PropertyId::ResponseTopic => ValueKind::Topic,
            PropertyId::CorrelationData => ValueKind::Bin,
            PropertyId::SubscriptionIdentifier => ValueKind::Int,
            PropertyId::SessionExpiryInterval => ValueKind::U32,
            PropertyId::AssignedClientIdentifier => ValueKind::Str,
            PropertyId::ServerKeepAlive => ValueKind::U16,
            PropertyId::AuthenticationMethod => ValueKind::Str,
            PropertyId::AuthenticationData => ValueKind::Bin,
            PropertyId::RequestProblemInformation => ValueKind::Bool,
            PropertyId::WillDelayInterval => ValueKind::U32,
            PropertyId::RequestResponseInformation => ValueKind::Bool,
            PropertyId::ResponseInformation => ValueKind::Str,
            PropertyId::ServerReference => ValueKind::Str,
            PropertyId::ReasonString => ValueKind::Str,
            PropertyId::ReceiveMaximum => ValueKind::U16,
            PropertyId::TopicAliasMaximum => ValueKind::U16,
            PropertyId::TopicAlias => ValueKind::U16,
            PropertyId::MaximumQoS => ValueKind::Qos,
            PropertyId::RetainAvailable => ValueKind::Bool,
            PropertyId::UserProperty => ValueKind::User,
            PropertyId::MaximumPacketSize => ValueKind::U32,
            PropertyId::WildcardSubscriptionAvailable => ValueKind::Bool,
            PropertyId::SubscriptionIdentifierAvailable => ValueKind::Bool,
            PropertyId::SharedSubscriptionAvailable => ValueKind::Bool,
        }
    }

    /// The type of the property's value.
    pub fn kind(self) -> (r: ValueKind)
        ensures
            r == self.spec_kind(),
    {
        match self {
            PropertyId::PayloadFormatIndicator => ValueKind::Bool,
            PropertyId::MessageExpiryInterval => ValueKind::U32,
            PropertyId::ContentType => ValueKind::Str,
            PropertyId::ResponseTopic => ValueKind::Topic,
            PropertyId::CorrelationData => ValueKind::Bin,
            PropertyId::SubscriptionIdentifier => ValueKind::Int,
            PropertyId::SessionExpiryInterval => ValueKind::U32,
            PropertyId::AssignedClientIdentifier => ValueKind::Str,
            PropertyId::ServerKeepAlive => ValueKind::U16,
            PropertyId::AuthenticationMethod => ValueKind::Str,
            PropertyId::AuthenticationData => ValueKind::Bin,
            PropertyId::RequestProblemInformation => ValueKind::Bool,
            PropertyId::WillDelayInterval => ValueKind::U32,
            PropertyId::RequestResponseInformation => ValueKind::Bool,
            PropertyId::ResponseInformation => ValueKind::Str,
            PropertyId::ServerReference => ValueKind::Str,
            PropertyId::ReasonString => ValueKind::Str,
            PropertyId::ReceiveMaximum => ValueKind::U16,
            PropertyId::TopicAliasMaximum => ValueKind::U16,
            PropertyId::TopicAlias => ValueKind::U16,
            PropertyId::MaximumQoS => ValueKind::Qos,
            PropertyId::RetainAvailable => ValueKind::Bool,
            PropertyId::UserProperty => ValueKind::User,
            PropertyId::MaximumPacketSize => ValueKind::U32,
            PropertyId::WildcardSubscriptionAvailable => ValueKind::Bool,
            PropertyId::SubscriptionIdentifierAvailable => ValueKind::Bool,
            PropertyId::SharedSubscriptionAvailable => ValueKind::Bool,
        }
    }
}

/// The packet kinds that carry properties; a will message is one of them.
#[derive(Debug, Clone, Copy, PartialEq, Eq, Structural)]
pub enum PropsKind {
    Connect,
    Will,
    Connack,
    Disconnect,
    Auth,
    Publish,
    Puback,
    Pubrec,
    Pubrel,
    Pubcomp,
    Subscribe,
    Suback,
    Unsubscribe,
    Unsuback,
}

/// Whether a packet kind takes a property (user properties aside).
pub open spec fn allowed(kind: PropsKind, id: PropertyId) -> bool {
    match kind {
        PropsKind::Connect => id == PropertyId::SessionExpiryInterval || id == PropertyId::ReceiveMaximum || id == PropertyId::MaximumPacketSize || id == PropertyId::TopicAliasMaximum || id == PropertyId::RequestResponseInformation || id == PropertyId::RequestProblemInformation || id == PropertyId::AuthenticationMethod || id == PropertyId::AuthenticationData,
        PropsKind::Will => id == PropertyId::WillDelayInterval || id == PropertyId::PayloadFormatIndicator || id == PropertyId::MessageExpiryInterval || id == PropertyId::ContentType || id == PropertyId::ResponseTopic || id == PropertyId::CorrelationData,
        PropsKind::Connack => id == PropertyId::SessionExpiryInterval || id == PropertyId::ReceiveMaximum || id == PropertyId::MaximumQoS || id == PropertyId::RetainAvailable || id == PropertyId::MaximumPacketSize || id == PropertyId::AssignedClientIdentifier || id == PropertyId::TopicAliasMaximum || id == PropertyId::ReasonString || id == PropertyId::WildcardSubscriptionAvailable || id == PropertyId::SubscriptionIdentifierAvailable || id == PropertyId::SharedSubscriptionAvailable || id == PropertyId::ServerKeepAlive || id == PropertyId::ResponseInformation || id == PropertyId::ServerReference || id == PropertyId::AuthenticationMethod || id == PropertyId::AuthenticationData,
        PropsKind::Disconnect => id == PropertyId::SessionExpiryInterval || id == PropertyId::ReasonString || id == PropertyId::ServerReference,
        PropsKind::Auth => id == PropertyId::AuthenticationMethod || id == PropertyId::AuthenticationData || id == PropertyId::ReasonString,
        PropsKind::Publish => id == PropertyId::PayloadFormatIndicator || id == PropertyId::MessageExpiryInterval || id == PropertyId::TopicAlias || id == PropertyId::ResponseTopic || id == PropertyId::CorrelationData || id == PropertyId::SubscriptionIdentifier || id == PropertyId::ContentType,
        PropsKind::Puback => id == PropertyId::ReasonString,
        PropsKind::Pubrec => id == PropertyId::ReasonString,
        PropsKind::Pubrel => id == PropertyId::ReasonString,
        PropsKind::Pubcomp => id == PropertyId::ReasonString,
        PropsKind::Subscribe => id == PropertyId::SubscriptionIdentifier,
        PropsKind::Suback => id == PropertyId::ReasonString,
        PropsKind::Unsubscribe => false,
        PropsKind::Unsuback => id == PropertyId::ReasonString,
    }
}

/// Whether a packet kind takes a property (user properties aside).
pub fn is_allowed(kind: PropsKind, id: PropertyId) -> (r: bool)
    ensures
        r == allowed(kind, id),
{
    match kind {
        PropsKind::Connect => matches!(id, PropertyId::SessionExpiryInterval | PropertyId::ReceiveMaximum | PropertyId::MaximumPacketSize | PropertyId::TopicAliasMaximum | PropertyId::RequestResponseInformation | PropertyId::RequestProblemInformation | PropertyId::AuthenticationMethod | PropertyId::AuthenticationData),
        PropsKind::Will => matches!(id, PropertyId::WillDelayInterval | PropertyId::PayloadFormatIndicator | PropertyId::MessageExpiryInterval | PropertyId::ContentType | PropertyId::ResponseTopic | PropertyId::CorrelationData),
        PropsKind::Connack => matches!(id, PropertyId::SessionExpiryInterval | PropertyId::ReceiveMaximum | PropertyId::MaximumQoS | PropertyId::RetainAvailable | PropertyId::MaximumPacketSize | PropertyId::AssignedClientIdentifier | PropertyId::TopicAliasMaximum | PropertyId::ReasonString | PropertyId::WildcardSubscriptionAvailable | PropertyId::SubscriptionIdentifierAvailable | PropertyId::SharedSubscriptionAvailable | PropertyId::ServerKeepAlive | PropertyId::ResponseInformation | PropertyId::ServerReference | PropertyId::AuthenticationMethod | PropertyId::AuthenticationData),
        PropsKind::Disconnect => matches!(id, PropertyId::SessionExpiryInterval | PropertyId::ReasonString | PropertyId::ServerReference),
        PropsKind::Auth => matches!(id, PropertyId::AuthenticationMethod | PropertyId::AuthenticationData | PropertyId::ReasonString),
        PropsKind::Publish => matches!(id, PropertyId::PayloadFormatIndicator | PropertyId::MessageExpiryInterval | PropertyId::TopicAlias | PropertyId::ResponseTopic | PropertyId::CorrelationData | PropertyId::SubscriptionIdentifier | PropertyId::ContentType),
        PropsKind::Puback => matches!(id, PropertyId::ReasonString),
        PropsKind::Pubrec => matches!(id, PropertyId::ReasonString),
        PropsKind::Pubrel => matches!(id, PropertyId::ReasonString),
        PropsKind::Pubcomp => matches!(id, PropertyId::ReasonString),
        PropsKind::Subscribe => matches!(id, PropertyId::SubscriptionIdentifier),
        PropsKind::Suback => matches!(id, PropertyId::ReasonString),
        PropsKind::Unsubscribe => false,
        PropsKind::Unsuback => matches!(id, PropertyId::ReasonString),
    }
}

impl PropsKind {
    /// The packet type that errors name.
    pub open spec fn spec_packet_type(self) -> PacketType {
        match self {
            PropsKind::Connect => PacketType::Connect,
            PropsKind::Will => PacketType::Connect,
            PropsKind::Connack => PacketType::Connack,
            PropsKind::Disconnect => PacketType::Disconnect,
            PropsKind::Auth => PacketType::Auth,
            PropsKind::Publish => PacketType::Publish,
            PropsKind::Puback => PacketType::Puback,
            PropsKind::Pubrec => PacketType::Pubrec,
            PropsKind::Pubrel => PacketType::Pubrel,
            PropsKind::Pubcomp => PacketType::Pubcomp,
            PropsKind::Subscribe => PacketType::Subscribe,
            PropsKind::Suback => PacketType::Suback,
            PropsKind::Unsubscribe => PacketType::Unsubscribe,
            PropsKind::Unsuback => PacketType::Unsuback,
        }
    }

    /// The error for a property that the kind does not take.
    pub open spec fn not_allowed(self, id: PropertyId) -> ErrorV5 {
        match self {
            PropsKind::Will => ErrorV5::InvalidWillProperty(id),
            _ => ErrorV5::InvalidProperty(self.spec_packet_type(), id),
        }
    }

    fn not_allowed_err(self, id: PropertyId) -> (r: ErrorV5)
        ensures
            r == self.not_allowed(id),
    {
        match self {
            PropsKind::Connect => ErrorV5::InvalidProperty(PacketType::Connect, id),
            PropsKind::Will => ErrorV5::InvalidWillProperty(id),
            PropsKind::Connack => ErrorV5::InvalidProperty(PacketType::Connack, id),
            PropsKind::Disconnect => ErrorV5::InvalidProperty(PacketType::Disconnect, id),
            PropsKind::Auth => ErrorV5::InvalidProperty(PacketType::Auth, id),
            PropsKind::Publish => ErrorV5::InvalidProperty(PacketType::Publish, id),
            PropsKind::Puback => ErrorV5::InvalidProperty(PacketType::Puback, id),
            PropsKind::Pubrec => ErrorV5::InvalidProperty(PacketType::Pubrec, id),
            PropsKind::Pubrel => ErrorV5::InvalidProperty(PacketType::Pubrel, id),
            PropsKind::Pubcomp => ErrorV5::InvalidProperty(PacketType::Pubcomp, id),
            PropsKind::Subscribe => ErrorV5::InvalidProperty(PacketType::Subscribe, id),
            PropsKind::Suback => ErrorV5::InvalidProperty(PacketType::Suback, id),
            PropsKind::Unsubscribe => ErrorV5::InvalidProperty(PacketType::Unsubscribe, id),
            PropsKind::Unsuback => ErrorV5::InvalidProperty(PacketType::Unsuback, id),
        }
    }
}

/// A set of properties of any packet, each at most once, and user properties.
pub struct PropertySet {
    pub payload_is_utf8: Option<bool>,
    pub message_expiry_interval: Option<u32>,
    pub content_type: Option<String>,
    pub response_topic: Option<TopicName>,
    pub correlation_data: Option<Vec<u8>>,
    pub subscription_id: Option<VarByteInt>,
    pub session_expiry_interval: Option<u32>,
    pub assigned_client_id: Option<String>,
    pub server_keep_alive: Option<u16>,
    pub auth_method: Option<String>,
    pub auth_data: Option<Vec<u8>>,
    pub request_problem_info: Option<bool>,
    pub delay_interval: Option<u32>,
    pub request_response_info: Option<bool>,
    pub response_info: Option<String>,
    pub server_reference: Option<String>,
    pub reason_string: Option<String>,
    pub receive_max: Option<u16>,
    pub topic_alias_max: Option<u16>,
    pub topic_alias: Option<u16>,
    pub max_qos: Option<QoS>,
    pub retain_available: Option<bool>,
    pub max_packet_size: Option<u32>,
    pub wildcard_subscription_available: Option<bool>,
    pub subscription_id_available: Option<bool>,
    pub shared_subscription_available: Option<bool>,
    pub user_properties: Vec<UserProperty>,
}

impl View for PropertySet {
    type V = PropsModel;

    open spec fn view(&self) -> PropsModel {
        PropsModel {
            payload_is_utf8: ov_bool(self.payload_is_utf8),
            message_expiry_interval: ov_u32(self.message_expiry_interval),
            content_type: ov_str(self.content_type),
            response_topic: ov_topic(self.response_topic),
            correlation_data: ov_bin(self.correlation_data),
            subscription_id: ov_int(self.subscription_id),
            session_expiry_interval: ov_u32(self.session_expiry_interval),
            assigned_client_id: ov_str(self.assigned_client_id),
            server_keep_alive: ov_u16(self.server_keep_alive),
            auth_method: ov_str(self.auth_method),
            auth_data: ov_bin(self.auth_data),
            request_problem_info: ov_bool(self.request_problem_info),
            delay_interval: ov_u32(self.delay_interval),
            request_response_info: ov_bool(self.request_response_info),
            response_info: ov_str(self.response_info),
            server_reference: ov_str(self.server_reference),
            reason_string: ov_str(self.reason_string),
            receive_max: ov_u16(self.receive_max),
            topic_alias_max: ov_u16(self.topic_alias_max),
            topic_alias: ov_u16(self.topic_alias),
            max_qos: ov_qos(self.max_qos),
            retain_available: ov_bool(self.retain_available),
            max_packet_size: ov_u32(self.max_packet_size),
            wildcard_subscription_available: ov_bool(self.wildcard_subscription_available),
            subscription_id_available: ov_bool(self.subscription_id_available),
            shared_subscription_available: ov_bool(self.shared_subscription_available),
            user_properties: users_view(self.user_properties),
        }
    }
}

impl PropertySet {
    /// No property.
    pub fn new() -> (r: PropertySet)
        ensures
            r@ == PropsModel::empty(),
    {
        let r = PropertySet {
            payload_is_utf8: None,
            message_expiry_interval: None,
            content_type: None,
            response_topic: None,
            correlation_data: None,
            subscription_id: None,
            session_expiry_interval: None,
            assigned_client_id: None,
            server_keep_alive: None,
            auth_method: None,
            auth_data: None,
            request_problem_info: None,
            delay_interval: None,
            request_response_info: None,
            response_info: None,
            server_reference: None,
            reason_string: None,
            receive_max: None,
            topic_alias_max: None,
            topic_alias: None,
            max_qos: None,
            retain_available: None,
            max_packet_size: None,
            wildcard_subscription_available: None,
            subscription_id_available: None,
            shared_subscription_available: None,
            user_properties: Vec::new(),
        };
        assert(r@.user_properties =~= Seq::<(Seq<u8>, Seq<u8>)>::empty());
        r
    }

    /// Whether a property other than a user property is present.
    pub fn has(&self, id: PropertyId) -> (r: bool)
        ensures
            r == self@.get(id) is Some,
    {
        match id {
            PropertyId::PayloadFormatIndicator => self.payload_is_utf8.is_some(),
            PropertyId::MessageExpiryInterval => self.message_expiry_interval.is_some(),
            PropertyId::ContentType => self.content_type.is_some(),
            PropertyId::ResponseTopic => self.response_topic.is_some(),
            PropertyId::CorrelationData => self.correlation_data.is_some(),
            PropertyId::SubscriptionIdentifier => self.subscription_id.is_some(),
            PropertyId::SessionExpiryInterval => self.session_expiry_interval.is_some(),
            PropertyId::AssignedClientIdentifier => self.assigned_client_id.is_some(),
            PropertyId::ServerKeepAlive => self.server_keep_alive.is_some(),
            PropertyId::AuthenticationMethod => self.auth_method.is_some(),
            PropertyId::AuthenticationData => self.auth_data.is_some(),
            PropertyId::RequestProblemInformation => self.request_problem_info.is_some(),
            PropertyId::WillDelayInterval => self.delay_interval.is_some(),
            PropertyId::RequestResponseInformation => self.request_response_info.is_some(),
            PropertyId::ResponseInformation => self.response_info.is_some(),
            PropertyId::ServerReference => self.server_reference.is_some(),
            PropertyId::ReasonString => self.reason_string.is_some(),
            PropertyId::ReceiveMaximum => self.receive_max.is_some(),
            PropertyId::TopicAliasMaximum => self.topic_alias_max.is_some(),
            PropertyId::TopicAlias => self.topic_alias.is_some(),
            PropertyId::MaximumQoS => self.max_qos.is_some(),
            PropertyId::RetainAvailable => self.retain_available.is_some(),
            PropertyId::MaximumPacketSize => self.max_packet_size.is_some(),
            PropertyId::WildcardSubscriptionAvailable => self.wildcard_subscription_available.is_some(),
            PropertyId::SubscriptionIdentifierAvailable => self.subscription_id_available.is_some(),
            PropertyId::SharedSubscriptionAvailable => self.shared_subscription_available.is_some(),
            PropertyId::UserProperty => false,
        }
    }

    /// Stores a property other than a user property.
    pub fn set(&mut self, id: PropertyId, v: PropertyValue)
        requires
            v.fits(id),
        ensures
            final(self)@ == old(self)@.set(id, v@),
    {
        match (id, v) {
            (PropertyId::PayloadFormatIndicator, PropertyValue::Bool(x)) => self.payload_is_utf8 = Some(x),
            (PropertyId::MessageExpiryInterval, PropertyValue::U32(x)) => self.message_expiry_interval = Some(x),
            (PropertyId::ContentType, PropertyValue::Str(x)) => self.content_type = Some(x),
            (PropertyId::ResponseTopic, PropertyValue::Topic(x)) => self.response_topic = Some(x),
            (PropertyId::CorrelationData, PropertyValue::Bin(x)) => self.correlation_data = Some(x),
            (PropertyId::SubscriptionIdentifier, PropertyValue::Int(x)) => self.subscription_id = Some(x),
            (PropertyId::SessionExpiryInterval, PropertyValue::U32(x)) => self.session_expiry_interval = Some(x),
            (PropertyId::AssignedClientIdentifier, PropertyValue::Str(x)) => self.assigned_client_id = Some(x),
            (PropertyId::ServerKeepAlive, PropertyValue::U16(x)) => self.server_keep_alive = Some(x),
            (PropertyId::AuthenticationMethod, PropertyValue::Str(x)) => self.auth_method = Some(x),
            (PropertyId::AuthenticationData, PropertyValue::Bin(x)) => self.auth_data = Some(x),
            (PropertyId::RequestProblemInformation, PropertyValue::Bool(x)) => self.request_problem_info = Some(x),
            (PropertyId::WillDelayInterval, PropertyValue::U32(x)) => self.delay_interval = Some(x),
            (PropertyId::RequestResponseInformation, PropertyValue::Bool(x)) => self.request_response_info = Some(x),
            (PropertyId::ResponseInformation, PropertyValue::Str(x)) => self.response_info = Some(x),
            (PropertyId::ServerReference, PropertyValue::Str(x)) => self.server_reference = Some(x),
            (PropertyId::ReasonString, PropertyValue::Str(x)) => self.reason_string = Some(x),
            (PropertyId::ReceiveMaximum, PropertyValue::U16(x)) => self.receive_max = Some(x),
            (PropertyId::TopicAliasMaximum, PropertyValue::U16(x)) => self.topic_alias_max = Some(x),
            (PropertyId::TopicAlias, PropertyValue::U16(x)) => self.topic_alias = Some(x),
            (PropertyId::MaximumQoS, PropertyValue::Qos(x)) => self.max_qos = Some(x),
            (PropertyId::RetainAvailable, PropertyValue::Bool(x)) => self.retain_available = Some(x),
            (PropertyId::MaximumPacketSize, PropertyValue::U32(x)) => self.max_packet_size = Some(x),
            (PropertyId::WildcardSubscriptionAvailable, PropertyValue::Bool(x)) => self.wildcard_subscription_available = Some(x),
            (PropertyId::SubscriptionIdentifierAvailable, PropertyValue::Bool(x)) => self.subscription_id_available = Some(x),
            (PropertyId::SharedSubscriptionAvailable, PropertyValue::Bool(x)) => self.shared_subscription_available = Some(x),
            _ => {},
        }
    }
}

/// Properties of the connect packet.
#[derive(Debug, Clone, PartialEq, Eq)]
pub struct ConnectProperties {
    pub session_expiry_interval: Option<u32>,
    pub receive_max: Option<u16>,
    pub max_packet_size: Option<u32>,
    pub topic_alias_max: Option<u16>,
    pub request_response_info: Option<bool>,
    pub request_problem_info: Option<bool>,
    pub user_properties: Vec<UserProperty>,
    pub auth_method: Option<String>,
    pub auth_data: Option<Vec<u8>>,
}

impl View for ConnectProperties {
    type V = PropsModel;

    open spec fn view(&self) -> PropsModel {
        PropsModel {
            session_expiry_interval: ov_u32(self.session_expiry_interval),
            auth_method: ov_str(self.auth_method),
            auth_data: ov_bin(self.auth_data),
            request_problem_info: ov_bool(self.request_problem_info),
            request_response_info: ov_bool(self.request_response_info),
            receive_max: ov_u16(self.receive_max),
            topic_alias_max: ov_u16(self.topic_alias_max),
            max_packet_size: ov_u32(self.max_packet_size),
            user_properties: users_view(self.user_properties),
            ..PropsModel::empty()
        }
    }
}

impl Default for ConnectProperties {
    fn default() -> (r: ConnectProperties)
        ensures
            r@ == PropsModel::empty(),
    {
        let r = ConnectProperties {
            session_expiry_interval: None,
            receive_max: None,
            max_packet_size: None,
            topic_alias_max: None,
            request_response_info: None,
            request_problem_info: None,
            user_properties: Vec::new(),
            auth_method: None,
            auth_data: None,
        };
        assert(r@.user_properties =~= Seq::<(Seq<u8>, Seq<u8>)>::empty());
        r
    }
}

impl ConnectProperties {
    /// The order in which the properties are written.
    pub open spec fn fields_order() -> Seq<PropertyId> {
        seq![PropertyId::SessionExpiryInterval, PropertyId::ReceiveMaximum, PropertyId::MaximumPacketSize, PropertyId::TopicAliasMaximum, PropertyId::RequestResponseInformation, PropertyId::RequestProblemInformation, PropertyId::AuthenticationMethod, PropertyId::AuthenticationData]
    }

    /// The written properties, one by one.
    pub proof fn lemma_fields(m: PropsModel)
        ensures
            fields_bytes(m, Self::fields_order()) == prop_bytes(m, PropertyId::SessionExpiryInterval) + prop_bytes(m, PropertyId::ReceiveMaximum) + prop_bytes(m, PropertyId::MaximumPacketSize) + prop_bytes(m, PropertyId::TopicAliasMaximum) + prop_bytes(m, PropertyId::RequestResponseInformation) + prop_bytes(m, PropertyId::RequestProblemInformation) + prop_bytes(m, PropertyId::AuthenticationMethod) + prop_bytes(m, PropertyId::AuthenticationData),
    {
        let s = Self::fields_order();
        assert(s.take(8).drop_last() =~= s.take(7));
        assert(s.take(7).drop_last() =~= s.take(6));
        assert(s.take(6).drop_last() =~= s.take(5));
        assert(s.take(5).drop_last() =~= s.take(4));
        assert(s.take(4).drop_last() =~= s.take(3));
        assert(s.take(3).drop_last() =~= s.take(2));
        assert(s.take(2).drop_last() =~= s.take(1));
        assert(s.take(1).drop_last() =~= s.take(0));
        assert(s.take(8) =~= s);
        assert(s.take(0) =~= Seq::<PropertyId>::empty());
        assert(fields_bytes(m, s.take(1)) == fields_bytes(m, s.take(0)) + prop_bytes(m, s.take(1).last()));
        assert(fields_bytes(m, s.take(2)) == fields_bytes(m, s.take(1)) + prop_bytes(m, s.take(2).last()));
        assert(fields_bytes(m, s.take(3)) == fields_bytes(m, s.take(2)) + prop_bytes(m, s.take(3).last()));
        assert(fields_bytes(m, s.take(4)) == fields_bytes(m, s.take(3)) + prop_bytes(m, s.take(4).last()));
        assert(fields_bytes(m, s.take(5)) == fields_bytes(m, s.take(4)) + prop_bytes(m, s.take(5).last()));
        assert(fields_bytes(m, s.take(6)) == fields_bytes(m, s.take(5)) + prop_bytes(m, s.take(6).last()));
        assert(fields_bytes(m, s.take(7)) == fields_bytes(m, s.take(6)) + prop_bytes(m, s.take(7).last()));
        assert(fields_bytes(m, s.take(8)) == fields_bytes(m, s.take(7)) + prop_bytes(m, s.take(8).last()));
        assert(fields_bytes(m, Seq::<PropertyId>::empty()) == Seq::<u8>::empty());
    }

    /// Takes the properties of the kind out of a set.
    pub fn from_set(s: PropertySet) -> (r: ConnectProperties)
        ensures
            r@ == s@.restrict(PropsKind::Connect),
    {
        ConnectProperties {
            session_expiry_interval: s.session_expiry_interval,
            receive_max: s.receive_max,
            max_packet_size: s.max_packet_size,
            topic_alias_max: s.topic_alias_max,
            request_response_info: s.request_response_info,
            request_problem_info: s.request_problem_info,
            user_properties: s.user_properties,
            auth_method: s.auth_method,
            auth_data: s.auth_data,
        }
    }

    /// Whether no property is present.
    pub fn is_default(&self) -> (r: bool)
        ensures
            r == (self@ == PropsModel::empty()),
    {
        let r = self.session_expiry_interval.is_none()
            && self.receive_max.is_none()
            && self.max_packet_size.is_none()
            && self.topic_alias_max.is_none()
            && self.request_response_info.is_none()
            && self.request_problem_info.is_none()
            && self.auth_method.is_none()
            && self.auth_data.is_none()
            && self.user_properties.len() == 0;
        proof {
            if self.user_properties.len() == 0 {
                assert(self@.user_properties =~= Seq::<(Seq<u8>, Seq<u8>)>::empty());
            }
            if self@ == PropsModel::empty() {
                assert(self@.user_properties.len() == 0);
            }
        }
        r
    }

    /// The length of the properties after their length.
    #[verifier::rlimit(40)]
    fn body_len(&self) -> (r: usize)
        requires
            props_body(self@, Self::fields_order()).len() < VAR_INT_LIMIT,
        ensures
            r == props_body(self@, Self::fields_order()).len(),
    {
        proof {
            Self::lemma_fields(self@);
        }
        let mut n: usize = users_len(&self.user_properties);
        n = n + len_u32(self.session_expiry_interval, PropertyId::SessionExpiryInterval);
        n = n + len_u16(self.receive_max, PropertyId::ReceiveMaximum);
        n = n + len_u32(self.max_packet_size, PropertyId::MaximumPacketSize);
        n = n + len_u16(self.topic_alias_max, PropertyId::TopicAliasMaximum);
        n = n + len_bool(self.request_response_info, PropertyId::RequestResponseInformation);
        n = n + len_bool(self.request_problem_info, PropertyId::RequestProblemInformation);
        n = n + len_str(&self.auth_method, PropertyId::AuthenticationMethod);
        n = n + len_bin(&self.auth_data, PropertyId::AuthenticationData);
        n
    }

    /// Appends the encoding: the length, the properties in order, then the
    /// user properties.
    #[verifier::rlimit(40)]
    pub fn encode(&self, buf: &mut Vec<u8>)
        requires
            props_body(self@, Self::fields_order()).len() < VAR_INT_LIMIT,
        ensures
            final(buf)@ == old(buf)@ + props_encode(self@, Self::fields_order()),
    {
        proof {
            Self::lemma_fields(self@);
        }
        let len = self.body_len();
        write_var_int(buf, len);
        let ghost b0 = buf@;
        let ghost s0 = Seq::<u8>::empty();
        put_u32(buf, PropertyId::SessionExpiryInterval, self.session_expiry_interval);
        let ghost s1 = prop_bytes(self@, PropertyId::SessionExpiryInterval);
        assert(buf@ =~= b0 + s1);
        put_u16(buf, PropertyId::ReceiveMaximum, self.receive_max);
        let ghost s2 = s1 + prop_bytes(self@, PropertyId::ReceiveMaximum);
        assert(buf@ =~= b0 + s2);
        put_u32(buf, PropertyId::MaximumPacketSize, self.max_packet_size);
        let ghost s3 = s2 + prop_bytes(self@, PropertyId::MaximumPacketSize);
        assert(buf@ =~= b0 + s3);
        put_u16(buf, PropertyId::TopicAliasMaximum, self.topic_alias_max);
        let ghost s4 = s3 + prop_bytes(self@, PropertyId::TopicAliasMaximum);
        assert(buf@ =~= b0 + s4);
        put_bool(buf, PropertyId::RequestResponseInformation, self.request_response_info);
        let ghost s5 = s4 + prop_bytes(self@, PropertyId::RequestResponseInformation);
        assert(buf@ =~= b0 + s5);
        put_bool(buf, PropertyId::RequestProblemInformation, self.request_problem_info);
        let ghost s6 = s5 + prop_bytes(self@, PropertyId::RequestProblemInformation);
        assert(buf@ =~= b0 + s6);
        put_str(buf, PropertyId::AuthenticationMethod, &self.auth_method);
        let ghost s7 = s6 + prop_bytes(self@, PropertyId::AuthenticationMethod);
        assert(buf@ =~= b0 + s7);
        put_bin(buf, PropertyId::AuthenticationData, &self.auth_data);
        let ghost s8 = s7 + prop_bytes(self@, PropertyId::AuthenticationData);
        assert(buf@ =~= b0 + s8);
        let ghost b1 = buf@;
        put_users(buf, &self.user_properties);
        proof {
            assert(buf@ =~= old(buf)@ + props_encode(self@, Self::fields_order()));
        }
    }

    /// The encoded length.
    pub fn encode_len(&self) -> (r: usize)
        requires
            props_body(self@, Self::fields_order()).len() < VAR_INT_LIMIT,
        ensures
            r == props_encode(self@, Self::fields_order()).len(),
            r < 268435460,
    {
        let len = self.body_len();
        proof {
            lemma_var_int_len(len as nat);
        }
        len + var_int_len(len).unwrap()
    }

    /// Decodes the properties at the cursor.
    pub fn decode(buf: &mut PacketBuf) -> (r: Result<ConnectProperties, ErrorV5>)
        ensures
            final(buf).bytes() == old(buf).bytes(),
            match sp_properties(old(buf).bytes(), old(buf).pos(), PropsKind::Connect) {
                Ok(((m, _, _), next)) => r matches Ok(p) && p@ == m && final(buf).pos() == next,
                Err(e) => r matches Err(x) && x.is(e),
            },
    {
        let (set, _, _) = decode_properties(buf, PropsKind::Connect)?;
        proof {
            lemma_restricted(old(buf).bytes(), old(buf).pos(), PropsKind::Connect);
        }
        Ok(ConnectProperties::from_set(set))
    }
}

/// Properties of the will message.
#[derive(Debug, Clone, PartialEq, Eq)]
pub struct WillProperties {
    pub delay_interval: Option<u32>,
    pub payload_is_utf8: Option<bool>,
    pub message_expiry_interval: Option<u32>,
    pub content_type: Option<String>,
    pub response_topic: Option<TopicName>,
    pub correlation_data: Option<Vec<u8>>,
    pub user_properties: Vec<UserProperty>,
}

impl View for WillProperties {
    type V = PropsModel;

    open spec fn view(&self) -> PropsModel {
        PropsModel {
            payload_is_utf8: ov_bool(self.payload_is_utf8),
            message_expiry_interval: ov_u32(self.message_expiry_interval),
            content_type: ov_str(self.content_type),
            response_topic: ov_topic(self.response_topic),
            correlation_data: ov_bin(self.correlation_data),
            delay_interval: ov_u32(self.delay_interval),
            user_properties: users_view(self.user_properties),
            ..PropsModel::empty()
        }
    }
}

impl Default for WillProperties {
    fn default() -> (r: WillProperties)
        ensures
            r@ == PropsModel::empty(),
    {
        let r = WillProperties {
            delay_interval: None,
            payload_is_utf8: None,
            message_expiry_interval: None,
            content_type: None,
            response_topic: None,
            correlation_data: None,
            user_properties: Vec::new(),
        };
        assert(r@.user_properties =~= Seq::<(Seq<u8>, Seq<u8>)>::empty());
        r
    }
}

impl WillProperties {
    /// The order in which the properties are written.
    pub open spec fn fields_order() -> Seq<PropertyId> {
        seq![PropertyId::WillDelayInterval, PropertyId::PayloadFormatIndicator, PropertyId::MessageExpiryInterval, PropertyId::ContentType, PropertyId::ResponseTopic, PropertyId::CorrelationData]
    }

    /// The written properties, one by one.
    pub proof fn lemma_fields(m: PropsModel)
        ensures
            fields_bytes(m, Self::fields_order()) == prop_bytes(m, PropertyId::WillDelayInterval) + prop_bytes(m, PropertyId::PayloadFormatIndicator) + prop_bytes(m, PropertyId::MessageExpiryInterval) + prop_bytes(m, PropertyId::ContentType) + prop_bytes(m, PropertyId::ResponseTopic) + prop_bytes(m, PropertyId::CorrelationData),
    {
        let s = Self::fields_order();
        assert(s.take(6).drop_last() =~= s.take(5));
        assert(s.take(5).drop_last() =~= s.take(4));
        assert(s.take(4).drop_last() =~= s.take(3));
        assert(s.take(3).drop_last() =~= s.take(2));
        assert(s.take(2).drop_last() =~= s.take(1));
        assert(s.take(1).drop_last() =~= s.take(0));
        assert(s.take(6) =~= s);
        assert(s.take(0) =~= Seq::<PropertyId>::empty());
        assert(fields_bytes(m, s.take(1)) == fields_bytes(m, s.take(0)) + prop_bytes(m, s.take(1).last()));
        assert(fields_bytes(m, s.take(2)) == fields_bytes(m, s.take(1)) + prop_bytes(m, s.take(2).last()));
        assert(fields_bytes(m, s.take(3)) == fields_bytes(m, s.take(2)) + prop_bytes(m, s.take(3).last()));
        assert(fields_bytes(m, s.take(4)) == fields_bytes(m, s.take(3)) + prop_bytes(m, s.take(4).last()));
        assert(fields_bytes(m, s.take(5)) == fields_bytes(m, s.take(4)) + prop_bytes(m, s.take(5).last()));
        assert(fields_bytes(m, s.take(6)) == fields_bytes(m, s.take(5)) + prop_bytes(m, s.take(6).last()));
        assert(fields_bytes(m, Seq::<PropertyId>::empty()) == Seq::<u8>::empty());
    }

    /// Takes the properties of the kind out of a set.
    pub fn from_set(s: PropertySet) -> (r: WillProperties)
        ensures
            r@ == s@.restrict(PropsKind::Will),
    {
        WillProperties {
            delay_interval: s.delay_interval,
            payload_is_utf8: s.payload_is_utf8,
            message_expiry_interval: s.message_expiry_interval,
            content_type: s.content_type,
            response_topic: s.response_topic,
            correlation_data: s.correlation_data,
            user_properties: s.user_properties,
        }
    }

    /// Whether no property is present.
    pub fn is_default(&self) -> (r: bool)
        ensures
            r == (self@ == PropsModel::empty()),
    {
        let r = self.delay_interval.is_none()
            && self.payload_is_utf8.is_none()
            && self.message_expiry_interval.is_none()
            && self.content_type.is_none()
            && self.response_topic.is_none()
            && self.correlation_data.is_none()
            && self.user_properties.len() == 0;
        proof {
            if self.user_properties.len() == 0 {
                assert(self@.user_properties =~= Seq::<(Seq<u8>, Seq<u8>)>::empty());
            }
            if self@ == PropsModel::empty() {
                assert(self@.user_properties.len() == 0);
            }
        }
        r
    }

    /// The length of the properties after their length.
    #[verifier::rlimit(40)]
    fn body_len(&self) -> (r: usize)
        requires
            props_body(self@, Self::fields_order()).len() < VAR_INT_LIMIT,
        ensures
            r == props_body(self@, Self::fields_order()).len(),
    {
        proof {
            Self::lemma_fields(self@);
        }
        let mut n: usize = users_len(&self.user_properties);
        n = n + len_u32(self.delay_interval, PropertyId::WillDelayInterval);
        n = n + len_bool(self.payload_is_utf8, PropertyId::PayloadFormatIndicator);
        n = n + len_u32(self.message_expiry_interval, PropertyId::MessageExpiryInterval);
        n = n + len_str(&self.content_type, PropertyId::ContentType);
        n = n + len_topic(&self.response_topic, PropertyId::ResponseTopic);
        n = n + len_bin(&self.correlation_data, PropertyId::CorrelationData);
        n
    }

    /// Appends the encoding: the length, the properties in order, then the
    /// user properties.
    #[verifier::rlimit(40)]
    pub fn encode(&self, buf: &mut Vec<u8>)
        requires
            props_body(self@, Self::fields_order()).len() < VAR_INT_LIMIT,
        ensures
            final(buf)@ == old(buf)@ + props_encode(self@, Self::fields_order()),
    {
        proof {
            Self::lemma_fields(self@);
        }
        let len = self.body_len();
        write_var_int(buf, len);
        let ghost b0 = buf@;
        let ghost s0 = Seq::<u8>::empty();
        put_u32(buf, PropertyId::WillDelayInterval, self.delay_interval);
        let ghost s1 = prop_bytes(self@, PropertyId::WillDelayInterval);
        assert(buf@ =~= b0 + s1);
        put_bool(buf, PropertyId::PayloadFormatIndicator, self.payload_is_utf8);
        let ghost s2 = s1 + prop_bytes(self@, PropertyId::PayloadFormatIndicator);
        assert(buf@ =~= b0 + s2);
        put_u32(buf, PropertyId::MessageExpiryInterval, self.message_expiry_interval);
        let ghost s3 = s2 + prop_bytes(self@, PropertyId::MessageExpiryInterval);
        assert(buf@ =~= b0 + s3);
        put_str(buf, PropertyId::ContentType, &self.content_type);
        let ghost s4 = s3 + prop_bytes(self@, PropertyId::ContentType);
        assert(buf@ =~= b0 + s4);
        put_topic(buf, PropertyId::ResponseTopic, &self.response_topic);
        let ghost s5 = s4 + prop_bytes(self@, PropertyId::ResponseTopic);
        assert(buf@ =~= b0 + s5);
        put_bin(buf, PropertyId::CorrelationData, &self.correlation_data);
        let ghost s6 = s5 + prop_bytes(self@, PropertyId::CorrelationData);
        assert(buf@ =~= b0 + s6);
        let ghost b1 = buf@;
        put_users(buf, &self.user_properties);
        proof {
            assert(buf@ =~= old(buf)@ + props_encode(self@, Self::fields_order()));
        }
    }

    /// The encoded length.
    pub fn encode_len(&self) -> (r: usize)
        requires
            props_body(self@, Self::fields_order()).len() < VAR_INT_LIMIT,
        ensures
            r == props_encode(self@, Self::fields_order()).len(),
            r < 268435460,
    {
        let len = self.body_len();
        proof {
            lemma_var_int_len(len as nat);
        }
        len + var_int_len(len).unwrap()
    }

    /// Decodes the properties at the cursor.
    pub fn decode(buf: &mut PacketBuf) -> (r: Result<WillProperties, ErrorV5>)
        ensures
            final(buf).bytes() == old(buf).bytes(),
            match sp_properties(old(buf).bytes(), old(buf).pos(), PropsKind::Will) {
                Ok(((m, _, _), next)) => r matches Ok(p) && p@ == m && final(buf).pos() == next,
                Err(e) => r matches Err(x) && x.is(e),
            },
    {
        let (set, _, _) = decode_properties(buf, PropsKind::Will)?;
        proof {
            lemma_restricted(old(buf).bytes(), old(buf).pos(), PropsKind::Will);
        }
        Ok(WillProperties::from_set(set))
    }
}

/// Properties of the connack packet.
#[derive(Debug, Clone, PartialEq, Eq)]
pub struct ConnackProperties {
    pub session_expiry_interval: Option<u32>,
    pub receive_max: Option<u16>,
    pub max_qos: Option<QoS>,
    pub retain_available: Option<bool>,
    pub max_packet_size: Option<u32>,
    pub assigned_client_id: Option<String>,
    pub topic_alias_max: Option<u16>,
    pub reason_string: Option<String>,
    pub user_properties: Vec<UserProperty>,
    pub wildcard_subscription_available: Option<bool>,
    pub subscription_id_available: Option<bool>,
    pub shared_subscription_available: Option<bool>,
    pub server_keep_alive: Option<u16>,
    pub response_info: Option<String>,
    pub server_reference: Option<String>,
    pub auth_method: Option<String>,
    pub auth_data: Option<Vec<u8>>,
}

impl View for ConnackProperties {
    type V = PropsModel;

    open spec fn view(&self) -> PropsModel {
        PropsModel {
            session_expiry_interval: ov_u32(self.session_expiry_interval),
            assigned_client_id: ov_str(self.assigned_client_id),
            server_keep_alive: ov_u16(self.server_keep_alive),
            auth_method: ov_str(self.auth_method),
            auth_data: ov_bin(self.auth_data),
            response_info: ov_str(self.response_info),
            server_reference: ov_str(self.server_reference),
            reason_string: ov_str(self.reason_string),
            receive_max: ov_u16(self.receive_max),
            topic_alias_max: ov_u16(self.topic_alias_max),
            max_qos: ov_qos(self.max_qos),
            retain_available: ov_bool(self.retain_available),
            max_packet_size: ov_u32(self.max_packet_size),
            wildcard_subscription_available: ov_bool(self.wildcard_subscription_available),
            subscription_id_available: ov_bool(self.subscription_id_available),
            shared_subscription_available: ov_bool(self.shared_subscription_available),
            user_properties: users_view(self.user_properties),
            ..PropsModel::empty()
        }
    }
}

impl Default for ConnackProperties {
    fn default() -> (r: ConnackProperties)
        ensures
            r@ == PropsModel::empty(),
    {
        let r = ConnackProperties {
            session_expiry_interval: None,
            receive_max: None,
            max_qos: None,
            retain_available: None,
            max_packet_size: None,
            assigned_client_id: None,
            topic_alias_max: None,
            reason_string: None,
            user_properties: Vec::new(),
            wildcard_subscription_available: None,
            subscription_id_available: None,
            shared_subscription_available: None,
            server_keep_alive: None,
            response_info: None,
            server_reference: None,
            auth_method: None,
            auth_data: None,
        };
        assert(r@.user_properties =~= Seq::<(Seq<u8>, Seq<u8>)>::empty());
        r
    }
}

impl ConnackProperties {
    /// The order in which the properties are written.
    pub open spec fn fields_order() -> Seq<PropertyId> {
        seq![PropertyId::SessionExpiryInterval, PropertyId::ReceiveMaximum, PropertyId::MaximumQoS, PropertyId::RetainAvailable, PropertyId::MaximumPacketSize, PropertyId::AssignedClientIdentifier, PropertyId::TopicAliasMaximum, PropertyId::ReasonString, PropertyId::WildcardSubscriptionAvailable, PropertyId::SubscriptionIdentifierAvailable, PropertyId::SharedSubscriptionAvailable, PropertyId::ServerKeepAlive, PropertyId::ResponseInformation, PropertyId::ServerReference, PropertyId::AuthenticationMethod, PropertyId::AuthenticationData]
    }

    /// The written properties, one by one.
    pub proof fn lemma_fields(m: PropsModel)
        ensures
            fields_bytes(m, Self::fields_order()) == prop_bytes(m, PropertyId::SessionExpiryInterval) + prop_bytes(m, PropertyId::ReceiveMaximum) + prop_bytes(m, PropertyId::MaximumQoS) + prop_bytes(m, PropertyId::RetainAvailable) + prop_bytes(m, PropertyId::MaximumPacketSize) + prop_bytes(m, PropertyId::AssignedClientIdentifier) + prop_bytes(m, PropertyId::TopicAliasMaximum) + prop_bytes(m, PropertyId::ReasonString) + prop_bytes(m, PropertyId::WildcardSubscriptionAvailable) + prop_bytes(m, PropertyId::SubscriptionIdentifierAvailable) + prop_bytes(m, PropertyId::SharedSubscriptionAvailable) + prop_bytes(m, PropertyId::ServerKeepAlive) + prop_bytes(m, PropertyId::ResponseInformation) + prop_bytes(m, PropertyId::ServerReference) + prop_bytes(m, PropertyId::AuthenticationMethod) + prop_bytes(m, PropertyId::AuthenticationData),
    {
        let s = Self::fields_order();
        assert(s.take(16).drop_last() =~= s.take(15));
        assert(s.take(15).drop_last() =~= s.take(14));
        assert(s.take(14).drop_last() =~= s.take(13));
        assert(s.take(13).drop_last() =~= s.take(12));
        assert(s.take(12).drop_last() =~= s.take(11));
        assert(s.take(11).drop_last() =~= s.take(10));
        assert(s.take(10).drop_last() =~= s.take(9));
        assert(s.take(9).drop_last() =~= s.take(8));
        assert(s.take(8).drop_last() =~= s.take(7));
        assert(s.take(7).drop_last() =~= s.take(6));
        assert(s.take(6).drop_last() =~= s.take(5));
        assert(s.take(5).drop_last() =~= s.take(4));
        assert(s.take(4).drop_last() =~= s.take(3));
        assert(s.take(3).drop_last() =~= s.take(2));
        assert(s.take(2).drop_last() =~= s.take(1));
        assert(s.take(1).drop_last() =~= s.take(0));
        assert(s.take(16) =~= s);
        assert(s.take(0) =~= Seq::<PropertyId>::empty());
        assert(fields_bytes(m, s.take(1)) == fields_bytes(m, s.take(0)) + prop_bytes(m, s.take(1).last()));
        assert(fields_bytes(m, s.take(2)) == fields_bytes(m, s.take(1)) + prop_bytes(m, s.take(2).last()));
        assert(fields_bytes(m, s.take(3)) == fields_bytes(m, s.take(2)) + prop_bytes(m, s.take(3).last()));
        assert(fields_bytes(m, s.take(4)) == fields_bytes(m, s.take(3)) + prop_bytes(m, s.take(4).last()));
        assert(fields_bytes(m, s.take(5)) == fields_bytes(m, s.take(4)) + prop_bytes(m, s.take(5).last()));
        assert(fields_bytes(m, s.take(6)) == fields_bytes(m, s.take(5)) + prop_bytes(m, s.take(6).last()));
        assert(fields_bytes(m, s.take(7)) == fields_bytes(m, s.take(6)) + prop_bytes(m, s.take(7).last()));
        assert(fields_bytes(m, s.take(8)) == fields_bytes(m, s.take(7)) + prop_bytes(m, s.take(8).last()));
        assert(fields_bytes(m, s.take(9)) == fields_bytes(m, s.take(8)) + prop_bytes(m, s.take(9).last()));
        assert(fields_bytes(m, s.take(10)) == fields_bytes(m, s.take(9)) + prop_bytes(m, s.take(10).last()));
        assert(fields_bytes(m, s.take(11)) == fields_bytes(m, s.take(10)) + prop_bytes(m, s.take(11).last()));
        assert(fields_bytes(m, s.take(12)) == fields_bytes(m, s.take(11)) + prop_bytes(m, s.take(12).last()));
        assert(fields_bytes(m, s.take(13)) == fields_bytes(m, s.take(12)) + prop_bytes(m, s.take(13).last()));
        assert(fields_bytes(m, s.take(14)) == fields_bytes(m, s.take(13)) + prop_bytes(m, s.take(14).last()));
        assert(fields_bytes(m, s.take(15)) == fields_bytes(m, s.take(14)) + prop_bytes(m, s.take(15).last()));
        assert(fields_bytes(m, s.take(16)) == fields_bytes(m, s.take(15)) + prop_bytes(m, s.take(16).last()));
        assert(fields_bytes(m, Seq::<PropertyId>::empty()) == Seq::<u8>::empty());
    }

    /// Takes the properties of the kind out of a set.
    pub fn from_set(s: PropertySet) -> (r: ConnackProperties)
        ensures
            r@ == s@.restrict(PropsKind::Connack),
    {
        ConnackProperties {
            session_expiry_interval: s.session_expiry_interval,
            receive_max: s.receive_max,
            max_qos: s.max_qos,
            retain_available: s.retain_available,
            max_packet_size: s.max_packet_size,
            assigned_client_id: s.assigned_client_id,
            topic_alias_max: s.topic_alias_max,
            reason_string: s.reason_string,
            user_properties: s.user_properties,
            wildcard_subscription_available: s.wildcard_subscription_available,
            subscription_id_available: s.subscription_id_available,
            shared_subscription_available: s.shared_subscription_available,
            server_keep_alive: s.server_keep_alive,
            response_info: s.response_info,
            server_reference: s.server_reference,
            auth_method: s.auth_method,
            auth_data: s.auth_data,
        }
    }

    /// Whether no property is present.
    pub fn is_default(&self) -> (r: bool)
        ensures
            r == (self@ == PropsModel::empty()),
    {
        let r = self.session_expiry_interval.is_none()
            && self.receive_max.is_none()
            && self.max_qos.is_none()
            && self.retain_available.is_none()
            && self.max_packet_size.is_none()
            && self.assigned_client_id.is_none()
            && self.topic_alias_max.is_none()
            && self.reason_string.is_none()
            && self.wildcard_subscription_available.is_none()
            && self.subscription_id_available.is_none()
            && self.shared_subscription_available.is_none()
            && self.server_keep_alive.is_none()
            && self.response_info.is_none()
            && self.server_reference.is_none()
            && self.auth_method.is_none()
            && self.auth_data.is_none()
            && self.user_properties.len() == 0;
        proof {
            if self.user_properties.len() == 0 {
                assert(self@.user_properties =~= Seq::<(Seq<u8>, Seq<u8>)>::empty());
            }
            if self@ == PropsModel::empty() {
                assert(self@.user_properties.len() == 0);
            }
        }
        r
    }

    /// The length of the properties after their length.
    #[verifier::rlimit(40)]
    fn body_len(&self) -> (r: usize)
        requires
            props_body(self@, Self::fields_order()).len() < VAR_INT_LIMIT,
        ensures
            r == props_body(self@, Self::fields_order()).len(),
    {
        proof {
            Self::lemma_fields(self@);
        }
        let mut n: usize = users_len(&self.user_properties);
        n = n + len_u32(self.session_expiry_interval, PropertyId::SessionExpiryInterval);
        n = n + len_u16(self.receive_max, PropertyId::ReceiveMaximum);
        n = n + len_qos(self.max_qos, PropertyId::MaximumQoS);
        n = n + len_bool(self.retain_available, PropertyId::RetainAvailable);
        n = n + len_u32(self.max_packet_size, PropertyId::MaximumPacketSize);
        n = n + len_str(&self.assigned_client_id, PropertyId::AssignedClientIdentifier);
        n = n + len_u16(self.topic_alias_max, PropertyId::TopicAliasMaximum);
        n = n + len_str(&self.reason_string, PropertyId::ReasonString);
        n = n + len_bool(self.wildcard_subscription_available, PropertyId::WildcardSubscriptionAvailable);
        n = n + len_bool(self.subscription_id_available, PropertyId::SubscriptionIdentifierAvailable);
        n = n + len_bool(self.shared_subscription_available, PropertyId::SharedSubscriptionAvailable);
        n = n + len_u16(self.server_keep_alive, PropertyId::ServerKeepAlive);
        n = n + len_str(&self.response_info, PropertyId::ResponseInformation);
        n = n + len_str(&self.server_reference, PropertyId::ServerReference);
        n = n + len_str(&self.auth_method, PropertyId::AuthenticationMethod);
        n = n + len_bin(&self.auth_data, PropertyId::AuthenticationData);
        n
    }

    /// Appends the encoding: the length, the properties in order, then the
    /// user properties.
    #[verifier::rlimit(100)]
    pub fn encode(&self, buf: &mut Vec<u8>)
        requires
            props_body(self@, Self::fields_order()).len() < VAR_INT_LIMIT,
        ensures
            final(buf)@ == old(buf)@ + props_encode(self@, Self::fields_order()),
    {
        proof {
            Self::lemma_fields(self@);
        }
        let len = self.body_len();
        write_var_int(buf, len);
        let ghost b0 = buf@;
        self.encode_fields_0(buf);
        let ghost c0 = buf@;
        self.encode_fields_1(buf);
        let ghost c1 = buf@;
        proof {
            let t0 = prop_bytes(self@, PropertyId::SessionExpiryInterval) + prop_bytes(self@, PropertyId::ReceiveMaximum) + prop_bytes(self@, PropertyId::MaximumQoS) + prop_bytes(self@, PropertyId::RetainAvailable) + prop_bytes(self@, PropertyId::MaximumPacketSize) + prop_bytes(self@, PropertyId::AssignedClientIdentifier) + prop_bytes(self@, PropertyId::TopicAliasMaximum) + prop_bytes(self@, PropertyId::ReasonString);
            let t1 = prop_bytes(self@, PropertyId::WildcardSubscriptionAvailable) + prop_bytes(self@, PropertyId::SubscriptionIdentifierAvailable) + prop_bytes(self@, PropertyId::SharedSubscriptionAvailable) + prop_bytes(self@, PropertyId::ServerKeepAlive) + prop_bytes(self@, PropertyId::ResponseInformation) + prop_bytes(self@, PropertyId::ServerReference) + prop_bytes(self@, PropertyId::AuthenticationMethod) + prop_bytes(self@, PropertyId::AuthenticationData);
            assert(c1 =~= b0 + (t0 + t1));
            assert(t0 + t1 =~= prop_bytes(self@, PropertyId::SessionExpiryInterval) + prop_bytes(self@, PropertyId::ReceiveMaximum) + prop_bytes(self@, PropertyId::MaximumQoS) + prop_bytes(self@, PropertyId::RetainAvailable) + prop_bytes(self@, PropertyId::MaximumPacketSize) + prop_bytes(self@, PropertyId::AssignedClientIdentifier) + prop_bytes(self@, PropertyId::TopicAliasMaximum) + prop_bytes(self@, PropertyId::ReasonString) + prop_bytes(self@, PropertyId::WildcardSubscriptionAvailable) + prop_bytes(self@, PropertyId::SubscriptionIdentifierAvailable) + prop_bytes(self@, PropertyId::SharedSubscriptionAvailable) + prop_bytes(self@, PropertyId::ServerKeepAlive) + prop_bytes(self@, PropertyId::ResponseInformation) + prop_bytes(self@, PropertyId::ServerReference) + prop_bytes(self@, PropertyId::AuthenticationMethod) + prop_bytes(self@, PropertyId::AuthenticationData));
        }
        let ghost b1 = buf@;
        put_users(buf, &self.user_properties);
        proof {
            assert(buf@ =~= old(buf)@ + props_encode(self@, Self::fields_order()));
        }
    }

    /// Appends properties SessionExpiryInterval, ReceiveMaximum, MaximumQoS, RetainAvailable, MaximumPacketSize, AssignedClientIdentifier, TopicAliasMaximum, ReasonString.
    #[verifier::rlimit(100)]
    fn encode_fields_0(&self, buf: &mut Vec<u8>)
        ensures
            final(buf)@ == old(buf)@ + (prop_bytes(self@, PropertyId::SessionExpiryInterval) + prop_bytes(self@, PropertyId::ReceiveMaximum) + prop_bytes(self@, PropertyId::MaximumQoS) + prop_bytes(self@, PropertyId::RetainAvailable) + prop_bytes(self@, PropertyId::MaximumPacketSize) + prop_bytes(self@, PropertyId::AssignedClientIdentifier) + prop_bytes(self@, PropertyId::TopicAliasMaximum) + prop_bytes(self@, PropertyId::ReasonString)),
    {
        let ghost b0 = buf@;
        put_u32(buf, PropertyId::SessionExpiryInterval, self.session_expiry_interval);
        let ghost s1 = prop_bytes(self@, PropertyId::SessionExpiryInterval);
        assert(buf@ =~= b0 + s1);
        put_u16(buf, PropertyId::ReceiveMaximum, self.receive_max);
        let ghost s2 = s1 + prop_bytes(self@, PropertyId::ReceiveMaximum);
        assert(buf@ =~= b0 + s2);
        put_qos(buf, PropertyId::MaximumQoS, self.max_qos);
        let ghost s3 = s2 + prop_bytes(self@, PropertyId::MaximumQoS);
        assert(buf@ =~= b0 + s3);
        put_bool(buf, PropertyId::RetainAvailable, self.retain_available);
        let ghost s4 = s3 + prop_bytes(self@, PropertyId::RetainAvailable);
        assert(buf@ =~= b0 + s4);
        put_u32(buf, PropertyId::MaximumPacketSize, self.max_packet_size);
        let ghost s5 = s4 + prop_bytes(self@, PropertyId::MaximumPacketSize);
        assert(buf@ =~= b0 + s5);
        put_str(buf, PropertyId::AssignedClientIdentifier, &self.assigned_client_id);
        let ghost s6 = s5 + prop_bytes(self@, PropertyId::AssignedClientIdentifier);
        assert(buf@ =~= b0 + s6);
        put_u16(buf, PropertyId::TopicAliasMaximum, self.topic_alias_max);
        let ghost s7 = s6 + prop_bytes(self@, PropertyId::TopicAliasMaximum);
        assert(buf@ =~= b0 + s7);
        put_str(buf, PropertyId::ReasonString, &self.reason_string);
        let ghost s8 = s7 + prop_bytes(self@, PropertyId::ReasonString);
        assert(buf@ =~= b0 + s8);
    }

    /// Appends properties WildcardSubscriptionAvailable, SubscriptionIdentifierAvailable, SharedSubscriptionAvailable, ServerKeepAlive, ResponseInformation, ServerReference, AuthenticationMethod, AuthenticationData.
    #[verifier::rlimit(100)]
    fn encode_fields_1(&self, buf: &mut Vec<u8>)
        ensures
            final(buf)@ == old(buf)@ + (prop_bytes(self@, PropertyId::WildcardSubscriptionAvailable) + prop_bytes(self@, PropertyId::SubscriptionIdentifierAvailable) + prop_bytes(self@, PropertyId::SharedSubscriptionAvailable) + prop_bytes(self@, PropertyId::ServerKeepAlive) + prop_bytes(self@, PropertyId::ResponseInformation) + prop_bytes(self@, PropertyId::ServerReference) + prop_bytes(self@, PropertyId::AuthenticationMethod) + prop_bytes(self@, PropertyId::AuthenticationData)),
    {
        let ghost b0 = buf@;
        put_bool(buf, PropertyId::WildcardSubscriptionAvailable, self.wildcard_subscription_available);
        let ghost s1 = prop_bytes(self@, PropertyId::WildcardSubscriptionAvailable);
        assert(buf@ =~= b0 + s1);
        put_bool(buf, PropertyId::SubscriptionIdentifierAvailable, self.subscription_id_available);
        let ghost s2 = s1 + prop_bytes(self@, PropertyId::SubscriptionIdentifierAvailable);
        assert(buf@ =~= b0 + s2);
        put_bool(buf, PropertyId::SharedSubscriptionAvailable, self.shared_subscription_available);
        let ghost s3 = s2 + prop_bytes(self@, PropertyId::SharedSubscriptionAvailable);
        assert(buf@ =~= b0 + s3);
        put_u16(buf, PropertyId::ServerKeepAlive, self.server_keep_alive);
        let ghost s4 = s3 + prop_bytes(self@, PropertyId::ServerKeepAlive);
        assert(buf@ =~= b0 + s4);
        put_str(buf, PropertyId::ResponseInformation, &self.response_info);
        let ghost s5 = s4 + prop_bytes(self@, PropertyId::ResponseInformation);
        assert(buf@ =~= b0 + s5);
        put_str(buf, PropertyId::ServerReference, &self.server_reference);
        let ghost s6 = s5 + prop_bytes(self@, PropertyId::ServerReference);
        assert(buf@ =~= b0 + s6);
        put_str(buf, PropertyId::AuthenticationMethod, &self.auth_method);
        let ghost s7 = s6 + prop_bytes(self@, PropertyId::AuthenticationMethod);
        assert(buf@ =~= b0 + s7);
        put_bin(buf, PropertyId::AuthenticationData, &self.auth_data);
        let ghost s8 = s7 + prop_bytes(self@, PropertyId::AuthenticationData);
        assert(buf@ =~= b0 + s8);
    }

    /// The encoded length.
    pub fn encode_len(&self) -> (r: usize)
        requires
            props_body(self@, Self::fields_order()).len() < VAR_INT_LIMIT,
        ensures
            r == props_encode(self@, Self::fields_order()).len(),
            r < 268435460,
    {
        let len = self.body_len();
        proof {
            lemma_var_int_len(len as nat);
        }
        len + var_int_len(len).unwrap()
    }

    /// Decodes the properties at the cursor.
    pub fn decode(buf: &mut PacketBuf) -> (r: Result<ConnackProperties, ErrorV5>)
        ensures
            final(buf).bytes() == old(buf).bytes(),
            match sp_properties(old(buf).bytes(), old(buf).pos(), PropsKind::Connack) {
                Ok(((m, _, _), next)) => r matches Ok(p) && p@ == m && final(buf).pos() == next,
                Err(e) => r matches Err(x) && x.is(e),
            },
    {
        let (set, _, _) = decode_properties(buf, PropsKind::Connack)?;
        proof {
            lemma_restricted(old(buf).bytes(), old(buf).pos(), PropsKind::Connack);
        }
        Ok(ConnackProperties::from_set(set))
    }
}

/// Properties of the disconnect packet.
#[derive(Debug, Clone, PartialEq, Eq)]
pub struct DisconnectProperties {
    pub session_expiry_interval: Option<u32>,
    pub reason_string: Option<String>,
    pub user_properties: Vec<UserProperty>,
    pub server_reference: Option<String>,
}

impl View for DisconnectProperties {
    type V = PropsModel;

    open spec fn view(&self) -> PropsModel {
        PropsModel {
            session_expiry_interval: ov_u32(self.session_expiry_interval),
            server_reference: ov_str(self.server_reference),
            reason_string: ov_str(self.reason_string),
            user_properties: users_view(self.user_properties),
            ..PropsModel::empty()
        }
    }
}

impl Default for DisconnectProperties {
    fn default() -> (r: DisconnectProperties)
        ensures
            r@ == PropsModel::empty(),
    {
        let r = DisconnectProperties {
            session_expiry_interval: None,
            reason_string: None,
            user_properties: Vec::new(),
            server_reference: None,
        };
        assert(r@.user_properties =~= Seq::<(Seq<u8>, Seq<u8>)>::empty());
        r
    }
}

impl DisconnectProperties {
    /// The order in which the properties are written.
    pub open spec fn fields_order() -> Seq<PropertyId> {
        seq![PropertyId::SessionExpiryInterval, PropertyId::ReasonString, PropertyId::ServerReference]
    }

    /// The written properties, one by one.
    pub proof fn lemma_fields(m: PropsModel)
        ensures
            fields_bytes(m, Self::fields_order()) == prop_bytes(m, PropertyId::SessionExpiryInterval) + prop_bytes(m, PropertyId::ReasonString) + prop_bytes(m, PropertyId::ServerReference),
    {
        let s = Self::fields_order();
        assert(s.take(3).drop_last() =~= s.take(2));
        assert(s.take(2).drop_last() =~= s.take(1));
        assert(s.take(1).drop_last() =~= s.take(0));
        assert(s.take(3) =~= s);
        assert(s.take(0) =~= Seq::<PropertyId>::empty());
        assert(fields_bytes(m, s.take(1)) == fields_bytes(m, s.take(0)) + prop_bytes(m, s.take(1).last()));
        assert(fields_bytes(m, s.take(2)) == fields_bytes(m, s.take(1)) + prop_bytes(m, s.take(2).last()));
        assert(fields_bytes(m, s.take(3)) == fields_bytes(m, s.take(2)) + prop_bytes(m, s.take(3).last()));
        assert(fields_bytes(m, Seq::<PropertyId>::empty()) == Seq::<u8>::empty());
    }

    /// Takes the properties of the kind out of a set.
    pub fn from_set(s: PropertySet) -> (r: DisconnectProperties)
        ensures
            r@ == s@.restrict(PropsKind::Disconnect),
    {
        DisconnectProperties {
            session_expiry_interval: s.session_expiry_interval,
            reason_string: s.reason_string,
            user_properties: s.user_properties,
            server_reference: s.server_reference,
        }
    }

    /// Whether no property is present.
    pub fn is_default(&self) -> (r: bool)
        ensures
            r == (self@ == PropsModel::empty()),
    {
        let r = self.session_expiry_interval.is_none()
            && self.reason_string.is_none()
            && self.server_reference.is_none()
            && self.user_properties.len() == 0;
        proof {
            if self.user_properties.len() == 0 {
                assert(self@.user_properties =~= Seq::<(Seq<u8>, Seq<u8>)>::empty());
            }
            if self@ == PropsModel::empty() {
                assert(self@.user_properties.len() == 0);
            }
        }
        r
    }

    /// The length of the properties after their length.
    #[verifier::rlimit(40)]
    fn body_len(&self) -> (r: usize)
        requires
            props_body(self@, Self::fields_order()).len() < VAR_INT_LIMIT,
        ensures
            r == props_body(self@, Self::fields_order()).len(),
    {
        proof {
            Self::lemma_fields(self@);
        }
        let mut n: usize = users_len(&self.user_properties);
        n = n + len_u32(self.session_expiry_interval, PropertyId::SessionExpiryInterval);
        n = n + len_str(&self.reason_string, PropertyId::ReasonString);
        n = n + len_str(&self.server_reference, PropertyId::ServerReference);
        n
    }

    /// Appends the encoding: the length, the properties in order, then the
    /// user properties.
    #[verifier::rlimit(40)]
    pub fn encode(&self, buf: &mut Vec<u8>)
        requires
            props_body(self@, Self::fields_order()).len() < VAR_INT_LIMIT,
        ensures
            final(buf)@ == old(buf)@ + props_encode(self@, Self::fields_order()),
    {
        proof {
            Self::lemma_fields(self@);
        }
        let len = self.body_len();
        write_var_int(buf, len);
        let ghost b0 = buf@;
        let ghost s0 = Seq::<u8>::empty();
        put_u32(buf, PropertyId::SessionExpiryInterval, self.session_expiry_interval);
        let ghost s1 = prop_bytes(self@, PropertyId::SessionExpiryInterval);
        assert(buf@ =~= b0 + s1);
        put_str(buf, PropertyId::ReasonString, &self.reason_string);
        let ghost s2 = s1 + prop_bytes(self@, PropertyId::ReasonString);
        assert(buf@ =~= b0 + s2);
        put_str(buf, PropertyId::ServerReference, &self.server_reference);
        let ghost s3 = s2 + prop_bytes(self@, PropertyId::ServerReference);
        assert(buf@ =~= b0 + s3);
        let ghost b1 = buf@;
        put_users(buf, &self.user_properties);
        proof {
            assert(buf@ =~= old(buf)@ + props_encode(self@, Self::fields_order()));
        }
    }

    /// The encoded length.
    pub fn encode_len(&self) -> (r: usize)
        requires
            props_body(self@, Self::fields_order()).len() < VAR_INT_LIMIT,
        ensures
            r == props_encode(self@, Self::fields_order()).len(),
            r < 268435460,
    {
        let len = self.body_len();
        proof {
            lemma_var_int_len(len as nat);
        }
        len + var_int_len(len).unwrap()
    }

    /// Decodes the properties at the cursor.
    pub fn decode(buf: &mut PacketBuf) -> (r: Result<DisconnectProperties, ErrorV5>)
        ensures
            final(buf).bytes() == old(buf).bytes(),
            match sp_properties(old(buf).bytes(), old(buf).pos(), PropsKind::Disconnect) {
                Ok(((m, _, _), next)) => r matches Ok(p) && p@ == m && final(buf).pos() == next,
                Err(e) => r matches Err(x) && x.is(e),
            },
    {
        let (set, _, _) = decode_properties(buf, PropsKind::Disconnect)?;
        proof {
            lemma_restricted(old(buf).bytes(), old(buf).pos(), PropsKind::Disconnect);
        }
        Ok(DisconnectProperties::from_set(set))
    }
}

/// Properties of the auth packet.
#[derive(Debug, Clone, PartialEq, Eq)]
pub struct AuthProperties {
    pub auth_method: Option<String>,
    pub auth_data: Option<Vec<u8>>,
    pub reason_string: Option<String>,
    pub user_properties: Vec<UserProperty>,
}

impl View for AuthProperties {
    type V = PropsModel;

    open spec fn view(&self) -> PropsModel {
        PropsModel {
            auth_method: ov_str(self.auth_method),
            auth_data: ov_bin(self.auth_data),
            reason_string: ov_str(self.reason_string),
            user_properties: users_view(self.user_properties),
            ..PropsModel::empty()
        }
    }
}

impl Default for AuthProperties {
    fn default() -> (r: AuthProperties)
        ensures
            r@ == PropsModel::empty(),
    {
        let r = AuthProperties {
            auth_method: None,
            auth_data: None,
            reason_string: None,
            user_properties: Vec::new(),
        };
        assert(r@.user_properties =~= Seq::<(Seq<u8>, Seq<u8>)>::empty());
        r
    }
}

impl AuthProperties {
    /// The order in which the properties are written.
    pub open spec fn fields_order() -> Seq<PropertyId> {
        seq![PropertyId::AuthenticationMethod, PropertyId::AuthenticationData, PropertyId::ReasonString]
    }

    /// The written properties, one by one.
    pub proof fn lemma_fields(m: PropsModel)
        ensures
            fields_bytes(m, Self::fields_order()) == prop_bytes(m, PropertyId::AuthenticationMethod) + prop_bytes(m, PropertyId::AuthenticationData) + prop_bytes(m, PropertyId::ReasonString),
    {
        let s = Self::fields_order();
        assert(s.take(3).drop_last() =~= s.take(2));
        assert(s.take(2).drop_last() =~= s.take(1));
        assert(s.take(1).drop_last() =~= s.take(0));
        assert(s.take(3) =~= s);
        assert(s.take(0) =~= Seq::<PropertyId>::empty());
        assert(fields_bytes(m, s.take(1)) == fields_bytes(m, s.take(0)) + prop_bytes(m, s.take(1).last()));
        assert(fields_bytes(m, s.take(2)) == fields_bytes(m, s.take(1)) + prop_bytes(m, s.take(2).last()));
        assert(fields_bytes(m, s.take(3)) == fields_bytes(m, s.take(2)) + prop_bytes(m, s.take(3).last()));
        assert(fields_bytes(m, Seq::<PropertyId>::empty()) == Seq::<u8>::empty());
    }

    /// Takes the properties of the kind out of a set.
    pub fn from_set(s: PropertySet) -> (r: AuthProperties)
        ensures
            r@ == s@.restrict(PropsKind::Auth),
    {
        AuthProperties {
            auth_method: s.auth_method,
            auth_data: s.auth_data,
            reason_string: s.reason_string,
            user_properties: s.user_properties,
        }
    }

    /// Whether no property is present.
    pub fn is_default(&self) -> (r: bool)
        ensures
            r == (self@ == PropsModel::empty()),
    {
        let r = self.auth_method.is_none()
            && self.auth_data.is_none()
            && self.reason_string.is_none()
            && self.user_properties.len() == 0;
        proof {
            if self.user_properties.len() == 0 {
                assert(self@.user_properties =~= Seq::<(Seq<u8>, Seq<u8>)>::empty());
            }
            if self@ == PropsModel::empty() {
                assert(self@.user_properties.len() == 0);
            }
        }
        r
    }

    /// The length of the properties after their length.
    #[verifier::rlimit(40)]
    fn body_len(&self) -> (r: usize)
        requires
            props_body(self@, Self::fields_order()).len() < VAR_INT_LIMIT,
        ensures
            r == props_body(self@, Self::fields_order()).len(),
    {
        proof {
            Self::lemma_fields(self@);
        }
        let mut n: usize = users_len(&self.user_properties);
        n = n + len_str(&self.auth_method, PropertyId::AuthenticationMethod);
        n = n + len_bin(&self.auth_data, PropertyId::AuthenticationData);
        n = n + len_str(&self.reason_string, PropertyId::ReasonString);
        n
    }

    /// Appends the encoding: the length, the properties in order, then the
    /// user properties.
    #[verifier::rlimit(40)]
    pub fn encode(&self, buf: &mut Vec<u8>)
        requires
            props_body(self@, Self::fields_order()).len() < VAR_INT_LIMIT,
        ensures
            final(buf)@ == old(buf)@ + props_encode(self@, Self::fields_order()),
    {
        proof {
            Self::lemma_fields(self@);
        }
        let len = self.body_len();
        write_var_int(buf, len);
        let ghost b0 = buf@;
        let ghost s0 = Seq::<u8>::empty();
        put_str(buf, PropertyId::AuthenticationMethod, &self.auth_method);
        let ghost s1 = prop_bytes(self@, PropertyId::AuthenticationMethod);
        assert(buf@ =~= b0 + s1);
        put_bin(buf, PropertyId::AuthenticationData, &self.auth_data);
        let ghost s2 = s1 + prop_bytes(self@, PropertyId::AuthenticationData);
        assert(buf@ =~= b0 + s2);
        put_str(buf, PropertyId::ReasonString, &self.reason_string);
        let ghost s3 = s2 + prop_bytes(self@, PropertyId::ReasonString);
        assert(buf@ =~= b0 + s3);
        let ghost b1 = buf@;
        put_users(buf, &self.user_properties);
        proof {
            assert(buf@ =~= old(buf)@ + props_encode(self@, Self::fields_order()));
        }
    }

    /// The encoded length.
    pub fn encode_len(&self) -> (r: usize)
        requires
            props_body(self@, Self::fields_order()).len() < VAR_INT_LIMIT,
        ensures
            r == props_encode(self@, Self::fields_order()).len(),
            r < 268435460,
    {
        let len = self.body_len();
        proof {
            lemma_var_int_len(len as nat);
        }
        len + var_int_len(len).unwrap()
    }

    /// Decodes the properties at the cursor.
    pub fn decode(buf: &mut PacketBuf) -> (r: Result<AuthProperties, ErrorV5>)
        ensures
            final(buf).bytes() == old(buf).bytes(),
            match sp_properties(old(buf).bytes(), old(buf).pos(), PropsKind::Auth) {
                Ok(((m, _, _), next)) => r matches Ok(p) && p@ == m && final(buf).pos() == next,
                Err(e) => r matches Err(x) && x.is(e),
            },
    {
        let (set, _, _) = decode_properties(buf, PropsKind::Auth)?;
        proof {
            lemma_restricted(old(buf).bytes(), old(buf).pos(), PropsKind::Auth);
        }
        Ok(AuthProperties::from_set(set))
    }
}

/// Properties of the publish packet.
#[derive(Debug, Clone, PartialEq, Eq)]
pub struct PublishProperties {
    pub payload_is_utf8: Option<bool>,
    pub message_expiry_interval: Option<u32>,
    pub topic_alias: Option<u16>,
    pub response_topic: Option<TopicName>,
    pub correlation_data: Option<Vec<u8>>,
    pub user_properties: Vec<UserProperty>,
    pub subscription_id: Option<VarByteInt>,
    pub content_type: Option<String>,
}

impl View for PublishProperties {
    type V = PropsModel;

    open spec fn view(&self) -> PropsModel {
        PropsModel {
            payload_is_utf8: ov_bool(self.payload_is_utf8),
            message_expiry_interval: ov_u32(self.message_expiry_interval),
            content_type: ov_str(self.content_type),
            response_topic: ov_topic(self.response_topic),
            correlation_data: ov_bin(self.correlation_data),
            subscription_id: ov_int(self.subscription_id),
            topic_alias: ov_u16(self.topic_alias),
            user_properties: users_view(self.user_properties),
            ..PropsModel::empty()
        }
    }
}

impl Default for PublishProperties {
    fn default() -> (r: PublishProperties)
        ensures
            r@ == PropsModel::empty(),
    {
        let r = PublishProperties {
            payload_is_utf8: None,
            message_expiry_interval: None,
            topic_alias: None,
            response_topic: None,
            correlation_data: None,
            user_properties: Vec::new(),
            subscription_id: None,
            content_type: None,
        };
        assert(r@.user_properties =~= Seq::<(Seq<u8>, Seq<u8>)>::empty());
        r
    }
}

impl PublishProperties {
    /// The order in which the properties are written.
    pub open spec fn fields_order() -> Seq<PropertyId> {
        seq![PropertyId::PayloadFormatIndicator, PropertyId::MessageExpiryInterval, PropertyId::TopicAlias, PropertyId::ResponseTopic, PropertyId::CorrelationData, PropertyId::SubscriptionIdentifier, PropertyId::ContentType]
    }

    /// The written properties, one by one.
    pub proof fn lemma_fields(m: PropsModel)
        ensures
            fields_bytes(m, Self::fields_order()) == prop_bytes(m, PropertyId::PayloadFormatIndicator) + prop_bytes(m, PropertyId::MessageExpiryInterval) + prop_bytes(m, PropertyId::TopicAlias) + prop_bytes(m, PropertyId::ResponseTopic) + prop_bytes(m, PropertyId::CorrelationData) + prop_bytes(m, PropertyId::SubscriptionIdentifier) + prop_bytes(m, PropertyId::ContentType),
    {
        let s = Self::fields_order();
        assert(s.take(7).drop_last() =~= s.take(6));
        assert(s.take(6).drop_last() =~= s.take(5));
        assert(s.take(5).drop_last() =~= s.take(4));
        assert(s.take(4).drop_last() =~= s.take(3));
        assert(s.take(3).drop_last() =~= s.take(2));
        assert(s.take(2).drop_last() =~= s.take(1));
        assert(s.take(1).drop_last() =~= s.take(0));
        assert(s.take(7) =~= s);
        assert(s.take(0) =~= Seq::<PropertyId>::empty());
        assert(fields_bytes(m, s.take(1)) == fields_bytes(m, s.take(0)) + prop_bytes(m, s.take(1).last()));
        assert(fields_bytes(m, s.take(2)) == fields_bytes(m, s.take(1)) + prop_bytes(m, s.take(2).last()));
        assert(fields_bytes(m, s.take(3)) == fields_bytes(m, s.take(2)) + prop_bytes(m, s.take(3).last()));
        assert(fields_bytes(m, s.take(4)) == fields_bytes(m, s.take(3)) + prop_bytes(m, s.take(4).last()));
        assert(fields_bytes(m, s.take(5)) == fields_bytes(m, s.take(4)) + prop_bytes(m, s.take(5).last()));
        assert(fields_bytes(m, s.take(6)) == fields_bytes(m, s.take(5)) + prop_bytes(m, s.take(6).last()));
        assert(fields_bytes(m, s.take(7)) == fields_bytes(m, s.take(6)) + prop_bytes(m, s.take(7).last()));
        assert(fields_bytes(m, Seq::<PropertyId>::empty()) == Seq::<u8>::empty());
    }

    /// Takes the properties of the kind out of a set.
    pub fn from_set(s: PropertySet) -> (r: PublishProperties)
        ensures
            r@ == s@.restrict(PropsKind::Publish),
    {
        PublishProperties {
            payload_is_utf8: s.payload_is_utf8,
            message_expiry_interval: s.message_expiry_interval,
            topic_alias: s.topic_alias,
            response_topic: s.response_topic,
            correlation_data: s.correlation_data,
            user_properties: s.user_properties,
            subscription_id: s.subscription_id,
            content_type: s.content_type,
        }
    }

    /// Whether no property is present.
    pub fn is_default(&self) -> (r: bool)
        ensures
            r == (self@ == PropsModel::empty()),
    {
        let r = self.payload_is_utf8.is_none()
            && self.message_expiry_interval.is_none()
            && self.topic_alias.is_none()
            && self.response_topic.is_none()
            && self.correlation_data.is_none()
            && self.subscription_id.is_none()
            && self.content_type.is_none()
            && self.user_properties.len() == 0;
        proof {
            if self.user_properties.len() == 0 {
                assert(self@.user_properties =~= Seq::<(Seq<u8>, Seq<u8>)>::empty());
            }
            if self@ == PropsModel::empty() {
                assert(self@.user_properties.len() == 0);
            }
        }
        r
    }

    /// The length of the properties after their length.
    #[verifier::rlimit(40)]
    fn body_len(&self) -> (r: usize)
        requires
            props_body(self@, Self::fields_order()).len() < VAR_INT_LIMIT,
        ensures
            r == props_body(self@, Self::fields_order()).len(),
    {
        proof {
            Self::lemma_fields(self@);
        }
        let mut n: usize = users_len(&self.user_properties);
        n = n + len_bool(self.payload_is_utf8, PropertyId::PayloadFormatIndicator);
        n = n + len_u32(self.message_expiry_interval, PropertyId::MessageExpiryInterval);
        n = n + len_u16(self.topic_alias, PropertyId::TopicAlias);
        n = n + len_topic(&self.response_topic, PropertyId::ResponseTopic);
        n = n + len_bin(&self.correlation_data, PropertyId::CorrelationData);
        n = n + len_int(self.subscription_id, PropertyId::SubscriptionIdentifier);
        n = n + len_str(&self.content_type, PropertyId::ContentType);
        n
    }

    /// Appends the encoding: the length, the properties in order, then the
    /// user properties.
    #[verifier::rlimit(40)]
    pub fn encode(&self, buf: &mut Vec<u8>)
        requires
            props_body(self@, Self::fields_order()).len() < VAR_INT_LIMIT,
        ensures
            final(buf)@ == old(buf)@ + props_encode(self@, Self::fields_order()),
    {
        proof {
            Self::lemma_fields(self@);
        }
        let len = self.body_len();
        write_var_int(buf, len);
        let ghost b0 = buf@;
        let ghost s0 = Seq::<u8>::empty();
        put_bool(buf, PropertyId::PayloadFormatIndicator, self.payload_is_utf8);
        let ghost s1 = prop_bytes(self@, PropertyId::PayloadFormatIndicator);
        assert(buf@ =~= b0 + s1);
        put_u32(buf, PropertyId::MessageExpiryInterval, self.message_expiry_interval);
        let ghost s2 = s1 + prop_bytes(self@, PropertyId::MessageExpiryInterval);
        assert(buf@ =~= b0 + s2);
        put_u16(buf, PropertyId::TopicAlias, self.topic_alias);
        let ghost s3 = s2 + prop_bytes(self@, PropertyId::TopicAlias);
        assert(buf@ =~= b0 + s3);
        put_topic(buf, PropertyId::ResponseTopic, &self.response_topic);
        let ghost s4 = s3 + prop_bytes(self@, PropertyId::ResponseTopic);
        assert(buf@ =~= b0 + s4);
        put_bin(buf, PropertyId::CorrelationData, &self.correlation_data);
        let ghost s5 = s4 + prop_bytes(self@, PropertyId::CorrelationData);
        assert(buf@ =~= b0 + s5);
        put_int(buf, PropertyId::SubscriptionIdentifier, self.subscription_id);
        let ghost s6 = s5 + prop_bytes(self@, PropertyId::SubscriptionIdentifier);
        assert(buf@ =~= b0 + s6);
        put_str(buf, PropertyId::ContentType, &self.content_type);
        let ghost s7 = s6 + prop_bytes(self@, PropertyId::ContentType);
        assert(buf@ =~= b0 + s7);
        let ghost b1 = buf@;
        put_users(buf, &self.user_properties);
        proof {
            assert(buf@ =~= old(buf)@ + props_encode(self@, Self::fields_order()));
        }
    }

    /// The encoded length.
    pub fn encode_len(&self) -> (r: usize)
        requires
            props_body(self@, Self::fields_order()).len() < VAR_INT_LIMIT,
        ensures
            r == props_encode(self@, Self::fields_order()).len(),
            r < 268435460,
    {
        let len = self.body_len();
        proof {
            lemma_var_int_len(len as nat);
        }
        len + var_int_len(len).unwrap()
    }

    /// Decodes the properties at the cursor.
    pub fn decode(buf: &mut PacketBuf) -> (r: Result<PublishProperties, ErrorV5>)
        ensures
            final(buf).bytes() == old(buf).bytes(),
            match sp_properties(old(buf).bytes(), old(buf).pos(), PropsKind::Publish) {
                Ok(((m, _, _), next)) => r matches Ok(p) && p@ == m && final(buf).pos() == next,
                Err(e) => r matches Err(x) && x.is(e),
            },
    {
        let (set, _, _) = decode_properties(buf, PropsKind::Publish)?;
        proof {
            lemma_restricted(old(buf).bytes(), old(buf).pos(), PropsKind::Publish);
        }
        Ok(PublishProperties::from_set(set))
    }
}

/// Properties of the puback packet.
#[derive(Debug, Clone, PartialEq, Eq)]
pub struct PubackProperties {
    pub reason_string: Option<String>,
    pub user_properties: Vec<UserProperty>,
}

impl View for PubackProperties {
    type V = PropsModel;

    open spec fn view(&self) -> PropsModel {
        PropsModel {
            reason_string: ov_str(self.reason_string),
            user_properties: users_view(self.user_properties),
            ..PropsModel::empty()
        }
    }
}

impl Default for PubackProperties {
    fn default() -> (r: PubackProperties)
        ensures
            r@ == PropsModel::empty(),
    {
        let r = PubackProperties {
            reason_string: None,
            user_properties: Vec::new(),
        };
        assert(r@.user_properties =~= Seq::<(Seq<u8>, Seq<u8>)>::empty());
        r
    }
}

impl PubackProperties {
    /// The order in which the properties are written.
    pub open spec fn fields_order() -> Seq<PropertyId> {
        seq![PropertyId::ReasonString]
    }

    /// The written properties, one by one.
    pub proof fn lemma_fields(m: PropsModel)
        ensures
            fields_bytes(m, Self::fields_order()) == prop_bytes(m, PropertyId::ReasonString),
    {
        let s = Self::fields_order();
        assert(s.take(1).drop_last() =~= s.take(0));
        assert(s.take(1) =~= s);
        assert(s.take(0) =~= Seq::<PropertyId>::empty());
        assert(fields_bytes(m, s.take(1)) == fields_bytes(m, s.take(0)) + prop_bytes(m, s.take(1).last()));
        assert(fields_bytes(m, Seq::<PropertyId>::empty()) == Seq::<u8>::empty());
    }

    /// Takes the properties of the kind out of a set.
    pub fn from_set(s: PropertySet) -> (r: PubackProperties)
        ensures
            r@ == s@.restrict(PropsKind::Puback),
    {
        PubackProperties {
            reason_string: s.reason_string,
            user_properties: s.user_properties,
        }
    }

    /// Whether no property is present.
    pub fn is_default(&self) -> (r: bool)
        ensures
            r == (self@ == PropsModel::empty()),
    {
        let r = self.reason_string.is_none()
            && self.user_properties.len() == 0;
        proof {
            if self.user_properties.len() == 0 {
                assert(self@.user_properties =~= Seq::<(Seq<u8>, Seq<u8>)>::empty());
            }
            if self@ == PropsModel::empty() {
                assert(self@.user_properties.len() == 0);
            }
        }
        r
    }

    /// The length of the properties after their length.
    #[verifier::rlimit(40)]
    fn body_len(&self) -> (r: usize)
        requires
            props_body(self@, Self::fields_order()).len() < VAR_INT_LIMIT,
        ensures
            r == props_body(self@, Self::fields_order()).len(),
    {
        proof {
            Self::lemma_fields(self@);
        }
        let mut n: usize = users_len(&self.user_properties);
        n = n + len_str(&self.reason_string, PropertyId::ReasonString);
        n
    }

    /// Appends the encoding: the length, the properties in order, then the
    /// user properties.
    #[verifier::rlimit(40)]
    pub fn encode(&self, buf: &mut Vec<u8>)
        requires
            props_body(self@, Self::fields_order()).len() < VAR_INT_LIMIT,
        ensures
            final(buf)@ == old(buf)@ + props_encode(self@, Self::fields_order()),
    {
        proof {
            Self::lemma_fields(self@);
        }
        let len = self.body_len();
        write_var_int(buf, len);
        let ghost b0 = buf@;
        let ghost s0 = Seq::<u8>::empty();
        put_str(buf, PropertyId::ReasonString, &self.reason_string);
        let ghost s1 = prop_bytes(self@, PropertyId::ReasonString);
        assert(buf@ =~= b0 + s1);
        let ghost b1 = buf@;
        put_users(buf, &self.user_properties);
        proof {
            assert(buf@ =~= old(buf)@ + props_encode(self@, Self::fields_order()));
        }
    }

    /// The encoded length.
    pub fn encode_len(&self) -> (r: usize)
        requires
            props_body(self@, Self::fields_order()).len() < VAR_INT_LIMIT,
        ensures
            r == props_encode(self@, Self::fields_order()).len(),
            r < 268435460,
    {
        let len = self.body_len();
        proof {
            lemma_var_int_len(len as nat);
        }
        len + var_int_len(len).unwrap()
    }

    /// Decodes the properties at the cursor.
    pub fn decode(buf: &mut PacketBuf) -> (r: Result<PubackProperties, ErrorV5>)
        ensures
            final(buf).bytes() == old(buf).bytes(),
            match sp_properties(old(buf).bytes(), old(buf).pos(), PropsKind::Puback) {
                Ok(((m, _, _), next)) => r matches Ok(p) && p@ == m && final(buf).pos() == next,
                Err(e) => r matches Err(x) && x.is(e),
            },
    {
        let (set, _, _) = decode_properties(buf, PropsKind::Puback)?;
        proof {
            lemma_restricted(old(buf).bytes(), old(buf).pos(), PropsKind::Puback);
        }
        Ok(PubackProperties::from_set(set))
    }
}

/// Properties of the pubrec packet.
#[derive(Debug, Clone, PartialEq, Eq)]
pub struct PubrecProperties {
    pub reason_string: Option<String>,
    pub user_properties: Vec<UserProperty>,
}

impl View for PubrecProperties {
    type V = PropsModel;

    open spec fn view(&self) -> PropsModel {
        PropsModel {
            reason_string: ov_str(self.reason_string),
            user_properties: users_view(self.user_properties),
            ..PropsModel::empty()
        }
    }
}

impl Default for PubrecProperties {
    fn default() -> (r: PubrecProperties)
        ensures
            r@ == PropsModel::empty(),
    {
        let r = PubrecProperties {
            reason_string: None,
            user_properties: Vec::new(),
        };
        assert(r@.user_properties =~= Seq::<(Seq<u8>, Seq<u8>)>::empty());
        r
    }
}

impl PubrecProperties {
    /// The order in which the properties are written.
    pub open spec fn fields_order() -> Seq<PropertyId> {
        seq![PropertyId::ReasonString]
    }

    /// The written properties, one by one.
    pub proof fn lemma_fields(m: PropsModel)
        ensures
            fields_bytes(m, Self::fields_order()) == prop_bytes(m, PropertyId::ReasonString),
    {
        let s = Self::fields_order();
        assert(s.take(1).drop_last() =~= s.take(0));
        assert(s.take(1) =~= s);
        assert(s.take(0) =~= Seq::<PropertyId>::empty());
        assert(fields_bytes(m, s.take(1)) == fields_bytes(m, s.take(0)) + prop_bytes(m, s.take(1).last()));
        assert(fields_bytes(m, Seq::<PropertyId>::empty()) == Seq::<u8>::empty());
    }

    /// Takes the properties of the kind out of a set.
    pub fn from_set(s: PropertySet) -> (r: PubrecProperties)
        ensures
            r@ == s@.restrict(PropsKind::Pubrec),
    {
        PubrecProperties {
            reason_string: s.reason_string,
            user_properties: s.user_properties,
        }
    }

    /// Whether no property is present.
    pub fn is_default(&self) -> (r: bool)
        ensures
            r == (self@ == PropsModel::empty()),
    {
        let r = self.reason_string.is_none()
            && self.user_properties.len() == 0;
        proof {
            if self.user_properties.len() == 0 {
                assert(self@.user_properties =~= Seq::<(Seq<u8>, Seq<u8>)>::empty());
            }
            if self@ == PropsModel::empty() {
                assert(self@.user_properties.len() == 0);
            }
        }
        r
    }

    /// The length of the properties after their length.
    #[verifier::rlimit(40)]
    fn body_len(&self) -> (r: usize)
        requires
            props_body(self@, Self::fields_order()).len() < VAR_INT_LIMIT,
        ensures
            r == props_body(self@, Self::fields_order()).len(),
    {
        proof {
            Self::lemma_fields(self@);
        }
        let mut n: usize = users_len(&self.user_properties);
        n = n + len_str(&self.reason_string, PropertyId::ReasonString);
        n
    }

    /// Appends the encoding: the length, the properties in order, then the
    /// user properties.
    #[verifier::rlimit(40)]
    pub fn encode(&self, buf: &mut Vec<u8>)
        requires
            props_body(self@, Self::fields_order()).len() < VAR_INT_LIMIT,
        ensures
            final(buf)@ == old(buf)@ + props_encode(self@, Self::fields_order()),
    {
        proof {
            Self::lemma_fields(self@);
        }
        let len = self.body_len();
        write_var_int(buf, len);
        let ghost b0 = buf@;
        let ghost s0 = Seq::<u8>::empty();
        put_str(buf, PropertyId::ReasonString, &self.reason_string);
        let ghost s1 = prop_bytes(self@, PropertyId::ReasonString);
        assert(buf@ =~= b0 + s1);
        let ghost b1 = buf@;
        put_users(buf, &self.user_properties);
        proof {
            assert(buf@ =~= old(buf)@ + props_encode(self@, Self::fields_order()));
        }
    }

    /// The encoded length.
    pub fn encode_len(&self) -> (r: usize)
        requires
            props_body(self@, Self::fields_order()).len() < VAR_INT_LIMIT,
        ensures
            r == props_encode(self@, Self::fields_order()).len(),
            r < 268435460,
    {
        let len = self.body_len();
        proof {
            lemma_var_int_len(len as nat);
        }
        len + var_int_len(len).unwrap()
    }

    /// Decodes the properties at the cursor.
    pub fn decode(buf: &mut PacketBuf) -> (r: Result<PubrecProperties, ErrorV5>)
        ensures
            final(buf).bytes() == old(buf).bytes(),
            match sp_properties(old(buf).bytes(), old(buf).pos(), PropsKind::Pubrec) {
                Ok(((m, _, _), next)) => r matches Ok(p) && p@ == m && final(buf).pos() == next,
                Err(e) => r matches Err(x) && x.is(e),
            },
    {
        let (set, _, _) = decode_properties(buf, PropsKind::Pubrec)?;
        proof {
            lemma_restricted(old(buf).bytes(), old(buf).pos(), PropsKind::Pubrec);
        }
        Ok(PubrecProperties::from_set(set))
    }
}

/// Properties of the pubrel packet.
#[derive(Debug, Clone, PartialEq, Eq)]
pub struct PubrelProperties {
    pub reason_string: Option<String>,
    pub user_properties: Vec<UserProperty>,
}

impl View for PubrelProperties {
    type V = PropsModel;

    open spec fn view(&self) -> PropsModel {
        PropsModel {
            reason_string: ov_str(self.reason_string),
            user_properties: users_view(self.user_properties),
            ..PropsModel::empty()
        }
    }
}

impl Default for PubrelProperties {
    fn default() -> (r: PubrelProperties)
        ensures
            r@ == PropsModel::empty(),
    {
        let r = PubrelProperties {
            reason_string: None,
            user_properties: Vec::new(),
        };
        assert(r@.user_properties =~= Seq::<(Seq<u8>, Seq<u8>)>::empty());
        r
    }
}

impl PubrelProperties {
    /// The order in which the properties are written.
    pub open spec fn fields_order() -> Seq<PropertyId> {
        seq![PropertyId::ReasonString]
    }

    /// The written properties, one by one.
    pub proof fn lemma_fields(m: PropsModel)
        ensures
            fields_bytes(m, Self::fields_order()) == prop_bytes(m, PropertyId::ReasonString),
    {
        let s = Self::fields_order();
        assert(s.take(1).drop_last() =~= s.take(0));
        assert(s.take(1) =~= s);
        assert(s.take(0) =~= Seq::<PropertyId>::empty());
        assert(fields_bytes(m, s.take(1)) == fields_bytes(m, s.take(0)) + prop_bytes(m, s.take(1).last()));
        assert(fields_bytes(m, Seq::<PropertyId>::empty()) == Seq::<u8>::empty());
    }

    /// Takes the properties of the kind out of a set.
    pub fn from_set(s: PropertySet) -> (r: PubrelProperties)
        ensures
            r@ == s@.restrict(PropsKind::Pubrel),
    {
        PubrelProperties {
            reason_string: s.reason_string,
            user_properties: s.user_properties,
        }
    }

    /// Whether no property is present.
    pub fn is_default(&self) -> (r: bool)
        ensures
            r == (self@ == PropsModel::empty()),
    {
        let r = self.reason_string.is_none()
            && self.user_properties.len() == 0;
        proof {
            if self.user_properties.len() == 0 {
                assert(self@.user_properties =~= Seq::<(Seq<u8>, Seq<u8>)>::empty());
            }
            if self@ == PropsModel::empty() {
                assert(self@.user_properties.len() == 0);
            }
        }
        r
    }

    /// The length of the properties after their length.
    #[verifier::rlimit(40)]
    fn body_len(&self) -> (r: usize)
        requires
            props_body(self@, Self::fields_order()).len() < VAR_INT_LIMIT,
        ensures
            r == props_body(self@, Self::fields_order()).len(),
    {
        proof {
            Self::lemma_fields(self@);
        }
        let mut n: usize = users_len(&self.user_properties);
        n = n + len_str(&self.reason_string, PropertyId::ReasonString);
        n
    }

    /// Appends the encoding: the length, the properties in order, then the
    /// user properties.
    #[verifier::rlimit(40)]
    pub fn encode(&self, buf: &mut Vec<u8>)
        requires
            props_body(self@, Self::fields_order()).len() < VAR_INT_LIMIT,
        ensures
            final(buf)@ == old(buf)@ + props_encode(self@, Self::fields_order()),
    {
        proof {
            Self::lemma_fields(self@);
        }
        let len = self.body_len();
        write_var_int(buf, len);
        let ghost b0 = buf@;
        let ghost s0 = Seq::<u8>::empty();
        put_str(buf, PropertyId::ReasonString, &self.reason_string);
        let ghost s1 = prop_bytes(self@, PropertyId::ReasonString);
        assert(buf@ =~= b0 + s1);
        let ghost b1 = buf@;
        put_users(buf, &self.user_properties);
        proof {
            assert(buf@ =~= old(buf)@ + props_encode(self@, Self::fields_order()));
        }
    }

    /// The encoded length.
    pub fn encode_len(&self) -> (r: usize)
        requires
            props_body(self@, Self::fields_order()).len() < VAR_INT_LIMIT,
        ensures
            r == props_encode(self@, Self::fields_order()).len(),
            r < 268435460,
    {
        let len = self.body_len();
        proof {
            lemma_var_int_len(len as nat);
        }
        len + var_int_len(len).unwrap()
    }

    /// Decodes the properties at the cursor.
    pub fn decode(buf: &mut PacketBuf) -> (r: Result<PubrelProperties, ErrorV5>)
        ensures
            final(buf).bytes() == old(buf).bytes(),
            match sp_properties(old(buf).bytes(), old(buf).pos(), PropsKind::Pubrel) {
                Ok(((m, _, _), next)) => r matches Ok(p) && p@ == m && final(buf).pos() == next,
                Err(e) => r matches Err(x) && x.is(e),
            },
    {
        let (set, _, _) = decode_properties(buf, PropsKind::Pubrel)?;
        proof {
            lemma_restricted(old(buf).bytes(), old(buf).pos(), PropsKind::Pubrel);
        }
        Ok(PubrelProperties::from_set(set))
    }
}

/// Properties of the pubcomp packet.
#[derive(Debug, Clone, PartialEq, Eq)]
pub struct PubcompProperties {
    pub reason_string: Option<String>,
    pub user_properties: Vec<UserProperty>,
}

impl View for PubcompProperties {
    type V = PropsModel;

    open spec fn view(&self) -> PropsModel {
        PropsModel {
            reason_string: ov_str(self.reason_string),
            user_properties: users_view(self.user_properties),
            ..PropsModel::empty()
        }
    }
}

impl Default for PubcompProperties {
    fn default() -> (r: PubcompProperties)
        ensures
            r@ == PropsModel::empty(),
    {
        let r = PubcompProperties {
            reason_string: None,
            user_properties: Vec::new(),
        };
        assert(r@.user_properties =~= Seq::<(Seq<u8>, Seq<u8>)>::empty());
        r
    }
}

impl PubcompProperties {
    /// The order in which the properties are written.
    pub open spec fn fields_order() -> Seq<PropertyId> {
        seq![PropertyId::ReasonString]
    }

    /// The written properties, one by one.
    pub proof fn lemma_fields(m: PropsModel)
        ensures
            fields_bytes(m, Self::fields_order()) == prop_bytes(m, PropertyId::ReasonString),
    {
        let s = Self::fields_order();
        assert(s.take(1).drop_last() =~= s.take(0));
        assert(s.take(1) =~= s);
        assert(s.take(0) =~= Seq::<PropertyId>::empty());
        assert(fields_bytes(m, s.take(1)) == fields_bytes(m, s.take(0)) + prop_bytes(m, s.take(1).last()));
        assert(fields_bytes(m, Seq::<PropertyId>::empty()) == Seq::<u8>::empty());
    }

    /// Takes the properties of the kind out of a set.
    pub fn from_set(s: PropertySet) -> (r: PubcompProperties)
        ensures
            r@ == s@.restrict(PropsKind::Pubcomp),
    {
        PubcompProperties {
            reason_string: s.reason_string,
            user_properties: s.user_properties,
        }
    }

    /// Whether no property is present.
    pub fn is_default(&self) -> (r: bool)
        ensures
            r == (self@ == PropsModel::empty()),
    {
        let r = self.reason_string.is_none()
            && self.user_properties.len() == 0;
        proof {
            if self.user_properties.len() == 0 {
                assert(self@.user_properties =~= Seq::<(Seq<u8>, Seq<u8>)>::empty());
            }
            if self@ == PropsModel::empty() {
                assert(self@.user_properties.len() == 0);
            }
        }
        r
    }

    /// The length of the properties after their length.
    #[verifier::rlimit(40)]
    fn body_len(&self) -> (r: usize)
        requires
            props_body(self@, Self::fields_order()).len() < VAR_INT_LIMIT,
        ensures
            r == props_body(self@, Self::fields_order()).len(),
    {
        proof {
            Self::lemma_fields(self@);
        }
        let mut n: usize = users_len(&self.user_properties);
        n = n + len_str(&self.reason_string, PropertyId::ReasonString);
        n
    }

    /// Appends the encoding: the length, the properties in order, then the
    /// user properties.
    #[verifier::rlimit(40)]
    pub fn encode(&self, buf: &mut Vec<u8>)
        requires
            props_body(self@, Self::fields_order()).len() < VAR_INT_LIMIT,
        ensures
            final(buf)@ == old(buf)@ + props_encode(self@, Self::fields_order()),
    {
        proof {
            Self::lemma_fields(self@);
        }
        let len = self.body_len();
        write_var_int(buf, len);
        let ghost b0 = buf@;
        let ghost s0 = Seq::<u8>::empty();
        put_str(buf, PropertyId::ReasonString, &self.reason_string);
        let ghost s1 = prop_bytes(self@, PropertyId::ReasonString);
        assert(buf@ =~= b0 + s1);
        let ghost b1 = buf@;
        put_users(buf, &self.user_properties);
        proof {
            assert(buf@ =~= old(buf)@ + props_encode(self@, Self::fields_order()));
        }
    }

    /// The encoded length.
    pub fn encode_len(&self) -> (r: usize)
        requires
            props_body(self@, Self::fields_order()).len() < VAR_INT_LIMIT,
        ensures
            r == props_encode(self@, Self::fields_order()).len(),
            r < 268435460,
    {
        let len = self.body_len();
        proof {
            lemma_var_int_len(len as nat);
        }
        len + var_int_len(len).unwrap()
    }

    /// Decodes the properties at the cursor.
    pub fn decode(buf: &mut PacketBuf) -> (r: Result<PubcompProperties, ErrorV5>)
        ensures
            final(buf).bytes() == old(buf).bytes(),
            match sp_properties(old(buf).bytes(), old(buf).pos(), PropsKind::Pubcomp) {
                Ok(((m, _, _), next)) => r matches Ok(p) && p@ == m && final(buf).pos() == next,
                Err(e) => r matches Err(x) && x.is(e),
            },
    {
        let (set, _, _) = decode_properties(buf, PropsKind::Pubcomp)?;
        proof {
            lemma_restricted(old(buf).bytes(), old(buf).pos(), PropsKind::Pubcomp);
        }
        Ok(PubcompProperties::from_set(set))
    }
}

/// Properties of the subscribe packet.
#[derive(Debug, Clone, PartialEq, Eq)]
pub struct SubscribeProperties {
    pub subscription_id: Option<VarByteInt>,
    pub user_properties: Vec<UserProperty>,
}

impl View for SubscribeProperties {
    type V = PropsModel;

    open spec fn view(&self) -> PropsModel {
        PropsModel {
            subscription_id: ov_int(self.subscription_id),
            user_properties: users_view(self.user_properties),
            ..PropsModel::empty()
        }
    }
}

impl Default for SubscribeProperties {
    fn default() -> (r: SubscribeProperties)
        ensures
            r@ == PropsModel::empty(),
    {
        let r = SubscribeProperties {
            subscription_id: None,
            user_properties: Vec::new(),
        };
        assert(r@.user_properties =~= Seq::<(Seq<u8>, Seq<u8>)>::empty());
        r
    }
}

impl SubscribeProperties {
    /// The order in which the properties are written.
    pub open spec fn fields_order() -> Seq<PropertyId> {
        seq![PropertyId::SubscriptionIdentifier]
    }

    /// The written properties, one by one.
    pub proof fn lemma_fields(m: PropsModel)
        ensures
            fields_bytes(m, Self::fields_order()) == prop_bytes(m, PropertyId::SubscriptionIdentifier),
    {
        let s = Self::fields_order();
        assert(s.take(1).drop_last() =~= s.take(0));
        assert(s.take(1) =~= s);
        assert(s.take(0) =~= Seq::<PropertyId>::empty());
        assert(fields_bytes(m, s.take(1)) == fields_bytes(m, s.take(0)) + prop_bytes(m, s.take(1).last()));
        assert(fields_bytes(m, Seq::<PropertyId>::empty()) == Seq::<u8>::empty());
    }

    /// Takes the properties of the kind out of a set.
    pub fn from_set(s: PropertySet) -> (r: SubscribeProperties)
        ensures
            r@ == s@.restrict(PropsKind::Subscribe),
    {
        SubscribeProperties {
            subscription_id: s.subscription_id,
            user_properties: s.user_properties,
        }
    }

    /// Whether no property is present.
    pub fn is_default(&self) -> (r: bool)
        ensures
            r == (self@ == PropsModel::empty()),
    {
        let r = self.subscription_id.is_none()
            && self.user_properties.len() == 0;
        proof {
            if self.user_properties.len() == 0 {
                assert(self@.user_properties =~= Seq::<(Seq<u8>, Seq<u8>)>::empty());
            }
            if self@ == PropsModel::empty() {
                assert(self@.user_properties.len() == 0);
            }
        }
        r
    }

    /// The length of the properties after their length.
    #[verifier::rlimit(40)]
    fn body_len(&self) -> (r: usize)
        requires
            props_body(self@, Self::fields_order()).len() < VAR_INT_LIMIT,
        ensures
            r == props_body(self@, Self::fields_order()).len(),
    {
        proof {
            Self::lemma_fields(self@);
        }
        let mut n: usize = users_len(&self.user_properties);
        n = n + len_int(self.subscription_id, PropertyId::SubscriptionIdentifier);
        n
    }

    /// Appends the encoding: the length, the properties in order, then the
    /// user properties.
    #[verifier::rlimit(40)]
    pub fn encode(&self, buf: &mut Vec<u8>)
        requires
            props_body(self@, Self::fields_order()).len() < VAR_INT_LIMIT,
        ensures
            final(buf)@ == old(buf)@ + props_encode(self@, Self::fields_order()),
    {
        proof {
            Self::lemma_fields(self@);
        }
        let len = self.body_len();
        write_var_int(buf, len);
        let ghost b0 = buf@;
        let ghost s0 = Seq::<u8>::empty();
        put_int(buf, PropertyId::SubscriptionIdentifier, self.subscription_id);
        let ghost s1 = prop_bytes(self@, PropertyId::SubscriptionIdentifier);
        assert(buf@ =~= b0 + s1);
        let ghost b1 = buf@;
        put_users(buf, &self.user_properties);
        proof {
            assert(buf@ =~= old(buf)@ + props_encode(self@, Self::fields_order()));
        }
    }

    /// The encoded length.
    pub fn encode_len(&self) -> (r: usize)
        requires
            props_body(self@, Self::fields_order()).len() < VAR_INT_LIMIT,
        ensures
            r == props_encode(self@, Self::fields_order()).len(),
            r < 268435460,
    {
        let len = self.body_len();
        proof {
            lemma_var_int_len(len as nat);
        }
        len + var_int_len(len).unwrap()
    }

    /// Decodes the properties at the cursor.
    pub fn decode(buf: &mut PacketBuf) -> (r: Result<SubscribeProperties, ErrorV5>)
        ensures
            final(buf).bytes() == old(buf).bytes(),
            match sp_properties(old(buf).bytes(), old(buf).pos(), PropsKind::Subscribe) {
                Ok(((m, _, _), next)) => r matches Ok(p) && p@ == m && final(buf).pos() == next,
                Err(e) => r matches Err(x) && x.is(e),
            },
    {
        let (set, _, _) = decode_properties(buf, PropsKind::Subscribe)?;
        proof {
            lemma_restricted(old(buf).bytes(), old(buf).pos(), PropsKind::Subscribe);
        }
        Ok(SubscribeProperties::from_set(set))
    }
}

/// Properties of the suback packet.
#[derive(Debug, Clone, PartialEq, Eq)]
pub struct SubackProperties {
    pub reason_string: Option<String>,
    pub user_properties: Vec<UserProperty>,
}

impl View for SubackProperties {
    type V = PropsModel;

    open spec fn view(&self) -> PropsModel {
        PropsModel {
            reason_string: ov_str(self.reason_string),
            user_properties: users_view(self.user_properties),
            ..PropsModel::empty()
        }
    }
}

impl Default for SubackProperties {
    fn default() -> (r: SubackProperties)
        ensures
            r@ == PropsModel::empty(),
    {
        let r = SubackProperties {
            reason_string: None,
            user_properties: Vec::new(),
        };
        assert(r@.user_properties =~= Seq::<(Seq<u8>, Seq<u8>)>::empty());
        r
    }
}

impl SubackProperties {
    /// The order in which the properties are written.
    pub open spec fn fields_order() -> Seq<PropertyId> {
        seq![PropertyId::ReasonString]
    }

    /// The written properties, one by one.
    pub proof fn lemma_fields(m: PropsModel)
        ensures
            fields_bytes(m, Self::fields_order()) == prop_bytes(m, PropertyId::ReasonString),
    {
        let s = Self::fields_order();
        assert(s.take(1).drop_last() =~= s.take(0));
        assert(s.take(1) =~= s);
        assert(s.take(0) =~= Seq::<PropertyId>::empty());
        assert(fields_bytes(m, s.take(1)) == fields_bytes(m, s.take(0)) + prop_bytes(m, s.take(1).last()));
        assert(fields_bytes(m, Seq::<PropertyId>::empty()) == Seq::<u8>::empty());
    }

    /// Takes the properties of the kind out of a set.
    pub fn from_set(s: PropertySet) -> (r: SubackProperties)
        ensures
            r@ == s@.restrict(PropsKind::Suback),
    {
        SubackProperties {
            reason_string: s.reason_string,
            user_properties: s.user_properties,
        }
    }

    /// Whether no property is present.
    pub fn is_default(&self) -> (r: bool)
        ensures
            r == (self@ == PropsModel::empty()),
    {
        let r = self.reason_string.is_none()
            && self.user_properties.len() == 0;
        proof {
            if self.user_properties.len() == 0 {
                assert(self@.user_properties =~= Seq::<(Seq<u8>, Seq<u8>)>::empty());
            }
            if self@ == PropsModel::empty() {
                assert(self@.user_properties.len() == 0);
            }
        }
        r
    }

    /// The length of the properties after their length.
    #[verifier::rlimit(40)]
    fn body_len(&self) -> (r: usize)
        requires
            props_body(self@, Self::fields_order()).len() < VAR_INT_LIMIT,
        ensures
            r == props_body(self@, Self::fields_order()).len(),
    {
        proof {
            Self::lemma_fields(self@);
        }
        let mut n: usize = users_len(&self.user_properties);
        n = n + len_str(&self.reason_string, PropertyId::ReasonString);
        n
    }

    /// Appends the encoding: the length, the properties in order, then the
    /// user properties.
    #[verifier::rlimit(40)]
    pub fn encode(&self, buf: &mut Vec<u8>)
        requires
            props_body(self@, Self::fields_order()).len() < VAR_INT_LIMIT,
        ensures
            final(buf)@ == old(buf)@ + props_encode(self@, Self::fields_order()),
    {
        proof {
            Self::lemma_fields(self@);
        }
        let len = self.body_len();
        write_var_int(buf, len);
        let ghost b0 = buf@;
        let ghost s0 = Seq::<u8>::empty();
        put_str(buf, PropertyId::ReasonString, &self.reason_string);
        let ghost s1 = prop_bytes(self@, PropertyId::ReasonString);
        assert(buf@ =~= b0 + s1);
        let ghost b1 = buf@;
        put_users(buf, &self.user_properties);
        proof {
            assert(buf@ =~= old(buf)@ + props_encode(self@, Self::fields_order()));
        }
    }

    /// The encoded length.
    pub fn encode_len(&self) -> (r: usize)
        requires
            props_body(self@, Self::fields_order()).len() < VAR_INT_LIMIT,
        ensures
            r == props_encode(self@, Self::fields_order()).len(),
            r < 268435460,
    {
        let len = self.body_len();
        proof {
            lemma_var_int_len(len as nat);
        }
        len + var_int_len(len).unwrap()
    }

    /// Decodes the properties at the cursor.
    pub fn decode(buf: &mut PacketBuf) -> (r: Result<SubackProperties, ErrorV5>)
        ensures
            final(buf).bytes() == old(buf).bytes(),
            match sp_properties(old(buf).bytes(), old(buf).pos(), PropsKind::Suback) {
                Ok(((m, _, _), next)) => r matches Ok(p) && p@ == m && final(buf).pos() == next,
                Err(e) => r matches Err(x) && x.is(e),
            },
    {
        let (set, _, _) = decode_properties(buf, PropsKind::Suback)?;
        proof {
            lemma_restricted(old(buf).bytes(), old(buf).pos(), PropsKind::Suback);
        }
        Ok(SubackProperties::from_set(set))
    }
}

/// Properties of the unsubscribe packet.
#[derive(Debug, Clone, PartialEq, Eq)]
pub struct UnsubscribeProperties {
    pub user_properties: Vec<UserProperty>,
}

impl View for UnsubscribeProperties {
    type V = PropsModel;

    open spec fn view(&self) -> PropsModel {
        PropsModel {
            user_properties: users_view(self.user_properties),
            ..PropsModel::empty()
        }
    }
}

impl Default for UnsubscribeProperties {
    fn default() -> (r: UnsubscribeProperties)
        ensures
            r@ == PropsModel::empty(),
    {
        let r = UnsubscribeProperties {
            user_properties: Vec::new(),
        };
        assert(r@.user_properties =~= Seq::<(Seq<u8>, Seq<u8>)>::empty());
        r
    }
}

impl UnsubscribeProperties {
    /// The order in which the properties are written.
    pub open spec fn fields_order() -> Seq<PropertyId> {
        seq![]
    }

    /// The written properties, one by one.
    pub proof fn lemma_fields(m: PropsModel)
        ensures
            fields_bytes(m, Self::fields_order()) == Seq::<u8>::empty(),
    {
        let s = Self::fields_order();
        assert(s.take(0) =~= s);
        assert(fields_bytes(m, Seq::<PropertyId>::empty()) == Seq::<u8>::empty());
    }

    /// Takes the properties of the kind out of a set.
    pub fn from_set(s: PropertySet) -> (r: UnsubscribeProperties)
        ensures
            r@ == s@.restrict(PropsKind::Unsubscribe),
    {
        UnsubscribeProperties {
            user_properties: s.user_properties,
        }
    }

    /// Whether no property is present.
    pub fn is_default(&self) -> (r: bool)
        ensures
            r == (self@ == PropsModel::empty()),
    {
        let r = self.user_properties.len() == 0;
        proof {
            if self.user_properties.len() == 0 {
                assert(self@.user_properties =~= Seq::<(Seq<u8>, Seq<u8>)>::empty());
            }
            if self@ == PropsModel::empty() {
                assert(self@.user_properties.len() == 0);
            }
        }
        r
    }

    /// The length of the properties after their length.
    #[verifier::rlimit(40)]
    fn body_len(&self) -> (r: usize)
        requires
            props_body(self@, Self::fields_order()).len() < VAR_INT_LIMIT,
        ensures
            r == props_body(self@, Self::fields_order()).len(),
    {
        proof {
            Self::lemma_fields(self@);
        }
        let mut n: usize = users_len(&self.user_properties);
        n
    }

    /// Appends the encoding: the length, the properties in order, then the
    /// user properties.
    #[verifier::rlimit(40)]
    pub fn encode(&self, buf: &mut Vec<u8>)
        requires
            props_body(self@, Self::fields_order()).len() < VAR_INT_LIMIT,
        ensures
            final(buf)@ == old(buf)@ + props_encode(self@, Self::fields_order()),
    {
        proof {
            Self::lemma_fields(self@);
        }
        let len = self.body_len();
        write_var_int(buf, len);
        let ghost b0 = buf@;
        let ghost b1 = buf@;
        put_users(buf, &self.user_properties);
        proof {
            assert(buf@ =~= old(buf)@ + props_encode(self@, Self::fields_order()));
        }
    }

    /// The encoded length.
    pub fn encode_len(&self) -> (r: usize)
        requires
            props_body(self@, Self::fields_order()).len() < VAR_INT_LIMIT,
        ensures
            r == props_encode(self@, Self::fields_order()).len(),
            r < 268435460,
    {
        let len = self.body_len();
        proof {
            lemma_var_int_len(len as nat);
        }
        len + var_int_len(len).unwrap()
    }

    /// Decodes the properties at the cursor.
    pub fn decode(buf: &mut PacketBuf) -> (r: Result<UnsubscribeProperties, ErrorV5>)
        ensures
            final(buf).bytes() == old(buf).bytes(),
            match sp_properties(old(buf).bytes(), old(buf).pos(), PropsKind::Unsubscribe) {
                Ok(((m, _, _), next)) => r matches Ok(p) && p@ == m && final(buf).pos() == next,
                Err(e) => r matches Err(x) && x.is(e),
            },
    {
        let (set, _, _) = decode_properties(buf, PropsKind::Unsubscribe)?;
        proof {
            lemma_restricted(old(buf).bytes(), old(buf).pos(), PropsKind::Unsubscribe);
        }
        Ok(UnsubscribeProperties::from_set(set))
    }
}

/// Properties of the unsuback packet.
#[derive(Debug, Clone, PartialEq, Eq)]
pub struct UnsubackProperties {
    pub reason_string: Option<String>,
    pub user_properties: Vec<UserProperty>,
}

impl View for UnsubackProperties {
    type V = PropsModel;

    open spec fn view(&self) -> PropsModel {
        PropsModel {
            reason_string: ov_str(self.reason_string),
            user_properties: users_view(self.user_properties),
            ..PropsModel::empty()
        }
    }
}

impl Default for UnsubackProperties {
    fn default() -> (r: UnsubackProperties)
        ensures
            r@ == PropsModel::empty(),
    {
        let r = UnsubackProperties {
            reason_string: None,
            user_properties: Vec::new(),
        };
        assert(r@.user_properties =~= Seq::<(Seq<u8>, Seq<u8>)>::empty());
        r
    }
}

impl UnsubackProperties {
    /// The order in which the properties are written.
    pub open spec fn fields_order() -> Seq<PropertyId> {
        seq![PropertyId::ReasonString]
    }

    /// The written properties, one by one.
    pub proof fn lemma_fields(m: PropsModel)
        ensures
            fields_bytes(m, Self::fields_order()) == prop_bytes(m, PropertyId::ReasonString),
    {
        let s = Self::fields_order();
        assert(s.take(1).drop_last() =~= s.take(0));
        assert(s.take(1) =~= s);
        assert(s.take(0) =~= Seq::<PropertyId>::empty());
        assert(fields_bytes(m, s.take(1)) == fields_bytes(m, s.take(0)) + prop_bytes(m, s.take(1).last()));
        assert(fields_bytes(m, Seq::<PropertyId>::empty()) == Seq::<u8>::empty());
    }

    /// Takes the properties of the kind out of a set.
    pub fn from_set(s: PropertySet) -> (r: UnsubackProperties)
        ensures
            r@ == s@.restrict(PropsKind::Unsuback),
    {
        UnsubackProperties {
            reason_string: s.reason_string,
            user_properties: s.user_properties,
        }
    }

    /// Whether no property is present.
    pub fn is_default(&self) -> (r: bool)
        ensures
            r == (self@ == PropsModel::empty()),
    {
        let r = self.reason_string.is_none()
            && self.user_properties.len() == 0;
        proof {
            if self.user_properties.len() == 0 {
                assert(self@.user_properties =~= Seq::<(Seq<u8>, Seq<u8>)>::empty());
            }
            if self@ == PropsModel::empty() {
                assert(self@.user_properties.len() == 0);
            }
        }
        r
    }

    /// The length of the properties after their length.
    #[verifier::rlimit(40)]
    fn body_len(&self) -> (r: usize)
        requires
            props_body(self@, Self::fields_order()).len() < VAR_INT_LIMIT,
        ensures
            r == props_body(self@, Self::fields_order()).len(),
    {
        proof {
            Self::lemma_fields(self@);
        }
        let mut n: usize = users_len(&self.user_properties);
        n = n + len_str(&self.reason_string, PropertyId::ReasonString);
        n
    }

    /// Appends the encoding: the length, the properties in order, then the
    /// user properties.
    #[verifier::rlimit(40)]
    pub fn encode(&self, buf: &mut Vec<u8>)
        requires
            props_body(self@, Self::fields_order()).len() < VAR_INT_LIMIT,
        ensures
            final(buf)@ == old(buf)@ + props_encode(self@, Self::fields_order()),
    {
        proof {
            Self::lemma_fields(self@);
        }
        let len = self.body_len();
        write_var_int(buf, len);
        let ghost b0 = buf@;
        let ghost s0 = Seq::<u8>::empty();
        put_str(buf, PropertyId::ReasonString, &self.reason_string);
        let ghost s1 = prop_bytes(self@, PropertyId::ReasonString);
        assert(buf@ =~= b0 + s1);
        let ghost b1 = buf@;
        put_users(buf, &self.user_properties);
        proof {
            assert(buf@ =~= old(buf)@ + props_encode(self@, Self::fields_order()));
        }
    }

    /// The encoded length.
    pub fn encode_len(&self) -> (r: usize)
        requires
            props_body(self@, Self::fields_order()).len() < VAR_INT_LIMIT,
        ensures
            r == props_encode(self@, Self::fields_order()).len(),
            r < 268435460,
    {
        let len = self.body_len();
        proof {
            lemma_var_int_len(len as nat);
        }
        len + var_int_len(len).unwrap()
    }

    /// Decodes the properties at the cursor.
    pub fn decode(buf: &mut PacketBuf) -> (r: Result<UnsubackProperties, ErrorV5>)
        ensures
            final(buf).bytes() == old(buf).bytes(),
            match sp_properties(old(buf).bytes(), old(buf).pos(), PropsKind::Unsuback) {
                Ok(((m, _, _), next)) => r matches Ok(p) && p@ == m && final(buf).pos() == next,
                Err(e) => r matches Err(x) && x.is(e),
            },
    {
        let (set, _, _) = decode_properties(buf, PropsKind::Unsuback)?;
        proof {
            lemma_restricted(old(buf).bytes(), old(buf).pos(), PropsKind::Unsuback);
        }
        Ok(UnsubackProperties::from_set(set))
    }
}

impl From<Vec<UserProperty>> for UnsubscribeProperties {
    fn from(user_properties: Vec<UserProperty>) -> (r: UnsubscribeProperties) {
        UnsubscribeProperties { user_properties }
    }
}

impl vstd::std_specs::convert::FromSpecImpl<Vec<UserProperty>> for UnsubscribeProperties {
    open spec fn obeys_from_spec() -> bool {
        true
    }

    open spec fn from_spec(user_properties: Vec<UserProperty>) -> UnsubscribeProperties {
        UnsubscribeProperties { user_properties }
    }
}

/// Where each property identifier byte of MQTT 5.0 lands: the property of
/// identifier byte 0x01 is the payload format indicator, 0x17 is request
/// problem information, 0x19 request response information, and so on for
/// every identifier; reading a decoded identifier gets that field, and
/// setting it sets that field.
pub proof fn lemma_identifier_fields(m: PropsModel, v: PropVal)
    ensures
        PropertyId::spec_from_u8(0x01u8) matches Some(id) && m.get(id) == m.payload_is_utf8 && m.set(id, v).payload_is_utf8 == Some(v),
        PropertyId::spec_from_u8(0x02u8) matches Some(id) && m.get(id) == m.message_expiry_interval && m.set(id, v).message_expiry_interval == Some(v),
        PropertyId::spec_from_u8(0x03u8) matches Some(id) && m.get(id) == m.content_type && m.set(id, v).content_type == Some(v),
        PropertyId::spec_from_u8(0x08u8) matches Some(id) && m.get(id) == m.response_topic && m.set(id, v).response_topic == Some(v),
        PropertyId::spec_from_u8(0x09u8) matches Some(id) && m.get(id) == m.correlation_data && m.set(id, v).correlation_data == Some(v),
        PropertyId::spec_from_u8(0x0Bu8) matches Some(id) && m.get(id) == m.subscription_id && m.set(id, v).subscription_id == Some(v),
        PropertyId::spec_from_u8(0x11u8) matches Some(id) && m.get(id) == m.session_expiry_interval && m.set(id, v).session_expiry_interval == Some(v),
        PropertyId::spec_from_u8(0x12u8) matches Some(id) && m.get(id) == m.assigned_client_id && m.set(id, v).assigned_client_id == Some(v),
        PropertyId::spec_from_u8(0x13u8) matches Some(id) && m.get(id) == m.server_keep_alive && m.set(id, v).server_keep_alive == Some(v),
        PropertyId::spec_from_u8(0x15u8) matches Some(id) && m.get(id) == m.auth_method && m.set(id, v).auth_method == Some(v),
        PropertyId::spec_from_u8(0x16u8) matches Some(id) && m.get(id) == m.auth_data && m.set(id, v).auth_data == Some(v),
        PropertyId::spec_from_u8(0x17u8) matches Some(id) && m.get(id) == m.request_problem_info && m.set(id, v).request_problem_info == Some(v),
        PropertyId::spec_from_u8(0x18u8) matches Some(id) && m.get(id) == m.delay_interval && m.set(id, v).delay_interval == Some(v),
        PropertyId::spec_from_u8(0x19u8) matches Some(id) && m.get(id) == m.request_response_info && m.set(id, v).request_response_info == Some(v),
        PropertyId::spec_from_u8(0x1Au8) matches Some(id) && m.get(id) == m.response_info && m.set(id, v).response_info == Some(v),
        PropertyId::spec_from_u8(0x1Cu8) matches Some(id) && m.get(id) == m.server_reference && m.set(id, v).server_reference == Some(v),
        PropertyId::spec_from_u8(0x1Fu8) matches Some(id) && m.get(id) == m.reason_string && m.set(id, v).reason_string == Some(v),
        PropertyId::spec_from_u8(0x21u8) matches Some(id) && m.get(id) == m.receive_max && m.set(id, v).receive_max == Some(v),
        PropertyId::spec_from_u8(0x22u8) matches Some(id) && m.get(id) == m.topic_alias_max && m.set(id, v).topic_alias_max == Some(v),
        PropertyId::spec_from_u8(0x23u8) matches Some(id) && m.get(id) == m.topic_alias && m.set(id, v).topic_alias == Some(v),
        PropertyId::spec_from_u8(0x24u8) matches Some(id) && m.get(id) == m.max_qos && m.set(id, v).max_qos == Some(v),
        PropertyId::spec_from_u8(0x25u8) matches Some(id) && m.get(id) == m.retain_available && m.set(id, v).retain_available == Some(v),
        PropertyId::spec_from_u8(0x27u8) matches Some(id) && m.get(id) == m.max_packet_size && m.set(id, v).max_packet_size == Some(v),
        PropertyId::spec_from_u8(0x28u8) matches Some(id) && m.get(id) == m.wildcard_subscription_available && m.set(id, v).wildcard_subscription_available == Some(v),
        PropertyId::spec_from_u8(0x29u8) matches Some(id) && m.get(id) == m.subscription_id_available && m.set(id, v).subscription_id_available == Some(v),
        PropertyId::spec_from_u8(0x2Au8) matches Some(id) && m.get(id) == m.shared_subscription_available && m.set(id, v).shared_subscription_available == Some(v),
{
}

/// The value type of each property identifier byte of MQTT 5.0: 0x01 a
/// byte that is 0 or 1, 0x02 a four byte integer, 0x03 a UTF-8 string, 0x08 a
/// topic name, 0x09 binary data, 0x0B a variable byte integer, 0x13 a two
/// byte integer, 0x24 a QoS byte, 0x26 a name and value pair, and so on for
/// every identifier.
pub proof fn lemma_identifier_kinds()
    ensures
        PropertyId::spec_from_u8(0x01u8) matches Some(id) && id.spec_kind() == ValueKind::Bool,
        PropertyId::spec_from_u8(0x02u8) matches Some(id) && id.spec_kind() == ValueKind::U32,
        PropertyId::spec_from_u8(0x03u8) matches Some(id) && id.spec_kind() == ValueKind::Str,
        PropertyId::spec_from_u8(0x08u8) matches Some(id) && id.spec_kind() == ValueKind::Topic,
        PropertyId::spec_from_u8(0x09u8) matches Some(id) && id.spec_kind() == ValueKind::Bin,
        PropertyId::spec_from_u8(0x0Bu8) matches Some(id) && id.spec_kind() == ValueKind::Int,
        PropertyId::spec_from_u8(0x11u8) matches Some(id) && id.spec_kind() == ValueKind::U32,
        PropertyId::spec_from_u8(0x12u8) matches Some(id) && id.spec_kind() == ValueKind::Str,
        PropertyId::spec_from_u8(0x13u8) matches Some(id) && id.spec_kind() == ValueKind::U16,
        PropertyId::spec_from_u8(0x15u8) matches Some(id) && id.spec_kind() == ValueKind::Str,
        PropertyId::spec_from_u8(0x16u8) matches Some(id) && id.spec_kind() == ValueKind::Bin,
        PropertyId::spec_from_u8(0x17u8) matches Some(id) && id.spec_kind() == ValueKind::Bool,
        PropertyId::spec_from_u8(0x18u8) matches Some(id) && id.spec_kind() == ValueKind::U32,
        PropertyId::spec_from_u8(0x19u8) matches Some(id) && id.spec_kind() == ValueKind::Bool,
        PropertyId::spec_from_u8(0x1Au8) matches Some(id) && id.spec_kind() == ValueKind::Str,
        PropertyId::spec_from_u8(0x1Cu8) matches Some(id) && id.spec_kind() == ValueKind::Str,
        PropertyId::spec_from_u8(0x1Fu8) matches Some(id) && id.spec_kind() == ValueKind::Str,
        PropertyId::spec_from_u8(0x21u8) matches Some(id) && id.spec_kind() == ValueKind::U16,
        PropertyId::spec_from_u8(0x22u8) matches Some(id) && id.spec_kind() == ValueKind::U16,
        PropertyId::spec_from_u8(0x23u8) matches Some(id) && id.spec_kind() == ValueKind::U16,
        PropertyId::spec_from_u8(0x24u8) matches Some(id) && id.spec_kind() == ValueKind::Qos,
        PropertyId::spec_from_u8(0x25u8) matches Some(id) && id.spec_kind() == ValueKind::Bool,
        PropertyId::spec_from_u8(0x26u8) matches Some(id) && id.spec_kind() == ValueKind::User,
        PropertyId::spec_from_u8(0x27u8) matches Some(id) && id.spec_kind() == ValueKind::U32,
        PropertyId::spec_from_u8(0x28u8) matches Some(id) && id.spec_kind() == ValueKind::Bool,
        PropertyId::spec_from_u8(0x29u8) matches Some(id) && id.spec_kind() == ValueKind::Bool,
        PropertyId::spec_from_u8(0x2Au8) matches Some(id) && id.spec_kind() == ValueKind::Bool,
{
}

} // verus!
