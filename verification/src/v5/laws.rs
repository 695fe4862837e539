use vstd::prelude::*;
use vstd::utf8::valid_utf8;

use crate::buf::{at, lemma_at_concat, lemma_sp_bytes_at, lemma_sp_u16_at, lemma_sp_u8_at, lemma_sp_var_int_at, sp_u32, sp_u8};
use crate::codec::{be16, be32, field, lemma_var_int_len, var_int, var_int_size};
use crate::error::Error;
use crate::topic::topic_name_valid;
use crate::types::QoS;

use super::props::{
    allowed, fields_bytes, prop_bytes, props_body, props_encode, sp_properties, sp_props_from,
    sp_value, user_bytes, users_bytes, val_len, value_bytes, AuthProperties, ConnackProperties,
    ConnectProperties, DisconnectProperties, PropVal, PropsKind, PropsModel, PubackProperties,
    PubcompProperties, PublishProperties, PubrecProperties, PubrelProperties, SubackProperties,
    SubscribeProperties, UnsubackProperties, UnsubscribeProperties, ValueKind, WillProperties,
};
use super::types::{DecodeErrV5, PropertyId};

verus! {

/// A value that decodes back to itself as the value of a property: of the
/// property's type, a QoS of 0 or 1, strings that are UTF-8 (and a topic
/// name where the property is one) and fit a two byte length, and a variable
/// byte integer that fits four bytes.
pub open spec fn value_ok(id: PropertyId, v: PropVal) -> bool {
    match id.spec_kind() {
        ValueKind::Bool => v is Bool,
        ValueKind::Qos => v matches PropVal::Qos(q) && (q == QoS::Level0 || q == QoS::Level1),
        ValueKind::U16 => v is U16,
        ValueKind::U32 => v is U32,
        ValueKind::Str => v matches PropVal::Str(s) && valid_utf8(s) && s.len() <= 65535,
        ValueKind::Topic => v matches PropVal::Str(s) && valid_utf8(s) && s.len() <= 65535
            && topic_name_valid(s),
        ValueKind::Bin => v matches PropVal::Bin(s) && s.len() <= 65535,
        ValueKind::Int => v matches PropVal::Int(x) && x < 268435456,
        ValueKind::User => false,
    }
}

/// A user property that decodes back to itself.
pub open spec fn user_ok(u: (Seq<u8>, Seq<u8>)) -> bool {
    valid_utf8(u.0) && u.0.len() <= 65535 && valid_utf8(u.1) && u.1.len() <= 65535
}

impl PropsModel {
    /// Properties whose values and user properties decode back to themselves.
    pub open spec fn wf(self) -> bool {
        &&& forall|id: PropertyId| #[trigger] self.get(id) is Some ==> value_ok(id, self.get(id)->0)
        &&& forall|i: int|
            0 <= i < self.user_properties.len() ==> user_ok(#[trigger] self.user_properties[i])
    }

    /// The properties without their user properties.
    pub open spec fn without_users(self) -> PropsModel {
        PropsModel { user_properties: Seq::empty(), ..self }
    }
}

/// Reading a four byte integer where its encoding stands gives it back.
proof fn lemma_sp_u32_at(d: Seq<u8>, off: int, v: u32)
    requires
        at(d, off, be32(v as int)),
    ensures
        sp_u32(d, off) == Ok::<(u32, int), Error>((v, off + 4)),
{
    let s = d.subrange(off, off + 4);
    assert(d[off] == s[0] && d[off + 1] == s[1] && d[off + 2] == s[2] && d[off + 3] == s[3]);
    assert((v / 16777216) * 16777216 + ((v / 65536) % 256) * 65536 + ((v / 256) % 256) * 256 + v
        % 256 == v) by (bit_vector);
}

/// Decoding the encoding of a value where it stands gives it back.
proof fn lemma_value_at(d: Seq<u8>, off: int, id: PropertyId, v: PropVal)
    requires
        value_ok(id, v),
        at(d, off, value_bytes(v)),
    ensures
        sp_value(d, off, id) == Ok::<(PropVal, int), DecodeErrV5>((v, off + value_bytes(v).len())),
        val_len(v) == value_bytes(v).len(),
{
    match v {
        PropVal::Bool(b) => {
            lemma_sp_u8_at(d, off, if b { 1u8 } else { 0u8 });
        },
        PropVal::Qos(q) => {
            lemma_sp_u8_at(d, off, q.spec_u8());
        },
        PropVal::U16(x) => {
            lemma_sp_u16_at(d, off, x as int);
        },
        PropVal::U32(x) => {
            lemma_sp_u32_at(d, off, x);
        },
        PropVal::Str(s) => {
            lemma_sp_bytes_at(d, off, s);
        },
        PropVal::Bin(s) => {
            lemma_sp_bytes_at(d, off, s);
        },
        PropVal::Int(x) => {
            lemma_sp_var_int_at(d, off, x as nat);
            lemma_var_int_len(x as nat);
        },
    }
}

/// User properties in order, the first one first.
proof fn lemma_users_front(us: Seq<(Seq<u8>, Seq<u8>)>)
    requires
        us.len() > 0,
    ensures
        users_bytes(us) == user_bytes(us[0]) + users_bytes(us.drop_first()),
    decreases us.len(),
{
    if us.len() == 1 {
        assert(us.drop_first() =~= Seq::<(Seq<u8>, Seq<u8>)>::empty());
        assert(us.drop_last() =~= Seq::<(Seq<u8>, Seq<u8>)>::empty());
        assert(users_bytes(us.drop_last()) =~= Seq::<u8>::empty());
        assert(users_bytes(us) =~= user_bytes(us[0]));
    } else {
        lemma_users_front(us.drop_last());
        assert(us.drop_last().drop_first() =~= us.drop_first().drop_last());
        assert(users_bytes(us) =~= user_bytes(us[0]) + users_bytes(us.drop_first()));
    }
}

/// The properties with one property of `m` added, if `m` has it.
pub open spec fn take_prop(acc: PropsModel, m: PropsModel, id: PropertyId) -> PropsModel {
    match m.get(id) {
        Some(v) => acc.set(id, v),
        None => acc,
    }
}

/// Decoding one property of `m` where its encoding stands adds it to what
/// was decoded before; a property that `m` lacks takes no bytes.
proof fn lemma_field_step(
    d: Seq<u8>,
    pos: int,
    total: nat,
    len: nat,
    acc: PropsModel,
    m: PropsModel,
    kind: PropsKind,
    id: PropertyId,
)
    requires
        m.get(id) is Some ==> value_ok(id, m.get(id)->0),
        allowed(kind, id),
        id != PropertyId::UserProperty,
        acc.get(id) is None,
        at(d, pos, prop_bytes(m, id)),
        len + prop_bytes(m, id).len() <= total,
    ensures
        sp_props_from(d, pos, total, len, acc, kind) == sp_props_from(
            d,
            pos + prop_bytes(m, id).len(),
            total,
            len + prop_bytes(m, id).len(),
            take_prop(acc, m, id),
            kind,
        ),
{
    reveal(sp_props_from);
    match m.get(id) {
        None => {
            assert(prop_bytes(m, id) =~= Seq::<u8>::empty());
        },
        Some(v) => {
            let vb = value_bytes(v);
            assert(prop_bytes(m, id) == seq![id.spec_u8()] + vb);
            lemma_at_concat(d, pos, seq![id.spec_u8()], vb);
            lemma_sp_u8_at(d, pos, id.spec_u8());
            PropertyId::lemma_u8_roundtrip(id, 0);
            lemma_value_at(d, pos + 1, id, v);
        },
    }
}

/// Decoding user properties where they stand adds them, in order, and ends
/// the properties when their length is used up.
proof fn lemma_users_decode(
    d: Seq<u8>,
    pos: int,
    total: nat,
    len: nat,
    acc: PropsModel,
    us: Seq<(Seq<u8>, Seq<u8>)>,
    kind: PropsKind,
)
    requires
        forall|i: int| 0 <= i < us.len() ==> user_ok(#[trigger] us[i]),
        at(d, pos, users_bytes(us)),
        len + users_bytes(us).len() == total,
    ensures
        sp_props_from(d, pos, total, len, acc, kind) == Ok::<(PropsModel, int), DecodeErrV5>(
            (PropsModel { user_properties: acc.user_properties + us, ..acc }, pos + users_bytes(us).len()),
        ),
    decreases us.len(),
{
    reveal(sp_props_from);
    if us.len() == 0 {
        assert(acc.user_properties + us =~= acc.user_properties);
    } else {
        let u = us[0];
        let tail = us.drop_first();
        lemma_users_front(us);
        assert(user_ok(u));
        lemma_at_concat(d, pos, user_bytes(u), users_bytes(tail));
        assert(user_bytes(u) == seq![0x26u8] + field(u.0) + field(u.1));
        lemma_at_concat(d, pos, seq![0x26u8] + field(u.0), field(u.1));
        lemma_at_concat(d, pos, seq![0x26u8], field(u.0));
        lemma_sp_u8_at(d, pos, 0x26u8);
        PropertyId::lemma_u8_roundtrip(PropertyId::UserProperty, 0x26u8);
        lemma_sp_bytes_at(d, pos + 1, u.0);
        lemma_sp_bytes_at(d, pos + 3 + u.0.len(), u.1);
        let acc2 = acc.add_user(u.0, u.1);
        assert forall|i: int| 0 <= i < tail.len() implies user_ok(#[trigger] tail[i]) by {
            assert(tail[i] == us[i + 1]);
        }
        lemma_users_decode(
            d,
            pos + 5 + u.0.len() + u.1.len(),
            total,
            len + 5 + u.0.len() + u.1.len(),
            acc2,
            tail,
            kind,
        );
        assert(acc2.user_properties + tail =~= acc.user_properties + us);
    }
}


impl ConnectProperties {
    /// Decoding the encoding of well-formed properties of this kind gives
    /// them back, with their length and the bytes that the length took.
    #[verifier::rlimit(100)]
    pub proof fn lemma_roundtrip(d: Seq<u8>, off: int, m: PropsModel)
        requires
            m.wf(),
            m.restrict(PropsKind::Connect) == m,
            props_body(m, Self::fields_order()).len() < 268435456,
            at(d, off, props_encode(m, Self::fields_order())),
        ensures
            sp_properties(d, off, PropsKind::Connect) == Ok::<((PropsModel, nat, nat), int), DecodeErrV5>(
                (
                    (
                        m,
                        props_body(m, Self::fields_order()).len(),
                        var_int(props_body(m, Self::fields_order()).len()).len(),
                    ),
                    off + props_encode(m, Self::fields_order()).len(),
                ),
            ),
    {
        let order = Self::fields_order();
        Self::lemma_fields(m);
        let body = props_body(m, order);
        let total = body.len();
        let vi = var_int(total);
        lemma_at_concat(d, off, vi, body);
        lemma_sp_var_int_at(d, off, total);
        let p0 = off + vi.len();
        lemma_at_concat(d, p0, fields_bytes(m, order), users_bytes(m.user_properties));
        let b1 = prop_bytes(m, PropertyId::SessionExpiryInterval);
        let b2 = prop_bytes(m, PropertyId::ReceiveMaximum);
        let b3 = prop_bytes(m, PropertyId::MaximumPacketSize);
        let b4 = prop_bytes(m, PropertyId::TopicAliasMaximum);
        let b5 = prop_bytes(m, PropertyId::RequestResponseInformation);
        let b6 = prop_bytes(m, PropertyId::RequestProblemInformation);
        let b7 = prop_bytes(m, PropertyId::AuthenticationMethod);
        let b8 = prop_bytes(m, PropertyId::AuthenticationData);
        let s1 = b1;
        let s2 = s1 + b2;
        let s3 = s2 + b3;
        let s4 = s3 + b4;
        let s5 = s4 + b5;
        let s6 = s5 + b6;
        let s7 = s6 + b7;
        let s8 = s7 + b8;
        assert(fields_bytes(m, order) == s8);
        lemma_at_concat(d, p0, s7, b8);
        lemma_at_concat(d, p0, s6, b7);
        lemma_at_concat(d, p0, s5, b6);
        lemma_at_concat(d, p0, s4, b5);
        lemma_at_concat(d, p0, s3, b4);
        lemma_at_concat(d, p0, s2, b3);
        lemma_at_concat(d, p0, s1, b2);
        let a0 = PropsModel::empty();
        lemma_field_step(d, p0, total, 0, a0, m, PropsKind::Connect, PropertyId::SessionExpiryInterval);
        let a1 = take_prop(a0, m, PropertyId::SessionExpiryInterval);
        lemma_field_step(d, p0 + s1.len(), total, s1.len(), a1, m, PropsKind::Connect, PropertyId::ReceiveMaximum);
        let a2 = take_prop(a1, m, PropertyId::ReceiveMaximum);
        lemma_field_step(d, p0 + s2.len(), total, s2.len(), a2, m, PropsKind::Connect, PropertyId::MaximumPacketSize);
        let a3 = take_prop(a2, m, PropertyId::MaximumPacketSize);
        lemma_field_step(d, p0 + s3.len(), total, s3.len(), a3, m, PropsKind::Connect, PropertyId::TopicAliasMaximum);
        let a4 = take_prop(a3, m, PropertyId::TopicAliasMaximum);
        lemma_field_step(d, p0 + s4.len(), total, s4.len(), a4, m, PropsKind::Connect, PropertyId::RequestResponseInformation);
        let a5 = take_prop(a4, m, PropertyId::RequestResponseInformation);
        lemma_field_step(d, p0 + s5.len(), total, s5.len(), a5, m, PropsKind::Connect, PropertyId::RequestProblemInformation);
        let a6 = take_prop(a5, m, PropertyId::RequestProblemInformation);
        lemma_field_step(d, p0 + s6.len(), total, s6.len(), a6, m, PropsKind::Connect, PropertyId::AuthenticationMethod);
        let a7 = take_prop(a6, m, PropertyId::AuthenticationMethod);
        lemma_field_step(d, p0 + s7.len(), total, s7.len(), a7, m, PropsKind::Connect, PropertyId::AuthenticationData);
        let a8 = take_prop(a7, m, PropertyId::AuthenticationData);
        assert(a8 == m.without_users());
        lemma_users_decode(d, p0 + s8.len(), total, s8.len(), a8, m.user_properties, PropsKind::Connect);
        assert(Seq::<(Seq<u8>, Seq<u8>)>::empty() + m.user_properties =~= m.user_properties);
    }
}

impl WillProperties {
    /// Decoding the encoding of well-formed properties of this kind gives
    /// them back, with their length and the bytes that the length took.
    #[verifier::rlimit(100)]
    pub proof fn lemma_roundtrip(d: Seq<u8>, off: int, m: PropsModel)
        requires
            m.wf(),
            m.restrict(PropsKind::Will) == m,
            props_body(m, Self::fields_order()).len() < 268435456,
            at(d, off, props_encode(m, Self::fields_order())),
        ensures
            sp_properties(d, off, PropsKind::Will) == Ok::<((PropsModel, nat, nat), int), DecodeErrV5>(
                (
                    (
                        m,
                        props_body(m, Self::fields_order()).len(),
                        var_int(props_body(m, Self::fields_order()).len()).len(),
                    ),
                    off + props_encode(m, Self::fields_order()).len(),
                ),
            ),
    {
        let order = Self::fields_order();
        Self::lemma_fields(m);
        let body = props_body(m, order);
        let total = body.len();
        let vi = var_int(total);
        lemma_at_concat(d, off, vi, body);
        lemma_sp_var_int_at(d, off, total);
        let p0 = off + vi.len();
        lemma_at_concat(d, p0, fields_bytes(m, order), users_bytes(m.user_properties));
        let b1 = prop_bytes(m, PropertyId::WillDelayInterval);
        let b2 = prop_bytes(m, PropertyId::PayloadFormatIndicator);
        let b3 = prop_bytes(m, PropertyId::MessageExpiryInterval);
        let b4 = prop_bytes(m, PropertyId::ContentType);
        let b5 = prop_bytes(m, PropertyId::ResponseTopic);
        let b6 = prop_bytes(m, PropertyId::CorrelationData);
        let s1 = b1;
        let s2 = s1 + b2;
        let s3 = s2 + b3;
        let s4 = s3 + b4;
        let s5 = s4 + b5;
        let s6 = s5 + b6;
        assert(fields_bytes(m, order) == s6);
        lemma_at_concat(d, p0, s5, b6);
        lemma_at_concat(d, p0, s4, b5);
        lemma_at_concat(d, p0, s3, b4);
        lemma_at_concat(d, p0, s2, b3);
        lemma_at_concat(d, p0, s1, b2);
        let a0 = PropsModel::empty();
        lemma_field_step(d, p0, total, 0, a0, m, PropsKind::Will, PropertyId::WillDelayInterval);
        let a1 = take_prop(a0, m, PropertyId::WillDelayInterval);
        lemma_field_step(d, p0 + s1.len(), total, s1.len(), a1, m, PropsKind::Will, PropertyId::PayloadFormatIndicator);
        let a2 = take_prop(a1, m, PropertyId::PayloadFormatIndicator);
        lemma_field_step(d, p0 + s2.len(), total, s2.len(), a2, m, PropsKind::Will, PropertyId::MessageExpiryInterval);
        let a3 = take_prop(a2, m, PropertyId::MessageExpiryInterval);
        lemma_field_step(d, p0 + s3.len(), total, s3.len(), a3, m, PropsKind::Will, PropertyId::ContentType);
        let a4 = take_prop(a3, m, PropertyId::ContentType);
        lemma_field_step(d, p0 + s4.len(), total, s4.len(), a4, m, PropsKind::Will, PropertyId::ResponseTopic);
        let a5 = take_prop(a4, m, PropertyId::ResponseTopic);
        lemma_field_step(d, p0 + s5.len(), total, s5.len(), a5, m, PropsKind::Will, PropertyId::CorrelationData);
        let a6 = take_prop(a5, m, PropertyId::CorrelationData);
        assert(a6 == m.without_users());
        lemma_users_decode(d, p0 + s6.len(), total, s6.len(), a6, m.user_properties, PropsKind::Will);
        assert(Seq::<(Seq<u8>, Seq<u8>)>::empty() + m.user_properties =~= m.user_properties);
    }
}

/// Decoding properties SessionExpiryInterval, ReceiveMaximum, MaximumQoS, RetainAvailable, MaximumPacketSize, AssignedClientIdentifier, TopicAliasMaximum, ReasonString of `m` where they stand adds them.
#[verifier::rlimit(100)]
proof fn lemma_connack_fields_0(d: Seq<u8>, pos: int, total: nat, len: nat, acc: PropsModel, m: PropsModel)
    requires
        m.wf(),
        acc.get(PropertyId::SessionExpiryInterval) is None,
        acc.get(PropertyId::ReceiveMaximum) is None,
        acc.get(PropertyId::MaximumQoS) is None,
        acc.get(PropertyId::RetainAvailable) is None,
        acc.get(PropertyId::MaximumPacketSize) is None,
        acc.get(PropertyId::AssignedClientIdentifier) is None,
        acc.get(PropertyId::TopicAliasMaximum) is None,
        acc.get(PropertyId::ReasonString) is None,
        at(d, pos, prop_bytes(m, PropertyId::SessionExpiryInterval)),
        at(d, pos + prop_bytes(m, PropertyId::SessionExpiryInterval).len(), prop_bytes(m, PropertyId::ReceiveMaximum)),
        at(d, pos + prop_bytes(m, PropertyId::SessionExpiryInterval).len() + prop_bytes(m, PropertyId::ReceiveMaximum).len(), prop_bytes(m, PropertyId::MaximumQoS)),
        at(d, pos + prop_bytes(m, PropertyId::SessionExpiryInterval).len() + prop_bytes(m, PropertyId::ReceiveMaximum).len() + prop_bytes(m, PropertyId::MaximumQoS).len(), prop_bytes(m, PropertyId::RetainAvailable)),
        at(d, pos + prop_bytes(m, PropertyId::SessionExpiryInterval).len() + prop_bytes(m, PropertyId::ReceiveMaximum).len() + prop_bytes(m, PropertyId::MaximumQoS).len() + prop_bytes(m, PropertyId::RetainAvailable).len(), prop_bytes(m, PropertyId::MaximumPacketSize)),
        at(d, pos + prop_bytes(m, PropertyId::SessionExpiryInterval).len() + prop_bytes(m, PropertyId::ReceiveMaximum).len() + prop_bytes(m, PropertyId::MaximumQoS).len() + prop_bytes(m, PropertyId::RetainAvailable).len() + prop_bytes(m, PropertyId::MaximumPacketSize).len(), prop_bytes(m, PropertyId::AssignedClientIdentifier)),
        at(d, pos + prop_bytes(m, PropertyId::SessionExpiryInterval).len() + prop_bytes(m, PropertyId::ReceiveMaximum).len() + prop_bytes(m, PropertyId::MaximumQoS).len() + prop_bytes(m, PropertyId::RetainAvailable).len() + prop_bytes(m, PropertyId::MaximumPacketSize).len() + prop_bytes(m, PropertyId::AssignedClientIdentifier).len(), prop_bytes(m, PropertyId::TopicAliasMaximum)),
        at(d, pos + prop_bytes(m, PropertyId::SessionExpiryInterval).len() + prop_bytes(m, PropertyId::ReceiveMaximum).len() + prop_bytes(m, PropertyId::MaximumQoS).len() + prop_bytes(m, PropertyId::RetainAvailable).len() + prop_bytes(m, PropertyId::MaximumPacketSize).len() + prop_bytes(m, PropertyId::AssignedClientIdentifier).len() + prop_bytes(m, PropertyId::TopicAliasMaximum).len(), prop_bytes(m, PropertyId::ReasonString)),
        len + prop_bytes(m, PropertyId::SessionExpiryInterval).len() + prop_bytes(m, PropertyId::ReceiveMaximum).len() + prop_bytes(m, PropertyId::MaximumQoS).len() + prop_bytes(m, PropertyId::RetainAvailable).len() + prop_bytes(m, PropertyId::MaximumPacketSize).len() + prop_bytes(m, PropertyId::AssignedClientIdentifier).len() + prop_bytes(m, PropertyId::TopicAliasMaximum).len() + prop_bytes(m, PropertyId::ReasonString).len() <= total,
    ensures
        sp_props_from(d, pos, total, len, acc, PropsKind::Connack) == sp_props_from(
            d,
            pos + prop_bytes(m, PropertyId::SessionExpiryInterval).len() + prop_bytes(m, PropertyId::ReceiveMaximum).len() + prop_bytes(m, PropertyId::MaximumQoS).len() + prop_bytes(m, PropertyId::RetainAvailable).len() + prop_bytes(m, PropertyId::MaximumPacketSize).len() + prop_bytes(m, PropertyId::AssignedClientIdentifier).len() + prop_bytes(m, PropertyId::TopicAliasMaximum).len() + prop_bytes(m, PropertyId::ReasonString).len(),
            total,
            len + prop_bytes(m, PropertyId::SessionExpiryInterval).len() + prop_bytes(m, PropertyId::ReceiveMaximum).len() + prop_bytes(m, PropertyId::MaximumQoS).len() + prop_bytes(m, PropertyId::RetainAvailable).len() + prop_bytes(m, PropertyId::MaximumPacketSize).len() + prop_bytes(m, PropertyId::AssignedClientIdentifier).len() + prop_bytes(m, PropertyId::TopicAliasMaximum).len() + prop_bytes(m, PropertyId::ReasonString).len(),
            take_prop(take_prop(take_prop(take_prop(take_prop(take_prop(take_prop(take_prop(acc, m, PropertyId::SessionExpiryInterval), m, PropertyId::ReceiveMaximum), m, PropertyId::MaximumQoS), m, PropertyId::RetainAvailable), m, PropertyId::MaximumPacketSize), m, PropertyId::AssignedClientIdentifier), m, PropertyId::TopicAliasMaximum), m, PropertyId::ReasonString),
            PropsKind::Connack,
        ),
{
    lemma_field_step(d, pos, total, len, acc, m, PropsKind::Connack, PropertyId::SessionExpiryInterval);
    let a1 = take_prop(acc, m, PropertyId::SessionExpiryInterval);
    lemma_field_step(d, pos + prop_bytes(m, PropertyId::SessionExpiryInterval).len(), total, len + prop_bytes(m, PropertyId::SessionExpiryInterval).len(), a1, m, PropsKind::Connack, PropertyId::ReceiveMaximum);
    let a2 = take_prop(a1, m, PropertyId::ReceiveMaximum);
    lemma_field_step(d, pos + prop_bytes(m, PropertyId::SessionExpiryInterval).len() + prop_bytes(m, PropertyId::ReceiveMaximum).len(), total, len + prop_bytes(m, PropertyId::SessionExpiryInterval).len() + prop_bytes(m, PropertyId::ReceiveMaximum).len(), a2, m, PropsKind::Connack, PropertyId::MaximumQoS);
    let a3 = take_prop(a2, m, PropertyId::MaximumQoS);
    lemma_field_step(d, pos + prop_bytes(m, PropertyId::SessionExpiryInterval).len() + prop_bytes(m, PropertyId::ReceiveMaximum).len() + prop_bytes(m, PropertyId::MaximumQoS).len(), total, len + prop_bytes(m, PropertyId::SessionExpiryInterval).len() + prop_bytes(m, PropertyId::ReceiveMaximum).len() + prop_bytes(m, PropertyId::MaximumQoS).len(), a3, m, PropsKind::Connack, PropertyId::RetainAvailable);
    let a4 = take_prop(a3, m, PropertyId::RetainAvailable);
    lemma_field_step(d, pos + prop_bytes(m, PropertyId::SessionExpiryInterval).len() + prop_bytes(m, PropertyId::ReceiveMaximum).len() + prop_bytes(m, PropertyId::MaximumQoS).len() + prop_bytes(m, PropertyId::RetainAvailable).len(), total, len + prop_bytes(m, PropertyId::SessionExpiryInterval).len() + prop_bytes(m, PropertyId::ReceiveMaximum).len() + prop_bytes(m, PropertyId::MaximumQoS).len() + prop_bytes(m, PropertyId::RetainAvailable).len(), a4, m, PropsKind::Connack, PropertyId::MaximumPacketSize);
    let a5 = take_prop(a4, m, PropertyId::MaximumPacketSize);
    lemma_field_step(d, pos + prop_bytes(m, PropertyId::SessionExpiryInterval).len() + prop_bytes(m, PropertyId::ReceiveMaximum).len() + prop_bytes(m, PropertyId::MaximumQoS).len() + prop_bytes(m, PropertyId::RetainAvailable).len() + prop_bytes(m, PropertyId::MaximumPacketSize).len(), total, len + prop_bytes(m, PropertyId::SessionExpiryInterval).len() + prop_bytes(m, PropertyId::ReceiveMaximum).len() + prop_bytes(m, PropertyId::MaximumQoS).len() + prop_bytes(m, PropertyId::RetainAvailable).len() + prop_bytes(m, PropertyId::MaximumPacketSize).len(), a5, m, PropsKind::Connack, PropertyId::AssignedClientIdentifier);
    let a6 = take_prop(a5, m, PropertyId::AssignedClientIdentifier);
    lemma_field_step(d, pos + prop_bytes(m, PropertyId::SessionExpiryInterval).len() + prop_bytes(m, PropertyId::ReceiveMaximum).len() + prop_bytes(m, PropertyId::MaximumQoS).len() + prop_bytes(m, PropertyId::RetainAvailable).len() + prop_bytes(m, PropertyId::MaximumPacketSize).len() + prop_bytes(m, PropertyId::AssignedClientIdentifier).len(), total, len + prop_bytes(m, PropertyId::SessionExpiryInterval).len() + prop_bytes(m, PropertyId::ReceiveMaximum).len() + prop_bytes(m, PropertyId::MaximumQoS).len() + prop_bytes(m, PropertyId::RetainAvailable).len() + prop_bytes(m, PropertyId::MaximumPacketSize).len() + prop_bytes(m, PropertyId::AssignedClientIdentifier).len(), a6, m, PropsKind::Connack, PropertyId::TopicAliasMaximum);
    let a7 = take_prop(a6, m, PropertyId::TopicAliasMaximum);
    lemma_field_step(d, pos + prop_bytes(m, PropertyId::SessionExpiryInterval).len() + prop_bytes(m, PropertyId::ReceiveMaximum).len() + prop_bytes(m, PropertyId::MaximumQoS).len() + prop_bytes(m, PropertyId::RetainAvailable).len() + prop_bytes(m, PropertyId::MaximumPacketSize).len() + prop_bytes(m, PropertyId::AssignedClientIdentifier).len() + prop_bytes(m, PropertyId::TopicAliasMaximum).len(), total, len + prop_bytes(m, PropertyId::SessionExpiryInterval).len() + prop_bytes(m, PropertyId::ReceiveMaximum).len() + prop_bytes(m, PropertyId::MaximumQoS).len() + prop_bytes(m, PropertyId::RetainAvailable).len() + prop_bytes(m, PropertyId::MaximumPacketSize).len() + prop_bytes(m, PropertyId::AssignedClientIdentifier).len() + prop_bytes(m, PropertyId::TopicAliasMaximum).len(), a7, m, PropsKind::Connack, PropertyId::ReasonString);
    let a8 = take_prop(a7, m, PropertyId::ReasonString);
}

/// Decoding properties WildcardSubscriptionAvailable, SubscriptionIdentifierAvailable, SharedSubscriptionAvailable, ServerKeepAlive, ResponseInformation, ServerReference, AuthenticationMethod, AuthenticationData of `m` where they stand adds them.
#[verifier::rlimit(100)]
proof fn lemma_connack_fields_1(d: Seq<u8>, pos: int, total: nat, len: nat, acc: PropsModel, m: PropsModel)
    requires
        m.wf(),
        acc.get(PropertyId::WildcardSubscriptionAvailable) is None,
        acc.get(PropertyId::SubscriptionIdentifierAvailable) is None,
        acc.get(PropertyId::SharedSubscriptionAvailable) is None,
        acc.get(PropertyId::ServerKeepAlive) is None,
        acc.get(PropertyId::ResponseInformation) is None,
        acc.get(PropertyId::ServerReference) is None,
        acc.get(PropertyId::AuthenticationMethod) is None,
        acc.get(PropertyId::AuthenticationData) is None,
        at(d, pos, prop_bytes(m, PropertyId::WildcardSubscriptionAvailable)),
        at(d, pos + prop_bytes(m, PropertyId::WildcardSubscriptionAvailable).len(), prop_bytes(m, PropertyId::SubscriptionIdentifierAvailable)),
        at(d, pos + prop_bytes(m, PropertyId::WildcardSubscriptionAvailable).len() + prop_bytes(m, PropertyId::SubscriptionIdentifierAvailable).len(), prop_bytes(m, PropertyId::SharedSubscriptionAvailable)),
        at(d, pos + prop_bytes(m, PropertyId::WildcardSubscriptionAvailable).len() + prop_bytes(m, PropertyId::SubscriptionIdentifierAvailable).len() + prop_bytes(m, PropertyId::SharedSubscriptionAvailable).len(), prop_bytes(m, PropertyId::ServerKeepAlive)),
        at(d, pos + prop_bytes(m, PropertyId::WildcardSubscriptionAvailable).len() + prop_bytes(m, PropertyId::SubscriptionIdentifierAvailable).len() + prop_bytes(m, PropertyId::SharedSubscriptionAvailable).len() + prop_bytes(m, PropertyId::ServerKeepAlive).len(), prop_bytes(m, PropertyId::ResponseInformation)),
        at(d, pos + prop_bytes(m, PropertyId::WildcardSubscriptionAvailable).len() + prop_bytes(m, PropertyId::SubscriptionIdentifierAvailable).len() + prop_bytes(m, PropertyId::SharedSubscriptionAvailable).len() + prop_bytes(m, PropertyId::ServerKeepAlive).len() + prop_bytes(m, PropertyId::ResponseInformation).len(), prop_bytes(m, PropertyId::ServerReference)),
        at(d, pos + prop_bytes(m, PropertyId::WildcardSubscriptionAvailable).len() + prop_bytes(m, PropertyId::SubscriptionIdentifierAvailable).len() + prop_bytes(m, PropertyId::SharedSubscriptionAvailable).len() + prop_bytes(m, PropertyId::ServerKeepAlive).len() + prop_bytes(m, PropertyId::ResponseInformation).len() + prop_bytes(m, PropertyId::ServerReference).len(), prop_bytes(m, PropertyId::AuthenticationMethod)),
        at(d, pos + prop_bytes(m, PropertyId::WildcardSubscriptionAvailable).len() + prop_bytes(m, PropertyId::SubscriptionIdentifierAvailable).len() + prop_bytes(m, PropertyId::SharedSubscriptionAvailable).len() + prop_bytes(m, PropertyId::ServerKeepAlive).len() + prop_bytes(m, PropertyId::ResponseInformation).len() + prop_bytes(m, PropertyId::ServerReference).len() + prop_bytes(m, PropertyId::AuthenticationMethod).len(), prop_bytes(m, PropertyId::AuthenticationData)),
        len + prop_bytes(m, PropertyId::WildcardSubscriptionAvailable).len() + prop_bytes(m, PropertyId::SubscriptionIdentifierAvailable).len() + prop_bytes(m, PropertyId::SharedSubscriptionAvailable).len() + prop_bytes(m, PropertyId::ServerKeepAlive).len() + prop_bytes(m, PropertyId::ResponseInformation).len() + prop_bytes(m, PropertyId::ServerReference).len() + prop_bytes(m, PropertyId::AuthenticationMethod).len() + prop_bytes(m, PropertyId::AuthenticationData).len() <= total,
    ensures
        sp_props_from(d, pos, total, len, acc, PropsKind::Connack) == sp_props_from(
            d,
            pos + prop_bytes(m, PropertyId::WildcardSubscriptionAvailable).len() + prop_bytes(m, PropertyId::SubscriptionIdentifierAvailable).len() + prop_bytes(m, PropertyId::SharedSubscriptionAvailable).len() + prop_bytes(m, PropertyId::ServerKeepAlive).len() + prop_bytes(m, PropertyId::ResponseInformation).len() + prop_bytes(m, PropertyId::ServerReference).len() + prop_bytes(m, PropertyId::AuthenticationMethod).len() + prop_bytes(m, PropertyId::AuthenticationData).len(),
            total,
            len + prop_bytes(m, PropertyId::WildcardSubscriptionAvailable).len() + prop_bytes(m, PropertyId::SubscriptionIdentifierAvailable).len() + prop_bytes(m, PropertyId::SharedSubscriptionAvailable).len() + prop_bytes(m, PropertyId::ServerKeepAlive).len() + prop_bytes(m, PropertyId::ResponseInformation).len() + prop_bytes(m, PropertyId::ServerReference).len() + prop_bytes(m, PropertyId::AuthenticationMethod).len() + prop_bytes(m, PropertyId::AuthenticationData).len(),
            take_prop(take_prop(take_prop(take_prop(take_prop(take_prop(take_prop(take_prop(acc, m, PropertyId::WildcardSubscriptionAvailable), m, PropertyId::SubscriptionIdentifierAvailable), m, PropertyId::SharedSubscriptionAvailable), m, PropertyId::ServerKeepAlive), m, PropertyId::ResponseInformation), m, PropertyId::ServerReference), m, PropertyId::AuthenticationMethod), m, PropertyId::AuthenticationData),
            PropsKind::Connack,
        ),
{
    lemma_field_step(d, pos, total, len, acc, m, PropsKind::Connack, PropertyId::WildcardSubscriptionAvailable);
    let a1 = take_prop(acc, m, PropertyId::WildcardSubscriptionAvailable);
    lemma_field_step(d, pos + prop_bytes(m, PropertyId::WildcardSubscriptionAvailable).len(), total, len + prop_bytes(m, PropertyId::WildcardSubscriptionAvailable).len(), a1, m, PropsKind::Connack, PropertyId::SubscriptionIdentifierAvailable);
    let a2 = take_prop(a1, m, PropertyId::SubscriptionIdentifierAvailable);
    lemma_field_step(d, pos + prop_bytes(m, PropertyId::WildcardSubscriptionAvailable).len() + prop_bytes(m, PropertyId::SubscriptionIdentifierAvailable).len(), total, len + prop_bytes(m, PropertyId::WildcardSubscriptionAvailable).len() + prop_bytes(m, PropertyId::SubscriptionIdentifierAvailable).len(), a2, m, PropsKind::Connack, PropertyId::SharedSubscriptionAvailable);
    let a3 = take_prop(a2, m, PropertyId::SharedSubscriptionAvailable);
    lemma_field_step(d, pos + prop_bytes(m, PropertyId::WildcardSubscriptionAvailable).len() + prop_bytes(m, PropertyId::SubscriptionIdentifierAvailable).len() + prop_bytes(m, PropertyId::SharedSubscriptionAvailable).len(), total, len + prop_bytes(m, PropertyId::WildcardSubscriptionAvailable).len() + prop_bytes(m, PropertyId::SubscriptionIdentifierAvailable).len() + prop_bytes(m, PropertyId::SharedSubscriptionAvailable).len(), a3, m, PropsKind::Connack, PropertyId::ServerKeepAlive);
    let a4 = take_prop(a3, m, PropertyId::ServerKeepAlive);
    lemma_field_step(d, pos + prop_bytes(m, PropertyId::WildcardSubscriptionAvailable).len() + prop_bytes(m, PropertyId::SubscriptionIdentifierAvailable).len() + prop_bytes(m, PropertyId::SharedSubscriptionAvailable).len() + prop_bytes(m, PropertyId::ServerKeepAlive).len(), total, len + prop_bytes(m, PropertyId::WildcardSubscriptionAvailable).len() + prop_bytes(m, PropertyId::SubscriptionIdentifierAvailable).len() + prop_bytes(m, PropertyId::SharedSubscriptionAvailable).len() + prop_bytes(m, PropertyId::ServerKeepAlive).len(), a4, m, PropsKind::Connack, PropertyId::ResponseInformation);
    let a5 = take_prop(a4, m, PropertyId::ResponseInformation);
    lemma_field_step(d, pos + prop_bytes(m, PropertyId::WildcardSubscriptionAvailable).len() + prop_bytes(m, PropertyId::SubscriptionIdentifierAvailable).len() + prop_bytes(m, PropertyId::SharedSubscriptionAvailable).len() + prop_bytes(m, PropertyId::ServerKeepAlive).len() + prop_bytes(m, PropertyId::ResponseInformation).len(), total, len + prop_bytes(m, PropertyId::WildcardSubscriptionAvailable).len() + prop_bytes(m, PropertyId::SubscriptionIdentifierAvailable).len() + prop_bytes(m, PropertyId::SharedSubscriptionAvailable).len() + prop_bytes(m, PropertyId::ServerKeepAlive).len() + prop_bytes(m, PropertyId::ResponseInformation).len(), a5, m, PropsKind::Connack, PropertyId::ServerReference);
    let a6 = take_prop(a5, m, PropertyId::ServerReference);
    lemma_field_step(d, pos + prop_bytes(m, PropertyId::WildcardSubscriptionAvailable).len() + prop_bytes(m, PropertyId::SubscriptionIdentifierAvailable).len() + prop_bytes(m, PropertyId::SharedSubscriptionAvailable).len() + prop_bytes(m, PropertyId::ServerKeepAlive).len() + prop_bytes(m, PropertyId::ResponseInformation).len() + prop_bytes(m, PropertyId::ServerReference).len(), total, len + prop_bytes(m, PropertyId::WildcardSubscriptionAvailable).len() + prop_bytes(m, PropertyId::SubscriptionIdentifierAvailable).len() + prop_bytes(m, PropertyId::SharedSubscriptionAvailable).len() + prop_bytes(m, PropertyId::ServerKeepAlive).len() + prop_bytes(m, PropertyId::ResponseInformation).len() + prop_bytes(m, PropertyId::ServerReference).len(), a6, m, PropsKind::Connack, PropertyId::AuthenticationMethod);
    let a7 = take_prop(a6, m, PropertyId::AuthenticationMethod);
    lemma_field_step(d, pos + prop_bytes(m, PropertyId::WildcardSubscriptionAvailable).len() + prop_bytes(m, PropertyId::SubscriptionIdentifierAvailable).len() + prop_bytes(m, PropertyId::SharedSubscriptionAvailable).len() + prop_bytes(m, PropertyId::ServerKeepAlive).len() + prop_bytes(m, PropertyId::ResponseInformation).len() + prop_bytes(m, PropertyId::ServerReference).len() + prop_bytes(m, PropertyId::AuthenticationMethod).len(), total, len + prop_bytes(m, PropertyId::WildcardSubscriptionAvailable).len() + prop_bytes(m, PropertyId::SubscriptionIdentifierAvailable).len() + prop_bytes(m, PropertyId::SharedSubscriptionAvailable).len() + prop_bytes(m, PropertyId::ServerKeepAlive).len() + prop_bytes(m, PropertyId::ResponseInformation).len() + prop_bytes(m, PropertyId::ServerReference).len() + prop_bytes(m, PropertyId::AuthenticationMethod).len(), a7, m, PropsKind::Connack, PropertyId::AuthenticationData);
    let a8 = take_prop(a7, m, PropertyId::AuthenticationData);
}

/// Taking the connack properties of `m` one by one gives `m` without its user properties.
#[verifier::rlimit(100)]
proof fn lemma_connack_covers(m: PropsModel)
    requires
        m.restrict(PropsKind::Connack) == m,
    ensures
        take_prop(take_prop(take_prop(take_prop(take_prop(take_prop(take_prop(take_prop(take_prop(take_prop(take_prop(take_prop(take_prop(take_prop(take_prop(take_prop(PropsModel::empty(), m, PropertyId::SessionExpiryInterval), m, PropertyId::ReceiveMaximum), m, PropertyId::MaximumQoS), m, PropertyId::RetainAvailable), m, PropertyId::MaximumPacketSize), m, PropertyId::AssignedClientIdentifier), m, PropertyId::TopicAliasMaximum), m, PropertyId::ReasonString), m, PropertyId::WildcardSubscriptionAvailable), m, PropertyId::SubscriptionIdentifierAvailable), m, PropertyId::SharedSubscriptionAvailable), m, PropertyId::ServerKeepAlive), m, PropertyId::ResponseInformation), m, PropertyId::ServerReference), m, PropertyId::AuthenticationMethod), m, PropertyId::AuthenticationData) == m.without_users(),
{
    let a0 = PropsModel::empty();
    let a1 = take_prop(a0, m, PropertyId::SessionExpiryInterval);
    assert(a1 == PropsModel { session_expiry_interval: m.session_expiry_interval, ..PropsModel::empty() });
    let a2 = take_prop(a1, m, PropertyId::ReceiveMaximum);
    assert(a2 == PropsModel { session_expiry_interval: m.session_expiry_interval, receive_max: m.receive_max, ..PropsModel::empty() });
    let a3 = take_prop(a2, m, PropertyId::MaximumQoS);
    assert(a3 == PropsModel { session_expiry_interval: m.session_expiry_interval, receive_max: m.receive_max, max_qos: m.max_qos, ..PropsModel::empty() });
    let a4 = take_prop(a3, m, PropertyId::RetainAvailable);
    assert(a4 == PropsModel { session_expiry_interval: m.session_expiry_interval, receive_max: m.receive_max, max_qos: m.max_qos, retain_available: m.retain_available, ..PropsModel::empty() });
    let a5 = take_prop(a4, m, PropertyId::MaximumPacketSize);
    assert(a5 == PropsModel { session_expiry_interval: m.session_expiry_interval, receive_max: m.receive_max, max_qos: m.max_qos, retain_available: m.retain_available, max_packet_size: m.max_packet_size, ..PropsModel::empty() });
    let a6 = take_prop(a5, m, PropertyId::AssignedClientIdentifier);
    assert(a6 == PropsModel { session_expiry_interval: m.session_expiry_interval, receive_max: m.receive_max, max_qos: m.max_qos, retain_available: m.retain_available, max_packet_size: m.max_packet_size, assigned_client_id: m.assigned_client_id, ..PropsModel::empty() });
    let a7 = take_prop(a6, m, PropertyId::TopicAliasMaximum);
    assert(a7 == PropsModel { session_expiry_interval: m.session_expiry_interval, receive_max: m.receive_max, max_qos: m.max_qos, retain_available: m.retain_available, max_packet_size: m.max_packet_size, assigned_client_id: m.assigned_client_id, topic_alias_max: m.topic_alias_max, ..PropsModel::empty() });
    let a8 = take_prop(a7, m, PropertyId::ReasonString);
    assert(a8 == PropsModel { session_expiry_interval: m.session_expiry_interval, receive_max: m.receive_max, max_qos: m.max_qos, retain_available: m.retain_available, max_packet_size: m.max_packet_size, assigned_client_id: m.assigned_client_id, topic_alias_max: m.topic_alias_max, reason_string: m.reason_string, ..PropsModel::empty() });
    let a9 = take_prop(a8, m, PropertyId::WildcardSubscriptionAvailable);
    assert(a9 == PropsModel { session_expiry_interval: m.session_expiry_interval, receive_max: m.receive_max, max_qos: m.max_qos, retain_available: m.retain_available, max_packet_size: m.max_packet_size, assigned_client_id: m.assigned_client_id, topic_alias_max: m.topic_alias_max, reason_string: m.reason_string, wildcard_subscription_available: m.wildcard_subscription_available, ..PropsModel::empty() });
    let a10 = take_prop(a9, m, PropertyId::SubscriptionIdentifierAvailable);
    assert(a10 == PropsModel { session_expiry_interval: m.session_expiry_interval, receive_max: m.receive_max, max_qos: m.max_qos, retain_available: m.retain_available, max_packet_size: m.max_packet_size, assigned_client_id: m.assigned_client_id, topic_alias_max: m.topic_alias_max, reason_string: m.reason_string, wildcard_subscription_available: m.wildcard_subscription_available, subscription_id_available: m.subscription_id_available, ..PropsModel::empty() });
    let a11 = take_prop(a10, m, PropertyId::SharedSubscriptionAvailable);
    assert(a11 == PropsModel { session_expiry_interval: m.session_expiry_interval, receive_max: m.receive_max, max_qos: m.max_qos, retain_available: m.retain_available, max_packet_size: m.max_packet_size, assigned_client_id: m.assigned_client_id, topic_alias_max: m.topic_alias_max, reason_string: m.reason_string, wildcard_subscription_available: m.wildcard_subscription_available, subscription_id_available: m.subscription_id_available, shared_subscription_available: m.shared_subscription_available, ..PropsModel::empty() });
    let a12 = take_prop(a11, m, PropertyId::ServerKeepAlive);
    assert(a12 == PropsModel { session_expiry_interval: m.session_expiry_interval, receive_max: m.receive_max, max_qos: m.max_qos, retain_available: m.retain_available, max_packet_size: m.max_packet_size, assigned_client_id: m.assigned_client_id, topic_alias_max: m.topic_alias_max, reason_string: m.reason_string, wildcard_subscription_available: m.wildcard_subscription_available, subscription_id_available: m.subscription_id_available, shared_subscription_available: m.shared_subscription_available, server_keep_alive: m.server_keep_alive, ..PropsModel::empty() });
    let a13 = take_prop(a12, m, PropertyId::ResponseInformation);
    assert(a13 == PropsModel { session_expiry_interval: m.session_expiry_interval, receive_max: m.receive_max, max_qos: m.max_qos, retain_available: m.retain_available, max_packet_size: m.max_packet_size, assigned_client_id: m.assigned_client_id, topic_alias_max: m.topic_alias_max, reason_string: m.reason_string, wildcard_subscription_available: m.wildcard_subscription_available, subscription_id_available: m.subscription_id_available, shared_subscription_available: m.shared_subscription_available, server_keep_alive: m.server_keep_alive, response_info: m.response_info, ..PropsModel::empty() });
    let a14 = take_prop(a13, m, PropertyId::ServerReference);
    assert(a14 == PropsModel { session_expiry_interval: m.session_expiry_interval, receive_max: m.receive_max, max_qos: m.max_qos, retain_available: m.retain_available, max_packet_size: m.max_packet_size, assigned_client_id: m.assigned_client_id, topic_alias_max: m.topic_alias_max, reason_string: m.reason_string, wildcard_subscription_available: m.wildcard_subscription_available, subscription_id_available: m.subscription_id_available, shared_subscription_available: m.shared_subscription_available, server_keep_alive: m.server_keep_alive, response_info: m.response_info, server_reference: m.server_reference, ..PropsModel::empty() });
    let a15 = take_prop(a14, m, PropertyId::AuthenticationMethod);
    assert(a15 == PropsModel { session_expiry_interval: m.session_expiry_interval, receive_max: m.receive_max, max_qos: m.max_qos, retain_available: m.retain_available, max_packet_size: m.max_packet_size, assigned_client_id: m.assigned_client_id, topic_alias_max: m.topic_alias_max, reason_string: m.reason_string, wildcard_subscription_available: m.wildcard_subscription_available, subscription_id_available: m.subscription_id_available, shared_subscription_available: m.shared_subscription_available, server_keep_alive: m.server_keep_alive, response_info: m.response_info, server_reference: m.server_reference, auth_method: m.auth_method, ..PropsModel::empty() });
    let a16 = take_prop(a15, m, PropertyId::AuthenticationData);
    assert(a16 == PropsModel { session_expiry_interval: m.session_expiry_interval, receive_max: m.receive_max, max_qos: m.max_qos, retain_available: m.retain_available, max_packet_size: m.max_packet_size, assigned_client_id: m.assigned_client_id, topic_alias_max: m.topic_alias_max, reason_string: m.reason_string, wildcard_subscription_available: m.wildcard_subscription_available, subscription_id_available: m.subscription_id_available, shared_subscription_available: m.shared_subscription_available, server_keep_alive: m.server_keep_alive, response_info: m.response_info, server_reference: m.server_reference, auth_method: m.auth_method, auth_data: m.auth_data, ..PropsModel::empty() });
}

/// The connack properties of `m`, each where it stands.
#[verifier::rlimit(100)]
proof fn lemma_connack_split(d: Seq<u8>, p0: int, m: PropsModel)
    requires
        at(d, p0, fields_bytes(m, ConnackProperties::fields_order())),
    ensures
        at(d, p0, prop_bytes(m, PropertyId::SessionExpiryInterval)),
        at(d, p0 + prop_bytes(m, PropertyId::SessionExpiryInterval).len(), prop_bytes(m, PropertyId::ReceiveMaximum)),
        at(d, p0 + prop_bytes(m, PropertyId::SessionExpiryInterval).len() + prop_bytes(m, PropertyId::ReceiveMaximum).len(), prop_bytes(m, PropertyId::MaximumQoS)),
        at(d, p0 + prop_bytes(m, PropertyId::SessionExpiryInterval).len() + prop_bytes(m, PropertyId::ReceiveMaximum).len() + prop_bytes(m, PropertyId::MaximumQoS).len(), prop_bytes(m, PropertyId::RetainAvailable)),
        at(d, p0 + prop_bytes(m, PropertyId::SessionExpiryInterval).len() + prop_bytes(m, PropertyId::ReceiveMaximum).len() + prop_bytes(m, PropertyId::MaximumQoS).len() + prop_bytes(m, PropertyId::RetainAvailable).len(), prop_bytes(m, PropertyId::MaximumPacketSize)),
        at(d, p0 + prop_bytes(m, PropertyId::SessionExpiryInterval).len() + prop_bytes(m, PropertyId::ReceiveMaximum).len() + prop_bytes(m, PropertyId::MaximumQoS).len() + prop_bytes(m, PropertyId::RetainAvailable).len() + prop_bytes(m, PropertyId::MaximumPacketSize).len(), prop_bytes(m, PropertyId::AssignedClientIdentifier)),
        at(d, p0 + prop_bytes(m, PropertyId::SessionExpiryInterval).len() + prop_bytes(m, PropertyId::ReceiveMaximum).len() + prop_bytes(m, PropertyId::MaximumQoS).len() + prop_bytes(m, PropertyId::RetainAvailable).len() + prop_bytes(m, PropertyId::MaximumPacketSize).len() + prop_bytes(m, PropertyId::AssignedClientIdentifier).len(), prop_bytes(m, PropertyId::TopicAliasMaximum)),
        at(d, p0 + prop_bytes(m, PropertyId::SessionExpiryInterval).len() + prop_bytes(m, PropertyId::ReceiveMaximum).len() + prop_bytes(m, PropertyId::MaximumQoS).len() + prop_bytes(m, PropertyId::RetainAvailable).len() + prop_bytes(m, PropertyId::MaximumPacketSize).len() + prop_bytes(m, PropertyId::AssignedClientIdentifier).len() + prop_bytes(m, PropertyId::TopicAliasMaximum).len(), prop_bytes(m, PropertyId::ReasonString)),
        at(d, p0 + prop_bytes(m, PropertyId::SessionExpiryInterval).len() + prop_bytes(m, PropertyId::ReceiveMaximum).len() + prop_bytes(m, PropertyId::MaximumQoS).len() + prop_bytes(m, PropertyId::RetainAvailable).len() + prop_bytes(m, PropertyId::MaximumPacketSize).len() + prop_bytes(m, PropertyId::AssignedClientIdentifier).len() + prop_bytes(m, PropertyId::TopicAliasMaximum).len() + prop_bytes(m, PropertyId::ReasonString).len(), prop_bytes(m, PropertyId::WildcardSubscriptionAvailable)),
        at(d, p0 + prop_bytes(m, PropertyId::SessionExpiryInterval).len() + prop_bytes(m, PropertyId::ReceiveMaximum).len() + prop_bytes(m, PropertyId::MaximumQoS).len() + prop_bytes(m, PropertyId::RetainAvailable).len() + prop_bytes(m, PropertyId::MaximumPacketSize).len() + prop_bytes(m, PropertyId::AssignedClientIdentifier).len() + prop_bytes(m, PropertyId::TopicAliasMaximum).len() + prop_bytes(m, PropertyId::ReasonString).len() + prop_bytes(m, PropertyId::WildcardSubscriptionAvailable).len(), prop_bytes(m, PropertyId::SubscriptionIdentifierAvailable)),
        at(d, p0 + prop_bytes(m, PropertyId::SessionExpiryInterval).len() + prop_bytes(m, PropertyId::ReceiveMaximum).len() + prop_bytes(m, PropertyId::MaximumQoS).len() + prop_bytes(m, PropertyId::RetainAvailable).len() + prop_bytes(m, PropertyId::MaximumPacketSize).len() + prop_bytes(m, PropertyId::AssignedClientIdentifier).len() + prop_bytes(m, PropertyId::TopicAliasMaximum).len() + prop_bytes(m, PropertyId::ReasonString).len() + prop_bytes(m, PropertyId::WildcardSubscriptionAvailable).len() + prop_bytes(m, PropertyId::SubscriptionIdentifierAvailable).len(), prop_bytes(m, PropertyId::SharedSubscriptionAvailable)),
        at(d, p0 + prop_bytes(m, PropertyId::SessionExpiryInterval).len() + prop_bytes(m, PropertyId::ReceiveMaximum).len() + prop_bytes(m, PropertyId::MaximumQoS).len() + prop_bytes(m, PropertyId::RetainAvailable).len() + prop_bytes(m, PropertyId::MaximumPacketSize).len() + prop_bytes(m, PropertyId::AssignedClientIdentifier).len() + prop_bytes(m, PropertyId::TopicAliasMaximum).len() + prop_bytes(m, PropertyId::ReasonString).len() + prop_bytes(m, PropertyId::WildcardSubscriptionAvailable).len() + prop_bytes(m, PropertyId::SubscriptionIdentifierAvailable).len() + prop_bytes(m, PropertyId::SharedSubscriptionAvailable).len(), prop_bytes(m, PropertyId::ServerKeepAlive)),
        at(d, p0 + prop_bytes(m, PropertyId::SessionExpiryInterval).len() + prop_bytes(m, PropertyId::ReceiveMaximum).len() + prop_bytes(m, PropertyId::MaximumQoS).len() + prop_bytes(m, PropertyId::RetainAvailable).len() + prop_bytes(m, PropertyId::MaximumPacketSize).len() + prop_bytes(m, PropertyId::AssignedClientIdentifier).len() + prop_bytes(m, PropertyId::TopicAliasMaximum).len() + prop_bytes(m, PropertyId::ReasonString).len() + prop_bytes(m, PropertyId::WildcardSubscriptionAvailable).len() + prop_bytes(m, PropertyId::SubscriptionIdentifierAvailable).len() + prop_bytes(m, PropertyId::SharedSubscriptionAvailable).len() + prop_bytes(m, PropertyId::ServerKeepAlive).len(), prop_bytes(m, PropertyId::ResponseInformation)),
        at(d, p0 + prop_bytes(m, PropertyId::SessionExpiryInterval).len() + prop_bytes(m, PropertyId::ReceiveMaximum).len() + prop_bytes(m, PropertyId::MaximumQoS).len() + prop_bytes(m, PropertyId::RetainAvailable).len() + prop_bytes(m, PropertyId::MaximumPacketSize).len() + prop_bytes(m, PropertyId::AssignedClientIdentifier).len() + prop_bytes(m, PropertyId::TopicAliasMaximum).len() + prop_bytes(m, PropertyId::ReasonString).len() + prop_bytes(m, PropertyId::WildcardSubscriptionAvailable).len() + prop_bytes(m, PropertyId::SubscriptionIdentifierAvailable).len() + prop_bytes(m, PropertyId::SharedSubscriptionAvailable).len() + prop_bytes(m, PropertyId::ServerKeepAlive).len() + prop_bytes(m, PropertyId::ResponseInformation).len(), prop_bytes(m, PropertyId::ServerReference)),
        at(d, p0 + prop_bytes(m, PropertyId::SessionExpiryInterval).len() + prop_bytes(m, PropertyId::ReceiveMaximum).len() + prop_bytes(m, PropertyId::MaximumQoS).len() + prop_bytes(m, PropertyId::RetainAvailable).len() + prop_bytes(m, PropertyId::MaximumPacketSize).len() + prop_bytes(m, PropertyId::AssignedClientIdentifier).len() + prop_bytes(m, PropertyId::TopicAliasMaximum).len() + prop_bytes(m, PropertyId::ReasonString).len() + prop_bytes(m, PropertyId::WildcardSubscriptionAvailable).len() + prop_bytes(m, PropertyId::SubscriptionIdentifierAvailable).len() + prop_bytes(m, PropertyId::SharedSubscriptionAvailable).len() + prop_bytes(m, PropertyId::ServerKeepAlive).len() + prop_bytes(m, PropertyId::ResponseInformation).len() + prop_bytes(m, PropertyId::ServerReference).len(), prop_bytes(m, PropertyId::AuthenticationMethod)),
        at(d, p0 + prop_bytes(m, PropertyId::SessionExpiryInterval).len() + prop_bytes(m, PropertyId::ReceiveMaximum).len() + prop_bytes(m, PropertyId::MaximumQoS).len() + prop_bytes(m, PropertyId::RetainAvailable).len() + prop_bytes(m, PropertyId::MaximumPacketSize).len() + prop_bytes(m, PropertyId::AssignedClientIdentifier).len() + prop_bytes(m, PropertyId::TopicAliasMaximum).len() + prop_bytes(m, PropertyId::ReasonString).len() + prop_bytes(m, PropertyId::WildcardSubscriptionAvailable).len() + prop_bytes(m, PropertyId::SubscriptionIdentifierAvailable).len() + prop_bytes(m, PropertyId::SharedSubscriptionAvailable).len() + prop_bytes(m, PropertyId::ServerKeepAlive).len() + prop_bytes(m, PropertyId::ResponseInformation).len() + prop_bytes(m, PropertyId::ServerReference).len() + prop_bytes(m, PropertyId::AuthenticationMethod).len(), prop_bytes(m, PropertyId::AuthenticationData)),
        fields_bytes(m, ConnackProperties::fields_order()).len() == prop_bytes(m, PropertyId::SessionExpiryInterval).len() + prop_bytes(m, PropertyId::ReceiveMaximum).len() + prop_bytes(m, PropertyId::MaximumQoS).len() + prop_bytes(m, PropertyId::RetainAvailable).len() + prop_bytes(m, PropertyId::MaximumPacketSize).len() + prop_bytes(m, PropertyId::AssignedClientIdentifier).len() + prop_bytes(m, PropertyId::TopicAliasMaximum).len() + prop_bytes(m, PropertyId::ReasonString).len() + prop_bytes(m, PropertyId::WildcardSubscriptionAvailable).len() + prop_bytes(m, PropertyId::SubscriptionIdentifierAvailable).len() + prop_bytes(m, PropertyId::SharedSubscriptionAvailable).len() + prop_bytes(m, PropertyId::ServerKeepAlive).len() + prop_bytes(m, PropertyId::ResponseInformation).len() + prop_bytes(m, PropertyId::ServerReference).len() + prop_bytes(m, PropertyId::AuthenticationMethod).len() + prop_bytes(m, PropertyId::AuthenticationData).len(),
{
    ConnackProperties::lemma_fields(m);
    let b1 = prop_bytes(m, PropertyId::SessionExpiryInterval);
    let b2 = prop_bytes(m, PropertyId::ReceiveMaximum);
    let b3 = prop_bytes(m, PropertyId::MaximumQoS);
    let b4 = prop_bytes(m, PropertyId::RetainAvailable);
    let b5 = prop_bytes(m, PropertyId::MaximumPacketSize);
    let b6 = prop_bytes(m, PropertyId::AssignedClientIdentifier);
    let b7 = prop_bytes(m, PropertyId::TopicAliasMaximum);
    let b8 = prop_bytes(m, PropertyId::ReasonString);
    let b9 = prop_bytes(m, PropertyId::WildcardSubscriptionAvailable);
    let b10 = prop_bytes(m, PropertyId::SubscriptionIdentifierAvailable);
    let b11 = prop_bytes(m, PropertyId::SharedSubscriptionAvailable);
    let b12 = prop_bytes(m, PropertyId::ServerKeepAlive);
    let b13 = prop_bytes(m, PropertyId::ResponseInformation);
    let b14 = prop_bytes(m, PropertyId::ServerReference);
    let b15 = prop_bytes(m, PropertyId::AuthenticationMethod);
    let b16 = prop_bytes(m, PropertyId::AuthenticationData);
    let s1 = b1;
    let s2 = s1 + b2;
    let s3 = s2 + b3;
    let s4 = s3 + b4;
    let s5 = s4 + b5;
    let s6 = s5 + b6;
    let s7 = s6 + b7;
    let s8 = s7 + b8;
    let s9 = s8 + b9;
    let s10 = s9 + b10;
    let s11 = s10 + b11;
    let s12 = s11 + b12;
    let s13 = s12 + b13;
    let s14 = s13 + b14;
    let s15 = s14 + b15;
    let s16 = s15 + b16;
    lemma_at_concat(d, p0, s15, b16);
    lemma_at_concat(d, p0, s14, b15);
    lemma_at_concat(d, p0, s13, b14);
    lemma_at_concat(d, p0, s12, b13);
    lemma_at_concat(d, p0, s11, b12);
    lemma_at_concat(d, p0, s10, b11);
    lemma_at_concat(d, p0, s9, b10);
    lemma_at_concat(d, p0, s8, b9);
    lemma_at_concat(d, p0, s7, b8);
    lemma_at_concat(d, p0, s6, b7);
    lemma_at_concat(d, p0, s5, b6);
    lemma_at_concat(d, p0, s4, b5);
    lemma_at_concat(d, p0, s3, b4);
    lemma_at_concat(d, p0, s2, b3);
    lemma_at_concat(d, p0, s1, b2);
}

impl ConnackProperties {
    /// Decoding the encoding of well-formed properties of this kind gives
    /// them back, with their length and the bytes that the length took.
    #[verifier::rlimit(100)]
    pub proof fn lemma_roundtrip(d: Seq<u8>, off: int, m: PropsModel)
        requires
            m.wf(),
            m.restrict(PropsKind::Connack) == m,
            props_body(m, Self::fields_order()).len() < 268435456,
            at(d, off, props_encode(m, Self::fields_order())),
        ensures
            sp_properties(d, off, PropsKind::Connack) == Ok::<((PropsModel, nat, nat), int), DecodeErrV5>(
                (
                    (
                        m,
                        props_body(m, Self::fields_order()).len(),
                        var_int(props_body(m, Self::fields_order()).len()).len(),
                    ),
                    off + props_encode(m, Self::fields_order()).len(),
                ),
            ),
    {
        let order = Self::fields_order();
        Self::lemma_fields(m);
        let body = props_body(m, order);
        let total = body.len();
        let vi = var_int(total);
        lemma_at_concat(d, off, vi, body);
        lemma_sp_var_int_at(d, off, total);
        let p0 = off + vi.len();
        lemma_at_concat(d, p0, fields_bytes(m, order), users_bytes(m.user_properties));
        let b1 = prop_bytes(m, PropertyId::SessionExpiryInterval);
        let b2 = prop_bytes(m, PropertyId::ReceiveMaximum);
        let b3 = prop_bytes(m, PropertyId::MaximumQoS);
        let b4 = prop_bytes(m, PropertyId::RetainAvailable);
        let b5 = prop_bytes(m, PropertyId::MaximumPacketSize);
        let b6 = prop_bytes(m, PropertyId::AssignedClientIdentifier);
        let b7 = prop_bytes(m, PropertyId::TopicAliasMaximum);
        let b8 = prop_bytes(m, PropertyId::ReasonString);
        let b9 = prop_bytes(m, PropertyId::WildcardSubscriptionAvailable);
        let b10 = prop_bytes(m, PropertyId::SubscriptionIdentifierAvailable);
        let b11 = prop_bytes(m, PropertyId::SharedSubscriptionAvailable);
        let b12 = prop_bytes(m, PropertyId::ServerKeepAlive);
        let b13 = prop_bytes(m, PropertyId::ResponseInformation);
        let b14 = prop_bytes(m, PropertyId::ServerReference);
        let b15 = prop_bytes(m, PropertyId::AuthenticationMethod);
        let b16 = prop_bytes(m, PropertyId::AuthenticationData);
        let s1 = b1;
        let s2 = s1 + b2;
        let s3 = s2 + b3;
        let s4 = s3 + b4;
        let s5 = s4 + b5;
        let s6 = s5 + b6;
        let s7 = s6 + b7;
        let s8 = s7 + b8;
        let s9 = s8 + b9;
        let s10 = s9 + b10;
        let s11 = s10 + b11;
        let s12 = s11 + b12;
        let s13 = s12 + b13;
        let s14 = s13 + b14;
        let s15 = s14 + b15;
        let s16 = s15 + b16;
        lemma_connack_split(d, p0, m);
        lemma_connack_covers(m);
        let a0 = PropsModel::empty();
        lemma_connack_fields_0(d, p0, total, 0, a0, m);
        let a1 = take_prop(a0, m, PropertyId::SessionExpiryInterval);
        let a2 = take_prop(a1, m, PropertyId::ReceiveMaximum);
        let a3 = take_prop(a2, m, PropertyId::MaximumQoS);
        let a4 = take_prop(a3, m, PropertyId::RetainAvailable);
        let a5 = take_prop(a4, m, PropertyId::MaximumPacketSize);
        let a6 = take_prop(a5, m, PropertyId::AssignedClientIdentifier);
        let a7 = take_prop(a6, m, PropertyId::TopicAliasMaximum);
        let a8 = take_prop(a7, m, PropertyId::ReasonString);
        lemma_connack_fields_1(d, p0 + s8.len(), total, s8.len(), a8, m);
        let a9 = take_prop(a8, m, PropertyId::WildcardSubscriptionAvailable);
        let a10 = take_prop(a9, m, PropertyId::SubscriptionIdentifierAvailable);
        let a11 = take_prop(a10, m, PropertyId::SharedSubscriptionAvailable);
        let a12 = take_prop(a11, m, PropertyId::ServerKeepAlive);
        let a13 = take_prop(a12, m, PropertyId::ResponseInformation);
        let a14 = take_prop(a13, m, PropertyId::ServerReference);
        let a15 = take_prop(a14, m, PropertyId::AuthenticationMethod);
        let a16 = take_prop(a15, m, PropertyId::AuthenticationData);
        assert(a16 == m.without_users());
        lemma_users_decode(d, p0 + s16.len(), total, s16.len(), a16, m.user_properties, PropsKind::Connack);
        assert(Seq::<(Seq<u8>, Seq<u8>)>::empty() + m.user_properties =~= m.user_properties);
    }
}

impl DisconnectProperties {
    /// Decoding the encoding of well-formed properties of this kind gives
    /// them back, with their length and the bytes that the length took.
    #[verifier::rlimit(100)]
    pub proof fn lemma_roundtrip(d: Seq<u8>, off: int, m: PropsModel)
        requires
            m.wf(),
            m.restrict(PropsKind::Disconnect) == m,
            props_body(m, Self::fields_order()).len() < 268435456,
            at(d, off, props_encode(m, Self::fields_order())),
        ensures
            sp_properties(d, off, PropsKind::Disconnect) == Ok::<((PropsModel, nat, nat), int), DecodeErrV5>(
                (
                    (
                        m,
                        props_body(m, Self::fields_order()).len(),
                        var_int(props_body(m, Self::fields_order()).len()).len(),
                    ),
                    off + props_encode(m, Self::fields_order()).len(),
                ),
            ),
    {
        let order = Self::fields_order();
        Self::lemma_fields(m);
        let body = props_body(m, order);
        let total = body.len();
        let vi = var_int(total);
        lemma_at_concat(d, off, vi, body);
        lemma_sp_var_int_at(d, off, total);
        let p0 = off + vi.len();
        lemma_at_concat(d, p0, fields_bytes(m, order), users_bytes(m.user_properties));
        let b1 = prop_bytes(m, PropertyId::SessionExpiryInterval);
        let b2 = prop_bytes(m, PropertyId::ReasonString);
        let b3 = prop_bytes(m, PropertyId::ServerReference);
        let s1 = b1;
        let s2 = s1 + b2;
        let s3 = s2 + b3;
        assert(fields_bytes(m, order) == s3);
        lemma_at_concat(d, p0, s2, b3);
        lemma_at_concat(d, p0, s1, b2);
        let a0 = PropsModel::empty();
        lemma_field_step(d, p0, total, 0, a0, m, PropsKind::Disconnect, PropertyId::SessionExpiryInterval);
        let a1 = take_prop(a0, m, PropertyId::SessionExpiryInterval);
        lemma_field_step(d, p0 + s1.len(), total, s1.len(), a1, m, PropsKind::Disconnect, PropertyId::ReasonString);
        let a2 = take_prop(a1, m, PropertyId::ReasonString);
        lemma_field_step(d, p0 + s2.len(), total, s2.len(), a2, m, PropsKind::Disconnect, PropertyId::ServerReference);
        let a3 = take_prop(a2, m, PropertyId::ServerReference);
        assert(a3 == m.without_users());
        lemma_users_decode(d, p0 + s3.len(), total, s3.len(), a3, m.user_properties, PropsKind::Disconnect);
        assert(Seq::<(Seq<u8>, Seq<u8>)>::empty() + m.user_properties =~= m.user_properties);
    }
}

impl AuthProperties {
    /// Decoding the encoding of well-formed properties of this kind gives
    /// them back, with their length and the bytes that the length took.
    #[verifier::rlimit(100)]
    pub proof fn lemma_roundtrip(d: Seq<u8>, off: int, m: PropsModel)
        requires
            m.wf(),
            m.restrict(PropsKind::Auth) == m,
            props_body(m, Self::fields_order()).len() < 268435456,
            at(d, off, props_encode(m, Self::fields_order())),
        ensures
            sp_properties(d, off, PropsKind::Auth) == Ok::<((PropsModel, nat, nat), int), DecodeErrV5>(
                (
                    (
                        m,
                        props_body(m, Self::fields_order()).len(),
                        var_int(props_body(m, Self::fields_order()).len()).len(),
                    ),
                    off + props_encode(m, Self::fields_order()).len(),
                ),
            ),
    {
        let order = Self::fields_order();
        Self::lemma_fields(m);
        let body = props_body(m, order);
        let total = body.len();
        let vi = var_int(total);
        lemma_at_concat(d, off, vi, body);
        lemma_sp_var_int_at(d, off, total);
        let p0 = off + vi.len();
        lemma_at_concat(d, p0, fields_bytes(m, order), users_bytes(m.user_properties));
        let b1 = prop_bytes(m, PropertyId::AuthenticationMethod);
        let b2 = prop_bytes(m, PropertyId::AuthenticationData);
        let b3 = prop_bytes(m, PropertyId::ReasonString);
        let s1 = b1;
        let s2 = s1 + b2;
        let s3 = s2 + b3;
        assert(fields_bytes(m, order) == s3);
        lemma_at_concat(d, p0, s2, b3);
        lemma_at_concat(d, p0, s1, b2);
        let a0 = PropsModel::empty();
        lemma_field_step(d, p0, total, 0, a0, m, PropsKind::Auth, PropertyId::AuthenticationMethod);
        let a1 = take_prop(a0, m, PropertyId::AuthenticationMethod);
        lemma_field_step(d, p0 + s1.len(), total, s1.len(), a1, m, PropsKind::Auth, PropertyId::AuthenticationData);
        let a2 = take_prop(a1, m, PropertyId::AuthenticationData);
        lemma_field_step(d, p0 + s2.len(), total, s2.len(), a2, m, PropsKind::Auth, PropertyId::ReasonString);
        let a3 = take_prop(a2, m, PropertyId::ReasonString);
        assert(a3 == m.without_users());
        lemma_users_decode(d, p0 + s3.len(), total, s3.len(), a3, m.user_properties, PropsKind::Auth);
        assert(Seq::<(Seq<u8>, Seq<u8>)>::empty() + m.user_properties =~= m.user_properties);
    }
}

impl PublishProperties {
    /// Decoding the encoding of well-formed properties of this kind gives
    /// them back, with their length and the bytes that the length took.
    #[verifier::rlimit(100)]
    pub proof fn lemma_roundtrip(d: Seq<u8>, off: int, m: PropsModel)
        requires
            m.wf(),
            m.restrict(PropsKind::Publish) == m,
            props_body(m, Self::fields_order()).len() < 268435456,
            at(d, off, props_encode(m, Self::fields_order())),
        ensures
            sp_properties(d, off, PropsKind::Publish) == Ok::<((PropsModel, nat, nat), int), DecodeErrV5>(
                (
                    (
                        m,
                        props_body(m, Self::fields_order()).len(),
                        var_int(props_body(m, Self::fields_order()).len()).len(),
                    ),
                    off + props_encode(m, Self::fields_order()).len(),
                ),
            ),
    {
        let order = Self::fields_order();
        Self::lemma_fields(m);
        let body = props_body(m, order);
        let total = body.len();
        let vi = var_int(total);
        lemma_at_concat(d, off, vi, body);
        lemma_sp_var_int_at(d, off, total);
        let p0 = off + vi.len();
        lemma_at_concat(d, p0, fields_bytes(m, order), users_bytes(m.user_properties));
        let b1 = prop_bytes(m, PropertyId::PayloadFormatIndicator);
        let b2 = prop_bytes(m, PropertyId::MessageExpiryInterval);
        let b3 = prop_bytes(m, PropertyId::TopicAlias);
        let b4 = prop_bytes(m, PropertyId::ResponseTopic);
        let b5 = prop_bytes(m, PropertyId::CorrelationData);
        let b6 = prop_bytes(m, PropertyId::SubscriptionIdentifier);
        let b7 = prop_bytes(m, PropertyId::ContentType);
        let s1 = b1;
        let s2 = s1 + b2;
        let s3 = s2 + b3;
        let s4 = s3 + b4;
        let s5 = s4 + b5;
        let s6 = s5 + b6;
        let s7 = s6 + b7;
        assert(fields_bytes(m, order) == s7);
        lemma_at_concat(d, p0, s6, b7);
        lemma_at_concat(d, p0, s5, b6);
        lemma_at_concat(d, p0, s4, b5);
        lemma_at_concat(d, p0, s3, b4);
        lemma_at_concat(d, p0, s2, b3);
        lemma_at_concat(d, p0, s1, b2);
        let a0 = PropsModel::empty();
        lemma_field_step(d, p0, total, 0, a0, m, PropsKind::Publish, PropertyId::PayloadFormatIndicator);
        let a1 = take_prop(a0, m, PropertyId::PayloadFormatIndicator);
        lemma_field_step(d, p0 + s1.len(), total, s1.len(), a1, m, PropsKind::Publish, PropertyId::MessageExpiryInterval);
        let a2 = take_prop(a1, m, PropertyId::MessageExpiryInterval);
        lemma_field_step(d, p0 + s2.len(), total, s2.len(), a2, m, PropsKind::Publish, PropertyId::TopicAlias);
        let a3 = take_prop(a2, m, PropertyId::TopicAlias);
        lemma_field_step(d, p0 + s3.len(), total, s3.len(), a3, m, PropsKind::Publish, PropertyId::ResponseTopic);
        let a4 = take_prop(a3, m, PropertyId::ResponseTopic);
        lemma_field_step(d, p0 + s4.len(), total, s4.len(), a4, m, PropsKind::Publish, PropertyId::CorrelationData);
        let a5 = take_prop(a4, m, PropertyId::CorrelationData);
        lemma_field_step(d, p0 + s5.len(), total, s5.len(), a5, m, PropsKind::Publish, PropertyId::SubscriptionIdentifier);
        let a6 = take_prop(a5, m, PropertyId::SubscriptionIdentifier);
        lemma_field_step(d, p0 + s6.len(), total, s6.len(), a6, m, PropsKind::Publish, PropertyId::ContentType);
        let a7 = take_prop(a6, m, PropertyId::ContentType);
        assert(a7 == m.without_users());
        lemma_users_decode(d, p0 + s7.len(), total, s7.len(), a7, m.user_properties, PropsKind::Publish);
        assert(Seq::<(Seq<u8>, Seq<u8>)>::empty() + m.user_properties =~= m.user_properties);
    }
}

impl PubackProperties {
    /// Decoding the encoding of well-formed properties of this kind gives
    /// them back, with their length and the bytes that the length took.
    #[verifier::rlimit(100)]
    pub proof fn lemma_roundtrip(d: Seq<u8>, off: int, m: PropsModel)
        requires
            m.wf(),
            m.restrict(PropsKind::Puback) == m,
            props_body(m, Self::fields_order()).len() < 268435456,
            at(d, off, props_encode(m, Self::fields_order())),
        ensures
            sp_properties(d, off, PropsKind::Puback) == Ok::<((PropsModel, nat, nat), int), DecodeErrV5>(
                (
                    (
                        m,
                        props_body(m, Self::fields_order()).len(),
                        var_int(props_body(m, Self::fields_order()).len()).len(),
                    ),
                    off + props_encode(m, Self::fields_order()).len(),
                ),
            ),
    {
        let order = Self::fields_order();
        Self::lemma_fields(m);
        let body = props_body(m, order);
        let total = body.len();
        let vi = var_int(total);
        lemma_at_concat(d, off, vi, body);
        lemma_sp_var_int_at(d, off, total);
        let p0 = off + vi.len();
        lemma_at_concat(d, p0, fields_bytes(m, order), users_bytes(m.user_properties));
        let b1 = prop_bytes(m, PropertyId::ReasonString);
        let s1 = b1;
        assert(fields_bytes(m, order) == s1);
        let a0 = PropsModel::empty();
        lemma_field_step(d, p0, total, 0, a0, m, PropsKind::Puback, PropertyId::ReasonString);
        let a1 = take_prop(a0, m, PropertyId::ReasonString);
        assert(a1 == m.without_users());
        lemma_users_decode(d, p0 + s1.len(), total, s1.len(), a1, m.user_properties, PropsKind::Puback);
        assert(Seq::<(Seq<u8>, Seq<u8>)>::empty() + m.user_properties =~= m.user_properties);
    }
}

impl PubrecProperties {
    /// Decoding the encoding of well-formed properties of this kind gives
    /// them back, with their length and the bytes that the length took.
    #[verifier::rlimit(100)]
    pub proof fn lemma_roundtrip(d: Seq<u8>, off: int, m: PropsModel)
        requires
            m.wf(),
            m.restrict(PropsKind::Pubrec) == m,
            props_body(m, Self::fields_order()).len() < 268435456,
            at(d, off, props_encode(m, Self::fields_order())),
        ensures
            sp_properties(d, off, PropsKind::Pubrec) == Ok::<((PropsModel, nat, nat), int), DecodeErrV5>(
                (
                    (
                        m,
                        props_body(m, Self::fields_order()).len(),
                        var_int(props_body(m, Self::fields_order()).len()).len(),
                    ),
                    off + props_encode(m, Self::fields_order()).len(),
                ),
            ),
    {
        let order = Self::fields_order();
        Self::lemma_fields(m);
        let body = props_body(m, order);
        let total = body.len();
        let vi = var_int(total);
        lemma_at_concat(d, off, vi, body);
        lemma_sp_var_int_at(d, off, total);
        let p0 = off + vi.len();
        lemma_at_concat(d, p0, fields_bytes(m, order), users_bytes(m.user_properties));
        let b1 = prop_bytes(m, PropertyId::ReasonString);
        let s1 = b1;
        assert(fields_bytes(m, order) == s1);
        let a0 = PropsModel::empty();
        lemma_field_step(d, p0, total, 0, a0, m, PropsKind::Pubrec, PropertyId::ReasonString);
        let a1 = take_prop(a0, m, PropertyId::ReasonString);
        assert(a1 == m.without_users());
        lemma_users_decode(d, p0 + s1.len(), total, s1.len(), a1, m.user_properties, PropsKind::Pubrec);
        assert(Seq::<(Seq<u8>, Seq<u8>)>::empty() + m.user_properties =~= m.user_properties);
    }
}

impl PubrelProperties {
    /// Decoding the encoding of well-formed properties of this kind gives
    /// them back, with their length and the bytes that the length took.
    #[verifier::rlimit(100)]
    pub proof fn lemma_roundtrip(d: Seq<u8>, off: int, m: PropsModel)
        requires
            m.wf(),
            m.restrict(PropsKind::Pubrel) == m,
            props_body(m, Self::fields_order()).len() < 268435456,
            at(d, off, props_encode(m, Self::fields_order())),
        ensures
            sp_properties(d, off, PropsKind::Pubrel) == Ok::<((PropsModel, nat, nat), int), DecodeErrV5>(
                (
                    (
                        m,
                        props_body(m, Self::fields_order()).len(),
                        var_int(props_body(m, Self::fields_order()).len()).len(),
                    ),
                    off + props_encode(m, Self::fields_order()).len(),
                ),
            ),
    {
        let order = Self::fields_order();
        Self::lemma_fields(m);
        let body = props_body(m, order);
        let total = body.len();
        let vi = var_int(total);
        lemma_at_concat(d, off, vi, body);
        lemma_sp_var_int_at(d, off, total);
        let p0 = off + vi.len();
        lemma_at_concat(d, p0, fields_bytes(m, order), users_bytes(m.user_properties));
        let b1 = prop_bytes(m, PropertyId::ReasonString);
        let s1 = b1;
        assert(fields_bytes(m, order) == s1);
        let a0 = PropsModel::empty();
        lemma_field_step(d, p0, total, 0, a0, m, PropsKind::Pubrel, PropertyId::ReasonString);
        let a1 = take_prop(a0, m, PropertyId::ReasonString);
        assert(a1 == m.without_users());
        lemma_users_decode(d, p0 + s1.len(), total, s1.len(), a1, m.user_properties, PropsKind::Pubrel);
        assert(Seq::<(Seq<u8>, Seq<u8>)>::empty() + m.user_properties =~= m.user_properties);
    }
}

impl PubcompProperties {
    /// Decoding the encoding of well-formed properties of this kind gives
    /// them back, with their length and the bytes that the length took.
    #[verifier::rlimit(100)]
    pub proof fn lemma_roundtrip(d: Seq<u8>, off: int, m: PropsModel)
        requires
            m.wf(),
            m.restrict(PropsKind::Pubcomp) == m,
            props_body(m, Self::fields_order()).len() < 268435456,
            at(d, off, props_encode(m, Self::fields_order())),
        ensures
            sp_properties(d, off, PropsKind::Pubcomp) == Ok::<((PropsModel, nat, nat), int), DecodeErrV5>(
                (
                    (
                        m,
                        props_body(m, Self::fields_order()).len(),
                        var_int(props_body(m, Self::fields_order()).len()).len(),
                    ),
                    off + props_encode(m, Self::fields_order()).len(),
                ),
            ),
    {
        let order = Self::fields_order();
        Self::lemma_fields(m);
        let body = props_body(m, order);
        let total = body.len();
        let vi = var_int(total);
        lemma_at_concat(d, off, vi, body);
        lemma_sp_var_int_at(d, off, total);
        let p0 = off + vi.len();
        lemma_at_concat(d, p0, fields_bytes(m, order), users_bytes(m.user_properties));
        let b1 = prop_bytes(m, PropertyId::ReasonString);
        let s1 = b1;
        assert(fields_bytes(m, order) == s1);
        let a0 = PropsModel::empty();
        lemma_field_step(d, p0, total, 0, a0, m, PropsKind::Pubcomp, PropertyId::ReasonString);
        let a1 = take_prop(a0, m, PropertyId::ReasonString);
        assert(a1 == m.without_users());
        lemma_users_decode(d, p0 + s1.len(), total, s1.len(), a1, m.user_properties, PropsKind::Pubcomp);
        assert(Seq::<(Seq<u8>, Seq<u8>)>::empty() + m.user_properties =~= m.user_properties);
    }
}

impl SubscribeProperties {
    /// Decoding the encoding of well-formed properties of this kind gives
    /// them back, with their length and the bytes that the length took.
    #[verifier::rlimit(100)]
    pub proof fn lemma_roundtrip(d: Seq<u8>, off: int, m: PropsModel)
        requires
            m.wf(),
            m.restrict(PropsKind::Subscribe) == m,
            props_body(m, Self::fields_order()).len() < 268435456,
            at(d, off, props_encode(m, Self::fields_order())),
        ensures
            sp_properties(d, off, PropsKind::Subscribe) == Ok::<((PropsModel, nat, nat), int), DecodeErrV5>(
                (
                    (
                        m,
                        props_body(m, Self::fields_order()).len(),
                        var_int(props_body(m, Self::fields_order()).len()).len(),
                    ),
                    off + props_encode(m, Self::fields_order()).len(),
                ),
            ),
    {
        let order = Self::fields_order();
        Self::lemma_fields(m);
        let body = props_body(m, order);
        let total = body.len();
        let vi = var_int(total);
        lemma_at_concat(d, off, vi, body);
        lemma_sp_var_int_at(d, off, total);
        let p0 = off + vi.len();
        lemma_at_concat(d, p0, fields_bytes(m, order), users_bytes(m.user_properties));
        let b1 = prop_bytes(m, PropertyId::SubscriptionIdentifier);
        let s1 = b1;
        assert(fields_bytes(m, order) == s1);
        let a0 = PropsModel::empty();
        lemma_field_step(d, p0, total, 0, a0, m, PropsKind::Subscribe, PropertyId::SubscriptionIdentifier);
        let a1 = take_prop(a0, m, PropertyId::SubscriptionIdentifier);
        assert(a1 == m.without_users());
        lemma_users_decode(d, p0 + s1.len(), total, s1.len(), a1, m.user_properties, PropsKind::Subscribe);
        assert(Seq::<(Seq<u8>, Seq<u8>)>::empty() + m.user_properties =~= m.user_properties);
    }
}

impl SubackProperties {
    /// Decoding the encoding of well-formed properties of this kind gives
    /// them back, with their length and the bytes that the length took.
    #[verifier::rlimit(100)]
    pub proof fn lemma_roundtrip(d: Seq<u8>, off: int, m: PropsModel)
        requires
            m.wf(),
            m.restrict(PropsKind::Suback) == m,
            props_body(m, Self::fields_order()).len() < 268435456,
            at(d, off, props_encode(m, Self::fields_order())),
        ensures
            sp_properties(d, off, PropsKind::Suback) == Ok::<((PropsModel, nat, nat), int), DecodeErrV5>(
                (
                    (
                        m,
                        props_body(m, Self::fields_order()).len(),
                        var_int(props_body(m, Self::fields_order()).len()).len(),
                    ),
                    off + props_encode(m, Self::fields_order()).len(),
                ),
            ),
    {
        let order = Self::fields_order();
        Self::lemma_fields(m);
        let body = props_body(m, order);
        let total = body.len();
        let vi = var_int(total);
        lemma_at_concat(d, off, vi, body);
        lemma_sp_var_int_at(d, off, total);
        let p0 = off + vi.len();
        lemma_at_concat(d, p0, fields_bytes(m, order), users_bytes(m.user_properties));
        let b1 = prop_bytes(m, PropertyId::ReasonString);
        let s1 = b1;
        assert(fields_bytes(m, order) == s1);
        let a0 = PropsModel::empty();
        lemma_field_step(d, p0, total, 0, a0, m, PropsKind::Suback, PropertyId::ReasonString);
        let a1 = take_prop(a0, m, PropertyId::ReasonString);
        assert(a1 == m.without_users());
        lemma_users_decode(d, p0 + s1.len(), total, s1.len(), a1, m.user_properties, PropsKind::Suback);
        assert(Seq::<(Seq<u8>, Seq<u8>)>::empty() + m.user_properties =~= m.user_properties);
    }
}

impl UnsubscribeProperties {
    /// Decoding the encoding of well-formed properties of this kind gives
    /// them back, with their length and the bytes that the length took.
    #[verifier::rlimit(100)]
    pub proof fn lemma_roundtrip(d: Seq<u8>, off: int, m: PropsModel)
        requires
            m.wf(),
            m.restrict(PropsKind::Unsubscribe) == m,
            props_body(m, Self::fields_order()).len() < 268435456,
            at(d, off, props_encode(m, Self::fields_order())),
        ensures
            sp_properties(d, off, PropsKind::Unsubscribe) == Ok::<((PropsModel, nat, nat), int), DecodeErrV5>(
                (
                    (
                        m,
                        props_body(m, Self::fields_order()).len(),
                        var_int(props_body(m, Self::fields_order()).len()).len(),
                    ),
                    off + props_encode(m, Self::fields_order()).len(),
                ),
            ),
    {
        let order = Self::fields_order();
        Self::lemma_fields(m);
        let body = props_body(m, order);
        let total = body.len();
        let vi = var_int(total);
        lemma_at_concat(d, off, vi, body);
        lemma_sp_var_int_at(d, off, total);
        let p0 = off + vi.len();
        lemma_at_concat(d, p0, fields_bytes(m, order), users_bytes(m.user_properties));
        let a0 = PropsModel::empty();
        assert(a0 == m.without_users());
        assert(fields_bytes(m, order) =~= Seq::<u8>::empty());
        lemma_users_decode(d, p0, total, 0, a0, m.user_properties, PropsKind::Unsubscribe);
        assert(Seq::<(Seq<u8>, Seq<u8>)>::empty() + m.user_properties =~= m.user_properties);
    }
}

impl UnsubackProperties {
    /// Decoding the encoding of well-formed properties of this kind gives
    /// them back, with their length and the bytes that the length took.
    #[verifier::rlimit(100)]
    pub proof fn lemma_roundtrip(d: Seq<u8>, off: int, m: PropsModel)
        requires
            m.wf(),
            m.restrict(PropsKind::Unsuback) == m,
            props_body(m, Self::fields_order()).len() < 268435456,
            at(d, off, props_encode(m, Self::fields_order())),
        ensures
            sp_properties(d, off, PropsKind::Unsuback) == Ok::<((PropsModel, nat, nat), int), DecodeErrV5>(
                (
                    (
                        m,
                        props_body(m, Self::fields_order()).len(),
                        var_int(props_body(m, Self::fields_order()).len()).len(),
                    ),
                    off + props_encode(m, Self::fields_order()).len(),
                ),
            ),
    {
        let order = Self::fields_order();
        Self::lemma_fields(m);
        let body = props_body(m, order);
        let total = body.len();
        let vi = var_int(total);
        lemma_at_concat(d, off, vi, body);
        lemma_sp_var_int_at(d, off, total);
        let p0 = off + vi.len();
        lemma_at_concat(d, p0, fields_bytes(m, order), users_bytes(m.user_properties));
        let b1 = prop_bytes(m, PropertyId::ReasonString);
        let s1 = b1;
        assert(fields_bytes(m, order) == s1);
        let a0 = PropsModel::empty();
        lemma_field_step(d, p0, total, 0, a0, m, PropsKind::Unsuback, PropertyId::ReasonString);
        let a1 = take_prop(a0, m, PropertyId::ReasonString);
        assert(a1 == m.without_users());
        lemma_users_decode(d, p0 + s1.len(), total, s1.len(), a1, m.user_properties, PropsKind::Unsuback);
        assert(Seq::<(Seq<u8>, Seq<u8>)>::empty() + m.user_properties =~= m.user_properties);
    }
}

} // verus!
