use vstd::prelude::*;
use vstd::utf8::valid_utf8;

use crate::buf::{at, lemma_at_concat, lemma_at_whole, lemma_sp_bytes_at, lemma_sp_raw_at, lemma_sp_u16_at, lemma_sp_u8_at, lemma_sp_var_int_at};
use crate::codec::{be16, field, lemma_var_int_len, var_int, var_int_size};
use crate::error::{DecodeErr, Error};
use crate::topic::{topic_filter_valid, topic_name_valid};
use crate::types::{Pid, Protocol, QoS, QosPid};
use crate::v3::connect::opt_field;
use crate::v3::laws::{
    lemma_connect_flag_bits, lemma_filters_front, lemma_filters_parse, lemma_pid_at, lemma_protocol_at,
    opt_bytes_ok, opt_str_ok, pid_ok, str_ok,
};
use crate::v3::publish::{qos_pid_bytes, sp_qos_pid};
use crate::v3::subscribe::{filters_bytes, sp_filters};

use super::codes::{
    AuthReasonCode, ConnectReasonCode, DisconnectReasonCode, PubackReasonCode, PubcompReasonCode,
    PubrecReasonCode, PubrelReasonCode, SubscribeReasonCode, UnsubscribeReasonCode,
};
use super::connect::{
    payload_format_bad, props_fit, sp_auth, sp_connack, sp_connect, sp_connect_rest, sp_disconnect,
    sp_last_will, sp_opt_bytes, sp_opt_string, sp_opt_will, AuthModel, ConnackModel, ConnectModel,
    DisconnectModel, LastWillModel,
};
use super::packet::{encodable, sp_body, sp_body_end, sp_packet, PacketModel};
use crate::buf::{sp_u8, sp_var_int};
use crate::poll::{feed_from, header_of, lemma_feed_header_matches_decode, GenericPollPacketState, HeaderProgress};
use super::props::{
    props_encode, sp_properties, AuthProperties, ConnackProperties, ConnectProperties,
    DisconnectProperties, PropsKind, PropsModel, PubackProperties, PubcompProperties,
    PublishProperties, PubrecProperties, PubrelProperties, SubackProperties, SubscribeProperties,
    UnsubackProperties, UnsubscribeProperties, WillProperties,
};
use super::publish::{
    sp_puback, sp_pubcomp, sp_payload, sp_publish, sp_pubrec, sp_pubrel, PubackModel, PubcompModel,
    PublishModel, PubrecModel, PubrelModel,
};
use super::subscribe::{
    entries_bytes, sp_entries, sp_sub_codes, sp_suback, sp_subscribe, sp_unsub_codes, sp_unsuback,
    sp_unsubscribe, SubackModel, SubscribeModel, UnsubackModel, UnsubscribeModel,
};
use super::types::{common, sp_header, spec_header, DecodeErrV5, Header, PacketType, SubscriptionOptions};

verus! {

/// Properties of a kind that decode back to themselves.
pub open spec fn props_ok(m: PropsModel, kind: PropsKind, order: Seq<super::types::PropertyId>) -> bool {
    &&& m.wf()
    &&& m.restrict(kind) == m
    &&& props_fit(m, order)
}

impl LastWillModel {
    /// A will message that decodes back to itself.
    pub open spec fn wf(self) -> bool {
        &&& topic_name_valid(self.topic)
        &&& valid_utf8(self.topic)
        &&& self.payload.len() <= 65535
        &&& props_ok(self.properties, PropsKind::Will, WillProperties::fields_order())
        &&& !payload_format_bad(self.properties, self.payload)
    }
}

impl ConnectModel {
    /// A connect body that decodes back to itself: protocol 5.0, fields that
    /// fit, properties that decode back.
    pub open spec fn wf(self) -> bool {
        &&& self.protocol == Protocol::V500
        &&& str_ok(self.client_id)
        &&& (self.last_will matches Some(w) ==> w.wf())
        &&& opt_str_ok(self.username)
        &&& opt_bytes_ok(self.password)
        &&& props_ok(self.properties, PropsKind::Connect, ConnectProperties::fields_order())
    }
}

impl ConnackModel {
    pub open spec fn wf(self) -> bool {
        props_ok(self.properties, PropsKind::Connack, ConnackProperties::fields_order())
    }
}

impl DisconnectModel {
    pub open spec fn wf(self) -> bool {
        props_ok(self.properties, PropsKind::Disconnect, DisconnectProperties::fields_order())
    }
}

impl AuthModel {
    pub open spec fn wf(self) -> bool {
        props_ok(self.properties, PropsKind::Auth, AuthProperties::fields_order())
    }
}

impl PublishModel {
    /// A publish body that decodes back to itself.
    pub open spec fn wf(self) -> bool {
        &&& topic_name_valid(self.topic)
        &&& valid_utf8(self.topic)
        &&& (self.qos_pid matches QosPid::Level1(p) ==> pid_ok(p))
        &&& (self.qos_pid matches QosPid::Level2(p) ==> pid_ok(p))
        &&& props_ok(self.properties, PropsKind::Publish, PublishProperties::fields_order())
        &&& !payload_format_bad(self.properties, self.payload)
    }
}

impl SubscribeModel {
    /// A subscribe body that decodes back to itself: at least one entry,
    /// every filter valid.
    pub open spec fn wf(self) -> bool {
        &&& pid_ok(self.pid)
        &&& self.topics.len() > 0
        &&& forall|i: int|
            0 <= i < self.topics.len() ==> topic_filter_valid(#[trigger] self.topics[i].0)
                && valid_utf8(self.topics[i].0)
        &&& props_ok(self.properties, PropsKind::Subscribe, SubscribeProperties::fields_order())
    }
}

impl SubackModel {
    pub open spec fn wf(self) -> bool {
        &&& pid_ok(self.pid)
        &&& props_ok(self.properties, PropsKind::Suback, SubackProperties::fields_order())
    }
}

impl UnsubscribeModel {
    /// An unsubscribe body that decodes back to itself: at least one filter,
    /// every filter valid.
    pub open spec fn wf(self) -> bool {
        &&& pid_ok(self.pid)
        &&& self.topics.len() > 0
        &&& forall|i: int|
            0 <= i < self.topics.len() ==> topic_filter_valid(#[trigger] self.topics[i])
                && valid_utf8(self.topics[i])
        &&& props_ok(
            self.properties,
            PropsKind::Unsubscribe,
            UnsubscribeProperties::fields_order(),
        )
    }
}

impl UnsubackModel {
    pub open spec fn wf(self) -> bool {
        &&& pid_ok(self.pid)
        &&& props_ok(self.properties, PropsKind::Unsuback, UnsubackProperties::fields_order())
    }
}

/// The length of encoded properties: their length's bytes, then their length.
proof fn lemma_props_len(m: PropsModel, order: Seq<super::types::PropertyId>)
    requires
        props_fit(m, order),
    ensures
        props_encode(m, order).len() == var_int_size(super::props::props_body(m, order).len())
            + super::props::props_body(m, order).len(),
{
    lemma_var_int_len(super::props::props_body(m, order).len());
}

/// A will message decodes from its own encoding.
proof fn lemma_will_at(d: Seq<u8>, off: int, w: LastWillModel)
    requires
        w.wf(),
        at(d, off, w.spec_encode()),
    ensures
        sp_last_will(d, off, w.qos, w.retain) == Ok::<(LastWillModel, int), DecodeErrV5>(
            (w, off + w.spec_encode().len()),
        ),
{
    let p = props_encode(w.properties, WillProperties::fields_order());
    lemma_at_concat(d, off, p + field(w.topic), field(w.payload));
    lemma_at_concat(d, off, p, field(w.topic));
    WillProperties::lemma_roundtrip(d, off, w.properties);
    lemma_sp_bytes_at(d, off + p.len(), w.topic);
    lemma_sp_bytes_at(d, off + p.len() + field(w.topic).len(), w.payload);
}

/// A connect body that decodes, decoded from its own encoding, gives itself
/// back, and the decoder stops at the encoding's end.
#[verifier::rlimit(100)]
pub proof fn lemma_connect_roundtrip(d: Seq<u8>, off: int, m: ConnectModel)
    requires
        m.wf(),
        at(d, off, m.spec_encode()),
    ensures
        sp_connect(d, off) == Ok::<(ConnectModel, int), DecodeErrV5>(
            (m, off + m.spec_encode().len()),
        ),
{
    let flags = m.flags();
    let will_bytes = match m.last_will {
        Some(w) => w.spec_encode(),
        None => Seq::<u8>::empty(),
    };
    let a = m.protocol.spec_encode();
    let b = seq![flags];
    let c = be16(m.keep_alive as int);
    let p = props_encode(m.properties, ConnectProperties::fields_order());
    let e = field(m.client_id);
    let f = opt_field(m.username);
    let g = opt_field(m.password);
    assert(m.spec_encode() == a + b + c + p + e + will_bytes + f + g);
    lemma_at_concat(d, off, a + b + c + p + e + will_bytes + f, g);
    lemma_at_concat(d, off, a + b + c + p + e + will_bytes, f);
    lemma_at_concat(d, off, a + b + c + p + e, will_bytes);
    lemma_at_concat(d, off, a + b + c + p, e);
    lemma_at_concat(d, off, a + b + c, p);
    lemma_at_concat(d, off, a + b, c);
    lemma_at_concat(d, off, a, b);
    let o1 = off + a.len();
    let o2 = o1 + 1;
    let o3 = o2 + 2;
    let o4 = o3 + p.len();
    let o5 = o4 + e.len();
    let o6 = o5 + will_bytes.len();
    let o7 = o6 + f.len();
    lemma_protocol_at(d, off, m.protocol);
    assert(common(crate::types::sp_protocol(d, off)) == Ok::<(Protocol, int), DecodeErrV5>(
        (m.protocol, o1),
    ));
    lemma_sp_u8_at(d, o1, flags);
    lemma_sp_u16_at(d, o2, m.keep_alive as int);
    ConnectProperties::lemma_roundtrip(d, o3, m.properties);
    lemma_sp_bytes_at(d, o4, m.client_id);
    let (q, r) = match m.last_will {
        Some(w) => (w.qos.spec_u8(), w.retain),
        None => (0u8, false),
    };
    lemma_connect_flag_bits(
        m.clean_start,
        m.username is Some,
        m.password is Some,
        m.last_will is Some,
        q,
        r,
    );
    match m.last_will {
        Some(w) => {
            QoS::lemma_u8_roundtrip(w.qos, 0);
            lemma_will_at(d, o5, w);
        },
        None => {},
    }
    assert(sp_opt_will(d, o5, flags) == Ok::<(Option<LastWillModel>, int), DecodeErrV5>(
        (m.last_will, o6),
    ));
    match m.username {
        Some(u) => {
            lemma_sp_bytes_at(d, o6, u);
        },
        None => {},
    }
    assert(sp_opt_string(d, o6, flags & 128 != 0) == Ok::<(Option<Seq<u8>>, int), DecodeErrV5>(
        (m.username, o7),
    ));
    match m.password {
        Some(pw) => {
            lemma_sp_bytes_at(d, o7, pw);
        },
        None => {},
    }
    assert(sp_opt_bytes(d, o7, flags & 64 != 0) == Ok::<(Option<Seq<u8>>, int), DecodeErrV5>(
        (m.password, o7 + g.len()),
    ));
    assert(sp_connect_rest(d, o1, m.protocol) == Ok::<(ConnectModel, int), DecodeErrV5>(
        (m, off + m.spec_encode().len()),
    ));
}

/// A connack body decodes from its own encoding.
pub proof fn lemma_connack_roundtrip(d: Seq<u8>, off: int, m: ConnackModel, h: Header)
    requires
        m.wf(),
        at(d, off, m.spec_encode()),
    ensures
        sp_connack(d, off, h) == Ok::<(ConnackModel, int), DecodeErrV5>(
            (m, off + m.spec_encode().len()),
        ),
{
    let two = seq![if m.session_present { 1u8 } else { 0u8 }, m.reason_code.spec_u8()];
    let p = props_encode(m.properties, ConnackProperties::fields_order());
    lemma_at_concat(d, off, two, p);
    lemma_sp_raw_at(d, off, two);
    ConnectReasonCode::lemma_u8_roundtrip(m.reason_code, 0);
    ConnackProperties::lemma_roundtrip(d, off + 2, m.properties);
}

/// A disconnect body decodes from its own encoding, with the remaining
/// length of that encoding.
pub proof fn lemma_disconnect_roundtrip(d: Seq<u8>, off: int, m: DisconnectModel, h: Header)
    requires
        m.wf(),
        at(d, off, m.spec_encode()),
        h.remaining_len == m.spec_encode().len(),
    ensures
        sp_disconnect(d, off, h) == Ok::<(DisconnectModel, int), DecodeErrV5>(
            (m, off + m.spec_encode().len()),
        ),
{
    DisconnectReasonCode::lemma_u8_roundtrip(m.reason_code, 0);
    if m.properties == PropsModel::empty() {
        if m.reason_code != DisconnectReasonCode::NormalDisconnect {
            lemma_sp_u8_at(d, off, m.reason_code.spec_u8());
        }
    } else {
        let p = props_encode(m.properties, DisconnectProperties::fields_order());
        lemma_at_concat(d, off, seq![m.reason_code.spec_u8()], p);
        lemma_sp_u8_at(d, off, m.reason_code.spec_u8());
        DisconnectProperties::lemma_roundtrip(d, off + 1, m.properties);
        lemma_props_len(m.properties, DisconnectProperties::fields_order());
    }
}

/// An auth body decodes from its own encoding, with the remaining length of
/// that encoding.
pub proof fn lemma_auth_roundtrip(d: Seq<u8>, off: int, m: AuthModel, h: Header)
    requires
        m.wf(),
        at(d, off, m.spec_encode()),
        h.remaining_len == m.spec_encode().len(),
    ensures
        sp_auth(d, off, h) == Ok::<(AuthModel, int), DecodeErrV5>(
            (m, off + m.spec_encode().len()),
        ),
{
    AuthReasonCode::lemma_u8_roundtrip(m.reason_code, 0);
    if !(m.reason_code == AuthReasonCode::Success && m.properties == PropsModel::empty()) {
        let p = props_encode(m.properties, AuthProperties::fields_order());
        lemma_at_concat(d, off, seq![m.reason_code.spec_u8()], p);
        lemma_sp_u8_at(d, off, m.reason_code.spec_u8());
        AuthProperties::lemma_roundtrip(d, off + 1, m.properties);
    }
}

/// A publish body decodes from its own encoding, with a header that holds
/// its QoS, flags and remaining length.
#[verifier::rlimit(60)]
pub proof fn lemma_publish_roundtrip(d: Seq<u8>, off: int, m: PublishModel, h: Header)
    requires
        m.wf(),
        at(d, off, m.spec_encode()),
        h.remaining_len == m.spec_encode().len(),
        h.qos == m.qos_pid.spec_qos(),
        h.dup == m.dup,
        h.retain == m.retain,
    ensures
        sp_publish(d, off, h) == Ok::<(PublishModel, int), DecodeErrV5>(
            (m, off + m.spec_encode().len()),
        ),
{
    let a = field(m.topic);
    let b = qos_pid_bytes(m.qos_pid);
    let p = props_encode(m.properties, PublishProperties::fields_order());
    let c = m.payload;
    lemma_at_concat(d, off, a + b + p, c);
    lemma_at_concat(d, off, a + b, p);
    lemma_at_concat(d, off, a, b);
    lemma_sp_bytes_at(d, off, m.topic);
    let o1 = off + a.len();
    match m.qos_pid {
        QosPid::Level0 => {},
        QosPid::Level1(pid) => {
            lemma_sp_u16_at(d, o1, pid.id() as int);
            Pid::lemma_new_spec_id(pid);
        },
        QosPid::Level2(pid) => {
            lemma_sp_u16_at(d, o1, pid.id() as int);
            Pid::lemma_new_spec_id(pid);
        },
    }
    let rem = h.remaining_len - 2 - m.topic.len();
    assert(sp_qos_pid(d, o1, h.qos, rem) == Ok::<((QosPid, int), int), DecodeErr>(
        ((m.qos_pid, rem - b.len()), o1 + b.len()),
    ));
    let o2 = o1 + b.len();
    PublishProperties::lemma_roundtrip(d, o2, m.properties);
    lemma_props_len(m.properties, PublishProperties::fields_order());
    let o3 = o2 + p.len();
    if c.len() > 0 {
        lemma_sp_raw_at(d, o3, c);
    } else {
        assert(c =~= Seq::<u8>::empty());
    }
    assert(sp_payload(d, o3, c.len() as int, m.properties) == Ok::<(Seq<u8>, int), DecodeErrV5>(
        (c, o3 + c.len()),
    ));
}

/// Subscription entries in order, the first one first.
proof fn lemma_entries_front(t: Seq<(Seq<u8>, SubscriptionOptions)>)
    requires
        t.len() > 0,
    ensures
        entries_bytes(t) == field(t[0].0) + seq![t[0].1.spec_u8()] + entries_bytes(t.drop_first()),
    decreases t.len(),
{
    if t.len() == 1 {
        assert(t.drop_last() =~= Seq::<(Seq<u8>, SubscriptionOptions)>::empty());
        assert(t.drop_first() =~= Seq::<(Seq<u8>, SubscriptionOptions)>::empty());
        assert(entries_bytes(t.drop_last()) =~= Seq::<u8>::empty());
        assert(entries_bytes(t) =~= field(t[0].0) + seq![t[0].1.spec_u8()]);
    } else {
        lemma_entries_front(t.drop_last());
        assert(t.drop_last().drop_first() =~= t.drop_first().drop_last());
        let e0 = field(t[0].0) + seq![t[0].1.spec_u8()];
        let el = field(t.last().0) + seq![t.last().1.spec_u8()];
        assert(entries_bytes(t) =~= entries_bytes(t.drop_last()) + el);
        assert(entries_bytes(t.drop_first()) =~= entries_bytes(t.drop_first().drop_last()) + el);
        assert(entries_bytes(t) =~= e0 + entries_bytes(t.drop_first()));
    }
}

/// Subscription entries decode from their own encoding.
proof fn lemma_entries_parse(
    d: Seq<u8>,
    off: int,
    t: Seq<(Seq<u8>, SubscriptionOptions)>,
    acc: Seq<(Seq<u8>, SubscriptionOptions)>,
)
    requires
        forall|i: int|
            0 <= i < t.len() ==> topic_filter_valid(#[trigger] t[i].0) && valid_utf8(t[i].0),
        at(d, off, entries_bytes(t)),
    ensures
        sp_entries(d, off, entries_bytes(t).len() as int, acc) == Ok::<
            (Seq<(Seq<u8>, SubscriptionOptions)>, int),
            DecodeErrV5,
        >((acc + t, off + entries_bytes(t).len())),
    decreases t.len(),
{
    if t.len() == 0 {
        assert(acc + t =~= acc);
    } else {
        lemma_entries_front(t);
        let f = t[0].0;
        let o = t[0].1;
        let rest = t.drop_first();
        assert(topic_filter_valid(t[0].0));
        lemma_at_concat(d, off, field(f) + seq![o.spec_u8()], entries_bytes(rest));
        lemma_at_concat(d, off, field(f), seq![o.spec_u8()]);
        lemma_sp_bytes_at(d, off, f);
        lemma_sp_u8_at(d, off + field(f).len(), o.spec_u8());
        SubscriptionOptions::lemma_u8_roundtrip(o);
        assert forall|i: int| 0 <= i < rest.len() implies topic_filter_valid(
            #[trigger] rest[i].0,
        ) && valid_utf8(rest[i].0) by {
            assert(rest[i] == t[i + 1]);
        }
        lemma_entries_parse(d, off + field(f).len() + 1, rest, acc.push((f, o)));
        assert(acc.push((f, o)) + rest =~= acc + t);
    }
}

/// A subscribe body decodes from its own encoding, with the remaining length
/// of that encoding.
pub proof fn lemma_subscribe_roundtrip(d: Seq<u8>, off: int, m: SubscribeModel, h: Header)
    requires
        m.wf(),
        at(d, off, m.spec_encode()),
        h.remaining_len == m.spec_encode().len(),
    ensures
        sp_subscribe(d, off, h) == Ok::<(SubscribeModel, int), DecodeErrV5>(
            (m, off + m.spec_encode().len()),
        ),
{
    let p = props_encode(m.properties, SubscribeProperties::fields_order());
    lemma_at_concat(d, off, be16(m.pid.id() as int) + p, entries_bytes(m.topics));
    lemma_at_concat(d, off, be16(m.pid.id() as int), p);
    lemma_pid_at(d, off, m.pid);
    SubscribeProperties::lemma_roundtrip(d, off + 2, m.properties);
    lemma_props_len(m.properties, SubscribeProperties::fields_order());
    lemma_entries_front(m.topics);
    lemma_entries_parse(d, off + 2 + p.len(), m.topics, Seq::empty());
    assert(Seq::<(Seq<u8>, SubscriptionOptions)>::empty() + m.topics =~= m.topics);
}

/// Subscribe reason codes decode from their own encoding.
proof fn lemma_sub_codes_parse(
    d: Seq<u8>,
    off: int,
    t: Seq<SubscribeReasonCode>,
    acc: Seq<SubscribeReasonCode>,
    h: Header,
)
    requires
        at(d, off, t.map_values(|c: SubscribeReasonCode| c.spec_u8())),
    ensures
        sp_sub_codes(d, off, t.len() as int, acc, h) == Ok::<
            (Seq<SubscribeReasonCode>, int),
            DecodeErrV5,
        >((acc + t, off + t.len())),
    decreases t.len(),
{
    if t.len() == 0 {
        assert(acc + t =~= acc);
    } else {
        let bytes = t.map_values(|c: SubscribeReasonCode| c.spec_u8());
        let rest = t.drop_first();
        assert(bytes =~= seq![t[0].spec_u8()] + rest.map_values(|c: SubscribeReasonCode| c.spec_u8()));
        lemma_at_concat(d, off, seq![t[0].spec_u8()], rest.map_values(|c: SubscribeReasonCode| c.spec_u8()));
        lemma_sp_u8_at(d, off, t[0].spec_u8());
        SubscribeReasonCode::lemma_u8_roundtrip(t[0], 0);
        lemma_sub_codes_parse(d, off + 1, rest, acc.push(t[0]), h);
        assert(acc.push(t[0]) + rest =~= acc + t);
    }
}

/// A suback body decodes from its own encoding, with the remaining length of
/// that encoding.
pub proof fn lemma_suback_roundtrip(d: Seq<u8>, off: int, m: SubackModel, h: Header)
    requires
        m.wf(),
        at(d, off, m.spec_encode()),
        h.remaining_len == m.spec_encode().len(),
    ensures
        sp_suback(d, off, h) == Ok::<(SubackModel, int), DecodeErrV5>(
            (m, off + m.spec_encode().len()),
        ),
{
    let p = props_encode(m.properties, SubackProperties::fields_order());
    let cb = m.topics.map_values(|c: SubscribeReasonCode| c.spec_u8());
    lemma_at_concat(d, off, be16(m.pid.id() as int) + p, cb);
    lemma_at_concat(d, off, be16(m.pid.id() as int), p);
    lemma_pid_at(d, off, m.pid);
    SubackProperties::lemma_roundtrip(d, off + 2, m.properties);
    lemma_props_len(m.properties, SubackProperties::fields_order());
    lemma_sub_codes_parse(d, off + 2 + p.len(), m.topics, Seq::empty(), h);
    assert(Seq::<SubscribeReasonCode>::empty() + m.topics =~= m.topics);
}

/// Unsubscribe reason codes decode from their own encoding.
proof fn lemma_unsub_codes_parse(
    d: Seq<u8>,
    off: int,
    t: Seq<UnsubscribeReasonCode>,
    acc: Seq<UnsubscribeReasonCode>,
    h: Header,
)
    requires
        at(d, off, t.map_values(|c: UnsubscribeReasonCode| c.spec_u8())),
    ensures
        sp_unsub_codes(d, off, t.len() as int, acc, h) == Ok::<
            (Seq<UnsubscribeReasonCode>, int),
            DecodeErrV5,
        >((acc + t, off + t.len())),
    decreases t.len(),
{
    if t.len() == 0 {
        assert(acc + t =~= acc);
    } else {
        let bytes = t.map_values(|c: UnsubscribeReasonCode| c.spec_u8());
        let rest = t.drop_first();
        assert(bytes =~= seq![t[0].spec_u8()] + rest.map_values(|c: UnsubscribeReasonCode| c.spec_u8()));
        lemma_at_concat(d, off, seq![t[0].spec_u8()], rest.map_values(|c: UnsubscribeReasonCode| c.spec_u8()));
        lemma_sp_u8_at(d, off, t[0].spec_u8());
        UnsubscribeReasonCode::lemma_u8_roundtrip(t[0], 0);
        lemma_unsub_codes_parse(d, off + 1, rest, acc.push(t[0]), h);
        assert(acc.push(t[0]) + rest =~= acc + t);
    }
}

/// An unsuback body decodes from its own encoding, with the remaining length
/// of that encoding.
pub proof fn lemma_unsuback_roundtrip(d: Seq<u8>, off: int, m: UnsubackModel, h: Header)
    requires
        m.wf(),
        at(d, off, m.spec_encode()),
        h.remaining_len == m.spec_encode().len(),
    ensures
        sp_unsuback(d, off, h) == Ok::<(UnsubackModel, int), DecodeErrV5>(
            (m, off + m.spec_encode().len()),
        ),
{
    let p = props_encode(m.properties, UnsubackProperties::fields_order());
    let cb = m.topics.map_values(|c: UnsubscribeReasonCode| c.spec_u8());
    lemma_at_concat(d, off, be16(m.pid.id() as int) + p, cb);
    lemma_at_concat(d, off, be16(m.pid.id() as int), p);
    lemma_pid_at(d, off, m.pid);
    UnsubackProperties::lemma_roundtrip(d, off + 2, m.properties);
    lemma_props_len(m.properties, UnsubackProperties::fields_order());
    lemma_unsub_codes_parse(d, off + 2 + p.len(), m.topics, Seq::empty(), h);
    assert(Seq::<UnsubscribeReasonCode>::empty() + m.topics =~= m.topics);
}

/// An unsubscribe body decodes from its own encoding, with the remaining
/// length of that encoding.
pub proof fn lemma_unsubscribe_roundtrip(d: Seq<u8>, off: int, m: UnsubscribeModel, h: Header)
    requires
        m.wf(),
        at(d, off, m.spec_encode()),
        h.remaining_len == m.spec_encode().len(),
    ensures
        sp_unsubscribe(d, off, h) == Ok::<(UnsubscribeModel, int), DecodeErrV5>(
            (m, off + m.spec_encode().len()),
        ),
{
    let p = props_encode(m.properties, UnsubscribeProperties::fields_order());
    lemma_at_concat(d, off, be16(m.pid.id() as int) + p, filters_bytes(m.topics));
    lemma_at_concat(d, off, be16(m.pid.id() as int), p);
    lemma_pid_at(d, off, m.pid);
    UnsubscribeProperties::lemma_roundtrip(d, off + 2, m.properties);
    lemma_var_int_len(super::props::props_body(m.properties, UnsubscribeProperties::fields_order()).len());
    lemma_filters_front(m.topics);
    lemma_filters_parse(d, off + 2 + p.len(), m.topics, Seq::empty());
    assert(Seq::<Seq<u8>>::empty() + m.topics =~= m.topics);
}


impl PubackModel {
    pub open spec fn wf(self) -> bool {
        &&& pid_ok(self.pid)
        &&& props_ok(self.properties, PropsKind::Puback, PubackProperties::fields_order())
    }
}

/// A puback body decodes from its own encoding, with the remaining length of
/// that encoding.
pub proof fn lemma_puback_roundtrip(d: Seq<u8>, off: int, m: PubackModel, h: Header)
    requires
        m.wf(),
        at(d, off, m.spec_encode()),
        h.remaining_len == m.spec_encode().len(),
    ensures
        sp_puback(d, off, h) == Ok::<(PubackModel, int), DecodeErrV5>(
            (m, off + m.spec_encode().len()),
        ),
{
    let rc = m.reason_code.spec_u8();
    let p = props_encode(m.properties, PubackProperties::fields_order());
    let rest = if m.properties == PropsModel::empty() {
        if m.reason_code == PubackReasonCode::Success {
            Seq::<u8>::empty()
        } else {
            seq![rc]
        }
    } else {
        seq![rc] + p
    };
    assert(m.spec_encode() == be16(m.pid.id() as int) + rest);
    lemma_at_concat(d, off, be16(m.pid.id() as int), rest);
    lemma_pid_at(d, off, m.pid);
    PubackReasonCode::lemma_u8_roundtrip(m.reason_code, 0);
    if m.properties == PropsModel::empty() {
        if m.reason_code != PubackReasonCode::Success {
            lemma_sp_u8_at(d, off + 2, rc);
        }
    } else {
        lemma_at_concat(d, off + 2, seq![rc], p);
        lemma_sp_u8_at(d, off + 2, rc);
        PubackProperties::lemma_roundtrip(d, off + 3, m.properties);
        lemma_props_len(m.properties, PubackProperties::fields_order());
    }
}


impl PubrecModel {
    pub open spec fn wf(self) -> bool {
        &&& pid_ok(self.pid)
        &&& props_ok(self.properties, PropsKind::Pubrec, PubrecProperties::fields_order())
    }
}

/// A pubrec body decodes from its own encoding, with the remaining length of
/// that encoding.
pub proof fn lemma_pubrec_roundtrip(d: Seq<u8>, off: int, m: PubrecModel, h: Header)
    requires
        m.wf(),
        at(d, off, m.spec_encode()),
        h.remaining_len == m.spec_encode().len(),
    ensures
        sp_pubrec(d, off, h) == Ok::<(PubrecModel, int), DecodeErrV5>(
            (m, off + m.spec_encode().len()),
        ),
{
    let rc = m.reason_code.spec_u8();
    let p = props_encode(m.properties, PubrecProperties::fields_order());
    let rest = if m.properties == PropsModel::empty() {
        if m.reason_code == PubrecReasonCode::Success {
            Seq::<u8>::empty()
        } else {
            seq![rc]
        }
    } else {
        seq![rc] + p
    };
    assert(m.spec_encode() == be16(m.pid.id() as int) + rest);
    lemma_at_concat(d, off, be16(m.pid.id() as int), rest);
    lemma_pid_at(d, off, m.pid);
    PubrecReasonCode::lemma_u8_roundtrip(m.reason_code, 0);
    if m.properties == PropsModel::empty() {
        if m.reason_code != PubrecReasonCode::Success {
            lemma_sp_u8_at(d, off + 2, rc);
        }
    } else {
        lemma_at_concat(d, off + 2, seq![rc], p);
        lemma_sp_u8_at(d, off + 2, rc);
        PubrecProperties::lemma_roundtrip(d, off + 3, m.properties);
        lemma_props_len(m.properties, PubrecProperties::fields_order());
    }
}


impl PubrelModel {
    pub open spec fn wf(self) -> bool {
        &&& pid_ok(self.pid)
        &&& props_ok(self.properties, PropsKind::Pubrel, PubrelProperties::fields_order())
    }
}

/// A pubrel body decodes from its own encoding, with the remaining length of
/// that encoding.
pub proof fn lemma_pubrel_roundtrip(d: Seq<u8>, off: int, m: PubrelModel, h: Header)
    requires
        m.wf(),
        at(d, off, m.spec_encode()),
        h.remaining_len == m.spec_encode().len(),
    ensures
        sp_pubrel(d, off, h) == Ok::<(PubrelModel, int), DecodeErrV5>(
            (m, off + m.spec_encode().len()),
        ),
{
    let rc = m.reason_code.spec_u8();
    let p = props_encode(m.properties, PubrelProperties::fields_order());
    let rest = if m.properties == PropsModel::empty() {
        if m.reason_code == PubrelReasonCode::Success {
            Seq::<u8>::empty()
        } else {
            seq![rc]
        }
    } else {
        seq![rc] + p
    };
    assert(m.spec_encode() == be16(m.pid.id() as int) + rest);
    lemma_at_concat(d, off, be16(m.pid.id() as int), rest);
    lemma_pid_at(d, off, m.pid);
    PubrelReasonCode::lemma_u8_roundtrip(m.reason_code, 0);
    if m.properties == PropsModel::empty() {
        if m.reason_code != PubrelReasonCode::Success {
            lemma_sp_u8_at(d, off + 2, rc);
        }
    } else {
        lemma_at_concat(d, off + 2, seq![rc], p);
        lemma_sp_u8_at(d, off + 2, rc);
        PubrelProperties::lemma_roundtrip(d, off + 3, m.properties);
        lemma_props_len(m.properties, PubrelProperties::fields_order());
    }
}


impl PubcompModel {
    pub open spec fn wf(self) -> bool {
        &&& pid_ok(self.pid)
        &&& props_ok(self.properties, PropsKind::Pubcomp, PubcompProperties::fields_order())
    }
}

/// A pubcomp body decodes from its own encoding, with the remaining length of
/// that encoding.
pub proof fn lemma_pubcomp_roundtrip(d: Seq<u8>, off: int, m: PubcompModel, h: Header)
    requires
        m.wf(),
        at(d, off, m.spec_encode()),
        h.remaining_len == m.spec_encode().len(),
    ensures
        sp_pubcomp(d, off, h) == Ok::<(PubcompModel, int), DecodeErrV5>(
            (m, off + m.spec_encode().len()),
        ),
{
    let rc = m.reason_code.spec_u8();
    let p = props_encode(m.properties, PubcompProperties::fields_order());
    let rest = if m.properties == PropsModel::empty() {
        if m.reason_code == PubcompReasonCode::Success {
            Seq::<u8>::empty()
        } else {
            seq![rc]
        }
    } else {
        seq![rc] + p
    };
    assert(m.spec_encode() == be16(m.pid.id() as int) + rest);
    lemma_at_concat(d, off, be16(m.pid.id() as int), rest);
    lemma_pid_at(d, off, m.pid);
    PubcompReasonCode::lemma_u8_roundtrip(m.reason_code, 0);
    if m.properties == PropsModel::empty() {
        if m.reason_code != PubcompReasonCode::Success {
            lemma_sp_u8_at(d, off + 2, rc);
        }
    } else {
        lemma_at_concat(d, off + 2, seq![rc], p);
        lemma_sp_u8_at(d, off + 2, rc);
        PubcompProperties::lemma_roundtrip(d, off + 3, m.properties);
        lemma_props_len(m.properties, PubcompProperties::fields_order());
    }
}


impl PacketModel {
    /// A packet that decodes back to itself: each body as its own `wf` says.
    pub open spec fn wf(self) -> bool {
        match self {
            PacketModel::Connect(m) => m.wf(),
            PacketModel::Connack(m) => m.wf(),
            PacketModel::Publish(m) => m.wf(),
            PacketModel::Puback(m) => m.wf(),
            PacketModel::Pubrec(m) => m.wf(),
            PacketModel::Pubrel(m) => m.wf(),
            PacketModel::Pubcomp(m) => m.wf(),
            PacketModel::Subscribe(m) => m.wf(),
            PacketModel::Suback(m) => m.wf(),
            PacketModel::Unsubscribe(m) => m.wf(),
            PacketModel::Unsuback(m) => m.wf(),
            PacketModel::Pingreq => true,
            PacketModel::Pingresp => true,
            PacketModel::Disconnect(m) => m.wf(),
            PacketModel::Auth(m) => m.wf(),
        }
    }
}

/// The fixed header that the first byte of a packet's encoding decodes to.
proof fn lemma_control_byte_header(p: PacketModel, rem: u32)
    ensures
        spec_header(p.control_byte(), rem) matches Ok(h) && h.remaining_len == rem && (match p {
            PacketModel::Publish(m) => h.typ == PacketType::Publish && h.qos
                == m.qos_pid.spec_qos() && h.dup == m.dup && h.retain == m.retain,
            PacketModel::Connect(_) => h.typ == PacketType::Connect,
            PacketModel::Connack(_) => h.typ == PacketType::Connack,
            PacketModel::Puback(_) => h.typ == PacketType::Puback,
            PacketModel::Pubrec(_) => h.typ == PacketType::Pubrec,
            PacketModel::Pubrel(_) => h.typ == PacketType::Pubrel,
            PacketModel::Pubcomp(_) => h.typ == PacketType::Pubcomp,
            PacketModel::Subscribe(_) => h.typ == PacketType::Subscribe,
            PacketModel::Suback(_) => h.typ == PacketType::Suback,
            PacketModel::Unsubscribe(_) => h.typ == PacketType::Unsubscribe,
            PacketModel::Unsuback(_) => h.typ == PacketType::Unsuback,
            PacketModel::Pingreq => h.typ == PacketType::Pingreq,
            PacketModel::Pingresp => h.typ == PacketType::Pingresp,
            PacketModel::Disconnect(_) => h.typ == PacketType::Disconnect,
            PacketModel::Auth(_) => h.typ == PacketType::Auth,
        }),
{
    if let PacketModel::Publish(m) = p {
        let q = m.qos_pid.spec_qos().spec_u8();
        let hd = p.control_byte();
        assert(q <= 2) by {
            QoS::lemma_u8_roundtrip(m.qos_pid.spec_qos(), 0);
        }
        assert(hd / 16 == 3 && (hd % 8) / 2 == q && ((hd / 8) % 2 == 1) == m.dup && (hd % 2
            == 1) == m.retain);
        QoS::lemma_u8_roundtrip(m.qos_pid.spec_qos(), 0);
    }
}

/// The encoding of a well-formed packet, followed by any bytes, parses to its
/// header and then to the packet, the body ending where the encoding ends.
#[verifier::rlimit(100)]
pub(crate) proof fn lemma_packet_parse(p: PacketModel, rest: Seq<u8>)
    requires
        p.wf(),
        encodable(p),
    ensures
        sp_header(p.spec_encode() + rest, 0) matches Ok((h, off)) && off == 1 + var_int(p.body().len()).len()
            && sp_body_end(p.spec_encode() + rest, off, h) == Ok::<(PacketModel, int), DecodeErrV5>(
            (p, p.spec_encode().len() as int),
        ),
{
    reveal(sp_body_end);
    let d = p.spec_encode() + rest;
    let body = p.body();
    let vi = var_int(body.len());
    let off: int = 1 + vi.len() as int;
    lemma_at_whole(d);
    lemma_at_concat(d, 0, p.spec_encode(), rest);
    lemma_at_concat(d, 0, seq![p.control_byte()] + vi, body);
    lemma_at_concat(d, 0, seq![p.control_byte()], vi);
    lemma_sp_u8_at(d, 0, p.control_byte());
    lemma_sp_var_int_at(d, 1, body.len());
    lemma_var_int_len(body.len());
    lemma_control_byte_header(p, body.len() as u32);
    let h = match spec_header(p.control_byte(), body.len() as u32) {
        Ok(h) => h,
        Err(_) => arbitrary(),
    };
    assert(sp_header(d, 0) == Ok::<(Header, int), Error>((h, off)));
    match p {
        PacketModel::Connect(m) => lemma_connect_roundtrip(d, off, m),
        PacketModel::Connack(m) => lemma_connack_roundtrip(d, off, m, h),
        PacketModel::Publish(m) => lemma_publish_roundtrip(d, off, m, h),
        PacketModel::Puback(m) => lemma_puback_roundtrip(d, off, m, h),
        PacketModel::Pubrec(m) => lemma_pubrec_roundtrip(d, off, m, h),
        PacketModel::Pubrel(m) => lemma_pubrel_roundtrip(d, off, m, h),
        PacketModel::Pubcomp(m) => lemma_pubcomp_roundtrip(d, off, m, h),
        PacketModel::Subscribe(m) => lemma_subscribe_roundtrip(d, off, m, h),
        PacketModel::Suback(m) => lemma_suback_roundtrip(d, off, m, h),
        PacketModel::Unsubscribe(m) => lemma_unsubscribe_roundtrip(d, off, m, h),
        PacketModel::Unsuback(m) => lemma_unsuback_roundtrip(d, off, m, h),
        PacketModel::Disconnect(m) => lemma_disconnect_roundtrip(d, off, m, h),
        PacketModel::Auth(m) => lemma_auth_roundtrip(d, off, m, h),
        _ => {},
    }
}

/// Decoding the encoding of a well-formed packet gives the packet back, also
/// when other bytes follow it in the buffer: the decoder reads the packet and
/// nothing after it.
pub proof fn lemma_packet_roundtrip(p: PacketModel, rest: Seq<u8>)
    requires
        p.wf(),
        encodable(p),
    ensures
        sp_packet(p.spec_encode() + rest) == Ok::<Option<PacketModel>, DecodeErrV5>(Some(p)),
{
    lemma_packet_parse(p, rest);
}


/// The body of a well-formed packet, alone in a buffer, decodes under the
/// header of its first byte and length to the packet.
#[verifier::rlimit(100)]
proof fn lemma_body_alone(p: PacketModel, h: Header)
    requires
        p.wf(),
        encodable(p),
        spec_header(p.control_byte(), p.body().len() as u32) == Ok::<Header, Error>(h),
    ensures
        sp_body(p.body(), 0, h) == Ok::<PacketModel, DecodeErrV5>(p),
{
    reveal(sp_body_end);
    let b = p.body();
    lemma_at_whole(b);
    lemma_control_byte_header(p, b.len() as u32);
    match p {
        PacketModel::Connect(m) => lemma_connect_roundtrip(b, 0, m),
        PacketModel::Connack(m) => lemma_connack_roundtrip(b, 0, m, h),
        PacketModel::Publish(m) => lemma_publish_roundtrip(b, 0, m, h),
        PacketModel::Puback(m) => lemma_puback_roundtrip(b, 0, m, h),
        PacketModel::Pubrec(m) => lemma_pubrec_roundtrip(b, 0, m, h),
        PacketModel::Pubrel(m) => lemma_pubrel_roundtrip(b, 0, m, h),
        PacketModel::Pubcomp(m) => lemma_pubcomp_roundtrip(b, 0, m, h),
        PacketModel::Subscribe(m) => lemma_subscribe_roundtrip(b, 0, m, h),
        PacketModel::Suback(m) => lemma_suback_roundtrip(b, 0, m, h),
        PacketModel::Unsubscribe(m) => lemma_unsubscribe_roundtrip(b, 0, m, h),
        PacketModel::Unsuback(m) => lemma_unsuback_roundtrip(b, 0, m, h),
        PacketModel::Disconnect(m) => lemma_disconnect_roundtrip(b, 0, m, h),
        PacketModel::Auth(m) => lemma_auth_roundtrip(b, 0, m, h),
        _ => {},
    }
}

/// Reading the encoding of a well-formed packet from a stream gives the
/// packet back: fed byte by byte, the fixed header completes with the
/// packet's first byte, the length of its body and its whole length; the
/// header of those either makes the packet by itself, or has a body that is
/// not empty and that decodes, alone, to the packet.
pub proof fn lemma_packet_stream_roundtrip(p: PacketModel)
    requires
        p.wf(),
        encodable(p),
    ensures
        feed_from(
            GenericPollPacketState::<Header>::Header { control_byte: None, var_idx: 0, var_int: 0 },
            p.spec_encode(),
            0,
        ) == Ok::<HeaderProgress, Error>(
            HeaderProgress::Complete {
                control_byte: p.control_byte(),
                remaining_len: p.body().len() as u32,
                total_len: p.spec_encode().len() as u32,
            },
        ),
        spec_header(p.control_byte(), p.body().len() as u32) matches Ok(h) && match h.spec_empty_packet() {
            Some(m) => m == p,
            None => p.body().len() > 0 && sp_body(p.body(), 0, h) == Ok::<PacketModel, DecodeErrV5>(p),
        },
{
    let d = p.spec_encode();
    let body = p.body();
    let vi = var_int(body.len());
    lemma_at_whole(d);
    lemma_at_concat(d, 0, seq![p.control_byte()] + vi, body);
    lemma_at_concat(d, 0, seq![p.control_byte()], vi);
    lemma_sp_u8_at(d, 0, p.control_byte());
    lemma_sp_var_int_at(d, 1, body.len());
    lemma_var_int_len(body.len());
    lemma_feed_header_matches_decode::<Header>(d);
    assert(header_of(d) == Ok::<HeaderProgress, Error>(
        HeaderProgress::Complete {
            control_byte: p.control_byte(),
            remaining_len: body.len() as u32,
            total_len: d.len() as u32,
        },
    ));
    lemma_control_byte_header(p, body.len() as u32);
    let h = match spec_header(p.control_byte(), body.len() as u32) {
        Ok(h) => h,
        Err(_) => arbitrary(),
    };
    if h.spec_empty_packet() is None {
        lemma_body_alone(p, h);
    }
}

} // verus!
