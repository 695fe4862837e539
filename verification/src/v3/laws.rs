use vstd::prelude::*;
use vstd::utf8::valid_utf8;

use crate::buf::{at, lemma_at_whole, lemma_sp_var_int_at, lemma_sp_raw_at, lemma_at_concat, lemma_sp_bytes_at, lemma_sp_u16_at, lemma_sp_u8_at};
use crate::codec::{be16, field, lemma_var_int_len, var_int};
use crate::topic::{topic_filter_valid, topic_name_valid};
use crate::types::{mqisdp_name, mqtt_name, spec_protocol, sp_protocol, sp_protocol_raw, Pid, Protocol, QoS, QosPid};

use crate::error::{DecodeErr, Error};

use super::poll::sp_body_buf;
use super::packet::{encodable, sp_body_end, sp_header, sp_packet, spec_header, Header, PacketModel, PacketType};
use crate::poll::{feed_from, header_of, lemma_feed_header_matches_decode, GenericPollPacketState, HeaderProgress};
use super::publish::{qos_pid_bytes, sp_payload, sp_pid, sp_publish, sp_qos_pid, PublishModel};
use super::subscribe::{
    codes_bytes, filters_bytes, sp_codes, sp_filters, sp_sub_topics, sp_sub_topics_buf, sp_suback,
    sp_subscribe, sp_subscribe_buf,
    sp_unsubscribe, sub_topics_bytes, SubackModel, SubscribeModel, SubscribeReturnCode,
    UnsubscribeModel,
};
use super::connect::{sp_connack, Connack, ConnectReturnCode, opt_field, sp_opt_bytes, sp_opt_string, sp_connect, sp_connect_rest, sp_last_will, ConnectModel, LastWillModel};

verus! {

/// A string field that decodes: UTF-8 and fits a two byte length.
pub open spec fn str_ok(s: Seq<u8>) -> bool {
    valid_utf8(s) && s.len() <= 65535
}

/// An optional string field that decodes.
pub open spec fn opt_str_ok(s: Option<Seq<u8>>) -> bool {
    s matches Some(x) ==> str_ok(x)
}

/// An optional binary field that decodes.
pub open spec fn opt_bytes_ok(s: Option<Seq<u8>>) -> bool {
    s matches Some(x) ==> x.len() <= 65535
}

impl LastWillModel {
    /// A will message that decodes back to itself.
    pub open spec fn wf(self) -> bool {
        &&& topic_name_valid(self.topic)
        &&& valid_utf8(self.topic)
        &&& self.message.len() <= 65535
    }
}

impl ConnectModel {
    /// A connect body that decodes back to itself: a 3.1 or 3.1.1 protocol
    /// and fields that fit.
    pub open spec fn wf(self) -> bool {
        &&& self.protocol.spec_level() <= 4
        &&& str_ok(self.client_id)
        &&& (self.last_will matches Some(w) ==> w.wf())
        &&& opt_str_ok(self.username)
        &&& opt_bytes_ok(self.password)
    }
}

pub proof fn lemma_connect_flag_bits(c: bool, u: bool, p: bool, w: bool, q: u8, r: bool)
    requires
        q <= 2,
    ensures
        ({
            let f0: u8 = if c { 2 } else { 0 };
            let f1: u8 = if u { f0 | 128 } else { f0 };
            let f2: u8 = if p { f1 | 64 } else { f1 };
            let f3: u8 = f2 | 4 | (q << 3u8);
            let f: u8 = if w { if r { f3 | 32 } else { f3 } } else { f2 };
            &&& f & 1 == 0
            &&& (f & 2 != 0) == c
            &&& (f & 128 != 0) == u
            &&& (f & 64 != 0) == p
            &&& (f & 4 != 0) == w
            &&& (w ==> (f & 24) >> 3u8 == q)
            &&& (w ==> (f & 32 != 0) == r)
            &&& (!w ==> f & 24 == 0)
        }),
{
    assert({
        let f0: u8 = if c { 2 } else { 0 };
        let f1: u8 = if u { f0 | 128 } else { f0 };
        let f2: u8 = if p { f1 | 64 } else { f1 };
        let f3: u8 = f2 | 4 | (q << 3u8);
        let f: u8 = if w { if r { f3 | 32 } else { f3 } } else { f2 };
        &&& f & 1 == 0
        &&& (f & 2 != 0) == c
        &&& (f & 128 != 0) == u
        &&& (f & 64 != 0) == p
        &&& (f & 4 != 0) == w
        &&& (w ==> (f & 24) >> 3u8 == q)
        &&& (w ==> (f & 32 != 0) == r)
        &&& (!w ==> f & 24 == 0)
    }) by (bit_vector)
        requires
            q <= 2,
    ;
}

pub proof fn lemma_protocol_at(d: Seq<u8>, off: int, p: Protocol)
    requires
        at(d, off, p.spec_encode()),
    ensures
        sp_protocol(d, off) == Ok::<(Protocol, int), crate::error::DecodeErr>(
            (p, off + p.spec_encode().len()),
        ),
{
    let name = p.spec_name();
    assert(p.spec_encode() =~= field(name) + seq![p.spec_level()]);
    lemma_at_concat(d, off, field(name), seq![p.spec_level()]);
    lemma_sp_bytes_at(d, off, name);
    lemma_sp_u8_at(d, off + field(name).len(), p.spec_level());
    assert(mqisdp_name() != mqtt_name()) by {
        assert(mqisdp_name().len() != mqtt_name().len());
    }
}

pub proof fn lemma_last_will_at(d: Seq<u8>, off: int, w: LastWillModel, flags: u8)
    requires
        w.wf(),
        at(d, off, w.spec_encode()),
        flags & 4 != 0,
        (flags & 24) >> 3u8 == w.qos.spec_u8(),
        (flags & 32 != 0) == w.retain,
    ensures
        sp_last_will(d, off, flags) == Ok::<(Option<LastWillModel>, int), crate::error::DecodeErr>(
            (Some(w), off + w.spec_encode().len()),
        ),
{
    lemma_at_concat(d, off, field(w.topic), field(w.message));
    lemma_sp_bytes_at(d, off, w.topic);
    lemma_sp_bytes_at(d, off + field(w.topic).len(), w.message);
    QoS::lemma_u8_roundtrip(w.qos, 0);
}

/// A connect body that decodes, decoded from its own encoding, gives itself
/// back, and the decoder stops at the encoding's end.
#[verifier::rlimit(50)]
pub proof fn lemma_connect_roundtrip(d: Seq<u8>, off: int, m: ConnectModel)
    requires
        m.wf(),
        at(d, off, m.spec_encode()),
    ensures
        sp_connect(d, off) == Ok::<(ConnectModel, int), crate::error::DecodeErr>(
            (m, off + m.spec_encode().len()),
        ),
{
    let flags = m.flags();
    let will_bytes = match m.last_will {
        Some(w) => w.spec_encode(),
        None => Seq::<u8>::empty(),
    };
    let a = m.protocol.spec_encode();
    let b = seq![flags];
    let c = be16(m.keep_alive as int);
    let e = field(m.client_id);
    let f = opt_field(m.username);
    let g = opt_field(m.password);
    assert(m.spec_encode() == a + b + c + e + will_bytes + f + g);
    lemma_at_concat(d, off, a + b + c + e + will_bytes + f, g);
    lemma_at_concat(d, off, a + b + c + e + will_bytes, f);
    lemma_at_concat(d, off, a + b + c + e, will_bytes);
    lemma_at_concat(d, off, a + b + c, e);
    lemma_at_concat(d, off, a + b, c);
    lemma_at_concat(d, off, a, b);
    let o1 = off + a.len();
    let o2 = o1 + 1;
    let o3 = o2 + 2;
    let o4 = o3 + e.len();
    let o5 = o4 + will_bytes.len();
    let o6 = o5 + f.len();
    lemma_protocol_at(d, off, m.protocol);
    lemma_sp_u8_at(d, o1, flags);
    lemma_sp_u16_at(d, o2, m.keep_alive as int);
    lemma_sp_bytes_at(d, o3, m.client_id);
    let (q, r) = match m.last_will {
        Some(w) => (w.qos.spec_u8(), w.retain),
        None => (0u8, false),
    };
    lemma_connect_flag_bits(
        m.clean_session,
        m.username is Some,
        m.password is Some,
        m.last_will is Some,
        q,
        r,
    );
    match m.last_will {
        Some(w) => {
            lemma_last_will_at(d, o4, w, flags);
        },
        None => {},
    }
    assert(sp_last_will(d, o4, flags) == Ok::<(Option<LastWillModel>, int), crate::error::DecodeErr>((m.last_will, o5)));
    match m.username {
        Some(u) => {
            lemma_sp_bytes_at(d, o5, u);
        },
        None => {},
    }
    assert(sp_opt_string(d, o5, flags & 128 != 0) == Ok::<(Option<Seq<u8>>, int), crate::error::DecodeErr>((m.username, o6)));
    match m.password {
        Some(pw) => {
            lemma_sp_bytes_at(d, o6, pw);
        },
        None => {},
    }
    assert(sp_opt_bytes(d, o6, flags & 64 != 0) == Ok::<(Option<Seq<u8>>, int), crate::error::DecodeErr>((m.password, o6 + g.len())));
    assert(sp_connect_rest(d, o1, m.protocol) == Ok::<(ConnectModel, int), crate::error::DecodeErr>(
        (m, off + m.spec_encode().len()),
    ));
}

} // verus!

verus! {

/// A packet identifier that decodes: not 0.
pub open spec fn pid_ok(p: Pid) -> bool {
    p.id() != 0
}

impl PublishModel {
    /// A publish body that decodes back to itself.
    pub open spec fn wf(self) -> bool {
        &&& topic_name_valid(self.topic)
        &&& valid_utf8(self.topic)
        &&& (self.qos_pid matches QosPid::Level1(p) ==> pid_ok(p))
        &&& (self.qos_pid matches QosPid::Level2(p) ==> pid_ok(p))
    }
}

impl SubscribeModel {
    /// A subscribe body that decodes back to itself: at least one entry,
    /// every filter valid.
    pub open spec fn wf(self) -> bool {
        &&& pid_ok(self.pid)
        &&& self.topics.len() > 0
        &&& forall|i: int|
            0 <= i < self.topics.len() ==> topic_filter_valid(#[trigger] self.topics[i].0)
                && valid_utf8(self.topics[i].0)
    }
}

impl SubackModel {
    pub open spec fn wf(self) -> bool {
        pid_ok(self.pid)
    }
}

impl UnsubscribeModel {
    /// An unsubscribe body that decodes back to itself: at least one filter,
    /// every filter valid.
    pub open spec fn wf(self) -> bool {
        &&& pid_ok(self.pid)
        &&& self.topics.len() > 0
        &&& forall|i: int|
            0 <= i < self.topics.len() ==> topic_filter_valid(#[trigger] self.topics[i])
                && valid_utf8(self.topics[i])
    }
}

pub proof fn lemma_pid_at(d: Seq<u8>, off: int, p: Pid)
    requires
        pid_ok(p),
        at(d, off, be16(p.id() as int)),
    ensures
        sp_pid(d, off) == Ok::<(Pid, int), DecodeErr>((p, off + 2)),
{
    lemma_sp_u16_at(d, off, p.id() as int);
    Pid::lemma_new_spec_id(p);
}

pub proof fn lemma_publish_roundtrip(d: Seq<u8>, off: int, m: PublishModel, h: Header)
    requires
        m.wf(),
        at(d, off, m.spec_encode()),
        h.remaining_len == m.spec_encode().len(),
        h.qos == m.qos_pid.spec_qos(),
        h.dup == m.dup,
        h.retain == m.retain,
    ensures
        sp_publish(d, off, h) == Ok::<(PublishModel, int), DecodeErr>(
            (m, off + m.spec_encode().len()),
        ),
{
    let a = field(m.topic);
    let b = qos_pid_bytes(m.qos_pid);
    let c = m.payload;
    lemma_at_concat(d, off, a + b, c);
    lemma_at_concat(d, off, a, b);
    lemma_sp_bytes_at(d, off, m.topic);
    let o1 = off + a.len();
    match m.qos_pid {
        QosPid::Level0 => {},
        QosPid::Level1(p) => {
            lemma_sp_u16_at(d, o1, p.id() as int);
            Pid::lemma_new_spec_id(p);
        },
        QosPid::Level2(p) => {
            lemma_sp_u16_at(d, o1, p.id() as int);
            Pid::lemma_new_spec_id(p);
        },
    }
    let rem = h.remaining_len - 2 - m.topic.len();
    assert(sp_qos_pid(d, o1, h.qos, rem) == Ok::<((QosPid, int), int), DecodeErr>(
        ((m.qos_pid, c.len() as int), o1 + b.len()),
    ));
    if c.len() > 0 {
        lemma_sp_raw_at(d, o1 + b.len(), c);
    } else {
        assert(c =~= Seq::<u8>::empty());
    }
    assert(sp_payload(d, o1 + b.len(), c.len() as int) == Ok::<(Seq<u8>, int), DecodeErr>(
        (c, o1 + b.len() + c.len()),
    ));
}

pub proof fn lemma_connack_roundtrip(d: Seq<u8>, off: int, c: Connack)
    requires
        at(d, off, c.spec_encode()),
    ensures
        sp_connack(d, off) == Ok::<(Connack, int), DecodeErr>((c, off + 2)),
{
    assert(d[off] == d.subrange(off, off + 2)[0]);
    assert(d[off + 1] == d.subrange(off, off + 2)[1]);
    ConnectReturnCode::lemma_u8_roundtrip(c.code);
}

proof fn lemma_sub_topics_front(t: Seq<(Seq<u8>, QoS)>)
    requires
        t.len() > 0,
    ensures
        sub_topics_bytes(t) == field(t[0].0) + seq![t[0].1.spec_u8()] + sub_topics_bytes(
            t.drop_first(),
        ),
    decreases t.len(),
{
    if t.len() == 1 {
        assert(t.drop_last() =~= Seq::<(Seq<u8>, QoS)>::empty());
        assert(t.drop_first() =~= Seq::<(Seq<u8>, QoS)>::empty());
        assert(sub_topics_bytes(t) =~= field(t[0].0) + seq![t[0].1.spec_u8()]);
    } else {
        lemma_sub_topics_front(t.drop_last());
        assert(t.drop_last().drop_first() =~= t.drop_first().drop_last());
        let e0 = field(t[0].0) + seq![t[0].1.spec_u8()];
        let el = field(t.last().0) + seq![t.last().1.spec_u8()];
        assert(sub_topics_bytes(t) =~= sub_topics_bytes(t.drop_last()) + el);
        assert(sub_topics_bytes(t.drop_first()) =~= sub_topics_bytes(t.drop_first().drop_last())
            + el);
        assert(sub_topics_bytes(t) =~= e0 + sub_topics_bytes(t.drop_first()));
    }
}

proof fn lemma_sub_topics_parse(
    d: Seq<u8>,
    off: int,
    t: Seq<(Seq<u8>, QoS)>,
    acc: Seq<(Seq<u8>, QoS)>,
)
    requires
        forall|i: int|
            0 <= i < t.len() ==> topic_filter_valid(#[trigger] t[i].0) && valid_utf8(t[i].0),
        at(d, off, sub_topics_bytes(t)),
    ensures
        sp_sub_topics(d, off, sub_topics_bytes(t).len() as int, acc) == Ok::<
            (Seq<(Seq<u8>, QoS)>, int),
            DecodeErr,
        >((acc + t, off + sub_topics_bytes(t).len())),
    decreases t.len(),
{
    if t.len() == 0 {
        assert(acc + t =~= acc);
    } else {
        lemma_sub_topics_front(t);
        let f = t[0].0;
        let q = t[0].1;
        let rest = t.drop_first();
        assert(topic_filter_valid(t[0].0));
        lemma_at_concat(d, off, field(f) + seq![q.spec_u8()], sub_topics_bytes(rest));
        lemma_at_concat(d, off, field(f), seq![q.spec_u8()]);
        lemma_sp_bytes_at(d, off, f);
        lemma_sp_u8_at(d, off + field(f).len(), q.spec_u8());
        QoS::lemma_u8_roundtrip(q, 0);
        assert forall|i: int| 0 <= i < rest.len() implies topic_filter_valid(
            #[trigger] rest[i].0,
        ) && valid_utf8(rest[i].0) by {
            assert(rest[i] == t[i + 1]);
        }
        lemma_sub_topics_parse(d, off + field(f).len() + 1, rest, acc.push((f, q)));
        assert(acc.push((f, q)) + rest =~= acc + t);
    }
}

pub proof fn lemma_subscribe_roundtrip(d: Seq<u8>, off: int, m: SubscribeModel, h: Header)
    requires
        m.wf(),
        at(d, off, m.spec_encode()),
        h.remaining_len == m.spec_encode().len(),
    ensures
        sp_subscribe(d, off, h) == Ok::<(SubscribeModel, int), DecodeErr>(
            (m, off + m.spec_encode().len()),
        ),
{
    lemma_at_concat(d, off, be16(m.pid.id() as int), sub_topics_bytes(m.topics));
    lemma_pid_at(d, off, m.pid);
    lemma_sub_topics_front(m.topics);
    lemma_sub_topics_parse(d, off + 2, m.topics, Seq::empty());
    assert(Seq::<(Seq<u8>, QoS)>::empty() + m.topics =~= m.topics);
}

proof fn lemma_sub_topics_buf_parse(
    d: Seq<u8>,
    off: int,
    t: Seq<(Seq<u8>, QoS)>,
    acc: Seq<(Seq<u8>, QoS)>,
)
    requires
        forall|i: int|
            0 <= i < t.len() ==> topic_filter_valid(#[trigger] t[i].0) && valid_utf8(t[i].0),
        at(d, off, sub_topics_bytes(t)),
        off + sub_topics_bytes(t).len() == d.len(),
    ensures
        sp_sub_topics_buf(d, off, sub_topics_bytes(t).len() as int, acc) == Ok::<
            (Seq<(Seq<u8>, QoS)>, int),
            DecodeErr,
        >((acc + t, d.len() as int)),
    decreases t.len(),
{
    if t.len() == 0 {
        assert(acc + t =~= acc);
    } else {
        lemma_sub_topics_front(t);
        let f = t[0].0;
        let q = t[0].1;
        let rest = t.drop_first();
        assert(topic_filter_valid(t[0].0));
        lemma_at_concat(d, off, field(f) + seq![q.spec_u8()], sub_topics_bytes(rest));
        lemma_at_concat(d, off, field(f), seq![q.spec_u8()]);
        lemma_sp_bytes_at(d, off, f);
        lemma_sp_u8_at(d, off + field(f).len(), q.spec_u8());
        QoS::lemma_u8_roundtrip(q, 0);
        assert forall|i: int| 0 <= i < rest.len() implies topic_filter_valid(
            #[trigger] rest[i].0,
        ) && valid_utf8(rest[i].0) by {
            assert(rest[i] == t[i + 1]);
        }
        lemma_sub_topics_buf_parse(d, off + field(f).len() + 1, rest, acc.push((f, q)));
        assert(acc.push((f, q)) + rest =~= acc + t);
    }
}

/// A subscribe body, alone at the end of a buffer, decodes from its own
/// encoding when entries are read while the buffer lasts.
pub proof fn lemma_subscribe_buf_roundtrip(d: Seq<u8>, off: int, m: SubscribeModel, h: Header)
    requires
        m.wf(),
        at(d, off, m.spec_encode()),
        off + m.spec_encode().len() == d.len(),
        h.remaining_len == m.spec_encode().len(),
    ensures
        sp_subscribe_buf(d, off, h) == Ok::<(SubscribeModel, int), DecodeErr>(
            (m, off + m.spec_encode().len()),
        ),
{
    lemma_at_concat(d, off, be16(m.pid.id() as int), sub_topics_bytes(m.topics));
    lemma_pid_at(d, off, m.pid);
    lemma_sub_topics_front(m.topics);
    lemma_sub_topics_buf_parse(d, off + 2, m.topics, Seq::empty());
    assert(Seq::<(Seq<u8>, QoS)>::empty() + m.topics =~= m.topics);
}

proof fn lemma_codes_front(t: Seq<SubscribeReturnCode>)
    requires
        t.len() > 0,
    ensures
        codes_bytes(t) == seq![t[0].spec_u8()] + codes_bytes(t.drop_first()),
    decreases t.len(),
{
    if t.len() == 1 {
        assert(t.drop_last() =~= Seq::<SubscribeReturnCode>::empty());
        assert(t.drop_first() =~= Seq::<SubscribeReturnCode>::empty());
        assert(codes_bytes(t) =~= seq![t[0].spec_u8()]);
    } else {
        lemma_codes_front(t.drop_last());
        assert(t.drop_last().drop_first() =~= t.drop_first().drop_last());
        assert(codes_bytes(t) =~= codes_bytes(t.drop_last()) + seq![t.last().spec_u8()]);
        assert(codes_bytes(t.drop_first()) =~= codes_bytes(t.drop_first().drop_last()) + seq![
            t.last().spec_u8(),
        ]);
        assert(codes_bytes(t) =~= seq![t[0].spec_u8()] + codes_bytes(t.drop_first()));
    }
}

proof fn lemma_codes_parse(
    d: Seq<u8>,
    off: int,
    t: Seq<SubscribeReturnCode>,
    acc: Seq<SubscribeReturnCode>,
)
    requires
        at(d, off, codes_bytes(t)),
    ensures
        sp_codes(d, off, codes_bytes(t).len() as int, acc) == Ok::<
            (Seq<SubscribeReturnCode>, int),
            DecodeErr,
        >((acc + t, off + codes_bytes(t).len())),
    decreases t.len(),
{
    if t.len() == 0 {
        assert(acc + t =~= acc);
    } else {
        lemma_codes_front(t);
        let rest = t.drop_first();
        lemma_at_concat(d, off, seq![t[0].spec_u8()], codes_bytes(rest));
        lemma_sp_u8_at(d, off, t[0].spec_u8());
        lemma_codes_parse(d, off + 1, rest, acc.push(t[0]));
        assert(acc.push(t[0]) + rest =~= acc + t);
    }
}

pub proof fn lemma_suback_roundtrip(d: Seq<u8>, off: int, m: SubackModel, h: Header)
    requires
        m.wf(),
        at(d, off, m.spec_encode()),
        h.remaining_len == m.spec_encode().len(),
    ensures
        sp_suback(d, off, h) == Ok::<(SubackModel, int), DecodeErr>(
            (m, off + m.spec_encode().len()),
        ),
{
    lemma_at_concat(d, off, be16(m.pid.id() as int), codes_bytes(m.topics));
    lemma_pid_at(d, off, m.pid);
    lemma_codes_parse(d, off + 2, m.topics, Seq::empty());
    assert(Seq::<SubscribeReturnCode>::empty() + m.topics =~= m.topics);
}

pub proof fn lemma_filters_front(t: Seq<Seq<u8>>)
    requires
        t.len() > 0,
    ensures
        filters_bytes(t) == field(t[0]) + filters_bytes(t.drop_first()),
    decreases t.len(),
{
    if t.len() == 1 {
        assert(t.drop_last() =~= Seq::<Seq<u8>>::empty());
        assert(t.drop_first() =~= Seq::<Seq<u8>>::empty());
        assert(filters_bytes(t.drop_last()) =~= Seq::<u8>::empty());
        assert(t.last() == t[0]);
        assert(filters_bytes(t) =~= Seq::<u8>::empty() + field(t[0]));
        assert(filters_bytes(t) =~= field(t[0]));
    } else {
        lemma_filters_front(t.drop_last());
        assert(t.drop_last().drop_first() =~= t.drop_first().drop_last());
        assert(filters_bytes(t) =~= filters_bytes(t.drop_last()) + field(t.last()));
        assert(filters_bytes(t.drop_first()) =~= filters_bytes(t.drop_first().drop_last())
            + field(t.last()));
        assert(filters_bytes(t) =~= field(t[0]) + filters_bytes(t.drop_first()));
    }
}

pub proof fn lemma_filters_parse(d: Seq<u8>, off: int, t: Seq<Seq<u8>>, acc: Seq<Seq<u8>>)
    requires
        forall|i: int| 0 <= i < t.len() ==> topic_filter_valid(#[trigger] t[i]) && valid_utf8(t[i]),
        at(d, off, filters_bytes(t)),
    ensures
        sp_filters(d, off, filters_bytes(t).len() as int, acc) == Ok::<
            (Seq<Seq<u8>>, int),
            DecodeErr,
        >((acc + t, off + filters_bytes(t).len())),
    decreases t.len(),
{
    if t.len() == 0 {
        assert(acc + t =~= acc);
    } else {
        lemma_filters_front(t);
        let f = t[0];
        let rest = t.drop_first();
        assert(topic_filter_valid(t[0]));
        lemma_at_concat(d, off, field(f), filters_bytes(rest));
        lemma_sp_bytes_at(d, off, f);
        assert forall|i: int| 0 <= i < rest.len() implies topic_filter_valid(#[trigger] rest[i])
            && valid_utf8(rest[i]) by {
            assert(rest[i] == t[i + 1]);
        }
        lemma_filters_parse(d, off + field(f).len(), rest, acc.push(f));
        assert(acc.push(f) + rest =~= acc + t);
    }
}

pub proof fn lemma_unsubscribe_roundtrip(d: Seq<u8>, off: int, m: UnsubscribeModel, h: Header)
    requires
        m.wf(),
        at(d, off, m.spec_encode()),
        h.remaining_len == m.spec_encode().len(),
    ensures
        sp_unsubscribe(d, off, h) == Ok::<(UnsubscribeModel, int), DecodeErr>(
            (m, off + m.spec_encode().len()),
        ),
{
    lemma_at_concat(d, off, be16(m.pid.id() as int), filters_bytes(m.topics));
    lemma_pid_at(d, off, m.pid);
    lemma_filters_front(m.topics);
    lemma_filters_parse(d, off + 2, m.topics, Seq::empty());
    assert(Seq::<Seq<u8>>::empty() + m.topics =~= m.topics);
}


impl PacketModel {
    /// A packet that decodes back to itself: each body as its own `wf`
    /// says, and packet identifiers that are not zero.
    pub open spec fn wf(self) -> bool {
        match self {
            PacketModel::Connect(m) => m.wf(),
            PacketModel::Connack(_) => true,
            PacketModel::Publish(m) => m.wf(),
            PacketModel::Puback(pid) => pid_ok(pid),
            PacketModel::Pubrec(pid) => pid_ok(pid),
            PacketModel::Pubrel(pid) => pid_ok(pid),
            PacketModel::Pubcomp(pid) => pid_ok(pid),
            PacketModel::Subscribe(m) => m.wf(),
            PacketModel::Suback(m) => m.wf(),
            PacketModel::Unsubscribe(m) => m.wf(),
            PacketModel::Unsuback(pid) => pid_ok(pid),
            PacketModel::Pingreq => true,
            PacketModel::Pingresp => true,
            PacketModel::Disconnect => true,
        }
    }
}

/// The fixed header that the first byte of a packet's encoding decodes to.
proof fn lemma_control_byte_header(p: PacketModel, rem: u32, n: u8)
    ensures
        spec_header(p.control_byte(), rem, n) matches Ok(h) && h.remaining_len == rem && (match p {
            PacketModel::Publish(m) => h.typ == PacketType::Publish && h.qos
                == m.qos_pid.spec_qos() && h.dup == m.dup && h.retain == m.retain,
            PacketModel::Connect(_) => h.typ == PacketType::Connect,
            PacketModel::Connack(_) => h.typ == PacketType::Connack,
            PacketModel::Puback(_) => h.typ == PacketType::Puback,
            PacketModel::Pubrec(_) => h.typ == PacketType::Pubrec,
            PacketModel::Pubrel(_) => h.typ == PacketType::Pubrel,
            PacketModel::Pubcomp(_) => h.typ == PacketType::Pubcomp,
            PacketModel::Subscribe(_) => h.typ == PacketType::Subscribe,
            PacketModel::Suback(_) => h.typ == PacketType::Suback,
            PacketModel::Unsubscribe(_) => h.typ == PacketType::Unsubscribe,
            PacketModel::Unsuback(_) => h.typ == PacketType::Unsuback,
            PacketModel::Pingreq => h.typ == PacketType::Pingreq,
            PacketModel::Pingresp => h.typ == PacketType::Pingresp,
            PacketModel::Disconnect => h.typ == PacketType::Disconnect,
        }),
{
    if let PacketModel::Publish(m) = p {
        let q = m.qos_pid.spec_qos().spec_u8();
        let hd = p.control_byte();
        assert(q <= 2) by {
            QoS::lemma_u8_roundtrip(m.qos_pid.spec_qos(), 0);
        }
        assert(hd / 16 == 3 && (hd % 8) / 2 == q && ((hd / 8) % 2 == 1) == m.dup && (hd % 2
            == 1) == m.retain);
        QoS::lemma_u8_roundtrip(m.qos_pid.spec_qos(), 0);
    }
}

/// The encoding of a well-formed packet, followed by any bytes, starts with
/// the fixed header of its first byte and body length, and holds the body
/// after it.
proof fn lemma_encoding_header(p: PacketModel, rest: Seq<u8>)
    requires
        p.wf(),
        encodable(p),
    ensures
        ({
            let d = p.spec_encode() + rest;
            let vi = var_int(p.body().len());
            &&& spec_header(p.control_byte(), p.body().len() as u32, vi.len() as u8) matches Ok(h)
                && sp_header(d) == Ok::<(Header, int), Error>((h, 1 + vi.len() as int))
            &&& at(d, 1 + vi.len() as int, p.body())
            &&& p.spec_encode().len() == 1 + vi.len() + p.body().len()
        }),
{
    let d = p.spec_encode() + rest;
    let body = p.body();
    let vi = var_int(body.len());
    lemma_at_whole(d);
    lemma_at_concat(d, 0, p.spec_encode(), rest);
    lemma_at_concat(d, 0, seq![p.control_byte()] + vi, body);
    lemma_at_concat(d, 0, seq![p.control_byte()], vi);
    lemma_sp_u8_at(d, 0, p.control_byte());
    lemma_sp_var_int_at(d, 1, body.len());
    lemma_var_int_len(body.len());
    lemma_control_byte_header(p, body.len() as u32, vi.len() as u8);
}

/// The encoding of a well-formed packet, followed by any bytes, parses to its
/// header and then to the packet, the body ending where the encoding ends.
#[verifier::rlimit(80)]
pub(crate) proof fn lemma_packet_parse(p: PacketModel, rest: Seq<u8>)
    requires
        p.wf(),
        encodable(p),
    ensures
        sp_header(p.spec_encode() + rest) matches Ok((h, off)) && off == 1 + var_int(p.body().len()).len()
            && sp_body_end(p.spec_encode() + rest, off, h) == Ok::<(PacketModel, int), DecodeErr>(
            (p, p.spec_encode().len() as int),
        ),
{
    let d = p.spec_encode() + rest;
    let body = p.body();
    let vi = var_int(body.len());
    let off: int = 1 + vi.len() as int;
    lemma_encoding_header(p, rest);
    lemma_control_byte_header(p, body.len() as u32, vi.len() as u8);
    let h = match spec_header(p.control_byte(), body.len() as u32, vi.len() as u8) {
        Ok(h) => h,
        Err(_) => arbitrary(),
    };
    assert(sp_header(d) == Ok::<(Header, int), Error>((h, off)));
    match p {
        PacketModel::Connect(m) => lemma_connect_roundtrip(d, off, m),
        PacketModel::Connack(m) => lemma_connack_roundtrip(d, off, m),
        PacketModel::Publish(m) => lemma_publish_roundtrip(d, off, m, h),
        PacketModel::Puback(pid) => lemma_pid_at(d, off, pid),
        PacketModel::Pubrec(pid) => lemma_pid_at(d, off, pid),
        PacketModel::Pubrel(pid) => lemma_pid_at(d, off, pid),
        PacketModel::Pubcomp(pid) => lemma_pid_at(d, off, pid),
        PacketModel::Subscribe(m) => lemma_subscribe_roundtrip(d, off, m, h),
        PacketModel::Suback(m) => lemma_suback_roundtrip(d, off, m, h),
        PacketModel::Unsubscribe(m) => lemma_unsubscribe_roundtrip(d, off, m, h),
        PacketModel::Unsuback(pid) => lemma_pid_at(d, off, pid),
        _ => {},
    }
}

/// Decoding the encoding of a well-formed packet gives the packet back, also
/// when other bytes follow it in the buffer: the decoder reads the packet and
/// nothing after it.
pub proof fn lemma_packet_roundtrip(p: PacketModel, rest: Seq<u8>)
    requires
        p.wf(),
        encodable(p),
    ensures
        sp_packet(p.spec_encode() + rest) == Ok::<Option<PacketModel>, DecodeErr>(Some(p)),
{
    lemma_packet_parse(p, rest);
}


/// The body of a well-formed packet, alone in a buffer, decodes under the
/// header of its first byte and length to the packet.
#[verifier::rlimit(80)]
proof fn lemma_body_alone(p: PacketModel, h: Header)
    requires
        p.wf(),
        encodable(p),
        spec_header(p.control_byte(), p.body().len() as u32, var_int(p.body().len()).len() as u8)
            == Ok::<Header, Error>(h),
    ensures
        sp_body_buf(p.body(), 0, h) == Ok::<PacketModel, DecodeErr>(p),
{
    let b = p.body();
    lemma_at_whole(b);
    lemma_var_int_len(b.len());
    lemma_control_byte_header(p, b.len() as u32, var_int(b.len()).len() as u8);
    match p {
        PacketModel::Connect(m) => lemma_connect_roundtrip(b, 0, m),
        PacketModel::Connack(m) => lemma_connack_roundtrip(b, 0, m),
        PacketModel::Publish(m) => lemma_publish_roundtrip(b, 0, m, h),
        PacketModel::Puback(pid) => lemma_pid_at(b, 0, pid),
        PacketModel::Pubrec(pid) => lemma_pid_at(b, 0, pid),
        PacketModel::Pubrel(pid) => lemma_pid_at(b, 0, pid),
        PacketModel::Pubcomp(pid) => lemma_pid_at(b, 0, pid),
        PacketModel::Subscribe(m) => lemma_subscribe_buf_roundtrip(b, 0, m, h),
        PacketModel::Suback(m) => lemma_suback_roundtrip(b, 0, m, h),
        PacketModel::Unsubscribe(m) => lemma_unsubscribe_roundtrip(b, 0, m, h),
        PacketModel::Unsuback(pid) => lemma_pid_at(b, 0, pid),
        _ => {},
    }
}

/// Reading the encoding of a well-formed packet from a stream gives the
/// packet back: fed byte by byte, the fixed header completes with the
/// packet's first byte, the length of its body and its whole length; the
/// header of those either makes the packet by itself, or has a body that is
/// not empty and that decodes, alone, to the packet.
pub proof fn lemma_packet_stream_roundtrip(p: PacketModel)
    requires
        p.wf(),
        encodable(p),
    ensures
        feed_from(
            GenericPollPacketState::<Header>::Header { control_byte: None, var_idx: 0, var_int: 0 },
            p.spec_encode(),
            0,
        ) == Ok::<HeaderProgress, Error>(
            HeaderProgress::Complete {
                control_byte: p.control_byte(),
                remaining_len: p.body().len() as u32,
                total_len: p.spec_encode().len() as u32,
            },
        ),
        spec_header(p.control_byte(), p.body().len() as u32, var_int(p.body().len()).len() as u8) matches Ok(h)
            && match h.spec_empty_packet() {
            Some(m) => m == p,
            None => p.body().len() > 0 && sp_body_buf(p.body(), 0, h) == Ok::<PacketModel, DecodeErr>(p),
        },
{
    let d = p.spec_encode();
    let body = p.body();
    let vi = var_int(body.len());
    lemma_at_whole(d);
    lemma_at_concat(d, 0, seq![p.control_byte()] + vi, body);
    lemma_at_concat(d, 0, seq![p.control_byte()], vi);
    lemma_sp_u8_at(d, 0, p.control_byte());
    lemma_sp_var_int_at(d, 1, body.len());
    lemma_var_int_len(body.len());
    lemma_feed_header_matches_decode::<Header>(d);
    assert(header_of(d) == Ok::<HeaderProgress, Error>(
        HeaderProgress::Complete {
            control_byte: p.control_byte(),
            remaining_len: body.len() as u32,
            total_len: d.len() as u32,
        },
    ));
    lemma_control_byte_header(p, body.len() as u32, vi.len() as u8);
    let h = match spec_header(p.control_byte(), body.len() as u32, vi.len() as u8) {
        Ok(h) => h,
        Err(_) => arbitrary(),
    };
    if h.spec_empty_packet() is None {
        lemma_body_alone(p, h);
    }
}

} // verus!
