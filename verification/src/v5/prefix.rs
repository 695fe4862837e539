use vstd::prelude::*;

use crate::buf::{sp_bytes, sp_raw, sp_string, sp_u16, sp_u32, sp_u8, sp_var_int};
use crate::cut::{
    cut, cut_ok, cut_okp, lemma_cut_bytes, lemma_cut_protocol, lemma_cut_raw, lemma_cut_string,
    lemma_cut_u16, lemma_cut_u32, lemma_cut_u8, lemma_cut_var_int,
};
use crate::error::{DecodeErr, Error, PResult};
use crate::types::{sp_protocol, QoS};
use crate::v3::prefix::{lemma_cut_filters, lemma_cut_pid, lemma_cut_qos_pid};
use crate::v3::publish::{sp_pid, sp_qos_pid};
use crate::v3::subscribe::sp_filters;

use super::codes::{SubscribeReasonCode, UnsubscribeReasonCode};
use super::connect::{
    sp_auth, sp_connack, sp_connect, sp_connect_rest, sp_disconnect, sp_last_will, sp_opt_bytes,
    sp_opt_string, sp_opt_will,
};
use super::packet::{encodable, sp_body_end, sp_packet, PacketModel};
use super::props::{sp_properties, sp_props_from, sp_value, PropsKind, PropsModel};
use super::publish::{sp_payload, sp_puback, sp_pubcomp, sp_publish, sp_pubrec, sp_pubrel};
use super::subscribe::{
    sp_entries, sp_sub_codes, sp_suback, sp_subscribe, sp_unsub_codes, sp_unsuback, sp_unsubscribe,
};
use super::types::{common, sp_header, DecodeErrV5, Header, PacketType, PropertyId, SubscriptionOptions, VResult};

verus! {

/// As `cut_ok`, for v5.0 decoders.
pub open spec fn cut_okv<T>(r: VResult<T>, c: VResult<T>, off: int, k: int) -> bool {
    r matches Ok((v, next)) ==> {
        &&& next >= off
        &&& next <= k ==> c == r
        &&& off <= k < next ==> c == Err::<(T, int), DecodeErrV5>(
            DecodeErrV5::Common(DecodeErr::Plain(Error::eof())),
        )
    }
}

proof fn lemma_cut_common<T>(r: PResult<T>, c: PResult<T>, off: int, k: int)
    requires
        cut_okp(r, c, off, k),
    ensures
        cut_okv(common(r), common(c), off, k),
{
}

proof fn lemma_cut_value(d: Seq<u8>, off: int, id: PropertyId, k: int)
    requires
        0 <= k <= d.len(),
    ensures
        cut_okv(sp_value(d, off, id), sp_value(cut(d, k), off, id), off, k),
{
    lemma_cut_u8(d, off, k);
    lemma_cut_u16(d, off, k);
    lemma_cut_u32(d, off, k);
    lemma_cut_string(d, off, k);
    lemma_cut_bytes(d, off, k);
    lemma_cut_var_int(d, off, k);
}

#[verifier::rlimit(50)]
proof fn lemma_cut_props_from(
    d: Seq<u8>,
    pos: int,
    total: nat,
    len: nat,
    m: PropsModel,
    kind: PropsKind,
    k: int,
)
    requires
        0 <= k <= d.len(),
    ensures
        cut_okv(
            sp_props_from(d, pos, total, len, m, kind),
            sp_props_from(cut(d, k), pos, total, len, m, kind),
            pos,
            k,
        ),
    decreases (if len < total { total - len } else { 0 }),
{
    reveal(sp_props_from);
    let c = cut(d, k);
    if len < total {
        lemma_cut_u8(d, pos, k);
        if let Ok((b, p1)) = sp_u8(d, pos) {
            if let Some(id) = PropertyId::spec_from_u8(b) {
                if id == PropertyId::UserProperty {
                    lemma_cut_string(d, p1, k);
                    if let Ok((name, p2)) = sp_string(d, p1) {
                        lemma_cut_string(d, p2, k);
                        if let Ok((value, p3)) = sp_string(d, p2) {
                            lemma_cut_props_from(
                                d,
                                p3,
                                total,
                                len + 5 + name.len() + value.len(),
                                m.add_user(name, value),
                                kind,
                                k,
                            );
                        }
                    }
                } else {
                    lemma_cut_value(d, p1, id, k);
                    if let Ok((v, p2)) = sp_value(d, p1, id) {
                        lemma_cut_props_from(
                            d,
                            p2,
                            total,
                            len + 1 + super::props::val_len(v),
                            m.set(id, v),
                            kind,
                            k,
                        );
                    }
                }
            }
        }
    }
}

proof fn lemma_cut_properties(d: Seq<u8>, off: int, kind: PropsKind, k: int)
    requires
        0 <= k <= d.len(),
    ensures
        cut_okv(sp_properties(d, off, kind), sp_properties(cut(d, k), off, kind), off, k),
{
    lemma_cut_var_int(d, off, k);
    if let Ok((total, p)) = sp_var_int(d, off) {
        lemma_cut_props_from(d, p, total, 0, PropsModel::empty(), kind, k);
    }
}

proof fn lemma_cut_last_will(d: Seq<u8>, off: int, qos: QoS, retain: bool, k: int)
    requires
        0 <= k <= d.len(),
    ensures
        cut_okv(sp_last_will(d, off, qos, retain), sp_last_will(cut(d, k), off, qos, retain), off, k),
{
    lemma_cut_properties(d, off, PropsKind::Will, k);
    if let Ok((_, o1)) = sp_properties(d, off, PropsKind::Will) {
        lemma_cut_string(d, o1, k);
        if let Ok((_, o2)) = sp_string(d, o1) {
            lemma_cut_bytes(d, o2, k);
        }
    }
}

proof fn lemma_cut_opt_will(d: Seq<u8>, off: int, flags: u8, k: int)
    requires
        0 <= k <= d.len(),
    ensures
        cut_okv(sp_opt_will(d, off, flags), sp_opt_will(cut(d, k), off, flags), off, k),
{
    if let Some(qos) = QoS::spec_from_u8((flags & 24) >> 3u8) {
        lemma_cut_last_will(d, off, qos, flags & 32 != 0, k);
    }
}

proof fn lemma_cut_opt(d: Seq<u8>, off: int, present: bool, k: int)
    requires
        0 <= k <= d.len(),
    ensures
        cut_okv(sp_opt_string(d, off, present), sp_opt_string(cut(d, k), off, present), off, k),
        cut_okv(sp_opt_bytes(d, off, present), sp_opt_bytes(cut(d, k), off, present), off, k),
{
    lemma_cut_string(d, off, k);
    lemma_cut_bytes(d, off, k);
}

#[verifier::rlimit(50)]
proof fn lemma_cut_connect(d: Seq<u8>, off: int, k: int)
    requires
        0 <= k <= d.len(),
    ensures
        cut_okv(sp_connect(d, off), sp_connect(cut(d, k), off), off, k),
{
    let c = cut(d, k);
    lemma_cut_protocol(d, off, k);
    lemma_cut_common(sp_protocol(d, off), sp_protocol(c, off), off, k);
    if let Ok((protocol, o0)) = common(sp_protocol(d, off)) {
        lemma_cut_u8(d, o0, k);
        if let Ok((flags, o1)) = sp_u8(d, o0) {
            lemma_cut_u16(d, o1, k);
            if let Ok((_, o2)) = sp_u16(d, o1) {
                lemma_cut_properties(d, o2, PropsKind::Connect, k);
                if let Ok((_, o3)) = sp_properties(d, o2, PropsKind::Connect) {
                    lemma_cut_string(d, o3, k);
                    if let Ok((_, o4)) = sp_string(d, o3) {
                        lemma_cut_opt_will(d, o4, flags, k);
                        if let Ok((_, o5)) = sp_opt_will(d, o4, flags) {
                            lemma_cut_opt(d, o5, flags & 128 != 0, k);
                            if let Ok((_, o6)) = sp_opt_string(d, o5, flags & 128 != 0) {
                                lemma_cut_opt(d, o6, flags & 64 != 0, k);
                            }
                        }
                    }
                }
            }
        }
        assert(cut_okv(sp_connect_rest(d, o0, protocol), sp_connect_rest(c, o0, protocol), o0, k));
    }
}

proof fn lemma_cut_connack(d: Seq<u8>, off: int, h: Header, k: int)
    requires
        0 <= k <= d.len(),
    ensures
        cut_okv(sp_connack(d, off, h), sp_connack(cut(d, k), off, h), off, k),
{
    lemma_cut_raw(d, off, 2, k);
    if let Ok((_, o1)) = sp_raw(d, off, 2) {
        lemma_cut_properties(d, o1, PropsKind::Connack, k);
    }
}

proof fn lemma_cut_disconnect_auth(d: Seq<u8>, off: int, h: Header, k: int)
    requires
        0 <= k <= d.len(),
    ensures
        cut_okv(sp_disconnect(d, off, h), sp_disconnect(cut(d, k), off, h), off, k),
        cut_okv(sp_auth(d, off, h), sp_auth(cut(d, k), off, h), off, k),
{
    lemma_cut_u8(d, off, k);
    if let Ok((_, o1)) = sp_u8(d, off) {
        lemma_cut_properties(d, o1, PropsKind::Disconnect, k);
        lemma_cut_properties(d, o1, PropsKind::Auth, k);
    }
}

#[verifier::rlimit(50)]
proof fn lemma_cut_publish(d: Seq<u8>, off: int, h: Header, k: int)
    requires
        0 <= k <= d.len(),
    ensures
        cut_okv(sp_publish(d, off, h), sp_publish(cut(d, k), off, h), off, k),
{
    let c = cut(d, k);
    lemma_cut_string(d, off, k);
    if let Ok((topic, o1)) = sp_string(d, off) {
        let rem0 = h.remaining_len - 2 - topic.len();
        lemma_cut_qos_pid(d, o1, h.qos, rem0, k);
        lemma_cut_common(sp_qos_pid(d, o1, h.qos, rem0), sp_qos_pid(c, o1, h.qos, rem0), o1, k);
        if let Ok(((_, rem), o2)) = common(sp_qos_pid(d, o1, h.qos, rem0)) {
            lemma_cut_properties(d, o2, PropsKind::Publish, k);
            if let Ok(((props, total, _), o3)) = sp_properties(d, o2, PropsKind::Publish) {
                let prem = rem - total - crate::codec::var_int_size(total);
                lemma_cut_raw(d, o3, prem, k);
                assert(cut_okv(sp_payload(d, o3, prem, props), sp_payload(c, o3, prem, props), o3, k));
            }
        }
    }
}

proof fn lemma_cut_acks(d: Seq<u8>, off: int, h: Header, k: int)
    requires
        0 <= k <= d.len(),
    ensures
        cut_okv(sp_puback(d, off, h), sp_puback(cut(d, k), off, h), off, k),
        cut_okv(sp_pubrec(d, off, h), sp_pubrec(cut(d, k), off, h), off, k),
        cut_okv(sp_pubrel(d, off, h), sp_pubrel(cut(d, k), off, h), off, k),
        cut_okv(sp_pubcomp(d, off, h), sp_pubcomp(cut(d, k), off, h), off, k),
{
    let c = cut(d, k);
    lemma_cut_pid(d, off, k);
    lemma_cut_common(sp_pid(d, off), sp_pid(c, off), off, k);
    if let Ok((_, o1)) = common(sp_pid(d, off)) {
        lemma_cut_u8(d, o1, k);
        if let Ok((_, o2)) = sp_u8(d, o1) {
            lemma_cut_properties(d, o2, PropsKind::Puback, k);
            lemma_cut_properties(d, o2, PropsKind::Pubrec, k);
            lemma_cut_properties(d, o2, PropsKind::Pubrel, k);
            lemma_cut_properties(d, o2, PropsKind::Pubcomp, k);
        }
    }
}

proof fn lemma_cut_entries(
    d: Seq<u8>,
    off: int,
    rem: int,
    acc: Seq<(Seq<u8>, SubscriptionOptions)>,
    k: int,
)
    requires
        0 <= k <= d.len(),
    ensures
        cut_okv(sp_entries(d, off, rem, acc), sp_entries(cut(d, k), off, rem, acc), off, k),
    decreases rem,
{
    if rem > 0 {
        lemma_cut_string(d, off, k);
        if let Ok((f, o1)) = sp_string(d, off) {
            lemma_cut_u8(d, o1, k);
            if let Ok((b, o2)) = sp_u8(d, o1) {
                if let Some(opts) = SubscriptionOptions::spec_from_u8(b) {
                    if rem >= 3 + f.len() {
                        lemma_cut_entries(d, o2, rem - 3 - f.len(), acc.push((f, opts)), k);
                    }
                }
            }
        }
    }
}

proof fn lemma_cut_sub_codes(
    d: Seq<u8>,
    off: int,
    rem: int,
    acc: Seq<SubscribeReasonCode>,
    h: Header,
    k: int,
)
    requires
        0 <= k <= d.len(),
    ensures
        cut_okv(sp_sub_codes(d, off, rem, acc, h), sp_sub_codes(cut(d, k), off, rem, acc, h), off, k),
    decreases rem,
{
    if rem > 0 {
        lemma_cut_u8(d, off, k);
        if let Ok((v, o1)) = sp_u8(d, off) {
            if let Some(code) = SubscribeReasonCode::spec_from_u8(v) {
                lemma_cut_sub_codes(d, o1, rem - 1, acc.push(code), h, k);
            }
        }
    }
}

proof fn lemma_cut_unsub_codes(
    d: Seq<u8>,
    off: int,
    rem: int,
    acc: Seq<UnsubscribeReasonCode>,
    h: Header,
    k: int,
)
    requires
        0 <= k <= d.len(),
    ensures
        cut_okv(
            sp_unsub_codes(d, off, rem, acc, h),
            sp_unsub_codes(cut(d, k), off, rem, acc, h),
            off,
            k,
        ),
    decreases rem,
{
    if rem > 0 {
        lemma_cut_u8(d, off, k);
        if let Ok((v, o1)) = sp_u8(d, off) {
            if let Some(code) = UnsubscribeReasonCode::spec_from_u8(v) {
                lemma_cut_unsub_codes(d, o1, rem - 1, acc.push(code), h, k);
            }
        }
    }
}

#[verifier::rlimit(50)]
proof fn lemma_cut_subscribe_family(d: Seq<u8>, off: int, h: Header, k: int)
    requires
        0 <= k <= d.len(),
    ensures
        cut_okv(sp_subscribe(d, off, h), sp_subscribe(cut(d, k), off, h), off, k),
        cut_okv(sp_suback(d, off, h), sp_suback(cut(d, k), off, h), off, k),
        cut_okv(sp_unsubscribe(d, off, h), sp_unsubscribe(cut(d, k), off, h), off, k),
        cut_okv(sp_unsuback(d, off, h), sp_unsuback(cut(d, k), off, h), off, k),
{
    let c = cut(d, k);
    lemma_cut_pid(d, off, k);
    lemma_cut_common(sp_pid(d, off), sp_pid(c, off), off, k);
    if let Ok((_, o1)) = common(sp_pid(d, off)) {
        lemma_cut_properties(d, o1, PropsKind::Subscribe, k);
        if let Ok(((_, total, _), o2)) = sp_properties(d, o1, PropsKind::Subscribe) {
            let rem = h.remaining_len - 2 - total - crate::codec::var_int_size(total);
            lemma_cut_entries(d, o2, rem, Seq::empty(), k);
        }
        lemma_cut_properties(d, o1, PropsKind::Suback, k);
        if let Ok(((_, total, _), o2)) = sp_properties(d, o1, PropsKind::Suback) {
            let rem = h.remaining_len - 2 - total - crate::codec::var_int_size(total);
            lemma_cut_sub_codes(d, o2, rem, Seq::empty(), h, k);
        }
        lemma_cut_properties(d, o1, PropsKind::Unsubscribe, k);
        if let Ok(((_, total, nb), o2)) = sp_properties(d, o1, PropsKind::Unsubscribe) {
            let rem = h.remaining_len - 2 - nb - total;
            lemma_cut_filters(d, o2, rem, Seq::empty(), k);
            lemma_cut_common(sp_filters(d, o2, rem, Seq::empty()), sp_filters(c, o2, rem, Seq::empty()), o2, k);
        }
        lemma_cut_properties(d, o1, PropsKind::Unsuback, k);
        if let Ok(((_, total, _), o2)) = sp_properties(d, o1, PropsKind::Unsuback) {
            let rem = h.remaining_len - 2 - total - crate::codec::var_int_size(total);
            lemma_cut_unsub_codes(d, o2, rem, Seq::empty(), h, k);
        }
    }
}

#[verifier::rlimit(50)]
proof fn lemma_cut_body(d: Seq<u8>, off: int, h: Header, k: int)
    requires
        0 <= k <= d.len(),
    ensures
        cut_okv(sp_body_end(d, off, h), sp_body_end(cut(d, k), off, h), off, k),
{
    reveal(sp_body_end);
    match h.typ {
        PacketType::Connect => lemma_cut_connect(d, off, k),
        PacketType::Connack => lemma_cut_connack(d, off, h, k),
        PacketType::Publish => lemma_cut_publish(d, off, h, k),
        PacketType::Puback | PacketType::Pubrec | PacketType::Pubrel | PacketType::Pubcomp => {
            lemma_cut_acks(d, off, h, k)
        },
        PacketType::Subscribe | PacketType::Suback | PacketType::Unsubscribe | PacketType::Unsuback => {
            lemma_cut_subscribe_family(d, off, h, k)
        },
        PacketType::Disconnect | PacketType::Auth => lemma_cut_disconnect_auth(d, off, h, k),
        _ => {},
    }
}

/// The decoder needs every byte of a packet's encoding: every proper prefix
/// of the encoding of a well-formed packet decodes to `None`, "not enough
/// bytes yet".
pub proof fn lemma_packet_prefix(p: PacketModel, k: int)
    requires
        p.wf(),
        encodable(p),
        0 <= k < p.spec_encode().len(),
    ensures
        sp_packet(cut(p.spec_encode(), k)) == Ok::<Option<PacketModel>, DecodeErrV5>(None),
{
    let d = p.spec_encode();
    super::packet_laws::lemma_packet_parse(p, Seq::empty());
    assert(d + Seq::<u8>::empty() =~= d);
    lemma_cut_u8(d, 0, k);
    if let Ok((hd, o1)) = sp_u8(d, 0) {
        lemma_cut_var_int(d, o1, k);
    }
    if let Ok((h, off)) = sp_header(d, 0) {
        lemma_cut_body(d, off, h, k);
    }
}

} // verus!
