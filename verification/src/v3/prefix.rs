use vstd::prelude::*;

use crate::buf::{plain, sp_bytes, sp_string, sp_u16, sp_u8, sp_var_int};
use crate::cut::{
    cut, cut_ok, cut_okp, lemma_cut_bytes, lemma_cut_plain, lemma_cut_protocol, lemma_cut_string,
    lemma_cut_u16, lemma_cut_u8, lemma_cut_var_int,
};
use crate::error::{DecodeErr, Error};
use crate::types::{sp_protocol, QoS};

use super::connect::{sp_connack, sp_connect, sp_connect_rest, sp_last_will, sp_opt_bytes, sp_opt_string};
use super::packet::{encodable, sp_body_end, sp_header, sp_packet, Header, PacketModel, PacketType};
use super::publish::{sp_payload, sp_pid, sp_publish, sp_qos_pid};
use super::subscribe::{
    sp_codes, sp_filters, sp_sub_topics, sp_suback, sp_subscribe, sp_unsubscribe,
    SubscribeReturnCode,
};

verus! {

proof fn lemma_cut_last_will(d: Seq<u8>, off: int, flags: u8, k: int)
    requires
        0 <= k <= d.len(),
    ensures
        cut_okp(sp_last_will(d, off, flags), sp_last_will(cut(d, k), off, flags), off, k),
{
    lemma_cut_string(d, off, k);
    lemma_cut_plain(sp_string(d, off), sp_string(cut(d, k), off), off, k);
    if let Ok((topic, o1)) = plain(sp_string(d, off)) {
        lemma_cut_bytes(d, o1, k);
        lemma_cut_plain(sp_bytes(d, o1), sp_bytes(cut(d, k), o1), o1, k);
    }
}

proof fn lemma_cut_opt(d: Seq<u8>, off: int, present: bool, k: int)
    requires
        0 <= k <= d.len(),
    ensures
        cut_okp(sp_opt_string(d, off, present), sp_opt_string(cut(d, k), off, present), off, k),
        cut_okp(sp_opt_bytes(d, off, present), sp_opt_bytes(cut(d, k), off, present), off, k),
{
    lemma_cut_string(d, off, k);
    lemma_cut_plain(sp_string(d, off), sp_string(cut(d, k), off), off, k);
    lemma_cut_bytes(d, off, k);
    lemma_cut_plain(sp_bytes(d, off), sp_bytes(cut(d, k), off), off, k);
}

proof fn lemma_cut_connect(d: Seq<u8>, off: int, k: int)
    requires
        0 <= k <= d.len(),
    ensures
        cut_okp(sp_connect(d, off), sp_connect(cut(d, k), off), off, k),
{
    let c = cut(d, k);
    lemma_cut_protocol(d, off, k);
    if let Ok((protocol, o0)) = sp_protocol(d, off) {
        if protocol.spec_level() <= 4 {
            lemma_cut_u8(d, o0, k);
            lemma_cut_plain(sp_u8(d, o0), sp_u8(c, o0), o0, k);
            if let Ok((flags, o1)) = plain(sp_u8(d, o0)) {
                lemma_cut_u16(d, o1, k);
                lemma_cut_plain(sp_u16(d, o1), sp_u16(c, o1), o1, k);
                if let Ok((_, o2)) = plain(sp_u16(d, o1)) {
                    lemma_cut_string(d, o2, k);
                    lemma_cut_plain(sp_string(d, o2), sp_string(c, o2), o2, k);
                    if let Ok((_, o3)) = plain(sp_string(d, o2)) {
                        lemma_cut_last_will(d, o3, flags, k);
                        if let Ok((_, o4)) = sp_last_will(d, o3, flags) {
                            lemma_cut_opt(d, o4, flags & 128 != 0, k);
                            if let Ok((_, o5)) = sp_opt_string(d, o4, flags & 128 != 0) {
                                lemma_cut_opt(d, o5, flags & 64 != 0, k);
                            }
                        }
                    }
                }
            }
        }
        assert(cut_okp(sp_connect_rest(d, o0, protocol), sp_connect_rest(c, o0, protocol), o0, k));
    }
}

pub(crate) proof fn lemma_cut_pid(d: Seq<u8>, off: int, k: int)
    requires
        0 <= k <= d.len(),
    ensures
        cut_okp(sp_pid(d, off), sp_pid(cut(d, k), off), off, k),
{
    lemma_cut_u16(d, off, k);
    lemma_cut_plain(sp_u16(d, off), sp_u16(cut(d, k), off), off, k);
}

pub(crate) proof fn lemma_cut_qos_pid(d: Seq<u8>, off: int, qos: QoS, rem: int, k: int)
    requires
        0 <= k <= d.len(),
    ensures
        cut_okp(sp_qos_pid(d, off, qos, rem), sp_qos_pid(cut(d, k), off, qos, rem), off, k),
{
    lemma_cut_u16(d, off, k);
    lemma_cut_plain(sp_u16(d, off), sp_u16(cut(d, k), off), off, k);
}

proof fn lemma_cut_publish(d: Seq<u8>, off: int, h: Header, k: int)
    requires
        0 <= k <= d.len(),
    ensures
        cut_okp(sp_publish(d, off, h), sp_publish(cut(d, k), off, h), off, k),
{
    let c = cut(d, k);
    lemma_cut_string(d, off, k);
    lemma_cut_plain(sp_string(d, off), sp_string(c, off), off, k);
    if let Ok((topic, o1)) = plain(sp_string(d, off)) {
        let rem = h.remaining_len - 2 - topic.len();
        lemma_cut_qos_pid(d, o1, h.qos, rem, k);
        if let Ok(((_, rem2), o2)) = sp_qos_pid(d, o1, h.qos, rem) {
            crate::cut::lemma_cut_raw(d, o2, rem2, k);
            lemma_cut_plain(crate::buf::sp_raw(d, o2, rem2), crate::buf::sp_raw(c, o2, rem2), o2, k);
            assert(cut_okp(sp_payload(d, o2, rem2), sp_payload(c, o2, rem2), o2, k));
        }
    }
}

proof fn lemma_cut_sub_topics(d: Seq<u8>, off: int, rem: int, acc: Seq<(Seq<u8>, QoS)>, k: int)
    requires
        0 <= k <= d.len(),
    ensures
        cut_okp(sp_sub_topics(d, off, rem, acc), sp_sub_topics(cut(d, k), off, rem, acc), off, k),
    decreases rem,
{
    let c = cut(d, k);
    if rem > 0 {
        lemma_cut_string(d, off, k);
        lemma_cut_plain(sp_string(d, off), sp_string(c, off), off, k);
        if let Ok((f, o1)) = plain(sp_string(d, off)) {
            lemma_cut_u8(d, o1, k);
            lemma_cut_plain(sp_u8(d, o1), sp_u8(c, o1), o1, k);
            if let Ok((q, o2)) = plain(sp_u8(d, o1)) {
                if let Some(qos) = QoS::spec_from_u8(q) {
                    if rem >= 3 + f.len() {
                        lemma_cut_sub_topics(d, o2, rem - 3 - f.len(), acc.push((f, qos)), k);
                    }
                }
            }
        }
    }
}

proof fn lemma_cut_codes(d: Seq<u8>, off: int, rem: int, acc: Seq<SubscribeReturnCode>, k: int)
    requires
        0 <= k <= d.len(),
    ensures
        cut_okp(sp_codes(d, off, rem, acc), sp_codes(cut(d, k), off, rem, acc), off, k),
    decreases rem,
{
    let c = cut(d, k);
    if rem > 0 {
        lemma_cut_u8(d, off, k);
        lemma_cut_plain(sp_u8(d, off), sp_u8(c, off), off, k);
        if let Ok((v, o1)) = plain(sp_u8(d, off)) {
            if let Some(code) = SubscribeReturnCode::spec_from_u8(v) {
                lemma_cut_codes(d, o1, rem - 1, acc.push(code), k);
            }
        }
    }
}

pub(crate) proof fn lemma_cut_filters(d: Seq<u8>, off: int, rem: int, acc: Seq<Seq<u8>>, k: int)
    requires
        0 <= k <= d.len(),
    ensures
        cut_okp(sp_filters(d, off, rem, acc), sp_filters(cut(d, k), off, rem, acc), off, k),
    decreases rem,
{
    let c = cut(d, k);
    if rem > 0 {
        lemma_cut_string(d, off, k);
        lemma_cut_plain(sp_string(d, off), sp_string(c, off), off, k);
        if let Ok((f, o1)) = plain(sp_string(d, off)) {
            if rem >= 2 + f.len() {
                lemma_cut_filters(d, o1, rem - 2 - f.len(), acc.push(f), k);
            }
        }
    }
}

proof fn lemma_cut_body(d: Seq<u8>, off: int, h: Header, k: int)
    requires
        0 <= k <= d.len(),
    ensures
        cut_okp(sp_body_end(d, off, h), sp_body_end(cut(d, k), off, h), off, k),
{
    let c = cut(d, k);
    match h.typ {
        PacketType::Connect => lemma_cut_connect(d, off, k),
        PacketType::Connack => {},
        PacketType::Publish => lemma_cut_publish(d, off, h, k),
        PacketType::Subscribe => {
            lemma_cut_pid(d, off, k);
            if let Ok((_, o1)) = sp_pid(d, off) {
                lemma_cut_sub_topics(d, o1, h.remaining_len - 2, Seq::empty(), k);
            }
            assert(cut_okp(sp_subscribe(d, off, h), sp_subscribe(c, off, h), off, k));
        },
        PacketType::Suback => {
            lemma_cut_pid(d, off, k);
            if let Ok((_, o1)) = sp_pid(d, off) {
                lemma_cut_codes(d, o1, h.remaining_len - 2, Seq::empty(), k);
            }
            assert(cut_okp(sp_suback(d, off, h), sp_suback(c, off, h), off, k));
        },
        PacketType::Unsubscribe => {
            lemma_cut_pid(d, off, k);
            if let Ok((_, o1)) = sp_pid(d, off) {
                lemma_cut_filters(d, o1, h.remaining_len - 2, Seq::empty(), k);
            }
            assert(cut_okp(sp_unsubscribe(d, off, h), sp_unsubscribe(c, off, h), off, k));
        },
        PacketType::Pingreq | PacketType::Pingresp | PacketType::Disconnect => {},
        _ => lemma_cut_pid(d, off, k),
    }
}

/// The decoder needs every byte of a packet's encoding: every proper prefix
/// of the encoding of a well-formed packet decodes to `None`, "not enough
/// bytes yet".
pub proof fn lemma_packet_prefix(p: PacketModel, k: int)
    requires
        p.wf(),
        encodable(p),
        0 <= k < p.spec_encode().len(),
    ensures
        sp_packet(cut(p.spec_encode(), k)) == Ok::<Option<PacketModel>, DecodeErr>(None),
{
    let d = p.spec_encode();
    let c = cut(d, k);
    super::laws::lemma_packet_parse(p, Seq::empty());
    assert(d + Seq::<u8>::empty() =~= d);
    lemma_cut_u8(d, 0, k);
    if let Ok((hd, o1)) = sp_u8(d, 0) {
        lemma_cut_var_int(d, o1, k);
    }
    assert(sp_header(c) == Err::<(Header, int), Error>(Error::eof()) || sp_header(c) == sp_header(d));
    if let Ok((h, off)) = sp_header(d) {
        lemma_cut_body(d, off, h, k);
    }
}

} // verus!
