use vstd::prelude::*;

use crate::buf::{sp_string, sp_u8, PacketBuf};
use crate::codec::{be16, field, lemma_var_int_len, var_int_len, var_int_size, write_bytes, write_u16, write_u8};
use crate::error::{DecodeErr, Error};
use crate::topic::{topic_filter_valid, TopicFilter};
use crate::types::Pid;
use crate::v3::publish::{read_pid, sp_pid};
use crate::v3::subscribe::{filters_bytes, lemma_filters_prefix_len, sp_filters};

use super::codes::{SubscribeReasonCode, UnsubscribeReasonCode};
use super::connect::props_fit;
use super::props::{
    decode_properties, lemma_restricted, props_encode, sp_properties, PropsKind, PropsModel,
    SubackProperties, SubscribeProperties, UnsubackProperties, UnsubscribeProperties,
};
use super::types::{cerr, common, v5err, DecodeErrV5, ErrorV5, Header, SubscriptionOptions, VResult};

verus! {

/// Subscribe packet body.
#[derive(Debug, Clone, PartialEq, Eq)]
pub struct Subscribe {
    pub pid: Pid,
    pub properties: SubscribeProperties,
    pub topics: Vec<(TopicFilter, SubscriptionOptions)>,
}

/// A subscribe packet body as values.
pub struct SubscribeModel {
    pub pid: Pid,
    pub properties: PropsModel,
    pub topics: Seq<(Seq<u8>, SubscriptionOptions)>,
}

impl View for Subscribe {
    type V = SubscribeModel;

    open spec fn view(&self) -> SubscribeModel {
        SubscribeModel {
            pid: self.pid,
            properties: self.properties@,
            topics: self.topics@.map_values(
                |t: (TopicFilter, SubscriptionOptions)| (t.0.bytes(), t.1),
            ),
        }
    }
}

/// The encoding of subscription entries: filter, then options byte.
pub open spec fn entries_bytes(topics: Seq<(Seq<u8>, SubscriptionOptions)>) -> Seq<u8>
    decreases topics.len(),
{
    if topics.len() == 0 {
        Seq::empty()
    } else {
        entries_bytes(topics.drop_last()) + field(topics.last().0) + seq![
            topics.last().1.spec_u8(),
        ]
    }
}

proof fn lemma_entries_prefix_len(topics: Seq<(Seq<u8>, SubscriptionOptions)>, n: int)
    requires
        0 <= n <= topics.len(),
    ensures
        entries_bytes(topics.subrange(0, n)).len() <= entries_bytes(topics).len(),
    decreases topics.len(),
{
    if n < topics.len() {
        assert(topics.drop_last().subrange(0, n) =~= topics.subrange(0, n));
        lemma_entries_prefix_len(topics.drop_last(), n);
    } else {
        assert(topics.subrange(0, n) =~= topics);
    }
}

impl SubscribeModel {
    /// The encoding: packet identifier, properties, entries.
    pub open spec fn spec_encode(self) -> Seq<u8> {
        be16(self.pid.id() as int) + props_encode(self.properties, SubscribeProperties::fields_order())
            + entries_bytes(self.topics)
    }

    /// Whether the properties can be encoded.
    pub open spec fn encodable(self) -> bool {
        props_fit(self.properties, SubscribeProperties::fields_order())
    }
}

/// Decodes subscription entries while the remaining length lasts.
pub open spec fn sp_entries(
    d: Seq<u8>,
    off: int,
    rem: int,
    acc: Seq<(Seq<u8>, SubscriptionOptions)>,
) -> VResult<Seq<(Seq<u8>, SubscriptionOptions)>>
    decreases rem,
{
    if rem <= 0 {
        Ok((acc, off))
    } else {
        match sp_string(d, off) {
            Err(e) => cerr(e),
            Ok((f, o1)) => if !topic_filter_valid(f) {
                Err(DecodeErrV5::Common(DecodeErr::TopicFilter(f)))
            } else {
                match sp_u8(d, o1) {
                    Err(e) => cerr(e),
                    Ok((b, o2)) => match SubscriptionOptions::spec_from_u8(b) {
                        None => v5err(ErrorV5::InvalidSubscriptionOption(b)),
                        Some(opts) => if rem < 3 + f.len() {
                            cerr(Error::InvalidRemainingLength)
                        } else {
                            sp_entries(d, o2, rem - 3 - f.len(), acc.push((f, opts)))
                        },
                    },
                }
            },
        }
    }
}

/// Decodes a subscribe body of the given header. The properties take from
/// the remaining length their length as the encoder writes it.
pub open spec fn sp_subscribe(d: Seq<u8>, off: int, header: Header) -> VResult<SubscribeModel> {
    match common(sp_pid(d, off)) {
        Err(e) => Err(e),
        Ok((pid, o1)) => match sp_properties(d, o1, PropsKind::Subscribe) {
            Err(e) => Err(e),
            Ok(((properties, total, _), o2)) => if header.remaining_len < 2 + total + var_int_size(
                total,
            ) {
                cerr(Error::InvalidRemainingLength)
            } else if header.remaining_len == 2 + total + var_int_size(total) {
                cerr(Error::EmptySubscription)
            } else {
                match sp_entries(
                    d,
                    o2,
                    header.remaining_len - 2 - total - var_int_size(total),
                    Seq::empty(),
                ) {
                    Err(e) => Err(e),
                    Ok((topics, o3)) => Ok((SubscribeModel { pid, properties, topics }, o3)),
                }
            },
        },
    }
}

impl Subscribe {
    /// A subscribe packet without properties.
    pub fn new(pid: Pid, topics: Vec<(TopicFilter, SubscriptionOptions)>) -> (r: Self)
        ensures
            r.pid == pid,
            r.properties@ == PropsModel::empty(),
            r.topics == topics,
    {
        Subscribe { pid, properties: SubscribeProperties::default(), topics }
    }

    /// Decodes a subscribe body.
    pub fn decode(buf: &mut PacketBuf, header: Header) -> (r: Result<Self, ErrorV5>)
        ensures
            final(buf).bytes() == old(buf).bytes(),
            match sp_subscribe(old(buf).bytes(), old(buf).pos(), header) {
                Ok((m, next)) => r matches Ok(p) && p@ == m && final(buf).pos() == next,
                Err(e) => r matches Err(x) && x.is(e),
            },
    {
        let pid = match read_pid(buf) {
            Ok(p) => p,
            Err(e) => return Err(ErrorV5::Common(e)),
        };
        let ghost p0 = buf.pos();
        let (set, total, _) = decode_properties(buf, PropsKind::Subscribe)?;
        proof {
            lemma_restricted(buf.bytes(), p0, PropsKind::Subscribe);
            lemma_var_int_len(total as nat);
        }
        let properties = SubscribeProperties::from_set(set);
        let props_len = 2 + total as usize + var_int_len(total as usize).unwrap();
        let mut remaining_len = header.remaining_len as usize;
        if remaining_len < props_len {
            return Err(ErrorV5::Common(Error::InvalidRemainingLength));
        }
        remaining_len = remaining_len - props_len;
        if remaining_len == 0 {
            return Err(ErrorV5::Common(Error::EmptySubscription));
        }
        let ghost d = buf.bytes();
        let mut topics: Vec<(TopicFilter, SubscriptionOptions)> = Vec::new();
        assert(topics@.map_values(|t: (TopicFilter, SubscriptionOptions)| (t.0.bytes(), t.1))
            =~= Seq::empty());
        while remaining_len > 0
            invariant
                buf.bytes() == d,
                d == old(buf).bytes(),
                sp_subscribe(d, old(buf).pos(), header) == match sp_entries(
                    d,
                    buf.pos(),
                    remaining_len as int,
                    topics@.map_values(|t: (TopicFilter, SubscriptionOptions)| (t.0.bytes(), t.1)),
                ) {
                    Ok((t, o)) => Ok::<(SubscribeModel, int), DecodeErrV5>(
                        (SubscribeModel { pid, properties: properties@, topics: t }, o),
                    ),
                    Err(e) => Err(e),
                },
            decreases remaining_len,
        {
            let ghost acc = topics@.map_values(
                |t: (TopicFilter, SubscriptionOptions)| (t.0.bytes(), t.1),
            );
            let topic = match buf.read_string() {
                Ok(s) => s,
                Err(e) => return Err(ErrorV5::Common(e)),
            };
            let topic_filter = match TopicFilter::from_str(topic) {
                Ok(t) => t,
                Err(e) => return Err(ErrorV5::Common(e)),
            };
            proof {
                topic_filter.lemma_bytes();
            }
            let b = match buf.read_u8() {
                Ok(b) => b,
                Err(e) => return Err(ErrorV5::Common(e)),
            };
            let options = SubscriptionOptions::from_u8(b)?;
            let filter_len = topic_filter.len();
            if remaining_len < 3 || remaining_len - 3 < filter_len {
                return Err(ErrorV5::Common(Error::InvalidRemainingLength));
            }
            remaining_len = remaining_len - 3 - filter_len;
            topics.push((topic_filter, options));
            proof {
                assert(topics@.map_values(
                    |t: (TopicFilter, SubscriptionOptions)| (t.0.bytes(), t.1),
                ) =~= acc.push((topic_filter.bytes(), options)));
            }
        }
        Ok(Subscribe { pid, properties, topics })
    }

    /// Appends the encoding of the body.
    pub fn encode(&self, buf: &mut Vec<u8>)
        requires
            self@.encodable(),
        ensures
            final(buf)@ == old(buf)@ + self@.spec_encode(),
    {
        let ghost start = buf@;
        write_u16(buf, self.pid.value());
        self.properties.encode(buf);
        let ghost b1 = buf@;
        let mut i: usize = 0;
        while i < self.topics.len()
            invariant
                i <= self.topics@.len(),
                buf@ == b1 + entries_bytes(self@.topics.subrange(0, i as int)),
            decreases self.topics.len() - i,
        {
            let (topic_filter, options) = &self.topics[i];
            write_bytes(buf, topic_filter.as_bytes());
            write_u8(buf, options.to_u8());
            proof {
                let s = self@.topics.subrange(0, i + 1);
                assert(s.drop_last() =~= self@.topics.subrange(0, i as int));
            }
            i += 1;
        }
        assert(self@.topics.subrange(0, i as int) =~= self@.topics);
        assert(buf@ =~= start + self@.spec_encode());
    }

    /// The encoded length of the body.
    pub fn encode_len(&self) -> (r: usize)
        requires
            self@.encodable(),
            self@.spec_encode().len() <= usize::MAX,
        ensures
            r == self@.spec_encode().len(),
    {
        let mut len: usize = 2 + self.properties.encode_len();
        let ghost base = len;
        let mut i: usize = 0;
        while i < self.topics.len()
            invariant
                i <= self.topics@.len(),
                self@.spec_encode().len() <= usize::MAX,
                base == 2 + props_encode(self@.properties, SubscribeProperties::fields_order()).len(),
                len == base + entries_bytes(self@.topics.subrange(0, i as int)).len(),
            decreases self.topics.len() - i,
        {
            proof {
                let s = self@.topics.subrange(0, i + 1);
                assert(s.drop_last() =~= self@.topics.subrange(0, i as int));
                lemma_entries_prefix_len(self@.topics, i + 1);
            }
            len = len + 3 + self.topics[i].0.len();
            i += 1;
        }
        assert(self@.topics.subrange(0, i as int) =~= self@.topics);
        len
    }
}

/// Suback packet body.
#[derive(Debug, Clone, PartialEq, Eq)]
pub struct Suback {
    pub pid: Pid,
    pub properties: SubackProperties,
    pub topics: Vec<SubscribeReasonCode>,
}

/// A suback packet body as values.
pub struct SubackModel {
    pub pid: Pid,
    pub properties: PropsModel,
    pub topics: Seq<SubscribeReasonCode>,
}

impl View for Suback {
    type V = SubackModel;

    open spec fn view(&self) -> SubackModel {
        SubackModel { pid: self.pid, properties: self.properties@, topics: self.topics@ }
    }
}

impl SubackModel {
    /// The encoding: packet identifier, properties, one byte per code.
    pub open spec fn spec_encode(self) -> Seq<u8> {
        be16(self.pid.id() as int) + props_encode(self.properties, SubackProperties::fields_order())
            + self.topics.map_values(|c: SubscribeReasonCode| c.spec_u8())
    }

    /// Whether the properties can be encoded.
    pub open spec fn encodable(self) -> bool {
        props_fit(self.properties, SubackProperties::fields_order())
    }
}

/// Decodes subscribe reason codes while the remaining length lasts.
pub open spec fn sp_sub_codes(
    d: Seq<u8>,
    off: int,
    rem: int,
    acc: Seq<SubscribeReasonCode>,
    header: Header,
) -> VResult<Seq<SubscribeReasonCode>>
    decreases rem,
{
    if rem <= 0 {
        Ok((acc, off))
    } else {
        match sp_u8(d, off) {
            Err(e) => cerr(e),
            Ok((v, o1)) => match SubscribeReasonCode::spec_from_u8(v) {
                None => v5err(ErrorV5::InvalidReasonCode(header.typ, v)),
                Some(c) => sp_sub_codes(d, o1, rem - 1, acc.push(c), header),
            },
        }
    }
}

/// Decodes a suback body of the given header.
pub open spec fn sp_suback(d: Seq<u8>, off: int, header: Header) -> VResult<SubackModel> {
    match common(sp_pid(d, off)) {
        Err(e) => Err(e),
        Ok((pid, o1)) => match sp_properties(d, o1, PropsKind::Suback) {
            Err(e) => Err(e),
            Ok(((properties, total, _), o2)) => if header.remaining_len < 2 + total + var_int_size(
                total,
            ) {
                cerr(Error::InvalidRemainingLength)
            } else {
                match sp_sub_codes(
                    d,
                    o2,
                    header.remaining_len - 2 - total - var_int_size(total),
                    Seq::empty(),
                    header,
                ) {
                    Err(e) => Err(e),
                    Ok((topics, o3)) => Ok((SubackModel { pid, properties, topics }, o3)),
                }
            },
        },
    }
}

impl Suback {
    /// A suback packet without properties.
    pub fn new(pid: Pid, topics: Vec<SubscribeReasonCode>) -> (r: Self)
        ensures
            r.pid == pid,
            r.properties@ == PropsModel::empty(),
            r.topics == topics,
    {
        Suback { pid, properties: SubackProperties::default(), topics }
    }

    /// Decodes a suback body.
    pub fn decode(buf: &mut PacketBuf, header: Header) -> (r: Result<Self, ErrorV5>)
        ensures
            final(buf).bytes() == old(buf).bytes(),
            match sp_suback(old(buf).bytes(), old(buf).pos(), header) {
                Ok((m, next)) => r matches Ok(p) && p@ == m && final(buf).pos() == next,
                Err(e) => r matches Err(x) && x.is(e),
            },
    {
        let pid = match read_pid(buf) {
            Ok(p) => p,
            Err(e) => return Err(ErrorV5::Common(e)),
        };
        let ghost p0 = buf.pos();
        let (set, total, _) = decode_properties(buf, PropsKind::Suback)?;
        proof {
            lemma_restricted(buf.bytes(), p0, PropsKind::Suback);
            lemma_var_int_len(total as nat);
        }
        let properties = SubackProperties::from_set(set);
        let props_len = 2 + total as usize + var_int_len(total as usize).unwrap();
        let mut remaining_len = header.remaining_len as usize;
        if remaining_len < props_len {
            return Err(ErrorV5::Common(Error::InvalidRemainingLength));
        }
        remaining_len = remaining_len - props_len;
        let ghost d = buf.bytes();
        let mut topics: Vec<SubscribeReasonCode> = Vec::new();
        while remaining_len > 0
            invariant
                buf.bytes() == d,
                d == old(buf).bytes(),
                sp_suback(d, old(buf).pos(), header) == match sp_sub_codes(
                    d,
                    buf.pos(),
                    remaining_len as int,
                    topics@,
                    header,
                ) {
                    Ok((t, o)) => Ok::<(SubackModel, int), DecodeErrV5>(
                        (SubackModel { pid, properties: properties@, topics: t }, o),
                    ),
                    Err(e) => Err(e),
                },
            decreases remaining_len,
        {
            let value = match buf.read_u8() {
                Ok(v) => v,
                Err(e) => return Err(ErrorV5::Common(e)),
            };
            let code = match SubscribeReasonCode::from_u8(value) {
                Some(c) => c,
                None => return Err(ErrorV5::InvalidReasonCode(header.typ, value)),
            };
            topics.push(code);
            remaining_len -= 1;
        }
        Ok(Suback { pid, properties, topics })
    }

    /// Appends the encoding of the body.
    pub fn encode(&self, buf: &mut Vec<u8>)
        requires
            self@.encodable(),
        ensures
            final(buf)@ == old(buf)@ + self@.spec_encode(),
    {
        let ghost start = buf@;
        write_u16(buf, self.pid.value());
        self.properties.encode(buf);
        let ghost b1 = buf@;
        let mut i: usize = 0;
        while i < self.topics.len()
            invariant
                i <= self.topics@.len(),
                buf@ == b1 + self.topics@.subrange(0, i as int).map_values(
                    |c: SubscribeReasonCode| c.spec_u8(),
                ),
            decreases self.topics.len() - i,
        {
            write_u8(buf, self.topics[i].to_u8());
            proof {
                assert(self.topics@.subrange(0, i + 1).map_values(
                    |c: SubscribeReasonCode| c.spec_u8(),
                ) =~= self.topics@.subrange(0, i as int).map_values(
                    |c: SubscribeReasonCode| c.spec_u8(),
                ).push(self.topics@[i as int].spec_u8()));
            }
            i += 1;
        }
        assert(self.topics@.subrange(0, i as int) =~= self.topics@);
        assert(buf@ =~= start + self@.spec_encode());
    }

    /// The encoded length of the body.
    pub fn encode_len(&self) -> (r: usize)
        requires
            self@.encodable(),
            self@.spec_encode().len() <= usize::MAX,
        ensures
            r == self@.spec_encode().len(),
    {
        2 + self.properties.encode_len() + self.topics.len()
    }
}

/// Unsubscribe packet body.
#[derive(Debug, Clone, PartialEq, Eq)]
pub struct Unsubscribe {
    pub pid: Pid,
    pub properties: UnsubscribeProperties,
    pub topics: Vec<TopicFilter>,
}

/// An unsubscribe packet body as values.
pub struct UnsubscribeModel {
    pub pid: Pid,
    pub properties: PropsModel,
    pub topics: Seq<Seq<u8>>,
}

impl View for Unsubscribe {
    type V = UnsubscribeModel;

    open spec fn view(&self) -> UnsubscribeModel {
        UnsubscribeModel {
            pid: self.pid,
            properties: self.properties@,
            topics: self.topics@.map_values(|t: TopicFilter| t.bytes()),
        }
    }
}

impl UnsubscribeModel {
    /// The encoding: packet identifier, properties, filters.
    pub open spec fn spec_encode(self) -> Seq<u8> {
        be16(self.pid.id() as int) + props_encode(
            self.properties,
            UnsubscribeProperties::fields_order(),
        ) + filters_bytes(self.topics)
    }

    /// Whether the properties can be encoded.
    pub open spec fn encodable(self) -> bool {
        props_fit(self.properties, UnsubscribeProperties::fields_order())
    }
}

/// Decodes an unsubscribe body of the given header. The properties take from
/// the remaining length their length and the bytes that the length took.
pub open spec fn sp_unsubscribe(d: Seq<u8>, off: int, header: Header) -> VResult<UnsubscribeModel> {
    match common(sp_pid(d, off)) {
        Err(e) => Err(e),
        Ok((pid, o1)) => match sp_properties(d, o1, PropsKind::Unsubscribe) {
            Err(e) => Err(e),
            Ok(((properties, total, nb), o2)) => if header.remaining_len < 2 + nb + total {
                cerr(Error::InvalidRemainingLength)
            } else if header.remaining_len == 2 + nb + total {
                cerr(Error::EmptySubscription)
            } else {
                match common(
                    sp_filters(d, o2, header.remaining_len - 2 - nb - total, Seq::empty()),
                ) {
                    Err(e) => Err(e),
                    Ok((topics, o3)) => Ok((UnsubscribeModel { pid, properties, topics }, o3)),
                }
            },
        },
    }
}

impl Unsubscribe {
    /// An unsubscribe packet without properties.
    pub fn new(pid: Pid, topics: Vec<TopicFilter>) -> (r: Self)
        ensures
            r.pid == pid,
            r.properties@ == PropsModel::empty(),
            r.topics == topics,
    {
        Unsubscribe { pid, properties: UnsubscribeProperties::default(), topics }
    }

    /// Decodes an unsubscribe body.
    pub fn decode(buf: &mut PacketBuf, header: Header) -> (r: Result<Self, ErrorV5>)
        ensures
            final(buf).bytes() == old(buf).bytes(),
            match sp_unsubscribe(old(buf).bytes(), old(buf).pos(), header) {
                Ok((m, next)) => r matches Ok(p) && p@ == m && final(buf).pos() == next,
                Err(e) => r matches Err(x) && x.is(e),
            },
    {
        let pid = match read_pid(buf) {
            Ok(p) => p,
            Err(e) => return Err(ErrorV5::Common(e)),
        };
        let ghost p0 = buf.pos();
        let (set, total, nbytes) = decode_properties(buf, PropsKind::Unsubscribe)?;
        proof {
            lemma_restricted(buf.bytes(), p0, PropsKind::Unsubscribe);
        }
        let properties = UnsubscribeProperties::from_set(set);
        let mut remaining_len = header.remaining_len as usize;
        if remaining_len < 2 || remaining_len - 2 < nbytes || remaining_len - 2 - nbytes
            < total as usize {
            return Err(ErrorV5::Common(Error::InvalidRemainingLength));
        }
        remaining_len = remaining_len - 2 - nbytes - total as usize;
        if remaining_len == 0 {
            return Err(ErrorV5::Common(Error::EmptySubscription));
        }
        let ghost d = buf.bytes();
        let mut topics: Vec<TopicFilter> = Vec::new();
        assert(topics@.map_values(|t: TopicFilter| t.bytes()) =~= Seq::empty());
        while remaining_len > 0
            invariant
                buf.bytes() == d,
                d == old(buf).bytes(),
                sp_unsubscribe(d, old(buf).pos(), header) == match common(
                    sp_filters(
                        d,
                        buf.pos(),
                        remaining_len as int,
                        topics@.map_values(|t: TopicFilter| t.bytes()),
                    ),
                ) {
                    Ok((t, o)) => Ok::<(UnsubscribeModel, int), DecodeErrV5>(
                        (UnsubscribeModel { pid, properties: properties@, topics: t }, o),
                    ),
                    Err(e) => Err(e),
                },
            decreases remaining_len,
        {
            let ghost acc = topics@.map_values(|t: TopicFilter| t.bytes());
            let topic = match buf.read_string() {
                Ok(s) => s,
                Err(e) => return Err(ErrorV5::Common(e)),
            };
            let topic_filter = match TopicFilter::from_str(topic) {
                Ok(t) => t,
                Err(e) => return Err(ErrorV5::Common(e)),
            };
            proof {
                topic_filter.lemma_bytes();
            }
            let filter_len = topic_filter.len();
            if remaining_len < 2 || remaining_len - 2 < filter_len {
                return Err(ErrorV5::Common(Error::InvalidRemainingLength));
            }
            remaining_len = remaining_len - 2 - filter_len;
            topics.push(topic_filter);
            proof {
                assert(topics@.map_values(|t: TopicFilter| t.bytes()) =~= acc.push(
                    topic_filter.bytes(),
                ));
            }
        }
        Ok(Unsubscribe { pid, properties, topics })
    }

    /// Appends the encoding of the body.
    pub fn encode(&self, buf: &mut Vec<u8>)
        requires
            self@.encodable(),
        ensures
            final(buf)@ == old(buf)@ + self@.spec_encode(),
    {
        let ghost start = buf@;
        write_u16(buf, self.pid.value());
        self.properties.encode(buf);
        let ghost b1 = buf@;
        let mut i: usize = 0;
        while i < self.topics.len()
            invariant
                i <= self.topics@.len(),
                buf@ == b1 + filters_bytes(self@.topics.subrange(0, i as int)),
            decreases self.topics.len() - i,
        {
            write_bytes(buf, self.topics[i].as_bytes());
            proof {
                let s = self@.topics.subrange(0, i + 1);
                assert(s.drop_last() =~= self@.topics.subrange(0, i as int));
            }
            i += 1;
        }
        assert(self@.topics.subrange(0, i as int) =~= self@.topics);
        assert(buf@ =~= start + self@.spec_encode());
    }

    /// The encoded length of the body.
    pub fn encode_len(&self) -> (r: usize)
        requires
            self@.encodable(),
            self@.spec_encode().len() <= usize::MAX,
        ensures
            r == self@.spec_encode().len(),
    {
        let mut len: usize = 2 + self.properties.encode_len();
        let ghost base = len;
        let mut i: usize = 0;
        while i < self.topics.len()
            invariant
                i <= self.topics@.len(),
                self@.spec_encode().len() <= usize::MAX,
                base == 2 + props_encode(self@.properties, UnsubscribeProperties::fields_order()).len(),
                len == base + filters_bytes(self@.topics.subrange(0, i as int)).len(),
            decreases self.topics.len() - i,
        {
            proof {
                let s = self@.topics.subrange(0, i + 1);
                assert(s.drop_last() =~= self@.topics.subrange(0, i as int));
                lemma_filters_prefix_len(self@.topics, i + 1);
            }
            len = len + 2 + self.topics[i].len();
            i += 1;
        }
        assert(self@.topics.subrange(0, i as int) =~= self@.topics);
        len
    }
}

/// Unsuback packet body.
#[derive(Debug, Clone, PartialEq, Eq)]
pub struct Unsuback {
    pub pid: Pid,
    pub properties: UnsubackProperties,
    pub topics: Vec<UnsubscribeReasonCode>,
}

/// An unsuback packet body as values.
pub struct UnsubackModel {
    pub pid: Pid,
    pub properties: PropsModel,
    pub topics: Seq<UnsubscribeReasonCode>,
}

impl View for Unsuback {
    type V = UnsubackModel;

    open spec fn view(&self) -> UnsubackModel {
        UnsubackModel { pid: self.pid, properties: self.properties@, topics: self.topics@ }
    }
}

impl UnsubackModel {
    /// The encoding: packet identifier, properties, one byte per code.
    pub open spec fn spec_encode(self) -> Seq<u8> {
        be16(self.pid.id() as int) + props_encode(
            self.properties,
            UnsubackProperties::fields_order(),
        ) + self.topics.map_values(|c: UnsubscribeReasonCode| c.spec_u8())
    }

    /// Whether the properties can be encoded.
    pub open spec fn encodable(self) -> bool {
        props_fit(self.properties, UnsubackProperties::fields_order())
    }
}

/// Decodes unsubscribe reason codes while the remaining length lasts.
pub open spec fn sp_unsub_codes(
    d: Seq<u8>,
    off: int,
    rem: int,
    acc: Seq<UnsubscribeReasonCode>,
    header: Header,
) -> VResult<Seq<UnsubscribeReasonCode>>
    decreases rem,
{
    if rem <= 0 {
        Ok((acc, off))
    } else {
        match sp_u8(d, off) {
            Err(e) => cerr(e),
            Ok((v, o1)) => match UnsubscribeReasonCode::spec_from_u8(v) {
                None => v5err(ErrorV5::InvalidReasonCode(header.typ, v)),
                Some(c) => sp_unsub_codes(d, o1, rem - 1, acc.push(c), header),
            },
        }
    }
}

/// Decodes an unsuback body of the given header.
pub open spec fn sp_unsuback(d: Seq<u8>, off: int, header: Header) -> VResult<UnsubackModel> {
    match common(sp_pid(d, off)) {
        Err(e) => Err(e),
        Ok((pid, o1)) => match sp_properties(d, o1, PropsKind::Unsuback) {
            Err(e) => Err(e),
            Ok(((properties, total, _), o2)) => if header.remaining_len < 2 + total + var_int_size(
                total,
            ) {
                cerr(Error::InvalidRemainingLength)
            } else {
                match sp_unsub_codes(
                    d,
                    o2,
                    header.remaining_len - 2 - total - var_int_size(total),
                    Seq::empty(),
                    header,
                ) {
                    Err(e) => Err(e),
                    Ok((topics, o3)) => Ok((UnsubackModel { pid, properties, topics }, o3)),
                }
            },
        },
    }
}

impl Unsuback {
    /// An unsuback packet without properties.
    pub fn new(pid: Pid, topics: Vec<UnsubscribeReasonCode>) -> (r: Self)
        ensures
            r.pid == pid,
            r.properties@ == PropsModel::empty(),
            r.topics == topics,
    {
        Unsuback { pid, properties: UnsubackProperties::default(), topics }
    }

    /// Decodes an unsuback body.
    pub fn decode(buf: &mut PacketBuf, header: Header) -> (r: Result<Self, ErrorV5>)
        ensures
            final(buf).bytes() == old(buf).bytes(),
            match sp_unsuback(old(buf).bytes(), old(buf).pos(), header) {
                Ok((m, next)) => r matches Ok(p) && p@ == m && final(buf).pos() == next,
                Err(e) => r matches Err(x) && x.is(e),
            },
    {
        let pid = match read_pid(buf) {
            Ok(p) => p,
            Err(e) => return Err(ErrorV5::Common(e)),
        };
        let ghost p0 = buf.pos();
        let (set, total, _) = decode_properties(buf, PropsKind::Unsuback)?;
        proof {
            lemma_restricted(buf.bytes(), p0, PropsKind::Unsuback);
            lemma_var_int_len(total as nat);
        }
        let properties = UnsubackProperties::from_set(set);
        let props_len = 2 + total as usize + var_int_len(total as usize).unwrap();
        let mut remaining_len = header.remaining_len as usize;
        if remaining_len < props_len {
            return Err(ErrorV5::Common(Error::InvalidRemainingLength));
        }
        remaining_len = remaining_len - props_len;
        let ghost d = buf.bytes();
        let mut topics: Vec<UnsubscribeReasonCode> = Vec::new();
        while remaining_len > 0
            invariant
                buf.bytes() == d,
                d == old(buf).bytes(),
                sp_unsuback(d, old(buf).pos(), header) == match sp_unsub_codes(
                    d,
                    buf.pos(),
                    remaining_len as int,
                    topics@,
                    header,
                ) {
                    Ok((t, o)) => Ok::<(UnsubackModel, int), DecodeErrV5>(
                        (UnsubackModel { pid, properties: properties@, topics: t }, o),
                    ),
                    Err(e) => Err(e),
                },
            decreases remaining_len,
        {
            let value = match buf.read_u8() {
                Ok(v) => v,
                Err(e) => return Err(ErrorV5::Common(e)),
            };
            let code = match UnsubscribeReasonCode::from_u8(value) {
                Some(c) => c,
                None => return Err(ErrorV5::InvalidReasonCode(header.typ, value)),
            };
            topics.push(code);
            remaining_len -= 1;
        }
        Ok(Unsuback { pid, properties, topics })
    }

    /// Appends the encoding of the body.
    pub fn encode(&self, buf: &mut Vec<u8>)
        requires
            self@.encodable(),
        ensures
            final(buf)@ == old(buf)@ + self@.spec_encode(),
    {
        let ghost start = buf@;
        write_u16(buf, self.pid.value());
        self.properties.encode(buf);
        let ghost b1 = buf@;
        let mut i: usize = 0;
        while i < self.topics.len()
            invariant
                i <= self.topics@.len(),
                buf@ == b1 + self.topics@.subrange(0, i as int).map_values(
                    |c: UnsubscribeReasonCode| c.spec_u8(),
                ),
            decreases self.topics.len() - i,
        {
            write_u8(buf, self.topics[i].to_u8());
            proof {
                assert(self.topics@.subrange(0, i + 1).map_values(
                    |c: UnsubscribeReasonCode| c.spec_u8(),
                ) =~= self.topics@.subrange(0, i as int).map_values(
                    |c: UnsubscribeReasonCode| c.spec_u8(),
                ).push(self.topics@[i as int].spec_u8()));
            }
            i += 1;
        }
        assert(self.topics@.subrange(0, i as int) =~= self.topics@);
        assert(buf@ =~= start + self@.spec_encode());
    }

    /// The encoded length of the body.
    pub fn encode_len(&self) -> (r: usize)
        requires
            self@.encodable(),
            self@.spec_encode().len() <= usize::MAX,
        ensures
            r == self@.spec_encode().len(),
    {
        2 + self.properties.encode_len() + self.topics.len()
    }
}

} // verus!
