use vstd::prelude::*;

use crate::buf::{plain, sp_string, sp_u8, PacketBuf};
use crate::codec::{be16, field, write_bytes, write_u16, write_u8};
use crate::error::{DecodeErr, Error, PResult};
use crate::topic::{topic_filter_valid, TopicFilter};
use crate::types::{Pid, QoS};

use super::packet::Header;
use super::publish::{read_pid, sp_pid};

verus! {

/// Subscribe packet body.
#[derive(Debug, Clone, PartialEq, Eq)]
pub struct Subscribe {
    pub pid: Pid,
    pub topics: Vec<(TopicFilter, QoS)>,
}

/// Suback packet body.
#[derive(Debug, Clone, PartialEq, Eq)]
pub struct Suback {
    pub pid: Pid,
    pub topics: Vec<SubscribeReturnCode>,
}

/// Unsubscribe packet body.
#[derive(Debug, Clone, PartialEq, Eq)]
pub struct Unsubscribe {
    pub pid: Pid,
    pub topics: Vec<TopicFilter>,
}

/// A subscribe packet body as values.
pub struct SubscribeModel {
    pub pid: Pid,
    pub topics: Seq<(Seq<u8>, QoS)>,
}

/// A suback packet body as values.
pub struct SubackModel {
    pub pid: Pid,
    pub topics: Seq<SubscribeReturnCode>,
}

/// An unsubscribe packet body as values.
pub struct UnsubscribeModel {
    pub pid: Pid,
    pub topics: Seq<Seq<u8>>,
}

impl View for Subscribe {
    type V = SubscribeModel;

    open spec fn view(&self) -> SubscribeModel {
        SubscribeModel {
            pid: self.pid,
            topics: self.topics@.map_values(|t: (TopicFilter, QoS)| (t.0.bytes(), t.1)),
        }
    }
}

impl View for Suback {
    type V = SubackModel;

    open spec fn view(&self) -> SubackModel {
        SubackModel { pid: self.pid, topics: self.topics@ }
    }
}

impl View for Unsubscribe {
    type V = UnsubscribeModel;

    open spec fn view(&self) -> UnsubscribeModel {
        UnsubscribeModel {
            pid: self.pid,
            topics: self.topics@.map_values(|t: TopicFilter| t.bytes()),
        }
    }
}

/// The encoding of subscription entries: filter, then maximum QoS.
pub open spec fn sub_topics_bytes(topics: Seq<(Seq<u8>, QoS)>) -> Seq<u8>
    decreases topics.len(),
{
    if topics.len() == 0 {
        Seq::empty()
    } else {
        sub_topics_bytes(topics.drop_last()) + field(topics.last().0) + seq![
            topics.last().1.spec_u8(),
        ]
    }
}

/// The encoding of return codes.
pub open spec fn codes_bytes(codes: Seq<SubscribeReturnCode>) -> Seq<u8>
    decreases codes.len(),
{
    if codes.len() == 0 {
        Seq::empty()
    } else {
        codes_bytes(codes.drop_last()) + seq![codes.last().spec_u8()]
    }
}

/// The encoding of filters.
pub open spec fn filters_bytes(topics: Seq<Seq<u8>>) -> Seq<u8>
    decreases topics.len(),
{
    if topics.len() == 0 {
        Seq::empty()
    } else {
        filters_bytes(topics.drop_last()) + field(topics.last())
    }
}

impl SubscribeModel {
    pub open spec fn spec_encode(self) -> Seq<u8> {
        be16(self.pid.id() as int) + sub_topics_bytes(self.topics)
    }
}

impl SubackModel {
    pub open spec fn spec_encode(self) -> Seq<u8> {
        be16(self.pid.id() as int) + codes_bytes(self.topics)
    }
}

impl UnsubscribeModel {
    pub open spec fn spec_encode(self) -> Seq<u8> {
        be16(self.pid.id() as int) + filters_bytes(self.topics)
    }
}

/// Decodes subscription entries while the remaining length lasts; `acc`
/// holds those read so far.
pub open spec fn sp_sub_topics(d: Seq<u8>, off: int, rem: int, acc: Seq<(Seq<u8>, QoS)>) -> PResult<
    Seq<(Seq<u8>, QoS)>,
>
    decreases rem,
{
    if rem <= 0 {
        Ok((acc, off))
    } else {
        match plain(sp_string(d, off)) {
            Ok((f, o1)) => if !topic_filter_valid(f) {
                Err(DecodeErr::TopicFilter(f))
            } else {
                match plain(sp_u8(d, o1)) {
                    Ok((q, o2)) => match QoS::spec_from_u8(q) {
                        Some(qos) => if rem < 3 + f.len() {
                            Err(DecodeErr::Plain(Error::InvalidRemainingLength))
                        } else {
                            sp_sub_topics(d, o2, rem - 3 - f.len(), acc.push((f, qos)))
                        },
                        None => Err(DecodeErr::Plain(Error::InvalidQos(q))),
                    },
                    Err(e) => Err(e),
                }
            },
            Err(e) => Err(e),
        }
    }
}

/// Decodes subscription entries while the buffer has bytes after `off`,
/// taking each entry off the remaining length `rem`, which must not run out.
pub open spec fn sp_sub_topics_buf(d: Seq<u8>, off: int, rem: int, acc: Seq<(Seq<u8>, QoS)>) -> PResult<
    Seq<(Seq<u8>, QoS)>,
>
    decreases d.len() - off,
{
    if off >= d.len() {
        Ok((acc, off))
    } else {
        match plain(sp_string(d, off)) {
            Ok((f, o1)) => if !topic_filter_valid(f) {
                Err(DecodeErr::TopicFilter(f))
            } else {
                match plain(sp_u8(d, o1)) {
                    Ok((q, o2)) => match QoS::spec_from_u8(q) {
                        Some(qos) => if rem < 3 + f.len() {
                            Err(DecodeErr::Plain(Error::InvalidRemainingLength))
                        } else {
                            sp_sub_topics_buf(d, o2, rem - 3 - f.len(), acc.push((f, qos)))
                        },
                        None => Err(DecodeErr::Plain(Error::InvalidQos(q))),
                    },
                    Err(e) => Err(e),
                }
            },
            Err(e) => Err(e),
        }
    }
}

/// Decodes return codes while the remaining length lasts.
pub open spec fn sp_codes(d: Seq<u8>, off: int, rem: int, acc: Seq<SubscribeReturnCode>) -> PResult<
    Seq<SubscribeReturnCode>,
>
    decreases rem,
{
    if rem <= 0 {
        Ok((acc, off))
    } else {
        match plain(sp_u8(d, off)) {
            Ok((v, o1)) => match SubscribeReturnCode::spec_from_u8(v) {
                Some(c) => sp_codes(d, o1, rem - 1, acc.push(c)),
                None => Err(DecodeErr::Plain(Error::InvalidQos(v))),
            },
            Err(e) => Err(e),
        }
    }
}

/// Decodes filters while the remaining length lasts.
pub open spec fn sp_filters(d: Seq<u8>, off: int, rem: int, acc: Seq<Seq<u8>>) -> PResult<
    Seq<Seq<u8>>,
>
    decreases rem,
{
    if rem <= 0 {
        Ok((acc, off))
    } else {
        match plain(sp_string(d, off)) {
            Ok((f, o1)) => if !topic_filter_valid(f) {
                Err(DecodeErr::TopicFilter(f))
            } else if rem < 2 + f.len() {
                Err(DecodeErr::Plain(Error::InvalidRemainingLength))
            } else {
                sp_filters(d, o1, rem - 2 - f.len(), acc.push(f))
            },
            Err(e) => Err(e),
        }
    }
}

/// Decodes a subscribe body.
pub open spec fn sp_subscribe(d: Seq<u8>, off: int, header: Header) -> PResult<SubscribeModel> {
    match sp_pid(d, off) {
        Ok((pid, o1)) => if header.remaining_len < 2 {
            Err(DecodeErr::Plain(Error::InvalidRemainingLength))
        } else if header.remaining_len == 2 {
            Err(DecodeErr::Plain(Error::EmptySubscription))
        } else {
            match sp_sub_topics(d, o1, header.remaining_len - 2, Seq::empty()) {
                Ok((topics, o2)) => Ok((SubscribeModel { pid, topics }, o2)),
                Err(e) => Err(e),
            }
        },
        Err(e) => Err(e),
    }
}

/// Decodes a subscribe body from a buffer that holds the body and ends with
/// it: entries are read while the buffer has bytes, and none there is an
/// empty subscription.
pub open spec fn sp_subscribe_buf(d: Seq<u8>, off: int, header: Header) -> PResult<SubscribeModel> {
    match sp_pid(d, off) {
        Ok((pid, o1)) => if header.remaining_len < 2 {
            Err(DecodeErr::Plain(Error::InvalidRemainingLength))
        } else if o1 >= d.len() {
            Err(DecodeErr::Plain(Error::EmptySubscription))
        } else {
            match sp_sub_topics_buf(d, o1, header.remaining_len - 2, Seq::empty()) {
                Ok((topics, o2)) => Ok((SubscribeModel { pid, topics }, o2)),
                Err(e) => Err(e),
            }
        },
        Err(e) => Err(e),
    }
}

/// Decodes a suback body.
pub open spec fn sp_suback(d: Seq<u8>, off: int, header: Header) -> PResult<SubackModel> {
    match sp_pid(d, off) {
        Ok((pid, o1)) => if header.remaining_len < 2 {
            Err(DecodeErr::Plain(Error::InvalidRemainingLength))
        } else {
            match sp_codes(d, o1, header.remaining_len - 2, Seq::empty()) {
                Ok((topics, o2)) => Ok((SubackModel { pid, topics }, o2)),
                Err(e) => Err(e),
            }
        },
        Err(e) => Err(e),
    }
}

/// Decodes an unsubscribe body.
pub open spec fn sp_unsubscribe(d: Seq<u8>, off: int, header: Header) -> PResult<UnsubscribeModel> {
    match sp_pid(d, off) {
        Ok((pid, o1)) => if header.remaining_len < 2 {
            Err(DecodeErr::Plain(Error::InvalidRemainingLength))
        } else if header.remaining_len == 2 {
            Err(DecodeErr::Plain(Error::EmptySubscription))
        } else {
            match sp_filters(d, o1, header.remaining_len - 2, Seq::empty()) {
                Ok((topics, o2)) => Ok((UnsubscribeModel { pid, topics }, o2)),
                Err(e) => Err(e),
            }
        },
        Err(e) => Err(e),
    }
}

impl Subscribe {
    pub fn new(pid: Pid, topics: Vec<(TopicFilter, QoS)>) -> (r: Self)
        ensures
            r.pid == pid,
            r.topics == topics,
    {
        Self { pid, topics }
    }

    /// Decodes a subscribe body from a buffer that holds the body and ends
    /// with it: entries are read while bytes are left, each taken off the
    /// remaining length of the header, which must not run out.
    pub fn decode(buf: &mut PacketBuf, header: Header) -> (r: Result<Self, Error>)
        ensures
            final(buf).bytes() == old(buf).bytes(),
            match sp_subscribe_buf(old(buf).bytes(), old(buf).pos(), header) {
                Ok((m, next)) => r matches Ok(p) && p@ == m && final(buf).pos() == next,
                Err(e) => r matches Err(x) && x.is(e),
            },
    {
        let pid = read_pid(buf)?;
        if header.remaining_len < 2 {
            return Err(Error::InvalidRemainingLength);
        }
        let mut remaining_len = header.remaining_len as usize - 2;
        if buf.remaining() == 0 {
            return Err(Error::EmptySubscription);
        }
        let ghost d = buf.bytes();
        let mut topics: Vec<(TopicFilter, QoS)> = Vec::new();
        assert(topics@.map_values(|t: (TopicFilter, QoS)| (t.0.bytes(), t.1)) =~= Seq::empty());
        while buf.remaining() > 0
            invariant
                buf.bytes() == d,
                d == old(buf).bytes(),
                sp_subscribe_buf(d, old(buf).pos(), header) == match sp_sub_topics_buf(
                    d,
                    buf.pos(),
                    remaining_len as int,
                    topics@.map_values(|t: (TopicFilter, QoS)| (t.0.bytes(), t.1)),
                ) {
                    Ok((t, o)) => Ok((SubscribeModel { pid, topics: t }, o)),
                    Err(e) => Err(e),
                },
            decreases d.len() - buf.pos(),
        {
            let ghost acc = topics@.map_values(|t: (TopicFilter, QoS)| (t.0.bytes(), t.1));
            let ghost pos = buf.pos();
            assert(pos < d.len());
            let topic = buf.read_string()?;
            let topic_filter = TopicFilter::from_str(topic)?;
            proof {
                topic_filter.lemma_bytes();
            }
            let max_qos = QoS::from_u8(buf.read_u8()?)?;
            let filter_len = topic_filter.len();
            if remaining_len < 3 || remaining_len - 3 < filter_len {
                return Err(Error::InvalidRemainingLength);
            }
            remaining_len = remaining_len - 3 - filter_len;
            topics.push((topic_filter, max_qos));
            proof {
                assert(topics@.map_values(|t: (TopicFilter, QoS)| (t.0.bytes(), t.1)) =~= acc.push(
                    (topic_filter.bytes(), max_qos),
                ));
            }
        }
        Ok(Subscribe { pid, topics })
    }

    /// Decodes a subscribe body as it comes from a stream: entries are read
    /// while the remaining length of the header lasts.
    pub fn decode_stream(buf: &mut PacketBuf, header: Header) -> (r: Result<Self, Error>)
        ensures
            final(buf).bytes() == old(buf).bytes(),
            match sp_subscribe(old(buf).bytes(), old(buf).pos(), header) {
                Ok((m, next)) => r matches Ok(p) && p@ == m && final(buf).pos() == next,
                Err(e) => r matches Err(x) && x.is(e),
            },
    {
        let pid = read_pid(buf)?;
        if header.remaining_len < 2 {
            return Err(Error::InvalidRemainingLength);
        }
        let mut remaining_len = header.remaining_len as usize - 2;
        if remaining_len == 0 {
            return Err(Error::EmptySubscription);
        }
        let ghost d = buf.bytes();
        let mut topics: Vec<(TopicFilter, QoS)> = Vec::new();
        assert(topics@.map_values(|t: (TopicFilter, QoS)| (t.0.bytes(), t.1)) =~= Seq::empty());
        while remaining_len > 0
            invariant
                buf.bytes() == d,
                d == old(buf).bytes(),
                sp_subscribe(d, old(buf).pos(), header) == match sp_sub_topics(
                    d,
                    buf.pos(),
                    remaining_len as int,
                    topics@.map_values(|t: (TopicFilter, QoS)| (t.0.bytes(), t.1)),
                ) {
                    Ok((t, o)) => Ok((SubscribeModel { pid, topics: t }, o)),
                    Err(e) => Err(e),
                },
            decreases remaining_len,
        {
            let ghost acc = topics@.map_values(|t: (TopicFilter, QoS)| (t.0.bytes(), t.1));
            let topic = buf.read_string()?;
            let topic_filter = TopicFilter::from_str(topic)?;
            proof {
                topic_filter.lemma_bytes();
            }
            let max_qos = QoS::from_u8(buf.read_u8()?)?;
            let filter_len = topic_filter.len();
            if remaining_len < 3 || remaining_len - 3 < filter_len {
                return Err(Error::InvalidRemainingLength);
            }
            remaining_len = remaining_len - 3 - filter_len;
            topics.push((topic_filter, max_qos));
            proof {
                assert(topics@.map_values(|t: (TopicFilter, QoS)| (t.0.bytes(), t.1)) =~= acc.push(
                    (topic_filter.bytes(), max_qos),
                ));
            }
        }
        Ok(Subscribe { pid, topics })
    }

    /// Appends the encoding of the body.
    pub fn encode(&self, buf: &mut Vec<u8>)
        ensures
            final(buf)@ == old(buf)@ + self@.spec_encode(),
    {
        let ghost start = buf@;
        write_u16(buf, self.pid.value());
        let mut i: usize = 0;
        while i < self.topics.len()
            invariant
                i <= self.topics@.len(),
                buf@ == start + be16(self.pid.id() as int) + sub_topics_bytes(
                    self@.topics.subrange(0, i as int),
                ),
            decreases self.topics.len() - i,
        {
            let (topic_filter, max_qos) = &self.topics[i];
            write_bytes(buf, topic_filter.as_bytes());
            write_u8(buf, max_qos.to_u8());
            proof {
                let s = self@.topics.subrange(0, i + 1);
                assert(s.drop_last() =~= self@.topics.subrange(0, i as int));
            }
            i += 1;
        }
        assert(self@.topics.subrange(0, i as int) =~= self@.topics);
    }

    /// The encoded length of the body.
    pub fn encode_len(&self) -> (r: usize)
        requires
            self@.spec_encode().len() <= usize::MAX,
        ensures
            r == self@.spec_encode().len(),
    {
        let mut len: usize = 2;
        let mut i: usize = 0;
        while i < self.topics.len()
            invariant
                i <= self.topics@.len(),
                self@.spec_encode().len() <= usize::MAX,
                len == 2 + sub_topics_bytes(self@.topics.subrange(0, i as int)).len(),
            decreases self.topics.len() - i,
        {
            proof {
                let s = self@.topics.subrange(0, i + 1);
                assert(s.drop_last() =~= self@.topics.subrange(0, i as int));
                lemma_sub_topics_prefix_len(self@.topics, i + 1);
            }
            len = len + 3 + self.topics[i].0.len();
            i += 1;
        }
        assert(self@.topics.subrange(0, i as int) =~= self@.topics);
        len
    }
}

proof fn lemma_sub_topics_prefix_len(topics: Seq<(Seq<u8>, QoS)>, n: int)
    requires
        0 <= n <= topics.len(),
    ensures
        sub_topics_bytes(topics.subrange(0, n)).len() <= sub_topics_bytes(topics).len(),
    decreases topics.len(),
{
    if n < topics.len() {
        assert(topics.drop_last().subrange(0, n) =~= topics.subrange(0, n));
        lemma_sub_topics_prefix_len(topics.drop_last(), n);
    } else {
        assert(topics.subrange(0, n) =~= topics);
    }
}

impl Suback {
    pub fn new(pid: Pid, topics: Vec<SubscribeReturnCode>) -> (r: Self)
        ensures
            r.pid == pid,
            r.topics == topics,
    {
        Self { pid, topics }
    }

    /// Decodes a suback body of the given header.
    pub fn decode(buf: &mut PacketBuf, header: Header) -> (r: Result<Self, Error>)
        ensures
            final(buf).bytes() == old(buf).bytes(),
            match sp_suback(old(buf).bytes(), old(buf).pos(), header) {
                Ok((m, next)) => r matches Ok(p) && p@ == m && final(buf).pos() == next,
                Err(e) => r matches Err(x) && x.is(e),
            },
    {
        let pid = read_pid(buf)?;
        if header.remaining_len < 2 {
            return Err(Error::InvalidRemainingLength);
        }
        let mut remaining_len = header.remaining_len as usize - 2;
        let ghost d = buf.bytes();
        let mut topics: Vec<SubscribeReturnCode> = Vec::new();
        while remaining_len > 0
            invariant
                buf.bytes() == d,
                d == old(buf).bytes(),
                sp_suback(d, old(buf).pos(), header) == match sp_codes(
                    d,
                    buf.pos(),
                    remaining_len as int,
                    topics@,
                ) {
                    Ok((t, o)) => Ok((SubackModel { pid, topics: t }, o)),
                    Err(e) => Err(e),
                },
            decreases remaining_len,
        {
            let value = buf.read_u8()?;
            let code = SubscribeReturnCode::from_u8(value)?;
            topics.push(code);
            remaining_len -= 1;
        }
        Ok(Suback { pid, topics })
    }

    /// Appends the encoding of the body.
    pub fn encode(&self, buf: &mut Vec<u8>)
        ensures
            final(buf)@ == old(buf)@ + self@.spec_encode(),
    {
        let ghost start = buf@;
        write_u16(buf, self.pid.value());
        let mut i: usize = 0;
        while i < self.topics.len()
            invariant
                i <= self.topics@.len(),
                buf@ == start + be16(self.pid.id() as int) + codes_bytes(
                    self.topics@.subrange(0, i as int),
                ),
            decreases self.topics.len() - i,
        {
            write_u8(buf, self.topics[i].to_u8());
            proof {
                let s = self.topics@.subrange(0, i + 1);
                assert(s.drop_last() =~= self.topics@.subrange(0, i as int));
            }
            i += 1;
        }
        assert(self.topics@.subrange(0, i as int) =~= self.topics@);
    }

    /// The encoded length of the body.
    pub fn encode_len(&self) -> (r: usize)
        requires
            self@.spec_encode().len() <= usize::MAX,
        ensures
            r == self@.spec_encode().len(),
    {
        proof {
            lemma_codes_len(self.topics@);
        }
        2 + self.topics.len()
    }
}

proof fn lemma_codes_len(codes: Seq<SubscribeReturnCode>)
    ensures
        codes_bytes(codes).len() == codes.len(),
    decreases codes.len(),
{
    if codes.len() > 0 {
        lemma_codes_len(codes.drop_last());
    }
}

impl Unsubscribe {
    pub fn new(pid: Pid, topics: Vec<TopicFilter>) -> (r: Self)
        ensures
            r.pid == pid,
            r.topics == topics,
    {
        Self { pid, topics }
    }

    /// Decodes an unsubscribe body of the given header.
    pub fn decode(buf: &mut PacketBuf, header: Header) -> (r: Result<Self, Error>)
        ensures
            final(buf).bytes() == old(buf).bytes(),
            match sp_unsubscribe(old(buf).bytes(), old(buf).pos(), header) {
                Ok((m, next)) => r matches Ok(p) && p@ == m && final(buf).pos() == next,
                Err(e) => r matches Err(x) && x.is(e),
            },
    {
        let pid = read_pid(buf)?;
        if header.remaining_len < 2 {
            return Err(Error::InvalidRemainingLength);
        }
        let mut remaining_len = header.remaining_len as usize - 2;
        if remaining_len == 0 {
            return Err(Error::EmptySubscription);
        }
        let ghost d = buf.bytes();
        let mut topics: Vec<TopicFilter> = Vec::new();
        assert(topics@.map_values(|t: TopicFilter| t.bytes()) =~= Seq::empty());
        while remaining_len > 0
            invariant
                buf.bytes() == d,
                d == old(buf).bytes(),
                sp_unsubscribe(d, old(buf).pos(), header) == match sp_filters(
                    d,
                    buf.pos(),
                    remaining_len as int,
                    topics@.map_values(|t: TopicFilter| t.bytes()),
                ) {
                    Ok((t, o)) => Ok((UnsubscribeModel { pid, topics: t }, o)),
                    Err(e) => Err(e),
                },
            decreases remaining_len,
        {
            let ghost acc = topics@.map_values(|t: TopicFilter| t.bytes());
            let topic = buf.read_string()?;
            let topic_filter = TopicFilter::from_str(topic)?;
            proof {
                topic_filter.lemma_bytes();
            }
            let filter_len = topic_filter.len();
            if remaining_len < 2 || remaining_len - 2 < filter_len {
                return Err(Error::InvalidRemainingLength);
            }
            remaining_len = remaining_len - 2 - filter_len;
            topics.push(topic_filter);
            proof {
                assert(topics@.map_values(|t: TopicFilter| t.bytes()) =~= acc.push(
                    topic_filter.bytes(),
                ));
            }
        }
        Ok(Unsubscribe { pid, topics })
    }

    /// Appends the encoding of the body.
    pub fn encode(&self, buf: &mut Vec<u8>)
        ensures
            final(buf)@ == old(buf)@ + self@.spec_encode(),
    {
        let ghost start = buf@;
        write_u16(buf, self.pid.value());
        let mut i: usize = 0;
        while i < self.topics.len()
            invariant
                i <= self.topics@.len(),
                buf@ == start + be16(self.pid.id() as int) + filters_bytes(
                    self@.topics.subrange(0, i as int),
                ),
            decreases self.topics.len() - i,
        {
            write_bytes(buf, self.topics[i].as_bytes());
            proof {
                let s = self@.topics.subrange(0, i + 1);
                assert(s.drop_last() =~= self@.topics.subrange(0, i as int));
            }
            i += 1;
        }
        assert(self@.topics.subrange(0, i as int) =~= self@.topics);
    }

    /// The encoded length of the body.
    pub fn encode_len(&self) -> (r: usize)
        requires
            self@.spec_encode().len() <= usize::MAX,
        ensures
            r == self@.spec_encode().len(),
    {
        let mut len: usize = 2;
        let mut i: usize = 0;
        while i < self.topics.len()
            invariant
                i <= self.topics@.len(),
                self@.spec_encode().len() <= usize::MAX,
                len == 2 + filters_bytes(self@.topics.subrange(0, i as int)).len(),
            decreases self.topics.len() - i,
        {
            proof {
                let s = self@.topics.subrange(0, i + 1);
                assert(s.drop_last() =~= self@.topics.subrange(0, i as int));
                lemma_filters_prefix_len(self@.topics, i + 1);
            }
            len = len + 2 + self.topics[i].len();
            i += 1;
        }
        assert(self@.topics.subrange(0, i as int) =~= self@.topics);
        len
    }
}

pub proof fn lemma_filters_prefix_len(topics: Seq<Seq<u8>>, n: int)
    requires
        0 <= n <= topics.len(),
    ensures
        filters_bytes(topics.subrange(0, n)).len() <= filters_bytes(topics).len(),
    decreases topics.len(),
{
    if n < topics.len() {
        assert(topics.drop_last().subrange(0, n) =~= topics.subrange(0, n));
        lemma_filters_prefix_len(topics.drop_last(), n);
    } else {
        assert(topics.subrange(0, n) =~= topics);
    }
}

/// Subscribe return code.
#[derive(Debug, Clone, Copy, PartialEq, Eq, Structural, Hash)]
pub enum SubscribeReturnCode {
    MaxLevel0,
    MaxLevel1,
    MaxLevel2,
    Failure,
}

impl SubscribeReturnCode {
    /// The wire value.
    pub open spec fn spec_u8(self) -> u8 {
        match self {
            SubscribeReturnCode::MaxLevel0 => 0,
            SubscribeReturnCode::MaxLevel1 => 1,
            SubscribeReturnCode::MaxLevel2 => 2,
            SubscribeReturnCode::Failure => 0x80,
        }
    }

    /// The code of a wire value, if any.
    pub open spec fn spec_from_u8(value: u8) -> Option<SubscribeReturnCode> {
        if value == 0x80 {
            Some(SubscribeReturnCode::Failure)
        } else if value == 0 {
            Some(SubscribeReturnCode::MaxLevel0)
        } else if value == 1 {
            Some(SubscribeReturnCode::MaxLevel1)
        } else if value == 2 {
            Some(SubscribeReturnCode::MaxLevel2)
        } else {
            None
        }
    }

    /// Decodes a wire value.
    pub fn from_u8(value: u8) -> (r: Result<SubscribeReturnCode, Error>)
        ensures
            match SubscribeReturnCode::spec_from_u8(value) {
                Some(c) => r == Ok::<SubscribeReturnCode, Error>(c),
                None => r == Err::<SubscribeReturnCode, Error>(Error::InvalidQos(value)),
            },
    {
        match value {
            0x80 => Ok(SubscribeReturnCode::Failure),
            0 => Ok(SubscribeReturnCode::MaxLevel0),
            1 => Ok(SubscribeReturnCode::MaxLevel1),
            2 => Ok(SubscribeReturnCode::MaxLevel2),
            _ => Err(Error::InvalidQos(value)),
        }
    }

    /// The wire value.
    pub fn to_u8(self) -> (r: u8)
        ensures
            r == self.spec_u8(),
    {
        match self {
            SubscribeReturnCode::MaxLevel0 => 0,
            SubscribeReturnCode::MaxLevel1 => 1,
            SubscribeReturnCode::MaxLevel2 => 2,
            SubscribeReturnCode::Failure => 0x80,
        }
    }

    /// The wire values that MQTT 3.1.1 (the granted QoS level, or failure) fixes: each code is written as the value
    /// beside it below, that value decodes to the code, and no other byte
    /// decodes.
    pub proof fn lemma_wire_values()
        ensures
            SubscribeReturnCode::MaxLevel0.spec_u8() == 0x00u8,
            SubscribeReturnCode::MaxLevel1.spec_u8() == 0x01u8,
            SubscribeReturnCode::MaxLevel2.spec_u8() == 0x02u8,
            SubscribeReturnCode::Failure.spec_u8() == 0x80u8,
            SubscribeReturnCode::spec_from_u8(0x00u8) == Some(SubscribeReturnCode::MaxLevel0),
            SubscribeReturnCode::spec_from_u8(0x01u8) == Some(SubscribeReturnCode::MaxLevel1),
            SubscribeReturnCode::spec_from_u8(0x02u8) == Some(SubscribeReturnCode::MaxLevel2),
            SubscribeReturnCode::spec_from_u8(0x80u8) == Some(SubscribeReturnCode::Failure),
            forall|b: u8| #[trigger] SubscribeReturnCode::spec_from_u8(b) is Some ==> (b == 0x00u8 || b == 0x01u8 || b == 0x02u8 || b == 0x80u8),
    {
    }

    /// The code that grants a QoS level.
    pub fn from_qos(qos: QoS) -> (r: SubscribeReturnCode)
        ensures
            r.spec_u8() == qos.spec_u8(),
            r == (match qos {
                QoS::Level0 => SubscribeReturnCode::MaxLevel0,
                QoS::Level1 => SubscribeReturnCode::MaxLevel1,
                QoS::Level2 => SubscribeReturnCode::MaxLevel2,
            }),
    {
        match qos {
            QoS::Level0 => SubscribeReturnCode::MaxLevel0,
            QoS::Level1 => SubscribeReturnCode::MaxLevel1,
            QoS::Level2 => SubscribeReturnCode::MaxLevel2,
        }
    }
}

} // verus!
