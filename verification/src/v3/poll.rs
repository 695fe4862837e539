use vstd::prelude::*;

use crate::buf::PacketBuf;
use crate::codec::VAR_INT_LIMIT;
use crate::error::{DecodeErr, Error};
use crate::poll::GenericPollPacketState;

use super::packet::{spec_header, sp_body_end, Header, Packet, PacketModel, PacketType};
use super::subscribe::{sp_subscribe_buf, Subscribe};

verus! {

/// The state of the reading of one v3.1.1 packet from a stream.
pub type PollPacketState = GenericPollPacketState<Header>;

impl Header {
    /// The packet that the header alone makes: a ping request or response,
    /// or a disconnect.
    pub open spec fn spec_empty_packet(self) -> Option<PacketModel> {
        match self.typ {
            PacketType::Pingreq => Some(PacketModel::Pingreq),
            PacketType::Pingresp => Some(PacketModel::Pingresp),
            PacketType::Disconnect => Some(PacketModel::Disconnect),
            _ => None,
        }
    }

    /// The packet that the header alone makes, if any.
    pub fn build_empty_packet(&self) -> (r: Option<Packet>)
        ensures
            match self.spec_empty_packet() {
                Some(m) => r matches Some(p) && p@ == m,
                None => r is None,
            },
    {
        match self.typ {
            PacketType::Pingreq => Some(Packet::Pingreq),
            PacketType::Pingresp => Some(Packet::Pingresp),
            PacketType::Disconnect => Some(Packet::Disconnect),
            _ => None,
        }
    }

    /// Decodes the body of a packet of this header from `buf` at `*offset`,
    /// for a type that has a body; `buf` ends with the body.
    pub fn decode_buffer(self, buf: &[u8], offset: &mut usize) -> (r: Result<Packet, Error>)
        requires
            self.spec_empty_packet() is None,
        ensures
            match sp_body_buf_end(buf@, *old(offset) as int, self) {
                Ok((m, next)) => r matches Ok(p) && p@ == m && *final(offset) == next,
                Err(e) => r matches Err(x) && x.is(e),
            },
    {
        let mut cursor = PacketBuf::new(buf);
        cursor.set_offset(*offset);
        let r = if self.typ == PacketType::Subscribe {
            match Subscribe::decode(&mut cursor, self) {
                Ok(p) => Ok(Packet::Subscribe(p)),
                Err(e) => Err(e),
            }
        } else {
            Packet::decode_body(&mut cursor, self)
        };
        *offset = cursor.position();
        r
    }
}

/// Decodes the body of a packet of the given header from a buffer that ends
/// with the body: a subscribe body reads entries while the buffer has bytes,
/// every other body as `sp_body_end` says.
pub open spec fn sp_body_buf_end(d: Seq<u8>, off: int, h: Header) -> Result<(PacketModel, int), DecodeErr> {
    if h.typ == PacketType::Subscribe {
        match sp_subscribe_buf(d, off, h) {
            Ok((m, next)) => Ok((PacketModel::Subscribe(m), next)),
            Err(e) => Err(e),
        }
    } else {
        sp_body_end(d, off, h)
    }
}

/// The packet that `sp_body_buf_end` decodes.
pub open spec fn sp_body_buf(d: Seq<u8>, off: int, h: Header) -> Result<PacketModel, DecodeErr> {
    match sp_body_buf_end(d, off, h) {
        Ok((m, _)) => Ok(m),
        Err(e) => Err(e),
    }
}

/// A state that reads the body of a packet whose header the stream reader
/// made: a remaining length that a variable byte integer of at most four
/// bytes holds, and a type with a body.
pub open spec fn reading_body(s: PollPacketState) -> bool {
    match s {
        GenericPollPacketState::Body { header, idx } => {
            &&& header.remaining_len < VAR_INT_LIMIT
            &&& 1 <= header.remaining_len_bytes <= 4
            &&& header.spec_empty_packet() is None
        },
        GenericPollPacketState::Header { .. } => false,
    }
}

/// What the stream reader does once a fixed header is complete: the header
/// of the first byte and remaining length is made; a packet that the header
/// alone makes is done, reported as two bytes long, the state left as it is;
/// a remaining length of 0 is an error; otherwise the state turns to the
/// reading of the body.
pub fn poll_header_complete(state: &mut PollPacketState) -> (r: Result<Option<(usize, Packet)>, Error>)
    requires
        old(state).header_done(),
    ensures
        match *old(state) {
            GenericPollPacketState::Header { control_byte: Some(cb), var_idx, var_int } => match spec_header(
                cb,
                var_int,
                (var_idx + 1) as u8,
            ) {
                Err(e) => r == Err::<Option<(usize, Packet)>, Error>(e) && *final(state) == *old(state),
                Ok(h) => match h.spec_empty_packet() {
                    Some(m) => r matches Ok(Some((n, p))) && n == 2 && p@ == m && *final(state) == *old(state),
                    None => if var_int == 0 {
                        r == Err::<Option<(usize, Packet)>, Error>(Error::InvalidRemainingLength)
                            && *final(state) == *old(state)
                    } else {
                        r matches Ok(None) && *final(state) == (GenericPollPacketState::<Header>::Body { header: h, idx: 0 })
                            && reading_body(*final(state))
                    },
                },
            },
            _ => false,
        },
{
    let (cb, idx, remaining_len) = match state {
        GenericPollPacketState::Header { control_byte: Some(cb), var_idx, var_int } => (*cb, *var_idx, *var_int),
        _ => {
            return Err(Error::InvalidHeader);
        },
    };
    proof {
        crate::buf::lemma_pow128_bound(3);
        crate::buf::lemma_pow128_bound(idx as nat);
        reveal_with_fuel(crate::buf::pow128, 5);
    }
    let header = Header::new_with(cb, remaining_len, idx + 1)?;
    if let Some(packet) = header.build_empty_packet() {
        return Ok(Some((2, packet)));
    }
    if remaining_len == 0 {
        return Err(Error::InvalidRemainingLength);
    }
    *state = GenericPollPacketState::Body { header, idx: 0 };
    Ok(None)
}

/// What the stream reader does once the body is read: decodes it, an early
/// end of the body counting as a wrong remaining length; on success it
/// returns the packet's total length (first byte, remaining length and body)
/// and the packet, and the state turns back to the start of a header.
pub fn poll_body_complete(state: &mut PollPacketState, body: &[u8]) -> (r: Result<(usize, Packet), Error>)
    requires
        reading_body(*old(state)),
    ensures
        match *old(state) {
            GenericPollPacketState::Body { header, idx } => match sp_body_buf(body@, 0, header) {
                Ok(m) => r matches Ok((n, p)) && n == 1 + header.remaining_len_bytes + header.remaining_len
                    && p@ == m
                    && *final(state) == (GenericPollPacketState::<Header>::Header { control_byte: None, var_idx: 0, var_int: 0 }),
                Err(e) => *final(state) == *old(state) && if e == DecodeErr::Plain(Error::eof()) {
                    r == Err::<(usize, Packet), Error>(Error::InvalidRemainingLength)
                } else {
                    r matches Err(x) && x.is(e)
                },
            },
            _ => false,
        },
{
    let header = match state {
        GenericPollPacketState::Body { header, idx } => *header,
        _ => {
            return Err(Error::InvalidHeader);
        },
    };
    let total: usize = 1 + header.remaining_len_bytes as usize + header.remaining_len as usize;
    let mut offset: usize = 0;
    let packet = match header.decode_buffer(body, &mut offset) {
        Ok(p) => p,
        Err(e) => {
            if e.is_eof() {
                return Err(Error::InvalidRemainingLength);
            }
            return Err(e);
        },
    };
    *state = GenericPollPacketState::Header { control_byte: None, var_idx: 0, var_int: 0 };
    Ok((total, packet))
}

} // verus!
