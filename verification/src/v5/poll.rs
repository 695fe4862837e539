use vstd::prelude::*;

use crate::buf::PacketBuf;
use crate::codec::{spec_total_len, total_len, VAR_INT_LIMIT};
use crate::error::{DecodeErr, Error};
use crate::poll::GenericPollPacketState;

use super::codes::{AuthReasonCode, DisconnectReasonCode};
use super::connect::{Auth, AuthModel, Disconnect, DisconnectModel};
use super::packet::{sp_body, sp_body_end, Packet, PacketModel};
use super::props::PropsModel;
use super::types::{spec_header, DecodeErrV5, ErrorV5, Header, PacketType};

verus! {

/// The state of the reading of one v5.0 packet from a stream.
pub type PollPacketState = GenericPollPacketState<Header>;

impl Header {
    /// The packet that the header alone makes: a ping request or response,
    /// and an auth or disconnect packet whose body is empty.
    pub open spec fn spec_empty_packet(self) -> Option<PacketModel> {
        match self.typ {
            PacketType::Pingreq => Some(PacketModel::Pingreq),
            PacketType::Pingresp => Some(PacketModel::Pingresp),
            PacketType::Auth => if self.remaining_len == 0 {
                Some(
                    PacketModel::Auth(
                        AuthModel { reason_code: AuthReasonCode::Success, properties: PropsModel::empty() },
                    ),
                )
            } else {
                None
            },
            PacketType::Disconnect => if self.remaining_len == 0 {
                Some(
                    PacketModel::Disconnect(
                        DisconnectModel {
                            reason_code: DisconnectReasonCode::NormalDisconnect,
                            properties: PropsModel::empty(),
                        },
                    ),
                )
            } else {
                None
            },
            _ => None,
        }
    }

    /// The packet that the header alone makes, if any.
    pub fn build_empty_packet(&self) -> (r: Option<Packet>)
        ensures
            match self.spec_empty_packet() {
                Some(m) => r matches Some(p) && p@ == m,
                None => r is None,
            },
    {
        match self.typ {
            PacketType::Pingreq => Some(Packet::Pingreq),
            PacketType::Pingresp => Some(Packet::Pingresp),
            PacketType::Auth => if self.remaining_len == 0 {
                Some(Packet::Auth(Auth::new_success()))
            } else {
                None
            },
            PacketType::Disconnect => if self.remaining_len == 0 {
                Some(Packet::Disconnect(Disconnect::new_normal()))
            } else {
                None
            },
            _ => None,
        }
    }

    /// Decodes the body of a packet of this header, which is not one of the
    /// two ping packets.
    pub fn decode_buffer(self, buf: &mut PacketBuf) -> (r: Result<Packet, ErrorV5>)
        requires
            self.typ != PacketType::Pingreq,
            self.typ != PacketType::Pingresp,
        ensures
            final(buf).bytes() == old(buf).bytes(),
            match sp_body_end(old(buf).bytes(), old(buf).pos(), self) {
                Ok((m, next)) => r matches Ok(p) && p@ == m && final(buf).pos() == next,
                Err(e) => r matches Err(x) && x.is(e),
            },
    {
        Packet::decode_body(buf, self)
    }
}

/// A state that reads the body of a packet whose header the stream reader
/// made: a remaining length that a variable byte integer holds, and a type
/// with a body.
pub open spec fn reading_body(s: PollPacketState) -> bool {
    match s {
        GenericPollPacketState::Body { header, idx } => {
            &&& header.remaining_len < VAR_INT_LIMIT
            &&& header.typ != PacketType::Pingreq
            &&& header.typ != PacketType::Pingresp
        },
        GenericPollPacketState::Header { .. } => false,
    }
}

/// What the stream reader does once a fixed header is complete: the header
/// of the first byte and remaining length is made; a packet that the header
/// alone makes is done, reported as two bytes long, the state left as it is;
/// a remaining length of 0 is an error; otherwise the state turns to the
/// reading of the body.
pub fn poll_header_complete(state: &mut PollPacketState) -> (r: Result<Option<(usize, Packet)>, ErrorV5>)
    requires
        old(state).header_done(),
    ensures
        match *old(state) {
            GenericPollPacketState::Header { control_byte: Some(cb), var_idx, var_int } => match spec_header(cb, var_int) {
                Err(e) => r == Err::<Option<(usize, Packet)>, ErrorV5>(ErrorV5::Common(e)) && *final(state) == *old(state),
                Ok(h) => match h.spec_empty_packet() {
                    Some(m) => r matches Ok(Some((n, p))) && n == 2 && p@ == m && *final(state) == *old(state),
                    None => if var_int == 0 {
                        r == Err::<Option<(usize, Packet)>, ErrorV5>(ErrorV5::Common(Error::InvalidRemainingLength))
                            && *final(state) == *old(state)
                    } else {
                        r matches Ok(None) && *final(state) == (GenericPollPacketState::<Header>::Body { header: h, idx: 0 })
                            && reading_body(*final(state))
                    },
                },
            },
            _ => false,
        },
{
    let (cb, remaining_len) = match state {
        GenericPollPacketState::Header { control_byte: Some(cb), var_idx, var_int } => (*cb, *var_int),
        _ => {
            return Err(ErrorV5::Common(Error::InvalidHeader));
        },
    };
    proof {
        crate::buf::lemma_pow128_bound(3);
        if let GenericPollPacketState::Header { var_idx, .. } = *old(state) {
            crate::buf::lemma_pow128_bound(var_idx as nat);
            reveal_with_fuel(crate::buf::pow128, 5);
        }
    }
    let header = Header::new_with(cb, remaining_len)?;
    if let Some(packet) = header.build_empty_packet() {
        return Ok(Some((2, packet)));
    }
    if remaining_len == 0 {
        return Err(ErrorV5::Common(Error::InvalidRemainingLength));
    }
    *state = GenericPollPacketState::Body { header, idx: 0 };
    Ok(None)
}

/// What the stream reader does once the body is read: decodes it, an early
/// end of the body counting as a wrong remaining length; on success it
/// returns the packet's total length and the packet, and the state turns
/// back to the start of a header.
pub fn poll_body_complete(state: &mut PollPacketState, body: &[u8]) -> (r: Result<(usize, Packet), ErrorV5>)
    requires
        reading_body(*old(state)),
    ensures
        match *old(state) {
            GenericPollPacketState::Body { header, idx } => match sp_body(body@, 0, header) {
                Ok(m) => r matches Ok((n, p)) && n == spec_total_len(header.remaining_len as nat) && p@ == m
                    && *final(state) == (GenericPollPacketState::<Header>::Header { control_byte: None, var_idx: 0, var_int: 0 }),
                Err(e) => *final(state) == *old(state) && if e == DecodeErrV5::Common(DecodeErr::Plain(Error::eof())) {
                    r == Err::<(usize, Packet), ErrorV5>(ErrorV5::Common(Error::InvalidRemainingLength))
                } else {
                    r matches Err(x) && x.is(e)
                },
            },
            _ => false,
        },
{
    let header = match state {
        GenericPollPacketState::Body { header, idx } => *header,
        _ => {
            return Err(ErrorV5::Common(Error::InvalidHeader));
        },
    };
    let total = match total_len(header.remaining_len as usize) {
        Ok(t) => t,
        Err(e) => {
            return Err(ErrorV5::Common(e));
        },
    };
    let mut buf = PacketBuf::new(body);
    let packet = match header.decode_buffer(&mut buf) {
        Ok(p) => p,
        Err(e) => {
            if e.is_eof() {
                return Err(ErrorV5::Common(Error::InvalidRemainingLength));
            }
            return Err(e);
        },
    };
    *state = GenericPollPacketState::Header { control_byte: None, var_idx: 0, var_int: 0 };
    Ok((total, packet))
}

} // verus!
