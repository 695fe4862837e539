use vstd::prelude::*;

use crate::buf::{lemma_lift_step, lemma_pow128_bound, lift, pow128, sp_u8, sp_var_int, sp_var_int_from};
use crate::error::Error;

verus! {

/// Where the reading of one packet from a stream stands: in its fixed header,
/// byte by byte, or in its body, of which `idx` bytes have come.
#[derive(Debug, Clone)]
pub enum GenericPollPacketState<H> {
    Header { control_byte: Option<u8>, var_idx: u8, var_int: u32 },
    Body { header: H, idx: usize },
}

impl<H> Default for GenericPollPacketState<H> {
    fn default() -> (r: Self)
        ensures
            r == (GenericPollPacketState::<H>::Header { control_byte: None, var_idx: 0, var_int: 0 }),
    {
        GenericPollPacketState::Header { control_byte: None, var_idx: 0, var_int: 0 }
    }
}

/// What one byte of a fixed header leads to.
#[derive(Debug, Clone, Copy, PartialEq, Eq, Structural)]
pub enum HeaderProgress {
    /// The header needs more bytes.
    Pending,
    /// The header is complete: its first byte, the remaining length, and the
    /// length of the whole packet.
    Complete { control_byte: u8, remaining_len: u32, total_len: u32 },
}

impl<H> GenericPollPacketState<H> {
    /// A state in the fixed header, as reading it leaves it: at most three
    /// continued groups read, and the value of those read below their weight.
    pub open spec fn reading_header(&self) -> bool {
        match *self {
            GenericPollPacketState::Header { control_byte, var_idx, var_int } => {
                &&& var_idx <= 3
                &&& var_int < pow128(var_idx as nat)
                &&& control_byte is None ==> var_idx == 0 && var_int == 0
            },
            GenericPollPacketState::Body { .. } => false,
        }
    }

    /// A state whose fixed header is complete: the first byte read, and the
    /// remaining length below the weight of the group after the last one.
    pub open spec fn header_done(&self) -> bool {
        match *self {
            GenericPollPacketState::Header { control_byte, var_idx, var_int } => {
                &&& control_byte is Some
                &&& var_idx <= 3
                &&& var_int < pow128((var_idx + 1) as nat)
            },
            GenericPollPacketState::Body { .. } => false,
        }
    }
}

/// One byte of a fixed header: the first byte is kept; each next byte adds
/// its low seven bits at the weight of its group; a byte below 128 ends the
/// header, and a fourth continued group is an error.
pub open spec fn header_step<H>(s: GenericPollPacketState<H>, byte: u8) -> (
    GenericPollPacketState<H>,
    Result<HeaderProgress, Error>,
) {
    match s {
        GenericPollPacketState::Header { control_byte, var_idx, var_int } => match control_byte {
            None => (
                GenericPollPacketState::Header { control_byte: Some(byte), var_idx, var_int },
                Ok(HeaderProgress::Pending),
            ),
            Some(cb) => {
                let v = (var_int + (byte % 128) * pow128(var_idx as nat)) as u32;
                if byte < 128 {
                    (
                        GenericPollPacketState::Header { control_byte, var_idx, var_int: v },
                        Ok(
                            HeaderProgress::Complete {
                                control_byte: cb,
                                remaining_len: v,
                                total_len: (2 + var_idx + v) as u32,
                            },
                        ),
                    )
                } else if var_idx < 3 {
                    (
                        GenericPollPacketState::Header {
                            control_byte,
                            var_idx: (var_idx + 1) as u8,
                            var_int: v,
                        },
                        Ok(HeaderProgress::Pending),
                    )
                } else {
                    (
                        GenericPollPacketState::Header { control_byte, var_idx, var_int: v },
                        Err(Error::InvalidVarByteInt),
                    )
                }
            },
        },
        GenericPollPacketState::Body { .. } => (s, Ok(HeaderProgress::Pending)),
    }
}

/// Feeds the bytes of `d` from index `k` on to the header reader, until the
/// header is complete, fails, or the bytes end (then it is pending).
pub open spec fn feed_from<H>(s: GenericPollPacketState<H>, d: Seq<u8>, k: int) -> Result<
    HeaderProgress,
    Error,
>
    decreases d.len() - k,
{
    if k < 0 || k >= d.len() {
        Ok(HeaderProgress::Pending)
    } else {
        let (s2, r) = header_step(s, d[k]);
        match r {
            Ok(HeaderProgress::Pending) => feed_from(s2, d, k + 1),
            _ => r,
        }
    }
}

/// The fixed header at the start of `d` as a buffer decoder reads it: its
/// first byte and remaining length, or pending where the bytes end first.
pub open spec fn header_of(d: Seq<u8>) -> Result<HeaderProgress, Error> {
    match sp_u8(d, 0) {
        Err(_) => Ok(HeaderProgress::Pending),
        Ok((cb, o1)) => match sp_var_int(d, o1) {
            Ok((v, next)) => Ok(
                HeaderProgress::Complete {
                    control_byte: cb,
                    remaining_len: v as u32,
                    total_len: (next + v) as u32,
                },
            ),
            Err(e) => if e == Error::eof() {
                Ok(HeaderProgress::Pending)
            } else {
                Err(e)
            },
        },
    }
}

impl<H> GenericPollPacketState<H> {
    /// Feeds one byte read from the stream to a state in the fixed header.
    pub fn feed_header(&mut self, byte: u8) -> (r: Result<HeaderProgress, Error>)
        requires
            old(self).reading_header(),
        ensures
            (*final(self), r) == header_step(*old(self), byte),
            r == Ok::<HeaderProgress, Error>(HeaderProgress::Pending) ==> final(self).reading_header(),
            r matches Ok(HeaderProgress::Complete { .. }) ==> final(self).header_done(),
    {
        match self {
            GenericPollPacketState::Header { control_byte, var_idx, var_int } => {
                match *control_byte {
                    None => {
                        *control_byte = Some(byte);
                        Ok(HeaderProgress::Pending)
                    },
                    Some(cb) => {
                        let idx = *var_idx;
                        let acc = *var_int;
                        let mult: u32 = if idx == 0 {
                            1
                        } else if idx == 1 {
                            128
                        } else if idx == 2 {
                            16384
                        } else {
                            2097152
                        };
                        proof {
                            reveal_with_fuel(pow128, 4);
                            lemma_pow128_bound(idx as nat);
                            assert(mult == pow128(idx as nat));
                            assert(acc + (byte % 128) * mult < 128 * mult) by (nonlinear_arith)
                                requires
                                    acc < mult,
                                    byte % 128 < 128,
                            ;
                        }
                        let v: u32 = acc + (byte % 128) as u32 * mult;
                        *var_int = v;
                        if byte < 128 {
                            let total: u32 = 2 + idx as u32 + v;
                            Ok(
                                HeaderProgress::Complete {
                                    control_byte: cb,
                                    remaining_len: v,
                                    total_len: total,
                                },
                            )
                        } else if idx < 3 {
                            *var_idx = idx + 1;
                            proof {
                                lemma_pow128_bound(idx as nat);
                            }
                            Ok(HeaderProgress::Pending)
                        } else {
                            Err(Error::InvalidVarByteInt)
                        }
                    },
                }
            },
            GenericPollPacketState::Body { .. } => Ok(HeaderProgress::Pending),
        }
    }
}

/// Reading a fixed header from a stream, one byte at a time from a fresh
/// state, gives what decoding it from a buffer of the same bytes gives: the
/// same first byte, remaining length and total length, the same error, and
/// pending exactly where the buffer ends before the header does.
pub proof fn lemma_feed_header_matches_decode<H>(d: Seq<u8>)
    ensures
        feed_from(
            GenericPollPacketState::<H>::Header { control_byte: None, var_idx: 0, var_int: 0 },
            d,
            0,
        ) == header_of(d),
{
    if d.len() > 0 {
        let s1 = GenericPollPacketState::<H>::Header { control_byte: Some(d[0]), var_idx: 0, var_int: 0 };
        reveal_with_fuel(pow128, 1);
        lemma_feed_var_int::<H>(d, d[0], 0, 0);
        assert(lift(sp_var_int_from(d, 1, 0), 0, 1) == sp_var_int(d, 1)) by {
            match sp_var_int_from(d, 1, 0) {
                Ok((v, next)) => {},
                Err(e) => {},
            }
        }
    }
}

/// The header reader, in the middle of the remaining length, agrees with the
/// buffer decoder of the groups still to come.
proof fn lemma_feed_var_int<H>(d: Seq<u8>, cb: u8, i: nat, acc: nat)
    requires
        i <= 3,
        acc < pow128(i),
    ensures
        feed_from(
            GenericPollPacketState::<H>::Header { control_byte: Some(cb), var_idx: i as u8, var_int: acc as u32 },
            d,
            1 + i as int,
        ) == match lift(sp_var_int_from(d, 1, i), acc, pow128(i)) {
            Ok((v, next)) => Ok(
                HeaderProgress::Complete {
                    control_byte: cb,
                    remaining_len: v as u32,
                    total_len: (next + v) as u32,
                },
            ),
            Err(e) => if e == Error::eof() {
                Ok::<HeaderProgress, Error>(HeaderProgress::Pending)
            } else {
                Err(e)
            },
        },
    decreases 4 - i,
{
    lemma_pow128_bound(i);
    let s = GenericPollPacketState::<H>::Header { control_byte: Some(cb), var_idx: i as u8, var_int: acc as u32 };
    if 1 + i < d.len() {
        let b = d[1 + i as int];
        let m = pow128(i);
        let v = acc + (b % 128) * m;
        assert(v < 128 * m && (b % 128) * m == m * (b % 128)) by (nonlinear_arith)
            requires
                acc < m,
                b % 128 < 128,
                v == acc + (b % 128) * m,
        ;
        assert(128 * m <= 268435456);
        if b >= 128 && i < 3 {
            lemma_lift_step(d, 1, i, acc, m);
            assert(b % 128 == b - 128);
            lemma_feed_var_int::<H>(d, cb, i + 1, v as nat);
            assert(feed_from(s, d, 1 + i as int) == feed_from(
                GenericPollPacketState::<H>::Header { control_byte: Some(cb), var_idx: (i + 1) as u8, var_int: v as u32 },
                d,
                1 + (i + 1) as int,
            ));
        } else if b < 128 {
            assert(b % 128 == b);
            assert(sp_var_int_from(d, 1, i) == Ok::<(nat, int), Error>((b as nat, 1 + i as int + 1)));
        } else {
            assert(sp_var_int_from(d, 1, i) == Err::<(nat, int), Error>(Error::InvalidVarByteInt));
        }
    } else {
        assert(sp_var_int_from(d, 1, i) == Err::<(nat, int), Error>(Error::eof()));
    }
}

} // verus!
