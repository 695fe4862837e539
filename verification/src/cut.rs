use vstd::prelude::*;

use crate::buf::{
    plain, sp_bytes, sp_raw, sp_string, sp_u16, sp_u32, sp_u8, sp_var_int, sp_var_int_from, Parsed,
};
use crate::error::{DecodeErr, Error, PResult};
use crate::types::{sp_protocol, sp_protocol_raw};

verus! {

/// The first `k` bytes of `d`.
pub open spec fn cut(d: Seq<u8>, k: int) -> Seq<u8> {
    d.subrange(0, k)
}

/// `c` is what a parser gives on `d` cut at `k`, where `r` is what it gives on
/// all of `d` from `off`: where `r` succeeds, it ends at or after `off`, and
/// `c` is the same result when the cut is at or after that end, and the end of
/// the input when the cut falls between `off` and that end.
pub open spec fn cut_ok<T>(r: Parsed<T>, c: Parsed<T>, off: int, k: int) -> bool {
    r matches Ok((v, next)) ==> {
        &&& next >= off
        &&& next <= k ==> c == r
        &&& off <= k < next ==> c == Err::<(T, int), Error>(Error::eof())
    }
}

/// As `cut_ok`, for decoders whose errors may carry a string.
pub open spec fn cut_okp<T>(r: PResult<T>, c: PResult<T>, off: int, k: int) -> bool {
    r matches Ok((v, next)) ==> {
        &&& next >= off
        &&& next <= k ==> c == r
        &&& off <= k < next ==> c == Err::<(T, int), DecodeErr>(DecodeErr::Plain(Error::eof()))
    }
}

pub proof fn lemma_cut_plain<T>(r: Parsed<T>, c: Parsed<T>, off: int, k: int)
    requires
        cut_ok(r, c, off, k),
    ensures
        cut_okp(plain(r), plain(c), off, k),
{
}

pub proof fn lemma_cut_u8(d: Seq<u8>, off: int, k: int)
    requires
        0 <= k <= d.len(),
    ensures
        cut_ok(sp_u8(d, off), sp_u8(cut(d, k), off), off, k),
{
}

pub proof fn lemma_cut_u16(d: Seq<u8>, off: int, k: int)
    requires
        0 <= k <= d.len(),
    ensures
        cut_ok(sp_u16(d, off), sp_u16(cut(d, k), off), off, k),
{
}

pub proof fn lemma_cut_u32(d: Seq<u8>, off: int, k: int)
    requires
        0 <= k <= d.len(),
    ensures
        cut_ok(sp_u32(d, off), sp_u32(cut(d, k), off), off, k),
{
}

pub proof fn lemma_cut_raw(d: Seq<u8>, off: int, len: int, k: int)
    requires
        0 <= k <= d.len(),
    ensures
        cut_ok(sp_raw(d, off, len), sp_raw(cut(d, k), off, len), off, k),
{
    if 0 <= off && 0 <= len && off + len <= k {
        assert(cut(d, k).subrange(off, off + len) =~= d.subrange(off, off + len));
    }
}

pub proof fn lemma_cut_bytes(d: Seq<u8>, off: int, k: int)
    requires
        0 <= k <= d.len(),
    ensures
        cut_ok(sp_bytes(d, off), sp_bytes(cut(d, k), off), off, k),
{
    lemma_cut_u16(d, off, k);
    if let Ok((len, next)) = sp_u16(d, off) {
        lemma_cut_raw(d, next, len as int, k);
    }
}

pub proof fn lemma_cut_string(d: Seq<u8>, off: int, k: int)
    requires
        0 <= k <= d.len(),
    ensures
        cut_ok(sp_string(d, off), sp_string(cut(d, k), off), off, k),
{
    lemma_cut_bytes(d, off, k);
}

pub proof fn lemma_cut_var_int_from(d: Seq<u8>, off: int, i: nat, k: int)
    requires
        0 <= k <= d.len(),
    ensures
        cut_ok(sp_var_int_from(d, off, i), sp_var_int_from(cut(d, k), off, i), off + i, k),
    decreases 4 - i,
{
    if i < 3 && 0 <= off + i < d.len() && d[off + i] >= 128 {
        lemma_cut_var_int_from(d, off, i + 1, k);
    }
}

pub proof fn lemma_cut_var_int(d: Seq<u8>, off: int, k: int)
    requires
        0 <= k <= d.len(),
    ensures
        cut_ok(sp_var_int(d, off), sp_var_int(cut(d, k), off), off, k),
{
    lemma_cut_var_int_from(d, off, 0, k);
}


pub proof fn lemma_cut_protocol(d: Seq<u8>, off: int, k: int)
    requires
        0 <= k <= d.len(),
    ensures
        cut_okp(sp_protocol(d, off), sp_protocol(cut(d, k), off), off, k),
{
    lemma_cut_bytes(d, off, k);
    if let Ok((name, next)) = sp_bytes(d, off) {
        lemma_cut_u8(d, next, k);
    }
    assert(cut_ok(sp_protocol_raw(d, off), sp_protocol_raw(cut(d, k), off), off, k));
}

} // verus!
