use vstd::prelude::*;

use crate::error::Error;

verus! {

/// The variable byte integer limit: encoded values must be smaller.
pub const VAR_INT_LIMIT: usize = 268435456;

/// Big-endian encoding of a two byte integer.
pub open spec fn be16(v: int) -> Seq<u8> {
    seq![(v / 256) as u8, (v % 256) as u8]
}

/// Big-endian encoding of a four byte integer.
pub open spec fn be32(v: int) -> Seq<u8> {
    seq![
        (v / 16777216) as u8,
        ((v / 65536) % 256) as u8,
        ((v / 256) % 256) as u8,
        (v % 256) as u8,
    ]
}

/// A length-prefixed field: the length in two big-endian bytes (the writer
/// truncates it to 16 bits), then the data.
pub open spec fn field(data: Seq<u8>) -> Seq<u8> {
    be16((data.len() % 65536) as int) + data
}

/// The variable byte integer encoding: 7 bits per byte, least significant
/// group first, the top bit set on every byte but the last.
pub open spec fn var_int(n: nat) -> Seq<u8>
    decreases n,
{
    if n < 128 {
        seq![n as u8]
    } else {
        seq![(n % 128 + 128) as u8] + var_int(n / 128)
    }
}

/// The number of bytes that `var_int` takes for `n`, by range.
pub open spec fn var_int_size(n: nat) -> nat {
    if n < 128 {
        1
    } else if n < 16384 {
        2
    } else if n < 2097152 {
        3
    } else {
        4
    }
}

pub proof fn lemma_var_int_len(n: nat)
    requires
        n < 268435456,
    ensures
        var_int(n).len() == var_int_size(n),
        1 <= var_int(n).len() <= 4,
{
    reveal_with_fuel(var_int, 5);
}

/// Total length of a packet with the given remaining length.
pub open spec fn spec_total_len(remaining: nat) -> nat {
    1 + var_int_size(remaining) + remaining
}

/// Header length of a packet of the given valid total length.
pub open spec fn spec_header_len(total: nat) -> nat {
    if total < 128 + 2 {
        2
    } else if total < 16384 + 3 {
        3
    } else if total < 2097152 + 4 {
        4
    } else {
        5
    }
}

/// Appends one byte.
pub fn write_u8(buf: &mut Vec<u8>, value: u8)
    ensures
        final(buf)@ == old(buf)@.push(value),
{
    buf.push(value);
}

/// Appends a two byte big-endian integer.
pub fn write_u16(buf: &mut Vec<u8>, value: u16)
    ensures
        final(buf)@ == old(buf)@ + be16(value as int),
{
    buf.push((value / 256) as u8);
    buf.push((value % 256) as u8);
}

/// Appends a four byte big-endian integer.
pub fn write_u32(buf: &mut Vec<u8>, value: u32)
    ensures
        final(buf)@ == old(buf)@ + be32(value as int),
{
    buf.push((value / 16777216) as u8);
    buf.push(((value / 65536) % 256) as u8);
    buf.push(((value / 256) % 256) as u8);
    buf.push((value % 256) as u8);
}

/// Appends raw bytes.
pub fn write_raw(buf: &mut Vec<u8>, data: &[u8])
    ensures
        final(buf)@ == old(buf)@ + data@,
{
    let ghost start = buf@;
    let mut i: usize = 0;
    while i < data.len()
        invariant
            i <= data.len(),
            buf@ == start + data@.subrange(0, i as int),
        decreases data.len() - i,
    {
        buf.push(data[i]);
        i += 1;
        assert(data@.subrange(0, i as int) == data@.subrange(0, i - 1 as int).push(data@[i - 1]));
    }
    assert(data@.subrange(0, data.len() as int) == data@);
}

/// Appends a length-prefixed field.
pub fn write_bytes(buf: &mut Vec<u8>, data: &[u8])
    ensures
        final(buf)@ == old(buf)@ + field(data@),
{
    let len: u16 = (data.len() % 65536) as u16;
    write_u16(buf, len);
    write_raw(buf, data);
    assert(old(buf)@ + be16(len as int) + data@ == old(buf)@ + field(data@));
}

/// Appends a variable byte integer.
pub fn write_var_int(buf: &mut Vec<u8>, len: usize)
    ensures
        final(buf)@ == old(buf)@ + var_int(len as nat),
    decreases len,
{
    if len < 128 {
        buf.push(len as u8);
    } else {
        let byte: u8 = (len % 128 + 128) as u8;
        buf.push(byte);
        let ghost mid = buf@;
        write_var_int(buf, len / 128);
        assert(mid + var_int((len / 128) as nat) == old(buf)@ + var_int(len as nat));
    }
}

/// Returns the encoded size of the variable byte integer.
pub fn var_int_len(value: usize) -> (r: Result<usize, Error>)
    ensures
        value < VAR_INT_LIMIT ==> r == Ok::<usize, Error>(var_int(value as nat).len() as usize),
        value >= VAR_INT_LIMIT ==> r == Err::<usize, Error>(Error::InvalidVarByteInt),
{
    proof {
        if value < VAR_INT_LIMIT {
            lemma_var_int_len(value as nat);
        }
    }
    if value < 128 {
        Ok(1)
    } else if value < 16384 {
        Ok(2)
    } else if value < 2097152 {
        Ok(3)
    } else if value < 268435456 {
        Ok(4)
    } else {
        Err(Error::InvalidVarByteInt)
    }
}

/// Returns the total encoded length of a packet with the given remaining length.
pub fn total_len(remaining_len: usize) -> (r: Result<usize, Error>)
    ensures
        remaining_len < VAR_INT_LIMIT ==> r == Ok::<usize, Error>(
            spec_total_len(remaining_len as nat) as usize,
        ),
        remaining_len >= VAR_INT_LIMIT ==> r == Err::<usize, Error>(Error::InvalidVarByteInt),
{
    let header_len: usize = if remaining_len < 128 {
        2
    } else if remaining_len < 16384 {
        3
    } else if remaining_len < 2097152 {
        4
    } else if remaining_len < 268435456 {
        5
    } else {
        return Err(Error::InvalidVarByteInt);
    };
    Ok(header_len + remaining_len)
}

/// Returns the header length of a packet of the given total length.
pub fn header_len(total_len: usize) -> (r: usize)
    ensures
        r == spec_header_len(total_len as nat),
{
    if total_len < 128 + 2 {
        2
    } else if total_len < 16384 + 3 {
        3
    } else if total_len < 2097152 + 4 {
        4
    } else {
        5
    }
}

/// Returns the remaining length of a packet of the given total length.
pub fn remaining_len(total_len: usize) -> (r: usize)
    requires
        total_len >= spec_header_len(total_len as nat),
    ensures
        r == total_len - spec_header_len(total_len as nat),
{
    total_len - header_len(total_len)
}

/// The total length of a packet computed from its remaining length gives that
/// remaining length back, and the header length is one byte more than the
/// variable byte integer.
pub proof fn lemma_total_remaining_roundtrip(remaining: nat)
    requires
        remaining < 268435456,
    ensures
        spec_header_len(spec_total_len(remaining)) == 1 + var_int(remaining).len(),
        spec_total_len(remaining) - spec_header_len(spec_total_len(remaining)) == remaining,
{
    lemma_var_int_len(remaining);
}

} // verus!
