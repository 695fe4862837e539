use vstd::prelude::*;
use vstd::string::StringSliceAdditionalSpecFns;
use vstd::utf8::valid_utf8;

use crate::codec::var_int;
use crate::error::Error;
use crate::text::check_utf8;

verus! {

/// The result of a spec parser: the value and the offset after it.
pub type Parsed<T> = Result<(T, int), Error>;

/// Reads one byte at `off`.
pub open spec fn sp_u8(d: Seq<u8>, off: int) -> Parsed<u8> {
    if 0 <= off < d.len() {
        Ok((d[off], off + 1))
    } else {
        Err(Error::eof())
    }
}

/// Reads a two byte big-endian integer at `off`.
pub open spec fn sp_u16(d: Seq<u8>, off: int) -> Parsed<u16> {
    if 0 <= off && off + 2 <= d.len() {
        Ok(((d[off] * 256 + d[off + 1]) as u16, off + 2))
    } else {
        Err(Error::eof())
    }
}

/// Reads a four byte big-endian integer at `off`.
pub open spec fn sp_u32(d: Seq<u8>, off: int) -> Parsed<u32> {
    if 0 <= off && off + 4 <= d.len() {
        Ok(
            (
                (d[off] * 16777216 + d[off + 1] * 65536 + d[off + 2] * 256 + d[off + 3]) as u32,
                off + 4,
            ),
        )
    } else {
        Err(Error::eof())
    }
}

/// Reads `len` raw bytes at `off`.
pub open spec fn sp_raw(d: Seq<u8>, off: int, len: int) -> Parsed<Seq<u8>> {
    if 0 <= off && 0 <= len && off + len <= d.len() {
        Ok((d.subrange(off, off + len), off + len))
    } else {
        Err(Error::eof())
    }
}

/// Reads a length-prefixed field at `off`.
pub open spec fn sp_bytes(d: Seq<u8>, off: int) -> Parsed<Seq<u8>> {
    match sp_u16(d, off) {
        Ok((len, next)) => sp_raw(d, next, len as int),
        Err(e) => Err(e),
    }
}

/// Reads a length-prefixed field at `off` and checks that it is UTF-8.
pub open spec fn sp_string(d: Seq<u8>, off: int) -> Parsed<Seq<u8>> {
    match sp_bytes(d, off) {
        Ok((s, next)) => if valid_utf8(s) {
            Ok((s, next))
        } else {
            Err(Error::InvalidString)
        },
        Err(e) => Err(e),
    }
}

/// Reads a variable byte integer whose group `i` (counted from 0) stands at
/// `off + i`; the value is that of the groups from `i` on.
pub open spec fn sp_var_int_from(d: Seq<u8>, off: int, i: nat) -> Parsed<nat>
    decreases 4 - i,
{
    if i >= 4 || off + i < 0 || off + i >= d.len() {
        if i >= 4 {
            Err(Error::InvalidVarByteInt)
        } else {
            Err(Error::eof())
        }
    } else {
        let b = d[off + i];
        if b < 128 {
            Ok((b as nat, off + i + 1))
        } else if i < 3 {
            match sp_var_int_from(d, off, i + 1) {
                Ok((v, next)) => Ok((((b - 128) + 128 * v) as nat, next)),
                Err(e) => Err(e),
            }
        } else {
            Err(Error::InvalidVarByteInt)
        }
    }
}

pub proof fn lemma_var_int_from_size(d: Seq<u8>, off: int, i: nat)
    requires
        i <= 4,
    ensures
        sp_var_int_from(d, off, i) matches Ok((v, next)) ==> off + i + 1 <= next <= off + 4
            && v < pow128((4 - i) as nat),
    decreases 4 - i,
{
    reveal_with_fuel(pow128, 5);
    if i < 3 {
        lemma_var_int_from_size(d, off, i + 1);
        if let Ok((v, next)) = sp_var_int_from(d, off, i + 1) {
            assert(pow128((4 - i) as nat) == 128 * pow128((4 - (i + 1)) as nat));
        }
    }
}

/// Reads a variable byte integer (at most four bytes) at `off`.
pub open spec fn sp_var_int(d: Seq<u8>, off: int) -> Parsed<nat> {
    sp_var_int_from(d, off, 0)
}

/// A cursor over a byte slice for decoding.
#[derive(Debug)]
pub struct PacketBuf<'a> {
    data: &'a [u8],
    offset: usize,
}

impl<'a> PacketBuf<'a> {
    /// The bytes under the cursor.
    pub closed spec fn bytes(&self) -> Seq<u8> {
        self.data@
    }

    /// The position of the cursor.
    pub closed spec fn pos(&self) -> int {
        self.offset as int
    }

    /// Starts a cursor at the beginning of `data`.
    pub fn new(data: &'a [u8]) -> (r: Self)
        ensures
            r.bytes() == data@,
            r.pos() == 0,
    {
        Self { data, offset: 0 }
    }

    /// The position of the cursor.
    pub fn position(&self) -> (r: usize)
        ensures
            r == self.pos(),
    {
        self.offset
    }

    /// The number of bytes after the cursor.
    pub fn remaining(&self) -> (r: usize)
        ensures
            r == if self.pos() < self.bytes().len() {
                self.bytes().len() - self.pos()
            } else {
                0
            },
    {
        if self.offset < self.data.len() {
            self.data.len() - self.offset
        } else {
            0
        }
    }

    /// Whether the cursor is at or past the end.
    pub fn is_consumed(&self) -> (r: bool)
        ensures
            r == (self.pos() >= self.bytes().len()),
    {
        self.offset >= self.data.len()
    }

    /// Whether the cursor is exactly at the end.
    pub fn is_fully_consumed(&self) -> (r: bool)
        ensures
            r == (self.pos() == self.bytes().len()),
    {
        self.offset == self.data.len()
    }

    /// The bytes under the cursor.
    pub fn data(&self) -> (r: &'a [u8])
        ensures
            r@ == self.bytes(),
    {
        self.data
    }

    /// Moves the cursor.
    pub fn set_offset(&mut self, offset: usize)
        ensures
            final(self).bytes() == old(self).bytes(),
            final(self).pos() == offset,
    {
        self.offset = offset;
    }

    /// Reads one byte.
    pub fn read_u8(&mut self) -> (r: Result<u8, Error>)
        ensures
            final(self).bytes() == old(self).bytes(),
            match sp_u8(old(self).bytes(), old(self).pos()) {
                Ok((v, next)) => r == Ok::<u8, Error>(v) && final(self).pos() == next,
                Err(e) => r == Err::<u8, Error>(e) && final(self).pos() == old(self).pos(),
            },
    {
        if self.offset >= self.data.len() {
            return Err(Error::IoError(crate::error::IoErrorKind::UnexpectedEof));
        }
        let value = self.data[self.offset];
        self.offset += 1;
        Ok(value)
    }

    /// Reads a two byte big-endian integer.
    pub fn read_u16(&mut self) -> (r: Result<u16, Error>)
        ensures
            final(self).bytes() == old(self).bytes(),
            match sp_u16(old(self).bytes(), old(self).pos()) {
                Ok((v, next)) => r == Ok::<u16, Error>(v) && final(self).pos() == next,
                Err(e) => r == Err::<u16, Error>(e) && final(self).pos() == old(self).pos(),
            },
    {
        if self.offset > self.data.len() || self.data.len() - self.offset < 2 {
            return Err(Error::IoError(crate::error::IoErrorKind::UnexpectedEof));
        }
        let value = self.data[self.offset] as u16 * 256 + self.data[self.offset + 1] as u16;
        self.offset += 2;
        Ok(value)
    }

    /// Reads a four byte big-endian integer.
    pub fn read_u32(&mut self) -> (r: Result<u32, Error>)
        ensures
            final(self).bytes() == old(self).bytes(),
            match sp_u32(old(self).bytes(), old(self).pos()) {
                Ok((v, next)) => r == Ok::<u32, Error>(v) && final(self).pos() == next,
                Err(e) => r == Err::<u32, Error>(e) && final(self).pos() == old(self).pos(),
            },
    {
        if self.offset > self.data.len() || self.data.len() - self.offset < 4 {
            return Err(Error::IoError(crate::error::IoErrorKind::UnexpectedEof));
        }
        let o = self.offset;
        let value = self.data[o] as u32 * 16777216 + self.data[o + 1] as u32 * 65536
            + self.data[o + 2] as u32 * 256 + self.data[o + 3] as u32;
        self.offset += 4;
        Ok(value)
    }

    /// Reads `len` raw bytes.
    pub fn read_raw_bytes(&mut self, len: usize) -> (r: Result<&'a [u8], Error>)
        ensures
            final(self).bytes() == old(self).bytes(),
            match sp_raw(old(self).bytes(), old(self).pos(), len as int) {
                Ok((v, next)) => r matches Ok(s) && s@ == v && final(self).pos() == next,
                Err(e) => r == Err::<&[u8], Error>(e) && final(self).pos() == old(self).pos(),
            },
    {
        if self.offset > self.data.len() || self.data.len() - self.offset < len {
            return Err(Error::IoError(crate::error::IoErrorKind::UnexpectedEof));
        }
        let result = slice_range(self.data, self.offset, self.offset + len);
        self.offset += len;
        Ok(result)
    }

    /// Reads a length-prefixed field. When the length is read but the data
    /// is short, the cursor stays after the length.
    pub fn read_bytes(&mut self) -> (r: Result<&'a [u8], Error>)
        ensures
            final(self).bytes() == old(self).bytes(),
            match sp_bytes(old(self).bytes(), old(self).pos()) {
                Ok((v, next)) => r matches Ok(s) && s@ == v && final(self).pos() == next,
                Err(e) => r == Err::<&[u8], Error>(e) && final(self).pos() == if sp_u16(
                    old(self).bytes(),
                    old(self).pos(),
                ) is Ok {
                    old(self).pos() + 2
                } else {
                    old(self).pos()
                },
            },
    {
        let data_len = self.read_u16()? as usize;
        self.read_raw_bytes(data_len)
    }

    /// Reads a length-prefixed UTF-8 string.
    pub fn read_string(&mut self) -> (r: Result<&'a str, Error>)
        ensures
            final(self).bytes() == old(self).bytes(),
            match sp_string(old(self).bytes(), old(self).pos()) {
                Ok((v, next)) => r matches Ok(s) && s.spec_bytes() == v && final(self).pos()
                    == next,
                Err(e) => r == Err::<&str, Error>(e),
            },
            sp_bytes(old(self).bytes(), old(self).pos()) matches Ok((_, next)) ==> final(self).pos()
                == next,
    {
        let data_slice = self.read_bytes()?;
        match check_utf8(data_slice) {
            Some(s) => Ok(s),
            None => Err(Error::InvalidString),
        }
    }

    /// Reads a variable byte integer of at most four bytes; returns the value
    /// and the number of bytes it took.
    pub fn decode_var_int(&mut self) -> (r: Result<(u32, usize), Error>)
        ensures
            final(self).bytes() == old(self).bytes(),
            match sp_var_int(old(self).bytes(), old(self).pos()) {
                Ok((v, next)) => r == Ok::<(u32, usize), Error>(
                    (v as u32, (next - old(self).pos()) as usize),
                ) && final(self).pos() == next && v < 268435456 && 1 <= next - old(self).pos() <= 4,
                Err(e) => r == Err::<(u32, usize), Error>(e),
            },
    {
        let start = self.offset;
        let ghost d = self.data@;
        proof {
            lemma_var_int_from_size(d, start as int, 0);
            reveal_with_fuel(pow128, 5);
        }
        let mut var_int: u32 = 0;
        let mut mult: u32 = 1;
        let mut i: usize = 0;
        // acc(i) is the value of groups 0..i; the result is acc + mult * rest.
        loop
            invariant
                self.data@ == d,
                d == old(self).data@,
                start == old(self).offset,
                i <= 3,
                self.offset == start + i,
                start <= self.data@.len() || i == 0,
                mult == pow128(i as nat),
                var_int < mult,
                sp_var_int(d, start as int) == lift(sp_var_int_from(d, start as int, i as nat), var_int as nat, mult as nat),
            decreases 4 - i,
        {
            if self.offset >= self.data.len() {
                proof { lemma_lift_err(Error::eof(), var_int as nat, mult as nat); }
                return Err(Error::IoError(crate::error::IoErrorKind::UnexpectedEof));
            }
            let byte = self.data[self.offset];
            self.offset += 1;
            if byte < 128 {
                proof {
                    lemma_pow128_bound(i as nat);
                    assert(var_int + byte * mult < 128 * mult) by (nonlinear_arith)
                        requires var_int < mult, byte < 128;
                    assert(d[start + i] == byte);
                    assert(sp_var_int_from(d, start as int, i as nat) == Ok::<(nat, int), Error>((byte as nat, start + i + 1)));
                    assert(128 * mult <= 268435456);
                }
                let value = var_int + byte as u32 * mult;
                assert(value == var_int + mult * byte);
                return Ok((value, self.offset - start));
            } else if i < 3 {
                proof {
                    lemma_lift_step(d, start as int, i as nat, var_int as nat, mult as nat);
                    lemma_pow128_bound(i as nat);
                    assert(var_int + (byte - 128) * mult < 128 * mult) by (nonlinear_arith)
                        requires var_int < mult, byte < 256, byte >= 128;
                }
                var_int = var_int + (byte - 128) as u32 * mult;
                mult = mult * 128;
                i += 1;
            } else {
                proof { lemma_lift_err(Error::InvalidVarByteInt, var_int as nat, mult as nat); }
                return Err(Error::InvalidVarByteInt);
            }
        }
    }
}

/// 128 to the power `i`.
pub open spec fn pow128(i: nat) -> nat
    decreases i,
{
    if i == 0 {
        1
    } else {
        128 * pow128((i - 1) as nat)
    }
}

pub(crate) proof fn lemma_pow128_bound(i: nat)
    requires
        i <= 3,
    ensures
        pow128(i) <= 2097152,
        128 * pow128(i) == pow128(i + 1),
{
    reveal_with_fuel(pow128, 4);
}

/// Adds the groups already read to a parse of the groups that follow.
pub open spec fn lift(p: Parsed<nat>, acc: nat, mult: nat) -> Parsed<nat> {
    match p {
        Ok((v, next)) => Ok(((acc + mult * v) as nat, next)),
        Err(e) => Err(e),
    }
}

proof fn lemma_lift_err(e: Error, acc: nat, mult: nat)
    ensures
        lift(Err(e), acc, mult) == Err::<(nat, int), Error>(e),
{
}

pub(crate) proof fn lemma_lift_step(d: Seq<u8>, off: int, i: nat, acc: nat, mult: nat)
    requires
        i < 3,
        0 <= off + i < d.len(),
        d[off + i] >= 128,
    ensures
        lift(sp_var_int_from(d, off, i), acc, mult) == lift(
            sp_var_int_from(d, off, i + 1),
            (acc + mult * (d[off + i] - 128)) as nat,
            mult * 128,
        ),
{
    let b = d[off + i];
    match sp_var_int_from(d, off, i + 1) {
        Ok((v, next)) => {
            assert(mult * ((b - 128) + 128 * v) == mult * (b - 128) + (mult * 128) * v)
                by (nonlinear_arith);
        },
        Err(e) => {},
    }
}

/// A sub-slice of `data`.
pub fn slice_range<'a>(data: &'a [u8], start: usize, end: usize) -> (r: &'a [u8])
    requires
        start <= end <= data@.len(),
    ensures
        r@ == data@.subrange(start as int, end as int),
{
    vstd::slice::slice_subrange(data, start, end)
}

} // verus!

verus! {

/// Turns a primitive parse into a decoder result.
pub open spec fn plain<T>(p: Parsed<T>) -> crate::error::PResult<T> {
    match p {
        Ok(x) => Ok(x),
        Err(e) => Err(crate::error::DecodeErr::Plain(e)),
    }
}

/// Reads a length-prefixed UTF-8 string into an owned string.
pub fn read_owned_string(buf: &mut PacketBuf) -> (r: Result<String, Error>)
    ensures
        final(buf).bytes() == old(buf).bytes(),
        match sp_string(old(buf).bytes(), old(buf).pos()) {
            Ok((v, next)) => r matches Ok(s) && vstd::utf8::encode_utf8(s@) == v && final(buf).pos()
                == next,
            Err(e) => r == Err::<String, Error>(e),
        },
{
    let s = buf.read_string()?;
    Ok(s.to_owned())
}

/// Reads a length-prefixed field into an owned vector.
pub fn read_owned_bytes(buf: &mut PacketBuf) -> (r: Result<Vec<u8>, Error>)
    ensures
        final(buf).bytes() == old(buf).bytes(),
        match sp_bytes(old(buf).bytes(), old(buf).pos()) {
            Ok((v, next)) => r matches Ok(s) && s@ == v && final(buf).pos() == next,
            Err(e) => r == Err::<Vec<u8>, Error>(e),
        },
{
    let s = buf.read_bytes()?;
    Ok(vstd::slice::slice_to_vec(s))
}

} // verus!

verus! {

/// `d` holds `s` at `off`.
pub open spec fn at(d: Seq<u8>, off: int, s: Seq<u8>) -> bool {
    0 <= off && off + s.len() <= d.len() && d.subrange(off, off + s.len()) == s
}

pub proof fn lemma_at_concat(d: Seq<u8>, off: int, a: Seq<u8>, b: Seq<u8>)
    requires
        at(d, off, a + b),
    ensures
        at(d, off, a),
        at(d, off + a.len(), b),
{
    let ab = a + b;
    assert forall|k: int| 0 <= k < a.len() implies d[off + k] == a[k] by {
        assert(d.subrange(off, off + ab.len())[k] == ab[k]);
    }
    assert forall|k: int| 0 <= k < b.len() implies d[off + a.len() + k] == b[k] by {
        assert(d.subrange(off, off + ab.len())[a.len() + k] == ab[a.len() + k]);
    }
    assert(d.subrange(off, off + a.len()) =~= a);
    assert(d.subrange(off + a.len(), off + a.len() + b.len()) =~= b);
}

pub proof fn lemma_at_whole(d: Seq<u8>)
    ensures
        at(d, 0, d),
{
    assert(d.subrange(0, d.len() as int) =~= d);
}

pub proof fn lemma_sp_u8_at(d: Seq<u8>, off: int, b: u8)
    requires
        at(d, off, seq![b]),
    ensures
        sp_u8(d, off) == Ok::<(u8, int), Error>((b, off + 1)),
{
    assert(d[off] == d.subrange(off, off + 1)[0]);
}

pub proof fn lemma_sp_u16_at(d: Seq<u8>, off: int, v: int)
    requires
        0 <= v < 65536,
        at(d, off, crate::codec::be16(v)),
    ensures
        sp_u16(d, off) == Ok::<(u16, int), Error>((v as u16, off + 2)),
{
    assert(d[off] == d.subrange(off, off + 2)[0]);
    assert(d[off + 1] == d.subrange(off, off + 2)[1]);
}

pub proof fn lemma_sp_raw_at(d: Seq<u8>, off: int, s: Seq<u8>)
    requires
        at(d, off, s),
    ensures
        sp_raw(d, off, s.len() as int) == Ok::<(Seq<u8>, int), Error>((s, off + s.len())),
{
}

pub proof fn lemma_sp_bytes_at(d: Seq<u8>, off: int, s: Seq<u8>)
    requires
        s.len() <= 65535,
        at(d, off, crate::codec::field(s)),
    ensures
        sp_bytes(d, off) == Ok::<(Seq<u8>, int), Error>((s, off + 2 + s.len())),
        valid_utf8(s) ==> sp_string(d, off) == Ok::<(Seq<u8>, int), Error>(
            (s, off + 2 + s.len()),
        ),
{
    lemma_at_concat(d, off, crate::codec::be16(s.len() as int), s);
    lemma_sp_u16_at(d, off, s.len() as int);
    lemma_sp_raw_at(d, off + 2, s);
}

pub proof fn lemma_sp_var_int_at(d: Seq<u8>, off: int, n: nat)
    requires
        n < 268435456,
        at(d, off, crate::codec::var_int(n)),
    ensures
        sp_var_int(d, off) == Ok::<(nat, int), Error>((n, off + crate::codec::var_int(n).len())),
{
    reveal_with_fuel(pow128, 5);
    lemma_var_int_from_at(d, off, 0, n);
}

proof fn lemma_var_int_from_at(d: Seq<u8>, off: int, i: nat, n: nat)
    requires
        i <= 3,
        n < pow128((4 - i) as nat),
        at(d, off + i, crate::codec::var_int(n)),
    ensures
        sp_var_int_from(d, off, i) == Ok::<(nat, int), Error>(
            (n, off + i + crate::codec::var_int(n).len()),
        ),
    decreases n,
{
    reveal_with_fuel(pow128, 5);
    let e = crate::codec::var_int(n);
    assert(d[off + i] == d.subrange(off + i, off + i + e.len())[0]);
    if n >= 128 {
        let rest = crate::codec::var_int(n / 128);
        assert(e == seq![(n % 128 + 128) as u8] + rest);
        lemma_at_concat(d, off + i, seq![(n % 128 + 128) as u8], rest);
        assert(i < 3) by {
            if i == 3 {
                assert(pow128(1) == 128);
            }
        }
        assert(n / 128 < pow128((4 - (i + 1)) as nat)) by {
            assert(pow128((4 - i) as nat) == 128 * pow128((4 - (i + 1)) as nat));
        }
        lemma_var_int_from_at(d, off, i + 1, n / 128);
    }
}

} // verus!
