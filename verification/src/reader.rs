//! Big-endian primitive reads over a byte slice.
//!
//! Every read takes the slice and a cursor position and returns the value
//! together with the position just past it, or `Error::InvalidClass` when
//! the slice is too short. The spec functions below are the mathematical
//! meaning of each read.

use vstd::prelude::*;
use crate::error::Error;

verus! {

/// The unsigned big-endian 16-bit value at `i`.
pub open spec fn be16(s: Seq<u8>, i: int) -> u16 {
    ((s[i] as int) * 0x100 + (s[i + 1] as int)) as u16
}

/// The unsigned big-endian 32-bit value at `i`.
pub open spec fn be32(s: Seq<u8>, i: int) -> u32 {
    ((s[i] as int) * 0x1000000 + (s[i + 1] as int) * 0x10000 + (s[i + 2] as int) * 0x100 + (
    s[i + 3] as int)) as u32
}

/// The unsigned big-endian 64-bit value at `i`.
pub open spec fn be64(s: Seq<u8>, i: int) -> u64 {
    ((be32(s, i) as int) * 0x100000000 + (be32(s, i + 4) as int)) as u64
}

/// True when `n` more bytes are available at `pos`.
pub fn has_bytes(s: &[u8], pos: usize, n: usize) -> (r: bool)
    ensures
        r == (pos + n <= s@.len()),
{
    n <= s.len() && pos <= s.len() - n
}

/// The byte at `pos`, or `InvalidClass` past the end.
pub fn read_u8(s: &[u8], pos: usize) -> (r: Result<(u8, usize), Error>)
    ensures
        match r {
            Ok(v) => pos + 1 <= s@.len() && v.0 == s@[pos as int] && v.1 == pos + 1,
            Err(e) => pos + 1 > s@.len() && e == Error::InvalidClass,
        },
{
    if has_bytes(s, pos, 1) {
        Ok((s[pos], pos + 1))
    } else {
        Err(Error::InvalidClass)
    }
}

/// The byte at `pos` as a signed value.
pub fn read_i8(s: &[u8], pos: usize) -> (r: Result<(i8, usize), Error>)
    ensures
        match r {
            Ok(v) => pos + 1 <= s@.len() && v.0 == s@[pos as int] as i8 && v.1 == pos + 1,
            Err(e) => pos + 1 > s@.len() && e == Error::InvalidClass,
        },
{
    match read_u8(s, pos) {
        Ok((b, p)) => Ok((b as i8, p)),
        Err(e) => Err(e),
    }
}

/// The big-endian 16-bit value at `pos`.
pub fn read_u16(s: &[u8], pos: usize) -> (r: Result<(u16, usize), Error>)
    ensures
        match r {
            Ok(v) => pos + 2 <= s@.len() && v.0 == be16(s@, pos as int) && v.1 == pos + 2,
            Err(e) => pos + 2 > s@.len() && e == Error::InvalidClass,
        },
{
    if has_bytes(s, pos, 2) {
        let v: u16 = (s[pos] as u16) * 0x100 + (s[pos + 1] as u16);
        Ok((v, pos + 2))
    } else {
        Err(Error::InvalidClass)
    }
}

/// The big-endian 16-bit value at `pos`, two's-complement signed.
pub fn read_i16(s: &[u8], pos: usize) -> (r: Result<(i16, usize), Error>)
    ensures
        match r {
            Ok(v) => pos + 2 <= s@.len() && v.0 == be16(s@, pos as int) as i16 && v.1 == pos + 2,
            Err(e) => pos + 2 > s@.len() && e == Error::InvalidClass,
        },
{
    match read_u16(s, pos) {
        Ok((v, p)) => Ok((v as i16, p)),
        Err(e) => Err(e),
    }
}

/// The big-endian 32-bit value at `pos`.
pub fn read_u32(s: &[u8], pos: usize) -> (r: Result<(u32, usize), Error>)
    ensures
        match r {
            Ok(v) => pos + 4 <= s@.len() && v.0 == be32(s@, pos as int) && v.1 == pos + 4,
            Err(e) => pos + 4 > s@.len() && e == Error::InvalidClass,
        },
{
    if has_bytes(s, pos, 4) {
        let v: u32 = (s[pos] as u32) * 0x1000000 + (s[pos + 1] as u32) * 0x10000 + (s[pos
            + 2] as u32) * 0x100 + (s[pos + 3] as u32);
        Ok((v, pos + 4))
    } else {
        Err(Error::InvalidClass)
    }
}

/// The big-endian 32-bit value at `pos`, two's-complement signed.
pub fn read_i32(s: &[u8], pos: usize) -> (r: Result<(i32, usize), Error>)
    ensures
        match r {
            Ok(v) => pos + 4 <= s@.len() && v.0 == be32(s@, pos as int) as i32 && v.1 == pos + 4,
            Err(e) => pos + 4 > s@.len() && e == Error::InvalidClass,
        },
{
    match read_u32(s, pos) {
        Ok((v, p)) => Ok((v as i32, p)),
        Err(e) => Err(e),
    }
}

/// The big-endian 64-bit value at `pos`.
pub fn read_u64(s: &[u8], pos: usize) -> (r: Result<(u64, usize), Error>)
    ensures
        match r {
            Ok(v) => pos + 8 <= s@.len() && v.0 == be64(s@, pos as int) && v.1 == pos + 8,
            Err(e) => pos + 8 > s@.len() && e == Error::InvalidClass,
        },
{
    if has_bytes(s, pos, 8) {
        let hi = match read_u32(s, pos) {
            Ok((v, _)) => v,
            Err(e) => { return Err(e); },
        };
        let lo = match read_u32(s, pos + 4) {
            Ok((v, _)) => v,
            Err(e) => { return Err(e); },
        };
        let v: u64 = (hi as u64) * 0x100000000 + (lo as u64);
        Ok((v, pos + 8))
    } else {
        Err(Error::InvalidClass)
    }
}

/// The big-endian 64-bit value at `pos`, two's-complement signed.
pub fn read_i64(s: &[u8], pos: usize) -> (r: Result<(i64, usize), Error>)
    ensures
        match r {
            Ok(v) => pos + 8 <= s@.len() && v.0 == be64(s@, pos as int) as i64 && v.1 == pos + 8,
            Err(e) => pos + 8 > s@.len() && e == Error::InvalidClass,
        },
{
    match read_u64(s, pos) {
        Ok((v, p)) => Ok((v as i64, p)),
        Err(e) => Err(e),
    }
}

/// The `n` bytes starting at `pos`, copied out.
pub fn read_bytes(s: &[u8], pos: usize, n: usize) -> (r: Result<(Vec<u8>, usize), Error>)
    ensures
        match r {
            Ok(v) => pos + n <= s@.len() && v.0@ == s@.subrange(pos as int, pos + n) && v.1 == pos
                + n,
            Err(e) => pos + n > s@.len() && e == Error::InvalidClass,
        },
{
    if has_bytes(s, pos, n) {
        let slen: usize = s.len();
        let mut out: Vec<u8> = Vec::new();
        let mut i: usize = 0;
        while i < n
            invariant
                i <= n,
                pos + n <= slen,
                slen == s@.len(),
                out@ == s@.subrange(pos as int, pos + i),
            decreases n - i,
        {
            out.push(s[pos + i]);
            i = i + 1;
            proof {
                assert(out@ =~= s@.subrange(pos as int, pos + i));
            }
        }
        Ok((out, pos + n))
    } else {
        Err(Error::InvalidClass)
    }
}

/// Byte-for-byte equality of two byte vectors.
pub fn bytes_eq(a: &Vec<u8>, b: &Vec<u8>) -> (r: bool)
    ensures
        r == (a@ == b@),
{
    if a.len() != b.len() {
        proof {
            assert(a@.len() != b@.len());
        }
        return false;
    }
    let mut i: usize = 0;
    while i < a.len()
        invariant
            i <= a.len(),
            a@.len() == b@.len(),
            forall|j: int| 0 <= j < i ==> a@[j] == b@[j],
        decreases a.len() - i,
    {
        if a[i] != b[i] {
            return false;
        }
        i = i + 1;
    }
    proof {
        assert(a@ =~= b@);
    }
    true
}

/// A copy of a byte vector.
pub fn copy_bytes(b: &Vec<u8>) -> (r: Vec<u8>)
    ensures
        r@ == b@,
{
    let mut out: Vec<u8> = Vec::new();
    let mut i: usize = 0;
    while i < b.len()
        invariant
            i <= b@.len(),
            out@ == b@.subrange(0, i as int),
        decreases b@.len() - i,
    {
        out.push(b[i]);
        i = i + 1;
        proof {
            assert(out@ =~= b@.subrange(0, i as int));
        }
    }
    proof {
        assert(out@ =~= b@);
    }
    out
}

} // verus!
