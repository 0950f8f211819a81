use crate::floatbits::{f64_bits_from_neg, f64_bits_from_uint};
use crate::msg::DecodeError;
use crate::wire::{
    sp_read_array_len, sp_read_num, sp_read_str, sp_read_u32, ARRAY16, ARRAY32, FIXARRAY_BASE,
    FIXARRAY_TOP, FIXSTR_BASE, FIXSTR_TOP, FLOAT64, INT16, INT32, INT64, INT8, NEG_FIXINT_BASE,
    POS_FIXINT_TOP, STR16, STR32, STR8, UINT16, UINT32, UINT64, UINT8,
};
use vstd::prelude::*;

verus! {

// Bounds-checked readers over a byte buffer, one per primitive element of
// the wire format.  Each reader proves that it behaves exactly like its
// specification-level counterpart, so the message-mapping logic above them
// never touches raw offsets.

/// Whether a marker byte announces a string element of any width.
pub fn is_str_marker(marker: u8) -> (r: bool)
    ensures
        r == (FIXSTR_BASE <= marker <= FIXSTR_TOP || marker == STR8 || marker == STR16 || marker
            == STR32),
{
    proof {
        assert(((marker & 0xe0) == 0xa0) == (0xa0 <= marker <= 0xbf)) by (bit_vector);
    }
    (marker & 0xe0) == 0xa0 || marker == STR8 || marker == STR16 || marker == STR32
}

/// Whether a marker byte announces an unsigned integer element of any width.
pub fn is_uint_marker(marker: u8) -> (r: bool)
    ensures
        r == (marker <= POS_FIXINT_TOP || marker == UINT8 || marker == UINT16 || marker == UINT32
            || marker == UINT64),
{
    proof {
        assert(((marker & 0x80) == 0) == (marker <= 0x7f)) by (bit_vector);
    }
    (marker & 0x80) == 0 || marker == UINT8 || marker == UINT16 || marker == UINT32 || marker
        == UINT64
}

/// Whether a marker byte announces a signed integer element of any width.
pub fn is_int_marker(marker: u8) -> (r: bool)
    ensures
        r == (marker >= NEG_FIXINT_BASE || marker == INT8 || marker == INT16 || marker == INT32
            || marker == INT64),
{
    proof {
        assert(((marker & 0xe0) == 0xe0) == (marker >= 0xe0)) by (bit_vector);
    }
    (marker & 0xe0) == 0xe0 || marker == INT8 || marker == INT16 || marker == INT32 || marker
        == INT64
}

/// Reads an array header at `pos`: the element count and the index after the
/// header.
pub fn read_array_len(buf: &[u8], pos: usize) -> (r: Result<(u32, usize), DecodeError>)
    ensures
        match r {
            Ok((n, j)) => pos < j <= buf@.len() && sp_read_array_len(buf@, pos as int) == Ok::<
                _,
                DecodeError,
            >((n, j as int)),
            Err(e) => sp_read_array_len(buf@, pos as int) == Err::<(u32, int), _>(e),
        },
{
    if pos >= buf.len() {
        return Err(DecodeError::Truncated);
    }
    let m: u8 = buf[pos];
    if FIXARRAY_BASE <= m && m <= FIXARRAY_TOP {
        Ok((((m - FIXARRAY_BASE) as u32), pos + 1))
    } else if m == ARRAY16 {
        if buf.len() - pos >= 3 {
            let n: u32 = ((buf[pos + 1] as u32) << 8u32) | (buf[pos + 2] as u32);
            Ok((n, pos + 3))
        } else {
            Err(DecodeError::Truncated)
        }
    } else if m == ARRAY32 {
        if buf.len() - pos >= 5 {
            let n: u32 = ((buf[pos + 1] as u32) << 24u32) | ((buf[pos + 2] as u32) << 16u32) | ((
            buf[pos + 3] as u32) << 8u32) | (buf[pos + 4] as u32);
            Ok((n, pos + 5))
        } else {
            Err(DecodeError::Truncated)
        }
    } else {
        Err(DecodeError::TypeMismatch)
    }
}

/// Reads a string element at `pos`: the start and length of its bytes.
pub fn read_str(buf: &[u8], pos: usize) -> (r: Result<(usize, usize), DecodeError>)
    ensures
        match r {
            Ok((st, l)) => pos < st && st + l <= buf@.len() && sp_read_str(buf@, pos as int)
                == Ok::<_, DecodeError>((st as int, l as int)),
            Err(e) => sp_read_str(buf@, pos as int) == Err::<(int, int), _>(e),
        },
{
    if pos >= buf.len() {
        return Err(DecodeError::Truncated);
    }
    let m: u8 = buf[pos];
    if FIXSTR_BASE <= m && m <= FIXSTR_TOP {
        let l: usize = (m - FIXSTR_BASE) as usize;
        if buf.len() - pos >= 1 && buf.len() - (pos + 1) >= l {
            Ok((pos + 1, l))
        } else {
            Err(DecodeError::Truncated)
        }
    } else if m == STR8 {
        if buf.len() - pos >= 2 {
            let l: usize = buf[pos + 1] as usize;
            if buf.len() - (pos + 2) >= l {
                Ok((pos + 2, l))
            } else {
                Err(DecodeError::Truncated)
            }
        } else {
            Err(DecodeError::Truncated)
        }
    } else {
        Err(DecodeError::TypeMismatch)
    }
}

/// Reads a numeric element at `pos` as the bit pattern of a 64-bit float:
/// the canonical float64 form, or a compact integer form of a whole value.
pub fn read_num(buf: &[u8], pos: usize) -> (r: Result<(u64, usize), DecodeError>)
    ensures
        match r {
            Ok((b, j)) => pos < j <= buf@.len() && sp_read_num(buf@, pos as int) == Ok::<
                _,
                DecodeError,
            >((b, j as int)),
            Err(e) => sp_read_num(buf@, pos as int) == Err::<(u64, int), _>(e),
        },
{
    if pos >= buf.len() {
        return Err(DecodeError::Truncated);
    }
    let m: u8 = buf[pos];
    if m <= POS_FIXINT_TOP {
        Ok((f64_bits_from_uint(m as u64), pos + 1))
    } else if m >= NEG_FIXINT_BASE {
        Ok((f64_bits_from_neg(0x100 - (m as u64)), pos + 1))
    } else if m == UINT8 {
        if buf.len() - pos >= 2 {
            Ok((f64_bits_from_uint(buf[pos + 1] as u64), pos + 2))
        } else {
            Err(DecodeError::Truncated)
        }
    } else if m == UINT16 {
        if buf.len() - pos >= 3 {
            let v: u32 = ((buf[pos + 1] as u32) << 8u32) | (buf[pos + 2] as u32);
            Ok((f64_bits_from_uint(v as u64), pos + 3))
        } else {
            Err(DecodeError::Truncated)
        }
    } else if m == UINT32 {
        if buf.len() - pos >= 5 {
            let v: u32 = ((buf[pos + 1] as u32) << 24u32) | ((buf[pos + 2] as u32) << 16u32) | ((
            buf[pos + 3] as u32) << 8u32) | (buf[pos + 4] as u32);
            Ok((f64_bits_from_uint(v as u64), pos + 5))
        } else {
            Err(DecodeError::Truncated)
        }
    } else if m == INT8 {
        if buf.len() - pos >= 2 {
            let b: u8 = buf[pos + 1];
            let bits: u64 = if b >= 0x80 {
                f64_bits_from_neg(0x100 - (b as u64))
            } else {
                f64_bits_from_uint(b as u64)
            };
            Ok((bits, pos + 2))
        } else {
            Err(DecodeError::Truncated)
        }
    } else if m == INT16 {
        if buf.len() - pos >= 3 {
            let hi: u8 = buf[pos + 1];
            let lo: u8 = buf[pos + 2];
            let v: u32 = ((hi as u32) << 8u32) | (lo as u32);
            proof {
                assert((((hi as u32) << 8u32) | (lo as u32)) <= 0xffff) by (bit_vector);
            }
            let bits: u64 = if v >= 0x8000 {
                f64_bits_from_neg(0x1_0000 - (v as u64))
            } else {
                f64_bits_from_uint(v as u64)
            };
            Ok((bits, pos + 3))
        } else {
            Err(DecodeError::Truncated)
        }
    } else if m == INT32 {
        if buf.len() - pos >= 5 {
            let v: u32 = ((buf[pos + 1] as u32) << 24u32) | ((buf[pos + 2] as u32) << 16u32) | ((
            buf[pos + 3] as u32) << 8u32) | (buf[pos + 4] as u32);
            let bits: u64 = if v >= 0x8000_0000 {
                f64_bits_from_neg(0x1_0000_0000 - (v as u64))
            } else {
                f64_bits_from_uint(v as u64)
            };
            Ok((bits, pos + 5))
        } else {
            Err(DecodeError::Truncated)
        }
    } else if m == FLOAT64 {
        if buf.len() - pos >= 9 {
            let bits: u64 = ((buf[pos + 1] as u64) << 56u64) | ((buf[pos + 2] as u64) << 48u64) | (
            (buf[pos + 3] as u64) << 40u64) | ((buf[pos + 4] as u64) << 32u64) | ((buf[pos
                + 5] as u64) << 24u64) | ((buf[pos + 6] as u64) << 16u64) | ((buf[pos + 7] as u64)
                << 8u64) | (buf[pos + 8] as u64);
            Ok((bits, pos + 9))
        } else {
            Err(DecodeError::Truncated)
        }
    } else {
        Err(DecodeError::TypeMismatch)
    }
}

/// Reads an identity element at `pos`: an unsigned integer of any width.
pub fn read_u32(buf: &[u8], pos: usize) -> (r: Result<(u32, usize), DecodeError>)
    ensures
        match r {
            Ok((id, j)) => pos < j <= buf@.len() && sp_read_u32(buf@, pos as int) == Ok::<
                _,
                DecodeError,
            >((id, j as int)),
            Err(e) => sp_read_u32(buf@, pos as int) == Err::<(u32, int), _>(e),
        },
{
    if pos >= buf.len() {
        return Err(DecodeError::Truncated);
    }
    let m: u8 = buf[pos];
    if m <= POS_FIXINT_TOP {
        Ok((m as u32, pos + 1))
    } else if m == UINT8 {
        if buf.len() - pos >= 2 {
            Ok((buf[pos + 1] as u32, pos + 2))
        } else {
            Err(DecodeError::Truncated)
        }
    } else if m == UINT16 {
        if buf.len() - pos >= 3 {
            let v: u32 = ((buf[pos + 1] as u32) << 8u32) | (buf[pos + 2] as u32);
            Ok((v, pos + 3))
        } else {
            Err(DecodeError::Truncated)
        }
    } else if m == UINT32 {
        if buf.len() - pos >= 5 {
            let v: u32 = ((buf[pos + 1] as u32) << 24u32) | ((buf[pos + 2] as u32) << 16u32) | ((
            buf[pos + 3] as u32) << 8u32) | (buf[pos + 4] as u32);
            Ok((v, pos + 5))
        } else {
            Err(DecodeError::Truncated)
        }
    } else {
        Err(DecodeError::TypeMismatch)
    }
}

/// Whether `buf[start .. start + len]` is exactly the byte string `expected`.
pub fn bytes_eq(buf: &[u8], start: usize, len: usize, expected: &Vec<u8>) -> (r: bool)
    requires
        start + len <= buf@.len(),
    ensures
        r == (buf@.subrange(start as int, start as int + len as int) == expected@),
{
    if len != expected.len() {
        return false;
    }
    let buf_len: usize = buf.len();
    let mut i: usize = 0;
    while i < len
        invariant
            i <= len,
            buf_len == buf@.len(),
            start + len <= buf@.len(),
            len == expected@.len(),
            forall|k: int| 0 <= k < i ==> buf@[start + k] == expected@[k],
        decreases len - i,
    {
        if buf[start + i] != expected[i] {
            proof {
                assert(buf@.subrange(start as int, start as int + len as int)[i as int]
                    != expected@[i as int]);
            }
            return false;
        }
        i = i + 1;
    }
    proof {
        assert(buf@.subrange(start as int, start as int + len as int) =~= expected@);
    }
    true
}

} // verus!
