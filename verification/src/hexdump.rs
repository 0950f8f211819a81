use vstd::prelude::*;

verus! {

/// ASCII byte of one lowercase hex digit (`0x57 + 10` is `'a'`).
pub open spec fn hex_digit(n: u8) -> u8
    recommends
        n < 16,
{
    if n < 10 {
        (0x30 + n) as u8
    } else {
        (0x57 + n) as u8
    }
}

/// The rendering of byte `i` of a dump that shows `shown` bytes: two hex
/// digits and a space, plus a line break after every 16th byte when more
/// follow.
pub open spec fn byte_part(b: u8, i: int, shown: int) -> Seq<u8> {
    seq![hex_digit(b >> 4u8), hex_digit(b & 0x0f), 0x20u8] + if (i + 1) % 16 == 0 && i + 1
        < shown {
        seq![0x0au8]
    } else {
        Seq::<u8>::empty()
    }
}

/// The rendering of bytes `i ..` of a dump that shows `shown` bytes.
pub open spec fn dump_from(data: Seq<u8>, shown: int, i: int) -> Seq<u8>
    decreases shown - i,
{
    if i < 0 || i >= shown {
        Seq::<u8>::empty()
    } else {
        byte_part(data[i], i, shown) + dump_from(data, shown, i + 1)
    }
}

/// ASCII bytes of the whole dump: the first `min(len, max_bytes)` bytes
/// rendered, then a trailing ellipsis when the data was cut short.
pub open spec fn spec_hex_dump(data: Seq<u8>, max_bytes: int) -> Seq<u8> {
    let shown = if data.len() <= max_bytes {
        data.len() as int
    } else {
        max_bytes
    };
    dump_from(data, shown, 0) + if data.len() > max_bytes {
        seq![0x2eu8, 0x2eu8, 0x2eu8]
    } else {
        Seq::<u8>::empty()
    }
}

/// The characters with the code points of `bs` (meaningful for ASCII bytes).
pub open spec fn ascii_chars(bs: Seq<u8>) -> Seq<char> {
    Seq::new(bs.len(), |i: int| bs[i] as char)
}

/// Relies on String::from_utf8: a buffer of bytes below 0x80 is valid
/// one-byte-per-character UTF-8, and decodes to exactly the characters with
/// those code points.
#[verifier::external_body]
fn ascii_string(bytes: Vec<u8>) -> (r: String)
    requires
        forall|i: int| 0 <= i < bytes@.len() ==> bytes@[i] < 0x80,
    ensures
        r@ == ascii_chars(bytes@),
{
    match String::from_utf8(bytes) {
        Ok(s) => s,
        Err(_) => String::new(),
    }
}

fn hex_digit_byte(n: u8) -> (c: u8)
    requires
        n < 16,
    ensures
        c == hex_digit(n),
        c < 0x80,
{
    if n < 10 {
        0x30 + n
    } else {
        0x57 + n
    }
}

/// How many bytes a dump limited to `max_bytes` shows.
spec fn spec_hex_dump_shown(data: Seq<u8>, max_bytes: int) -> int {
    if data.len() <= max_bytes {
        data.len() as int
    } else {
        max_bytes
    }
}

/// Renders up to `max_bytes` bytes of `data` as lowercase hex for
/// diagnostics: two digits and a space per byte, a line break after every
/// 16th byte when more follow, and a trailing ellipsis when the data was cut
/// short.
pub fn hex_dump(data: &[u8], max_bytes: usize) -> (r: String)
    ensures
        r@ == ascii_chars(spec_hex_dump(data@, max_bytes as int)),
{
    let data_len: usize = data.len();
    let shown: usize = if data_len <= max_bytes {
        data_len
    } else {
        max_bytes
    };
    let mut out: Vec<u8> = Vec::new();
    let mut i: usize = 0;
    while i < shown
        invariant
            i <= shown,
            data_len == data@.len(),
            shown == spec_hex_dump_shown(data@, max_bytes as int),
            shown <= data_len,
            out@ + dump_from(data@, shown as int, i as int) == dump_from(data@, shown as int, 0),
            forall|k: int| 0 <= k < out@.len() ==> out@[k] < 0x80,
        decreases shown - i,
    {
        let ghost out0 = out@;
        let b: u8 = data[i];
        proof {
            assert(b >> 4u8 < 16 && (b & 0x0f) < 16) by (bit_vector);
        }
        out.push(hex_digit_byte(b >> 4u8));
        out.push(hex_digit_byte(b & 0x0f));
        out.push(0x20);
        if (i + 1) % 16 == 0 && i + 1 < shown {
            out.push(0x0a);
        }
        proof {
            assert(out@ =~= out0 + byte_part(data@[i as int], i as int, shown as int));
            assert(out0 + (byte_part(data@[i as int], i as int, shown as int) + dump_from(
                data@,
                shown as int,
                i + 1,
            )) =~= (out0 + byte_part(data@[i as int], i as int, shown as int)) + dump_from(
                data@,
                shown as int,
                i + 1,
            ));
        }
        i = i + 1;
    }
    if data_len > max_bytes {
        out.push(0x2e);
        out.push(0x2e);
        out.push(0x2e);
    }
    proof {
        assert(out@ =~= spec_hex_dump(data@, max_bytes as int));
    }
    ascii_string(out)
}

} // verus!
