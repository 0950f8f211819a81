use crate::floatbits::f64_bits_of_int;
use crate::msg::{ClientMessage, DecodeError, ServerMessage};
use vstd::prelude::*;

verus! {

// Marker bytes of the wire format.  Every encoded message is one array whose
// first element is a short string tag; the remaining elements are numbers.

pub const FIXARRAY_BASE: u8 = 0x90;

pub const FIXARRAY_TOP: u8 = 0x9f;

pub const ARRAY16: u8 = 0xdc;

pub const ARRAY32: u8 = 0xdd;

pub const FIXSTR_BASE: u8 = 0xa0;

pub const FIXSTR_TOP: u8 = 0xbf;

pub const STR8: u8 = 0xd9;

pub const STR16: u8 = 0xda;

pub const STR32: u8 = 0xdb;

pub const POS_FIXINT_TOP: u8 = 0x7f;

pub const UINT8: u8 = 0xcc;

pub const UINT16: u8 = 0xcd;

pub const UINT32: u8 = 0xce;

pub const UINT64: u8 = 0xcf;

pub const INT8: u8 = 0xd0;

pub const INT16: u8 = 0xd1;

pub const INT32: u8 = 0xd2;

pub const INT64: u8 = 0xd3;

pub const FLOAT32: u8 = 0xca;

pub const FLOAT64: u8 = 0xcb;

pub const NIL: u8 = 0xc0;

pub const NEG_FIXINT_BASE: u8 = 0xe0;

// ---------------------------------------------------------------------------
// Byte-level pieces of the canonical encoding.

/// Big-endian bytes of a 32-bit unsigned integer.
pub open spec fn be4(x: u32) -> Seq<u8> {
    seq![
        (x >> 24u32) as u8,
        ((x >> 16u32) & 0xff) as u8,
        ((x >> 8u32) & 0xff) as u8,
        (x & 0xff) as u8,
    ]
}

/// Big-endian bytes of a 64-bit value (an IEEE-754 bit pattern).
pub open spec fn be8(x: u64) -> Seq<u8> {
    seq![
        (x >> 56u64) as u8,
        ((x >> 48u64) & 0xff) as u8,
        ((x >> 40u64) & 0xff) as u8,
        ((x >> 32u64) & 0xff) as u8,
        ((x >> 24u64) & 0xff) as u8,
        ((x >> 16u64) & 0xff) as u8,
        ((x >> 8u64) & 0xff) as u8,
        (x & 0xff) as u8,
    ]
}

/// The 16-bit big-endian value at `s[i..i+2]`, widened to `u32`.
pub open spec fn be_u16_at(s: Seq<u8>, i: int) -> u32 {
    (((s[i] as u32) << 8u32) | (s[i + 1] as u32)) as u32
}

/// The 32-bit big-endian value at `s[i..i+4]`.
pub open spec fn be_u32_at(s: Seq<u8>, i: int) -> u32 {
    (((s[i] as u32) << 24u32) | ((s[i + 1] as u32) << 16u32) | ((s[i + 2] as u32) << 8u32) | (s[i
        + 3] as u32)) as u32
}

/// The 64-bit big-endian value at `s[i..i+8]`.
pub open spec fn be_u64_at(s: Seq<u8>, i: int) -> u64 {
    (((s[i] as u64) << 56u64) | ((s[i + 1] as u64) << 48u64) | ((s[i + 2] as u64) << 40u64) | ((s[i
        + 3] as u64) << 32u64) | ((s[i + 4] as u64) << 24u64) | ((s[i + 5] as u64) << 16u64) | ((
    s[i + 6] as u64) << 8u64) | (s[i + 7] as u64)) as u64
}

// The tag strings of the catalog, as their ASCII bytes.

/// "Init"
pub open spec fn tag_init() -> Seq<u8> {
    seq![73u8, 110u8, 105u8, 116u8]
}

/// "Joined"
pub open spec fn tag_joined() -> Seq<u8> {
    seq![74u8, 111u8, 105u8, 110u8, 101u8, 100u8]
}

/// "Left"
pub open spec fn tag_left() -> Seq<u8> {
    seq![76u8, 101u8, 102u8, 116u8]
}

/// "PlayerMove"
pub open spec fn tag_player_move() -> Seq<u8> {
    seq![80u8, 108u8, 97u8, 121u8, 101u8, 114u8, 77u8, 111u8, 118u8, 101u8]
}

/// "Move"
pub open spec fn tag_move() -> Seq<u8> {
    seq![77u8, 111u8, 118u8, 101u8]
}

/// "Kick"
pub open spec fn tag_kick() -> Seq<u8> {
    seq![75u8, 105u8, 99u8, 107u8]
}

/// A short string element: fixstr marker carrying the length, then the bytes.
pub open spec fn fixstr(t: Seq<u8>) -> Seq<u8>
    recommends
        t.len() < 32,
{
    seq![(FIXSTR_BASE + t.len()) as u8] + t
}

/// An identity element: always the fixed-width 32-bit unsigned form.
pub open spec fn u32_field(id: u32) -> Seq<u8> {
    seq![UINT32] + be4(id)
}

/// A numeric element: always the 64-bit float form, `bits` its bit pattern.
pub open spec fn f64_field(bits: u64) -> Seq<u8> {
    seq![FLOAT64] + be8(bits)
}

// ---------------------------------------------------------------------------
// Canonical encodings: what the relay itself puts on the wire.

/// The canonical encoding of a server-to-client message: a fixarray of the
/// tag followed by the fields in their fixed order.
pub open spec fn spec_encode_server(m: ServerMessage) -> Seq<u8> {
    match m {
        ServerMessage::Init { id } => seq![(FIXARRAY_BASE + 2) as u8] + fixstr(tag_init())
            + u32_field(id),
        ServerMessage::Joined { id } => seq![(FIXARRAY_BASE + 2) as u8] + fixstr(tag_joined())
            + u32_field(id),
        ServerMessage::Left { id } => seq![(FIXARRAY_BASE + 2) as u8] + fixstr(tag_left())
            + u32_field(id),
        ServerMessage::PlayerMove { id, x, y, vel_x, vel_y } => seq![(FIXARRAY_BASE + 6) as u8]
            + fixstr(tag_player_move()) + u32_field(id) + f64_field(x) + f64_field(y) + f64_field(
            vel_x,
        ) + f64_field(vel_y),
        ServerMessage::Kick { id, x, y, dir_x, dir_y } => seq![(FIXARRAY_BASE + 6) as u8] + fixstr(
            tag_kick(),
        ) + u32_field(id) + f64_field(x) + f64_field(y) + f64_field(dir_x) + f64_field(dir_y),
    }
}

/// The canonical encoding of a client-to-server message: no id element, the
/// sender's identity is implicit from the connection.
pub open spec fn spec_encode_client(m: ClientMessage) -> Seq<u8> {
    match m {
        ClientMessage::Move { x, y, vel_x, vel_y } => seq![(FIXARRAY_BASE + 5) as u8] + fixstr(
            tag_move(),
        ) + f64_field(x) + f64_field(y) + f64_field(vel_x) + f64_field(vel_y),
        ClientMessage::Kick { x, y, dir_x, dir_y } => seq![(FIXARRAY_BASE + 5) as u8] + fixstr(
            tag_kick(),
        ) + f64_field(x) + f64_field(y) + f64_field(dir_x) + f64_field(dir_y),
    }
}

// ---------------------------------------------------------------------------
// The element readers of the decoder, as specification-level parsers.  Each
// reads one element at index `i` and yields the value together with the index
// just past the element; decoding accepts a superset of the canonical forms
// (compact integer encodings for numbers, every array-header width).

/// Reads an array header: the element count and the index after the header.
pub open spec fn sp_read_array_len(s: Seq<u8>, i: int) -> Result<(u32, int), DecodeError> {
    if i >= s.len() {
        Err(DecodeError::Truncated)
    } else if FIXARRAY_BASE <= s[i] && s[i] <= FIXARRAY_TOP {
        Ok((((s[i] - FIXARRAY_BASE) as u32), i + 1))
    } else if s[i] == ARRAY16 {
        if i + 3 <= s.len() {
            Ok((be_u16_at(s, i + 1), i + 3))
        } else {
            Err(DecodeError::Truncated)
        }
    } else if s[i] == ARRAY32 {
        if i + 5 <= s.len() {
            Ok((be_u32_at(s, i + 1), i + 5))
        } else {
            Err(DecodeError::Truncated)
        }
    } else {
        Err(DecodeError::TypeMismatch)
    }
}

/// Reads a string element: the start and length of its bytes.  The element
/// ends at `start + len`.  Only the two short widths ever used for tags are
/// accepted, as in the original positional decoder.
pub open spec fn sp_read_str(s: Seq<u8>, i: int) -> Result<(int, int), DecodeError> {
    if i >= s.len() {
        Err(DecodeError::Truncated)
    } else if FIXSTR_BASE <= s[i] && s[i] <= FIXSTR_TOP {
        let l = (s[i] - FIXSTR_BASE) as int;
        if i + 1 + l <= s.len() {
            Ok((i + 1, l))
        } else {
            Err(DecodeError::Truncated)
        }
    } else if s[i] == STR8 {
        if i + 2 <= s.len() {
            let l = s[i + 1] as int;
            if i + 2 + l <= s.len() {
                Ok((i + 2, l))
            } else {
                Err(DecodeError::Truncated)
            }
        } else {
            Err(DecodeError::Truncated)
        }
    } else {
        Err(DecodeError::TypeMismatch)
    }
}

/// Signed value of an 8-bit two's-complement byte.
pub open spec fn sign8_val(b: u8) -> int {
    if b >= 0x80 {
        b - 0x100
    } else {
        b as int
    }
}

/// Signed value of a 16-bit two's-complement value.
pub open spec fn sign16_val(v: u32) -> int
    recommends
        v < 0x1_0000,
{
    if v >= 0x8000 {
        v - 0x1_0000
    } else {
        v as int
    }
}

/// Signed value of a 32-bit two's-complement value.
pub open spec fn sign32_val(v: u32) -> int {
    if v >= 0x8000_0000 {
        v - 0x1_0000_0000
    } else {
        v as int
    }
}

/// Reads a numeric element where the catalog expects a 64-bit float, as the
/// bit pattern of that float.  The canonical form is float64; the compact
/// integer forms of whole values are accepted as well and yield the bit
/// pattern of the float with that exact integer value.
pub open spec fn sp_read_num(s: Seq<u8>, i: int) -> Result<(u64, int), DecodeError> {
    if i >= s.len() {
        Err(DecodeError::Truncated)
    } else {
        let m = s[i];
        if m <= POS_FIXINT_TOP {
            Ok((f64_bits_of_int(m as int), i + 1))
        } else if m >= NEG_FIXINT_BASE {
            Ok((f64_bits_of_int(m - 0x100), i + 1))
        } else if m == UINT8 {
            if i + 2 <= s.len() {
                Ok((f64_bits_of_int(s[i + 1] as int), i + 2))
            } else {
                Err(DecodeError::Truncated)
            }
        } else if m == UINT16 {
            if i + 3 <= s.len() {
                Ok((f64_bits_of_int(be_u16_at(s, i + 1) as int), i + 3))
            } else {
                Err(DecodeError::Truncated)
            }
        } else if m == UINT32 {
            if i + 5 <= s.len() {
                Ok((f64_bits_of_int(be_u32_at(s, i + 1) as int), i + 5))
            } else {
                Err(DecodeError::Truncated)
            }
        } else if m == INT8 {
            if i + 2 <= s.len() {
                Ok((f64_bits_of_int(sign8_val(s[i + 1])), i + 2))
            } else {
                Err(DecodeError::Truncated)
            }
        } else if m == INT16 {
            if i + 3 <= s.len() {
                Ok((f64_bits_of_int(sign16_val(be_u16_at(s, i + 1))), i + 3))
            } else {
                Err(DecodeError::Truncated)
            }
        } else if m == INT32 {
            if i + 5 <= s.len() {
                Ok((f64_bits_of_int(sign32_val(be_u32_at(s, i + 1))), i + 5))
            } else {
                Err(DecodeError::Truncated)
            }
        } else if m == FLOAT64 {
            if i + 9 <= s.len() {
                Ok((be_u64_at(s, i + 1), i + 9))
            } else {
                Err(DecodeError::Truncated)
            }
        } else {
            Err(DecodeError::TypeMismatch)
        }
    }
}

/// Reads an identity element: an unsigned integer in any of its widths.
pub open spec fn sp_read_u32(s: Seq<u8>, i: int) -> Result<(u32, int), DecodeError> {
    if i >= s.len() {
        Err(DecodeError::Truncated)
    } else {
        let m = s[i];
        if m <= POS_FIXINT_TOP {
            Ok((m as u32, i + 1))
        } else if m == UINT8 {
            if i + 2 <= s.len() {
                Ok((s[i + 1] as u32, i + 2))
            } else {
                Err(DecodeError::Truncated)
            }
        } else if m == UINT16 {
            if i + 3 <= s.len() {
                Ok((be_u16_at(s, i + 1), i + 3))
            } else {
                Err(DecodeError::Truncated)
            }
        } else if m == UINT32 {
            if i + 5 <= s.len() {
                Ok((be_u32_at(s, i + 1), i + 5))
            } else {
                Err(DecodeError::Truncated)
            }
        } else {
            Err(DecodeError::TypeMismatch)
        }
    }
}

// ---------------------------------------------------------------------------
// Whole-message decoding.

/// The tag of an encoded message: the string that is its first element.
pub open spec fn spec_tag_of(s: Seq<u8>) -> Result<Seq<u8>, DecodeError> {
    match sp_read_array_len(s, 0) {
        Err(e) => Err(e),
        Ok((n, i)) => if n == 0 {
            Err(DecodeError::LengthMismatch)
        } else {
            match sp_read_str(s, i) {
                Err(e) => Err(e),
                Ok((st, l)) => Ok(s.subrange(st, st + l)),
            }
        },
    }
}

/// The four numeric fields of a client message, starting at `j`.
pub open spec fn sp_client_fields(s: Seq<u8>, j: int, kick: bool) -> Result<
    ClientMessage,
    DecodeError,
> {
    match sp_read_num(s, j) {
        Err(e) => Err(e),
        Ok((x, j1)) => match sp_read_num(s, j1) {
            Err(e) => Err(e),
            Ok((y, j2)) => match sp_read_num(s, j2) {
                Err(e) => Err(e),
                Ok((a, j3)) => match sp_read_num(s, j3) {
                    Err(e) => Err(e),
                    Ok((b, _)) => if kick {
                        Ok(ClientMessage::Kick { x, y, dir_x: a, dir_y: b })
                    } else {
                        Ok(ClientMessage::Move { x, y, vel_x: a, vel_y: b })
                    },
                },
            },
        },
    }
}

/// Decoding of an inbound (client-to-server) frame.  Exactly the tags `Move`
/// and `Kick` are recognized, each a 5-element array: tag then 4 numbers.
pub open spec fn spec_decode_client(s: Seq<u8>) -> Result<ClientMessage, DecodeError> {
    match sp_read_array_len(s, 0) {
        Err(e) => Err(e),
        Ok((n, i)) => if n == 0 {
            Err(DecodeError::LengthMismatch)
        } else {
            match sp_read_str(s, i) {
                Err(e) => Err(e),
                Ok((st, l)) => {
                    let tag = s.subrange(st, st + l);
                    let j = st + l;
                    if tag == tag_move() {
                        if n != 5 {
                            Err(DecodeError::LengthMismatch)
                        } else {
                            sp_client_fields(s, j, false)
                        }
                    } else if tag == tag_kick() {
                        if n != 5 {
                            Err(DecodeError::LengthMismatch)
                        } else {
                            sp_client_fields(s, j, true)
                        }
                    } else {
                        Err(DecodeError::UnknownTag)
                    }
                },
            }
        },
    }
}

/// The id and four numeric fields of a 6-element server message, starting at
/// `j`.
pub open spec fn sp_server_fields(s: Seq<u8>, j: int, kick: bool) -> Result<
    ServerMessage,
    DecodeError,
> {
    match sp_read_u32(s, j) {
        Err(e) => Err(e),
        Ok((id, j0)) => match sp_read_num(s, j0) {
            Err(e) => Err(e),
            Ok((x, j1)) => match sp_read_num(s, j1) {
                Err(e) => Err(e),
                Ok((y, j2)) => match sp_read_num(s, j2) {
                    Err(e) => Err(e),
                    Ok((a, j3)) => match sp_read_num(s, j3) {
                        Err(e) => Err(e),
                        Ok((b, _)) => if kick {
                            Ok(ServerMessage::Kick { id, x, y, dir_x: a, dir_y: b })
                        } else {
                            Ok(ServerMessage::PlayerMove { id, x, y, vel_x: a, vel_y: b })
                        },
                    },
                },
            },
        },
    }
}

/// Decoding of a server-to-client frame, as the browser-side peer performs
/// it: the five outbound tags, each with its fixed sequence length.
pub open spec fn spec_decode_server(s: Seq<u8>) -> Result<ServerMessage, DecodeError> {
    match sp_read_array_len(s, 0) {
        Err(e) => Err(e),
        Ok((n, i)) => if n == 0 {
            Err(DecodeError::LengthMismatch)
        } else {
            match sp_read_str(s, i) {
                Err(e) => Err(e),
                Ok((st, l)) => {
                    let tag = s.subrange(st, st + l);
                    let j = st + l;
                    if tag == tag_init() {
                        if n != 2 {
                            Err(DecodeError::LengthMismatch)
                        } else {
                            match sp_read_u32(s, j) {
                                Err(e) => Err(e),
                                Ok((id, _)) => Ok(ServerMessage::Init { id }),
                            }
                        }
                    } else if tag == tag_joined() {
                        if n != 2 {
                            Err(DecodeError::LengthMismatch)
                        } else {
                            match sp_read_u32(s, j) {
                                Err(e) => Err(e),
                                Ok((id, _)) => Ok(ServerMessage::Joined { id }),
                            }
                        }
                    } else if tag == tag_left() {
                        if n != 2 {
                            Err(DecodeError::LengthMismatch)
                        } else {
                            match sp_read_u32(s, j) {
                                Err(e) => Err(e),
                                Ok((id, _)) => Ok(ServerMessage::Left { id }),
                            }
                        }
                    } else if tag == tag_player_move() {
                        if n != 6 {
                            Err(DecodeError::LengthMismatch)
                        } else {
                            sp_server_fields(s, j, false)
                        }
                    } else if tag == tag_kick() {
                        if n != 6 {
                            Err(DecodeError::LengthMismatch)
                        } else {
                            sp_server_fields(s, j, true)
                        }
                    } else {
                        Err(DecodeError::UnknownTag)
                    }
                },
            }
        },
    }
}

/// How an inbound report becomes the broadcast echo: the sender's id is
/// stamped in, `Move` becomes `PlayerMove`, `Kick` keeps its tag.
pub open spec fn spec_retag(id: u32, m: ClientMessage) -> ServerMessage {
    match m {
        ClientMessage::Move { x, y, vel_x, vel_y } => ServerMessage::PlayerMove {
            id,
            x,
            y,
            vel_x,
            vel_y,
        },
        ClientMessage::Kick { x, y, dir_x, dir_y } => ServerMessage::Kick {
            id,
            x,
            y,
            dir_x,
            dir_y,
        },
    }
}

} // verus!
