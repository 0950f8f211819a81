use crate::msg::{ClientMessage, DecodeError, ServerMessage};
use crate::wire::{
    f64_field, fixstr, sp_read_array_len, sp_read_num, sp_read_str, sp_read_u32,
    spec_decode_client, spec_decode_server, spec_encode_client, spec_encode_server, spec_tag_of,
    tag_init, tag_joined, tag_kick, tag_left, tag_move, tag_player_move, u32_field, ARRAY16,
    ARRAY32, FIXSTR_BASE, FLOAT64, STR8, UINT32,
};
use vstd::prelude::*;

verus! {

// ---------------------------------------------------------------------------
// Slicing helpers for the concatenations that build a canonical encoding.

proof fn lemma_concat_suffix(a: Seq<u8>, b: Seq<u8>)
    ensures
        (a + b).subrange(a.len() as int, (a.len() + b.len()) as int) == b,
{
    assert((a + b).subrange(a.len() as int, (a.len() + b.len()) as int) =~= b);
}

proof fn lemma_concat_prefix_part(a: Seq<u8>, b: Seq<u8>, x: int, y: int)
    requires
        0 <= x <= y <= a.len(),
    ensures
        (a + b).subrange(x, y) == a.subrange(x, y),
{
    assert((a + b).subrange(x, y) =~= a.subrange(x, y));
}

// ---------------------------------------------------------------------------
// What the element readers make of a canonical field.

proof fn lemma_read_tag(s: Seq<u8>, i: int, t: Seq<u8>)
    requires
        0 <= i,
        t.len() < 32,
        i + 1 + t.len() <= s.len(),
        s.subrange(i, i + 1 + t.len() as int) == fixstr(t),
    ensures
        sp_read_str(s, i) == Ok::<(int, int), DecodeError>((i + 1, t.len() as int)),
        s.subrange(i + 1, i + 1 + t.len() as int) == t,
{
    assert(s[i] == fixstr(t)[0]);
    assert(s[i] == (FIXSTR_BASE + t.len()) as u8);
    assert(FIXSTR_BASE <= s[i] <= 0xbf);
    assert((s[i] - FIXSTR_BASE) as int == t.len());
    assert(s.subrange(i + 1, i + 1 + t.len() as int) =~= t) by {
        assert forall|k: int| 0 <= k < t.len() implies s.subrange(i + 1, i + 1 + t.len() as int)[k]
            == t[k] by {
            assert(s[i + 1 + k] == s.subrange(i, i + 1 + t.len() as int)[1 + k]);
            assert(fixstr(t)[1 + k] == t[k]);
        }
    }
}

proof fn lemma_read_u32_field(s: Seq<u8>, i: int, id: u32)
    requires
        0 <= i,
        i + 5 <= s.len(),
        s.subrange(i, i + 5) == u32_field(id),
    ensures
        sp_read_u32(s, i) == Ok::<(u32, int), DecodeError>((id, i + 5)),
        sp_read_num(s, i) == Ok::<(u64, int), DecodeError>((
            crate::floatbits::f64_bits_of_int(id as int),
            i + 5,
        )),
{
    assert(s[i] == u32_field(id)[0]);
    assert(s[i] == UINT32);
    assert(s[i + 1] == u32_field(id)[1]);
    assert(s[i + 2] == u32_field(id)[2]);
    assert(s[i + 3] == u32_field(id)[3]);
    assert(s[i + 4] == u32_field(id)[4]);
    assert((((((id >> 24u32) as u8) as u32) << 24u32) | (((((id >> 16u32) & 0xff) as u8) as u32)
        << 16u32) | (((((id >> 8u32) & 0xff) as u8) as u32) << 8u32) | (((id & 0xff) as u8) as u32))
        == id) by (bit_vector);
}

proof fn lemma_read_f64_field(s: Seq<u8>, i: int, bits: u64)
    requires
        0 <= i,
        i + 9 <= s.len(),
        s.subrange(i, i + 9) == f64_field(bits),
    ensures
        sp_read_num(s, i) == Ok::<(u64, int), DecodeError>((bits, i + 9)),
{
    assert(s[i] == f64_field(bits)[0]);
    assert(s[i] == FLOAT64);
    assert(s[i + 1] == f64_field(bits)[1]);
    assert(s[i + 2] == f64_field(bits)[2]);
    assert(s[i + 3] == f64_field(bits)[3]);
    assert(s[i + 4] == f64_field(bits)[4]);
    assert(s[i + 5] == f64_field(bits)[5]);
    assert(s[i + 6] == f64_field(bits)[6]);
    assert(s[i + 7] == f64_field(bits)[7]);
    assert(s[i + 8] == f64_field(bits)[8]);
    assert(((((bits >> 56u64) as u8) as u64) << 56u64) | (((((bits >> 48u64) & 0xff) as u8) as u64)
        << 48u64) | (((((bits >> 40u64) & 0xff) as u8) as u64) << 40u64) | (((((bits >> 32u64)
        & 0xff) as u8) as u64) << 32u64) | (((((bits >> 24u64) & 0xff) as u8) as u64) << 24u64) | ((
    (((bits >> 16u64) & 0xff) as u8) as u64) << 16u64) | (((((bits >> 8u64) & 0xff) as u8) as u64)
        << 8u64) | (((bits & 0xff) as u8) as u64) == bits) by (bit_vector);
}

// ---------------------------------------------------------------------------
// Round trip: decoding an encoded message yields the message back, for every
// message of the catalog and all field values.

/// Round trip for the five server-to-client shapes: the browser-side decode
/// of the relay's canonical encoding yields the original message, whatever
/// its identity and numeric bit patterns.
proof fn lemma_rts_init(id: u32)
    ensures
        spec_decode_server(spec_encode_server(ServerMessage::Init { id })) == Ok::<
            ServerMessage,
            DecodeError,
        >(ServerMessage::Init { id }),
{
    let s = spec_encode_server(ServerMessage::Init { id });
    let a = seq![0x92u8] + fixstr(tag_init());
    assert(s == a + u32_field(id));
    assert(s[0] == 0x92);
    lemma_concat_prefix_part(a, u32_field(id), 1, 6);
    lemma_concat_suffix(seq![0x92u8], fixstr(tag_init()));
    assert(a.subrange(1, 6) == fixstr(tag_init()));
    lemma_read_tag(s, 1, tag_init());
    lemma_concat_suffix(a, u32_field(id));
    lemma_read_u32_field(s, 6, id);
}

proof fn lemma_rts_joined(id: u32)
    ensures
        spec_decode_server(spec_encode_server(ServerMessage::Joined { id })) == Ok::<
            ServerMessage,
            DecodeError,
        >(ServerMessage::Joined { id }),
{
    let s = spec_encode_server(ServerMessage::Joined { id });
    let a = seq![0x92u8] + fixstr(tag_joined());
    assert(s == a + u32_field(id));
    assert(s[0] == 0x92);
    lemma_concat_prefix_part(a, u32_field(id), 1, 8);
    lemma_concat_suffix(seq![0x92u8], fixstr(tag_joined()));
    assert(a.subrange(1, 8) == fixstr(tag_joined()));
    lemma_read_tag(s, 1, tag_joined());
    assert(s.subrange(2, 8) != tag_init()) by {
        assert(tag_init().len() == 4);
    }
    lemma_concat_suffix(a, u32_field(id));
    lemma_read_u32_field(s, 8, id);
}

proof fn lemma_rts_left(id: u32)
    ensures
        spec_decode_server(spec_encode_server(ServerMessage::Left { id })) == Ok::<
            ServerMessage,
            DecodeError,
        >(ServerMessage::Left { id }),
{
    let s = spec_encode_server(ServerMessage::Left { id });
    let a = seq![0x92u8] + fixstr(tag_left());
    assert(s == a + u32_field(id));
    assert(s[0] == 0x92);
    lemma_concat_prefix_part(a, u32_field(id), 1, 6);
    lemma_concat_suffix(seq![0x92u8], fixstr(tag_left()));
    assert(a.subrange(1, 6) == fixstr(tag_left()));
    lemma_read_tag(s, 1, tag_left());
    assert(s.subrange(2, 6) != tag_init()) by {
        assert(s.subrange(2, 6)[0] == 76);
        assert(tag_init()[0] == 73);
    }
    lemma_concat_suffix(a, u32_field(id));
    lemma_read_u32_field(s, 6, id);
}

#[verifier::rlimit(100)]
proof fn lemma_rts_player_move(id: u32, x: u64, y: u64, vel_x: u64, vel_y: u64)
    ensures
        spec_decode_server(spec_encode_server(ServerMessage::PlayerMove { id, x, y, vel_x, vel_y }))
            == Ok::<ServerMessage, DecodeError>(
            ServerMessage::PlayerMove { id, x, y, vel_x, vel_y },
        ),
{
    let s = spec_encode_server(ServerMessage::PlayerMove { id, x, y, vel_x, vel_y });
    lemma_round_trip_server_six(s, tag_player_move(), id, x, y, vel_x, vel_y);
    assert(s.subrange(2, 12) != tag_init()) by {
        assert(tag_init().len() == 4);
    }
    assert(s.subrange(2, 12) != tag_joined()) by {
        assert(tag_joined().len() == 6);
    }
    assert(s.subrange(2, 12) != tag_left()) by {
        assert(tag_left().len() == 4);
    }
}

#[verifier::rlimit(100)]
proof fn lemma_rts_kick(id: u32, x: u64, y: u64, dir_x: u64, dir_y: u64)
    ensures
        spec_decode_server(spec_encode_server(ServerMessage::Kick { id, x, y, dir_x, dir_y }))
            == Ok::<ServerMessage, DecodeError>(ServerMessage::Kick { id, x, y, dir_x, dir_y }),
{
    let s = spec_encode_server(ServerMessage::Kick { id, x, y, dir_x, dir_y });
    lemma_round_trip_server_six(s, tag_kick(), id, x, y, dir_x, dir_y);
    assert(s.subrange(2, 6) != tag_init()) by {
        assert(s.subrange(2, 6)[0] == 75);
        assert(tag_init()[0] == 73);
    }
    assert(s.subrange(2, 6) != tag_joined()) by {
        assert(tag_joined().len() == 6);
    }
    assert(s.subrange(2, 6) != tag_left()) by {
        assert(s.subrange(2, 6)[0] == 75);
        assert(tag_left()[0] == 76);
    }
    assert(s.subrange(2, 6) != tag_player_move()) by {
        assert(tag_player_move().len() == 10);
    }
}

/// Round trip for the five server-to-client shapes: the browser-side decode
/// of the relay's canonical encoding yields the original message, whatever
/// its identity and numeric bit patterns.
pub proof fn lemma_round_trip_server(m: ServerMessage)
    ensures
        spec_decode_server(spec_encode_server(m)) == Ok::<ServerMessage, DecodeError>(m),
{
    match m {
        ServerMessage::Init { id } => lemma_rts_init(id),
        ServerMessage::Joined { id } => lemma_rts_joined(id),
        ServerMessage::Left { id } => lemma_rts_left(id),
        ServerMessage::PlayerMove { id, x, y, vel_x, vel_y } => lemma_rts_player_move(
            id,
            x,
            y,
            vel_x,
            vel_y,
        ),
        ServerMessage::Kick { id, x, y, dir_x, dir_y } => lemma_rts_kick(id, x, y, dir_x, dir_y),
    }
}

/// The common parse of a 6-element server message: header, tag, id, then
/// four numeric fields.
proof fn lemma_round_trip_server_six(s: Seq<u8>, t: Seq<u8>, id: u32, f1: u64, f2: u64, f3: u64, f4: u64)
    requires
        t.len() < 32,
        s == seq![0x96u8] + fixstr(t) + u32_field(id) + f64_field(f1) + f64_field(f2) + f64_field(
            f3,
        ) + f64_field(f4),
    ensures
        sp_read_array_len(s, 0) == Ok::<(u32, int), DecodeError>((6u32, 1)),
        sp_read_str(s, 1) == Ok::<(int, int), DecodeError>((2, t.len() as int)),
        s.subrange(2, 2 + t.len() as int) == t,
        sp_read_u32(s, 2 + t.len() as int) == Ok::<(u32, int), DecodeError>((id, 7 + t.len() as int)),
        sp_read_num(s, 7 + t.len() as int) == Ok::<(u64, int), DecodeError>((f1, 16 + t.len() as int)),
        sp_read_num(s, 16 + t.len() as int) == Ok::<(u64, int), DecodeError>((f2, 25 + t.len() as int)),
        sp_read_num(s, 25 + t.len() as int) == Ok::<(u64, int), DecodeError>((f3, 34 + t.len() as int)),
        sp_read_num(s, 34 + t.len() as int) == Ok::<(u64, int), DecodeError>((f4, 43 + t.len() as int)),
{
    let l = t.len() as int;
    let a1 = seq![0x96u8] + fixstr(t);
    let a2 = a1 + u32_field(id);
    let a3 = a2 + f64_field(f1);
    let a4 = a3 + f64_field(f2);
    let a5 = a4 + f64_field(f3);
    assert(s == a5 + f64_field(f4));
    assert(s[0] == 0x96);
    // the tag
    lemma_concat_suffix(seq![0x96u8], fixstr(t));
    assert(a1.subrange(1, 2 + l) == fixstr(t));
    lemma_concat_prefix_part(a1, u32_field(id), 1, 2 + l);
    lemma_concat_prefix_part(a2, f64_field(f1), 1, 2 + l);
    lemma_concat_prefix_part(a3, f64_field(f2), 1, 2 + l);
    lemma_concat_prefix_part(a4, f64_field(f3), 1, 2 + l);
    lemma_concat_prefix_part(a5, f64_field(f4), 1, 2 + l);
    lemma_read_tag(s, 1, t);
    // the id
    lemma_concat_suffix(a1, u32_field(id));
    lemma_concat_prefix_part(a2, f64_field(f1), 2 + l, 7 + l);
    lemma_concat_prefix_part(a3, f64_field(f2), 2 + l, 7 + l);
    lemma_concat_prefix_part(a4, f64_field(f3), 2 + l, 7 + l);
    lemma_concat_prefix_part(a5, f64_field(f4), 2 + l, 7 + l);
    lemma_read_u32_field(s, 2 + l, id);
    // the four numeric fields
    lemma_concat_suffix(a2, f64_field(f1));
    lemma_concat_prefix_part(a3, f64_field(f2), 7 + l, 16 + l);
    lemma_concat_prefix_part(a4, f64_field(f3), 7 + l, 16 + l);
    lemma_concat_prefix_part(a5, f64_field(f4), 7 + l, 16 + l);
    lemma_read_f64_field(s, 7 + l, f1);
    lemma_concat_suffix(a3, f64_field(f2));
    lemma_concat_prefix_part(a4, f64_field(f3), 16 + l, 25 + l);
    lemma_concat_prefix_part(a5, f64_field(f4), 16 + l, 25 + l);
    lemma_read_f64_field(s, 16 + l, f2);
    lemma_concat_suffix(a4, f64_field(f3));
    lemma_concat_prefix_part(a5, f64_field(f4), 25 + l, 34 + l);
    lemma_read_f64_field(s, 25 + l, f3);
    lemma_concat_suffix(a5, f64_field(f4));
    lemma_read_f64_field(s, 34 + l, f4);
}

/// The common parse of a 5-element client message: header, tag, then four
/// numeric fields.
proof fn lemma_round_trip_client_five(s: Seq<u8>, t: Seq<u8>, f1: u64, f2: u64, f3: u64, f4: u64)
    requires
        t.len() < 32,
        s == seq![0x95u8] + fixstr(t) + f64_field(f1) + f64_field(f2) + f64_field(f3) + f64_field(
            f4,
        ),
    ensures
        sp_read_array_len(s, 0) == Ok::<(u32, int), DecodeError>((5u32, 1)),
        sp_read_str(s, 1) == Ok::<(int, int), DecodeError>((2, t.len() as int)),
        s.subrange(2, 2 + t.len() as int) == t,
        sp_read_num(s, 2 + t.len() as int) == Ok::<(u64, int), DecodeError>((f1, 11 + t.len() as int)),
        sp_read_num(s, 11 + t.len() as int) == Ok::<(u64, int), DecodeError>((f2, 20 + t.len() as int)),
        sp_read_num(s, 20 + t.len() as int) == Ok::<(u64, int), DecodeError>((f3, 29 + t.len() as int)),
        sp_read_num(s, 29 + t.len() as int) == Ok::<(u64, int), DecodeError>((f4, 38 + t.len() as int)),
{
    let l = t.len() as int;
    let a1 = seq![0x95u8] + fixstr(t);
    let a2 = a1 + f64_field(f1);
    let a3 = a2 + f64_field(f2);
    let a4 = a3 + f64_field(f3);
    assert(s == a4 + f64_field(f4));
    assert(s[0] == 0x95);
    // the tag
    lemma_concat_suffix(seq![0x95u8], fixstr(t));
    assert(a1.subrange(1, 2 + l) == fixstr(t));
    lemma_concat_prefix_part(a1, f64_field(f1), 1, 2 + l);
    lemma_concat_prefix_part(a2, f64_field(f2), 1, 2 + l);
    lemma_concat_prefix_part(a3, f64_field(f3), 1, 2 + l);
    lemma_concat_prefix_part(a4, f64_field(f4), 1, 2 + l);
    lemma_read_tag(s, 1, t);
    // the four numeric fields
    lemma_concat_suffix(a1, f64_field(f1));
    lemma_concat_prefix_part(a2, f64_field(f2), 2 + l, 11 + l);
    lemma_concat_prefix_part(a3, f64_field(f3), 2 + l, 11 + l);
    lemma_concat_prefix_part(a4, f64_field(f4), 2 + l, 11 + l);
    lemma_read_f64_field(s, 2 + l, f1);
    lemma_concat_suffix(a2, f64_field(f2));
    lemma_concat_prefix_part(a3, f64_field(f3), 11 + l, 20 + l);
    lemma_concat_prefix_part(a4, f64_field(f4), 11 + l, 20 + l);
    lemma_read_f64_field(s, 11 + l, f2);
    lemma_concat_suffix(a3, f64_field(f3));
    lemma_concat_prefix_part(a4, f64_field(f4), 20 + l, 29 + l);
    lemma_read_f64_field(s, 20 + l, f3);
    lemma_concat_suffix(a4, f64_field(f4));
    lemma_read_f64_field(s, 29 + l, f4);
}

/// Round trip for the two client-to-server shapes: the relay's decode of the
/// canonical client encoding yields the original report, whatever its
/// numeric bit patterns.
#[verifier::rlimit(100)]
pub proof fn lemma_round_trip_client(m: ClientMessage)
    ensures
        spec_decode_client(spec_encode_client(m)) == Ok::<ClientMessage, DecodeError>(m),
{
    let s = spec_encode_client(m);
    match m {
        ClientMessage::Move { x, y, vel_x, vel_y } => {
            lemma_round_trip_client_five(s, tag_move(), x, y, vel_x, vel_y);
        },
        ClientMessage::Kick { x, y, dir_x, dir_y } => {
            lemma_round_trip_client_five(s, tag_kick(), x, y, dir_x, dir_y);
            assert(s.subrange(2, 6) != tag_move()) by {
                assert(s.subrange(2, 6)[0] == 75);
                assert(tag_move()[0] == 77);
            }
        },
    }
}

// ---------------------------------------------------------------------------
// Tag discrimination.

/// Tag discrimination: the variant of a decoded inbound frame is pinned by
/// the frame's tag string, so a well-formed `Move` sequence never decodes as
/// `Kick` and vice versa (the two tags differ).
pub proof fn lemma_tag_determines_variant(s: Seq<u8>)
    ensures
        spec_decode_client(s) matches Ok(m) ==> ((m matches ClientMessage::Move { .. }
            ==> spec_tag_of(s) == Ok::<Seq<u8>, DecodeError>(tag_move())) && (m
            matches ClientMessage::Kick { .. } ==> spec_tag_of(s) == Ok::<Seq<u8>, DecodeError>(
            tag_kick(),
        ))),
        tag_move() != tag_kick(),
{
    assert(tag_move()[0] == 77);
    assert(tag_kick()[0] == 75);
    match sp_read_array_len(s, 0) {
        Err(_) => {},
        Ok((n, i)) => {
            if n != 0 {
                match sp_read_str(s, i) {
                    Err(_) => {},
                    Ok((st, l)) => {
                        let tag = s.subrange(st, st + l);
                        lemma_client_fields_variant(s, st + l);
                        if tag == tag_move() {
                            assert(spec_tag_of(s) == Ok::<Seq<u8>, DecodeError>(tag));
                        } else if tag == tag_kick() {
                            assert(spec_tag_of(s) == Ok::<Seq<u8>, DecodeError>(tag));
                        }
                    },
                }
            }
        },
    }
}

proof fn lemma_client_fields_variant(s: Seq<u8>, j: int)
    ensures
        crate::wire::sp_client_fields(s, j, false) matches Ok(m) ==> m matches ClientMessage::Move {
            ..
        },
        crate::wire::sp_client_fields(s, j, true) matches Ok(m) ==> m matches ClientMessage::Kick {
            ..
        },
{
}

/// An unrecognized tag is an explicit decode failure, never a default value.
pub proof fn lemma_unknown_tag_rejected(s: Seq<u8>, t: Seq<u8>)
    requires
        spec_tag_of(s) == Ok::<Seq<u8>, DecodeError>(t),
        t != tag_move(),
        t != tag_kick(),
    ensures
        spec_decode_client(s) == Err::<ClientMessage, DecodeError>(DecodeError::UnknownTag),
{
}

// ---------------------------------------------------------------------------
// Truncation safety: what each element reader makes of a proper prefix
// `s.take(k)` of a buffer it could read in full.

proof fn lemma_prefix_read_array_len(s: Seq<u8>, k: int, n: u32, j: int)
    requires
        0 < k < s.len(),
        sp_read_array_len(s, 0) == Ok::<(u32, int), DecodeError>((n, j)),
    ensures
        j <= k ==> sp_read_array_len(s.take(k), 0) == Ok::<(u32, int), DecodeError>((n, j)),
        j > k ==> sp_read_array_len(s.take(k), 0) == Err::<(u32, int), DecodeError>(
            DecodeError::Truncated,
        ),
{
    let p = s.take(k);
    assert(p[0] == s[0]);
    if s[0] == ARRAY16 {
        if j <= k {
            assert(p[1] == s[1] && p[2] == s[2]);
        }
    } else if s[0] == ARRAY32 {
        if j <= k {
            assert(p[1] == s[1] && p[2] == s[2] && p[3] == s[3] && p[4] == s[4]);
        }
    }
}

proof fn lemma_prefix_read_str(s: Seq<u8>, k: int, i: int, st: int, l: int)
    requires
        0 < k < s.len(),
        0 <= i,
        sp_read_str(s, i) == Ok::<(int, int), DecodeError>((st, l)),
    ensures
        st + l <= k ==> sp_read_str(s.take(k), i) == Ok::<(int, int), DecodeError>((st, l)) && s.take(
            k,
        ).subrange(st, st + l) == s.subrange(st, st + l),
        st + l > k ==> sp_read_str(s.take(k), i) == Err::<(int, int), DecodeError>(
            DecodeError::Truncated,
        ),
{
    let p = s.take(k);
    if i < k {
        assert(p[i] == s[i]);
        if s[i] == STR8 && i + 1 < k {
            assert(p[i + 1] == s[i + 1]);
        }
        if st + l <= k {
            assert(p.subrange(st, st + l) =~= s.subrange(st, st + l));
        }
    }
}

proof fn lemma_prefix_read_num(s: Seq<u8>, k: int, i: int, b: u64, j: int)
    requires
        0 < k < s.len(),
        0 <= i,
        sp_read_num(s, i) == Ok::<(u64, int), DecodeError>((b, j)),
    ensures
        j <= k ==> sp_read_num(s.take(k), i) == Ok::<(u64, int), DecodeError>((b, j)),
        j > k ==> sp_read_num(s.take(k), i) == Err::<(u64, int), DecodeError>(
            DecodeError::Truncated,
        ),
{
    let p = s.take(k);
    if i < k {
        assert(p[i] == s[i]);
        if j <= k {
            assert(forall|x: int| i <= x < j ==> p[x] == s[x]);
        }
    }
}

proof fn lemma_prefix_read_u32(s: Seq<u8>, k: int, i: int, v: u32, j: int)
    requires
        0 < k < s.len(),
        0 <= i,
        sp_read_u32(s, i) == Ok::<(u32, int), DecodeError>((v, j)),
    ensures
        j <= k ==> sp_read_u32(s.take(k), i) == Ok::<(u32, int), DecodeError>((v, j)),
        j > k ==> sp_read_u32(s.take(k), i) == Err::<(u32, int), DecodeError>(
            DecodeError::Truncated,
        ),
{
    let p = s.take(k);
    if i < k {
        assert(p[i] == s[i]);
        if j <= k {
            assert(forall|x: int| i <= x < j ==> p[x] == s[x]);
        }
    }
}

// ---------------------------------------------------------------------------
// Truncation safety for whole messages.

#[verifier::rlimit(100)]
proof fn lemma_truncation_client_five(
    s: Seq<u8>,
    t: Seq<u8>,
    f1: u64,
    f2: u64,
    f3: u64,
    f4: u64,
    k: int,
)
    requires
        t == tag_move() || t == tag_kick(),
        s == seq![0x95u8] + fixstr(t) + f64_field(f1) + f64_field(f2) + f64_field(f3) + f64_field(
            f4,
        ),
        0 < k < s.len(),
    ensures
        spec_decode_client(s.take(k)) == Err::<ClientMessage, DecodeError>(DecodeError::Truncated),
{
    let l = t.len() as int;
    let p = s.take(k);
    lemma_round_trip_client_five(s, t, f1, f2, f3, f4);
    assert(tag_move()[0] == 77 && tag_kick()[0] == 75);
    lemma_prefix_read_array_len(s, k, 5, 1);
    lemma_prefix_read_str(s, k, 1, 2, l);
    if 2 + l <= k {
        assert(p.subrange(2, 2 + l) == t);
        lemma_prefix_read_num(s, k, 2 + l, f1, 11 + l);
        if 11 + l <= k {
            lemma_prefix_read_num(s, k, 11 + l, f2, 20 + l);
            if 20 + l <= k {
                lemma_prefix_read_num(s, k, 20 + l, f3, 29 + l);
                if 29 + l <= k {
                    lemma_prefix_read_num(s, k, 29 + l, f4, 38 + l);
                    assert(38 + l == s.len());
                }
            }
        }
    }
}

/// Truncation safety for inbound frames: every proper non-empty prefix of a
/// canonically encoded client message is rejected as truncated — never
/// decoded as a message, and never read out of bounds.
pub proof fn lemma_truncation_client(m: ClientMessage, k: int)
    requires
        0 < k < spec_encode_client(m).len(),
    ensures
        spec_decode_client(spec_encode_client(m).take(k)) == Err::<ClientMessage, DecodeError>(
            DecodeError::Truncated,
        ),
{
    let s = spec_encode_client(m);
    match m {
        ClientMessage::Move { x, y, vel_x, vel_y } => {
            lemma_truncation_client_five(s, tag_move(), x, y, vel_x, vel_y, k);
        },
        ClientMessage::Kick { x, y, dir_x, dir_y } => {
            lemma_truncation_client_five(s, tag_kick(), x, y, dir_x, dir_y, k);
        },
    }
}

/// The parse of a 2-element server message: header, tag, id.
proof fn lemma_parse_server_two(s: Seq<u8>, t: Seq<u8>, id: u32)
    requires
        t.len() < 32,
        s == seq![0x92u8] + fixstr(t) + u32_field(id),
    ensures
        sp_read_array_len(s, 0) == Ok::<(u32, int), DecodeError>((2u32, 1)),
        sp_read_str(s, 1) == Ok::<(int, int), DecodeError>((2, t.len() as int)),
        s.subrange(2, 2 + t.len() as int) == t,
        sp_read_u32(s, 2 + t.len() as int) == Ok::<(u32, int), DecodeError>((
            id,
            7 + t.len() as int,
        )),
{
    let l = t.len() as int;
    let a = seq![0x92u8] + fixstr(t);
    assert(s == a + u32_field(id));
    assert(s[0] == 0x92);
    lemma_concat_suffix(seq![0x92u8], fixstr(t));
    assert(a.subrange(1, 2 + l) == fixstr(t));
    lemma_concat_prefix_part(a, u32_field(id), 1, 2 + l);
    lemma_read_tag(s, 1, t);
    lemma_concat_suffix(a, u32_field(id));
    lemma_read_u32_field(s, 2 + l, id);
}

#[verifier::rlimit(100)]
proof fn lemma_truncation_server_two(s: Seq<u8>, t: Seq<u8>, id: u32, k: int)
    requires
        t == tag_init() || t == tag_joined() || t == tag_left(),
        s == seq![0x92u8] + fixstr(t) + u32_field(id),
        0 < k < s.len(),
    ensures
        spec_decode_server(s.take(k)) == Err::<ServerMessage, DecodeError>(DecodeError::Truncated),
{
    let l = t.len() as int;
    let p = s.take(k);
    assert(tag_init().len() == 4 && tag_joined().len() == 6 && tag_left().len() == 4);
    assert(tag_init()[0] == 73 && tag_left()[0] == 76);
    lemma_parse_server_two(s, t, id);
    lemma_prefix_read_array_len(s, k, 2, 1);
    lemma_prefix_read_str(s, k, 1, 2, l);
    if 2 + l <= k {
        assert(p.subrange(2, 2 + l) == t);
        lemma_prefix_read_u32(s, k, 2 + l, id, 7 + l);
        assert(7 + l == s.len());
    }
}

#[verifier::rlimit(100)]
proof fn lemma_truncation_server_six(
    s: Seq<u8>,
    t: Seq<u8>,
    id: u32,
    f1: u64,
    f2: u64,
    f3: u64,
    f4: u64,
    k: int,
)
    requires
        t == tag_player_move() || t == tag_kick(),
        s == seq![0x96u8] + fixstr(t) + u32_field(id) + f64_field(f1) + f64_field(f2) + f64_field(
            f3,
        ) + f64_field(f4),
        0 < k < s.len(),
    ensures
        spec_decode_server(s.take(k)) == Err::<ServerMessage, DecodeError>(DecodeError::Truncated),
{
    let l = t.len() as int;
    let p = s.take(k);
    assert(tag_init().len() == 4 && tag_joined().len() == 6 && tag_left().len() == 4);
    assert(tag_player_move().len() == 10 && tag_kick().len() == 4);
    assert(tag_init()[0] == 73 && tag_left()[0] == 76 && tag_kick()[0] == 75);
    assert(tag_player_move()[0] == 80);
    lemma_round_trip_server_six(s, t, id, f1, f2, f3, f4);
    lemma_prefix_read_array_len(s, k, 6, 1);
    lemma_prefix_read_str(s, k, 1, 2, l);
    if 2 + l <= k {
        assert(p.subrange(2, 2 + l) == t);
        lemma_prefix_read_u32(s, k, 2 + l, id, 7 + l);
        if 7 + l <= k {
            lemma_prefix_read_num(s, k, 7 + l, f1, 16 + l);
            if 16 + l <= k {
                lemma_prefix_read_num(s, k, 16 + l, f2, 25 + l);
                if 25 + l <= k {
                    lemma_prefix_read_num(s, k, 25 + l, f3, 34 + l);
                    if 34 + l <= k {
                        lemma_prefix_read_num(s, k, 34 + l, f4, 43 + l);
                        assert(43 + l == s.len());
                    }
                }
            }
        }
    }
}

/// Truncation safety for outbound frames, as the browser-side peer decodes
/// them: every proper non-empty prefix of a canonically encoded server
/// message is rejected as truncated.
pub proof fn lemma_truncation_server(m: ServerMessage, k: int)
    requires
        0 < k < spec_encode_server(m).len(),
    ensures
        spec_decode_server(spec_encode_server(m).take(k)) == Err::<ServerMessage, DecodeError>(
            DecodeError::Truncated,
        ),
{
    let s = spec_encode_server(m);
    match m {
        ServerMessage::Init { id } => {
            lemma_truncation_server_two(s, tag_init(), id, k);
        },
        ServerMessage::Joined { id } => {
            lemma_truncation_server_two(s, tag_joined(), id, k);
        },
        ServerMessage::Left { id } => {
            lemma_truncation_server_two(s, tag_left(), id, k);
        },
        ServerMessage::PlayerMove { id, x, y, vel_x, vel_y } => {
            lemma_truncation_server_six(s, tag_player_move(), id, x, y, vel_x, vel_y, k);
        },
        ServerMessage::Kick { id, x, y, dir_x, dir_y } => {
            lemma_truncation_server_six(s, tag_kick(), id, x, y, dir_x, dir_y, k);
        },
    }
}

} // verus!
