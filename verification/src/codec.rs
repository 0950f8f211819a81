use crate::msg::{ClientId, ClientMessage, DecodeError, ServerMessage};
use crate::reader::{bytes_eq, read_array_len, read_num, read_str, read_u32};
use crate::wire::{
    f64_field, fixstr, spec_decode_client, spec_decode_server, spec_encode_client,
    spec_encode_server, spec_retag, tag_init, tag_joined, tag_kick, tag_left, tag_move,
    tag_player_move, u32_field, FIXARRAY_BASE, FIXSTR_BASE, FLOAT64, UINT32,
};
use vstd::prelude::*;

verus! {

// ---------------------------------------------------------------------------
// Encoding.  The relay only ever emits the canonical forms: fixarray header,
// fixstr tag, fixed-width u32 identity, float64 numeric fields.

fn push_u32_field(out: &mut Vec<u8>, id: u32)
    ensures
        final(out)@ == old(out)@ + u32_field(id),
{
    out.push(UINT32);
    out.push((id >> 24u32) as u8);
    out.push(((id >> 16u32) & 0xff) as u8);
    out.push(((id >> 8u32) & 0xff) as u8);
    out.push((id & 0xff) as u8);
    proof {
        assert(out@ =~= old(out)@ + u32_field(id));
    }
}

fn push_f64_field(out: &mut Vec<u8>, bits: u64)
    ensures
        final(out)@ == old(out)@ + f64_field(bits),
{
    out.push(FLOAT64);
    out.push((bits >> 56u64) as u8);
    out.push(((bits >> 48u64) & 0xff) as u8);
    out.push(((bits >> 40u64) & 0xff) as u8);
    out.push(((bits >> 32u64) & 0xff) as u8);
    out.push(((bits >> 24u64) & 0xff) as u8);
    out.push(((bits >> 16u64) & 0xff) as u8);
    out.push(((bits >> 8u64) & 0xff) as u8);
    out.push((bits & 0xff) as u8);
    proof {
        assert(out@ =~= old(out)@ + f64_field(bits));
    }
}

/// Encodes a server-to-client message in its canonical wire form.  Encoding
/// is total: the catalog is a closed enum, so there is no failure mode.
pub fn encode_server_message(m: &ServerMessage) -> (out: Vec<u8>)
    ensures
        out@ == spec_encode_server(*m),
{
    let mut out: Vec<u8> = Vec::new();
    match m {
        ServerMessage::Init { id } => {
            out.push(FIXARRAY_BASE + 2);
            out.push(FIXSTR_BASE + 4);
            out.push(73);
            out.push(110);
            out.push(105);
            out.push(116);
            proof {
                assert(out@ =~= seq![(FIXARRAY_BASE + 2) as u8] + fixstr(tag_init()));
            }
            push_u32_field(&mut out, *id);
        },
        ServerMessage::Joined { id } => {
            out.push(FIXARRAY_BASE + 2);
            out.push(FIXSTR_BASE + 6);
            out.push(74);
            out.push(111);
            out.push(105);
            out.push(110);
            out.push(101);
            out.push(100);
            proof {
                assert(out@ =~= seq![(FIXARRAY_BASE + 2) as u8] + fixstr(tag_joined()));
            }
            push_u32_field(&mut out, *id);
        },
        ServerMessage::Left { id } => {
            out.push(FIXARRAY_BASE + 2);
            out.push(FIXSTR_BASE + 4);
            out.push(76);
            out.push(101);
            out.push(102);
            out.push(116);
            proof {
                assert(out@ =~= seq![(FIXARRAY_BASE + 2) as u8] + fixstr(tag_left()));
            }
            push_u32_field(&mut out, *id);
        },
        ServerMessage::PlayerMove { id, x, y, vel_x, vel_y } => {
            out.push(FIXARRAY_BASE + 6);
            out.push(FIXSTR_BASE + 10);
            out.push(80);
            out.push(108);
            out.push(97);
            out.push(121);
            out.push(101);
            out.push(114);
            out.push(77);
            out.push(111);
            out.push(118);
            out.push(101);
            proof {
                assert(out@ =~= seq![(FIXARRAY_BASE + 6) as u8] + fixstr(tag_player_move()));
            }
            push_u32_field(&mut out, *id);
            push_f64_field(&mut out, *x);
            push_f64_field(&mut out, *y);
            push_f64_field(&mut out, *vel_x);
            push_f64_field(&mut out, *vel_y);
        },
        ServerMessage::Kick { id, x, y, dir_x, dir_y } => {
            out.push(FIXARRAY_BASE + 6);
            out.push(FIXSTR_BASE + 4);
            out.push(75);
            out.push(105);
            out.push(99);
            out.push(107);
            proof {
                assert(out@ =~= seq![(FIXARRAY_BASE + 6) as u8] + fixstr(tag_kick()));
            }
            push_u32_field(&mut out, *id);
            push_f64_field(&mut out, *x);
            push_f64_field(&mut out, *y);
            push_f64_field(&mut out, *dir_x);
            push_f64_field(&mut out, *dir_y);
        },
    }
    out
}

/// Encodes a client-to-server report in its canonical wire form, as the
/// browser-side peer does.
pub fn encode_client_message(m: &ClientMessage) -> (out: Vec<u8>)
    ensures
        out@ == spec_encode_client(*m),
{
    let mut out: Vec<u8> = Vec::new();
    match m {
        ClientMessage::Move { x, y, vel_x, vel_y } => {
            out.push(FIXARRAY_BASE + 5);
            out.push(FIXSTR_BASE + 4);
            out.push(77);
            out.push(111);
            out.push(118);
            out.push(101);
            proof {
                assert(out@ =~= seq![(FIXARRAY_BASE + 5) as u8] + fixstr(tag_move()));
            }
            push_f64_field(&mut out, *x);
            push_f64_field(&mut out, *y);
            push_f64_field(&mut out, *vel_x);
            push_f64_field(&mut out, *vel_y);
        },
        ClientMessage::Kick { x, y, dir_x, dir_y } => {
            out.push(FIXARRAY_BASE + 5);
            out.push(FIXSTR_BASE + 4);
            out.push(75);
            out.push(105);
            out.push(99);
            out.push(107);
            proof {
                assert(out@ =~= seq![(FIXARRAY_BASE + 5) as u8] + fixstr(tag_kick()));
            }
            push_f64_field(&mut out, *x);
            push_f64_field(&mut out, *y);
            push_f64_field(&mut out, *dir_x);
            push_f64_field(&mut out, *dir_y);
        },
    }
    out
}

// ---------------------------------------------------------------------------
// Decoding.

fn tag_vec_init() -> (v: Vec<u8>)
    ensures
        v@ == tag_init(),
{
    let mut v: Vec<u8> = Vec::new();
    v.push(73);
    v.push(110);
    v.push(105);
    v.push(116);
    proof {
        assert(v@ =~= tag_init());
    }
    v
}

fn tag_vec_joined() -> (v: Vec<u8>)
    ensures
        v@ == tag_joined(),
{
    let mut v: Vec<u8> = Vec::new();
    v.push(74);
    v.push(111);
    v.push(105);
    v.push(110);
    v.push(101);
    v.push(100);
    proof {
        assert(v@ =~= tag_joined());
    }
    v
}

fn tag_vec_left() -> (v: Vec<u8>)
    ensures
        v@ == tag_left(),
{
    let mut v: Vec<u8> = Vec::new();
    v.push(76);
    v.push(101);
    v.push(102);
    v.push(116);
    proof {
        assert(v@ =~= tag_left());
    }
    v
}

fn tag_vec_player_move() -> (v: Vec<u8>)
    ensures
        v@ == tag_player_move(),
{
    let mut v: Vec<u8> = Vec::new();
    v.push(80);
    v.push(108);
    v.push(97);
    v.push(121);
    v.push(101);
    v.push(114);
    v.push(77);
    v.push(111);
    v.push(118);
    v.push(101);
    proof {
        assert(v@ =~= tag_player_move());
    }
    v
}

fn tag_vec_move() -> (v: Vec<u8>)
    ensures
        v@ == tag_move(),
{
    let mut v: Vec<u8> = Vec::new();
    v.push(77);
    v.push(111);
    v.push(118);
    v.push(101);
    proof {
        assert(v@ =~= tag_move());
    }
    v
}

fn tag_vec_kick() -> (v: Vec<u8>)
    ensures
        v@ == tag_kick(),
{
    let mut v: Vec<u8> = Vec::new();
    v.push(75);
    v.push(105);
    v.push(99);
    v.push(107);
    proof {
        assert(v@ =~= tag_kick());
    }
    v
}

/// Decodes an inbound (client-to-server) frame.  Exactly the tags `Move` and
/// `Kick` are recognized; anything else is a decode error, never a default.
pub fn decode_client_message(buf: &[u8]) -> (r: Result<ClientMessage, DecodeError>)
    ensures
        r == spec_decode_client(buf@),
{
    let (n, i) = match read_array_len(buf, 0) {
        Ok(p) => p,
        Err(e) => { return Err(e) },
    };
    if n == 0 {
        return Err(DecodeError::LengthMismatch);
    }
    let (st, l) = match read_str(buf, i) {
        Ok(p) => p,
        Err(e) => { return Err(e) },
    };
    let j: usize = st + l;
    let t_move = tag_vec_move();
    let t_kick = tag_vec_kick();
    if bytes_eq(buf, st, l, &t_move) {
        if n != 5 {
            return Err(DecodeError::LengthMismatch);
        }
        let (x, j1) = match read_num(buf, j) {
            Ok(p) => p,
            Err(e) => { return Err(e) },
        };
        let (y, j2) = match read_num(buf, j1) {
            Ok(p) => p,
            Err(e) => { return Err(e) },
        };
        let (vel_x, j3) = match read_num(buf, j2) {
            Ok(p) => p,
            Err(e) => { return Err(e) },
        };
        let (vel_y, _j4) = match read_num(buf, j3) {
            Ok(p) => p,
            Err(e) => { return Err(e) },
        };
        Ok(ClientMessage::Move { x, y, vel_x, vel_y })
    } else if bytes_eq(buf, st, l, &t_kick) {
        if n != 5 {
            return Err(DecodeError::LengthMismatch);
        }
        let (x, j1) = match read_num(buf, j) {
            Ok(p) => p,
            Err(e) => { return Err(e) },
        };
        let (y, j2) = match read_num(buf, j1) {
            Ok(p) => p,
            Err(e) => { return Err(e) },
        };
        let (dir_x, j3) = match read_num(buf, j2) {
            Ok(p) => p,
            Err(e) => { return Err(e) },
        };
        let (dir_y, _j4) = match read_num(buf, j3) {
            Ok(p) => p,
            Err(e) => { return Err(e) },
        };
        Ok(ClientMessage::Kick { x, y, dir_x, dir_y })
    } else {
        Err(DecodeError::UnknownTag)
    }
}

/// Decodes a server-to-client frame, as the browser-side peer does: the five
/// outbound tags, each with its fixed sequence length.
#[verifier::rlimit(60)]
pub fn decode_server_message(buf: &[u8]) -> (r: Result<ServerMessage, DecodeError>)
    ensures
        r == spec_decode_server(buf@),
{
    let (n, i) = match read_array_len(buf, 0) {
        Ok(p) => p,
        Err(e) => { return Err(e) },
    };
    if n == 0 {
        return Err(DecodeError::LengthMismatch);
    }
    let (st, l) = match read_str(buf, i) {
        Ok(p) => p,
        Err(e) => { return Err(e) },
    };
    let j: usize = st + l;
    let t_init = tag_vec_init();
    let t_joined = tag_vec_joined();
    let t_left = tag_vec_left();
    let t_player_move = tag_vec_player_move();
    let t_kick = tag_vec_kick();
    if bytes_eq(buf, st, l, &t_init) {
        if n != 2 {
            return Err(DecodeError::LengthMismatch);
        }
        match read_u32(buf, j) {
            Ok((id, _j0)) => Ok(ServerMessage::Init { id }),
            Err(e) => Err(e),
        }
    } else if bytes_eq(buf, st, l, &t_joined) {
        if n != 2 {
            return Err(DecodeError::LengthMismatch);
        }
        match read_u32(buf, j) {
            Ok((id, _j0)) => Ok(ServerMessage::Joined { id }),
            Err(e) => Err(e),
        }
    } else if bytes_eq(buf, st, l, &t_left) {
        if n != 2 {
            return Err(DecodeError::LengthMismatch);
        }
        match read_u32(buf, j) {
            Ok((id, _j0)) => Ok(ServerMessage::Left { id }),
            Err(e) => Err(e),
        }
    } else if bytes_eq(buf, st, l, &t_player_move) {
        if n != 6 {
            return Err(DecodeError::LengthMismatch);
        }
        let (id, j0) = match read_u32(buf, j) {
            Ok(p) => p,
            Err(e) => { return Err(e) },
        };
        let (x, j1) = match read_num(buf, j0) {
            Ok(p) => p,
            Err(e) => { return Err(e) },
        };
        let (y, j2) = match read_num(buf, j1) {
            Ok(p) => p,
            Err(e) => { return Err(e) },
        };
        let (vel_x, j3) = match read_num(buf, j2) {
            Ok(p) => p,
            Err(e) => { return Err(e) },
        };
        let (vel_y, _j4) = match read_num(buf, j3) {
            Ok(p) => p,
            Err(e) => { return Err(e) },
        };
        Ok(ServerMessage::PlayerMove { id, x, y, vel_x, vel_y })
    } else if bytes_eq(buf, st, l, &t_kick) {
        if n != 6 {
            return Err(DecodeError::LengthMismatch);
        }
        let (id, j0) = match read_u32(buf, j) {
            Ok(p) => p,
            Err(e) => { return Err(e) },
        };
        let (x, j1) = match read_num(buf, j0) {
            Ok(p) => p,
            Err(e) => { return Err(e) },
        };
        let (y, j2) = match read_num(buf, j1) {
            Ok(p) => p,
            Err(e) => { return Err(e) },
        };
        let (dir_x, j3) = match read_num(buf, j2) {
            Ok(p) => p,
            Err(e) => { return Err(e) },
        };
        let (dir_y, _j4) = match read_num(buf, j3) {
            Ok(p) => p,
            Err(e) => { return Err(e) },
        };
        Ok(ServerMessage::Kick { id, x, y, dir_x, dir_y })
    } else {
        Err(DecodeError::UnknownTag)
    }
}

/// Stamps the sender's id into an inbound report: `Move` becomes
/// `PlayerMove`, `Kick` keeps its tag and gains the id.
pub fn tag_with_sender(id: ClientId, m: &ClientMessage) -> (s: ServerMessage)
    ensures
        s == spec_retag(id, *m),
{
    match m {
        ClientMessage::Move { x, y, vel_x, vel_y } => ServerMessage::PlayerMove {
            id,
            x: *x,
            y: *y,
            vel_x: *vel_x,
            vel_y: *vel_y,
        },
        ClientMessage::Kick { x, y, dir_x, dir_y } => ServerMessage::Kick {
            id,
            x: *x,
            y: *y,
            dir_x: *dir_x,
            dir_y: *dir_y,
        },
    }
}

/// The whole inbound hot path in one step: decode a client frame, stamp the
/// sender's id in, and encode the broadcast echo.  A malformed frame yields
/// the decode error unchanged, and nothing to broadcast.
pub fn relay_payload(id: ClientId, frame: &[u8]) -> (r: Result<Vec<u8>, DecodeError>)
    ensures
        spec_decode_client(frame@) matches Ok(m) ==> r matches Ok(v) && v@ == spec_encode_server(
            spec_retag(id, m),
        ),
        spec_decode_client(frame@) matches Err(e) ==> r == Err::<Vec<u8>, DecodeError>(e),
{
    match decode_client_message(frame) {
        Ok(m) => {
            let echo = tag_with_sender(id, &m);
            Ok(encode_server_message(&echo))
        },
        Err(e) => Err(e),
    }
}

} // verus!
