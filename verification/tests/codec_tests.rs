use york_ball_game::codec::{
    decode_client_message, decode_server_message, encode_client_message, encode_server_message,
    relay_payload, tag_with_sender,
};
use york_ball_game::msg::{ClientMessage, DecodeError, ServerMessage};
use york_ball_game::reader::{is_int_marker, is_str_marker, is_uint_marker};

fn bits(v: f64) -> u64 {
    v.to_bits()
}

#[test]
fn server_round_trip_all_shapes() {
    let msgs = vec![
        ServerMessage::Init { id: 0 },
        ServerMessage::Joined { id: 1 },
        ServerMessage::Left { id: u32::MAX },
        ServerMessage::PlayerMove {
            id: 7,
            x: bits(1.5),
            y: bits(-2.25),
            vel_x: bits(0.1),
            vel_y: bits(-0.0),
        },
        ServerMessage::Kick {
            id: 4_000_000_000,
            x: bits(-123.456),
            y: bits(f64::MAX),
            dir_x: bits(f64::MIN_POSITIVE),
            dir_y: bits(0.0),
        },
    ];
    for m in msgs {
        let enc = encode_server_message(&m);
        assert_eq!(decode_server_message(&enc), Ok(m));
    }
}

#[test]
fn client_round_trip_all_shapes() {
    let msgs = vec![
        ClientMessage::Move {
            x: bits(1.5),
            y: bits(2.0),
            vel_x: bits(0.1),
            vel_y: bits(0.0),
        },
        ClientMessage::Kick {
            x: bits(-1.0),
            y: bits(3.75),
            dir_x: bits(-0.5),
            dir_y: bits(123456.789),
        },
    ];
    for m in msgs {
        let enc = encode_client_message(&m);
        assert_eq!(decode_client_message(&enc), Ok(m));
    }
}

#[test]
fn init_encoding_exact_bytes() {
    let enc = encode_server_message(&ServerMessage::Init { id: 9 });
    assert_eq!(
        enc,
        vec![0x92, 0xa4, b'I', b'n', b'i', b't', 0xce, 0, 0, 0, 9]
    );
}

#[test]
fn encoding_matches_rmp() {
    // The canonical encodings must be byte-identical to what the MessagePack
    // crate produces for the same array-format messages.
    let mut expected: Vec<u8> = Vec::new();
    rmp::encode::write_array_len(&mut expected, 2).unwrap();
    rmp::encode::write_str(&mut expected, "Joined").unwrap();
    rmp::encode::write_u32(&mut expected, 123456).unwrap();
    assert_eq!(
        encode_server_message(&ServerMessage::Joined { id: 123456 }),
        expected
    );

    let mut expected: Vec<u8> = Vec::new();
    rmp::encode::write_array_len(&mut expected, 6).unwrap();
    rmp::encode::write_str(&mut expected, "PlayerMove").unwrap();
    rmp::encode::write_u32(&mut expected, 3).unwrap();
    rmp::encode::write_f64(&mut expected, 1.5).unwrap();
    rmp::encode::write_f64(&mut expected, -2.0).unwrap();
    rmp::encode::write_f64(&mut expected, 0.25).unwrap();
    rmp::encode::write_f64(&mut expected, -0.125).unwrap();
    assert_eq!(
        encode_server_message(&ServerMessage::PlayerMove {
            id: 3,
            x: bits(1.5),
            y: bits(-2.0),
            vel_x: bits(0.25),
            vel_y: bits(-0.125),
        }),
        expected
    );

    let mut expected: Vec<u8> = Vec::new();
    rmp::encode::write_array_len(&mut expected, 5).unwrap();
    rmp::encode::write_str(&mut expected, "Kick").unwrap();
    rmp::encode::write_f64(&mut expected, 10.0).unwrap();
    rmp::encode::write_f64(&mut expected, 20.0).unwrap();
    rmp::encode::write_f64(&mut expected, -1.0).unwrap();
    rmp::encode::write_f64(&mut expected, 1.0).unwrap();
    assert_eq!(
        encode_client_message(&ClientMessage::Kick {
            x: bits(10.0),
            y: bits(20.0),
            dir_x: bits(-1.0),
            dir_y: bits(1.0),
        }),
        expected
    );
}

#[test]
fn decode_accepts_rmp_float_frames() {
    let mut frame: Vec<u8> = Vec::new();
    rmp::encode::write_array_len(&mut frame, 5).unwrap();
    rmp::encode::write_str(&mut frame, "Move").unwrap();
    rmp::encode::write_f64(&mut frame, 1.5).unwrap();
    rmp::encode::write_f64(&mut frame, 2.0).unwrap();
    rmp::encode::write_f64(&mut frame, 0.1).unwrap();
    rmp::encode::write_f64(&mut frame, 0.0).unwrap();
    assert_eq!(
        decode_client_message(&frame),
        Ok(ClientMessage::Move {
            x: bits(1.5),
            y: bits(2.0),
            vel_x: bits(0.1),
            vel_y: bits(0.0),
        })
    );
}

#[test]
fn decode_accepts_compact_integer_fields() {
    // A peer that encodes whole values compactly: positive fixint, uint8,
    // int8 and negative fixint all stand for the floats with those values.
    let frame = vec![
        0x95, 0xa4, b'M', b'o', b'v', b'e', // [5 elements, "Move",
        0x05, // 5
        0xcc, 200, // 200
        0xd0, 0x85, // -123  (int8)
        0xe0, // -32  (negative fixint)
    ];
    assert_eq!(
        decode_client_message(&frame),
        Ok(ClientMessage::Move {
            x: bits(5.0),
            y: bits(200.0),
            vel_x: bits(-123.0),
            vel_y: bits(-32.0),
        })
    );
}

#[test]
fn decode_accepts_wide_integer_fields() {
    let frame = vec![
        0x95, 0xa4, b'K', b'i', b'c', b'k', //
        0xcd, 0x01, 0x00, // 256  (uint16)
        0xce, 0x00, 0x01, 0x00, 0x00, // 65536  (uint32)
        0xd1, 0x80, 0x00, // -32768  (int16)
        0xd2, 0x80, 0x00, 0x00, 0x00, // -2147483648  (int32)
    ];
    assert_eq!(
        decode_client_message(&frame),
        Ok(ClientMessage::Kick {
            x: bits(256.0),
            y: bits(65536.0),
            dir_x: bits(-32768.0),
            dir_y: bits(-2147483648.0),
        })
    );
}

#[test]
fn decode_accepts_compact_ids() {
    // The id element of a server frame may come in any unsigned width.
    let frame = vec![0x92, 0xa4, b'L', b'e', b'f', b't', 0x07];
    assert_eq!(
        decode_server_message(&frame),
        Ok(ServerMessage::Left { id: 7 })
    );
    let frame = vec![0x92, 0xa4, b'I', b'n', b'i', b't', 0xcc, 0xff];
    assert_eq!(
        decode_server_message(&frame),
        Ok(ServerMessage::Init { id: 255 })
    );
    let frame = vec![0x92, 0xa4, b'I', b'n', b'i', b't', 0xcd, 0x12, 0x34];
    assert_eq!(
        decode_server_message(&frame),
        Ok(ServerMessage::Init { id: 0x1234 })
    );
}

#[test]
fn decode_accepts_wide_array_headers() {
    // array16 and array32 headers announce the same sequence.
    let frame = vec![
        0xdc, 0x00, 0x02, 0xa4, b'L', b'e', b'f', b't', 0xce, 0, 0, 0, 42,
    ];
    assert_eq!(
        decode_server_message(&frame),
        Ok(ServerMessage::Left { id: 42 })
    );
    let frame = vec![
        0xdd, 0x00, 0x00, 0x00, 0x02, 0xa4, b'L', b'e', b'f', b't', 0x03,
    ];
    assert_eq!(
        decode_server_message(&frame),
        Ok(ServerMessage::Left { id: 3 })
    );
}

#[test]
fn move_never_decodes_as_kick() {
    let m = ClientMessage::Move {
        x: bits(1.0),
        y: bits(2.0),
        vel_x: bits(3.0),
        vel_y: bits(4.0),
    };
    match decode_client_message(&encode_client_message(&m)) {
        Ok(ClientMessage::Move { .. }) => {}
        other => panic!("expected a Move, got {:?}", other),
    }
    let k = ClientMessage::Kick {
        x: bits(1.0),
        y: bits(2.0),
        dir_x: bits(3.0),
        dir_y: bits(4.0),
    };
    match decode_client_message(&encode_client_message(&k)) {
        Ok(ClientMessage::Kick { .. }) => {}
        other => panic!("expected a Kick, got {:?}", other),
    }
}

#[test]
fn unknown_tag_is_an_error() {
    // [1 element, "Foo"]
    let frame = vec![0x91, 0xa3, b'F', b'o', b'o'];
    assert_eq!(decode_client_message(&frame), Err(DecodeError::UnknownTag));
    assert_eq!(decode_server_message(&frame), Err(DecodeError::UnknownTag));
    // A server tag is unknown on the inbound path.
    let frame = encode_server_message(&ServerMessage::Init { id: 0 });
    assert_eq!(decode_client_message(&frame), Err(DecodeError::UnknownTag));
}

#[test]
fn type_mismatch_is_an_error() {
    // Not an array at all.
    assert_eq!(
        decode_client_message(&[0xa4, b'M', b'o', b'v', b'e']),
        Err(DecodeError::TypeMismatch)
    );
    // First element is a number, not a tag string.
    assert_eq!(
        decode_client_message(&[0x95, 0x01, 0x02, 0x03, 0x04, 0x05]),
        Err(DecodeError::TypeMismatch)
    );
    // A string where a number is expected.
    let frame = vec![
        0x95, 0xa4, b'M', b'o', b'v', b'e', 0xa1, b'x', 0x01, 0x02, 0x03,
    ];
    assert_eq!(decode_client_message(&frame), Err(DecodeError::TypeMismatch));
    // nil where a number is expected.
    let frame = vec![0x95, 0xa4, b'M', b'o', b'v', b'e', 0xc0, 0x01, 0x02, 0x03];
    assert_eq!(decode_client_message(&frame), Err(DecodeError::TypeMismatch));
    // float32 is not an accepted numeric form.
    let frame = vec![
        0x95, 0xa4, b'M', b'o', b'v', b'e', 0xca, 0x3f, 0x80, 0x00, 0x00, 0x01, 0x02, 0x03,
    ];
    assert_eq!(decode_client_message(&frame), Err(DecodeError::TypeMismatch));
    // A float where the id is expected.
    let mut frame: Vec<u8> = Vec::new();
    rmp::encode::write_array_len(&mut frame, 2).unwrap();
    rmp::encode::write_str(&mut frame, "Init").unwrap();
    rmp::encode::write_f64(&mut frame, 1.0).unwrap();
    assert_eq!(decode_server_message(&frame), Err(DecodeError::TypeMismatch));
}

#[test]
fn length_mismatch_is_an_error() {
    // An empty sequence has no tag.
    assert_eq!(decode_client_message(&[0x90]), Err(DecodeError::LengthMismatch));
    assert_eq!(decode_server_message(&[0x90]), Err(DecodeError::LengthMismatch));
    // Move with 4 elements instead of 5.
    let frame = vec![0x94, 0xa4, b'M', b'o', b'v', b'e', 0x01, 0x02, 0x03];
    assert_eq!(decode_client_message(&frame), Err(DecodeError::LengthMismatch));
    // Init with 3 elements instead of 2.
    let frame = vec![0x93, 0xa4, b'I', b'n', b'i', b't', 0x01, 0x02];
    assert_eq!(decode_server_message(&frame), Err(DecodeError::LengthMismatch));
}

#[test]
fn truncated_prefixes_always_fail() {
    let client = encode_client_message(&ClientMessage::Move {
        x: bits(1.5),
        y: bits(2.0),
        vel_x: bits(0.1),
        vel_y: bits(0.0),
    });
    for k in 1..client.len() {
        assert_eq!(
            decode_client_message(&client[..k]),
            Err(DecodeError::Truncated),
            "prefix of length {}",
            k
        );
    }
    let server = encode_server_message(&ServerMessage::Kick {
        id: 2,
        x: bits(0.5),
        y: bits(1.5),
        dir_x: bits(-2.5),
        dir_y: bits(3.5),
    });
    for k in 1..server.len() {
        assert_eq!(
            decode_server_message(&server[..k]),
            Err(DecodeError::Truncated),
            "prefix of length {}",
            k
        );
    }
    // The empty buffer is truncated too.
    assert_eq!(decode_client_message(&[]), Err(DecodeError::Truncated));
    assert_eq!(decode_server_message(&[]), Err(DecodeError::Truncated));
}

#[test]
fn trailing_bytes_are_ignored() {
    // Decoding reads one message from the front of the buffer.
    let m = ServerMessage::Joined { id: 12 };
    let mut enc = encode_server_message(&m);
    enc.push(0xff);
    assert_eq!(decode_server_message(&enc), Ok(m));
}

#[test]
fn retag_stamps_sender_id() {
    let m = ClientMessage::Move {
        x: bits(1.0),
        y: bits(2.0),
        vel_x: bits(3.0),
        vel_y: bits(4.0),
    };
    assert_eq!(
        tag_with_sender(5, &m),
        ServerMessage::PlayerMove {
            id: 5,
            x: bits(1.0),
            y: bits(2.0),
            vel_x: bits(3.0),
            vel_y: bits(4.0),
        }
    );
    let k = ClientMessage::Kick {
        x: bits(1.0),
        y: bits(2.0),
        dir_x: bits(3.0),
        dir_y: bits(4.0),
    };
    assert_eq!(
        tag_with_sender(9, &k),
        ServerMessage::Kick {
            id: 9,
            x: bits(1.0),
            y: bits(2.0),
            dir_x: bits(3.0),
            dir_y: bits(4.0),
        }
    );
}

#[test]
fn relay_payload_builds_echo() {
    let m = ClientMessage::Kick {
        x: bits(1.0),
        y: bits(-2.0),
        dir_x: bits(0.5),
        dir_y: bits(-0.5),
    };
    let frame = encode_client_message(&m);
    let echo = relay_payload(3, &frame).unwrap();
    assert_eq!(
        decode_server_message(&echo),
        Ok(ServerMessage::Kick {
            id: 3,
            x: bits(1.0),
            y: bits(-2.0),
            dir_x: bits(0.5),
            dir_y: bits(-0.5),
        })
    );
    // A malformed frame hands the decode error through.
    assert_eq!(relay_payload(3, &[0x90]), Err(DecodeError::LengthMismatch));
}

#[test]
fn marker_predicates() {
    assert!(is_str_marker(0xa0));
    assert!(is_str_marker(0xbf));
    assert!(is_str_marker(0xd9));
    assert!(!is_str_marker(0xcb));
    assert!(is_uint_marker(0x00));
    assert!(is_uint_marker(0x7f));
    assert!(is_uint_marker(0xce));
    assert!(!is_uint_marker(0x80));
    assert!(is_int_marker(0xe0));
    assert!(is_int_marker(0xff));
    assert!(is_int_marker(0xd2));
    assert!(!is_int_marker(0x7f));
}
