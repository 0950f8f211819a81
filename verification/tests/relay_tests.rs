use york_ball_game::codec::{decode_server_message, encode_client_message, encode_server_message};
use york_ball_game::hexdump::hex_dump;
use york_ball_game::msg::{ClientMessage, DecodeError, ServerMessage};
use york_ball_game::registry::ClientRegistry;
use york_ball_game::session::{
    session_connect, session_disconnect, session_handle_frame, ClientIdCounter,
};

fn bits(v: f64) -> u64 {
    v.to_bits()
}

#[test]
fn counter_allocates_strictly_increasing_ids() {
    let mut counter = ClientIdCounter::new();
    let a = counter.allocate();
    let b = counter.allocate();
    let c = counter.allocate();
    assert_eq!((a, b, c), (0, 1, 2));
    assert!(a < b && b < c);
}

#[test]
fn sequential_connects_get_distinct_increasing_ids() {
    let mut reg = ClientRegistry::new();
    let mut counter = ClientIdCounter::new();
    let mut ids: Vec<u32> = Vec::new();
    for _ in 0..5 {
        ids.push(session_connect(&mut reg, &mut counter));
    }
    for w in ids.windows(2) {
        assert!(w[0] < w[1]);
    }
    assert_eq!(ids, vec![0, 1, 2, 3, 4]);
    assert_eq!(reg.member_count(), 5);
}

#[test]
fn register_rejects_duplicate_and_unregister_is_idempotent() {
    let mut reg = ClientRegistry::new();
    assert!(reg.register(7));
    assert!(!reg.register(7));
    assert!(reg.contains(7));
    reg.unregister(7);
    assert!(!reg.contains(7));
    // Removing an absent id is a silent no-op.
    reg.unregister(7);
    assert!(!reg.contains(7));
    assert_eq!(reg.member_count(), 0);
}

#[test]
fn enqueue_to_absent_member_fails_silently() {
    let mut reg = ClientRegistry::new();
    assert!(reg.register(1));
    let payload = vec![1, 2, 3];
    assert!(reg.enqueue_to(1, &payload));
    assert!(!reg.enqueue_to(2, &payload));
    assert_eq!(reg.drain(1), vec![vec![1, 2, 3]]);
    assert_eq!(reg.drain(1), Vec::<Vec<u8>>::new());
    assert_eq!(reg.drain(2), Vec::<Vec<u8>>::new());
}

#[test]
fn broadcast_reaches_everyone_but_the_sender_exactly_once() {
    let mut reg = ClientRegistry::new();
    let mut counter = ClientIdCounter::new();
    let a = session_connect(&mut reg, &mut counter);
    let b = session_connect(&mut reg, &mut counter);
    let c = session_connect(&mut reg, &mut counter);
    // Clear the connection-time traffic.
    reg.drain(a);
    reg.drain(b);
    reg.drain(c);

    let m = ClientMessage::Move {
        x: bits(1.5),
        y: bits(2.0),
        vel_x: bits(0.1),
        vel_y: bits(0.0),
    };
    let frame = encode_client_message(&m);
    assert!(session_handle_frame(&mut reg, a, &frame).is_ok());

    let expected = ServerMessage::PlayerMove {
        id: a,
        x: bits(1.5),
        y: bits(2.0),
        vel_x: bits(0.1),
        vel_y: bits(0.0),
    };
    // A itself receives none.
    assert_eq!(reg.drain(a), Vec::<Vec<u8>>::new());
    // Every other member receives exactly one copy.
    for other in [b, c] {
        let delivered = reg.drain(other);
        assert_eq!(delivered.len(), 1);
        assert_eq!(decode_server_message(&delivered[0]), Ok(expected));
    }
}

#[test]
fn malformed_frame_changes_nothing() {
    let mut reg = ClientRegistry::new();
    let mut counter = ClientIdCounter::new();
    let a = session_connect(&mut reg, &mut counter);
    let b = session_connect(&mut reg, &mut counter);
    reg.drain(a);
    reg.drain(b);

    let r = session_handle_frame(&mut reg, a, &[0x91, 0xa3, b'F', b'o', b'o']);
    assert_eq!(r, Err(DecodeError::UnknownTag));
    assert_eq!(reg.drain(a), Vec::<Vec<u8>>::new());
    assert_eq!(reg.drain(b), Vec::<Vec<u8>>::new());
    assert!(reg.contains(a) && reg.contains(b));
}

#[test]
fn disconnect_announces_left_exactly_once() {
    let mut reg = ClientRegistry::new();
    let mut counter = ClientIdCounter::new();
    let a = session_connect(&mut reg, &mut counter);
    let b = session_connect(&mut reg, &mut counter);
    let c = session_connect(&mut reg, &mut counter);
    reg.drain(a);
    reg.drain(b);
    reg.drain(c);

    session_disconnect(&mut reg, b);
    // B is absent immediately after.
    assert!(!reg.contains(b));
    assert_eq!(reg.member_count(), 2);
    // Every remaining member receives exactly one Left{b}.
    for remaining in [a, c] {
        let delivered = reg.drain(remaining);
        assert_eq!(delivered.len(), 1);
        assert_eq!(
            decode_server_message(&delivered[0]),
            Ok(ServerMessage::Left { id: b })
        );
    }
}

#[test]
fn two_client_session_scenario() {
    let mut reg = ClientRegistry::new();
    let mut counter = ClientIdCounter::new();

    // A connects and receives Init{0}.
    let a = session_connect(&mut reg, &mut counter);
    assert_eq!(a, 0);
    let a_frames = reg.drain(a);
    assert_eq!(a_frames.len(), 1);
    assert_eq!(
        decode_server_message(&a_frames[0]),
        Ok(ServerMessage::Init { id: 0 })
    );

    // B connects: B receives Init{1}, A receives Joined{1}.
    let b = session_connect(&mut reg, &mut counter);
    assert_eq!(b, 1);
    let b_frames = reg.drain(b);
    assert_eq!(b_frames.len(), 1);
    assert_eq!(
        decode_server_message(&b_frames[0]),
        Ok(ServerMessage::Init { id: 1 })
    );
    let a_frames = reg.drain(a);
    assert_eq!(a_frames.len(), 1);
    assert_eq!(
        decode_server_message(&a_frames[0]),
        Ok(ServerMessage::Joined { id: 1 })
    );

    // A sends a Move; B receives the PlayerMove echo with A's id.
    let frame = encode_client_message(&ClientMessage::Move {
        x: bits(1.5),
        y: bits(2.0),
        vel_x: bits(0.1),
        vel_y: bits(0.0),
    });
    assert!(session_handle_frame(&mut reg, a, &frame).is_ok());
    let b_frames = reg.drain(b);
    assert_eq!(b_frames.len(), 1);
    assert_eq!(
        decode_server_message(&b_frames[0]),
        Ok(ServerMessage::PlayerMove {
            id: 0,
            x: bits(1.5),
            y: bits(2.0),
            vel_x: bits(0.1),
            vel_y: bits(0.0),
        })
    );
    assert_eq!(reg.drain(a), Vec::<Vec<u8>>::new());

    // B disconnects; A receives Left{1} and B is gone.
    session_disconnect(&mut reg, b);
    let a_frames = reg.drain(a);
    assert_eq!(a_frames.len(), 1);
    assert_eq!(
        decode_server_message(&a_frames[0]),
        Ok(ServerMessage::Left { id: 1 })
    );
    assert!(!reg.contains(b));

    // A subsequent broadcast excluding any id never reaches B.
    let extra = encode_server_message(&ServerMessage::Joined { id: 99 });
    reg.broadcast_except(12345, &extra);
    assert_eq!(reg.drain(b), Vec::<Vec<u8>>::new());
    assert!(!reg.contains(b));
}

#[test]
fn hex_dump_formats_bytes() {
    assert_eq!(hex_dump(&[0x00, 0xff, 0x1a], 32), "00 ff 1a ");
    assert_eq!(hex_dump(&[], 32), "");
    // Data longer than the limit gets an ellipsis.
    assert_eq!(hex_dump(&[0x00, 0xff, 0x1a], 2), "00 ff ...");
    // A line break after every 16th byte when more follow.
    let data: Vec<u8> = (0u8..18).collect();
    assert_eq!(
        hex_dump(&data, 32),
        "00 01 02 03 04 05 06 07 08 09 0a 0b 0c 0d 0e 0f \n10 11 "
    );
    // No break when the 16th byte is the last shown.
    let data: Vec<u8> = (0u8..16).collect();
    assert_eq!(
        hex_dump(&data, 16),
        "00 01 02 03 04 05 06 07 08 09 0a 0b 0c 0d 0e 0f "
    );
}
