use vinsteon::codec::{FrameEvent, LineCodec};
use vinsteon::insteon_structs::{InsteonMsg, get_discriminant, get_msg_size};

/// Every opcode of the registry with its payload length.
const TABLE: [(u8, usize); 10] = [
    (0x50, 9),
    (0x51, 23),
    (0x52, 2),
    (0x53, 8),
    (0x54, 1),
    (0x55, 0),
    (0x56, 5),
    (0x57, 8),
    (0x58, 1),
    (0x62, 6),
];

fn frame_for(op: u8, payload: &[u8]) -> Vec<u8> {
    let mut f = vec![0x02, op];
    f.extend_from_slice(payload);
    f
}

#[test]
fn whole_frame_decodes_for_every_opcode() {
    for &(op, len) in TABLE.iter() {
        let payload: Vec<u8> = (0..len as u8).map(|i| i.wrapping_add(0x30)).collect();
        let mut codec = LineCodec::new();
        codec.push(&frame_for(op, &payload));
        match codec.try_take_one() {
            FrameEvent::Message(_) => {}
            other => panic!("opcode {:#x}: expected a message, got {:?}", op, other),
        }
        // Exactly 2 + len bytes were consumed: nothing is left over.
        assert_eq!(codec.try_take_one(), FrameEvent::Pending);
    }
}

#[test]
fn decoded_fields_equal_payload_bytes_in_declared_order() {
    let payload = [0x11, 0x22, 0x33, 0x44, 0x55, 0x66, 0x77, 0x88, 0x99];
    let mut codec = LineCodec::new();
    codec.push(&frame_for(0x50, &payload));
    match codec.try_take_one() {
        FrameEvent::Message(InsteonMsg::StandardMsg {
            addr_from,
            addr_to,
            msg_flags,
            cmd1,
            cmd2,
        }) => {
            assert_eq!(addr_from, [0x11, 0x22, 0x33]);
            assert_eq!(addr_to, [0x44, 0x55, 0x66]);
            assert_eq!(msg_flags, 0x77);
            assert_eq!(cmd1, 0x88);
            assert_eq!(cmd2, 0x99);
        }
        other => panic!("expected a standard message, got {:?}", other),
    }
}

#[test]
fn extended_message_fields_decode() {
    let mut payload = vec![0x0A, 0x0B, 0x0C, 0x1A, 0x1B, 0x1C, 0x2F, 0x30, 0x31];
    let user: Vec<u8> = (0..14).collect();
    payload.extend_from_slice(&user);
    let mut codec = LineCodec::new();
    codec.push(&frame_for(0x51, &payload));
    match codec.try_take_one() {
        FrameEvent::Message(InsteonMsg::ExtendedMsg {
            addr_from,
            addr_to,
            msg_flags,
            cmd1,
            cmd2,
            user_data,
        }) => {
            assert_eq!(addr_from, [0x0A, 0x0B, 0x0C]);
            assert_eq!(addr_to, [0x1A, 0x1B, 0x1C]);
            assert_eq!(msg_flags, 0x2F);
            assert_eq!(cmd1, 0x30);
            assert_eq!(cmd2, 0x31);
            assert_eq!(user_data.to_vec(), user);
        }
        other => panic!("expected an extended message, got {:?}", other),
    }
}

#[test]
fn truncated_frame_waits_and_consumes_nothing() {
    for &(op, len) in TABLE.iter() {
        if len == 0 {
            continue;
        }
        let partial: Vec<u8> = (0..(len - 1) as u8).collect();
        let mut codec = LineCodec::new();
        codec.push(&frame_for(op, &partial));
        // No message yet, and asking again changes nothing.
        assert_eq!(codec.try_take_one(), FrameEvent::Pending);
        assert_eq!(codec.try_take_one(), FrameEvent::Pending);
        // The missing byte completes the frame: nothing was discarded.
        codec.push(&[0xEE]);
        match codec.try_take_one() {
            FrameEvent::Message(_) => {}
            other => panic!("opcode {:#x}: expected a message, got {:?}", op, other),
        }
    }
}

#[test]
fn prepended_noise_is_discarded() {
    let payload = [1, 2, 3, 4, 5, 6, 7, 8, 9];
    let mut plain = LineCodec::new();
    plain.push(&frame_for(0x50, &payload));
    let expected = plain.try_take_one();

    let mut noisy = LineCodec::new();
    let mut bytes = vec![0xAA, 0xBB, 0x7F, 0x00, 0xFE];
    bytes.extend_from_slice(&frame_for(0x50, &payload));
    noisy.push(&bytes);
    assert_eq!(noisy.try_take_one(), expected);
    assert_eq!(noisy.try_take_one(), FrameEvent::Pending);
}

#[test]
fn unknown_opcode_reports_error_and_scanning_continues() {
    let payload = [9, 8, 7, 6, 5, 4, 3, 2, 1];
    let mut codec = LineCodec::new();
    let mut bytes = vec![0x02, 0x99];
    bytes.extend_from_slice(&frame_for(0x50, &payload));
    codec.push(&bytes);
    assert_eq!(codec.try_take_one(), FrameEvent::ProtocolError(0x99));
    match codec.try_take_one() {
        FrameEvent::Message(InsteonMsg::StandardMsg { addr_from, .. }) => {
            assert_eq!(addr_from, [9, 8, 7]);
        }
        other => panic!("expected the following frame to decode, got {:?}", other),
    }
}

#[test]
fn lone_marker_is_kept_until_more_bytes_arrive() {
    let mut codec = LineCodec::new();
    codec.push(&[0x02]);
    assert_eq!(codec.try_take_one(), FrameEvent::Pending);
    // The marker was not discarded: the opcode and payload complete it.
    codec.push(&[0x54, 0x42]);
    assert_eq!(
        codec.try_take_one(),
        FrameEvent::Message(InsteonMsg::ButtonEventReport { button_event: 0x42 })
    );
}

#[test]
fn empty_buffer_yields_pending() {
    let mut codec = LineCodec::new();
    assert_eq!(codec.try_take_one(), FrameEvent::Pending);
}

#[test]
fn marker_byte_inside_payload_is_not_a_frame_start() {
    // A standard message whose payload contains 0x02 bytes, followed
    // by a button event: the payload marker bytes must not resync the
    // decoder.
    let payload = [0x02, 0x02, 0x02, 0x02, 0x02, 0x02, 0x02, 0x02, 0x02];
    let mut bytes = frame_for(0x50, &payload);
    bytes.extend_from_slice(&[0x02, 0x54, 0x07]);
    let mut codec = LineCodec::new();
    codec.push(&bytes);
    match codec.try_take_one() {
        FrameEvent::Message(InsteonMsg::StandardMsg { addr_from, cmd2, .. }) => {
            assert_eq!(addr_from, [0x02, 0x02, 0x02]);
            assert_eq!(cmd2, 0x02);
        }
        other => panic!("expected the standard message first, got {:?}", other),
    }
    assert_eq!(
        codec.try_take_one(),
        FrameEvent::Message(InsteonMsg::ButtonEventReport { button_event: 0x07 })
    );
    assert_eq!(codec.try_take_one(), FrameEvent::Pending);
}

#[test]
fn burst_of_frames_drains_one_per_call() {
    let mut bytes = frame_for(0x55, &[]);
    bytes.extend_from_slice(&frame_for(0x58, &[0x06]));
    bytes.extend_from_slice(&frame_for(0x52, &[0x60, 0x80]));
    let mut codec = LineCodec::new();
    codec.push(&bytes);
    assert_eq!(
        codec.try_take_one(),
        FrameEvent::Message(InsteonMsg::UserResetDetected {})
    );
    assert_eq!(
        codec.try_take_one(),
        FrameEvent::Message(InsteonMsg::AllLinkCleanupStatusReport { status_byte: 0x06 })
    );
    assert_eq!(
        codec.try_take_one(),
        FrameEvent::Message(InsteonMsg::X10Received { raw_x10: 0x60, x10_flag: 0x80 })
    );
    assert_eq!(codec.try_take_one(), FrameEvent::Pending);
}

#[test]
fn frame_split_across_pushes_decodes_once_complete() {
    let payload = [1, 2, 3, 4, 5, 6, 7, 8];
    let bytes = frame_for(0x57, &payload);
    let mut codec = LineCodec::new();
    codec.push(&bytes[..4]);
    assert_eq!(codec.try_take_one(), FrameEvent::Pending);
    codec.push(&bytes[4..]);
    match codec.try_take_one() {
        FrameEvent::Message(InsteonMsg::AllLinkRecordResponse {
            all_link_record_flags,
            all_link_group,
            id,
            link_data,
        }) => {
            assert_eq!(all_link_record_flags, 1);
            assert_eq!(all_link_group, 2);
            assert_eq!(id, [3, 4, 5]);
            assert_eq!(link_data, [6, 7, 8]);
        }
        other => panic!("expected the record response, got {:?}", other),
    }
}

#[test]
fn msg_new_returns_payload_size() {
    for &(op, len) in TABLE.iter() {
        let mut buf = vec![op];
        buf.extend((0..len as u8).map(|i| i));
        let (_, size) = InsteonMsg::new(&buf).expect("a whole frame body must decode");
        assert_eq!(size, len);
    }
    // Unknown opcode and truncated bodies give nothing.
    assert!(InsteonMsg::new(&[0x99, 0, 0]).is_none());
    assert!(InsteonMsg::new(&[0x50, 0, 0]).is_none());
    assert!(InsteonMsg::new(&[]).is_none());
}

#[test]
fn registry_lookups_match_the_table() {
    for &(op, len) in TABLE.iter() {
        assert_eq!(get_msg_size(&op), Some(len));
    }
    assert_eq!(get_msg_size(&0x00), None);
    assert_eq!(get_msg_size(&0x99), None);
    for (i, &(op, _)) in TABLE.iter().enumerate() {
        assert_eq!(get_discriminant(&op), Some(i as u8));
    }
    assert_eq!(get_discriminant(&0x42), None);
}

#[test]
fn encode_inverts_decode_for_every_opcode() {
    for &(op, len) in TABLE.iter() {
        let mut body = vec![op];
        body.extend((0..len as u8).map(|i| i.wrapping_mul(7).wrapping_add(1)));
        let (msg, _) = InsteonMsg::new(&body).expect("a whole frame body must decode");
        assert_eq!(msg.encode(), body);
    }
}

#[test]
fn encode_appends_to_write_buffer() {
    let codec = LineCodec::new();
    let mut dst = vec![0x01u8];
    codec.encode(&[0x02, 0x62, 0xAA], &mut dst);
    assert_eq!(dst, vec![0x01, 0x02, 0x62, 0xAA]);
}
