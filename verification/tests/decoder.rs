use ardeck::frame::{Payload, Phase};
use ardeck::switch_info::{ActionDataParser, SwitchInfo, SwitchType};

fn feed(parser: &mut ActionDataParser, bytes: &[u8]) -> Vec<Option<SwitchInfo>> {
    bytes.iter().map(|b| parser.put_challenge(*b)).collect()
}

#[test]
fn digital_frame_round_trip() {
    let mut parser = ActionDataParser::new();
    let b0: u8 = 0b0000_1011;
    let out = feed(&mut parser, &[b'A', b'D', b0, b'E', b'C']);
    assert!(out[0].is_none() && out[1].is_none() && out[2].is_none() && out[3].is_none());
    let event = out[4].expect("the last byte completes the frame");
    assert_eq!(event.switch_type, SwitchType::Digital);
    assert_eq!(event.switch_id, 5);
    assert_eq!(event.switch_state, 1);
    assert_eq!(parser.on_complete(), vec![event]);
}

#[test]
fn digital_frame_round_trip_for_every_first_byte() {
    for b0 in 0u8..128 {
        let mut parser = ActionDataParser::new();
        let out = feed(&mut parser, &[0x41, 0x44, b0, 0x45, 0x43]);
        assert_eq!(out.iter().filter(|e| e.is_some()).count(), 1);
        let event = out[4].unwrap();
        assert_eq!(event.switch_type, SwitchType::Digital);
        assert_eq!(event.switch_id, (b0 & 0x7E) >> 1);
        assert_eq!(event.switch_state, (b0 & 0x01) as u16);
    }
}

#[test]
fn analog_frame_round_trip() {
    let mut parser = ActionDataParser::new();
    let out = feed(&mut parser, &[b'A', b'D', 0b1001_0110, 0x34, b'E', b'C']);
    assert!(out[..5].iter().all(|e| e.is_none()));
    let event = out[5].expect("the last byte completes the frame");
    assert_eq!(event.switch_type, SwitchType::Analog);
    assert_eq!(event.switch_id, 5);
    assert_eq!(event.switch_state, 0x234);
}

#[test]
fn analog_frame_round_trip_for_every_payload() {
    for b0 in 128u8..=255 {
        for b1 in [0u8, 1, 0x41, 0x43, 0x7F, 0x80, 0xFF] {
            let mut parser = ActionDataParser::new();
            let out = feed(&mut parser, &[0x41, 0x44, b0, b1, 0x45, 0x43]);
            assert_eq!(out.iter().filter(|e| e.is_some()).count(), 1);
            let event = out[5].unwrap();
            assert_eq!(event.switch_type, SwitchType::Analog);
            assert_eq!(event.switch_id, (b0 & 0x7C) >> 2);
            assert_eq!(event.switch_state, (((b0 & 0x03) as u16) << 8) | b1 as u16);
        }
    }
}

#[test]
fn analog_extremes() {
    let mut parser = ActionDataParser::new();
    parser.put_data(vec![b'A', b'D', 0xFF, 0xFF, b'E', b'C', b'A', b'D', 0x80, 0x00, b'E', b'C']);
    let events = parser.on_complete();
    assert_eq!(events.len(), 2);
    assert_eq!((events[0].switch_id, events[0].switch_state), (31, 1023));
    assert_eq!((events[1].switch_id, events[1].switch_state), (0, 0));
}

#[test]
fn digital_extremes() {
    let mut parser = ActionDataParser::new();
    parser.put_data(vec![b'A', b'D', 0x7F, b'E', b'C', b'A', b'D', 0x00, b'E', b'C']);
    let events = parser.on_complete();
    assert_eq!(events.len(), 2);
    assert_eq!((events[0].switch_id, events[0].switch_state), (63, 1));
    assert_eq!((events[1].switch_id, events[1].switch_state), (0, 0));
}

#[test]
fn noise_before_a_frame_is_ignored() {
    let mut parser = ActionDataParser::new();
    let mut stream = vec![0x00, 0xFF, b'D', b'E', b'C', b'x', 0x80];
    stream.extend_from_slice(&[b'A', b'D', 0b0000_0110, b'E', b'C']);
    let out = feed(&mut parser, &stream);
    assert_eq!(out.iter().filter(|e| e.is_some()).count(), 1);
    let event = out[stream.len() - 1].unwrap();
    assert_eq!((event.switch_type, event.switch_id, event.switch_state), (SwitchType::Digital, 3, 0));
}

#[test]
fn abandoned_frame_then_valid_frame() {
    // 'A' 'D' payload, then a byte that is not 'E': the frame is dropped.
    let mut parser = ActionDataParser::new();
    let out = feed(&mut parser, &[b'A', b'D', 0x02, b'Z', b'A', b'D', 0x03, b'E', b'C']);
    assert_eq!(out.iter().filter(|e| e.is_some()).count(), 1);
    let event = out[8].unwrap();
    assert_eq!((event.switch_id, event.switch_state), (1, 1));
}

#[test]
fn wrong_last_marker_drops_the_frame() {
    let mut parser = ActionDataParser::new();
    let out = feed(&mut parser, &[b'A', b'D', 0x02, b'E', b'X', b'A', b'D', 0x05, b'E', b'C']);
    assert_eq!(out.iter().filter(|e| e.is_some()).count(), 1);
    assert_eq!(out[9].unwrap().switch_id, 2);
}

#[test]
fn the_byte_that_abandons_a_frame_is_discarded() {
    // The second 'A' is the unexpected byte of the first frame and starts nothing.
    let mut parser = ActionDataParser::new();
    let out = feed(&mut parser, &[b'A', b'A', b'D', 0x02, b'E', b'C']);
    assert!(out.iter().all(|e| e.is_none()));
    // The decoder is idle again afterwards.
    let out = feed(&mut parser, &[b'A', b'D', 0x02, b'E', b'C']);
    assert!(out[4].is_some());
}

#[test]
fn marker_bytes_inside_a_payload_are_payload() {
    let mut parser = ActionDataParser::new();
    // 0x41 is 'A': a digital payload for switch 32 with state 1.
    let out = feed(&mut parser, &[b'A', b'D', 0x41, b'E', b'C']);
    let event = out[4].unwrap();
    assert_eq!((event.switch_id, event.switch_state), (32, 1));
    // An analog payload whose second byte is 'E'.
    let out = feed(&mut parser, &[b'A', b'D', 0x84, b'E', b'E', b'C']);
    let event = out[5].unwrap();
    assert_eq!((event.switch_type, event.switch_id, event.switch_state), (SwitchType::Analog, 1, 0x45));
}

#[test]
fn truncated_stream_emits_nothing() {
    let mut parser = ActionDataParser::new();
    parser.put_data(vec![b'A', b'D', 0x81, 0x00, b'E']);
    assert!(parser.on_complete().is_empty());
    assert!(parser.on_change_action().is_empty());
}

#[test]
fn put_data_feeds_every_byte_in_order() {
    let mut whole = ActionDataParser::new();
    whole.put_data(vec![b'A', b'D', 0x0B, b'E', b'C', b'A', b'D', 0x0A, b'E', b'C']);
    let mut split = ActionDataParser::new();
    split.put_data(vec![b'A', b'D', 0x0B]);
    split.put_data(vec![]);
    split.put_data(vec![b'E', b'C', b'A']);
    split.put_data(vec![b'D', 0x0A, b'E', b'C']);
    let a = whole.on_complete();
    let b = split.on_complete();
    assert_eq!(a.len(), 2);
    assert_eq!(b.len(), 2);
    for (x, y) in a.iter().zip(b.iter()) {
        assert_eq!((x.switch_type, x.switch_id, x.switch_state), (y.switch_type, y.switch_id, y.switch_state));
    }
    assert_eq!((a[0].switch_id, a[0].switch_state), (5, 1));
    assert_eq!((a[1].switch_id, a[1].switch_state), (5, 0));
}

#[test]
fn events_are_stamped_with_the_current_time() {
    let mut parser = ActionDataParser::new();
    parser.put_data(vec![b'A', b'D', 0x02, b'E', b'C']);
    let events = parser.on_complete();
    // Later than 2020-01-01T00:00:00Z, in milliseconds.
    assert!(events[0].timestamp > 1_577_836_800_000);
}

#[test]
fn on_complete_empties_the_queue() {
    let mut parser = ActionDataParser::new();
    parser.put_data(vec![b'A', b'D', 0x02, b'E', b'C']);
    assert_eq!(parser.on_complete().len(), 1);
    assert!(parser.on_complete().is_empty());
}

#[test]
fn step_walks_the_phases_of_a_digital_frame() {
    let (p, e) = Phase::Idle.step(b'A');
    assert_eq!((p, e), (Phase::AwaitD, None));
    let (p, e) = p.step(b'D');
    assert_eq!((p, e), (Phase::AwaitPayload, None));
    let (p, e) = p.step(0x0B);
    assert_eq!((p, e), (Phase::AwaitE { payload: Payload::Digital { b0: 0x0B } }, None));
    let (p, e) = p.step(b'E');
    assert_eq!((p, e), (Phase::AwaitC { payload: Payload::Digital { b0: 0x0B } }, None));
    let (p, e) = p.step(b'C');
    assert_eq!((p, e), (Phase::Idle, Some(Payload::Digital { b0: 0x0B })));
}

#[test]
fn step_walks_the_phases_of_an_analog_frame() {
    let (p, _) = Phase::AwaitPayload.step(0x96);
    assert_eq!(p, Phase::AwaitPayload2 { b0: 0x96 });
    let (p, e) = p.step(0x34);
    assert_eq!((p, e), (Phase::AwaitE { payload: Payload::Analog { b0: 0x96, b1: 0x34 } }, None));
}

#[test]
fn step_returns_to_idle_on_any_unexpected_byte() {
    let payload = Payload::Digital { b0: 1 };
    for byte in 0u8..=255 {
        if byte != b'A' {
            assert_eq!(Phase::Idle.step(byte), (Phase::Idle, None));
        }
        if byte != b'D' {
            assert_eq!(Phase::AwaitD.step(byte), (Phase::Idle, None));
        }
        if byte != b'E' {
            assert_eq!(Phase::AwaitE { payload }.step(byte), (Phase::Idle, None));
        }
        if byte != b'C' {
            assert_eq!(Phase::AwaitC { payload }.step(byte), (Phase::Idle, None));
        }
    }
}

#[test]
fn payload_decoding() {
    let d = Payload::Digital { b0: 0b0111_1111 };
    assert_eq!((d.switch_type(), d.switch_id(), d.switch_state()), (SwitchType::Digital, 63, 1));
    assert_eq!(d.raw_data(), vec![0b0111_1111]);
    let a = Payload::Analog { b0: 0b1000_0111, b1: 0xFF };
    assert_eq!((a.switch_type(), a.switch_id(), a.switch_state()), (SwitchType::Analog, 1, 1023));
    assert_eq!(a.raw_data(), vec![0b1000_0111, 0xFF]);
}

#[test]
fn format_switch_data_fills_every_field() {
    let info = ActionDataParser::format_switch_data(Payload::Analog { b0: 0x96, b1: 0x34 }, 1234);
    assert_eq!(
        info,
        SwitchInfo { switch_type: SwitchType::Analog, switch_id: 5, switch_state: 0x234, timestamp: 1234 }
    );
}

#[test]
fn switch_info_setters_and_getters() {
    let mut info = SwitchInfo::new();
    assert_eq!(info.get_switch_type(), SwitchType::Unknown);
    assert_eq!((info.get_switch_id(), info.get_switch_state(), info.get_timestamp()), (0, 0, 0));
    info.set_switch_type(SwitchType::Analog);
    info.set_switch_id(7);
    info.set_switch_state(512);
    info.set_timestamp(99);
    assert_eq!(info.get_switch_type(), SwitchType::Analog);
    assert_eq!((info.get_switch_id(), info.get_switch_state(), info.get_timestamp()), (7, 512, 99));
}

#[test]
fn kinds_are_named_in_lower_case() {
    assert_eq!(SwitchType::Digital.name(), "digital");
    assert_eq!(SwitchType::Analog.name(), "analog");
    assert_eq!(SwitchType::Unknown.name(), "unknown");
}

#[test]
fn kinds_are_found_by_their_names_only() {
    assert_eq!(SwitchType::from_name(&"digital".to_string()), Some(SwitchType::Digital));
    assert_eq!(SwitchType::from_name(&"analog".to_string()), Some(SwitchType::Analog));
    assert_eq!(SwitchType::from_name(&"unknown".to_string()), Some(SwitchType::Unknown));
    assert_eq!(SwitchType::from_name(&"Digital".to_string()), None);
    assert_eq!(SwitchType::from_name(&"".to_string()), None);
    assert_eq!(SwitchType::from_name(&"analogue".to_string()), None);
    for kind in [SwitchType::Unknown, SwitchType::Digital, SwitchType::Analog] {
        assert_eq!(SwitchType::from_name(&kind.name().to_string()), Some(kind));
    }
}
