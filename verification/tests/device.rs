use ardeck::ardeck_data::{ArdeckData, SwitchData};
use ardeck::frame::Payload;
use ardeck::switch_info::SwitchType;

#[test]
fn new_switch_data_is_blank() {
    let data = SwitchData::new();
    assert_eq!(data.switch_type(), SwitchType::Unknown);
    assert_eq!(data.id(), 0);
    assert_eq!(data.state(), 0);
    assert!(data.raw_data().is_empty());
    assert_eq!(data.timestamp(), 0);
}

#[test]
fn switch_data_setters_change_one_field_each() {
    let mut data = SwitchData::new();
    data.set_switch_type(SwitchType::Digital);
    assert_eq!((data.switch_type(), data.id(), data.state(), data.timestamp()), (SwitchType::Digital, 0, 0, 0));
    data.set_id(12);
    assert_eq!((data.switch_type(), data.id(), data.state(), data.timestamp()), (SwitchType::Digital, 12, 0, 0));
    data.set_state(1);
    assert_eq!((data.switch_type(), data.id(), data.state(), data.timestamp()), (SwitchType::Digital, 12, 1, 0));
    data.set_timestamp(-5);
    assert_eq!((data.switch_type(), data.id(), data.state(), data.timestamp()), (SwitchType::Digital, 12, 1, -5));
    data.set_raw_data(vec![0x19]);
    assert_eq!(data.raw_data(), vec![0x19]);
    assert_eq!((data.switch_type(), data.id(), data.state(), data.timestamp()), (SwitchType::Digital, 12, 1, -5));
}

#[test]
fn raw_data_is_a_copy() {
    let mut data = SwitchData::new();
    data.set_raw_data(vec![1, 2]);
    let mut copy = data.raw_data();
    copy.push(3);
    assert_eq!(data.raw_data(), vec![1, 2]);
}

#[test]
fn device_decoder_keeps_the_payload_bytes() {
    let mut decoder = ArdeckData::new();
    decoder.on_data(vec![b'A', b'D', 0x0B, b'E', b'C', b'A', b'D', 0x96, 0x34, b'E', b'C']);
    let frames = decoder.on_complete();
    assert_eq!(frames.len(), 2);
    assert_eq!((frames[0].switch_type(), frames[0].id(), frames[0].state()), (SwitchType::Digital, 5, 1));
    assert_eq!(frames[0].raw_data(), vec![0x0B]);
    assert_eq!((frames[1].switch_type(), frames[1].id(), frames[1].state()), (SwitchType::Analog, 5, 0x234));
    assert_eq!(frames[1].raw_data(), vec![0x96, 0x34]);
    assert!(frames[0].timestamp() > 1_577_836_800_000);
    assert!(decoder.on_complete().is_empty());
}

#[test]
fn device_decoder_says_which_byte_completes() {
    let mut decoder = ArdeckData::new();
    let flags: Vec<bool> = [b'x', b'A', b'D', 0x00, b'E', b'C', b'C']
        .iter()
        .map(|b| decoder.put_challenge(*b))
        .collect();
    assert_eq!(flags, vec![false, false, false, false, false, true, false]);
}

#[test]
fn device_decoder_drops_malformed_frames() {
    let mut decoder = ArdeckData::new();
    decoder.on_data(vec![b'A', b'X', b'D', 0x01, b'E', b'C']);
    decoder.on_data(vec![b'A', b'D', 0x01, b'C', b'E']);
    decoder.on_data(vec![b'A', b'D', 0x81, b'E', b'C']);
    assert!(decoder.on_complete().is_empty());
}

#[test]
fn device_decoder_works_across_buffers() {
    let mut decoder = ArdeckData::new();
    for b in [b'A', b'D', 0xFF, 0x01, b'E', b'C'] {
        decoder.on_data(vec![b]);
    }
    let frames = decoder.on_complete();
    assert_eq!(frames.len(), 1);
    assert_eq!((frames[0].id(), frames[0].state()), (31, 0x301));
}

#[test]
fn format_switch_data_keeps_bytes_and_time() {
    let data = ArdeckData::format_switch_data(Payload::Digital { b0: 0x7E }, 77);
    assert_eq!((data.switch_type(), data.id(), data.state(), data.timestamp()), (SwitchType::Digital, 63, 0, 77));
    assert_eq!(data.raw_data(), vec![0x7E]);
}
