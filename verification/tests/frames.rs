use iso_tp::pdu::{
    decode, duration_to_st_min, encode, st_min_to_duration, FlowStatus, Pdu,
};
use iso_tp::{Duration, Id, StandardId};

fn id() -> Id {
    Id::Standard(StandardId::new(0x42).unwrap())
}

fn bytes(pdu: Pdu<'_>, padding: Option<u8>) -> Vec<u8> {
    let frame = encode(id(), &pdu, padding).unwrap();
    assert_eq!(frame.id, id());
    frame.data
}

#[test]
fn single_frame_layout() {
    let pdu = Pdu::SingleFrame { len: 3, data: &[1, 2, 3] };
    assert_eq!(bytes(pdu, None), vec![0x03, 1, 2, 3]);
    assert_eq!(bytes(pdu, Some(0xAA)), vec![0x03, 1, 2, 3, 0xAA, 0xAA, 0xAA, 0xAA]);
    let empty = Pdu::SingleFrame { len: 0, data: &[] };
    assert_eq!(bytes(empty, None), vec![0]);
}

#[test]
fn first_frame_layout() {
    let pdu = Pdu::FirstFrame { len: 0xABC, data: &[1, 2, 3, 4, 5, 6] };
    assert_eq!(bytes(pdu, Some(0)), vec![0x1A, 0xBC, 1, 2, 3, 4, 5, 6]);
}

#[test]
fn consecutive_frame_layout() {
    let pdu = Pdu::ConsecutiveFrame { sn: 15, data: &[9, 8] };
    assert_eq!(bytes(pdu, None), vec![0x2F, 9, 8]);
    assert_eq!(bytes(pdu, Some(0xCC)), vec![0x2F, 9, 8, 0xCC, 0xCC, 0xCC, 0xCC, 0xCC]);
}

#[test]
fn flow_control_layout() {
    let cts = Pdu::FlowControl { status: FlowStatus::ClearToSend, block_size: 8, st_min: 20 };
    assert_eq!(bytes(cts, None), vec![0x30, 8, 20]);
    let wait = Pdu::FlowControl { status: FlowStatus::Wait, block_size: 0, st_min: 0 };
    assert_eq!(bytes(wait, None), vec![0x31, 0, 0]);
    let overflow = Pdu::FlowControl { status: FlowStatus::Overflow, block_size: 0, st_min: 0 };
    assert_eq!(bytes(overflow, Some(1)), vec![0x32, 0, 0, 1, 1, 1, 1, 1]);
}

#[test]
fn units_that_do_not_fit_are_refused() {
    let long = [0u8; 8];
    assert_eq!(encode(id(), &Pdu::SingleFrame { len: 8, data: &long }, None), Err(()));
    assert_eq!(encode(id(), &Pdu::SingleFrame { len: 2, data: &long[..3] }, None), Err(()));
    assert_eq!(encode(id(), &Pdu::FirstFrame { len: 7, data: &long[..6] }, None), Err(()));
    assert_eq!(encode(id(), &Pdu::FirstFrame { len: 4096, data: &long[..6] }, None), Err(()));
    assert_eq!(encode(id(), &Pdu::FirstFrame { len: 100, data: &long[..5] }, None), Err(()));
    assert_eq!(encode(id(), &Pdu::ConsecutiveFrame { sn: 16, data: &long[..7] }, None), Err(()));
    assert_eq!(encode(id(), &Pdu::ConsecutiveFrame { sn: 1, data: &long }, None), Err(()));
    assert_eq!(encode(id(), &Pdu::ConsecutiveFrame { sn: 1, data: &[] }, None), Err(()));
}

#[test]
fn encoded_units_decode() {
    let units = [
        Pdu::SingleFrame { len: 0, data: &[] },
        Pdu::SingleFrame { len: 7, data: &[1, 2, 3, 4, 5, 6, 7] },
        Pdu::FirstFrame { len: 8, data: &[1, 2, 3, 4, 5, 6] },
        Pdu::FirstFrame { len: 4095, data: &[1, 2, 3, 4, 5, 6] },
        Pdu::FlowControl { status: FlowStatus::Wait, block_size: 3, st_min: 0xF9 },
    ];
    for unit in units {
        for padding in [None, Some(0x55)] {
            assert_eq!(decode(&bytes(unit, padding)), Ok(unit));
        }
    }
    let last = Pdu::ConsecutiveFrame { sn: 2, data: &[7] };
    assert_eq!(decode(&bytes(last, None)), Ok(last));
    assert_eq!(
        decode(&bytes(last, Some(0))),
        Ok(Pdu::ConsecutiveFrame { sn: 2, data: &[7, 0, 0, 0, 0, 0, 0] })
    );
}

#[test]
fn malformed_frames_are_refused() {
    assert_eq!(decode(&[]), Err(()));
    assert_eq!(decode(&[0; 9]), Err(()));
    assert_eq!(decode(&[0x03, 1, 2]), Err(()));
    assert_eq!(decode(&[0x08, 1, 2, 3, 4, 5, 6, 7]), Err(()));
    assert_eq!(decode(&[0x10, 0x20, 1, 2, 3]), Err(()));
    assert_eq!(decode(&[0x10, 0x07, 1, 2, 3, 4, 5, 6]), Err(()));
    assert_eq!(decode(&[0x21]), Err(()));
    assert_eq!(decode(&[0x30, 0]), Err(()));
    assert_eq!(decode(&[0x33, 0, 0]), Err(()));
    assert_eq!(decode(&[0x40, 0, 0]), Err(()));
}

#[test]
fn decoded_units_encode_to_the_same_bytes() {
    let wire = [0x2A, 1, 2, 3];
    let unit = decode(&wire).unwrap();
    assert_eq!(bytes(unit, None), wire.to_vec());
    let padded = [0x02, 5, 6, 0xFF];
    let unit = decode(&padded).unwrap();
    assert_eq!(bytes(unit, None), vec![0x02, 5, 6]);
}

#[test]
fn separation_time_codes() {
    assert_eq!(st_min_to_duration(0), Some(Duration::from_millis(0)));
    assert_eq!(st_min_to_duration(0x7F), Some(Duration::from_millis(127)));
    assert_eq!(st_min_to_duration(0x80), None);
    assert_eq!(st_min_to_duration(0xF0), None);
    assert_eq!(st_min_to_duration(0xF1), Some(Duration::from_micros(100)));
    assert_eq!(st_min_to_duration(0xF9), Some(Duration::from_micros(900)));
    assert_eq!(st_min_to_duration(0xFA), None);
    assert_eq!(duration_to_st_min(Duration::from_millis(0)), 0);
    assert_eq!(duration_to_st_min(Duration::new(0, 1)), 0xF1);
    assert_eq!(duration_to_st_min(Duration::from_micros(250)), 0xF3);
    assert_eq!(duration_to_st_min(Duration::from_micros(901)), 1);
    assert_eq!(duration_to_st_min(Duration::from_micros(1001)), 2);
    assert_eq!(duration_to_st_min(Duration::from_millis(127)), 0x7F);
    assert_eq!(duration_to_st_min(Duration::from_millis(5000)), 0x7F);
}

#[test]
fn separation_time_codes_round_trip() {
    for raw in 0..=255u8 {
        if let Some(span) = st_min_to_duration(raw) {
            assert_eq!(duration_to_st_min(span), raw);
        }
    }
    for micros in 0..127_000u64 {
        let asked = Duration::from_micros(micros);
        let written = st_min_to_duration(duration_to_st_min(asked)).unwrap();
        assert!(written >= asked);
    }
}
