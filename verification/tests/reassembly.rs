use iso_tp::errors::IsoTpError;
use iso_tp::pdu::{FlowStatus, Pdu};
use iso_tp::reception::{accept, flow_control_frame, Reception};
use iso_tp::rx::{build_buffer, RxBuffer, RxMachine, RxOutcome};
use iso_tp::{Duration, Id, IsoTpConfig, StandardId};

fn id(raw: u16) -> Id {
    Id::Standard(StandardId::new(raw).unwrap())
}

fn config() -> IsoTpConfig {
    IsoTpConfig {
        tx_id: id(1),
        rx_id: id(2),
        max_payload_len: 20,
        rx_buffer_len: 20,
        block_size: 2,
        st_min: Duration::from_millis(5),
        ..IsoTpConfig::default()
    }
}

fn machine<'a>(len: usize) -> RxMachine<'a> {
    RxMachine::new(RxBuffer::Owned(vec![0; len]))
}

const GO_AHEAD: RxOutcome = RxOutcome::SendFlowControl {
    status: FlowStatus::ClearToSend,
    block_size: 2,
    st_min: 5,
};

#[test]
fn buffers() {
    match build_buffer(4, None) {
        Ok(RxBuffer::Owned(bytes)) => assert_eq!(bytes, vec![0, 0, 0, 0]),
        _ => panic!("an owned buffer was expected"),
    }
    let mut memory = [7u8; 6];
    match build_buffer(4, Some(&mut memory)) {
        Ok(RxBuffer::Borrowed(front)) => {
            assert_eq!(front.to_vec(), vec![7, 7, 7, 7]);
            front[0] = 1;
        }
        _ => panic!("a borrowed buffer was expected"),
    }
    assert_eq!(memory, [1, 7, 7, 7, 7, 7]);
    match build_buffer(7, Some(&mut memory)) {
        Err(error) => assert_eq!(error, IsoTpError::InvalidConfig),
        Ok(_) => panic!("an error was expected"),
    }
    assert_eq!(memory, [1, 7, 7, 7, 7, 7]);
}

#[test]
fn single_frame_completes() {
    let mut rx = machine(20);
    let outcome = rx.on_pdu(&config(), Pdu::SingleFrame { len: 2, data: &[8, 9] });
    assert_eq!(outcome, Ok(RxOutcome::Completed(2)));
    assert_eq!(rx.take_completed().to_vec(), vec![8, 9]);
    assert_eq!(rx.take_completed().to_vec(), Vec::<u8>::new());
}

#[test]
fn segmented_payload_with_blocks() {
    let cfg = config();
    let mut rx = machine(20);
    assert_eq!(
        rx.on_pdu(&cfg, Pdu::FirstFrame { len: 12, data: &[1, 2] }),
        Ok(GO_AHEAD)
    );
    assert_eq!(
        rx.on_pdu(&cfg, Pdu::ConsecutiveFrame { sn: 1, data: &[3, 4, 5] }),
        Ok(RxOutcome::Pending)
    );
    assert_eq!(
        rx.on_pdu(&cfg, Pdu::ConsecutiveFrame { sn: 2, data: &[6, 7, 8] }),
        Ok(GO_AHEAD)
    );
    assert_eq!(rx.take_completed().len(), 0);
    assert_eq!(
        rx.on_pdu(&cfg, Pdu::ConsecutiveFrame { sn: 3, data: &[9, 10, 11] }),
        Ok(RxOutcome::Pending)
    );
    assert_eq!(
        rx.on_pdu(&cfg, Pdu::ConsecutiveFrame { sn: 4, data: &[12, 0xCC, 0xCC] }),
        Ok(RxOutcome::Completed(12))
    );
    assert_eq!(rx.take_completed().to_vec(), (1..=12).collect::<Vec<u8>>());
}

#[test]
fn borrowed_memory_receives() {
    let mut memory = [0u8; 5];
    {
        let mut rx = RxMachine::new(RxBuffer::Borrowed(&mut memory));
        let outcome = rx.on_pdu(&config(), Pdu::SingleFrame { len: 3, data: &[4, 5, 6] });
        assert_eq!(outcome, Ok(RxOutcome::Completed(3)));
        assert_eq!(rx.take_completed().to_vec(), vec![4, 5, 6]);
    }
    assert_eq!(memory, [4, 5, 6, 0, 0]);
}

#[test]
fn wrong_sequence_ends_reception() {
    let cfg = config();
    let mut rx = machine(20);
    rx.on_pdu(&cfg, Pdu::FirstFrame { len: 12, data: &[1, 2, 3, 4, 5, 6] }).unwrap();
    assert_eq!(
        rx.on_pdu(&cfg, Pdu::ConsecutiveFrame { sn: 2, data: &[7] }),
        Err(IsoTpError::BadSequence)
    );
    assert_eq!(
        rx.on_pdu(&cfg, Pdu::ConsecutiveFrame { sn: 1, data: &[7] }),
        Err(IsoTpError::UnexpectedPdu)
    );
    assert_eq!(rx.take_completed().len(), 0);
}

#[test]
fn misplaced_units() {
    let cfg = config();
    let mut rx = machine(20);
    assert_eq!(
        rx.on_pdu(&cfg, Pdu::ConsecutiveFrame { sn: 1, data: &[7] }),
        Err(IsoTpError::UnexpectedPdu)
    );
    let flow = Pdu::FlowControl { status: FlowStatus::Wait, block_size: 0, st_min: 0 };
    assert_eq!(rx.on_pdu(&cfg, flow), Err(IsoTpError::UnexpectedPdu));
    assert_eq!(
        rx.on_pdu(&cfg, Pdu::SingleFrame { len: 3, data: &[1] }),
        Err(IsoTpError::InvalidFrame)
    );
    assert_eq!(
        rx.on_pdu(&cfg, Pdu::FirstFrame { len: 2, data: &[1, 2] }),
        Err(IsoTpError::InvalidFrame)
    );
}

#[test]
fn overflow_by_configuration_or_buffer() {
    let cfg = config();
    assert_eq!(
        machine(100).on_pdu(&cfg, Pdu::FirstFrame { len: 21, data: &[1] }),
        Err(IsoTpError::Overflow)
    );
    assert_eq!(
        machine(10).on_pdu(&cfg, Pdu::FirstFrame { len: 11, data: &[1] }),
        Err(IsoTpError::Overflow)
    );
    assert_eq!(
        machine(1).on_pdu(&cfg, Pdu::SingleFrame { len: 2, data: &[1, 2] }),
        Err(IsoTpError::Overflow)
    );
    assert_eq!(
        machine(10).on_pdu(&cfg, Pdu::FirstFrame { len: 10, data: &[1] }),
        Ok(GO_AHEAD)
    );
}

#[test]
fn a_new_start_replaces_a_reception() {
    let cfg = config();
    let mut rx = machine(20);
    rx.on_pdu(&cfg, Pdu::FirstFrame { len: 12, data: &[1, 2, 3, 4, 5, 6] }).unwrap();
    assert_eq!(
        rx.on_pdu(&cfg, Pdu::SingleFrame { len: 1, data: &[42] }),
        Ok(RxOutcome::Completed(1))
    );
    assert_eq!(rx.take_completed().to_vec(), vec![42]);
}

#[test]
fn sequence_numbers_wrap() {
    let cfg = IsoTpConfig {
        block_size: 0,
        max_payload_len: 200,
        rx_buffer_len: 200,
        ..config()
    };
    let mut rx = machine(200);
    rx.on_pdu(&cfg, Pdu::FirstFrame { len: 126, data: &[0; 6] }).unwrap();
    for k in 1..=17u8 {
        let data = [k; 7];
        let outcome = rx.on_pdu(&cfg, Pdu::ConsecutiveFrame { sn: k % 16, data: &data });
        assert_eq!(outcome, Ok(RxOutcome::Pending));
    }
    let outcome = rx.on_pdu(&cfg, Pdu::ConsecutiveFrame { sn: 2, data: &[18] });
    assert_eq!(outcome, Ok(RxOutcome::Completed(126)));
    assert_eq!(rx.take_completed()[125], 18);
}

#[test]
fn frames_for_others_are_ignored() {
    let cfg = config();
    let mut rx = machine(20);
    let data = [0x01, 5];
    assert!(matches!(accept::<()>(&cfg, &mut rx, id(3), &data), Reception::Ignored));
    assert!(matches!(accept::<()>(&cfg, &mut rx, id(2), &[0x30, 0, 0]), Reception::Ignored));
    assert!(matches!(accept::<()>(&cfg, &mut rx, id(2), &[0x21, 0]), Reception::Ignored));
    assert!(matches!(accept::<()>(&cfg, &mut rx, id(2), &data), Reception::Complete(1)));
    assert_eq!(rx.take_completed().to_vec(), vec![5]);
}

#[test]
fn answers_to_first_frames() {
    let cfg = IsoTpConfig { padding: Some(0xEE), ..config() };
    let mut rx = machine(20);
    match accept::<()>(&cfg, &mut rx, id(2), &[0x10, 20, 1, 2, 3, 4, 5, 6]) {
        Reception::Reply(frame) => {
            assert_eq!(frame.id, id(1));
            assert_eq!(frame.data, vec![0x30, 2, 5, 0xEE, 0xEE, 0xEE, 0xEE, 0xEE]);
        }
        other => panic!("{:?}", other),
    }
    match accept::<()>(&config(), &mut rx, id(2), &[0x10, 21, 1, 2, 3, 4, 5, 6]) {
        Reception::Reject(frame) => assert_eq!(frame.data, vec![0x32, 0, 5]),
        other => panic!("{:?}", other),
    }
    assert_eq!(
        flow_control_frame(&config(), FlowStatus::Wait, 3, 4).unwrap().data,
        vec![0x31, 3, 4]
    );
}

#[test]
fn receptions_that_fail() {
    let cfg = config();
    let mut rx = machine(20);
    assert!(matches!(
        accept::<()>(&cfg, &mut rx, id(2), &[0x55]),
        Reception::Failed(IsoTpError::InvalidFrame)
    ));
    accept::<()>(&cfg, &mut rx, id(2), &[0x10, 20, 1, 2, 3, 4, 5, 6]);
    assert!(matches!(
        accept::<()>(&cfg, &mut rx, id(2), &[0x21, 1, 2, 3, 4, 5, 6, 7]),
        Reception::Stored
    ));
    assert!(matches!(
        accept::<()>(&cfg, &mut rx, id(2), &[0x24, 1, 2, 3, 4, 5, 6, 7]),
        Reception::Failed(IsoTpError::BadSequence)
    ));
}
