use iso_tp::link::LinkReply;
use iso_tp::node::{IsoTpNode, RecvStep, SendStep};
use iso_tp::{CanFrame, Duration, Id, IsoTpConfig, IsoTpError, Progress, StandardId, TimeoutKind};

type Node<'a> = IsoTpNode<'a, (), (), (), u64>;
type Polled = Result<Progress, IsoTpError<u8>>;

const NBS: Polled = Err(IsoTpError::Timeout(TimeoutKind::NBs));

fn id(raw: u16) -> Id {
    Id::Standard(StandardId::new(raw).unwrap())
}

fn ms(millis: u64) -> Duration {
    Duration::from_millis(millis)
}

fn sender() -> IsoTpConfig {
    IsoTpConfig { tx_id: id(1), rx_id: id(2), ..IsoTpConfig::default() }
}

fn receiver() -> IsoTpConfig {
    IsoTpConfig { tx_id: id(2), rx_id: id(1), ..IsoTpConfig::default() }
}

fn node<'a>(cfg: IsoTpConfig) -> Node<'a> {
    match Node::with_clock((), (), cfg, (), None) {
        Ok(node) => node,
        Err(error) => panic!("{:?}", error),
    }
}

/// Poll with a link that takes every frame and has the given frames to offer.
fn poll(
    node: &mut Node<'_>,
    payload: &[u8],
    now: u64,
    waited: Duration,
    since_frame: Duration,
    inbox: &mut Vec<(Id, Vec<u8>)>,
    outbox: &mut Vec<CanFrame>,
) -> Polled {
    let mut step = node.poll_send::<u8>(payload, now, waited, since_frame);
    loop {
        step = match step {
            SendStep::Finished(result) => return result,
            SendStep::Transmit { frame, after } => {
                outbox.push(frame);
                return node.transmitted(after, LinkReply::Sent);
            }
            SendStep::Receive(wait) => {
                if inbox.is_empty() {
                    return node.no_flow_frame(wait);
                }
                let (id, data) = inbox.remove(0);
                node.flow_frame_arrived(wait, id, &data)
            }
        };
    }
}

/// Poll with a link that has nothing to offer, either at once or when the deadline has come.
fn quiet_poll(node: &mut Node<'_>, payload: &[u8], due: bool) -> Polled {
    let waited = match node.deadline() {
        Some(deadline) if due => deadline.wait,
        _ => ms(0),
    };
    poll(node, payload, 0, waited, ms(0), &mut Vec::new(), &mut Vec::new())
}

fn answer(node: &mut Node<'_>, payload: &[u8], data: &[u8]) -> (Polled, Vec<CanFrame>) {
    let mut out = Vec::new();
    let polled = poll(node, payload, 0, ms(0), ms(0), &mut vec![(id(2), data.to_vec())], &mut out);
    (polled, out)
}

fn exchange(a: IsoTpConfig, b: IsoTpConfig, payload: &[u8]) -> Option<Vec<u8>> {
    let mut a = node(a);
    let mut b = node(b);
    let mut inbox: Vec<(Id, Vec<u8>)> = Vec::new();
    let mut delivered = None;
    for _ in 0..2000 {
        let mut out = Vec::new();
        let polled = poll(&mut a, payload, 0, ms(0), ms(0), &mut inbox, &mut out);
        for frame in out {
            match b.poll_recv::<u8>(Some((frame.id, &frame.data)), 0, ms(0)) {
                RecvStep::Reply(reply) => inbox.push((reply.id, reply.data)),
                RecvStep::Deliver => delivered = Some(b.take_completed().to_vec()),
                RecvStep::Finished(Ok(Progress::InFlight)) => {}
                other => panic!("{:?}", other),
            }
        }
        match polled {
            Ok(Progress::Completed) => return delivered,
            Ok(_) => {}
            Err(_) => return None,
        }
    }
    None
}

#[test]
fn construction() {
    let bad = IsoTpConfig::default();
    assert!(matches!(
        Node::with_clock((), (), bad, (), None),
        Err(IsoTpError::InvalidConfig)
    ));
    let mut small = [0u8; 10];
    assert!(matches!(
        Node::with_clock((), (), sender(), (), Some(&mut small)),
        Err(IsoTpError::InvalidConfig)
    ));
    let mut memory = [0, 0, 0, 0, 0, 0, 0, 0, 0, 0, 7, 7];
    let cfg = IsoTpConfig { max_payload_len: 10, rx_buffer_len: 10, ..receiver() };
    {
        let mut node = match Node::with_clock((), (), cfg, (), Some(&mut memory)) {
            Ok(node) => node,
            Err(error) => panic!("{:?}", error),
        };
        assert!(matches!(
            node.poll_recv::<u8>(Some((id(1), &[0x02, 8, 9])), 0, ms(0)),
            RecvStep::Deliver
        ));
        assert_eq!(node.take_completed().to_vec(), vec![8, 9]);
    }
    assert_eq!(memory, [8, 9, 0, 0, 0, 0, 0, 0, 0, 0, 7, 7]);
}

#[test]
fn single_frame_is_sent_at_once() {
    let mut out = Vec::new();
    let mut a = node(IsoTpConfig { padding: Some(0xAA), ..sender() });
    let polled = poll(&mut a, &[1, 2], 0, ms(0), ms(0), &mut Vec::new(), &mut out);
    assert_eq!(polled, Ok(Progress::Completed));
    assert_eq!(out.len(), 1);
    assert_eq!(out[0].id, id(1));
    assert_eq!(out[0].data, vec![0x02, 1, 2, 0xAA, 0xAA, 0xAA, 0xAA, 0xAA]);
    assert!(a.deadline().is_none());
}

#[test]
fn first_frame_waits_for_flow_control() {
    let payload: Vec<u8> = (0..20).collect();
    let mut a = node(sender());
    let mut out = Vec::new();
    let polled = poll(&mut a, &payload, 77, ms(0), ms(0), &mut Vec::new(), &mut out);
    assert_eq!(polled, Ok(Progress::WaitingForFlowControl));
    assert_eq!(out[0].data, vec![0x10, 20, 0, 1, 2, 3, 4, 5]);
    let deadline = a.deadline().unwrap();
    assert_eq!(deadline.from, 77);
    assert_eq!(deadline.wait, Duration::from_millis(1000));
    assert_eq!(quiet_poll(&mut a, &payload, false), Ok(Progress::WaitingForFlowControl));
    assert_eq!(a.deadline().unwrap().from, 77);
    let (polled, out) = answer(&mut a, &payload, &[0x30, 0, 0]);
    assert_eq!(polled, Ok(Progress::InFlight));
    assert_eq!(out[0].data, vec![0x21, 6, 7, 8, 9, 10, 11, 12]);
    assert!(a.deadline().is_none());
    let mut out = Vec::new();
    let polled = poll(&mut a, &payload, 0, ms(0), ms(0), &mut Vec::new(), &mut out);
    assert_eq!(polled, Ok(Progress::Completed));
    assert_eq!(out[0].data, vec![0x22, 13, 14, 15, 16, 17, 18, 19]);
}

#[test]
fn separation_time_is_kept() {
    let payload = [0u8; 30];
    let mut a = node(sender());
    quiet_poll(&mut a, &payload, false).unwrap();
    let (polled, _) = answer(&mut a, &payload, &[0x30, 0, 0xF5]);
    assert_eq!(polled, Ok(Progress::InFlight));
    assert_eq!(a.deadline().unwrap().wait, Duration::from_micros(500));
    assert_eq!(quiet_poll(&mut a, &payload, false), Ok(Progress::WouldBlock));
    assert_eq!(a.deadline().unwrap().wait, Duration::from_micros(500));
    assert_eq!(quiet_poll(&mut a, &payload, true), Ok(Progress::InFlight));
}

#[test]
fn blocks_end_with_a_wait() {
    let payload = [0u8; 60];
    let mut a = node(sender());
    quiet_poll(&mut a, &payload, false).unwrap();
    let (polled, _) = answer(&mut a, &payload, &[0x30, 3, 0]);
    assert_eq!(polled, Ok(Progress::InFlight));
    assert_eq!(quiet_poll(&mut a, &payload, false), Ok(Progress::InFlight));
    assert_eq!(quiet_poll(&mut a, &payload, false), Ok(Progress::WaitingForFlowControl));
    assert_eq!(quiet_poll(&mut a, &payload, false), Ok(Progress::WaitingForFlowControl));
    let (polled, out) = answer(&mut a, &payload, &[0x30, 1, 0]);
    assert_eq!(polled, Ok(Progress::WaitingForFlowControl));
    assert_eq!(out[0].data[0], 0x24);
}

#[test]
fn reserved_separation_time_and_zero_block_fall_back() {
    let payload = [0u8; 60];
    let mut a = node(IsoTpConfig {
        st_min: Duration::from_millis(9),
        block_size: 2,
        ..sender()
    });
    quiet_poll(&mut a, &payload, false).unwrap();
    let (polled, _) = answer(&mut a, &payload, &[0x30, 0, 0x80]);
    assert_eq!(polled, Ok(Progress::InFlight));
    assert_eq!(a.deadline().unwrap().wait, Duration::from_millis(9));
    assert_eq!(quiet_poll(&mut a, &payload, true), Ok(Progress::WaitingForFlowControl));
}

#[test]
fn flow_control_timeout() {
    let payload = [0u8; 20];
    let mut a = node(sender());
    quiet_poll(&mut a, &payload, false).unwrap();
    assert_eq!(quiet_poll(&mut a, &payload, true), NBS);
    assert!(a.deadline().is_none());
    assert_eq!(quiet_poll(&mut a, &[1], false), Ok(Progress::Completed));
}

#[test]
fn wait_requests_are_counted() {
    let payload = [0u8; 20];
    let wait = [0x31, 0, 0];
    let mut a = node(IsoTpConfig { wft_max: 2, ..sender() });
    quiet_poll(&mut a, &payload, false).unwrap();
    assert_eq!(answer(&mut a, &payload, &wait).0, Ok(Progress::WaitingForFlowControl));
    assert_eq!(answer(&mut a, &payload, &wait).0, Ok(Progress::WaitingForFlowControl));
    assert_eq!(answer(&mut a, &payload, &wait).0, NBS);
    assert!(a.deadline().is_some());
    assert_eq!(quiet_poll(&mut a, &payload, false), NBS);
    assert!(a.deadline().is_none());
}

#[test]
fn the_largest_wait_limit_is_a_limit() {
    let payload = [0u8; 20];
    let mut a = node(IsoTpConfig { wft_max: 255, ..sender() });
    quiet_poll(&mut a, &payload, false).unwrap();
    for _ in 0..255 {
        let (polled, _) = answer(&mut a, &payload, &[0x31, 0, 0]);
        assert_eq!(polled, Ok(Progress::WaitingForFlowControl));
    }
    assert_eq!(answer(&mut a, &payload, &[0x31, 0, 0]).0, NBS);
    assert_eq!(quiet_poll(&mut a, &payload, false), NBS);
    assert!(a.deadline().is_none());
}

/// A sender that sent a consecutive frame at 100, with blocks of one frame and 5 ms between frames.
fn after_a_block<'a>(payload: &[u8]) -> Node<'a> {
    let mut a = node(IsoTpConfig { wft_max: 1, ..sender() });
    quiet_poll(&mut a, payload, false).unwrap();
    assert_eq!(a.last_sent(), None);
    let mut inbox = vec![(id(2), vec![0x30, 1, 5])];
    let mut out = Vec::new();
    let polled = poll(&mut a, payload, 100, ms(0), ms(0), &mut inbox, &mut out);
    assert_eq!(polled, Ok(Progress::WaitingForFlowControl));
    assert_eq!(out.len(), 1);
    assert_eq!(a.last_sent(), Some(100));
    a
}

#[test]
fn an_early_go_ahead_waits_for_the_separation_time() {
    let payload = [0u8; 40];
    let mut a = after_a_block(&payload);
    let mut out = Vec::new();
    let mut inbox = vec![(id(2), vec![0x31, 0, 0])];
    let polled = poll(&mut a, &payload, 101, ms(1), ms(1), &mut inbox, &mut out);
    assert_eq!(polled, Ok(Progress::WaitingForFlowControl));
    assert_eq!(a.deadline().unwrap().from, 101);
    assert_eq!(a.last_sent(), Some(100));
    let mut inbox = vec![(id(2), vec![0x30, 1, 7])];
    let polled = poll(&mut a, &payload, 106, ms(5), ms(6), &mut inbox, &mut out);
    assert_eq!(polled, Ok(Progress::WouldBlock));
    assert!(out.is_empty());
    let deadline = a.deadline().unwrap();
    assert_eq!(deadline.from, 100);
    assert_eq!(deadline.wait, ms(7));
    let mut none = Vec::new();
    let polled = poll(&mut a, &payload, 106, ms(6), ms(6), &mut none, &mut out);
    assert_eq!(polled, Ok(Progress::WouldBlock));
    assert!(out.is_empty());
    let polled = poll(&mut a, &payload, 107, ms(7), ms(7), &mut none, &mut out);
    assert_eq!(polled, Ok(Progress::WaitingForFlowControl));
    assert_eq!(out[0].data[0], 0x22);
    assert_eq!(a.last_sent(), Some(107));
}

#[test]
fn a_late_go_ahead_is_followed_at_once() {
    let payload = [0u8; 40];
    let mut a = after_a_block(&payload);
    let mut out = Vec::new();
    let mut inbox = vec![(id(2), vec![0x30, 1, 5])];
    let polled = poll(&mut a, &payload, 105, ms(5), ms(5), &mut inbox, &mut out);
    assert_eq!(polled, Ok(Progress::WaitingForFlowControl));
    assert_eq!(out[0].data[0], 0x22);
}

#[test]
fn a_stalled_block_times_out() {
    let payload = [0u8; 40];
    let cfg = IsoTpConfig { n_cs: ms(20), ..sender() };
    for st_min in [0u8, 5] {
        for stalled in [false, true] {
            let mut a = node(cfg.clone());
            quiet_poll(&mut a, &payload, false).unwrap();
            let mut inbox = vec![(id(2), vec![0x30, 0, st_min])];
            let mut out = Vec::new();
            let polled = poll(&mut a, &payload, 100, ms(0), ms(0), &mut inbox, &mut out);
            assert_eq!(polled, Ok(Progress::InFlight));
            assert_eq!(a.last_sent(), Some(100));
            let since = if stalled { ms(20) } else { ms(19) };
            let polled = poll(&mut a, &payload, 120, since, since, &mut inbox, &mut out);
            if stalled {
                assert_eq!(polled, Err(IsoTpError::Timeout(TimeoutKind::NCs)));
                assert_eq!(out.len(), 1);
                assert_eq!(a.last_sent(), None);
                assert_eq!(quiet_poll(&mut a, &[1], false), Ok(Progress::Completed));
            } else {
                assert_eq!(polled, Ok(Progress::InFlight));
                assert_eq!(out.len(), 2);
                assert_eq!(a.last_sent(), Some(120));
            }
        }
    }
}

#[test]
fn a_stalled_block_times_out_before_its_separation_time() {
    let payload = [0u8; 40];
    let mut a = node(IsoTpConfig { n_cs: ms(3), ..sender() });
    quiet_poll(&mut a, &payload, false).unwrap();
    assert_eq!(answer(&mut a, &payload, &[0x30, 0, 5]).0, Ok(Progress::InFlight));
    let mut none = Vec::new();
    let mut out = Vec::new();
    let polled = poll(&mut a, &payload, 2, ms(2), ms(2), &mut none, &mut out);
    assert_eq!(polled, Ok(Progress::WouldBlock));
    let polled = poll(&mut a, &payload, 3, ms(3), ms(3), &mut none, &mut out);
    assert_eq!(polled, Err(IsoTpError::Timeout(TimeoutKind::NCs)));
    assert!(out.is_empty());
}

#[test]
fn whole_transmission_on_the_link() {
    let payload: Vec<u8> = (0..130).collect();
    let mut a = node(sender());
    let mut out = Vec::new();
    let mut inbox = vec![(id(2), vec![0x30, 0, 0])];
    loop {
        let polled = poll(&mut a, &payload, 0, ms(0), ms(0), &mut inbox, &mut out);
        if polled.unwrap() == Progress::Completed {
            break;
        }
    }
    assert_eq!(out.len(), 1 + 18);
    assert_eq!(out[0].data, vec![0x10, 130, 0, 1, 2, 3, 4, 5]);
    let mut joined = out[0].data[2..].to_vec();
    for (k, frame) in out.iter().enumerate().skip(1) {
        assert_eq!(frame.data[0], 0x20 + (k % 16) as u8);
        assert_eq!(frame.data.len(), if k < 18 { 8 } else { 6 });
        joined.extend_from_slice(&frame.data[1..]);
    }
    assert_eq!(joined, payload);
}

#[test]
fn frames_for_others_between_the_frames_of_a_reception() {
    let mut b = node(receiver());
    let frames: Vec<(Id, Vec<u8>)> = vec![
        (id(1), vec![0x30, 0, 0]),
        (id(1), vec![0x10, 13, 0, 1, 2, 3, 4, 5]),
        (id(7), vec![0x21, 9, 9, 9, 9, 9, 9, 9]),
        (id(1), vec![0x31, 0, 0]),
        (id(1), vec![0x21, 6, 7, 8, 9, 10, 11, 12]),
    ];
    let mut delivered = Vec::new();
    for (now, (id, data)) in frames.iter().enumerate() {
        let step = b.poll_recv::<u8>(Some((*id, data)), now as u64, ms(0));
        match now {
            1 => assert!(matches!(step, RecvStep::Reply(_))),
            4 => {
                assert!(matches!(step, RecvStep::Deliver));
                delivered = b.take_completed().to_vec();
            }
            _ => assert!(matches!(step, RecvStep::Next)),
        }
        if now == 3 {
            assert_eq!(b.last_received(), Some(1));
        }
    }
    assert_eq!(delivered, (0..13).collect::<Vec<u8>>());
}

#[test]
fn a_reception_waits_for_its_next_frame() {
    let mut b = node(IsoTpConfig { n_br: ms(50), ..receiver() });
    assert!(matches!(
        b.poll_recv::<u8>(None, 9, ms(51)),
        RecvStep::Finished(Ok(Progress::WouldBlock))
    ));
    let first = [0x10, 20, 0, 1, 2, 3, 4, 5];
    assert!(matches!(b.poll_recv::<u8>(Some((id(1), &first)), 10, ms(0)), RecvStep::Reply(_)));
    assert_eq!(b.last_received(), Some(10));
    assert!(matches!(b.poll_recv::<u8>(Some((id(9), &first)), 20, ms(10)), RecvStep::Next));
    assert_eq!(b.last_received(), Some(10));
    assert!(matches!(
        b.poll_recv::<u8>(None, 60, ms(50)),
        RecvStep::Finished(Ok(Progress::WouldBlock))
    ));
    let next = [0x21, 6, 7, 8, 9, 10, 11, 12];
    assert!(matches!(
        b.poll_recv::<u8>(Some((id(1), &next)), 61, ms(51)),
        RecvStep::Finished(Ok(Progress::InFlight))
    ));
    assert_eq!(b.last_received(), Some(61));
    assert!(matches!(
        b.poll_recv::<u8>(None, 112, ms(51)),
        RecvStep::Finished(Err(IsoTpError::Timeout(TimeoutKind::NBr)))
    ));
    assert_eq!(b.last_received(), None);
    assert!(b.take_completed().is_empty());
    let last = [0x22, 13, 14, 15, 16, 17, 18, 19];
    assert!(matches!(b.poll_recv::<u8>(Some((id(1), &last)), 113, ms(0)), RecvStep::Next));
}

#[test]
fn a_go_ahead_resets_the_wait_count() {
    let payload = [0u8; 40];
    let mut a = node(IsoTpConfig { wft_max: 1, ..sender() });
    quiet_poll(&mut a, &payload, false).unwrap();
    assert_eq!(answer(&mut a, &payload, &[0x31, 0, 0]).0, Ok(Progress::WaitingForFlowControl));
    assert_eq!(answer(&mut a, &payload, &[0x30, 1, 0]).0, Ok(Progress::WaitingForFlowControl));
    assert_eq!(answer(&mut a, &payload, &[0x31, 0, 0]).0, Ok(Progress::WaitingForFlowControl));
    assert_eq!(answer(&mut a, &payload, &[0x31, 0, 0]).0, NBS);
}

#[test]
fn peer_overflow_ends_the_transmission() {
    let payload = [0u8; 20];
    let mut a = node(sender());
    quiet_poll(&mut a, &payload, false).unwrap();
    assert_eq!(answer(&mut a, &payload, &[0x32, 0, 0]).0, Err(IsoTpError::Overflow));
    assert!(a.deadline().is_none());
}

#[test]
fn malformed_flow_control_ends_the_transmission() {
    let payload = [0u8; 20];
    let mut a = node(sender());
    quiet_poll(&mut a, &payload, false).unwrap();
    assert_eq!(answer(&mut a, &payload, &[0x3F, 0, 0]).0, Err(IsoTpError::InvalidFrame));
    assert!(a.deadline().is_none());
}

#[test]
fn other_frames_are_skipped_while_waiting() {
    let payload = [0u8; 20];
    let mut a = node(sender());
    quiet_poll(&mut a, &payload, false).unwrap();
    let mut inbox = vec![
        (id(9), vec![0x32, 0, 0]),
        (id(2), vec![0x01, 5]),
        (id(2), vec![0x30, 0, 0]),
    ];
    let mut out = Vec::new();
    let polled = poll(&mut a, &payload, 0, ms(0), ms(0), &mut inbox, &mut out);
    assert_eq!(polled, Ok(Progress::InFlight));
    assert!(inbox.is_empty());
    assert_eq!(out.len(), 1);
}

#[test]
fn long_payload_is_refused_and_changes_nothing() {
    let payload = [0u8; 20];
    let mut a = node(IsoTpConfig { max_payload_len: 20, ..sender() });
    assert_eq!(quiet_poll(&mut a, &[0; 21], false), Err(IsoTpError::Overflow));
    quiet_poll(&mut a, &payload, false).unwrap();
    assert_eq!(quiet_poll(&mut a, &[0; 21], false), Err(IsoTpError::Overflow));
    assert_eq!(answer(&mut a, &payload, &[0x30, 0, 0]).0, Ok(Progress::InFlight));
}

#[test]
fn link_failure_ends_the_transmission() {
    let payload = [0u8; 20];
    let mut a = node(sender());
    match a.poll_send::<u8>(&payload, 0, ms(0), ms(0)) {
        SendStep::Transmit { after, .. } => {
            let result = a.transmitted(after, LinkReply::Failed(3));
            assert_eq!(result, Err(IsoTpError::LinkError(3)));
        }
        other => panic!("{:?}", other),
    }
    assert!(a.deadline().is_none());
    match a.poll_send::<u8>(&payload, 0, ms(0), ms(0)) {
        SendStep::Transmit { after, .. } => {
            let result = a.transmitted(after, LinkReply::<u8>::Unframeable);
            assert_eq!(result, Err(IsoTpError::InvalidFrame));
        }
        other => panic!("{:?}", other),
    }
    assert!(a.deadline().is_none());
}

#[test]
fn receiving_without_a_frame() {
    let mut b = node(receiver());
    assert!(matches!(
        b.poll_recv::<u8>(None, 0, ms(0)),
        RecvStep::Finished(Ok(Progress::WouldBlock))
    ));
    assert!(matches!(b.poll_recv::<u8>(Some((id(7), &[0x01, 1])), 0, ms(0)), RecvStep::Next));
    assert!(matches!(
        b.poll_recv::<u8>(Some((id(1), &[0x01])), 0, ms(0)),
        RecvStep::Finished(Err(IsoTpError::InvalidFrame))
    ));
}

#[test]
fn receiving_too_much() {
    let mut b = node(IsoTpConfig { max_payload_len: 19, ..receiver() });
    match b.poll_recv::<u8>(Some((id(1), &[0x10, 20, 0, 0, 0, 0, 0, 0])), 0, ms(0)) {
        RecvStep::Reject(frame) => {
            assert_eq!(frame.id, id(2));
            assert_eq!(frame.data, vec![0x32, 0, 0]);
        }
        other => panic!("{:?}", other),
    }
}

#[test]
fn payloads_of_all_sizes_arrive() {
    for len in [0, 1, 6, 7, 8, 12, 13, 14, 20, 100, 118, 125, 4094, 4095] {
        let payload: Vec<u8> = (0..len).map(|i| (i * 7 % 251) as u8).collect();
        for block_size in [0, 1, 5] {
            for padding in [None, Some(0xCC)] {
                let a = IsoTpConfig { padding, ..sender() };
                let b = IsoTpConfig { block_size, padding, ..receiver() };
                assert_eq!(exchange(a, b, &payload), Some(payload.clone()));
            }
        }
    }
}

#[test]
fn disagreeing_blocks_stall() {
    let a = IsoTpConfig { block_size: 1, ..sender() };
    assert_eq!(exchange(a.clone(), receiver(), &[5; 13]), Some(vec![5; 13]));
    assert_eq!(exchange(a, receiver(), &[5; 14]), None);
}
