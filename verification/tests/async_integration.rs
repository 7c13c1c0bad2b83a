use iso_tp::async_node::{refused, FlowTurn, IsoTpAsyncNode, TransferStep};
use iso_tp::link::LinkReply;
use iso_tp::node::{IsoTpNode, SendStep};
use iso_tp::reception::Reception;
use iso_tp::{
    CanFrame, Duration, Id, IsoTpConfig, IsoTpError, Progress, StandardId, TimeoutKind,
};

type Node = IsoTpAsyncNode<'static, (), (), (), u64>;

fn node(cfg: IsoTpConfig) -> Node {
    match Node::with_clock((), (), cfg, (), None) {
        Ok(node) => node,
        Err(error) => panic!("{:?}", error),
    }
}

fn cfg_pair(a_to_b: u16, b_to_a: u16) -> (IsoTpConfig, IsoTpConfig) {
    (
        IsoTpConfig {
            tx_id: Id::Standard(StandardId::new(a_to_b).unwrap()),
            rx_id: Id::Standard(StandardId::new(b_to_a).unwrap()),
            ..IsoTpConfig::default()
        },
        IsoTpConfig {
            tx_id: Id::Standard(StandardId::new(b_to_a).unwrap()),
            rx_id: Id::Standard(StandardId::new(a_to_b).unwrap()),
            ..IsoTpConfig::default()
        },
    )
}

/// Carry every frame from one node to the other, and every reply back.
fn roundtrip(a: &Node, b: &mut Node, payload: &[u8], timeout: Duration) -> Vec<u8> {
    let mut transfer = a.send::<()>(payload, Duration::from_millis(0), timeout).unwrap();
    let mut reply = None;
    let mut delivered = Vec::new();
    loop {
        match a.next_step::<()>(&transfer).unwrap() {
            TransferStep::Done => return delivered,
            TransferStep::Transmit(frame) => {
                transfer.sent();
                match b.recv::<()>(frame.id, &frame.data, 0) {
                    Reception::Stored => {}
                    Reception::Reply(answer) => reply = Some(answer),
                    Reception::Complete(len) => {
                        delivered = b.take_completed().to_vec();
                        assert_eq!(delivered.len(), len);
                    }
                    other => panic!("{:?}", other),
                }
            }
            TransferStep::AwaitFlowControl => {
                let answer = reply.take().unwrap();
                let turn = a.wait_for_flow_control::<()>(&mut transfer, answer.id, &answer.data);
                assert_eq!(turn, FlowTurn::Granted);
            }
        }
    }
}

#[test]
fn async_single_frame_roundtrip() {
    let (cfg_a, cfg_b) = cfg_pair(0x123, 0x321);
    let node_a = node(cfg_a);
    let mut node_b = node(cfg_b);
    let payload = b"hello";
    let delivered = roundtrip(&node_a, &mut node_b, payload, Duration::from_millis(200));
    assert_eq!(delivered, payload);
}

#[test]
fn async_multi_frame_roundtrip() {
    let (cfg_a, cfg_b) = cfg_pair(0x700, 0x701);
    let node_a = node(cfg_a);
    let mut node_b = node(cfg_b);
    let payload: Vec<u8> = (0..100).collect();
    let delivered = roundtrip(&node_a, &mut node_b, &payload, Duration::from_millis(500));
    assert_eq!(delivered, payload);
}

#[test]
fn refused_transmissions() {
    let (cfg_a, _) = cfg_pair(1, 2);
    let node_a = node(IsoTpConfig { max_payload_len: 10, ..cfg_a });
    let zero = Duration::from_millis(0);
    let ten = Duration::from_millis(10);
    assert!(matches!(
        node_a.send::<()>(&[0; 11], zero, ten),
        Err(IsoTpError::Overflow)
    ));
    assert!(matches!(
        node_a.send::<()>(&[0; 11], ten, ten),
        Err(IsoTpError::Overflow)
    ));
    assert!(matches!(
        node_a.send::<()>(&[0; 10], ten, ten),
        Err(IsoTpError::Timeout(TimeoutKind::NAs))
    ));
    assert!(node_a.send::<()>(&[0; 10], zero, ten).is_ok());
}

#[test]
fn blocks_pauses_and_waits() {
    let (cfg_a, cfg_b) = cfg_pair(1, 2);
    let peer = cfg_b.tx_id;
    let node_a = node(IsoTpConfig { wft_max: 1, n_bs: Duration::from_millis(50), ..cfg_a });
    let zero = Duration::from_millis(0);
    let payload = [9u8; 40];
    let mut transfer = node_a.send::<()>(&payload, zero, Duration::from_millis(10)).unwrap();
    match node_a.next_step::<()>(&transfer).unwrap() {
        TransferStep::Transmit(frame) => assert_eq!(frame.data, vec![0x10, 40, 9, 9, 9, 9, 9, 9]),
        other => panic!("{:?}", other),
    }
    transfer.sent();
    assert!(matches!(
        node_a.next_step::<()>(&transfer).unwrap(),
        TransferStep::AwaitFlowControl
    ));
    let limit = node_a.flow_budget::<()>(zero, Duration::from_millis(80), zero).unwrap();
    assert_eq!(limit.wait_for, Duration::from_millis(50));
    assert_eq!(limit.expiry, TimeoutKind::NBs);
    let other = Id::Standard(StandardId::new(99).unwrap());
    assert_eq!(
        node_a.wait_for_flow_control::<()>(&mut transfer, other, &[0x30, 0, 0]),
        FlowTurn::Wait
    );
    assert_eq!(
        node_a.wait_for_flow_control::<()>(&mut transfer, peer, &[0x31, 0, 0]),
        FlowTurn::Restart
    );
    assert_eq!(
        node_a.wait_for_flow_control::<()>(&mut transfer, peer, &[0x30, 2, 10]),
        FlowTurn::Granted
    );
    assert_eq!(transfer.pause(zero), None);
    transfer.sent();
    assert_eq!(
        transfer.pause(Duration::from_millis(4)),
        Some(Duration::from_millis(6))
    );
    assert_eq!(transfer.pause(Duration::from_millis(10)), None);
    match node_a.next_step::<()>(&transfer).unwrap() {
        TransferStep::Transmit(frame) => assert_eq!(frame.data[0], 0x22),
        other => panic!("{:?}", other),
    }
    transfer.sent();
    assert!(matches!(
        node_a.next_step::<()>(&transfer).unwrap(),
        TransferStep::AwaitFlowControl
    ));
    assert_eq!(
        node_a.wait_for_flow_control::<()>(&mut transfer, peer, &[0x31, 0, 0]),
        FlowTurn::Restart
    );
    assert_eq!(
        node_a.wait_for_flow_control::<()>(&mut transfer, peer, &[0x31, 0, 0]),
        FlowTurn::Failed(IsoTpError::Timeout(TimeoutKind::NBs))
    );
}

#[test]
fn failed_flow_control() {
    let (cfg_a, cfg_b) = cfg_pair(1, 2);
    let node_a = node(cfg_a);
    let zero = Duration::from_millis(0);
    let payload = [9u8; 40];
    for (data, error) in [
        ([0x32, 0, 0], IsoTpError::Overflow),
        ([0x3F, 0, 0], IsoTpError::InvalidFrame),
    ] {
        let mut transfer = node_a.send::<()>(&payload, zero, Duration::from_millis(10)).unwrap();
        transfer.sent();
        assert_eq!(
            node_a.wait_for_flow_control::<()>(&mut transfer, cfg_b.tx_id, &data),
            FlowTurn::Failed(error)
        );
    }
}

#[test]
fn async_payloads_of_all_sizes_arrive() {
    for len in [0usize, 7, 8, 13, 14, 100, 4095] {
        let payload: Vec<u8> = (0..len).map(|i| (i % 253) as u8).collect();
        for block_size in [0, 3] {
            let (cfg_a, cfg_b) = cfg_pair(0x10, 0x11);
            let node_a = node(cfg_a);
            let mut node_b = node(IsoTpConfig { block_size, ..cfg_b });
            let delivered = roundtrip(&node_a, &mut node_b, &payload, Duration::from_millis(1));
            assert_eq!(delivered, payload);
        }
    }
}

#[test]
fn async_overflow_and_construction() {
    let (_, cfg_b) = cfg_pair(1, 2);
    let sender = cfg_b.rx_id;
    let mut node_b = node(IsoTpConfig { max_payload_len: 19, ..cfg_b });
    match node_b.recv::<()>(sender, &[0x10, 20, 0, 0, 0, 0, 0, 0], 0) {
        Reception::Reject(frame) => assert_eq!(frame.data, vec![0x32, 0, 0]),
        other => panic!("{:?}", other),
    }
    assert!(matches!(
        Node::with_clock((), (), IsoTpConfig::default(), (), None),
        Err(IsoTpError::InvalidConfig)
    ));
}

/// All that a polling sender puts on the link, and how it ends, with the given frames to take.
fn polling_run(
    cfg: &IsoTpConfig,
    payload: &[u8],
    inbox: &[(Id, Vec<u8>)],
) -> (Vec<CanFrame>, Option<IsoTpError<()>>) {
    let mut sent = Vec::new();
    let mut offers = inbox.iter();
    let mut node = match IsoTpNode::<(), (), (), u64>::with_clock((), (), cfg.clone(), (), None) {
        Ok(node) => node,
        Err(error) => panic!("{:?}", error),
    };
    let zero = Duration::from_millis(0);
    loop {
        let mut step = node.poll_send::<()>(payload, 0, zero, zero);
        let polled = loop {
            step = match step {
                SendStep::Finished(result) => break result,
                SendStep::Transmit { frame, after } => {
                    sent.push(frame);
                    break node.transmitted(after, LinkReply::Sent);
                }
                SendStep::Receive(wait) => {
                    let (id, data) = offers.next().unwrap();
                    node.flow_frame_arrived(wait, *id, data)
                }
            };
        };
        match polled {
            Ok(Progress::Completed) => return (sent, None),
            Ok(_) => {}
            Err(error) => return (sent, Some(error)),
        }
    }
}

/// The same for an asynchronous sender.
fn async_run(
    cfg: &IsoTpConfig,
    payload: &[u8],
    inbox: &[(Id, Vec<u8>)],
) -> (Vec<CanFrame>, Option<IsoTpError<()>>) {
    let mut sent = Vec::new();
    let mut offers = inbox.iter();
    let node = node(cfg.clone());
    let zero = Duration::from_millis(0);
    let mut transfer = node.send::<()>(payload, zero, Duration::from_millis(1)).unwrap();
    loop {
        match node.next_step::<()>(&transfer).unwrap() {
            TransferStep::Done => return (sent, None),
            TransferStep::Transmit(frame) => {
                sent.push(frame);
                transfer.sent();
            }
            TransferStep::AwaitFlowControl => {
                let (id, data) = offers.next().unwrap();
                match node.wait_for_flow_control::<()>(&mut transfer, *id, data) {
                    FlowTurn::Failed(error) => return (sent, Some(error)),
                    _ => {}
                }
            }
        }
    }
}

#[test]
fn both_senders_put_the_same_frames_on_the_link() {
    let payload: Vec<u8> = (0..40).collect();
    let (cfg_a, cfg_b) = cfg_pair(0x20, 0x21);
    let cfg = IsoTpConfig { wft_max: 1, ..cfg_a };
    let peer = cfg_b.tx_id;
    let other = Id::Standard(StandardId::new(0x22).unwrap());
    let own: Vec<(Id, Vec<u8>)> = vec![
        (peer, vec![0x31, 0, 0]),
        (peer, vec![0x30, 2, 0]),
        (peer, vec![0x31, 0, 0]),
        (peer, vec![0x30, 5, 0]),
    ];
    let mut mixed = own.clone();
    mixed.insert(3, (other, vec![0x32, 0, 0]));
    mixed.insert(1, (peer, vec![0x01, 7]));
    mixed.insert(0, (other, vec![0x30, 1, 0]));
    let polled = polling_run(&cfg, &payload, &own);
    assert_eq!(polled.0.len(), 1 + 5);
    assert_eq!(polled.1, None);
    assert_eq!(async_run(&cfg, &payload, &own), polled);
    assert_eq!(polling_run(&cfg, &payload, &mixed), polled);
    assert_eq!(async_run(&cfg, &payload, &mixed), polled);
    let refused: Vec<(Id, Vec<u8>)> = vec![(peer, vec![0x30, 2, 0]), (peer, vec![0x32, 0, 0])];
    let failed = polling_run(&cfg, &payload, &refused);
    assert_eq!(failed.0[..], polled.0[..3]);
    assert_eq!(failed.1, Some(IsoTpError::Overflow));
    assert_eq!(async_run(&cfg, &payload, &refused), failed);
}

#[test]
fn waits_are_limited_up_to_the_largest_limit() {
    let (cfg_a, cfg_b) = cfg_pair(1, 2);
    let node_a = node(IsoTpConfig { wft_max: 255, ..cfg_a });
    let zero = Duration::from_millis(0);
    let payload = [9u8; 40];
    let mut transfer = node_a.send::<()>(&payload, zero, Duration::from_millis(10)).unwrap();
    transfer.sent();
    for _ in 0..255 {
        let turn = node_a.wait_for_flow_control::<()>(&mut transfer, cfg_b.tx_id, &[0x31, 0, 0]);
        assert_eq!(turn, FlowTurn::Restart);
    }
    assert_eq!(
        node_a.wait_for_flow_control::<()>(&mut transfer, cfg_b.tx_id, &[0x31, 0, 0]),
        FlowTurn::Failed(IsoTpError::Timeout(TimeoutKind::NBs))
    );
}

#[test]
fn frames_are_limited_in_time() {
    let ms = Duration::from_millis;
    let (cfg_a, cfg_b) = cfg_pair(1, 2);
    let node_a = node(IsoTpConfig { n_as: ms(30), n_cs: ms(20), ..cfg_a });
    let payload = [9u8; 40];
    let mut transfer = node_a.send::<()>(&payload, ms(0), ms(100)).unwrap();
    let limit = node_a.frame_limit::<()>(&transfer, ms(50), ms(100), ms(0)).unwrap();
    assert_eq!((limit.wait_for, limit.expiry), (ms(30), TimeoutKind::NAs));
    let limit = node_a.send_limit::<()>(ms(100), ms(80)).unwrap();
    assert_eq!((limit.wait_for, limit.expiry), (ms(20), TimeoutKind::NAs));
    transfer.sent();
    node_a.wait_for_flow_control::<()>(&mut transfer, cfg_b.tx_id, &[0x30, 0, 0]);
    let limit = node_a.frame_limit::<()>(&transfer, ms(50), ms(100), ms(0)).unwrap();
    assert_eq!((limit.wait_for, limit.expiry), (ms(30), TimeoutKind::NAs));
    transfer.sent();
    let limit = node_a.frame_limit::<()>(&transfer, ms(5), ms(100), ms(0)).unwrap();
    assert_eq!((limit.wait_for, limit.expiry), (ms(15), TimeoutKind::NCs));
    let limit = node_a.frame_limit::<()>(&transfer, ms(5), ms(100), ms(90)).unwrap();
    assert_eq!((limit.wait_for, limit.expiry), (ms(10), TimeoutKind::NAs));
    assert_eq!(
        node_a.frame_limit::<()>(&transfer, ms(20), ms(100), ms(0)),
        Err(IsoTpError::Timeout(TimeoutKind::NCs))
    );
    assert_eq!(
        node_a.frame_limit::<()>(&transfer, ms(5), ms(100), ms(101)),
        Err(IsoTpError::Timeout(TimeoutKind::NAs))
    );
}

#[test]
fn receptions_are_limited_in_time() {
    let ms = Duration::from_millis;
    let (_, cfg_b) = cfg_pair(1, 2);
    let sender = cfg_b.rx_id;
    let mut node_b = node(IsoTpConfig { n_ar: ms(40), n_br: ms(20), ..cfg_b });
    let limit = node_b.recv_limit::<()>(ms(0), ms(100), ms(0)).unwrap();
    assert_eq!((limit.wait_for, limit.expiry), (ms(40), TimeoutKind::NAr));
    let first = [0x10, 20, 0, 1, 2, 3, 4, 5];
    assert!(matches!(node_b.recv::<()>(sender, &first, 7), Reception::Reply(_)));
    assert_eq!(node_b.last_received(), Some(7));
    let limit = node_b.recv_limit::<()>(ms(5), ms(100), ms(90)).unwrap();
    assert_eq!((limit.wait_for, limit.expiry), (ms(10), TimeoutKind::NAr));
    assert_eq!(node_b.no_frame::<()>(limit), IsoTpError::Timeout(TimeoutKind::NAr));
    assert_eq!(node_b.last_received(), Some(7));
    let limit = node_b.recv_limit::<()>(ms(5), ms(100), ms(0)).unwrap();
    assert_eq!((limit.wait_for, limit.expiry), (ms(15), TimeoutKind::NBr));
    assert_eq!(node_b.no_frame::<()>(limit), IsoTpError::Timeout(TimeoutKind::NBr));
    assert_eq!(node_b.last_received(), None);
    let next = [0x21, 6, 7, 8, 9, 10, 11, 12];
    assert!(matches!(node_b.recv::<()>(sender, &next, 9), Reception::Ignored));
    assert_eq!(
        node_b.recv_limit::<()>(ms(0), ms(100), ms(101)),
        Err(IsoTpError::Timeout(TimeoutKind::NAr))
    );
}

#[test]
fn a_refused_payload_is_an_overflow() {
    assert_eq!(refused::<u8>(Ok(())), Err(IsoTpError::RxOverflow));
    assert_eq!(refused::<u8>(Err(IsoTpError::LinkError(4))), Err(IsoTpError::RxOverflow));
}

#[test]
fn async_memory_of_the_caller_is_used() {
    let (_, cfg_b) = cfg_pair(1, 2);
    let sender = cfg_b.rx_id;
    let cfg = IsoTpConfig { max_payload_len: 4, rx_buffer_len: 4, ..cfg_b };
    let mut memory = [1u8, 1, 1, 1, 7];
    {
        let node = IsoTpAsyncNode::<(), (), (), u64>::with_clock((), (), cfg, (), Some(&mut memory));
        let mut node = match node {
            Ok(node) => node,
            Err(error) => panic!("{:?}", error),
        };
        let effect = node.recv::<()>(sender, &[0x03, 4, 5, 6], 0);
        assert!(matches!(effect, Reception::Complete(3)));
        assert_eq!(node.take_completed().to_vec(), vec![4, 5, 6]);
    }
    assert_eq!(memory, [4, 5, 6, 1, 7]);
}
