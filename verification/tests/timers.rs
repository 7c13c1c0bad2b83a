use iso_tp::link::LinkReply;
use iso_tp::node::{rejected, replied};
use iso_tp::timing::{
    blocking_result, check_timeout, consecutive_limit, flow_budget, pacing_delay, reception_limit,
    recv_limit, remaining, send_limit, sleep_budget, TimeLimit, TimedReply,
};
use iso_tp::{Duration, IsoTpConfig, IsoTpError, Progress, TimedOut, TimeoutKind};

fn ms(millis: u64) -> Duration {
    Duration::from_millis(millis)
}

#[test]
fn spans() {
    assert_eq!(Duration::new(2, 5).as_nanos(), 2_000_000_005);
    assert_eq!(ms(3).as_nanos(), 3_000_000);
    assert_eq!(Duration::from_micros(3).as_nanos(), 3_000);
    assert_eq!(
        Duration::new(u64::MAX, 999_999_999).as_nanos(),
        18_446_744_073_709_551_615_999_999_999
    );
    assert_eq!(ms(5).checked_sub(ms(2)), Some(ms(3)));
    assert_eq!(ms(2).checked_sub(ms(5)), None);
    assert_eq!(ms(2).min(ms(5)), ms(2));
    assert_eq!(ms(5).min(ms(2)), ms(2));
    assert!(ms(1) < ms(2));
    assert!(ms(2) >= ms(2));
    assert!(!(ms(2) > ms(2)));
}

#[test]
fn remaining_time() {
    assert_eq!(remaining(ms(10), ms(4)), Some(ms(6)));
    assert_eq!(remaining(ms(10), ms(10)), Some(ms(0)));
    assert_eq!(remaining(ms(10), ms(11)), None);
}

#[test]
fn sleeping_time() {
    assert_eq!(sleep_budget::<()>(ms(10), ms(4), TimeoutKind::NAs, ms(5)), Ok(ms(5)));
    assert_eq!(sleep_budget::<()>(ms(10), ms(4), TimeoutKind::NAs, ms(7)), Ok(ms(6)));
    assert_eq!(
        sleep_budget::<()>(ms(10), ms(11), TimeoutKind::NAs, ms(7)),
        Err(IsoTpError::Timeout(TimeoutKind::NAs))
    );
}

fn limit(wait_for: u64, expiry: TimeoutKind) -> Result<TimeLimit, IsoTpError<()>> {
    Ok(TimeLimit { wait_for: ms(wait_for), expiry })
}

fn expired(kind: TimeoutKind) -> Result<TimeLimit, IsoTpError<()>> {
    Err(IsoTpError::Timeout(kind))
}

#[test]
fn time_for_a_frame() {
    let cfg = IsoTpConfig { n_as: ms(5), n_ar: ms(7), ..IsoTpConfig::default() };
    assert_eq!(send_limit(&cfg, ms(100), ms(4)), limit(5, TimeoutKind::NAs));
    assert_eq!(send_limit(&cfg, ms(100), ms(97)), limit(3, TimeoutKind::NAs));
    assert_eq!(send_limit(&cfg, ms(100), ms(100)), limit(0, TimeoutKind::NAs));
    assert_eq!(send_limit(&cfg, ms(100), ms(101)), expired(TimeoutKind::NAs));
    assert_eq!(recv_limit(&cfg, ms(100), ms(4)), limit(7, TimeoutKind::NAr));
    assert_eq!(recv_limit(&cfg, ms(100), ms(97)), limit(3, TimeoutKind::NAr));
    assert_eq!(recv_limit(&cfg, ms(100), ms(101)), expired(TimeoutKind::NAr));
}

#[test]
fn time_for_the_next_consecutive_frame() {
    let cfg = IsoTpConfig { n_cs: ms(20), ..IsoTpConfig::default() };
    assert_eq!(consecutive_limit(&cfg, ms(4), ms(100), ms(0)), limit(16, TimeoutKind::NCs));
    assert_eq!(consecutive_limit(&cfg, ms(4), ms(100), ms(90)), limit(10, TimeoutKind::NAs));
    assert_eq!(consecutive_limit(&cfg, ms(20), ms(100), ms(0)), expired(TimeoutKind::NCs));
    assert_eq!(consecutive_limit(&cfg, ms(4), ms(100), ms(101)), expired(TimeoutKind::NAs));
}

#[test]
fn time_for_the_next_frame_of_a_reception() {
    let cfg = IsoTpConfig { n_ar: ms(30), n_br: ms(20), ..IsoTpConfig::default() };
    assert_eq!(reception_limit(&cfg, ms(4), ms(100), ms(0)), limit(16, TimeoutKind::NBr));
    assert_eq!(reception_limit(&cfg, ms(4), ms(100), ms(90)), limit(10, TimeoutKind::NAr));
    assert_eq!(reception_limit(&cfg, ms(25), ms(100), ms(0)), limit(0, TimeoutKind::NBr));
    assert_eq!(reception_limit(&cfg, ms(4), ms(100), ms(101)), expired(TimeoutKind::NAr));
    let slow = IsoTpConfig { n_ar: ms(6), ..cfg };
    assert_eq!(reception_limit(&slow, ms(4), ms(100), ms(0)), limit(6, TimeoutKind::NAr));
}

#[test]
fn blocking_calls() {
    assert_eq!(check_timeout::<()>(ms(9), ms(10), TimeoutKind::NAs), Ok(()));
    assert_eq!(
        check_timeout::<()>(ms(10), ms(10), TimeoutKind::NAs),
        Err(IsoTpError::Timeout(TimeoutKind::NAs))
    );
    assert_eq!(blocking_result::<()>(Ok(Progress::Completed)), Some(Ok(())));
    assert_eq!(blocking_result::<()>(Ok(Progress::InFlight)), None);
    assert_eq!(blocking_result::<()>(Ok(Progress::WouldBlock)), None);
    assert_eq!(blocking_result::<()>(Ok(Progress::WaitingForFlowControl)), None);
    assert_eq!(
        blocking_result::<()>(Err(IsoTpError::NotIdle)),
        Some(Err(IsoTpError::NotIdle))
    );
}

#[test]
fn pacing() {
    assert_eq!(pacing_delay(ms(10), ms(3)), Some(ms(7)));
    assert_eq!(pacing_delay(ms(10), ms(10)), None);
    assert_eq!(pacing_delay(ms(0), ms(0)), None);
}

#[test]
fn flow_control_budget() {
    let cfg = IsoTpConfig { n_bs: ms(100), ..IsoTpConfig::default() };
    let near = flow_budget::<()>(&cfg, ms(40), ms(1000), ms(0)).unwrap();
    assert_eq!(near.wait_for, ms(60));
    assert_eq!(near.expiry, TimeoutKind::NBs);
    let tight = flow_budget::<()>(&cfg, ms(40), ms(1000), ms(950)).unwrap();
    assert_eq!(tight.wait_for, ms(50));
    assert_eq!(tight.expiry, TimeoutKind::NAs);
    let tie = flow_budget::<()>(&cfg, ms(40), ms(1000), ms(940)).unwrap();
    assert_eq!(tie.wait_for, ms(60));
    assert_eq!(tie.expiry, TimeoutKind::NAs);
    assert_eq!(
        flow_budget::<()>(&cfg, ms(100), ms(1000), ms(2000)),
        Err(IsoTpError::Timeout(TimeoutKind::NBs))
    );
    assert_eq!(
        flow_budget::<()>(&cfg, ms(40), ms(1000), ms(1001)),
        Err(IsoTpError::Timeout(TimeoutKind::NAs))
    );
}

#[test]
fn link_replies() {
    assert_eq!(LinkReply::<u8>::Sent.into_result(), Ok(()));
    assert_eq!(LinkReply::<u8>::Unframeable.into_result(), Err(IsoTpError::InvalidFrame));
    assert_eq!(LinkReply::Failed(7u8).into_result(), Err(IsoTpError::LinkError(7)));
    assert_eq!(replied(LinkReply::<u8>::Sent), Ok(Progress::InFlight));
    assert_eq!(replied(LinkReply::Failed(7u8)), Err(IsoTpError::LinkError(7)));
    assert_eq!(rejected(LinkReply::<u8>::Sent), Err(IsoTpError::RxOverflow));
    assert_eq!(rejected(LinkReply::Failed(7u8)), Err(IsoTpError::RxOverflow));
}

#[test]
fn timed_replies() {
    assert_eq!(TimedReply::<u8, u8>::Done(1).into_result(TimeoutKind::NAs), Ok(1));
    assert_eq!(
        TimedReply::<u8, u8>::Failed(2).into_result(TimeoutKind::NAs),
        Err(IsoTpError::LinkError(2))
    );
    assert_eq!(
        TimedReply::<u8, u8>::Expired.into_result(TimeoutKind::NBs),
        Err(IsoTpError::Timeout(TimeoutKind::NBs))
    );
    assert_eq!(TimedOut, TimedOut);
}
