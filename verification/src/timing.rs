//! Decisions about time.

use crate::config::IsoTpConfig;
use crate::errors::{IsoTpError, TimeoutKind};
use crate::time::{Duration, MAX_NANOS};
use crate::tx::Progress;
use vstd::prelude::*;

verus! {

/// What is left of `timeout` after `elapsed`, in nanoseconds.
pub open spec fn remaining_of(timeout: int, elapsed: int) -> Option<int> {
    if elapsed <= timeout {
        Some(timeout - elapsed)
    } else {
        None
    }
}

/// What is left of `timeout` after `elapsed`; `None` once more than all of it has passed.
pub fn remaining(timeout: Duration, elapsed: Duration) -> (r: Option<Duration>)
    ensures
        r == (if elapsed@ <= timeout@ {
            Some(Duration::of_nanos(timeout@ - elapsed@))
        } else {
            None
        }),
        r matches Some(left) ==> left@ == timeout@ - elapsed@,
        match r {
            Some(left) => remaining_of(timeout@, elapsed@) == Some(left@),
            None => remaining_of(timeout@, elapsed@) is None,
        },
{
    timeout.checked_sub(elapsed)
}

/// What is left of a call's `timeout`, or a timeout of the given kind.
fn call_left<E>(
    timeout: Duration,
    elapsed: Duration,
    kind: TimeoutKind,
) -> (r: Result<Duration, IsoTpError<E>>)
    ensures
        r == (if elapsed@ <= timeout@ {
            Ok(Duration::of_nanos(timeout@ - elapsed@))
        } else {
            Err(IsoTpError::<E>::Timeout(kind))
        }),
        r matches Ok(left) ==> left@ == timeout@ - elapsed@,
{
    match remaining(timeout, elapsed) {
        Some(left) => Ok(left),
        None => Err(IsoTpError::Timeout(kind)),
    }
}

/// The lesser of two numbers.
pub open spec fn lesser(a: int, b: int) -> int {
    if a <= b {
        a
    } else {
        b
    }
}

/// How long an operation may take, and which timer has run out when it takes longer.
#[derive(Debug, Clone, Copy, PartialEq, Eq, Structural)]
pub struct TimeLimit {
    pub wait_for: Duration,
    pub expiry: TimeoutKind,
}

/// What a [`TimeLimit`] holds; `wait_for` is in nanoseconds.
pub struct LimitView {
    pub wait_for: int,
    pub expiry: TimeoutKind,
}

impl View for TimeLimit {
    type V = LimitView;

    open spec fn view(&self) -> LimitView {
        LimitView { wait_for: self.wait_for@, expiry: self.expiry }
    }
}

/// The limit in a result, in nanoseconds.
pub open spec fn viewed<E>(limit: Result<TimeLimit, IsoTpError<E>>) -> Result<
    LimitView,
    IsoTpError<E>,
> {
    match limit {
        Ok(limit) => Ok(limit@),
        Err(error) => Err(error),
    }
}

/// How long the link may take for a frame that is to be sent, in nanoseconds.
pub open spec fn send_limit_of<E>(cfg: IsoTpConfig, timeout: int, elapsed: int) -> Result<
    LimitView,
    IsoTpError<E>,
> {
    if elapsed <= timeout {
        Ok(
            LimitView {
                wait_for: lesser(cfg.n_as@, timeout - elapsed),
                expiry: TimeoutKind::NAs,
            },
        )
    } else {
        Err(IsoTpError::Timeout(TimeoutKind::NAs))
    }
}

/// How long to wait for a frame from the link, in nanoseconds.
pub open spec fn recv_limit_of<E>(cfg: IsoTpConfig, timeout: int, elapsed: int) -> Result<
    LimitView,
    IsoTpError<E>,
> {
    if elapsed <= timeout {
        Ok(
            LimitView {
                wait_for: lesser(cfg.n_ar@, timeout - elapsed),
                expiry: TimeoutKind::NAr,
            },
        )
    } else {
        Err(IsoTpError::Timeout(TimeoutKind::NAr))
    }
}

/// How much time is left for the next consecutive frame, in nanoseconds.
pub open spec fn consecutive_limit_of<E>(
    cfg: IsoTpConfig,
    since_last: int,
    timeout: int,
    elapsed: int,
) -> Result<LimitView, IsoTpError<E>> {
    let cs_left = cfg.n_cs@ - since_last;
    let left = timeout - elapsed;
    if cs_left <= 0 {
        Err(IsoTpError::Timeout(TimeoutKind::NCs))
    } else if left < 0 {
        Err(IsoTpError::Timeout(TimeoutKind::NAs))
    } else if left <= cs_left {
        Ok(LimitView { wait_for: left, expiry: TimeoutKind::NAs })
    } else {
        Ok(LimitView { wait_for: cs_left, expiry: TimeoutKind::NCs })
    }
}

/// How long to wait for the next frame of a reception, in nanoseconds.
pub open spec fn reception_limit_of<E>(
    cfg: IsoTpConfig,
    since_last: int,
    timeout: int,
    elapsed: int,
) -> Result<LimitView, IsoTpError<E>> {
    let br_left = if since_last <= cfg.n_br@ {
        cfg.n_br@ - since_last
    } else {
        0
    };
    match recv_limit_of::<E>(cfg, timeout, elapsed) {
        Ok(limit) => if br_left <= limit.wait_for {
            Ok(LimitView { wait_for: br_left, expiry: TimeoutKind::NBr })
        } else {
            Ok(limit)
        },
        Err(error) => Err(error),
    }
}

/// How long the link may take for a frame that is to be sent: `n_as`, within what is left of the
/// call's `timeout` when the call began `elapsed` ago.
pub fn send_limit<E>(
    cfg: &IsoTpConfig,
    timeout: Duration,
    elapsed: Duration,
) -> (r: Result<TimeLimit, IsoTpError<E>>)
    ensures
        viewed(r) == send_limit_of::<E>(*cfg, timeout@, elapsed@),
        match r {
            Ok(limit) => {
                &&& elapsed@ <= timeout@
                &&& limit.wait_for@ == lesser(cfg.n_as@, timeout@ - elapsed@)
                &&& limit.expiry == TimeoutKind::NAs
            },
            Err(error) => elapsed@ > timeout@ && error == IsoTpError::<E>::Timeout(
                TimeoutKind::NAs,
            ),
        },
{
    match call_left::<E>(timeout, elapsed, TimeoutKind::NAs) {
        Err(error) => Err(error),
        Ok(left) => Ok(TimeLimit { wait_for: cfg.n_as.min(left), expiry: TimeoutKind::NAs }),
    }
}

/// How long to wait for a frame from the link: `n_ar`, within what is left of the call's `timeout`
/// when the call began `elapsed` ago.
pub fn recv_limit<E>(
    cfg: &IsoTpConfig,
    timeout: Duration,
    elapsed: Duration,
) -> (r: Result<TimeLimit, IsoTpError<E>>)
    ensures
        viewed(r) == recv_limit_of::<E>(*cfg, timeout@, elapsed@),
        match r {
            Ok(limit) => {
                &&& elapsed@ <= timeout@
                &&& limit.wait_for@ == lesser(cfg.n_ar@, timeout@ - elapsed@)
                &&& limit.expiry == TimeoutKind::NAr
            },
            Err(error) => elapsed@ > timeout@ && error == IsoTpError::<E>::Timeout(
                TimeoutKind::NAr,
            ),
        },
{
    match call_left::<E>(timeout, elapsed, TimeoutKind::NAr) {
        Err(error) => Err(error),
        Ok(left) => Ok(TimeLimit { wait_for: cfg.n_ar.min(left), expiry: TimeoutKind::NAr }),
    }
}

/// How much time is left for the next consecutive frame, when the one before went out `since_last`
/// ago and the call began `elapsed` ago: what is left of `n_cs`, within what is left of the call's
/// `timeout`; none from the moment on when `n_cs` has passed.
pub fn consecutive_limit<E>(
    cfg: &IsoTpConfig,
    since_last: Duration,
    timeout: Duration,
    elapsed: Duration,
) -> (r: Result<TimeLimit, IsoTpError<E>>)
    ensures
        viewed(r) == consecutive_limit_of::<E>(*cfg, since_last@, timeout@, elapsed@),
        match r {
            Ok(limit) => {
                let left = timeout@ - elapsed@;
                let cs_left = cfg.n_cs@ - since_last@;
                &&& cs_left > 0
                &&& left >= 0
                &&& limit.wait_for@ == lesser(cs_left, left)
                &&& limit.expiry == (if left <= cs_left {
                    TimeoutKind::NAs
                } else {
                    TimeoutKind::NCs
                })
            },
            Err(error) => {
                ||| since_last@ >= cfg.n_cs@ && error == IsoTpError::<E>::Timeout(TimeoutKind::NCs)
                ||| since_last@ < cfg.n_cs@ && elapsed@ > timeout@ && error
                    == IsoTpError::<E>::Timeout(TimeoutKind::NAs)
            },
        },
{
    if since_last >= cfg.n_cs {
        return Err(IsoTpError::Timeout(TimeoutKind::NCs));
    }
    let cs_left = match cfg.n_cs.checked_sub(since_last) {
        Some(span) => span,
        None => return Err(IsoTpError::Timeout(TimeoutKind::NCs)),
    };
    match call_left::<E>(timeout, elapsed, TimeoutKind::NAs) {
        Err(error) => Err(error),
        Ok(left) => {
            let expiry = if left <= cs_left {
                TimeoutKind::NAs
            } else {
                TimeoutKind::NCs
            };
            Ok(TimeLimit { wait_for: cs_left.min(left), expiry })
        },
    }
}

/// How long to wait for the next frame of a reception whose last frame arrived `since_last` ago: as
/// for any frame, and no longer than what is left of `n_br`. A frame that is there when `n_br` is
/// over is still taken.
pub fn reception_limit<E>(
    cfg: &IsoTpConfig,
    since_last: Duration,
    timeout: Duration,
    elapsed: Duration,
) -> (r: Result<TimeLimit, IsoTpError<E>>)
    ensures
        viewed(r) == reception_limit_of::<E>(*cfg, since_last@, timeout@, elapsed@),
        match r {
            Ok(limit) => {
                let frame_left = lesser(cfg.n_ar@, timeout@ - elapsed@);
                let br_left = if since_last@ <= cfg.n_br@ {
                    cfg.n_br@ - since_last@
                } else {
                    0
                };
                &&& elapsed@ <= timeout@
                &&& limit.wait_for@ == lesser(br_left, frame_left)
                &&& limit.expiry == (if br_left <= frame_left {
                    TimeoutKind::NBr
                } else {
                    TimeoutKind::NAr
                })
            },
            Err(error) => elapsed@ > timeout@ && error == IsoTpError::<E>::Timeout(
                TimeoutKind::NAr,
            ),
        },
{
    let br_left = match cfg.n_br.checked_sub(since_last) {
        Some(span) => span,
        None => Duration::from_millis(0),
    };
    match recv_limit::<E>(cfg, timeout, elapsed) {
        Err(error) => Err(error),
        Ok(limit) => {
            if br_left <= limit.wait_for {
                Ok(TimeLimit { wait_for: br_left, expiry: TimeoutKind::NBr })
            } else {
                Ok(limit)
            }
        },
    }
}

/// Whether a call may go on, with times in nanoseconds.
pub open spec fn timeout_check<E>(elapsed: int, timeout: int, kind: TimeoutKind) -> Result<
    (),
    IsoTpError<E>,
> {
    if elapsed >= timeout {
        Err(IsoTpError::Timeout(kind))
    } else {
        Ok(())
    }
}

/// Whether a call that began `elapsed` ago may go on: it may not from `timeout` on.
pub fn check_timeout<E>(
    elapsed: Duration,
    timeout: Duration,
    kind: TimeoutKind,
) -> (r: Result<(), IsoTpError<E>>)
    ensures
        r == (if elapsed@ >= timeout@ {
            Err(IsoTpError::<E>::Timeout(kind))
        } else {
            Ok(())
        }),
        r == timeout_check::<E>(elapsed@, timeout@, kind),
{
    if elapsed >= timeout {
        Err(IsoTpError::Timeout(kind))
    } else {
        Ok(())
    }
}

/// What a blocking call makes of a polling step.
pub open spec fn blocking_outcome<E>(polled: Result<Progress, IsoTpError<E>>) -> Option<
    Result<(), IsoTpError<E>>,
> {
    match polled {
        Ok(Progress::Completed) => Some(Ok(())),
        Ok(_) => None,
        Err(error) => Some(Err(error)),
    }
}

/// What a blocking call does after a polling step: `Some` of its result, or `None` to poll again.
pub fn blocking_result<E>(polled: Result<Progress, IsoTpError<E>>) -> (r: Option<
    Result<(), IsoTpError<E>>,
>)
    ensures
        r == (match polled {
            Ok(Progress::Completed) => Some(Ok(())),
            Ok(_) => None,
            Err(error) => Some(Err::<(), IsoTpError<E>>(error)),
        }),
        r == blocking_outcome(polled),
{
    match polled {
        Ok(Progress::Completed) => Some(Ok(())),
        Ok(Progress::WaitingForFlowControl) | Ok(Progress::InFlight) | Ok(Progress::WouldBlock) => {
            None
        },
        Err(error) => Some(Err(error)),
    }
}

/// How long a consecutive frame still has to wait, in nanoseconds.
pub open spec fn pacing_delay_of(st_min: int, elapsed: int) -> Option<int> {
    if elapsed < st_min {
        Some(st_min - elapsed)
    } else {
        None
    }
}

/// How long a consecutive frame still has to wait when the one before went out `elapsed` ago.
pub fn pacing_delay(st_min: Duration, elapsed: Duration) -> (r: Option<Duration>)
    ensures
        r == (if elapsed@ < st_min@ {
            Some(Duration::of_nanos(st_min@ - elapsed@))
        } else {
            None
        }),
        r matches Some(delay) ==> delay@ == st_min@ - elapsed@,
        match r {
            Some(delay) => pacing_delay_of(st_min@, elapsed@) == Some(delay@),
            None => pacing_delay_of(st_min@, elapsed@) is None,
        },
{
    if elapsed < st_min {
        st_min.checked_sub(elapsed)
    } else {
        None
    }
}

/// How long to sleep, in nanoseconds.
pub open spec fn sleep_budget_of<E>(
    timeout: int,
    elapsed: int,
    kind: TimeoutKind,
    delay: int,
) -> Result<int, IsoTpError<E>> {
    if elapsed <= timeout {
        Ok(lesser(delay, timeout - elapsed))
    } else {
        Err(IsoTpError::Timeout(kind))
    }
}

/// How long to sleep when a delay is due, within what is left of `timeout`.
pub fn sleep_budget<E>(
    timeout: Duration,
    elapsed: Duration,
    kind: TimeoutKind,
    delay: Duration,
) -> (r: Result<Duration, IsoTpError<E>>)
    ensures
        match r {
            Ok(span) => sleep_budget_of::<E>(timeout@, elapsed@, kind, delay@) == Ok::<
                int,
                IsoTpError<E>,
            >(span@),
            Err(error) => sleep_budget_of::<E>(timeout@, elapsed@, kind, delay@) == Err::<
                int,
                IsoTpError<E>,
            >(error),
        },
        match r {
            Ok(span) => elapsed@ <= timeout@ && span@ == (if delay@ <= timeout@ - elapsed@ {
                delay@
            } else {
                timeout@ - elapsed@
            }),
            Err(error) => elapsed@ > timeout@ && error == IsoTpError::<E>::Timeout(kind),
        },
{
    match call_left::<E>(timeout, elapsed, kind) {
        Ok(left) => Ok(delay.min(left)),
        Err(error) => Err(error),
    }
}

/// How long to wait for the next frame, when the wait for flow control began `fc_elapsed` ago and
/// the whole transmission `elapsed` ago: until the first of the two timers runs out. All times are
/// in nanoseconds.
pub open spec fn flow_budget_of<E>(
    n_bs: int,
    fc_elapsed: int,
    timeout: int,
    elapsed: int,
) -> Result<TimeLimit, IsoTpError<E>> {
    let fc_left = n_bs - fc_elapsed;
    let left = timeout - elapsed;
    if fc_left <= 0 {
        Err(IsoTpError::Timeout(TimeoutKind::NBs))
    } else if left < 0 {
        Err(IsoTpError::Timeout(TimeoutKind::NAs))
    } else if left <= fc_left {
        Ok(TimeLimit { wait_for: Duration::of_nanos(left), expiry: TimeoutKind::NAs })
    } else {
        Ok(TimeLimit { wait_for: Duration::of_nanos(fc_left), expiry: TimeoutKind::NBs })
    }
}

/// How long to wait for the next frame, when the wait for flow control began `fc_elapsed` ago and
/// the whole transmission `elapsed` ago.
pub fn flow_budget<E>(
    cfg: &IsoTpConfig,
    fc_elapsed: Duration,
    timeout: Duration,
    elapsed: Duration,
) -> (r: Result<TimeLimit, IsoTpError<E>>)
    ensures
        r == flow_budget_of::<E>(cfg.n_bs@, fc_elapsed@, timeout@, elapsed@),
{
    if fc_elapsed >= cfg.n_bs {
        return Err(IsoTpError::Timeout(TimeoutKind::NBs));
    }
    let fc_left = match cfg.n_bs.checked_sub(fc_elapsed) {
        Some(span) => span,
        None => return Err(IsoTpError::Timeout(TimeoutKind::NBs)),
    };
    match call_left::<E>(timeout, elapsed, TimeoutKind::NAs) {
        Err(error) => Err(error),
        Ok(left) => {
            let expiry = if left <= fc_left {
                TimeoutKind::NAs
            } else {
                TimeoutKind::NBs
            };
            Ok(TimeLimit { wait_for: fc_left.min(left), expiry })
        },
    }
}

/// How an operation with a time limit ended.
#[derive(Debug, Clone, Copy, PartialEq, Eq)]
pub enum TimedReply<V, E> {
    /// It was done in time.
    Done(V),
    /// The link failed in time.
    Failed(E),
    /// The time ran out.
    Expired,
}

impl<V, E> TimedReply<V, E> {
    /// The operation as a result.
    pub open spec fn result(self, kind: TimeoutKind) -> Result<V, IsoTpError<E>> {
        match self {
            TimedReply::Done(value) => Ok(value),
            TimedReply::Failed(error) => Err(IsoTpError::LinkError(error)),
            TimedReply::Expired => Err(IsoTpError::Timeout(kind)),
        }
    }

    /// The operation as a result, where `kind` is the timer that limited it.
    pub fn into_result(self, kind: TimeoutKind) -> (r: Result<V, IsoTpError<E>>)
        ensures
            r == (match self {
                TimedReply::Done(value) => Ok(value),
                TimedReply::Failed(error) => Err(IsoTpError::LinkError(error)),
                TimedReply::Expired => Err(IsoTpError::Timeout(kind)),
            }),
            r == self.result(kind),
    {
        match self {
            TimedReply::Done(value) => Ok(value),
            TimedReply::Failed(error) => Err(IsoTpError::LinkError(error)),
            TimedReply::Expired => Err(IsoTpError::Timeout(kind)),
        }
    }
}

/// A frame may take no longer than `n_as` when it is sent, and no longer than `n_ar` when it is waited
/// for; neither takes longer than the call has left, and one of the two bounds is always reached.
/// There is a limit exactly as long as the call's time is not over, and the timer that runs out is
/// that of the direction.
pub proof fn law_frame_limits<E>(cfg: IsoTpConfig, timeout: int, elapsed: int)
    ensures
        match send_limit_of::<E>(cfg, timeout, elapsed) {
            Ok(limit) => {
                &&& elapsed <= timeout
                &&& limit.wait_for <= cfg.n_as@ && elapsed + limit.wait_for <= timeout
                &&& limit.wait_for == cfg.n_as@ || elapsed + limit.wait_for == timeout
                &&& limit.expiry is NAs
            },
            Err(error) => elapsed > timeout && error == IsoTpError::<E>::Timeout(TimeoutKind::NAs),
        },
        match recv_limit_of::<E>(cfg, timeout, elapsed) {
            Ok(limit) => {
                &&& elapsed <= timeout
                &&& limit.wait_for <= cfg.n_ar@ && elapsed + limit.wait_for <= timeout
                &&& limit.wait_for == cfg.n_ar@ || elapsed + limit.wait_for == timeout
                &&& limit.expiry is NAr
            },
            Err(error) => elapsed > timeout && error == IsoTpError::<E>::Timeout(TimeoutKind::NAr),
        },
{
}

/// The next consecutive frame has to be out within `n_cs` of the one before and before the call's time
/// is over, and one of the two bounds is reached: there is time exactly while neither has passed, and
/// the timer that runs out is the one that is reached first, the call's own where both are.
pub proof fn law_consecutive_limit<E>(
    cfg: IsoTpConfig,
    since_last: int,
    timeout: int,
    elapsed: int,
)
    ensures
        match consecutive_limit_of::<E>(cfg, since_last, timeout, elapsed) {
            Ok(limit) => {
                &&& since_last < cfg.n_cs@ && elapsed <= timeout
                &&& since_last + limit.wait_for <= cfg.n_cs@ && elapsed + limit.wait_for <= timeout
                &&& limit.expiry is NAs <==> elapsed + limit.wait_for == timeout
                &&& limit.expiry is NCs ==> since_last + limit.wait_for == cfg.n_cs@
                &&& limit.expiry is NAs || limit.expiry is NCs
            },
            Err(error) => if since_last >= cfg.n_cs@ {
                error == IsoTpError::<E>::Timeout(TimeoutKind::NCs)
            } else {
                elapsed > timeout && error == IsoTpError::<E>::Timeout(TimeoutKind::NAs)
            },
        },
{
}

/// The next frame of a reception is waited for no longer than any frame and not beyond `n_br` after the
/// last one; a wait for it that begins later than that ends at once.
pub proof fn law_reception_limit<E>(
    cfg: IsoTpConfig,
    since_last: int,
    timeout: int,
    elapsed: int,
)
    requires
        since_last >= 0,
    ensures
        match reception_limit_of::<E>(cfg, since_last, timeout, elapsed) {
            Ok(limit) => {
                &&& elapsed <= timeout
                &&& limit.wait_for <= cfg.n_ar@ && elapsed + limit.wait_for <= timeout
                &&& since_last <= cfg.n_br@ ==> since_last + limit.wait_for <= cfg.n_br@
                &&& since_last > cfg.n_br@ ==> limit.wait_for <= 0
                &&& match limit.expiry {
                    TimeoutKind::NBr => since_last + limit.wait_for == cfg.n_br@ || (since_last
                        > cfg.n_br@ && limit.wait_for == 0),
                    TimeoutKind::NAr => limit.wait_for == cfg.n_ar@ || elapsed + limit.wait_for
                        == timeout,
                    _ => false,
                }
                &&& since_last <= cfg.n_br@ ==> (limit.expiry is NBr <==> since_last
                    + limit.wait_for == cfg.n_br@)
            },
            Err(error) => elapsed > timeout && error == IsoTpError::<E>::Timeout(TimeoutKind::NAr),
        },
{
}

/// A wait for flow control has time exactly while less than `n_bs` has passed since it began, however
/// long ago the call began, and the call's time is not over: namely the lesser of what is left of the
/// two. The timer that runs out is the one that is reached first, the call's own where both are.
pub proof fn law_flow_budget<E>(n_bs: int, fc_elapsed: int, timeout: int, elapsed: int)
    requires
        0 <= fc_elapsed,
        n_bs <= MAX_NANOS,
        0 <= elapsed,
        timeout <= MAX_NANOS,
    ensures
        fc_elapsed < n_bs && elapsed <= timeout <==> flow_budget_of::<E>(
            n_bs,
            fc_elapsed,
            timeout,
            elapsed,
        ) is Ok,
        match flow_budget_of::<E>(n_bs, fc_elapsed, timeout, elapsed) {
            Ok(limit) => {
                &&& fc_elapsed + limit.wait_for@ <= n_bs && elapsed + limit.wait_for@ <= timeout
                &&& limit.expiry is NAs ==> elapsed + limit.wait_for@ == timeout
                &&& limit.expiry is NBs ==> fc_elapsed + limit.wait_for@ == n_bs && elapsed
                    + limit.wait_for@ < timeout
                &&& limit.expiry is NAs || limit.expiry is NBs
            },
            Err(error) => error == IsoTpError::<E>::Timeout(
                if fc_elapsed >= n_bs {
                    TimeoutKind::NBs
                } else {
                    TimeoutKind::NAs
                },
            ),
        },
{
    broadcast use Duration::lemma_view_of_nanos;

}

/// Two waits for flow control that have lasted equally long in calls that have equally much time left
/// may go on equally long, whenever the calls began.
pub proof fn law_flow_budget_starts_anew<E>(
    n_bs: int,
    fc_elapsed: int,
    timeout: int,
    elapsed: int,
    earlier: int,
)
    ensures
        flow_budget_of::<E>(n_bs, fc_elapsed, timeout, elapsed) == flow_budget_of::<E>(
            n_bs,
            fc_elapsed,
            timeout + earlier,
            elapsed + earlier,
        ),
{
}

/// A blocking call goes on polling exactly while its time is not over and the polling steps neither
/// complete nor fail: it fails from `timeout` on with the timer of its direction, and otherwise ends
/// with what the step ended with.
pub proof fn law_blocking_call<E>(
    elapsed: int,
    timeout: int,
    kind: TimeoutKind,
    polled: Result<Progress, IsoTpError<E>>,
)
    ensures
        timeout_check::<E>(elapsed, timeout, kind) is Ok <==> elapsed < timeout,
        timeout_check::<E>(elapsed, timeout, kind) matches Err(error) ==> error == IsoTpError::<
            E,
        >::Timeout(kind),
        blocking_outcome(polled) is None <==> (polled matches Ok(progress) && progress
            != Progress::Completed),
        blocking_outcome(polled) matches Some(Ok(())) ==> polled == Ok::<Progress, IsoTpError<E>>(
            Progress::Completed,
        ),
        forall|error: IsoTpError<E>|
            polled == Err::<Progress, IsoTpError<E>>(error) ==> #[trigger] blocking_outcome(polled)
                == Some(Err::<(), IsoTpError<E>>(error)),
{
}

/// What is left of a span, what is left of the separation time and how long to sleep are such that the
/// times add up: all that is left of a timeout; the wait until the separation time is over, and none
/// once it is; and that wait again, unless the call's time is over first.
pub proof fn law_spans_add_up<E>(
    timeout: int,
    elapsed: int,
    kind: TimeoutKind,
    st_min: int,
    since: int,
    delay: int,
)
    ensures
        match remaining_of(timeout, elapsed) {
            Some(left) => left >= 0 && elapsed + left == timeout,
            None => elapsed > timeout,
        },
        match pacing_delay_of(st_min, since) {
            Some(wait) => wait > 0 && since + wait == st_min,
            None => since >= st_min,
        },
        match sleep_budget_of::<E>(timeout, elapsed, kind, delay) {
            Ok(span) => {
                &&& elapsed <= timeout
                &&& span <= delay && elapsed + span <= timeout
                &&& span == delay || elapsed + span == timeout
            },
            Err(error) => elapsed > timeout && error == IsoTpError::<E>::Timeout(kind),
        },
{
}

/// An operation with a time limit gives its value if it was done in time, passes on the link's error
/// if the link failed, and is a timeout of the given timer otherwise.
pub proof fn law_timed_reply<V, E>(value: V, error: E, kind: TimeoutKind)
    ensures
        TimedReply::<V, E>::Done(value).result(kind) == Ok::<V, IsoTpError<E>>(value),
        TimedReply::<V, E>::Failed(error).result(kind) == Err::<V, IsoTpError<E>>(
            IsoTpError::LinkError(error),
        ),
        TimedReply::<V, E>::Expired.result(kind) == Err::<V, IsoTpError<E>>(
            IsoTpError::Timeout(kind),
        ),
{
}

} // verus!
