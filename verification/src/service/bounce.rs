//! Stopping and starting the service, so that a changed ImagePath takes effect.
use crate::service::calls::{
    Call, Progress, Reply, ERROR_SERVICE_ALREADY_RUNNING, SERVICE_CONTROL_STOP, SERVICE_STOPPED,
};
use crate::service::manager::{is_harmless_stop, request_stop};
use vstd::prelude::*;

verus! {

/// How often the service is asked whether it has stopped.
pub const STOP_POLLS: u32 = 50;

/// How long to wait between two such questions.
pub const STOP_POLL_MILLIS: u64 = 100;

/// How often starting the service is tried.
pub const START_TRIES: u32 = 25;

/// How long to wait between two such tries.
pub const START_RETRY_MILLIS: u64 = 200;

/// Where waiting for the service to stop has got to, with the number of polls that are left
/// including this one.
#[derive(Clone, Copy, Debug, PartialEq, Eq, Structural)]
pub enum WaitStopped {
    Poll(u32),
    Pause(u32),
}

impl WaitStopped {
    /// The call that is due.
    pub open spec fn due(self) -> Call<Seq<u16>> {
        match self {
            WaitStopped::Poll(_) => Call::QueryStatus,
            WaitStopped::Pause(_) => Call::Sleep { millis: STOP_POLL_MILLIS },
        }
    }

    /// What the reply to the due call leads to: done with `true` once the service has stopped or
    /// its state cannot be read, done with `false` when the polls have run out.
    pub open spec fn next(self, reply: Reply<Seq<u16>>) -> Progress<WaitStopped, bool> {
        match self {
            WaitStopped::Poll(left) => if !reply.ok || reply.value == SERVICE_STOPPED {
                Progress::Done(true)
            } else {
                Progress::Pending(WaitStopped::Pause(left))
            },
            WaitStopped::Pause(left) => if left <= 1 {
                Progress::Done(false)
            } else {
                Progress::Pending(WaitStopped::Poll((left - 1) as u32))
            },
        }
    }

    /// The call that is due.
    pub fn call(&self) -> (r: Call<Vec<u16>>)
        ensures
            r@ == self.due(),
    {
        match self {
            WaitStopped::Poll(_) => Call::QueryStatus,
            WaitStopped::Pause(_) => Call::Sleep { millis: STOP_POLL_MILLIS },
        }
    }
}

/// Takes the waiting for the service to stop on from `at`, with the reply to the call due there.
pub fn wait_until_stopped(at: WaitStopped, reply: &Reply<Vec<u16>>) -> (r: Progress<
    WaitStopped,
    bool,
>)
    ensures
        r == at.next(reply@),
{
    match at {
        WaitStopped::Poll(left) => {
            if !reply.ok || reply.value == SERVICE_STOPPED {
                return Progress::Done(true);
            }
            Progress::Pending(WaitStopped::Pause(left))
        },
        WaitStopped::Pause(left) => {
            if left <= 1 {
                Progress::Done(false)
            } else {
                Progress::Pending(WaitStopped::Poll(left - 1))
            }
        },
    }
}

/// How starting the service ended. The last case holds the error of the last try.
#[derive(Clone, Copy, Debug, PartialEq, Eq, Structural)]
pub enum StartOutcome {
    Started,
    AlreadyRunning,
    GaveUp(i32),
}

/// Where starting the service has got to, with the number of tries that are left including this
/// one, and during a pause the error of the last try.
#[derive(Clone, Copy, Debug, PartialEq, Eq, Structural)]
pub enum StartRetry {
    Try(u32),
    Pause(u32, i32),
}

impl StartRetry {
    /// The call that is due.
    pub open spec fn due(self) -> Call<Seq<u16>> {
        match self {
            StartRetry::Try(_) => Call::StartService,
            StartRetry::Pause(_, _) => Call::Sleep { millis: START_RETRY_MILLIS },
        }
    }

    /// What the reply to the due call leads to.
    pub open spec fn next(self, reply: Reply<Seq<u16>>) -> Progress<StartRetry, StartOutcome> {
        match self {
            StartRetry::Try(left) => if reply.ok {
                Progress::Done(StartOutcome::Started)
            } else if reply.code == ERROR_SERVICE_ALREADY_RUNNING {
                Progress::Done(StartOutcome::AlreadyRunning)
            } else {
                Progress::Pending(StartRetry::Pause(left, reply.code))
            },
            StartRetry::Pause(left, code) => if left <= 1 {
                Progress::Done(StartOutcome::GaveUp(code))
            } else {
                Progress::Pending(StartRetry::Try((left - 1) as u32))
            },
        }
    }

    /// The call that is due.
    pub fn call(&self) -> (r: Call<Vec<u16>>)
        ensures
            r@ == self.due(),
    {
        match self {
            StartRetry::Try(_) => Call::StartService,
            StartRetry::Pause(_, _) => Call::Sleep { millis: START_RETRY_MILLIS },
        }
    }
}

/// Takes the starting of the service on from `at`, with the reply to the call due there.
pub fn start_with_retry(at: StartRetry, reply: &Reply<Vec<u16>>) -> (r: Progress<
    StartRetry,
    StartOutcome,
>)
    ensures
        r == at.next(reply@),
{
    match at {
        StartRetry::Try(left) => {
            if reply.ok {
                return Progress::Done(StartOutcome::Started);
            }
            if reply.code == ERROR_SERVICE_ALREADY_RUNNING {
                return Progress::Done(StartOutcome::AlreadyRunning);
            }
            Progress::Pending(StartRetry::Pause(left, reply.code))
        },
        StartRetry::Pause(left, code) => {
            if left <= 1 {
                Progress::Done(StartOutcome::GaveUp(code))
            } else {
                Progress::Pending(StartRetry::Try(left - 1))
            }
        },
    }
}

/// What there is to say while the service is bounced.
#[derive(Clone, Copy, Debug, PartialEq, Eq, Structural)]
pub enum BounceReport {
    /// The request to stop failed.
    StopFailed(i32),
    /// The service did not stop in time.
    StopTimedOut,
    /// Starting the service ended.
    Start(StartOutcome),
}

/// Where bouncing the service has got to: asking it to stop, waiting until it has, and starting
/// it again.
#[derive(Clone, Copy, Debug, PartialEq, Eq, Structural)]
pub enum Bounce {
    RequestStop,
    Wait(WaitStopped),
    Start(StartRetry),
}

impl Bounce {
    /// The call that is due.
    pub open spec fn due(self) -> Call<Seq<u16>> {
        match self {
            Bounce::RequestStop => Call::ControlService { control: SERVICE_CONTROL_STOP },
            Bounce::Wait(at) => at.due(),
            Bounce::Start(at) => at.due(),
        }
    }

    /// What the reply to the due call leads to. Neither a stop that failed nor one that never
    /// came keeps the service from being started.
    pub open spec fn next(self, reply: Reply<Seq<u16>>) -> Progress<Bounce, ()> {
        match self {
            Bounce::RequestStop => Progress::Pending(Bounce::Wait(WaitStopped::Poll(STOP_POLLS))),
            Bounce::Wait(at) => match at.next(reply) {
                Progress::Pending(at) => Progress::Pending(Bounce::Wait(at)),
                Progress::Done(_) => Progress::Pending(
                    Bounce::Start(StartRetry::Try(START_TRIES)),
                ),
            },
            Bounce::Start(at) => match at.next(reply) {
                Progress::Pending(at) => Progress::Pending(Bounce::Start(at)),
                Progress::Done(_) => Progress::Done(()),
            },
        }
    }

    /// What there is to say about the reply to the due call.
    pub open spec fn said(self, reply: Reply<Seq<u16>>) -> Option<BounceReport> {
        match self {
            Bounce::RequestStop => if reply.ok || is_harmless_stop(reply.code) {
                None
            } else {
                Some(BounceReport::StopFailed(reply.code))
            },
            Bounce::Wait(at) => if at.next(reply) == Progress::<WaitStopped, bool>::Done(false) {
                Some(BounceReport::StopTimedOut)
            } else {
                None
            },
            Bounce::Start(at) => match at.next(reply) {
                Progress::Pending(_) => None,
                Progress::Done(outcome) => Some(BounceReport::Start(outcome)),
            },
        }
    }

    /// The call that is due.
    pub fn call(&self) -> (r: Call<Vec<u16>>)
        ensures
            r@ == self.due(),
    {
        match self {
            Bounce::RequestStop => Call::ControlService { control: SERVICE_CONTROL_STOP },
            Bounce::Wait(at) => at.call(),
            Bounce::Start(at) => at.call(),
        }
    }

    /// How many replies it takes at most until the service has been bounced.
    pub open spec fn replies_left(self) -> nat {
        match self {
            Bounce::RequestStop => 1 + 2 * STOP_POLLS as nat + 2 * START_TRIES as nat,
            Bounce::Wait(WaitStopped::Poll(left)) => at_least_once(left) * 2 + 2
                * START_TRIES as nat,
            Bounce::Wait(WaitStopped::Pause(left)) => (at_least_once(left) * 2 - 1 + 2
                * START_TRIES) as nat,
            Bounce::Start(StartRetry::Try(left)) => at_least_once(left) * 2,
            Bounce::Start(StartRetry::Pause(left, _)) => (at_least_once(left) * 2 - 1) as nat,
        }
    }

    /// How long the pauses can be at most, in milliseconds, until the service has been bounced.
    pub open spec fn pauses_left(self) -> nat {
        match self {
            Bounce::RequestStop => STOP_POLLS as nat * STOP_POLL_MILLIS as nat + START_TRIES as nat
                * START_RETRY_MILLIS as nat,
            Bounce::Wait(WaitStopped::Poll(left)) | Bounce::Wait(WaitStopped::Pause(left)) => {
                at_least_once(left) * STOP_POLL_MILLIS as nat + START_TRIES as nat
                    * START_RETRY_MILLIS as nat
            },
            Bounce::Start(StartRetry::Try(left)) | Bounce::Start(StartRetry::Pause(left, _)) => {
                at_least_once(left) * START_RETRY_MILLIS as nat
            },
        }
    }
}

/// A number of rounds, of which the one under way is one.
pub open spec fn at_least_once(left: u32) -> nat {
    if left == 0 {
        1
    } else {
        left as nat
    }
}

/// How long a call pauses, in milliseconds.
pub open spec fn pause_of(call: Call<Seq<u16>>) -> nat {
    match call {
        Call::Sleep { millis } => millis as nat,
        _ => 0,
    }
}

/// Takes the bouncing of the service on from `at`, with the reply to the call due there.
pub fn bounce_service(at: Bounce, reply: &Reply<Vec<u16>>) -> (r: (
    Progress<Bounce, ()>,
    Option<BounceReport>,
))
    ensures
        r.0 == at.next(reply@),
        r.1 == at.said(reply@),
{
    match at {
        Bounce::RequestStop => {
            let report = match request_stop(reply) {
                Some(code) => Some(BounceReport::StopFailed(code)),
                None => None,
            };
            (Progress::Pending(Bounce::Wait(WaitStopped::Poll(STOP_POLLS))), report)
        },
        Bounce::Wait(at) => match wait_until_stopped(at, reply) {
            Progress::Pending(at) => (Progress::Pending(Bounce::Wait(at)), None),
            Progress::Done(stopped) => {
                let report = if stopped {
                    None
                } else {
                    Some(BounceReport::StopTimedOut)
                };
                (Progress::Pending(Bounce::Start(StartRetry::Try(START_TRIES))), report)
            },
        },
        Bounce::Start(at) => match start_with_retry(at, reply) {
            Progress::Pending(at) => (Progress::Pending(Bounce::Start(at)), None),
            Progress::Done(outcome) => (Progress::Done(()), Some(BounceReport::Start(outcome))),
        },
    }
}

/// Bouncing ends, and soon: whatever the replies are, each leaves fewer replies to come, and
/// less time for pauses by the pause that it answers. From the start there are at most 151
/// replies to come, and ten seconds of pauses.
pub proof fn law_bounce_ends(at: Bounce, reply: Reply<Seq<u16>>)
    ensures
        at.next(reply) matches Progress::Pending(next) ==> {
            &&& next.replies_left() < at.replies_left()
            &&& next.pauses_left() + pause_of(at.due()) <= at.pauses_left()
        },
        at.next(reply) is Done ==> pause_of(at.due()) <= at.pauses_left(),
        at.replies_left() > 0,
        Bounce::RequestStop.replies_left() == 151,
        Bounce::RequestStop.pauses_left() == 10_000,
{
}

impl StartRetry {
    /// What a number of replies lead to.
    pub open spec fn after(self, replies: Seq<Reply<Seq<u16>>>) -> Progress<StartRetry, StartOutcome>
        decreases replies.len(),
    {
        if replies.len() == 0 {
            Progress::Pending(self)
        } else {
            match self.after(replies.drop_last()) {
                Progress::Pending(at) => at.next(replies.last()),
                Progress::Done(outcome) => Progress::Done(outcome),
            }
        }
    }

    /// The codes of the replies that have come to `StartServiceW`.
    pub open spec fn start_codes(self, replies: Seq<Reply<Seq<u16>>>) -> Seq<i32>
        decreases replies.len(),
    {
        if replies.len() == 0 {
            Seq::empty()
        } else {
            let before = self.start_codes(replies.drop_last());
            match self.after(replies.drop_last()) {
                Progress::Pending(at) => if at.due() is StartService {
                    before.push(replies.last().code)
                } else {
                    before
                },
                Progress::Done(_) => before,
            }
        }
    }
}

/// What comes of `StartServiceW`: the service has been started if the call succeeded, and is running
/// already if it failed with 1056. After any other failure, whatever its code, there is a pause of
/// 200 milliseconds.
pub proof fn law_only_success_or_running_ends_a_try(at: StartRetry, reply: Reply<Seq<u16>>)
    ensures
        at.due() is StartService || at.due() == (Call::<Seq<u16>>::Sleep { millis: 200 }),
        at.due() is StartService ==> {
            &&& at.next(reply) == Progress::<StartRetry, _>::Done(StartOutcome::Started) <==> reply.ok
            &&& at.next(reply) == Progress::<StartRetry, _>::Done(StartOutcome::AlreadyRunning)
                <==> !reply.ok && reply.code == 1056
            &&& !reply.ok && reply.code != 1056 ==> (at.next(reply) matches Progress::Pending(p)
                && p.due() == (Call::<Seq<u16>>::Sleep { millis: 200 }))
        },
        at.due() is Sleep ==> (at.next(reply) matches Progress::Pending(p) ==> p.due() is StartService),
{
}

/// Starting is given up only when `StartServiceW` has been called as often as it may be, whatever the
/// codes it failed with, and with the last of them. Until then a failure is followed by another try.
pub proof fn law_start_gives_up_after_all_tries(tries: u32, replies: Seq<Reply<Seq<u16>>>)
    requires
        tries >= 1,
    ensures
        ({
            let codes = StartRetry::Try(tries).start_codes(replies);
            match StartRetry::Try(tries).after(replies) {
                Progress::Done(StartOutcome::GaveUp(code)) => codes.len() == tries && codes.last()
                    == code && !codes.contains(1056),
                Progress::Done(_) => 1 <= codes.len() <= tries,
                Progress::Pending(at) => {
                    &&& !codes.contains(1056)
                    &&& at.due() is StartService ==> codes.len() < tries
                    &&& at.due() is Sleep ==> 1 <= codes.len() <= tries
                },
            }
        }),
{
    lemma_start_run(tries, replies);
}

proof fn lemma_start_run(tries: u32, replies: Seq<Reply<Seq<u16>>>)
    requires
        tries >= 1,
    ensures
        ({
            let codes = StartRetry::Try(tries).start_codes(replies);
            match StartRetry::Try(tries).after(replies) {
                Progress::Done(StartOutcome::GaveUp(code)) => codes.len() == tries && codes.last()
                    == code && !codes.contains(1056),
                Progress::Done(_) => 1 <= codes.len() <= tries,
                Progress::Pending(StartRetry::Try(left)) => 1 <= left <= tries && codes.len() == tries
                    - left && !codes.contains(1056),
                Progress::Pending(StartRetry::Pause(left, code)) => 1 <= left <= tries && codes.len()
                    == tries - left + 1 && codes.last() == code && !codes.contains(1056),
            }
        }),
    decreases replies.len(),
{
    if replies.len() > 0 {
        let front = replies.drop_last();
        lemma_start_run(tries, front);
        let before = StartRetry::Try(tries).start_codes(front);
        let code = replies.last().code;
        if code != 1056 && !before.contains(1056) {
            assert(!before.push(code).contains(1056)) by {
                if before.push(code).contains(1056) {
                    let i = choose|i: int|
                        0 <= i < before.push(code).len() && before.push(code)[i] == 1056;
                    assert(before[i] == 1056);
                }
            }
        }
    }
}

impl WaitStopped {
    /// What a number of replies lead to.
    pub open spec fn after(self, replies: Seq<Reply<Seq<u16>>>) -> Progress<WaitStopped, bool>
        decreases replies.len(),
    {
        if replies.len() == 0 {
            Progress::Pending(self)
        } else {
            match self.after(replies.drop_last()) {
                Progress::Pending(at) => at.next(replies.last()),
                Progress::Done(stopped) => Progress::Done(stopped),
            }
        }
    }

    /// How many replies have come to `QueryServiceStatus`.
    pub open spec fn polls(self, replies: Seq<Reply<Seq<u16>>>) -> nat
        decreases replies.len(),
    {
        if replies.len() == 0 {
            0
        } else {
            let before = self.polls(replies.drop_last());
            match self.after(replies.drop_last()) {
                Progress::Pending(at) => if at.due() is QueryStatus {
                    before + 1
                } else {
                    before
                },
                Progress::Done(_) => before,
            }
        }
    }
}

/// What comes of `QueryServiceStatus`: the service has stopped if that is its state, which is 1, or if
/// the call failed. Otherwise there is a pause of 100 milliseconds.
pub proof fn law_only_rest_ends_a_poll(at: WaitStopped, reply: Reply<Seq<u16>>)
    ensures
        at.due() is QueryStatus || at.due() == (Call::<Seq<u16>>::Sleep { millis: 100 }),
        at.due() is QueryStatus ==> {
            &&& at.next(reply) == Progress::<WaitStopped, _>::Done(true) <==> !reply.ok || reply.value
                == 1
            &&& reply.ok && reply.value != 1 ==> (at.next(reply) matches Progress::Pending(p)
                && p.due() == (Call::<Seq<u16>>::Sleep { millis: 100 }))
        },
        at.due() is Sleep ==> (at.next(reply) matches Progress::Pending(p) ==> p.due() is QueryStatus),
        at.due() is Sleep ==> (at.next(reply) matches Progress::Done(stopped) ==> !stopped),
{
}

/// Waiting runs out only when the service has been asked for its state as often as it may be.
pub proof fn law_wait_runs_out_after_all_polls(polls: u32, replies: Seq<Reply<Seq<u16>>>)
    requires
        polls >= 1,
    ensures
        ({
            let made = WaitStopped::Poll(polls).polls(replies);
            match WaitStopped::Poll(polls).after(replies) {
                Progress::Done(stopped) => 1 <= made <= polls && (!stopped ==> made == polls),
                Progress::Pending(at) => {
                    &&& at.due() is QueryStatus ==> made < polls
                    &&& at.due() is Sleep ==> 1 <= made <= polls
                },
            }
        }),
{
    lemma_wait_run(polls, replies);
}

proof fn lemma_wait_run(polls: u32, replies: Seq<Reply<Seq<u16>>>)
    requires
        polls >= 1,
    ensures
        ({
            let made = WaitStopped::Poll(polls).polls(replies);
            match WaitStopped::Poll(polls).after(replies) {
                Progress::Done(stopped) => 1 <= made <= polls && (!stopped ==> made == polls),
                Progress::Pending(WaitStopped::Poll(left)) => 1 <= left <= polls && made == polls
                    - left,
                Progress::Pending(WaitStopped::Pause(left)) => 1 <= left <= polls && made == polls
                    - left + 1,
            }
        }),
    decreases replies.len(),
{
    if replies.len() > 0 {
        lemma_wait_run(polls, replies.drop_last());
    }
}

} // verus!
