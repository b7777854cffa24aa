//! What installing and uninstalling call for, told from what has been called and replied so far.
//!
//! Nothing here speaks of the states of the procedures: a history is all that an observer of the calls
//! sees, and the numbers are those of the Win32 interfaces.
use crate::service::binpath::{binpath_text, is_own_binpath, is_user_path};
use crate::service::bounce::{Bounce, BounceReport, StartOutcome, StartRetry, WaitStopped};
use crate::service::calls::{Call, OsError, Progress, Reply};
use crate::service::install::{Install, InstallReport};
use crate::service::uninstall::{Uninstall, UninstallReport};
use crate::utf16::{decoded, wide_len, wide_of, without_trailing_nuls};
use vstd::prelude::*;

verus! {

/// A call and the reply to it.
pub struct Exchange {
    pub call: Call<Seq<u16>>,
    pub reply: Reply<Seq<u16>>,
}

/// How often the service has been asked for its state.
pub open spec fn polls(h: Seq<Exchange>) -> nat
    decreases h.len(),
{
    if h.len() == 0 {
        0
    } else if h.last().call is QueryStatus {
        polls(h.drop_last()) + 1
    } else {
        polls(h.drop_last())
    }
}

/// How often starting the service has been tried.
pub open spec fn starts(h: Seq<Exchange>) -> nat
    decreases h.len(),
{
    if h.len() == 0 {
        0
    } else if h.last().call is StartService {
        starts(h.drop_last()) + 1
    } else {
        starts(h.drop_last())
    }
}

/// The call that opens the manager, in order to connect to it.
pub open spec fn open_manager() -> Call<Seq<u16>> {
    Call::OpenManager { access: 1 }
}

/// The call that opens the service, with the rights to read and change its configuration, to ask for
/// its state, to start it and to stop it.
pub open spec fn open_service() -> Call<Seq<u16>> {
    Call::OpenService { name: wide_of("Apple Mobile Device Service"@), access: 0x37 }
}

/// The call that changes the ImagePath of the service and nothing else.
pub open spec fn change_path(path: Seq<char>) -> Call<Seq<u16>> {
    Call::ChangeConfig {
        service_type: 0xffff_ffff,
        start_type: 0xffff_ffff,
        error_control: 0xffff_ffff,
        binary_path: wide_of(path),
    }
}

/// The name of the registry value that keeps the original.
pub open spec fn value_name() -> Seq<u16> {
    wide_of("OriginalAmdsImagePath"@)
}

/// The right on the service that a call needs, as a bit of the access that it is opened with.
pub open spec fn right_for(call: Call<Seq<u16>>) -> u32 {
    match call {
        Call::QueryConfig { .. } => 0x01,
        Call::ChangeConfig { .. } => 0x02,
        Call::QueryStatus => 0x04,
        Call::StartService => 0x10,
        Call::ControlService { .. } => 0x20,
        _ => 0,
    }
}

/// The text that reading the configuration has brought, if it has.
pub open spec fn path_read(e: Exchange) -> Option<Seq<char>> {
    match e.reply.units {
        Some(units) => if e.reply.ok {
            Some(decoded(units.take(wide_len(units))))
        } else {
            None
        },
        None => None,
    }
}

/// The text that reading the registry value has brought.
pub open spec fn text_loaded(e: Exchange) -> Seq<char> {
    match e.reply.units {
        Some(units) => decoded(without_trailing_nuls(units)),
        None => Seq::empty(),
    }
}

/// What follows the change of the ImagePath: the service is asked to stop, and then for its state,
/// with pauses of 100 milliseconds, until it has stopped, the question fails or has been put 50 times.
/// Then starting is tried, with pauses of 200 milliseconds, until it succeeds, the service turns out
/// to be running or there have been 25 tries.
pub open spec fn next_in_bounce(h: Seq<Exchange>) -> Option<Call<Seq<u16>>> {
    let reply = h.last().reply;
    match h.last().call {
        Call::ChangeConfig { .. } => Some(Call::ControlService { control: 1 }),
        Call::ControlService { .. } => Some(Call::QueryStatus),
        Call::QueryStatus => if !reply.ok || reply.value == 1 {
            Some(Call::StartService)
        } else {
            Some(Call::Sleep { millis: 100 })
        },
        Call::StartService => if reply.ok || reply.code == 1056 {
            None
        } else {
            Some(Call::Sleep { millis: 200 })
        },
        _ => if starts(h) == 0 {
            if polls(h) < 50 {
                Some(Call::QueryStatus)
            } else {
                Some(Call::StartService)
            }
        } else if starts(h) < 25 {
            Some(Call::StartService)
        } else {
            None
        },
    }
}

/// What there is to say of the last call while the service is bounced: a stop that was refused though
/// the service is neither stopped (1062), stopping (109) nor in a transition (1061); that it did not
/// stop in time; how starting it ended.
pub open spec fn said_in_bounce(h: Seq<Exchange>) -> Option<BounceReport> {
    let reply = h.last().reply;
    match h.last().call {
        Call::ControlService { .. } => if reply.ok || reply.code == 1062 || reply.code == 109
            || reply.code == 1061 {
            None
        } else {
            Some(BounceReport::StopFailed(reply.code))
        },
        Call::StartService => if reply.ok {
            Some(BounceReport::Start(StartOutcome::Started))
        } else if reply.code == 1056 {
            Some(BounceReport::Start(StartOutcome::AlreadyRunning))
        } else {
            None
        },
        Call::Sleep { .. } => if starts(h) == 0 && polls(h) == 50 {
            Some(BounceReport::StopTimedOut)
        } else if starts(h) == 25 {
            Some(BounceReport::Start(StartOutcome::GaveUp(h[h.len() - 2].reply.code)))
        } else {
            None
        },
        _ => None,
    }
}

/// What installing calls for next: to open the manager and the service, to ask for the size of the
/// configuration and for the configuration, to save an ImagePath that is not this daemon's own, to
/// change the ImagePath, and to bounce the service.
pub open spec fn next_install_call(
    exe: Result<Seq<char>, OsError<Seq<char>>>,
    args: Seq<Seq<char>>,
    h: Seq<Exchange>,
) -> Option<Call<Seq<u16>>> {
    let change = match exe {
        Ok(exe) => Some(change_path(binpath_text(exe, args))),
        Err(_) => None,
    };
    if h.len() == 0 {
        Some(open_manager())
    } else {
        let reply = h.last().reply;
        match h.last().call {
            Call::OpenManager { .. } => if reply.ok {
                Some(open_service())
            } else {
                None
            },
            Call::OpenService { .. } => if reply.ok && exe is Ok {
                Some(Call::QueryConfig { size: 0 })
            } else {
                None
            },
            Call::QueryConfig { .. } => if h.len() == 3 {
                if (reply.ok || reply.code == 122) && reply.value != 0 {
                    Some(Call::QueryConfig { size: reply.value })
                } else {
                    change
                }
            } else {
                match path_read(h.last()) {
                    Some(text) => if is_own_binpath(text) {
                        change
                    } else {
                        Some(
                            Call::CreateKey {
                                root: 0x8000_0002,
                                subkey: wide_of("SOFTWARE\\netmuxd"@),
                                access: 0x2_0006,
                            },
                        )
                    },
                    None => change,
                }
            },
            Call::CreateKey { .. } => if reply.code == 0 {
                let data = wide_of(path_read(h[3])->0);
                Some(
                    Call::SetValue {
                        name: value_name(),
                        value_type: 1,
                        data,
                        byte_len: (2 * data.len() % 0x1_0000_0000) as u32,
                    },
                )
            } else {
                None
            },
            Call::SetValue { .. } => if reply.code == 0 {
                change
            } else {
                None
            },
            Call::ChangeConfig { .. } => if reply.ok {
                next_in_bounce(h)
            } else {
                None
            },
            _ => next_in_bounce(h),
        }
    }
}

/// What there is to say of the last call of installing.
pub open spec fn said_in_install(
    exe: Result<Seq<char>, OsError<Seq<char>>>,
    args: Seq<Seq<char>>,
    h: Seq<Exchange>,
) -> Seq<InstallReport<Seq<char>>> {
    let reply = h.last().reply;
    let failed = if reply.code == 5 {
        seq![InstallReport::AccessDenied]
    } else {
        seq![InstallReport::OpenFailed(OsError::Os(reply.code))]
    };
    match h.last().call {
        Call::OpenManager { .. } => if reply.ok {
            seq![]
        } else {
            failed
        },
        Call::OpenService { .. } => if !reply.ok {
            if reply.code == 1060 {
                seq![InstallReport::NotInstalled]
            } else {
                failed
            }
        } else {
            match exe {
                Ok(exe) => if is_user_path(exe) {
                    seq![InstallReport::InUserProfile(exe)]
                } else {
                    seq![]
                },
                Err(e) => seq![InstallReport::ProgramUnknown(e)],
            }
        },
        Call::QueryConfig { .. } => if !reply.ok && !(h.len() == 3 && reply.code == 122) {
            seq![InstallReport::PathUnreadable(OsError::Os(reply.code))]
        } else if h.len() == 3 {
            if reply.value == 0 {
                seq![
                    InstallReport::PathUnreadable(
                        OsError::Other("QueryServiceConfig reported zero size"@),
                    ),
                ]
            } else {
                seq![]
            }
        } else {
            match path_read(h.last()) {
                Some(text) => if is_own_binpath(text) {
                    seq![InstallReport::AlreadyOwn]
                } else {
                    seq![]
                },
                None => seq![
                    InstallReport::PathUnreadable(OsError::Other("service had no ImagePath"@)),
                ],
            }
        },
        Call::CreateKey { .. } => if reply.code == 0 {
            seq![]
        } else {
            seq![InstallReport::SaveFailed(OsError::Os(reply.code))]
        },
        Call::SetValue { .. } => if reply.code == 0 {
            seq![InstallReport::Saved(path_read(h[3])->0)]
        } else {
            seq![InstallReport::SaveFailed(OsError::Os(reply.code))]
        },
        Call::ChangeConfig { .. } => if reply.ok {
            seq![InstallReport::Repointed(binpath_text(exe->Ok_0, args))]
        } else if reply.code == 5 {
            seq![InstallReport::ChangeDenied]
        } else {
            seq![InstallReport::ChangeFailed(OsError::Os(reply.code))]
        },
        _ => {
            let bounced = match said_in_bounce(h) {
                Some(report) => seq![InstallReport::Bounce(report)],
                None => seq![],
            };
            if next_in_bounce(h) is None {
                bounced.push(InstallReport::Installed)
            } else {
                bounced
            }
        },
    }
}

/// What uninstalling calls for next: to open the key and ask for the size of the value and for the
/// value, to open the manager and the service, to change the ImagePath, to bounce the service, and to
/// open the key and delete the value.
pub open spec fn next_uninstall_call(h: Seq<Exchange>) -> Option<Call<Seq<u16>>> {
    if h.len() == 0 {
        Some(
            Call::OpenKey {
                root: 0x8000_0002,
                subkey: wide_of("SOFTWARE\\netmuxd"@),
                access: 0x2_0019,
            },
        )
    } else {
        let reply = h.last().reply;
        match h.last().call {
            Call::OpenKey { .. } => if reply.code != 0 {
                None
            } else if h.len() == 1 {
                Some(Call::QueryValue { name: value_name(), units: 0, byte_len: 0 })
            } else {
                Some(Call::DeleteValue { name: value_name() })
            },
            Call::QueryValue { .. } => if reply.code != 0 {
                None
            } else if h.len() == 2 {
                let units = (reply.value + 1) / 2;
                if reply.value == 0 {
                    None
                } else {
                    Some(
                        Call::QueryValue {
                            name: value_name(),
                            units: units as usize,
                            byte_len: (2 * units % 0x1_0000_0000) as u32,
                        },
                    )
                }
            } else {
                Some(open_manager())
            },
            Call::OpenManager { .. } => if reply.ok {
                Some(open_service())
            } else {
                None
            },
            Call::OpenService { .. } => if reply.ok {
                Some(change_path(text_loaded(h[2])))
            } else {
                None
            },
            Call::ChangeConfig { .. } => if reply.ok {
                next_in_bounce(h)
            } else {
                None
            },
            Call::DeleteValue { .. } => None,
            _ => match next_in_bounce(h) {
                Some(call) => Some(call),
                None => Some(
                    Call::OpenKey {
                        root: 0x8000_0002,
                        subkey: wide_of("SOFTWARE\\netmuxd"@),
                        access: 0x2_0006,
                    },
                ),
            },
        }
    }
}

/// What there is to say of the last call of uninstalling.
pub open spec fn said_in_uninstall(h: Seq<Exchange>) -> Seq<UninstallReport<Seq<char>>> {
    let reply = h.last().reply;
    let failed = if reply.code == 5 {
        seq![UninstallReport::AccessDenied]
    } else {
        seq![UninstallReport::OpenFailed(OsError::Os(reply.code))]
    };
    match h.last().call {
        Call::OpenKey { .. } => if h.len() > 1 {
            if reply.code == 0 {
                seq![]
            } else {
                seq![UninstallReport::Uninstalled]
            }
        } else if reply.code == 0 {
            seq![]
        } else if reply.code == 2 {
            seq![UninstallReport::NothingSaved]
        } else {
            seq![UninstallReport::LoadFailed(OsError::Os(reply.code))]
        },
        Call::QueryValue { .. } => if reply.code == 0 {
            if h.len() == 2 && reply.value == 0 {
                seq![UninstallReport::NothingSaved]
            } else {
                seq![]
            }
        } else if h.len() == 2 && reply.code == 2 {
            seq![UninstallReport::NothingSaved]
        } else {
            seq![UninstallReport::LoadFailed(OsError::Os(reply.code))]
        },
        Call::OpenManager { .. } => if reply.ok {
            seq![]
        } else {
            failed
        },
        Call::OpenService { .. } => if reply.ok {
            seq![]
        } else if reply.code == 1060 {
            seq![UninstallReport::NotInstalled]
        } else {
            failed
        },
        Call::ChangeConfig { .. } => if reply.ok {
            seq![UninstallReport::Restored(text_loaded(h[2]))]
        } else {
            seq![UninstallReport::RestoreFailed(OsError::Os(reply.code))]
        },
        Call::DeleteValue { .. } => seq![UninstallReport::Uninstalled],
        _ => match said_in_bounce(h) {
            Some(report) => seq![UninstallReport::Bounce(report)],
            None => seq![],
        },
    }
}

impl Install<Seq<char>> {
    /// The calls that were made and the replies to them.
    pub open spec fn history(self, replies: Seq<Reply<Seq<u16>>>) -> Seq<Exchange>
        decreases replies.len(),
    {
        if replies.len() == 0 {
            Seq::empty()
        } else {
            let before = self.history(replies.drop_last());
            match self.after(replies.drop_last()).due() {
                Some(call) => before.push(Exchange { call, reply: replies.last() }),
                None => before,
            }
        }
    }
}

impl Uninstall<Seq<char>> {
    /// The calls that were made and the replies to them.
    pub open spec fn history(self, replies: Seq<Reply<Seq<u16>>>) -> Seq<Exchange>
        decreases replies.len(),
    {
        if replies.len() == 0 {
            Seq::empty()
        } else {
            let before = self.history(replies.drop_last());
            match self.after(replies.drop_last()).due() {
                Some(call) => before.push(Exchange { call, reply: replies.last() }),
                None => before,
            }
        }
    }
}

/// Whether a granted change of the ImagePath at position `c` was followed by the request to stop the
/// service, with no try to start it before.
pub open spec fn stops_after_change(h: Seq<Exchange>, c: int) -> bool {
    &&& 0 <= c
    &&& c + 1 < h.len()
    &&& h[c].call is ChangeConfig
    &&& h[c].reply.ok
    &&& h[c + 1].call == (Call::<Seq<u16>>::ControlService { control: 1 })
    &&& starts(h.take(c + 1)) == 0
}

/// Whether the question for the service's state at position `p` was answered with stopped, or failed.
pub open spec fn comes_to_rest(h: Seq<Exchange>, p: int) -> bool {
    &&& 0 <= p < h.len()
    &&& h[p].call is QueryStatus
    &&& !h[p].reply.ok || h[p].reply.value == 1
}

/// Whether the access at position `k` was asked for and granted on the service, and holds a right.
pub open spec fn grants_right(h: Seq<Exchange>, k: int, right: u32) -> bool {
    &&& 0 <= k < h.len()
    &&& h[k].call matches Call::OpenService { access, .. } && access & right == right
    &&& h[k].reply.ok
}

/// Whether the service has been asked to stop after a granted change and before any try to start it,
/// and has then come to rest or been asked for its state 50 times.
pub open spec fn is_down(h: Seq<Exchange>) -> bool {
    &&& exists|c: int| #[trigger] stops_after_change(h, c)
    &&& (exists|p: int| #[trigger] comes_to_rest(h, p)) || polls(h) == 50
}

/// Whether a history is one that has led to a state of bouncing.
spec fn bounce_fits(at: Bounce, h: Seq<Exchange>) -> bool {
    &&& h.len() > 0
    &&& match at {
        Bounce::RequestStop => {
            &&& h.last().call is ChangeConfig
            &&& h.last().reply.ok
            &&& polls(h) == 0
            &&& starts(h) == 0
        },
        Bounce::Wait(WaitStopped::Poll(left)) => {
            &&& h.last().call is ControlService || h.last().call is Sleep
            &&& 1 <= left <= 50
            &&& polls(h) == 50 - left
            &&& starts(h) == 0
            &&& exists|c: int| #[trigger] stops_after_change(h, c)
        },
        Bounce::Wait(WaitStopped::Pause(left)) => {
            &&& h.last().call is QueryStatus
            &&& h.last().reply.ok
            &&& h.last().reply.value != 1
            &&& 1 <= left <= 50
            &&& polls(h) == 51 - left
            &&& starts(h) == 0
            &&& exists|c: int| #[trigger] stops_after_change(h, c)
        },
        Bounce::Start(StartRetry::Try(left)) => {
            &&& 1 <= left <= 25
            &&& starts(h) == 25 - left
            &&& h.last().call is QueryStatus && (!h.last().reply.ok || h.last().reply.value == 1)
                || h.last().call is Sleep && (starts(h) > 0 || polls(h) == 50)
            &&& is_down(h)
        },
        Bounce::Start(StartRetry::Pause(left, code)) => {
            &&& 1 <= left <= 25
            &&& starts(h) == 26 - left
            &&& h.last().call is StartService
            &&& !h.last().reply.ok
            &&& h.last().reply.code == code
            &&& code != 1056
            &&& is_down(h)
        },
    }
}

/// Whether a history has come to the end of bouncing: starting succeeded or the service is running, or
/// there have been 25 tries.
pub open spec fn is_bounced(h: Seq<Exchange>) -> bool {
    &&& is_down(h)
    &&& starts(h) >= 1
    &&& h.len() > 0
    &&& h.last().call is StartService && (h.last().reply.ok || h.last().reply.code == 1056)
        || h.last().call is Sleep && starts(h) == 25
}

proof fn lemma_longer(h: Seq<Exchange>, e: Exchange)
    ensures
        h.push(e).drop_last() == h,
        h.push(e).last() == e,
        forall|c: int| #[trigger] stops_after_change(h, c) ==> stops_after_change(h.push(e), c),
        forall|p: int| #[trigger] comes_to_rest(h, p) ==> comes_to_rest(h.push(e), p),
        forall|k: int, r: u32| #[trigger] grants_right(h, k, r) ==> grants_right(h.push(e), k, r),
        (exists|c: int| #[trigger] stops_after_change(h, c)) ==> exists|c: int| #[trigger]
            stops_after_change(h.push(e), c),
        (exists|p: int| #[trigger] comes_to_rest(h, p)) ==> exists|p: int| #[trigger]
            comes_to_rest(h.push(e), p),
{
    let longer = h.push(e);
    assert(longer.drop_last() =~= h);
    assert forall|c: int| #[trigger] stops_after_change(h, c) implies stops_after_change(longer, c) by {
        assert(longer.take(c + 1) =~= h.take(c + 1));
    }
    if exists|c: int| #[trigger] stops_after_change(h, c) {
        let c = choose|c: int| #[trigger] stops_after_change(h, c);
        assert(stops_after_change(longer, c));
    }
    if exists|p: int| #[trigger] comes_to_rest(h, p) {
        let p = choose|p: int| #[trigger] comes_to_rest(h, p);
        assert(comes_to_rest(longer, p));
    }
}

proof fn lemma_bounce_step(at: Bounce, h: Seq<Exchange>, reply: Reply<Seq<u16>>)
    requires
        bounce_fits(at, h),
    ensures
        ({
            let now = h.push(Exchange { call: at.due(), reply });
            &&& next_in_bounce(h) == Some(at.due())
            &&& at.said(reply) == said_in_bounce(now)
            &&& at.next(reply) matches Progress::Pending(next) ==> bounce_fits(
                next,
                now,
            ) && next_in_bounce(now) is Some
            &&& at.next(reply) is Done ==> is_bounced(now) && next_in_bounce(now) is None
            &&& at.due() is ControlService || at.due() is QueryStatus || at.due() is StartService
                || at.due() is Sleep
        }),
{
    let e = Exchange { call: at.due(), reply };
    let now = h.push(e);
    lemma_longer(h, e);
    match at {
        Bounce::RequestStop => {
            let c = h.len() - 1;
            assert(now.take(c + 1) =~= h);
            assert(stops_after_change(now, c));
        },
        Bounce::Wait(WaitStopped::Poll(_)) => {
            if !reply.ok || reply.value == 1 {
                assert(comes_to_rest(now, now.len() - 1));
            }
        },
        _ => {},
    }
}

proof fn lemma_install_told(
    exe: Result<Seq<char>, OsError<Seq<char>>>,
    args: Seq<Seq<char>>,
    replies: Seq<Reply<Seq<u16>>>,
)
    ensures
        ({
            let task = Install::start(exe, args);
            let h = task.history(replies);
            let path = binpath_text(exe->Ok_0, args);
            &&& task.after(replies).due() == next_install_call(exe, args, h)
            &&& h.len() >= 2 ==> h[1].call == open_service() && (h.len() > 2 ==> h[1].reply.ok)
            &&& match task.after(replies) {
                Install::Open { at, program } => {
                    &&& at is Manager ==> h.len() == 0
                    &&& at is Service ==> h.len() == 1
                    &&& Install::start(exe, args)->program == program
                    &&& starts(h) == 0 && polls(h) == 0
                },
                Install::Query { at, binpath } => {
                    &&& at is Size ==> h.len() == 2 && h[1].reply.ok
                    &&& at is Read ==> h.len() == 3
                    &&& exe is Ok
                    &&& binpath == path
                    &&& starts(h) == 0 && polls(h) == 0
                },
                Install::Save { at, current, binpath } => {
                    &&& at is CreateKey ==> h.len() == 4
                    &&& at is SetValue ==> h.len() == 5
                    &&& path_read(h[3]) == Some(current)
                    &&& exe is Ok
                    &&& binpath == path
                    &&& starts(h) == 0 && polls(h) == 0
                },
                Install::Change { binpath } => {
                    &&& h.len() >= 3
                    &&& exe is Ok
                    &&& binpath == path
                    &&& starts(h) == 0 && polls(h) == 0
                },
                Install::Bounce { at } => h.len() >= 3 && exe is Ok && bounce_fits(at, h),
                Install::Finished { exit_code } => exit_code == 0 ==> is_bounced(h),
            }
        }),
    decreases replies.len(),
{
    let task = Install::start(exe, args);
    assert(1u32 | 2u32 | 4u32 | 0x10u32 | 0x20u32 == 0x37u32) by (bit_vector);
    if replies.len() > 0 {
        let front = replies.drop_last();
        let before = task.after(front);
        let h = task.history(front);
        let reply = replies.last();
        lemma_install_told(exe, args, front);
        if let Some(call) = before.due() {
            lemma_longer(h, Exchange { call, reply });
        }
        if let Install::Bounce { at } = before {
            lemma_bounce_step(at, h, reply);
        }
    }
}

/// What installing calls for is told by its history: whatever the replies were, the call that is due is
/// the one that [`next_install_call`] gives for the calls and replies so far, and all is done when it
/// gives none.
pub proof fn law_install_calls_follow_history(
    exe: Result<Seq<char>, OsError<Seq<char>>>,
    args: Seq<Seq<char>>,
    replies: Seq<Reply<Seq<u16>>>,
)
    ensures
        ({
            let task = Install::start(exe, args);
            &&& task.after(replies).due() == next_install_call(exe, args, task.history(replies))
            &&& task.after(replies).due() is None <==> task.after(replies) is Finished
        }),
{
    lemma_install_told(exe, args, replies);
}

/// What installing says is told by its history: whatever the replies were, each call is commented as
/// [`said_in_install`] has it.
pub proof fn law_install_says_what_happened(
    exe: Result<Seq<char>, OsError<Seq<char>>>,
    args: Seq<Seq<char>>,
    replies: Seq<Reply<Seq<u16>>>,
    reply: Reply<Seq<u16>>,
)
    requires
        !(Install::start(exe, args).after(replies) is Finished),
    ensures
        ({
            let task = Install::start(exe, args);
            task.after(replies).said(reply) == said_in_install(
                exe,
                args,
                task.history(replies.push(reply)),
            )
        }),
{
    let task = Install::start(exe, args);
    let before = task.after(replies);
    let h = task.history(replies);
    assert(replies.push(reply).drop_last() =~= replies);
    lemma_install_told(exe, args, replies);
    let call = before.due()->0;
    lemma_longer(h, Exchange { call, reply });
    if let Install::Bounce { at } = before {
        lemma_bounce_step(at, h, reply);
    }
    assert(before.said(reply) =~= said_in_install(exe, args, task.history(replies.push(reply))));
}

/// Installing opens the service with the rights that it goes on to use: whenever it makes a call that
/// needs a right on the service, it has been granted an access that holds this right.
pub proof fn law_install_has_the_rights_it_uses(
    exe: Result<Seq<char>, OsError<Seq<char>>>,
    args: Seq<Seq<char>>,
    replies: Seq<Reply<Seq<u16>>>,
)
    ensures
        ({
            let task = Install::start(exe, args);
            task.after(replies).due() matches Some(call) ==> right_for(call) != 0 ==> exists|k: int|
                #[trigger] grants_right(task.history(replies), k, right_for(call))
        }),
{
    let task = Install::start(exe, args);
    lemma_install_told(exe, args, replies);
    if let Some(call) = task.after(replies).due() {
        let right = right_for(call);
        if right != 0 {
            lemma_rights(right);
            assert(grants_right(task.history(replies), 1, right));
        }
    }
}

proof fn lemma_rights(right: u32)
    requires
        right == 0x01 || right == 0x02 || right == 0x04 || right == 0x10 || right == 0x20,
    ensures
        0x37u32 & right == right,
{
    assert(0x37u32 & right == right) by (bit_vector)
        requires
            right == 0x01 || right == 0x02 || right == 0x04 || right == 0x10 || right == 0x20,
    ;
}

/// Installing starts the service only when it is down: after the granted change of the ImagePath it has
/// asked the service to stop, and then found it stopped, failed to ask or asked 50 times. If it ends with
/// exit code 0, it has been through all this, and has started the service, found it running or tried to
/// start it 25 times.
pub proof fn law_install_stops_before_it_starts(
    exe: Result<Seq<char>, OsError<Seq<char>>>,
    args: Seq<Seq<char>>,
    replies: Seq<Reply<Seq<u16>>>,
)
    ensures
        ({
            let task = Install::start(exe, args);
            let h = task.history(replies);
            &&& task.after(replies).due() matches Some(Call::StartService) ==> is_down(h) && starts(h)
                < 25
            &&& task.after(replies) matches Install::Finished { exit_code } ==> exit_code == 0
                ==> is_bounced(h)
        }),
{
    lemma_install_told(exe, args, replies);
}

proof fn lemma_uninstall_told(replies: Seq<Reply<Seq<u16>>>)
    ensures
        ({
            let task = Uninstall::start();
            let h = task.history(replies);
            &&& task.after(replies).due() == next_uninstall_call(h)
            &&& h.len() >= 5 ==> h[4].call == open_service() && (h.len() > 5 ==> h[4].reply.ok)
            &&& match task.after(replies) {
                Uninstall::Load { at } => {
                    &&& at is OpenKey ==> h.len() == 0
                    &&& at is QuerySize ==> h.len() == 1
                    &&& at is ReadValue ==> h.len() == 2
                    &&& starts(h) == 0 && polls(h) == 0
                },
                Uninstall::Open { at, original } => {
                    &&& at is Manager ==> h.len() == 3
                    &&& at is Service ==> h.len() == 4
                    &&& original == text_loaded(h[2])
                    &&& starts(h) == 0 && polls(h) == 0
                },
                Uninstall::Change { original } => {
                    &&& h.len() == 5 && h[4].reply.ok
                    &&& original == text_loaded(h[2])
                    &&& starts(h) == 0 && polls(h) == 0
                },
                Uninstall::Bounce { at } => h.len() >= 6 && bounce_fits(at, h),
                Uninstall::Delete { at } => h.len() >= 6 && exists|n: int|
                    0 <= n <= h.len() && is_bounced(#[trigger] h.take(n)),
                Uninstall::Finished { exit_code } => exit_code == 0 ==> exists|n: int|
                    0 <= n <= h.len() && is_bounced(#[trigger] h.take(n)),
            }
        }),
    decreases replies.len(),
{
    let task = Uninstall::start();
    assert(1u32 | 2u32 | 4u32 | 0x10u32 | 0x20u32 == 0x37u32) by (bit_vector);
    if replies.len() > 0 {
        let front = replies.drop_last();
        let before = task.after(front);
        let h = task.history(front);
        let reply = replies.last();
        let now = task.history(replies);
        lemma_uninstall_told(front);
        if let Some(call) = before.due() {
            lemma_longer(h, Exchange { call, reply });
        }
        if let Uninstall::Bounce { at } = before {
            lemma_bounce_step(at, h, reply);
            assert(now.take(now.len() as int) =~= now);
        }
        if let Uninstall::Delete { at } = before {
            let n = choose|n: int| 0 <= n <= h.len() && is_bounced(#[trigger] h.take(n));
            assert(now.take(n) =~= h.take(n));
        }
    }
}

/// What uninstalling calls for is told by its history: whatever the replies were, the call that is due
/// is the one that [`next_uninstall_call`] gives for the calls and replies so far, and all is done when
/// it gives none.
pub proof fn law_uninstall_calls_follow_history(replies: Seq<Reply<Seq<u16>>>)
    ensures
        ({
            let task = Uninstall::start();
            &&& task.after(replies).due() == next_uninstall_call(task.history(replies))
            &&& task.after(replies).due() is None <==> task.after(replies) is Finished
        }),
{
    lemma_uninstall_told(replies);
}

/// What uninstalling says is told by its history: whatever the replies were, each call is commented as
/// [`said_in_uninstall`] has it.
pub proof fn law_uninstall_says_what_happened(
    replies: Seq<Reply<Seq<u16>>>,
    reply: Reply<Seq<u16>>,
)
    requires
        !(Uninstall::start().after(replies) is Finished),
    ensures
        ({
            let task = Uninstall::start();
            task.after(replies).said(reply) == said_in_uninstall(task.history(replies.push(reply)))
        }),
{
    let task = Uninstall::start();
    let before = task.after(replies);
    let h = task.history(replies);
    assert(replies.push(reply).drop_last() =~= replies);
    lemma_uninstall_told(replies);
    let call = before.due()->0;
    lemma_longer(h, Exchange { call, reply });
    if let Uninstall::Bounce { at } = before {
        lemma_bounce_step(at, h, reply);
    }
    assert(before.said(reply) =~= said_in_uninstall(task.history(replies.push(reply))));
}

/// Uninstalling opens the service with the rights that it goes on to use: whenever it makes a call that
/// needs a right on the service, it has been granted an access that holds this right.
pub proof fn law_uninstall_has_the_rights_it_uses(replies: Seq<Reply<Seq<u16>>>)
    ensures
        ({
            let task = Uninstall::start();
            task.after(replies).due() matches Some(call) ==> right_for(call) != 0 ==> exists|k: int|
                #[trigger] grants_right(task.history(replies), k, right_for(call))
        }),
{
    let task = Uninstall::start();
    lemma_uninstall_told(replies);
    if let Some(call) = task.after(replies).due() {
        let right = right_for(call);
        if right != 0 {
            lemma_rights(right);
            assert(grants_right(task.history(replies), 4, right));
        }
    }
}

/// Uninstalling starts the service only when it is down: after the granted change of the ImagePath it
/// has asked the service to stop, and then found it stopped, failed to ask or asked 50 times. If it ends
/// with exit code 0, or is about to delete what was saved, it has been through all this, and has started
/// the service, found it running or tried to start it 25 times.
pub proof fn law_uninstall_stops_before_it_starts(replies: Seq<Reply<Seq<u16>>>)
    ensures
        ({
            let task = Uninstall::start();
            let h = task.history(replies);
            &&& task.after(replies).due() matches Some(Call::StartService) ==> is_down(h) && starts(h)
                < 25
            &&& (task.after(replies) == (Uninstall::<Seq<char>>::Finished { exit_code: 0 }) || (task.after(
                replies,
            ).due() matches Some(Call::DeleteValue { .. }))) ==> exists|n: int|
                0 <= n <= h.len() && is_bounced(#[trigger] h.take(n))
        }),
{
    lemma_uninstall_told(replies);
}

} // verus!
