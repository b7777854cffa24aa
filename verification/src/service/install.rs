//! Pointing the service at this daemon.
use crate::service::binpath::{
    binpath_text, build_binpath, is_in_user_profile, is_netmuxd_binpath, is_own_binpath, is_user_path,
    texts_of,
};
use crate::service::bounce::{bounce_service, Bounce, BounceReport};
use crate::service::calls::{
    Call, OsError, Progress, Reply, ERROR_ACCESS_DENIED, SERVICE_RECONFIG_ACCESS,
};
use crate::service::manager::{
    change_call, change_due, open_amds, query_binary_path, set_binary_path, OpenAmds, QueryPath,
};
use crate::service::registry::{save_original, SaveOriginal};
use vstd::prelude::*;

verus! {

/// The program to be installed: its path, and the command line that the service gets.
#[derive(Debug, PartialEq, Eq)]
pub struct Program<S> {
    pub exe: S,
    pub binpath: S,
}

/// Where installing has got to. `S` is a string, or in the model its text.
#[allow(inconsistent_fields)]
#[derive(Debug, PartialEq, Eq)]
pub enum Install<S> {
    /// Opening the service, with the program or why its path is not known.
    Open { at: OpenAmds, program: Result<Program<S>, OsError<S>> },
    /// Reading the ImagePath that the service has.
    Query { at: QueryPath, binpath: S },
    /// Saving the ImagePath that the service has.
    Save { at: SaveOriginal, current: S, binpath: S },
    /// Changing the ImagePath.
    Change { binpath: S },
    /// Bouncing the service.
    Bounce { at: Bounce },
    /// Done.
    Finished { exit_code: i32 },
}

/// What there is to say while the service is pointed at this daemon.
#[derive(Debug, PartialEq, Eq)]
pub enum InstallReport<S> {
    /// The service is not installed on this machine.
    NotInstalled,
    /// The service may not be opened by this account.
    AccessDenied,
    /// The service could not be opened.
    OpenFailed(OsError<S>),
    /// The path of this program is not known.
    ProgramUnknown(OsError<S>),
    /// This program lives inside a user's profile.
    InUserProfile(S),
    /// The service has this daemon's ImagePath already.
    AlreadyOwn,
    /// The original ImagePath could not be saved.
    SaveFailed(OsError<S>),
    /// The original ImagePath was saved.
    Saved(S),
    /// The original ImagePath could not be read.
    PathUnreadable(OsError<S>),
    /// The configuration may not be changed by this account.
    ChangeDenied,
    /// The configuration could not be changed.
    ChangeFailed(OsError<S>),
    /// The service has its new ImagePath.
    Repointed(S),
    /// The service is being bounced.
    Bounce(BounceReport),
    /// All is done.
    Installed,
}

impl View for InstallReport<String> {
    type V = InstallReport<Seq<char>>;

    open spec fn view(&self) -> InstallReport<Seq<char>> {
        match *self {
            InstallReport::NotInstalled => InstallReport::NotInstalled,
            InstallReport::AccessDenied => InstallReport::AccessDenied,
            InstallReport::OpenFailed(e) => InstallReport::OpenFailed(e@),
            InstallReport::ProgramUnknown(e) => InstallReport::ProgramUnknown(e@),
            InstallReport::InUserProfile(exe) => InstallReport::InUserProfile(exe@),
            InstallReport::AlreadyOwn => InstallReport::AlreadyOwn,
            InstallReport::SaveFailed(e) => InstallReport::SaveFailed(e@),
            InstallReport::Saved(path) => InstallReport::Saved(path@),
            InstallReport::PathUnreadable(e) => InstallReport::PathUnreadable(e@),
            InstallReport::ChangeDenied => InstallReport::ChangeDenied,
            InstallReport::ChangeFailed(e) => InstallReport::ChangeFailed(e@),
            InstallReport::Repointed(path) => InstallReport::Repointed(path@),
            InstallReport::Bounce(report) => InstallReport::Bounce(report),
            InstallReport::Installed => InstallReport::Installed,
        }
    }
}

/// The models of a list of reports.
pub open spec fn install_reports(reports: Seq<InstallReport<String>>) -> Seq<
    InstallReport<Seq<char>>,
> {
    reports.map_values(|r: InstallReport<String>| r@)
}

impl View for Install<String> {
    type V = Install<Seq<char>>;

    open spec fn view(&self) -> Install<Seq<char>> {
        match *self {
            Install::Open { at, program } => Install::Open {
                at,
                program: match program {
                    Ok(program) => Ok(
                        Program { exe: program.exe@, binpath: program.binpath@ },
                    ),
                    Err(e) => Err(e@),
                },
            },
            Install::Query { at, binpath } => Install::Query { at, binpath: binpath@ },
            Install::Save { at, current, binpath } => {
                Install::Save { at, current: current@, binpath: binpath@ }
            },
            Install::Change { binpath } => Install::Change { binpath: binpath@ },
            Install::Bounce { at } => Install::Bounce { at },
            Install::Finished { exit_code } => Install::Finished { exit_code },
        }
    }
}

impl Install<Seq<char>> {
    /// The start of installing `exe`, if it is known, with further arguments.
    pub open spec fn start(
        exe: Result<Seq<char>, OsError<Seq<char>>>,
        args: Seq<Seq<char>>,
    ) -> Install<Seq<char>> {
        Install::Open {
            at: OpenAmds::Manager,
            program: match exe {
                Ok(exe) => Ok(Program { exe, binpath: binpath_text(exe, args) }),
                Err(e) => Err(e),
            },
        }
    }

    /// The call that is due; none when all is done.
    pub open spec fn due(self) -> Option<Call<Seq<u16>>> {
        match self {
            Install::Open { at, .. } => Some(at.due(SERVICE_RECONFIG_ACCESS)),
            Install::Query { at, .. } => Some(at.due()),
            Install::Save { at, current, .. } => Some(at.due(current)),
            Install::Change { binpath } => Some(change_due(binpath)),
            Install::Bounce { at } => Some(at.due()),
            Install::Finished { .. } => None,
        }
    }

    /// The state that the reply to the due call leads to.
    pub open spec fn next(self, reply: Reply<Seq<u16>>) -> Install<Seq<char>> {
        match self {
            Install::Open { at, program } => match at.next(reply) {
                Progress::Pending(at) => Install::Open { at, program },
                Progress::Done(Ok(true)) => match program {
                    Ok(program) => Install::Query { at: QueryPath::Size, binpath: program.binpath },
                    Err(_) => Install::Finished { exit_code: 1 },
                },
                Progress::Done(_) => Install::Finished { exit_code: 1 },
            },
            Install::Query { at, binpath } => match at.next(reply) {
                Progress::Pending(at) => Install::Query { at, binpath },
                Progress::Done(Ok(current)) => if is_own_binpath(current) {
                    Install::Change { binpath }
                } else {
                    Install::Save { at: SaveOriginal::CreateKey, current, binpath }
                },
                Progress::Done(Err(_)) => Install::Change { binpath },
            },
            Install::Save { at, current, binpath } => match at.next(reply) {
                Progress::Pending(at) => Install::Save { at, current, binpath },
                Progress::Done(Ok(())) => Install::Change { binpath },
                Progress::Done(Err(_)) => Install::Finished { exit_code: 1 },
            },
            Install::Change { .. } => if reply.ok {
                Install::Bounce { at: Bounce::RequestStop }
            } else {
                Install::Finished { exit_code: 1 }
            },
            Install::Bounce { at } => match at.next(reply) {
                Progress::Pending(at) => Install::Bounce { at },
                Progress::Done(()) => Install::Finished { exit_code: 0 },
            },
            Install::Finished { .. } => self,
        }
    }

    /// What there is to say about the reply to the due call.
    pub open spec fn said(self, reply: Reply<Seq<u16>>) -> Seq<InstallReport<Seq<char>>> {
        match self {
            Install::Open { at, program } => match at.next(reply) {
                Progress::Pending(_) => seq![],
                Progress::Done(Ok(true)) => match program {
                    Ok(program) => if is_user_path(program.exe) {
                        seq![InstallReport::InUserProfile(program.exe)]
                    } else {
                        seq![]
                    },
                    Err(e) => seq![InstallReport::ProgramUnknown(e)],
                },
                Progress::Done(Ok(false)) => seq![InstallReport::NotInstalled],
                Progress::Done(Err(e)) => if e.code() == Some(ERROR_ACCESS_DENIED) {
                    seq![InstallReport::AccessDenied]
                } else {
                    seq![InstallReport::OpenFailed(e)]
                },
            },
            Install::Query { at, .. } => match at.next(reply) {
                Progress::Pending(_) => seq![],
                Progress::Done(Ok(current)) => if is_own_binpath(current) {
                    seq![InstallReport::AlreadyOwn]
                } else {
                    seq![]
                },
                Progress::Done(Err(e)) => seq![InstallReport::PathUnreadable(e)],
            },
            Install::Save { at, current, .. } => match at.next(reply) {
                Progress::Pending(_) => seq![],
                Progress::Done(Ok(())) => seq![InstallReport::Saved(current)],
                Progress::Done(Err(e)) => seq![InstallReport::SaveFailed(e)],
            },
            Install::Change { binpath } => if reply.ok {
                seq![InstallReport::Repointed(binpath)]
            } else if reply.code == ERROR_ACCESS_DENIED {
                seq![InstallReport::ChangeDenied]
            } else {
                seq![InstallReport::ChangeFailed(OsError::Os(reply.code))]
            },
            Install::Bounce { at } => {
                let bounced = match at.said(reply) {
                    Some(report) => seq![InstallReport::Bounce(report)],
                    None => seq![],
                };
                if at.next(reply) is Done {
                    bounced.push(InstallReport::Installed)
                } else {
                    bounced
                }
            },
            Install::Finished { .. } => seq![],
        }
    }
}

impl Install<String> {
    /// The start of installing `exe`, or of failing to for want of its path, with further
    /// arguments for the service's command line.
    pub fn begin(exe: Result<String, OsError<String>>, extra_args: &[String]) -> (r: Self)
        ensures
            r@ == Install::start(
                match exe {
                    Ok(exe) => Ok(exe@),
                    Err(e) => Err(e@),
                },
                texts_of(extra_args@),
            ),
    {
        let program = match exe {
            Ok(exe) => {
                let binpath = build_binpath(exe.as_str(), extra_args);
                Ok(Program { exe, binpath })
            },
            Err(e) => Err(e),
        };
        Install::Open { at: OpenAmds::Manager, program }
    }

    /// The call that is due; none when all is done.
    pub fn call(&self) -> (r: Option<Call<Vec<u16>>>)
        ensures
            r is Some <==> self@.due() is Some,
            r matches Some(call) ==> Some(call@) == self@.due(),
    {
        match self {
            Install::Open { at, .. } => Some(at.call(SERVICE_RECONFIG_ACCESS)),
            Install::Query { at, .. } => Some(at.call()),
            Install::Save { at, current, .. } => Some(at.call(current.as_str())),
            Install::Change { binpath } => Some(change_call(binpath.as_str())),
            Install::Bounce { at } => Some(at.call()),
            Install::Finished { .. } => None,
        }
    }
}

/// Takes installing on with the reply to the call that is due, and gives what there is to say.
pub fn install_service(task: Install<String>, reply: Reply<Vec<u16>>) -> (r: (
    Install<String>,
    Vec<InstallReport<String>>,
))
    ensures
        r.0@ == task@.next(reply@),
        install_reports(r.1@) == task@.said(reply@),
{
    let mut reports: Vec<InstallReport<String>> = Vec::new();
    let next = match task {
        Install::Open { at, program } => match open_amds(at, &reply) {
            Progress::Pending(at) => Install::Open { at, program },
            Progress::Done(Ok(true)) => match program {
                Ok(program) => {
                    if is_in_user_profile(program.exe.as_str()) {
                        reports.push(InstallReport::InUserProfile(program.exe));
                    }
                    Install::Query { at: QueryPath::Size, binpath: program.binpath }
                },
                Err(e) => {
                    reports.push(InstallReport::ProgramUnknown(e));
                    Install::Finished { exit_code: 1 }
                },
            },
            Progress::Done(Ok(false)) => {
                reports.push(InstallReport::NotInstalled);
                Install::Finished { exit_code: 1 }
            },
            Progress::Done(Err(e)) => {
                if e.raw_os_error() == Some(ERROR_ACCESS_DENIED) {
                    reports.push(InstallReport::AccessDenied);
                } else {
                    reports.push(InstallReport::OpenFailed(e));
                }
                Install::Finished { exit_code: 1 }
            },
        },
        Install::Query { at, binpath } => match query_binary_path(at, &reply) {
            Progress::Pending(at) => Install::Query { at, binpath },
            Progress::Done(Ok(current)) => {
                if is_netmuxd_binpath(current.as_str()) {
                    reports.push(InstallReport::AlreadyOwn);
                    Install::Change { binpath }
                } else {
                    Install::Save { at: SaveOriginal::CreateKey, current, binpath }
                }
            },
            Progress::Done(Err(e)) => {
                reports.push(InstallReport::PathUnreadable(e));
                Install::Change { binpath }
            },
        },
        Install::Save { at, current, binpath } => match save_original(at, &reply) {
            Progress::Pending(at) => Install::Save { at, current, binpath },
            Progress::Done(Ok(())) => {
                reports.push(InstallReport::Saved(current));
                Install::Change { binpath }
            },
            // Stop here, so that the original is not lost.
            Progress::Done(Err(e)) => {
                reports.push(InstallReport::SaveFailed(e));
                Install::Finished { exit_code: 1 }
            },
        },
        Install::Change { binpath } => match set_binary_path(&reply) {
            Ok(()) => {
                reports.push(InstallReport::Repointed(binpath));
                Install::Bounce { at: Bounce::RequestStop }
            },
            Err(e) => {
                if e.raw_os_error() == Some(ERROR_ACCESS_DENIED) {
                    reports.push(InstallReport::ChangeDenied);
                } else {
                    reports.push(InstallReport::ChangeFailed(e));
                }
                Install::Finished { exit_code: 1 }
            },
        },
        Install::Bounce { at } => {
            let (progress, report) = bounce_service(at, &reply);
            if let Some(report) = report {
                reports.push(InstallReport::Bounce(report));
            }
            match progress {
                Progress::Pending(at) => Install::Bounce { at },
                Progress::Done(()) => {
                    reports.push(InstallReport::Installed);
                    Install::Finished { exit_code: 0 }
                },
            }
        },
        Install::Finished { exit_code } => Install::Finished { exit_code },
    };
    assert(install_reports(reports@) =~= task@.said(reply@));
    (next, reports)
}

/// The view of a state of installing is the same state, with the same texts.
pub proof fn law_install_view(task: Install<String>)
    ensures
        task matches Install::Open { at, program } ==> (task@ matches Install::Open {
            at: a,
            program: p,
        } && a == at && (program matches Ok(program) ==> (p matches Ok(m) && m.exe == program.exe@
            && m.binpath == program.binpath@)) && (program matches Err(e) ==> p
            == Err::<Program<Seq<char>>, _>(e@))),
        task matches Install::Query { at, binpath } ==> (task@ matches Install::Query {
            at: a,
            binpath: b,
        } && a == at && b == binpath@),
        task matches Install::Save { at, current, binpath } ==> (task@ matches Install::Save {
            at: a,
            current: c,
            binpath: b,
        } && a == at && c == current@ && b == binpath@),
        task matches Install::Change { binpath } ==> (task@ matches Install::Change { binpath: b } && b
            == binpath@),
        task matches Install::Bounce { at } ==> (task@ matches Install::Bounce { at: a } && a == at),
        task matches Install::Finished { exit_code } ==> (task@ matches Install::Finished {
            exit_code: c,
        } && c == exit_code),
{
}

/// The view of a report is the same report, with the same text or error.
pub proof fn law_install_report_view(reports: Seq<InstallReport<String>>, i: int)
    requires
        0 <= i < reports.len(),
    ensures
        install_reports(reports).len() == reports.len(),
        ({
            let r = reports[i];
            let m = install_reports(reports)[i];
            &&& r is NotInstalled <==> m is NotInstalled
            &&& r is AccessDenied <==> m is AccessDenied
            &&& r matches InstallReport::OpenFailed(e) ==> m == InstallReport::OpenFailed(e@)
            &&& r matches InstallReport::ProgramUnknown(e) ==> m == InstallReport::ProgramUnknown(e@)
            &&& r matches InstallReport::InUserProfile(t) ==> m == InstallReport::InUserProfile(t@)
            &&& r is AlreadyOwn <==> m is AlreadyOwn
            &&& r matches InstallReport::SaveFailed(e) ==> m == InstallReport::SaveFailed(e@)
            &&& r matches InstallReport::Saved(t) ==> m == InstallReport::Saved(t@)
            &&& r matches InstallReport::PathUnreadable(e) ==> m == InstallReport::PathUnreadable(e@)
            &&& r is ChangeDenied <==> m is ChangeDenied
            &&& r matches InstallReport::ChangeFailed(e) ==> m == InstallReport::ChangeFailed(e@)
            &&& r matches InstallReport::Repointed(t) ==> m == InstallReport::Repointed(t@)
            &&& r matches InstallReport::Bounce(b) ==> m == InstallReport::<Seq<char>>::Bounce(b)
            &&& r is Installed <==> m is Installed
        }),
{
}

} // verus!
