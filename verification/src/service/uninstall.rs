//! Putting Apple's ImagePath back.
use crate::service::bounce::{bounce_service, Bounce, BounceReport};
use crate::service::calls::{
    Call, OsError, Progress, Reply, ERROR_ACCESS_DENIED, SERVICE_RECONFIG_ACCESS,
};
use crate::service::manager::{change_call, change_due, open_amds, set_binary_path, OpenAmds};
use crate::service::registry::{delete_original, load_original, DeleteOriginal, LoadOriginal};
use vstd::prelude::*;

verus! {

/// Where uninstalling has got to. `S` is a string, or in the model its text.
#[allow(inconsistent_fields)]
#[derive(Debug, PartialEq, Eq)]
pub enum Uninstall<S> {
    /// Loading the saved ImagePath.
    Load { at: LoadOriginal },
    /// Opening the service.
    Open { at: OpenAmds, original: S },
    /// Changing the ImagePath.
    Change { original: S },
    /// Bouncing the service.
    Bounce { at: Bounce },
    /// Deleting the saved ImagePath.
    Delete { at: DeleteOriginal },
    /// Done.
    Finished { exit_code: i32 },
}

/// What there is to say while Apple's ImagePath is put back.
#[derive(Debug, PartialEq, Eq)]
pub enum UninstallReport<S> {
    /// There is no saved ImagePath.
    NothingSaved,
    /// The saved ImagePath could not be read.
    LoadFailed(OsError<S>),
    /// The service is not installed on this machine.
    NotInstalled,
    /// The service may not be opened by this account.
    AccessDenied,
    /// The service could not be opened.
    OpenFailed(OsError<S>),
    /// The ImagePath could not be put back.
    RestoreFailed(OsError<S>),
    /// The ImagePath is back.
    Restored(S),
    /// The service is being bounced.
    Bounce(BounceReport),
    /// All is done.
    Uninstalled,
}

impl View for UninstallReport<String> {
    type V = UninstallReport<Seq<char>>;

    open spec fn view(&self) -> UninstallReport<Seq<char>> {
        match *self {
            UninstallReport::NothingSaved => UninstallReport::NothingSaved,
            UninstallReport::LoadFailed(e) => UninstallReport::LoadFailed(e@),
            UninstallReport::NotInstalled => UninstallReport::NotInstalled,
            UninstallReport::AccessDenied => UninstallReport::AccessDenied,
            UninstallReport::OpenFailed(e) => UninstallReport::OpenFailed(e@),
            UninstallReport::RestoreFailed(e) => UninstallReport::RestoreFailed(e@),
            UninstallReport::Restored(path) => UninstallReport::Restored(path@),
            UninstallReport::Bounce(report) => UninstallReport::Bounce(report),
            UninstallReport::Uninstalled => UninstallReport::Uninstalled,
        }
    }
}

/// The models of a list of reports.
pub open spec fn uninstall_reports(reports: Seq<UninstallReport<String>>) -> Seq<
    UninstallReport<Seq<char>>,
> {
    reports.map_values(|r: UninstallReport<String>| r@)
}

impl View for Uninstall<String> {
    type V = Uninstall<Seq<char>>;

    open spec fn view(&self) -> Uninstall<Seq<char>> {
        match *self {
            Uninstall::Load { at } => Uninstall::Load { at },
            Uninstall::Open { at, original } => Uninstall::Open { at, original: original@ },
            Uninstall::Change { original } => Uninstall::Change { original: original@ },
            Uninstall::Bounce { at } => Uninstall::Bounce { at },
            Uninstall::Delete { at } => Uninstall::Delete { at },
            Uninstall::Finished { exit_code } => Uninstall::Finished { exit_code },
        }
    }
}

impl Uninstall<Seq<char>> {
    /// The start of uninstalling.
    pub open spec fn start() -> Uninstall<Seq<char>> {
        Uninstall::Load { at: LoadOriginal::OpenKey }
    }

    /// The call that is due; none when all is done.
    pub open spec fn due(self) -> Option<Call<Seq<u16>>> {
        match self {
            Uninstall::Load { at } => Some(at.due()),
            Uninstall::Open { at, .. } => Some(at.due(SERVICE_RECONFIG_ACCESS)),
            Uninstall::Change { original } => Some(change_due(original)),
            Uninstall::Bounce { at } => Some(at.due()),
            Uninstall::Delete { at } => Some(at.due()),
            Uninstall::Finished { .. } => None,
        }
    }

    /// The state that the reply to the due call leads to.
    pub open spec fn next(self, reply: Reply<Seq<u16>>) -> Uninstall<Seq<char>> {
        match self {
            Uninstall::Load { at } => match at.next(reply) {
                Progress::Pending(at) => Uninstall::Load { at },
                Progress::Done(Ok(Some(original))) => Uninstall::Open {
                    at: OpenAmds::Manager,
                    original,
                },
                Progress::Done(_) => Uninstall::Finished { exit_code: 1 },
            },
            Uninstall::Open { at, original } => match at.next(reply) {
                Progress::Pending(at) => Uninstall::Open { at, original },
                Progress::Done(Ok(true)) => Uninstall::Change { original },
                Progress::Done(_) => Uninstall::Finished { exit_code: 1 },
            },
            Uninstall::Change { .. } => if reply.ok {
                Uninstall::Bounce { at: Bounce::RequestStop }
            } else {
                Uninstall::Finished { exit_code: 1 }
            },
            Uninstall::Bounce { at } => match at.next(reply) {
                Progress::Pending(at) => Uninstall::Bounce { at },
                Progress::Done(()) => Uninstall::Delete { at: DeleteOriginal::OpenKey },
            },
            Uninstall::Delete { at } => match at.next(reply) {
                Progress::Pending(at) => Uninstall::Delete { at },
                Progress::Done(()) => Uninstall::Finished { exit_code: 0 },
            },
            Uninstall::Finished { .. } => self,
        }
    }

    /// What there is to say about the reply to the due call.
    pub open spec fn said(self, reply: Reply<Seq<u16>>) -> Seq<UninstallReport<Seq<char>>> {
        match self {
            Uninstall::Load { at } => match at.next(reply) {
                Progress::Done(Ok(None)) => seq![UninstallReport::NothingSaved],
                Progress::Done(Err(e)) => seq![UninstallReport::LoadFailed(e)],
                _ => seq![],
            },
            Uninstall::Open { at, .. } => match at.next(reply) {
                Progress::Done(Ok(false)) => seq![UninstallReport::NotInstalled],
                Progress::Done(Err(e)) => if e.code() == Some(ERROR_ACCESS_DENIED) {
                    seq![UninstallReport::AccessDenied]
                } else {
                    seq![UninstallReport::OpenFailed(e)]
                },
                _ => seq![],
            },
            Uninstall::Change { original } => if reply.ok {
                seq![UninstallReport::Restored(original)]
            } else {
                seq![UninstallReport::RestoreFailed(OsError::Os(reply.code))]
            },
            Uninstall::Bounce { at } => match at.said(reply) {
                Some(report) => seq![UninstallReport::Bounce(report)],
                None => seq![],
            },
            Uninstall::Delete { at } => if at.next(reply) is Done {
                seq![UninstallReport::Uninstalled]
            } else {
                seq![]
            },
            Uninstall::Finished { .. } => seq![],
        }
    }
}

impl Uninstall<String> {
    /// The start of uninstalling.
    pub fn begin() -> (r: Self)
        ensures
            r@ == Uninstall::start(),
    {
        Uninstall::Load { at: LoadOriginal::OpenKey }
    }

    /// The call that is due; none when all is done.
    pub fn call(&self) -> (r: Option<Call<Vec<u16>>>)
        ensures
            r is Some <==> self@.due() is Some,
            r matches Some(call) ==> Some(call@) == self@.due(),
    {
        match self {
            Uninstall::Load { at } => Some(at.call()),
            Uninstall::Open { at, .. } => Some(at.call(SERVICE_RECONFIG_ACCESS)),
            Uninstall::Change { original } => Some(change_call(original.as_str())),
            Uninstall::Bounce { at } => Some(at.call()),
            Uninstall::Delete { at } => Some(at.call()),
            Uninstall::Finished { .. } => None,
        }
    }
}

/// Takes uninstalling on with the reply to the call that is due, and gives what there is to say.
pub fn uninstall_service(task: Uninstall<String>, reply: Reply<Vec<u16>>) -> (r: (
    Uninstall<String>,
    Vec<UninstallReport<String>>,
))
    ensures
        r.0@ == task@.next(reply@),
        uninstall_reports(r.1@) == task@.said(reply@),
{
    let mut reports: Vec<UninstallReport<String>> = Vec::new();
    let next = match task {
        Uninstall::Load { at } => match load_original(at, reply) {
            Progress::Pending(at) => Uninstall::Load { at },
            Progress::Done(Ok(Some(original))) => {
                Uninstall::Open { at: OpenAmds::Manager, original }
            },
            Progress::Done(Ok(None)) => {
                reports.push(UninstallReport::NothingSaved);
                Uninstall::Finished { exit_code: 1 }
            },
            Progress::Done(Err(e)) => {
                reports.push(UninstallReport::LoadFailed(e));
                Uninstall::Finished { exit_code: 1 }
            },
        },
        Uninstall::Open { at, original } => match open_amds(at, &reply) {
            Progress::Pending(at) => Uninstall::Open { at, original },
            Progress::Done(Ok(true)) => Uninstall::Change { original },
            Progress::Done(Ok(false)) => {
                reports.push(UninstallReport::NotInstalled);
                Uninstall::Finished { exit_code: 1 }
            },
            Progress::Done(Err(e)) => {
                if e.raw_os_error() == Some(ERROR_ACCESS_DENIED) {
                    reports.push(UninstallReport::AccessDenied);
                } else {
                    reports.push(UninstallReport::OpenFailed(e));
                }
                Uninstall::Finished { exit_code: 1 }
            },
        },
        Uninstall::Change { original } => match set_binary_path(&reply) {
            Ok(()) => {
                reports.push(UninstallReport::Restored(original));
                Uninstall::Bounce { at: Bounce::RequestStop }
            },
            Err(e) => {
                reports.push(UninstallReport::RestoreFailed(e));
                Uninstall::Finished { exit_code: 1 }
            },
        },
        Uninstall::Bounce { at } => {
            let (progress, report) = bounce_service(at, &reply);
            if let Some(report) = report {
                reports.push(UninstallReport::Bounce(report));
            }
            match progress {
                Progress::Pending(at) => Uninstall::Bounce { at },
                Progress::Done(()) => Uninstall::Delete { at: DeleteOriginal::OpenKey },
            }
        },
        Uninstall::Delete { at } => match delete_original(at, &reply) {
            Progress::Pending(at) => Uninstall::Delete { at },
            Progress::Done(()) => {
                reports.push(UninstallReport::Uninstalled);
                Uninstall::Finished { exit_code: 0 }
            },
        },
        Uninstall::Finished { exit_code } => Uninstall::Finished { exit_code },
    };
    assert(uninstall_reports(reports@) =~= task@.said(reply@));
    (next, reports)
}

/// The view of a state of uninstalling is the same state, with the same text.
pub proof fn law_uninstall_view(task: Uninstall<String>)
    ensures
        task matches Uninstall::Load { at } ==> (task@ matches Uninstall::Load { at: a } && a == at),
        task matches Uninstall::Open { at, original } ==> (task@ matches Uninstall::Open {
            at: a,
            original: o,
        } && a == at && o == original@),
        task matches Uninstall::Change { original } ==> (task@ matches Uninstall::Change { original: o }
            && o == original@),
        task matches Uninstall::Bounce { at } ==> (task@ matches Uninstall::Bounce { at: a } && a
            == at),
        task matches Uninstall::Delete { at } ==> (task@ matches Uninstall::Delete { at: a } && a
            == at),
        task matches Uninstall::Finished { exit_code } ==> (task@ matches Uninstall::Finished {
            exit_code: c,
        } && c == exit_code),
{
}

/// The view of a report is the same report, with the same text or error.
pub proof fn law_uninstall_report_view(reports: Seq<UninstallReport<String>>, i: int)
    requires
        0 <= i < reports.len(),
    ensures
        uninstall_reports(reports).len() == reports.len(),
        ({
            let r = reports[i];
            let m = uninstall_reports(reports)[i];
            &&& r is NothingSaved <==> m is NothingSaved
            &&& r matches UninstallReport::LoadFailed(e) ==> m == UninstallReport::LoadFailed(e@)
            &&& r is NotInstalled <==> m is NotInstalled
            &&& r is AccessDenied <==> m is AccessDenied
            &&& r matches UninstallReport::OpenFailed(e) ==> m == UninstallReport::OpenFailed(e@)
            &&& r matches UninstallReport::RestoreFailed(e) ==> m == UninstallReport::RestoreFailed(e@)
            &&& r matches UninstallReport::Restored(t) ==> m == UninstallReport::Restored(t@)
            &&& r matches UninstallReport::Bounce(b) ==> m == UninstallReport::<Seq<char>>::Bounce(b)
            &&& r is Uninstalled <==> m is Uninstalled
        }),
{
}

} // verus!
