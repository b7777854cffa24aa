//! Running under the Service Control Manager.
use crate::service::calls::{
    status_of, Reply, ServiceStatus, AMDS_SERVICE_NAME, ERROR_FAILED_SERVICE_CONTROLLER_CONNECT,
    SERVICE_ACCEPT_SHUTDOWN, SERVICE_ACCEPT_STOP, SERVICE_CONTROL_INTERROGATE,
    SERVICE_CONTROL_SHUTDOWN, SERVICE_CONTROL_STOP, SERVICE_RUNNING, SERVICE_START_PENDING,
    SERVICE_STOPPED, SERVICE_STOP_PENDING, SERVICE_WIN32_OWN_PROCESS,
};
use crate::utf16::{wide, wide_of};
use vstd::prelude::*;

verus! {

/// The controls that the running service accepts.
pub const ACCEPTED_CONTROLS: u32 = SERVICE_ACCEPT_STOP | SERVICE_ACCEPT_SHUTDOWN;

/// How long a pending start or stop may take, in milliseconds.
pub const PENDING_HINT_MILLIS: u32 = 3000;

/// How long the process stays after a stop was asked for, so that the handler can return to the
/// manager first.
pub const STOP_DELAY_MILLIS: u64 = 200;

/// A state of the service to be reported to the manager.
#[derive(Clone, Copy, Debug, PartialEq, Eq, Structural)]
pub struct StatusReport {
    pub state: u32,
    pub controls_accepted: u32,
    pub wait_hint: u32,
}

/// The report of a running service.
pub open spec fn running() -> StatusReport {
    StatusReport { state: SERVICE_RUNNING, controls_accepted: ACCEPTED_CONTROLS, wait_hint: 0 }
}

/// The report of a stopped service.
pub open spec fn stopped() -> StatusReport {
    StatusReport { state: SERVICE_STOPPED, controls_accepted: 0, wait_hint: 0 }
}

/// The report of a service that is on its way to a state.
pub open spec fn pending(state: u32) -> StatusReport {
    StatusReport { state, controls_accepted: 0, wait_hint: PENDING_HINT_MILLIS }
}

/// Whether a report gives a state, the controls that are accepted in it, and how long to wait for what
/// comes next, in milliseconds.
pub open spec fn says(report: StatusReport, state: u32, controls: u32, hint: u32) -> bool {
    report.state == state && report.controls_accepted == controls && report.wait_hint == hint
}

/// The status to set for a report; none while there is no handle to set it on.
pub fn report(handle: usize, status: StatusReport) -> (r: Option<ServiceStatus>)
    ensures
        r == (if handle == 0 {
            None
        } else {
            Some(status_of(status.state, status.controls_accepted, status.wait_hint))
        }),
        r is None <==> handle == 0,
        r matches Some(s) ==> {
            &&& s.dw_service_type == 0x10
            &&& s.dw_current_state == status.state
            &&& s.dw_controls_accepted == status.controls_accepted
            &&& s.dw_win32_exit_code == 0
            &&& s.dw_service_specific_exit_code == 0
            &&& s.dw_check_point == 0
            &&& s.dw_wait_hint == status.wait_hint
        },
{
    if handle == 0 {
        return None;
    }
    Some(
        ServiceStatus {
            dw_service_type: SERVICE_WIN32_OWN_PROCESS,
            dw_current_state: status.state,
            dw_controls_accepted: status.controls_accepted,
            dw_win32_exit_code: 0,
            dw_service_specific_exit_code: 0,
            dw_check_point: 0,
            dw_wait_hint: status.wait_hint,
        },
    )
}

/// What is done about a control code.
#[derive(Clone, Copy, Debug, PartialEq, Eq, Structural)]
pub enum ControlResponse {
    /// Report `now`; then, on a thread of its own, wait, report `then`, and end the process.
    Stop { now: StatusReport, delay_millis: u64, then: StatusReport, exit_code: i32 },
    /// Report, and nothing else.
    Answer(StatusReport),
    /// Nothing.
    Ignore,
}

/// What is done about a control code that the manager delivers.
pub fn service_ctrl_handler(control: u32) -> (r: ControlResponse)
    ensures
        r == (if control == SERVICE_CONTROL_STOP || control == SERVICE_CONTROL_SHUTDOWN {
            ControlResponse::Stop {
                now: pending(SERVICE_STOP_PENDING),
                delay_millis: STOP_DELAY_MILLIS,
                then: stopped(),
                exit_code: 0,
            }
        } else if control == SERVICE_CONTROL_INTERROGATE {
            ControlResponse::Answer(running())
        } else {
            ControlResponse::Ignore
        }),
        control == 1 || control == 5 <==> r is Stop,
        r matches ControlResponse::Stop { now, delay_millis, then, exit_code } ==> {
            &&& says(now, 3, 0, 3000)
            &&& delay_millis == 200
            &&& says(then, 1, 0, 0)
            &&& exit_code == 0
        },
        control == 4 <==> r is Answer,
        r matches ControlResponse::Answer(status) ==> says(status, 4, 5, 0),
{
    assert(1u32 | 4u32 == 5u32) by (bit_vector);
    match control {
        SERVICE_CONTROL_STOP | SERVICE_CONTROL_SHUTDOWN => ControlResponse::Stop {
            now: StatusReport {
                state: SERVICE_STOP_PENDING,
                controls_accepted: 0,
                wait_hint: PENDING_HINT_MILLIS,
            },
            delay_millis: STOP_DELAY_MILLIS,
            then: StatusReport { state: SERVICE_STOPPED, controls_accepted: 0, wait_hint: 0 },
            exit_code: 0,
        },
        SERVICE_CONTROL_INTERROGATE => ControlResponse::Answer(
            StatusReport {
                state: SERVICE_RUNNING,
                controls_accepted: ACCEPTED_CONTROLS,
                wait_hint: 0,
            },
        ),
        _ => ControlResponse::Ignore,
    }
}

/// Something to do as a service. `W` is a wide string.
#[derive(Debug, PartialEq, Eq)]
pub enum HostCall<W> {
    /// `StartServiceCtrlDispatcherW` with this service alone.
    StartDispatcher { name: W },
    /// `RegisterServiceCtrlHandlerW`.
    RegisterHandler { name: W },
    /// Report to the manager.
    Report(StatusReport),
    /// Run the daemon, for as long as it runs.
    RunDaemon,
}

impl View for HostCall<Vec<u16>> {
    type V = HostCall<Seq<u16>>;

    open spec fn view(&self) -> HostCall<Seq<u16>> {
        match *self {
            HostCall::StartDispatcher { name } => HostCall::StartDispatcher { name: name@ },
            HostCall::RegisterHandler { name } => HostCall::RegisterHandler { name: name@ },
            HostCall::Report(report) => HostCall::Report(report),
            HostCall::RunDaemon => HostCall::RunDaemon,
        }
    }
}

/// Where the main function of the service has got to. Until the daemon runs, the states hold
/// whether there is one to be run.
#[derive(Clone, Copy, Debug, PartialEq, Eq, Structural)]
pub enum ServiceMain {
    Register { daemon: bool },
    ReportStarting { daemon: bool },
    ReportRunning { daemon: bool },
    Run,
    ReportStopped,
    Finished,
}

impl ServiceMain {
    /// What is due; nothing when all is done.
    pub open spec fn due(self) -> Option<HostCall<Seq<u16>>> {
        match self {
            ServiceMain::Register { .. } => Some(
                HostCall::RegisterHandler { name: wide_of(AMDS_SERVICE_NAME@) },
            ),
            ServiceMain::ReportStarting { .. } => Some(
                HostCall::Report(pending(SERVICE_START_PENDING)),
            ),
            ServiceMain::ReportRunning { .. } => Some(HostCall::Report(running())),
            ServiceMain::Run => Some(HostCall::RunDaemon),
            ServiceMain::ReportStopped => Some(HostCall::Report(stopped())),
            ServiceMain::Finished => None,
        }
    }

    /// The state that comes next, where `ok` is whether what was due has succeeded.
    pub open spec fn next(self, ok: bool) -> ServiceMain {
        match self {
            ServiceMain::Register { daemon } => if ok {
                ServiceMain::ReportStarting { daemon }
            } else {
                ServiceMain::Finished
            },
            ServiceMain::ReportStarting { daemon } => ServiceMain::ReportRunning { daemon },
            ServiceMain::ReportRunning { daemon } => if daemon {
                ServiceMain::Run
            } else {
                ServiceMain::ReportStopped
            },
            ServiceMain::Run => ServiceMain::ReportStopped,
            ServiceMain::ReportStopped => ServiceMain::Finished,
            ServiceMain::Finished => ServiceMain::Finished,
        }
    }

    /// What is due; nothing when all is done.
    pub fn call(&self) -> (r: Option<HostCall<Vec<u16>>>)
        ensures
            r is Some <==> self.due() is Some,
            r matches Some(call) ==> Some(call@) == self.due(),
            self is Register ==> (r matches Some(HostCall::RegisterHandler { name }) && name@
                == wide_of("Apple Mobile Device Service"@)),
            self is ReportStarting ==> (r matches Some(HostCall::Report(s)) && says(s, 2, 0, 3000)),
            self is ReportRunning ==> (r matches Some(HostCall::Report(s)) && says(s, 4, 5, 0)),
            self is Run ==> (r matches Some(HostCall::RunDaemon)),
            self is ReportStopped ==> (r matches Some(HostCall::Report(s)) && says(s, 1, 0, 0)),
            self is Finished ==> r is None,
    {
        assert(1u32 | 4u32 == 5u32) by (bit_vector);
        match self {
            ServiceMain::Register { .. } => Some(
                HostCall::RegisterHandler { name: wide(AMDS_SERVICE_NAME) },
            ),
            ServiceMain::ReportStarting { .. } => Some(
                HostCall::Report(
                    StatusReport {
                        state: SERVICE_START_PENDING,
                        controls_accepted: 0,
                        wait_hint: PENDING_HINT_MILLIS,
                    },
                ),
            ),
            ServiceMain::ReportRunning { .. } => Some(
                HostCall::Report(
                    StatusReport {
                        state: SERVICE_RUNNING,
                        controls_accepted: ACCEPTED_CONTROLS,
                        wait_hint: 0,
                    },
                ),
            ),
            ServiceMain::Run => Some(HostCall::RunDaemon),
            ServiceMain::ReportStopped => Some(
                HostCall::Report(
                    StatusReport { state: SERVICE_STOPPED, controls_accepted: 0, wait_hint: 0 },
                ),
            ),
            ServiceMain::Finished => None,
        }
    }
}

/// Takes the main function of the service on, where `ok` is whether what was due has succeeded.
/// Only a handler that could not be registered stops it early.
pub fn service_main(at: ServiceMain, ok: bool) -> (r: ServiceMain)
    ensures
        r == at.next(ok),
        r is ReportStarting <==> at is Register && ok,
        r is ReportRunning <==> at is ReportStarting,
        r matches ServiceMain::ReportStarting { daemon } ==> at == (ServiceMain::Register { daemon }),
        r matches ServiceMain::ReportRunning { daemon } ==> at == (ServiceMain::ReportStarting {
            daemon,
        }),
        r is Run <==> (at matches ServiceMain::ReportRunning { daemon } && daemon),
        r is ReportStopped <==> at is Run || (at matches ServiceMain::ReportRunning { daemon }
            && !daemon),
{
    match at {
        ServiceMain::Register { daemon } => {
            if !ok {
                return ServiceMain::Finished;
            }
            ServiceMain::ReportStarting { daemon }
        },
        ServiceMain::ReportStarting { daemon } => ServiceMain::ReportRunning { daemon },
        ServiceMain::ReportRunning { daemon } => {
            if daemon {
                // Blocks for the life of the service.
                ServiceMain::Run
            } else {
                ServiceMain::ReportStopped
            }
        },
        ServiceMain::Run => ServiceMain::ReportStopped,
        ServiceMain::ReportStopped => ServiceMain::Finished,
        ServiceMain::Finished => ServiceMain::Finished,
    }
}

/// Why the daemon runs without the manager.
#[derive(Clone, Copy, Debug, PartialEq, Eq, Structural)]
pub enum RunsDirectly {
    /// The program was not launched by the manager.
    NotUnderManager,
    /// The dispatcher failed for some other reason.
    DispatcherFailed(i32),
}

/// Where running as a service has got to.
#[derive(Clone, Copy, Debug, PartialEq, Eq, Structural)]
pub enum RunAsService {
    Dispatch,
    RunDirectly,
    Finished,
}

impl RunAsService {
    /// What is due; nothing when all is done.
    pub open spec fn due(self) -> Option<HostCall<Seq<u16>>> {
        match self {
            RunAsService::Dispatch => Some(
                HostCall::StartDispatcher { name: wide_of(AMDS_SERVICE_NAME@) },
            ),
            RunAsService::RunDirectly => Some(HostCall::RunDaemon),
            RunAsService::Finished => None,
        }
    }

    /// The state that the reply to what was due leads to.
    pub open spec fn next(self, reply: Reply<Seq<u16>>) -> RunAsService {
        if self is Dispatch && !reply.ok {
            RunAsService::RunDirectly
        } else {
            RunAsService::Finished
        }
    }

    /// What there is to say about the reply to what was due.
    pub open spec fn said(self, reply: Reply<Seq<u16>>) -> Option<RunsDirectly> {
        if self is Dispatch && !reply.ok {
            if reply.code == ERROR_FAILED_SERVICE_CONTROLLER_CONNECT {
                Some(RunsDirectly::NotUnderManager)
            } else {
                Some(RunsDirectly::DispatcherFailed(reply.code))
            }
        } else {
            None
        }
    }

    /// What is due; nothing when all is done.
    pub fn call(&self) -> (r: Option<HostCall<Vec<u16>>>)
        ensures
            r is Some <==> self.due() is Some,
            r matches Some(call) ==> Some(call@) == self.due(),
            self is Dispatch ==> (r matches Some(HostCall::StartDispatcher { name }) && name@
                == wide_of("Apple Mobile Device Service"@)),
            self is RunDirectly ==> (r matches Some(HostCall::RunDaemon)),
            self is Finished ==> r is None,
    {
        match self {
            RunAsService::Dispatch => Some(
                HostCall::StartDispatcher { name: wide(AMDS_SERVICE_NAME) },
            ),
            RunAsService::RunDirectly => Some(HostCall::RunDaemon),
            RunAsService::Finished => None,
        }
    }
}

/// Takes running as a service on with the reply to what was due. The dispatcher calls the main
/// function of the service and blocks until the service stops. If it fails, the daemon runs
/// directly, so that it is still usable from a console.
pub fn run_as_service(at: RunAsService, reply: &Reply<Vec<u16>>) -> (r: (
    RunAsService,
    Option<RunsDirectly>,
))
    ensures
        r.0 == at.next(reply@),
        r.1 == at.said(reply@),
        r.0 is RunDirectly <==> at is Dispatch && !reply.ok,
        r.0 is Finished <==> !(at is Dispatch && !reply.ok),
        r.1 is Some <==> at is Dispatch && !reply.ok,
        r.1 matches Some(reason) ==> reason == (if reply.code == 1063 {
            RunsDirectly::NotUnderManager
        } else {
            RunsDirectly::DispatcherFailed(reply.code)
        }),
{
    match at {
        RunAsService::Dispatch => {
            if reply.ok {
                return (RunAsService::Finished, None);
            }
            let reason = if reply.code == ERROR_FAILED_SERVICE_CONTROLLER_CONNECT {
                RunsDirectly::NotUnderManager
            } else {
                RunsDirectly::DispatcherFailed(reply.code)
            };
            (RunAsService::RunDirectly, Some(reason))
        },
        RunAsService::RunDirectly => (RunAsService::Finished, None),
        RunAsService::Finished => (RunAsService::Finished, None),
    }
}

/// Whenever the dispatcher fails, for whatever reason, the daemon is run directly, once.
pub proof fn law_daemon_runs_without_manager(
    dispatched: Reply<Seq<u16>>,
    ran: Reply<Seq<u16>>,
)
    ensures
        !dispatched.ok ==> {
            let direct = RunAsService::Dispatch.next(dispatched);
            &&& direct.due() == Some(HostCall::<Seq<u16>>::RunDaemon)
            &&& direct.next(ran).due() is None
        },
        dispatched.ok ==> RunAsService::Dispatch.next(dispatched).due() is None,
{
}

/// A registered service reports that it starts and that it runs, then runs the daemon if there
/// is one, and then reports that it has stopped, whatever becomes of the reports.
pub proof fn law_service_reports_its_life(daemon: bool, a: bool, b: bool, c: bool, d: bool)
    ensures
        ({
            let starting = (ServiceMain::Register { daemon }).next(true);
            let up = starting.next(a);
            let run = up.next(b);
            let down = if daemon {
                run.next(c)
            } else {
                run
            };
            &&& starting.due() == Some(HostCall::<Seq<u16>>::Report(pending(SERVICE_START_PENDING)))
            &&& up.due() == Some(HostCall::<Seq<u16>>::Report(running()))
            &&& daemon ==> run.due() == Some(HostCall::<Seq<u16>>::RunDaemon)
            &&& down.due() == Some(HostCall::<Seq<u16>>::Report(stopped()))
            &&& down.next(d).due() is None
        }),
{
}

/// A service that could not be registered reports nothing and runs nothing.
pub proof fn law_unregistered_service_is_silent(daemon: bool)
    ensures
        (ServiceMain::Register { daemon }).next(false).due() is None,
{
}

/// A status tells the manager just what was to be reported, of a service that runs in a process of its
/// own and has met no error.
pub proof fn law_status_is_what_was_reported(state: u32, controls: u32, hint: u32)
    ensures
        ({
            let s = status_of(state, controls, hint);
            &&& s.dw_service_type == 0x10
            &&& s.dw_current_state == state
            &&& s.dw_controls_accepted == controls
            &&& s.dw_win32_exit_code == 0
            &&& s.dw_service_specific_exit_code == 0
            &&& s.dw_check_point == 0
            &&& s.dw_wait_hint == hint
        }),
{
}

/// The life of a registered service, as the manager hears of it: starting, with three seconds to wait;
/// running, and accepting stop (1) and shutdown (4); and, when the daemon has run, stopped. Reports
/// that fail change nothing about it.
pub proof fn law_manager_hears_of_life(daemon: bool, a: bool, b: bool, c: bool, d: bool)
    ensures
        ({
            let start = ServiceMain::Register { daemon };
            let starting = start.next(true);
            let up = starting.next(a);
            let down = if daemon {
                up.next(b).next(c)
            } else {
                up.next(b)
            };
            &&& start.due() matches Some(HostCall::RegisterHandler { name }) && name == wide_of(
                "Apple Mobile Device Service"@,
            )
            &&& starting.due() matches Some(HostCall::Report(s)) && says(s, 2, 0, 3000)
            &&& up.due() matches Some(HostCall::Report(s)) && says(s, 4, 5, 0)
            &&& daemon ==> (up.next(b).due() matches Some(HostCall::RunDaemon))
            &&& down.due() matches Some(HostCall::Report(s)) && says(s, 1, 0, 0)
            &&& down.next(d).due() is None
            &&& start.next(false).due() is None
        }),
{
    assert(1u32 | 4u32 == 5u32) by (bit_vector);
}

/// The view of what is to be done as a service has the same kind and the same contents.
pub proof fn law_host_call_view(call: HostCall<Vec<u16>>)
    ensures
        call matches HostCall::StartDispatcher { name } ==> (call@ matches HostCall::StartDispatcher {
            name: model,
        } && model == name@),
        call matches HostCall::RegisterHandler { name } ==> (call@ matches HostCall::RegisterHandler {
            name: model,
        } && model == name@),
        call matches HostCall::Report(status) ==> (call@ matches HostCall::Report(model) && model
            == status),
        call is RunDaemon <==> call@ is RunDaemon,
{
}

} // verus!
