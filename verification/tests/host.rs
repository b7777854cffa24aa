use netmuxd::service::calls::Reply;
use netmuxd::service::host::{
    report, run_as_service, service_ctrl_handler, service_main, ControlResponse, HostCall,
    RunAsService, RunsDirectly, ServiceMain, StatusReport,
};
use netmuxd::utf16::wide;

fn status(state: u32, controls_accepted: u32, wait_hint: u32) -> StatusReport {
    StatusReport { state, controls_accepted, wait_hint }
}

#[test]
fn report_needs_a_handle() {
    assert_eq!(report(0, status(4, 5, 0)), None);
    let s = report(7, status(2, 5, 3000)).unwrap();
    assert_eq!(s.dw_service_type, 0x10);
    assert_eq!(s.dw_current_state, 2);
    assert_eq!(s.dw_controls_accepted, 5);
    assert_eq!(s.dw_wait_hint, 3000);
    assert_eq!((s.dw_win32_exit_code, s.dw_service_specific_exit_code, s.dw_check_point), (0, 0, 0));
}

#[test]
fn controls_are_answered() {
    for control in [1, 5] {
        assert_eq!(
            service_ctrl_handler(control),
            ControlResponse::Stop {
                now: status(3, 0, 3000),
                delay_millis: 200,
                then: status(1, 0, 0),
                exit_code: 0,
            }
        );
    }
    assert_eq!(service_ctrl_handler(4), ControlResponse::Answer(status(4, 5, 0)));
    assert_eq!(service_ctrl_handler(2), ControlResponse::Ignore);
}

#[test]
fn service_main_reports_its_life() {
    let name = wide("Apple Mobile Device Service");
    for daemon in [true, false] {
        let mut at = ServiceMain::Register { daemon };
        let mut calls = Vec::new();
        while let Some(call) = at.call() {
            calls.push(call);
            at = service_main(at, true);
        }
        let mut expected = vec![
            HostCall::RegisterHandler { name: name.clone() },
            HostCall::Report(status(2, 0, 3000)),
            HostCall::Report(status(4, 5, 0)),
        ];
        if daemon {
            expected.push(HostCall::RunDaemon);
        }
        expected.push(HostCall::Report(status(1, 0, 0)));
        assert_eq!(calls, expected);
    }
    assert_eq!(service_main(ServiceMain::Register { daemon: true }, false), ServiceMain::Finished);
}

#[test]
fn daemon_runs_without_the_manager() {
    let failed = |code| Reply { ok: false, code, value: 0, units: None };
    assert_eq!(
        RunAsService::Dispatch.call(),
        Some(HostCall::StartDispatcher { name: wide("Apple Mobile Device Service") })
    );
    assert_eq!(
        run_as_service(RunAsService::Dispatch, &failed(1063)),
        (RunAsService::RunDirectly, Some(RunsDirectly::NotUnderManager))
    );
    assert_eq!(
        run_as_service(RunAsService::Dispatch, &failed(6)),
        (RunAsService::RunDirectly, Some(RunsDirectly::DispatcherFailed(6)))
    );
    assert_eq!(RunAsService::RunDirectly.call(), Some(HostCall::RunDaemon));
    let ok = Reply { ok: true, code: 0, value: 0, units: None };
    assert_eq!(run_as_service(RunAsService::Dispatch, &ok), (RunAsService::Finished, None));
    assert_eq!(run_as_service(RunAsService::RunDirectly, &ok), (RunAsService::Finished, None));
    assert_eq!(RunAsService::Finished.call(), None);
}
