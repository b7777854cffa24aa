use netmuxd::service::bounce::{
    bounce_service, start_with_retry, wait_until_stopped, Bounce, BounceReport, StartOutcome,
    StartRetry, WaitStopped,
};
use netmuxd::service::calls::{Call, OsError, Progress, Reply, ServiceStatus};
use netmuxd::service::manager::{
    change_call, open_amds, query_binary_path, request_stop, set_binary_path, OpenAmds, QueryPath,
};
use netmuxd::service::registry::{
    delete_original, load_original, save_original, DeleteOriginal, LoadOriginal, SaveOriginal,
};
use netmuxd::utf16::wide;

fn ok() -> Reply<Vec<u16>> {
    Reply { ok: true, code: 0, value: 0, units: None }
}

fn failed(code: i32) -> Reply<Vec<u16>> {
    Reply { ok: false, code, value: 0, units: None }
}

fn state(value: u32) -> Reply<Vec<u16>> {
    Reply { ok: true, code: 0, value, units: None }
}

#[test]
fn default_status_is_stopped() {
    let s = ServiceStatus::default();
    assert_eq!(s.dw_service_type, 0x10);
    assert_eq!(s.dw_current_state, 1);
    assert_eq!(s.dw_controls_accepted, 0);
    assert_eq!(s.dw_win32_exit_code, 0);
    assert_eq!(s.dw_wait_hint, 0);
}

#[test]
fn os_error_knows_its_code() {
    assert_eq!(OsError::<String>::Os(5).raw_os_error(), Some(5));
    assert_eq!(OsError::Other("x".to_string()).raw_os_error(), None);
}

#[test]
fn opening_asks_for_manager_then_service() {
    assert_eq!(OpenAmds::Manager.call(0x37), Call::OpenManager { access: 1 });
    assert_eq!(
        OpenAmds::Service.call(0x37),
        Call::OpenService { name: wide("Apple Mobile Device Service"), access: 0x37 }
    );
    assert_eq!(open_amds(OpenAmds::Manager, &ok()), Progress::Pending(OpenAmds::Service));
    assert_eq!(open_amds(OpenAmds::Service, &ok()), Progress::Done(Ok(true)));
}

#[test]
fn opening_tells_absence_from_failure() {
    assert_eq!(open_amds(OpenAmds::Service, &failed(1060)), Progress::Done(Ok(false)));
    assert_eq!(open_amds(OpenAmds::Service, &failed(5)), Progress::Done(Err(OsError::Os(5))));
    assert_eq!(open_amds(OpenAmds::Manager, &failed(1060)), Progress::Done(Err(OsError::Os(1060))));
}

#[test]
fn querying_sizes_then_reads() {
    assert_eq!(QueryPath::Size.call(), Call::QueryConfig { size: 0 });
    assert_eq!(QueryPath::Read(300).call(), Call::QueryConfig { size: 300 });
    let sized = Reply { ok: false, code: 122, value: 300, units: None };
    assert_eq!(query_binary_path(QueryPath::Size, &sized), Progress::Pending(QueryPath::Read(300)));
    let read = Reply { ok: true, code: 0, value: 0, units: Some(vec![97, 0, 98]) };
    assert_eq!(query_binary_path(QueryPath::Read(300), &read), Progress::Done(Ok("a".to_string())));
}

#[test]
fn querying_fails_in_four_ways() {
    assert_eq!(query_binary_path(QueryPath::Size, &failed(6)), Progress::Done(Err(OsError::Os(6))));
    assert_eq!(
        query_binary_path(QueryPath::Size, &failed(122)),
        Progress::Done(Err(OsError::Other("QueryServiceConfig reported zero size".to_string())))
    );
    assert_eq!(
        query_binary_path(QueryPath::Read(8), &failed(122)),
        Progress::Done(Err(OsError::Os(122)))
    );
    assert_eq!(
        query_binary_path(QueryPath::Read(8), &ok()),
        Progress::Done(Err(OsError::Other("service had no ImagePath".to_string())))
    );
}

#[test]
fn changing_leaves_the_rest_alone() {
    assert_eq!(
        change_call("p"),
        Call::ChangeConfig {
            service_type: 0xffff_ffff,
            start_type: 0xffff_ffff,
            error_control: 0xffff_ffff,
            binary_path: vec![112, 0],
        }
    );
    assert_eq!(set_binary_path(&ok()), Ok(()));
    assert_eq!(set_binary_path(&failed(5)), Err(OsError::Os(5)));
}

#[test]
fn stop_requests_may_fail_harmlessly() {
    assert_eq!(request_stop(&ok()), None);
    for code in [1062, 109, 1061] {
        assert_eq!(request_stop(&failed(code)), None);
    }
    assert_eq!(request_stop(&failed(5)), Some(5));
}

#[test]
fn waiting_polls_fifty_times() {
    let mut at = WaitStopped::Poll(50);
    let mut polls = 0;
    let mut slept = 0;
    loop {
        match at.call() {
            Call::QueryStatus => polls += 1,
            Call::Sleep { millis } => slept += millis,
            other => panic!("{other:?}"),
        }
        match wait_until_stopped(at, &state(3)) {
            Progress::Pending(next) => at = next,
            Progress::Done(stopped) => {
                assert!(!stopped);
                break;
            }
        }
    }
    assert_eq!((polls, slept), (50, 5000));
    assert_eq!(wait_until_stopped(WaitStopped::Poll(50), &state(1)), Progress::Done(true));
    assert_eq!(wait_until_stopped(WaitStopped::Poll(50), &failed(6)), Progress::Done(true));
}

#[test]
fn starting_tries_twenty_five_times() {
    let mut at = StartRetry::Try(25);
    let mut tries = 0;
    let mut slept = 0;
    let outcome = loop {
        match at.call() {
            Call::StartService => tries += 1,
            Call::Sleep { millis } => slept += millis,
            other => panic!("{other:?}"),
        }
        match start_with_retry(at, &failed(1000 + tries)) {
            Progress::Pending(next) => at = next,
            Progress::Done(outcome) => break outcome,
        }
    };
    assert_eq!((tries, slept), (25, 5000));
    assert_eq!(outcome, StartOutcome::GaveUp(1025));
    assert_eq!(start_with_retry(StartRetry::Try(1), &ok()), Progress::Done(StartOutcome::Started));
    assert_eq!(
        start_with_retry(StartRetry::Try(1), &failed(1056)),
        Progress::Done(StartOutcome::AlreadyRunning)
    );
}

#[test]
fn bouncing_stops_waits_and_starts() {
    assert_eq!(Bounce::RequestStop.call(), Call::ControlService { control: 1 });
    let (next, report) = bounce_service(Bounce::RequestStop, &failed(5));
    assert_eq!(next, Progress::Pending(Bounce::Wait(WaitStopped::Poll(50))));
    assert_eq!(report, Some(BounceReport::StopFailed(5)));
    let (next, report) = bounce_service(Bounce::Wait(WaitStopped::Pause(1)), &ok());
    assert_eq!(next, Progress::Pending(Bounce::Start(StartRetry::Try(25))));
    assert_eq!(report, Some(BounceReport::StopTimedOut));
    let (next, report) = bounce_service(Bounce::Wait(WaitStopped::Poll(9)), &state(1));
    assert_eq!(next, Progress::Pending(Bounce::Start(StartRetry::Try(25))));
    assert_eq!(report, None);
    let (next, report) = bounce_service(Bounce::Start(StartRetry::Try(25)), &ok());
    assert_eq!(next, Progress::Done(()));
    assert_eq!(report, Some(BounceReport::Start(StartOutcome::Started)));
}

#[test]
fn bouncing_ends_after_151_replies() {
    let mut at = Bounce::RequestStop;
    let mut replies = 0;
    let mut slept = 0;
    loop {
        if let Call::Sleep { millis } = at.call() {
            slept += millis;
        }
        replies += 1;
        let reply = match at {
            Bounce::Start(_) => failed(2),
            _ => state(4),
        };
        match bounce_service(at, &reply).0 {
            Progress::Pending(next) => at = next,
            Progress::Done(()) => break,
        }
    }
    assert_eq!((replies, slept), (151, 10_000));
}

#[test]
fn saving_writes_a_string_value() {
    assert_eq!(
        SaveOriginal::CreateKey.call("é"),
        Call::CreateKey { root: 0x8000_0002, subkey: wide("SOFTWARE\\netmuxd"), access: 0x2_0006 }
    );
    assert_eq!(
        SaveOriginal::SetValue.call("é"),
        Call::SetValue {
            name: wide("OriginalAmdsImagePath"),
            value_type: 1,
            data: vec![0xe9, 0],
            byte_len: 4,
        }
    );
    assert_eq!(
        save_original(SaveOriginal::CreateKey, &ok()),
        Progress::Pending(SaveOriginal::SetValue)
    );
    assert_eq!(save_original(SaveOriginal::SetValue, &ok()), Progress::Done(Ok(())));
    for at in [SaveOriginal::CreateKey, SaveOriginal::SetValue] {
        assert_eq!(save_original(at, &failed(5)), Progress::Done(Err(OsError::Os(5))));
    }
}

#[test]
fn loading_may_find_nothing() {
    assert_eq!(load_original(LoadOriginal::OpenKey, failed(2)), Progress::Done(Ok(None)));
    assert_eq!(load_original(LoadOriginal::QuerySize, failed(2)), Progress::Done(Ok(None)));
    assert_eq!(load_original(LoadOriginal::QuerySize, ok()), Progress::Done(Ok(None)));
    for at in [LoadOriginal::OpenKey, LoadOriginal::QuerySize, LoadOriginal::ReadValue(4)] {
        assert_eq!(load_original(at, failed(5)), Progress::Done(Err(OsError::Os(5))));
    }
    assert_eq!(
        load_original(LoadOriginal::ReadValue(4), failed(2)),
        Progress::Done(Err(OsError::Os(2)))
    );
}

#[test]
fn loading_rounds_up_to_whole_units() {
    assert_eq!(
        LoadOriginal::OpenKey.call(),
        Call::OpenKey { root: 0x8000_0002, subkey: wide("SOFTWARE\\netmuxd"), access: 0x2_0019 }
    );
    assert_eq!(
        LoadOriginal::QuerySize.call(),
        Call::QueryValue { name: wide("OriginalAmdsImagePath"), units: 0, byte_len: 0 }
    );
    assert_eq!(
        LoadOriginal::ReadValue(5).call(),
        Call::QueryValue { name: wide("OriginalAmdsImagePath"), units: 3, byte_len: 6 }
    );
    assert_eq!(
        LoadOriginal::ReadValue(u32::MAX).call(),
        Call::QueryValue { name: wide("OriginalAmdsImagePath"), units: 1 << 31, byte_len: 0 }
    );
}

#[test]
fn loading_inverts_saving() {
    let path = "\"C:\\Apple é 𝄞\\x.exe\"";
    let (data, byte_len) = match SaveOriginal::SetValue.call(path) {
        Call::SetValue { data, byte_len, .. } => (data, byte_len),
        other => panic!("{other:?}"),
    };
    assert_eq!(
        load_original(LoadOriginal::OpenKey, ok()),
        Progress::Pending(LoadOriginal::QuerySize)
    );
    assert_eq!(
        load_original(LoadOriginal::QuerySize, state(byte_len)),
        Progress::Pending(LoadOriginal::ReadValue(byte_len))
    );
    let read = Reply { ok: true, code: 0, value: byte_len, units: Some(data) };
    assert_eq!(
        load_original(LoadOriginal::ReadValue(byte_len), read),
        Progress::Done(Ok(Some(path.to_string())))
    );
}

#[test]
fn loading_drops_the_nuls_at_the_end() {
    let data = wide("x\0y\0\0");
    let read = Reply { ok: true, code: 0, value: 12, units: Some(data) };
    assert_eq!(
        load_original(LoadOriginal::ReadValue(12), read),
        Progress::Done(Ok(Some("x\0y".to_string())))
    );
}

#[test]
fn deleting_needs_the_key() {
    assert_eq!(
        DeleteOriginal::OpenKey.call(),
        Call::OpenKey { root: 0x8000_0002, subkey: wide("SOFTWARE\\netmuxd"), access: 0x2_0006 }
    );
    assert_eq!(
        DeleteOriginal::DeleteValue.call(),
        Call::DeleteValue { name: wide("OriginalAmdsImagePath") }
    );
    assert_eq!(
        delete_original(DeleteOriginal::OpenKey, &ok()),
        Progress::Pending(DeleteOriginal::DeleteValue)
    );
    assert_eq!(delete_original(DeleteOriginal::OpenKey, &failed(2)), Progress::Done(()));
    assert_eq!(delete_original(DeleteOriginal::DeleteValue, &failed(2)), Progress::Done(()));
}
