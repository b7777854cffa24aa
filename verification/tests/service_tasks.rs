use netmuxd::service::bounce::{BounceReport, StartOutcome};
use netmuxd::service::calls::{Call, OsError, Reply, SERVICE_RECONFIG_ACCESS};
use netmuxd::service::install::{install_service, Install, InstallReport};
use netmuxd::service::uninstall::{uninstall_service, Uninstall, UninstallReport};
use netmuxd::utf16::wide;

const APPLE: &str = "\"C:\\Apple\\AppleMobileDeviceService.exe\"";

/// A machine with the service installed and nothing in its way, unless a code says otherwise.
struct Machine {
    image_path: Vec<u16>,
    saved: Option<(Vec<u16>, u32)>,
    open_code: i32,
    query_code: i32,
    save_code: i32,
    change_code: i32,
    calls: Vec<Call<Vec<u16>>>,
}

impl Machine {
    fn new(image_path: &str) -> Machine {
        Machine {
            image_path: wide(image_path),
            saved: None,
            open_code: 0,
            query_code: 0,
            save_code: 0,
            change_code: 0,
            calls: Vec::new(),
        }
    }

    fn perform(&mut self, call: Call<Vec<u16>>) -> Reply<Vec<u16>> {
        let mut reply = Reply { ok: true, code: 0, value: 0, units: None };
        match &call {
            Call::OpenService { .. } => reply.code = self.open_code,
            Call::QueryConfig { size: 0 } => {
                reply.code = if self.query_code == 0 { 122 } else { self.query_code };
                reply.value = 500;
            }
            Call::QueryConfig { .. } => reply.units = Some(self.image_path.clone()),
            Call::CreateKey { .. } => reply.code = self.save_code,
            Call::SetValue { data, byte_len, .. } => self.saved = Some((data.clone(), *byte_len)),
            Call::ChangeConfig { binary_path, .. } => {
                reply.code = self.change_code;
                if self.change_code == 0 {
                    self.image_path = binary_path.clone();
                }
            }
            Call::QueryStatus => reply.value = 1,
            Call::QueryValue { units: 0, .. } => match &self.saved {
                Some((_, byte_len)) => reply.value = *byte_len,
                None => reply.code = 2,
            },
            Call::QueryValue { .. } => reply.units = self.saved.as_ref().map(|s| s.0.clone()),
            Call::DeleteValue { .. } => self.saved = None,
            _ => {}
        }
        reply.ok = reply.code == 0;
        self.calls.push(call);
        reply
    }

    fn install(&mut self, exe: Result<&str, &str>) -> (i32, Vec<InstallReport<String>>) {
        let exe = match exe {
            Ok(exe) => Ok(exe.to_string()),
            Err(e) => Err(OsError::Other(e.to_string())),
        };
        let mut task = Install::begin(exe, &["-v".to_string()]);
        let mut reports = Vec::new();
        while let Some(call) = task.call() {
            let reply = self.perform(call);
            let (next, said) = install_service(task, reply);
            reports.extend(said);
            task = next;
        }
        match task {
            Install::Finished { exit_code } => (exit_code, reports),
            other => panic!("{other:?}"),
        }
    }

    fn uninstall(&mut self) -> (i32, Vec<UninstallReport<String>>) {
        let mut task = Uninstall::begin();
        let mut reports = Vec::new();
        while let Some(call) = task.call() {
            let reply = self.perform(call);
            let (next, said) = uninstall_service(task, reply);
            reports.extend(said);
            task = next;
        }
        match task {
            Uninstall::Finished { exit_code } => (exit_code, reports),
            other => panic!("{other:?}"),
        }
    }

    fn changed(&self) -> bool {
        self.calls.iter().any(|c| matches!(c, Call::ChangeConfig { .. }))
    }
}

#[test]
fn access_holds_the_five_rights() {
    assert_eq!(SERVICE_RECONFIG_ACCESS, 0x37);
}

#[test]
fn install_saves_repoints_and_bounces() {
    let mut m = Machine::new(APPLE);
    let (code, reports) = m.install(Ok("C:\\netmuxd\\netmuxd.exe"));
    assert_eq!(code, 0);
    let binpath = "\"C:\\netmuxd\\netmuxd.exe\" --service -v".to_string();
    assert_eq!(
        reports,
        vec![
            InstallReport::Saved(APPLE.to_string()),
            InstallReport::Repointed(binpath.clone()),
            InstallReport::Bounce(BounceReport::Start(StartOutcome::Started)),
            InstallReport::Installed,
        ]
    );
    assert_eq!(m.image_path, wide(&binpath));
    assert_eq!(m.saved, Some((wide(APPLE), 2 * wide(APPLE).len() as u32)));
}

#[test]
fn uninstall_undoes_install() {
    let mut m = Machine::new(APPLE);
    assert_eq!(m.install(Ok("n.exe")).0, 0);
    let (code, reports) = m.uninstall();
    assert_eq!(code, 0);
    assert_eq!(
        reports,
        vec![
            UninstallReport::Restored(APPLE.to_string()),
            UninstallReport::Bounce(BounceReport::Start(StartOutcome::Started)),
            UninstallReport::Uninstalled,
        ]
    );
    assert_eq!(m.image_path, wide(APPLE));
    assert_eq!(m.saved, None);
}

#[test]
fn reinstall_keeps_the_saved_original() {
    let mut m = Machine::new(APPLE);
    assert_eq!(m.install(Ok("old.exe")).0, 0);
    let (code, reports) = m.install(Ok("new.exe"));
    assert_eq!(code, 0);
    assert_eq!(reports[0], InstallReport::AlreadyOwn);
    assert_eq!(m.saved, Some((wide(APPLE), 2 * wide(APPLE).len() as u32)));
    assert_eq!(m.image_path, wide("\"new.exe\" --service -v"));
}

#[test]
fn uninstall_undoes_two_installs() {
    let mut m = Machine::new(APPLE);
    assert_eq!(m.install(Ok("old.exe")).0, 0);
    assert_eq!(m.install(Ok("new.exe")).0, 0);
    assert_eq!(m.uninstall().0, 0);
    assert_eq!(m.image_path, wide(APPLE));
    assert_eq!(m.saved, None);
}

#[test]
fn failed_install_leaves_the_service_alone() {
    let mut m = Machine::new(APPLE);
    m.change_code = 5;
    assert_eq!(m.install(Ok("n.exe")).0, 1);
    assert_eq!(m.image_path, wide(APPLE));
    assert_eq!(m.saved, Some((wide(APPLE), 2 * wide(APPLE).len() as u32)));
}

#[test]
fn long_arguments_leave_the_flag_in_sight() {
    let mut m = Machine::new(&format!("\"n.exe\" --service {}", "x".repeat(40000)));
    assert_eq!(m.install(Ok("n.exe")).1[0], InstallReport::AlreadyOwn);
    assert_eq!(m.saved, None);
    // The flag is looked for among the first units alone.
    let mut m = Machine::new(&format!("\"{}\" --service", "x".repeat(40000)));
    assert!(matches!(m.install(Ok("n.exe")).1[0], InstallReport::Saved(_)));
}

#[test]
fn install_without_the_service() {
    let mut m = Machine::new(APPLE);
    m.open_code = 1060;
    assert_eq!(m.install(Ok("n.exe")), (1, vec![InstallReport::NotInstalled]));
    m.open_code = 5;
    assert_eq!(m.install(Ok("n.exe")), (1, vec![InstallReport::AccessDenied]));
    m.open_code = 6;
    assert_eq!(m.install(Ok("n.exe")), (1, vec![InstallReport::OpenFailed(OsError::Os(6))]));
    assert!(!m.changed());
}

#[test]
fn install_without_a_program() {
    let mut m = Machine::new(APPLE);
    assert_eq!(
        m.install(Err("no exe")),
        (1, vec![InstallReport::ProgramUnknown(OsError::Other("no exe".to_string()))])
    );
    assert!(!m.changed());
}

#[test]
fn install_warns_of_a_user_profile() {
    let mut m = Machine::new(APPLE);
    let (code, reports) = m.install(Ok("C:\\Users\\me\\n.exe"));
    assert_eq!(code, 0);
    assert_eq!(reports[0], InstallReport::InUserProfile("C:\\Users\\me\\n.exe".to_string()));
}

#[test]
fn install_stops_if_saving_fails() {
    let mut m = Machine::new(APPLE);
    m.save_code = 5;
    assert_eq!(m.install(Ok("n.exe")), (1, vec![InstallReport::SaveFailed(OsError::Os(5))]));
    assert!(!m.changed());
    assert_eq!(m.image_path, wide(APPLE));
}

#[test]
fn install_goes_on_if_reading_fails() {
    let mut m = Machine::new(APPLE);
    m.query_code = 6;
    let (code, reports) = m.install(Ok("n.exe"));
    assert_eq!(code, 0);
    assert_eq!(reports[0], InstallReport::PathUnreadable(OsError::Os(6)));
    assert_eq!(m.saved, None);
}

#[test]
fn install_fails_if_changing_fails() {
    let mut m = Machine::new(APPLE);
    m.change_code = 5;
    assert_eq!(m.install(Ok("n.exe")).1[1], InstallReport::ChangeDenied);
    m.change_code = 7;
    let (code, reports) = m.install(Ok("n.exe"));
    assert_eq!(code, 1);
    assert_eq!(reports[1], InstallReport::ChangeFailed(OsError::Os(7)));
}

#[test]
fn uninstall_without_a_saved_original() {
    let mut m = Machine::new(APPLE);
    assert_eq!(m.uninstall(), (1, vec![UninstallReport::NothingSaved]));
    assert!(!m.changed());
}

#[test]
fn nothing_saved_leaves_the_machine_alone() {
    let mut m = Machine::new(APPLE);
    assert_eq!(m.uninstall().0, 1);
    assert_eq!(m.image_path, wide(APPLE));
    assert_eq!(m.saved, None);
    assert!(!m.calls.iter().any(|c| matches!(c, Call::OpenManager { .. })));
}

#[test]
fn failed_uninstall_changes_nothing() {
    let mut m = Machine::new("n --service");
    m.saved = Some((wide("x"), 4));
    m.open_code = 5;
    assert_eq!(m.uninstall().0, 1);
    assert_eq!(m.image_path, wide("n --service"));
    assert_eq!(m.saved, Some((wide("x"), 4)));
}

#[test]
fn unreadable_path_keeps_what_was_saved_earlier() {
    let mut m = Machine::new(APPLE);
    m.saved = Some((wide("x"), 4));
    m.query_code = 6;
    assert_eq!(m.install(Ok("n.exe")).0, 0);
    assert_eq!(m.saved, Some((wide("x"), 4)));
}

#[test]
fn uninstall_without_the_service() {
    let mut m = Machine::new(APPLE);
    m.saved = Some((wide("x"), 4));
    m.open_code = 1060;
    assert_eq!(m.uninstall(), (1, vec![UninstallReport::NotInstalled]));
    m.open_code = 5;
    assert_eq!(m.uninstall(), (1, vec![UninstallReport::AccessDenied]));
    m.open_code = 6;
    assert_eq!(m.uninstall(), (1, vec![UninstallReport::OpenFailed(OsError::Os(6))]));
    assert!(m.saved.is_some());
}

#[test]
fn uninstall_keeps_the_original_if_restoring_fails() {
    let mut m = Machine::new("n --service");
    m.saved = Some((wide("x"), 4));
    m.change_code = 5;
    assert_eq!(m.uninstall(), (1, vec![UninstallReport::RestoreFailed(OsError::Os(5))]));
    assert!(m.saved.is_some());
}

#[test]
fn uninstall_reports_a_registry_failure() {
    let task = Uninstall::begin();
    let reply = Reply { ok: false, code: 5, value: 0, units: None };
    let (next, said) = uninstall_service(task, reply);
    assert_eq!(next, Uninstall::Finished { exit_code: 1 });
    assert_eq!(said, vec![UninstallReport::LoadFailed(OsError::Os(5))]);
}

#[test]
fn tasks_end_whatever_the_replies() {
    let mut task = Install::begin(Ok("n.exe".to_string()), &[]);
    let mut replies = 0;
    while task.call().is_some() {
        replies += 1;
        let ok = !matches!(task, Install::Bounce { .. });
        let reply = Reply { ok, code: 0, value: 4, units: Some(vec![97]) };
        task = install_service(task, reply).0;
    }
    assert!(replies <= 158);
    let mut task = Uninstall::begin();
    let mut replies = 0;
    while task.call().is_some() {
        replies += 1;
        let reply = Reply { ok: true, code: 0, value: 4, units: Some(vec![97]) };
        task = uninstall_service(task, reply).0;
    }
    assert!(replies <= 159);
    assert_eq!(task, Uninstall::Finished { exit_code: 0 });
}
