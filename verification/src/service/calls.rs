//! The Win32 calls that the procedures ask for, and what comes back.
use vstd::prelude::*;

verus! {

/// The service that is taken over.
pub const AMDS_SERVICE_NAME: &'static str = "Apple Mobile Device Service";

/// The registry key that keeps Apple's original ImagePath.
pub const REG_SUBKEY: &'static str = "SOFTWARE\\netmuxd";

/// The registry value that keeps Apple's original ImagePath.
pub const REG_VALUE_ORIGINAL: &'static str = "OriginalAmdsImagePath";

// Service Control Manager and service access rights.
pub const SC_MANAGER_CONNECT: u32 = 0x0001;
pub const SERVICE_QUERY_CONFIG: u32 = 0x0001;
pub const SERVICE_CHANGE_CONFIG: u32 = 0x0002;
pub const SERVICE_QUERY_STATUS: u32 = 0x0004;
pub const SERVICE_START: u32 = 0x0010;
pub const SERVICE_STOP: u32 = 0x0020;

/// The rights that installing and uninstalling need: to read and rewrite the configuration, and
/// to bounce the service so that the change takes effect without a reboot.
pub const SERVICE_RECONFIG_ACCESS: u32 = SERVICE_QUERY_CONFIG | SERVICE_CHANGE_CONFIG
    | SERVICE_QUERY_STATUS | SERVICE_START | SERVICE_STOP;

/// `ChangeServiceConfigW`: leave a field alone.
pub const SERVICE_NO_CHANGE: u32 = 0xffff_ffff;

// Service types, states and accepted controls.
pub const SERVICE_WIN32_OWN_PROCESS: u32 = 0x0000_0010;
pub const SERVICE_STOPPED: u32 = 0x0000_0001;
pub const SERVICE_START_PENDING: u32 = 0x0000_0002;
pub const SERVICE_STOP_PENDING: u32 = 0x0000_0003;
pub const SERVICE_RUNNING: u32 = 0x0000_0004;
pub const SERVICE_ACCEPT_STOP: u32 = 0x0000_0001;
pub const SERVICE_ACCEPT_SHUTDOWN: u32 = 0x0000_0004;

// Control codes.
pub const SERVICE_CONTROL_STOP: u32 = 0x0000_0001;
pub const SERVICE_CONTROL_INTERROGATE: u32 = 0x0000_0004;
pub const SERVICE_CONTROL_SHUTDOWN: u32 = 0x0000_0005;

// Win32 error codes.
pub const ERROR_SUCCESS: i32 = 0;
pub const ERROR_FILE_NOT_FOUND: i32 = 2;
pub const ERROR_ACCESS_DENIED: i32 = 5;
pub const ERROR_BROKEN_PIPE: i32 = 109;
pub const ERROR_INSUFFICIENT_BUFFER: i32 = 122;
pub const ERROR_SERVICE_ALREADY_RUNNING: i32 = 1056;
pub const ERROR_SERVICE_DOES_NOT_EXIST: i32 = 1060;
pub const ERROR_SERVICE_CANNOT_ACCEPT_CTRL: i32 = 1061;
pub const ERROR_SERVICE_NOT_ACTIVE: i32 = 1062;
pub const ERROR_FAILED_SERVICE_CONTROLLER_CONNECT: i32 = 1063;

// Registry.
pub const HKEY_LOCAL_MACHINE: usize = 0x8000_0002;
pub const KEY_READ: u32 = 0x2_0019;
pub const KEY_WRITE: u32 = 0x2_0006;
pub const REG_SZ: u32 = 1;

/// The state of a service, as it is reported to and by the Service Control Manager.
#[derive(Clone, Copy, Debug, PartialEq, Eq, Structural)]
pub struct ServiceStatus {
    pub dw_service_type: u32,
    pub dw_current_state: u32,
    pub dw_controls_accepted: u32,
    pub dw_win32_exit_code: u32,
    pub dw_service_specific_exit_code: u32,
    pub dw_check_point: u32,
    pub dw_wait_hint: u32,
}

/// The status of a service that runs in a process of its own and has met no error.
pub open spec fn status_of(state: u32, controls_accepted: u32, wait_hint: u32) -> ServiceStatus {
    ServiceStatus {
        dw_service_type: SERVICE_WIN32_OWN_PROCESS,
        dw_current_state: state,
        dw_controls_accepted: controls_accepted,
        dw_win32_exit_code: 0,
        dw_service_specific_exit_code: 0,
        dw_check_point: 0,
        dw_wait_hint: wait_hint,
    }
}

impl Default for ServiceStatus {
    /// A stopped service that accepts no controls.
    fn default() -> (r: Self)
        ensures
            r == status_of(SERVICE_STOPPED, 0, 0),
            r.dw_service_type == 0x10,
            r.dw_current_state == 1,
            r.dw_controls_accepted == 0,
            r.dw_win32_exit_code == 0,
            r.dw_service_specific_exit_code == 0,
            r.dw_check_point == 0,
            r.dw_wait_hint == 0,
    {
        ServiceStatus {
            dw_service_type: SERVICE_WIN32_OWN_PROCESS,
            dw_current_state: SERVICE_STOPPED,
            dw_controls_accepted: 0,
            dw_win32_exit_code: 0,
            dw_service_specific_exit_code: 0,
            dw_check_point: 0,
            dw_wait_hint: 0,
        }
    }
}

/// A Win32 call to make. `W` is a wide string: a vector of units, or in the model a sequence.
#[derive(Debug, PartialEq, Eq)]
pub enum Call<W> {
    /// `OpenSCManagerW` on this machine.
    OpenManager { access: u32 },
    /// `OpenServiceW`.
    OpenService { name: W, access: u32 },
    /// `QueryServiceConfigW` with a buffer of `size` bytes; with none where that is zero.
    QueryConfig { size: u32 },
    /// `ChangeServiceConfigW`.
    ChangeConfig { service_type: u32, start_type: u32, error_control: u32, binary_path: W },
    /// `StartServiceW` without arguments.
    StartService,
    /// `ControlService`.
    ControlService { control: u32 },
    /// `QueryServiceStatus`.
    QueryStatus,
    /// A pause.
    Sleep { millis: u64 },
    /// `RegCreateKeyExW`.
    CreateKey { root: usize, subkey: W, access: u32 },
    /// `RegOpenKeyExW`.
    OpenKey { root: usize, subkey: W, access: u32 },
    /// `RegSetValueExW`.
    SetValue { name: W, value_type: u32, data: W, byte_len: u32 },
    /// `RegQueryValueExW` with a zeroed buffer of `units` units, said to be `byte_len` bytes;
    /// with none where `units` is zero.
    QueryValue { name: W, units: usize, byte_len: u32 },
    /// `RegDeleteValueW`.
    DeleteValue { name: W },
}

impl View for Call<Vec<u16>> {
    type V = Call<Seq<u16>>;

    open spec fn view(&self) -> Call<Seq<u16>> {
        match *self {
            Call::OpenManager { access } => Call::OpenManager { access },
            Call::OpenService { name, access } => Call::OpenService { name: name@, access },
            Call::QueryConfig { size } => Call::QueryConfig { size },
            Call::ChangeConfig { service_type, start_type, error_control, binary_path } => {
                Call::ChangeConfig {
                    service_type,
                    start_type,
                    error_control,
                    binary_path: binary_path@,
                }
            },
            Call::StartService => Call::StartService,
            Call::ControlService { control } => Call::ControlService { control },
            Call::QueryStatus => Call::QueryStatus,
            Call::Sleep { millis } => Call::Sleep { millis },
            Call::CreateKey { root, subkey, access } => {
                Call::CreateKey { root, subkey: subkey@, access }
            },
            Call::OpenKey { root, subkey, access } => {
                Call::OpenKey { root, subkey: subkey@, access }
            },
            Call::SetValue { name, value_type, data, byte_len } => {
                Call::SetValue { name: name@, value_type, data: data@, byte_len }
            },
            Call::QueryValue { name, units, byte_len } => {
                Call::QueryValue { name: name@, units, byte_len }
            },
            Call::DeleteValue { name } => Call::DeleteValue { name: name@ },
        }
    }
}

/// What a Win32 call came back with. Each call fills the fields that it has something for.
#[derive(Debug)]
pub struct Reply<W> {
    /// Whether the call succeeded, for the calls that return a BOOL or a handle.
    pub ok: bool,
    /// The last error after such a call has failed; what a registry call returned.
    pub code: i32,
    /// The number that the call handed out: a size in bytes, or the state of the service.
    pub value: u32,
    /// The units that the call handed out: the buffer from the start of the ImagePath on, unless
    /// there is none, or all of the buffer that a registry value was read into.
    pub units: Option<W>,
}

impl View for Reply<Vec<u16>> {
    type V = Reply<Seq<u16>>;

    open spec fn view(&self) -> Reply<Seq<u16>> {
        Reply {
            ok: self.ok,
            code: self.code,
            value: self.value,
            units: match self.units {
                Some(units) => Some(units@),
                None => None,
            },
        }
    }
}

/// Why a procedure failed. `S` is a string, or in the model its text.
#[derive(Debug, PartialEq, Eq)]
pub enum OsError<S> {
    /// The system's own error code.
    Os(i32),
    /// Anything else, in words.
    Other(S),
}

impl View for OsError<String> {
    type V = OsError<Seq<char>>;

    open spec fn view(&self) -> OsError<Seq<char>> {
        match *self {
            OsError::Os(code) => OsError::Os(code),
            OsError::Other(text) => OsError::Other(text@),
        }
    }
}

impl<S> OsError<S> {
    /// The system's error code, if the error has one.
    pub fn raw_os_error(&self) -> (r: Option<i32>)
        ensures
            r == self.code(),
            self matches OsError::Os(code) ==> r == Some(*code),
            self is Other ==> r is None,
    {
        match self {
            OsError::Os(code) => Some(*code),
            OsError::Other(_) => None,
        }
    }

    /// The system's error code, if the error has one.
    pub open spec fn code(self) -> Option<i32> {
        match self {
            OsError::Os(code) => Some(code),
            OsError::Other(_) => None,
        }
    }
}

/// A procedure after a reply: at a further state, or done with a result.
#[derive(Debug, PartialEq, Eq)]
pub enum Progress<S, T> {
    Pending(S),
    Done(T),
}

/// The view of a call is the same call, with the same numbers, and its wide strings as sequences.
pub proof fn law_call_view(call: Call<Vec<u16>>)
    ensures
        call matches Call::OpenManager { access } ==> (call@ matches Call::OpenManager { access: a }
            && a == access),
        call matches Call::OpenService { name, access } ==> (call@ matches Call::OpenService {
            name: n,
            access: a,
        } && n == name@ && a == access),
        call matches Call::QueryConfig { size } ==> (call@ matches Call::QueryConfig { size: s } && s
            == size),
        call matches Call::ChangeConfig { service_type, start_type, error_control, binary_path } ==> (
        call@ matches Call::ChangeConfig {
            service_type: t,
            start_type: s,
            error_control: e,
            binary_path: p,
        } && t == service_type && s == start_type && e == error_control && p == binary_path@),
        call is StartService <==> call@ is StartService,
        call matches Call::ControlService { control } ==> (call@ matches Call::ControlService {
            control: c,
        } && c == control),
        call is QueryStatus <==> call@ is QueryStatus,
        call matches Call::Sleep { millis } ==> (call@ matches Call::Sleep { millis: m } && m
            == millis),
        call matches Call::CreateKey { root, subkey, access } ==> (call@ matches Call::CreateKey {
            root: r,
            subkey: k,
            access: a,
        } && r == root && k == subkey@ && a == access),
        call matches Call::OpenKey { root, subkey, access } ==> (call@ matches Call::OpenKey {
            root: r,
            subkey: k,
            access: a,
        } && r == root && k == subkey@ && a == access),
        call matches Call::SetValue { name, value_type, data, byte_len } ==> (
        call@ matches Call::SetValue { name: n, value_type: t, data: d, byte_len: l } && n == name@
            && t == value_type && d == data@ && l == byte_len),
        call matches Call::QueryValue { name, units, byte_len } ==> (call@ matches Call::QueryValue {
            name: n,
            units: u,
            byte_len: l,
        } && n == name@ && u == units && l == byte_len),
        call matches Call::DeleteValue { name } ==> (call@ matches Call::DeleteValue { name: n } && n
            == name@),
{
}

/// The view of a reply has the same numbers, and its units as a sequence.
pub proof fn law_reply_view(reply: Reply<Vec<u16>>)
    ensures
        reply@.ok == reply.ok,
        reply@.code == reply.code,
        reply@.value == reply.value,
        reply@.units is Some <==> reply.units is Some,
        reply.units matches Some(units) ==> reply@.units == Some(units@),
{
}

/// The view of an error has the same code, or the same words.
pub proof fn law_error_view(e: OsError<String>)
    ensures
        e matches OsError::Os(code) ==> e@ == OsError::<Seq<char>>::Os(code),
        e matches OsError::Other(text) ==> e@ == OsError::Other(text@),
        e is Os <==> e.code() is Some,
        e matches OsError::Os(code) ==> e.code() == Some(code),
{
}

} // verus!
