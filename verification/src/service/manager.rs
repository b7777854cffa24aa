//! Reading and changing the service through the Service Control Manager.
use crate::service::calls::{
    Call, OsError, Progress, Reply, AMDS_SERVICE_NAME, ERROR_BROKEN_PIPE, ERROR_INSUFFICIENT_BUFFER,
    ERROR_SERVICE_CANNOT_ACCEPT_CTRL, ERROR_SERVICE_DOES_NOT_EXIST, ERROR_SERVICE_NOT_ACTIVE,
    SC_MANAGER_CONNECT, SERVICE_NO_CHANGE,
};
use crate::utf16::{decoded, law_read_stops_at_nul, read_wide, wide, wide_len, wide_of};
use vstd::prelude::*;

verus! {

/// What is wrong where the size of the configuration is given as zero.
pub const ZERO_SIZE: &'static str = "QueryServiceConfig reported zero size";

/// What is wrong where the configuration has no ImagePath.
pub const NO_IMAGE_PATH: &'static str = "service had no ImagePath";

/// Where opening the service has got to: the manager first, then the service.
#[derive(Clone, Copy, Debug, PartialEq, Eq, Structural)]
pub enum OpenAmds {
    Manager,
    Service,
}

impl OpenAmds {
    /// The call that is due, where the service is to be opened with `access`.
    pub open spec fn due(self, access: u32) -> Call<Seq<u16>> {
        match self {
            OpenAmds::Manager => Call::OpenManager { access: SC_MANAGER_CONNECT },
            OpenAmds::Service => Call::OpenService { name: wide_of(AMDS_SERVICE_NAME@), access },
        }
    }

    /// What the reply to the due call leads to: whether the service is there, or an error.
    pub open spec fn next(self, reply: Reply<Seq<u16>>) -> Progress<
        OpenAmds,
        Result<bool, OsError<Seq<char>>>,
    > {
        if reply.ok {
            if self is Manager {
                Progress::Pending(OpenAmds::Service)
            } else {
                Progress::Done(Ok(true))
            }
        } else if self is Service && reply.code == ERROR_SERVICE_DOES_NOT_EXIST {
            Progress::Done(Ok(false))
        } else {
            Progress::Done(Err(OsError::Os(reply.code)))
        }
    }

    /// The call that is due, where the service is to be opened with `access`.
    pub fn call(&self, access: u32) -> (r: Call<Vec<u16>>)
        ensures
            r@ == self.due(access),
    {
        match self {
            OpenAmds::Manager => Call::OpenManager { access: SC_MANAGER_CONNECT },
            OpenAmds::Service => Call::OpenService { name: wide(AMDS_SERVICE_NAME), access },
        }
    }
}

/// The model of what [`open_amds`] gives.
pub open spec fn opened_view(
    p: Progress<OpenAmds, Result<bool, OsError<String>>>,
) -> Progress<OpenAmds, Result<bool, OsError<Seq<char>>>> {
    match p {
        Progress::Pending(at) => Progress::Pending(at),
        Progress::Done(Ok(found)) => Progress::Done(Ok(found)),
        Progress::Done(Err(e)) => Progress::Done(Err(e@)),
    }
}

/// Takes the opening of the manager and the service on from `at`, with the reply to the call due
/// there. Ends with `Ok(false)` if the service is not installed on this machine.
pub fn open_amds(at: OpenAmds, reply: &Reply<Vec<u16>>) -> (r: Progress<
    OpenAmds,
    Result<bool, OsError<String>>,
>)
    ensures
        opened_view(r) == at.next(reply@),
{
    match at {
        OpenAmds::Manager => {
            if !reply.ok {
                return Progress::Done(Err(OsError::Os(reply.code)));
            }
            Progress::Pending(OpenAmds::Service)
        },
        OpenAmds::Service => {
            if !reply.ok {
                return if reply.code == ERROR_SERVICE_DOES_NOT_EXIST {
                    Progress::Done(Ok(false))
                } else {
                    Progress::Done(Err(OsError::Os(reply.code)))
                };
            }
            Progress::Done(Ok(true))
        },
    }
}

/// Where reading the ImagePath has got to: asking for the size of the configuration, then
/// reading it into a buffer of that size.
#[derive(Clone, Copy, Debug, PartialEq, Eq, Structural)]
pub enum QueryPath {
    Size,
    Read(u32),
}

impl QueryPath {
    /// The call that is due.
    pub open spec fn due(self) -> Call<Seq<u16>> {
        match self {
            QueryPath::Size => Call::QueryConfig { size: 0 },
            QueryPath::Read(needed) => Call::QueryConfig { size: needed },
        }
    }

    /// What the reply to the due call leads to. That the first call finds its buffer too small
    /// is what it is made for.
    pub open spec fn next(self, reply: Reply<Seq<u16>>) -> Progress<
        QueryPath,
        Result<Seq<char>, OsError<Seq<char>>>,
    > {
        if !reply.ok && !(self is Size && reply.code == ERROR_INSUFFICIENT_BUFFER) {
            Progress::Done(Err(OsError::Os(reply.code)))
        } else {
            match self {
                QueryPath::Size => if reply.value == 0 {
                    Progress::Done(Err(OsError::Other(ZERO_SIZE@)))
                } else {
                    Progress::Pending(QueryPath::Read(reply.value))
                },
                QueryPath::Read(_) => match reply.units {
                    Some(units) => Progress::Done(Ok(decoded(units.take(wide_len(units))))),
                    None => Progress::Done(Err(OsError::Other(NO_IMAGE_PATH@))),
                },
            }
        }
    }

    /// The call that is due.
    pub fn call(&self) -> (r: Call<Vec<u16>>)
        ensures
            r@ == self.due(),
    {
        match self {
            QueryPath::Size => Call::QueryConfig { size: 0 },
            QueryPath::Read(needed) => Call::QueryConfig { size: *needed },
        }
    }
}

/// The model of what [`query_binary_path`] gives.
pub open spec fn queried_view(
    p: Progress<QueryPath, Result<String, OsError<String>>>,
) -> Progress<QueryPath, Result<Seq<char>, OsError<Seq<char>>>> {
    match p {
        Progress::Pending(at) => Progress::Pending(at),
        Progress::Done(Ok(path)) => Progress::Done(Ok(path@)),
        Progress::Done(Err(e)) => Progress::Done(Err(e@)),
    }
}

/// Takes the reading of the service's ImagePath on from `at`, with the reply to the call due
/// there.
pub fn query_binary_path(at: QueryPath, reply: &Reply<Vec<u16>>) -> (r: Progress<
    QueryPath,
    Result<String, OsError<String>>,
>)
    ensures
        queried_view(r) == at.next(reply@),
{
    match at {
        QueryPath::Size => {
            if !reply.ok && reply.code != ERROR_INSUFFICIENT_BUFFER {
                return Progress::Done(Err(OsError::Os(reply.code)));
            }
            if reply.value == 0 {
                return Progress::Done(Err(OsError::Other(ZERO_SIZE.to_owned())));
            }
            Progress::Pending(QueryPath::Read(reply.value))
        },
        QueryPath::Read(_) => {
            if !reply.ok {
                return Progress::Done(Err(OsError::Os(reply.code)));
            }
            let path = match &reply.units {
                Some(units) => read_wide(Some(units.as_slice())),
                None => read_wide(None),
            };
            match path {
                Some(path) => Progress::Done(Ok(path)),
                None => Progress::Done(Err(OsError::Other(NO_IMAGE_PATH.to_owned()))),
            }
        },
    }
}

/// The call that changes the service's ImagePath and nothing else.
pub open spec fn change_due(path: Seq<char>) -> Call<Seq<u16>> {
    Call::ChangeConfig {
        service_type: SERVICE_NO_CHANGE,
        start_type: SERVICE_NO_CHANGE,
        error_control: SERVICE_NO_CHANGE,
        binary_path: wide_of(path),
    }
}

/// The call that changes the service's ImagePath and nothing else.
pub fn change_call(path: &str) -> (r: Call<Vec<u16>>)
    ensures
        r@ == change_due(path@),
{
    Call::ChangeConfig {
        service_type: SERVICE_NO_CHANGE,
        start_type: SERVICE_NO_CHANGE,
        error_control: SERVICE_NO_CHANGE,
        binary_path: wide(path),
    }
}

/// What the reply to [`change_call`] comes to.
pub fn set_binary_path(reply: &Reply<Vec<u16>>) -> (r: Result<(), OsError<String>>)
    ensures
        r is Ok <==> reply.ok,
        r matches Err(e) ==> e@ == OsError::<Seq<char>>::Os(reply.code),
{
    if !reply.ok {
        Err(OsError::Os(reply.code))
    } else {
        Ok(())
    }
}

/// Whether a stop request that failed with `code` has still left the service stopped or on its
/// way there: not active, in the middle of a stop, or in a transition.
pub open spec fn is_harmless_stop(code: i32) -> bool {
    ||| code == ERROR_SERVICE_NOT_ACTIVE
    ||| code == ERROR_BROKEN_PIPE
    ||| code == ERROR_SERVICE_CANNOT_ACCEPT_CTRL
}

/// What is worth a warning in the reply to the request to stop: an error other than those that
/// come with a service that is stopped or stopping.
pub fn request_stop(reply: &Reply<Vec<u16>>) -> (r: Option<i32>)
    ensures
        r == (if reply.ok || is_harmless_stop(reply.code) {
            None
        } else {
            Some(reply.code)
        }),
        r is None <==> reply.ok || reply.code == 1062 || reply.code == 109 || reply.code == 1061,
        r matches Some(code) ==> code == reply.code,
{
    if reply.ok {
        return None;
    }
    match reply.code {
        ERROR_SERVICE_NOT_ACTIVE => None,
        ERROR_BROKEN_PIPE => None,
        ERROR_SERVICE_CANNOT_ACCEPT_CTRL => None,
        code => Some(code),
    }
}

/// The service is opened under its own name and with the access that was asked for, through a manager
/// that is opened in order to connect to it. It is found if both are granted, and missing only if
/// opening it fails with 1060; any other failure is an error with its code.
pub proof fn law_service_is_opened_by_name(at: OpenAmds, access: u32, reply: Reply<Seq<u16>>)
    ensures
        OpenAmds::Manager.due(access) == (Call::<Seq<u16>>::OpenManager { access: 1 }),
        OpenAmds::Service.due(access) == (Call::OpenService {
            name: wide_of("Apple Mobile Device Service"@),
            access,
        }),
        at.next(reply) matches Progress::Pending(next) ==> at is Manager && reply.ok && next is Service,
        at.next(reply) matches Progress::Done(Ok(found)) ==> at is Service && found == reply.ok && (
        !found ==> reply.code == 1060),
        at.next(reply) matches Progress::Done(Err(e)) ==> !reply.ok && e == OsError::<Seq<char>>::Os(
            reply.code,
        ) && !(at is Service && reply.code == 1060),
{
}

/// The ImagePath is read with a buffer of just the size that was asked for. It is what the buffer holds
/// up to the first NUL, and it is an error if a call fails, but for the first finding its buffer too
/// small (122), if the size is zero, or if there is no ImagePath.
pub proof fn law_path_is_what_the_buffer_holds(size: u32, reply: Reply<Seq<u16>>, path: Seq<u16>)
    ensures
        QueryPath::Size.due() == (Call::<Seq<u16>>::QueryConfig { size: 0 }),
        QueryPath::Read(size).due() == (Call::<Seq<u16>>::QueryConfig { size }),
        QueryPath::Size.next(reply) matches Progress::Pending(next) ==> next == QueryPath::Read(
            reply.value,
        ) && reply.value != 0 && (reply.ok || reply.code == 122),
        QueryPath::Size.next(reply) matches Progress::Done(done) ==> done is Err && (reply.value == 0
            || !reply.ok && reply.code != 122),
        QueryPath::Read(size).next(reply) is Done,
        QueryPath::Read(size).next(reply) matches Progress::Done(done) ==> {
            &&& done is Ok <==> reply.ok && reply.units is Some
            &&& !reply.ok ==> done == Err::<Seq<char>, _>(OsError::<Seq<char>>::Os(reply.code))
        },
        reply.ok && reply.units == Some(path.push(0)) && path.len() <= 32768 && !path.contains(0u16)
            ==> QueryPath::Read(size).next(reply) == Progress::<QueryPath, _>::Done(
            Ok::<_, OsError<Seq<char>>>(decoded(path)),
        ),
{
    if !path.contains(0u16) {
        assert forall|i: int| 0 <= i < path.len() implies path[i] != 0 by {
            assert(path.contains(path[i]));
        }
        law_read_stops_at_nul(path, Seq::empty());
        assert(path.push(0) + Seq::empty() =~= path.push(0));
    }
}

/// Changing the ImagePath changes nothing else: all other fields are given as 0xffffffff, which leaves
/// them alone.
pub proof fn law_change_sets_the_path_alone(path: Seq<char>)
    ensures
        change_due(path) == (Call::ChangeConfig {
            service_type: 0xffff_ffff,
            start_type: 0xffff_ffff,
            error_control: 0xffff_ffff,
            binary_path: wide_of(path),
        }),
{
}

/// The views of what opening and reading give have the same outcomes.
pub proof fn law_outcome_views(
    opened: Progress<OpenAmds, Result<bool, OsError<String>>>,
    queried: Progress<QueryPath, Result<String, OsError<String>>>,
)
    ensures
        opened matches Progress::Pending(at) ==> (opened_view(opened) matches Progress::Pending(a) && a
            == at),
        opened matches Progress::Done(Ok(found)) ==> (opened_view(opened) matches Progress::Done(Ok(f))
            && f == found),
        opened matches Progress::Done(Err(e)) ==> (opened_view(opened) matches Progress::Done(Err(m))
            && m == e@),
        queried matches Progress::Pending(at) ==> (queried_view(queried) matches Progress::Pending(a)
            && a == at),
        queried matches Progress::Done(Ok(path)) ==> (queried_view(queried) matches Progress::Done(
            Ok(p),
        ) && p == path@),
        queried matches Progress::Done(Err(e)) ==> (queried_view(queried) matches Progress::Done(Err(m))
            && m == e@),
{
}

} // verus!
