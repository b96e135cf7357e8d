use vstd::prelude::*;

verus! {

/// Status code the native library returns on success.
pub const RFC_OK: u32 = 0;

/// Status code for a broken or unreachable network connection.
pub const RFC_COMMUNICATION_FAILURE: u32 = 1;

/// Status code for a rejected logon.
pub const RFC_LOGON_FAILURE: u32 = 2;

/// Error group of an error-info that holds no error.
pub const GROUP_OK: u32 = 0;

/// Error group for a rejected logon.
pub const GROUP_LOGON_FAILURE: u32 = 3;

/// Error group for problems with the network connection.
pub const GROUP_COMMUNICATION_FAILURE: u32 = 4;

/// What kind of operation failed, for callers that branch on it.
#[derive(Clone, Copy, Debug, PartialEq, Eq, Structural)]
pub enum ErrorKind {
    ConnectFailure,
    CommunicationFailure,
    LookupFailure,
    InstantiationFailure,
    EncodingError,
    PingFailure,
    CloseFailure,
}

/// The error-info structure the native library fills in on failure.
#[derive(Clone, Debug)]
pub struct RfcErrorInfo {
    pub code: u32,
    pub group: u32,
    pub key: String,
    pub message: String,
}

/// The uniform failure value of every fallible operation.
#[derive(Clone, Debug)]
pub enum RfcError {
    /// A native call failed; the error-info it filled in is kept intact.
    Native(ErrorKind, RfcErrorInfo),
    /// A string could not be converted to or from the native form.
    Encoding,
}

impl RfcErrorInfo {
    /// An error-info that holds no error, ready to be filled in by a native call.
    pub fn new() -> (r: RfcErrorInfo)
        ensures
            r.code == RFC_OK,
            r.group == GROUP_OK,
            r.key@ == Seq::<char>::empty(),
            r.message@ == Seq::<char>::empty(),
    {
        RfcErrorInfo { code: RFC_OK, group: GROUP_OK, key: String::new(), message: String::new() }
    }
}

impl RfcError {
    pub open spec fn spec_kind(&self) -> ErrorKind {
        match self {
            RfcError::Native(k, _) => *k,
            RfcError::Encoding => ErrorKind::EncodingError,
        }
    }

    /// The kind of failure.
    pub fn kind(&self) -> (r: ErrorKind)
        ensures
            r == self.spec_kind(),
    {
        match self {
            RfcError::Native(k, _) => *k,
            RfcError::Encoding => ErrorKind::EncodingError,
        }
    }
}

/// The kind a failed operation reports: a network failure is reported as such
/// whatever the operation was.
pub open spec fn failure_kind(op: ErrorKind, group: u32) -> ErrorKind {
    if group == GROUP_COMMUNICATION_FAILURE {
        ErrorKind::CommunicationFailure
    } else {
        op
    }
}

/// The failure value for an operation of kind `op` whose native call filled in `info`.
pub open spec fn promoted(op: ErrorKind, info: RfcErrorInfo) -> RfcError {
    RfcError::Native(failure_kind(op, info.group), info)
}

/// Whether a native status code is the success code.
pub fn is_rc_ok(rc: u32) -> (r: bool)
    ensures
        r == (rc == RFC_OK),
{
    rc == RFC_OK
}

/// Promotes a failed status code and the error-info filled in with it.
pub fn check_rc(rc: u32, info: RfcErrorInfo, op: ErrorKind) -> (r: Result<(), RfcError>)
    ensures
        rc == RFC_OK <==> r is Ok,
        rc != RFC_OK ==> r == Err::<(), RfcError>(promoted(op, info)),
{
    if is_rc_ok(rc) {
        Ok(())
    } else {
        Err(promote(op, info))
    }
}

/// Promotes a null handle returned by a native call, with the error-info filled in with it.
pub fn check_handle(handle: usize, info: RfcErrorInfo, op: ErrorKind) -> (r: Result<usize, RfcError>)
    ensures
        handle != 0 ==> r == Ok::<usize, RfcError>(handle),
        handle == 0 ==> r == Err::<usize, RfcError>(promoted(op, info)),
{
    if handle != 0 {
        Ok(handle)
    } else {
        Err(promote(op, info))
    }
}

fn promote(op: ErrorKind, info: RfcErrorInfo) -> (r: RfcError)
    ensures
        r == promoted(op, info),
{
    if info.group == GROUP_COMMUNICATION_FAILURE {
        RfcError::Native(ErrorKind::CommunicationFailure, info)
    } else {
        RfcError::Native(op, info)
    }
}

} // verus!
