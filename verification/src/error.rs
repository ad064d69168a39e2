//! Structured, backend-neutral errors.
use vstd::prelude::*;
use crate::device::DeviceId;
use crate::ids::BackendId;
use crate::platform::TargetOs;
use crate::text::{chars_of, same_chars};

verus! {

/// Stable semantic category of an error.
#[derive(Clone, Copy, Debug, PartialEq, Eq, Structural, Hash)]
pub enum CameraErrorKind {
    InvalidFormat,
    UnsupportedFormat,
    InvalidConfig,
    InvalidState,
    BackendNotCompiled,
    UnsupportedTarget,
    BackendOptionMismatch,
    ControlNotSupported,
    DeviceNotFound,
    AmbiguousDevice,
    PermissionDenied,
    PermissionManagedExternally,
    DeviceBusy,
    PermissionRequired,
    BackendAttemptsFailed,
    BackendFailure,
    Timeout,
    StreamStopped,
    Disconnected,
    Internal,
}

/// What a caller can do about an error.
#[derive(Clone, Copy, Debug, PartialEq, Eq, Structural, Hash)]
pub enum RecoveryHint {
    NoAction,
    Retry,
    ReenumerateDevice,
    RequestPermission,
    ChangeConfiguration,
    EnableBackend,
    DropFrame,
}

/// Error of every public operation.
#[derive(Debug)]
pub enum CameraError {
    InvalidFormat(String),
    UnsupportedFormat(String),
    InvalidConfig(String),
    InvalidState(String),
    BackendNotCompiled { backend: BackendId },
    UnsupportedTarget { backend: BackendId, target: TargetOs },
    BackendOptionMismatch { option_backend: BackendId, selected_backend: BackendId },
    ControlNotSupported(String),
    DeviceNotFound(String),
    AmbiguousDevice(String),
    PermissionDenied(String),
    PermissionManagedExternally { backend: BackendId },
    /// The device is in use by another client.
    DeviceBusy(String),
    /// Access must be granted before the operation can succeed.
    PermissionRequired(String),
    /// Every backend tried failed; each failure is kept, in order.
    BackendAttemptsFailed(Vec<BackendAttempt>),
    Native { backend: BackendId, operation: String, code: i64, message: String },
    /// An operation did not finish in time.
    Timeout,
    StreamStopped,
    Disconnected(String),
    Other(String),
    /// An error together with where it arose.
    WithContext { error: Box<CameraError>, context: ErrorContext },
}

impl Clone for CameraError {
    fn clone(&self) -> (c: CameraError)
        decreases self,
    {
        match self {
            CameraError::InvalidFormat(m) => CameraError::InvalidFormat(m.clone()),
            CameraError::UnsupportedFormat(m) => CameraError::UnsupportedFormat(m.clone()),
            CameraError::InvalidConfig(m) => CameraError::InvalidConfig(m.clone()),
            CameraError::InvalidState(m) => CameraError::InvalidState(m.clone()),
            CameraError::BackendNotCompiled { backend } => CameraError::BackendNotCompiled { backend: *backend },
            CameraError::UnsupportedTarget { backend, target } => CameraError::UnsupportedTarget { backend: *backend, target: *target },
            CameraError::BackendOptionMismatch { option_backend, selected_backend } => CameraError::BackendOptionMismatch {
                option_backend: *option_backend,
                selected_backend: *selected_backend,
            },
            CameraError::ControlNotSupported(m) => CameraError::ControlNotSupported(m.clone()),
            CameraError::DeviceNotFound(m) => CameraError::DeviceNotFound(m.clone()),
            CameraError::AmbiguousDevice(m) => CameraError::AmbiguousDevice(m.clone()),
            CameraError::PermissionDenied(m) => CameraError::PermissionDenied(m.clone()),
            CameraError::PermissionManagedExternally { backend } => CameraError::PermissionManagedExternally { backend: *backend },
            CameraError::DeviceBusy(m) => CameraError::DeviceBusy(m.clone()),
            CameraError::PermissionRequired(m) => CameraError::PermissionRequired(m.clone()),
            CameraError::BackendAttemptsFailed(v) => CameraError::BackendAttemptsFailed(v.clone()),
            CameraError::Native { backend, operation, code, message } => CameraError::Native {
                backend: *backend,
                operation: operation.clone(),
                code: *code,
                message: message.clone(),
            },
            CameraError::Timeout => CameraError::Timeout,
            CameraError::StreamStopped => CameraError::StreamStopped,
            CameraError::Disconnected(m) => CameraError::Disconnected(m.clone()),
            CameraError::Other(m) => CameraError::Other(m.clone()),
            CameraError::WithContext { error, context } => {
                let inner: &CameraError = error;
                CameraError::WithContext { error: Box::new(inner.clone()), context: context.clone() }
            },
        }
    }
}

/// The step of an operation at which an error arose.
#[derive(Clone, Copy, Debug, PartialEq, Eq, Structural, Hash)]
pub enum OperationStage {
    Enumeration,
    Open,
    Startup,
    FirstFrame,
    BackendCommand,
    Worker,
    Close,
}

/// Where an error arose, as far as it is known.
#[derive(Clone, Debug)]
pub struct ErrorContext {
    pub backend: Option<BackendId>,
    pub device: Option<DeviceId>,
    pub stage: Option<OperationStage>,
    pub operation: Option<String>,
    pub native_code: Option<i64>,
}

/// Category of an error.
pub open spec fn spec_error_kind(error: CameraError) -> CameraErrorKind
    decreases error,
{
    match error {
        CameraError::InvalidFormat(_) => CameraErrorKind::InvalidFormat,
        CameraError::UnsupportedFormat(_) => CameraErrorKind::UnsupportedFormat,
        CameraError::InvalidConfig(_) => CameraErrorKind::InvalidConfig,
        CameraError::InvalidState(_) => CameraErrorKind::InvalidState,
        CameraError::BackendNotCompiled { .. } => CameraErrorKind::BackendNotCompiled,
        CameraError::UnsupportedTarget { .. } => CameraErrorKind::UnsupportedTarget,
        CameraError::BackendOptionMismatch { .. } => CameraErrorKind::BackendOptionMismatch,
        CameraError::ControlNotSupported(_) => CameraErrorKind::ControlNotSupported,
        CameraError::DeviceNotFound(_) => CameraErrorKind::DeviceNotFound,
        CameraError::AmbiguousDevice(_) => CameraErrorKind::AmbiguousDevice,
        CameraError::PermissionDenied(_) => CameraErrorKind::PermissionDenied,
        CameraError::PermissionManagedExternally { .. } => CameraErrorKind::PermissionManagedExternally,
        CameraError::DeviceBusy(_) => CameraErrorKind::DeviceBusy,
        CameraError::PermissionRequired(_) => CameraErrorKind::PermissionRequired,
        CameraError::BackendAttemptsFailed(_) => CameraErrorKind::BackendAttemptsFailed,
        CameraError::Native { .. } => CameraErrorKind::BackendFailure,
        CameraError::Timeout => CameraErrorKind::Timeout,
        CameraError::StreamStopped => CameraErrorKind::StreamStopped,
        CameraError::Disconnected(_) => CameraErrorKind::Disconnected,
        CameraError::Other(_) => CameraErrorKind::Internal,
        CameraError::WithContext { error, .. } => spec_error_kind(*error),
    }
}

/// Recovery advice for a category.
pub open spec fn spec_kind_recovery(kind: CameraErrorKind) -> RecoveryHint {
    match kind {
        CameraErrorKind::InvalidFormat => RecoveryHint::DropFrame,
        CameraErrorKind::UnsupportedFormat => RecoveryHint::ChangeConfiguration,
        CameraErrorKind::InvalidConfig => RecoveryHint::ChangeConfiguration,
        CameraErrorKind::BackendOptionMismatch => RecoveryHint::ChangeConfiguration,
        CameraErrorKind::ControlNotSupported => RecoveryHint::ChangeConfiguration,
        CameraErrorKind::BackendNotCompiled => RecoveryHint::EnableBackend,
        CameraErrorKind::UnsupportedTarget => RecoveryHint::EnableBackend,
        CameraErrorKind::DeviceNotFound => RecoveryHint::ReenumerateDevice,
        CameraErrorKind::AmbiguousDevice => RecoveryHint::ReenumerateDevice,
        CameraErrorKind::Disconnected => RecoveryHint::ReenumerateDevice,
        CameraErrorKind::PermissionDenied => RecoveryHint::RequestPermission,
        CameraErrorKind::PermissionRequired => RecoveryHint::RequestPermission,
        CameraErrorKind::DeviceBusy => RecoveryHint::Retry,
        CameraErrorKind::BackendFailure => RecoveryHint::Retry,
        CameraErrorKind::Timeout => RecoveryHint::Retry,
        CameraErrorKind::StreamStopped => RecoveryHint::Retry,
        _ => RecoveryHint::NoAction,
    }
}

/// Recovery advice for an error: that of its category, except that a
/// failure of every backend takes the advice of its first cause (none when
/// it has no cause, or its first cause is itself such a failure).
pub open spec fn spec_error_recovery(e: CameraError) -> RecoveryHint
    decreases e,
{
    match e {
        CameraError::WithContext { error, .. } => spec_error_recovery(*error),
        CameraError::BackendAttemptsFailed(v) => if v@.len() > 0
            && v@[0].kind != CameraErrorKind::BackendAttemptsFailed {
            spec_kind_recovery(v@[0].kind)
        } else {
            RecoveryHint::NoAction
        },
        _ => spec_kind_recovery(spec_error_kind(e)),
    }
}

/// One backend tried while starting a capture, and how it failed: the
/// category of its error and its diagnostic text.
#[derive(Clone, Debug)]
pub struct BackendAttempt {
    pub backend: BackendId,
    pub kind: CameraErrorKind,
    pub message: String,
}

fn kind_recovery(kind: CameraErrorKind) -> (hint: RecoveryHint)
    ensures
        hint == spec_kind_recovery(kind),
{
    match kind {
        CameraErrorKind::InvalidFormat => RecoveryHint::DropFrame,
        CameraErrorKind::UnsupportedFormat => RecoveryHint::ChangeConfiguration,
        CameraErrorKind::InvalidConfig => RecoveryHint::ChangeConfiguration,
        CameraErrorKind::BackendOptionMismatch => RecoveryHint::ChangeConfiguration,
        CameraErrorKind::ControlNotSupported => RecoveryHint::ChangeConfiguration,
        CameraErrorKind::BackendNotCompiled => RecoveryHint::EnableBackend,
        CameraErrorKind::UnsupportedTarget => RecoveryHint::EnableBackend,
        CameraErrorKind::DeviceNotFound => RecoveryHint::ReenumerateDevice,
        CameraErrorKind::AmbiguousDevice => RecoveryHint::ReenumerateDevice,
        CameraErrorKind::Disconnected => RecoveryHint::ReenumerateDevice,
        CameraErrorKind::PermissionDenied => RecoveryHint::RequestPermission,
        CameraErrorKind::PermissionRequired => RecoveryHint::RequestPermission,
        CameraErrorKind::DeviceBusy => RecoveryHint::Retry,
        CameraErrorKind::BackendFailure => RecoveryHint::Retry,
        CameraErrorKind::Timeout => RecoveryHint::Retry,
        CameraErrorKind::StreamStopped => RecoveryHint::Retry,
        _ => RecoveryHint::NoAction,
    }
}

/// Stable machine-readable name of a category.
pub open spec fn spec_kind_name(v: CameraErrorKind) -> Seq<char> {
    match v {
        CameraErrorKind::InvalidFormat => "invalid_format"@,
        CameraErrorKind::UnsupportedFormat => "unsupported_format"@,
        CameraErrorKind::InvalidConfig => "invalid_config"@,
        CameraErrorKind::InvalidState => "invalid_state"@,
        CameraErrorKind::BackendNotCompiled => "backend_not_compiled"@,
        CameraErrorKind::UnsupportedTarget => "unsupported_target"@,
        CameraErrorKind::BackendOptionMismatch => "backend_option_mismatch"@,
        CameraErrorKind::ControlNotSupported => "control_not_supported"@,
        CameraErrorKind::DeviceNotFound => "device_not_found"@,
        CameraErrorKind::AmbiguousDevice => "ambiguous_device"@,
        CameraErrorKind::PermissionDenied => "permission_denied"@,
        CameraErrorKind::PermissionManagedExternally => "permission_managed_externally"@,
        CameraErrorKind::DeviceBusy => "device_busy"@,
        CameraErrorKind::PermissionRequired => "permission_required"@,
        CameraErrorKind::BackendAttemptsFailed => "backend_attempts_failed"@,
        CameraErrorKind::BackendFailure => "backend_failure"@,
        CameraErrorKind::Timeout => "timeout"@,
        CameraErrorKind::StreamStopped => "stream_stopped"@,
        CameraErrorKind::Disconnected => "disconnected"@,
        CameraErrorKind::Internal => "internal"@,
    }
}

impl CameraErrorKind {
    /// Stable machine-readable name, in snake case.
    pub fn as_str(&self) -> (text: &'static str)
        ensures
            text@ == spec_kind_name(*self),
    {
        match self {
            CameraErrorKind::InvalidFormat => "invalid_format",
            CameraErrorKind::UnsupportedFormat => "unsupported_format",
            CameraErrorKind::InvalidConfig => "invalid_config",
            CameraErrorKind::InvalidState => "invalid_state",
            CameraErrorKind::BackendNotCompiled => "backend_not_compiled",
            CameraErrorKind::UnsupportedTarget => "unsupported_target",
            CameraErrorKind::BackendOptionMismatch => "backend_option_mismatch",
            CameraErrorKind::ControlNotSupported => "control_not_supported",
            CameraErrorKind::DeviceNotFound => "device_not_found",
            CameraErrorKind::AmbiguousDevice => "ambiguous_device",
            CameraErrorKind::PermissionDenied => "permission_denied",
            CameraErrorKind::PermissionManagedExternally => "permission_managed_externally",
            CameraErrorKind::DeviceBusy => "device_busy",
            CameraErrorKind::PermissionRequired => "permission_required",
            CameraErrorKind::BackendAttemptsFailed => "backend_attempts_failed",
            CameraErrorKind::BackendFailure => "backend_failure",
            CameraErrorKind::Timeout => "timeout",
            CameraErrorKind::StreamStopped => "stream_stopped",
            CameraErrorKind::Disconnected => "disconnected",
            CameraErrorKind::Internal => "internal",
        }
    }
}

/// Stable machine-readable name of a recovery hint.
pub open spec fn spec_hint_name(v: RecoveryHint) -> Seq<char> {
    match v {
        RecoveryHint::NoAction => "none"@,
        RecoveryHint::Retry => "retry"@,
        RecoveryHint::ReenumerateDevice => "reenumerate_device"@,
        RecoveryHint::RequestPermission => "request_permission"@,
        RecoveryHint::ChangeConfiguration => "change_configuration"@,
        RecoveryHint::EnableBackend => "enable_backend"@,
        RecoveryHint::DropFrame => "drop_frame"@,
    }
}

impl RecoveryHint {
    /// Stable machine-readable name, in snake case.
    pub fn as_str(&self) -> (text: &'static str)
        ensures
            text@ == spec_hint_name(*self),
    {
        match self {
            RecoveryHint::NoAction => "none",
            RecoveryHint::Retry => "retry",
            RecoveryHint::ReenumerateDevice => "reenumerate_device",
            RecoveryHint::RequestPermission => "request_permission",
            RecoveryHint::ChangeConfiguration => "change_configuration",
            RecoveryHint::EnableBackend => "enable_backend",
            RecoveryHint::DropFrame => "drop_frame",
        }
    }
}

fn unknown_code() -> (e: CameraError)
    ensures
        e matches CameraError::InvalidConfig(m) && m@ == "unknown code"@,
{
    CameraError::InvalidConfig(String::from_str("unknown code"))
}

/// Length, first, last and second-to-last character of a non-empty code:
/// enough to tell the stable names apart.
pub open spec fn spec_code_sig(s: Seq<char>) -> (int, char, char, char) {
    (s.len() as int, s[0], s[s.len() - 1], s[s.len() - 2])
}

proof fn lemma_kind_sig(k: CameraErrorKind)
    ensures
        spec_code_sig(spec_kind_name(k)) == match k {
            CameraErrorKind::InvalidFormat => (14int, 'i', 't', 'a'),
            CameraErrorKind::UnsupportedFormat => (18int, 'u', 't', 'a'),
            CameraErrorKind::InvalidConfig => (14int, 'i', 'g', 'i'),
            CameraErrorKind::InvalidState => (13int, 'i', 'e', 't'),
            CameraErrorKind::BackendNotCompiled => (20int, 'b', 'd', 'e'),
            CameraErrorKind::UnsupportedTarget => (18int, 'u', 't', 'e'),
            CameraErrorKind::BackendOptionMismatch => (23int, 'b', 'h', 'c'),
            CameraErrorKind::ControlNotSupported => (21int, 'c', 'd', 'e'),
            CameraErrorKind::DeviceNotFound => (16int, 'd', 'd', 'n'),
            CameraErrorKind::AmbiguousDevice => (16int, 'a', 'e', 'c'),
            CameraErrorKind::PermissionDenied => (17int, 'p', 'd', 'e'),
            CameraErrorKind::PermissionManagedExternally => (29int, 'p', 'y', 'l'),
            CameraErrorKind::DeviceBusy => (11int, 'd', 'y', 's'),
            CameraErrorKind::PermissionRequired => (19int, 'p', 'd', 'e'),
            CameraErrorKind::BackendAttemptsFailed => (23int, 'b', 'd', 'e'),
            CameraErrorKind::BackendFailure => (15int, 'b', 'e', 'r'),
            CameraErrorKind::Timeout => (7int, 't', 't', 'u'),
            CameraErrorKind::StreamStopped => (14int, 's', 'd', 'e'),
            CameraErrorKind::Disconnected => (12int, 'd', 'd', 'e'),
            CameraErrorKind::Internal => (8int, 'i', 'l', 'a'),
        },
{
    match k {
        CameraErrorKind::InvalidFormat => {
            reveal_strlit("invalid_format");
        },
        CameraErrorKind::UnsupportedFormat => {
            reveal_strlit("unsupported_format");
        },
        CameraErrorKind::InvalidConfig => {
            reveal_strlit("invalid_config");
        },
        CameraErrorKind::InvalidState => {
            reveal_strlit("invalid_state");
        },
        CameraErrorKind::BackendNotCompiled => {
            reveal_strlit("backend_not_compiled");
        },
        CameraErrorKind::UnsupportedTarget => {
            reveal_strlit("unsupported_target");
        },
        CameraErrorKind::BackendOptionMismatch => {
            reveal_strlit("backend_option_mismatch");
        },
        CameraErrorKind::ControlNotSupported => {
            reveal_strlit("control_not_supported");
        },
        CameraErrorKind::DeviceNotFound => {
            reveal_strlit("device_not_found");
        },
        CameraErrorKind::AmbiguousDevice => {
            reveal_strlit("ambiguous_device");
        },
        CameraErrorKind::PermissionDenied => {
            reveal_strlit("permission_denied");
        },
        CameraErrorKind::PermissionManagedExternally => {
            reveal_strlit("permission_managed_externally");
        },
        CameraErrorKind::DeviceBusy => {
            reveal_strlit("device_busy");
        },
        CameraErrorKind::PermissionRequired => {
            reveal_strlit("permission_required");
        },
        CameraErrorKind::BackendAttemptsFailed => {
            reveal_strlit("backend_attempts_failed");
        },
        CameraErrorKind::BackendFailure => {
            reveal_strlit("backend_failure");
        },
        CameraErrorKind::Timeout => {
            reveal_strlit("timeout");
        },
        CameraErrorKind::StreamStopped => {
            reveal_strlit("stream_stopped");
        },
        CameraErrorKind::Disconnected => {
            reveal_strlit("disconnected");
        },
        CameraErrorKind::Internal => {
            reveal_strlit("internal");
        },
    }
}

proof fn lemma_hint_sig(k: RecoveryHint)
    ensures
        spec_code_sig(spec_hint_name(k)) == match k {
            RecoveryHint::NoAction => (4int, 'n', 'e', 'n'),
            RecoveryHint::Retry => (5int, 'r', 'y', 'r'),
            RecoveryHint::ReenumerateDevice => (18int, 'r', 'e', 'c'),
            RecoveryHint::RequestPermission => (18int, 'r', 'n', 'o'),
            RecoveryHint::ChangeConfiguration => (20int, 'c', 'n', 'o'),
            RecoveryHint::EnableBackend => (14int, 'e', 'd', 'n'),
            RecoveryHint::DropFrame => (10int, 'd', 'e', 'm'),
        },
{
    match k {
        RecoveryHint::NoAction => {
            reveal_strlit("none");
        },
        RecoveryHint::Retry => {
            reveal_strlit("retry");
        },
        RecoveryHint::ReenumerateDevice => {
            reveal_strlit("reenumerate_device");
        },
        RecoveryHint::RequestPermission => {
            reveal_strlit("request_permission");
        },
        RecoveryHint::ChangeConfiguration => {
            reveal_strlit("change_configuration");
        },
        RecoveryHint::EnableBackend => {
            reveal_strlit("enable_backend");
        },
        RecoveryHint::DropFrame => {
            reveal_strlit("drop_frame");
        },
    }
}

impl CameraErrorKind {
    /// The error category whose stable name is `code`, if any.
    pub fn from_code(code: &str) -> (r: Option<CameraErrorKind>)
        ensures
            forall|k: CameraErrorKind| r == Some(k) <==> code@ == spec_kind_name(k),
    {
        let c = chars_of(code);
        let r = if same_chars(c.as_slice(), chars_of("invalid_format").as_slice()) {
            Some(CameraErrorKind::InvalidFormat)
        } else if same_chars(c.as_slice(), chars_of("unsupported_format").as_slice()) {
            Some(CameraErrorKind::UnsupportedFormat)
        } else if same_chars(c.as_slice(), chars_of("invalid_config").as_slice()) {
            Some(CameraErrorKind::InvalidConfig)
        } else if same_chars(c.as_slice(), chars_of("invalid_state").as_slice()) {
            Some(CameraErrorKind::InvalidState)
        } else if same_chars(c.as_slice(), chars_of("backend_not_compiled").as_slice()) {
            Some(CameraErrorKind::BackendNotCompiled)
        } else if same_chars(c.as_slice(), chars_of("unsupported_target").as_slice()) {
            Some(CameraErrorKind::UnsupportedTarget)
        } else if same_chars(c.as_slice(), chars_of("backend_option_mismatch").as_slice()) {
            Some(CameraErrorKind::BackendOptionMismatch)
        } else if same_chars(c.as_slice(), chars_of("control_not_supported").as_slice()) {
            Some(CameraErrorKind::ControlNotSupported)
        } else if same_chars(c.as_slice(), chars_of("device_not_found").as_slice()) {
            Some(CameraErrorKind::DeviceNotFound)
        } else if same_chars(c.as_slice(), chars_of("ambiguous_device").as_slice()) {
            Some(CameraErrorKind::AmbiguousDevice)
        } else if same_chars(c.as_slice(), chars_of("permission_denied").as_slice()) {
            Some(CameraErrorKind::PermissionDenied)
        } else if same_chars(c.as_slice(), chars_of("permission_managed_externally").as_slice()) {
            Some(CameraErrorKind::PermissionManagedExternally)
        } else if same_chars(c.as_slice(), chars_of("device_busy").as_slice()) {
            Some(CameraErrorKind::DeviceBusy)
        } else if same_chars(c.as_slice(), chars_of("permission_required").as_slice()) {
            Some(CameraErrorKind::PermissionRequired)
        } else if same_chars(c.as_slice(), chars_of("backend_attempts_failed").as_slice()) {
            Some(CameraErrorKind::BackendAttemptsFailed)
        } else if same_chars(c.as_slice(), chars_of("backend_failure").as_slice()) {
            Some(CameraErrorKind::BackendFailure)
        } else if same_chars(c.as_slice(), chars_of("timeout").as_slice()) {
            Some(CameraErrorKind::Timeout)
        } else if same_chars(c.as_slice(), chars_of("stream_stopped").as_slice()) {
            Some(CameraErrorKind::StreamStopped)
        } else if same_chars(c.as_slice(), chars_of("disconnected").as_slice()) {
            Some(CameraErrorKind::Disconnected)
        } else if same_chars(c.as_slice(), chars_of("internal").as_slice()) {
            Some(CameraErrorKind::Internal)
        } else {
            None
        };
        proof {
            assert(spec_kind_name(CameraErrorKind::InvalidFormat) == "invalid_format"@);
            assert(spec_kind_name(CameraErrorKind::UnsupportedFormat) == "unsupported_format"@);
            assert(spec_kind_name(CameraErrorKind::InvalidConfig) == "invalid_config"@);
            assert(spec_kind_name(CameraErrorKind::InvalidState) == "invalid_state"@);
            assert(spec_kind_name(CameraErrorKind::BackendNotCompiled) == "backend_not_compiled"@);
            assert(spec_kind_name(CameraErrorKind::UnsupportedTarget) == "unsupported_target"@);
            assert(spec_kind_name(CameraErrorKind::BackendOptionMismatch) == "backend_option_mismatch"@);
            assert(spec_kind_name(CameraErrorKind::ControlNotSupported) == "control_not_supported"@);
            assert(spec_kind_name(CameraErrorKind::DeviceNotFound) == "device_not_found"@);
            assert(spec_kind_name(CameraErrorKind::AmbiguousDevice) == "ambiguous_device"@);
            assert(spec_kind_name(CameraErrorKind::PermissionDenied) == "permission_denied"@);
            assert(spec_kind_name(CameraErrorKind::PermissionManagedExternally) == "permission_managed_externally"@);
            assert(spec_kind_name(CameraErrorKind::DeviceBusy) == "device_busy"@);
            assert(spec_kind_name(CameraErrorKind::PermissionRequired) == "permission_required"@);
            assert(spec_kind_name(CameraErrorKind::BackendAttemptsFailed) == "backend_attempts_failed"@);
            assert(spec_kind_name(CameraErrorKind::BackendFailure) == "backend_failure"@);
            assert(spec_kind_name(CameraErrorKind::Timeout) == "timeout"@);
            assert(spec_kind_name(CameraErrorKind::StreamStopped) == "stream_stopped"@);
            assert(spec_kind_name(CameraErrorKind::Disconnected) == "disconnected"@);
            assert(spec_kind_name(CameraErrorKind::Internal) == "internal"@);
            assert forall|k: CameraErrorKind| r == Some(k) <==> code@ == spec_kind_name(k) by {
                lemma_kind_sig(k);
                if r is Some {
                    lemma_kind_sig(r.unwrap());
                }
            }
        }
        r
    }
}

impl std::str::FromStr for CameraErrorKind {
    type Err = CameraError;

    fn from_str(code: &str) -> (r: Result<CameraErrorKind, CameraError>)
        ensures
            forall|k: CameraErrorKind| (r matches Ok(x) && x == k) <==> code@ == spec_kind_name(k),
            r matches Err(e) ==> (e matches CameraError::InvalidConfig(m) && m@ == "unknown code"@),
    {
        match CameraErrorKind::from_code(code) {
            Some(k) => Ok(k),
            None => Err(unknown_code()),
        }
    }
}

impl RecoveryHint {
    /// The recovery hint whose stable name is `code`, if any.
    pub fn from_code(code: &str) -> (r: Option<RecoveryHint>)
        ensures
            forall|k: RecoveryHint| r == Some(k) <==> code@ == spec_hint_name(k),
    {
        let c = chars_of(code);
        let r = if same_chars(c.as_slice(), chars_of("none").as_slice()) {
            Some(RecoveryHint::NoAction)
        } else if same_chars(c.as_slice(), chars_of("retry").as_slice()) {
            Some(RecoveryHint::Retry)
        } else if same_chars(c.as_slice(), chars_of("reenumerate_device").as_slice()) {
            Some(RecoveryHint::ReenumerateDevice)
        } else if same_chars(c.as_slice(), chars_of("request_permission").as_slice()) {
            Some(RecoveryHint::RequestPermission)
        } else if same_chars(c.as_slice(), chars_of("change_configuration").as_slice()) {
            Some(RecoveryHint::ChangeConfiguration)
        } else if same_chars(c.as_slice(), chars_of("enable_backend").as_slice()) {
            Some(RecoveryHint::EnableBackend)
        } else if same_chars(c.as_slice(), chars_of("drop_frame").as_slice()) {
            Some(RecoveryHint::DropFrame)
        } else {
            None
        };
        proof {
            assert(spec_hint_name(RecoveryHint::NoAction) == "none"@);
            assert(spec_hint_name(RecoveryHint::Retry) == "retry"@);
            assert(spec_hint_name(RecoveryHint::ReenumerateDevice) == "reenumerate_device"@);
            assert(spec_hint_name(RecoveryHint::RequestPermission) == "request_permission"@);
            assert(spec_hint_name(RecoveryHint::ChangeConfiguration) == "change_configuration"@);
            assert(spec_hint_name(RecoveryHint::EnableBackend) == "enable_backend"@);
            assert(spec_hint_name(RecoveryHint::DropFrame) == "drop_frame"@);
            assert forall|k: RecoveryHint| r == Some(k) <==> code@ == spec_hint_name(k) by {
                lemma_hint_sig(k);
                if r is Some {
                    lemma_hint_sig(r.unwrap());
                }
            }
        }
        r
    }
}

impl std::str::FromStr for RecoveryHint {
    type Err = CameraError;

    fn from_str(code: &str) -> (r: Result<RecoveryHint, CameraError>)
        ensures
            forall|k: RecoveryHint| (r matches Ok(x) && x == k) <==> code@ == spec_hint_name(k),
            r matches Err(e) ==> (e matches CameraError::InvalidConfig(m) && m@ == "unknown code"@),
    {
        match RecoveryHint::from_code(code) {
            Some(k) => Ok(k),
            None => Err(unknown_code()),
        }
    }
}

/// Stable machine-readable name of an operation stage.
pub open spec fn spec_stage_name(v: OperationStage) -> Seq<char> {
    match v {
        OperationStage::Enumeration => "enumeration"@,
        OperationStage::Open => "open"@,
        OperationStage::Startup => "startup"@,
        OperationStage::FirstFrame => "first_frame"@,
        OperationStage::BackendCommand => "backend_command"@,
        OperationStage::Worker => "worker"@,
        OperationStage::Close => "close"@,
    }
}

proof fn lemma_stage_sig(k: OperationStage)
    ensures
        spec_code_sig(spec_stage_name(k)) == match k {
            OperationStage::Enumeration => (11int, 'e', 'n', 'o'),
            OperationStage::Open => (4int, 'o', 'n', 'e'),
            OperationStage::Startup => (7int, 's', 'p', 'u'),
            OperationStage::FirstFrame => (11int, 'f', 'e', 'm'),
            OperationStage::BackendCommand => (15int, 'b', 'd', 'n'),
            OperationStage::Worker => (6int, 'w', 'r', 'e'),
            OperationStage::Close => (5int, 'c', 'e', 's'),
        },
{
    match k {
        OperationStage::Enumeration => {
            reveal_strlit("enumeration");
        },
        OperationStage::Open => {
            reveal_strlit("open");
        },
        OperationStage::Startup => {
            reveal_strlit("startup");
        },
        OperationStage::FirstFrame => {
            reveal_strlit("first_frame");
        },
        OperationStage::BackendCommand => {
            reveal_strlit("backend_command");
        },
        OperationStage::Worker => {
            reveal_strlit("worker");
        },
        OperationStage::Close => {
            reveal_strlit("close");
        },
    }
}

impl OperationStage {
    /// Stable machine-readable name, in snake case.
    pub fn as_str(&self) -> (text: &'static str)
        ensures
            text@ == spec_stage_name(*self),
    {
        match self {
            OperationStage::Enumeration => "enumeration",
            OperationStage::Open => "open",
            OperationStage::Startup => "startup",
            OperationStage::FirstFrame => "first_frame",
            OperationStage::BackendCommand => "backend_command",
            OperationStage::Worker => "worker",
            OperationStage::Close => "close",
        }
    }

    /// The operation stage whose stable name is `code`, if any.
    pub fn from_code(code: &str) -> (r: Option<OperationStage>)
        ensures
            forall|k: OperationStage| r == Some(k) <==> code@ == spec_stage_name(k),
    {
        let c = chars_of(code);
        let r = if same_chars(c.as_slice(), chars_of("enumeration").as_slice()) {
            Some(OperationStage::Enumeration)
        } else if same_chars(c.as_slice(), chars_of("open").as_slice()) {
            Some(OperationStage::Open)
        } else if same_chars(c.as_slice(), chars_of("startup").as_slice()) {
            Some(OperationStage::Startup)
        } else if same_chars(c.as_slice(), chars_of("first_frame").as_slice()) {
            Some(OperationStage::FirstFrame)
        } else if same_chars(c.as_slice(), chars_of("backend_command").as_slice()) {
            Some(OperationStage::BackendCommand)
        } else if same_chars(c.as_slice(), chars_of("worker").as_slice()) {
            Some(OperationStage::Worker)
        } else if same_chars(c.as_slice(), chars_of("close").as_slice()) {
            Some(OperationStage::Close)
        } else {
            None
        };
        proof {
            assert(spec_stage_name(OperationStage::Enumeration) == "enumeration"@);
            assert(spec_stage_name(OperationStage::Open) == "open"@);
            assert(spec_stage_name(OperationStage::Startup) == "startup"@);
            assert(spec_stage_name(OperationStage::FirstFrame) == "first_frame"@);
            assert(spec_stage_name(OperationStage::BackendCommand) == "backend_command"@);
            assert(spec_stage_name(OperationStage::Worker) == "worker"@);
            assert(spec_stage_name(OperationStage::Close) == "close"@);
            assert forall|k: OperationStage| r == Some(k) <==> code@ == spec_stage_name(k) by {
                lemma_stage_sig(k);
                if r is Some {
                    lemma_stage_sig(r.unwrap());
                }
            }
        }
        r
    }
}

impl std::str::FromStr for OperationStage {
    type Err = CameraError;

    fn from_str(code: &str) -> (r: Result<OperationStage, CameraError>)
        ensures
            forall|k: OperationStage| (r matches Ok(x) && x == k) <==> code@ == spec_stage_name(k),
            r matches Err(e) ==> (e matches CameraError::InvalidConfig(m) && m@ == "unknown code"@),
    {
        match OperationStage::from_code(code) {
            Some(k) => Ok(k),
            None => Err(unknown_code()),
        }
    }
}

/// Stable codes round-trip: no two categories, no two recovery hints and
/// no two operation stages
/// share a name, so parsing a name gives back what it names.
pub proof fn lemma_codes_round_trip(
    a: CameraErrorKind,
    b: CameraErrorKind,
    x: RecoveryHint,
    y: RecoveryHint,
    s: OperationStage,
    t: OperationStage,
)
    ensures
        spec_kind_name(a) == spec_kind_name(b) ==> a == b,
        spec_hint_name(x) == spec_hint_name(y) ==> x == y,
        spec_stage_name(s) == spec_stage_name(t) ==> s == t,
{
    lemma_kind_sig(a);
    lemma_kind_sig(b);
    lemma_hint_sig(x);
    lemma_hint_sig(y);
    lemma_stage_sig(s);
    lemma_stage_sig(t);
}

/// Result of every public operation.
pub type CameraResult<T> = Result<T, CameraError>;

/// The backend an error concerns: the one its context gives, else the one
/// its variant names.
pub open spec fn spec_error_backend(e: CameraError) -> Option<BackendId>
    decreases e,
{
    match e {
        CameraError::BackendNotCompiled { backend } => Some(backend),
        CameraError::UnsupportedTarget { backend, .. } => Some(backend),
        CameraError::BackendOptionMismatch { selected_backend, .. } => Some(selected_backend),
        CameraError::PermissionManagedExternally { backend } => Some(backend),
        CameraError::Native { backend, .. } => Some(backend),
        CameraError::WithContext { error, context } => match context.backend {
            Some(b) => Some(b),
            None => spec_error_backend(*error),
        },
        _ => None,
    }
}

/// The device an error concerns, as its context gives it.
pub open spec fn spec_error_device(e: CameraError) -> Option<DeviceId>
    decreases e,
{
    match e {
        CameraError::WithContext { error, context } => match context.device {
            Some(d) => Some(d),
            None => spec_error_device(*error),
        },
        _ => None,
    }
}

/// The stage at which an error arose, as its context gives it.
pub open spec fn spec_error_stage(e: CameraError) -> Option<OperationStage>
    decreases e,
{
    match e {
        CameraError::WithContext { error, context } => match context.stage {
            Some(s) => Some(s),
            None => spec_error_stage(*error),
        },
        _ => None,
    }
}

/// The operation that failed: the one its context gives, else that of a
/// native failure.
pub open spec fn spec_error_operation(e: CameraError) -> Option<Seq<char>>
    decreases e,
{
    match e {
        CameraError::Native { operation, .. } => Some(operation@),
        CameraError::WithContext { error, context } => match context.operation {
            Some(o) => Some(o@),
            None => spec_error_operation(*error),
        },
        _ => None,
    }
}

/// The platform's error code: the one its context gives, else that of a
/// native failure.
pub open spec fn spec_error_native_code(e: CameraError) -> Option<i64>
    decreases e,
{
    match e {
        CameraError::Native { code, .. } => Some(code),
        CameraError::WithContext { error, context } => match context.native_code {
            Some(c) => Some(c),
            None => spec_error_native_code(*error),
        },
        _ => None,
    }
}

/// The failures kept by a failure of every backend; none for another error.
pub open spec fn spec_error_attempts(e: CameraError) -> Seq<BackendAttempt>
    decreases e,
{
    match e {
        CameraError::BackendAttemptsFailed(v) => v@,
        CameraError::WithContext { error, .. } => spec_error_attempts(*error),
        _ => Seq::empty(),
    }
}

/// Diagnostic text of an error.
pub open spec fn spec_error_message(e: CameraError) -> Seq<char>
    decreases e,
{
    match e {
        CameraError::BackendNotCompiled { backend } => crate::ids::spec_backend_display(backend)
            + " backend is not available on this platform"@,
        CameraError::UnsupportedTarget { backend, .. } => crate::ids::spec_backend_display(backend)
            + " backend does not support this target"@,
        CameraError::InvalidFormat(m) => m@,
        CameraError::UnsupportedFormat(m) => m@,
        CameraError::InvalidConfig(m) => m@,
        CameraError::InvalidState(m) => m@,
        CameraError::ControlNotSupported(m) => m@,
        CameraError::DeviceNotFound(m) => m@,
        CameraError::AmbiguousDevice(m) => m@,
        CameraError::PermissionDenied(m) => m@,
        CameraError::Disconnected(m) => m@,
        CameraError::DeviceBusy(m) => m@,
        CameraError::PermissionRequired(m) => m@,
        CameraError::Other(m) => m@,
        CameraError::Native { message, .. } => message@,
        CameraError::BackendOptionMismatch { .. } => "Backend options target a different backend"@,
        CameraError::PermissionManagedExternally { .. } => "Permission is managed outside the camera library"@,
        CameraError::Timeout => "Operation timed out"@,
        CameraError::StreamStopped => "Stream stopped"@,
        CameraError::BackendAttemptsFailed(_) => "Every backend failed to start the capture"@,
        CameraError::WithContext { error, .. } => spec_error_message(*error),
    }
}

/// `b` is `a` with only its context changed: the same category, recovery
/// advice, kept failures and text.
pub open spec fn spec_same_failure(a: CameraError, b: CameraError) -> bool {
    &&& spec_error_kind(b) == spec_error_kind(a)
    &&& spec_error_recovery(b) == spec_error_recovery(a)
    &&& spec_error_attempts(b) == spec_error_attempts(a)
    &&& spec_error_message(b) == spec_error_message(a)
}

/// A context that records nothing.
fn empty_context() -> (c: ErrorContext)
    ensures
        c.backend is None && c.device is None && c.stage is None && c.operation is None && c.native_code is None,
{
    ErrorContext { backend: None, device: None, stage: None, operation: None, native_code: None }
}

impl CameraError {
    /// Stable semantic category.
    pub fn kind(&self) -> (kind: CameraErrorKind)
        ensures
            kind == spec_error_kind(*self),
        decreases self,
    {
        match self {
            CameraError::InvalidFormat(_) => CameraErrorKind::InvalidFormat,
            CameraError::UnsupportedFormat(_) => CameraErrorKind::UnsupportedFormat,
            CameraError::InvalidConfig(_) => CameraErrorKind::InvalidConfig,
            CameraError::InvalidState(_) => CameraErrorKind::InvalidState,
            CameraError::BackendNotCompiled { .. } => CameraErrorKind::BackendNotCompiled,
            CameraError::UnsupportedTarget { .. } => CameraErrorKind::UnsupportedTarget,
            CameraError::BackendOptionMismatch { .. } => CameraErrorKind::BackendOptionMismatch,
            CameraError::ControlNotSupported(_) => CameraErrorKind::ControlNotSupported,
            CameraError::DeviceNotFound(_) => CameraErrorKind::DeviceNotFound,
            CameraError::AmbiguousDevice(_) => CameraErrorKind::AmbiguousDevice,
            CameraError::PermissionDenied(_) => CameraErrorKind::PermissionDenied,
            CameraError::PermissionManagedExternally { .. } => CameraErrorKind::PermissionManagedExternally,
            CameraError::DeviceBusy(_) => CameraErrorKind::DeviceBusy,
            CameraError::PermissionRequired(_) => CameraErrorKind::PermissionRequired,
            CameraError::BackendAttemptsFailed(_) => CameraErrorKind::BackendAttemptsFailed,
            CameraError::Native { .. } => CameraErrorKind::BackendFailure,
            CameraError::Timeout => CameraErrorKind::Timeout,
            CameraError::StreamStopped => CameraErrorKind::StreamStopped,
            CameraError::Disconnected(_) => CameraErrorKind::Disconnected,
            CameraError::Other(_) => CameraErrorKind::Internal,
            CameraError::WithContext { error, .. } => error.kind(),
        }
    }

    /// Stable machine-readable name of the category.
    pub fn code(&self) -> (code: &'static str)
        ensures
            code@ == spec_kind_name(spec_error_kind(*self)),
    {
        self.kind().as_str()
    }

    /// Actionable recovery advice derived from the category; a failure of
    /// every backend takes the advice of its first cause.
    pub fn recovery_hint(&self) -> (hint: RecoveryHint)
        ensures
            hint == spec_error_recovery(*self),
        decreases self,
    {
        match self {
            CameraError::WithContext { error, .. } => error.recovery_hint(),
            CameraError::BackendAttemptsFailed(attempts) => {
                if attempts.len() > 0 {
                    let first = attempts[0].kind;
                    match first {
                        CameraErrorKind::BackendAttemptsFailed => RecoveryHint::NoAction,
                        _ => kind_recovery(first),
                    }
                } else {
                    RecoveryHint::NoAction
                }
            },
            _ => kind_recovery(self.kind()),
        }
    }

    /// Whether repeating the same operation may succeed.
    pub fn is_retryable(&self) -> (retry: bool)
        ensures
            retry == (spec_error_recovery(*self) == RecoveryHint::Retry),
    {
        let hint = self.recovery_hint();
        match hint {
            RecoveryHint::Retry => true,
            _ => false,
        }
    }

    /// Every backend tried and its failure, in order, for a failure of every
    /// backend; empty otherwise.
    pub fn backend_attempts(&self) -> (attempts: &[BackendAttempt])
        ensures
            attempts@ == spec_error_attempts(*self),
        decreases self,
    {
        match self {
            CameraError::BackendAttemptsFailed(v) => v.as_slice(),
            CameraError::WithContext { error, .. } => error.backend_attempts(),
            _ => {
                let none: &[BackendAttempt] = &[];
                proof {
                    assert(none@ =~= Seq::<BackendAttempt>::empty());
                }
                none
            },
        }
    }

    /// The category of every failure that a failure of every backend keeps,
    /// in order; empty for another error.
    pub fn causes(&self) -> (kinds: Vec<CameraErrorKind>)
        ensures
            kinds@ == spec_error_attempts(*self).map_values(|a: BackendAttempt| a.kind),
    {
        let attempts = self.backend_attempts();
        let mut kinds: Vec<CameraErrorKind> = Vec::new();
        let mut i: usize = 0;
        while i < attempts.len()
            invariant
                i <= attempts@.len(),
                kinds@ == attempts@.subrange(0, i as int).map_values(|a: BackendAttempt| a.kind),
            decreases attempts@.len() - i,
        {
            kinds.push(attempts[i].kind);
            proof {
                assert(attempts@.subrange(0, i as int + 1).map_values(|a: BackendAttempt| a.kind)
                    =~= attempts@.subrange(0, i as int).map_values(|a: BackendAttempt| a.kind).push(attempts@[i as int].kind));
            }
            i = i + 1;
        }
        proof {
            assert(attempts@.subrange(0, attempts@.len() as int) =~= attempts@);
        }
        kinds
    }

    /// The backend the error concerns: the one it was given, else the one
    /// its variant names.
    pub fn backend(&self) -> (backend: Option<BackendId>)
        ensures
            backend == spec_error_backend(*self),
        decreases self,
    {
        match self {
            CameraError::BackendNotCompiled { backend } => Some(*backend),
            CameraError::UnsupportedTarget { backend, .. } => Some(*backend),
            CameraError::BackendOptionMismatch { selected_backend, .. } => Some(*selected_backend),
            CameraError::PermissionManagedExternally { backend } => Some(*backend),
            CameraError::Native { backend, .. } => Some(*backend),
            CameraError::WithContext { error, context } => match context.backend {
                Some(b) => Some(b),
                None => error.backend(),
            },
            _ => None,
        }
    }

    /// The device the error concerns, where it was given one.
    pub fn device(&self) -> (device: Option<&DeviceId>)
        ensures
            match device {
                Some(d) => spec_error_device(*self) == Some(*d),
                None => spec_error_device(*self) is None,
            },
        decreases self,
    {
        match self {
            CameraError::WithContext { error, context } => match &context.device {
                Some(d) => Some(d),
                None => error.device(),
            },
            _ => None,
        }
    }

    /// The stage at which the error arose, where it was given one.
    pub fn stage(&self) -> (stage: Option<OperationStage>)
        ensures
            stage == spec_error_stage(*self),
        decreases self,
    {
        match self {
            CameraError::WithContext { error, context } => match context.stage {
                Some(s) => Some(s),
                None => error.stage(),
            },
            _ => None,
        }
    }

    /// The operation that failed: the one the error was given, else that of
    /// a native failure.
    pub fn operation(&self) -> (operation: Option<&str>)
        ensures
            match operation {
                Some(o) => spec_error_operation(*self) == Some(o@),
                None => spec_error_operation(*self) is None,
            },
        decreases self,
    {
        match self {
            CameraError::Native { operation, .. } => Some(operation.as_str()),
            CameraError::WithContext { error, context } => match &context.operation {
                Some(o) => Some(o.as_str()),
                None => error.operation(),
            },
            _ => None,
        }
    }

    /// The platform's error code: the one the error was given, else that of
    /// a native failure.
    pub fn native_code(&self) -> (code: Option<i64>)
        ensures
            code == spec_error_native_code(*self),
        decreases self,
    {
        match self {
            CameraError::Native { code, .. } => Some(*code),
            CameraError::WithContext { error, context } => match context.native_code {
                Some(c) => Some(c),
                None => error.native_code(),
            },
            _ => None,
        }
    }

    /// The error and its context, a context being made for an error that has
    /// none.
    fn into_parts(self) -> (parts: (CameraError, ErrorContext))
        ensures
            ({
                let (inner, context) = parts;
                match self {
                    CameraError::WithContext { error, context: c } => inner == *error && context == c,
                    _ => inner == self && context.backend is None && context.device is None
                        && context.stage is None && context.operation is None && context.native_code is None,
                }
            }),
    {
        match self {
            CameraError::WithContext { error, context } => (*error, context),
            other => (other, empty_context()),
        }
    }

    /// The same error, attributed to `backend`.
    pub fn with_backend(self, backend: BackendId) -> (e: CameraError)
        ensures
            spec_same_failure(self, e),
            spec_error_backend(e) == Some(backend),
            spec_error_device(e) == spec_error_device(self),
            spec_error_stage(e) == spec_error_stage(self),
            spec_error_operation(e) == spec_error_operation(self),
            spec_error_native_code(e) == spec_error_native_code(self),
    {
        let (inner, mut context) = self.into_parts();
        context.backend = Some(backend);
        CameraError::WithContext { error: Box::new(inner), context }
    }

    /// The same error, attributed to `device`.
    pub fn with_device(self, device: DeviceId) -> (e: CameraError)
        ensures
            spec_same_failure(self, e),
            spec_error_backend(e) == spec_error_backend(self),
            spec_error_device(e) == Some(device),
            spec_error_stage(e) == spec_error_stage(self),
            spec_error_operation(e) == spec_error_operation(self),
            spec_error_native_code(e) == spec_error_native_code(self),
    {
        let (inner, mut context) = self.into_parts();
        context.device = Some(device);
        CameraError::WithContext { error: Box::new(inner), context }
    }

    /// The same error, as arising at `stage`.
    pub fn with_stage(self, stage: OperationStage) -> (e: CameraError)
        ensures
            spec_same_failure(self, e),
            spec_error_backend(e) == spec_error_backend(self),
            spec_error_device(e) == spec_error_device(self),
            spec_error_stage(e) == Some(stage),
            spec_error_operation(e) == spec_error_operation(self),
            spec_error_native_code(e) == spec_error_native_code(self),
    {
        let (inner, mut context) = self.into_parts();
        context.stage = Some(stage);
        CameraError::WithContext { error: Box::new(inner), context }
    }

    /// The same error, as a failure of `operation`.
    pub fn with_operation(self, operation: String) -> (e: CameraError)
        ensures
            spec_same_failure(self, e),
            spec_error_backend(e) == spec_error_backend(self),
            spec_error_device(e) == spec_error_device(self),
            spec_error_stage(e) == spec_error_stage(self),
            spec_error_operation(e) == Some(operation@),
            spec_error_native_code(e) == spec_error_native_code(self),
    {
        let (inner, mut context) = self.into_parts();
        context.operation = Some(operation);
        CameraError::WithContext { error: Box::new(inner), context }
    }

    /// The same error, with the platform's error code `code`.
    pub fn with_native_code(self, code: i64) -> (e: CameraError)
        ensures
            spec_same_failure(self, e),
            spec_error_backend(e) == spec_error_backend(self),
            spec_error_device(e) == spec_error_device(self),
            spec_error_stage(e) == spec_error_stage(self),
            spec_error_operation(e) == spec_error_operation(self),
            spec_error_native_code(e) == Some(code),
    {
        let (inner, mut context) = self.into_parts();
        context.native_code = Some(code);
        CameraError::WithContext { error: Box::new(inner), context }
    }

    /// An operation that did not finish in time at `stage`.
    pub fn timeout(stage: OperationStage) -> (e: CameraError)
        ensures
            spec_error_kind(e) == CameraErrorKind::Timeout,
            spec_error_recovery(e) == RecoveryHint::Retry,
            spec_error_stage(e) == Some(stage),
            spec_error_backend(e) is None,
            spec_error_device(e) is None,
            spec_error_operation(e) is None,
            spec_error_native_code(e) is None,
    {
        CameraError::Timeout.with_stage(stage)
    }

    /// Diagnostic text. Not a compatibility surface: branch on `kind()`.
    pub fn to_message(&self) -> (text: String)
        ensures
            text@ == spec_error_message(*self),
        decreases self,
    {
        match self {
            CameraError::BackendNotCompiled { backend } => {
                let mut text = String::from_str(backend.display_name());
                text.append(" backend is not available on this platform");
                text
            },
            CameraError::UnsupportedTarget { backend, .. } => {
                let mut text = String::from_str(backend.display_name());
                text.append(" backend does not support this target");
                text
            },
            CameraError::InvalidFormat(m) | CameraError::UnsupportedFormat(m) | CameraError::InvalidConfig(m)
            | CameraError::InvalidState(m) | CameraError::ControlNotSupported(m)
            | CameraError::DeviceNotFound(m) | CameraError::AmbiguousDevice(m)
            | CameraError::PermissionDenied(m) | CameraError::Disconnected(m)
            | CameraError::DeviceBusy(m) | CameraError::PermissionRequired(m)
            | CameraError::Other(m) => m.clone(),
            CameraError::Native { message, .. } => message.clone(),
            CameraError::BackendOptionMismatch { .. } => String::from_str("Backend options target a different backend"),
            CameraError::PermissionManagedExternally { .. } => String::from_str("Permission is managed outside the camera library"),
            CameraError::Timeout => String::from_str("Operation timed out"),
            CameraError::StreamStopped => String::from_str("Stream stopped"),
            CameraError::BackendAttemptsFailed(_) => String::from_str("Every backend failed to start the capture"),
            CameraError::WithContext { error, .. } => error.to_message(),
        }
    }
}

} // verus!
