//! Capture session lifecycle, the checks a started or recovered capture must
//! pass, and the reconnect state machine.
use vstd::prelude::*;
use crate::error::{CameraError, CameraResult};
use crate::format::{spec_video_format, CaptureFormat, VideoFormat};
use crate::rate::{CameraConfig, FrameRate};
use crate::device::IdentityStability;
use crate::backends::BackendType;

verus! {

/// Lifecycle state of a capture session.
#[derive(Clone, Debug, PartialEq, Eq)]
pub enum SessionState {
    Starting,
    Streaming,
    Recovering { attempt: u32 },
    Stopping,
    Stopped,
    Failed(String),
}

impl SessionState {
    /// Frames are flowing.
    pub fn is_streaming(&self) -> (r: bool)
        ensures
            r == (*self is Streaming),
    {
        match self {
            SessionState::Streaming => true,
            _ => false,
        }
    }

    /// The session has ended and will not change state again.
    pub fn is_terminal(&self) -> (r: bool)
        ensures
            r == (*self is Stopped || *self is Failed),
    {
        match self {
            SessionState::Stopped | SessionState::Failed(_) => true,
            _ => false,
        }
    }
}

/// A change of the negotiated capture that a session reports.
#[derive(Clone, Copy, Debug, PartialEq, Eq, Structural)]
pub enum Adjustment {
    /// The driver selected another resolution.
    Resolution { width: u32, height: u32 },
    /// The driver selected another frame rate.
    FrameRate { requested: FrameRate, selected: FrameRate },
    /// The driver selected another capture format.
    Format(VideoFormat),
}

/// Something that happened to a session.
#[derive(Clone, Debug, PartialEq, Eq)]
pub enum SessionEvent {
    Lifecycle(SessionState),
    ConfigurationAdjusted(Adjustment),
    ResourcePressure { dropped_frames: u64 },
    Missed { count: u64 },
}

impl SessionEvent {
    /// A lifecycle transition.
    pub fn is_lifecycle(&self) -> (r: bool)
        ensures
            r == (*self is Lifecycle),
    {
        match self {
            SessionEvent::Lifecycle(_) => true,
            _ => false,
        }
    }
}

/// A recovered capture must reproduce the negotiated resolution, format and
/// frame rate, and its first frame must have the negotiated dimensions.
pub fn validate_recovered_capture(
    expected: &CameraConfig,
    actual: &CameraConfig,
    first_width: u32,
    first_height: u32,
) -> (r: CameraResult<()>)
    ensures
        ({
            let same_mode = actual.width == expected.width && actual.height == expected.height
                && actual.format == expected.format;
            if !same_mode {
                r matches Err(e) && e is UnsupportedFormat
            } else if actual.fps == 0 || actual.fps_denominator == 0 || expected.fps == 0
                || expected.fps_denominator == 0 {
                r matches Err(e) && e is InvalidConfig
            } else if actual.fps * expected.fps_denominator != expected.fps * actual.fps_denominator {
                r matches Err(e) && e is UnsupportedFormat
            } else if first_width != actual.width || first_height != actual.height {
                r matches Err(e) && e is InvalidFormat
            } else {
                r is Ok
            }
        }),
{
    if actual.width != expected.width || actual.height != expected.height || actual.format != expected.format {
        return Err(CameraError::UnsupportedFormat(String::from_str("Recovered capture differs from the negotiated configuration")));
    }
    match actual.frame_rate() {
        Ok(_) => {},
        Err(e) => return Err(e),
    }
    match expected.frame_rate() {
        Ok(_) => {},
        Err(e) => return Err(e),
    }
    proof {
        crate::rate::lemma_u32_product(actual.fps, expected.fps_denominator);
        crate::rate::lemma_u32_product(expected.fps, actual.fps_denominator);
    }
    if (actual.fps as u64) * (expected.fps_denominator as u64) != (expected.fps as u64) * (actual.fps_denominator as u64) {
        return Err(CameraError::UnsupportedFormat(String::from_str("Recovered capture differs from the negotiated configuration")));
    }
    if first_width != actual.width || first_height != actual.height {
        return Err(CameraError::InvalidFormat(String::from_str("Recovered first frame differs from negotiated dimensions")));
    }
    Ok(())
}

/// What a capture start asked the driver for.
#[derive(Clone, Copy, Debug, PartialEq, Eq, Structural)]
pub struct NegotiationTarget {
    pub width: u32,
    pub height: u32,
    pub fps: FrameRate,
    /// The capture format asked for, if any.
    pub format: Option<VideoFormat>,
    /// Any change of resolution, rate or format fails the start.
    pub exact: bool,
}

/// What the driver changed with respect to the target.
#[derive(Clone, Copy, Debug, PartialEq, Eq)]
pub struct NegotiatedAdjustments {
    /// The selected resolution, when it differs.
    pub resolution: Option<(u32, u32)>,
    /// The requested and the selected rate, when they differ.
    pub frame_rate: Option<(FrameRate, FrameRate)>,
    /// The selected format, when a format was asked for and it differs.
    pub format: Option<VideoFormat>,
}

/// The negotiated rate differs in value from the target rate.
pub open spec fn spec_rate_changed(target: NegotiationTarget, actual: CameraConfig) -> bool {
    actual.fps * target.fps.den() != target.fps.num() * actual.fps_denominator
}

pub open spec fn spec_resolution_changed(target: NegotiationTarget, actual: CameraConfig) -> bool {
    actual.width != target.width || actual.height != target.height
}

pub open spec fn spec_format_changed(target: NegotiationTarget, actual: CameraConfig) -> bool {
    target.format matches Some(f) && f != actual.format
}

/// Checks the configuration a driver negotiated: a valid rate, at least the
/// minimum rate, an accepted format, no change at all for an exact target,
/// and a first frame of the negotiated size. Reports what changed.
pub fn check_negotiated(
    target: &NegotiationTarget,
    minimum_fps: Option<FrameRate>,
    accepted: &Vec<CaptureFormat>,
    actual: &CameraConfig,
    first_width: u32,
    first_height: u32,
) -> (r: CameraResult<NegotiatedAdjustments>)
    requires
        target.fps.wf(),
    ensures
        ({
            let below_minimum = minimum_fps matches Some(m) && actual.fps * m.den() < m.num() * actual.fps_denominator;
            let rejected_format = accepted@.len() > 0 && !exists|i: int| 0 <= i < accepted@.len()
                && spec_video_format(#[trigger] accepted@[i]) == actual.format;
            let changed = spec_resolution_changed(*target, *actual) || spec_rate_changed(*target, *actual)
                || spec_format_changed(*target, *actual);
            if actual.fps == 0 || actual.fps_denominator == 0 {
                r matches Err(e) && e is InvalidConfig
            } else if below_minimum || rejected_format || (target.exact && changed) {
                r matches Err(e) && e is UnsupportedFormat
            } else if first_width != actual.width || first_height != actual.height {
                r matches Err(e) && e is InvalidFormat
            } else {
                r matches Ok(adj) && {
                    &&& adj.resolution == (if spec_resolution_changed(*target, *actual) {
                        Some((actual.width, actual.height))
                    } else {
                        None
                    })
                    &&& (adj.frame_rate is Some <==> spec_rate_changed(*target, *actual))
                    &&& (adj.frame_rate matches Some((requested, selected)) ==> requested == target.fps
                        && selected.num() * actual.fps_denominator == actual.fps * selected.den())
                    &&& adj.format == (if spec_format_changed(*target, *actual) {
                        Some(actual.format)
                    } else {
                        None
                    })
                }
            }
        }),
{
    let rate = match actual.frame_rate() {
        Ok(rate) => rate,
        Err(e) => return Err(e),
    };
    match minimum_fps {
        Some(m) => {
            let mn = m.numerator();
            let md = m.denominator();
            proof {
                crate::rate::lemma_u32_product(actual.fps, md);
                crate::rate::lemma_u32_product(mn, actual.fps_denominator);
            }
            if (actual.fps as u64) * (md as u64) < (mn as u64) * (actual.fps_denominator as u64) {
                return Err(CameraError::UnsupportedFormat(String::from_str("Driver negotiated a frame rate below the required minimum")));
            }
        },
        None => {},
    }
    if accepted.len() > 0 {
        let mut found = false;
        let mut i: usize = 0;
        while i < accepted.len()
            invariant
                i <= accepted@.len(),
                found == exists|j: int| 0 <= j < i && spec_video_format(#[trigger] accepted@[j]) == actual.format,
            decreases accepted@.len() - i,
        {
            if accepted[i].to_video_format() == actual.format {
                found = true;
            }
            i = i + 1;
        }
        if !found {
            return Err(CameraError::UnsupportedFormat(String::from_str("Driver negotiated an unaccepted format")));
        }
    }
    let tn = target.fps.numerator();
    let td = target.fps.denominator();
    proof {
        crate::rate::lemma_u32_product(actual.fps, td);
        crate::rate::lemma_u32_product(tn, actual.fps_denominator);
    }
    let resolution_changed = actual.width != target.width || actual.height != target.height;
    let rate_changed = (actual.fps as u64) * (td as u64) != (tn as u64) * (actual.fps_denominator as u64);
    let format_changed = match target.format {
        Some(f) => f != actual.format,
        None => false,
    };
    if target.exact && (resolution_changed || rate_changed || format_changed) {
        return Err(CameraError::UnsupportedFormat(String::from_str("Native driver changed an exact request")));
    }
    if first_width != actual.width || first_height != actual.height {
        return Err(CameraError::InvalidFormat(String::from_str("First frame differs from negotiated dimensions")));
    }
    Ok(NegotiatedAdjustments {
        resolution: if resolution_changed { Some((actual.width, actual.height)) } else { None },
        frame_rate: if rate_changed { Some((target.fps, rate)) } else { None },
        format: if format_changed { Some(actual.format) } else { None },
    })
}

/// Checks a capture start against the camera it starts, in this order: H264
/// cannot be delivered as RGB (it needs native output and an outside
/// decoder); a synthetic camera produces RGB only; automatic reconnect needs
/// an identity that survives re-enumeration.
pub fn check_start_request(
    format: Option<VideoFormat>,
    rgb_output: bool,
    synthetic: bool,
    reconnect: bool,
    stability: IdentityStability,
) -> (r: CameraResult<()>)
    ensures
        if rgb_output && format == Some(VideoFormat::H264) {
            r matches Err(e) && e is UnsupportedFormat
        } else if synthetic && (format matches Some(f) && f != VideoFormat::RGB) {
            r matches Err(e) && e is UnsupportedFormat
        } else if reconnect && stability == IdentityStability::EnumerationOnly {
            r matches Err(e) && e is InvalidConfig
        } else {
            r is Ok
        },
{
    if rgb_output && format == Some(VideoFormat::H264) {
        return Err(CameraError::UnsupportedFormat(String::from_str("H264 requires native output and an external decoder")));
    }
    if synthetic {
        match format {
            Some(f) => {
                if f != VideoFormat::RGB {
                    return Err(CameraError::UnsupportedFormat(String::from_str("Synthetic source produces RGB only")));
                }
            },
            None => {},
        }
    }
    if reconnect && stability == IdentityStability::EnumerationOnly {
        return Err(CameraError::InvalidConfig(String::from_str("Automatic reconnect requires a stable native identity")));
    }
    Ok(())
}

/// Checks a requested driver queue depth: only a native V4L2 camera takes
/// one. `native_backend` is the backend of a native camera, `None` for
/// synthetic and custom sources, which ignore the setting.
pub fn check_driver_buffers(driver_buffers: Option<u32>, native_backend: Option<BackendType>) -> (r: CameraResult<()>)
    ensures
        r is Err <==> (driver_buffers is Some && (native_backend matches Some(b) && b != BackendType::V4l2)),
        r matches Err(e) ==> e is InvalidConfig,
{
    match (driver_buffers, native_backend) {
        (Some(_), Some(b)) => {
            if b != BackendType::V4l2 {
                return Err(CameraError::InvalidConfig(String::from_str("Driver queue configuration is only supported by V4L2")));
            }
            Ok(())
        },
        _ => Ok(()),
    }
}

/// What the recovery task of a session learned since its last step.
#[derive(Clone, Copy, Debug, PartialEq, Eq, Structural)]
pub enum RecoveryEvent {
    /// After the reconnect delay: whether the session is stopping, and
    /// whether its latest frame is missing or older than the stall timeout.
    Checked { stopping: bool, stale: bool },
    /// The lifecycle lock is held: whether the session is stopping.
    Locked { stopping: bool },
    /// A recovery attempt ended: whether the session is stopping, and whether
    /// the source restarted and delivered a matching first frame.
    Finished { stopping: bool, succeeded: bool },
}

/// What the recovery task does next.
#[derive(Clone, Copy, Debug, PartialEq, Eq, Structural)]
pub enum RecoveryAction {
    /// Leave the recovery task.
    Exit,
    /// The stream is healthy: sleep for the reconnect delay again.
    Wait,
    /// Take the lifecycle lock before recovering.
    Lock,
    /// Enter `Recovering { attempt }` and restart the source.
    Recover { attempt: u32 },
    /// Stop the source, then leave the recovery task.
    StopAndExit,
    /// Recovery worked: back to `Streaming`.
    Resume,
    /// Recovery failed: stop the source and try again after the delay.
    Retry,
    /// Recovery failed for the last allowed time: the session fails.
    Fail,
}

/// The next attempt count and action of the recovery task, from the count
/// of consecutive failed attempts so far and what it learned. The count
/// resets whenever the stream is healthy or a recovery works; with
/// `max_attempts` of `n`, the attempt that fails while the count is `n` or
/// more fails the session.
pub open spec fn spec_recovery_step(attempt: u32, max_attempts: Option<u32>, event: RecoveryEvent) -> (u32, RecoveryAction) {
    match event {
        RecoveryEvent::Checked { stopping, stale } => if stopping {
            (attempt, RecoveryAction::Exit)
        } else if !stale {
            (0, RecoveryAction::Wait)
        } else {
            (attempt, RecoveryAction::Lock)
        },
        RecoveryEvent::Locked { stopping } => if stopping {
            (attempt, RecoveryAction::Exit)
        } else {
            ((attempt + 1) as u32, RecoveryAction::Recover { attempt: (attempt + 1) as u32 })
        },
        RecoveryEvent::Finished { stopping, succeeded } => if stopping {
            (attempt, RecoveryAction::StopAndExit)
        } else if succeeded {
            (0, RecoveryAction::Resume)
        } else if max_attempts matches Some(n) && attempt >= n {
            (attempt, RecoveryAction::Fail)
        } else {
            (attempt, RecoveryAction::Retry)
        },
    }
}

/// One step of the recovery task of a session that reconnects on stalls.
pub fn recovery_step(attempt: u32, max_attempts: Option<u32>, event: RecoveryEvent) -> (r: (u32, RecoveryAction))
    requires
        event is Locked ==> attempt < u32::MAX,
    ensures
        r == spec_recovery_step(attempt, max_attempts, event),
{
    match event {
        RecoveryEvent::Checked { stopping, stale } => {
            if stopping {
                (attempt, RecoveryAction::Exit)
            } else if !stale {
                (0, RecoveryAction::Wait)
            } else {
                (attempt, RecoveryAction::Lock)
            }
        },
        RecoveryEvent::Locked { stopping } => {
            if stopping {
                (attempt, RecoveryAction::Exit)
            } else {
                (attempt + 1, RecoveryAction::Recover { attempt: attempt + 1 })
            }
        },
        RecoveryEvent::Finished { stopping, succeeded } => {
            if stopping {
                (attempt, RecoveryAction::StopAndExit)
            } else if succeeded {
                (0, RecoveryAction::Resume)
            } else {
                match max_attempts {
                    Some(n) => {
                        if attempt >= n {
                            (attempt, RecoveryAction::Fail)
                        } else {
                            (attempt, RecoveryAction::Retry)
                        }
                    },
                    None => (attempt, RecoveryAction::Retry),
                }
            }
        },
    }
}

/// With a limit of `n` attempts, recovery never tries more than `n` times in
/// a row: from a count below `n`, a new attempt is numbered at most `n`; an
/// attempt numbered `n` that fails fails the session; any other failed
/// attempt leaves a count below `n`; and a stopping session always leaves.
pub proof fn lemma_recovery_bounded(attempt: u32, n: u32, event: RecoveryEvent)
    requires
        attempt <= n,
        event is Locked ==> attempt < n,
    ensures
        ({
            let (next, action) = spec_recovery_step(attempt, Some(n), event);
            &&& (action matches RecoveryAction::Recover { attempt: a } ==> 1 <= a <= n && next == a)
            &&& (action == RecoveryAction::Retry ==> next < n)
            &&& (event matches RecoveryEvent::Finished { stopping: false, succeeded: false } && attempt == n ==> action == RecoveryAction::Fail)
            &&& (action != RecoveryAction::Exit && action != RecoveryAction::StopAndExit && action != RecoveryAction::Fail ==> next <= n)
            &&& (event matches RecoveryEvent::Checked { stopping: true, .. } ==> action == RecoveryAction::Exit)
            &&& (event matches RecoveryEvent::Locked { stopping: true } ==> action == RecoveryAction::Exit)
            &&& (event matches RecoveryEvent::Finished { stopping: true, .. } ==> action == RecoveryAction::StopAndExit)
        }),
{
}

} // verus!
