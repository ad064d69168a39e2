//! Intent-driven camera capture: backend selection, capture negotiation,
//! format identification and consumer-side RGB conversion.
pub mod platform;
pub mod text;
pub mod ids;
pub mod error;

pub use error::{BackendAttempt, CameraError, CameraErrorKind, CameraResult, ErrorContext, OperationStage, RecoveryHint};
pub use ids::BackendId;
pub use platform::{Features, Platform, TargetOs};
pub mod backends;
pub use backends::BackendType;
pub mod format;
pub use format::{CaptureFormat, FrameLayout, PixelFormat, PlaneLayout, VideoFormat};
pub mod color;
pub use color::{ColorCoefficients, ColorInfo, ColorMatrix, ColorRange};
pub mod convert;
pub mod rate;
pub mod device;
pub mod negotiation;
pub use negotiation::{CaptureProfile, CaptureRequest, CaptureRequestBuilder, NegotiationPriority};
pub mod session;
pub use session::{Adjustment, SessionEvent, SessionState};
pub mod api;
pub mod android;
pub mod blocking;
pub use api::{AvFoundationOptions, BackendAvailability, BackendOptions, BackendPolicy, Camera2Options, CameraSystem, SystemBuilder, V4l2Options};
pub use device::{CameraDeviceInfo, CameraFacing, DeviceId, DeviceInfo, IdentityStability, UsbIdentity};
pub use rate::{CameraConfig, FrameRate};
pub mod controls;
pub use controls::{CameraControlType, ControlMode};
