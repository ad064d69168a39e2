//! Build-time facts that select backends: the target operating system and the
//! backend features that were compiled in.
use vstd::prelude::*;

verus! {

/// Operating system that the library was built for.
#[derive(Clone, Copy, Debug, PartialEq, Eq, Structural, Hash)]
pub enum TargetOs {
    Linux,
    Android,
    MacOs,
    Ios,
    Windows,
    Other,
}

/// Backend features selected at build time.
#[derive(Clone, Copy, Debug, PartialEq, Eq, Structural, Hash)]
pub struct Features {
    /// The platform convenience bundle.
    pub native: bool,
    pub backend_uvc: bool,
    pub backend_v4l2: bool,
    pub backend_avfoundation: bool,
    pub backend_camera2: bool,
    pub backend_mf: bool,
}

impl Features {
    /// No capture backend compiled in.
    pub fn none() -> (f: Self)
        ensures
            !f.native && !f.backend_uvc && !f.backend_v4l2 && !f.backend_avfoundation
                && !f.backend_camera2 && !f.backend_mf,
    {
        Features {
            native: false,
            backend_uvc: false,
            backend_v4l2: false,
            backend_avfoundation: false,
            backend_camera2: false,
            backend_mf: false,
        }
    }
}

/// Target and feature set that decide which backends exist in a build.
#[derive(Clone, Copy, Debug, PartialEq, Eq, Structural, Hash)]
pub struct Platform {
    pub os: TargetOs,
    pub features: Features,
}

impl Platform {
    /// A build for `os` without any capture backend.
    pub fn without_backends(os: TargetOs) -> (p: Self)
        ensures
            p.os == os,
            !p.features.native && !p.features.backend_uvc && !p.features.backend_v4l2
                && !p.features.backend_avfoundation && !p.features.backend_camera2 && !p.features.backend_mf,
    {
        Platform { os, features: Features::none() }
    }

    pub open spec fn is_apple(self) -> bool {
        self.os == TargetOs::MacOs || self.os == TargetOs::Ios
    }

    pub open spec fn is_linux_like(self) -> bool {
        self.os == TargetOs::Linux || self.os == TargetOs::Android
    }

    /// Whether the V4L2 backend is built: a Linux or Android target with the
    /// `backend-v4l2` feature.
    pub open spec fn v4l2_built(self) -> bool {
        self.is_linux_like() && self.features.backend_v4l2
    }
}

} // verus!
