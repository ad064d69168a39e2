//! Synchronous facade over the camera system: the same decisions, with the
//! device listings and configurations that the caller gathered.
use vstd::prelude::*;
use crate::api::{
    plan_capture, spec_build_succeeds, spec_is_build_error, spec_backend_devices, spec_enumeration_step, spec_merged, spec_policy_backends,
    synthetic_configuration, BackendPolicy, CapturePlan,
};
use crate::device::{CameraDeviceInfo, DeviceInfo};
use crate::error::CameraResult;
use crate::ids::BackendId;
use crate::negotiation::{spec_ranked, CaptureRequest};
use crate::platform::Platform;
use crate::rate::CameraConfig;

verus! {

/// A camera system used from synchronous code.
#[derive(Debug)]
pub struct CameraSystem(crate::api::CameraSystem);

impl CameraSystem {
    pub closed spec fn spec_inner(&self) -> crate::api::CameraSystem {
        self.0
    }

    /// The system that uses the platform's native backend.
    pub fn new(platform: Platform) -> (s: CameraSystem)
        ensures
            s.spec_inner().spec_policy() == BackendPolicy::PlatformDefault,
            !s.spec_inner().spec_synthetic(),
            s.spec_inner().spec_platform() == platform,
    {
        CameraSystem(crate::api::CameraSystem::new(platform))
    }

    /// A system with only the synthetic source.
    pub fn synthetic(platform: Platform) -> (s: CameraSystem)
        ensures
            s.spec_inner().spec_policy() == BackendPolicy::Require(BackendId::Synthetic),
            s.spec_inner().spec_synthetic(),
            s.spec_inner().spec_platform() == platform,
    {
        CameraSystem(crate::api::CameraSystem::synthetic(platform))
    }

    /// A system with `policy`: what building a system with that policy and
    /// no options gives, so a preference list must not be empty.
    pub fn with_policy(platform: Platform, policy: BackendPolicy) -> (r: CameraResult<CameraSystem>)
        ensures
            match r {
                Ok(s) => spec_build_succeeds(Seq::empty(), policy) && s.spec_inner().spec_policy() == policy
                    && !s.spec_inner().spec_synthetic() && s.spec_inner().spec_options().len() == 0
                    && s.spec_inner().spec_platform() == platform,
                Err(e) => spec_is_build_error(Seq::empty(), policy, e),
            },
            r is Ok <==> !(policy matches BackendPolicy::Prefer(list) && list@.len() == 0),
            r matches Err(e) ==> e is InvalidConfig,
    {
        let builder = crate::api::CameraSystem::builder(platform).backend_policy(policy);
        proof {
            crate::api::lemma_empty_options_valid(builder.spec_options(), builder.spec_policy());
            assert(builder.spec_options() =~= Seq::<crate::api::BackendOptions>::empty());
        }
        match builder.build() {
            Ok(system) => Ok(CameraSystem(system)),
            Err(e) => Err(e),
        }
    }

    /// Wraps an existing system.
    pub fn from_async(system: crate::api::CameraSystem) -> (s: CameraSystem)
        ensures
            s.spec_inner() == system,
    {
        CameraSystem(system)
    }

    /// The wrapped system.
    pub fn system(&self) -> (s: &crate::api::CameraSystem)
        ensures
            *s == self.spec_inner(),
    {
        &self.0
    }

    /// Enumerates the policy's backends, `listings[k]` being the listing of
    /// the `k`-th one.
    pub fn devices(&self, listings: Vec<CameraResult<Vec<CameraDeviceInfo>>>) -> (r: CameraResult<Vec<DeviceInfo>>)
        ensures
            exists|outs: Seq<CameraResult<Vec<DeviceInfo>>>| {
                let backends = spec_policy_backends(self.spec_inner().spec_policy(), self.spec_inner().spec_platform());
                &&& outs.len() == backends.len()
                &&& forall|k: int| 0 <= k < outs.len() ==> spec_backend_devices(
                    spec_enumeration_step(self.spec_inner().spec_synthetic(), self.spec_inner().spec_platform(), backends[k]),
                    if k < listings@.len() { Some(listings@[k]) } else { None },
                    #[trigger] outs[k],
                )
                &&& #[trigger] spec_merged(outs, r)
            },
    {
        self.0.devices_blocking(listings)
    }

    /// Plans a capture on `device`: the synthetic device offers the
    /// request's own mode; another device offers `configurations`.
    pub fn plan(&self, device: &DeviceInfo, request: &CaptureRequest, configurations: Vec<CameraConfig>) -> (r: CameraResult<CapturePlan>)
        requires
            request.preferred_fps.wf(),
        ensures
            device.id.backend != BackendId::Synthetic ==> match r {
                Ok(plan) => spec_ranked(configurations@, *request).len() > 0
                    && plan.selected == spec_ranked(configurations@, *request)[0]
                    && plan.alternatives@ == spec_ranked(configurations@, *request).subrange(1, spec_ranked(configurations@, *request).len() as int),
                Err(e) => spec_ranked(configurations@, *request).len() == 0 && e is UnsupportedFormat,
            },
            device.id.backend == BackendId::Synthetic ==> match r {
                Ok(plan) => {
                    let only = seq![crate::api::spec_synthetic_configuration(*request)];
                    spec_ranked(only, *request).len() > 0 && plan.selected == spec_ranked(only, *request)[0]
                        && plan.alternatives@ == spec_ranked(only, *request).subrange(1, spec_ranked(only, *request).len() as int)
                },
                Err(e) => spec_ranked(seq![crate::api::spec_synthetic_configuration(*request)], *request).len() == 0
                    && e is UnsupportedFormat,
            },
    {
        if device.id.backend == BackendId::Synthetic {
            let mut only = Vec::new();
            only.push(synthetic_configuration(request));
            proof {
                assert(only@ =~= seq![crate::api::spec_synthetic_configuration(*request)]);
            }
            plan_capture(request, only)
        } else {
            plan_capture(request, configurations)
        }
    }
}

} // verus!
