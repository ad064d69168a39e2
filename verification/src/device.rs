//! Device identity: enumerated devices, their stable identifiers and facing.
use vstd::prelude::*;
use crate::backends::{spec_backend_id, BackendType};
use crate::ids::BackendId;
use crate::text::{
    contains, lower_chars, push_decimal, push_hex4, spec_contains, spec_decimal, spec_hex4,
    spec_lower_seq,
};

verus! {

/// Where a camera points.
#[derive(Clone, Copy, Debug, PartialEq, Eq, Structural, Hash)]
pub enum CameraFacing {
    Front,
    Back,
    External,
    Unknown,
}

/// How long a device identifier stays valid.
#[derive(Clone, Copy, Debug, PartialEq, Eq, Structural, Hash)]
pub enum IdentityStability {
    /// The identifier survives re-enumeration and reconnection.
    Native,
    /// The identifier is only valid for the enumeration that produced it.
    EnumerationOnly,
}

/// USB identity of a device.
#[derive(Clone, Debug, PartialEq, Eq, Hash)]
pub struct UsbIdentity {
    pub vendor_id: u16,
    pub product_id: u16,
    pub serial_number: Option<String>,
}

/// Backend-qualified device identifier.
#[derive(Clone, Debug, PartialEq, Eq, Hash)]
pub struct DeviceId {
    pub backend: BackendId,
    pub native: String,
}

/// A device as the camera system presents it.
#[derive(Clone, Debug)]
pub struct DeviceInfo {
    pub id: DeviceId,
    pub name: String,
    pub description: String,
    pub stability: IdentityStability,
    pub index: u32,
    pub facing: CameraFacing,
    pub usb: Option<UsbIdentity>,
}

/// A device as a backend enumerates it.
#[derive(Clone, Debug)]
pub struct CameraDeviceInfo {
    pub index: u32,
    pub name: String,
    pub description: String,
    pub vendor_id: Option<u16>,
    pub product_id: Option<u16>,
    pub serial_number: Option<String>,
    pub device_path: Option<String>,
}

/// A string option that is present and not empty.
pub open spec fn spec_nonempty(s: Option<String>) -> bool {
    s matches Some(v) && v@.len() > 0
}

/// Identifier of an enumerated device: its device path when it has one;
/// else `vvvv:pppp:serial` when it has USB ids and a serial number; else
/// its enumeration index.
pub open spec fn spec_unique_id(d: CameraDeviceInfo) -> Seq<char> {
    if spec_nonempty(d.device_path) {
        d.device_path.unwrap()@
    } else if spec_nonempty(d.serial_number) && d.vendor_id is Some && d.product_id is Some {
        spec_hex4(d.vendor_id.unwrap()) + seq![':'] + spec_hex4(d.product_id.unwrap()) + seq![':']
            + d.serial_number.unwrap()@
    } else {
        seq!['i', 'n', 'd', 'e', 'x', ':'] + spec_decimal(d.index as nat)
    }
}

fn nonempty(s: &Option<String>) -> (r: bool)
    ensures
        r == spec_nonempty(*s),
{
    match s {
        Some(v) => v.as_str().unicode_len() > 0,
        None => false,
    }
}

impl CameraDeviceInfo {
    /// A device with only an index, a name and a description.
    pub fn new(index: u32, name: String, description: String) -> (d: CameraDeviceInfo)
        ensures
            d.index == index && d.name == name && d.description == description,
            d.vendor_id is None && d.product_id is None,
            d.serial_number is None && d.device_path is None,
    {
        CameraDeviceInfo {
            index,
            name,
            description,
            vendor_id: None,
            product_id: None,
            serial_number: None,
            device_path: None,
        }
    }

    /// The device's identifier within its backend.
    pub fn unique_id(&self) -> (id: String)
        ensures
            id@ == spec_unique_id(*self),
    {
        if nonempty(&self.device_path) {
            match &self.device_path {
                Some(p) => return p.clone(),
                None => {},
            }
        }
        if nonempty(&self.serial_number) {
            match (self.vendor_id, self.product_id, &self.serial_number) {
                (Some(v), Some(p), Some(serial)) => {
                    let mut id = String::new();
                    push_hex4(&mut id, v);
                    id.append(":");
                    push_hex4(&mut id, p);
                    id.append(":");
                    id.append(serial.as_str());
                    proof {
                        reveal_strlit(":");
                        assert(id@ =~= spec_unique_id(*self));
                    }
                    return id;
                },
                _ => {},
            }
        }
        let mut id = String::from_str("index:");
        push_decimal(&mut id, self.index);
        proof {
            reveal_strlit("index:");
            assert(id@ =~= spec_unique_id(*self));
        }
        id
    }
}

/// Facing guessed from the words of a device's name and description, in
/// ASCII lowercase: "front" or "user"; then "back", "rear" or "environment";
/// then "usb" or "external".
pub open spec fn spec_infer_facing(name: Seq<char>, description: Seq<char>) -> CameraFacing {
    let v = spec_lower_seq(name + seq![' '] + description);
    if spec_contains(v, seq!['f', 'r', 'o', 'n', 't']) || spec_contains(v, seq!['u', 's', 'e', 'r']) {
        CameraFacing::Front
    } else if spec_contains(v, seq!['b', 'a', 'c', 'k']) || spec_contains(v, seq!['r', 'e', 'a', 'r'])
        || spec_contains(v, seq!['e', 'n', 'v', 'i', 'r', 'o', 'n', 'm', 'e', 'n', 't']) {
        CameraFacing::Back
    } else if spec_contains(v, seq!['u', 's', 'b']) || spec_contains(v, seq!['e', 'x', 't', 'e', 'r', 'n', 'a', 'l']) {
        CameraFacing::External
    } else {
        CameraFacing::Unknown
    }
}

/// Guesses where a camera points from its name and description.
pub fn infer_facing(name: &str, description: &str) -> (f: CameraFacing)
    ensures
        f == spec_infer_facing(name@, description@),
{
    let mut v = lower_chars(name);
    v.push(' ');
    let d = lower_chars(description);
    let mut i: usize = 0;
    let ghost head = v@;
    while i < d.len()
        invariant
            i <= d@.len(),
            v@ == head + d@.subrange(0, i as int),
        decreases d@.len() - i,
    {
        v.push(d[i]);
        proof {
            assert(d@.subrange(0, i as int + 1) =~= d@.subrange(0, i as int).push(d@[i as int]));
        }
        i = i + 1;
    }
    proof {
        assert(d@.subrange(0, d@.len() as int) =~= d@);
        assert(v@ =~= spec_lower_seq(name@ + seq![' '] + description@));
    }
    let front: [char; 5] = ['f', 'r', 'o', 'n', 't'];
    let user: [char; 4] = ['u', 's', 'e', 'r'];
    let back: [char; 4] = ['b', 'a', 'c', 'k'];
    let rear: [char; 4] = ['r', 'e', 'a', 'r'];
    let environment: [char; 11] = ['e', 'n', 'v', 'i', 'r', 'o', 'n', 'm', 'e', 'n', 't'];
    let usb: [char; 3] = ['u', 's', 'b'];
    let external: [char; 8] = ['e', 'x', 't', 'e', 'r', 'n', 'a', 'l'];
    proof {
        assert(front@ =~= seq!['f', 'r', 'o', 'n', 't']);
        assert(user@ =~= seq!['u', 's', 'e', 'r']);
        assert(back@ =~= seq!['b', 'a', 'c', 'k']);
        assert(rear@ =~= seq!['r', 'e', 'a', 'r']);
        assert(environment@ =~= seq!['e', 'n', 'v', 'i', 'r', 'o', 'n', 'm', 'e', 'n', 't']);
        assert(usb@ =~= seq!['u', 's', 'b']);
        assert(external@ =~= seq!['e', 'x', 't', 'e', 'r', 'n', 'a', 'l']);
    }
    if contains(v.as_slice(), &front) || contains(v.as_slice(), &user) {
        CameraFacing::Front
    } else if contains(v.as_slice(), &back) || contains(v.as_slice(), &rear) || contains(v.as_slice(), &environment) {
        CameraFacing::Back
    } else if contains(v.as_slice(), &usb) || contains(v.as_slice(), &external) {
        CameraFacing::External
    } else {
        CameraFacing::Unknown
    }
}

pub open spec fn spec_dev_video() -> Seq<char> {
    seq!['/', 'd', 'e', 'v', '/', 'v', 'i', 'd', 'e', 'o']
}

/// An enumerated device keeps its identifier across re-enumeration when it
/// has a device path (other than a V4L2 `/dev/video*` node, which the kernel
/// renumbers) or a serial number.
pub open spec fn spec_stable_identity(backend: BackendType, d: CameraDeviceInfo) -> bool {
    ||| spec_nonempty(d.device_path) && !(backend == BackendType::V4l2 && d.device_path.unwrap()@.len()
        >= 10 && d.device_path.unwrap()@.subrange(0, 10) == spec_dev_video())
    ||| spec_nonempty(d.serial_number)
}

fn stable_identity(backend: BackendType, d: &CameraDeviceInfo) -> (r: bool)
    ensures
        r == spec_stable_identity(backend, *d),
{
    let path_stable = match &d.device_path {
        Some(p) => {
            let chars = crate::text::chars_of(p.as_str());
            if chars.len() == 0 {
                false
            } else if backend == BackendType::V4l2 && chars.len() >= 10 {
                let prefix: [char; 10] = ['/', 'd', 'e', 'v', '/', 'v', 'i', 'd', 'e', 'o'];
                let mut same = true;
                let mut i: usize = 0;
                while i < 10
                    invariant
                        i <= 10,
                        chars@.len() >= 10,
                        prefix@ == spec_dev_video(),
                        same == (forall|j: int| 0 <= j < i ==> chars@[j] == prefix@[j]),
                    decreases 10 - i,
                {
                    if chars[i] != prefix[i] {
                        same = false;
                    }
                    i = i + 1;
                }
                proof {
                    if same {
                        assert(chars@.subrange(0, 10) =~= spec_dev_video());
                    } else {
                        assert(chars@.subrange(0, 10) != spec_dev_video()) by {
                            let j = choose|j: int| 0 <= j < 10 && chars@[j] != prefix@[j];
                            assert(chars@.subrange(0, 10)[j] != spec_dev_video()[j]);
                        }
                    }
                }
                !same
            } else {
                true
            }
        },
        None => false,
    };
    path_stable || nonempty(&d.serial_number)
}

/// `info` presents the enumerated device `d` of `backend`: its identifier is
/// the backend's id and the device's unique id, its facing is guessed from
/// its name and description, and it has a USB identity when both USB ids are
/// known.
pub open spec fn spec_presents(backend: BackendType, d: CameraDeviceInfo, info: DeviceInfo) -> bool {
    &&& info.id.backend == spec_backend_id(backend)
    &&& info.id.native@ == spec_unique_id(d)
    &&& info.name == d.name
    &&& info.description == d.description
    &&& info.index == d.index
    &&& info.stability == (if spec_stable_identity(backend, d) {
        IdentityStability::Native
    } else {
        IdentityStability::EnumerationOnly
    })
    &&& info.facing == spec_infer_facing(d.name@, d.description@)
    &&& info.usb == (if d.vendor_id is Some && d.product_id is Some {
        Some(UsbIdentity {
            vendor_id: d.vendor_id.unwrap(),
            product_id: d.product_id.unwrap(),
            serial_number: d.serial_number,
        })
    } else {
        None
    })
}

/// Presents an enumerated device of `backend`.
pub fn device_info(backend: BackendType, d: CameraDeviceInfo) -> (info: DeviceInfo)
    ensures
        spec_presents(backend, d, info),
{
    let native = d.unique_id();
    let stable = stable_identity(backend, &d);
    let facing = infer_facing(d.name.as_str(), d.description.as_str());
    let usb = match (d.vendor_id, d.product_id) {
        (Some(vendor_id), Some(product_id)) => Some(UsbIdentity { vendor_id, product_id, serial_number: d.serial_number }),
        _ => None,
    };
    DeviceInfo {
        id: DeviceId { backend: backend.to_backend_id(), native },
        name: d.name,
        description: d.description,
        stability: if stable { IdentityStability::Native } else { IdentityStability::EnumerationOnly },
        index: d.index,
        facing,
        usb,
    }
}

/// `info` is the device of the synthetic source: `test-pattern`, "Synthetic
/// RGB camera", with a native identity and unknown facing.
pub open spec fn spec_is_synthetic_device(info: DeviceInfo) -> bool {
    &&& info.id.backend == BackendId::Synthetic
    &&& info.id.native@ == seq!['t', 'e', 's', 't', '-', 'p', 'a', 't', 't', 'e', 'r', 'n']
    &&& info.name@ == "Synthetic RGB camera"@
    &&& info.description@ == "Deterministic capture source"@
    &&& info.stability == IdentityStability::Native
    &&& info.index == 0
    &&& info.facing == CameraFacing::Unknown
    &&& info.usb is None
}

/// The device of the synthetic source.
pub fn device_info_synthetic() -> (info: DeviceInfo)
    ensures
        spec_is_synthetic_device(info),
{
    let native = String::from_str("test-pattern");
    let name = String::from_str("Synthetic RGB camera");
    let description = String::from_str("Deterministic capture source");
    proof {
        reveal_strlit("test-pattern");
        assert(native@ =~= seq!['t', 'e', 's', 't', '-', 'p', 'a', 't', 't', 'e', 'r', 'n']);
    }
    let info = DeviceInfo {
        id: DeviceId { backend: BackendId::Synthetic, native },
        name,
        description,
        stability: IdentityStability::Native,
        index: 0,
        facing: CameraFacing::Unknown,
        usb: None,
    };
    info
}

/// Devices with different device paths have different identifiers.
pub proof fn lemma_device_paths_distinguish(a: CameraDeviceInfo, b: CameraDeviceInfo)
    requires
        spec_nonempty(a.device_path),
        spec_nonempty(b.device_path),
        a.device_path.unwrap()@ != b.device_path.unwrap()@,
    ensures
        spec_unique_id(a) != spec_unique_id(b),
{
}


/// Facing follows the words of a device's name and description, whatever
/// their ASCII case: "front" or "user" means front; otherwise "back", "rear"
/// or "environment" means back; otherwise "usb" or "external" means
/// external; otherwise it is unknown.
pub proof fn lemma_facing_from_words(name: Seq<char>, description: Seq<char>)
    ensures
        ({
            let v = spec_lower_seq(name + seq![' '] + description);
            let front = spec_contains(v, "front"@) || spec_contains(v, "user"@);
            let back = spec_contains(v, "back"@) || spec_contains(v, "rear"@) || spec_contains(v, "environment"@);
            let external = spec_contains(v, "usb"@) || spec_contains(v, "external"@);
            &&& front ==> spec_infer_facing(name, description) == CameraFacing::Front
            &&& !front && back ==> spec_infer_facing(name, description) == CameraFacing::Back
            &&& !front && !back && external ==> spec_infer_facing(name, description) == CameraFacing::External
            &&& !front && !back && !external ==> spec_infer_facing(name, description) == CameraFacing::Unknown
        }),
{
    reveal_strlit("front");
    reveal_strlit("user");
    reveal_strlit("back");
    reveal_strlit("rear");
    reveal_strlit("environment");
    reveal_strlit("usb");
    reveal_strlit("external");
    assert("front"@ =~= seq!['f', 'r', 'o', 'n', 't']);
    assert("user"@ =~= seq!['u', 's', 'e', 'r']);
    assert("back"@ =~= seq!['b', 'a', 'c', 'k']);
    assert("rear"@ =~= seq!['r', 'e', 'a', 'r']);
    assert("environment"@ =~= seq!['e', 'n', 'v', 'i', 'r', 'o', 'n', 'm', 'e', 'n', 't']);
    assert("usb"@ =~= seq!['u', 's', 'b']);
    assert("external"@ =~= seq!['e', 'x', 't', 'e', 'r', 'n', 'a', 'l']);
}

} // verus!
