//! Exact frame rates and capture configurations.
use vstd::prelude::*;
use crate::error::{CameraError, CameraResult};
use crate::format::VideoFormat;

verus! {

/// Greatest common divisor by Euclid's algorithm.
pub open spec fn spec_gcd(a: nat, b: nat) -> nat
    decreases b,
{
    if b == 0 {
        a
    } else {
        spec_gcd(b, a % b)
    }
}

/// `d` divides `n`.
pub open spec fn divides(d: nat, n: nat) -> bool {
    exists|k: nat| #[trigger] (d * k) == n
}

proof fn lemma_gcd_divides(a: nat, b: nat)
    requires
        a > 0 || b > 0,
    ensures
        spec_gcd(a, b) > 0,
        a % spec_gcd(a, b) == 0,
        b % spec_gcd(a, b) == 0,
    decreases b,
{
    if b == 0 {
        assert(a % a == 0) by (nonlinear_arith)
            requires
                a > 0,
        ;
        assert(0nat % a == 0);
    } else {
        lemma_gcd_divides(b, a % b);
        let g = spec_gcd(b, a % b);
        // a == b * (a / b) + a % b, and g divides b and a % b.
        vstd::arithmetic::div_mod::lemma_fundamental_div_mod(a as int, b as int);
        let q = a / b;
        let r = a % b;
        let kb = b / g;
        let kr = r / g;
        vstd::arithmetic::div_mod::lemma_fundamental_div_mod(b as int, g as int);
        vstd::arithmetic::div_mod::lemma_fundamental_div_mod(r as int, g as int);
        let m: int = (kb * q + kr) as int;
        assert(a == m * g) by (nonlinear_arith)
            requires
                a == b * q + r,
                b == g * kb,
                r == g * kr,
                m == kb * q + kr,
        ;
        vstd::arithmetic::div_mod::lemma_mod_multiples_basic(m, g as int);
    }
}

/// The product of two 32-bit values fits in 64 bits.
pub proof fn lemma_u32_product(a: u32, b: u32)
    ensures
        0 <= (a as int) * (b as int) <= 0xFFFF_FFFE_0000_0001,
{
    assert(0 <= (a as int) * (b as int) <= 0xFFFF_FFFE_0000_0001) by (nonlinear_arith)
        requires
            0 <= a <= 0xFFFF_FFFF,
            0 <= b <= 0xFFFF_FFFF,
    ;
}

/// A positive frame rate `numerator / denominator` frames per second, kept in
/// lowest terms.
#[derive(Clone, Copy, Debug, PartialEq, Eq, Structural, Hash)]
pub struct FrameRate {
    numerator: u32,
    denominator: u32,
}

impl FrameRate {
    /// Both terms are positive.
    pub open spec fn wf(self) -> bool {
        self.num() > 0 && self.den() > 0
    }

    pub closed spec fn num(self) -> nat {
        self.numerator as nat
    }

    pub closed spec fn den(self) -> nat {
        self.denominator as nat
    }

    /// The rate `n / d` in lowest terms.
    pub open spec fn spec_reduced(n: nat, d: nat) -> (nat, nat) {
        (n / spec_gcd(n, d), d / spec_gcd(n, d))
    }

    /// Creates `numerator / denominator` frames per second in lowest terms;
    /// a zero term is an invalid configuration.
    pub fn new(numerator: u32, denominator: u32) -> (r: CameraResult<FrameRate>)
        ensures
            match r {
                Ok(rate) => numerator > 0 && denominator > 0 && (rate.num(), rate.den())
                    == FrameRate::spec_reduced(numerator as nat, denominator as nat) && rate.num() > 0
                    && rate.den() > 0 && rate.num() * denominator == numerator * rate.den(),
                Err(e) => (numerator == 0 || denominator == 0) && e is InvalidConfig,
            },
    {
        if numerator == 0 || denominator == 0 {
            return Err(CameraError::InvalidConfig(String::from_str("Frame rate terms must be positive")));
        }
        let mut a = numerator;
        let mut b = denominator;
        while b != 0
            invariant
                spec_gcd(a as nat, b as nat) == spec_gcd(numerator as nat, denominator as nat),
                a > 0 || b > 0,
            decreases b,
        {
            let t = a % b;
            a = b;
            b = t;
        }
        proof {
            lemma_gcd_divides(numerator as nat, denominator as nat);
        }
        let g = a;
        let n = numerator / g;
        let d = denominator / g;
        proof {
            vstd::arithmetic::div_mod::lemma_fundamental_div_mod(numerator as int, g as int);
            vstd::arithmetic::div_mod::lemma_fundamental_div_mod(denominator as int, g as int);
            assert(n * denominator == numerator * d) by (nonlinear_arith)
                requires
                    numerator == g * n,
                    denominator == g * d,
            ;
            assert(n > 0 && d > 0) by (nonlinear_arith)
                requires
                    numerator == g * n,
                    denominator == g * d,
                    numerator > 0,
                    denominator > 0,
                    g > 0,
            ;
        }
        Ok(FrameRate { numerator: n, denominator: d })
    }

    /// Frames per second, numerator.
    pub fn numerator(&self) -> (n: u32)
        ensures
            n == self.num(),
    {
        self.numerator
    }

    /// Frames per second, denominator.
    pub fn denominator(&self) -> (d: u32)
        ensures
            d == self.den(),
    {
        self.denominator
    }

    /// The frame rate as a value: `num / den`, compared by cross-multiplying.
    pub open spec fn lt(self, other: FrameRate) -> bool {
        self.num() * other.den() < other.num() * self.den()
    }

    pub open spec fn same_value(self, other: FrameRate) -> bool {
        self.num() * other.den() == other.num() * self.den()
    }

    /// Strictly slower than `other`.
    pub fn slower_than(&self, other: &FrameRate) -> (r: bool)
        ensures
            r == self.lt(*other),
    {
        proof {
            lemma_u32_product(self.numerator, other.denominator);
            lemma_u32_product(other.numerator, self.denominator);
        }
        (self.numerator as u64) * (other.denominator as u64) < (other.numerator as u64) * (
        self.denominator as u64)
    }

    /// Same number of frames per second as `other`.
    pub fn same_rate(&self, other: &FrameRate) -> (r: bool)
        ensures
            r == self.same_value(*other),
    {
        proof {
            lemma_u32_product(self.numerator, other.denominator);
            lemma_u32_product(other.numerator, self.denominator);
        }
        (self.numerator as u64) * (other.denominator as u64) == (other.numerator as u64) * (
        self.denominator as u64)
    }

    /// Thirty frames per second.
    pub fn thirty() -> (r: FrameRate)
        ensures
            r.num() == 30 && r.den() == 1,
    {
        FrameRate { numerator: 30, denominator: 1 }
    }

    /// `fps` frames per second for a positive whole rate.
    pub fn whole(fps: u32) -> (r: FrameRate)
        requires
            fps > 0,
        ensures
            r.num() == fps && r.den() == 1,
            r.wf(),
    {
        FrameRate { numerator: fps, denominator: 1 }
    }
}

/// A negotiated or requested stream configuration.
#[derive(Clone, Copy, Debug, PartialEq, Eq, Structural, Hash)]
pub struct CameraConfig {
    pub format: VideoFormat,
    pub width: u32,
    pub height: u32,
    /// Frame rate numerator.
    pub fps: u32,
    /// Frame rate denominator.
    pub fps_denominator: u32,
}

impl CameraConfig {
    /// A configuration at a whole frame rate.
    pub fn new(format: VideoFormat, width: u32, height: u32, fps: u32) -> (c: CameraConfig)
        ensures
            c == (CameraConfig { format, width, height, fps, fps_denominator: 1 }),
    {
        CameraConfig { format, width, height, fps, fps_denominator: 1 }
    }

    /// 640x480 YUYV at 30 frames per second.
    pub fn default_yuyv() -> (c: CameraConfig)
        ensures
            c == (CameraConfig { format: VideoFormat::YUYV, width: 640, height: 480, fps: 30, fps_denominator: 1 }),
    {
        CameraConfig::new(VideoFormat::YUYV, 640, 480, 30)
    }

    /// The same configuration at `rate`.
    pub fn with_frame_rate(self, rate: FrameRate) -> (c: CameraConfig)
        ensures
            c == (CameraConfig { fps: rate.num() as u32, fps_denominator: rate.den() as u32, ..self }),
    {
        CameraConfig { fps: rate.numerator(), fps_denominator: rate.denominator(), ..self }
    }

    /// A usable configuration has a non-empty image and a positive rate.
    pub open spec fn spec_valid(self) -> bool {
        self.width > 0 && self.height > 0 && self.fps > 0 && self.fps_denominator > 0
    }

    /// Rejects empty images and zero rates.
    pub fn validate(&self) -> (r: CameraResult<()>)
        ensures
            r is Ok <==> self.spec_valid(),
            r matches Err(e) ==> e is InvalidConfig,
    {
        if self.width == 0 || self.height == 0 {
            return Err(CameraError::InvalidConfig(String::from_str("Resolution must be non-zero")));
        }
        if self.fps == 0 || self.fps_denominator == 0 {
            return Err(CameraError::InvalidConfig(String::from_str("Frame rate must be positive")));
        }
        Ok(())
    }

    /// The exact frame rate.
    pub fn frame_rate(&self) -> (r: CameraResult<FrameRate>)
        ensures
            match r {
                Ok(rate) => self.fps > 0 && self.fps_denominator > 0 && (rate.num(), rate.den())
                    == FrameRate::spec_reduced(self.fps as nat, self.fps_denominator as nat)
                    && rate.num() * self.fps_denominator == self.fps * rate.den() && rate.wf(),
                Err(e) => (self.fps == 0 || self.fps_denominator == 0) && e is InvalidConfig,
            },
    {
        FrameRate::new(self.fps, self.fps_denominator)
    }
}

/// The terms of a rate fit in 32 bits.
pub proof fn lemma_rate_terms_fit(r: FrameRate)
    ensures
        r.num() <= u32::MAX && r.den() <= u32::MAX,
{
}

/// Rates are equal exactly when their terms are.
pub proof fn lemma_rate_eq(a: FrameRate, b: FrameRate)
    ensures
        a == b <==> (a.num() == b.num() && a.den() == b.den()),
{
}

} // verus!
