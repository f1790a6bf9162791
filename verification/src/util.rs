//! Small shared helpers: rounding, pixel geometry, access-width masks.

use vstd::prelude::*;

verus! {

/// Geometry of a point on a framebuffer surface, in pixel coordinates.
#[derive(Clone, Copy, PartialEq, Eq, Structural, Debug)]
pub struct Point {
    pub x: u16,
    pub y: u16,
}

impl Point {
    pub fn origin() -> (r: Point)
        ensures
            r.x == 0 && r.y == 0,
    {
        Point { x: 0, y: 0 }
    }
}

/// A drawing window on a framebuffer, inclusive on all four edges.
#[derive(Clone, Copy, PartialEq, Eq, Structural, Debug)]
pub struct Rect {
    pub left: u16,
    pub right: u16,
    pub top: u16,
    pub bottom: u16,
}

/// Rounds `n` up to the next multiple of `boundary` (used for the 4 KiB page
/// granularity the CPU host requires of memory regions).
pub fn round_up(n: usize, boundary: usize) -> (r: usize)
    requires
        boundary > 0,
        n + boundary - 1 <= usize::MAX,
    ensures
        r % boundary == 0,
        n <= r < n + boundary,
        r == ((n + boundary - 1) / (boundary as int)) * (boundary as int),
{
    if n == 0 {
        proof {
            assert(((n + boundary - 1) / (boundary as int)) * (boundary as int) == 0)
                by (nonlinear_arith)
                requires
                    n == 0 && boundary >= 1,
            ;
        }
        return 0;
    }
    proof {
        let b = boundary as int;
        let m = (n - 1) as int;
        vstd::arithmetic::div_mod::lemma_div_plus_one(m, b);
        assert(1 + m / b == (b + m) / b);
        assert(b + m == n + boundary - 1);
        assert((m / b + 1) * b == ((n + boundary - 1) / b) * b);
    }
    let q = (n - 1) / boundary;
    proof {
        let b = boundary as int;
        let m = (n - 1) as int;
        assert(m - (b - 1) <= (m / b) * b <= m) by (nonlinear_arith)
            requires b > 0 && m >= 0;
        assert(((m / b) + 1) * b == (m / b) * b + b) by (nonlinear_arith);
        assert((((m / b) + 1) * b) % b == 0) by (nonlinear_arith)
            requires b > 0;
    }
    (q + 1) * boundary
}

/// Character-wise string equality.
pub fn str_eq(a: &str, b: &str) -> (r: bool)
    ensures
        r == (a@ == b@),
{
    let la = a.unicode_len();
    let lb = b.unicode_len();
    if la != lb {
        return false;
    }
    for i in 0..la
        invariant
            la == a@.len() && la == b@.len(),
            forall|j: int| 0 <= j < i ==> a@[j] == b@[j],
    {
        if a.get_char(i) != b.get_char(i) {
            return false;
        }
    }
    proof {
        assert(a@ =~= b@);
    }
    true
}

/// Whether `s` begins with `prefix`, character-wise.
pub fn str_starts_with(s: &str, prefix: &str) -> (r: bool)
    ensures
        r == (s@.len() >= prefix@.len() && s@.subrange(0, prefix@.len() as int) == prefix@),
{
    let ls = s.unicode_len();
    let lp = prefix.unicode_len();
    if ls < lp {
        return false;
    }
    for i in 0..lp
        invariant
            ls == s@.len() && lp == prefix@.len() && lp <= ls,
            forall|j: int| 0 <= j < i ==> s@[j] == prefix@[j],
    {
        if s.get_char(i) != prefix.get_char(i) {
            return false;
        }
    }
    proof {
        assert(s@.subrange(0, prefix@.len() as int) =~= prefix@);
    }
    true
}

/// What made a configuration unusable at startup.
#[derive(Clone, Copy, PartialEq, Eq, Structural, Debug)]
pub enum ConfigError {
    /// Two registered peripherals overlap in the address space.
    OverlappingPeripherals,
    /// A peripheral derives from a name that the description lacks.
    MissingDerivedFrom,
    /// A device names a framebuffer that does not exist (or one unusable
    /// for it).
    MissingFramebuffer,
    /// A pin name does not parse.
    InvalidPin,
    /// A device entry is unusable (zero sizes, missing backing data).
    InvalidDeviceConfig,
    /// A framebuffer entry has no backend, several, or zero dimensions.
    BadFramebufferConfig,
    /// A memory region cannot be mapped or loaded.
    BadRegion,
    /// A patch falls outside the mapped regions.
    BadPatch,
}

/// The value mask for an access of `size` bytes (1, 2 or 4).
pub open spec fn size_mask(size: u8) -> u32 {
    if size == 1 {
        0xFFu32
    } else if size == 2 {
        0xFFFFu32
    } else {
        0xFFFF_FFFFu32
    }
}

/// Executable twin of [`size_mask`].
pub fn access_mask(size: u8) -> (r: u32)
    ensures
        r == size_mask(size),
{
    if size == 1 {
        0xFF
    } else if size == 2 {
        0xFFFF
    } else {
        0xFFFF_FFFF
    }
}

} // verus!
