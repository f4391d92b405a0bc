use crate::sim::scalar::Scalar;
use vstd::prelude::*;

verus! {

/// The number of binary digits that a `Fixed` keeps behind the point.
pub const FRACTION_BITS: u32 = 16;

/// The raw value of the number one.
pub const ONE: i64 = 65536;

/// A signed fixed-point number: `raw / 65536`.
///
/// Its arithmetic is exact integer arithmetic on the raw values. A result
/// that does not fit is clamped to the nearest bound, a product or quotient
/// is rounded towards zero, a square root is rounded down. Division by zero
/// gives the bound on the side of the dividend, and zero for zero. The
/// square root of a negative number is zero.
#[derive(Clone, Copy, Debug, PartialEq, Eq)]
pub struct Fixed {
    pub raw: i64,
}

/// The raw value nearest to `v`.
pub open spec fn spec_clamp(v: int) -> i64 {
    if v < i64::MIN {
        i64::MIN
    } else if v > i64::MAX {
        i64::MAX
    } else {
        v as i64
    }
}

/// The absolute value of `v`.
pub open spec fn spec_size(v: int) -> int {
    if v < 0 {
        -v
    } else {
        v
    }
}

/// `size` with the sign that a product or quotient of `a` and `b` has.
pub open spec fn spec_signed(a: int, b: int, size: int) -> int {
    if (a < 0) != (b < 0) {
        -size
    } else {
        size
    }
}

/// Whether `r` is the square root of `n`, rounded down.
pub open spec fn spec_is_root(n: int, r: int) -> bool {
    0 <= r && r * r <= n < (r + 1) * (r + 1)
}

/// The square root of `n`, rounded down.
pub open spec fn spec_root(n: int) -> int {
    choose|r: int| spec_is_root(n, r)
}

/// A number has at most one rounded-down square root.
pub proof fn lemma_root_unique(n: int, r: int, s: int)
    requires
        spec_is_root(n, r),
        spec_is_root(n, s),
    ensures
        r == s,
{
    if r < s {
        assert((r + 1) * (r + 1) <= s * s) by (nonlinear_arith)
            requires
                0 <= r + 1 <= s,
        ;
    }
    if s < r {
        assert((s + 1) * (s + 1) <= r * r) by (nonlinear_arith)
            requires
                0 <= s + 1 <= r,
        ;
    }
}

/// The size of a raw value.
fn size(v: i64) -> (r: u128)
    ensures
        r == spec_size(v as int),
        r <= 0x8000_0000_0000_0000,
{
    if v < 0 {
        (-(v as i128)) as u128
    } else {
        v as u128
    }
}

/// The raw value nearest to `size` with the sign of a product or quotient of
/// `a` and `b`.
fn signed(a: i64, b: i64, size: u128) -> (r: i64)
    ensures
        r == spec_clamp(spec_signed(a as int, b as int, size as int)),
{
    if (a < 0) != (b < 0) {
        if size >= 0x8000_0000_0000_0000 {
            i64::MIN
        } else {
            -(size as i64)
        }
    } else {
        if size > 0x7fff_ffff_ffff_ffff {
            i64::MAX
        } else {
            size as i64
        }
    }
}

/// The square root of `n`, rounded down.
fn root(n: u128) -> (r: u128)
    requires
        n < 0x1_0000_0000_0000_0000_0000,
    ensures
        r == spec_root(n as int),
        r < 0x100_0000_0000,
{
    let mut low: u128 = 0;
    let mut high: u128 = 0x100_0000_0000;
    assert(0x100_0000_0000 * 0x100_0000_0000 == 0x1_0000_0000_0000_0000_0000) by (nonlinear_arith);
    while high - low > 1
        invariant
            low < high <= 0x100_0000_0000,
            low * low <= n < high * high,
        decreases high - low,
    {
        let middle = low + (high - low) / 2;
        assert(middle * middle <= 0x100_0000_0000 * 0x100_0000_0000) by (nonlinear_arith)
            requires
                middle <= 0x100_0000_0000,
        ;
        if middle * middle <= n {
            low = middle;
        } else {
            high = middle;
        }
    }
    proof {
        assert(spec_is_root(n as int, low as int));
        lemma_root_unique(n as int, low as int, spec_root(n as int));
    }
    low
}

impl Scalar for Fixed {
    open spec fn spec_from_u32(n: u32) -> Fixed {
        Fixed { raw: (n * ONE) as i64 }
    }

    open spec fn spec_plus(self, rhs: Fixed) -> Fixed {
        Fixed { raw: spec_clamp(self.raw + rhs.raw) }
    }

    open spec fn spec_minus(self, rhs: Fixed) -> Fixed {
        Fixed { raw: spec_clamp(self.raw - rhs.raw) }
    }

    open spec fn spec_times(self, rhs: Fixed) -> Fixed {
        Fixed {
            raw: spec_clamp(
                spec_signed(
                    self.raw as int,
                    rhs.raw as int,
                    spec_size(self.raw as int) * spec_size(rhs.raw as int) / (ONE as int),
                ),
            ),
        }
    }

    open spec fn spec_over(self, rhs: Fixed) -> Fixed {
        if rhs.raw == 0 {
            Fixed {
                raw: if self.raw > 0 {
                    i64::MAX
                } else if self.raw < 0 {
                    i64::MIN
                } else {
                    0
                },
            }
        } else {
            Fixed {
                raw: spec_clamp(
                    spec_signed(
                        self.raw as int,
                        rhs.raw as int,
                        spec_size(self.raw as int) * ONE / spec_size(rhs.raw as int),
                    ),
                ),
            }
        }
    }

    open spec fn spec_neg(self) -> Fixed {
        Fixed { raw: spec_clamp(-self.raw) }
    }

    open spec fn spec_abs(self) -> Fixed {
        Fixed { raw: spec_clamp(spec_size(self.raw as int)) }
    }

    open spec fn spec_sqrt(self) -> Fixed {
        if self.raw <= 0 {
            Fixed { raw: 0 }
        } else {
            Fixed { raw: spec_root(self.raw * ONE) as i64 }
        }
    }

    open spec fn spec_less(self, rhs: Fixed) -> bool {
        self.raw < rhs.raw
    }

    fn from_u32(n: u32) -> (r: Fixed) {
        Fixed { raw: (n as i64) * ONE }
    }

    fn plus(self, rhs: Fixed) -> (r: Fixed) {
        let sum = self.raw as i128 + rhs.raw as i128;
        Fixed {
            raw: if sum < i64::MIN as i128 {
                i64::MIN
            } else if sum > i64::MAX as i128 {
                i64::MAX
            } else {
                sum as i64
            },
        }
    }

    fn minus(self, rhs: Fixed) -> (r: Fixed) {
        let difference = self.raw as i128 - rhs.raw as i128;
        Fixed {
            raw: if difference < i64::MIN as i128 {
                i64::MIN
            } else if difference > i64::MAX as i128 {
                i64::MAX
            } else {
                difference as i64
            },
        }
    }

    fn times(self, rhs: Fixed) -> (r: Fixed) {
        let a = size(self.raw);
        let b = size(rhs.raw);
        assert(a * b <= 0x8000_0000_0000_0000 * 0x8000_0000_0000_0000) by (nonlinear_arith)
            requires
                a <= 0x8000_0000_0000_0000,
                b <= 0x8000_0000_0000_0000,
        ;
        Fixed { raw: signed(self.raw, rhs.raw, a * b / (ONE as u128)) }
    }

    fn over(self, rhs: Fixed) -> (r: Fixed) {
        if rhs.raw == 0 {
            Fixed {
                raw: if self.raw > 0 {
                    i64::MAX
                } else if self.raw < 0 {
                    i64::MIN
                } else {
                    0
                },
            }
        } else {
            let a = size(self.raw);
            let b = size(rhs.raw);
            assert(a * ONE <= 0x8000_0000_0000_0000 * 0x1_0000) by (nonlinear_arith)
                requires
                    a <= 0x8000_0000_0000_0000,
                    ONE == 0x1_0000,
            ;
            Fixed { raw: signed(self.raw, rhs.raw, a * (ONE as u128) / b) }
        }
    }

    fn neg(self) -> (r: Fixed) {
        Fixed { raw: if self.raw == i64::MIN { i64::MAX } else { -self.raw } }
    }

    fn abs(self) -> (r: Fixed) {
        Fixed {
            raw: if self.raw == i64::MIN {
                i64::MAX
            } else if self.raw < 0 {
                -self.raw
            } else {
                self.raw
            },
        }
    }

    fn sqrt(self) -> (r: Fixed) {
        if self.raw <= 0 {
            Fixed { raw: 0 }
        } else {
            Fixed { raw: root((self.raw as u128) * (ONE as u128)) as i64 }
        }
    }

    fn less(self, rhs: Fixed) -> (r: bool) {
        self.raw < rhs.raw
    }
}

} // verus!
