//! Calibration of native axes and the arithmetic on normalized values:
//! rescaling, deadzone, jitter and axis-to-button hysteresis.

use vstd::prelude::*;
use vstd::arithmetic::div_mod::{lemma_div_by_multiple, lemma_div_is_ordered, lemma_div_pos_is_pos};
use vstd::arithmetic::mul::lemma_mul_inequality;
use crate::ev::UNIT;

verus! {

/// Deadzone used where an axis reports none: 0.1.
pub const DEFAULT_DEADZONE: i32 = 100_000;

/// Smallest change of an axis that the jitter filter lets through: 0.01.
pub const JITTER_THRESHOLD: i32 = 10_000;

/// Default value at or above which an axis mapped to a button presses it.
pub const DEFAULT_PRESSED: i32 = 750_000;

/// Default value at or below which an axis mapped to a button releases it.
pub const DEFAULT_RELEASED: i32 = 650_000;

/// `0 <= a * u / b <= u` where `0 <= a <= b`.
pub proof fn lemma_scale_bounds(a: int, b: int, u: int)
    requires
        0 <= a <= b,
        0 < b,
        0 <= u,
    ensures
        0 <= a * u / b <= u,
{
    lemma_mul_inequality(a, b, u);
    assert(0 <= a * u) by (nonlinear_arith)
        requires
            0 <= a,
            0 <= u,
    ;
    lemma_div_pos_is_pos(a * u, b);
    lemma_div_is_ordered(a * u, b * u, b);
    assert(b * u == u * b) by (nonlinear_arith);
    lemma_div_by_multiple(u, b);
}

/// Calibration of one native axis: the range of its raw readings and an
/// optional deadzone in raw units.
#[derive(Copy, Clone, Debug, PartialEq, Eq, Structural)]
pub struct AxisInfo {
    pub min: i32,
    pub max: i32,
    pub deadzone: Option<u32>,
}

impl AxisInfo {
    pub open spec fn wf(&self) -> bool {
        self.min < self.max
    }

    /// A reading brought into `[min, max]`.
    pub open spec fn clamped(&self, val: i32) -> int {
        if val < self.min {
            self.min as int
        } else if val > self.max {
            self.max as int
        } else {
            val as int
        }
    }

    /// Width of the normalized range: 1.0 for an axis that starts at zero
    /// or above, 2.0 for one that reaches below zero.
    pub open spec fn span(&self) -> int {
        if self.min >= 0 {
            UNIT as int
        } else {
            2 * UNIT
        }
    }

    /// A reading as a button value in `[0, UNIT]`.
    pub open spec fn spec_value_btn(&self, val: i32) -> int {
        (self.clamped(val) - self.min) * UNIT / (self.max - self.min)
    }

    /// A reading as an axis value: in `[0, UNIT]` where `min >= 0`, else in
    /// `[-UNIT, UNIT]`.
    pub open spec fn spec_value_axis(&self, val: i32) -> int {
        if self.min >= 0 {
            self.spec_value_btn(val)
        } else {
            (self.clamped(val) - self.min) * self.span() / (self.max - self.min) - UNIT
        }
    }

    /// The deadzone in normalized units, at most `UNIT`.
    pub open spec fn spec_deadzone(&self) -> Option<int> {
        match self.deadzone {
            None => None,
            Some(d) => {
                let v = d * self.span() / (self.max - self.min);
                Some(if v > UNIT { UNIT as int } else { v })
            },
        }
    }

    fn clamp(&self, val: i32) -> (r: i64)
        requires
            self.wf(),
        ensures
            r == self.clamped(val),
    {
        if val < self.min {
            self.min as i64
        } else if val > self.max {
            self.max as i64
        } else {
            val as i64
        }
    }

    pub fn value_btn(&self, val: i32) -> (r: i32)
        requires
            self.wf(),
        ensures
            r == self.spec_value_btn(val),
            0 <= r <= UNIT,
    {
        let range = self.max as i64 - self.min as i64;
        let offset = self.clamp(val) - self.min as i64;
        proof {
            lemma_scale_bounds(offset as int, range as int, UNIT as int);
        }
        (offset * (UNIT as i64) / range) as i32
    }

    pub fn value_axis(&self, val: i32) -> (r: i32)
        requires
            self.wf(),
        ensures
            r == self.spec_value_axis(val),
            -UNIT <= r <= UNIT,
            self.min >= 0 ==> 0 <= r,
    {
        if self.min >= 0 {
            self.value_btn(val)
        } else {
            let range = self.max as i64 - self.min as i64;
            let offset = self.clamp(val) - self.min as i64;
            proof {
                lemma_scale_bounds(offset as int, range as int, 2 * UNIT);
            }
            (offset * (2 * UNIT as i64) / range - UNIT as i64) as i32
        }
    }

    pub fn deadzone(&self) -> (r: Option<i32>)
        requires
            self.wf(),
        ensures
            r matches Some(v) ==> self.spec_deadzone() == Some(v as int) && 0 <= v <= UNIT,
            r is None <==> self.spec_deadzone() is None,
    {
        match self.deadzone {
            None => None,
            Some(d) => {
                let range = self.max as i64 - self.min as i64;
                let span: i64 = if self.min >= 0 {
                    UNIT as i64
                } else {
                    2 * UNIT as i64
                };
                assert(0 <= d * span) by (nonlinear_arith)
                    requires
                        0 <= d,
                        0 <= span,
                ;
                assert(d * span <= 0x1_0000_0000 * 2_000_000) by (nonlinear_arith)
                    requires
                        0 <= d < 0x1_0000_0000,
                        0 <= span <= 2_000_000,
                ;
                proof {
                    lemma_div_pos_is_pos(d * span, range as int);
                }
                let v = (d as i64) * span / range;
                if v > UNIT as i64 {
                    Some(UNIT)
                } else {
                    Some(v as i32)
                }
            },
        }
    }
}

pub open spec fn abs(v: int) -> int {
    if v < 0 {
        -v
    } else {
        v
    }
}

/// A normalized axis value with the deadzone `dz` applied: values in
/// `[-dz, dz]` become zero, the rest is stretched so that the full span is
/// kept outside the deadzone.
pub open spec fn spec_apply_deadzone(v: int, dz: int) -> int {
    if abs(v) <= dz {
        0
    } else if v > 0 {
        (v - dz) * UNIT / (UNIT - dz)
    } else {
        -((-v - dz) * UNIT / (UNIT - dz))
    }
}

pub fn apply_deadzone(v: i32, dz: i32) -> (r: i32)
    requires
        -UNIT <= v <= UNIT,
        0 <= dz <= UNIT,
    ensures
        r == spec_apply_deadzone(v as int, dz as int),
        -UNIT <= r <= UNIT,
        v >= 0 ==> r >= 0,
        v <= 0 ==> r <= 0,
{
    if -dz <= v && v <= dz {
        0
    } else if v > 0 {
        proof {
            lemma_scale_bounds(v - dz, UNIT - dz, UNIT as int);
        }
        ((v as i64 - dz as i64) * (UNIT as i64) / (UNIT as i64 - dz as i64)) as i32
    } else {
        proof {
            lemma_scale_bounds(-v - dz, UNIT - dz, UNIT as int);
        }
        (-((-(v as i64) - dz as i64) * (UNIT as i64) / (UNIT as i64 - dz as i64))) as i32
    }
}

/// Applying the deadzone to a value already outside it, and then again to
/// the result, gives the result: re-filtering does not rescale twice. This
/// holds where the deadzone is empty or the value is at a full deflection;
/// for any other value outside a non-empty deadzone the stretch moves it.
pub proof fn lemma_deadzone_idempotent(v: int, dz: int)
    requires
        -UNIT <= v <= UNIT,
        0 <= dz < UNIT,
        abs(v) > dz,
        dz == 0 || abs(v) == UNIT,
    ensures
        spec_apply_deadzone(spec_apply_deadzone(v, dz), dz) == spec_apply_deadzone(v, dz),
{
    let u = UNIT as int;
    if dz == 0 {
        lemma_div_by_multiple(abs(v), u);
        assert(abs(v) * u == abs(v) * (u - 0));
    } else {
        lemma_div_by_multiple(u, u - dz);
        assert((u - dz) * u == u * (u - dz)) by (nonlinear_arith);
    }
}

/// Whether the jitter filter lets an axis change through: a value at rest
/// or at a full deflection always passes, any other one only where it moved
/// by at least `threshold` from the last value that was kept.
pub open spec fn spec_jitter_passes(value: int, last: int, threshold: int) -> bool {
    value == 0 || abs(value) == UNIT || abs(value - last) >= threshold
}

pub fn jitter_passes(value: i32, last: i32, threshold: i32) -> (r: bool)
    ensures
        r == spec_jitter_passes(value as int, last as int, threshold as int),
{
    let diff = value as i64 - last as i64;
    let dist = if diff < 0 {
        -diff
    } else {
        diff
    };
    value == 0 || value == UNIT || value == -UNIT || dist >= threshold as i64
}

/// What an axis value does to a button that an axis drives.
#[derive(Copy, Clone, Debug, PartialEq, Eq, Structural)]
pub enum Edge {
    Press,
    Release,
    NoEdge,
}

/// Hysteresis: a value at or above `pressed` presses a released button, a
/// value at or below `released` releases a pressed one; anything else
/// leaves the button as it is.
pub open spec fn spec_hysteresis(value: int, pressed: int, released: int, is_pressed: bool) -> Edge {
    if value >= pressed && !is_pressed {
        Edge::Press
    } else if value <= released && is_pressed {
        Edge::Release
    } else {
        Edge::NoEdge
    }
}

pub fn hysteresis(value: i32, pressed: i32, released: i32, is_pressed: bool) -> (r: Edge)
    ensures
        r == spec_hysteresis(value as int, pressed as int, released as int, is_pressed),
{
    if value >= pressed && !is_pressed {
        Edge::Press
    } else if value <= released && is_pressed {
        Edge::Release
    } else {
        Edge::NoEdge
    }
}

} // verus!
