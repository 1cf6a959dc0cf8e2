//! Digit-cursor editing of fixed-point values.
//!
//! A [`WithPrecision`] value is a setpoint in milli-units (millivolts or
//! milliamps) together with a decimal cursor: the cursor selects which
//! decimal digit the up/down buttons change.  A cursor exponent `e` in
//! `[-2, 1]` means steps of `10^e` whole units, that is `10^(e+3)`
//! milli-units, never below the value's own minimum step.

use vstd::prelude::*;

use crate::event::Limits;

verus! {

/// Smallest decimal exponent the cursor can select (hundredths of a unit).
pub const MIN_EXPONENT: i8 = -2;

/// Largest decimal exponent the cursor can select (tens of units).
pub const MAX_EXPONENT: i8 = 1;

/// The decimal cursor: which power of ten the arrow buttons edit.
#[derive(Clone, Copy, Debug, PartialEq, Eq, Structural)]
pub struct DecimalPrecision {
    pub exponent: i8,
}

/// Exponents clamp into `[MIN_EXPONENT, MAX_EXPONENT]`.
pub open spec fn spec_clamp_exponent(e: int) -> int {
    if e < -2 {
        -2
    } else if e > 1 {
        1
    } else {
        e
    }
}

impl DecimalPrecision {
    /// The cursor is well formed when its exponent lies in `[-2, 1]`.
    pub open spec fn wf(self) -> bool {
        -2 <= self.exponent <= 1
    }

    fn set_exponent(&mut self, exp: i8)
        ensures
            final(self).exponent == spec_clamp_exponent(exp as int),
            final(self).wf(),
    {
        if exp < MIN_EXPONENT {
            self.exponent = MIN_EXPONENT;
        } else if exp > MAX_EXPONENT {
            self.exponent = MAX_EXPONENT;
        } else {
            self.exponent = exp;
        }
    }

    pub fn get_exponent(&self) -> (r: i8)
        ensures
            r == self.exponent,
    {
        self.exponent
    }

    /// Move the cursor one digit to the right (a finer step).
    pub fn cursor_right(&mut self)
        requires
            old(self).wf(),
        ensures
            final(self).exponent == spec_clamp_exponent(old(self).exponent - 1),
            final(self).wf(),
    {
        let exp = self.exponent;
        self.set_exponent(exp - 1);
    }

    /// Move the cursor one digit to the left (a coarser step).
    pub fn cursor_left(&mut self)
        requires
            old(self).wf(),
        ensures
            final(self).exponent == spec_clamp_exponent(old(self).exponent + 1),
            final(self).wf(),
    {
        let exp = self.exponent;
        self.set_exponent(exp + 1);
    }
}

impl Default for DecimalPrecision {
    /// The cursor starts on the units digit.
    fn default() -> (r: Self)
        ensures
            r.exponent == 0,
    {
        DecimalPrecision { exponent: 0 }
    }
}

/// `10^(e+3)`: the milli-unit step selected by cursor exponent `e`.
pub open spec fn spec_exponent_step_milli(e: int) -> int {
    if e == -2 {
        10
    } else if e == -1 {
        100
    } else if e == 0 {
        1000
    } else {
        10000
    }
}

/// A setpoint in milli-units, edited through a decimal cursor and kept
/// inside an optional clamp range.
#[derive(Clone, Copy, Debug, PartialEq, Eq)]
pub struct WithPrecision {
    /// Current value in milli-units.
    pub value: i32,
    /// The decimal cursor for increment/decrement steps.
    pub precision: DecimalPrecision,
    /// Inclusive clamp range in milli-units, if one is configured.
    pub init_range: Option<(i32, i32)>,
    /// Smallest step in milli-units, whatever the cursor says.
    pub min_step: i32,
}

impl WithPrecision {
    /// Well-formedness: cursor in range, non-negative minimum step, and the
    /// value inside the configured clamp range when there is one.
    pub open spec fn wf(self) -> bool {
        &&& self.precision.wf()
        &&& 0 <= self.min_step <= 100000
        &&& match self.init_range {
            Some((lo, hi)) => lo <= hi && lo <= self.value <= hi,
            None => true,
        }
    }

    /// The effective step: the cursor's decade, never below `min_step`.
    pub open spec fn spec_multiplier(self) -> int {
        let decade = spec_exponent_step_milli(self.precision.exponent as int);
        if decade >= self.min_step {
            decade
        } else {
            self.min_step as int
        }
    }

    /// Where a value lands after moving by `delta` milli-units: clamped into
    /// the configured range, or into `i32` bounds when no range is set.
    pub open spec fn spec_move(self, delta: int) -> WithPrecision {
        let next = self.value + delta;
        let clamped = match self.init_range {
            Some((lo, hi)) => if next < lo {
                lo as int
            } else if next > hi {
                hi as int
            } else {
                next
            },
            None => if next < i32::MIN {
                i32::MIN as int
            } else if next > i32::MAX {
                i32::MAX as int
            } else {
                next
            },
        };
        WithPrecision { value: clamped as i32, ..self }
    }

    pub open spec fn spec_increment(self) -> WithPrecision {
        self.spec_move(self.spec_multiplier())
    }

    pub open spec fn spec_decrement(self) -> WithPrecision {
        self.spec_move(-self.spec_multiplier())
    }

    fn multiplier(&self) -> (r: i32)
        requires
            self.wf(),
        ensures
            r == self.spec_multiplier(),
    {
        let decade: i32 = if self.precision.exponent == -2 {
            10
        } else if self.precision.exponent == -1 {
            100
        } else if self.precision.exponent == 0 {
            1000
        } else {
            10000
        };
        if decade >= self.min_step {
            decade
        } else {
            self.min_step
        }
    }

    fn move_by(&mut self, delta: i32)
        requires
            old(self).wf(),
        ensures
            *final(self) == old(self).spec_move(delta as int),
            final(self).wf(),
    {
        let next: i64 = self.value as i64 + delta as i64;
        let clamped: i64 = match self.init_range {
            Some((lo, hi)) => if next < lo as i64 {
                lo as i64
            } else if next > hi as i64 {
                hi as i64
            } else {
                next
            },
            None => if next < i32::MIN as i64 {
                i32::MIN as i64
            } else if next > i32::MAX as i64 {
                i32::MAX as i64
            } else {
                next
            },
        };
        self.value = clamped as i32;
    }

    /// Step the value up by the effective step, clamped into range.
    pub fn increment(&mut self)
        requires
            old(self).wf(),
        ensures
            *final(self) == old(self).spec_increment(),
            final(self).wf(),
    {
        let m = self.multiplier();
        self.move_by(m);
    }

    /// Step the value down by the effective step, clamped into range.
    pub fn decrement(&mut self)
        requires
            old(self).wf(),
        ensures
            *final(self) == old(self).spec_decrement(),
            final(self).wf(),
    {
        let m = self.multiplier();
        self.move_by(-m);
    }

    pub fn cursor_right(&mut self)
        requires
            old(self).wf(),
        ensures
            *final(self) == (WithPrecision {
                precision: DecimalPrecision {
                    exponent: spec_clamp_exponent(old(self).precision.exponent - 1) as i8,
                },
                ..*old(self)
            }),
            final(self).wf(),
    {
        self.precision.cursor_right();
    }

    pub fn cursor_left(&mut self)
        requires
            old(self).wf(),
        ensures
            *final(self) == (WithPrecision {
                precision: DecimalPrecision {
                    exponent: spec_clamp_exponent(old(self).precision.exponent + 1) as i8,
                },
                ..*old(self)
            }),
            final(self).wf(),
    {
        self.precision.cursor_left();
    }

    pub fn value(&self) -> (r: i32)
        ensures
            r == self.value,
    {
        self.value
    }
}

/// Any mix of cursor moves and increments keeps the cursor exponent in
/// `[-2, 1]` and the value inside the configured clamp range: each editing
/// operation takes a well-formed value to a well-formed value, so the bounds
/// hold along every sequence of operations by induction.
pub proof fn lemma_editing_preserves_bounds(p: WithPrecision)
    requires
        p.wf(),
    ensures
        p.spec_increment().wf(),
        p.spec_decrement().wf(),
        -2 <= p.spec_increment().precision.exponent <= 1,
        -2 <= p.spec_decrement().precision.exponent <= 1,
        -2 <= spec_clamp_exponent(p.precision.exponent - 1) <= 1,
        -2 <= spec_clamp_exponent(p.precision.exponent + 1) <= 1,
        p.init_range matches Some((lo, hi)) ==> lo <= p.spec_increment().value <= hi,
        p.init_range matches Some((lo, hi)) ==> lo <= p.spec_decrement().value <= hi,
{
}

/// A voltage/current setpoint pair sharing one editing scheme.
#[derive(Clone, Copy, Debug, PartialEq, Eq)]
pub struct VoltageCurrentWithSetter {
    pub voltage: WithPrecision,
    pub current: WithPrecision,
}

/// Smallest voltage step: 10 mV.
pub const VOLTAGE_MIN_STEP: i32 = 10;

/// Smallest current step: 50 mA.
pub const CURRENT_MIN_STEP: i32 = 50;

impl VoltageCurrentWithSetter {
    pub open spec fn wf(self) -> bool {
        self.voltage.wf() && self.current.wf()
    }

    /// Build the pair from starting limits and clamp ranges (milli-units).
    pub fn new(limits: Limits, voltage_range: (i32, i32), current_range: (i32, i32)) -> (r: Self)
        requires
            voltage_range.0 <= limits.voltage <= voltage_range.1,
            current_range.0 <= limits.current <= current_range.1,
        ensures
            r == (VoltageCurrentWithSetter {
                voltage: WithPrecision {
                    value: limits.voltage,
                    precision: DecimalPrecision { exponent: 0 },
                    init_range: Some(voltage_range),
                    min_step: VOLTAGE_MIN_STEP,
                },
                current: WithPrecision {
                    value: limits.current,
                    precision: DecimalPrecision { exponent: 0 },
                    init_range: Some(current_range),
                    min_step: CURRENT_MIN_STEP,
                },
            }),
            r.wf(),
    {
        VoltageCurrentWithSetter {
            voltage: WithPrecision {
                value: limits.voltage,
                precision: DecimalPrecision::default(),
                init_range: Some(voltage_range),
                min_step: VOLTAGE_MIN_STEP,
            },
            current: WithPrecision {
                value: limits.current,
                precision: DecimalPrecision::default(),
                init_range: Some(current_range),
                min_step: CURRENT_MIN_STEP,
            },
        }
    }

    /// The current live pair of values, as limits.
    pub fn get_limits(&self) -> (r: Limits)
        ensures
            r == self.spec_limits(),
    {
        Limits { voltage: self.voltage.value, current: self.current.value }
    }

    pub open spec fn spec_limits(self) -> Limits {
        Limits { voltage: self.voltage.value, current: self.current.value }
    }
}

} // verus!
