//! Proportional-integral-derivative controllers over 3-D integer vectors.
//!
//! A controller holds a set of gains and a target value and is stepped once
//! per tick with `compute(dt, current)`.  Gains are in thousandths
//! (`GAIN_SCALE`), time deltas in milliseconds.  The derivative term is
//! suppressed on the very first step after construction, because no previous
//! error sample exists yet; the integral accumulates without anti-windup,
//! which is a deliberate simplicity tradeoff of this controller.
//!
//! See: <https://en.wikipedia.org/wiki/PID_controller>

use vstd::prelude::*;

use crate::geometry::{div_trunc, div_trunc_i128, lemma_div_trunc_abs, Vec3i};

verus! {

/// Controller gains are in thousandths: a stored gain of 100 scales its term
/// by one tenth.
pub const GAIN_SCALE: i64 = 1000;

/// Largest time delta, in milliseconds, a single controller step accepts.
pub const DT_LIMIT: u64 = 1_000_000_000;

/// New value of the integral accumulator on one axis: the error integrated
/// over the step.
pub open spec fn axis_integration(integ: int, err: int, dt: int) -> int {
    integ + err * dt
}

/// Derivative measure on one axis: the error's rate of change per
/// millisecond, or zero before the first sample exists.
pub open spec fn axis_derive(err: int, err_prev: int, dt: int, primed: bool) -> int {
    if primed {
        div_trunc(err - err_prev, dt)
    } else {
        0
    }
}

/// Controller output on one axis: the gain-scaled sum of the proportional,
/// integral and derivative terms.
pub open spec fn axis_output(gp: int, gi: int, gd: int, err: int, integ: int, derive: int) -> int {
    div_trunc(gp * err, GAIN_SCALE as int) + div_trunc(gi * integ, GAIN_SCALE as int) + div_trunc(
        gd * derive,
        GAIN_SCALE as int,
    )
}

/// All values a controller step stores or returns on one axis fit in `i64`.
/// This is the machine limit of the fixed-width representation, not a
/// restriction of the controller itself.
pub open spec fn axis_fits(
    gp: int,
    gi: int,
    gd: int,
    target: int,
    current: int,
    integ: int,
    err_prev: int,
    primed: bool,
    dt: int,
) -> bool {
    let err = target - current;
    let integ_new = axis_integration(integ, err, dt);
    let derive = axis_derive(err, err_prev, dt, primed);
    &&& i64::MIN <= err <= i64::MAX
    &&& i64::MIN <= integ_new <= i64::MAX
    &&& i64::MIN <= derive <= i64::MAX
    &&& i64::MIN <= axis_output(gp, gi, gd, err, integ_new, derive) <= i64::MAX
}

/// The output of one controller step on one axis, composed from the error,
/// integral and derivative pieces.
pub open spec fn output_axis(
    gp: int,
    gi: int,
    gd: int,
    target: int,
    integ: int,
    eprev: int,
    primed: bool,
    dt: int,
    current: int,
) -> int {
    axis_output(
        gp,
        gi,
        gd,
        target - current,
        axis_integration(integ, target - current, dt),
        axis_derive(target - current, eprev, dt, primed),
    )
}

/// Decides [`axis_fits`] at run time, so a caller can skip a controller
/// step that the fixed-width representation could not hold instead of
/// faulting.
#[verifier::rlimit(30)]
fn axis_fits_check(
    gp: i64,
    gi: i64,
    gd: i64,
    target: i64,
    current: i64,
    integ: i64,
    err_prev: i64,
    primed: bool,
    dt: u64,
) -> (r: bool)
    requires
        1 <= dt <= DT_LIMIT,
    ensures
        r == axis_fits(
            gp as int,
            gi as int,
            gd as int,
            target as int,
            current as int,
            integ as int,
            err_prev as int,
            primed,
            dt as int,
        ),
{
    let err128: i128 = target as i128 - current as i128;
    if err128 < i64::MIN as i128 || err128 > i64::MAX as i128 {
        return false;
    }
    let err: i64 = err128 as i64;
    proof {
        assert((err as i128) * (dt as i128) == (err as int) * (dt as int)
            && -0x4000_0000_0000_0000_0000_0000i128 <= (err as i128) * (dt as i128)
            <= 0x4000_0000_0000_0000_0000_0000i128) by (nonlinear_arith)
            requires i64::MIN <= err <= i64::MAX, 1 <= dt <= DT_LIMIT;
    }
    let integ_new128: i128 = integ as i128 + (err as i128) * (dt as i128);
    if integ_new128 < i64::MIN as i128 || integ_new128 > i64::MAX as i128 {
        return false;
    }
    let integ_new: i64 = integ_new128 as i64;
    let derive128: i128 = if primed {
        div_trunc_i128(err as i128 - err_prev as i128, dt)
    } else {
        0
    };
    proof {
        lemma_div_trunc_abs(err - err_prev, dt as int);
    }
    if derive128 < i64::MIN as i128 || derive128 > i64::MAX as i128 {
        return false;
    }
    let derive: i64 = derive128 as i64;
    proof {
        assert((gp as i128) * (err as i128) == (gp as int) * (err as int)
            && i128::MIN < (gp as i128) * (err as i128) < i128::MAX) by (nonlinear_arith)
            requires i64::MIN <= gp <= i64::MAX, i64::MIN <= err <= i64::MAX;
        assert((gi as i128) * (integ_new as i128) == (gi as int) * (integ_new as int)
            && i128::MIN < (gi as i128) * (integ_new as i128) < i128::MAX) by (nonlinear_arith)
            requires i64::MIN <= gi <= i64::MAX, i64::MIN <= integ_new <= i64::MAX;
        assert((gd as i128) * (derive as i128) == (gd as int) * (derive as int)
            && i128::MIN < (gd as i128) * (derive as i128) < i128::MAX) by (nonlinear_arith)
            requires i64::MIN <= gd <= i64::MAX, i64::MIN <= derive <= i64::MAX;
    }
    let p: i128 = div_trunc_i128((gp as i128) * (err as i128), 1000);
    let iterm: i128 = div_trunc_i128((gi as i128) * (integ_new as i128), 1000);
    let d: i128 = div_trunc_i128((gd as i128) * (derive as i128), 1000);
    proof {
        lemma_div_trunc_abs((gp as int) * (err as int), 1000);
        lemma_div_trunc_abs((gi as int) * (integ_new as int), 1000);
        lemma_div_trunc_abs((gd as int) * (derive as int), 1000);
    }
    let s1: i128 = match p.checked_add(iterm) {
        Some(s) => s,
        None => {
            return false;
        },
    };
    let out: i128 = match s1.checked_add(d) {
        Some(s) => s,
        None => {
            return false;
        },
    };
    i64::MIN as i128 <= out && out <= i64::MAX as i128
}

/// Decides whether one full controller step fits the fixed-width
/// representation for the given time delta and current value.
pub fn compute_fits_check<const I: u64>(
    c: &PidControlled<I>,
    delta_time_ms: u64,
    current_value: Vec3i,
) -> (r: bool)
    requires
        1 <= delta_time_ms <= DT_LIMIT,
    ensures
        r == compute_fits(*c, delta_time_ms as int, current_value),
{
    let fx = axis_fits_check(
        c.proportional_gain,
        c.integral_gain,
        c.derivative_gain,
        c.target.x,
        current_value.x,
        c.integration.x,
        c.error_prev.x,
        c.derivative_initialized,
        delta_time_ms,
    );
    let fy = axis_fits_check(
        c.proportional_gain,
        c.integral_gain,
        c.derivative_gain,
        c.target.y,
        current_value.y,
        c.integration.y,
        c.error_prev.y,
        c.derivative_initialized,
        delta_time_ms,
    );
    let fz = axis_fits_check(
        c.proportional_gain,
        c.integral_gain,
        c.derivative_gain,
        c.target.z,
        current_value.z,
        c.integration.z,
        c.error_prev.z,
        c.derivative_initialized,
        delta_time_ms,
    );
    fx && fy && fz
}

/// The controller state after one step, as a spec-level value.
pub open spec fn pid_after<const I: u64>(c: PidControlled<I>, dt: int, current: Vec3i) -> PidControlled<I> {
    PidControlled {
        integration: Vec3i {
            x: axis_integration(c.integration.x as int, c.target.x - current.x, dt) as i64,
            y: axis_integration(c.integration.y as int, c.target.y - current.y, dt) as i64,
            z: axis_integration(c.integration.z as int, c.target.z - current.z, dt) as i64,
        },
        error_prev: Vec3i {
            x: (c.target.x - current.x) as i64,
            y: (c.target.y - current.y) as i64,
            z: (c.target.z - current.z) as i64,
        },
        value_prev: current,
        derivative_initialized: true,
        ..c
    }
}

/// One controller step on a single axis.  Returns the new integral
/// accumulator, the error (which becomes the stored previous error), and the
/// output.
fn axis_compute(
    gp: i64,
    gi: i64,
    gd: i64,
    target: i64,
    current: i64,
    integ: i64,
    err_prev: i64,
    primed: bool,
    dt: u64,
) -> (r: (i64, i64, i64))
    requires
        1 <= dt <= DT_LIMIT,
        axis_fits(
            gp as int,
            gi as int,
            gd as int,
            target as int,
            current as int,
            integ as int,
            err_prev as int,
            primed,
            dt as int,
        ),
    ensures
        r.0 == axis_integration(integ as int, target - current, dt as int),
        r.1 == target - current,
        r.2 == axis_output(
            gp as int,
            gi as int,
            gd as int,
            target - current,
            axis_integration(integ as int, target - current, dt as int),
            axis_derive(target - current, err_prev as int, dt as int, primed),
        ),
{
    let err128: i128 = target as i128 - current as i128;
    let err: i64 = err128 as i64;
    let derive: i64 = if primed {
        let diff: i128 = err as i128 - err_prev as i128;
        div_trunc_i128(diff, dt) as i64
    } else {
        0
    };
    proof {
        assert((err as i128) * (dt as i128) == (err as int) * (dt as int)
            && -0x4000_0000_0000_0000_0000_0000i128 <= (err as i128) * (dt as i128)
            <= 0x4000_0000_0000_0000_0000_0000i128) by (nonlinear_arith)
            requires i64::MIN <= err <= i64::MAX, 1 <= dt <= DT_LIMIT;
    }
    let integ_new128: i128 = integ as i128 + (err as i128) * (dt as i128);
    let integ_new: i64 = integ_new128 as i64;
    proof {
        assert((gp as i128) * (err as i128) == (gp as int) * (err as int)
            && i128::MIN < (gp as i128) * (err as i128) < i128::MAX) by (nonlinear_arith)
            requires i64::MIN <= gp <= i64::MAX, i64::MIN <= err <= i64::MAX;
        assert((gi as i128) * (integ_new as i128) == (gi as int) * (integ_new as int)
            && i128::MIN < (gi as i128) * (integ_new as i128) < i128::MAX) by (nonlinear_arith)
            requires i64::MIN <= gi <= i64::MAX, i64::MIN <= integ_new <= i64::MAX;
        assert((gd as i128) * (derive as i128) == (gd as int) * (derive as int)
            && i128::MIN < (gd as i128) * (derive as i128) < i128::MAX) by (nonlinear_arith)
            requires i64::MIN <= gd <= i64::MAX, i64::MIN <= derive <= i64::MAX;
    }
    let p: i128 = div_trunc_i128((gp as i128) * (err as i128), 1000);
    let i: i128 = div_trunc_i128((gi as i128) * (integ_new as i128), 1000);
    let d: i128 = div_trunc_i128((gd as i128) * (derive as i128), 1000);
    proof {
        lemma_div_trunc_abs((gp as int) * (err as int), GAIN_SCALE as int);
        lemma_div_trunc_abs((gi as int) * (integ_new as int), GAIN_SCALE as int);
        lemma_div_trunc_abs((gd as int) * (derive as int), GAIN_SCALE as int);
    }
    let out: i128 = p + i + d;
    (integ_new, err, out as i64)
}

/// A proportional-integral-derivative controller for an object's position.
///
/// Configured with a set of gains; the controller attempts to maintain a
/// target value, and its output is fed back into the controlled system.
#[derive(Clone, Copy, Debug)]
pub struct PidControlledPosition {
    pub proportional_gain: i64,
    pub integral_gain: i64,
    pub derivative_gain: i64,
    pub target: Vec3i,
    pub integration: Vec3i,
    pub error_prev: Vec3i,
    pub value_prev: Vec3i,
    pub derivative_initialized: bool,
}

/// Every axis of a controller step fits in the fixed-width representation.
pub open spec fn position_compute_fits(
    s: PidControlledPosition,
    dt: int,
    current: Vec3i,
) -> bool {
    &&& axis_fits(
        s.proportional_gain as int,
        s.integral_gain as int,
        s.derivative_gain as int,
        s.target.x as int,
        current.x as int,
        s.integration.x as int,
        s.error_prev.x as int,
        s.derivative_initialized,
        dt,
    )
    &&& axis_fits(
        s.proportional_gain as int,
        s.integral_gain as int,
        s.derivative_gain as int,
        s.target.y as int,
        current.y as int,
        s.integration.y as int,
        s.error_prev.y as int,
        s.derivative_initialized,
        dt,
    )
    &&& axis_fits(
        s.proportional_gain as int,
        s.integral_gain as int,
        s.derivative_gain as int,
        s.target.z as int,
        current.z as int,
        s.integration.z as int,
        s.error_prev.z as int,
        s.derivative_initialized,
        dt,
    )
}

impl PidControlledPosition {
    /// A fresh controller with the given gains (in thousandths), a zero
    /// target and no accumulated history.
    pub fn new(proportional_gain: i64, integral_gain: i64, derivative_gain: i64) -> (r: Self)
        ensures
            r.proportional_gain == proportional_gain,
            r.integral_gain == integral_gain,
            r.derivative_gain == derivative_gain,
            r.target == (Vec3i { x: 0, y: 0, z: 0 }),
            r.integration == (Vec3i { x: 0, y: 0, z: 0 }),
            r.error_prev == (Vec3i { x: 0, y: 0, z: 0 }),
            r.value_prev == (Vec3i { x: 0, y: 0, z: 0 }),
            !r.derivative_initialized,
    {
        PidControlledPosition {
            proportional_gain,
            integral_gain,
            derivative_gain,
            target: Vec3i::zero(),
            integration: Vec3i::zero(),
            error_prev: Vec3i::zero(),
            value_prev: Vec3i::zero(),
            derivative_initialized: false,
        }
    }

    /// One controller step.  The error is integrated over the step, the
    /// derivative is the error's rate of change (zero on the first step),
    /// and the output is the gain-scaled sum of the three terms.  Callers
    /// must not pass a zero time delta.
    pub fn compute(&mut self, delta_time_ms: u64, current_value: Vec3i) -> (output: Vec3i)
        requires
            1 <= delta_time_ms <= DT_LIMIT,
            position_compute_fits(*old(self), delta_time_ms as int, current_value),
        ensures
            final(self).proportional_gain == old(self).proportional_gain,
            final(self).integral_gain == old(self).integral_gain,
            final(self).derivative_gain == old(self).derivative_gain,
            final(self).target == old(self).target,
            final(self).derivative_initialized,
            final(self).value_prev == current_value,
            final(self).error_prev.x == old(self).target.x - current_value.x,
            final(self).error_prev.y == old(self).target.y - current_value.y,
            final(self).error_prev.z == old(self).target.z - current_value.z,
            final(self).integration.x == axis_integration(
                old(self).integration.x as int,
                old(self).target.x - current_value.x,
                delta_time_ms as int,
            ),
            final(self).integration.y == axis_integration(
                old(self).integration.y as int,
                old(self).target.y - current_value.y,
                delta_time_ms as int,
            ),
            final(self).integration.z == axis_integration(
                old(self).integration.z as int,
                old(self).target.z - current_value.z,
                delta_time_ms as int,
            ),
            output.x == axis_output(
                old(self).proportional_gain as int,
                old(self).integral_gain as int,
                old(self).derivative_gain as int,
                old(self).target.x - current_value.x,
                axis_integration(
                    old(self).integration.x as int,
                    old(self).target.x - current_value.x,
                    delta_time_ms as int,
                ),
                axis_derive(
                    old(self).target.x - current_value.x,
                    old(self).error_prev.x as int,
                    delta_time_ms as int,
                    old(self).derivative_initialized,
                ),
            ),
            output.y == axis_output(
                old(self).proportional_gain as int,
                old(self).integral_gain as int,
                old(self).derivative_gain as int,
                old(self).target.y - current_value.y,
                axis_integration(
                    old(self).integration.y as int,
                    old(self).target.y - current_value.y,
                    delta_time_ms as int,
                ),
                axis_derive(
                    old(self).target.y - current_value.y,
                    old(self).error_prev.y as int,
                    delta_time_ms as int,
                    old(self).derivative_initialized,
                ),
            ),
            output.z == axis_output(
                old(self).proportional_gain as int,
                old(self).integral_gain as int,
                old(self).derivative_gain as int,
                old(self).target.z - current_value.z,
                axis_integration(
                    old(self).integration.z as int,
                    old(self).target.z - current_value.z,
                    delta_time_ms as int,
                ),
                axis_derive(
                    old(self).target.z - current_value.z,
                    old(self).error_prev.z as int,
                    delta_time_ms as int,
                    old(self).derivative_initialized,
                ),
            ),
    {
        let (ix, ex, ox) = axis_compute(
            self.proportional_gain,
            self.integral_gain,
            self.derivative_gain,
            self.target.x,
            current_value.x,
            self.integration.x,
            self.error_prev.x,
            self.derivative_initialized,
            delta_time_ms,
        );
        let (iy, ey, oy) = axis_compute(
            self.proportional_gain,
            self.integral_gain,
            self.derivative_gain,
            self.target.y,
            current_value.y,
            self.integration.y,
            self.error_prev.y,
            self.derivative_initialized,
            delta_time_ms,
        );
        let (iz, ez, oz) = axis_compute(
            self.proportional_gain,
            self.integral_gain,
            self.derivative_gain,
            self.target.z,
            current_value.z,
            self.integration.z,
            self.error_prev.z,
            self.derivative_initialized,
            delta_time_ms,
        );
        self.integration = Vec3i { x: ix, y: iy, z: iz };
        self.error_prev = Vec3i { x: ex, y: ey, z: ez };
        self.value_prev = current_value;
        self.derivative_initialized = true;
        Vec3i { x: ox, y: oy, z: oz }
    }

    /// Replaces the target without resetting the integral or the derivative
    /// history, so frequent target changes cause no output discontinuity.
    pub fn set_target(&mut self, target: Vec3i)
        ensures
            final(self).target == target,
            final(self).proportional_gain == old(self).proportional_gain,
            final(self).integral_gain == old(self).integral_gain,
            final(self).derivative_gain == old(self).derivative_gain,
            final(self).integration == old(self).integration,
            final(self).error_prev == old(self).error_prev,
            final(self).value_prev == old(self).value_prev,
            final(self).derivative_initialized == old(self).derivative_initialized,
    {
        self.target = target;
    }
}

/// Every axis of a position-controller step fits in the fixed-width
/// representation for the given time delta and current value.
pub fn position_compute_fits_check(
    c: &PidControlledPosition,
    delta_time_ms: u64,
    current_value: Vec3i,
) -> (r: bool)
    requires
        1 <= delta_time_ms <= DT_LIMIT,
    ensures
        r == position_compute_fits(*c, delta_time_ms as int, current_value),
{
    let fx = axis_fits_check(
        c.proportional_gain,
        c.integral_gain,
        c.derivative_gain,
        c.target.x,
        current_value.x,
        c.integration.x,
        c.error_prev.x,
        c.derivative_initialized,
        delta_time_ms,
    );
    let fy = axis_fits_check(
        c.proportional_gain,
        c.integral_gain,
        c.derivative_gain,
        c.target.y,
        current_value.y,
        c.integration.y,
        c.error_prev.y,
        c.derivative_initialized,
        delta_time_ms,
    );
    let fz = axis_fits_check(
        c.proportional_gain,
        c.integral_gain,
        c.derivative_gain,
        c.target.z,
        current_value.z,
        c.integration.z,
        c.error_prev.z,
        c.derivative_initialized,
        delta_time_ms,
    );
    fx && fy && fz
}

/// The position-controller state after one step, as a spec-level value.
pub open spec fn position_pid_after(
    c: PidControlledPosition,
    dt: int,
    current: Vec3i,
) -> PidControlledPosition {
    PidControlledPosition {
        integration: Vec3i {
            x: axis_integration(c.integration.x as int, c.target.x - current.x, dt) as i64,
            y: axis_integration(c.integration.y as int, c.target.y - current.y, dt) as i64,
            z: axis_integration(c.integration.z as int, c.target.z - current.z, dt) as i64,
        },
        error_prev: Vec3i {
            x: (c.target.x - current.x) as i64,
            y: (c.target.y - current.y) as i64,
            z: (c.target.z - current.z) as i64,
        },
        value_prev: current,
        derivative_initialized: true,
        ..c
    }
}

/// Whether one position-integration step fits the fixed-width
/// representation: the controller step itself, and each axis of the new
/// position.
pub open spec fn position_step_fits(c: PidControlledPosition, pos: Vec3i, dt: int) -> bool {
    &&& position_compute_fits(c, dt, pos)
    &&& i64::MIN <= pos.x + output_axis(
        c.proportional_gain as int,
        c.integral_gain as int,
        c.derivative_gain as int,
        c.target.x as int,
        c.integration.x as int,
        c.error_prev.x as int,
        c.derivative_initialized,
        dt,
        pos.x as int,
    ) <= i64::MAX
    &&& i64::MIN <= pos.y + output_axis(
        c.proportional_gain as int,
        c.integral_gain as int,
        c.derivative_gain as int,
        c.target.y as int,
        c.integration.y as int,
        c.error_prev.y as int,
        c.derivative_initialized,
        dt,
        pos.y as int,
    ) <= i64::MAX
    &&& i64::MIN <= pos.z + output_axis(
        c.proportional_gain as int,
        c.integral_gain as int,
        c.derivative_gain as int,
        c.target.z as int,
        c.integration.z as int,
        c.error_prev.z as int,
        c.derivative_initialized,
        dt,
        pos.z as int,
    ) <= i64::MAX
}

/// The position after one integration step: the controller's output added
/// onto it.
pub open spec fn position_after(c: PidControlledPosition, pos: Vec3i, dt: int) -> Vec3i {
    Vec3i {
        x: (pos.x + output_axis(
            c.proportional_gain as int,
            c.integral_gain as int,
            c.derivative_gain as int,
            c.target.x as int,
            c.integration.x as int,
            c.error_prev.x as int,
            c.derivative_initialized,
            dt,
            pos.x as int,
        )) as i64,
        y: (pos.y + output_axis(
            c.proportional_gain as int,
            c.integral_gain as int,
            c.derivative_gain as int,
            c.target.y as int,
            c.integration.y as int,
            c.error_prev.y as int,
            c.derivative_initialized,
            dt,
            pos.y as int,
        )) as i64,
        z: (pos.z + output_axis(
            c.proportional_gain as int,
            c.integral_gain as int,
            c.derivative_gain as int,
            c.target.z as int,
            c.integration.z as int,
            c.error_prev.z as int,
            c.derivative_initialized,
            dt,
            pos.z as int,
        )) as i64,
    }
}

/// Per-tick system: steps every position controller against the position
/// it controls and integrates the output back into that position.  A step
/// the fixed-width representation could not hold leaves that pair
/// untouched, a defined fallback rather than a fault.
pub fn system(dt_ms: u64, controllers: &mut Vec<PidControlledPosition>, positions: &mut Vec<Vec3i>)
    requires
        1 <= dt_ms <= DT_LIMIT,
        old(controllers)@.len() == old(positions)@.len(),
    ensures
        final(controllers)@.len() == old(controllers)@.len(),
        final(positions)@.len() == old(positions)@.len(),
        forall|i: int|
            0 <= i < old(controllers)@.len() ==> {
                let c0 = old(controllers)@[i];
                let p0 = old(positions)@[i];
                if position_step_fits(c0, p0, dt_ms as int) {
                    #[trigger] final(controllers)@[i] == position_pid_after(c0, dt_ms as int, p0)
                        && final(positions)@[i] == position_after(c0, p0, dt_ms as int)
                } else {
                    final(controllers)@[i] == c0 && final(positions)@[i] == p0
                }
            },
{
    let n = controllers.len();
    let mut i: usize = 0;
    while i < n
        invariant
            0 <= i <= n,
            1 <= dt_ms <= DT_LIMIT,
            n == controllers@.len() == old(controllers)@.len(),
            n == positions@.len() == old(positions)@.len(),
            forall|j: int| i <= j < n ==> #[trigger] controllers@[j] == old(controllers)@[j],
            forall|j: int| i <= j < n ==> #[trigger] positions@[j] == old(positions)@[j],
            forall|j: int|
                0 <= j < i && position_step_fits(
                    old(controllers)@[j],
                    old(positions)@[j],
                    dt_ms as int,
                ) ==> #[trigger] controllers@[j] == position_pid_after(
                    old(controllers)@[j],
                    dt_ms as int,
                    old(positions)@[j],
                ) && positions@[j] == position_after(
                    old(controllers)@[j],
                    old(positions)@[j],
                    dt_ms as int,
                ),
            forall|j: int|
                0 <= j < i && !position_step_fits(
                    old(controllers)@[j],
                    old(positions)@[j],
                    dt_ms as int,
                ) ==> #[trigger] controllers@[j] == old(controllers)@[j] && positions@[j] == old(
                    positions,
                )@[j],
        decreases n - i,
    {
        let mut c = controllers[i];
        let pos = positions[i];
        if position_compute_fits_check(&c, dt_ms, pos) {
            let out = c.compute(dt_ms, pos);
            match (
                pos.x.checked_add(out.x),
                pos.y.checked_add(out.y),
                pos.z.checked_add(out.z),
            ) {
                (Some(nx), Some(ny), Some(nz)) => {
                    controllers[i] = c;
                    positions[i] = Vec3i { x: nx, y: ny, z: nz };
                },
                _ => {},
            }
        }
        proof {
            let c0 = old(controllers)@[i as int];
            let p0 = old(positions)@[i as int];
            if position_step_fits(c0, p0, dt_ms as int) {
                assert(controllers@[i as int] == position_pid_after(c0, dt_ms as int, p0));
                assert(positions@[i as int] == position_after(c0, p0, dt_ms as int));
            } else {
                assert(controllers@[i as int] == c0);
                assert(positions@[i as int] == p0);
            }
            assert forall|j: int|
                0 <= j < i + 1 && position_step_fits(
                    old(controllers)@[j],
                    old(positions)@[j],
                    dt_ms as int,
                ) implies #[trigger] controllers@[j] == position_pid_after(
                old(controllers)@[j],
                dt_ms as int,
                old(positions)@[j],
            ) && positions@[j] == position_after(
                old(controllers)@[j],
                old(positions)@[j],
                dt_ms as int,
            ) by {
                if j < i as int {
                    assert(controllers@[j] == controllers@[j]);
                }
            }
            assert forall|j: int|
                0 <= j < i + 1 && !position_step_fits(
                    old(controllers)@[j],
                    old(positions)@[j],
                    dt_ms as int,
                ) implies #[trigger] controllers@[j] == old(controllers)@[j] && positions@[j]
                == old(positions)@[j] by {
                if j < i as int {
                    assert(controllers@[j] == controllers@[j]);
                }
            }
        }
        i = i + 1;
    }
}

/// A proportional-integral-derivative controller over a 3-D vector, tagged
/// with a marker constant.
///
/// `I` plays no part in the computation: it only says to the programmer what
/// the controlled value is (for example "position" versus "aim point"), so
/// that one entity can carry several controllers of distinct roles.
#[derive(Clone, Copy, Debug)]
pub struct PidControlled<const I: u64> {
    pub proportional_gain: i64,
    pub integral_gain: i64,
    pub derivative_gain: i64,
    pub target: Vec3i,
    pub integration: Vec3i,
    pub error_prev: Vec3i,
    pub value_prev: Vec3i,
    pub derivative_initialized: bool,
}

/// Every axis of a tagged controller step fits in the fixed-width
/// representation.
pub open spec fn compute_fits<const I: u64>(s: PidControlled<I>, dt: int, current: Vec3i) -> bool {
    &&& axis_fits(
        s.proportional_gain as int,
        s.integral_gain as int,
        s.derivative_gain as int,
        s.target.x as int,
        current.x as int,
        s.integration.x as int,
        s.error_prev.x as int,
        s.derivative_initialized,
        dt,
    )
    &&& axis_fits(
        s.proportional_gain as int,
        s.integral_gain as int,
        s.derivative_gain as int,
        s.target.y as int,
        current.y as int,
        s.integration.y as int,
        s.error_prev.y as int,
        s.derivative_initialized,
        dt,
    )
    &&& axis_fits(
        s.proportional_gain as int,
        s.integral_gain as int,
        s.derivative_gain as int,
        s.target.z as int,
        current.z as int,
        s.integration.z as int,
        s.error_prev.z as int,
        s.derivative_initialized,
        dt,
    )
}

impl<const I: u64> PidControlled<I> {
    /// A fresh controller with the given gains (in thousandths), a zero
    /// target and no accumulated history.
    pub fn new(proportional_gain: i64, integral_gain: i64, derivative_gain: i64) -> (r: Self)
        ensures
            r.proportional_gain == proportional_gain,
            r.integral_gain == integral_gain,
            r.derivative_gain == derivative_gain,
            r.target == (Vec3i { x: 0, y: 0, z: 0 }),
            r.integration == (Vec3i { x: 0, y: 0, z: 0 }),
            r.error_prev == (Vec3i { x: 0, y: 0, z: 0 }),
            r.value_prev == (Vec3i { x: 0, y: 0, z: 0 }),
            !r.derivative_initialized,
    {
        PidControlled {
            proportional_gain,
            integral_gain,
            derivative_gain,
            target: Vec3i::zero(),
            integration: Vec3i::zero(),
            error_prev: Vec3i::zero(),
            value_prev: Vec3i::zero(),
            derivative_initialized: false,
        }
    }

    /// One controller step; the same computation as
    /// [`PidControlledPosition::compute`].
    pub fn compute(&mut self, delta_time_ms: u64, current_value: Vec3i) -> (output: Vec3i)
        requires
            1 <= delta_time_ms <= DT_LIMIT,
            compute_fits(*old(self), delta_time_ms as int, current_value),
        ensures
            final(self).proportional_gain == old(self).proportional_gain,
            final(self).integral_gain == old(self).integral_gain,
            final(self).derivative_gain == old(self).derivative_gain,
            final(self).target == old(self).target,
            final(self).derivative_initialized,
            final(self).value_prev == current_value,
            final(self).error_prev.x == old(self).target.x - current_value.x,
            final(self).error_prev.y == old(self).target.y - current_value.y,
            final(self).error_prev.z == old(self).target.z - current_value.z,
            final(self).integration.x == axis_integration(
                old(self).integration.x as int,
                old(self).target.x - current_value.x,
                delta_time_ms as int,
            ),
            final(self).integration.y == axis_integration(
                old(self).integration.y as int,
                old(self).target.y - current_value.y,
                delta_time_ms as int,
            ),
            final(self).integration.z == axis_integration(
                old(self).integration.z as int,
                old(self).target.z - current_value.z,
                delta_time_ms as int,
            ),
            output.x == axis_output(
                old(self).proportional_gain as int,
                old(self).integral_gain as int,
                old(self).derivative_gain as int,
                old(self).target.x - current_value.x,
                axis_integration(
                    old(self).integration.x as int,
                    old(self).target.x - current_value.x,
                    delta_time_ms as int,
                ),
                axis_derive(
                    old(self).target.x - current_value.x,
                    old(self).error_prev.x as int,
                    delta_time_ms as int,
                    old(self).derivative_initialized,
                ),
            ),
            output.y == axis_output(
                old(self).proportional_gain as int,
                old(self).integral_gain as int,
                old(self).derivative_gain as int,
                old(self).target.y - current_value.y,
                axis_integration(
                    old(self).integration.y as int,
                    old(self).target.y - current_value.y,
                    delta_time_ms as int,
                ),
                axis_derive(
                    old(self).target.y - current_value.y,
                    old(self).error_prev.y as int,
                    delta_time_ms as int,
                    old(self).derivative_initialized,
                ),
            ),
            output.z == axis_output(
                old(self).proportional_gain as int,
                old(self).integral_gain as int,
                old(self).derivative_gain as int,
                old(self).target.z - current_value.z,
                axis_integration(
                    old(self).integration.z as int,
                    old(self).target.z - current_value.z,
                    delta_time_ms as int,
                ),
                axis_derive(
                    old(self).target.z - current_value.z,
                    old(self).error_prev.z as int,
                    delta_time_ms as int,
                    old(self).derivative_initialized,
                ),
            ),
    {
        let (ix, ex, ox) = axis_compute(
            self.proportional_gain,
            self.integral_gain,
            self.derivative_gain,
            self.target.x,
            current_value.x,
            self.integration.x,
            self.error_prev.x,
            self.derivative_initialized,
            delta_time_ms,
        );
        let (iy, ey, oy) = axis_compute(
            self.proportional_gain,
            self.integral_gain,
            self.derivative_gain,
            self.target.y,
            current_value.y,
            self.integration.y,
            self.error_prev.y,
            self.derivative_initialized,
            delta_time_ms,
        );
        let (iz, ez, oz) = axis_compute(
            self.proportional_gain,
            self.integral_gain,
            self.derivative_gain,
            self.target.z,
            current_value.z,
            self.integration.z,
            self.error_prev.z,
            self.derivative_initialized,
            delta_time_ms,
        );
        self.integration = Vec3i { x: ix, y: iy, z: iz };
        self.error_prev = Vec3i { x: ex, y: ey, z: ez };
        self.value_prev = current_value;
        self.derivative_initialized = true;
        Vec3i { x: ox, y: oy, z: oz }
    }

    /// Replaces the target without resetting the integral or the derivative
    /// history, so frequent target changes cause no output discontinuity.
    pub fn set_target(&mut self, target: Vec3i)
        ensures
            final(self).target == target,
            final(self).proportional_gain == old(self).proportional_gain,
            final(self).integral_gain == old(self).integral_gain,
            final(self).derivative_gain == old(self).derivative_gain,
            final(self).integration == old(self).integration,
            final(self).error_prev == old(self).error_prev,
            final(self).value_prev == old(self).value_prev,
            final(self).derivative_initialized == old(self).derivative_initialized,
    {
        self.target = target;
    }
}

/// Marker for a controller that steers an object's position directly.
pub const PID_CONTROL_POSITION: u64 = 0;

/// Whether one tagged-controller integration step fits the fixed-width
/// representation: the controller step itself, and each axis of the new
/// value.
pub open spec fn step_fits<const I: u64>(c: PidControlled<I>, pos: Vec3i, dt: int) -> bool {
    &&& compute_fits(c, dt, pos)
    &&& i64::MIN <= pos.x + output_axis(
        c.proportional_gain as int,
        c.integral_gain as int,
        c.derivative_gain as int,
        c.target.x as int,
        c.integration.x as int,
        c.error_prev.x as int,
        c.derivative_initialized,
        dt,
        pos.x as int,
    ) <= i64::MAX
    &&& i64::MIN <= pos.y + output_axis(
        c.proportional_gain as int,
        c.integral_gain as int,
        c.derivative_gain as int,
        c.target.y as int,
        c.integration.y as int,
        c.error_prev.y as int,
        c.derivative_initialized,
        dt,
        pos.y as int,
    ) <= i64::MAX
    &&& i64::MIN <= pos.z + output_axis(
        c.proportional_gain as int,
        c.integral_gain as int,
        c.derivative_gain as int,
        c.target.z as int,
        c.integration.z as int,
        c.error_prev.z as int,
        c.derivative_initialized,
        dt,
        pos.z as int,
    ) <= i64::MAX
}

/// The controlled value after one tagged-controller integration step.
pub open spec fn stepped_value<const I: u64>(c: PidControlled<I>, pos: Vec3i, dt: int) -> Vec3i {
    Vec3i {
        x: (pos.x + output_axis(
            c.proportional_gain as int,
            c.integral_gain as int,
            c.derivative_gain as int,
            c.target.x as int,
            c.integration.x as int,
            c.error_prev.x as int,
            c.derivative_initialized,
            dt,
            pos.x as int,
        )) as i64,
        y: (pos.y + output_axis(
            c.proportional_gain as int,
            c.integral_gain as int,
            c.derivative_gain as int,
            c.target.y as int,
            c.integration.y as int,
            c.error_prev.y as int,
            c.derivative_initialized,
            dt,
            pos.y as int,
        )) as i64,
        z: (pos.z + output_axis(
            c.proportional_gain as int,
            c.integral_gain as int,
            c.derivative_gain as int,
            c.target.z as int,
            c.integration.z as int,
            c.error_prev.z as int,
            c.derivative_initialized,
            dt,
            pos.z as int,
        )) as i64,
    }
}

/// Per-tick system: steps every position-tagged controller and integrates
/// its output back into the position it controls, with the same fallback as
/// [`system`].
#[verifier::rlimit(80)]
pub fn system_pid_controller_position(
    dt_ms: u64,
    controllers: &mut Vec<PidControlled<PID_CONTROL_POSITION>>,
    positions: &mut Vec<Vec3i>,
)
    requires
        1 <= dt_ms <= DT_LIMIT,
        old(controllers)@.len() == old(positions)@.len(),
    ensures
        final(controllers)@.len() == old(controllers)@.len(),
        final(positions)@.len() == old(positions)@.len(),
        forall|i: int|
            0 <= i < old(controllers)@.len() ==> {
                let c0 = old(controllers)@[i];
                let p0 = old(positions)@[i];
                if step_fits(c0, p0, dt_ms as int) {
                    #[trigger] final(controllers)@[i] == pid_after(c0, dt_ms as int, p0)
                        && final(positions)@[i] == stepped_value(c0, p0, dt_ms as int)
                } else {
                    final(controllers)@[i] == c0 && final(positions)@[i] == p0
                }
            },
{
    let n = controllers.len();
    let mut i: usize = 0;
    while i < n
        invariant
            0 <= i <= n,
            1 <= dt_ms <= DT_LIMIT,
            n == controllers@.len() == old(controllers)@.len(),
            n == positions@.len() == old(positions)@.len(),
            forall|j: int| i <= j < n ==> #[trigger] controllers@[j] == old(controllers)@[j],
            forall|j: int| i <= j < n ==> #[trigger] positions@[j] == old(positions)@[j],
            forall|j: int|
                0 <= j < i && step_fits(old(controllers)@[j], old(positions)@[j], dt_ms as int)
                    ==> #[trigger] controllers@[j] == pid_after(
                    old(controllers)@[j],
                    dt_ms as int,
                    old(positions)@[j],
                ) && positions@[j] == stepped_value(
                    old(controllers)@[j],
                    old(positions)@[j],
                    dt_ms as int,
                ),
            forall|j: int|
                0 <= j < i && !step_fits(old(controllers)@[j], old(positions)@[j], dt_ms as int)
                    ==> #[trigger] controllers@[j] == old(controllers)@[j] && positions@[j] == old(
                    positions,
                )@[j],
        decreases n - i,
    {
        let mut c = controllers[i];
        let pos = positions[i];
        if compute_fits_check(&c, dt_ms, pos) {
            let out = c.compute(dt_ms, pos);
            match (
                pos.x.checked_add(out.x),
                pos.y.checked_add(out.y),
                pos.z.checked_add(out.z),
            ) {
                (Some(nx), Some(ny), Some(nz)) => {
                    controllers[i] = c;
                    positions[i] = Vec3i { x: nx, y: ny, z: nz };
                },
                _ => {},
            }
        }
        proof {
            let c0 = old(controllers)@[i as int];
            let p0 = old(positions)@[i as int];
            if step_fits(c0, p0, dt_ms as int) {
                assert(controllers@[i as int] == pid_after(c0, dt_ms as int, p0));
                assert(positions@[i as int] == stepped_value(c0, p0, dt_ms as int));
            } else {
                assert(controllers@[i as int] == c0);
                assert(positions@[i as int] == p0);
            }
            assert forall|j: int|
                0 <= j < i + 1 && step_fits(
                    old(controllers)@[j],
                    old(positions)@[j],
                    dt_ms as int,
                ) implies #[trigger] controllers@[j] == pid_after(
                old(controllers)@[j],
                dt_ms as int,
                old(positions)@[j],
            ) && positions@[j] == stepped_value(
                old(controllers)@[j],
                old(positions)@[j],
                dt_ms as int,
            ) by {
                if j < i as int {
                    assert(controllers@[j] == controllers@[j]);
                }
            }
            assert forall|j: int|
                0 <= j < i + 1 && !step_fits(
                    old(controllers)@[j],
                    old(positions)@[j],
                    dt_ms as int,
                ) implies #[trigger] controllers@[j] == old(controllers)@[j] && positions@[j]
                == old(positions)@[j] by {
                if j < i as int {
                    assert(controllers@[j] == controllers@[j]);
                }
            }
        }
        i = i + 1;
    }
}

/// On the very first controller step the derivative term is exactly zero,
/// whatever the target, current value and gains are: the output is the sum
/// of the proportional and integral terms alone.
pub proof fn lemma_first_compute_suppresses_derivative(
    gp: int,
    gi: int,
    gd: int,
    err: int,
    err_prev: int,
    dt: int,
    integ_new: int,
)
    ensures
        axis_derive(err, err_prev, dt, false) == 0,
        axis_output(gp, gi, gd, err, integ_new, axis_derive(err, err_prev, dt, false))
            == div_trunc(gp * err, GAIN_SCALE as int) + div_trunc(gi * integ_new, GAIN_SCALE as int),
{
    assert(gd * 0 == 0) by (nonlinear_arith);
    vstd::arithmetic::div_mod::lemma_div_of0(GAIN_SCALE as int);
}

} // verus!
