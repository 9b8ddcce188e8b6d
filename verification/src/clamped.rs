//! The controller with a running integral: its integral term is the sum of
//! all errors since the last reset, which can be held between two bounds.

use crate::numeric::{
    always_comparable, at_least, at_most, below, converts, error_of, exceeds, is_zero,
    obeys_operators, obeys_order, zero, zero_is_unique, zero_laws, Numeric,
};
use vstd::prelude::*;
use vstd::std_specs::ops::{AddSpec, MulSpec, SubSpec};

verus! {

/// The state of a controller with a running integral as plain mathematical
/// values.
pub struct ClampedModel<F> {
    /// Proportional gain.
    pub kp: F,
    /// Integral gain.
    pub ki: F,
    /// Derivative gain.
    pub kd: F,
    /// The least value that the error sum may take, if any.
    pub min_error_sum: Option<F>,
    /// The greatest value that the error sum may take, if any.
    pub max_error_sum: Option<F>,
    /// The error of the previous update.
    pub last_error: F,
    /// The sum of the errors so far, as the bounds left it.
    pub error_sum: F,
}

impl<F: Numeric> ClampedModel<F> {
    /// The change of the error since the previous update.
    pub open spec fn error_delta(self, sp: F, fb: F) -> F {
        error_of(sp, fb).sub_spec(self.last_error)
    }

    /// The error sum with the new error added, before any bound is applied.
    pub open spec fn raw_error_sum(self, sp: F, fb: F) -> F {
        self.error_sum.add_spec(error_of(sp, fb))
    }

    /// `x`, or the upper bound where `x` is above it.
    pub open spec fn held_below_max(self, x: F) -> F {
        match self.max_error_sum {
            Some(max) => if exceeds(x, max) {
                max
            } else {
                x
            },
            None => x,
        }
    }

    /// `x`, or the lower bound where `x` is below it.
    pub open spec fn held_above_min(self, x: F) -> F {
        match self.min_error_sum {
            Some(min) => if below(x, min) {
                min
            } else {
                x
            },
            None => x,
        }
    }

    /// The error sum after one update: the new error is added, then the upper
    /// bound is applied, then the lower bound. Where the bounds cross, the
    /// lower bound therefore wins.
    pub open spec fn next_error_sum(self, sp: F, fb: F) -> F {
        self.held_above_min(self.held_below_max(self.raw_error_sum(sp, fb)))
    }

    /// `kp * error`.
    pub open spec fn proportional_term(self, sp: F, fb: F) -> F {
        self.kp.mul_spec(error_of(sp, fb))
    }

    /// `ki * error_sum`, with the error sum as this update leaves it.
    pub open spec fn integral_term(self, sp: F, fb: F) -> F {
        self.ki.mul_spec(self.next_error_sum(sp, fb))
    }

    /// `kd * error_delta`.
    pub open spec fn derivative_term(self, sp: F, fb: F) -> F {
        self.kd.mul_spec(self.error_delta(sp, fb))
    }

    /// The correction of one update: `(p + i) + d`.
    pub open spec fn correction(self, sp: F, fb: F) -> F {
        self.proportional_term(sp, fb).add_spec(self.integral_term(sp, fb)).add_spec(
            self.derivative_term(sp, fb),
        )
    }

    /// The state after one update.
    pub open spec fn next_state(self, sp: F, fb: F) -> Self {
        ClampedModel {
            last_error: error_of(sp, fb),
            error_sum: self.next_error_sum(sp, fb),
            ..self
        }
    }

    /// Every operation of one update is one that `F` allows.
    pub open spec fn next_defined(self, sp: F, fb: F) -> bool {
        &&& sp.sub_req(fb)
        &&& error_of(sp, fb).sub_req(self.last_error)
        &&& self.error_sum.add_req(error_of(sp, fb))
        &&& self.kp.mul_req(error_of(sp, fb))
        &&& self.ki.mul_req(self.next_error_sum(sp, fb))
        &&& self.kd.mul_req(self.error_delta(sp, fb))
        &&& self.proportional_term(sp, fb).add_req(self.integral_term(sp, fb))
        &&& self.proportional_term(sp, fb).add_spec(self.integral_term(sp, fb)).add_req(
            self.derivative_term(sp, fb),
        )
    }

    /// All history is zero: the state of a controller that has seen no update.
    pub open spec fn cleared(self) -> bool {
        &&& is_zero(self.last_error)
        &&& is_zero(self.error_sum)
    }

    /// The last error and the error sum are `z`.
    pub open spec fn at_rest(self, z: F) -> bool {
        &&& self.last_error == z
        &&& self.error_sum == z
    }

    /// `self` and `other` are set up alike: the same gains and the same bounds.
    pub open spec fn same_tuning(self, other: Self) -> bool {
        &&& self.kp == other.kp
        &&& self.ki == other.ki
        &&& self.kd == other.kd
        &&& self.min_error_sum == other.min_error_sum
        &&& self.max_error_sum == other.max_error_sum
    }

    /// The error sum is not below the lower bound, where there is one.
    pub open spec fn respects_min(self) -> bool {
        self.min_error_sum matches Some(min) ==> at_least(self.error_sum, min)
    }

    /// The error sum is not above the upper bound, where there is one.
    pub open spec fn respects_max(self) -> bool {
        self.max_error_sum matches Some(max) ==> at_most(self.error_sum, max)
    }

    /// Where both bounds are set, the lower is not above the upper.
    pub open spec fn bounds_ordered(self) -> bool {
        self.min_error_sum matches Some(min) ==> (self.max_error_sum matches Some(max) ==> at_most(
            min,
            max,
        ))
    }

    /// Neither bound moves `z`.
    pub open spec fn bounds_admit(self, z: F) -> bool {
        &&& self.max_error_sum matches Some(max) ==> !exceeds(z, max)
        &&& self.min_error_sum matches Some(min) ==> !below(z, min)
    }

    /// The state after the updates `inputs`, each a setpoint and a feedback,
    /// in their order.
    pub open spec fn run(self, inputs: Seq<(F, F)>) -> Self
        decreases inputs.len(),
    {
        if inputs.len() == 0 {
            self
        } else {
            self.run(inputs.drop_last()).next_state(inputs.last().0, inputs.last().1)
        }
    }

    /// The correction that update `k` of `inputs` returns, after the updates
    /// before it.
    pub open spec fn correction_at(self, inputs: Seq<(F, F)>, k: int) -> F {
        self.run(inputs.take(k)).correction(inputs[k].0, inputs[k].1)
    }
}

/// PID controller with a running integral term.
///
/// The integral term is the sum of all errors since the controller was made
/// or reset. A lower and an upper bound can be set on that sum; none is set
/// at first.
pub struct ClampedPID<F> {
    /// Proportional gain.
    pub kp: F,
    /// Integral gain.
    pub ki: F,
    /// Derivative gain.
    pub kd: F,
    min_error_sum: Option<F>,
    max_error_sum: Option<F>,
    last_error: F,
    error_sum: F,
}

impl<F: Numeric> View for ClampedPID<F> {
    type V = ClampedModel<F>;

    closed spec fn view(&self) -> ClampedModel<F> {
        ClampedModel {
            kp: self.kp,
            ki: self.ki,
            kd: self.kd,
            min_error_sum: self.min_error_sum,
            max_error_sum: self.max_error_sum,
            last_error: self.last_error,
            error_sum: self.error_sum,
        }
    }
}

impl<F: Numeric> ClampedPID<F> {
    /// Create a new `ClampedPID` from gains of the numeric type itself, with
    /// no bound on the error sum.
    pub fn from_gains(kp: F, ki: F, kd: F) -> (pid: Self)
        ensures
            pid@.cleared(),
            pid@.min_error_sum is None,
            pid@.max_error_sum is None,
            pid@.kp == kp,
            pid@.ki == ki,
            pid@.kd == kd,
    {
        Self {
            kp,
            ki,
            kd,
            min_error_sum: None,
            max_error_sum: None,
            last_error: F::default(),
            error_sum: F::default(),
        }
    }

    /// Create a new `ClampedPID` from gains that convert into the numeric
    /// type, with no bound on the error sum.
    pub fn new(kp: impl Into<F>, ki: impl Into<F>, kd: impl Into<F>) -> (pid: Self)
        ensures
            pid@.cleared(),
            pid@.min_error_sum is None,
            pid@.max_error_sum is None,
            converts(kp, pid@.kp),
            converts(ki, pid@.ki),
            converts(kd, pid@.kd),
    {
        Self::from_gains(kp.into(), ki.into(), kd.into())
    }

    /// Set or clear the lower bound of the error sum. The bound is applied
    /// from the next update on; the sum as it stands is left alone.
    pub fn set_min_error_sum(&mut self, min_error_sum: Option<F>)
        ensures
            final(self)@ == (ClampedModel { min_error_sum, ..old(self)@ }),
    {
        self.min_error_sum = min_error_sum;
    }

    /// Set or clear the upper bound of the error sum. The bound is applied
    /// from the next update on; the sum as it stands is left alone.
    pub fn set_max_error_sum(&mut self, max_error_sum: Option<F>)
        ensures
            final(self)@ == (ClampedModel { max_error_sum, ..old(self)@ }),
    {
        self.max_error_sum = max_error_sum;
    }

    /// Reset the history of the controller: the last error and the error sum.
    /// The gains and the bounds stay.
    pub fn reset(&mut self)
        ensures
            final(self)@.cleared(),
            final(self)@.same_tuning(old(self)@),
    {
        self.last_error = F::default();
        self.error_sum = F::default();
    }

    /// Push the next measurement into the controller and return the
    /// correction.
    ///
    /// The upper bound of the error sum is applied before the lower one.
    pub fn update(&mut self, sp: F, fb: F) -> (correction: F)
        requires
            obeys_operators::<F>(),
            obeys_order::<F>(),
            old(self)@.next_defined(sp, fb),
        ensures
            final(self)@ == old(self)@.next_state(sp, fb),
            correction == old(self)@.correction(sp, fb),
            always_comparable::<F>() ==> final(self)@.respects_min(),
            always_comparable::<F>() && old(self)@.bounds_ordered() ==> final(self)@.respects_max(),
    {
        let error = sp - fb;
        let error_delta = error - self.last_error;
        self.last_error = error;

        let mut error_sum = self.error_sum + error;
        if let Some(max) = self.max_error_sum {
            if error_sum > max {
                error_sum = max;
            }
        }
        if let Some(min) = self.min_error_sum {
            if error_sum < min {
                error_sum = min;
            }
        }
        self.error_sum = error_sum;

        let p = self.kp * error;
        let i = self.ki * self.error_sum;
        let d = self.kd * error_delta;
        proof {
            if always_comparable::<F>() {
                lemma_error_sum_within_bounds(old(self)@, sp, fb);
            }
        }
        p + i + d
    }

    /// Push the next measurement into the controller and return the
    /// correction, for a setpoint and a feedback that convert into `F`.
    pub fn next(&mut self, sp: impl Into<F>, fb: impl Into<F>) -> (correction: F)
        requires
            obeys_operators::<F>(),
            obeys_order::<F>(),
            forall|s: F, f: F|
                #![trigger converts(sp, s), converts(fb, f)]
                converts(sp, s) && converts(fb, f) ==> old(self)@.next_defined(s, f),
        ensures
            exists|s: F, f: F|
                #![trigger converts(sp, s), converts(fb, f)]
                {
                    &&& converts(sp, s)
                    &&& converts(fb, f)
                    &&& final(self)@ == old(self)@.next_state(s, f)
                    &&& correction == old(self)@.correction(s, f)
                },
            always_comparable::<F>() ==> final(self)@.respects_min(),
            always_comparable::<F>() && old(self)@.bounds_ordered() ==> final(self)@.respects_max(),
    {
        let s: F = sp.into();
        let f: F = fb.into();
        assert(converts(sp, s) && converts(fb, f));
        self.update(s, f)
    }
}

/// After an update the error sum is not below the lower bound, where one is
/// set, and not above the upper bound, where one is set and the bounds do not
/// cross. A bound that is not set holds nothing back on its side.
pub proof fn lemma_error_sum_within_bounds<F: Numeric>(m: ClampedModel<F>, sp: F, fb: F)
    requires
        always_comparable::<F>(),
    ensures
        m.next_state(sp, fb).respects_min(),
        m.bounds_ordered() ==> m.next_state(sp, fb).respects_max(),
        m.min_error_sum is None ==> m.next_error_sum(sp, fb) == m.held_below_max(
            m.raw_error_sum(sp, fb),
        ),
        m.max_error_sum is None ==> m.next_error_sum(sp, fb) == m.held_above_min(
            m.raw_error_sum(sp, fb),
        ),
{
}

/// Updates change neither the gains nor the bounds.
pub proof fn lemma_run_keeps_tuning<F: Numeric>(m: ClampedModel<F>, inputs: Seq<(F, F)>)
    ensures
        m.run(inputs).same_tuning(m),
    decreases inputs.len(),
{
    if inputs.len() > 0 {
        lemma_run_keeps_tuning(m, inputs.drop_last());
    }
}

/// After any updates, one at least, the error sum is within the bounds that
/// are set: not below the lower one, and not above the upper one where the
/// bounds do not cross.
pub proof fn lemma_error_sum_stays_within_bounds<F: Numeric>(
    m: ClampedModel<F>,
    inputs: Seq<(F, F)>,
)
    requires
        always_comparable::<F>(),
        inputs.len() > 0,
    ensures
        m.run(inputs).respects_min(),
        m.bounds_ordered() ==> m.run(inputs).respects_max(),
{
    lemma_run_keeps_tuning(m, inputs.drop_last());
    lemma_error_sum_within_bounds(m.run(inputs.drop_last()), inputs.last().0, inputs.last().1);
}

/// A controller at rest stays at rest while setpoint and feedback are equal,
/// where neither bound moves zero.
pub proof fn lemma_zero_error_keeps_rest<F: Numeric>(
    m: ClampedModel<F>,
    z: F,
    inputs: Seq<(F, F)>,
)
    requires
        zero_laws(z),
        m.at_rest(z),
        m.bounds_admit(z),
        forall|j: int| 0 <= j < inputs.len() ==> (#[trigger] inputs[j]).0 == inputs[j].1,
    ensures
        m.run(inputs).at_rest(z),
    decreases inputs.len(),
{
    if inputs.len() > 0 {
        lemma_zero_error_keeps_rest(m, z, inputs.drop_last());
        lemma_run_keeps_tuning(m, inputs.drop_last());
        let last = inputs.last();
        assert(last == inputs[inputs.len() - 1]);
        assert(error_of(last.0, last.1) == z);
    }
}

/// With no error on any update, from a controller at rest, every correction
/// is zero, where neither bound moves zero.
pub proof fn lemma_zero_error_zero_correction<F: Numeric>(
    m: ClampedModel<F>,
    z: F,
    inputs: Seq<(F, F)>,
    k: int,
)
    requires
        zero_laws(z),
        m.at_rest(z),
        m.bounds_admit(z),
        forall|j: int| 0 <= j < inputs.len() ==> (#[trigger] inputs[j]).0 == inputs[j].1,
        0 <= k < inputs.len(),
    ensures
        m.correction_at(inputs, k) == z,
{
    assert forall|j: int| 0 <= j < inputs.take(k).len() implies (#[trigger] inputs.take(k)[j]).0
        == inputs.take(k)[j].1 by {
        assert(inputs.take(k)[j] == inputs[j]);
    }
    lemma_zero_error_keeps_rest(m, z, inputs.take(k));
    lemma_run_keeps_tuning(m, inputs.take(k));
    assert(error_of(inputs[k].0, inputs[k].1) == z);
}

/// A cleared controller is at rest.
pub proof fn lemma_cleared_is_at_rest<F: Numeric>(m: ClampedModel<F>)
    requires
        zero_is_unique::<F>(),
        m.cleared(),
    ensures
        m.at_rest(zero::<F>()),
{
}

/// Two controllers that are set up alike and have seen no update since they
/// were made or reset are in the same state, and so return the same
/// corrections for the same inputs: nothing of what a controller saw before a
/// reset is left.
pub proof fn lemma_cleared_states_agree<F: Numeric>(
    a: ClampedModel<F>,
    b: ClampedModel<F>,
    inputs: Seq<(F, F)>,
    k: int,
)
    requires
        zero_is_unique::<F>(),
        a.cleared(),
        b.cleared(),
        a.same_tuning(b),
    ensures
        a == b,
        a.run(inputs) == b.run(inputs),
        a.correction_at(inputs, k) == b.correction_at(inputs, k),
{
}

} // verus!
