//! The discrete controller: a three-tap filter over the newest error and the
//! two before it, each tap with a gain of its own.

use crate::numeric::{
    converts, error_of, is_zero, obeys_arith, obeys_operators, zero, zero_is_unique, zero_laws, Numeric,
};
use vstd::prelude::*;
use vstd::std_specs::ops::{AddSpec, MulSpec, SubSpec};

verus! {

/// The state of a discrete controller as plain mathematical values.
pub struct DiscreteModel<F> {
    /// Gain of the newest error.
    pub kp: F,
    /// Gain of the error before it.
    pub ki: F,
    /// Gain of the error before that.
    pub kd: F,
    /// The last three errors, newest first.
    pub errors: Seq<F>,
}

impl<F: Numeric> DiscreteModel<F> {
    /// There are three taps.
    pub open spec fn wf(self) -> bool {
        self.errors.len() == 3
    }

    /// The taps once the new error has come in at the front and the oldest
    /// has left at the back.
    pub open spec fn next_errors(self, sp: F, fb: F) -> Seq<F> {
        seq![error_of(sp, fb), self.errors[0], self.errors[1]]
    }

    /// The newest tap: `kp` times the new error.
    pub open spec fn first_term(self, sp: F, fb: F) -> F {
        self.kp.mul_spec(error_of(sp, fb))
    }

    /// The middle tap: `ki` times the error of the previous update.
    pub open spec fn second_term(self) -> F {
        self.ki.mul_spec(self.errors[0])
    }

    /// The oldest tap: `kd` times the error of the update before the previous
    /// one.
    pub open spec fn third_term(self) -> F {
        self.kd.mul_spec(self.errors[1])
    }

    /// The correction of one update: the three taps added up, newest first.
    pub open spec fn correction(self, sp: F, fb: F) -> F {
        self.first_term(sp, fb).add_spec(self.second_term()).add_spec(self.third_term())
    }

    /// The state after one update.
    pub open spec fn next_state(self, sp: F, fb: F) -> Self {
        DiscreteModel { errors: self.next_errors(sp, fb), ..self }
    }

    /// Every operation of one update is one that `F` allows.
    pub open spec fn next_defined(self, sp: F, fb: F) -> bool {
        &&& sp.sub_req(fb)
        &&& self.kp.mul_req(error_of(sp, fb))
        &&& self.ki.mul_req(self.errors[0])
        &&& self.kd.mul_req(self.errors[1])
        &&& self.first_term(sp, fb).add_req(self.second_term())
        &&& self.first_term(sp, fb).add_spec(self.second_term()).add_req(self.third_term())
    }

    /// The state with the gains that `set_config` makes of `kp`, `ki` and
    /// `kd`: `kp + ki + kd` for the newest error, `0 - kp - kd * kd` for the
    /// one before it, and `kd` for the oldest. The taps stay.
    pub open spec fn configured(self, z: F, kp: F, ki: F, kd: F) -> Self {
        DiscreteModel {
            kp: kp.add_spec(ki).add_spec(kd),
            ki: z.sub_spec(kp).sub_spec(kd.mul_spec(kd)),
            kd,
            ..self
        }
    }

    /// All history is zero: the state of a controller that has seen no update.
    pub open spec fn cleared(self) -> bool {
        forall|i: int| 0 <= i < self.errors.len() ==> is_zero(#[trigger] self.errors[i])
    }

    /// Every tap holds `z`.
    pub open spec fn at_rest(self, z: F) -> bool {
        forall|i: int| 0 <= i < self.errors.len() ==> #[trigger] self.errors[i] == z
    }

    /// `self` and `other` have the same gains.
    pub open spec fn same_tuning(self, other: Self) -> bool {
        &&& self.kp == other.kp
        &&& self.ki == other.ki
        &&& self.kd == other.kd
    }

    /// The state after the updates `inputs`, each a setpoint and a feedback,
    /// in their order.
    pub open spec fn run(self, inputs: Seq<(F, F)>) -> Self
        decreases inputs.len(),
    {
        if inputs.len() == 0 {
            self
        } else {
            self.run(inputs.drop_last()).next_state(inputs.last().0, inputs.last().1)
        }
    }

    /// The correction that update `k` of `inputs` returns, after the updates
    /// before it.
    pub open spec fn correction_at(self, inputs: Seq<(F, F)>, k: int) -> F {
        self.run(inputs.take(k)).correction(inputs[k].0, inputs[k].1)
    }
}

/// Every operation that `set_config` makes of `kp`, `ki` and `kd` is one that
/// `F` allows.
pub open spec fn config_defined<F: Numeric>(z: F, kp: F, ki: F, kd: F) -> bool {
    &&& kp.add_req(ki)
    &&& kp.add_spec(ki).add_req(kd)
    &&& z.sub_req(kp)
    &&& kd.mul_req(kd)
    &&& z.sub_spec(kp).sub_req(kd.mul_spec(kd))
}

/// Discrete PID controller.
///
/// The correction is `kp * e0 + ki * e1 + kd * e2`, where `e0` is the error
/// of this update, `e1` that of the previous one and `e2` that of the one
/// before. The gains are those of the three taps: `new` stores them as they
/// are given, `set_config` makes them from the gains of a PID loop.
pub struct DiscretePID<F> {
    /// Gain of the newest error.
    pub kp: F,
    /// Gain of the error before it.
    pub ki: F,
    /// Gain of the error before that.
    pub kd: F,
    errors: [F; 3],
}

impl<F: Numeric> View for DiscretePID<F> {
    type V = DiscreteModel<F>;

    closed spec fn view(&self) -> DiscreteModel<F> {
        DiscreteModel { kp: self.kp, ki: self.ki, kd: self.kd, errors: self.errors@ }
    }
}

impl<F: Numeric> DiscretePID<F> {
    /// There are three taps, and `F` has its zero. Every constructor gives a
    /// controller of which this holds, and every method keeps it.
    pub open spec fn wf(&self) -> bool {
        &&& self@.wf()
        &&& is_zero(zero::<F>())
    }

    /// Create a new `DiscretePID` whose taps have the gains `kp`, `ki` and
    /// `kd`, given in the numeric type itself.
    pub fn from_gains(kp: F, ki: F, kd: F) -> (pid: Self)
        ensures
            pid.wf(),
            pid@.cleared(),
            pid@.kp == kp,
            pid@.ki == ki,
            pid@.kd == kd,
    {
        let zero_value = F::default();
        assert(is_zero(zero_value));
        Self { kp, ki, kd, errors: [zero_value;3] }
    }

    /// Create a new `DiscretePID` whose taps have the gains `kp`, `ki` and
    /// `kd`, given as values that convert into the numeric type.
    pub fn new(kp: impl Into<F>, ki: impl Into<F>, kd: impl Into<F>) -> (pid: Self)
        ensures
            pid.wf(),
            pid@.cleared(),
            converts(kp, pid@.kp),
            converts(ki, pid@.ki),
            converts(kd, pid@.kd),
    {
        Self::from_gains(kp.into(), ki.into(), kd.into())
    }

    /// Replace the gains of the taps by those that the PID gains `kp`, `ki`
    /// and `kd` give: `kp + ki + kd`, `0 - kp - kd * kd` and `kd`.
    pub fn set_config(&mut self, kp: F, ki: F, kd: F)
        requires
            old(self).wf(),
            obeys_arith::<F>(),
            config_defined(zero::<F>(), kp, ki, kd),
        ensures
            final(self).wf(),
            final(self)@ == old(self)@.configured(zero::<F>(), kp, ki, kd),
    {
        let zero_value = F::default();
        assert(is_zero(zero_value));
        self.kp = kp + ki + kd;
        self.ki = zero_value - kp - kd * kd;
        self.kd = kd;
    }

    /// Reset the history of the controller: the three taps. The gains stay.
    pub fn reset(&mut self)
        requires
            old(self).wf(),
        ensures
            final(self).wf(),
            final(self)@.cleared(),
            final(self)@.same_tuning(old(self)@),
    {
        let zero_value = F::default();
        assert(is_zero(zero_value));
        self.errors = [zero_value;3];
    }

    /// Push the next measurement into the controller and return the
    /// correction.
    pub fn update(&mut self, sp: F, fb: F) -> (correction: F)
        requires
            old(self).wf(),
            obeys_operators::<F>(),
            old(self)@.next_defined(sp, fb),
        ensures
            final(self).wf(),
            final(self)@ == old(self)@.next_state(sp, fb),
            correction == old(self)@.correction(sp, fb),
    {
        self.errors[2] = self.errors[1];
        self.errors[1] = self.errors[0];
        self.errors[0] = sp - fb;
        assert(self.errors@ =~= old(self)@.next_errors(sp, fb));

        self.kp * self.errors[0] + self.ki * self.errors[1] + self.kd * self.errors[2]
    }

    /// Push the next measurement into the controller and return the
    /// correction, for a setpoint and a feedback that convert into `F`.
    pub fn next(&mut self, sp: impl Into<F>, fb: impl Into<F>) -> (correction: F)
        requires
            old(self).wf(),
            obeys_operators::<F>(),
            forall|s: F, f: F|
                #![trigger converts(sp, s), converts(fb, f)]
                converts(sp, s) && converts(fb, f) ==> old(self)@.next_defined(s, f),
        ensures
            final(self).wf(),
            exists|s: F, f: F|
                #![trigger converts(sp, s), converts(fb, f)]
                {
                    &&& converts(sp, s)
                    &&& converts(fb, f)
                    &&& final(self)@ == old(self)@.next_state(s, f)
                    &&& correction == old(self)@.correction(s, f)
                },
    {
        let s: F = sp.into();
        let f: F = fb.into();
        assert(converts(sp, s) && converts(fb, f));
        self.update(s, f)
    }
}

/// Updates change neither the gains nor the number of taps.
pub proof fn lemma_run_keeps_tuning<F: Numeric>(m: DiscreteModel<F>, inputs: Seq<(F, F)>)
    requires
        m.wf(),
    ensures
        m.run(inputs).wf(),
        m.run(inputs).same_tuning(m),
    decreases inputs.len(),
{
    if inputs.len() > 0 {
        lemma_run_keeps_tuning(m, inputs.drop_last());
    }
}

/// The taps are a shift register: after some updates, tap `i` holds the error
/// of the update that came `i` before the last one.
pub proof fn lemma_taps_hold_last_errors<F: Numeric>(
    m: DiscreteModel<F>,
    inputs: Seq<(F, F)>,
    i: int,
)
    requires
        m.wf(),
        0 <= i < 3,
        i < inputs.len(),
    ensures
        ({
            let (sp, fb) = inputs[inputs.len() - 1 - i];
            m.run(inputs).errors[i] == error_of(sp, fb)
        }),
    decreases inputs.len(),
{
    lemma_run_keeps_tuning(m, inputs.drop_last());
    if i > 0 {
        lemma_taps_hold_last_errors(m, inputs.drop_last(), i - 1);
        assert(inputs.drop_last()[inputs.len() - 1 - i] == inputs[inputs.len() - 1 - i]);
    }
}

/// A controller at rest stays at rest while setpoint and feedback are equal.
pub proof fn lemma_zero_error_keeps_rest<F: Numeric>(
    m: DiscreteModel<F>,
    z: F,
    inputs: Seq<(F, F)>,
)
    requires
        m.wf(),
        zero_laws(z),
        m.at_rest(z),
        forall|j: int| 0 <= j < inputs.len() ==> (#[trigger] inputs[j]).0 == inputs[j].1,
    ensures
        m.run(inputs).at_rest(z),
    decreases inputs.len(),
{
    if inputs.len() > 0 {
        lemma_zero_error_keeps_rest(m, z, inputs.drop_last());
        lemma_run_keeps_tuning(m, inputs.drop_last());
        let last = inputs.last();
        assert(last == inputs[inputs.len() - 1]);
        assert(error_of(last.0, last.1) == z);
    }
}

/// With no error on any update, from a controller at rest, every correction
/// is zero, whatever the gains.
pub proof fn lemma_zero_error_zero_correction<F: Numeric>(
    m: DiscreteModel<F>,
    z: F,
    inputs: Seq<(F, F)>,
    k: int,
)
    requires
        m.wf(),
        zero_laws(z),
        m.at_rest(z),
        forall|j: int| 0 <= j < inputs.len() ==> (#[trigger] inputs[j]).0 == inputs[j].1,
        0 <= k < inputs.len(),
    ensures
        m.correction_at(inputs, k) == z,
{
    assert forall|j: int| 0 <= j < inputs.take(k).len() implies (#[trigger] inputs.take(k)[j]).0
        == inputs.take(k)[j].1 by {
        assert(inputs.take(k)[j] == inputs[j]);
    }
    lemma_zero_error_keeps_rest(m, z, inputs.take(k));
    lemma_run_keeps_tuning(m, inputs.take(k));
    assert(error_of(inputs[k].0, inputs[k].1) == z);
}

/// A cleared controller is at rest.
pub proof fn lemma_cleared_is_at_rest<F: Numeric>(m: DiscreteModel<F>)
    requires
        zero_is_unique::<F>(),
        m.cleared(),
    ensures
        m.at_rest(zero::<F>()),
{
}

/// Two controllers with the same gains that have seen no update since they
/// were made or reset are in the same state, and so return the same
/// corrections for the same inputs: nothing of what a controller saw before a
/// reset is left.
pub proof fn lemma_cleared_states_agree<F: Numeric>(
    a: DiscreteModel<F>,
    b: DiscreteModel<F>,
    inputs: Seq<(F, F)>,
    k: int,
)
    requires
        zero_is_unique::<F>(),
        a.wf(),
        b.wf(),
        a.cleared(),
        b.cleared(),
        a.same_tuning(b),
    ensures
        a == b,
        a.run(inputs) == b.run(inputs),
        a.correction_at(inputs, k) == b.correction_at(inputs, k),
{
    assert(a.errors =~= b.errors);
}

} // verus!
