//! The windowed controller: its integral term is the sum of the last `W`
//! errors, kept in a ring of `W` slots.

use crate::numeric::{
    add_commutes, converts, error_of, is_zero, lemma_sum_of_permutation, lemma_sum_of_zeros,
    lemma_sum_step, obeys_arith, sum_defined, sum_from, zero, zero_is_unique, zero_laws, Numeric,
};
use vstd::seq_lib::lemma_multiset_commutative;
use vstd::pervasive::runtime_assert;
use vstd::prelude::*;
use vstd::std_specs::ops::{AddSpec, MulSpec, SubSpec};

verus! {

/// The state of a windowed controller as plain mathematical values.
pub struct WindowedModel<F> {
    /// Proportional gain.
    pub kp: F,
    /// Integral gain.
    pub ki: F,
    /// Derivative gain.
    pub kd: F,
    /// Feed-forward gain, on the change of the setpoint.
    pub kf: F,
    /// Velocity gain, on the raw feedback.
    pub kv: F,
    /// Whether the two feed-forward terms are part of the correction.
    pub feed_forward: bool,
    /// The setpoint of the previous update.
    pub last_sp: F,
    /// The slot that holds the error of the previous update.
    pub cursor: int,
    /// The ring: the last errors, one per slot.
    pub errors: Seq<F>,
}

impl<F: Numeric> WindowedModel<F> {
    /// The cursor names a slot of the ring.
    pub open spec fn wf(self) -> bool {
        0 <= self.cursor < self.errors.len()
    }

    /// The slot after the cursor, going round the ring.
    pub open spec fn next_cursor(self) -> int {
        if self.cursor + 1 >= self.errors.len() {
            0
        } else {
            self.cursor + 1
        }
    }

    /// The error of the previous update: the one at the cursor.
    pub open spec fn previous_error(self) -> F {
        self.errors[self.cursor]
    }

    /// The change of the error since the previous update.
    pub open spec fn error_delta(self, sp: F, fb: F) -> F {
        error_of(sp, fb).sub_spec(self.previous_error())
    }

    /// The ring once the new error has taken the place of the oldest one.
    pub open spec fn next_errors(self, sp: F, fb: F) -> Seq<F> {
        self.errors.update(self.next_cursor(), error_of(sp, fb))
    }

    /// The sum of the ring, slot by slot from the first, the new error included.
    pub open spec fn integral(self, z: F, sp: F, fb: F) -> F {
        sum_from(z, self.next_errors(sp, fb))
    }

    /// The change of the setpoint since the previous update.
    pub open spec fn setpoint_delta(self, sp: F) -> F {
        sp.sub_spec(self.last_sp)
    }

    /// `kp * error`.
    pub open spec fn proportional_term(self, sp: F, fb: F) -> F {
        self.kp.mul_spec(error_of(sp, fb))
    }

    /// `ki * integral`.
    pub open spec fn integral_term(self, z: F, sp: F, fb: F) -> F {
        self.ki.mul_spec(self.integral(z, sp, fb))
    }

    /// `kd * error_delta`.
    pub open spec fn derivative_term(self, sp: F, fb: F) -> F {
        self.kd.mul_spec(self.error_delta(sp, fb))
    }

    /// `kf * setpoint_delta`.
    pub open spec fn feed_forward_term(self, sp: F) -> F {
        self.kf.mul_spec(self.setpoint_delta(sp))
    }

    /// `kv * feedback`.
    pub open spec fn velocity_term(self, fb: F) -> F {
        self.kv.mul_spec(fb)
    }

    /// The three feedback terms added up: `(p + i) + d`.
    pub open spec fn feedback_sum(self, z: F, sp: F, fb: F) -> F {
        self.proportional_term(sp, fb).add_spec(self.integral_term(z, sp, fb)).add_spec(
            self.derivative_term(sp, fb),
        )
    }

    /// The correction of one update: the feedback terms and, with feed-forward,
    /// the two feed-forward terms after them: `(((p + i) + d) + f) + v`.
    pub open spec fn correction(self, z: F, sp: F, fb: F) -> F {
        if self.feed_forward {
            self.feedback_sum(z, sp, fb).add_spec(self.feed_forward_term(sp)).add_spec(
                self.velocity_term(fb),
            )
        } else {
            self.feedback_sum(z, sp, fb)
        }
    }

    /// The state after one update.
    pub open spec fn next_state(self, sp: F, fb: F) -> Self {
        WindowedModel {
            last_sp: if self.feed_forward {
                sp
            } else {
                self.last_sp
            },
            cursor: self.next_cursor(),
            errors: self.next_errors(sp, fb),
            ..self
        }
    }

    /// Every operation of one update is one that `F` allows.
    pub open spec fn next_defined(self, z: F, sp: F, fb: F) -> bool {
        &&& sp.sub_req(fb)
        &&& error_of(sp, fb).sub_req(self.previous_error())
        &&& sum_defined(z, self.next_errors(sp, fb))
        &&& self.kp.mul_req(error_of(sp, fb))
        &&& self.ki.mul_req(self.integral(z, sp, fb))
        &&& self.kd.mul_req(self.error_delta(sp, fb))
        &&& self.proportional_term(sp, fb).add_req(self.integral_term(z, sp, fb))
        &&& self.proportional_term(sp, fb).add_spec(self.integral_term(z, sp, fb)).add_req(
            self.derivative_term(sp, fb),
        )
        &&& self.feed_forward ==> {
            &&& sp.sub_req(self.last_sp)
            &&& self.kf.mul_req(self.setpoint_delta(sp))
            &&& self.kv.mul_req(fb)
            &&& self.feedback_sum(z, sp, fb).add_req(self.feed_forward_term(sp))
            &&& self.feedback_sum(z, sp, fb).add_spec(self.feed_forward_term(sp)).add_req(
                self.velocity_term(fb),
            )
        }
    }

    /// All history is zero: the state of a controller that has seen no update.
    pub open spec fn cleared(self) -> bool {
        &&& self.cursor == 0
        &&& is_zero(self.last_sp)
        &&& forall|i: int| 0 <= i < self.errors.len() ==> is_zero(#[trigger] self.errors[i])
    }

    /// Every slot of the ring holds `z`.
    pub open spec fn at_rest(self, z: F) -> bool {
        forall|i: int| 0 <= i < self.errors.len() ==> #[trigger] self.errors[i] == z
    }

    /// The state after the updates `inputs`, each a setpoint and a feedback,
    /// in their order.
    pub open spec fn run(self, inputs: Seq<(F, F)>) -> Self
        decreases inputs.len(),
    {
        if inputs.len() == 0 {
            self
        } else {
            self.run(inputs.drop_last()).next_state(inputs.last().0, inputs.last().1)
        }
    }

    /// The correction that update `k` of `inputs` returns, after the updates
    /// before it.
    pub open spec fn correction_at(self, z: F, inputs: Seq<(F, F)>, k: int) -> F {
        self.run(inputs.take(k)).correction(z, inputs[k].0, inputs[k].1)
    }

    /// How many updates ago slot `i` was written: none for the slot at the
    /// cursor, one more for each slot before it, going round the ring.
    pub open spec fn slot_age(self, i: int) -> int {
        if i <= self.cursor {
            self.cursor - i
        } else {
            self.cursor + self.errors.len() - i
        }
    }

    /// `self` and `other` are set up alike: the same gains, the same choice of
    /// feed-forward, the same number of slots.
    pub open spec fn same_tuning(self, other: Self) -> bool {
        &&& self.kp == other.kp
        &&& self.ki == other.ki
        &&& self.kd == other.kd
        &&& self.kf == other.kf
        &&& self.kv == other.kv
        &&& self.feed_forward == other.feed_forward
        &&& self.errors.len() == other.errors.len()
    }
}

/// PID controller with a windowed integral term.
///
/// The integral term is the sum of the last `W` errors. With feed-forward, the
/// correction also holds `kf` times the change of the setpoint and `kv` times
/// the raw feedback.
pub struct PID<F, const W: usize> {
    /// Proportional gain.
    pub kp: F,
    /// Integral gain.
    pub ki: F,
    /// Derivative gain.
    pub kd: F,
    /// Feed-forward gain.
    pub kf: F,
    /// Velocity gain.
    pub kv: F,
    feed_forward: bool,
    last_sp: F,
    last_error_idx: usize,
    errors: [F; W],
}

impl<F: Numeric, const W: usize> View for PID<F, W> {
    type V = WindowedModel<F>;

    closed spec fn view(&self) -> WindowedModel<F> {
        WindowedModel {
            kp: self.kp,
            ki: self.ki,
            kd: self.kd,
            kf: self.kf,
            kv: self.kv,
            feed_forward: self.feed_forward,
            last_sp: self.last_sp,
            cursor: self.last_error_idx as int,
            errors: self.errors@,
        }
    }
}

impl<F: Numeric, const W: usize> PID<F, W> {
    /// The ring has `W` slots, the cursor names one of them, and `F` has its
    /// zero. Every constructor gives a controller of which this holds, and
    /// every method keeps it.
    pub open spec fn wf(&self) -> bool {
        &&& self@.errors.len() == W
        &&& self@.wf()
        &&& is_zero(zero::<F>())
    }

    /// Create a new `PID` from gains of the numeric type itself, with
    /// feed-forward where `feed_forward` holds the feed-forward gain and the
    /// velocity gain, and without where it holds nothing. Without
    /// feed-forward the correction is made of the three feedback terms alone,
    /// and the two feed-forward gains are zero.
    ///
    /// The window must have at least one slot.
    pub fn from_gains(kp: F, ki: F, kd: F, feed_forward: Option<(F, F)>) -> (pid: Self)
        requires
            W > 0,
        ensures
            pid.wf(),
            pid@.cleared(),
            pid@.kp == kp,
            pid@.ki == ki,
            pid@.kd == kd,
            pid@.feed_forward == feed_forward.is_some(),
            match feed_forward {
                Some((kf, kv)) => pid@.kf == kf && pid@.kv == kv,
                None => is_zero(pid@.kf) && is_zero(pid@.kv),
            },
    {
        runtime_assert(W > 0);
        let zero_value = F::default();
        assert(is_zero(zero_value));
        let (kf, kv) = match feed_forward {
            Some(gains) => gains,
            None => (zero_value, zero_value),
        };
        Self {
            kp,
            ki,
            kd,
            kf,
            kv,
            feed_forward: feed_forward.is_some(),
            last_sp: zero_value,
            errors: [zero_value;W],
            last_error_idx: 0,
        }
    }

    /// Create a new `PID` with feed-forward, from gains that convert into the
    /// numeric type.
    ///
    /// The window must have at least one slot.
    pub fn new(
        kp: impl Into<F>,
        ki: impl Into<F>,
        kd: impl Into<F>,
        kf: impl Into<F>,
        kv: impl Into<F>,
    ) -> (pid: Self)
        requires
            W > 0,
        ensures
            pid.wf(),
            pid@.cleared(),
            pid@.feed_forward,
            converts(kp, pid@.kp),
            converts(ki, pid@.ki),
            converts(kd, pid@.kd),
            converts(kf, pid@.kf),
            converts(kv, pid@.kv),
    {
        Self::from_gains(kp.into(), ki.into(), kd.into(), Some((kf.into(), kv.into())))
    }

    /// Reset the history of the controller: the last setpoint, the cursor and
    /// every slot of the ring. The gains stay.
    pub fn reset(&mut self)
        requires
            old(self).wf(),
        ensures
            final(self).wf(),
            final(self)@.cleared(),
            final(self)@.same_tuning(old(self)@),
    {
        let zero_value = F::default();
        assert(is_zero(zero_value));
        self.last_sp = zero_value;
        self.last_error_idx = 0;
        self.errors = [zero_value;W];
    }

    /// The sum of the ring, slot by slot from the first.
    fn window_sum(&self) -> (total: F)
        requires
            obeys_arith::<F>(),
            sum_defined(zero::<F>(), self@.errors),
        ensures
            total == sum_from(zero::<F>(), self@.errors),
    {
        let mut total = F::default();
        assert(is_zero(total));
        let mut i: usize = 0;
        assert(self.errors@.take(0) =~= Seq::<F>::empty());
        while i < W
            invariant
                obeys_arith::<F>(),
                i <= W,
                self.errors@.len() == W,
                sum_defined(zero::<F>(), self.errors@),
                total == sum_from(zero::<F>(), self.errors@.take(i as int)),
            decreases W - i,
        {
            proof {
                lemma_sum_step(zero::<F>(), self.errors@, i as int);
            }
            total = total + self.errors[i];
            i += 1;
        }
        assert(self.errors@.take(W as int) =~= self.errors@);
        total
    }

    /// Push the next measurement into the controller and return the
    /// correction.
    pub fn update(&mut self, sp: F, fb: F) -> (correction: F)
        requires
            old(self).wf(),
            obeys_arith::<F>(),
            old(self)@.next_defined(zero::<F>(), sp, fb),
        ensures
            final(self).wf(),
            final(self)@ == old(self)@.next_state(sp, fb),
            correction == old(self)@.correction(zero::<F>(), sp, fb),
    {
        let error = sp - fb;

        let error_delta = error - self.errors[self.last_error_idx];
        self.last_error_idx += 1;
        if self.last_error_idx >= W {
            self.last_error_idx = 0
        }
        self.errors[self.last_error_idx] = error;
        let err_history = self.window_sum();

        let p = self.kp * error;
        let i = self.ki * err_history;
        let d = self.kd * error_delta;
        if self.feed_forward {
            let sp_delta = sp - self.last_sp;
            self.last_sp = sp;
            let f = self.kf * sp_delta;
            let v = self.kv * fb;
            p + i + d + f + v
        } else {
            p + i + d
        }
    }

    /// Push the next measurement into the controller and return the
    /// correction, for a setpoint and a feedback that convert into `F`.
    pub fn next(&mut self, sp: impl Into<F>, fb: impl Into<F>) -> (correction: F)
        requires
            old(self).wf(),
            obeys_arith::<F>(),
            forall|s: F, f: F|
                #![trigger converts(sp, s), converts(fb, f)]
                converts(sp, s) && converts(fb, f) ==> old(self)@.next_defined(zero::<F>(), s, f),
        ensures
            final(self).wf(),
            exists|s: F, f: F|
                #![trigger converts(sp, s), converts(fb, f)]
                {
                    &&& converts(sp, s)
                    &&& converts(fb, f)
                    &&& final(self)@ == old(self)@.next_state(s, f)
                    &&& correction == old(self)@.correction(zero::<F>(), s, f)
                },
    {
        let s: F = sp.into();
        let f: F = fb.into();
        assert(converts(sp, s) && converts(fb, f));
        self.update(s, f)
    }
}

/// The errors of the last `w` of `inputs`, oldest first.
pub open spec fn last_errors<F: Numeric>(inputs: Seq<(F, F)>, w: int) -> Seq<F> {
    Seq::new(
        w as nat,
        |i: int| error_of(inputs[inputs.len() - w + i].0, inputs[inputs.len() - w + i].1),
    )
}

/// Updates change neither the gains nor the shape of the ring.
pub proof fn lemma_run_keeps_tuning<F: Numeric>(m: WindowedModel<F>, inputs: Seq<(F, F)>)
    requires
        m.wf(),
    ensures
        m.run(inputs).wf(),
        m.run(inputs).same_tuning(m),
    decreases inputs.len(),
{
    if inputs.len() > 0 {
        lemma_run_keeps_tuning(m, inputs.drop_last());
    }
}

/// A controller at rest stays at rest while setpoint and feedback are equal.
pub proof fn lemma_zero_error_keeps_rest<F: Numeric>(
    m: WindowedModel<F>,
    z: F,
    inputs: Seq<(F, F)>,
)
    requires
        m.wf(),
        zero_laws(z),
        m.at_rest(z),
        forall|j: int| 0 <= j < inputs.len() ==> (#[trigger] inputs[j]).0 == inputs[j].1,
    ensures
        m.run(inputs).at_rest(z),
    decreases inputs.len(),
{
    if inputs.len() > 0 {
        lemma_zero_error_keeps_rest(m, z, inputs.drop_last());
        lemma_run_keeps_tuning(m, inputs.drop_last());
        let last = inputs.last();
        assert(last == inputs[inputs.len() - 1]);
        assert(error_of(last.0, last.1) == z);
    }
}

/// With no error on any update, from a controller at rest, each of the three
/// feedback terms is zero on every update. Without feed-forward the
/// correction is zero. With feed-forward it is the two feed-forward terms
/// alone, and so it is zero where they add up to zero.
pub proof fn lemma_zero_error_zero_correction<F: Numeric>(
    m: WindowedModel<F>,
    z: F,
    inputs: Seq<(F, F)>,
    k: int,
)
    requires
        m.wf(),
        zero_laws(z),
        m.at_rest(z),
        forall|j: int| 0 <= j < inputs.len() ==> (#[trigger] inputs[j]).0 == inputs[j].1,
        0 <= k < inputs.len(),
    ensures
        ({
            let before = m.run(inputs.take(k));
            let (sp, fb) = inputs[k];
            let fed_forward = z.add_spec(before.feed_forward_term(sp)).add_spec(
                before.velocity_term(fb),
            );
            &&& before.proportional_term(sp, fb) == z
            &&& before.integral_term(z, sp, fb) == z
            &&& before.derivative_term(sp, fb) == z
            &&& !m.feed_forward ==> m.correction_at(z, inputs, k) == z
            &&& m.feed_forward ==> m.correction_at(z, inputs, k) == fed_forward
            &&& m.feed_forward && fed_forward == z ==> m.correction_at(z, inputs, k) == z
        }),
{
    let before = m.run(inputs.take(k));
    let (sp, fb) = inputs[k];
    assert forall|j: int| 0 <= j < inputs.take(k).len() implies (#[trigger] inputs.take(k)[j]).0
        == inputs.take(k)[j].1 by {
        assert(inputs.take(k)[j] == inputs[j]);
    }
    lemma_zero_error_keeps_rest(m, z, inputs.take(k));
    lemma_run_keeps_tuning(m, inputs.take(k));
    assert(error_of(sp, fb) == z);
    assert(before.previous_error() == z);
    lemma_sum_of_zeros(z, before.next_errors(sp, fb));
}

/// Two controllers that are set up alike and have seen no update since they
/// were made or reset are in the same state, and so return the same
/// corrections for the same inputs: nothing of what a controller saw before a
/// reset is left.
pub proof fn lemma_cleared_states_agree<F: Numeric>(
    a: WindowedModel<F>,
    b: WindowedModel<F>,
    z: F,
    inputs: Seq<(F, F)>,
    k: int,
)
    requires
        zero_is_unique::<F>(),
        a.cleared(),
        b.cleared(),
        a.same_tuning(b),
    ensures
        a == b,
        a.run(inputs) == b.run(inputs),
        a.correction_at(z, inputs, k) == b.correction_at(z, inputs, k),
{
    assert(a.errors =~= b.errors);
}

/// A cleared controller is at rest.
pub proof fn lemma_cleared_is_at_rest<F: Numeric>(m: WindowedModel<F>)
    requires
        zero_is_unique::<F>(),
        m.cleared(),
    ensures
        m.at_rest(zero::<F>()),
        m.last_sp == zero::<F>(),
{
}

/// After some updates, a slot that was written by one of them holds the error
/// of that update: the slot at the cursor the newest, the one before it the
/// one before, going round the ring. Once there were as many updates as
/// slots, every slot holds one of the last errors, and none an older one.
pub proof fn lemma_ring_holds_last_errors<F: Numeric>(
    m: WindowedModel<F>,
    inputs: Seq<(F, F)>,
    i: int,
)
    requires
        m.wf(),
        0 <= i < m.errors.len(),
        m.run(inputs).slot_age(i) < inputs.len(),
    ensures
        ({
            let age = m.run(inputs).slot_age(i);
            let (sp, fb) = inputs[inputs.len() - 1 - age];
            m.run(inputs).errors[i] == error_of(sp, fb)
        }),
    decreases inputs.len(),
{
    lemma_run_keeps_tuning(m, inputs);
    if inputs.len() > 0 {
        let before = m.run(inputs.drop_last());
        lemma_run_keeps_tuning(m, inputs.drop_last());
        if i != before.next_cursor() {
            assert(m.run(inputs).slot_age(i) == before.slot_age(i) + 1);
            lemma_ring_holds_last_errors(m, inputs.drop_last(), i);
            let age = before.slot_age(i);
            assert(inputs.drop_last()[inputs.len() - 2 - age] == inputs[inputs.len() - 2 - age]);
        }
    }
}

/// Once there were at least as many updates as slots, the integral of the
/// last update is the sum of the errors of the last `W` updates, and of
/// nothing older, where the order of adding does not matter to `F`.
pub proof fn lemma_integral_is_sum_of_last_errors<F: Numeric>(
    m: WindowedModel<F>,
    z: F,
    inputs: Seq<(F, F)>,
)
    requires
        m.wf(),
        add_commutes::<F>(),
        inputs.len() >= m.errors.len(),
    ensures
        ({
            let before = m.run(inputs.drop_last());
            let (sp, fb) = inputs.last();
            before.integral(z, sp, fb) == sum_from(z, last_errors(inputs, m.errors.len() as int))
        }),
{
    let w = m.errors.len() as int;
    let after = m.run(inputs);
    let window = last_errors(inputs, w);
    lemma_run_keeps_tuning(m, inputs);
    let r = w - 1 - after.cursor;
    let turned = window.skip(r) + window.take(r);
    assert(after.errors =~= turned) by {
        assert forall|i: int| 0 <= i < w implies after.errors[i] == turned[i] by {
            lemma_ring_holds_last_errors(m, inputs, i);
        }
    }
    assert(window =~= window.take(r) + window.skip(r));
    lemma_multiset_commutative(window.skip(r), window.take(r));
    lemma_multiset_commutative(window.take(r), window.skip(r));
    assert(turned.to_multiset() =~= window.to_multiset());
    lemma_sum_of_permutation(z, after.errors, window);
}

/// The derivative term looks one update back, however long the window: the
/// change of the error is taken against the error of the previous update.
pub proof fn lemma_error_delta_is_since_previous_update<F: Numeric>(
    m: WindowedModel<F>,
    sp: F,
    fb: F,
    next_sp: F,
    next_fb: F,
)
    requires
        m.wf(),
    ensures
        m.next_state(sp, fb).previous_error() == error_of(sp, fb),
        m.next_state(sp, fb).error_delta(next_sp, next_fb) == error_of(next_sp, next_fb).sub_spec(
            error_of(sp, fb),
        ),
{
}

/// With feed-forward, a setpoint that is the same on two updates in a row
/// adds nothing on the second: the change of the setpoint is zero, and so is
/// the feed-forward term.
pub proof fn lemma_constant_setpoint_feeds_nothing_forward<F: Numeric>(
    m: WindowedModel<F>,
    z: F,
    sp: F,
    fb: F,
)
    requires
        m.feed_forward,
        zero_laws(z),
    ensures
        m.next_state(sp, fb).setpoint_delta(sp) == z,
        m.next_state(sp, fb).feed_forward_term(sp) == z,
{
}

} // verus!
