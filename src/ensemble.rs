use vstd::prelude::*;

verus! {

/// The particle set of a run together with its step counter.
///
/// The particles keep their order, which is their identity, and their number
/// for the whole run; each step moves every particle once, independently of
/// the others, and advances the counter by one.
pub struct Ensemble<P> {
    particles: Vec<P>,
    step: u64,
}

/// `after` is `before` moved by one step under `update`: the counter is one
/// higher, the number of particles is the same, and each particle of `after`
/// is what `update` made of the particle at the same place in `before`.
pub open spec fn stepped<P, F: Fn(&P) -> P>(before: Ensemble<P>, after: Ensemble<P>, update: F) -> bool {
    &&& after.steps() == before.steps() + 1
    &&& after.members().len() == before.members().len()
    &&& forall|i: int|
        0 <= i < before.members().len() ==> update.ensures(
            (&before.members()[i],),
            #[trigger] after.members()[i],
        )
}

impl<P> Ensemble<P> {
    /// The particles, in their order.
    pub closed spec fn members(&self) -> Seq<P> {
        self.particles@
    }

    /// The number of steps taken since the run began.
    pub closed spec fn steps(&self) -> nat {
        self.step as nat
    }

    /// Starts a run at step zero with the given particles.
    pub fn new(particles: Vec<P>) -> (e: Self)
        ensures
            e.members() == particles@,
            e.steps() == 0,
    {
        Ensemble { particles, step: 0 }
    }

    /// Takes one step: the counter goes up by one and each particle is
    /// replaced by what `update` makes of it, in place and in order.
    pub fn advance<F: Fn(&P) -> P>(&mut self, update: F)
        requires
            old(self).steps() < u64::MAX,
            forall|p: &P| update.requires((p,)),
        ensures
            stepped(*old(self), *final(self), update),
    {
        self.step = self.step + 1;
        let n = self.particles.len();
        let mut i: usize = 0;
        while i < n
            invariant
                n == self.particles@.len(),
                n == old(self).particles@.len(),
                self.step == old(self).step + 1,
                forall|p: &P| update.requires((p,)),
                forall|j: int| 0 <= j < i ==> update.ensures((&old(self).particles@[j],), self.particles@[j]),
                forall|j: int| i <= j < n ==> self.particles@[j] == old(self).particles@[j],
            decreases n - i,
        {
            let moved = update(&self.particles[i]);
            self.particles.set(i, moved);
            i = i + 1;
        }
    }

    /// The particles, in their order.
    pub fn particles(&self) -> (r: &Vec<P>)
        ensures
            r@ == self.members(),
    {
        &self.particles
    }

    /// The number of steps taken since the run began.
    pub fn step(&self) -> (r: u64)
        ensures
            r == self.steps(),
    {
        self.step
    }
}

/// Counting steps: along a run that starts at step zero and in which each
/// state is the previous one moved by one step, the state reached after `n`
/// steps reads `n` on its counter and holds as many particles as at the start.
pub proof fn lemma_steps_counted<P, F: Fn(&P) -> P>(run: Seq<Ensemble<P>>, update: F)
    requires
        run.len() > 0,
        run[0].steps() == 0,
        forall|n: int| 0 <= n < run.len() - 1 ==> stepped(#[trigger] run[n], run[n + 1], update),
    ensures
        forall|n: int|
            0 <= n < run.len() ==> #[trigger] run[n].steps() == n && run[n].members().len()
                == run[0].members().len(),
    decreases run.len(),
{
    if run.len() > 1 {
        let shorter = run.drop_last();
        assert forall|n: int| 0 <= n < shorter.len() - 1 implies stepped(
            #[trigger] shorter[n],
            shorter[n + 1],
            update,
        ) by {
            assert(stepped(run[n], run[n + 1], update));
        }
        lemma_steps_counted(shorter, update);
        assert forall|n: int| 0 <= n < run.len() implies #[trigger] run[n].steps() == n
            && run[n].members().len() == run[0].members().len() by {
            if n < run.len() - 1 {
                assert(shorter[n] == run[n]);
            } else {
                assert(shorter[n - 1] == run[n - 1]);
                assert(stepped(run[n - 1], run[n], update));
            }
        }
    }
}

/// Determinism: where `update` gives one result for each particle, two runs
/// in the same state move to the same state, so runs started alike stay alike.
pub proof fn lemma_step_deterministic<P, F: Fn(&P) -> P>(
    a: Ensemble<P>,
    b: Ensemble<P>,
    a_next: Ensemble<P>,
    b_next: Ensemble<P>,
    update: F,
)
    requires
        forall|p: &P, q: P, r: P| update.ensures((p,), q) && update.ensures((p,), r) ==> q == r,
        a.members() == b.members(),
        a.steps() == b.steps(),
        stepped(a, a_next, update),
        stepped(b, b_next, update),
    ensures
        a_next.members() == b_next.members(),
        a_next.steps() == b_next.steps(),
{
    assert forall|i: int| 0 <= i < a_next.members().len() implies a_next.members()[i]
        == b_next.members()[i] by {
        assert(update.ensures((&a.members()[i],), a_next.members()[i]));
        assert(update.ensures((&b.members()[i],), b_next.members()[i]));
    }
    assert(a_next.members() =~= b_next.members());
}

} // verus!
