//! Simulated price paths and the simulator that builds them step by step.
//!
//! One step of the simulation takes two random draws and some arithmetic, both
//! the caller's. What the simulator owns is the state between steps: the
//! variance, floored at zero after every step, and the samples recorded so far.
use vstd::prelude::*;
use vstd::string::*;
use crate::binary64::Binary64;
use crate::errors::OptionPricingError;

verus! {

/// One sample of a path: the time, then the spot price at that time.
pub type Sample = (Binary64, Binary64);

/// The state of a path under simulation.
pub ghost struct PathState {
    /// The number of steps that the finished path will have.
    pub num_steps: nat,
    /// The variance after the last step taken.
    pub variance: Binary64,
    /// The samples recorded so far, the start included.
    pub samples: Seq<Sample>,
}

impl PathState {
    /// The number of steps taken so far.
    pub open spec fn steps_taken(self) -> nat {
        (self.samples.len() - 1) as nat
    }

    /// All steps have been taken.
    pub open spec fn complete(self) -> bool {
        self.samples.len() == self.num_steps + 1
    }

    /// The state after one more step that proposes `raw_variance` and arrives
    /// at `(time, spot)`: the variance is the proposal floored at zero.
    pub open spec fn after_step(self, raw_variance: Binary64, time: Binary64, spot: Binary64) -> PathState {
        PathState {
            num_steps: self.num_steps,
            variance: raw_variance.spec_floor_at_zero(),
            samples: self.samples.push((time, spot)),
        }
    }
}

/// Whatever variance a step proposes, the variance kept after the step is a
/// number and is not below zero.
pub proof fn lemma_variance_never_negative(
    state: PathState,
    raw_variance: Binary64,
    time: Binary64,
    spot: Binary64,
)
    ensures
        !state.after_step(raw_variance, time, spot).variance.spec_is_nan(),
        state.after_step(raw_variance, time, spot).variance.spec_ge(Binary64::spec_zero()),
{
}

/// A path under simulation.
pub struct PathSimulator {
    num_steps: usize,
    variance: Binary64,
    samples: Vec<Sample>,
}

impl View for PathSimulator {
    type V = PathState;

    closed spec fn view(&self) -> PathState {
        PathState {
            num_steps: self.num_steps as nat,
            variance: self.variance,
            samples: self.samples@,
        }
    }
}

impl PathSimulator {
    #[verifier::type_invariant]
    spec fn wf(self) -> bool {
        &&& 1 <= self.samples@.len() <= self.num_steps + 1
        &&& self.num_steps >= 1
        &&& self.samples@[0].0 == Binary64::spec_zero()
        &&& self.samples@.len() > 1 ==> {
            &&& !self.variance.spec_is_nan()
            &&& self.variance.spec_ge(Binary64::spec_zero())
        }
    }

    /// Starts a path of `num_steps` steps at time zero, at the given spot
    /// price and variance. A path of no steps is refused.
    pub fn start(spot: Binary64, initial_variance: Binary64, num_steps: usize) -> (res: Result<
        PathSimulator,
        OptionPricingError,
    >)
        ensures
            match res {
                Ok(sim) => {
                    &&& num_steps > 0
                    &&& sim@ == PathState {
                        num_steps: num_steps as nat,
                        variance: initial_variance,
                        samples: seq![(Binary64::spec_zero(), spot)],
                    }
                },
                Err(OptionPricingError::InvalidInput(detail)) => {
                    &&& num_steps == 0
                    &&& detail@ == "Number of steps must be greater than zero."@
                },
                Err(_) => false,
            },
    {
        if num_steps == 0 {
            return Err(
                OptionPricingError::InvalidInput(
                    String::from_str("Number of steps must be greater than zero."),
                ),
            );
        }
        let mut samples: Vec<Sample> = Vec::new();
        samples.push((Binary64::zero(), spot));
        Ok(PathSimulator { num_steps, variance: initial_variance, samples })
    }

    /// The variance after the last step taken; the initial variance before
    /// the first. After a step it is a number, and not below zero.
    pub fn variance(&self) -> (v: Binary64)
        ensures
            v == self@.variance,
            self@.steps_taken() > 0 ==> !v.spec_is_nan() && v.spec_ge(Binary64::spec_zero()),
    {
        proof {
            use_type_invariant(self);
        }
        self.variance
    }

    /// The spot price of the last sample.
    pub fn spot(&self) -> (s: Binary64)
        ensures
            self@.samples.len() > 0,
            s == self@.samples.last().1,
    {
        proof {
            use_type_invariant(self);
        }
        self.samples[self.samples.len() - 1].1
    }

    /// The number of steps taken so far.
    pub fn steps_taken(&self) -> (n: usize)
        ensures
            self@.samples.len() > 0,
            n == self@.steps_taken(),
            n <= self@.num_steps,
    {
        proof {
            use_type_invariant(self);
        }
        self.samples.len() - 1
    }

    /// Whether all steps have been taken.
    pub fn is_complete(&self) -> (done: bool)
        ensures
            done == self@.complete(),
    {
        proof {
            use_type_invariant(self);
        }
        self.samples.len() - 1 == self.num_steps
    }

    /// Takes one step: floors the proposed variance at zero, keeps it, and
    /// records the sample `(time, spot)`. A complete path is returned as it
    /// is.
    pub fn advance(self, raw_variance: Binary64, time: Binary64, spot: Binary64) -> (next:
        PathSimulator)
        ensures
            self@.complete() ==> next@ == self@,
            !self@.complete() ==> next@ == self@.after_step(raw_variance, time, spot),
    {
        proof {
            use_type_invariant(&self);
        }
        if self.samples.len() - 1 == self.num_steps {
            return self;
        }
        let PathSimulator { num_steps, variance: _, mut samples } = self;
        samples.push((time, spot));
        PathSimulator { num_steps, variance: raw_variance.floor_at_zero(), samples }
    }
}

impl PathSimulator {
    /// The finished path; `None` while steps are missing.
    pub fn finish(self) -> (res: Option<SimulatedPath>)
        ensures
            match res {
                Some(path) => self@.complete() && path@ == self@.samples,
                None => !self@.complete(),
            },
    {
        proof {
            use_type_invariant(&self);
        }
        if self.samples.len() - 1 == self.num_steps {
            Some(SimulatedPath { samples: self.samples })
        } else {
            None
        }
    }
}

/// A finished path: the start sample at time zero, then one sample per step.
pub struct SimulatedPath {
    samples: Vec<Sample>,
}

impl View for SimulatedPath {
    type V = Seq<Sample>;

    closed spec fn view(&self) -> Seq<Sample> {
        self.samples@
    }
}

impl SimulatedPath {
    #[verifier::type_invariant]
    spec fn wf(self) -> bool {
        &&& self.samples@.len() >= 2
        &&& self.samples@[0].0 == Binary64::spec_zero()
    }

    /// The number of steps of the path: one less than its samples.
    pub fn num_steps(&self) -> (n: usize)
        ensures
            n >= 1,
            n == self@.len() - 1,
    {
        proof {
            use_type_invariant(self);
        }
        self.samples.len() - 1
    }

    /// The sample after `step` steps; `None` beyond the end of the path.
    pub fn sample(&self, step: usize) -> (res: Option<Sample>)
        ensures
            match res {
                Some(s) => step < self@.len() && s == self@[step as int],
                None => step >= self@.len(),
            },
    {
        if step < self.samples.len() {
            Some(self.samples[step])
        } else {
            None
        }
    }

    /// The spot price at the end of the path.
    pub fn terminal_spot(&self) -> (spot: Binary64)
        ensures
            self@.len() >= 2,
            spot == self@.last().1,
    {
        proof {
            use_type_invariant(self);
        }
        self.samples[self.samples.len() - 1].1
    }
}

/// The spot price of every path after `step` steps.
pub open spec fn spots_of(paths: Seq<Seq<Sample>>, step: int) -> Seq<Binary64> {
    Seq::new(paths.len(), |i: int| paths[i][step].1)
}

/// Paths of one simulation: all of the same number of steps.
pub struct PathSet {
    num_steps: usize,
    paths: Vec<SimulatedPath>,
}

impl View for PathSet {
    type V = Seq<Seq<Sample>>;

    closed spec fn view(&self) -> Seq<Seq<Sample>> {
        Seq::new(self.paths@.len(), |i: int| self.paths@[i]@)
    }
}

impl PathSet {
    #[verifier::type_invariant]
    spec fn wf(self) -> bool {
        &&& self.num_steps >= 1
        &&& forall|i: int|
            0 <= i < self.paths@.len() ==> (#[trigger] self.paths@[i])@.len() == self.num_steps + 1
    }

    /// The number of steps of every path of the set.
    pub closed spec fn steps(&self) -> nat {
        self.num_steps as nat
    }

    /// The set of the given paths, in their order. `None` where `num_steps`
    /// is zero or some path has another number of steps.
    pub fn from_paths(paths: Vec<SimulatedPath>, num_steps: usize) -> (res: Option<PathSet>)
        ensures
            match res {
                Some(set) => {
                    &&& num_steps >= 1
                    &&& set.steps() == num_steps
                    &&& set@.len() == paths@.len()
                    &&& forall|i: int| 0 <= i < paths@.len() ==> set@[i] == (#[trigger] paths@[i])@
                },
                None => num_steps == 0 || exists|i: int|
                    0 <= i < paths@.len() && (#[trigger] paths@[i])@.len() != num_steps + 1,
            },
    {
        if num_steps == 0 {
            return None;
        }
        let mut i: usize = 0;
        while i < paths.len()
            invariant
                i <= paths@.len(),
                forall|j: int| 0 <= j < i ==> (#[trigger] paths@[j])@.len() == num_steps + 1,
            decreases paths@.len() - i,
        {
            if paths[i].num_steps() != num_steps {
                return None;
            }
            i = i + 1;
        }
        Some(PathSet { num_steps, paths })
    }

    /// The number of paths.
    pub fn len(&self) -> (n: usize)
        ensures
            n == self@.len(),
    {
        self.paths.len()
    }

    /// The number of steps of every path.
    pub fn num_steps(&self) -> (n: usize)
        ensures
            n == self.steps(),
            n >= 1,
    {
        proof {
            use_type_invariant(self);
        }
        self.num_steps
    }

    /// The spot price of every path after `step` steps, in path order; `None`
    /// beyond the end of the paths.
    pub fn spots_at(&self, step: usize) -> (res: Option<Vec<Binary64>>)
        ensures
            match res {
                Some(spots) => step <= self.steps() && spots@ == spots_of(self@, step as int),
                None => step > self.steps(),
            },
    {
        proof {
            use_type_invariant(self);
        }
        if step > self.num_steps {
            return None;
        }
        let mut spots: Vec<Binary64> = Vec::new();
        let mut i: usize = 0;
        while i < self.paths.len()
            invariant
                i <= self.paths@.len(),
                step <= self.num_steps,
                forall|j: int|
                    0 <= j < self.paths@.len() ==> (#[trigger] self.paths@[j])@.len()
                        == self.num_steps + 1,
                spots@.len() == i,
                forall|j: int| 0 <= j < i ==> spots@[j] == (#[trigger] self.paths@[j])@[step as int].1,
            decreases self.paths@.len() - i,
        {
            let sample = self.paths[i].sample(step);
            match sample {
                Some(s) => spots.push(s.1),
                None => {
                    assert(false);
                },
            }
            i = i + 1;
        }
        assert(spots@ =~= spots_of(self@, step as int));
        Some(spots)
    }

    /// The spot price of every path at its end, in path order.
    pub fn terminal_spots(&self) -> (spots: Vec<Binary64>)
        ensures
            spots@ == spots_of(self@, self.steps() as int),
    {
        match self.spots_at(self.num_steps()) {
            Some(spots) => spots,
            None => {
                assert(false);
                Vec::new()
            },
        }
    }
}

} // verus!
