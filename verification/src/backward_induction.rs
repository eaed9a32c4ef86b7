//! Early exercise by regression on simulated paths.
//!
//! The engine walks the exercise dates from the last but one down to the
//! first. At each date it holds, for every path, the value of keeping the
//! option from that date on. The caller discounts the values, fits a
//! regression on the paths in the money and predicts their continuation
//! values; the engine decides which paths feed the regression and which are
//! exercised.
use vstd::prelude::*;
use crate::binary64::Binary64;
use crate::paths::{spots_of, PathSet, Sample};
use crate::payoff::{exercise_value, in_the_money, is_in_the_money, spec_exercise_value};
use crate::regression::RegressionDataPoint;

verus! {

/// Some path is in the money.
pub open spec fn any_in_the_money(margins: Seq<Binary64>) -> bool {
    exists|i: int| 0 <= i < margins.len() && in_the_money(#[trigger] margins[i])
}

/// The option on a path is exercised at a date when the path is in the money
/// and exercise pays at least the predicted value of holding on. A tie is
/// exercised.
pub open spec fn exercises(margin: Binary64, predicted: Binary64) -> bool {
    in_the_money(margin) && spec_exercise_value(margin).spec_ge(predicted)
}

/// The value of a path after a date: what exercise pays where the option is
/// exercised, and the discounted value of holding on otherwise.
pub open spec fn settled(margin: Binary64, discounted: Binary64, predicted: Binary64) -> Binary64 {
    if exercises(margin, predicted) {
        spec_exercise_value(margin)
    } else {
        discounted
    }
}

/// The values of all paths after a date. While no path is in the money the
/// date changes nothing: the values are not even discounted.
pub open spec fn step_values(
    values: Seq<Binary64>,
    margins: Seq<Binary64>,
    discounted: Seq<Binary64>,
    predicted: Seq<Binary64>,
) -> Seq<Binary64> {
    if any_in_the_money(margins) {
        Seq::new(values.len(), |i: int| settled(margins[i], discounted[i], predicted[i]))
    } else {
        values
    }
}

/// The observations of a date's regression: one for each path in the money,
/// in path order, and none for any other path.
pub open spec fn training_set(
    time: Binary64,
    spots: Seq<Binary64>,
    margins: Seq<Binary64>,
    continuation: Seq<Binary64>,
) -> Seq<RegressionDataPoint>
    decreases margins.len(),
{
    if margins.len() == 0 {
        Seq::empty()
    } else {
        let before = training_set(
            time,
            spots.drop_last(),
            margins.drop_last(),
            continuation.drop_last(),
        );
        if in_the_money(margins.last()) {
            before.push(
                RegressionDataPoint {
                    time,
                    asset_price: spots.last(),
                    continuation_value: continuation.last(),
                },
            )
        } else {
            before
        }
    }
}

/// The regression of a date has no observation exactly when no path is in the
/// money, and never more observations than there are paths.
pub proof fn lemma_training_set_empty(
    time: Binary64,
    spots: Seq<Binary64>,
    margins: Seq<Binary64>,
    continuation: Seq<Binary64>,
)
    ensures
        training_set(time, spots, margins, continuation).len() <= margins.len(),
        training_set(time, spots, margins, continuation).len() == 0 <==> !any_in_the_money(margins),
    decreases margins.len(),
{
    if margins.len() > 0 {
        let front = margins.drop_last();
        lemma_training_set_empty(time, spots.drop_last(), front, continuation.drop_last());
        if any_in_the_money(front) {
            let i = choose|i: int| 0 <= i < front.len() && in_the_money(#[trigger] front[i]);
            assert(in_the_money(margins[i]));
        }
        if any_in_the_money(margins) && !in_the_money(margins.last()) {
            let i = choose|i: int| 0 <= i < margins.len() && in_the_money(#[trigger] margins[i]);
            assert(in_the_money(front[i]));
        }
    }
}

/// Every observation of a date's regression comes from a path in the money:
/// it holds that path's spot price and continuation value.
pub proof fn lemma_training_set_sources(
    time: Binary64,
    spots: Seq<Binary64>,
    margins: Seq<Binary64>,
    continuation: Seq<Binary64>,
    k: int,
)
    requires
        spots.len() == margins.len(),
        continuation.len() == margins.len(),
        0 <= k < training_set(time, spots, margins, continuation).len(),
    ensures
        exists|i: int|
            0 <= i < margins.len() && in_the_money(#[trigger] margins[i]) && training_set(
                time,
                spots,
                margins,
                continuation,
            )[k] == (RegressionDataPoint {
                time,
                asset_price: spots[i],
                continuation_value: continuation[i],
            }),
    decreases margins.len(),
{
    let front = training_set(time, spots.drop_last(), margins.drop_last(), continuation.drop_last());
    if k < front.len() {
        lemma_training_set_sources(
            time,
            spots.drop_last(),
            margins.drop_last(),
            continuation.drop_last(),
            k,
        );
        let i = choose|i: int|
            0 <= i < margins.drop_last().len() && in_the_money(#[trigger] margins.drop_last()[i])
                && front[k] == (RegressionDataPoint {
                time,
                asset_price: spots.drop_last()[i],
                continuation_value: continuation.drop_last()[i],
            });
        assert(in_the_money(margins[i]));
    } else {
        let i = margins.len() - 1;
        assert(in_the_money(margins[i]));
    }
}

/// The number of paths in the money.
pub open spec fn in_the_money_count(margins: Seq<Binary64>) -> nat
    decreases margins.len(),
{
    if margins.len() == 0 {
        0
    } else if in_the_money(margins.last()) {
        in_the_money_count(margins.drop_last()) + 1
    } else {
        in_the_money_count(margins.drop_last())
    }
}

/// The predictions of a date, one for each path in the money in path order,
/// laid out over all paths: a path in the money gets the prediction at its
/// place among the paths in the money, any other path zero.
pub open spec fn spread(margins: Seq<Binary64>, predictions: Seq<Binary64>) -> Seq<Binary64> {
    Seq::new(
        margins.len(),
        |i: int|
            if in_the_money(margins[i]) {
                predictions[in_the_money_count(margins.take(i)) as int]
            } else {
                Binary64::spec_zero()
            },
    )
}

/// Among the first paths there are no more in the money than among all.
pub proof fn lemma_count_grows(margins: Seq<Binary64>, i: int)
    requires
        0 <= i <= margins.len(),
    ensures
        in_the_money_count(margins.take(i)) <= in_the_money_count(margins),
        i < margins.len() && in_the_money(margins[i]) ==> in_the_money_count(margins.take(i))
            < in_the_money_count(margins),
    decreases margins.len() - i,
{
    if i == margins.len() {
        assert(margins.take(i) =~= margins);
    } else {
        lemma_count_grows(margins, i + 1);
        assert(margins.take(i + 1).drop_last() =~= margins.take(i));
    }
}

/// The regression of a date has one observation for each path in the money,
/// and the observation of such a path stands at the path's place among the
/// paths in the money: it is there that the path's prediction is looked up.
pub proof fn lemma_training_set_rows(
    time: Binary64,
    spots: Seq<Binary64>,
    margins: Seq<Binary64>,
    continuation: Seq<Binary64>,
    i: int,
)
    requires
        spots.len() == margins.len(),
        continuation.len() == margins.len(),
        0 <= i < margins.len(),
        in_the_money(margins[i]),
    ensures
        training_set(time, spots, margins, continuation).len() == in_the_money_count(margins),
        in_the_money_count(margins.take(i)) < in_the_money_count(margins),
        training_set(time, spots, margins, continuation)[in_the_money_count(margins.take(i)) as int]
            == (RegressionDataPoint {
            time,
            asset_price: spots[i],
            continuation_value: continuation[i],
        }),
    decreases margins.len(),
{
    lemma_training_set_size(time, spots, margins, continuation);
    lemma_count_grows(margins, i);
    let last = margins.len() - 1;
    if i == last {
        assert(margins.take(i) =~= margins.drop_last());
        lemma_training_set_size(
            time,
            spots.drop_last(),
            margins.drop_last(),
            continuation.drop_last(),
        );
    } else {
        lemma_training_set_rows(
            time,
            spots.drop_last(),
            margins.drop_last(),
            continuation.drop_last(),
            i,
        );
        assert(margins.drop_last().take(i) =~= margins.take(i));
    }
}

/// The regression of a date has as many observations as paths are in the
/// money.
pub proof fn lemma_training_set_size(
    time: Binary64,
    spots: Seq<Binary64>,
    margins: Seq<Binary64>,
    continuation: Seq<Binary64>,
)
    ensures
        training_set(time, spots, margins, continuation).len() == in_the_money_count(margins),
    decreases margins.len(),
{
    if margins.len() > 0 {
        lemma_training_set_size(
            time,
            spots.drop_last(),
            margins.drop_last(),
            continuation.drop_last(),
        );
    }
}

/// Path `i` is among the entries of `order`.
pub open spec fn names(order: Seq<int>, i: int) -> bool {
    exists|k: int| 0 <= k < order.len() && #[trigger] order[k] == i
}

/// `order` names every path once: it is as long as there are paths, each of
/// its entries is a path, and every path is among its entries.
pub open spec fn is_reordering(order: Seq<int>, paths: nat) -> bool {
    &&& order.len() == paths
    &&& forall|k: int| 0 <= k < order.len() ==> 0 <= #[trigger] order[k] < paths
    &&& forall|i: int| 0 <= i < paths ==> #[trigger] names(order, i)
}

/// The per-path numbers `s` with the paths taken in the given order.
pub open spec fn reordered(s: Seq<Binary64>, order: Seq<int>) -> Seq<Binary64> {
    Seq::new(order.len(), |k: int| s[order[k]])
}

/// Deciding a date does not depend on the order of the paths: with the paths
/// taken in another order, every path still gets the value it would have got.
pub proof fn lemma_step_values_reordered(
    values: Seq<Binary64>,
    margins: Seq<Binary64>,
    discounted: Seq<Binary64>,
    predicted: Seq<Binary64>,
    order: Seq<int>,
)
    requires
        is_reordering(order, values.len()),
        margins.len() == values.len(),
        discounted.len() == values.len(),
        predicted.len() == values.len(),
    ensures
        step_values(
            reordered(values, order),
            reordered(margins, order),
            reordered(discounted, order),
            reordered(predicted, order),
        ) == reordered(step_values(values, margins, discounted, predicted), order),
{
    let moved = reordered(margins, order);
    if any_in_the_money(margins) {
        let i = choose|i: int| 0 <= i < margins.len() && in_the_money(#[trigger] margins[i]);
        assert(names(order, i));
        let k = choose|k: int| 0 <= k < order.len() && #[trigger] order[k] == i;
        assert(in_the_money(moved[k]));
    }
    if any_in_the_money(moved) {
        let k = choose|k: int| 0 <= k < moved.len() && in_the_money(#[trigger] moved[k]);
        assert(in_the_money(margins[order[k]]));
    }
    assert(step_values(
        reordered(values, order),
        moved,
        reordered(discounted, order),
        reordered(predicted, order),
    ) =~= reordered(step_values(values, margins, discounted, predicted), order));
}

/// What exercise pays at the end of the paths, and the spot prices read off
/// the paths at a step, do not depend on the order of the paths either.
pub proof fn lemma_path_content_reordered(
    paths: Seq<Seq<Sample>>,
    margins: Seq<Binary64>,
    order: Seq<int>,
    step: int,
)
    requires
        is_reordering(order, paths.len()),
        margins.len() == paths.len(),
    ensures
        terminal_values(reordered(margins, order)) == reordered(terminal_values(margins), order),
        spots_of(Seq::new(order.len(), |k: int| paths[order[k]]), step) == reordered(
            spots_of(paths, step),
            order,
        ),
{
    assert(terminal_values(reordered(margins, order)) =~= reordered(
        terminal_values(margins),
        order,
    ));
    assert(spots_of(Seq::new(order.len(), |k: int| paths[order[k]]), step) =~= reordered(
        spots_of(paths, step),
        order,
    ));
}

/// What the engine asks of the caller at a date.
pub enum StepPlan {
    /// No path is in the money: there is nothing to fit.
    Carry,
    /// Fit the regression on these observations, which are not empty.
    Fit(Vec<RegressionDataPoint>),
}

/// Whether some path is in the money.
pub fn has_in_the_money(margins: &Vec<Binary64>) -> (found: bool)
    ensures
        found == any_in_the_money(margins@),
{
    let mut i: usize = 0;
    while i < margins.len()
        invariant
            i <= margins@.len(),
            forall|j: int| 0 <= j < i ==> !in_the_money(#[trigger] margins@[j]),
        decreases margins@.len() - i,
    {
        if is_in_the_money(margins[i]) {
            return true;
        }
        i = i + 1;
    }
    false
}

/// The number of paths in the money.
pub fn count_in_the_money(margins: &Vec<Binary64>) -> (count: usize)
    ensures
        count == in_the_money_count(margins@),
        (count > 0) == any_in_the_money(margins@),
{
    let n = margins.len();
    let mut count: usize = 0;
    let mut i: usize = 0;
    while i < n
        invariant
            i <= n,
            n == margins@.len(),
            count <= i,
            count == in_the_money_count(margins@.take(i as int)),
        decreases n - i,
    {
        proof {
            assert(margins@.take(i + 1).drop_last() =~= margins@.take(i as int));
        }
        if is_in_the_money(margins[i]) {
            count = count + 1;
        }
        i = i + 1;
    }
    proof {
        assert(margins@.take(i as int) =~= margins@);
        lemma_training_set_size(Binary64::spec_zero(), margins@, margins@, margins@);
        lemma_training_set_empty(Binary64::spec_zero(), margins@, margins@, margins@);
    }
    count
}

/// The observations of a date's regression; see [`training_set`].
pub fn collect_training_set(
    time: Binary64,
    spots: &Vec<Binary64>,
    margins: &Vec<Binary64>,
    continuation: &Vec<Binary64>,
) -> (data: Vec<RegressionDataPoint>)
    requires
        spots@.len() == margins@.len(),
        continuation@.len() == margins@.len(),
    ensures
        data@ == training_set(time, spots@, margins@, continuation@),
        data@.len() == in_the_money_count(margins@),
{
    proof {
        lemma_training_set_size(time, spots@, margins@, continuation@);
    }
    let mut data: Vec<RegressionDataPoint> = Vec::new();
    let mut i: usize = 0;
    while i < margins.len()
        invariant
            i <= margins@.len(),
            spots@.len() == margins@.len(),
            continuation@.len() == margins@.len(),
            data@ == training_set(
                time,
                spots@.take(i as int),
                margins@.take(i as int),
                continuation@.take(i as int),
            ),
        decreases margins@.len() - i,
    {
        proof {
            let next = i + 1;
            assert(spots@.take(next).drop_last() =~= spots@.take(i as int));
            assert(margins@.take(next).drop_last() =~= margins@.take(i as int));
            assert(continuation@.take(next).drop_last() =~= continuation@.take(i as int));
        }
        if is_in_the_money(margins[i]) {
            data.push(
                RegressionDataPoint {
                    time,
                    asset_price: spots[i],
                    continuation_value: continuation[i],
                },
            );
        }
        i = i + 1;
    }
    proof {
        assert(spots@.take(i as int) =~= spots@);
        assert(margins@.take(i as int) =~= margins@);
        assert(continuation@.take(i as int) =~= continuation@);
    }
    data
}

/// Whether the option on a path is exercised; see [`exercises`].
#[verifier::when_used_as_spec(exercises)]
pub fn should_exercise(margin: Binary64, predicted: Binary64) -> (exercise: bool)
    ensures
        exercise == exercises(margin, predicted),
{
    is_in_the_money(margin) && exercise_value(margin).ge(predicted)
}

/// The value of a path after a date; see [`settled`].
#[verifier::when_used_as_spec(settled)]
pub fn settle(margin: Binary64, discounted: Binary64, predicted: Binary64) -> (value: Binary64)
    ensures
        value == settled(margin, discounted, predicted),
{
    if should_exercise(margin, predicted) {
        exercise_value(margin)
    } else {
        discounted
    }
}

/// The values of all paths after a date; see [`step_values`].
pub fn settle_all(
    values: Vec<Binary64>,
    margins: &Vec<Binary64>,
    discounted: &Vec<Binary64>,
    predicted: &Vec<Binary64>,
) -> (next: Vec<Binary64>)
    requires
        margins@.len() == values@.len(),
        discounted@.len() == values@.len(),
        predicted@.len() == values@.len(),
    ensures
        next@ == step_values(values@, margins@, discounted@, predicted@),
        !any_in_the_money(margins@) ==> next@ == values@,
{
    if !has_in_the_money(margins) {
        return values;
    }
    let n = values.len();
    let mut next: Vec<Binary64> = Vec::new();
    let mut i: usize = 0;
    while i < n
        invariant
            i <= n,
            n == values@.len(),
            margins@.len() == n,
            discounted@.len() == n,
            predicted@.len() == n,
            next@.len() == i,
            forall|j: int|
                0 <= j < i ==> #[trigger] next@[j] == settled(
                    margins@[j],
                    discounted@[j],
                    predicted@[j],
                ),
        decreases n - i,
    {
        next.push(settle(margins[i], discounted[i], predicted[i]));
        i = i + 1;
    }
    assert(next@ =~= step_values(values@, margins@, discounted@, predicted@));
    next
}

/// Lays the predictions of the paths in the money out over all paths; see
/// [`spread`].
pub fn spread_predictions(margins: &Vec<Binary64>, predictions: &Vec<Binary64>) -> (predicted: Vec<
    Binary64,
>)
    requires
        predictions@.len() == in_the_money_count(margins@),
    ensures
        predicted@ == spread(margins@, predictions@),
{
    let n = margins.len();
    let available = predictions.len();
    let mut predicted: Vec<Binary64> = Vec::new();
    let mut i: usize = 0;
    let mut k: usize = 0;
    while i < n
        invariant
            i <= n,
            n == margins@.len(),
            available == predictions@.len(),
            predictions@.len() == in_the_money_count(margins@),
            k == in_the_money_count(margins@.take(i as int)),
            predicted@.len() == i,
            forall|j: int| 0 <= j < i ==> #[trigger] predicted@[j] == spread(margins@, predictions@)[j],
        decreases n - i,
    {
        proof {
            lemma_count_grows(margins@, i as int);
            assert(margins@.take(i + 1).drop_last() =~= margins@.take(i as int));
        }
        if is_in_the_money(margins[i]) {
            predicted.push(predictions[k]);
            k = k + 1;
        } else {
            predicted.push(Binary64::zero());
        }
        i = i + 1;
    }
    assert(predicted@ =~= spread(margins@, predictions@));
    predicted
}

/// What exercise pays on every path at the end of the paths.
pub open spec fn terminal_values(margins: Seq<Binary64>) -> Seq<Binary64> {
    Seq::new(margins.len(), |i: int| spec_exercise_value(margins[i]))
}

/// What exercise pays on every path; see [`terminal_values`].
pub fn exercise_values(margins: &Vec<Binary64>) -> (values: Vec<Binary64>)
    ensures
        values@ == terminal_values(margins@),
{
    let n = margins.len();
    let mut values: Vec<Binary64> = Vec::new();
    let mut i: usize = 0;
    while i < n
        invariant
            i <= n,
            n == margins@.len(),
            values@.len() == i,
            forall|j: int| 0 <= j < i ==> #[trigger] values@[j] == spec_exercise_value(margins@[j]),
        decreases n - i,
    {
        values.push(exercise_value(margins[i]));
        i = i + 1;
    }
    assert(values@ =~= terminal_values(margins@));
    values
}

/// The state of a backward induction.
pub ghost struct InductionState {
    /// The simulated paths.
    pub paths: Seq<Seq<Sample>>,
    /// For every path, the value of keeping the option from the date after
    /// `step` on.
    pub values: Seq<Binary64>,
    /// The exercise date to decide next, as a number of steps from the start;
    /// zero when every date has been decided.
    pub step: nat,
}

impl InductionState {
    /// Every exercise date has been decided.
    pub open spec fn finished(self) -> bool {
        self.step == 0
    }

    /// The spot price of every path at the date to decide next.
    pub open spec fn spots(self) -> Seq<Binary64> {
        spots_of(self.paths, self.step as int)
    }

    /// The state after the date has been decided on the given margins of
    /// exercise, discounted values and predicted continuation values: the
    /// induction moves one date towards the start.
    pub open spec fn after_date(
        self,
        margins: Seq<Binary64>,
        discounted: Seq<Binary64>,
        predicted: Seq<Binary64>,
    ) -> InductionState {
        InductionState {
            paths: self.paths,
            values: step_values(self.values, margins, discounted, predicted),
            step: (self.step - 1) as nat,
        }
    }
}

/// A backward induction over a set of simulated paths.
pub struct BackwardInduction {
    paths: PathSet,
    values: Vec<Binary64>,
    step: usize,
}

impl View for BackwardInduction {
    type V = InductionState;

    closed spec fn view(&self) -> InductionState {
        InductionState { paths: self.paths@, values: self.values@, step: self.step as nat }
    }
}

impl BackwardInduction {
    #[verifier::type_invariant]
    spec fn wf(self) -> bool {
        &&& self.values@.len() == self.paths@.len()
        &&& self.step < self.paths.steps()
    }

    /// Starts the induction at the end of the paths: every path is worth what
    /// exercise pays there, and the date to decide first is the last but
    /// one.
    pub fn start(paths: PathSet, terminal_margins: &Vec<Binary64>) -> (engine: BackwardInduction)
        requires
            terminal_margins@.len() == paths@.len(),
        ensures
            engine@ == (InductionState {
                paths: paths@,
                values: terminal_values(terminal_margins@),
                step: (paths.steps() - 1) as nat,
            }),
    {
        let values = exercise_values(terminal_margins);
        let step = paths.num_steps() - 1;
        BackwardInduction { paths, values, step }
    }

    /// The exercise date to decide next; `None` when every date has been
    /// decided.
    pub fn pending_step(&self) -> (res: Option<usize>)
        ensures
            match res {
                Some(step) => step >= 1 && step == self@.step,
                None => self@.finished(),
            },
    {
        if self.step >= 1 {
            Some(self.step)
        } else {
            None
        }
    }

    /// The number of paths.
    pub fn num_paths(&self) -> (n: usize)
        ensures
            n == self@.values.len(),
            n == self@.paths.len(),
    {
        proof {
            use_type_invariant(self);
        }
        self.values.len()
    }

    /// The value of every path, in path order.
    pub fn values(&self) -> (values: &Vec<Binary64>)
        ensures
            values@ == self@.values,
            values@.len() == self@.paths.len(),
    {
        proof {
            use_type_invariant(self);
        }
        &self.values
    }

    /// The spot price of every path at the date to decide next.
    pub fn spots(&self) -> (spots: Vec<Binary64>)
        ensures
            spots@ == self@.spots(),
            spots@.len() == self@.values.len(),
    {
        proof {
            use_type_invariant(self);
        }
        match self.paths.spots_at(self.step) {
            Some(spots) => spots,
            None => {
                assert(false);
                Vec::new()
            },
        }
    }

    /// What to do at the date to decide next: nothing while no path is in the
    /// money, and otherwise a fit on the paths in the money, each with its
    /// spot price at the date and its continuation value.
    pub fn plan(&self, time: Binary64, margins: &Vec<Binary64>, continuation: &Vec<Binary64>) -> (plan:
        StepPlan)
        requires
            margins@.len() == self@.values.len(),
            continuation@.len() == self@.values.len(),
        ensures
            match plan {
                StepPlan::Carry => !any_in_the_money(margins@),
                StepPlan::Fit(data) => {
                    &&& any_in_the_money(margins@)
                    &&& data@.len() > 0
                    &&& data@.len() == in_the_money_count(margins@)
                    &&& data@ == training_set(time, self@.spots(), margins@, continuation@)
                },
            },
    {
        let spots = self.spots();
        let data = collect_training_set(time, &spots, margins, continuation);
        proof {
            lemma_training_set_empty(time, spots@, margins@, continuation@);
            lemma_training_set_size(time, spots@, margins@, continuation@);
        }
        if data.len() == 0 {
            StepPlan::Carry
        } else {
            StepPlan::Fit(data)
        }
    }

    /// Decides the date on the margins of exercise and the discounted value
    /// of every path, and on the predicted continuation value of every path
    /// in the money, in path order: see [`InductionState::after_date`],
    /// [`step_values`] and [`spread`]. A finished induction is returned as
    /// it is.
    pub fn advance(
        self,
        margins: &Vec<Binary64>,
        discounted: &Vec<Binary64>,
        predictions: &Vec<Binary64>,
    ) -> (next: BackwardInduction)
        requires
            margins@.len() == self@.values.len(),
            discounted@.len() == self@.values.len(),
            predictions@.len() == in_the_money_count(margins@),
        ensures
            self@.finished() ==> next@ == self@,
            !self@.finished() ==> next@ == self@.after_date(
                margins@,
                discounted@,
                spread(margins@, predictions@),
            ),
            !self@.finished() && !any_in_the_money(margins@) ==> next@.values == self@.values,
    {
        proof {
            use_type_invariant(&self);
        }
        if self.step == 0 {
            return self;
        }
        let predicted = spread_predictions(margins, predictions);
        let BackwardInduction { paths, values, step } = self;
        let values = settle_all(values, margins, discounted, &predicted);
        BackwardInduction { paths, values, step: step - 1 }
    }

    /// Passes over a date at which no path is in the money: the values stay
    /// as they are and the induction moves one date towards the start. Where
    /// some path is in the money, or the induction is finished, it is
    /// returned as it is.
    pub fn carry(self, margins: &Vec<Binary64>) -> (next: BackwardInduction)
        ensures
            self@.finished() || any_in_the_money(margins@) ==> next@ == self@,
            !self@.finished() && !any_in_the_money(margins@) ==> next@ == (InductionState {
                step: (self@.step - 1) as nat,
                ..self@
            }),
    {
        proof {
            use_type_invariant(&self);
        }
        if self.step == 0 || has_in_the_money(margins) {
            return self;
        }
        let BackwardInduction { paths, values, step } = self;
        BackwardInduction { paths, values, step: step - 1 }
    }

    /// Ends the induction and hands out the value of every path.
    pub fn into_values(self) -> (values: Vec<Binary64>)
        ensures
            values@ == self@.values,
    {
        self.values
    }
}

} // verus!
