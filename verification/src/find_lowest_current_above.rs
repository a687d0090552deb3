//! The search for the lowest charge current limit under which the battery
//! still charges with at least a given current.
//!
//! Each search is a state machine: it names the limit to try next, is told
//! the current that the battery drew under it, and either goes on or ends.
//! Setting the limit, waiting and reading the battery are left to the caller.

use vstd::prelude::*;

verus! {

/// How much the first jump over the minimum current is; each further jump
/// doubles.
pub const JUMP: u32 = 50;

/// How many battery readings a trial of one limit takes.
pub const CHECKS: u32 = 8;

/// Setting the charge current limit below this can drain the battery
/// instead of charging it.
pub const MIN_CURRENT: u32 = 150;

/// The search between two limits ends early when they are at most this far
/// apart.
pub const MAX_RANGE: u32 = 10;

#[derive(Debug, Clone, Copy, PartialEq, Eq, Structural)]
pub struct ExperimentalLimitedCurrent {
    pub charge_current_limit: u32,
    pub experimental_current: u32,
}

#[derive(Debug, Clone, Copy, PartialEq, Eq, Structural)]
pub struct Output {
    pub current_above: u32,
    /// If the first attempt succeeds, this will be equal to the input
    pub last_failed_attempt: ExperimentalLimitedCurrent,
}

/// A reading of the battery current as a non-negative current.
pub open spec fn clamp_reading(measured: i32) -> u32 {
    if measured < 0 {
        0
    } else {
        measured as u32
    }
}

/// `measured.max(0) as u32`.
pub fn clamp_current(measured: i32) -> (c: u32)
    ensures
        c == clamp_reading(measured),
{
    if measured < 0 {
        0
    } else {
        measured as u32
    }
}

/// `2` to the power `n`.
pub open spec fn two_to_the(n: nat) -> nat
    decreases n,
{
    if n == 0 {
        1
    } else {
        2 * two_to_the((n - 1) as nat)
    }
}

/// Powers of two grow with the exponent.
pub proof fn lemma_two_to_the_grows(a: nat, b: nat)
    requires
        a <= b,
    ensures
        1 <= two_to_the(a) <= two_to_the(b),
    decreases b,
{
    if b > a {
        lemma_two_to_the_grows(a, (b - 1) as nat);
    } else if a > 0 {
        lemma_two_to_the_grows((a - 1) as nat, (a - 1) as nat);
    }
}

/// The limit tried at attempt `n` of the search above `min_current`: the
/// jumps over `min_current` are `0, JUMP, 3 * JUMP, 7 * JUMP, ...`.
pub open spec fn attempt_value(min_current: u32, n: nat) -> int {
    min_current + JUMP * (two_to_the(n) - 1)
}

/// The attempts of a search grow strictly, and the first is the minimum
/// current itself.
pub proof fn lemma_attempts_grow(min_current: u32, n: nat)
    ensures
        attempt_value(min_current, 0) == min_current,
        attempt_value(min_current, n) >= min_current,
        attempt_value(min_current, n) < attempt_value(min_current, n + 1),
{
    lemma_two_to_the_grows(0, n);
    assert(two_to_the(n + 1) == 2 * two_to_the(n));
}

/// An attempt that fits in a `u32` has a small number.
proof fn lemma_fitting_attempt_is_early(min_current: u32, n: nat)
    requires
        attempt_value(min_current, n) <= u32::MAX,
    ensures
        n < 32,
{
    if n >= 32 {
        lemma_two_to_the_grows(32, n);
        assert(two_to_the(32) == 0x1_0000_0000) by {
            reveal_with_fuel(two_to_the, 33);
        }
    }
}

/// The limit tried at attempt `attempt_number`, or `None` where computing it
/// overflows a `u32`.
pub fn attempt_limit(min_current: u32, attempt_number: u32) -> (r: Option<u32>)
    ensures
        match r {
            Some(v) => v == attempt_value(min_current, attempt_number as nat),
            None => attempt_value(min_current, attempt_number as nat) > u32::MAX,
        },
{
    let mut p: u32 = 1;
    let mut k: u32 = 0;
    while k < attempt_number
        invariant
            k <= attempt_number,
            p == two_to_the(k as nat),
        decreases attempt_number - k,
    {
        match p.checked_mul(2) {
            Some(q) => {
                p = q;
                k = k + 1;
            },
            None => {
                proof {
                    lemma_two_to_the_grows((k + 1) as nat, attempt_number as nat);
                }
                return None;
            },
        }
    }
    proof {
        lemma_two_to_the_grows(0, attempt_number as nat);
    }
    match (p - 1).checked_mul(JUMP) {
        Some(m) => min_current.checked_add(m),
        None => None,
    }
}

/// The lowest battery current seen while one limit is tried.
pub struct TryCurrent {
    min_current: i32,
    checks: u32,
}

impl TryCurrent {
    /// The lowest current seen so far.
    pub closed spec fn lowest(&self) -> i32 {
        self.min_current
    }

    /// How many readings were taken.
    pub closed spec fn checks_done(&self) -> nat {
        self.checks as nat
    }

    /// Starts the trial of the limit `current`; the lowest current starts at
    /// the limit itself.
    pub fn new(current: u32) -> (t: Self)
        ensures
            t.lowest() == current as i32,
            t.checks_done() == 0,
    {
        TryCurrent { min_current: current as i32, checks: 0 }
    }

    /// Are readings still to be taken?
    pub fn needs_check(&self) -> (b: bool)
        ensures
            b == (self.checks_done() < CHECKS),
    {
        self.checks < CHECKS
    }

    /// Takes one reading of the battery current.
    pub fn record(&mut self, present_current: u32)
        requires
            old(self).checks_done() < CHECKS,
        ensures
            final(self).checks_done() == old(self).checks_done() + 1,
            final(self).lowest() <= old(self).lowest(),
            final(self).lowest() <= present_current as i32,
            final(self).lowest() == if (present_current as i32) < old(self).lowest() {
                present_current as i32
            } else {
                old(self).lowest()
            },
    {
        let reading = present_current as i32;
        if reading < self.min_current {
            self.min_current = reading;
        }
        self.checks = self.checks + 1;
    }

    /// The lowest current seen.
    pub fn lowest_current(&self) -> (c: i32)
        ensures
            c == self.lowest(),
    {
        self.min_current
    }
}

/// The state of the search for a limit under which the battery draws at
/// least `min_current`.
pub struct FindCurrentAboveView {
    pub min_current: u32,
    pub attempt_number: nat,
    pub highest_failed_attempt: ExperimentalLimitedCurrent,
}

/// What every state of the search above holds: before the first failure the
/// failed attempt is the minimum current itself with no current; after it,
/// the failed attempt is the previous limit and the highest current seen,
/// which is below the minimum current.
pub open spec fn above_search_wf(v: FindCurrentAboveView) -> bool {
    &&& v.attempt_number == 0 ==> v.highest_failed_attempt == ExperimentalLimitedCurrent {
        charge_current_limit: v.min_current,
        experimental_current: 0,
    }
    &&& v.attempt_number > 0 ==> {
        &&& v.highest_failed_attempt.charge_current_limit == attempt_value(
            v.min_current,
            (v.attempt_number - 1) as nat,
        )
        &&& v.highest_failed_attempt.experimental_current < v.min_current
    }
}

/// The search above at its start.
pub open spec fn above_search_start(min_current: u32) -> FindCurrentAboveView {
    FindCurrentAboveView {
        min_current,
        attempt_number: 0,
        highest_failed_attempt: ExperimentalLimitedCurrent {
            charge_current_limit: min_current,
            experimental_current: 0,
        },
    }
}

/// What the search above does with the current measured under its attempt.
pub enum AboveStepView {
    Continue(FindCurrentAboveView),
    Found(Output),
}

/// One step of the search above: the measured current ends it where it
/// reaches the minimum current; else the attempt is recorded as failed and
/// the next attempt jumps higher.
pub open spec fn above_step(v: FindCurrentAboveView, measured: i32) -> AboveStepView {
    let current = clamp_reading(measured);
    if current >= v.min_current {
        AboveStepView::Found(
            Output { current_above: current, last_failed_attempt: v.highest_failed_attempt },
        )
    } else {
        AboveStepView::Continue(
            FindCurrentAboveView {
                min_current: v.min_current,
                attempt_number: v.attempt_number + 1,
                highest_failed_attempt: ExperimentalLimitedCurrent {
                    charge_current_limit: attempt_value(v.min_current, v.attempt_number) as u32,
                    experimental_current: if v.highest_failed_attempt.experimental_current
                        >= current {
                        v.highest_failed_attempt.experimental_current
                    } else {
                        current
                    },
                },
            },
        )
    }
}

/// The search for a limit under which the battery draws at least a given
/// current: it tries the limits `attempt_value(min_current, 0, 1, ...)`.
pub struct FindCurrentAbove {
    min_current: u32,
    attempt_number: u32,
    highest_failed_attempt: ExperimentalLimitedCurrent,
}

impl View for FindCurrentAbove {
    type V = FindCurrentAboveView;

    closed spec fn view(&self) -> FindCurrentAboveView {
        FindCurrentAboveView {
            min_current: self.min_current,
            attempt_number: self.attempt_number as nat,
            highest_failed_attempt: self.highest_failed_attempt,
        }
    }
}

/// What the search above returns for one measurement.
pub enum AboveStep {
    Continue(FindCurrentAbove),
    Found(Output),
}

impl View for AboveStep {
    type V = AboveStepView;

    open spec fn view(&self) -> AboveStepView {
        match self {
            AboveStep::Continue(s) => AboveStepView::Continue(s@),
            AboveStep::Found(o) => AboveStepView::Found(*o),
        }
    }
}

impl FindCurrentAbove {
    #[verifier::type_invariant]
    spec fn wf(self) -> bool {
        above_search_wf(self@)
    }

    /// Starts the search for a limit under which the battery draws at least
    /// `min_current`.
    pub fn new(min_current: u32) -> (s: Self)
        ensures
            s@ == above_search_start(min_current),
            above_search_wf(s@),
    {
        FindCurrentAbove {
            min_current,
            attempt_number: 0,
            highest_failed_attempt: ExperimentalLimitedCurrent {
                charge_current_limit: min_current,
                experimental_current: 0,
            },
        }
    }

    /// The limit to try now, or `None` where computing it overflows.
    pub fn attempt(&self) -> (r: Option<u32>)
        ensures
            match r {
                Some(v) => v == attempt_value(self@.min_current, self@.attempt_number),
                None => attempt_value(self@.min_current, self@.attempt_number) > u32::MAX,
            },
    {
        attempt_limit(self.min_current, self.attempt_number)
    }

    /// Takes the current measured under the limit `attempt()`. A current at
    /// or above the minimum current ends the search; its result is never
    /// below the minimum current, and where the first attempt succeeds it
    /// names the minimum current as the failed attempt.
    pub fn observe(self, measured: i32) -> (r: AboveStep)
        requires
            attempt_value(self@.min_current, self@.attempt_number) <= u32::MAX,
        ensures
            r@ == above_step(self@, measured),
            r matches AboveStep::Continue(next) ==> above_search_wf(next@),
            r matches AboveStep::Found(out) ==> out.current_above >= self@.min_current,
            self@.attempt_number == 0 ==> (r matches AboveStep::Found(out)
                ==> out.last_failed_attempt.charge_current_limit == self@.min_current),
            (r is Found) == (clamp_reading(measured) >= self@.min_current),
            r matches AboveStep::Found(out) ==> out.current_above == clamp_reading(measured)
                && out.last_failed_attempt == self@.highest_failed_attempt,
            r matches AboveStep::Continue(next) ==> {
                &&& next@.min_current == self@.min_current
                &&& next@.attempt_number == self@.attempt_number + 1
                &&& next@.highest_failed_attempt.charge_current_limit == attempt_value(
                    self@.min_current,
                    self@.attempt_number,
                )
                &&& next@.highest_failed_attempt.experimental_current
                    >= self@.highest_failed_attempt.experimental_current
                &&& next@.highest_failed_attempt.experimental_current >= clamp_reading(measured)
                &&& (next@.highest_failed_attempt.experimental_current
                    == self@.highest_failed_attempt.experimental_current
                    || next@.highest_failed_attempt.experimental_current == clamp_reading(
                    measured,
                ))
            },
    {
        proof {
            use_type_invariant(&self);
            lemma_fitting_attempt_is_early(self.min_current, self.attempt_number as nat);
            lemma_attempts_grow(self.min_current, self.attempt_number as nat);
        }
        let current = clamp_current(measured);
        if current >= self.min_current {
            AboveStep::Found(
                Output { current_above: current, last_failed_attempt: self.highest_failed_attempt },
            )
        } else {
            let attempt = match attempt_limit(self.min_current, self.attempt_number) {
                Some(a) => a,
                None => {
                    return AboveStep::Continue(self);
                },
            };
            let highest = if self.highest_failed_attempt.experimental_current >= current {
                self.highest_failed_attempt.experimental_current
            } else {
                current
            };
            let next = FindCurrentAbove {
                min_current: self.min_current,
                attempt_number: self.attempt_number + 1,
                highest_failed_attempt: ExperimentalLimitedCurrent {
                    charge_current_limit: attempt,
                    experimental_current: highest,
                },
            };
            AboveStep::Continue(next)
        }
    }
}

/// The search between a failed limit `min` and a current `max` that was
/// reached, for the lowest limit that still reaches its lower end.
#[derive(Debug, Clone, Copy, PartialEq, Eq, Structural)]
pub struct FindLowestCurrentBetween {
    pub min: u32,
    pub max: u32,
    pub max_range: u32,
}

/// What the search between returns for one measurement.
#[derive(Debug, Clone, Copy, PartialEq, Eq, Structural)]
pub enum BetweenStep {
    Continue(FindLowestCurrentBetween),
    Found(ExperimentalLimitedCurrent),
}

/// The limit that the search between tries: the middle of its range.
pub open spec fn between_value(s: FindLowestCurrentBetween) -> int {
    (s.min + s.max) / 2
}

/// One step of the search between: a current below the lower end moves the
/// lower end up to the middle; a current equal to it ends the search; a
/// current below the middle becomes the upper end; any other current
/// becomes the upper end and the middle the lower end.
pub open spec fn between_step(s: FindLowestCurrentBetween, measured: i32) -> BetweenStep {
    let between = between_value(s) as u32;
    let current = clamp_reading(measured);
    if current < s.min {
        BetweenStep::Continue(FindLowestCurrentBetween { min: between, max: s.max, max_range: s.max_range })
    } else if current == s.min {
        BetweenStep::Found(
            ExperimentalLimitedCurrent { charge_current_limit: between, experimental_current: current },
        )
    } else if current < between {
        BetweenStep::Continue(FindLowestCurrentBetween { min: s.min, max: current, max_range: s.max_range })
    } else {
        BetweenStep::Continue(FindLowestCurrentBetween { min: between, max: current, max_range: s.max_range })
    }
}

impl FindLowestCurrentBetween {
    /// Starts the search between the limits `min` and `max`.
    pub fn new(min: u32, max: u32, max_range: u32) -> (s: Self)
        ensures
            s == (FindLowestCurrentBetween { min, max, max_range }),
    {
        FindLowestCurrentBetween { min, max, max_range }
    }

    /// The limit to try now, or `None` where `min + max` overflows.
    pub fn between(&self) -> (r: Option<u32>)
        ensures
            match r {
                Some(v) => self.min + self.max <= u32::MAX && v == between_value(*self),
                None => self.min + self.max > u32::MAX,
            },
    {
        match self.min.checked_add(self.max) {
            Some(sum) => Some(sum / 2),
            None => None,
        }
    }

    /// Takes the current measured under the limit `between()`. Where the
    /// range is ordered, it stays ordered and its lower end never falls, and
    /// a found current is the lower end.
    pub fn observe(self, measured: i32) -> (r: BetweenStep)
        requires
            self.min + self.max <= u32::MAX,
        ensures
            r == between_step(self, measured),
            self.min <= self.max ==> (r matches BetweenStep::Continue(next) ==> self.min
                <= next.min <= next.max),
            r matches BetweenStep::Found(found) ==> found.experimental_current == self.min,
            r matches BetweenStep::Found(found) ==> clamp_reading(measured) == self.min
                && found.experimental_current == clamp_reading(measured)
                && found.charge_current_limit == (self.min + self.max) / 2,
            clamp_reading(measured) < self.min ==> r == BetweenStep::Continue(
                FindLowestCurrentBetween {
                    min: ((self.min + self.max) / 2) as u32,
                    max: self.max,
                    max_range: self.max_range,
                },
            ),
            clamp_reading(measured) == self.min ==> r == BetweenStep::Found(
                ExperimentalLimitedCurrent {
                    charge_current_limit: ((self.min + self.max) / 2) as u32,
                    experimental_current: self.min,
                },
            ),
            self.min < clamp_reading(measured) < (self.min + self.max) / 2 ==> r
                == BetweenStep::Continue(
                FindLowestCurrentBetween {
                    min: self.min,
                    max: clamp_reading(measured),
                    max_range: self.max_range,
                },
            ),
            self.min < clamp_reading(measured) && (self.min + self.max) / 2 <= clamp_reading(
                measured,
            ) ==> r == BetweenStep::Continue(
                FindLowestCurrentBetween {
                    min: ((self.min + self.max) / 2) as u32,
                    max: clamp_reading(measured),
                    max_range: self.max_range,
                },
            ),
    {
        let between = (self.min + self.max) / 2;
        let current = clamp_current(measured);
        if current < self.min {
            BetweenStep::Continue(
                FindLowestCurrentBetween { min: between, max: self.max, max_range: self.max_range },
            )
        } else if current == self.min {
            BetweenStep::Found(
                ExperimentalLimitedCurrent {
                    charge_current_limit: between,
                    experimental_current: current,
                },
            )
        } else if current < between {
            BetweenStep::Continue(
                FindLowestCurrentBetween { min: self.min, max: current, max_range: self.max_range },
            )
        } else {
            BetweenStep::Continue(
                FindLowestCurrentBetween { min: between, max: current, max_range: self.max_range },
            )
        }
    }
}

/// What follows the search above.
#[derive(Debug, Clone, Copy, PartialEq, Eq, Structural)]
pub enum AfterAbove {
    /// The current found above is the answer.
    Lowest(u32),
    /// The range between the last failed limit and the current found is
    /// wider than `MAX_RANGE` and is searched.
    Narrow(FindLowestCurrentBetween),
}

/// What follows the search above, given its result.
pub open spec fn after_above_spec(output: Output) -> AfterAbove {
    let limit = output.last_failed_attempt.charge_current_limit;
    if output.current_above - limit > MAX_RANGE {
        AfterAbove::Narrow(
            FindLowestCurrentBetween {
                min: limit,
                max: output.current_above,
                max_range: MAX_RANGE,
            },
        )
    } else {
        AfterAbove::Lowest(output.current_above)
    }
}

/// Decides what follows the search above. The difference between the
/// current found and the last failed limit must not be negative (it is
/// computed in `u32`).
pub fn after_current_above(output: &Output) -> (r: AfterAbove)
    requires
        output.current_above >= output.last_failed_attempt.charge_current_limit,
    ensures
        r == after_above_spec(*output),
{
    let limit = output.last_failed_attempt.charge_current_limit;
    if output.current_above - limit > MAX_RANGE {
        AfterAbove::Narrow(FindLowestCurrentBetween::new(limit, output.current_above, MAX_RANGE))
    } else {
        AfterAbove::Lowest(output.current_above)
    }
}

/// The phase of the whole search.
pub enum SearchPhaseView {
    Above(FindCurrentAboveView),
    Between(FindLowestCurrentBetween),
}

/// The state of the search for the lowest current above a floor.
pub struct LowestSearchView {
    pub floor: u32,
    pub phase: SearchPhaseView,
}

/// What every state of the whole search holds: the search above looks for
/// the floor itself, and the range searched between starts at or above the
/// floor and is ordered.
pub open spec fn lowest_search_wf(v: LowestSearchView) -> bool {
    match v.phase {
        SearchPhaseView::Above(a) => a.min_current == v.floor && above_search_wf(a),
        SearchPhaseView::Between(b) => v.floor <= b.min <= b.max,
    }
}

/// The floor of a search for `min_current`: never below `MIN_CURRENT`.
pub open spec fn floor_of(min_current: u32) -> u32 {
    if min_current >= MIN_CURRENT {
        min_current
    } else {
        MIN_CURRENT
    }
}

/// The whole search at its start: the search above its floor.
pub open spec fn lowest_search_start(min_current: u32) -> LowestSearchView {
    LowestSearchView {
        floor: floor_of(min_current),
        phase: SearchPhaseView::Above(above_search_start(floor_of(min_current))),
    }
}

/// Can the limit to try now be computed in `u32`?
pub open spec fn next_limit_defined(v: LowestSearchView) -> bool {
    match v.phase {
        SearchPhaseView::Above(a) => attempt_value(a.min_current, a.attempt_number) <= u32::MAX,
        SearchPhaseView::Between(b) => b.min + b.max <= u32::MAX,
    }
}

/// The limit to try now.
pub open spec fn next_limit_value(v: LowestSearchView) -> int {
    match v.phase {
        SearchPhaseView::Above(a) => attempt_value(a.min_current, a.attempt_number),
        SearchPhaseView::Between(b) => between_value(b),
    }
}

/// Can a step with the current `measured` be computed in `u32`? Beside the
/// limit, a search above that ends must end at a current no lower than its
/// last failed limit, whose difference is taken.
pub open spec fn observe_defined(v: LowestSearchView, measured: i32) -> bool {
    &&& next_limit_defined(v)
    &&& match v.phase {
        SearchPhaseView::Above(a) => clamp_reading(measured) >= a.min_current ==> clamp_reading(
            measured,
        ) >= a.highest_failed_attempt.charge_current_limit,
        SearchPhaseView::Between(_) => true,
    }
}

/// What the whole search does with one measurement.
pub enum LowestStepView {
    Continue(LowestSearchView),
    Found(u32),
}

/// One step of the whole search: the search above runs until it finds a
/// current; then the answer is that current, or, where the range from the
/// last failed limit is too wide, the search between runs, and its answer is
/// the current it finds.
pub open spec fn lowest_step(v: LowestSearchView, measured: i32) -> LowestStepView {
    match v.phase {
        SearchPhaseView::Above(a) => match above_step(a, measured) {
            AboveStepView::Continue(n) => LowestStepView::Continue(
                LowestSearchView { floor: v.floor, phase: SearchPhaseView::Above(n) },
            ),
            AboveStepView::Found(out) => match after_above_spec(out) {
                AfterAbove::Lowest(c) => LowestStepView::Found(c),
                AfterAbove::Narrow(b) => LowestStepView::Continue(
                    LowestSearchView { floor: v.floor, phase: SearchPhaseView::Between(b) },
                ),
            },
        },
        SearchPhaseView::Between(b) => match between_step(b, measured) {
            BetweenStep::Continue(nb) => LowestStepView::Continue(
                LowestSearchView { floor: v.floor, phase: SearchPhaseView::Between(nb) },
            ),
            BetweenStep::Found(f) => LowestStepView::Found(f.experimental_current),
        },
    }
}

/// The phase of the whole search.
pub enum SearchPhase {
    Above(FindCurrentAbove),
    Between(FindLowestCurrentBetween),
}

/// The search for the lowest current, at least `MIN_CURRENT` and at least a
/// given current, that the battery draws under some limit.
pub struct FindLowestCurrentAbove {
    floor: u32,
    phase: SearchPhase,
}

impl View for FindLowestCurrentAbove {
    type V = LowestSearchView;

    closed spec fn view(&self) -> LowestSearchView {
        LowestSearchView {
            floor: self.floor,
            phase: match self.phase {
                SearchPhase::Above(a) => SearchPhaseView::Above(a@),
                SearchPhase::Between(b) => SearchPhaseView::Between(b),
            },
        }
    }
}

/// What the whole search returns for one measurement.
pub enum LowestStep {
    Continue(FindLowestCurrentAbove),
    Found(u32),
}

impl View for LowestStep {
    type V = LowestStepView;

    open spec fn view(&self) -> LowestStepView {
        match self {
            LowestStep::Continue(s) => LowestStepView::Continue(s@),
            LowestStep::Found(c) => LowestStepView::Found(*c),
        }
    }
}

impl FindLowestCurrentAbove {
    #[verifier::type_invariant]
    spec fn wf(self) -> bool {
        lowest_search_wf(self@)
    }

    /// Starts the search for the lowest current above `min_current`.
    pub fn new(min_current: u32) -> (s: Self)
        ensures
            s@ == lowest_search_start(min_current),
            s@.floor >= MIN_CURRENT,
            s@.floor >= min_current,
    {
        let floor = if min_current >= MIN_CURRENT {
            min_current
        } else {
            MIN_CURRENT
        };
        let above = FindCurrentAbove::new(floor);
        FindLowestCurrentAbove { floor, phase: SearchPhase::Above(above) }
    }

    /// The limit to try now, or `None` where computing it overflows.
    pub fn next_limit(&self) -> (r: Option<u32>)
        ensures
            match r {
                Some(v) => next_limit_defined(self@) && v == next_limit_value(self@),
                None => !next_limit_defined(self@),
            },
            r matches Some(v) ==> v >= self@.floor,
    {
        proof {
            use_type_invariant(self);
            match self@.phase {
                SearchPhaseView::Above(a) => lemma_attempts_grow(a.min_current, a.attempt_number),
                SearchPhaseView::Between(_) => {},
            }
        }
        match &self.phase {
            SearchPhase::Above(a) => a.attempt(),
            SearchPhase::Between(b) => b.between(),
        }
    }

    /// Can the step with the current `measured` be computed without
    /// overflow?
    pub fn observe_is_defined(&self, measured: i32) -> (b: bool)
        ensures
            b == observe_defined(self@, measured),
    {
        match &self.phase {
            SearchPhase::Above(a) => {
                if a.attempt().is_none() {
                    return false;
                }
                let current = clamp_current(measured);
                current < a.min_current || current
                    >= a.highest_failed_attempt.charge_current_limit
            },
            SearchPhase::Between(b) => b.between().is_some(),
        }
    }

    /// Takes the current measured under the limit `next_limit()`. The search
    /// keeps its floor, and the current it ends with is never below the
    /// floor.
    pub fn observe(self, measured: i32) -> (r: LowestStep)
        requires
            observe_defined(self@, measured),
        ensures
            r@ == lowest_step(self@, measured),
            r matches LowestStep::Continue(n) ==> n@.floor == self@.floor && lowest_search_wf(
                n@,
            ),
            r matches LowestStep::Found(c) ==> c >= self@.floor,
            r matches LowestStep::Found(c) ==> c == clamp_reading(measured),
            self@.phase matches SearchPhaseView::Above(a) ==> {
                &&& clamp_reading(measured) < a.min_current ==> (r@ matches LowestStepView::Continue(
                    n,
                ) && n.floor == self@.floor && (n.phase matches SearchPhaseView::Above(na)
                    && na.min_current == a.min_current && na.attempt_number == a.attempt_number
                    + 1 && na.highest_failed_attempt.charge_current_limit == attempt_value(
                    a.min_current,
                    a.attempt_number,
                ) && na.highest_failed_attempt.experimental_current == (if clamp_reading(measured)
                    <= a.highest_failed_attempt.experimental_current {
                    a.highest_failed_attempt.experimental_current
                } else {
                    clamp_reading(measured)
                })))
                &&& clamp_reading(measured) >= a.min_current && clamp_reading(measured)
                    - a.highest_failed_attempt.charge_current_limit > MAX_RANGE ==> r@
                    == LowestStepView::Continue(
                    LowestSearchView {
                        floor: self@.floor,
                        phase: SearchPhaseView::Between(
                            FindLowestCurrentBetween {
                                min: a.highest_failed_attempt.charge_current_limit,
                                max: clamp_reading(measured),
                                max_range: MAX_RANGE,
                            },
                        ),
                    },
                )
                &&& clamp_reading(measured) >= a.min_current && clamp_reading(measured)
                    - a.highest_failed_attempt.charge_current_limit <= MAX_RANGE ==> r@
                    == LowestStepView::Found(clamp_reading(measured))
            },
            self@.phase matches SearchPhaseView::Between(b) ==> {
                &&& (r@ is Found) == (clamp_reading(measured) == b.min)
                &&& clamp_reading(measured) != b.min ==> (r@ matches LowestStepView::Continue(n)
                    && n.floor == self@.floor && (n.phase matches SearchPhaseView::Between(nb)
                    && nb.max_range == b.max_range && nb.min == (if clamp_reading(measured) < b.min
                    || (b.min + b.max) / 2 <= clamp_reading(measured) {
                    (b.min + b.max) / 2
                } else {
                    b.min as int
                }) && nb.max == (if clamp_reading(measured) < b.min {
                    b.max
                } else {
                    clamp_reading(measured)
                })))
            },
    {
        proof {
            use_type_invariant(&self);
        }
        let floor = self.floor;
        match self.phase {
            SearchPhase::Above(a) => {
                proof {
                    lemma_attempts_grow(a@.min_current, a@.attempt_number);
                    if a@.attempt_number > 0 {
                        lemma_attempts_grow(a@.min_current, (a@.attempt_number - 1) as nat);
                    }
                }
                match a.observe(measured) {
                    AboveStep::Continue(n) => LowestStep::Continue(
                        FindLowestCurrentAbove { floor, phase: SearchPhase::Above(n) },
                    ),
                    AboveStep::Found(out) => match after_current_above(&out) {
                        AfterAbove::Lowest(c) => LowestStep::Found(c),
                        AfterAbove::Narrow(b) => LowestStep::Continue(
                            FindLowestCurrentAbove { floor, phase: SearchPhase::Between(b) },
                        ),
                    },
                }
            },
            SearchPhase::Between(b) => match b.observe(measured) {
                BetweenStep::Continue(nb) => LowestStep::Continue(
                    FindLowestCurrentAbove { floor, phase: SearchPhase::Between(nb) },
                ),
                BetweenStep::Found(f) => LowestStep::Found(f.experimental_current),
            },
        }
    }
}

/// A failed attempt of the search above records the highest current seen
/// over all failed attempts: never lower than before, never lower than the
/// current just measured, and one of the two.
pub proof fn lemma_failed_current_is_highest(v: FindCurrentAboveView, measured: i32)
    ensures
        above_step(v, measured) matches AboveStepView::Continue(n) ==> {
            &&& n.highest_failed_attempt.experimental_current
                >= v.highest_failed_attempt.experimental_current
            &&& n.highest_failed_attempt.experimental_current >= clamp_reading(measured)
            &&& (n.highest_failed_attempt.experimental_current
                == v.highest_failed_attempt.experimental_current
                || n.highest_failed_attempt.experimental_current == clamp_reading(measured))
        },
        (above_step(v, measured) is Found) == (clamp_reading(measured) >= v.min_current),
        above_step(v, measured) matches AboveStepView::Found(out) ==> out.current_above
            == clamp_reading(measured) && out.last_failed_attempt == v.highest_failed_attempt,
{
}

/// The search between ends only on a measurement equal to its lower end,
/// reports that measurement, and a measurement below the lower end moves the
/// lower end up to the middle of the range.
pub proof fn lemma_between_ends_on_lower_end(s: FindLowestCurrentBetween, measured: i32)
    requires
        s.min + s.max <= u32::MAX,
    ensures
        between_step(s, measured) matches BetweenStep::Found(f) ==> clamp_reading(measured)
            == s.min && f.experimental_current == clamp_reading(measured),
        clamp_reading(measured) == s.min ==> between_step(s, measured) is Found,
        clamp_reading(measured) < s.min ==> between_step(s, measured) == BetweenStep::Continue(
            FindLowestCurrentBetween {
                min: ((s.min + s.max) / 2) as u32,
                max: s.max,
                max_range: s.max_range,
            },
        ),
        clamp_reading(measured) > s.min ==> (between_step(s, measured) matches BetweenStep::Continue(
            n,
        ) && n.max == clamp_reading(measured)),
{
}

/// Whenever the whole search ends, its answer is the current just measured.
pub proof fn lemma_search_answer_is_measured(v: LowestSearchView, measured: i32)
    ensures
        lowest_step(v, measured) matches LowestStepView::Found(c) ==> c == clamp_reading(
            measured,
        ),
{
}

/// When the search above ends with a current more than `MAX_RANGE` above its
/// last failed limit, the whole search goes on between that limit and the
/// current found.
pub proof fn lemma_narrowing_starts_at_last_failure(v: LowestSearchView, measured: i32)
    ensures
        v.phase matches SearchPhaseView::Above(a) ==> (clamp_reading(measured) >= a.min_current
            && clamp_reading(measured) - a.highest_failed_attempt.charge_current_limit > MAX_RANGE
            ==> lowest_step(v, measured) == LowestStepView::Continue(
            LowestSearchView {
                floor: v.floor,
                phase: SearchPhaseView::Between(
                    FindLowestCurrentBetween {
                        min: a.highest_failed_attempt.charge_current_limit,
                        max: clamp_reading(measured),
                        max_range: MAX_RANGE,
                    },
                ),
            },
        )),
{
}

} // verus!
