use vstd::prelude::*;

verus! {

/// Every this many iterations the escape loop snapshots the current iterate
/// as the reference value that cycle detection compares against.
pub const SNAPSHOT_PERIOD: u32 = 20;

/// Book-keeping of one escape-time iteration: how many steps were taken, how
/// long ago the reference iterate was snapshotted, and the iteration budget.
/// The caller owns the numeric work; this state machine owns every decision:
/// whether to keep iterating, when to refresh the reference snapshot, and how
/// a detected cycle ends the loop.
pub struct IterationControl {
    pub item_id: u32,
    pub period: u32,
    pub max_item_id: u32,
}

impl IterationControl {
    /// The step count never passes the budget and the snapshot age never
    /// reaches the snapshot period.
    pub open spec fn wf(self) -> bool {
        self.item_id <= self.max_item_id && self.period < SNAPSHOT_PERIOD
    }

    /// Control state at the start of an evaluation.
    pub open spec fn initial_spec(max_item_id: u32) -> IterationControl {
        IterationControl { item_id: 0, period: 0, max_item_id }
    }

    /// The loop continues only while the iterate is in bounds and the budget
    /// is not exhausted.
    pub open spec fn wants_more_spec(self, in_bounds: bool) -> bool {
        in_bounds && self.item_id < self.max_item_id
    }

    /// The reference snapshot is refreshed when this step makes it
    /// `SNAPSHOT_PERIOD` iterations old.
    pub open spec fn refresh_spec(self) -> bool {
        self.period + 1 >= SNAPSHOT_PERIOD
    }

    /// Control state after one more iterate was computed. A cycle (the new
    /// iterate equals the reference) ends the evaluation with the step count
    /// forced to the budget: the point is judged inside a bounded region.
    pub open spec fn step_spec(self, matches_reference: bool) -> IterationControl {
        if matches_reference {
            IterationControl { item_id: self.max_item_id, ..self }
        } else if self.refresh_spec() {
            IterationControl { item_id: (self.item_id + 1) as u32, period: 0, ..self }
        } else {
            IterationControl {
                item_id: (self.item_id + 1) as u32,
                period: (self.period + 1) as u32,
                ..self
            }
        }
    }

    pub fn new(max_item_id: u32) -> (control: IterationControl)
        ensures
            control == IterationControl::initial_spec(max_item_id),
            control.wf(),
    {
        IterationControl { item_id: 0, period: 0, max_item_id }
    }

    /// Whether the loop should compute another iterate, given whether the
    /// current iterate is still inside the escape bound.
    pub fn wants_more(&self, in_bounds: bool) -> (more: bool)
        ensures
            more == self.wants_more_spec(in_bounds),
    {
        in_bounds && self.item_id < self.max_item_id
    }

    /// Records one computed iterate. `matches_reference` says whether it
    /// exactly equals the reference snapshot; the returned flag tells the
    /// caller to snapshot the current iterate as the new reference.
    pub fn record_step(&mut self, matches_reference: bool) -> (refresh: bool)
        requires
            old(self).wf(),
            old(self).item_id < old(self).max_item_id,
        ensures
            *final(self) == old(self).step_spec(matches_reference),
            final(self).wf(),
            refresh == (!matches_reference && old(self).refresh_spec()),
    {
        self.item_id = self.item_id + 1;
        if matches_reference {
            self.item_id = self.max_item_id;
            return false;
        }
        self.period = self.period + 1;
        if self.period >= SNAPSHOT_PERIOD {
            self.period = 0;
            return true;
        }
        false
    }

    /// The evaluation is over; the step count is the divergence index the
    /// color mapper consumes.
    pub fn finish(self) -> (index: u32)
        ensures
            index == self.item_id,
    {
        self.item_id
    }
}

/// A point whose iterate ever exactly equals the reference snapshot is
/// reported as inside the set: the step after the match carries the full
/// iteration budget as its index, and the loop asks for no further work,
/// whatever the escape test would say.
pub proof fn lemma_cycle_forces_max_index(control: IterationControl)
    requires
        control.wf(),
        control.item_id < control.max_item_id,
    ensures
        control.step_spec(true).item_id == control.max_item_id,
        forall|in_bounds: bool| !control.step_spec(true).wants_more_spec(in_bounds),
{
}

/// A point at or beyond the escape radius escapes in exactly one step, for
/// the variants whose recurrence is seeded at the origin: the origin passes
/// the escape test, the first computed iterate — the point itself, folded in
/// as the additive constant — fails it, so the loop records that single step,
/// reports index 1, and asks for no further work.
pub proof fn lemma_immediate_escape(max_item_id: u32)
    requires
        max_item_id >= 1,
    ensures
        IterationControl::initial_spec(max_item_id).wants_more_spec(true),
        IterationControl::initial_spec(max_item_id).step_spec(false).item_id == 1,
        !IterationControl::initial_spec(max_item_id).step_spec(false).wants_more_spec(false),
{
}

/// The reference snapshot is refreshed exactly every `SNAPSHOT_PERIOD`
/// iterations: while no cycle is found, the snapshot age always equals the
/// step count modulo the period, so a refresh fires precisely on steps that
/// reach a multiple of `SNAPSHOT_PERIOD`.
pub proof fn lemma_snapshot_cadence(control: IterationControl)
    requires
        control.wf(),
        control.item_id < control.max_item_id,
        control.period == control.item_id % SNAPSHOT_PERIOD,
    ensures
        control.step_spec(false).period == control.step_spec(false).item_id % SNAPSHOT_PERIOD,
        control.refresh_spec() <==> ((control.item_id + 1) % (SNAPSHOT_PERIOD as int) == 0),
{
}

} // verus!
