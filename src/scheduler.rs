use vstd::prelude::*;

use crate::status::{aggregate, overall_status, InvocationResult};

verus! {

/// What the driver of a run should do next.
#[derive(Clone, Copy, Debug, PartialEq, Eq, Structural)]
pub enum Action {
    /// Start the invocation of the batch with this index.
    Launch(usize),
    /// Wait for the next event: a batch, the end of input, or a completion.
    Wait,
    /// The run is over, with this overall status.
    Done(u8),
}

/// A request that the scheduler's slot accounting cannot honour.
#[derive(Clone, Copy, Debug, PartialEq, Eq, Structural)]
pub enum SchedulerFault {
    /// No batch may be launched now.
    NothingToLaunch,
    /// The invocation with this index is not running.
    NotRunning(usize),
    /// More batches were offered than can be counted.
    TooManyBatches,
}

/// The number of invocations in `o` that have no outcome yet.
pub open spec fn count_running(o: Seq<Option<InvocationResult>>) -> nat
    decreases o.len(),
{
    if o.len() == 0 {
        0
    } else {
        count_running(o.drop_last()) + if o.last() is None {
            1nat
        } else {
            0nat
        }
    }
}

/// The outcomes of invocations that have all completed.
pub open spec fn results_of(o: Seq<Option<InvocationResult>>) -> Seq<InvocationResult> {
    Seq::new(o.len(), |i: int| o[i]->0)
}

/// The state of a run as the scheduler sees it.
pub struct SchedulerView {
    /// The bound on invocations running at once; 0 for none.
    pub max_procs: nat,
    /// The number of batches offered so far.
    pub available: nat,
    /// One entry per launched invocation, in launch order: `None` while it
    /// runs, then its result.
    pub outcomes: Seq<Option<InvocationResult>>,
    /// The number of invocations started and not completed.
    pub active: nat,
    /// No more batches will come.
    pub input_done: bool,
    /// No more batches are to be admitted.
    pub cancelled: bool,
}

impl SchedulerView {
    pub open spec fn launched(self) -> nat {
        self.outcomes.len()
    }

    pub open spec fn pending(self) -> int {
        self.available - self.launched()
    }

    pub open spec fn running(self, id: int) -> bool {
        0 <= id < self.launched() && self.outcomes[id] is None
    }

    pub open spec fn wf(self) -> bool {
        &&& self.launched() <= self.available
        &&& self.active == count_running(self.outcomes)
        &&& self.max_procs > 0 ==> self.active <= self.max_procs
    }

    pub open spec fn has_slot(self) -> bool {
        self.max_procs == 0 || self.active < self.max_procs
    }

    pub open spec fn can_launch(self) -> bool {
        !self.cancelled && self.pending() > 0 && self.has_slot()
    }

    pub open spec fn finished(self) -> bool {
        self.active == 0 && (self.cancelled || (self.input_done && self.pending() == 0))
    }

    /// The state once the next batch has been launched.
    pub open spec fn after_launch(self) -> SchedulerView {
        SchedulerView { outcomes: self.outcomes.push(None), active: self.active + 1, ..self }
    }

    pub open spec fn next_action(self) -> Action {
        if self.can_launch() {
            Action::Launch(self.launched() as usize)
        } else if self.finished() {
            Action::Done(overall_status(results_of(self.outcomes)))
        } else {
            Action::Wait
        }
    }
}

/// Admits batches, in the order they are offered, to at most `max_procs`
/// invocations running at once (any number when `max_procs` is 0), and
/// collects what each invocation came to.
pub struct Scheduler {
    max_procs: usize,
    available: usize,
    outcomes: Vec<Option<InvocationResult>>,
    active: usize,
    input_done: bool,
    cancelled: bool,
}

impl View for Scheduler {
    type V = SchedulerView;

    closed spec fn view(&self) -> SchedulerView {
        SchedulerView {
            max_procs: self.max_procs as nat,
            available: self.available as nat,
            outcomes: self.outcomes@,
            active: self.active as nat,
            input_done: self.input_done,
            cancelled: self.cancelled,
        }
    }
}

proof fn lemma_count_push(o: Seq<Option<InvocationResult>>, x: Option<InvocationResult>)
    ensures
        count_running(o.push(x)) == count_running(o) + if x is None {
            1nat
        } else {
            0nat
        },
{
    assert(o.push(x).drop_last() =~= o);
}

proof fn lemma_count_le_len(o: Seq<Option<InvocationResult>>)
    ensures
        count_running(o) <= o.len(),
    decreases o.len(),
{
    if o.len() > 0 {
        lemma_count_le_len(o.drop_last());
    }
}

proof fn lemma_count_complete(o: Seq<Option<InvocationResult>>, id: int, r: InvocationResult)
    requires
        0 <= id < o.len(),
        o[id] is None,
    ensures
        count_running(o.update(id, Some(r))) + 1 == count_running(o),
    decreases o.len(),
{
    let u = o.update(id, Some(r));
    if id == o.len() - 1 {
        assert(u.drop_last() =~= o.drop_last());
    } else {
        lemma_count_complete(o.drop_last(), id, r);
        assert(u.drop_last() =~= o.drop_last().update(id, Some(r)));
    }
}

proof fn lemma_none_running(o: Seq<Option<InvocationResult>>)
    requires
        count_running(o) == 0,
    ensures
        forall|i: int| 0 <= i < o.len() ==> (#[trigger] o[i]) is Some,
    decreases o.len(),
{
    if o.len() > 0 {
        lemma_none_running(o.drop_last());
        assert forall|i: int| 0 <= i < o.len() implies (#[trigger] o[i]) is Some by {
            if i < o.len() - 1 {
                assert(o[i] == o.drop_last()[i]);
            }
        }
    }
}

impl Scheduler {
    pub open spec fn wf(&self) -> bool {
        self@.wf()
    }

    /// A scheduler for a run with at most `max_procs` invocations at once
    /// (0: no bound), before any batch has been offered.
    pub fn new(max_procs: usize) -> (r: Scheduler)
        ensures
            r.wf(),
            r@.max_procs == max_procs,
            r@.available == 0,
            r@.outcomes == Seq::<Option<InvocationResult>>::empty(),
            !r@.input_done,
            !r@.cancelled,
    {
        Scheduler {
            max_procs,
            available: 0,
            outcomes: Vec::new(),
            active: 0,
            input_done: false,
            cancelled: false,
        }
    }

    /// One more batch is ready to be launched.
    pub fn offer(&mut self) -> (r: Result<(), SchedulerFault>)
        requires
            old(self).wf(),
        ensures
            final(self).wf(),
            r is Ok <==> old(self)@.available < usize::MAX,
            r is Ok ==> final(self)@ == (SchedulerView {
                available: old(self)@.available + 1,
                ..old(self)@
            }),
            r is Err ==> r == Err::<(), _>(SchedulerFault::TooManyBatches) && final(self)@ == old(self)@,
    {
        if self.available == usize::MAX {
            return Err(SchedulerFault::TooManyBatches);
        }
        self.available = self.available + 1;
        Ok(())
    }

    /// No more batches will be offered.
    pub fn end_input(&mut self)
        requires
            old(self).wf(),
        ensures
            final(self).wf(),
            final(self)@ == (SchedulerView { input_done: true, ..old(self)@ }),
    {
        self.input_done = true;
    }

    /// Stops admitting batches; invocations already running go on.
    pub fn cancel(&mut self)
        requires
            old(self).wf(),
        ensures
            final(self).wf(),
            final(self)@ == (SchedulerView { cancelled: true, ..old(self)@ }),
    {
        self.cancelled = true;
    }

    /// Takes a slot for the next batch, in the order batches were offered,
    /// and returns its index; refused when no batch may start now.
    pub fn launch(&mut self) -> (r: Result<usize, SchedulerFault>)
        requires
            old(self).wf(),
        ensures
            final(self).wf(),
            r is Ok <==> old(self)@.can_launch(),
            r is Ok ==> {
                &&& r == Ok::<usize, SchedulerFault>(old(self)@.launched() as usize)
                &&& final(self)@ == old(self)@.after_launch()
            },
            r is Err ==> r == Err::<usize, _>(SchedulerFault::NothingToLaunch) && final(self)@ == old(self)@,
    {
        let has_slot = self.max_procs == 0 || self.active < self.max_procs;
        if self.cancelled || self.outcomes.len() >= self.available || !has_slot {
            return Err(SchedulerFault::NothingToLaunch);
        }
        proof {
            lemma_count_le_len(self.outcomes@);
            lemma_count_push(self.outcomes@, None);
        }
        let id = self.outcomes.len();
        self.outcomes.push(None);
        self.active = self.active + 1;
        Ok(id)
    }

    /// Records what the running invocation `id` came to and frees its slot;
    /// refused when `id` is not running.
    pub fn complete(&mut self, id: usize, result: InvocationResult) -> (r: Result<(), SchedulerFault>)
        requires
            old(self).wf(),
        ensures
            final(self).wf(),
            r is Ok <==> old(self)@.running(id as int),
            r is Ok ==> final(self)@ == (SchedulerView {
                outcomes: old(self)@.outcomes.update(id as int, Some(result)),
                active: (old(self)@.active - 1) as nat,
                ..old(self)@
            }),
            r is Err ==> r == Err::<(), _>(SchedulerFault::NotRunning(id)) && final(self)@ == old(self)@,
    {
        if id >= self.outcomes.len() {
            return Err(SchedulerFault::NotRunning(id));
        }
        if self.outcomes[id].is_some() {
            return Err(SchedulerFault::NotRunning(id));
        }
        proof {
            lemma_count_complete(self.outcomes@, id as int, result);
        }
        self.outcomes.set(id, Some(result));
        self.active = self.active - 1;
        Ok(())
    }

    /// What to do next: launch the next batch when one is waiting, a slot is
    /// free and the run was not cancelled; report the overall status once
    /// nothing runs and nothing more will be launched; wait otherwise.
    pub fn next_action(&self) -> (r: Action)
        requires
            self.wf(),
        ensures
            r == self@.next_action(),
    {
        let has_slot = self.max_procs == 0 || self.active < self.max_procs;
        if !self.cancelled && self.outcomes.len() < self.available && has_slot {
            return Action::Launch(self.outcomes.len());
        }
        let finished = self.active == 0 && (self.cancelled || (self.input_done
            && self.outcomes.len() == self.available));
        if !finished {
            return Action::Wait;
        }
        proof {
            lemma_none_running(self.outcomes@);
        }
        let mut results: Vec<InvocationResult> = Vec::new();
        let mut i: usize = 0;
        while i < self.outcomes.len()
            invariant
                self.wf(),
                self.active == 0,
                forall|k: int| 0 <= k < self.outcomes@.len() ==> (#[trigger] self.outcomes@[k]) is Some,
                i <= self.outcomes@.len(),
                results@ == results_of(self.outcomes@).take(i as int),
            decreases self.outcomes@.len() - i,
        {
            match self.outcomes[i] {
                Some(res) => {
                    results.push(res);
                },
                None => {},
            }
            assert(results@ =~= results_of(self.outcomes@).take(i + 1));
            i = i + 1;
        }
        assert(results@ =~= results_of(self.outcomes@));
        Action::Done(aggregate(results.as_slice()))
    }

    /// The bound this scheduler was made with; 0 for none.
    pub fn max_procs(&self) -> (r: usize)
        ensures
            r == self@.max_procs,
    {
        self.max_procs
    }

    /// The number of invocations started and not completed.
    pub fn active(&self) -> (r: usize)
        ensures
            r == self@.active,
    {
        self.active
    }

    /// The number of invocations launched so far.
    pub fn launched(&self) -> (r: usize)
        ensures
            r == self@.launched(),
    {
        self.outcomes.len()
    }

    /// Whether the run was cancelled before all batches were admitted.
    pub fn was_cancelled(&self) -> (r: bool)
        ensures
            r == self@.cancelled,
    {
        self.cancelled
    }

    /// What the invocation of batch `id` came to, if it has completed.
    pub fn outcome(&self, id: usize) -> (r: Option<InvocationResult>)
        requires
            id < self@.launched(),
        ensures
            r == self@.outcomes[id as int],
    {
        self.outcomes[id]
    }
}

/// With a positive bound, no state that the scheduler can reach has more
/// invocations running than the bound.
pub proof fn lemma_active_within_bound(s: &Scheduler)
    requires
        s.wf(),
        s@.max_procs > 0,
    ensures
        s@.active <= s@.max_procs,
{
}

/// With no bound, a waiting batch is always launched at once, however many
/// invocations are running.
pub proof fn lemma_unbounded_launches_at_once(s: &Scheduler)
    requires
        s.wf(),
        s@.max_procs == 0,
        !s@.cancelled,
        s@.pending() > 0,
    ensures
        s@.next_action() == Action::Launch(s@.launched() as usize),
{
}

/// The state after `k` launches in a row, with no other event between them.
pub open spec fn launches(v: SchedulerView, k: nat) -> SchedulerView
    decreases k,
{
    if k == 0 {
        v
    } else {
        launches(v, (k - 1) as nat).after_launch()
    }
}

proof fn lemma_launches_fields(v: SchedulerView, k: nat)
    ensures
        launches(v, k).launched() == v.launched() + k,
        launches(v, k).active == v.active + k,
        launches(v, k).available == v.available,
        launches(v, k).max_procs == v.max_procs,
        launches(v, k).cancelled == v.cancelled,
    decreases k,
{
    if k > 0 {
        lemma_launches_fields(v, (k - 1) as nat);
    }
}

/// With no bound, every batch that is waiting can be launched, one after the
/// other and with none completing: `k` waiting batches make `k` more
/// invocations run at once.
pub proof fn lemma_unbounded_runs_all_waiting(v: SchedulerView, k: nat)
    requires
        v.wf(),
        v.max_procs == 0,
        !v.cancelled,
        k <= v.pending(),
    ensures
        forall|j: nat| j < k ==> (#[trigger] launches(v, j)).can_launch(),
        launches(v, k).active == v.active + k,
{
    assert forall|j: nat| j < k implies (#[trigger] launches(v, j)).can_launch() by {
        lemma_launches_fields(v, j);
    }
    lemma_launches_fields(v, k);
}

} // verus!
