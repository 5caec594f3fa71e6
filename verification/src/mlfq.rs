use vstd::prelude::*;

verus! {

/// One schedulable unit of work. The caller assigns `id` and the intended
/// `priority`; the scheduler rewrites `priority` on demotion and boost, but
/// actual tier membership is positional (which tier's queue holds the record).
#[derive(Debug)]
pub struct Process {
    /// Caller-assigned identifier; never inspected by the scheduler.
    pub id: u32,
    /// The tier index this process currently (or most recently) belonged to.
    pub priority: usize,
    /// Work units left until the process is finished.
    pub remaining_time: u32,
    /// Work units the process has consumed so far.
    pub total_executed_time: u32,
}

impl Process {
    /// The total work a process carries: what is left plus what has already run.
    /// Dispatching moves time from one side to the other and keeps the sum.
    pub open spec fn work(self) -> int {
        self.remaining_time + self.total_executed_time
    }

    /// The process's work sum stays representable, so dispatch arithmetic
    /// cannot overflow `total_executed_time`.
    pub open spec fn fits(self) -> bool {
        self.work() <= u32::MAX
    }
}

/// What one dispatch reports back: which process ran, for how long, and how
/// much work it still has. The scheduler keeps no trace of its own; emitting
/// or logging these records is the caller's business.
#[derive(Clone, Copy, Debug, PartialEq, Eq, Structural)]
pub struct ExecutionRecord {
    /// The dispatched process's identifier.
    pub id: u32,
    /// Work units consumed by this dispatch.
    pub executed_time: u32,
    /// Work units the process still needs after this dispatch.
    pub remaining_time: u32,
}

/// How often, in clock units, the scheduler resets every process to tier 0.
pub const BOOST_INTERVAL: u32 = 100;

/// How much of its quantum a dispatched process actually uses: the whole
/// quantum if it has at least that much work left, else all its remaining work.
pub open spec fn quantum_used(p: Process, quantum: u32) -> u32 {
    if p.remaining_time > quantum {
        quantum
    } else {
        p.remaining_time
    }
}

/// The dispatched process after running for its share of `quantum`, with its
/// `priority` field rewritten to `new_priority`.
pub open spec fn after_dispatch(p: Process, quantum: u32, new_priority: usize) -> Process {
    Process {
        id: p.id,
        priority: new_priority,
        remaining_time: (p.remaining_time - quantum_used(p, quantum)) as u32,
        total_executed_time: (p.total_executed_time + quantum_used(p, quantum)) as u32,
    }
}

/// Conservation of work: a dispatch only moves time from `remaining_time` to
/// `total_executed_time`, so a process's work sum never changes while it runs.
pub proof fn lemma_dispatch_conserves_work(p: Process, quantum: u32, new_priority: usize)
    requires
        p.fits(),
    ensures
        after_dispatch(p, quantum, new_priority).work() == p.work(),
{
}

/// `p` with its `priority` field reset to tier 0, as a boost rewrites it.
pub open spec fn reset_priority(p: Process) -> Process {
    Process {
        id: p.id,
        priority: 0,
        remaining_time: p.remaining_time,
        total_executed_time: p.total_executed_time,
    }
}

/// The processes of one tier in the order a boost moves them to tier 0:
/// the tier is drained from its tail (LIFO, like dispatch), and each process
/// arrives with its `priority` field reset.
pub open spec fn drained(q: Seq<Process>) -> Seq<Process>
    decreases q.len(),
{
    if q.len() == 0 {
        Seq::empty()
    } else {
        seq![reset_priority(q.last())] + drained(q.drop_last())
    }
}

/// What tiers 1 to `upto - 1` together append to tier 0 during a boost,
/// in tier order.
pub open spec fn drained_tiers(qs: Seq<Vec<Process>>, upto: int) -> Seq<Process>
    decreases upto,
{
    if upto <= 1 {
        Seq::empty()
    } else {
        drained_tiers(qs, upto - 1) + drained(qs[upto - 1]@)
    }
}

/// The number of processes held by tiers 0 to `upto - 1` together.
pub open spec fn tier_count(qs: Seq<Vec<Process>>, upto: int) -> int
    decreases upto,
{
    if upto <= 0 {
        0
    } else {
        tier_count(qs, upto - 1) + qs[upto - 1]@.len()
    }
}

/// Draining a tier neither loses nor invents processes.
pub proof fn lemma_drained_len(q: Seq<Process>)
    ensures
        drained(q).len() == q.len(),
    decreases q.len(),
{
    if q.len() > 0 {
        lemma_drained_len(q.drop_last());
    }
}

/// What tiers 1 to `upto - 1` contribute to a boost is exactly what they held.
pub proof fn lemma_drained_tiers_len(qs: Seq<Vec<Process>>, upto: int)
    requires
        1 <= upto <= qs.len(),
    ensures
        drained_tiers(qs, upto).len() == tier_count(qs, upto) - qs[0]@.len(),
    decreases upto,
{
    if upto == 1 {
    } else {
        lemma_drained_tiers_len(qs, upto - 1);
        lemma_drained_len(qs[upto - 1]@);
    }
}

/// When every tier but tier 0 is empty, tier 0 holds every tracked process.
pub proof fn lemma_tier_count_rest_empty(qs: Seq<Vec<Process>>, upto: int)
    requires
        1 <= upto <= qs.len(),
        forall|q: int| 1 <= q < upto ==> (#[trigger] qs[q])@.len() == 0,
    ensures
        tier_count(qs, upto) == qs[0]@.len(),
    decreases upto,
{
    if upto == 1 {
        assert(tier_count(qs, 0) == 0);
    } else {
        lemma_tier_count_rest_empty(qs, upto - 1);
        assert(qs[upto - 1]@.len() == 0);
    }
}

/// A multi-level feedback queue scheduler: one queue per priority tier,
/// a per-tier time quantum, and a global clock that triggers boosts.
pub struct MLFQ {
    /// One queue per tier; index 0 is the highest priority.
    pub queues: Vec<Vec<Process>>,
    /// The number of tiers, fixed at construction.
    pub num_levels: usize,
    /// The per-tier time quanta, fixed at construction: a process dispatched
    /// from tier `i` runs for at most `time_quanta[i]` work units.
    pub time_quanta: Vec<u32>,
    /// The global clock; dispatching and `update_time` advance it.
    pub current_time: u32,
}

impl MLFQ {
    /// The number of processes the scheduler currently tracks, over all tiers.
    pub open spec fn total_count(&self) -> int {
        tier_count(self.queues@, self.queues@.len() as int)
    }

    /// Every queued process has a representable work sum.
    pub open spec fn procs_fit(&self) -> bool {
        forall|q: int, j: int|
            0 <= q < self.queues@.len() && 0 <= j < self.queues@[q]@.len()
                ==> (#[trigger] self.queues@[q]@[j]).fits()
    }

    /// Well-formedness: one queue and one quantum per tier, at least one tier,
    /// and every queued process carries a representable work sum.
    pub open spec fn wf(&self) -> bool {
        &&& self.num_levels >= 1
        &&& self.queues@.len() == self.num_levels
        &&& self.time_quanta@.len() == self.num_levels
        &&& self.procs_fit()
    }

    /// Builds a scheduler with `num_levels` empty tiers, the given per-tier
    /// time quanta, and the clock at zero.
    pub fn new(num_levels: usize, time_quanta: Vec<u32>) -> (s: Self)
        requires
            num_levels >= 1,
            time_quanta@.len() == num_levels,
        ensures
            s.wf(),
            s.num_levels == num_levels,
            s.time_quanta@ == time_quanta@,
            s.current_time == 0,
            forall|q: int| 0 <= q < num_levels ==> (#[trigger] s.queues@[q])@.len() == 0,
    {
        let mut queues: Vec<Vec<Process>> = Vec::new();
        let mut i: usize = 0;
        while i < num_levels
            invariant
                i <= num_levels,
                queues@.len() == i,
                forall|q: int| 0 <= q < i ==> (#[trigger] queues@[q])@.len() == 0,
            decreases num_levels - i,
        {
            queues.push(Vec::new());
            i = i + 1;
        }
        MLFQ { queues, num_levels, time_quanta, current_time: 0 }
    }

    /// The tier a process with the given `priority` field is queued into:
    /// the tier it names when in range, else the lowest tier.
    pub open spec fn target_tier(&self, priority: usize) -> int {
        if priority < self.num_levels {
            priority as int
        } else {
            self.num_levels - 1
        }
    }

    /// Queues `process` at the tail of the tier its `priority` field names;
    /// an out-of-range priority is silently clamped to the lowest tier.
    /// The process record itself (its `priority` field included) is stored
    /// unchanged, and the clock does not move.
    pub fn add_process(&mut self, process: Process)
        requires
            old(self).wf(),
            process.fits(),
        ensures
            final(self).wf(),
            final(self).num_levels == old(self).num_levels,
            final(self).time_quanta@ == old(self).time_quanta@,
            final(self).current_time == old(self).current_time,
            final(self).queues@.len() == old(self).queues@.len(),
            final(self).queues@[old(self).target_tier(process.priority)]@
                == old(self).queues@[old(self).target_tier(process.priority)]@.push(process),
            forall|q: int|
                0 <= q < final(self).queues@.len() && q != old(self).target_tier(process.priority)
                    ==> final(self).queues@[q] == old(self).queues@[q],
    {
        let priority = process.priority;
        if priority < self.num_levels {
            self.queues[priority].push(process);
        } else {
            let lowest = self.num_levels - 1;
            self.queues[lowest].push(process);
        }
    }

    /// Dispatches from tier `queue_index`: pops the most recently queued
    /// process of that tier (LIFO), runs it for at most the tier's quantum,
    /// advances the clock by the time used, and reports what ran.
    ///
    /// A process that finishes within its share is never requeued. One left
    /// with work is demoted one tier down (tail of tier `queue_index + 1`,
    /// `priority` field rewritten to match) when a lower tier exists; when it
    /// already sat in the lowest tier it is dropped from tracking instead of
    /// being requeued there. An empty tier is a no-op.
    pub fn execute_process(&mut self, queue_index: usize) -> (r: Option<ExecutionRecord>)
        requires
            old(self).wf(),
            queue_index < old(self).num_levels,
            old(self).queues@[queue_index as int]@.len() > 0 ==> old(self).current_time
                + quantum_used(
                old(self).queues@[queue_index as int]@.last(),
                old(self).time_quanta@[queue_index as int],
            ) <= u32::MAX,
        ensures
            final(self).wf(),
            final(self).num_levels == old(self).num_levels,
            final(self).time_quanta@ == old(self).time_quanta@,
            final(self).queues@.len() == old(self).queues@.len(),
            old(self).queues@[queue_index as int]@.len() == 0 ==> *final(self) == *old(self)
                && r is None,
            old(self).queues@[queue_index as int]@.len() > 0 ==> ({
                let qi = queue_index as int;
                let p = old(self).queues@[qi]@.last();
                let quantum = old(self).time_quanta@[qi];
                let used = quantum_used(p, quantum);
                &&& r == Some(
                    (ExecutionRecord {
                        id: p.id,
                        executed_time: used,
                        remaining_time: (p.remaining_time - used) as u32,
                    }),
                )
                &&& final(self).current_time == old(self).current_time + used
                &&& final(self).queues@[qi]@ == old(self).queues@[qi]@.drop_last()
                // finished within its share: consumed whole, gone from every tier
                &&& (p.remaining_time <= quantum ==> forall|q: int|
                    0 <= q < final(self).queues@.len() && q != qi
                        ==> #[trigger] final(self).queues@[q] == old(self).queues@[q])
                // unfinished with a lower tier: demoted to the tail of tier qi + 1
                &&& (p.remaining_time > quantum && qi + 1 < old(self).num_levels ==> {
                    &&& final(self).queues@[qi + 1]@ == old(self).queues@[qi + 1]@.push(
                        after_dispatch(p, quantum, (queue_index + 1) as usize),
                    )
                    &&& forall|q: int|
                        0 <= q < final(self).queues@.len() && q != qi && q != qi + 1
                            ==> #[trigger] final(self).queues@[q] == old(self).queues@[q]
                })
                // unfinished in the lowest tier: dropped from tracking
                &&& (p.remaining_time > quantum && qi + 1 == old(self).num_levels
                    ==> forall|q: int|
                        0 <= q < final(self).queues@.len() && q != qi
                            ==> #[trigger] final(self).queues@[q] == old(self).queues@[q])
            }),
    {
        if self.queues[queue_index].len() == 0 {
            return None;
        }
        proof {
            let qi = queue_index as int;
            assert(old(self).queues@[qi]@[old(self).queues@[qi]@.len() - 1].fits());
        }
        let mut process = self.queues[queue_index].pop().unwrap();
        let time_quantum = self.time_quanta[queue_index];
        let executed_time = if process.remaining_time > time_quantum {
            time_quantum
        } else {
            process.remaining_time
        };
        process.remaining_time = process.remaining_time - executed_time;
        process.total_executed_time = process.total_executed_time + executed_time;
        self.current_time = self.current_time + executed_time;
        let record = ExecutionRecord {
            id: process.id,
            executed_time,
            remaining_time: process.remaining_time,
        };
        if process.remaining_time > 0 {
            let next = queue_index + 1;
            if next < self.num_levels {
                process.priority = next;
                self.queues[next].push(process);
            }
        }
        Some(record)
    }

    /// Starvation avoidance: drains every tier but tier 0 (from the tail,
    /// the same LIFO order dispatch uses) and requeues each drained process
    /// at the tail of tier 0 with its `priority` field reset to 0. Tier 0's
    /// own occupants stay put, ahead of the newcomers. No process's
    /// remaining or executed time changes, the clock does not move, and the
    /// total process count is preserved.
    pub fn priority_boost(&mut self)
        requires
            old(self).wf(),
        ensures
            final(self).wf(),
            final(self).num_levels == old(self).num_levels,
            final(self).time_quanta@ == old(self).time_quanta@,
            final(self).current_time == old(self).current_time,
            final(self).queues@.len() == old(self).queues@.len(),
            final(self).queues@[0]@ == old(self).queues@[0]@ + drained_tiers(
                old(self).queues@,
                old(self).num_levels as int,
            ),
            forall|q: int|
                1 <= q < final(self).queues@.len()
                    ==> (#[trigger] final(self).queues@[q])@.len() == 0,
            final(self).total_count() == old(self).total_count(),
    {
        let ghost old_qs = old(self).queues@;
        proof {
            assert(old_qs[0]@ + drained_tiers(old_qs, 1) =~= old_qs[0]@);
        }
        let mut queue_index: usize = 1;
        while queue_index < self.num_levels
            invariant
                self.wf(),
                1 <= queue_index <= self.num_levels,
                self.num_levels == old(self).num_levels,
                self.time_quanta@ == old(self).time_quanta@,
                self.current_time == old(self).current_time,
                self.queues@.len() == old_qs.len(),
                old_qs == old(self).queues@,
                old_qs.len() == self.num_levels,
                self.queues@[0]@ == old_qs[0]@ + drained_tiers(old_qs, queue_index as int),
                forall|q: int|
                    1 <= q < queue_index ==> (#[trigger] self.queues@[q])@.len() == 0,
                forall|q: int|
                    queue_index <= q < old_qs.len() ==> #[trigger] self.queues@[q] == old_qs[q],
            decreases self.num_levels - queue_index,
        {
            while self.queues[queue_index].len() != 0
                invariant
                    self.wf(),
                    1 <= queue_index < self.num_levels,
                    self.num_levels == old(self).num_levels,
                    self.time_quanta@ == old(self).time_quanta@,
                    self.current_time == old(self).current_time,
                    self.queues@.len() == old_qs.len(),
                    old_qs == old(self).queues@,
                    old_qs.len() == self.num_levels,
                    self.queues@[0]@ + drained(self.queues@[queue_index as int]@) == old_qs[0]@
                        + drained_tiers(old_qs, queue_index as int + 1),
                    forall|q: int|
                        1 <= q < queue_index ==> (#[trigger] self.queues@[q])@.len() == 0,
                    forall|q: int|
                        queue_index < q < old_qs.len() ==> #[trigger] self.queues@[q] == old_qs[q],
                decreases self.queues@[queue_index as int]@.len(),
            {
                let ghost q0_before = self.queues@[0]@;
                let ghost tier_before = self.queues@[queue_index as int]@;
                let mut process = self.queues[queue_index].pop().unwrap();
                process.priority = 0;
                proof {
                    assert(process == reset_priority(tier_before.last()));
                }
                self.queues[0].push(process);
                proof {
                    let moved = reset_priority(tier_before.last());
                    assert(self.queues@[queue_index as int]@ =~= tier_before.drop_last());
                    assert(self.queues@[0]@ =~= q0_before + seq![moved]);
                    assert((q0_before + seq![moved]) + drained(tier_before.drop_last()) =~= q0_before
                        + drained(tier_before));
                }
            }
            proof {
                let qi = queue_index as int;
                assert(self.queues@[0]@ + drained(self.queues@[qi]@) =~= self.queues@[0]@);
            }
            queue_index = queue_index + 1;
        }
        proof {
            lemma_drained_tiers_len(old_qs, self.num_levels as int);
            lemma_tier_count_rest_empty(self.queues@, self.num_levels as int);
        }
    }

    /// Advances the clock by `elapsed_time`, then boosts if and only if the
    /// new clock value is an exact multiple of `BOOST_INTERVAL`. The check is
    /// made on every call, not only on a transition across a multiple: with
    /// `elapsed_time == 0` and the clock already on a multiple, the boost
    /// fires (again). Exactly one boost can fire per call.
    pub fn update_time(&mut self, elapsed_time: u32)
        requires
            old(self).wf(),
            old(self).current_time + elapsed_time <= u32::MAX,
        ensures
            final(self).wf(),
            final(self).num_levels == old(self).num_levels,
            final(self).time_quanta@ == old(self).time_quanta@,
            final(self).queues@.len() == old(self).queues@.len(),
            final(self).current_time == old(self).current_time + elapsed_time,
            final(self).total_count() == old(self).total_count(),
            // on a boost tick, exactly the effect of one priority_boost call
            (old(self).current_time + elapsed_time) % (BOOST_INTERVAL as int) == 0 ==> {
                &&& final(self).queues@[0]@ == old(self).queues@[0]@ + drained_tiers(
                    old(self).queues@,
                    old(self).num_levels as int,
                )
                &&& forall|q: int|
                    1 <= q < final(self).queues@.len()
                        ==> (#[trigger] final(self).queues@[q])@.len() == 0
            },
            // otherwise no tier is touched
            (old(self).current_time + elapsed_time) % (BOOST_INTERVAL as int) != 0
                ==> final(self).queues@ == old(self).queues@,
    {
        self.current_time = self.current_time + elapsed_time;
        if self.current_time % BOOST_INTERVAL == 0 {
            self.priority_boost();
        }
    }
}

} // verus!
