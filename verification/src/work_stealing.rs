//! Work stealing: one queue per worker, filled round-robin, and drained by
//! workers that look into their own queue first and into the others' next.

use crate::atomic_counter::AtomicCounter;
use crate::pool::{after_queued, Rejected, ThreadPool};
use crate::queue::{after_pop, front_of, Queue};
use crate::sync::LockPoisoned;
use vstd::prelude::*;

verus! {

/// The queue that worker `id` looks into at step `offset` of a scan over
/// `queues` queues: its own first, then its neighbours in a ring.
pub open spec fn scan_slot(id: nat, offset: nat, queues: nat) -> nat
    recommends
        queues > 0,
{
    (id + offset) % queues
}

/// The step of a scan at which worker `id` looks into queue `slot`.
pub open spec fn scan_offset(id: nat, slot: nat, queues: nat) -> nat
    recommends
        id < queues,
        slot < queues,
{
    if slot >= id {
        (slot - id) as nat
    } else {
        (slot + queues - id) as nat
    }
}

/// What a worker does next in its scan.
pub enum ScanStep<T> {
    /// A task was taken: run it, then scan again from the start.
    Run(T),
    /// Nothing was taken: look into the queue at this step next.
    Probe(usize),
    /// Every queue was tried in vain: wait at the worker's own queue.
    Block,
}

/// The step that follows a `try_pop` made at step `offset` of a scan over
/// `queues` queues. A locked queue and an empty one are both passed over at
/// once; only a task ends the scan early.
pub open spec fn scan_step<T>(offset: nat, queues: nat, taken: Option<Option<T>>) -> ScanStep<T> {
    match taken {
        Some(Some(task)) => ScanStep::Run(task),
        _ => if offset + 1 < queues {
            ScanStep::Probe((offset + 1) as usize)
        } else {
            ScanStep::Block
        },
    }
}

/// Whether a `try_pop` handed out a task.
pub open spec fn gave_task<T>(taken: Option<Option<T>>) -> bool {
    taken matches Some(Some(_))
}

/// What a scan ends with when it goes on from step `offset` and the
/// `try_pop` made at step `i` returns `probes[i]`: the first task that is
/// handed out, or `None` where the worker has to block.
pub open spec fn scan_from<T>(probes: Seq<Option<Option<T>>>, offset: nat) -> Option<T>
    decreases probes.len() - offset,
{
    if offset >= probes.len() {
        None
    } else {
        match probes[offset as int] {
            Some(Some(task)) => Some(task),
            _ => scan_from(probes, offset + 1),
        }
    }
}

/// What the attempts of a scan by worker `id` return when no queue is
/// locked and the queues hold `state`: for each step, what `pop_if_held`
/// gives for the queue that the step leads to.
pub open spec fn free_probes<T>(state: Seq<Seq<T>>, id: nat) -> Seq<Option<Option<T>>> {
    Seq::new(
        state.len(),
        |i: int| Some(front_of(state[scan_slot(id, i as nat, state.len()) as int])),
    )
}

/// The first queue, in the scan order of worker `id` from step `offset`
/// on, that holds a task.
pub open spec fn first_loaded<T>(state: Seq<Seq<T>>, id: nat, offset: nat) -> Option<nat>
    decreases state.len() - offset,
{
    if offset >= state.len() {
        None
    } else {
        let slot = scan_slot(id, offset, state.len());
        if state[slot as int].len() > 0 {
            Some(slot)
        } else {
            first_loaded(state, id, offset + 1)
        }
    }
}

/// The task that a scan by worker `id` ends with when no queue is locked.
pub open spec fn taken_by_scan<T>(state: Seq<Seq<T>>, id: nat) -> Option<T> {
    scan_from(free_probes(state, id), 0)
}

/// What the queues hold after such a scan: the queue that gave the task
/// has lost its first item, and nothing else has changed.
pub open spec fn after_scan<T>(state: Seq<Seq<T>>, id: nat) -> Seq<Seq<T>> {
    match first_loaded(state, id, 0) {
        Some(slot) => state.update(slot as int, after_pop(state[slot as int])),
        None => state,
    }
}

/// The tasks that the workers `ids` get, first to last, when they scan one
/// after another and no queue is locked.
pub open spec fn taken_by_scans<T>(state: Seq<Seq<T>>, ids: Seq<nat>) -> Seq<T>
    decreases ids.len(),
{
    if ids.len() == 0 {
        Seq::empty()
    } else {
        let rest = taken_by_scans(after_scan(state, ids[0]), ids.drop_first());
        match taken_by_scan(state, ids[0]) {
            Some(task) => seq![task] + rest,
            None => rest,
        }
    }
}

/// Computes `scan_slot` without overflow.
pub fn scan_target(id: usize, offset: usize, queues: usize) -> (slot: usize)
    requires
        id < queues,
        offset < queues,
    ensures
        slot == scan_slot(id as nat, offset as nat, queues as nat),
        slot < queues,
{
    let room: usize = queues - id;
    proof {
        lemma_scan_slot(id as nat, offset as nat, queues as nat);
    }
    if offset < room {
        id + offset
    } else {
        offset - room
    }
}

/// Decides the next step of a scan from what `try_pop` returned.
pub fn after_probe<T>(offset: usize, queues: usize, taken: Option<Option<T>>) -> (step: ScanStep<T>)
    requires
        offset < queues,
    ensures
        step == scan_step(offset as nat, queues as nat, taken),
{
    match taken {
        Some(Some(task)) => ScanStep::Run(task),
        _ => if offset + 1 < queues {
            ScanStep::Probe(offset + 1)
        } else {
            ScanStep::Block
        },
    }
}

/// Whether `probes` can be what the attempts of one scan by worker `id`
/// returned, first to last: there is at most one attempt per queue, and
/// the attempt at step `i` was made on queue `scan_slot(id, i, queues)`.
pub open spec fn scan_trace<T, E, F: Fn(usize) -> Result<Option<Option<T>>, E>>(
    probe: F,
    id: nat,
    queues: nat,
    probes: Seq<Option<Option<T>>>,
) -> bool {
    &&& probes.len() <= queues
    &&& forall|i: int|
        0 <= i < probes.len() ==> call_ensures(
            probe,
            (scan_slot(id, i as nat, queues) as usize,),
            Ok::<Option<Option<T>>, E>(#[trigger] probes[i]),
        )
}

/// One scan for worker `id` over `queues` queues, with `probe` as the
/// attempt on one queue.
///
/// The attempts are made in scan order, the worker's own queue first, and
/// no queue is tried twice. The second part of the result is what they
/// returned, first to last. The scan ends with the first task that an
/// attempt hands out; it ends without one only after every queue was tried
/// in vain; and it ends with the error of the first attempt that failed,
/// which is made only when no attempt before it handed out a task.
pub fn scan_with<T, E, F: Fn(usize) -> Result<Option<Option<T>>, E>>(
    id: usize,
    queues: usize,
    probe: &F,
) -> (found: (Result<Option<T>, E>, Ghost<Seq<Option<Option<T>>>>))
    requires
        id < queues,
        forall|slot: usize| slot < queues ==> call_requires(*probe, (slot,)),
    ensures
        scan_trace(*probe, id as nat, queues as nat, found.1@),
        found.0 matches Ok(task) ==> task == scan_from(found.1@, 0),
        found.0 matches Ok(None) ==> found.1@.len() == queues,
        found.0 matches Err(why) ==> found.1@.len() < queues && scan_from(found.1@, 0)
            == None::<T> && call_ensures(
            *probe,
            (scan_slot(id as nat, found.1@.len(), queues as nat) as usize,),
            Err::<Option<Option<T>>, E>(why),
        ),
{
    let ghost mut seen: Seq<Option<Option<T>>> = Seq::empty();
    let mut offset: usize = 0;
    loop
        invariant
            id < queues,
            offset < queues,
            seen.len() == offset,
            forall|slot: usize| slot < queues ==> call_requires(*probe, (slot,)),
            scan_trace(*probe, id as nat, queues as nat, seen),
            forall|i: int| 0 <= i < seen.len() ==> !gave_task(#[trigger] seen[i]),
        decreases queues - offset,
    {
        let slot: usize = scan_target(id, offset, queues);
        let taken = match probe(slot) {
            Ok(taken) => taken,
            Err(why) => {
                proof {
                    lemma_scan_blocks_on_nothing(seen, 0);
                }
                return (Err(why), Ghost(seen));
            },
        };
        proof {
            seen = seen.push(taken);
        }
        match after_probe(offset, queues, taken) {
            ScanStep::Run(task) => {
                proof {
                    lemma_scan_finds_first_task(seen, 0, offset as nat, task);
                }
                return (Ok(Some(task)), Ghost(seen));
            },
            ScanStep::Probe(next) => {
                offset = next;
            },
            ScanStep::Block => {
                proof {
                    lemma_scan_blocks_on_nothing(seen, 0);
                }
                return (Ok(None), Ghost(seen));
            },
        }
    }
}

/// The next task for worker `id`: one scan with `probe` as the attempt on
/// one queue and, only if the scan tried every queue in vain, one blocking
/// `wait` at the worker's own queue.
///
/// The second part of the result is what the attempts returned. A task
/// that the scan found is returned as it is, and `wait` is not called; the
/// error of a failed attempt is returned as it is, and `wait` is not
/// called; in the one case left, the result is what `wait` gave for `id`.
pub fn scan_then_wait<
    T,
    E,
    F: Fn(usize) -> Result<Option<Option<T>>, E>,
    W: Fn(usize) -> Result<T, E>,
>(id: usize, queues: usize, probe: &F, wait: &W) -> (next: (
    Result<T, E>,
    Ghost<Seq<Option<Option<T>>>>,
))
    requires
        id < queues,
        forall|slot: usize| slot < queues ==> call_requires(*probe, (slot,)),
        call_requires(*wait, (id,)),
    ensures
        scan_trace(*probe, id as nat, queues as nat, next.1@),
        match scan_from(next.1@, 0) {
            Some(task) => next.0 == Ok::<T, E>(task),
            None => if next.1@.len() == queues {
                call_ensures(*wait, (id,), next.0)
            } else {
                next.0 matches Err(why) && call_ensures(
                    *probe,
                    (scan_slot(id as nat, next.1@.len(), queues as nat) as usize,),
                    Err::<Option<Option<T>>, E>(why),
                )
            },
        },
{
    let (found, seen) = scan_with(id, queues, probe);
    match found {
        Ok(Some(task)) => (Ok(task), seen),
        Ok(None) => (wait(id), seen),
        Err(why) => (Err(why), seen),
    }
}

/// The dispatch state of a work-stealing pool: the ticket counter and one
/// queue per worker.
#[verifier::reject_recursive_types(T)]
pub struct WorkStealing<T> {
    next_thread: AtomicCounter,
    queues: Vec<Queue<T>>,
}

impl<T> WorkStealing<T> {
    #[verifier::type_invariant]
    spec fn well_formed(self) -> bool {
        &&& self.queues@.len() > 0
        &&& self.next_thread.modulus() == self.queues@.len()
    }

    /// The number of workers, which is the number of queues.
    pub closed spec fn workers(self) -> nat {
        self.queues@.len()
    }

    /// The dispatch state for `num_threads` workers, every queue empty.
    pub fn new(num_threads: usize) -> (pool: Self)
        requires
            num_threads > 0,
        ensures
            pool.workers() == num_threads,
    {
        let mut queues: Vec<Queue<T>> = Vec::new();
        let mut made: usize = 0;
        while made < num_threads
            invariant
                made <= num_threads,
                queues@.len() == made,
            decreases num_threads - made,
        {
            queues.push(Queue::new());
            made += 1;
        }
        Self { next_thread: AtomicCounter::new(num_threads), queues }
    }

    /// The number of workers.
    pub fn num_threads(&self) -> (count: usize)
        ensures
            count == self.workers(),
            count > 0,
    {
        proof {
            use_type_invariant(self);
        }
        self.queues.len()
    }

    /// The queue of worker `id`.
    pub closed spec fn queue_of(self, id: int) -> Queue<T> {
        self.queues@[id]
    }

    /// The queue of worker `id`.
    pub fn queue(&self, id: usize) -> (queue: &Queue<T>)
        requires
            id < self.workers(),
        ensures
            *queue == self.queue_of(id as int),
    {
        &self.queues[id]
    }

    /// Hands `task` to the queue of worker `id`, whatever the counter says.
    pub fn submit_to(&self, id: usize, task: T) -> (done: Result<(), LockPoisoned>)
        requires
            id < self.workers(),
    {
        self.queues[id].push(task)
    }

    /// One scan for worker `id`: tries each queue once without blocking,
    /// its own first, and returns the first task that it gets, or `None`
    /// when every queue was locked or empty at the moment it was tried.
    ///
    /// This is `scan_with`, the attempt on a queue being its `try_pop`.
    pub fn steal(&self, id: usize) -> (found: Result<Option<T>, LockPoisoned>)
        requires
            id < self.workers(),
    {
        let queues: usize = self.queues.len();
        let probe = |slot: usize| -> (taken: Result<Option<Option<T>>, LockPoisoned>)
            requires
                slot < self.queues@.len(),
            { self.queues[slot].try_pop() };
        scan_with(id, queues, &probe).0
    }

    /// The next task for worker `id`: what a scan finds, or else, blocking,
    /// the next task that reaches the worker's own queue.
    ///
    /// This is `scan_then_wait`, the attempt on a queue being its `try_pop`
    /// and the wait being the `pop` of the worker's own queue.
    pub fn next_task(&self, id: usize) -> (task: Result<T, LockPoisoned>)
        requires
            id < self.workers(),
    {
        let queues: usize = self.queues.len();
        let probe = |slot: usize| -> (taken: Result<Option<Option<T>>, LockPoisoned>)
            requires
                slot < self.queues@.len(),
            { self.queues[slot].try_pop() };
        let wait = |own: usize| -> (task: Result<T, LockPoisoned>)
            requires
                own < self.queues@.len(),
            { self.queues[own].pop() };
        scan_then_wait(id, queues, &probe, &wait).0
    }
}

impl<T> ThreadPool<T> for WorkStealing<T> {
    /// Hands `task` to the queue of the worker whose turn it is.
    ///
    /// Returns once the task is queued, not once it has run. It fails only
    /// on a poisoned lock.
    fn execute(&self, task: T) -> (accepted: Result<(), Rejected<T>>)
        ensures
            accepted matches Err(why) ==> why == Rejected::<T>::LockPoisoned,
    {
        proof {
            use_type_invariant(self);
        }
        let turn: usize = self.next_thread.fetch_incr();
        after_queued(self.submit_to(turn, task))
    }
}

/// `scan_slot` walks the ring: it adds the offset and starts over at zero
/// behind the last queue.
pub proof fn lemma_scan_slot(id: nat, offset: nat, queues: nat)
    requires
        id < queues,
        offset < queues,
    ensures
        scan_slot(id, offset, queues) == if id + offset < queues {
            id + offset
        } else {
            (id + offset - queues) as nat
        },
        scan_slot(id, offset, queues) < queues,
{
    if id + offset < queues {
        vstd::arithmetic::div_mod::lemma_small_mod(id + offset, queues);
    } else {
        let rest = (id + offset - queues) as int;
        assert((id + offset) as int == 1 * (queues as int) + rest) by (nonlinear_arith)
            requires
                rest == id + offset - queues,
        ;
        vstd::arithmetic::div_mod::lemma_fundamental_div_mod_converse_mod(
            (id + offset) as int,
            queues as int,
            1,
            rest,
        );
    }
}

/// A scan starts at the worker's own queue.
pub proof fn lemma_scan_starts_at_home(id: nat, queues: nat)
    requires
        id < queues,
    ensures
        scan_slot(id, 0, queues) == id,
{
    lemma_scan_slot(id, 0, queues);
}

/// A full scan looks into every queue: queue `slot` is the one tried at
/// step `scan_offset(id, slot, queues)`.
pub proof fn lemma_scan_reaches_every_queue(id: nat, slot: nat, queues: nat)
    requires
        id < queues,
        slot < queues,
    ensures
        scan_offset(id, slot, queues) < queues,
        scan_slot(id, scan_offset(id, slot, queues), queues) == slot,
{
    lemma_scan_slot(id, scan_offset(id, slot, queues), queues);
}

/// A full scan looks into no queue twice: two different steps lead to two
/// different queues.
pub proof fn lemma_scan_tries_no_queue_twice(id: nat, first: nat, second: nat, queues: nat)
    requires
        id < queues,
        first < queues,
        second < queues,
        first != second,
    ensures
        scan_slot(id, first, queues) != scan_slot(id, second, queues),
{
    lemma_scan_slot(id, first, queues);
    lemma_scan_slot(id, second, queues);
}

/// The steps that `after_probe` decides walk through `scan_from`: a task
/// ends the scan, a further step goes on with the next queue, and the scan
/// gives up exactly when no queue is left.
pub proof fn lemma_scan_follows_steps<T>(probes: Seq<Option<Option<T>>>, offset: nat)
    requires
        offset < probes.len() <= usize::MAX,
    ensures
        scan_from(probes, offset) == match scan_step(
            offset,
            probes.len(),
            probes[offset as int],
        ) {
            ScanStep::Run(task) => Some(task),
            ScanStep::Probe(next) => scan_from(probes, next as nat),
            ScanStep::Block => None,
        },
{
    if !gave_task(probes[offset as int]) && offset + 1 >= probes.len() {
        assert(scan_from(probes, offset + 1) == None::<T>);
    }
}

/// Stealing finds work: if some queue hands out a task when the scan gets
/// to it, and none did before, that task is what the scan ends with. So a
/// worker blocks only when every queue was locked or empty.
pub proof fn lemma_scan_finds_first_task<T>(
    probes: Seq<Option<Option<T>>>,
    offset: nat,
    hit: nat,
    task: T,
)
    requires
        probes.len() <= usize::MAX,
        offset <= hit < probes.len(),
        probes[hit as int] == Some(Some(task)),
        forall|i: int| offset <= i < hit ==> !gave_task(#[trigger] probes[i]),
    ensures
        scan_from(probes, offset) == Some(task),
    decreases hit - offset,
{
    if offset < hit {
        lemma_scan_finds_first_task(probes, offset + 1, hit, task);
    }
}

/// A scan in which no queue hands out a task ends without one, after every
/// queue was tried.
pub proof fn lemma_scan_blocks_on_nothing<T>(probes: Seq<Option<Option<T>>>, offset: nat)
    requires
        probes.len() <= usize::MAX,
        forall|i: int| offset <= i < probes.len() ==> !gave_task(#[trigger] probes[i]),
    ensures
        scan_from(probes, offset) == None::<T>,
    decreases probes.len() - offset,
{
    if offset < probes.len() {
        lemma_scan_blocks_on_nothing(probes, offset + 1);
    }
}

/// With no queue locked, a scan takes the first item of the first queue in
/// its order that holds one, and nothing if none does: stealing moves a
/// task out of one queue, and copies or loses none.
pub proof fn lemma_scan_takes_first_loaded<T>(state: Seq<Seq<T>>, id: nat, offset: nat)
    ensures
        scan_from(free_probes(state, id), offset) == match first_loaded(state, id, offset) {
            Some(slot) => Some(state[slot as int][0]),
            None => None,
        },
    decreases state.len() - offset,
{
    if offset < state.len() {
        lemma_scan_takes_first_loaded(state, id, offset + 1);
    }
}

/// Where one queue alone holds tasks, every worker's scan gets to it.
pub proof fn lemma_scan_finds_the_loaded_queue<T>(
    state: Seq<Seq<T>>,
    id: nat,
    offset: nat,
    loaded: nat,
)
    requires
        id < state.len(),
        loaded < state.len(),
        state[loaded as int].len() > 0,
        forall|j: int| 0 <= j < state.len() && j != loaded ==> (#[trigger] state[j]).len() == 0,
        offset <= scan_offset(id, loaded, state.len()),
    ensures
        first_loaded(state, id, offset) == Some(loaded),
    decreases scan_offset(id, loaded, state.len()) - offset,
{
    let queues = state.len();
    let reach = scan_offset(id, loaded, queues);
    lemma_scan_reaches_every_queue(id, loaded, queues);
    lemma_scan_slot(id, offset, queues);
    if offset < reach {
        lemma_scan_tries_no_queue_twice(id, offset, reach, queues);
        let slot = scan_slot(id, offset, queues) as int;
        assert(state[slot].len() == 0);
        lemma_scan_finds_the_loaded_queue(state, id, offset + 1, loaded);
    }
}

/// What `first_loaded` finds is a queue that holds a task, and where it
/// finds none, no queue from step `offset` on holds one.
pub proof fn lemma_first_loaded<T>(state: Seq<Seq<T>>, id: nat, offset: nat)
    requires
        id < state.len(),
    ensures
        match first_loaded(state, id, offset) {
            Some(slot) => slot < state.len() && state[slot as int].len() > 0,
            None => forall|step: nat|
                offset <= step < state.len() ==> state[#[trigger] scan_slot(
                    id,
                    step,
                    state.len(),
                ) as int].len() == 0,
        },
    decreases state.len() - offset,
{
    if offset < state.len() {
        lemma_scan_slot(id, offset, state.len());
        lemma_first_loaded(state, id, offset + 1);
    }
}

/// Stealing moves a task and neither copies nor loses one: with no queue
/// locked, a scan that ends with a task has taken the first item of one
/// queue, which has lost just that item, and every other queue is as it
/// was; a scan that ends without one found every queue empty and changed
/// nothing.
pub proof fn lemma_scan_moves_one_task<T>(state: Seq<Seq<T>>, id: nat)
    requires
        id < state.len(),
    ensures
        match taken_by_scan(state, id) {
            Some(task) => exists|slot: int|
                0 <= slot < state.len() && (#[trigger] state[slot]).len() > 0 && task
                    == state[slot][0] && after_scan(state, id) == state.update(
                    slot,
                    state[slot].drop_first(),
                ),
            None => after_scan(state, id) == state && forall|j: int|
                0 <= j < state.len() ==> (#[trigger] state[j]).len() == 0,
        },
{
    lemma_scan_takes_first_loaded(state, id, 0);
    lemma_first_loaded(state, id, 0);
    match first_loaded(state, id, 0) {
        Some(slot) => {
            assert(state[slot as int].drop_first() =~= after_pop(state[slot as int]));
        },
        None => {
            assert forall|j: int| 0 <= j < state.len() implies (#[trigger] state[j]).len()
                == 0 by {
                lemma_scan_reaches_every_queue(id, j as nat, state.len());
                let step = scan_offset(id, j as nat, state.len());
                assert(scan_slot(id, step, state.len()) == j);
            }
        },
    }
}

/// A backlog is stolen: where one queue alone holds tasks, and as many
/// scans are made one after another as it holds tasks, by whichever
/// workers and with no queue locked, every scan gets a task, and together
/// they get exactly the tasks of that queue, each once, in their order.
pub proof fn lemma_backlog_is_stolen<T>(state: Seq<Seq<T>>, loaded: nat, ids: Seq<nat>)
    requires
        loaded < state.len(),
        forall|j: int| 0 <= j < state.len() && j != loaded ==> (#[trigger] state[j]).len() == 0,
        forall|i: int| 0 <= i < ids.len() ==> #[trigger] ids[i] < state.len(),
        ids.len() == state[loaded as int].len(),
    ensures
        taken_by_scans(state, ids) == state[loaded as int],
    decreases ids.len(),
{
    let backlog = state[loaded as int];
    if ids.len() == 0 {
        assert(taken_by_scans(state, ids) =~= backlog);
    } else {
        let id = ids[0];
        lemma_scan_finds_the_loaded_queue(state, id, 0, loaded);
        lemma_scan_takes_first_loaded(state, id, 0);
        let next = after_scan(state, id);
        assert(next == state.update(loaded as int, after_pop(backlog)));
        assert forall|j: int| 0 <= j < next.len() && j != loaded implies (#[trigger] next[j]).len()
            == 0 by {
            assert(next[j] == state[j]);
        }
        let rest = ids.drop_first();
        assert forall|i: int| 0 <= i < rest.len() implies #[trigger] rest[i] < next.len() by {
            assert(rest[i] == ids[i + 1]);
        }
        lemma_backlog_is_stolen(next, loaded, rest);
        assert(seq![backlog[0]] + after_pop(backlog) =~= backlog);
    }
}

} // verus!
