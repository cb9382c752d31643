//! The single-threaded cooperative runtime: it resumes suspended protocol
//! coroutines against a logical clock and queues the events they emit.
use crate::event::{Event, Fail};
use crate::options::Options;
use crate::rng::{seeded_state, Rng};
use vstd::prelude::*;

verus! {

/// What a coroutine reports when it suspends or completes.
#[derive(Clone, Copy, Debug, PartialEq, Eq)]
pub enum Resumption {
    /// Suspended: resume it next tick (`None`) or not before `d` ticks from now.
    Yield(Option<u64>),
    /// Finished, with the value it computed or the failure it met.
    Complete(Result<u64, Fail>),
}

/// A suspendable protocol computation. The runtime owns it and resumes it; each
/// resumption hands back how it stopped and the events it emitted, in order.
pub trait Coroutine {
    fn resume(&mut self, now: u64) -> (Resumption, Vec<Event>);
}

/// The handle of a started coroutine, through which its result is read.
#[derive(PartialEq, Eq, Structural, Clone, Copy, Debug)]
pub struct Future {
    pub id: u64,
}

struct Task<C> {
    id: u64,
    deadline: u64,
    coroutine: C,
}

/// A batch of emitted events and where it came from: the task id of the
/// coroutine that emitted it, or `None` for an event emitted directly.
pub type Batch = (Option<u64>, Seq<Event>);

/// Every event of the batches, in the order of the batches.
pub open spec fn flatten(log: Seq<Batch>) -> Seq<Event>
    decreases log.len(),
{
    if log.len() == 0 {
        Seq::empty()
    } else {
        flatten(log.drop_last()) + log.last().1
    }
}

/// The ids of the tasks that are due at `now`, in task order, each as the
/// source of a batch.
pub open spec fn ready_sources(tasks: Seq<(u64, u64)>, now: u64) -> Seq<Option<u64>>
    decreases tasks.len(),
{
    if tasks.len() == 0 {
        Seq::empty()
    } else {
        let rest = ready_sources(tasks.drop_last(), now);
        if tasks.last().1 <= now {
            rest.push(Some(tasks.last().0))
        } else {
            rest
        }
    }
}

/// The tasks other than the one with id `id`, in their order.
pub open spec fn without_task(tasks: Seq<(u64, u64)>, id: u64) -> Seq<(u64, u64)>
    decreases tasks.len(),
{
    if tasks.len() == 0 {
        Seq::empty()
    } else {
        let rest = without_task(tasks.drop_last(), id);
        if tasks.last().0 != id {
            rest.push(tasks.last())
        } else {
            rest
        }
    }
}

/// When a coroutine that yielded `delay` at `now` is next due: never before
/// the next tick, and at the latest instant the clock can hold.
pub open spec fn next_deadline(now: u64, delay: Option<u64>) -> u64 {
    let d: int = match delay {
        Some(d) => if d == 0 { 1 } else { d as int },
        None => 1,
    };
    if now + d > u64::MAX { u64::MAX } else { (now + d) as u64 }
}

/// A queue without its oldest event; an empty queue stays empty.
pub open spec fn rest(q: Seq<Event>) -> Seq<Event> {
    if q.len() > 0 {
        q.drop_first()
    } else {
        q
    }
}

/// The oldest event of a queue, if any.
pub open spec fn front(q: Seq<Event>) -> Option<Event> {
    if q.len() > 0 {
        Some(q[0])
    } else {
        None
    }
}

proof fn lemma_flatten_push(log: Seq<Batch>, b: Batch)
    ensures
        flatten(log.push(b)) == flatten(log) + b.1,
{
    assert(log.push(b).drop_last() =~= log);
}

proof fn lemma_ready_sources_none(tasks: Seq<(u64, u64)>, now: u64)
    requires
        forall|i: int| 0 <= i < tasks.len() ==> #[trigger] tasks[i].1 > now,
    ensures
        ready_sources(tasks, now) == Seq::<Option<u64>>::empty(),
    decreases tasks.len(),
{
    if tasks.len() > 0 {
        let rest = tasks.drop_last();
        assert forall|i: int| 0 <= i < rest.len() implies #[trigger] rest[i].1 > now by {
            assert(rest[i] == tasks[i]);
        }
        lemma_ready_sources_none(rest, now);
        assert(tasks.last() == tasks[tasks.len() - 1]);
    }
}

proof fn lemma_ready_contains(tasks: Seq<(u64, u64)>, now: u64, a: int)
    requires
        0 <= a < tasks.len(),
        tasks[a].1 <= now,
    ensures
        exists|i: int|
            0 <= i < ready_sources(tasks, now).len() && ready_sources(tasks, now)[i] == Some(
                tasks[a].0,
            ),
    decreases tasks.len(),
{
    let d = tasks.drop_last();
    if a == tasks.len() - 1 {
        let i = ready_sources(d, now).len() as int;
        assert(ready_sources(tasks, now)[i] == Some(tasks[a].0));
    } else {
        assert(d[a] == tasks[a]);
        lemma_ready_contains(d, now, a);
        let i = choose|i: int|
            0 <= i < ready_sources(d, now).len() && ready_sources(d, now)[i] == Some(d[a].0);
        assert(ready_sources(tasks, now)[i] == Some(tasks[a].0));
    }
}

/// Coroutines due at one instant run in the order in which they were started:
/// when task `a` was started before task `b` and both are due at `now`, the
/// batch that `a` emits is logged before the batch of `b`, so the events of `a`
/// stand before those of `b` in the queue.
pub proof fn lemma_ready_order(tasks: Seq<(u64, u64)>, now: u64, a: int, b: int)
    requires
        0 <= a < b < tasks.len(),
        tasks[a].1 <= now,
        tasks[b].1 <= now,
    ensures
        exists|i: int, j: int|
            0 <= i < j < ready_sources(tasks, now).len() && ready_sources(tasks, now)[i] == Some(
                tasks[a].0,
            ) && ready_sources(tasks, now)[j] == Some(tasks[b].0),
    decreases tasks.len(),
{
    let d = tasks.drop_last();
    assert(d[a] == tasks[a]);
    if b == tasks.len() - 1 {
        lemma_ready_contains(d, now, a);
        let i = choose|i: int|
            0 <= i < ready_sources(d, now).len() && ready_sources(d, now)[i] == Some(d[a].0);
        let j = ready_sources(d, now).len() as int;
        assert(ready_sources(tasks, now)[i] == Some(tasks[a].0));
        assert(ready_sources(tasks, now)[j] == Some(tasks[b].0));
    } else {
        assert(d[b] == tasks[b]);
        lemma_ready_order(d, now, a, b);
        let (i, j) = choose|i: int, j: int|
            0 <= i < j < ready_sources(d, now).len() && ready_sources(d, now)[i] == Some(d[a].0)
                && ready_sources(d, now)[j] == Some(d[b].0);
        assert(ready_sources(tasks, now)[i] == Some(tasks[a].0));
        assert(ready_sources(tasks, now)[j] == Some(tasks[b].0));
    }
}

fn next_deadline_exec(now: u64, delay: Option<u64>) -> (r: u64)
    ensures
        r == next_deadline(now, delay),
{
    let d: u64 = match delay {
        Some(d) => if d == 0 { 1 } else { d },
        None => 1,
    };
    if d > u64::MAX - now {
        u64::MAX
    } else {
        now + d
    }
}

pub struct Runtime<C> {
    events: Vec<Event>,
    options: Options,
    now: u64,
    tasks: Vec<Task<C>>,
    results: Vec<(u64, Result<u64, Fail>)>,
    next_id: u64,
    rng: Rng,
    log: Ghost<Seq<Batch>>,
    consumed: Ghost<nat>,
}

impl<C: Coroutine> Runtime<C> {
    /// The queued events, oldest first.
    pub closed spec fn events(&self) -> Seq<Event> {
        self.events@
    }

    pub closed spec fn clock(&self) -> u64 {
        self.now
    }

    pub closed spec fn options_spec(&self) -> Options {
        self.options
    }

    pub closed spec fn rng_spec(&self) -> Rng {
        self.rng
    }

    /// The live coroutines as (task id, deadline), in the order they were started.
    pub closed spec fn tasks(&self) -> Seq<(u64, u64)> {
        self.tasks@.map_values(|t: Task<C>| (t.id, t.deadline))
    }

    /// The results of the coroutines that completed, by task id, in order of completion.
    pub closed spec fn results(&self) -> Seq<(u64, Result<u64, Fail>)> {
        self.results@
    }

    /// The id that the next started coroutine gets.
    pub closed spec fn next_id_spec(&self) -> u64 {
        self.next_id
    }

    /// Every batch of events ever emitted, in the order of emission.
    pub closed spec fn log(&self) -> Seq<Batch> {
        self.log@
    }

    /// How many emitted events were taken off the queue.
    pub closed spec fn consumed(&self) -> nat {
        self.consumed@
    }

    /// No coroutine is due at `now`.
    pub open spec fn quiescent(&self, now: u64) -> bool {
        forall|i: int| 0 <= i < self.tasks().len() ==> #[trigger] self.tasks()[i].1 > now
    }

    /// The queue holds exactly the emitted events that were not taken off yet,
    /// in the order in which they were emitted.
    pub closed spec fn well_formed(&self) -> bool {
        &&& self.consumed@ + self.events@.len() == flatten(self.log@).len()
        &&& flatten(self.log@).subrange(self.consumed@ as int, flatten(self.log@).len() as int)
            == self.events@
    }

    pub fn from_options(now: u64, options: Options) -> (r: Self)
        ensures
            r.well_formed(),
            r.events() == Seq::<Event>::empty(),
            r.clock() == now,
            r.options_spec() == options,
            r.rng_spec().state_spec() == seeded_state(options.rng_seed),
            r.tasks() == Seq::<(u64, u64)>::empty(),
            r.results() == Seq::<(u64, Result<u64, Fail>)>::empty(),
            r.next_id_spec() == 0,
            r.log() == Seq::<Batch>::empty(),
            r.consumed() == 0,
    {
        let rng = Rng::from_seed(options.rng_seed);
        let r = Runtime {
            events: Vec::new(),
            options,
            now,
            tasks: Vec::new(),
            results: Vec::new(),
            next_id: 0,
            rng,
            log: Ghost(Seq::empty()),
            consumed: Ghost(0),
        };
        assert(r.tasks() =~= Seq::<(u64, u64)>::empty());
        assert(flatten(r.log@) =~= Seq::<Event>::empty());
        assert(flatten(r.log@).subrange(0, 0) =~= r.events@);
        r
    }

    pub fn options(&self) -> (r: Options)
        ensures
            r == self.options_spec(),
    {
        self.options
    }

    pub fn now(&self) -> (r: u64)
        ensures
            r == self.clock(),
    {
        self.now
    }
    /// Appends `event` to the queue.
    pub fn emit_event(&mut self, event: Event)
        requires
            old(self).well_formed(),
        ensures
            final(self).well_formed(),
            final(self).events() == old(self).events().push(event),
            final(self).log() == old(self).log().push((None::<u64>, seq![event])),
            final(self).consumed() == old(self).consumed(),
            final(self).clock() == old(self).clock(),
            final(self).tasks() == old(self).tasks(),
            final(self).results() == old(self).results(),
            final(self).next_id_spec() == old(self).next_id_spec(),
            final(self).options_spec() == old(self).options_spec(),
            final(self).rng_spec() == old(self).rng_spec(),
    {
        let ghost batch: Batch = (None::<u64>, seq![event]);
        proof {
            lemma_flatten_push(self.log@, batch);
        }
        self.events.push(event);
        self.log = Ghost(self.log@.push(batch));
        proof {
            let f = flatten(old(self).log@);
            assert(flatten(self.log@) == f + seq![event]);
            assert((f + seq![event]).subrange(self.consumed@ as int, (f + seq![event]).len() as int)
                =~= f.subrange(self.consumed@ as int, f.len() as int).push(event));
        }
    }

    /// Takes ownership of `coroutine`, due at once; returns its handle.
    pub fn start_coroutine(&mut self, coroutine: C) -> (r: Future)
        requires
            old(self).next_id_spec() < u64::MAX,
        ensures
            r.id == old(self).next_id_spec(),
            final(self).next_id_spec() == old(self).next_id_spec() + 1,
            final(self).tasks() == old(self).tasks().push((r.id, old(self).clock())),
            final(self).events() == old(self).events(),
            final(self).log() == old(self).log(),
            final(self).consumed() == old(self).consumed(),
            final(self).clock() == old(self).clock(),
            final(self).results() == old(self).results(),
            final(self).options_spec() == old(self).options_spec(),
            final(self).rng_spec() == old(self).rng_spec(),
            final(self).well_formed() == old(self).well_formed(),
    {
        let id = self.next_id;
        self.tasks.push(Task { id, deadline: self.now, coroutine });
        self.next_id = id + 1;
        assert(self.tasks() =~= old(self).tasks().push((id, old(self).clock())));
        Future { id }
    }

    /// The generator of random numbers that the protocols draw from.
    pub fn rng_mut(&mut self) -> (r: &mut Rng)
        ensures
            *r == old(self).rng_spec(),
            final(self).rng_spec() == *final(r),
            final(self).events() == old(self).events(),
            final(self).log() == old(self).log(),
            final(self).consumed() == old(self).consumed(),
            final(self).clock() == old(self).clock(),
            final(self).tasks() == old(self).tasks(),
            final(self).results() == old(self).results(),
            final(self).next_id_spec() == old(self).next_id_spec(),
            final(self).options_spec() == old(self).options_spec(),
            final(self).well_formed() == old(self).well_formed(),
    {
        &mut self.rng
    }
    /// Moves the clock to `now` and resumes, once each and in the order in
    /// which they were started, the coroutines that are due at `now`. Their
    /// events join the queue in that order; a coroutine that yields is due
    /// again no earlier than the next tick, one that completes leaves its
    /// result behind. Returns whether any coroutine ran.
    pub fn run_ready(&mut self, now: u64) -> (r: bool)
        requires
            old(self).well_formed(),
            old(self).clock() <= now,
            now < u64::MAX,
        ensures
            Self::drained(old(self), final(self), now),
            final(self).consumed() == old(self).consumed(),
            r == (ready_sources(old(self).tasks(), now).len() > 0),
            old(self).quiescent(now) ==> final(self).events() == old(self).events() && !r,
    {
        let ghost orig = self.tasks();
        let ghost log0 = self.log@;
        let ghost events0 = self.events@;
        let mut pending: Vec<Task<C>> = Vec::new();
        std::mem::swap(&mut pending, &mut self.tasks);
        let ghost pend0 = pending@;
        assert(orig == pend0.map_values(|t: Task<C>| (t.id, t.deadline)));
        self.now = now;
        let mut ran = false;
        let ghost mut k: int = 0;
        assert(orig.take(0) =~= Seq::<(u64, u64)>::empty());
        assert(self.tasks() =~= orig.take(0));
        assert(self.log@.subrange(log0.len() as int, self.log@.len() as int) =~= Seq::<Batch>::empty());
        assert(self.log@.subrange(0, log0.len() as int) =~= log0);
        assert(self.results@.subrange(0, old(self).results@.len() as int) =~= old(self).results@);
        while pending.len() > 0
            invariant
                0 <= k <= pend0.len(),
                pending@ == pend0.subrange(k, pend0.len() as int),
                orig == pend0.map_values(|t: Task<C>| (t.id, t.deadline)),
                self.well_formed(),
                self.now == now,
                now < u64::MAX,
                self.consumed@ == old(self).consumed@,
                self.options == old(self).options,
                self.rng == old(self).rng,
                self.next_id == old(self).next_id,
                self.results@.len() >= old(self).results@.len(),
                self.results@.subrange(0, old(self).results@.len() as int) == old(self).results@,
                self.log@.len() >= log0.len(),
                self.log@.subrange(0, log0.len() as int) == log0,
                self.log@.subrange(log0.len() as int, self.log@.len() as int).map_values(
                    |b: Batch| b.0,
                ) == ready_sources(orig.take(k), now),
                ran == (ready_sources(orig.take(k), now).len() > 0),
                forall|i: int| 0 <= i < self.tasks().len() ==> #[trigger] self.tasks()[i].1 > now,
                ready_sources(orig.take(k), now).len() == 0 ==> {
                    &&& self.tasks() == orig.take(k)
                    &&& self.log@ == log0
                    &&& self.events@ == events0
                },
            decreases pending.len(),
        {
            let mut task = pending.remove(0);
            let ghost tasks_before = self.tasks();
            let ghost log_before = self.log@;
            proof {
                assert(task == pend0[k]);
                assert(orig[k] == (task.id, task.deadline));
                assert(orig.take(k + 1).drop_last() =~= orig.take(k));
                assert(orig.take(k + 1).last() == orig[k]);
            }
            if task.deadline <= now {
                let (res, mut emitted) = task.coroutine.resume(now);
                let ghost batch: Batch = (Some(task.id), emitted@);
                proof {
                    lemma_flatten_push(self.log@, batch);
                }
                let ghost events_before = self.events@;
                self.events.append(&mut emitted);
                self.log = Ghost(self.log@.push(batch));
                proof {
                    let f = flatten(log_before);
                    let c = self.consumed@ as int;
                    assert((f + batch.1).subrange(c, (f + batch.1).len() as int) =~= f.subrange(
                        c,
                        f.len() as int,
                    ) + batch.1);
                    assert(self.log@.subrange(0, log0.len() as int) =~= log_before.subrange(
                        0,
                        log0.len() as int,
                    ));
                    assert(self.log@.subrange(log0.len() as int, self.log@.len() as int) =~= log_before.subrange(
                        log0.len() as int,
                        log_before.len() as int,
                    ).push(batch));
                }
                match res {
                    Resumption::Yield(delay) => {
                        task.deadline = next_deadline_exec(now, delay);
                        self.tasks.push(task);
                        assert(self.tasks() =~= tasks_before.push((task.id, task.deadline)));
                    },
                    Resumption::Complete(result) => {
                        let ghost results_before = self.results@;
                        self.results.push((task.id, result));
                        assert(self.results@.subrange(0, old(self).results@.len() as int) =~= results_before.subrange(
                            0,
                            old(self).results@.len() as int,
                        ));
                    },
                }
                ran = true;
                proof {
                    assert(self.log@.subrange(log0.len() as int, self.log@.len() as int).map_values(
                        |b: Batch| b.0,
                    ) =~= log_before.subrange(log0.len() as int, log_before.len() as int).map_values(
                        |b: Batch| b.0,
                    ).push(Some(task.id)));
                }
            } else {
                self.tasks.push(task);
                assert(self.tasks() =~= tasks_before.push((task.id, task.deadline)));
                proof {
                    if ready_sources(orig.take(k), now).len() == 0 {
                        assert(self.tasks() =~= orig.take(k + 1));
                    }
                }
            }
            proof {
                k = k + 1;
            }
        }
        proof {
            assert(orig.take(k) =~= orig);
            if ready_sources(orig, now).len() == 0 {
                assert(self.log@ == log0);
            }
            if old(self).quiescent(now) {
                lemma_ready_sources_none(orig, now);
            }
        }
        ran
    }
    /// The result of the coroutine behind `future`, once it has completed.
    pub fn coroutine_result(&self, future: Future) -> (r: Option<Result<u64, Fail>>)
        ensures
            r matches Some(res) ==> exists|i: int|
                0 <= i < self.results().len() && #[trigger] self.results()[i] == (future.id, res),
            r is None ==> forall|i: int|
                0 <= i < self.results().len() ==> (#[trigger] self.results()[i]).0 != future.id,
    {
        let mut i: usize = 0;
        while i < self.results.len()
            invariant
                i <= self.results@.len(),
                forall|j: int| 0 <= j < i ==> (#[trigger] self.results@[j]).0 != future.id,
            decreases self.results@.len() - i,
        {
            if self.results[i].0 == future.id {
                assert(self.results()[i as int] == (future.id, self.results[i as int].1));
                return Some(self.results[i].1);
            }
            i = i + 1;
        }
        None
    }

    /// Cancels the coroutine behind `future`: it is dropped without being
    /// resumed again. Returns whether it was still live.
    pub fn cancel(&mut self, future: Future) -> (r: bool)
        requires
            old(self).well_formed(),
        ensures
            final(self).well_formed(),
            final(self).tasks() == without_task(old(self).tasks(), future.id),
            r == exists|i: int|
                0 <= i < old(self).tasks().len() && (#[trigger] old(self).tasks()[i]).0 == future.id,
            final(self).events() == old(self).events(),
            final(self).log() == old(self).log(),
            final(self).consumed() == old(self).consumed(),
            final(self).clock() == old(self).clock(),
            final(self).results() == old(self).results(),
            final(self).next_id_spec() == old(self).next_id_spec(),
            final(self).options_spec() == old(self).options_spec(),
            final(self).rng_spec() == old(self).rng_spec(),
    {
        let ghost orig = self.tasks();
        let mut pending: Vec<Task<C>> = Vec::new();
        std::mem::swap(&mut pending, &mut self.tasks);
        let ghost pend0 = pending@;
        assert(orig == pend0.map_values(|t: Task<C>| (t.id, t.deadline)));
        let mut found = false;
        let ghost mut k: int = 0;
        assert(orig.take(0) =~= Seq::<(u64, u64)>::empty());
        assert(self.tasks() =~= without_task(orig.take(0), future.id));
        while pending.len() > 0
            invariant
                0 <= k <= pend0.len(),
                pending@ == pend0.subrange(k, pend0.len() as int),
                orig == pend0.map_values(|t: Task<C>| (t.id, t.deadline)),
                self.tasks() == without_task(orig.take(k), future.id),
                found == exists|i: int| 0 <= i < k && (#[trigger] orig[i]).0 == future.id,
                self.events == old(self).events,
                self.log == old(self).log,
                self.consumed == old(self).consumed,
                self.now == old(self).now,
                self.results == old(self).results,
                self.next_id == old(self).next_id,
                self.options == old(self).options,
                self.rng == old(self).rng,
            decreases pending.len(),
        {
            let task = pending.remove(0);
            let ghost tasks_before = self.tasks();
            proof {
                assert(task == pend0[k]);
                assert(orig[k] == (task.id, task.deadline));
                assert(orig.take(k + 1).drop_last() =~= orig.take(k));
                assert(orig.take(k + 1).last() == orig[k]);
            }
            if task.id == future.id {
                found = true;
            } else {
                self.tasks.push(task);
                assert(self.tasks() =~= tasks_before.push((task.id, task.deadline)));
            }
            proof {
                k = k + 1;
            }
        }
        assert(orig.take(k) =~= orig);
        found
    }

    /// The queue is what was emitted and not taken yet, oldest first.
    pub proof fn lemma_queue_is_unconsumed(&self)
        requires
            self.well_formed(),
        ensures
            self.consumed() + self.events().len() == flatten(self.log()).len(),
            self.events() == flatten(self.log()).subrange(
                self.consumed() as int,
                flatten(self.log()).len() as int,
            ),
    {
    }

    /// What running the due coroutines at `now` leaves: a well-formed runtime,
    /// quiescent at `now`, whose log extends the old one by one batch per
    /// coroutine that was due, in task order; nothing changes where none was due.
    pub open spec fn drained(pre: &Self, post: &Self, now: u64) -> bool {
        &&& post.well_formed()
        &&& post.clock() == now
        &&& post.quiescent(now)
        &&& post.log().len() >= pre.log().len()
        &&& post.log().subrange(0, pre.log().len() as int) == pre.log()
        &&& post.log().subrange(pre.log().len() as int, post.log().len() as int).map_values(
            |b: Batch| b.0,
        ) == ready_sources(pre.tasks(), now)
        &&& pre.quiescent(now) ==> post.log() == pre.log() && post.tasks() == pre.tasks()
        &&& post.results().len() >= pre.results().len()
        &&& post.results().subrange(0, pre.results().len() as int) == pre.results()
        &&& post.next_id_spec() == pre.next_id_spec()
        &&& post.options_spec() == pre.options_spec()
        &&& post.rng_spec() == pre.rng_spec()
    }

    /// `peek(now)` drains the runtime and shows the oldest queued event; the
    /// queue keeps it, and where nothing was due the queue is as it was.
    pub open spec fn peek_post(pre: &Self, post: &Self, now: u64, shown: Option<Event>) -> bool {
        &&& Self::drained(pre, post, now)
        &&& post.consumed() == pre.consumed()
        &&& shown == front(post.events())
        &&& pre.quiescent(now) ==> post.events() == pre.events()
    }

    /// `poll(now)` drains the runtime and takes the oldest emitted event that
    /// was not taken yet, if there is one; the queue is what remains after it,
    /// and where nothing was due that is the old queue without its head.
    pub open spec fn poll_post(pre: &Self, post: &Self, now: u64, taken: Option<Event>) -> bool {
        let emitted = flatten(post.log());
        &&& Self::drained(pre, post, now)
        &&& taken == front(emitted.subrange(pre.consumed() as int, emitted.len() as int))
        &&& post.events() == rest(emitted.subrange(pre.consumed() as int, emitted.len() as int))
        &&& pre.quiescent(now) ==> post.events() == rest(pre.events())
        &&& post.consumed() == pre.consumed() + (if taken is Some { 1nat } else { 0nat })
    }

    /// Runs the coroutines that are due at `now`, then shows the oldest queued
    /// event without taking it.
    pub fn peek(&mut self, now: u64) -> (r: Option<&Event>)
        requires
            old(self).well_formed(),
            old(self).clock() <= now,
            now < u64::MAX,
        ensures
            Self::peek_post(
                old(self),
                final(self),
                now,
                match r {
                    Some(e) => Some(*e),
                    None => None,
                },
            ),
    {
        self.run_ready(now);
        if self.events.len() > 0 {
            Some(&self.events[0])
        } else {
            None
        }
    }

    /// Runs the coroutines that are due at `now`, then takes the oldest queued
    /// event off the queue.
    pub fn poll(&mut self, now: u64) -> (r: Option<Event>)
        requires
            old(self).well_formed(),
            old(self).clock() <= now,
            now < u64::MAX,
        ensures
            Self::poll_post(old(self), final(self), now, r),
    {
        self.run_ready(now);
        let ghost c = self.consumed@;
        let ghost f = flatten(self.log@);
        let ghost t = self.tasks();
        assert(f.subrange(c as int, f.len() as int) == self.events@);
        if self.events.len() > 0 {
            let e = self.events.remove(0);
            self.consumed = Ghost(c + 1nat);
            proof {
                assert(f.subrange((c + 1) as int, f.len() as int) =~= f.subrange(c as int, f.len() as int).drop_first());
                assert(self.events@ =~= f.subrange(c as int, f.len() as int).drop_first());
                assert(self.tasks() == t);
            }
            Some(e)
        } else {
            None
        }
    }

    /// Peeking and then polling at one instant agree. `peek` leaves the runtime
    /// quiescent at `now`, so a `poll` at the same instant runs nothing and
    /// takes the very event that was shown; a second `peek` then shows the
    /// event after it, or none.
    pub proof fn lemma_peek_then_poll(
        s0: &Self,
        s1: &Self,
        s2: &Self,
        s3: &Self,
        now: u64,
        shown: Option<Event>,
        taken: Option<Event>,
        shown_next: Option<Event>,
    )
        requires
            Self::peek_post(s0, s1, now, shown),
            Self::poll_post(s1, s2, now, taken),
            Self::peek_post(s2, s3, now, shown_next),
        ensures
            taken == shown,
            shown_next == front(rest(s1.events())),
            s3.events() == rest(s1.events()),
    {
        let f = flatten(s2.log());
        assert(s2.log() == s1.log());
        assert(f.subrange(s1.consumed() as int, f.len() as int) == s1.events());
        if s1.events().len() > 0 {
            assert(f.subrange(s2.consumed() as int, f.len() as int) =~= s1.events().drop_first());
        }
        assert(s3.log() == s2.log());
    }
}

} // verus!
