use vstd::prelude::*;

use crate::text::{first_where, lemma_first_where};

verus! {

/// Receives a notification when a task starts and when its result is taken in.
pub trait ProgressListener {
    fn on_start(&mut self, name: &str);

    fn on_finish(&mut self, name: &str);
}

/// A listener that ignores every notification.
pub struct NullProgressListener;

impl ProgressListener for NullProgressListener {
    fn on_start(&mut self, name: &str) {
    }

    fn on_finish(&mut self, name: &str) {
    }
}

/// Where the runner stands between two events.
#[derive(Debug, PartialEq, Eq, Clone, Copy, Structural)]
pub enum Phase {
    /// No call is under way.
    Idle,
    /// A task was submitted; results that are ready are being taken in.
    Polling,
    /// A task was submitted and every slot is busy: waiting for a result.
    Blocked,
    /// Waiting for every task in flight to finish.
    Draining,
    /// The runner is being discarded: taking in every result that is left,
    /// whatever it is.
    TearingDown,
}

/// What the runner learns from the world.
pub enum Event {
    /// A task with this name is submitted.
    Submit(String),
    /// The task in `slot` finished, with an error when `failed`.
    Completed { slot: usize, failed: bool },
    /// No result was ready.
    NothingReady,
    /// The caller waits for every task in flight.
    Finish,
    /// The runner is discarded: its remaining results are taken in and their
    /// errors dropped.
    Teardown,
    /// The caller stops following the tasks in flight: they are left to run
    /// on their own, and their results are never taken in.
    Abandon,
}

/// What the runner asks of the world next.
#[derive(Debug, PartialEq, Eq, Clone, Copy, Structural)]
pub enum Action {
    /// Take in a result if one is ready, without blocking.
    Poll,
    /// Block until the next result arrives.
    Wait,
    /// Start the submitted task in `slot`.
    Start { slot: usize },
    /// Hand the error of the task that just finished to the caller.
    Fail,
    /// Nothing is left to do: the call succeeds.
    Done,
}

/// The answer to one event: the name of the task whose result was taken in,
/// if any (its listener is told), and the next action.
pub struct Step {
    pub finished: Option<String>,
    pub action: Action,
}

/// The decisions of a runner of named tasks in at most a fixed number of
/// slots, which stops starting tasks at the first error it sees.
pub struct Dispatcher {
    slots: Vec<Option<String>>,
    pending: Option<String>,
    phase: Phase,
}

pub open spec fn opt_view(o: Option<String>) -> Option<Seq<char>> {
    match o {
        Some(s) => Some(s@),
        None => None,
    }
}

/// The runner's state: the name of the task in each slot, the name of the
/// task being submitted, and the phase.
pub struct DispatcherView {
    pub slots: Seq<Option<Seq<char>>>,
    pub pending: Option<Seq<char>>,
    pub phase: Phase,
}

/// Holds of the free slots of `s`.
pub open spec fn is_free(s: Seq<Option<Seq<char>>>) -> spec_fn(int) -> bool {
    |j: int| s[j] is None
}

/// The lowest free slot, or the number of slots when none is free.
pub open spec fn first_free(s: Seq<Option<Seq<char>>>) -> int {
    first_where(0, s.len() as int, is_free(s))
}

/// The number of busy slots.
pub open spec fn busy_count(s: Seq<Option<Seq<char>>>) -> nat
    decreases s.len(),
{
    if s.len() == 0 {
        0
    } else {
        busy_count(s.drop_last()) + if s.last() is Some {
            1nat
        } else {
            0
        }
    }
}

pub open spec fn all_busy(s: Seq<Option<Seq<char>>>) -> bool {
    forall|j: int| 0 <= j < s.len() ==> (#[trigger] s[j]) is Some
}

pub open spec fn all_free(s: Seq<Option<Seq<char>>>) -> bool {
    forall|j: int| 0 <= j < s.len() ==> (#[trigger] s[j]) is None
}

proof fn lemma_first_free(s: Seq<Option<Seq<char>>>)
    ensures
        0 <= first_free(s) <= s.len(),
        first_free(s) < s.len() ==> s[first_free(s)] is None,
        forall|j: int| 0 <= j < first_free(s) ==> (#[trigger] s[j]) is Some,
        all_busy(s) <==> first_free(s) == s.len(),
{
    lemma_first_where(0, s.len() as int, is_free(s));
    assert forall|j: int| 0 <= j < first_free(s) implies (#[trigger] s[j]) is Some by {
        assert(!is_free(s)(j));
    }
}

/// The events that the runner can take in state `s`.
pub open spec fn accepts(s: DispatcherView, e: Event) -> bool {
    match e {
        Event::Submit(_) => s.phase == Phase::Idle,
        Event::Finish => s.phase == Phase::Idle,
        Event::Teardown => s.phase == Phase::Idle,
        Event::Abandon => s.phase == Phase::Idle,
        Event::NothingReady => s.phase == Phase::Polling,
        Event::Completed { slot, failed } => s.phase != Phase::Idle && slot < s.slots.len()
            && s.slots[slot as int] is Some,
    }
}

/// `n` free slots.
pub open spec fn no_tasks(n: nat) -> Seq<Option<Seq<char>>> {
    Seq::new(n, |i: int| None::<Seq<char>>)
}

/// The next state, the name of the task whose result was taken in, and the
/// next action, for the event `e` in state `s`.
pub open spec fn next(s: DispatcherView, e: Event) -> (DispatcherView, Option<Seq<char>>, Action) {
    match e {
        Event::Submit(name) => (
            DispatcherView { slots: s.slots, pending: Some(name@), phase: Phase::Polling },
            None,
            Action::Poll,
        ),
        Event::Finish => if all_free(s.slots) {
            (s, None, Action::Done)
        } else {
            (DispatcherView { slots: s.slots, pending: None, phase: Phase::Draining }, None, Action::Wait)
        },
        Event::Teardown => if all_free(s.slots) {
            (s, None, Action::Done)
        } else {
            (DispatcherView { slots: s.slots, pending: None, phase: Phase::TearingDown }, None, Action::Wait)
        },
        Event::Abandon => (
            DispatcherView { slots: no_tasks(s.slots.len()), pending: None, phase: Phase::Idle },
            None,
            Action::Done,
        ),
        Event::NothingReady => if all_busy(s.slots) {
            (DispatcherView { slots: s.slots, pending: s.pending, phase: Phase::Blocked }, None, Action::Wait)
        } else {
            (
                DispatcherView {
                    slots: s.slots.update(first_free(s.slots), s.pending),
                    pending: None,
                    phase: Phase::Idle,
                },
                None,
                Action::Start { slot: first_free(s.slots) as usize },
            )
        },
        Event::Completed { slot, failed } => {
            let name = s.slots[slot as int];
            let freed = s.slots.update(slot as int, None);
            if s.phase == Phase::TearingDown {
                if all_free(freed) {
                    (DispatcherView { slots: freed, pending: None, phase: Phase::Idle }, name, Action::Done)
                } else {
                    (DispatcherView { slots: freed, pending: None, phase: Phase::TearingDown }, name, Action::Wait)
                }
            } else if failed {
                (DispatcherView { slots: freed, pending: None, phase: Phase::Idle }, name, Action::Fail)
            } else if s.phase == Phase::Polling {
                (DispatcherView { slots: freed, pending: s.pending, phase: Phase::Polling }, name, Action::Poll)
            } else if s.phase == Phase::Blocked {
                (
                    DispatcherView {
                        slots: freed.update(first_free(freed), s.pending),
                        pending: None,
                        phase: Phase::Idle,
                    },
                    name,
                    Action::Start { slot: first_free(freed) as usize },
                )
            } else if all_free(freed) {
                (DispatcherView { slots: freed, pending: None, phase: Phase::Idle }, name, Action::Done)
            } else {
                (DispatcherView { slots: freed, pending: None, phase: Phase::Draining }, name, Action::Wait)
            }
        },
    }
}

/// The runner's states: a task being submitted exactly
/// while results are polled or awaited for it.
pub open spec fn valid_state(s: DispatcherView) -> bool {
    &&& s.slots.len() <= usize::MAX
    &&& (s.phase == Phase::Polling || s.phase == Phase::Blocked) <==> s.pending is Some
    &&& s.phase == Phase::Blocked ==> all_busy(s.slots)
}

/// How many processors the host offers.
/// Relies on `num_cpus::get`, which returns at least one.
#[verifier::external_body]
fn cpu_count() -> (r: usize)
    ensures
        r >= 1,
{
    num_cpus::get()
}

fn free_slots(n: usize) -> (r: Vec<Option<String>>)
    ensures
        r@.len() == n,
        forall|j: int| 0 <= j < n ==> (#[trigger] r@[j]) is None,
{
    let mut slots: Vec<Option<String>> = Vec::new();
    let mut i: usize = 0;
    while i < n
        invariant
            i <= n,
            slots@.len() == i,
            forall|j: int| 0 <= j < i ==> (#[trigger] slots@[j]) is None,
        decreases n - i,
    {
        slots.push(None);
        i += 1;
    }
    slots
}

impl View for Dispatcher {
    type V = DispatcherView;

    closed spec fn view(&self) -> DispatcherView {
        DispatcherView {
            slots: self.slots@.map_values(|o: Option<String>| opt_view(o)),
            pending: opt_view(self.pending),
            phase: self.phase,
        }
    }
}

impl Dispatcher {
    pub open spec fn wf(&self) -> bool {
        valid_state(self@)
    }

    /// A runner with as many slots as the host has processors.
    pub fn new() -> (r: Dispatcher)
        ensures
            r.wf(),
            r@.slots.len() >= 1,
            all_free(r@.slots),
            r@.phase == Phase::Idle,
            r@.pending is None,
    {
        Dispatcher::with_parallel(cpu_count())
    }

    /// A runner with `max_threads` free slots.
    pub fn with_parallel(max_threads: usize) -> (r: Dispatcher)
        ensures
            r.wf(),
            r@.slots.len() == max_threads,
            all_free(r@.slots),
            r@.phase == Phase::Idle,
            r@.pending is None,
    {
        Dispatcher { slots: free_slots(max_threads), pending: None, phase: Phase::Idle }
    }

    /// The number of slots.
    pub fn max_threads(&self) -> (r: usize)
        ensures
            r == self@.slots.len(),
    {
        self.slots.len()
    }

    /// The number of tasks in flight.
    pub fn in_flight(&self) -> (r: usize)
        ensures
            r == busy_count(self@.slots),
            r == 0 <==> all_free(self@.slots),
    {
        let ghost s = self@.slots;
        let mut n: usize = 0;
        let mut i: usize = 0;
        while i < self.slots.len()
            invariant
                i <= self.slots@.len(),
                s == self@.slots,
                n <= i,
                n == busy_count(s.take(i as int)),
                n == 0 <==> forall|j: int| 0 <= j < i ==> (#[trigger] self.slots@[j]) is None,
            decreases self.slots@.len() - i,
        {
            proof {
                assert(s.take(i + 1).drop_last() =~= s.take(i as int));
                assert(s[i as int] is Some <==> self.slots@[i as int] is Some);
            }
            if self.slots[i].is_some() {
                n += 1;
            }
            i += 1;
        }
        assert(s.take(s.len() as int) =~= s);
        assert(n == 0 <==> all_free(self@.slots)) by {
            assert forall|j: int| 0 <= j < self.slots@.len() implies (self@.slots[j] is None
                <==> #[trigger] self.slots@[j] is None) by {}
        }
        n
    }

    /// The name of the task in `slot`, if any.
    pub fn name_in(&self, slot: usize) -> (r: Option<String>)
        requires
            slot < self@.slots.len(),
        ensures
            opt_view(r) == self@.slots[slot as int],
    {
        self.slots[slot].clone()
    }

    fn lowest_free(&self) -> (r: usize)
        ensures
            r == first_free(self@.slots),
    {
        let ghost s = self@.slots;
        let mut i: usize = 0;
        while i < self.slots.len()
            invariant
                i <= self.slots@.len(),
                s == self@.slots,
                first_where(i as int, s.len() as int, is_free(s)) == first_free(s),
            decreases self.slots@.len() - i,
        {
            if self.slots[i].is_none() {
                assert(s[i as int] is None);
                return i;
            }
            assert(s[i as int] is Some);
            i += 1;
        }
        i
    }

    /// Puts the pending task into the lowest free slot.
    fn start_pending(&mut self) -> (slot: usize)
        requires
            old(self).pending is Some,
            !all_busy(old(self)@.slots),
        ensures
            slot == first_free(old(self)@.slots),
            slot < old(self)@.slots.len(),
            final(self)@.slots == old(self)@.slots.update(slot as int, old(self)@.pending),
            final(self)@.pending is None,
            final(self).phase == old(self).phase,
    {
        let k = self.lowest_free();
        proof {
            lemma_first_free(self@.slots);
        }
        let name = self.pending.take();
        self.slots.set(k, name);
        assert(self@.slots =~= old(self)@.slots.update(k as int, old(self)@.pending));
        k
    }

    /// Takes in the result of the task in `slot`: frees the slot and returns
    /// the task's name.
    fn release(&mut self, slot: usize) -> (r: Option<String>)
        requires
            slot < old(self)@.slots.len(),
        ensures
            opt_view(r) == old(self)@.slots[slot as int],
            final(self)@.slots == old(self)@.slots.update(slot as int, None),
            final(self).pending == old(self).pending,
            final(self).phase == old(self).phase,
    {
        let name = self.slots[slot].clone();
        self.slots.set(slot, None);
        assert(self@.slots =~= old(self)@.slots.update(slot as int, None));
        name
    }

    /// Whether every slot is busy.
    fn is_full(&self) -> (r: bool)
        ensures
            r == all_busy(self@.slots),
    {
        let k = self.lowest_free();
        proof {
            lemma_first_free(self@.slots);
        }
        k == self.slots.len()
    }

    /// Takes in one event and decides what comes next.
    pub fn step(&mut self, e: Event) -> (r: Step)
        requires
            old(self).wf(),
            accepts(old(self)@, e),
        ensures
            final(self).wf(),
            (final(self)@, opt_view(r.finished), r.action) == next(old(self)@, e),
    {
        match e {
            Event::Submit(name) => {
                self.pending = Some(name);
                self.phase = Phase::Polling;
                Step { finished: None, action: Action::Poll }
            },
            Event::Finish => {
                if self.in_flight() == 0 {
                    Step { finished: None, action: Action::Done }
                } else {
                    self.phase = Phase::Draining;
                    Step { finished: None, action: Action::Wait }
                }
            },
            Event::Teardown => {
                if self.in_flight() == 0 {
                    Step { finished: None, action: Action::Done }
                } else {
                    self.phase = Phase::TearingDown;
                    Step { finished: None, action: Action::Wait }
                }
            },
            Event::Abandon => {
                self.slots = free_slots(self.slots.len());
                assert(self@.slots =~= no_tasks(old(self)@.slots.len()));
                Step { finished: None, action: Action::Done }
            },
            Event::NothingReady => {
                if self.is_full() {
                    self.phase = Phase::Blocked;
                    Step { finished: None, action: Action::Wait }
                } else {
                    let slot = self.start_pending();
                    self.phase = Phase::Idle;
                    Step { finished: None, action: Action::Start { slot } }
                }
            },
            Event::Completed { slot, failed } => {
                let finished = self.release(slot);
                if self.phase == Phase::TearingDown {
                    if self.in_flight() == 0 {
                        self.phase = Phase::Idle;
                        Step { finished, action: Action::Done }
                    } else {
                        Step { finished, action: Action::Wait }
                    }
                } else if failed {
                    self.pending = None;
                    self.phase = Phase::Idle;
                    Step { finished, action: Action::Fail }
                } else if self.phase == Phase::Polling {
                    Step { finished, action: Action::Poll }
                } else if self.phase == Phase::Blocked {
                    proof {
                        assert(self@.slots[slot as int] is None);
                    }
                    let k = self.start_pending();
                    self.phase = Phase::Idle;
                    Step { finished, action: Action::Start { slot: k } }
                } else if self.in_flight() == 0 {
                    self.phase = Phase::Idle;
                    Step { finished, action: Action::Done }
                } else {
                    self.phase = Phase::Draining;
                    Step { finished, action: Action::Wait }
                }
            },
        }
    }
}
/// Every event keeps the runner's state valid and its number of slots, so at
/// most that many tasks are ever in flight; a task is only started in a slot
/// that is free, and it then holds the submitted name.
pub proof fn law_slots_bounded(s: DispatcherView, e: Event)
    requires
        valid_state(s),
        accepts(s, e),
    ensures
        valid_state(next(s, e).0),
        next(s, e).0.slots.len() == s.slots.len(),
        next(s, e).2 matches Action::Start { slot } ==> slot < s.slots.len() && s.pending is Some
            && next(s, e).0.slots[slot as int] == s.pending && (s.slots[slot as int] is None || (e
            matches Event::Completed { slot: freed, .. } && freed == slot)),
{
    lemma_first_free(s.slots);
    match e {
        Event::Completed { slot, failed } => {
            let freed = s.slots.update(slot as int, None);
            lemma_first_free(freed);
            if s.phase == Phase::Blocked {
                assert(freed[slot as int] is None);
                assert forall|j: int| 0 <= j < freed.len() && j != slot implies (#[trigger] freed[j]) is Some by {
                    assert(s.slots[j] is Some);
                }
                assert(first_free(freed) == slot);
            }
        },
        _ => {},
    }
}

/// With every slot busy, a submitted task is not started: the runner waits,
/// and only when a result frees a slot does the task start there, while the
/// finished task's name goes to its listener.
pub proof fn law_full_runner_blocks(s: DispatcherView, name: String, slot: usize)
    requires
        valid_state(s),
        s.phase == Phase::Idle,
        all_busy(s.slots),
        slot < s.slots.len(),
    ensures
        ({
            let (s1, f1, a1) = next(s, Event::Submit(name));
            let (s2, f2, a2) = next(s1, Event::NothingReady);
            let (s3, f3, a3) = next(s2, Event::Completed { slot, failed: false });
            &&& a1 == Action::Poll && f1 is None
            &&& a2 == Action::Wait && f2 is None && s2.phase == Phase::Blocked && s2.slots == s.slots
            &&& a3 == (Action::Start { slot }) && f3 == s.slots[slot as int]
            &&& s3.slots == s.slots.update(slot as int, Some(name@))
            &&& s3.phase == Phase::Idle
        }),
{
    let freed = s.slots.update(slot as int, None);
    lemma_first_free(freed);
    assert(freed[slot as int] is None);
    assert forall|j: int| 0 <= j < freed.len() && j != slot implies (#[trigger] freed[j]) is Some by {
        assert(s.slots[j] is Some);
    }
    assert(first_free(freed) == slot);
    assert(freed.update(slot as int, Some(name@)) =~= s.slots.update(slot as int, Some(name@)));
}

/// A task that fails is reported, with its name, at the first event that takes
/// its result in, whether that comes while a new task is submitted or while
/// the caller waits for all; the task being submitted is dropped, and the
/// runner goes idle without starting anything.
pub proof fn law_fail_fast(s: DispatcherView, slot: usize)
    requires
        valid_state(s),
        s.phase != Phase::Idle,
        s.phase != Phase::TearingDown,
        slot < s.slots.len(),
        s.slots[slot as int] is Some,
    ensures
        next(s, Event::Completed { slot, failed: true }) == (
            DispatcherView {
                slots: s.slots.update(slot as int, None),
                pending: None,
                phase: Phase::Idle,
            },
            s.slots[slot as int],
            Action::Fail,
        ),
{
}
/// Submitting the tasks `names` one after the other, each followed by a poll
/// that finds no result: the state afterwards and the action that closes
/// each submission.
pub open spec fn submit_each(s: DispatcherView, names: Seq<String>) -> (DispatcherView, Seq<Action>)
    decreases names.len(),
{
    if names.len() == 0 {
        (s, seq![])
    } else {
        let (s0, acts) = submit_each(s, names.drop_last());
        let s1 = next(s0, Event::Submit(names.last())).0;
        let (s2, _, a2) = next(s1, Event::NothingReady);
        (s2, acts.push(a2))
    }
}

/// A runner with K free slots starts K tasks submitted back to back at once,
/// the i-th in slot i, with nothing to wait for; once every slot is busy, a
/// further submission waits (see `law_full_runner_blocks`).
pub proof fn law_starts_up_to_bound(s: DispatcherView, names: Seq<String>)
    requires
        valid_state(s),
        s.phase == Phase::Idle,
        all_free(s.slots),
        names.len() <= s.slots.len(),
    ensures
        ({
            let (t, acts) = submit_each(s, names);
            &&& valid_state(t)
            &&& t.phase == Phase::Idle
            &&& t.slots.len() == s.slots.len()
            &&& acts.len() == names.len()
            &&& forall|i: int| 0 <= i < names.len() ==> #[trigger] acts[i] == (Action::Start { slot: i as usize })
            &&& forall|i: int| 0 <= i < names.len() ==> #[trigger] t.slots[i] == Some(names[i]@)
            &&& forall|i: int| names.len() <= i < t.slots.len() ==> #[trigger] t.slots[i] is None
        }),
    decreases names.len(),
{
    if names.len() > 0 {
        let n = names.len() - 1;
        let prefix = names.drop_last();
        law_starts_up_to_bound(s, prefix);
        let (s0, acts) = submit_each(s, prefix);
        let s1 = next(s0, Event::Submit(names.last())).0;
        lemma_first_free(s1.slots);
        assert(s1.slots[n as int] is None);
        assert forall|j: int| 0 <= j < n implies (#[trigger] s1.slots[j]) is Some by {
            assert(s0.slots[j] == Some(prefix[j]@));
        }
        assert(first_free(s1.slots) == n);
        let (t, acts2) = submit_each(s, names);
        assert forall|i: int| 0 <= i < names.len() implies #[trigger] t.slots[i] == Some(names[i]@) by {
            if i < n {
                assert(prefix[i] == names[i]);
            }
        }
        assert forall|i: int| 0 <= i < names.len() implies #[trigger] acts2[i] == (Action::Start { slot: i as usize }) by {
            if i < n {
                assert(acts2[i] == acts[i]);
            }
        }
    }
}

/// While the caller waits for all tasks, each result names the task of the
/// slot it came from, in the order the results arrive, and the wait ends
/// exactly when the last busy slot is freed.
pub proof fn law_drain_reports_finished(s: DispatcherView, slot: usize)
    requires
        valid_state(s),
        s.phase == Phase::Draining,
        slot < s.slots.len(),
        s.slots[slot as int] is Some,
    ensures
        next(s, Event::Completed { slot, failed: false }).1 == s.slots[slot as int],
        next(s, Event::Completed { slot, failed: false }).0.slots == s.slots.update(slot as int, None),
        next(s, Event::Completed { slot, failed: false }).2 == (if all_free(s.slots.update(slot as int, None)) {
            Action::Done
        } else {
            Action::Wait
        }),
{
}

/// While the runner is discarded, every remaining result is taken in and
/// its task's name reported, an error included, which is dropped: no error
/// reaches the caller, and the teardown ends exactly when the last busy slot
/// is freed.
pub proof fn law_teardown_drops_errors(s: DispatcherView, slot: usize, failed: bool)
    requires
        valid_state(s),
        s.phase == Phase::TearingDown,
        slot < s.slots.len(),
        s.slots[slot as int] is Some,
    ensures
        next(s, Event::Completed { slot, failed }).1 == s.slots[slot as int],
        next(s, Event::Completed { slot, failed }).0.slots == s.slots.update(slot as int, None),
        next(s, Event::Completed { slot, failed }).2 == (if all_free(s.slots.update(slot as int, None)) {
            Action::Done
        } else {
            Action::Wait
        }),
{
}

} // verus!
