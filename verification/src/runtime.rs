//! The scheduler: a fixed pool of execution units and the index of the running one.

use vstd::prelude::*;
use crate::error::SpawnError;
use crate::laws::{
    lemma_action_makes_progress, lemma_available_from, lemma_retired_keeps_wf,
    lemma_spawned_keeps_wf, lemma_yield_without_work, lemma_yielded_keeps_inv,
};
use crate::model::RuntimeView;
use crate::state::State;
use crate::thread::{Thread, ThreadView, DEFAULT_STACK_SIZE};

verus! {

/// Number of slots in a scheduler made by `Runtime::new`, the bootstrap slot included.
pub const MAX_THREADS: usize = 4;

/// A cooperative round-robin scheduler over a pool of fixed size.
///
/// Slot 0 stands for the caller that set the scheduler up. The other slots are
/// filled by `spawn` and freed when their entry function returns. The scheduler
/// decides which unit runs next; the embedding program switches registers
/// whenever `current` has changed.
pub struct Runtime {
    threads: Vec<Thread>,
    current: usize,
    installed: bool,
}

impl View for Runtime {
    type V = RuntimeView;

    closed spec fn view(&self) -> RuntimeView {
        RuntimeView {
            threads: Seq::new(self.threads@.len(), |i: int| self.threads@[i]@),
            current: self.current as nat,
            installed: self.installed,
        }
    }
}

impl Runtime {
    /// A scheduler of `MAX_THREADS` slots, not yet installed: the bootstrap unit
    /// runs in slot 0 and every other slot is free.
    pub fn new() -> (rt: Runtime)
        ensures
            rt@ == RuntimeView::fresh(MAX_THREADS as nat),
            rt@.wf(),
    {
        Runtime::with_capacity(MAX_THREADS)
    }

    /// A scheduler of `capacity` slots, not yet installed: the bootstrap unit
    /// runs in slot 0 and every other slot is free. Every slot has a zeroed
    /// stack of `DEFAULT_STACK_SIZE` bytes.
    pub fn with_capacity(capacity: usize) -> (rt: Runtime)
        requires
            capacity >= 1,
        ensures
            rt@ == RuntimeView::fresh(capacity as nat),
            rt@.wf(),
    {
        let mut base_thread = Thread::new(0);
        base_thread.set_state(State::Running);
        let mut threads: Vec<Thread> = Vec::new();
        threads.push(base_thread);
        let mut id: usize = 1;
        while id < capacity
            invariant
                1 <= id <= capacity,
                threads@.len() == id,
                threads@[0]@ == ThreadView::fresh(0).with_state(State::Running),
                forall|i: int| 1 <= i < id ==> (#[trigger] threads@[i])@ == ThreadView::fresh(i as nat),
            decreases capacity - id,
        {
            threads.push(Thread::new(id));
            id = id + 1;
        }
        let rt = Runtime { threads, current: 0, installed: false };
        assert(rt@.threads =~= RuntimeView::fresh(capacity as nat).threads);
        rt
    }

    /// Marks the scheduler as the installed one. The embedding program calls
    /// this once, when it records the scheduler as the active one, before it
    /// spawns or runs anything.
    pub fn init(&mut self)
        requires
            old(self)@.wf(),
            !old(self)@.installed,
        ensures
            final(self)@ == old(self)@.install(),
            final(self)@.wf(),
    {
        self.installed = true;
        assert(self@.threads =~= old(self)@.threads);
    }

    /// The first `Available` slot, which the next `spawn` fills.
    pub fn first_available(&self) -> (slot: Option<usize>)
        ensures
            match slot {
                Some(i) => self@.first_available() == Some(i as int),
                None => self@.first_available().is_none(),
            },
    {
        let len = self.threads.len();
        let mut i: usize = 0;
        while i < len
            invariant
                i <= len,
                len == self.threads@.len(),
                self@.available_from(i as nat) == self@.first_available(),
            decreases len - i,
        {
            if self.threads[i].state() == State::Available {
                return Some(i);
            }
            i = i + 1;
        }
        None
    }

    /// Primes the first `Available` slot to run `entry` and makes it `Ready`.
    ///
    /// `entry` is the address of the entry function and `guard` the address that
    /// the entry function returns to. `base` is the address of the first byte of
    /// the stack of the slot that `first_available` names. The two addresses are
    /// written at the high end of that stack, `guard` above `entry`, and the
    /// saved stack pointer is left at `entry`.
    ///
    /// With every slot in use nothing changes and the result is
    /// `SpawnError::PoolExhausted`.
    pub fn spawn(&mut self, entry: u64, guard: u64, base: u64) -> (res: Result<(), SpawnError>)
        requires
            old(self)@.wf(),
            old(self)@.installed,
            base + DEFAULT_STACK_SIZE <= u64::MAX,
        ensures
            res is Ok <==> old(self)@.first_available() is Some,
            res is Err ==> res == Err::<(), SpawnError>(SpawnError::PoolExhausted),
            final(self)@ == old(self)@.spawned(entry, guard, base),
            final(self)@.wf(),
    {
        match self.first_available() {
            None => Err(SpawnError::PoolExhausted),
            Some(slot) => {
                proof {
                    lemma_available_from(self@, 0);
                }
                self.threads[slot].prime(entry, guard, base);
                proof {
                    assert(self@.threads =~= old(self)@.spawned(entry, guard, base).threads);
                    lemma_spawned_keeps_wf(old(self)@, entry, guard, base);
                }
                Ok(())
            },
        }
    }

    /// Hands the execution stream to the next `Ready` unit in round-robin order.
    ///
    /// The scan starts at the slot after the current one and wraps round the
    /// pool. When it comes back to the current slot without a `Ready` unit,
    /// nothing changes and the result is `false`. Otherwise the current unit
    /// becomes `Ready` (a retiring one stays `Available`), the unit found becomes
    /// `Running` and current, and the result is `true`: the caller then switches
    /// registers from the old current unit to the new one.
    pub fn t_yield(&mut self) -> (switched: bool)
        requires
            old(self)@.inv(),
        ensures
            switched == old(self)@.next_ready().is_some(),
            final(self)@ == old(self)@.yielded(),
            !switched ==> final(self)@ == old(self)@,
            switched ==> final(self)@.wf(),
    {
        let len = self.threads.len();
        let mut pos = self.current;
        let ghost mut hops: nat = 0;
        loop
            invariant_except_break
                hops < len,
                pos == self@.slot_after(hops),
                self@.scan_from((hops + 1) as nat) == self@.next_ready(),
            invariant
                *self == *old(self),
                self@.inv(),
                len == self.threads@.len(),
            ensures
                *self == *old(self),
                0 <= pos < len,
                pos != self.current,
                self@.next_ready() == Some(pos as int),
            decreases len - hops,
        {
            pos = pos + 1;
            if pos == len {
                pos = 0;
            }
            proof {
                hops = hops + 1;
            }
            if pos == self.current {
                return false;
            }
            if self.threads[pos].state() == State::Ready {
                break ;
            }
        }
        if self.threads[self.current].state() != State::Available {
            self.threads[self.current].set_state(State::Ready);
        }
        self.threads[pos].set_state(State::Running);
        self.current = pos;
        proof {
            assert(self@.threads =~= old(self)@.yielded().threads);
            lemma_yielded_keeps_inv(old(self)@);
        }
        true
    }

    /// Retires the current unit after its entry function has returned, and hands
    /// the execution stream on.
    ///
    /// The bootstrap unit is never retired: with slot 0 current nothing happens.
    /// Any other unit becomes `Available` and the next `Ready` unit runs; there
    /// always is one, since the bootstrap unit waits to run again.
    pub fn t_return(&mut self)
        requires
            old(self)@.wf(),
        ensures
            final(self)@ == old(self)@.retired(),
            final(self)@.wf(),
            old(self)@.current == 0 ==> final(self)@ == old(self)@,
            old(self)@.current != 0 ==> final(self)@.current != old(self)@.current,
    {
        if self.current != 0 {
            self.threads[self.current].set_state(State::Available);
            proof {
                let retiring = old(self)@.with_state(old(self)@.current as int, State::Available);
                assert(self@.threads =~= retiring.threads);
                lemma_retired_keeps_wf(old(self)@);
            }
            self.t_yield();
        }
    }

    /// Runs the pool to its end for units whose work is known in advance, and
    /// returns the slots that got the execution stream, in order.
    ///
    /// `yields[i]` is the number of times the unit in slot `i` yields before its
    /// entry function returns; the entries of free slots and of slot 0 are not
    /// read. The bootstrap unit, which calls this, yields whenever it gets the
    /// execution stream, until a yield finds no `Ready` unit. Every spawned unit
    /// has then been retired, and the bootstrap unit is the one that runs.
    pub fn run(&mut self, yields: Vec<usize>) -> (trace: Vec<usize>)
        requires
            old(self)@.wf(),
            old(self)@.installed,
            old(self)@.current == 0,
            yields@.len() == old(self)@.threads.len(),
        ensures
            final(self)@ == old(self)@.drained(),
            final(self)@.wf(),
            trace@.len() == old(self)@.schedule(yields@).len(),
            forall|k: int|
                0 <= k < trace@.len() ==> #[trigger] trace@[k] == old(self)@.schedule(yields@)[k],
    {
        let mut budget = yields;
        let mut trace: Vec<usize> = Vec::new();
        let ghost mut done: Seq<nat> = Seq::empty();
        loop
            invariant
                self@.wf(),
                self@.installed == old(self)@.installed,
                self@.threads.len() == old(self)@.threads.len(),
                budget@.len() == self@.threads.len(),
                forall|i: int|
                    0 <= i < self@.threads.len() ==> #[trigger] self@.threads[i] == old(
                        self,
                    )@.threads[i].with_state(self@.state(i)),
                done.len() == trace@.len(),
                forall|k: int| 0 <= k < trace@.len() ==> #[trigger] trace@[k] == done[k],
                old(self)@.schedule(yields@) == done + self@.schedule(budget@),
            ensures
                self@.finished(),
            decreases
                    self@.actions_left(budget@),
                    (if self@.current == 0 {
                        1nat
                    } else {
                        0nat
                    }),
        {
            let ghost before = self@;
            let ghost before_budget = budget@;
            if self.current == 0 {
                if !self.t_yield() {
                    break ;
                }
            } else if budget[self.current] > 0 {
                budget[self.current] = budget[self.current] - 1;
                self.t_yield();
            } else {
                self.t_return();
            }
            trace.push(self.current);
            proof {
                lemma_action_makes_progress(before, before_budget);
                assert(self@ == before.acted(before_budget));
                assert(budget@ == before.spent(before_budget));
                done = done.push(self@.current);
                assert forall|i: int| 0 <= i < self@.threads.len() implies #[trigger] self@.threads[i]
                    == old(self)@.threads[i].with_state(self@.state(i)) by {
                    assert(before.threads[i] == old(self)@.threads[i].with_state(before.state(i)));
                }
                assert(old(self)@.schedule(yields@) =~= done + self@.schedule(budget@));
            }
        }
        proof {
            lemma_yield_without_work(self@);
            assert(self@.threads =~= old(self)@.drained().threads);
            assert(old(self)@.schedule(yields@) =~= done);
        }
        trace
    }

    /// The number of slots in the pool, the bootstrap slot included.
    pub fn capacity(&self) -> (n: usize)
        ensures
            n == self@.threads.len(),
    {
        self.threads.len()
    }

    /// The slot of the unit that holds the execution stream.
    pub fn current(&self) -> (slot: usize)
        ensures
            slot == self@.current,
    {
        self.current
    }

    /// Whether `init` has been called.
    pub fn is_installed(&self) -> (b: bool)
        ensures
            b == self@.installed,
    {
        self.installed
    }

    /// The unit in slot `slot`.
    pub fn thread(&self, slot: usize) -> (t: &Thread)
        requires
            slot < self@.threads.len(),
        ensures
            t@ == self@.threads[slot as int],
    {
        &self.threads[slot]
    }
}

/// Yields on behalf of the unit that runs: the next `Ready` unit in round-robin
/// order gets the execution stream, if there is one.
///
/// A unit calls this in the middle of its work, with the installed scheduler.
pub fn yield_thread(rt: &mut Runtime)
    requires
        old(rt)@.wf(),
        old(rt)@.installed,
    ensures
        final(rt)@ == old(rt)@.yielded(),
        final(rt)@.wf(),
{
    rt.t_yield();
}

/// Ends the unit whose entry function has just returned: retires it, hands the
/// execution stream on, and returns its identity for the caller to report.
///
/// The address of the embedding program's trampoline, which calls this, is what
/// `spawn` plants above the entry address.
pub fn guard(rt: &mut Runtime) -> (id: usize)
    requires
        old(rt)@.wf(),
        old(rt)@.installed,
    ensures
        id == old(rt)@.threads[old(rt)@.current as int].id,
        id == old(rt)@.current,
        final(rt)@ == old(rt)@.retired(),
        final(rt)@.wf(),
{
    let id = rt.threads[rt.current].id();
    rt.t_return();
    id
}

} // verus!
