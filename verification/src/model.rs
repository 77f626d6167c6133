//! The scheduler as a mathematical state machine.
//!
//! `RuntimeView` is the abstract state of a scheduler; the functions on it say
//! what each operation does. The executable scheduler refines this model, and
//! the laws of the crate are proved about it.

use vstd::prelude::*;
use crate::state::State;
use crate::laws::lemma_action_makes_progress;
use crate::thread::{ThreadView, DEFAULT_STACK_SIZE};

verus! {

/// A scheduler as the contracts see it: the pool in slot order, the index of
/// the unit that holds the execution stream, and whether the scheduler has
/// been installed as the active one.
pub struct RuntimeView {
    pub threads: Seq<ThreadView>,
    pub current: nat,
    pub installed: bool,
}

/// How often `slot` occurs in `trace`.
pub open spec fn occurrences(trace: Seq<nat>, slot: nat) -> nat
    decreases trace.len(),
{
    if trace.len() == 0 {
        0
    } else {
        occurrences(trace.drop_first(), slot) + if trace[0] == slot {
            1nat
        } else {
            0nat
        }
    }
}

impl RuntimeView {
    /// The state of the unit in slot `i`.
    pub open spec fn state(self, i: int) -> State {
        self.threads[i].state
    }

    /// What every operation keeps true of a scheduler.
    ///
    /// The pool is not empty and `current` is one of its slots. Slot `i` holds
    /// identity `i` and owns a stack of the default size. The bootstrap unit in
    /// slot 0 is never `Available`. No unit but the current one is `Running`, and
    /// the current one is not `Ready`: it is `Running`, or `Available` in the
    /// moment between its retirement and the hand-over to the next unit.
    pub open spec fn inv(self) -> bool {
        &&& self.threads.len() >= 1
        &&& self.current < self.threads.len()
        &&& forall|i: int| 0 <= i < self.threads.len() ==> (#[trigger] self.threads[i]).id == i
        &&& forall|i: int|
            0 <= i < self.threads.len() ==> (#[trigger] self.threads[i]).stack.len()
                == DEFAULT_STACK_SIZE
        &&& self.state(0) != State::Available
        &&& forall|i: int|
            0 <= i < self.threads.len() && i != self.current ==> (#[trigger] self.threads[i]).state
                != State::Running
        &&& self.state(self.current as int) != State::Ready
    }

    /// A scheduler at rest: `inv` holds and the current unit is `Running`, so
    /// exactly one unit is.
    pub open spec fn wf(self) -> bool {
        self.inv() && self.state(self.current as int) == State::Running
    }

    /// A newly constructed scheduler of `capacity` slots: the bootstrap unit in
    /// slot 0 is running, on the stack of the caller and not on its own; every
    /// other slot is free; nothing is installed.
    pub open spec fn fresh(capacity: nat) -> RuntimeView {
        RuntimeView {
            threads: Seq::new(
                capacity,
                |i: int|
                    if i == 0 {
                        ThreadView::fresh(0).with_state(State::Running)
                    } else {
                        ThreadView::fresh(i as nat)
                    },
            ),
            current: 0,
            installed: false,
        }
    }

    /// This scheduler, installed.
    pub open spec fn install(self) -> RuntimeView {
        RuntimeView { installed: true, ..self }
    }

    /// This scheduler with the unit in slot `i` moved to `state`.
    pub open spec fn with_state(self, i: int, state: State) -> RuntimeView {
        RuntimeView { threads: self.threads.update(i, self.threads[i].with_state(state)), ..self }
    }

    /// The slot that lies `hops` slots after the current one, going round the pool.
    pub open spec fn slot_after(self, hops: nat) -> int {
        if self.current + hops < self.threads.len() {
            (self.current + hops) as int
        } else {
            self.current + hops - self.threads.len()
        }
    }

    /// How many slots after the current one slot `i` lies, going round the pool:
    /// between 1 and the pool's size, which is the distance of the current slot
    /// from itself.
    pub open spec fn hops_to(self, i: int) -> int {
        if i > self.current {
            i - self.current
        } else {
            i - self.current + self.threads.len()
        }
    }

    /// The first `Ready` slot that lies at least `hops` slots after the current
    /// one and before the scan comes round to the current slot again.
    pub open spec fn scan_from(self, hops: nat) -> Option<int>
        decreases self.threads.len() - hops,
    {
        if hops >= self.threads.len() {
            None
        } else if self.state(self.slot_after(hops)) == State::Ready {
            Some(self.slot_after(hops))
        } else {
            self.scan_from(hops + 1)
        }
    }

    /// The unit that a yield hands the execution stream to: the first `Ready`
    /// slot after the current one in round-robin order, if there is one.
    pub open spec fn next_ready(self) -> Option<int> {
        self.scan_from(1)
    }

    /// The state in which a unit that gives up the execution stream is left:
    /// a retiring unit stays `Available`, any other becomes `Ready`.
    pub open spec fn after_switch_out(state: State) -> State {
        if state == State::Available {
            State::Available
        } else {
            State::Ready
        }
    }

    /// The scheduler after the current unit has yielded.
    ///
    /// With no other unit `Ready` nothing changes. Otherwise the current unit is
    /// switched out, the next `Ready` unit is `Running`, and it is the current one.
    pub open spec fn yielded(self) -> RuntimeView {
        match self.next_ready() {
            None => self,
            Some(next) => RuntimeView {
                threads: self.threads.update(
                    self.current as int,
                    self.threads[self.current as int].with_state(
                        Self::after_switch_out(self.state(self.current as int)),
                    ),
                ).update(next, self.threads[next].with_state(State::Running)),
                current: next as nat,
                installed: self.installed,
            },
        }
    }

    /// The scheduler after the current unit's entry function has returned.
    ///
    /// The bootstrap unit is never retired: with slot 0 current nothing changes.
    /// Any other unit becomes `Available` and yields for the last time.
    pub open spec fn retired(self) -> RuntimeView {
        if self.current == 0 {
            self
        } else {
            self.with_state(self.current as int, State::Available).yielded()
        }
    }

    /// The first `Available` slot at or after slot `from`.
    pub open spec fn available_from(self, from: nat) -> Option<int>
        decreases self.threads.len() - from,
    {
        if from >= self.threads.len() {
            None
        } else if self.state(from as int) == State::Available {
            Some(from as int)
        } else {
            self.available_from(from + 1)
        }
    }

    /// The slot that the next spawn fills: the first `Available` one.
    pub open spec fn first_available(self) -> Option<int> {
        self.available_from(0)
    }

    /// How many of the first `n` slots are `Available`.
    pub open spec fn available_below(self, n: nat) -> nat
        decreases n,
    {
        if n == 0 {
            0
        } else {
            self.available_below((n - 1) as nat) + if self.state(n - 1) == State::Available {
                1nat
            } else {
                0nat
            }
        }
    }

    /// How many slots of the pool are `Available`.
    pub open spec fn available_count(self) -> nat {
        self.available_below(self.threads.len())
    }

    /// The scheduler after a spawn of `entry`, with `guard` as the address to
    /// fall through to and `base` as the address of the chosen slot's stack.
    ///
    /// With no slot `Available` nothing changes. Otherwise the first `Available`
    /// slot is primed and `Ready`.
    pub open spec fn spawned(self, entry: u64, guard: u64, base: u64) -> RuntimeView {
        match self.first_available() {
            None => self,
            Some(slot) => RuntimeView {
                threads: self.threads.update(slot, self.threads[slot].primed(entry, guard, base)),
                ..self
            },
        }
    }

    /// The scheduler after one spawn for each request of `requests`, in order.
    /// A request is the entry address, the guard address and the stack's address.
    pub open spec fn spawned_all(self, requests: Seq<(u64, u64, u64)>) -> RuntimeView
        decreases requests.len(),
    {
        if requests.len() == 0 {
            self
        } else {
            let last = requests.last();
            self.spawned_all(requests.drop_last()).spawned(last.0, last.1, last.2)
        }
    }

    /// How many more times the unit in slot `i` acts before it is retired, when
    /// `budget[i]` is the number of yields it still makes: each yield is one
    /// action and the return of its entry function is the last. A free slot
    /// has nothing to do, and the bootstrap unit in slot 0 is not counted.
    pub open spec fn actions_of(self, budget: Seq<usize>, i: int) -> nat {
        if i >= 1 && self.state(i) != State::Available {
            (budget[i] + 1) as nat
        } else {
            0
        }
    }

    /// The actions that the units in the first `n` slots still take.
    pub open spec fn actions_below(self, budget: Seq<usize>, n: nat) -> nat
        decreases n,
    {
        if n == 0 {
            0
        } else {
            self.actions_below(budget, (n - 1) as nat) + self.actions_of(budget, n - 1)
        }
    }

    /// The actions that all spawned units together still take.
    pub open spec fn actions_left(self, budget: Seq<usize>) -> nat {
        self.actions_below(budget, self.threads.len())
    }

    /// Whether a run ends here: the bootstrap unit holds the execution stream
    /// and no other unit is `Ready`.
    pub open spec fn finished(self) -> bool {
        self.current == 0 && self.next_ready() is None
    }

    /// The scheduler after the current unit's next action. The bootstrap unit
    /// and a unit with yields left in `budget` yield; a unit with none left
    /// returns from its entry function and is retired.
    pub open spec fn acted(self, budget: Seq<usize>) -> RuntimeView {
        if self.current == 0 || budget[self.current as int] > 0 {
            self.yielded()
        } else {
            self.retired()
        }
    }

    /// The budget after the current unit's next action: a spawned unit that
    /// yields has one yield fewer left.
    pub open spec fn spent(self, budget: Seq<usize>) -> Seq<usize> {
        if self.current != 0 && budget[self.current as int] > 0 {
            budget.update(self.current as int, (budget[self.current as int] - 1) as usize)
        } else {
            budget
        }
    }

    /// The slots that get the execution stream, in order, when the scheduler
    /// runs until it is `finished` and the unit in slot `i` yields `budget[i]`
    /// times before its entry function returns.
    pub open spec fn schedule(self, budget: Seq<usize>) -> Seq<nat>
        decreases
                self.actions_left(budget),
                (if self.current == 0 {
                    1nat
                } else {
                    0nat
                }),
    {
        if !self.wf() || budget.len() != self.threads.len() || self.finished() {
            Seq::empty()
        } else {
            proof {
                lemma_action_makes_progress(self, budget);
            }
            seq![self.acted(budget).current].add(self.acted(budget).schedule(self.spent(budget)))
        }
    }

    /// How many more times the unit in slot `i` gets the execution stream in
    /// a run: once for each yield it still makes, and once more to start if it
    /// is not the unit that runs now. A free slot gets none, and the bootstrap
    /// unit in slot 0 is not counted.
    pub open spec fn turns_left(self, budget: Seq<usize>, i: int) -> nat {
        if i == 0 || self.state(i) == State::Available {
            0
        } else if i == self.current {
            budget[i] as nat
        } else {
            (budget[i] + 1) as nat
        }
    }

    /// The scheduler with every spawned unit retired and the bootstrap unit
    /// current: what a run leaves.
    pub open spec fn drained(self) -> RuntimeView {
        RuntimeView {
            threads: Seq::new(
                self.threads.len(),
                |i: int|
                    if i == 0 {
                        self.threads[i]
                    } else {
                        self.threads[i].with_state(State::Available)
                    },
            ),
            current: 0,
            installed: self.installed,
        }
    }
}

} // verus!
