//! What holds of the scheduler in every state, proved about its model.

use vstd::prelude::*;
use crate::model::{occurrences, RuntimeView};
use crate::state::State;
use crate::thread::{lemma_primed_stack_len, DEFAULT_STACK_SIZE};

verus! {

/// The round-robin scan finds the nearest `Ready` unit.
///
/// A scan that starts `hops` slots after the current one ends at a `Ready`
/// slot other than the current one, and no `Ready` slot lies between the start
/// and it; or it ends with nothing, and then no slot from the start on is
/// `Ready`.
pub proof fn lemma_scan_from(v: RuntimeView, hops: nat)
    requires
        v.current < v.threads.len(),
        1 <= hops,
    ensures
        match v.scan_from(hops) {
            Some(next) => {
                &&& 0 <= next < v.threads.len()
                &&& next != v.current
                &&& v.state(next) == State::Ready
                &&& hops <= v.hops_to(next) < v.threads.len()
                &&& forall|q: int|
                    0 <= q < v.threads.len() && q != v.current && hops <= v.hops_to(q)
                        < v.hops_to(next) ==> #[trigger] v.state(q) != State::Ready
            },
            None => forall|q: int|
                0 <= q < v.threads.len() && q != v.current && hops <= v.hops_to(q)
                    ==> #[trigger] v.state(q) != State::Ready,
        },
    decreases v.threads.len() - hops,
{
    if hops < v.threads.len() {
        let here = v.slot_after(hops);
        assert(v.hops_to(here) == hops);
        assert forall|q: int| 0 <= q < v.threads.len() && q != v.current && v.hops_to(q)
            == hops implies q == here by {}
        if v.state(here) != State::Ready {
            lemma_scan_from(v, hops + 1);
        }
    }
}

/// The search for a free slot finds the lowest one.
///
/// A search that starts at slot `from` ends at an `Available` slot with no
/// `Available` slot between `from` and it; or it ends with nothing, and then no
/// slot from `from` on is `Available`.
pub proof fn lemma_available_from(v: RuntimeView, from: nat)
    ensures
        match v.available_from(from) {
            Some(slot) => {
                &&& from <= slot < v.threads.len()
                &&& v.state(slot) == State::Available
                &&& forall|q: int| from <= q < slot ==> #[trigger] v.state(q) != State::Available
            },
            None => forall|q: int|
                from <= q < v.threads.len() ==> #[trigger] v.state(q) != State::Available,
        },
    decreases v.threads.len() - from,
{
    if from < v.threads.len() {
        if v.state(from as int) != State::Available {
            lemma_available_from(v, from + 1);
        }
    }
}

/// A new scheduler has exactly one `Running` unit, the bootstrap unit in slot
/// 0, which is current; every other slot is `Available`.
pub proof fn lemma_fresh_has_one_running(capacity: nat)
    requires
        capacity >= 1,
    ensures
        RuntimeView::fresh(capacity).wf(),
        RuntimeView::fresh(capacity).threads.len() == capacity,
        RuntimeView::fresh(capacity).current == 0,
        !RuntimeView::fresh(capacity).installed,
        RuntimeView::fresh(capacity).state(0) == State::Running,
        forall|i: int| 1 <= i < capacity ==> RuntimeView::fresh(capacity).state(i) == State::Available,
        RuntimeView::fresh(capacity).available_count() == capacity - 1,
{
    lemma_fresh_available_below(capacity, capacity);
}

/// Of the first `n` slots of a new scheduler, all but slot 0 are `Available`.
proof fn lemma_fresh_available_below(capacity: nat, n: nat)
    requires
        1 <= n <= capacity,
    ensures
        RuntimeView::fresh(capacity).available_below(n) == n - 1,
    decreases n,
{
    let v = RuntimeView::fresh(capacity);
    if n == 1 {
        assert(v.available_below(0) == 0);
        assert(v.state(0) == State::Running);
    } else {
        lemma_fresh_available_below(capacity, (n - 1) as nat);
        assert(v.state(n - 1) == State::Available);
    }
}

/// In a scheduler at rest exactly one unit is `Running`: the current one.
pub proof fn lemma_exactly_one_running(v: RuntimeView)
    requires
        v.wf(),
    ensures
        forall|i: int|
            0 <= i < v.threads.len() ==> (#[trigger] v.state(i) == State::Running <==> i
                == v.current),
{
    assert forall|i: int| 0 <= i < v.threads.len() implies (#[trigger] v.state(i) == State::Running
        <==> i == v.current) by {
        assert(i != v.current ==> v.threads[i].state != State::Running);
    }
}

/// The lifecycle of a unit has no shortcuts.
///
/// A yield frees no slot and fills none: an `Available` slot stays so, and a
/// `Ready` unit stays `Ready` unless it is the one that now runs. Retirement
/// frees the current slot and no other. A spawn turns one `Available` slot
/// `Ready` and leaves every other unit as it was: no slot goes from
/// `Available` to `Running`.
pub proof fn lemma_lifecycle(v: RuntimeView, entry: u64, guard: u64, base: u64, i: int)
    requires
        v.wf(),
        0 <= i < v.threads.len(),
    ensures
        v.state(i) == State::Available <==> v.yielded().state(i) == State::Available,
        v.state(i) == State::Ready ==> v.yielded().state(i) == State::Ready || (v.yielded().state(i)
            == State::Running && v.yielded().current == i),
        v.retired().state(i) == State::Available <==> v.state(i) == State::Available || (i
            == v.current && i != 0),
        v.state(i) == State::Ready ==> v.retired().state(i) == State::Ready || (v.retired().state(i)
            == State::Running && v.retired().current == i),
        v.spawned(entry, guard, base).state(i) == if v.first_available() == Some(i) {
            State::Ready
        } else {
            v.state(i)
        },
{
    lemma_scan_from(v, 1);
    lemma_available_from(v, 0);
    if v.current != 0 {
        lemma_scan_from(v.with_state(v.current as int, State::Available), 1);
    }
}

/// A yield keeps the scheduler's structure, and leaves it at rest whenever it
/// switched or started at rest.
pub proof fn lemma_yielded_keeps_inv(v: RuntimeView)
    requires
        v.inv(),
    ensures
        v.yielded().inv(),
        v.next_ready() is Some ==> v.yielded().wf(),
        v.wf() ==> v.yielded().wf(),
        v.yielded().threads.len() == v.threads.len(),
        v.yielded().installed == v.installed,
        forall|i: int|
            0 <= i < v.threads.len() ==> #[trigger] v.yielded().threads[i]
                == v.threads[i].with_state(v.yielded().state(i)),
{
    lemma_scan_from(v, 1);
    let w = v.yielded();
    if v.next_ready() is Some {
        assert forall|i: int| 0 <= i < w.threads.len() implies (#[trigger] w.threads[i]).id == i
            && w.threads[i].stack == v.threads[i].stack && (i != w.current ==> w.threads[i].state
            != State::Running) by {
            assert(v.threads[i].id == i);
        }
    }
}

/// Retirement keeps the scheduler at rest, and never touches the bootstrap
/// unit: with slot 0 current nothing changes, and slot 0 is never `Available`
/// afterwards. Any other unit leaves its slot `Available` and the execution
/// stream goes to another unit.
pub proof fn lemma_retired_keeps_wf(v: RuntimeView)
    requires
        v.wf(),
    ensures
        v.retired().wf(),
        v.retired().state(0) != State::Available,
        v.current == 0 ==> v.retired() == v,
        v.current != 0 ==> v.retired().current != v.current && v.retired().state(v.current as int)
            == State::Available,
        v.retired().threads.len() == v.threads.len(),
        v.retired().installed == v.installed,
        forall|i: int|
            0 <= i < v.threads.len() ==> #[trigger] v.retired().threads[i]
                == v.threads[i].with_state(v.retired().state(i)),
{
    if v.current != 0 {
        let mid = v.with_state(v.current as int, State::Available);
        assert forall|i: int| 0 <= i < mid.threads.len() implies (#[trigger] mid.threads[i]).id == i
            && mid.threads[i].stack == v.threads[i].stack && (i != mid.current
            ==> mid.threads[i].state != State::Running) by {
            assert(v.threads[i].id == i);
        }
        assert(v.threads[0].state != State::Running);
        assert(mid.state(0) == State::Ready);
        lemma_scan_from(mid, 1);
        lemma_yielded_keeps_inv(mid);
    }
}

/// A spawn keeps the scheduler at rest.
pub proof fn lemma_spawned_keeps_wf(v: RuntimeView, entry: u64, guard: u64, base: u64)
    requires
        v.wf(),
    ensures
        v.spawned(entry, guard, base).wf(),
        v.spawned(entry, guard, base).threads.len() == v.threads.len(),
        v.spawned(entry, guard, base).current == v.current,
        v.spawned(entry, guard, base).installed == v.installed,
{
    lemma_available_from(v, 0);
    let w = v.spawned(entry, guard, base);
    if let Some(slot) = v.first_available() {
        assert forall|i: int| 0 <= i < w.threads.len() implies (#[trigger] w.threads[i]).id == i
            && w.threads[i].stack.len() == DEFAULT_STACK_SIZE && (i != w.current
            ==> w.threads[i].state != State::Running) by {
            assert(v.threads[i].id == i);
            if i == slot {
                lemma_primed_stack_len(v.threads[i].stack, entry, guard);
            }
        }
    }
}

/// Strict round-robin: of two `Ready` units that both lie above the current
/// one in pool order, the higher is not chosen while the lower is `Ready`.
///
/// With the current unit below `a` and `a` below `b`, a yield finds a unit
/// above the current one and not above `a`. So it does not choose `b`, which
/// stays `Ready` for a later turn.
pub proof fn lemma_round_robin_order(v: RuntimeView, a: int, b: int)
    requires
        v.current < a < b < v.threads.len(),
        v.state(a) == State::Ready,
        v.state(b) == State::Ready,
    ensures
        v.next_ready() is Some,
        v.current < v.next_ready().unwrap() <= a,
        v.yielded().current == v.next_ready().unwrap(),
        v.yielded().current != b,
        v.yielded().state(b) == State::Ready,
{
    lemma_scan_from(v, 1);
    assert(v.hops_to(a) == a - v.current);
}

/// A yield has nothing to do exactly when no unit but the current one is
/// `Ready`, and then it changes nothing: not a unit's state, not the current
/// index. It can be repeated any number of times with the same outcome.
pub proof fn lemma_yield_without_work(v: RuntimeView)
    requires
        v.current < v.threads.len(),
    ensures
        v.next_ready() is None <==> (forall|q: int|
            0 <= q < v.threads.len() && q != v.current ==> #[trigger] v.state(q) != State::Ready),
        v.next_ready() is None ==> v.yielded() == v && v.yielded().yielded() == v,
{
    lemma_scan_from(v, 1);
    if v.next_ready() is None {
        assert forall|q: int| 0 <= q < v.threads.len() && q != v.current implies #[trigger] v.state(
            q,
        ) != State::Ready by {
            assert(1 <= v.hops_to(q));
        }
    }
}

/// The count of free slots among the first `n` is zero exactly when none of
/// them is `Available`, and it never exceeds `n`.
proof fn lemma_available_below_zero(v: RuntimeView, n: nat)
    ensures
        v.available_below(n) <= n,
        v.available_below(n) == 0 <==> (forall|q: int|
            0 <= q < n ==> #[trigger] v.state(q) != State::Available),
    decreases n,
{
    if n > 0 {
        lemma_available_below_zero(v, (n - 1) as nat);
        if v.available_below(n) == 0 {
            assert forall|q: int| 0 <= q < n implies #[trigger] v.state(q) != State::Available by {
                if q < n - 1 {
                } else {
                    assert(q == n - 1);
                }
            }
        } else if v.state(n - 1) != State::Available {
        }
    }
}

/// Filling one free slot lowers the count of free slots among the first `n`
/// by one if the slot is among them, and leaves it otherwise.
proof fn lemma_available_below_filled(v: RuntimeView, w: RuntimeView, slot: int, n: nat)
    requires
        0 <= slot < v.threads.len(),
        n <= v.threads.len(),
        v.state(slot) == State::Available,
        w.threads.len() == v.threads.len(),
        w.state(slot) != State::Available,
        forall|q: int| 0 <= q < v.threads.len() && q != slot ==> #[trigger] w.state(q) == v.state(q),
    ensures
        v.available_below(n) == w.available_below(n) + if slot < n {
            1nat
        } else {
            0nat
        },
    decreases n,
{
    if n > 0 {
        lemma_available_below_filled(v, w, slot, (n - 1) as nat);
        if n - 1 != slot {
            assert(w.state(n - 1) == v.state(n - 1));
        }
    }
}

/// A spawn succeeds exactly when a slot is free, and then takes one free slot.
///
/// There is a first `Available` slot exactly when the count of `Available`
/// slots is not zero. A spawn into a pool with free slots leaves one free slot
/// fewer; a spawn into a full pool changes nothing.
pub proof fn lemma_spawn_takes_one_slot(v: RuntimeView, entry: u64, guard: u64, base: u64)
    ensures
        v.first_available() is Some <==> v.available_count() > 0,
        v.available_count() > 0 ==> v.spawned(entry, guard, base).available_count()
            == v.available_count() - 1,
        v.available_count() == 0 ==> v.spawned(entry, guard, base) == v,
        v.spawned(entry, guard, base).threads.len() == v.threads.len(),
{
    lemma_available_from(v, 0);
    lemma_available_below_zero(v, v.threads.len());
    if let Some(slot) = v.first_available() {
        let w = v.spawned(entry, guard, base);
        lemma_available_below_filled(v, w, slot, v.threads.len());
    }
}

/// Spawning into a pool with `k` free slots succeeds `k` times and then fails.
///
/// After `done` spawns, whatever they asked for, `k - done` slots are still
/// free, or none if `done` is more than `k`. So the next spawn, which is
/// attempt number `done + 1`, finds a slot exactly when `done` is less than `k`.
pub proof fn lemma_spawns_succeed_until_full(
    v: RuntimeView,
    requests: Seq<(u64, u64, u64)>,
    done: nat,
)
    requires
        done <= requests.len(),
    ensures
        v.spawned_all(requests.take(done as int)).threads.len() == v.threads.len(),
        v.spawned_all(requests.take(done as int)).available_count() == if done
            <= v.available_count() {
            v.available_count() - done
        } else {
            0
        },
        v.spawned_all(requests.take(done as int)).first_available() is Some <==> done
            < v.available_count(),
    decreases done,
{
    let prefix = requests.take(done as int);
    if done == 0 {
        assert(v.spawned_all(prefix) == v);
        lemma_spawn_takes_one_slot(v, 0, 0, 0);
    } else {
        lemma_spawns_succeed_until_full(v, requests, (done - 1) as nat);
        assert(prefix.drop_last() =~= requests.take(done - 1));
        let last = prefix.last();
        let earlier = v.spawned_all(requests.take(done - 1));
        assert(v.spawned_all(prefix) == earlier.spawned(last.0, last.1, last.2));
        lemma_spawn_takes_one_slot(earlier, last.0, last.1, last.2);
        lemma_spawn_takes_one_slot(v.spawned_all(prefix), 0, 0, 0);
    }
}

/// The actions left among the first `n` slots change only by what changes in
/// the one slot where two schedulers, each with its budget, differ.
proof fn lemma_actions_below_differ_at(
    v: RuntimeView,
    b: Seq<usize>,
    w: RuntimeView,
    c: Seq<usize>,
    slot: int,
    n: nat,
)
    requires
        forall|i: int| 0 <= i < n && i != slot ==> #[trigger] v.actions_of(b, i) == w.actions_of(c, i),
    ensures
        v.actions_below(b, n) + (if 0 <= slot < n {
            w.actions_of(c, slot)
        } else {
            0
        }) == w.actions_below(c, n) + (if 0 <= slot < n {
            v.actions_of(b, slot)
        } else {
            0
        }),
    decreases n,
{
    if n > 0 {
        lemma_actions_below_differ_at(v, b, w, c, slot, (n - 1) as nat);
        if n - 1 != slot {
            assert(v.actions_of(b, n - 1) == w.actions_of(c, n - 1));
        }
    }
}

/// A yield leaves the actions that the spawned units still take as they were.
proof fn lemma_yield_keeps_actions(v: RuntimeView, budget: Seq<usize>)
    requires
        v.inv(),
    ensures
        v.yielded().actions_left(budget) == v.actions_left(budget),
{
    lemma_scan_from(v, 1);
    let w = v.yielded();
    assert forall|i: int| 0 <= i < v.threads.len() implies #[trigger] v.actions_of(budget, i)
        == w.actions_of(budget, i) by {}
    lemma_actions_below_differ_at(v, budget, w, budget, -1, v.threads.len());
}

/// Every action of a run brings its end nearer.
///
/// An action of a spawned unit, a yield or its return, leaves one action
/// fewer to take. A yield of the bootstrap unit leaves as many, and hands the
/// execution stream to a spawned unit. Either way the scheduler is at rest
/// again afterwards.
pub proof fn lemma_action_makes_progress(v: RuntimeView, budget: Seq<usize>)
    requires
        v.wf(),
        budget.len() == v.threads.len(),
        !v.finished(),
    ensures
        v.acted(budget).wf(),
        v.acted(budget).threads.len() == v.threads.len(),
        v.acted(budget).installed == v.installed,
        forall|i: int|
            0 <= i < v.threads.len() ==> #[trigger] v.acted(budget).threads[i]
                == v.threads[i].with_state(v.acted(budget).state(i)),
        v.spent(budget).len() == budget.len(),
        v.current != 0 ==> v.acted(budget).actions_left(v.spent(budget)) + 1 == v.actions_left(
            budget,
        ),
        v.current == 0 ==> v.acted(budget).actions_left(v.spent(budget)) == v.actions_left(budget)
            && v.acted(budget).current != 0,
{
    let cur = v.current as int;
    let len = v.threads.len();
    lemma_scan_from(v, 1);
    lemma_yielded_keeps_inv(v);
    lemma_retired_keeps_wf(v);
    if v.current == 0 {
        lemma_yield_keeps_actions(v, budget);
    } else if budget[cur] > 0 {
        let spent = v.spent(budget);
        lemma_yield_keeps_actions(v, spent);
        assert forall|i: int| 0 <= i < len && i != cur implies #[trigger] v.actions_of(budget, i)
            == v.actions_of(spent, i) by {}
        lemma_actions_below_differ_at(v, budget, v, spent, cur, len);
    } else {
        let mid = v.with_state(cur, State::Available);
        assert forall|i: int| 0 <= i < len && i != cur implies #[trigger] v.actions_of(budget, i)
            == mid.actions_of(budget, i) by {}
        lemma_actions_below_differ_at(v, budget, mid, budget, cur, len);
        assert forall|i: int| 0 <= i < mid.threads.len() implies (#[trigger] mid.threads[i]).id == i
            && mid.threads[i].stack == v.threads[i].stack && (i != mid.current
            ==> mid.threads[i].state != State::Running) by {
            assert(v.threads[i].id == i);
        }
        lemma_yield_keeps_actions(mid, budget);
    }
}

/// In a run every unit gets exactly the turns its work calls for.
///
/// The unit in slot `i` occurs in the schedule once for each yield it still
/// makes, and once more if it has yet to start or to be resumed. A run from
/// the bootstrap unit therefore starts each spawned unit once, resumes it once
/// after each of its yields, and never gives a turn to a free slot.
pub proof fn lemma_schedule_gives_each_unit_its_turns(v: RuntimeView, budget: Seq<usize>, i: int)
    requires
        v.wf(),
        budget.len() == v.threads.len(),
        1 <= i < v.threads.len(),
    ensures
        occurrences(v.schedule(budget), i as nat) == v.turns_left(budget, i),
        v.current == 0 && v.state(i) == State::Ready ==> occurrences(v.schedule(budget), i as nat)
            == budget[i] + 1,
        v.state(i) == State::Available ==> occurrences(v.schedule(budget), i as nat) == 0,
    decreases
            v.actions_left(budget),
            (if v.current == 0 {
                1nat
            } else {
                0nat
            }),
{
    lemma_scan_from(v, 1);
    if v.finished() {
        assert(v.threads[i].state != State::Running);
        assert(v.state(i) != State::Ready);
    } else {
        let w = v.acted(budget);
        let rest = v.spent(budget);
        lemma_action_makes_progress(v, budget);
        lemma_schedule_gives_each_unit_its_turns(w, rest, i);
        let trace = v.schedule(budget);
        assert(trace == seq![w.current].add(w.schedule(rest)));
        assert(trace.drop_first() =~= w.schedule(rest));
        assert(trace[0] == w.current);
        if v.current != 0 {
            let mid = v.with_state(v.current as int, State::Available);
            lemma_scan_from(mid, 1);
            assert(v.threads[i].state == State::Running ==> i == v.current);
        }
    }
}

} // verus!
