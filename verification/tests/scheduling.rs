use green_threads::{guard, yield_thread, Runtime, State};

const GUARD: u64 = 0xdead_0000;
const BASE: u64 = 0x4000_0000;

fn states(rt: &Runtime) -> Vec<State> {
    (0..rt.capacity()).map(|i| rt.thread(i).state()).collect()
}

fn with_spawned(capacity: usize, spawned: usize) -> Runtime {
    let mut rt = Runtime::with_capacity(capacity);
    rt.init();
    for k in 0..spawned {
        rt.spawn(0x1000 + k as u64, GUARD, BASE).unwrap();
    }
    rt
}

/// Plays the units' work against the scheduler one action at a time: a unit
/// with yields left prints its counter and yields, a unit with none returns.
fn drive(rt: &mut Runtime, iterations: &[usize]) -> Vec<String> {
    let mut counters = vec![0usize; rt.capacity()];
    let mut output = Vec::new();
    loop {
        let current = rt.current();
        if current == 0 {
            if !rt.t_yield() {
                return output;
            }
        } else if counters[current] < iterations[current] {
            output.push(format!("thread: {} counter: {}", current, counters[current]));
            counters[current] += 1;
            yield_thread(rt);
        } else {
            assert_ne!(rt.current(), 0);
            let id = guard(rt);
            output.push(format!("THREAD {} FINISHED.", id));
        }
        assert_ne!(rt.thread(0).state(), State::Available);
        assert_eq!(states(rt).iter().filter(|s| **s == State::Running).count(), 1);
        assert_eq!(rt.thread(rt.current()).state(), State::Running);
    }
}

#[test]
fn yield_without_ready_units_changes_nothing() {
    let mut rt = with_spawned(4, 0);
    for _ in 0..3 {
        assert!(!rt.t_yield());
        assert_eq!(rt.current(), 0);
        assert_eq!(
            states(&rt),
            vec![State::Running, State::Available, State::Available, State::Available]
        );
    }
}

#[test]
fn yield_thread_without_ready_units_changes_nothing() {
    let mut rt = with_spawned(3, 0);
    yield_thread(&mut rt);
    assert_eq!(rt.current(), 0);
    assert_eq!(states(&rt), vec![State::Running, State::Available, State::Available]);
}

#[test]
fn yield_in_a_pool_of_one_finds_no_work() {
    let mut rt = with_spawned(1, 0);
    assert!(!rt.t_yield());
    assert_eq!(rt.current(), 0);
    assert_eq!(states(&rt), vec![State::Running]);
}

#[test]
fn yield_switches_to_the_next_ready_unit() {
    let mut rt = with_spawned(4, 1);
    assert!(rt.t_yield());
    assert_eq!(rt.current(), 1);
    assert_eq!(
        states(&rt),
        vec![State::Ready, State::Running, State::Available, State::Available]
    );
}

#[test]
fn yield_keeps_stacks_and_contexts() {
    let mut rt = with_spawned(3, 2);
    let rsp = rt.thread(1).ctx().rsp;
    let top: Vec<u8> = rt.thread(1).stack()[rt.thread(1).stack().len() - 16..].to_vec();
    assert!(rt.t_yield());
    assert!(rt.t_yield());
    assert_eq!(rt.thread(1).ctx().rsp, rsp);
    assert_eq!(&rt.thread(1).stack()[rt.thread(1).stack().len() - 16..], &top[..]);
    assert_eq!(rt.thread(1).id(), 1);
}

#[test]
fn yields_go_round_the_pool_in_slot_order() {
    let mut rt = with_spawned(4, 3);
    let mut order = Vec::new();
    for _ in 0..9 {
        assert!(rt.t_yield());
        order.push(rt.current());
    }
    assert_eq!(order, vec![1, 2, 3, 0, 1, 2, 3, 0, 1]);
}

#[test]
fn lower_ready_slot_is_chosen_before_higher() {
    let mut rt = with_spawned(5, 4);
    assert!(rt.t_yield());
    assert_eq!(rt.current(), 1);
    guard(&mut rt);
    assert_eq!(rt.current(), 2);
    assert!(rt.t_yield());
    assert!(rt.t_yield());
    assert!(rt.t_yield());
    assert_eq!(rt.current(), 0);
    assert_eq!(
        states(&rt),
        vec![State::Running, State::Available, State::Ready, State::Ready, State::Ready]
    );
    assert!(rt.t_yield());
    assert_eq!(rt.current(), 2);
    assert_eq!(rt.thread(3).state(), State::Ready);
    assert_eq!(rt.thread(4).state(), State::Ready);
    assert!(rt.t_yield());
    assert_eq!(rt.current(), 3);
}

#[test]
fn scan_wraps_past_the_end_of_the_pool() {
    let mut rt = with_spawned(4, 3);
    assert!(rt.t_yield());
    assert!(rt.t_yield());
    assert!(rt.t_yield());
    assert_eq!(rt.current(), 3);
    assert!(rt.t_yield());
    assert_eq!(rt.current(), 0);
    assert_eq!(states(&rt), vec![State::Running, State::Ready, State::Ready, State::Ready]);
}

#[test]
fn return_retires_the_unit_and_runs_the_next() {
    let mut rt = with_spawned(4, 2);
    assert!(rt.t_yield());
    rt.t_return();
    assert_eq!(rt.current(), 2);
    assert_eq!(
        states(&rt),
        vec![State::Ready, State::Available, State::Running, State::Available]
    );
    rt.t_return();
    assert_eq!(rt.current(), 0);
    assert_eq!(
        states(&rt),
        vec![State::Running, State::Available, State::Available, State::Available]
    );
}

#[test]
fn return_of_the_bootstrap_unit_changes_nothing() {
    let mut rt = with_spawned(4, 2);
    rt.t_return();
    assert_eq!(rt.current(), 0);
    assert_eq!(
        states(&rt),
        vec![State::Running, State::Ready, State::Ready, State::Available]
    );
    assert_eq!(guard(&mut rt), 0);
    assert_eq!(rt.current(), 0);
    assert_eq!(
        states(&rt),
        vec![State::Running, State::Ready, State::Ready, State::Available]
    );
}

#[test]
fn guard_reports_the_unit_that_finished() {
    let mut rt = with_spawned(4, 3);
    assert!(rt.t_yield());
    assert!(rt.t_yield());
    assert_eq!(guard(&mut rt), 2);
    assert_eq!(rt.current(), 3);
    assert_eq!(rt.thread(2).state(), State::Available);
}

#[test]
fn retired_slot_is_spawned_into_again() {
    let mut rt = with_spawned(3, 2);
    assert!(rt.t_yield());
    rt.t_return();
    assert_eq!(rt.first_available(), Some(1));
    rt.spawn(0x7777, GUARD, BASE).unwrap();
    let t = rt.thread(1);
    let size = t.stack().len();
    assert_eq!(&t.stack()[size - 16..size - 8], &0x7777u64.to_le_bytes());
    assert_eq!(t.state(), State::Ready);
    assert_eq!(rt.current(), 2);
}

#[test]
fn run_without_spawned_units_ends_at_once() {
    let mut rt = with_spawned(4, 0);
    let trace = rt.run(vec![0; 4]);
    assert!(trace.is_empty());
    assert_eq!(rt.current(), 0);
    assert_eq!(
        states(&rt),
        vec![State::Running, State::Available, State::Available, State::Available]
    );
}

#[test]
fn run_of_one_unit_that_never_yields() {
    let mut rt = with_spawned(2, 1);
    let trace = rt.run(vec![0, 0]);
    assert_eq!(trace, vec![1, 0]);
    assert_eq!(states(&rt), vec![State::Running, State::Available]);
}

#[test]
fn run_gives_each_unit_one_turn_more_than_it_yields() {
    let mut rt = with_spawned(5, 3);
    let yields = vec![99, 2, 0, 5, 99];
    let trace = rt.run(yields.clone());
    for slot in 1..4 {
        assert_eq!(trace.iter().filter(|s| **s == slot).count(), yields[slot] + 1);
    }
    assert_eq!(trace.iter().filter(|s| **s == 4).count(), 0);
    assert_eq!(trace.last(), Some(&0));
    assert_eq!(
        states(&rt),
        vec![
            State::Running,
            State::Available,
            State::Available,
            State::Available,
            State::Available
        ]
    );
}

#[test]
fn run_interleaves_two_units_round_robin() {
    let mut rt = with_spawned(4, 2);
    let trace = rt.run(vec![0, 10, 15, 0]);
    let mut expected = Vec::new();
    for _ in 0..11 {
        expected.extend_from_slice(&[1, 2, 0]);
    }
    for _ in 0..5 {
        expected.extend_from_slice(&[2, 0]);
    }
    assert_eq!(trace.len(), 43);
    assert_eq!(trace, expected);
    assert_eq!(rt.current(), 0);
    assert_eq!(
        states(&rt),
        vec![State::Running, State::Available, State::Available, State::Available]
    );
    assert!(!rt.t_yield());
}

#[test]
fn two_counting_units_print_in_turn_and_leave_the_pool_empty() {
    let mut rt = with_spawned(4, 2);
    let output = drive(&mut rt, &[0, 10, 15, 0]);
    let mut expected = Vec::new();
    for i in 0..10 {
        expected.push(format!("thread: 1 counter: {}", i));
        expected.push(format!("thread: 2 counter: {}", i));
    }
    expected.push("THREAD 1 FINISHED.".to_string());
    for i in 10..15 {
        expected.push(format!("thread: 2 counter: {}", i));
    }
    expected.push("THREAD 2 FINISHED.".to_string());
    assert_eq!(output, expected);
    assert_eq!(rt.current(), 0);
    assert_eq!(
        states(&rt),
        vec![State::Running, State::Available, State::Available, State::Available]
    );
}

#[test]
fn bootstrap_unit_is_never_retired_during_a_run() {
    for spawned in 0..4 {
        let mut rt = with_spawned(4, spawned);
        let output = drive(&mut rt, &[0, 3, 1, 2]);
        assert!(!output.contains(&"THREAD 0 FINISHED.".to_string()));
        assert_eq!(rt.thread(0).state(), State::Running);
        assert_eq!(rt.current(), 0);
        assert_eq!(
            output.iter().filter(|l| l.ends_with("FINISHED.")).count(),
            spawned
        );
    }
}
