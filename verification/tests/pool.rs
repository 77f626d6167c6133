use green_threads::{
    Runtime, SpawnError, State, Thread, ThreadContext, DEFAULT_STACK_SIZE, MAX_THREADS,
};

const ENTRY: u64 = 0x1122_3344_5566_7788;
const GUARD: u64 = 0x0102_0304_0506_0708;
const BASE: u64 = 0x1000;

fn states(rt: &Runtime) -> Vec<State> {
    (0..rt.capacity()).map(|i| rt.thread(i).state()).collect()
}

fn installed(capacity: usize) -> Runtime {
    let mut rt = Runtime::with_capacity(capacity);
    rt.init();
    rt
}

#[test]
fn default_stack_size_is_two_mebibytes() {
    assert_eq!(DEFAULT_STACK_SIZE, 2_097_152);
    assert_eq!(MAX_THREADS, 4);
}

#[test]
fn default_context_is_all_zero() {
    let ctx = ThreadContext::default();
    assert_eq!(
        ctx,
        ThreadContext { rsp: 0, r15: 0, r14: 0, r13: 0, r12: 0, rbx: 0, rbp: 0, win_nt_tib: 0 }
    );
}

#[test]
fn new_thread_is_available_with_a_zeroed_stack() {
    let t = Thread::new(7);
    assert_eq!(t.id(), 7);
    assert_eq!(t.state(), State::Available);
    assert_eq!(t.ctx(), ThreadContext::default());
    assert_eq!(t.stack().len(), DEFAULT_STACK_SIZE);
    assert!(t.stack().iter().all(|b| *b == 0));
}

#[test]
fn set_state_changes_only_the_state() {
    let mut t = Thread::new(3);
    t.set_state(State::Ready);
    assert_eq!(t.state(), State::Ready);
    assert_eq!(t.id(), 3);
    assert_eq!(t.ctx(), ThreadContext::default());
    assert_eq!(t.stack().len(), DEFAULT_STACK_SIZE);
}

#[test]
fn prime_writes_entry_below_guard_at_the_top_of_the_stack() {
    let mut t = Thread::new(1);
    t.prime(ENTRY, GUARD, BASE);
    let stack = t.stack();
    let size = stack.len();
    assert_eq!(size, DEFAULT_STACK_SIZE);
    assert_eq!(&stack[size - 16..size - 8], &[0x88, 0x77, 0x66, 0x55, 0x44, 0x33, 0x22, 0x11]);
    assert_eq!(&stack[size - 8..], &[0x08, 0x07, 0x06, 0x05, 0x04, 0x03, 0x02, 0x01]);
    assert!(stack[..size - 16].iter().all(|b| *b == 0));
    assert_eq!(t.state(), State::Ready);
    assert_eq!(t.id(), 1);
}

#[test]
fn prime_points_the_stack_pointer_at_the_entry_slot() {
    let mut t = Thread::new(1);
    t.prime(ENTRY, GUARD, BASE);
    assert_eq!(t.ctx().rsp, 0x0020_0ff0);
    assert_eq!(t.ctx().rsp, BASE + 2_097_152 - 16);
    assert_eq!(ThreadContext { rsp: 0, ..t.ctx() }, ThreadContext::default());
}

#[test]
fn prime_accepts_a_stack_that_ends_at_the_last_address() {
    let mut t = Thread::new(2);
    let base = u64::MAX - DEFAULT_STACK_SIZE as u64;
    t.prime(1, 2, base);
    assert_eq!(t.ctx().rsp, u64::MAX - 16);
}

#[test]
fn new_runtime_has_four_slots_and_one_running_unit() {
    let rt = Runtime::new();
    assert_eq!(rt.capacity(), 4);
    assert_eq!(rt.current(), 0);
    assert!(!rt.is_installed());
    assert_eq!(
        states(&rt),
        vec![State::Running, State::Available, State::Available, State::Available]
    );
    for i in 0..4 {
        assert_eq!(rt.thread(i).id(), i);
        assert_eq!(rt.thread(i).ctx(), ThreadContext::default());
    }
    for i in 0..4 {
        assert_eq!(rt.thread(i).stack().len(), DEFAULT_STACK_SIZE);
        assert!(rt.thread(i).stack().iter().all(|b| *b == 0));
    }
}

#[test]
fn every_capacity_starts_with_exactly_one_running_unit() {
    for capacity in 1..=6 {
        let rt = Runtime::with_capacity(capacity);
        assert_eq!(rt.capacity(), capacity);
        assert_eq!(rt.current(), 0);
        let all = states(&rt);
        assert_eq!(all.iter().filter(|s| **s == State::Running).count(), 1);
        assert_eq!(all[0], State::Running);
        assert!(all[1..].iter().all(|s| *s == State::Available));
    }
}

#[test]
fn capacity_one_has_no_slot_to_spawn_into() {
    let mut rt = installed(1);
    assert_eq!(rt.first_available(), None);
    assert_eq!(rt.spawn(ENTRY, GUARD, BASE), Err(SpawnError::PoolExhausted));
    assert_eq!(states(&rt), vec![State::Running]);
}

#[test]
fn init_marks_the_runtime_installed_and_nothing_else() {
    let mut rt = Runtime::new();
    rt.init();
    assert!(rt.is_installed());
    assert_eq!(rt.current(), 0);
    assert_eq!(
        states(&rt),
        vec![State::Running, State::Available, State::Available, State::Available]
    );
}

#[test]
fn first_available_is_the_lowest_free_slot() {
    let mut rt = installed(4);
    assert_eq!(rt.first_available(), Some(1));
    rt.spawn(ENTRY, GUARD, BASE).unwrap();
    assert_eq!(rt.first_available(), Some(2));
    rt.spawn(ENTRY, GUARD, BASE).unwrap();
    assert_eq!(rt.first_available(), Some(3));
    rt.spawn(ENTRY, GUARD, BASE).unwrap();
    assert_eq!(rt.first_available(), None);
}

#[test]
fn spawn_primes_the_first_free_slot() {
    let mut rt = installed(4);
    assert_eq!(rt.spawn(ENTRY, GUARD, BASE), Ok(()));
    assert_eq!(
        states(&rt),
        vec![State::Running, State::Ready, State::Available, State::Available]
    );
    assert_eq!(rt.current(), 0);
    let t = rt.thread(1);
    let size = t.stack().len();
    assert_eq!(&t.stack()[size - 16..size - 8], &ENTRY.to_le_bytes());
    assert_eq!(&t.stack()[size - 8..], &GUARD.to_le_bytes());
    assert_eq!(t.ctx().rsp, 0x0020_0ff0);
    assert_eq!(rt.thread(2).ctx(), ThreadContext::default());
    assert!(rt.thread(2).stack().iter().all(|b| *b == 0));
}

#[test]
fn spawn_succeeds_once_per_free_slot_and_then_reports_exhaustion() {
    for capacity in 1..=5usize {
        let mut rt = installed(capacity);
        let free = capacity - 1;
        for attempt in 0..free {
            assert_eq!(rt.spawn(ENTRY + attempt as u64, GUARD, BASE), Ok(()));
        }
        let before = states(&rt);
        assert_eq!(rt.spawn(ENTRY, GUARD, BASE), Err(SpawnError::PoolExhausted));
        assert_eq!(rt.spawn(ENTRY, GUARD, BASE), Err(SpawnError::PoolExhausted));
        assert_eq!(states(&rt), before);
        assert_eq!(rt.current(), 0);
        assert!(before[1..].iter().all(|s| *s == State::Ready));
    }
}

#[test]
fn failed_spawn_leaves_the_stacks_untouched() {
    let mut rt = installed(2);
    rt.spawn(ENTRY, GUARD, BASE).unwrap();
    assert_eq!(rt.spawn(7, 9, 0x8000), Err(SpawnError::PoolExhausted));
    let t = rt.thread(1);
    let size = t.stack().len();
    assert_eq!(&t.stack()[size - 16..size - 8], &ENTRY.to_le_bytes());
    assert_eq!(&t.stack()[size - 8..], &GUARD.to_le_bytes());
    assert_eq!(t.ctx().rsp, BASE + DEFAULT_STACK_SIZE as u64 - 16);
}
