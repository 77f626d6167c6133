//! One execution unit of the pool: identity, stack buffer, saved registers and state.

use vstd::prelude::*;
use vstd::bytes::{lemma_auto_spec_u64_to_from_le_bytes, spec_u64_to_le_bytes, u64_to_le_bytes};
use crate::context::ThreadContext;
use crate::state::State;

verus! {

/// Size in bytes of the stack buffer that every slot owns.
pub const DEFAULT_STACK_SIZE: usize = 2 * 1024 * 1024;

/// An execution unit as the contracts see it.
pub struct ThreadView {
    pub id: nat,
    pub stack: Seq<u8>,
    pub ctx: ThreadContext,
    pub state: State,
}

/// `stack` with `entry` and, above it, `guard` written little-endian into its last sixteen bytes.
pub open spec fn primed_stack(stack: Seq<u8>, entry: u64, guard: u64) -> Seq<u8> {
    stack.subrange(0, stack.len() - 16) + spec_u64_to_le_bytes(entry) + spec_u64_to_le_bytes(guard)
}

/// Priming keeps the size of a stack that has room for the two addresses.
pub proof fn lemma_primed_stack_len(stack: Seq<u8>, entry: u64, guard: u64)
    requires
        stack.len() >= 16,
    ensures
        primed_stack(stack, entry, guard).len() == stack.len(),
{
    lemma_auto_spec_u64_to_from_le_bytes();
}

/// `buf` with the eight bytes from `at` on replaced by `value`, little-endian.
pub open spec fn with_u64_le(buf: Seq<u8>, at: int, value: u64) -> Seq<u8> {
    buf.subrange(0, at) + spec_u64_to_le_bytes(value) + buf.subrange(at + 8, buf.len() as int)
}

impl ThreadView {
    /// A free slot with identity `id`: zeroed stack of the default size, zeroed registers.
    pub open spec fn fresh(id: nat) -> ThreadView {
        ThreadView {
            id,
            stack: Seq::new(DEFAULT_STACK_SIZE as nat, |i: int| 0u8),
            ctx: ThreadContext::zeroed(),
            state: State::Available,
        }
    }

    /// This unit in state `state`, all else unchanged.
    pub open spec fn with_state(self, state: State) -> ThreadView {
        ThreadView { state, ..self }
    }

    /// Whether a stack whose first byte lies at address `base` can be primed:
    /// it has room for the two addresses and its end is an address.
    pub open spec fn can_prime(self, base: u64) -> bool {
        self.stack.len() >= 16 && base + self.stack.len() <= u64::MAX
    }

    /// This unit primed to start at `entry` and to fall through to `guard`.
    ///
    /// The stack's last sixteen bytes hold `entry` and above it `guard`; the saved
    /// stack pointer is the address of the `entry` slot, with the stack's first
    /// byte at `base`; the unit is `Ready`.
    pub open spec fn primed(self, entry: u64, guard: u64, base: u64) -> ThreadView {
        ThreadView {
            id: self.id,
            stack: primed_stack(self.stack, entry, guard),
            ctx: self.ctx.with_rsp((base + self.stack.len() - 16) as u64),
            state: State::Ready,
        }
    }
}

/// An execution unit. It lives in a slot of the scheduler's pool and is
/// recycled, not freed, when its entry function has returned.
pub struct Thread {
    id: usize,
    stack: Vec<u8>,
    ctx: ThreadContext,
    state: State,
}

impl View for Thread {
    type V = ThreadView;

    closed spec fn view(&self) -> ThreadView {
        ThreadView { id: self.id as nat, stack: self.stack@, ctx: self.ctx, state: self.state }
    }
}

/// Writes `value` into `buf` at `at`, lowest byte first.
fn write_u64_le(buf: &mut Vec<u8>, at: usize, value: u64)
    requires
        at + 8 <= old(buf)@.len(),
    ensures
        final(buf)@ == with_u64_le(old(buf)@, at as int, value),
{
    let bytes = u64_to_le_bytes(value);
    let len = buf.len();
    let mut k: usize = 0;
    while k < 8
        invariant
            k <= 8,
            at + 8 <= len,
            buf@.len() == len,
            buf@.len() == old(buf)@.len(),
            bytes@ == spec_u64_to_le_bytes(value),
            bytes@.len() == 8,
            forall|j: int| 0 <= j < at ==> buf@[j] == old(buf)@[j],
            forall|j: int| at + 8 <= j < buf@.len() ==> buf@[j] == old(buf)@[j],
            forall|j: int| at + k <= j < at + 8 ==> buf@[j] == old(buf)@[j],
            forall|j: int| 0 <= j < k ==> buf@[at + j] == bytes@[j],
        decreases 8 - k,
    {
        buf[at + k] = bytes[k];
        k = k + 1;
    }
    assert(buf@ =~= with_u64_le(old(buf)@, at as int, value));
}

impl Thread {
    /// A free slot with identity `id` and a zeroed stack of `DEFAULT_STACK_SIZE` bytes.
    pub fn new(id: usize) -> (t: Thread)
        ensures
            t@ == ThreadView::fresh(id as nat),
    {
        let t = Thread {
            id,
            stack: vec![0_u8; DEFAULT_STACK_SIZE],
            ctx: ThreadContext::default(),
            state: State::Available,
        };
        assert(t.stack@ =~= Seq::new(DEFAULT_STACK_SIZE as nat, |i: int| 0u8));
        t
    }

    /// The unit's identity.
    pub fn id(&self) -> (id: usize)
        ensures
            id == self@.id,
    {
        self.id
    }

    /// The unit's lifecycle state.
    pub fn state(&self) -> (s: State)
        ensures
            s == self@.state,
    {
        self.state
    }

    /// The registers saved for the unit.
    pub fn ctx(&self) -> (c: ThreadContext)
        ensures
            c == self@.ctx,
    {
        self.ctx
    }

    /// The unit's stack buffer.
    pub fn stack(&self) -> (s: &Vec<u8>)
        ensures
            s@ == self@.stack,
    {
        &self.stack
    }

    /// Moves the unit to `state`.
    pub fn set_state(&mut self, state: State)
        ensures
            final(self)@ == old(self)@.with_state(state),
    {
        self.state = state;
    }

    /// Primes the unit so that the first switch into it starts `entry`, and the
    /// return of `entry` lands in `guard`.
    ///
    /// `entry` and `guard` are code addresses; `base` is the address of the first
    /// byte of the unit's stack buffer.
    pub fn prime(&mut self, entry: u64, guard: u64, base: u64)
        requires
            old(self)@.can_prime(base),
        ensures
            final(self)@ == old(self)@.primed(entry, guard, base),
    {
        let size = self.stack.len();
        write_u64_le(&mut self.stack, size - 8, guard);
        write_u64_le(&mut self.stack, size - 16, entry);
        self.ctx.rsp = base + (size - 16) as u64;
        self.state = State::Ready;
        assert(self.stack@ =~= primed_stack(old(self).stack@, entry, guard));
    }
}

} // verus!
