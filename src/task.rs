//! Caller-facing task handles and the stack buffers they run on.
use vstd::prelude::*;
use core::marker::PhantomData;
use crate::kernel::{Kernel, initial_sp};
use crate::frame::seeded_frame;
use crate::registry::{Context, TaskId, TaskError, TASK_ID_INVALID, is_ready, count_ready};

verus! {

/// Address of a task's entry function.
pub type Runner = u32;

/// Bytes in a machine word.
pub const WORD_BYTES: u32 = 4;

/// `x` rounded up to a whole number of words.
pub open spec fn align_up_word(x: int) -> int {
    (x + 3) / 4 * 4
}

/// A stack buffer: `words` machine words starting at the word-aligned
/// address `base`, all inside the 32-bit address space, borrowed for `'a`.
pub struct Stack<'a> {
    base: u32,
    words: u32,
    buffer: PhantomData<&'a mut u32>,
}

impl<'a> Stack<'a> {
    #[verifier::type_invariant]
    spec fn inv(&self) -> bool {
        &&& self.base % 4 == 0
        &&& self.base + 4 * self.words <= u32::MAX
    }

    /// First address of the buffer.
    pub closed spec fn base(&self) -> nat {
        self.base as nat
    }

    /// Length of the buffer in words.
    pub closed spec fn words(&self) -> nat {
        self.words as nat
    }

    /// The buffer of `words` words at `base`, if `base` is word-aligned and
    /// the buffer ends inside the address space.
    pub fn from_raw(base: u32, words: u32) -> (r: Option<Stack<'a>>)
        ensures
            r is Some <==> base % 4 == 0 && base + 4 * words <= u32::MAX,
            r is Some ==> r->Some_0.base() == base && r->Some_0.words() == words,
    {
        if base % 4 == 0 && words <= (u32::MAX - base) / 4 {
            Some(Stack { base, words, buffer: PhantomData })
        } else {
            None
        }
    }

    /// The largest word-aligned buffer inside a heap block.
    pub fn from_dyn(alloc: DynAlloc) -> (r: Stack<'a>)
        ensures
            align_up_word(alloc.addr() as int) <= alloc.addr() + alloc.len() ==> {
                &&& r.base() == align_up_word(alloc.addr() as int)
                &&& r.words() == (alloc.addr() + alloc.len() - r.base()) / 4
            },
            align_up_word(alloc.addr() as int) > alloc.addr() + alloc.len() ==> r.words() == 0,
    {
        proof {
            use_type_invariant(&alloc);
        }
        let block: u64 = alloc.stack as u64;
        let end: u64 = block + alloc.stack_size as u64;
        let begin: u64 = (block + 3) / 4 * 4;
        assert(begin % 4 == 0 && begin >= block && begin <= block + 3) by (nonlinear_arith)
            requires
                begin == (block + 3) / 4 * 4,
        ;
        if begin <= end {
            let words: u64 = (end - begin) / 4;
            assert(begin + 4 * words <= end) by (nonlinear_arith)
                requires
                    words == (end - begin) / 4,
                    begin <= end,
            ;
            Stack { base: begin as u32, words: words as u32, buffer: PhantomData }
        } else {
            Stack { base: (begin - 4) as u32, words: 0, buffer: PhantomData }
        }
    }

    /// The buffer of a `StaticAlloc` placed at `base`, if `base` is
    /// word-aligned and the buffer ends inside the address space. The
    /// buffer stays borrowed as long as the stack is in use.
    pub fn from_static<const N: usize>(alloc: &'a mut StaticAlloc<N>, base: u32) -> (r: Option<Stack<'a>>)
        requires
            N / 4 <= u32::MAX,
        ensures
            r is Some <==> base % 4 == 0 && base + 4 * (N / 4) <= u32::MAX,
            r is Some ==> r->Some_0.base() == base && r->Some_0.words() == N / 4,
    {
        Stack::from_raw(base, (N / 4) as u32)
    }

    /// Size of the buffer in bytes.
    pub fn size(&self) -> (r: u32)
        ensures
            r == 4 * self.words(),
    {
        proof {
            use_type_invariant(self);
        }
        self.words * WORD_BYTES
    }

    /// First address of the buffer.
    pub fn addr_start(&self) -> (r: u32)
        ensures
            r == self.base(),
    {
        self.base
    }

    /// One past the last address of the buffer.
    pub fn top(&self) -> (r: u32)
        ensures
            r == self.base() + 4 * self.words(),
    {
        proof {
            use_type_invariant(self);
        }
        self.base + self.words * WORD_BYTES
    }
}

/// A heap block obtained for a task stack: its address and its size in
/// bytes, a whole number of words.
pub struct DynAlloc {
    stack: u32,
    stack_size: u32,
}

impl DynAlloc {
    #[verifier::type_invariant]
    spec fn inv(&self) -> bool {
        &&& self.stack != 0
        &&& self.stack_size % 4 == 0
        &&& self.stack + self.stack_size <= u32::MAX
    }

    /// Address of the block.
    pub closed spec fn addr(&self) -> nat {
        self.stack as nat
    }

    /// Size of the block in bytes.
    pub closed spec fn len(&self) -> nat {
        self.stack_size as nat
    }

    /// Number of bytes to ask the allocator for a stack of `stack_size`
    /// bytes: rounded up to whole words; `None` if that does not fit.
    pub fn rounded_size(stack_size: u32) -> (r: Option<u32>)
        ensures
            r is Some <==> align_up_word(stack_size as int) <= u32::MAX,
            r is Some ==> r->Some_0 == align_up_word(stack_size as int),
    {
        if stack_size > u32::MAX - 3 {
            assert(align_up_word(stack_size as int) > u32::MAX) by (nonlinear_arith)
                requires
                    stack_size > u32::MAX - 3,
                    stack_size <= u32::MAX,
            ;
            None
        } else {
            Some((stack_size + 3) / 4 * 4)
        }
    }

    /// Takes the block the allocator returned (`0` when it failed) for a
    /// request of `stack_size` bytes, a whole number of words. A failed
    /// allocation is `Alloc(stack_size)`.
    pub fn from_block(block: u32, stack_size: u32) -> (r: Result<DynAlloc, TaskError>)
        requires
            stack_size % 4 == 0,
            block + stack_size <= u32::MAX,
        ensures
            r is Err <==> block == 0,
            r is Err ==> r->Err_0 == TaskError::Alloc(stack_size as usize),
            r is Ok ==> r->Ok_0.addr() == block && r->Ok_0.len() == stack_size,
    {
        if block == 0 {
            Err(TaskError::Alloc(stack_size as usize))
        } else {
            Ok(DynAlloc { stack: block, stack_size })
        }
    }

    /// Address of the block.
    pub fn addr_start(&self) -> (r: u32)
        ensures
            r == self.addr(),
    {
        self.stack
    }

    /// Size of the block in bytes.
    pub fn size(&self) -> (r: u32)
        ensures
            r == self.len(),
    {
        self.stack_size
    }
}

/// A stack buffer of `N` bytes (whole words) reserved in place, zeroed.
pub struct StaticAlloc<const N: usize> {
    stack: Vec<u32>,
}

impl<const N: usize> StaticAlloc<N> {
    /// The words of the buffer.
    pub closed spec fn words(&self) -> Seq<u32> {
        self.stack@
    }

    /// A zeroed buffer of `N / 4` words.
    pub fn new() -> (r: Self)
        ensures
            r.words() == Seq::new((N / 4) as nat, |i: int| 0u32),
    {
        let stack = vec![0u32; N / 4];
        assert(stack@ =~= Seq::new((N / 4) as nat, |i: int| 0u32));
        StaticAlloc { stack }
    }

    /// The words of the buffer, for the platform code that places it.
    pub fn as_slice(&self) -> (r: &[u32])
        ensures
            r@ == self.words(),
    {
        self.stack.as_slice()
    }
}

/// What `Task::stop` does to the registry (`slots`, `current`) and to the
/// slot id a handle holds: the slot is freed, the core is back on the main
/// stack if that task was running, and the handle holds no slot any more.
/// A handle holding no slot changes nothing.
pub open spec fn stop_spec(slots: Seq<Context>, current: TaskId, id: TaskId) -> (Seq<Context>, TaskId, TaskId) {
    if id == TASK_ID_INVALID {
        (slots, current, id)
    } else {
        (
            if id < slots.len() {
                slots.update(id as int, Context::Uninitialized)
            } else {
                slots
            },
            if current == id {
                TASK_ID_INVALID
            } else {
                current
            },
            TASK_ID_INVALID,
        )
    }
}

/// Stopping a handle a second time changes nothing: calling `stop` twice
/// is indistinguishable from calling it once.
pub proof fn lemma_stop_idempotent(slots: Seq<Context>, current: TaskId, id: TaskId)
    ensures
        ({
            let (s1, c1, i1) = stop_spec(slots, current, id);
            stop_spec(s1, c1, i1) == (s1, c1, i1)
        }),
{
}

/// A task handle: an entry function and the stack it runs on, and the
/// registry slot it holds while started. The handle cannot outlive the
/// stack buffer it borrows.
pub struct Task<'a> {
    runner: Runner,
    stack: Stack<'a>,
    id: TaskId,
}

impl<'a> Task<'a> {
    /// Address of the entry function.
    pub closed spec fn runner_spec(&self) -> Runner {
        self.runner
    }

    /// The stack buffer.
    pub closed spec fn stack_spec(&self) -> Stack<'a> {
        self.stack
    }

    /// Slot the task holds, or `TASK_ID_INVALID` when not started.
    pub closed spec fn id_spec(&self) -> TaskId {
        self.id
    }

    /// A handle that is not started yet. No side effect.
    pub fn from_rs(runner: Runner, stack: Stack<'a>) -> (r: Task<'a>)
        ensures
            r.runner_spec() == runner,
            r.stack_spec() == stack,
            r.id_spec() == TASK_ID_INVALID,
    {
        Task { runner, stack, id: TASK_ID_INVALID }
    }

    /// Registers the task (see `Kernel::start_task`): its frame is seeded
    /// with SP at the top of its stack aligned down to 8 and R0 at `handle`,
    /// the address of this handle. Fails with `MaxNtasks(N)`, changing
    /// nothing, when every slot is taken. A handle already started stays as
    /// it is.
    pub fn start<const N: usize>(&mut self, kernel: &mut Kernel<N>, handle: u32) -> (r: Result<(), TaskError>)
        requires
            old(kernel).inv(),
            old(kernel).mask().depth() < u32::MAX,
        ensures
            final(kernel).inv(),
            final(kernel).mask().depth() == old(kernel).mask().depth(),
            final(kernel).pending() == old(kernel).pending(),
            final(kernel).trampoline() == old(kernel).trampoline(),
            final(kernel).terminator() == old(kernel).terminator(),
            final(kernel).queue().current_id() == old(kernel).queue().current_id(),
            final(self).runner_spec() == old(self).runner_spec(),
            final(self).stack_spec() == old(self).stack_spec(),
            old(self).id_spec() != TASK_ID_INVALID ==> {
                &&& r is Ok
                &&& final(self).id_spec() == old(self).id_spec()
                &&& final(kernel).queue() == old(kernel).queue()
            },
            old(self).id_spec() == TASK_ID_INVALID ==> {
                &&& r is Ok <==> exists|i: int| 0 <= i < N && !is_ready(#[trigger] old(kernel).queue().slots()[i])
                &&& r is Ok <==> count_ready(old(kernel).queue().ready(), N as int) < N
                &&& r is Err ==> r->Err_0 == TaskError::MaxNtasks(N) && final(kernel).queue() == old(kernel).queue()
                    && final(self).id_spec() == TASK_ID_INVALID
                &&& r is Ok ==> {
                    let id = final(self).id_spec() as int;
                    &&& 0 <= id < N
                    &&& !is_ready(old(kernel).queue().slots()[id])
                    &&& forall|j: int| 0 <= j < id ==> is_ready(#[trigger] old(kernel).queue().slots()[j])
                    &&& final(kernel).queue().slots() == old(kernel).queue().slots().update(
                        id,
                        final(kernel).queue().slots()[id],
                    )
                    &&& is_ready(final(kernel).queue().slots()[id])
                    &&& final(kernel).queue().frame(id) == seeded_frame(
                        old(kernel).trampoline(),
                        initial_sp((old(self).stack_spec().base() + 4 * old(self).stack_spec().words()) as u32),
                        handle,
                        old(kernel).terminator(),
                    )
                }
            },
    {
        if self.id != TASK_ID_INVALID {
            return Ok(());
        }
        let top = self.stack.top();
        match kernel.start_task(top, handle) {
            Ok(id) => {
                self.id = id;
                Ok(())
            },
            Err(e) => Err(e),
        }
    }

    /// Removes the task from the registry (see `stop_spec`). Stopping a
    /// handle that holds no slot does nothing, so stopping twice is the
    /// same as stopping once. A task stopped while running keeps running
    /// until the scheduler interrupt next runs, and never again after.
    pub fn stop<const N: usize>(&mut self, kernel: &mut Kernel<N>)
        requires
            old(kernel).inv(),
            old(kernel).mask().depth() < u32::MAX,
        ensures
            final(kernel).inv(),
            final(kernel).mask().depth() == old(kernel).mask().depth(),
            final(kernel).pending() == old(kernel).pending(),
            final(kernel).trampoline() == old(kernel).trampoline(),
            final(kernel).terminator() == old(kernel).terminator(),
            final(self).runner_spec() == old(self).runner_spec(),
            final(self).stack_spec() == old(self).stack_spec(),
            (final(kernel).queue().slots(), final(kernel).queue().current_id(), final(self).id_spec())
                == stop_spec(old(kernel).queue().slots(), old(kernel).queue().current_id(), old(self).id_spec()),
    {
        if self.id != TASK_ID_INVALID {
            kernel.stop_task(self.id);
            self.id = TASK_ID_INVALID;
        }
    }

    /// Slot the task holds, or `TASK_ID_INVALID` when not started.
    pub fn id(&self) -> (r: TaskId)
        ensures
            r == self.id_spec(),
    {
        self.id
    }

    /// Address of the entry function.
    pub fn runner(&self) -> (r: Runner)
        ensures
            r == self.runner_spec(),
    {
        self.runner
    }

    /// The stack buffer.
    pub fn stack(&self) -> (r: &Stack<'a>)
        ensures
            *r == self.stack_spec(),
    {
        &self.stack
    }
}

} // verus!
