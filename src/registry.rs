//! The fixed-capacity task registry: one slot per task, each free or holding
//! the saved frame of a ready task, and a cursor on the running one.
use vstd::prelude::*;
use crate::frame::{StackFrame, FRAME_WORDS, zero_frame};

verus! {

/// Index of a registry slot.
pub type TaskId = usize;

/// `current` when no task is executing (the core is on the main stack).
pub const TASK_ID_INVALID: TaskId = 0xffff_ffff;

/// Errors reported to the callers of the task API.
#[derive(Clone, Copy, PartialEq, Eq, Structural, Debug)]
pub enum TaskError {
    /// A stack buffer of this many bytes could not be allocated.
    Alloc(usize),
    /// Every one of this many slots is taken.
    MaxNtasks(usize),
    /// The handle holds no slot.
    NotFound,
}

/// One registry slot.
#[derive(Clone, Copy)]
pub enum Context {
    /// A ready task and its saved frame.
    Initialized(StackFrame),
    /// A free slot.
    Uninitialized,
}

/// Whether a slot holds a ready task.
pub open spec fn is_ready(c: Context) -> bool {
    c is Initialized
}

/// Ready flag of every slot.
pub open spec fn ready_flags(slots: Seq<Context>) -> Seq<bool> {
    Seq::new(slots.len(), |i: int| is_ready(slots[i]))
}

/// Number of ready slots among the first `n`.
pub open spec fn count_ready(ready: Seq<bool>, n: int) -> nat
    decreases n,
{
    if n <= 0 {
        0
    } else {
        count_ready(ready, n - 1) + if ready[n - 1] { 1nat } else { 0nat }
    }
}

/// Counting is monotone, never exceeds the number of slots counted, and
/// reaches it exactly when every counted slot is ready.
pub proof fn lemma_count_ready(ready: Seq<bool>, m: int)
    requires
        0 <= m <= ready.len(),
    ensures
        count_ready(ready, m) <= m,
        count_ready(ready, m) == m <==> forall|i: int| 0 <= i < m ==> #[trigger] ready[i],
        forall|a: int| 0 <= a <= m ==> count_ready(ready, a) <= #[trigger] count_ready(ready, m),
    decreases m,
{
    if m > 0 {
        lemma_count_ready(ready, m - 1);
    }
}

/// Below capacity there is always a free slot, and the other way round: so
/// with fewer than `N` tasks started, starting one more succeeds.
pub proof fn lemma_free_slot_below_capacity(ready: Seq<bool>)
    ensures
        (exists|i: int| 0 <= i < ready.len() && !#[trigger] ready[i]) <==> count_ready(ready, ready.len() as int)
            < ready.len(),
{
    lemma_count_ready(ready, ready.len() as int);
    if count_ready(ready, ready.len() as int) < ready.len() {
        assert(!(forall|i: int| 0 <= i < ready.len() ==> #[trigger] ready[i]));
    }
}

/// The registry: `N` slots and the id of the running task.
pub struct ContextQueue<const N: usize> {
    context_queue: [Context; N],
    current: TaskId,
}

impl<const N: usize> ContextQueue<N> {
    /// The slots, by id.
    pub closed spec fn slots(&self) -> Seq<Context> {
        self.context_queue@
    }

    /// Id of the running task, or `TASK_ID_INVALID`.
    pub closed spec fn current_id(&self) -> TaskId {
        self.current
    }

    /// Ready flag of every slot.
    pub open spec fn ready(&self) -> Seq<bool> {
        ready_flags(self.slots())
    }

    /// Saved frame of slot `id`, which must be ready.
    pub open spec fn frame(&self, id: int) -> Seq<u32> {
        self.slots()[id]->Initialized_0@
    }

    /// Well-formedness: ids cannot collide with the sentinel, and `current`
    /// is the sentinel or names a ready slot.
    pub open spec fn wf(&self) -> bool {
        &&& N < TASK_ID_INVALID
        &&& self.slots().len() == N
        &&& (self.current_id() == TASK_ID_INVALID || (self.current_id() < N && is_ready(
            self.slots()[self.current_id() as int],
        )))
    }

    /// An empty registry, on the main stack.
    pub fn new() -> (r: Self)
        requires
            N < TASK_ID_INVALID,
        ensures
            r.wf(),
            r.current_id() == TASK_ID_INVALID,
            forall|i: int| 0 <= i < N ==> !is_ready(#[trigger] r.slots()[i]),
    {
        let r = ContextQueue { context_queue: [Context::Uninitialized; N], current: TASK_ID_INVALID };
        assert(r.slots().len() == N);
        r
    }

    /// Takes the lowest free slot and makes it ready with a zeroed frame, or
    /// fails with `MaxNtasks(N)`, changing nothing, when every slot is taken.
    pub fn allocate(&mut self) -> (r: Result<TaskId, TaskError>)
        requires
            old(self).wf(),
        ensures
            final(self).wf(),
            final(self).current_id() == old(self).current_id(),
            r is Ok <==> exists|i: int| 0 <= i < N && !is_ready(#[trigger] old(self).slots()[i]),
            r is Ok ==> {
                let id = r->Ok_0 as int;
                &&& 0 <= id < N
                &&& !is_ready(old(self).slots()[id])
                &&& forall|j: int| 0 <= j < id ==> is_ready(#[trigger] old(self).slots()[j])
                &&& is_ready(final(self).slots()[id])
                &&& final(self).frame(id) == zero_frame()
                &&& final(self).slots() == old(self).slots().update(id, final(self).slots()[id])
            },
            r is Err ==> r->Err_0 == TaskError::MaxNtasks(N) && *final(self) == *old(self),
    {
        let mut i: usize = 0;
        while i < N
            invariant
                0 <= i <= N,
                self.wf(),
                *self == *old(self),
                forall|j: int| 0 <= j < i ==> is_ready(#[trigger] self.slots()[j]),
            decreases N - i,
        {
            if let Context::Uninitialized = self.context_queue[i] {
                let f: StackFrame = [0u32; FRAME_WORDS];
                assert(f@ =~= zero_frame());
                self.context_queue[i] = Context::Initialized(f);
                assert(self.slots() == old(self).slots().update(i as int, self.slots()[i as int]));
                return Ok(i);
            }
            i = i + 1;
        }
        Err(TaskError::MaxNtasks(N))
    }

    /// Frees slot `id`; if it was the running task, the core is back on the
    /// main stack. Ids out of range leave the slots alone.
    pub fn dealloc(&mut self, task_id: TaskId)
        requires
            old(self).wf(),
        ensures
            final(self).wf(),
            final(self).slots() == (if task_id < N {
                old(self).slots().update(task_id as int, Context::Uninitialized)
            } else {
                old(self).slots()
            }),
            final(self).current_id() == (if old(self).current_id() == task_id {
                TASK_ID_INVALID
            } else {
                old(self).current_id()
            }),
    {
        if task_id < N {
            self.context_queue[task_id] = Context::Uninitialized;
        }
        if self.current == task_id {
            self.current = TASK_ID_INVALID;
        }
    }

    /// Saved frame of slot `id`, if the slot is ready.
    pub fn frame_of(&self, task_id: TaskId) -> (r: Option<StackFrame>)
        requires
            self.wf(),
        ensures
            r is Some <==> task_id < N && is_ready(self.slots()[task_id as int]),
            r is Some ==> r->Some_0@ == self.frame(task_id as int),
    {
        if task_id < N {
            match self.context_queue[task_id] {
                Context::Initialized(f) => Some(f),
                Context::Uninitialized => None,
            }
        } else {
            None
        }
    }

    /// Overwrites the saved frame of ready slot `id`.
    pub fn set_frame(&mut self, task_id: TaskId, frame: StackFrame)
        requires
            old(self).wf(),
            task_id < N,
            is_ready(old(self).slots()[task_id as int]),
        ensures
            final(self).wf(),
            final(self).current_id() == old(self).current_id(),
            final(self).slots() == old(self).slots().update(task_id as int, Context::Initialized(frame)),
    {
        self.context_queue[task_id] = Context::Initialized(frame);
    }

    /// Whether slot `id` holds a ready task.
    pub fn is_ready(&self, task_id: TaskId) -> (r: bool)
        requires
            self.wf(),
        ensures
            r == (task_id < N && is_ready(self.slots()[task_id as int])),
    {
        task_id < N && matches!(self.context_queue[task_id], Context::Initialized(_))
    }

    /// Id of the running task, or `TASK_ID_INVALID`.
    pub fn current(&self) -> (r: TaskId)
        ensures
            r == self.current_id(),
    {
        self.current
    }

    /// Makes `id` the running task (`TASK_ID_INVALID`: none).
    pub fn set_current(&mut self, task_id: TaskId)
        requires
            old(self).wf(),
            task_id == TASK_ID_INVALID || (task_id < N && is_ready(old(self).slots()[task_id as int])),
        ensures
            final(self).wf(),
            final(self).slots() == old(self).slots(),
            final(self).current_id() == task_id,
    {
        self.current = task_id;
    }
}

} // verus!
