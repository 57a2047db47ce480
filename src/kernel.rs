//! The kernel state shared by threads and the scheduler interrupt: the task
//! registry, the interrupt mask that guards it, and the pending bit of the
//! scheduler interrupt; with the tick entry point and the decision half of
//! the context switch.
use vstd::prelude::*;
use crate::frame::{StackFrame, frame_resumable, seeded_frame, seed_frame, lemma_seeded_frame_resumable};
use crate::registry::{ContextQueue, Context, TaskId, TaskError, TASK_ID_INVALID, is_ready, ready_flags, count_ready, lemma_free_slot_below_capacity};
use crate::sched::{RoundRobin, rr_pick};
use crate::sync::{InterruptMask, Critical};

verus! {

/// What one run of the scheduler interrupt does to the registry and to the
/// register state of the interrupted code, when it is allowed to run.
///
/// With `next` the round-robin choice: if it is the sentinel or the running
/// task, nothing moves. Otherwise the interrupted state is saved into the
/// running task's slot (if a task was running), `next` becomes the running
/// task and its saved frame becomes the register state.
pub open spec fn switch_spec(slots: Seq<Context>, current: int, cpu: StackFrame) -> (Seq<Context>, int, StackFrame) {
    let next = rr_pick(ready_flags(slots), current);
    if next == TASK_ID_INVALID as int || next == current {
        (slots, current, cpu)
    } else {
        let saved = if current == TASK_ID_INVALID as int {
            slots
        } else {
            slots.update(current, Context::Initialized(cpu))
        };
        (saved, next, slots[next]->Initialized_0)
    }
}

/// Whether every ready slot of `slots` holds a frame that an exception
/// return can resume.
pub open spec fn frames_resumable(slots: Seq<Context>) -> bool {
    forall|i: int| 0 <= i < slots.len() && is_ready(#[trigger] slots[i]) ==> frame_resumable(slots[i]->Initialized_0@)
}

/// Stack pointer a task starts with: the top of its stack, aligned down to 8.
pub open spec fn initial_sp(top: u32) -> u32 {
    (top - top % 8) as u32
}

/// Frame integrity: the register state a task is switched out with is
/// exactly the state it is resumed with when it is next switched in, every
/// register included, provided its slot was not written in between.
pub proof fn lemma_frame_round_trip(
    slots: Seq<Context>,
    t: int,
    cpu: StackFrame,
    later: Seq<Context>,
    current: int,
    cpu_later: StackFrame,
)
    requires
        0 <= t < slots.len(),
        switch_spec(slots, t, cpu).1 != t,
        later.len() == slots.len(),
        later[t] == switch_spec(slots, t, cpu).0[t],
        current != t,
        switch_spec(later, current, cpu_later).1 == t,
    ensures
        switch_spec(later, current, cpu_later).2 == cpu,
{
}

/// Critical-section exclusion: whenever the scheduler interrupt can run
/// (interrupts unmasked), every ready slot holds a complete, resumable frame.
/// Registry updates are made inside critical sections, and `pend_sv` does
/// nothing while one is open, so it never acts on a half-done update.
pub proof fn lemma_isr_sees_whole_updates<const N: usize>(k: Kernel<N>)
    requires
        k.inv(),
        k.mask().depth() == 0,
    ensures
        k.queue().wf(),
        frames_resumable(k.queue().slots()),
{
}

/// The kernel's process-wide state.
pub struct Kernel<const N: usize> {
    queue: ContextQueue<N>,
    mask: InterruptMask,
    pending: bool,
    trampoline: u32,
    terminator: u32,
}

impl<const N: usize> Kernel<N> {
    /// The task registry.
    pub closed spec fn queue(&self) -> ContextQueue<N> {
        self.queue
    }

    /// The interrupt mask.
    pub closed spec fn mask(&self) -> InterruptMask {
        self.mask
    }

    /// Whether the scheduler interrupt is pending.
    pub closed spec fn pending(&self) -> bool {
        self.pending
    }

    /// Address of the trampoline every task is first dispatched into.
    pub closed spec fn trampoline(&self) -> u32 {
        self.trampoline
    }

    /// Address of the code a task's entry function returns into.
    pub closed spec fn terminator(&self) -> u32 {
        self.terminator
    }

    /// The invariant the scheduler interrupt relies on: the registry is
    /// well formed, and whenever interrupts are unmasked (so the scheduler
    /// interrupt may run) every ready slot holds a resumable frame. A
    /// registry update that is only partly done is therefore never visible
    /// to the scheduler interrupt.
    pub open spec fn inv(&self) -> bool {
        &&& self.queue().wf()
        &&& (self.mask().depth() == 0 ==> frames_resumable(self.queue().slots()))
    }

    /// A kernel with no tasks, running on the main stack, interrupts unmasked.
    pub fn new(trampoline: u32, terminator: u32) -> (r: Self)
        requires
            N < TASK_ID_INVALID,
        ensures
            r.inv(),
            r.queue().current_id() == TASK_ID_INVALID,
            forall|i: int| 0 <= i < N ==> !is_ready(#[trigger] r.queue().slots()[i]),
            r.mask().depth() == 0,
            !r.pending(),
            r.trampoline() == trampoline,
            r.terminator() == terminator,
    {
        Kernel {
            queue: ContextQueue::new(),
            mask: InterruptMask::new(),
            pending: false,
            trampoline,
            terminator,
        }
    }

    /// Tick entry point: requests the scheduler interrupt. It does not
    /// schedule by itself.
    pub fn on_tick(&mut self)
        ensures
            final(self).pending(),
            final(self).queue() == old(self).queue(),
            final(self).mask().depth() == old(self).mask().depth(),
            final(self).trampoline() == old(self).trampoline(),
            final(self).terminator() == old(self).terminator(),
    {
        self.pending = true;
    }

    /// The scheduler interrupt. `cpu` is the register state of the code it
    /// interrupted; on a switch it is replaced by the incoming task's frame,
    /// which the exception return then resumes.
    ///
    /// While interrupts are masked, or with nothing pending, it does not run
    /// and nothing changes (the request stays pending). Otherwise it clears
    /// the request and does what `switch_spec` says; the result tells whether
    /// it switched.
    pub fn pend_sv(&mut self, cpu: &mut StackFrame) -> (switched: bool)
        requires
            old(self).inv(),
            old(self).queue().current_id() != TASK_ID_INVALID ==> frame_resumable(old(cpu)@),
        ensures
            final(self).inv(),
            final(self).mask().depth() == old(self).mask().depth(),
            final(self).trampoline() == old(self).trampoline(),
            final(self).terminator() == old(self).terminator(),
            old(self).mask().depth() > 0 || !old(self).pending() ==> {
                &&& *final(self) == *old(self)
                &&& *final(cpu) == *old(cpu)
                &&& !switched
            },
            old(self).mask().depth() == 0 && old(self).pending() ==> {
                let (slots, current, regs) = switch_spec(
                    old(self).queue().slots(),
                    old(self).queue().current_id() as int,
                    *old(cpu),
                );
                &&& !final(self).pending()
                &&& final(self).queue().slots() == slots
                &&& final(self).queue().current_id() as int == current
                &&& *final(cpu) == regs
                &&& final(self).queue().ready() == old(self).queue().ready()
                &&& current == rr_pick(old(self).queue().ready(), old(self).queue().current_id() as int)
                &&& switched == (current != old(self).queue().current_id() as int)
            },
    {
        if self.mask.is_masked() || !self.pending {
            return false;
        }
        self.pending = false;
        let next = RoundRobin::select_next(&self.queue);
        let cur = self.queue.current();
        proof {
            crate::sched::lemma_pick_ready(self.queue.ready(), cur as int);
            if cur != TASK_ID_INVALID {
                assert(self.queue.ready()[cur as int]);
            }
        }
        if next == TASK_ID_INVALID || next == cur {
            return false;
        }
        let incoming = match self.queue.frame_of(next) {
            Some(f) => f,
            None => {
                return false;
            },
        };
        let ghost slots0 = self.queue.slots();
        if cur != TASK_ID_INVALID {
            self.queue.set_frame(cur, *cpu);
            assert(ready_flags(self.queue.slots()) =~= ready_flags(slots0));
        }
        *cpu = incoming;
        self.queue.set_current(next);
        true
    }

    /// Opens a critical section: the scheduler interrupt cannot run until
    /// it is released.
    pub fn critical(&mut self) -> (cs: Critical)
        requires
            old(self).inv(),
            old(self).mask().depth() < u32::MAX,
        ensures
            final(self).inv(),
            final(self).mask().depth() == old(self).mask().depth() + 1,
            cs.entered_at() == old(self).mask().depth(),
            final(self).queue() == old(self).queue(),
            final(self).pending() == old(self).pending(),
            final(self).trampoline() == old(self).trampoline(),
            final(self).terminator() == old(self).terminator(),
    {
        Critical::new(&mut self.mask)
    }

    /// Closes a critical section opened by `critical`.
    pub fn release(&mut self, cs: Critical)
        requires
            old(self).inv(),
            old(self).mask().depth() == cs.entered_at() + 1,
            cs.entered_at() == 0 ==> frames_resumable(old(self).queue().slots()),
        ensures
            final(self).inv(),
            final(self).mask().depth() == cs.entered_at(),
            final(self).queue() == old(self).queue(),
            final(self).pending() == old(self).pending(),
            final(self).trampoline() == old(self).trampoline(),
            final(self).terminator() == old(self).terminator(),
    {
        cs.release(&mut self.mask);
    }

    /// Registers a task whose stack ends at `stack_top` and whose handle is
    /// at `handle`, under a critical section: takes the lowest free slot and
    /// seeds its frame (see `seeded_frame`; SP is `stack_top` aligned down to
    /// 8). Fails with `MaxNtasks(N)`, changing nothing, when no slot is free.
    /// The task first runs when the scheduler interrupt next picks it.
    pub fn start_task(&mut self, stack_top: u32, handle: u32) -> (r: Result<TaskId, TaskError>)
        requires
            old(self).inv(),
            old(self).mask().depth() < u32::MAX,
        ensures
            final(self).inv(),
            final(self).mask().depth() == old(self).mask().depth(),
            final(self).pending() == old(self).pending(),
            final(self).trampoline() == old(self).trampoline(),
            final(self).terminator() == old(self).terminator(),
            final(self).queue().current_id() == old(self).queue().current_id(),
            r is Ok <==> exists|i: int| 0 <= i < N && !is_ready(#[trigger] old(self).queue().slots()[i]),
            r is Ok <==> count_ready(old(self).queue().ready(), N as int) < N,
            r is Ok ==> {
                let id = r->Ok_0 as int;
                &&& 0 <= id < N
                &&& !is_ready(old(self).queue().slots()[id])
                &&& forall|j: int| 0 <= j < id ==> is_ready(#[trigger] old(self).queue().slots()[j])
                &&& final(self).queue().slots() == old(self).queue().slots().update(
                    id,
                    final(self).queue().slots()[id],
                )
                &&& is_ready(final(self).queue().slots()[id])
                &&& final(self).queue().frame(id) == seeded_frame(
                    old(self).trampoline(),
                    initial_sp(stack_top),
                    handle,
                    old(self).terminator(),
                )
            },
            r is Err ==> r->Err_0 == TaskError::MaxNtasks(N) && final(self).queue() == old(self).queue(),
    {
        proof {
            let ready = self.queue.ready();
            lemma_free_slot_below_capacity(ready);
            if exists|i: int| 0 <= i < N && !is_ready(#[trigger] self.queue.slots()[i]) {
                let i = choose|i: int| 0 <= i < N && !is_ready(#[trigger] self.queue.slots()[i]);
                assert(!ready[i]);
            }
            if exists|i: int| 0 <= i < ready.len() && !#[trigger] ready[i] {
                let i = choose|i: int| 0 <= i < ready.len() && !#[trigger] ready[i];
                assert(!is_ready(self.queue.slots()[i]));
            }
        }
        let cs = self.critical();
        let r = self.queue.allocate();
        // The slot is ready but its frame is still zero: this state is only
        // ever seen with interrupts masked.
        assert(self.inv() && self.mask.depth() > 0);
        match r {
            Err(e) => {
                self.release(cs);
                Err(e)
            },
            Ok(id) => {
                let sp: u32 = stack_top - stack_top % 8;
                let frame = seed_frame(self.trampoline, sp, handle, self.terminator);
                let ghost slots1 = self.queue.slots();
                self.queue.set_frame(id, frame);
                proof {
                    lemma_seeded_frame_resumable(self.trampoline, sp, handle, self.terminator);
                    assert(self.queue.slots() =~= old(self).queue.slots().update(id as int, self.queue.slots()[id as int]));
                    if old(self).mask.depth() == 0 {
                        assert forall|i: int| 0 <= i < N && is_ready(#[trigger] self.queue.slots()[i]) implies
                            frame_resumable(self.queue.slots()[i]->Initialized_0@) by {
                            if i != id as int {
                                assert(self.queue.slots()[i] == old(self).queue.slots()[i]);
                            }
                        }
                    }
                }
                self.release(cs);
                Ok(id)
            },
        }
    }

    /// Removes task `id` under a critical section (see `ContextQueue::dealloc`):
    /// its slot becomes free and, if it was running, the core is considered
    /// back on the main stack.
    pub fn stop_task(&mut self, task_id: TaskId)
        requires
            old(self).inv(),
            old(self).mask().depth() < u32::MAX,
        ensures
            final(self).inv(),
            final(self).mask().depth() == old(self).mask().depth(),
            final(self).pending() == old(self).pending(),
            final(self).trampoline() == old(self).trampoline(),
            final(self).terminator() == old(self).terminator(),
            final(self).queue().slots() == (if task_id < N {
                old(self).queue().slots().update(task_id as int, Context::Uninitialized)
            } else {
                old(self).queue().slots()
            }),
            final(self).queue().current_id() == (if old(self).queue().current_id() == task_id {
                TASK_ID_INVALID
            } else {
                old(self).queue().current_id()
            }),
    {
        let cs = self.critical();
        self.queue.dealloc(task_id);
        proof {
            if old(self).mask.depth() == 0 {
                assert forall|i: int| 0 <= i < N && is_ready(#[trigger] self.queue.slots()[i]) implies
                    frame_resumable(self.queue.slots()[i]->Initialized_0@) by {
                    assert(self.queue.slots()[i] == old(self).queue.slots()[i]);
                }
            }
        }
        self.release(cs);
    }

    /// Id of the running task, or `TASK_ID_INVALID`.
    pub fn current(&self) -> (r: TaskId)
        ensures
            r == self.queue().current_id(),
    {
        self.queue.current()
    }

    /// Whether slot `id` holds a ready task.
    pub fn is_ready(&self, task_id: TaskId) -> (r: bool)
        requires
            self.inv(),
        ensures
            r == (task_id < N && is_ready(self.queue().slots()[task_id as int])),
    {
        self.queue.is_ready(task_id)
    }

    /// Saved frame of slot `id`, if the slot is ready.
    pub fn frame_of(&self, task_id: TaskId) -> (r: Option<StackFrame>)
        requires
            self.inv(),
        ensures
            r is Some <==> task_id < N && is_ready(self.queue().slots()[task_id as int]),
            r is Some ==> r->Some_0@ == self.queue().frame(task_id as int),
    {
        self.queue.frame_of(task_id)
    }

    /// Whether the scheduler interrupt is pending.
    pub fn is_pending(&self) -> (r: bool)
        ensures
            r == self.pending(),
    {
        self.pending
    }

    /// Whether interrupts are masked.
    pub fn is_masked(&self) -> (r: bool)
        ensures
            r == (self.mask().depth() > 0),
    {
        self.mask.is_masked()
    }
}

} // verus!
