//! The saved register frame of a suspended task.
use vstd::prelude::*;

verus! {

/// Number of machine words in a saved frame.
pub const FRAME_WORDS: usize = 17;

/// Value of xPSR with only the Thumb bit set; the Cortex-M0 faults on
/// exception return into a frame without it.
pub const XPSR_THUMB: u32 = 0x0100_0000;

/// The integer register state of a suspended task, one word per register.
///
/// Words 0..8 are the chunk the hardware stacks on exception entry
/// (R0-R3, R12, LR, PC, xPSR), words 8..16 the chunk the switch code spills
/// itself (R4-R11), and word 16 the process stack pointer.
pub type StackFrame = [u32; FRAME_WORDS];

/// The registers of a `StackFrame`, in frame order.
#[derive(Clone, Copy, PartialEq, Eq, Structural, Debug)]
pub enum StackFrameLayout {
    R0,
    R1,
    R2,
    R3,
    R12,
    Lr,
    Pc,
    Xpsr,
    R4,
    R5,
    R6,
    R7,
    R8,
    R9,
    R10,
    R11,
    Sp,
}

/// Frame word at which each register is kept.
pub open spec fn layout_offset(r: StackFrameLayout) -> int {
    match r {
        StackFrameLayout::R0 => 0,
        StackFrameLayout::R1 => 1,
        StackFrameLayout::R2 => 2,
        StackFrameLayout::R3 => 3,
        StackFrameLayout::R12 => 4,
        StackFrameLayout::Lr => 5,
        StackFrameLayout::Pc => 6,
        StackFrameLayout::Xpsr => 7,
        StackFrameLayout::R4 => 8,
        StackFrameLayout::R5 => 9,
        StackFrameLayout::R6 => 10,
        StackFrameLayout::R7 => 11,
        StackFrameLayout::R8 => 12,
        StackFrameLayout::R9 => 13,
        StackFrameLayout::R10 => 14,
        StackFrameLayout::R11 => 15,
        StackFrameLayout::Sp => 16,
    }
}

impl StackFrameLayout {
    /// Frame word at which this register is kept.
    pub fn offset(self) -> (r: usize)
        ensures
            r == layout_offset(self),
            r < FRAME_WORDS,
    {
        match self {
            StackFrameLayout::R0 => 0,
            StackFrameLayout::R1 => 1,
            StackFrameLayout::R2 => 2,
            StackFrameLayout::R3 => 3,
            StackFrameLayout::R12 => 4,
            StackFrameLayout::Lr => 5,
            StackFrameLayout::Pc => 6,
            StackFrameLayout::Xpsr => 7,
            StackFrameLayout::R4 => 8,
            StackFrameLayout::R5 => 9,
            StackFrameLayout::R6 => 10,
            StackFrameLayout::R7 => 11,
            StackFrameLayout::R8 => 12,
            StackFrameLayout::R9 => 13,
            StackFrameLayout::R10 => 14,
            StackFrameLayout::R11 => 15,
            StackFrameLayout::Sp => 16,
        }
    }
}

/// Register `r` of `frame`.
pub fn frame_get(frame: &StackFrame, r: StackFrameLayout) -> (v: u32)
    ensures
        v == frame@[layout_offset(r)],
{
    frame[r.offset()]
}

/// Sets register `r` of `frame` to `v`, leaving the others alone.
pub fn frame_set(frame: &mut StackFrame, r: StackFrameLayout, v: u32)
    ensures
        final(frame)@ == old(frame)@.update(layout_offset(r), v),
{
    let i = r.offset();
    frame[i] = v;
}

/// A frame with every register zero.
pub open spec fn zero_frame() -> Seq<u32> {
    Seq::new(FRAME_WORDS as nat, |i: int| 0u32)
}

/// The frame a task is first dispatched with: PC at the task trampoline,
/// the Thumb bit in xPSR, SP at `sp`, R0 at the task handle, LR at the
/// terminator, every other register zero.
pub open spec fn seeded_frame(trampoline: u32, sp: u32, handle: u32, terminator: u32) -> Seq<u32> {
    zero_frame()
        .update(layout_offset(StackFrameLayout::Pc), trampoline)
        .update(layout_offset(StackFrameLayout::Xpsr), XPSR_THUMB)
        .update(layout_offset(StackFrameLayout::Sp), sp)
        .update(layout_offset(StackFrameLayout::R0), handle)
        .update(layout_offset(StackFrameLayout::Lr), terminator)
}

/// Whether `frame` can be resumed by an exception return: the Thumb bit of
/// xPSR is set and SP is 8-byte aligned.
pub open spec fn frame_resumable(frame: Seq<u32>) -> bool {
    &&& frame.len() == FRAME_WORDS
    &&& frame[layout_offset(StackFrameLayout::Xpsr)] & XPSR_THUMB == XPSR_THUMB
    &&& frame[layout_offset(StackFrameLayout::Sp)] % 8 == 0
}

/// Builds the first-dispatch frame of a task.
pub fn seed_frame(trampoline: u32, sp: u32, handle: u32, terminator: u32) -> (f: StackFrame)
    ensures
        f@ == seeded_frame(trampoline, sp, handle, terminator),
{
    let mut f: StackFrame = [0u32; FRAME_WORDS];
    assert(f@ =~= zero_frame());
    frame_set(&mut f, StackFrameLayout::Pc, trampoline);
    frame_set(&mut f, StackFrameLayout::Xpsr, XPSR_THUMB);
    frame_set(&mut f, StackFrameLayout::Sp, sp);
    frame_set(&mut f, StackFrameLayout::R0, handle);
    frame_set(&mut f, StackFrameLayout::Lr, terminator);
    f
}

/// A seeded frame can be resumed whenever its stack pointer is 8-byte aligned.
pub proof fn lemma_seeded_frame_resumable(trampoline: u32, sp: u32, handle: u32, terminator: u32)
    requires
        sp % 8 == 0,
    ensures
        frame_resumable(seeded_frame(trampoline, sp, handle, terminator)),
{
    let f = seeded_frame(trampoline, sp, handle, terminator);
    assert(f[7] == XPSR_THUMB);
    assert(XPSR_THUMB & XPSR_THUMB == XPSR_THUMB) by (bit_vector);
}

} // verus!
