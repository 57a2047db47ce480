use m0kernel::frame::{frame_get, StackFrame, StackFrameLayout, FRAME_WORDS, XPSR_THUMB};
use m0kernel::kernel::Kernel;
use m0kernel::registry::{TaskError, TASK_ID_INVALID};
use m0kernel::task::{DynAlloc, Stack, StaticAlloc, Task};

const TRAMPOLINE: u32 = 0x0800_0101;
const TERMINATOR: u32 = 0x0800_0181;
const ENTRY_A: u32 = 0x0800_0401;
const ENTRY_B: u32 = 0x0800_0481;
const ENTRY_C: u32 = 0x0800_0501;

/// Register state of the boot code on the main stack.
fn main_cpu() -> StackFrame {
    let mut cpu = [0u32; FRAME_WORDS];
    cpu[7] = XPSR_THUMB;
    cpu[16] = 0x2000_3ff0;
    cpu
}

/// One tick: the timer pends the scheduler interrupt, which then runs.
fn tick<const N: usize>(k: &mut Kernel<N>, cpu: &mut StackFrame) -> bool {
    k.on_tick();
    k.pend_sv(cpu)
}

fn stack_at(base: u32, bytes: u32) -> Stack<'static> {
    Stack::from_raw(base, bytes / 4).unwrap()
}

#[test]
fn boot_with_no_tasks() {
    let mut k = Kernel::<2>::new(TRAMPOLINE, TERMINATOR);
    let mut cpu = main_cpu();
    for _ in 0..100 {
        assert!(!tick(&mut k, &mut cpu));
        assert_eq!(k.current(), TASK_ID_INVALID);
        assert!(!k.is_pending());
    }
    assert_eq!(cpu, main_cpu());
    assert_eq!(k.frame_of(0), None);
    assert_eq!(k.frame_of(1), None);
}

#[test]
fn single_task_echo() {
    let mut k = Kernel::<2>::new(TRAMPOLINE, TERMINATOR);
    let mut cpu = main_cpu();
    let base: u32 = 0x2000_0100;
    let mut a = Task::from_rs(ENTRY_A, stack_at(base, 256));
    assert_eq!(a.start(&mut k, 0x2000_1000), Ok(()));
    assert_eq!(a.id(), 0);
    let mut shared: u32 = 0xdead_beef;
    for i in 0..10 {
        let switched = tick(&mut k, &mut cpu);
        assert_eq!(switched, i == 0);
        assert_eq!(k.current(), 0);
        // The task runs: it writes its id into the shared word.
        shared = k.current() as u32;
    }
    assert_eq!(shared, 0);
    assert_eq!(frame_get(&cpu, StackFrameLayout::Pc), TRAMPOLINE);
    assert_eq!(frame_get(&cpu, StackFrameLayout::R0), 0x2000_1000);
    let frame = k.frame_of(0).unwrap();
    let sp = frame_get(&frame, StackFrameLayout::Sp);
    assert!(sp >= base && sp <= base + 256);
    assert_eq!(sp, base + 256);
}

#[test]
fn two_task_round_robin() {
    let mut k = Kernel::<2>::new(TRAMPOLINE, TERMINATOR);
    let mut cpu = main_cpu();
    let mut a = Task::from_rs(ENTRY_A, stack_at(0x2000_0000, 256));
    let mut b = Task::from_rs(ENTRY_B, stack_at(0x2000_0100, 256));
    assert_eq!(a.start(&mut k, 0x2000_1000), Ok(()));
    assert_eq!(b.start(&mut k, 0x2000_1010), Ok(()));
    let mut counters = [0u32; 2];
    for i in 0..20 {
        assert!(tick(&mut k, &mut cpu));
        assert_eq!(k.current(), i % 2);
        counters[k.current()] += 1;
    }
    assert!(counters[0].abs_diff(counters[1]) <= 1);
    assert_eq!(counters, [10, 10]);
}

#[test]
fn self_termination() {
    let mut k = Kernel::<2>::new(TRAMPOLINE, TERMINATOR);
    let mut cpu = main_cpu();
    let mut a = Task::from_rs(ENTRY_A, stack_at(0x2000_0000, 256));
    assert_eq!(a.start(&mut k, 0x2000_1000), Ok(()));
    let mut counter = 0;
    let mut returned = false;
    for _ in 0..100 {
        tick(&mut k, &mut cpu);
        if k.current() == 0 && !returned {
            counter += 1;
            if counter == 5 {
                // The entry function returns; the trampoline stops the task.
                a.stop(&mut k);
                returned = true;
                assert_eq!(k.current(), TASK_ID_INVALID);
            }
        }
    }
    assert_eq!(counter, 5);
    assert_eq!(k.current(), TASK_ID_INVALID);
    assert!(!k.is_ready(0));
    assert_eq!(k.frame_of(0), None);
    assert_eq!(a.id(), TASK_ID_INVALID);
}

#[test]
fn capacity_bound_two_slots() {
    let mut k = Kernel::<2>::new(TRAMPOLINE, TERMINATOR);
    let mut a = Task::from_rs(ENTRY_A, stack_at(0x2000_0000, 256));
    let mut b = Task::from_rs(ENTRY_B, stack_at(0x2000_0100, 256));
    let mut c = Task::from_rs(ENTRY_C, stack_at(0x2000_0200, 256));
    assert_eq!(a.start(&mut k, 0x2000_1000), Ok(()));
    assert_eq!(a.id(), 0);
    assert_eq!(b.start(&mut k, 0x2000_1010), Ok(()));
    assert_eq!(b.id(), 1);
    let before = (k.current(), k.frame_of(0), k.frame_of(1));
    assert_eq!(c.start(&mut k, 0x2000_1020), Err(TaskError::MaxNtasks(2)));
    assert_eq!(c.id(), TASK_ID_INVALID);
    assert_eq!((k.current(), k.frame_of(0), k.frame_of(1)), before);
}

#[test]
fn stop_of_running() {
    let mut k = Kernel::<2>::new(TRAMPOLINE, TERMINATOR);
    let mut cpu = main_cpu();
    let mut a = Task::from_rs(ENTRY_A, stack_at(0x2000_0000, 256));
    let mut b = Task::from_rs(ENTRY_B, stack_at(0x2000_0100, 256));
    assert_eq!(a.start(&mut k, 0x2000_1000), Ok(()));
    assert_eq!(b.start(&mut k, 0x2000_1010), Ok(()));
    assert!(tick(&mut k, &mut cpu));
    assert_eq!(k.current(), 0);
    // A, running, stops B.
    b.stop(&mut k);
    assert!(!k.is_ready(1));
    assert!(!tick(&mut k, &mut cpu));
    assert_eq!(k.current(), 0);
    for _ in 0..10 {
        tick(&mut k, &mut cpu);
        assert_eq!(k.current(), 0);
    }
    assert_eq!(k.frame_of(1), None);
}

#[test]
fn stop_twice_is_stop_once() {
    let mut k = Kernel::<2>::new(TRAMPOLINE, TERMINATOR);
    let mut cpu = main_cpu();
    let mut a = Task::from_rs(ENTRY_A, stack_at(0x2000_0000, 256));
    let mut b = Task::from_rs(ENTRY_B, stack_at(0x2000_0100, 256));
    assert_eq!(a.start(&mut k, 0x2000_1000), Ok(()));
    tick(&mut k, &mut cpu);
    a.stop(&mut k);
    let once = (k.current(), k.frame_of(0), k.frame_of(1), a.id());
    // The freed slot goes to another task; a second stop must not touch it.
    assert_eq!(b.start(&mut k, 0x2000_1010), Ok(()));
    assert_eq!(b.id(), 0);
    let with_b = (k.current(), k.frame_of(0), k.frame_of(1), b.id());
    a.stop(&mut k);
    assert_eq!((k.current(), k.frame_of(0), k.frame_of(1), b.id()), with_b);
    assert_eq!(once.3, TASK_ID_INVALID);
    assert_eq!(once.0, TASK_ID_INVALID);
    // Stopping a handle that never started does nothing either.
    let mut c = Task::from_rs(ENTRY_C, stack_at(0x2000_0200, 256));
    c.stop(&mut k);
    assert_eq!((k.current(), k.frame_of(0), k.frame_of(1), b.id()), with_b);
}

#[test]
fn start_of_started_handle_changes_nothing() {
    let mut k = Kernel::<2>::new(TRAMPOLINE, TERMINATOR);
    let mut a = Task::from_rs(ENTRY_A, stack_at(0x2000_0000, 256));
    assert_eq!(a.start(&mut k, 0x2000_1000), Ok(()));
    assert_eq!(a.start(&mut k, 0x2000_1000), Ok(()));
    assert_eq!(a.id(), 0);
    assert!(!k.is_ready(1));
}

#[test]
fn fairness_three_tasks_ten_ticks() {
    let mut k = Kernel::<4>::new(TRAMPOLINE, TERMINATOR);
    let mut cpu = main_cpu();
    let mut tasks = [
        Task::from_rs(ENTRY_A, stack_at(0x2000_0000, 256)),
        Task::from_rs(ENTRY_B, stack_at(0x2000_0100, 256)),
        Task::from_rs(ENTRY_C, stack_at(0x2000_0200, 256)),
    ];
    for (i, t) in tasks.iter_mut().enumerate() {
        assert_eq!(t.start(&mut k, 0x2000_1000 + 16 * i as u32), Ok(()));
    }
    let mut runs = [0u32; 4];
    for _ in 0..10 {
        tick(&mut k, &mut cpu);
        runs[k.current()] += 1;
    }
    for r in &runs[..3] {
        assert!(*r == 3 || *r == 4);
    }
    assert_eq!(runs, [4, 3, 3, 0]);
}

#[test]
fn frame_round_trip_over_a_switch_cycle() {
    let mut k = Kernel::<2>::new(TRAMPOLINE, TERMINATOR);
    let mut cpu = main_cpu();
    let mut a = Task::from_rs(ENTRY_A, stack_at(0x2000_0000, 256));
    let mut b = Task::from_rs(ENTRY_B, stack_at(0x2000_0100, 256));
    assert_eq!(a.start(&mut k, 0x2000_1000), Ok(()));
    assert_eq!(b.start(&mut k, 0x2000_1010), Ok(()));
    assert!(tick(&mut k, &mut cpu));
    assert_eq!(k.current(), 0);
    // A runs and leaves every register with a value of its own.
    for (i, w) in cpu.iter_mut().enumerate() {
        *w = 0x1000 + i as u32;
    }
    cpu[7] = XPSR_THUMB | 0x3;
    cpu[16] = 0x2000_00c0;
    let a_state = cpu;
    assert!(tick(&mut k, &mut cpu));
    assert_eq!(k.current(), 1);
    assert_eq!(frame_get(&cpu, StackFrameLayout::Pc), TRAMPOLINE);
    assert_eq!(frame_get(&cpu, StackFrameLayout::R0), 0x2000_1010);
    assert_eq!(k.frame_of(0), Some(a_state));
    // B runs and scribbles over the registers.
    cpu[4] = 0xffff;
    cpu[10] = 0xeeee;
    assert!(tick(&mut k, &mut cpu));
    assert_eq!(k.current(), 0);
    assert_eq!(cpu, a_state);
}

#[test]
fn masked_scheduler_interrupt_waits() {
    let mut k = Kernel::<2>::new(TRAMPOLINE, TERMINATOR);
    let mut cpu = main_cpu();
    let mut a = Task::from_rs(ENTRY_A, stack_at(0x2000_0000, 256));
    assert_eq!(a.start(&mut k, 0x2000_1000), Ok(()));
    let cs = k.critical();
    assert!(k.is_masked());
    k.on_tick();
    assert!(!k.pend_sv(&mut cpu));
    assert!(k.is_pending());
    assert_eq!(k.current(), TASK_ID_INVALID);
    assert_eq!(cpu, main_cpu());
    k.release(cs);
    assert!(!k.is_masked());
    assert!(k.pend_sv(&mut cpu));
    assert!(!k.is_pending());
    assert_eq!(k.current(), 0);
}

#[test]
fn pend_sv_without_request_does_nothing() {
    let mut k = Kernel::<2>::new(TRAMPOLINE, TERMINATOR);
    let mut cpu = main_cpu();
    let mut a = Task::from_rs(ENTRY_A, stack_at(0x2000_0000, 256));
    assert_eq!(a.start(&mut k, 0x2000_1000), Ok(()));
    assert!(!k.pend_sv(&mut cpu));
    assert_eq!(k.current(), TASK_ID_INVALID);
}

#[test]
fn start_aligns_stack_pointer_down_to_eight() {
    let mut k = Kernel::<2>::new(TRAMPOLINE, TERMINATOR);
    let mut a = Task::from_rs(ENTRY_A, stack_at(0x2000_0004, 4 * 9));
    assert_eq!(a.start(&mut k, 0x2000_1000), Ok(()));
    let f = k.frame_of(0).unwrap();
    assert_eq!(frame_get(&f, StackFrameLayout::Sp), 0x2000_0028);
    assert_eq!(frame_get(&f, StackFrameLayout::Lr), TERMINATOR);
    assert_eq!(frame_get(&f, StackFrameLayout::Xpsr), XPSR_THUMB);
}

#[test]
fn stack_from_raw_checks_alignment_and_range() {
    assert!(Stack::from_raw(0x2000_0001, 4).is_none());
    assert!(Stack::from_raw(0xffff_fff0, 4).is_none());
    let s = Stack::from_raw(0xffff_ffe0, 4).unwrap();
    assert_eq!(s.size(), 16);
    assert_eq!(s.addr_start(), 0xffff_ffe0);
    assert_eq!(s.top(), 0xffff_fff0);
}

#[test]
fn dyn_alloc_rounds_and_reports_failure() {
    assert_eq!(DynAlloc::rounded_size(0), Some(0));
    assert_eq!(DynAlloc::rounded_size(13), Some(16));
    assert_eq!(DynAlloc::rounded_size(16), Some(16));
    assert_eq!(DynAlloc::rounded_size(u32::MAX - 2), None);
    assert!(matches!(DynAlloc::from_block(0, 64), Err(TaskError::Alloc(64))));
    let d = DynAlloc::from_block(0x2000_0102, 64).ok().unwrap();
    assert_eq!(d.addr_start(), 0x2000_0102);
    assert_eq!(d.size(), 64);
    let s = Stack::from_dyn(d);
    assert_eq!(s.addr_start(), 0x2000_0104);
    assert_eq!(s.size(), 60);
    let aligned = Stack::from_dyn(DynAlloc::from_block(0x2000_0100, 64).ok().unwrap());
    assert_eq!(aligned.addr_start(), 0x2000_0100);
    assert_eq!(aligned.size(), 64);
    let empty = Stack::from_dyn(DynAlloc::from_block(0x2000_0101, 0).ok().unwrap());
    assert_eq!(empty.size(), 0);
}

#[test]
fn static_alloc_reserves_zeroed_words() {
    let mut alloc = StaticAlloc::<512>::new();
    assert_eq!(alloc.as_slice().len(), 128);
    assert!(alloc.as_slice().iter().all(|w| *w == 0));
    assert!(Stack::from_static(&mut alloc, 0x2000_0202).is_none());
    let s = Stack::from_static(&mut alloc, 0x2000_0200).unwrap();
    assert_eq!(s.size(), 512);
    assert_eq!(s.top(), 0x2000_0400);
}
