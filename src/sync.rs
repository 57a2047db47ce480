//! Interrupt masking and the counting semaphore built on top of it.
use vstd::prelude::*;

verus! {

/// The global interrupt mask, with nesting.
///
/// Interrupts are masked while at least one critical section is open; the
/// outermost `exit` unmasks them again.
pub struct InterruptMask {
    depth: u32,
}

impl InterruptMask {
    /// Number of critical sections currently open.
    pub closed spec fn depth(&self) -> nat {
        self.depth as nat
    }

    /// Whether maskable interrupts (the scheduler interrupt among them) are held off.
    pub open spec fn is_masked_spec(&self) -> bool {
        self.depth() > 0
    }

    /// State after reset: no critical section open.
    pub fn new() -> (r: InterruptMask)
        ensures
            r.depth() == 0,
    {
        InterruptMask { depth: 0 }
    }

    /// Raw entry: masks interrupts. Must be paired with `exit`.
    pub fn enter(&mut self)
        requires
            old(self).depth() < u32::MAX,
        ensures
            final(self).depth() == old(self).depth() + 1,
    {
        self.depth = self.depth + 1;
    }

    /// Raw exit: closes the innermost critical section; interrupts come back
    /// when the outermost one closes.
    pub fn exit(&mut self)
        requires
            old(self).depth() > 0,
        ensures
            final(self).depth() == old(self).depth() - 1,
    {
        self.depth = self.depth - 1;
    }

    pub fn is_masked(&self) -> (r: bool)
        ensures
            r == self.is_masked_spec(),
    {
        self.depth > 0
    }
}

/// Scoped critical-section token: interrupts stay masked from `new` until the
/// token is handed back to `release`.
pub struct Critical {
    entered_at: u32,
}

impl Critical {
    /// Depth of the mask before this section was opened.
    pub closed spec fn entered_at(&self) -> nat {
        self.entered_at as nat
    }

    /// Opens a critical section on `mask`.
    pub fn new(mask: &mut InterruptMask) -> (r: Critical)
        requires
            old(mask).depth() < u32::MAX,
        ensures
            final(mask).depth() == old(mask).depth() + 1,
            r.entered_at() == old(mask).depth(),
    {
        let entered_at = mask.depth;
        mask.enter();
        Critical { entered_at }
    }

    /// Closes the section, restoring the mask to what it was before `new`.
    pub fn release(self, mask: &mut InterruptMask)
        requires
            old(mask).depth() == self.entered_at() + 1,
        ensures
            final(mask).depth() == self.entered_at(),
    {
        mask.exit();
    }
}

/// The abstract state of a counting lock, shared by both sets of capabilities.
pub trait Counting {
    /// Units that can still be taken.
    spec fn available(&self) -> nat;

    /// Upper bound on `available`.
    spec fn capacity(&self) -> nat;
}

/// Thread-side capabilities of a counting lock.
///
/// On the device each read-modify-write runs inside a critical section, so a
/// thread and an interrupt handler never see a half-done update.
pub trait Lock: Counting {

    /// Takes one unit. A unit must be free: parking until one is released is
    /// the caller's wait-for-event loop around `try_lock`.
    fn lock(&mut self)
        requires
            old(self).available() > 0,
        ensures
            final(self).available() == old(self).available() - 1,
            final(self).capacity() == old(self).capacity(),
    ;

    /// Takes one unit if one is free, and says whether it did.
    fn try_lock(&mut self) -> (r: bool)
        ensures
            r == (old(self).available() > 0),
            final(self).available() == (if r {
                (old(self).available() - 1) as nat
            } else {
                old(self).available()
            }),
            final(self).capacity() == old(self).capacity(),
    ;

    /// Gives one unit back; never beyond the capacity.
    fn unlock(&mut self)
        ensures
            final(self).available() == (if old(self).available() < old(self).capacity() {
                old(self).available() + 1
            } else {
                old(self).available()
            }),
            final(self).capacity() == old(self).capacity(),
    ;

    /// Whether no unit is free.
    fn check_locked(&self) -> (r: bool)
        ensures
            r == (self.available() == 0),
    ;
}

/// Interrupt-side capabilities: the same operations without a critical
/// section, for callers already running at or above the priority of every
/// thread path that touches the lock.
pub trait LockIsr: Counting {
    fn try_lock(&mut self) -> (r: bool)
        ensures
            r == (old(self).available() > 0),
            final(self).available() == (if r {
                (old(self).available() - 1) as nat
            } else {
                old(self).available()
            }),
            final(self).capacity() == old(self).capacity(),
    ;

    fn unlock(&mut self)
        ensures
            final(self).available() == (if old(self).available() < old(self).capacity() {
                old(self).available() + 1
            } else {
                old(self).available()
            }),
            final(self).capacity() == old(self).capacity(),
    ;

    fn check_locked(&self) -> (r: bool)
        ensures
            r == (self.available() == 0),
    ;
}

/// Counting semaphore: `free` units out of `max`, with `free <= max`.
pub struct Sem {
    free: u8,
    max: u8,
}

impl Sem {
    #[verifier::type_invariant]
    spec fn inv(&self) -> bool {
        self.free <= self.max
    }

    /// A semaphore with `free` of `max` units available.
    pub fn new(free: u8, max: u8) -> (r: Sem)
        requires
            free <= max,
        ensures
            r.available() == free,
            r.capacity() == max,
    {
        Sem { free, max }
    }

    fn take(&mut self) -> (r: bool)
        ensures
            r == (old(self).free > 0),
            final(self).free == (if r { old(self).free - 1 } else { old(self).free as int }),
            final(self).max == old(self).max,
    {
        proof {
            use_type_invariant(&*self);
        }
        if self.free > 0 {
            self.free = self.free - 1;
            true
        } else {
            false
        }
    }

    fn give(&mut self)
        ensures
            final(self).free == (if old(self).free < old(self).max {
                old(self).free + 1
            } else {
                old(self).free as int
            }),
            final(self).max == old(self).max,
    {
        proof {
            use_type_invariant(&*self);
        }
        if self.free < self.max {
            self.free = self.free + 1;
        }
    }
}

impl Counting for Sem {
    closed spec fn available(&self) -> nat {
        self.free as nat
    }

    closed spec fn capacity(&self) -> nat {
        self.max as nat
    }
}

impl Lock for Sem {
    fn lock(&mut self) {
        let _taken = self.take();
    }

    fn try_lock(&mut self) -> (r: bool) {
        self.take()
    }

    fn unlock(&mut self) {
        self.give();
    }

    fn check_locked(&self) -> (r: bool) {
        self.free == 0
    }
}

impl LockIsr for Sem {
    fn try_lock(&mut self) -> (r: bool) {
        self.take()
    }

    fn unlock(&mut self) {
        self.give();
    }

    fn check_locked(&self) -> (r: bool) {
        self.free == 0
    }
}

} // verus!
