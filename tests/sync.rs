use m0kernel::sync::{Critical, InterruptMask, Lock, LockIsr, Sem};

#[test]
fn sem_try_lock_takes_until_empty() {
    let mut s = Sem::new(2, 3);
    assert!(!Lock::check_locked(&s));
    assert!(Lock::try_lock(&mut s));
    assert!(Lock::try_lock(&mut s));
    assert!(Lock::check_locked(&s));
    assert!(!Lock::try_lock(&mut s));
    assert!(Lock::check_locked(&s));
}

#[test]
fn sem_unlock_is_capped_at_max() {
    let mut s = Sem::new(1, 1);
    Lock::unlock(&mut s);
    assert!(Lock::try_lock(&mut s));
    assert!(!Lock::try_lock(&mut s));
}

#[test]
fn sem_unlock_releases_a_waiter() {
    let mut s = Sem::new(0, 2);
    assert!(Lock::check_locked(&s));
    assert!(!Lock::try_lock(&mut s));
    Lock::unlock(&mut s);
    assert!(!Lock::check_locked(&s));
    Lock::lock(&mut s);
    assert!(Lock::check_locked(&s));
}

#[test]
fn sem_isr_side_matches_thread_side() {
    let mut s = Sem::new(1, 2);
    assert!(LockIsr::try_lock(&mut s));
    assert!(LockIsr::check_locked(&s));
    assert!(!LockIsr::try_lock(&mut s));
    LockIsr::unlock(&mut s);
    LockIsr::unlock(&mut s);
    LockIsr::unlock(&mut s);
    assert!(LockIsr::try_lock(&mut s));
    assert!(LockIsr::try_lock(&mut s));
    assert!(!LockIsr::try_lock(&mut s));
}

#[test]
fn sem_zero_capacity_is_always_locked() {
    let mut s = Sem::new(0, 0);
    assert!(Lock::check_locked(&s));
    Lock::unlock(&mut s);
    assert!(Lock::check_locked(&s));
    assert!(!Lock::try_lock(&mut s));
}

#[test]
fn mask_nests_and_outermost_exit_unmasks() {
    let mut m = InterruptMask::new();
    assert!(!m.is_masked());
    m.enter();
    m.enter();
    assert!(m.is_masked());
    m.exit();
    assert!(m.is_masked());
    m.exit();
    assert!(!m.is_masked());
}

#[test]
fn critical_token_restores_prior_mask() {
    let mut m = InterruptMask::new();
    let outer = Critical::new(&mut m);
    let inner = Critical::new(&mut m);
    assert!(m.is_masked());
    inner.release(&mut m);
    assert!(m.is_masked());
    outer.release(&mut m);
    assert!(!m.is_masked());
}
