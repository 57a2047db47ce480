//! The round-robin scheduling policy.
use vstd::prelude::*;
use crate::registry::{ContextQueue, TaskId, TASK_ID_INVALID, count_ready};

verus! {

/// `x` reduced once modulo `n`, for `0 <= x < 2 * n`.
pub open spec fn wrap(n: int, x: int) -> int {
    if x < n {
        x
    } else {
        x - n
    }
}

/// Slot at which the search starts: the one after `current`, or slot 0 when
/// no task is running.
pub open spec fn rr_start(n: int, current: int) -> int {
    if current == TASK_ID_INVALID as int || current + 1 >= n {
        0
    } else {
        current + 1
    }
}

/// The first ready slot among `start + i`, `start + i + 1`, ... taken
/// circularly, up to `n` slots after `start`; `TASK_ID_INVALID` if none.
pub open spec fn rr_scan(ready: Seq<bool>, start: int, i: int) -> int
    decreases ready.len() - i,
{
    if i >= ready.len() {
        TASK_ID_INVALID as int
    } else if ready[wrap(ready.len() as int, start + i)] {
        wrap(ready.len() as int, start + i)
    } else {
        rr_scan(ready, start, i + 1)
    }
}

/// Round-robin choice: the first ready slot found walking circularly from the
/// one after `current` (from slot 0 when nothing runs), at most every slot
/// once; `TASK_ID_INVALID` when no slot is ready.
pub open spec fn rr_pick(ready: Seq<bool>, current: int) -> int {
    rr_scan(ready, rr_start(ready.len() as int, current), 0)
}

/// Number of slots the scan from step `i` passes before it stops: at the
/// first ready slot, or after the last one.
pub open spec fn rr_steps(ready: Seq<bool>, start: int, i: int) -> int
    decreases ready.len() - i,
{
    if i >= ready.len() {
        ready.len() as int
    } else if ready[wrap(ready.len() as int, start + i)] {
        i
    } else {
        rr_steps(ready, start, i + 1)
    }
}

/// What the scan returns: the slot at which it stops, with nothing ready
/// before it, or the sentinel when nothing from step `i` on is ready.
pub proof fn lemma_scan(ready: Seq<bool>, start: int, i: int)
    requires
        0 <= start < ready.len(),
        0 <= i <= ready.len(),
        ready.len() < TASK_ID_INVALID,
    ensures
        ({
            let n = ready.len() as int;
            let d = rr_steps(ready, start, i);
            &&& i <= d <= n
            &&& forall|j: int| i <= j < d ==> !#[trigger] ready[wrap(n, start + j)]
            &&& d < n ==> ready[wrap(n, start + d)] && rr_scan(ready, start, i) == wrap(n, start + d)
            &&& d == n ==> rr_scan(ready, start, i) == TASK_ID_INVALID as int
        }),
    decreases ready.len() - i,
{
    let n = ready.len() as int;
    if i < n && !ready[wrap(n, start + i)] {
        lemma_scan(ready, start, i + 1);
    }
}

/// The round-robin choice is the sentinel exactly when no slot is ready,
/// and otherwise a ready slot.
pub proof fn lemma_pick_ready(ready: Seq<bool>, current: int)
    requires
        ready.len() < TASK_ID_INVALID,
        current == TASK_ID_INVALID as int || 0 <= current < ready.len(),
    ensures
        ({
            let r = rr_pick(ready, current);
            &&& r == TASK_ID_INVALID as int <==> forall|t: int| 0 <= t < ready.len() ==> !#[trigger] ready[t]
            &&& r != TASK_ID_INVALID as int ==> 0 <= r < ready.len() && ready[r]
        }),
{
    let n = ready.len() as int;
    if n > 0 {
        let start = rr_start(n, current);
        lemma_scan(ready, start, 0);
        let r = rr_pick(ready, current);
        if r == TASK_ID_INVALID as int {
            assert forall|t: int| 0 <= t < n implies !#[trigger] ready[t] by {
                let j = if t >= start { t - start } else { t + n - start };
                assert(wrap(n, start + j) == t);
            }
        }
    }
}

/// Implements the round-robin policy over a registry.
pub struct RoundRobin;

impl RoundRobin {
    /// Id of the task to run next under round-robin: see `rr_pick`.
    pub fn select_next<const N: usize>(context_queue: &ContextQueue<N>) -> (r: TaskId)
        requires
            context_queue.wf(),
        ensures
            r as int == rr_pick(context_queue.ready(), context_queue.current_id() as int),
    {
        let ghost ready = context_queue.ready();
        if N == 0 {
            return TASK_ID_INVALID;
        }
        let cur = context_queue.current();
        let start: usize = if cur == TASK_ID_INVALID || cur >= N - 1 {
            0
        } else {
            cur + 1
        };
        assert(start as int == rr_start(N as int, cur as int));
        let mut i: usize = 0;
        while i < N
            invariant
                0 <= i <= N,
                0 <= start < N,
                start as int == rr_start(N as int, cur as int),
                cur == context_queue.current_id(),
                context_queue.wf(),
                ready == context_queue.ready(),
                ready.len() == N,
                rr_scan(ready, start as int, 0) == rr_scan(ready, start as int, i as int),
            decreases N - i,
        {
            let id: usize = if i < N - start {
                start + i
            } else {
                i - (N - start)
            };
            assert(id as int == wrap(N as int, start + i));
            if context_queue.is_ready(id) {
                assert(ready[id as int]);
                return id;
            }
            assert(!ready[id as int]);
            i = i + 1;
        }
        TASK_ID_INVALID
    }
}

} // verus!

verus! {

/// The running task after `m` ticks starting from `current`, with the set
/// of ready slots left as it is.
pub open spec fn after_ticks(ready: Seq<bool>, current: int, m: nat) -> int
    decreases m,
{
    if m == 0 {
        current
    } else {
        rr_pick(ready, after_ticks(ready, current, (m - 1) as nat))
    }
}

/// How many of the first `m` ticks from `current` leave task `t` running.
pub open spec fn runs(ready: Seq<bool>, current: int, t: int, m: nat) -> nat
    decreases m,
{
    if m == 0 {
        0
    } else {
        runs(ready, current, t, (m - 1) as nat) + if after_ticks(ready, current, m) == t {
            1nat
        } else {
            0nat
        }
    }
}

/// Position of `current` in the cycle of ready slots: its rank among them,
/// or the last position when no task runs.
spec fn phase(ready: Seq<bool>, current: int) -> int {
    if current == TASK_ID_INVALID as int {
        count_ready(ready, ready.len() as int) - 1
    } else {
        count_ready(ready, current) as int
    }
}

/// Ticks needed to go from position `p` to position `g` in a cycle of `k`
/// (a whole round when they are equal).
spec fn cycle_dist(k: int, p: int, g: int) -> int {
    if g > p {
        g - p
    } else {
        g - p + k
    }
}

/// The count is unchanged over a stretch of slots that are not ready.
proof fn lemma_count_flat(ready: Seq<bool>, a: int, b: int)
    requires
        0 <= a <= b <= ready.len(),
        forall|j: int| a <= j < b ==> !#[trigger] ready[j],
    ensures
        count_ready(ready, b) == count_ready(ready, a),
    decreases b - a,
{
    if b > a {
        lemma_count_flat(ready, a, b - 1);
    }
}

/// Distinct ready slots have distinct ranks.
proof fn lemma_rank_injective(ready: Seq<bool>, a: int, b: int)
    requires
        0 <= a < b < ready.len(),
        ready[a],
    ensures
        count_ready(ready, a) < count_ready(ready, b),
{
    crate::registry::lemma_count_ready(ready, b);
    assert(count_ready(ready, a + 1) == count_ready(ready, a) + 1);
}

/// One tick moves the running task one position along the cycle of ready
/// slots.
proof fn lemma_pick_phase(ready: Seq<bool>, current: int)
    requires
        0 < ready.len() < TASK_ID_INVALID,
        count_ready(ready, ready.len() as int) >= 1,
        current == TASK_ID_INVALID as int || (0 <= current < ready.len() && ready[current]),
    ensures
        ({
            let k = count_ready(ready, ready.len() as int) as int;
            let r = rr_pick(ready, current);
            let p = phase(ready, current);
            &&& 0 <= r < ready.len() && ready[r]
            &&& 0 <= p < k
            &&& phase(ready, r) == (if p + 1 == k { 0 } else { p + 1 })
        }),
{
    let n = ready.len() as int;
    let k = count_ready(ready, n) as int;
    crate::registry::lemma_count_ready(ready, n);
    lemma_pick_ready(ready, current);
    if forall|t: int| 0 <= t < n ==> !#[trigger] ready[t] {
        lemma_count_flat(ready, 0, n);
    }
    let r = rr_pick(ready, current);
    let start = rr_start(n, current);
    lemma_scan(ready, start, 0);
    let d = rr_steps(ready, start, 0);
    if current != TASK_ID_INVALID as int {
        assert(count_ready(ready, current + 1) == count_ready(ready, current) + 1);
        assert(count_ready(ready, current + 1) <= k);
    }
    assert(count_ready(ready, r + 1) == count_ready(ready, r) + 1);
    assert(count_ready(ready, r + 1) <= k);
    if start + d < n {
        // No wrap-around: every slot from `start` up to `r` was skipped.
        assert forall|j: int| start <= j < r implies !#[trigger] ready[j] by {
            assert(ready[wrap(n, start + (j - start))] == ready[j]);
        }
        lemma_count_flat(ready, start, r);
        if current != TASK_ID_INVALID as int && current + 1 >= n {
            assert(count_ready(ready, n) == count_ready(ready, n - 1) + 1);
        }
    } else {
        // Wrap-around: the slots after `current` and those before `r` were skipped.
        assert forall|j: int| start <= j < n implies !#[trigger] ready[j] by {
            assert(ready[wrap(n, start + (j - start))] == ready[j]);
        }
        assert forall|j: int| 0 <= j < r implies !#[trigger] ready[j] by {
            assert(ready[wrap(n, start + (j + n - start))] == ready[j]);
        }
        lemma_count_flat(ready, start, n);
        lemma_count_flat(ready, 0, r);
    }
}

/// Moving one position along the cycle brings `g` one tick closer, or, on
/// reaching it, a whole round away again.
proof fn lemma_dist_step(k: int, p: int, g: int)
    requires
        0 <= p < k,
        0 <= g < k,
    ensures
        ({
            let q = if p + 1 == k { 0 } else { p + 1 };
            &&& 1 <= cycle_dist(k, p, g) <= k
            &&& q == g ==> cycle_dist(k, p, g) == 1 && cycle_dist(k, q, g) == k
            &&& q != g ==> cycle_dist(k, q, g) == cycle_dist(k, p, g) - 1
        }),
{
}

/// Along the ticks, `runs * k` minus the distance left to `t`'s position
/// grows by exactly one per tick.
proof fn lemma_runs_phase(ready: Seq<bool>, current: int, t: int, m: nat)
    requires
        0 < ready.len() < TASK_ID_INVALID,
        count_ready(ready, ready.len() as int) >= 1,
        current == TASK_ID_INVALID as int || (0 <= current < ready.len() && ready[current]),
        0 <= t < ready.len(),
        ready[t],
    ensures
        ({
            let k = count_ready(ready, ready.len() as int) as int;
            let a = after_ticks(ready, current, m);
            let g = count_ready(ready, t) as int;
            &&& a == TASK_ID_INVALID as int || (0 <= a < ready.len() && ready[a])
            &&& 0 <= phase(ready, a) < k
            &&& runs(ready, current, t, m) * k - cycle_dist(k, phase(ready, a), g) == m - cycle_dist(
                k,
                phase(ready, current),
                g,
            )
        }),
    decreases m,
{
    let n = ready.len() as int;
    let k = count_ready(ready, n) as int;
    let g = count_ready(ready, t) as int;
    crate::registry::lemma_count_ready(ready, n);
    assert(count_ready(ready, t + 1) == count_ready(ready, t) + 1);
    assert(count_ready(ready, t + 1) <= k);
    if m == 0 {
        lemma_pick_phase(ready, current);
        let c = runs(ready, current, t, m) as int;
        assert(c == 0);
        assert(c * k == 0) by (nonlinear_arith)
            requires
                c == 0,
        ;
        assert(after_ticks(ready, current, m) == current);
    } else {
        lemma_runs_phase(ready, current, t, (m - 1) as nat);
        let prev = after_ticks(ready, current, (m - 1) as nat);
        lemma_pick_phase(ready, prev);
        let a = after_ticks(ready, current, m);
        assert(a == rr_pick(ready, prev));
        lemma_pick_phase(ready, a);
        if a < t {
            lemma_rank_injective(ready, a, t);
        } else if t < a {
            lemma_rank_injective(ready, t, a);
        }
        let c0 = runs(ready, current, t, (m - 1) as nat) as int;
        let c1 = runs(ready, current, t, m) as int;
        let p = phase(ready, prev);
        let q = phase(ready, a);
        assert(q == (if p + 1 == k { 0 } else { p + 1 }));
        assert(a == t <==> q == g);
        lemma_dist_step(k, p, g);
        if a == t {
            assert(c1 == c0 + 1);
            assert(c1 * k == c0 * k + k) by (nonlinear_arith)
                requires
                    c1 == c0 + 1,
            ;
        } else {
            assert(c1 == c0);
        }
        assert(c0 * k - cycle_dist(k, p, g) == (m - 1) - cycle_dist(k, phase(ready, current), g));
        assert(c1 * k - cycle_dist(k, q, g) == m - cycle_dist(k, phase(ready, current), g));
    }
}

/// Round-robin fairness: while the set of ready tasks stays the same, with
/// `k` of them ready, each ready task runs after between `m / k` (rounded
/// down) and `m / k` rounded up of any `m` consecutive ticks, whatever was
/// running before them.
pub proof fn lemma_round_robin_fair(ready: Seq<bool>, current: int, t: int, m: nat)
    requires
        ready.len() < TASK_ID_INVALID,
        count_ready(ready, ready.len() as int) >= 2,
        current == TASK_ID_INVALID as int || (0 <= current < ready.len() && ready[current]),
        0 <= t < ready.len(),
        ready[t],
    ensures
        ({
            let k = count_ready(ready, ready.len() as int) as int;
            &&& (m as int) / k <= runs(ready, current, t, m)
            &&& runs(ready, current, t, m) <= (m + k - 1) / k
        }),
{
    let n = ready.len() as int;
    let k = count_ready(ready, n) as int;
    let g = count_ready(ready, t) as int;
    lemma_runs_phase(ready, current, t, m);
    lemma_pick_phase(ready, current);
    crate::registry::lemma_count_ready(ready, n);
    assert(count_ready(ready, t + 1) == count_ready(ready, t) + 1);
    let c = runs(ready, current, t, m) as int;
    let d0 = cycle_dist(k, phase(ready, current), g);
    let dm = cycle_dist(k, phase(ready, after_ticks(ready, current, m)), g);
    assert(1 <= d0 <= k && 1 <= dm <= k);
    assert(c * k == m - d0 + dm);
    let mm = m as int;
    assert(mm / k <= c) by (nonlinear_arith)
        requires
            c * k > mm - k,
            k > 0,
            mm >= 0,
    {
        vstd::arithmetic::div_mod::lemma_fundamental_div_mod(mm, k);
        vstd::arithmetic::div_mod::lemma_mod_bound(mm, k);
    }
    assert(c <= (mm + k - 1) / k) by (nonlinear_arith)
        requires
            c * k <= mm + k - 1,
            k > 0,
            mm >= 0,
    {
        vstd::arithmetic::div_mod::lemma_fundamental_div_mod(mm + k - 1, k);
        vstd::arithmetic::div_mod::lemma_mod_bound(mm + k - 1, k);
    }
}

} // verus!
