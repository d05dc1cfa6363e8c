//! A work-stealing thread pool scheduler: the verified scheduling core.

use vstd::prelude::*;

pub mod queues;
pub mod schedule;
pub mod task;

pub use task::Task;

verus! {

/// Multiplier of the linear congruential generator behind [`bench_cpu_work`].
pub const LCG_MULTIPLIER: u64 = 1_103_515_245;

/// Increment of the linear congruential generator behind [`bench_cpu_work`].
pub const LCG_INCREMENT: u64 = 12_345;

/// One step of the generator, in arithmetic modulo 2^64.
pub open spec fn lcg_next(x: u64) -> u64 {
    ((x * LCG_MULTIPLIER + LCG_INCREMENT) % 0x1_0000_0000_0000_0000int) as u64
}

/// The generator's state after `n` steps from zero.
pub open spec fn lcg_state(n: nat) -> u64
    decreases n,
{
    if n == 0 {
        0
    } else {
        lcg_next(lcg_state((n - 1) as nat))
    }
}

/// Deterministic CPU-bound work for benchmarks: runs the generator for
/// `iterations` steps from zero and returns its final state.
pub fn bench_cpu_work(iterations: u64) -> (r: u64)
    ensures
        r == lcg_state(iterations as nat),
{
    let mut x: u64 = 0;
    let mut i: u64 = 0;
    while i < iterations
        invariant
            i <= iterations,
            x == lcg_state(i as nat),
        decreases iterations - i,
    {
        let m: u64 = x.wrapping_mul(LCG_MULTIPLIER);
        let next: u64 = m.wrapping_add(LCG_INCREMENT);
        proof {
            lemma_wrapping_step(x, m, next);
        }
        x = next;
        i = i + 1;
    }
    x
}

/// Law: the workload is the generator run step by step from zero: zero steps
/// give zero, and each further step multiplies by 1103515245, adds 12345 and
/// wraps modulo 2^64, whatever the number of steps before it.
pub proof fn lemma_lcg_state_steps(n: nat)
    ensures
        lcg_state(0) == 0,
        lcg_state(n + 1) as int == (lcg_state(n) as int * 1103515245 + 12345)
            % 0x1_0000_0000_0000_0000int,
{
    assert(lcg_state(n + 1) == lcg_next(lcg_state(n)));
}

proof fn lemma_wrapping_step(x: u64, m: u64, next: u64)
    requires
        m as int == (x as int * LCG_MULTIPLIER as int) % 0x1_0000_0000_0000_0000int,
        next as int == (m as int + LCG_INCREMENT as int) % 0x1_0000_0000_0000_0000int,
    ensures
        next == lcg_next(x),
{
    vstd::arithmetic::div_mod::lemma_add_mod_noop(
        x as int * LCG_MULTIPLIER as int,
        LCG_INCREMENT as int,
        0x1_0000_0000_0000_0000int,
    );
    vstd::arithmetic::div_mod::lemma_mod_twice(LCG_INCREMENT as int, 0x1_0000_0000_0000_0000int);
    vstd::arithmetic::div_mod::lemma_small_mod(LCG_INCREMENT as nat, 0x1_0000_0000_0000_0000nat);
}

} // verus!
