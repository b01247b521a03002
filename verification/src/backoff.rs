//! When a disconnected client tries again: exponential backoff by a factor
//! of 1.5 per attempt, at most 30 seconds, and a limit on the attempts.
use vstd::prelude::*;

verus! {

/// The longest wait between two attempts, in milliseconds.
pub const MAX_BACKOFF_MS: u64 = 30000;

/// `b` to the power `n`.
pub open spec fn power(b: nat, n: nat) -> nat
    decreases n,
{
    if n == 0 {
        1
    } else {
        b * power(b, (n - 1) as nat)
    }
}

/// The wait before attempt number `attempts` (counted from 0), in
/// milliseconds: `base_ms · 1.5^attempts` rounded down, at most 30000.
pub open spec fn backoff_ms(base_ms: nat, attempts: nat) -> nat {
    let exact = base_ms * power(3, attempts) / power(2, attempts);
    if exact >= 30000 {
        30000
    } else {
        exact
    }
}

proof fn lemma_power_pos(b: nat, n: nat)
    requires
        b >= 1,
    ensures
        power(b, n) >= 1,
    decreases n,
{
    if n > 0 {
        lemma_power_pos(b, (n - 1) as nat);
        assert(b * power(b, (n - 1) as nat) >= 1) by (nonlinear_arith)
            requires
                b >= 1,
                power(b, (n - 1) as nat) >= 1,
        ;
    }
}

proof fn lemma_den_bound(k: nat)
    requires
        k < 26,
    ensures
        power(2, k) <= 0x2000000,
{
    lemma_pow2_mono(k, 25);
    reveal_with_fuel(power, 26);
    assert(power(2, 25) == 0x2000000);
}

proof fn lemma_pow2_mono(k: nat, m: nat)
    requires
        k <= m,
    ensures
        power(2, k) <= power(2, m),
    decreases m,
{
    if k < m {
        lemma_pow2_mono(k, (m - 1) as nat);
        lemma_power_pos(2, (m - 1) as nat);
    }
}

/// From 26 attempts on, 1.5 to that power exceeds 30000.
proof fn lemma_growth(n: nat)
    requires
        n >= 26,
    ensures
        power(3, n) >= 30000 * power(2, n),
    decreases n,
{
    if n == 26 {
        reveal_with_fuel(power, 27);
        assert(power(3, 26) == 2541865828329);
        assert(power(2, 26) == 67108864);
    } else {
        lemma_growth((n - 1) as nat);
        let a = power(3, (n - 1) as nat);
        let b = power(2, (n - 1) as nat);
        assert(3 * a >= 30000 * (2 * b)) by (nonlinear_arith)
            requires
                a >= 30000 * b,
                b >= 0,
        ;
    }
}

/// 1.5 to a power grows with the power.
proof fn lemma_ratio_mono(k: nat, a: nat)
    requires
        k <= a,
    ensures
        power(3, a) * power(2, k) >= power(3, k) * power(2, a),
    decreases a,
{
    if a > k {
        lemma_ratio_mono(k, (a - 1) as nat);
        let x = power(3, (a - 1) as nat);
        let y = power(2, (a - 1) as nat);
        let p = power(2, k);
        let q = power(3, k);
        assert((3 * x) * p >= q * (2 * y)) by (nonlinear_arith)
            requires
                x * p >= q * y,
                x >= 0,
                y >= 0,
                p >= 0,
                q >= 0,
        ;
    }
}

/// Once the wait reaches the cap it stays there for later attempts.
proof fn lemma_capped_stays(base: nat, k: nat, a: nat)
    requires
        k <= a,
        base * power(3, k) >= 30000 * power(2, k),
    ensures
        base * power(3, a) >= 30000 * power(2, a),
{
    lemma_ratio_mono(k, a);
    lemma_power_pos(2, k);
    let p3a = power(3, a);
    let p2k = power(2, k);
    let p3k = power(3, k);
    let p2a = power(2, a);
    assert(base * p3a >= 30000 * p2a) by (nonlinear_arith)
        requires
            p3a * p2k >= p3k * p2a,
            base * p3k >= 30000 * p2k,
            p2k >= 1,
            p2a >= 0,
            base >= 0,
    ;
}

/// The wait before reconnect attempt `attempts` (counted from 0) with base
/// interval `base_ms`: `base_ms · 1.5^attempts` milliseconds rounded down,
/// at most 30000.
pub fn reconnect_delay_ms(base_ms: u64, attempts: u32) -> (d: u64)
    ensures
        d == backoff_ms(base_ms as nat, attempts as nat),
{
    if base_ms == 0 {
        proof {
            lemma_power_pos(2, attempts as nat);
            assert(0 * power(3, attempts as nat) == 0);
        }
        return 0;
    }
    let mut num: u128 = base_ms as u128;
    let mut den: u128 = 1;
    let mut k: u32 = 0;
    assert(power(3, 0) == 1 && power(2, 0) == 1);
    while k < attempts
        invariant
            k <= attempts,
            base_ms >= 1,
            num == base_ms * power(3, k as nat),
            den == power(2, k as nat),
            k <= 26,
            den <= 0x4000000,
            num <= 0xffff_ffff_ffff_ffff_ffff_ffff,
        decreases attempts - k,
    {
        if num >= 30000 * den {
            proof {
                lemma_capped_stays(base_ms as nat, k as nat, attempts as nat);
                lemma_power_pos(2, attempts as nat);
                let p2a = power(2, attempts as nat);
                let n: nat = (base_ms * power(3, attempts as nat)) as nat;
                assert(n / p2a >= 30000) by (nonlinear_arith)
                    requires
                        n >= 30000 * p2a,
                        p2a >= 1,
                ;
            }
            return 30000;
        }
        proof {
            if k >= 26 {
                lemma_growth(k as nat);
                assert(base_ms * power(3, k as nat) >= 30000 * power(2, k as nat)) by (nonlinear_arith)
                    requires
                        base_ms >= 1,
                        power(3, k as nat) >= 30000 * power(2, k as nat),
                ;
            }
            assert(k < 26);
            lemma_den_bound(k as nat);
            assert(num < 30000 * 0x2000000);
        }
        let ghost n0 = num;
        num = num * 3;
        den = den * 2;
        k = k + 1;
        proof {
            let p = power(3, (k - 1) as nat);
            assert(power(3, k as nat) == 3 * p);
            assert(num == base_ms * power(3, k as nat)) by (nonlinear_arith)
                requires
                    n0 == base_ms * p,
                    num == n0 * 3,
                    power(3, k as nat) == 3 * p,
            ;
        }
    }
    proof {
        lemma_power_pos(2, attempts as nat);
    }
    if num >= 30000 * den {
        proof {
            let p2a = power(2, attempts as nat);
            let n: nat = (base_ms * power(3, attempts as nat)) as nat;
            assert(n / p2a >= 30000) by (nonlinear_arith)
                requires
                    n >= 30000 * p2a,
                    p2a >= 1,
            ;
        }
        30000
    } else {
        let q = num / den;
        proof {
            assert(q <= num);
            assert(q < 30000) by (nonlinear_arith)
                requires
                    q == num / den,
                    num < 30000 * den,
                    den >= 1,
            ;
        }
        q as u64
    }
}

/// Whether attempt number `attempts` (counted from 0) may be made: always
/// when the limit is 0, else only below the limit.
pub open spec fn may_attempt(attempts: nat, max_attempts: nat) -> bool {
    max_attempts == 0 || attempts < max_attempts
}

/// The wait before reconnect attempt `attempts`, or `None` when the limit
/// of attempts is reached and the client gives up.
pub fn next_reconnect_delay(base_ms: u64, attempts: u32, max_attempts: u32) -> (r: Option<u64>)
    ensures
        match r {
            Some(d) => may_attempt(attempts as nat, max_attempts as nat) && d == backoff_ms(
                base_ms as nat,
                attempts as nat,
            ),
            None => !may_attempt(attempts as nat, max_attempts as nat),
        },
{
    if max_attempts > 0 && attempts >= max_attempts {
        None
    } else {
        Some(reconnect_delay_ms(base_ms, attempts))
    }
}

/// The wait never exceeds 30 seconds, never shrinks from one attempt to
/// the next, and is the base interval on the first attempt (up to the
/// cap).
pub proof fn law_backoff(base_ms: nat, attempts: nat)
    ensures
        backoff_ms(base_ms, attempts) <= 30000,
        backoff_ms(base_ms, attempts) <= backoff_ms(base_ms, attempts + 1),
        backoff_ms(base_ms, 0) == if base_ms >= 30000 {
            30000
        } else {
            base_ms
        },
{
    assert(power(3, 0) == 1 && power(2, 0) == 1);
    assert(base_ms * 1 / 1 == base_ms);
    lemma_power_pos(2, attempts);
    lemma_ratio_mono(attempts, attempts + 1);
    let p3a = power(3, attempts);
    let p2a = power(2, attempts);
    let p3b = power(3, attempts + 1);
    let p2b = power(2, attempts + 1);
    assert(p3b == 3 * p3a);
    assert(p2b == 2 * p2a);
    assert(base_ms * p3a / p2a <= base_ms * p3b / p2b) by (nonlinear_arith)
        requires
            p3b == 3 * p3a,
            p2b == 2 * p2a,
            p2a >= 1,
            base_ms >= 0,
            p3a >= 0,
    {
        let x = base_ms * p3a;
        let q = x / p2a;
        assert(q * p2a <= x);
        assert(q * p2b <= base_ms * p3b);
    }
}

} // verus!
