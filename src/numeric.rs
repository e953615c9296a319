use vstd::prelude::*;

use vstd::arithmetic::div_mod::lemma_mul_mod_noop_left;

verus! {

/// `b` to the power `e`.
pub open spec fn power(b: int, e: nat) -> int
    decreases e,
{
    if e == 0 {
        1
    } else {
        power(b, (e - 1) as nat) * b
    }
}

/// `a * b mod m`, computed without overflow.
pub fn mul_mod_u64(a: u64, b: u64, m: u64) -> (r: u64)
    requires
        m > 0,
    ensures
        r == (a as int * b as int) % (m as int),
{
    proof {
        assert((a as int) * (b as int) <= (u64::MAX as int) * (u64::MAX as int))
            by (nonlinear_arith)
            requires
                a <= u64::MAX,
                b <= u64::MAX,
        ;
    }
    ((a as u128 * b as u128) % (m as u128)) as u64
}

/// Whether `a^k` is congruent to 1 modulo `r`.
pub open spec fn is_unit_power(a: int, k: nat, r: int) -> bool {
    power(a, k) % r == 1int % r
}

/// The multiplicative order of `n` modulo `r`, searched no further than
/// `max_k`: 0 where `n` is a multiple of `r`; otherwise the least `k` in
/// `1..=max_k` with `n^k ≡ 1 (mod r)`, or `max_k + 1` where there is none.
pub fn multiplicative_order_mod_u64(n_mod_r: u64, r: u64, max_k: u64) -> (k: u64)
    requires
        r > 0,
        max_k < u64::MAX,
    ensures
        n_mod_r % r == 0 ==> k == 0,
        n_mod_r % r != 0 ==> 1 <= k <= max_k + 1,
        n_mod_r % r != 0 && k <= max_k ==> is_unit_power((n_mod_r % r) as int, k as nat, r as int),
        n_mod_r % r != 0 ==> forall|j: nat|
            1 <= j < k ==> !#[trigger] is_unit_power((n_mod_r % r) as int, j, r as int),
{
    let a = n_mod_r % r;
    if a == 0 {
        return 0;
    }
    let one = 1u64 % r;
    let mut x: u64 = one;
    let mut k: u64 = 1;
    while k <= max_k
        invariant
            1 <= k <= max_k + 1,
            max_k < u64::MAX,
            r > 0,
            a == n_mod_r % r,
            a != 0,
            one == 1u64 % r,
            x == power(a as int, (k - 1) as nat) % (r as int),
            forall|j: nat| 1 <= j < k ==> !#[trigger] is_unit_power(a as int, j, r as int),
        decreases max_k + 1 - k,
    {
        proof {
            lemma_mul_mod_noop_left(power(a as int, (k - 1) as nat), a as int, r as int);
        }
        x = mul_mod_u64(x, a, r);
        assert(x == power(a as int, k as nat) % (r as int));
        if x == one {
            return k;
        }
        k += 1;
    }
    k
}

/// Whether `n` is prime.
pub open spec fn is_prime(n: nat) -> bool {
    n >= 2 && forall|d: nat| 2 <= d < n ==> #[trigger] (n % d) != 0
}

/// Euler's totient by trial division: `r` times `(p - 1) / p` for each prime
/// `p` dividing `r`. Of the result this states that it lies in `1..=r` for
/// positive `r`, is 0 for 0, and is `r - 1` for a prime `r`.
pub fn euler_phi_u64(r: u64) -> (phi: u64)
    ensures
        r == 0 ==> phi == 0,
        r >= 1 ==> 1 <= phi <= r,
        is_prime(r as nat) ==> phi == r - 1,
{
    if r == 0 {
        return 0;
    }
    let mut n: u64 = r;
    let mut result: u64 = r;
    let ghost mut m: int = 1;
    let mut p: u64 = 2;
    while p <= n / p
        invariant
            1 <= n <= r,
            2 <= p,
            m >= 1,
            result as int == n as int * m,
            result <= r,
            is_prime(r as nat) ==> n == r && result == r,
        decreases r as int + 2 - p as int,
    {
        proof {
            assert(p * p <= n) by (nonlinear_arith)
                requires
                    p <= n / p,
                    p >= 2,
            ;
            assert(p < n) by (nonlinear_arith)
                requires
                    p * p <= n,
                    p >= 2,
            ;
            assert(p <= 0xffff_ffff) by (nonlinear_arith)
                requires
                    p * p <= n,
                    n <= u64::MAX,
            ;
        }
        let ghost n0 = n;
        if n % p == 0 {
            let ghost mut mm: int = m;
            while n % p == 0
                invariant
                    1 <= n <= r,
                    2 <= p,
                    mm >= 1,
                    result as int == n as int * mm,
                    mm % (p as int) == 0 || n % p == 0,
                    !is_prime(r as nat),
                    n <= n0,
                decreases n,
            {
                proof {
                    assert(n as int == (n / p) as int * p as int) by (nonlinear_arith)
                        requires
                            n % p == 0,
                            p > 0,
                    ;
                    assert(n / p >= 1) by (nonlinear_arith)
                        requires
                            n % p == 0,
                            n >= 1,
                            p > 0,
                    ;
                    assert((n / p) as int * (p as int * mm) == n as int * mm) by (nonlinear_arith)
                        requires
                            n as int == (n / p) as int * p as int,
                    ;
                    assert((p as int * mm) % (p as int) == 0) by (nonlinear_arith)
                        requires
                            p > 0,
                    ;
                    assert(p as int * mm >= 1) by (nonlinear_arith)
                        requires
                            p >= 2,
                            mm >= 1,
                    ;
                    mm = p as int * mm;
                    assert(n / p < n) by (nonlinear_arith)
                        requires
                            n >= 1,
                            p >= 2,
                    ;
                }
                n = n / p;
            }
            proof {
                assert(mm % (p as int) == 0);
                let q = mm / (p as int);
                assert(mm == q * p as int) by (nonlinear_arith)
                    requires
                        mm % (p as int) == 0,
                        p > 0,
                        q == mm / (p as int),
                ;
                assert(q >= 1) by (nonlinear_arith)
                    requires
                        mm == q * p as int,
                        mm >= 1,
                        p > 0,
                ;
                assert(result / p == n as int * q) by (nonlinear_arith)
                    requires
                        result as int == n as int * mm,
                        mm == q * p as int,
                        p > 0,
                ;
                assert((result / p) * (p - 1) <= result) by (nonlinear_arith)
                    requires
                        p >= 2,
                ;
                assert(q * (p - 1) >= 1) by (nonlinear_arith)
                    requires
                        q >= 1,
                        p >= 2,
                ;
                assert((result / p) as int * (p - 1) as int == n as int * (q * (p - 1)))
                    by (nonlinear_arith)
                    requires
                        result / p == n as int * q,
                ;
                m = q * (p - 1);
            }
            result = result / p * (p - 1);
        } else {
            proof {
                if is_prime(r as nat) {
                    assert(r % p != 0);
                }
            }
        }
        p += if p == 2 {
            1
        } else {
            2
        };
    }
    if n > 1 {
        proof {
            assert(result / n == m) by (nonlinear_arith)
                requires
                    result as int == n as int * m,
                    n > 1,
            ;
            assert(m * (n - 1) >= 1) by (nonlinear_arith)
                requires
                    m >= 1,
                    n > 1,
            ;
            assert((result / n) * (n - 1) <= result) by (nonlinear_arith)
                requires
                    n > 1,
            ;
        }
        result = result / n * (n - 1);
    }
    proof {
        if is_prime(r as nat) {
            assert(r / r == 1) by (nonlinear_arith)
                requires
                    r > 0,
            ;
        }
    }
    result
}

} // verus!
