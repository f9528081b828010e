use vstd::prelude::*;

use crate::errors::{Error, ErrorType};

verus! {

/// `x` as an `i64` when it fits, else an `InvalidOperation`.
pub open spec fn fit_i64(x: int) -> Result<i64, ErrorType> {
    if i64::MIN <= x <= i64::MAX {
        Ok(x as i64)
    } else {
        Err(ErrorType::InvalidOperation)
    }
}

/// `r` is the integer part of the real square root of `x`.
pub open spec fn is_floor_sqrt(x: int, r: int) -> bool {
    0 <= r && r * r <= x < (r + 1) * (r + 1)
}

pub open spec fn factorial(n: nat) -> int
    decreases n,
{
    if n == 0 {
        1
    } else {
        n * factorial((n - 1) as nat)
    }
}

/// The Fibonacci numbers with `fib(0) == 0` and `fib(1) == 1`.
pub open spec fn fib(n: nat) -> int
    decreases n,
{
    if n == 0 {
        0
    } else if n == 1 {
        1
    } else {
        fib((n - 1) as nat) + fib((n - 2) as nat)
    }
}

/// What `fibo(n)` computes: one for `n == 0` and `fib(n)` otherwise.
pub open spec fn fibo_value(n: int) -> int {
    if n <= 0 {
        1
    } else {
        fib(n as nat)
    }
}

/// No integer in `[2, n)` divides `n`.
pub open spec fn no_divisor_below(n: int) -> bool {
    forall|d: int| 2 <= d < n ==> #[trigger] (n % d) != 0
}

/// The greatest common divisor of two naturals, by Euclid's recurrence.
pub open spec fn gcd_nat(a: nat, b: nat) -> nat
    decreases b,
{
    if b == 0 {
        a
    } else {
        gcd_nat(b, a % b)
    }
}

pub open spec fn abs(x: int) -> nat {
    if x < 0 {
        (-x) as nat
    } else {
        x as nat
    }
}

/// The result of applying a built-in function to `args`, which must hold
/// exactly its number of arguments.
pub open spec fn sqrt_result(args: Seq<i64>) -> Result<i64, ErrorType> {
    if args.len() != 1 {
        Err(ErrorType::InvalidOperation)
    } else if args[0] < 0 {
        Ok(0)
    } else {
        Ok(choose|r: i64| is_floor_sqrt(args[0] as int, r as int))
    }
}

pub open spec fn max_result(args: Seq<i64>) -> Result<i64, ErrorType> {
    if args.len() != 2 {
        Err(ErrorType::InvalidOperation)
    } else if args[0] >= args[1] {
        Ok(args[0])
    } else {
        Ok(args[1])
    }
}

pub open spec fn min_result(args: Seq<i64>) -> Result<i64, ErrorType> {
    if args.len() != 2 {
        Err(ErrorType::InvalidOperation)
    } else if args[0] <= args[1] {
        Ok(args[0])
    } else {
        Ok(args[1])
    }
}

pub open spec fn facto_result(args: Seq<i64>) -> Result<i64, ErrorType> {
    if args.len() != 1 || args[0] < 0 {
        Err(ErrorType::InvalidOperation)
    } else {
        fit_i64(factorial(args[0] as nat))
    }
}

pub open spec fn prime_result(args: Seq<i64>) -> Result<i64, ErrorType> {
    if args.len() != 1 || args[0] < 0 {
        Err(ErrorType::InvalidOperation)
    } else if no_divisor_below(args[0] as int) {
        Ok(1)
    } else {
        Ok(0)
    }
}

pub open spec fn fibo_result(args: Seq<i64>) -> Result<i64, ErrorType> {
    if args.len() != 1 || args[0] < 0 {
        Err(ErrorType::InvalidOperation)
    } else {
        fit_i64(fibo_value(args[0] as int))
    }
}

pub open spec fn gcd_result(args: Seq<i64>) -> Result<i64, ErrorType> {
    if args.len() != 2 {
        Err(ErrorType::InvalidOperation)
    } else {
        fit_i64(gcd_nat(abs(args[0] as int), abs(args[1] as int)) as int)
    }
}

proof fn lemma_factorial_grows(m: nat, n: nat)
    requires
        m <= n,
    ensures
        1 <= factorial(m) <= factorial(n),
    decreases n,
{
    reveal_with_fuel(factorial, 2);
    if m < n {
        lemma_factorial_grows(m, (n - 1) as nat);
        assert(factorial((n - 1) as nat) <= n * factorial((n - 1) as nat)) by (nonlinear_arith)
            requires
                n >= 1,
                factorial((n - 1) as nat) >= 1,
        ;
    } else {
        if n > 0 {
            lemma_factorial_grows((n - 1) as nat, (n - 1) as nat);
            assert(1 <= n * factorial((n - 1) as nat)) by (nonlinear_arith)
                requires
                    n >= 1,
                    factorial((n - 1) as nat) >= 1,
            ;
        }
    }
}

proof fn lemma_fib_grows(m: nat, n: nat)
    requires
        1 <= m <= n,
    ensures
        1 <= fib(m) <= fib(n),
    decreases n,
{
    reveal_with_fuel(fib, 3);
    if m < n {
        lemma_fib_grows(m, (n - 1) as nat);
        if n >= 2 {
            lemma_fib_nonneg((n - 2) as nat);
        }
    } else if n >= 2 {
        lemma_fib_grows(1, (n - 1) as nat);
        lemma_fib_nonneg((n - 2) as nat);
    }
}

proof fn lemma_fib_nonneg(n: nat)
    ensures
        fib(n) >= 0,
    decreases n,
{
    if n >= 2 {
        lemma_fib_nonneg((n - 1) as nat);
        lemma_fib_nonneg((n - 2) as nat);
    }
}

/// The library of built-in functions. Each takes its arguments as a list and
/// checks their number first.
pub struct Math;

impl Math {
    pub fn sqrt(args: Vec<i64>) -> (r: Result<i64, Error>)
        ensures
            r matches Ok(v) ==> sqrt_result(args@) == Ok::<i64, ErrorType>(v),
            r matches Err(e) ==> sqrt_result(args@) == Err::<i64, ErrorType>(e.error_type),
            args@.len() == 1 && args@[0] >= 0 ==> (r matches Ok(v) && is_floor_sqrt(
                args@[0] as int,
                v as int,
            )),
    {
        if args.len() != 1 {
            return Err(Error::new(ErrorType::InvalidOperation));
        }
        let x = args[0];
        if x < 0 {
            return Ok(0);
        }
        let mut lo: i64 = 0;
        let mut hi: i64 = 3037000500;
        assert(x < 3037000500 * 3037000500);
        while hi - lo > 1
            invariant
                0 <= lo < hi <= 3037000500,
                lo * lo <= x < hi * hi,
            decreases hi - lo,
        {
            let mid: i64 = lo + (hi - lo) / 2;
            assert(mid * mid <= 3037000499 * 3037000499) by (nonlinear_arith)
                requires
                    0 <= mid < 3037000500,
            ;
            if mid * mid <= x {
                lo = mid;
            } else {
                hi = mid;
            }
        }
        proof {
            assert(is_floor_sqrt(x as int, lo as int));
            assert forall|r: i64| is_floor_sqrt(x as int, r as int) implies r == lo by {
                lemma_floor_sqrt_unique(x as int, r as int, lo as int);
            }
        }
        Ok(lo)
    }

    pub fn max(args: Vec<i64>) -> (r: Result<i64, Error>)
        ensures
            r matches Ok(v) ==> max_result(args@) == Ok::<i64, ErrorType>(v),
            r matches Err(e) ==> max_result(args@) == Err::<i64, ErrorType>(e.error_type),
    {
        if args.len() != 2 {
            return Err(Error::new(ErrorType::InvalidOperation));
        }
        if args[0] >= args[1] {
            Ok(args[0])
        } else {
            Ok(args[1])
        }
    }

    pub fn min(args: Vec<i64>) -> (r: Result<i64, Error>)
        ensures
            r matches Ok(v) ==> min_result(args@) == Ok::<i64, ErrorType>(v),
            r matches Err(e) ==> min_result(args@) == Err::<i64, ErrorType>(e.error_type),
    {
        if args.len() != 2 {
            return Err(Error::new(ErrorType::InvalidOperation));
        }
        if args[0] <= args[1] {
            Ok(args[0])
        } else {
            Ok(args[1])
        }
    }

    pub fn facto(args: Vec<i64>) -> (r: Result<i64, Error>)
        ensures
            r matches Ok(v) ==> facto_result(args@) == Ok::<i64, ErrorType>(v),
            r matches Err(e) ==> facto_result(args@) == Err::<i64, ErrorType>(e.error_type),
    {
        if args.len() != 1 || args[0] < 0 {
            return Err(Error::new(ErrorType::InvalidOperation));
        }
        let n = args[0];
        let mut result: i64 = 1;
        let mut i: i64 = 0;
        while i < n
            invariant
                args@.len() == 1,
                n == args@[0],
                0 <= i <= n,
                result == factorial(i as nat),
            decreases n - i,
        {
            proof {
                reveal_with_fuel(factorial, 2);
                assert(factorial((i + 1) as nat) == (i + 1) * factorial(i as nat));
                assert(result * (i + 1) == (i + 1) * result) by (nonlinear_arith);
                lemma_factorial_grows(i as nat, i as nat);
                assert(result * (i + 1) >= 0) by (nonlinear_arith)
                    requires
                        result >= 1,
                        i >= 0,
                ;
            }
            match result.checked_mul(i + 1) {
                Some(v) => {
                    result = v;
                    i = i + 1;
                },
                None => {
                    proof {
                        lemma_factorial_grows((i + 1) as nat, n as nat);
                    }
                    return Err(Error::new(ErrorType::InvalidOperation));
                },
            }
        }
        Ok(result)
    }

    pub fn prime(args: Vec<i64>) -> (r: Result<i64, Error>)
        ensures
            r matches Ok(v) ==> prime_result(args@) == Ok::<i64, ErrorType>(v),
            r matches Err(e) ==> prime_result(args@) == Err::<i64, ErrorType>(e.error_type),
    {
        if args.len() != 1 || args[0] < 0 {
            return Err(Error::new(ErrorType::InvalidOperation));
        }
        let n = args[0];
        let mut d: i64 = 2;
        while d < n
            invariant
                args@.len() == 1,
                n == args@[0],
                2 <= d,
                n >= 0,
                forall|k: int| 2 <= k < d ==> #[trigger] ((n as int) % k) != 0,
            decreases n - d,
        {
            if n % d == 0 {
                assert((n as int) % (d as int) == 0);
                return Ok(0);
            }
            d = d + 1;
        }
        Ok(1)
    }

    pub fn fibo(args: Vec<i64>) -> (r: Result<i64, Error>)
        ensures
            r matches Ok(v) ==> fibo_result(args@) == Ok::<i64, ErrorType>(v),
            r matches Err(e) ==> fibo_result(args@) == Err::<i64, ErrorType>(e.error_type),
    {
        if args.len() != 1 || args[0] < 0 {
            return Err(Error::new(ErrorType::InvalidOperation));
        }
        let n = args[0];
        let mut result: i64 = 1;
        let mut prev: i64 = 0;
        let mut i: i64 = 1;
        while i < n
            invariant
                args@.len() == 1,
                n == args@[0],
                1 <= i,
                n >= 0,
                i <= n || (n == 0 && i == 1),
                result == fib(i as nat),
                prev == fib((i - 1) as nat),
            decreases n - i,
        {
            proof {
                reveal_with_fuel(fib, 3);
                lemma_fib_nonneg((i - 1) as nat);
                lemma_fib_nonneg(i as nat);
            }
            assert(fib((i + 1) as nat) == fib(i as nat) + fib((i - 1) as nat));
            match result.checked_add(prev) {
                Some(v) => {
                    prev = result;
                    result = v;
                    i = i + 1;
                },
                None => {
                    proof {
                        lemma_fib_grows((i + 1) as nat, n as nat);
                    }
                    return Err(Error::new(ErrorType::InvalidOperation));
                },
            }
        }
        proof {
            reveal_with_fuel(fib, 2);
            if n > 0 {
                assert(i == n);
            }
        }
        Ok(result)
    }

    pub fn gcd(args: Vec<i64>) -> (r: Result<i64, Error>)
        ensures
            r matches Ok(v) ==> gcd_result(args@) == Ok::<i64, ErrorType>(v),
            r matches Err(e) ==> gcd_result(args@) == Err::<i64, ErrorType>(e.error_type),
    {
        if args.len() != 2 {
            return Err(Error::new(ErrorType::InvalidOperation));
        }
        let mut x: u64 = magnitude(args[0]);
        let mut y: u64 = magnitude(args[1]);
        while y != 0
            invariant
                gcd_nat(x as nat, y as nat) == gcd_nat(abs(args@[0] as int), abs(args@[1] as int)),
            decreases y,
        {
            let r = x % y;
            x = y;
            y = r;
        }
        if x > i64::MAX as u64 {
            Err(Error::new(ErrorType::InvalidOperation))
        } else {
            Ok(x as i64)
        }
    }
}

/// The absolute value of `x`, which always fits in a `u64`.
fn magnitude(x: i64) -> (r: u64)
    ensures
        r == abs(x as int),
{
    if x < 0 {
        ((-(x as i128)) as u64)
    } else {
        x as u64
    }
}

proof fn lemma_floor_sqrt_unique(x: int, r: int, s: int)
    requires
        is_floor_sqrt(x, r),
        is_floor_sqrt(x, s),
    ensures
        r == s,
{
    if r < s {
        assert((r + 1) * (r + 1) <= s * s) by (nonlinear_arith)
            requires
                0 <= r < s,
        ;
    } else if s < r {
        assert((s + 1) * (s + 1) <= r * r) by (nonlinear_arith)
            requires
                0 <= s < r,
        ;
    }
}

} // verus!
