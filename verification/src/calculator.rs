//! A simple calculator over `i64`, with a `u64` Fibonacci function.

use vstd::prelude::*;

verus! {

/// Absolute value of a mathematical integer.
pub open spec fn abs(x: int) -> int {
    if x < 0 {
        -x
    } else {
        x
    }
}

/// Integer division that rounds toward zero, as Rust's `/` on signed integers does.
pub open spec fn trunc_div(a: int, b: int) -> int {
    if (a >= 0) == (b > 0) {
        abs(a) / abs(b)
    } else {
        -(abs(a) / abs(b))
    }
}

/// The Fibonacci sequence: `fib(0) == 0`, `fib(1) == 1`, `fib(n + 2) == fib(n + 1) + fib(n)`.
pub open spec fn fib(n: nat) -> nat
    decreases n,
{
    if n == 0 {
        0
    } else if n == 1 {
        1
    } else {
        fib((n - 1) as nat) + fib((n - 2) as nat)
    }
}

/// The sum `a + b`.
pub fn add(a: i64, b: i64) -> (r: i64)
    requires
        i64::MIN <= a + b <= i64::MAX,
    ensures
        r == a + b,
{
    a + b
}

/// The difference `a - b`.
pub fn subtract(a: i64, b: i64) -> (r: i64)
    requires
        i64::MIN <= a - b <= i64::MAX,
    ensures
        r == a - b,
{
    a - b
}

/// The product `a * b`.
pub fn multiply(a: i64, b: i64) -> (r: i64)
    requires
        i64::MIN <= a * b <= i64::MAX,
    ensures
        r == a * b,
{
    a * b
}

proof fn lemma_quotient_bounds(x: int, d: int)
    requires
        d != 0,
    ensures
        0 <= abs(x) / abs(d) <= abs(x),
        abs(d) >= 2 ==> 2 * (abs(x) / abs(d)) <= abs(x),
{
    let (n, m) = (abs(x), abs(d));
    assert(0 <= n / m <= n) by (nonlinear_arith)
        requires
            n >= 0,
            m >= 1,
    ;
    assert(m >= 2 ==> 2 * (n / m) <= n) by (nonlinear_arith)
        requires
            n >= 0,
            m >= 1,
    ;
}

/// The quotient `a / b`, rounded toward zero; an error when `b` is zero.
pub fn divide(a: i64, b: i64) -> (r: Result<i64, &'static str>)
    requires
        !(a == i64::MIN && b == -1),
    ensures
        b == 0 <==> r is Err,
        r matches Err(e) ==> e@ == "division by zero"@,
        r matches Ok(q) ==> q == trunc_div(a as int, b as int),
{
    if b == 0 {
        return Err("division by zero");
    }
    proof {
        lemma_quotient_bounds(a as int, b as int);
    }
    // `checked_div` carries the specification of signed division; with `b`
    // nonzero and no overflow possible, it always gives the quotient.
    Ok(a.checked_div(b).unwrap())
}

/// `fib` never decreases.
pub proof fn lemma_fib_monotonic(i: nat, j: nat)
    requires
        i <= j,
    ensures
        fib(i) <= fib(j),
    decreases j - i,
{
    if i < j {
        lemma_fib_monotonic(i, (j - 1) as nat);
        if j >= 2 {
            assert(fib(j) == fib((j - 1) as nat) + fib((j - 2) as nat));
        }
    }
}

/// The `n`-th Fibonacci number.
pub fn fibonacci(n: u32) -> (r: u64)
    requires
        fib(n as nat) <= u64::MAX,
    ensures
        r == fib(n as nat),
{
    match n {
        0 => 0,
        1 => 1,
        _ => {
            let mut a: u64 = 0;
            let mut b: u64 = 1;
            let mut i: u32 = 1;
            while i < n
                invariant
                    1 <= i <= n,
                    fib(n as nat) <= u64::MAX,
                    a == fib((i - 1) as nat),
                    b == fib(i as nat),
                decreases n - i,
            {
                proof {
                    lemma_fib_monotonic((i + 1) as nat, n as nat);
                }
                let temp = b;
                b = b + a;
                a = temp;
                i = i + 1;
            }
            b
        },
    }
}

/// Division rounds toward zero: the quotient times the divisor never exceeds
/// the dividend in magnitude, and falls short of it by less than the divisor.
pub proof fn lemma_divide_rounds_toward_zero(a: int, b: int)
    requires
        b != 0,
    ensures
        abs(trunc_div(a, b) * b) <= abs(a),
        abs(a) - abs(trunc_div(a, b) * b) < abs(b),
{
    let (n, m) = (abs(a), abs(b));
    let q = n / m;
    assert(q * m <= n && n - q * m < m) by (nonlinear_arith)
        requires
            n >= 0,
            m >= 1,
            q == n / m,
    ;
    assert(abs(trunc_div(a, b) * b) == q * m) by (nonlinear_arith)
        requires
            q >= 0,
            m == abs(b),
            trunc_div(a, b) == q || trunc_div(a, b) == -q,
    ;
}

/// Subtracting what was added gives back the first operand.
pub proof fn lemma_subtract_undoes_add(a: i64, b: i64)
    requires
        i64::MIN <= a + b <= i64::MAX,
    ensures
        i64::MIN <= (a + b) - b <= i64::MAX,
        (a + b) - b == a,
{
}

} // verus!
