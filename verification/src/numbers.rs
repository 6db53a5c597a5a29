use vstd::prelude::*;
use vstd::string::StringExecFns;
use crate::strfmt::{dec_digits, u64_to_dec};

verus! {

/// Whether a number is even.
pub fn is_even(n: i32) -> (r: bool)
    ensures
        r == (n as int % 2 == 0),
{
    let m: i64 = n as i64;
    let a: u64 = if m >= 0 {
        m as u64
    } else {
        (-m) as u64
    };
    let r = a % 2 == 0;
    proof {
        assert(r == (n as int % 2 == 0)) by (nonlinear_arith)
            requires
                a == (if n as int >= 0 { n as int } else { -(n as int) }),
                r == (a as int % 2 == 0),
        ;
    }
    r
}

/// Compares a guess with the secret: negative means too low, zero means
/// correct, positive means too high.
pub fn check_guess(guess: i32, secret: i32) -> (r: i32)
    ensures
        r == -1 <==> guess < secret,
        r == 0 <==> guess == secret,
        r == 1 <==> guess > secret,
{
    if guess < secret {
        -1
    } else if guess == secret {
        0
    } else {
        1
    }
}

/// The position (counting from one) of the first guess that matches the
/// secret, with every earlier guess missing it.
pub fn guesses_until_correct(guesses: &Vec<i32>, secret: i32) -> (r: Option<usize>)
    ensures
        match r {
            Some(k) => {
                &&& 1 <= k <= guesses@.len()
                &&& guesses@[k - 1] == secret
                &&& forall|j: int| 0 <= j < k - 1 ==> guesses@[j] != secret
            },
            None => forall|j: int| 0 <= j < guesses@.len() ==> guesses@[j] != secret,
        },
{
    let n = guesses.len();
    let mut i: usize = 0;
    while i < n
        invariant
            n == guesses@.len(),
            i <= n,
            forall|j: int| 0 <= j < i ==> guesses@[j] != secret,
        decreases n - i,
    {
        if guesses[i] == secret {
            return Some(i + 1);
        }
        i = i + 1;
    }
    None
}

/// Truncated (round-toward-zero) division, as machine division behaves.
pub open spec fn trunc_div(a: int, b: int) -> int {
    if a >= 0 && b > 0 {
        a / b
    } else if a < 0 && b > 0 {
        -((-a) / b)
    } else if a >= 0 && b < 0 {
        -(a / (-b))
    } else {
        (-a) / (-b)
    }
}

/// The sum of `low + step * i` for `i` in `0 ..= k - 1`.
pub open spec fn step_sum(low: int, step: int, k: int) -> int
    decreases k,
{
    if k <= 0 {
        0
    } else {
        step_sum(low, step, k - 1) + low + step * (k - 1)
    }
}

fn abs_u64(a: i32) -> (r: u64)
    ensures
        r == (if a as int >= 0 { a as int } else { -(a as int) }),
{
    let m: i64 = a as i64;
    if m >= 0 {
        m as u64
    } else {
        (-m) as u64
    }
}

fn trunc_div_i32(a: i32, b: i32) -> (q: i32)
    requires
        b != 0,
        !(a == i32::MIN && b == -1),
    ensures
        q == trunc_div(a as int, b as int),
{
    let ua = abs_u64(a);
    let ub = abs_u64(b);
    let uq = ua / ub;
    proof {
        assert(ua as int / ub as int == (if a as int >= 0 { a as int } else { -(a as int) }) / (
        if b as int >= 0 {
            b as int
        } else {
            -(b as int)
        }));
        assert(ua / ub <= ua) by (nonlinear_arith)
            requires
                ub >= 1,
        ;
    }
    if (a < 0) == (b < 0) {
        proof {
            if a == i32::MIN {
                assert(b as int <= -2 || b as int >= 1);
                if b >= 1 {
                    assert(false);
                } else {
                    assert(ua as int / ub as int <= ua as int / 2) by (nonlinear_arith)
                        requires
                            ub as int >= 2,
                            ua as int >= 0,
                    ;
                }
            }
            assert(uq <= i32::MAX as u64);
        }
        uq as i32
    } else {
        proof {
            assert(uq <= i32::MIN as i64 * -1);
        }
        ((uq as i64) * -1) as i32
    }
}

/// Adds to `total` the arithmetic series `low, low + step, ...` with
/// `1 + (high - low) / step` terms (machine division, so none when that
/// quotient is negative), as long as every partial sum and term stays in
/// range.
pub fn sum_with_step(total: &mut i32, low: i32, high: i32, step: i32)
    requires
        step != 0,
        i32::MIN <= high - low <= i32::MAX,
        !(high - low == i32::MIN && step == -1),
        forall|k: int|
            0 <= k <= trunc_div(high - low, step as int) ==> i32::MIN <= #[trigger] (step * k)
                <= i32::MAX && i32::MIN <= low + step * k <= i32::MAX,
        forall|k: int|
            0 <= k <= trunc_div(high - low, step as int) ==> i32::MIN <= old(total)
                + #[trigger] step_sum(low as int, step as int, k + 1) <= i32::MAX,
    ensures
        *final(total) == old(total) + step_sum(
            low as int,
            step as int,
            trunc_div(high - low, step as int) + 1,
        ),
{
    let diff: i32 = high - low;
    let c: i32 = trunc_div_i32(diff, step);
    if c < 0 {
        return ;
    }
    let mut n: i64 = 0;
    while n <= c as i64
        invariant
            0 <= n <= c + 1,
            c == trunc_div(high - low, step as int),
            c >= 0,
            step != 0,
            *total == old(total) + step_sum(low as int, step as int, n as int),
            forall|k: int|
                0 <= k <= c ==> i32::MIN <= #[trigger] (step * k) <= i32::MAX && i32::MIN <= low
                    + step * k <= i32::MAX,
            forall|k: int|
                0 <= k <= c ==> i32::MIN <= old(total) + #[trigger] step_sum(
                    low as int,
                    step as int,
                    k + 1,
                ) <= i32::MAX,
        decreases c as int + 1 - n as int,
    {
        proof {
            assert(0 <= n as int <= c);
            assert(i32::MIN <= step * (n as int) <= i32::MAX);
            assert(step_sum(low as int, step as int, n as int + 1) == step_sum(
                low as int,
                step as int,
                n as int,
            ) + low + step * (n as int));
        }
        let term: i32 = low + step * (n as i32);
        *total = *total + term;
        n = n + 1;
    }
}

/// The decimal rendering of a possibly negative number.
pub open spec fn int_dec(n: int) -> Seq<char> {
    if n >= 0 {
        dec_digits(n as nat)
    } else {
        seq!['-'] + dec_digits((-n) as nat)
    }
}

/// Renders a signed number in decimal.
pub fn i32_to_dec(n: i32) -> (r: String)
    ensures
        r@ == int_dec(n as int),
{
    if n >= 0 {
        u64_to_dec(n as u64)
    } else {
        let mut s = String::from_str("-");
        let d = u64_to_dec(abs_u64(n));
        s.append(d.as_str());
        proof {
            reveal_strlit("-");
            assert(s@ =~= int_dec(n as int));
        }
        s
    }
}

/// The line printed for one number of the parity game: the fizz-buzz
/// words for multiples of three and five, otherwise the number and its
/// parity.
pub open spec fn fizzbuzz_line_model(n: int) -> Seq<char> {
    if n % 3 == 0 && n % 5 == 0 {
        "FizzBuzz"@
    } else if n % 3 == 0 {
        "Fizz"@
    } else if n % 5 == 0 {
        "Buzz"@
    } else if n % 2 == 0 {
        int_dec(n) + " is even"@
    } else {
        int_dec(n) + " is odd"@
    }
}

fn divides(d: u64, n: i32) -> (r: bool)
    requires
        1 <= d <= 16,
    ensures
        r == (n as int % d as int == 0),
{
    let a = abs_u64(n);
    let r = a % d == 0;
    proof {
        assert(r == (n as int % d as int == 0)) by (nonlinear_arith)
            requires
                1 <= d as int <= 16,
                a == (if n as int >= 0 { n as int } else { -(n as int) }),
                r == (a as int % d as int == 0),
        ;
    }
    r
}

/// Renders the parity-game line for one number.
pub fn fizzbuzz_line(n: i32) -> (r: String)
    ensures
        r@ == fizzbuzz_line_model(n as int),
{
    let by3 = divides(3, n);
    let by5 = divides(5, n);
    if by3 && by5 {
        String::from_str("FizzBuzz")
    } else if by3 {
        String::from_str("Fizz")
    } else if by5 {
        String::from_str("Buzz")
    } else {
        let mut s = i32_to_dec(n);
        if is_even(n) {
            s.append(" is even");
        } else {
            s.append(" is odd");
        }
        s
    }
}

} // verus!
