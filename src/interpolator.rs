//! A cursor over a linearly varying integer quantity.
//!
//! The cursor advances in constant time (a Bresenham-style quotient and
//! remainder accumulation) and always equals the exact linear value
//! `start + floor((end - start) * index / steps)`.
use vstd::prelude::*;

verus! {

/// The exact linear value after `index` steps from `start` towards `end`,
/// rounded down.
pub open spec fn value_at(start: int, end: int, steps: int, index: int) -> int {
    start + (end - start) * index / steps
}

/// The remainder left over by `value_at`.
pub open spec fn remainder_at(start: int, end: int, steps: int, index: int) -> int {
    ((end - start) * index) % steps
}

/// A cursor built from `start` to `end` in `steps` steps lands exactly on
/// `end` after advancing `steps` times.
pub proof fn lemma_round_trip(start: int, end: int, steps: int)
    requires
        steps > 0,
    ensures
        value_at(start, end, steps, steps) == end,
        value_at(start, end, steps, 0) == start,
{
    vstd::arithmetic::div_mod::lemma_div_multiples_vanish(end - start, steps);
    assert((end - start) * steps == steps * (end - start)) by (nonlinear_arith);
    assert((end - start) * 0 == 0) by (nonlinear_arith);
}

/// Between its two ends a cursor stays between `start` and `end`.
pub proof fn lemma_between(start: int, end: int, steps: int, index: int)
    requires
        steps > 0,
        0 <= index <= steps,
    ensures
        start <= end ==> start <= value_at(start, end, steps, index) <= end,
        end <= start ==> end <= value_at(start, end, steps, index) <= start,
{
    let d = end - start;
    lemma_round_trip(start, end, steps);
    if d >= 0 {
        assert(0 <= d * index <= d * steps) by (nonlinear_arith)
            requires
                d >= 0,
                0 <= index <= steps,
        ;
        vstd::arithmetic::div_mod::lemma_div_is_ordered(0, d * index, steps);
        vstd::arithmetic::div_mod::lemma_div_is_ordered(d * index, d * steps, steps);
    } else {
        assert(d * steps <= d * index <= 0) by (nonlinear_arith)
            requires
                d < 0,
                0 <= index <= steps,
        ;
        vstd::arithmetic::div_mod::lemma_div_is_ordered(d * index, 0, steps);
        vstd::arithmetic::div_mod::lemma_div_is_ordered(d * steps, d * index, steps);
    }
}

pub struct Interpolator {
    curr: i64,
    quot: i128,
    rem: i128,
    err: i128,
    steps: i128,
    start: Ghost<int>,
    end: Ghost<int>,
    index: Ghost<int>,
}

proof fn lemma_step(delta: int, n: int, i: int, c: int, e: int, q: int, r: int)
    requires
        n > 0,
        c * n + e == delta * i,
        q * n + r == delta,
    ensures
        (c + q) * n + (e + r) == delta * (i + 1),
        (c - q) * n + (e - r) == delta * (i - 1),
        (c + q + 1) * n + (e + r - n) == delta * (i + 1),
        (c - q - 1) * n + (e - r + n) == delta * (i - 1),
{
    assert(delta * (i + 1) == delta * i + delta) by (nonlinear_arith);
    assert(delta * (i - 1) == delta * i - delta) by (nonlinear_arith);
    assert((c + q) * n == c * n + q * n) by (nonlinear_arith);
    assert((c - q) * n == c * n - q * n) by (nonlinear_arith);
    assert((c + q + 1) * n == c * n + q * n + n) by (nonlinear_arith);
    assert((c - q - 1) * n == c * n - q * n - n) by (nonlinear_arith);
}

proof fn lemma_div_mod_of(x: int, n: int, q: int, r: int)
    requires
        n > 0,
        0 <= r < n,
        q * n + r == x,
    ensures
        x / n == q,
        x % n == r,
{
    vstd::arithmetic::div_mod::lemma_fundamental_div_mod_converse(x, n, q, r);
}

proof fn lemma_quot_bound(d: int, n: int, q: int, r: int)
    requires
        n >= 1,
        0 <= r < n,
        q * n + r == d,
        -0x2_0000_0000_0000_0000 <= d <= 0x2_0000_0000_0000_0000,
    ensures
        -0x2_0000_0000_0000_0000 <= q <= 0x2_0000_0000_0000_0000,
{
    if q > 0 {
        assert(q * n >= q) by (nonlinear_arith)
            requires
                q > 0,
                n >= 1,
        ;
    } else if q < -1 {
        assert((q + 1) * n <= q + 1) by (nonlinear_arith)
            requires
                q + 1 < 0,
                n >= 1,
        ;
        assert((q + 1) * n == q * n + n) by (nonlinear_arith);
    }
}

impl Interpolator {
    /// The value the cursor currently holds.
    pub closed spec fn value(&self) -> int {
        self.curr as int
    }

    pub closed spec fn start_value(&self) -> int {
        self.start@
    }

    pub closed spec fn end_value(&self) -> int {
        self.end@
    }

    pub closed spec fn step_count(&self) -> int {
        self.steps as int
    }

    /// How many steps the cursor has advanced from its start (negative after
    /// regressing past it).
    pub closed spec fn index(&self) -> int {
        self.index@
    }

    pub closed spec fn wf(&self) -> bool {
        &&& self.steps > 0
        &&& self.steps <= i64::MAX
        &&& self.start@ >= i64::MIN && self.start@ <= i64::MAX
        &&& self.end@ >= i64::MIN && self.end@ <= i64::MAX
        &&& self.quot * self.steps + self.rem == self.end@ - self.start@
        &&& 0 <= self.rem < self.steps
        &&& -0x2_0000_0000_0000_0000 <= self.quot <= 0x2_0000_0000_0000_0000
        &&& 0 <= self.err < self.steps
        &&& (self.curr - self.start@) * self.steps + self.err == (self.end@ - self.start@)
            * self.index@
    }

    proof fn lemma_value(&self)
        requires
            self.wf(),
        ensures
            self.value() == value_at(self.start_value(), self.end_value(), self.step_count(), self.index()),
            self.err == remainder_at(self.start_value(), self.end_value(), self.step_count(), self.index()),
    {
        lemma_div_mod_of(
            (self.end@ - self.start@) * self.index@,
            self.steps as int,
            self.curr - self.start@,
            self.err as int,
        );
    }

    /// A cursor at `start` that reaches `end` after `steps` advances.
    pub fn build(start: i64, end: i64, steps: i64) -> (r: Self)
        requires
            steps > 0,
        ensures
            r.wf(),
            r.start_value() == start,
            r.end_value() == end,
            r.step_count() == steps,
            r.index() == 0,
            r.value() == start,
    {
        let delta: i128 = end as i128 - start as i128;
        let n: i128 = steps as i128;
        let quot: i128;
        let rem: i128;
        if delta >= 0 {
            quot = delta / n;
            rem = delta % n;
            proof {
                vstd::arithmetic::div_mod::lemma_fundamental_div_mod(delta as int, n as int);
                assert(n * quot == quot * n) by (nonlinear_arith);
            }
        } else {
            let a: i128 = -delta;
            let q0: i128 = a / n;
            let r0: i128 = a % n;
            proof {
                vstd::arithmetic::div_mod::lemma_fundamental_div_mod(a as int, n as int);
                assert(n * q0 == q0 * n) by (nonlinear_arith);
                assert((-q0 - 1) * n == -(q0 * n) - n) by (nonlinear_arith);
                assert((-q0) * n == -(q0 * n)) by (nonlinear_arith);
            }
            if r0 == 0 {
                quot = -q0;
                rem = 0;
            } else {
                quot = -q0 - 1;
                rem = n - r0;
            }
        }
        let r = Interpolator {
            curr: start,
            quot,
            rem,
            err: 0,
            steps: n,
            start: Ghost(start as int),
            end: Ghost(end as int),
            index: Ghost(0),
        };
        proof {
            assert((r.curr - r.start@) * r.steps == 0 * r.steps);
            assert(0 * r.steps == 0) by (nonlinear_arith);
            assert((r.end@ - r.start@) * 0int == 0) by (nonlinear_arith);
            lemma_quot_bound(delta as int, n as int, quot as int, rem as int);
        }
        r
    }

    /// The current value.
    pub fn curr(&self) -> (r: i64)
        ensures
            r == self.value(),
    {
        self.curr
    }

    /// Advances the cursor by one step and returns the new value.
    pub fn progress(&mut self) -> (r: i64)
        requires
            old(self).wf(),
            i64::MIN <= value_at(
                old(self).start_value(),
                old(self).end_value(),
                old(self).step_count(),
                old(self).index() + 1,
            ) <= i64::MAX,
        ensures
            final(self).wf(),
            final(self).start_value() == old(self).start_value(),
            final(self).end_value() == old(self).end_value(),
            final(self).step_count() == old(self).step_count(),
            final(self).index() == old(self).index() + 1,
            final(self).value() == value_at(
                old(self).start_value(),
                old(self).end_value(),
                old(self).step_count(),
                old(self).index() + 1,
            ),
            r == final(self).value(),
    {
        let ghost delta = self.end@ - self.start@;
        let ghost n = self.steps as int;
        let ghost i = self.index@;
        proof {
            lemma_step(delta, n, i, self.curr - self.start@, self.err as int, self.quot as int, self.rem as int);
        }
        let mut next: i128 = self.curr as i128 + self.quot;
        let mut err: i128 = self.err + self.rem;
        if err >= self.steps {
            err = err - self.steps;
            next = next + 1;
        }
        proof {
            lemma_div_mod_of(delta * (i + 1), n, next - self.start@, err as int);
        }
        self.curr = next as i64;
        self.err = err;
        self.index = Ghost(i + 1);
        self.curr
    }

    /// Moves the cursor back by one step and returns the new value.
    pub fn regress(&mut self) -> (r: i64)
        requires
            old(self).wf(),
            i64::MIN <= value_at(
                old(self).start_value(),
                old(self).end_value(),
                old(self).step_count(),
                old(self).index() - 1,
            ) <= i64::MAX,
        ensures
            final(self).wf(),
            final(self).start_value() == old(self).start_value(),
            final(self).end_value() == old(self).end_value(),
            final(self).step_count() == old(self).step_count(),
            final(self).index() == old(self).index() - 1,
            final(self).value() == value_at(
                old(self).start_value(),
                old(self).end_value(),
                old(self).step_count(),
                old(self).index() - 1,
            ),
            r == final(self).value(),
    {
        let ghost delta = self.end@ - self.start@;
        let ghost n = self.steps as int;
        let ghost i = self.index@;
        proof {
            lemma_step(delta, n, i, self.curr - self.start@, self.err as int, self.quot as int, self.rem as int);
        }
        let mut next: i128 = self.curr as i128 - self.quot;
        let mut err: i128 = self.err - self.rem;
        if err < 0 {
            err = err + self.steps;
            next = next - 1;
        }
        proof {
            lemma_div_mod_of(delta * (i - 1), n, next - self.start@, err as int);
        }
        self.curr = next as i64;
        self.err = err;
        self.index = Ghost(i - 1);
        self.curr
    }
}

} // verus!
