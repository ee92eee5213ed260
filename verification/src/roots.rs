//! Integer square roots, rounded down and rounded to nearest.

use vstd::prelude::*;

verus! {

/// `r` is the square root of `s`, rounded down.
pub open spec fn is_floor_root(s: nat, r: nat) -> bool {
    r * r <= s && s < (r + 1) * (r + 1)
}

/// `r` is the square root of `s`, rounded to the nearest whole number.
///
/// No tie can occur: the square of a number halfway between two whole numbers
/// is never whole.
pub open spec fn is_nearest_root(s: nat, r: nat) -> bool {
    s <= r * r + r && (r > 0 ==> r * r - r < s)
}

/// The square root of `s`, rounded down.
pub open spec fn floor_root(s: nat) -> nat {
    choose|r: nat| is_floor_root(s, r)
}

/// The square root of `s`, rounded to the nearest whole number.
pub open spec fn nearest_root(s: nat) -> nat {
    let r = floor_root(s);
    if s - r * r > r {
        r + 1
    } else {
        r
    }
}

proof fn lemma_floor_root_exists(s: nat)
    ensures
        exists|r: nat| is_floor_root(s, r),
    decreases s,
{
    if s == 0 {
        assert(is_floor_root(0, 0)) by (nonlinear_arith);
    } else {
        let before = (s - 1) as nat;
        lemma_floor_root_exists(before);
        let r = choose|r: nat| is_floor_root(before, r);
        if s < (r + 1) * (r + 1) {
            assert(is_floor_root(s, r));
        } else {
            assert((r + 1) * (r + 1) <= s < (r + 2) * (r + 2)) by (nonlinear_arith)
                requires
                    r * r <= s - 1,
                    s - 1 < (r + 1) * (r + 1),
                    s >= (r + 1) * (r + 1),
            ;
            assert(is_floor_root(s, r + 1));
        }
    }
}

/// At most one number is the rounded-down root of `s`.
pub proof fn lemma_floor_root_unique(s: nat, a: nat, b: nat)
    requires
        is_floor_root(s, a),
        is_floor_root(s, b),
    ensures
        a == b,
{
    assert(a == b) by (nonlinear_arith)
        requires
            a * a <= s,
            s < (a + 1) * (a + 1),
            b * b <= s,
            s < (b + 1) * (b + 1),
    ;
}

/// `floor_root(s)` is the rounded-down root of `s`, and the only one.
pub proof fn lemma_floor_root(s: nat)
    ensures
        is_floor_root(s, floor_root(s)),
        forall|r: nat| is_floor_root(s, r) ==> r == floor_root(s),
{
    lemma_floor_root_exists(s);
    assert forall|r: nat| is_floor_root(s, r) implies r == floor_root(s) by {
        lemma_floor_root_unique(s, r, floor_root(s));
    }
}

/// `nearest_root(s)` is the nearest root of `s`, and the only one.
pub proof fn lemma_nearest_root(s: nat)
    ensures
        is_nearest_root(s, nearest_root(s)),
        forall|r: nat| is_nearest_root(s, r) ==> r == nearest_root(s),
{
    lemma_floor_root(s);
    let f = floor_root(s);
    let n = nearest_root(s);
    assert(is_nearest_root(s, n)) by (nonlinear_arith)
        requires
            f * f <= s,
            s < (f + 1) * (f + 1),
            n == if s - f * f > f { f + 1 } else { f },
    ;
    assert forall|r: nat| is_nearest_root(s, r) implies r == n by {
        assert(r == n) by (nonlinear_arith)
            requires
                s <= r * r + r,
                r > 0 ==> r * r - r < s,
                s <= n * n + n,
                n > 0 ==> n * n - n < s,
        ;
    }
}

/// Two legs of which the second is the nearest root of what the first leaves
/// of `l` squared have `l` itself as the nearest root of their squares' sum.
pub proof fn lemma_legs_keep_length(l: nat, c: nat)
    requires
        c <= l,
    ensures
        c * c <= l * l,
        nearest_root((l * l - c * c) as nat) <= l,
        nearest_root(
            c * c + nearest_root((l * l - c * c) as nat) * nearest_root((l * l - c * c) as nat),
        ) == l,
{
    assert(c * c <= l * l) by (nonlinear_arith)
        requires
            c <= l,
    ;
    let rest = (l * l - c * c) as nat;
    let t = nearest_root(rest);
    lemma_nearest_root(rest);
    assert(t <= l && is_nearest_root(c * c + t * t, l)) by (nonlinear_arith)
        requires
            c <= l,
            rest == l * l - c * c,
            rest <= t * t + t,
            t > 0 ==> t * t - t < rest,
    ;
    lemma_nearest_root(c * c + t * t);
}

/// `c` is a rounding of `l` times the square root of `num / den`: the
/// square of that product is more than the square of `c` less a half,
/// rounded down, and less than the square of `c` and a half, rounded up.
pub open spec fn rounds(c: nat, l: nat, num: nat, den: nat) -> bool {
    &&& l * l * num < (c * c + c + 1) * den
    &&& c > 0 ==> (c * c - c) * den < l * l * num
}

/// `c` is within one of `l` times the square root of `num / den`.
pub open spec fn within_a_unit(c: nat, l: nat, num: nat, den: nat) -> bool {
    &&& l * l * num <= (c + 1) * (c + 1) * den
    &&& c > 0 ==> (c - 1) * (c - 1) * den <= l * l * num
}

/// Of the two legs of a right triangle with hypotenuse `l`, let the shorter
/// be `l` times the root of `num / den`, and so the longer `l` times the
/// root of what `num / den` leaves of one. Where `c` is a rounding of the
/// shorter leg, `c` is within one of it, and the nearest root of what `c`
/// leaves of `l` squared is within one of the longer.
pub proof fn lemma_parts_within_a_unit(l: nat, c: nat, num: nat, den: nat)
    requires
        den > 0,
        2 * num <= den,
        c <= l,
        rounds(c, l, num, den),
    ensures
        within_a_unit(c, l, num, den),
        within_a_unit(nearest_root((l * l - c * c) as nat), l, (den - num) as nat, den),
{
    lemma_legs_keep_length(l, c);
    let rest = (l * l - c * c) as nat;
    let t = nearest_root(rest);
    lemma_nearest_root(rest);
    let big = l * l;
    let x = big * num;
    let y = big * (den - num);
    assert(within_a_unit(c, l, num, den)) by (nonlinear_arith)
        requires
            x == l * l * num,
            x < (c * c + c + 1) * den,
            c > 0 ==> (c * c - c) * den < x,
            den > 0,
    ;
    assert(2 * x <= big * den && y == big * den - x && x >= 0) by (nonlinear_arith)
        requires
            x == big * num,
            y == big * (den - num),
            2 * num <= den,
            big >= 0,
            num >= 0,
    ;
    assert(c <= t + 1) by (nonlinear_arith)
        requires
            den > 0,
            c > 0 ==> (c * c - c) * den < x,
            2 * x <= big * den,
            big <= c * c + t * t + t,
    ;
    assert(y <= (t + 1) * (t + 1) * den) by (nonlinear_arith)
        requires
            den > 0,
            x >= 0,
            y == big * den - x,
            c > 0 ==> (c * c - c) * den < x,
            big <= c * c + t * t + t,
            c <= t + 1,
    ;
    if t > 0 {
        assert((t - 1) * (t - 1) * den <= y) by (nonlinear_arith)
            requires
                den > 0,
                t > 0,
                y == big * den - x,
                2 * x <= big * den,
                x < (c * c + c + 1) * den,
                c > 0 ==> (c * c - c) * den < x,
                t * t - t < big - c * c,
        ;
    }
    assert(l * l * ((den - num) as nat) == y);
}

/// The square root of `s`, rounded down.
pub fn floor_sqrt(s: u64) -> (r: u64)
    ensures
        r == floor_root(s as nat),
        r < 0x1_0000_0000,
{
    let mut lo: u64 = 0;
    let mut hi: u64 = 0x1_0000_0000;
    while hi - lo > 1
        invariant
            lo < hi <= 0x1_0000_0000,
            lo * lo <= s,
            s < hi * hi,
        decreases hi - lo,
    {
        let mid: u64 = lo + (hi - lo) / 2;
        assert(mid * mid <= 0xffff_ffff * 0xffff_ffff) by (nonlinear_arith)
            requires
                mid <= 0xffff_ffff,
        ;
        if mid * mid <= s {
            lo = mid;
        } else {
            hi = mid;
        }
    }
    proof {
        assert(is_floor_root(s as nat, lo as nat));
        lemma_floor_root(s as nat);
    }
    lo
}

/// The square root of `s`, rounded to the nearest whole number.
pub fn nearest_sqrt(s: u64) -> (r: u64)
    ensures
        r == nearest_root(s as nat),
        r <= 0x1_0000_0000,
{
    let f: u64 = floor_sqrt(s);
    proof {
        lemma_floor_root(s as nat);
        assert(f * f <= 0xffff_ffff * 0xffff_ffff) by (nonlinear_arith)
            requires
                f <= 0xffff_ffff,
        ;
    }
    if s - f * f > f {
        f + 1
    } else {
        f
    }
}

} // verus!
