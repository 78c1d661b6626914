//! The portfolio's total value: the values of its assets added up as `Decimal`'s
//! `Sum` adds them, and what that total is when no digit is lost.
use crate::amount::{
    abs, aligned, common_scale, decimal_add, decimal_sum, exact_sum, lemma_pow10_positive, max_mantissa,
    opt_view, pow10, sum_is_exact, Amount,
};
use crate::models::{exact_value_of, value_is_exact, value_of, Asset};
use vstd::prelude::*;

verus! {

/// One step of the running total: the next value added to it with `+=`; `None` once
/// a multiplication or an addition has overflowed.
pub open spec fn add_value(total: Option<(int, int, bool)>, value: Option<(int, int, bool)>) -> Option<(
    int,
    int,
    bool,
)> {
    match (total, value) {
        (Some(t), Some(v)) => decimal_sum(t, v),
        _ => None,
    }
}

/// The total value of the assets: starting from zero, each asset's
/// `quantity * unit_price` added in turn.
pub open spec fn total_of(assets: Seq<Asset>) -> Option<(int, int, bool)>
    decreases assets.len(),
{
    if assets.len() == 0 {
        Some((0, 0, false))
    } else {
        add_value(total_of(assets.drop_last()), value_of(assets.last()))
    }
}

/// An empty portfolio is worth zero, and adding an asset to a portfolio adds its
/// value to the portfolio's total, as recomputing the dashboard does.
pub proof fn lemma_total_appends(assets: Seq<Asset>, a: Asset)
    ensures
        total_of(Seq::<Asset>::empty()) == Some((0int, 0int, false)),
        total_of(assets.push(a)) == add_value(total_of(assets), value_of(a)),
{
    assert(assets.push(a).drop_last() == assets);
}

/// The scale of the asset's exact value.
pub open spec fn value_scale(a: Asset) -> int {
    exact_value_of(a).1
}

/// The largest scale among the assets' exact values (0 for none).
pub open spec fn largest_scale(assets: Seq<Asset>) -> int
    decreases assets.len(),
{
    if assets.len() == 0 {
        0
    } else {
        let m = largest_scale(assets.drop_last());
        let s = value_scale(assets.last());
        if s > m {
            s
        } else {
            m
        }
    }
}

/// The sum of the assets' exact values, each written at scale `s`.
pub open spec fn scaled_total(assets: Seq<Asset>, s: int) -> int
    decreases assets.len(),
{
    if assets.len() == 0 {
        0
    } else {
        let v = exact_value_of(assets.last());
        scaled_total(assets.drop_last(), s) + v.0 * pow10((s - v.1) as nat)
    }
}

/// The sum of the magnitudes of the assets' exact values, each written at scale `s`.
pub open spec fn scaled_magnitude(assets: Seq<Asset>, s: int) -> int
    decreases assets.len(),
{
    if assets.len() == 0 {
        0
    } else {
        let v = exact_value_of(assets.last());
        scaled_magnitude(assets.drop_last(), s) + abs(v.0) * pow10((s - v.1) as nat)
    }
}

/// No digit is lost on the way to the total: every value is exact, and the values,
/// written at the largest of their scales, add up in magnitude to no more than a
/// `Decimal` mantissa holds.
pub open spec fn values_are_exact(assets: Seq<Asset>) -> bool {
    &&& forall|i: int| 0 <= i < assets.len() ==> value_is_exact(#[trigger] assets[i])
    &&& scaled_magnitude(assets, largest_scale(assets)) <= max_mantissa()
}

proof fn lemma_pow10_adds(a: nat, b: nat)
    ensures
        pow10(a + b) == pow10(a) * pow10(b),
    decreases a,
{
    if a > 0 {
        lemma_pow10_adds((a - 1) as nat, b);
        assert(pow10(a + b) == 10 * pow10((a - 1 + b) as nat));
        assert(10 * (pow10((a - 1) as nat) * pow10(b)) == (10 * pow10((a - 1) as nat)) * pow10(b))
            by (nonlinear_arith);
    }
}

proof fn lemma_largest_scale_bounds(assets: Seq<Asset>, i: int)
    requires
        0 <= i < assets.len(),
    ensures
        0 <= value_scale(assets[i]) <= largest_scale(assets),
    decreases assets.len(),
{
    if i < assets.len() - 1 {
        lemma_largest_scale_bounds(assets.drop_last(), i);
        assert(assets.drop_last()[i] == assets[i]);
    }
}

/// Each term of the magnitude is non-negative, so a prefix's is no larger.
proof fn lemma_magnitude_prefix(assets: Seq<Asset>, k: int, s: int)
    requires
        0 <= k <= assets.len(),
    ensures
        0 <= scaled_magnitude(assets.take(k), s) <= scaled_magnitude(assets, s),
    decreases assets.len() - k,
{
    if k == assets.len() {
        assert(assets.take(k) == assets);
        lemma_magnitude_nonnegative(assets, s);
    } else {
        lemma_magnitude_prefix(assets, k + 1, s);
        lemma_magnitude_nonnegative(assets.take(k), s);
        assert(assets.take(k + 1).drop_last() == assets.take(k));
        let v = exact_value_of(assets.take(k + 1).last());
        lemma_pow10_positive((s - v.1) as nat);
        assert(abs(v.0) * pow10((s - v.1) as nat) >= 0) by (nonlinear_arith)
            requires
                abs(v.0) >= 0,
                pow10((s - v.1) as nat) >= 1,
        ;
    }
}

proof fn lemma_magnitude_nonnegative(assets: Seq<Asset>, s: int)
    ensures
        scaled_magnitude(assets, s) >= 0,
    decreases assets.len(),
{
    if assets.len() > 0 {
        lemma_magnitude_nonnegative(assets.drop_last(), s);
        let v = exact_value_of(assets.last());
        lemma_pow10_positive((s - v.1) as nat);
        assert(abs(v.0) * pow10((s - v.1) as nat) >= 0) by (nonlinear_arith)
            requires
                abs(v.0) >= 0,
                pow10((s - v.1) as nat) >= 1,
        ;
    }
}

/// The total is no larger in magnitude than the sum of the magnitudes.
proof fn lemma_total_within_magnitude(assets: Seq<Asset>, s: int)
    ensures
        abs(scaled_total(assets, s)) <= scaled_magnitude(assets, s),
    decreases assets.len(),
{
    if assets.len() > 0 {
        lemma_total_within_magnitude(assets.drop_last(), s);
        let v = exact_value_of(assets.last());
        let k = pow10((s - v.1) as nat);
        lemma_pow10_positive((s - v.1) as nat);
        assert(abs(v.0 * k) == abs(v.0) * k) by (nonlinear_arith)
            requires
                k >= 1,
        ;
    }
}

/// Adding one more exact value to an exact running total loses no digit, and keeps
/// the running total equal to the sum written at scale `s_max`.
proof fn lemma_exact_step(t: (int, int, bool), v: (int, int, bool), s_max: int, p: int, b: int)
    requires
        0 <= t.1 <= s_max,
        0 <= v.1 <= s_max,
        t.0 * pow10((s_max - t.1) as nat) == p,
        abs(p) <= b,
        b + abs(v.0) * pow10((s_max - v.1) as nat) <= max_mantissa(),
    ensures
        sum_is_exact(t, v),
        0 <= exact_sum(t, v).1 <= s_max,
        exact_sum(t, v).0 * pow10((s_max - exact_sum(t, v).1) as nat) == p + v.0 * pow10(
            (s_max - v.1) as nat,
        ),
{
    let kt = pow10((s_max - t.1) as nat);
    let kv = pow10((s_max - v.1) as nat);
    lemma_pow10_positive((s_max - t.1) as nat);
    lemma_pow10_positive((s_max - v.1) as nat);
    if t.0 == 0 {
        assert(p == 0);
    } else if v.0 == 0 {
        assert(v.0 * kv == 0);
    } else {
        let s = common_scale(t, v);
        let d = (s_max - s) as nat;
        let kd = pow10(d);
        let ka = pow10((s - t.1) as nat);
        let kb = pow10((s - v.1) as nat);
        lemma_pow10_positive(d);
        lemma_pow10_positive((s - t.1) as nat);
        lemma_pow10_positive((s - v.1) as nat);
        lemma_pow10_adds(d, (s - t.1) as nat);
        lemma_pow10_adds(d, (s - v.1) as nat);
        assert((d + (s - t.1) as nat) as nat == (s_max - t.1) as nat);
        assert((d + (s - v.1) as nat) as nat == (s_max - v.1) as nat);
        let a = aligned(t, s);
        let w = aligned(v, s);
        assert(a * kd == p) by (nonlinear_arith)
            requires
                a == t.0 * ka,
                t.0 * kt == p,
                kt == kd * ka,
        ;
        assert(w * kd == v.0 * kv) by (nonlinear_arith)
            requires
                w == v.0 * kb,
                kv == kd * kb,
        ;
        assert(abs(a) <= abs(p)) by (nonlinear_arith)
            requires
                a * kd == p,
                kd >= 1,
        ;
        assert(abs(w) <= abs(v.0) * kv) by (nonlinear_arith)
            requires
                w * kd == v.0 * kv,
                kd >= 1,
                kv >= 1,
        ;
        assert((a + w) * kd == p + v.0 * kv) by (nonlinear_arith)
            requires
                a * kd == p,
                w * kd == v.0 * kv,
        ;
        assert(abs(a + w) <= abs(p) + abs(v.0) * kv) by (nonlinear_arith)
            requires
                (a + w) * kd == p + v.0 * kv,
                kd >= 1,
                kv >= 1,
        ;
        assert(abs(v.0) * kv >= 0) by (nonlinear_arith)
            requires
                kv >= 1,
        ;
    }
}

/// Once the running total has overflowed it stays so.
proof fn lemma_overflow_stays(assets: Seq<Asset>, k: int)
    requires
        0 <= k <= assets.len(),
        total_of(assets.take(k)) is None,
    ensures
        total_of(assets) is None,
    decreases assets.len() - k,
{
    if k == assets.len() {
        assert(assets.take(k) == assets);
    } else {
        assert(assets.take(k + 1).drop_last() == assets.take(k));
        lemma_overflow_stays(assets, k + 1);
    }
}

/// The portfolio's total value: the sum of `quantity * unit_price` over the assets,
/// or `None` where a multiplication or an addition overflows. When no digit is lost
/// (`values_are_exact`), the total is exactly the sum of the values: written at the
/// largest scale of the values, its mantissa is `scaled_total`.
pub fn portfolio_total(assets: &Vec<Asset>) -> (r: Option<Amount>)
    requires
        forall|i: int| 0 <= i < assets@.len() ==> (#[trigger] assets@[i]).wf(),
    ensures
        opt_view(r) == total_of(assets@),
        r matches Some(t) ==> t.wf(),
        values_are_exact(assets@) ==> (r matches Some(t) && t.scale <= largest_scale(assets@)
            && t.mantissa * pow10((largest_scale(assets@) - t.scale) as nat) == scaled_total(
            assets@,
            largest_scale(assets@),
        )),
{
    let ghost s_max = largest_scale(assets@);
    let ghost exact = values_are_exact(assets@);
    let mut total = Amount::zero();
    let mut i: usize = 0;
    assert(assets@.take(0).len() == 0);
    while i < assets.len()
        invariant
            i <= assets@.len(),
            forall|j: int| 0 <= j < assets@.len() ==> (#[trigger] assets@[j]).wf(),
            s_max == largest_scale(assets@),
            exact == values_are_exact(assets@),
            total.wf(),
            total_of(assets@.take(i as int)) == Some(total@),
            exact ==> total.scale <= s_max && total.mantissa * pow10((s_max - total.scale) as nat)
                == scaled_total(assets@.take(i as int), s_max),
        decreases assets@.len() - i,
    {
        let ghost prefix = assets@.take(i as int);
        let ghost next_prefix = assets@.take(i + 1);
        proof {
            assert(next_prefix.drop_last() == prefix);
            assert(next_prefix.last() == assets@[i as int]);
        }
        let value = match assets[i].checked_total_value() {
            Some(v) => v,
            None => {
                proof {
                    lemma_overflow_stays(assets@, i + 1);
                }
                return None;
            },
        };
        proof {
            if exact {
                let p = scaled_total(prefix, s_max);
                let b = scaled_magnitude(prefix, s_max);
                lemma_largest_scale_bounds(assets@, i as int);
                lemma_magnitude_prefix(assets@, i + 1, s_max);
                lemma_total_within_magnitude(prefix, s_max);
                assert(value_is_exact(assets@[i as int]));
                lemma_exact_step(total@, value@, s_max, p, b);
            }
        }
        let next = match decimal_add(total, value) {
            Some(n) => n,
            None => {
                proof {
                    lemma_overflow_stays(assets@, i + 1);
                }
                return None;
            },
        };
        total = next;
        i = i + 1;
    }
    proof {
        assert(assets@.take(assets@.len() as int) == assets@);
    }
    Some(total)
}

/// The total the database sums up (`SUM(quantity * unit_price)`), zero when the user
/// has no asset and the sum is `NULL`.
pub fn stored_total(sum: Option<Amount>) -> (r: Amount)
    ensures
        match sum {
            Some(t) => r == t,
            None => r@ == (0int, 0int, false),
        },
{
    match sum {
        Some(t) => t,
        None => Amount::zero(),
    }
}

} // verus!
