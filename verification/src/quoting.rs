//! Building blocks shared by the strategies: mid prices, requote gates, order
//! construction and inventory skew.

use crate::decimal::{
    absolute, adds_exactly, decimal, difference, exact_difference, exact_product, exact_quotient,
    exact_sum, floor_int, floor_of, lemma_decimal, lemma_exact_quotient_fits, lemma_parts,
    lemma_pow10_adds, lemma_pow10_positive, lemma_quotient_keeps_order,
    lemma_quotient_keeps_whole_order, lemma_whole, lemma_whole_arithmetic, lesser, magnitude,
    mantissa_of, minus, multiplies_exactly, negated, over, plus, pow10, product, quotient,
    representable, rounds_quotient, scale_of, scaled_value, sum, times, whole, MAX_MANTISSA,
    Decimal,
};
use crate::market::{
    maker_order, point_order, Price, QuoteIntent, QuoteKind, Side, Size, Snapshot, Symbol, TimeInForce,
    Timestamp,
};
use crate::strategy::Action;
use std::collections::VecDeque;
use vstd::prelude::*;

verus! {

/// `a x b`, or the largest `u64` where the product is larger.
pub open spec fn capped_product(a: int, b: int) -> int {
    if a * b > u64::MAX {
        u64::MAX as int
    } else {
        a * b
    }
}

/// `a x b`, or the largest `u64` where the product is larger.
pub fn saturating_product(a: u64, b: u64) -> (result: u64)
    ensures
        result == capped_product(a as int, b as int),
{
    match a.checked_mul(b) {
        Some(product) => product,
        None => u64::MAX,
    }
}

/// `later - earlier`, or zero where that is negative.
pub open spec fn elapsed(later: u64, earlier: u64) -> int {
    if later >= earlier {
        later - earlier
    } else {
        0
    }
}

/// Whether `text` holds `part` as a run of consecutive characters.
pub open spec fn mentions(text: Seq<char>, part: Seq<char>) -> bool {
    exists|i: int|
        0 <= i && i + part.len() <= text.len() && #[trigger] text.subrange(i, i + part.len())
            == part
}

/// Calls `str::contains`.
///
/// Believed: the result says whether the second string occurs in the first.
#[verifier::external_body]
pub(crate) fn text_contains(text: &str, part: &str) -> (result: bool)
    ensures
        result == mentions(text@, part@),
{
    text.contains(part)
}

/// The last `n` elements.
pub open spec fn newest<T>(s: Seq<T>, n: int) -> Seq<T> {
    if s.len() > n {
        s.skip(s.len() - n)
    } else {
        s
    }
}

/// The samples from the first one that is not older than `cutoff`.
pub open spec fn pruned(samples: Seq<(u64, Decimal)>, cutoff: int) -> Seq<(u64, Decimal)>
    decreases samples.len(),
{
    if samples.len() > 0 && samples[0].0 < cutoff {
        pruned(samples.drop_first(), cutoff)
    } else {
        samples
    }
}

/// Drops the samples that are older than `cutoff`; see [`pruned`].
pub fn drop_older(samples: &mut VecDeque<(u64, Decimal)>, cutoff: u64)
    ensures
        final(samples)@ == pruned(old(samples)@, cutoff as int),
{
    while samples.len() > 0
        invariant
            pruned(samples@, cutoff as int) == pruned(old(samples)@, cutoff as int),
        decreases samples@.len(),
    {
        if samples[0].0 >= cutoff {
            return;
        }
        let ghost before = samples@;
        let _ = samples.pop_front();
        assert(samples@ =~= before.drop_first());
    }
}

/// Half the sum of two prices.
pub open spec fn midpoint(a: Decimal, b: Decimal) -> Option<Decimal> {
    over(plus(Some(a), Some(b)), Some(whole(2)))
}

/// Half the sum of two prices, or `None` where it cannot be represented. Where no digit of
/// the sum is lost, it lies between the two.
pub fn try_midpoint(a: Decimal, b: Decimal) -> (result: Option<Decimal>)
    ensures
        result == midpoint(a, b),
        adds_exactly(a, b) ==> result is Some,
        adds_exactly(a, b) && a@ <= b@ ==> a@ <= result->0@ <= b@,
        exact_sum(a, b) && exact_quotient(sum(a, b)->0, whole(2)) ==> 2 * result->0@ == a@ + b@,
{
    let total = a.checked_add(b)?;
    let two = Decimal::whole(2);
    proof {
        use_type_invariant(&a);
        use_type_invariant(&b);
        lemma_parts(a);
        lemma_parts(b);
        lemma_whole(2);
        lemma_pow10_positive(28);
        let p = pow10(28);
        let most = MAX_MANTISSA as int;
        let t = total@;
        assert(2 * magnitude(t) < (2 * p) * (2 * most + 1)) by (nonlinear_arith)
            requires
                -(most * p) <= t <= most * p,
                p >= 1,
                most > 0,
        ;
    }
    let half = total.checked_div(two)?;
    proof {
        let p = pow10(28);
        let (h, t) = (half@, total@);
        assert(h * (2 * p) == t * p ==> 2 * h == t) by (nonlinear_arith)
            requires
                p >= 1,
        ;
        if adds_exactly(a, b) && a@ <= b@ {
            let (x, y) = (a@, b@);
            assert(x * (2 * p) <= (x + y) * p && y * (2 * p) >= (x + y) * p) by (nonlinear_arith)
                requires
                    x <= y,
                    p >= 1,
            ;
            lemma_quotient_keeps_order(total@, two@, half@, mantissa_of(a), scale_of(a));
            lemma_quotient_keeps_order(total@, two@, half@, mantissa_of(b), scale_of(b));
        }
    }
    Some(half)
}

/// The mid weighted by the sizes opposite: `(bid_size x ask + ask_size x bid) / total`.
pub open spec fn weighted_mid(
    bid: Decimal,
    bid_size: Decimal,
    ask: Decimal,
    ask_size: Decimal,
    total: Decimal,
) -> Option<Decimal> {
    over(plus(product(bid_size, ask), product(ask_size, bid)), Some(total))
}

/// Whether no digit is lost in weighting, neither size is negative, and the prices do not
/// cross.
pub open spec fn weighs_exactly(bid: Decimal, bid_size: Decimal, ask: Decimal, ask_size: Decimal)
    -> bool {
    &&& bid@ <= ask@
    &&& bid_size@ >= 0
    &&& ask_size@ >= 0
    &&& adds_exactly(bid_size, ask_size)
    &&& multiplies_exactly(bid_size, ask)
    &&& multiplies_exactly(ask_size, bid)
    &&& adds_exactly(product(bid_size, ask)->0, product(ask_size, bid)->0)
}

/// Whether a price lies between a bid and an ask, and not on the side of the thicker size
/// of what is halfway between them.
pub open spec fn leans_to_thinner(bid: int, bid_size: int, ask: int, ask_size: int, price: int)
    -> bool {
    &&& bid <= price <= ask
    &&& forall|mantissa: int, scale: int|
        representable(mantissa, scale) && 2 * (#[trigger] scaled_value(mantissa, scale)) == bid
            + ask ==> {
            &&& bid_size >= ask_size ==> price >= scaled_value(mantissa, scale)
            &&& bid_size <= ask_size ==> price <= scaled_value(mantissa, scale)
        }
}

proof fn lemma_weighted(bid: int, ask: int, bid_size: int, ask_size: int, weighted: int, unit: int)
    requires
        unit >= 1,
        bid <= ask,
        bid_size >= 0,
        ask_size >= 0,
        weighted * unit == bid_size * ask + ask_size * bid,
    ensures
        bid * (bid_size + ask_size) <= weighted * unit <= ask * (bid_size + ask_size),
        bid_size >= ask_size ==> (bid + ask) * (bid_size + ask_size) <= 2 * (weighted * unit),
        bid_size <= ask_size ==> (bid + ask) * (bid_size + ask_size) >= 2 * (weighted * unit),
{
    assert(bid_size * ask >= bid_size * bid && ask_size * bid <= ask_size * ask)
        by (nonlinear_arith)
        requires
            bid <= ask,
            bid_size >= 0,
            ask_size >= 0,
    ;
    assert(bid * (bid_size + ask_size) == bid_size * bid + ask_size * bid) by (nonlinear_arith);
    assert(ask * (bid_size + ask_size) == bid_size * ask + ask_size * ask) by (nonlinear_arith);
    assert((bid + ask) * (bid_size + ask_size) == bid_size * bid + ask_size * bid + bid_size * ask
        + ask_size * ask) by (nonlinear_arith);
    let lean = (bid_size - ask_size) * (ask - bid);
    assert(lean == bid_size * ask - bid_size * bid - ask_size * ask + ask_size * bid)
        by (nonlinear_arith)
        requires
            lean == (bid_size - ask_size) * (ask - bid),
    ;
    assert(bid_size >= ask_size ==> lean >= 0) by (nonlinear_arith)
        requires
            lean == (bid_size - ask_size) * (ask - bid),
            bid <= ask,
    ;
    assert(bid_size <= ask_size ==> lean <= 0) by (nonlinear_arith)
        requires
            lean == (bid_size - ask_size) * (ask - bid),
            bid <= ask,
    ;
}

/// The mid weighted by the sizes opposite, or `None` where it cannot be represented. Where
/// no digit is lost in weighting, it leans to the side of the thinner size: a book heavy
/// with bids pulls it toward the ask.
pub fn try_weighted_mid(
    bid: Decimal,
    bid_size: Decimal,
    ask: Decimal,
    ask_size: Decimal,
    total: Decimal,
) -> (result: Option<Decimal>)
    ensures
        result == weighted_mid(bid, bid_size, ask, ask_size, total),
        result is Some && total@ > 0 && total@ == bid_size@ + ask_size@ && weighs_exactly(
            bid,
            bid_size,
            ask,
            ask_size,
        ) ==> leans_to_thinner(bid@, bid_size@, ask@, ask_size@, result->0@),
{
    let up = bid_size.checked_mul(ask)?;
    let down = ask_size.checked_mul(bid)?;
    let weighted = up.checked_add(down)?;
    let result = weighted.checked_div(total)?;
    proof {
        if total@ > 0 && total@ == bid_size@ + ask_size@ && weighs_exactly(
            bid,
            bid_size,
            ask,
            ask_size,
        ) {
            let p = pow10(28);
            let (w, t, r) = (weighted@, total@, result@);
            use_type_invariant(&bid);
            use_type_invariant(&ask);
            lemma_parts(bid);
            lemma_parts(ask);
            lemma_pow10_positive(28);
            assert((up@ + down@) * p == up@ * p + down@ * p) by (nonlinear_arith);
            lemma_weighted(bid@, ask@, bid_size@, ask_size@, w, p);
            lemma_quotient_keeps_order(w, t, r, mantissa_of(bid), scale_of(bid));
            lemma_quotient_keeps_order(w, t, r, mantissa_of(ask), scale_of(ask));
            assert forall|mantissa: int, scale: int|
                representable(mantissa, scale) && 2 * (#[trigger] scaled_value(mantissa, scale))
                    == bid@ + ask@ implies {
                &&& bid_size@ >= ask_size@ ==> r >= scaled_value(mantissa, scale)
                &&& bid_size@ <= ask_size@ ==> r <= scaled_value(mantissa, scale)
            } by {
                let m = scaled_value(mantissa, scale);
                assert((2 * m) * t == 2 * (m * t)) by (nonlinear_arith);
                lemma_quotient_keeps_order(w, t, r, mantissa, scale);
            }
        }
    }
    Some(result)
}

/// The midpoint of a book with both sides; the inner `None` is a one-sided book,
/// the outer one a midpoint that cannot be represented.
pub open spec fn mid_strict(snapshot: Snapshot) -> Option<Option<Price>> {
    if snapshot.bids@.len() == 0 || snapshot.asks@.len() == 0 {
        Some(None)
    } else {
        match midpoint(snapshot.bids@[0].price.0, snapshot.asks@[0].price.0) {
            None => None,
            Some(mid) => Some(Some(Price(mid))),
        }
    }
}

/// Midpoint of the best bid and ask; see [`mid_strict`].
pub fn compute_mid_strict(snapshot: &Snapshot) -> (result: Option<Option<Price>>)
    ensures
        result == mid_strict(*snapshot),
{
    if snapshot.bids.len() == 0 || snapshot.asks.len() == 0 {
        return Some(None);
    }
    let mid = try_midpoint(snapshot.bids[0].price.0, snapshot.asks[0].price.0)?;
    Some(Some(Price(mid)))
}

/// Whether to requote: nothing was quoted yet, the interval has passed, or the mid
/// moved by more than half a level step.
pub open spec fn requote_drift(
    last_ts: Option<Timestamp>,
    last_mid: Option<Price>,
    new_mid: Price,
    now: Timestamp,
    min_interval_ms: u64,
    level_step_bps: u32,
) -> Option<bool> {
    match (last_ts, last_mid) {
        (Some(prev_ts), Some(prev_mid)) => {
            if elapsed(now.0, prev_ts.0) >= capped_product(min_interval_ms as int, 1_000_000) {
                Some(true)
            } else {
                let moved = difference(new_mid.0, prev_mid.0);
                let threshold = over(
                    times(
                        Some(prev_mid.0),
                        quotient(whole(level_step_bps as int), whole(2)),
                    ),
                    Some(whole(10_000)),
                );
                match (moved, threshold) {
                    (Some(moved), Some(threshold)) => Some(absolute(moved)@ > threshold@),
                    _ => None,
                }
            }
        },
        _ => Some(true),
    }
}

/// Whether half a level step of a mid is found without rounding.
pub open spec fn is_half_step(mid: Decimal, level_step_bps: u32) -> bool {
    let step = over(
        times(Some(mid), quotient(whole(level_step_bps as int), whole(2))),
        Some(whole(10_000)),
    );
    step is Some && step->0@ * 20_000 == level_step_bps * mid@
}

/// Requote gate on elapsed time and mid drift; see [`requote_drift`]. Where no digit is lost,
/// the mid has to leave the last one by more than half of `level_step_bps` of it.
pub fn should_requote_drift(
    last_ts: Option<Timestamp>,
    last_mid: Option<Price>,
    new_mid: Price,
    now: Timestamp,
    min_interval_ms: u64,
    level_step_bps: u32,
) -> (result: Option<bool>)
    ensures
        result == requote_drift(
            last_ts,
            last_mid,
            new_mid,
            now,
            min_interval_ms,
            level_step_bps,
        ),
        last_ts is None || last_mid is None ==> result == Some(true),
        last_ts is Some && last_mid is Some && now.0 - (last_ts->0).0 >= min_interval_ms
            * 1_000_000 ==> result == Some(true),
        last_ts is Some && last_mid is Some && 0 <= now.0 - (last_ts->0).0 < min_interval_ms
            * 1_000_000 <= u64::MAX && exact_difference(new_mid.0, (last_mid->0).0) && is_half_step(
            (last_mid->0).0,
            level_step_bps,
        ) ==> result == Some(
            20_000 * magnitude(new_mid.0@ - (last_mid->0).0@) > level_step_bps * (last_mid->0).0@,
        ),
{
    match (last_ts, last_mid) {
        (Some(prev_ts), Some(prev_mid)) => {
            let elapsed_ns: u64 = now.0.saturating_sub(prev_ts.0);
            let interval_ns: u64 = saturating_product(min_interval_ms, 1_000_000);
            if elapsed_ns >= interval_ns {
                return Some(true);
            }
            let drift = new_mid.0.checked_sub(prev_mid.0)?.abs();
            let half_step = Decimal::whole(level_step_bps as i64).checked_div(Decimal::whole(2))?;
            let threshold = prev_mid.0.checked_mul(half_step)?.checked_div(Decimal::whole(10_000))?;
            Some(drift.is_more(threshold))
        },
        _ => Some(true),
    }
}

/// A number of basis points as a fraction of one.
pub open spec fn bps_fraction(bps: int) -> Option<Decimal> {
    quotient(whole(bps), whole(10_000))
}

/// A number of basis points as a fraction of one; see [`bps_fraction`]. It is exact.
pub fn try_bps_fraction(bps: u32) -> (result: Option<Decimal>)
    ensures
        result == bps_fraction(bps as int),
        result is Some,
        result->0@ == bps * pow10(24),
        result->0@ >= 0,
{
    let whole_bps = Decimal::whole(bps as i64);
    let unit = Decimal::whole(10_000);
    proof {
        lemma_whole(bps as int);
        lemma_whole(10_000);
        lemma_pow10_positive(24);
        lemma_pow10_adds(4, 24);
        assert(pow10(4) == 10_000) by {
            reveal_with_fuel(pow10, 5);
        }
        let n = bps as int;
        let (p, q) = (pow10(28), pow10(24));
        assert((n * q) * (10_000 * p) == (n * p) * p && 10_000 * p != 0 && n * q >= 0)
            by (nonlinear_arith)
            requires
                p == 10_000 * q,
                q >= 1,
                n >= 0,
        ;
        lemma_exact_quotient_fits(whole_bps@, unit@, n, 4);
    }
    let result = whole_bps.checked_div(unit)?;
    proof {
        lemma_quotient_keeps_order(whole_bps@, unit@, result@, bps as int, 4);
    }
    Some(result)
}

/// Basis points as a fraction of one.
pub open spec fn fraction(bps: Decimal) -> Option<Decimal> {
    quotient(bps, whole(10_000))
}

/// Basis points as a fraction of one; see [`fraction`].
pub fn try_fraction(bps: Decimal) -> (result: Option<Decimal>)
    ensures
        result == fraction(bps),
        result is Some && bps@ >= 0 ==> result->0@ >= 0,
        bps@ == 0 ==> result == Some(whole(0)),
{
    proof {
        lemma_whole(10_000);
        lemma_pow10_positive(28);
    }
    bps.checked_div(Decimal::whole(10_000))
}

/// Whether `result`, in units of 10^-28, reads `part` as basis points of a positive `base`:
/// every whole number of millionths of a basis point on one side of the exact ratio is on
/// that side of `result` too.
#[verifier::opaque]
pub open spec fn reads_bps(part: int, base: int, result: int) -> bool {
    &&& forall|m: int|
        -10_000_000_000_000_000 <= m <= 10_000_000_000_000_000 && #[trigger] (m * base) <= part
            * 10_000_000_000 ==> m * pow10(22) <= result
    &&& forall|m: int|
        -10_000_000_000_000_000 <= m <= 10_000_000_000_000_000 && #[trigger] (m * base) >= part
            * 10_000_000_000 ==> m * pow10(22) >= result
}

/// Whether no digit is lost where the ratio of `part` to `base` is turned into basis points.
pub open spec fn measures_exactly(part: Decimal, base: Decimal) -> bool {
    quotient(part, base) is Some ==> multiplies_exactly(quotient(part, base)->0, whole(10_000))
}

/// Whether `fired` tells where `part` has reached `bps` basis points of a positive `base`:
/// it is set wherever it has, and nowhere where a millionth of a basis point is missing.
pub open spec fn fires_at(part: int, base: int, bps: int, fired: bool) -> bool {
    &&& part * 10_000 >= bps * base ==> fired
    &&& part * 10_000_000_000 <= (bps * 1_000_000 - 1) * base ==> !fired
}

/// A reading in basis points reaches a whole number of them where the ratio does.
pub proof fn lemma_fires_at(part: int, base: int, result: int, bps: int)
    requires
        reads_bps(part, base, result),
        -10_000_000_000 < bps < 10_000_000_000,
    ensures
        fires_at(part, base, bps, result >= whole(bps)@),
        fires_at(-part, base, -bps, result <= whole(bps)@),
{
    reveal(reads_bps);
    lemma_whole(bps);
    lemma_pow10_adds(22, 6);
    lemma_pow10_positive(22);
    assert(pow10(6) == 1_000_000) by {
        reveal_with_fuel(pow10, 7);
    }
    let m = bps * 1_000_000;
    let q = pow10(22);
    assert(m * q == bps * pow10(28)) by (nonlinear_arith)
        requires
            m == bps * 1_000_000,
            pow10(28) == q * 1_000_000,
    ;
    assert((m - 1) * q < m * q && (m + 1) * q > m * q) by (nonlinear_arith)
        requires
            q >= 1,
    ;
    assert(m * base == 1_000_000 * (bps * base)) by (nonlinear_arith)
        requires
            m == bps * 1_000_000,
    ;
    assert((-bps) * base == -(bps * base)) by (nonlinear_arith);
    assert(((-bps) * 1_000_000 - 1) * base == -((m + 1) * base)) by (nonlinear_arith)
        requires
            m == bps * 1_000_000,
    ;
}

/// The ratio of `part` to `base` in basis points: `None` where it cannot be represented.
pub fn try_bps_of(part: Decimal, base: Decimal) -> (result: Option<Decimal>)
    ensures
        result == times(quotient(part, base), Some(whole(10_000))),
        result is Some && base@ > 0 && part@ >= 0 ==> result->0@ >= 0,
        result is Some && base@ > 0 && part@ <= 0 ==> result->0@ <= 0,
        result is Some && base@ > 0 && measures_exactly(part, base) ==> reads_bps(
            part@,
            base@,
            result->0@,
        ),
{
    let ratio = part.checked_div(base)?;
    let result = ratio.checked_mul(Decimal::whole(10_000))?;
    proof {
        lemma_whole(10_000);
        lemma_pow10_positive(28);
        if base@ > 0 {
            lemma_quotient_keeps_whole_order(part@, base@, ratio@, 0);
            assert(0 * base@ == 0 && 0 * pow10(28) == 0);
            if measures_exactly(part, base) {
                lemma_ratio_reads_bps(part@, base@, ratio@, result@);
            }
        }
    }
    Some(result)
}

proof fn lemma_ratio_reads_bps(part: int, base: int, ratio: int, result: int)
    requires
        base > 0,
        rounds_quotient(part, base, ratio),
        result * pow10(28) == ratio * (10_000 * pow10(28)),
    ensures
        reads_bps(part, base, result),
{
    reveal(reads_bps);
    lemma_pow10_positive(28);
    lemma_pow10_positive(18);
    lemma_pow10_adds(18, 4);
    lemma_pow10_adds(18, 10);
    assert(pow10(4) == 10_000) by {
        reveal_with_fuel(pow10, 5);
    }
    assert(pow10(10) == 10_000_000_000) by {
        reveal_with_fuel(pow10, 11);
    }
    let (p, u) = (pow10(28), pow10(18));
    assert(result == ratio * 10_000) by (nonlinear_arith)
        requires
            result * p == ratio * (10_000 * p),
            p >= 1,
    ;
    assert forall|m: int|
        -10_000_000_000_000_000 <= m <= 10_000_000_000_000_000 implies (#[trigger] (m * base)
        <= part * 10_000_000_000 ==> m * pow10(22) <= result) && (m * base >= part * 10_000_000_000
        ==> m * pow10(22) >= result) by {
        lemma_quotient_keeps_order(part, base, ratio, m, 10);
        assert((m * u) * base == (m * base) * u) by (nonlinear_arith);
        assert(part * p == (part * 10_000_000_000) * u) by (nonlinear_arith)
            requires
                p == u * 10_000_000_000,
        ;
        assert(m * pow10(22) == (m * u) * 10_000) by (nonlinear_arith)
            requires
                pow10(22) == u * 10_000,
        ;
        let (a, b) = (m * base, part * 10_000_000_000);
        assert(a <= b ==> a * u <= b * u) by (nonlinear_arith)
            requires
                u >= 1,
        ;
        assert(a >= b ==> a * u >= b * u) by (nonlinear_arith)
            requires
                u >= 1,
        ;
    }
}

/// Whether `reading` is the ratio of `part` to `base` in basis points, worked out without
/// rounding.
pub open spec fn reads_exactly(part: Decimal, base: Decimal, reading: Decimal) -> bool {
    &&& base@ > 0
    &&& times(quotient(part, base), Some(whole(10_000))) == Some(reading)
    &&& reading@ * base@ == part@ * 10_000 * pow10(28)
}

/// An exact reading in basis points compares with a threshold as the ratio does.
pub proof fn lemma_reads_exactly(part: Decimal, base: Decimal, reading: Decimal, bps: int)
    requires
        reads_exactly(part, base, reading),
    ensures
        reading@ >= bps * pow10(28) <==> part@ * 10_000 >= bps * base@,
        reading@ <= bps * pow10(28) <==> part@ * 10_000 <= bps * base@,
        reading@ >= bps <==> part@ * 10_000 * pow10(28) >= bps * base@,
        reading@ <= bps <==> part@ * 10_000 * pow10(28) <= bps * base@,
{
    let (r, b, x, p) = (reading@, base@, part@, pow10(28));
    lemma_pow10_positive(28);
    assert((r >= bps * p) == (x * 10_000 >= bps * b) && (r <= bps * p) == (x * 10_000 <= bps * b))
        by (nonlinear_arith)
        requires
            r * b == x * 10_000 * p,
            b > 0,
            p >= 1,
    ;
    assert((r >= bps) == (x * 10_000 * p >= bps * b) && (r <= bps) == (x * 10_000 * p <= bps * b))
        by (nonlinear_arith)
        requires
            r * b == x * 10_000 * p,
            b > 0,
    ;
}

/// As [`fires_at`] for a threshold that need not be a whole number of basis points, in units
/// of 10^-28: it is compared with every whole number of millionths of a basis point.
#[verifier::opaque]
pub open spec fn reaches_bps(part: int, base: int, bps: int, reached: bool) -> bool {
    forall|m: int|
        -10_000_000_000_000_000 <= m <= 10_000_000_000_000_000 ==> {
            &&& #[trigger] (m * base) >= part * 10_000_000_000 && m * pow10(22) < bps ==> !reached
            &&& m * base <= part * 10_000_000_000 && m * pow10(22) >= bps ==> reached
        }
}

/// A reading in basis points is turned with the sign of what it reads.
pub proof fn lemma_reads_bps_turned(part: int, base: int, result: int)
    requires
        reads_bps(part, base, result),
    ensures
        reads_bps(-part, base, -result),
{
    reveal(reads_bps);
    let q = pow10(22);
    assert forall|m: int|
        -10_000_000_000_000_000 <= m <= 10_000_000_000_000_000 implies (#[trigger] (m * base)
        <= (-part) * 10_000_000_000 ==> m * q <= -result) && (m * base >= (-part)
        * 10_000_000_000 ==> m * q >= -result) by {
        let n = -m;
        assert(n * base == -(m * base) && n * q == -(m * q)) by (nonlinear_arith)
            requires
                n == -m,
        ;
    }
}

/// A reading in basis points reaches a threshold where the ratio does.
pub proof fn lemma_reaches_bps(part: int, base: int, result: int, bps: int)
    requires
        reads_bps(part, base, result),
    ensures
        reaches_bps(part, base, bps, result >= bps),
{
    reveal(reads_bps);
    reveal(reaches_bps);
}

/// Whether `fired` tells where `loss` has reached the fraction `trigger` of a positive `base`,
/// the fraction in units of 10^-28: it is set wherever it has, never without a loss, and
/// never where a unit in the 28th decimal place is missing.
pub open spec fn trips(loss: int, base: int, trigger: int, fired: bool) -> bool {
    &&& loss * pow10(28) >= trigger * base ==> fired
    &&& trigger > 0 && loss <= 0 ==> !fired
    &&& 0 < trigger <= MAX_MANTISSA && loss * pow10(28) <= (trigger - 1) * base ==> !fired
}

/// A rounded ratio reaches a decimal where the exact one does.
pub proof fn lemma_trips(loss: Decimal, base: Decimal, ratio: Decimal, trigger: Decimal)
    requires
        base@ > 0,
        rounds_quotient(loss@, base@, ratio@),
        trigger.parts_in_range(),
    ensures
        trips(loss@, base@, trigger@, ratio@ >= trigger@),
{
    lemma_parts(trigger);
    lemma_quotient_keeps_order(
        loss@,
        base@,
        ratio@,
        mantissa_of(trigger),
        scale_of(trigger),
    );
    lemma_quotient_keeps_whole_order(loss@, base@, ratio@, 0);
    assert(0 * base@ == 0 && 0 * pow10(28) == 0);
    if 0 < trigger@ <= MAX_MANTISSA {
        lemma_quotient_keeps_order(loss@, base@, ratio@, trigger@ - 1, 28);
        assert(pow10(0) == 1);
        assert((trigger@ - 1) * 1 == trigger@ - 1);
    }
}

/// Of samples in the order of their times, those from the cutoff on are kept: what is dropped
/// is older, what comes first of the rest is not.
pub proof fn law_pruning_keeps_the_recent(samples: Seq<(u64, Decimal)>, cutoff: int)
    ensures
        pruned(samples, cutoff).len() <= samples.len(),
        pruned(samples, cutoff) == samples.skip(samples.len() - pruned(samples, cutoff).len()),
        pruned(samples, cutoff).len() > 0 ==> pruned(samples, cutoff)[0].0 >= cutoff,
        forall|i: int|
            0 <= i < samples.len() - pruned(samples, cutoff).len() ==> (#[trigger] samples[i]).0
                < cutoff,
    decreases samples.len(),
{
    if samples.len() > 0 && samples[0].0 < cutoff {
        let rest = samples.drop_first();
        law_pruning_keeps_the_recent(rest, cutoff);
        let n = pruned(rest, cutoff).len();
        assert(rest.skip(rest.len() - n) =~= samples.skip(samples.len() - n));
        assert forall|i: int| 0 <= i < samples.len() - n implies (#[trigger] samples[i]).0
            < cutoff by {
            if i > 0 {
                assert(rest[i - 1] == samples[i]);
            }
        }
    } else {
        assert(samples.skip(0) =~= samples);
    }
}

/// Whether a resting size is more than a fifth off the wanted one.
pub open spec fn size_is_off(resting: Decimal, wanted: Decimal) -> Option<bool> {
    if wanted@ <= 0 {
        Some(true)
    } else {
        match difference(resting, wanted) {
            None => None,
            Some(off) => match quotient(absolute(off), wanted) {
                None => None,
                Some(rel) => Some(rel@ > decimal(20, 2)@),
            },
        }
    }
}

/// Whether a resting size is off; see [`size_is_off`].
pub fn is_size_off(resting: Decimal, wanted: Decimal) -> (result: Option<bool>)
    ensures
        result == size_is_off(resting, wanted),
        wanted@ <= 0 ==> result == Some(true),
        result is Some && wanted@ > 0 && exact_difference(resting, wanted) ==> {
            &&& magnitude(resting@ - wanted@) * 5 <= wanted@ ==> result == Some(false)
            &&& magnitude(resting@ - wanted@) * 1_000_000 >= 200_001 * wanted@ ==> result == Some(
                true,
            )
        },
{
    if !wanted.is_positive() {
        return Some(true);
    }
    let off = resting.checked_sub(wanted)?.abs();
    let rel = off.checked_div(wanted)?;
    proof {
        lemma_quotient_keeps_order(off@, wanted@, rel@, 20, 2);
        lemma_quotient_keeps_order(off@, wanted@, rel@, 200_001, 6);
        lemma_decimal(20, 2);
        lemma_pow10_adds(26, 2);
        lemma_pow10_adds(22, 6);
        lemma_pow10_adds(22, 4);
        lemma_pow10_positive(22);
        assert(pow10(2) == 100 && pow10(4) == 10_000 && pow10(6) == 1_000_000) by {
            reveal_with_fuel(pow10, 7);
        }
        let (p, h, u) = (pow10(28), pow10(26), pow10(22));
        let (o, w) = (off@, wanted@);
        assert(o * 5 <= w ==> (20 * h) * w >= o * p) by (nonlinear_arith)
            requires
                p == h * 100,
                h >= 1,
        ;
        assert(o * 1_000_000 >= 200_001 * w ==> (200_001 * u) * w <= o * p) by (nonlinear_arith)
            requires
                p == u * 1_000_000,
                u >= 1,
        ;
        assert(200_001 * u > 20 * h);
    }
    Some(rel.is_more(Decimal::new(20, 2)))
}

/// `mid` moved away from the middle by the fraction `away`: down for a bid, up for
/// an ask.
pub open spec fn price_away(mid: Decimal, side: Side, away: Option<Decimal>) -> Option<Decimal> {
    match side {
        Side::Bid => times(Some(mid), minus(Some(whole(1)), away)),
        Side::Ask => times(Some(mid), plus(Some(whole(1)), away)),
    }
}

/// Whether `mid` is moved by the fraction `away` without rounding.
pub open spec fn moves_exactly(mid: Decimal, side: Side, away: Decimal) -> bool {
    match side {
        Side::Bid => exact_difference(whole(1), away) && exact_product(
            mid,
            difference(whole(1), away)->0,
        ),
        Side::Ask => exact_sum(whole(1), away) && exact_product(mid, sum(whole(1), away)->0),
    }
}

/// Whether `price` lies `bps` basis points below `mid` for a bid, above it for an ask.
pub open spec fn lies_away(price: int, mid: int, side: Side, bps: int) -> bool {
    match side {
        Side::Bid => price * 10_000 == mid * (10_000 - bps),
        Side::Ask => price * 10_000 == mid * (10_000 + bps),
    }
}

/// A price moved without rounding by a number of basis points lies that far away.
pub proof fn lemma_lies_away(price: int, mid: int, side: Side, bps: int)
    requires
        side is Bid ==> price * pow10(28) == mid * (pow10(28) - bps * pow10(24)),
        side is Ask ==> price * pow10(28) == mid * (pow10(28) + bps * pow10(24)),
    ensures
        lies_away(price, mid, side, bps),
{
    lemma_pow10_positive(24);
    lemma_pow10_adds(4, 24);
    assert(pow10(4) == 10_000) by {
        reveal_with_fuel(pow10, 5);
    }
    let (p, q) = (pow10(28), pow10(24));
    match side {
        Side::Bid => {
            assert(price * 10_000 == mid * (10_000 - bps)) by (nonlinear_arith)
                requires
                    price * p == mid * (p - bps * q),
                    p == 10_000 * q,
                    q >= 1,
            ;
        },
        Side::Ask => {
            assert(price * 10_000 == mid * (10_000 + bps)) by (nonlinear_arith)
                requires
                    price * p == mid * (p + bps * q),
                    p == 10_000 * q,
                    q >= 1,
            ;
        },
    }
}

/// `mid` moved away from the middle; see [`price_away`].
pub fn try_price_away(mid: Decimal, side: Side, away: Decimal) -> (result: Option<Decimal>)
    ensures
        result == price_away(mid, side, Some(away)),
        result is Some && mid@ >= 0 && away@ >= 0 ==> match side {
            Side::Bid => result->0@ <= mid@,
            Side::Ask => result->0@ >= mid@,
        },
        side is Bid && exact_difference(whole(1), away) && exact_product(
            mid,
            difference(whole(1), away)->0,
        ) ==> result is Some && result->0@ * pow10(28) == mid@ * (pow10(28) - away@),
        side is Ask && exact_sum(whole(1), away) && exact_product(mid, sum(whole(1), away)->0)
            ==> result is Some && result->0@ * pow10(28) == mid@ * (pow10(28) + away@),
{
    proof {
        lemma_whole(1);
        lemma_pow10_positive(28);
    }
    match side {
        Side::Bid => mid.checked_mul(Decimal::one().checked_sub(away)?),
        Side::Ask => mid.checked_mul(Decimal::one().checked_add(away)?),
    }
}

/// A single-point order.
pub fn make_intent(
    symbol: &Symbol,
    side: Side,
    price: Price,
    size: Size,
    tif: TimeInForce,
) -> (result: QuoteIntent)
    ensures
        result == point_order(*symbol, side, price.0, size.0, tif),
{
    QuoteIntent { symbol: symbol.clone(), side, price, size, tif, kind: QuoteKind::Point }
}

/// A post-only order.
pub fn make_post_only_intent(symbol: &Symbol, side: Side, price: Price, size: Size) -> (result:
    QuoteIntent)
    ensures
        result == maker_order(*symbol, side, price.0, size.0),
{
    make_intent(symbol, side, price, size, TimeInForce::PostOnly)
}

/// Cancels everything and quotes both sides.
pub open spec fn quoted_pair(symbol: Symbol, bid: Price, ask: Price, size: Size) -> Seq<Action> {
    seq![
        Action::CancelAll,
        Action::Quote(maker_order(symbol, Side::Bid, bid.0, size.0)),
        Action::Quote(maker_order(symbol, Side::Ask, ask.0, size.0)),
    ]
}

/// Cancels everything and quotes both sides post-only.
pub fn post_only_pair(symbol: &Symbol, bid: Price, ask: Price, size: Size) -> (result: Vec<Action>)
    ensures
        result@ == quoted_pair(*symbol, bid, ask, size),
{
    vec![
        Action::CancelAll,
        Action::Quote(make_post_only_intent(symbol, Side::Bid, bid, size)),
        Action::Quote(make_post_only_intent(symbol, Side::Ask, ask, size)),
    ]
}

/// Whether to requote: a last price or the last time is missing, the interval has
/// passed, or a target moved by at least a tick.
pub open spec fn requote_on_tick_drift(
    last_bid: Option<Price>,
    last_ask: Option<Price>,
    last_ts: Option<Timestamp>,
    new_bid: Price,
    new_ask: Price,
    now: Timestamp,
    interval_ms: u64,
    tick_size: Decimal,
) -> Option<bool> {
    match (last_bid, last_ask, last_ts) {
        (Some(last_bid), Some(last_ask), Some(last_ts)) => {
            if elapsed(now.0, last_ts.0) >= capped_product(interval_ms as int, 1_000_000) {
                Some(true)
            } else {
                match (difference(new_bid.0, last_bid.0), difference(new_ask.0, last_ask.0)) {
                    (Some(bid), Some(ask)) => Some(
                        absolute(bid)@ >= tick_size@ || absolute(ask)@ >= tick_size@,
                    ),
                    _ => None,
                }
            }
        },
        _ => Some(true),
    }
}

/// Requote gate on elapsed time and target drift; see [`requote_on_tick_drift`].
pub fn should_requote_on_tick_drift(
    last_bid: Option<Price>,
    last_ask: Option<Price>,
    last_ts: Option<Timestamp>,
    new_bid: Price,
    new_ask: Price,
    now: Timestamp,
    interval_ms: u64,
    tick_size: Decimal,
) -> (result: Option<bool>)
    ensures
        result == requote_on_tick_drift(
            last_bid,
            last_ask,
            last_ts,
            new_bid,
            new_ask,
            now,
            interval_ms,
            tick_size,
        ),
        last_bid is None || last_ask is None || last_ts is None ==> result == Some(true),
        last_bid is Some && last_ask is Some && last_ts is Some && now.0 - (last_ts->0).0
            >= interval_ms * 1_000_000 ==> result == Some(true),
        last_bid is Some && last_ask is Some && last_ts is Some && 0 <= now.0 - (last_ts->0).0
            < interval_ms * 1_000_000 <= u64::MAX && exact_difference(new_bid.0, (last_bid->0).0)
            && exact_difference(new_ask.0, (last_ask->0).0) ==> result == Some(
            magnitude(new_bid.0@ - (last_bid->0).0@) >= tick_size@ || magnitude(
                new_ask.0@ - (last_ask->0).0@,
            ) >= tick_size@,
        ),
{
    match (last_bid, last_ask, last_ts) {
        (Some(last_bid), Some(last_ask), Some(last_ts)) => {
            let elapsed_ns: u64 = now.0.saturating_sub(last_ts.0);
            let interval_ns: u64 = saturating_product(interval_ms, 1_000_000);
            if elapsed_ns >= interval_ns {
                return Some(true);
            }
            let bid_drift = new_bid.0.checked_sub(last_bid.0)?.abs();
            let ask_drift = new_ask.0.checked_sub(last_ask.0)?.abs();
            Some(bid_drift.is_at_least(tick_size) || ask_drift.is_at_least(tick_size))
        },
        _ => Some(true),
    }
}

/// How far the quotes are shifted against a position: whole ticks in proportion to
/// the position, at most `max_skew_ticks`, down for a long and up for a short.
pub open spec fn skew_price(
    pos: Decimal,
    max_skew_ticks: u32,
    skew_unit: Decimal,
    tick_size: Decimal,
) -> Option<Decimal> {
    if max_skew_ticks == 0 || pos@ == 0 || skew_unit@ <= 0 {
        Some(whole(0))
    } else {
        match quotient(absolute(pos), skew_unit) {
            None => None,
            Some(full) => match product(lesser(full, whole(1)), whole(max_skew_ticks as int)) {
                None => None,
                Some(shift) => match product(floor_of(shift), tick_size) {
                    None => None,
                    Some(magnitude) => Some(
                        if pos@ > 0 {
                            negated(magnitude)
                        } else {
                            magnitude
                        },
                    ),
                },
            },
        }
    }
}

/// Price shift against the position; see [`skew_price`].
pub fn inventory_skew_price(
    pos: Decimal,
    max_skew_ticks: u32,
    skew_unit: Decimal,
    tick_size: Decimal,
) -> (result: Option<Decimal>)
    ensures
        result == skew_price(pos, max_skew_ticks, skew_unit, tick_size),
        result is Some && tick_size@ >= 0 ==> {
            &&& pos@ >= 0 ==> result->0@ <= 0
            &&& pos@ <= 0 ==> result->0@ >= 0
        },
        skew_unit@ > 0 && magnitude(pos@) >= 2 * skew_unit@ && exact_product(
            whole(max_skew_ticks as int),
            tick_size,
        ) && result is Some ==> magnitude(result->0@) == max_skew_ticks * magnitude(tick_size@),
{
    proof {
        lemma_whole(1);
        lemma_whole(max_skew_ticks as int);
        lemma_pow10_positive(28);
        let p = pow10(28);
        assert(max_skew_ticks as int * p >= 0) by (nonlinear_arith)
            requires
                p >= 1,
                max_skew_ticks as int >= 0,
        ;
    }
    if max_skew_ticks == 0 || pos.is_zero() {
        return Some(Decimal::zero());
    }
    if !skew_unit.is_positive() {
        return Some(Decimal::zero());
    }
    let max = Decimal::whole(max_skew_ticks as i64);
    let full = pos.abs().checked_div(skew_unit)?;
    let ratio = full.min(Decimal::whole(1));
    let shift = ratio.checked_mul(max)?;
    let ticks_shifted = shift.floor();
    let magnitude = ticks_shifted.checked_mul(tick_size)?;
    proof {
        if skew_unit@ > 0 && crate::decimal::magnitude(pos@) >= 2 * skew_unit@ {
            let (n, p) = (max_skew_ticks as int, pow10(28));
            lemma_quotient_keeps_whole_order(absolute(pos)@, skew_unit@, full@, 2);
            lemma_whole_arithmetic(1, n);
            assert(ratio == whole(1));
            assert(shift@ == n * p) by (nonlinear_arith)
                requires
                    shift@ * p == (1 * p) * (n * p),
                    p >= 1,
            ;
            let t = tick_size@;
            let k = floor_int(shift);
            lemma_whole(k);
            assert(k == n) by (nonlinear_arith)
                requires
                    k * p <= n * p < k * p + p,
                    p >= 1,
            ;
            assert(exact_product(whole(n), tick_size) ==> magnitude@ == n * t) by {
                assert(magnitude@ * p == (n * p) * t ==> magnitude@ == n * t) by (nonlinear_arith)
                    requires
                        p >= 1,
                ;
            }
            assert(crate::decimal::magnitude(n * t) == n * crate::decimal::magnitude(t))
                by (nonlinear_arith)
                requires
                    n >= 0,
            ;
        }
    }
    if pos.is_positive() {
        Some(magnitude.negate())
    } else {
        Some(magnitude)
    }
}

/// Quotes are renewed once the interval has passed, or before that where the mid has left the
/// last one by more than half a level step; an unmoved mid never calls for it.
pub proof fn law_requotes_on_drift(
    last_ts: Timestamp,
    last_mid: Price,
    new_mid: Price,
    now: Timestamp,
    min_interval_ms: u64,
    level_step_bps: u32,
    moved: Decimal,
    half_step: Decimal,
)
    requires
        last_ts.0 <= now.0,
        min_interval_ms * 1_000_000 <= u64::MAX,
        difference(new_mid.0, last_mid.0) == Some(moved),
        over(
            times(Some(last_mid.0), quotient(whole(level_step_bps as int), whole(2))),
            Some(whole(10_000)),
        ) == Some(half_step),
        half_step@ * 20_000 == level_step_bps * last_mid.0@,
    ensures
        requote_drift(
            Some(last_ts),
            Some(last_mid),
            new_mid,
            now,
            min_interval_ms,
            level_step_bps,
        ) == Some(
            now.0 - last_ts.0 >= min_interval_ms * 1_000_000 || 20_000 * absolute(moved)@
                > level_step_bps * last_mid.0@,
        ),
        requote_drift(None, Some(last_mid), new_mid, now, min_interval_ms, level_step_bps) == Some(
            true,
        ),
        requote_drift(Some(last_ts), None, new_mid, now, min_interval_ms, level_step_bps) == Some(
            true,
        ),
{
}

/// Quotes are renewed once the interval has passed, or before that where either target has left
/// the last one by a tick or more.
pub proof fn law_requotes_on_tick_drift(
    last_bid: Price,
    last_ask: Price,
    last_ts: Timestamp,
    new_bid: Price,
    new_ask: Price,
    now: Timestamp,
    interval_ms: u64,
    tick_size: Decimal,
    bid_moved: Decimal,
    ask_moved: Decimal,
)
    requires
        last_ts.0 <= now.0,
        interval_ms * 1_000_000 <= u64::MAX,
        difference(new_bid.0, last_bid.0) == Some(bid_moved),
        difference(new_ask.0, last_ask.0) == Some(ask_moved),
    ensures
        requote_on_tick_drift(
            Some(last_bid),
            Some(last_ask),
            Some(last_ts),
            new_bid,
            new_ask,
            now,
            interval_ms,
            tick_size,
        ) == Some(
            now.0 - last_ts.0 >= interval_ms * 1_000_000 || absolute(bid_moved)@ >= tick_size@
                || absolute(ask_moved)@ >= tick_size@,
        ),
{
}

/// A resting size stands while it is within a fifth of the wanted one, either way.
pub proof fn law_sizes_stand_within_a_fifth(
    resting: Decimal,
    wanted: Decimal,
    off: Decimal,
    share: Decimal,
)
    requires
        wanted@ > 0,
        difference(resting, wanted) == Some(off),
        quotient(absolute(off), wanted) == Some(share),
        share@ * wanted@ == absolute(off)@ * pow10(28),
    ensures
        size_is_off(resting, wanted) == Some(5 * absolute(off)@ > wanted@),
{
    lemma_decimal(20, 2);
    lemma_pow10_adds(26, 2);
    lemma_pow10_positive(26);
    assert(pow10(2) == 100) by {
        reveal_with_fuel(pow10, 3);
    }
    let (s, w, o, p, h) = (share@, wanted@, absolute(off)@, pow10(28), pow10(26));
    assert((s > 20 * h) == (5 * o > w)) by (nonlinear_arith)
        requires
            s * w == o * p,
            p == h * 100,
            h >= 1,
            w > 0,
    ;
}

/// Quotes are shifted by whole ticks, in proportion to the position up to the largest shift:
/// down for a long, up for a short.
pub proof fn law_skew_is_whole_ticks(
    pos: Decimal,
    max_skew_ticks: u32,
    skew_unit: Decimal,
    tick_size: Decimal,
    full: Decimal,
    share: Decimal,
    shift: Decimal,
    moved: Decimal,
)
    requires
        max_skew_ticks > 0,
        skew_unit@ > 0,
        quotient(absolute(pos), skew_unit) == Some(full),
        full@ <= whole(1)@ ==> share == full,
        full@ > whole(1)@ ==> share == whole(1),
        product(share, whole(max_skew_ticks as int)) == Some(shift),
        product(whole(floor_int(shift)), tick_size) == Some(moved),
    ensures
        pos@ > 0 ==> skew_price(pos, max_skew_ticks, skew_unit, tick_size) == Some(negated(moved)),
        pos@ < 0 ==> skew_price(pos, max_skew_ticks, skew_unit, tick_size) == Some(moved),
        pos@ == 0 ==> skew_price(pos, max_skew_ticks, skew_unit, tick_size) == Some(whole(0)),
{
}

/// A price moved away from the mid lies below it for a bid and above it for an ask, by the same
/// fraction of it.
pub proof fn law_price_away_is_symmetric(
    mid: Decimal,
    away: Decimal,
    less: Decimal,
    more: Decimal,
    below: Decimal,
    above: Decimal,
)
    requires
        difference(whole(1), away) == Some(less),
        less@ == pow10(28) - away@,
        sum(whole(1), away) == Some(more),
        more@ == pow10(28) + away@,
        product(mid, less) == Some(below),
        below@ * pow10(28) == mid@ * less@,
        product(mid, more) == Some(above),
        above@ * pow10(28) == mid@ * more@,
    ensures
        ({
            let bid = price_away(mid, Side::Bid, Some(away));
            let ask = price_away(mid, Side::Ask, Some(away));
            &&& bid is Some && ask is Some
            &&& (mid@ - bid->0@) * pow10(28) == mid@ * away@
            &&& (ask->0@ - mid@) * pow10(28) == mid@ * away@
        }),
{
    let (m, a, b, c, p) = (mid@, away@, below@, above@, pow10(28));
    assert((m - b) * p == m * a && (c - m) * p == m * a) by (nonlinear_arith)
        requires
            b * p == m * (p - a),
            c * p == m * (p + a),
    ;
}

/// The middle of two prices is as far from the one as from the other.
pub proof fn law_midpoint_is_in_the_middle(a: Decimal, b: Decimal, total: Decimal, half: Decimal)
    requires
        sum(a, b) == Some(total),
        total@ == a@ + b@,
        quotient(total, whole(2)) == Some(half),
        half@ * 2 == total@,
    ensures
        midpoint(a, b) is Some,
        midpoint(a, b)->0@ - a@ == b@ - midpoint(a, b)->0@,
{
}

/// The mid of a book is that of its best bid and its best ask; a book without both has none.
pub proof fn law_mid_is_of_the_touches(snapshot: Snapshot)
    ensures
        snapshot.bids@.len() == 0 || snapshot.asks@.len() == 0 ==> mid_strict(snapshot) == Some(
            None::<Price>,
        ),
        snapshot.bids@.len() > 0 && snapshot.asks@.len() > 0 ==> (mid_strict(snapshot) matches Some(
            Some(mid),
        ) ==> over(
            sum(snapshot.bids@[0].price.0, snapshot.asks@[0].price.0),
            Some(whole(2)),
        ) == Some(mid.0)),
{
}

/// The weighted mid is the average of the touches, each weighted by the size on the other side.
pub proof fn law_weighted_mid_crosses_the_sizes(
    bid: Decimal,
    bid_size: Decimal,
    ask: Decimal,
    ask_size: Decimal,
    total: Decimal,
    up: Decimal,
    down: Decimal,
    weighted: Decimal,
    price: Decimal,
)
    requires
        total@ == bid_size@ + ask_size@,
        total@ > 0,
        product(bid_size, ask) == Some(up),
        up@ * pow10(28) == bid_size@ * ask@,
        product(ask_size, bid) == Some(down),
        down@ * pow10(28) == ask_size@ * bid@,
        sum(up, down) == Some(weighted),
        weighted@ == up@ + down@,
        quotient(weighted, total) == Some(price),
        price@ * total@ == weighted@ * pow10(28),
    ensures
        weighted_mid(bid, bid_size, ask, ask_size, total) matches Some(mid) && mid@ * (bid_size@
            + ask_size@) == bid_size@ * ask@ + ask_size@ * bid@,
{
    let (u, d, p) = (up@, down@, pow10(28));
    assert((u + d) * p == u * p + d * p) by (nonlinear_arith);
}

/// The newest of a sequence are its last ones, all of them where there are no more.
pub proof fn law_newest_are_the_last<T>(s: Seq<T>, n: int, i: int)
    requires
        0 <= n,
        0 <= i < newest(s, n).len(),
    ensures
        newest(s, n).len() == if s.len() < n {
            s.len() as int
        } else {
            n
        },
        newest(s, n)[i] == s[s.len() - newest(s, n).len() + i],
{
}

} // verus!
