//! What the spread-scalping strategies share: targets inside the touches, requote
//! and cooldown gates, inventory multipliers, the position cap and the top-up of a
//! side.

use crate::decimal::{
    absolute, difference, exact_difference, exact_product, exact_sum, lemma_pow10_positive,
    magnitude, over, plus, pow10, product, sum, times, whole, Decimal,
};
use crate::market::{Price, QuoteId, QuoteIntent, Side, Snapshot, Timestamp};
use crate::quoting::{
    capped_product, elapsed, lemma_reaches_bps, lemma_reads_exactly, measures_exactly, midpoint,
    reaches_bps, reads_exactly, saturating_product, try_bps_of, try_midpoint,
};
use crate::sizing::{stepped, try_stepped};
use crate::spread_scalp::book_state::{sized, try_quote_size};
use vstd::prelude::*;

verus! {

/// The bid or the ask of a pair.
pub open spec fn on_side<T>(side: Side, bid: T, ask: T) -> T {
    match side {
        Side::Bid => bid,
        Side::Ask => ask,
    }
}

/// Targets a tick inside the touches, with the mid of the touches; the inner `None`
/// is a book that is one-sided, crossed or too tight, or on which the targets would
/// cross.
pub open spec fn inside_targets(tick: Decimal, min_spread_bps: Decimal, snapshot: Snapshot) -> Option<
    Option<(Price, Price, Decimal)>,
> {
    if snapshot.bids@.len() == 0 || snapshot.asks@.len() == 0 {
        Some(None)
    } else {
        let best_bid = snapshot.bids@[0].price.0;
        let best_ask = snapshot.asks@[0].price.0;
        if tick@ <= 0 || best_ask@ <= best_bid@ {
            Some(None)
        } else {
            match midpoint(best_bid, best_ask) {
                None => None,
                Some(mid) => if mid@ <= 0 {
                    Some(None)
                } else {
                    match times(over(difference(best_ask, best_bid), Some(mid)), Some(whole(10_000))) {
                        None => None,
                        Some(spread_bps) => if spread_bps@ < min_spread_bps@ {
                            Some(None)
                        } else {
                            match (sum(best_bid, tick), difference(best_ask, tick)) {
                                (Some(bid), Some(ask)) => Some(
                                    if bid@ >= ask@ {
                                        None
                                    } else {
                                        Some((Price(bid), Price(ask), mid))
                                    },
                                ),
                                _ => None,
                            }
                        },
                    }
                },
            }
        }
    }
}

/// Targets a tick inside the touches; see [`inside_targets`].
pub fn try_inside_targets(tick: Decimal, min_spread_bps: Decimal, snapshot: &Snapshot) -> (result:
    Option<Option<(Price, Price, Decimal)>>)
    ensures
        result == inside_targets(tick, min_spread_bps, *snapshot),
        result matches Some(Some((bid, ask, mid))) ==> {
            let (best_bid, best_ask) = (snapshot.bids@[0].price.0, snapshot.asks@[0].price.0);
            &&& best_bid@ < best_ask@
            &&& bid.0@ < ask.0@
            &&& 0 <= best_bid@ ==> best_bid@ <= bid.0@ && ask.0@ <= best_ask@
            &&& exact_sum(best_bid, tick) ==> bid.0@ == best_bid@ + tick@
            &&& exact_difference(best_ask, tick) ==> ask.0@ == best_ask@ - tick@
            &&& exact_difference(best_ask, best_bid) && measures_exactly(
                difference(best_ask, best_bid)->0,
                mid,
            ) ==> reaches_bps(best_ask@ - best_bid@, mid@, min_spread_bps@, true)
        },
        result == Some(None::<(Price, Price, Decimal)>) && snapshot.bids@.len() > 0
            && snapshot.asks@.len() > 0 && tick@ > 0 ==> {
            let (best_bid, best_ask) = (snapshot.bids@[0].price.0, snapshot.asks@[0].price.0);
            let mid = midpoint(best_bid, best_ask)->0;
            exact_difference(best_ask, best_bid) && measures_exactly(
                difference(best_ask, best_bid)->0,
                mid,
            ) && mid@ > 0 && best_bid@ < best_ask@ && exact_sum(best_bid, tick) && exact_difference(
                best_ask,
                tick,
            ) && best_bid@ + tick@ < best_ask@ - tick@ ==> reaches_bps(
                best_ask@ - best_bid@,
                mid@,
                min_spread_bps@,
                false,
            )
        },
{
    if snapshot.bids.len() == 0 || snapshot.asks.len() == 0 {
        return Some(None);
    }
    let best_bid = snapshot.bids[0].price.0;
    let best_ask = snapshot.asks[0].price.0;
    if !tick.is_positive() || best_ask.is_at_most(best_bid) {
        return Some(None);
    }
    let mid = try_midpoint(best_bid, best_ask)?;
    if !mid.is_positive() {
        return Some(None);
    }
    let spread = best_ask.checked_sub(best_bid)?;
    let spread_bps = try_bps_of(spread, mid)?;
    proof {
        if measures_exactly(spread, mid) {
            lemma_reaches_bps(spread@, mid@, spread_bps@, min_spread_bps@);
        }
    }
    if spread_bps.is_less(min_spread_bps) {
        return Some(None);
    }
    let bid = best_bid.checked_add(tick)?;
    let ask = best_ask.checked_sub(tick)?;
    if bid.is_at_least(ask) {
        return Some(None);
    }
    Some(Some((Price(bid), Price(ask), mid)))
}

/// Whether both targets are where they were.
pub open spec fn targets_stand(
    last_bid: Option<Price>,
    last_ask: Option<Price>,
    bid: Price,
    ask: Price,
) -> bool {
    last_bid is Some && last_ask is Some && (last_bid->0).0@ == bid.0@ && (last_ask->0).0@
        == ask.0@
}

/// Whether both targets are where they were.
pub fn do_targets_stand(last_bid: Option<Price>, last_ask: Option<Price>, bid: Price, ask: Price)
    -> (result: bool)
    ensures
        result == targets_stand(last_bid, last_ask, bid, ask),
{
    match (last_bid, last_ask) {
        (Some(last_bid), Some(last_ask)) => last_bid.0.equals(bid.0) && last_ask.0.equals(ask.0),
        _ => false,
    }
}

/// Whether `interval_ms` has passed since `last`, or there is no `last`.
pub open spec fn interval_passed(last: Option<Timestamp>, now: Timestamp, interval_ms: u64) -> bool {
    match last {
        None => true,
        Some(last) => elapsed(now.0, last.0) >= capped_product(interval_ms as int, 1_000_000),
    }
}

/// Whether the interval has passed; see [`interval_passed`].
pub fn has_interval_passed(last: Option<Timestamp>, now: Timestamp, interval_ms: u64) -> (result:
    bool)
    ensures
        result == interval_passed(last, now, interval_ms),
        last is None ==> result,
        last is Some && now.0 - (last->0).0 >= interval_ms * 1_000_000 ==> result,
        last is Some && 0 <= now.0 - (last->0).0 < interval_ms * 1_000_000 <= u64::MAX ==> !result,
{
    match last {
        None => true,
        Some(last) => {
            let elapsed_ns: u64 = now.0.saturating_sub(last.0);
            elapsed_ns >= saturating_product(interval_ms, 1_000_000)
        },
    }
}

/// Whether a side may not be quoted yet after its last rejection.
pub open spec fn cooling_off(last_reject: Option<Timestamp>, now: Timestamp, cooldown_ms: u64) -> bool {
    cooldown_ms != 0 && last_reject is Some && !interval_passed(last_reject, now, cooldown_ms)
}

/// Whether a side is cooling off; see [`cooling_off`].
pub fn is_cooling_off(last_reject: Option<Timestamp>, now: Timestamp, cooldown_ms: u64) -> (result:
    bool)
    ensures
        result == cooling_off(last_reject, now, cooldown_ms),
        cooldown_ms == 0 || last_reject is None ==> !result,
        last_reject is Some && now.0 - (last_reject->0).0 >= cooldown_ms * 1_000_000 ==> !result,
        last_reject is Some && 0 <= now.0 - (last_reject->0).0 < cooldown_ms * 1_000_000 <= u64::MAX
            ==> result,
{
    cooldown_ms != 0 && last_reject.is_some() && !has_interval_passed(last_reject, now, cooldown_ms)
}

/// Size multipliers of bid and ask: the side that reduces the position is doubled.
pub open spec fn multipliers(position_size: Decimal) -> (Decimal, Decimal) {
    if position_size@ > 0 {
        (whole(1), whole(2))
    } else if position_size@ < 0 {
        (whole(2), whole(1))
    } else {
        (whole(1), whole(1))
    }
}

/// Size multipliers; see [`multipliers`].
pub fn inventory_multipliers(position_size: Decimal) -> (result: (Decimal, Decimal))
    ensures
        result == multipliers(position_size),
{
    if position_size.is_positive() {
        (Decimal::one(), Decimal::whole(2))
    } else if position_size.is_negative() {
        (Decimal::whole(2), Decimal::one())
    } else {
        (Decimal::one(), Decimal::one())
    }
}

/// Whether a position of this size, valued at `mid`, has reached the cap.
pub open spec fn at_cap(max_position: Decimal, position_size: Decimal, mid: Decimal) -> Option<bool> {
    match product(absolute(position_size), mid) {
        None => None,
        Some(value) => Some(max_position@ > 0 && value@ >= max_position@),
    }
}

/// Whether the cap is reached; see [`at_cap`].
pub fn is_at_cap(max_position: Decimal, position_size: Decimal, mid: Decimal) -> (result: Option<
    bool,
>)
    ensures
        result == at_cap(max_position, position_size, mid),
        result == Some(true) ==> max_position@ > 0,
        max_position@ > 0 && exact_product(absolute(position_size), mid) ==> result == Some(
            magnitude(position_size@) * mid@ >= max_position@ * pow10(28),
        ),
{
    let value = position_size.abs().checked_mul(mid)?;
    proof {
        lemma_pow10_positive(28);
        let (v, m, p) = (value@, max_position@, pow10(28));
        assert((v >= m) == (v * p >= m * p)) by (nonlinear_arith)
            requires
                p >= 1,
        ;
    }
    Some(max_position.is_positive() && value.is_at_least(max_position))
}

/// Whether quoting a side does not grow a capped position.
pub open spec fn within_cap(position_size: Decimal, capped: bool, side: Side) -> bool {
    !capped || on_side(side, position_size@ <= 0, position_size@ >= 0)
}

/// Whether quoting a side is within the cap; see [`within_cap`].
pub fn is_within_cap(position_size: Decimal, capped: bool, side: Side) -> (result: bool)
    ensures
        result == within_cap(position_size, capped, side),
{
    let shrinks = match side {
        Side::Bid => !position_size.is_positive(),
        Side::Ask => !position_size.is_negative(),
    };
    !capped || shrinks
}

/// Total size of the open quotes on a side, added up in order.
pub open spec fn open_size(open: Seq<(QuoteId, QuoteIntent)>, side: Side) -> Option<Decimal>
    decreases open.len(),
{
    if open.len() == 0 {
        Some(whole(0))
    } else {
        let before = open_size(open.drop_last(), side);
        if open.last().1.side == side {
            plus(before, Some(open.last().1.size.0))
        } else {
            before
        }
    }
}

/// A failing prefix makes the whole total fail.
proof fn lemma_open_size_fails(open: Seq<(QuoteId, QuoteIntent)>, n: int, side: Side)
    requires
        0 <= n <= open.len(),
        open_size(open.take(n), side) is None,
    ensures
        open_size(open, side) is None,
    decreases open.len() - n,
{
    if n == open.len() {
        assert(open.take(n) =~= open);
    } else {
        assert(open.take(n + 1).drop_last() =~= open.take(n));
        lemma_open_size_fails(open, n + 1, side);
    }
}

/// Total size of the open quotes on a side; see [`open_size`].
pub fn try_open_size(open: &[(QuoteId, QuoteIntent)], side: Side) -> (result: Option<Decimal>)
    ensures
        result == open_size(open@, side),
{
    let mut total = Decimal::zero();
    let mut i: usize = 0;
    while i < open.len()
        invariant
            i <= open@.len(),
            open_size(open@.take(i as int), side) == Some(total),
        decreases open@.len() - i,
    {
        assert(open@.take(i + 1).drop_last() =~= open@.take(i as int));
        if open[i].1.side == side {
            match total.checked_add(open[i].1.size.0) {
                Some(next) => {
                    total = next;
                },
                None => {
                    proof {
                        lemma_open_size_fails(open@, i as int + 1, side);
                    }
                    return None;
                },
            }
        }
        i = i + 1;
    }
    assert(open@.take(i as int) =~= open@);
    Some(total)
}

/// What is missing on a side between its open quotes and a full quote, on the lot
/// grid; the inner `None` is nothing.
pub open spec fn missing_size(
    open: Seq<(QuoteId, QuoteIntent)>,
    side: Side,
    notional: Decimal,
    price: Price,
    multiplier: Decimal,
    step: Decimal,
) -> Option<Option<Decimal>> {
    match (open_size(open, side), sized(notional, price, multiplier, step)) {
        (Some(existing), Some(desired)) => if desired@ <= existing@ {
            Some(None)
        } else {
            match difference(desired, existing) {
                None => None,
                Some(missing) => match stepped(Some(missing), step) {
                    None => None,
                    Some(extra) => Some(
                        if extra@ > 0 {
                            Some(extra)
                        } else {
                            None
                        },
                    ),
                },
            }
        },
        _ => None,
    }
}

/// What is missing on a side; see [`missing_size`].
pub fn try_missing_size(
    open: &[(QuoteId, QuoteIntent)],
    side: Side,
    notional: Decimal,
    price: Price,
    multiplier: Decimal,
    step: Decimal,
) -> (result: Option<Option<Decimal>>)
    ensures
        result == missing_size(open@, side, notional, price, multiplier, step),
{
    let existing = try_open_size(open, side)?;
    let desired = try_quote_size(notional, price, multiplier, step)?;
    if desired.is_at_most(existing) {
        return Some(None);
    }
    let extra = try_stepped(desired.checked_sub(existing)?, step)?;
    if extra.is_positive() {
        Some(Some(extra))
    } else {
        Some(None)
    }
}

/// The size worth `notional x multiplier` at `price`, on the lot grid, one step
/// larger where that is worth less than the minimum notional.
pub open spec fn bumped_size(
    notional: Decimal,
    price: Price,
    multiplier: Decimal,
    step: Decimal,
    min_notional: Decimal,
) -> Option<Decimal> {
    match sized(notional, price, multiplier, step) {
        None => None,
        Some(size) => if min_notional@ > 0 {
            match product(size, price.0) {
                None => None,
                Some(value) => if value@ < min_notional@ && step@ > 0 {
                    sum(size, step)
                } else {
                    Some(size)
                },
            }
        } else {
            Some(size)
        },
    }
}

/// Size of a quote; see [`bumped_size`].
pub fn try_bumped_size(
    notional: Decimal,
    price: Price,
    multiplier: Decimal,
    step: Decimal,
    min_notional: Decimal,
) -> (result: Option<Decimal>)
    ensures
        result == bumped_size(notional, price, multiplier, step, min_notional),
        result is Some ==> {
            let size = sized(notional, price, multiplier, step)->0;
            let value = product(size, price.0)->0;
            &&& min_notional@ <= 0 || step@ <= 0 || value@ >= min_notional@ ==> result == Some(size)
            &&& min_notional@ > value@ && min_notional@ > 0 && step@ > 0 && exact_sum(size, step)
                ==> result->0@ == size@ + step@
        },
{
    let size = try_quote_size(notional, price, multiplier, step)?;
    if min_notional.is_positive() {
        let value = size.checked_mul(price.0)?;
        if value.is_less(min_notional) && step.is_positive() {
            return size.checked_add(step);
        }
    }
    Some(size)
}

/// Unrealized profit of a position at `mid`, where a take-profit applies to it.
pub open spec fn profit_reached(
    threshold: Decimal,
    position_size: Decimal,
    avg_entry: Decimal,
    mid: Decimal,
) -> Option<bool> {
    if threshold@ <= 0 || avg_entry@ <= 0 || position_size@ == 0 {
        Some(false)
    } else {
        let profit = if position_size@ > 0 {
            difference(mid, avg_entry)
        } else {
            difference(avg_entry, mid)
        };
        match times(profit, Some(absolute(position_size))) {
            None => None,
            Some(unrealized) => Some(unrealized@ >= threshold@),
        }
    }
}

/// Whether the take-profit is reached; see [`profit_reached`].
pub fn is_profit_reached(
    threshold: Decimal,
    position_size: Decimal,
    avg_entry: Decimal,
    mid: Decimal,
) -> (result: Option<bool>)
    ensures
        result == profit_reached(threshold, position_size, avg_entry, mid),
        position_size@ > 0 && threshold@ > 0 && avg_entry@ > 0 && exact_difference(mid, avg_entry)
            && exact_product(difference(mid, avg_entry)->0, absolute(position_size)) ==> result
            == Some(
            (mid@ - avg_entry@) * magnitude(position_size@) >= threshold@ * pow10(28),
        ),
        position_size@ < 0 && threshold@ > 0 && avg_entry@ > 0 && exact_difference(avg_entry, mid)
            && exact_product(difference(avg_entry, mid)->0, absolute(position_size)) ==> result
            == Some(
            (avg_entry@ - mid@) * magnitude(position_size@) >= threshold@ * pow10(28),
        ),
{
    if !threshold.is_positive() || !avg_entry.is_positive() || position_size.is_zero() {
        return Some(false);
    }
    let profit = if position_size.is_positive() {
        mid.checked_sub(avg_entry)?
    } else {
        avg_entry.checked_sub(mid)?
    };
    let unrealized = profit.checked_mul(position_size.abs())?;
    proof {
        lemma_pow10_positive(28);
        let (v, m, p) = (unrealized@, threshold@, pow10(28));
        assert((v >= m) == (v * p >= m * p)) by (nonlinear_arith)
            requires
                p >= 1,
        ;
    }
    Some(unrealized.is_at_least(threshold))
}

/// The side that reduces a position is quoted at twice the size, the other at the plain size,
/// and neither is doubled while flat.
pub proof fn law_reducing_side_is_doubled(position_size: Decimal)
    ensures
        multipliers(position_size).0 == if position_size@ < 0 {
            whole(2)
        } else {
            whole(1)
        },
        multipliers(position_size).1 == if position_size@ > 0 {
            whole(2)
        } else {
            whole(1)
        },
{
}

/// A capped position is not added to, and can always be reduced.
pub proof fn law_capped_position_only_shrinks(position_size: Decimal, capped: bool)
    ensures
        capped && position_size@ > 0 ==> !within_cap(position_size, capped, Side::Bid),
        capped && position_size@ < 0 ==> !within_cap(position_size, capped, Side::Ask),
        position_size@ >= 0 ==> within_cap(position_size, capped, Side::Ask),
        position_size@ <= 0 ==> within_cap(position_size, capped, Side::Bid),
        within_cap(position_size, false, Side::Bid) && within_cap(position_size, false, Side::Ask),
{
}

/// A quote counts on its own side alone.
pub proof fn law_open_size_counts_one_side(
    open: Seq<(QuoteId, QuoteIntent)>,
    quote: (QuoteId, QuoteIntent),
)
    ensures
        open_size(open.push(quote), quote.1.side) == plus(
            open_size(open, quote.1.side),
            Some(quote.1.size.0),
        ),
        quote.1.side is Bid ==> open_size(open.push(quote), Side::Ask) == open_size(
            open,
            Side::Ask,
        ),
        quote.1.side is Ask ==> open_size(open.push(quote), Side::Bid) == open_size(
            open,
            Side::Bid,
        ),
{
    assert(open.push(quote).drop_last() =~= open);
}

/// A side that already holds its full size is not topped up, and one that is topped up grows.
pub proof fn law_only_short_sides_are_topped_up(
    open: Seq<(QuoteId, QuoteIntent)>,
    side: Side,
    notional: Decimal,
    price: Price,
    multiplier: Decimal,
    step: Decimal,
    existing: Decimal,
    desired: Decimal,
)
    requires
        open_size(open, side) == Some(existing),
        sized(notional, price, multiplier, step) == Some(desired),
    ensures
        existing@ >= desired@ ==> missing_size(open, side, notional, price, multiplier, step)
            == Some(None::<Decimal>),
        missing_size(open, side, notional, price, multiplier, step) matches Some(Some(extra)) ==> {
            &&& existing@ < desired@
            &&& extra@ > 0
            &&& stepped(difference(desired, existing), step) == Some(extra)
        },
{
}

/// Both targets have to be where they were for quotes to stand.
pub proof fn law_a_moved_target_does_not_stand(
    last_bid: Option<Price>,
    last_ask: Option<Price>,
    bid: Price,
    ask: Price,
)
    ensures
        targets_stand(Some(bid), Some(ask), bid, ask),
        last_bid is None || last_ask is None ==> !targets_stand(last_bid, last_ask, bid, ask),
        last_bid is Some && (last_bid->0).0@ != bid.0@ ==> !targets_stand(
            last_bid,
            last_ask,
            bid,
            ask,
        ),
        last_ask is Some && (last_ask->0).0@ != ask.0@ ==> !targets_stand(
            last_bid,
            last_ask,
            bid,
            ask,
        ),
{
}

/// Both sides are quoted a tick inside the touches, and only where the spread reaches the least
/// one asked for and leaves room between the two.
pub proof fn law_targets_are_inside_a_wide_spread(
    tick: Decimal,
    min_spread_bps: Decimal,
    snapshot: Snapshot,
    mid: Decimal,
    spread: Decimal,
    spread_bps: Decimal,
)
    requires
        tick@ > 0,
        snapshot.bids@.len() > 0,
        snapshot.asks@.len() > 0,
        snapshot.bids@[0].price.0@ < snapshot.asks@[0].price.0@,
        midpoint(snapshot.bids@[0].price.0, snapshot.asks@[0].price.0) == Some(mid),
        difference(snapshot.asks@[0].price.0, snapshot.bids@[0].price.0) == Some(spread),
        reads_exactly(spread, mid, spread_bps),
        exact_sum(snapshot.bids@[0].price.0, tick),
        exact_difference(snapshot.asks@[0].price.0, tick),
    ensures
        ({
            let (best_bid, best_ask) = (
                snapshot.bids@[0].price.0@,
                snapshot.asks@[0].price.0@,
            );
            let wide = spread@ * 10_000 * pow10(28) >= min_spread_bps@ * mid@;
            let room = best_bid + tick@ < best_ask - tick@;
            let found = inside_targets(tick, min_spread_bps, snapshot);
            &&& found is Some
            &&& found->0 is Some <==> wide && room
            &&& found->0 matches Some((bid, ask, middle)) ==> bid.0@ == best_bid + tick@
                && ask.0@ == best_ask - tick@ && middle == mid
        }),
{
    lemma_reads_exactly(spread, mid, spread_bps, min_spread_bps@);
}

/// A position is at its cap where its value at the mid has reached it; without a cap never.
pub proof fn law_cap_is_a_value(
    max_position: Decimal,
    position_size: Decimal,
    mid: Decimal,
    value: Decimal,
)
    requires
        product(absolute(position_size), mid) == Some(value),
        value@ * pow10(28) == absolute(position_size)@ * mid@,
    ensures
        at_cap(max_position, position_size, mid) == Some(
            max_position@ > 0 && absolute(position_size)@ * mid@ >= max_position@ * pow10(28),
        ),
{
    lemma_pow10_positive(28);
    let (v, m, p) = (value@, max_position@, pow10(28));
    assert((v >= m) == (v * p >= m * p)) by (nonlinear_arith)
        requires
            p >= 1,
    ;
}

/// A take-profit is reached where what the position has gained at the mid is worth the threshold,
/// so never by a losing position.
pub proof fn law_profit_is_a_gain(
    threshold: Decimal,
    position_size: Decimal,
    avg_entry: Decimal,
    mid: Decimal,
    gain: Decimal,
    profit: Decimal,
)
    requires
        position_size@ > 0 ==> difference(mid, avg_entry) == Some(gain) && gain@ == mid@
            - avg_entry@,
        position_size@ < 0 ==> difference(avg_entry, mid) == Some(gain) && gain@ == avg_entry@
            - mid@,
        product(gain, absolute(position_size)) == Some(profit),
        profit@ * pow10(28) == gain@ * absolute(position_size)@,
        absolute(position_size)@ >= 0,
        position_size@ != 0,
    ensures
        profit_reached(threshold, position_size, avg_entry, mid) == Some(
            threshold@ > 0 && avg_entry@ > 0 && gain@ * absolute(position_size)@ >= threshold@
                * pow10(28),
        ),
        position_size@ > 0 && mid@ <= avg_entry@ ==> profit_reached(
            threshold,
            position_size,
            avg_entry,
            mid,
        ) == Some(false),
        position_size@ < 0 && mid@ >= avg_entry@ ==> profit_reached(
            threshold,
            position_size,
            avg_entry,
            mid,
        ) == Some(false),
{
    lemma_pow10_positive(28);
    let (v, m, p, g, n) = (profit@, threshold@, pow10(28), gain@, absolute(position_size)@);
    assert((v >= m) == (v * p >= m * p)) by (nonlinear_arith)
        requires
            p >= 1,
    ;
    assert(g <= 0 ==> g * n <= 0) by (nonlinear_arith)
        requires
            n >= 0,
    ;
    assert(m > 0 ==> m * p > 0) by (nonlinear_arith)
        requires
            p >= 1,
    ;
}

/// The intervals between requotes and after rejections are counted in milliseconds.
pub proof fn law_intervals_are_milliseconds(last: Timestamp, now: Timestamp, interval_ms: u64)
    requires
        last.0 <= now.0,
        interval_ms * 1_000_000 <= u64::MAX,
    ensures
        interval_passed(Some(last), now, interval_ms) <==> now.0 - last.0 >= interval_ms
            * 1_000_000,
        interval_passed(None, now, interval_ms),
        cooling_off(Some(last), now, interval_ms) <==> now.0 - last.0 < interval_ms * 1_000_000,
        !cooling_off(None, now, interval_ms),
{
}

/// A size worth less than the minimum grows by one lot, any other stays.
pub proof fn law_small_sizes_are_bumped(
    notional: Decimal,
    price: Price,
    multiplier: Decimal,
    step: Decimal,
    min_notional: Decimal,
    size: Decimal,
    value: Decimal,
)
    requires
        step@ > 0,
        sized(notional, price, multiplier, step) == Some(size),
        product(size, price.0) == Some(value),
        exact_sum(size, step),
    ensures
        bumped_size(notional, price, multiplier, step, min_notional) matches Some(bumped)
            && bumped@ == if 0 < min_notional@ && value@ < min_notional@ {
            size@ + step@
        } else {
            size@
        },
{
}

} // verus!
