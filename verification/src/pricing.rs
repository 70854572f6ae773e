//! The price calculator: a pure function from an order's line items, joined
//! with each room's nightly rate, to a total in minor currency units.
//!
//! A line item whose dates cannot be resolved, or whose end date is not after
//! its start date, contributes zero to the total; it never makes the whole
//! computation fail.

use vstd::prelude::*;
use crate::dates::day_number_of;
use crate::dates::parse_date_days;

verus! {

/// A line item joined with its room's nightly rate, the dates still in the
/// calendar-date text form in which the store holds them.
#[derive(Clone, Debug)]
pub struct PricedItem {
    pub start_date: String,
    pub end_date: String,
    pub price_in_cents: i64,
}

/// A line item whose dates have been resolved to day numbers; `None` marks a
/// date whose stored text was not a well-formed calendar date.
#[derive(Clone, Copy, PartialEq, Eq, Structural)]
pub struct PricedStay {
    pub start_day: Option<i32>,
    pub end_day: Option<i32>,
    pub price_in_cents: i64,
}

/// How many nights a stay covers: the difference of the day numbers, zero
/// where either date is unresolved or the end does not lie after the start.
pub open spec fn spec_nights(start_day: Option<i32>, end_day: Option<i32>) -> int {
    match (start_day, end_day) {
        (Some(s), Some(e)) => if e > s { e as int - s as int } else { 0 },
        _ => 0,
    }
}

/// One line item's contribution to the total: nights times the nightly rate.
pub open spec fn spec_item_price(item: PricedStay) -> int {
    spec_nights(item.start_day, item.end_day) * item.price_in_cents
}

/// The order total: the sum of every line item's contribution.
pub open spec fn spec_total_price(items: Seq<PricedStay>) -> int
    decreases items.len(),
{
    if items.len() == 0 {
        0
    } else {
        spec_total_price(items.drop_last()) + spec_item_price(items.last())
    }
}

/// A nightly rate is a price: never negative.
pub open spec fn stay_priced(item: PricedStay) -> bool {
    item.price_in_cents >= 0
}

pub open spec fn stays_priced(items: Seq<PricedStay>) -> bool {
    forall|i: int| 0 <= i < items.len() ==> stay_priced(items[i])
}

pub fn nights(start_day: &Option<i32>, end_day: &Option<i32>) -> (n: i64)
    ensures
        n == spec_nights(*start_day, *end_day),
        n >= 0,
{
    match (start_day, end_day) {
        (Some(s), Some(e)) => {
            let d: i64 = (*e as i64) - (*s as i64);
            if d > 0 {
                d
            } else {
                0
            }
        }
        _ => 0,
    }
}

/// A priced stay contributes a non-negative amount.
pub proof fn lemma_item_nonneg(item: PricedStay)
    requires
        stay_priced(item),
    ensures
        spec_item_price(item) >= 0,
{
    let n = spec_nights(item.start_day, item.end_day);
    assert(n >= 0);
    assert(n * item.price_in_cents >= 0) by (nonlinear_arith)
        requires
            n >= 0,
            item.price_in_cents >= 0,
    ;
}

/// Zero-night floor: a stay whose end date does not lie strictly after its
/// start date, or whose dates are unresolved, contributes exactly zero to the
/// total, never a negative amount.
pub proof fn lemma_zero_night_item(item: PricedStay)
    requires
        match (item.start_day, item.end_day) {
            (Some(s), Some(e)) => e <= s,
            _ => true,
        },
    ensures
        spec_item_price(item) == 0,
{
    assert(spec_nights(item.start_day, item.end_day) == 0);
}

/// Price correctness for a single stay of `e - s` nights at rate
/// `item.price_in_cents`: the total is nights times the rate.
pub proof fn lemma_single_item_price(item: PricedStay, s: i32, e: i32)
    requires
        item.start_day == Some(s),
        item.end_day == Some(e),
        e > s,
    ensures
        spec_total_price(seq![item]) == (e as int - s as int) * item.price_in_cents,
{
    assert(seq![item].drop_last() =~= Seq::<PricedStay>::empty());
    assert(seq![item].last() == item);
    assert(spec_total_price(Seq::<PricedStay>::empty()) == 0);
    assert(spec_nights(item.start_day, item.end_day) == e as int - s as int);
    assert(spec_total_price(seq![item]) == spec_item_price(item));
}

/// Additivity: the total of two runs of line items laid end to end is the sum
/// of the two totals.
pub proof fn lemma_total_additive(a: Seq<PricedStay>, b: Seq<PricedStay>)
    ensures
        spec_total_price(a + b) == spec_total_price(a) + spec_total_price(b),
    decreases b.len(),
{
    if b.len() == 0 {
        assert(a + b =~= a);
    } else {
        lemma_total_additive(a, b.drop_last());
        assert((a + b).drop_last() =~= a + b.drop_last());
        assert((a + b).last() == b.last());
    }
}

/// Price purity: the total depends on the line items alone; two runs with the
/// same items have the same total.
pub proof fn lemma_price_deterministic(a: Seq<PricedStay>, b: Seq<PricedStay>)
    requires
        a =~= b,
    ensures
        spec_total_price(a) == spec_total_price(b),
{
}

pub proof fn lemma_total_nonneg(items: Seq<PricedStay>)
    requires
        stays_priced(items),
    ensures
        spec_total_price(items) >= 0,
    decreases items.len(),
{
    if items.len() > 0 {
        assert(items.drop_last() =~= items.take(items.len() - 1));
        lemma_total_nonneg(items.drop_last());
        lemma_item_nonneg(items.last());
    }
}

pub proof fn lemma_total_take_succ(items: Seq<PricedStay>, i: int)
    requires
        0 <= i < items.len(),
    ensures
        spec_total_price(items.take(i + 1)) == spec_total_price(items.take(i))
            + spec_item_price(items[i]),
{
    assert(items.take(i + 1).drop_last() =~= items.take(i));
    assert(items.take(i + 1).last() == items[i]);
}

/// A prefix of priced stays never totals more than the whole run.
pub proof fn lemma_total_prefix_le(items: Seq<PricedStay>, i: int)
    requires
        stays_priced(items),
        0 <= i <= items.len(),
    ensures
        spec_total_price(items.take(i)) <= spec_total_price(items),
    decreases items.len() - i,
{
    if i == items.len() {
        assert(items.take(i) =~= items);
    } else {
        lemma_total_take_succ(items, i);
        lemma_item_nonneg(items[i]);
        lemma_total_prefix_le(items, i + 1);
    }
}

/// The contribution of one resolved line item, `None` where nights times rate
/// exceeds the largest representable amount.
pub fn item_price(item: &PricedStay) -> (r: Option<i64>)
    requires
        stay_priced(*item),
    ensures
        r matches Some(p) ==> p == spec_item_price(*item),
        r is Some <==> spec_item_price(*item) <= i64::MAX,
{
    let n: i64 = nights(&item.start_day, &item.end_day);
    proof {
        lemma_item_nonneg(*item);
    }
    n.checked_mul(item.price_in_cents)
}

/// The order total over resolved line items: the sum of nights times rate,
/// `None` exactly where that sum exceeds the largest representable amount.
/// The result is a function of the items alone: no effect, no other input.
pub fn total_price(items: &Vec<PricedStay>) -> (r: Option<i64>)
    requires
        stays_priced(items@),
    ensures
        r matches Some(t) ==> t == spec_total_price(items@),
        r is Some <==> spec_total_price(items@) <= i64::MAX,
{
    let mut acc: i64 = 0;
    let mut idx: usize = 0;
    while idx < items.len()
        invariant
            0 <= idx <= items@.len(),
            stays_priced(items@),
            acc == spec_total_price(items@.take(idx as int)),
            acc >= 0,
        decreases items@.len() - idx,
    {
        proof {
            lemma_total_take_succ(items@, idx as int);
        }
        let p: i64 = match item_price(&items[idx]) {
            Some(p) => p,
            None => {
                proof {
                    lemma_total_prefix_le(items@, idx as int + 1);
                }
                return None;
            },
        };
        acc = match acc.checked_add(p) {
            Some(a) => a,
            None => {
                proof {
                    lemma_item_nonneg(items@[idx as int]);
                    lemma_total_prefix_le(items@, idx as int + 1);
                }
                return None;
            },
        };
        idx = idx + 1;
    }
    proof {
        assert(items@.take(items@.len() as int) =~= items@);
    }
    Some(acc)
}

/// The day numbers that a stored line item's date texts denote.
pub open spec fn spec_resolve(item: PricedItem) -> PricedStay {
    PricedStay {
        start_day: day_number_of(item.start_date@),
        end_day: day_number_of(item.end_date@),
        price_in_cents: item.price_in_cents,
    }
}

pub open spec fn spec_resolved(items: Seq<PricedItem>) -> Seq<PricedStay> {
    items.map_values(|item: PricedItem| spec_resolve(item))
}

pub open spec fn items_priced(items: Seq<PricedItem>) -> bool {
    forall|i: int| 0 <= i < items.len() ==> items[i].price_in_cents >= 0
}

/// Resolving keeps every rate: priced stored items resolve to priced stays.
pub proof fn lemma_resolved_priced(items: Seq<PricedItem>)
    requires
        items_priced(items),
    ensures
        stays_priced(spec_resolved(items)),
{
    assert forall|i: int| 0 <= i < spec_resolved(items).len() implies stay_priced(
        #[trigger] spec_resolved(items)[i],
    ) by {
        assert(spec_resolved(items)[i] == spec_resolve(items[i]));
    }
}

/// Resolve one stored line item's dates to day numbers.
pub fn resolve_item(item: &PricedItem) -> (r: PricedStay)
    ensures
        r == spec_resolve(*item),
{
    PricedStay {
        start_day: parse_date_days(item.start_date.as_str()),
        end_day: parse_date_days(item.end_date.as_str()),
        price_in_cents: item.price_in_cents,
    }
}

/// The order total from stored line items: each item's dates are resolved,
/// an unresolvable or non-positive span contributes zero, and the total is
/// the sum of nights times nightly rate. `None` exactly where the total
/// exceeds the largest representable amount.
pub fn compute_price(items: &Vec<PricedItem>) -> (r: Option<i64>)
    requires
        items_priced(items@),
    ensures
        r matches Some(t) ==> t == spec_total_price(spec_resolved(items@)),
        r is Some <==> spec_total_price(spec_resolved(items@)) <= i64::MAX,
{
    let mut stays: Vec<PricedStay> = Vec::new();
    let mut idx: usize = 0;
    while idx < items.len()
        invariant
            0 <= idx <= items@.len(),
            items_priced(items@),
            stays@ =~= spec_resolved(items@.take(idx as int)),
        decreases items@.len() - idx,
    {
        stays.push(resolve_item(&items[idx]));
        idx = idx + 1;
        proof {
            assert(stays@ =~= spec_resolved(items@.take(idx as int)));
        }
    }
    proof {
        assert(items@.take(items@.len() as int) =~= items@);
        assert(stays@ =~= spec_resolved(items@));
    }
    total_price(&stays)
}

} // verus!
