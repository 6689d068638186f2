//! What holds of every store, over the rows that the operations are stated in.

use crate::db::model::{
    count_for, lemma_filter_all, lemma_find_at, lemma_with_average_wf, lemma_with_pin_wf,
    lemma_with_rating_wf, lemma_without_pin_wf, other_pin, rates_other_pin, rates_pin, total_for,
    Store,
};
use crate::db::{valid_position, valid_rate, valid_title, PinRow, Rating};
use crate::double::{lemma_mean_is_nearest, mean_of, Double};
use vstd::arithmetic::power2::*;
use vstd::prelude::*;

verus! {

/// The sum of a sequence of ratings.
pub open spec fn sum_of(given: Seq<i32>) -> int
    decreases given.len(),
{
    if given.len() == 0 {
        0
    } else {
        sum_of(given.drop_last()) + given.last()
    }
}

/// The store after each of `given` went in as a rating of one pin, the
/// pin's average computed anew after each.
pub open spec fn rated(s: Store, point_id: i32, given: Seq<i32>) -> Store
    decreases given.len(),
{
    if given.len() == 0 {
        s
    } else {
        rated(s, point_id, given.drop_last()).with_rating(point_id, given.last()).with_average(
            point_id,
        )
    }
}

/// One more rating counts once, and only for its own pin.
pub proof fn lemma_count_push(rates: Seq<Rating>, r: Rating, point_id: i32)
    ensures
        count_for(rates.push(r), point_id) == count_for(rates, point_id) + if r.point_id
            == point_id {
            1nat
        } else {
            0nat
        },
        total_for(rates.push(r), point_id) == total_for(rates, point_id) + if r.point_id
            == point_id {
            r.rate as int
        } else {
            0
        },
{
    assert(rates.push(r).drop_last() =~= rates);
}

/// The ratings of a pin add up to between once and five times their number.
pub proof fn lemma_total_bounds(s: Store, point_id: i32, n: int)
    requires
        s.wf(),
        0 <= n <= s.rates.len(),
    ensures
        count_for(s.rates.take(n), point_id) <= total_for(s.rates.take(n), point_id) <= 5
            * count_for(s.rates.take(n), point_id),
        count_for(s.rates.take(n), point_id) <= n,
    decreases n,
{
    if n > 0 {
        lemma_total_bounds(s, point_id, n - 1);
        assert(s.rates.take(n).drop_last() =~= s.rates.take(n - 1));
        assert(valid_rate(s.rates[n - 1].rate));
    }
}

/// Rated once or more and averaged after each rating, a pin has as its
/// average the mean of all its ratings, rounded to the nearest double: the
/// ratings it had before and those that went in. The store stays in order, and
/// the mean lies within half a unit in the last place of the exact quotient.
pub proof fn law_average_is_mean(s: Store, point_id: i32, given: Seq<i32>)
    requires
        s.wf(),
        s.has_pin(point_id),
        given.len() > 0,
        forall|i: int| 0 <= i < given.len() ==> valid_rate(#[trigger] given[i]),
        s.last_rate_id + given.len() <= i32::MAX,
    ensures
        ({
            let t = rated(s, point_id, given);
            let total = (total_for(s.rates, point_id) + sum_of(given)) as nat;
            let count = count_for(s.rates, point_id) + given.len();
            let d = mean_of(total, count);
            let step = pow2((d.scale() + 52) as nat);
            &&& t.wf()
            &&& 0 < count <= total <= 5 * count
            &&& t.find(point_id) matches Some(p) && p.average_rate == d
            &&& 2 * (d.significand() * step * count - total * pow2(52)) <= step * count
            &&& 2 * (total * pow2(52) - d.significand() * step * count) <= step * count
        }),
{
    lemma_rated(s, point_id, given);
    let t = rated(s, point_id, given);
    lemma_total_bounds(t, point_id, t.rates.len() as int);
    assert(t.rates.take(t.rates.len() as int) =~= t.rates);
    let total = (total_for(s.rates, point_id) + sum_of(given)) as nat;
    let count = count_for(s.rates, point_id) + given.len();
    lemma_mean_is_nearest(total, count);
}

/// What `rated` leaves: a store in order with the same pins under the same
/// ids, the new ratings counted, and the pin's average at their mean.
proof fn lemma_rated(s: Store, point_id: i32, given: Seq<i32>)
    requires
        s.wf(),
        s.has_pin(point_id),
        forall|i: int| 0 <= i < given.len() ==> valid_rate(#[trigger] given[i]),
        s.last_rate_id + given.len() <= i32::MAX,
    ensures
        ({
            let t = rated(s, point_id, given);
            &&& t.wf()
            &&& t.has_pin(point_id)
            &&& t.last_rate_id == s.last_rate_id + given.len()
            &&& count_for(t.rates, point_id) == count_for(s.rates, point_id) + given.len()
            &&& total_for(t.rates, point_id) == total_for(s.rates, point_id) + sum_of(given)
            &&& given.len() > 0 ==> (t.find(point_id) matches Some(p) && p.average_rate
                == t.mean_rate(point_id))
        }),
    decreases given.len(),
{
    if given.len() > 0 {
        let head = given.drop_last();
        lemma_rated(s, point_id, head);
        let a = rated(s, point_id, head);
        let b = a.with_rating(point_id, given.last());
        lemma_with_rating_wf(a, point_id, given.last());
        lemma_count_push(
            a.rates,
            Rating { id: (a.last_rate_id + 1) as i32, point_id, rate: given.last() },
            point_id,
        );
        lemma_with_average_wf(b, point_id);
        lemma_average_found(b, point_id);
    }
}

/// After its average was computed anew, a stored pin with a rating has the
/// mean of its ratings as its average; its other fields are as before.
pub proof fn lemma_average_found(s: Store, point_id: i32)
    requires
        s.wf(),
        s.has_pin(point_id),
        count_for(s.rates, point_id) > 0,
    ensures
        s.with_average(point_id).wf(),
        s.with_average(point_id).has_pin(point_id),
        s.with_average(point_id).find(point_id) == Some(
            PinRow { average_rate: s.mean_rate(point_id), ..s.find(point_id).unwrap() },
        ),
{
    let t = s.with_average(point_id);
    lemma_with_average_wf(s, point_id);
    let i = choose|i: int| 0 <= i < s.pins.len() && #[trigger] s.pins[i].id == point_id;
    lemma_find_at(s, i);
    assert(t.pins[i].id == point_id);
    lemma_find_at(t, i);
}

/// An average is written by its update alone: storing a rating changes no
/// pin, and the update changes no rating, no other pin, and of its own pin
/// nothing but the average.
pub proof fn law_average_has_one_writer(s: Store, point_id: i32, rate: i32, other: i32)
    requires
        s.wf(),
        other != point_id,
    ensures
        s.with_rating(point_id, rate).pins == s.pins,
        s.with_average(point_id).rates == s.rates,
        s.with_average(point_id).find(other) == s.find(other),
        s.with_average(point_id).has_pin(point_id) == s.has_pin(point_id),
        s.with_average(point_id).find(point_id) matches Some(p) ==> s.find(point_id) == Some(
            PinRow { average_rate: s.find(point_id).unwrap().average_rate, ..p },
        ),
{
    let t = s.with_average(point_id);
    lemma_with_average_wf(s, point_id);
    if count_for(s.rates, point_id) > 0 {
        assert forall|i: int| 0 <= i < s.pins.len() implies (#[trigger] t.pins[i]).id
            == s.pins[i].id by {}
        lemma_same_ids_found(s, t, other);
        lemma_same_ids_found(s, t, point_id);
        if s.has_pin(point_id) {
            lemma_average_found(s, point_id);
        }
    }
}

/// Two stores in order with the same ids at the same places find a pin at the
/// same place, or both do not find it.
proof fn lemma_same_ids_found(s: Store, t: Store, id: i32)
    requires
        s.wf(),
        t.wf(),
        s.pins.len() == t.pins.len(),
        forall|i: int| 0 <= i < s.pins.len() ==> (#[trigger] t.pins[i]).id == s.pins[i].id,
    ensures
        s.has_pin(id) == t.has_pin(id),
        s.has_pin(id) ==> exists|i: int|
            0 <= i < s.pins.len() && s.find(id) == Some(#[trigger] s.pins[i]) && t.find(id) == Some(
                t.pins[i],
            ),
{
    if s.has_pin(id) {
        let i = choose|i: int| 0 <= i < s.pins.len() && #[trigger] s.pins[i].id == id;
        assert(t.pins[i].id == id);
        lemma_find_at(s, i);
        lemma_find_at(t, i);
    } else if t.has_pin(id) {
        let i = choose|i: int| 0 <= i < t.pins.len() && #[trigger] t.pins[i].id == id;
        assert(s.pins[i].id == id);
    }
}

/// Once a pin is deleted it is not found, and no rating for it is left.
pub proof fn law_delete_cascades(s: Store, id: i32)
    requires
        s.wf(),
    ensures
        s.without_pin(id).wf(),
        !s.without_pin(id).has_pin(id),
        s.without_pin(id).find(id) is None,
        s.without_pin(id).ratings_of(id) == Seq::<Rating>::empty(),
        forall|k: int|
            0 <= k < s.without_pin(id).rates.len() ==> (#[trigger] s.without_pin(id).rates[k]).point_id
                != id,
{
    let t = s.without_pin(id);
    lemma_without_pin_wf(s, id);
    assert forall|i: int| 0 <= i < t.pins.len() implies (#[trigger] t.pins[i]).id != id by {
        s.pins.lemma_filter_pred(other_pin(id), i);
    }
    assert forall|k: int| 0 <= k < t.rates.len() implies (#[trigger] t.rates[k]).point_id != id by {
        s.rates.lemma_filter_pred(rates_other_pin(id), k);
    }
    t.rates.lemma_all_neg_filter_empty(rates_pin(id));
}

/// Deleting a pin leaves every other pin as it was.
pub proof fn law_delete_keeps_others(s: Store, id: i32, other: i32)
    requires
        s.wf(),
        other != id,
    ensures
        s.without_pin(id).find(other) == s.find(other),
{
    let t = s.without_pin(id);
    lemma_without_pin_wf(s, id);
    if s.has_pin(other) {
        let i = choose|i: int| 0 <= i < s.pins.len() && #[trigger] s.pins[i].id == other;
        lemma_find_at(s, i);
        s.pins.lemma_filter_contains(other_pin(id), i);
        let j = choose|j: int| 0 <= j < t.pins.len() && t.pins[j] == s.pins[i];
        assert(t.pins[j].id == other);
        lemma_find_at(t, j);
    } else {
        if t.has_pin(other) {
            let j = choose|j: int| 0 <= j < t.pins.len() && #[trigger] t.pins[j].id == other;
            assert(t.pins.contains(t.pins[j]));
            s.pins.lemma_filter_contains_rev(other_pin(id), t.pins[j]);
            let i = choose|i: int| 0 <= i < s.pins.len() && s.pins[i] == t.pins[j];
            assert(s.pins[i].id == other);
        }
    }
}

/// Deleting a pin that is not stored changes nothing.
pub proof fn law_delete_is_idempotent(s: Store, id: i32)
    requires
        s.wf(),
        !s.has_pin(id),
    ensures
        s.without_pin(id) == s,
{
    assert forall|k: int| 0 <= k < s.rates.len() implies (rates_other_pin(id))(
        #[trigger] s.rates[k],
    ) by {
        assert(s.has_pin(s.rates[k].point_id));
    }
    lemma_filter_all(s.pins, other_pin(id));
    lemma_filter_all(s.rates, rates_other_pin(id));
}

/// Deleting twice is deleting once.
pub proof fn law_delete_twice(s: Store, id: i32)
    requires
        s.wf(),
    ensures
        s.without_pin(id).without_pin(id) == s.without_pin(id),
{
    law_delete_cascades(s, id);
    law_delete_is_idempotent(s.without_pin(id), id);
}

/// No pin is stored under an id that was never given out.
pub proof fn law_unknown_id_not_found(s: Store, id: i32)
    requires
        s.wf(),
        id <= 0 || id > s.last_pin_id,
    ensures
        !s.has_pin(id),
        s.find(id) is None,
{
}

/// A pin that went in is found under the next id, with the fields it was
/// given and an average of zero; every pin stored before is found as before.
pub proof fn law_inserted_pin_is_found(
    s: Store,
    pin_type: Seq<char>,
    title: Seq<char>,
    description: Seq<char>,
    x: Double,
    y: Double,
    other: i32,
)
    requires
        s.wf(),
        s.last_pin_id < i32::MAX,
        valid_title(title),
        valid_position(x, y),
        other != s.last_pin_id + 1,
    ensures
        ({
            let t = s.with_pin(pin_type, title, description, x, y);
            &&& t.wf()
            &&& t.find((s.last_pin_id + 1) as i32) == Some(
                PinRow {
                    id: (s.last_pin_id + 1) as i32,
                    pin_type,
                    title,
                    description,
                    x,
                    y,
                    average_rate: Double { bits: 0 },
                },
            )
            &&& t.find(other) == s.find(other)
        }),
{
    let t = s.with_pin(pin_type, title, description, x, y);
    lemma_with_pin_wf(s, pin_type, title, description, x, y);
    lemma_find_at(t, s.pins.len() as int);
    if s.has_pin(other) {
        let i = choose|i: int| 0 <= i < s.pins.len() && #[trigger] s.pins[i].id == other;
        lemma_find_at(s, i);
        assert(t.pins[i] == s.pins[i]);
        lemma_find_at(t, i);
    } else {
        if t.has_pin(other) {
            let j = choose|j: int| 0 <= j < t.pins.len() && #[trigger] t.pins[j].id == other;
            assert(s.pins[j].id == other);
        }
    }
}

} // verus!
