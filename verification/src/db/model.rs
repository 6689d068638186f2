//! The rows of a store and what each operation makes of them.

use crate::db::{valid_position, valid_rate, valid_title, PinRow, Rating};
use crate::double::{mean_of, Double};
use vstd::prelude::*;

verus! {

/// How many of `rates` are for the pin `point_id`.
pub open spec fn count_for(rates: Seq<Rating>, point_id: i32) -> nat
    decreases rates.len(),
{
    if rates.len() == 0 {
        0
    } else {
        count_for(rates.drop_last(), point_id) + if rates.last().point_id == point_id {
            1nat
        } else {
            0nat
        }
    }
}

/// The sum of those of `rates` that are for the pin `point_id`.
pub open spec fn total_for(rates: Seq<Rating>, point_id: i32) -> int
    decreases rates.len(),
{
    if rates.len() == 0 {
        0
    } else {
        total_for(rates.drop_last(), point_id) + if rates.last().point_id == point_id {
            rates.last().rate as int
        } else {
            0
        }
    }
}

/// Holds of every pin but the one with the id `id`.
pub open spec fn other_pin(id: i32) -> spec_fn(PinRow) -> bool {
    |p: PinRow| p.id != id
}

/// Holds of every rating but those for the pin `point_id`.
pub open spec fn rates_other_pin(point_id: i32) -> spec_fn(Rating) -> bool {
    |r: Rating| r.point_id != point_id
}

/// Holds of the ratings for the pin `point_id`.
pub open spec fn rates_pin(point_id: i32) -> spec_fn(Rating) -> bool {
    |r: Rating| r.point_id == point_id
}

/// What a store holds: the pins in the order of their ids, the ratings in the
/// order of theirs, and the last id given out in each table. An id is never
/// given twice, also not after its row is gone.
pub struct Store {
    pub pins: Seq<PinRow>,
    pub rates: Seq<Rating>,
    pub last_pin_id: int,
    pub last_rate_id: int,
}

impl Store {
    /// A store without rows that has given out no id.
    pub open spec fn empty() -> Store {
        Store { pins: Seq::empty(), rates: Seq::empty(), last_pin_id: 0, last_rate_id: 0 }
    }

    /// A pin with this id is stored.
    pub open spec fn has_pin(self, id: i32) -> bool {
        exists|i: int| 0 <= i < self.pins.len() && #[trigger] self.pins[i].id == id
    }

    /// The pin with this id, if one is stored.
    pub open spec fn find(self, id: i32) -> Option<PinRow> {
        if self.has_pin(id) {
            Some(self.pins[choose|i: int| 0 <= i < self.pins.len() && #[trigger] self.pins[i].id == id])
        } else {
            None
        }
    }

    /// The rules that every store keeps: ids are positive, ascending and not
    /// above the last one given out; every pin has a title and a position that
    /// fit the schema; every rating lies in one to five and is for a stored pin.
    pub open spec fn wf(self) -> bool {
        &&& 0 <= self.last_pin_id <= i32::MAX
        &&& 0 <= self.last_rate_id <= i32::MAX
        &&& forall|i: int|
            0 <= i < self.pins.len() ==> {
                &&& 1 <= (#[trigger] self.pins[i]).id <= self.last_pin_id
                &&& valid_title(self.pins[i].title)
                &&& valid_position(self.pins[i].x, self.pins[i].y)
            }
        &&& forall|i: int, j: int|
            0 <= i < j < self.pins.len() ==> (#[trigger] self.pins[i]).id < (
            #[trigger] self.pins[j]).id
        &&& forall|k: int|
            0 <= k < self.rates.len() ==> {
                &&& 1 <= (#[trigger] self.rates[k]).id <= self.last_rate_id
                &&& valid_rate(self.rates[k].rate)
                &&& self.has_pin(self.rates[k].point_id)
            }
        &&& forall|k: int, l: int|
            0 <= k < l < self.rates.len() ==> (#[trigger] self.rates[k]).id < (
            #[trigger] self.rates[l]).id
    }

    /// The store after a new pin went in: it has the next id and an average of zero.
    pub open spec fn with_pin(
        self,
        pin_type: Seq<char>,
        title: Seq<char>,
        description: Seq<char>,
        x: Double,
        y: Double,
    ) -> Store {
        Store {
            pins: self.pins.push(
                PinRow {
                    id: (self.last_pin_id + 1) as i32,
                    pin_type,
                    title,
                    description,
                    x,
                    y,
                    average_rate: Double { bits: 0 },
                },
            ),
            last_pin_id: self.last_pin_id + 1,
            ..self
        }
    }

    /// The store after a new rating went in, with the next id.
    pub open spec fn with_rating(self, point_id: i32, rate: i32) -> Store {
        Store {
            rates: self.rates.push(
                Rating { id: (self.last_rate_id + 1) as i32, point_id, rate },
            ),
            last_rate_id: self.last_rate_id + 1,
            ..self
        }
    }

    /// The mean of the ratings stored for a pin, where there is one.
    pub open spec fn mean_rate(self, point_id: i32) -> Double {
        mean_of(total_for(self.rates, point_id) as nat, count_for(self.rates, point_id))
    }

    /// The store after the average of a pin was computed anew: the mean of its
    /// ratings where it has any, and no change where it has none.
    pub open spec fn with_average(self, point_id: i32) -> Store {
        if count_for(self.rates, point_id) == 0 {
            self
        } else {
            Store { pins: self.pins.map_values(self.averaged(point_id)), ..self }
        }
    }

    /// The average of the pin `point_id` set to the mean of its ratings.
    pub open spec fn averaged(self, point_id: i32) -> spec_fn(PinRow) -> PinRow {
        |p: PinRow|
            if p.id == point_id {
                PinRow { average_rate: self.mean_rate(point_id), ..p }
            } else {
                p
            }
    }

    /// The store after a pin was deleted, and with it every rating for it.
    pub open spec fn without_pin(self, id: i32) -> Store {
        Store {
            pins: self.pins.filter(other_pin(id)),
            rates: self.rates.filter(rates_other_pin(id)),
            ..self
        }
    }

    /// The ratings stored for a pin, in the order of their ids.
    pub open spec fn ratings_of(self, point_id: i32) -> Seq<Rating> {
        self.rates.filter(rates_pin(point_id))
    }
}

/// Filtering one item more keeps what was kept and adds the item if it passes.
pub proof fn lemma_filter_step<A>(s: Seq<A>, pred: spec_fn(A) -> bool, i: int)
    requires
        0 <= i < s.len(),
    ensures
        s.take(i + 1).filter(pred) == if pred(s[i]) {
            s.take(i).filter(pred).push(s[i])
        } else {
            s.take(i).filter(pred)
        },
{
    reveal(Seq::filter);
    assert(s.take(i + 1).drop_last() =~= s.take(i));
}

/// A filter that every item passes keeps everything.
pub proof fn lemma_filter_all<A>(s: Seq<A>, pred: spec_fn(A) -> bool)
    requires
        forall|i: int| 0 <= i < s.len() ==> pred(#[trigger] s[i]),
    ensures
        s.filter(pred) == s,
    decreases s.len(),
{
    reveal(Seq::filter);
    if s.len() > 0 {
        lemma_filter_all(s.drop_last(), pred);
        assert(s.drop_last().push(s.last()) =~= s);
    }
}

/// What a filter keeps stands in the order in which it stood before.
pub proof fn lemma_filter_keeps_order<A>(s: Seq<A>, pred: spec_fn(A) -> bool, a: int, b: int)
    requires
        0 <= a < b < s.filter(pred).len(),
    ensures
        exists|i: int, j: int|
            0 <= i < j < s.len() && s[i] == s.filter(pred)[a] && s[j] == s.filter(pred)[b],
    decreases s.len(),
{
    reveal(Seq::filter);
    let kept = s.filter(pred);
    let rest = s.drop_last();
    if pred(s.last()) && b == kept.len() - 1 {
        assert(rest.filter(pred).contains(kept[a]));
        rest.lemma_filter_contains_rev(pred, kept[a]);
        let i = choose|i: int| 0 <= i < rest.len() && rest[i] == kept[a];
        assert(s[i] == kept[a] && s[s.len() - 1] == kept[b]);
    } else {
        lemma_filter_keeps_order(rest, pred, a, b);
        let (i, j) = choose|i: int, j: int|
            0 <= i < j < rest.len() && rest[i] == rest.filter(pred)[a] && rest[j] == rest.filter(
                pred,
            )[b];
        assert(s[i] == kept[a] && s[j] == kept[b]);
    }
}

/// A table whose ids ascend from one holds no more rows than the last id it
/// gave out.
pub proof fn lemma_rates_fit(s: Store)
    requires
        s.wf(),
    ensures
        s.rates.len() <= s.last_rate_id,
{
    lemma_rate_ids_from(s, s.rates.len() as int);
}

proof fn lemma_rate_ids_from(s: Store, n: int)
    requires
        s.wf(),
        0 <= n <= s.rates.len(),
    ensures
        n > 0 ==> s.rates[n - 1].id >= n,
    decreases n,
{
    if n > 1 {
        lemma_rate_ids_from(s, n - 1);
        assert(s.rates[n - 2].id < s.rates[n - 1].id);
    }
}

/// A store stays in order when a rating in one to five of a stored pin goes in.
pub proof fn lemma_with_rating_wf(s: Store, point_id: i32, rate: i32)
    requires
        s.wf(),
        s.last_rate_id < i32::MAX,
        valid_rate(rate),
        s.has_pin(point_id),
    ensures
        s.with_rating(point_id, rate).wf(),
{
    let t = s.with_rating(point_id, rate);
    assert forall|k: int| 0 <= k < t.rates.len() implies t.has_pin((#[trigger] t.rates[k]).point_id) by {
        let wanted = t.rates[k].point_id;
        if k < s.rates.len() {
            assert(s.rates[k] == t.rates[k]);
        }
        assert(s.has_pin(wanted));
        let i = choose|i: int| 0 <= i < s.pins.len() && #[trigger] s.pins[i].id == wanted;
        assert(t.pins[i].id == wanted);
    }
}

/// A store stays in order when an average is computed anew.
pub proof fn lemma_with_average_wf(s: Store, point_id: i32)
    requires
        s.wf(),
    ensures
        s.with_average(point_id).wf(),
{
    let t = s.with_average(point_id);
    if count_for(s.rates, point_id) > 0 {
        assert forall|i: int| 0 <= i < t.pins.len() implies (#[trigger] t.pins[i]).id == s.pins[i].id
            && t.pins[i].title == s.pins[i].title && t.pins[i].x == s.pins[i].x && t.pins[i].y
            == s.pins[i].y by {}
        assert forall|k: int| 0 <= k < t.rates.len() implies t.has_pin((#[trigger] t.rates[k]).point_id) by {
            assert(s.has_pin(s.rates[k].point_id));
            let i = choose|i: int| 0 <= i < s.pins.len() && #[trigger] s.pins[i].id == s.rates[k].point_id;
            assert(t.pins[i].id == t.rates[k].point_id);
        }
        assert forall|i: int, j: int| 0 <= i < j < t.pins.len() implies (#[trigger] t.pins[i]).id < (
        #[trigger] t.pins[j]).id by {
            assert(s.pins[i].id < s.pins[j].id);
        }
    }
}

/// A store stays in order when a pin and its ratings go.
pub proof fn lemma_without_pin_wf(s: Store, id: i32)
    requires
        s.wf(),
    ensures
        s.without_pin(id).wf(),
{
    let t = s.without_pin(id);
    assert forall|i: int| 0 <= i < t.pins.len() implies {
        &&& 1 <= (#[trigger] t.pins[i]).id <= t.last_pin_id
        &&& valid_title(t.pins[i].title)
        &&& valid_position(t.pins[i].x, t.pins[i].y)
    } by {
        assert(t.pins.contains(t.pins[i]));
        s.pins.lemma_filter_contains_rev(other_pin(id), t.pins[i]);
        let j = choose|j: int| 0 <= j < s.pins.len() && s.pins[j] == t.pins[i];
        assert(s.pins[j] == t.pins[i]);
    }
    assert forall|i: int, j: int| 0 <= i < j < t.pins.len() implies (#[trigger] t.pins[i]).id < (
    #[trigger] t.pins[j]).id by {
        lemma_filter_keeps_order(s.pins, other_pin(id), i, j);
        let (a, b) = choose|a: int, b: int|
            0 <= a < b < s.pins.len() && s.pins[a] == t.pins[i] && s.pins[b] == t.pins[j];
        assert(s.pins[a].id < s.pins[b].id);
    }
    assert forall|k: int| 0 <= k < t.rates.len() implies {
        &&& 1 <= (#[trigger] t.rates[k]).id <= t.last_rate_id
        &&& valid_rate(t.rates[k].rate)
        &&& t.has_pin(t.rates[k].point_id)
    } by {
        assert(t.rates.contains(t.rates[k]));
        s.rates.lemma_filter_contains_rev(rates_other_pin(id), t.rates[k]);
        let l = choose|l: int| 0 <= l < s.rates.len() && s.rates[l] == t.rates[k];
        assert(s.rates[l] == t.rates[k]);
        s.rates.lemma_filter_pred(rates_other_pin(id), k);
        assert(s.has_pin(s.rates[l].point_id));
        let a = choose|a: int| 0 <= a < s.pins.len() && #[trigger] s.pins[a].id == s.rates[l].point_id;
        s.pins.lemma_filter_contains(other_pin(id), a);
        let b = choose|b: int| 0 <= b < t.pins.len() && t.pins[b] == s.pins[a];
        assert(t.pins[b].id == t.rates[k].point_id);
    }
    assert forall|k: int, l: int| 0 <= k < l < t.rates.len() implies (#[trigger] t.rates[k]).id < (
    #[trigger] t.rates[l]).id by {
        lemma_filter_keeps_order(s.rates, rates_other_pin(id), k, l);
        let (a, b) = choose|a: int, b: int|
            0 <= a < b < s.rates.len() && s.rates[a] == t.rates[k] && s.rates[b] == t.rates[l];
        assert(s.rates[a].id < s.rates[b].id);
    }
}

/// A store stays in order when a pin that fits the schema goes in.
pub proof fn lemma_with_pin_wf(
    s: Store,
    pin_type: Seq<char>,
    title: Seq<char>,
    description: Seq<char>,
    x: Double,
    y: Double,
)
    requires
        s.wf(),
        s.last_pin_id < i32::MAX,
        valid_title(title),
        valid_position(x, y),
    ensures
        s.with_pin(pin_type, title, description, x, y).wf(),
{
    let t = s.with_pin(pin_type, title, description, x, y);
    assert forall|k: int| 0 <= k < t.rates.len() implies t.has_pin((#[trigger] t.rates[k]).point_id) by {
        assert(s.has_pin(s.rates[k].point_id));
        let i = choose|i: int| 0 <= i < s.pins.len() && #[trigger] s.pins[i].id == s.rates[k].point_id;
        assert(t.pins[i].id == t.rates[k].point_id);
    }
}

/// In a store that is in order, the pin found under an id is the one that
/// stands at any place where the id stands.
pub proof fn lemma_find_at(s: Store, i: int)
    requires
        s.wf(),
        0 <= i < s.pins.len(),
    ensures
        s.has_pin(s.pins[i].id),
        s.find(s.pins[i].id) == Some(s.pins[i]),
{
    let id = s.pins[i].id;
    assert(s.has_pin(id));
    let j = choose|j: int| 0 <= j < s.pins.len() && #[trigger] s.pins[j].id == id;
    if j < i {
        assert(s.pins[j].id < s.pins[i].id);
    } else if i < j {
        assert(s.pins[i].id < s.pins[j].id);
    }
}

} // verus!
