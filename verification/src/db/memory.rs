//! A store that keeps its rows in memory.

use crate::db::schema::{check_pin, check_rate};
use crate::db::model::{
    count_for, lemma_filter_step, lemma_find_at, lemma_rates_fit, lemma_with_average_wf,
    lemma_with_pin_wf, lemma_with_rating_wf, lemma_without_pin_wf, other_pin, rates_other_pin,
    rates_pin, total_for, Store,
};
use crate::db::{rows, valid_position, valid_rate, valid_title, Pin, Rating, TouristDb};
use crate::double::mean;
use crate::double::Double;
use crate::errors::Error;
use vstd::prelude::*;

verus! {

/// Said when a table has given out its last id.
pub const NO_ID_LEFT: &'static str = "the table has no id left";

/// Said when no pin has the id asked for.
pub const NO_SUCH_PIN: &'static str = "no pin has this id";

/// Said of a rating for a pin that is not stored.
pub const RATED_PIN_MISSING: &'static str = "the rated pin does not exist";

/// A store in memory. It holds its rows in the order of their ids and keeps
/// the rules of the schema itself.
pub struct MemoryDb {
    pins: Vec<Pin>,
    rates: Vec<Rating>,
    last_pin_id: i32,
    last_rate_id: i32,
}

impl MemoryDb {
    /// The rows held.
    pub closed spec fn store(&self) -> Store {
        Store {
            pins: rows(self.pins@),
            rates: self.rates@,
            last_pin_id: self.last_pin_id as int,
            last_rate_id: self.last_rate_id as int,
        }
    }

    /// An empty store.
    pub fn new() -> (r: MemoryDb)
        ensures
            r.store() == Store::empty(),
            r.store().wf(),
    {
        let r = MemoryDb { pins: Vec::new(), rates: Vec::new(), last_pin_id: 0, last_rate_id: 0 };
        assert(r.store().pins =~= Seq::empty());
        r
    }

    /// The ratings stored for a pin, in the order of their ids.
    pub fn ratings_of(&self, point_id: i32) -> (r: Vec<Rating>)
        ensures
            r@ == self.store().ratings_of(point_id),
    {
        let mut out: Vec<Rating> = Vec::new();
        let mut k: usize = 0;
        while k < self.rates.len()
            invariant
                0 <= k <= self.rates.len(),
                out@ == self.rates@.take(k as int).filter(rates_pin(point_id)),
            decreases self.rates.len() - k,
        {
            proof {
                lemma_filter_step(self.rates@, rates_pin(point_id), k as int);
            }
            if self.rates[k].point_id == point_id {
                out.push(self.rates[k]);
            }
            k = k + 1;
        }
        assert(self.rates@.take(k as int) =~= self.rates@);
        out
    }

    /// Where the pin with the id stands, if it is stored.
    fn position(&self, id: i32) -> (r: Option<usize>)
        requires
            self.store().wf(),
        ensures
            r is Some <==> self.store().has_pin(id),
            r matches Some(i) ==> i < self.pins.len() && self.pins@[i as int].id == id
                && self.store().find(id) == Some(self.pins@[i as int]@),
            r is None ==> self.store().find(id) is None,
    {
        let mut i: usize = 0;
        while i < self.pins.len()
            invariant
                self.store().wf(),
                0 <= i <= self.pins.len(),
                forall|j: int| 0 <= j < i ==> self.pins@[j].id != id,
            decreases self.pins.len() - i,
        {
            if self.pins[i].id == id {
                proof {
                    let s = self.store();
                    assert(s.pins[i as int].id == id);
                    lemma_find_at(s, i as int);
                }
                return Some(i);
            }
            i = i + 1;
        }
        proof {
            let s = self.store();
            assert forall|j: int| 0 <= j < s.pins.len() implies (#[trigger] s.pins[j]).id != id by {
                assert(s.pins[j] == self.pins@[j]@);
            }
        }
        None
    }
}

impl TouristDb for MemoryDb {
    open spec fn model(&self) -> Option<Store> {
        Some(self.store())
    }

    /// Succeeds for every pin that fits the schema while the table has an id
    /// left. Each failure says which rule was broken, or that no id is left.
    fn insert_pin(
        &mut self,
        pin_type: String,
        title: String,
        description: String,
        x: Double,
        y: Double,
    ) -> (r: Result<(), Error>)
        ensures
            r is Ok <==> valid_title(title@) && valid_position(x, y) && old(self).store().last_pin_id
                < i32::MAX,
            r matches Err(Error::Validation(m)) ==> Some(m@) == crate::db::schema::pin_fault(
                title@,
                x,
                y,
            ),
            valid_title(title@) && valid_position(x, y) && r is Err ==> (r matches Err(
                Error::StorageUnavailable(m),
            ) && m@ == NO_ID_LEFT@),
    {
        match check_pin(title.as_str(), x, y) {
            Err(e) => {
                return Err(e);
            },
            Ok(()) => {},
        }
        if self.last_pin_id == i32::MAX {
            return Err(Error::storage_unavailable(NO_ID_LEFT));
        }
        let id: i32 = self.last_pin_id + 1;
        let pin = Pin { id, pin_type, title, description, x, y, average_rate: Double::zero() };
        proof {
            let before = old(self).store();
            let after = before.with_pin(pin_type@, title@, description@, x, y);
            assert(rows(self.pins@.push(pin)) =~= rows(self.pins@).push(pin@));
            lemma_with_pin_wf(before, pin_type@, title@, description@, x, y);
        }
        self.pins.push(pin);
        self.last_pin_id = id;
        Ok(())
    }

    fn get_all_pins(&self) -> (r: Result<Vec<Pin>, Error>) {
        let mut out: Vec<Pin> = Vec::new();
        let mut i: usize = 0;
        while i < self.pins.len()
            invariant
                0 <= i <= self.pins.len(),
                out@ == self.pins@.take(i as int),
            decreases self.pins.len() - i,
        {
            let pin = self.pins[i].duplicate();
            out.push(pin);
            assert(self.pins@.take(i + 1) =~= self.pins@.take(i as int).push(self.pins@[i as int]));
            i = i + 1;
        }
        assert(self.pins@.take(i as int) =~= self.pins@);
        Ok(out)
    }

    /// Succeeds exactly when a pin has the id; the failure says that none has.
    fn get_pin_by_id(&self, id: i32) -> (r: Result<Pin, Error>)
        ensures
            r is Ok <==> self.store().has_pin(id),
            r matches Err(e) ==> (e matches Error::NotFound(m) && m@ == NO_SUCH_PIN@),
    {
        match self.position(id) {
            Some(i) => Ok(self.pins[i].duplicate()),
            None => Err(Error::not_found(NO_SUCH_PIN)),
        }
    }

    /// Succeeds for every rating in one to five of a stored pin while the
    /// table has an id left. Each failure says which rule was broken, that the
    /// pin is missing, or that no id is left.
    fn insert_rating(&mut self, point_id: i32, rate: i32) -> (r: Result<(), Error>)
        ensures
            r is Ok <==> valid_rate(rate) && old(self).store().has_pin(point_id) && old(
                self,
            ).store().last_rate_id < i32::MAX,
            r matches Err(Error::Validation(m)) ==> m@ == crate::db::schema::RATE_OUT_OF_RANGE@,
            r matches Err(Error::Constraint(m)) ==> m@ == RATED_PIN_MISSING@,
            valid_rate(rate) && old(self).store().has_pin(point_id) && r is Err ==> (r matches Err(
                Error::StorageUnavailable(m),
            ) && m@ == NO_ID_LEFT@),
    {
        match check_rate(rate) {
            Err(e) => {
                return Err(e);
            },
            Ok(()) => {},
        }
        if self.position(point_id).is_none() {
            return Err(Error::constraint(RATED_PIN_MISSING));
        }
        if self.last_rate_id == i32::MAX {
            return Err(Error::storage_unavailable(NO_ID_LEFT));
        }
        let id: i32 = self.last_rate_id + 1;
        proof {
            lemma_with_rating_wf(old(self).store(), point_id, rate);
        }
        self.rates.push(Rating { id, point_id, rate });
        self.last_rate_id = id;
        Ok(())
    }

    fn update_average_rating(&mut self, point_id: i32) -> (r: Result<(), Error>) {
        let ghost before = self.store();
        let mut total: u64 = 0;
        let mut count: u64 = 0;
        let mut k: usize = 0;
        proof {
            lemma_rates_fit(before);
        }
        while k < self.rates.len()
            invariant
                self.store() == before,
                before.wf(),
                before.rates.len() <= i32::MAX,
                0 <= k <= self.rates.len(),
                count == count_for(self.rates@.take(k as int), point_id),
                total == total_for(self.rates@.take(k as int), point_id),
                count <= k,
                count <= total <= 5 * count,
            decreases self.rates.len() - k,
        {
            let rating = self.rates[k];
            proof {
                assert(self.rates@.take(k + 1).drop_last() =~= self.rates@.take(k as int));
                assert(before.rates[k as int] == rating);
                assert(valid_rate(rating.rate));
            }
            if rating.point_id == point_id {
                total = total + rating.rate as u64;
                count = count + 1;
            }
            k = k + 1;
        }
        assert(self.rates@.take(k as int) =~= self.rates@);
        if count == 0 {
            return Ok(());
        }
        let average = mean(total, count);
        let mut i: usize = 0;
        while i < self.pins.len()
            invariant
                self.store().rates == before.rates,
                self.store().last_pin_id == before.last_pin_id,
                self.store().last_rate_id == before.last_rate_id,
                self.pins.len() == before.pins.len(),
                0 <= i <= self.pins.len(),
                average == before.mean_rate(point_id),
                forall|j: int| 0 <= j < i ==> self.pins@[j]@ == (before.averaged(point_id))(before.pins[j]),
                forall|j: int| i <= j < self.pins.len() ==> self.pins@[j]@ == before.pins[j],
            decreases self.pins.len() - i,
        {
            if self.pins[i].id == point_id {
                let mut pin = self.pins[i].duplicate();
                pin.average_rate = average;
                self.pins.set(i, pin);
            }
            i = i + 1;
        }
        proof {
            assert(self.store().pins =~= before.pins.map_values(before.averaged(point_id)));
            lemma_with_average_wf(before, point_id);
        }
        Ok(())
    }

    fn delete_pin(&mut self, id: i32) -> (r: Result<(), Error>) {
        let ghost before = self.store();
        let mut pins: Vec<Pin> = Vec::new();
        let mut i: usize = 0;
        while i < self.pins.len()
            invariant
                self.store() == before,
                0 <= i <= self.pins.len(),
                rows(pins@) == before.pins.take(i as int).filter(other_pin(id)),
            decreases self.pins.len() - i,
        {
            proof {
                lemma_filter_step(before.pins, other_pin(id), i as int);
            }
            if self.pins[i].id != id {
                let pin = self.pins[i].duplicate();
                assert(rows(pins@.push(pin)) =~= rows(pins@).push(pin@));
                pins.push(pin);
            }
            i = i + 1;
        }
        let mut rates: Vec<Rating> = Vec::new();
        let mut k: usize = 0;
        while k < self.rates.len()
            invariant
                self.store() == before,
                0 <= k <= self.rates.len(),
                rates@ == before.rates.take(k as int).filter(rates_other_pin(id)),
            decreases self.rates.len() - k,
        {
            proof {
                lemma_filter_step(before.rates, rates_other_pin(id), k as int);
            }
            if self.rates[k].point_id != id {
                rates.push(self.rates[k]);
            }
            k = k + 1;
        }
        proof {
            assert(before.pins.take(i as int) =~= before.pins);
            assert(before.rates.take(k as int) =~= before.rates);
            lemma_without_pin_wf(before, id);
        }
        self.pins = pins;
        self.rates = rates;
        Ok(())
    }
}

} // verus!
