//! Pins, ratings, the rows a store holds, and the access contract.

pub mod memory;
pub mod model;
pub mod schema;
pub mod setup;

use crate::db::model::Store;
use crate::double::Double;
use crate::errors::Error;
use vstd::prelude::*;

verus! {

/// The longest title a pin may have, in characters.
pub const MAX_TITLE_CHARS: usize = 32;

/// The lowest rating.
pub const MIN_RATE: i32 = 1;

/// The highest rating.
pub const MAX_RATE: i32 = 5;

/// A point of interest.
#[derive(Clone, Debug, PartialEq, Eq)]
pub struct Pin {
    pub id: i32,
    pub pin_type: String,
    pub title: String,
    pub description: String,
    pub x: Double,
    pub y: Double,
    pub average_rate: Double,
}

/// A pin as a row of plain values.
pub struct PinRow {
    pub id: i32,
    pub pin_type: Seq<char>,
    pub title: Seq<char>,
    pub description: Seq<char>,
    pub x: Double,
    pub y: Double,
    pub average_rate: Double,
}

impl View for Pin {
    type V = PinRow;

    open spec fn view(&self) -> PinRow {
        PinRow {
            id: self.id,
            pin_type: self.pin_type@,
            title: self.title@,
            description: self.description@,
            x: self.x,
            y: self.y,
            average_rate: self.average_rate,
        }
    }
}

impl Pin {
    /// A copy of the pin.
    pub fn duplicate(&self) -> (r: Pin)
        ensures
            r == *self,
    {
        Pin {
            id: self.id,
            pin_type: self.pin_type.clone(),
            title: self.title.clone(),
            description: self.description.clone(),
            x: self.x,
            y: self.y,
            average_rate: self.average_rate,
        }
    }
}

/// One rating of one pin.
#[derive(Clone, Copy, Debug, PartialEq, Eq, Structural)]
pub struct Rating {
    pub id: i32,
    pub point_id: i32,
    pub rate: i32,
}

/// The rows of a sequence of pins.
pub open spec fn rows(pins: Seq<Pin>) -> Seq<PinRow> {
    pins.map_values(|p: Pin| p@)
}

/// A title fits the schema.
pub open spec fn valid_title(title: Seq<char>) -> bool {
    title.len() <= MAX_TITLE_CHARS
}

/// Longitude lies in `[-180, 180]` and latitude in `[-90, 90]`.
pub open spec fn valid_position(x: Double, y: Double) -> bool {
    x.magnitude_at_most(180) && y.magnitude_at_most(90)
}

/// A rating lies in one to five.
pub open spec fn valid_rate(rate: i32) -> bool {
    MIN_RATE <= rate <= MAX_RATE
}

/// The access contract: the six operations through which pins and ratings
/// are reached, whatever holds them.
///
/// A backend that can say what it holds gives its rows as `model`; the
/// clauses on rows bind such a backend, as one caller with the store to itself
/// sees it. It has its rows at hand, so the rows and the arguments alone decide
/// whether a call succeeds: it fails only where a rule of the store refuses, a
/// pin is not stored, or a table has given out its last id. One whose rows live
/// elsewhere leaves `model` at `None` and is bound by the clauses on arguments
/// and results alone: it may fail to reach its rows at any time, and no clause
/// promises that a call on it succeeds.
pub trait TouristDb {
    /// The rows that the backend holds, where it can say.
    open spec fn model(&self) -> Option<Store> {
        None
    }

    /// Stores a new pin with an average of zero. A pin that breaks a rule of
    /// the schema is refused as a validation failure, and nothing else is. A
    /// backend that gives its rows stores every other pin while the table has
    /// an id left, and fails as a storage failure once it has none.
    fn insert_pin(
        &mut self,
        pin_type: String,
        title: String,
        description: String,
        x: Double,
        y: Double,
    ) -> (r: Result<(), Error>)
        requires
            old(self).model() matches Some(s) ==> s.wf(),
        ensures
            final(self).model() matches Some(s) ==> s.wf(),
            !(valid_title(title@) && valid_position(x, y)) <==> (r matches Err(
                Error::Validation(_),
            )),
            final(self).model() is Some <==> old(self).model() is Some,
            old(self).model() matches Some(s) ==> {
                &&& (r is Ok <==> valid_title(title@) && valid_position(x, y) && s.last_pin_id
                    < i32::MAX)
                &&& (valid_title(title@) && valid_position(x, y) && s.last_pin_id >= i32::MAX
                    ==> (r matches Err(Error::StorageUnavailable(_))))
                &&& final(self).model() == Some(
                    if r is Ok {
                        s.with_pin(pin_type@, title@, description@, x, y)
                    } else {
                        s
                    },
                )
            },
    ;

    /// Every pin, in the order of the ids. A backend that gives its rows
    /// does not fail.
    fn get_all_pins(&self) -> (r: Result<Vec<Pin>, Error>)
        requires
            self.model() matches Some(s) ==> s.wf(),
        ensures
            self.model() matches Some(s) ==> (r matches Ok(pins) && rows(pins@) == s.pins),
    ;

    /// The pin with the given id. That no pin has it is a lookup failure, and
    /// nothing else is. A backend that gives its rows finds every pin it
    /// holds.
    fn get_pin_by_id(&self, id: i32) -> (r: Result<Pin, Error>)
        requires
            self.model() matches Some(s) ==> s.wf(),
        ensures
            r matches Ok(pin) ==> pin.id == id,
            self.model() matches Some(s) ==> {
                &&& (r is Ok <==> s.has_pin(id))
                &&& (r matches Ok(pin) ==> s.find(id) == Some(pin@))
                &&& (s.find(id) is None <==> (r matches Err(Error::NotFound(_))))
            },
    ;

    /// Stores a new rating. A rating outside one to five is refused as a
    /// validation failure, one for a pin that is not stored as a referential
    /// failure, and nothing else as either. A backend that gives its rows
    /// stores every other rating while the table has an id left, and fails as a
    /// storage failure once it has none.
    fn insert_rating(&mut self, point_id: i32, rate: i32) -> (r: Result<(), Error>)
        requires
            old(self).model() matches Some(s) ==> s.wf(),
        ensures
            final(self).model() matches Some(s) ==> s.wf(),
            !valid_rate(rate) <==> (r matches Err(Error::Validation(_))),
            final(self).model() is Some <==> old(self).model() is Some,
            old(self).model() matches Some(s) ==> {
                &&& (r is Ok <==> valid_rate(rate) && s.has_pin(point_id) && s.last_rate_id
                    < i32::MAX)
                &&& (valid_rate(rate) && !s.has_pin(point_id) <==> (r matches Err(
                    Error::Constraint(_),
                )))
                &&& (valid_rate(rate) && s.has_pin(point_id) && s.last_rate_id >= i32::MAX ==> (
                r matches Err(Error::StorageUnavailable(_))))
                &&& final(self).model() == Some(
                    if r is Ok {
                        s.with_rating(point_id, rate)
                    } else {
                        s
                    },
                )
            },
    ;

    /// Computes the average of a pin anew from its ratings. A backend that
    /// gives its rows does not fail, also where the pin has no rating or is
    /// not stored.
    fn update_average_rating(&mut self, point_id: i32) -> (r: Result<(), Error>)
        requires
            old(self).model() matches Some(s) ==> s.wf(),
        ensures
            final(self).model() matches Some(s) ==> s.wf(),
            final(self).model() is Some <==> old(self).model() is Some,
            old(self).model() matches Some(s) ==> {
                &&& r is Ok
                &&& final(self).model() == Some(s.with_average(point_id))
            },
    ;

    /// Deletes a pin and its ratings. That no pin has the id is no failure,
    /// and a backend that gives its rows does not fail at all.
    fn delete_pin(&mut self, id: i32) -> (r: Result<(), Error>)
        requires
            old(self).model() matches Some(s) ==> s.wf(),
        ensures
            final(self).model() matches Some(s) ==> s.wf(),
            final(self).model() is Some <==> old(self).model() is Some,
            old(self).model() matches Some(s) ==> {
                &&& r is Ok
                &&& final(self).model() == Some(s.without_pin(id))
            },
    ;
}

} // verus!
