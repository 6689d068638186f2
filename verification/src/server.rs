//! What the request layer does with the store: the bodies it takes, the
//! replies it gives, and the handlers between them.

use crate::db::{rows, valid_position, valid_rate, valid_title, Pin, PinRow, TouristDb};
use crate::double::Double;
use crate::errors::Error;
use vstd::prelude::*;
use vstd::string::*;

verus! {

/// The status of a reply to a request that a rule of the schema refused.
pub const BAD_REQUEST: u16 = 400;

/// The status of a reply when nothing has the id asked for.
pub const NOT_FOUND: u16 = 404;

/// The status of a reply when a row refers to one that does not exist.
pub const CONFLICT: u16 = 409;

/// The status of a reply when the store failed.
pub const INTERNAL_SERVER_ERROR: u16 = 500;

/// The status of a reply to a deletion.
pub const NO_CONTENT: u16 = 204;

/// Said when a pin was stored.
pub const PIN_ADDED: &'static str = "Pin added successfully.";

/// Said when a rating was stored and the average computed anew.
pub const RATING_ADDED: &'static str = "Rating added successfully.";

/// The body of a request to add a pin.
#[derive(Clone, Debug, PartialEq, Eq)]
pub struct AddPinRequest {
    pub pin_type: String,
    pub title: String,
    pub description: String,
    pub x: Double,
    pub y: Double,
}

/// The body of a request to rate a pin.
#[derive(Clone, Copy, Debug, PartialEq, Eq, Structural)]
pub struct AddRatingRequest {
    pub point_id: i32,
    pub rate: i32,
}

/// A pin as it is sent back.
#[derive(Clone, Debug, PartialEq, Eq)]
pub struct PinResponse {
    pub id: i32,
    pub pin_type: String,
    pub title: String,
    pub description: String,
    pub x: Double,
    pub y: Double,
    pub average_rate: Double,
}

impl View for PinResponse {
    type V = PinRow;

    open spec fn view(&self) -> PinRow {
        PinRow {
            id: self.id,
            pin_type: self.pin_type@,
            title: self.title@,
            description: self.description@,
            x: self.x,
            y: self.y,
            average_rate: self.average_rate,
        }
    }
}

impl PinResponse {
    /// The reply that shows a pin: every field as the pin has it.
    pub fn of(pin: &Pin) -> (r: PinResponse)
        ensures
            r@ == pin@,
    {
        PinResponse {
            id: pin.id,
            pin_type: pin.pin_type.clone(),
            title: pin.title.clone(),
            description: pin.description.clone(),
            x: pin.x,
            y: pin.y,
            average_rate: pin.average_rate,
        }
    }
}

/// The rows of a sequence of replies.
pub open spec fn shown(pins: Seq<PinResponse>) -> Seq<PinRow> {
    pins.map_values(|p: PinResponse| p@)
}

/// A reply that refuses a request: a status and the failure's message.
#[derive(Clone, Debug, PartialEq, Eq)]
pub struct Refusal {
    pub status: u16,
    pub message: String,
}

/// The status that goes with a failure.
pub open spec fn status_of(e: Error) -> u16 {
    match e {
        Error::Validation(_) => BAD_REQUEST,
        Error::NotFound(_) => NOT_FOUND,
        Error::Constraint(_) => CONFLICT,
        Error::StorageUnavailable(_) => INTERNAL_SERVER_ERROR,
        Error::Serialization(_) => INTERNAL_SERVER_ERROR,
    }
}

/// The reply to a request that failed.
pub fn refuse(e: &Error) -> (r: Refusal)
    ensures
        r.status == status_of(*e),
        r.message@ == e.text(),
{
    let status: u16 = match e {
        Error::Validation(_) => BAD_REQUEST,
        Error::NotFound(_) => NOT_FOUND,
        Error::Constraint(_) => CONFLICT,
        Error::StorageUnavailable(_) => INTERNAL_SERVER_ERROR,
        Error::Serialization(_) => INTERNAL_SERVER_ERROR,
    };
    Refusal { status, message: e.message() }
}

/// The reply to a request to add a pin, from what the store said.
pub fn pin_added(outcome: Result<(), Error>) -> (r: Result<String, Refusal>)
    ensures
        outcome is Ok ==> (r matches Ok(m) && m@ == PIN_ADDED@),
        outcome matches Err(e) ==> (r matches Err(x) && x.status == status_of(e) && x.message@
            == e.text()),
{
    match outcome {
        Ok(()) => Ok(String::from_str(PIN_ADDED)),
        Err(e) => Err(refuse(&e)),
    }
}

/// The reply to a request for every pin, from what the store said.
pub fn pins_listed(outcome: Result<Vec<Pin>, Error>) -> (r: Result<Vec<PinResponse>, Refusal>)
    ensures
        outcome matches Ok(pins) ==> (r matches Ok(out) && shown(out@) == rows(pins@)),
        outcome matches Err(e) ==> (r matches Err(x) && x.status == status_of(e) && x.message@
            == e.text()),
{
    match outcome {
        Ok(pins) => {
            let mut out: Vec<PinResponse> = Vec::new();
            let mut i: usize = 0;
            while i < pins.len()
                invariant
                    0 <= i <= pins.len(),
                    shown(out@) == rows(pins@.take(i as int)),
                decreases pins.len() - i,
            {
                let reply = PinResponse::of(&pins[i]);
                proof {
                    assert(pins@.take(i + 1) =~= pins@.take(i as int).push(pins@[i as int]));
                    assert(shown(out@.push(reply)) =~= shown(out@).push(reply@));
                    assert(rows(pins@.take(i as int).push(pins@[i as int])) =~= rows(
                        pins@.take(i as int),
                    ).push(pins@[i as int]@));
                }
                out.push(reply);
                i = i + 1;
            }
            assert(pins@.take(i as int) =~= pins@);
            Ok(out)
        },
        Err(e) => Err(refuse(&e)),
    }
}

/// The reply to a request for one pin, from what the store said.
pub fn pin_fetched(outcome: Result<Pin, Error>) -> (r: Result<PinResponse, Refusal>)
    ensures
        outcome matches Ok(pin) ==> (r matches Ok(out) && out@ == pin@),
        outcome matches Err(e) ==> (r matches Err(x) && x.status == status_of(e) && x.message@
            == e.text()),
{
    match outcome {
        Ok(pin) => Ok(PinResponse::of(&pin)),
        Err(e) => Err(refuse(&e)),
    }
}

/// The reply to a request to rate a pin, from what the store said of the
/// rating and, where it took the rating, of the average.
pub fn rating_added(stored: Result<(), Error>, averaged: Option<Result<(), Error>>) -> (r: Result<
    String,
    Refusal,
>)
    requires
        stored is Ok <==> averaged is Some,
    ensures
        stored matches Err(e) ==> (r matches Err(x) && x.status == status_of(e) && x.message@
            == e.text()),
        averaged matches Some(Err(e)) ==> (r matches Err(x) && x.status == status_of(e)
            && x.message@ == e.text()),
        averaged matches Some(Ok(_)) ==> (r matches Ok(m) && m@ == RATING_ADDED@),
{
    match stored {
        Err(e) => Err(refuse(&e)),
        Ok(()) => match averaged {
            Some(Err(e)) => Err(refuse(&e)),
            _ => Ok(String::from_str(RATING_ADDED)),
        },
    }
}

/// The reply to a request to delete a pin, from what the store said.
pub fn pin_deleted(outcome: Result<(), Error>) -> (r: Result<u16, Refusal>)
    ensures
        outcome is Ok ==> r == Ok::<u16, Refusal>(NO_CONTENT),
        outcome matches Err(e) ==> (r matches Err(x) && x.status == status_of(e) && x.message@
            == e.text()),
{
    match outcome {
        Ok(()) => Ok(NO_CONTENT),
        Err(e) => Err(refuse(&e)),
    }
}

/// Adds a pin. A pin that breaks a rule of the schema is refused with
/// `BAD_REQUEST`, and nothing else is. On a store that says what it holds,
/// every other pin is stored and the reply is `Ok` while the table has an id
/// left; once it has none the reply is `INTERNAL_SERVER_ERROR`. Where the
/// reply is no `Ok`, nothing is stored.
pub fn add_pin<D: TouristDb>(db: &mut D, payload: AddPinRequest) -> (r: Result<String, Refusal>)
    requires
        old(db).model() matches Some(s) ==> s.wf(),
    ensures
        final(db).model() matches Some(s) ==> s.wf(),
        r matches Ok(m) ==> m@ == PIN_ADDED@,
        !(valid_title(payload.title@) && valid_position(payload.x, payload.y)) <==> (
        r matches Err(x) && x.status == BAD_REQUEST),
        final(db).model() is Some <==> old(db).model() is Some,
        old(db).model() matches Some(s) ==> {
            &&& (r is Ok <==> valid_title(payload.title@) && valid_position(payload.x, payload.y)
                && s.last_pin_id < i32::MAX)
            &&& (valid_title(payload.title@) && valid_position(payload.x, payload.y)
                && s.last_pin_id >= i32::MAX ==> (r matches Err(x) && x.status
                == INTERNAL_SERVER_ERROR))
            &&& final(db).model() == Some(
                if r is Ok {
                    s.with_pin(
                        payload.pin_type@,
                        payload.title@,
                        payload.description@,
                        payload.x,
                        payload.y,
                    )
                } else {
                    s
                },
            )
        },
{
    let outcome = db.insert_pin(
        payload.pin_type,
        payload.title,
        payload.description,
        payload.x,
        payload.y,
    );
    pin_added(outcome)
}

/// Lists every pin, in the order of the ids. On a store that says what it
/// holds the reply is `Ok` and shows each pin as it is stored.
pub fn get_pins<D: TouristDb>(db: &D) -> (r: Result<Vec<PinResponse>, Refusal>)
    requires
        db.model() matches Some(s) ==> s.wf(),
    ensures
        db.model() matches Some(s) ==> (r matches Ok(out) && shown(out@) == s.pins),
{
    pins_listed(db.get_all_pins())
}

/// Fetches one pin. That no pin has the id is refused with `NOT_FOUND`, and
/// nothing else is. On a store that says what it holds, the reply is `Ok`
/// exactly when a pin has the id, and shows that pin as it is stored.
pub fn get_pin<D: TouristDb>(db: &D, id: i32) -> (r: Result<PinResponse, Refusal>)
    requires
        db.model() matches Some(s) ==> s.wf(),
    ensures
        r matches Ok(pin) ==> pin.id == id,
        db.model() matches Some(s) ==> {
            &&& (r is Ok <==> s.has_pin(id))
            &&& (r matches Ok(pin) ==> s.find(id) == Some(pin@))
            &&& (s.find(id) is None <==> (r matches Err(x) && x.status == NOT_FOUND))
        },
{
    pin_fetched(db.get_pin_by_id(id))
}

/// Rates a pin: stores the rating, then computes the pin's average anew. A
/// rating outside one to five is refused with `BAD_REQUEST`.
///
/// On a store that says what it holds, a rating in one to five of a stored pin
/// is stored, the pin's average becomes the mean of its ratings, and the reply
/// is `Ok`, while the table has an id left. A rating of a pin that is not
/// stored is refused with `CONFLICT`; once the table has no id left the reply
/// is `INTERNAL_SERVER_ERROR`. Where the reply is no `Ok`, nothing is stored.
///
/// On a store whose rows live elsewhere the two steps are not one: where the
/// second fails, the rating stays stored and the average is as it was.
pub fn add_rate<D: TouristDb>(db: &mut D, payload: AddRatingRequest) -> (r: Result<
    String,
    Refusal,
>)
    requires
        old(db).model() matches Some(s) ==> s.wf(),
    ensures
        final(db).model() matches Some(s) ==> s.wf(),
        r matches Ok(m) ==> m@ == RATING_ADDED@,
        r is Ok ==> valid_rate(payload.rate),
        !valid_rate(payload.rate) ==> (r matches Err(x) && x.status == BAD_REQUEST),
        final(db).model() is Some <==> old(db).model() is Some,
        old(db).model() matches Some(s) ==> {
            &&& (r is Ok <==> valid_rate(payload.rate) && s.has_pin(payload.point_id)
                && s.last_rate_id < i32::MAX)
            &&& (!valid_rate(payload.rate) <==> (r matches Err(x) && x.status == BAD_REQUEST))
            &&& (valid_rate(payload.rate) && !s.has_pin(payload.point_id) <==> (r matches Err(x)
                && x.status == CONFLICT))
            &&& (valid_rate(payload.rate) && s.has_pin(payload.point_id) && s.last_rate_id
                >= i32::MAX ==> (r matches Err(x) && x.status == INTERNAL_SERVER_ERROR))
            &&& final(db).model() == Some(
                if r is Ok {
                    s.with_rating(payload.point_id, payload.rate).with_average(payload.point_id)
                } else {
                    s
                },
            )
        },
{
    let stored = db.insert_rating(payload.point_id, payload.rate);
    let averaged = if stored.is_ok() {
        Some(db.update_average_rating(payload.point_id))
    } else {
        None
    };
    rating_added(stored, averaged)
}

/// Deletes a pin and its ratings; the reply to a deletion is `NO_CONTENT`,
/// also where no pin had the id. On a store that says what it holds the
/// deletion does not fail: the pin and its ratings are gone and the reply is
/// `NO_CONTENT`.
pub fn delete_pin<D: TouristDb>(db: &mut D, id: i32) -> (r: Result<u16, Refusal>)
    requires
        old(db).model() matches Some(s) ==> s.wf(),
    ensures
        final(db).model() matches Some(s) ==> s.wf(),
        r matches Ok(status) ==> status == NO_CONTENT,
        final(db).model() is Some <==> old(db).model() is Some,
        old(db).model() matches Some(s) ==> {
            &&& r == Ok::<u16, Refusal>(NO_CONTENT)
            &&& final(db).model() == Some(s.without_pin(id))
        },
{
    pin_deleted(db.delete_pin(id))
}

} // verus!
