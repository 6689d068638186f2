//! The schema: the statements that a relational backend runs, and the checks
//! that its tables declare, decided here before a row is handed over.

use crate::db::{valid_position, valid_rate, valid_title, MAX_RATE, MAX_TITLE_CHARS, MIN_RATE};
use crate::double::Double;
use crate::errors::Error;
use vstd::prelude::*;
use vstd::string::*;

verus! {

/// Tells whether the table of pins exists.
pub const PINS_TABLE_EXISTS: &'static str =
    "SELECT name FROM sqlite_master WHERE type='table' AND name='pins';";

/// Tells whether the table of ratings exists.
pub const RATES_TABLE_EXISTS: &'static str =
    "SELECT name FROM sqlite_master WHERE type='table' AND name='rates';";

/// Creates the table of pins.
pub const CREATE_PINS_TABLE: &'static str = "CREATE TABLE pins (
    id INTEGER PRIMARY KEY AUTOINCREMENT,
    type TEXT NOT NULL,
    title TEXT NOT NULL CHECK(LENGTH(title) <= 32),
    description TEXT NOT NULL,
    x REAL NOT NULL CHECK(x BETWEEN -180.0 AND 180.0),
    y REAL NOT NULL CHECK(y BETWEEN -90.0 AND 90.0),
    average_rate REAL DEFAULT 0
);";

/// Creates the table of ratings; a rating goes when its pin goes.
pub const CREATE_RATES_TABLE: &'static str = "CREATE TABLE rates (
    id INTEGER PRIMARY KEY AUTOINCREMENT,
    point_id INTEGER NOT NULL,
    rate INTEGER NOT NULL CHECK(rate BETWEEN 1 AND 5),
    FOREIGN KEY (point_id) REFERENCES pins (id) ON DELETE CASCADE
);";

/// Stores a pin; takes type, title, description, x and y.
pub const INSERT_PIN: &'static str =
    "INSERT INTO pins (type, title, description, x, y, average_rate) VALUES (?, ?, ?, ?, ?, 0)";

/// Reads every pin, in the order of the ids.
pub const SELECT_PINS: &'static str =
    "SELECT id, type, title, description, x, y, average_rate FROM pins ORDER BY id";

/// Reads the pin with the id it takes.
pub const SELECT_PIN: &'static str =
    "SELECT id, type, title, description, x, y, average_rate FROM pins WHERE id = ?";

/// Stores a rating; takes the pin's id and the rating.
pub const INSERT_RATING: &'static str = "INSERT INTO rates (point_id, rate) VALUES (?, ?)";

/// Reads the mean of the ratings of the pin whose id it takes.
pub const SELECT_MEAN_RATE: &'static str =
    "SELECT AVG(rate) as average_rate FROM rates WHERE point_id = ?";

/// Writes a pin's average; takes the average and the pin's id.
pub const UPDATE_AVERAGE: &'static str = "UPDATE pins SET average_rate = ? WHERE id = ?";

/// Deletes the pin with the id it takes.
pub const DELETE_PIN: &'static str = "DELETE FROM pins WHERE id = ?";

/// Said of a title of more than thirty-two characters.
pub const TITLE_TOO_LONG: &'static str = "title is longer than 32 characters";

/// Said of a longitude outside its range.
pub const X_OUT_OF_RANGE: &'static str = "x is not between -180 and 180";

/// Said of a latitude outside its range.
pub const Y_OUT_OF_RANGE: &'static str = "y is not between -90 and 90";

/// Said of a rating outside its range.
pub const RATE_OUT_OF_RANGE: &'static str = "rate is not between 1 and 5";

/// The first rule that a new pin breaks, if it breaks any: the title is
/// looked at first, then the longitude, then the latitude.
pub open spec fn pin_fault(title: Seq<char>, x: Double, y: Double) -> Option<Seq<char>> {
    if !valid_title(title) {
        Some(TITLE_TOO_LONG@)
    } else if !x.magnitude_at_most(180) {
        Some(X_OUT_OF_RANGE@)
    } else if !y.magnitude_at_most(90) {
        Some(Y_OUT_OF_RANGE@)
    } else {
        None
    }
}

/// Checks a new pin against the schema.
pub fn check_pin(title: &str, x: Double, y: Double) -> (r: Result<(), Error>)
    ensures
        r is Ok <==> valid_title(title@) && valid_position(x, y),
        r matches Err(e) ==> (e matches Error::Validation(m) && Some(m@) == pin_fault(title@, x, y)),
{
    if title.unicode_len() > MAX_TITLE_CHARS {
        Err(Error::validation(TITLE_TOO_LONG))
    } else if !x.is_longitude() {
        Err(Error::validation(X_OUT_OF_RANGE))
    } else if !y.is_latitude() {
        Err(Error::validation(Y_OUT_OF_RANGE))
    } else {
        Ok(())
    }
}

/// Checks a new rating against the schema.
pub fn check_rate(rate: i32) -> (r: Result<(), Error>)
    ensures
        r is Ok <==> valid_rate(rate),
        r matches Err(e) ==> (e matches Error::Validation(m) && m@ == RATE_OUT_OF_RANGE@),
{
    if rate < MIN_RATE || rate > MAX_RATE {
        Err(Error::validation(RATE_OUT_OF_RANGE))
    } else {
        Ok(())
    }
}

} // verus!
