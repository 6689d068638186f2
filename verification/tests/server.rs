use tourist_db::db::memory::MemoryDb;
use tourist_db::db::schema::{check_pin, check_rate};
use tourist_db::db::{Pin, TouristDb};
use tourist_db::double::Double;
use tourist_db::errors::Error;
use tourist_db::server::{
    add_pin, add_rate, delete_pin, get_pin, get_pins, pin_added, pin_deleted, pin_fetched,
    pins_listed, rating_added, refuse, AddPinRequest, AddRatingRequest, PinResponse, Refusal,
};

fn deg(value: f64) -> Double {
    Double::from_bits(value.to_bits())
}

fn request(title: &str, x: f64, y: f64) -> AddPinRequest {
    AddPinRequest {
        pin_type: "museum".to_string(),
        title: title.to_string(),
        description: "art museum".to_string(),
        x: deg(x),
        y: deg(y),
    }
}

/// A backend whose store cannot be reached: it refuses what the schema
/// refuses, and fails at everything else.
struct Unreachable;

fn down() -> Error {
    Error::StorageUnavailable("down".to_string())
}

impl TouristDb for Unreachable {
    fn insert_pin(
        &mut self,
        _pin_type: String,
        title: String,
        _description: String,
        x: Double,
        y: Double,
    ) -> Result<(), Error> {
        check_pin(&title, x, y)?;
        Err(down())
    }

    fn get_all_pins(&self) -> Result<Vec<Pin>, Error> {
        Err(down())
    }

    fn get_pin_by_id(&self, _id: i32) -> Result<Pin, Error> {
        Err(down())
    }

    fn insert_rating(&mut self, _point_id: i32, rate: i32) -> Result<(), Error> {
        check_rate(rate)?;
        Err(down())
    }

    fn update_average_rating(&mut self, _point_id: i32) -> Result<(), Error> {
        Err(down())
    }

    fn delete_pin(&mut self, _id: i32) -> Result<(), Error> {
        Err(down())
    }
}

#[test]
fn add_pin_replies_with_its_message() {
    let mut db = MemoryDb::new();
    assert_eq!(
        add_pin(&mut db, request("Louvre", 2.3376, 48.8606)),
        Ok("Pin added successfully.".to_string())
    );
    assert_eq!(db.get_all_pins().unwrap().len(), 1);
}

#[test]
fn add_pin_refuses_what_the_schema_refuses() {
    let mut db = MemoryDb::new();
    let r = add_pin(&mut db, request("Louvre", 181.0, 48.8606));
    assert_eq!(
        r,
        Err(Refusal { status: 400, message: "x is not between -180 and 180".to_string() })
    );
    let r = add_pin(&mut db, request(&"L".repeat(33), 1.0, 48.8606));
    assert_eq!(r.unwrap_err().status, 400);
    assert!(db.get_all_pins().unwrap().is_empty());
}

#[test]
fn get_pins_shows_every_pin_in_the_order_of_the_ids() {
    let mut db = MemoryDb::new();
    add_pin(&mut db, request("a", 1.0, 2.0)).unwrap();
    add_pin(&mut db, request("b", 3.0, 4.0)).unwrap();
    let shown = get_pins(&db).unwrap();
    assert_eq!(
        shown,
        vec![
            PinResponse {
                id: 1,
                pin_type: "museum".to_string(),
                title: "a".to_string(),
                description: "art museum".to_string(),
                x: deg(1.0),
                y: deg(2.0),
                average_rate: deg(0.0),
            },
            PinResponse {
                id: 2,
                pin_type: "museum".to_string(),
                title: "b".to_string(),
                description: "art museum".to_string(),
                x: deg(3.0),
                y: deg(4.0),
                average_rate: deg(0.0),
            },
        ]
    );
    assert_eq!(get_pins(&MemoryDb::new()), Ok(vec![]));
}

#[test]
fn get_pin_shows_the_pin_or_refuses_with_not_found() {
    let mut db = MemoryDb::new();
    add_pin(&mut db, request("a", 1.0, 2.0)).unwrap();
    let shown = get_pin(&db, 1).unwrap();
    assert_eq!(shown.id, 1);
    assert_eq!(shown.title, "a");
    assert_eq!(f64::from_bits(shown.x.to_bits()), 1.0);
    let r = get_pin(&db, 2);
    assert_eq!(r, Err(Refusal { status: 404, message: "no pin has this id".to_string() }));
}

#[test]
fn add_rate_stores_the_rating_and_updates_the_average() {
    let mut db = MemoryDb::new();
    add_pin(&mut db, request("a", 1.0, 2.0)).unwrap();
    assert_eq!(
        add_rate(&mut db, AddRatingRequest { point_id: 1, rate: 4 }),
        Ok("Rating added successfully.".to_string())
    );
    assert_eq!(f64::from_bits(get_pin(&db, 1).unwrap().average_rate.to_bits()), 4.0);
    add_rate(&mut db, AddRatingRequest { point_id: 1, rate: 2 }).unwrap();
    assert_eq!(f64::from_bits(get_pin(&db, 1).unwrap().average_rate.to_bits()), 3.0);
    add_rate(&mut db, AddRatingRequest { point_id: 1, rate: 5 }).unwrap();
    assert_eq!(
        f64::from_bits(get_pin(&db, 1).unwrap().average_rate.to_bits()),
        11.0 / 3.0
    );
}

#[test]
fn add_rate_refuses_a_rating_out_of_range() {
    let mut db = MemoryDb::new();
    add_pin(&mut db, request("a", 1.0, 2.0)).unwrap();
    for rate in [0, 6, -5] {
        let r = add_rate(&mut db, AddRatingRequest { point_id: 1, rate });
        assert_eq!(
            r,
            Err(Refusal { status: 400, message: "rate is not between 1 and 5".to_string() })
        );
    }
    assert!(db.ratings_of(1).is_empty());
}

#[test]
fn add_rate_refuses_a_rating_of_a_missing_pin() {
    let mut db = MemoryDb::new();
    let r = add_rate(&mut db, AddRatingRequest { point_id: 1, rate: 3 });
    assert_eq!(
        r,
        Err(Refusal { status: 409, message: "the rated pin does not exist".to_string() })
    );
}

#[test]
fn delete_pin_replies_no_content() {
    let mut db = MemoryDb::new();
    add_pin(&mut db, request("a", 1.0, 2.0)).unwrap();
    add_rate(&mut db, AddRatingRequest { point_id: 1, rate: 3 }).unwrap();
    assert_eq!(delete_pin(&mut db, 1), Ok(204));
    assert_eq!(get_pin(&db, 1).unwrap_err().status, 404);
    assert!(db.ratings_of(1).is_empty());
    assert_eq!(delete_pin(&mut db, 1), Ok(204));
    assert_eq!(delete_pin(&mut db, 99), Ok(204));
}

#[test]
fn a_store_that_is_down_is_a_server_error() {
    let mut db = Unreachable;
    let refusal = Refusal { status: 500, message: "down".to_string() };
    assert_eq!(add_pin(&mut db, request("a", 1.0, 2.0)), Err(refusal.clone()));
    assert_eq!(get_pins(&db), Err(refusal.clone()));
    assert_eq!(get_pin(&db, 1), Err(refusal.clone()));
    assert_eq!(
        add_rate(&mut db, AddRatingRequest { point_id: 1, rate: 3 }),
        Err(refusal.clone())
    );
    assert_eq!(delete_pin(&mut db, 1), Err(refusal));
}

#[test]
fn a_store_that_is_down_still_refuses_what_the_schema_refuses() {
    let mut db = Unreachable;
    assert_eq!(
        add_pin(&mut db, request("a", 500.0, 2.0)),
        Err(Refusal { status: 400, message: "x is not between -180 and 180".to_string() })
    );
    assert_eq!(
        add_rate(&mut db, AddRatingRequest { point_id: 1, rate: 9 }),
        Err(Refusal { status: 400, message: "rate is not between 1 and 5".to_string() })
    );
}

#[test]
fn add_pin_stores_the_fields_in_their_places() {
    let mut db = MemoryDb::new();
    let payload = AddPinRequest {
        pin_type: "cafe".to_string(),
        title: "Corner".to_string(),
        description: "coffee".to_string(),
        x: deg(-73.9857),
        y: deg(40.7484),
    };
    assert_eq!(add_pin(&mut db, payload), Ok("Pin added successfully.".to_string()));
    assert_eq!(
        db.get_pin_by_id(1),
        Ok(Pin {
            id: 1,
            pin_type: "cafe".to_string(),
            title: "Corner".to_string(),
            description: "coffee".to_string(),
            x: deg(-73.9857),
            y: deg(40.7484),
            average_rate: deg(0.0),
        })
    );
}

#[test]
fn add_rate_rates_the_pin_it_names() {
    let mut db = MemoryDb::new();
    add_pin(&mut db, request("a", 1.0, 2.0)).unwrap();
    add_pin(&mut db, request("b", 1.0, 2.0)).unwrap();
    add_rate(&mut db, AddRatingRequest { point_id: 2, rate: 5 }).unwrap();
    assert_eq!(db.ratings_of(1).len(), 0);
    assert_eq!(db.ratings_of(2).len(), 1);
    assert_eq!(db.ratings_of(2)[0].rate, 5);
    assert_eq!(f64::from_bits(get_pin(&db, 1).unwrap().average_rate.to_bits()), 0.0);
    assert_eq!(f64::from_bits(get_pin(&db, 2).unwrap().average_rate.to_bits()), 5.0);
}

#[test]
fn each_kind_of_failure_has_its_status() {
    let m = "m".to_string();
    assert_eq!(refuse(&Error::Validation(m.clone())).status, 400);
    assert_eq!(refuse(&Error::NotFound(m.clone())).status, 404);
    assert_eq!(refuse(&Error::Constraint(m.clone())).status, 409);
    assert_eq!(refuse(&Error::StorageUnavailable(m.clone())).status, 500);
    assert_eq!(refuse(&Error::Serialization(m.clone())).status, 500);
    assert_eq!(refuse(&Error::Serialization("bad row".to_string())).message, "bad row");
}

#[test]
fn replies_follow_what_the_store_said() {
    let e = Error::StorageUnavailable("gone".to_string());
    let refusal = Refusal { status: 500, message: "gone".to_string() };
    assert_eq!(pin_added(Ok(())), Ok("Pin added successfully.".to_string()));
    assert_eq!(pin_added(Err(e.clone())), Err(refusal.clone()));
    assert_eq!(pins_listed(Ok(vec![])), Ok(vec![]));
    assert_eq!(pins_listed(Err(e.clone())), Err(refusal.clone()));
    assert_eq!(pin_fetched(Err(e.clone())), Err(refusal.clone()));
    assert_eq!(pin_deleted(Ok(())), Ok(204));
    assert_eq!(pin_deleted(Err(e.clone())), Err(refusal.clone()));
    assert_eq!(
        rating_added(Ok(()), Some(Ok(()))),
        Ok("Rating added successfully.".to_string())
    );
    assert_eq!(rating_added(Ok(()), Some(Err(e.clone()))), Err(refusal.clone()));
    assert_eq!(
        rating_added(Err(Error::Validation("v".to_string())), None),
        Err(Refusal { status: 400, message: "v".to_string() })
    );
}

#[test]
fn a_reply_shows_the_pin_as_it_is() {
    let pin = Pin {
        id: 7,
        pin_type: "park".to_string(),
        title: "Green".to_string(),
        description: "trees".to_string(),
        x: deg(10.5),
        y: deg(-20.25),
        average_rate: deg(4.5),
    };
    assert_eq!(
        PinResponse::of(&pin),
        PinResponse {
            id: 7,
            pin_type: "park".to_string(),
            title: "Green".to_string(),
            description: "trees".to_string(),
            x: deg(10.5),
            y: deg(-20.25),
            average_rate: deg(4.5),
        }
    );
    assert_eq!(pin_fetched(Ok(pin.duplicate())), Ok(PinResponse::of(&pin)));
}
