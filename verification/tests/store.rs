use tourist_db::db::memory::{MemoryDb, NO_SUCH_PIN, RATED_PIN_MISSING};
use tourist_db::db::schema::{
    RATE_OUT_OF_RANGE, TITLE_TOO_LONG, X_OUT_OF_RANGE, Y_OUT_OF_RANGE,
};
use tourist_db::db::{Pin, Rating, TouristDb};
use tourist_db::double::Double;
use tourist_db::errors::Error;

fn deg(value: f64) -> Double {
    Double::from_bits(value.to_bits())
}

fn value(d: Double) -> f64 {
    f64::from_bits(d.to_bits())
}

fn add(db: &mut MemoryDb, title: &str, x: f64, y: f64) -> Result<(), Error> {
    db.insert_pin("museum".to_string(), title.to_string(), "somewhere".to_string(), deg(x), deg(y))
}

#[test]
fn scenario_louvre() {
    let mut db = MemoryDb::new();
    assert_eq!(
        db.insert_pin(
            "museum".to_string(),
            "Louvre".to_string(),
            "art museum".to_string(),
            deg(2.3376),
            deg(48.8606),
        ),
        Ok(())
    );
    let pins = db.get_all_pins().unwrap();
    assert_eq!(pins.len(), 1);
    let id = pins[0].id;
    assert_eq!(
        pins[0],
        Pin {
            id,
            pin_type: "museum".to_string(),
            title: "Louvre".to_string(),
            description: "art museum".to_string(),
            x: deg(2.3376),
            y: deg(48.8606),
            average_rate: deg(0.0),
        }
    );
    assert_eq!(value(pins[0].x), 2.3376);
    assert_eq!(value(pins[0].y), 48.8606);
    assert_eq!(value(pins[0].average_rate), 0.0);

    assert_eq!(db.insert_rating(id, 4), Ok(()));
    assert_eq!(db.update_average_rating(id), Ok(()));
    assert_eq!(value(db.get_pin_by_id(id).unwrap().average_rate), 4.0);

    assert_eq!(db.insert_rating(id, 2), Ok(()));
    assert_eq!(db.update_average_rating(id), Ok(()));
    assert_eq!(value(db.get_pin_by_id(id).unwrap().average_rate), 3.0);

    assert_eq!(db.delete_pin(id), Ok(()));
    assert!(matches!(db.get_pin_by_id(id), Err(Error::NotFound(_))));
}

#[test]
fn coordinates_within_bounds_are_stored() {
    let mut db = MemoryDb::new();
    let inside = [
        (0.0, 0.0),
        (-0.0, -0.0),
        (180.0, 90.0),
        (-180.0, -90.0),
        (179.99999999999997, 89.99999999999999),
        (5e-324, -5e-324),
        (1.0, -1.0),
        (-122.4194, 37.7749),
    ];
    for (x, y) in inside {
        assert_eq!(add(&mut db, "t", x, y), Ok(()), "{x} {y}");
    }
    assert_eq!(db.get_all_pins().unwrap().len(), inside.len());
}

#[test]
fn longitude_out_of_bounds_is_a_validation_failure() {
    let mut db = MemoryDb::new();
    let outside = [
        180.00000000000003,
        -180.00000000000003,
        181.0,
        -181.0,
        360.0,
        1e300,
        f64::MAX,
        f64::INFINITY,
        f64::NEG_INFINITY,
        f64::NAN,
    ];
    for x in outside {
        assert_eq!(
            add(&mut db, "t", x, 0.0),
            Err(Error::Validation(X_OUT_OF_RANGE.to_string())),
            "{x}"
        );
    }
    assert!(db.get_all_pins().unwrap().is_empty());
}

#[test]
fn latitude_out_of_bounds_is_a_validation_failure() {
    let mut db = MemoryDb::new();
    let outside = [
        90.00000000000001,
        -90.00000000000001,
        91.0,
        -91.0,
        180.0,
        f64::INFINITY,
        f64::NEG_INFINITY,
        f64::NAN,
    ];
    for y in outside {
        assert_eq!(
            add(&mut db, "t", 0.0, y),
            Err(Error::Validation(Y_OUT_OF_RANGE.to_string())),
            "{y}"
        );
    }
    assert!(db.get_all_pins().unwrap().is_empty());
}

#[test]
fn title_of_thirty_two_characters_is_stored() {
    let mut db = MemoryDb::new();
    let title = "a".repeat(32);
    assert_eq!(add(&mut db, &title, 1.0, 1.0), Ok(()));
    assert_eq!(db.get_pin_by_id(1).unwrap().title, title);
    assert_eq!(add(&mut db, "", 1.0, 1.0), Ok(()));
}

#[test]
fn title_of_thirty_three_characters_is_a_validation_failure() {
    let mut db = MemoryDb::new();
    for n in [33usize, 34, 64, 1000] {
        assert_eq!(
            add(&mut db, &"a".repeat(n), 1.0, 1.0),
            Err(Error::Validation(TITLE_TOO_LONG.to_string()))
        );
    }
    assert!(db.get_all_pins().unwrap().is_empty());
}

#[test]
fn title_length_counts_characters_not_bytes() {
    let mut db = MemoryDb::new();
    let title = "é".repeat(32);
    assert_eq!(title.len(), 64);
    assert_eq!(add(&mut db, &title, 1.0, 1.0), Ok(()));
    assert_eq!(
        add(&mut db, &"é".repeat(33), 1.0, 1.0),
        Err(Error::Validation(TITLE_TOO_LONG.to_string()))
    );
}

#[test]
fn the_title_is_checked_before_the_position() {
    let mut db = MemoryDb::new();
    assert_eq!(
        add(&mut db, &"a".repeat(40), 500.0, 500.0),
        Err(Error::Validation(TITLE_TOO_LONG.to_string()))
    );
    assert_eq!(
        add(&mut db, "a", 500.0, 500.0),
        Err(Error::Validation(X_OUT_OF_RANGE.to_string()))
    );
}

#[test]
fn ratings_from_one_to_five_are_stored() {
    let mut db = MemoryDb::new();
    add(&mut db, "t", 0.0, 0.0).unwrap();
    for rate in 1..=5 {
        assert_eq!(db.insert_rating(1, rate), Ok(()));
    }
    assert_eq!(
        db.ratings_of(1),
        vec![
            Rating { id: 1, point_id: 1, rate: 1 },
            Rating { id: 2, point_id: 1, rate: 2 },
            Rating { id: 3, point_id: 1, rate: 3 },
            Rating { id: 4, point_id: 1, rate: 4 },
            Rating { id: 5, point_id: 1, rate: 5 },
        ]
    );
}

#[test]
fn ratings_outside_one_to_five_are_a_validation_failure() {
    let mut db = MemoryDb::new();
    add(&mut db, "t", 0.0, 0.0).unwrap();
    for rate in [0, 6, -1, 7, 100, i32::MIN, i32::MAX] {
        assert_eq!(
            db.insert_rating(1, rate),
            Err(Error::Validation(RATE_OUT_OF_RANGE.to_string()))
        );
    }
    assert!(db.ratings_of(1).is_empty());
}

#[test]
fn rating_a_missing_pin_is_a_referential_failure() {
    let mut db = MemoryDb::new();
    assert_eq!(
        db.insert_rating(1, 3),
        Err(Error::Constraint(RATED_PIN_MISSING.to_string()))
    );
    add(&mut db, "t", 0.0, 0.0).unwrap();
    assert_eq!(
        db.insert_rating(2, 3),
        Err(Error::Constraint(RATED_PIN_MISSING.to_string()))
    );
    // the range of the rating is looked at first
    assert_eq!(
        db.insert_rating(2, 9),
        Err(Error::Validation(RATE_OUT_OF_RANGE.to_string()))
    );
}

#[test]
fn average_is_the_mean_of_the_ratings() {
    let mut db = MemoryDb::new();
    add(&mut db, "t", 0.0, 0.0).unwrap();
    let given = [5, 1, 1, 2, 4, 4, 3, 5, 5, 1, 2];
    let mut total = 0.0;
    for (n, rate) in given.iter().enumerate() {
        db.insert_rating(1, *rate).unwrap();
        db.update_average_rating(1).unwrap();
        total += *rate as f64;
        let mean = total / (n + 1) as f64;
        let held = value(db.get_pin_by_id(1).unwrap().average_rate);
        assert!((held - mean).abs() <= 1e-12, "{held} {mean}");
        assert_eq!(held, mean);
    }
    assert_eq!(value(db.get_pin_by_id(1).unwrap().average_rate), 3.0);
}

#[test]
fn average_of_one_and_two_is_one_and_a_half() {
    let mut db = MemoryDb::new();
    add(&mut db, "t", 0.0, 0.0).unwrap();
    db.insert_rating(1, 1).unwrap();
    db.insert_rating(1, 2).unwrap();
    db.update_average_rating(1).unwrap();
    assert_eq!(value(db.get_pin_by_id(1).unwrap().average_rate), 1.5);
    db.insert_rating(1, 2).unwrap();
    db.update_average_rating(1).unwrap();
    assert_eq!(value(db.get_pin_by_id(1).unwrap().average_rate), 5.0 / 3.0);
}

#[test]
fn average_of_an_unrated_pin_stays_as_it_is() {
    let mut db = MemoryDb::new();
    add(&mut db, "t", 0.0, 0.0).unwrap();
    assert_eq!(db.update_average_rating(1), Ok(()));
    assert_eq!(value(db.get_pin_by_id(1).unwrap().average_rate), 0.0);
    // nor is a pin that is not stored a failure
    assert_eq!(db.update_average_rating(9), Ok(()));
}

#[test]
fn average_waits_for_its_update() {
    let mut db = MemoryDb::new();
    add(&mut db, "t", 0.0, 0.0).unwrap();
    db.insert_rating(1, 5).unwrap();
    assert_eq!(value(db.get_pin_by_id(1).unwrap().average_rate), 0.0);
    db.update_average_rating(1).unwrap();
    assert_eq!(value(db.get_pin_by_id(1).unwrap().average_rate), 5.0);
}

#[test]
fn averages_of_two_pins_are_apart() {
    let mut db = MemoryDb::new();
    add(&mut db, "a", 0.0, 0.0).unwrap();
    add(&mut db, "b", 0.0, 0.0).unwrap();
    db.insert_rating(1, 5).unwrap();
    db.insert_rating(2, 1).unwrap();
    db.insert_rating(2, 2).unwrap();
    db.update_average_rating(1).unwrap();
    assert_eq!(value(db.get_pin_by_id(1).unwrap().average_rate), 5.0);
    assert_eq!(value(db.get_pin_by_id(2).unwrap().average_rate), 0.0);
    db.update_average_rating(2).unwrap();
    assert_eq!(value(db.get_pin_by_id(2).unwrap().average_rate), 1.5);
    assert_eq!(value(db.get_pin_by_id(1).unwrap().average_rate), 5.0);
}

#[test]
fn delete_removes_the_pin_and_its_ratings() {
    let mut db = MemoryDb::new();
    add(&mut db, "a", 0.0, 0.0).unwrap();
    add(&mut db, "b", 1.0, 1.0).unwrap();
    db.insert_rating(1, 5).unwrap();
    db.insert_rating(2, 3).unwrap();
    db.insert_rating(1, 4).unwrap();
    assert_eq!(db.delete_pin(1), Ok(()));
    assert_eq!(
        db.get_pin_by_id(1),
        Err(Error::NotFound(NO_SUCH_PIN.to_string()))
    );
    assert!(db.ratings_of(1).is_empty());
    assert_eq!(db.ratings_of(2), vec![Rating { id: 2, point_id: 2, rate: 3 }]);
    let left = db.get_all_pins().unwrap();
    assert_eq!(left.len(), 1);
    assert_eq!(left[0].id, 2);
    assert_eq!(left[0].title, "b");
    // a rating of the deleted pin has nothing to refer to
    assert!(matches!(db.insert_rating(1, 3), Err(Error::Constraint(_))));
}

#[test]
fn delete_of_a_missing_pin_succeeds() {
    let mut db = MemoryDb::new();
    assert_eq!(db.delete_pin(1), Ok(()));
    add(&mut db, "a", 0.0, 0.0).unwrap();
    db.insert_rating(1, 2).unwrap();
    assert_eq!(db.delete_pin(7), Ok(()));
    assert_eq!(db.delete_pin(-3), Ok(()));
    assert_eq!(db.get_all_pins().unwrap().len(), 1);
    assert_eq!(db.ratings_of(1).len(), 1);
    assert_eq!(db.delete_pin(1), Ok(()));
    assert_eq!(db.delete_pin(1), Ok(()));
    assert!(db.get_all_pins().unwrap().is_empty());
}

#[test]
fn lookup_of_an_id_never_given_is_not_found() {
    let mut db = MemoryDb::new();
    for id in [0, 1, -1, 2, i32::MAX, i32::MIN] {
        assert_eq!(
            db.get_pin_by_id(id),
            Err(Error::NotFound(NO_SUCH_PIN.to_string()))
        );
    }
    add(&mut db, "a", 0.0, 0.0).unwrap();
    assert!(matches!(db.get_pin_by_id(2), Err(Error::NotFound(_))));
}

#[test]
fn lookup_returns_what_was_inserted() {
    let mut db = MemoryDb::new();
    db.insert_pin(
        "cafe".to_string(),
        "Corner".to_string(),
        "coffee and cake".to_string(),
        deg(-73.9857),
        deg(40.7484),
    )
    .unwrap();
    assert_eq!(
        db.get_pin_by_id(1),
        Ok(Pin {
            id: 1,
            pin_type: "cafe".to_string(),
            title: "Corner".to_string(),
            description: "coffee and cake".to_string(),
            x: deg(-73.9857),
            y: deg(40.7484),
            average_rate: Double { bits: 0 },
        })
    );
}

#[test]
fn ids_ascend_and_are_not_given_twice() {
    let mut db = MemoryDb::new();
    add(&mut db, "a", 0.0, 0.0).unwrap();
    add(&mut db, "b", 0.0, 0.0).unwrap();
    add(&mut db, "c", 0.0, 0.0).unwrap();
    db.delete_pin(3).unwrap();
    add(&mut db, "d", 0.0, 0.0).unwrap();
    let ids: Vec<i32> = db.get_all_pins().unwrap().iter().map(|p| p.id).collect();
    assert_eq!(ids, vec![1, 2, 4]);
    assert_eq!(db.get_pin_by_id(4).unwrap().title, "d");
}

#[test]
fn a_refused_pin_takes_no_id() {
    let mut db = MemoryDb::new();
    assert!(add(&mut db, "a", 200.0, 0.0).is_err());
    add(&mut db, "b", 0.0, 0.0).unwrap();
    assert_eq!(db.get_all_pins().unwrap()[0].id, 1);
}

#[test]
fn duplicate_is_equal() {
    let pin = Pin {
        id: 3,
        pin_type: "x".to_string(),
        title: "y".to_string(),
        description: "z".to_string(),
        x: deg(1.5),
        y: deg(-2.5),
        average_rate: deg(4.25),
    };
    assert_eq!(pin.duplicate(), pin);
}
