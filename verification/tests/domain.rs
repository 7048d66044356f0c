use rachis::domain::flight::Flight as PayloadFlight;
use rachis::domain::rachis::{Rachis as Payload, RachisType};
use rachis::time::Timestamp;
use rachis::z_domain::{Flight, Rachis, RachisType as OldRachisType};

fn now() -> Timestamp {
    let t = chrono::Utc::now();
    Timestamp { secs: t.timestamp(), nanos: t.timestamp_subsec_nanos() }
}

fn new_id() -> u128 {
    uuid::Uuid::new_v4().as_u128()
}

/// Waits until the clock has moved on to the next second.
fn wait_for_next_second() {
    let start = std::time::Instant::now();
    while start.elapsed() < std::time::Duration::from_millis(1100) {}
}

#[test]
fn test_flight_creation() {
    let flight: Flight = Flight::new(String::from("My Writing Project"));
    assert_eq!(flight.name, "My Writing Project");
    assert!(flight.created_at.le(&flight.updated_at));
    wait_for_next_second();
    let mut flight: Flight = flight;
    assert!(flight.update_name(String::from("Better Title")).is_ok());
    assert_eq!(flight.name, "Better Title");
    assert!(flight.created_at.le(&flight.updated_at) && flight.created_at != flight.updated_at);
}

#[test]
fn z_domain_test_rachis_creation() {
    let flight: Flight = Flight::new(String::from("Hold My Rachis"));
    let rachis: Rachis = Rachis::new(
        flight.id,
        String::from("Hello, Rachis!"),
        OldRachisType::DEFAULT,
        String::from("Story"),
        String::new(),
    );
    assert_eq!(rachis.flight_id, flight.id);
    assert_eq!(rachis.title, "Hello, Rachis!");
    assert_eq!(rachis.path, "Story");
    assert_eq!(rachis.rachis_type, OldRachisType::DEFAULT);
    assert_eq!(rachis.content, "");
    assert_eq!(rachis.word_count, 0)
}

#[test]
fn test_rachis_updates() {
    let flight: Flight = Flight::new(String::from("Hold My Rachis"));
    let mut rachis: Rachis = Rachis::new(
        flight.id,
        String::from("Hello, Rachis!"),
        OldRachisType::DEFAULT,
        String::from("Story"),
        String::new(),
    );
    assert!(rachis.update_name(String::from("My Little Pony: Ad Eternum")).is_ok());
    assert!(rachis.update_content(String::from("Twilight woke up for the third time in only two weeks.")).is_ok());
    assert_eq!(rachis.word_count, 11);
    assert_eq!(rachis.title, "My Little Pony: Ad Eternum");
}

#[test]
fn empty_content_is_refused() {
    let mut rachis: Rachis = Rachis::new(7, String::from("Keep"), OldRachisType::NOTE, String::from("Notes"), String::new());
    assert!(rachis.update_content(String::from("one two three")).is_ok());
    assert_eq!(rachis.word_count, 3);
    assert_eq!(rachis.update_content(String::new()), Err(String::from("Rachis content must not be empty!")));
    assert_eq!(rachis.content, "one two three");
    assert_eq!(rachis.word_count, 3);
}

#[test]
fn blank_names_are_refused() {
    let mut flight: Flight = Flight::new(String::from("Keep"));
    assert_eq!(flight.update_name(String::from(" \t ")), Err(String::from("Flight name must not be empty")));
    assert_eq!(flight.name, "Keep");
    let mut rachis: Rachis = Rachis::new(flight.id, String::from("Keep"), OldRachisType::ARC, String::new(), String::new());
    assert_eq!(rachis.update_name(String::new()), Err(String::from("Rachis name must not be empty!")));
    assert_eq!(rachis.title, "Keep");
    assert!(rachis.update_name(String::from("  Trimmed  ")).is_ok());
    assert_eq!(rachis.title, "Trimmed");
}

#[test]
fn timestamps_are_whole_seconds() {
    let flight: Flight = Flight::new(String::from("x"));
    assert_eq!(flight.created_at.nanos, 0);
    assert_eq!(flight.created_at, flight.updated_at);
    assert!(!flight.is_favorite);
}

#[test]
fn rachis_types_round_trip() {
    let all = [
        RachisType::ACT,
        RachisType::ARC,
        RachisType::SCENE,
        RachisType::DEFAULT,
        RachisType::CHARACTER,
        RachisType::EVENT,
        RachisType::LOCATION,
        RachisType::ITEM,
        RachisType::NOTE,
    ];
    for t in all {
        assert_eq!(RachisType::from_str(t.as_str()), Ok(t));
        assert_eq!(RachisType::from_str(&t.as_str().to_uppercase()), Ok(t));
    }
    assert_eq!(RachisType::CHARACTER.as_str(), "character");
    assert_eq!(RachisType::from_str("Villain"), Err(String::from("Invalid RachisType: Villain")));
    assert_eq!(RachisType::default(), RachisType::DEFAULT);
    assert_eq!(OldRachisType::from_str("NoTe"), Ok(OldRachisType::NOTE));
    assert_eq!(OldRachisType::from_str("x"), Err(String::from("Invalid RachisType: x")));
    assert_eq!(OldRachisType::SCENE.as_str(), "scene");
}

#[test]
fn payload_getters() {
    let id = new_id();
    let fid = new_id();
    let p = Payload::new(id, fid, "T".to_string(), RachisType::ITEM, "Items/T".to_string(), vec!["c!X!".to_string()], 5);
    assert_eq!(*p.id(), id);
    assert_eq!(*p.flight_id(), fid);
    assert_eq!(p.title(), "T");
    assert_eq!(*p.rachis_type(), RachisType::ITEM);
    assert_eq!(p.path(), "Items/T");
    assert_eq!(p.tags(), &vec!["c!X!".to_string()]);
    assert_eq!(p.word_count(), 5);
    let t = now();
    let f = PayloadFlight { id, name: "N".to_string(), created_at: t, updated_at: t, is_favorite: true };
    assert!(f.is_favorite);
}

#[test]
fn word_count_counts_words() {
    let mut rachis: Rachis = Rachis::new(1, String::from("t"), OldRachisType::NOTE, String::new(), String::from("  one two\tthree\n"));
    assert_eq!(rachis.word_count(), 3);
    assert_eq!(rachis.word_count, 0);
}

#[test]
fn rachis_type_names() {
    assert_eq!(RachisType::LOCATION.to_string(), "location");
    assert_eq!(OldRachisType::ITEM.to_string(), "item");
}

#[test]
fn first_model_types_read_back_in_any_case() {
    for t in [OldRachisType::ACT, OldRachisType::ARC, OldRachisType::SCENE, OldRachisType::DEFAULT, OldRachisType::CHARACTER, OldRachisType::EVENT, OldRachisType::LOCATION, OldRachisType::ITEM, OldRachisType::NOTE] {
        assert_eq!(OldRachisType::from_str(t.as_str()), Ok(t));
        assert_eq!(OldRachisType::from_str(&t.as_str().to_uppercase()), Ok(t));
    }
}
