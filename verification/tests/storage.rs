use rachis::storage::{flight_from_row, rachis_from_row, rachises_of_type, RowError};
use rachis::time::Timestamp;
use rachis::z_domain::{Rachis, RachisType};

fn new_id() -> u128 {
    uuid::Uuid::new_v4().as_u128()
}

fn id_to_string(id: u128) -> String {
    uuid::Uuid::from_u128(id).to_string()
}

#[test]
fn flight_rows_read_back() {
    let id = new_id();
    let f = flight_from_row(&id_to_string(id), "My Writing Project".to_string(), 1_700_000_000, 1_700_000_100).unwrap();
    assert_eq!(f.id, id);
    assert_eq!(f.name, "My Writing Project");
    assert_eq!(f.created_at, Timestamp { secs: 1_700_000_000, nanos: 0 });
    assert_eq!(f.updated_at, Timestamp { secs: 1_700_000_100, nanos: 0 });
    assert!(!f.is_favorite);
}

#[test]
fn flight_rows_with_bad_values() {
    assert!(matches!(flight_from_row("nope", String::new(), 0, 0), Err(RowError::BadId(_))));
    let id = id_to_string(new_id());
    assert_eq!(
        flight_from_row(&id, String::new(), i64::MAX, 0).unwrap_err(),
        RowError::InvalidParameterName("Invalid created_at timestamp".to_string())
    );
    assert_eq!(
        flight_from_row(&id, String::new(), 0, i64::MIN).unwrap_err(),
        RowError::InvalidParameterName("Invalid updated_at timestamp".to_string())
    );
}

#[test]
fn rachis_rows_read_back() {
    let (id, fid) = (new_id(), new_id());
    let r: Rachis = rachis_from_row(
        &id_to_string(id),
        &id_to_string(fid),
        "Under Guise of Stars".to_string(),
        "Once upon a time".to_string(),
        "ARC",
        "Arc 1".to_string(),
        10,
        20,
        4,
    )
    .unwrap();
    assert_eq!(r.id, id);
    assert_eq!(r.flight_id, fid);
    assert_eq!(r.title, "Under Guise of Stars");
    assert_eq!(r.content, "Once upon a time");
    assert_eq!(r.rachis_type, RachisType::ARC);
    assert_eq!(r.path, "Arc 1");
    assert_eq!(r.created_at, Timestamp { secs: 10, nanos: 0 });
    assert_eq!(r.updated_at, Timestamp { secs: 20, nanos: 0 });
    assert_eq!(r.word_count, 4);
}

#[test]
fn rachis_rows_with_bad_values() {
    let (id, fid) = (id_to_string(new_id()), id_to_string(new_id()));
    let row = |id: &str, fid: &str, t: &str, c: i64| {
        rachis_from_row(id, fid, String::new(), String::new(), t, String::new(), c, 0, 0)
    };
    assert!(matches!(row("x", &fid, "arc", 0), Err(RowError::BadId(_))));
    assert!(matches!(row(&id, "y", "arc", 0), Err(RowError::BadId(_))));
    assert_eq!(row(&id, &fid, "villain", 0).unwrap_err(), RowError::InvalidParameterName("Invalid RachisType".to_string()));
    assert_eq!(
        row(&id, &fid, "arc", i64::MAX).unwrap_err(),
        RowError::InvalidParameterName("Invalid created_at timestamp".to_string())
    );
}

#[test]
fn rachises_filtered_by_type() {
    let make = |t: RachisType, title: &str| Rachis::new(1, title.to_string(), t, String::new(), String::new());
    let all = vec![make(RachisType::ARC, "a"), make(RachisType::CHARACTER, "b"), make(RachisType::ARC, "c")];
    let arcs = rachises_of_type(all, Some(RachisType::ARC));
    assert_eq!(arcs.iter().map(|r| r.title.clone()).collect::<Vec<String>>(), vec!["a", "c"]);
    let all = vec![make(RachisType::NOTE, "x"), make(RachisType::ITEM, "y")];
    assert_eq!(rachises_of_type(all, None).len(), 2);
}
