use rachis::ids::NIL_ID;
use rachis::registry::{
    entry_report, is_at_cached_path, EntryOutcome, metadata_matches, CachedFlight, ReconcileReport, ReconcileStatus,
    Registry, RegistryEntry, RegistryEntryPatch, ScanPath, CURRENT_VERSION,
};
use rachis::time::Timestamp;

fn new_id() -> u128 {
    uuid::Uuid::new_v4().as_u128()
}

fn parse_id(s: &str) -> Result<u128, uuid::Error> {
    uuid::Uuid::try_parse(s).map(|u| u.as_u128())
}

fn id_to_string(id: u128) -> String {
    uuid::Uuid::from_u128(id).to_string()
}

fn now() -> Timestamp {
    let t = chrono::Utc::now();
    Timestamp { secs: t.timestamp(), nanos: t.timestamp_subsec_nanos() }
}

/// Waits until the clock has moved on by a little.
fn wait_a_moment() {
    let start = std::time::Instant::now();
    while start.elapsed() < std::time::Duration::from_millis(10) {}
}

fn entry(id: u128, name: &str, path: &str) -> RegistryEntry {
    let t: Timestamp = now();
    RegistryEntry {
        id,
        name: name.to_string(),
        path: path.to_string(),
        is_favorite: false,
        last_opened_at: t,
        created_at: t,
        word_count: 0,
    }
}

#[test]
fn test_new_registry_is_empty() {
    let reg: Registry = Registry::new();
    println!("Registry: {reg:#?}");
    println!("Registry count: {:?}", reg.list().len());
    assert_eq!(reg.list().len(), 0);
    assert_eq!(reg.list().iter().map(|e| e.word_count).sum::<u32>(), 0);
    println!("Registry most recent: {:?}", reg.most_recent());
    assert!(reg.most_recent().is_none());
}

#[test]
fn test_add_flight() {
    let mut reg: Registry = Registry::new();
    let entry: RegistryEntry =
        reg.add_entry("Ad Eternum", "/home/user/ad_eternum", new_id()).expect("Failed to add flight");
    println!("Entry: {entry:#?}");
    assert_eq!(entry.name, "Ad Eternum");
    assert_eq!(entry.path, "/home/user/ad_eternum");
    assert!(!entry.is_favorite);
    assert_eq!(reg.list().len(), 1);
}

#[test]
fn test_add_flight_empty_name() {
    let mut reg: Registry = Registry::new();
    let result: Result<RegistryEntry, String> = reg.add_entry("   ", "/path", new_id());
    println!("Result: {result:#?}");
    assert!(result.is_err());
    assert!(result.unwrap_err().contains("empty"));
}

#[test]
fn test_add_flight_duplicate_path() {
    let mut reg: Registry = Registry::new();
    reg.add_entry("Project A", "/path", new_id()).expect("Failed to add first flight");
    let result: Result<RegistryEntry, String> = reg.add_entry("Project B", "/path", new_id());
    println!("Result: {result:#?}");
    assert!(result.is_err());
    assert!(result.unwrap_err().contains("already exists"));
}

#[test]
fn test_remove_flight() {
    let mut reg: Registry = Registry::new();
    let entry: RegistryEntry = reg.add_entry("Test", "/test", new_id()).expect("Failed to add flight");
    println!("Entry:\n{entry:#?}");
    assert_eq!(reg.list().len(), 1);
    let removed: bool = reg.remove_entry(entry.id);
    println!("Removed: {removed:#?}");
    assert!(removed);
    assert_eq!(reg.list().len(), 0);
    let not_removed: bool = reg.remove_entry(new_id());
    assert!(!not_removed);
}

#[test]
fn test_toggle_favorite() {
    let mut reg: Registry = Registry::new();
    let id: u128 = new_id();
    reg.add_entry("Test", "/test", id).expect("Failed to add flight");
    let entry: &RegistryEntry = reg.get(id).expect("Entry should exist");
    println!("Entry is_favorite: {:?}", entry.is_favorite);
    assert!(!entry.is_favorite);
    reg.update(id, RegistryEntryPatch { is_favorite: Some(true), ..Default::default() })
        .expect("Failed to toggle favorite");
    let entry: &RegistryEntry = reg.get(id).expect("Entry should exist");
    assert!(entry.is_favorite);
    let favourites: Vec<&RegistryEntry> = reg.list().iter().filter(|e| e.is_favorite).collect();
    println!("Favorites in registry: {favourites:#?}");
    assert_eq!(favourites.len(), 1);
    reg.update(id, RegistryEntryPatch { is_favorite: Some(false), ..Default::default() })
        .expect("Failed to toggle favorite");
    let entry: &RegistryEntry = reg.get(id).expect("Entry should exist");
    assert!(!entry.is_favorite);
    let favourites: Vec<&RegistryEntry> = reg.list().iter().filter(|e| e.is_favorite).collect();
    println!("Favorites in registry: {favourites:#?}");
    assert!(favourites.is_empty());
}

#[test]
fn test_most_recent() {
    let mut reg: Registry = Registry::new();
    let first: RegistryEntry = reg.add_entry("First", "/first", new_id()).expect("Failed to add first");
    let second: RegistryEntry = reg.add_entry("Second", "/second", new_id()).expect("Failed to add second");
    let recent: &RegistryEntry = reg.most_recent().expect("No recent flight");
    println!("Recent flight: {recent:#?}");
    assert_eq!(recent.id, second.id);
    wait_a_moment();
    reg.update(first.id, RegistryEntryPatch { bump_last_opened: true, ..Default::default() })
        .expect("Failed to update last opened");
    let recent: &RegistryEntry = reg.most_recent().expect("No recent flight");
    println!("Recent flight: {recent:#?}");
    assert_eq!(recent.id, first.id);
}

#[test]
fn test_search() {
    let mut reg: Registry = Registry::new();
    reg.add_entry("Ad Eternum", "/ad_eternum", new_id()).expect("Failed to add");
    reg.add_entry("SE7ENFOLD", "/se7enfold", new_id()).expect("Failed to add");
    reg.add_entry("Sonder", "/sonder", new_id()).expect("Failed to add");
    let results: Vec<&RegistryEntry> = reg.search_by_name("sonder");
    println!("Results for query 'sonder': {results:#?}");
    assert_eq!(results.len(), 1);
    assert_eq!(results[0].name, "Sonder");
    let results: Vec<&RegistryEntry> = reg.search_by_name("SE7EN");
    println!("Results for query 'SE7EN': {results:#?}");
    assert_eq!(results.len(), 1);
    let results: Vec<&RegistryEntry> = reg.search_by_name("n");
    println!("Results for query 'n': {results:#?}");
    assert_eq!(results.len(), 3);
}

#[test]
fn test_validation_nil_uuid() {
    let reg: Registry = Registry::from_parts(CURRENT_VERSION, vec![entry(NIL_ID, "NilUuid", "/nil_uuid")], vec![]);
    println!("Registry after adding nil UUID: {reg:#?}");
    let result: Result<(), String> = reg.is_valid();
    println!("Validation result: {result:#?}");
    assert!(result.is_err());
    assert!(result.unwrap_err().contains("nil UUID"));
}

#[test]
fn test_validation_duplicate_id() {
    let id: u128 = new_id();
    let reg: Registry =
        Registry::from_parts(CURRENT_VERSION, vec![entry(id, "First", "/first"), entry(id, "Second", "/second")], vec![]);
    println!("Registry after adding second entry: {reg:#?}");
    let result: Result<(), String> = reg.is_valid();
    println!("Validation result: {result:#?}");
    assert!(result.is_err());
    assert!(result.unwrap_err().contains("Duplicate"));
}

#[test]
fn test_default() {
    let reg: Registry = Default::default();
    assert_eq!(reg.version(), 1);
    assert!(reg.list().is_empty());
    let entry: RegistryEntry = Default::default();
    assert!(entry.id != NIL_ID);
    assert_eq!(entry.name, "");
    assert_eq!(entry.path, "");
    assert!(!entry.is_favorite);
    assert_ne!(entry.last_opened_at, Timestamp { secs: 0, nanos: 0 });
    assert_ne!(entry.created_at, Timestamp { secs: 0, nanos: 0 });
    assert_eq!(entry.word_count, 0);
}

#[test]
fn add_entry_trims_and_records_scan_path() {
    let mut reg: Registry = Registry::new();
    let id: u128 = new_id();
    let e = reg.add_entry("  Sonder \t", "  /stories/sonder ", id).unwrap();
    assert_eq!(e.name, "Sonder");
    assert_eq!(e.path, "/stories/sonder");
    assert_eq!(e.created_at, e.last_opened_at);
    assert_eq!(reg.scan_paths().len(), 1);
    assert_eq!(reg.scan_paths()[0].path, "/stories/sonder");
    assert_eq!(reg.get(id).unwrap().name, "Sonder");
}

#[test]
fn add_entry_error_messages() {
    let mut reg: Registry = Registry::new();
    let id: u128 = parse_id("67e55044-10b1-426f-9247-bb680e5fe0c8").unwrap();
    assert_eq!(reg.add_entry("", "/a", id).unwrap_err(), "Flight name must not be empty.");
    assert_eq!(reg.add_entry("A", " ", id).unwrap_err(), "Flight path must not be empty.");
    reg.add_entry("A", "/a", id).unwrap();
    assert_eq!(
        reg.add_entry("B", "/b", id).unwrap_err(),
        "A Flight already exists with id: 67e55044-10b1-426f-9247-bb680e5fe0c8"
    );
    assert_eq!(reg.add_entry("B", "/a", new_id()).unwrap_err(), "A Flight already exists at path: \"/a\"");
    assert_eq!(reg.list().len(), 1);
    assert_eq!(reg.scan_paths().len(), 1);
}

#[test]
fn add_entry_does_not_repeat_a_scan_path() {
    let mut reg: Registry = Registry::new();
    reg.add_scan_path("/a", true).unwrap();
    reg.add_entry("A", "/a", new_id()).unwrap();
    assert_eq!(reg.scan_paths().len(), 1);
}

#[test]
fn added_registry_stays_valid() {
    let mut reg: Registry = Registry::new();
    reg.add_entry("Alphabet Coup", "/alphabet_coup", new_id()).unwrap();
    reg.add_entry("Vivisection", "/vivisection", new_id()).unwrap();
    assert!(reg.is_valid().is_ok());
}

#[test]
fn validation_messages() {
    let id: u128 = parse_id("67e55044-10b1-426f-9247-bb680e5fe0c8").unwrap();
    let bad_version = Registry::from_parts(2, vec![], vec![]);
    assert_eq!(bad_version.is_valid().unwrap_err(), "Unsupported registry version: 2. Expected version 1.");
    let zero_version = Registry::from_parts(0, vec![], vec![]);
    assert_eq!(zero_version.is_valid().unwrap_err(), "Unsupported registry version: 0. Expected version 1.");
    let blank_name = Registry::from_parts(1, vec![entry(id, "  ", "/p")], vec![]);
    assert_eq!(blank_name.is_valid().unwrap_err(), "Flight 67e55044-10b1-426f-9247-bb680e5fe0c8 has an empty name.");
    let blank_path = Registry::from_parts(1, vec![entry(id, "N", "")], vec![]);
    assert_eq!(
        blank_path.is_valid().unwrap_err(),
        "Flight \"N\" (67e55044-10b1-426f-9247-bb680e5fe0c8) has an empty path."
    );
    let dup_path = Registry::from_parts(1, vec![entry(new_id(), "M", "/p"), entry(id, "N", "/p")], vec![]);
    assert_eq!(
        dup_path.is_valid().unwrap_err(),
        "Duplicate path found for Flight \"N\" (67e55044-10b1-426f-9247-bb680e5fe0c8): \"/p\""
    );
    let dup_id = Registry::from_parts(1, vec![entry(id, "M", "/p"), entry(id, "N", "/q")], vec![]);
    assert_eq!(dup_id.is_valid().unwrap_err(), "Duplicate Flight ID found: 67e55044-10b1-426f-9247-bb680e5fe0c8");
}

#[test]
fn update_applies_only_given_fields() {
    let mut reg: Registry = Registry::new();
    let id: u128 = new_id();
    let before = reg.add_entry("Old", "/old", id).unwrap();
    let after = reg
        .update(
            id,
            RegistryEntryPatch {
                name: Some("  New ".to_string()),
                path: Some("   ".to_string()),
                word_count: Some(42),
                ..Default::default()
            },
        )
        .unwrap();
    assert_eq!(after.name, "New");
    assert_eq!(after.path, "/old");
    assert_eq!(after.word_count, 42);
    assert_eq!(after.last_opened_at, before.last_opened_at);
    assert_eq!(reg.get(id).unwrap().name, "New");
}

#[test]
fn update_of_missing_flight_fails() {
    let mut reg: Registry = Registry::new();
    let id: u128 = parse_id("67e55044-10b1-426f-9247-bb680e5fe0c8").unwrap();
    assert_eq!(
        reg.update(id, RegistryEntryPatch::default()).unwrap_err(),
        "Flight not found: 67e55044-10b1-426f-9247-bb680e5fe0c8"
    );
}

#[test]
fn most_recent_prefers_the_last_of_equal_times() {
    let t = Timestamp { secs: 100, nanos: 5 };
    let a = RegistryEntry { last_opened_at: t, ..entry(new_id(), "A", "/a") };
    let b = RegistryEntry { last_opened_at: t, ..entry(new_id(), "B", "/b") };
    let c = RegistryEntry { last_opened_at: Timestamp { secs: 99, nanos: 999 }, ..entry(new_id(), "C", "/c") };
    let b_id = b.id;
    let reg = Registry::from_parts(1, vec![a, b, c], vec![]);
    assert_eq!(reg.most_recent().unwrap().id, b_id);
}

#[test]
fn scan_paths_add_and_remove() {
    let mut reg: Registry = Registry::new();
    assert_eq!(reg.add_scan_path("/nowhere", false).unwrap_err(), "Path is not a directory");
    assert!(reg.scan_paths().is_empty());
    reg.add_scan_path("/stories", true).unwrap();
    reg.add_scan_path("/stories/", true).unwrap();
    reg.add_scan_path("/other", true).unwrap();
    assert_eq!(reg.scan_paths().len(), 3);
    assert!(reg.remove_scan_path("/stories"));
    assert_eq!(reg.scan_paths().len(), 1);
    assert_eq!(reg.scan_paths()[0].path, "/other");
    assert!(!reg.remove_scan_path("/stories"));
}

#[test]
fn scan_path_new_keeps_the_text() {
    assert_eq!(ScanPath::new("/a/b").path, "/a/b");
}

#[test]
fn reconcile_reports() {
    let id: u128 = new_id();
    let other: u128 = new_id();
    let e = entry(id, "My Novel", "/old");
    let here = CachedFlight::Expected { metadata_id: id_to_string(id) };
    assert!(is_at_cached_path(id, &here));
    let r: ReconcileReport = entry_report(&e, &here, &None);
    assert_eq!(r.id, id);
    assert_eq!(r.name, "My Novel");
    assert!(matches!(r.status, ReconcileStatus::Found));

    let r = entry_report(&e, &CachedFlight::Missing, &Some("/new".to_string()));
    match r.status {
        ReconcileStatus::Moved { old_path, new_path } => {
            assert_eq!(old_path, "/old");
            assert_eq!(new_path, "/new");
        }
        _ => panic!("expected Moved"),
    }

    let r = entry_report(&e, &CachedFlight::Missing, &None);
    assert!(matches!(r.status, ReconcileStatus::Mismatch { mismatched_id: None, .. }));

    let r = entry_report(&e, &CachedFlight::Expected { metadata_id: id_to_string(other) }, &None);
    match r.status {
        ReconcileStatus::Mismatch { path, mismatched_id } => {
            assert_eq!(path, "/old");
            assert_eq!(mismatched_id, Some(other));
        }
        _ => panic!("expected Mismatch"),
    }

    let r = entry_report(&e, &CachedFlight::Other { metadata_id: Some(id_to_string(id)) }, &None);
    assert!(matches!(r.status, ReconcileStatus::Mismatch { mismatched_id: Some(x), .. } if x == id));

    let r = entry_report(&e, &CachedFlight::Other { metadata_id: Some("garbage".to_string()) }, &None);
    assert!(matches!(r.status, ReconcileStatus::Mismatch { mismatched_id: None, .. }));
}

#[test]
fn metadata_matches_hyphenated_text() {
    let id: u128 = parse_id("67e55044-10b1-426f-9247-bb680e5fe0c8").unwrap();
    assert!(metadata_matches(id, "67e55044-10b1-426f-9247-bb680e5fe0c8"));
    assert!(!metadata_matches(id, "67e5504410b1426f9247bb680e5fe0c8"));
}

#[test]
fn moves_and_discoveries() {
    let mut reg: Registry = Registry::new();
    let id: u128 = new_id();
    reg.add_entry("Bori", "/bor", id).unwrap();
    reg.apply_moves(&vec![(id, "/bori".to_string()), (new_id(), "/x".to_string())]);
    assert_eq!(reg.get(id).unwrap().path, "/bori");
    assert_eq!(reg.list().len(), 1);

    assert!(reg.discovered_report("/bori", &id_to_string(id), "Bori").unwrap().is_none());
    let fresh: u128 = new_id();
    let rep = reg.discovered_report("/aurora", &id_to_string(fresh), "Aurora").unwrap().unwrap();
    assert_eq!(rep.id, fresh);
    assert_eq!(rep.name, "Aurora");
    match rep.status {
        ReconcileStatus::Discovered { path, flight_id } => {
            assert_eq!(path, "/aurora");
            assert_eq!(flight_id, fresh);
        }
        _ => panic!("expected Discovered"),
    }
    assert_eq!(reg.discovered_report("/x", "not a uuid", "X").unwrap_err(), "failed to parse a UUID");
}

#[test]
fn list_mut_changes_entries_in_place() {
    let mut reg: Registry = Registry::new();
    let id: u128 = new_id();
    reg.add_entry("A", "/a", id).unwrap();
    reg.list_mut()[0].word_count = 12;
    assert_eq!(reg.get(id).unwrap().word_count, 12);
}

#[test]
fn removing_and_updating_keep_a_registry_valid() {
    let mut reg: Registry = Registry::new();
    let a: u128 = new_id();
    let b: u128 = new_id();
    reg.add_entry("A", "/a", a).unwrap();
    reg.add_entry("B", "/b", b).unwrap();
    assert!(reg.remove_entry(a));
    assert!(reg.get(a).is_none());
    assert!(reg.is_valid().is_ok());
    reg.update(b, RegistryEntryPatch { name: Some("B two".to_string()), is_favorite: Some(true), ..Default::default() })
        .unwrap();
    assert!(reg.is_valid().is_ok());
}

#[test]
fn empty_patch_changes_nothing() {
    let mut reg: Registry = Registry::new();
    let id: u128 = new_id();
    let before = reg.add_entry("Same", "/same", id).unwrap();
    let after = reg.update(id, RegistryEntryPatch::default()).unwrap();
    assert_eq!(after.name, before.name);
    assert_eq!(after.path, before.path);
    assert_eq!(after.is_favorite, before.is_favorite);
    assert_eq!(after.last_opened_at, before.last_opened_at);
    assert_eq!(after.created_at, before.created_at);
    assert_eq!(after.word_count, before.word_count);
}

#[test]
fn update_may_break_path_uniqueness() {
    let mut reg: Registry = Registry::new();
    let a: u128 = new_id();
    reg.add_entry("A", "/a", a).unwrap();
    reg.add_entry("B", "/b", new_id()).unwrap();
    reg.update(a, RegistryEntryPatch { path: Some("/b".to_string()), ..Default::default() }).unwrap();
    assert!(reg.is_valid().unwrap_err().starts_with("Duplicate path found for Flight"));
}

#[test]
fn reconcile_entries_reports_and_moves_together() {
    let mut reg: Registry = Registry::new();
    let (a, b, c): (u128, u128, u128) = (new_id(), new_id(), new_id());
    reg.add_entry("Alpha", "/alpha", a).unwrap();
    reg.add_entry("Beta", "/beta", b).unwrap();
    reg.add_entry("Gamma", "/gamma", c).unwrap();
    let outcomes: Vec<EntryOutcome> = vec![
        EntryOutcome { cached: CachedFlight::Expected { metadata_id: id_to_string(a) }, found_at: None },
        EntryOutcome { cached: CachedFlight::Missing, found_at: Some("/moved".to_string()) },
        EntryOutcome { cached: CachedFlight::Missing, found_at: None },
    ];
    let reports: Vec<ReconcileReport> = reg.reconcile_entries(&outcomes);
    assert_eq!(reports.len(), 3);
    assert!(matches!(reports[0].status, ReconcileStatus::Found));
    match &reports[1].status {
        ReconcileStatus::Moved { old_path, new_path } => {
            assert_eq!(old_path, "/beta");
            assert_eq!(new_path, "/moved");
        }
        _ => panic!("expected Moved"),
    }
    assert!(matches!(reports[2].status, ReconcileStatus::Mismatch { mismatched_id: None, .. }));
    assert_eq!(reg.get(a).unwrap().path, "/alpha");
    assert_eq!(reg.get(b).unwrap().path, "/moved");
    assert_eq!(reg.get(c).unwrap().path, "/gamma");

    let again: Vec<EntryOutcome> = vec![
        EntryOutcome { cached: CachedFlight::Expected { metadata_id: id_to_string(a) }, found_at: None },
        EntryOutcome { cached: CachedFlight::Expected { metadata_id: id_to_string(b) }, found_at: None },
        EntryOutcome { cached: CachedFlight::Missing, found_at: None },
    ];
    let reports: Vec<ReconcileReport> = reg.reconcile_entries(&again);
    assert!(matches!(reports[1].status, ReconcileStatus::Found));
    assert_eq!(reg.get(b).unwrap().path, "/moved");
}
