use rachis::domain::rachis::RachisType;
use rachis::io::content::FileType;
use rachis::io::context::{
    content_word_count, created_rachis, entity_subdir, file_path_for, file_title, relative_to, sanitize,
    saved_is_native, scan_finder, scanned_is_native,
};
use rachis::io::finder::WalkEntry;

#[test]
fn test_sanitisation_filter() {
    let titles: Vec<(&str, &str)> = vec![
        ("Light as a Feather,", "Light as a Feather,"),
        ("But, To Me Personally,", "But, To Me Personally,"),
        ("Heavy as the Sky.", "Heavy as the Sky."),
        ("See Where I Originate", "See Where I Originate"),
        ("And My Greatest Achievements.", "And My Greatest Achievements."),
        ("Dir\\Cool Title?:*\"<YIPPEE>|", "Dir Cool Title YIPPEE"),
        ("Project/Idiot:Guy", "Project Idiot Guy"),
        ("What<ever> | You*Want?__really", "What ever You Want __really"),
        ("giant\"bugs", "giant bugs"),
    ];
    for (title, expected) in titles {
        let result: String = sanitize(title);
        println!("Original title: {title:#?}\nSanitised title: {result:#?}");
        assert_eq!(result, expected);
    }
}

#[test]
fn sanitize_collapses_whitespace_and_nul() {
    assert_eq!(sanitize("  a \t\n b\0c  "), "a b c");
    assert_eq!(sanitize(""), "");
    assert_eq!(sanitize("///"), "");
}

#[test]
fn entity_types_get_their_folders() {
    assert_eq!(entity_subdir(RachisType::CHARACTER), "Characters");
    assert_eq!(entity_subdir(RachisType::EVENT), "Events");
    assert_eq!(entity_subdir(RachisType::LOCATION), "Locations");
    assert_eq!(entity_subdir(RachisType::ITEM), "Items");
    assert_eq!(entity_subdir(RachisType::NOTE), "Notes");
    assert_eq!(entity_subdir(RachisType::SCENE), "");
    assert_eq!(entity_subdir(RachisType::DEFAULT), "");
}

#[test]
fn new_file_paths() {
    assert_eq!(
        file_path_for("Twilight Sparkle", FileType::Rachis, RachisType::CHARACTER),
        "Characters/Twilight Sparkle.rachis"
    );
    assert_eq!(file_path_for("Sonder: Part 1", FileType::Markdown, RachisType::SCENE), "Sonder Part 1.md");
    assert_eq!(file_path_for("Sonder", FileType::Rachis, RachisType::DEFAULT), "Sonder.rachis");
    assert_eq!(file_title(&file_path_for("Sonder", FileType::Rachis, RachisType::DEFAULT)), "Sonder");
    assert_eq!(file_title(&file_path_for("Vivisection", FileType::Markdown, RachisType::NOTE)), "Vivisection");
}

#[test]
fn created_rachis_payload() {
    let r = created_rachis(7, "Twilight Sparkle", RachisType::CHARACTER, "Characters/Twilight Sparkle.rachis".to_string());
    assert_eq!(*r.id(), 7);
    assert_eq!(*r.flight_id(), 0);
    assert_eq!(r.title(), "Twilight Sparkle");
    assert_eq!(*r.rachis_type(), RachisType::CHARACTER);
    assert_eq!(r.path(), "Characters/Twilight Sparkle.rachis");
    assert!(r.tags().is_empty());
    assert_eq!(r.word_count(), 0);
}

#[test]
fn indexed_file_facts() {
    assert_eq!(file_title("/flight/notes/ideas.md"), "ideas");
    assert_eq!(file_title("/"), "untitled");
    assert!(scanned_is_native("/flight/a.RACHIS"));
    assert!(!scanned_is_native("/flight/a.md"));
    assert!(saved_is_native("Characters/x.Rachis"));
    assert!(!saved_is_native("x"));
    assert_eq!(content_word_count("I woke up at 4:30 in the morning today."), 9);
    assert_eq!(content_word_count("   "), 0);
    assert_eq!(relative_to("/flight/bub/deep/deeply.rachis", "/flight"), "bub/deep/deeply.rachis");
    assert_eq!(relative_to("/elsewhere/x.md", "/flight"), "/elsewhere/x.md");
}

#[test]
fn scan_walk_skips_hidden_and_flight_files() {
    let f = scan_finder("/flight").unwrap();
    assert_eq!(f.path(), "/flight");
    let file = |path: &str, name: &str, ext: Option<&str>| WalkEntry {
        path: path.to_string(),
        name: name.to_string(),
        is_dir: false,
        extension: ext.map(|e| e.to_string()),
    };
    assert!(f.is_allowed(&file("/flight/a.rachis", "a.rachis", Some("rachis"))));
    assert!(!f.is_allowed(&file("/flight/Test.flight", "Test.flight", Some("flight"))));
    assert!(!f.is_allowed(&file("/flight/Test.flight-wal", "Test.flight-wal", Some("flight-wal"))));
    assert!(!f.is_allowed(&file("/flight/.secret", ".secret", None)));
    let dir = WalkEntry { path: "/flight/.obsidian".to_string(), name: ".obsidian".to_string(), is_dir: true, extension: None };
    assert!(!f.is_allowed(&dir));
}

#[test]
fn sanitizing_twice_changes_nothing() {
    for title in ["What<ever> | You*Want?__really", "  a\t\tb  ", "Dir\\Cool Title?:*\"<YIPPEE>|", ""] {
        let once = sanitize(title);
        assert_eq!(sanitize(&once), once);
        assert!(!once.starts_with(' ') && !once.ends_with(' ') && !once.contains("  "));
    }
}
