use rachis::io::finder::{Finder, FinderResult, WalkEntry};

fn file(path: &str, name: &str, ext: Option<&str>) -> WalkEntry {
    WalkEntry { path: path.to_string(), name: name.to_string(), is_dir: false, extension: ext.map(|e| e.to_string()) }
}

fn dir(path: &str, name: &str) -> WalkEntry {
    WalkEntry { path: path.to_string(), name: name.to_string(), is_dir: true, extension: None }
}

#[test]
fn plain_finder_allows_everything() {
    let f = Finder::new("/root");
    assert!(f.is_allowed(&file("/root/.a", ".a", None)));
    assert!(f.is_allowed(&dir("/root/.git", ".git")));
    assert!(f.include_in_result(&dir("/root/x", "x")));
    assert_eq!(f.max_depth(), None);
}

#[test]
fn skip_hidden_files_excludes_dotfiles_only() {
    let mut f = Finder::new("/root");
    f.skip_hidden_files();
    assert!(!f.is_allowed(&file("/root/.a.md", ".a.md", Some("md"))));
    assert!(f.is_allowed(&file("/root/a.md", "a.md", Some("md"))));
    assert!(f.is_allowed(&dir("/root/.git", ".git")));
}

#[test]
fn skip_hidden_covers_directories() {
    let mut f = Finder::new("/root");
    f.skip_hidden().depth(3);
    assert!(!f.is_allowed(&dir("/root/.git", ".git")));
    assert!(!f.is_allowed(&file("/root/.a", ".a", None)));
    assert_eq!(f.max_depth(), Some(3));
}

#[test]
fn skip_files_and_dirs() {
    let mut f = Finder::new("/root");
    f.skip_files().skip_dirs();
    assert!(!f.is_allowed(&file("/root/a.md", "a.md", Some("md"))));
    assert!(f.is_allowed(&dir("/root/sub", "sub")));
    assert!(!f.include_in_result(&dir("/root/sub", "sub")));
}

#[test]
fn extension_filter_is_exact() {
    let mut f = Finder::new("/root");
    f.skip_hidden().extensions(&["rachis", "md"]);
    assert!(f.is_allowed(&file("/root/a.rachis", "a.rachis", Some("rachis"))));
    assert!(f.is_allowed(&file("/root/a.md", "a.md", Some("md"))));
    assert!(!f.is_allowed(&file("/root/a.RACHIS", "a.RACHIS", Some("RACHIS"))));
    assert!(!f.is_allowed(&file("/root/a", "a", None)));
    assert!(f.is_allowed(&dir("/root/sub", "sub")));
}

#[test]
fn exclude_patterns() {
    let mut f = Finder::new("/root");
    f.exclude_pattern(r"\.tmp$");
    assert!(!f.is_allowed(&file("/root/a.tmp", "a.tmp", Some("tmp"))));
    assert!(f.is_allowed(&file("/root/a.md", "a.md", Some("md"))));
    let mut g = Finder::new("/root");
    assert!(g.try_exclude_pattern("(unclosed").is_err());
    assert!(g.is_allowed(&file("/root/(unclosed", "(unclosed", None)));
}

#[test]
fn records_and_counts() {
    let mut f = Finder::new("/root");
    let mut result = FinderResult::new();
    f.record(&mut result, &file("/root/a.md", "a.md", Some("md")));
    f.record(&mut result, &dir("/root/sub", "sub"));
    assert_eq!(result.files, vec!["/root/a.md".to_string()]);
    assert_eq!(result.directories, vec!["/root/sub".to_string()]);
    assert_eq!(result.count(), 2);
    f.skip_dirs();
    f.record(&mut result, &dir("/root/other", "other"));
    assert_eq!(result.count(), 2);
    result.add_file("/root/b.md");
    result.add_dir("/root/c");
    assert_eq!(result.count(), 4);
    assert_eq!(FinderResult::default(), FinderResult::new());
}

#[test]
fn collect_keeps_visible_files_with_a_listed_extension() {
    let mut f = Finder::new("/r");
    f.skip_hidden().extensions(&["rachis"]);
    let walked: Vec<WalkEntry> = vec![
        dir("/r", "r"),
        file("/r/a.rachis", "a.rachis", Some("rachis")),
        file("/r/.b.rachis", ".b.rachis", Some("rachis")),
        file("/r/c.md", "c.md", Some("md")),
        file("/r/d", "d", None),
        dir("/r/.git", ".git"),
        dir("/r/sub", "sub"),
        file("/r/sub/e.rachis", "e.rachis", Some("rachis")),
    ];
    let r: FinderResult = f.collect(&walked);
    assert_eq!(r.files, vec!["/r/a.rachis".to_string(), "/r/sub/e.rachis".to_string()]);
    assert_eq!(r.directories, vec!["/r".to_string(), "/r/sub".to_string()]);

    let mut g = Finder::new("/r");
    g.skip_dirs();
    let r: FinderResult = g.collect(&walked);
    assert_eq!(r.files.len(), 5);
    assert!(r.directories.is_empty());
}
