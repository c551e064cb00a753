use rustdirlister::clock::Timestamp;
use rustdirlister::listing::{
    element_for, element_with, name_matches, search_needle, within_time_limit, Catalog, ElementInfo, ElementKind,
    EntryMeta, SearchControl, SearchState,
};

fn file(size: u64) -> Option<EntryMeta> {
    Some(EntryMeta { is_file: true, size, modified: Timestamp { secs: 0, nanos: 0 } })
}

fn dir() -> Option<EntryMeta> {
    Some(EntryMeta { is_file: false, size: 4096, modified: Timestamp { secs: 0, nanos: 0 } })
}

#[test]
fn elements_for_files_and_dirs() {
    let d = element_for(false, 4096, Timestamp::unix_epoch()).unwrap();
    assert!(matches!(d.kind, ElementKind::Dir));
    assert_eq!(d.size, 0);
    assert_eq!(d.modified, "");
    assert_eq!(d.el_type(), "Dir");
    let f = element_for(true, 12, Timestamp::unix_epoch()).unwrap();
    assert!(matches!(f.kind, ElementKind::File));
    assert_eq!(f.size, 12);
    assert_eq!(f.modified.chars().count(), 19);
    assert_eq!(f.el_type(), "File");
    assert!(element_for(true, 1, Timestamp { secs: i64::MAX, nanos: 0 }).is_none());
    assert_eq!(ElementInfo::dir().modified, "");
}

#[test]
fn catalog_sorts_by_kind() {
    let mut c = Catalog::new();
    c.record("a".to_string(), element_for(true, 1, Timestamp::unix_epoch()).unwrap());
    c.record("b".to_string(), ElementInfo::dir());
    c.record("a".to_string(), element_for(true, 2, Timestamp::unix_epoch()).unwrap());
    assert_eq!(c.files.len(), 1);
    assert_eq!(c.dirs.len(), 1);
    assert_eq!(c.files.get(&"a".to_string()).unwrap().size, 2);
}

#[test]
fn needle_of_query() {
    assert_eq!(search_needle("  \t"), None);
    assert_eq!(search_needle(""), None);
    assert_eq!(search_needle(" ReadMe ").as_deref(), Some(" readme "));
}

#[test]
fn names_match_case_insensitively() {
    assert!(name_matches("README.md", "readme"));
    assert!(name_matches("Übersicht.txt", "über"));
    assert!(!name_matches("notes.txt", "readme"));
    assert!(within_time_limit(2));
    assert!(!within_time_limit(3));
}

#[test]
fn needle_with_capitals_matches_nothing() {
    assert!(!name_matches("README.md", "README"));
    assert!(!name_matches("Docs", "D"));
    let mut s = SearchState::new("Doc".to_string());
    assert!(!s.admits("Doc"));
    assert!(matches!(s.step("Doc".to_string(), 0, dir()), SearchControl::Continue));
    assert_eq!(s.count, 0);
    assert_eq!(s.found.dirs.len(), 0);
}

#[test]
fn search_records_matching_entries() {
    let mut s = SearchState::new("doc".to_string());
    assert!(matches!(s.step("Docs".to_string(), 0, dir()), SearchControl::Continue));
    assert!(matches!(s.step("doc.txt".to_string(), 1, file(7)), SearchControl::Continue));
    assert!(matches!(s.step("other".to_string(), 1, file(7)), SearchControl::Continue));
    assert_eq!(s.count, 2);
    assert_eq!(s.found.dirs.len(), 1);
    assert_eq!(s.found.files.get(&"doc.txt".to_string()).unwrap().size, 7);
    assert!(s.admits("MYDOC"));
    assert!(!s.admits("other"));
}

#[test]
fn search_stops_after_too_long() {
    let mut s = SearchState::new("a".to_string());
    assert!(matches!(s.step("a1".to_string(), 3, file(1)), SearchControl::Stop));
    assert_eq!(s.count, 0);
    assert_eq!(s.found.files.len(), 0);
}

#[test]
fn search_stops_without_metadata() {
    let mut s = SearchState::new("a".to_string());
    assert!(matches!(s.step("a1".to_string(), 0, None), SearchControl::Stop));
    assert_eq!(s.count, 0);
}

#[test]
fn search_faults_on_unrenderable_time() {
    let mut s = SearchState::new("a".to_string());
    let meta = Some(EntryMeta { is_file: true, size: 1, modified: Timestamp { secs: i64::MAX, nanos: 0 } });
    assert!(matches!(s.step("a1".to_string(), 0, meta), SearchControl::Fault));
    assert_eq!(s.count, 0);
}

#[test]
fn search_stops_after_twenty_six_entries() {
    let mut s = SearchState::new("x".to_string());
    for i in 0..25 {
        assert!(matches!(s.step(format!("x{i}"), 0, dir()), SearchControl::Continue));
    }
    assert!(matches!(s.step("x25".to_string(), 0, dir()), SearchControl::Stop));
    assert_eq!(s.count, 26);
    assert_eq!(s.found.dirs.len(), 26);
}

#[test]
fn elements_with_rendered_times() {
    let f = element_with(true, 9, Some("2024-01-02 03-04-05".to_string())).unwrap();
    assert!(matches!(f.kind, ElementKind::File));
    assert_eq!(f.size, 9);
    assert_eq!(f.modified, "2024-01-02 03-04-05");
    assert!(element_with(true, 9, None).is_none());
    let d = element_with(false, 9, Some("x".to_string())).unwrap();
    assert!(matches!(d.kind, ElementKind::Dir));
    assert_eq!(d.size, 0);
    assert_eq!(d.modified, "");
}
