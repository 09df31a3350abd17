use starsearch::ntfs_search::{LoadAction, LoadEvent, LocalNtfsSearcher};
use starsearch::types::FileEntry;

fn entry(name: &str) -> FileEntry {
    FileEntry {
        name: name.to_string(),
        path: format!("C:\\{}", name),
        extension: String::new(),
        size: 1,
        modified: 2,
        is_dir: false,
        drive: 'C',
        score: 0,
    }
}

#[test]
fn new_catalog_is_empty_and_not_ready() {
    let searcher = LocalNtfsSearcher::new();
    assert!(!searcher.is_ready());
    assert_eq!(searcher.len(), 0);
    assert!(searcher.entries().is_empty());
}

#[test]
fn cache_hit_ends_the_load_without_a_scan() {
    let mut searcher = LocalNtfsSearcher::new();
    assert_eq!(searcher.load_all_drives(LoadEvent::Requested), LoadAction::ReadCache);
    assert!(!searcher.is_ready());
    let action = searcher.load_all_drives(LoadEvent::CacheRead(vec![entry("a"), entry("b")]));
    assert_eq!(action, LoadAction::Done);
    assert!(searcher.is_ready());
    assert_eq!(searcher.len(), 2);
    assert_eq!(searcher.entries()[1].name, "b");
}

#[test]
fn cache_miss_asks_for_a_scan_and_persists_it() {
    let mut searcher = LocalNtfsSearcher::new();
    searcher.load_all_drives(LoadEvent::Requested);
    assert_eq!(searcher.load_all_drives(LoadEvent::CacheRead(Vec::new())), LoadAction::ScanDrives);
    assert!(!searcher.is_ready());
    assert_eq!(searcher.load_all_drives(LoadEvent::Scanned(vec![entry("x")])), LoadAction::Persist);
    assert!(searcher.is_ready());
    assert_eq!(searcher.len(), 1);
}

#[test]
fn empty_scan_is_ready_but_not_persisted() {
    let mut searcher = LocalNtfsSearcher::new();
    searcher.load_all_drives(LoadEvent::Requested);
    searcher.load_all_drives(LoadEvent::CacheRead(Vec::new()));
    assert_eq!(searcher.load_all_drives(LoadEvent::Scanned(Vec::new())), LoadAction::Done);
    assert!(searcher.is_ready());
    assert_eq!(searcher.len(), 0);
}

#[test]
fn ready_catalog_is_not_loaded_again() {
    let mut searcher = LocalNtfsSearcher::new();
    searcher.load_all_drives(LoadEvent::Requested);
    searcher.load_all_drives(LoadEvent::CacheRead(vec![entry("kept")]));
    assert_eq!(searcher.load_all_drives(LoadEvent::Requested), LoadAction::Done);
    assert_eq!(
        searcher.load_all_drives(LoadEvent::CacheRead(vec![entry("late")])),
        LoadAction::Ignored
    );
    assert_eq!(searcher.load_all_drives(LoadEvent::Scanned(Vec::new())), LoadAction::Ignored);
    assert!(searcher.is_ready());
    assert_eq!(searcher.len(), 1);
    assert_eq!(searcher.entries()[0].name, "kept");
}

#[test]
fn events_out_of_turn_are_ignored() {
    let mut searcher = LocalNtfsSearcher::new();
    assert_eq!(searcher.load_all_drives(LoadEvent::Scanned(vec![entry("early")])), LoadAction::Ignored);
    assert_eq!(searcher.load_all_drives(LoadEvent::CacheRead(vec![entry("early")])), LoadAction::Ignored);
    assert!(!searcher.is_ready());
    assert_eq!(searcher.len(), 0);
    searcher.load_all_drives(LoadEvent::Requested);
    assert_eq!(searcher.load_all_drives(LoadEvent::Requested), LoadAction::Ignored);
    assert!(!searcher.is_ready());
}

#[test]
fn drives_are_the_set_bits_from_c_upwards() {
    assert_eq!(LocalNtfsSearcher::get_all_drives(0), Vec::<char>::new());
    assert_eq!(LocalNtfsSearcher::get_all_drives(0b0011), Vec::<char>::new());
    assert_eq!(LocalNtfsSearcher::get_all_drives(0b1101), vec!['C', 'D']);
    assert_eq!(LocalNtfsSearcher::get_all_drives(1 << 25), vec!['Z']);
    assert_eq!(LocalNtfsSearcher::get_all_drives(1 << 26), Vec::<char>::new());
    assert_eq!(LocalNtfsSearcher::get_all_drives((1 << 4) | (1 << 2) | (1 << 23)), vec!['C', 'E', 'X']);
}

#[test]
fn all_bits_give_every_letter_from_c_to_z() {
    let drives = LocalNtfsSearcher::get_all_drives(u32::MAX);
    let expected: Vec<char> = ('C'..='Z').collect();
    assert_eq!(drives, expected);
}
