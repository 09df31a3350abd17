use redb::backends::InMemoryBackend;
use redb::{Database, ReadableTable, TableDefinition};
use serde_json::{Number, Value};
use starsearch::cache::{cache_key, FILE_TABLE};
use starsearch::ntfs_search::{LoadAction, LoadEvent, LocalNtfsSearcher};
use starsearch::types::FileEntry;

const TABLE: TableDefinition<&[u8], &[u8]> = TableDefinition::new(FILE_TABLE);

fn entry(path: &str, name: &str, size: u64, is_dir: bool) -> FileEntry {
    FileEntry {
        name: name.to_string(),
        path: path.to_string(),
        extension: starsearch::text::extension_of(name),
        size,
        modified: 1_700_000_000 + size,
        is_dir,
        drive: 'C',
        score: 0,
    }
}

fn encode(entry: &FileEntry) -> Vec<u8> {
    let mut row = serde_json::Map::new();
    row.insert("name".to_string(), Value::String(entry.name.clone()));
    row.insert("path".to_string(), Value::String(entry.path.clone()));
    row.insert("extension".to_string(), Value::String(entry.extension.clone()));
    row.insert("size".to_string(), Value::Number(Number::from(entry.size)));
    row.insert("modified".to_string(), Value::Number(Number::from(entry.modified)));
    row.insert("is_dir".to_string(), Value::Bool(entry.is_dir));
    row.insert("drive".to_string(), Value::String(entry.drive.to_string()));
    row.insert("score".to_string(), Value::Number(Number::from(entry.score)));
    serde_json::to_vec(&Value::Object(row)).unwrap()
}

fn decode(bytes: &[u8]) -> Option<FileEntry> {
    let row: Value = serde_json::from_slice(bytes).ok()?;
    Some(FileEntry {
        name: row.get("name")?.as_str()?.to_string(),
        path: row.get("path")?.as_str()?.to_string(),
        extension: row.get("extension")?.as_str()?.to_string(),
        size: row.get("size")?.as_u64()?,
        modified: row.get("modified")?.as_u64()?,
        is_dir: row.get("is_dir")?.as_bool()?,
        drive: row.get("drive")?.as_str()?.chars().next()?,
        score: row.get("score")?.as_u64()? as u32,
    })
}

fn persist(db: &Database, entries: &[FileEntry]) {
    let tx = db.begin_write().unwrap();
    {
        let mut table = tx.open_table(TABLE).unwrap();
        for e in entries {
            let key = cache_key(e);
            let value = encode(e);
            table.insert(key.as_slice(), value.as_slice()).unwrap();
        }
    }
    tx.commit().unwrap();
}

fn reload(db: &Database) -> Vec<FileEntry> {
    let tx = db.begin_read().unwrap();
    let table = match tx.open_table(TABLE) {
        Ok(table) => table,
        Err(_) => return Vec::new(),
    };
    let mut rows = Vec::new();
    for (_, value) in table.iter().unwrap().flatten() {
        if let Some(e) = decode(value.value()) {
            rows.push(e);
        }
    }
    rows
}

fn memory_db() -> Database {
    Database::builder().create_with_backend(InMemoryBackend::new()).unwrap()
}

#[test]
fn persisted_entries_come_back_unchanged() {
    let entries = vec![
        entry("C:\\b\\two.txt", "two.txt", 2, false),
        entry("C:\\a", "a", 0, true),
        entry("C:\\a\\ünï.PDF", "ünï.PDF", 300, false),
        entry("C:\\b", "b", 0, true),
    ];
    let db = memory_db();
    persist(&db, &entries);
    let mut searcher = LocalNtfsSearcher::new();
    searcher.load_all_drives(LoadEvent::Requested);
    assert_eq!(searcher.load_all_drives(LoadEvent::CacheRead(reload(&db))), LoadAction::Done);
    assert!(searcher.is_ready());
    assert_eq!(searcher.len(), entries.len());
    for e in &entries {
        let back: Vec<&FileEntry> =
            searcher.entries().iter().filter(|row| row.path == e.path).collect();
        assert_eq!(back.len(), 1);
        assert_eq!(back[0].name, e.name);
        assert_eq!(back[0].size, e.size);
        assert_eq!(back[0].is_dir, e.is_dir);
        assert_eq!(back[0].extension, e.extension);
        assert_eq!(back[0].modified, e.modified);
        assert_eq!(back[0].drive, e.drive);
    }
}

#[test]
fn empty_snapshot_leads_to_a_scan() {
    let db = memory_db();
    let mut searcher = LocalNtfsSearcher::new();
    searcher.load_all_drives(LoadEvent::Requested);
    assert_eq!(searcher.load_all_drives(LoadEvent::CacheRead(reload(&db))), LoadAction::ScanDrives);
    assert!(!searcher.is_ready());
}

#[test]
fn a_path_persisted_twice_keeps_its_last_entry() {
    let db = memory_db();
    persist(&db, &[entry("C:\\same", "same", 1, false), entry("C:\\same", "same", 9, false)]);
    let rows = reload(&db);
    assert_eq!(rows.len(), 1);
    assert_eq!(rows[0].size, 9);
}

#[test]
fn rows_that_do_not_decode_are_left_out() {
    let db = memory_db();
    persist(&db, &[entry("C:\\good", "good", 1, false)]);
    let tx = db.begin_write().unwrap();
    {
        let mut table = tx.open_table(TABLE).unwrap();
        table.insert(b"C:\\bad".as_slice(), b"{not json".as_slice()).unwrap();
    }
    tx.commit().unwrap();
    let rows = reload(&db);
    assert_eq!(rows.len(), 1);
    assert_eq!(rows[0].path, "C:\\good");
}
