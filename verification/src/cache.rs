//! The persisted snapshot of the catalog, as the library sees it: a table
//! with one row for each path.
//!
//! Reading and writing the table is the caller's part. What is fixed here is
//! the key of a row and what a table of rows amounts to.

use vstd::prelude::*;
use vstd::set_lib::lemma_subset_equality;
use vstd::string::StrSliceExecFns;
use vstd::utf8::{encode_utf8, encode_utf8_decode_utf8};
use crate::types::{EntryView, FileEntry};

verus! {

/// Name of the file that holds the snapshot, inside the user's cache
/// directory.
pub const CACHE_FILE: &'static str = "starsearch_local.redb";

/// Name of the table in that file.
pub const FILE_TABLE: &'static str = "local_files";

/// The key under which the entry with this path is persisted: the bytes of
/// the path.
pub open spec fn key_of_path(path: Seq<char>) -> Seq<u8> {
    encode_utf8(path)
}

/// The key under which `entry` is persisted.
pub fn cache_key(entry: &FileEntry) -> (key: Vec<u8>)
    ensures
        key@ == key_of_path(entry@.path),
{
    entry.path.as_str().as_bytes_vec()
}

/// The table that holds `entries` after they were written one by one: a row
/// written later takes the place of an earlier one with the same key.
pub open spec fn table_of(entries: Seq<EntryView>) -> Map<Seq<u8>, EntryView>
    decreases entries.len(),
{
    if entries.len() == 0 {
        Map::empty()
    } else {
        table_of(entries.drop_last()).insert(key_of_path(entries.last().path), entries.last())
    }
}

/// No two of the entries have the same path.
pub open spec fn distinct_paths(entries: Seq<EntryView>) -> bool {
    forall|i: int, j: int|
        0 <= i < entries.len() && 0 <= j < entries.len() && i != j ==> (#[trigger] entries[i]).path
            != (#[trigger] entries[j]).path
}

/// `rows` is what reading `table` from its first row to its last gives:
/// each row once, in whatever order the table keeps them.
pub open spec fn reads_back(table: Map<Seq<u8>, EntryView>, rows: Seq<EntryView>) -> bool {
    &&& rows.len() == table.dom().len()
    &&& distinct_paths(rows)
    &&& forall|i: int|
        0 <= i < rows.len() ==> table.contains_pair(
            key_of_path((#[trigger] rows[i]).path),
            rows[i],
        )
}

/// Different paths have different keys.
pub proof fn lemma_keys_differ(a: Seq<char>, b: Seq<char>)
    ensures
        key_of_path(a) == key_of_path(b) ==> a == b,
{
    encode_utf8_decode_utf8(a);
    encode_utf8_decode_utf8(b);
}

/// A table written from entries with distinct paths has one row for each of
/// them, and each row holds its entry unchanged.
pub proof fn lemma_table_keeps_all(entries: Seq<EntryView>)
    requires
        distinct_paths(entries),
    ensures
        table_of(entries).dom().finite(),
        table_of(entries).dom().len() == entries.len(),
        forall|k: Seq<u8>| #[trigger]
            table_of(entries).dom().contains(k) ==> exists|i: int|
                0 <= i < entries.len() && k == key_of_path(#[trigger] entries[i].path),
        forall|i: int|
            0 <= i < entries.len() ==> table_of(entries).contains_pair(
                key_of_path((#[trigger] entries[i]).path),
                entries[i],
            ),
    decreases entries.len(),
{
    if entries.len() > 0 {
        let rest = entries.drop_last();
        let last = entries.last();
        assert(distinct_paths(rest)) by {
            assert forall|i: int, j: int|
                0 <= i < rest.len() && 0 <= j < rest.len() && i != j implies (
            #[trigger] rest[i]).path != (#[trigger] rest[j]).path by {
                assert(entries[i].path != entries[j].path);
            }
        }
        lemma_table_keeps_all(rest);
        let key = key_of_path(last.path);
        assert(!table_of(rest).dom().contains(key)) by {
            if table_of(rest).dom().contains(key) {
                let i = choose|i: int|
                    0 <= i < rest.len() && key == key_of_path(#[trigger] rest[i].path);
                lemma_keys_differ(last.path, rest[i].path);
                assert(entries[i].path != entries[entries.len() - 1].path);
            }
        }
        assert forall|k: Seq<u8>| #[trigger]
            table_of(entries).dom().contains(k) implies exists|i: int|
            0 <= i < entries.len() && k == key_of_path(#[trigger] entries[i].path) by {
            if k == key {
                assert(k == key_of_path(entries[entries.len() - 1].path));
            } else {
                let i = choose|i: int|
                    0 <= i < rest.len() && k == key_of_path(#[trigger] rest[i].path);
                assert(k == key_of_path(entries[i].path));
            }
        }
        assert forall|i: int| 0 <= i < entries.len() implies table_of(entries).contains_pair(
            key_of_path((#[trigger] entries[i]).path),
            entries[i],
        ) by {
            if i < rest.len() {
                assert(table_of(rest).contains_pair(key_of_path(rest[i].path), rest[i]));
                lemma_keys_differ(last.path, rest[i].path);
                assert(entries[i].path != entries[entries.len() - 1].path);
            }
        }
    }
}

/// Persisting entries with distinct paths and reading them back gives as
/// many entries as were persisted, each of them one of those persisted and
/// unchanged in every field, and each of those persisted among them.
pub proof fn lemma_round_trip(entries: Seq<EntryView>, rows: Seq<EntryView>)
    requires
        distinct_paths(entries),
        reads_back(table_of(entries), rows),
    ensures
        rows.len() == entries.len(),
        forall|i: int| 0 <= i < rows.len() ==> entries.contains(#[trigger] rows[i]),
        forall|j: int| 0 <= j < entries.len() ==> rows.contains(#[trigger] entries[j]),
{
    let table = table_of(entries);
    lemma_table_keeps_all(entries);
    assert forall|i: int| 0 <= i < rows.len() implies entries.contains(#[trigger] rows[i]) by {
        let k = key_of_path(rows[i].path);
        assert(table.dom().contains(k));
        let j = choose|j: int| 0 <= j < entries.len() && k == key_of_path(#[trigger] entries[j].path);
        assert(table.contains_pair(key_of_path(entries[j].path), entries[j]));
    }
    let keys = rows.map_values(|row: EntryView| key_of_path(row.path));
    assert(keys.no_duplicates()) by {
        assert forall|a: int, b: int| 0 <= a < keys.len() && 0 <= b < keys.len() && a
            != b implies keys[a] != keys[b] by {
            lemma_keys_differ(rows[a].path, rows[b].path);
            assert(rows[a].path != rows[b].path);
        }
    }
    keys.unique_seq_to_set();
    vstd::seq_lib::seq_to_set_is_finite(keys);
    assert(keys.to_set().subset_of(table.dom())) by {
        assert forall|k: Seq<u8>| keys.to_set().contains(k) implies table.dom().contains(k) by {
            let a = choose|a: int| 0 <= a < keys.len() && keys[a] == k;
            assert(table.contains_pair(key_of_path(rows[a].path), rows[a]));
        }
    }
    lemma_subset_equality(keys.to_set(), table.dom());
    assert forall|j: int| 0 <= j < entries.len() implies rows.contains(#[trigger] entries[j]) by {
        let k = key_of_path(entries[j].path);
        assert(table.contains_pair(k, entries[j]));
        assert(keys.to_set().contains(k));
        let a = choose|a: int| 0 <= a < keys.len() && keys[a] == k;
        assert(table.contains_pair(key_of_path(rows[a].path), rows[a]));
        assert(rows[a] == entries[j]);
    }
}

} // verus!
