//! Searching below a single root that is walked on demand, such as a
//! removable drive. The catalog is not asked.

use vstd::prelude::*;
use vstd::string::StringExecFns;
use crate::config::RuntimeConfig;
use crate::scanner::{extensions_derived, produced_entry, FileMeta};
use crate::text::{contains_seq, extension_of, lowercase_of, str_contains, to_lower};
use crate::types::{EntryView, FileEntry, NO_DRIVE};

verus! {

/// Greatest directory depth that the walk of a custom root descends to.
pub const CUSTOM_MAX_DEPTH: usize = 10;

/// The name or the path holds the lower-cased query `needle`, case ignored.
pub open spec fn matches_query(name: Seq<char>, path: Seq<char>, needle: Seq<char>) -> bool {
    contains_seq(lowercase_of(name), needle) || contains_seq(lowercase_of(path), needle)
}

/// The search of one custom root: the caller walks the root without
/// following links and offers each visited path with `offer`, together with
/// its depth below the root.
pub struct CustomPathSearch {
    needle: String,
    limit: usize,
    results: Vec<FileEntry>,
}

impl CustomPathSearch {
    /// The lower-cased query.
    pub closed spec fn needle(&self) -> Seq<char> {
        self.needle@
    }

    /// Greatest number of results.
    pub closed spec fn limit(&self) -> nat {
        self.limit as nat
    }

    /// The results so far, in the order they were found.
    pub closed spec fn found(&self) -> Seq<EntryView> {
        self.results.deep_view()
    }

    /// Offers one walked path with its file name, its depth below the root
    /// (the root itself at depth zero) and, where it could be read, its
    /// metadata. Returns whether the walk should go on.
    ///
    /// A path is a result when it lies no deeper than `CUSTOM_MAX_DEPTH`,
    /// its metadata could be read and its name or path holds the query.
    /// Once the limit is reached nothing is taken.
    pub fn offer(&mut self, path: &str, name: &str, depth: usize, meta: Option<FileMeta>) -> (more:
        bool)
        ensures
            final(self).needle() == old(self).needle(),
            final(self).limit() == old(self).limit(),
            more == (final(self).found().len() < final(self).limit()),
            extensions_derived(old(self).found()) ==> extensions_derived(final(self).found()),
            final(self).found() == if old(self).found().len() < old(self).limit() && depth
                <= CUSTOM_MAX_DEPTH && meta is Some && matches_query(
                name@,
                path@,
                old(self).needle(),
            ) {
                old(self).found().push(
                    produced_entry(
                        name@,
                        path@,
                        meta->0.size,
                        meta->0.modified,
                        meta->0.is_dir,
                        NO_DRIVE,
                    ),
                )
            } else {
                old(self).found()
            },
    {
        if self.results.len() >= self.limit {
            return false;
        }
        if depth > CUSTOM_MAX_DEPTH {
            return true;
        }
        let meta = match meta {
            Some(meta) => meta,
            None => { return true; },
        };
        let name_low = to_lower(name);
        let hit = if str_contains(name_low.as_str(), self.needle.as_str()) {
            true
        } else {
            let path_low = to_lower(path);
            str_contains(path_low.as_str(), self.needle.as_str())
        };
        if hit {
            let ghost found = self.results.deep_view();
            let entry = FileEntry {
                name: String::from_str(name),
                path: String::from_str(path),
                extension: extension_of(name),
                size: meta.size,
                modified: meta.modified,
                is_dir: meta.is_dir,
                drive: NO_DRIVE,
                score: 0,
            };
            self.results.push(entry);
            assert(self.results.deep_view() =~= found.push(entry@));
        }
        self.results.len() < self.limit
    }

    /// Ends the search and hands out the results.
    pub fn finish(self) -> (results: Vec<FileEntry>)
        ensures
            results.deep_view() == self.found(),
    {
        self.results
    }
}

/// Begins the search for `query` below the root that `rt_config` names.
pub fn search_custom_path(query: &str, rt_config: &RuntimeConfig) -> (search: CustomPathSearch)
    ensures
        search.needle() == lowercase_of(query@),
        search.limit() == rt_config.max_results,
        search.found() == Seq::<EntryView>::empty(),
{
    let search = CustomPathSearch {
        needle: to_lower(query),
        limit: rt_config.max_results,
        results: Vec::new(),
    };
    assert(search.results.deep_view() =~= Seq::<EntryView>::empty());
    search
}

} // verus!
