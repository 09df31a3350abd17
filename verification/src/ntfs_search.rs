//! The catalog held in memory: its one-time load and its queries.

use vstd::prelude::*;
use vstd::utf8::encode_utf8;
use crate::ranking::{
    is_ranking, lemma_ranking, positions, precedes, rank, ranking, shown, weight, weights_of_keys,
    RankKey,
};
use crate::text::{contains_seq, str_contains, to_upper, uppercase_of};
use crate::types::{EntryView, FileEntry};

verus! {

/// How many candidates are gathered for each result asked for.
pub const CANDIDATE_FACTOR: usize = 5;

/// The name of an entry holds the upper-cased query `needle`, case ignored.
pub open spec fn name_hit(entry: EntryView, needle: Seq<char>) -> bool {
    contains_seq(uppercase_of(entry.name), needle)
}

/// The full path of an entry holds the upper-cased query `needle`, case
/// ignored.
pub open spec fn path_hit(entry: EntryView, needle: Seq<char>) -> bool {
    contains_seq(uppercase_of(entry.path), needle)
}

/// An entry matches a query when its name or its path holds it.
pub open spec fn is_hit(entry: EntryView, needle: Seq<char>) -> bool {
    name_hit(entry, needle) || path_hit(entry, needle)
}

/// `is_hit` for a fixed query, as a predicate on entries.
pub open spec fn hit_test(needle: Seq<char>) -> spec_fn(EntryView) -> bool {
    |entry: EntryView| is_hit(entry, needle)
}

/// What the place of a matching entry among the results rests on.
pub open spec fn key_of(entry: EntryView, needle: Seq<char>) -> RankKey {
    RankKey { name_hit: name_hit(entry, needle), name_len: encode_utf8(entry.name).len() as usize }
}

/// The weight of a matching entry for a fixed query, as a function on
/// entries.
pub open spec fn weight_fn(needle: Seq<char>) -> spec_fn(EntryView) -> int {
    |entry: EntryView| weight(key_of(entry, needle))
}

/// The entries that are ranked for a query: the first matches in index
/// order, five for each result asked for. A match further down the index is
/// not looked at, however well it would rank.
pub open spec fn candidates(index: Seq<EntryView>, needle: Seq<char>, limit: nat) -> Seq<
    EntryView,
> {
    let hits = index.filter(hit_test(needle));
    hits.take(shown(CANDIDATE_FACTOR as nat * limit, hits.len()) as int)
}

/// The answer of a catalog with the entries `index` to `query`, at most
/// `limit` entries long.
///
/// The empty query is answered with the head of the index, unranked. Any
/// other query is answered with its candidates in ranked order, cut to the
/// limit.
pub open spec fn search_result(index: Seq<EntryView>, query: Seq<char>, limit: nat) -> Seq<
    EntryView,
> {
    if query.len() == 0 {
        index.take(shown(limit, index.len()) as int)
    } else {
        let needle = uppercase_of(query);
        let found = candidates(index, needle, limit);
        let order = ranking(found.map_values(weight_fn(needle)));
        Seq::new(shown(limit, found.len()), |k: int| found[order[k]])
    }
}

/// The empty query is answered with the head of the index: as many entries
/// as the limit allows and the index holds, in index order.
pub proof fn lemma_empty_query_lists_head(index: Seq<EntryView>, limit: nat)
    ensures
        search_result(index, Seq::empty(), limit).len() == shown(limit, index.len()),
        forall|k: int|
            0 <= k < shown(limit, index.len()) ==> #[trigger] search_result(
                index,
                Seq::empty(),
                limit,
            )[k] == index[k],
{
}

/// An answer is never longer than the limit, and every entry of the answer
/// to a query that is not empty matches the query.
pub proof fn lemma_results_match(index: Seq<EntryView>, query: Seq<char>, limit: nat)
    ensures
        search_result(index, query, limit).len() <= limit,
        query.len() > 0 ==> forall|k: int|
            0 <= k < search_result(index, query, limit).len() ==> is_hit(
                #[trigger] search_result(index, query, limit)[k],
                uppercase_of(query),
            ),
        query.len() == 0 ==> forall|k: int|
            0 <= k < search_result(index, query, limit).len() ==> contains_seq(
                uppercase_of(#[trigger] search_result(index, query, limit)[k].name),
                query,
            ),
{
    if query.len() == 0 {
        assert forall|k: int|
            0 <= k < search_result(index, query, limit).len() implies contains_seq(
            uppercase_of(#[trigger] search_result(index, query, limit)[k].name),
            query,
        ) by {
            let text = uppercase_of(search_result(index, query, limit)[k].name);
            assert(text.subrange(0, 0 + query.len() as int) =~= query);
        }
    }
    if query.len() > 0 {
        let needle = uppercase_of(query);
        let found = candidates(index, needle, limit);
        let keys = found.map_values(weight_fn(needle));
        let order = ranking(keys);
        lemma_ranking(keys);
        assert forall|k: int| 0 <= k < search_result(index, query, limit).len() implies is_hit(
            #[trigger] search_result(index, query, limit)[k],
            needle,
        ) by {
            lemma_candidates_hit(index, needle, limit, order[k]);
        }
    }
}

/// Every candidate matches the query, and stands in the index.
pub proof fn lemma_candidates_hit(index: Seq<EntryView>, needle: Seq<char>, limit: nat, c: int)
    requires
        0 <= c < candidates(index, needle, limit).len(),
    ensures
        is_hit(candidates(index, needle, limit)[c], needle),
        index.contains(candidates(index, needle, limit)[c]),
{
    broadcast use vstd::seq_lib::group_filter_ensures;

    let hits = index.filter(hit_test(needle));
    assert(candidates(index, needle, limit)[c] == hits[c]);
    assert(hit_test(needle)(hits[c]));
    assert(hits.contains(hits[c]));
    index.lemma_filter_contains_rev(hit_test(needle), hits[c]);
}

/// Within one answer an entry whose name holds the query never stands
/// behind an entry of which only the path does.
pub proof fn lemma_name_hits_first(
    index: Seq<EntryView>,
    query: Seq<char>,
    limit: nat,
    i: int,
    j: int,
)
    requires
        query.len() > 0,
        0 <= i < j < search_result(index, query, limit).len(),
    ensures
        name_hit(search_result(index, query, limit)[j], uppercase_of(query)) ==> name_hit(
            search_result(index, query, limit)[i],
            uppercase_of(query),
        ),
{
    let needle = uppercase_of(query);
    let found = candidates(index, needle, limit);
    let keys = found.map_values(weight_fn(needle));
    let order = ranking(keys);
    lemma_ranking(keys);
    assert(precedes(keys, order[i], order[j]));
    assert(keys[order[i]] == weight(key_of(found[order[i]], needle)));
    assert(keys[order[j]] == weight(key_of(found[order[j]], needle)));
}

/// Among the entries of one answer whose names hold the query alike, a
/// shorter name never stands behind a longer one.
pub proof fn lemma_shorter_names_first(
    index: Seq<EntryView>,
    query: Seq<char>,
    limit: nat,
    i: int,
    j: int,
)
    requires
        query.len() > 0,
        0 <= i < j < search_result(index, query, limit).len(),
        name_hit(search_result(index, query, limit)[i], uppercase_of(query)) == name_hit(
            search_result(index, query, limit)[j],
            uppercase_of(query),
        ),
    ensures
        key_of(search_result(index, query, limit)[i], uppercase_of(query)).name_len <= key_of(
            search_result(index, query, limit)[j],
            uppercase_of(query),
        ).name_len,
{
    let needle = uppercase_of(query);
    let found = candidates(index, needle, limit);
    let keys = found.map_values(weight_fn(needle));
    let order = ranking(keys);
    lemma_ranking(keys);
    assert(precedes(keys, order[i], order[j]));
    assert(keys[order[i]] == weight(key_of(found[order[i]], needle)));
    assert(keys[order[j]] == weight(key_of(found[order[j]], needle)));
}

/// Where the one-time load of the catalog stands.
#[derive(Clone, Copy, Debug, PartialEq, Eq, Structural)]
pub enum LoadPhase {
    NotReady,
    Loading,
    Ready,
}

/// What the outside reports to the load.
pub enum LoadEvent {
    /// A load is asked for.
    Requested,
    /// The persisted snapshot was read; it is empty where there was none or
    /// it could not be read.
    CacheRead(Vec<FileEntry>),
    /// All drives were scanned; these are their entries, drive after drive.
    Scanned(Vec<FileEntry>),
}

/// What the load asks the outside to do next.
#[derive(Clone, Copy, Debug, PartialEq, Eq, Structural)]
pub enum LoadAction {
    /// Read the persisted snapshot and report it.
    ReadCache,
    /// Scan all drives and report their entries.
    ScanDrives,
    /// The catalog is ready; persist it, and go on whether that succeeds or
    /// not.
    Persist,
    /// The catalog is ready and nothing is left to do.
    Done,
    /// The event does not belong to the phase the load is in; nothing
    /// changed.
    Ignored,
}

/// The phase that follows `phase` when `event` arrives.
pub open spec fn next_phase(phase: LoadPhase, event: LoadEvent) -> LoadPhase {
    match (phase, event) {
        (LoadPhase::NotReady, LoadEvent::Requested) => LoadPhase::Loading,
        (LoadPhase::Loading, LoadEvent::CacheRead(cached)) => if cached.len() > 0 {
            LoadPhase::Ready
        } else {
            LoadPhase::Loading
        },
        (LoadPhase::Loading, LoadEvent::Scanned(_)) => LoadPhase::Ready,
        _ => phase,
    }
}

/// What the load asks for when `event` arrives in `phase`.
pub open spec fn next_action(phase: LoadPhase, event: LoadEvent) -> LoadAction {
    match (phase, event) {
        (LoadPhase::NotReady, LoadEvent::Requested) => LoadAction::ReadCache,
        (LoadPhase::Ready, LoadEvent::Requested) => LoadAction::Done,
        (LoadPhase::Loading, LoadEvent::CacheRead(cached)) => if cached.len() > 0 {
            LoadAction::Done
        } else {
            LoadAction::ScanDrives
        },
        (LoadPhase::Loading, LoadEvent::Scanned(scanned)) => if scanned.len() > 0 {
            LoadAction::Persist
        } else {
            LoadAction::Done
        },
        _ => LoadAction::Ignored,
    }
}

/// The entries of the catalog after `event` arrived in `phase`.
pub open spec fn next_index(phase: LoadPhase, index: Seq<EntryView>, event: LoadEvent) -> Seq<
    EntryView,
> {
    match (phase, event) {
        (LoadPhase::Loading, LoadEvent::CacheRead(cached)) => if cached.len() > 0 {
            cached.deep_view()
        } else {
            index
        },
        (LoadPhase::Loading, LoadEvent::Scanned(scanned)) => scanned.deep_view(),
        _ => index,
    }
}

/// How far a phase is on the way from `NotReady` to `Ready`.
pub open spec fn progress(phase: LoadPhase) -> nat {
    match phase {
        LoadPhase::NotReady => 0,
        LoadPhase::Loading => 1,
        LoadPhase::Ready => 2,
    }
}

/// The load only ever moves forward, and `Ready` is its end: no event takes
/// a ready catalog out of `Ready`, changes its entries, or makes it ask for
/// a snapshot or a scan again.
pub proof fn lemma_load_moves_forward(phase: LoadPhase, index: Seq<EntryView>, event: LoadEvent)
    ensures
        progress(phase) <= progress(next_phase(phase, event)),
        phase == LoadPhase::Ready ==> {
            &&& next_phase(phase, event) == LoadPhase::Ready
            &&& next_index(phase, index, event) == index
            &&& (next_action(phase, event) == LoadAction::Done || next_action(phase, event)
                == LoadAction::Ignored)
        },
        next_action(phase, event) == LoadAction::Ignored ==> {
            &&& next_phase(phase, event) == phase
            &&& next_index(phase, index, event) == index
        },
{
}

/// The catalog of one machine, held in memory.
pub struct LocalNtfsSearcher {
    memory_index: Vec<FileEntry>,
    phase: LoadPhase,
}

impl LocalNtfsSearcher {
    /// The entries of the catalog, in index order.
    pub closed spec fn index(&self) -> Seq<EntryView> {
        self.memory_index.deep_view()
    }

    /// The phase of the load.
    pub closed spec fn phase(&self) -> LoadPhase {
        self.phase
    }

    /// An empty catalog whose load has not begun.
    pub fn new() -> (searcher: LocalNtfsSearcher)
        ensures
            searcher.index() == Seq::<EntryView>::empty(),
            searcher.phase() == LoadPhase::NotReady,
    {
        let searcher = LocalNtfsSearcher { memory_index: Vec::new(), phase: LoadPhase::NotReady };
        assert(searcher.memory_index.deep_view() =~= Seq::<EntryView>::empty());
        searcher
    }

    /// Whether the load is over.
    pub fn is_ready(&self) -> (ready: bool)
        ensures
            ready == (self.phase() == LoadPhase::Ready),
    {
        match self.phase {
            LoadPhase::Ready => true,
            _ => false,
        }
    }

    /// Number of entries in the catalog.
    pub fn len(&self) -> (n: usize)
        ensures
            n == self.index().len(),
    {
        self.memory_index.len()
    }

    /// The entries of the catalog, in index order.
    pub fn entries(&self) -> (entries: &Vec<FileEntry>)
        ensures
            entries.deep_view() == self.index(),
    {
        &self.memory_index
    }

    /// Answers `query` with at most `max_results` entries.
    pub fn search(&self, query: &str, max_results: usize) -> (results: Vec<FileEntry>)
        ensures
            results.deep_view() == search_result(self.index(), query@, max_results as nat),
    {
        if query.is_empty() {
            return self.head(max_results);
        }
        let needle = to_upper(query);
        let cap = match max_results.checked_mul(CANDIDATE_FACTOR) {
            Some(cap) => cap,
            None => usize::MAX,
        };
        let ghost index = self.index();
        let ghost test = hit_test(needle@);
        let n = self.memory_index.len();
        let mut found: Vec<usize> = Vec::new();
        let mut keys: Vec<RankKey> = Vec::new();
        let mut i: usize = 0;
        while i < n && found.len() < cap
            invariant
                index == self.memory_index.deep_view(),
                test == hit_test(needle@),
                n == self.memory_index.len(),
                i <= n,
                found.len() == keys.len(),
                found.len() <= cap,
                found.len() == index.take(i as int).filter(test).len(),
                forall|k: int|
                    0 <= k < found.len() ==> (#[trigger] found[k]) < n && index[found[k] as int]
                        == index.take(i as int).filter(test)[k],
                forall|k: int|
                    0 <= k < found.len() ==> (#[trigger] keys[k]) == key_of(
                        index[found[k] as int],
                        needle@,
                    ),
            decreases n - i,
        {
            let entry = &self.memory_index[i];
            assert(entry@ == index[i as int]);
            let name_up = to_upper(entry.name.as_str());
            let in_name = str_contains(name_up.as_str(), needle.as_str());
            let hit = if in_name {
                true
            } else {
                let path_up = to_upper(entry.path.as_str());
                str_contains(path_up.as_str(), needle.as_str())
            };
            proof {
                reveal(Seq::filter);
                assert(index.take(i + 1).drop_last() =~= index.take(i as int));
                assert(index.take(i + 1).last() == index[i as int]);
                assert(hit == test(index[i as int]));
            }
            if hit {
                found.push(i);
                keys.push(RankKey { name_hit: in_name, name_len: entry.name.as_str().len() });
            }
            i = i + 1;
        }
        let ghost hits = index.filter(test);
        let ghost seen = index.take(i as int).filter(test);
        let ghost chosen = candidates(index, needle@, max_results as nat);
        proof {
            assert(index =~= index.take(i as int) + index.skip(i as int));
            Seq::filter_distributes_over_add(index.take(i as int), index.skip(i as int), test);
            assert(hits == seen + index.skip(i as int).filter(test));
            broadcast use vstd::seq_lib::group_filter_ensures;
            if i == n {
                assert(index.skip(i as int) =~= Seq::<EntryView>::empty());
                assert(index.skip(i as int).filter(test) =~= Seq::<EntryView>::empty());
            }
            assert(chosen =~= seen);
            assert(weights_of_keys(keys@) =~= chosen.map_values(weight_fn(needle@)));
            lemma_ranking(weights_of_keys(keys@));
        }
        let order = rank(&keys, max_results);
        let ghost full = ranking(weights_of_keys(keys@));
        assert(positions(order@).len() == order.len());
        let mut results: Vec<FileEntry> = Vec::new();
        let mut k: usize = 0;
        while k < order.len()
            invariant
                index == self.memory_index.deep_view(),
                n == self.memory_index.len(),
                k <= order.len(),
                order.len() == shown(max_results as nat, keys@.len()),
                found.len() == keys.len(),
                found.len() == chosen.len(),
                positions(order@) == full.take(order.len() as int),
                is_ranking(weights_of_keys(keys@), full),
                forall|c: int|
                    0 <= c < found.len() ==> (#[trigger] found[c]) < n && index[found[c] as int]
                        == chosen[c],
                results.len() == k,
                forall|r: int| 0 <= r < k ==> (#[trigger] results[r])@ == chosen[full[r]],
            decreases order.len() - k,
        {
            assert(positions(order@)[k as int] == full[k as int]);
            let at = order[k];
            let entry = self.memory_index[found[at]].clone();
            results.push(entry);
            k = k + 1;
        }
        assert(results.deep_view() =~= search_result(self.index(), query@, max_results as nat));
        results
    }

    /// Takes the load one step further.
    ///
    /// The load runs once: from `NotReady` a request begins it, and it asks
    /// for the persisted snapshot. A snapshot with entries is taken as it is
    /// and ends the load; an empty one makes the load ask for a scan of all
    /// drives, whose entries end it. The catalog that a scan filled is to be
    /// persisted unless it is empty. Once `Ready` the catalog stays as it
    /// is: a further request is answered with `Done`, and nothing is loaded
    /// again.
    pub fn load_all_drives(&mut self, event: LoadEvent) -> (action: LoadAction)
        ensures
            action == next_action(old(self).phase(), event),
            final(self).phase() == next_phase(old(self).phase(), event),
            final(self).index() == next_index(old(self).phase(), old(self).index(), event),
    {
        match (self.phase, event) {
            (LoadPhase::NotReady, LoadEvent::Requested) => {
                self.phase = LoadPhase::Loading;
                LoadAction::ReadCache
            },
            (LoadPhase::Ready, LoadEvent::Requested) => LoadAction::Done,
            (LoadPhase::Loading, LoadEvent::CacheRead(cached)) => {
                if cached.len() > 0 {
                    self.memory_index = cached;
                    self.phase = LoadPhase::Ready;
                    LoadAction::Done
                } else {
                    LoadAction::ScanDrives
                }
            },
            (LoadPhase::Loading, LoadEvent::Scanned(scanned)) => {
                let action = if scanned.len() > 0 {
                    LoadAction::Persist
                } else {
                    LoadAction::Done
                };
                self.memory_index = scanned;
                self.phase = LoadPhase::Ready;
                action
            },
            _ => LoadAction::Ignored,
        }
    }

    /// The letters of the drives to scan, in ascending order: every drive
    /// of `C` to `Z` whose bit is set in `mask`, where bit 0 stands for `A`.
    pub fn get_all_drives(mask: u32) -> (drives: Vec<char>)
        ensures
            forall|i: int, j: int|
                0 <= i < j < drives.len() ==> ((#[trigger] drives[i]) as u32) < ((
                #[trigger] drives[j]) as u32),
            forall|c: char| #[trigger] drives@.contains(c) <==> is_scanned_drive(mask, c),
    {
        let mut drives: Vec<char> = Vec::new();
        let mut i: u32 = 2;
        while i < 26
            invariant
                2 <= i <= 26,
                forall|a: int| 0 <= a < drives.len() ==> ((#[trigger] drives[a]) as u32) < 65 + i,
                forall|a: int, b: int|
                    0 <= a < b < drives.len() ==> ((#[trigger] drives[a]) as u32) < ((
                    #[trigger] drives[b]) as u32),
                forall|c: char|
                    #[trigger] drives@.contains(c) <==> is_scanned_drive(mask, c) && (c as u32)
                        < 65 + i,
            decreases 26 - i,
        {
            if mask & (1u32 << i) != 0 {
                let letter = (65 + i) as u8 as char;
                assert(letter as u32 == 65 + i);
                let ghost before = drives@;
                drives.push(letter);
                assert forall|c: char| #[trigger] drives@.contains(c) <==> is_scanned_drive(
                    mask,
                    c,
                ) && (c as u32) < 65 + i + 1 by {
                    if drives@.contains(c) {
                        let w = choose|w: int| 0 <= w < drives@.len() && drives@[w] == c;
                        if w < before.len() {
                            assert(before[w] == c);
                            assert(before.contains(c));
                        }
                    }
                    if is_scanned_drive(mask, c) && (c as u32) < 65 + i + 1 {
                        if (c as u32) < 65 + i {
                            assert(before.contains(c));
                            let w = choose|w: int| 0 <= w < before.len() && before[w] == c;
                            assert(drives@[w] == c);
                        } else {
                            vstd::utf8::char_u32_cast(c, c as u32);
                            vstd::utf8::char_u32_cast(letter, letter as u32);
                            assert(c == letter);
                            assert(drives@[before.len() as int] == c);
                        }
                    }
                }
            } else {
                assert forall|c: char| #[trigger] drives@.contains(c) <==> is_scanned_drive(
                    mask,
                    c,
                ) && (c as u32) < 65 + i + 1 by {
                }
            }
            i = i + 1;
        }
        drives
    }

    fn head(&self, limit: usize) -> (results: Vec<FileEntry>)
        ensures
            results.deep_view() == self.index().take(
                shown(limit as nat, self.index().len()) as int,
            ),
    {
        let n = if limit < self.memory_index.len() {
            limit
        } else {
            self.memory_index.len()
        };
        let mut results: Vec<FileEntry> = Vec::new();
        let mut k: usize = 0;
        while k < n
            invariant
                n <= self.memory_index.len(),
                k <= n,
                results.len() == k,
                forall|r: int| 0 <= r < k ==> (#[trigger] results[r])@ == self.memory_index[r]@,
            decreases n - k,
        {
            results.push(self.memory_index[k].clone());
            k = k + 1;
        }
        assert(results.deep_view() =~= self.index().take(n as int));
        results
    }
}

/// The drive with letter `c` is scanned when `mask` has its bit: a letter of
/// `C` to `Z`, bit 0 standing for `A`.
pub open spec fn is_scanned_drive(mask: u32, c: char) -> bool {
    &&& 'C' as u32 <= c as u32 <= 'Z' as u32
    &&& mask & (1u32 << ((c as u32 - 65) as u32)) != 0
}

} // verus!
