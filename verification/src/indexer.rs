//! The store that parallel scans fill, and the buffer through which each of
//! them delivers.
//!
//! A scan hands its entries to a `DriveBuffer`, which gives them back in
//! batches of a fixed size; each batch is merged into the shared `Indexer`
//! in one short step. A scan thus never holds more than one batch, whatever
//! the size of its drive, and whatever the order in which the scans merge,
//! the store ends up with every entry once and each scan's entries in the
//! order of their finding.

use vstd::prelude::*;
use vstd::string::StringExecFns;
use crate::scanner::{is_noise, is_noise_path, produced_entry, FileMeta};
use crate::text::extension_of;
use crate::types::{EntryView, FileEntry};

verus! {

/// Number of entries in a batch: a scan delivers as soon as it holds so
/// many.
pub const MERGE_BATCH: usize = 5000;

/// The entries found by all scans so far.
pub struct Indexer {
    entries: Vec<FileEntry>,
}

impl Indexer {
    /// The entries merged so far, in the order of their merging.
    pub closed spec fn stored(&self) -> Seq<EntryView> {
        self.entries.deep_view()
    }

    /// An empty store.
    pub fn new() -> (indexer: Indexer)
        ensures
            indexer.stored() == Seq::<EntryView>::empty(),
    {
        let indexer = Indexer { entries: Vec::new() };
        assert(indexer.entries.deep_view() =~= Seq::<EntryView>::empty());
        indexer
    }

    /// Number of entries merged so far.
    pub fn len(&self) -> (n: usize)
        ensures
            n == self.stored().len(),
    {
        self.entries.len()
    }

    /// The entries merged so far.
    pub fn entries(&self) -> (entries: &Vec<FileEntry>)
        ensures
            entries.deep_view() == self.stored(),
    {
        &self.entries
    }

    /// Makes the entry of one walked path, or none where the path is
    /// excluded. Metadata that could not be read leaves size and
    /// modification time at zero.
    pub fn entry_for(path: &str, name: &str, meta: Option<FileMeta>, is_dir: bool, drive: char) -> (entry:
        Option<FileEntry>)
        ensures
            match entry {
                Some(e) => !is_noise_path(path@) && e@ == produced_entry(
                    name@,
                    path@,
                    if meta is Some {
                        meta->0.size
                    } else {
                        0
                    },
                    if meta is Some {
                        meta->0.modified
                    } else {
                        0
                    },
                    is_dir,
                    drive,
                ),
                None => is_noise_path(path@),
            },
    {
        if is_noise(path) {
            return None;
        }
        let (size, modified) = match meta {
            Some(m) => (m.size, m.modified),
            None => (0, 0),
        };
        Some(
            FileEntry {
                name: String::from_str(name),
                path: String::from_str(path),
                extension: extension_of(name),
                size,
                modified,
                is_dir,
                drive,
                score: 0,
            },
        )
    }

    /// Gives up the store for the entries it holds.
    pub fn into_entries(self) -> (entries: Vec<FileEntry>)
        ensures
            entries.deep_view() == self.stored(),
    {
        self.entries
    }

    /// Appends a delivered batch to the store.
    pub fn merge(&mut self, batch: Vec<FileEntry>)
        ensures
            final(self).stored() == old(self).stored() + batch.deep_view(),
    {
        let mut batch = batch;
        let ghost before = self.entries.deep_view();
        let ghost added = batch.deep_view();
        self.entries.append(&mut batch);
        assert(self.entries.deep_view() =~= before + added);
    }
}

/// Number of entries that a buffer of size `batch` delivers at once: the
/// size, and one for a buffer of size zero, which holds nothing back.
pub open spec fn batch_len(batch: nat) -> nat {
    if batch == 0 {
        1
    } else {
        batch
    }
}

/// What a buffer of size `batch` does when `entry` is pushed behind
/// `pending`: it delivers all it holds as soon as that is `batch` entries,
/// and goes on holding otherwise. The first part of the result is what it
/// delivers, the second what it holds afterwards.
pub open spec fn push_outcome(batch: nat, pending: Seq<EntryView>, entry: EntryView) -> (
    Option<Seq<EntryView>>,
    Seq<EntryView>,
) {
    if pending.len() + 1 >= batch {
        (Some(pending.push(entry)), Seq::empty())
    } else {
        (None, pending.push(entry))
    }
}

/// The batches one behind the other.
pub open spec fn joined(batches: Seq<Seq<EntryView>>) -> Seq<EntryView>
    decreases batches.len(),
{
    if batches.len() == 0 {
        Seq::empty()
    } else {
        joined(batches.drop_last()) + batches.last()
    }
}

/// Where a buffer of size `batch` stands after `pushed` went through it one
/// by one: first the batches that it delivered, in the order of delivery,
/// then what it still holds.
pub open spec fn after_pushes(batch: nat, pushed: Seq<EntryView>) -> (
    Seq<Seq<EntryView>>,
    Seq<EntryView>,
)
    decreases pushed.len(),
{
    if pushed.len() == 0 {
        (Seq::empty(), Seq::empty())
    } else {
        let before = after_pushes(batch, pushed.drop_last());
        let step = push_outcome(batch, before.1, pushed.last());
        (
            match step.0 {
                Some(delivered) => before.0.push(delivered),
                None => before.0,
            },
            step.1,
        )
    }
}

/// Delivery in batches loses nothing and keeps the order: whatever went
/// through a buffer is, in that order, the batches it delivered followed by
/// what it still holds. Every batch is of the fixed size, and the buffer
/// holds less than that.
pub proof fn lemma_batches_lose_nothing(batch: nat, pushed: Seq<EntryView>)
    ensures
        joined(after_pushes(batch, pushed).0) + after_pushes(batch, pushed).1 == pushed,
        forall|k: int|
            0 <= k < after_pushes(batch, pushed).0.len() ==> (#[trigger] after_pushes(
                batch,
                pushed,
            ).0[k]).len() == batch_len(batch),
        after_pushes(batch, pushed).1.len() < batch_len(batch),
    decreases pushed.len(),
{
    if pushed.len() > 0 {
        lemma_batches_lose_nothing(batch, pushed.drop_last());
        let before = after_pushes(batch, pushed.drop_last());
        let after = after_pushes(batch, pushed);
        assert(joined(before.0) + before.1 == pushed.drop_last());
        assert(pushed =~= pushed.drop_last().push(pushed.last()));
        if before.1.len() + 1 >= batch {
            assert(after.0.drop_last() =~= before.0);
            assert(joined(after.0) + after.1 =~= (joined(before.0) + before.1).push(
                pushed.last(),
            ));
        } else {
            assert(joined(after.0) + after.1 =~= (joined(before.0) + before.1).push(
                pushed.last(),
            ));
        }
    } else {
        assert(joined(after_pushes(batch, pushed).0) + after_pushes(batch, pushed).1 =~= pushed);
    }
}

/// One merge into the shared store: the scan that delivered, by its
/// number, and the batch.
pub struct Delivery {
    pub scan: int,
    pub batch: Seq<EntryView>,
}

/// The store that began as `start`, after the deliveries were merged in
/// their order.
pub open spec fn merged(start: Seq<EntryView>, deliveries: Seq<Delivery>) -> Seq<EntryView>
    decreases deliveries.len(),
{
    if deliveries.len() == 0 {
        start
    } else {
        merged(start, deliveries.drop_last()) + deliveries.last().batch
    }
}

/// The entries of a batch, each with the number of the scan that found it.
pub open spec fn tagged_batch(delivery: Delivery) -> Seq<(int, EntryView)> {
    delivery.batch.map_values(|entry: EntryView| (delivery.scan, entry))
}

/// The merged entries in the order of their merging, each with the number
/// of the scan that found it.
pub open spec fn tagged(deliveries: Seq<Delivery>) -> Seq<(int, EntryView)>
    decreases deliveries.len(),
{
    if deliveries.len() == 0 {
        Seq::empty()
    } else {
        tagged(deliveries.drop_last()) + tagged_batch(deliveries.last())
    }
}

/// The entries without the numbers of their scans.
pub open spec fn untagged(entries: Seq<(int, EntryView)>) -> Seq<EntryView> {
    entries.map_values(|found: (int, EntryView)| found.1)
}

/// Of entries with the numbers of their scans, those of one scan, in the
/// order in which they stand.
pub open spec fn of_scan(entries: Seq<(int, EntryView)>, scan: int) -> Seq<EntryView>
    decreases entries.len(),
{
    if entries.len() == 0 {
        Seq::empty()
    } else if entries.last().0 == scan {
        of_scan(entries.drop_last(), scan).push(entries.last().1)
    } else {
        of_scan(entries.drop_last(), scan)
    }
}

/// The batches that one scan delivered, in the order of delivery.
pub open spec fn batches_by(deliveries: Seq<Delivery>, scan: int) -> Seq<Seq<EntryView>>
    decreases deliveries.len(),
{
    if deliveries.len() == 0 {
        Seq::empty()
    } else if deliveries.last().scan == scan {
        batches_by(deliveries.drop_last(), scan).push(deliveries.last().batch)
    } else {
        batches_by(deliveries.drop_last(), scan)
    }
}

/// Number of entries that the scans with the numbers below `scans` have
/// among `entries`.
pub open spec fn found_by_first(entries: Seq<(int, EntryView)>, scans: nat) -> nat
    decreases scans,
{
    if scans == 0 {
        0
    } else {
        found_by_first(entries, (scans - 1) as nat) + of_scan(entries, scans - 1).len()
    }
}

proof fn lemma_of_scan_add(a: Seq<(int, EntryView)>, b: Seq<(int, EntryView)>, scan: int)
    ensures
        of_scan(a + b, scan) == of_scan(a, scan) + of_scan(b, scan),
    decreases b.len(),
{
    if b.len() == 0 {
        assert(a + b =~= a);
        assert(of_scan(a, scan) + of_scan(b, scan) =~= of_scan(a, scan));
    } else {
        lemma_of_scan_add(a, b.drop_last(), scan);
        assert((a + b).drop_last() =~= a + b.drop_last());
        assert((a + b).last() == b.last());
        if b.last().0 == scan {
            assert(of_scan(a, scan) + of_scan(b.drop_last(), scan).push(b.last().1) =~= (of_scan(
                a,
                scan,
            ) + of_scan(b.drop_last(), scan)).push(b.last().1));
        }
    }
}

proof fn lemma_of_scan_batch(delivery: Delivery, scan: int)
    ensures
        of_scan(tagged_batch(delivery), scan) == if delivery.scan == scan {
            delivery.batch
        } else {
            Seq::<EntryView>::empty()
        },
    decreases delivery.batch.len(),
{
    let all = tagged_batch(delivery);
    if delivery.batch.len() > 0 {
        let shorter = Delivery { scan: delivery.scan, batch: delivery.batch.drop_last() };
        lemma_of_scan_batch(shorter, scan);
        assert(all.drop_last() =~= tagged_batch(shorter));
        assert(all.last() == (delivery.scan, delivery.batch.last()));
        if delivery.scan == scan {
            assert(delivery.batch.drop_last().push(delivery.batch.last()) =~= delivery.batch);
        }
    }
}

proof fn lemma_found_by_first_push(entries: Seq<(int, EntryView)>, scans: nat)
    requires
        entries.len() > 0,
    ensures
        found_by_first(entries, scans) == found_by_first(entries.drop_last(), scans) + if 0
            <= entries.last().0 < scans {
            1nat
        } else {
            0nat
        },
    decreases scans,
{
    if scans > 0 {
        lemma_found_by_first_push(entries, (scans - 1) as nat);
    }
}

/// Merging in any order keeps every scan whole: the store is what it was
/// followed by the merged entries; of these, the entries of each scan are
/// the batches that scan delivered, one behind the other, so that none is
/// lost or doubled at the border of a batch and each scan keeps its own
/// order, however the merges of the scans interleave.
pub proof fn lemma_merges_interleave(start: Seq<EntryView>, deliveries: Seq<Delivery>, scan: int)
    ensures
        merged(start, deliveries) == start + untagged(tagged(deliveries)),
        of_scan(tagged(deliveries), scan) == joined(batches_by(deliveries, scan)),
    decreases deliveries.len(),
{
    if deliveries.len() == 0 {
        assert(start + untagged(tagged(deliveries)) =~= start);
    } else {
        let before = deliveries.drop_last();
        let last = deliveries.last();
        lemma_merges_interleave(start, before, scan);
        assert(untagged(tagged(before) + tagged_batch(last)) =~= untagged(tagged(before))
            + last.batch);
        assert(start + untagged(tagged(before)) + last.batch =~= start + (untagged(tagged(before))
            + last.batch));
        lemma_of_scan_add(tagged(before), tagged_batch(last), scan);
        lemma_of_scan_batch(last, scan);
        if last.scan == scan {
            assert(batches_by(deliveries, scan).drop_last() =~= batches_by(before, scan));
        } else {
            assert(of_scan(tagged(before), scan) + Seq::<EntryView>::empty() =~= of_scan(
                tagged(before),
                scan,
            ));
        }
    }
}

/// A scan that sent its entries `pushed` through a buffer, merged every
/// batch the buffer delivered and at its end what the buffer still held,
/// has exactly `pushed` in the store, in that order, whatever other scans
/// merged in between.
pub proof fn lemma_scan_arrives_whole(
    batch: nat,
    pushed: Seq<EntryView>,
    deliveries: Seq<Delivery>,
    scan: int,
)
    requires
        batches_by(deliveries, scan) == after_pushes(batch, pushed).0.push(
            after_pushes(batch, pushed).1,
        ),
    ensures
        of_scan(tagged(deliveries), scan) == pushed,
{
    lemma_merges_interleave(Seq::empty(), deliveries, scan);
    lemma_batches_lose_nothing(batch, pushed);
    let batches = after_pushes(batch, pushed).0;
    let rest = after_pushes(batch, pushed).1;
    assert(batches.push(rest).drop_last() =~= batches);
}

/// Where the scans have the numbers `0` to `scans - 1`, the store grows by
/// as many entries as all scans delivered together.
pub proof fn lemma_merged_count(start: Seq<EntryView>, deliveries: Seq<Delivery>, scans: nat)
    requires
        forall|k: int|
            0 <= k < deliveries.len() ==> 0 <= (#[trigger] deliveries[k]).scan < scans,
    ensures
        merged(start, deliveries).len() == start.len() + found_by_first(
            tagged(deliveries),
            scans,
        ),
{
    lemma_merges_interleave(start, deliveries, 0);
    lemma_tags_in_range(deliveries, scans);
    lemma_count_all(tagged(deliveries), scans);
}

proof fn lemma_tags_in_range(deliveries: Seq<Delivery>, scans: nat)
    requires
        forall|k: int|
            0 <= k < deliveries.len() ==> 0 <= (#[trigger] deliveries[k]).scan < scans,
    ensures
        forall|k: int|
            0 <= k < tagged(deliveries).len() ==> 0 <= (#[trigger] tagged(deliveries)[k]).0
                < scans,
    decreases deliveries.len(),
{
    if deliveries.len() > 0 {
        let before = deliveries.drop_last();
        assert forall|k: int| 0 <= k < before.len() implies 0 <= (#[trigger] before[k]).scan
            < scans by {
            assert(before[k] == deliveries[k]);
        }
        lemma_tags_in_range(before, scans);
        let last = deliveries.last();
        assert(0 <= deliveries[deliveries.len() - 1].scan < scans);
        assert forall|k: int| 0 <= k < tagged(deliveries).len() implies 0 <= (#[trigger] tagged(
            deliveries,
        )[k]).0 < scans by {
            if k >= tagged(before).len() {
                assert(tagged(deliveries)[k] == tagged_batch(last)[k - tagged(before).len()]);
            } else {
                assert(tagged(deliveries)[k] == tagged(before)[k]);
            }
        }
    }
}

proof fn lemma_count_all(entries: Seq<(int, EntryView)>, scans: nat)
    requires
        forall|k: int| 0 <= k < entries.len() ==> 0 <= (#[trigger] entries[k]).0 < scans,
    ensures
        entries.len() == found_by_first(entries, scans),
    decreases entries.len(),
{
    if entries.len() == 0 {
        assert(entries =~= Seq::<(int, EntryView)>::empty());
        lemma_none_found(scans);
    } else {
        let before = entries.drop_last();
        assert forall|k: int| 0 <= k < before.len() implies 0 <= (#[trigger] before[k]).0
            < scans by {
            assert(before[k] == entries[k]);
        }
        lemma_count_all(before, scans);
        lemma_found_by_first_push(entries, scans);
        assert(0 <= entries[entries.len() - 1].0 < scans);
    }
}

proof fn lemma_none_found(scans: nat)
    ensures
        found_by_first(Seq::<(int, EntryView)>::empty(), scans) == 0,
    decreases scans,
{
    if scans > 0 {
        lemma_none_found((scans - 1) as nat);
    }
}

/// The entries that one scan has found and not yet delivered.
pub struct DriveBuffer {
    batch: usize,
    pending: Vec<FileEntry>,
}

impl DriveBuffer {
    /// Size of a batch.
    pub closed spec fn batch(&self) -> nat {
        self.batch as nat
    }

    /// The entries held back, oldest first.
    pub closed spec fn pending(&self) -> Seq<EntryView> {
        self.pending.deep_view()
    }

    /// What holds of every buffer: it holds less than a batch.
    pub open spec fn well_formed(&self) -> bool {
        self.pending().len() < batch_len(self.batch())
    }

    /// An empty buffer that delivers batches of `batch` entries; with a
    /// size of zero it delivers every entry by itself.
    pub fn new(batch: usize) -> (buffer: DriveBuffer)
        ensures
            buffer.batch() == batch,
            buffer.pending() == Seq::<EntryView>::empty(),
            buffer.well_formed(),
    {
        let buffer = DriveBuffer { batch, pending: Vec::new() };
        assert(buffer.pending.deep_view() =~= Seq::<EntryView>::empty());
        buffer
    }

    /// Takes one entry. Hands out the batch to merge as soon as the buffer
    /// holds a full one: the entries it held, and the one that came.
    pub fn push(&mut self, entry: FileEntry) -> (full: Option<Vec<FileEntry>>)
        ensures
            final(self).batch() == old(self).batch(),
            final(self).pending() == push_outcome(
                old(self).batch(),
                old(self).pending(),
                entry@,
            ).1,
            match full {
                Some(delivered) => push_outcome(old(self).batch(), old(self).pending(), entry@).0
                    == Some(delivered.deep_view()),
                None => push_outcome(old(self).batch(), old(self).pending(), entry@).0 is None,
            },
            old(self).well_formed() ==> final(self).well_formed(),
            old(self).well_formed() && full is Some ==> full->0.len() == batch_len(
                old(self).batch(),
            ),
    {
        let ghost before = self.pending.deep_view();
        self.pending.push(entry);
        assert(self.pending.deep_view() =~= before.push(entry@));
        if self.pending.len() >= self.batch {
            let mut delivered: Vec<FileEntry> = Vec::new();
            delivered.append(&mut self.pending);
            assert(delivered.deep_view() =~= before.push(entry@));
            assert(self.pending.deep_view() =~= Seq::<EntryView>::empty());
            Some(delivered)
        } else {
            None
        }
    }

    /// Ends the scan: hands out what is still held back.
    pub fn finish(self) -> (rest: Vec<FileEntry>)
        ensures
            rest.deep_view() == self.pending(),
    {
        self.pending
    }
}

} // verus!
