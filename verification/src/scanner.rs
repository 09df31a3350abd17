//! Producing the entries of one logical drive.
//!
//! Two strategies exist: reading the volume's metadata directly, and walking
//! the directory tree. Both are driven from outside: the caller performs the
//! reads and hands what it read to a scan, which decides what becomes an
//! entry, what is expanded further and when to stop.

use vstd::prelude::*;
use vstd::string::StringExecFns;
use ntfs::structured_values::NtfsFileAttributeFlags;
use nt_string::u16strle::U16StrLe;
use crate::text::{
    contains_seq, derived_extension, extension_of, last_dot, lemma_derived_extension, lowercase_of,
    push_char, str_contains, to_upper, uppercase_of,
};
use crate::types::{EntryView, FileEntry};

verus! {

/// Greatest directory depth that the fallback walk descends to.
pub const WALK_MAX_DEPTH: usize = 20;

/// The text that a UTF-16 little-endian name decodes to, as
/// `U16StrLe::to_string` of the `nt-string` crate decodes it; `None` where it
/// reports an error.
pub uninterp spec fn utf16le_text(raw: Seq<u8>) -> Option<Seq<char>>;

/// Calls `U16StrLe::to_string` on the raw bytes of a name. The decoding is
/// not restated: the outcome is given the name `utf16le_text`, with an error
/// of the decoder standing as `None`.
#[verifier::external_body]
fn decode_name(raw: &[u8]) -> (name: Option<String>)
    ensures
        match name {
            Some(text) => utf16le_text(raw@) == Some(text@),
            None => utf16le_text(raw@) is None,
        },
{
    U16StrLe(raw).to_string().ok()
}

/// Asks the `ntfs` crate whether a file-attribute word marks a directory:
/// `NtfsFileAttributeFlags::from_bits_truncate` followed by `contains` of
/// `IS_DIRECTORY`, which that crate defines as the bit `0x1000_0000`.
#[verifier::external_body]
fn has_directory_flag(attributes: u32) -> (dir: bool)
    ensures
        dir == (attributes & 0x1000_0000 != 0),
{
    NtfsFileAttributeFlags::from_bits_truncate(attributes).contains(
        NtfsFileAttributeFlags::IS_DIRECTORY,
    )
}

/// An upper-cased path carries the mark of a subtree that is left out as
/// a whole: the recycle bin, or the volume's own metadata.
pub open spec fn subtree_marked(upper: Seq<char>) -> bool {
    ||| contains_seq(upper, "\\$RECYCLE.BIN"@)
    ||| contains_seq(upper, "\\SYSTEM VOLUME INFORMATION"@)
}

/// An upper-cased path lies in the system tree and does not hold the name
/// of the shell executable. Of the system tree only what holds that name is
/// catalogued.
pub open spec fn system_marked(upper: Seq<char>) -> bool {
    contains_seq(upper, "C:\\WINDOWS"@) && !contains_seq(upper, "EXPLORER.EXE"@)
}

/// No entry is made of a path that upper-cases to `upper`: it lies in a
/// subtree that is left out as a whole, or in the system tree off the shell
/// executable.
pub open spec fn noise_marked(upper: Seq<char>) -> bool {
    subtree_marked(upper) || system_marked(upper)
}

/// No entry is made of the path. The test is a substring match on the
/// upper-cased path, so that case does not count. This is the one set of
/// exclusions; every scan applies it.
pub open spec fn is_noise_path(path: Seq<char>) -> bool {
    noise_marked(uppercase_of(path))
}

/// The path lies in a subtree that is left out as a whole: no entry is made
/// of it, and nothing below it is looked at. A directory of the system tree
/// is not closed in this way, because the shell executable lies below it.
pub open spec fn is_closed_path(path: Seq<char>) -> bool {
    subtree_marked(uppercase_of(path))
}

/// Looks in a path that is already upper-cased for the marks of the
/// subtrees that are left out as a whole.
pub fn has_subtree_mark(upper: &str) -> (closed: bool)
    ensures
        closed == subtree_marked(upper@),
{
    str_contains(upper, "\\$RECYCLE.BIN") || str_contains(upper, "\\SYSTEM VOLUME INFORMATION")
}

/// Looks in a path that is already upper-cased for what keeps it out of the
/// catalog.
pub fn has_noise_mark(upper: &str) -> (noise: bool)
    ensures
        noise == noise_marked(upper@),
{
    has_subtree_mark(upper) || (str_contains(upper, "C:\\WINDOWS") && !str_contains(
        upper,
        "EXPLORER.EXE",
    ))
}

/// Tells whether no entry is made of a path.
pub fn is_noise(path: &str) -> (noise: bool)
    ensures
        noise == is_noise_path(path@),
{
    let upper = to_upper(path);
    has_noise_mark(upper.as_str())
}

/// The path of a child: the parent's path, a backslash, the child's name.
pub open spec fn child_path(parent: Seq<char>, name: Seq<char>) -> Seq<char> {
    parent + seq!['\\'] + name
}

/// Joins a parent path and a name with a backslash.
pub fn join_path(parent: &str, name: &str) -> (path: String)
    ensures
        path@ == child_path(parent@, name@),
{
    let mut path = String::from_str(parent);
    push_char(&mut path, '\\');
    path.append(name);
    path
}

/// `name` is one of the two self-references of a directory, `.` and `..`.
pub open spec fn is_dot_entry(name: Seq<char>) -> bool {
    name == seq!['.'] || name == seq!['.', '.']
}

fn is_dot_name(name: &str) -> (dot: bool)
    ensures
        dot == is_dot_entry(name@),
{
    let n = name.unicode_len();
    if n == 1 {
        let dot = name.get_char(0) == '.';
        assert(dot ==> name@ =~= seq!['.']);
        dot
    } else if n == 2 {
        let dot = name.get_char(0) == '.' && name.get_char(1) == '.';
        assert(dot ==> name@ =~= seq!['.', '.']);
        dot
    } else {
        false
    }
}

/// The entry that a scan makes of a name found under `path`.
pub open spec fn produced_entry(
    name: Seq<char>,
    path: Seq<char>,
    size: u64,
    modified: u64,
    is_dir: bool,
    drive: char,
) -> EntryView {
    EntryView {
        name,
        path,
        extension: derived_extension(name),
        size,
        modified,
        is_dir,
        drive,
        score: 0,
    }
}

/// Every entry of `entries` carries the extension derived from its name.
pub open spec fn extensions_derived(entries: Seq<EntryView>) -> bool {
    forall|i: int|
        0 <= i < entries.len() ==> (#[trigger] entries[i]).extension == derived_extension(
            entries[i].name,
        )
}

/// What the extension of every entry of a scan is: nothing where the name
/// has no dot, where its last dot is its first character, and where it ends
/// in a dot; else the lower-case form of what stands behind the last dot of
/// the name, in which there is no dot.
pub proof fn lemma_entry_extension(entries: Seq<EntryView>, i: int)
    requires
        extensions_derived(entries),
        0 <= i < entries.len(),
    ensures
        match last_dot(entries[i].name) {
            Some(d) => if 0 < d < entries[i].name.len() - 1 {
                &&& entries[i].extension == lowercase_of(
                    entries[i].name.subrange(d + 1, entries[i].name.len() as int),
                )
                &&& !entries[i].name.subrange(d + 1, entries[i].name.len() as int).contains('.')
            } else {
                entries[i].extension == Seq::<char>::empty()
            },
            None => entries[i].extension == Seq::<char>::empty() && !entries[i].name.contains(
                '.',
            ),
        },
{
    lemma_derived_extension(entries[i].name);
}

fn make_entry(name: String, path: String, size: u64, modified: u64, is_dir: bool, drive: char) -> (entry:
    FileEntry)
    ensures
        entry@ == produced_entry(name@, path@, size, modified, is_dir, drive),
{
    let extension = extension_of(name.as_str());
    FileEntry { name, path, extension, size, modified, is_dir, drive, score: 0 }
}

/// A directory that a direct read has still to expand.
pub struct PendingDir {
    /// Number of the directory's file record on the volume.
    pub record: u64,
    /// Full path of the directory.
    pub path: String,
}

impl View for PendingDir {
    type V = (u64, Seq<char>);

    open spec fn view(&self) -> (u64, Seq<char>) {
        (self.record, self.path@)
    }
}

impl DeepView for PendingDir {
    type V = (u64, Seq<char>);

    open spec fn deep_view(&self) -> (u64, Seq<char>) {
        self@
    }
}

/// The traversal of one volume by direct metadata read.
///
/// The directories still to expand are kept on an explicit stack, so that the
/// depth of the tree on disk never becomes a depth of calls. The caller takes
/// the file record of a directory with `next_directory`, reads its index, and
/// offers each index entry with `offer`; the scan keeps the path of the
/// directory that is being expanded.
pub struct DirectScan {
    drive: char,
    cap: usize,
    stack: Vec<PendingDir>,
    current: Option<String>,
    entries: Vec<FileEntry>,
}

impl DirectScan {
    /// What holds of every scan: it has produced no more than its cap, and
    /// each entry carries the extension derived from its name.
    pub open spec fn well_formed(&self) -> bool {
        &&& self.found().len() <= self.cap()
        &&& extensions_derived(self.found())
    }

    /// Letter of the drive being scanned.
    pub closed spec fn drive(&self) -> char {
        self.drive
    }

    /// Greatest number of entries the scan produces.
    pub closed spec fn cap(&self) -> nat {
        self.cap as nat
    }

    /// The directories still to expand, each with the number of its file
    /// record and its path; the last is expanded next.
    pub closed spec fn pending(&self) -> Seq<(u64, Seq<char>)> {
        self.stack.deep_view()
    }

    /// Path of the directory whose index entries are being offered, if one
    /// has been taken.
    pub closed spec fn expanding(&self) -> Option<Seq<char>> {
        self.current.deep_view()
    }

    /// The entries produced so far, in the order they were found.
    pub closed spec fn found(&self) -> Seq<EntryView> {
        self.entries.deep_view()
    }

    /// The scan expands no further directory: the cap is reached or no
    /// directory is left.
    pub open spec fn is_finished(&self) -> bool {
        self.found().len() >= self.cap() || self.pending().len() == 0
    }

    /// The name and path of an index entry of the directory `parent` that
    /// the scan looks at, or `None` where it passes the entry over: a name
    /// that does not decode, a self-reference, or a path in a subtree that
    /// is left out as a whole.
    pub open spec fn admitted(parent: Seq<char>, raw_name: Seq<u8>) -> Option<
        (Seq<char>, Seq<char>),
    > {
        match utf16le_text(raw_name) {
            Some(name) => if is_dot_entry(name) || is_closed_path(child_path(parent, name)) {
                None
            } else {
                Some((name, child_path(parent, name)))
            },
            None => None,
        }
    }

    /// The name and path of an offered index entry that the scan looks at:
    /// those of an admitted entry, provided that a directory is being
    /// expanded and the cap is not reached.
    pub open spec fn taken(&self, raw_name: Seq<u8>) -> Option<(Seq<char>, Seq<char>)> {
        if self.found().len() < self.cap() && self.expanding() is Some {
            Self::admitted(self.expanding()->0, raw_name)
        } else {
            None
        }
    }

    /// Starts the scan of `drive` at the directory with file record
    /// `root_record`, whose path is the drive letter and a colon.
    pub fn new(drive: char, cap: usize, root_record: u64) -> (scan: DirectScan)
        ensures
            scan.drive() == drive,
            scan.cap() == cap,
            scan.found() == Seq::<EntryView>::empty(),
            scan.pending() == seq![(root_record, seq![drive, ':'])],
            scan.expanding() is None,
            scan.well_formed(),
    {
        let mut path = String::new();
        push_char(&mut path, drive);
        push_char(&mut path, ':');
        assert(path@ =~= seq![drive, ':']);
        let mut stack: Vec<PendingDir> = Vec::new();
        stack.push(PendingDir { record: root_record, path });
        let entries: Vec<FileEntry> = Vec::new();
        assert(stack.deep_view() =~= seq![(root_record, seq![drive, ':'])]);
        assert(entries.deep_view() =~= Seq::<EntryView>::empty());
        DirectScan { drive, cap, stack, current: None, entries }
    }

    /// Number of entries produced so far.
    pub fn len(&self) -> (n: usize)
        ensures
            n == self.found().len(),
    {
        self.entries.len()
    }

    /// Takes the directory to expand next and returns the number of its file
    /// record, or `None` when the scan is over: the cap is reached or no
    /// directory is left.
    pub fn next_directory(&mut self) -> (next: Option<u64>)
        ensures
            old(self).well_formed() ==> final(self).well_formed(),
            final(self).drive() == old(self).drive(),
            final(self).cap() == old(self).cap(),
            final(self).found() == old(self).found(),
            old(self).is_finished() ==> {
                &&& next is None
                &&& final(self).pending() == old(self).pending()
                &&& final(self).expanding() is None
            },
            !old(self).is_finished() ==> {
                &&& next == Some(old(self).pending().last().0)
                &&& final(self).pending() == old(self).pending().drop_last()
                &&& final(self).expanding() == Some(old(self).pending().last().1)
            },
    {
        if self.entries.len() >= self.cap {
            self.current = None;
            return None;
        }
        let ghost before = self.stack.deep_view();
        match self.stack.pop() {
            Some(dir) => {
                assert(self.stack.deep_view() =~= before.drop_last());
                assert(dir@ == before.last());
                self.current = Some(dir.path);
                Some(dir.record)
            },
            None => {
                assert(self.stack.deep_view() =~= before);
                self.current = None;
                None
            },
        }
    }

    /// Offers one entry of the index of the directory being expanded: the
    /// raw UTF-16 bytes of its name, its file-attribute word and the number
    /// of its file record.
    ///
    /// Returns whether the caller should go on offering. The path of an
    /// entry is the path of the directory, a backslash and its name. An
    /// entry that the scan looks at is produced, with size and modification
    /// time zero, unless its path is excluded; a directory among those
    /// looked at is put on the stack, excluded or not. A directory of the
    /// system tree is thus expanded without being catalogued, and what
    /// leads to the shell executable is found below it.
    pub fn offer(&mut self, raw_name: &[u8], attributes: u32, record: u64) -> (more: bool)
        ensures
            old(self).well_formed() ==> final(self).well_formed(),
            final(self).drive() == old(self).drive(),
            final(self).cap() == old(self).cap(),
            final(self).expanding() == old(self).expanding(),
            more == (final(self).found().len() < final(self).cap() && final(self).expanding()
                is Some),
            match old(self).taken(raw_name@) {
                Some((name, path)) => {
                    let is_dir = attributes & 0x1000_0000 != 0;
                    &&& final(self).found() == if is_noise_path(path) {
                        old(self).found()
                    } else {
                        old(self).found().push(
                            produced_entry(name, path, 0, 0, is_dir, old(self).drive()),
                        )
                    }
                    &&& final(self).pending() == if is_dir {
                        old(self).pending().push((record, path))
                    } else {
                        old(self).pending()
                    }
                },
                None => {
                    &&& final(self).found() == old(self).found()
                    &&& final(self).pending() == old(self).pending()
                },
            },
    {
        if self.entries.len() >= self.cap {
            return false;
        }
        let parent = match &self.current {
            Some(parent) => parent,
            None => { return false; },
        };
        let name = match decode_name(raw_name) {
            Some(name) => name,
            None => { return true; },
        };
        if is_dot_name(name.as_str()) {
            return true;
        }
        let path = join_path(parent.as_str(), name.as_str());
        let upper = to_upper(path.as_str());
        if has_subtree_mark(upper.as_str()) {
            return true;
        }
        let is_dir = has_directory_flag(attributes);
        let ghost found = self.entries.deep_view();
        let ghost pending = self.stack.deep_view();
        if !has_noise_mark(upper.as_str()) {
            let entry = make_entry(name, path.clone(), 0, 0, is_dir, self.drive);
            self.entries.push(entry);
            assert(self.entries.deep_view() =~= found.push(entry@));
        }
        if is_dir {
            self.stack.push(PendingDir { record, path });
            assert(self.stack.deep_view() =~= pending.push((record, path@)));
        }
        self.entries.len() < self.cap
    }

    /// Ends the scan and hands out what it produced.
    pub fn finish(self) -> (entries: Vec<FileEntry>)
        ensures
            entries.deep_view() == self.found(),
    {
        self.entries
    }
}

/// What the file system reports of one walked path.
#[derive(Clone, Copy, Debug)]
pub struct FileMeta {
    /// Size in bytes.
    pub size: u64,
    /// Modification time in seconds since the Unix epoch; zero where the
    /// file system gives none.
    pub modified: u64,
    pub is_dir: bool,
}

/// The fallback scan of one drive: a walk of its directory tree, performed
/// by the caller without following links, each visited path being offered
/// with `offer` together with its depth below the root of the drive.
pub struct WalkScan {
    drive: char,
    cap: usize,
    entries: Vec<FileEntry>,
}

impl WalkScan {
    /// What holds of every walk: it has produced no more than its cap, and
    /// each entry carries the extension derived from its name.
    pub open spec fn well_formed(&self) -> bool {
        &&& self.found().len() <= self.cap()
        &&& extensions_derived(self.found())
    }

    /// Letter of the drive being scanned.
    pub closed spec fn drive(&self) -> char {
        self.drive
    }

    /// Greatest number of entries the scan produces.
    pub closed spec fn cap(&self) -> nat {
        self.cap as nat
    }

    /// The entries produced so far, in the order they were found.
    pub closed spec fn found(&self) -> Seq<EntryView> {
        self.entries.deep_view()
    }

    /// A walked path is catalogued: it lies no deeper than `WALK_MAX_DEPTH`,
    /// it is not excluded, and its metadata could be read.
    pub open spec fn admits(path: Seq<char>, depth: nat, meta: Option<FileMeta>) -> bool {
        &&& depth <= WALK_MAX_DEPTH
        &&& !is_noise_path(path)
        &&& meta is Some
    }

    /// Starts the walk of `drive`.
    pub fn new(drive: char, cap: usize) -> (scan: WalkScan)
        ensures
            scan.drive() == drive,
            scan.cap() == cap,
            scan.found() == Seq::<EntryView>::empty(),
            scan.well_formed(),
    {
        let entries: Vec<FileEntry> = Vec::new();
        assert(entries.deep_view() =~= Seq::<EntryView>::empty());
        WalkScan { drive, cap, entries }
    }

    /// The path at which the walk of `drive` starts: the letter, a colon and
    /// a backslash.
    pub fn root(drive: char) -> (path: String)
        ensures
            path@ == seq![drive, ':', '\\'],
    {
        let mut path = String::new();
        push_char(&mut path, drive);
        push_char(&mut path, ':');
        push_char(&mut path, '\\');
        assert(path@ =~= seq![drive, ':', '\\']);
        path
    }

    /// Number of entries produced so far.
    pub fn len(&self) -> (n: usize)
        ensures
            n == self.found().len(),
    {
        self.entries.len()
    }

    /// Offers one walked path with its file name, its depth below the root
    /// (the root itself at depth zero) and, where it could be read, its
    /// metadata. Returns whether the walk should go on.
    pub fn offer(&mut self, path: &str, name: &str, depth: usize, meta: Option<FileMeta>) -> (more:
        bool)
        ensures
            old(self).well_formed() ==> final(self).well_formed(),
            final(self).drive() == old(self).drive(),
            final(self).cap() == old(self).cap(),
            more == (final(self).found().len() < final(self).cap()),
            final(self).found() == if old(self).found().len() < old(self).cap() && Self::admits(
                path@,
                depth as nat,
                meta,
            ) {
                old(self).found().push(
                    produced_entry(
                        name@,
                        path@,
                        meta->0.size,
                        meta->0.modified,
                        meta->0.is_dir,
                        old(self).drive(),
                    ),
                )
            } else {
                old(self).found()
            },
    {
        if self.entries.len() >= self.cap {
            return false;
        }
        if depth > WALK_MAX_DEPTH || is_noise(path) {
            return true;
        }
        let meta = match meta {
            Some(meta) => meta,
            None => { return true; },
        };
        let ghost found = self.entries.deep_view();
        let entry = make_entry(
            String::from_str(name),
            String::from_str(path),
            meta.size,
            meta.modified,
            meta.is_dir,
            self.drive,
        );
        self.entries.push(entry);
        assert(self.entries.deep_view() =~= found.push(entry@));
        self.entries.len() < self.cap
    }

    /// Ends the walk and hands out what it produced.
    pub fn finish(self) -> (entries: Vec<FileEntry>)
        ensures
            entries.deep_view() == self.found(),
    {
        self.entries
    }
}

/// How the entries of a drive are obtained.
#[derive(Clone, Copy, Debug, PartialEq, Eq, Structural)]
pub enum ScanStrategy {
    /// Reading the volume's metadata directly; needs elevated privilege.
    DirectRead,
    /// Walking the directory tree.
    Walk,
}

/// What has happened so far in the scan of one drive.
pub enum ScanStep {
    /// Nothing yet.
    Begin,
    /// The direct read ran to its end and produced these entries.
    DirectDone(Vec<FileEntry>),
    /// The direct read failed: the volume could not be opened, its structure
    /// did not decode, or a fault was caught while decoding.
    DirectFailed,
    /// The walk ran to its end and produced these entries.
    WalkDone(Vec<FileEntry>),
}

/// What the scan of one drive does next.
pub enum ScanAction {
    /// Run the strategy.
    Run(ScanStrategy),
    /// The scan is over with these entries.
    Finish(Vec<FileEntry>),
}

/// The strategy a scan begins with: the direct read for a process with
/// elevated privilege, the walk for any other.
pub open spec fn first_strategy(elevated: bool) -> ScanStrategy {
    if elevated {
        ScanStrategy::DirectRead
    } else {
        ScanStrategy::Walk
    }
}

/// Decides the next action of the scan of one drive.
///
/// A direct read is only begun with elevated privilege. Whenever it fails,
/// or ends without a single entry, the walk follows; what the walk produced
/// is final.
pub fn scan_drive(elevated: bool, step: ScanStep) -> (action: ScanAction)
    ensures
        match step {
            ScanStep::Begin => action matches ScanAction::Run(strategy) && strategy
                == first_strategy(elevated),
            ScanStep::DirectDone(entries) => if entries.len() > 0 {
                action matches ScanAction::Finish(out) && out == entries
            } else {
                action matches ScanAction::Run(strategy) && strategy == ScanStrategy::Walk
            },
            ScanStep::DirectFailed => action matches ScanAction::Run(strategy) && strategy
                == ScanStrategy::Walk,
            ScanStep::WalkDone(entries) => action matches ScanAction::Finish(out) && out
                == entries,
        },
{
    match step {
        ScanStep::Begin => if elevated {
            ScanAction::Run(ScanStrategy::DirectRead)
        } else {
            ScanAction::Run(ScanStrategy::Walk)
        },
        ScanStep::DirectDone(entries) => if entries.len() > 0 {
            ScanAction::Finish(entries)
        } else {
            ScanAction::Run(ScanStrategy::Walk)
        },
        ScanStep::DirectFailed => ScanAction::Run(ScanStrategy::Walk),
        ScanStep::WalkDone(entries) => ScanAction::Finish(entries),
    }
}

} // verus!
