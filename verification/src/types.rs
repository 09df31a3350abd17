//! The record types of the catalog and of the request/response protocol.

use vstd::prelude::*;
use vstd::string::StringExecFns;

verus! {

/// One file or directory of the catalog.
#[derive(Debug)]
pub struct FileEntry {
    pub name: String,
    /// Full path; unique within one snapshot and the key under which the
    /// entry is persisted.
    pub path: String,
    /// Lower-case extension without the leading dot.
    pub extension: String,
    /// Size in bytes.
    pub size: u64,
    /// Modification time in seconds since the Unix epoch.
    pub modified: u64,
    pub is_dir: bool,
    /// Letter of the drive the entry was found on, or `' '` where it has none.
    pub drive: char,
    /// Ranking score; transient, zero unless a responder sets it.
    pub score: u32,
}

/// What a `FileEntry` holds, as plain mathematical values.
pub struct EntryView {
    pub name: Seq<char>,
    pub path: Seq<char>,
    pub extension: Seq<char>,
    pub size: u64,
    pub modified: u64,
    pub is_dir: bool,
    pub drive: char,
    pub score: u32,
}

impl View for FileEntry {
    type V = EntryView;

    open spec fn view(&self) -> EntryView {
        EntryView {
            name: self.name@,
            path: self.path@,
            extension: self.extension@,
            size: self.size,
            modified: self.modified,
            is_dir: self.is_dir,
            drive: self.drive,
            score: self.score,
        }
    }
}

impl DeepView for FileEntry {
    type V = EntryView;

    open spec fn deep_view(&self) -> EntryView {
        self@
    }
}

impl Clone for FileEntry {
    fn clone(&self) -> (copy: Self)
        ensures
            copy == *self,
    {
        FileEntry {
            name: self.name.clone(),
            path: self.path.clone(),
            extension: self.extension.clone(),
            size: self.size,
            modified: self.modified,
            is_dir: self.is_dir,
            drive: self.drive,
            score: self.score,
        }
    }
}

/// The drive of an entry that belongs to no lettered drive.
pub const NO_DRIVE: char = ' ';

/// One query sent to the catalog service.
#[derive(Debug)]
pub struct SearchRequest {
    /// Text to look for; empty to list the head of the catalog.
    pub query: String,
    /// Greatest number of entries wanted.
    pub limit: usize,
    /// Root to search below, where the whole machine is not meant.
    pub scope: Option<String>,
}

/// What a `SearchRequest` holds, as plain mathematical values.
pub struct RequestView {
    pub query: Seq<char>,
    pub limit: nat,
    pub scope: Option<Seq<char>>,
}

impl View for SearchRequest {
    type V = RequestView;

    open spec fn view(&self) -> RequestView {
        RequestView { query: self.query@, limit: self.limit as nat, scope: self.scope.deep_view() }
    }
}

impl SearchRequest {
    /// A request for at most `limit` entries of the whole machine.
    pub fn new(query: &str, limit: usize) -> (request: SearchRequest)
        ensures
            request@ == (RequestView { query: query@, limit: limit as nat, scope: None }),
    {
        SearchRequest { query: String::from_str(query), limit, scope: None }
    }
}

/// The answer of the catalog service to one request.
#[derive(Debug)]
pub struct SearchResponse {
    /// The entries found, best first.
    pub results: Vec<FileEntry>,
    /// A second count that no responder fills; zero.
    pub total: usize,
    /// Whether the request could be answered.
    pub success: bool,
    /// Time the search took, in milliseconds.
    pub elapsed_ms: u64,
    /// Number of entries in `results`.
    pub total_count: usize,
    /// What went wrong, where `success` is false.
    pub error: Option<String>,
}

/// What a `SearchResponse` holds, as plain mathematical values.
pub struct ResponseView {
    pub results: Seq<EntryView>,
    pub total: nat,
    pub success: bool,
    pub elapsed_ms: u64,
    pub total_count: nat,
    pub error: Option<Seq<char>>,
}

impl View for SearchResponse {
    type V = ResponseView;

    open spec fn view(&self) -> ResponseView {
        ResponseView {
            results: self.results.deep_view(),
            total: self.total as nat,
            success: self.success,
            elapsed_ms: self.elapsed_ms,
            total_count: self.total_count as nat,
            error: self.error.deep_view(),
        }
    }
}

/// A result set as the front ends receive it, whichever way it was found.
#[derive(Debug)]
pub struct SearchResult {
    pub entries: Vec<FileEntry>,
    pub total_found: usize,
    pub elapsed_ms: u64,
}

} // verus!
