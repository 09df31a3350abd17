//! The serving side of the catalog service: what is done with one
//! connection.
//!
//! A connection carries one request and one response. The caller reads the
//! request buffer and decodes it; what happens then is decided here.

use vstd::prelude::*;
use crate::ntfs_search::{search_result, LocalNtfsSearcher};
use crate::types::{EntryView, FileEntry, RequestView, ResponseView, SearchRequest, SearchResponse};

verus! {

/// Name under which the service is installed.
pub const SERVICE_NAME: &'static str = "StarSearch";

/// Greatest size of a request, in bytes.
pub const REQUEST_CAP: usize = 4096;

/// Greatest size of a response, in bytes.
pub const RESPONSE_CAP: usize = 65536;

/// How long the server leaves a written response unclosed so that the
/// client can read it, in milliseconds.
pub const CLOSE_DELAY_MS: u64 = 50;

/// The score that a served entry carries.
pub const SERVED_SCORE: u32 = 1;

/// What the server does with a connection once the request buffer is read.
pub enum ServerAction {
    /// Close the connection without an answer.
    Drop,
    /// Write this response, then close the connection.
    Reply(SearchResponse),
}

/// An entry as the server hands it out.
pub open spec fn served(entry: EntryView) -> EntryView {
    EntryView { score: SERVED_SCORE, ..entry }
}

/// The response to a request, from a catalog with the entries `index`. The
/// elapsed time is left at zero for the caller, who holds the clock.
pub open spec fn answer(index: Seq<EntryView>, request: RequestView) -> ResponseView {
    let results = search_result(index, request.query, request.limit).map_values(
        |entry: EntryView| served(entry),
    );
    ResponseView {
        results,
        total: 0,
        success: true,
        elapsed_ms: 0,
        total_count: results.len(),
        error: None,
    }
}

/// A request buffer of `received` bytes is not answered: it is empty, it is
/// larger than a request may be, or it did not decode.
pub open spec fn is_rejected(received: nat, decoded: bool) -> bool {
    received == 0 || received > REQUEST_CAP || !decoded
}

/// Answers one request from the catalog.
pub fn respond(searcher: &LocalNtfsSearcher, request: &SearchRequest) -> (response: SearchResponse)
    ensures
        response@ == answer(searcher.index(), request@),
{
    let found = searcher.search(request.query.as_str(), request.limit);
    let ghost plain = found.deep_view();
    let mut results: Vec<FileEntry> = Vec::new();
    let mut k: usize = 0;
    while k < found.len()
        invariant
            k <= found.len(),
            results.len() == k,
            forall|r: int| 0 <= r < k ==> (#[trigger] results[r])@ == served(found[r]@),
        decreases found.len() - k,
    {
        let entry = &found[k];
        results.push(
            FileEntry {
                name: entry.name.clone(),
                path: entry.path.clone(),
                extension: entry.extension.clone(),
                size: entry.size,
                modified: entry.modified,
                is_dir: entry.is_dir,
                drive: entry.drive,
                score: SERVED_SCORE,
            },
        );
        k = k + 1;
    }
    assert(results.deep_view() =~= plain.map_values(|entry: EntryView| served(entry)));
    let total_count = results.len();
    SearchResponse { results, total: 0, success: true, elapsed_ms: 0, total_count, error: None }
}

/// Decides what is done with one connection, given the number of bytes
/// read from it and the request they decoded to, if they did.
///
/// A buffer that is empty, too large or not decodable is never answered:
/// the connection is dropped, and the catalog is not touched, so that the
/// next connection is served as if this one had not been.
pub fn handle_client(
    searcher: &LocalNtfsSearcher,
    received: usize,
    request: Option<SearchRequest>,
) -> (action: ServerAction)
    ensures
        match action {
            ServerAction::Drop => is_rejected(received as nat, request is Some),
            ServerAction::Reply(response) => !is_rejected(received as nat, request is Some)
                && response@ == answer(searcher.index(), request->0@),
        },
{
    if received == 0 || received > REQUEST_CAP {
        return ServerAction::Drop;
    }
    match request {
        Some(request) => ServerAction::Reply(respond(searcher, &request)),
        None => ServerAction::Drop,
    }
}

/// Whether an encoded response of `encoded` bytes may be written: one that
/// the reading side has room for.
pub fn fits_response(encoded: usize) -> (fits: bool)
    ensures
        fits == (encoded <= RESPONSE_CAP),
{
    encoded <= RESPONSE_CAP
}

} // verus!
