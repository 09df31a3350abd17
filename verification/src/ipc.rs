//! The asking side of the catalog service: what is done with the outcome of
//! one exchange.

use vstd::prelude::*;
use crate::service::RESPONSE_CAP;
use crate::types::{EntryView, FileEntry, SearchResponse, NO_DRIVE};

verus! {

/// The well-known name of the channel on which the service listens.
pub const PIPE_NAME: &'static str = "\\\\.\\pipe\\starsearch_pipe";

/// Longest time the client waits on one write or read of the exchange, in
/// milliseconds: a server that stalls must not hold a client for ever.
pub const TRANSPORT_WAIT_MS: u64 = 5000;

/// How a query is answered once the exchange with the service is over.
pub enum ClientPlan {
    /// The service answered; these are the entries.
    Remote(Vec<FileEntry>),
    /// The service is not to be had. The caller builds a catalog of its
    /// own, loads it and asks that.
    Local,
}

/// An entry as the client hands it on: without drive and without score.
pub open spec fn received_entry(entry: EntryView) -> EntryView {
    EntryView { drive: NO_DRIVE, score: 0, ..entry }
}

/// The exchange gave nothing to go by: no reply came, it did not decode, or
/// it was empty or larger than a response may be.
pub open spec fn is_unavailable(received: nat, decoded: bool) -> bool {
    received == 0 || received > RESPONSE_CAP || !decoded
}

/// Decides how a query is answered, given the number of bytes read from the
/// channel and the response they decoded to. `reply` is `None` for every
/// failure of the exchange, at connecting, writing, reading or decoding.
///
/// No failure is handed on as an error: an exchange without a usable reply
/// sends the caller to its own catalog. A reply that reports failure is
/// taken at its word and gives no entries.
pub fn client_request(received: usize, reply: Option<SearchResponse>) -> (plan: ClientPlan)
    ensures
        match plan {
            ClientPlan::Local => is_unavailable(received as nat, reply is Some),
            ClientPlan::Remote(entries) => {
                &&& !is_unavailable(received as nat, reply is Some)
                &&& entries.deep_view() == if reply->0.success {
                    reply->0@.results.map_values(|entry: EntryView| received_entry(entry))
                } else {
                    Seq::<EntryView>::empty()
                }
            },
        },
{
    if received == 0 || received > RESPONSE_CAP {
        return ClientPlan::Local;
    }
    let response = match reply {
        Some(response) => response,
        None => { return ClientPlan::Local; },
    };
    let mut entries: Vec<FileEntry> = Vec::new();
    if response.success {
        let ghost plain = response.results.deep_view();
        let mut k: usize = 0;
        while k < response.results.len()
            invariant
                k <= response.results.len(),
                entries.len() == k,
                forall|r: int|
                    0 <= r < k ==> (#[trigger] entries[r])@ == received_entry(
                        response.results[r]@,
                    ),
            decreases response.results.len() - k,
        {
            let entry = &response.results[k];
            entries.push(
                FileEntry {
                    name: entry.name.clone(),
                    path: entry.path.clone(),
                    extension: entry.extension.clone(),
                    size: entry.size,
                    modified: entry.modified,
                    is_dir: entry.is_dir,
                    drive: NO_DRIVE,
                    score: 0,
                },
            );
            k = k + 1;
        }
        assert(entries.deep_view() =~= plain.map_values(|entry: EntryView| received_entry(entry)));
    } else {
        assert(entries.deep_view() =~= Seq::<EntryView>::empty());
    }
    ClientPlan::Remote(entries)
}

} // verus!
