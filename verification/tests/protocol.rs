use starsearch::cli::{run_cli, CliArgs, SearchRoute, DEFAULT_MAX_RESULTS};
use starsearch::ipc::{client_request, ClientPlan, PIPE_NAME};
use starsearch::ntfs_search::{LoadEvent, LocalNtfsSearcher};
use starsearch::service::{
    fits_response, handle_client, respond, ServerAction, REQUEST_CAP, RESPONSE_CAP, SERVICE_NAME,
};
use starsearch::types::{FileEntry, SearchRequest, SearchResponse};

fn entry(name: &str, path: &str) -> FileEntry {
    FileEntry {
        name: name.to_string(),
        path: path.to_string(),
        extension: "txt".to_string(),
        size: 10,
        modified: 20,
        is_dir: false,
        drive: 'C',
        score: 0,
    }
}

fn catalog() -> LocalNtfsSearcher {
    let mut searcher = LocalNtfsSearcher::new();
    searcher.load_all_drives(LoadEvent::Requested);
    searcher.load_all_drives(LoadEvent::CacheRead(vec![
        entry("report.PDF", "report.PDF"),
        entry("old.txt", "reports/old.txt"),
        entry("notes.txt", "notes.txt"),
    ]));
    searcher
}

fn reply_of(action: ServerAction) -> SearchResponse {
    match action {
        ServerAction::Reply(response) => response,
        ServerAction::Drop => panic!("the request must be answered"),
    }
}

fn response(success: bool, results: Vec<FileEntry>) -> SearchResponse {
    let total_count = results.len();
    SearchResponse { results, total: 0, success, elapsed_ms: 3, total_count, error: None }
}

#[test]
fn request_for_the_whole_machine_has_no_scope() {
    let request = SearchRequest::new("needle", 25);
    assert_eq!(request.query, "needle");
    assert_eq!(request.limit, 25);
    assert_eq!(request.scope, None);
}

#[test]
fn response_carries_ranked_entries_with_count_and_score() {
    let searcher = catalog();
    let response = respond(&searcher, &SearchRequest::new("report", 10));
    assert!(response.success);
    assert_eq!(response.error, None);
    assert_eq!(response.total, 0);
    assert_eq!(response.elapsed_ms, 0);
    assert_eq!(response.total_count, 2);
    assert_eq!(response.results.len(), 2);
    assert_eq!(response.results[0].name, "report.PDF");
    assert_eq!(response.results[1].path, "reports/old.txt");
    for e in &response.results {
        assert_eq!(e.score, 1);
        assert_eq!(e.size, 10);
        assert_eq!(e.modified, 20);
        assert_eq!(e.drive, 'C');
        assert_eq!(e.extension, "txt");
    }
}

#[test]
fn response_respects_the_limit_of_the_request() {
    let searcher = catalog();
    let response = respond(&searcher, &SearchRequest::new("", 2));
    assert_eq!(response.total_count, 2);
    assert_eq!(response.results[0].name, "report.PDF");
    assert_eq!(response.results[1].name, "old.txt");
}

#[test]
fn server_answers_a_decoded_request() {
    let searcher = catalog();
    let response = reply_of(handle_client(&searcher, 57, Some(SearchRequest::new("notes", 5))));
    assert_eq!(response.total_count, 1);
    assert_eq!(response.results[0].name, "notes.txt");
}

#[test]
fn server_answers_a_request_that_fills_the_buffer() {
    let searcher = catalog();
    let action = handle_client(&searcher, REQUEST_CAP, Some(SearchRequest::new("notes", 5)));
    assert_eq!(reply_of(action).total_count, 1);
}

#[test]
fn server_drops_an_empty_buffer() {
    let searcher = catalog();
    assert!(matches!(handle_client(&searcher, 0, None), ServerAction::Drop));
    assert!(matches!(
        handle_client(&searcher, 0, Some(SearchRequest::new("notes", 5))),
        ServerAction::Drop
    ));
}

#[test]
fn server_drops_an_undecodable_payload() {
    let searcher = catalog();
    assert!(matches!(handle_client(&searcher, 12, None), ServerAction::Drop));
}

#[test]
fn server_drops_an_oversized_payload() {
    let searcher = catalog();
    assert_eq!(REQUEST_CAP, 4096);
    assert!(matches!(
        handle_client(&searcher, REQUEST_CAP + 1, Some(SearchRequest::new("notes", 5))),
        ServerAction::Drop
    ));
    assert!(matches!(handle_client(&searcher, usize::MAX, None), ServerAction::Drop));
}

#[test]
fn server_serves_the_next_connection_after_a_bad_one() {
    let searcher = catalog();
    let before = reply_of(handle_client(&searcher, 40, Some(SearchRequest::new("report", 10))));
    assert!(matches!(handle_client(&searcher, 9000, None), ServerAction::Drop));
    assert!(matches!(handle_client(&searcher, 33, None), ServerAction::Drop));
    let after = reply_of(handle_client(&searcher, 40, Some(SearchRequest::new("report", 10))));
    assert_eq!(searcher.len(), 3);
    assert_eq!(after.total_count, before.total_count);
    let paths = |r: &SearchResponse| r.results.iter().map(|e| e.path.clone()).collect::<Vec<_>>();
    assert_eq!(paths(&after), paths(&before));
    assert_eq!(paths(&after), vec!["report.PDF", "reports/old.txt"]);
}

#[test]
fn response_cap_is_64_kib() {
    assert_eq!(RESPONSE_CAP, 65536);
    assert!(fits_response(0));
    assert!(fits_response(65536));
    assert!(!fits_response(65537));
}

#[test]
fn channel_and_service_names_are_fixed() {
    assert_eq!(PIPE_NAME, r"\\.\pipe\starsearch_pipe");
    assert_eq!(SERVICE_NAME, "StarSearch");
}

#[test]
fn client_without_a_server_answers_from_its_own_catalog() {
    let plan = client_request(0, None);
    assert!(matches!(plan, ClientPlan::Local));
    let results = match plan {
        ClientPlan::Remote(entries) => entries,
        ClientPlan::Local => catalog().search("report", 10),
    };
    assert_eq!(results.len(), 2);
    let empty = match client_request(0, None) {
        ClientPlan::Remote(entries) => entries,
        ClientPlan::Local => LocalNtfsSearcher::new().search("report", 10),
    };
    assert!(empty.is_empty());
}

#[test]
fn client_falls_back_on_a_reply_that_does_not_decode() {
    assert!(matches!(client_request(120, None), ClientPlan::Local));
}

#[test]
fn client_falls_back_on_an_empty_or_oversized_reply() {
    assert!(matches!(client_request(0, Some(response(true, Vec::new()))), ClientPlan::Local));
    assert!(matches!(
        client_request(RESPONSE_CAP + 1, Some(response(true, Vec::new()))),
        ClientPlan::Local
    ));
}

#[test]
fn client_takes_the_entries_of_a_reply_without_drive_and_score() {
    let mut served = entry("a.txt", "C:\\a.txt");
    served.score = 1;
    served.is_dir = true;
    match client_request(300, Some(response(true, vec![served, entry("b.txt", "C:\\b.txt")]))) {
        ClientPlan::Remote(entries) => {
            assert_eq!(entries.len(), 2);
            assert_eq!(entries[0].name, "a.txt");
            assert_eq!(entries[0].path, "C:\\a.txt");
            assert_eq!(entries[0].extension, "txt");
            assert_eq!(entries[0].size, 10);
            assert_eq!(entries[0].modified, 20);
            assert!(entries[0].is_dir);
            assert_eq!(entries[0].drive, ' ');
            assert_eq!(entries[0].score, 0);
            assert_eq!(entries[1].name, "b.txt");
        },
        ClientPlan::Local => panic!("a decoded reply must be used"),
    }
}

#[test]
fn client_takes_a_reported_failure_as_no_entries() {
    match client_request(80, Some(response(false, vec![entry("a.txt", "C:\\a.txt")]))) {
        ClientPlan::Remote(entries) => assert!(entries.is_empty()),
        ClientPlan::Local => panic!("a decoded reply must be used"),
    }
}

#[test]
fn client_takes_a_reply_that_fills_the_buffer() {
    assert!(matches!(
        client_request(RESPONSE_CAP, Some(response(true, Vec::new()))),
        ClientPlan::Remote(_)
    ));
}

fn args(query: &str, scope: Option<&str>, content: bool, max_results: usize) -> CliArgs {
    CliArgs { query: query.to_string(), scope: scope.map(|s| s.to_string()), content, max_results }
}

#[test]
fn name_search_without_scope_asks_the_catalog() {
    let plan = run_cli(&args("budget", None, false, DEFAULT_MAX_RESULTS));
    assert_eq!(plan.config.search_scope, "");
    assert!(!plan.config.is_content_search);
    assert_eq!(plan.config.max_results, 10);
    match plan.route {
        SearchRoute::Catalog(request) => {
            assert_eq!(request.query, "budget");
            assert_eq!(request.limit, 10);
            assert_eq!(request.scope, None);
        },
        _ => panic!("the catalog must be asked"),
    }
}

#[test]
fn empty_scope_counts_as_no_scope() {
    let plan = run_cli(&args("budget", Some(""), false, 3));
    assert!(matches!(plan.route, SearchRoute::Catalog(_)));
}

#[test]
fn name_search_with_scope_walks_the_scope() {
    let plan = run_cli(&args("budget", Some("E:\\stick"), false, 7));
    assert_eq!(plan.config.search_scope, "E:\\stick");
    assert_eq!(plan.config.max_results, 7);
    assert!(matches!(plan.route, SearchRoute::CustomPath));
}

#[test]
fn content_search_goes_its_own_way() {
    let whole = run_cli(&args("fn main", None, true, 5));
    assert!(whole.config.is_content_search);
    assert!(matches!(whole.route, SearchRoute::Content));
    let scoped = run_cli(&args("fn main", Some("E:\\src"), true, 5));
    assert_eq!(scoped.config.search_scope, "E:\\src");
    assert!(matches!(scoped.route, SearchRoute::Content));
}
