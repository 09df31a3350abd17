//! What one invocation from the command line amounts to.

use vstd::prelude::*;
use crate::config::RuntimeConfig;
use crate::types::{RequestView, SearchRequest};

verus! {

/// Number of results shown where the command line names none.
pub const DEFAULT_MAX_RESULTS: usize = 10;

/// The arguments of one invocation.
#[derive(Debug)]
pub struct CliArgs {
    /// Text to look for.
    pub query: String,
    /// Root to search below; the whole machine where it is absent.
    pub scope: Option<String>,
    /// Search file contents rather than names.
    pub content: bool,
    /// Greatest number of results wanted.
    pub max_results: usize,
}

/// Where a query is taken to.
pub enum SearchRoute {
    /// File contents are searched.
    Content,
    /// The catalog of the whole machine is asked, with this request: first
    /// the service, then the caller's own catalog.
    Catalog(SearchRequest),
    /// The given root is walked on demand; the catalog is not asked.
    CustomPath,
}

/// What an invocation is to do.
pub struct CliPlan {
    pub config: RuntimeConfig,
    pub route: SearchRoute,
}

/// The scope that an invocation names, empty where it names none.
pub open spec fn scope_of(scope: Option<Seq<char>>) -> Seq<char> {
    match scope {
        Some(root) => root,
        None => Seq::empty(),
    }
}

/// Lays out what one invocation is to do.
///
/// A content search goes its own way whatever the scope. A search by name
/// asks the catalog where no scope is given, and walks the scope otherwise.
pub fn run_cli(args: &CliArgs) -> (plan: CliPlan)
    ensures
        plan.config.search_scope@ == scope_of(args.scope.deep_view()),
        plan.config.is_content_search == args.content,
        plan.config.max_results == args.max_results,
        match plan.route {
            SearchRoute::Content => args.content,
            SearchRoute::Catalog(request) => {
                &&& !args.content
                &&& scope_of(args.scope.deep_view()).len() == 0
                &&& request@ == (RequestView {
                    query: args.query@,
                    limit: args.max_results as nat,
                    scope: None,
                })
            },
            SearchRoute::CustomPath => !args.content && scope_of(args.scope.deep_view()).len() > 0,
        },
{
    let search_scope = match &args.scope {
        Some(root) => root.clone(),
        None => String::new(),
    };
    let route = if args.content {
        SearchRoute::Content
    } else if search_scope.as_str().is_empty() {
        SearchRoute::Catalog(SearchRequest::new(args.query.as_str(), args.max_results))
    } else {
        SearchRoute::CustomPath
    };
    CliPlan {
        config: RuntimeConfig {
            search_scope,
            is_content_search: args.content,
            max_results: args.max_results,
        },
        route,
    }
}

} // verus!
