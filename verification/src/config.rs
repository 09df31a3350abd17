//! The settings that the components are given when they are made.

use vstd::prelude::*;
use vstd::string::StringExecFns;

verus! {

/// Greatest number of results a front end asks for unless told otherwise.
pub const MAX_RESULTS: usize = 200;

/// Greatest number of entries that the scan of one drive produces unless
/// told otherwise.
pub const LOCAL_MAX_CACHE: usize = 100_000;

/// Name of the directory, inside the user's local data directory, in which
/// the program keeps its data.
pub const DATA_DIR: &'static str = "StarSearch";

/// Name of the file, inside that directory, in which a front end keeps how
/// often each result was opened.
pub const FRECENCY_FILE: &'static str = "frecency.json";

/// What one invocation asks for.
#[derive(Debug)]
pub struct RuntimeConfig {
    /// Root to search below; empty for the whole machine.
    pub search_scope: String,
    /// Whether file contents are searched rather than names.
    pub is_content_search: bool,
    /// Greatest number of results wanted.
    pub max_results: usize,
}

/// What holds for the whole process.
#[derive(Debug)]
pub struct GlobalConfig {
    /// The directories that a content search of the whole machine covers.
    pub local_work_dirs: Vec<String>,
    /// Greatest number of entries that the scan of one drive produces.
    pub local_max_cache: usize,
}

impl Default for GlobalConfig {
    /// The roots of the drives `C` and `D`, and `LOCAL_MAX_CACHE` entries
    /// for each drive.
    fn default() -> (config: GlobalConfig)
        ensures
            config.local_work_dirs.deep_view() == seq!["C:\\"@, "D:\\"@],
            config.local_max_cache == LOCAL_MAX_CACHE,
    {
        let mut local_work_dirs: Vec<String> = Vec::new();
        local_work_dirs.push(String::from_str("C:\\"));
        local_work_dirs.push(String::from_str("D:\\"));
        assert(local_work_dirs.deep_view() =~= seq!["C:\\"@, "D:\\"@]);
        GlobalConfig { local_work_dirs, local_max_cache: LOCAL_MAX_CACHE }
    }
}

} // verus!
