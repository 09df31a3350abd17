//! The front of the desktop search tool whose command-line client answers
//! the interactive searches: the command line it is given, and what is made
//! of what it prints.
//!
//! Running the tool is the caller's part. The caller hands over what the
//! tool printed and takes back entries, scored and in order.

use vstd::prelude::*;
use vstd::string::StringExecFns;
use crate::chars::{
    begins_with, chars_of, has_char, holds_char, read_size, replace_all, replaced, same_text, seek,
    seek_class, size_in, split_words, stands_at, strip, text_of, trimmed, words_of, CharClass,
};
use crate::ranking::{positions, rank_by_weight, ranking, weights_of};
use crate::text::{
    contains_seq, find_last_dot, last_dot, lowercase_of, str_contains, to_lower,
};

verus! {

/// Name of the instance of the search tool that is asked; empty for the
/// unnamed instance.
pub const ES_INSTANCE: &'static str = "1.5a";

/// Greatest number of results asked of the tool.
pub const ES_MAX_RESULTS: &'static str = "100";

/// Time for which the answer to a query is taken from memory, in seconds.
pub const CACHE_SECONDS: u64 = 30;

/// Number of remembered queries beyond which all are forgotten.
pub const CACHE_ENTRIES: usize = 100;

/// How often the tool is asked whether it runs, once it has been started.
pub const STARTUP_TRIES: u32 = 15;

/// Pause before each such question, in milliseconds.
pub const STARTUP_PAUSE_MS: u64 = 200;

/// One result of the desktop search tool.
#[derive(Debug)]
pub struct SearchEntry {
    /// File name, the last part of the path.
    pub name: String,
    /// Full path.
    pub path: String,
    /// Size in bytes.
    pub size: u64,
    pub is_dir: bool,
    /// How well the entry answers the query; a greater score is shown
    /// earlier.
    pub score: i32,
}

/// What a `SearchEntry` holds, as plain mathematical values.
pub struct SearchEntryView {
    pub name: Seq<char>,
    pub path: Seq<char>,
    pub size: u64,
    pub is_dir: bool,
    pub score: i32,
}

impl View for SearchEntry {
    type V = SearchEntryView;

    open spec fn view(&self) -> SearchEntryView {
        SearchEntryView {
            name: self.name@,
            path: self.path@,
            size: self.size,
            is_dir: self.is_dir,
            score: self.score,
        }
    }
}

impl DeepView for SearchEntry {
    type V = SearchEntryView;

    open spec fn deep_view(&self) -> SearchEntryView {
        self@
    }
}

impl Clone for SearchEntry {
    fn clone(&self) -> (copy: Self)
        ensures
            copy == *self,
    {
        SearchEntry {
            name: self.name.clone(),
            path: self.path.clone(),
            size: self.size,
            is_dir: self.is_dir,
            score: self.score,
        }
    }
}

/// The extension of a file name: what stands behind its last dot, which may
/// be nothing; `None` where the name has no dot or only a leading one.
pub open spec fn extension_in(name: Seq<char>) -> Option<Seq<char>> {
    let d = last_dot(name);
    if d is Some && d->0 > 0 {
        Some(name.subrange(d->0 + 1, name.len() as int))
    } else {
        None
    }
}

/// The icon shown for a file with the lower-cased extension `ext`.
pub open spec fn icon_for(ext: Seq<char>) -> Seq<char> {
    if ext == "rs"@ {
        "🦀"@
    } else if ext == "py"@ {
        "🐍"@
    } else if ext == "js"@ || ext == "ts"@ || ext == "jsx"@ || ext == "tsx"@ {
        "📜"@
    } else if ext == "html"@ || ext == "css"@ || ext == "scss"@ {
        "🌐"@
    } else if ext == "json"@ || ext == "yaml"@ || ext == "yml"@ || ext == "toml"@ || ext
        == "xml"@ {
        "⚙"@
    } else if ext == "md"@ || ext == "txt"@ || ext == "doc"@ || ext == "docx"@ {
        "📝"@
    } else if ext == "png"@ || ext == "jpg"@ || ext == "jpeg"@ || ext == "gif"@ || ext == "svg"@
        || ext == "webp"@ {
        "🖼"@
    } else if ext == "mp3"@ || ext == "wav"@ || ext == "flac"@ || ext == "m4a"@ {
        "🎵"@
    } else if ext == "mp4"@ || ext == "avi"@ || ext == "mkv"@ || ext == "wmv"@ {
        "🎬"@
    } else if ext == "zip"@ || ext == "rar"@ || ext == "7z"@ || ext == "tar"@ || ext == "gz"@ {
        "📦"@
    } else if ext == "exe"@ || ext == "msi"@ || ext == "lnk"@ {
        "⚡"@
    } else if ext == "pdf"@ {
        "📕"@
    } else if ext == "ppt"@ || ext == "pptx"@ {
        "📊"@
    } else if ext == "xls"@ || ext == "xlsx"@ {
        "📈"@
    } else {
        "📄"@
    }
}

/// The icon shown for a file with the lower-cased extension `ext`.
pub fn icon_of_extension(ext: &str) -> (icon: &'static str)
    ensures
        icon@ == icon_for(ext@),
{
    if same_text(ext, "rs") {
        "🦀"
    } else if same_text(ext, "py") {
        "🐍"
    } else if same_text(ext, "js") || same_text(ext, "ts") || same_text(ext, "jsx") || same_text(
        ext,
        "tsx",
    ) {
        "📜"
    } else if same_text(ext, "html") || same_text(ext, "css") || same_text(ext, "scss") {
        "🌐"
    } else if same_text(ext, "json") || same_text(ext, "yaml") || same_text(ext, "yml")
        || same_text(ext, "toml") || same_text(ext, "xml") {
        "⚙"
    } else if same_text(ext, "md") || same_text(ext, "txt") || same_text(ext, "doc") || same_text(
        ext,
        "docx",
    ) {
        "📝"
    } else if same_text(ext, "png") || same_text(ext, "jpg") || same_text(ext, "jpeg")
        || same_text(ext, "gif") || same_text(ext, "svg") || same_text(ext, "webp") {
        "🖼"
    } else if same_text(ext, "mp3") || same_text(ext, "wav") || same_text(ext, "flac")
        || same_text(ext, "m4a") {
        "🎵"
    } else if same_text(ext, "mp4") || same_text(ext, "avi") || same_text(ext, "mkv")
        || same_text(ext, "wmv") {
        "🎬"
    } else if same_text(ext, "zip") || same_text(ext, "rar") || same_text(ext, "7z") || same_text(
        ext,
        "tar",
    ) || same_text(ext, "gz") {
        "📦"
    } else if same_text(ext, "exe") || same_text(ext, "msi") || same_text(ext, "lnk") {
        "⚡"
    } else if same_text(ext, "pdf") {
        "📕"
    } else if same_text(ext, "ppt") || same_text(ext, "pptx") {
        "📊"
    } else if same_text(ext, "xls") || same_text(ext, "xlsx") {
        "📈"
    } else {
        "📄"
    }
}

impl SearchEntry {
    /// The icon shown for an entry: the folder for a directory, the icon of
    /// the lower-cased extension for a file that has one, the plain sheet
    /// for any other.
    pub open spec fn icon_text(entry: SearchEntryView) -> Seq<char> {
        if entry.is_dir {
            "📁"@
        } else {
            match extension_in(entry.name) {
                Some(ext) => icon_for(lowercase_of(ext)),
                None => "📄"@,
            }
        }
    }

    /// The extension of the entry's name, where it has one.
    pub fn extension(&self) -> (ext: Option<&str>)
        ensures
            match ext {
                Some(text) => extension_in(self@.name) == Some(text@),
                None => extension_in(self@.name) is None,
            },
    {
        let name = self.name.as_str();
        let (last, n) = find_last_dot(name);
        match last {
            Some(d) => {
                if d > 0 {
                    Some(name.substring_char(d + 1, n))
                } else {
                    None
                }
            },
            None => None,
        }
    }

    /// The icon shown for the entry.
    pub fn icon(&self) -> (icon: &'static str)
        ensures
            icon@ == Self::icon_text(self@),
    {
        if self.is_dir {
            "📁"
        } else {
            match self.extension() {
                Some(ext) => {
                    let lower = to_lower(ext);
                    icon_of_extension(lower.as_str())
                },
                None => "📄",
            }
        }
    }
}

/// One line of the tool's output, taken apart.
#[derive(Debug)]
pub struct EsRow {
    /// Full path, as printed.
    pub path: String,
    /// Size in bytes; zero where none is printed.
    pub size: u64,
    pub is_dir: bool,
}

/// What an `EsRow` holds, as plain mathematical values.
pub struct EsRowView {
    pub path: Seq<char>,
    pub size: u64,
    pub is_dir: bool,
}

impl View for EsRow {
    type V = EsRowView;

    open spec fn view(&self) -> EsRowView {
        EsRowView { path: self.path@, size: self.size, is_dir: self.is_dir }
    }
}

impl DeepView for EsRow {
    type V = EsRowView;

    open spec fn deep_view(&self) -> EsRowView {
        self@
    }
}

/// The part between `lo` and `hi` is not empty and ends in `c`.
pub open spec fn ends_in(s: Seq<char>, c: char, lo: int, hi: int) -> bool {
    lo < hi && s[hi - 1] == c
}

/// What the line between `lo` and `hi` says, or `None` for a line of white
/// space.
///
/// The line is taken without the white space at its ends. Where it holds a
/// tab, the path stands before the first tab and the size behind it, up to
/// the next tab; without a tab the whole line is the path and the size is
/// zero. Double quotes around the path are taken off. An entry is a
/// directory where its path ends in a backslash, or has no dot in it and no
/// size; a path with a size column also counts as a directory where it ends
/// in a slash.
pub open spec fn row_in(s: Seq<char>, lo: int, hi: int) -> Option<EsRowView> {
    let a = crate::chars::skip_class(s, CharClass::Space, lo, hi);
    let b = crate::chars::back_class(s, CharClass::Space, a, hi);
    if a >= b {
        None
    } else {
        let tab = seek_class(s, CharClass::Only('\t'), a, b);
        let end = if tab < b {
            tab
        } else {
            b
        };
        let from = crate::chars::skip_class(s, CharClass::Only('"'), a, end);
        let to = crate::chars::back_class(s, CharClass::Only('"'), from, end);
        let path = s.subrange(from, to);
        if tab < b {
            let size = size_in(s, tab + 1, seek_class(s, CharClass::Only('\t'), tab + 1, b));
            Some(
                EsRowView {
                    path,
                    size,
                    is_dir: ends_in(s, '\\', from, to) || ends_in(s, '/', from, to) || (size
                        == 0 && !has_char(s, '.', from, to)),
                },
            )
        } else {
            Some(
                EsRowView {
                    path,
                    size: 0,
                    is_dir: ends_in(s, '\\', from, to) || !has_char(s, '.', from, to),
                },
            )
        }
    }
}

/// The rows of the lines of `s` from position `from` on. The first line of
/// the output is passed over where it is the table's heading, which names
/// the column `Filename`.
pub open spec fn rows_from(s: Seq<char>, from: int, first: bool) -> Seq<EsRowView>
    decreases s.len() - from,
{
    if from < 0 || from > s.len() {
        Seq::empty()
    } else {
        let end = seek_class(s, CharClass::Only('\n'), from, s.len() as int);
        let here = if first && contains_seq(s.subrange(from, end), "Filename"@) {
            Seq::empty()
        } else {
            match row_in(s, from, end) {
                Some(row) => seq![row],
                None => Seq::empty(),
            }
        };
        if from <= end < s.len() {
            here + rows_from(s, end + 1, false)
        } else {
            here
        }
    }
}

/// The rows that the tool's output holds, line by line.
pub open spec fn parsed_rows(stdout: Seq<char>) -> Seq<EsRowView> {
    rows_from(stdout, 0, true)
}

impl SearchEntry {
    /// Makes the entry of a row, given the file name of its path; a row
    /// whose path has no file name gives no entry. The entry has no score
    /// yet.
    pub fn from_row(row: EsRow, name: Option<String>) -> (entry: Option<SearchEntry>)
        ensures
            entry.deep_view() == match name {
                Some(name) => Some(
                    SearchEntryView {
                        name: name@,
                        path: row@.path,
                        size: row.size,
                        is_dir: row.is_dir,
                        score: 0,
                    },
                ),
                None => None,
            },
    {
        match name {
            Some(name) => Some(
                SearchEntry { name, path: row.path, size: row.size, is_dir: row.is_dir, score: 0 },
            ),
            None => None,
        }
    }
}

fn row_at(chars: &Vec<char>, lo: usize, hi: usize) -> (row: Option<EsRow>)
    requires
        lo <= hi <= chars.len(),
    ensures
        row.deep_view() == row_in(chars@, lo as int, hi as int),
{
    let (a, b) = strip(chars, CharClass::Space, lo, hi);
    if a >= b {
        return None;
    }
    let tab = seek(chars, CharClass::Only('\t'), a, b);
    let end = if tab < b {
        tab
    } else {
        b
    };
    let (from, to) = strip(chars, CharClass::Only('"'), a, end);
    let path = text_of(chars, from, to);
    let ends_backslash = from < to && chars[to - 1] == '\\';
    let has_dot = holds_char(chars, '.', from, to);
    if tab < b {
        let next = seek(chars, CharClass::Only('\t'), tab + 1, b);
        let size = read_size(chars, tab + 1, next);
        let ends_slash = from < to && chars[to - 1] == '/';
        Some(EsRow { path, size, is_dir: ends_backslash || ends_slash || (size == 0 && !has_dot) })
    } else {
        Some(EsRow { path, size: 0, is_dir: ends_backslash || !has_dot })
    }
}

/// Takes one line of the tool's output apart and, unless it is blank, puts
/// its row behind `results`.
pub fn process_tsv_line(line: &str, results: &mut Vec<EsRow>)
    ensures
        final(results).deep_view() == match row_in(line@, 0, line@.len() as int) {
            Some(row) => old(results).deep_view().push(row),
            None => old(results).deep_view(),
        },
{
    let chars = chars_of(line);
    let ghost before = results.deep_view();
    match row_at(&chars, 0, chars.len()) {
        Some(row) => {
            results.push(row);
            assert(results.deep_view() =~= before.push(row@));
        },
        None => {
            assert(results.deep_view() =~= before);
        },
    }
}

/// Takes the tool's output apart, line by line.
pub fn parse_es_output(stdout: &str) -> (rows: Vec<EsRow>)
    ensures
        rows.deep_view() == parsed_rows(stdout@),
{
    let chars = chars_of(stdout);
    let n = chars.len();
    let mut rows: Vec<EsRow> = Vec::new();
    let mut at: usize = 0;
    let mut first = true;
    loop
        invariant_except_break
            rows.deep_view() + rows_from(chars@, at as int, first) == parsed_rows(chars@),
        invariant
            n == chars.len(),
            at <= n,
        ensures
            rows.deep_view() == parsed_rows(chars@),
        decreases n - at,
    {
        let end = seek(&chars, CharClass::Only('\n'), at, n);
        let ghost before = rows.deep_view();
        let heading = if first {
            let line = text_of(&chars, at, end);
            str_contains(line.as_str(), "Filename")
        } else {
            false
        };
        if !heading {
            match row_at(&chars, at, end) {
                Some(row) => {
                    rows.push(row);
                    assert(rows.deep_view() =~= before.push(row@));
                },
                None => {
                    assert(rows.deep_view() =~= before);
                },
            }
        } else {
            assert(rows.deep_view() =~= before);
        }
        if end < n {
            assert(rows.deep_view() + rows_from(chars@, end + 1, false) =~= parsed_rows(chars@));
            at = end + 1;
            first = false;
        } else {
            assert(rows.deep_view() =~= parsed_rows(chars@));
            break;
        }
    }
    rows
}

/// What a name earns against a query, both lower-cased: most where they
/// are the same, less where the name begins with the query, least where it
/// only holds it.
pub open spec fn name_score(name: Seq<char>, query: Seq<char>) -> int {
    if name == query {
        1000
    } else if stands_at(name, query, 0) {
        500
    } else if contains_seq(name, query) {
        100
    } else {
        0
    }
}

/// What a lower-cased extension earns: something for what can be launched.
pub open spec fn launch_bonus(ext: Seq<char>) -> int {
    if ext == "lnk"@ || ext == "exe"@ {
        50
    } else {
        0
    }
}

/// The score of a name with an extension against a query, all three
/// lower-cased.
pub fn score_of(name: &str, query: &str, ext: &str) -> (score: i32)
    ensures
        score == name_score(name@, query@) + launch_bonus(ext@),
{
    let base: i32 = if same_text(name, query) {
        1000
    } else if begins_with(name, query) {
        500
    } else if str_contains(name, query) {
        100
    } else {
        0
    };
    let bonus: i32 = if same_text(ext, "lnk") || same_text(ext, "exe") {
        50
    } else {
        0
    };
    base + bonus
}

/// The extension that counts for the score of a name: its extension in
/// lower case, nothing where it has none.
pub open spec fn scored_extension(name: Seq<char>) -> Seq<char> {
    match extension_in(name) {
        Some(ext) => lowercase_of(ext),
        None => lowercase_of(Seq::empty()),
    }
}

/// An entry with the score it earns against `query`.
pub open spec fn scored(entry: SearchEntryView, query: Seq<char>) -> SearchEntryView {
    SearchEntryView {
        score: (name_score(lowercase_of(entry.name), lowercase_of(query)) + launch_bonus(
            scored_extension(entry.name),
        )) as i32,
        ..entry
    }
}

/// The weight under which an entry is ordered: the lighter, the greater its
/// score.
pub open spec fn score_weight(entry: SearchEntryView) -> int {
    i32::MAX - entry.score
}

/// The entries in the order of their scores, greatest first; entries of the
/// same score keep their order.
pub open spec fn by_score(entries: Seq<SearchEntryView>) -> Seq<SearchEntryView> {
    let order = ranking(entries.map_values(|entry: SearchEntryView| score_weight(entry)));
    Seq::new(entries.len(), |k: int| entries[order[k]])
}

/// What is shown for a query, of the entries that the tool found: each with
/// its score, the best first.
pub open spec fn shown_for(entries: Seq<SearchEntryView>, query: Seq<char>) -> Seq<
    SearchEntryView,
> {
    by_score(entries.map_values(|entry: SearchEntryView| scored(entry, query)))
}

/// Gives each entry the score it earns against `query`; the score it came
/// with does not count.
pub fn score_entries(entries: Vec<SearchEntry>, query: &str) -> (out: Vec<SearchEntry>)
    ensures
        out.deep_view() == entries.deep_view().map_values(
            |entry: SearchEntryView| scored(entry, query@),
        ),
{
    let query_lower = to_lower(query);
    let mut out: Vec<SearchEntry> = Vec::new();
    let mut k: usize = 0;
    while k < entries.len()
        invariant
            k <= entries.len(),
            out.len() == k,
            query_lower@ == lowercase_of(query@),
            forall|i: int| 0 <= i < k ==> (#[trigger] out[i])@ == scored(entries[i]@, query@),
        decreases entries.len() - k,
    {
        let entry = &entries[k];
        let name_lower = to_lower(entry.name.as_str());
        let ext_lower = match entry.extension() {
            Some(ext) => to_lower(ext),
            None => to_lower(""),
        };
        proof {
            assert(""@ =~= Seq::<char>::empty()) by {
                reveal_strlit("");
            }
        }
        let score = score_of(name_lower.as_str(), query_lower.as_str(), ext_lower.as_str());
        out.push(
            SearchEntry {
                name: entry.name.clone(),
                path: entry.path.clone(),
                size: entry.size,
                is_dir: entry.is_dir,
                score,
            },
        );
        k = k + 1;
    }
    assert(out.deep_view() =~= entries.deep_view().map_values(
        |entry: SearchEntryView| scored(entry, query@),
    ));
    out
}

/// Puts the entries in the order of their scores, greatest first.
pub fn order_by_score(entries: Vec<SearchEntry>) -> (out: Vec<SearchEntry>)
    ensures
        out.deep_view() == by_score(entries.deep_view()),
{
    let n = entries.len();
    let mut weights: Vec<u128> = Vec::new();
    let mut k: usize = 0;
    while k < n
        invariant
            n == entries.len(),
            k <= n,
            weights.len() == k,
            forall|i: int| 0 <= i < k ==> (#[trigger] weights[i]) as int == score_weight(entries[i]@),
        decreases n - k,
    {
        let weight = (i32::MAX as i64 - entries[k].score as i64) as u128;
        weights.push(weight);
        k = k + 1;
    }
    let ghost heavy = entries.deep_view().map_values(|entry: SearchEntryView| score_weight(entry));
    assert(weights_of(weights@) =~= heavy);
    let order = rank_by_weight(&weights, n);
    proof {
        crate::ranking::lemma_ranking(heavy);
    }
    let ghost full = ranking(heavy);
    assert(positions(order@) =~= full);
    let mut out: Vec<SearchEntry> = Vec::new();
    let mut r: usize = 0;
    while r < n
        invariant
            n == entries.len(),
            order.len() == n,
            r <= n,
            out.len() == r,
            positions(order@) == full,
            crate::ranking::is_ranking(heavy, full),
            heavy.len() == n,
            forall|i: int| 0 <= i < r ==> (#[trigger] out[i])@ == entries[full[i]]@,
        decreases n - r,
    {
        assert(positions(order@)[r as int] == full[r as int]);
        out.push(entries[order[r]].clone());
        r = r + 1;
    }
    assert(out.deep_view() =~= by_score(entries.deep_view()));
    out
}

/// A short word that stands for what is searched in its place.
#[derive(Debug)]
pub struct Alias {
    /// The word as it is typed.
    pub word: String,
    /// What is searched for.
    pub means: String,
}

impl View for Alias {
    type V = (Seq<char>, Seq<char>);

    open spec fn view(&self) -> (Seq<char>, Seq<char>) {
        (self.word@, self.means@)
    }
}

impl DeepView for Alias {
    type V = (Seq<char>, Seq<char>);

    open spec fn deep_view(&self) -> (Seq<char>, Seq<char>) {
        self@
    }
}

fn alias(word: &str, means: &str) -> (alias: Alias)
    ensures
        alias@ == (word@, means@),
{
    Alias { word: String::from_str(word), means: String::from_str(means) }
}

/// The aliases that are known from the start.
pub open spec fn known_aliases() -> Seq<(Seq<char>, Seq<char>)> {
    seq![
        ("ps"@, "photoshop"@),
        ("pr"@, "premiere"@),
        ("ae"@, "after effects"@),
        ("ai"@, "illustrator"@),
        ("lr"@, "lightroom"@),
        ("微信"@, "wechat"@),
        ("企微"@, "workwechat"@),
        ("钉钉"@, "dingtalk"@),
        ("飞书"@, "lark"@),
        ("QQ"@, "tencent"@),
        ("浏览器"@, "chrome;edge;firefox"@),
        ("代码"@, "vscode;code;sublime;idea"@),
        ("终端"@, "cmd;powershell;wt"@),
    ]
}

/// The aliases that are known from the start.
pub fn default_aliases() -> (aliases: Vec<Alias>)
    ensures
        aliases.deep_view() == known_aliases(),
{
    let mut aliases: Vec<Alias> = Vec::new();
    aliases.push(alias("ps", "photoshop"));
    aliases.push(alias("pr", "premiere"));
    aliases.push(alias("ae", "after effects"));
    aliases.push(alias("ai", "illustrator"));
    aliases.push(alias("lr", "lightroom"));
    aliases.push(alias("微信", "wechat"));
    aliases.push(alias("企微", "workwechat"));
    aliases.push(alias("钉钉", "dingtalk"));
    aliases.push(alias("飞书", "lark"));
    aliases.push(alias("QQ", "tencent"));
    aliases.push(alias("浏览器", "chrome;edge;firefox"));
    aliases.push(alias("代码", "vscode;code;sublime;idea"));
    aliases.push(alias("终端", "cmd;powershell;wt"));
    assert(aliases.deep_view() =~= known_aliases());
    aliases
}

/// The query with the first alias that occurs in it written out, wherever
/// it occurs; the query itself where none of the aliases from position
/// `from` on occurs.
pub open spec fn expanded_from(
    query: Seq<char>,
    aliases: Seq<(Seq<char>, Seq<char>)>,
    from: int,
) -> Seq<char>
    decreases aliases.len() - from,
{
    if from < 0 || from >= aliases.len() {
        query
    } else if contains_seq(query, aliases[from].0) {
        replaced(query, aliases[from].0, aliases[from].1)
    } else {
        expanded_from(query, aliases, from + 1)
    }
}

/// The query with the first alias of the table that occurs in it written
/// out.
pub open spec fn expanded(query: Seq<char>, aliases: Seq<(Seq<char>, Seq<char>)>) -> Seq<char> {
    expanded_from(query, aliases, 0)
}

/// Writes out the first alias of the table that occurs in the query.
pub fn expand_alias(query: &str, aliases: &Vec<Alias>) -> (out: String)
    ensures
        out@ == expanded(query@, aliases.deep_view()),
{
    let mut k: usize = 0;
    while k < aliases.len()
        invariant
            k <= aliases.len(),
            expanded(query@, aliases.deep_view()) == expanded_from(
                query@,
                aliases.deep_view(),
                k as int,
            ),
        decreases aliases.len() - k,
    {
        let entry = &aliases[k];
        assert(aliases.deep_view()[k as int] == entry@);
        if str_contains(query, entry.word.as_str()) {
            return replace_all(query, entry.word.as_str(), entry.means.as_str());
        }
        k = k + 1;
    }
    String::from_str(query)
}

/// The arguments that a command line splits into by the rules of the Unix
/// shell, as `split` of the `shell-words` crate finds them; `None` where it
/// reports a quote that is not closed.
pub uninterp spec fn shell_split(line: Seq<char>) -> Option<Seq<Seq<char>>>;

/// Calls `shell_words::split`. The rules of the shell are not restated: the
/// outcome is given the name `shell_split`, with the crate's one error, a
/// missing closing quote, standing as `None`.
#[verifier::external_body]
fn shell_words_split(line: &str) -> (parts: Option<Vec<String>>)
    ensures
        match parts {
            Some(words) => shell_split(line@) == Some(words.deep_view()),
            None => shell_split(line@) is None,
        },
{
    shell_words::split(line).ok()
}

/// The words that a query is handed to the tool as: its arguments by the
/// rules of the shell, so that quoted words stay whole, and its plain words
/// where the quotes do not pair.
pub open spec fn query_words(query: Seq<char>) -> Seq<Seq<char>> {
    match shell_split(query) {
        Some(parts) => parts,
        None => words_of(query),
    }
}

/// Settles the words of a query, given what splitting it by the rules of
/// the shell gave.
pub fn words_or_plain(split: Option<Vec<String>>, query: &str) -> (words: Vec<String>)
    ensures
        words.deep_view() == match split {
            Some(parts) => parts.deep_view(),
            None => words_of(query@),
        },
{
    match split {
        Some(parts) => parts,
        None => split_words(query),
    }
}

/// The arguments that name the instance to ask; none for the unnamed
/// instance.
pub open spec fn instance_args(instance: Seq<char>) -> Seq<Seq<char>> {
    if instance.len() == 0 {
        Seq::empty()
    } else {
        seq!["-instance"@, instance]
    }
}

/// The whole command line of a search: the instance, the form of the
/// output, and the words of the query with its alias written out.
pub open spec fn search_args(
    query: Seq<char>,
    aliases: Seq<(Seq<char>, Seq<char>)>,
    instance: Seq<char>,
) -> Seq<Seq<char>> {
    instance_args(instance) + seq![
        "-n"@,
        ES_MAX_RESULTS@,
        "-tsv"@,
        "-full-path-and-name"@,
        "-size"@,
    ] + query_words(expanded(query, aliases))
}

fn push_instance(args: &mut Vec<String>, instance: &str)
    ensures
        final(args).deep_view() == old(args).deep_view() + instance_args(instance@),
{
    let ghost before = args.deep_view();
    if !instance.is_empty() {
        args.push(String::from_str("-instance"));
        args.push(String::from_str(instance));
        assert(args.deep_view() =~= before + seq!["-instance"@, instance@]);
    } else {
        assert(args.deep_view() =~= before + Seq::<Seq<char>>::empty());
    }
}

/// Builds the command line of a search.
pub fn build_args(query: &str, aliases: &Vec<Alias>, instance: &str) -> (args: Vec<String>)
    ensures
        args.deep_view() == search_args(query@, aliases.deep_view(), instance@),
{
    let mut args: Vec<String> = Vec::new();
    assert(args.deep_view() =~= Seq::<Seq<char>>::empty());
    push_instance(&mut args, instance);
    let ghost head = args.deep_view();
    assert(head =~= instance_args(instance@));
    args.push(String::from_str("-n"));
    args.push(String::from_str(ES_MAX_RESULTS));
    args.push(String::from_str("-tsv"));
    args.push(String::from_str("-full-path-and-name"));
    args.push(String::from_str("-size"));
    let ghost form = head + seq![
        "-n"@,
        ES_MAX_RESULTS@,
        "-tsv"@,
        "-full-path-and-name"@,
        "-size"@,
    ];
    assert(args.deep_view() =~= form);
    let wanted = expand_alias(query, aliases);
    let mut words = words_or_plain(shell_words_split(wanted.as_str()), wanted.as_str());
    let ghost tail = words.deep_view();
    assert(tail == query_words(wanted@));
    args.append(&mut words);
    assert(args.deep_view() =~= form + tail);
    args
}

/// Greatest length of an output that is decoded, in bytes. The decoder
/// sizes its buffer at three times the length of its input and a few bytes
/// more, and fails where that is more than a `String` can hold, which is
/// half of what `usize` can count.
pub const DECODE_LIMIT: usize = usize::MAX / 6 - 8;

/// The text that `encoding_rs::UTF_8.decode` makes of bytes, and whether it
/// found any of them malformed. The call reads the bytes as UTF-8 unless
/// they begin with a byte-order mark, which it takes off and whose encoding
/// it then reads them by.
pub uninterp spec fn utf8_decoded(bytes: Seq<u8>) -> (Seq<char>, bool);

/// The text that `encoding_rs::GBK.decode` makes of bytes, and whether it
/// found any of them malformed. The call reads the bytes as GBK unless they
/// begin with a byte-order mark, which it takes off and whose encoding it
/// then reads them by.
pub uninterp spec fn gbk_decoded(bytes: Seq<u8>) -> (Seq<char>, bool);

/// Calls `encoding_rs::UTF_8.decode` and hands back its text and its report
/// of malformed input. The decoding is not restated: the outcome is given
/// the name `utf8_decoded`. The length is bounded because the call fails
/// where the size of its buffer, three times the length and a few bytes
/// more, cannot be had.
#[verifier::external_body]
fn decode_utf8(bytes: &[u8]) -> (out: (String, bool))
    requires
        bytes@.len() <= DECODE_LIMIT,
    ensures
        (out.0@, out.1) == utf8_decoded(bytes@),
{
    let (text, _, malformed) = encoding_rs::UTF_8.decode(bytes);
    (text.into_owned(), malformed)
}

/// Calls `encoding_rs::GBK.decode` and hands back its text and its report
/// of malformed input. The decoding is not restated: the outcome is given
/// the name `gbk_decoded`. The length is bounded because the call fails
/// where the size of its buffer, three times the length and a few bytes
/// more, cannot be had.
#[verifier::external_body]
fn decode_gbk(bytes: &[u8]) -> (out: (String, bool))
    requires
        bytes@.len() <= DECODE_LIMIT,
    ensures
        (out.0@, out.1) == gbk_decoded(bytes@),
{
    let (text, _, malformed) = encoding_rs::GBK.decode(bytes);
    (text.into_owned(), malformed)
}

/// The text of what the tool printed: what the UTF-8 decoder makes of it
/// where that finds nothing malformed, what the GBK decoder makes of it
/// otherwise.
pub open spec fn output_text(bytes: Seq<u8>) -> Seq<char> {
    if !utf8_decoded(bytes).1 {
        utf8_decoded(bytes).0
    } else {
        gbk_decoded(bytes).0
    }
}

/// Settles the text of an output, given its reading as UTF-8 with the
/// report of malformed input, and its reading as GBK.
pub fn pick_decoding(utf8: String, malformed: bool, gbk: String) -> (text: String)
    ensures
        text@ == if !malformed {
            utf8@
        } else {
            gbk@
        },
{
    if !malformed {
        utf8
    } else {
        gbk
    }
}

/// Decodes what the tool printed. An output longer than `DECODE_LIMIT`,
/// for which the decoder could not size its buffer, is not decoded.
pub fn decode_output(bytes: &[u8]) -> (text: Option<String>)
    ensures
        match text {
            Some(text) => bytes@.len() <= DECODE_LIMIT && text@ == output_text(bytes@),
            None => bytes@.len() > DECODE_LIMIT,
        },
{
    if bytes.len() > DECODE_LIMIT {
        return None;
    }
    let (utf8, malformed) = decode_utf8(bytes);
    if !malformed {
        Some(utf8)
    } else {
        let (gbk, _) = decode_gbk(bytes);
        Some(pick_decoding(utf8, malformed, gbk))
    }
}

/// What the tool wrote beside its output is worth showing: it is not
/// blank, and it is not one of the tool's own notices, which name the tool
/// or its version.
pub open spec fn is_complaint(stderr: Seq<char>) -> bool {
    &&& trimmed(stderr).len() > 0
    &&& !contains_seq(stderr, "Everything"@)
    &&& !contains_seq(stderr, "1.5"@)
}

/// Tells whether what the tool wrote beside its output is worth showing.
pub fn is_real_error(stderr: &str) -> (worth: bool)
    ensures
        worth == is_complaint(stderr@),
{
    !is_blank(stderr) && !str_contains(stderr, "Everything") && !str_contains(stderr, "1.5")
}

/// Tells whether a text is nothing but white space.
pub fn is_blank(text: &str) -> (blank: bool)
    ensures
        blank == (trimmed(text@).len() == 0),
{
    let chars = chars_of(text);
    let (from, to) = strip(&chars, CharClass::Space, 0, chars.len());
    from == to
}

/// The versions of the search tool that are told apart.
#[derive(Clone, Copy, Debug, PartialEq, Eq, Structural)]
pub enum EsVersion {
    V14,
    V15Alpha,
    Unknown,
}

/// What asking the tool for its version leads to.
#[derive(Clone, Copy, Debug, PartialEq, Eq, Structural)]
pub enum VersionProbe {
    /// The answer names the version.
    Known(EsVersion),
    /// The answer names none; the tool's help text is looked at next.
    AskHelp,
}

/// The version that an answer to `-version` names.
pub open spec fn version_named(answer: Seq<char>) -> VersionProbe {
    if contains_seq(answer, "1.5"@) {
        VersionProbe::Known(EsVersion::V15Alpha)
    } else if contains_seq(answer, "1.4"@) || contains_seq(answer, "1.1"@) {
        VersionProbe::Known(EsVersion::V14)
    } else {
        VersionProbe::AskHelp
    }
}

/// Reads the version out of the tool's answer to `-version`.
pub fn detect_version(answer: &str) -> (probe: VersionProbe)
    ensures
        probe == version_named(answer@),
{
    if str_contains(answer, "1.5") {
        VersionProbe::Known(EsVersion::V15Alpha)
    } else if str_contains(answer, "1.4") || str_contains(answer, "1.1") {
        VersionProbe::Known(EsVersion::V14)
    } else {
        VersionProbe::AskHelp
    }
}

/// Reads the version out of the tool's help text: a tool that names itself
/// there is taken for the older version.
pub fn version_from_help(help: &str) -> (version: EsVersion)
    ensures
        version == if contains_seq(help@, "Everything"@) {
            EsVersion::V14
        } else {
            EsVersion::Unknown
        },
{
    if str_contains(help, "Everything") {
        EsVersion::V14
    } else {
        EsVersion::Unknown
    }
}

/// How a version is written.
pub open spec fn version_text(version: EsVersion) -> Seq<char> {
    match version {
        EsVersion::V14 => "1.4"@,
        EsVersion::V15Alpha => "1.5a"@,
        EsVersion::Unknown => "Unknown"@,
    }
}

/// How a version is written.
pub fn version_label(version: EsVersion) -> (label: &'static str)
    ensures
        label@ == version_text(version),
{
    match version {
        EsVersion::V14 => "1.4",
        EsVersion::V15Alpha => "1.5a",
        EsVersion::Unknown => "Unknown",
    }
}

/// The arguments that ask the tool for the version of the program behind
/// it.
pub fn ipc_args(instance: &str) -> (args: Vec<String>)
    ensures
        args.deep_view() == instance_args(instance@) + seq!["-get-everything-version"@],
{
    let mut args: Vec<String> = Vec::new();
    assert(args.deep_view() =~= Seq::<Seq<char>>::empty());
    push_instance(&mut args, instance);
    let ghost head = args.deep_view();
    assert(head =~= instance_args(instance@));
    args.push(String::from_str("-get-everything-version"));
    assert(args.deep_view() =~= head + seq!["-get-everything-version"@]);
    args
}

/// The program behind the tool answers: the version it gives is not blank
/// and not all zeros.
pub open spec fn answers(version: Seq<char>) -> bool {
    trimmed(version).len() > 0 && trimmed(version) != "0.0.0.0"@
}

/// Tells from the version it gives whether the program behind the tool
/// answers.
pub fn check_everything_ipc(version: &str) -> (ready: bool)
    ensures
        ready == answers(version@),
{
    let chars = chars_of(version);
    let (from, to) = strip(&chars, CharClass::Space, 0, chars.len());
    if from == to {
        return false;
    }
    let given = text_of(&chars, from, to);
    !same_text(given.as_str(), "0.0.0.0")
}

/// The arguments that start the program behind the tool without a window.
pub fn startup_args(instance: &str) -> (args: Vec<String>)
    ensures
        args.deep_view() == instance_args(instance@) + seq!["-startup"@],
{
    let mut args: Vec<String> = Vec::new();
    assert(args.deep_view() =~= Seq::<Seq<char>>::empty());
    push_instance(&mut args, instance);
    let ghost head = args.deep_view();
    assert(head =~= instance_args(instance@));
    args.push(String::from_str("-startup"));
    assert(args.deep_view() =~= head + seq!["-startup"@]);
    args
}

/// What to do once the started program was asked whether it answers.
#[derive(Clone, Copy, Debug, PartialEq, Eq, Structural)]
pub enum StartupStep {
    /// It answers.
    Ready,
    /// It does not answer yet: pause, then ask again.
    Wait,
    /// It did not answer in all the tries: give up.
    TimedOut,
}

/// Decides how the wait for the started program goes on, after the try
/// with the number `tries` (the first being 1) found it answering or not.
pub fn ensure_everything_running(tries: u32, ready: bool) -> (step: StartupStep)
    ensures
        step == if ready {
            StartupStep::Ready
        } else if tries < STARTUP_TRIES {
            StartupStep::Wait
        } else {
            StartupStep::TimedOut
        },
{
    if ready {
        StartupStep::Ready
    } else if tries < STARTUP_TRIES {
        StartupStep::Wait
    } else {
        StartupStep::TimedOut
    }
}

/// Picks the place of the tool among the places it is looked for, given
/// which of them hold it: the first that does. The places are, in their
/// order: `lib` beside the running program, the directory of the running
/// program, `lib` in the application's directory, `lib` in the working
/// directory.
pub fn pick_location(holds: &Vec<bool>) -> (place: Option<usize>)
    ensures
        match place {
            Some(at) => at < holds.len() && holds[at as int] && forall|k: int|
                0 <= k < at ==> !holds[k],
            None => forall|k: int| 0 <= k < holds.len() ==> !holds[k],
        },
{
    let mut k: usize = 0;
    while k < holds.len()
        invariant
            k <= holds.len(),
            forall|i: int| 0 <= i < k ==> !holds[i],
        decreases holds.len() - k,
    {
        if holds[k] {
            return Some(k);
        }
        k = k + 1;
    }
    None
}

/// Whether an answer that was remembered `age` seconds ago is still given.
pub fn is_fresh(age: u64) -> (fresh: bool)
    ensures
        fresh == (age < CACHE_SECONDS),
{
    age < CACHE_SECONDS
}

/// Whether all remembered answers are forgotten before one more is
/// remembered, given how many there are.
pub fn must_forget(remembered: usize) -> (forget: bool)
    ensures
        forget == (remembered > CACHE_ENTRIES),
{
    remembered > CACHE_ENTRIES
}

/// What was found out about the search tool when the backend was made.
pub enum BackendProbe {
    /// The tool is in none of the places it is looked for.
    Missing,
    /// The tool is there and of this version.
    Detected(EsVersion),
    /// The tool is there but could not be run; the text says why.
    Failed(String),
}

/// What the backend says of itself.
pub open spec fn info_for(probe: BackendProbe) -> Seq<char> {
    match probe {
        BackendProbe::Missing => "关键组件丢失：请确保 lib\\es.exe 存在于程序目录"@,
        BackendProbe::Detected(version) => "Everything "@ + version_text(version) + " 就绪"@,
        BackendProbe::Failed(why) => "程序初始化失败："@ + why@,
    }
}

/// The search backend: what is known of the tool, and the aliases.
pub struct SearchBackend {
    /// Whether searches can be run.
    pub available: bool,
    /// What the backend says of itself.
    pub backend_info: String,
    /// The version of the tool.
    pub es_version: EsVersion,
    /// The aliases that queries are searched for.
    pub alias_map: Vec<Alias>,
}

impl SearchBackend {
    /// Makes the backend of what was found out about the tool. Searches
    /// can be run where the tool was detected.
    pub fn new(probe: BackendProbe) -> (backend: SearchBackend)
        ensures
            backend.available == (probe is Detected),
            backend.backend_info@ == info_for(probe),
            backend.es_version == match probe {
                BackendProbe::Detected(version) => version,
                _ => EsVersion::Unknown,
            },
            backend.alias_map.deep_view() == known_aliases(),
    {
        let alias_map = default_aliases();
        match probe {
            BackendProbe::Missing => SearchBackend {
                available: false,
                backend_info: String::from_str("关键组件丢失：请确保 lib\\es.exe 存在于程序目录"),
                es_version: EsVersion::Unknown,
                alias_map,
            },
            BackendProbe::Detected(version) => {
                let mut backend_info = String::from_str("Everything ");
                backend_info.append(version_label(version));
                backend_info.append(" 就绪");
                SearchBackend { available: true, backend_info, es_version: version, alias_map }
            },
            BackendProbe::Failed(why) => {
                let mut backend_info = String::from_str("程序初始化失败：");
                backend_info.append(why.as_str());
                SearchBackend {
                    available: false,
                    backend_info,
                    es_version: EsVersion::Unknown,
                    alias_map,
                }
            },
        }
    }

    /// The command line that answers `query`, for the instance
    /// `ES_INSTANCE`; none for a query of white space, which is answered
    /// with nothing.
    pub fn command_line(&self, query: &str) -> (args: Option<Vec<String>>)
        ensures
            match args {
                Some(args) => trimmed(query@).len() > 0 && args.deep_view() == search_args(
                    query@,
                    self.alias_map.deep_view(),
                    ES_INSTANCE@,
                ),
                None => trimmed(query@).len() == 0,
            },
    {
        if is_blank(query) {
            None
        } else {
            Some(build_args(query, &self.alias_map, ES_INSTANCE))
        }
    }

    /// What is shown for `query`, of the entries that the tool found: each
    /// with its score, the best first.
    pub fn search(&self, query: &str, found: Vec<SearchEntry>) -> (results: Vec<SearchEntry>)
        ensures
            results.deep_view() == shown_for(found.deep_view(), query@),
    {
        order_by_score(score_entries(found, query))
    }
}

/// The command line of the trial search that shows whether the tool works:
/// one result of anything, asked of the named instance where the tool is of
/// the newer version.
pub fn test_search_args(version: EsVersion) -> (args: Vec<String>)
    ensures
        args.deep_view() == seq!["-max-results"@, "1"@] + (if version == EsVersion::V15Alpha {
            seq!["-instance"@, ES_INSTANCE@]
        } else {
            Seq::<Seq<char>>::empty()
        }) + seq!["*"@],
{
    let mut args: Vec<String> = Vec::new();
    args.push(String::from_str("-max-results"));
    args.push(String::from_str("1"));
    assert(args.deep_view() =~= seq!["-max-results"@, "1"@]);
    let ghost head = args.deep_view();
    match version {
        EsVersion::V15Alpha => {
            args.push(String::from_str("-instance"));
            args.push(String::from_str(ES_INSTANCE));
            assert(args.deep_view() =~= head + seq!["-instance"@, ES_INSTANCE@]);
        },
        _ => {
            assert(args.deep_view() =~= head + Seq::<Seq<char>>::empty());
        },
    }
    let ghost middle = args.deep_view();
    args.push(String::from_str("*"));
    assert(args.deep_view() =~= middle + seq!["*"@]);
    args
}

/// What a trial search shows.
#[derive(Clone, Copy, Debug, PartialEq, Eq, Structural)]
pub enum TrialVerdict {
    /// The tool found something: it works.
    Works,
    /// The tool found nothing and the program behind it does not answer.
    NotConnected,
    /// The tool found nothing though the program behind it answers: its
    /// index may still be building.
    NoResults,
}

/// Judges a trial search by what it printed and by the version that the
/// program behind the tool gives, which is only looked at where nothing was
/// printed.
pub fn test_search(output: &str, service_version: &str) -> (verdict: TrialVerdict)
    ensures
        verdict == if trimmed(output@).len() > 0 {
            TrialVerdict::Works
        } else if trimmed(service_version@).len() == 0 || contains_seq(
            service_version@,
            "0.0.0.0"@,
        ) {
            TrialVerdict::NotConnected
        } else {
            TrialVerdict::NoResults
        },
{
    if !is_blank(output) {
        TrialVerdict::Works
    } else if is_blank(service_version) || str_contains(service_version, "0.0.0.0") {
        TrialVerdict::NotConnected
    } else {
        TrialVerdict::NoResults
    }
}

} // verus!
