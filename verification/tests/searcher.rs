use starsearch::searcher::{
    build_args, check_everything_ipc, decode_output, default_aliases, detect_version,
    ensure_everything_running, expand_alias, icon_of_extension, ipc_args, is_blank, is_fresh,
    is_real_error, must_forget, order_by_score, parse_es_output, pick_decoding, pick_location,
    process_tsv_line, score_entries, score_of, startup_args, test_search, test_search_args,
    version_from_help, version_label, words_or_plain, Alias, BackendProbe, EsRow, EsVersion,
    SearchBackend, SearchEntry, StartupStep, TrialVerdict, VersionProbe, CACHE_ENTRIES,
    CACHE_SECONDS, DECODE_LIMIT, ES_INSTANCE, STARTUP_PAUSE_MS, STARTUP_TRIES,
};

fn entry(name: &str, path: &str, is_dir: bool, score: i32) -> SearchEntry {
    SearchEntry { name: name.to_string(), path: path.to_string(), size: 0, is_dir, score }
}

fn file(name: &str) -> SearchEntry {
    entry(name, &format!("C:\\x\\{}", name), false, 0)
}

fn row(path: &str, size: u64, is_dir: bool) -> (String, u64, bool) {
    (path.to_string(), size, is_dir)
}

fn plain(rows: &[EsRow]) -> Vec<(String, u64, bool)> {
    rows.iter().map(|r| (r.path.clone(), r.size, r.is_dir)).collect()
}

/// What one line says, worked out with the string functions of std.
fn line_by_std(line: &str) -> Option<(String, u64, bool)> {
    let line = line.trim();
    if line.is_empty() {
        return None;
    }
    let parts: Vec<&str> = line.split('\t').collect();
    if parts.len() >= 2 {
        let path = parts[0].trim_matches('"');
        let size = parts[1].replace(',', "").parse::<u64>().unwrap_or(0);
        let is_dir =
            path.ends_with('\\') || path.ends_with('/') || (size == 0 && !path.contains('.'));
        Some((path.to_string(), size, is_dir))
    } else {
        let path = line.trim_matches('"');
        Some((path.to_string(), 0, path.ends_with('\\') || !path.contains('.')))
    }
}

fn output_by_std(stdout: &str) -> Vec<(String, u64, bool)> {
    let mut rows = Vec::new();
    let mut lines = stdout.lines();
    if let Some(header) = lines.next() {
        if !header.contains("Filename") {
            rows.extend(line_by_std(header));
        }
    }
    for line in lines {
        rows.extend(line_by_std(line));
    }
    rows
}

const LINES: [&str; 22] = [
    "",
    "   ",
    "\"C:\\Users\\me\\a.txt\"\t1,234",
    "C:\\Users\\me\\a.txt\t1234\textra",
    "\"C:\\Program Files\\App\"\t0",
    "\"C:\\Program Files\\App\\\"\t",
    "C:\\dir/\t12",
    "C:\\dir/",
    "C:\\dir\\",
    "C:\\noext",
    "C:\\file.bin",
    "\"C:\\quoted only\"",
    "\t55",
    "a\t",
    "a\tb",
    "a\t+7",
    "a\t 7",
    "  \"D:\\x.y\"\t9  ",
    "\"\"\t3",
    "\"",
    "D:\\视频\\夏天.mp4\t4,096\r",
    "\"E:\\a\"b\"\t1",
];

#[test]
fn lines_are_taken_apart_as_with_std() {
    for line in LINES {
        let mut rows = Vec::new();
        process_tsv_line(line, &mut rows);
        let expected: Vec<(String, u64, bool)> = line_by_std(line).into_iter().collect();
        assert_eq!(plain(&rows), expected, "{:?}", line);
    }
}

#[test]
fn a_line_is_put_behind_what_is_there() {
    let mut rows = Vec::new();
    process_tsv_line("C:\\a.txt\t1", &mut rows);
    process_tsv_line("   ", &mut rows);
    process_tsv_line("C:\\b", &mut rows);
    assert_eq!(plain(&rows), vec![row("C:\\a.txt", 1, false), row("C:\\b", 0, true)]);
}

#[test]
fn output_is_taken_apart_as_with_std() {
    let outputs = [
        "".to_string(),
        "\n".to_string(),
        "Filename\tSize\n\"C:\\a.txt\"\t10\n\"C:\\dir\"\t0\n".to_string(),
        "Filename\tSize\r\n\"C:\\a.txt\"\t10\r\n\"C:\\dir\"\t0\r\n".to_string(),
        "\"C:\\a.txt\"\t10\n\"C:\\Filename.txt\"\t5".to_string(),
        "C:\\Filename.txt\t5\nC:\\b.txt\t6".to_string(),
        "\n\nC:\\late.txt\t1\n\n".to_string(),
        LINES.join("\n"),
        LINES.join("\r\n"),
        format!("Filename\n{}", LINES.join("\n")),
    ];
    for stdout in outputs {
        assert_eq!(plain(&parse_es_output(&stdout)), output_by_std(&stdout), "{:?}", stdout);
    }
}

#[test]
fn heading_is_passed_over_only_on_the_first_line() {
    let rows = parse_es_output("Filename\tSize\nC:\\Filename\t3\nC:\\x.txt\t4");
    assert_eq!(plain(&rows), vec![row("C:\\Filename", 3, false), row("C:\\x.txt", 4, false)]);
}

#[test]
fn extension_is_what_stands_behind_the_last_dot() {
    assert_eq!(file("a.TXT").extension(), Some("TXT"));
    assert_eq!(file("a.tar.gz").extension(), Some("gz"));
    assert_eq!(file("a.").extension(), Some(""));
    assert_eq!(file(".hidden").extension(), None);
    assert_eq!(file("plain").extension(), None);
    assert_eq!(file("").extension(), None);
    assert_eq!(file(".a.b").extension(), Some("b"));
}

#[test]
fn icons_follow_the_extension() {
    assert_eq!(entry("src", "C:\\src", true, 0).icon(), "📁");
    assert_eq!(entry("a.rs", "C:\\a.rs", true, 0).icon(), "📁");
    assert_eq!(file("main.RS").icon(), "🦀");
    assert_eq!(file("x.py").icon(), "🐍");
    assert_eq!(file("x.Tsx").icon(), "📜");
    assert_eq!(file("x.scss").icon(), "🌐");
    assert_eq!(file("x.toml").icon(), "⚙");
    assert_eq!(file("x.docx").icon(), "📝");
    assert_eq!(file("x.WEBP").icon(), "🖼");
    assert_eq!(file("x.m4a").icon(), "🎵");
    assert_eq!(file("x.wmv").icon(), "🎬");
    assert_eq!(file("x.7z").icon(), "📦");
    assert_eq!(file("x.lnk").icon(), "⚡");
    assert_eq!(file("x.pdf").icon(), "📕");
    assert_eq!(file("x.pptx").icon(), "📊");
    assert_eq!(file("x.xls").icon(), "📈");
    assert_eq!(file("x.unknown").icon(), "📄");
    assert_eq!(file("x.").icon(), "📄");
    assert_eq!(file("noext").icon(), "📄");
    assert_eq!(icon_of_extension("RS"), "📄");
    assert_eq!(icon_of_extension("rs"), "🦀");
    assert_eq!(icon_of_extension(""), "📄");
}

#[test]
fn scores_are_added_up() {
    assert_eq!(score_of("calc.exe", "calc.exe", "exe"), 1050);
    assert_eq!(score_of("calc", "calc", ""), 1000);
    assert_eq!(score_of("calc.exe", "calc", "exe"), 550);
    assert_eq!(score_of("calc.txt", "calc", "txt"), 500);
    assert_eq!(score_of("my calc.lnk", "calc", "lnk"), 150);
    assert_eq!(score_of("my calc.txt", "calc", "txt"), 100);
    assert_eq!(score_of("other.exe", "calc", "exe"), 50);
    assert_eq!(score_of("other.txt", "calc", "txt"), 0);
    assert_eq!(score_of("anything", "", "msi"), 500);
    assert_eq!(score_of("", "", ""), 1000);
}

#[test]
fn entries_are_scored_without_regard_to_case() {
    let scored = score_entries(
        vec![file("Calc.EXE"), file("calculator.txt"), entry("old", "C:\\old", true, 77)],
        "CALC",
    );
    assert_eq!(scored.iter().map(|e| e.score).collect::<Vec<_>>(), vec![550, 500, 0]);
    assert_eq!(scored[0].name, "Calc.EXE");
    assert_eq!(scored[0].path, "C:\\x\\Calc.EXE");
    assert!(scored[2].is_dir);
}

#[test]
fn entries_are_ordered_by_score_and_then_as_found() {
    let ordered = order_by_score(vec![
        entry("a", "1", false, 100),
        entry("b", "2", false, 500),
        entry("c", "3", false, 100),
        entry("d", "4", false, -5),
        entry("e", "5", false, 500),
        entry("f", "6", false, i32::MAX),
        entry("g", "7", false, i32::MIN),
    ]);
    let names: Vec<&str> = ordered.iter().map(|e| e.name.as_str()).collect();
    assert_eq!(names, vec!["f", "b", "e", "a", "c", "d", "g"]);
    assert!(order_by_score(Vec::new()).is_empty());
}

#[test]
fn backend_scores_and_orders_what_was_found() {
    let backend = SearchBackend::new(BackendProbe::Detected(EsVersion::V15Alpha));
    let shown = backend.search(
        "note",
        vec![file("my notes.txt"), file("Notepad.lnk"), file("note"), file("unrelated.exe")],
    );
    let names: Vec<&str> = shown.iter().map(|e| e.name.as_str()).collect();
    assert_eq!(names, vec!["note", "Notepad.lnk", "my notes.txt", "unrelated.exe"]);
    assert_eq!(shown.iter().map(|e| e.score).collect::<Vec<_>>(), vec![1000, 550, 100, 50]);
}

#[test]
fn backend_tells_what_was_found_out_about_the_tool() {
    let ready = SearchBackend::new(BackendProbe::Detected(EsVersion::V15Alpha));
    assert!(ready.available);
    assert_eq!(ready.backend_info, "Everything 1.5a 就绪");
    assert_eq!(ready.es_version, EsVersion::V15Alpha);
    assert_eq!(ready.alias_map.len(), 13);
    let old = SearchBackend::new(BackendProbe::Detected(EsVersion::V14));
    assert_eq!(old.backend_info, "Everything 1.4 就绪");
    let odd = SearchBackend::new(BackendProbe::Detected(EsVersion::Unknown));
    assert!(odd.available);
    assert_eq!(odd.backend_info, "Everything Unknown 就绪");
    let missing = SearchBackend::new(BackendProbe::Missing);
    assert!(!missing.available);
    assert_eq!(missing.backend_info, "关键组件丢失：请确保 lib\\es.exe 存在于程序目录");
    assert_eq!(missing.es_version, EsVersion::Unknown);
    let failed = SearchBackend::new(BackendProbe::Failed("denied".to_string()));
    assert!(!failed.available);
    assert_eq!(failed.backend_info, "程序初始化失败：denied");
    assert_eq!(failed.es_version, EsVersion::Unknown);
}

#[test]
fn command_line_names_instance_form_and_words() {
    let backend = SearchBackend::new(BackendProbe::Detected(EsVersion::V15Alpha));
    assert_eq!(ES_INSTANCE, "1.5a");
    assert_eq!(
        backend.command_line("blue sky").unwrap(),
        vec!["-instance", "1.5a", "-n", "100", "-tsv", "-full-path-and-name", "-size", "blue", "sky"]
    );
    assert_eq!(backend.command_line("   "), None);
    assert_eq!(backend.command_line(""), None);
}

#[test]
fn command_line_keeps_quoted_words_whole() {
    let args = build_args("\"New Folder\" ext:txt", &Vec::new(), "");
    assert_eq!(
        args,
        vec!["-n", "100", "-tsv", "-full-path-and-name", "-size", "New Folder", "ext:txt"]
    );
}

#[test]
fn command_line_falls_back_to_plain_words_on_a_stray_quote() {
    let args = build_args("it's  a \"mess", &Vec::new(), "");
    assert_eq!(
        args,
        vec!["-n", "100", "-tsv", "-full-path-and-name", "-size", "it's", "a", "\"mess"]
    );
}

#[test]
fn words_are_those_of_the_shell_where_it_gave_any() {
    assert_eq!(
        words_or_plain(Some(vec!["a b".to_string(), "c".to_string()]), "ignored text"),
        vec!["a b", "c"]
    );
    assert_eq!(words_or_plain(Some(Vec::new()), "ignored"), Vec::<String>::new());
    assert_eq!(words_or_plain(None, " x  y "), vec!["x", "y"]);
}

#[test]
fn first_alias_of_the_table_is_written_out() {
    let aliases = default_aliases();
    assert_eq!(aliases.len(), 13);
    assert_eq!(aliases[0].word, "ps");
    assert_eq!(aliases[0].means, "photoshop");
    assert_eq!(aliases[12].word, "终端");
    assert_eq!(aliases[12].means, "cmd;powershell;wt");
    assert_eq!(expand_alias("ps", &aliases), "photoshop");
    assert_eq!(expand_alias("微信 安装", &aliases), "wechat 安装");
    assert_eq!(expand_alias("QQ", &aliases), "tencent");
    assert_eq!(expand_alias("qq", &aliases), "qq");
    assert_eq!(expand_alias("maps", &aliases), "maphotoshop");
    assert_eq!(expand_alias("ps pr", &aliases), "photoshop pr");
    assert_eq!(expand_alias("report", &aliases), "report");
    assert_eq!(expand_alias("anything", &Vec::new()), "anything");
    let own = vec![
        Alias { word: "x".to_string(), means: "first".to_string() },
        Alias { word: "x".to_string(), means: "second".to_string() },
    ];
    assert_eq!(expand_alias("x-x", &own), "first-first");
}

#[test]
fn alias_is_written_out_before_the_words_are_cut() {
    let args = build_args("代码", &default_aliases(), "inst");
    assert_eq!(
        args,
        vec![
            "-instance",
            "inst",
            "-n",
            "100",
            "-tsv",
            "-full-path-and-name",
            "-size",
            "vscode;code;sublime;idea"
        ]
    );
    let spaced = build_args("ae", &default_aliases(), "");
    assert_eq!(spaced[5..], ["after".to_string(), "effects".to_string()]);
}

#[test]
fn output_is_read_as_utf8_where_that_is_sound() {
    assert_eq!(decode_output(b"plain ascii").unwrap(), "plain ascii");
    assert_eq!(decode_output("夏天.mp4".as_bytes()).unwrap(), "夏天.mp4");
    assert_eq!(decode_output(b"").unwrap(), "");
}

#[test]
fn output_is_read_as_gbk_where_utf8_is_malformed() {
    let gbk = [0xCF, 0xC4, 0xCC, 0xEC, b'.', b'm', b'p', b'4'];
    assert_eq!(decode_output(&gbk).unwrap(), "夏天.mp4");
}

#[test]
fn output_is_decoded_up_to_what_the_decoder_can_size() {
    assert_eq!(DECODE_LIMIT, usize::MAX / 6 - 8);
    let long = vec![b'a'; 1 << 20];
    assert_eq!(decode_output(&long).map(|text| text.len()), Some(1 << 20));
}

#[test]
fn byte_order_mark_is_taken_off() {
    assert_eq!(decode_output(b"\xEF\xBB\xBFabc").unwrap(), "abc");
    assert_eq!(decode_output(b"\xFF\xFEa\x00b\x00").unwrap(), "ab");
}

#[test]
fn an_alias_that_is_empty_stands_before_every_character() {
    let own = vec![Alias { word: String::new(), means: "-".to_string() }];
    assert_eq!(expand_alias("ab", &own), "ab".replace("", "-"));
    assert_eq!(expand_alias("ab", &own), "-a-b-");
}

#[test]
fn decoding_is_picked_by_the_report_of_malformed_input() {
    assert_eq!(pick_decoding("u".to_string(), false, "g".to_string()), "u");
    assert_eq!(pick_decoding("u".to_string(), true, "g".to_string()), "g");
}

#[test]
fn notices_of_the_tool_are_no_complaints() {
    assert!(is_real_error("Error 8: cannot open"));
    assert!(!is_real_error(""));
    assert!(!is_real_error("  \r\n"));
    assert!(!is_real_error("Everything IPC not found"));
    assert!(!is_real_error("es 1.5.0.1 alpha"));
    assert!(is_blank(""));
    assert!(is_blank(" \t\u{3000}"));
    assert!(!is_blank(" x "));
}

#[test]
fn version_is_read_from_the_answer() {
    assert_eq!(detect_version("ES 1.5.0.1a"), VersionProbe::Known(EsVersion::V15Alpha));
    assert_eq!(detect_version("1.4 and 1.5"), VersionProbe::Known(EsVersion::V15Alpha));
    assert_eq!(detect_version("es 1.4.1"), VersionProbe::Known(EsVersion::V14));
    assert_eq!(detect_version("version 1.1.0.30"), VersionProbe::Known(EsVersion::V14));
    assert_eq!(detect_version("2.0"), VersionProbe::AskHelp);
    assert_eq!(detect_version(""), VersionProbe::AskHelp);
    assert_eq!(version_from_help("ES - Everything command line"), EsVersion::V14);
    assert_eq!(version_from_help("usage: es"), EsVersion::Unknown);
    assert_eq!(version_label(EsVersion::V14), "1.4");
    assert_eq!(version_label(EsVersion::V15Alpha), "1.5a");
    assert_eq!(version_label(EsVersion::Unknown), "Unknown");
}

#[test]
fn program_answers_with_a_version_other_than_zeros() {
    assert!(check_everything_ipc("1.5.0.1371\r\n"));
    assert!(check_everything_ipc("x"));
    assert!(!check_everything_ipc(""));
    assert!(!check_everything_ipc("  \n"));
    assert!(!check_everything_ipc("0.0.0.0"));
    assert!(!check_everything_ipc(" 0.0.0.0\r\n"));
    assert!(check_everything_ipc("0.0.0.0.1"));
    assert_eq!(ipc_args("1.5a"), vec!["-instance", "1.5a", "-get-everything-version"]);
    assert_eq!(ipc_args(""), vec!["-get-everything-version"]);
}

#[test]
fn startup_is_waited_for_fifteen_times() {
    assert_eq!(STARTUP_TRIES, 15);
    assert_eq!(STARTUP_PAUSE_MS, 200);
    assert_eq!(ensure_everything_running(1, true), StartupStep::Ready);
    assert_eq!(ensure_everything_running(15, true), StartupStep::Ready);
    assert_eq!(ensure_everything_running(1, false), StartupStep::Wait);
    assert_eq!(ensure_everything_running(14, false), StartupStep::Wait);
    assert_eq!(ensure_everything_running(15, false), StartupStep::TimedOut);
    assert_eq!(ensure_everything_running(u32::MAX, false), StartupStep::TimedOut);
    assert_eq!(startup_args("1.5a"), vec!["-instance", "1.5a", "-startup"]);
    assert_eq!(startup_args(""), vec!["-startup"]);
}

#[test]
fn tool_is_taken_from_the_first_place_that_holds_it() {
    assert_eq!(pick_location(&vec![false, true, true, false]), Some(1));
    assert_eq!(pick_location(&vec![true, true, true, true]), Some(0));
    assert_eq!(pick_location(&vec![false, false, false, true]), Some(3));
    assert_eq!(pick_location(&vec![false, false, false, false]), None);
    assert_eq!(pick_location(&Vec::new()), None);
}

#[test]
fn answers_are_remembered_for_half_a_minute() {
    assert_eq!(CACHE_SECONDS, 30);
    assert_eq!(CACHE_ENTRIES, 100);
    assert!(is_fresh(0));
    assert!(is_fresh(29));
    assert!(!is_fresh(30));
    assert!(!must_forget(100));
    assert!(must_forget(101));
}

#[test]
fn trial_search_is_judged() {
    assert_eq!(test_search("C:\\a.txt\n", ""), TrialVerdict::Works);
    assert_eq!(test_search("x", "0.0.0.0"), TrialVerdict::Works);
    assert_eq!(test_search("", ""), TrialVerdict::NotConnected);
    assert_eq!(test_search(" \n", "  "), TrialVerdict::NotConnected);
    assert_eq!(test_search("", "0.0.0.0\n"), TrialVerdict::NotConnected);
    assert_eq!(test_search("", "1.5.0.1371\n"), TrialVerdict::NoResults);
    assert_eq!(test_search_args(EsVersion::V15Alpha), vec!["-max-results", "1", "-instance", "1.5a", "*"]);
    assert_eq!(test_search_args(EsVersion::V14), vec!["-max-results", "1", "*"]);
    assert_eq!(test_search_args(EsVersion::Unknown), vec!["-max-results", "1", "*"]);
}

#[test]
fn entry_of_a_row_needs_a_file_name() {
    let made = SearchEntry::from_row(
        EsRow { path: "C:\\a\\b.txt".to_string(), size: 9, is_dir: false },
        Some("b.txt".to_string()),
    )
    .unwrap();
    assert_eq!(made.name, "b.txt");
    assert_eq!(made.path, "C:\\a\\b.txt");
    assert_eq!(made.size, 9);
    assert!(!made.is_dir);
    assert_eq!(made.score, 0);
    let none = SearchEntry::from_row(EsRow { path: "..".to_string(), size: 0, is_dir: true }, None);
    assert!(none.is_none());
}
