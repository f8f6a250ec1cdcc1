//! The built-in tools and the shell.

use ate::engine::error::ExecutionError;
use ate::engine::registry::ToolRegistry;
use ate::engine::tool::{Tool, ToolOutput};
use ate::json::Json;
use ate::plugin::manifest::PluginToolManifest;
use ate::runtime::native::{
    command_output, CappedOutput, Ending, GroupKiller, NativeShell, NativeShellConfig,
};
use ate::runtime::shell::{
    argv_from, command_from, output_json, CommandSpec, ResourceLimits, ShellTool,
};
use ate::text_map::TextMap;
use ate::tools::builtin::{
    register_core_tools, register_plugin_tools, session_registry, SessionTool,
};
use ate::tools::file_edit::{edit_output, edit_request, replace_only, FileEditTool};
use ate::tools::file_read::{
    file_text, friendly_file_error, path_detail, read_output, read_request, FileReadTool,
};
use ate::tools::file_write::{
    check_write, content_preview, existing_file, write_output, write_request, written_record,
    Attempt, Existing,
};
use ate::tools::glob::{anchor, bad_pattern, full_pattern, outside_pattern, GlobSearch, GlobTool};
use ate::tools::grep::{GrepSearch, GrepTool};
use ate::tools::html::{is_block_tag, strip_html};
use ate::tools::shared::{
    canonicalize_within_cwd, max_results, optional_usize_any, required_string,
    required_string_any, resolve_workspace_path, Climb, ClimbStep, FileReadRecord, FileReadState,
    Probe,
};
use ate::tools::web_fetch::{
    answer_response, check_status, elsewhere, follows_redirect, is_loopback_host,
    normalize_fetch_url, page_answer, redirect_decision, redirect_report, redirect_step, same_host, upgrade_fetch_url,
    FetchStep, RedirectStep, WebFetchTool, CACHE_TIME, MAX_PAGE_CHARS,
};

fn object(members: Vec<(&str, Json)>) -> Json {
    Json::object(
        members
            .into_iter()
            .map(|(key, value)| (key.to_string(), value))
            .collect(),
    )
}

fn texts(members: &[(&str, &str)]) -> Json {
    object(
        members
            .iter()
            .map(|(key, value)| (*key, Json::text(value)))
            .collect(),
    )
}

fn strings(list: &[&str]) -> Vec<String> {
    list.iter().map(|text| text.to_string()).collect()
}

#[test]
fn strip_html_removes_script_and_style_content() {
    let html = "<html><head><title>Hi</title></head><body><p>Hello</p><script>var x=1;</script></body></html>";
    let text = strip_html(html);
    assert!(!text.contains("var x"), "script content must be stripped");
    assert!(text.contains("Hello"), "body text must be kept");
    assert_eq!(
        strip_html("a<style>b { color: red }</style>c<SCRIPT>d</SCRIPT>e"),
        "ace"
    );
}

#[test]
fn block_tags_break_lines() {
    assert_eq!(strip_html("<p>one</p><div>two</div>"), "one\ntwo");
    assert_eq!(strip_html("<b>one</b><i>two</i>"), "onetwo");
    assert_eq!(strip_html("one<BR>two"), "one\ntwo");
    assert_eq!(strip_html("one<bloc\u{212a}quote>two"), "one\ntwo");
    assert_eq!(strip_html(""), "");
    assert!(is_block_tag("h6"));
    assert!(is_block_tag("/table"));
    assert!(!is_block_tag("span"));
}

#[test]
fn normalize_fetch_url_upgrades_public_http_to_https() {
    assert_eq!(
        normalize_fetch_url("http://example.com/x"),
        "https://example.com/x"
    );
}

#[test]
fn normalize_fetch_url_keeps_loopback_http() {
    assert_eq!(
        normalize_fetch_url("http://localhost:8080/health"),
        "http://localhost:8080/health"
    );
    assert_eq!(
        normalize_fetch_url("http://127.0.0.1/"),
        "http://127.0.0.1/"
    );
}

#[test]
fn tags_vanish_or_break_lines() {
    let (a, b) = ("one  two", "three");
    assert_eq!(strip_html(&format!("{a}<b>{b}")), strip_html(&format!("{a}{b}")));
    for tag in ["script", "style"] {
        assert_eq!(
            strip_html(&format!("{a}<{tag}>var x = 1;</{tag}>{b}")),
            strip_html(&format!("{a}{b}"))
        );
    }
    assert_eq!(strip_html(&format!("{a}<B class=\"p\">{b}")), "one twothree");
    for tag in ["p", "/div", "title", "P id=\"1\""] {
        for start in ["", "x", "x\n", "<i>x</i> "] {
            assert_eq!(
                strip_html(&format!("{start}<{tag}>{b}<br>{a}")),
                strip_html(&format!("{start}\n{b}<br>{a}"))
            );
        }
    }
    assert_eq!(strip_html("a<bloc\u{212a}quote>b"), "a\nb");
}

#[test]
fn stripping_twice_is_stripping_once() {
    for page in [
        "",
        "<p> \t a \r\n\r b\u{a0}\u{2003} c </p>\n\n<div>d > e</div>",
        "a < b<script>x</script>\rc",
        "&lt;p&gt;",
    ] {
        let text = strip_html(page);
        assert_eq!(strip_html(&text), text);
    }
}

#[test]
fn only_http_to_a_public_host_is_upgraded() {
    assert_eq!(normalize_fetch_url("https://a.b/"), "https://a.b/");
    assert_eq!(normalize_fetch_url("ftp://a.b/"), "ftp://a.b/");
    assert_eq!(normalize_fetch_url("no url"), "no url");
    assert_eq!(normalize_fetch_url("HTTP://a.b/"), "https://a.b/");
    assert_eq!(normalize_fetch_url(" \thttp://a.b:80/c:d"), " \thttps://a.b:80/c:d");
    let parts = |scheme: &str, host: Option<&str>| {
        Some((scheme.to_string(), host.map(str::to_string)))
    };
    assert_eq!(
        upgrade_fetch_url("http://a", parts("http", Some("a"))),
        "https://a"
    );
    assert_eq!(
        upgrade_fetch_url("http://LOCALHOST", parts("http", Some("LOCALHOST"))),
        "http://LOCALHOST"
    );
    assert_eq!(upgrade_fetch_url("http://a", None), "http://a");
    assert!(is_loopback_host("::1"));
    assert!(!is_loopback_host("127.0.0.2"));
}

#[test]
fn redirects_to_another_host_are_reported() {
    assert!(same_host(Some("a.b"), Some("a.b")));
    assert!(!same_host(Some("a.b"), Some("c.d")));
    assert!(follows_redirect("https://a.b/x", "https://a.b/y"));
    assert!(!follows_redirect("https://a.b/x", "https://c.d/y"));
    assert_eq!(
        redirect_report("https://c.d/y").content,
        Json::text("[redirected to another host]\nhttps://c.d/y")
    );
    assert_eq!(check_status(200, "200 OK"), Ok(()));
    assert_eq!(
        check_status(404, "404 Not Found").unwrap_err().describe(),
        "tool `WebFetch` execution failed: HTTP request returned status 404 Not Found"
    );
}

#[test]
fn pages_are_cached_for_fifteen_minutes() {
    assert_eq!(CACHE_TIME, 15 * 60 * 1_000_000_000);
    let mut tool = WebFetchTool::new();
    let arguments = texts(&[("url", "http://example.com/x")]);
    assert_eq!(
        tool.begin(&arguments, 100),
        Ok(FetchStep::Fetch("https://example.com/x".to_string()))
    );
    let output = tool.finish("https://example.com/x", "<p>Hi</p>", 100);
    assert_eq!(output.content, Json::text("Hi"));
    assert_eq!(
        tool.begin(&arguments, 100 + CACHE_TIME - 1),
        Ok(FetchStep::Cached(ToolOutput::text("[cached]\nHi".to_string())))
    );
    assert_eq!(
        tool.lookup("https://example.com/x".to_string(), 100 + CACHE_TIME),
        FetchStep::Fetch("https://example.com/x".to_string())
    );
    assert_eq!(
        tool.begin(&object(vec![]), 0).unwrap_err().describe(),
        "tool `WebFetch` validation failed: missing `url`"
    );
    let long = tool.finish("https://example.com/long", &"x".repeat(MAX_PAGE_CHARS + 5), 0);
    let Json::Text(page) = long.content else {
        panic!("no text");
    };
    assert!(page.starts_with(&"x".repeat(MAX_PAGE_CHARS)));
    assert!(!page.contains(&"x".repeat(MAX_PAGE_CHARS + 1)));
}

#[test]
fn rejects_oversized_file() {
    let tool = FileReadTool::new(()).with_max_file_read_bytes(50);
    let result = tool.check_size(100, "/w/big.txt");
    assert!(matches!(result, Err(ExecutionError::ToolExecution { .. })));
    assert!(
        result
            .unwrap_err()
            .describe()
            .contains("maximum read size"),
        "error should mention maximum read size"
    );
    assert_eq!(tool.check_size(50, "/w/small.txt"), Ok(()));
}

#[test]
fn reads_with_line_numbers() {
    let request = read_request(&texts(&[("file_path", "f.txt")])).unwrap();
    let content = file_text(b"one\ntwo\nthree\n".to_vec()).unwrap();
    let (output, record) = read_output(&request, "/w/f.txt", &content, 5);
    assert_eq!(
        output.content.get_str("content"),
        Some("1: one\n2: two\n3: three")
    );
    assert_eq!(output.content.get_u64("total_lines"), Some(3));
    assert_eq!(output.content.get_u64("start_line"), Some(1));
    assert_eq!(
        record,
        FileReadRecord {
            content,
            timestamp_ms: 5,
            is_partial_view: false,
            offset: Some(1),
            limit: None,
        }
    );
}

#[test]
fn parts_of_a_file_can_be_read() {
    let request = read_request(&object(vec![
        ("path", Json::text("f.txt")),
        ("offset", Json::unsigned(2)),
        ("limit", Json::unsigned(1)),
    ]))
    .unwrap();
    let (output, record) = read_output(&request, "/w/f.txt", "one\ntwo\nthree\n", 0);
    assert_eq!(output.content.get_str("content"), Some("2: two"));
    assert!(record.is_partial_view);

    let far = read_request(&object(vec![
        ("path", Json::text("f.txt")),
        ("offset", Json::unsigned(9)),
    ]))
    .unwrap();
    assert_eq!(
        read_output(&far, "/w/f.txt", "one\n", 0)
            .0
            .content
            .get_str("content"),
        Some("<system-reminder>Warning: the file exists but is shorter than the provided offset (9). The file has 1 lines.</system-reminder>")
    );
    let whole = read_request(&texts(&[("path", "f.txt")])).unwrap();
    assert_eq!(
        read_output(&whole, "/w/f.txt", "", 0)
            .0
            .content
            .get_str("content"),
        Some("<system-reminder>Warning: the file exists but the contents are empty.</system-reminder>")
    );
}

#[test]
fn only_texts_are_read() {
    assert_eq!(
        file_text(vec![b'a', 0]).unwrap_err().describe(),
        "tool `Read` execution failed: file appears to be binary; Read only supports UTF-8 text"
    );
    assert_eq!(
        file_text(vec![0xff, 0xfe]).unwrap_err().describe(),
        "tool `Read` execution failed: file is not valid UTF-8 text"
    );
    assert_eq!(file_text("é".as_bytes().to_vec()), Ok("é".to_string()));
    assert_eq!(
        read_request(&object(vec![])).unwrap_err().describe(),
        "missing required string argument `file_path`"
    );
    assert!(friendly_file_error("/w", "/w/x", true, "gone").contains("File does not exist"));
    assert_eq!(friendly_file_error("/w", "/w/x", false, "denied"), "denied");
    assert_eq!(path_detail(&texts(&[("file_path", "a")])), "a");
    assert_eq!(path_detail(&Json::Null), "");
}

#[test]
fn rejects_write_without_prior_read() {
    let state = FileReadState::new();
    let request = write_request(&texts(&[("file_path", "f.txt"), ("content", "new")])).unwrap();
    assert_eq!(request.content, "new");
    let result = check_write(&state, "/w/f.txt", &Existing::Text("original".to_string()));
    assert!(
        matches!(result, Err(ExecutionError::ToolExecution { .. })),
        "write without a prior Read must be rejected"
    );
}

#[test]
fn new_files_need_no_read() {
    let mut state = FileReadState::new();
    let request =
        write_request(&texts(&[("file_path", "a/b/c.txt"), ("content", "hello")])).unwrap();
    let path = resolve_workspace_path("/w", &request.input_path);
    assert_eq!(path, "/w/a/b/c.txt");
    let path = canonicalize_within_cwd("/w", "/w", "a/b/c.txt").unwrap();
    assert_eq!(check_write(&state, &path, &Existing::Missing), Ok(()));
    let output = write_output(&request, &path);
    assert_eq!(output.content.get("written"), Some(&Json::Bool(true)));
    assert_eq!(output.content.get_u64("bytes"), Some(5));
    assert_eq!(output.content.get_str("content_preview"), Some("hello"));
    state.record(&path, written_record("hello", 3));
    let written = Existing::Text("hello".to_string());
    assert_eq!(check_write(&state, &path, &written), Ok(()));
}

#[test]
fn existing_files_that_are_no_text_are_not_overwritten() {
    assert_eq!(existing_file(Attempt::NotFound), Existing::Missing);
    assert_eq!(existing_file(Attempt::Failed), Existing::Other);
    assert_eq!(existing_file(Attempt::Read(vec![0xff])), Existing::Other);
    assert_eq!(
        existing_file(Attempt::Read("é".as_bytes().to_vec())),
        Existing::Text("é".to_string())
    );
    let mut state = FileReadState::new();
    let refusal = |state: &FileReadState| {
        check_write(state, "/w/f", &Existing::Other).map_err(|error| error.describe())
    };
    let unread = "tool `Write` execution failed: file has not been read yet; read it with Read first";
    assert_eq!(refusal(&state), Err(unread.to_string()));
    state.record("/w/f", written_record("a", 1));
    assert_eq!(refusal(&state), Err(unread.to_string()));
}

#[test]
fn the_nearest_part_that_exists_decides() {
    let mut climb = Climb::new("/w", "/w/a/./b/c.txt");
    assert_eq!(climb.tried(), "/w/a/b/c.txt");
    let absent = || Probe::Absent("no such file".to_string());
    assert_eq!(climb.advance(absent()), ClimbStep::Look("/w/a/b".to_string()));
    assert_eq!(climb.advance(absent()), ClimbStep::Look("/w/a".to_string()));
    assert_eq!(
        climb.advance(Probe::Found("/w/real".to_string())),
        ClimbStep::Done(Ok("/w/real/b/c.txt".to_string()))
    );
    assert_eq!(
        climb.advance(Probe::Found("/etc".to_string())),
        ClimbStep::Done(Err(ExecutionError::Other(
            "path /etc/b/c.txt is outside the working directory /w".to_string()
        )))
    );
    let mut climb = Climb::new("/w", "/w/../x");
    assert_eq!(climb.advance(absent()), ClimbStep::Look("/w/..".to_string()));
    assert_eq!(climb.advance(absent()), ClimbStep::Look("/w".to_string()));
    assert!(matches!(
        climb.advance(Probe::Found("/w".to_string())),
        ClimbStep::Done(Err(_))
    ));
}

#[test]
fn links_that_lead_nowhere_are_refused() {
    let failed = |message: &str| ClimbStep::Done(Err(ExecutionError::Other(message.to_string())));
    let mut climb = Climb::new("/w", "/w/link/x");
    let absent = || Probe::Absent("no such file".to_string());
    assert_eq!(climb.advance(absent()), ClimbStep::Look("/w/link".to_string()));
    assert_eq!(
        climb.advance(Probe::Dangling),
        failed("path /w/link is a link that leads nowhere")
    );
    assert_eq!(
        climb.advance(Probe::Failed("denied".to_string())),
        failed("denied")
    );
    let mut climb = Climb::new("/w", "x");
    assert_eq!(climb.advance(absent()), failed("no such file"));
}

#[test]
fn redirects_are_few_and_stay_on_the_host() {
    assert_eq!(redirect_decision(10, true), RedirectStep::Follow);
    assert_eq!(redirect_decision(10, false), RedirectStep::Stop);
    assert_eq!(redirect_decision(11, true), RedirectStep::TooMany);
    let visited = |n: usize| vec!["https://a.b/".to_string(); n];
    assert_eq!(redirect_step(&visited(10), "https://a.b/c"), RedirectStep::Follow);
    assert_eq!(redirect_step(&visited(11), "https://a.b/c"), RedirectStep::TooMany);
    assert_eq!(redirect_step(&visited(1), "https://c.d/"), RedirectStep::Stop);
    assert_eq!(redirect_step(&visited(0), "https://a.b/"), RedirectStep::Stop);
    assert_eq!(
        redirect_step(
            &strings(&["https://a.b/", "https://c.d/"]),
            "https://a.b/"
        ),
        RedirectStep::Stop
    );
}

#[test]
fn responses_are_reports_pages_or_failures() {
    let report = |to: &str| Ok(Some(redirect_report(to)));
    let failed = |shown: &str| {
        Err(ExecutionError::ToolExecution {
            tool: "WebFetch".to_string(),
            message: format!("HTTP request returned status {shown}"),
        })
    };
    assert_eq!(page_answer(200, "200 OK", None), Ok(None));
    assert_eq!(page_answer(302, "302 Found", None), failed("302 Found"));
    assert_eq!(
        page_answer(302, "302 Found", Some("https://c.d/".to_string())),
        report("https://c.d/")
    );
    let answer = |status: u16, location: Option<&str>| {
        answer_response(status, "S", "https://a.b/x/y", location)
    };
    assert_eq!(answer(301, Some("//c.d/e")), report("https://c.d/e"));
    for status in [301, 302, 303, 307, 308] {
        assert_eq!(answer(status, Some("https://c.d/")), report("https://c.d/"));
        assert_eq!(answer(status, Some("z")), failed("S"));
    }
    for status in [300, 304, 305, 399] {
        assert_eq!(answer(status, Some("https://c.d/")), failed("S"));
        assert_eq!(answer(status, Some("z")), failed("S"));
    }
    assert_eq!(elsewhere(302, Some("u".to_string()), false), Some("u".to_string()));
    assert_eq!(elsewhere(302, Some("u".to_string()), true), None);
    assert_eq!(elsewhere(304, Some("u".to_string()), false), None);
    assert_eq!(answer(301, Some("https://[")), failed("S"));
    assert_eq!(answer(301, None), failed("S"));
    assert_eq!(answer(200, Some("https://c.d/")), Ok(None));
    assert_eq!(answer(400, Some("https://c.d/")), failed("S"));
}

#[test]
fn tools_have_defaults() {
    let read: FileReadTool<FileReadState> = FileReadTool::default();
    assert_eq!(read.read_file_state(), &FileReadState::default());
    assert_eq!(FileReadState::default(), FileReadState::new());
    let page = texts(&[("url", "https://a.b/")]);
    assert_eq!(
        WebFetchTool::default().begin(&page, 0),
        Ok(FetchStep::Fetch("https://a.b/".to_string()))
    );
}

#[test]
fn changes_need_a_whole_and_current_read() {
    let mut state = FileReadState::new();
    let record = |content: &str, is_partial_view: bool| FileReadRecord {
        content: content.to_string(),
        timestamp_ms: 0,
        is_partial_view,
        offset: None,
        limit: None,
    };
    let refusal = |state: &FileReadState| {
        state
            .ensure_file_was_read_and_unchanged("Edit", "/w/f", "now")
            .map_err(|error| error.describe())
    };
    assert_eq!(
        refusal(&state),
        Err("tool `Edit` execution failed: file has not been read yet; read it with Read first".to_string())
    );
    state.record("/w/f", record("now", true));
    assert_eq!(
        refusal(&state),
        Err("tool `Edit` execution failed: only part of the file has been read; read the whole file with Read first".to_string())
    );
    state.record("/w/f", record("before", false));
    assert_eq!(
        refusal(&state),
        Err("tool `Edit` execution failed: file has changed since it was read; read it again with Read first".to_string())
    );
    state.record("/w/f", record("now", false));
    assert_eq!(refusal(&state), Ok(()));
}

#[test]
fn previews_are_clipped() {
    assert_eq!(content_preview("abc"), ("abc".to_string(), false));
    let (preview, clipped) = content_preview(&"x".repeat(20_001));
    assert_eq!(preview.len(), 20_000);
    assert!(clipped);
    assert!(write_request(&texts(&[("file_path", "f")])).is_err());
}

#[test]
fn edits_replace_the_only_occurrence() {
    assert_eq!(replace_only("a b c", "b", "x"), Ok("a x c".to_string()));
    assert_eq!(replace_only("abc", "abc", ""), Ok(String::new()));
    for (content, old, reason) in [
        ("abc", "", "old_string must not be empty"),
        ("abc", "d", "old_string was not found in the file"),
        ("aba", "a", "old_string occurs more than once in the file"),
        ("aaa", "aa", "old_string occurs more than once in the file"),
    ] {
        assert_eq!(
            replace_only(content, old, "x").unwrap_err().describe(),
            format!("tool `Edit` execution failed: {reason}")
        );
    }
    let request = edit_request(&texts(&[
        ("file_path", "f"),
        ("old_string", "a"),
        ("new_string", "b"),
    ]))
    .unwrap();
    assert_eq!(
        edit_output(&request, "/w/f").content.get("edited"),
        Some(&Json::Bool(true))
    );
    assert!(edit_request(&texts(&[("file_path", "f"), ("old_string", "a")])).is_err());
    assert_eq!(FileEditTool::new(4u8).read_file_state(), &4);
}

#[test]
fn rejects_absolute_pattern_outside_cwd() {
    let arguments = texts(&[("pattern", "/tmp/outside/*")]);
    let (_, pattern) = GlobSearch::new(&arguments, "/tmp/cwd").unwrap();
    let anchor = anchor(&pattern).unwrap();
    assert_eq!(anchor, "/tmp/outside");
    assert!(canonicalize_within_cwd("/tmp/cwd", &anchor, "").is_err());
    assert_eq!(
        outside_pattern("/tmp/outside/*").describe(),
        "absolute glob pattern must stay under cwd: /tmp/outside/*"
    );
    assert!(bad_pattern("Glob", "unclosed").describe().contains("unclosed"));
}

#[test]
fn accepts_absolute_pattern_under_cwd() {
    let arguments = texts(&[("pattern", "/tmp/cwd/*.txt")]);
    let (mut search, pattern) = GlobSearch::new(&arguments, "/tmp/cwd").unwrap();
    let anchor = anchor(&pattern).unwrap();
    assert!(canonicalize_within_cwd("/tmp/cwd", &anchor, "").is_ok());
    assert_eq!(full_pattern("/tmp/cwd", &pattern), "/tmp/cwd/*.txt");
    search.offer("/tmp/cwd/sample.txt", true);
    assert_eq!(
        search.finish().content.get("matches"),
        Some(&Json::array(vec![Json::text("sample.txt")]))
    );
}

#[test]
fn glob_rejects_symlink_escape() {
    let (mut search, _) = GlobSearch::new(&texts(&[("pattern", "**/*")]), "/tmp/cwd").unwrap();
    search.offer("/tmp/cwd/link.txt", false);
    assert_eq!(
        search.finish().content.get("matches"),
        Some(&Json::array(vec![])),
        "symlink escape should produce no matches"
    );
}

#[test]
fn searches_end_at_their_limit() {
    let arguments = object(vec![
        ("pattern", Json::text("*")),
        ("max_results", Json::unsigned(2)),
    ]);
    let (mut search, pattern) = GlobSearch::new(&arguments, "/w").unwrap();
    assert_eq!(full_pattern("/w", &pattern), "/w/*");
    assert_eq!(anchor("*"), None);
    search.offer("/w/a", true);
    assert!(search.wants_more());
    search.offer("/w/b", true);
    assert!(!search.wants_more());
    assert!(GlobSearch::new(&Json::Null, "/w").is_err());

    let (mut grep, glob) = GrepSearch::new(&arguments, "/w").unwrap();
    assert_eq!(glob, "**/*");
    grep.search("/w/a", "*\n*\n*\n");
    assert!(!grep.wants_more());
    let Json::Array(hits) = grep.finish().content.get("matches").unwrap().clone() else {
        panic!("no matches");
    };
    assert_eq!(hits.len(), 2);
}

#[test]
fn rejects_absolute_glob() {
    let arguments = texts(&[("pattern", "root"), ("glob", "/tmp/outside/*")]);
    let (_, glob) = GrepSearch::new(&arguments, "/tmp/cwd").unwrap();
    let anchor = anchor(&glob).unwrap();
    assert!(canonicalize_within_cwd("/tmp/cwd", &anchor, "").is_err());
}

#[test]
fn accepts_absolute_glob_under_cwd() {
    let arguments = texts(&[("pattern", "needle"), ("glob", "/tmp/cwd/*.txt")]);
    let (mut search, glob) = GrepSearch::new(&arguments, "/tmp/cwd").unwrap();
    assert!(canonicalize_within_cwd("/tmp/cwd", &anchor(&glob).unwrap(), "").is_ok());
    search.search("/tmp/cwd/sample.txt", "alpha\nneedle\n");
    let Json::Array(hits) = search.finish().content.get("matches").unwrap().clone() else {
        panic!("no matches");
    };
    assert_eq!(hits.len(), 1);
    assert_eq!(hits[0].get_str("path"), Some("sample.txt"));
    assert_eq!(hits[0].get_u64("line"), Some(2));
    assert_eq!(hits[0].get_str("text"), Some("needle"));
}

#[test]
fn large_and_unknown_files_are_not_searched() {
    let tool = GrepTool::new(10);
    assert!(tool.searches(Some(10)));
    assert!(!tool.searches(Some(11)));
    assert_eq!(
        GrepTool::default().max_file_read_bytes,
        ate::tools::shared::DEFAULT_MAX_FILE_READ_BYTES
    );
    assert_eq!(GrepTool::default().definition().name, "Grep");
    assert!(GlobTool.is_concurrency_safe(&Json::Null));
}

#[test]
fn tool_paths_stay_inside() {
    assert_eq!(
        canonicalize_within_cwd("/w", "/w/sub", "new.txt"),
        Ok("/w/sub/new.txt".to_string())
    );
    assert!(canonicalize_within_cwd("/w", "/etc", "passwd").is_err());
    assert!(canonicalize_within_cwd("/w", "/w", "../etc").is_err());
    assert_eq!(resolve_workspace_path("/w", "/etc/x"), "/etc/x");
}

#[test]
fn arguments_are_looked_up_under_both_names() {
    let arguments = object(vec![
        ("path", Json::text("p")),
        ("limit", Json::unsigned(3)),
    ]);
    assert_eq!(required_string(&arguments, "path"), Ok("p".to_string()));
    assert!(required_string(&arguments, "limit").is_err());
    assert_eq!(
        required_string_any(&arguments, "file_path", "path"),
        Ok("p".to_string())
    );
    assert_eq!(optional_usize_any(&arguments, "limit", "max_lines"), Some(3));
    assert_eq!(optional_usize_any(&arguments, "a", "b"), None);
    assert_eq!(max_results(&object(vec![("max_results", Json::unsigned(7))])), 7);
}

fn registry() -> ToolRegistry<SessionTool<u8, u8, u8>> {
    session_registry(0u8, 0u8, false)
}

#[test]
fn core_tools_can_be_registered_alone() {
    let mut registry: ToolRegistry<SessionTool<u8, u8, u8>> = ToolRegistry::new();
    register_core_tools(&mut registry, 3);
    assert_eq!(registry.list().len(), 6);
    let Ok(SessionTool::Write(tool)) = registry.get("Write") else {
        panic!("no Write");
    };
    assert_eq!(tool.read_file_state(), &3);
}

#[test]
fn plugin_tools_join_the_others() {
    let mut registry: ToolRegistry<SessionTool<u8, u8, u8>> = session_registry(0, 0, true);
    assert!(!registry.get("shell").unwrap().is_concurrency_safe(&Json::Null));
    let tool = |name: &str| PluginToolManifest {
        name: name.to_string(),
        description: format!("the tool {name}"),
        input_schema: object(vec![]),
        concurrency_safe: true,
    };
    register_plugin_tools(&mut registry, vec![(tool("b"), 1), (tool("a"), 2)]);
    let names: Vec<String> = registry.list().into_iter().map(|tool| tool.name).collect();
    assert_eq!(
        names,
        ["Edit", "Glob", "Grep", "Read", "WebFetch", "Write", "a", "b", "shell"]
    );
    let Ok(SessionTool::Plugin(adapter)) = registry.get("a") else {
        panic!("no plugin tool");
    };
    assert_eq!(adapter.supervisor(), &2);
    assert_eq!(registry.definition("b").unwrap().description, "the tool b");
}

#[test]
fn tool_discovery_reports_base_tools_plus_shell() {
    let names: Vec<String> = registry().list().into_iter().map(|tool| tool.name).collect();
    for name in ["Read", "Write", "Edit", "Glob", "Grep", "WebFetch", "shell"] {
        assert!(
            names.iter().any(|listed| listed == name),
            "registered tools should be discoverable"
        );
    }
    assert_eq!(names.len(), 7);
}

#[test]
fn readers_run_beside_others_and_writers_do_not() {
    let registry = registry();
    for (name, safe) in [
        ("Read", true),
        ("Write", false),
        ("Edit", false),
        ("Glob", true),
        ("Grep", true),
        ("WebFetch", true),
        ("shell", true),
    ] {
        let tool = registry.get(name).unwrap();
        assert_eq!(tool.is_concurrency_safe(&Json::Null), safe, "{name}");
    }
    let shell = registry.get("shell").unwrap();
    let arguments = object(vec![(
        "argv",
        Json::array(vec![Json::text("echo"), Json::text("hi")]),
    )]);
    assert_eq!(shell.invocation_detail(&arguments), "echo hi");
    assert_eq!(shell.invocation_detail(&Json::Null), "shell");
}

#[test]
fn tools_refuse_incomplete_arguments() {
    let registry = registry();
    let refusal = |name: &str, arguments: &Json| {
        registry
            .get(name)
            .unwrap()
            .validate(arguments)
            .map_err(|error| error.describe())
    };
    let missing = |key: &str| Err(format!("missing required string argument `{key}`"));
    assert_eq!(refusal("Read", &Json::Null), missing("file_path"));
    assert_eq!(refusal("Read", &texts(&[("path", "f")])), Ok(()));
    assert_eq!(refusal("Write", &texts(&[("path", "f")])), missing("content"));
    assert_eq!(
        refusal("Edit", &texts(&[("path", "f"), ("old_string", "a")])),
        missing("new_string")
    );
    assert_eq!(refusal("Glob", &Json::Null), missing("pattern"));
    assert_eq!(refusal("Grep", &texts(&[("pattern", "x")])), Ok(()));
    assert_eq!(refusal("shell", &Json::Null), Ok(()));
    assert_eq!(refusal("WebFetch", &Json::Null), Ok(()));
}

#[test]
fn shell_arguments_are_checked_against_the_schema() {
    let registry = registry();
    let shell = registry.resolve("shell").unwrap();
    let argv = |items: Vec<Json>| object(vec![("argv", Json::array(items))]);
    assert_eq!(shell.validate_arguments(&argv(vec![Json::text("ls")])), Ok(()));
    assert!(shell.validate_arguments(&argv(vec![])).is_err());
    assert!(shell.validate_arguments(&argv(vec![Json::unsigned(1)])).is_err());
    assert!(shell.validate_arguments(&object(vec![])).is_err());
}

#[test]
fn shell_commands_are_read_from_arguments() {
    let arguments = object(vec![
        ("argv", Json::array(vec![Json::text("ls"), Json::text("-l")])),
        ("cwd", Json::text("/w")),
        ("env", object(vec![("A", Json::text("1")), ("B", Json::Null)])),
        ("memory_bytes", Json::unsigned(64)),
    ]);
    let command = command_from(&arguments).unwrap();
    assert_eq!(command.argv, ["ls", "-l"]);
    assert_eq!(command.cwd.as_deref(), Some("/w"));
    assert_eq!(command.env.get("A").map(String::as_str), Some("1"));
    assert_eq!(command.limits.memory_bytes, Some(64));
    assert_eq!(command.limits.max_stdout, ResourceLimits::default().max_stdout);
    for (arguments, message) in [
        (object(vec![]), "shell: `argv` must be a non-empty array"),
        (
            object(vec![("argv", Json::array(vec![]))]),
            "shell: `argv` must not be empty",
        ),
        (
            object(vec![("argv", Json::array(vec![Json::Null]))]),
            "shell: `argv` entries must be strings",
        ),
    ] {
        assert!(argv_from(&arguments).unwrap_err().describe().contains(message));
    }
}

fn spec(argv: &[&str], env: &[(&str, &str)]) -> CommandSpec {
    let mut variables = TextMap::new();
    for (key, value) in env {
        variables.insert(key.to_string(), value.to_string());
    }
    CommandSpec {
        argv: strings(argv),
        cwd: None,
        env: variables,
        limits: ResourceLimits::default(),
    }
}

#[test]
fn native_shell_applies_base_env_and_spec_overrides() {
    let mut config = NativeShellConfig::default();
    config.inherit_env = false;
    config.base_env.insert("FOO".to_string(), "base".to_string());
    config.base_env.insert("BAR".to_string(), "base".to_string());
    let shell = NativeShell::new(config);
    let mut inherited = TextMap::new();
    inherited.insert("HOME".to_string(), "/home/me".to_string());
    let env = shell.assemble_env(&spec(&["x"], &[("FOO", "override")]), &inherited);
    assert_eq!(env.get("FOO").map(String::as_str), Some("override"));
    assert_eq!(env.get("BAR").map(String::as_str), Some("base"));
    assert_eq!(env.get("HOME"), None);

    let local = NativeShell::local();
    assert!(local.inherits_env());
    let env = local.assemble_env(&spec(&["x"], &[]), &inherited);
    assert_eq!(env.get("HOME").map(String::as_str), Some("/home/me"));
}

#[test]
fn native_shell_applies_resource_limits() {
    let mut config = NativeShellConfig::default();
    config.limits.memory_bytes = Some(64 * 1024 * 1024);
    config.limits.cpu_seconds = Some(9);
    let shell = NativeShell::new(config);
    let mut command = spec(&["/bin/sh", "-c", "true"], &[]);
    command.limits.cpu_seconds = Some(5);
    let plan = shell
        .plan(&command, Some("/w".to_string()), &TextMap::new())
        .unwrap();
    assert_eq!(plan.program, "/bin/sh");
    assert_eq!(plan.args, ["-c", "true"]);
    assert_eq!(plan.memory_bytes, Some(64 * 1024 * 1024));
    assert_eq!(plan.cpu_seconds, Some(5));
    assert_eq!(plan.process_count, None);
    assert!(shell
        .plan(&spec(&[], &[]), None, &TextMap::new())
        .unwrap_err()
        .describe()
        .contains("command argv is empty"));
}

#[test]
fn working_directories_are_confined() {
    let mut config = NativeShellConfig::default();
    config.cwd = Some("/w".to_string());
    config.workspace_root = Some("/w".to_string());
    let shell = NativeShell::new(config);
    let mut command = spec(&["pwd"], &[]);
    assert_eq!(shell.directory(&command).as_deref(), Some("/w"));
    command.cwd = Some("/w/sub".to_string());
    assert_eq!(shell.directory(&command).as_deref(), Some("/w/sub"));
    assert_eq!(
        shell.confine(Ok("/w/sub".to_string())),
        Ok("/w/sub".to_string())
    );
    assert!(shell.confine(Ok("/etc".to_string())).is_err());
    assert!(shell
        .confine(Err("gone".to_string()))
        .unwrap_err()
        .describe()
        .contains("resolving working directory failed: gone"));
}

#[test]
fn native_shell_truncates_overflowing_stdout() {
    let mut kept = CappedOutput::new(1024);
    for _ in 0..100 {
        kept.feed(&[b'x'; 100]);
    }
    let (text, truncated) = kept.finish();
    assert_eq!(text.len(), 1024);
    assert!(truncated);
}

#[test]
fn captured_output_does_not_depend_on_reads() {
    let bytes = "aé\u{ff}z".as_bytes();
    let mut whole = CappedOutput::new(100);
    whole.feed(bytes);
    let mut pieces = CappedOutput::new(100);
    for byte in bytes {
        pieces.feed(&[*byte]);
    }
    assert_eq!(whole.finish(), pieces.finish());
    assert_eq!(whole.finish(), ("aé\u{ff}z".to_string(), false));
    let mut broken = CappedOutput::new(100);
    broken.feed(&[b'a', 0xff, b'b']);
    assert_eq!(broken.finish().0, "a\u{fffd}b");
}

#[test]
fn results_hold_stdout_and_exit_code() {
    let mut stdout = CappedOutput::new(100);
    stdout.feed(b"hello\n");
    let output = command_output(
        Ending::Exited {
            code: Some(0),
            signal: None,
        },
        stdout.finish(),
        CappedOutput::new(100).finish(),
        7_000_000,
    );
    assert_eq!(output.exit_code, Some(0));
    assert_eq!(output.stdout, "hello\n");
    assert!(!output.truncated);
    let json = output_json(&output).content;
    assert_eq!(json.get_u64("exit_code"), Some(0));
    assert_eq!(json.get("signal"), Some(&Json::Null));
    assert_eq!(json.get_str("stdout"), Some("hello\n"));
    assert_eq!(json.get_u64("duration_ms"), Some(7));
}

#[test]
fn results_hold_stderr_and_truncation() {
    let output = command_output(
        Ending::Exited {
            code: Some(7),
            signal: None,
        },
        (String::new(), false),
        ("err\n".to_string(), true),
        0,
    );
    assert_eq!(output.exit_code, Some(7));
    assert_eq!(output.stderr, "err\n");
    assert!(output.truncated);
    assert!(!output.terminated);
    let json = output_json(&output).content;
    assert_eq!(json.get_u64("exit_code"), Some(7));
}

#[test]
fn a_cancelled_command_is_terminated() {
    let mut killer = GroupKiller::new(42);
    assert_eq!(killer.target(), Some(42));
    killer.disarm();
    assert_eq!(killer.target(), None);
    let output = command_output(
        Ending::Cancelled,
        ("partial".to_string(), false),
        (String::new(), false),
        1,
    );
    assert!(output.terminated);
    assert_eq!(output.exit_code, None);
    assert_eq!(output.stdout, "partial");
}

#[test]
fn shell_tools_can_be_renamed_and_made_exclusive() {
    let tool = ShellTool::new(9u8)
        .with_name("run".to_string())
        .with_description("runs".to_string())
        .exclusive();
    assert_eq!(tool.definition().name, "run");
    assert_eq!(tool.definition().description, "runs");
    assert!(!tool.is_concurrency_safe(&Json::Null));
    assert_eq!(tool.shell(), &9);
}
