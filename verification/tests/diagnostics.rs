use whoami_diag::format::value_limiter;
use whoami_diag::glyphs::replace_emojis;
use whoami_diag::isolation::{
    find_section, mock_isolated, parse_isolation_output, posture_from_output, IsolationPosture,
    Section,
};
use whoami_diag::negotiate::view_as_json;
use whoami_diag::render::{assemble, clean_prefixes, render, render_html, render_json};
use whoami_diag::store::Store;

fn empty_posture() -> IsolationPosture {
    IsolationPosture { data: Vec::new() }
}

fn snapshot_for(
    headers: Vec<(String, String)>,
    environment: Vec<(String, String)>,
    as_json: bool,
) -> whoami_diag::render::DiagnosticSnapshot {
    assemble(
        headers,
        environment,
        "0.0.0.0".to_string(),
        "203.0.113.9".to_string(),
        "::1".to_string(),
        empty_posture(),
        "{}".to_string(),
        as_json,
    )
}

#[test]
fn value_limit_fail_not_json() {
    let mut input = "".to_string();
    for _ in 0..100 {
        input.push('a');
    }
    let got = value_limiter(false, input.to_string());
    let want = input.to_string();
    assert_ne!(got, want);
}

#[test]
fn value_limit_pass_not_json() {
    let mut input = "".to_string();
    for _ in 0..500 {
        input.push('a');
    }
    let got = value_limiter(false, input.to_string());

    for line in got.lines() {
        assert!(line.len() <= 80);
    }

    assert!(got.lines().count() == 7)
}

#[test]
fn value_limit_pass_json() {
    let mut input = "".to_string();
    for _ in 0..500 {
        input.push('a');
    }
    let got = value_limiter(true, input.to_string());

    assert!(got.lines().count() == 1)
}

#[test]
fn value_limit_short_input_untouched() {
    let mut input = "".to_string();
    for _ in 0..80 {
        input.push('x');
    }
    assert_eq!(value_limiter(false, input.clone()), input);
    assert_eq!(value_limiter(false, "hello".to_string()), "hello");
    assert_eq!(value_limiter(false, "".to_string()), "");
}

#[test]
fn value_limit_break_after_eighty() {
    let mut input = "".to_string();
    for _ in 0..81 {
        input.push('y');
    }
    let mut want = "".to_string();
    for _ in 0..80 {
        want.push('y');
    }
    want.push('\n');
    want.push('y');
    assert_eq!(value_limiter(false, input), want);
}

// The server sees "http://localhost:8080/?j" as path "/" with query "j",
// and "http://localhost:8080/j" as path "/j" with no query.
#[test]
fn view_as_json_pass_json_param() {
    let got = view_as_json("/", Some("j"), None, None);
    assert!(got);

    let got2 = view_as_json("/j", None, None, None);
    assert!(got2);
}

#[test]
fn view_as_json_pass_html_param() {
    let got = view_as_json("/h", None, None, None);
    assert!(!got);

    let got2 = view_as_json("/", Some("h"), None, None);
    assert!(!got2);
}

#[test]
fn view_as_json_accept_header() {
    assert!(view_as_json("/", None, Some("application/json"), None));
    assert!(view_as_json("/", None, Some("text/html, application/json;q=0.9"), None));
    assert!(!view_as_json("/", None, Some("text/html"), None));
}

#[test]
fn view_as_json_curl_default() {
    assert!(view_as_json("/", None, None, Some("curl/8.5.0")));
    assert!(!view_as_json("/h", None, None, Some("curl/8.5.0")));
    assert!(!view_as_json("/", Some("h"), None, Some("curl/8.5.0")));
    assert!(!view_as_json("/", None, None, Some("Mozilla/5.0")));
}

#[test]
fn view_as_json_substring_quirk() {
    // substring matching is part of the observable contract
    assert!(view_as_json("/john", None, None, None));
    assert!(!view_as_json("/hat", None, None, Some("curl/8.5.0")));
}

#[test]
fn test_parse_isolation_output() {
    let output = &mock_isolated();
    let parsed = parse_isolation_output(output);

    assert_eq!(
        find_section(&parsed, "High Priority").unwrap(),
        &vec!["a".to_string(), "b".to_string(), "c".to_string()]
    );
    assert_eq!(
        find_section(&parsed, "Low Priority").unwrap(),
        &vec!["d".to_string(), "e".to_string(), "f".to_string()]
    );
}

#[test]
fn parse_keeps_section_order() {
    let parsed = parse_isolation_output(&mock_isolated());
    assert_eq!(parsed.len(), 2);
    assert_eq!(parsed[0].name, "High Priority");
    assert_eq!(parsed[1].name, "Low Priority");
}

#[test]
fn parse_drops_finding_before_header() {
    let parsed = parse_isolation_output(" orphan\nHigh Priority\n kept\n");
    assert_eq!(parsed.len(), 1);
    assert_eq!(find_section(&parsed, "High Priority").unwrap(), &vec!["kept".to_string()]);
}

#[test]
fn parse_drops_unrecognized_lines() {
    let parsed = parse_isolation_output("banner line\n\nHigh Priority\n a\nclosing words\n");
    assert_eq!(parsed.len(), 1);
    assert_eq!(find_section(&parsed, "High Priority").unwrap(), &vec!["a".to_string()]);
    assert!(find_section(&parsed, "banner line").is_none());
}

#[test]
fn parse_header_without_findings_absent() {
    let parsed = parse_isolation_output("High Priority\nLow Priority\n d\n");
    assert!(find_section(&parsed, "High Priority").is_none());
    assert_eq!(find_section(&parsed, "Low Priority").unwrap(), &vec!["d".to_string()]);
}

#[test]
fn parse_repeated_header_appends() {
    let parsed = parse_isolation_output("High Priority\n a\nLow Priority\n b\nHigh Priority\n c\n");
    assert_eq!(
        find_section(&parsed, "High Priority").unwrap(),
        &vec!["a".to_string(), "c".to_string()]
    );
    assert_eq!(find_section(&parsed, "Low Priority").unwrap(), &vec!["b".to_string()]);
}

#[test]
fn posture_from_output_wraps_parse() {
    let posture = posture_from_output(&mock_isolated());
    assert_eq!(posture.data.len(), 2);
    assert_eq!(posture.data[0].name, "High Priority");
}

#[test]
fn glyphs_map_to_ascii_tags() {
    assert_eq!(replace_emojis("\u{6e38}\u{b320}"), "[HIGH]");
    assert_eq!(replace_emojis("\u{6e38}\u{b573}"), "[MEDIUM]");
    assert_eq!(replace_emojis("\u{6e38}\u{bc42}"), "[Low]");
    assert_eq!(replace_emojis("\u{6e38}\u{b32e}"), "[FAILED]");
    assert_eq!(replace_emojis("\u{6e38}\u{b9ac}"), "[LOW]");
    assert_eq!(replace_emojis("\u{6e38}\u{b9ad}"), "[PASSED]");
}

#[test]
fn glyphs_distinct_low_casings() {
    assert_ne!(
        replace_emojis("\u{6e38}\u{bc42}"),
        replace_emojis("\u{6e38}\u{b9ac}")
    );
}

#[test]
fn glyphs_pass_through_other_text() {
    assert_eq!(replace_emojis("plain text"), "plain text");
    assert_eq!(replace_emojis("x\u{6e38}\u{b320}y"), "x[HIGH]y");
    assert_eq!(replace_emojis("\u{6e38}z"), "\u{6e38}z");
    assert_eq!(replace_emojis("\u{6e38}"), "\u{6e38}");
}

#[test]
fn clean_prefixes_strips_order_markers() {
    assert_eq!(clean_prefixes(&"1_headers".to_string()), "headers");
    assert_eq!(clean_prefixes(&"42_foo".to_string()), "foo");
    assert_eq!(clean_prefixes(&"headers".to_string()), "headers");
    assert_eq!(clean_prefixes(&"_x".to_string()), "x");
    assert_eq!(clean_prefixes(&"123_".to_string()), "");
}

#[test]
fn store_caches_within_ttl() {
    let env = vec![("HOME".to_string(), "/root".to_string())];
    let store = Store::new(env, "{}".to_string(), 1000, 10);
    assert!(!store.needs_refresh(1000));
    assert!(!store.needs_refresh(1010));
    assert!(store.needs_refresh(1011));
    assert!(!store.needs_refresh(999));
}

#[test]
fn store_refresh_replaces_both_snapshots() {
    let mut store = Store::new(
        vec![("A".to_string(), "1".to_string())],
        "{\"old\":true}".to_string(),
        0,
        10,
    );
    store.refresh(
        vec![("B".to_string(), "2".to_string())],
        "{\"old\":false}".to_string(),
        100,
    );
    assert_eq!(store.get_environment(), &vec![("B".to_string(), "2".to_string())]);
    assert_eq!(store.get_system_snapshot(), "{\"old\":false}");
    assert!(!store.needs_refresh(110));
    assert!(store.needs_refresh(111));
}

#[test]
fn store_cache_hits_observe_identical_bytes() {
    let store = Store::new(
        vec![("TEST_ENV_VAR".to_string(), "test_value".to_string())],
        "{\"cpu\":1}".to_string(),
        500,
        10,
    );
    // two requests inside the ttl: neither refreshes, both read the
    // very same cached values
    assert!(!store.needs_refresh(503));
    let env_first = store.get_environment().clone();
    let sys_first = store.get_system_snapshot().clone();
    assert!(!store.needs_refresh(509));
    let env_second = store.get_environment().clone();
    let sys_second = store.get_system_snapshot().clone();
    assert_eq!(env_first, env_second);
    assert_eq!(sys_first, sys_second);
}

#[test]
fn store_single_refresh_after_expiry() {
    let mut store = Store::new(Vec::new(), "{}".to_string(), 0, 10);
    let now = 100;
    // first racer sees the expiry and refreshes under the lock
    assert!(store.needs_refresh(now));
    store.refresh(vec![("K".to_string(), "V".to_string())], "{}".to_string(), now);
    // a concurrent racer re-checks under the lock and refreshes nothing
    assert!(!store.needs_refresh(now));
    assert!(!store.needs_refresh(now + 10));
    assert_eq!(store.get_environment(), &vec![("K".to_string(), "V".to_string())]);
}

#[test]
fn render_json_exact_document() {
    let snap = snapshot_for(Vec::new(), Vec::new(), true);
    let (body, content_type) = render(&snap, true);
    assert_eq!(content_type, "application/json");
    assert_eq!(
        body,
        "{\"headers\":{},\"environment\":{},\"remote_ip\":\"0.0.0.0\",\
         \"public_ips\":{\"ipv4\":\"203.0.113.9\",\"ipv6\":\"::1\"},\
         \"am_i_isolated\":{\"No isolation posture data\":[\"\"]},\"sysinfo\":{}}"
    );
}

#[test]
fn render_html_content_type() {
    let snap = snapshot_for(Vec::new(), Vec::new(), false);
    let (body, content_type) = render(&snap, false);
    assert_eq!(content_type, "text/html; charset=utf-8");
    assert!(body.starts_with("<html><head><title>Whoami</title></head><body>"));
    assert!(body.ends_with("</body></html>"));
}

#[test]
fn environment_variable_surfaces_in_both_modes() {
    let env = vec![("TEST_ENV_VAR".to_string(), "test_value".to_string())];
    let json_snap = snapshot_for(Vec::new(), env.clone(), true);
    let json_body = render_json(&json_snap);
    assert!(json_body.contains("TEST_ENV_VAR"));
    assert!(json_body.contains("test_value"));

    let html_snap = snapshot_for(Vec::new(), env, false);
    let html_body = render_html(&html_snap);
    assert!(html_body.contains("TEST_ENV_VAR"));
    assert!(html_body.contains("test_value"));
}

#[test]
fn environment_variable_surfaces_after_store_refresh() {
    let mut store = Store::new(Vec::new(), "{}".to_string(), 0, 10);
    let now = 1000;
    assert!(store.needs_refresh(now));
    store.refresh(
        vec![("TEST_ENV_VAR".to_string(), "test_value".to_string())],
        "{}".to_string(),
        now,
    );
    let snap = snapshot_for(Vec::new(), store.get_environment().clone(), false);
    let body = render_html(&snap);
    assert!(body.contains("TEST_ENV_VAR"));
    assert!(body.contains("test_value"));
}

#[test]
fn request_header_surfaces_in_output() {
    let headers = vec![("test_header".to_string(), "test_value".to_string())];
    let json_body = render_json(&snapshot_for(headers.clone(), Vec::new(), true));
    assert!(json_body.contains("test_header"));
    assert!(json_body.contains("test_value"));

    let html_body = render_html(&snapshot_for(headers, Vec::new(), false));
    assert!(html_body.contains("test_header"));
    assert!(html_body.contains("test_value"));
}

#[test]
fn remote_ip_surfaces_in_output() {
    let html_body = render_html(&snapshot_for(Vec::new(), Vec::new(), false));
    assert!(html_body.contains("remote_ip"));
    assert!(html_body.contains("0.0.0.0"));
}

#[test]
fn html_sections_are_laid_out_as_tables() {
    let headers = vec![("test_header".to_string(), "test_value".to_string())];
    let body = render_html(&snapshot_for(headers, Vec::new(), false));
    // the section value reaches the page through the table layouter,
    // never as the raw JSON text
    assert!(!body.contains("{\"test_header\":\"test_value\"}"));
    assert!(body.contains("<h1>headers</h1>"));
    assert!(body.contains("<pre>"));
}

#[test]
fn json_values_are_escaped() {
    let env = vec![("VAR".to_string(), "a\"b\nc\\d".to_string())];
    let body = render_json(&snapshot_for(Vec::new(), env, true));
    assert!(body.contains("a\\\"b\\nc\\\\d"));
}

#[test]
fn empty_posture_renders_sentinel() {
    let body = render_json(&snapshot_for(Vec::new(), Vec::new(), true));
    assert!(body.contains("No isolation posture data"));
}

#[test]
fn parsed_posture_renders_findings_in_order() {
    let posture = posture_from_output(&mock_isolated());
    let snap = assemble(
        Vec::new(),
        Vec::new(),
        "0.0.0.0".to_string(),
        "".to_string(),
        "".to_string(),
        posture,
        "{}".to_string(),
        true,
    );
    let body = render_json(&snap);
    assert!(body.contains("\"High Priority\":[\"a\",\"b\",\"c\"]"));
    assert!(body.contains("\"Low Priority\":[\"d\",\"e\",\"f\"]"));
    assert!(!body.contains("No isolation posture data"));
}

#[test]
fn html_mode_wraps_long_values() {
    let mut long = "".to_string();
    for _ in 0..200 {
        long.push('z');
    }
    let env = vec![("LONG".to_string(), long.clone())];
    let html_snap = snapshot_for(Vec::new(), env.clone(), false);
    assert_eq!(html_snap.environment[0].1.lines().count(), 3);

    let json_snap = snapshot_for(Vec::new(), env, true);
    assert_eq!(json_snap.environment[0].1, long);
}

#[test]
fn glyphs_normalized_only_in_json_output() {
    let env = vec![("STATUS".to_string(), "\u{6e38}\u{b9ad} ok".to_string())];
    let json_body = render_json(&snapshot_for(Vec::new(), env, true));
    assert!(json_body.contains("[PASSED]"));
    assert!(!json_body.contains("\u{6e38}"));
}

#[test]
fn sections_appear_in_fixed_order() {
    let body = render_json(&snapshot_for(Vec::new(), Vec::new(), true));
    let positions: Vec<usize> = [
        "\"headers\"",
        "\"environment\"",
        "\"remote_ip\"",
        "\"public_ips\"",
        "\"am_i_isolated\"",
        "\"sysinfo\"",
    ]
    .iter()
    .map(|k| body.find(*k).unwrap())
    .collect();
    for w in positions.windows(2) {
        assert!(w[0] < w[1]);
    }
}

#[test]
fn find_section_misses_unknown_label() {
    let parsed: Vec<Section> = parse_isolation_output(&mock_isolated());
    assert!(find_section(&parsed, "Medium Priority").is_none());
}
