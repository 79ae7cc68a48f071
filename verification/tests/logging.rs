use soroscope_core::logging::{
    choose_filter, layer_plan, logfmt_event, logfmt_line, parse_trace_parent, request_record,
    resolve_env_filter, LayerStyle, LogFormat, SpanContext,
};
use soroscope_core::{build_env_filter, AppState};
use std::sync::Arc;

#[test]
fn test_log_format_from_str() {
    assert_eq!("json".parse::<LogFormat>().unwrap(), LogFormat::Json);
    assert_eq!("JSON".parse::<LogFormat>().unwrap(), LogFormat::Json);
    assert_eq!("logfmt".parse::<LogFormat>().unwrap(), LogFormat::Logfmt);
    assert_eq!("pretty".parse::<LogFormat>().unwrap(), LogFormat::Pretty);
    assert_eq!("compact".parse::<LogFormat>().unwrap(), LogFormat::Compact);
    assert_eq!("other".parse::<LogFormat>().unwrap(), LogFormat::Compact);
}

#[test]
fn test_build_env_filter() {
    assert_eq!(build_env_filter("").to_string(), "info");
    assert_eq!(build_env_filter("   ").to_string(), "info");
    assert_eq!(build_env_filter("debug").to_string(), "debug");
    assert_eq!(build_env_filter("soroscope_core=warn").to_string(), "soroscope_core=warn");
}

#[test]
fn test_log_format_display() {
    assert_eq!(LogFormat::Json.to_string(), "json");
    assert_eq!(LogFormat::Logfmt.to_string(), "logfmt");
    assert_eq!(LogFormat::Compact.to_string(), "compact");
    assert_eq!(LogFormat::Pretty.to_string(), "pretty");
}

#[test]
fn format_names_read_back() {
    for format in [LogFormat::Json, LogFormat::Logfmt, LogFormat::Compact, LogFormat::Pretty] {
        assert_eq!(LogFormat::parse(&format.to_string()), format);
    }
    assert_eq!(LogFormat::default(), LogFormat::Json);
}

#[test]
fn format_names_ignore_case_and_white_space() {
    assert_eq!(LogFormat::parse("\t Pretty\n"), LogFormat::Pretty);
    assert_eq!(LogFormat::parse("\u{3000}LogFmt\u{a0}"), LogFormat::Logfmt);
    assert_eq!(LogFormat::parse("js on"), LogFormat::Compact);
    assert_eq!(LogFormat::parse(""), LogFormat::Compact);
    // The Kelvin sign lowers to a plain k, which no format name holds.
    assert_eq!(LogFormat::parse("\u{212a}json"), LogFormat::Compact);
}

#[test]
fn unparsable_directive_falls_back_with_a_warning() {
    let choice = resolve_env_filter("  soroscope_core=notalevel  ");
    assert_eq!(choice.filter.to_string(), "info");
    let warning = choice.warning.expect("a warning");
    assert!(warning.starts_with("Invalid RUST_LOG directive 'soroscope_core=notalevel': "));
    assert!(warning.ends_with(". Falling back to 'info'."));

    let accepted = resolve_env_filter(" tower_http=warn ");
    assert_eq!(accepted.filter.to_string(), "tower_http=warn");
    assert!(accepted.warning.is_none());
}

#[test]
fn directives_outside_ascii_fall_back_instead_of_stopping() {
    for directive in ["info,\u{a0}x=debug", "info, \u{e9}=debug", "x=info,\u{3000}y[z]"] {
        let choice = resolve_env_filter(directive);
        assert_eq!(choice.filter.to_string(), "info");
        assert_eq!(
            choice.warning,
            Some(format!(
                "Invalid RUST_LOG directive '{directive}': white space in front of a directive. \
                 Falling back to 'info'."
            ))
        );
    }
    assert!(resolve_env_filter("info,\u{e9}=debug").warning.is_none());
    assert!(resolve_env_filter("\u{a0}\u{e9}=debug").warning.is_none());
    for directive in ["\u{e9}=info, debug", "x=info,\u{3000}y", "info, \u{e9}"] {
        assert!(resolve_env_filter(directive).warning.is_none(), "{directive}");
    }
    assert_eq!(build_env_filter("info, \u{e9}=debug").to_string(), "info");
}

#[test]
fn logfmt_lines_are_key_value_pairs() {
    let pair = |k: &str, v: &str| (k.to_string(), v.to_string());
    assert_eq!(logfmt_line(&[]), "");
    assert_eq!(logfmt_line(&[pair("a", "1"), pair("b", "x y")]), "a=1 b=\"x y\"");
    assert_eq!(
        logfmt_line(&[pair("q", "say \"hi\"\\\n\r\t"), pair("e", ""), pair("k", "a=b")]),
        "q=\"say \\\"hi\\\"\\\\\\n\\r\\t\" e=\"\" k=\"a=b\""
    );
    let line = logfmt_event(
        "2026-01-01T00:00:00Z",
        "INFO",
        Some("soroscope_core"),
        &[],
        &[pair("message", "HTTP request handled"), pair("status", "200")],
    );
    assert_eq!(
        line,
        "ts=2026-01-01T00:00:00Z level=INFO target=soroscope_core \
         message=\"HTTP request handled\" status=200"
    );
    assert_eq!(logfmt_event("t", "WARN", None, &[], &[]), "ts=t level=WARN");
}

#[test]
fn logfmt_lines_carry_the_spans() {
    let pair = |k: &str, v: &str| (k.to_string(), v.to_string());
    let spans = [
        SpanContext { name: "request".to_string(), fields: vec![pair("id", "7")] },
        SpanContext { name: "run step".to_string(), fields: Vec::new() },
    ];
    assert_eq!(
        logfmt_event("t", "INFO", Some("core"), &spans, &[pair("message", "done")]),
        "ts=t level=INFO target=core span=request id=7 span=\"run step\" message=done"
    );
    assert_eq!(logfmt_event("t", "INFO", None, &spans[1..], &[]), "ts=t level=INFO span=\"run step\"");
}

#[test]
fn logfmt_events_stay_on_one_line() {
    let line = logfmt_event("t\n", "INFO", None, &[], &[("m".to_string(), "a\nb\r".to_string())]);
    assert_eq!(line, "ts=\"t\\n\" level=INFO m=\"a\\nb\\r\"");
}

#[test]
fn filter_choice_names_the_error() {
    let choice = choose_filter("x", Err("bad".to_string()));
    assert_eq!(
        choice.warning.as_deref(),
        Some("Invalid RUST_LOG directive 'x': bad. Falling back to 'info'.")
    );
    assert_eq!(choice.filter.to_string(), "info");
}

#[test]
fn layer_plan_follows_the_format() {
    let json = layer_plan(LogFormat::Json);
    assert_eq!(json.style, LayerStyle::Json);
    assert!(json.current_span && json.span_list && json.target);
    assert_eq!(layer_plan(LogFormat::Logfmt).style, LayerStyle::Logfmt);
    assert_eq!(layer_plan(LogFormat::Compact).style, LayerStyle::Compact);
    let pretty = layer_plan(LogFormat::Pretty);
    assert_eq!(pretty.style, LayerStyle::Pretty);
    assert!(!pretty.current_span && pretty.span_list && pretty.target);
}

#[test]
fn request_record_keeps_the_low_bits_of_the_duration() {
    let record = request_record("GET", "/health?deep=1", 204, 1_500, None);
    assert_eq!(record.method, "GET");
    assert_eq!(record.uri, "/health?deep=1");
    assert_eq!(record.status, 204);
    assert_eq!(record.duration_us, 1_500);
    assert!(record.trace.is_none());
    assert_eq!(request_record("GET", "/", 200, (1u128 << 64) + 7, None).duration_us, 7);
}

#[test]
fn request_record_names_the_trace() {
    let header = "00-4bf92f3577b34da6a3ce929d0e0e4736-00f067aa0ba902b7-01";
    let trace = request_record("GET", "/", 200, 1, Some(header)).trace.expect("a trace");
    assert_eq!(trace.trace_id, "4bf92f3577b34da6a3ce929d0e0e4736");
    assert_eq!(trace.span_id, "00f067aa0ba902b7");
    for header in [
        "",
        "01-4bf92f3577b34da6a3ce929d0e0e4736-00f067aa0ba902b7-01",
        "00-4BF92F3577b34da6a3ce929d0e0e4736-00f067aa0ba902b7-01",
        "00-00000000000000000000000000000000-00f067aa0ba902b7-01",
        "00-4bf92f3577b34da6a3ce929d0e0e4736-0000000000000000-01",
        "00-4bf92f3577b34da6a3ce929d0e0e4736-00f067aa0ba902b7-0g",
        "00-4bf92f3577b34da6a3ce929d0e0e4736-00f067aa0ba902b7-011",
        "00-4bf92f3577b34da6a3ce929d0e0e4736_00f067aa0ba902b7-01",
    ] {
        assert!(parse_trace_parent(header).is_none(), "{header}");
        assert!(request_record("GET", "/", 200, 1, Some(header)).trace.is_none());
    }
}

#[test]
fn letter_case_never_changes_the_format() {
    for (a, b) in [("\u{a0}JSON", "\u{a0}json"), ("j\u{e9}Son", "J\u{e9}sON"), ("K\u{212a}", "k\u{212a}")] {
        assert_eq!(LogFormat::parse(a), LogFormat::parse(b));
    }
}

#[test]
fn unknown_names_are_compact() {
    for name in ["yaml", "json2", "compact", "CompacT", "\u{e9}"] {
        assert_eq!(LogFormat::parse(name), LogFormat::Compact);
    }
}

#[test]
fn cloned_state_shares_queue_and_bus() {
    let state = AppState { job_queue: Arc::new(1u8), simulation_bus: Arc::new("bus".to_string()) };
    let other = state.clone();
    assert!(Arc::ptr_eq(&state.job_queue, &other.job_queue));
    assert!(Arc::ptr_eq(&state.simulation_bus, &other.simulation_bus));
}
