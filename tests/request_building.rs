use http_cli::{
    assemble, classify_status, join_data, parse_fields, parse_headers, parse_method,
    parse_options, plan_output, Body, Method, Output, ParsedOptions, RawArgs, StatusClass,
    UsageError,
};

fn strings(v: &[&str]) -> Vec<String> {
    v.iter().map(|s| s.to_string()).collect()
}

fn pairs(v: &[(&str, &str)]) -> Vec<(String, String)> {
    v.iter().map(|(a, b)| (a.to_string(), b.to_string())).collect()
}

fn raw(method: Option<&str>, headers: &[&str], form: &[&str], data: &[&str]) -> RawArgs {
    RawArgs {
        verbose: false,
        method: method.map(|m| m.to_string()),
        headers: strings(headers),
        form: strings(form),
        data: strings(data),
        uri: Some("http://example/api".to_string()),
        out_path: None,
    }
}

fn options(method: Method, form: &[(&str, &str)], data: &[&str]) -> ParsedOptions {
    ParsedOptions {
        verbose: false,
        method,
        headers: pairs(&[("accept", "*/*")]),
        form_fields: pairs(form),
        data_fragments: strings(data),
        uri: "http://example/api".to_string(),
        out_path: None,
    }
}

#[test]
fn method_names_in_any_case() {
    assert_eq!(parse_method("GET"), Some(Method::Get));
    assert_eq!(parse_method("get"), Some(Method::Get));
    assert_eq!(parse_method("pOsT"), Some(Method::Post));
    assert_eq!(parse_method("Put"), Some(Method::Put));
    assert_eq!(parse_method("patch"), Some(Method::Patch));
    assert_eq!(parse_method("HEAD"), Some(Method::Head));
    assert_eq!(parse_method("Delete"), Some(Method::Delete));
}

#[test]
fn unknown_method_names() {
    assert_eq!(parse_method("TRACE"), None);
    assert_eq!(parse_method(""), None);
    assert_eq!(parse_method("GETS"), None);
    assert_eq!(parse_method("GE"), None);
}

#[test]
fn header_name_lowered_value_trimmed() {
    let h = parse_headers(&strings(&["Content-Type:application/json  \t"])).unwrap();
    assert_eq!(h, pairs(&[("content-type", "application/json")]));
}

#[test]
fn header_value_keeps_leading_space() {
    let h = parse_headers(&strings(&["X-FOO: bar"])).unwrap();
    assert_eq!(h, pairs(&[("x-foo", " bar")]));
}

#[test]
fn header_last_value_wins() {
    let h = parse_headers(&strings(&["A:1", "B:2", "a:3"])).unwrap();
    assert_eq!(h, pairs(&[("a", "3"), ("b", "2")]));
}

#[test]
fn header_with_two_colons_rejected() {
    match parse_headers(&strings(&["X-Foo:bar", "X-Foo:bar:baz", "Y"])) {
        Err(UsageError::MalformedHeader(t)) => assert_eq!(t, "X-Foo:bar:baz"),
        other => panic!("unexpected {:?}", other),
    }
}

#[test]
fn header_without_colon_rejected() {
    match parse_headers(&strings(&["X-Foo"])) {
        Err(UsageError::MalformedHeader(t)) => assert_eq!(t, "X-Foo"),
        other => panic!("unexpected {:?}", other),
    }
}

#[test]
fn no_headers() {
    assert_eq!(parse_headers(&Vec::new()).unwrap(), Vec::new());
}

#[test]
fn form_value_leading_whitespace_trimmed() {
    let f = parse_fields(&strings(&["key= value ", "K=\u{3000}v"])).unwrap();
    assert_eq!(f, pairs(&[("key", "value "), ("K", "v")]));
}

#[test]
fn form_last_value_wins() {
    let f = parse_fields(&strings(&["a=1", "b=2", "a=3"])).unwrap();
    assert_eq!(f, pairs(&[("a", "3"), ("b", "2")]));
}

#[test]
fn form_with_two_separators_rejected() {
    match parse_fields(&strings(&["a=b=c"])) {
        Err(UsageError::MalformedForm(t)) => assert_eq!(t, "a=b=c"),
        other => panic!("unexpected {:?}", other),
    }
}

#[test]
fn form_without_separator_rejected() {
    match parse_fields(&strings(&["ok=1", "ab"])) {
        Err(UsageError::MalformedForm(t)) => assert_eq!(t, "ab"),
        other => panic!("unexpected {:?}", other),
    }
}

#[test]
fn data_fragments_joined_in_order() {
    assert_eq!(join_data(&strings(&["a=1", "b=2"])), "a=1&b=2");
    assert_eq!(join_data(&strings(&["b=2", "a=1", "c"])), "b=2&a=1&c");
}

#[test]
fn data_fragments_edge_cases() {
    assert_eq!(join_data(&Vec::new()), "");
    assert_eq!(join_data(&strings(&["x"])), "x");
    assert_eq!(join_data(&strings(&["", ""])), "&");
}

#[test]
fn form_wins_over_data_on_post() {
    let r = assemble(options(Method::Post, &[("k", "v")], &["a=1"]));
    match r.body {
        Body::Form(f) => assert_eq!(f, pairs(&[("k", "v")])),
        _ => panic!("expected a form body"),
    }
}

#[test]
fn data_body_on_put() {
    let r = assemble(options(Method::Put, &[], &["a=1", "b=2"]));
    match r.body {
        Body::Raw(s) => assert_eq!(s, "a=1&b=2"),
        _ => panic!("expected a raw body"),
    }
}

#[test]
fn patch_without_payload_has_empty_body() {
    let r = assemble(options(Method::Patch, &[], &[]));
    assert!(matches!(r.body, Body::Empty));
}

#[test]
fn bodyless_methods_ignore_form_and_data() {
    for m in [Method::Get, Method::Head, Method::Delete] {
        let r = assemble(options(m, &[("k", "v")], &["a=1"]));
        assert!(matches!(r.body, Body::Empty));
        assert_eq!(r.method, m);
        assert_eq!(r.headers, pairs(&[("accept", "*/*")]));
    }
}

#[test]
fn post_json_end_to_end() {
    let o = parse_options(raw(
        Some("POST"),
        &["Content-Type:application/json"],
        &[],
        &["{\"a\":1}"],
    ))
    .unwrap();
    let r = assemble(o);
    assert_eq!(r.method, Method::Post);
    assert_eq!(r.uri, "http://example/api");
    assert_eq!(r.headers, pairs(&[("content-type", "application/json")]));
    match r.body {
        Body::Raw(s) => assert_eq!(s, "{\"a\":1}"),
        _ => panic!("expected a raw body"),
    }
}

#[test]
fn method_defaults_to_get() {
    let o = parse_options(raw(None, &[], &[], &[])).unwrap();
    assert_eq!(o.method, Method::Get);
}

#[test]
fn invalid_method_rejected() {
    match parse_options(raw(Some("TRACE"), &["bad"], &[], &[])) {
        Err(UsageError::InvalidMethod(m)) => assert_eq!(m, "TRACE"),
        Err(e) => panic!("unexpected {:?}", e),
        Ok(_) => panic!("expected an error"),
    }
}

#[test]
fn missing_uri_rejected() {
    let mut r = raw(Some("TRACE"), &[], &[], &[]);
    r.uri = None;
    assert!(matches!(parse_options(r), Err(UsageError::MissingUri)));
}

#[test]
fn malformed_tokens_rejected_by_options() {
    match parse_options(raw(Some("post"), &["A:1", "B"], &["x"], &[])) {
        Err(UsageError::MalformedHeader(t)) => assert_eq!(t, "B"),
        Err(e) => panic!("unexpected {:?}", e),
        Ok(_) => panic!("expected an error"),
    }
    match parse_options(raw(Some("post"), &["A:1"], &["x=1", "y"], &[])) {
        Err(UsageError::MalformedForm(t)) => assert_eq!(t, "y"),
        Err(e) => panic!("unexpected {:?}", e),
        Ok(_) => panic!("expected an error"),
    }
}

#[test]
fn options_keep_other_values() {
    let mut r = raw(Some("patch"), &["A:1"], &["x=1"], &["d"]);
    r.verbose = true;
    r.out_path = Some("/tmp/out.txt".to_string());
    let o = parse_options(r).unwrap();
    assert!(o.verbose);
    assert_eq!(o.method, Method::Patch);
    assert_eq!(o.out_path, Some("/tmp/out.txt".to_string()));
    assert_eq!(o.form_fields, pairs(&[("x", "1")]));
    assert_eq!(o.data_fragments, strings(&["d"]));
}

#[test]
fn output_to_file_keeps_exact_text() {
    match plan_output(Some("/tmp/out.txt".to_string()), "body text \n".to_string()) {
        Output::Save { path, contents } => {
            assert_eq!(path, "/tmp/out.txt");
            assert_eq!(contents, "body text \n");
        }
        Output::Print(_) => panic!("expected a file"),
    }
}

#[test]
fn output_to_stdout_trims_end() {
    match plan_output(None, "  body text \n\n".to_string()) {
        Output::Print(s) => assert_eq!(s, "  body text"),
        Output::Save { .. } => panic!("expected stdout"),
    }
}

#[test]
fn status_classes() {
    let classes = [
        classify_status(200),
        classify_status(301),
        classify_status(404),
        classify_status(500),
    ];
    assert_eq!(
        classes,
        [
            StatusClass::Success,
            StatusClass::Redirect,
            StatusClass::ClientError,
            StatusClass::ServerError
        ]
    );
    assert_eq!(classify_status(100), StatusClass::Other);
    assert_eq!(classify_status(299), StatusClass::Success);
    assert_eq!(classify_status(599), StatusClass::ServerError);
    assert_eq!(classify_status(999), StatusClass::Other);
    assert_eq!(classify_status(0), StatusClass::Other);
}
