use echo_rust_agent_proxy::chat::Role;
use echo_rust_agent_proxy::json::{
    browse_report, current_datetime_report, datetime_report, encoded_arguments,
    extract_json_tool, plan_json_tool, plan_tool_call, record_json_tool_outcome, reply_of_body,
    reply_text, search_report, JsonToolError, JsonValue, ToolAction,
};

fn s(t: &str) -> JsonValue {
    JsonValue::Str(t.to_string())
}

fn obj(entries: Vec<(&str, JsonValue)>) -> JsonValue {
    JsonValue::Object(entries.into_iter().map(|(k, v)| (k.to_string(), v)).collect())
}

fn enabled(names: &[&str]) -> Vec<String> {
    names.iter().map(|n| n.to_string()).collect()
}

#[test]
fn json_between_tags_is_extracted_and_trimmed() {
    let reply = "I will search.\n<json>\n  {\"name\": \"web_search\"}\n</json>\nDone.";
    assert_eq!(extract_json_tool(reply), Some("{\"name\": \"web_search\"}".to_string()));
}

#[test]
fn json_needs_both_tags() {
    assert_eq!(extract_json_tool("<json>{\"a\":1}"), None);
    assert_eq!(extract_json_tool("{\"a\":1}</json>"), None);
    assert_eq!(extract_json_tool("no tool here"), None);
}

#[test]
fn closing_tag_before_opening_tag_is_skipped() {
    assert_eq!(extract_json_tool("</json> x <json> y </json>"), Some("y".to_string()));
    assert_eq!(extract_json_tool("<json></json>"), Some(String::new()));
}

#[test]
fn tool_calls_list_form() {
    let call = obj(vec![(
        "tool_calls",
        JsonValue::Array(vec![obj(vec![(
            "function",
            obj(vec![("name", s("web_search")), ("arguments", s("{\"query\":\"rust\"}"))]),
        )])]),
    )]);
    assert_eq!(encoded_arguments(&call), Some("{\"query\":\"rust\"}".to_string()));
    let decoded = obj(vec![("query", s("rust"))]);
    match plan_json_tool(&call, Some(&decoded), &enabled(&["web_search"])) {
        Ok(ToolAction::WebSearch { query }) => assert_eq!(query, "rust"),
        other => panic!("unexpected {:?}", other),
    }
}

#[test]
fn function_form_with_object_arguments() {
    let call = obj(vec![(
        "function",
        obj(vec![
            ("name", s("browse_page")),
            ("arguments", obj(vec![("url", s("http://a.b")), ("max_chars", JsonValue::Number(Some(100)))])),
        ]),
    )]);
    assert_eq!(encoded_arguments(&call), None);
    match plan_json_tool(&call, None, &enabled(&["browse_page"])) {
        Ok(ToolAction::BrowsePage { url, max_chars }) => {
            assert_eq!(url, "http://a.b");
            assert_eq!(max_chars, Some(100));
        }
        other => panic!("unexpected {:?}", other),
    }
}

#[test]
fn bare_form_and_defaults() {
    let call = obj(vec![("name", s("web_search"))]);
    match plan_json_tool(&call, None, &enabled(&["web_search"])) {
        Ok(ToolAction::WebSearch { query }) => assert_eq!(query, "No query provided"),
        other => panic!("unexpected {:?}", other),
    }
    let undecodable = obj(vec![("name", s("web_search")), ("arguments", s("not json"))]);
    match plan_json_tool(&undecodable, None, &enabled(&["web_search"])) {
        Ok(ToolAction::WebSearch { query }) => assert_eq!(query, "No query provided"),
        other => panic!("unexpected {:?}", other),
    }
    let clock = obj(vec![("name", s("get_current_datetime"))]);
    assert!(matches!(
        plan_json_tool(&clock, None, &enabled(&["get_current_datetime"])),
        Ok(ToolAction::CurrentDatetime)
    ));
}

#[test]
fn planning_errors() {
    let no_name = obj(vec![("tool", s("x"))]);
    let e = plan_json_tool(&no_name, None, &enabled(&["x"])).unwrap_err();
    assert_eq!(e.message(), "No tool name found in JSON");

    let off = obj(vec![("name", s("web_search"))]);
    let e = plan_json_tool(&off, None, &enabled(&[])).unwrap_err();
    assert_eq!(e.message(), "Tool 'web_search' is not enabled in config");

    let no_url = obj(vec![("name", s("browse_page")), ("arguments", obj(vec![]))]);
    let e = plan_json_tool(&no_url, None, &enabled(&["browse_page"])).unwrap_err();
    assert!(matches!(e, JsonToolError::MissingUrl));
    assert_eq!(e.message(), "Missing 'url' argument for browse_page");

    let unknown = obj(vec![("name", s("teleport"))]);
    let e = plan_json_tool(&unknown, None, &enabled(&["teleport"])).unwrap_err();
    assert_eq!(e.message(), "Unknown JSON tool: teleport");

    assert_eq!(
        JsonToolError::Parse("expected value at line 1".to_string()).message(),
        "Failed to parse JSON tool call: expected value at line 1"
    );
}

#[test]
fn reply_text_reads_choices() {
    let resp = obj(vec![(
        "choices",
        JsonValue::Array(vec![obj(vec![("message", obj(vec![("content", s("  hello \n"))]))])]),
    )]);
    assert_eq!(reply_text(&resp, ""), "hello");
    assert_eq!(reply_text(&obj(vec![]), "Summary failed."), "Summary failed.");
    assert_eq!(reply_text(&JsonValue::Null, ""), "");
}

#[test]
fn reports() {
    assert_eq!(
        search_report("rust", &Ok("1. x".to_string())),
        "Web search results for 'rust':\n\n1. x"
    );
    assert_eq!(search_report("rust", &Err("timeout".to_string())), "Web search failed: timeout");
    assert_eq!(browse_report("http://a", &Ok("text".to_string())), "Content from http://a:\n\ntext");
    assert_eq!(browse_report("http://a", &Err("404".to_string())), "Failed to browse page: 404");
    assert_eq!(datetime_report("2024-01-01 10:00:00 +00:00"), "Current datetime: 2024-01-01 10:00:00 +00:00");
    let now = current_datetime_report();
    let stamp = now.strip_prefix("Current datetime: ").expect("prefix");
    let c: Vec<char> = stamp.chars().collect();
    // year, then "-MM-DD HH:MM:SS ", then "+HH:MM" (or with seconds)
    let signed = c[0] == '+' || c[0] == '-';
    let start = if signed { 1 } else { 0 };
    let year_len = start + c[start..].iter().position(|&ch| ch == '-').unwrap();
    assert!(year_len >= 4);
    let rest: String = c[year_len..].iter().collect();
    let bytes = rest.as_bytes();
    assert!(bytes.len() == 22 || bytes.len() == 25, "{}", stamp);
    for (i, b) in bytes.iter().enumerate() {
        match i {
            0 | 3 => assert_eq!(*b, b'-'),
            6 | 15 => assert_eq!(*b, b' '),
            9 | 12 | 19 | 22 => assert_eq!(*b, b':'),
            16 => assert!(*b == b'+' || *b == b'-'),
            _ => assert!(b.is_ascii_digit(), "{}", stamp),
        }
    }
}

#[test]
fn tool_outcome_recorded() {
    let mut messages = vec![];
    let logged = record_json_tool_outcome(&mut messages, &Ok("42".to_string()));
    assert_eq!(logged, Some("Tool output:\n42".to_string()));
    assert_eq!(messages[0].role, Role::Tool);
    assert_eq!(messages[0].content, "Tool output:\n42");
    let logged = record_json_tool_outcome(&mut messages, &Err("Unknown JSON tool: x".to_string()));
    assert_eq!(logged, None);
    assert_eq!(messages[1].content, "JSON Tool error: Unknown JSON tool: x");
}

#[test]
fn tool_call_text_is_parsed_and_planned() {
    let call = r#"{"tool_calls":[{"function":{"name":"web_search","arguments":"{\"query\":\"verus\"}"}}]}"#;
    match plan_tool_call(call, &enabled(&["web_search"])) {
        Ok(ToolAction::WebSearch { query }) => assert_eq!(query, "verus"),
        other => panic!("unexpected {:?}", other),
    }
    let call = r#"{"name":"browse_page","arguments":{"url":"http://x","max_chars":12}}"#;
    match plan_tool_call(call, &enabled(&["browse_page"])) {
        Ok(ToolAction::BrowsePage { url, max_chars }) => {
            assert_eq!(url, "http://x");
            assert_eq!(max_chars, Some(12));
        }
        other => panic!("unexpected {:?}", other),
    }
    let call = r#"{"name":"web_search","arguments":"not json"}"#;
    match plan_tool_call(call, &enabled(&["web_search"])) {
        Ok(ToolAction::WebSearch { query }) => assert_eq!(query, "No query provided"),
        other => panic!("unexpected {:?}", other),
    }
}

#[test]
fn tool_call_text_that_is_not_json() {
    match plan_tool_call("{name: web_search", &enabled(&["web_search"])) {
        Err(JsonToolError::Parse(m)) => assert!(!m.is_empty()),
        other => panic!("unexpected {:?}", other),
    }
}

#[test]
fn reply_of_body_reads_the_response() {
    let body = r#"{"choices":[{"message":{"role":"assistant","content":"  Hi there  "}}]}"#;
    assert_eq!(reply_of_body(body, ""), Ok("Hi there".to_string()));
    assert_eq!(reply_of_body("{}", "Summary failed."), Ok("Summary failed.".to_string()));
    assert!(reply_of_body("<html>", "").is_err());
}
