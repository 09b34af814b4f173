//! JSON values as the library reads them, and the tool calls that the model writes
//! in JSON between `<json>` and `</json>`.
use vstd::prelude::*;

use crate::chat::{conversation, Message, Role};
use crate::text::{
    chars_of, concat, concat3, contains, find_chars, find_from, lemma_find_from, lemma_find_is,
    lemma_trimmed_range, lemma_trimmed_twice, occurs_at, same_chars, slice_range,
    string_from_chars, trim, trim_range, trimmed,
};

verus! {

/// A JSON value. Numbers keep what the tools read of them: their value when it is
/// a non-negative integer that fits in 64 bits.
#[derive(Debug)]
pub enum JsonValue {
    Null,
    Bool(bool),
    Number(Option<u64>),
    Str(String),
    Array(Vec<JsonValue>),
    Object(Vec<(String, JsonValue)>),
}

/// The JSON value that `serde_json` reads from a text, `None` when the text is not
/// JSON.
pub uninterp spec fn json_of(text: Seq<char>) -> Option<JsonValue>;

#[verifier::external_type_specification]
#[verifier::external_body]
pub struct ExSerdeJsonValue(serde_json::Value);

/// Trusted: turns a `serde_json::Value` into a `JsonValue`, variant for variant
/// (`Number` keeps `as_u64`); used only by `parse_json` to carry the parsed value out.
#[verifier::external_body]
fn json_from_serde(v: &serde_json::Value) -> JsonValue {
    match v {
        serde_json::Value::Null => JsonValue::Null,
        serde_json::Value::Bool(b) => JsonValue::Bool(*b),
        serde_json::Value::Number(n) => JsonValue::Number(n.as_u64()),
        serde_json::Value::String(t) => JsonValue::Str(t.clone()),
        serde_json::Value::Array(xs) => JsonValue::Array(xs.iter().map(json_from_serde).collect()),
        serde_json::Value::Object(m) => JsonValue::Object(
            m.iter().map(|(k, x)| (k.clone(), json_from_serde(x))).collect(),
        ),
    }
}

/// Trusted: calls `serde_json::from_str::<serde_json::Value>`. Claims it succeeds
/// exactly when `json_of(text)` is a value, and then gives that value; on failure
/// the error's message is returned, of which nothing is claimed.
#[verifier::external_body]
fn parse_json(text: &str) -> (r: Result<JsonValue, String>)
    ensures
        r is Ok <==> json_of(text@) is Some,
        r matches Ok(v) ==> json_of(text@) == Some(v),
{
    match serde_json::from_str::<serde_json::Value>(text) {
        Ok(v) => Ok(json_from_serde(&v)),
        Err(e) => Err(e.to_string()),
    }
}

/// The text between the first `<json>` and the first `</json>` after it, trimmed.
pub open spec fn json_block(s: Seq<char>) -> Option<Seq<char>> {
    match find_from(s, "<json>"@, 0) {
        Some(a) => match find_from(s, "</json>"@, a) {
            Some(e) => Some(trimmed(s.subrange(a + "<json>"@.len(), e))),
            None => None,
        },
        None => None,
    }
}

/// A `</json>` never starts inside a `<json>`.
proof fn lemma_close_after_open(s: Seq<char>, a: int, e: int)
    requires
        occurs_at(s, "<json>"@, a),
        occurs_at(s, "</json>"@, e),
        a <= e,
    ensures
        a + "<json>"@.len() <= e,
{
    reveal_strlit("<json>");
    reveal_strlit("</json>");
    if e < a + 6 {
        let o = s.subrange(a, a + 6);
        let c = s.subrange(e, e + 7);
        assert(c[0] == s[e]);
        assert(c[1] == s[e + 1]);
        if e == a {
            assert(o[1] == s[a + 1]);
        } else {
            assert(o[e - a] == s[e]);
        }
    }
}

/// Law: a reply made of some text, `<json>`, a payload and `</json>` followed by
/// anything yields the payload trimmed, provided neither the leading text nor the
/// payload holds a `<`.
pub proof fn law_json_between_tags(p: Seq<char>, x: Seq<char>, q: Seq<char>)
    requires
        forall|i: int| 0 <= i < p.len() ==> p[i] != '<',
        forall|i: int| 0 <= i < x.len() ==> x[i] != '<',
    ensures
        json_block(p + "<json>"@ + x + "</json>"@ + q) == Some(trimmed(x)),
{
    reveal_strlit("<json>");
    reveal_strlit("</json>");
    let open = "<json>"@;
    let close = "</json>"@;
    let s = p + open + x + close + q;
    let a = p.len() as int;
    let e = a + 6 + x.len();
    assert(s.subrange(a, a + 6) =~= open);
    assert forall|j: int| 0 <= j < a implies !occurs_at(s, open, j) by {
        if occurs_at(s, open, j) {
            assert(s.subrange(j, j + 6)[0] == s[j]);
        }
    }
    lemma_find_is(s, open, 0, a);
    assert(s.subrange(e, e + 7) =~= close);
    assert forall|j: int| a <= j < e implies !occurs_at(s, close, j) by {
        if occurs_at(s, close, j) {
            let c = s.subrange(j, j + 7);
            assert(c[0] == s[j]);
            assert(c[1] == s[j + 1]);
            if j == a {
                assert(s[a + 1] == open[1]);
            } else if j < a + 6 {
                assert(s[j] == open[j - a]);
            } else {
                assert(s[j] == x[j - a - 6]);
            }
        }
    }
    lemma_find_is(s, close, a, e);
    assert(s.subrange(a + 6, e) =~= x);
}

/// Law: an extracted tool call is already trimmed and holds no `</json>`.
pub proof fn law_json_payload_clean(s: Seq<char>)
    requires
        json_block(s) is Some,
    ensures
        trimmed(json_block(s)->0) == json_block(s)->0,
        !contains(json_block(s)->0, "</json>"@),
{
    reveal_strlit("<json>");
    reveal_strlit("</json>");
    let close = "</json>"@;
    let a = find_from(s, "<json>"@, 0)->0;
    let e = find_from(s, close, a)->0;
    lemma_find_from(s, "<json>"@, 0);
    lemma_find_from(s, close, a);
    lemma_close_after_open(s, a, e);
    let inner = s.subrange(a + 6, e);
    let t = json_block(s)->0;
    lemma_trimmed_twice(inner);
    let (k, m) = lemma_trimmed_range(inner);
    assert(t =~= s.subrange(a + 6 + k, a + 6 + m));
    assert forall|j: int| !occurs_at(t, close, j) by {
        if occurs_at(t, close, j) {
            let p = a + 6 + k + j;
            assert(s.subrange(p, p + close.len()) =~= t.subrange(j, j + close.len()));
            assert(occurs_at(s, close, p));
            assert(a <= p < e);
        }
    }
}

/// Extracts the JSON tool call from a model reply: the text between the first
/// `<json>` and the first `</json>` that follows it, trimmed; `None` when either
/// tag is missing.
pub fn extract_json_tool(response: &str) -> (r: Option<String>)
    ensures
        match r {
            Some(t) => json_block(response@) == Some(t@),
            None => json_block(response@) is None,
        },
{
    let s = chars_of(response);
    let open = chars_of("<json>");
    let close = chars_of("</json>");
    match find_chars(&s, &open, 0) {
        None => None,
        Some(a) => {
            proof {
                lemma_find_from(s@, open@, 0);
            }
            match find_chars(&s, &close, a) {
                None => None,
                Some(e) => {
                    proof {
                        lemma_find_from(s@, close@, a as int);
                        lemma_close_after_open(s@, a as int, e as int);
                    }
                    let (c, d) = trim_range(&s, a + open.len(), e);
                    let inner = slice_range(&s, c, d);
                    Some(string_from_chars(inner.as_slice()))
                },
            }
        },
    }
}

/// The index of the first entry at or after `i` whose key is `key`.
pub open spec fn key_index(es: Seq<(String, JsonValue)>, key: Seq<char>, i: int) -> Option<int>
    decreases es.len() - i,
{
    if i < 0 || i >= es.len() {
        None
    } else if es[i].0@ == key {
        Some(i)
    } else {
        key_index(es, key, i + 1)
    }
}

/// `v[key]`: the member `key` of an object (its first one), `None` for a missing
/// member or a value that is not an object. `None` stands for JSON `null` throughout.
pub open spec fn field(v: Option<JsonValue>, key: Seq<char>) -> Option<JsonValue> {
    match v {
        Some(JsonValue::Object(es)) => match key_index(es@, key, 0) {
            Some(i) => Some(es@[i].1),
            None => None,
        },
        _ => None,
    }
}

/// `v[i]`: the `i`-th item of an array, `None` when out of range or not an array.
pub open spec fn item(v: Option<JsonValue>, i: int) -> Option<JsonValue> {
    match v {
        Some(JsonValue::Array(xs)) => if 0 <= i < xs@.len() {
            Some(xs@[i])
        } else {
            None
        },
        _ => None,
    }
}

/// The text of a JSON string (`as_str`).
pub open spec fn text_of(v: Option<JsonValue>) -> Option<Seq<char>> {
    match v {
        Some(JsonValue::Str(s)) => Some(s@),
        _ => None,
    }
}

/// The value of a non-negative integer (`as_u64`).
pub open spec fn u64_of(v: Option<JsonValue>) -> Option<u64> {
    match v {
        Some(JsonValue::Number(n)) => n,
        _ => None,
    }
}

/// `v` is an object.
pub open spec fn is_object(v: Option<JsonValue>) -> bool {
    v matches Some(JsonValue::Object(_))
}

/// `v` is an array.
pub open spec fn is_array(v: Option<JsonValue>) -> bool {
    v matches Some(JsonValue::Array(_))
}

/// An optional reference taken as an optional value.
pub open spec fn deref_opt(v: Option<&JsonValue>) -> Option<JsonValue> {
    match v {
        Some(x) => Some(*x),
        None => None,
    }
}

/// `v[key]`.
pub fn get_field<'a>(v: Option<&'a JsonValue>, key: &str) -> (r: Option<&'a JsonValue>)
    ensures
        deref_opt(r) == field(deref_opt(v), key@),
{
    match v {
        Some(JsonValue::Object(es)) => {
            let k = chars_of(key);
            let mut i: usize = 0;
            while i < es.len()
                invariant
                    i <= es@.len(),
                    k@ == key@,
                    key_index(es@, key@, 0) == key_index(es@, key@, i as int),
                    field(deref_opt(v), key@) == (match key_index(es@, key@, 0) {
                        Some(j) => Some(es@[j].1),
                        None => None::<JsonValue>,
                    }),
                decreases es@.len() - i,
            {
                let name = chars_of(es[i].0.as_str());
                if same_chars(&name, &k) {
                    return Some(&es[i].1);
                }
                i = i + 1;
            }
            None
        },
        _ => None,
    }
}

/// `v[i]`.
pub fn get_item<'a>(v: Option<&'a JsonValue>, i: usize) -> (r: Option<&'a JsonValue>)
    ensures
        deref_opt(r) == item(deref_opt(v), i as int),
{
    match v {
        Some(JsonValue::Array(xs)) => if i < xs.len() {
            Some(&xs[i])
        } else {
            None
        },
        _ => None,
    }
}

/// `v.as_str()`.
pub fn get_text<'a>(v: Option<&'a JsonValue>) -> (r: Option<&'a str>)
    ensures
        match r {
            Some(t) => text_of(deref_opt(v)) == Some(t@),
            None => text_of(deref_opt(v)) is None,
        },
{
    match v {
        Some(JsonValue::Str(s)) => Some(s.as_str()),
        _ => None,
    }
}

/// The reply text of a chat-completion response: `choices[0].message.content` when
/// it is a string, else `fallback`; trimmed either way.
pub open spec fn reply_text_of(resp: JsonValue, fallback: Seq<char>) -> Seq<char> {
    let content = field(field(item(field(Some(resp), "choices"@), 0), "message"@), "content"@);
    match text_of(content) {
        Some(t) => trimmed(t),
        None => trimmed(fallback),
    }
}

/// The reply text of a chat-completion response (`choices[0].message.content`,
/// or `fallback` when there is none), trimmed.
pub fn reply_text(resp: &JsonValue, fallback: &str) -> (r: String)
    ensures
        r@ == reply_text_of(*resp, fallback@),
{
    let choices = get_field(Some(resp), "choices");
    let first = get_item(choices, 0);
    let message = get_field(first, "message");
    let content = get_field(message, "content");
    match get_text(content) {
        Some(t) => trim(t),
        None => trim(fallback),
    }
}

/// The object that describes a tool call: `tool_calls[0].function` when
/// `tool_calls` is an array and that member is an object; else `function` when it
/// is an object; else the whole value.
pub open spec fn call_target(p: JsonValue) -> JsonValue {
    let listed = field(item(field(Some(p), "tool_calls"@), 0), "function"@);
    let direct = field(Some(p), "function"@);
    if is_array(field(Some(p), "tool_calls"@)) && is_object(listed) {
        listed->0
    } else if is_object(direct) {
        direct->0
    } else {
        p
    }
}

/// The tool name of a call (`name` of its target, when a string).
pub open spec fn call_name(p: JsonValue) -> Option<Seq<char>> {
    text_of(field(Some(call_target(p)), "name"@))
}

/// The `arguments` of a call when they are given as a string of JSON text.
pub open spec fn call_encoded_arguments(p: JsonValue) -> Option<Seq<char>> {
    text_of(field(Some(call_target(p)), "arguments"@))
}

/// The arguments of a call: the decoding of the string form (when it is a string;
/// `decoded` is `None` when that text is not JSON), the object itself (when an
/// object), else none. `None` stands for the empty object.
pub open spec fn call_arguments(p: JsonValue, decoded: Option<JsonValue>) -> Option<JsonValue> {
    let a = field(Some(call_target(p)), "arguments"@);
    if a matches Some(JsonValue::Str(_)) {
        decoded
    } else if is_object(a) {
        a
    } else {
        None
    }
}

/// What a tool call asks for.
#[derive(Debug)]
pub enum ToolAction {
    /// Report the local date and time.
    CurrentDatetime,
    /// Search the web.
    WebSearch { query: String },
    /// Fetch a page and return its text, cut after `max_chars` bytes (8000 when absent).
    BrowsePage { url: String, max_chars: Option<usize> },
}

/// A tool action by its text.
pub enum ActionView {
    CurrentDatetime,
    WebSearch(Seq<char>),
    BrowsePage(Seq<char>, Option<usize>),
}

impl View for ToolAction {
    type V = ActionView;

    open spec fn view(&self) -> ActionView {
        match self {
            ToolAction::CurrentDatetime => ActionView::CurrentDatetime,
            ToolAction::WebSearch { query } => ActionView::WebSearch(query@),
            ToolAction::BrowsePage { url, max_chars } => ActionView::BrowsePage(url@, *max_chars),
        }
    }
}

/// Why a tool call cannot be carried out.
#[derive(Debug)]
pub enum JsonToolError {
    /// The call is not JSON; holds the parser's message.
    Parse(String),
    /// The call names no tool.
    NoToolName,
    /// The named tool is not enabled in the configuration.
    NotEnabled(String),
    /// `browse_page` was called without a `url`.
    MissingUrl,
    /// No tool has this name.
    Unknown(String),
}

/// A tool error by its text.
pub enum ToolErrorView {
    Parse(Seq<char>),
    NoToolName,
    NotEnabled(Seq<char>),
    MissingUrl,
    Unknown(Seq<char>),
}

impl View for JsonToolError {
    type V = ToolErrorView;

    open spec fn view(&self) -> ToolErrorView {
        match self {
            JsonToolError::Parse(m) => ToolErrorView::Parse(m@),
            JsonToolError::NoToolName => ToolErrorView::NoToolName,
            JsonToolError::NotEnabled(n) => ToolErrorView::NotEnabled(n@),
            JsonToolError::MissingUrl => ToolErrorView::MissingUrl,
            JsonToolError::Unknown(n) => ToolErrorView::Unknown(n@),
        }
    }
}

/// The message shown for a tool error.
pub open spec fn tool_error_text(e: ToolErrorView) -> Seq<char> {
    match e {
        ToolErrorView::Parse(m) => "Failed to parse JSON tool call: "@ + m,
        ToolErrorView::NoToolName => "No tool name found in JSON"@,
        ToolErrorView::NotEnabled(n) => "Tool '"@ + n + "' is not enabled in config"@,
        ToolErrorView::MissingUrl => "Missing 'url' argument for browse_page"@,
        ToolErrorView::Unknown(n) => "Unknown JSON tool: "@ + n,
    }
}

impl JsonToolError {
    /// The message shown for this error.
    pub fn message(&self) -> (r: String)
        ensures
            r@ == tool_error_text(self@),
    {
        match self {
            JsonToolError::Parse(m) => concat("Failed to parse JSON tool call: ", m.as_str()),
            JsonToolError::NoToolName => String::from_str("No tool name found in JSON"),
            JsonToolError::NotEnabled(n) => concat3(
                "Tool '",
                n.as_str(),
                "' is not enabled in config",
            ),
            JsonToolError::MissingUrl => String::from_str("Missing 'url' argument for browse_page"),
            JsonToolError::Unknown(n) => concat("Unknown JSON tool: ", n.as_str()),
        }
    }
}

/// What a tool call amounts to: the action it asks for, or why it cannot run.
pub open spec fn planned_tool(p: JsonValue, decoded: Option<JsonValue>, enabled: Seq<Seq<char>>) -> Result<
    ActionView,
    ToolErrorView,
> {
    match call_name(p) {
        None => Err(ToolErrorView::NoToolName),
        Some(n) => if !enabled.contains(n) {
            Err(ToolErrorView::NotEnabled(n))
        } else {
            let args = call_arguments(p, decoded);
            if n == "get_current_datetime"@ {
                Ok(ActionView::CurrentDatetime)
            } else if n == "web_search"@ {
                Ok(
                    ActionView::WebSearch(
                        match text_of(field(args, "query"@)) {
                            Some(q) => q,
                            None => "No query provided"@,
                        },
                    ),
                )
            } else if n == "browse_page"@ {
                match text_of(field(args, "url"@)) {
                    None => Err(ToolErrorView::MissingUrl),
                    Some(u) => Ok(
                        ActionView::BrowsePage(
                            u,
                            match u64_of(field(args, "max_chars"@)) {
                                Some(m) => Some(m as usize),
                                None => None,
                            },
                        ),
                    ),
                }
            } else {
                Err(ToolErrorView::Unknown(n))
            }
        },
    }
}

/// A planning outcome by its text.
pub open spec fn plan_view(r: Result<ToolAction, JsonToolError>) -> Result<ActionView, ToolErrorView> {
    match r {
        Ok(a) => Ok(a@),
        Err(e) => Err(e@),
    }
}

/// The target of a call (see `call_target`).
fn target_of(p: &JsonValue) -> (r: &JsonValue)
    ensures
        *r == call_target(*p),
{
    let calls = get_field(Some(p), "tool_calls");
    let listed = get_field(get_item(calls, 0), "function");
    let direct = get_field(Some(p), "function");
    match (calls, listed) {
        (Some(JsonValue::Array(_)), Some(f)) => match f {
            JsonValue::Object(_) => {
                return f;
            },
            _ => {},
        },
        _ => {},
    }
    match direct {
        Some(f) => match f {
            JsonValue::Object(_) => f,
            _ => p,
        },
        None => p,
    }
}

/// The `arguments` of a tool call when they are a string of JSON text, which the
/// caller is to decode and hand to `plan_json_tool`.
pub fn encoded_arguments(parsed: &JsonValue) -> (r: Option<String>)
    ensures
        match r {
            Some(t) => call_encoded_arguments(*parsed) == Some(t@),
            None => call_encoded_arguments(*parsed) is None,
        },
{
    let target = target_of(parsed);
    match get_text(get_field(Some(target), "arguments")) {
        Some(t) => Some(String::from_str(t)),
        None => None,
    }
}

/// Whether `name` is among `names`.
fn listed(names: &Vec<String>, name: &str) -> (r: bool)
    ensures
        r == names.deep_view().contains(name@),
{
    let n = chars_of(name);
    let mut i: usize = 0;
    while i < names.len()
        invariant
            i <= names@.len(),
            n@ == name@,
            forall|k: int| 0 <= k < i ==> names.deep_view()[k] != name@,
        decreases names@.len() - i,
    {
        let c = chars_of(names[i].as_str());
        if same_chars(&c, &n) {
            assert(names.deep_view()[i as int] == name@);
            return true;
        }
        i = i + 1;
    }
    false
}

/// Decides what a parsed tool call asks for. The call is read from
/// `tool_calls[0].function`, `function`, or the value itself; its `name` must be a
/// string and an enabled tool. Arguments given as a string are taken from
/// `decoded` (its decoding, `None` when it is not JSON). Known tools:
/// `get_current_datetime`; `web_search` (`query`, default "No query provided");
/// `browse_page` (`url` required, optional `max_chars`).
pub fn plan_json_tool(
    parsed: &JsonValue,
    decoded: Option<&JsonValue>,
    enabled_tools: &Vec<String>,
) -> (r: Result<ToolAction, JsonToolError>)
    ensures
        plan_view(r) == planned_tool(*parsed, deref_opt(decoded), enabled_tools.deep_view()),
{
    let target = target_of(parsed);
    let name = match get_text(get_field(Some(target), "name")) {
        Some(n) => n,
        None => {
            return Err(JsonToolError::NoToolName);
        },
    };
    if !listed(enabled_tools, name) {
        return Err(JsonToolError::NotEnabled(String::from_str(name)));
    }
    let raw = get_field(Some(target), "arguments");
    let args: Option<&JsonValue> = match raw {
        Some(JsonValue::Str(_)) => decoded,
        Some(JsonValue::Object(_)) => raw,
        _ => None,
    };
    let n = chars_of(name);
    let datetime = chars_of("get_current_datetime");
    let search = chars_of("web_search");
    let browse = chars_of("browse_page");
    if same_chars(&n, &datetime) {
        Ok(ToolAction::CurrentDatetime)
    } else if same_chars(&n, &search) {
        let query = match get_text(get_field(args, "query")) {
            Some(q) => String::from_str(q),
            None => String::from_str("No query provided"),
        };
        Ok(ToolAction::WebSearch { query })
    } else if same_chars(&n, &browse) {
        match get_text(get_field(args, "url")) {
            None => Err(JsonToolError::MissingUrl),
            Some(u) => {
                let max_chars = match get_field(args, "max_chars") {
                    Some(JsonValue::Number(Some(m))) => Some(*m as usize),
                    _ => None,
                };
                Ok(ToolAction::BrowsePage { url: String::from_str(u), max_chars })
            },
        }
    } else {
        Err(JsonToolError::Unknown(String::from_str(name)))
    }
}

/// Law: a call of an enabled `web_search` searches for the string member `query` of
/// its arguments, whether the arguments are given as a JSON object or as a string of
/// JSON text (then read from its decoding `decoded`).
pub proof fn law_search_query_from_arguments(
    p: JsonValue,
    decoded: Option<JsonValue>,
    enabled: Seq<Seq<char>>,
    q: Seq<char>,
)
    requires
        text_of(field(Some(call_target(p)), "name"@)) == Some("web_search"@),
        enabled.contains("web_search"@),
        ({
            let a = field(Some(call_target(p)), "arguments"@);
            ||| (a matches Some(JsonValue::Object(_)) && text_of(field(a, "query"@)) == Some(q))
            ||| (a matches Some(JsonValue::Str(_)) && text_of(field(decoded, "query"@)) == Some(q))
        }),
    ensures
        planned_tool(p, decoded, enabled) == Ok::<ActionView, ToolErrorView>(
            ActionView::WebSearch(q),
        ),
{
    reveal_strlit("web_search");
    reveal_strlit("get_current_datetime");
    assert("web_search"@.len() != "get_current_datetime"@.len());
}

/// Law: a call of an enabled `browse_page` whose arguments, given as a JSON object or
/// as a string of JSON text (then read from `decoded`), hold the string member `url`
/// browses that address, with the limit of the member `max_chars` when it is a
/// non-negative integer; without a string `url` it is refused as missing one.
pub proof fn law_browse_url_from_arguments(
    p: JsonValue,
    decoded: Option<JsonValue>,
    enabled: Seq<Seq<char>>,
)
    requires
        text_of(field(Some(call_target(p)), "name"@)) == Some("browse_page"@),
        enabled.contains("browse_page"@),
    ensures
        ({
            let a = field(Some(call_target(p)), "arguments"@);
            let args = if a matches Some(JsonValue::Str(_)) {
                decoded
            } else {
                a
            };
            (a matches Some(JsonValue::Object(_)) || a matches Some(JsonValue::Str(_))) ==> match text_of(
                field(args, "url"@),
            ) {
                Some(u) => planned_tool(p, decoded, enabled) matches Ok(ActionView::BrowsePage(x, m)) && x
                    == u && (u64_of(field(args, "max_chars"@)) matches Some(k) ==> m == Some(
                    k as usize,
                )),
                None => planned_tool(p, decoded, enabled) == Err::<ActionView, ToolErrorView>(
                    ToolErrorView::MissingUrl,
                ),
            }
        }),
{
    reveal_strlit("web_search");
    reveal_strlit("browse_page");
    reveal_strlit("get_current_datetime");
    assert("browse_page"@.len() != "get_current_datetime"@.len());
    assert("browse_page"@[0] != "web_search"@[0]);
}

/// The decoding of a call's string arguments, `None` when they are not a string
/// or not JSON.
pub open spec fn decoded_of(p: JsonValue) -> Option<JsonValue> {
    match call_encoded_arguments(p) {
        Some(t) => json_of(t),
        None => None,
    }
}

/// Decides what the tool call written as JSON text asks for: a text that is not
/// JSON is a parse error; otherwise the call is planned as `plan_json_tool` does,
/// with string arguments decoded as JSON.
pub fn plan_tool_call(tool_call: &str, enabled_tools: &Vec<String>) -> (r: Result<
    ToolAction,
    JsonToolError,
>)
    ensures
        json_of(tool_call@) is None ==> r matches Err(JsonToolError::Parse(_)),
        json_of(tool_call@) matches Some(p) ==> plan_view(r) == planned_tool(
            p,
            decoded_of(p),
            enabled_tools.deep_view(),
        ),
{
    match parse_json(tool_call) {
        Err(e) => Err(JsonToolError::Parse(e)),
        Ok(p) => {
            let decoded = match encoded_arguments(&p) {
                Some(t) => match parse_json(t.as_str()) {
                    Ok(v) => Some(v),
                    Err(_) => None,
                },
                None => None,
            };
            plan_json_tool(&p, decoded.as_ref(), enabled_tools)
        },
    }
}

/// The reply text of a chat-completion response body: an error when the body is
/// not JSON, otherwise the reply read as `reply_text` does with `fallback`.
pub fn reply_of_body(body: &str, fallback: &str) -> (r: Result<String, String>)
    ensures
        (json_of(body@) is None) == (r is Err),
        json_of(body@) matches Some(v) ==> (r matches Ok(t) && t@ == reply_text_of(
            v,
            fallback@,
        )),
{
    match parse_json(body) {
        Err(e) => Err(e),
        Ok(v) => Ok(reply_text(&v, fallback)),
    }
}

/// A decimal digit.
pub open spec fn is_digit(c: char) -> bool {
    '0' <= c && c <= '9'
}

/// Every character is a decimal digit.
pub open spec fn all_digits(s: Seq<char>) -> bool {
    forall|i: int| 0 <= i < s.len() ==> is_digit(#[trigger] s[i])
}

/// A year as chrono's `%Y` writes it: four digits, or a sign and at least four digits.
pub open spec fn year_shape(y: Seq<char>) -> bool {
    ||| (y.len() == 4 && all_digits(y))
    ||| (y.len() >= 5 && (y[0] == '+' || y[0] == '-') && all_digits(y.drop_first()))
}

/// `-MM-DD HH:MM:SS ` with a digit at each letter.
pub open spec fn date_time_shape(t: Seq<char>) -> bool {
    &&& t.len() == 16
    &&& t[0] == '-' && is_digit(t[1]) && is_digit(t[2])
    &&& t[3] == '-' && is_digit(t[4]) && is_digit(t[5])
    &&& t[6] == ' ' && is_digit(t[7]) && is_digit(t[8])
    &&& t[9] == ':' && is_digit(t[10]) && is_digit(t[11])
    &&& t[12] == ':' && is_digit(t[13]) && is_digit(t[14])
    &&& t[15] == ' '
}

/// A UTC offset as chrono writes a fixed offset: `+HH:MM` or `-HH:MM`, followed by
/// `:SS` when the offset has seconds.
pub open spec fn offset_shape(o: Seq<char>) -> bool {
    &&& (o.len() == 6 || o.len() == 9)
    &&& (o[0] == '+' || o[0] == '-')
    &&& is_digit(o[1]) && is_digit(o[2]) && o[3] == ':' && is_digit(o[4]) && is_digit(o[5])
    &&& o.len() == 9 ==> (o[6] == ':' && is_digit(o[7]) && is_digit(o[8]))
}

/// The text that the pattern `%Y-%m-%d %H:%M:%S %Z` gives: year, `-MM-DD HH:MM:SS `,
/// and the offset from UTC.
pub open spec fn timestamp_shape(s: Seq<char>) -> bool {
    exists|k: int|
        4 <= k && k + 16 <= s.len() && year_shape(#[trigger] s.subrange(0, k)) && date_time_shape(
            s.subrange(k, k + 16),
        ) && offset_shape(s.subrange(k + 16, s.len() as int))
}

/// Trusted: reads the local clock with `chrono::Local::now()` and renders the time
/// with `DateTime::format(pattern)`. Claims only the shape of the text (chrono's
/// `%Y`, zero-padded `%m %d %H %M %S`, and `%Z`, which writes the fixed offset);
/// the values depend on the time and the machine's time zone. The pattern is the one
/// the tool uses, which chrono renders without error.
#[verifier::external_body]
fn local_timestamp(pattern: &str) -> (r: String)
    requires
        pattern@ == "%Y-%m-%d %H:%M:%S %Z"@,
    ensures
        timestamp_shape(r@),
{
    chrono::Local::now().format(pattern).to_string()
}

/// The report of the date-and-time tool for a rendered timestamp.
pub fn datetime_report(stamp: &str) -> (r: String)
    ensures
        r@ == "Current datetime: "@ + stamp@,
{
    concat("Current datetime: ", stamp)
}

/// Runs the date-and-time tool: `Current datetime: ` followed by the local time,
/// written as year, `-MM-DD HH:MM:SS ` and the offset from UTC.
pub fn current_datetime_report() -> (r: String)
    ensures
        exists|stamp: Seq<char>| timestamp_shape(stamp) && r@ == "Current datetime: "@ + stamp,
{
    let stamp = local_timestamp("%Y-%m-%d %H:%M:%S %Z");
    let r = datetime_report(stamp.as_str());
    assert(timestamp_shape(stamp@) && r@ == "Current datetime: "@ + stamp@);
    r
}

/// The report of a web search for `query`: the results under a heading, or the
/// failure message.
pub fn search_report(query: &str, outcome: &Result<String, String>) -> (r: String)
    ensures
        match outcome {
            Ok(found) => r@ == "Web search results for '"@ + query@ + "':\n\n"@ + found@,
            Err(e) => r@ == "Web search failed: "@ + e@,
        },
{
    match outcome {
        Ok(found) => {
            let mut r = concat3("Web search results for '", query, "':\n\n");
            r.append(found.as_str());
            r
        },
        Err(e) => concat("Web search failed: ", e.as_str()),
    }
}

/// The report of fetching `url`: the page text under a heading, or the failure message.
pub fn browse_report(url: &str, outcome: &Result<String, String>) -> (r: String)
    ensures
        match outcome {
            Ok(text) => r@ == "Content from "@ + url@ + ":\n\n"@ + text@,
            Err(e) => r@ == "Failed to browse page: "@ + e@,
        },
{
    match outcome {
        Ok(text) => {
            let mut r = concat3("Content from ", url, ":\n\n");
            r.append(text.as_str());
            r
        },
        Err(e) => concat("Failed to browse page: ", e.as_str()),
    }
}

/// Records the outcome of a JSON tool call in the conversation as a tool message:
/// `Tool output:\n<result>` on success (that text is also returned, for the chat
/// log), `JSON Tool error: <message>` on failure (nothing returned).
pub fn record_json_tool_outcome(messages: &mut Vec<Message>, outcome: &Result<String, String>) -> (r:
    Option<String>)
    ensures
        match outcome {
            Ok(result) => r matches Some(t) && t@ == "Tool output:\n"@ + result@ && conversation(
                final(messages)@,
            ) == conversation(old(messages)@).push((Role::Tool, t@)),
            Err(e) => r is None && conversation(final(messages)@) == conversation(
                old(messages)@,
            ).push((Role::Tool, "JSON Tool error: "@ + e@)),
        },
{
    let ghost before = messages@;
    match outcome {
        Ok(result) => {
            let text = concat("Tool output:\n", result.as_str());
            let logged = String::from_str(text.as_str());
            messages.push(Message::new(Role::Tool, text));
            assert(conversation(messages@) =~= conversation(before).push((Role::Tool, logged@)));
            Some(logged)
        },
        Err(e) => {
            let text = concat("JSON Tool error: ", e.as_str());
            let ghost content = text@;
            messages.push(Message::new(Role::Tool, text));
            assert(conversation(messages@) =~= conversation(before).push((Role::Tool, content)));
            None
        },
    }
}

} // verus!
