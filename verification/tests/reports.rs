use arc_devtools::console::{
    console, console_entry, console_json, level_rank, min_rank, normalize_level,
    render_remote_object, stack_location, ConsoleEntry, ConsoleParams,
};
use arc_devtools::evaluate::evaluate;
use arc_devtools::install::tilde_rest;
use arc_devtools::json::{pretty_json, Json, JsonNumber};
use arc_devtools::network::{
    network, network_json, network_table, status_label, Capture, NetworkParams, Request, Stamp,
};
use arc_devtools::performance::{performance_json, performance_text, snapshot_source, PerfFigures};
use arc_devtools::window::{next_read_timeout, READ_SLICE_NANOS};
use arc_devtools::snapshot::take_snapshot;

fn s(x: &str) -> Json {
    Json::Str(x.to_string())
}

fn obj(members: Vec<(&str, Json)>) -> Json {
    Json::Object(members.into_iter().map(|(k, v)| (k.to_string(), v)).collect())
}

fn integer(i: i64) -> Json {
    Json::Number(JsonNumber { as_i64: Some(i), as_u64: u64::try_from(i).ok(), text: i.to_string() })
}

fn float(text: &str) -> Json {
    Json::Number(JsonNumber { as_i64: None, as_u64: None, text: text.to_string() })
}

/// The compact text of a value, as the console shows a remote object's value.
fn compact(j: &Json) -> String {
    render_remote_object(&obj(vec![("value", json_clone(j))]))
}

fn json_clone(j: &Json) -> Json {
    match j {
        Json::Null => Json::Null,
        Json::Bool(b) => Json::Bool(*b),
        Json::Number(n) => Json::Number(JsonNumber { as_i64: n.as_i64, as_u64: n.as_u64, text: n.text.clone() }),
        Json::Str(t) => Json::Str(t.clone()),
        Json::Array(v) => Json::Array(v.iter().map(json_clone).collect()),
        Json::Object(m) => Json::Object(m.iter().map(|(k, x)| (k.clone(), json_clone(x))).collect()),
    }
}

/// The pretty-printed text of a JSON document given as text.
fn pretty_of(text: &str) -> String {
    serde_json::to_string_pretty(&serde_json::from_str::<serde_json::Value>(text).unwrap()).unwrap()
}

#[test]
fn levels_are_normalized_and_ranked() {
    assert_eq!(normalize_level("warn"), "warning");
    assert_eq!(normalize_level("warning"), "warning");
    assert_eq!(normalize_level("assert"), "error");
    assert_eq!(normalize_level("verbose"), "debug");
    assert_eq!(normalize_level("info"), "info");
    assert_eq!(normalize_level("table"), "log");
    assert_eq!(level_rank("error"), 3);
    assert_eq!(level_rank("warning"), 2);
    assert_eq!(level_rank("log"), 1);
    assert_eq!(min_rank("error"), 3);
    assert_eq!(min_rank("warn"), 2);
    assert_eq!(min_rank("warning"), 2);
    assert_eq!(min_rank("all"), 1);
}

#[test]
fn compact_json_escapes_like_serde_json() {
    let v = obj(vec![
        ("a", Json::Array(vec![integer(1), float("2.5"), Json::Null, Json::Bool(true)])),
        ("b", s("q\"\\\n\t\u{1}\u{7f}é/")),
    ]);
    assert_eq!(compact(&v), "{\"a\":[1,2.5,null,true],\"b\":\"q\\\"\\\\\\n\\t\\u0001\u{7f}é/\"}");
    assert_eq!(compact(&Json::Array(vec![])), "[]");
    assert_eq!(compact(&obj(vec![])), "{}");
    assert_eq!(compact(&obj(vec![("z", Json::Null), ("m", integer(-7))])), "{\"m\":-7,\"z\":null}");
}

#[test]
fn pretty_json_indents_by_two_spaces() {
    let v = obj(vec![("b", Json::Array(vec![integer(1), s("x")])), ("a", obj(vec![]))]);
    assert_eq!(pretty_json(&v), "{\n  \"a\": {},\n  \"b\": [\n    1,\n    \"x\"\n  ]\n}");
    assert_eq!(pretty_json(&float("0.1")), "0.1");
    assert_eq!(pretty_json(&s("t")), "\"t\"");
    assert_eq!(pretty_json(&Json::Null), "null");
}

#[test]
fn remote_objects_render_as_console_shows_them() {
    assert_eq!(render_remote_object(&obj(vec![("type", s("string")), ("value", s("hi"))])), "hi");
    assert_eq!(render_remote_object(&obj(vec![("type", s("number")), ("value", integer(42))])), "42");
    assert_eq!(render_remote_object(&obj(vec![("value", obj(vec![("k", Json::Bool(false))]))])), "{\"k\":false}");
    assert_eq!(render_remote_object(&obj(vec![("type", s("object")), ("description", s("Array(2)"))])), "Array(2)");
    assert_eq!(render_remote_object(&obj(vec![("type", s("number")), ("unserializableValue", s("NaN"))])), "NaN");
    assert_eq!(render_remote_object(&obj(vec![("type", s("function")), ("description", integer(3)), ("unserializableValue", s("x"))])), "function");
    assert_eq!(render_remote_object(&obj(vec![])), "?");
    assert_eq!(render_remote_object(&s("plain")), "?");
}

#[test]
fn stack_location_uses_first_frame() {
    let st = obj(vec![("callFrames", Json::Array(vec![obj(vec![("url", s("https://a/x.js")), ("lineNumber", integer(9))]), obj(vec![("url", s("https://b"))])]))]);
    assert_eq!(stack_location(Some(&st)), Some("https://a/x.js:10".to_string()));
    let no_line = obj(vec![("callFrames", Json::Array(vec![obj(vec![("url", s("u"))])]))]);
    assert_eq!(stack_location(Some(&no_line)), Some("u:1".to_string()));
    let empty_url = obj(vec![("callFrames", Json::Array(vec![obj(vec![("url", s(""))])]))]);
    assert_eq!(stack_location(Some(&empty_url)), None);
    assert_eq!(stack_location(Some(&obj(vec![("callFrames", Json::Array(vec![]))]))), None);
    assert_eq!(stack_location(None), None);
    let negative = obj(vec![("callFrames", Json::Array(vec![obj(vec![("url", s("u")), ("lineNumber", integer(-5))])]))]);
    assert_eq!(stack_location(Some(&negative)), Some("u:-4".to_string()));
    let biggest = obj(vec![("callFrames", Json::Array(vec![obj(vec![("url", s("u")), ("lineNumber", integer(i64::MAX))])]))]);
    assert_eq!(stack_location(Some(&biggest)), Some("u:9223372036854775808".to_string()));
}

fn entry(e: &Option<ConsoleEntry>) -> (String, String, Option<String>) {
    let e = e.as_ref().expect("an entry");
    (e.level.clone(), e.text.clone(), e.location.clone())
}

#[test]
fn console_events_become_entries() {
    let call = obj(vec![
        ("method", s("Runtime.consoleAPICalled")),
        ("params", obj(vec![("type", s("warning")), ("args", Json::Array(vec![obj(vec![("value", s("a"))]), obj(vec![("value", integer(1))])]))])),
    ]);
    assert_eq!(entry(&console_entry(&call)), ("warning".to_string(), "a 1".to_string(), None));
    let thrown = obj(vec![
        ("method", s("Runtime.exceptionThrown")),
        ("params", obj(vec![("exceptionDetails", obj(vec![("text", s("Uncaught")), ("url", s("https://p")), ("lineNumber", integer(0)), ("exception", obj(vec![("description", s("Error: boom"))]))]))])),
    ]);
    assert_eq!(entry(&console_entry(&thrown)), ("error".to_string(), "Error: boom".to_string(), Some("https://p:1".to_string())));
    let bare = obj(vec![("method", s("Runtime.exceptionThrown")), ("params", obj(vec![]))]);
    assert_eq!(entry(&console_entry(&bare)), ("error".to_string(), "Uncaught exception".to_string(), None));
    let log = obj(vec![
        ("method", s("Log.entryAdded")),
        ("params", obj(vec![("entry", obj(vec![("level", s("verbose")), ("text", s("t")), ("url", s("https://q"))]))])),
    ]);
    assert_eq!(entry(&console_entry(&log)), ("debug".to_string(), "t".to_string(), Some("https://q".to_string())));
    assert!(console_entry(&obj(vec![("method", s("Page.loadEventFired")), ("params", obj(vec![]))])).is_none());
    assert!(console_entry(&obj(vec![("method", s("Log.entryAdded"))])).is_none());
}

fn e(level: &str, text: &str, loc: Option<&str>) -> ConsoleEntry {
    ConsoleEntry { level: level.to_string(), text: text.to_string(), location: loc.map(|l| l.to_string()) }
}

fn params(level: &str) -> ConsoleParams {
    ConsoleParams { navigate: None, duration_secs: 5, level: level.to_string() }
}

#[test]
fn console_report_lists_kept_entries() {
    let entries = vec![e("log", "a", None), e("error", "b", Some("u:3")), e("warning", "c", None)];
    assert_eq!(console(&entries, &params("all"), false), "[log] a\n[error] b  (u:3)\n[warning] c\n\n3 message(s)");
    assert_eq!(console(&entries, &params("warn"), false), "[error] b  (u:3)\n[warning] c\n\n2 message(s)");
    assert_eq!(
        console(&entries, &params("error"), true),
        "{\n  \"messages\": [\n    {\n      \"level\": \"error\",\n      \"location\": \"u:3\",\n      \"text\": \"b\"\n    }\n  ]\n}"
    );
    assert_eq!(console(&vec![e("debug", "x", None)], &params("error"), false), "No console output captured.");
    assert_eq!(console(&vec![e("debug", "x", None)], &params("error"), true), "{\n  \"messages\": []\n}");
}

#[test]
fn console_json_lists_level_text_and_location() {
    let kept = vec![e("log", "a", None), e("error", "b", Some("u:3"))];
    assert_eq!(
        console_json(&kept),
        pretty_of(r#"{"messages":[{"level":"log","text":"a","location":null},{"level":"error","text":"b","location":"u:3"}]}"#)
    );
    assert_eq!(console_json(&vec![]), "{\n  \"messages\": []\n}");
}

fn net(method: &str, session: &str, p: Json) -> Json {
    obj(vec![("method", s(method)), ("sessionId", s(session)), ("params", p)])
}

#[test]
fn capture_follows_requests_and_redirects() {
    let mut c = Capture::new();
    c.on_message(&net("Network.requestWillBeSent", "S", obj(vec![("requestId", s("1")), ("timestamp", float("1.5")), ("type", s("Document")), ("request", obj(vec![("method", s("GET")), ("url", s("http://a/"))]))])), "S");
    c.on_message(&net("Network.requestWillBeSent", "S", obj(vec![("requestId", s("1")), ("timestamp", float("1.75")), ("redirectResponse", obj(vec![("status", integer(301))])), ("request", obj(vec![("method", s("GET")), ("url", s("https://a/"))]))])), "S");
    c.on_message(&net("Network.responseReceived", "S", obj(vec![("requestId", s("1")), ("type", s("Document")), ("response", obj(vec![("status", integer(200))]))])), "S");
    c.on_message(&net("Network.loadingFinished", "S", obj(vec![("requestId", s("1")), ("timestamp", float("2")), ("encodedDataLength", integer(1536))])), "S");
    c.on_message(&net("Network.requestWillBeSent", "OTHER", obj(vec![("requestId", s("2")), ("request", obj(vec![("url", s("http://b/"))]))])), "S");
    c.on_message(&net("Network.requestWillBeSent", "S", obj(vec![("requestId", s("")), ("request", obj(vec![("url", s("http://c/"))]))])), "S");
    c.on_message(&net("Network.requestWillBeSent", "S", obj(vec![("requestId", s("3")), ("request", obj(vec![("url", s("http://d/x"))]))])), "S");
    c.on_message(&net("Network.loadingFailed", "S", obj(vec![("requestId", s("3")), ("timestamp", integer(3))])), "S");
    let rs = c.requests();
    assert_eq!(rs.len(), 3);
    assert_eq!(rs[0].url, "http://a/");
    assert_eq!(rs[0].status, Some(301));
    assert_eq!(rs[0].end.as_ref().unwrap().seconds.as_ref().unwrap().text, "1.75");
    assert_eq!(rs[1].url, "https://a/");
    assert_eq!(rs[1].status, Some(200));
    assert_eq!(rs[1].resource_type, None.or(Some("Document".to_string())));
    assert_eq!(rs[1].encoded_len.as_ref().unwrap().text, "1536");
    assert_eq!(rs[1].start.seconds.as_ref().unwrap().text, "1.75");
    assert_eq!(rs[2].failed, Some("failed".to_string()));
    assert_eq!(status_label(&rs[0]), "301");
    assert_eq!(status_label(&rs[2]), "ERR");
    let kept = network(&c, &NetworkParams { navigate: None, duration_secs: 5, filter: Some("a/".to_string()) });
    assert_eq!(kept.len(), 2);
    let all = network(&c, &NetworkParams { navigate: None, duration_secs: 5, filter: None });
    assert_eq!(all.len(), 3);
}

#[test]
fn status_label_without_status_is_a_dash() {
    let mut c = Capture::new();
    c.on_message(&net("Network.requestWillBeSent", "S", obj(vec![("requestId", s("9"))])), "S");
    assert_eq!(status_label(&c.requests()[0]), "\u{2014}");
    c.on_message(&net("Network.responseReceived", "S", obj(vec![("requestId", s("9")), ("response", obj(vec![("status", integer(-2))]))])), "S");
    assert_eq!(status_label(&c.requests()[0]), "-2");
}

#[test]
fn evaluation_reports() {
    let thrown = obj(vec![("exceptionDetails", obj(vec![("text", s("Uncaught")), ("exception", obj(vec![("description", s("ReferenceError: x"))]))]))]);
    assert_eq!(evaluate(&thrown, false), Err("ReferenceError: x".to_string()));
    let text_only = obj(vec![("exceptionDetails", obj(vec![("text", s("Uncaught"))]))]);
    assert_eq!(evaluate(&text_only, true), Err("Uncaught".to_string()));
    assert_eq!(evaluate(&obj(vec![("exceptionDetails", obj(vec![]))]), true), Err("Unknown error".to_string()));
    let string = obj(vec![("result", obj(vec![("type", s("string")), ("value", s("title"))]))]);
    assert_eq!(evaluate(&string, false), Ok("title".to_string()));
    assert_eq!(evaluate(&string, true), Ok("\"title\"".to_string()));
    let undef = obj(vec![("result", obj(vec![("type", s("undefined"))]))]);
    assert_eq!(evaluate(&undef, false), Ok("undefined".to_string()));
    assert_eq!(evaluate(&undef, true), Ok("{\n  \"type\": \"undefined\"\n}".to_string()));
    assert_eq!(evaluate(&obj(vec![]), false), Ok("undefined".to_string()));
    assert_eq!(evaluate(&obj(vec![]), true), Ok("null".to_string()));
    let number = obj(vec![("result", obj(vec![("type", s("number")), ("value", integer(2))]))]);
    assert_eq!(evaluate(&number, false), Ok("2".to_string()));
    let list = obj(vec![("result", obj(vec![("type", s("object")), ("value", Json::Array(vec![integer(1), Json::Bool(true)]))]))]);
    assert_eq!(evaluate(&list, false), Ok("[\n  1,\n  true\n]".to_string()));
    assert_eq!(evaluate(&list, true), Ok("[\n  1,\n  true\n]".to_string()));
    let node = obj(vec![("result", obj(vec![("type", s("object")), ("description", s("HTMLDivElement"))]))]);
    assert_eq!(evaluate(&node, false), Ok("HTMLDivElement".to_string()));
    let bare = obj(vec![("result", obj(vec![("type", s("object"))]))]);
    assert_eq!(evaluate(&bare, false), Ok(String::new()));
}

fn ax(role: &str, name: &str, id: &str, depth: Option<u64>) -> Json {
    let mut m = vec![
        ("role", obj(vec![("value", s(role))])),
        ("name", obj(vec![("value", s(name))])),
        ("nodeId", s(id)),
    ];
    if let Some(d) = depth {
        m.push(("depth", integer(d as i64)));
    }
    obj(m)
}

#[test]
fn snapshot_lists_visible_nodes() {
    let reply = obj(vec![("nodes", Json::Array(vec![
        ax("RootWebArea", "Example", "1", Some(0)),
        ax("generic", "", "2", Some(1)),
        ax("link", "", "3", Some(2)),
        ax("none", "x", "4", None),
        ax("button", "OK", "5", None),
    ]))]);
    assert_eq!(take_snapshot(&reply, false), "[RootWebArea] \"Example\" #1\n    [link] #3\n[button] \"OK\" #5\n");
    let small = obj(vec![("nodes", Json::Array(vec![ax("button", "OK", "5", None)]))]);
    assert_eq!(
        take_snapshot(&small, true),
        pretty_of(r#"{"nodes":[{"role":{"value":"button"},"name":{"value":"OK"},"nodeId":"5"}]}"#)
    );
    assert_eq!(take_snapshot(&obj(vec![]), false), "{}");
    assert_eq!(take_snapshot(&obj(vec![("nodes", s("x"))]), false), "{\n  \"nodes\": \"x\"\n}");
    assert_eq!(take_snapshot(&obj(vec![("nodes", Json::Array(vec![]))]), false), "");
}

#[test]
fn performance_json_is_the_parsed_snapshot_or_empty() {
    let reply = obj(vec![("result", obj(vec![("type", s("string")), ("value", s("{\"ttfb\":12.5}"))]))]);
    assert_eq!(snapshot_source(&reply), Some(&"{\"ttfb\":12.5}".to_string()));
    assert_eq!(snapshot_source(&obj(vec![("result", obj(vec![("value", integer(3))]))])), None);
    assert_eq!(snapshot_source(&obj(vec![])), None);
    let doc = obj(vec![("ttfb", float("12.5")), ("domNodes", integer(40))]);
    assert_eq!(performance_json(Some(&doc)), "{\n  \"domNodes\": 40,\n  \"ttfb\": 12.5\n}");
    assert_eq!(performance_json(None), "{}");
}

fn hop(method: &str, url: &str, status: Option<i64>, kind: Option<&str>, failed: Option<&str>) -> Request {
    Request {
        method: method.to_string(),
        url: url.to_string(),
        status,
        resource_type: kind.map(|k| k.to_string()),
        encoded_len: None,
        start: Stamp { seconds: None },
        end: None,
        failed: failed.map(|f| f.to_string()),
    }
}

#[test]
fn network_table_lays_out_columns() {
    let rows = vec![
        hop("GET", "https://a/", Some(200), Some("Document"), None),
        hop("POST", "https://b/api", None, None, Some("net::ERR_FAILED")),
    ];
    let sizes = vec!["1.5KB".to_string(), "0B".to_string()];
    let times = vec!["12ms".to_string(), "\u{2014}".to_string()];
    let expected = format!(
        "{:<6} {:<6} {:<11} {:>9} {:>7}  URL\n{:<6} {:<6} {:<11} {:>9} {:>7}  {}\n{:<6} {:<6} {:<11} {:>9} {:>7}  {}\n       \u{2514}\u{2500} net::ERR_FAILED\n\n2 request(s), 1.5KB transferred",
        "STATUS", "METHOD", "TYPE", "SIZE", "TIME",
        "200", "GET", "Document", "1.5KB", "12ms", "https://a/",
        "ERR", "POST", "\u{2014}", "0B", "\u{2014}", "https://b/api",
    );
    assert_eq!(network_table(&rows, &sizes, &times, "1.5KB"), expected);
    assert!(network_table(&rows, &sizes, &times, "1.5KB").starts_with("STATUS METHOD TYPE             SIZE    TIME  URL\n"));
    assert_eq!(network_table(&vec![], &vec![], &vec![], "0B"), "No network requests captured.");
}

#[test]
fn network_json_lists_hops_with_whole_numbers() {
    let rows = vec![
        hop("GET", "https://a/", Some(200), Some("Document"), None),
        hop("POST", "https://b/api", None, None, Some("net::ERR_FAILED")),
    ];
    assert_eq!(
        network_json(&rows, &vec![1536, 0], &vec![Some(12), None]),
        pretty_of(
            r#"{"requests":[
                {"method":"GET","url":"https://a/","status":200,"type":"Document","encodedBytes":1536,"durationMs":12,"error":null},
                {"method":"POST","url":"https://b/api","status":null,"type":null,"encodedBytes":0,"durationMs":null,"error":"net::ERR_FAILED"}]}"#
        )
    );
    assert_eq!(network_json(&vec![], &vec![], &vec![]), "{\n  \"requests\": []\n}");
}

#[test]
fn foreign_messages_leave_the_capture_alone() {
    let stream = vec![
        net("Network.requestWillBeSent", "S", obj(vec![("requestId", s("1")), ("request", obj(vec![("method", s("GET")), ("url", s("http://a/"))]))])),
        net("Network.responseReceived", "S", obj(vec![("requestId", s("1")), ("response", obj(vec![("status", integer(204))]))])),
    ];
    let noise = vec![
        net("Network.requestWillBeSent", "OTHER", obj(vec![("requestId", s("2")), ("request", obj(vec![("url", s("http://x/"))]))])),
        obj(vec![("method", s("Network.responseReceived")), ("sessionId", s("S"))]),
        net("Page.loadEventFired", "S", obj(vec![])),
        net("Network.loadingFailed", "S", obj(vec![("requestId", s("77"))])),
    ];
    let mut plain = Capture::new();
    for m in &stream {
        plain.on_message(m, "S");
    }
    let mut noisy = Capture::new();
    for m in &noise {
        noisy.on_message(m, "S");
    }
    noisy.on_message(&stream[0], "S");
    for m in &noise {
        noisy.on_message(m, "S");
    }
    noisy.on_message(&stream[1], "S");
    let (a, b) = (plain.requests(), noisy.requests());
    assert_eq!(a.len(), 1);
    assert_eq!(b.len(), 1);
    assert_eq!((a[0].url.as_str(), a[0].status, a[0].failed.is_none()), ("http://a/", Some(204), true));
    assert_eq!((b[0].url.as_str(), b[0].status, b[0].failed.is_none()), ("http://a/", Some(204), true));
}

#[test]
fn tilde_is_expanded_only_at_the_start() {
    assert_eq!(tilde_rest("~"), Some(String::new()));
    assert_eq!(tilde_rest("~/skills/x"), Some("skills/x".to_string()));
    assert_eq!(tilde_rest("~other"), None);
    assert_eq!(tilde_rest("/abs/~"), None);
    assert_eq!(tilde_rest(""), None);
}

fn figures(transfer: Option<&str>) -> PerfFigures {
    PerfFigures {
        timings: ["12 ms", "\u{2014}", "30 ms", "40 ms", "50 ms", "60 ms"].iter().map(|t| t.to_string()).collect(),
        transfer_size: transfer.map(|t| t.to_string()),
        heap_used: "1.5MB".to_string(),
        heap_total: "2.0MB".to_string(),
    }
}

const TIMINGS: &str = "Page timings:\n  TTFB:                    12 ms\n  First Paint:             \u{2014}\n  First Contentful Paint:  30 ms\n  DOM Interactive:         40 ms\n  DOMContentLoaded:        50 ms\n  Load:                    60 ms\n";

#[test]
fn performance_text_lays_out_timings_and_weight() {
    let snap = obj(vec![
        ("resources", integer(14)),
        ("domNodes", integer(230)),
        ("jsHeapUsed", float("1572864.5")),
        ("jsHeapTotal", integer(2097152)),
    ]);
    assert_eq!(
        performance_text(Some(&snap), &figures(Some("3.4KB"))),
        format!("{TIMINGS}Page weight:\n  Resources:               14\n  Transfer size:           3.4KB\n  DOM nodes:               230\n  JS heap used:            1.5MB\n  JS heap total:           2.0MB")
    );
    let partial = obj(vec![("resources", float("14.5")), ("domNodes", integer(-3)), ("jsHeapUsed", s("x"))]);
    assert_eq!(
        performance_text(Some(&partial), &figures(None)),
        format!("{TIMINGS}Page weight:\n  DOM nodes:               -3")
    );
    assert_eq!(performance_text(None, &figures(None)), format!("{TIMINGS}Page weight:"));
}

#[test]
fn reads_wait_at_most_a_slice_within_the_window() {
    let second: u128 = 1_000_000_000;
    assert_eq!(next_read_timeout(0, 5 * second), Some(READ_SLICE_NANOS));
    assert_eq!(next_read_timeout(5 * second - 50, 5 * second), Some(50));
    assert_eq!(next_read_timeout(5 * second - READ_SLICE_NANOS, 5 * second), Some(READ_SLICE_NANOS));
    assert_eq!(next_read_timeout(5 * second, 5 * second), None);
    assert_eq!(next_read_timeout(6 * second, 5 * second), None);
    assert_eq!(next_read_timeout(0, 0), None);
}
