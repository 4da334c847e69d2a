//! The message handling of the language server.

use xlang::json::quoted;
use xlang::names::NameMap;
use xlang::server::dispatch::{dispatch, handle, Action, Question};
use xlang::server::reply;
use xlang::server::reply::{Diagnostic, Fold, Range, Symbol};
use xlang::server::request::{read, Parts, Request};
use xlang::server::wire::{Headers, Received, frame, read_message};

fn open(docs: &mut NameMap<String>, uri: &str, text: &str) -> Action {
    let body = format!(
        r#"{{"jsonrpc":"2.0","method":"textDocument/didOpen","params":{{"textDocument":{{"uri":{},"text":{}}}}}}}"#,
        quoted(uri),
        quoted(text)
    );
    handle(body.as_bytes(), docs)
}

fn ask(docs: &mut NameMap<String>, method: &str, uri: &str) -> Action {
    let body = format!(
        r#"{{"id":5,"method":"textDocument/{method}","params":{{"textDocument":{{"uri":"{uri}"}},"position":{{"line":2,"character":0}}}}}}"#
    );
    handle(body.as_bytes(), docs)
}

/// Whether a body is what the JSON library itself writes for the same value.
fn canonical(body: &str) {
    let value: serde_json::Value = serde_json::from_str(body).expect("JSON");
    assert_eq!(value.to_string(), body);
}

fn sent(action: Action) -> String {
    match action {
        Action::Send(body) => body,
        other => panic!("not sent: {other:?}"),
    }
}

fn about(action: Action) -> (Question, u32, u32) {
    match action {
        Action::Hover { about, line, column } => (about, line, column),
        Action::Define { about, line, column } => (about, line, column),
        Action::Refer { about, line, column } => (about, line, column),
        Action::Complete { about } => (about, 0, 0),
        Action::Symbols { about } => (about, 0, 0),
        Action::Fold { about } => (about, 0, 0),
        other => panic!("no question: {other:?}"),
    }
}

#[test]
fn frames_a_message() {
    assert_eq!(frame("{}"), "Content-Length: 2\r\n\r\n{}");
    assert_eq!(frame(""), "Content-Length: 0\r\n\r\n");
    // Bytes are counted, not characters.
    assert_eq!(frame("é→"), "Content-Length: 5\r\n\r\né→");
}

#[test]
fn reads_back_the_header_of_a_frame() {
    for body in ["", "{}", "é→", "{\"a\":1}"] {
        let framed = frame(body);
        let mut headers = Headers::new();
        let mut rest = framed.as_str();
        while !headers.done {
            let end = rest.find('\n').expect("a line") + 1;
            headers.read_line(&rest[..end]);
            rest = &rest[end..];
        }
        assert_eq!(headers.length, Some(body.len()));
        assert_eq!(rest, body);
    }
}

#[test]
fn reads_header_lines() {
    let read_all = |lines: &[&str]| {
        let mut h = Headers::new();
        for l in lines {
            h.read_line(l);
        }
        (h.length, h.done)
    };
    assert_eq!(read_all(&[]), (None, false));
    assert_eq!(read_all(&["\r\n"]), (None, true));
    assert_eq!(read_all(&["\n"]), (None, true));
    assert_eq!(read_all(&["Content-Length:12\n"]), (Some(12), false));
    assert_eq!(read_all(&["Content-Length: \t 12 \r\n", "\r\n"]), (Some(12), true));
    assert_eq!(read_all(&["Content-Length: +7\r\n"]), (Some(7), false));
    assert_eq!(read_all(&["Content-Type: x\r\n", "Content-Length: 3\r\n"]), (Some(3), false));
    assert_eq!(read_all(&["content-length: 3\r\n"]), (None, false));
    // The last line counts, also where it cannot be read.
    assert_eq!(read_all(&["Content-Length: 3\r\n", "Content-Length: 4\r\n"]), (Some(4), false));
    assert_eq!(read_all(&["Content-Length: 3\r\n", "Content-Length: x\r\n"]), (None, false));
    assert_eq!(read_all(&["Content-Length: -3\r\n"]), (None, false));
    assert_eq!(read_all(&["Content-Length: 99999999999999999999999\r\n"]), (None, false));
}

#[test]
fn reads_a_request() {
    let r = read(
        br#"{"id":"a","method":"m","params":{"textDocument":{"uri":"u","text":"t"},"position":{"line":4,"character":9},"contentChanges":[{"text":"x"},{"text":"y"}]}}"#,
    )
    .expect("JSON");
    assert_eq!(r.method, "m");
    assert_eq!(r.id, "\"a\"");
    assert_eq!(r.uri, "u");
    assert_eq!(r.text, "t");
    assert_eq!(r.change, "y");
    assert_eq!((r.line, r.column), (5, 10));
}

#[test]
fn reads_a_request_with_nothing_in_it() {
    for body in ["{}", "null", "[1]", r#"{"method":3,"params":[],"id":null}"#] {
        let r = read(body.as_bytes()).expect("JSON");
        assert_eq!((r.method.as_str(), r.id.as_str()), ("", "null"), "{body}");
        assert_eq!((r.uri.as_str(), r.text.as_str(), r.change.as_str()), ("", "", ""), "{body}");
        assert_eq!((r.line, r.column), (1, 1), "{body}");
    }
    assert!(read(b"{").is_none());
    assert!(read(b"").is_none());
    assert!(read(b"{} {}").is_none());
}

#[test]
fn reads_the_last_change_only() {
    let change = |c: &str| {
        read(format!(r#"{{"params":{{"contentChanges":{c}}}}}"#).as_bytes()).expect("JSON").change
    };
    assert_eq!(change("[]"), "");
    assert_eq!(change("[{\"text\":\"one\"}]"), "one");
    assert_eq!(change("[{\"text\":\"one\"},{\"other\":1}]"), "");
    assert_eq!(change("[{\"text\":\"one\"},{\"text\":2}]"), "");
    assert_eq!(change("{\"text\":\"one\"}"), "");
    let many: Vec<String> = (0..12).map(|i| format!("{{\"text\":\"t{i}\"}}")).collect();
    assert_eq!(change(&format!("[{}]", many.join(","))), "t11");
}

#[test]
fn keeps_identifiers_as_they_are() {
    for id in ["1", "-3", "\"x\\ny\"", "null", "1.5", "[1,2]", "{\"a\":1}", "18446744073709551615"] {
        let r = read(format!("{{\"id\":{id}}}").as_bytes()).expect("JSON");
        assert_eq!(r.id, id);
    }
}

#[test]
fn counts_positions_from_one() {
    let parts = |line: Option<u64>| Parts {
        method: None,
        id: None,
        uri: None,
        text: None,
        change: None,
        line,
        character: None,
    };
    assert_eq!(parts(None).request().line, 1);
    assert_eq!(parts(Some(0)).request().line, 1);
    assert_eq!(parts(Some(41)).request().line, 42);
    assert_eq!(parts(Some(4294967294)).request().line, 4294967295);
    // Only the lower 32 bits count.
    assert_eq!(parts(Some(4294967296 + 7)).request().line, 8);
    assert_eq!(parts(Some(4294967295)).request().line, 0);
}

#[test]
fn answers_initialize_and_shutdown() {
    let mut docs = NameMap::new();
    let body = sent(handle(br#"{"id":1,"method":"initialize"}"#, &mut docs));
    canonical(&body);
    assert_eq!(
        body,
        r#"{"id":1,"jsonrpc":"2.0","result":{"capabilities":{"completionProvider":{"triggerCharacters":["."]},"definitionProvider":true,"documentSymbolProvider":true,"foldingRangeProvider":true,"hoverProvider":true,"referencesProvider":true,"textDocumentSync":1}}}"#
    );
    let body = sent(handle(br#"{"id":"z","method":"shutdown"}"#, &mut docs));
    canonical(&body);
    assert_eq!(body, r#"{"id":"z","jsonrpc":"2.0","result":null}"#);
}

#[test]
fn only_exit_and_broken_messages_stop() {
    let mut docs = NameMap::new();
    assert!(matches!(handle(br#"{"method":"exit"}"#, &mut docs), Action::Stop));
    assert!(matches!(handle(b"not json", &mut docs), Action::Stop));
    for method in [
        "initialized",
        "textDocument/didSave",
        "workspace/didChangeConfiguration",
        "exit2",
        "",
        "textDocument/rename",
    ] {
        let body = format!(r#"{{"method":"{method}"}}"#);
        assert!(matches!(handle(body.as_bytes(), &mut docs), Action::Ignore), "{method}");
    }
}

#[test]
fn an_opened_document_is_diagnosed_and_kept() {
    let mut docs = NameMap::new();
    match open(&mut docs, "file:///a.x", "one\ntwo") {
        Action::Diagnose { uri, text } => {
            assert_eq!((uri.as_str(), text.as_str()), ("file:///a.x", "one\ntwo"));
        }
        other => panic!("{other:?}"),
    }
    let (q, line, column) = about(ask(&mut docs, "hover", "file:///a.x"));
    assert_eq!((q.id.as_str(), q.uri.as_str(), q.text.as_str()), ("5", "file:///a.x", "one\ntwo"));
    assert_eq!((line, column), (3, 1));
}

#[test]
fn questions_see_the_last_text() {
    let mut docs = NameMap::new();
    open(&mut docs, "a", "old");
    open(&mut docs, "b", "other");
    let changed = br#"{"method":"textDocument/didChange","params":{"textDocument":{"uri":"a"},"contentChanges":[{"text":"mid"},{"text":"new"}]}}"#;
    match handle(changed, &mut docs) {
        Action::Diagnose { uri, text } => assert_eq!((uri.as_str(), text.as_str()), ("a", "new")),
        other => panic!("{other:?}"),
    }
    for method in ["hover", "definition", "completion", "documentSymbol", "foldingRange", "references"] {
        assert_eq!(about(ask(&mut docs, method, "a")).0.text, "new", "{method}");
        assert_eq!(about(ask(&mut docs, method, "b")).0.text, "other", "{method}");
        assert_eq!(about(ask(&mut docs, method, "c")).0.text, "", "{method}");
    }
}

#[test]
fn each_question_has_its_own_action() {
    let mut docs = NameMap::new();
    assert!(matches!(ask(&mut docs, "hover", "a"), Action::Hover { line: 3, column: 1, .. }));
    assert!(matches!(ask(&mut docs, "definition", "a"), Action::Define { line: 3, column: 1, .. }));
    assert!(matches!(ask(&mut docs, "references", "a"), Action::Refer { line: 3, column: 1, .. }));
    assert!(matches!(ask(&mut docs, "completion", "a"), Action::Complete { .. }));
    assert!(matches!(ask(&mut docs, "documentSymbol", "a"), Action::Symbols { .. }));
    assert!(matches!(ask(&mut docs, "foldingRange", "a"), Action::Fold { .. }));
}

#[test]
fn dispatches_a_request() {
    let mut docs = NameMap::new();
    let r = Request {
        method: "textDocument/didOpen".to_string(),
        id: "null".to_string(),
        uri: "u".to_string(),
        text: "t".to_string(),
        change: "c".to_string(),
        line: 1,
        column: 1,
    };
    assert!(matches!(dispatch(&r, &mut docs), Action::Diagnose { .. }));
    assert_eq!(docs.get("u").map(|s| s.as_str()), Some("t"));
    let r = Request { method: "textDocument/didChange".to_string(), ..r };
    assert!(matches!(dispatch(&r, &mut docs), Action::Diagnose { .. }));
    assert_eq!(docs.get("u").map(|s| s.as_str()), Some("c"));
}

const R: Range = Range { line: 1, col: 0, end_line: 3, end_col: 8 };
const RANGE: &str = r#"{"end":{"character":7,"line":2},"start":{"character":0,"line":0}}"#;

#[test]
fn answers_hover() {
    let body = reply::hover("1", Some("fn f(): \"i32\""));
    canonical(&body);
    assert_eq!(
        body,
        r#"{"id":1,"jsonrpc":"2.0","result":{"contents":{"language":"xlang","value":"fn f(): \"i32\""}}}"#
    );
    assert_eq!(reply::hover("1", None), r#"{"id":1,"jsonrpc":"2.0","result":null}"#);
}

#[test]
fn answers_definition_and_references() {
    let body = reply::definition("2", "file:///é", Some(R));
    canonical(&body);
    assert_eq!(
        body,
        format!(r#"{{"id":2,"jsonrpc":"2.0","result":{{"range":{RANGE},"uri":"file:///é"}}}}"#)
    );
    assert_eq!(reply::definition("2", "u", None), r#"{"id":2,"jsonrpc":"2.0","result":null}"#);
    let body = reply::references("3", "u", &vec![R, R]);
    canonical(&body);
    assert_eq!(
        body,
        format!(
            r#"{{"id":3,"jsonrpc":"2.0","result":[{{"range":{RANGE},"uri":"u"}},{{"range":{RANGE},"uri":"u"}}]}}"#
        )
    );
    assert_eq!(
        reply::references("3", "u", &Vec::new()),
        r#"{"id":3,"jsonrpc":"2.0","result":[]}"#
    );
}

#[test]
fn answers_completion_symbols_and_folding() {
    let body = reply::completion("4", &vec!["main".to_string(), "a\\b".to_string()]);
    canonical(&body);
    assert_eq!(body, r#"{"id":4,"jsonrpc":"2.0","result":[{"label":"main"},{"label":"a\\b"}]}"#);
    let body = reply::symbols("5", &vec![Symbol { name: "f".to_string(), kind: 12, range: R }]);
    canonical(&body);
    assert_eq!(
        body,
        format!(
            r#"{{"id":5,"jsonrpc":"2.0","result":[{{"kind":12,"name":"f","range":{RANGE},"selectionRange":{RANGE}}}]}}"#
        )
    );
    let body = reply::folding("6", &vec![Fold { start: 0, end: 9 }, Fold { start: 3, end: 4 }]);
    canonical(&body);
    assert_eq!(
        body,
        r#"{"id":6,"jsonrpc":"2.0","result":[{"endLine":9,"startLine":0},{"endLine":4,"startLine":3}]}"#
    );
}

#[test]
fn publishes_diagnostics() {
    let found = vec![Diagnostic {
        line: 1,
        col: 1,
        end_line: 1,
        end_col: 6,
        message: "cannot assign to \"x\"".to_string(),
    }];
    let body = reply::diagnostics("file:///a.x", &found);
    canonical(&body);
    assert_eq!(
        body,
        r#"{"jsonrpc":"2.0","method":"textDocument/publishDiagnostics","params":{"diagnostics":[{"message":"cannot assign to \"x\"","range":{"end":{"character":5,"line":0},"start":{"character":0,"line":0}},"severity":1,"source":"xlang"}],"uri":"file:///a.x"}}"#
    );
    let body = reply::diagnostics("u", &Vec::new());
    canonical(&body);
    assert_eq!(
        body,
        r#"{"jsonrpc":"2.0","method":"textDocument/publishDiagnostics","params":{"diagnostics":[],"uri":"u"}}"#
    );
    // Coordinates are told in 32 bits.
    let wide = vec![Diagnostic {
        line: 4294967296 + 5,
        col: 0,
        end_line: 4294967296,
        end_col: 2,
        message: String::new(),
    }];
    assert!(reply::diagnostics("u", &wide).contains(
        r#""range":{"end":{"character":1,"line":4294967295},"start":{"character":0,"line":4}}"#
    ));
}

#[test]
fn positions_round_trip() {
    for k in [0u64, 1, 7, 100, 4294967294] {
        let body = format!(r#"{{"params":{{"position":{{"line":{k}}}}}}}"#);
        let line = read(body.as_bytes()).expect("JSON").line;
        let told = reply::definition("1", "u", Some(Range { line, col: 1, end_line: line, end_col: 1 }));
        assert!(told.contains(&format!(r#""start":{{"character":0,"line":{k}}}"#)), "{told}");
    }
}

#[test]
fn quotes_strings_as_json() {
    let all: String = (0u32..0x20).filter_map(char::from_u32).collect();
    let text = format!("{all} \"\\/\u{7f}é\u{2028}😀");
    let q = quoted(&text);
    assert_eq!(q, serde_json::to_string(&text).expect("JSON"));
    assert!(q.chars().all(|c| c >= ' '));
    let back: String = serde_json::from_str(&q).expect("JSON");
    assert_eq!(back, text);
    assert_eq!(quoted("\u{1}\u{1f}\n"), "\"\\u0001\\u001f\\n\"");
}

fn whole(bytes: &[u8]) -> Option<(Vec<u8>, usize)> {
    match read_message(bytes) {
        Received::Whole { body, used } => Some((body, used)),
        _ => None,
    }
}

#[test]
fn a_message_that_is_sent_is_read_back() {
    for body in ["", "{}", "{\"a\":\"\u{e9}\u{1F600}\\n\"}", "line\nline\r\n\r\n"] {
        let sent = frame(body);
        let mut bytes = sent.clone().into_bytes();
        bytes.extend_from_slice(b"Content-Length: 9\r\nrest");
        assert_eq!(whole(&bytes), Some((body.as_bytes().to_vec(), sent.len())));
        // Any part of it is waited for.
        for n in 0..sent.len() {
            assert!(matches!(read_message(&bytes[..n]), Received::Short), "{n}");
        }
    }
}

#[test]
fn headers_are_read_from_bytes() {
    assert_eq!(whole(b"X: \xc3\xa9\nContent-Length: 1\nContent-Length:\t2 \r\n\nabc"), Some((b"ab".to_vec(), 47)));
    // No text, no length, no number.
    assert!(matches!(read_message(b"X: \xff\r\n"), Received::Broken));
    assert!(matches!(read_message(b"X: 1\r\n\r\nabc"), Received::Broken));
    assert!(matches!(read_message(b"Content-Length: one\r\n\r\nabc"), Received::Broken));
    // A line without its break is not read yet.
    assert!(matches!(read_message(b"X: \xff"), Received::Short));
    assert!(matches!(read_message(b""), Received::Short));
    assert!(matches!(read_message(b"Content-Length: 18446744073709551615\r\n\r\nabc"), Received::Short));
}
