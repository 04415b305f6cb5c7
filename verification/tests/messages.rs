use lsp_bridge::frame::make_payload;
use lsp_bridge::lsp::analyze;
use lsp_bridge::lsp::cursor;
use lsp_bridge::lsp::cursor_at;
use lsp_bridge::lsp::did_open;
use lsp_bridge::lsp::did_open_at;
use lsp_bridge::lsp::document_uri;
use lsp_bridge::lsp::init;
use lsp_bridge::lsp::notification;
use lsp_bridge::lsp::AnalyzeRequest;
use lsp_bridge::lsp::BuildError;
use lsp_bridge::lsp::CursorRequest;
use lsp_bridge::lsp::Position;
use lsp_bridge::lsp::TextDocumentIdentifier;

fn body_of(frame: &str) -> serde_json::Value {
    let at = frame.find("\r\n\r\n").unwrap();
    let body = &frame[at + 4..];
    assert_eq!(&frame[..at], format!("Content-Length: {}", body.len()));
    serde_json::from_str(body).unwrap()
}

#[test]
fn handshake_request() {
    let frame = init(10, "/tmp").unwrap();
    let body = "{\"method\":\"initialize\",\"params\":{\"processId\":null,\"rootUri\":null,\"capabilities\":{\"textDocument\":{\"synchronization\":{\"dynamicRegistration\":true}}}},\"id\":10,\"jsonrpc\":\"2.0\"}";
    assert_eq!(frame, make_payload(body));
    assert_eq!(frame, format!("Content-Length: {}\r\n\r\n{}", body.len(), body));
}

#[test]
fn handshake_names_no_workspace() {
    let value = body_of(&init(7, "/home/someone/project").unwrap());
    assert_eq!(value.get("id").and_then(|v| v.as_i64()), Some(7));
    assert_eq!(value.get("jsonrpc").and_then(|v| v.as_str()), Some("2.0"));
    let params = value.get("params").unwrap();
    assert!(params.get("workspaceFolders").is_none());
    assert!(params.get("rootUri").unwrap().is_null());
    assert!(!init(7, "/home/someone/project").unwrap().contains("someone"));
}

#[test]
fn handshake_is_what_the_protocol_types_write() {
    let client = lsp_types::ClientCapabilities {
        text_document: Some(lsp_types::TextDocumentClientCapabilities {
            synchronization: Some(lsp_types::TextDocumentSyncClientCapabilities {
                dynamic_registration: Some(true),
                ..Default::default()
            }),
            ..Default::default()
        }),
        ..Default::default()
    };
    let params = lsp_types::InitializeParams { capabilities: client, ..Default::default() };
    let raw = serde_json::value::to_raw_value(&params).unwrap();
    let request = jsonrpc::Request { jsonrpc: Some("2.0"), id: (-3).into(), method: "initialize", params: Some(&raw) };
    assert_eq!(init(-3, "/").unwrap(), make_payload(&serde_json::to_string(&request).unwrap()));
}

#[test]
fn document_registration() {
    let frame = did_open("/tmp/a.rs", "fn main() {}".to_string()).unwrap();
    let body = "{\"jsonrpc\":\"2.0\",\"method\":\"textDocument/didOpen\",\"params\":{\"textDocument\":{\"languageId\":\"rust\",\"text\":\"fn main() {}\",\"uri\":\"file:///tmp/a.rs\",\"version\":1}}}";
    assert_eq!(frame, make_payload(body));
}

#[test]
fn document_registration_has_no_id() {
    let value = body_of(&did_open("/tmp/a.rs", "x".to_string()).unwrap());
    assert!(value.get("id").is_none());
    assert_eq!(value.as_object().unwrap().len(), 3);
}

#[test]
fn document_text_is_escaped() {
    let source = "fn main() {\n\tprintln!(\"h\u{e9}\\\");\n}\u{1}";
    let value = body_of(&did_open("/tmp/a.rs", source.to_string()).unwrap());
    let document = value.get("params").unwrap().get("textDocument").unwrap();
    assert_eq!(document.get("text").and_then(|v| v.as_str()), Some(source));
    assert_eq!(document.get("languageId").and_then(|v| v.as_str()), Some("rust"));
    assert_eq!(document.get("version").and_then(|v| v.as_i64()), Some(1));
}

#[test]
fn document_path_is_percent_encoded() {
    let value = body_of(&did_open("/tmp/with space/\u{e9}.rs", String::new()).unwrap());
    let uri = value.get("params").unwrap().get("textDocument").unwrap().get("uri").unwrap();
    assert_eq!(uri.as_str(), Some("file:///tmp/with%20space/%C3%A9.rs"));
}

#[test]
fn document_registration_is_what_the_protocol_types_write() {
    let params = lsp_types::DidOpenTextDocumentParams {
        text_document: lsp_types::TextDocumentItem {
            uri: lsp_types::Url::from_file_path("/work/lib.rs").unwrap(),
            language_id: "rust".to_string(),
            version: 1,
            text: "struct S;".to_string(),
        },
    };
    let mut expected = serde_json::Map::new();
    expected.insert("jsonrpc".to_string(), serde_json::Value::from("2.0"));
    expected.insert("method".to_string(), serde_json::Value::from("textDocument/didOpen"));
    expected.insert("params".to_string(), serde_json::to_value(&params).unwrap());
    let value = body_of(&did_open("/work/lib.rs", "struct S;".to_string()).unwrap());
    assert_eq!(value, serde_json::Value::Object(expected));
}

#[test]
fn document_at_relative_path_has_no_location() {
    assert_eq!(did_open("a.rs", "fn main() {}".to_string()), Err(BuildError::Location));
    assert_eq!(did_open("", String::new()), Err(BuildError::Location));
    assert_eq!(cursor(40, "src/a.rs", 0, 0), Err(BuildError::Location));
}

#[test]
fn document_at_uri() {
    let uri = document_uri("/tmp/a.rs").unwrap();
    assert_eq!(uri.as_str(), "file:///tmp/a.rs");
    assert_eq!(did_open_at(&uri, "fn main() {}"), did_open("/tmp/a.rs", "fn main() {}".to_string()));
    assert_eq!(cursor_at(40, uri, 1, 2), cursor(40, "/tmp/a.rs", 1, 2));
}

#[test]
fn uri_of_a_path() {
    assert_eq!(document_uri("/").unwrap().as_str(), "file:///");
    assert_eq!(document_uri("/a b/c#d?e").unwrap().as_str(), "file:///a%20b/c%23d%3Fe");
    assert_eq!(document_uri("/tmp/x/../a.rs").unwrap().as_str(), "file:///tmp/x/../a.rs");
    assert_eq!(document_uri("relative/a.rs"), None);
    assert_eq!(document_uri(""), None);
    assert_eq!(document_uri("/tmp/a.rs"), document_uri("/tmp/a.rs"));
}

#[test]
fn path_is_sent_as_it_stands() {
    let expected = lsp_types::Url::from_file_path("/tmp/x/../a.rs").unwrap();
    assert_eq!(expected.as_str(), "file:///tmp/x/../a.rs");
    let value = body_of(&did_open("/tmp/x/../a.rs", String::new()).unwrap());
    let uri = value.get("params").unwrap().get("textDocument").unwrap().get("uri").unwrap();
    assert_eq!(uri.as_str(), Some("file:///tmp/x/../a.rs"));
    let value = body_of(&cursor(40, "/tmp/x/../a.rs", 0, 0).unwrap());
    let uri = value.get("params").unwrap().get("document").unwrap().get("uri").unwrap();
    assert_eq!(uri.as_str(), Some("file:///tmp/x/../a.rs"));
}

#[test]
fn handshake_with_the_smallest_identifier() {
    let frame = init(i32::MIN, "/").unwrap();
    assert!(frame.ends_with(",\"id\":-2147483648,\"jsonrpc\":\"2.0\"}"));
}

#[test]
fn analysis_trigger() {
    let body = "{\"method\":\"rustowl/analyze\",\"params\":{},\"id\":30,\"jsonrpc\":\"2.0\"}";
    assert_eq!(analyze(30).unwrap(), make_payload(body));
    assert_eq!(analyze(30).unwrap(), format!("Content-Length: 64\r\n\r\n{}", body));
}

#[test]
fn analysis_trigger_with_negative_id() {
    let value = body_of(&analyze(i32::MIN).unwrap());
    assert_eq!(value.get("id").and_then(|v| v.as_i64()), Some(i32::MIN as i64));
    assert_eq!(value.get("params").and_then(|v| v.as_object()).map(|o| o.len()), Some(0));
}

#[test]
fn position_query() {
    let frame = cursor(40, "/tmp/a.rs", 0, 3).unwrap();
    let body = "{\"method\":\"rustowl/cursor\",\"params\":{\"position\":{\"line\":0,\"character\":3},\"document\":{\"uri\":\"file:///tmp/a.rs\"}},\"id\":40,\"jsonrpc\":\"2.0\"}";
    assert_eq!(frame, make_payload(body));
}

#[test]
fn position_query_with_large_numbers() {
    let value = body_of(&cursor(i32::MAX, "/a", u32::MAX, 4_000_000_000).unwrap());
    let position = value.get("params").unwrap().get("position").unwrap();
    assert_eq!(position.get("line").and_then(|v| v.as_u64()), Some(u32::MAX as u64));
    assert_eq!(position.get("character").and_then(|v| v.as_u64()), Some(4_000_000_000));
    assert_eq!(value.get("id").and_then(|v| v.as_i64()), Some(i32::MAX as i64));
}

#[test]
fn position_query_is_what_the_protocol_types_write() {
    let position = serde_json::to_value(lsp_types::Position { line: 12, character: 34 }).unwrap();
    let document = serde_json::to_value(lsp_types::TextDocumentIdentifier {
        uri: lsp_types::Url::from_file_path("/work/lib.rs").unwrap(),
    })
    .unwrap();
    let value = body_of(&cursor(40, "/work/lib.rs", 12, 34).unwrap());
    let params = value.get("params").unwrap();
    assert_eq!(params.get("position"), Some(&position));
    assert_eq!(params.get("document"), Some(&document));
    assert_eq!(params.as_object().unwrap().len(), 2);
    assert_eq!(value.get("method").and_then(|v| v.as_str()), Some("rustowl/cursor"));
}

#[test]
fn cursor_request_as_json() {
    let request = CursorRequest {
        position: Position { line: 5, character: 0 },
        document: TextDocumentIdentifier { uri: document_uri("/x/y.rs").unwrap() },
    };
    assert_eq!(
        request.to_json(),
        Some("{\"position\":{\"line\":5,\"character\":0},\"document\":{\"uri\":\"file:///x/y.rs\"}}".to_string())
    );
}

#[test]
fn cursor_request_with_the_largest_numbers() {
    let request = CursorRequest {
        position: Position { line: u32::MAX, character: 1_000_000 },
        document: TextDocumentIdentifier { uri: document_uri("/a").unwrap() },
    };
    assert_eq!(
        request.to_json(),
        Some("{\"position\":{\"line\":4294967295,\"character\":1000000},\"document\":{\"uri\":\"file:///a\"}}".to_string())
    );
}

#[test]
fn analyze_request_as_json() {
    assert_eq!((AnalyzeRequest {}).to_json(), "{}");
}

#[test]
fn notification_as_json() {
    assert_eq!(
        notification("2.0", "exit", "null"),
        Some("{\"jsonrpc\":\"2.0\",\"method\":\"exit\",\"params\":null}".to_string())
    );
    assert_eq!(
        notification("2.0", "a\"b\\c\n", "[1]"),
        Some("{\"jsonrpc\":\"2.0\",\"method\":\"a\\\"b\\\\c\\n\",\"params\":[1]}".to_string())
    );
}
