//! The calls into the JSON and protocol crates. Each function that makes
//! such a call hands plain values to one of them and hands plain values back;
//! none of these is proved, and each says above its contract what it takes on
//! trust.

use vstd::prelude::*;
use vstd::utf8::decode_utf8;
use vstd::utf8::valid_utf8;
use lsp_types::Url;
use crate::decimal::ascii_text;
use crate::decimal::decimal;
use crate::message::Message;
use crate::message::MessageView;

verus! {

/// The view of an optional text.
pub open spec fn text_view(text: Option<String>) -> Option<Seq<char>> {
    match text {
        Some(t) => Some(t@),
        None => None,
    }
}

/// The text that `bytes` hold, where they are well-formed UTF-8.
///
/// Trusted, not proved: `core::str::from_utf8` accepts exactly the well-formed
/// byte sequences and hands them back unchanged as text.
#[verifier::external_body]
pub(crate) fn text_of(bytes: &[u8]) -> (r: Option<&str>)
    ensures
        match r {
            Some(text) => valid_utf8(bytes@) && text@ == decode_utf8(bytes@),
            None => !valid_utf8(bytes@),
        },
{
    core::str::from_utf8(bytes).ok()
}

/// What a JSON parser reads of `body`: nothing where `body` is not one JSON
/// value, else the members named `id_key` and `result_key` of that value.
pub uninterp spec fn parsed_message(
    body: Seq<char>,
    id_key: Seq<char>,
    result_key: Seq<char>,
) -> Option<MessageView>;

/// Parses `body` with `serde_json::from_str` into a `serde_json::Value`, and
/// reads two members of it: the one named `id_key` through `Value::as_u64`,
/// the one named `result_key` as its compact JSON text.
///
/// Trusted, not proved. The contract claims only that what comes back depends
/// on the three texts alone.
#[verifier::external_body]
pub(crate) fn parse_message(body: &str, id_key: &str, result_key: &str) -> (r: Option<Message>)
    ensures
        match r {
            Some(m) => parsed_message(body@, id_key@, result_key@) == Some(m@),
            None => parsed_message(body@, id_key@, result_key@) is None,
        },
{
    let value: serde_json::Value = serde_json::from_str(body).ok()?;
    let id = value.get(id_key).and_then(serde_json::Value::as_u64);
    let result = value.get(result_key).map(serde_json::Value::to_string);
    Some(Message { id, result })
}

/// The JSON string literal that stands for `text`, quotes and escapes
/// included.
pub uninterp spec fn json_string(text: Seq<char>) -> Option<Seq<char>>;

/// Writes `text` as a JSON string literal with `serde_json::to_string`.
///
/// Trusted, not proved. The contract claims only that what comes back depends
/// on `text` alone.
#[verifier::external_body]
pub(crate) fn quote(text: &str) -> (r: Option<String>)
    ensures
        text_view(r) == json_string(text@),
{
    serde_json::to_string(text).ok()
}

/// The whole number `n` in decimal, with a minus sign where it is negative.
pub open spec fn int_text(n: int) -> Seq<char> {
    if n < 0 {
        "-"@ + ascii_text(decimal((-n) as nat))
    } else {
        ascii_text(decimal(n as nat))
    }
}

/// The JSON value that the text `params` holds, without white space around
/// it. A text that is not one JSON value holds none.
pub uninterp spec fn raw_json(params: Seq<char>) -> Option<Seq<char>>;

/// The JSON text of a JSON-RPC request: an object with the members
/// `method`, `params`, `id` and `jsonrpc`, in this order. The method and the
/// version are JSON strings, the parameters stand as they are, and the
/// identifier is a number.
pub open spec fn request_text(version: Seq<char>, id: i32, method: Seq<char>, params: Seq<char>)
    -> Option<Seq<char>> {
    match (json_string(method), raw_json(params), json_string(version)) {
        (Some(method), Some(params), Some(version)) => Some(
            "{\"method\":"@ + method + ",\"params\":"@ + params + ",\"id\":"@ + int_text(
                id as int,
            ) + ",\"jsonrpc\":"@ + version + "}"@,
        ),
        _ => None,
    }
}

/// Writes a `jsonrpc::Request` with `serde_json::to_string`. Its `params`
/// are what `RawValue::from_string` makes of the text `params`, its `id` is
/// the number `id`.
///
/// Trusted, not proved. The contract claims that the raw value depends on
/// `params` alone and that there is no request without it; that the request is
/// written as an object of its four fields in the order in which the type
/// declares them, the raw value as it is, the number in decimal; and that the
/// two texts are written as `serde_json::to_string` writes a text.
#[verifier::external_body]
pub(crate) fn request(version: &str, id: i32, method: &str, params: &str) -> (r: Option<String>)
    ensures
        text_view(r) == request_text(version@, id, method@, params@),
        raw_json(params@) is None ==> r is None,
{
    let raw = serde_json::value::RawValue::from_string(params.to_owned()).ok()?;
    let request = jsonrpc::Request {
        method,
        params: Some(&raw),
        id: serde_json::Value::from(id),
        jsonrpc: Some(version),
    };
    serde_json::to_string(&request).ok()
}

/// The name of the handshake request.
///
/// Trusted, not proved: `lsp_types` gives `initialize` as the method of its
/// `Initialize` request.
#[verifier::external_body]
pub(crate) fn initialize_method() -> (r: &'static str)
    ensures
        r@ == "initialize"@,
{
    <lsp_types::request::Initialize as lsp_types::request::Request>::METHOD
}

/// The name of the notification that registers a document.
///
/// Trusted, not proved: `lsp_types` gives `textDocument/didOpen` as the method
/// of its `DidOpenTextDocument` notification.
#[verifier::external_body]
pub(crate) fn did_open_method() -> (r: &'static str)
    ensures
        r@ == "textDocument/didOpen"@,
{
    <lsp_types::notification::DidOpenTextDocument as lsp_types::notification::Notification>::METHOD
}

/// The JSON text of the parameters of a handshake by a client that names no
/// process, no root and no workspace folders, and claims one capability: that
/// it synchronises documents, with dynamic registration or without.
pub open spec fn initialize_params_text(dynamic_registration: bool) -> Seq<char> {
    "{\"processId\":null,\"rootUri\":null,\"capabilities\":{\"textDocument\":{\"synchronization\":{\"dynamicRegistration\":"@
        + (if dynamic_registration {
        "true"@
    } else {
        "false"@
    }) + "}}}}"@
}

/// Writes an `lsp_types::InitializeParams` with `serde_json::to_string`.
/// Every field has its default but the dynamic registration of document
/// synchronisation among the capabilities of the client.
///
/// Trusted, not proved. The contract claims that the writing succeeds, and
/// that the text holds the two members that the type always writes, as `null`,
/// and the capabilities with nothing but the one that was set.
#[verifier::external_body]
pub(crate) fn initialize_params(dynamic_registration: bool) -> (r: Option<String>)
    ensures
        text_view(r) == Some(initialize_params_text(dynamic_registration)),
{
    let synchronization = lsp_types::TextDocumentSyncClientCapabilities {
        dynamic_registration: Some(dynamic_registration),
        ..Default::default()
    };
    let text_document = lsp_types::TextDocumentClientCapabilities {
        synchronization: Some(synchronization),
        ..Default::default()
    };
    let capabilities = lsp_types::ClientCapabilities {
        text_document: Some(text_document),
        ..Default::default()
    };
    let params = lsp_types::InitializeParams { capabilities, ..Default::default() };
    serde_json::to_string(&params).ok()
}

/// A URI as the protocol types hold it. Nothing is known of what is inside.
#[verifier::external_type_specification]
#[verifier::external_body]
pub struct ExUrl(Url);

/// The URI of a document: the value that the protocol types take, and beside
/// it the text that it is written as. The two are only ever made together, from
/// one path, so that the text is that of the value.
#[derive(Debug, PartialEq, Eq)]
pub struct Uri {
    url: Url,
    text: String,
}

impl View for Uri {
    type V = Seq<char>;

    closed spec fn view(&self) -> Seq<char> {
        self.text@
    }
}

impl Uri {
    /// The text of the URI.
    pub fn as_str(&self) -> (r: &str)
        ensures
            r@ == self@,
    {
        self.text.as_str()
    }
}

/// The text of the `file` URI of the absolute path `path`. A path that is
/// not absolute has none.
pub uninterp spec fn file_uri(path: Seq<char>) -> Option<Seq<char>>;

/// Turns a path into a URI with `Url::from_file_path`, and keeps the text of
/// the URI beside it.
///
/// Trusted, not proved. The contract claims only that whether there is a URI,
/// and what its text is, depends on `path` alone; the conversion follows the
/// path rules of the system that the crate is built for.
#[verifier::external_body]
pub(crate) fn to_uri(path: &str) -> (r: Option<Uri>)
    ensures
        match r {
            Some(uri) => file_uri(path@) == Some(uri@),
            None => file_uri(path@) is None,
        },
{
    let url = Url::from_file_path(path).ok()?;
    Some(Uri { text: url.as_str().to_owned(), url })
}

/// The JSON text of the parameters that register a document: an object
/// whose member `textDocument` holds the language, the full text, the URI and
/// the version of the document, in this order.
pub open spec fn did_open_params_text(
    uri: Seq<char>,
    language_id: Seq<char>,
    version: i32,
    text: Seq<char>,
) -> Option<Seq<char>> {
    match (json_string(language_id), json_string(text), json_string(uri)) {
        (Some(language_id), Some(text), Some(uri)) => Some(
            "{\"textDocument\":{\"languageId\":"@ + language_id + ",\"text\":"@ + text
                + ",\"uri\":"@ + uri + ",\"version\":"@ + int_text(version as int) + "}}"@,
        ),
        _ => None,
    }
}

/// Turns an `lsp_types::DidOpenTextDocumentParams` into a JSON value with
/// `serde_json::to_value` and writes that value out.
///
/// Trusted, not proved. The contract claims that the value is an object in
/// an object, that its members are written in the order of their names, the
/// two texts and the text of the URI as `serde_json::to_string` writes a
/// text, and the number in decimal.
#[verifier::external_body]
pub(crate) fn did_open_params(uri: &Uri, language_id: &str, version: i32, text: &str) -> (r:
    Option<String>)
    ensures
        text_view(r) == did_open_params_text(uri@, language_id@, version, text@),
{
    let text_document = lsp_types::TextDocumentItem {
        uri: uri.url.clone(),
        language_id: language_id.to_owned(),
        version,
        text: text.to_owned(),
    };
    let params = lsp_types::DidOpenTextDocumentParams { text_document };
    let value = serde_json::to_value(&params).ok()?;
    Some(value.to_string())
}

/// The JSON text of a position: an object whose members `line` and
/// `character` hold the two numbers in decimal.
pub open spec fn position_text(line: u32, character: u32) -> Seq<char> {
    "{\"line\":"@ + ascii_text(decimal(line as nat)) + ",\"character\":"@ + ascii_text(
        decimal(character as nat),
    ) + "}"@
}

/// Writes an `lsp_types::Position` with `serde_json::to_string`.
///
/// Trusted, not proved. The contract claims that the writing succeeds, and
/// that the text is the object with the members `line` and `character` in this
/// order.
#[verifier::external_body]
pub(crate) fn position(line: u32, character: u32) -> (r: Option<String>)
    ensures
        text_view(r) == Some(position_text(line, character)),
{
    serde_json::to_string(&lsp_types::Position { line, character }).ok()
}

/// The JSON text of the identifier of the document at the URI with the text
/// `uri`: an object whose member `uri` holds that text.
pub open spec fn document_text(uri: Seq<char>) -> Option<Seq<char>> {
    match json_string(uri) {
        Some(uri) => Some("{\"uri\":"@ + uri + "}"@),
        None => None,
    }
}

/// Writes an `lsp_types::TextDocumentIdentifier` with
/// `serde_json::to_string`.
///
/// Trusted, not proved. The contract claims that the text is an object with
/// the one member `uri`, and that a URI is written as `serde_json::to_string`
/// writes its text.
#[verifier::external_body]
pub(crate) fn document(uri: &Uri) -> (r: Option<String>)
    ensures
        text_view(r) == document_text(uri@),
{
    serde_json::to_string(&lsp_types::TextDocumentIdentifier { uri: uri.url.clone() }).ok()
}

} // verus!
