//! The four messages of an analysis session, each as a frame that is ready to
//! be written to the peer.

use vstd::prelude::*;
use vstd::string::StringExecFns;
use vstd::utf8::encode_utf8;
use crate::decimal::ascii_text;
use crate::frame::frame_header;
use crate::frame::make_payload;
use crate::wire::did_open_method;
use crate::wire::did_open_params;
use crate::wire::did_open_params_text;
use crate::wire::document;
use crate::wire::document_text;
use crate::wire::file_uri;
use crate::wire::initialize_method;
use crate::wire::initialize_params;
use crate::wire::initialize_params_text;
use crate::wire::json_string;
use crate::wire::position;
use crate::wire::position_text;
use crate::wire::quote;
use crate::wire::request;
use crate::wire::request_text;
use crate::wire::to_uri;
use crate::wire::Uri;

verus! {

/// Why a message could not be built.
#[derive(Clone, Copy, Debug, PartialEq, Eq, Structural)]
pub enum BuildError {
    /// The path of the document has no `file` URI: it is not absolute.
    Location,
    /// A part of the message could not be written as JSON.
    Encoding,
}

/// A zero-based position in a document.
#[derive(Clone, Copy, Debug, PartialEq, Eq, Structural)]
pub struct Position {
    pub line: u32,
    pub character: u32,
}

/// The document that a request is about, named by its URI.
#[derive(Debug, PartialEq, Eq)]
pub struct TextDocumentIdentifier {
    pub uri: Uri,
}

/// The parameters of a position query: a cursor position and the document
/// in which it stands.
#[derive(Debug, PartialEq, Eq)]
pub struct CursorRequest {
    pub position: Position,
    pub document: TextDocumentIdentifier,
}

/// The parameters of an analysis trigger: there are none.
#[derive(Clone, Copy, Debug, PartialEq, Eq, Structural)]
pub struct AnalyzeRequest {}

/// The frame that carries the text `body`.
pub open spec fn framed(body: Seq<char>) -> Seq<char> {
    ascii_text(frame_header(encode_utf8(body).len())) + body
}

/// The JSON text of the parameters of a position query: an object whose
/// member `position` holds the position and whose member `document` holds the
/// identifier of the document.
pub open spec fn cursor_params_text(line: u32, character: u32, uri: Seq<char>) -> Option<
    Seq<char>,
> {
    match document_text(uri) {
        Some(document) => Some(
            "{\"position\":"@ + position_text(line, character) + ",\"document\":"@ + document
                + "}"@,
        ),
        None => None,
    }
}

/// The JSON text of a notification: an object with the members `jsonrpc`,
/// `method` and `params`, in this order, and no `id`.
pub open spec fn notification_text(version: Seq<char>, method: Seq<char>, params: Seq<char>)
    -> Option<Seq<char>> {
    match (json_string(version), json_string(method)) {
        (Some(version), Some(method)) => Some(
            "{\"jsonrpc\":"@ + version + ",\"method\":"@ + method + ",\"params\":"@ + params
                + "}"@,
        ),
        _ => None,
    }
}

/// The body of the handshake request with identifier `id`: a request in
/// version 2.0 of the protocol to the method `initialize`, by a client that
/// names no workspace and synchronises documents with dynamic registration.
pub open spec fn init_body(id: i32) -> Option<Seq<char>> {
    request_text("2.0"@, id, "initialize"@, initialize_params_text(true))
}

/// The body of the notification that registers the document at the URI
/// with the text `uri`, with `source` as its full text: a Rust document in its
/// first version.
pub open spec fn did_open_body_at(uri: Seq<char>, source: Seq<char>) -> Option<Seq<char>> {
    match did_open_params_text(uri, "rust"@, 1, source) {
        Some(params) => notification_text("2.0"@, "textDocument/didOpen"@, params),
        None => None,
    }
}

/// The body of the notification that registers the document at `path`.
pub open spec fn did_open_body(path: Seq<char>, source: Seq<char>) -> Result<
    Seq<char>,
    BuildError,
> {
    match file_uri(path) {
        None => Err(BuildError::Location),
        Some(uri) => match did_open_body_at(uri, source) {
            Some(body) => Ok(body),
            None => Err(BuildError::Encoding),
        },
    }
}

/// The body of the analysis trigger with identifier `id`.
pub open spec fn analyze_body(id: i32) -> Option<Seq<char>> {
    request_text("2.0"@, id, "rustowl/analyze"@, "{}"@)
}

/// The body of the position query with identifier `id` about the document
/// at the URI with the text `uri`.
pub open spec fn cursor_body_at(id: i32, uri: Seq<char>, line: u32, character: u32) -> Option<
    Seq<char>,
> {
    match cursor_params_text(line, character, uri) {
        Some(params) => request_text("2.0"@, id, "rustowl/cursor"@, params),
        None => None,
    }
}

/// The body of the position query with identifier `id` about the document
/// at `path`.
pub open spec fn cursor_body(id: i32, path: Seq<char>, line: u32, character: u32) -> Result<
    Seq<char>,
    BuildError,
> {
    match file_uri(path) {
        None => Err(BuildError::Location),
        Some(uri) => match cursor_body_at(id, uri, line, character) {
            Some(body) => Ok(body),
            None => Err(BuildError::Encoding),
        },
    }
}

impl AnalyzeRequest {
    /// The JSON text of these parameters: the empty object.
    pub fn to_json(&self) -> (r: String)
        ensures
            r@ == "{}"@,
    {
        "{}".to_owned()
    }
}

impl CursorRequest {
    /// The JSON text of these parameters, where each part can be written.
    pub fn to_json(&self) -> (r: Option<String>)
        ensures
            match r {
                Some(text) => cursor_params_text(
                    self.position.line,
                    self.position.character,
                    self.document.uri@,
                ) == Some(text@),
                None => cursor_params_text(
                    self.position.line,
                    self.position.character,
                    self.document.uri@,
                ) is None,
            },
    {
        let position = match position(self.position.line, self.position.character) {
            Some(text) => text,
            None => {
                return None;
            },
        };
        let document = match document(&self.document.uri) {
            Some(text) => text,
            None => {
                return None;
            },
        };
        let mut out = "{\"position\":".to_owned();
        out.append(position.as_str());
        out.append(",\"document\":");
        out.append(document.as_str());
        out.append("}");
        Some(out)
    }
}

/// Writes a notification: the version of the protocol, the method and the
/// parameters, which are JSON text already. A notification has no `id`.
pub fn notification(version: &str, method: &str, params: &str) -> (r: Option<String>)
    ensures
        match r {
            Some(text) => notification_text(version@, method@, params@) == Some(text@),
            None => notification_text(version@, method@, params@) is None,
        },
{
    let version = match quote(version) {
        Some(text) => text,
        None => {
            return None;
        },
    };
    let method = match quote(method) {
        Some(text) => text,
        None => {
            return None;
        },
    };
    let mut out = "{\"jsonrpc\":".to_owned();
    out.append(version.as_str());
    out.append(",\"method\":");
    out.append(method.as_str());
    out.append(",\"params\":");
    out.append(params);
    out.append("}");
    Some(out)
}

/// Frames `body`, or reports that there is none to frame.
fn frame_of(body: Option<String>) -> (r: Result<String, BuildError>)
    ensures
        match r {
            Ok(frame) => body matches Some(text) && frame@ == framed(text@),
            Err(e) => body is None && e == BuildError::Encoding,
        },
{
    match body {
        Some(text) => Ok(make_payload(text.as_str())),
        None => Err(BuildError::Encoding),
    }
}

/// The handshake request with identifier `id`, framed.
///
/// It speaks version 2.0 of the protocol, announces a client whose one
/// capability is the dynamic registration of document synchronisation, and
/// names no workspace: `cwd` is taken and not sent.
pub fn init(id: i32, cwd: &str) -> (r: Result<String, BuildError>)
    ensures
        match r {
            Ok(frame) => init_body(id) matches Some(body) && frame@ == framed(body),
            Err(e) => init_body(id) is None && e == BuildError::Encoding,
        },
{
    let body = match initialize_params(true) {
        Some(params) => request("2.0", id, initialize_method(), params.as_str()),
        None => None,
    };
    frame_of(body)
}

/// The URI of the document at the absolute path `path`. A path that is not
/// absolute has none.
pub fn document_uri(path: &str) -> (r: Option<Uri>)
    ensures
        match r {
            Some(uri) => file_uri(path@) == Some(uri@),
            None => file_uri(path@) is None,
        },
{
    to_uri(path)
}

/// The notification that registers the document at `uri`, framed.
pub fn did_open_at(uri: &Uri, source: &str) -> (r: Result<String, BuildError>)
    ensures
        match r {
            Ok(frame) => did_open_body_at(uri@, source@) matches Some(body) && frame@
                == framed(body),
            Err(e) => did_open_body_at(uri@, source@) is None && e
                == BuildError::Encoding,
        },
{
    let body = match did_open_params(uri, "rust", 1, source) {
        Some(params) => notification("2.0", did_open_method(), params.as_str()),
        None => None,
    };
    frame_of(body)
}

/// The notification that registers the document at `path`, framed: a Rust
/// document in its first version, with `source` as its full text.
pub fn did_open(path: &str, source: String) -> (r: Result<String, BuildError>)
    ensures
        match r {
            Ok(frame) => did_open_body(path@, source@) matches Ok(body) && frame@ == framed(body),
            Err(e) => did_open_body(path@, source@) == Err::<Seq<char>, BuildError>(e),
        },
{
    match to_uri(path) {
        Some(uri) => did_open_at(&uri, source.as_str()),
        None => Err(BuildError::Location),
    }
}

/// The analysis trigger with identifier `id`, framed: a request to the
/// method `rustowl/analyze` with an empty object as its parameters.
pub fn analyze(id: i32) -> (r: Result<String, BuildError>)
    ensures
        match r {
            Ok(frame) => analyze_body(id) matches Some(body) && frame@ == framed(body),
            Err(e) => analyze_body(id) is None && e == BuildError::Encoding,
        },
{
    let params = (AnalyzeRequest {  }).to_json();
    frame_of(request("2.0", id, "rustowl/analyze", params.as_str()))
}

/// The position query with identifier `id` about the document at `uri`,
/// framed.
pub fn cursor_at(id: i32, uri: Uri, line: u32, character: u32) -> (r: Result<String, BuildError>)
    ensures
        match r {
            Ok(frame) => cursor_body_at(id, uri@, line, character) matches Some(body)
                && frame@ == framed(body),
            Err(e) => cursor_body_at(id, uri@, line, character) is None && e
                == BuildError::Encoding,
        },
{
    let cursor = CursorRequest {
        position: Position { line, character },
        document: TextDocumentIdentifier { uri },
    };
    let body = match cursor.to_json() {
        Some(params) => request("2.0", id, "rustowl/cursor", params.as_str()),
        None => None,
    };
    frame_of(body)
}

/// The position query with identifier `id`, framed: a request to the method
/// `rustowl/cursor` for what the analysis knows at a zero-based line and
/// character of the document at `path`.
pub fn cursor(id: i32, path: &str, line: u32, character: u32) -> (r: Result<String, BuildError>)
    ensures
        match r {
            Ok(frame) => cursor_body(id, path@, line, character) matches Ok(body) && frame@
                == framed(body),
            Err(e) => cursor_body(id, path@, line, character) == Err::<Seq<char>, BuildError>(e),
        },
{
    match to_uri(path) {
        Some(uri) => cursor_at(id, uri, line, character),
        None => Err(BuildError::Location),
    }
}

} // verus!
