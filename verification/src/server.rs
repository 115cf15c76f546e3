//! What the download server does with the events of a connection and with the
//! headers of a request.

use vstd::prelude::*;
use vstd::string::*;
use vstd::utf8::*;

use crate::mem_request::{self, MemRequest};
use crate::text;

verus! {

/// An event of a connection.
#[derive(Clone, Copy, Debug, PartialEq, Eq, Structural)]
pub enum ServerEvent {
    /// Headers that the connection has taken in by itself.
    IncomingHeaders,
    /// The headers of a request, to be answered.
    Headers,
    /// Anything else.
    Other,
}

/// What an event calls for.
#[derive(Clone, Copy, Debug, PartialEq, Eq, Structural)]
pub enum ServerAction {
    Nothing,
    /// To send a header with a status and a priority, and then to go through
    /// the headers of the request.
    Answer { status: u16, urgency: u8, incremental: bool },
    /// To note the event.
    Log,
}

/// The status of every answer.
pub const STATUS: u16 = 200;

/// The urgency of every answer.
pub const URGENCY: u8 = 0;

/// What an event calls for.
pub open spec fn action(event: ServerEvent) -> ServerAction {
    match event {
        ServerEvent::IncomingHeaders => ServerAction::Nothing,
        ServerEvent::Headers => ServerAction::Answer {
            status: STATUS,
            urgency: URGENCY,
            incremental: true,
        },
        ServerEvent::Other => ServerAction::Log,
    }
}

/// Decides what an event calls for.
pub fn on_event(event: ServerEvent) -> (a: ServerAction)
    ensures
        a == action(event),
{
    match event {
        ServerEvent::IncomingHeaders => ServerAction::Nothing,
        ServerEvent::Headers => ServerAction::Answer {
            status: STATUS,
            urgency: URGENCY,
            incremental: true,
        },
        ServerEvent::Other => ServerAction::Log,
    }
}

/// The byte that is written at the end of a generated file.
pub const LAST_BYTE: u8 = 0;

/// The body of an answer without a file.
pub const NOT_FOUND: &'static str = "Not Found!\r\n";

/// The body of an answer.
#[derive(Debug)]
pub struct Body {
    pub bytes: Vec<u8>,
    /// Whether nothing follows.
    pub fin: bool,
}

/// The whole body of an answer, given what the file holds, if it can be read.
pub fn answer_body(contents: Option<Vec<u8>>) -> (body: Body)
    ensures
        body.bytes@ == match contents {
            Some(bytes) => bytes@,
            None => NOT_FOUND.spec_bytes(),
        },
        body.fin,
{
    match contents {
        Some(bytes) => Body { bytes, fin: true },
        None => Body { bytes: NOT_FOUND.as_bytes_vec(), fin: true },
    }
}

/// What a header of a request calls for.
#[derive(Debug)]
pub enum HeaderStep {
    /// To create the file at the path, to write its last byte `size` bytes into
    /// it, to answer with what the file then holds, and to remove it.
    Serve { path: String, size: u64 },
    /// To create the file at the path and to give up, as the path names no
    /// size.
    CreateAndFail { path: String },
    /// To give up on the request.
    Fail,
    /// To go on to the next header.
    Skip,
    /// To note that a header of this name is not supported.
    Unsupported { name: String },
}

/// The same, with texts as sequences of characters.
pub enum HeaderDecision {
    Serve { path: Seq<char>, size: nat },
    CreateAndFail { path: Seq<char> },
    Fail,
    Skip,
    Unsupported { name: Seq<char> },
}

impl View for HeaderStep {
    type V = HeaderDecision;

    open spec fn view(&self) -> HeaderDecision {
        match *self {
            HeaderStep::Serve { path, size } => HeaderDecision::Serve {
                path: path@,
                size: size as nat,
            },
            HeaderStep::CreateAndFail { path } => HeaderDecision::CreateAndFail { path: path@ },
            HeaderStep::Fail => HeaderDecision::Fail,
            HeaderStep::Skip => HeaderDecision::Skip,
            HeaderStep::Unsupported { name } => HeaderDecision::Unsupported { name: name@ },
        }
    }
}

/// What the path of a request calls for: the bytes that it names, if they can
/// be counted.
pub open spec fn path_decision(path: Seq<char>) -> HeaderDecision {
    match mem_request::size_of(path) {
        Some(size) => if size <= u64::MAX {
            HeaderDecision::Serve { path, size }
        } else {
            HeaderDecision::Fail
        },
        None => HeaderDecision::CreateAndFail { path },
    }
}

/// What a header is required to hold, or else the request is given up.
pub open spec fn expected(value: Seq<u8>, text: &str) -> HeaderDecision {
    if value == text.spec_bytes() {
        HeaderDecision::Skip
    } else {
        HeaderDecision::Fail
    }
}

/// What a header calls for.
pub open spec fn decision(name: Seq<u8>, value: Seq<u8>) -> HeaderDecision {
    if name == ":path".spec_bytes() {
        if valid_utf8(value) {
            path_decision(decode_utf8(value))
        } else {
            HeaderDecision::Fail
        }
    } else if name == ":method".spec_bytes() {
        expected(value, "GET")
    } else if name == ":scheme".spec_bytes() {
        expected(value, "http")
    } else if name == ":authority".spec_bytes() || name == "user-agent".spec_bytes() {
        HeaderDecision::Skip
    } else if valid_utf8(name) {
        HeaderDecision::Unsupported { name: decode_utf8(name) }
    } else {
        HeaderDecision::Fail
    }
}

/// Decides what the path of a request calls for, given the text that it
/// encodes, if any.
pub fn on_path(path: Option<String>) -> (step: HeaderStep)
    ensures
        step@ == match path {
            Some(text) => path_decision(text@),
            None => HeaderDecision::Fail,
        },
{
    match path {
        Some(path) => match MemRequest::from_any(path.as_str()) {
            Some(Ok(request)) => HeaderStep::Serve { path, size: request.0 },
            Some(Err(_)) => HeaderStep::CreateAndFail { path },
            None => HeaderStep::Fail,
        },
        None => HeaderStep::Fail,
    }
}

/// Decides what a header calls for.
pub fn on_header(name: &[u8], value: &[u8]) -> (step: HeaderStep)
    ensures
        step@ == decision(name@, value@),
{
    if text::is_text(name, ":path") {
        on_path(text::from_utf8(value))
    } else if text::is_text(name, ":method") {
        on_expected(value, "GET")
    } else if text::is_text(name, ":scheme") {
        on_expected(value, "http")
    } else if text::is_text(name, ":authority") || text::is_text(name, "user-agent") {
        HeaderStep::Skip
    } else {
        match text::from_utf8(name) {
            Some(name) => HeaderStep::Unsupported { name },
            None => HeaderStep::Fail,
        }
    }
}

/// Decides whether a header holds what is required.
fn on_expected(value: &[u8], text: &str) -> (step: HeaderStep)
    ensures
        step@ == expected(value@, text),
{
    if text::is_text(value, text) {
        HeaderStep::Skip
    } else {
        HeaderStep::Fail
    }
}

/// The two headers of a client's request for a file are answered by what the
/// file's name asks for: the method is accepted, and the path is read as it was
/// written.
pub proof fn request_is_read_as_written(file: &str)
    ensures
        decision(":method".spec_bytes(), "GET".spec_bytes()) == HeaderDecision::Skip,
        decision(":path".spec_bytes(), file.spec_bytes()) == path_decision(file@),
{
    reveal_strlit(":path");
    reveal_strlit(":method");
    assert(is_ascii_chars(":path"@));
    assert(is_ascii_chars(":method"@));
    is_ascii_chars_encode_utf8(":path"@);
    is_ascii_chars_encode_utf8(":method"@);
    encode_utf8_valid_utf8(file@);
    encode_utf8_decode_utf8(file@);
}

/// The path of a request is served with the size that it names. A path without
/// one has its file created and fails, and one that is no text, or whose size
/// cannot be counted, fails at once.
pub proof fn paths_are_served_with_their_size(
    name: &[u8],
    value: &[u8],
    step: HeaderStep,
    path: &str,
    size: Option<Result<MemRequest, ()>>,
)
    requires
        name@ == ":path".spec_bytes(),
        call_ensures(on_header, (name, value), step),
        valid_utf8(value@) ==> path@ == decode_utf8(value@),
        call_ensures(MemRequest::from_any, (path,), size),
    ensures
        !valid_utf8(value@) ==> step is Fail,
        valid_utf8(value@) && size is None ==> step is Fail,
        valid_utf8(value@) && size is Some && size->0 is Err ==> (
        step matches HeaderStep::CreateAndFail { path: p } && p@ == path@),
        valid_utf8(value@) && size is Some && size->0 is Ok ==> (
        step matches HeaderStep::Serve { path: p, size: n } && p@ == path@ && n
            == size->0->Ok_0.0),
{
}

/// No two of the names that are told apart are the same.
proof fn lemma_names_differ()
    ensures
        ":method".spec_bytes() != ":path".spec_bytes(),
        ":scheme".spec_bytes() != ":path".spec_bytes(),
        ":scheme".spec_bytes() != ":method".spec_bytes(),
        ":authority".spec_bytes() != ":path".spec_bytes(),
        ":authority".spec_bytes() != ":method".spec_bytes(),
        ":authority".spec_bytes() != ":scheme".spec_bytes(),
        "user-agent".spec_bytes() != ":path".spec_bytes(),
        "user-agent".spec_bytes() != ":method".spec_bytes(),
        "user-agent".spec_bytes() != ":scheme".spec_bytes(),
{
    reveal_strlit(":path");
    reveal_strlit(":method");
    reveal_strlit(":scheme");
    reveal_strlit(":authority");
    reveal_strlit("user-agent");
    assert(is_ascii_chars(":path"@));
    assert(is_ascii_chars(":method"@));
    assert(is_ascii_chars(":scheme"@));
    assert(is_ascii_chars(":authority"@));
    assert(is_ascii_chars("user-agent"@));
    is_ascii_chars_encode_utf8(":path"@);
    is_ascii_chars_encode_utf8(":method"@);
    is_ascii_chars_encode_utf8(":scheme"@);
    is_ascii_chars_encode_utf8(":authority"@);
    is_ascii_chars_encode_utf8("user-agent"@);
    assert(":method".spec_bytes()[1] == ":method"@[1] as u8);
    assert(":scheme".spec_bytes()[1] == ":scheme"@[1] as u8);
}

/// A method other than GET and a scheme other than http fail; an authority and
/// a user agent are passed over, whatever they are; and any other header is not
/// supported, by its name, or fails where its name is no text.
pub proof fn other_headers_are_checked_or_passed_over(
    name: &[u8],
    value: &[u8],
    step: HeaderStep,
)
    requires
        call_ensures(on_header, (name, value), step),
    ensures
        name@ == ":method".spec_bytes() ==> if value@ == "GET".spec_bytes() {
            step is Skip
        } else {
            step is Fail
        },
        name@ == ":scheme".spec_bytes() ==> if value@ == "http".spec_bytes() {
            step is Skip
        } else {
            step is Fail
        },
        name@ == ":authority".spec_bytes() || name@ == "user-agent".spec_bytes() ==> step is Skip,
        name@ != ":path".spec_bytes() && name@ != ":method".spec_bytes() && name@
            != ":scheme".spec_bytes() && name@ != ":authority".spec_bytes() && name@
            != "user-agent".spec_bytes() ==> if valid_utf8(name@) {
            step matches HeaderStep::Unsupported { name: n } && n@ == decode_utf8(name@)
        } else {
            step is Fail
        },
{
    lemma_names_differ();
}

/// Requests are answered with the status 200, before all others of their kind
/// and in parts; other events are noted or passed over. A body is what the file
/// holds, or a notice, and nothing follows it.
pub proof fn requests_are_answered(
    event: ServerEvent,
    a: ServerAction,
    contents: Option<Vec<u8>>,
    body: Body,
    path: Option<String>,
    step: HeaderStep,
)
    requires
        call_ensures(on_event, (event,), a),
        call_ensures(answer_body, (contents,), body),
        call_ensures(on_path, (path,), step),
    ensures
        event == ServerEvent::Headers ==> a == (ServerAction::Answer {
            status: 200,
            urgency: 0,
            incremental: true,
        }),
        event == ServerEvent::IncomingHeaders ==> a == ServerAction::Nothing,
        event == ServerEvent::Other ==> a == ServerAction::Log,
        contents matches Some(bytes) ==> body.bytes@ == bytes@,
        contents is None ==> body.bytes@ == "Not Found!\r\n".spec_bytes(),
        body.fin,
        path is None ==> step is Fail,
{
}

} // verus!
