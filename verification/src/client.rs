//! What the download client asks for, and what it does with the events of a
//! connection.

use vstd::prelude::*;
use vstd::string::*;

use crate::mem_request;

verus! {

/// Where the client listens for a server at an IPv4 address, but for the port.
pub const ANY_V4: &'static str = "0.0.0.0:";

/// Where the client listens for a server at an IPv6 address, but for the port.
pub const ANY_V6: &'static str = "[::]:";

/// The digits of a number.
pub open spec fn decimal(n: nat) -> Seq<char>
    decreases n,
{
    if n < 10 {
        seq![digit(n)]
    } else {
        decimal(n / 10).push(digit(n % 10))
    }
}

/// The digit of a number less than ten.
pub open spec fn digit(n: nat) -> char {
    ('0' as nat + n) as char
}

/// The text of a digit.
fn digit_text(n: u16) -> (text: &'static str)
    requires
        n < 10,
    ensures
        text@ == seq![digit(n as nat)],
{
    proof {
        reveal_strlit("0");
        reveal_strlit("1");
        reveal_strlit("2");
        reveal_strlit("3");
        reveal_strlit("4");
        reveal_strlit("5");
        reveal_strlit("6");
        reveal_strlit("7");
        reveal_strlit("8");
        reveal_strlit("9");
    }
    match n {
        0 => "0",
        1 => "1",
        2 => "2",
        3 => "3",
        4 => "4",
        5 => "5",
        6 => "6",
        7 => "7",
        8 => "8",
        _ => "9",
    }
}

/// A number in decimal digits.
fn number_text(n: u16) -> (text: String)
    ensures
        text@ == decimal(n as nat),
    decreases n,
{
    if n < 10 {
        digit_text(n).to_owned()
    } else {
        let text = number_text(n / 10).concat(digit_text(n % 10));
        assert(decimal(n as nat / 10) + seq![digit(n as nat % 10)] =~= decimal(n as nat));
        text
    }
}

/// The address that a client binds to: any of the version of the server's,
/// with a port.
pub fn bind_address(peer_is_v4: bool, port: u16) -> (address: String)
    ensures
        address@ == (if peer_is_v4 {
            ANY_V4@
        } else {
            ANY_V6@
        }) + decimal(port as nat),
{
    let any = if peer_is_v4 {
        ANY_V4
    } else {
        ANY_V6
    };
    any.to_owned().concat(number_text(port).as_str())
}

/// The path without a leading slash.
pub open spec fn stripped(path: Seq<char>) -> Seq<char> {
    if path[0] == '/' {
        path.skip(1)
    } else {
        path
    }
}

/// The file that the path of a URL asks for: the path without its leading
/// slash.
pub fn requested_file(path: &str) -> (file: String)
    requires
        path@.len() > 0,
    ensures
        file@ == stripped(path@),
{
    let n: usize = path.unicode_len();
    if path.get_char(0) == '/' {
        assert(path@.subrange(1, n as int) =~= path@.skip(1));
        path.substring_char(1, n).to_owned()
    } else {
        path.to_owned()
    }
}

/// A header of a request.
#[derive(Debug)]
pub struct Header {
    pub name: Vec<u8>,
    pub value: Vec<u8>,
}

/// The headers of the request for a file.
pub fn request_headers(file: &str) -> (headers: Vec<Header>)
    ensures
        headers@.len() == 2,
        headers@[0].name@ == ":method".spec_bytes(),
        headers@[0].value@ == "GET".spec_bytes(),
        headers@[1].name@ == ":path".spec_bytes(),
        headers@[1].value@ == file.spec_bytes(),
{
    let mut headers: Vec<Header> = Vec::new();
    headers.push(Header { name: ":method".as_bytes_vec(), value: "GET".as_bytes_vec() });
    headers.push(Header { name: ":path".as_bytes_vec(), value: file.as_bytes_vec() });
    headers
}

/// An event of a connection.
#[derive(Clone, Copy, Debug, PartialEq, Eq, Structural)]
pub enum ClientEvent {
    /// The headers of an answer, with frames behind them.
    IncomingHeaders,
    /// Bytes of a body, the last ones where `fin` holds.
    BodyBytesReceived { fin: bool },
    /// A request that has been sent.
    NewOutboundRequest,
    /// Anything else.
    Other,
}

/// What an event calls for.
#[derive(Clone, Copy, Debug, PartialEq, Eq, Structural)]
pub enum ClientAction {
    /// To take the frames behind the headers, until one is the last.
    ReadBody,
    /// To send the next request.
    Finish,
    /// To note the event.
    Log,
    Nothing,
}

/// A frame behind the headers of an answer.
#[derive(Clone, Copy, Debug, PartialEq, Eq, Structural)]
pub enum Frame {
    /// A part of the body, the last one where `fin` holds.
    Body { fin: bool },
    Datagram,
}

/// Decides what an event calls for.
pub fn on_event(event: ClientEvent) -> (action: ClientAction)
    ensures
        action == match event {
            ClientEvent::IncomingHeaders => ClientAction::ReadBody,
            ClientEvent::BodyBytesReceived { fin } => if fin {
                ClientAction::Finish
            } else {
                ClientAction::Nothing
            },
            ClientEvent::NewOutboundRequest => ClientAction::Log,
            ClientEvent::Other => ClientAction::Nothing,
        },
{
    match event {
        ClientEvent::IncomingHeaders => ClientAction::ReadBody,
        ClientEvent::BodyBytesReceived { fin } => if fin {
            ClientAction::Finish
        } else {
            ClientAction::Nothing
        },
        ClientEvent::NewOutboundRequest => ClientAction::Log,
        ClientEvent::Other => ClientAction::Nothing,
    }
}

/// Decides whether a frame is the last of a body.
pub fn is_last(frame: Frame) -> (b: bool)
    ensures
        b == (frame == Frame::Body { fin: true }),
{
    match frame {
        Frame::Body { fin } => fin,
        Frame::Datagram => false,
    }
}

/// Leaving the slash out does not change the size that a path asks for.
pub proof fn stripping_keeps_the_size(path: Seq<char>)
    requires
        path.len() > 0,
    ensures
        mem_request::size_of(stripped(path)) == mem_request::size_of(path),
{
    if path[0] == '/' {
        mem_request::leading_text_is_ignored(seq!['/'], path.skip(1));
        assert(seq!['/'] + path.skip(1) =~= path);
    }
}

/// The address to bind to is any address of the version of the server's, a
/// colon, and the decimal digits of the port.
pub proof fn any_address_is_bound(v4: bool, port: u16, address: String)
    requires
        call_ensures(bind_address, (v4, port), address),
    ensures
        v4 ==> address@ == "0.0.0.0:"@ + mem_request::written(port as nat),
        !v4 ==> address@ == "[::]:"@ + mem_request::written(port as nat),
{
    lemma_decimal(port as nat);
}

proof fn lemma_decimal(n: nat)
    ensures
        decimal(n) =~= mem_request::written(n),
    decreases n,
{
    if n >= 10 {
        lemma_decimal(n / 10);
    }
}

/// The file of a path has no slash before it that the path has, and all the
/// rest of it.
pub proof fn one_leading_slash_is_left_out(path: &str, file: String)
    requires
        path@.len() > 0,
        call_ensures(requested_file, (path,), file),
    ensures
        path@[0] == '/' ==> path@ == seq!['/'] + file@,
        path@[0] != '/' ==> path@ == file@,
{
    if path@[0] == '/' {
        assert(seq!['/'] + path@.skip(1) =~= path@);
    }
}

/// A request has two headers: its method is GET, and its path is the file.
pub proof fn requests_get_the_file(file: &str, headers: Vec<Header>)
    requires
        call_ensures(request_headers, (file,), headers),
    ensures
        headers@.len() == 2,
        headers@[0].name@ == ":method".spec_bytes() && headers@[0].value@ == "GET".spec_bytes(),
        headers@[1].name@ == ":path".spec_bytes() && headers@[1].value@ == file.spec_bytes(),
{
}

/// Headers have their body read; the last bytes of a body, and nothing else,
/// finish a request; a request that was sent is noted; and a body ends with the
/// frame that says so.
pub proof fn requests_finish_with_their_last_bytes(
    event: ClientEvent,
    action: ClientAction,
    frame: Frame,
    last: bool,
)
    requires
        call_ensures(on_event, (event,), action),
        call_ensures(is_last, (frame,), last),
    ensures
        (action == ClientAction::ReadBody) == (event == ClientEvent::IncomingHeaders),
        (action == ClientAction::Finish) == (event == ClientEvent::BodyBytesReceived { fin: true }),
        (action == ClientAction::Log) == (event == ClientEvent::NewOutboundRequest),
        last == (frame == Frame::Body { fin: true }),
{
}

} // verus!
