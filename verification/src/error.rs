//! The failures of an exchange with a cache server, and the lines and status
//! codes by which a server reports them.

use vstd::prelude::*;
use vstd::string::*;
use vstd::utf8::*;
use crate::text::{
    append_bytes, bytes_eq, decimal, lemma_ascii_is_utf8, lemma_decimal_round_trip,
    lemma_wire_decodes, push_decimal, starts_with, text_from_utf8, wire,
};

verus! {

/// `std::io::Error`: carried from the connection to the caller, never read
/// here.
#[verifier::external_type_specification]
#[verifier::external_body]
pub struct ExIoError(std::io::Error);

/// A failed exchange.
#[derive(Debug)]
pub enum MemcacheError {
    /// The connection failed underneath.
    Io(std::io::Error),
    /// The server answered with its bare error token.
    Error,
    /// The server blames the request; the text is what it said.
    ClientError(String),
    /// The server blames itself; the text is what it said.
    ServerError(String),
}

/// What a [`MemcacheError`] says, as a mathematical value.
pub enum Fault {
    Transport(std::io::Error),
    Protocol,
    Client(Seq<char>),
    Server(Seq<char>),
}

impl View for MemcacheError {
    type V = Fault;

    open spec fn view(&self) -> Fault {
        match *self {
            MemcacheError::Io(e) => Fault::Transport(e),
            MemcacheError::Error => Fault::Protocol,
            MemcacheError::ClientError(s) => Fault::Client(s@),
            MemcacheError::ServerError(s) => Fault::Server(s@),
        }
    }
}

/// The line that is the bare error token.
pub open spec fn error_line() -> Seq<u8> {
    "ERROR\r\n".spec_bytes()
}

/// What a line that blames the client begins with.
pub open spec fn client_error_marker() -> Seq<u8> {
    "CLIENT_ERROR".spec_bytes()
}

/// What a line that blames the server begins with.
pub open spec fn server_error_marker() -> Seq<u8> {
    "SERVER_ERROR".spec_bytes()
}

/// Whether a response line reports a failure.
pub open spec fn is_error_line(line: Seq<u8>) -> bool {
    ||| line == error_line()
    ||| client_error_marker().is_prefix_of(line)
    ||| server_error_marker().is_prefix_of(line)
}

/// The failure that a response line reports. A line of none of the three
/// shapes is taken for the failure that carries no text.
pub open spec fn line_fault(line: Seq<char>) -> Fault {
    if wire(line) == error_line() {
        Fault::Protocol
    } else if client_error_marker().is_prefix_of(wire(line)) {
        Fault::Client(line)
    } else if server_error_marker().is_prefix_of(wire(line)) {
        Fault::Server(line)
    } else {
        Fault::Protocol
    }
}

/// The error that the response line `s` turns into.
pub open spec fn error_of_line(s: String) -> MemcacheError {
    if wire(s@) == error_line() {
        MemcacheError::Error
    } else if client_error_marker().is_prefix_of(wire(s@)) {
        MemcacheError::ClientError(s)
    } else if server_error_marker().is_prefix_of(wire(s@)) {
        MemcacheError::ServerError(s)
    } else {
        MemcacheError::Error
    }
}

/// The status of a binary response that succeeded.
pub const STATUS_OK: u16 = 0x0000;

/// Statuses below this one blame the request: key not found, key exists,
/// value too large, invalid arguments, item not stored, value not a number.
pub const STATUS_CLIENT_END: u16 = 0x0020;

/// Statuses from here on say that the server did not understand the command.
pub const STATUS_UNKNOWN_START: u16 = 0x0080;

/// Statuses from here on blame the server again: out of memory and the like.
pub const STATUS_UNKNOWN_END: u16 = 0x0082;

/// The text that the failure for a binary status carries: the status in
/// decimal, then a space and the message of the response where it has one
/// that is text.
pub open spec fn status_text(status: u16, message: Seq<u8>) -> Seq<char> {
    if message.len() > 0 && valid_utf8(message) {
        decode_utf8(decimal(status as nat) + seq![32u8] + message)
    } else {
        decode_utf8(decimal(status as nat))
    }
}

/// The failure that a binary status reports, by the range it lies in: the
/// client's below `0x20`, the protocol fault for `0x80` and `0x81`, the
/// server's for every other. A status of zero, which reports no failure, is
/// taken for the fault that carries no text.
pub open spec fn status_fault(status: u16, message: Seq<u8>) -> Fault {
    if STATUS_OK < status < STATUS_CLIENT_END {
        Fault::Client(status_text(status, message))
    } else if status == STATUS_OK || STATUS_UNKNOWN_START <= status < STATUS_UNKNOWN_END {
        Fault::Protocol
    } else {
        Fault::Server(status_text(status, message))
    }
}

/// `std::error::Error::description` of an I/O error. Nothing is claimed of
/// the text: it is the platform's.
#[verifier::external_body]
#[allow(deprecated)]
fn io_description(e: &std::io::Error) -> (r: &str) {
    std::error::Error::description(e)
}

/// `std::fmt::Display` of an I/O error, through `format!`. Nothing is
/// claimed of the text: it is the platform's.
#[verifier::external_body]
fn io_text(e: &std::io::Error) -> (r: String) {
    format!("{}", e)
}

impl MemcacheError {
    /// A short description of the failure.
    pub fn description(&self) -> (r: &str)
        ensures
            match self@ {
                Fault::Transport(_) => true,
                Fault::Protocol => r@ == "Error"@,
                Fault::Client(text) => r@ == text,
                Fault::Server(text) => r@ == text,
            },
    {
        match self {
            MemcacheError::Io(e) => io_description(e),
            MemcacheError::Error => "Error",
            MemcacheError::ClientError(s) => s.as_str(),
            MemcacheError::ServerError(s) => s.as_str(),
        }
    }

    /// The failure underneath, where there is one.
    pub fn cause(&self) -> (r: Option<&std::io::Error>)
        ensures
            match self@ {
                Fault::Transport(e) => r == Some(&e),
                _ => r is None,
            },
    {
        match self {
            MemcacheError::Io(e) => Some(e),
            _ => None,
        }
    }

    /// The failure as a line of text for a reader.
    pub fn to_string(&self) -> (r: String)
        ensures
            match self@ {
                Fault::Transport(_) => true,
                Fault::Protocol => r@ == "Error"@,
                Fault::Client(text) => r@ == text,
                Fault::Server(text) => r@ == text,
            },
    {
        match self {
            MemcacheError::Io(e) => io_text(e),
            MemcacheError::Error => "Error".to_owned(),
            MemcacheError::ClientError(s) => s.clone(),
            MemcacheError::ServerError(s) => s.clone(),
        }
    }

    /// The failure that the status of a binary response reports, with the
    /// message that came in the response's body.
    pub fn from_status(status: u16, message: &[u8]) -> (r: MemcacheError)
        ensures
            r@ == status_fault(status, message@),
    {
        if status == STATUS_OK || (STATUS_UNKNOWN_START <= status && status < STATUS_UNKNOWN_END) {
            return MemcacheError::Error;
        }
        let mut bytes: Vec<u8> = Vec::new();
        push_decimal(&mut bytes, status as u64);
        proof {
            lemma_decimal_round_trip(status as nat);
            lemma_ascii_is_utf8(decimal(status as nat));
        }
        if message.len() > 0 {
            let copy = vstd::slice::slice_to_vec(message);
            if text_from_utf8(copy).is_some() {
                bytes.push(32u8);
                append_bytes(&mut bytes, message);
                proof {
                    let head = decimal(status as nat) + seq![32u8];
                    assert(head =~= decimal(status as nat).push(32u8));
                    lemma_ascii_is_utf8(head);
                    valid_utf8_concat(head, message@);
                    assert(bytes@ =~= head + message@);
                }
            }
        }
        let text = text_from_utf8(bytes).unwrap();
        proof {
            lemma_wire_decodes(text@);
            assert(text@ == status_text(status, message@));
        }
        if status < STATUS_CLIENT_END {
            MemcacheError::ClientError(text)
        } else {
            MemcacheError::ServerError(text)
        }
    }
}

impl vstd::std_specs::convert::FromSpecImpl<std::io::Error> for MemcacheError {
    open spec fn obeys_from_spec() -> bool {
        true
    }

    open spec fn from_spec(e: std::io::Error) -> Self {
        MemcacheError::Io(e)
    }
}

impl From<std::io::Error> for MemcacheError {
    fn from(e: std::io::Error) -> (r: MemcacheError) {
        MemcacheError::Io(e)
    }
}

impl vstd::std_specs::convert::FromSpecImpl<String> for MemcacheError {
    open spec fn obeys_from_spec() -> bool {
        true
    }

    open spec fn from_spec(s: String) -> Self {
        error_of_line(s)
    }
}

impl From<String> for MemcacheError {
    /// The failure that the response line `s` reports.
    fn from(s: String) -> (r: MemcacheError) {
        let shape = line_shape(s.as_str());
        match shape {
            LineShape::Client => MemcacheError::ClientError(s),
            LineShape::Server => MemcacheError::ServerError(s),
            _ => MemcacheError::Error,
        }
    }
}

/// The shape of a response line, as far as failures go.
#[derive(Clone, Copy, Debug, PartialEq, Eq, Structural)]
pub enum LineShape {
    /// The bare error token.
    Token,
    /// A line that blames the client.
    Client,
    /// A line that blames the server.
    Server,
    /// Any other line.
    Other,
}

/// The shape of `line`, the first that fits.
pub open spec fn shape_of(line: Seq<u8>) -> LineShape {
    if line == error_line() {
        LineShape::Token
    } else if client_error_marker().is_prefix_of(line) {
        LineShape::Client
    } else if server_error_marker().is_prefix_of(line) {
        LineShape::Server
    } else {
        LineShape::Other
    }
}

/// Tells the shape of a response line.
pub fn line_shape(s: &str) -> (r: LineShape)
    ensures
        r == shape_of(wire(s@)),
{
    let bytes = s.as_bytes();
    if bytes_eq(bytes, "ERROR\r\n".as_bytes()) {
        LineShape::Token
    } else if starts_with(bytes, "CLIENT_ERROR".as_bytes()) {
        LineShape::Client
    } else if starts_with(bytes, "SERVER_ERROR".as_bytes()) {
        LineShape::Server
    } else {
        LineShape::Other
    }
}

/// Whether the response line `s` reports a failure.
pub fn is_memcache_error(s: &str) -> (b: bool)
    ensures
        b == is_error_line(wire(s@)),
{
    match line_shape(s) {
        LineShape::Other => false,
        _ => true,
    }
}

/// The failure of a response line that reports one, and nothing for any
/// other line.
pub fn line_error(s: &str) -> (r: Option<MemcacheError>)
    ensures
        is_error_line(wire(s@)) <==> r is Some,
        r matches Some(e) ==> e@ == line_fault(s@),
{
    match line_shape(s) {
        LineShape::Other => None,
        LineShape::Token => Some(MemcacheError::Error),
        LineShape::Client => Some(MemcacheError::ClientError(s.to_owned())),
        LineShape::Server => Some(MemcacheError::ServerError(s.to_owned())),
    }
}

/// A line has a failure's shape exactly where the predicate holds, and the
/// error made of such a line is the protocol fault for the bare token, and
/// else a client or server fault that carries the whole line.
pub proof fn lemma_error_lines_classify(s: String)
    ensures
        is_error_line(wire(s@)) <==> shape_of(wire(s@)) != LineShape::Other,
        error_of_line(s)@ == line_fault(s@),
        shape_of(wire(s@)) == LineShape::Token ==> error_of_line(s)@ == Fault::Protocol,
        shape_of(wire(s@)) == LineShape::Client ==> error_of_line(s)@ == Fault::Client(s@),
        shape_of(wire(s@)) == LineShape::Server ==> error_of_line(s)@ == Fault::Server(s@),
{
}

} // verus!
