//! The operations of a cache server and what they come back with, whatever
//! the dialect they travel in.

pub mod ascii;
pub mod binary;
pub mod binary_packet;

use vstd::prelude::*;
use vstd::string::*;
use crate::error::{Fault, MemcacheError};
use crate::protocol::ascii::{AsciiProtocol, AsciiState};
use crate::protocol::binary::{BinaryProtocol, BinaryState};
use crate::text::wire;

verus! {

/// The longest key that a server takes, in bytes.
pub const MAX_KEY_LEN: usize = 250;

/// Whether a key is short enough to be sent.
pub open spec fn key_fits(key: Seq<char>) -> bool {
    wire(key).len() <= MAX_KEY_LEN
}

/// What a key that is too long is refused with.
pub open spec fn key_too_long() -> Fault {
    Fault::Client("key is too long"@)
}

/// Refuses a key of more than 250 bytes.
pub fn check_key_len(key: &str) -> (r: Result<(), MemcacheError>)
    ensures
        key_fits(key@) <==> r is Ok,
        r matches Err(e) ==> e@ == key_too_long(),
{
    if key.as_bytes().len() > MAX_KEY_LEN {
        return Err(MemcacheError::ClientError("key is too long".to_owned()));
    }
    Ok(())
}

/// Refuses a list of keys where one of them has more than 250 bytes.
pub fn check_key_lens(keys: &[&str]) -> (r: Result<(), MemcacheError>)
    ensures
        (forall|i: int| 0 <= i < keys@.len() ==> key_fits((#[trigger] keys@[i])@)) <==> r is Ok,
        r matches Err(e) ==> e@ == key_too_long(),
{
    let mut i: usize = 0;
    while i < keys.len()
        invariant
            i <= keys.len(),
            forall|j: int| 0 <= j < i ==> key_fits((#[trigger] keys@[j])@),
        decreases keys.len() - i,
    {
        let checked = check_key_len(keys[i]);
        if checked.is_err() {
            assert(!key_fits(keys@[i as int]@));
            return checked;
        }
        i += 1;
    }
    Ok(())
}

/// When a value is to be stored.
#[derive(Clone, Copy, Debug, PartialEq, Eq, Structural)]
pub enum StoreMode {
    /// Whatever is there (`set`).
    Always,
    /// Only if the key is absent (`add`).
    IfAbsent,
    /// Only if the key is present (`replace`).
    IfPresent,
    /// Behind the value that is there (`append`).
    Append,
    /// Before the value that is there (`prepend`).
    Prepend,
}

/// The kinds of exchange, by what their answer means.
#[derive(Clone, Copy, Debug, PartialEq, Eq, Structural)]
pub enum Operation {
    Auth,
    Version,
    Flush,
    Get,
    Gets,
    Store(StoreMode),
    Cas,
    Delete,
    Increment,
    Decrement,
    Touch,
    Stats,
}

/// One request, with what it carries.
#[derive(Clone, Copy, Debug)]
pub enum Command<'a> {
    Auth { username: &'a str, password: &'a str },
    Version,
    Flush,
    FlushWithDelay { delay: u32 },
    Get { key: &'a str },
    Gets { keys: &'a [&'a str] },
    Store { mode: StoreMode, key: &'a str, value: &'a [u8], flags: u32, expiration: u32 },
    Cas { key: &'a str, value: &'a [u8], flags: u32, expiration: u32, cas: u64 },
    Delete { key: &'a str },
    Increment { key: &'a str, amount: u64 },
    Decrement { key: &'a str, amount: u64 },
    Touch { key: &'a str, expiration: u32 },
    Stats,
}

impl<'a> Command<'a> {
    /// The kind of exchange that the command opens.
    pub open spec fn spec_operation(&self) -> Operation {
        match *self {
            Command::Auth { .. } => Operation::Auth,
            Command::Version => Operation::Version,
            Command::Flush => Operation::Flush,
            Command::FlushWithDelay { .. } => Operation::Flush,
            Command::Get { .. } => Operation::Get,
            Command::Gets { .. } => Operation::Gets,
            Command::Store { mode, .. } => Operation::Store(mode),
            Command::Cas { .. } => Operation::Cas,
            Command::Delete { .. } => Operation::Delete,
            Command::Increment { .. } => Operation::Increment,
            Command::Decrement { .. } => Operation::Decrement,
            Command::Touch { .. } => Operation::Touch,
            Command::Stats => Operation::Stats,
        }
    }

    /// Whether every key that the command names is short enough.
    pub open spec fn keys_fit(self) -> bool {
        match self {
            Command::Get { key } => key_fits(key@),
            Command::Gets { keys } => forall|i: int|
                0 <= i < keys@.len() ==> key_fits((#[trigger] keys@[i])@),
            Command::Store { key, .. } => key_fits(key@),
            Command::Cas { key, .. } => key_fits(key@),
            Command::Delete { key } => key_fits(key@),
            Command::Increment { key, .. } => key_fits(key@),
            Command::Decrement { key, .. } => key_fits(key@),
            Command::Touch { key, .. } => key_fits(key@),
            _ => true,
        }
    }

    /// The kind of exchange that the command opens.
    #[verifier::when_used_as_spec(spec_operation)]
    pub fn operation(&self) -> (r: Operation)
        ensures
            r == self.spec_operation(),
    {
        match self {
            Command::Auth { .. } => Operation::Auth,
            Command::Version => Operation::Version,
            Command::Flush => Operation::Flush,
            Command::FlushWithDelay { .. } => Operation::Flush,
            Command::Get { .. } => Operation::Get,
            Command::Gets { .. } => Operation::Gets,
            Command::Store { mode, .. } => Operation::Store(*mode),
            Command::Cas { .. } => Operation::Cas,
            Command::Delete { .. } => Operation::Delete,
            Command::Increment { .. } => Operation::Increment,
            Command::Decrement { .. } => Operation::Decrement,
            Command::Touch { .. } => Operation::Touch,
            Command::Stats => Operation::Stats,
        }
    }

    /// Refuses the command where one of its keys is too long.
    pub fn check_keys(&self) -> (r: Result<(), MemcacheError>)
        ensures
            self.keys_fit() <==> r is Ok,
            r matches Err(e) ==> e@ == key_too_long(),
    {
        match self {
            Command::Get { key } => check_key_len(key),
            Command::Store { key, .. } => check_key_len(key),
            Command::Cas { key, .. } => check_key_len(key),
            Command::Delete { key } => check_key_len(key),
            Command::Increment { key, .. } => check_key_len(key),
            Command::Decrement { key, .. } => check_key_len(key),
            Command::Touch { key, .. } => check_key_len(key),
            Command::Gets { keys } => check_key_lens(keys),
            _ => Ok(()),
        }
    }
}

/// A value that a server holds under a key.
#[derive(Clone, Debug, PartialEq, Eq)]
pub struct Item {
    pub key: String,
    pub value: Vec<u8>,
    /// What the value was stored with; the protocol hands it on unread.
    pub flags: u32,
    /// The version of the value, where the server told it.
    pub cas: Option<u64>,
}

/// An [`Item`] as a mathematical value.
pub struct ItemView {
    pub key: Seq<char>,
    pub value: Seq<u8>,
    pub flags: u32,
    pub cas: Option<u64>,
}

impl View for Item {
    type V = ItemView;

    open spec fn view(&self) -> ItemView {
        ItemView { key: self.key@, value: self.value@, flags: self.flags, cas: self.cas }
    }
}

/// One line of a server's statistics.
#[derive(Clone, Debug, PartialEq, Eq)]
pub struct Stat {
    pub name: String,
    pub value: String,
}

/// A [`Stat`] as a mathematical value.
pub struct StatView {
    pub name: Seq<char>,
    pub value: Seq<char>,
}

impl View for Stat {
    type V = StatView;

    open spec fn view(&self) -> StatView {
        StatView { name: self.name@, value: self.value@ }
    }
}

/// The items of `items` as mathematical values.
pub open spec fn items_view(items: Seq<Item>) -> Seq<ItemView> {
    items.map_values(|i: Item| i@)
}

/// The lines of `stats` as mathematical values.
pub open spec fn stats_view(stats: Seq<Stat>) -> Seq<StatView> {
    stats.map_values(|s: Stat| s@)
}

/// What an exchange that went well comes back with.
#[derive(Clone, Debug, PartialEq, Eq)]
pub enum Reply {
    /// The server did as it was told.
    Done,
    /// Whether the server found what the request was about.
    Flag(bool),
    /// A counter's new value.
    Counter(u64),
    /// The server's version.
    Version(String),
    /// The values found, in the order they came.
    Values(Vec<Item>),
    /// The server's statistics, in the order they came.
    Stats(Vec<Stat>),
}

/// A [`Reply`] as a mathematical value.
pub enum ReplyView {
    Done,
    Flag(bool),
    Counter(u64),
    Version(Seq<char>),
    Values(Seq<ItemView>),
    Stats(Seq<StatView>),
}

impl View for Reply {
    type V = ReplyView;

    open spec fn view(&self) -> ReplyView {
        match *self {
            Reply::Done => ReplyView::Done,
            Reply::Flag(b) => ReplyView::Flag(b),
            Reply::Counter(n) => ReplyView::Counter(n),
            Reply::Version(s) => ReplyView::Version(s@),
            Reply::Values(items) => ReplyView::Values(items_view(items@)),
            Reply::Stats(stats) => ReplyView::Stats(stats_view(stats@)),
        }
    }
}

/// How an exchange ended, as a mathematical value.
pub type Outcome = Result<ReplyView, Fault>;

/// The outcome that an exchange's result stands for.
pub open spec fn outcome_of(r: Result<Reply, MemcacheError>) -> Outcome {
    match r {
        Ok(reply) => Ok(reply@),
        Err(e) => Err(e@),
    }
}

impl Reply {
    /// The reply of an operation that has nothing to tell.
    pub fn done(self) -> (r: Result<(), MemcacheError>)
        ensures
            self@ is Done <==> r is Ok,
            r matches Err(e) ==> e@ == Fault::Protocol,
    {
        match self {
            Reply::Done => Ok(()),
            _ => Err(MemcacheError::Error),
        }
    }

    /// The reply of an operation that tells whether it found its key.
    pub fn flag(self) -> (r: Result<bool, MemcacheError>)
        ensures
            match self@ {
                ReplyView::Flag(b) => r == Ok::<bool, MemcacheError>(b),
                _ => r matches Err(e) && e@ == Fault::Protocol,
            },
    {
        match self {
            Reply::Flag(b) => Ok(b),
            _ => Err(MemcacheError::Error),
        }
    }

    /// The reply of an operation on a counter.
    pub fn counter(self) -> (r: Result<u64, MemcacheError>)
        ensures
            match self@ {
                ReplyView::Counter(n) => r == Ok::<u64, MemcacheError>(n),
                _ => r matches Err(e) && e@ == Fault::Protocol,
            },
    {
        match self {
            Reply::Counter(n) => Ok(n),
            _ => Err(MemcacheError::Error),
        }
    }

    /// The reply to a question for the version.
    pub fn version(self) -> (r: Result<String, MemcacheError>)
        ensures
            match self@ {
                ReplyView::Version(v) => r matches Ok(s) && s@ == v,
                _ => r matches Err(e) && e@ == Fault::Protocol,
            },
    {
        match self {
            Reply::Version(s) => Ok(s),
            _ => Err(MemcacheError::Error),
        }
    }

    /// The reply to a question for one key: the first value that came, if
    /// one came.
    pub fn value(self) -> (r: Result<Option<Item>, MemcacheError>)
        ensures
            match self@ {
                ReplyView::Values(items) => r matches Ok(found) && (if items.len() == 0 {
                    found is None
                } else {
                    found matches Some(item) && item@ == items[0]
                }),
                _ => r matches Err(e) && e@ == Fault::Protocol,
            },
    {
        match self {
            Reply::Values(items) => {
                let mut items = items;
                if items.len() == 0 {
                    Ok(None)
                } else {
                    let item = items.swap_remove(0);
                    Ok(Some(item))
                }
            },
            _ => Err(MemcacheError::Error),
        }
    }

    /// The reply to a question for several keys.
    pub fn values(self) -> (r: Result<Vec<Item>, MemcacheError>)
        ensures
            match self@ {
                ReplyView::Values(items) => r matches Ok(found) && items_view(found@) == items,
                _ => r matches Err(e) && e@ == Fault::Protocol,
            },
    {
        match self {
            Reply::Values(items) => Ok(items),
            _ => Err(MemcacheError::Error),
        }
    }

    /// The reply to a question for statistics.
    pub fn stats(self) -> (r: Result<Vec<Stat>, MemcacheError>)
        ensures
            match self@ {
                ReplyView::Stats(stats) => r matches Ok(found) && stats_view(found@) == stats,
                _ => r matches Err(e) && e@ == Fault::Protocol,
            },
    {
        match self {
            Reply::Stats(stats) => Ok(stats),
            _ => Err(MemcacheError::Error),
        }
    }
}

/// What the caller is to read from the connection next.
#[derive(Clone, Copy, Debug, PartialEq, Eq, Structural)]
pub enum Wanted {
    /// Nothing: no exchange is under way, or its outcome is there.
    Nothing,
    /// A line, up to and with its line feed.
    Line,
    /// A block of exactly so many bytes.
    Block(usize),
}

/// The state of a protocol as a mathematical value: the dialect, and where
/// the exchange under way stands in it.
pub enum Session {
    Ascii(AsciiState),
    Binary(BinaryState),
}

impl Session {
    /// Why `command` is not sent, where it is not: one of its keys is too
    /// long, or its value is longer than a packet of the binary dialect can
    /// tell.
    pub open spec fn refusal(self, command: Command) -> Option<Fault> {
        if !command.keys_fit() {
            Some(key_too_long())
        } else {
            match self {
                Session::Ascii(_) => None,
                Session::Binary(_) => if binary::fits(command) {
                    None
                } else {
                    Some(binary::value_too_large())
                },
            }
        }
    }

    /// The bytes that `command` is sent as.
    pub open spec fn request(self, command: Command) -> Seq<u8> {
        match self {
            Session::Ascii(_) => ascii::request(command),
            Session::Binary(state) => binary::request(command, state.opaque),
        }
    }

    /// The state after `command` was sent.
    pub open spec fn begun(self, command: Command) -> Session {
        match self {
            Session::Ascii(_) => Session::Ascii(AsciiState::begun(command)),
            Session::Binary(state) => Session::Binary(state.begun(command)),
        }
    }

    /// What is to be read from the connection next.
    pub open spec fn wants(self) -> Wanted {
        match self {
            Session::Ascii(state) => state.wants(),
            Session::Binary(state) => state.wants(),
        }
    }

    /// The state after a line was read.
    pub open spec fn after_line(self, line: Seq<char>) -> Session {
        match self {
            Session::Ascii(state) => Session::Ascii(state.after_line(line)),
            Session::Binary(state) => Session::Binary(state.after_line(line)),
        }
    }

    /// The state after a block was read.
    pub open spec fn after_block(self, block: Seq<u8>) -> Session {
        match self {
            Session::Ascii(state) => Session::Ascii(state.after_block(block)),
            Session::Binary(state) => Session::Binary(state.after_block(block)),
        }
    }

    /// How the exchange ended, where it has and the outcome was not taken.
    pub open spec fn outcome(self) -> Option<Outcome> {
        match self {
            Session::Ascii(state) => state.outcome,
            Session::Binary(state) => state.outcome,
        }
    }

    /// The state after the outcome was taken.
    pub open spec fn taken(self) -> Session {
        match self {
            Session::Ascii(state) => Session::Ascii(state.taken()),
            Session::Binary(state) => Session::Binary(state.taken()),
        }
    }

    /// What it is to begin an exchange: a command that is refused leaves the
    /// state as it was and yields the reason and no bytes; any other yields
    /// the bytes to send and the state in which its answer is awaited.
    pub open spec fn begins(
        self,
        command: Command,
        after: Session,
        r: Result<Vec<u8>, MemcacheError>,
    ) -> bool {
        match self.refusal(command) {
            Some(fault) => r matches Err(e) && e@ == fault && after == self,
            None => r matches Ok(bytes) && bytes@ == self.request(command) && after == self.begun(
                command,
            ),
        }
    }
}

/// The operations of a cache server. Each begins an exchange and hands back
/// the bytes to send; the answer is then fed in as the connection yields it,
/// line by line and block by block as `wanted` tells, until the outcome can
/// be taken. Beginning an exchange gives up the one before it.
pub trait ProtocolTrait: Sized {
    /// The state as a mathematical value.
    spec fn session(&self) -> Session;

    /// Begins the exchange that `command` opens.
    fn begin(&mut self, command: &Command) -> (r: Result<Vec<u8>, MemcacheError>)
        ensures
            old(self).session().begins(*command, final(self).session(), r),
    ;

    /// What is to be read from the connection next.
    fn wanted(&self) -> (r: Wanted)
        ensures
            r == self.session().wants(),
    ;

    /// Takes in a line that was read.
    fn accept_line(&mut self, line: &str)
        ensures
            final(self).session() == old(self).session().after_line(line@),
    ;

    /// Takes in a block that was read.
    fn accept_block(&mut self, block: Vec<u8>)
        ensures
            final(self).session() == old(self).session().after_block(block@),
    ;

    /// Takes the outcome of the exchange, once it has ended.
    fn take_reply(&mut self) -> (r: Option<Result<Reply, MemcacheError>>)
        ensures
            final(self).session() == old(self).session().taken(),
            match old(self).session().outcome() {
                Some(outcome) => r matches Some(got) && outcome_of(got) == outcome,
                None => r is None,
            },
    ;

    /// Authenticates the connection.
    fn auth(&mut self, username: &str, password: &str) -> (r: Result<Vec<u8>, MemcacheError>)
        ensures
            old(self).session().begins(
                (Command::Auth { username, password }),
                final(self).session(),
                r,
            ),
    {
        self.begin(&Command::Auth { username, password })
    }

    /// Asks for the server's version.
    fn version(&mut self) -> (r: Result<Vec<u8>, MemcacheError>)
        ensures
            old(self).session().begins(Command::Version, final(self).session(), r),
    {
        self.begin(&Command::Version)
    }

    /// Invalidates every key at once.
    fn flush(&mut self) -> (r: Result<Vec<u8>, MemcacheError>)
        ensures
            old(self).session().begins(Command::Flush, final(self).session(), r),
    {
        self.begin(&Command::Flush)
    }

    /// Invalidates every key after `delay` seconds.
    fn flush_with_delay(&mut self, delay: u32) -> (r: Result<Vec<u8>, MemcacheError>)
        ensures
            old(self).session().begins(
                (Command::FlushWithDelay { delay }),
                final(self).session(),
                r,
            ),
    {
        self.begin(&Command::FlushWithDelay { delay })
    }

    /// Asks for the value under `key`.
    fn get(&mut self, key: &str) -> (r: Result<Vec<u8>, MemcacheError>)
        ensures
            old(self).session().begins((Command::Get { key }), final(self).session(), r),
    {
        self.begin(&Command::Get { key })
    }

    /// Asks for the values under `keys`.
    fn gets(&mut self, keys: &[&str]) -> (r: Result<Vec<u8>, MemcacheError>)
        ensures
            old(self).session().begins((Command::Gets { keys }), final(self).session(), r),
    {
        self.begin(&Command::Gets { keys })
    }

    /// Stores `value` under `key`, whatever is there.
    fn set(&mut self, key: &str, value: &[u8], flags: u32, expiration: u32) -> (r: Result<
        Vec<u8>,
        MemcacheError,
    >)
        ensures
            old(self).session().begins(
                (Command::Store { mode: StoreMode::Always, key, value, flags, expiration }),
                final(self).session(),
                r,
            ),
    {
        self.begin(&Command::Store { mode: StoreMode::Always, key, value, flags, expiration })
    }

    /// Stores `value` under `key` if what is there still has the version
    /// `cas`.
    fn cas(&mut self, key: &str, value: &[u8], flags: u32, expiration: u32, cas: u64) -> (r:
        Result<Vec<u8>, MemcacheError>)
        ensures
            old(self).session().begins(
                (Command::Cas { key, value, flags, expiration, cas }),
                final(self).session(),
                r,
            ),
    {
        self.begin(&Command::Cas { key, value, flags, expiration, cas })
    }

    /// Stores `value` under `key` if nothing is there.
    fn add(&mut self, key: &str, value: &[u8], flags: u32, expiration: u32) -> (r: Result<
        Vec<u8>,
        MemcacheError,
    >)
        ensures
            old(self).session().begins(
                (Command::Store { mode: StoreMode::IfAbsent, key, value, flags, expiration }),
                final(self).session(),
                r,
            ),
    {
        self.begin(&Command::Store { mode: StoreMode::IfAbsent, key, value, flags, expiration })
    }

    /// Stores `value` under `key` if something is there.
    fn replace(&mut self, key: &str, value: &[u8], flags: u32, expiration: u32) -> (r: Result<
        Vec<u8>,
        MemcacheError,
    >)
        ensures
            old(self).session().begins(
                (Command::Store { mode: StoreMode::IfPresent, key, value, flags, expiration }),
                final(self).session(),
                r,
            ),
    {
        self.begin(&Command::Store { mode: StoreMode::IfPresent, key, value, flags, expiration })
    }

    /// Puts `value` behind the value under `key`.
    fn append(&mut self, key: &str, value: &[u8]) -> (r: Result<Vec<u8>, MemcacheError>)
        ensures
            old(self).session().begins(
                (Command::Store { mode: StoreMode::Append, key, value, flags: 0, expiration: 0 }),
                final(self).session(),
                r,
            ),
    {
        self.begin(&Command::Store { mode: StoreMode::Append, key, value, flags: 0, expiration: 0 })
    }

    /// Puts `value` before the value under `key`.
    fn prepend(&mut self, key: &str, value: &[u8]) -> (r: Result<Vec<u8>, MemcacheError>)
        ensures
            old(self).session().begins(
                (Command::Store { mode: StoreMode::Prepend, key, value, flags: 0, expiration: 0 }),
                final(self).session(),
                r,
            ),
    {
        self.begin(
            &Command::Store { mode: StoreMode::Prepend, key, value, flags: 0, expiration: 0 },
        )
    }

    /// Removes `key`.
    fn delete(&mut self, key: &str) -> (r: Result<Vec<u8>, MemcacheError>)
        ensures
            old(self).session().begins((Command::Delete { key }), final(self).session(), r),
    {
        self.begin(&Command::Delete { key })
    }

    /// Adds `amount` to the counter under `key`.
    fn increment(&mut self, key: &str, amount: u64) -> (r: Result<Vec<u8>, MemcacheError>)
        ensures
            old(self).session().begins(
                (Command::Increment { key, amount }),
                final(self).session(),
                r,
            ),
    {
        self.begin(&Command::Increment { key, amount })
    }

    /// Takes `amount` off the counter under `key`.
    fn decrement(&mut self, key: &str, amount: u64) -> (r: Result<Vec<u8>, MemcacheError>)
        ensures
            old(self).session().begins(
                (Command::Decrement { key, amount }),
                final(self).session(),
                r,
            ),
    {
        self.begin(&Command::Decrement { key, amount })
    }

    /// Gives the value under `key` a new time to live.
    fn touch(&mut self, key: &str, expiration: u32) -> (r: Result<Vec<u8>, MemcacheError>)
        ensures
            old(self).session().begins(
                (Command::Touch { key, expiration }),
                final(self).session(),
                r,
            ),
    {
        self.begin(&Command::Touch { key, expiration })
    }

    /// Asks for the server's statistics.
    fn stats(&mut self) -> (r: Result<Vec<u8>, MemcacheError>)
        ensures
            old(self).session().begins(Command::Stats, final(self).session(), r),
    {
        self.begin(&Command::Stats)
    }
}

/// A protocol in one of the two dialects. The dialect is chosen when the
/// connection is made and stays.
#[derive(Debug)]
pub enum Protocol {
    Ascii(AsciiProtocol),
    Binary(BinaryProtocol),
}

impl Protocol {
    /// A protocol in the textual dialect, with no exchange under way.
    pub fn ascii() -> (r: Protocol)
        ensures
            r.session() == Session::Ascii(AsciiState::idle()),
    {
        Protocol::Ascii(AsciiProtocol::new())
    }

    /// A protocol in the binary dialect, with no exchange under way.
    pub fn binary() -> (r: Protocol)
        ensures
            r.session() == Session::Binary(BinaryProtocol::idle()),
    {
        Protocol::Binary(BinaryProtocol::new())
    }
}

impl ProtocolTrait for Protocol {
    open spec fn session(&self) -> Session {
        match self {
            Protocol::Ascii(protocol) => protocol.session(),
            Protocol::Binary(protocol) => protocol.session(),
        }
    }

    fn begin(&mut self, command: &Command) -> (r: Result<Vec<u8>, MemcacheError>) {
        match self {
            Protocol::Ascii(protocol) => protocol.begin(command),
            Protocol::Binary(protocol) => protocol.begin(command),
        }
    }

    fn wanted(&self) -> (r: Wanted) {
        match self {
            Protocol::Ascii(protocol) => protocol.wanted(),
            Protocol::Binary(protocol) => protocol.wanted(),
        }
    }

    fn accept_line(&mut self, line: &str) {
        match self {
            Protocol::Ascii(protocol) => protocol.accept_line(line),
            Protocol::Binary(protocol) => protocol.accept_line(line),
        }
    }

    fn accept_block(&mut self, block: Vec<u8>) {
        match self {
            Protocol::Ascii(protocol) => protocol.accept_block(block),
            Protocol::Binary(protocol) => protocol.accept_block(block),
        }
    }

    fn take_reply(&mut self) -> (r: Option<Result<Reply, MemcacheError>>) {
        match self {
            Protocol::Ascii(protocol) => protocol.take_reply(),
            Protocol::Binary(protocol) => protocol.take_reply(),
        }
    }
}

/// A command that names a key of more than 250 bytes is refused in either
/// dialect with the client's fault: no bytes come back to be sent, and the
/// protocol stays as it was.
pub proof fn lemma_long_key_sends_nothing(
    before: Session,
    command: Command,
    after: Session,
    r: Result<Vec<u8>, MemcacheError>,
)
    requires
        !command.keys_fit(),
        before.begins(command, after, r),
    ensures
        r matches Err(e) && e@ == key_too_long(),
        key_too_long() is Client,
        after == before,
{
}

/// Every operation on a key names it: with a key of more than 250 bytes
/// none of them has keys that fit, and neither has a question for several
/// keys of which it is one.
pub proof fn lemma_commands_name_their_key(
    key: &str,
    keys: &[&str],
    value: &[u8],
    mode: StoreMode,
    flags: u32,
    expiration: u32,
    cas: u64,
    amount: u64,
)
    requires
        !key_fits(key@),
        exists|i: int| 0 <= i < keys@.len() && (#[trigger] keys@[i])@ == key@,
    ensures
        !(Command::Get { key }).keys_fit(),
        !(Command::Gets { keys }).keys_fit(),
        !(Command::Store { mode, key, value, flags, expiration }).keys_fit(),
        !(Command::Cas { key, value, flags, expiration, cas }).keys_fit(),
        !(Command::Delete { key }).keys_fit(),
        !(Command::Increment { key, amount }).keys_fit(),
        !(Command::Decrement { key, amount }).keys_fit(),
        !(Command::Touch { key, expiration }).keys_fit(),
{
    let i = choose|i: int| 0 <= i < keys@.len() && (#[trigger] keys@[i])@ == key@;
    assert(!key_fits(keys@[i]@));
    let command = Command::Gets { keys };
    if command.keys_fit() {
        assert(key_fits(command->keys@[i]@));
    }
}

} // verus!
