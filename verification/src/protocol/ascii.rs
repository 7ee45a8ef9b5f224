//! The textual dialect: commands and answers are lines of ASCII words that
//! end in a carriage return and a line feed; values travel as blocks of a
//! length that the line before them gives.

use vstd::prelude::*;
use vstd::string::*;
use vstd::utf8::*;
use crate::error::{
    client_error_marker, is_error_line, line_error, line_fault, server_error_marker, Fault,
    MemcacheError,
};
use crate::protocol::{
    items_view, outcome_of, stats_view, Command, Item, ItemView, Operation, Outcome,
    ProtocolTrait, Reply, ReplyView, Session, Stat, StatView, StoreMode, Wanted,
};
use crate::text::{
    append_bytes, bytes_eq, decimal, find_byte, index_of, lemma_decimal_round_trip,
    lemma_index_of, lemma_index_of_unique, lemma_wire_decodes, parse_decimal, parse_u64,
    push_decimal, slice_str, starts_with, wire,
};

verus! {

/// The byte between the words of a line.
pub const SPACE: u8 = 32;

/// The carriage return that ends a line, before its line feed.
pub const CR: u8 = 13;

/// The line feed that ends a line.
pub const LF: u8 = 10;

/// One space.
pub open spec fn space() -> Seq<u8> {
    seq![SPACE]
}

/// The end of a line.
pub open spec fn crlf() -> Seq<u8> {
    seq![CR, LF]
}

/// The command word of a store.
pub open spec fn store_word(mode: StoreMode) -> Seq<u8> {
    match mode {
        StoreMode::Always => "set".spec_bytes(),
        StoreMode::IfAbsent => "add".spec_bytes(),
        StoreMode::IfPresent => "replace".spec_bytes(),
        StoreMode::Append => "append".spec_bytes(),
        StoreMode::Prepend => "prepend".spec_bytes(),
    }
}

/// The version of a compare-and-swap, as the last word of its line.
pub open spec fn cas_word(cas: Option<u64>) -> Seq<u8> {
    match cas {
        Some(c) => space() + decimal(c as nat),
        None => Seq::empty(),
    }
}

/// A store on the wire: the command line with the key, the flags, the time
/// to live and the length of the value, then the value as a block.
pub open spec fn store_request(
    word: Seq<u8>,
    key: Seq<u8>,
    flags: u32,
    expiration: u32,
    value: Seq<u8>,
    cas: Option<u64>,
) -> Seq<u8> {
    word + space() + key + space() + decimal(flags as nat) + space() + decimal(expiration as nat)
        + space() + decimal(value.len()) + cas_word(cas) + crlf() + value + crlf()
}

/// The keys of a list, each behind a space.
pub open spec fn spaced_keys(keys: Seq<&str>) -> Seq<u8>
    decreases keys.len(),
{
    if keys.len() == 0 {
        Seq::empty()
    } else {
        spaced_keys(keys.drop_last()) + space() + wire(keys.last()@)
    }
}

/// The bytes of a command in the textual dialect. A question for no keys at
/// all is no bytes: there is nothing to ask.
pub open spec fn request(command: Command) -> Seq<u8> {
    match command {
        Command::Auth { username, password } => store_request(
            "set".spec_bytes(),
            "auth".spec_bytes(),
            0,
            0,
            wire(username@) + space() + wire(password@),
            None,
        ),
        Command::Version => "version\r\n".spec_bytes(),
        Command::Flush => "flush_all\r\n".spec_bytes(),
        Command::FlushWithDelay { delay } => "flush_all ".spec_bytes() + decimal(delay as nat)
            + crlf(),
        Command::Get { key } => "get ".spec_bytes() + wire(key@) + crlf(),
        Command::Gets { keys } => if keys@.len() == 0 {
            Seq::empty()
        } else {
            "gets".spec_bytes() + spaced_keys(keys@) + crlf()
        },
        Command::Store { mode, key, value, flags, expiration } => store_request(
            store_word(mode),
            wire(key@),
            flags,
            expiration,
            value@,
            None,
        ),
        Command::Cas { key, value, flags, expiration, cas } => store_request(
            "cas".spec_bytes(),
            wire(key@),
            flags,
            expiration,
            value@,
            Some(cas),
        ),
        Command::Delete { key } => "delete ".spec_bytes() + wire(key@) + crlf(),
        Command::Increment { key, amount } => "incr ".spec_bytes() + wire(key@) + space()
            + decimal(amount as nat) + crlf(),
        Command::Decrement { key, amount } => "decr ".spec_bytes() + wire(key@) + space()
            + decimal(amount as nat) + crlf(),
        Command::Touch { key, expiration } => "touch ".spec_bytes() + wire(key@) + space()
            + decimal(expiration as nat) + crlf(),
        Command::Stats => "stats\r\n".spec_bytes(),
    }
}

/// Puts the end of a line at the end of `out`.
fn push_crlf(out: &mut Vec<u8>)
    ensures
        final(out)@ == old(out)@ + crlf(),
{
    out.push(CR);
    out.push(LF);
    assert(out@ =~= old(out)@ + crlf());
}

/// Puts a space and then `word` at the end of `out`.
fn push_spaced(out: &mut Vec<u8>, word: &[u8])
    ensures
        final(out)@ == old(out)@ + space() + word@,
{
    out.push(SPACE);
    append_bytes(out, word);
    assert(out@ =~= old(out)@ + space() + word@);
}

/// Puts a space and then the numeral of `n` at the end of `out`.
fn push_spaced_decimal(out: &mut Vec<u8>, n: u64)
    ensures
        final(out)@ == old(out)@ + space() + decimal(n as nat),
{
    out.push(SPACE);
    push_decimal(out, n);
    assert(out@ =~= old(out)@ + space() + decimal(n as nat));
}

/// Writes a store at the end of `out`.
pub fn push_store(
    out: &mut Vec<u8>,
    word: &[u8],
    key: &[u8],
    flags: u32,
    expiration: u32,
    value: &[u8],
    cas: Option<u64>,
)
    ensures
        final(out)@ == old(out)@ + store_request(word@, key@, flags, expiration, value@, cas),
{
    append_bytes(out, word);
    push_spaced(out, key);
    push_spaced_decimal(out, flags as u64);
    push_spaced_decimal(out, expiration as u64);
    push_spaced_decimal(out, value.len() as u64);
    match cas {
        Some(c) => {
            push_spaced_decimal(out, c);
        },
        None => {},
    }
    assert(out@ =~= old(out)@ + (word@ + space() + key@ + space() + decimal(flags as nat) + space()
        + decimal(expiration as nat) + space() + decimal(value@.len()) + cas_word(cas)));
    push_crlf(out);
    append_bytes(out, value);
    push_crlf(out);
    assert(out@ =~= old(out)@ + store_request(word@, key@, flags, expiration, value@, cas));
}

/// Writes a command of one word and one key, and what may follow the key.
fn push_keyed(out: &mut Vec<u8>, word: &[u8], key: &str, number: Option<u64>)
    ensures
        final(out)@ == old(out)@ + word@ + wire(key@) + (match number {
            Some(n) => space() + decimal(n as nat),
            None => Seq::empty(),
        }) + crlf(),
{
    append_bytes(out, word);
    append_bytes(out, key.as_bytes());
    match number {
        Some(n) => {
            push_spaced_decimal(out, n);
        },
        None => {},
    }
    push_crlf(out);
    assert(out@ =~= old(out)@ + word@ + wire(key@) + (match number {
        Some(n) => space() + decimal(n as nat),
        None => Seq::empty(),
    }) + crlf());
}

/// The command word of a store.
fn store_word_bytes(mode: StoreMode) -> (r: &'static [u8])
    ensures
        r@ == store_word(mode),
{
    match mode {
        StoreMode::Always => "set".as_bytes(),
        StoreMode::IfAbsent => "add".as_bytes(),
        StoreMode::IfPresent => "replace".as_bytes(),
        StoreMode::Append => "append".as_bytes(),
        StoreMode::Prepend => "prepend".as_bytes(),
    }
}

/// Writes the keys of a list, each behind a space.
fn push_spaced_keys(out: &mut Vec<u8>, keys: &[&str])
    ensures
        final(out)@ == old(out)@ + spaced_keys(keys@),
{
    let mut i: usize = 0;
    assert(keys@.subrange(0, 0) =~= Seq::<&str>::empty());
    assert(out@ =~= old(out)@ + spaced_keys(keys@.subrange(0, 0)));
    while i < keys.len()
        invariant
            i <= keys.len(),
            out@ == old(out)@ + spaced_keys(keys@.subrange(0, i as int)),
        decreases keys.len() - i,
    {
        let ghost before = keys@.subrange(0, i as int);
        let ghost longer = keys@.subrange(0, i + 1);
        push_spaced(out, keys[i].as_bytes());
        proof {
            assert(longer.drop_last() =~= before);
            assert(longer.last() == keys@[i as int]);
            assert(out@ =~= old(out)@ + spaced_keys(longer));
        }
        i += 1;
    }
    assert(keys@.subrange(0, keys.len() as int) =~= keys@);
}

/// The bytes of a command in the textual dialect.
pub fn encode(command: &Command) -> (r: Vec<u8>)
    ensures
        r@ == request(*command),
{
    let mut out: Vec<u8> = Vec::new();
    match command {
        Command::Auth { username, password } => {
            let mut value: Vec<u8> = Vec::new();
            append_bytes(&mut value, username.as_bytes());
            push_spaced(&mut value, password.as_bytes());
            push_store(&mut out, "set".as_bytes(), "auth".as_bytes(), 0, 0, value.as_slice(), None);
        },
        Command::Version => {
            append_bytes(&mut out, "version\r\n".as_bytes());
        },
        Command::Flush => {
            append_bytes(&mut out, "flush_all\r\n".as_bytes());
        },
        Command::FlushWithDelay { delay } => {
            append_bytes(&mut out, "flush_all ".as_bytes());
            push_decimal(&mut out, *delay as u64);
            push_crlf(&mut out);
        },
        Command::Get { key } => {
            push_keyed(&mut out, "get ".as_bytes(), key, None);
        },
        Command::Gets { keys } => {
            if keys.len() > 0 {
                append_bytes(&mut out, "gets".as_bytes());
                push_spaced_keys(&mut out, keys);
                push_crlf(&mut out);
            }
        },
        Command::Store { mode, key, value, flags, expiration } => {
            push_store(
                &mut out,
                store_word_bytes(*mode),
                key.as_bytes(),
                *flags,
                *expiration,
                value,
                None,
            );
        },
        Command::Cas { key, value, flags, expiration, cas } => {
            push_store(
                &mut out,
                "cas".as_bytes(),
                key.as_bytes(),
                *flags,
                *expiration,
                value,
                Some(*cas),
            );
        },
        Command::Delete { key } => {
            push_keyed(&mut out, "delete ".as_bytes(), key, None);
        },
        Command::Increment { key, amount } => {
            push_keyed(&mut out, "incr ".as_bytes(), key, Some(*amount));
        },
        Command::Decrement { key, amount } => {
            push_keyed(&mut out, "decr ".as_bytes(), key, Some(*amount));
        },
        Command::Touch { key, expiration } => {
            push_keyed(&mut out, "touch ".as_bytes(), key, Some(*expiration as u64));
        },
        Command::Stats => {
            append_bytes(&mut out, "stats\r\n".as_bytes());
        },
    }
    assert(out@ =~= request(*command));
    out
}

/// Whether a line ends as lines do.
pub open spec fn has_crlf(line: Seq<u8>) -> bool {
    line.len() >= 2 && line[line.len() - 2] == CR && line[line.len() - 1] == LF
}

/// A line without its end.
pub open spec fn chomp(line: Seq<u8>) -> Seq<u8>
    recommends
        has_crlf(line),
{
    line.subrange(0, line.len() - 2)
}

/// The first word of `s`: what stands before its first space.
pub open spec fn field(s: Seq<u8>) -> Seq<u8> {
    s.subrange(0, index_of(s, SPACE) as int)
}

/// What stands behind the first space of `s`, where it has one.
pub open spec fn after_field(s: Seq<u8>) -> Option<Seq<u8>> {
    if index_of(s, SPACE) < s.len() {
        Some(s.subrange(index_of(s, SPACE) as int + 1, s.len() as int))
    } else {
        None
    }
}

/// The number of a line that holds a number and nothing else.
pub open spec fn counter_line(line: Seq<u8>) -> Option<u64> {
    if has_crlf(line) {
        match parse_decimal(chomp(line), u64::MAX as nat) {
            Some(n) => Some(n as u64),
            None => None,
        }
    } else {
        None
    }
}

/// The version of a line that tells one.
pub open spec fn version_line(line: Seq<u8>) -> Option<Seq<char>> {
    if "VERSION ".spec_bytes().is_prefix_of(line) && has_crlf(line) && line.len() >= 10 {
        Some(decode_utf8(line.subrange(8, line.len() - 2)))
    } else {
        None
    }
}

/// Whether a line says that a store was not made.
pub open spec fn is_refusal(line: Seq<u8>) -> bool {
    ||| line == "NOT_STORED\r\n".spec_bytes()
    ||| line == "EXISTS\r\n".spec_bytes()
    ||| line == "NOT_FOUND\r\n".spec_bytes()
}

/// What the one line means that answers an operation other than a question
/// for values or statistics.
///
/// A line that reports a failure is that failure. A store that was not made
/// is the client's fault, but for a compare-and-swap, which is told `false`
/// where the version was stale or the key gone. A key that was not there to
/// delete or touch is `false`, and one that was not there to count on is the
/// client's fault. Any line that the operation does not know is the protocol
/// fault.
pub open spec fn status_outcome(op: Operation, line: Seq<char>) -> Outcome {
    let bytes = wire(line);
    if is_error_line(bytes) {
        Err(line_fault(line))
    } else {
        match op {
            Operation::Auth | Operation::Store(_) => if bytes == "STORED\r\n".spec_bytes() {
                Ok(ReplyView::Done)
            } else if is_refusal(bytes) {
                Err(Fault::Client(line))
            } else {
                Err(Fault::Protocol)
            },
            Operation::Cas => if bytes == "STORED\r\n".spec_bytes() {
                Ok(ReplyView::Flag(true))
            } else if bytes == "EXISTS\r\n".spec_bytes() || bytes == "NOT_FOUND\r\n".spec_bytes() {
                Ok(ReplyView::Flag(false))
            } else if bytes == "NOT_STORED\r\n".spec_bytes() {
                Err(Fault::Client(line))
            } else {
                Err(Fault::Protocol)
            },
            Operation::Delete => if bytes == "DELETED\r\n".spec_bytes() {
                Ok(ReplyView::Flag(true))
            } else if bytes == "NOT_FOUND\r\n".spec_bytes() {
                Ok(ReplyView::Flag(false))
            } else {
                Err(Fault::Protocol)
            },
            Operation::Touch => if bytes == "TOUCHED\r\n".spec_bytes() {
                Ok(ReplyView::Flag(true))
            } else if bytes == "NOT_FOUND\r\n".spec_bytes() {
                Ok(ReplyView::Flag(false))
            } else {
                Err(Fault::Protocol)
            },
            Operation::Increment | Operation::Decrement => if bytes == "NOT_FOUND\r\n".spec_bytes() {
                Err(Fault::Client(line))
            } else {
                match counter_line(bytes) {
                    Some(n) => Ok(ReplyView::Counter(n)),
                    None => Err(Fault::Protocol),
                }
            },
            Operation::Flush => if bytes == "OK\r\n".spec_bytes() {
                Ok(ReplyView::Done)
            } else {
                Err(Fault::Protocol)
            },
            Operation::Version => match version_line(bytes) {
                Some(v) => Ok(ReplyView::Version(v)),
                None => Err(Fault::Protocol),
            },
            _ => Err(Fault::Protocol),
        }
    }
}

/// Whether `line` ends as lines do.
pub fn ends_with_crlf(line: &[u8]) -> (b: bool)
    ensures
        b == has_crlf(line@),
{
    line.len() >= 2 && line[line.len() - 2] == CR && line[line.len() - 1] == LF
}

/// Reads `s` as a numeral of a number up to `max`.
pub fn parse_bounded(s: &[u8], max: u64) -> (r: Option<u64>)
    ensures
        r is Some <==> parse_decimal(s@, max as nat) is Some,
        r matches Some(v) ==> parse_decimal(s@, max as nat) == Some(v as nat),
{
    match parse_u64(s) {
        Some(v) => if v <= max {
            Some(v)
        } else {
            None
        },
        None => None,
    }
}

/// The part of `s` from `from` up to `to`.
fn part(s: &[u8], from: usize, to: usize) -> (r: &[u8])
    requires
        from <= to <= s.len(),
    ensures
        r@ == s@.subrange(from as int, to as int),
{
    vstd::slice::slice_subrange(s, from, to)
}

/// The text between two positions of a line that lie next to ASCII bytes.
fn text_part(line: &str, from: usize, to: usize) -> (r: String)
    requires
        from <= to <= wire(line@).len(),
        from == 0 || wire(line@)[from - 1] < 0x80,
        to == wire(line@).len() || wire(line@)[to as int] < 0x80,
    ensures
        r@ == decode_utf8(wire(line@).subrange(from as int, to as int)),
{
    let piece = slice_str(line, from, to);
    let r = piece.to_owned();
    proof {
        lemma_wire_decodes(r@);
    }
    r
}

/// What a refused store or a missing counter is reported with: the client's
/// fault, carrying the line.
fn refused(line: &str) -> (r: Result<Reply, MemcacheError>)
    ensures
        outcome_of(r) == Err::<ReplyView, Fault>(Fault::Client(line@)),
{
    Err(MemcacheError::ClientError(line.to_owned()))
}

/// Reads the one line that answers an operation other than a question for
/// values or statistics.
pub fn status_reply(op: Operation, line: &str) -> (r: Result<Reply, MemcacheError>)
    ensures
        outcome_of(r) == status_outcome(op, line@),
{
    match line_error(line) {
        Some(e) => {
            return Err(e);
        },
        None => {},
    }
    let bytes = line.as_bytes();
    match op {
        Operation::Auth | Operation::Store(_) => {
            if bytes_eq(bytes, "STORED\r\n".as_bytes()) {
                Ok(Reply::Done)
            } else if bytes_eq(bytes, "NOT_STORED\r\n".as_bytes()) || bytes_eq(
                bytes,
                "EXISTS\r\n".as_bytes(),
            ) || bytes_eq(bytes, "NOT_FOUND\r\n".as_bytes()) {
                refused(line)
            } else {
                Err(MemcacheError::Error)
            }
        },
        Operation::Cas => {
            if bytes_eq(bytes, "STORED\r\n".as_bytes()) {
                Ok(Reply::Flag(true))
            } else if bytes_eq(bytes, "EXISTS\r\n".as_bytes()) || bytes_eq(
                bytes,
                "NOT_FOUND\r\n".as_bytes(),
            ) {
                Ok(Reply::Flag(false))
            } else if bytes_eq(bytes, "NOT_STORED\r\n".as_bytes()) {
                refused(line)
            } else {
                Err(MemcacheError::Error)
            }
        },
        Operation::Delete => {
            if bytes_eq(bytes, "DELETED\r\n".as_bytes()) {
                Ok(Reply::Flag(true))
            } else if bytes_eq(bytes, "NOT_FOUND\r\n".as_bytes()) {
                Ok(Reply::Flag(false))
            } else {
                Err(MemcacheError::Error)
            }
        },
        Operation::Touch => {
            if bytes_eq(bytes, "TOUCHED\r\n".as_bytes()) {
                Ok(Reply::Flag(true))
            } else if bytes_eq(bytes, "NOT_FOUND\r\n".as_bytes()) {
                Ok(Reply::Flag(false))
            } else {
                Err(MemcacheError::Error)
            }
        },
        Operation::Increment | Operation::Decrement => {
            if bytes_eq(bytes, "NOT_FOUND\r\n".as_bytes()) {
                refused(line)
            } else if ends_with_crlf(bytes) {
                match parse_u64(part(bytes, 0, bytes.len() - 2)) {
                    Some(n) => Ok(Reply::Counter(n)),
                    None => Err(MemcacheError::Error),
                }
            } else {
                Err(MemcacheError::Error)
            }
        },
        Operation::Flush => {
            if bytes_eq(bytes, "OK\r\n".as_bytes()) {
                Ok(Reply::Done)
            } else {
                Err(MemcacheError::Error)
            }
        },
        Operation::Version => {
            if starts_with(bytes, "VERSION ".as_bytes()) && ends_with_crlf(bytes) && bytes.len()
                >= 10 {
                proof {
                    reveal_strlit("VERSION ");
                    broadcast use vstd::string::group_string_axioms;
                    assert(is_ascii("VERSION "));
                    assert("VERSION ".spec_bytes().len() == 8);
                    assert(bytes@.subrange(0, 8)[7] == "VERSION ".spec_bytes()[7]);
                    assert(bytes@[7] == 32u8);
                }
                Ok(Reply::Version(text_part(line, 8, bytes.len() - 2)))
            } else {
                Err(MemcacheError::Error)
            }
        },
        _ => Err(MemcacheError::Error),
    }
}

/// What the line before a block says of it.
#[derive(Clone, Debug, PartialEq, Eq)]
pub struct ValueHeader {
    pub key: String,
    pub flags: u32,
    /// The length of the value; the block is two bytes longer.
    pub length: usize,
    pub cas: Option<u64>,
}

/// A [`ValueHeader`] as a mathematical value.
pub struct ValueHeaderView {
    pub key: Seq<char>,
    pub flags: u32,
    pub length: usize,
    pub cas: Option<u64>,
}

impl View for ValueHeader {
    type V = ValueHeaderView;

    open spec fn view(&self) -> ValueHeaderView {
        ValueHeaderView { key: self.key@, flags: self.flags, length: self.length, cas: self.cas }
    }
}

/// The longest value whose block has a length that this machine can count.
pub open spec fn max_value_len() -> nat {
    (usize::MAX - 2) as nat
}

/// The version that the last word of a line gives, where the words behind
/// the length are that one word.
pub open spec fn cas_field(rest: Option<Seq<u8>>) -> Option<Option<u64>> {
    match rest {
        None => Some(None),
        Some(tail) => match parse_decimal(tail, u64::MAX as nat) {
            Some(c) => Some(Some(c as u64)),
            None => None,
        },
    }
}

/// What a line of the form `VALUE <key> <flags> <bytes> [<cas>]` announces,
/// and nothing for a line of another form.
pub open spec fn value_header(line: Seq<u8>) -> Option<ValueHeaderView> {
    if !has_crlf(line) {
        None
    } else {
        let body = chomp(line);
        let rest0 = after_field(body);
        if field(body) != "VALUE".spec_bytes() || rest0 is None {
            None
        } else {
            let rest1 = after_field(rest0->0);
            if rest1 is None {
                None
            } else {
                let flags = parse_decimal(field(rest1->0), u32::MAX as nat);
                let rest2 = after_field(rest1->0);
                if flags is None || rest2 is None {
                    None
                } else {
                    let length = parse_decimal(field(rest2->0), max_value_len());
                    let cas = cas_field(after_field(rest2->0));
                    if length is None || cas is None {
                        None
                    } else {
                        Some(
                            ValueHeaderView {
                                key: decode_utf8(field(rest0->0)),
                                flags: flags->0 as u32,
                                length: length->0 as usize,
                                cas: cas->0,
                            },
                        )
                    }
                }
            }
        }
    }
}

/// What a line means that answers a question for values: a failure, the end
/// of the values, or the announcement of one more.
pub open spec fn value_line(line: Seq<char>) -> Result<Option<ValueHeaderView>, Fault> {
    let bytes = wire(line);
    if is_error_line(bytes) {
        Err(line_fault(line))
    } else if bytes == "END\r\n".spec_bytes() {
        Ok(None)
    } else {
        match value_header(bytes) {
            Some(h) => Ok(Some(h)),
            None => Err(Fault::Protocol),
        }
    }
}

/// What a line of the form `STAT <name> <value>` tells, and nothing for a
/// line of another form. The value is all that follows the name.
pub open spec fn stat_fields(line: Seq<u8>) -> Option<StatView> {
    if !has_crlf(line) {
        None
    } else {
        let body = chomp(line);
        let rest0 = after_field(body);
        if field(body) != "STAT".spec_bytes() || rest0 is None {
            None
        } else {
            let rest1 = after_field(rest0->0);
            if rest1 is None {
                None
            } else {
                Some(StatView { name: decode_utf8(field(rest0->0)), value: decode_utf8(rest1->0) })
            }
        }
    }
}

/// What a line means that answers a question for statistics.
pub open spec fn stat_line(line: Seq<char>) -> Result<Option<StatView>, Fault> {
    let bytes = wire(line);
    if is_error_line(bytes) {
        Err(line_fault(line))
    } else if bytes == "END\r\n".spec_bytes() {
        Ok(None)
    } else {
        match stat_fields(bytes) {
            Some(s) => Ok(Some(s)),
            None => Err(Fault::Protocol),
        }
    }
}

/// The value in a block that was announced with `length`: the block without
/// the line end that closes it.
pub open spec fn block_value(length: usize, block: Seq<u8>) -> Option<Seq<u8>> {
    if block.len() == length + 2 && has_crlf(block) {
        Some(chomp(block))
    } else {
        None
    }
}

/// Where the word of `s` ends that begins at `from`, `s` taken up to `to`.
/// Behind the word stands a space, or it ends at `to`.
fn word_end(s: &[u8], from: usize, to: usize) -> (p: usize)
    requires
        from <= to <= s.len(),
    ensures
        from <= p <= to,
        s@.subrange(from as int, p as int) == field(s@.subrange(from as int, to as int)),
        p < to ==> s@[p as int] == SPACE,
        p < to ==> after_field(s@.subrange(from as int, to as int)) == Some(
            s@.subrange(p + 1, to as int),
        ),
        p == to ==> after_field(s@.subrange(from as int, to as int)) is None,
{
    let p = find_byte(s, from, to, SPACE);
    proof {
        let window = s@.subrange(from as int, to as int);
        lemma_index_of(window, SPACE);
        assert(s@.subrange(from as int, p as int) =~= field(window));
        if p < to {
            assert(window[p - from] == s@[p as int]);
            assert(window.subrange(p - from + 1, window.len() as int) =~= s@.subrange(
                p + 1,
                to as int,
            ));
        }
    }
    p
}

/// Reads a line of the form `VALUE <key> <flags> <bytes> [<cas>]`.
pub fn read_value_header(line: &str) -> (r: Option<ValueHeader>)
    ensures
        r is Some <==> value_header(wire(line@)) is Some,
        r matches Some(h) ==> value_header(wire(line@)) == Some(h@),
{
    let bytes = line.as_bytes();
    if !ends_with_crlf(bytes) {
        return None;
    }
    let end = bytes.len() - 2;
    let word = word_end(bytes, 0, end);
    if word == end || !bytes_eq(part(bytes, 0, word), "VALUE".as_bytes()) {
        return None;
    }
    let key_end = word_end(bytes, word + 1, end);
    if key_end == end {
        return None;
    }
    let flags_end = word_end(bytes, key_end + 1, end);
    let flags = parse_bounded(part(bytes, key_end + 1, flags_end), u32::MAX as u64);
    if flags.is_none() || flags_end == end {
        return None;
    }
    let length_end = word_end(bytes, flags_end + 1, end);
    let length = parse_bounded(part(bytes, flags_end + 1, length_end), (usize::MAX - 2) as u64);
    if length.is_none() {
        return None;
    }
    let cas: Option<u64> = if length_end < end {
        match parse_u64(part(bytes, length_end + 1, end)) {
            Some(c) => Some(c),
            None => {
                return None;
            },
        }
    } else {
        None
    };
    let key = text_part(line, word + 1, key_end);
    Some(ValueHeader { key, flags: flags.unwrap() as u32, length: length.unwrap() as usize, cas })
}

/// Reads a line that answers a question for values.
pub fn read_value_line(line: &str) -> (r: Result<Option<ValueHeader>, MemcacheError>)
    ensures
        match value_line(line@) {
            Ok(Some(h)) => r matches Ok(Some(got)) && got@ == h,
            Ok(None) => r matches Ok(None),
            Err(fault) => r matches Err(e) && e@ == fault,
        },
{
    match line_error(line) {
        Some(e) => {
            return Err(e);
        },
        None => {},
    }
    if bytes_eq(line.as_bytes(), "END\r\n".as_bytes()) {
        return Ok(None);
    }
    match read_value_header(line) {
        Some(h) => Ok(Some(h)),
        None => Err(MemcacheError::Error),
    }
}

/// Reads a line of the form `STAT <name> <value>`.
pub fn read_stat_fields(line: &str) -> (r: Option<Stat>)
    ensures
        r is Some <==> stat_fields(wire(line@)) is Some,
        r matches Some(s) ==> stat_fields(wire(line@)) == Some(s@),
{
    let bytes = line.as_bytes();
    if !ends_with_crlf(bytes) {
        return None;
    }
    let end = bytes.len() - 2;
    let word = word_end(bytes, 0, end);
    if word == end || !bytes_eq(part(bytes, 0, word), "STAT".as_bytes()) {
        return None;
    }
    let name_end = word_end(bytes, word + 1, end);
    if name_end == end {
        return None;
    }
    let name = text_part(line, word + 1, name_end);
    let value = text_part(line, name_end + 1, end);
    Some(Stat { name, value })
}

/// Reads a line that answers a question for statistics.
pub fn read_stat_line(line: &str) -> (r: Result<Option<Stat>, MemcacheError>)
    ensures
        match stat_line(line@) {
            Ok(Some(s)) => r matches Ok(Some(got)) && got@ == s,
            Ok(None) => r matches Ok(None),
            Err(fault) => r matches Err(e) && e@ == fault,
        },
{
    match line_error(line) {
        Some(e) => {
            return Err(e);
        },
        None => {},
    }
    if bytes_eq(line.as_bytes(), "END\r\n".as_bytes()) {
        return Ok(None);
    }
    match read_stat_fields(line) {
        Some(s) => Ok(Some(s)),
        None => Err(MemcacheError::Error),
    }
}

/// Takes the value out of the block that was announced with `length`.
pub fn take_block_value(length: usize, block: Vec<u8>) -> (r: Option<Vec<u8>>)
    ensures
        r is Some <==> block_value(length, block@) is Some,
        r matches Some(v) ==> block_value(length, block@) == Some(v@),
{
    let len = block.len();
    if length > usize::MAX - 2 || len != length + 2 || !ends_with_crlf(block.as_slice()) {
        return None;
    }
    let mut value = block;
    value.truncate(length);
    Some(value)
}

/// Where an exchange in the textual dialect stands, as a mathematical value.
pub enum AsciiStage {
    /// No exchange is under way.
    Idle,
    /// A line is awaited.
    Line(Operation),
    /// The block that a line announced is awaited: what the line said, and
    /// the length of the block, which is the value's and two bytes more.
    Block(Operation, ValueHeaderView, usize),
}

/// The state of the textual dialect as a mathematical value.
pub struct AsciiState {
    pub stage: AsciiStage,
    /// The values read so far.
    pub items: Seq<ItemView>,
    /// The statistics read so far.
    pub stats: Seq<StatView>,
    /// How the exchange ended, until it is taken.
    pub outcome: Option<Outcome>,
}

impl AsciiState {
    /// The state in which nothing has happened yet.
    pub open spec fn idle() -> AsciiState {
        AsciiState {
            stage: AsciiStage::Idle,
            items: Seq::empty(),
            stats: Seq::empty(),
            outcome: None,
        }
    }

    /// The state in which an exchange has ended with `outcome`.
    pub open spec fn settled(outcome: Outcome) -> AsciiState {
        AsciiState {
            stage: AsciiStage::Idle,
            items: Seq::empty(),
            stats: Seq::empty(),
            outcome: Some(outcome),
        }
    }

    /// The state after `command` was sent: a line is awaited, but for a
    /// question for no keys, which is answered at once.
    pub open spec fn begun(command: Command) -> AsciiState {
        if command matches Command::Gets { keys } && keys@.len() == 0 {
            Self::settled(Ok(ReplyView::Values(Seq::empty())))
        } else {
            AsciiState {
                stage: AsciiStage::Line(command.spec_operation()),
                items: Seq::empty(),
                stats: Seq::empty(),
                outcome: None,
            }
        }
    }

    /// What is to be read next.
    pub open spec fn wants(self) -> Wanted {
        match self.stage {
            AsciiStage::Idle => Wanted::Nothing,
            AsciiStage::Line(_) => Wanted::Line,
            AsciiStage::Block(_, _, length) => Wanted::Block(length),
        }
    }

    /// The state after a line was read. Values and statistics are gathered
    /// line by line until their end; every other operation ends with its one
    /// line. A line that nothing asked for ends the exchange with the
    /// protocol fault.
    pub open spec fn after_line(self, line: Seq<char>) -> AsciiState {
        match self.stage {
            AsciiStage::Line(op) => match op {
                Operation::Get | Operation::Gets => match value_line(line) {
                    Err(fault) => Self::settled(Err(fault)),
                    Ok(None) => Self::settled(Ok(ReplyView::Values(self.items))),
                    Ok(Some(header)) => AsciiState {
                        stage: AsciiStage::Block(op, header, (header.length + 2) as usize),
                        ..self
                    },
                },
                Operation::Stats => match stat_line(line) {
                    Err(fault) => Self::settled(Err(fault)),
                    Ok(None) => Self::settled(Ok(ReplyView::Stats(self.stats))),
                    Ok(Some(stat)) => AsciiState { stats: self.stats.push(stat), ..self },
                },
                _ => Self::settled(status_outcome(op, line)),
            },
            _ => Self::settled(Err(Fault::Protocol)),
        }
    }

    /// The state after a block was read: the value in it is gathered under
    /// the key that the line before it named. A block of another length than
    /// was announced, or one that does not end as lines do, or one that
    /// nothing asked for, ends the exchange with the protocol fault.
    pub open spec fn after_block(self, block: Seq<u8>) -> AsciiState {
        match self.stage {
            AsciiStage::Block(op, header, _) => match block_value(header.length, block) {
                Some(value) => AsciiState {
                    stage: AsciiStage::Line(op),
                    items: self.items.push(
                        ItemView { key: header.key, value, flags: header.flags, cas: header.cas },
                    ),
                    ..self
                },
                None => Self::settled(Err(Fault::Protocol)),
            },
            _ => Self::settled(Err(Fault::Protocol)),
        }
    }

    /// The state after the outcome was taken.
    pub open spec fn taken(self) -> AsciiState {
        AsciiState { outcome: None, ..self }
    }
}

/// Where an exchange stands.
#[derive(Debug)]
enum Stage {
    Idle,
    Line(Operation),
    Block(Operation, ValueHeader, usize),
}

/// The textual dialect, and the exchange that is under way in it.
#[derive(Debug)]
pub struct AsciiProtocol {
    stage: Stage,
    items: Vec<Item>,
    stats: Vec<Stat>,
    outcome: Option<Result<Reply, MemcacheError>>,
}

impl View for AsciiProtocol {
    type V = AsciiState;

    closed spec fn view(&self) -> AsciiState {
        AsciiState {
            stage: match self.stage {
                Stage::Idle => AsciiStage::Idle,
                Stage::Line(op) => AsciiStage::Line(op),
                Stage::Block(op, header, length) => AsciiStage::Block(op, header@, length),
            },
            items: items_view(self.items@),
            stats: stats_view(self.stats@),
            outcome: match self.outcome {
                Some(r) => Some(outcome_of(r)),
                None => None,
            },
        }
    }
}

impl AsciiProtocol {
    /// The dialect with no exchange under way.
    pub fn new() -> (r: AsciiProtocol)
        ensures
            r@ == AsciiState::idle(),
    {
        let r = AsciiProtocol {
            stage: Stage::Idle,
            items: Vec::new(),
            stats: Vec::new(),
            outcome: None,
        };
        assert(r@.items =~= Seq::empty());
        assert(r@.stats =~= Seq::empty());
        r
    }

    /// Ends the exchange with `outcome`.
    fn settle(&mut self, outcome: Result<Reply, MemcacheError>)
        ensures
            final(self)@ == AsciiState::settled(outcome_of(outcome)),
    {
        self.stage = Stage::Idle;
        self.items = Vec::new();
        self.stats = Vec::new();
        self.outcome = Some(outcome);
        assert(self@.items =~= Seq::empty());
        assert(self@.stats =~= Seq::empty());
    }
}

impl ProtocolTrait for AsciiProtocol {
    open spec fn session(&self) -> Session {
        Session::Ascii(self@)
    }

    fn begin(&mut self, command: &Command) -> (r: Result<Vec<u8>, MemcacheError>) {
        match command.check_keys() {
            Err(e) => {
                return Err(e);
            },
            Ok(_) => {},
        }
        let bytes = encode(command);
        let empty = match command {
            Command::Gets { keys } => keys.len() == 0,
            _ => false,
        };
        if empty {
            self.settle(Ok(Reply::Values(Vec::new())));
            assert(self@.outcome->0 == Ok::<ReplyView, Fault>(ReplyView::Values(Seq::empty()))) by {
                assert(items_view(Seq::<Item>::empty()) =~= Seq::<ItemView>::empty());
            }
        } else {
            self.stage = Stage::Line(command.operation());
            self.items = Vec::new();
            self.stats = Vec::new();
            self.outcome = None;
            assert(self@.items =~= Seq::empty());
            assert(self@.stats =~= Seq::empty());
        }
        Ok(bytes)
    }

    fn wanted(&self) -> (r: Wanted) {
        match &self.stage {
            Stage::Idle => Wanted::Nothing,
            Stage::Line(_) => Wanted::Line,
            Stage::Block(_, _, length) => Wanted::Block(*length),
        }
    }

    fn accept_line(&mut self, line: &str) {
        let op = match &self.stage {
            Stage::Line(op) => *op,
            _ => {
                self.settle(Err(MemcacheError::Error));
                return ;
            },
        };
        match op {
            Operation::Get | Operation::Gets => {
                match read_value_line(line) {
                    Err(e) => {
                        self.settle(Err(e));
                    },
                    Ok(None) => {
                        let mut items: Vec<Item> = Vec::new();
                        core::mem::swap(&mut items, &mut self.items);
                        self.settle(Ok(Reply::Values(items)));
                    },
                    Ok(Some(header)) => {
                        let length = header.length + 2;
                        self.stage = Stage::Block(op, header, length);
                    },
                }
            },
            Operation::Stats => {
                match read_stat_line(line) {
                    Err(e) => {
                        self.settle(Err(e));
                    },
                    Ok(None) => {
                        let mut stats: Vec<Stat> = Vec::new();
                        core::mem::swap(&mut stats, &mut self.stats);
                        self.settle(Ok(Reply::Stats(stats)));
                    },
                    Ok(Some(stat)) => {
                        let ghost before = self.stats@;
                        self.stats.push(stat);
                        assert(stats_view(before.push(stat)) =~= stats_view(before).push(stat@));
                    },
                }
            },
            _ => {
                self.settle(status_reply(op, line));
            },
        }
    }

    fn accept_block(&mut self, block: Vec<u8>) {
        let mut stage = Stage::Idle;
        core::mem::swap(&mut stage, &mut self.stage);
        match stage {
            Stage::Block(op, header, _) => {
                match take_block_value(header.length, block) {
                    Some(value) => {
                        let ghost before = self.items@;
                        let item = Item {
                            key: header.key,
                            value,
                            flags: header.flags,
                            cas: header.cas,
                        };
                        self.items.push(item);
                        self.stage = Stage::Line(op);
                        assert(items_view(before.push(item)) =~= items_view(before).push(item@));
                    },
                    None => {
                        self.settle(Err(MemcacheError::Error));
                    },
                }
            },
            _ => {
                self.settle(Err(MemcacheError::Error));
            },
        }
    }

    fn take_reply(&mut self) -> (r: Option<Result<Reply, MemcacheError>>) {
        let mut taken: Option<Result<Reply, MemcacheError>> = None;
        core::mem::swap(&mut taken, &mut self.outcome);
        taken
    }
}

/// Whether `s` is one word: it holds no space.
pub open spec fn is_word(s: Seq<u8>) -> bool {
    forall|i: int| 0 <= i < s.len() ==> #[trigger] s[i] != SPACE
}

/// The line that announces a value, as a server writes it.
pub open spec fn value_header_line(key: Seq<u8>, flags: u32, length: nat, cas: Option<u64>) -> Seq<
    u8,
> {
    "VALUE".spec_bytes() + space() + key + space() + decimal(flags as nat) + space() + decimal(
        length,
    ) + cas_word(cas) + crlf()
}

/// A word in front of a space is the first field, and what follows the
/// space is the rest.
pub proof fn lemma_first_field(word: Seq<u8>, rest: Seq<u8>)
    requires
        is_word(word),
    ensures
        field(word + space() + rest) == word,
        after_field(word + space() + rest) == Some(rest),
{
    let s = word + space() + rest;
    assert(s[word.len() as int] == SPACE);
    assert forall|i: int| 0 <= i < word.len() implies #[trigger] s[i] != SPACE by {
        assert(s[i] == word[i]);
    }
    lemma_index_of_unique(s, SPACE, word.len() as int);
    assert(s.subrange(0, word.len() as int) =~= word);
    assert(s.subrange(word.len() as int + 1, s.len() as int) =~= rest);
}

/// A word alone is the one field, and nothing follows it.
pub proof fn lemma_last_field(word: Seq<u8>)
    requires
        is_word(word),
    ensures
        field(word) == word,
        after_field(word) is None,
{
    lemma_index_of_unique(word, SPACE, word.len() as int);
    assert(word.subrange(0, word.len() as int) =~= word);
}

/// A numeral is one word.
pub proof fn lemma_decimal_is_word(n: nat)
    ensures
        is_word(decimal(n)),
{
    lemma_decimal_round_trip(n);
}

/// The bytes of the words that answers are made of.
proof fn lemma_words()
    ensures
        "VALUE".spec_bytes() == seq![86u8, 65u8, 76u8, 85u8, 69u8],
        "END\r\n".spec_bytes() == seq![69u8, 78u8, 68u8, 13u8, 10u8],
        "ERROR\r\n".spec_bytes().len() == 7,
        "ERROR\r\n".spec_bytes()[0] == 69u8,
        "CLIENT_ERROR".spec_bytes().len() == 12,
        "CLIENT_ERROR".spec_bytes()[0] == 67u8,
        "SERVER_ERROR".spec_bytes().len() == 12,
        "SERVER_ERROR".spec_bytes()[0] == 83u8,
        "STORED\r\n".spec_bytes().len() == 8,
        "STORED\r\n".spec_bytes()[0] == 83u8,
        "NOT_STORED\r\n".spec_bytes().len() == 12,
        "NOT_STORED\r\n".spec_bytes()[0] == 78u8,
        "EXISTS\r\n".spec_bytes().len() == 8,
        "EXISTS\r\n".spec_bytes()[0] == 69u8,
        "NOT_FOUND\r\n".spec_bytes().len() == 11,
        "NOT_FOUND\r\n".spec_bytes()[0] == 78u8,
{
    broadcast use vstd::string::group_string_axioms;

    reveal_strlit("VALUE");
    reveal_strlit("END\r\n");
    reveal_strlit("ERROR\r\n");
    reveal_strlit("CLIENT_ERROR");
    reveal_strlit("SERVER_ERROR");
    reveal_strlit("STORED\r\n");
    reveal_strlit("NOT_STORED\r\n");
    reveal_strlit("EXISTS\r\n");
    reveal_strlit("NOT_FOUND\r\n");
    assert(is_ascii("VALUE"));
    assert(is_ascii("END\r\n"));
    assert(is_ascii("ERROR\r\n"));
    assert(is_ascii("CLIENT_ERROR"));
    assert(is_ascii("SERVER_ERROR"));
    assert(is_ascii("STORED\r\n"));
    assert(is_ascii("NOT_STORED\r\n"));
    assert(is_ascii("EXISTS\r\n"));
    assert(is_ascii("NOT_FOUND\r\n"));
    assert("VALUE".spec_bytes() =~= seq![86u8, 65u8, 76u8, 85u8, 69u8]);
    assert("END\r\n".spec_bytes() =~= seq![69u8, 78u8, 68u8, 13u8, 10u8]);
}

/// The fields of a line of words: a first word, a second, a third, and
/// what follows them.
proof fn lemma_three_fields(first: Seq<u8>, second: Seq<u8>, third: Seq<u8>, tail: Seq<u8>)
    requires
        is_word(first),
        is_word(second),
        is_word(third),
    ensures
        ({
            let rest1 = third + space() + tail;
            let rest0 = second + space() + rest1;
            let body = first + space() + rest0;
            &&& field(body) == first
            &&& after_field(body) == Some(rest0)
            &&& field(rest0) == second
            &&& after_field(rest0) == Some(rest1)
            &&& field(rest1) == third
            &&& after_field(rest1) == Some(tail)
        }),
{
    let rest1 = third + space() + tail;
    let rest0 = second + space() + rest1;
    lemma_first_field(first, rest0);
    lemma_first_field(second, rest1);
    lemma_first_field(third, tail);
}

/// What the end of a line that announces a value says: the length, and
/// the version where there is one.
proof fn lemma_length_and_version(length: usize, cas: Option<u64>)
    requires
        length <= usize::MAX - 2,
    ensures
        ({
            let tail = decimal(length as nat) + cas_word(cas);
            &&& parse_decimal(field(tail), max_value_len()) == Some(length as nat)
            &&& cas_field(after_field(tail)) == Some(cas)
        }),
{
    let tail = decimal(length as nat) + cas_word(cas);
    lemma_decimal_round_trip(length as nat);
    lemma_decimal_is_word(length as nat);
    match cas {
        Some(c) => {
            assert(tail =~= decimal(length as nat) + space() + decimal(c as nat));
            lemma_first_field(decimal(length as nat), decimal(c as nat));
            lemma_decimal_round_trip(c as nat);
        },
        None => {
            assert(tail =~= decimal(length as nat));
            lemma_last_field(decimal(length as nat));
        },
    }
}

/// A line that begins with the word of a value reports no failure and is
/// not the closing line.
proof fn lemma_value_word_is_no_failure(line: Seq<u8>)
    requires
        line.len() > 0,
        line[0] == 86u8,
    ensures
        !is_error_line(line),
        line != "END\r\n".spec_bytes(),
{
    lemma_words();
    if client_error_marker().is_prefix_of(line) {
        assert(line.subrange(0, 12)[0] == client_error_marker()[0]);
    }
    if server_error_marker().is_prefix_of(line) {
        assert(line.subrange(0, 12)[0] == server_error_marker()[0]);
    }
}

/// The word of a value is one word.
proof fn lemma_value_word()
    ensures
        is_word("VALUE".spec_bytes()),
        "VALUE".spec_bytes().len() == 5,
        "VALUE".spec_bytes()[0] == 86u8,
{
    lemma_words();
}

/// A line that announces a value says what it was written for: the key,
/// the flags, the length and the version come back as they went in.
pub proof fn lemma_value_header_round_trip(
    key: Seq<char>,
    flags: u32,
    length: usize,
    cas: Option<u64>,
)
    requires
        is_word(wire(key)),
        length <= usize::MAX - 2,
    ensures
        value_header(value_header_line(wire(key), flags, length as nat, cas)) == Some(
            ValueHeaderView { key, flags, length, cas },
        ),
        !is_error_line(value_header_line(wire(key), flags, length as nat, cas)),
        value_header_line(wire(key), flags, length as nat, cas) != "END\r\n".spec_bytes(),
{
    let word = "VALUE".spec_bytes();
    let line = value_header_line(wire(key), flags, length as nat, cas);
    let tail = decimal(length as nat) + cas_word(cas);
    let rest1 = decimal(flags as nat) + space() + tail;
    let rest0 = wire(key) + space() + rest1;
    let body = word + space() + rest0;
    lemma_value_word();
    assert(line =~= body + crlf());
    assert(has_crlf(line));
    assert(chomp(line) =~= body);
    assert(line[0] == 86u8);
    lemma_value_word_is_no_failure(line);
    lemma_decimal_is_word(flags as nat);
    lemma_three_fields(word, wire(key), decimal(flags as nat), tail);
    lemma_length_and_version(length, cas);
    assert(parse_decimal(decimal(flags as nat), u32::MAX as nat) == Some(flags as nat)) by {
        lemma_decimal_round_trip(flags as nat);
    }
    assert(decode_utf8(wire(key)) == key) by {
        lemma_wire_decodes(key);
    }
}

/// The block of a value holds the value.
pub proof fn lemma_block_round_trip(value: Seq<u8>)
    requires
        value.len() <= usize::MAX - 2,
    ensures
        block_value(value.len() as usize, value + crlf()) == Some(value),
{
    let block = value + crlf();
    assert(has_crlf(block));
    assert(chomp(block) =~= value);
}

/// The textual dialect hands a value back as the server sent it: after a
/// question for values, the line that announces a value, its block and the
/// closing line yield the key, the bytes, the flags and the version, all
/// unread and unchanged.
pub proof fn lemma_value_travels_unchanged(
    op: Operation,
    announcing: Seq<char>,
    closing: Seq<char>,
    key: Seq<char>,
    value: Seq<u8>,
    flags: u32,
    cas: Option<u64>,
)
    requires
        op is Get || op is Gets,
        is_word(wire(key)),
        value.len() <= usize::MAX - 2,
        wire(announcing) == value_header_line(wire(key), flags, value.len(), cas),
        wire(closing) == "END\r\n".spec_bytes(),
    ensures
        (AsciiState {
            stage: AsciiStage::Line(op),
            items: Seq::empty(),
            stats: Seq::empty(),
            outcome: None,
        }).after_line(announcing).after_block(value + crlf()).after_line(closing).outcome == Some(
            Ok::<ReplyView, Fault>(ReplyView::Values(seq![ItemView { key, value, flags, cas }])),
        ),
{
    lemma_words();
    lemma_value_header_round_trip(key, flags, value.len() as usize, cas);
    lemma_block_round_trip(value);
    lemma_end_closes(closing);
    let start = AsciiState {
        stage: AsciiStage::Line(op),
        items: Seq::empty(),
        stats: Seq::empty(),
        outcome: None,
    };
    let header = ValueHeaderView { key, flags, length: value.len() as usize, cas };
    assert(value_line(announcing) == Ok::<Option<ValueHeaderView>, Fault>(Some(header)));
    let announced = start.after_line(announcing);
    assert(announced.stage == AsciiStage::Block(op, header, (value.len() + 2) as usize));
    let gathered = announced.after_block(value + crlf());
    assert(gathered.stage == AsciiStage::Line(op));
    assert(gathered.items =~= seq![ItemView { key, value, flags, cas }]);
}

/// The closing line of values and statistics reports no failure.
pub proof fn lemma_end_closes(closing: Seq<char>)
    requires
        wire(closing) == "END\r\n".spec_bytes(),
    ensures
        value_line(closing) == Ok::<Option<ValueHeaderView>, Fault>(None),
        stat_line(closing) == Ok::<Option<StatView>, Fault>(None),
{
    lemma_words();
}

/// A question for values that the server has none of comes back empty, not
/// as a failure. (A question for no keys at all is not sent, and is empty
/// before any line is read.)
pub proof fn lemma_absent_key_is_empty(command: Command, closing: Seq<char>)
    requires
        command is Get || (command matches Command::Gets { keys } && keys@.len() > 0),
        wire(closing) == "END\r\n".spec_bytes(),
    ensures
        AsciiState::begun(command).after_line(closing).outcome == Some(
            Ok::<ReplyView, Fault>(ReplyView::Values(Seq::empty())),
        ),
{
    lemma_end_closes(closing);
}

/// A store that the server made ends well, whatever its kind.
pub proof fn lemma_store_made(op: Operation, line: Seq<char>)
    requires
        op is Store || op is Auth,
        wire(line) == "STORED\r\n".spec_bytes(),
    ensures
        status_outcome(op, line) == Ok::<ReplyView, Fault>(ReplyView::Done),
{
    lemma_words();
}

/// A compare-and-swap whose version is stale, or whose key is gone, comes
/// back `false`, not as a failure.
pub proof fn lemma_stale_cas_is_false(line: Seq<char>)
    requires
        wire(line) == "EXISTS\r\n".spec_bytes() || wire(line) == "NOT_FOUND\r\n".spec_bytes(),
    ensures
        status_outcome(Operation::Cas, line) == Ok::<ReplyView, Fault>(ReplyView::Flag(false)),
{
    lemma_words();
}

/// A store that the server did not make, for the key being there or not
/// being there, is the client's fault and carries the server's line.
pub proof fn lemma_store_not_made_is_client_fault(mode: StoreMode, line: Seq<char>)
    requires
        wire(line) == "NOT_STORED\r\n".spec_bytes(),
    ensures
        status_outcome(Operation::Store(mode), line) == Err::<ReplyView, Fault>(
            Fault::Client(line),
        ),
{
    lemma_words();
    let bytes = wire(line);
    assert(!client_error_marker().is_prefix_of(bytes)) by {
        if client_error_marker().is_prefix_of(bytes) {
            assert(bytes.subrange(0, 12)[0] == client_error_marker()[0]);
        }
    }
    assert(!server_error_marker().is_prefix_of(bytes)) by {
        if server_error_marker().is_prefix_of(bytes) {
            assert(bytes.subrange(0, 12)[0] == server_error_marker()[0]);
        }
    }
}

/// A line that blames the client, such as the one that answers a step on a
/// value that is no number, is the client's fault for every operation, and
/// one that blames the server is the server's; each carries the line.
pub proof fn lemma_blame_is_kept(op: Operation, line: Seq<char>)
    requires
        op !is Get && op !is Gets && op !is Stats,
    ensures
        client_error_marker().is_prefix_of(wire(line)) ==> status_outcome(op, line) == Err::<
            ReplyView,
            Fault,
        >(Fault::Client(line)),
        !client_error_marker().is_prefix_of(wire(line)) && server_error_marker().is_prefix_of(
            wire(line),
        ) ==> status_outcome(op, line) == Err::<ReplyView, Fault>(Fault::Server(line)),
{
    lemma_words();
}

} // verus!
