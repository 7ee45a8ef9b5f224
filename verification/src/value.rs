//! Values as a server stores them: bytes, and flags that the protocol
//! carries unread from the store to the reader.

use vstd::prelude::*;
use vstd::string::*;
use vstd::utf8::*;
use crate::error::{Fault, MemcacheError};
use crate::protocol::ascii::{crlf, is_word, parse_bounded, value_header_line, AsciiState};
use crate::protocol::binary::BinaryState;
use crate::protocol::binary_packet::{be32, PacketHeader, MAGIC_RESPONSE};
use crate::protocol::{Command, Operation, ReplyView};
use crate::text::{
    bytes_eq, decimal, lemma_decimal_round_trip, lemma_wire_decodes, parse_decimal, push_decimal,
    text_from_utf8, wire,
};

verus! {

/// The flags that every value of this library is stored with.
pub const PLAIN: u32 = 0;

/// What a value is refused with that cannot be read as the type asked for.
pub open spec fn unreadable() -> Fault {
    Fault::Client("value is not of the type asked for"@)
}

/// What can be stored.
pub trait ToMemcacheValue {
    /// The bytes that the value is stored as.
    spec fn stored_bytes(&self) -> Seq<u8>;

    /// The flags that the value is stored with.
    spec fn stored_flags(&self) -> u32;

    /// The flags that the value is stored with.
    fn get_flags(&self) -> (r: u32)
        ensures
            r == self.stored_flags(),
    ;

    /// The bytes that the value is stored as.
    fn to_bytes(&self) -> (r: Vec<u8>)
        ensures
            r@ == self.stored_bytes(),
    ;
}

/// What can be read back.
pub trait FromMemcacheValue: Sized + View {
    /// The value that bytes and flags stand for, where they stand for one.
    spec fn read(bytes: Seq<u8>, flags: u32) -> Option<Self::V>;

    /// Reads a value from the bytes and flags that a server handed back.
    fn from_memcache_value(bytes: Vec<u8>, flags: u32) -> (r: Result<Self, MemcacheError>)
        ensures
            match Self::read(bytes@, flags) {
                Some(v) => r matches Ok(got) && got@ == v,
                None => r matches Err(e) && e@ == unreadable(),
            },
    ;
}

/// What can be stored and read back as the value that it was.
pub trait MemcacheValue: ToMemcacheValue + FromMemcacheValue {
    /// The bytes and flags that a value is stored as stand for that value.
    proof fn lemma_round_trip(&self)
        ensures
            Self::read(self.stored_bytes(), self.stored_flags()) == Some(self@),
    ;
}

/// The failure of a value that cannot be read.
fn refuse<T>() -> (r: Result<T, MemcacheError>)
    ensures
        r matches Err(e) && e@ == unreadable(),
{
    Err(MemcacheError::ClientError("value is not of the type asked for".to_owned()))
}

impl<'a> ToMemcacheValue for &'a [u8] {
    open spec fn stored_bytes(&self) -> Seq<u8> {
        self@
    }

    open spec fn stored_flags(&self) -> u32 {
        PLAIN
    }

    fn get_flags(&self) -> (r: u32) {
        PLAIN
    }

    fn to_bytes(&self) -> (r: Vec<u8>) {
        vstd::slice::slice_to_vec(*self)
    }
}

impl ToMemcacheValue for Vec<u8> {
    open spec fn stored_bytes(&self) -> Seq<u8> {
        self@
    }

    open spec fn stored_flags(&self) -> u32 {
        PLAIN
    }

    fn get_flags(&self) -> (r: u32) {
        PLAIN
    }

    fn to_bytes(&self) -> (r: Vec<u8>) {
        vstd::slice::slice_to_vec(self.as_slice())
    }
}

impl FromMemcacheValue for Vec<u8> {
    open spec fn read(bytes: Seq<u8>, flags: u32) -> Option<Seq<u8>> {
        Some(bytes)
    }

    fn from_memcache_value(bytes: Vec<u8>, flags: u32) -> (r: Result<Self, MemcacheError>) {
        Ok(bytes)
    }
}

impl MemcacheValue for Vec<u8> {
    proof fn lemma_round_trip(&self) {
    }
}

impl<'a> ToMemcacheValue for &'a str {
    open spec fn stored_bytes(&self) -> Seq<u8> {
        wire(self@)
    }

    open spec fn stored_flags(&self) -> u32 {
        PLAIN
    }

    fn get_flags(&self) -> (r: u32) {
        PLAIN
    }

    fn to_bytes(&self) -> (r: Vec<u8>) {
        vstd::slice::slice_to_vec(self.as_bytes())
    }
}

impl ToMemcacheValue for String {
    open spec fn stored_bytes(&self) -> Seq<u8> {
        wire(self@)
    }

    open spec fn stored_flags(&self) -> u32 {
        PLAIN
    }

    fn get_flags(&self) -> (r: u32) {
        PLAIN
    }

    fn to_bytes(&self) -> (r: Vec<u8>) {
        vstd::slice::slice_to_vec(self.as_str().as_bytes())
    }
}

impl FromMemcacheValue for String {
    open spec fn read(bytes: Seq<u8>, flags: u32) -> Option<Seq<char>> {
        if valid_utf8(bytes) {
            Some(decode_utf8(bytes))
        } else {
            None
        }
    }

    fn from_memcache_value(bytes: Vec<u8>, flags: u32) -> (r: Result<Self, MemcacheError>) {
        match text_from_utf8(bytes) {
            Some(text) => {
                proof {
                    lemma_wire_decodes(text@);
                }
                Ok(text)
            },
            None => refuse(),
        }
    }
}

impl MemcacheValue for String {
    proof fn lemma_round_trip(&self) {
        lemma_wire_decodes(self@);
    }
}

impl ToMemcacheValue for bool {
    open spec fn stored_bytes(&self) -> Seq<u8> {
        if *self {
            "true".spec_bytes()
        } else {
            "false".spec_bytes()
        }
    }

    open spec fn stored_flags(&self) -> u32 {
        PLAIN
    }

    fn get_flags(&self) -> (r: u32) {
        PLAIN
    }

    fn to_bytes(&self) -> (r: Vec<u8>) {
        if *self {
            vstd::slice::slice_to_vec("true".as_bytes())
        } else {
            vstd::slice::slice_to_vec("false".as_bytes())
        }
    }
}

impl FromMemcacheValue for bool {
    open spec fn read(bytes: Seq<u8>, flags: u32) -> Option<bool> {
        if bytes == "true".spec_bytes() {
            Some(true)
        } else if bytes == "false".spec_bytes() {
            Some(false)
        } else {
            None
        }
    }

    fn from_memcache_value(bytes: Vec<u8>, flags: u32) -> (r: Result<Self, MemcacheError>) {
        if bytes_eq(bytes.as_slice(), "true".as_bytes()) {
            Ok(true)
        } else if bytes_eq(bytes.as_slice(), "false".as_bytes()) {
            Ok(false)
        } else {
            refuse()
        }
    }
}

impl MemcacheValue for bool {
    proof fn lemma_round_trip(&self) {
        broadcast use vstd::string::group_string_axioms;

        reveal_strlit("true");
        reveal_strlit("false");
        assert(is_ascii("true"));
        assert(is_ascii("false"));
        assert("true".spec_bytes().len() == 4);
        assert("false".spec_bytes().len() == 5);
    }
}

/// The numeral of `n`.
fn number_bytes(n: u64) -> (r: Vec<u8>)
    ensures
        r@ == decimal(n as nat),
{
    let mut out: Vec<u8> = Vec::new();
    push_decimal(&mut out, n);
    assert(out@ =~= decimal(n as nat));
    out
}

impl ToMemcacheValue for u64 {
    open spec fn stored_bytes(&self) -> Seq<u8> {
        decimal(*self as nat)
    }

    open spec fn stored_flags(&self) -> u32 {
        PLAIN
    }

    fn get_flags(&self) -> (r: u32) {
        PLAIN
    }

    fn to_bytes(&self) -> (r: Vec<u8>) {
        number_bytes(*self)
    }
}

impl FromMemcacheValue for u64 {
    open spec fn read(bytes: Seq<u8>, flags: u32) -> Option<u64> {
        match parse_decimal(bytes, u64::MAX as nat) {
            Some(n) => Some(n as u64),
            None => None,
        }
    }

    fn from_memcache_value(bytes: Vec<u8>, flags: u32) -> (r: Result<Self, MemcacheError>) {
        match parse_bounded(bytes.as_slice(), u64::MAX) {
            Some(n) => Ok(n),
            None => refuse(),
        }
    }
}

impl MemcacheValue for u64 {
    proof fn lemma_round_trip(&self) {
        lemma_decimal_round_trip(*self as nat);
    }
}

impl ToMemcacheValue for u32 {
    open spec fn stored_bytes(&self) -> Seq<u8> {
        decimal(*self as nat)
    }

    open spec fn stored_flags(&self) -> u32 {
        PLAIN
    }

    fn get_flags(&self) -> (r: u32) {
        PLAIN
    }

    fn to_bytes(&self) -> (r: Vec<u8>) {
        number_bytes(*self as u64)
    }
}

impl FromMemcacheValue for u32 {
    open spec fn read(bytes: Seq<u8>, flags: u32) -> Option<u32> {
        match parse_decimal(bytes, u32::MAX as nat) {
            Some(n) => Some(n as u32),
            None => None,
        }
    }

    fn from_memcache_value(bytes: Vec<u8>, flags: u32) -> (r: Result<Self, MemcacheError>) {
        match parse_bounded(bytes.as_slice(), u32::MAX as u64) {
            Some(n) => Ok(n as u32),
            None => refuse(),
        }
    }
}

impl MemcacheValue for u32 {
    proof fn lemma_round_trip(&self) {
        lemma_decimal_round_trip(*self as nat);
    }
}

impl ToMemcacheValue for u16 {
    open spec fn stored_bytes(&self) -> Seq<u8> {
        decimal(*self as nat)
    }

    open spec fn stored_flags(&self) -> u32 {
        PLAIN
    }

    fn get_flags(&self) -> (r: u32) {
        PLAIN
    }

    fn to_bytes(&self) -> (r: Vec<u8>) {
        number_bytes(*self as u64)
    }
}

impl FromMemcacheValue for u16 {
    open spec fn read(bytes: Seq<u8>, flags: u32) -> Option<u16> {
        match parse_decimal(bytes, u16::MAX as nat) {
            Some(n) => Some(n as u16),
            None => None,
        }
    }

    fn from_memcache_value(bytes: Vec<u8>, flags: u32) -> (r: Result<Self, MemcacheError>) {
        match parse_bounded(bytes.as_slice(), u16::MAX as u64) {
            Some(n) => Ok(n as u16),
            None => refuse(),
        }
    }
}

impl MemcacheValue for u16 {
    proof fn lemma_round_trip(&self) {
        lemma_decimal_round_trip(*self as nat);
    }
}

impl ToMemcacheValue for u8 {
    open spec fn stored_bytes(&self) -> Seq<u8> {
        decimal(*self as nat)
    }

    open spec fn stored_flags(&self) -> u32 {
        PLAIN
    }

    fn get_flags(&self) -> (r: u32) {
        PLAIN
    }

    fn to_bytes(&self) -> (r: Vec<u8>) {
        number_bytes(*self as u64)
    }
}

impl FromMemcacheValue for u8 {
    open spec fn read(bytes: Seq<u8>, flags: u32) -> Option<u8> {
        match parse_decimal(bytes, u8::MAX as nat) {
            Some(n) => Some(n as u8),
            None => None,
        }
    }

    fn from_memcache_value(bytes: Vec<u8>, flags: u32) -> (r: Result<Self, MemcacheError>) {
        match parse_bounded(bytes.as_slice(), u8::MAX as u64) {
            Some(n) => Ok(n as u8),
            None => refuse(),
        }
    }
}

impl MemcacheValue for u8 {
    proof fn lemma_round_trip(&self) {
        lemma_decimal_round_trip(*self as nat);
    }
}

/// In the textual dialect a value comes back as the value that was stored:
/// when a server answers a question for a key with the bytes and flags
/// that a value is stored as, the one value found reads as that value.
pub proof fn lemma_round_trip_in_text<V: MemcacheValue>(
    v: V,
    key: &str,
    expiration: u32,
    announcing: Seq<char>,
    closing: Seq<char>,
    cas: Option<u64>,
)
    requires
        is_word(wire(key@)),
        v.stored_bytes().len() <= usize::MAX - 2,
        wire(announcing) == value_header_line(
            wire(key@),
            v.stored_flags(),
            v.stored_bytes().len(),
            cas,
        ),
        wire(closing) == "END\r\n".spec_bytes(),
    ensures
        ({
            let outcome = AsciiState::begun(Command::Get { key }).after_line(
                announcing,
            ).after_block(v.stored_bytes() + crlf()).after_line(closing).outcome;
            &&& outcome matches Some(Ok(ReplyView::Values(items)))
            &&& items.len() == 1
            &&& items[0].key == key@
            &&& V::read(items[0].value, items[0].flags) == Some(v@)
        }),
{
    crate::protocol::ascii::lemma_value_travels_unchanged(
        Operation::Get,
        announcing,
        closing,
        key@,
        v.stored_bytes(),
        v.stored_flags(),
        cas,
    );
    v.lemma_round_trip();
}

/// In the binary dialect a value comes back as the value that was stored:
/// when a server answers a question for a key with the bytes and flags
/// that a value is stored as, the one value found reads as that value.
pub proof fn lemma_round_trip_in_binary<V: MemcacheValue>(
    v: V,
    key: &str,
    state: BinaryState,
    header: PacketHeader,
)
    requires
        header.magic == MAGIC_RESPONSE,
        header.vbucket_id_or_status == 0,
        header.extras_length == 4,
        header.key_length == 0,
        header.total_body_length == 4 + v.stored_bytes().len(),
    ensures
        ({
            let outcome = state.begun(Command::Get { key }).after_block(
                header.wire(),
            ).after_block(be32(v.stored_flags()) + v.stored_bytes()).outcome;
            &&& outcome matches Some(Ok(ReplyView::Values(items)))
            &&& items.len() == 1
            &&& items[0].key == key@
            &&& V::read(items[0].value, items[0].flags) == Some(v@)
        }),
{
    crate::protocol::binary::lemma_value_travels_unchanged(
        state,
        key,
        v.stored_bytes(),
        v.stored_flags(),
        header,
    );
    v.lemma_round_trip();
}

} // verus!
