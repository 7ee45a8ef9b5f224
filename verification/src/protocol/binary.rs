//! The binary dialect: every request and every answer is one packet, and an
//! answer tells how it went by the status in its header.

use vstd::prelude::*;
use vstd::string::*;
use vstd::utf8::*;
use crate::error::{status_fault, status_text, Fault, MemcacheError, STATUS_CLIENT_END, STATUS_OK};
use crate::protocol::binary_packet::{
    be32, be32_value, be64, be64_value, body_extras, body_key, body_value, lemma_be32_round_trip,
    lemma_body_parts, lemma_header_round_trip, packet_fits,
    push_be32, push_be64, push_request, read_be32, read_be64, request_wire, well_framed, Opcode,
    Packet, PacketHeader, HEADER_LEN, MAGIC_RESPONSE,
};
use crate::protocol::{
    items_view, key_fits, outcome_of, stats_view, Command, Item, ItemView, Operation, Outcome,
    ProtocolTrait, Reply, ReplyView, Session, Stat, StatView, StoreMode, Wanted,
};
use crate::text::{append_bytes, lemma_wire_decodes, text_from_utf8, wire};

verus! {

/// The status of an answer about a key that is not there.
pub const STATUS_KEY_NOT_FOUND: u16 = 0x0001;

/// The status of an answer about a key that is there, or whose version is
/// another than the one that was named.
pub const STATUS_KEY_EXISTS: u16 = 0x0002;

/// The time to live that tells the server not to make a counter that is
/// not there.
pub const NO_CREATE: u32 = 0xffff_ffff;

/// The command of a store.
pub open spec fn store_opcode(mode: StoreMode) -> Opcode {
    match mode {
        StoreMode::Always => Opcode::SetItem,
        StoreMode::IfAbsent => Opcode::AddItem,
        StoreMode::IfPresent => Opcode::ReplaceItem,
        StoreMode::Append => Opcode::AppendItem,
        StoreMode::Prepend => Opcode::PrependItem,
    }
}

/// The extras of a store: the flags and the time to live. What is put
/// behind or before a value has none.
pub open spec fn store_extras(mode: StoreMode, flags: u32, expiration: u32) -> Seq<u8> {
    match mode {
        StoreMode::Append | StoreMode::Prepend => Seq::empty(),
        _ => be32(flags) + be32(expiration),
    }
}

/// The extras of a step of a counter: the amount, the value to start from,
/// and the time to live that keeps the server from starting one.
pub open spec fn counter_extras(amount: u64) -> Seq<u8> {
    be64(amount) + be64(0) + be32(NO_CREATE)
}

/// The value of a request to authenticate: the mechanism is named by the
/// key, and name and password follow a zero byte each.
pub open spec fn auth_value(username: Seq<u8>, password: Seq<u8>) -> Seq<u8> {
    seq![0u8] + username + seq![0u8] + password
}

/// One question for each key of a list, one packet behind the other.
pub open spec fn pipelined(keys: Seq<&str>, opaque: u32) -> Seq<u8>
    decreases keys.len(),
{
    if keys.len() == 0 {
        Seq::empty()
    } else {
        pipelined(keys.drop_last(), opaque) + request_wire(
            Opcode::Get,
            opaque,
            0,
            Seq::empty(),
            wire(keys.last()@),
            Seq::empty(),
        )
    }
}

/// The three parts of the body of a command's packet: extras, key, value.
/// A question for several keys has a packet for each and none of its own.
pub open spec fn parts(command: Command) -> (Seq<u8>, Seq<u8>, Seq<u8>) {
    match command {
        Command::Auth { username, password } => (
            Seq::empty(),
            "PLAIN".spec_bytes(),
            auth_value(wire(username@), wire(password@)),
        ),
        Command::FlushWithDelay { delay } => (be32(delay), Seq::empty(), Seq::empty()),
        Command::Get { key } => (Seq::empty(), wire(key@), Seq::empty()),
        Command::Store { mode, key, value, flags, expiration } => (
            store_extras(mode, flags, expiration),
            wire(key@),
            value@,
        ),
        Command::Cas { key, value, flags, expiration, cas } => (
            be32(flags) + be32(expiration),
            wire(key@),
            value@,
        ),
        Command::Delete { key } => (Seq::empty(), wire(key@), Seq::empty()),
        Command::Increment { key, amount } => (counter_extras(amount), wire(key@), Seq::empty()),
        Command::Decrement { key, amount } => (counter_extras(amount), wire(key@), Seq::empty()),
        Command::Touch { key, expiration } => (be32(expiration), wire(key@), Seq::empty()),
        _ => (Seq::empty(), Seq::empty(), Seq::empty()),
    }
}

/// The opcode of a command's packet.
pub open spec fn opcode(command: Command) -> Opcode {
    match command {
        Command::Auth { .. } => Opcode::StartAuth,
        Command::Version => Opcode::Version,
        Command::Flush => Opcode::Flush,
        Command::FlushWithDelay { .. } => Opcode::Flush,
        Command::Get { .. } => Opcode::Get,
        Command::Gets { .. } => Opcode::Get,
        Command::Store { mode, .. } => store_opcode(mode),
        Command::Cas { .. } => Opcode::SetItem,
        Command::Delete { .. } => Opcode::Delete,
        Command::Increment { .. } => Opcode::Increment,
        Command::Decrement { .. } => Opcode::Decrement,
        Command::Touch { .. } => Opcode::Touch,
        Command::Stats => Opcode::Stat,
    }
}

/// The version that a command's packet names: that of a compare-and-swap,
/// and zero for every other.
pub open spec fn version_named(command: Command) -> u64 {
    match command {
        Command::Cas { cas, .. } => cas,
        _ => 0,
    }
}

/// Whether the body of a command's packet has a length that a header can
/// tell. The keys being short enough, it is the value that can be too long.
pub open spec fn fits(command: Command) -> bool {
    match command {
        Command::Gets { .. } => true,
        _ => packet_fits(parts(command).0, parts(command).1, parts(command).2),
    }
}

/// The bytes of a command in the binary dialect, sent under `opaque`.
pub open spec fn request(command: Command, opaque: u32) -> Seq<u8> {
    match command {
        Command::Gets { keys } => pipelined(keys@, opaque),
        _ => request_wire(
            opcode(command),
            opaque,
            version_named(command),
            parts(command).0,
            parts(command).1,
            parts(command).2,
        ),
    }
}

/// What a command whose body does not fit a packet is refused with.
pub open spec fn value_too_large() -> Fault {
    Fault::Client("value is too large"@)
}

/// What the answer to a question for the value under `key` means: the value
/// with the flags that its extras hold and the version of its header, or
/// nothing where the key is not there.
pub open spec fn item_outcome(key: Seq<char>, header: PacketHeader, body: Seq<u8>) -> Result<
    Option<ItemView>,
    Fault,
> {
    let status = header.vbucket_id_or_status;
    if status == STATUS_OK {
        if header.extras_length == 4 {
            Ok(
                Some(
                    ItemView {
                        key,
                        value: body_value(header, body),
                        flags: be32_value(body_extras(header, body)),
                        cas: Some(header.cas),
                    },
                ),
            )
        } else {
            Err(Fault::Protocol)
        }
    } else if status == STATUS_KEY_NOT_FOUND {
        Ok(None)
    } else {
        Err(status_fault(status, body_value(header, body)))
    }
}

/// What one packet of statistics means: one more line, or their end where
/// the packet has no key.
pub open spec fn stat_outcome(header: PacketHeader, body: Seq<u8>) -> Result<
    Option<StatView>,
    Fault,
> {
    let status = header.vbucket_id_or_status;
    if status != STATUS_OK {
        Err(status_fault(status, body_value(header, body)))
    } else if header.key_length == 0 {
        Ok(None)
    } else if valid_utf8(body_key(header, body)) && valid_utf8(body_value(header, body)) {
        Ok(
            Some(
                StatView {
                    name: decode_utf8(body_key(header, body)),
                    value: decode_utf8(body_value(header, body)),
                },
            ),
        )
    } else {
        Err(Fault::Protocol)
    }
}

/// What the one packet means that answers an operation other than a
/// question for values or statistics.
///
/// A status of zero is success. A key that was not there to delete or touch
/// is `false`, and so is a compare-and-swap whose key is gone or has another
/// version. Every other status is the failure that its range stands for,
/// with the packet's value as its message.
pub open spec fn packet_outcome(op: Operation, header: PacketHeader, body: Seq<u8>) -> Outcome {
    let status = header.vbucket_id_or_status;
    let value = body_value(header, body);
    let failure: Outcome = Err(status_fault(status, value));
    match op {
        Operation::Auth | Operation::Flush | Operation::Store(_) => if status == STATUS_OK {
            Ok(ReplyView::Done)
        } else {
            failure
        },
        Operation::Cas => if status == STATUS_OK {
            Ok(ReplyView::Flag(true))
        } else if status == STATUS_KEY_NOT_FOUND || status == STATUS_KEY_EXISTS {
            Ok(ReplyView::Flag(false))
        } else {
            failure
        },
        Operation::Delete | Operation::Touch => if status == STATUS_OK {
            Ok(ReplyView::Flag(true))
        } else if status == STATUS_KEY_NOT_FOUND {
            Ok(ReplyView::Flag(false))
        } else {
            failure
        },
        Operation::Increment | Operation::Decrement => if status == STATUS_OK {
            if value.len() == 8 {
                Ok(ReplyView::Counter(be64_value(value)))
            } else {
                Err(Fault::Protocol)
            }
        } else {
            failure
        },
        Operation::Version => if status == STATUS_OK {
            if valid_utf8(value) {
                Ok(ReplyView::Version(decode_utf8(value)))
            } else {
                Err(Fault::Protocol)
            }
        } else {
            failure
        },
        _ => Err(Fault::Protocol),
    }
}

/// Whether a header can be that of an answer: it begins as answers do, and
/// extras and key have room in the body that it announces.
pub open spec fn plausible(header: PacketHeader) -> bool {
    header.magic == MAGIC_RESPONSE && header.extras_length + header.key_length
        <= header.total_body_length
}

/// Where an exchange in the binary dialect stands.
#[derive(Clone, Copy, Debug)]
pub enum BinaryStage {
    /// No exchange is under way.
    Idle,
    /// The header of the next packet is awaited.
    Header(Operation),
    /// The body that a header announced is awaited.
    Body(Operation, PacketHeader),
}

/// The state of the binary dialect as a mathematical value.
pub struct BinaryState {
    /// What the next request is sent under.
    pub opaque: u32,
    pub stage: BinaryStage,
    /// The keys that the exchange under way asks for, in the order asked.
    pub keys: Seq<Seq<char>>,
    /// How many of them have been answered.
    pub answered: nat,
    /// The values found so far.
    pub items: Seq<ItemView>,
    /// The statistics read so far.
    pub stats: Seq<StatView>,
    /// How the exchange ended, until it is taken.
    pub outcome: Option<Outcome>,
}

/// The opaque after `opaque`.
pub open spec fn next_opaque(opaque: u32) -> u32 {
    if opaque == u32::MAX {
        0
    } else {
        (opaque + 1) as u32
    }
}

/// The keys that the answers to a command are matched to.
pub open spec fn keys_asked(command: Command) -> Seq<Seq<char>> {
    match command {
        Command::Get { key } => seq![key@],
        Command::Gets { keys } => keys@.map_values(|k: &str| k@),
        _ => Seq::empty(),
    }
}

impl BinaryState {
    /// The state in which an exchange has ended with `outcome`.
    pub open spec fn settled(self, outcome: Outcome) -> BinaryState {
        BinaryState {
            opaque: self.opaque,
            stage: BinaryStage::Idle,
            keys: Seq::empty(),
            answered: 0,
            items: Seq::empty(),
            stats: Seq::empty(),
            outcome: Some(outcome),
        }
    }

    /// The state after `command` was sent: its answer is awaited, but for a
    /// question for no keys, which is answered at once.
    pub open spec fn begun(self, command: Command) -> BinaryState {
        let sent = BinaryState { opaque: next_opaque(self.opaque), ..self };
        if command is Gets && keys_asked(command).len() == 0 {
            sent.settled(Ok(ReplyView::Values(Seq::empty())))
        } else {
            BinaryState {
                opaque: sent.opaque,
                stage: BinaryStage::Header(command.spec_operation()),
                keys: keys_asked(command),
                answered: 0,
                items: Seq::empty(),
                stats: Seq::empty(),
                outcome: None,
            }
        }
    }

    /// What is to be read next.
    pub open spec fn wants(self) -> Wanted {
        match self.stage {
            BinaryStage::Idle => Wanted::Nothing,
            BinaryStage::Header(_) => Wanted::Block(HEADER_LEN),
            BinaryStage::Body(_, header) => Wanted::Block(header.total_body_length as usize),
        }
    }

    /// The state after the packet of `header` and `body` was read in full.
    pub open spec fn answered_with(
        self,
        op: Operation,
        header: PacketHeader,
        body: Seq<u8>,
    ) -> BinaryState {
        match op {
            Operation::Get | Operation::Gets => if self.answered >= self.keys.len() {
                self.settled(Err(Fault::Protocol))
            } else {
                match item_outcome(self.keys[self.answered as int], header, body) {
                    Err(fault) => self.settled(Err(fault)),
                    Ok(found) => {
                        let items = match found {
                            Some(item) => self.items.push(item),
                            None => self.items,
                        };
                        if self.answered + 1 == self.keys.len() {
                            self.settled(Ok(ReplyView::Values(items)))
                        } else {
                            BinaryState {
                                stage: BinaryStage::Header(op),
                                answered: self.answered + 1,
                                items,
                                ..self
                            }
                        }
                    },
                }
            },
            Operation::Stats => match stat_outcome(header, body) {
                Err(fault) => self.settled(Err(fault)),
                Ok(None) => self.settled(Ok(ReplyView::Stats(self.stats))),
                Ok(Some(stat)) => BinaryState {
                    stage: BinaryStage::Header(op),
                    stats: self.stats.push(stat),
                    ..self
                },
            },
            _ => self.settled(packet_outcome(op, header, body)),
        }
    }

    /// The state after a block was read. A block that is no header of an
    /// answer, or not the body that was announced, ends the exchange with
    /// the protocol fault, and so does a block that nothing asked for. A
    /// header that announces an empty body is the whole packet.
    pub open spec fn after_block(self, block: Seq<u8>) -> BinaryState {
        match self.stage {
            BinaryStage::Header(op) => match PacketHeader::parse(block) {
                Some(header) => if !plausible(header) {
                    self.settled(Err(Fault::Protocol))
                } else if header.total_body_length == 0 {
                    self.answered_with(op, header, Seq::empty())
                } else {
                    BinaryState { stage: BinaryStage::Body(op, header), ..self }
                },
                None => self.settled(Err(Fault::Protocol)),
            },
            BinaryStage::Body(op, header) => if well_framed(header, block) {
                self.answered_with(op, header, block)
            } else {
                self.settled(Err(Fault::Protocol))
            },
            BinaryStage::Idle => self.settled(Err(Fault::Protocol)),
        }
    }

    /// The state after a line was read: this dialect has no lines, so the
    /// exchange ends with the protocol fault.
    pub open spec fn after_line(self, line: Seq<char>) -> BinaryState {
        self.settled(Err(Fault::Protocol))
    }

    /// The state after the outcome was taken.
    pub open spec fn taken(self) -> BinaryState {
        BinaryState { outcome: None, ..self }
    }
}

/// The command of a store.
fn store_opcode_of(mode: StoreMode) -> (r: Opcode)
    ensures
        r == store_opcode(mode),
{
    match mode {
        StoreMode::Always => Opcode::SetItem,
        StoreMode::IfAbsent => Opcode::AddItem,
        StoreMode::IfPresent => Opcode::ReplaceItem,
        StoreMode::Append => Opcode::AppendItem,
        StoreMode::Prepend => Opcode::PrependItem,
    }
}

/// The extras that hold flags and time to live.
fn flags_and_expiration(flags: u32, expiration: u32) -> (r: Vec<u8>)
    ensures
        r@ == be32(flags) + be32(expiration),
{
    let mut extras: Vec<u8> = Vec::new();
    push_be32(&mut extras, flags);
    push_be32(&mut extras, expiration);
    assert(extras@ =~= be32(flags) + be32(expiration));
    extras
}

/// The extras of a step of a counter.
fn counter_extras_of(amount: u64) -> (r: Vec<u8>)
    ensures
        r@ == counter_extras(amount),
{
    let mut extras: Vec<u8> = Vec::new();
    push_be64(&mut extras, amount);
    push_be64(&mut extras, 0);
    push_be32(&mut extras, NO_CREATE);
    assert(extras@ =~= counter_extras(amount));
    extras
}

/// Writes the packet of a command other than a question for several keys
/// at the end of `out`, where its body fits, and says whether it did.
fn push_command(out: &mut Vec<u8>, command: &Command, opaque: u32) -> (sent: bool)
    requires
        !(*command is Gets),
    ensures
        sent == fits(*command),
        sent ==> final(out)@ == old(out)@ + request(*command, opaque),
        !sent ==> final(out)@ == old(out)@,
{
    let none: Vec<u8> = Vec::new();
    assert(none@ =~= Seq::<u8>::empty());
    match command {
        Command::Auth { username, password } => {
            let mut value: Vec<u8> = Vec::new();
            value.push(0u8);
            append_bytes(&mut value, username.as_bytes());
            value.push(0u8);
            append_bytes(&mut value, password.as_bytes());
            assert(value@ =~= auth_value(wire(username@), wire(password@)));
            push_request(
                out,
                Opcode::StartAuth,
                opaque,
                0,
                none.as_slice(),
                "PLAIN".as_bytes(),
                value.as_slice(),
            )
        },
        Command::Version => push_request(
            out,
            Opcode::Version,
            opaque,
            0,
            none.as_slice(),
            none.as_slice(),
            none.as_slice(),
        ),
        Command::Flush => push_request(
            out,
            Opcode::Flush,
            opaque,
            0,
            none.as_slice(),
            none.as_slice(),
            none.as_slice(),
        ),
        Command::FlushWithDelay { delay } => {
            let mut extras: Vec<u8> = Vec::new();
            push_be32(&mut extras, *delay);
            assert(extras@ =~= be32(*delay));
            push_request(
                out,
                Opcode::Flush,
                opaque,
                0,
                extras.as_slice(),
                none.as_slice(),
                none.as_slice(),
            )
        },
        Command::Get { key } => push_request(
            out,
            Opcode::Get,
            opaque,
            0,
            none.as_slice(),
            key.as_bytes(),
            none.as_slice(),
        ),
        Command::Gets { .. } => false,
        Command::Store { mode, key, value, flags, expiration } => {
            let extras = match mode {
                StoreMode::Append | StoreMode::Prepend => Vec::new(),
                _ => flags_and_expiration(*flags, *expiration),
            };
            assert(extras@ =~= store_extras(*mode, *flags, *expiration));
            push_request(
                out,
                store_opcode_of(*mode),
                opaque,
                0,
                extras.as_slice(),
                key.as_bytes(),
                value,
            )
        },
        Command::Cas { key, value, flags, expiration, cas } => {
            let extras = flags_and_expiration(*flags, *expiration);
            push_request(
                out,
                Opcode::SetItem,
                opaque,
                *cas,
                extras.as_slice(),
                key.as_bytes(),
                value,
            )
        },
        Command::Delete { key } => push_request(
            out,
            Opcode::Delete,
            opaque,
            0,
            none.as_slice(),
            key.as_bytes(),
            none.as_slice(),
        ),
        Command::Increment { key, amount } => {
            let extras = counter_extras_of(*amount);
            push_request(
                out,
                Opcode::Increment,
                opaque,
                0,
                extras.as_slice(),
                key.as_bytes(),
                none.as_slice(),
            )
        },
        Command::Decrement { key, amount } => {
            let extras = counter_extras_of(*amount);
            push_request(
                out,
                Opcode::Decrement,
                opaque,
                0,
                extras.as_slice(),
                key.as_bytes(),
                none.as_slice(),
            )
        },
        Command::Touch { key, expiration } => {
            let mut extras: Vec<u8> = Vec::new();
            push_be32(&mut extras, *expiration);
            assert(extras@ =~= be32(*expiration));
            push_request(
                out,
                Opcode::Touch,
                opaque,
                0,
                extras.as_slice(),
                key.as_bytes(),
                none.as_slice(),
            )
        },
        Command::Stats => push_request(
            out,
            Opcode::Stat,
            opaque,
            0,
            none.as_slice(),
            none.as_slice(),
            none.as_slice(),
        ),
    }
}

/// Writes one question for each key of a list at the end of `out`.
fn push_pipelined(out: &mut Vec<u8>, keys: &[&str], opaque: u32)
    requires
        forall|i: int| 0 <= i < keys@.len() ==> key_fits((#[trigger] keys@[i])@),
    ensures
        final(out)@ == old(out)@ + pipelined(keys@, opaque),
{
    let none: Vec<u8> = Vec::new();
    assert(none@ =~= Seq::<u8>::empty());
    let mut i: usize = 0;
    assert(keys@.subrange(0, 0) =~= Seq::<&str>::empty());
    assert(out@ =~= old(out)@ + pipelined(keys@.subrange(0, 0), opaque));
    while i < keys.len()
        invariant
            i <= keys.len(),
            none@ == Seq::<u8>::empty(),
            forall|j: int| 0 <= j < keys@.len() ==> key_fits((#[trigger] keys@[j])@),
            out@ == old(out)@ + pipelined(keys@.subrange(0, i as int), opaque),
        decreases keys.len() - i,
    {
        let ghost before = keys@.subrange(0, i as int);
        let ghost longer = keys@.subrange(0, i + 1);
        assert(key_fits(keys@[i as int]@));
        let sent = push_request(
            out,
            Opcode::Get,
            opaque,
            0,
            none.as_slice(),
            keys[i].as_bytes(),
            none.as_slice(),
        );
        proof {
            assert(sent);
            assert(longer.drop_last() =~= before);
            assert(longer.last() == keys@[i as int]);
            assert(out@ =~= old(out)@ + pipelined(longer, opaque));
        }
        i += 1;
    }
    assert(keys@.subrange(0, keys.len() as int) =~= keys@);
}

/// The keys of a list as strings of their own.
fn owned_keys(keys: &[&str]) -> (r: Vec<String>)
    ensures
        r@.map_values(|k: String| k@) == keys@.map_values(|k: &str| k@),
{
    let mut owned: Vec<String> = Vec::new();
    let mut i: usize = 0;
    while i < keys.len()
        invariant
            i <= keys.len(),
            owned@.len() == i,
            forall|j: int| 0 <= j < i ==> (#[trigger] owned@[j])@ == keys@[j]@,
        decreases keys.len() - i,
    {
        owned.push(keys[i].to_owned());
        i += 1;
    }
    assert(owned@.map_values(|k: String| k@) =~= keys@.map_values(|k: &str| k@));
    owned
}

/// The text that `bytes` encodes, where it is valid UTF-8.
fn text_of(bytes: &[u8]) -> (r: Option<String>)
    ensures
        r is Some <==> valid_utf8(bytes@),
        r matches Some(s) ==> s@ == decode_utf8(bytes@),
{
    let r = text_from_utf8(vstd::slice::slice_to_vec(bytes));
    proof {
        if r is Some {
            lemma_wire_decodes(r->0@);
        }
    }
    r
}

/// Reads the answer to a question for the value under `key`.
pub fn read_item(key: &String, packet: &Packet) -> (r: Result<Option<Item>, MemcacheError>)
    ensures
        match item_outcome(key@, packet.spec_header(), packet.spec_body()) {
            Ok(Some(item)) => r matches Ok(Some(got)) && got@ == item,
            Ok(None) => r matches Ok(None),
            Err(fault) => r matches Err(e) && e@ == fault,
        },
{
    let header = packet.header();
    let status = header.vbucket_id_or_status;
    if status == STATUS_OK {
        if header.extras_length == 4 {
            let extras = packet.extras();
            assert(extras@.subrange(0, 4) =~= extras@);
            let flags = read_be32(extras, 0);
            let value = vstd::slice::slice_to_vec(packet.value());
            Ok(Some(Item { key: key.clone(), value, flags, cas: Some(header.cas) }))
        } else {
            Err(MemcacheError::Error)
        }
    } else if status == STATUS_KEY_NOT_FOUND {
        Ok(None)
    } else {
        Err(MemcacheError::from_status(status, packet.value()))
    }
}

/// Reads one packet of statistics.
pub fn read_stat(packet: &Packet) -> (r: Result<Option<Stat>, MemcacheError>)
    ensures
        match stat_outcome(packet.spec_header(), packet.spec_body()) {
            Ok(Some(stat)) => r matches Ok(Some(got)) && got@ == stat,
            Ok(None) => r matches Ok(None),
            Err(fault) => r matches Err(e) && e@ == fault,
        },
{
    let header = packet.header();
    let status = header.vbucket_id_or_status;
    if status != STATUS_OK {
        return Err(MemcacheError::from_status(status, packet.value()));
    }
    if header.key_length == 0 {
        return Ok(None);
    }
    match text_of(packet.key()) {
        Some(name) => match text_of(packet.value()) {
            Some(value) => Ok(Some(Stat { name, value })),
            None => Err(MemcacheError::Error),
        },
        None => Err(MemcacheError::Error),
    }
}

/// Reads the one packet that answers an operation other than a question
/// for values or statistics.
pub fn packet_reply(op: Operation, packet: &Packet) -> (r: Result<Reply, MemcacheError>)
    ensures
        outcome_of(r) == packet_outcome(op, packet.spec_header(), packet.spec_body()),
{
    let status = packet.header().vbucket_id_or_status;
    let value = packet.value();
    match op {
        Operation::Auth | Operation::Flush | Operation::Store(_) => {
            if status == STATUS_OK {
                Ok(Reply::Done)
            } else {
                Err(MemcacheError::from_status(status, value))
            }
        },
        Operation::Cas => {
            if status == STATUS_OK {
                Ok(Reply::Flag(true))
            } else if status == STATUS_KEY_NOT_FOUND || status == STATUS_KEY_EXISTS {
                Ok(Reply::Flag(false))
            } else {
                Err(MemcacheError::from_status(status, value))
            }
        },
        Operation::Delete | Operation::Touch => {
            if status == STATUS_OK {
                Ok(Reply::Flag(true))
            } else if status == STATUS_KEY_NOT_FOUND {
                Ok(Reply::Flag(false))
            } else {
                Err(MemcacheError::from_status(status, value))
            }
        },
        Operation::Increment | Operation::Decrement => {
            if status == STATUS_OK {
                if value.len() == 8 {
                    assert(value@.subrange(0, 8) =~= value@);
                    Ok(Reply::Counter(read_be64(value, 0)))
                } else {
                    Err(MemcacheError::Error)
                }
            } else {
                Err(MemcacheError::from_status(status, value))
            }
        },
        Operation::Version => {
            if status == STATUS_OK {
                match text_of(value) {
                    Some(version) => Ok(Reply::Version(version)),
                    None => Err(MemcacheError::Error),
                }
            } else {
                Err(MemcacheError::from_status(status, value))
            }
        },
        _ => Err(MemcacheError::Error),
    }
}

/// The binary dialect, and the exchange that is under way in it.
#[derive(Debug)]
pub struct BinaryProtocol {
    opaque: u32,
    stage: BinaryStage,
    keys: Vec<String>,
    answered: usize,
    items: Vec<Item>,
    stats: Vec<Stat>,
    outcome: Option<Result<Reply, MemcacheError>>,
}

impl View for BinaryProtocol {
    type V = BinaryState;

    closed spec fn view(&self) -> BinaryState {
        BinaryState {
            opaque: self.opaque,
            stage: self.stage,
            keys: self.keys@.map_values(|k: String| k@),
            answered: self.answered as nat,
            items: items_view(self.items@),
            stats: stats_view(self.stats@),
            outcome: match self.outcome {
                Some(r) => Some(outcome_of(r)),
                None => None,
            },
        }
    }
}

impl BinaryProtocol {
    /// The state in which nothing has happened yet.
    pub open spec fn idle() -> BinaryState {
        BinaryState {
            opaque: 0,
            stage: BinaryStage::Idle,
            keys: Seq::empty(),
            answered: 0,
            items: Seq::empty(),
            stats: Seq::empty(),
            outcome: None,
        }
    }

    /// The dialect with no exchange under way.
    pub fn new() -> (r: BinaryProtocol)
        ensures
            r@ == Self::idle(),
    {
        let r = BinaryProtocol {
            opaque: 0,
            stage: BinaryStage::Idle,
            keys: Vec::new(),
            answered: 0,
            items: Vec::new(),
            stats: Vec::new(),
            outcome: None,
        };
        assert(r@.keys =~= Seq::empty());
        assert(r@.items =~= Seq::empty());
        assert(r@.stats =~= Seq::empty());
        r
    }

    /// Ends the exchange with `outcome`.
    fn settle(&mut self, outcome: Result<Reply, MemcacheError>)
        ensures
            final(self)@ == old(self)@.settled(outcome_of(outcome)),
    {
        self.stage = BinaryStage::Idle;
        self.keys = Vec::new();
        self.answered = 0;
        self.items = Vec::new();
        self.stats = Vec::new();
        self.outcome = Some(outcome);
        assert(self@.keys =~= Seq::empty());
        assert(self@.items =~= Seq::empty());
        assert(self@.stats =~= Seq::empty());
    }

    /// Takes in a packet that was read in full.
    fn answer(&mut self, op: Operation, packet: Packet)
        ensures
            final(self)@ == old(self)@.answered_with(op, packet.spec_header(), packet.spec_body()),
    {
        match op {
            Operation::Get | Operation::Gets => {
                if self.answered >= self.keys.len() {
                    self.settle(Err(MemcacheError::Error));
                    return ;
                }
                match read_item(&self.keys[self.answered], &packet) {
                    Err(e) => {
                        self.settle(Err(e));
                    },
                    Ok(found) => {
                        let ghost before = self.items@;
                        match found {
                            Some(item) => {
                                self.items.push(item);
                                assert(items_view(before.push(item)) =~= items_view(before).push(
                                    item@,
                                ));
                            },
                            None => {},
                        }
                        if self.answered + 1 == self.keys.len() {
                            let mut items: Vec<Item> = Vec::new();
                            core::mem::swap(&mut items, &mut self.items);
                            self.settle(Ok(Reply::Values(items)));
                        } else {
                            self.stage = BinaryStage::Header(op);
                            self.answered = self.answered + 1;
                        }
                    },
                }
            },
            Operation::Stats => {
                match read_stat(&packet) {
                    Err(e) => {
                        self.settle(Err(e));
                    },
                    Ok(None) => {
                        let mut stats: Vec<Stat> = Vec::new();
                        core::mem::swap(&mut stats, &mut self.stats);
                        self.settle(Ok(Reply::Stats(stats)));
                    },
                    Ok(Some(stat)) => {
                        let ghost before = self.stats@;
                        self.stats.push(stat);
                        self.stage = BinaryStage::Header(op);
                        assert(stats_view(before.push(stat)) =~= stats_view(before).push(stat@));
                    },
                }
            },
            _ => {
                self.settle(packet_reply(op, &packet));
            },
        }
    }
}

impl ProtocolTrait for BinaryProtocol {
    open spec fn session(&self) -> Session {
        Session::Binary(self@)
    }

    fn begin(&mut self, command: &Command) -> (r: Result<Vec<u8>, MemcacheError>) {
        match command.check_keys() {
            Err(e) => {
                return Err(e);
            },
            Ok(_) => {},
        }
        let mut out: Vec<u8> = Vec::new();
        let opaque = self.opaque;
        let next = if opaque == u32::MAX {
            0
        } else {
            opaque + 1
        };
        match command {
            Command::Gets { keys } => {
                push_pipelined(&mut out, keys, opaque);
                self.opaque = next;
                if keys.len() == 0 {
                    self.settle(Ok(Reply::Values(Vec::new())));
                    assert(items_view(Seq::<Item>::empty()) =~= Seq::<ItemView>::empty());
                    assert(keys_asked(*command) =~= Seq::empty());
                    return Ok(out);
                }
                self.keys = owned_keys(keys);
            },
            _ => {
                if !push_command(&mut out, command, opaque) {
                    return Err(MemcacheError::ClientError("value is too large".to_owned()));
                }
                self.opaque = next;
                self.keys = match command {
                    Command::Get { key } => {
                        let mut one: Vec<String> = Vec::new();
                        one.push((*key).to_owned());
                        one
                    },
                    _ => Vec::new(),
                };
                assert(self@.keys =~= keys_asked(*command));
            },
        }
        self.stage = BinaryStage::Header(command.operation());
        self.answered = 0;
        self.items = Vec::new();
        self.stats = Vec::new();
        self.outcome = None;
        assert(self@.items =~= Seq::empty());
        assert(self@.stats =~= Seq::empty());
        assert(out@ =~= request(*command, opaque));
        Ok(out)
    }

    fn wanted(&self) -> (r: Wanted) {
        match self.stage {
            BinaryStage::Idle => Wanted::Nothing,
            BinaryStage::Header(_) => Wanted::Block(HEADER_LEN),
            BinaryStage::Body(_, header) => Wanted::Block(header.total_body_length as usize),
        }
    }

    fn accept_line(&mut self, line: &str) {
        self.settle(Err(MemcacheError::Error));
    }

    fn accept_block(&mut self, block: Vec<u8>) {
        match self.stage {
            BinaryStage::Header(op) => {
                match PacketHeader::decode(block.as_slice()) {
                    Some(header) => {
                        if header.magic != MAGIC_RESPONSE || header.extras_length as u32
                            + header.key_length as u32 > header.total_body_length {
                            self.settle(Err(MemcacheError::Error));
                        } else if header.total_body_length == 0 {
                            match Packet::new(header, Vec::new()) {
                                Some(packet) => {
                                    self.answer(op, packet);
                                },
                                None => {
                                    self.settle(Err(MemcacheError::Error));
                                },
                            }
                        } else {
                            self.stage = BinaryStage::Body(op, header);
                        }
                    },
                    None => {
                        self.settle(Err(MemcacheError::Error));
                    },
                }
            },
            BinaryStage::Body(op, header) => {
                match Packet::new(header, block) {
                    Some(packet) => {
                        self.answer(op, packet);
                    },
                    None => {
                        self.settle(Err(MemcacheError::Error));
                    },
                }
            },
            BinaryStage::Idle => {
                self.settle(Err(MemcacheError::Error));
            },
        }
    }

    fn take_reply(&mut self) -> (r: Option<Result<Reply, MemcacheError>>) {
        let mut taken: Option<Result<Reply, MemcacheError>> = None;
        core::mem::swap(&mut taken, &mut self.outcome);
        taken
    }
}

/// The binary dialect hands a value back as the server sent it: after a
/// question for the value under `key`, an answer whose extras hold the flags
/// yields the bytes, the flags and the version of the answer, all unread and
/// unchanged, under the key that was asked for.
pub proof fn lemma_value_travels_unchanged(
    state: BinaryState,
    key: &str,
    value: Seq<u8>,
    flags: u32,
    header: PacketHeader,
)
    requires
        header.magic == MAGIC_RESPONSE,
        header.vbucket_id_or_status == STATUS_OK,
        header.extras_length == 4,
        header.key_length == 0,
        header.total_body_length == 4 + value.len(),
    ensures
        state.begun(Command::Get { key }).after_block(header.wire()).after_block(
            be32(flags) + value,
        ).outcome == Some(
            Ok::<ReplyView, Fault>(
                ReplyView::Values(
                    seq![ItemView { key: key@, value, flags, cas: Some(header.cas) }],
                ),
            ),
        ),
{
    let asked = state.begun(Command::Get { key });
    lemma_header_round_trip(header);
    let announced = asked.after_block(header.wire());
    assert(announced.stage == BinaryStage::Body(Operation::Get, header));
    let body = be32(flags) + value;
    lemma_be32_round_trip(flags);
    assert(body =~= be32(flags) + Seq::<u8>::empty() + value);
    lemma_body_parts(header, be32(flags), Seq::empty(), value);
    assert(well_framed(header, body));
    assert(announced.keys[0] == key@);
    let item = ItemView { key: key@, value, flags, cas: Some(header.cas) };
    assert(item_outcome(key@, header, body) == Ok::<Option<ItemView>, Fault>(Some(item)));
    assert(Seq::<ItemView>::empty().push(item) =~= seq![item]);
}

/// A store sends its flags as the first four bytes of its extras and its
/// value as the value of its packet, neither read nor changed.
pub proof fn lemma_store_sends_unchanged(
    mode: StoreMode,
    key: &str,
    value: &[u8],
    flags: u32,
    expiration: u32,
)
    requires
        mode !is Append && mode !is Prepend,
    ensures
        parts(Command::Store { mode, key, value, flags, expiration }).0.subrange(0, 4) == be32(
            flags,
        ),
        parts(Command::Store { mode, key, value, flags, expiration }).2 == value@,
{
    lemma_be32_round_trip(flags);
    lemma_be32_round_trip(expiration);
    assert((be32(flags) + be32(expiration)).subrange(0, 4) =~= be32(flags));
}

/// A question for the value under a key that is not there comes back
/// empty, not as a failure, whether or not the answer has a body.
pub proof fn lemma_absent_key_is_empty(
    state: BinaryState,
    key: &str,
    header: PacketHeader,
    body: Seq<u8>,
)
    requires
        well_framed(header, body),
        header.vbucket_id_or_status == STATUS_KEY_NOT_FOUND,
    ensures
        ({
            let announced = state.begun(Command::Get { key }).after_block(header.wire());
            if body.len() == 0 {
                announced
            } else {
                announced.after_block(body)
            }
        }).outcome == Some(Ok::<ReplyView, Fault>(ReplyView::Values(Seq::empty()))),
{
    lemma_header_round_trip(header);
    let asked = state.begun(Command::Get { key });
    assert(asked.keys[0] == key@);
    assert(body.len() == 0 ==> body =~= Seq::<u8>::empty());
}

/// A compare-and-swap whose version is stale, or whose key is gone, comes
/// back `false`, not as a failure; so do a delete and a touch of a key that
/// is not there.
pub proof fn lemma_absence_is_false(op: Operation, header: PacketHeader, body: Seq<u8>)
    requires
        op is Cas || op is Delete || op is Touch,
        header.vbucket_id_or_status == STATUS_KEY_NOT_FOUND || (op is Cas
            && header.vbucket_id_or_status == STATUS_KEY_EXISTS),
    ensures
        packet_outcome(op, header, body) == Ok::<ReplyView, Fault>(ReplyView::Flag(false)),
{
}

/// A status that blames the request is the client's fault for a store, a
/// step of a counter and every operation that only succeeds or fails: so a
/// store under a key that is there or is not there, and a step on a value
/// that is no number or on a key that is not there. The failure carries the
/// status and the message of the answer.
pub proof fn lemma_blame_is_kept(op: Operation, header: PacketHeader, body: Seq<u8>)
    requires
        op is Store || op is Increment || op is Decrement || op is Auth || op is Flush
            || op is Version,
        STATUS_OK < header.vbucket_id_or_status < STATUS_CLIENT_END,
    ensures
        packet_outcome(op, header, body) == Err::<ReplyView, Fault>(
            Fault::Client(status_text(header.vbucket_id_or_status, body_value(header, body))),
        ),
{
}

} // verus!
