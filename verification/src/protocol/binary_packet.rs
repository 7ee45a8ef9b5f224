//! The packets of the binary dialect: a header of twenty-four bytes, all
//! numbers in network byte order, then the extras, the key and the value.

use vstd::prelude::*;
use crate::text::append_bytes;

verus! {

/// The length of a packet's header.
pub const HEADER_LEN: usize = 24;

/// The first byte of a request.
pub const MAGIC_REQUEST: u8 = 0x80;

/// The first byte of a response.
pub const MAGIC_RESPONSE: u8 = 0x81;

/// The commands of the binary dialect that this client sends.
#[derive(Clone, Copy, Debug, PartialEq, Eq, Structural)]
pub enum Opcode {
    Get,
    SetItem,
    AddItem,
    ReplaceItem,
    Delete,
    Increment,
    Decrement,
    Flush,
    Version,
    AppendItem,
    PrependItem,
    Stat,
    Touch,
    StartAuth,
}

impl Opcode {
    /// The byte that stands for the command in a header.
    pub open spec fn spec_code(self) -> u8 {
        match self {
            Opcode::Get => 0x00,
            Opcode::SetItem => 0x01,
            Opcode::AddItem => 0x02,
            Opcode::ReplaceItem => 0x03,
            Opcode::Delete => 0x04,
            Opcode::Increment => 0x05,
            Opcode::Decrement => 0x06,
            Opcode::Flush => 0x08,
            Opcode::Version => 0x0b,
            Opcode::AppendItem => 0x0e,
            Opcode::PrependItem => 0x0f,
            Opcode::Stat => 0x10,
            Opcode::Touch => 0x1c,
            Opcode::StartAuth => 0x21,
        }
    }

    /// The byte that stands for the command in a header.
    #[verifier::when_used_as_spec(spec_code)]
    pub fn code(self) -> (r: u8)
        ensures
            r == self.spec_code(),
    {
        match self {
            Opcode::Get => 0x00,
            Opcode::SetItem => 0x01,
            Opcode::AddItem => 0x02,
            Opcode::ReplaceItem => 0x03,
            Opcode::Delete => 0x04,
            Opcode::Increment => 0x05,
            Opcode::Decrement => 0x06,
            Opcode::Flush => 0x08,
            Opcode::Version => 0x0b,
            Opcode::AppendItem => 0x0e,
            Opcode::PrependItem => 0x0f,
            Opcode::Stat => 0x10,
            Opcode::Touch => 0x1c,
            Opcode::StartAuth => 0x21,
        }
    }
}

/// The two bytes of `x`, the high one first.
pub open spec fn be16(x: u16) -> Seq<u8> {
    seq![(x / 0x100) as u8, (x % 0x100) as u8]
}

/// The four bytes of `x`, the highest first.
pub open spec fn be32(x: u32) -> Seq<u8> {
    be16((x / 0x1_0000) as u16) + be16((x % 0x1_0000) as u16)
}

/// The eight bytes of `x`, the highest first.
pub open spec fn be64(x: u64) -> Seq<u8> {
    be32((x / 0x1_0000_0000) as u32) + be32((x % 0x1_0000_0000) as u32)
}

/// The number that two bytes in network order denote.
pub open spec fn be16_value(s: Seq<u8>) -> u16
    recommends
        s.len() == 2,
{
    (s[0] * 0x100 + s[1]) as u16
}

/// The number that four bytes in network order denote.
pub open spec fn be32_value(s: Seq<u8>) -> u32
    recommends
        s.len() == 4,
{
    (be16_value(s.subrange(0, 2)) * 0x1_0000 + be16_value(s.subrange(2, 4))) as u32
}

/// The number that eight bytes in network order denote.
pub open spec fn be64_value(s: Seq<u8>) -> u64
    recommends
        s.len() == 8,
{
    (be32_value(s.subrange(0, 4)) * 0x1_0000_0000 + be32_value(s.subrange(4, 8))) as u64
}

/// Two bytes give back the number they were made of.
pub proof fn lemma_be16_round_trip(x: u16)
    ensures
        be16(x).len() == 2,
        be16_value(be16(x)) == x,
{
}

/// Four bytes give back the number they were made of.
pub proof fn lemma_be32_round_trip(x: u32)
    ensures
        be32(x).len() == 4,
        be32_value(be32(x)) == x,
{
    let hi = (x / 0x1_0000) as u16;
    let lo = (x % 0x1_0000) as u16;
    lemma_be16_round_trip(hi);
    lemma_be16_round_trip(lo);
    assert(be32(x).subrange(0, 2) =~= be16(hi));
    assert(be32(x).subrange(2, 4) =~= be16(lo));
}

/// Eight bytes give back the number they were made of.
pub proof fn lemma_be64_round_trip(x: u64)
    ensures
        be64(x).len() == 8,
        be64_value(be64(x)) == x,
{
    let hi = (x / 0x1_0000_0000) as u32;
    let lo = (x % 0x1_0000_0000) as u32;
    lemma_be32_round_trip(hi);
    lemma_be32_round_trip(lo);
    assert(be64(x).subrange(0, 4) =~= be32(hi));
    assert(be64(x).subrange(4, 8) =~= be32(lo));
}

/// A number gives back the two bytes it was read from.
pub proof fn lemma_be16_of_value(s: Seq<u8>)
    requires
        s.len() == 2,
    ensures
        be16(be16_value(s)) == s,
{
    let v = be16_value(s);
    assert(v == s[0] * 0x100 + s[1]);
    assert(v / 0x100 == s[0]);
    assert(v % 0x100 == s[1]);
    assert(be16(v) =~= s);
}

/// A number gives back the four bytes it was read from.
pub proof fn lemma_be32_of_value(s: Seq<u8>)
    requires
        s.len() == 4,
    ensures
        be32(be32_value(s)) == s,
{
    let hi = s.subrange(0, 2);
    let lo = s.subrange(2, 4);
    lemma_be16_of_value(hi);
    lemma_be16_of_value(lo);
    let v = be32_value(s);
    assert(v == be16_value(hi) * 0x1_0000 + be16_value(lo));
    assert(v / 0x1_0000 == be16_value(hi));
    assert(v % 0x1_0000 == be16_value(lo));
    assert(be32(v) =~= s);
}

/// A number gives back the eight bytes it was read from.
pub proof fn lemma_be64_of_value(s: Seq<u8>)
    requires
        s.len() == 8,
    ensures
        be64(be64_value(s)) == s,
{
    let hi = s.subrange(0, 4);
    let lo = s.subrange(4, 8);
    lemma_be32_of_value(hi);
    lemma_be32_of_value(lo);
    let v = be64_value(s);
    assert(v == be32_value(hi) * 0x1_0000_0000 + be32_value(lo));
    assert(v / 0x1_0000_0000 == be32_value(hi));
    assert(v % 0x1_0000_0000 == be32_value(lo));
    assert(be64(v) =~= s);
}

/// Puts the two bytes of `x` at the end of `out`.
pub fn push_be16(out: &mut Vec<u8>, x: u16)
    ensures
        final(out)@ == old(out)@ + be16(x),
{
    out.push((x / 0x100) as u8);
    out.push((x % 0x100) as u8);
    assert(out@ =~= old(out)@ + be16(x));
}

/// Puts the four bytes of `x` at the end of `out`.
pub fn push_be32(out: &mut Vec<u8>, x: u32)
    ensures
        final(out)@ == old(out)@ + be32(x),
{
    push_be16(out, (x / 0x1_0000) as u16);
    push_be16(out, (x % 0x1_0000) as u16);
    assert(out@ =~= old(out)@ + be32(x));
}

/// Puts the eight bytes of `x` at the end of `out`.
pub fn push_be64(out: &mut Vec<u8>, x: u64)
    ensures
        final(out)@ == old(out)@ + be64(x),
{
    push_be32(out, (x / 0x1_0000_0000) as u32);
    push_be32(out, (x % 0x1_0000_0000) as u32);
    assert(out@ =~= old(out)@ + be64(x));
}

/// Reads two bytes of `s` at `at` as a number.
pub fn read_be16(s: &[u8], at: usize) -> (r: u16)
    requires
        at + 2 <= s.len(),
    ensures
        r == be16_value(s@.subrange(at as int, at + 2)),
{
    (s[at] as u16) * 0x100 + (s[at + 1] as u16)
}

/// Reads four bytes of `s` at `at` as a number.
pub fn read_be32(s: &[u8], at: usize) -> (r: u32)
    requires
        at + 4 <= s.len(),
    ensures
        r == be32_value(s@.subrange(at as int, at + 4)),
{
    let hi = read_be16(s, at);
    let lo = read_be16(s, at + 2);
    proof {
        let w = s@.subrange(at as int, at + 4);
        assert(w.subrange(0, 2) =~= s@.subrange(at as int, at + 2));
        assert(w.subrange(2, 4) =~= s@.subrange(at + 2, at + 4));
    }
    (hi as u32) * 0x1_0000 + (lo as u32)
}

/// Reads eight bytes of `s` at `at` as a number.
pub fn read_be64(s: &[u8], at: usize) -> (r: u64)
    requires
        at + 8 <= s.len(),
    ensures
        r == be64_value(s@.subrange(at as int, at + 8)),
{
    let hi = read_be32(s, at);
    let lo = read_be32(s, at + 4);
    proof {
        let w = s@.subrange(at as int, at + 8);
        assert(w.subrange(0, 4) =~= s@.subrange(at as int, at + 4));
        assert(w.subrange(4, 8) =~= s@.subrange(at + 4, at + 8));
    }
    (hi as u64) * 0x1_0000_0000 + (lo as u64)
}

/// The header of a packet.
#[derive(Clone, Copy, Debug, PartialEq, Eq, Structural)]
pub struct PacketHeader {
    pub magic: u8,
    pub opcode: u8,
    pub key_length: u16,
    pub extras_length: u8,
    pub data_type: u8,
    pub vbucket_id_or_status: u16,
    pub total_body_length: u32,
    pub opaque: u32,
    pub cas: u64,
}

impl PacketHeader {
    /// The twenty-four bytes of the header on the wire.
    pub open spec fn wire(self) -> Seq<u8> {
        seq![self.magic, self.opcode] + be16(self.key_length) + seq![
            self.extras_length,
            self.data_type,
        ] + be16(self.vbucket_id_or_status) + be32(self.total_body_length) + be32(self.opaque)
            + be64(self.cas)
    }

    /// The header that twenty-four bytes stand for; other lengths stand for none.
    pub open spec fn parse(bytes: Seq<u8>) -> Option<PacketHeader> {
        if bytes.len() == HEADER_LEN {
            Some(
                PacketHeader {
                    magic: bytes[0],
                    opcode: bytes[1],
                    key_length: be16_value(bytes.subrange(2, 4)),
                    extras_length: bytes[4],
                    data_type: bytes[5],
                    vbucket_id_or_status: be16_value(bytes.subrange(6, 8)),
                    total_body_length: be32_value(bytes.subrange(8, 12)),
                    opaque: be32_value(bytes.subrange(12, 16)),
                    cas: be64_value(bytes.subrange(16, 24)),
                },
            )
        } else {
            None
        }
    }

    /// Writes the header at the end of `out`.
    pub fn write(&self, out: &mut Vec<u8>)
        ensures
            final(out)@ == old(out)@ + self.wire(),
    {
        out.push(self.magic);
        out.push(self.opcode);
        push_be16(out, self.key_length);
        out.push(self.extras_length);
        out.push(self.data_type);
        push_be16(out, self.vbucket_id_or_status);
        push_be32(out, self.total_body_length);
        push_be32(out, self.opaque);
        push_be64(out, self.cas);
        assert(out@ =~= old(out)@ + self.wire());
    }

    /// The bytes of the header.
    pub fn encode(&self) -> (r: Vec<u8>)
        ensures
            r@ == self.wire(),
            r@.len() == HEADER_LEN,
    {
        let mut out: Vec<u8> = Vec::new();
        self.write(&mut out);
        assert(out@ =~= self.wire());
        out
    }

    /// Reads a header from exactly twenty-four bytes.
    pub fn decode(bytes: &[u8]) -> (r: Option<PacketHeader>)
        ensures
            r == Self::parse(bytes@),
    {
        if bytes.len() != HEADER_LEN {
            return None;
        }
        Some(
            PacketHeader {
                magic: bytes[0],
                opcode: bytes[1],
                key_length: read_be16(bytes, 2),
                extras_length: bytes[4],
                data_type: bytes[5],
                vbucket_id_or_status: read_be16(bytes, 6),
                total_body_length: read_be32(bytes, 8),
                opaque: read_be32(bytes, 12),
                cas: read_be64(bytes, 16),
            },
        )
    }

    /// How many bytes of key and value follow the extras.
    pub open spec fn payload_len(self) -> int {
        self.total_body_length - self.extras_length
    }
}

/// A header read back from its bytes is the header that was written.
pub proof fn lemma_header_round_trip(h: PacketHeader)
    ensures
        h.wire().len() == HEADER_LEN,
        PacketHeader::parse(h.wire()) == Some(h),
{
    let w = h.wire();
    lemma_be16_round_trip(h.key_length);
    lemma_be16_round_trip(h.vbucket_id_or_status);
    lemma_be32_round_trip(h.total_body_length);
    lemma_be32_round_trip(h.opaque);
    lemma_be64_round_trip(h.cas);
    assert(w.len() == 24);
    assert(w.subrange(2, 4) =~= be16(h.key_length));
    assert(w.subrange(6, 8) =~= be16(h.vbucket_id_or_status));
    assert(w.subrange(8, 12) =~= be32(h.total_body_length));
    assert(w.subrange(12, 16) =~= be32(h.opaque));
    assert(w.subrange(16, 24) =~= be64(h.cas));
}

/// Twenty-four bytes written back from the header they stand for are the
/// same bytes.
pub proof fn lemma_header_bytes_round_trip(bytes: Seq<u8>)
    requires
        bytes.len() == HEADER_LEN,
    ensures
        PacketHeader::parse(bytes) is Some,
        PacketHeader::parse(bytes)->0.wire() == bytes,
{
    let h = PacketHeader::parse(bytes)->0;
    lemma_be16_of_value(bytes.subrange(2, 4));
    lemma_be16_of_value(bytes.subrange(6, 8));
    lemma_be32_of_value(bytes.subrange(8, 12));
    lemma_be32_of_value(bytes.subrange(12, 16));
    lemma_be64_of_value(bytes.subrange(16, 24));
    assert(h.wire() =~= bytes);
}

/// Whether three parts make a body that a header can announce.
pub open spec fn packet_fits(extras: Seq<u8>, key: Seq<u8>, value: Seq<u8>) -> bool {
    &&& extras.len() <= 0xff
    &&& key.len() <= 0xffff
    &&& extras.len() + key.len() + value.len() <= 0xffff_ffff
}

/// The header of the request that carries the three parts.
pub open spec fn request_header(
    opcode: Opcode,
    opaque: u32,
    cas: u64,
    extras: Seq<u8>,
    key: Seq<u8>,
    value: Seq<u8>,
) -> PacketHeader {
    PacketHeader {
        magic: MAGIC_REQUEST,
        opcode: opcode.spec_code(),
        key_length: key.len() as u16,
        extras_length: extras.len() as u8,
        data_type: 0,
        vbucket_id_or_status: 0,
        total_body_length: (extras.len() + key.len() + value.len()) as u32,
        opaque,
        cas,
    }
}

/// A request on the wire: its header, then extras, key and value.
pub open spec fn request_wire(
    opcode: Opcode,
    opaque: u32,
    cas: u64,
    extras: Seq<u8>,
    key: Seq<u8>,
    value: Seq<u8>,
) -> Seq<u8> {
    request_header(opcode, opaque, cas, extras, key, value).wire() + extras + key + value
}

/// Writes a request at the end of `out`, where its parts fit a header, and
/// says whether they did; `out` is left as it was where they did not.
pub fn push_request(
    out: &mut Vec<u8>,
    opcode: Opcode,
    opaque: u32,
    cas: u64,
    extras: &[u8],
    key: &[u8],
    value: &[u8],
) -> (fits: bool)
    ensures
        fits == packet_fits(extras@, key@, value@),
        fits ==> final(out)@ == old(out)@ + request_wire(
            opcode,
            opaque,
            cas,
            extras@,
            key@,
            value@,
        ),
        !fits ==> final(out)@ == old(out)@,
{
    if extras.len() > 0xff || key.len() > 0xffff || value.len() > 0xffff_ffff - 0xff - 0xffff {
        if extras.len() > 0xff || key.len() > 0xffff {
            return false;
        }
        if value.len() > 0xffff_ffff || extras.len() + key.len() > 0xffff_ffff - value.len() {
            return false;
        }
    }
    let header = PacketHeader {
        magic: MAGIC_REQUEST,
        opcode: opcode.code(),
        key_length: key.len() as u16,
        extras_length: extras.len() as u8,
        data_type: 0,
        vbucket_id_or_status: 0,
        total_body_length: (extras.len() + key.len() + value.len()) as u32,
        opaque,
        cas,
    };
    header.write(out);
    append_bytes(out, extras);
    append_bytes(out, key);
    append_bytes(out, value);
    assert(out@ =~= old(out)@ + request_wire(opcode, opaque, cas, extras@, key@, value@));
    true
}

/// A response as it came off the wire: a header and the body it announced.
#[derive(Debug)]
pub struct Packet {
    header: PacketHeader,
    body: Vec<u8>,
}

/// Whether `body` is a body that the response header `header` announces.
pub open spec fn well_framed(header: PacketHeader, body: Seq<u8>) -> bool {
    &&& header.magic == MAGIC_RESPONSE
    &&& body.len() == header.total_body_length
    &&& header.extras_length + header.key_length <= header.total_body_length
}

/// The extras of a body: its first part.
pub open spec fn body_extras(header: PacketHeader, body: Seq<u8>) -> Seq<u8> {
    body.subrange(0, header.extras_length as int)
}

/// The key of a body: the part after the extras.
pub open spec fn body_key(header: PacketHeader, body: Seq<u8>) -> Seq<u8> {
    body.subrange(header.extras_length as int, header.extras_length + header.key_length)
}

/// The value of a body: all that follows the key.
pub open spec fn body_value(header: PacketHeader, body: Seq<u8>) -> Seq<u8> {
    body.subrange(header.extras_length + header.key_length, body.len() as int)
}

impl Packet {
    #[verifier::type_invariant]
    spec fn framed(self) -> bool {
        well_framed(self.header, self.body@)
    }

    /// The header.
    pub closed spec fn spec_header(self) -> PacketHeader {
        self.header
    }

    /// The whole body.
    pub closed spec fn spec_body(self) -> Seq<u8> {
        self.body@
    }

    /// The status of the response.
    pub open spec fn spec_status(self) -> u16 {
        self.spec_header().vbucket_id_or_status
    }

    /// The extras of the response.
    pub open spec fn spec_extras(self) -> Seq<u8> {
        body_extras(self.spec_header(), self.spec_body())
    }

    /// The key of the response.
    pub open spec fn spec_key(self) -> Seq<u8> {
        body_key(self.spec_header(), self.spec_body())
    }

    /// The value of the response.
    pub open spec fn spec_value(self) -> Seq<u8> {
        body_value(self.spec_header(), self.spec_body())
    }

    /// A response of `header` and `body`, where the one announces the other.
    pub fn new(header: PacketHeader, body: Vec<u8>) -> (r: Option<Packet>)
        ensures
            r is Some <==> well_framed(header, body@),
            r matches Some(p) ==> p.spec_header() == header && p.spec_body() == body@,
    {
        if header.magic != MAGIC_RESPONSE {
            return None;
        }
        if body.len() > 0xffff_ffff || body.len() as u32 != header.total_body_length {
            return None;
        }
        if header.extras_length as u32 + header.key_length as u32 > header.total_body_length {
            return None;
        }
        Some(Packet { header, body })
    }

    /// The header.
    pub fn header(&self) -> (r: PacketHeader)
        ensures
            r == self.spec_header(),
            well_framed(self.spec_header(), self.spec_body()),
    {
        proof {
            use_type_invariant(self);
        }
        self.header
    }

    /// The status of the response.
    pub fn status(&self) -> (r: u16)
        ensures
            r == self.spec_status(),
    {
        self.header.vbucket_id_or_status
    }

    /// The extras of the response.
    pub fn extras(&self) -> (r: &[u8])
        ensures
            r@ == self.spec_extras(),
    {
        proof {
            use_type_invariant(self);
        }
        vstd::slice::slice_subrange(self.body.as_slice(), 0, self.header.extras_length as usize)
    }

    /// The key of the response.
    pub fn key(&self) -> (r: &[u8])
        ensures
            r@ == self.spec_key(),
    {
        proof {
            use_type_invariant(self);
        }
        let from = self.header.extras_length as usize;
        vstd::slice::slice_subrange(
            self.body.as_slice(),
            from,
            from + self.header.key_length as usize,
        )
    }

    /// The value of the response.
    pub fn value(&self) -> (r: &[u8])
        ensures
            r@ == self.spec_value(),
    {
        proof {
            use_type_invariant(self);
        }
        let from = self.header.extras_length as usize + self.header.key_length as usize;
        vstd::slice::slice_subrange(self.body.as_slice(), from, self.body.len())
    }
}

/// A body hands back the parts that were framed into it.
pub proof fn lemma_body_parts(header: PacketHeader, extras: Seq<u8>, key: Seq<u8>, value: Seq<u8>)
    requires
        header.extras_length == extras.len(),
        header.key_length == key.len(),
    ensures
        body_extras(header, extras + key + value) == extras,
        body_key(header, extras + key + value) == key,
        body_value(header, extras + key + value) == value,
{
    let body = extras + key + value;
    assert(body_extras(header, body) =~= extras);
    assert(body_key(header, body) =~= key);
    assert(body_value(header, body) =~= value);
}

} // verus!
