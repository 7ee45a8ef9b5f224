use memcache::error::MemcacheError;
use memcache::protocol::binary::BinaryProtocol;
use memcache::protocol::binary_packet::{Opcode, Packet, PacketHeader};
use memcache::protocol::{Command, Item, Protocol, ProtocolTrait, Reply, Stat, Wanted};

fn serve(protocol: &mut Protocol, response: &[u8]) -> Result<Reply, MemcacheError> {
    let mut at = 0;
    loop {
        match protocol.wanted() {
            Wanted::Nothing => break,
            Wanted::Line => panic!("the binary dialect reads no lines"),
            Wanted::Block(n) => {
                protocol.accept_block(response[at..at + n].to_vec());
                at += n;
            }
        }
    }
    assert_eq!(at, response.len(), "the whole response is read and no more");
    protocol.take_reply().expect("an outcome")
}

fn answer(opcode: u8, status: u16, cas: u64, extras: &[u8], key: &[u8], value: &[u8]) -> Vec<u8> {
    let header = PacketHeader {
        magic: 0x81,
        opcode,
        key_length: key.len() as u16,
        extras_length: extras.len() as u8,
        data_type: 0,
        vbucket_id_or_status: status,
        total_body_length: (extras.len() + key.len() + value.len()) as u32,
        opaque: 0,
        cas,
    };
    let mut bytes = header.encode();
    bytes.extend_from_slice(extras);
    bytes.extend_from_slice(key);
    bytes.extend_from_slice(value);
    bytes
}

#[test]
fn a_header_is_twenty_four_bytes_in_network_order() {
    let header = PacketHeader {
        magic: 0x80,
        opcode: 0x01,
        key_length: 0x0102,
        extras_length: 8,
        data_type: 0,
        vbucket_id_or_status: 0x0304,
        total_body_length: 0x05060708,
        opaque: 0x090a0b0c,
        cas: 0x1112131415161718,
    };
    let bytes = header.encode();
    assert_eq!(
        bytes,
        vec![
            0x80, 0x01, 0x01, 0x02, 8, 0, 0x03, 0x04, 0x05, 0x06, 0x07, 0x08, 0x09, 0x0a, 0x0b, 0x0c,
            0x11, 0x12, 0x13, 0x14, 0x15, 0x16, 0x17, 0x18
        ]
    );
    assert_eq!(PacketHeader::decode(&bytes), Some(header));
    assert_eq!(PacketHeader::decode(&bytes[..23]), None);
    let mut longer = bytes.clone();
    longer.push(0);
    assert_eq!(PacketHeader::decode(&longer), None);
}

#[test]
fn opcodes() {
    assert_eq!(Opcode::Get.code(), 0x00);
    assert_eq!(Opcode::SetItem.code(), 0x01);
    assert_eq!(Opcode::AddItem.code(), 0x02);
    assert_eq!(Opcode::ReplaceItem.code(), 0x03);
    assert_eq!(Opcode::Delete.code(), 0x04);
    assert_eq!(Opcode::Increment.code(), 0x05);
    assert_eq!(Opcode::Decrement.code(), 0x06);
    assert_eq!(Opcode::Flush.code(), 0x08);
    assert_eq!(Opcode::Version.code(), 0x0b);
    assert_eq!(Opcode::AppendItem.code(), 0x0e);
    assert_eq!(Opcode::PrependItem.code(), 0x0f);
    assert_eq!(Opcode::Stat.code(), 0x10);
    assert_eq!(Opcode::Touch.code(), 0x1c);
    assert_eq!(Opcode::StartAuth.code(), 0x21);
}

#[test]
fn a_packet_splits_its_body_by_the_lengths_of_its_header() {
    let bytes = answer(0, 0, 5, &[0, 0, 0, 9], b"key", b"value");
    let header = PacketHeader::decode(&bytes[..24]).expect("a header");
    let packet = Packet::new(header, bytes[24..].to_vec()).expect("a packet");
    assert_eq!(packet.header(), header);
    assert_eq!(packet.status(), 0);
    assert_eq!(packet.extras(), &[0, 0, 0, 9]);
    assert_eq!(packet.key(), b"key");
    assert_eq!(packet.value(), b"value");
    assert!(Packet::new(header, bytes[25..].to_vec()).is_none());
    let request = PacketHeader { magic: 0x80, ..header };
    assert!(Packet::new(request, bytes[24..].to_vec()).is_none());
    let wrong = PacketHeader { key_length: 9, ..header };
    assert!(Packet::new(wrong, bytes[24..].to_vec()).is_none());
}

#[test]
fn delete_of_an_absent_key_is_false() {
    let mut p = Protocol::binary();
    let request = p.delete("k").expect("a request");
    assert_eq!(
        request,
        vec![0x80, 0x04, 0, 1, 0, 0, 0, 0, 0, 0, 0, 1, 0, 0, 0, 0, 0, 0, 0, 0, 0, 0, 0, 0, b'k']
    );
    assert_eq!(p.wanted(), Wanted::Block(24));
    let reply = serve(&mut p, &answer(0x04, 0x0001, 0, b"", b"", b"Not found")).expect("no error");
    assert_eq!(reply.flag().expect("a flag"), false);
    p.delete("k").expect("a request");
    assert_eq!(serve(&mut p, &answer(0x04, 0, 0, b"", b"", b"")).expect("no error"), Reply::Flag(true));
}

#[test]
fn set_carries_flags_and_time_to_live_in_its_extras() {
    let mut p = Protocol::binary();
    let request = p.set("key", b"value", 0x01020304, 0x0a0b0c0d).expect("a request");
    let mut expected = vec![0x80, 0x01, 0, 3, 8, 0, 0, 0, 0, 0, 0, 16, 0, 0, 0, 0, 0, 0, 0, 0, 0, 0, 0, 0];
    expected.extend_from_slice(&[1, 2, 3, 4, 0x0a, 0x0b, 0x0c, 0x0d]);
    expected.extend_from_slice(b"keyvalue");
    assert_eq!(request, expected);
    assert_eq!(serve(&mut p, &answer(0x01, 0, 1, b"", b"", b"")).expect("success"), Reply::Done);
}

#[test]
fn each_exchange_has_the_next_opaque() {
    let mut p = Protocol::binary();
    for n in 0u8..3 {
        let request = p.version().expect("a request");
        assert_eq!(&request[12..16], &[0, 0, 0, n]);
        assert_eq!(request.len(), 24);
        assert_eq!(request[1], 0x0b);
        let reply = serve(&mut p, &answer(0x0b, 0, 0, b"", b"", b"1.6.21")).expect("a version");
        assert_eq!(reply, Reply::Version("1.6.21".to_string()));
    }
}

#[test]
fn get_takes_flags_from_the_extras_and_the_version_from_the_header() {
    let mut p = Protocol::binary();
    p.get("k").expect("a request");
    let reply = serve(&mut p, &answer(0, 0, 77, &[0, 0, 1, 2], b"", b"data")).expect("a value");
    assert_eq!(
        reply.value().expect("a value"),
        Some(Item { key: "k".to_string(), value: b"data".to_vec(), flags: 258, cas: Some(77) })
    );
    p.get("k").expect("a request");
    let reply = serve(&mut p, &answer(0, 1, 0, b"", b"", b"Not found")).expect("no error");
    assert_eq!(reply.value().expect("nothing"), None);
    p.get("k").expect("a request");
    assert!(matches!(serve(&mut p, &answer(0, 0, 0, b"", b"", b"data")), Err(MemcacheError::Error)));
}

#[test]
fn gets_asks_for_each_key_and_matches_the_answers_by_their_order() {
    let mut p = Protocol::binary();
    let request = p.gets(&["a", "bb", "c"]).expect("a request");
    assert_eq!(request.len(), 3 * 24 + 4);
    assert_eq!(&request[..2], &[0x80, 0x00]);
    assert_eq!(request[24], b'a');
    assert_eq!(&request[25..27], &[0x80, 0x00]);
    assert_eq!(&request[49..51], b"bb");
    let mut response = answer(0, 0, 1, &[0, 0, 0, 0], b"", b"x");
    response.extend(answer(0, 1, 0, b"", b"", b""));
    response.extend(answer(0, 0, 3, &[0, 0, 0, 9], b"", b""));
    let reply = serve(&mut p, &response).expect("values");
    assert_eq!(
        reply.values().expect("values"),
        vec![
            Item { key: "a".to_string(), value: b"x".to_vec(), flags: 0, cas: Some(1) },
            Item { key: "c".to_string(), value: vec![], flags: 9, cas: Some(3) },
        ]
    );
    assert!(p.gets(&[]).expect("a request").is_empty());
    assert_eq!(p.wanted(), Wanted::Nothing);
    assert_eq!(p.take_reply().expect("an outcome").expect("values"), Reply::Values(vec![]));
}

#[test]
fn cas_with_a_stale_token_is_false_in_binary() {
    let mut p = Protocol::binary();
    let request = p.cas("k", b"v", 0, 0, 0x0102).expect("a request");
    assert_eq!(request[1], 0x01);
    assert_eq!(&request[16..24], &[0, 0, 0, 0, 0, 0, 1, 2]);
    assert_eq!(serve(&mut p, &answer(1, 0x0002, 0, b"", b"", b"Data exists for key.")).expect("no error"), Reply::Flag(false));
    p.cas("k", b"v", 0, 0, 0x0102).expect("a request");
    assert_eq!(serve(&mut p, &answer(1, 0x0001, 0, b"", b"", b"Not found")).expect("no error"), Reply::Flag(false));
    p.cas("k", b"v", 0, 0, 0x0102).expect("a request");
    assert_eq!(serve(&mut p, &answer(1, 0, 9, b"", b"", b"")).expect("no error"), Reply::Flag(true));
}

#[test]
fn add_and_replace_fail_with_client_faults_in_binary() {
    let mut p = Protocol::binary();
    assert_eq!(p.add("k", b"v", 0, 0).expect("a request")[1], 0x02);
    match serve(&mut p, &answer(2, 0x0002, 0, b"", b"", b"Data exists for key.")) {
        Err(MemcacheError::ClientError(text)) => assert_eq!(text, "2 Data exists for key."),
        other => panic!("{:?}", other),
    }
    assert_eq!(p.replace("k", b"v", 0, 0).expect("a request")[1], 0x03);
    match serve(&mut p, &answer(3, 0x0001, 0, b"", b"", b"Not found")) {
        Err(MemcacheError::ClientError(text)) => assert_eq!(text, "1 Not found"),
        other => panic!("{:?}", other),
    }
}

#[test]
fn append_and_prepend_have_no_extras() {
    let mut p = Protocol::binary();
    let request = p.append("k", b"xy").expect("a request");
    assert_eq!(&request[..12], &[0x80, 0x0e, 0, 1, 0, 0, 0, 0, 0, 0, 0, 3]);
    assert_eq!(&request[24..], b"kxy");
    assert!(matches!(
        serve(&mut p, &answer(0x0e, 0x0005, 0, b"", b"", b"Not stored.")),
        Err(MemcacheError::ClientError(_))
    ));
    let request = p.prepend("k", b"xy").expect("a request");
    assert_eq!(request[1], 0x0f);
    assert_eq!(serve(&mut p, &answer(0x0f, 0, 0, b"", b"", b"")).expect("success"), Reply::Done);
}

#[test]
fn counters_in_binary() {
    let mut p = Protocol::binary();
    let request = p.increment("n", 5).expect("a request");
    assert_eq!(&request[..12], &[0x80, 0x05, 0, 1, 20, 0, 0, 0, 0, 0, 0, 21]);
    assert_eq!(
        &request[24..44],
        &[0, 0, 0, 0, 0, 0, 0, 5, 0, 0, 0, 0, 0, 0, 0, 0, 0xff, 0xff, 0xff, 0xff]
    );
    assert_eq!(request[44], b'n');
    let reply = serve(&mut p, &answer(5, 0, 0, b"", b"", &[0, 0, 0, 0, 0, 0, 1, 0])).expect("a number");
    assert_eq!(reply.counter().expect("a number"), 256);
    assert_eq!(p.decrement("n", 1).expect("a request")[1], 0x06);
    match serve(&mut p, &answer(6, 0x0006, 0, b"", b"", b"Non-numeric server-side value for incr or decr")) {
        Err(MemcacheError::ClientError(text)) => {
            assert_eq!(text, "6 Non-numeric server-side value for incr or decr")
        }
        other => panic!("{:?}", other),
    }
    p.increment("n", 1).expect("a request");
    assert!(matches!(
        serve(&mut p, &answer(5, 0x0001, 0, b"", b"", b"Not found")),
        Err(MemcacheError::ClientError(_))
    ));
    p.increment("n", 1).expect("a request");
    assert!(matches!(serve(&mut p, &answer(5, 0, 0, b"", b"", b"12")), Err(MemcacheError::Error)));
}

#[test]
fn touch_and_flush_in_binary() {
    let mut p = Protocol::binary();
    let request = p.touch("k", 0x0102).expect("a request");
    assert_eq!(&request[..12], &[0x80, 0x1c, 0, 1, 4, 0, 0, 0, 0, 0, 0, 5]);
    assert_eq!(&request[24..], &[0, 0, 1, 2, b'k']);
    assert_eq!(serve(&mut p, &answer(0x1c, 1, 0, b"", b"", b"Not found")).expect("no error"), Reply::Flag(false));
    let request = p.flush().expect("a request");
    assert_eq!(request.len(), 24);
    assert_eq!(request[1], 0x08);
    assert_eq!(serve(&mut p, &answer(8, 0, 0, b"", b"", b"")).expect("success"), Reply::Done);
    let request = p.flush_with_delay(7).expect("a request");
    assert_eq!(&request[24..], &[0, 0, 0, 7]);
    assert_eq!(request[4], 4);
}

#[test]
fn auth_in_binary() {
    let mut p = Protocol::binary();
    let request = p.auth("user", "pw").expect("a request");
    assert_eq!(&request[..12], &[0x80, 0x21, 0, 5, 0, 0, 0, 0, 0, 0, 0, 13]);
    assert_eq!(&request[24..], b"PLAIN\0user\0pw");
    assert_eq!(serve(&mut p, &answer(0x21, 0, 0, b"", b"", b"Authenticated")).expect("success"), Reply::Done);
    p.auth("user", "wrong").expect("a request");
    match serve(&mut p, &answer(0x21, 0x0020, 0, b"", b"", b"Auth failure.")) {
        Err(MemcacheError::ServerError(text)) => assert_eq!(text, "32 Auth failure."),
        other => panic!("{:?}", other),
    }
}

#[test]
fn stats_in_binary_end_with_a_packet_without_a_key() {
    let mut p = Protocol::binary();
    let request = p.stats().expect("a request");
    assert_eq!(request.len(), 24);
    assert_eq!(request[1], 0x10);
    let mut response = answer(0x10, 0, 0, b"", b"pid", b"17");
    response.extend(answer(0x10, 0, 0, b"", b"uptime", b"3"));
    response.extend(answer(0x10, 0, 0, b"", b"", b""));
    let reply = serve(&mut p, &response).expect("stats");
    assert_eq!(
        reply.stats().expect("stats"),
        vec![
            Stat { name: "pid".to_string(), value: "17".to_string() },
            Stat { name: "uptime".to_string(), value: "3".to_string() },
        ]
    );
}

#[test]
fn unknown_commands_and_server_failures_in_binary() {
    let mut p = Protocol::binary();
    p.set("k", b"v", 0, 0).expect("a request");
    assert!(matches!(
        serve(&mut p, &answer(1, 0x0081, 0, b"", b"", b"Unknown command")),
        Err(MemcacheError::Error)
    ));
    p.set("k", b"v", 0, 0).expect("a request");
    assert!(matches!(
        serve(&mut p, &answer(1, 0x0082, 0, b"", b"", b"Out of memory")),
        Err(MemcacheError::ServerError(_))
    ));
    p.set("k", b"v", 0, 0).expect("a request");
    assert!(matches!(
        serve(&mut p, &answer(1, 0x0003, 0, b"", b"", b"Too large.")),
        Err(MemcacheError::ClientError(_))
    ));
}

#[test]
fn what_is_no_answer_is_a_protocol_fault() {
    let mut p = BinaryProtocol::new();
    p.begin(&Command::Version).expect("a request");
    p.accept_block(vec![0x80; 24]);
    assert!(matches!(p.take_reply(), Some(Err(MemcacheError::Error))));
    p.begin(&Command::Version).expect("a request");
    p.accept_block(vec![0x81; 23]);
    assert!(matches!(p.take_reply(), Some(Err(MemcacheError::Error))));
    p.begin(&Command::Version).expect("a request");
    p.accept_line("VERSION 1\r\n");
    assert!(matches!(p.take_reply(), Some(Err(MemcacheError::Error))));
    p.accept_block(vec![]);
    assert!(matches!(p.take_reply(), Some(Err(MemcacheError::Error))));
    p.begin(&Command::Version).expect("a request");
    let bytes = answer(0x0b, 0, 0, b"", b"", b"1.6");
    p.accept_block(bytes[..24].to_vec());
    assert_eq!(p.wanted(), Wanted::Block(3));
    p.accept_block(b"1.".to_vec());
    assert!(matches!(p.take_reply(), Some(Err(MemcacheError::Error))));
}

#[test]
fn a_long_key_is_refused_in_binary_too() {
    let long = "k".repeat(251);
    let mut p = Protocol::binary();
    assert!(matches!(p.get(&long), Err(MemcacheError::ClientError(_))));
    assert!(matches!(p.gets(&[&long]), Err(MemcacheError::ClientError(_))));
    assert!(matches!(p.set(&long, b"", 0, 0), Err(MemcacheError::ClientError(_))));
    assert_eq!(p.wanted(), Wanted::Nothing);
    let request = p.version().expect("a request");
    assert_eq!(&request[12..16], &[0, 0, 0, 0], "a refused command uses up no opaque");
}
