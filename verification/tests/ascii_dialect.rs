use memcache::error::MemcacheError;
use memcache::protocol::ascii::{
    encode, read_stat_line, read_value_header, read_value_line, status_reply, take_block_value,
    AsciiProtocol, ValueHeader,
};
use memcache::protocol::{
    Command, Item, Operation, Protocol, ProtocolTrait, Reply, Stat, StoreMode, Wanted,
};

fn serve(protocol: &mut Protocol, response: &[u8]) -> Result<Reply, MemcacheError> {
    let mut at = 0;
    loop {
        match protocol.wanted() {
            Wanted::Nothing => break,
            Wanted::Line => {
                let end = at + response[at..].iter().position(|b| *b == b'\n').expect("a line") + 1;
                protocol.accept_line(std::str::from_utf8(&response[at..end]).expect("text"));
                at = end;
            }
            Wanted::Block(n) => {
                protocol.accept_block(response[at..at + n].to_vec());
                at += n;
            }
        }
    }
    assert_eq!(at, response.len(), "the whole response is read and no more");
    protocol.take_reply().expect("an outcome")
}

fn item(key: &str, value: &[u8], flags: u32, cas: Option<u64>) -> Item {
    Item { key: key.to_string(), value: value.to_vec(), flags, cas }
}

#[test]
fn set_writes_line_and_block_and_succeeds_on_stored() {
    let mut p = Protocol::ascii();
    let request = p.set("k", b"v", 0, 0).expect("a request");
    assert_eq!(request, b"set k 0 0 1\r\nv\r\n".to_vec());
    assert_eq!(p.wanted(), Wanted::Line);
    let reply = serve(&mut p, b"STORED\r\n").expect("success");
    assert_eq!(reply, Reply::Done);
    assert!(reply.done().is_ok());
    assert_eq!(p.wanted(), Wanted::Nothing);
    assert!(p.take_reply().is_none());
}

#[test]
fn get_of_a_missing_key_is_empty() {
    let mut p = Protocol::ascii();
    let request = p.get("missing").expect("a request");
    assert_eq!(request, b"get missing\r\n".to_vec());
    let reply = serve(&mut p, b"END\r\n").expect("no error");
    assert_eq!(reply, Reply::Values(vec![]));
    assert_eq!(reply.value().expect("a value or none"), None);
}

#[test]
fn get_reads_the_block_that_the_line_announces() {
    let mut p = Protocol::ascii();
    p.get("k").expect("a request");
    let reply = serve(&mut p, b"VALUE k 5 9\r\nab\r\nEND\r\n\r\nEND\r\n").expect("a value");
    assert_eq!(reply.value().expect("a value"), Some(item("k", b"ab\r\nEND\r\n", 5, None)));
}

#[test]
fn gets_gathers_the_keys_that_the_server_names() {
    let mut p = Protocol::ascii();
    let request = p.gets(&["a", "b", "c"]).expect("a request");
    assert_eq!(request, b"gets a b c\r\n".to_vec());
    let reply = serve(&mut p, b"VALUE a 0 1 7\r\nx\r\nVALUE c 4294967295 0 18446744073709551615\r\n\r\nEND\r\n")
        .expect("values");
    assert_eq!(
        reply.values().expect("values"),
        vec![item("a", b"x", 0, Some(7)), item("c", b"", u32::MAX, Some(u64::MAX))]
    );
}

#[test]
fn gets_of_no_keys_sends_nothing_and_is_empty() {
    let mut p = Protocol::ascii();
    let request = p.gets(&[]).expect("a request");
    assert!(request.is_empty());
    assert_eq!(p.wanted(), Wanted::Nothing);
    assert_eq!(p.take_reply().expect("an outcome").expect("values"), Reply::Values(vec![]));
}

#[test]
fn a_key_of_251_bytes_is_refused_before_anything_is_sent() {
    let long = "k".repeat(251);
    let fits = "k".repeat(250);
    let mut p = Protocol::ascii();
    assert!(p.get(&fits).is_ok());
    let mut p = Protocol::ascii();
    let refused: Vec<Result<Vec<u8>, MemcacheError>> = vec![
        p.get(&long),
        p.gets(&["a", &long]),
        p.set(&long, b"v", 0, 0),
        p.cas(&long, b"v", 0, 0, 1),
        p.add(&long, b"v", 0, 0),
        p.replace(&long, b"v", 0, 0),
        p.append(&long, b"v"),
        p.prepend(&long, b"v"),
        p.delete(&long),
        p.increment(&long, 1),
        p.decrement(&long, 1),
        p.touch(&long, 1),
    ];
    for r in refused {
        match r {
            Err(MemcacheError::ClientError(text)) => assert_eq!(text, "key is too long"),
            other => panic!("not refused: {:?}", other),
        }
    }
    assert_eq!(p.wanted(), Wanted::Nothing);
    assert!(p.take_reply().is_none());
}

#[test]
fn a_key_is_measured_in_bytes() {
    let key = "é".repeat(126);
    let mut p = Protocol::ascii();
    assert!(matches!(p.get(&key), Err(MemcacheError::ClientError(_))));
    let key = "é".repeat(125);
    assert!(p.get(&key).is_ok());
}

#[test]
fn cas_with_a_stale_token_is_false() {
    let mut p = Protocol::ascii();
    let request = p.cas("k", b"new", 3, 60, 42).expect("a request");
    assert_eq!(request, b"cas k 3 60 3 42\r\nnew\r\n".to_vec());
    assert_eq!(serve(&mut p, b"EXISTS\r\n").expect("no error").flag().expect("a flag"), false);
    p.cas("k", b"new", 3, 60, 42).expect("a request");
    assert_eq!(serve(&mut p, b"NOT_FOUND\r\n").expect("no error"), Reply::Flag(false));
    p.cas("k", b"new", 3, 60, 42).expect("a request");
    assert_eq!(serve(&mut p, b"STORED\r\n").expect("no error"), Reply::Flag(true));
}

#[test]
fn add_on_an_existing_key_is_a_client_fault() {
    let mut p = Protocol::ascii();
    let request = p.add("k", b"v", 0, 0).expect("a request");
    assert_eq!(request, b"add k 0 0 1\r\nv\r\n".to_vec());
    match serve(&mut p, b"NOT_STORED\r\n") {
        Err(MemcacheError::ClientError(text)) => assert_eq!(text, "NOT_STORED\r\n"),
        other => panic!("{:?}", other),
    }
}

#[test]
fn replace_on_a_missing_key_is_a_client_fault() {
    let mut p = Protocol::ascii();
    let request = p.replace("k", b"v", 1, 2).expect("a request");
    assert_eq!(request, b"replace k 1 2 1\r\nv\r\n".to_vec());
    assert!(matches!(serve(&mut p, b"NOT_STORED\r\n"), Err(MemcacheError::ClientError(_))));
}

#[test]
fn append_and_prepend_send_their_words_and_fail_on_a_missing_key() {
    let mut p = Protocol::ascii();
    assert_eq!(p.append("k", b"xy").expect("a request"), b"append k 0 0 2\r\nxy\r\n".to_vec());
    assert!(matches!(serve(&mut p, b"NOT_STORED\r\n"), Err(MemcacheError::ClientError(_))));
    assert_eq!(p.prepend("k", b"xy").expect("a request"), b"prepend k 0 0 2\r\nxy\r\n".to_vec());
    assert_eq!(serve(&mut p, b"STORED\r\n").expect("success"), Reply::Done);
}

#[test]
fn delete_tells_whether_the_key_was_there() {
    let mut p = Protocol::ascii();
    assert_eq!(p.delete("k").expect("a request"), b"delete k\r\n".to_vec());
    assert_eq!(serve(&mut p, b"DELETED\r\n").expect("no error"), Reply::Flag(true));
    p.delete("k").expect("a request");
    assert_eq!(serve(&mut p, b"NOT_FOUND\r\n").expect("no error"), Reply::Flag(false));
}

#[test]
fn touch_tells_whether_the_key_was_there() {
    let mut p = Protocol::ascii();
    assert_eq!(p.touch("k", 30).expect("a request"), b"touch k 30\r\n".to_vec());
    assert_eq!(serve(&mut p, b"TOUCHED\r\n").expect("no error"), Reply::Flag(true));
    p.touch("k", 30).expect("a request");
    assert_eq!(serve(&mut p, b"NOT_FOUND\r\n").expect("no error"), Reply::Flag(false));
}

#[test]
fn increment_returns_the_new_value() {
    let mut p = Protocol::ascii();
    assert_eq!(p.increment("n", 5).expect("a request"), b"incr n 5\r\n".to_vec());
    assert_eq!(serve(&mut p, b"12\r\n").expect("a number").counter().expect("a number"), 12);
    assert_eq!(
        p.decrement("n", 18446744073709551615).expect("a request"),
        b"decr n 18446744073709551615\r\n".to_vec()
    );
    assert_eq!(serve(&mut p, b"18446744073709551615\r\n").expect("a number"), Reply::Counter(u64::MAX));
}

#[test]
fn increment_on_a_value_that_is_no_number_is_a_client_fault() {
    let line = "CLIENT_ERROR cannot increment or decrement non-numeric value\r\n";
    let mut p = Protocol::ascii();
    p.increment("n", 1).expect("a request");
    match serve(&mut p, line.as_bytes()) {
        Err(MemcacheError::ClientError(text)) => assert_eq!(text, line),
        other => panic!("{:?}", other),
    }
}

#[test]
fn increment_on_a_missing_key_fails() {
    let mut p = Protocol::ascii();
    p.increment("n", 1).expect("a request");
    assert!(matches!(serve(&mut p, b"NOT_FOUND\r\n"), Err(MemcacheError::ClientError(_))));
}

#[test]
fn a_counter_line_that_is_no_number_is_a_protocol_fault() {
    for line in ["18446744073709551616\r\n", "+5\r\n", "5\n", "\r\n", "5 \r\n", "x\r\n"] {
        assert!(matches!(status_reply(Operation::Increment, line), Err(MemcacheError::Error)), "{:?}", line);
    }
    assert_eq!(status_reply(Operation::Decrement, "007\r\n").expect("a number"), Reply::Counter(7));
}

#[test]
fn flush_and_its_delay() {
    let mut p = Protocol::ascii();
    assert_eq!(p.flush().expect("a request"), b"flush_all\r\n".to_vec());
    assert_eq!(serve(&mut p, b"OK\r\n").expect("success"), Reply::Done);
    assert_eq!(p.flush_with_delay(90).expect("a request"), b"flush_all 90\r\n".to_vec());
    assert_eq!(serve(&mut p, b"OK\r\n").expect("success"), Reply::Done);
}

#[test]
fn version_is_what_follows_the_word() {
    let mut p = Protocol::ascii();
    assert_eq!(p.version().expect("a request"), b"version\r\n".to_vec());
    let reply = serve(&mut p, b"VERSION 1.6.21\r\n").expect("a version");
    assert_eq!(reply.version().expect("a version"), "1.6.21");
    assert_eq!(status_reply(Operation::Version, "VERSION \r\n").expect("a version"), Reply::Version(String::new()));
    assert!(matches!(status_reply(Operation::Version, "VERSION\r\n"), Err(MemcacheError::Error)));
}

#[test]
fn auth_is_a_set_of_name_and_password() {
    let mut p = Protocol::ascii();
    assert_eq!(p.auth("user", "secret").expect("a request"), b"set auth 0 0 11\r\nuser secret\r\n".to_vec());
    assert_eq!(serve(&mut p, b"STORED\r\n").expect("success"), Reply::Done);
    p.auth("user", "wrong").expect("a request");
    assert!(matches!(
        serve(&mut p, b"SERVER_ERROR authentication failure\r\n"),
        Err(MemcacheError::ServerError(_))
    ));
}

#[test]
fn stats_are_gathered_until_the_end() {
    let mut p = Protocol::ascii();
    assert_eq!(p.stats().expect("a request"), b"stats\r\n".to_vec());
    let reply = serve(&mut p, b"STAT pid 17\r\nSTAT version 1.6.21 beta\r\nEND\r\n").expect("stats");
    assert_eq!(
        reply.stats().expect("stats"),
        vec![
            Stat { name: "pid".to_string(), value: "17".to_string() },
            Stat { name: "version".to_string(), value: "1.6.21 beta".to_string() },
        ]
    );
}

#[test]
fn an_unknown_line_is_a_protocol_fault() {
    let mut p = Protocol::ascii();
    p.set("k", b"v", 0, 0).expect("a request");
    assert!(matches!(serve(&mut p, b"DELETED\r\n"), Err(MemcacheError::Error)));
    p.get("k").expect("a request");
    assert!(matches!(serve(&mut p, b"VALUE k 0\r\n"), Err(MemcacheError::Error)));
    p.stats().expect("a request");
    assert!(matches!(serve(&mut p, b"STAT pid\r\n"), Err(MemcacheError::Error)));
    p.delete("k").expect("a request");
    assert!(matches!(serve(&mut p, b"ERROR\r\n"), Err(MemcacheError::Error)));
}

#[test]
fn what_nothing_asked_for_is_a_protocol_fault() {
    let mut p = AsciiProtocol::new();
    p.accept_line("STORED\r\n");
    assert!(matches!(p.take_reply(), Some(Err(MemcacheError::Error))));
    p.accept_block(b"abc\r\n".to_vec());
    assert!(matches!(p.take_reply(), Some(Err(MemcacheError::Error))));
    p.begin(&Command::Get { key: "k" }).expect("a request");
    p.accept_block(b"abc\r\n".to_vec());
    assert!(matches!(p.take_reply(), Some(Err(MemcacheError::Error))));
}

#[test]
fn a_block_must_have_the_announced_length_and_end_as_lines_do() {
    assert_eq!(take_block_value(3, b"abc\r\n".to_vec()), Some(b"abc".to_vec()));
    assert_eq!(take_block_value(0, b"\r\n".to_vec()), Some(vec![]));
    assert_eq!(take_block_value(3, b"abcd\r\n".to_vec()), None);
    assert_eq!(take_block_value(3, b"abc\n\n".to_vec()), None);
    assert_eq!(take_block_value(usize::MAX, b"abc\r\n".to_vec()), None);
    let mut p = Protocol::ascii();
    p.get("k").expect("a request");
    p.accept_line("VALUE k 0 3\r\n");
    assert_eq!(p.wanted(), Wanted::Block(5));
    p.accept_block(b"abcde".to_vec());
    assert!(matches!(p.take_reply(), Some(Err(MemcacheError::Error))));
}

#[test]
fn value_headers() {
    assert_eq!(
        read_value_header("VALUE some-key 12 34\r\n"),
        Some(ValueHeader { key: "some-key".to_string(), flags: 12, length: 34, cas: None })
    );
    assert_eq!(
        read_value_header("VALUE k 0 1 99\r\n"),
        Some(ValueHeader { key: "k".to_string(), flags: 0, length: 1, cas: Some(99) })
    );
    for line in [
        "VALUE k 0 1 99 7\r\n",
        "VALUE k 0 1 \r\n",
        "VALUE k 4294967296 1\r\n",
        "VALUE k 0 18446744073709551615\r\n",
        "VALUE k 0 1\n",
        "VALUES k 0 1\r\n",
        "value k 0 1\r\n",
        "VALUE k  1\r\n",
        "VALUE\r\n",
    ] {
        assert_eq!(read_value_header(line), None, "{:?}", line);
    }
    assert!(matches!(read_value_line("END\r\n"), Ok(None)));
    assert!(matches!(read_value_line("SERVER_ERROR busy\r\n"), Err(MemcacheError::ServerError(_))));
    assert!(matches!(read_stat_line("END\r\n"), Ok(None)));
}

#[test]
fn encode_is_what_the_operations_send() {
    let mut p = AsciiProtocol::new();
    let command = Command::Store { mode: StoreMode::IfPresent, key: "k", value: b"v", flags: 9, expiration: 8 };
    assert_eq!(encode(&command), p.begin(&command).expect("a request"));
    assert_eq!(command.operation(), Operation::Store(StoreMode::IfPresent));
}
