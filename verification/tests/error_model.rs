use memcache::error::{is_memcache_error, line_error, line_shape, LineShape, MemcacheError};

#[test]
fn bare_error_token_is_a_protocol_fault() {
    assert!(is_memcache_error("ERROR\r\n"));
    assert!(matches!(MemcacheError::from(String::from("ERROR\r\n")), MemcacheError::Error));
}

#[test]
fn client_error_line_carries_its_exact_text() {
    let line = "CLIENT_ERROR bad command line format\r\n";
    assert!(is_memcache_error(line));
    match MemcacheError::from(String::from(line)) {
        MemcacheError::ClientError(text) => assert_eq!(text, line),
        other => panic!("classified as {:?}", other),
    }
}

#[test]
fn server_error_line_carries_its_exact_text() {
    let line = "SERVER_ERROR out of memory storing object\r\n";
    assert!(is_memcache_error(line));
    match MemcacheError::from(String::from(line)) {
        MemcacheError::ServerError(text) => assert_eq!(text, line),
        other => panic!("classified as {:?}", other),
    }
}

#[test]
fn success_tokens_are_no_errors() {
    for line in ["STORED\r\n", "END\r\n", "ERROR", "ERROR\n", "CIENT_ERROR x\r\n", "", "12\r\n"] {
        assert!(!is_memcache_error(line));
        assert!(line_error(line).is_none());
        assert_eq!(line_shape(line), LineShape::Other);
    }
}

#[test]
fn a_line_of_no_error_shape_converts_to_the_protocol_fault() {
    assert!(matches!(MemcacheError::from(String::from("STORED\r\n")), MemcacheError::Error));
}

#[test]
fn status_ranges_map_to_the_three_faults() {
    match MemcacheError::from_status(0x0001, b"Not found") {
        MemcacheError::ClientError(text) => assert_eq!(text, "1 Not found"),
        other => panic!("classified as {:?}", other),
    }
    match MemcacheError::from_status(0x0006, b"") {
        MemcacheError::ClientError(text) => assert_eq!(text, "6"),
        other => panic!("classified as {:?}", other),
    }
    assert!(matches!(MemcacheError::from_status(0x0081, b"Unknown command"), MemcacheError::Error));
    match MemcacheError::from_status(0x0082, b"Out of memory") {
        MemcacheError::ServerError(text) => assert_eq!(text, "130 Out of memory"),
        other => panic!("classified as {:?}", other),
    }
    match MemcacheError::from_status(0x0020, &[0xff, 0xfe]) {
        MemcacheError::ServerError(text) => assert_eq!(text, "32"),
        other => panic!("classified as {:?}", other),
    }
}

#[test]
fn descriptions_and_causes() {
    let e = MemcacheError::ClientError(String::from("CLIENT_ERROR x\r\n"));
    assert_eq!(e.description(), "CLIENT_ERROR x\r\n");
    assert_eq!(e.to_string(), "CLIENT_ERROR x\r\n");
    assert!(e.cause().is_none());
    assert_eq!(MemcacheError::Error.description(), "Error");
    assert_eq!(MemcacheError::Error.to_string(), "Error");
    let io = std::io::Error::new(std::io::ErrorKind::UnexpectedEof, "short read");
    let e = MemcacheError::from(io);
    assert!(e.cause().is_some());
    assert_eq!(e.to_string(), "short read");
    assert!(!e.description().is_empty());
    assert!(matches!(e, MemcacheError::Io(_)));
}
