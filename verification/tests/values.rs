use memcache::error::MemcacheError;
use memcache::protocol::{Protocol, ProtocolTrait, Wanted};
use memcache::value::{FromMemcacheValue, ToMemcacheValue};

fn stored<V: ToMemcacheValue>(value: V) -> (Vec<u8>, u32) {
    (value.to_bytes(), value.get_flags())
}

#[test]
fn what_values_are_stored_as() {
    assert_eq!(stored("héllo"), ("héllo".as_bytes().to_vec(), 0));
    assert_eq!(stored(String::from("text")), (b"text".to_vec(), 0));
    assert_eq!(stored(&[0u8, 255, 13, 10][..]), (vec![0, 255, 13, 10], 0));
    assert_eq!(stored(vec![1u8, 2]), (vec![1, 2], 0));
    assert_eq!(stored(true), (b"true".to_vec(), 0));
    assert_eq!(stored(false), (b"false".to_vec(), 0));
    assert_eq!(stored(0u8), (b"0".to_vec(), 0));
    assert_eq!(stored(65535u16), (b"65535".to_vec(), 0));
    assert_eq!(stored(4294967295u32), (b"4294967295".to_vec(), 0));
    assert_eq!(stored(u64::MAX), (b"18446744073709551615".to_vec(), 0));
}

#[test]
fn values_come_back_as_they_were_stored() {
    let (bytes, flags) = stored(String::from("héllo"));
    assert_eq!(String::from_memcache_value(bytes, flags).expect("text"), "héllo");
    let (bytes, flags) = stored(vec![0u8, 159, 13, 10]);
    assert_eq!(Vec::<u8>::from_memcache_value(bytes, flags).expect("bytes"), vec![0u8, 159, 13, 10]);
    for b in [true, false] {
        let (bytes, flags) = stored(b);
        assert_eq!(bool::from_memcache_value(bytes, flags).expect("a bool"), b);
    }
    for n in [0u64, 9, 10, 255, 256, 65535, 65536, 4294967295, 4294967296, u64::MAX] {
        let (bytes, flags) = stored(n);
        assert_eq!(u64::from_memcache_value(bytes, flags).expect("a number"), n);
    }
    let (bytes, flags) = stored(200u8);
    assert_eq!(u8::from_memcache_value(bytes, flags).expect("a number"), 200);
    let (bytes, flags) = stored(60000u16);
    assert_eq!(u16::from_memcache_value(bytes, flags).expect("a number"), 60000);
    let (bytes, flags) = stored(4000000000u32);
    assert_eq!(u32::from_memcache_value(bytes, flags).expect("a number"), 4000000000);
}

#[test]
fn what_cannot_be_read_is_a_client_fault() {
    fn refused<V: std::fmt::Debug>(r: Result<V, MemcacheError>) {
        match r {
            Err(MemcacheError::ClientError(text)) => assert_eq!(text, "value is not of the type asked for"),
            other => panic!("{:?}", other),
        }
    }
    refused(String::from_memcache_value(vec![0xff, 0xfe], 0));
    refused(bool::from_memcache_value(b"1".to_vec(), 0));
    refused(bool::from_memcache_value(b"True".to_vec(), 0));
    refused(u8::from_memcache_value(b"256".to_vec(), 0));
    refused(u16::from_memcache_value(b"65536".to_vec(), 0));
    refused(u32::from_memcache_value(b"4294967296".to_vec(), 0));
    refused(u64::from_memcache_value(b"18446744073709551616".to_vec(), 0));
    refused(u64::from_memcache_value(b"".to_vec(), 0));
    refused(u64::from_memcache_value(b"-1".to_vec(), 0));
}

#[test]
fn a_value_goes_through_a_store_and_a_get_unchanged() {
    let value = 1234567u32;
    let mut p = Protocol::ascii();
    let request = p.set("n", &value.to_bytes(), value.get_flags(), 0).expect("a request");
    assert_eq!(request, b"set n 0 0 7\r\n1234567\r\n".to_vec());
    p.accept_line("STORED\r\n");
    assert!(p.take_reply().expect("an outcome").is_ok());
    p.get("n").expect("a request");
    p.accept_line("VALUE n 0 7\r\n");
    assert_eq!(p.wanted(), Wanted::Block(9));
    p.accept_block(b"1234567\r\n".to_vec());
    p.accept_line("END\r\n");
    let item = p.take_reply().expect("an outcome").expect("values").value().expect("a value").expect("found");
    assert_eq!(u32::from_memcache_value(item.value, item.flags).expect("a number"), value);
}
