use redis_core::commands::xadd::EntryId;
use redis_core::redis::client::{
    CacheVal, Client, KeyVal, ListCacheVal, StreamCacheVal, StreamItem, StringCacheVal,
};
use redis_core::redis::instance::Instance;
use redis_core::redis::store::{same_bytes, Store};
use redis_core::redis::stream_id::StreamId;
use redis_core::resp::decimal::{
    parse_digits, parse_i64, parse_millis, parse_unsigned, push_decimal, push_int,
};

fn decimal(n: u128) -> String {
    let mut out = Vec::new();
    push_decimal(&mut out, n);
    String::from_utf8(out).unwrap()
}

fn signed(n: i64) -> String {
    let mut out = b"x".to_vec();
    push_int(&mut out, n);
    String::from_utf8(out).unwrap()
}

#[test]
fn numerals_are_written_without_leading_zeros() {
    assert_eq!(decimal(0), "0");
    assert_eq!(decimal(9), "9");
    assert_eq!(decimal(10), "10");
    assert_eq!(decimal(1_526_919_030_474), "1526919030474");
    assert_eq!(decimal(u128::MAX), "340282366920938463463374607431768211455");
    assert_eq!(signed(0), "x0");
    assert_eq!(signed(-1), "x-1");
    assert_eq!(signed(i64::MIN), "x-9223372036854775808");
    assert_eq!(signed(i64::MAX), "x9223372036854775807");
}

#[test]
fn numerals_are_read_with_an_optional_sign() {
    assert_eq!(parse_i64(b"0"), Some(0));
    assert_eq!(parse_i64(b"+5"), Some(5));
    assert_eq!(parse_i64(b"-0"), Some(0));
    assert_eq!(parse_i64(b"007"), Some(7));
    assert_eq!(parse_i64(b"-9223372036854775808"), Some(i64::MIN));
    assert_eq!(parse_i64(b"9223372036854775807"), Some(i64::MAX));
    assert_eq!(parse_i64(b"9223372036854775808"), None);
    assert_eq!(parse_i64(b"-9223372036854775809"), None);
    assert_eq!(parse_i64(b"340282366920938463463374607431768211456"), None);
    assert_eq!(parse_i64(b"000000000000000000000000000000000000000000000012"), Some(12));
    for bad in [&b""[..], b"-", b"+", b"1a", b" 1", b"1 ", b"--1", b"+-1", b"1.0", b"0x10"] {
        assert_eq!(parse_i64(bad), None, "{:?}", bad);
    }
    assert_eq!(parse_digits(b"340282366920938463463374607431768211455"), Some(u128::MAX));
    assert_eq!(parse_digits(b"340282366920938463463374607431768211456"), None);
    assert_eq!(parse_digits(b"+1"), None);
    assert_eq!(parse_unsigned(b"+1", 10), Some(1));
    assert_eq!(parse_unsigned(b"10", 10), Some(10));
    assert_eq!(parse_unsigned(b"11", 10), None);
    assert_eq!(parse_unsigned(b"-0", 10), None);
    for n in [i64::MIN, -1, 0, 1, 42, i64::MAX] {
        let mut text = Vec::new();
        push_int(&mut text, n);
        assert_eq!(parse_i64(&text), Some(n));
    }
}

#[test]
fn seconds_are_read_as_milliseconds() {
    assert_eq!(parse_millis(b"0"), Some(0));
    assert_eq!(parse_millis(b"1"), Some(1_000));
    assert_eq!(parse_millis(b"0.5"), Some(500));
    assert_eq!(parse_millis(b"0.05"), Some(50));
    assert_eq!(parse_millis(b"1.2345"), Some(1_234));
    assert_eq!(parse_millis(b"2."), Some(2_000));
    assert_eq!(parse_millis(b"12.001"), Some(12_001));
    assert_eq!(parse_millis(b".5"), None);
    assert_eq!(parse_millis(b""), None);
    assert_eq!(parse_millis(b"1.2.3"), None);
    assert_eq!(parse_millis(b"-1"), None);
    assert_eq!(parse_millis(b"1e3"), None);
    assert_eq!(parse_millis(b"340282366920938463463374607431768211"), Some(u128::MAX - 455));
    assert_eq!(parse_millis(b"340282366920938463463374607431768211.455"), Some(u128::MAX));
    assert_eq!(parse_millis(b"340282366920938463463374607431768211.456"), None);
    assert_eq!(parse_millis(b"340282366920938463463374607431768212"), None);
}

#[test]
fn stream_ids_are_read_and_written() {
    assert_eq!(StreamId::parse(b"0-1"), Some(StreamId { ms: 0, seq: 1 }));
    assert_eq!(
        StreamId::parse(b"1526919030474-0"),
        Some(StreamId { ms: 1_526_919_030_474, seq: 0 })
    );
    assert_eq!(StreamId { ms: 12, seq: 34 }.to_text(), b"12-34");
    assert_eq!(
        StreamId::parse(b"5-18446744073709551615"),
        Some(StreamId { ms: 5, seq: u64::MAX })
    );
    for bad in [&b""[..], b"5", b"5-", b"-5", b"5-18446744073709551616", b"1-2-3", b"a-1", b"*", b"1-*"] {
        assert_eq!(StreamId::parse(bad), None, "{:?}", bad);
    }
    let low = StreamId { ms: 9, seq: 7 };
    let high = StreamId { ms: 10, seq: 0 };
    assert!(low.less_than(&high));
    assert!(!high.less_than(&low));
    assert!(!low.less_than(&low));
    assert!(low.less_than(&StreamId { ms: 9, seq: 8 }));
    assert_eq!(EntryId::parse(b"*"), Some(EntryId::Auto));
    assert_eq!(EntryId::parse(b"7-*"), Some(EntryId::Partial(7)));
    assert_eq!(EntryId::parse(b"7-8"), Some(EntryId::Explicit(StreamId { ms: 7, seq: 8 })));
    assert_eq!(EntryId::parse(b"-*"), None);
    assert_eq!(EntryId::parse(b"**"), None);
    assert_eq!(EntryId::parse(b"7-*x"), None);
    assert_eq!(EntryId::parse(b""), None);
}

#[test]
fn a_store_keeps_one_value_to_a_key() {
    let mut store = Store::new();
    assert_eq!(store.len(), 0);
    assert!(!store.contains_key(b"k"));
    assert!(store.get(b"k").is_none());
    store.insert(
        b"k".to_vec(),
        CacheVal::String(StringCacheVal { val: b"1".to_vec(), expiry_time: None }),
    );
    store.insert(b"l".to_vec(), CacheVal::List(ListCacheVal { list: vec![], block_queue: vec![] }));
    store.insert(
        b"k".to_vec(),
        CacheVal::String(StringCacheVal { val: b"2".to_vec(), expiry_time: Some(9) }),
    );
    assert_eq!(store.len(), 2);
    assert_eq!(store.position(b"k"), Some(0));
    assert_eq!(store.position(b"l"), Some(1));
    assert_eq!(store.position(b"m"), None);
    assert_eq!(store.live_position(b"k", 8), Some(0));
    assert_eq!(store.live_position(b"k", 9), None);
    match store.get(b"k") {
        Some(CacheVal::String(s)) => assert_eq!((&s.val[..], s.expiry_time), (&b"2"[..], Some(9))),
        _ => panic!("no string"),
    }
    assert!(same_bytes(b"ab", b"ab"));
    assert!(!same_bytes(b"ab", b"ac"));
    assert!(!same_bytes(b"ab", b"abc"));
}

#[test]
fn validity_is_checked_at_run_time() {
    let entry = |ms: u128, seq: u64| StreamItem {
        id: StreamId { ms, seq },
        key_vals: vec![KeyVal { key: b"f".to_vec(), val: b"v".to_vec() }],
    };
    assert!(CacheVal::Stream(StreamCacheVal { stream: vec![] }).is_valid());
    assert!(CacheVal::Stream(StreamCacheVal { stream: vec![entry(0, 1), entry(0, 2), entry(1, 0)] })
        .is_valid());
    assert!(!CacheVal::Stream(StreamCacheVal { stream: vec![entry(0, 0)] }).is_valid());
    assert!(!CacheVal::Stream(StreamCacheVal { stream: vec![entry(1, 1), entry(1, 1)] }).is_valid());
    assert!(!CacheVal::Stream(StreamCacheVal { stream: vec![entry(1, 1), entry(2, 0), entry(1, 5)] })
        .is_valid());
    let queue = |ids: &[&str]| {
        CacheVal::List(ListCacheVal {
            list: vec![b"x".to_vec(), b"x".to_vec()],
            block_queue: ids.iter().map(|i| i.as_bytes().to_vec()).collect(),
        })
    };
    assert!(queue(&["a", "b", "c"]).is_valid());
    assert!(!queue(&["a", "b", "a"]).is_valid());
    assert!(!queue(&["a", "b", "b"]).is_valid());

    let mut store = Store::new();
    store.insert(b"k".to_vec(), queue(&["a"]));
    assert!(store.is_valid());
    store.slots[0].val = queue(&["a", "a"]);
    assert!(!store.is_valid());
    store.slots[0].val = queue(&[]);
    store.insert(b"l".to_vec(), queue(&[]));
    store.slots[1].key = b"k".to_vec();
    assert!(!store.is_valid());

    let mut instance = Instance::new(Store::new(), true);
    assert!(instance.is_valid());
    instance.replica_clients = vec![b"f".to_vec(), b"f".to_vec()];
    assert!(!instance.is_valid());
    let mut client = Client::with_id(b"c".to_vec());
    assert!(client.is_valid());
    client.subscribed_channels = vec![b"n".to_vec(), b"n".to_vec()];
    assert!(!client.is_valid());
}

#[test]
fn connections_get_ids_of_their_own() {
    let one = Client::new();
    let two = Client::new();
    assert_eq!(one.id.len(), 36);
    assert_eq!(two.id.len(), 36);
    assert_ne!(one.id, two.id);
    assert!(one.id.iter().all(|b| b.is_ascii_hexdigit() || *b == b'-'));
    assert!(!one.staging_commands && !one.is_replica_connection);
    assert!(one.subscribed_channels.is_empty() && one.staged_commands.is_empty());
    assert_eq!(Client::extract_num(&vec![b"a".to_vec(), b"-12".to_vec()], 1), Some(-12));
    assert_eq!(Client::extract_num(&vec![b"a".to_vec(), b"-12".to_vec()], 0), None);
    assert_eq!(Client::extract_num(&vec![b"a".to_vec(), b"-12".to_vec()], 2), None);
}
