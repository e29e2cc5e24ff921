use redis_core::redis::client::{
    CacheVal, Client, KeyVal, ListCacheVal, Step, StreamCacheVal, StreamItem, StringCacheVal,
};
use redis_core::redis::instance::Instance;
use redis_core::redis::store::Store;
use redis_core::redis::stream_id::StreamId;
use redis_core::resp::types::RespType;

fn now() -> u128 {
    std::time::SystemTime::now().duration_since(std::time::UNIX_EPOCH).unwrap().as_millis()
}

fn command(words: &[&str]) -> RespType {
    RespType::Array(words.iter().map(|w| RespType::String(w.as_bytes().to_vec())).collect())
}

fn reply(step: Step) -> Vec<u8> {
    match step {
        Step::Reply(bytes) => bytes,
        Step::Wait(_) => panic!("the command waits"),
    }
}

fn server() -> (Instance, Client) {
    (Instance::new(Store::new(), true), Client::new())
}

fn bytes(items: &[&str]) -> Vec<Vec<u8>> {
    items.iter().map(|item| item.as_bytes().to_vec()).collect()
}

fn id(text: &str) -> StreamId {
    StreamId::parse(text.as_bytes()).unwrap()
}

fn item(id_text: &str, key: &str, val: &str) -> StreamItem {
    StreamItem {
        id: id(id_text),
        key_vals: vec![KeyVal { key: key.as_bytes().to_vec(), val: val.as_bytes().to_vec() }],
    }
}

fn three_items() -> Vec<StreamItem> {
    vec![item("0-1", "foo", "bar"), item("0-2", "bar", "baz"), item("0-3", "baz", "foo")]
}

#[test]
fn test_transaction_command() {
    let (mut instance, mut client) = server();

    let res = reply(client.handle_command(&mut instance, command(&["MULTI"]), now()));
    assert!(res.eq(b"+OK\r\n"));

    let res = reply(client.handle_command(&mut instance, command(&["SET", "foo", "41"]), now()));
    assert!(res.eq(b"+QUEUED\r\n"));

    let res = reply(client.handle_command(&mut instance, command(&["INCR", "foo"]), now()));
    assert!(res.eq(b"+QUEUED\r\n"));

    let res = reply(client.handle_command(&mut instance, command(&["EXEC"]), now()));
    assert!(res.eq(b"*2\r\n+OK\r\n:42\r\n"));
}

#[test]
fn test_incr_command() {
    let (mut instance, mut client) = server();

    let res = reply(client.handle_command(&mut instance, command(&["INCR", "key"]), now()));
    assert!(res.eq(b":1\r\n"));

    let res = reply(client.handle_command(&mut instance, command(&["INCR", "key"]), now()));
    assert!(res.eq(b":2\r\n"));
}

#[test]
fn test_multi_stream_xread_command() {
    let (mut instance, mut client) = server();
    instance.cache.insert(
        b"stream_key".to_vec(),
        CacheVal::Stream(StreamCacheVal { stream: three_items() }),
    );
    instance.cache.insert(
        b"other_stream_key".to_vec(),
        CacheVal::Stream(StreamCacheVal { stream: three_items() }),
    );

    let cmd = command(&["XREAD", "streams", "stream_key", "other_stream_key", "0-2", "0-1"]);
    let res = reply(client.handle_command(&mut instance, cmd, now()));
    assert!(res.eq(&b"*2\r\n*2\r\n$10\r\nstream_key\r\n*1\r\n*2\r\n$3\r\n0-3\r\n*2\r\n$3\r\nbaz\r\n$3\r\nfoo\r\n*2\r\n$16\r\nother_stream_key\r\n*2\r\n*2\r\n$3\r\n0-2\r\n*2\r\n$3\r\nbar\r\n$3\r\nbaz\r\n*2\r\n$3\r\n0-3\r\n*2\r\n$3\r\nbaz\r\n$3\r\nfoo\r\n"[..]));
}

#[test]
fn test_xread_command() {
    let (mut instance, mut client) = server();
    instance.cache.insert(
        b"stream_key".to_vec(),
        CacheVal::Stream(StreamCacheVal { stream: three_items() }),
    );

    let cmd = command(&["XREAD", "streams", "stream_key", "0-2"]);
    let res = reply(client.handle_command(&mut instance, cmd, now()));
    assert!(res.eq(&b"*1\r\n*2\r\n$10\r\nstream_key\r\n*1\r\n*2\r\n$3\r\n0-3\r\n*2\r\n$3\r\nbaz\r\n$3\r\nfoo\r\n"[..]));
}

#[test]
fn test_xrange_command() {
    let (mut instance, mut client) = server();
    instance.cache.insert(
        b"stream_key".to_vec(),
        CacheVal::Stream(StreamCacheVal { stream: three_items() }),
    );

    let cmd = command(&["XRANGE", "stream_key", "0-2", "0-3"]);
    let res = reply(client.handle_command(&mut instance, cmd, now()));
    assert!(res.eq(&b"*2\r\n*2\r\n$3\r\n0-2\r\n*2\r\n$3\r\nbar\r\n$3\r\nbaz\r\n*2\r\n$3\r\n0-3\r\n*2\r\n$3\r\nbaz\r\n$3\r\nfoo\r\n"[..]));

    let cmd = command(&["XRANGE", "stream_key", "-", "0-2"]);
    let res = reply(client.handle_command(&mut instance, cmd, now()));
    assert!(res.eq(&b"*2\r\n*2\r\n$3\r\n0-1\r\n*2\r\n$3\r\nfoo\r\n$3\r\nbar\r\n*2\r\n$3\r\n0-2\r\n*2\r\n$3\r\nbar\r\n$3\r\nbaz\r\n"[..]));

    let cmd = command(&["XRANGE", "stream_key", "0-2", "+"]);
    let res = reply(client.handle_command(&mut instance, cmd, now()));
    assert!(res.eq(&b"*2\r\n*2\r\n$3\r\n0-2\r\n*2\r\n$3\r\nbar\r\n$3\r\nbaz\r\n*2\r\n$3\r\n0-3\r\n*2\r\n$3\r\nbaz\r\n$3\r\nfoo\r\n"[..]));
}

#[test]
fn test_xadd_command() {
    let (mut instance, mut client) = server();

    let cmd = command(&[
        "XADD",
        "stream_key",
        "1526919030474-0",
        "temperature",
        "36",
        "humidity",
        "92",
    ]);
    let res = reply(client.handle_command(&mut instance, cmd, now()));
    assert!(res.eq(b"$15\r\n1526919030474-0\r\n"));
    assert!(instance.cache.contains_key(b"stream_key"));
    let cache_val = instance.cache.get(b"stream_key").unwrap();
    match cache_val {
        CacheVal::Stream(val) => {
            assert!(val.stream.len() == 1);
            assert!(val.stream.get(0).unwrap().id.eq(&id("1526919030474-0")));
        },
        _ => panic!("Incorrect cache type"),
    }
}

#[test]
fn test_xadd_command_partial() {
    let (mut instance, mut client) = server();

    let cmd = command(&["XADD", "stream_key", "0-*", "temperature", "36"]);
    let res = reply(client.handle_command(&mut instance, cmd, now()));
    assert!(res.eq(b"$3\r\n0-1\r\n"));

    let cmd = command(&["XADD", "stream_key", "1-*", "temperature", "36"]);
    let res = reply(client.handle_command(&mut instance, cmd, now()));
    println!("{}", String::from_utf8_lossy(&res));
    assert!(res.eq(b"$3\r\n1-0\r\n"));

    let stream_item = StreamItem { id: id("2-1"), key_vals: vec![] };
    instance.cache.insert(
        b"stream_key".to_vec(),
        CacheVal::Stream(StreamCacheVal { stream: vec![stream_item] }),
    );

    let cmd = command(&["XADD", "stream_key", "2-*", "temperature", "36"]);
    let res = reply(client.handle_command(&mut instance, cmd, now()));
    assert!(res.eq(b"$3\r\n2-2\r\n"));
}

#[test]
fn test_xadd_command_full() {
    let (mut instance, mut client) = server();

    let cmd = command(&["XADD", "stream_key", "*", "temperature", "36"]);
    let res = reply(client.handle_command(&mut instance, cmd, now()));
    let res = String::from_utf8(res).unwrap();
    let parts: Vec<&str> = res.split("\r\n").collect();
    let id_parts: Vec<&str> = parts[1].split("-").collect();
    assert!(id_parts[1].eq("0"));
}

#[test]
fn test_xadd_command_validation() {
    let (mut instance, mut client) = server();

    let cmd = command(&["XADD", "stream_key", "0-0", "temperature", "36"]);
    let res = reply(client.handle_command(&mut instance, cmd, now()));
    assert!(res.eq(b"-ERR The ID specified in XADD must be greater than 0-0\r\n"));

    let stream_item = StreamItem { id: id("1-1"), key_vals: vec![] };
    instance.cache.insert(
        b"stream_key".to_vec(),
        CacheVal::Stream(StreamCacheVal { stream: vec![stream_item] }),
    );

    let cmd = command(&["XADD", "stream_key", "1-1", "temperature", "36"]);
    let res = reply(client.handle_command(&mut instance, cmd, now()));
    assert!(res.eq(
        b"-ERR The ID specified in XADD is equal or smaller than the target stream top item\r\n"
    ));

    let cmd = command(&["XADD", "stream_key", "0-1", "temperature", "36"]);
    let res = reply(client.handle_command(&mut instance, cmd, now()));
    assert!(res.eq(
        b"-ERR The ID specified in XADD is equal or smaller than the target stream top item\r\n"
    ));
}

#[test]
fn test_type_command() {
    let (mut instance, mut client) = server();
    instance.cache.insert(
        b"foo".to_vec(),
        CacheVal::String(StringCacheVal { val: b"bar".to_vec(), expiry_time: None }),
    );
    instance.cache.insert(
        b"bar".to_vec(),
        CacheVal::List(ListCacheVal { list: vec![], block_queue: vec![] }),
    );
    instance.cache.insert(b"faz".to_vec(), CacheVal::Stream(StreamCacheVal { stream: vec![] }));

    let res = reply(client.handle_command(&mut instance, command(&["TYPE", "foo"]), now()));
    assert!(res.eq(b"+string\r\n"));

    let res = reply(client.handle_command(&mut instance, command(&["TYPE", "bar"]), now()));
    assert!(res.eq(b"+list\r\n"));

    let res = reply(client.handle_command(&mut instance, command(&["TYPE", "faz"]), now()));
    assert!(res.eq(b"+stream\r\n"));

    let res = reply(client.handle_command(&mut instance, command(&["TYPE", "other"]), now()));
    assert!(res.eq(b"+none\r\n"));
}

#[test]
fn test_set_command() {
    let (mut instance, mut client) = server();

    let cmd = command(&["SET", "foo", "bar"]);
    let res = reply(client.handle_command(&mut instance, cmd, now()));
    assert!(res.eq(b"+OK\r\n"));
    assert!(instance.cache.contains_key(b"foo"));
    let cache_val = instance.cache.get(b"foo").unwrap();
    match cache_val {
        CacheVal::String(val) => {
            assert!(val.val.eq(b"bar"));
            assert!(val.expiry_time.is_none());
        },
        _ => panic!("Incorrect cache type"),
    }
}

#[test]
fn test_set_with_expr_command() {
    let (mut instance, mut client) = server();

    let cmd = command(&["SET", "foo", "bar", "PX", "100"]);
    let res = reply(client.handle_command(&mut instance, cmd, now()));
    assert!(res.eq(b"+OK\r\n"));
    assert!(instance.cache.contains_key(b"foo"));
    let cache_val = instance.cache.get(b"foo").unwrap();
    match cache_val {
        CacheVal::String(val) => {
            assert!(val.val.eq(b"bar"));
            assert!(val.expiry_time.is_some());
            assert!(val.expiry_time.unwrap() > 100);
        },
        _ => panic!("Incorrect cache type"),
    }
}

#[test]
fn test_get_command() {
    let (mut instance, mut client) = server();
    instance.cache.insert(
        b"foo".to_vec(),
        CacheVal::String(StringCacheVal { val: b"bar".to_vec(), expiry_time: None }),
    );
    let res = reply(client.handle_command(&mut instance, command(&["GET", "foo"]), now()));
    assert!(res.eq(b"+bar\r\n"));
}

#[test]
fn test_get_expired_command() {
    let (mut instance, mut client) = server();
    instance.cache.insert(
        b"foo".to_vec(),
        CacheVal::String(StringCacheVal { val: b"bar".to_vec(), expiry_time: Some(500) }),
    );
    let res = reply(client.handle_command(&mut instance, command(&["GET", "foo"]), now()));
    assert!(res.eq(b"$-1\r\n"));
}

#[test]
fn test_get_non_expired_command() {
    let (mut instance, mut client) = server();
    let now = std::time::SystemTime::now()
        .duration_since(std::time::UNIX_EPOCH)
        .unwrap()
        .as_millis();
    instance.cache.insert(
        b"foo".to_vec(),
        CacheVal::String(StringCacheVal { val: b"bar".to_vec(), expiry_time: Some(now + 60000) }),
    );
    let res = reply(client.handle_command(&mut instance, command(&["GET", "foo"]), now));
    assert!(res.eq(b"+bar\r\n"));
}

#[test]
fn test_null_get_command() {
    let (mut instance, mut client) = server();
    let res = reply(client.handle_command(&mut instance, command(&["GET", "foo"]), now()));
    assert!(res.eq(b"$-1\r\n"));
}

#[test]
fn test_ping_command() {
    let (mut instance, mut client) = server();
    let res = reply(client.handle_command(&mut instance, command(&["PING"]), now()));
    assert!(res.eq(b"+PONG\r\n"));
}

#[test]
fn test_echo_command() {
    let (mut instance, mut client) = server();
    let res = reply(client.handle_command(&mut instance, command(&["ECHO", "hello"]), now()));
    assert!(res.eq(b"+hello\r\n"));
}

#[test]
fn test_llen_command() {
    let (mut instance, mut client) = server();
    let res = reply(client.handle_command(&mut instance, command(&["LLEN", "list_key"]), now()));
    assert!(res.eq(b":0\r\n"));

    instance.cache.insert(
        b"list_key".to_vec(),
        CacheVal::List(
            ListCacheVal { list: bytes(&["a", "b", "c", "d", "e", "f"]), block_queue: vec![] },
        ),
    );
    let res = reply(client.handle_command(&mut instance, command(&["LLEN", "list_key"]), now()));
    assert!(res.eq(b":6\r\n"));
}

#[test]
fn test_lpop_command() {
    let (mut instance, mut client) = server();
    let res = reply(client.handle_command(&mut instance, command(&["LPOP", "list_key"]), now()));
    assert!(res.eq(b"$-1\r\n"));

    instance.cache.insert(
        b"list_key".to_vec(),
        CacheVal::List(
            ListCacheVal { list: bytes(&["a", "b", "c", "d", "e", "f"]), block_queue: vec![] },
        ),
    );
    let cmd = command(&["LPOP", "list_key", "2"]);
    let res = reply(client.handle_command(&mut instance, cmd, now()));
    assert!(res.eq(b"*2\r\n$1\r\na\r\n$1\r\nb\r\n"));
    match instance.cache.get(b"list_key") {
        Some(CacheVal::List(val)) => {
            assert!(val.list.len() == 4);
            assert!(val.list.get(0).unwrap().eq(b"c"));
        },
        _ => panic!("list value not found"),
    }
}

#[test]
fn test_rpush_command() {
    let (mut instance, mut client) = server();
    let cmd = command(&["RPUSH", "list_key", "foo"]);
    let res = reply(client.handle_command(&mut instance, cmd, now()));
    assert!(res.eq(b":1\r\n"));
    match instance.cache.get(b"list_key") {
        Some(CacheVal::List(val)) => {
            assert!(val.list.len() == 1);
            assert!(val.list.get(0).unwrap().eq(b"foo"));
        },
        _ => panic!("not list key"),
    }

    let cmd = command(&["RPUSH", "list_key", "bar"]);
    let res = reply(client.handle_command(&mut instance, cmd, now()));
    assert!(res.eq(b":2\r\n"));
    match instance.cache.get(b"list_key") {
        Some(CacheVal::List(val)) => {
            assert!(val.list.len() == 2);
            assert!(val.list.get(1).unwrap().eq(b"bar"));
        },
        _ => panic!("not list key"),
    }
}

#[test]
fn test_multi_rpush_command() {
    let (mut instance, mut client) = server();
    let cmd = command(&["RPUSH", "list_key", "foo", "bar", "baz"]);
    let res = reply(client.handle_command(&mut instance, cmd, now()));
    assert!(res.eq(b":3\r\n"));
    match instance.cache.get(b"list_key") {
        Some(CacheVal::List(val)) => {
            assert!(val.list.len() == 3);
            assert!(val.list.get(0).unwrap().eq(b"foo"));
        },
        _ => panic!("Not list key"),
    }
}

#[test]
fn test_multi_lpush_command() {
    let (mut instance, mut client) = server();
    let cmd = command(&["LPUSH", "list_key", "foo", "bar", "baz"]);
    let res = reply(client.handle_command(&mut instance, cmd, now()));
    assert!(res.eq(b":3\r\n"));
    match instance.cache.get(b"list_key") {
        Some(CacheVal::List(val)) => {
            assert!(val.list.len() == 3);
            assert!(val.list.get(0).unwrap().eq(b"baz"));
        },
        _ => panic!("not list key"),
    }

    let cmd = command(&["LPUSH", "list_key", "first"]);
    let res = reply(client.handle_command(&mut instance, cmd, now()));
    assert!(res.eq(b":4\r\n"));
    match instance.cache.get(b"list_key") {
        Some(CacheVal::List(val)) => {
            assert!(val.list.len() == 4);
            assert!(val.list.get(0).unwrap().eq(b"first"));
        },
        _ => panic!("not list key"),
    }
}

#[test]
fn test_lrange_command() {
    let (mut instance, mut client) = server();
    instance.cache.insert(
        b"list_key".to_vec(),
        CacheVal::List(
            ListCacheVal { list: bytes(&["a", "b", "c", "d", "e", "f"]), block_queue: vec![] },
        ),
    );
    let cmd = command(&["LRANGE", "list_key", "2", "4"]);
    let res = reply(client.handle_command(&mut instance, cmd, now()));
    assert!(res.eq(b"*3\r\n$1\r\nc\r\n$1\r\nd\r\n$1\r\ne\r\n"));
}

#[test]
fn test_empty_lrange_command() {
    let (mut instance, mut client) = server();
    let cmd = command(&["LRANGE", "list_key", "2", "4"]);
    let res = reply(client.handle_command(&mut instance, cmd, now()));
    assert!(res.eq(b"*0\r\n"));
}

#[test]
fn test_negative_lrange_command() {
    let (mut instance, mut client) = server();
    instance.cache.insert(
        b"list_key".to_vec(),
        CacheVal::List(
            ListCacheVal { list: bytes(&["a", "b", "c", "d", "e", "f"]), block_queue: vec![] },
        ),
    );
    let cmd = command(&["LRANGE", "list_key", "2", "-2"]);
    let res = reply(client.handle_command(&mut instance, cmd, now()));
    assert!(res.eq(b"*3\r\n$1\r\nc\r\n$1\r\nd\r\n$1\r\ne\r\n"));
}
