use bytes::BytesMut;
use redis_core::commands::Deadline;
use redis_core::redis::client::{Blocked, CacheVal, Client, ListCacheVal, Step, StringCacheVal};
use redis_core::redis::instance::Instance;
use redis_core::redis::store::Store;
use redis_core::resp::types::RespType;

fn frame(wire: &[u8]) -> RespType {
    let mut buffer = BytesMut::new();
    buffer.extend_from_slice(wire);
    let (frame, next) = RespType::parse(&buffer, 0).unwrap();
    assert_eq!(next, wire.len());
    frame
}

fn command(words: &[&str]) -> RespType {
    RespType::Array(words.iter().map(|w| RespType::String(w.as_bytes().to_vec())).collect())
}

fn reply(step: Step) -> Vec<u8> {
    match step {
        Step::Reply(bytes) => bytes,
        Step::Wait(_) => panic!("the command waits"),
    }
}

fn blocked(step: Step) -> Blocked {
    match step {
        Step::Reply(bytes) => panic!("the command replied {:?}", String::from_utf8_lossy(&bytes)),
        Step::Wait(blocked) => blocked,
    }
}

fn leader() -> Instance {
    Instance::new(Store::new(), true)
}

fn run(instance: &mut Instance, client: &mut Client, words: &[&str], now: u128) -> String {
    let bytes = reply(client.handle_command(instance, command(words), now));
    String::from_utf8(bytes).unwrap()
}

#[test]
fn ping_over_the_wire() {
    let mut instance = leader();
    let mut client = Client::new();
    let res = reply(client.handle_command(&mut instance, frame(b"*1\r\n$4\r\nPING\r\n"), 1));
    assert_eq!(res, b"+PONG\r\n");
}

#[test]
fn set_then_get_over_the_wire() {
    let mut instance = leader();
    let mut client = Client::new();
    let set = frame(b"*3\r\n$3\r\nSET\r\n$3\r\nfoo\r\n$3\r\nbar\r\n");
    assert_eq!(reply(client.handle_command(&mut instance, set, 1)), b"+OK\r\n");
    let get = frame(b"*2\r\n$3\r\nGET\r\n$3\r\nfoo\r\n");
    assert_eq!(reply(client.handle_command(&mut instance, get, 2)), b"+bar\r\n");
}

#[test]
fn a_string_is_gone_behind_its_lifetime() {
    let mut instance = leader();
    let mut client = Client::new();
    let set = frame(b"*5\r\n$3\r\nSET\r\n$1\r\nk\r\n$1\r\nv\r\n$2\r\nPX\r\n$3\r\n100\r\n");
    assert_eq!(reply(client.handle_command(&mut instance, set, 1_000)), b"+OK\r\n");
    match instance.cache.get(b"k") {
        Some(CacheVal::String(s)) => assert_eq!(s.expiry_time, Some(1_100)),
        _ => panic!("no string"),
    }
    let get = b"*2\r\n$3\r\nGET\r\n$1\r\nk\r\n";
    assert_eq!(reply(client.handle_command(&mut instance, frame(get), 1_099)), b"+v\r\n");
    assert_eq!(reply(client.handle_command(&mut instance, frame(get), 1_100)), b"$-1\r\n");
    assert_eq!(reply(client.handle_command(&mut instance, frame(get), 1_200)), b"$-1\r\n");
    assert_eq!(reply(client.handle_command(&mut instance, frame(get), u128::MAX)), b"$-1\r\n");
    assert_eq!(run(&mut instance, &mut client, &["TYPE", "k"], 1_200), "+none\r\n");
    assert_eq!(run(&mut instance, &mut client, &["KEYS", "*"], 1_200), "*0\r\n");
    assert_eq!(run(&mut instance, &mut client, &["KEYS", "*"], 1_000), "*1\r\n$1\r\nk\r\n");
    assert_eq!(run(&mut instance, &mut client, &["SET", "k", "w"], 1_300), "+OK\r\n");
    assert_eq!(run(&mut instance, &mut client, &["GET", "k"], u128::MAX), "+w\r\n");
}

#[test]
fn a_lifetime_beyond_the_last_time_never_ends() {
    let mut instance = leader();
    let mut client = Client::new();
    let huge = u128::MAX.to_string();
    assert_eq!(run(&mut instance, &mut client, &["SET", "k", "v", "px", &huge], 5), "+OK\r\n");
    match instance.cache.get(b"k") {
        Some(CacheVal::String(s)) => assert_eq!(s.expiry_time, Some(u128::MAX)),
        _ => panic!("no string"),
    }
}

#[test]
fn rpush_then_lrange_over_the_wire() {
    let mut instance = leader();
    let mut client = Client::new();
    assert_eq!(run(&mut instance, &mut client, &["RPUSH", "k", "a", "b", "c"], 1), ":3\r\n");
    assert_eq!(
        run(&mut instance, &mut client, &["LRANGE", "k", "0", "-1"], 1),
        "*3\r\n$1\r\na\r\n$1\r\nb\r\n$1\r\nc\r\n"
    );
}

#[test]
fn a_transaction_over_the_wire() {
    let mut instance = leader();
    let mut client = Client::new();
    assert_eq!(run(&mut instance, &mut client, &["MULTI"], 1), "+OK\r\n");
    assert_eq!(run(&mut instance, &mut client, &["SET", "foo", "41"], 1), "+QUEUED\r\n");
    assert!(instance.cache.get(b"foo").is_none());
    assert_eq!(run(&mut instance, &mut client, &["INCR", "foo"], 1), "+QUEUED\r\n");
    assert_eq!(run(&mut instance, &mut client, &["EXEC"], 1), "*2\r\n+OK\r\n:42\r\n");
    assert_eq!(run(&mut instance, &mut client, &["GET", "foo"], 1), "+42\r\n");
    assert!(!client.staging_commands);
    assert!(client.staged_commands.is_empty());
}

#[test]
fn xadd_checks_the_id() {
    let mut instance = leader();
    let mut client = Client::new();
    assert_eq!(run(&mut instance, &mut client, &["XADD", "s", "0-1", "a", "1"], 1), "$3\r\n0-1\r\n");
    assert_eq!(
        run(&mut instance, &mut client, &["XADD", "s", "0-0", "a", "1"], 1),
        "-ERR The ID specified in XADD must be greater than 0-0\r\n"
    );
    assert_eq!(
        run(&mut instance, &mut client, &["XADD", "s", "0-1", "a", "1"], 1),
        "-ERR The ID specified in XADD is equal or smaller than the target stream top item\r\n"
    );
    assert_eq!(
        run(&mut instance, &mut client, &["XRANGE", "s", "-", "+"], 1),
        "*1\r\n*2\r\n$3\r\n0-1\r\n*2\r\n$1\r\na\r\n$1\r\n1\r\n"
    );
}

#[test]
fn xadd_picks_the_next_id() {
    let mut instance = leader();
    let mut client = Client::new();
    assert_eq!(run(&mut instance, &mut client, &["XADD", "s", "*", "a", "1"], 77), "$4\r\n77-0\r\n");
    assert_eq!(run(&mut instance, &mut client, &["XADD", "s", "*", "a", "1"], 77), "$4\r\n77-1\r\n");
    assert_eq!(run(&mut instance, &mut client, &["XADD", "s", "*", "a", "1"], 78), "$4\r\n78-0\r\n");
    assert_eq!(
        run(&mut instance, &mut client, &["XADD", "s", "*", "a", "1"], 70),
        "-ERR The ID specified in XADD is equal or smaller than the target stream top item\r\n"
    );
    assert_eq!(run(&mut instance, &mut client, &["XADD", "s", "78-*", "a", "1"], 1), "$4\r\n78-1\r\n");
    assert_eq!(run(&mut instance, &mut client, &["XADD", "s", "90-*", "a", "1"], 1), "$4\r\n90-0\r\n");
    assert_eq!(run(&mut instance, &mut client, &["XADD", "t", "0-*", "a", "1"], 1), "$3\r\n0-1\r\n");
    assert_eq!(
        run(&mut instance, &mut client, &["XADD", "z", "*", "a", "1"], 0),
        "-ERR The ID specified in XADD must be greater than 0-0\r\n"
    );
    assert!(instance.cache.get(b"z").is_none());
    let top = format!("5-{}", u64::MAX);
    assert_eq!(
        run(&mut instance, &mut client, &["XADD", "u", &top, "a", "1"], 1),
        format!("$22\r\n{}\r\n", top)
    );
    assert_eq!(
        run(&mut instance, &mut client, &["XADD", "u", "5-*", "a", "1"], 1),
        "-ERR The ID specified in XADD is equal or smaller than the target stream top item\r\n"
    );
    assert_eq!(
        run(&mut instance, &mut client, &["XADD", "u", "abc", "a", "1"], 1),
        "-ERR Invalid stream ID specified as stream command argument\r\n"
    );
    assert_eq!(
        run(&mut instance, &mut client, &["XADD", "u", "6-0", "a"], 1),
        "-ERR wrong number of arguments\r\n"
    );
}

#[test]
fn stream_ids_compare_as_numbers() {
    let mut instance = leader();
    let mut client = Client::new();
    assert_eq!(run(&mut instance, &mut client, &["XADD", "s", "9-0", "a", "1"], 1), "$3\r\n9-0\r\n");
    assert_eq!(run(&mut instance, &mut client, &["XADD", "s", "10-0", "a", "1"], 1), "$4\r\n10-0\r\n");
    assert_eq!(
        run(&mut instance, &mut client, &["XRANGE", "s", "9-1", "10-0"], 1),
        "*1\r\n*2\r\n$4\r\n10-0\r\n*2\r\n$1\r\na\r\n$1\r\n1\r\n"
    );
    assert_eq!(
        run(&mut instance, &mut client, &["XREAD", "STREAMS", "s", "9-0"], 1),
        "*1\r\n*2\r\n$1\r\ns\r\n*1\r\n*2\r\n$4\r\n10-0\r\n*2\r\n$1\r\na\r\n$1\r\n1\r\n"
    );
    assert_eq!(run(&mut instance, &mut client, &["XREAD", "streams", "s", "10-0"], 1), "$-1\r\n");
    assert_eq!(run(&mut instance, &mut client, &["XREAD", "streams", "s", "$"], 1), "$-1\r\n");
    assert_eq!(run(&mut instance, &mut client, &["XREAD", "streams", "none", "0-0"], 1), "$-1\r\n");
    assert_eq!(
        run(&mut instance, &mut client, &["XRANGE", "s", "x", "+"], 1),
        "-ERR Invalid stream ID specified as stream command argument\r\n"
    );
    assert_eq!(
        run(&mut instance, &mut client, &["XREAD", "streams", "s"], 1),
        "-ERR Unbalanced XREAD list of streams\r\n"
    );
    assert_eq!(run(&mut instance, &mut client, &["XREAD", "s", "0-0"], 1), "-ERR syntax error\r\n");
    assert_eq!(
        run(&mut instance, &mut client, &["XREAD", "block", "x", "streams", "s", "0-0"], 1),
        "-ERR value is not an integer or out of range\r\n"
    );
    assert_eq!(run(&mut instance, &mut client, &["XRANGE", "none", "-", "+"], 1), "*0\r\n");
}

#[test]
fn incr_counts_and_refuses() {
    let mut instance = leader();
    let mut client = Client::new();
    assert_eq!(run(&mut instance, &mut client, &["SET", "n", "-5"], 1), "+OK\r\n");
    assert_eq!(run(&mut instance, &mut client, &["INCR", "n"], 1), ":-4\r\n");
    assert_eq!(run(&mut instance, &mut client, &["GET", "n"], 1), "+-4\r\n");
    let max = i64::MAX.to_string();
    let last = (i64::MAX - 1).to_string();
    assert_eq!(run(&mut instance, &mut client, &["SET", "n", &last], 1), "+OK\r\n");
    assert_eq!(run(&mut instance, &mut client, &["INCR", "n"], 1), format!(":{}\r\n", max));
    assert_eq!(
        run(&mut instance, &mut client, &["INCR", "n"], 1),
        "-ERR value is not an integer or out of range\r\n"
    );
    assert_eq!(run(&mut instance, &mut client, &["GET", "n"], 1), format!("+{}\r\n", max));
    let min = i64::MIN.to_string();
    assert_eq!(run(&mut instance, &mut client, &["SET", "n", &min], 1), "+OK\r\n");
    assert_eq!(run(&mut instance, &mut client, &["INCR", "n"], 1), format!(":{}\r\n", i64::MIN + 1));
    assert_eq!(run(&mut instance, &mut client, &["SET", "n", "abc"], 1), "+OK\r\n");
    assert_eq!(
        run(&mut instance, &mut client, &["INCR", "n"], 1),
        "-ERR value is not an integer or out of range\r\n"
    );
    assert_eq!(run(&mut instance, &mut client, &["RPUSH", "l", "1"], 1), ":1\r\n");
    assert_eq!(
        run(&mut instance, &mut client, &["INCR", "l"], 1),
        "-ERR value is not an integer or out of range\r\n"
    );
    assert_eq!(run(&mut instance, &mut client, &["SET", "e", "10", "PX", "5"], 100), "+OK\r\n");
    assert_eq!(run(&mut instance, &mut client, &["INCR", "e"], 104), ":11\r\n");
    match instance.cache.get(b"e") {
        Some(CacheVal::String(s)) => assert_eq!(s.expiry_time, Some(105)),
        _ => panic!("no string"),
    }
    assert_eq!(run(&mut instance, &mut client, &["INCR", "e"], 105), ":1\r\n");
    match instance.cache.get(b"e") {
        Some(CacheVal::String(s)) => assert_eq!(s.expiry_time, None),
        _ => panic!("no string"),
    }
}

#[test]
fn lists_push_pop_and_range() {
    let mut instance = leader();
    let mut client = Client::new();
    assert_eq!(run(&mut instance, &mut client, &["LPUSH", "k", "a", "b", "c"], 1), ":3\r\n");
    assert_eq!(
        run(&mut instance, &mut client, &["LRANGE", "k", "0", "-1"], 1),
        "*3\r\n$1\r\nc\r\n$1\r\nb\r\n$1\r\na\r\n"
    );
    assert_eq!(run(&mut instance, &mut client, &["RPUSH", "k", "d"], 1), ":4\r\n");
    assert_eq!(run(&mut instance, &mut client, &["LLEN", "k"], 1), ":4\r\n");
    assert_eq!(run(&mut instance, &mut client, &["LRANGE", "k", "3", "1"], 1), "*0\r\n");
    assert_eq!(run(&mut instance, &mut client, &["LRANGE", "k", "4", "9"], 1), "*0\r\n");
    assert_eq!(run(&mut instance, &mut client, &["LRANGE", "k", "-100", "-50"], 1), "*0\r\n");
    assert_eq!(
        run(&mut instance, &mut client, &["LRANGE", "k", "-100", "0"], 1),
        "*1\r\n$1\r\nc\r\n"
    );
    assert_eq!(
        run(&mut instance, &mut client, &["LRANGE", "k", "2", "100"], 1),
        "*2\r\n$1\r\na\r\n$1\r\nd\r\n"
    );
    assert_eq!(
        run(&mut instance, &mut client, &["LRANGE", "k", "-2", "-1"], 1),
        "*2\r\n$1\r\na\r\n$1\r\nd\r\n"
    );
    assert_eq!(
        run(&mut instance, &mut client, &["LRANGE", "k", "x", "1"], 1),
        "-ERR value is not an integer or out of range\r\n"
    );
    assert_eq!(run(&mut instance, &mut client, &["LPOP", "k"], 1), "$1\r\nc\r\n");
    assert_eq!(run(&mut instance, &mut client, &["LPOP", "k", "1"], 1), "$1\r\nb\r\n");
    assert_eq!(run(&mut instance, &mut client, &["LPOP", "k", "0"], 1), "*0\r\n");
    assert_eq!(run(&mut instance, &mut client, &["LPOP", "k", "5"], 1), "*2\r\n$1\r\na\r\n$1\r\nd\r\n");
    assert_eq!(run(&mut instance, &mut client, &["LPOP", "k", "5"], 1), "$-1\r\n");
    assert_eq!(run(&mut instance, &mut client, &["LPOP", "k"], 1), "$-1\r\n");
    assert_eq!(run(&mut instance, &mut client, &["LLEN", "k"], 1), ":0\r\n");
    assert_eq!(
        run(&mut instance, &mut client, &["LPOP", "k", "-1"], 1),
        "-ERR value is not an integer or out of range\r\n"
    );
}

#[test]
fn the_wrong_kind_of_value_is_an_error() {
    let mut instance = leader();
    let mut client = Client::new();
    let wrong = "-WRONGTYPE Operation against a key holding the wrong kind of value\r\n";
    assert_eq!(run(&mut instance, &mut client, &["SET", "s", "v"], 1), "+OK\r\n");
    assert_eq!(run(&mut instance, &mut client, &["RPUSH", "l", "v"], 1), ":1\r\n");
    assert_eq!(run(&mut instance, &mut client, &["RPUSH", "s", "v"], 1), wrong);
    assert_eq!(run(&mut instance, &mut client, &["LPUSH", "s", "v"], 1), wrong);
    assert_eq!(run(&mut instance, &mut client, &["LPOP", "s"], 1), wrong);
    assert_eq!(run(&mut instance, &mut client, &["BLPOP", "s", "1"], 1), wrong);
    assert_eq!(run(&mut instance, &mut client, &["XADD", "s", "1-1", "a", "b"], 1), wrong);
    assert_eq!(run(&mut instance, &mut client, &["XRANGE", "l", "-", "+"], 1), wrong);
    assert_eq!(run(&mut instance, &mut client, &["LLEN", "s"], 1), ":0\r\n");
    assert_eq!(run(&mut instance, &mut client, &["LRANGE", "s", "0", "-1"], 1), "*0\r\n");
    assert_eq!(run(&mut instance, &mut client, &["GET", "l"], 1), "$-1\r\n");
    assert_eq!(run(&mut instance, &mut client, &["GET", "s"], 1), "+v\r\n");
}

#[test]
fn commands_are_refused_with_an_error() {
    let mut instance = leader();
    let mut client = Client::new();
    assert_eq!(run(&mut instance, &mut client, &["NOPE"], 1), "-ERR unknown command\r\n");
    for words in [
        vec!["GET"],
        vec!["ECHO"],
        vec!["SET", "k"],
        vec!["INCR"],
        vec!["TYPE"],
        vec!["KEYS"],
        vec!["RPUSH", "k"],
        vec!["LPUSH", "k"],
        vec!["LLEN"],
        vec!["LPOP"],
        vec!["LRANGE", "k", "0"],
        vec!["BLPOP", "k"],
        vec!["XRANGE", "k", "-"],
        vec!["SUBSCRIBE"],
        vec!["UNSUBSCRIBE"],
        vec!["PUBLISH", "c"],
        vec!["REPLCONF"],
        vec!["WAIT", "1"],
        vec!["XREAD", "block"],
    ] {
        assert_eq!(
            run(&mut instance, &mut client, &words, 1),
            "-ERR wrong number of arguments\r\n",
            "{:?}",
            words
        );
    }
    assert_eq!(run(&mut instance, &mut client, &["SET", "k", "v", "EX", "1"], 1), "-ERR syntax error\r\n");
    assert_eq!(
        run(&mut instance, &mut client, &["SET", "k", "v", "PX", "soon"], 1),
        "-ERR value is not an integer or out of range\r\n"
    );
    assert_eq!(
        run(&mut instance, &mut client, &["BLPOP", "k", "soon"], 1),
        "-ERR timeout is not a float or out of range\r\n"
    );
    assert_eq!(
        run(&mut instance, &mut client, &["WAIT", "x", "1"], 1),
        "-ERR value is not an integer or out of range\r\n"
    );
    assert_eq!(
        run(&mut instance, &mut client, &["REPLCONF", "what"], 1),
        "-ERR Unrecognized REPLCONF option\r\n"
    );
    let expected = b"-ERR Protocol error: expected an array of bulk strings\r\n".to_vec();
    assert_eq!(reply(client.handle_command(&mut instance, RespType::Int(1), 1)), expected);
    assert_eq!(reply(client.handle_command(&mut instance, RespType::Array(vec![]), 1)), expected);
    let mixed = RespType::Array(vec![RespType::String(b"GET".to_vec()), RespType::Int(1)]);
    assert_eq!(reply(client.handle_command(&mut instance, mixed, 1)), expected);
    assert_eq!(instance.cache.len(), 0);
}

#[test]
fn command_names_ignore_case() {
    let mut instance = leader();
    let mut client = Client::new();
    assert_eq!(run(&mut instance, &mut client, &["set", "k", "v"], 1), "+OK\r\n");
    assert_eq!(run(&mut instance, &mut client, &["GeT", "k"], 1), "+v\r\n");
    assert_eq!(run(&mut instance, &mut client, &["get", "K"], 1), "$-1\r\n");
}

#[test]
fn a_value_with_a_line_break_is_replied_as_bulk_string() {
    let mut instance = leader();
    let mut client = Client::new();
    assert_eq!(run(&mut instance, &mut client, &["SET", "k", "a\r\nb"], 1), "+OK\r\n");
    assert_eq!(run(&mut instance, &mut client, &["GET", "k"], 1), "$4\r\na\r\nb\r\n");
    assert_eq!(run(&mut instance, &mut client, &["ECHO", "a\nb"], 1), "$3\r\na\nb\r\n");
}

#[test]
fn transactions_refuse_and_discard() {
    let mut instance = leader();
    let mut client = Client::new();
    assert_eq!(run(&mut instance, &mut client, &["EXEC"], 1), "-ERR EXEC without MULTI\r\n");
    assert_eq!(run(&mut instance, &mut client, &["DISCARD"], 1), "-ERR DISCARD without MULTI\r\n");
    assert_eq!(run(&mut instance, &mut client, &["multi"], 1), "+OK\r\n");
    assert_eq!(
        run(&mut instance, &mut client, &["MULTI"], 1),
        "-ERR MULTI calls can not be nested\r\n"
    );
    assert_eq!(run(&mut instance, &mut client, &["SET", "k", "v"], 1), "+QUEUED\r\n");
    assert_eq!(run(&mut instance, &mut client, &["DISCARD"], 1), "+OK\r\n");
    assert_eq!(run(&mut instance, &mut client, &["GET", "k"], 1), "$-1\r\n");
    assert_eq!(run(&mut instance, &mut client, &["MULTI"], 1), "+OK\r\n");
    assert_eq!(run(&mut instance, &mut client, &["EXEC"], 1), "*0\r\n");
    assert_eq!(run(&mut instance, &mut client, &["MULTI"], 1), "+OK\r\n");
    assert_eq!(run(&mut instance, &mut client, &["SET", "k", "v"], 1), "+QUEUED\r\n");
    assert_eq!(run(&mut instance, &mut client, &["INCR", "k"], 1), "+QUEUED\r\n");
    assert_eq!(run(&mut instance, &mut client, &["NOPE"], 1), "+QUEUED\r\n");
    assert_eq!(run(&mut instance, &mut client, &["BLPOP", "l", "0"], 1), "+QUEUED\r\n");
    assert_eq!(run(&mut instance, &mut client, &["GET", "k"], 1), "+QUEUED\r\n");
    assert_eq!(
        run(&mut instance, &mut client, &["EXEC"], 1),
        "*5\r\n+OK\r\n-ERR value is not an integer or out of range\r\n-ERR unknown command\r\n$-1\r\n+v\r\n"
    );
    match instance.cache.get(b"l") {
        Some(CacheVal::List(l)) => assert!(l.block_queue.is_empty()),
        _ => panic!("no list"),
    }
}

#[test]
fn blpop_serves_those_that_wait_in_their_order() {
    let mut instance = leader();
    let mut first = Client::with_id(b"c1".to_vec());
    let mut second = Client::with_id(b"c2".to_vec());
    let mut pusher = Client::with_id(b"p".to_vec());
    let one = blocked(first.handle_command(&mut instance, command(&["BLPOP", "l", "0"]), 1));
    let two = blocked(second.handle_command(&mut instance, command(&["BLPOP", "l", "0"]), 2));
    match instance.cache.get(b"l") {
        Some(CacheVal::List(l)) => {
            assert_eq!(l.block_queue, vec![b"c1".to_vec(), b"c2".to_vec()])
        },
        _ => panic!("no list"),
    }
    assert!(one.retry(&mut instance, 3).is_none());
    assert!(two.retry(&mut instance, 3).is_none());
    assert_eq!(run(&mut instance, &mut pusher, &["RPUSH", "l", "v1"], 4), ":1\r\n");
    assert!(two.retry(&mut instance, 5).is_none());
    assert_eq!(one.retry(&mut instance, 6).unwrap(), b"*2\r\n$1\r\nl\r\n$2\r\nv1\r\n");
    assert!(two.retry(&mut instance, 7).is_none());
    assert_eq!(run(&mut instance, &mut pusher, &["RPUSH", "l", "v2"], 8), ":1\r\n");
    assert_eq!(two.retry(&mut instance, 9).unwrap(), b"*2\r\n$1\r\nl\r\n$2\r\nv2\r\n");
    match instance.cache.get(b"l") {
        Some(CacheVal::List(l)) => {
            assert!(l.block_queue.is_empty());
            assert!(l.list.is_empty());
        },
        _ => panic!("no list"),
    }
}

#[test]
fn blpop_takes_at_once_what_is_there() {
    let mut instance = leader();
    let mut client = Client::with_id(b"c".to_vec());
    instance.cache.insert(
        b"l".to_vec(),
        CacheVal::List(ListCacheVal { list: vec![b"a".to_vec()], block_queue: vec![] }),
    );
    assert_eq!(run(&mut instance, &mut client, &["BLPOP", "l", "1"], 1), "*2\r\n$1\r\nl\r\n$1\r\na\r\n");
    instance.cache.insert(
        b"m".to_vec(),
        CacheVal::List(
            ListCacheVal { list: vec![b"a".to_vec()], block_queue: vec![b"other".to_vec()] },
        ),
    );
    let waits = blocked(client.handle_command(&mut instance, command(&["BLPOP", "m", "0"]), 1));
    match &waits {
        Blocked::Blpop(c) => assert_eq!(c.deadline, Deadline::Never),
        _ => panic!("another command"),
    }
    match instance.cache.get(b"m") {
        Some(CacheVal::List(l)) => {
            assert_eq!(l.block_queue, vec![b"other".to_vec(), b"c".to_vec()]);
            assert_eq!(l.list.len(), 1);
        },
        _ => panic!("no list"),
    }
}

#[test]
fn blpop_gives_up_behind_its_deadline() {
    let mut instance = leader();
    let mut client = Client::with_id(b"c".to_vec());
    let waits = blocked(client.handle_command(&mut instance, command(&["BLPOP", "l", "0.1"]), 1_000));
    match &waits {
        Blocked::Blpop(c) => assert_eq!(c.deadline, Deadline::At(1_100)),
        _ => panic!("another command"),
    }
    assert!(waits.retry(&mut instance, 1_100).is_none());
    assert_eq!(waits.retry(&mut instance, 1_101).unwrap(), b"$-1\r\n");
    match instance.cache.get(b"l") {
        Some(CacheVal::List(l)) => assert!(l.block_queue.is_empty()),
        _ => panic!("no list"),
    }
}

#[test]
fn xread_waits_for_entries() {
    let mut instance = leader();
    let mut reader = Client::new();
    let mut writer = Client::new();
    assert_eq!(run(&mut instance, &mut writer, &["XADD", "s", "1-1", "a", "b"], 1), "$3\r\n1-1\r\n");
    let cmd = command(&["XREAD", "BLOCK", "50", "STREAMS", "s", "$"]);
    let waits = blocked(reader.handle_command(&mut instance, cmd, 100));
    assert!(waits.retry(&mut instance, 120).is_none());
    assert_eq!(run(&mut instance, &mut writer, &["XADD", "s", "1-2", "c", "d"], 130), "$3\r\n1-2\r\n");
    assert_eq!(
        waits.retry(&mut instance, 140).unwrap(),
        b"*1\r\n*2\r\n$1\r\ns\r\n*1\r\n*2\r\n$3\r\n1-2\r\n*2\r\n$1\r\nc\r\n$1\r\nd\r\n"
    );
    let cmd = command(&["XREAD", "block", "50", "streams", "s", "$"]);
    let waits = blocked(reader.handle_command(&mut instance, cmd, 200));
    assert!(waits.retry(&mut instance, 250).is_none());
    assert_eq!(waits.retry(&mut instance, 251).unwrap(), b"$-1\r\n");
    let cmd = command(&["XREAD", "block", "0", "streams", "s", "1-2"]);
    let waits = blocked(reader.handle_command(&mut instance, cmd, 300));
    assert!(waits.retry(&mut instance, u128::MAX).is_none());
}

#[test]
fn subscriptions_and_messages() {
    let mut instance = leader();
    let mut alice = Client::with_id(b"alice".to_vec());
    let mut bob = Client::with_id(b"bob".to_vec());
    assert_eq!(
        run(&mut instance, &mut alice, &["SUBSCRIBE", "news"], 1),
        "*3\r\n$9\r\nsubscribe\r\n$4\r\nnews\r\n:1\r\n"
    );
    assert_eq!(
        run(&mut instance, &mut alice, &["SUBSCRIBE", "sport"], 1),
        "*3\r\n$9\r\nsubscribe\r\n$5\r\nsport\r\n:2\r\n"
    );
    assert_eq!(
        run(&mut instance, &mut alice, &["SUBSCRIBE", "news"], 1),
        "*3\r\n$9\r\nsubscribe\r\n$4\r\nnews\r\n:2\r\n"
    );
    assert_eq!(run(&mut instance, &mut alice, &["PING"], 1), "*2\r\n$4\r\npong\r\n$0\r\n\r\n");
    assert_eq!(run(&mut instance, &mut bob, &["PING"], 1), "+PONG\r\n");
    assert_eq!(
        run(&mut instance, &mut bob, &["SUBSCRIBE", "news"], 1),
        "*3\r\n$9\r\nsubscribe\r\n$4\r\nnews\r\n:1\r\n"
    );
    assert_eq!(run(&mut instance, &mut bob, &["PUBLISH", "news", "hi"], 1), ":2\r\n");
    assert_eq!(run(&mut instance, &mut bob, &["PUBLISH", "none", "hi"], 1), ":0\r\n");
    let sent = instance.take_outbox();
    assert_eq!(sent.len(), 2);
    assert_eq!(sent[0].to, b"alice");
    assert_eq!(sent[1].to, b"bob");
    for delivery in &sent {
        assert_eq!(delivery.bytes, b"*3\r\n$7\r\nmessage\r\n$4\r\nnews\r\n$2\r\nhi\r\n");
    }
    assert!(instance.take_outbox().is_empty());
    assert_eq!(
        run(&mut instance, &mut alice, &["UNSUBSCRIBE", "news"], 1),
        "*3\r\n$11\r\nunsubscribe\r\n$4\r\nnews\r\n:1\r\n"
    );
    assert_eq!(
        run(&mut instance, &mut alice, &["UNSUBSCRIBE", "other"], 1),
        "*3\r\n$11\r\nunsubscribe\r\n$5\r\nother\r\n:1\r\n"
    );
    assert_eq!(run(&mut instance, &mut bob, &["PUBLISH", "news", "yo"], 1), ":1\r\n");
    assert!(instance.is_valid());
    assert!(alice.is_valid());
}

#[test]
fn keys_lists_what_is_there() {
    let mut instance = leader();
    let mut client = Client::new();
    instance.cache.insert(
        b"gone".to_vec(),
        CacheVal::String(StringCacheVal { val: b"v".to_vec(), expiry_time: Some(5) }),
    );
    assert_eq!(run(&mut instance, &mut client, &["SET", "a", "1"], 10), "+OK\r\n");
    assert_eq!(run(&mut instance, &mut client, &["RPUSH", "b", "1"], 10), ":1\r\n");
    assert_eq!(
        run(&mut instance, &mut client, &["KEYS", "*"], 10),
        "*2\r\n$1\r\na\r\n$1\r\nb\r\n"
    );
    assert_eq!(run(&mut instance, &mut client, &["RPUSH", "gone", "x"], 10), ":1\r\n");
    assert_eq!(run(&mut instance, &mut client, &["TYPE", "gone"], 10), "+list\r\n");
    assert_eq!(instance.cache.len(), 3);
}

#[test]
fn a_connection_handles_what_has_arrived_in_its_order() {
    let mut instance = leader();
    let mut client = Client::with_id(b"c".to_vec());
    let bytes = b"*3\r\n$3\r\nSET\r\n$1\r\nk\r\n$1\r\n1\r\n*2\r\n$4\r\nINCR\r\n$1\r\nk\r\n*2\r\n$3\r\nGET\r\n$1";
    let service = client.serve(&mut instance, bytes, 1);
    assert_eq!(service.out, b"+OK\r\n:2\r\n");
    assert_eq!(service.consumed, 27 + 21);
    assert!(!service.malformed);
    assert!(service.waits.is_none());
    let service = client.serve(&mut instance, &bytes[service.consumed..], 1);
    assert_eq!((service.out.len(), service.consumed, service.malformed), (0, 0, false));
    let service = client.serve(&mut instance, b"*2\r\n$3\r\nGET\r\n$1\r\nk\r\n", 1);
    assert_eq!(service.out, b"+2\r\n");
    let service = client.serve(&mut instance, b"*1\r\n$4\r\nPING\r\nPING\r\n", 1);
    assert_eq!((&service.out[..], service.consumed, service.malformed), (&b"+PONG\r\n"[..], 14, true));
}

#[test]
fn a_connection_stops_behind_a_command_that_waits() {
    let mut instance = leader();
    let mut client = Client::with_id(b"c".to_vec());
    let mut other = Client::with_id(b"o".to_vec());
    let bytes = b"*1\r\n$4\r\nPING\r\n*3\r\n$5\r\nBLPOP\r\n$1\r\nl\r\n$1\r\n0\r\n*1\r\n$4\r\nPING\r\n";
    let service = client.serve(&mut instance, bytes, 1);
    assert_eq!(service.out, b"+PONG\r\n");
    assert_eq!(service.consumed, 14 + 29);
    assert!(!service.malformed);
    let waits = service.waits.unwrap();
    assert!(waits.retry(&mut instance, 2).is_none());
    assert_eq!(run(&mut instance, &mut other, &["RPUSH", "l", "a"], 3), ":1\r\n");
    assert_eq!(waits.retry(&mut instance, 4).unwrap(), b"*2\r\n$1\r\nl\r\n$1\r\na\r\n");
    let service = client.serve(&mut instance, &bytes[service.consumed..], 5);
    assert_eq!(service.out, b"+PONG\r\n");
    assert_eq!(service.consumed, 14);
}
