use redis_core::instance::master::create_getack_request;
use redis_core::instance::replica::{create_command, handshake_messages, ResyncError};
use redis_core::rdb::rdb::{empty_snapshot, RdbError};
use redis_core::redis::client::{Blocked, CacheVal, Client, Step};
use redis_core::redis::instance::Instance;
use redis_core::redis::store::Store;
use redis_core::resp::types::{raw_payload_in, RespType};
use redis_core::resp::Fault;

fn command(words: &[&str]) -> RespType {
    RespType::Array(words.iter().map(|w| RespType::String(w.as_bytes().to_vec())).collect())
}

fn reply(step: Step) -> Vec<u8> {
    match step {
        Step::Reply(bytes) => bytes,
        Step::Wait(_) => panic!("the command waits"),
    }
}

fn blocked(step: Step) -> Blocked {
    match step {
        Step::Reply(_) => panic!("the command replied"),
        Step::Wait(blocked) => blocked,
    }
}

fn run(instance: &mut Instance, client: &mut Client, words: &[&str], now: u128) -> String {
    String::from_utf8(reply(client.handle_command(instance, command(words), now))).unwrap()
}

#[test]
fn a_leader_and_a_follower_tell_their_roles() {
    let mut leader = Instance::new(Store::new(), true);
    let mut follower = Instance::new(Store::new(), false);
    let mut client = Client::new();
    assert_eq!(
        run(&mut leader, &mut client, &["INFO", "replication"], 1),
        "$89\r\nrole:master\r\nmaster_replid:8371b4fb1155b71f4a04d3e1bc3e18c4a990aeeb\r\nmaster_repl_offset:0\r\n"
    );
    assert_eq!(run(&mut follower, &mut client, &["INFO"], 1), "$10\r\nrole:slave\r\n");
}

#[test]
fn the_handshake_of_a_follower() {
    let messages = handshake_messages(&b"6380".to_vec());
    assert_eq!(messages.len(), 4);
    assert_eq!(messages[0], b"*1\r\n$4\r\nPING\r\n");
    assert_eq!(messages[1], b"*3\r\n$8\r\nREPLCONF\r\n$14\r\nlistening-port\r\n$4\r\n6380\r\n");
    assert_eq!(messages[2], b"*3\r\n$8\r\nREPLCONF\r\n$4\r\ncapa\r\n$6\r\npsync2\r\n");
    assert_eq!(messages[3], b"*3\r\n$5\r\nPSYNC\r\n$1\r\n?\r\n$2\r\n-1\r\n");
    assert_eq!(create_command(vec![]), b"*0\r\n");
    assert_eq!(
        create_getack_request(),
        b"*3\r\n$8\r\nREPLCONF\r\n$6\r\nGETACK\r\n$1\r\n*\r\n"
    );
}

#[test]
fn a_leader_answers_the_handshake() {
    let mut leader = Instance::new(Store::new(), true);
    let mut link = Client::with_id(b"f1".to_vec());
    assert_eq!(run(&mut leader, &mut link, &["PING"], 1), "+PONG\r\n");
    assert_eq!(run(&mut leader, &mut link, &["REPLCONF", "listening-port", "6380"], 1), "+OK\r\n");
    assert_eq!(run(&mut leader, &mut link, &["REPLCONF", "capa", "psync2"], 1), "+OK\r\n");
    assert!(!link.is_replica_connection);
    let res = reply(link.handle_command(&mut leader, command(&["PSYNC", "?", "-1"]), 1));
    let head = b"+FULLRESYNC 8371b4fb1155b71f4a04d3e1bc3e18c4a990aeeb 0\r\n";
    assert_eq!(&res[..head.len()], head);
    let (payload, end) = raw_payload_in(&res, head.len()).unwrap();
    assert_eq!(end, res.len());
    assert_eq!(payload, empty_snapshot());
    assert_eq!(&res[head.len()..head.len() + 5], b"$27\r\n");
    assert!(link.is_replica_connection);
    assert_eq!(leader.replica_clients, vec![b"f1".to_vec()]);
    assert_eq!(leader.ack_replicas, 1);
    reply(link.handle_command(&mut leader, command(&["PSYNC", "?", "-1"]), 1));
    assert_eq!(leader.replica_clients, vec![b"f1".to_vec()]);
    assert_eq!(leader.ack_replicas, 1);
}

#[test]
fn a_follower_that_joins_while_writes_pend_has_not_acknowledged() {
    let mut leader = Instance::new(Store::new(), true);
    let mut client = Client::new();
    let mut link = Client::with_id(b"f1".to_vec());
    assert_eq!(run(&mut leader, &mut client, &["SET", "k", "v"], 1), "+OK\r\n");
    reply(link.handle_command(&mut leader, command(&["PSYNC", "?", "-1"]), 1));
    assert_eq!(leader.ack_replicas, 0);
}

#[test]
fn writes_reach_the_followers_in_their_order() {
    let mut leader = Instance::new(Store::new(), true);
    let mut client = Client::new();
    let mut one = Client::with_id(b"f1".to_vec());
    let mut two = Client::with_id(b"f2".to_vec());
    reply(one.handle_command(&mut leader, command(&["PSYNC", "?", "-1"]), 1));
    reply(two.handle_command(&mut leader, command(&["PSYNC", "?", "-1"]), 1));
    assert_eq!(leader.ack_replicas, 2);
    assert!(leader.take_broadcast().is_none());
    assert_eq!(leader.ack_replicas, 2);

    assert_eq!(run(&mut leader, &mut client, &["SET", "k", "1"], 1), "+OK\r\n");
    assert_eq!(run(&mut leader, &mut client, &["GET", "k"], 1), "+1\r\n");
    assert_eq!(run(&mut leader, &mut client, &["INCR", "k"], 1), ":2\r\n");
    assert_eq!(run(&mut leader, &mut client, &["SET", "k", "x"], 1), "+OK\r\n");
    assert_eq!(
        run(&mut leader, &mut client, &["INCR", "k"], 1),
        "-ERR value is not an integer or out of range\r\n"
    );
    assert_eq!(run(&mut leader, &mut client, &["rpush", "l", "a"], 1), ":1\r\n");
    assert_eq!(run(&mut leader, &mut client, &["LPUSH", "l", "b"], 1), ":2\r\n");
    assert_eq!(run(&mut leader, &mut client, &["LPOP", "l"], 1), "$1\r\nb\r\n");
    assert_eq!(run(&mut leader, &mut client, &["XADD", "s", "1-1", "f", "v"], 1), "$3\r\n1-1\r\n");
    assert_eq!(run(&mut leader, &mut client, &["LLEN", "l"], 1), ":1\r\n");
    assert_eq!(leader.write_commands.len(), 7);

    let expected: Vec<u8> = [
        &b"*3\r\n$3\r\nSET\r\n$1\r\nk\r\n$1\r\n1\r\n"[..],
        b"*2\r\n$4\r\nINCR\r\n$1\r\nk\r\n",
        b"*3\r\n$3\r\nSET\r\n$1\r\nk\r\n$1\r\nx\r\n",
        b"*3\r\n$5\r\nrpush\r\n$1\r\nl\r\n$1\r\na\r\n",
        b"*3\r\n$5\r\nLPUSH\r\n$1\r\nl\r\n$1\r\nb\r\n",
        b"*2\r\n$4\r\nLPOP\r\n$1\r\nl\r\n",
        b"*5\r\n$4\r\nXADD\r\n$1\r\ns\r\n$3\r\n1-1\r\n$1\r\nf\r\n$1\r\nv\r\n",
    ]
    .concat();
    let broadcast = leader.take_broadcast().unwrap();
    assert_eq!(broadcast.to, vec![b"f1".to_vec(), b"f2".to_vec()]);
    assert_eq!(broadcast.bytes, expected);
    assert_eq!(leader.ack_replicas, 0);
    assert!(leader.write_commands.is_empty());
    assert_eq!(leader.master_repl_offset, expected.len() as u128);
    assert!(leader.take_broadcast().is_none());

    assert_eq!(reply(one.handle_command(&mut leader, command(&["REPLCONF", "ACK", "0"]), 2)), b"");
    assert_eq!(leader.ack_replicas, 1);
    leader.drop_follower(b"f1");
    assert_eq!(leader.replica_clients, vec![b"f2".to_vec()]);
    leader.drop_follower(b"nobody");
    assert_eq!(leader.replica_clients, vec![b"f2".to_vec()]);
    assert!(leader.is_valid());
}

#[test]
fn a_follower_hands_no_writes_on() {
    let mut follower = Instance::new(Store::new(), false);
    let mut client = Client::new();
    assert_eq!(run(&mut follower, &mut client, &["SET", "k", "1"], 1), "+OK\r\n");
    assert!(follower.write_commands.is_empty());
    assert!(follower.take_broadcast().is_none());
}

#[test]
fn a_follower_counts_the_bytes_of_its_leader() {
    let mut follower = Instance::new(Store::new(), false);
    let mut link = Client::with_id(b"leader".to_vec());
    let set = b"*3\r\n$3\r\nSET\r\n$1\r\nk\r\n$1\r\n1\r\n";
    let getack = b"*3\r\n$8\r\nREPLCONF\r\n$6\r\nGETACK\r\n$1\r\n*\r\n";
    let ping = b"*1\r\n$4\r\nPING\r\n";
    let bytes = [&set[..], &getack[..], &ping[..], &getack[..], &set[..10]].concat();

    let feed = link.consume(&mut follower, &bytes, 5);
    let whole = set.len() + 2 * getack.len() + ping.len();
    assert_eq!(feed.consumed, whole);
    assert!(!feed.malformed);
    let first = format!("*3\r\n$8\r\nREPLCONF\r\n$3\r\nACK\r\n$2\r\n{}\r\n", set.len());
    let second = format!(
        "*3\r\n$8\r\nREPLCONF\r\n$3\r\nACK\r\n$2\r\n{}\r\n",
        set.len() + getack.len() + ping.len()
    );
    assert_eq!(String::from_utf8(feed.out).unwrap(), format!("{}{}", first, second));
    assert_eq!(follower.master_repl_offset, whole as u128);
    assert_eq!(run(&mut follower, &mut link, &["GET", "k"], 5), "+1\r\n");

    let feed = link.consume(&mut follower, b"", 5);
    assert_eq!((feed.consumed, feed.malformed, feed.out.len()), (0, false, 0));
    let feed = link.consume(&mut follower, b"*1\r\n$4\r\nPING\r\n!!", 5);
    assert_eq!((feed.consumed, feed.malformed), (14, true));
    assert_eq!(follower.master_repl_offset, whole as u128 + 14);
}

#[test]
fn wait_counts_acknowledgements() {
    let mut leader = Instance::new(Store::new(), true);
    let mut client = Client::new();
    let mut link = Client::with_id(b"f1".to_vec());
    assert_eq!(run(&mut leader, &mut client, &["WAIT", "0", "100"], 1), ":0\r\n");
    assert_eq!(run(&mut leader, &mut client, &["SET", "k", "v"], 1), "+OK\r\n");
    reply(link.handle_command(&mut leader, command(&["PSYNC", "?", "-1"]), 2));
    assert_eq!(leader.ack_replicas, 0);
    let waits = blocked(client.handle_command(&mut leader, command(&["WAIT", "1", "100"]), 1_000));
    assert!(waits.retry(&mut leader, 1_100).is_none());
    assert_eq!(reply(client.handle_command(&mut leader, command(&["REPLCONF", "ack", "0"]), 1_040)), b"");
    assert_eq!(leader.ack_replicas, 0);
    reply(link.handle_command(&mut leader, command(&["REPLCONF", "ack", "0"]), 1_050));
    assert_eq!(waits.retry(&mut leader, 1_060).unwrap(), b":1\r\n");
    let waits = blocked(client.handle_command(&mut leader, command(&["WAIT", "2", "100"]), 2_000));
    assert!(waits.retry(&mut leader, 2_100).is_none());
    assert_eq!(waits.retry(&mut leader, 2_101).unwrap(), b":1\r\n");
}

#[test]
fn a_raw_payload_has_no_line_break_behind_it() {
    let bytes = b"$3\r\nabc+OK\r\n";
    let (payload, next) = raw_payload_in(bytes, 0).unwrap();
    assert_eq!(payload, b"abc");
    assert_eq!(next, 7);
    assert!(raw_payload_in(b"$3\r\nab", 0).unwrap_err().is_incomplete());
    assert!(raw_payload_in(b"", 0).unwrap_err().is_incomplete());
    assert!(!raw_payload_in(b"+3\r\nabc", 0).unwrap_err().is_incomplete());
    assert!(!raw_payload_in(b"$-1\r\n", 0).unwrap_err().is_incomplete());
    assert_eq!(raw_payload_in(b"$x\r\n", 0).unwrap_err().message(), "Invalid bulk string");
}

#[test]
fn a_follower_takes_the_snapshot_of_its_leader() {
    let mut leader = Instance::new(Store::new(), true);
    let mut link = Client::with_id(b"f1".to_vec());
    let answer = reply(link.handle_command(&mut leader, command(&["PSYNC", "?", "-1"]), 1));
    let mut follower = Instance::new(Store::new(), false);
    for cut in [0, 10, 56, 60, answer.len() - 1] {
        assert_eq!(
            follower.resync(&answer[..cut]),
            Err(ResyncError::Frame(Fault::Incomplete)),
            "{}",
            cut
        );
    }
    let mut more = answer.clone();
    more.extend_from_slice(b"*1\r\n$4\r\nPING\r\n");
    assert_eq!(follower.resync(&more), Ok(answer.len()));
    assert_eq!(follower.cache.len(), 0);

    let mut with_key = b"+FULLRESYNC x 0\r\n$25\r\n".to_vec();
    with_key.extend_from_slice(b"REDIS0011\xFA\x01a\x01b\xFE\x00\xFB\x01\x00\x00\x01k\x01v\xFF");
    assert_eq!(follower.resync(&with_key), Ok(with_key.len()));
    match follower.cache.get(b"k") {
        Some(CacheVal::String(s)) => assert_eq!(s.val, b"v"),
        _ => panic!("no string"),
    }
    assert_eq!(follower.resync(b":1\r\n$1\r\nx"), Err(ResyncError::Frame(Fault::Type)));
    assert_eq!(follower.resync(b"+OK\r\n+OK\r\n"), Err(ResyncError::Frame(Fault::Type)));
    assert_eq!(follower.resync(b"+OK\r\n$x\r\n"), Err(ResyncError::Frame(Fault::BulkString)));
    assert_eq!(
        follower.resync(b"+OK\r\n$5\r\nREDIS"),
        Err(ResyncError::Snapshot(RdbError::Truncated))
    );
    assert_eq!(
        follower.resync(b"+OK\r\n$5\r\nabcde"),
        Err(ResyncError::Snapshot(RdbError::BadMagic))
    );
    assert_eq!(follower.cache.len(), 1);
}

#[test]
fn a_connection_that_has_closed_is_forgotten() {
    let mut leader = Instance::new(Store::new(), true);
    let mut one = Client::with_id(b"c1".to_vec());
    let mut two = Client::with_id(b"c2".to_vec());
    reply(one.handle_command(&mut leader, command(&["PSYNC", "?", "-1"]), 1));
    reply(two.handle_command(&mut leader, command(&["PSYNC", "?", "-1"]), 1));
    run(&mut leader, &mut one, &["SUBSCRIBE", "a"], 1);
    run(&mut leader, &mut two, &["SUBSCRIBE", "a"], 1);
    run(&mut leader, &mut one, &["SUBSCRIBE", "b"], 1);
    blocked(one.handle_command(&mut leader, command(&["BLPOP", "l", "0"]), 1));
    blocked(two.handle_command(&mut leader, command(&["BLPOP", "l", "0"]), 1));
    run(&mut leader, &mut two, &["SET", "s", "v"], 1);
    leader.forget(b"c1");
    match leader.cache.get(b"l") {
        Some(CacheVal::List(l)) => assert_eq!(l.block_queue, vec![b"c2".to_vec()]),
        _ => panic!("no list"),
    }
    assert_eq!(run(&mut leader, &mut two, &["GET", "s"], 1), "+v\r\n");
    assert_eq!(leader.replica_clients, vec![b"c2".to_vec()]);
    assert_eq!(leader.channel_to_subscribers.len(), 2);
    assert_eq!(leader.channel_to_subscribers[0].subscribers, vec![b"c2".to_vec()]);
    assert!(leader.channel_to_subscribers[1].subscribers.is_empty());
    assert_eq!(run(&mut leader, &mut two, &["PUBLISH", "a", "x"], 1), ":1\r\n");
    assert_eq!(run(&mut leader, &mut two, &["PUBLISH", "b", "x"], 1), ":0\r\n");
    leader.forget(b"nobody");
    assert!(leader.is_valid());
}
