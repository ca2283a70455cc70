//! End-to-end runs of decoded requests against the in-memory store.

use redisless::command::Command;
use redisless::engine::run_command_and_get_response;
use redisless::resp::Resp;
use redisless::storage::InMemoryStorage;

fn req(parts: &[&[u8]]) -> Vec<Resp> {
    parts.iter().map(|p| Resp::BulkString(p.to_vec())).collect()
}

fn run(storage: &mut InMemoryStorage, parts: &[&[u8]], now: u64) -> Vec<u8> {
    run_command_and_get_response(storage, req(parts), now).1
}

#[test]
fn set_then_get_returns_value() {
    let mut s = InMemoryStorage::new();
    assert_eq!(run(&mut s, &[b"SET", b"key", b"value"], 0), b"+OK\r\n".to_vec());
    assert_eq!(run(&mut s, &[b"GET", b"key"], 0), b"+value\r\n".to_vec());
    assert_eq!(run(&mut s, &[b"GET", b"key"], 50_000), b"+value\r\n".to_vec());
}

#[test]
fn set_overwrites_value() {
    let mut s = InMemoryStorage::new();
    run(&mut s, &[b"SET", b"key", b"first"], 0);
    run(&mut s, &[b"SET", b"key", b"second"], 1);
    assert_eq!(run(&mut s, &[b"GET", b"key"], 2), b"+second\r\n".to_vec());
}

#[test]
fn get_absent_is_nil() {
    let mut s = InMemoryStorage::new();
    assert_eq!(run(&mut s, &[b"GET", b"missing"], 0), b"$-1\r\n".to_vec());
}

#[test]
fn setnx_on_existing_key_keeps_value() {
    let mut s = InMemoryStorage::new();
    run(&mut s, &[b"SET", b"key", b"old"], 0);
    assert_eq!(run(&mut s, &[b"SETNX", b"key", b"new"], 1), b":0\r\n".to_vec());
    assert_eq!(run(&mut s, &[b"GET", b"key"], 2), b"+old\r\n".to_vec());
}

#[test]
fn setnx_on_absent_key_writes() {
    let mut s = InMemoryStorage::new();
    assert_eq!(run(&mut s, &[b"SETNX", b"key", b"value"], 0), b":1\r\n".to_vec());
    assert_eq!(run(&mut s, &[b"GET", b"key"], 1), b"+value\r\n".to_vec());
}

#[test]
fn msetnx_with_present_key_writes_nothing() {
    let mut s = InMemoryStorage::new();
    run(&mut s, &[b"SET", b"k1", b"kept"], 0);
    assert_eq!(
        run(&mut s, &[b"MSETNX", b"k1", b"v1", b"k2", b"v2"], 1),
        b":0\r\n".to_vec()
    );
    assert_eq!(run(&mut s, &[b"GET", b"k1"], 2), b"+kept\r\n".to_vec());
    assert_eq!(run(&mut s, &[b"GET", b"k2"], 2), b"$-1\r\n".to_vec());
}

#[test]
fn msetnx_all_absent_writes_all() {
    let mut s = InMemoryStorage::new();
    assert_eq!(
        run(&mut s, &[b"MSETNX", b"k1", b"v1", b"k2", b"v2"], 0),
        b":1\r\n".to_vec()
    );
    assert_eq!(run(&mut s, &[b"GET", b"k1"], 1), b"+v1\r\n".to_vec());
    assert_eq!(run(&mut s, &[b"GET", b"k2"], 1), b"+v2\r\n".to_vec());
}

#[test]
fn mset_writes_every_pair() {
    let mut s = InMemoryStorage::new();
    assert_eq!(
        run(&mut s, &[b"MSET", b"k1", b"v1", b"k2", b"v2"], 0),
        b"+OK\r\n".to_vec()
    );
    assert_eq!(run(&mut s, &[b"GET", b"k1"], 1), b"+v1\r\n".to_vec());
    assert_eq!(run(&mut s, &[b"GET", b"k2"], 1), b"+v2\r\n".to_vec());
}

#[test]
fn setex_value_expires() {
    let mut s = InMemoryStorage::new();
    assert_eq!(
        run(&mut s, &[b"SETEX", b"key", b"1", b"value"], 1_000),
        b"+OK\r\n".to_vec()
    );
    assert_eq!(run(&mut s, &[b"GET", b"key"], 1_000), b"+value\r\n".to_vec());
    assert_eq!(run(&mut s, &[b"GET", b"key"], 2_000), b"+value\r\n".to_vec());
    assert_eq!(run(&mut s, &[b"GET", b"key"], 2_001), b"$-1\r\n".to_vec());
    assert_eq!(run(&mut s, &[b"EXISTS", b"key"], 2_002), b":0\r\n".to_vec());
}

#[test]
fn psetex_uses_millisecond_granularity() {
    let mut s = InMemoryStorage::new();
    run(&mut s, &[b"PSETEX", b"key", b"100", b"value"], 0);
    assert_eq!(run(&mut s, &[b"GET", b"key"], 100), b"+value\r\n".to_vec());
    assert_eq!(run(&mut s, &[b"GET", b"key"], 101), b"$-1\r\n".to_vec());
}

#[test]
fn expire_attaches_ttl_to_live_key() {
    let mut s = InMemoryStorage::new();
    run(&mut s, &[b"SET", b"key", b"value"], 0);
    assert_eq!(run(&mut s, &[b"EXPIRE", b"key", b"5"], 0), b":1\r\n".to_vec());
    assert_eq!(run(&mut s, &[b"GET", b"key"], 5_000), b"+value\r\n".to_vec());
    assert_eq!(run(&mut s, &[b"GET", b"key"], 5_001), b"$-1\r\n".to_vec());
}

#[test]
fn expire_on_absent_key_replies_zero() {
    let mut s = InMemoryStorage::new();
    assert_eq!(run(&mut s, &[b"EXPIRE", b"key", b"5"], 0), b":0\r\n".to_vec());
}

#[test]
fn pexpire_counts_milliseconds() {
    let mut s = InMemoryStorage::new();
    run(&mut s, &[b"SET", b"key", b"value"], 0);
    assert_eq!(run(&mut s, &[b"PEXPIRE", b"key", b"250"], 0), b":1\r\n".to_vec());
    assert_eq!(run(&mut s, &[b"GET", b"key"], 250), b"+value\r\n".to_vec());
    assert_eq!(run(&mut s, &[b"GET", b"key"], 251), b"$-1\r\n".to_vec());
}

#[test]
fn overwrite_keeps_pending_expiry() {
    let mut s = InMemoryStorage::new();
    run(&mut s, &[b"SETEX", b"key", b"10", b"old"], 0);
    run(&mut s, &[b"SET", b"key", b"new"], 1_000);
    assert_eq!(run(&mut s, &[b"GET", b"key"], 10_000), b"+new\r\n".to_vec());
    assert_eq!(run(&mut s, &[b"GET", b"key"], 10_001), b"$-1\r\n".to_vec());
}

#[test]
fn incr_absent_key_starts_at_one() {
    let mut s = InMemoryStorage::new();
    assert_eq!(run(&mut s, &[b"INCR", b"counter"], 0), b":1\r\n".to_vec());
    assert_eq!(run(&mut s, &[b"GET", b"counter"], 1), b"+1\r\n".to_vec());
}

#[test]
fn incr_counts_up_per_call() {
    let mut s = InMemoryStorage::new();
    run(&mut s, &[b"INCR", b"counter"], 0);
    run(&mut s, &[b"INCR", b"counter"], 1);
    assert_eq!(run(&mut s, &[b"INCR", b"counter"], 2), b":3\r\n".to_vec());
    assert_eq!(run(&mut s, &[b"GET", b"counter"], 3), b"+3\r\n".to_vec());
}

#[test]
fn incr_on_non_integer_replies_wrongtype() {
    let mut s = InMemoryStorage::new();
    run(&mut s, &[b"SET", b"key", b"abc"], 0);
    assert_eq!(
        run(&mut s, &[b"INCR", b"key"], 1),
        b"-WRONGTYPE Operation against a key holding the wrong kind of value\r\n".to_vec()
    );
    assert_eq!(run(&mut s, &[b"GET", b"key"], 2), b"+abc\r\n".to_vec());
}

#[test]
fn incr_on_negative_value_moves_toward_zero() {
    let mut s = InMemoryStorage::new();
    run(&mut s, &[b"SET", b"key", b"-3"], 0);
    assert_eq!(run(&mut s, &[b"INCR", b"key"], 1), b":-2\r\n".to_vec());
}

#[test]
fn incr_at_counter_ceiling_replies_wrongtype() {
    let mut s = InMemoryStorage::new();
    run(&mut s, &[b"SET", b"key", b"9223372036854775807"], 0);
    assert_eq!(
        run(&mut s, &[b"INCR", b"key"], 1),
        b"-WRONGTYPE Operation against a key holding the wrong kind of value\r\n".to_vec()
    );
    assert_eq!(
        run(&mut s, &[b"GET", b"key"], 2),
        b"+9223372036854775807\r\n".to_vec()
    );
}

#[test]
fn del_replies_one_then_zero() {
    let mut s = InMemoryStorage::new();
    run(&mut s, &[b"SET", b"key", b"value"], 0);
    assert_eq!(run(&mut s, &[b"DEL", b"key"], 1), b":1\r\n".to_vec());
    assert_eq!(run(&mut s, &[b"DEL", b"key"], 2), b":0\r\n".to_vec());
}

#[test]
fn del_of_expired_key_replies_zero() {
    let mut s = InMemoryStorage::new();
    run(&mut s, &[b"SETEX", b"key", b"1", b"value"], 0);
    assert_eq!(run(&mut s, &[b"DEL", b"key"], 1_001), b":0\r\n".to_vec());
}

#[test]
fn mget_keeps_request_order() {
    let mut s = InMemoryStorage::new();
    run(&mut s, &[b"SET", b"k1", b"x"], 0);
    assert_eq!(
        run(&mut s, &[b"MGET", b"k1", b"k2"], 1),
        b"*2\r\n+x\r\n$-1\r\n".to_vec()
    );
    assert_eq!(
        run(&mut s, &[b"MGET", b"k2", b"k1"], 1),
        b"*2\r\n$-1\r\n+x\r\n".to_vec()
    );
}

#[test]
fn getset_returns_old_value_and_writes() {
    let mut s = InMemoryStorage::new();
    run(&mut s, &[b"SET", b"key", b"old"], 0);
    assert_eq!(run(&mut s, &[b"GETSET", b"key", b"new"], 1), b"+old\r\n".to_vec());
    assert_eq!(run(&mut s, &[b"GET", b"key"], 2), b"+new\r\n".to_vec());
}

#[test]
fn getset_on_absent_key_replies_nil_and_writes() {
    let mut s = InMemoryStorage::new();
    assert_eq!(run(&mut s, &[b"GETSET", b"key", b"new"], 0), b"$-1\r\n".to_vec());
    assert_eq!(run(&mut s, &[b"GET", b"key"], 1), b"+new\r\n".to_vec());
}

#[test]
fn exists_is_expiry_aware() {
    let mut s = InMemoryStorage::new();
    run(&mut s, &[b"SETEX", b"key", b"1", b"value"], 0);
    assert_eq!(run(&mut s, &[b"EXISTS", b"key"], 1_000), b":1\r\n".to_vec());
    assert_eq!(run(&mut s, &[b"EXISTS", b"key"], 1_001), b":0\r\n".to_vec());
}

#[test]
fn info_ping_quit_fixed_replies() {
    let mut s = InMemoryStorage::new();
    assert_eq!(run(&mut s, &[b"INFO"], 0), b"*0\r\n".to_vec());
    assert_eq!(run(&mut s, &[b"PING"], 0), b"+PONG\r\n".to_vec());
    let (cmd, resp) = run_command_and_get_response(&mut s, req(&[b"QUIT"]), 0);
    assert_eq!(resp, b"+OK\r\n".to_vec());
    assert!(matches!(cmd, Some(Command::Quit)));
}

#[test]
fn trailing_tokens_of_no_argument_commands_are_ignored() {
    let mut s = InMemoryStorage::new();
    assert_eq!(run(&mut s, &[b"PING", b"extra", b"tokens"], 0), b"+PONG\r\n".to_vec());
}
