//! The parser alone: keyword casing, arity and shape rules, error replies.

use redisless::command::{Command, RedisCommandError};
use redisless::engine::run_command_and_get_response;
use redisless::resp::Resp;
use redisless::storage::InMemoryStorage;

fn req(parts: &[&[u8]]) -> Vec<Resp> {
    parts.iter().map(|p| Resp::BulkString(p.to_vec())).collect()
}

fn run(storage: &mut InMemoryStorage, request: Vec<Resp>, now: u64) -> Vec<u8> {
    run_command_and_get_response(storage, request, now).1
}

#[test]
fn keyword_matching_is_case_insensitive() {
    let lower = Command::parse(req(&[b"get", b"key"]), 0);
    let mixed = Command::parse(req(&[b"Get", b"key"]), 0);
    let upper = Command::parse(req(&[b"GET", b"key"]), 0);
    assert_eq!(lower, upper);
    assert_eq!(mixed, upper);
    assert_eq!(upper, Ok(Command::Get(b"key".to_vec())));

    let odd = Command::parse(req(&[b"sEtNx", b"key", b"value"]), 0);
    assert_eq!(odd, Ok(Command::Setnx(b"key".to_vec(), b"value".to_vec())));
}

#[test]
fn unknown_keyword_reply_names_it() {
    let mut s = InMemoryStorage::new();
    assert_eq!(
        run(&mut s, req(&[b"FOO"]), 0),
        b"-ERR unknown command FOO\r\n".to_vec()
    );
    assert_eq!(
        Command::parse(req(&[b"FOO", b"arg"]), 0),
        Err(RedisCommandError::NotSupported(b"FOO".to_vec()))
    );
}

#[test]
fn empty_request_is_invalid() {
    let mut s = InMemoryStorage::new();
    assert_eq!(run(&mut s, Vec::new(), 0), b"-ERR invalid command\r\n".to_vec());
}

#[test]
fn non_textual_first_token_is_invalid() {
    let mut s = InMemoryStorage::new();
    assert_eq!(
        run(&mut s, vec![Resp::Integer(7)], 0),
        b"-ERR invalid command\r\n".to_vec()
    );
    assert_eq!(
        run(&mut s, vec![Resp::Nil], 0),
        b"-ERR invalid command\r\n".to_vec()
    );
}

#[test]
fn missing_key_argument_is_an_error() {
    let mut s = InMemoryStorage::new();
    assert_eq!(run(&mut s, req(&[b"GET"]), 0), b"-ERR invalid argument\r\n".to_vec());
    assert_eq!(
        run(&mut s, req(&[b"SET", b"key"]), 0),
        b"-ERR invalid argument\r\n".to_vec()
    );
}

#[test]
fn non_textual_key_argument_is_an_error() {
    let mut s = InMemoryStorage::new();
    assert_eq!(
        run(&mut s, vec![Resp::BulkString(b"GET".to_vec()), Resp::Integer(1)], 0),
        b"-ERR invalid argument\r\n".to_vec()
    );
}

#[test]
fn mset_odd_or_empty_pairs_is_arg_number() {
    let mut s = InMemoryStorage::new();
    assert_eq!(
        run(&mut s, req(&[b"MSET"]), 0),
        b"-ERR wrong number of arguments\r\n".to_vec()
    );
    assert_eq!(
        run(&mut s, req(&[b"MSET", b"k1", b"v1", b"k2"]), 0),
        b"-ERR wrong number of arguments\r\n".to_vec()
    );
    assert_eq!(
        run(&mut s, req(&[b"MSETNX", b"k1"]), 0),
        b"-ERR wrong number of arguments\r\n".to_vec()
    );
}

#[test]
fn mget_without_keys_is_arg_number() {
    let mut s = InMemoryStorage::new();
    assert_eq!(
        run(&mut s, req(&[b"MGET"]), 0),
        b"-ERR wrong number of arguments\r\n".to_vec()
    );
}

#[test]
fn malformed_duration_is_an_error() {
    let mut s = InMemoryStorage::new();
    assert_eq!(
        run(&mut s, req(&[b"SETEX", b"key", b"abc", b"value"]), 0),
        b"-ERR invalid duration\r\n".to_vec()
    );
    assert_eq!(
        run(&mut s, req(&[b"EXPIRE", b"key", b"-1"]), 0),
        b"-ERR invalid duration\r\n".to_vec()
    );
    assert_eq!(
        run(&mut s, req(&[b"PEXPIRE", b"key", b""]), 0),
        b"-ERR invalid duration\r\n".to_vec()
    );
}

#[test]
fn overflowing_expiry_is_an_error() {
    let mut s = InMemoryStorage::new();
    assert_eq!(
        run(&mut s, req(&[b"SETEX", b"key", b"18446744073709551615", b"value"]), 1),
        b"-ERR expiry out of range\r\n".to_vec()
    );
    assert_eq!(
        run(&mut s, req(&[b"PEXPIRE", b"key", b"18446744073709551615"]), 1),
        b"-ERR expiry out of range\r\n".to_vec()
    );
}

#[test]
fn duration_with_leading_zeros_is_accepted() {
    let mut s = InMemoryStorage::new();
    redisless::engine::run_command_and_get_response(
        &mut s,
        req(&[b"SET", b"key", b"value"]),
        0,
    );
    assert_eq!(run(&mut s, req(&[b"EXPIRE", b"key", b"007"]), 0), b":1\r\n".to_vec());
    assert_eq!(run(&mut s, req(&[b"GET", b"key"]), 7_000), b"+value\r\n".to_vec());
    assert_eq!(run(&mut s, req(&[b"GET", b"key"]), 7_001), b"$-1\r\n".to_vec());
}

#[test]
fn parse_error_touches_no_storage() {
    let mut s = InMemoryStorage::new();
    run(&mut s, req(&[b"SET", b"key", b"value"]), 0);
    run(&mut s, req(&[b"MSET", b"key", b"other", b"odd"]), 1);
    assert_eq!(run(&mut s, req(&[b"GET", b"key"]), 2), b"+value\r\n".to_vec());
}

#[test]
fn setex_parses_to_absolute_expiry() {
    let parsed = Command::parse(req(&[b"SETEX", b"key", b"2", b"value"]), 500);
    match parsed {
        Ok(Command::Setex(key, expiry, value)) => {
            assert_eq!(key, b"key".to_vec());
            assert_eq!(expiry.millis, 2_500);
            assert_eq!(value, b"value".to_vec());
        },
        other => panic!("parsed to {:?}", other),
    }
}
