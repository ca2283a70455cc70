//! Typed commands and the parser from decoded protocol tokens.
//!
//! Keyword recognition is case-insensitive over ASCII. Durations are decimal
//! second or millisecond counts turned into absolute expiry instants at parse
//! time; the parser touches no storage and is a pure function of its input
//! and the clock value handed to it.

use vstd::prelude::*;

use crate::bytes::{copy_bytes, eq3, eq4, eq5, eq6, eq7, to_upper_vec, upper_seq};
use crate::num::parse_u64_spec;
use crate::resp::{views_of, Resp, RespV};
use crate::storage::{expiry_from_millis, expiry_from_secs, Expiry};

verus! {

/// One parsed operation, immutable once built.
#[derive(Debug, PartialEq)]
pub enum Command {
    SetValue(Vec<u8>, Vec<u8>),
    Setnx(Vec<u8>, Vec<u8>),
    Setex(Vec<u8>, Expiry, Vec<u8>),
    PSetex(Vec<u8>, Expiry, Vec<u8>),
    MSet(Vec<(Vec<u8>, Vec<u8>)>),
    MSetnx(Vec<(Vec<u8>, Vec<u8>)>),
    Expire(Vec<u8>, Expiry),
    PExpire(Vec<u8>, Expiry),
    Get(Vec<u8>),
    GetSet(Vec<u8>, Vec<u8>),
    MGet(Vec<Vec<u8>>),
    Del(Vec<u8>),
    Incr(Vec<u8>),
    Exists(Vec<u8>),
    Info,
    Ping,
    Quit,
}

/// Mathematical shape of a command: byte sequences for keys and values, a
/// plain millisecond instant for an expiry.
pub enum CommandV {
    SetValue(Seq<u8>, Seq<u8>),
    Setnx(Seq<u8>, Seq<u8>),
    Setex(Seq<u8>, u64, Seq<u8>),
    PSetex(Seq<u8>, u64, Seq<u8>),
    MSet(Seq<(Seq<u8>, Seq<u8>)>),
    MSetnx(Seq<(Seq<u8>, Seq<u8>)>),
    Expire(Seq<u8>, u64),
    PExpire(Seq<u8>, u64),
    Get(Seq<u8>),
    GetSet(Seq<u8>, Seq<u8>),
    MGet(Seq<Seq<u8>>),
    Del(Seq<u8>),
    Incr(Seq<u8>),
    Exists(Seq<u8>),
    Info,
    Ping,
    Quit,
}

pub open spec fn pair_views(items: Seq<(Vec<u8>, Vec<u8>)>) -> Seq<(Seq<u8>, Seq<u8>)> {
    items.map_values(|p: (Vec<u8>, Vec<u8>)| (p.0@, p.1@))
}

pub open spec fn key_views(keys: Seq<Vec<u8>>) -> Seq<Seq<u8>> {
    keys.map_values(|k: Vec<u8>| k@)
}

impl View for Command {
    type V = CommandV;

    open spec fn view(&self) -> CommandV {
        match self {
            Command::SetValue(k, v) => CommandV::SetValue(k@, v@),
            Command::Setnx(k, v) => CommandV::Setnx(k@, v@),
            Command::Setex(k, x, v) => CommandV::Setex(k@, x.millis, v@),
            Command::PSetex(k, x, v) => CommandV::PSetex(k@, x.millis, v@),
            Command::MSet(items) => CommandV::MSet(pair_views(items@)),
            Command::MSetnx(items) => CommandV::MSetnx(pair_views(items@)),
            Command::Expire(k, x) => CommandV::Expire(k@, x.millis),
            Command::PExpire(k, x) => CommandV::PExpire(k@, x.millis),
            Command::Get(k) => CommandV::Get(k@),
            Command::GetSet(k, v) => CommandV::GetSet(k@, v@),
            Command::MGet(keys) => CommandV::MGet(key_views(keys@)),
            Command::Del(k) => CommandV::Del(k@),
            Command::Incr(k) => CommandV::Incr(k@),
            Command::Exists(k) => CommandV::Exists(k@),
            Command::Info => CommandV::Info,
            Command::Ping => CommandV::Ping,
            Command::Quit => CommandV::Quit,
        }
    }
}

/// Why a request failed to parse.
#[derive(Debug, PartialEq)]
pub enum RedisCommandError {
    /// A command received a wrong count of arguments.
    ArgNumber,
    /// The command keyword is not recognized; carries the offending name.
    NotSupported(Vec<u8>),
    /// The request is empty or its first token is not a textual value.
    InvalidCommand,
    /// An expected key or value argument is absent or not a textual value.
    InvalidArgument,
    /// A duration argument is not a non-negative decimal integer.
    InvalidDuration,
    /// A duration puts the expiry instant beyond the clock's range.
    InvalidExpiry,
}

/// Mathematical shape of a parse error.
pub enum CommandErrorV {
    ArgNumber,
    NotSupported(Seq<u8>),
    InvalidCommand,
    InvalidArgument,
    InvalidDuration,
    InvalidExpiry,
}

impl View for RedisCommandError {
    type V = CommandErrorV;

    open spec fn view(&self) -> CommandErrorV {
        match self {
            RedisCommandError::ArgNumber => CommandErrorV::ArgNumber,
            RedisCommandError::NotSupported(name) => CommandErrorV::NotSupported(name@),
            RedisCommandError::InvalidCommand => CommandErrorV::InvalidCommand,
            RedisCommandError::InvalidArgument => CommandErrorV::InvalidArgument,
            RedisCommandError::InvalidDuration => CommandErrorV::InvalidDuration,
            RedisCommandError::InvalidExpiry => CommandErrorV::InvalidExpiry,
        }
    }
}

// Canonical keywords, upper-cased ASCII.
pub open spec fn kw_set() -> Seq<u8> {
    seq![83u8, 69u8, 84u8]
}

pub open spec fn kw_setex() -> Seq<u8> {
    seq![83u8, 69u8, 84u8, 69u8, 88u8]
}

pub open spec fn kw_psetex() -> Seq<u8> {
    seq![80u8, 83u8, 69u8, 84u8, 69u8, 88u8]
}

pub open spec fn kw_setnx() -> Seq<u8> {
    seq![83u8, 69u8, 84u8, 78u8, 88u8]
}

pub open spec fn kw_mset() -> Seq<u8> {
    seq![77u8, 83u8, 69u8, 84u8]
}

pub open spec fn kw_msetnx() -> Seq<u8> {
    seq![77u8, 83u8, 69u8, 84u8, 78u8, 88u8]
}

pub open spec fn kw_expire() -> Seq<u8> {
    seq![69u8, 88u8, 80u8, 73u8, 82u8, 69u8]
}

pub open spec fn kw_pexpire() -> Seq<u8> {
    seq![80u8, 69u8, 88u8, 80u8, 73u8, 82u8, 69u8]
}

pub open spec fn kw_get() -> Seq<u8> {
    seq![71u8, 69u8, 84u8]
}

pub open spec fn kw_getset() -> Seq<u8> {
    seq![71u8, 69u8, 84u8, 83u8, 69u8, 84u8]
}

pub open spec fn kw_mget() -> Seq<u8> {
    seq![77u8, 71u8, 69u8, 84u8]
}

pub open spec fn kw_del() -> Seq<u8> {
    seq![68u8, 69u8, 76u8]
}

pub open spec fn kw_incr() -> Seq<u8> {
    seq![73u8, 78u8, 67u8, 82u8]
}

pub open spec fn kw_exists() -> Seq<u8> {
    seq![69u8, 88u8, 73u8, 83u8, 84u8, 83u8]
}

pub open spec fn kw_info() -> Seq<u8> {
    seq![73u8, 78u8, 70u8, 79u8]
}

pub open spec fn kw_ping() -> Seq<u8> {
    seq![80u8, 73u8, 78u8, 71u8]
}

pub open spec fn kw_quit() -> Seq<u8> {
    seq![81u8, 85u8, 73u8, 84u8]
}

/// The upper-cased name is one of the supported keywords.
pub open spec fn is_supported(up: Seq<u8>) -> bool {
    ||| up == kw_set()
    ||| up == kw_setex()
    ||| up == kw_psetex()
    ||| up == kw_setnx()
    ||| up == kw_mset()
    ||| up == kw_msetnx()
    ||| up == kw_expire()
    ||| up == kw_pexpire()
    ||| up == kw_get()
    ||| up == kw_getset()
    ||| up == kw_mget()
    ||| up == kw_del()
    ||| up == kw_incr()
    ||| up == kw_exists()
    ||| up == kw_info()
    ||| up == kw_ping()
    ||| up == kw_quit()
}

/// The bulk value at position `i`, or the argument-extraction error.
pub open spec fn arg_at(t: Seq<RespV>, i: int) -> Result<Seq<u8>, CommandErrorV> {
    if 0 <= i < t.len() {
        match t[i] {
            RespV::BulkString(b) => Ok(b),
            _ => Err(CommandErrorV::InvalidArgument),
        }
    } else {
        Err(CommandErrorV::InvalidArgument)
    }
}

/// The duration at position `i`: a bulk value parsed as a decimal count.
pub open spec fn duration_at(t: Seq<RespV>, i: int) -> Result<u64, CommandErrorV> {
    match arg_at(t, i) {
        Ok(b) => match parse_u64_spec(b) {
            Some(d) => Ok(d),
            None => Err(CommandErrorV::InvalidDuration),
        },
        Err(e) => Err(e),
    }
}

pub open spec fn all_bulk(t: Seq<RespV>) -> bool {
    forall|i: int| 0 <= i < t.len() ==> t[i] is BulkString
}

pub open spec fn bulk_of(r: RespV) -> Seq<u8> {
    match r {
        RespV::BulkString(b) => b,
        _ => Seq::empty(),
    }
}

/// Consecutive (key, value) pairs of an even-length token run.
pub open spec fn pairs_of(t: Seq<RespV>) -> Seq<(Seq<u8>, Seq<u8>)> {
    Seq::new((t.len() / 2) as nat, |i: int| (bulk_of(t[2 * i]), bulk_of(t[2 * i + 1])))
}

pub open spec fn parse_key_value(t: Seq<RespV>, make: spec_fn(Seq<u8>, Seq<u8>) -> CommandV) -> Result<
    CommandV,
    CommandErrorV,
> {
    match arg_at(t, 1) {
        Ok(k) => match arg_at(t, 2) {
            Ok(v) => Ok(make(k, v)),
            Err(e) => Err(e),
        },
        Err(e) => Err(e),
    }
}

pub open spec fn parse_key_only(t: Seq<RespV>, make: spec_fn(Seq<u8>) -> CommandV) -> Result<
    CommandV,
    CommandErrorV,
> {
    match arg_at(t, 1) {
        Ok(k) => Ok(make(k)),
        Err(e) => Err(e),
    }
}

/// Key, duration and value, the duration turned into an absolute expiry in
/// seconds (`per_second`) or milliseconds granularity.
pub open spec fn parse_set_with_expiry(t: Seq<RespV>, now: u64, per_second: bool) -> Result<
    CommandV,
    CommandErrorV,
> {
    match arg_at(t, 1) {
        Ok(k) => match duration_at(t, 2) {
            Ok(d) => match arg_at(t, 3) {
                Ok(v) => match (if per_second {
                    expiry_from_secs(d, now)
                } else {
                    expiry_from_millis(d, now)
                }) {
                    Some(x) => Ok(
                        if per_second {
                            CommandV::Setex(k, x.millis, v)
                        } else {
                            CommandV::PSetex(k, x.millis, v)
                        },
                    ),
                    None => Err(CommandErrorV::InvalidExpiry),
                },
                Err(e) => Err(e),
            },
            Err(e) => Err(e),
        },
        Err(e) => Err(e),
    }
}

/// Key and duration, as for an expire command.
pub open spec fn parse_expire(t: Seq<RespV>, now: u64, per_second: bool) -> Result<
    CommandV,
    CommandErrorV,
> {
    match arg_at(t, 1) {
        Ok(k) => match duration_at(t, 2) {
            Ok(d) => match (if per_second {
                expiry_from_secs(d, now)
            } else {
                expiry_from_millis(d, now)
            }) {
                Some(x) => Ok(
                    if per_second {
                        CommandV::Expire(k, x.millis)
                    } else {
                        CommandV::PExpire(k, x.millis)
                    },
                ),
                None => Err(CommandErrorV::InvalidExpiry),
            },
            Err(e) => Err(e),
        },
        Err(e) => Err(e),
    }
}

/// An even-length, non-empty remainder split into (key, value) pairs.
pub open spec fn parse_pair_list(t: Seq<RespV>, make: spec_fn(Seq<(Seq<u8>, Seq<u8>)>) -> CommandV) -> Result<
    CommandV,
    CommandErrorV,
> {
    let rest = t.subrange(1, t.len() as int);
    if rest.len() == 0 || rest.len() % 2 != 0 {
        Err(CommandErrorV::ArgNumber)
    } else if !all_bulk(rest) {
        Err(CommandErrorV::InvalidArgument)
    } else {
        Ok(make(pairs_of(rest)))
    }
}

/// A non-empty remainder of keys.
pub open spec fn parse_key_list(t: Seq<RespV>) -> Result<CommandV, CommandErrorV> {
    let rest = t.subrange(1, t.len() as int);
    if rest.len() == 0 {
        Err(CommandErrorV::ArgNumber)
    } else if !all_bulk(rest) {
        Err(CommandErrorV::InvalidArgument)
    } else {
        Ok(CommandV::MGet(rest.map_values(|r: RespV| bulk_of(r))))
    }
}

/// What parsing a request means. The first token must be a textual command
/// name, matched case-insensitively; each branch states the arity and shape
/// rules of its command.
pub open spec fn parse_spec(t: Seq<RespV>, now: u64) -> Result<CommandV, CommandErrorV> {
    if t.len() == 0 {
        Err(CommandErrorV::InvalidCommand)
    } else {
        match t[0] {
            RespV::BulkString(name) => {
                let up = upper_seq(name);
                if up == kw_set() {
                    parse_key_value(t, |k: Seq<u8>, v: Seq<u8>| CommandV::SetValue(k, v))
                } else if up == kw_setex() {
                    parse_set_with_expiry(t, now, true)
                } else if up == kw_psetex() {
                    parse_set_with_expiry(t, now, false)
                } else if up == kw_mset() {
                    parse_pair_list(t, |items: Seq<(Seq<u8>, Seq<u8>)>| CommandV::MSet(items))
                } else if up == kw_msetnx() {
                    parse_pair_list(t, |items: Seq<(Seq<u8>, Seq<u8>)>| CommandV::MSetnx(items))
                } else if up == kw_setnx() {
                    parse_key_value(t, |k: Seq<u8>, v: Seq<u8>| CommandV::Setnx(k, v))
                } else if up == kw_expire() {
                    parse_expire(t, now, true)
                } else if up == kw_pexpire() {
                    parse_expire(t, now, false)
                } else if up == kw_get() {
                    parse_key_only(t, |k: Seq<u8>| CommandV::Get(k))
                } else if up == kw_getset() {
                    parse_key_value(t, |k: Seq<u8>, v: Seq<u8>| CommandV::GetSet(k, v))
                } else if up == kw_mget() {
                    parse_key_list(t)
                } else if up == kw_del() {
                    parse_key_only(t, |k: Seq<u8>| CommandV::Del(k))
                } else if up == kw_incr() {
                    parse_key_only(t, |k: Seq<u8>| CommandV::Incr(k))
                } else if up == kw_exists() {
                    parse_key_only(t, |k: Seq<u8>| CommandV::Exists(k))
                } else if up == kw_info() {
                    Ok(CommandV::Info)
                } else if up == kw_ping() {
                    Ok(CommandV::Ping)
                } else if up == kw_quit() {
                    Ok(CommandV::Quit)
                } else {
                    Err(CommandErrorV::NotSupported(name))
                }
            },
            _ => Err(CommandErrorV::InvalidCommand),
        }
    }
}

/// The view of a parse result, for stating the parser's contract.
pub open spec fn parse_result_view(r: Result<Command, RedisCommandError>) -> Result<
    CommandV,
    CommandErrorV,
> {
    match r {
        Ok(c) => Ok(c@),
        Err(e) => Err(e@),
    }
}

fn arg(request: &Vec<Resp>, i: usize) -> (r: Result<Vec<u8>, RedisCommandError>)
    ensures
        ({
            let a = arg_at(views_of(request@), i as int);
            match r {
                Ok(v) => a == Ok::<Seq<u8>, CommandErrorV>(v@),
                Err(e) => a == Err::<Seq<u8>, CommandErrorV>(e@),
            }
        }),
{
    if i < request.len() {
        match &request[i] {
            Resp::BulkString(b) => Ok(copy_bytes(b.as_slice())),
            _ => Err(RedisCommandError::InvalidArgument),
        }
    } else {
        Err(RedisCommandError::InvalidArgument)
    }
}

fn duration_arg(request: &Vec<Resp>, i: usize) -> (r: Result<u64, RedisCommandError>)
    ensures
        ({
            let a = duration_at(views_of(request@), i as int);
            match r {
                Ok(d) => a == Ok::<u64, CommandErrorV>(d),
                Err(e) => a == Err::<u64, CommandErrorV>(e@),
            }
        }),
{
    match arg(request, i) {
        Ok(b) => match crate::num::parse_u64(b.as_slice()) {
            Some(d) => Ok(d),
            None => Err(RedisCommandError::InvalidDuration),
        },
        Err(e) => Err(e),
    }
}

fn parse_pairs(request: &Vec<Resp>) -> (r: Result<Vec<(Vec<u8>, Vec<u8>)>, RedisCommandError>)
    requires
        request@.len() >= 1,
    ensures
        ({
            let rest = views_of(request@).subrange(1, request@.len() as int);
            match r {
                Ok(items) => rest.len() >= 1 && rest.len() % 2 == 0 && all_bulk(rest)
                    && pair_views(items@) == pairs_of(rest),
                Err(e) => if rest.len() == 0 || rest.len() % 2 != 0 {
                    e@ == CommandErrorV::ArgNumber
                } else {
                    !all_bulk(rest) && e@ == CommandErrorV::InvalidArgument
                },
            }
        }),
{
    let ghost rest = views_of(request@).subrange(1, request@.len() as int);
    let n = request.len() - 1;
    if n == 0 || n % 2 != 0 {
        return Err(RedisCommandError::ArgNumber);
    }
    let mut items: Vec<(Vec<u8>, Vec<u8>)> = Vec::new();
    let mut idx: usize = 0;
    while idx < n / 2
        invariant
            request@.len() >= 1,
            n == request@.len() - 1,
            n % 2 == 0,
            n >= 2,
            idx <= n / 2,
            rest == views_of(request@).subrange(1, request@.len() as int),
            items@.len() == idx,
            forall|j: int|
                0 <= j < idx ==> #[trigger] rest[2 * j] is BulkString && rest[2 * j + 1] is BulkString,
            pair_views(items@) == pairs_of(rest).subrange(0, idx as int),
        decreases n / 2 - idx,
    {
        let kpos = 1 + 2 * idx;
        let k = match &request[kpos] {
            Resp::BulkString(b) => copy_bytes(b.as_slice()),
            _ => {
                proof {
                    assert(rest[2 * idx as int] == views_of(request@)[kpos as int]);
                    assert(!(rest[2 * idx as int] is BulkString));
                }
                return Err(RedisCommandError::InvalidArgument);
            },
        };
        let v = match &request[kpos + 1] {
            Resp::BulkString(b) => copy_bytes(b.as_slice()),
            _ => {
                proof {
                    assert(rest[2 * idx as int + 1] == views_of(request@)[kpos as int + 1]);
                    assert(!(rest[2 * idx as int + 1] is BulkString));
                }
                return Err(RedisCommandError::InvalidArgument);
            },
        };
        proof {
            assert(rest[2 * idx as int] == views_of(request@)[kpos as int]);
            assert(rest[2 * idx as int + 1] == views_of(request@)[kpos as int + 1]);
        }
        items.push((k, v));
        idx += 1;
        proof {
            assert(pair_views(items@) =~= pairs_of(rest).subrange(0, idx as int));
        }
    }
    proof {
        assert forall|i: int| 0 <= i < rest.len() implies rest[i] is BulkString by {
            let j = i / 2;
            assert(rest[2 * j] is BulkString && rest[2 * j + 1] is BulkString);
        }
        assert(pairs_of(rest).subrange(0, (n / 2) as int) =~= pairs_of(rest));
    }
    Ok(items)
}

fn parse_key_vec(request: &Vec<Resp>) -> (r: Result<Vec<Vec<u8>>, RedisCommandError>)
    requires
        request@.len() >= 1,
    ensures
        ({
            let rest = views_of(request@).subrange(1, request@.len() as int);
            match r {
                Ok(keys) => rest.len() >= 1 && all_bulk(rest) && key_views(keys@)
                    == rest.map_values(|t: RespV| bulk_of(t)),
                Err(e) => if rest.len() == 0 {
                    e@ == CommandErrorV::ArgNumber
                } else {
                    !all_bulk(rest) && e@ == CommandErrorV::InvalidArgument
                },
            }
        }),
{
    let ghost rest = views_of(request@).subrange(1, request@.len() as int);
    let n = request.len() - 1;
    if n == 0 {
        return Err(RedisCommandError::ArgNumber);
    }
    let mut keys: Vec<Vec<u8>> = Vec::new();
    let mut idx: usize = 0;
    while idx < n
        invariant
            request@.len() >= 1,
            n == request@.len() - 1,
            idx <= n,
            rest == views_of(request@).subrange(1, request@.len() as int),
            keys@.len() == idx,
            forall|j: int| 0 <= j < idx ==> rest[j] is BulkString,
            key_views(keys@) == rest.map_values(|t: RespV| bulk_of(t)).subrange(0, idx as int),
        decreases n - idx,
    {
        let k = match &request[1 + idx] {
            Resp::BulkString(b) => copy_bytes(b.as_slice()),
            _ => {
                proof {
                    assert(rest[idx as int] == views_of(request@)[1 + idx as int]);
                }
                return Err(RedisCommandError::InvalidArgument);
            },
        };
        proof {
            assert(rest[idx as int] == views_of(request@)[1 + idx as int]);
        }
        keys.push(k);
        idx += 1;
        proof {
            assert(key_views(keys@) =~= rest.map_values(|t: RespV| bulk_of(t)).subrange(
                0,
                idx as int,
            ));
        }
    }
    proof {
        assert(rest.map_values(|t: RespV| bulk_of(t)).subrange(0, n as int) =~= rest.map_values(
            |t: RespV| bulk_of(t),
        ));
    }
    Ok(keys)
}

impl Command {
    /// Parses an ordered token sequence into a typed command or a structured
    /// error; `now` is the clock instant used to anchor relative durations.
    pub fn parse(request: Vec<Resp>, now: u64) -> (r: Result<Command, RedisCommandError>)
        ensures
            parse_result_view(r) == parse_spec(views_of(request@), now),
    {
        let ghost t = views_of(request@);
        if request.len() == 0 {
            return Err(RedisCommandError::InvalidCommand);
        }
        let name: Vec<u8> = match &request[0] {
            Resp::BulkString(b) => copy_bytes(b.as_slice()),
            _ => {
                return Err(RedisCommandError::InvalidCommand);
            },
        };
        proof {
            assert(t[0] == request@[0]@);
        }
        let up = to_upper_vec(name.as_slice());
        if eq3(up.as_slice(), 83, 69, 84) {
            // SET
            let k = match arg(&request, 1) {
                Ok(v) => v,
                Err(e) => return Err(e),
            };
            let v = match arg(&request, 2) {
                Ok(v) => v,
                Err(e) => return Err(e),
            };
            Ok(Command::SetValue(k, v))
        } else if eq5(up.as_slice(), 83, 69, 84, 69, 88) {
            // SETEX
            match Self::parse_with_expiry(&request, now, true) {
                Ok(c) => Ok(c),
                Err(e) => Err(e),
            }
        } else if eq6(up.as_slice(), 80, 83, 69, 84, 69, 88) {
            // PSETEX
            match Self::parse_with_expiry(&request, now, false) {
                Ok(c) => Ok(c),
                Err(e) => Err(e),
            }
        } else if eq4(up.as_slice(), 77, 83, 69, 84) {
            // MSET
            match parse_pairs(&request) {
                Ok(items) => Ok(Command::MSet(items)),
                Err(e) => Err(e),
            }
        } else if eq6(up.as_slice(), 77, 83, 69, 84, 78, 88) {
            // MSETNX
            match parse_pairs(&request) {
                Ok(items) => Ok(Command::MSetnx(items)),
                Err(e) => Err(e),
            }
        } else if eq5(up.as_slice(), 83, 69, 84, 78, 88) {
            // SETNX
            let k = match arg(&request, 1) {
                Ok(v) => v,
                Err(e) => return Err(e),
            };
            let v = match arg(&request, 2) {
                Ok(v) => v,
                Err(e) => return Err(e),
            };
            Ok(Command::Setnx(k, v))
        } else if eq6(up.as_slice(), 69, 88, 80, 73, 82, 69) {
            // EXPIRE
            match Self::parse_expire_cmd(&request, now, true) {
                Ok(c) => Ok(c),
                Err(e) => Err(e),
            }
        } else if eq7(up.as_slice(), 80, 69, 88, 80, 73, 82, 69) {
            // PEXPIRE
            match Self::parse_expire_cmd(&request, now, false) {
                Ok(c) => Ok(c),
                Err(e) => Err(e),
            }
        } else if eq3(up.as_slice(), 71, 69, 84) {
            // GET
            match arg(&request, 1) {
                Ok(k) => Ok(Command::Get(k)),
                Err(e) => Err(e),
            }
        } else if eq6(up.as_slice(), 71, 69, 84, 83, 69, 84) {
            // GETSET
            let k = match arg(&request, 1) {
                Ok(v) => v,
                Err(e) => return Err(e),
            };
            let v = match arg(&request, 2) {
                Ok(v) => v,
                Err(e) => return Err(e),
            };
            Ok(Command::GetSet(k, v))
        } else if eq4(up.as_slice(), 77, 71, 69, 84) {
            // MGET
            match parse_key_vec(&request) {
                Ok(keys) => Ok(Command::MGet(keys)),
                Err(e) => Err(e),
            }
        } else if eq3(up.as_slice(), 68, 69, 76) {
            // DEL
            match arg(&request, 1) {
                Ok(k) => Ok(Command::Del(k)),
                Err(e) => Err(e),
            }
        } else if eq4(up.as_slice(), 73, 78, 67, 82) {
            // INCR
            match arg(&request, 1) {
                Ok(k) => Ok(Command::Incr(k)),
                Err(e) => Err(e),
            }
        } else if eq6(up.as_slice(), 69, 88, 73, 83, 84, 83) {
            // EXISTS
            match arg(&request, 1) {
                Ok(k) => Ok(Command::Exists(k)),
                Err(e) => Err(e),
            }
        } else if eq4(up.as_slice(), 73, 78, 70, 79) {
            // INFO
            Ok(Command::Info)
        } else if eq4(up.as_slice(), 80, 73, 78, 71) {
            // PING
            Ok(Command::Ping)
        } else if eq4(up.as_slice(), 81, 85, 73, 84) {
            // QUIT
            Ok(Command::Quit)
        } else {
            Err(RedisCommandError::NotSupported(name))
        }
    }

    fn parse_with_expiry(request: &Vec<Resp>, now: u64, per_second: bool) -> (r: Result<
        Command,
        RedisCommandError,
    >)
        ensures
            parse_result_view(r) == parse_set_with_expiry(views_of(request@), now, per_second),
    {
        let k = match arg(request, 1) {
            Ok(v) => v,
            Err(e) => return Err(e),
        };
        let d = match duration_arg(request, 2) {
            Ok(v) => v,
            Err(e) => return Err(e),
        };
        let v = match arg(request, 3) {
            Ok(v) => v,
            Err(e) => return Err(e),
        };
        if per_second {
            match Expiry::new_from_secs(d, now) {
                Some(x) => Ok(Command::Setex(k, x, v)),
                None => Err(RedisCommandError::InvalidExpiry),
            }
        } else {
            match Expiry::new_from_millis(d, now) {
                Some(x) => Ok(Command::PSetex(k, x, v)),
                None => Err(RedisCommandError::InvalidExpiry),
            }
        }
    }

    fn parse_expire_cmd(request: &Vec<Resp>, now: u64, per_second: bool) -> (r: Result<
        Command,
        RedisCommandError,
    >)
        ensures
            parse_result_view(r) == parse_expire(views_of(request@), now, per_second),
    {
        let k = match arg(request, 1) {
            Ok(v) => v,
            Err(e) => return Err(e),
        };
        let d = match duration_arg(request, 2) {
            Ok(v) => v,
            Err(e) => return Err(e),
        };
        if per_second {
            match Expiry::new_from_secs(d, now) {
                Some(x) => Ok(Command::Expire(k, x)),
                None => Err(RedisCommandError::InvalidExpiry),
            }
        } else {
            match Expiry::new_from_millis(d, now) {
                Some(x) => Ok(Command::PExpire(k, x)),
                None => Err(RedisCommandError::InvalidExpiry),
            }
        }
    }
}

} // verus!
