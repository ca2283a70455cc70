//! The execution engine: applies one parsed command to the shared storage
//! under a single exclusive-access window (the `&mut` borrow) and produces
//! the protocol reply bytes; a failed parse becomes an error reply and
//! touches no storage.

use vstd::prelude::*;

use crate::command::{Command, CommandV, RedisCommandError};
use crate::num::{dec_digits, dec_int, parse_i64, parse_i64_spec};
use crate::replies::{
    bulk_reply, bulk_reply_vec, crlf, empty_array_reply, empty_array_reply_vec, error_reply,
    error_reply_vec, int_reply, int_reply_vec, nil_reply, nil_reply_vec, ok_reply, ok_reply_vec,
    pong_reply, pong_reply_vec, wrongtype_reply, wrongtype_reply_vec,
};
use crate::resp::{views_of, Resp};
use crate::storage::{
    expire_effect, purge_effect, remove_effect, visible_at, write_effect, Expiry, Storage,
    StoredV,
};

verus! {

/// All pairs written in order, earlier pairs first.
pub open spec fn write_all(
    m: Map<Seq<u8>, StoredV>,
    items: Seq<(Seq<u8>, Seq<u8>)>,
    now: u64,
) -> Map<Seq<u8>, StoredV>
    decreases items.len(),
{
    if items.len() == 0 {
        m
    } else {
        write_effect(write_all(m, items.drop_last(), now), items.last().0, items.last().1, now)
    }
}

/// Lazy expiration observed while the keys of a batch are checked in order.
pub open spec fn purge_pairs(
    m: Map<Seq<u8>, StoredV>,
    items: Seq<(Seq<u8>, Seq<u8>)>,
    now: u64,
) -> Map<Seq<u8>, StoredV>
    decreases items.len(),
{
    if items.len() == 0 {
        m
    } else {
        purge_effect(purge_pairs(m, items.drop_last(), now), items.last().0, now)
    }
}

/// Lazy expiration observed while a key list is read in order.
pub open spec fn purge_keys(m: Map<Seq<u8>, StoredV>, keys: Seq<Seq<u8>>, now: u64) -> Map<
    Seq<u8>,
    StoredV,
>
    decreases keys.len(),
{
    if keys.len() == 0 {
        m
    } else {
        purge_effect(purge_keys(m, keys.drop_last(), now), keys.last(), now)
    }
}

/// Some key of the batch is currently visible.
pub open spec fn any_pair_visible(
    m: Map<Seq<u8>, StoredV>,
    items: Seq<(Seq<u8>, Seq<u8>)>,
    now: u64,
) -> bool {
    exists|i: int| 0 <= i < items.len() && visible_at(m, items[i].0, now)
}

/// Purging one key changes nothing a read can see: visibility and visible
/// values at every key are as before.
pub proof fn lemma_purge_preserves(m: Map<Seq<u8>, StoredV>, k: Seq<u8>, k2: Seq<u8>, now: u64)
    ensures
        visible_at(purge_effect(m, k, now), k2, now) == visible_at(m, k2, now),
        visible_at(m, k2, now) ==> purge_effect(m, k, now)[k2] == m[k2],
{
}

/// Purging along a batch of pairs preserves visibility and visible values.
pub proof fn lemma_purge_pairs_preserves(
    m: Map<Seq<u8>, StoredV>,
    items: Seq<(Seq<u8>, Seq<u8>)>,
    k2: Seq<u8>,
    now: u64,
)
    ensures
        visible_at(purge_pairs(m, items, now), k2, now) == visible_at(m, k2, now),
        visible_at(m, k2, now) ==> purge_pairs(m, items, now)[k2] == m[k2],
    decreases items.len(),
{
    if items.len() > 0 {
        lemma_purge_pairs_preserves(m, items.drop_last(), k2, now);
        lemma_purge_preserves(purge_pairs(m, items.drop_last(), now), items.last().0, k2, now);
    }
}

/// Purging along a key list preserves visibility and visible values.
pub proof fn lemma_purge_keys_preserves(
    m: Map<Seq<u8>, StoredV>,
    keys: Seq<Seq<u8>>,
    k2: Seq<u8>,
    now: u64,
)
    ensures
        visible_at(purge_keys(m, keys, now), k2, now) == visible_at(m, k2, now),
        visible_at(m, k2, now) ==> purge_keys(m, keys, now)[k2] == m[k2],
    decreases keys.len(),
{
    if keys.len() > 0 {
        lemma_purge_keys_preserves(m, keys.drop_last(), k2, now);
        lemma_purge_preserves(purge_keys(m, keys.drop_last(), now), keys.last(), k2, now);
    }
}

/// Storage after an increment: an absent key is written as the text `1`; a
/// live integer text below the counter's ceiling is rewritten incremented,
/// its expiry kept; anything else is left untouched.
pub open spec fn incr_effect(m: Map<Seq<u8>, StoredV>, k: Seq<u8>, now: u64) -> Map<
    Seq<u8>,
    StoredV,
> {
    if !visible_at(m, k, now) {
        write_effect(purge_effect(m, k, now), k, dec_digits(1), now)
    } else {
        match parse_i64_spec(m[k].0) {
            Some(v) => if v < i64::MAX {
                m.insert(k, (dec_int(v as int + 1), m[k].1))
            } else {
                m
            },
            None => m,
        }
    }
}

/// Reply to an increment: the new counter value, or the type-mismatch error
/// where the stored text is no integer or the counter cannot grow.
pub open spec fn incr_response(m: Map<Seq<u8>, StoredV>, k: Seq<u8>, now: u64) -> Seq<u8> {
    if !visible_at(m, k, now) {
        int_reply(1)
    } else {
        match parse_i64_spec(m[k].0) {
            Some(v) => if v < i64::MAX {
                int_reply(v as int + 1)
            } else {
                wrongtype_reply()
            },
            None => wrongtype_reply(),
        }
    }
}

/// One array element of a multi-get reply: the value as a bulk reply, or nil.
pub open spec fn mget_item(m: Map<Seq<u8>, StoredV>, k: Seq<u8>, now: u64) -> Seq<u8> {
    if visible_at(m, k, now) {
        bulk_reply(m[k].0)
    } else {
        nil_reply()
    }
}

/// The elements of a multi-get reply, in request order, each read against the
/// storage as it stood before the command.
pub open spec fn mget_items(m: Map<Seq<u8>, StoredV>, keys: Seq<Seq<u8>>, now: u64) -> Seq<u8>
    decreases keys.len(),
{
    if keys.len() == 0 {
        Seq::empty()
    } else {
        mget_items(m, keys.drop_last(), now) + mget_item(m, keys.last(), now)
    }
}

/// Storage contents after one command runs at instant `now`.
pub open spec fn apply_command(c: CommandV, m: Map<Seq<u8>, StoredV>, now: u64) -> Map<
    Seq<u8>,
    StoredV,
> {
    match c {
        CommandV::SetValue(k, v) => write_effect(m, k, v, now),
        CommandV::Setnx(k, v) => if visible_at(m, k, now) {
            m
        } else {
            write_effect(m, k, v, now)
        },
        CommandV::Setex(k, t, v) => expire_effect(write_effect(m, k, v, now), k, t, now),
        CommandV::PSetex(k, t, v) => expire_effect(write_effect(m, k, v, now), k, t, now),
        CommandV::MSet(items) => write_all(m, items, now),
        CommandV::MSetnx(items) => if any_pair_visible(m, items, now) {
            purge_pairs(m, items, now)
        } else {
            write_all(purge_pairs(m, items, now), items, now)
        },
        CommandV::Expire(k, t) => expire_effect(m, k, t, now),
        CommandV::PExpire(k, t) => expire_effect(m, k, t, now),
        CommandV::Get(k) => purge_effect(m, k, now),
        CommandV::GetSet(k, v) => write_effect(purge_effect(m, k, now), k, v, now),
        CommandV::MGet(keys) => purge_keys(m, keys, now),
        CommandV::Del(k) => remove_effect(m, k, now),
        CommandV::Incr(k) => incr_effect(m, k, now),
        CommandV::Exists(k) => purge_effect(m, k, now),
        CommandV::Info => m,
        CommandV::Ping => m,
        CommandV::Quit => m,
    }
}

/// Reply bytes for one command run against storage contents `m` at `now`.
pub open spec fn response_of(c: CommandV, m: Map<Seq<u8>, StoredV>, now: u64) -> Seq<u8> {
    match c {
        CommandV::SetValue(k, v) => ok_reply(),
        CommandV::Setnx(k, v) => int_reply(
            if visible_at(m, k, now) {
                0
            } else {
                1
            },
        ),
        CommandV::Setex(k, t, v) => ok_reply(),
        CommandV::PSetex(k, t, v) => ok_reply(),
        CommandV::MSet(items) => ok_reply(),
        CommandV::MSetnx(items) => int_reply(
            if any_pair_visible(m, items, now) {
                0
            } else {
                1
            },
        ),
        CommandV::Expire(k, t) => int_reply(
            if visible_at(m, k, now) {
                1
            } else {
                0
            },
        ),
        CommandV::PExpire(k, t) => int_reply(
            if visible_at(m, k, now) {
                1
            } else {
                0
            },
        ),
        CommandV::Get(k) => mget_item(m, k, now),
        CommandV::GetSet(k, v) => mget_item(m, k, now),
        CommandV::MGet(keys) => seq![42u8] + dec_digits(keys.len()) + crlf() + mget_items(
            m,
            keys,
            now,
        ),
        CommandV::Del(k) => int_reply(
            if visible_at(m, k, now) {
                1
            } else {
                0
            },
        ),
        CommandV::Incr(k) => incr_response(m, k, now),
        CommandV::Exists(k) => int_reply(
            if visible_at(m, k, now) {
                1
            } else {
                0
            },
        ),
        CommandV::Info => empty_array_reply(),
        CommandV::Ping => pong_reply(),
        CommandV::Quit => ok_reply(),
    }
}

fn run_one<T: Storage>(storage: &mut T, command: &Command, now: u64) -> (resp: Vec<u8>)
    requires
        old(storage).inv(),
    ensures
        final(storage).inv(),
        final(storage).contents() == apply_command(command@, old(storage).contents(), now),
        resp@ == response_of(command@, old(storage).contents(), now),
{
    let ghost m0 = storage.contents();
    match command {
        Command::SetValue(k, v) => {
            storage.write(k.as_slice(), v.as_slice(), now);
            ok_reply_vec()
        },
        Command::Setnx(k, v) => {
            if storage.contains(k.as_slice(), now) {
                int_reply_vec(0)
            } else {
                storage.write(k.as_slice(), v.as_slice(), now);
                proof {
                    assert(write_effect(purge_effect(m0, k@, now), k@, v@, now) =~= write_effect(
                        m0,
                        k@,
                        v@,
                        now,
                    ));
                }
                int_reply_vec(1)
            }
        },
        Command::Setex(k, x, v) => {
            storage.write(k.as_slice(), v.as_slice(), now);
            storage.expire(k.as_slice(), Expiry { millis: x.millis }, now);
            ok_reply_vec()
        },
        Command::PSetex(k, x, v) => {
            storage.write(k.as_slice(), v.as_slice(), now);
            storage.expire(k.as_slice(), Expiry { millis: x.millis }, now);
            ok_reply_vec()
        },
        Command::MSet(items) => {
            let ghost itemsv = crate::command::pair_views(items@);
            let mut i: usize = 0;
            while i < items.len()
                invariant
                    storage.inv(),
                    i <= items@.len(),
                    itemsv == crate::command::pair_views(items@),
                    itemsv.len() == items@.len(),
                    storage.contents() == write_all(m0, itemsv.subrange(0, i as int), now),
                decreases items@.len() - i,
            {
                storage.write(items[i].0.as_slice(), items[i].1.as_slice(), now);
                i += 1;
                proof {
                    assert(itemsv.subrange(0, i as int).drop_last() =~= itemsv.subrange(
                        0,
                        i - 1 as int,
                    ));
                }
            }
            proof {
                assert(itemsv.subrange(0, itemsv.len() as int) =~= itemsv);
            }
            ok_reply_vec()
        },
        Command::MSetnx(items) => {
            let ghost itemsv = crate::command::pair_views(items@);
            let mut any: bool = false;
            let mut i: usize = 0;
            while i < items.len()
                invariant
                    storage.inv(),
                    i <= items@.len(),
                    itemsv == crate::command::pair_views(items@),
                    itemsv.len() == items@.len(),
                    storage.contents() == purge_pairs(m0, itemsv.subrange(0, i as int), now),
                    any == any_pair_visible(m0, itemsv.subrange(0, i as int), now),
                decreases items@.len() - i,
            {
                let ghost before = storage.contents();
                let here = storage.contains(items[i].0.as_slice(), now);
                proof {
                    lemma_purge_pairs_preserves(
                        m0,
                        itemsv.subrange(0, i as int),
                        itemsv[i as int].0,
                        now,
                    );
                    assert(itemsv.subrange(0, i + 1 as int).drop_last() =~= itemsv.subrange(
                        0,
                        i as int,
                    ));
                }
                let was_any = any;
                any = any || here;
                proof {
                    if any {
                        if was_any {
                            let w = choose|j: int|
                                0 <= j < i && visible_at(
                                    m0,
                                    itemsv.subrange(0, i as int)[j].0,
                                    now,
                                );
                            assert(visible_at(m0, itemsv.subrange(0, i + 1 as int)[w].0, now));
                        } else {
                            assert(visible_at(m0, itemsv.subrange(0, i + 1 as int)[i as int].0, now));
                        }
                    } else {
                        assert forall|j: int| 0 <= j < i + 1 implies !visible_at(
                            m0,
                            #[trigger] itemsv.subrange(0, i + 1 as int)[j].0,
                            now,
                        ) by {
                            if j < i {
                                assert(!visible_at(m0, itemsv.subrange(0, i as int)[j].0, now));
                            }
                        }
                    }
                }
                i += 1;
            }
            proof {
                assert(itemsv.subrange(0, itemsv.len() as int) =~= itemsv);
            }
            if any {
                int_reply_vec(0)
            } else {
                let ghost m1 = storage.contents();
                let mut i: usize = 0;
                while i < items.len()
                    invariant
                        storage.inv(),
                        i <= items@.len(),
                        itemsv == crate::command::pair_views(items@),
                        itemsv.len() == items@.len(),
                        storage.contents() == write_all(m1, itemsv.subrange(0, i as int), now),
                    decreases items@.len() - i,
                {
                    storage.write(items[i].0.as_slice(), items[i].1.as_slice(), now);
                    i += 1;
                    proof {
                        assert(itemsv.subrange(0, i as int).drop_last() =~= itemsv.subrange(
                            0,
                            i - 1 as int,
                        ));
                    }
                }
                proof {
                    assert(itemsv.subrange(0, itemsv.len() as int) =~= itemsv);
                }
                int_reply_vec(1)
            }
        },
        Command::Expire(k, x) => {
            let count = storage.expire(k.as_slice(), Expiry { millis: x.millis }, now);
            int_reply_vec(count as i64)
        },
        Command::PExpire(k, x) => {
            let count = storage.expire(k.as_slice(), Expiry { millis: x.millis }, now);
            int_reply_vec(count as i64)
        },
        Command::Get(k) => {
            match storage.read(k.as_slice(), now) {
                Some(value) => bulk_reply_vec(value.as_slice()),
                None => nil_reply_vec(),
            }
        },
        Command::GetSet(k, v) => {
            let resp = match storage.read(k.as_slice(), now) {
                Some(value) => bulk_reply_vec(value.as_slice()),
                None => nil_reply_vec(),
            };
            storage.write(k.as_slice(), v.as_slice(), now);
            resp
        },
        Command::MGet(keys) => {
            let ghost keysv = crate::command::key_views(keys@);
            let mut out: Vec<u8> = Vec::new();
            out.push(42);
            crate::num::push_dec_u64(&mut out, keys.len() as u64);
            crate::replies::push_crlf(&mut out);
            let ghost header = out@;
            let mut i: usize = 0;
            while i < keys.len()
                invariant
                    storage.inv(),
                    i <= keys@.len(),
                    keysv == crate::command::key_views(keys@),
                    keysv.len() == keys@.len(),
                    storage.contents() == purge_keys(m0, keysv.subrange(0, i as int), now),
                    out@ == header + mget_items(m0, keysv.subrange(0, i as int), now),
                decreases keys@.len() - i,
            {
                proof {
                    lemma_purge_keys_preserves(
                        m0,
                        keysv.subrange(0, i as int),
                        keysv[i as int],
                        now,
                    );
                }
                match storage.read(keys[i].as_slice(), now) {
                    Some(value) => {
                        out.push(43);
                        crate::bytes::push_bytes(&mut out, value.as_slice());
                        crate::replies::push_crlf(&mut out);
                    },
                    None => {
                        crate::replies::push_nil_reply(&mut out);
                    },
                }
                i += 1;
                proof {
                    assert(keysv.subrange(0, i as int).drop_last() =~= keysv.subrange(
                        0,
                        i - 1 as int,
                    ));
                    assert(out@ =~= header + mget_items(m0, keysv.subrange(0, i as int), now));
                }
            }
            proof {
                assert(keysv.subrange(0, keysv.len() as int) =~= keysv);
                assert(out@ =~= seq![42u8] + dec_digits(keys@.len() as nat) + crlf() + mget_items(
                    m0,
                    keysv,
                    now,
                ));
            }
            out
        },
        Command::Del(k) => {
            let count = storage.remove(k.as_slice(), now);
            int_reply_vec(count as i64)
        },
        Command::Incr(k) => {
            match storage.read(k.as_slice(), now) {
                Some(value) => {
                    match parse_i64(value.as_slice()) {
                        Some(v) => {
                            if v == i64::MAX {
                                wrongtype_reply_vec()
                            } else {
                                let next = v + 1;
                                let mut text: Vec<u8> = Vec::new();
                                crate::num::push_dec_i64(&mut text, next);
                                storage.write(k.as_slice(), text.as_slice(), now);
                                int_reply_vec(next)
                            }
                        },
                        None => wrongtype_reply_vec(),
                    }
                },
                None => {
                    let mut text: Vec<u8> = Vec::new();
                    text.push(49);
                    proof {
                        assert(text@ =~= dec_digits(1));
                    }
                    storage.write(k.as_slice(), text.as_slice(), now);
                    int_reply_vec(1)
                },
            }
        },
        Command::Exists(k) => {
            if storage.contains(k.as_slice(), now) {
                int_reply_vec(1)
            } else {
                int_reply_vec(0)
            }
        },
        Command::Info => empty_array_reply_vec(),
        Command::Ping => pong_reply_vec(),
        Command::Quit => ok_reply_vec(),
    }
}

/// Runs a parse result against the storage: a parsed command is executed and
/// handed back for connection-lifecycle decisions (a quit closes the
/// connection); a parse error leaves the storage untouched and becomes an
/// error reply.
pub fn execute<T: Storage>(
    storage: &mut T,
    parsed: Result<Command, RedisCommandError>,
    now: u64,
) -> (r: (Option<Command>, Vec<u8>))
    requires
        old(storage).inv(),
    ensures
        final(storage).inv(),
        match parsed {
            Ok(c) => r.0 == Some(c) && final(storage).contents() == apply_command(
                c@,
                old(storage).contents(),
                now,
            ) && r.1@ == response_of(c@, old(storage).contents(), now),
            Err(e) => r.0 == None::<Command> && final(storage).contents() == old(
                storage,
            ).contents() && r.1@ == error_reply(e@),
        },
{
    match parsed {
        Ok(command) => {
            let resp = run_one(storage, &command, now);
            (Some(command), resp)
        },
        Err(e) => {
            let resp = error_reply_vec(&e);
            (None, resp)
        },
    }
}

/// Parses one decoded request and executes it at instant `now`: the whole
/// round from tokens to reply bytes, atomic over the storage it borrows.
pub fn run_command_and_get_response<T: Storage>(
    storage: &mut T,
    request: Vec<Resp>,
    now: u64,
) -> (r: (Option<Command>, Vec<u8>))
    requires
        old(storage).inv(),
    ensures
        final(storage).inv(),
        match crate::command::parse_spec(views_of(request@), now) {
            Ok(c) => (r.0 matches Some(got) && got@ == c) && final(storage).contents()
                == apply_command(c, old(storage).contents(), now) && r.1@ == response_of(
                c,
                old(storage).contents(),
                now,
            ),
            Err(e) => r.0 is None && final(storage).contents() == old(storage).contents() && r.1@
                == error_reply(e),
        },
{
    let parsed = Command::parse(request, now);
    execute(storage, parsed, now)
}

} // verus!
