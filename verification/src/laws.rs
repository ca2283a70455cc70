//! The store's laws: what holds of command execution for every key, value,
//! batch and clock instant, proved over the same spec functions the engine's
//! contracts use.

use vstd::prelude::*;

use crate::bytes::upper_seq;
use crate::command::{is_supported, parse_spec, CommandErrorV, CommandV};
use crate::engine::{
    any_pair_visible, apply_command, lemma_purge_pairs_preserves, mget_item, purge_pairs,
    response_of, write_all,
};
use crate::num::{dec_digits, dec_int, lemma_dec_int_round_trip, parse_i64_spec};
use crate::replies::{
    bulk_reply, crlf, error_reply, int_reply, nil_reply, wrongtype_reply,
};
use crate::resp::RespV;
use crate::storage::{entry_live, purge_effect, visible_at, write_effect, StoredV};

verus! {

/// After a set succeeds, a get of the same key returns the written value at
/// every instant at which the entry has not yet expired — that is, until it
/// is overwritten, deleted, or expired.
pub proof fn lemma_set_then_get(
    m: Map<Seq<u8>, StoredV>,
    k: Seq<u8>,
    v: Seq<u8>,
    now: u64,
    later: u64,
)
    ensures
        ({
            let m2 = apply_command(CommandV::SetValue(k, v), m, now);
            entry_live(m2[k], later) ==> response_of(CommandV::Get(k), m2, later) == bulk_reply(v)
        }),
{
}

/// What one key answers to a get is untouched by a set, a delete or an
/// expire of a different key: a written value stays readable until that key
/// itself is overwritten, deleted, or expired.
pub proof fn lemma_get_unaffected_by_other_key(
    m: Map<Seq<u8>, StoredV>,
    k: Seq<u8>,
    k2: Seq<u8>,
    v2: Seq<u8>,
    t2: u64,
    now: u64,
)
    requires
        k != k2,
    ensures
        response_of(CommandV::Get(k), apply_command(CommandV::SetValue(k2, v2), m, now), now)
            == response_of(CommandV::Get(k), m, now),
        response_of(CommandV::Get(k), apply_command(CommandV::Del(k2), m, now), now)
            == response_of(CommandV::Get(k), m, now),
        response_of(CommandV::Get(k), apply_command(CommandV::Expire(k2, t2), m, now), now)
            == response_of(CommandV::Get(k), m, now),
{
}

/// A set-if-absent on a visible key changes nothing and replies 0; on an
/// absent (or expired) key it behaves exactly like a plain set and replies 1.
pub proof fn lemma_setnx(m: Map<Seq<u8>, StoredV>, k: Seq<u8>, v: Seq<u8>, now: u64)
    ensures
        visible_at(m, k, now) ==> apply_command(CommandV::Setnx(k, v), m, now) == m
            && response_of(CommandV::Setnx(k, v), m, now) == int_reply(0),
        !visible_at(m, k, now) ==> apply_command(CommandV::Setnx(k, v), m, now) == apply_command(
            CommandV::SetValue(k, v),
            m,
            now,
        ) && response_of(CommandV::Setnx(k, v), m, now) == int_reply(1),
{
}

/// A key occurs among the batch's pairs.
pub open spec fn key_in_pairs(items: Seq<(Seq<u8>, Seq<u8>)>, k: Seq<u8>) -> bool {
    exists|i: int| 0 <= i < items.len() && items[i].0 == k
}

/// Checking a batch whose keys are all invisible leaves every one of those
/// keys absent, and touches no other key.
proof fn lemma_purge_pairs_absent(
    m: Map<Seq<u8>, StoredV>,
    items: Seq<(Seq<u8>, Seq<u8>)>,
    now: u64,
)
    requires
        !any_pair_visible(m, items, now),
    ensures
        forall|i: int|
            0 <= i < items.len() ==> !purge_pairs(m, items, now).contains_key(
                #[trigger] items[i].0,
            ),
        forall|k: Seq<u8>|
            !key_in_pairs(items, k) ==> purge_pairs(m, items, now).contains_key(k)
                == m.contains_key(k) && (m.contains_key(k) ==> purge_pairs(m, items, now)[k]
                == m[k]),
    decreases items.len(),
{
    if items.len() > 0 {
        let front = items.drop_last();
        assert(!any_pair_visible(m, front, now)) by {
            if any_pair_visible(m, front, now) {
                let i = choose|i: int| 0 <= i < front.len() && visible_at(m, front[i].0, now);
                assert(items[i] == front[i]);
            }
        }
        lemma_purge_pairs_absent(m, front, now);
        let p = purge_pairs(m, front, now);
        let klast = items.last().0;
        assert(visible_at(m, klast, now) == visible_at(p, klast, now)) by {
            lemma_purge_pairs_preserves(m, front, klast, now);
        }
        assert(!visible_at(m, klast, now)) by {
            assert(items[items.len() - 1].0 == klast);
        }
        assert forall|i: int| 0 <= i < items.len() implies !purge_pairs(
            m,
            items,
            now,
        ).contains_key(#[trigger] items[i].0) by {
            if i < items.len() - 1 {
                assert(front[i] == items[i]);
                assert(!p.contains_key(items[i].0));
            }
        }
        assert forall|k: Seq<u8>| !key_in_pairs(items, k) implies purge_pairs(
            m,
            items,
            now,
        ).contains_key(k) == m.contains_key(k) && (m.contains_key(k) ==> purge_pairs(
            m,
            items,
            now,
        )[k] == m[k]) by {
            assert(!key_in_pairs(front, k)) by {
                if key_in_pairs(front, k) {
                    let i = choose|i: int| 0 <= i < front.len() && front[i].0 == k;
                    assert(items[i].0 == k);
                }
            }
            assert(k != klast) by {
                assert(items[items.len() - 1].0 == klast);
            }
        }
    }
}

/// Writing a batch of pairs over storage where none of the batch's keys is
/// present, observed at one key: a key of the batch ends visible, without
/// expiry, holding the value of one of its occurrences that no later
/// occurrence overrides; any other key is untouched.
proof fn lemma_write_all_at(
    mbase: Map<Seq<u8>, StoredV>,
    items: Seq<(Seq<u8>, Seq<u8>)>,
    now: u64,
    k: Seq<u8>,
)
    requires
        forall|i: int| 0 <= i < items.len() ==> !mbase.contains_key(#[trigger] items[i].0),
    ensures
        !key_in_pairs(items, k) ==> write_all(mbase, items, now).contains_key(k)
            == mbase.contains_key(k) && (mbase.contains_key(k) ==> write_all(mbase, items, now)[k]
            == mbase[k]),
        key_in_pairs(items, k) ==> write_all(mbase, items, now).contains_key(k) && write_all(
            mbase,
            items,
            now,
        )[k].1 == None::<u64> && exists|i: int|
            0 <= i < items.len() && items[i].0 == k && items[i].1 == write_all(
                mbase,
                items,
                now,
            )[k].0 && (forall|j: int| i < j < items.len() ==> items[j].0 != k),
    decreases items.len(),
{
    if items.len() > 0 {
        let front = items.drop_last();
        assert(forall|i: int| 0 <= i < front.len() ==> front[i] == items[i]);
        lemma_write_all_at(mbase, front, now, k);
        let w = write_all(mbase, front, now);
        let m2 = write_all(mbase, items, now);
        let last = items.last();
        assert(m2 == write_effect(w, last.0, last.1, now));
        if k == last.0 {
            if key_in_pairs(front, k) {
                assert(w[k].1 == None::<u64>);
                assert(entry_live(w[k], now));
            } else {
                assert(!w.contains_key(k));
            }
            assert(m2[k] == (last.1, None::<u64>));
            let iw = items.len() - 1;
            assert(items[iw].0 == k && items[iw].1 == m2[k].0 && (forall|j: int|
                iw < j < items.len() ==> items[j].0 != k));
            assert(key_in_pairs(items, k));
        } else {
            assert(m2.contains_key(k) == w.contains_key(k));
            assert(w.contains_key(k) ==> m2[k] == w[k]);
            if key_in_pairs(items, k) {
                let i0 = choose|i: int| 0 <= i < items.len() && items[i].0 == k;
                assert(i0 < items.len() - 1);
                assert(front[i0].0 == k);
                assert(key_in_pairs(front, k));
                let i = choose|i: int|
                    0 <= i < front.len() && front[i].0 == k && front[i].1 == w[k].0 && (forall|
                        j: int,
                    | i < j < front.len() ==> front[j].0 != k);
                assert(items[i].0 == k && items[i].1 == m2[k].0);
                assert forall|j: int| i < j < items.len() implies items[j].0 != k by {
                    if j < items.len() - 1 {
                        assert(front[j] == items[j]);
                    }
                }
            } else {
                assert(!key_in_pairs(front, k)) by {
                    if key_in_pairs(front, k) {
                        let i = choose|i: int| 0 <= i < front.len() && front[i].0 == k;
                        assert(items[i].0 == k);
                    }
                }
            }
        }
    }
}

/// A batch set-if-absent is all-or-nothing: with any key of the batch
/// visible it replies 0 and no read sees a change; with every key absent it
/// replies 1 and every key of the batch ends visible, each holding the value
/// of its last occurrence in the batch.
pub proof fn lemma_msetnx(m: Map<Seq<u8>, StoredV>, items: Seq<(Seq<u8>, Seq<u8>)>, now: u64)
    ensures
        ({
            let m2 = apply_command(CommandV::MSetnx(items), m, now);
            &&& any_pair_visible(m, items, now) ==> response_of(CommandV::MSetnx(items), m, now)
                == int_reply(0) && (forall|k: Seq<u8>|
                visible_at(m2, k, now) == visible_at(m, k, now)) && (forall|k: Seq<u8>|
                visible_at(m, k, now) ==> m2[k] == m[k])
            &&& !any_pair_visible(m, items, now) ==> response_of(CommandV::MSetnx(items), m, now)
                == int_reply(1) && (forall|i: int|
                0 <= i < items.len() ==> visible_at(m2, #[trigger] items[i].0, now)) && (
            forall|i: int|
                0 <= i < items.len() && (forall|j: int|
                    i < j < items.len() ==> items[j].0 != #[trigger] items[i].0)
                    ==> m2[items[i].0].0 == items[i].1)
        }),
{
    let m2 = apply_command(CommandV::MSetnx(items), m, now);
    if any_pair_visible(m, items, now) {
        assert forall|k: Seq<u8>| visible_at(m2, k, now) == visible_at(m, k, now) && (visible_at(
            m,
            k,
            now,
        ) ==> m2[k] == m[k]) by {
            lemma_purge_pairs_preserves(m, items, k, now);
        }
    } else {
        lemma_purge_pairs_absent(m, items, now);
        let m1 = purge_pairs(m, items, now);
        assert forall|i: int| 0 <= i < items.len() implies visible_at(
            m2,
            #[trigger] items[i].0,
            now,
        ) by {
            lemma_write_all_at(m1, items, now, items[i].0);
            assert(m2[items[i].0].1 == None::<u64>);
        }
        assert forall|i: int|
            0 <= i < items.len() && (forall|j: int|
                i < j < items.len() ==> items[j].0 != #[trigger] items[i].0) implies m2[items[i].0].0
            == items[i].1 by {
            let k = items[i].0;
            lemma_write_all_at(m1, items, now, k);
            let iw = choose|iw: int|
                0 <= iw < items.len() && items[iw].0 == k && items[iw].1 == write_all(
                    m1,
                    items,
                    now,
                )[k].0 && (forall|j: int| iw < j < items.len() ==> items[j].0 != k);
            assert(iw == i) by {
                if iw < i {
                    assert(items[i].0 != k);
                } else if i < iw {
                    assert(items[iw].0 != k);
                }
            }
        }
    }
}

/// After a set-with-expiry at instant `t`, a get returns the value at any
/// instant up to `t` and nil at any instant past it, with no deletion call.
pub proof fn lemma_setex_visibility(
    m: Map<Seq<u8>, StoredV>,
    k: Seq<u8>,
    v: Seq<u8>,
    t: u64,
    now: u64,
    t_before: u64,
    t_after: u64,
)
    requires
        t_before <= t,
        t_after > t,
    ensures
        ({
            let m2 = apply_command(CommandV::Setex(k, t, v), m, now);
            &&& response_of(CommandV::Get(k), m2, t_before) == bulk_reply(v)
            &&& response_of(CommandV::Get(k), m2, t_after) == nil_reply()
        }),
{
    let w = write_effect(m, k, v, now);
    assert(w.contains_key(k) && w[k].0 == v);
    assert(entry_live(w[k], now));
    let m2 = apply_command(CommandV::Setex(k, t, v), m, now);
    assert(m2 == w.insert(k, (v, Some(t))));
}

/// An increment of an absent (or expired) key writes the text `1`, without
/// an expiry, and replies the integer 1.
pub proof fn lemma_incr_absent(m: Map<Seq<u8>, StoredV>, k: Seq<u8>, now: u64)
    requires
        !visible_at(m, k, now),
    ensures
        response_of(CommandV::Incr(k), m, now) == int_reply(1),
        visible_at(apply_command(CommandV::Incr(k), m, now), k, now),
        apply_command(CommandV::Incr(k), m, now)[k] == (dec_digits(1), None::<u64>),
{
    let p = purge_effect(m, k, now);
    assert(!visible_at(p, k, now));
}

/// An increment of a visible key whose text is no signed integer changes
/// nothing and replies the type-mismatch error.
pub proof fn lemma_incr_non_integer(m: Map<Seq<u8>, StoredV>, k: Seq<u8>, now: u64)
    requires
        visible_at(m, k, now),
        parse_i64_spec(m[k].0) is None,
    ensures
        apply_command(CommandV::Incr(k), m, now) == m,
        response_of(CommandV::Incr(k), m, now) == wrongtype_reply(),
{
}

/// The storage after `n` increments of one key.
pub open spec fn apply_incr_n(m: Map<Seq<u8>, StoredV>, k: Seq<u8>, now: u64, n: nat) -> Map<
    Seq<u8>,
    StoredV,
>
    decreases n,
{
    if n == 0 {
        m
    } else {
        apply_command(CommandV::Incr(k), apply_incr_n(m, k, now, (n - 1) as nat), now)
    }
}

/// Starting from an absent key, the n-th increment replies the integer n,
/// and the key then holds the decimal text of n.
pub proof fn lemma_incr_counts(m: Map<Seq<u8>, StoredV>, k: Seq<u8>, now: u64, n: nat)
    requires
        !visible_at(m, k, now),
        1 <= n <= i64::MAX,
    ensures
        response_of(CommandV::Incr(k), apply_incr_n(m, k, now, (n - 1) as nat), now) == int_reply(
            n as int,
        ),
        visible_at(apply_incr_n(m, k, now, n), k, now),
        apply_incr_n(m, k, now, n)[k] == (dec_int(n as int), None::<u64>),
    decreases n,
{
    if n == 1 {
        lemma_incr_absent(m, k, now);
        assert(dec_int(1) == dec_digits(1));
    } else {
        lemma_incr_counts(m, k, now, (n - 1) as nat);
        let prev = apply_incr_n(m, k, now, (n - 1) as nat);
        assert(prev[k] == (dec_int(n - 1), None::<u64>));
        lemma_dec_int_round_trip(n - 1);
        assert(parse_i64_spec(prev[k].0) == Some((n - 1) as i64));
    }
}

/// A deletion of a visible key replies 1; deleting the same key again, with
/// nothing rewritten in between, replies 0.
pub proof fn lemma_del_twice(m: Map<Seq<u8>, StoredV>, k: Seq<u8>, now: u64)
    requires
        visible_at(m, k, now),
    ensures
        response_of(CommandV::Del(k), m, now) == int_reply(1),
        response_of(CommandV::Del(k), apply_command(CommandV::Del(k), m, now), now) == int_reply(
            0,
        ),
{
}

/// A multi-get of a visible key and an absent key replies an array of length
/// two: the value as a bulk reply, then nil, in request order.
pub proof fn lemma_mget_pair(
    m: Map<Seq<u8>, StoredV>,
    k1: Seq<u8>,
    k2: Seq<u8>,
    x: Seq<u8>,
    now: u64,
)
    requires
        visible_at(m, k1, now),
        m[k1].0 == x,
        !visible_at(m, k2, now),
    ensures
        response_of(CommandV::MGet(seq![k1, k2]), m, now) == seq![42u8] + dec_digits(2) + crlf()
            + bulk_reply(x) + nil_reply(),
{
    let keys = seq![k1, k2];
    assert(keys.drop_last() =~= seq![k1]);
    assert(keys.last() == k2);
    assert(seq![k1].drop_last() =~= Seq::<Seq<u8>>::empty());
    assert(seq![k1].last() == k1);
    assert(crate::engine::mget_items(m, Seq::<Seq<u8>>::empty(), now) == Seq::<u8>::empty());
    assert(crate::engine::mget_items(m, seq![k1], now) == crate::engine::mget_items(
        m,
        Seq::<Seq<u8>>::empty(),
        now,
    ) + mget_item(m, k1, now));
    assert(crate::engine::mget_items(m, keys, now) == crate::engine::mget_items(m, seq![k1], now)
        + mget_item(m, k2, now));
    assert(mget_item(m, k1, now) == bulk_reply(x));
    assert(mget_item(m, k2, now) == nil_reply());
    assert(crate::engine::mget_items(m, keys, now) =~= bulk_reply(x) + nil_reply());
    assert(response_of(CommandV::MGet(keys), m, now) =~= seq![42u8] + dec_digits(2) + crlf()
        + bulk_reply(x) + nil_reply());
}

/// Keyword matching is case-insensitive: two requests that differ only in
/// the letter-casing of a recognized command name parse identically.
pub proof fn lemma_parse_case_insensitive(
    n1: Seq<u8>,
    n2: Seq<u8>,
    rest: Seq<RespV>,
    now: u64,
)
    requires
        upper_seq(n1) == upper_seq(n2),
        is_supported(upper_seq(n1)),
    ensures
        parse_spec(seq![RespV::BulkString(n1)] + rest, now) == parse_spec(
            seq![RespV::BulkString(n2)] + rest,
            now,
        ),
{
    let t1 = seq![RespV::BulkString(n1)] + rest;
    let t2 = seq![RespV::BulkString(n2)] + rest;
    assert(t1.len() == t2.len());
    assert(t1[0] == RespV::BulkString(n1));
    assert(t2[0] == RespV::BulkString(n2));
    assert(forall|i: int| 1 <= i < t1.len() ==> t1[i] == t2[i]);
    assert(t1.subrange(1, t1.len() as int) =~= t2.subrange(1, t2.len() as int));
    assert(crate::command::arg_at(t1, 1) == crate::command::arg_at(t2, 1));
    assert(crate::command::arg_at(t1, 2) == crate::command::arg_at(t2, 2));
    assert(crate::command::arg_at(t1, 3) == crate::command::arg_at(t2, 3));
    assert(crate::command::duration_at(t1, 2) == crate::command::duration_at(t2, 2));
}

/// An unrecognized keyword parses to the not-supported error carrying the
/// offending name, and its error reply embeds that name verbatim: the bytes
/// after the fixed lead-ins are exactly the name.
pub proof fn lemma_unsupported_keyword(t: Seq<RespV>, name: Seq<u8>, now: u64)
    requires
        t.len() >= 1,
        t[0] == RespV::BulkString(name),
        !is_supported(upper_seq(name)),
    ensures
        parse_spec(t, now) == Err::<CommandV, CommandErrorV>(CommandErrorV::NotSupported(name)),
        ({
            let rep = error_reply(CommandErrorV::NotSupported(name));
            rep.subrange(21, 21 + name.len() as int) == name
        }),
{
    let rep = error_reply(CommandErrorV::NotSupported(name));
    assert(rep.subrange(21, 21 + name.len() as int) =~= name);
}

} // verus!
