//! The adapter's laws: what the get/set/remove batches do to any store
//! and what every operation's answer must be, proved once and for all
//! over the command semantics.

use vstd::prelude::*;

use crate::cache::{
    decode_outcome, get_batch_model, remove_batch_model, set_batch_model, RedisCacheError,
};
use crate::codec::{envelope_of, CacheValue};
use crate::command::{apply_batch, fetch_resp, live, EntryModel, StoreContents};

verus! {

/// A batch of one command applies that command.
proof fn lemma_apply_batch1(m: StoreContents, now: int, c0: crate::command::CommandModel)
    ensures
        apply_batch(m, now, seq![c0]) == crate::command::apply_command(m, now, c0),
{
    let cs = seq![c0];
    assert(cs[0] == c0);
    let m1 = crate::command::apply_command(m, now, c0);
    assert(apply_batch(m, now, cs) == apply_batch(m1, now, cs.skip(1)));
    assert(cs.skip(1) =~= Seq::<crate::command::CommandModel>::empty());
    assert(apply_batch(m1, now, Seq::<crate::command::CommandModel>::empty()) == m1);
}

/// A batch of two commands applies them in order.
proof fn lemma_apply_batch2(
    m: StoreContents,
    now: int,
    c0: crate::command::CommandModel,
    c1: crate::command::CommandModel,
)
    ensures
        apply_batch(m, now, seq![c0, c1]) == crate::command::apply_command(
            crate::command::apply_command(m, now, c0),
            now,
            c1,
        ),
{
    let cs = seq![c0, c1];
    assert(cs[0] == c0);
    let m1 = crate::command::apply_command(m, now, c0);
    assert(apply_batch(m, now, cs) == apply_batch(m1, now, cs.skip(1)));
    assert(cs.skip(1) =~= seq![c1]);
    lemma_apply_batch1(m1, now, c1);
}

/// A `get` batch leaves the store as it was, unless refresh-on-read
/// finds the key live, in which case only that key's expiry is re-armed.
pub proof fn lemma_get_effect(m: StoreContents, now: int, nk: Seq<char>, refresh: bool, ttl: int)
    ensures
        apply_batch(m, now, get_batch_model(nk, refresh, ttl)) == if refresh && live(m, now, nk) {
            m.insert(nk, EntryModel { data: m[nk].data, expires_at: now + ttl })
        } else {
            m
        },
{
    if refresh {
        lemma_apply_batch2(
            m,
            now,
            crate::command::CommandModel::Fetch { key: nk },
            crate::command::CommandModel::Refresh { key: nk, seconds: ttl },
        );
    } else {
        lemma_apply_batch1(m, now, crate::command::CommandModel::Fetch { key: nk });
    }
}

/// A `set` batch stores the new entry under the key, expiring `ttl`
/// seconds from now, and touches nothing else.
pub proof fn lemma_set_effect(m: StoreContents, now: int, nk: Seq<char>, data: Seq<char>, ttl: int)
    ensures
        apply_batch(m, now, set_batch_model(nk, data, ttl)) == m.insert(
            nk,
            EntryModel { data, expires_at: now + ttl },
        ),
{
    lemma_apply_batch2(
        m,
        now,
        crate::command::CommandModel::Fetch { key: nk },
        crate::command::CommandModel::Store { key: nk, data, seconds: ttl },
    );
}

/// A `remove` batch deletes the key and touches nothing else.
pub proof fn lemma_remove_effect(m: StoreContents, now: int, nk: Seq<char>)
    ensures
        apply_batch(m, now, remove_batch_model(nk)) == m.remove(nk),
{
    lemma_apply_batch2(
        m,
        now,
        crate::command::CommandModel::Fetch { key: nk },
        crate::command::CommandModel::Delete { key: nk },
    );
}

/// For a key never written, `get` answers `None` and the store is left
/// as it was, whatever the refresh flag.
pub proof fn lemma_get_never_written<V: CacheValue>(
    m: StoreContents,
    now: int,
    nk: Seq<char>,
    refresh: bool,
    ttl: int,
    r: Result<Option<V>, RedisCacheError>,
)
    requires
        !m.contains_key(nk),
        decode_outcome::<V>(r, fetch_resp(m, now, nk)),
    ensures
        r == Result::<Option<V>, RedisCacheError>::Ok(None),
        apply_batch(m, now, get_batch_model(nk, refresh, ttl)) == m,
{
    lemma_get_effect(m, now, nk, refresh, ttl);
}

/// Round trip: a `set` followed by a `get` before the TTL window has
/// elapsed answers exactly the value stored.
pub proof fn lemma_set_then_get<V: CacheValue>(
    m: StoreContents,
    t_set: int,
    t_get: int,
    nk: Seq<char>,
    v: V,
    ttl: int,
    r: Result<Option<V>, RedisCacheError>,
)
    requires
        t_get < t_set + ttl,
        decode_outcome::<V>(
            r,
            fetch_resp(
                apply_batch(m, t_set, set_batch_model(nk, envelope_of(v.encoding()), ttl)),
                t_get,
                nk,
            ),
        ),
    ensures
        r == Result::<Option<V>, RedisCacheError>::Ok(Some(v)),
{
    lemma_set_effect(m, t_set, nk, envelope_of(v.encoding()), ttl);
    crate::codec::lemma_stored_round_trip::<V>(v);
}

/// `set` answers the prior value: `None` on a fresh key, and the value
/// previously stored while it is still live.
pub proof fn lemma_set_returns_prior<V: CacheValue>(
    m: StoreContents,
    now: int,
    nk: Seq<char>,
    w: V,
    r: Result<Option<V>, RedisCacheError>,
)
    requires
        decode_outcome::<V>(r, fetch_resp(m, now, nk)),
    ensures
        !m.contains_key(nk) ==> r == Result::<Option<V>, RedisCacheError>::Ok(None),
        live(m, now, nk) && m[nk].data == envelope_of(w.encoding()) ==> r == Result::<
            Option<V>,
            RedisCacheError,
        >::Ok(Some(w)),
{
    if live(m, now, nk) && m[nk].data == envelope_of(w.encoding()) {
        crate::codec::lemma_stored_round_trip::<V>(w);
    }
}

/// After the TTL window has elapsed, a stored key is expired: `get`
/// answers `None`.
pub proof fn lemma_expired_after_ttl<V: CacheValue>(
    m: StoreContents,
    t_set: int,
    t_get: int,
    nk: Seq<char>,
    data: Seq<char>,
    ttl: int,
    r: Result<Option<V>, RedisCacheError>,
)
    requires
        t_get >= t_set + ttl,
        decode_outcome::<V>(
            r,
            fetch_resp(apply_batch(m, t_set, set_batch_model(nk, data, ttl)), t_get, nk),
        ),
    ensures
        r == Result::<Option<V>, RedisCacheError>::Ok(None),
{
    lemma_set_effect(m, t_set, nk, data, ttl);
}

/// With refresh-on-read, a `get` on a live key re-arms its expiry to a
/// full TTL window after that read: the key stays live until the window
/// after the last read has elapsed, and expires then.
pub proof fn lemma_refresh_keeps_alive(
    m: StoreContents,
    t_read: int,
    nk: Seq<char>,
    ttl: int,
)
    requires
        live(m, t_read, nk),
    ensures
        ({
            let m1 = apply_batch(m, t_read, get_batch_model(nk, true, ttl));
            &&& m1[nk].data == m[nk].data
            &&& m1[nk].expires_at == t_read + ttl
            &&& forall|t: int| t < t_read + ttl ==> fetch_resp(m1, t, nk) == Some(m[nk].data)
            &&& forall|t: int| t >= t_read + ttl ==> fetch_resp(m1, t, nk) is None
        }),
{
    lemma_get_effect(m, t_read, nk, true, ttl);
}

/// The store after a chain of refreshing reads, one `get` batch with
/// refresh-on-read per read time, in order.
pub open spec fn after_refresh_reads(
    m: StoreContents,
    reads: Seq<int>,
    nk: Seq<char>,
    ttl: int,
) -> StoreContents
    decreases reads.len(),
{
    if reads.len() == 0 {
        m
    } else {
        after_refresh_reads(
            apply_batch(m, reads[0], get_batch_model(nk, true, ttl)),
            reads.skip(1),
            nk,
            ttl,
        )
    }
}

/// With refresh-on-read, any chain of reads that each fall before the
/// previous read's TTL window elapses keeps the key alive throughout:
/// afterwards it still holds its value and expires exactly one TTL
/// window after the last read.
pub proof fn lemma_refresh_chain_keeps_alive(
    m: StoreContents,
    reads: Seq<int>,
    nk: Seq<char>,
    ttl: int,
)
    requires
        reads.len() > 0,
        live(m, reads[0], nk),
        forall|i: int| 0 <= i < reads.len() - 1 ==> #[trigger] reads[i] <= reads[i + 1]
            < reads[i] + ttl,
    ensures
        ({
            let m1 = after_refresh_reads(m, reads, nk, ttl);
            &&& m1[nk].data == m[nk].data
            &&& m1[nk].expires_at == reads.last() + ttl
            &&& forall|t: int| t < reads.last() + ttl ==> fetch_resp(m1, t, nk) == Some(
                m[nk].data,
            )
            &&& forall|t: int| t >= reads.last() + ttl ==> fetch_resp(m1, t, nk) is None
        }),
    decreases reads.len(),
{
    lemma_refresh_keeps_alive(m, reads[0], nk, ttl);
    lemma_get_effect(m, reads[0], nk, true, ttl);
    let m1 = apply_batch(m, reads[0], get_batch_model(nk, true, ttl));
    assert(m1 == m.insert(nk, EntryModel { data: m[nk].data, expires_at: reads[0] + ttl }));
    assert(m1.contains_key(nk));
    if reads.len() == 1 {
        assert(reads.skip(1) =~= Seq::<int>::empty());
        assert(after_refresh_reads(m1, reads.skip(1), nk, ttl) == m1);
    } else {
        let rest = reads.skip(1);
        assert(rest[0] == reads[1]);
        assert(reads[0] <= reads[1] < reads[0] + ttl);
        assert(live(m1, rest[0], nk));
        assert forall|i: int| 0 <= i < rest.len() - 1 implies #[trigger] rest[i] <= rest[i + 1]
            < rest[i] + ttl by {
            assert(rest[i] == reads[i + 1]);
            assert(rest[i + 1] == reads[i + 2]);
            assert(reads[i + 1] <= reads[i + 2] < reads[i + 1] + ttl);
        }
        lemma_refresh_chain_keeps_alive(m1, rest, nk, ttl);
        assert(rest.last() == reads.last());
        assert(m1[nk].data == m[nk].data);
    }
}

/// Without refresh-on-read, a `get` never extends a key's life: the
/// store is left exactly as it was.
pub proof fn lemma_plain_get_preserves(m: StoreContents, now: int, nk: Seq<char>, ttl: int)
    ensures
        apply_batch(m, now, get_batch_model(nk, false, ttl)) == m,
{
    lemma_get_effect(m, now, nk, false, ttl);
}

/// `remove` answers the removed value, and afterwards the key is gone:
/// any later `get` answers `None`.
pub proof fn lemma_remove_then_get<V: CacheValue>(
    m: StoreContents,
    now: int,
    nk: Seq<char>,
    w: V,
    r: Result<Option<V>, RedisCacheError>,
)
    requires
        decode_outcome::<V>(r, fetch_resp(m, now, nk)),
    ensures
        live(m, now, nk) && m[nk].data == envelope_of(w.encoding()) ==> r == Result::<
            Option<V>,
            RedisCacheError,
        >::Ok(Some(w)),
        !apply_batch(m, now, remove_batch_model(nk)).contains_key(nk),
        forall|t: int| fetch_resp(apply_batch(m, now, remove_batch_model(nk)), t, nk) is None,
{
    lemma_remove_effect(m, now, nk);
    if live(m, now, nk) && m[nk].data == envelope_of(w.encoding()) {
        crate::codec::lemma_stored_round_trip::<V>(w);
    }
}

/// Changing the adapter's TTL arms only keys stored afterwards: a later
/// `set` of another key, under whatever TTL, leaves an entry already
/// stored exactly as the TTL in force at its own store time left it.
pub proof fn lemma_lifespan_change_spares_existing(
    m: StoreContents,
    t1: int,
    t2: int,
    nk1: Seq<char>,
    nk2: Seq<char>,
    d1: Seq<char>,
    d2: Seq<char>,
    ttl1: int,
    ttl2: int,
)
    requires
        nk1 != nk2,
    ensures
        ({
            let m1 = apply_batch(m, t1, set_batch_model(nk1, d1, ttl1));
            let m2 = apply_batch(m1, t2, set_batch_model(nk2, d2, ttl2));
            &&& m2[nk1] == EntryModel { data: d1, expires_at: t1 + ttl1 }
            &&& m2[nk2] == EntryModel { data: d2, expires_at: t2 + ttl2 }
        }),
{
    let m1 = apply_batch(m, t1, set_batch_model(nk1, d1, ttl1));
    lemma_set_effect(m, t1, nk1, d1, ttl1);
    lemma_set_effect(m1, t2, nk2, d2, ttl2);
}

} // verus!
