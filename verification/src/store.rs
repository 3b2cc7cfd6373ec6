//! An executable model of the remote store: one entry per key, each
//! with an absolute expiry instant, under a clock in whole seconds.
//!
//! The model realizes exactly the command semantics of [`crate::command`]:
//! a batch runs in order and indivisibly, an expired entry counts as
//! absent, and refresh or delete on a missing key is a no-op. It backs
//! the adapter wherever no remote store is wired up, and it is the
//! store against which the adapter's laws are stated.

use vstd::prelude::*;

use crate::command::{
    apply_batch, apply_command, batch_fits, batch_resps, command_resp, fetch_resp, live,
    Command, CommandModel, EntryModel, StoreContents,
};

verus! {

/// One stored entry: the stored text and the instant it expires.
pub struct StoreEntry {
    pub data: String,
    pub expires_at: u64,
}

/// The mathematical form of one entry.
pub open spec fn entry_model(e: StoreEntry) -> EntryModel {
    EntryModel { data: e.data@, expires_at: e.expires_at as int }
}

/// The contents a list of keyed entries denotes, later entries winning.
pub open spec fn entries_map(s: Seq<(String, StoreEntry)>) -> StoreContents
    decreases s.len(),
{
    if s.len() == 0 {
        Map::empty()
    } else {
        entries_map(s.drop_last()).insert(s.last().0@, entry_model(s.last().1))
    }
}

/// No two entries share a key.
pub open spec fn distinct_keys(s: Seq<(String, StoreEntry)>) -> bool {
    forall|i: int, j: int| 0 <= i < j < s.len() ==> (#[trigger] s[i].0@) != (#[trigger] s[j].0@)
}

/// A key is in the denoted contents exactly when some entry holds it.
proof fn lemma_entries_map_domain(s: Seq<(String, StoreEntry)>, k: Seq<char>)
    ensures
        entries_map(s).contains_key(k) <==> exists|i: int| 0 <= i < s.len() && (#[trigger] s[i].0@)
            == k,
    decreases s.len(),
{
    if s.len() > 0 {
        lemma_entries_map_domain(s.drop_last(), k);
        if s.last().0@ == k {
            assert(s[s.len() - 1].0@ == k);
        } else if entries_map(s).contains_key(k) {
            let i = choose|i: int| 0 <= i < s.drop_last().len() && (#[trigger] s.drop_last()[
                i
            ].0@) == k;
            assert(s[i].0@ == k);
        } else {
            assert forall|i: int| 0 <= i < s.len() implies (#[trigger] s[i].0@) != k by {
                if i < s.len() - 1 {
                    assert(s.drop_last()[i] == s[i]);
                }
            }
        }
    }
}

/// Under distinct keys, the denoted contents at an entry's key is that
/// entry.
proof fn lemma_entries_map_at(s: Seq<(String, StoreEntry)>, i: int)
    requires
        distinct_keys(s),
        0 <= i < s.len(),
    ensures
        entries_map(s).contains_key(s[i].0@),
        entries_map(s)[s[i].0@] == entry_model(s[i].1),
    decreases s.len(),
{
    if i == s.len() - 1 {
        assert(s.last() == s[i]);
    } else {
        assert(distinct_keys(s.drop_last()));
        assert(s.drop_last()[i] == s[i]);
        lemma_entries_map_at(s.drop_last(), i);
        assert(s[i].0@ != s.last().0@);
    }
}

/// Replacing one entry, key kept, denotes an insert at that key.
proof fn lemma_entries_map_update(s: Seq<(String, StoreEntry)>, i: int, p: (String, StoreEntry))
    requires
        distinct_keys(s),
        0 <= i < s.len(),
        p.0@ == s[i].0@,
    ensures
        entries_map(s.update(i, p)) == entries_map(s).insert(p.0@, entry_model(p.1)),
    decreases s.len(),
{
    let t = s.update(i, p);
    if i == s.len() - 1 {
        assert(t.drop_last() =~= s.drop_last());
        assert(t.last() == p);
        assert(entries_map(t) == entries_map(s.drop_last()).insert(p.0@, entry_model(p.1)));
        assert(entries_map(s).insert(p.0@, entry_model(p.1)) =~= entries_map(
            s.drop_last(),
        ).insert(p.0@, entry_model(p.1)));
    } else {
        assert(distinct_keys(s.drop_last()));
        assert(s.drop_last()[i] == s[i]);
        lemma_entries_map_update(s.drop_last(), i, p);
        assert(t.drop_last() =~= s.drop_last().update(i, p));
        assert(t.last() == s.last());
        assert(s[i].0@ != s.last().0@);
        assert(entries_map(t) == entries_map(s.drop_last().update(i, p)).insert(
            s.last().0@,
            entry_model(s.last().1),
        ));
        assert(entries_map(t) =~= entries_map(s).insert(p.0@, entry_model(p.1)));
    }
}

/// Removing one entry denotes a remove at its key.
proof fn lemma_entries_map_remove(s: Seq<(String, StoreEntry)>, i: int)
    requires
        distinct_keys(s),
        0 <= i < s.len(),
    ensures
        entries_map(s.remove(i)) == entries_map(s).remove(s[i].0@),
        distinct_keys(s.remove(i)),
    decreases s.len(),
{
    let t = s.remove(i);
    assert forall|a: int, b: int| 0 <= a < b < t.len() implies (#[trigger] t[a].0@) != (
    #[trigger] t[b].0@) by {
        let a2: int = if a < i { a } else { a + 1 };
        let b2: int = if b < i { b } else { b + 1 };
        assert(t[a] == s[a2]);
        assert(t[b] == s[b2]);
    }
    if i == s.len() - 1 {
        assert(t =~= s.drop_last());
        lemma_entries_map_domain(s.drop_last(), s[i].0@);
        assert forall|j: int| 0 <= j < s.drop_last().len() implies (#[trigger] s.drop_last()[
            j
        ].0@) != s[i].0@ by {
            assert(s.drop_last()[j] == s[j]);
        }
        assert(!entries_map(s.drop_last()).contains_key(s[i].0@));
        assert(entries_map(s).remove(s[i].0@) =~= entries_map(s.drop_last()));
    } else {
        assert(distinct_keys(s.drop_last()));
        assert(s.drop_last()[i] == s[i]);
        lemma_entries_map_remove(s.drop_last(), i);
        assert(t.drop_last() =~= s.drop_last().remove(i));
        assert(t.last() == s.last());
        assert(s[i].0@ != s.last().0@);
        assert(entries_map(t) == entries_map(s.drop_last().remove(i)).insert(
            s.last().0@,
            entry_model(s.last().1),
        ));
        assert(entries_map(t) =~= entries_map(s).remove(s[i].0@));
    }
}

/// The executable store model.
pub struct StoreModel {
    now: u64,
    entries: Vec<(String, StoreEntry)>,
}

impl StoreModel {
    /// The store's contents, as the command semantics see them.
    pub closed spec fn contents(&self) -> StoreContents {
        entries_map(self.entries@)
    }

    /// The store's clock, in seconds.
    pub closed spec fn time(&self) -> int {
        self.now as int
    }

    /// Entries never share a key.
    pub closed spec fn wf(&self) -> bool {
        distinct_keys(self.entries@)
    }

    /// An empty store whose clock reads `start`.
    pub fn new(start: u64) -> (s: Self)
        ensures
            s.wf(),
            s.contents() == Map::<Seq<char>, EntryModel>::empty(),
            s.time() == start,
    {
        StoreModel { now: start, entries: Vec::new() }
    }

    /// Let `seconds` pass on the store's clock.
    pub fn advance(&mut self, seconds: u64)
        requires
            old(self).time() + seconds <= u64::MAX,
        ensures
            final(self).wf() == old(self).wf(),
            final(self).contents() == old(self).contents(),
            final(self).time() == old(self).time() + seconds,
    {
        self.now = self.now + seconds;
    }

    /// The store's clock.
    pub fn now_seconds(&self) -> (t: u64)
        ensures
            t as int == self.time(),
    {
        self.now
    }

    /// The position of the entry under a key, if one exists.
    fn find(&self, key: &String) -> (r: Option<usize>)
        ensures
            match r {
                Some(i) => i < self.entries@.len() && self.entries@[i as int].0@ == key@,
                None => forall|j: int|
                    0 <= j < self.entries@.len() ==> (#[trigger] self.entries@[j].0@) != key@,
            },
    {
        let mut i: usize = 0;
        while i < self.entries.len()
            invariant
                0 <= i <= self.entries@.len(),
                forall|j: int| 0 <= j < i ==> (#[trigger] self.entries@[j].0@) != key@,
            decreases self.entries@.len() - i,
        {
            if self.entries[i].0.eq(key) {
                return Some(i);
            }
            i = i + 1;
        }
        None
    }

    /// Fetch the live value under a key; an expired or missing key is
    /// absent.
    pub fn fetch(&self, key: &String) -> (r: Option<String>)
        requires
            self.wf(),
        ensures
            match r {
                Some(s) => fetch_resp(self.contents(), self.time(), key@) == Some(s@),
                None => fetch_resp(self.contents(), self.time(), key@) is None,
            },
    {
        match self.find(key) {
            None => {
                proof {
                    lemma_entries_map_domain(self.entries@, key@);
                }
                None
            },
            Some(i) => {
                proof {
                    lemma_entries_map_at(self.entries@, i as int);
                }
                if self.entries[i].1.expires_at > self.now {
                    Some(self.entries[i].1.data.clone())
                } else {
                    None
                }
            },
        }
    }

    /// Store a value under a key, expiring `seconds` from now; an
    /// existing entry, live or expired, is overwritten.
    pub fn store(&mut self, key: String, data: String, seconds: u64)
        requires
            old(self).wf(),
            old(self).time() + seconds <= u64::MAX,
        ensures
            final(self).wf(),
            final(self).time() == old(self).time(),
            final(self).contents() == apply_command(
                old(self).contents(),
                old(self).time(),
                CommandModel::Store { key: key@, data: data@, seconds: seconds as int },
            ),
    {
        let expires_at = self.now + seconds;
        match self.find(&key) {
            Some(i) => {
                proof {
                    lemma_entries_map_update(
                        self.entries@,
                        i as int,
                        (key, StoreEntry { data, expires_at }),
                    );
                }
                let ghost before = self.entries@;
                self.entries[i] = (key, StoreEntry { data, expires_at });
                proof {
                    assert forall|a: int, b: int|
                        0 <= a < b < self.entries@.len() implies (#[trigger] self.entries@[a].0@)
                        != (#[trigger] self.entries@[b].0@) by {
                        assert(before[a].0@ != before[b].0@);
                    }
                }
            },
            None => {
                proof {
                    lemma_entries_map_domain(self.entries@, key@);
                    let ghost after = self.entries@.push(
                        (key, StoreEntry { data, expires_at }),
                    );
                    assert(after.drop_last() =~= self.entries@);
                    assert forall|a: int, b: int| 0 <= a < b < after.len() implies (
                    #[trigger] after[a].0@) != (#[trigger] after[b].0@) by {
                        if b < after.len() - 1 {
                            assert(after[a] == self.entries@[a]);
                            assert(after[b] == self.entries@[b]);
                        } else {
                            assert(after[a] == self.entries@[a]);
                        }
                    }
                }
                self.entries.push((key, StoreEntry { data, expires_at }));
            },
        }
    }

    /// Re-arm a live key's expiry `seconds` from now; a missing or
    /// expired key is left alone.
    pub fn refresh(&mut self, key: &String, seconds: u64)
        requires
            old(self).wf(),
            old(self).time() + seconds <= u64::MAX,
        ensures
            final(self).wf(),
            final(self).time() == old(self).time(),
            final(self).contents() == apply_command(
                old(self).contents(),
                old(self).time(),
                CommandModel::Refresh { key: key@, seconds: seconds as int },
            ),
    {
        let expires_at = self.now + seconds;
        match self.find(key) {
            None => {
                proof {
                    lemma_entries_map_domain(self.entries@, key@);
                }
            },
            Some(i) => {
                proof {
                    lemma_entries_map_at(self.entries@, i as int);
                }
                if self.entries[i].1.expires_at > self.now {
                    let data = self.entries[i].1.data.clone();
                    let held = self.entries[i].0.clone();
                    proof {
                        lemma_entries_map_update(
                            self.entries@,
                            i as int,
                            (held, StoreEntry { data, expires_at }),
                        );
                    }
                    let ghost before = self.entries@;
                    self.entries[i] = (held, StoreEntry { data, expires_at });
                    proof {
                        assert forall|a: int, b: int|
                            0 <= a < b < self.entries@.len() implies (
                        #[trigger] self.entries@[a].0@) != (#[trigger] self.entries@[b].0@) by {
                            assert(before[a].0@ != before[b].0@);
                        }
                        assert(final(self).contents() =~= apply_command(
                            old(self).contents(),
                            old(self).time(),
                            CommandModel::Refresh { key: key@, seconds: seconds as int },
                        ));
                    }
                }
            },
        }
    }

    /// Delete a key; a missing key is left alone.
    pub fn delete(&mut self, key: &String)
        requires
            old(self).wf(),
        ensures
            final(self).wf(),
            final(self).time() == old(self).time(),
            final(self).contents() == apply_command(
                old(self).contents(),
                old(self).time(),
                CommandModel::Delete { key: key@ },
            ),
    {
        match self.find(key) {
            None => {
                proof {
                    lemma_entries_map_domain(self.entries@, key@);
                    assert(final(self).contents() =~= old(self).contents().remove(key@));
                }
            },
            Some(i) => {
                proof {
                    lemma_entries_map_remove(self.entries@, i as int);
                }
                self.entries.remove(i);
            },
        }
    }

    /// Run a whole batch in order, indivisibly, and answer each command.
    pub fn run_batch(&mut self, batch: &Vec<Command>) -> (r: Vec<Option<String>>)
        requires
            old(self).wf(),
            batch_fits(old(self).time(), batch.deep_view()),
        ensures
            final(self).wf(),
            final(self).time() == old(self).time(),
            final(self).contents() == apply_batch(
                old(self).contents(),
                old(self).time(),
                batch.deep_view(),
            ),
            r.deep_view() == batch_resps(old(self).contents(), old(self).time(), batch.deep_view()),
    {
        let ghost m0 = self.contents();
        let ghost t0 = self.time();
        let ghost bm = batch.deep_view();
        let mut r: Vec<Option<String>> = Vec::new();
        let mut i: usize = 0;
        proof {
            assert(bm.take(0) =~= Seq::<CommandModel>::empty());
            assert(r.deep_view() =~= batch_resps(m0, t0, bm.take(0)));
        }
        while i < batch.len()
            invariant
                0 <= i <= batch@.len(),
                bm == batch.deep_view(),
                bm.len() == batch@.len(),
                batch_fits(t0, bm),
                self.wf(),
                self.time() == t0,
                self.contents() == apply_batch(m0, t0, bm.take(i as int)),
                r.deep_view() == batch_resps(m0, t0, bm.take(i as int)),
            decreases batch@.len() - i,
        {
            proof {
                assert(bm[i as int] == batch@[i as int]@);
                assert(bm.take(i as int + 1) =~= bm.take(i as int).push(bm[i as int]));
                crate::command::lemma_apply_batch_snoc(m0, t0, bm.take(i as int), bm[i as int]);
            }
            let ghost r_before = r.deep_view();
            let ghost m_i = self.contents();
            match &batch[i] {
                Command::Fetch { key } => {
                    let v = self.fetch(key);
                    proof {
                        assert(v.deep_view() == command_resp(m_i, t0, bm[i as int]));
                    }
                    r.push(v);
                },
                Command::Store { key, data, seconds } => {
                    self.store(key.clone(), data.clone(), *seconds);
                    r.push(None);
                },
                Command::Refresh { key, seconds } => {
                    self.refresh(key, *seconds);
                    r.push(None);
                },
                Command::Delete { key } => {
                    self.delete(key);
                    r.push(None);
                },
            }
            proof {
                assert(r.deep_view() =~= r_before.push(
                    command_resp(m_i, t0, bm[i as int]),
                ));
            }
            i = i + 1;
        }
        proof {
            assert(bm.take(batch@.len() as int) =~= bm);
        }
        r
    }
}

} // verus!
