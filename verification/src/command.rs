//! The remote store's command surface and the semantics of one atomic
//! batch.
//!
//! Every adapter operation is a single batch of commands, executed by
//! the remote store in order and indivisibly. The store keeps one entry
//! per key with an absolute expiry instant; an entry whose instant has
//! been reached is treated as absent, refreshing or deleting a missing
//! key is a safe no-op, and storing always overwrites.

use vstd::prelude::*;

verus! {

/// One command of the remote store's surface, as sent in a batch.
pub enum Command {
    /// Fetch the live value under a key.
    Fetch { key: String },
    /// Store a value under a key with an expiry that many seconds away.
    Store { key: String, data: String, seconds: u64 },
    /// Re-arm a live key's expiry that many seconds away; a no-op on a
    /// missing or expired key.
    Refresh { key: String, seconds: u64 },
    /// Delete a key; a no-op on a missing key.
    Delete { key: String },
}

/// The mathematical form of one command.
pub ghost enum CommandModel {
    Fetch { key: Seq<char> },
    Store { key: Seq<char>, data: Seq<char>, seconds: int },
    Refresh { key: Seq<char>, seconds: int },
    Delete { key: Seq<char> },
}

impl View for Command {
    type V = CommandModel;

    open spec fn view(&self) -> CommandModel {
        match self {
            Command::Fetch { key } => CommandModel::Fetch { key: key@ },
            Command::Store { key, data, seconds } => CommandModel::Store {
                key: key@,
                data: data@,
                seconds: *seconds as int,
            },
            Command::Refresh { key, seconds } => CommandModel::Refresh {
                key: key@,
                seconds: *seconds as int,
            },
            Command::Delete { key } => CommandModel::Delete { key: key@ },
        }
    }
}

impl DeepView for Command {
    type V = CommandModel;

    open spec fn deep_view(&self) -> CommandModel {
        self.view()
    }
}

/// One stored entry as the model sees it: the stored text and the
/// absolute instant at which it expires.
pub ghost struct EntryModel {
    pub data: Seq<char>,
    pub expires_at: int,
}

/// The remote store's contents as the model sees them.
pub type StoreContents = Map<Seq<char>, EntryModel>;

/// A key is live when it holds an entry whose expiry lies ahead.
pub open spec fn live(m: StoreContents, now: int, key: Seq<char>) -> bool {
    m.contains_key(key) && m[key].expires_at > now
}

/// What a fetch returns: the stored text of a live key, absence otherwise.
pub open spec fn fetch_resp(m: StoreContents, now: int, key: Seq<char>) -> Option<Seq<char>> {
    if live(m, now, key) {
        Some(m[key].data)
    } else {
        None
    }
}

/// How one command transforms the store's contents.
pub open spec fn apply_command(m: StoreContents, now: int, c: CommandModel) -> StoreContents {
    match c {
        CommandModel::Fetch { key } => m,
        CommandModel::Store { key, data, seconds } => m.insert(
            key,
            EntryModel { data, expires_at: now + seconds },
        ),
        CommandModel::Refresh { key, seconds } => if live(m, now, key) {
            m.insert(key, EntryModel { data: m[key].data, expires_at: now + seconds })
        } else {
            m
        },
        CommandModel::Delete { key } => m.remove(key),
    }
}

/// What one command answers: only a fetch carries a payload.
pub open spec fn command_resp(m: StoreContents, now: int, c: CommandModel) -> Option<Seq<char>> {
    match c {
        CommandModel::Fetch { key } => fetch_resp(m, now, key),
        _ => None,
    }
}

/// How a whole batch, run in order, transforms the store's contents.
pub open spec fn apply_batch(m: StoreContents, now: int, cs: Seq<CommandModel>) -> StoreContents
    decreases cs.len(),
{
    if cs.len() == 0 {
        m
    } else {
        apply_batch(apply_command(m, now, cs[0]), now, cs.skip(1))
    }
}

/// The answers of a whole batch, one per command, in order.
pub open spec fn batch_resps(m: StoreContents, now: int, cs: Seq<CommandModel>) -> Seq<
    Option<Seq<char>>,
>
    decreases cs.len(),
{
    if cs.len() == 0 {
        Seq::empty()
    } else {
        seq![command_resp(m, now, cs[0])] + batch_resps(apply_command(m, now, cs[0]), now, cs.skip(1))
    }
}

/// No expiry instant that a batch arms may overflow the machine's range.
pub open spec fn batch_fits(now: int, cs: Seq<CommandModel>) -> bool {
    forall|i: int| 0 <= i < cs.len() ==> match #[trigger] cs[i] {
        CommandModel::Store { key, data, seconds } => now + seconds <= u64::MAX,
        CommandModel::Refresh { key, seconds } => now + seconds <= u64::MAX,
        _ => true,
    }
}

/// Running a batch extended by one command runs that command last.
pub proof fn lemma_apply_batch_snoc(m: StoreContents, now: int, cs: Seq<CommandModel>, c: CommandModel)
    ensures
        apply_batch(m, now, cs.push(c)) == apply_command(apply_batch(m, now, cs), now, c),
        batch_resps(m, now, cs.push(c)) == batch_resps(m, now, cs).push(
            command_resp(apply_batch(m, now, cs), now, c),
        ),
    decreases cs.len(),
{
    if cs.len() == 0 {
        assert(cs.push(c)[0] == c);
        assert(cs.push(c).skip(1) =~= Seq::<CommandModel>::empty());
        assert(apply_batch(m, now, cs) == m);
        assert(batch_resps(m, now, cs) == Seq::<Option<Seq<char>>>::empty());
        assert(apply_batch(m, now, cs.push(c)) == apply_batch(
            apply_command(m, now, c),
            now,
            Seq::<CommandModel>::empty(),
        ));
        assert(batch_resps(m, now, cs.push(c)) == seq![command_resp(m, now, c)] + batch_resps(
            apply_command(m, now, c),
            now,
            Seq::<CommandModel>::empty(),
        ));
        assert(batch_resps(m, now, cs.push(c)) =~~= batch_resps(m, now, cs).push(
            command_resp(apply_batch(m, now, cs), now, c),
        ));
    } else {
        let m1 = apply_command(m, now, cs[0]);
        assert(cs.push(c)[0] == cs[0]);
        assert(cs.push(c).skip(1) =~= cs.skip(1).push(c));
        lemma_apply_batch_snoc(m1, now, cs.skip(1), c);
        assert(apply_batch(m, now, cs.push(c)) == apply_batch(m1, now, cs.skip(1).push(c)));
        assert(apply_batch(m, now, cs) == apply_batch(m1, now, cs.skip(1)));
        assert(batch_resps(m, now, cs.push(c)) == seq![command_resp(m, now, cs[0])] + batch_resps(
            m1,
            now,
            cs.skip(1).push(c),
        ));
        assert(batch_resps(m, now, cs.push(c)) =~~= batch_resps(m, now, cs).push(
            command_resp(apply_batch(m, now, cs), now, c),
        ));
    }
}

} // verus!
