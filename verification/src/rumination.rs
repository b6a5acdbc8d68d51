//! Rumination: the after-effects of a strong event, replayed over a few rounds.
//!
//! The size of each replayed effect is floating-point and computed by the engine; the
//! bookkeeping of rounds and of the bounded list of active entries is done here.
use vstd::prelude::*;

verus! {

/// Rounds over which a new rumination entry acts.
pub const DEFAULT_MAX_ROUNDS: u32 = 5;

/// Largest number of rumination entries active at once.
pub const MAX_ACTIVE_ENTRIES: usize = 8;

/// The list after adding `entry` to `entries`: where the list is full, the oldest
/// entry is dropped first.
pub open spec fn spec_add_rumination<T>(entries: Seq<T>, entry: T) -> Seq<T> {
    if entries.len() >= MAX_ACTIVE_ENTRIES {
        entries.drop_first().push(entry)
    } else {
        entries.push(entry)
    }
}

/// Adds `entry` as the newest rumination entry; where `MAX_ACTIVE_ENTRIES` are
/// already active, the oldest one is dropped.
pub fn add_rumination<T>(entries: &mut Vec<T>, entry: T)
    ensures
        final(entries)@ == spec_add_rumination(old(entries)@, entry),
{
    if entries.len() >= MAX_ACTIVE_ENTRIES {
        entries.remove(0);
    }
    entries.push(entry);
}

/// The bound holds across additions: a list of at most `MAX_ACTIVE_ENTRIES` entries
/// stays within it, and the added entry is the newest.
pub proof fn lemma_add_rumination_bounded<T>(entries: Seq<T>, entry: T)
    requires
        entries.len() <= MAX_ACTIVE_ENTRIES,
    ensures
        spec_add_rumination(entries, entry).len() <= MAX_ACTIVE_ENTRIES,
        spec_add_rumination(entries, entry).last() == entry,
        entries.len() < MAX_ACTIVE_ENTRIES ==> spec_add_rumination(entries, entry).len() == entries.len() + 1,
{
}

/// The round counters of one rumination entry.
#[derive(PartialEq, Eq, Structural, Clone, Copy, Debug)]
pub struct RoundCounter {
    /// Rounds still to act.
    pub remaining_rounds: u32,
    /// Rounds the entry acts in all.
    pub total_rounds: u32,
}

impl RoundCounter {
    /// One round: nothing where no round is left; otherwise the number of rounds
    /// acted before, with one round fewer left.
    pub open spec fn spec_advance(self) -> (Option<u32>, RoundCounter) {
        if self.remaining_rounds == 0 {
            (None, self)
        } else {
            (
                Some((self.total_rounds - self.remaining_rounds) as u32),
                RoundCounter { remaining_rounds: (self.remaining_rounds - 1) as u32, total_rounds: self.total_rounds },
            )
        }
    }

    /// The counters after `n` rounds.
    pub open spec fn after_rounds(self, n: nat) -> RoundCounter
        decreases n,
    {
        if n == 0 {
            self
        } else {
            self.spec_advance().1.after_rounds((n - 1) as nat)
        }
    }

    /// Counters of a new entry: `DEFAULT_MAX_ROUNDS` rounds, none acted yet.
    pub fn new() -> (r: RoundCounter)
        ensures
            r.remaining_rounds == DEFAULT_MAX_ROUNDS,
            r.total_rounds == DEFAULT_MAX_ROUNDS,
    {
        RoundCounter { remaining_rounds: DEFAULT_MAX_ROUNDS, total_rounds: DEFAULT_MAX_ROUNDS }
    }

    /// Number of rounds already acted, the power to which the decay factor is raised
    /// in the current round.
    pub fn elapsed_rounds(&self) -> (r: u32)
        requires
            self.remaining_rounds <= self.total_rounds,
        ensures
            r == self.total_rounds - self.remaining_rounds,
    {
        self.total_rounds - self.remaining_rounds
    }

    /// Acts one round. An entry with no rounds left does not act: `None`, unchanged.
    /// Otherwise the result is the number of rounds acted before this one, and one
    /// round fewer remains; the entry stays active while rounds remain.
    pub fn advance(&mut self) -> (r: Option<u32>)
        requires
            old(self).remaining_rounds > 0 ==> old(self).remaining_rounds <= old(self).total_rounds,
        ensures
            (r, *final(self)) == old(self).spec_advance(),
    {
        if self.remaining_rounds == 0 {
            return None;
        }
        let elapsed = self.elapsed_rounds();
        self.remaining_rounds = self.remaining_rounds - 1;
        Some(elapsed)
    }

    /// Whether the entry still has rounds to act.
    pub fn is_active(&self) -> (r: bool)
        ensures
            r == (self.remaining_rounds > 0),
    {
        self.remaining_rounds > 0
    }
}

/// An entry acts exactly its remaining rounds: starting with `r` of `t` rounds left,
/// its `k`-th further round (counting from 0) is raised to the power `t - r + k`, the
/// counters stay consistent, and after `r` rounds it is spent.
pub proof fn lemma_rounds_run_out(c: RoundCounter, k: nat)
    requires
        c.remaining_rounds <= c.total_rounds,
        k <= c.remaining_rounds,
    ensures
        c.after_rounds(k).remaining_rounds == c.remaining_rounds - k,
        c.after_rounds(k).total_rounds == c.total_rounds,
        k < c.remaining_rounds ==> c.after_rounds(k).spec_advance().0 == Some(
            (c.total_rounds - c.remaining_rounds + k) as u32,
        ),
        k == c.remaining_rounds ==> c.after_rounds(k).spec_advance().0 is None,
    decreases k,
{
    if k > 0 {
        let next = c.spec_advance().1;
        lemma_rounds_run_out(next, (k - 1) as nat);
    }
}

/// Adding keeps the entries in order with the new entry last, and drops exactly the
/// oldest one where `MAX_ACTIVE_ENTRIES` are already active.
pub proof fn lemma_add_rumination_order<T>(entries: Seq<T>, entry: T)
    ensures
        ({
            let all = entries.push(entry);
            let r = spec_add_rumination(entries, entry);
            &&& r.len() == if entries.len() >= MAX_ACTIVE_ENTRIES { entries.len() as int } else { all.len() as int }
            &&& forall|i: int| 0 <= i < r.len() ==> #[trigger] r[i] == all[all.len() - r.len() + i]
        }),
{
}

} // verus!
