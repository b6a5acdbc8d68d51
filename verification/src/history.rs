//! The bounded records an engine keeps: emotional memories and recent stimuli.
use vstd::prelude::*;
use std::collections::VecDeque;

verus! {

/// Largest number of emotional memories kept.
pub const MEMORY_CAPACITY: usize = 100;

/// Largest number of stimuli kept in the history.
pub const STIMULI_CAPACITY: usize = 20;

/// The last `cap` items of `s`, or all of them where there are fewer.
pub open spec fn keep_last<T>(s: Seq<T>, cap: int) -> Seq<T> {
    if s.len() > cap {
        s.subrange(s.len() - cap, s.len() as int)
    } else {
        s
    }
}

/// Records a new memory: it is appended, and only the `MEMORY_CAPACITY` most recent
/// memories are kept.
pub fn push_memory<T>(memories: &mut Vec<T>, memory: T)
    ensures
        final(memories)@ == keep_last(old(memories)@.push(memory), MEMORY_CAPACITY as int),
{
    memories.push(memory);
    if memories.len() > MEMORY_CAPACITY {
        let cut = memories.len() - MEMORY_CAPACITY;
        let kept = memories.split_off(cut);
        *memories = kept;
    }
}

/// The history after recording `item`: appended at the back, and where that makes
/// it longer than `STIMULI_CAPACITY`, the front item dropped.
pub open spec fn spec_push_stimulus<T>(history: Seq<T>, item: T) -> Seq<T> {
    if history.len() + 1 > STIMULI_CAPACITY {
        history.push(item).drop_first()
    } else {
        history.push(item)
    }
}

/// Records a new stimulus at the back of the history, dropping the oldest one where
/// the history grows beyond `STIMULI_CAPACITY`.
pub fn push_stimulus<T>(history: &mut VecDeque<T>, item: T)
    ensures
        final(history)@ == spec_push_stimulus(old(history)@, item),
{
    history.push_back(item);
    if history.len() > STIMULI_CAPACITY {
        history.pop_front();
    }
    proof {
        assert(old(history)@.push(item).drop_first() =~= old(history)@.push(item).subrange(1, old(history)@.len() as int + 1));
    }
}

/// Recording keeps the memories within their capacity, the new memory is the most
/// recent one, and the memories kept are the most recent ones, in order.
pub proof fn lemma_memories_bounded<T>(memories: Seq<T>, memory: T)
    ensures
        keep_last(memories.push(memory), MEMORY_CAPACITY as int).len() <= MEMORY_CAPACITY,
        keep_last(memories.push(memory), MEMORY_CAPACITY as int).last() == memory,
        memories.len() < MEMORY_CAPACITY ==> keep_last(memories.push(memory), MEMORY_CAPACITY as int)
            == memories.push(memory),
{
}

/// A history within its capacity stays within it, with the new stimulus last.
pub proof fn lemma_stimuli_bounded<T>(history: Seq<T>, item: T)
    requires
        history.len() <= STIMULI_CAPACITY,
    ensures
        spec_push_stimulus(history, item).len() <= STIMULI_CAPACITY,
        spec_push_stimulus(history, item).last() == item,
{
}

/// The last `k` items of `history` (all of them where there are fewer), newest first.
pub open spec fn newest_first<T>(history: Seq<T>, k: int) -> Seq<T> {
    let n = if history.len() < k { history.len() as int } else { k };
    Seq::new(n as nat, |i: int| history[history.len() - 1 - i])
}

/// The `k` most recent items of `history`, newest first; all of them, newest first,
/// where there are fewer than `k`.
pub fn recent_first<T>(history: &VecDeque<T>, k: usize) -> (r: Vec<&T>)
    ensures
        r@.len() == newest_first(history@, k as int).len(),
        forall|i: int| 0 <= i < r@.len() ==> *r@[i] == newest_first(history@, k as int)[i],
{
    let len = history.len();
    let n = if len < k { len } else { k };
    let mut out: Vec<&T> = Vec::new();
    let mut i: usize = 0;
    while i < n
        invariant
            n <= len,
            len == history@.len(),
            n == newest_first(history@, k as int).len(),
            i <= n,
            out@.len() == i,
            forall|j: int| 0 <= j < i ==> *out@[j] == history@[len - 1 - j],
        decreases n - i,
    {
        out.push(&history[len - 1 - i]);
        i = i + 1;
    }
    out
}

/// The selection holds at most `k` items, the first one is the newest item of the
/// history, and each item is older than the one before it.
pub proof fn lemma_newest_first<T>(history: Seq<T>, k: int)
    requires
        k >= 0,
    ensures
        newest_first(history, k).len() <= k,
        newest_first(history, k).len() == if history.len() < k { history.len() as int } else { k },
        history.len() > 0 && k > 0 ==> newest_first(history, k)[0] == history.last(),
        forall|i: int|
            0 <= i < newest_first(history, k).len() ==> #[trigger] newest_first(history, k)[i]
                == history[history.len() - 1 - i],
{
}

/// The memories kept are the most recent ones, in order: as many as there are, up to
/// `MEMORY_CAPACITY`, ending with the new memory.
pub proof fn lemma_memories_most_recent<T>(memories: Seq<T>, memory: T)
    ensures
        ({
            let all = memories.push(memory);
            let r = keep_last(all, MEMORY_CAPACITY as int);
            &&& r.len() == if all.len() > MEMORY_CAPACITY { MEMORY_CAPACITY as int } else { all.len() as int }
            &&& forall|i: int| 0 <= i < r.len() ==> #[trigger] r[i] == all[all.len() - r.len() + i]
        }),
{
}

/// Recording a stimulus keeps the history in order with the new stimulus last, and
/// drops exactly the oldest one where the history grows beyond its capacity.
pub proof fn lemma_stimuli_most_recent<T>(history: Seq<T>, item: T)
    ensures
        ({
            let all = history.push(item);
            let r = spec_push_stimulus(history, item);
            &&& r.len() == if all.len() > STIMULI_CAPACITY { history.len() as int } else { all.len() as int }
            &&& forall|i: int| 0 <= i < r.len() ==> #[trigger] r[i] == all[all.len() - r.len() + i]
        }),
{
}

} // verus!
