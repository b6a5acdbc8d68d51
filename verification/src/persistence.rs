//! Decisions of state persistence: where the temporary copy goes and when to save.
use vstd::prelude::*;
use vstd::string::*;

verus! {

/// Path of the temporary file that a state is written to before it replaces the
/// state file: the state path with `.tmp` appended.
pub fn tmp_path(state_path: &str) -> (r: String)
    ensures
        r@ == state_path@ + ".tmp"@,
{
    let mut p = String::from_str(state_path);
    p.append(".tmp");
    p
}

/// Whether a state must be saved now: only a changed (`dirty`) state, and only once
/// at least `min_interval_ms` have passed since the last save.
pub fn should_save(dirty: bool, now_ms: i64, last_save_ms: i64, min_interval_ms: i64) -> (r: bool)
    requires
        dirty ==> i64::MIN <= now_ms - last_save_ms <= i64::MAX,
    ensures
        r == (dirty && now_ms - last_save_ms >= min_interval_ms),
{
    if !dirty {
        return false;
    }
    if now_ms - last_save_ms < min_interval_ms {
        return false;
    }
    true
}

} // verus!
