//! Recognising the state files of other agents by their names.
use vstd::prelude::*;
use vstd::string::*;

verus! {

/// Whether `s` ends with `suffix`.
pub open spec fn ends_with(s: Seq<char>, suffix: Seq<char>) -> bool {
    s.len() >= suffix.len() && s.subrange(s.len() - suffix.len(), s.len() as int) == suffix
}

/// The ending that marks an agent's state file.
pub open spec fn state_file_suffix() -> Seq<char> {
    "_state.json"@
}

/// The agent id that a file name denotes: a state file is named `<agent_id>_state.json`,
/// and the id is the name without that one `_state.json` ending. A name without that
/// ending denotes no agent.
pub open spec fn spec_agent_id(name: Seq<char>) -> Option<Seq<char>> {
    if ends_with(name, state_file_suffix()) {
        Some(name.subrange(0, name.len() - state_file_suffix().len()))
    } else {
        None
    }
}

/// Whether the first `n` characters of `s` end with `suffix`.
fn prefix_ends_with(s: &str, n: usize, suffix: &str) -> (r: bool)
    requires
        n <= s@.len(),
    ensures
        r == ends_with(s@.subrange(0, n as int), suffix@),
{
    let m = suffix.unicode_len();
    if m > n {
        return false;
    }
    let start = n - m;
    let mut i: usize = 0;
    while i < m
        invariant
            m == suffix@.len(),
            start + m == n,
            n <= s@.len(),
            i <= m,
            forall|j: int| 0 <= j < i ==> s@[start + j] == suffix@[j],
        decreases m - i,
    {
        if s.get_char(start + i) != suffix.get_char(i) {
            proof {
                assert(s@.subrange(0, n as int).subrange(start as int, n as int)[i as int] == s@[start + i]);
            }
            return false;
        }
        i = i + 1;
    }
    assert(s@.subrange(0, n as int).subrange(start as int, n as int) =~= suffix@);
    true
}

/// The agent id that the file name `name` denotes, if it names a state file.
pub fn agent_id_from_file_name(name: &str) -> (r: Option<String>)
    ensures
        r is Some <==> spec_agent_id(name@) is Some,
        r matches Some(id) ==> id@ == spec_agent_id(name@)->0,
{
    let suffix = "_state.json";
    proof {
        reveal_strlit("_state.json");
    }
    let m = suffix.unicode_len();
    let n = name.unicode_len();
    assert(name@.subrange(0, n as int) =~= name@);
    if !prefix_ends_with(name, n, suffix) {
        return None;
    }
    let k = n - m;
    let id = String::from_str(name.substring_char(0, k));
    Some(id)
}

/// Whether `dir` contains `..`, a step up the directory tree.
pub open spec fn spec_has_parent_reference(dir: Seq<char>) -> bool {
    exists|i: int| 0 <= i && i + 1 < dir.len() && #[trigger] dir[i] == '.' && dir[i + 1] == '.'
}

/// Whether a scan directory contains `..`; such a directory is refused.
pub fn has_parent_reference(dir: &str) -> (r: bool)
    ensures
        r == spec_has_parent_reference(dir@),
{
    let n = dir.unicode_len();
    if n < 2 {
        return false;
    }
    let mut i: usize = 0;
    while i < n - 1
        invariant
            n == dir@.len(),
            n >= 2,
            forall|j: int| 0 <= j < i && j + 1 < n ==> !(#[trigger] dir@[j] == '.' && dir@[j + 1] == '.'),
        decreases n - i,
    {
        if dir.get_char(i) == '.' && dir.get_char(i + 1) == '.' {
            return true;
        }
        i = i + 1;
    }
    false
}

/// The state file of agent `id` is `id` followed by `_state.json`, and a file name
/// denotes an agent exactly when it is that agent's state file name.
pub proof fn lemma_agent_id_of_state_file(id: Seq<char>, name: Seq<char>)
    ensures
        spec_agent_id(id + "_state.json"@) == Some(id),
        spec_agent_id(name) matches Some(a) ==> name == a + "_state.json"@,
{
    let full = id + "_state.json"@;
    assert(full.subrange(full.len() - state_file_suffix().len(), full.len() as int) =~= "_state.json"@);
    assert(full.subrange(0, full.len() - state_file_suffix().len()) =~= id);
    if ends_with(name, state_file_suffix()) {
        let a = name.subrange(0, name.len() - state_file_suffix().len());
        assert(name =~= a + name.subrange(name.len() - state_file_suffix().len(), name.len() as int));
    }
}

/// A directory containing `..` anywhere is recognised, and one without any `.` is not.
pub proof fn lemma_parent_reference(a: Seq<char>, b: Seq<char>, c: Seq<char>)
    ensures
        spec_has_parent_reference(a + ".."@ + b),
        (forall|i: int| 0 <= i < c.len() ==> c[i] != '.') ==> !spec_has_parent_reference(c),
{
    reveal_strlit("..");
    let s = a + ".."@ + b;
    assert(s[a.len() as int] == '.');
    assert(s[a.len() as int + 1] == '.');
}

} // verus!
