//! The three VAD dimensions and the names by which callers refer to them.
use vstd::prelude::*;
use vstd::string::*;
use crate::text::str_eq;

verus! {

/// One axis of the valence-arousal-dominance space.
#[derive(PartialEq, Eq, Structural, Clone, Copy, Debug)]
pub enum Dimension {
    Valence,
    Arousal,
    Dominance,
}

/// The dimension that a name refers to: `v` or `valence`, `a` or `arousal`,
/// `d` or `dominance`; any other name refers to none.
pub open spec fn spec_dimension(name: Seq<char>) -> Option<Dimension> {
    if name == "v"@ || name == "valence"@ {
        Some(Dimension::Valence)
    } else if name == "a"@ || name == "arousal"@ {
        Some(Dimension::Arousal)
    } else if name == "d"@ || name == "dominance"@ {
        Some(Dimension::Dominance)
    } else {
        None
    }
}

impl Dimension {
    /// Looks up the dimension that `name` refers to.
    pub fn from_name(name: &str) -> (r: Option<Dimension>)
        ensures
            r == spec_dimension(name@),
    {
        if str_eq(name, "v") || str_eq(name, "valence") {
            Some(Dimension::Valence)
        } else if str_eq(name, "a") || str_eq(name, "arousal") {
            Some(Dimension::Arousal)
        } else if str_eq(name, "d") || str_eq(name, "dominance") {
            Some(Dimension::Dominance)
        } else {
            None
        }
    }
}

/// The message of the error for a dimension name that names no dimension.
pub fn unknown_dimension_message(name: &str) -> (r: String)
    ensures
        r@ == "Unknown dimension: "@ + name@,
{
    let mut msg = String::from_str("Unknown dimension: ");
    msg.append(name);
    msg
}

/// `v` and `valence`, `a` and `arousal`, `d` and `dominance` name the same dimension,
/// and the three dimensions are told apart.
pub proof fn lemma_dimension_aliases()
    ensures
        spec_dimension("v"@) == Some(Dimension::Valence),
        spec_dimension("valence"@) == Some(Dimension::Valence),
        spec_dimension("a"@) == Some(Dimension::Arousal),
        spec_dimension("arousal"@) == Some(Dimension::Arousal),
        spec_dimension("d"@) == Some(Dimension::Dominance),
        spec_dimension("dominance"@) == Some(Dimension::Dominance),
{
    reveal_strlit("v");
    reveal_strlit("valence");
    reveal_strlit("a");
    reveal_strlit("arousal");
    reveal_strlit("d");
    reveal_strlit("dominance");
    assert("v"@.len() == 1);
    assert("a"@.len() == 1);
    assert("d"@.len() == 1);
    assert("valence"@.len() == 7);
    assert("arousal"@.len() == 7);
    assert("dominance"@.len() == 9);
    assert("v"@[0] != "a"@[0]);
    assert("v"@[0] != "d"@[0]);
    assert("a"@[0] != "d"@[0]);
    assert("valence"@[0] != "arousal"@[0]);
}

/// Which of the three dimensions a set of names selects.
#[derive(PartialEq, Eq, Structural, Clone, Copy, Debug)]
pub struct DimensionSet {
    pub valence: bool,
    pub arousal: bool,
    pub dominance: bool,
}

/// Whether some name in `names` refers to `d`.
pub open spec fn names_dimension(names: Seq<String>, d: Dimension) -> bool {
    exists|i: int| 0 <= i < names.len() && spec_dimension(#[trigger] names[i]@) == Some(d)
}

/// The dimensions that `names` refer to; names that refer to no dimension are ignored.
pub fn dimensions_named(names: &Vec<String>) -> (r: DimensionSet)
    ensures
        r.valence == names_dimension(names@, Dimension::Valence),
        r.arousal == names_dimension(names@, Dimension::Arousal),
        r.dominance == names_dimension(names@, Dimension::Dominance),
{
    let mut set = DimensionSet { valence: false, arousal: false, dominance: false };
    let mut i: usize = 0;
    while i < names.len()
        invariant
            i <= names.len(),
            set.valence == names_dimension(names@.take(i as int), Dimension::Valence),
            set.arousal == names_dimension(names@.take(i as int), Dimension::Arousal),
            set.dominance == names_dimension(names@.take(i as int), Dimension::Dominance),
        decreases names.len() - i,
    {
        let ghost prev = names@.take(i as int);
        let ghost next = names@.take(i as int + 1);
        match Dimension::from_name(names[i].as_str()) {
            Some(Dimension::Valence) => set.valence = true,
            Some(Dimension::Arousal) => set.arousal = true,
            Some(Dimension::Dominance) => set.dominance = true,
            None => {},
        }
        proof {
            assert forall|d: Dimension| names_dimension(next, d) == (names_dimension(prev, d)
                || spec_dimension(names@[i as int]@) == Some(d)) by {
                if names_dimension(next, d) {
                    let k = choose|k: int| 0 <= k < next.len() && spec_dimension(#[trigger] next[k]@) == Some(d);
                    if k < i {
                        assert(prev[k] == next[k]);
                    }
                }
                if names_dimension(prev, d) {
                    let k = choose|k: int| 0 <= k < prev.len() && spec_dimension(#[trigger] prev[k]@) == Some(d);
                    assert(next[k] == prev[k]);
                }
                if spec_dimension(names@[i as int]@) == Some(d) {
                    assert(next[i as int] == names@[i as int]);
                }
            }
        }
        i = i + 1;
    }
    assert(names@.take(names@.len() as int) =~= names@);
    set
}

} // verus!
