//! Behaviour selection: the first rule whose condition holds decides the tone,
//! speed and description of the agent's behaviour, and a default decides otherwise.
//!
//! The conditions compare floating-point VAD values with floating-point bounds and
//! are evaluated by the engine; the selection among the evaluated rules is made here.
use vstd::prelude::*;

verus! {

/// The behaviour that a rule (or the default) prescribes.
pub struct BehaviorOutput {
    pub tone: String,
    pub speed: String,
    pub description: String,
}

impl Clone for BehaviorOutput {
    fn clone(&self) -> (r: Self)
        ensures
            r == *self,
    {
        BehaviorOutput {
            tone: self.tone.clone(),
            speed: self.speed.clone(),
            description: self.description.clone(),
        }
    }
}

/// Index of the first `true` in `hits`, if any.
pub open spec fn spec_first_hit(hits: Seq<bool>) -> Option<int>
    decreases hits.len(),
{
    if hits.len() == 0 {
        None
    } else if hits[0] {
        Some(0)
    } else {
        match spec_first_hit(hits.drop_first()) {
            Some(i) => Some(i + 1),
            None => None,
        }
    }
}

/// What `spec_first_hit` finds: the smallest index of a `true`, or nothing where all
/// are `false`.
pub proof fn lemma_first_hit(hits: Seq<bool>)
    ensures
        spec_first_hit(hits) matches Some(i) ==> 0 <= i < hits.len() && hits[i] && forall|j: int|
            0 <= j < i ==> !hits[j],
        spec_first_hit(hits) is None ==> forall|j: int| 0 <= j < hits.len() ==> !hits[j],
    decreases hits.len(),
{
    if hits.len() > 0 && !hits[0] {
        lemma_first_hit(hits.drop_first());
        assert forall|j: int| 1 <= j < hits.len() implies hits[j] == hits.drop_first()[j - 1] by {}
    }
}

/// Index of the first rule whose condition holds, given whether each one holds.
pub fn first_match(hits: &Vec<bool>) -> (r: Option<usize>)
    ensures
        r matches Some(i) ==> spec_first_hit(hits@) == Some(i as int),
        r is None ==> spec_first_hit(hits@) is None,
{
    let mut i: usize = 0;
    while i < hits.len()
        invariant
            i <= hits.len(),
            forall|j: int| 0 <= j < i ==> !hits@[j],
        decreases hits.len() - i,
    {
        if hits[i] {
            proof {
                lemma_first_match_at(hits@, i as int);
            }
            return Some(i);
        }
        i = i + 1;
    }
    proof {
        lemma_first_match_at(hits@, hits@.len() as int);
    }
    None
}

proof fn lemma_first_match_at(hits: Seq<bool>, i: int)
    requires
        0 <= i <= hits.len(),
        forall|j: int| 0 <= j < i ==> !hits[j],
    ensures
        i < hits.len() && hits[i] ==> spec_first_hit(hits) == Some(i),
        i == hits.len() ==> spec_first_hit(hits) is None,
    decreases i,
{
    if i > 0 {
        let t = hits.drop_first();
        assert forall|j: int| 0 <= j < i - 1 implies !t[j] by {
            assert(t[j] == hits[j + 1]);
        }
        if i < hits.len() && hits[i] {
            assert(t[i - 1] == hits[i]);
        }
        lemma_first_match_at(t, i - 1);
    }
}

/// The behaviour of the first rule whose condition holds (`hits[i]` tells whether the
/// condition of `rules[i]` holds), or `default` where none holds.
pub fn match_behavior(rules: &Vec<BehaviorOutput>, hits: &Vec<bool>, default: &BehaviorOutput) -> (r: BehaviorOutput)
    requires
        rules.len() == hits.len(),
    ensures
        r == (match spec_first_hit(hits@) {
            Some(i) => rules@[i],
            None => *default,
        }),
{
    match first_match(hits) {
        Some(i) => {
            proof {
                lemma_first_hit(hits@);
            }
            rules[i].clone()
        },
        None => default.clone(),
    }
}

} // verus!
