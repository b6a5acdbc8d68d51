//! Names of the five OCEAN personality traits.
//!
//! The trait values, the baseline and the decay rates derived from them are
//! floating-point and belong to the engine.
use vstd::prelude::*;
use vstd::string::*;
use crate::text::str_eq;

verus! {

/// One of the five OCEAN traits.
#[derive(PartialEq, Eq, Structural, Clone, Copy, Debug)]
pub enum PersonalityTrait {
    Openness,
    Conscientiousness,
    Extraversion,
    Agreeableness,
    Neuroticism,
}

/// The trait whose name is `name`, if any.
pub open spec fn spec_trait(name: Seq<char>) -> Option<PersonalityTrait> {
    if name == "openness"@ {
        Some(PersonalityTrait::Openness)
    } else if name == "conscientiousness"@ {
        Some(PersonalityTrait::Conscientiousness)
    } else if name == "extraversion"@ {
        Some(PersonalityTrait::Extraversion)
    } else if name == "agreeableness"@ {
        Some(PersonalityTrait::Agreeableness)
    } else if name == "neuroticism"@ {
        Some(PersonalityTrait::Neuroticism)
    } else {
        None
    }
}

impl PersonalityTrait {
    /// The trait that `name` names, if it names one.
    pub fn from_name(name: &str) -> (r: Option<PersonalityTrait>)
        ensures
            r == spec_trait(name@),
    {
        if str_eq(name, "openness") {
            Some(PersonalityTrait::Openness)
        } else if str_eq(name, "conscientiousness") {
            Some(PersonalityTrait::Conscientiousness)
        } else if str_eq(name, "extraversion") {
            Some(PersonalityTrait::Extraversion)
        } else if str_eq(name, "agreeableness") {
            Some(PersonalityTrait::Agreeableness)
        } else if str_eq(name, "neuroticism") {
            Some(PersonalityTrait::Neuroticism)
        } else {
            None
        }
    }
}

/// The message of the error for a trait name that names no trait.
pub fn unknown_trait_message(name: &str) -> (r: String)
    ensures
        r@ == "Unknown personality trait: "@ + name@,
{
    let mut msg = String::from_str("Unknown personality trait: ");
    msg.append(name);
    msg
}

/// The five trait names look up their own traits.
pub proof fn lemma_trait_names()
    ensures
        spec_trait("openness"@) == Some(PersonalityTrait::Openness),
        spec_trait("conscientiousness"@) == Some(PersonalityTrait::Conscientiousness),
        spec_trait("extraversion"@) == Some(PersonalityTrait::Extraversion),
        spec_trait("agreeableness"@) == Some(PersonalityTrait::Agreeableness),
        spec_trait("neuroticism"@) == Some(PersonalityTrait::Neuroticism),
{
    reveal_strlit("openness");
    reveal_strlit("conscientiousness");
    reveal_strlit("extraversion");
    reveal_strlit("agreeableness");
    reveal_strlit("neuroticism");
    assert("openness"@.len() == 8);
    assert("conscientiousness"@.len() == 17);
    assert("extraversion"@.len() == 12);
    assert("agreeableness"@.len() == 13);
    assert("neuroticism"@.len() == 11);
}

} // verus!
