//! Plutchik's eight basic emotions: their names, their order and their opposites.
//!
//! The intensities, the VAD anchors and the nearest-neighbour classifier are
//! floating-point and belong to the engine; which emotion a name denotes and which
//! emotion is linked to it as its opposite are decided here.
use vstd::prelude::*;
use crate::text::str_eq;

verus! {

/// One of the eight basic emotions, in the order of the anchor table.
#[derive(PartialEq, Eq, Structural, Clone, Copy, Debug)]
pub enum Emotion {
    Joy,
    Trust,
    Fear,
    Surprise,
    Sadness,
    Disgust,
    Anger,
    Anticipation,
}

/// Number of basic emotions.
pub const EMOTION_COUNT: usize = 8;

impl Emotion {
    /// The lower-case name of the emotion.
    pub open spec fn spec_name(self) -> Seq<char> {
        match self {
            Emotion::Joy => "joy"@,
            Emotion::Trust => "trust"@,
            Emotion::Fear => "fear"@,
            Emotion::Surprise => "surprise"@,
            Emotion::Sadness => "sadness"@,
            Emotion::Disgust => "disgust"@,
            Emotion::Anger => "anger"@,
            Emotion::Anticipation => "anticipation"@,
        }
    }

    /// Position of the emotion in the anchor table.
    pub open spec fn spec_index(self) -> int {
        match self {
            Emotion::Joy => 0,
            Emotion::Trust => 1,
            Emotion::Fear => 2,
            Emotion::Surprise => 3,
            Emotion::Sadness => 4,
            Emotion::Disgust => 5,
            Emotion::Anger => 6,
            Emotion::Anticipation => 7,
        }
    }

    /// The emotion paired with this one in the table of opposites:
    /// joy and sadness, trust and disgust, fear and anger, surprise and anticipation.
    pub open spec fn spec_opposite(self) -> Emotion {
        match self {
            Emotion::Joy => Emotion::Sadness,
            Emotion::Sadness => Emotion::Joy,
            Emotion::Trust => Emotion::Disgust,
            Emotion::Disgust => Emotion::Trust,
            Emotion::Fear => Emotion::Anger,
            Emotion::Anger => Emotion::Fear,
            Emotion::Surprise => Emotion::Anticipation,
            Emotion::Anticipation => Emotion::Surprise,
        }
    }

    /// The name of the emotion.
    pub fn name(self) -> (r: &'static str)
        ensures
            r@ == self.spec_name(),
    {
        match self {
            Emotion::Joy => "joy",
            Emotion::Trust => "trust",
            Emotion::Fear => "fear",
            Emotion::Surprise => "surprise",
            Emotion::Sadness => "sadness",
            Emotion::Disgust => "disgust",
            Emotion::Anger => "anger",
            Emotion::Anticipation => "anticipation",
        }
    }

    /// Position of the emotion in the anchor table (0 to 7).
    pub fn index(self) -> (r: usize)
        ensures
            r == self.spec_index(),
            r < EMOTION_COUNT,
    {
        match self {
            Emotion::Joy => 0,
            Emotion::Trust => 1,
            Emotion::Fear => 2,
            Emotion::Surprise => 3,
            Emotion::Sadness => 4,
            Emotion::Disgust => 5,
            Emotion::Anger => 6,
            Emotion::Anticipation => 7,
        }
    }

    /// The emotion at position `i` of the anchor table, if there is one.
    pub fn from_index(i: usize) -> (r: Option<Emotion>)
        ensures
            i < EMOTION_COUNT <==> r is Some,
            r matches Some(e) ==> e.spec_index() == i,
    {
        match i {
            0 => Some(Emotion::Joy),
            1 => Some(Emotion::Trust),
            2 => Some(Emotion::Fear),
            3 => Some(Emotion::Surprise),
            4 => Some(Emotion::Sadness),
            5 => Some(Emotion::Disgust),
            6 => Some(Emotion::Anger),
            7 => Some(Emotion::Anticipation),
            _ => None,
        }
    }

    /// The emotion linked to this one as its opposite.
    pub fn opposite(self) -> (r: Emotion)
        ensures
            r == self.spec_opposite(),
    {
        match self {
            Emotion::Joy => Emotion::Sadness,
            Emotion::Sadness => Emotion::Joy,
            Emotion::Trust => Emotion::Disgust,
            Emotion::Disgust => Emotion::Trust,
            Emotion::Fear => Emotion::Anger,
            Emotion::Anger => Emotion::Fear,
            Emotion::Surprise => Emotion::Anticipation,
            Emotion::Anticipation => Emotion::Surprise,
        }
    }

    /// The emotion that `name` names, if it names one.
    pub fn from_name(name: &str) -> (r: Option<Emotion>)
        ensures
            r == spec_emotion(name@),
    {
        if str_eq(name, "joy") {
            Some(Emotion::Joy)
        } else if str_eq(name, "trust") {
            Some(Emotion::Trust)
        } else if str_eq(name, "fear") {
            Some(Emotion::Fear)
        } else if str_eq(name, "surprise") {
            Some(Emotion::Surprise)
        } else if str_eq(name, "sadness") {
            Some(Emotion::Sadness)
        } else if str_eq(name, "disgust") {
            Some(Emotion::Disgust)
        } else if str_eq(name, "anger") {
            Some(Emotion::Anger)
        } else if str_eq(name, "anticipation") {
            Some(Emotion::Anticipation)
        } else {
            None
        }
    }
}

/// The emotion whose name is `name`, if any.
pub open spec fn spec_emotion(name: Seq<char>) -> Option<Emotion> {
    if name == "joy"@ {
        Some(Emotion::Joy)
    } else if name == "trust"@ {
        Some(Emotion::Trust)
    } else if name == "fear"@ {
        Some(Emotion::Fear)
    } else if name == "surprise"@ {
        Some(Emotion::Surprise)
    } else if name == "sadness"@ {
        Some(Emotion::Sadness)
    } else if name == "disgust"@ {
        Some(Emotion::Disgust)
    } else if name == "anger"@ {
        Some(Emotion::Anger)
    } else if name == "anticipation"@ {
        Some(Emotion::Anticipation)
    } else {
        None
    }
}

/// The name of the emotion linked as opposite to the emotion named `name`, if
/// `name` names an emotion: the partner in the table of opposite pairs, looked up
/// from either side.
pub fn opposite_name(name: &str) -> (r: Option<&'static str>)
    ensures
        r is Some <==> spec_emotion(name@) is Some,
        r matches Some(o) ==> o@ == spec_emotion(name@)->0.spec_opposite().spec_name(),
{
    match Emotion::from_name(name) {
        Some(e) => Some(e.opposite().name()),
        None => None,
    }
}

/// Opposition is symmetric: the opposite of an emotion's opposite is the emotion
/// itself, and no emotion is its own opposite.
pub proof fn lemma_opposite_involution(e: Emotion)
    ensures
        e.spec_opposite().spec_opposite() == e,
        e.spec_opposite() != e,
{
}

/// Each emotion's name looks up that emotion.
pub proof fn lemma_name_round_trip(e: Emotion)
    ensures
        spec_emotion(e.spec_name()) == Some(e),
{
    reveal_strlit("joy");
    reveal_strlit("trust");
    reveal_strlit("fear");
    reveal_strlit("surprise");
    reveal_strlit("sadness");
    reveal_strlit("disgust");
    reveal_strlit("anger");
    reveal_strlit("anticipation");
    assert("joy"@.len() == 3);
    assert("trust"@.len() == 5);
    assert("fear"@.len() == 4);
    assert("surprise"@.len() == 8);
    assert("sadness"@.len() == 7);
    assert("disgust"@.len() == 7);
    assert("anger"@.len() == 5);
    assert("anticipation"@.len() == 12);
    assert("trust"@[0] != "anger"@[0]);
    assert("sadness"@[0] != "disgust"@[0]);
}

/// The names of the anchor table, in its order.
pub open spec fn anchor_names() -> Seq<Seq<char>> {
    seq!["joy"@, "trust"@, "fear"@, "surprise"@, "sadness"@, "disgust"@, "anger"@, "anticipation"@]
}

/// The table of opposite pairs, by name.
pub open spec fn opposite_pairs() -> Seq<(Seq<char>, Seq<char>)> {
    seq![("joy"@, "sadness"@), ("trust"@, "disgust"@), ("fear"@, "anger"@), ("surprise"@, "anticipation"@)]
}

proof fn lemma_names_distinct()
    ensures
        forall|i: int, j: int| 0 <= i < 8 && 0 <= j < 8 && i != j ==> anchor_names()[i] != anchor_names()[j],
{
    reveal_strlit("joy");
    reveal_strlit("trust");
    reveal_strlit("fear");
    reveal_strlit("surprise");
    reveal_strlit("sadness");
    reveal_strlit("disgust");
    reveal_strlit("anger");
    reveal_strlit("anticipation");
    assert("joy"@.len() == 3);
    assert("trust"@.len() == 5);
    assert("fear"@.len() == 4);
    assert("surprise"@.len() == 8);
    assert("sadness"@.len() == 7);
    assert("disgust"@.len() == 7);
    assert("anger"@.len() == 5);
    assert("anticipation"@.len() == 12);
    assert("trust"@[0] != "anger"@[0]);
    assert("sadness"@[0] != "disgust"@[0]);
}

/// Each emotion bears the name at its own position of the anchor table, and each
/// name of the table looks up the emotion at that position.
pub proof fn lemma_names_in_anchor_order(e: Emotion, i: int)
    requires
        0 <= i < EMOTION_COUNT,
    ensures
        0 <= e.spec_index() < EMOTION_COUNT,
        e.spec_name() == anchor_names()[e.spec_index()],
        spec_emotion(anchor_names()[i]) matches Some(f) && f.spec_index() == i,
{
    lemma_names_distinct();
    lemma_name_round_trip(e);
    let names = anchor_names();
    assert(names[0] == "joy"@);
    assert(names[1] == "trust"@);
    assert(names[2] == "fear"@);
    assert(names[3] == "surprise"@);
    assert(names[4] == "sadness"@);
    assert(names[5] == "disgust"@);
    assert(names[6] == "anger"@);
    assert(names[7] == "anticipation"@);
    lemma_name_round_trip(Emotion::Joy);
    lemma_name_round_trip(Emotion::Trust);
    lemma_name_round_trip(Emotion::Fear);
    lemma_name_round_trip(Emotion::Surprise);
    lemma_name_round_trip(Emotion::Sadness);
    lemma_name_round_trip(Emotion::Disgust);
    lemma_name_round_trip(Emotion::Anger);
    lemma_name_round_trip(Emotion::Anticipation);
}

/// The opposite of the emotion named first in a pair of the table of opposites is the
/// emotion named second, and the other way round.
pub proof fn lemma_opposites_by_name(k: int)
    requires
        0 <= k < 4,
    ensures
        spec_emotion(opposite_pairs()[k].0) is Some,
        spec_emotion(opposite_pairs()[k].1) is Some,
        spec_emotion(opposite_pairs()[k].0)->0.spec_opposite() == spec_emotion(opposite_pairs()[k].1)->0,
        spec_emotion(opposite_pairs()[k].1)->0.spec_opposite() == spec_emotion(opposite_pairs()[k].0)->0,
{
    lemma_name_round_trip(Emotion::Joy);
    lemma_name_round_trip(Emotion::Trust);
    lemma_name_round_trip(Emotion::Fear);
    lemma_name_round_trip(Emotion::Surprise);
    lemma_name_round_trip(Emotion::Sadness);
    lemma_name_round_trip(Emotion::Disgust);
    lemma_name_round_trip(Emotion::Anger);
    lemma_name_round_trip(Emotion::Anticipation);
    let t = opposite_pairs();
    assert(t[0] == ("joy"@, "sadness"@));
    assert(t[1] == ("trust"@, "disgust"@));
    assert(t[2] == ("fear"@, "anger"@));
    assert(t[3] == ("surprise"@, "anticipation"@));
}

} // verus!
