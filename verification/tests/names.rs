use emotion_core::dimension::{dimensions_named, unknown_dimension_message, Dimension, DimensionSet};
use emotion_core::personality::{unknown_trait_message, PersonalityTrait};
use emotion_core::plutchik::{opposite_name, Emotion, EMOTION_COUNT};

const ALL: [Emotion; 8] = [
    Emotion::Joy,
    Emotion::Trust,
    Emotion::Fear,
    Emotion::Surprise,
    Emotion::Sadness,
    Emotion::Disgust,
    Emotion::Anger,
    Emotion::Anticipation,
];

#[test]
fn test_dimension_names() {
    assert_eq!(Dimension::from_name("v"), Some(Dimension::Valence));
    assert_eq!(Dimension::from_name("valence"), Some(Dimension::Valence));
    assert_eq!(Dimension::from_name("a"), Some(Dimension::Arousal));
    assert_eq!(Dimension::from_name("arousal"), Some(Dimension::Arousal));
    assert_eq!(Dimension::from_name("d"), Some(Dimension::Dominance));
    assert_eq!(Dimension::from_name("dominance"), Some(Dimension::Dominance));
    assert_eq!(Dimension::from_name("x"), None);
    assert_eq!(Dimension::from_name(""), None);
    assert_eq!(Dimension::from_name("valence "), None);
}

#[test]
fn test_unknown_dimension_message() {
    assert_eq!(unknown_dimension_message("x"), "Unknown dimension: x");
}

#[test]
fn test_dimensions_named() {
    let names = vec!["valence".to_string(), "d".to_string(), "bogus".to_string(), "v".to_string()];
    assert_eq!(
        dimensions_named(&names),
        DimensionSet { valence: true, arousal: false, dominance: true }
    );
    assert_eq!(
        dimensions_named(&Vec::new()),
        DimensionSet { valence: false, arousal: false, dominance: false }
    );
}

#[test]
fn test_trait_name_unknown() {
    assert_eq!(PersonalityTrait::from_name("unknown"), None);
    assert_eq!(unknown_trait_message("unknown"), "Unknown personality trait: unknown");
}

#[test]
fn test_trait_names() {
    assert_eq!(PersonalityTrait::from_name("openness"), Some(PersonalityTrait::Openness));
    assert_eq!(PersonalityTrait::from_name("conscientiousness"), Some(PersonalityTrait::Conscientiousness));
    assert_eq!(PersonalityTrait::from_name("extraversion"), Some(PersonalityTrait::Extraversion));
    assert_eq!(PersonalityTrait::from_name("agreeableness"), Some(PersonalityTrait::Agreeableness));
    assert_eq!(PersonalityTrait::from_name("neuroticism"), Some(PersonalityTrait::Neuroticism));
    assert_eq!(PersonalityTrait::from_name("Openness"), None);
}

#[test]
fn test_emotion_names_round_trip() {
    for (i, e) in ALL.iter().enumerate() {
        assert_eq!(Emotion::from_name(e.name()), Some(*e));
        assert_eq!(e.index(), i);
        assert_eq!(Emotion::from_index(i), Some(*e));
    }
    assert_eq!(Emotion::from_index(EMOTION_COUNT), None);
    assert_eq!(Emotion::from_name("neutral"), None);
}

#[test]
fn test_opposite_emotions() {
    assert_eq!(Emotion::Joy.opposite(), Emotion::Sadness);
    assert_eq!(Emotion::Sadness.opposite(), Emotion::Joy);
    assert_eq!(Emotion::Trust.opposite(), Emotion::Disgust);
    assert_eq!(Emotion::Fear.opposite(), Emotion::Anger);
    assert_eq!(Emotion::Surprise.opposite(), Emotion::Anticipation);
    assert_eq!(opposite_name("joy"), Some("sadness"));
    assert_eq!(opposite_name("sadness"), Some("joy"));
    assert_eq!(opposite_name("anticipation"), Some("surprise"));
    assert_eq!(opposite_name("calm"), None);
}

#[test]
fn test_opposite_is_involution() {
    for e in ALL {
        assert_eq!(e.opposite().opposite(), e);
        assert_ne!(e.opposite(), e);
    }
}
