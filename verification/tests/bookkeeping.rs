use std::collections::VecDeque;

use emotion_core::config::{first_match, match_behavior, BehaviorOutput};
use emotion_core::history::{push_memory, push_stimulus, recent_first, MEMORY_CAPACITY, STIMULI_CAPACITY};
use emotion_core::prompt::STIMULI_IN_PROMPT;
use emotion_core::multi_agent::{agent_id_from_file_name, has_parent_reference};
use emotion_core::persistence::{should_save, tmp_path};
use emotion_core::rumination::{add_rumination, RoundCounter, DEFAULT_MAX_ROUNDS, MAX_ACTIVE_ENTRIES};

#[test]
fn test_max_active_entries() {
    let mut entries = Vec::new();
    for i in 0..MAX_ACTIVE_ENTRIES + 3 {
        add_rumination(&mut entries, format!("event_{i}"));
    }
    assert_eq!(entries.len(), MAX_ACTIVE_ENTRIES);
    assert_eq!(entries[0], "event_3");
    assert_eq!(entries[MAX_ACTIVE_ENTRIES - 1], "event_10");
}

#[test]
fn test_add_rumination_overfull_list_drops_one() {
    let mut entries: Vec<u32> = (0..10).collect();
    add_rumination(&mut entries, 99);
    assert_eq!(entries, vec![1, 2, 3, 4, 5, 6, 7, 8, 9, 99]);
}

#[test]
fn test_round_counter_last_round() {
    let mut c = RoundCounter { remaining_rounds: 1, total_rounds: 5 };
    assert_eq!(c.advance(), Some(4));
    assert!(!c.is_active());
    assert_eq!(c.advance(), None);
    assert_eq!(c, RoundCounter { remaining_rounds: 0, total_rounds: 5 });
}

#[test]
fn test_round_counter_first_round() {
    let mut c = RoundCounter::new();
    // The first round applies the full delta (decay factor to the power 0).
    assert_eq!(c.advance(), Some(0));
    assert!(c.is_active());
    assert_eq!(c.remaining_rounds, DEFAULT_MAX_ROUNDS - 1);
}

#[test]
fn test_round_counter_full_life() {
    let mut c = RoundCounter::new();
    assert_eq!(c.elapsed_rounds(), 0);
    assert_eq!(c.advance(), Some(0));
    assert_eq!(c.advance(), Some(1));
    assert_eq!(c.elapsed_rounds(), 2);
    assert_eq!(c.advance(), Some(2));
    assert_eq!(c.advance(), Some(3));
    assert_eq!(c.advance(), Some(4));
    assert!(!c.is_active());
    assert_eq!(c.advance(), None);
}

#[test]
fn test_default_max_rounds() {
    assert_eq!(DEFAULT_MAX_ROUNDS, 5);
    assert_eq!(RoundCounter::new(), RoundCounter { remaining_rounds: 5, total_rounds: 5 });
}

#[test]
fn test_recent_stimuli_newest_first() {
    let h: VecDeque<u32> = (1..=6).collect();
    let r: Vec<u32> = recent_first(&h, STIMULI_IN_PROMPT).into_iter().copied().collect();
    assert_eq!(r, vec![6, 5, 4]);
    let short: VecDeque<u32> = (1..=2).collect();
    let r2: Vec<u32> = recent_first(&short, STIMULI_IN_PROMPT).into_iter().copied().collect();
    assert_eq!(r2, vec![2, 1]);
    assert!(recent_first(&VecDeque::<u32>::new(), STIMULI_IN_PROMPT).is_empty());
    assert!(recent_first(&h, 0).is_empty());
}

#[test]
fn test_memories_keep_most_recent() {
    let mut mems: Vec<usize> = Vec::new();
    for i in 0..MEMORY_CAPACITY + 5 {
        push_memory(&mut mems, i);
    }
    assert_eq!(mems.len(), MEMORY_CAPACITY);
    assert_eq!(mems[0], 5);
    assert_eq!(*mems.last().unwrap(), MEMORY_CAPACITY + 4);

    let mut big: Vec<usize> = (0..130).collect();
    push_memory(&mut big, 999);
    assert_eq!(big.len(), MEMORY_CAPACITY);
    assert_eq!(big[0], 31);
    assert_eq!(big[MEMORY_CAPACITY - 1], 999);
}

#[test]
fn test_stimuli_keep_most_recent() {
    let mut h: VecDeque<usize> = VecDeque::new();
    for i in 0..STIMULI_CAPACITY + 2 {
        push_stimulus(&mut h, i);
    }
    assert_eq!(h.len(), STIMULI_CAPACITY);
    assert_eq!(h[0], 2);
    assert_eq!(h[STIMULI_CAPACITY - 1], STIMULI_CAPACITY + 1);
}

fn output(tone: &str, speed: &str, description: &str) -> BehaviorOutput {
    BehaviorOutput { tone: tone.to_string(), speed: speed.to_string(), description: description.to_string() }
}

fn condition_holds(v_min: f32, a_min: f32, v: f32, a: f32) -> bool {
    v >= v_min && a >= a_min
}

#[test]
fn test_match_behavior_returns_matched_rule() {
    let rules = vec![output("excited", "fast", "High energy")];
    let default = output("neutral", "moderate", "Stable");

    let hits = vec![condition_holds(0.3, 0.5, 0.5, 0.6)];
    let result = match_behavior(&rules, &hits, &default);
    assert_eq!(result.tone, "excited");
    assert_eq!(result.speed, "fast");

    let hits2 = vec![condition_holds(0.3, 0.5, 0.0, 0.1)];
    let result2 = match_behavior(&rules, &hits2, &default);
    assert_eq!(result2.tone, "neutral");
}

#[test]
fn test_first_match_picks_earliest() {
    assert_eq!(first_match(&vec![false, true, true]), Some(1));
    assert_eq!(first_match(&vec![false, false]), None);
    assert_eq!(first_match(&Vec::new()), None);
    let rules = vec![output("a", "s", "x"), output("b", "s", "y"), output("c", "s", "z")];
    let d = output("d", "s", "w");
    assert_eq!(match_behavior(&rules, &vec![false, true, true], &d).tone, "b");
}

#[test]
fn test_agent_ids() {
    assert_eq!(agent_id_from_file_name("alice_state.json"), Some("alice".to_string()));
    assert_eq!(agent_id_from_file_name("bob_state.json_state.json"), Some("bob_state.json".to_string()));
    assert_eq!(agent_id_from_file_name("_state.json"), Some(String::new()));
    assert_eq!(agent_id_from_file_name("alice.json"), None);
    assert_eq!(agent_id_from_file_name("state.json"), None);
    assert_eq!(agent_id_from_file_name("émotion_state.json"), Some("émotion".to_string()));
}

#[test]
fn test_parent_reference() {
    assert!(has_parent_reference("../state"));
    assert!(has_parent_reference("a/../b"));
    assert!(!has_parent_reference("state/agents"));
    assert!(!has_parent_reference("."));
    assert!(!has_parent_reference("./a/.b"));
}

#[test]
fn test_tmp_path() {
    assert_eq!(tmp_path("state/alice.json"), "state/alice.json.tmp");
}

#[test]
fn test_should_save() {
    assert!(!should_save(false, 10_000, 0, 1_000));
    assert!(!should_save(true, 500, 0, 1_000));
    assert!(should_save(true, 1_000, 0, 1_000));
    assert!(should_save(true, 5_000, 0, 1_000));
}
