use emotion_core::prompt::{format_emotion_prompt, format_timestamp, PromptSections, RuminationLine};

#[test]
fn test_format_timestamp() {
    assert_eq!(format_timestamp(1_774_033_200_000), "19:00");
    assert_eq!(format_timestamp(1_774_067_100_000), "04:25");
    assert_eq!(format_timestamp(0), "00:00");
    assert_eq!(format_timestamp(999), "00:00");
}

#[test]
fn test_format_timestamp_before_epoch() {
    assert_eq!(format_timestamp(-1), "00:00");
    assert_eq!(format_timestamp(-18_420_000), "-5:-7");
    assert_eq!(format_timestamp(-56_821_000), "-15:-47");
}

fn sections() -> PromptSections {
    PromptSections {
        dimensions: Vec::new(),
        tone: "neutral".to_string(),
        time_phase: "daytime".to_string(),
        plutchik_label: "joy".to_string(),
        plutchik_confidence: "0.42".to_string(),
        ruminations: Vec::new(),
        memories: Vec::new(),
        stimuli: Vec::new(),
    }
}

#[test]
fn test_prompt_minimal() {
    let xml = format_emotion_prompt(&sections());
    assert_eq!(
        xml,
        "<emotion_state>\n  <dimensions>\n    all dimensions near baseline\n  </dimensions>\n  <tone>neutral</tone>\n  <time_phase>daytime</time_phase>\n  <plutchik label=\"joy\" confidence=\"0.42\"/>\n</emotion_state>"
    );
}

#[test]
fn test_prompt_all_blocks() {
    let mut p = sections();
    p.dimensions = vec!["valence: elevated (0.52)".to_string(), "arousal: lowered (-0.30)".to_string()];
    p.ruminations = vec![RuminationLine { source_event: "anger".to_string(), remaining_rounds: 2 }];
    p.memories = vec!["19:00: joy (salience: 0.46, strength: 1.00)".to_string()];
    p.stimuli = vec![
        "19:00: Experienced joy (V:+0.40, A:+0.20, D:+0.10)".to_string(),
        "18:00: Experienced anger (V:-0.50, A:+0.60, D:+0.30)".to_string(),
    ];
    let xml = format_emotion_prompt(&p);
    assert!(xml.starts_with("<emotion_state>"));
    assert!(xml.ends_with("</emotion_state>"));
    assert!(xml.contains("<dimensions>\n    valence: elevated (0.52), arousal: lowered (-0.30)\n  </dimensions>"));
    assert!(xml.contains("<tone>neutral</tone>"));
    assert!(xml.contains("<time_phase>daytime</time_phase>"));
    assert!(xml.contains("label=\"joy\" confidence=\"0.42\""));
    assert!(xml.contains("  <rumination active=\"1\">\n    Processing residual anger (2 rounds remaining)\n  </rumination>\n"));
    assert!(xml.contains("  <memories recent=\"1\">\n    19:00: joy (salience: 0.46, strength: 1.00)\n  </memories>\n"));
    assert!(xml.contains("  <stimuli recent=\"2\">\n    19:00: Experienced joy"));
}

#[test]
fn test_prompt_large_round_count() {
    let mut p = sections();
    p.ruminations = vec![RuminationLine { source_event: "x".to_string(), remaining_rounds: 4_000_000_000 }];
    let xml = format_emotion_prompt(&p);
    assert!(xml.contains("(4000000000 rounds remaining)"));
}
