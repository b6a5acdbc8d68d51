use emotion_core::decay::{split_segments, DecaySegment};
use emotion_core::decay_schedule::{
    default_day_start, default_night_start, default_timezone, DecayMultiplier, DecaySchedule,
};

// 2026-03-21 20:20 UTC, 04:20 at UTC+8.
const LATE_UTC_MS: i64 = 1_774_124_400_000;
// 2026-03-21 04:00 UTC, 12:00 at UTC+8.
const MIDDAY_UTC_MS: i64 = 1_774_065_600_000;

#[test]
fn test_default_schedule() {
    let s = DecaySchedule::default();
    assert_eq!(s.day_start_hour, 8);
    assert_eq!(s.night_start_hour, 0);
    assert_eq!(s.timezone_offset, 8);
}

#[test]
fn test_default_hour_functions() {
    assert_eq!(default_day_start(), 8);
    assert_eq!(default_night_start(), 0);
    assert_eq!(default_timezone(), 8);
}

#[test]
fn test_local_hour_utc8() {
    let s = DecaySchedule::default();
    let ts = 1_774_065_600_000;
    assert_eq!(s.local_hour(ts), 12);
}

#[test]
fn test_local_hour_before_epoch() {
    let s = DecaySchedule::default();
    // Rust's division truncates toward zero: the hour before the epoch counts as hour 0.
    assert_eq!(s.local_hour(-1), 8);
    assert_eq!(s.local_hour(-3_600_000), 7);
    let utc = DecaySchedule { timezone_offset: -5, ..DecaySchedule::default() };
    assert_eq!(utc.local_hour(0), 19);
}

#[test]
fn test_local_hour_repeats_daily() {
    let s = DecaySchedule::default();
    let ts = 1_774_051_200_123;
    assert_eq!(s.local_hour(ts), s.local_hour(ts + 86_400_000));
    assert_eq!(s.is_night(ts + 3 * 3_600_000), s.is_night(ts + 3 * 3_600_000 + 86_400_000));
}

#[test]
fn test_is_night_3am_local() {
    let s = DecaySchedule::default();
    let ts = 1_774_033_200_000;
    assert!(s.is_night(ts), "03:00 local should be night");
}

#[test]
fn test_is_day_noon_local() {
    let s = DecaySchedule::default();
    assert!(!s.is_night(MIDDAY_UTC_MS), "12:00 local should be day");
}

#[test]
fn test_is_night_7am_local() {
    let s = DecaySchedule::default();
    assert!(s.is_night(LATE_UTC_MS), "07:00 local should be night");
}

#[test]
fn test_is_day_8am_local() {
    let s = DecaySchedule::default();
    let ts = 1_774_051_200_000;
    assert!(!s.is_night(ts), "08:00 local should be day");
}

#[test]
fn test_multiplier_for_arousal_night() {
    let s = DecaySchedule::default();
    let ts = 1_774_033_200_000;
    assert_eq!(s.multiplier_for("arousal", ts), DecayMultiplier::NightArousal);
}

#[test]
fn test_multiplier_for_arousal_day() {
    let s = DecaySchedule::default();
    assert_eq!(s.multiplier_for("arousal", MIDDAY_UTC_MS), DecayMultiplier::Unit);
}

#[test]
fn test_multiplier_for_valence_night() {
    let s = DecaySchedule::default();
    let ts = 1_774_033_200_000;
    assert_eq!(s.multiplier_for("valence", ts), DecayMultiplier::NightValence);
}

#[test]
fn test_multiplier_for_dominance_night() {
    let s = DecaySchedule::default();
    let ts = 1_774_033_200_000;
    assert_eq!(s.multiplier_for("dominance", ts), DecayMultiplier::NightDominance);
}

#[test]
fn test_multiplier_short_names_and_unknown() {
    let s = DecaySchedule::default();
    let night = 1_774_033_200_000;
    assert_eq!(s.multiplier_for("v", night), DecayMultiplier::NightValence);
    assert_eq!(s.multiplier_for("a", night), DecayMultiplier::NightArousal);
    assert_eq!(s.multiplier_for("d", night), DecayMultiplier::NightDominance);
    assert_eq!(s.multiplier_for("joy", night), DecayMultiplier::Unit);
    assert_eq!(s.multiplier_for("Valence", night), DecayMultiplier::Unit);
    assert_eq!(s.multiplier_for("v", MIDDAY_UTC_MS), DecayMultiplier::Unit);
}

#[test]
fn test_time_phase_label_sleeping() {
    let s = DecaySchedule::default();
    let ts = 1_774_033_200_000;
    assert_eq!(s.time_phase_label(ts), "sleeping");
}

#[test]
fn test_time_phase_label_daytime() {
    let s = DecaySchedule::default();
    assert_eq!(s.time_phase_label(MIDDAY_UTC_MS), "daytime");
}

#[test]
fn test_is_night_cross_midnight_config() {
    let s = DecaySchedule {
        night_start_hour: 22,
        day_start_hour: 6,
        ..DecaySchedule::default()
    };
    let ts_night = 1_774_101_600_000;
    assert!(s.is_night(ts_night), "00:00 local should be night");

    let ts_day = 1_774_051_200_000;
    assert!(!s.is_night(ts_day), "08:00 local should be day");

    let ts_early = 1_774_116_000_000;
    assert!(s.is_night(ts_early), "04:00 local should be night");
}

#[test]
fn test_equal_start_hours_make_the_whole_day_night() {
    // A night start equal to the day start counts as crossing midnight.
    let s = DecaySchedule { night_start_hour: 8, day_start_hour: 8, timezone_offset: 0 };
    for h in 0..24 {
        assert!(s.is_night(h * 3_600_000));
    }
}

#[test]
fn test_segments_empty_when_no_time_passed() {
    let s = DecaySchedule::default();
    assert!(split_segments(&s, "v", 1_000, 1_000).is_empty());
    assert!(split_segments(&s, "v", 2_000, 1_000).is_empty());
}

#[test]
fn test_segments_pure_daytime() {
    let s = DecaySchedule::default();
    let last = 1_774_084_800_000;
    let segs = split_segments(&s, "v", last, last + 7_200_000);
    assert_eq!(segs, vec![DecaySegment { duration_ms: 7_200_000, multiplier: DecayMultiplier::Unit }]);
}

#[test]
fn test_segments_pure_night_arousal() {
    let s = DecaySchedule::default();
    let last = 1_774_033_200_000;
    let segs = split_segments(&s, "arousal", last, last + 10_800_000);
    assert_eq!(
        segs,
        vec![DecaySegment { duration_ms: 10_800_000, multiplier: DecayMultiplier::NightArousal }]
    );
}

#[test]
fn test_segments_cross_into_night_and_out() {
    let s = DecaySchedule::default();
    // Steps start at 19:20, 20:20, ... local: five by day, seven by night.
    let last = 1_774_092_000_000;
    let segs = split_segments(&s, "arousal", last, last + 43_200_000);
    assert_eq!(
        segs,
        vec![
            DecaySegment { duration_ms: 5 * 3_600_000, multiplier: DecayMultiplier::Unit },
            DecaySegment { duration_ms: 7 * 3_600_000, multiplier: DecayMultiplier::NightArousal },
        ]
    );
    let total: i64 = segs.iter().map(|g| g.duration_ms).sum();
    assert_eq!(total, 43_200_000);
}

#[test]
fn test_segments_partial_last_step() {
    let s = DecaySchedule::default();
    // 07:00 local plus 90 minutes: one night step, then half an hour of day.
    let last = 1_774_047_600_000;
    let segs = split_segments(&s, "d", last, last + 5_400_000);
    assert_eq!(
        segs,
        vec![
            DecaySegment { duration_ms: 3_600_000, multiplier: DecayMultiplier::NightDominance },
            DecaySegment { duration_ms: 1_800_000, multiplier: DecayMultiplier::Unit },
        ]
    );
}

#[test]
fn test_segments_short_interval_single() {
    let s = DecaySchedule::default();
    let last = 1_774_033_200_000;
    let segs = split_segments(&s, "valence", last, last + 60_000);
    assert_eq!(segs, vec![DecaySegment { duration_ms: 60_000, multiplier: DecayMultiplier::NightValence }]);
}

#[test]
fn test_segments_unknown_dimension_one_run() {
    let s = DecaySchedule::default();
    let last = 1_774_092_000_000;
    let segs = split_segments(&s, "x", last, last + 43_200_000);
    assert_eq!(segs, vec![DecaySegment { duration_ms: 43_200_000, multiplier: DecayMultiplier::Unit }]);
}
