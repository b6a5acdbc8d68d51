//! Day/night phase of a timestamp.
use vstd::prelude::*;
use crate::dimension::{Dimension, spec_dimension};

verus! {

/// Hour at which the day phase starts when a schedule gives none.
pub fn default_day_start() -> (h: u8)
    ensures
        h == 8,
{
    8
}

/// Hour at which the night phase starts when a schedule gives none.
pub fn default_night_start() -> (h: u8)
    ensures
        h == 0,
{
    0
}

/// Time zone offset, in hours from UTC, when a schedule gives none.
pub fn default_timezone() -> (tz: i8)
    ensures
        tz == 8,
{
    8
}

/// Milliseconds in one hour.
pub const MS_PER_HOUR: i64 = 3_600_000;

/// Quotient of `a / b` rounded toward zero, as Rust's `/` on signed integers computes it.
pub open spec fn trunc_div(a: int, b: int) -> int {
    if a >= 0 {
        a / b
    } else {
        -((-a) / b)
    }
}

/// Remainder of `a / b` with the sign of `a`, as Rust's `%` on signed integers computes it.
pub open spec fn trunc_rem(a: int, b: int) -> int {
    a - b * trunc_div(a, b)
}

/// Hour of the day (0..24) at `timestamp_ms` in a zone `tz` hours from UTC.
pub open spec fn spec_local_hour(tz: int, timestamp_ms: int) -> int {
    (trunc_rem(trunc_div(timestamp_ms, MS_PER_HOUR as int), 24) + tz) % 24
}

/// The hours of a day/night schedule. The decay multipliers that a schedule also
/// carries are floating-point values and live with the engine that applies them.
pub struct DecaySchedule {
    /// Hour at which the day starts.
    pub day_start_hour: u8,
    /// Hour at which the night starts.
    pub night_start_hour: u8,
    /// Offset of the local zone from UTC, in hours.
    pub timezone_offset: i8,
}

impl DecaySchedule {
    /// Whether `hour` falls in the night: before the day start, and, where the night
    /// starts at or after the day start (a night that crosses midnight), also from the
    /// night start on.
    pub open spec fn night_at_hour(self, hour: int) -> bool {
        if self.night_start_hour < self.day_start_hour {
            hour < self.day_start_hour
        } else {
            hour >= self.night_start_hour || hour < self.day_start_hour
        }
    }

    /// Local hour at `timestamp_ms` under this schedule's time zone.
    pub open spec fn spec_local_hour(self, timestamp_ms: int) -> int {
        spec_local_hour(self.timezone_offset as int, timestamp_ms)
    }

    /// Whether `timestamp_ms` falls in the night under this schedule.
    pub open spec fn spec_is_night(self, timestamp_ms: int) -> bool {
        self.night_at_hour(self.spec_local_hour(timestamp_ms))
    }

    /// Local hour (0 to 23) at `timestamp_ms`.
    pub fn local_hour(&self, timestamp_ms: i64) -> (h: u8)
        ensures
            h == self.spec_local_hour(timestamp_ms as int),
            h < 24,
    {
        let utc_hours = (timestamp_ms / MS_PER_HOUR) % 24;
        let shifted = utc_hours + self.timezone_offset as i64;
        let r = shifted % 24;
        let local = if r < 0 { r + 24 } else { r };
        local as u8
    }

    /// Whether `timestamp_ms` falls in the night. A night that starts at or after the
    /// day start crosses midnight (for example 22 to 6).
    pub fn is_night(&self, timestamp_ms: i64) -> (r: bool)
        ensures
            r == self.spec_is_night(timestamp_ms as int),
    {
        let hour = self.local_hour(timestamp_ms);
        if self.night_start_hour < self.day_start_hour {
            hour < self.day_start_hour
        } else {
            hour >= self.night_start_hour || hour < self.day_start_hour
        }
    }

    /// `sleeping` at night, `daytime` otherwise.
    pub fn time_phase_label(&self, timestamp_ms: i64) -> (r: &'static str)
        ensures
            r@ == (if self.spec_is_night(timestamp_ms as int) {
                "sleeping"@
            } else {
                "daytime"@
            }),
    {
        if self.is_night(timestamp_ms) {
            "sleeping"
        } else {
            "daytime"
        }
    }

    /// Which decay multiplier applies to `dimension` at `timestamp_ms`: by day the
    /// unit multiplier for every dimension; at night the night multiplier of the named
    /// dimension, and the unit multiplier for a name that names no dimension.
    pub fn multiplier_for(&self, dimension: &str, timestamp_ms: i64) -> (r: DecayMultiplier)
        ensures
            r == self.spec_multiplier_for(dimension@, timestamp_ms as int),
    {
        if !self.is_night(timestamp_ms) {
            return DecayMultiplier::Unit;
        }
        match Dimension::from_name(dimension) {
            Some(Dimension::Valence) => DecayMultiplier::NightValence,
            Some(Dimension::Arousal) => DecayMultiplier::NightArousal,
            Some(Dimension::Dominance) => DecayMultiplier::NightDominance,
            None => DecayMultiplier::Unit,
        }
    }

    /// The multiplier that `multiplier_for` selects.
    pub open spec fn spec_multiplier_for(self, dimension: Seq<char>, timestamp_ms: int) -> DecayMultiplier {
        if !self.spec_is_night(timestamp_ms) {
            DecayMultiplier::Unit
        } else {
            match spec_dimension(dimension) {
                Some(Dimension::Valence) => DecayMultiplier::NightValence,
                Some(Dimension::Arousal) => DecayMultiplier::NightArousal,
                Some(Dimension::Dominance) => DecayMultiplier::NightDominance,
                None => DecayMultiplier::Unit,
            }
        }
    }
}

impl Default for DecaySchedule {
    /// Day from 8, night from 0, UTC+8.
    fn default() -> (s: Self)
        ensures
            s.day_start_hour == 8,
            s.night_start_hour == 0,
            s.timezone_offset == 8,
    {
        DecaySchedule { day_start_hour: 8, night_start_hour: 0, timezone_offset: 8 }
    }
}

/// The decay multiplier that a schedule selects: the unit multiplier (1), or the
/// night multiplier of one dimension.
#[derive(PartialEq, Eq, Structural, Clone, Copy, Debug)]
pub enum DecayMultiplier {
    Unit,
    NightValence,
    NightArousal,
    NightDominance,
}

/// Milliseconds in one day.
pub const MS_PER_DAY: i64 = 86_400_000;

/// From the epoch on, the local hour repeats every day.
pub proof fn lemma_local_hour_daily(tz: int, t: int)
    requires
        t >= 0,
    ensures
        spec_local_hour(tz, t + MS_PER_DAY as int) == spec_local_hour(tz, t),
{
    let h = MS_PER_HOUR as int;
    let q = t / h;
    let r = t % h;
    vstd::arithmetic::div_mod::lemma_fundamental_div_mod(t, h);
    assert(t + MS_PER_DAY as int == (q + 24) * h + r) by (nonlinear_arith)
        requires
            t == h * q + r,
            h == 3_600_000,
    ;
    vstd::arithmetic::div_mod::lemma_fundamental_div_mod_converse_div(t + MS_PER_DAY as int, h, q + 24, r);
    assert(q >= 0);
    let q2 = q / 24;
    let r2 = q % 24;
    vstd::arithmetic::div_mod::lemma_fundamental_div_mod(q, 24);
    vstd::arithmetic::div_mod::lemma_fundamental_div_mod_converse_div(q + 24, 24, q2 + 1, r2);
}

/// Under the default schedule the night is exactly the local hours 0 to 7.
pub proof fn lemma_default_night_hours(t: int)
    ensures
        ({
            let s = DecaySchedule { day_start_hour: 8, night_start_hour: 0, timezone_offset: 8 };
            s.spec_is_night(t) <==> s.spec_local_hour(t) < 8
        }),
{
}

/// By day every dimension decays at the unit multiplier.
pub proof fn lemma_day_multiplier_is_unit(s: DecaySchedule, dimension: Seq<char>, t: int)
    requires
        !s.spec_is_night(t),
    ensures
        s.spec_multiplier_for(dimension, t) == DecayMultiplier::Unit,
{
}

/// The night by the local hour: where the night starts before the day, it is the hours
/// before the day start; otherwise it crosses midnight and is the hours from the night
/// start on together with the hours before the day start. In particular the day-start
/// hour itself is day whenever the night starts later.
pub proof fn lemma_night_by_hour(s: DecaySchedule, t: int)
    ensures
        s.night_start_hour < s.day_start_hour ==> (s.spec_is_night(t) <==> s.spec_local_hour(t)
            < s.day_start_hour),
        s.night_start_hour >= s.day_start_hour ==> (s.spec_is_night(t) <==> (s.spec_local_hour(t)
            >= s.night_start_hour || s.spec_local_hour(t) < s.day_start_hour)),
        s.spec_local_hour(t) == s.day_start_hour && s.day_start_hour < s.night_start_hour
            ==> !s.spec_is_night(t),
        s.spec_local_hour(t) == s.night_start_hour && s.night_start_hour >= s.day_start_hour
            ==> s.spec_is_night(t),
{
}

/// At night each dimension decays at its own night multiplier, and a name that names
/// no dimension at the unit multiplier.
pub proof fn lemma_night_multiplier(s: DecaySchedule, dimension: Seq<char>, t: int)
    requires
        s.spec_is_night(t),
    ensures
        spec_dimension(dimension) == Some(Dimension::Valence) ==> s.spec_multiplier_for(dimension, t)
            == DecayMultiplier::NightValence,
        spec_dimension(dimension) == Some(Dimension::Arousal) ==> s.spec_multiplier_for(dimension, t)
            == DecayMultiplier::NightArousal,
        spec_dimension(dimension) == Some(Dimension::Dominance) ==> s.spec_multiplier_for(dimension, t)
            == DecayMultiplier::NightDominance,
        spec_dimension(dimension) is None ==> s.spec_multiplier_for(dimension, t) == DecayMultiplier::Unit,
{
}

/// How the local hour moves with time: within the first hour on either side of the
/// epoch it is the zone offset (mod 24); one hour later (from the epoch on) it is one
/// more, and one hour earlier (up to the epoch) one less, wrapping around midnight.
pub proof fn lemma_local_hour_steps(tz: int, t: int)
    ensures
        -MS_PER_HOUR < t < MS_PER_HOUR ==> spec_local_hour(tz, t) == tz % 24,
        t >= 0 ==> spec_local_hour(tz, t + MS_PER_HOUR) == (spec_local_hour(tz, t) + 1) % 24,
        t <= 0 ==> spec_local_hour(tz, t - MS_PER_HOUR) == (spec_local_hour(tz, t) + 23) % 24,
{
    let h = MS_PER_HOUR as int;
    if -h < t < h {
        if t >= 0 {
            assert(t / h == 0);
        } else {
            assert((-t) / h == 0);
        }
        assert(trunc_div(t, h) == 0);
        assert(trunc_rem(0, 24) == 0);
    }
    if t >= 0 {
        let q = t / h;
        vstd::arithmetic::div_mod::lemma_fundamental_div_mod(t, h);
        vstd::arithmetic::div_mod::lemma_fundamental_div_mod_converse_div(t + h, h, q + 1, t % h);
        assert(q >= 0);
        let r = q % 24;
        vstd::arithmetic::div_mod::lemma_fundamental_div_mod(q, 24);
        assert(trunc_rem(q, 24) == r);
        assert(trunc_rem(q + 1, 24) == (q + 1) % 24);
        vstd::arithmetic::div_mod::lemma_add_mod_noop(q, 1, 24);
        vstd::arithmetic::div_mod::lemma_add_mod_noop(r + 1, tz, 24);
        vstd::arithmetic::div_mod::lemma_add_mod_noop(r + tz, 1, 24);
        vstd::arithmetic::div_mod::lemma_add_mod_noop(r, tz, 24);
        assert((((q + 1) % 24) + tz) % 24 == ((r + tz) % 24 + 1) % 24) by {
            assert((q + 1) % 24 == (r + 1) % 24);
            vstd::arithmetic::div_mod::lemma_mod_twice(r + tz + 1, 24);
            vstd::arithmetic::div_mod::lemma_add_mod_noop(r + 1, tz, 24);
            assert(((r + 1) % 24 + tz) % 24 == ((r + 1) % 24 % 24 + tz % 24) % 24);
            vstd::arithmetic::div_mod::lemma_mod_twice(r + 1, 24);
            assert(((r + 1) % 24 + tz) % 24 == (r + 1 + tz) % 24);
            vstd::arithmetic::div_mod::lemma_add_mod_noop(r + tz, 1, 24);
            vstd::arithmetic::div_mod::lemma_small_mod(1, 24);
            assert((r + tz + 1) % 24 == ((r + tz) % 24 + 1) % 24);
        }
    }
    if t <= 0 {
        let u = -t;
        let q = u / h;
        vstd::arithmetic::div_mod::lemma_fundamental_div_mod(u, h);
        vstd::arithmetic::div_mod::lemma_fundamental_div_mod_converse_div(u + h, h, q + 1, u % h);
        assert(trunc_div(t, h) == -q) by {
            if t == 0 {
                assert(u / h == 0);
            }
        }
        assert(trunc_div(t - h, h) == -(q + 1));
        let r = q % 24;
        vstd::arithmetic::div_mod::lemma_fundamental_div_mod(q, 24);
        vstd::arithmetic::div_mod::lemma_fundamental_div_mod(q + 1, 24);
        assert(trunc_div(-q, 24) == -(q / 24)) by {
            if q == 0 {
                assert(0int / 24 == 0);
            }
        }
        assert(trunc_rem(-q, 24) == -r);
        assert(trunc_rem(-(q + 1), 24) == -((q + 1) % 24));
        assert((-((q + 1) % 24) + tz) % 24 == ((-r + tz) % 24 + 23) % 24) by {
            vstd::arithmetic::div_mod::lemma_add_mod_noop(q, 1, 24);
            vstd::arithmetic::div_mod::lemma_small_mod(1, 24);
            assert((q + 1) % 24 == (r + 1) % 24);
            if r == 23 {
                assert((r + 1) % 24 == 0);
                vstd::arithmetic::div_mod::lemma_mod_add_multiples_vanish(tz - 23, 24);
                vstd::arithmetic::div_mod::lemma_add_mod_noop(-r + tz, 23, 24);
                vstd::arithmetic::div_mod::lemma_mod_twice(-r + tz, 24);
                assert((-r + tz + 23) % 24 == (tz - 23 + 23 + 24 - 24) % 24);
            } else {
                assert((r + 1) % 24 == r + 1);
                vstd::arithmetic::div_mod::lemma_add_mod_noop(-r + tz, 23, 24);
                vstd::arithmetic::div_mod::lemma_mod_twice(-r + tz, 24);
                vstd::arithmetic::div_mod::lemma_small_mod(23, 24);
                vstd::arithmetic::div_mod::lemma_mod_add_multiples_vanish(-r - 1 + tz, 24);
                assert((-r + tz + 23) % 24 == (-r - 1 + tz + 24) % 24);
            }
        }
    }
}

} // verus!
