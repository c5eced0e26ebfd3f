//! The weather data model and normalizer, the condition-code
//! classifier, and the icon rasterizer.
//!
//! The raw payload mirrors the weather provider's response shape in
//! plain values; the normalizer flattens the per-day hourly points
//! into the at-most-four-point slice the forecast strip draws.
//! Temperatures are carried in tenths of a degree Celsius.

use vstd::prelude::*;

use crate::font::{bitmap_covers, glyph_paint};
use crate::framebuffer::FrameBuffer;
use crate::paint_or;

verus! {

/// A weather condition, as the provider's numeric code.
#[derive(Clone, Debug)]
pub struct Condition {
    pub code: u16,
}

/// The location block of a raw payload. `localtime_epoch` is the
/// location-local current time the normalizer filters against.
#[derive(Clone, Debug)]
pub struct Location {
    pub name: String,
    pub region: String,
    pub country: String,
    pub tz_id: String,
    pub localtime_epoch: i64,
    pub localtime: String,
}

/// The current reading of a raw payload.
#[derive(Clone, Debug)]
pub struct Current {
    pub temp_deci_c: i64,
    pub is_day: u8,
    pub condition: Condition,
}

/// One hourly forecast point.
#[derive(Clone, Debug)]
pub struct Hour {
    pub time: String,
    pub time_epoch: i64,
    pub temp_deci_c: i64,
    pub is_day: u8,
    pub chance_of_rain: u8,
    pub condition: Condition,
}

/// A day's summary block. The renderer reads nothing from it.
#[derive(Clone, Debug)]
pub struct Day {}

/// One forecast day of a raw payload, with its hourly points.
#[derive(Clone, Debug)]
pub struct ForecastDay {
    pub date: String,
    pub date_epoch: i64,
    pub day: Day,
    pub hour: Vec<Hour>,
}

/// The forecast block of a raw payload.
#[derive(Clone, Debug)]
pub struct Forecast {
    pub forecastday: Vec<ForecastDay>,
}

/// A raw weather payload, as fetched from the provider.
#[derive(Clone, Debug)]
pub struct WeatherReaponse {
    pub location: Location,
    pub current: Current,
    pub forecast: Forecast,
}

/// A normalized snapshot: the current reading and the next hourly
/// points from the reference time forward, at most four, in payload
/// order.
#[derive(Clone, Debug)]
pub struct Weather {
    pub current: Current,
    pub forecast: Vec<Hour>,
}

/// All hourly points of a run of forecast days, in order.
pub open spec fn flat_hours(days: Seq<ForecastDay>) -> Seq<Hour>
    decreases days.len(),
{
    if days.len() == 0 {
        Seq::<Hour>::empty()
    } else {
        days[0].hour@ + flat_hours(days.drop_first())
    }
}

/// The first `max` points of `s` whose timestamp is at or after
/// `reference`, kept in order: what the normalizer hands the renderer.
pub open spec fn kept_hours(s: Seq<Hour>, reference: int, max: int) -> Seq<Hour>
    decreases s.len(),
{
    if s.len() == 0 || max <= 0 {
        Seq::<Hour>::empty()
    } else if s[0].time_epoch >= reference {
        seq![s[0]] + kept_hours(s.drop_first(), reference, max - 1)
    } else {
        kept_hours(s.drop_first(), reference, max)
    }
}

/// Appending a day to a run appends its hourly points to the
/// flattened sequence.
proof fn lemma_flat_push(days: Seq<ForecastDay>, d: ForecastDay)
    ensures
        flat_hours(days.push(d)) == flat_hours(days) + d.hour@,
    decreases days.len(),
{
    reveal_with_fuel(flat_hours, 3);
    if days.len() == 0 {
        assert(days.push(d).drop_first() =~= Seq::<ForecastDay>::empty());
        assert(flat_hours(days.push(d)) =~= flat_hours(days) + d.hour@);
    } else {
        assert(days.push(d).drop_first() =~= days.drop_first().push(d));
        lemma_flat_push(days.drop_first(), d);
        assert(flat_hours(days.push(d)) =~= flat_hours(days) + d.hour@);
    }
}

/// Appending one point to the scanned sequence extends the kept
/// slice by that point exactly when the slice is not yet full and the
/// point's timestamp reaches the reference.
proof fn lemma_kept_push(s: Seq<Hour>, h: Hour, reference: int, max: int)
    ensures
        kept_hours(s.push(h), reference, max) == (if kept_hours(s, reference, max).len() < max
            && h.time_epoch >= reference {
            kept_hours(s, reference, max).push(h)
        } else {
            kept_hours(s, reference, max)
        }),
    decreases s.len(),
{
    reveal_with_fuel(kept_hours, 3);
    if max <= 0 {
    } else if s.len() == 0 {
        if h.time_epoch >= reference {
            assert(s.push(h)[0] == h);
            assert(s.push(h).drop_first() =~= Seq::<Hour>::empty());
            assert(kept_hours(s.push(h), reference, max) =~= kept_hours(
                s,
                reference,
                max,
            ).push(h));
        } else {
            assert(s.push(h)[0] == h);
            assert(s.push(h).drop_first() =~= Seq::<Hour>::empty());
            assert(kept_hours(s.push(h), reference, max) =~= kept_hours(s, reference, max));
        }
    } else {
        assert(s.push(h)[0] == s[0]);
        assert(s.push(h).drop_first() =~= s.drop_first().push(h));
        if s[0].time_epoch >= reference {
            lemma_kept_push(s.drop_first(), h, reference, max - 1);
            if kept_hours(s.drop_first(), reference, max - 1).len() < max - 1 && h.time_epoch
                >= reference {
                assert(seq![s[0]] + kept_hours(s.drop_first(), reference, max - 1).push(h)
                    =~= (seq![s[0]] + kept_hours(s.drop_first(), reference, max - 1)).push(h));
            }
        } else {
            lemma_kept_push(s.drop_first(), h, reference, max);
        }
    }
}

/// Whether the points of `s` are in ascending timestamp order.
pub open spec fn sorted_by_time(s: Seq<Hour>) -> bool {
    forall|i: int, j: int| 0 <= i <= j < s.len() ==> s[i].time_epoch <= s[j].time_epoch
}

/// Whether the points of `s` are in strictly ascending timestamp
/// order.
pub open spec fn strictly_sorted_by_time(s: Seq<Hour>) -> bool {
    forall|i: int, j: int| 0 <= i < j < s.len() ==> s[i].time_epoch < s[j].time_epoch
}

/// What the normalizer guarantees of its output: the kept slice has
/// at most `max` points, every point's timestamp is at or after the
/// reference (every earlier point is dropped), every point comes from
/// the scanned run, and the slice is in ascending — and for a
/// strictly ascending run, strictly ascending — time order whenever
/// the run itself is.
pub proof fn lemma_kept_hours_properties(s: Seq<Hour>, reference: int, max: int)
    requires
        0 <= max,
    ensures
        kept_hours(s, reference, max).len() <= max,
        forall|i: int|
            0 <= i < kept_hours(s, reference, max).len() ==> kept_hours(
                s,
                reference,
                max,
            )[i].time_epoch >= reference,
        forall|i: int| #![trigger kept_hours(s, reference, max)[i]]
            0 <= i < kept_hours(s, reference, max).len() ==> exists|j: int| #![trigger s[j]]
                0 <= j < s.len() && kept_hours(s, reference, max)[i] == s[j],
        sorted_by_time(s) ==> sorted_by_time(kept_hours(s, reference, max)),
        strictly_sorted_by_time(s) ==> strictly_sorted_by_time(kept_hours(s, reference, max)),
    decreases s.len(),
{
    let k = kept_hours(s, reference, max);
    if s.len() == 0 || max <= 0 {
    } else {
        let rest = s.drop_first();
        assert(forall|j: int| 0 <= j < rest.len() ==> rest[j] == s[j + 1]);
        if s[0].time_epoch >= reference {
            lemma_kept_hours_properties(rest, reference, max - 1);
            let kr = kept_hours(rest, reference, max - 1);
            assert(k == seq![s[0]] + kr);
            assert(k[0] == s[0]);
            assert(forall|i: int| 1 <= i < k.len() ==> k[i] == kr[i - 1]);
            assert forall|i: int| 0 <= i < k.len() implies k[i].time_epoch >= reference by {
                if i > 0 {
                    assert(k[i] == kr[i - 1]);
                }
            }
            assert forall|i: int| #![trigger k[i]] 0 <= i < k.len() implies exists|j: int| #![trigger s[j]]
                0 <= j < s.len() && k[i] == s[j] by {
                if i == 0 {
                    assert(0 <= 0 < s.len() && k[0] == s[0]);
                } else {
                    assert(k[i] == kr[i - 1]);
                    let j0 = choose|j0: int| 0 <= j0 < rest.len() && kr[i - 1] == rest[j0];
                    assert(0 <= j0 + 1 < s.len() && k[i] == s[j0 + 1]);
                }
            }
            if sorted_by_time(s) {
                assert(sorted_by_time(rest));
                assert forall|i: int, j: int|
                    0 <= i <= j < k.len() implies k[i].time_epoch <= k[j].time_epoch by {
                    if i == 0 {
                        if j > 0 {
                            assert(k[j] == kr[j - 1]);
                            let j0 = choose|j0: int|
                                0 <= j0 < rest.len() && kr[j - 1] == rest[j0];
                            assert(s[0].time_epoch <= s[j0 + 1].time_epoch);
                            assert(k[j] == rest[j0]);
                        }
                    } else {
                        assert(k[i] == kr[i - 1] && k[j] == kr[j - 1]);
                    }
                }
            }
            if strictly_sorted_by_time(s) {
                assert(strictly_sorted_by_time(rest));
                assert forall|i: int, j: int|
                    0 <= i < j < k.len() implies k[i].time_epoch < k[j].time_epoch by {
                    if i == 0 {
                        assert(k[j] == kr[j - 1]);
                        let j0 = choose|j0: int| 0 <= j0 < rest.len() && kr[j - 1] == rest[j0];
                        assert(s[0].time_epoch < s[j0 + 1].time_epoch);
                        assert(k[j] == rest[j0]);
                    } else {
                        assert(k[i] == kr[i - 1] && k[j] == kr[j - 1]);
                    }
                }
            }
        } else {
            lemma_kept_hours_properties(rest, reference, max);
            assert(k == kept_hours(rest, reference, max));
            assert forall|i: int| #![trigger k[i]] 0 <= i < k.len() implies exists|j: int| #![trigger s[j]]
                0 <= j < s.len() && k[i] == s[j] by {
                let j0 = choose|j0: int| 0 <= j0 < rest.len() && k[i] == rest[j0];
                assert(0 <= j0 + 1 < s.len() && k[i] == s[j0 + 1]);
            }
        }
    }
}

impl Weather {
    /// Normalizes a raw payload: flattens every day's hourly points
    /// into one ordered run, drops each point earlier than the
    /// payload's location-local current time, keeps the first four of
    /// the rest, and copies the current reading over verbatim.
    pub fn parse_weather(response: WeatherReaponse) -> (w: Weather)
        ensures
            w.current == response.current,
            w.forecast@ == kept_hours(
                flat_hours(response.forecast.forecastday@),
                response.location.localtime_epoch as int,
                4,
            ),
    {
        let localtime_epoch = response.location.localtime_epoch;
        let ghost reference = localtime_epoch as int;
        let mut days = response.forecast.forecastday;
        let nd = days.len();
        let ghost days0 = days@;
        let mut forecast: Vec<Hour> = Vec::new();
        let mut d: usize = 0;
        proof {
            assert(days0.take(0) =~= Seq::<ForecastDay>::empty());
            assert(kept_hours(flat_hours(days0.take(0)), reference, 4)
                =~= Seq::<Hour>::empty());
        }
        while days.len() > 0
            invariant
                days0.len() == nd,
                d + days@.len() == days0.len(),
                days@ == days0.skip(d as int),
                forecast@ == kept_hours(flat_hours(days0.take(d as int)), reference, 4),
                reference == localtime_epoch as int,
            decreases days@.len(),
        {
            let day = days.remove(0);
            proof {
                assert(day == days0[d as int]);
                assert(days0.skip(d as int).drop_first() =~= days0.skip(d as int + 1));
            }
            let mut hours = day.hour;
            let nh = hours.len();
            let ghost hours0 = hours@;
            let ghost prefix = flat_hours(days0.take(d as int));
            let mut h: usize = 0;
            proof {
                assert(hours0.take(0) =~= Seq::<Hour>::empty());
                assert(prefix + hours0.take(0) =~= prefix);
            }
            while hours.len() > 0
                invariant
                    hours0.len() == nh,
                    h + hours@.len() == hours0.len(),
                    hours@ == hours0.skip(h as int),
                    forecast@ == kept_hours(prefix + hours0.take(h as int), reference, 4),
                    reference == localtime_epoch as int,
                decreases hours@.len(),
            {
                let hr = hours.remove(0);
                proof {
                    assert(hr == hours0[h as int]);
                    assert(hours0.skip(h as int).drop_first() =~= hours0.skip(h as int + 1));
                    assert((prefix + hours0.take(h as int)).push(hours0[h as int]) =~= prefix
                        + hours0.take(h as int + 1));
                    lemma_kept_push(
                        prefix + hours0.take(h as int),
                        hours0[h as int],
                        reference,
                        4,
                    );
                }
                if hr.time_epoch >= localtime_epoch && forecast.len() < 4 {
                    forecast.push(hr);
                }
                h = h + 1;
            }
            proof {
                assert(hours0.take(hours0.len() as int) =~= hours0);
                lemma_flat_push(days0.take(d as int), days0[d as int]);
                assert(days0.take(d as int).push(days0[d as int]) =~= days0.take(d as int + 1));
            }
            d = d + 1;
        }
        proof {
            assert(days0.take(d as int) =~= days0);
        }
        Weather { current: response.current, forecast }
    }
}

/// The closed set of icon categories the forecast strip can show.
#[derive(Clone, Copy, Debug, PartialEq, Eq, Structural)]
pub enum WeatherIconType {
    Sun,
    Moon,
    Cloud,
    Rain,
    Snow,
    Thunder,
}

/// The icon category of a weather condition code: clear sky is sun by
/// day and moon by night; cloud, mist and fog codes are cloud; rain,
/// drizzle and freezing-rain codes are rain; snow, sleet and ice
/// codes are snow; thunder codes are thunder; every unrecognized code
/// falls back to cloud. Total over all code values.
pub open spec fn classify(code: int, is_day: bool) -> WeatherIconType {
    if code == 1000 {
        if is_day {
            WeatherIconType::Sun
        } else {
            WeatherIconType::Moon
        }
    } else if code == 1003 || code == 1006 || code == 1009 || code == 1030 || code == 1135
        || code == 1147 {
        WeatherIconType::Cloud
    } else if code == 1063 || code == 1072 || code == 1150 || code == 1153 || code == 1168
        || code == 1171 || code == 1180 || code == 1183 || code == 1186 || code == 1189
        || code == 1192 || code == 1195 || code == 1198 || code == 1201 || code == 1240
        || code == 1243 || code == 1246 {
        WeatherIconType::Rain
    } else if code == 1066 || code == 1069 || code == 1114 || code == 1117 || code == 1204
        || code == 1207 || code == 1210 || code == 1213 || code == 1216 || code == 1219
        || code == 1222 || code == 1225 || code == 1237 || code == 1249 || code == 1252
        || code == 1255 || code == 1258 || code == 1261 || code == 1264 {
        WeatherIconType::Snow
    } else if code == 1087 || code == 1273 || code == 1276 || code == 1279 || code == 1282 {
        WeatherIconType::Thunder
    } else {
        WeatherIconType::Cloud
    }
}

/// Maps a condition code and day/night flag to an icon category,
/// exactly as `classify` states.
pub fn get_weather_icon(code: u16, is_day: bool) -> (icon: WeatherIconType)
    ensures
        icon == classify(code as int, is_day),
{
    match code {
        1000 => if is_day {
            WeatherIconType::Sun
        } else {
            WeatherIconType::Moon
        },
        1003 | 1006 | 1009 | 1030 | 1135 | 1147 => WeatherIconType::Cloud,
        1063 | 1072 | 1150 | 1153 | 1168 | 1171 | 1180 | 1183 | 1186 | 1189 | 1192 | 1195
            | 1198 | 1201 | 1240 | 1243 | 1246 => WeatherIconType::Rain,
        1066 | 1069 | 1114 | 1117 | 1204 | 1207 | 1210 | 1213 | 1216 | 1219 | 1222 | 1225
            | 1237 | 1249 | 1252 | 1255 | 1258 | 1261 | 1264 => WeatherIconType::Snow,
        1087 | 1273 | 1276 | 1279 | 1282 => WeatherIconType::Thunder,
        _ => WeatherIconType::Cloud,
    }
}

/// Builds a 16-row icon pattern from its row masks.
fn rows16(
    r0: u32,
    r1: u32,
    r2: u32,
    r3: u32,
    r4: u32,
    r5: u32,
    r6: u32,
    r7: u32,
    r8: u32,
    r9: u32,
    r10: u32,
    r11: u32,
    r12: u32,
    r13: u32,
    r14: u32,
    r15: u32,
) -> (v: Vec<u32>)
    ensures
        v@ == seq![r0, r1, r2, r3, r4, r5, r6, r7, r8, r9, r10, r11, r12, r13, r14, r15],
{
    let mut v: Vec<u32> = Vec::new();
    v.push(r0);
    v.push(r1);
    v.push(r2);
    v.push(r3);
    v.push(r4);
    v.push(r5);
    v.push(r6);
    v.push(r7);
    v.push(r8);
    v.push(r9);
    v.push(r10);
    v.push(r11);
    v.push(r12);
    v.push(r13);
    v.push(r14);
    v.push(r15);
    proof {
        assert(v@ =~= seq![
            r0, r1, r2, r3, r4, r5, r6, r7, r8, r9, r10, r11, r12, r13, r14, r15,
        ]);
    }
    v
}

/// The 16 by 16 cell pattern of an icon category.
pub open spec fn icon_rows(icon: WeatherIconType) -> Seq<u32> {
    match icon {
        WeatherIconType::Sun => seq![
            0b0000000100000000u32,
            0b0000000100000000u32,
            0b0010000100001000u32,
            0b0001000000010000u32,
            0b0000011111100000u32,
            0b0000111111110000u32,
            0b0000111111110000u32,
            0b0100111111110010u32,
            0b0000111111110000u32,
            0b0000111111110000u32,
            0b0000011111100000u32,
            0b0001000000010000u32,
            0b0010000100001000u32,
            0b0000000100000000u32,
            0b0000000100000000u32,
            0b0000000000000000u32,
        ],
        WeatherIconType::Moon => seq![
            0b0000000110000000u32,
            0b0000011100000000u32,
            0b0001100100000000u32,
            0b0010001000000000u32,
            0b0100001000000000u32,
            0b0100001000000000u32,
            0b1000001000000000u32,
            0b1000000100000000u32,
            0b1000000100000000u32,
            0b1000000010000000u32,
            0b1000000001000001u32,
            0b0100000000111110u32,
            0b0100000000000010u32,
            0b0010000000000100u32,
            0b0001100000011000u32,
            0b0000011111100000u32,
        ],
        WeatherIconType::Cloud => seq![
            0b0000000000000000u32,
            0b0000000000000000u32,
            0b0000011110000000u32,
            0b0000111111000000u32,
            0b0001111111100000u32,
            0b0011111111110000u32,
            0b0111111111111000u32,
            0b1111111111111100u32,
            0b1111111111111100u32,
            0b0111111111111000u32,
            0b0000000000000000u32,
            0b0000000000000000u32,
            0b0000000000000000u32,
            0b0000000000000000u32,
            0b0000000000000000u32,
            0b0000000000000000u32,
        ],
        WeatherIconType::Rain => seq![
            0b0000000000000000u32,
            0b0000011110000000u32,
            0b0000111111000000u32,
            0b0001111111100000u32,
            0b0011111111110000u32,
            0b0111111111111000u32,
            0b1111111111111100u32,
            0b1111111111111100u32,
            0b0111111111111000u32,
            0b0000000000000000u32,
            0b0010010010010000u32,
            0b0010010010010000u32,
            0b0100100100100000u32,
            0b0000000000000000u32,
            0b0000000000000000u32,
            0b0000000000000000u32,
        ],
        WeatherIconType::Snow => seq![
            0b0000000000000000u32,
            0b0000011110000000u32,
            0b0000111111000000u32,
            0b0001111111100000u32,
            0b0011111111110000u32,
            0b0111111111111000u32,
            0b1111111111111100u32,
            0b1111111111111100u32,
            0b0111111111111000u32,
            0b0000000000000000u32,
            0b0010001000100000u32,
            0b0000100010000000u32,
            0b0010001000100000u32,
            0b0000100010000000u32,
            0b0000000000000000u32,
            0b0000000000000000u32,
        ],
        WeatherIconType::Thunder => seq![
            0b0000000000000000u32,
            0b0000011110000000u32,
            0b0000111111000000u32,
            0b0001111111100000u32,
            0b0011111111110000u32,
            0b0111111111111000u32,
            0b1111111111111100u32,
            0b1111111111111100u32,
            0b0111111111111000u32,
            0b0000011100000000u32,
            0b0000111000000000u32,
            0b0001111110000000u32,
            0b0000011100000000u32,
            0b0000111000000000u32,
            0b0000110000000000u32,
            0b0000000000000000u32,
        ],
    }
}

/// The fixed fill color of an icon category.
pub open spec fn icon_color(icon: WeatherIconType) -> u32 {
    match icon {
        WeatherIconType::Sun => 0xFFC832u32,
        WeatherIconType::Moon => 0xC8C896u32,
        WeatherIconType::Cloud => 0xB4B4B4u32,
        WeatherIconType::Rain => 0x6496C8u32,
        WeatherIconType::Snow => 0xC8DCFFu32,
        WeatherIconType::Thunder => 0xFFFF64u32,
    }
}

/// The row masks of an icon category's pattern.
fn icon_pattern(icon: WeatherIconType) -> (rows: Vec<u32>)
    ensures
        rows@ == icon_rows(icon),
        rows@.len() == 16,
{
    match icon {
        WeatherIconType::Sun => rows16(
            0b0000000100000000,
            0b0000000100000000,
            0b0010000100001000,
            0b0001000000010000,
            0b0000011111100000,
            0b0000111111110000,
            0b0000111111110000,
            0b0100111111110010,
            0b0000111111110000,
            0b0000111111110000,
            0b0000011111100000,
            0b0001000000010000,
            0b0010000100001000,
            0b0000000100000000,
            0b0000000100000000,
            0b0000000000000000,
        ),
        WeatherIconType::Moon => rows16(
            0b0000000110000000,
            0b0000011100000000,
            0b0001100100000000,
            0b0010001000000000,
            0b0100001000000000,
            0b0100001000000000,
            0b1000001000000000,
            0b1000000100000000,
            0b1000000100000000,
            0b1000000010000000,
            0b1000000001000001,
            0b0100000000111110,
            0b0100000000000010,
            0b0010000000000100,
            0b0001100000011000,
            0b0000011111100000,
        ),
        WeatherIconType::Cloud => rows16(
            0b0000000000000000,
            0b0000000000000000,
            0b0000011110000000,
            0b0000111111000000,
            0b0001111111100000,
            0b0011111111110000,
            0b0111111111111000,
            0b1111111111111100,
            0b1111111111111100,
            0b0111111111111000,
            0b0000000000000000,
            0b0000000000000000,
            0b0000000000000000,
            0b0000000000000000,
            0b0000000000000000,
            0b0000000000000000,
        ),
        WeatherIconType::Rain => rows16(
            0b0000000000000000,
            0b0000011110000000,
            0b0000111111000000,
            0b0001111111100000,
            0b0011111111110000,
            0b0111111111111000,
            0b1111111111111100,
            0b1111111111111100,
            0b0111111111111000,
            0b0000000000000000,
            0b0010010010010000,
            0b0010010010010000,
            0b0100100100100000,
            0b0000000000000000,
            0b0000000000000000,
            0b0000000000000000,
        ),
        WeatherIconType::Snow => rows16(
            0b0000000000000000,
            0b0000011110000000,
            0b0000111111000000,
            0b0001111111100000,
            0b0011111111110000,
            0b0111111111111000,
            0b1111111111111100,
            0b1111111111111100,
            0b0111111111111000,
            0b0000000000000000,
            0b0010001000100000,
            0b0000100010000000,
            0b0010001000100000,
            0b0000100010000000,
            0b0000000000000000,
            0b0000000000000000,
        ),
        WeatherIconType::Thunder => rows16(
            0b0000000000000000,
            0b0000011110000000,
            0b0000111111000000,
            0b0001111111100000,
            0b0011111111110000,
            0b0111111111111000,
            0b1111111111111100,
            0b1111111111111100,
            0b0111111111111000,
            0b0000011100000000,
            0b0000111000000000,
            0b0001111110000000,
            0b0000011100000000,
            0b0000111000000000,
            0b0000110000000000,
            0b0000000000000000,
        ),
    }
}

/// The overlay an icon leaves: its 16 by 16 pattern at the given
/// scale, in the category's fixed color.
pub open spec fn icon_paint(
    icon: WeatherIconType,
    x: int,
    y: int,
    scale: int,
    px: int,
    py: int,
) -> Option<u32> {
    glyph_paint(icon_rows(icon), 16, x, y, scale, icon_color(icon), px, py)
}

/// Draws an icon's 16 by 16 bitmap at `(x, y)`, each cell a `scale`
/// by `scale` block in the category's fixed color. Colors exactly the
/// icon's scaled pattern, clipped to the surface, and changes no
/// other pixel.
pub fn draw_weather_icon(fb: &mut FrameBuffer, icon: WeatherIconType, x: i32, y: i32, scale: i32)
    requires
        old(fb).wf(),
        1 <= scale,
    ensures
        final(fb).wf(),
        final(fb).same_shape(old(fb)),
        forall|px: int, py: int|
            final(fb).in_bounds(px, py) ==> final(fb).pix(px, py) == paint_or(
                icon_paint(icon, x as int, y as int, scale as int, px, py),
                old(fb).pix(px, py),
            ),
{
    let rows = icon_pattern(icon);
    let color = match icon {
        WeatherIconType::Sun => crate::rgb(255, 200, 50),
        WeatherIconType::Moon => crate::rgb(200, 200, 150),
        WeatherIconType::Cloud => crate::rgb(180, 180, 180),
        WeatherIconType::Rain => crate::rgb(100, 150, 200),
        WeatherIconType::Snow => crate::rgb(200, 220, 255),
        WeatherIconType::Thunder => crate::rgb(255, 255, 100),
    };
    crate::font::draw_bitmap(fb, &rows, 16, x as i64, y as i64, scale as i64, color);
}

} // verus!
