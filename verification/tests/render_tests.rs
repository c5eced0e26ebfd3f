use home_clock::clock::{draw_date, draw_time, get_weekday_str, Weekday};
use home_clock::forecast::{draw_forecast, draw_forecast_item};
use home_clock::render::render_frame;
use home_clock::weather::{
    draw_weather_icon, Condition, Current, Hour, Weather, WeatherIconType,
};
use home_clock::FrameBuffer;

fn surface() -> FrameBuffer {
    FrameBuffer::new(800, 480)
}

fn point(time: &str, epoch: i64, code: u16, is_day: u8, rain: u8) -> Hour {
    Hour {
        time: time.to_string(),
        time_epoch: epoch,
        temp_deci_c: 51,
        is_day,
        chance_of_rain: rain,
        condition: Condition { code },
    }
}

fn snapshot(points: Vec<Hour>) -> Weather {
    Weather {
        current: Current {
            temp_deci_c: 51,
            is_day: 1,
            condition: Condition { code: 1000 },
        },
        forecast: points,
    }
}

#[test]
fn weekday_labels() {
    assert_eq!(get_weekday_str(Weekday::Mon), "MON");
    assert_eq!(get_weekday_str(Weekday::Tue), "TUE");
    assert_eq!(get_weekday_str(Weekday::Wed), "WED");
    assert_eq!(get_weekday_str(Weekday::Thu), "THU");
    assert_eq!(get_weekday_str(Weekday::Fri), "FRI");
    assert_eq!(get_weekday_str(Weekday::Sat), "SAT");
    assert_eq!(get_weekday_str(Weekday::Sun), "SUN");
}

#[test]
fn time_row_is_centered_at_scale_sixteen() {
    let mut fb = surface();
    draw_time(&mut fb, 9, 30, true);
    // The first digit (0) starts at x = 192; its top row is cells
    // 1 to 3, so column 0 stays dark and column 1 is lit.
    assert_eq!(fb.buffer[120 * 800 + 192], 0);
    assert_eq!(fb.buffer[120 * 800 + 192 + 16], 0xFFFFFF);
    // The colon's first dot row is its second cell row: y = 136.
    assert_eq!(fb.buffer[136 * 800 + 384], 0xFFFFFF);
}

#[test]
fn colon_blink_off_leaves_the_colon_band_dark() {
    let mut with_colon = surface();
    let mut without = surface();
    draw_time(&mut with_colon, 12, 34, true);
    draw_time(&mut without, 12, 34, false);
    // The colon band is x in [384, 416); everything else matches.
    for y in 0..480usize {
        for x in 0..800usize {
            if (384..416).contains(&x) {
                assert_eq!(without.buffer[y * 800 + x], 0, "({}, {})", x, y);
            } else {
                assert_eq!(
                    with_colon.buffer[y * 800 + x],
                    without.buffer[y * 800 + x],
                    "({}, {})",
                    x,
                    y
                );
            }
        }
    }
}

#[test]
fn date_row_draws_only_gray_pixels_in_its_band() {
    let mut fb = surface();
    draw_date(&mut fb, 2024, 1, 12, Weekday::Fri);
    let mut lit = 0usize;
    for y in 0..480usize {
        for x in 0..800usize {
            let p = fb.buffer[y * 800 + x];
            if p != 0 {
                assert_eq!(p, 0xB4B4B4);
                // Scale 3, 7 rows: the band is y in [40, 61), x in [283, 520).
                assert!((40..61).contains(&y), "({}, {})", x, y);
                assert!((283..520).contains(&x), "({}, {})", x, y);
                lit += 1;
            }
        }
    }
    assert!(lit > 0);
}

#[test]
fn sun_icon_draws_its_bitmap_in_its_fixed_color() {
    let mut fb = FrameBuffer::new(40, 40);
    draw_weather_icon(&mut fb, WeatherIconType::Sun, 0, 0, 2);
    // Row 0 of the sun has its single lit cell in column 7.
    assert_eq!(fb.buffer[0 * 40 + 14], 0xFFC832);
    assert_eq!(fb.buffer[0 * 40 + 15], 0xFFC832);
    assert_eq!(fb.buffer[1 * 40 + 14], 0xFFC832);
    assert_eq!(fb.buffer[0 * 40 + 13], 0);
    assert_eq!(fb.buffer[0 * 40 + 16], 0);
}

#[test]
fn forecast_item_centers_label_icon_and_rain_figure() {
    let mut fb = surface();
    let p = point("2024-01-13 09:00", 0, 1000, 1, 60);
    draw_forecast_item(&mut fb, &p, 400, 360);
    // Hour 9 renders as "09:00"; the leading 0 starts at x = 374 and
    // its top row lights cells 1 to 3.
    assert_eq!(fb.buffer[360 * 800 + 374], 0);
    assert_eq!(fb.buffer[360 * 800 + 376], 0x969696);
    // The sun icon (day, code 1000) starts at (384, 390); its row-0
    // cell in column 7 lights (398, 390).
    assert_eq!(fb.buffer[390 * 800 + 398], 0xFFC832);
    // Rain 60 is two blue digits starting at x = 383; digit 6 lights
    // cell 2 of its top row at (387, 430).
    assert_eq!(fb.buffer[430 * 800 + 387], 0x6496FF);
    // The percent mark follows at x = 407 in the same blue.
    assert_eq!(fb.buffer[430 * 800 + 407], 0x6496FF);
    assert_eq!(fb.buffer[430 * 800 + 408], 0x6496FF);
}

#[test]
fn low_rain_chance_is_gray() {
    let mut fb = surface();
    let p = point("2024-01-13 09:00", 0, 1000, 1, 5);
    draw_forecast_item(&mut fb, &p, 400, 360);
    // Rain 5 is one digit at x = 389; digit 5's top row is full,
    // lighting (389, 430), in gray.
    assert_eq!(fb.buffer[430 * 800 + 389], 0x787878);
    // The percent mark follows at x = 401.
    assert_eq!(fb.buffer[430 * 800 + 401], 0x787878);
}

#[test]
fn a_single_remaining_point_renders_one_centered_slot() {
    let mut fb = surface();
    let points = vec![point("2024-01-13 09:00", 0, 1000, 1, 60)];
    draw_forecast(&mut fb, &points);
    // One 200-pixel slot centers the strip at x = 300..500, so the
    // slot center is 400 and the label's leading 0 lights (376, 360).
    assert_eq!(fb.buffer[360 * 800 + 376], 0x969696);
    // Nothing is drawn outside that slot.
    for y in 0..480usize {
        for x in 0..800usize {
            if !(300..500).contains(&x) {
                assert_eq!(fb.buffer[y * 800 + x], 0, "({}, {})", x, y);
            }
        }
    }
}

#[test]
fn four_points_fill_four_slots() {
    let mut fb = surface();
    let points = vec![
        point("2024-01-13 00:00", 0, 1000, 0, 0),
        point("2024-01-13 01:00", 1, 1000, 0, 0),
        point("2024-01-13 02:00", 2, 1000, 0, 0),
        point("2024-01-13 03:00", 3, 1000, 0, 0),
    ];
    draw_forecast(&mut fb, &points);
    // Four 200-pixel slots fill the surface width; slot centers are
    // 100, 300, 500 and 700, and each colon lights its center - 2
    // column two rows down (y = 362).
    for center in [100usize, 300, 500, 700] {
        assert_eq!(fb.buffer[362 * 800 + (center - 2)], 0x969696, "slot at {}", center);
    }
}

#[test]
fn rendering_the_same_inputs_twice_gives_identical_buffers() {
    let w = snapshot(vec![
        point("2024-01-13 09:00", 10, 1063, 1, 80),
        point("2024-01-13 10:00", 20, 1000, 1, 10),
    ]);
    let mut a = surface();
    let mut b = surface();
    render_frame(&mut a, 2024, 1, 13, Weekday::Sat, 9, 41, true, Some(&w));
    render_frame(&mut b, 2024, 1, 13, Weekday::Sat, 9, 41, true, Some(&w));
    assert_eq!(a.buffer, b.buffer);
}

#[test]
fn rendering_overwrites_stale_content_completely() {
    let w = snapshot(vec![point("2024-01-13 09:00", 10, 1087, 0, 0)]);
    let mut a = surface();
    let mut b = surface();
    b.clear(0xFFFFFF);
    b.set_pixel(400, 240, 0x123456);
    render_frame(&mut a, 2024, 1, 13, Weekday::Sun, 23, 59, false, Some(&w));
    render_frame(&mut b, 2024, 1, 13, Weekday::Sun, 23, 59, false, Some(&w));
    assert_eq!(a.buffer, b.buffer);
}

#[test]
fn a_missing_snapshot_omits_the_forecast_strip() {
    let mut fb = surface();
    render_frame(&mut fb, 2024, 1, 13, Weekday::Sat, 9, 41, true, None);
    for y in 300..480usize {
        for x in 0..800usize {
            assert_eq!(fb.buffer[y * 800 + x], 0, "({}, {})", x, y);
        }
    }
}
