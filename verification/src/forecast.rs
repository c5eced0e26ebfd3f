//! The forecast strip: up to four hourly slots across the bottom of
//! the surface, each with a centered `HH:00` label, a weather icon and
//! a rain-probability figure.

use vstd::prelude::*;
use vstd::string::StrSliceExecFns;

use crate::font::{
    bitmap_covers, colon_rows, digit_rows, draw_bitmap, draw_colon, draw_digit, glyph_paint,
};
use crate::framebuffer::FrameBuffer;
use crate::layout::{center_offset, center_offset_spec};
use crate::over;
use crate::paint_or;
use crate::weather::{classify, icon_paint, Hour};

verus! {

/// The least index at or after `i` holding a space, or the length of
/// `s` when there is none.
pub open spec fn scan_space(s: Seq<char>, i: nat) -> nat
    decreases s.len() - i,
{
    if i >= s.len() {
        s.len()
    } else if s[i as int] == ' ' {
        i
    } else {
        scan_space(s, i + 1)
    }
}

/// Whether `c` ends the hour field of a time label: a colon or a
/// space.
pub open spec fn is_sep(c: char) -> bool {
    c == ':' || c == ' '
}

/// The least index at or after `i` holding a separator, or the length
/// of `s` when there is none.
pub open spec fn scan_sep(s: Seq<char>, i: nat) -> nat
    decreases s.len() - i,
{
    if i >= s.len() {
        s.len()
    } else if is_sep(s[i as int]) {
        i
    } else {
        scan_sep(s, i + 1)
    }
}

/// Whether `c` is a decimal digit.
pub open spec fn is_digit(c: char) -> bool {
    48 <= c as int <= 57
}

/// Whether every character of `t` is a decimal digit.
pub open spec fn all_digits(t: Seq<char>) -> bool {
    forall|i: int| 0 <= i < t.len() ==> is_digit(t[i])
}

/// The value of a run of decimal digits, most significant first.
pub open spec fn digits_val(t: Seq<char>) -> int
    decreases t.len(),
{
    if t.len() == 0 {
        0
    } else {
        digits_val(t.drop_last()) * 10 + (t.last() as int - 48)
    }
}

/// The hour field of a time label such as `2024-01-12 22:00`: the
/// characters after the first space, up to the next colon or space.
pub open spec fn hour_token(s: Seq<char>) -> Seq<char> {
    let sp = scan_space(s, 0);
    if sp >= s.len() {
        Seq::<char>::empty()
    } else {
        s.subrange(sp as int + 1, scan_sep(s, (sp + 1) as nat) as int)
    }
}

/// The hour a time label names: the value of its hour field when that
/// field is a nonempty all-digit run no larger than 255, and 0 for
/// every malformed label.
pub open spec fn parse_hour(s: Seq<char>) -> u8 {
    let t = hour_token(s);
    if t.len() > 0 && all_digits(t) && digits_val(t) <= 255 {
        digits_val(t) as u8
    } else {
        0u8
    }
}

/// The value of an all-digit run is nonnegative.
proof fn lemma_digits_val_nonneg(t: Seq<char>)
    requires
        all_digits(t),
    ensures
        digits_val(t) >= 0,
    decreases t.len(),
{
    if t.len() > 0 {
        assert(all_digits(t.drop_last()));
        lemma_digits_val_nonneg(t.drop_last());
    }
}

/// The least space index at or after `from`, computed.
fn scan_space_exec(s: &str, from: usize) -> (r: usize)
    requires
        from <= s@.len(),
    ensures
        r == scan_space(s@, from as nat),
        from <= r <= s@.len(),
        r < s@.len() ==> s@[r as int] == ' ',
{
    let n = s.unicode_len();
    let mut i = from;
    while i < n
        invariant
            from <= i <= n,
            n == s@.len(),
            scan_space(s@, from as nat) == scan_space(s@, i as nat),
        decreases n - i,
    {
        if s.get_char(i) == ' ' {
            return i;
        }
        i = i + 1;
    }
    i
}

/// The least separator index at or after `from`, computed.
fn scan_sep_exec(s: &str, from: usize) -> (r: usize)
    requires
        from <= s@.len(),
    ensures
        r == scan_sep(s@, from as nat),
        from <= r <= s@.len(),
{
    let n = s.unicode_len();
    let mut i = from;
    while i < n
        invariant
            from <= i <= n,
            n == s@.len(),
            scan_sep(s@, from as nat) == scan_sep(s@, i as nat),
        decreases n - i,
    {
        let c = s.get_char(i);
        if c == ':' || c == ' ' {
            return i;
        }
        i = i + 1;
    }
    i
}

/// Extracts the hour from a time label, exactly as `parse_hour`
/// states: the all-digit hour field's value, or 0 for a malformed
/// label.
pub fn hour_from_time(time: &str) -> (h: u8)
    ensures
        h == parse_hour(time@),
{
    let n = time.unicode_len();
    let sp = scan_space_exec(time, 0);
    if sp == n {
        proof {
            assert(hour_token(time@) =~= Seq::<char>::empty());
        }
        return 0;
    }
    let a = sp + 1;
    let b = scan_sep_exec(time, a);
    let ghost tok = hour_token(time@);
    proof {
        assert(tok == time@.subrange(a as int, b as int));
    }
    if a == b {
        return 0;
    }
    let mut j = a;
    let mut ok = true;
    let mut val: u32 = 0;
    while j < b
        invariant
            a <= j <= b <= n,
            n == time@.len(),
            tok == time@.subrange(a as int, b as int),
            b - a == tok.len(),
            ok <==> all_digits(tok.take(j - a)),
            ok ==> ((val <= 255 && val == digits_val(tok.take(j - a))) || (val > 255
                && digits_val(tok.take(j - a)) > 255)),
        decreases b - j,
    {
        let c = time.get_char(j);
        let cv = c as u32;
        proof {
            assert(tok[j - a] == time@[j as int]);
            assert(tok.take(j - a + 1).drop_last() =~= tok.take(j - a));
            assert(tok.take(j - a + 1).last() == tok[j - a]);
        }
        if cv < 48 || cv > 57 {
            ok = false;
        } else {
            if ok {
                if val <= 255 {
                    val = val * 10 + (cv - 48);
                } else {
                    proof {
                        assert(all_digits(tok.take(j - a)));
                        lemma_digits_val_nonneg(tok.take(j - a));
                    }
                }
            }
        }
        proof {
            if ok {
                assert forall|i: int| #![trigger tok.take(j - a + 1)[i]]
                    0 <= i < j + 1 - a implies is_digit(tok.take(j - a + 1)[i]) by {
                    if i < j - a {
                        assert(tok.take(j - a)[i] == tok.take(j - a + 1)[i]);
                        assert(is_digit(tok.take(j - a)[i]));
                    }
                }
            }
        }
        j = j + 1;
    }
    proof {
        assert(tok.take(b - a) =~= tok);
    }
    if ok && val <= 255 {
        val as u8
    } else {
        0
    }
}

/// The 5 by 7 cell pattern of the percent mark: a dot high on the
/// left, a diagonal stroke, and a dot low on the right.
pub open spec fn percent_rows() -> Seq<u32> {
    seq![0b11000u32, 0b11001u32, 0b00010u32, 0b00100u32, 0b01000u32, 0b10011u32, 0b00011u32]
}

/// The overlay left by the percent mark.
pub open spec fn percent_paint(
    x: int,
    y: int,
    scale: int,
    color: u32,
    px: int,
    py: int,
) -> Option<u32> {
    glyph_paint(percent_rows(), 5, x, y, scale, color, px, py)
}

/// Draws the percent mark at `(x, y)`: exactly its scaled cell
/// pattern, nothing else.
pub fn draw_percent(fb: &mut FrameBuffer, x: i32, y: i32, pixel_size: i32, color: u32)
    requires
        old(fb).wf(),
        1 <= pixel_size,
    ensures
        final(fb).wf(),
        final(fb).same_shape(old(fb)),
        forall|px: int, py: int|
            final(fb).in_bounds(px, py) ==> final(fb).pix(px, py) == paint_or(
                percent_paint(x as int, y as int, pixel_size as int, color, px, py),
                old(fb).pix(px, py),
            ),
{
    let mut rows: Vec<u32> = Vec::new();
    rows.push(0b11000);
    rows.push(0b11001);
    rows.push(0b00010);
    rows.push(0b00100);
    rows.push(0b01000);
    rows.push(0b10011);
    rows.push(0b00011);
    proof {
        assert(rows@ =~= percent_rows());
    }
    draw_bitmap(fb, &rows, 5, x as i64, y as i64, pixel_size as i64, color);
}

/// The gray the hour labels of the forecast strip are drawn in.
pub open spec fn item_label_color() -> u32 {
    0x969696u32
}

/// The color of a rain-probability figure: blue once the chance
/// reaches 50 percent, gray below.
pub open spec fn rain_color(chance: int) -> u32 {
    if chance >= 50 {
        0x6496FFu32
    } else {
        0x787878u32
    }
}

/// Where a slot's `HH:00` label paints: the 52-pixel run of four
/// digits and a colon at scale 2, centered on `cx`.
pub open spec fn item_time_covers(hv: int, cx: int, y: int, px: int, py: int) -> bool {
    ||| bitmap_covers(digit_rows(hv / 10), 5, cx - 26, y, 2, px, py)
    ||| bitmap_covers(digit_rows(hv % 10), 5, cx - 14, y, 2, px, py)
    ||| bitmap_covers(colon_rows(), 2, cx - 2, y, 2, px, py)
    ||| bitmap_covers(digit_rows(0), 5, cx + 4, y, 2, px, py)
    ||| bitmap_covers(digit_rows(0), 5, cx + 16, y, 2, px, py)
}

/// Where a slot's rain-probability digits paint: one, two or three
/// digits at scale 2, the whole figure (digits plus percent mark)
/// centered on `cx`.
pub open spec fn rain_digits_covers(rain: int, cx: int, ry: int, px: int, py: int) -> bool {
    if rain >= 100 {
        ||| bitmap_covers(digit_rows(1), 5, cx - 23, ry, 2, px, py)
        ||| bitmap_covers(digit_rows(0), 5, cx - 11, ry, 2, px, py)
        ||| bitmap_covers(digit_rows(0), 5, cx + 1, ry, 2, px, py)
    } else if rain >= 10 {
        ||| bitmap_covers(digit_rows(rain / 10), 5, cx - 17, ry, 2, px, py)
        ||| bitmap_covers(digit_rows(rain % 10), 5, cx - 5, ry, 2, px, py)
    } else {
        bitmap_covers(digit_rows(rain), 5, cx - 11, ry, 2, px, py)
    }
}

/// The pen position after a slot's rain digits, where the percent
/// mark stands.
pub open spec fn rain_end_x(rain: int, cx: int) -> int {
    if rain >= 100 {
        cx + 13
    } else if rain >= 10 {
        cx + 7
    } else {
        cx + 1
    }
}

/// The overlay one forecast slot leaves, centered on `cx` with its
/// hour label's top edge at `y`: the label, the condition icon 30
/// pixels below, and the rain figure 70 pixels below, each centered
/// on `cx`; a blank zero glyph under the percent mark erases the pen
/// cell before the mark is drawn over it.
pub open spec fn forecast_item_paint(hr: Hour, cx: int, y: int, px: int, py: int) -> Option<u32> {
    let hv = parse_hour(hr.time@) as int;
    let icon = classify(hr.condition.code as int, hr.is_day != 0);
    let rain = hr.chance_of_rain as int;
    let rc = rain_color(rain);
    let time_p: Option<u32> = if item_time_covers(hv, cx, y, px, py) {
        Option::Some(item_label_color())
    } else {
        Option::None
    };
    let icon_p = icon_paint(icon, cx - 16, y + 30, 2, px, py);
    let rain_p: Option<u32> = if rain_digits_covers(rain, cx, y + 70, px, py) {
        Option::Some(rc)
    } else {
        Option::None
    };
    let black_p: Option<u32> = if bitmap_covers(
        digit_rows(0),
        5,
        rain_end_x(rain, cx),
        y + 70,
        2,
        px,
        py,
    ) {
        Option::Some(0u32)
    } else {
        Option::None
    };
    let pct_p = percent_paint(rain_end_x(rain, cx), y + 70, 2, rc, px, py);
    over(pct_p, over(black_p, over(rain_p, over(icon_p, time_p))))
}

/// Draws one forecast slot centered on `center_x`: the hour parsed
/// from the point's time label as `HH:00`, the icon of its condition
/// code, and its rain chance with a percent mark, colored blue from
/// 50 percent up. Paints exactly `forecast_item_paint` over the
/// previous content.
#[verifier::rlimit(100)]
pub fn draw_forecast_item(fb: &mut FrameBuffer, hour: &Hour, center_x: i32, y: i32)
    requires
        old(fb).wf(),
        -0x4000_0000 <= center_x <= 0x4000_0000 - 0x100,
        -0x4000_0000 <= y <= 0x4000_0000 - 0x100,
    ensures
        final(fb).wf(),
        final(fb).same_shape(old(fb)),
        forall|px: int, py: int|
            final(fb).in_bounds(px, py) ==> final(fb).pix(px, py) == paint_or(
                forecast_item_paint(*hour, center_x as int, y as int, px, py),
                old(fb).pix(px, py),
            ),
{
    let pixel_size: i32 = 2;
    let digit_width: i32 = 5 * pixel_size;
    let colon_width: i32 = 2 * pixel_size;
    let spacing: i32 = pixel_size;

    let hour_val: u8 = hour_from_time(hour.time.as_str());

    let color = crate::rgb(150, 150, 150);

    let time_width: i32 = digit_width * 4 + colon_width + spacing * 4;
    let time_x: i32 = center_x - time_width / 2;

    let mut x = time_x;
    draw_digit(fb, hour_val / 10, x, y, pixel_size, color);
    x = x + digit_width + spacing;
    draw_digit(fb, hour_val % 10, x, y, pixel_size, color);
    x = x + digit_width + spacing;

    draw_colon(fb, x, y, pixel_size, color, true);
    x = x + colon_width + spacing;

    draw_digit(fb, 0, x, y, pixel_size, color);
    x = x + digit_width + spacing;
    draw_digit(fb, 0, x, y, pixel_size, color);

    let icon = crate::weather::get_weather_icon(hour.condition.code, hour.is_day != 0);
    let icon_size: i32 = 16 * 2;
    let icon_x: i32 = center_x - icon_size / 2;
    let icon_y: i32 = y + 30;
    crate::weather::draw_weather_icon(fb, icon, icon_x, icon_y, 2);

    let rain_y: i32 = icon_y + 40;
    let rain_color_px = if hour.chance_of_rain >= 50 {
        crate::rgb(100, 150, 255)
    } else {
        crate::rgb(120, 120, 120)
    };

    let rain = hour.chance_of_rain;

    let rain_digits: i32 = if rain >= 100 {
        3
    } else if rain >= 10 {
        2
    } else {
        1
    };
    let percent_width: i32 = digit_width;
    let rain_width: i32 = digit_width * rain_digits + spacing * rain_digits + percent_width;
    let rain_x: i32 = center_x - rain_width / 2;

    let mut rx = rain_x;
    if rain >= 100 {
        draw_digit(fb, 1, rx, rain_y, pixel_size, rain_color_px);
        rx = rx + digit_width + spacing;
        draw_digit(fb, 0, rx, rain_y, pixel_size, rain_color_px);
        rx = rx + digit_width + spacing;
        draw_digit(fb, 0, rx, rain_y, pixel_size, rain_color_px);
        rx = rx + digit_width + spacing;
    } else if rain >= 10 {
        draw_digit(fb, rain / 10, rx, rain_y, pixel_size, rain_color_px);
        rx = rx + digit_width + spacing;
        draw_digit(fb, rain % 10, rx, rain_y, pixel_size, rain_color_px);
        rx = rx + digit_width + spacing;
    } else {
        draw_digit(fb, rain, rx, rain_y, pixel_size, rain_color_px);
        rx = rx + digit_width + spacing;
    }

    draw_digit(fb, 0, rx, rain_y, pixel_size, crate::rgb(0, 0, 0));
    draw_percent(fb, rx, rain_y, pixel_size, rain_color_px);
}

/// The overlay the first `n` of `num` forecast slots leave, the later
/// slot on top where two overlap.
pub open spec fn forecast_paint_upto(
    points: Seq<Hour>,
    num: int,
    n: int,
    px: int,
    py: int,
) -> Option<u32>
    decreases n,
{
    if n <= 0 {
        Option::None
    } else {
        over(
            forecast_item_paint(points[n - 1], slot_center(num, n - 1), 360, px, py),
            forecast_paint_upto(points, num, n - 1, px, py),
        )
    }
}

/// The center of slot `i` when `num` slots are shown: each slot is a
/// quarter of the 800-pixel surface width, and the strip of slots is
/// centered in it.
pub open spec fn slot_center(num: int, i: int) -> int {
    center_offset_spec(800, 200 * num) + i * 200 + 100
}

/// The overlay the whole forecast strip leaves: the first four
/// points, one slot each, across the bottom of the surface.
pub open spec fn forecast_paint(points: Seq<Hour>, px: int, py: int) -> Option<u32> {
    let num: int = if points.len() < 4 {
        points.len() as int
    } else {
        4
    };
    forecast_paint_upto(points, num, num, px, py)
}

/// Draws up to four forecast slots across the bottom of the surface,
/// top edge at y = 360, the strip centered in the 800-pixel surface
/// width and each slot a quarter of it wide. Fewer than four points draw
/// that many slots, each still centered in its own slot. Paints
/// exactly `forecast_paint` over the previous content.
pub fn draw_forecast(fb: &mut FrameBuffer, forecast: &[Hour])
    requires
        old(fb).wf(),
    ensures
        final(fb).wf(),
        final(fb).same_shape(old(fb)),
        forall|px: int, py: int|
            final(fb).in_bounds(px, py) ==> final(fb).pix(px, py) == paint_or(
                forecast_paint(forecast@, px, py),
                old(fb).pix(px, py),
            ),
{
    let start_y: i32 = 360;
    let item_width: i32 = 200;
    let num: usize = if forecast.len() < 4 {
        forecast.len()
    } else {
        4
    };
    let total_width: i32 = item_width * (num as i32);
    let start_x: i32 = center_offset(800, total_width as i64) as i32;

    let mut i: usize = 0;
    while i < num
        invariant
            old(fb).wf(),
            fb.wf(),
            fb.same_shape(old(fb)),
            i <= num,
            num == (if forecast@.len() < 4 {
                forecast@.len() as int
            } else {
                4
            }),
            start_x == center_offset_spec(800, 200 * num as int),
            0 <= start_x <= 400,
            item_width == 200,
            start_y == 360,
            forall|px: int, py: int|
                fb.in_bounds(px, py) ==> fb.pix(px, py) == paint_or(
                    forecast_paint_upto(forecast@, num as int, i as int, px, py),
                    old(fb).pix(px, py),
                ),
        decreases num - i,
    {
        let hour = vstd::slice::slice_index_get(forecast, i);
        let center_x: i32 = start_x + (i as i32) * item_width + item_width / 2;
        draw_forecast_item(fb, hour, center_x, start_y);
        i = i + 1;
    }
}

} // verus!
