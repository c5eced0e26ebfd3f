//! The date and time rows: `YYYY-MM-DD WDY` in a small scale and
//! `HH:MM` with a blinking colon in a large one, each centered in the
//! 800-pixel-wide surface.

use vstd::prelude::*;
use vstd::string::StrSliceExecFns;

use crate::font::{
    bitmap_covers, colon_rows, digit_rows, draw_colon, draw_digit, draw_hyphen, draw_text,
    hyphen_rows, text_covers, DIGIT_WIDTH,
};
use crate::framebuffer::FrameBuffer;
use crate::layout::center_offset;
use crate::paint_or;
use crate::rgb;

verus! {

/// A day of the week, as the date row labels it.
#[derive(Clone, Copy, PartialEq, Eq, Structural, Debug)]
pub enum Weekday {
    Mon,
    Tue,
    Wed,
    Thu,
    Fri,
    Sat,
    Sun,
}

/// The three-letter label of a weekday.
pub open spec fn weekday_chars(wd: Weekday) -> Seq<char> {
    match wd {
        Weekday::Mon => seq!['M', 'O', 'N'],
        Weekday::Tue => seq!['T', 'U', 'E'],
        Weekday::Wed => seq!['W', 'E', 'D'],
        Weekday::Thu => seq!['T', 'H', 'U'],
        Weekday::Fri => seq!['F', 'R', 'I'],
        Weekday::Sat => seq!['S', 'A', 'T'],
        Weekday::Sun => seq!['S', 'U', 'N'],
    }
}

/// The weekday's label as a string.
pub fn get_weekday_str(weekday: Weekday) -> (r: &'static str)
    ensures
        r@ == weekday_chars(weekday),
        r@.len() == 3,
{
    match weekday {
        Weekday::Mon => {
            proof {
                reveal_strlit("MON");
                assert("MON"@ =~= seq!['M', 'O', 'N']);
            }
            "MON"
        },
        Weekday::Tue => {
            proof {
                reveal_strlit("TUE");
                assert("TUE"@ =~= seq!['T', 'U', 'E']);
            }
            "TUE"
        },
        Weekday::Wed => {
            proof {
                reveal_strlit("WED");
                assert("WED"@ =~= seq!['W', 'E', 'D']);
            }
            "WED"
        },
        Weekday::Thu => {
            proof {
                reveal_strlit("THU");
                assert("THU"@ =~= seq!['T', 'H', 'U']);
            }
            "THU"
        },
        Weekday::Fri => {
            proof {
                reveal_strlit("FRI");
                assert("FRI"@ =~= seq!['F', 'R', 'I']);
            }
            "FRI"
        },
        Weekday::Sat => {
            proof {
                reveal_strlit("SAT");
                assert("SAT"@ =~= seq!['S', 'A', 'T']);
            }
            "SAT"
        },
        Weekday::Sun => {
            proof {
                reveal_strlit("SUN");
                assert("SUN"@ =~= seq!['S', 'U', 'N']);
            }
            "SUN"
        },
    }
}

/// Where the date row paints. The row is `YYYY-MM-DD WDY` at scale 3,
/// top edge at y = 40, centered in the 800-pixel surface width: the
/// run is 234 pixels wide (ten 15-pixel glyphs, 3-pixel spacing, and a
/// 51-pixel weekday label two spacings further right), so it starts at
/// x = (800 - 234) / 2 = 283 and advances 18 pixels per glyph.
pub open spec fn date_covers(year: int, month: int, day: int, wd: Weekday, px: int, py: int) -> bool {
    ||| bitmap_covers(digit_rows((year / 1000) % 10), 5, 283, 40, 3, px, py)
    ||| bitmap_covers(digit_rows((year / 100) % 10), 5, 301, 40, 3, px, py)
    ||| bitmap_covers(digit_rows((year / 10) % 10), 5, 319, 40, 3, px, py)
    ||| bitmap_covers(digit_rows(year % 10), 5, 337, 40, 3, px, py)
    ||| bitmap_covers(hyphen_rows(), 5, 355, 40, 3, px, py)
    ||| bitmap_covers(digit_rows(month / 10), 5, 373, 40, 3, px, py)
    ||| bitmap_covers(digit_rows(month % 10), 5, 391, 40, 3, px, py)
    ||| bitmap_covers(hyphen_rows(), 5, 409, 40, 3, px, py)
    ||| bitmap_covers(digit_rows(day / 10), 5, 427, 40, 3, px, py)
    ||| bitmap_covers(digit_rows(day % 10), 5, 445, 40, 3, px, py)
    ||| text_covers(weekday_chars(wd), 469, 40, 3, px, py)
}

/// The gray the date row is drawn in.
pub open spec fn date_color() -> u32 {
    0xB4B4B4u32
}

/// Draws the date row `YYYY-MM-DD WDY`, centered at scale 3. Colors
/// exactly the pixels of `date_covers` in `date_color` and changes no
/// other pixel.
pub fn draw_date(fb: &mut FrameBuffer, year: u16, month: u8, day: u8, weekday: Weekday)
    requires
        old(fb).wf(),
    ensures
        final(fb).wf(),
        final(fb).same_shape(old(fb)),
        forall|px: int, py: int|
            final(fb).in_bounds(px, py) ==> final(fb).pix(px, py) == (if date_covers(
                year as int,
                month as int,
                day as int,
                weekday,
                px,
                py,
            ) {
                date_color()
            } else {
                old(fb).pix(px, py)
            }),
{
    let pixel_size: i32 = 3;
    let digit_width: i32 = (DIGIT_WIDTH as i32) * pixel_size;
    let hyphen_width: i32 = (DIGIT_WIDTH as i32) * pixel_size;
    let letter_width: i32 = (DIGIT_WIDTH as i32) * pixel_size;
    let spacing: i32 = pixel_size;

    let weekday_str = get_weekday_str(weekday);
    let weekday_len: i32 = weekday_str.unicode_len() as i32;
    let weekday_width: i32 = weekday_len * (letter_width + spacing) - spacing;
    let date_width: i32 = digit_width * 8 + hyphen_width * 2 + spacing * 9;
    let total_width: i32 = date_width + spacing * 2 + weekday_width;

    let start_x: i32 = center_offset(800, total_width as i64) as i32;
    let start_y: i32 = 40;

    let color = rgb(180, 180, 180);

    let mut x = start_x;

    draw_digit(fb, ((year / 1000) % 10) as u8, x, start_y, pixel_size, color);
    x = x + digit_width + spacing;
    draw_digit(fb, ((year / 100) % 10) as u8, x, start_y, pixel_size, color);
    x = x + digit_width + spacing;
    draw_digit(fb, ((year / 10) % 10) as u8, x, start_y, pixel_size, color);
    x = x + digit_width + spacing;
    draw_digit(fb, (year % 10) as u8, x, start_y, pixel_size, color);
    x = x + digit_width + spacing;

    draw_hyphen(fb, x, start_y, pixel_size, color);
    x = x + hyphen_width + spacing;

    draw_digit(fb, month / 10, x, start_y, pixel_size, color);
    x = x + digit_width + spacing;
    draw_digit(fb, month % 10, x, start_y, pixel_size, color);
    x = x + digit_width + spacing;

    draw_hyphen(fb, x, start_y, pixel_size, color);
    x = x + hyphen_width + spacing;

    draw_digit(fb, day / 10, x, start_y, pixel_size, color);
    x = x + digit_width + spacing;
    draw_digit(fb, day % 10, x, start_y, pixel_size, color);
    x = x + digit_width + spacing * 3;

    draw_text(fb, weekday_str, x, start_y, pixel_size, color);
}

/// Where the time row paints. The row is `HH:MM` at scale 16, top
/// edge at y = 120, centered in the 800-pixel surface width: four
/// 80-pixel digits, a 32-pixel colon and 16-pixel spacing make a
/// 416-pixel run starting at x = (800 - 416) / 2 = 192. The colon
/// paints only when `blink` is on.
pub open spec fn time_covers(hour: int, minute: int, blink: bool, px: int, py: int) -> bool {
    ||| bitmap_covers(digit_rows(hour / 10), 5, 192, 120, 16, px, py)
    ||| bitmap_covers(digit_rows(hour % 10), 5, 288, 120, 16, px, py)
    ||| (blink && bitmap_covers(colon_rows(), 2, 384, 120, 16, px, py))
    ||| bitmap_covers(digit_rows(minute / 10), 5, 432, 120, 16, px, py)
    ||| bitmap_covers(digit_rows(minute % 10), 5, 528, 120, 16, px, py)
}

/// The white the time row is drawn in.
pub open spec fn time_color() -> u32 {
    0xFFFFFFu32
}

/// Draws the time row `HH:MM`, centered at scale 16, the colon only
/// when `blink` is on. Colors exactly the pixels of `time_covers` in
/// `time_color` and changes no other pixel.
pub fn draw_time(fb: &mut FrameBuffer, hour: u8, minute: u8, blink: bool)
    requires
        old(fb).wf(),
    ensures
        final(fb).wf(),
        final(fb).same_shape(old(fb)),
        forall|px: int, py: int|
            final(fb).in_bounds(px, py) ==> final(fb).pix(px, py) == (if time_covers(
                hour as int,
                minute as int,
                blink,
                px,
                py,
            ) {
                time_color()
            } else {
                old(fb).pix(px, py)
            }),
{
    let pixel_size: i32 = 16;
    let digit_width: i32 = (DIGIT_WIDTH as i32) * pixel_size;
    let colon_width: i32 = 2 * pixel_size;
    let spacing: i32 = pixel_size;

    let total_width: i32 = digit_width * 4 + colon_width + spacing * 4;
    let start_x: i32 = center_offset(800, total_width as i64) as i32;
    let start_y: i32 = 120;

    let color = rgb(255, 255, 255);

    let mut x = start_x;

    draw_digit(fb, hour / 10, x, start_y, pixel_size, color);
    x = x + digit_width + spacing;
    draw_digit(fb, hour % 10, x, start_y, pixel_size, color);
    x = x + digit_width + spacing;

    draw_colon(fb, x, start_y, pixel_size, color, blink);
    x = x + colon_width + spacing;

    draw_digit(fb, minute / 10, x, start_y, pixel_size, color);
    x = x + digit_width + spacing;
    draw_digit(fb, minute % 10, x, start_y, pixel_size, color);
}

} // verus!
