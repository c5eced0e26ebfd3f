//! One full display frame: clear, date row, time row, and — when a
//! weather snapshot is at hand — the forecast strip. The frame's
//! pixels are a function of the inputs alone, which makes rendering
//! reproducible: the same snapshot and clock time always yield the
//! same buffer.

use vstd::prelude::*;
use vstd::arithmetic::div_mod::lemma_fundamental_div_mod;

use crate::clock::{date_color, date_covers, draw_date, draw_time, time_color, time_covers, Weekday};
use crate::forecast::{draw_forecast, forecast_paint};
use crate::framebuffer::{lemma_row_major_index_bounds, FrameBuffer};
use crate::over;
use crate::paint_or;
use crate::weather::{Hour, Weather};

verus! {

/// The color of every pixel of a rendered frame: the forecast strip
/// over the time row over the date row over a black background.
pub open spec fn frame_pixel(
    year: int,
    month: int,
    day: int,
    wd: Weekday,
    hour: int,
    minute: int,
    blink: bool,
    points: Option<Seq<Hour>>,
    px: int,
    py: int,
) -> u32 {
    let date_p: Option<u32> = if date_covers(year, month, day, wd, px, py) {
        Option::Some(date_color())
    } else {
        Option::None
    };
    let time_p: Option<u32> = if time_covers(hour, minute, blink, px, py) {
        Option::Some(time_color())
    } else {
        Option::None
    };
    let fc_p: Option<u32> = match points {
        Option::Some(s) => forecast_paint(s, px, py),
        Option::None => Option::None,
    };
    paint_or(over(fc_p, over(time_p, date_p)), 0u32)
}

/// Renders one frame: clears the surface to black, draws the date and
/// time rows, and, when a snapshot is at hand, the forecast strip.
/// Afterward every pixel equals `frame_pixel` of the inputs — the
/// previous buffer content does not show through anywhere.
pub fn render_frame(
    fb: &mut FrameBuffer,
    year: u16,
    month: u8,
    day: u8,
    weekday: Weekday,
    hour: u8,
    minute: u8,
    blink: bool,
    weather: Option<&Weather>,
)
    requires
        old(fb).wf(),
    ensures
        final(fb).wf(),
        final(fb).same_shape(old(fb)),
        forall|px: int, py: int|
            final(fb).in_bounds(px, py) ==> final(fb).pix(px, py) == frame_pixel(
                year as int,
                month as int,
                day as int,
                weekday,
                hour as int,
                minute as int,
                blink,
                (match weather {
                    Option::Some(w) => Option::Some(w.forecast@),
                    Option::None => Option::None,
                }),
                px,
                py,
            ),
{
    fb.clear(0);
    proof {
        assert forall|px: int, py: int| fb.in_bounds(px, py) implies fb.pix(px, py) == 0u32 by {
            lemma_row_major_index_bounds(fb.width as int, fb.height as int, px, py);
        }
    }
    draw_date(fb, year, month, day, weekday);
    draw_time(fb, hour, minute, blink);
    match weather {
        Option::Some(w) => {
            draw_forecast(fb, w.forecast.as_slice());
        },
        Option::None => {},
    }
}

/// Rendering is reproducible: two surfaces of the same dimensions
/// whose pixels both equal `frame_pixel` of the same inputs hold
/// byte-identical buffers. Rendering the same snapshot and clock time
/// twice into two freshly cleared surfaces therefore yields the same
/// image.
pub proof fn lemma_render_deterministic(
    a: FrameBuffer,
    b: FrameBuffer,
    year: int,
    month: int,
    day: int,
    wd: Weekday,
    hour: int,
    minute: int,
    blink: bool,
    points: Option<Seq<Hour>>,
)
    requires
        a.wf(),
        b.wf(),
        a.width == b.width,
        a.height == b.height,
        forall|px: int, py: int|
            a.in_bounds(px, py) ==> a.pix(px, py) == frame_pixel(
                year,
                month,
                day,
                wd,
                hour,
                minute,
                blink,
                points,
                px,
                py,
            ),
        forall|px: int, py: int|
            b.in_bounds(px, py) ==> b.pix(px, py) == frame_pixel(
                year,
                month,
                day,
                wd,
                hour,
                minute,
                blink,
                points,
                px,
                py,
            ),
    ensures
        a.buffer@ == b.buffer@,
{
    let w = a.width as int;
    let h = a.height as int;
    assert(a.buffer@.len() == b.buffer@.len());
    assert forall|i: int| 0 <= i < a.buffer@.len() implies a.buffer@[i] == b.buffer@[i] by {
        assert(w > 0 && h > 0) by (nonlinear_arith)
            requires
                0 <= w,
                0 <= h,
                0 <= i < w * h,
        ;
        let px = i % w;
        let py = i / w;
        lemma_fundamental_div_mod(i, w);
        assert(0 <= px < w && 0 <= py < h) by (nonlinear_arith)
            requires
                w > 0,
                h > 0,
                0 <= i < w * h,
                px == i % w,
                py == i / w,
        ;
        assert(py * w + px == i);
        assert(a.pix(px, py) == a.buffer@[i]);
        assert(b.pix(px, py) == b.buffer@[i]);
    }
    assert(a.buffer@ =~= b.buffer@);
}

} // verus!
