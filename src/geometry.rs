//! Where a scratchpad window stands when shown and when hidden, and how a
//! margin is read back from a position.

use vstd::prelude::*;

verus! {

/// The screen edge a scratchpad slides in from.
#[derive(Clone, Copy, Debug, PartialEq, Eq, Structural)]
pub enum Direction {
    FromTop,
    FromBottom,
    FromLeft,
    FromRight,
}

/// Offset that centres an extent `w` inside an extent `o`, rounded toward zero.
pub open spec fn centred(o: int, w: int) -> int {
    if o >= w {
        (o - w) / 2
    } else {
        -((w - o) / 2)
    }
}

/// On-screen position of a window of size `(ww, wh)` on an output of size
/// `(ow, oh)`, `m` pixels away from the edge it comes from.
pub open spec fn visible_position(d: Direction, ow: int, oh: int, ww: int, wh: int, m: int) -> (int, int) {
    match d {
        Direction::FromTop => (centred(ow, ww), m),
        Direction::FromBottom => (centred(ow, ww), oh - wh - m),
        Direction::FromLeft => (m, centred(oh, wh)),
        Direction::FromRight => (ow - ww - m, centred(oh, wh)),
    }
}

/// Off-screen position beyond the edge the window comes from.
pub open spec fn hidden_position(d: Direction, ow: int, oh: int, ww: int, wh: int, m: int) -> (int, int) {
    match d {
        Direction::FromTop => (centred(ow, ww), -(wh + m)),
        Direction::FromBottom => (centred(ow, ww), oh + m),
        Direction::FromLeft => (-(ww + m), centred(oh, wh)),
        Direction::FromRight => (ow + m, centred(oh, wh)),
    }
}

/// Distance from the edge of the direction, before it is clamped at zero.
pub open spec fn raw_margin(d: Direction, ow: int, oh: int, ww: int, wh: int, x: int, y: int) -> int {
    match d {
        Direction::FromTop => y,
        Direction::FromBottom => oh - wh - y,
        Direction::FromLeft => x,
        Direction::FromRight => ow - ww - x,
    }
}

pub open spec fn margin_of(d: Direction, ow: int, oh: int, ww: int, wh: int, x: int, y: int) -> int {
    let r = raw_margin(d, ow, oh, ww, wh, x, y);
    if r < 0 {
        0
    } else {
        r
    }
}

pub open spec fn fits_i32(p: (int, int)) -> bool {
    i32::MIN <= p.0 <= i32::MAX && i32::MIN <= p.1 <= i32::MAX
}

fn centred_offset(o: u32, w: u32) -> (r: i64)
    ensures
        r as int == centred(o as int, w as int),
{
    if o >= w {
        ((o - w) / 2) as i64
    } else {
        -(((w - o) / 2) as i64)
    }
}

/// Visible position of a scratchpad window.
pub fn calculate_position(
    direction: Direction,
    output_width: u32,
    output_height: u32,
    window_width: u32,
    window_height: u32,
    margin: u32,
) -> (r: (i32, i32))
    requires
        fits_i32(
            visible_position(
                direction,
                output_width as int,
                output_height as int,
                window_width as int,
                window_height as int,
                margin as int,
            ),
        ),
    ensures
        (r.0 as int, r.1 as int) == visible_position(
            direction,
            output_width as int,
            output_height as int,
            window_width as int,
            window_height as int,
            margin as int,
        ),
{
    let (ow, oh, ww, wh, m) = (
        output_width as i64,
        output_height as i64,
        window_width as i64,
        window_height as i64,
        margin as i64,
    );
    match direction {
        Direction::FromTop => (centred_offset(output_width, window_width) as i32, m as i32),
        Direction::FromBottom => (
            centred_offset(output_width, window_width) as i32,
            (oh - wh - m) as i32,
        ),
        Direction::FromLeft => (m as i32, centred_offset(output_height, window_height) as i32),
        Direction::FromRight => (
            (ow - ww - m) as i32,
            centred_offset(output_height, window_height) as i32,
        ),
    }
}

/// Off-screen position of a hidden scratchpad window.
pub fn calculate_hide_position(
    direction: Direction,
    output_width: u32,
    output_height: u32,
    window_width: u32,
    window_height: u32,
    margin: u32,
) -> (r: (i32, i32))
    requires
        fits_i32(
            hidden_position(
                direction,
                output_width as int,
                output_height as int,
                window_width as int,
                window_height as int,
                margin as int,
            ),
        ),
    ensures
        (r.0 as int, r.1 as int) == hidden_position(
            direction,
            output_width as int,
            output_height as int,
            window_width as int,
            window_height as int,
            margin as int,
        ),
{
    let (ow, oh, ww, wh, m) = (
        output_width as i64,
        output_height as i64,
        window_width as i64,
        window_height as i64,
        margin as i64,
    );
    match direction {
        Direction::FromTop => (centred_offset(output_width, window_width) as i32, (-(wh + m)) as i32),
        Direction::FromBottom => (centred_offset(output_width, window_width) as i32, (oh + m) as i32),
        Direction::FromLeft => ((-(ww + m)) as i32, centred_offset(output_height, window_height) as i32),
        Direction::FromRight => ((ow + m) as i32, centred_offset(output_height, window_height) as i32),
    }
}

/// Margin that a window at `(x, y)` keeps from the edge of the direction,
/// zero where it stands beyond that edge.
pub fn extract_margin(
    direction: Direction,
    output_width: u32,
    output_height: u32,
    window_width: u32,
    window_height: u32,
    x: i32,
    y: i32,
) -> (r: u32)
    requires
        raw_margin(
            direction,
            output_width as int,
            output_height as int,
            window_width as int,
            window_height as int,
            x as int,
            y as int,
        ) <= u32::MAX,
    ensures
        r as int == margin_of(
            direction,
            output_width as int,
            output_height as int,
            window_width as int,
            window_height as int,
            x as int,
            y as int,
        ),
{
    let raw: i64 = match direction {
        Direction::FromTop => y as i64,
        Direction::FromBottom => output_height as i64 - window_height as i64 - y as i64,
        Direction::FromLeft => x as i64,
        Direction::FromRight => output_width as i64 - window_width as i64 - x as i64,
    };
    if raw < 0 {
        0
    } else {
        raw as u32
    }
}

/// Relative move that brings a window from `(cx, cy)` to `(tx, ty)`.
pub fn move_delta(cx: i32, cy: i32, tx: i32, ty: i32) -> (r: (i64, i64))
    ensures
        r.0 == tx - cx,
        r.1 == ty - cy,
{
    (tx as i64 - cx as i64, ty as i64 - cy as i64)
}

/// Reading the margin back from the visible position gives the margin that
/// placed the window there.
pub proof fn lemma_margin_round_trip(d: Direction, ow: u32, oh: u32, ww: u32, wh: u32, m: u32)
    ensures
        ({
            let p = visible_position(d, ow as int, oh as int, ww as int, wh as int, m as int);
            margin_of(d, ow as int, oh as int, ww as int, wh as int, p.0, p.1) == m as int
        }),
{
}

/// A window as large as its output, with no margin, is shown at the origin
/// whatever its direction; with any margin, the axis it is centred on reads zero.
pub proof fn lemma_full_size_at_origin(d: Direction, ow: u32, oh: u32, m: u32)
    ensures
        m == 0 ==> visible_position(d, ow as int, oh as int, ow as int, oh as int, m as int) == (0int, 0int),
        ({
            let p = visible_position(d, ow as int, oh as int, ow as int, oh as int, m as int);
            match d {
                Direction::FromTop | Direction::FromBottom => p.0 == 0,
                Direction::FromLeft | Direction::FromRight => p.1 == 0,
            }
        }),
{
}

/// From the top, a positive margin puts the shown window below the top edge and
/// the hidden one above it, even when the margin exceeds the output height.
pub proof fn lemma_from_top_signs(ow: u32, oh: u32, ww: u32, wh: u32, m: u32)
    requires
        m > 0,
    ensures
        visible_position(Direction::FromTop, ow as int, oh as int, ww as int, wh as int, m as int).1 > 0,
        hidden_position(Direction::FromTop, ow as int, oh as int, ww as int, wh as int, m as int).1 < 0,
{
}

} // verus!
