//! Where a watermark is drawn on the canvas: one anchored placement, or a
//! grid of tiles.  All coordinates are in pixels, measured as `i32` the way
//! the drawing routine takes them.

use vstd::prelude::*;
use vstd::string::*;

verus! {

/// Placement along one axis.
#[derive(Clone, Copy, Debug)]
pub enum Align {
    Start,
    Center,
    End,
}

/// Horizontal placement named by a position code: `nw`, `w`, `sw` put the
/// text at the left margin, `ne`, `e`, `se` at the right one, anything else
/// centres it.
pub open spec fn horizontal_align(p: Seq<char>) -> Align {
    if p == seq!['n', 'w'] || p == seq!['w'] || p == seq!['s', 'w'] {
        Align::Start
    } else if p == seq!['n', 'e'] || p == seq!['e'] || p == seq!['s', 'e'] {
        Align::End
    } else {
        Align::Center
    }
}

/// Vertical placement named by a position code: `nw`, `n`, `ne` at the top
/// margin, `sw`, `s`, `se` at the bottom one, anything else centred.
pub open spec fn vertical_align(p: Seq<char>) -> Align {
    if p == seq!['n', 'w'] || p == seq!['n'] || p == seq!['n', 'e'] {
        Align::Start
    } else if p == seq!['s', 'w'] || p == seq!['s'] || p == seq!['s', 'e'] {
        Align::End
    } else {
        Align::Center
    }
}

/// The `i32` that a `u32` becomes under `as i32` (two's complement wrap).
pub open spec fn signed(x: u32) -> int {
    if x <= 0x7fff_ffff {
        x as int
    } else {
        x - 0x1_0000_0000
    }
}

pub open spec fn fits_i32(v: int) -> bool {
    i32::MIN <= v <= i32::MAX
}

/// Division by two rounding toward zero, as `i32` division does.
pub open spec fn half_toward_zero(d: int) -> int {
    if d >= 0 {
        d / 2
    } else {
        -((-d) / 2)
    }
}

/// Offset of text of length `size` placed along an axis of length `extent`.
pub open spec fn anchor_offset(align: Align, extent: int, size: int, margin: int) -> int {
    match align {
        Align::Start => margin,
        Align::End => extent - size - margin,
        Align::Center => half_toward_zero(extent - size),
    }
}

/// The `i32` arithmetic of `anchor_offset` does not overflow.
pub open spec fn anchor_fits(align: Align, extent: int, size: int, margin: int) -> bool {
    match align {
        Align::Start => true,
        Align::End => fits_i32(extent - size) && fits_i32(extent - size - margin),
        Align::Center => fits_i32(extent - size),
    }
}

/// Distance between neighbouring tiles: text size plus spacing, never less
/// than the text size.
pub open spec fn tile_step(size: int, spacing: int) -> int {
    if size + spacing >= size {
        size + spacing
    } else {
        size
    }
}

/// How many tiles fit along an axis: tiles start at the margin, every
/// `step` pixels, as long as a tile ends within `extent + margin`.
pub open spec fn tile_count(extent: int, size: int, step: int) -> nat {
    if size <= extent && step > 0 {
        ((extent - size) / step + 1) as nat
    } else {
        0
    }
}

/// One axis of the tiling loop runs to its end without overflowing `i32`.
pub open spec fn tile_axis_fits(extent: int, size: int, margin: int, step: int) -> bool {
    &&& fits_i32(extent + margin)
    &&& fits_i32(margin + size)
    &&& size <= extent ==> {
        &&& step > 0
        &&& fits_i32(margin + tile_count(extent, size, step) * step)
        &&& fits_i32(margin + tile_count(extent, size, step) * step + size)
    }
}

/// The inputs for which the placement is computed without `i32` overflow
/// and (for tiling) without a loop that never ends: the tool's own
/// arithmetic on them, done in `i32`, stays in range.
pub open spec fn layout_fits(
    canvas_w: u32,
    canvas_h: u32,
    text_w: u32,
    text_h: u32,
    margin: u32,
    spacing: u32,
    position: Seq<char>,
    tile: bool,
) -> bool {
    let (w, h, tw, th, m, s) = (
        signed(canvas_w),
        signed(canvas_h),
        signed(text_w),
        signed(text_h),
        signed(margin),
        signed(spacing),
    );
    if text_w == 0 || text_h == 0 {
        true
    } else if tile {
        &&& fits_i32(tw + s)
        &&& fits_i32(th + s)
        &&& tile_axis_fits(h, th, m, tile_step(th, s))
        &&& tile_count(h, th, tile_step(th, s)) > 0 ==> tile_axis_fits(w, tw, m, tile_step(tw, s))
    } else {
        &&& anchor_fits(horizontal_align(position), w, tw, m)
        &&& anchor_fits(vertical_align(position), h, th, m)
    }
}

/// The tiles, row by row from the top, each row left to right.
pub open spec fn tile_grid(w: int, h: int, tw: int, th: int, m: int, s: int) -> Seq<(i32, i32)> {
    let sx = tile_step(tw, s);
    let sy = tile_step(th, s);
    let cols = tile_count(w, tw, sx);
    let rows = tile_count(h, th, sy);
    Seq::new(
        cols * rows,
        |k: int| ((m + (k % (cols as int)) * sx) as i32, (m + (k / (cols as int)) * sy) as i32),
    )
}

/// The top-left corners at which the watermark text is drawn.
pub open spec fn watermark_positions_spec(
    canvas_w: u32,
    canvas_h: u32,
    text_w: u32,
    text_h: u32,
    margin: u32,
    spacing: u32,
    position: Seq<char>,
    tile: bool,
) -> Seq<(i32, i32)> {
    let (w, h, tw, th, m, s) = (
        signed(canvas_w),
        signed(canvas_h),
        signed(text_w),
        signed(text_h),
        signed(margin),
        signed(spacing),
    );
    if text_w == 0 || text_h == 0 {
        Seq::empty()
    } else if tile {
        tile_grid(w, h, tw, th, m, s)
    } else {
        seq![
            (
                anchor_offset(horizontal_align(position), w, tw, m) as i32,
                anchor_offset(vertical_align(position), h, th, m) as i32,
            ),
        ]
    }
}

fn to_i32(x: u32) -> (r: i32)
    ensures
        r as int == signed(x),
{
    let r = x as i32;
    assert(x <= 0x7fff_ffff ==> r == x) by (bit_vector)
        requires
            r == x as i32,
    ;
    assert(x > 0x7fff_ffff ==> r < 0 && x - 0x8000_0000 == r + 0x8000_0000) by (bit_vector)
        requires
            r == x as i32,
    ;
    r
}

fn is_code1(s: &str, a: char) -> (r: bool)
    ensures
        r == (s@ == seq![a]),
{
    if s.unicode_len() == 1 && s.get_char(0) == a {
        assert(s@ =~= seq![a]);
        true
    } else {
        false
    }
}

fn is_code2(s: &str, a: char, b: char) -> (r: bool)
    ensures
        r == (s@ == seq![a, b]),
{
    if s.unicode_len() == 2 && s.get_char(0) == a && s.get_char(1) == b {
        assert(s@ =~= seq![a, b]);
        true
    } else {
        false
    }
}

/// The horizontal placement named by a position code.
pub fn horizontal_align_of(position: &str) -> (r: Align)
    ensures
        r == horizontal_align(position@),
{
    if is_code2(position, 'n', 'w') || is_code1(position, 'w') || is_code2(position, 's', 'w') {
        Align::Start
    } else if is_code2(position, 'n', 'e') || is_code1(position, 'e') || is_code2(position, 's', 'e') {
        Align::End
    } else {
        Align::Center
    }
}

/// The vertical placement named by a position code.
pub fn vertical_align_of(position: &str) -> (r: Align)
    ensures
        r == vertical_align(position@),
{
    if is_code2(position, 'n', 'w') || is_code1(position, 'n') || is_code2(position, 'n', 'e') {
        Align::Start
    } else if is_code2(position, 's', 'w') || is_code1(position, 's') || is_code2(position, 's', 'e') {
        Align::End
    } else {
        Align::Center
    }
}

fn anchor(align: Align, extent: i32, size: i32, margin: i32) -> (r: i32)
    requires
        anchor_fits(align, extent as int, size as int, margin as int),
    ensures
        r as int == anchor_offset(align, extent as int, size as int, margin as int),
{
    match align {
        Align::Start => margin,
        Align::End => extent - size - margin,
        Align::Center => {
            let d = extent - size;
            if d >= 0 {
                d / 2
            } else {
                let q = (-(d as i64)) / 2;
                -(q as i32)
            }
        },
    }
}

fn fits_i32_exec(v: i128) -> (r: bool)
    ensures
        r == fits_i32(v as int),
{
    -2147483648 <= v && v <= 2147483647
}

fn anchor_fits_exec(align: Align, extent: i32, size: i32, margin: i32) -> (r: bool)
    ensures
        r == anchor_fits(align, extent as int, size as int, margin as int),
{
    let (e, s, m) = (extent as i128, size as i128, margin as i128);
    match align {
        Align::Start => true,
        Align::End => fits_i32_exec(e - s) && fits_i32_exec(e - s - m),
        Align::Center => fits_i32_exec(e - s),
    }
}

fn tile_axis_fits_exec(extent: i32, size: i32, margin: i32, step: i64) -> (r: bool)
    requires
        fits_i32(step as int),
    ensures
        r == tile_axis_fits(extent as int, size as int, margin as int, step as int),
{
    let (e, s, m) = (extent as i128, size as i128, margin as i128);
    if !fits_i32_exec(e + m) || !fits_i32_exec(m + s) {
        return false;
    }
    if s > e {
        return true;
    }
    if step <= 0 {
        return false;
    }
    let count = (e - s) / (step as i128) + 1;
    assert(count == tile_count(extent as int, size as int, step as int));
    assert(0 <= (e - s) / (step as int) <= e - s) by {
        vstd::arithmetic::div_mod::lemma_div_is_ordered_by_denominator((e - s) as int, 1, step as int);
        vstd::arithmetic::div_mod::lemma_div_pos_is_pos((e - s) as int, step as int);
    }
    assert(0 <= count * (step as i128) <= 0x1_0000_0000 * 0x1_0000_0000) by (nonlinear_arith)
        requires
            0 <= count <= 0x1_0000_0000,
            0 < step <= 0x8000_0000,
    ;
    let last = m + count * (step as i128);
    fits_i32_exec(last) && fits_i32_exec(last + s)
}

/// Whether `watermark_positions` may be called with these inputs
/// (`layout_fits`).
pub fn layout_in_range(
    canvas_w: u32,
    canvas_h: u32,
    text_w: u32,
    text_h: u32,
    margin: u32,
    spacing: u32,
    position: &str,
    tile: bool,
) -> (r: bool)
    ensures
        r == layout_fits(canvas_w, canvas_h, text_w, text_h, margin, spacing, position@, tile),
{
    if text_w == 0 || text_h == 0 {
        return true;
    }
    let tw = to_i32(text_w);
    let th = to_i32(text_h);
    let m = to_i32(margin);
    let w = to_i32(canvas_w);
    let h = to_i32(canvas_h);
    if !tile {
        return anchor_fits_exec(horizontal_align_of(position), w, tw, m) && anchor_fits_exec(
            vertical_align_of(position),
            h,
            th,
            m,
        );
    }
    let s = to_i32(spacing);
    let (tw64, th64, s64) = (tw as i64, th as i64, s as i64);
    if !fits_i32_exec((tw64 + s64) as i128) || !fits_i32_exec((th64 + s64) as i128) {
        return false;
    }
    let sx: i64 = if tw64 + s64 >= tw64 { tw64 + s64 } else { tw64 };
    let sy: i64 = if th64 + s64 >= th64 { th64 + s64 } else { th64 };
    if !tile_axis_fits_exec(h, th, m, sy) {
        return false;
    }
    let rows_positive = th <= h && sy > 0;
    if rows_positive {
        tile_axis_fits_exec(w, tw, m, sx)
    } else {
        true
    }
}

/// `j * step <= d` exactly for the first `d / step + 1` values of `j`.
proof fn lemma_tile_index_bound(j: int, step: int, d: int)
    requires
        step > 0,
        d >= 0,
        j >= 0,
    ensures
        (j * step <= d) == (j < d / step + 1),
{
    vstd::arithmetic::div_mod::lemma_fundamental_div_mod(d, step);
    let q = d / step;
    let r = d % step;
    assert(0 <= r < step) by {
        vstd::arithmetic::div_mod::lemma_mod_pos_bound(d, step);
    }
    assert((j * step <= d) == (j <= q)) by (nonlinear_arith)
        requires
            d == step * q + r,
            0 <= r < step,
            step > 0,
            j >= 0,
    ;
}

proof fn lemma_step_le(i: int, c: int, step: int)
    requires
        0 <= i <= c,
        step > 0,
    ensures
        0 <= i * step <= c * step,
        (i + 1) * step == i * step + step,
{
    assert(0 <= i * step <= c * step) by (nonlinear_arith)
        requires
            0 <= i <= c,
            step > 0,
    ;
    assert((i + 1) * step == i * step + step) by (nonlinear_arith);
}

/// Anchored text sits at the margin (start), ends at the margin (end), or
/// is centred to within one pixel.
pub proof fn law_anchor_placement(align: Align, extent: int, size: int, margin: int)
    ensures
        ({
            let off = anchor_offset(align, extent, size, margin);
            match align {
                Align::Start => off == margin,
                Align::End => off + size + margin == extent,
                Align::Center => -1 <= (extent - size) - 2 * off <= 1,
            }
        }),
{
}

/// A single placement goes where its position code says: `nw`, `w`, `sw`
/// at the left margin, `ne`, `e`, `se` with the text ending at the right
/// margin, any other code centred (rounding toward zero); `nw`, `n`, `ne`
/// at the top margin, `sw`, `s`, `se` with the text ending at the bottom
/// margin, any other code centred.
pub proof fn law_named_positions(
    canvas_w: u32,
    canvas_h: u32,
    text_w: u32,
    text_h: u32,
    margin: u32,
    spacing: u32,
    p: Seq<char>,
)
    requires
        text_w != 0,
        text_h != 0,
        layout_fits(canvas_w, canvas_h, text_w, text_h, margin, spacing, p, false),
    ensures
        ({
            let ps = watermark_positions_spec(
                canvas_w,
                canvas_h,
                text_w,
                text_h,
                margin,
                spacing,
                p,
                false,
            );
            let (w, h, tw, th, m) = (
                signed(canvas_w),
                signed(canvas_h),
                signed(text_w),
                signed(text_h),
                signed(margin),
            );
            let west = p == seq!['n', 'w'] || p == seq!['w'] || p == seq!['s', 'w'];
            let east = p == seq!['n', 'e'] || p == seq!['e'] || p == seq!['s', 'e'];
            let north = p == seq!['n', 'w'] || p == seq!['n'] || p == seq!['n', 'e'];
            let south = p == seq!['s', 'w'] || p == seq!['s'] || p == seq!['s', 'e'];
            &&& ps.len() == 1
            &&& west ==> ps[0].0 == m
            &&& east ==> ps[0].0 == w - tw - m
            &&& !west && !east ==> ps[0].0 == if w >= tw {
                (w - tw) / 2
            } else {
                -((tw - w) / 2)
            }
            &&& north ==> ps[0].1 == m
            &&& south ==> ps[0].1 == h - th - m
            &&& !north && !south ==> ps[0].1 == if h >= th {
                (h - th) / 2
            } else {
                -((th - h) / 2)
            }
        }),
{
    let (nw, n, ne, w, e, sw, s, se) = (
        seq!['n', 'w'],
        seq!['n'],
        seq!['n', 'e'],
        seq!['w'],
        seq!['e'],
        seq!['s', 'w'],
        seq!['s'],
        seq!['s', 'e'],
    );
    assert(nw != sw && nw != ne && nw != se && ne != sw && ne != se && sw != se) by {
        assert(nw[0] != sw[0] && nw[1] != ne[1] && nw[0] != se[0]);
        assert(ne[0] != sw[0] && ne[0] != se[0] && sw[1] != se[1]);
    }
    assert(n != w && n != e && n != s && w != e && w != s && e != s) by {
        assert(n[0] != w[0] && n[0] != e[0] && n[0] != s[0]);
        assert(w[0] != e[0] && w[0] != s[0] && e[0] != s[0]);
    }
}

/// Facts about the `k`-th tile of a grid whose loops ran to completion.
proof fn lemma_tile_cell(w: int, h: int, tw: int, th: int, m: int, s: int, k: int)
    requires
        fits_i32(m),
        tile_axis_fits(h, th, m, tile_step(th, s)),
        tile_count(h, th, tile_step(th, s)) > 0 ==> tile_axis_fits(w, tw, m, tile_step(tw, s)),
        0 <= k < tile_grid(w, h, tw, th, m, s).len(),
    ensures
        ({
            let sx = tile_step(tw, s);
            let sy = tile_step(th, s);
            let cols = tile_count(w, tw, sx) as int;
            let rows = tile_count(h, th, sy) as int;
            &&& cols > 0 && rows > 0 && sx > 0 && sy > 0
            &&& 0 <= k % cols < cols
            &&& 0 <= k / cols < rows
            &&& tile_grid(w, h, tw, th, m, s)[k].0 as int == m + (k % cols) * sx
            &&& tile_grid(w, h, tw, th, m, s)[k].1 as int == m + (k / cols) * sy
            &&& 0 <= (k % cols) * sx <= w - tw
            &&& 0 <= (k / cols) * sy <= h - th
        }),
{
    let sx = tile_step(tw, s);
    let sy = tile_step(th, s);
    let cols = tile_count(w, tw, sx) as int;
    let rows = tile_count(h, th, sy) as int;
    assert(cols * rows > 0);
    assert(cols > 0 && rows > 0) by (nonlinear_arith)
        requires
            cols * rows > 0,
            cols >= 0,
            rows >= 0,
    ;
    let i = k % cols;
    let j = k / cols;
    vstd::arithmetic::div_mod::lemma_fundamental_div_mod(k, cols);
    vstd::arithmetic::div_mod::lemma_mod_pos_bound(k, cols);
    vstd::arithmetic::div_mod::lemma_div_pos_is_pos(k, cols);
    assert(j < rows) by (nonlinear_arith)
        requires
            k == cols * j + i,
            0 <= i,
            k < cols * rows,
            cols > 0,
    ;
    lemma_tile_index_bound(i, sx, w - tw);
    lemma_tile_index_bound(j, sy, h - th);
    lemma_step_le(i, cols, sx);
    lemma_step_le(j, rows, sy);
    assert(fits_i32(m + i * sx));
    assert(fits_i32(m + j * sy));
    let g = tile_grid(w, h, tw, th, m, s);
    assert(g[k].0 == (m + i * sx) as i32);
    assert(g[k].0 as int == m + i * sx);
    assert(g[k].1 as int == m + j * sy);
}

/// Every tile starts at or after the margin and ends within the canvas
/// extended by the margin, and each row and column holds as many tiles as
/// fit: one more step would cross that bound.
pub proof fn law_tiles_stay_inside(
    canvas_w: u32,
    canvas_h: u32,
    text_w: u32,
    text_h: u32,
    margin: u32,
    spacing: u32,
    position: Seq<char>,
)
    requires
        text_w != 0,
        text_h != 0,
        layout_fits(canvas_w, canvas_h, text_w, text_h, margin, spacing, position, true),
    ensures
        ({
            let ps = watermark_positions_spec(
                canvas_w,
                canvas_h,
                text_w,
                text_h,
                margin,
                spacing,
                position,
                true,
            );
            let (w, h, tw, th, m) = (
                signed(canvas_w),
                signed(canvas_h),
                signed(text_w),
                signed(text_h),
                signed(margin),
            );
            let sx = tile_step(tw, signed(spacing));
            let sy = tile_step(th, signed(spacing));
            &&& forall|k: int|
                0 <= k < ps.len() ==> m <= #[trigger] ps[k].0 && ps[k].0 + tw <= w + m && m
                    <= ps[k].1 && ps[k].1 + th <= h + m
            &&& tile_count(w, tw, sx) > 0 ==> m + tile_count(w, tw, sx) * sx + tw > w + m
            &&& tile_count(h, th, sy) > 0 ==> m + tile_count(h, th, sy) * sy + th > h + m
        }),
{
    let (w, h, tw, th, m, s) = (
        signed(canvas_w),
        signed(canvas_h),
        signed(text_w),
        signed(text_h),
        signed(margin),
        signed(spacing),
    );
    let ps = tile_grid(w, h, tw, th, m, s);
    assert forall|k: int| 0 <= k < ps.len() implies m <= #[trigger] ps[k].0 && ps[k].0 + tw <= w
        + m && m <= ps[k].1 && ps[k].1 + th <= h + m by {
        lemma_tile_cell(w, h, tw, th, m, s, k);
    }
    let sx = tile_step(tw, s);
    let sy = tile_step(th, s);
    if tile_count(w, tw, sx) > 0 {
        lemma_tile_index_bound(tile_count(w, tw, sx) as int, sx, w - tw);
    }
    if tile_count(h, th, sy) > 0 {
        lemma_tile_index_bound(tile_count(h, th, sy) as int, sy, h - th);
    }
}

/// Tiles never overlap: two different tiles are a full text width apart
/// horizontally or a full text height apart vertically.
pub proof fn law_tiles_do_not_overlap(
    canvas_w: u32,
    canvas_h: u32,
    text_w: u32,
    text_h: u32,
    margin: u32,
    spacing: u32,
    position: Seq<char>,
)
    requires
        text_w != 0,
        text_h != 0,
        layout_fits(canvas_w, canvas_h, text_w, text_h, margin, spacing, position, true),
    ensures
        ({
            let ps = watermark_positions_spec(
                canvas_w,
                canvas_h,
                text_w,
                text_h,
                margin,
                spacing,
                position,
                true,
            );
            let (tw, th) = (signed(text_w), signed(text_h));
            forall|k1: int, k2: int|
                0 <= k1 < ps.len() && 0 <= k2 < ps.len() && k1 != k2 ==> {
                    ||| #[trigger] ps[k1].0 - #[trigger] ps[k2].0 >= tw
                    ||| ps[k2].0 - ps[k1].0 >= tw
                    ||| ps[k1].1 - ps[k2].1 >= th
                    ||| ps[k2].1 - ps[k1].1 >= th
                }
        }),
{
    let (w, h, tw, th, m, s) = (
        signed(canvas_w),
        signed(canvas_h),
        signed(text_w),
        signed(text_h),
        signed(margin),
        signed(spacing),
    );
    let ps = tile_grid(w, h, tw, th, m, s);
    let sx = tile_step(tw, s);
    let sy = tile_step(th, s);
    let cols = tile_count(w, tw, sx) as int;
    assert forall|k1: int, k2: int|
        0 <= k1 < ps.len() && 0 <= k2 < ps.len() && k1 != k2 implies {
        ||| #[trigger] ps[k1].0 - #[trigger] ps[k2].0 >= tw
        ||| ps[k2].0 - ps[k1].0 >= tw
        ||| ps[k1].1 - ps[k2].1 >= th
        ||| ps[k2].1 - ps[k1].1 >= th
    } by {
        lemma_tile_cell(w, h, tw, th, m, s, k1);
        lemma_tile_cell(w, h, tw, th, m, s, k2);
        vstd::arithmetic::div_mod::lemma_fundamental_div_mod(k1, cols);
        vstd::arithmetic::div_mod::lemma_fundamental_div_mod(k2, cols);
        let (i1, j1, i2, j2) = (k1 % cols, k1 / cols, k2 % cols, k2 / cols);
        if j1 == j2 {
            assert(i1 != i2);
            lemma_apart(i1, i2, sx);
        } else {
            lemma_apart(j1, j2, sy);
        }
    }
}

/// Changing the margin of a tiling keeps the number of tiles and shifts
/// every tile by the change, along both axes; the position code plays no
/// part.
pub proof fn law_margin_shifts_tiles(
    canvas_w: u32,
    canvas_h: u32,
    text_w: u32,
    text_h: u32,
    margin1: u32,
    margin2: u32,
    spacing: u32,
    position1: Seq<char>,
    position2: Seq<char>,
)
    requires
        text_w != 0,
        text_h != 0,
        layout_fits(canvas_w, canvas_h, text_w, text_h, margin1, spacing, position1, true),
        layout_fits(canvas_w, canvas_h, text_w, text_h, margin2, spacing, position2, true),
    ensures
        ({
            let ps1 = watermark_positions_spec(
                canvas_w,
                canvas_h,
                text_w,
                text_h,
                margin1,
                spacing,
                position1,
                true,
            );
            let ps2 = watermark_positions_spec(
                canvas_w,
                canvas_h,
                text_w,
                text_h,
                margin2,
                spacing,
                position2,
                true,
            );
            let d = signed(margin2) - signed(margin1);
            &&& ps1.len() == ps2.len()
            &&& forall|k: int|
                0 <= k < ps1.len() ==> #[trigger] ps2[k].0 == ps1[k].0 + d && ps2[k].1 == ps1[k].1
                    + d
        }),
{
    let (w, h, tw, th, m1, m2, s) = (
        signed(canvas_w),
        signed(canvas_h),
        signed(text_w),
        signed(text_h),
        signed(margin1),
        signed(margin2),
        signed(spacing),
    );
    let g1 = tile_grid(w, h, tw, th, m1, s);
    let g2 = tile_grid(w, h, tw, th, m2, s);
    assert forall|k: int| 0 <= k < g1.len() implies #[trigger] g2[k].0 == g1[k].0 + (m2 - m1)
        && g2[k].1 == g1[k].1 + (m2 - m1) by {
        lemma_tile_cell(w, h, tw, th, m1, s, k);
        lemma_tile_cell(w, h, tw, th, m2, s, k);
    }
}

/// With every size, the margin and the spacing at most 2^28 pixels, the
/// placement never overflows nor loops forever, whatever the position code
/// and mode.
pub proof fn law_moderate_sizes_fit(
    canvas_w: u32,
    canvas_h: u32,
    text_w: u32,
    text_h: u32,
    margin: u32,
    spacing: u32,
    position: Seq<char>,
    tile: bool,
)
    requires
        canvas_w <= 0x1000_0000,
        canvas_h <= 0x1000_0000,
        text_w <= 0x1000_0000,
        text_h <= 0x1000_0000,
        margin <= 0x1000_0000,
        spacing <= 0x1000_0000,
    ensures
        layout_fits(canvas_w, canvas_h, text_w, text_h, margin, spacing, position, tile),
{
    let (w, h, tw, th, m, s) = (
        signed(canvas_w),
        signed(canvas_h),
        signed(text_w),
        signed(text_h),
        signed(margin),
        signed(spacing),
    );
    if text_w != 0 && text_h != 0 && tile {
        lemma_moderate_axis(h, th, m, s);
        lemma_moderate_axis(w, tw, m, s);
    }
}

proof fn lemma_moderate_axis(extent: int, size: int, margin: int, spacing: int)
    requires
        0 <= extent <= 0x1000_0000,
        1 <= size <= 0x1000_0000,
        0 <= margin <= 0x1000_0000,
        0 <= spacing <= 0x1000_0000,
    ensures
        tile_axis_fits(extent, size, margin, tile_step(size, spacing)),
{
    let step = tile_step(size, spacing);
    if size <= extent {
        let d = extent - size;
        let q = d / step;
        vstd::arithmetic::div_mod::lemma_fundamental_div_mod(d, step);
        vstd::arithmetic::div_mod::lemma_mod_pos_bound(d, step);
        let count = tile_count(extent, size, step) as int;
        assert(count == q + 1);
        assert(count * step <= d + step) by (nonlinear_arith)
            requires
                d == step * q + d % step,
                0 <= d % step,
                count == q + 1,
        ;
        assert(count * step >= 0) by (nonlinear_arith)
            requires
                count >= 1,
                step > 0,
        ;
    }
}

/// Distinct grid indices are at least one step apart.
proof fn lemma_apart(a: int, b: int, step: int)
    requires
        a != b,
        step > 0,
    ensures
        a * step - b * step >= step || b * step - a * step >= step,
{
    if a > b {
        assert(a * step - b * step >= step) by (nonlinear_arith)
            requires
                a >= b + 1,
                step > 0,
        ;
    } else {
        assert(b * step - a * step >= step) by (nonlinear_arith)
            requires
                b >= a + 1,
                step > 0,
        ;
    }
}

/// The corners at which the watermark text is drawn on a canvas of
/// `canvas_w` x `canvas_h` pixels, for text measuring `text_w` x `text_h`:
/// nothing for empty text; with `tile`, a grid starting at the margin and
/// stepping by text size plus spacing while the text still ends within the
/// canvas plus margin; otherwise a single corner given by the position code.
pub fn watermark_positions(
    canvas_w: u32,
    canvas_h: u32,
    text_w: u32,
    text_h: u32,
    margin: u32,
    spacing: u32,
    position: &str,
    tile: bool,
) -> (r: Vec<(i32, i32)>)
    requires
        layout_fits(canvas_w, canvas_h, text_w, text_h, margin, spacing, position@, tile),
    ensures
        r@ == watermark_positions_spec(
            canvas_w,
            canvas_h,
            text_w,
            text_h,
            margin,
            spacing,
            position@,
            tile,
        ),
{
    let mut out: Vec<(i32, i32)> = Vec::new();
    if text_w == 0 || text_h == 0 {
        assert(out@ =~= Seq::<(i32, i32)>::empty());
        return out;
    }
    let tw = to_i32(text_w);
    let th = to_i32(text_h);
    let m = to_i32(margin);
    let w = to_i32(canvas_w);
    let h = to_i32(canvas_h);
    if !tile {
        let x = anchor(horizontal_align_of(position), w, tw, m);
        let y = anchor(vertical_align_of(position), h, th, m);
        out.push((x, y));
        return out;
    }
    let s = to_i32(spacing);
    let sx = if tw + s >= tw { tw + s } else { tw };
    let sy = if th + s >= th { th + s } else { th };
    let ghost cols: int = tile_count(w as int, tw as int, sx as int) as int;
    let ghost rows: int = tile_count(h as int, th as int, sy as int) as int;
    let ghost grid = tile_grid(w as int, h as int, tw as int, th as int, m as int, s as int);
    assert(grid.len() == cols * rows);
    let mut y: i32 = m;
    let ghost mut j: int = 0;
    proof {
        if th <= h {
            lemma_tile_index_bound(rows, sy as int, h - th);
        }
    }
    while y + th <= h + m
        invariant
            tile_axis_fits(h as int, th as int, m as int, sy as int),
            rows > 0 ==> tile_axis_fits(w as int, tw as int, m as int, sx as int),
            rows == tile_count(h as int, th as int, sy as int),
            cols == tile_count(w as int, tw as int, sx as int),
            grid == tile_grid(w as int, h as int, tw as int, th as int, m as int, s as int),
            sx as int == tile_step(tw as int, s as int),
            sy as int == tile_step(th as int, s as int),
            grid.len() == cols * rows,
            0 <= j <= rows,
            rows > 0 ==> sy > 0,
            y as int == m + j * sy,
            out@ == grid.take(j * cols),
            fits_i32(y + th),
            fits_i32(y as int),
        decreases rows - j,
    {
        proof {
            lemma_tile_index_bound(j, sy as int, h - th);
            lemma_step_le(j, rows, sy as int);
            lemma_step_le(j * cols, j * cols, 1);
            assert(j * cols + cols == (j + 1) * cols) by (nonlinear_arith);
            assert((j + 1) * cols <= rows * cols) by (nonlinear_arith)
                requires j < rows, cols >= 0;
        }
        let mut x: i32 = m;
        let ghost mut i: int = 0;
        while x + tw <= w + m
            invariant
                tile_axis_fits(w as int, tw as int, m as int, sx as int),
                cols == tile_count(w as int, tw as int, sx as int),
                grid == tile_grid(w as int, h as int, tw as int, th as int, m as int, s as int),
                sx as int == tile_step(tw as int, s as int),
                sy as int == tile_step(th as int, s as int),
                grid.len() == cols * rows,
                j * cols + cols <= cols * rows,
                0 <= j < rows,
                fits_i32(x + tw),
                0 <= i <= cols,
                cols > 0 ==> sx > 0,
                x as int == m + i * sx,
                y as int == m + j * sy,
                out@ == grid.take(j * cols + i),
            decreases cols - i,
        {
            proof {
                if cols > 0 {
                    lemma_tile_index_bound(i, sx as int, w - tw);
                    lemma_step_le(i, cols, sx as int);
                } else {
                    assert(false) by {
                        if tw <= w {
                            lemma_tile_index_bound(0, sx as int, w - tw);
                        }
                    }
                }
                let k = j * cols + i;
                vstd::arithmetic::div_mod::lemma_fundamental_div_mod_converse(k, cols, j, i);
                assert(i < cols);
                lemma_step_le(i + 1, cols, sx as int);
                assert(grid[k] == (x, y));
            }
            out.push((x, y));
            proof {
                let k = j * cols + i;
                assert(out@ =~= grid.take(k + 1));
            }
            x = x + sx;
            proof {
                lemma_step_le(i + 1, cols, sx as int);
            }
            proof {
                i = i + 1;
            }
        }
        proof {
            if cols > 0 {
                lemma_tile_index_bound(i, sx as int, w - tw);
            }
            assert(i == cols);
            lemma_step_le(j + 1, rows, sy as int);
        }
        y = y + sy;
        proof {
            j = j + 1;
        }
    }
    proof {
        if th <= h {
            lemma_tile_index_bound(j, sy as int, h - th);
        }
        assert(j == rows);
        assert(rows * cols == cols * rows) by (nonlinear_arith);
        assert(grid.take(rows * cols) =~= grid);
    }
    out
}

} // verus!
