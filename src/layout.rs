use vstd::prelude::*;
use vstd::arithmetic::div_mod::{lemma_fundamental_div_mod, lemma_mod_pos_bound, lemma_div_pos_is_pos};
use vstd::arithmetic::mul::lemma_mul_inequality;
use crate::geometry::{Point, Rect, Size};

verus! {

/// The position and size granted to one window.
#[derive(Clone, Copy, Debug, PartialEq, Eq, Structural)]
pub struct WindowGeometry {
    pub location: Point,
    pub size: Size,
}

/// A rectangle with unbounded integer coordinates, used to state layouts.
pub struct Tile {
    pub x: int,
    pub y: int,
    pub w: int,
    pub h: int,
}

/// Negative screen dimensions count as zero.
pub open spec fn clamp0(v: int) -> int {
    if v < 0 { 0 } else { v }
}

/// The tiling policy. With at most one window it fills the screen. With more,
/// window 0 takes the left half at full height and the others stack in the
/// right half, each `h / (total - 1)` high (integer division), except the
/// last, which reaches down to the bottom edge and so takes the remainder.
pub open spec fn tile_of(index: int, total: int, sw: int, sh: int) -> Tile {
    let w = clamp0(sw);
    let h = clamp0(sh);
    if total <= 1 {
        Tile { x: 0, y: 0, w: w, h: h }
    } else if index == 0 {
        Tile { x: 0, y: 0, w: w / 2, h: h }
    } else {
        let y = (index - 1) * (h / (total - 1));
        Tile { x: w / 2, y: y, w: w - w / 2, h: if index == total - 1 { h - y } else { h / (total - 1) } }
    }
}

/// The index lies in the window list, or the list holds at most one window
/// (then every index gets the full screen).
pub open spec fn index_fits(index: int, total: int) -> bool {
    total <= 1 || (0 <= index < total)
}

impl WindowGeometry {
    pub open spec fn tile(self) -> Tile {
        Tile {
            x: self.location.x as int,
            y: self.location.y as int,
            w: self.size.w as int,
            h: self.size.h as int,
        }
    }

    pub fn new(x: i32, y: i32, width: i32, height: i32) -> (r: WindowGeometry)
        ensures
            r.location.x == x,
            r.location.y == y,
            r.size.w == width,
            r.size.h == height,
    {
        WindowGeometry { location: Point { x, y }, size: Size { w: width, h: height } }
    }

    /// The bounding rectangle of this window.
    pub fn rect(&self) -> (r: Rect)
        ensures
            r.loc == self.location,
            r.size == self.size,
    {
        Rect { loc: self.location, size: self.size }
    }

    pub open spec fn contains_spec(self, p: Point) -> bool {
        Rect { loc: self.location, size: self.size }.contains_spec(p)
    }

    /// Whether `point` lies inside this window, half-open on the right and bottom.
    pub fn contains_point(&self, point: Point) -> (r: bool)
        ensures
            r == self.contains_spec(point),
    {
        self.rect().contains(point)
    }
}

/// The tiling layout engine: a screen size, and a pure function from
/// (index, window count) to geometry.
pub struct TilingLayout {
    pub screen_size: Size,
}

proof fn lemma_stack_fits(k: int, d: int, h: int)
    requires
        0 <= k < d,
        0 <= h,
    ensures
        0 <= h / d,
        h / d <= h,
        0 <= k * (h / d),
        k * (h / d) + h / d <= h,
{
    lemma_fundamental_div_mod(h, d);
    lemma_mod_pos_bound(h, d);
    lemma_div_pos_is_pos(h, d);
    lemma_mul_inequality(k + 1, d, h / d);
    assert((k + 1) * (h / d) == k * (h / d) + h / d) by (nonlinear_arith);
    assert(0 <= k * (h / d)) by (nonlinear_arith)
        requires
            0 <= k,
            0 <= h / d,
    ;
    assert(h / d <= h) by (nonlinear_arith)
        requires
            1 <= d,
            0 <= h / d,
            h == d * (h / d) + h % d,
            0 <= h % d,
    ;
}

/// Every tile lies inside the (clamped) screen.
pub proof fn lemma_tile_bounds(index: int, total: int, sw: int, sh: int)
    requires
        index_fits(index, total),
    ensures
        0 <= tile_of(index, total, sw, sh).x,
        0 <= tile_of(index, total, sw, sh).w,
        tile_of(index, total, sw, sh).x + tile_of(index, total, sw, sh).w <= clamp0(sw),
        0 <= tile_of(index, total, sw, sh).y,
        0 <= tile_of(index, total, sw, sh).h,
        tile_of(index, total, sw, sh).y + tile_of(index, total, sw, sh).h <= clamp0(sh),
{
    if total > 1 && index != 0 {
        lemma_stack_fits(index - 1, total - 1, clamp0(sh));
    }
}

/// With at most one window, the tile is the whole screen `(0, 0, w, h)`.
pub proof fn single_window_fills_screen(index: int, total: int, w: int, h: int)
    requires
        0 <= total <= 1,
        0 <= w,
        0 <= h,
    ensures
        tile_of(index, total, w, h) == (Tile { x: 0, y: 0, w: w, h: h }),
{
}

/// With several windows the width splits exactly: the master's width and a
/// stacked window's width add up to the screen width, and the stacked
/// column starts where the master ends. Only heights are rounded.
pub proof fn halves_cover_width(index: int, total: int, w: int, h: int)
    requires
        total > 1,
        1 <= index < total,
        0 <= w,
    ensures
        tile_of(0, total, w, h).w + tile_of(index, total, w, h).w == w,
        tile_of(index, total, w, h).x == tile_of(0, total, w, h).w,
        tile_of(0, total, w, h).x == 0,
{
}

/// The last stacked window's bottom edge is exactly the screen's bottom edge.
pub proof fn last_window_reaches_bottom(total: int, w: int, h: int)
    requires
        total > 1,
        0 <= h,
    ensures
        tile_of(total - 1, total, w, h).y + tile_of(total - 1, total, w, h).h == h,
{
}

/// The layout is a pure function: two geometries computed for the same
/// layout, index and window count are equal.
pub proof fn geometry_is_determined(layout: TilingLayout, index: int, total: int, g1: WindowGeometry, g2: WindowGeometry)
    requires
        g1.tile() == layout.tile_spec(index, total),
        g2.tile() == layout.tile_spec(index, total),
    ensures
        g1 == g2,
{
}

impl TilingLayout {
    pub fn new(width: i32, height: i32) -> (r: TilingLayout)
        ensures
            r.screen_size.w == width,
            r.screen_size.h == height,
    {
        TilingLayout { screen_size: Size { w: width, h: height } }
    }

    pub fn update_screen_size(&mut self, width: i32, height: i32)
        ensures
            final(self).screen_size.w == width,
            final(self).screen_size.h == height,
    {
        self.screen_size = Size { w: width, h: height };
    }

    pub open spec fn tile_spec(self, index: int, total: int) -> Tile {
        tile_of(index, total, self.screen_size.w as int, self.screen_size.h as int)
    }

    /// The geometry of the window at `window_index` among `total_windows`.
    pub fn calculate_geometry(&self, window_index: usize, total_windows: usize) -> (r: WindowGeometry)
        requires
            index_fits(window_index as int, total_windows as int),
        ensures
            r.tile() == self.tile_spec(window_index as int, total_windows as int),
    {
        let w: i32 = if self.screen_size.w < 0 { 0 } else { self.screen_size.w };
        let h: i32 = if self.screen_size.h < 0 { 0 } else { self.screen_size.h };
        if total_windows <= 1 {
            return WindowGeometry::new(0, 0, w, h);
        }
        let half_width: i32 = w / 2;
        if window_index == 0 {
            WindowGeometry::new(0, 0, half_width, h)
        } else {
            let slots: usize = total_windows - 1;
            let stack_index: usize = window_index - 1;
            proof {
                lemma_stack_fits(stack_index as int, slots as int, h as int);
            }
            let stack_height: usize = (h as usize) / slots;
            let y: usize = stack_index * stack_height;
            let height: usize = if window_index == slots { h as usize - y } else { stack_height };
            WindowGeometry::new(half_width, y as i32, w - half_width, height as i32)
        }
    }
}

} // verus!
