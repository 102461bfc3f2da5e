use vstd::prelude::*;
use crate::geometry::{Point, Rect, Size};
use crate::layout::{Tile, tile_of, lemma_tile_bounds};
use crate::palette::Paint;
use crate::dock::{fits_i32, trunc_div};
use crate::decorations::{button_rect, BUTTON_SIZE, BUTTON_TOP, CLOSE_OFFSET, MINIMIZE_OFFSET, MAXIMIZE_OFFSET, TITLE_BAR_HEIGHT};
use crate::state::{MirageState, hit_from, tile_contains, window_synced};

verus! {

/// Side of the square drawn at the pointer.
pub const CURSOR_SIZE: i32 = 10;
/// Size of the indicator drawn while no window exists.
pub const INDICATOR_WIDTH: i32 = 200;
pub const INDICATOR_HEIGHT: i32 = 100;

/// One draw operation, painted over everything before it.
#[derive(Clone, Copy, Debug, PartialEq, Eq, Structural)]
pub enum DrawOp {
    /// Fill `rect` with `paint`.
    Solid { rect: Rect, paint: Paint },
    /// Draw the content of window `window` at `rect`.
    Surface { window: usize, rect: Rect },
}

/// A composed frame: the clear of the whole screen, then the draws in order,
/// and the damage: the cleared rectangle, then the rectangle of each draw in
/// the same order.
pub struct Frame {
    pub clear: Rect,
    pub ops: Vec<DrawOp>,
    pub damage: Vec<Rect>,
}

pub open spec fn rect_of(x: int, y: int, w: int, h: int) -> Rect {
    Rect { loc: Point { x: x as i32, y: y as i32 }, size: Size { w: w as i32, h: h as i32 } }
}

pub open spec fn op_rect(op: DrawOp) -> Rect {
    match op {
        DrawOp::Solid { rect, .. } => rect,
        DrawOp::Surface { rect, .. } => rect,
    }
}

pub open spec fn solid(x: int, y: int, w: int, h: int, paint: Paint) -> DrawOp {
    DrawOp::Solid { rect: rect_of(x, y, w, h), paint }
}

/// What is painted for window `i` on tile `t`: its body (content, or a
/// placeholder colored by focus), then its title strip and its close,
/// minimize and maximize buttons.
pub open spec fn window_ops(t: Tile, i: int, content: bool, focused: bool) -> Seq<DrawOp> {
    let body = if content {
        DrawOp::Surface { window: i as usize, rect: rect_of(t.x, t.y, t.w, t.h) }
    } else {
        solid(t.x, t.y, t.w, t.h, if focused { Paint::WindowFocused } else { Paint::WindowUnfocused })
    };
    let right = t.x + t.w;
    let top = t.y + BUTTON_TOP;
    seq![
        body,
        solid(t.x, t.y, t.w, TITLE_BAR_HEIGHT as int, if focused { Paint::TitleStripFocused } else { Paint::TitleStripUnfocused }),
        solid(right - CLOSE_OFFSET, top, BUTTON_SIZE as int, BUTTON_SIZE as int, Paint::CloseButton),
        solid(right - MINIMIZE_OFFSET, top, BUTTON_SIZE as int, BUTTON_SIZE as int, Paint::MinimizeButton),
        solid(right - MAXIMIZE_OFFSET, top, BUTTON_SIZE as int, BUTTON_SIZE as int, Paint::MaximizeButton)
    ]
}

/// Windows `0..k` of `n`, bottom to top.
pub open spec fn windows_ops(k: nat, n: nat, layout: Size, focused: Option<usize>, content: Seq<bool>) -> Seq<DrawOp>
    decreases k,
{
    if k == 0 {
        Seq::empty()
    } else {
        windows_ops((k - 1) as nat, n, layout, focused, content) + window_ops(
            tile_of(k - 1, n as int, layout.w as int, layout.h as int),
            k - 1,
            content[k - 1],
            focused == Some((k - 1) as usize),
        )
    }
}

/// The cursor square lies wholly on the screen.
pub open spec fn cursor_visible(p: Point, screen: Size) -> bool {
    let half = CURSOR_SIZE / 2;
    &&& p.x - half >= 0
    &&& p.y - half >= 0
    &&& p.x - half + CURSOR_SIZE <= screen.w
    &&& p.y - half + CURSOR_SIZE <= screen.h
}

/// The draws of a frame, after the clear: the windows bottom to top, the
/// indicator when there is no window, the dock strip, and the cursor when
/// it fits on the screen.
pub open spec fn frame_ops(s: MirageState, screen: Size, content: Seq<bool>) -> Seq<DrawOp> {
    let n = s.windows@.len();
    let indicator = if n == 0 {
        seq![solid(
            trunc_div(screen.w as int, 2) - INDICATOR_WIDTH / 2,
            trunc_div(screen.h as int, 2) - INDICATOR_HEIGHT / 2,
            INDICATOR_WIDTH as int,
            INDICATOR_HEIGHT as int,
            Paint::Indicator,
        )]
    } else {
        Seq::empty()
    };
    let dock_y = screen.h - s.dock.position_bottom - s.dock.background_height;
    let dock = seq![solid(0, dock_y, screen.w as int, s.dock.background_height as int, Paint::DockBackground)];
    let half = CURSOR_SIZE / 2;
    let cursor = if cursor_visible(s.pointer_pos, screen) {
        seq![solid(s.pointer_pos.x - half, s.pointer_pos.y - half, CURSOR_SIZE as int, CURSOR_SIZE as int, Paint::Cursor)]
    } else {
        Seq::empty()
    };
    windows_ops(n, n, s.layout.screen_size, s.focused_window, content) + indicator + dock + cursor
}

/// The draws of a frame fit in `i32` coordinates on this screen.
pub open spec fn frame_fits(s: MirageState, screen: Size) -> bool {
    &&& s.layout.screen_size.h + BUTTON_TOP <= i32::MAX
    &&& fits_i32(screen.h - s.dock.position_bottom)
    &&& fits_i32(screen.h - s.dock.position_bottom - s.dock.background_height)
}

fn push_op(ops: &mut Vec<DrawOp>, damage: &mut Vec<Rect>, op: DrawOp)
    ensures
        final(ops)@ == old(ops)@.push(op),
        final(damage)@ == old(damage)@.push(op_rect(op)),
{
    ops.push(op);
    match op {
        DrawOp::Solid { rect, .. } => damage.push(rect),
        DrawOp::Surface { rect, .. } => damage.push(rect),
    }
}

impl MirageState {
    /// Whether a frame for `screen` can be composed: every coordinate it
    /// draws fits `i32`.
    pub fn frame_fits_screen(&self, screen: Size) -> (r: bool)
        ensures
            r == frame_fits(*self, screen),
    {
        let dock_top: i64 = screen.h as i64 - self.dock.position_bottom as i64;
        let dock_y: i64 = dock_top - self.dock.background_height as i64;
        self.layout.screen_size.h as i64 + BUTTON_TOP as i64 <= i32::MAX as i64
            && i32::MIN as i64 <= dock_top && dock_top <= i32::MAX as i64
            && i32::MIN as i64 <= dock_y && dock_y <= i32::MAX as i64
    }

    /// Composes one frame for a screen of `screen` size. `has_content[i]`
    /// tells whether window `i` has content to draw.
    pub fn compose_frame(&self, screen: Size, has_content: &Vec<bool>) -> (r: Frame)
        requires
            self.wf(),
            has_content@.len() == self.windows@.len(),
            frame_fits(*self, screen),
        ensures
            r.clear == rect_of(0, 0, screen.w as int, screen.h as int),
            r.ops@ == frame_ops(*self, screen, has_content@),
            r.damage@ == seq![r.clear] + r.ops@.map_values(|op: DrawOp| op_rect(op)),
    {
        let n = self.windows.len();
        let clear = Rect::new(0, 0, screen.w, screen.h);
        let mut ops: Vec<DrawOp> = Vec::new();
        let mut damage: Vec<Rect> = Vec::new();
        damage.push(clear);
        proof {
            assert(damage@ =~= seq![clear] + ops@.map_values(|op: DrawOp| op_rect(op)));
        }
        let mut i: usize = 0;
        while i < n
            invariant
                i <= n,
                n == self.windows@.len(),
                has_content@.len() == n,
                ops@ == windows_ops(i as nat, n as nat, self.layout.screen_size, self.focused_window, has_content@),
                damage@ == seq![clear] + ops@.map_values(|op: DrawOp| op_rect(op)),
                self.layout.screen_size.h + BUTTON_TOP <= i32::MAX,
            decreases n - i,
        {
            let g = self.layout.calculate_geometry(i, n);
            proof {
                lemma_tile_bounds(i as int, n as int, self.layout.screen_size.w as int, self.layout.screen_size.h as int);
            }
            let x = g.location.x;
            let y = g.location.y;
            let w = g.size.w;
            let h = g.size.h;
            let focused = match self.focused_window {
                Some(f) => f == i,
                None => false,
            };
            let body_rect = Rect::new(x, y, w, h);
            let body = if has_content[i] {
                DrawOp::Surface { window: i, rect: body_rect }
            } else {
                DrawOp::Solid { rect: body_rect, paint: if focused { Paint::WindowFocused } else { Paint::WindowUnfocused } }
            };
            let ghost before = ops@;
            push_op(&mut ops, &mut damage, body);
            let strip = if focused { Paint::TitleStripFocused } else { Paint::TitleStripUnfocused };
            push_op(&mut ops, &mut damage, DrawOp::Solid { rect: Rect::new(x, y, w, TITLE_BAR_HEIGHT), paint: strip });
            let right = x + w;
            let top = y + BUTTON_TOP;
            push_op(&mut ops, &mut damage, DrawOp::Solid { rect: Rect::new(right - CLOSE_OFFSET, top, BUTTON_SIZE, BUTTON_SIZE), paint: Paint::CloseButton });
            push_op(&mut ops, &mut damage, DrawOp::Solid { rect: Rect::new(right - MINIMIZE_OFFSET, top, BUTTON_SIZE, BUTTON_SIZE), paint: Paint::MinimizeButton });
            push_op(&mut ops, &mut damage, DrawOp::Solid { rect: Rect::new(right - MAXIMIZE_OFFSET, top, BUTTON_SIZE, BUTTON_SIZE), paint: Paint::MaximizeButton });
            proof {
                let t = tile_of(i as int, n as int, self.layout.screen_size.w as int, self.layout.screen_size.h as int);
                assert(ops@ =~= before + window_ops(t, i as int, has_content@[i as int], self.focused_window == Some(i)));
                assert(damage@ =~= seq![clear] + ops@.map_values(|op: DrawOp| op_rect(op)));
            }
            i = i + 1;
        }
        if n == 0 {
            let ix = half_toward_zero(screen.w) - INDICATOR_WIDTH / 2;
            let iy = half_toward_zero(screen.h) - INDICATOR_HEIGHT / 2;
            push_op(&mut ops, &mut damage, DrawOp::Solid { rect: Rect::new(ix, iy, INDICATOR_WIDTH, INDICATOR_HEIGHT), paint: Paint::Indicator });
        }
        let dock_y: i32 = screen.h - self.dock.position_bottom - self.dock.background_height;
        push_op(&mut ops, &mut damage, DrawOp::Solid { rect: Rect::new(0, dock_y, screen.w, self.dock.background_height), paint: Paint::DockBackground });
        let half: i64 = (CURSOR_SIZE / 2) as i64;
        let cx: i64 = self.pointer_pos.x as i64 - half;
        let cy: i64 = self.pointer_pos.y as i64 - half;
        if cx >= 0 && cy >= 0 && cx + CURSOR_SIZE as i64 <= screen.w as i64 && cy + CURSOR_SIZE as i64 <= screen.h as i64 {
            push_op(&mut ops, &mut damage, DrawOp::Solid { rect: Rect::new(cx as i32, cy as i32, CURSOR_SIZE, CURSOR_SIZE), paint: Paint::Cursor });
        }
        proof {
            assert(ops@ =~= frame_ops(*self, screen, has_content@));
            assert(damage@ =~= seq![clear] + ops@.map_values(|op: DrawOp| op_rect(op)));
        }
        Frame { clear, ops, damage }
    }
}

/// Whether the body painted for window `i` of `n` covers `p`.
pub open spec fn body_covers(i: int, n: nat, layout: Size, p: Point) -> bool {
    let t = tile_of(i, n as int, layout.w as int, layout.h as int);
    rect_of(t.x, t.y, t.w, t.h).contains_spec(p)
}

/// The body of a window's draws.
pub open spec fn is_body_of(op: DrawOp, i: int) -> bool {
    match op {
        DrawOp::Surface { window, .. } => window == i,
        DrawOp::Solid { paint, .. } => paint == Paint::WindowFocused || paint == Paint::WindowUnfocused,
    }
}

proof fn lemma_windows_ops_layout(k: nat, n: nat, layout: Size, focused: Option<usize>, content: Seq<bool>)
    requires
        k <= n,
        n <= usize::MAX,
        content.len() == n,
    ensures
        windows_ops(k, n, layout, focused, content).len() == 5 * k,
        forall|i: int, m: int| 0 <= i < k && 0 <= m < 5 ==> #[trigger] windows_ops(k, n, layout, focused, content)[5 * i + m]
            == window_ops(tile_of(i, n as int, layout.w as int, layout.h as int), i, content[i], focused == Some(i as usize))[m],
    decreases k,
{
    if k > 0 {
        let k1 = (k - 1) as nat;
        lemma_windows_ops_layout(k1, n, layout, focused, content);
        let prev = windows_ops(k1, n, layout, focused, content);
        let all = windows_ops(k, n, layout, focused, content);
        let t = tile_of(k1 as int, n as int, layout.w as int, layout.h as int);
        let wo = window_ops(t, k1 as int, content[k1 as int], focused == Some(k1 as usize));
        assert(all == prev + wo);
        assert forall|i: int, m: int| 0 <= i < k && 0 <= m < 5 implies #[trigger] all[5 * i + m]
            == window_ops(tile_of(i, n as int, layout.w as int, layout.h as int), i, content[i], focused == Some(i as usize))[m] by {
            if i < k1 {
                assert(all[5 * i + m] == prev[5 * i + m]);
            } else {
                assert(all[5 * i + m] == wo[m]);
            }
        }
    }
}

proof fn lemma_hit_is_last(k: nat, n: nat, layout: Size, p: Point)
    requires
        k <= n,
        n <= usize::MAX,
    ensures
        match hit_from(k, n, layout, p) {
            Some(i) => i < k && tile_contains(tile_of(i as int, n as int, layout.w as int, layout.h as int), p)
                && forall|j: int| i < j < k ==> !tile_contains(#[trigger] tile_of(j, n as int, layout.w as int, layout.h as int), p),
            None => forall|j: int| 0 <= j < k ==> !tile_contains(#[trigger] tile_of(j, n as int, layout.w as int, layout.h as int), p),
        },
    decreases k,
{
    if k > 0 {
        lemma_hit_is_last((k - 1) as nat, n, layout, p);
    }
}

/// Hit-testing agrees with paint order. In a composed frame, the draw at
/// position `5 * i` is the body of window `i`, painted bottom to top. The
/// window that `window_at` finds under `p` is the last of those bodies that
/// covers `p`; when it finds none, no body covers `p`.
pub proof fn hit_test_matches_paint_order(s: MirageState, screen: Size, content: Seq<bool>, p: Point)
    requires
        content.len() == s.windows@.len(),
        s.windows@.len() <= usize::MAX,
    ensures
        forall|i: int| 0 <= i < s.windows@.len() ==> {
            let t = tile_of(i, s.windows@.len() as int, s.layout.screen_size.w as int, s.layout.screen_size.h as int);
            &&& is_body_of(#[trigger] frame_ops(s, screen, content)[5 * i], i)
            &&& op_rect(frame_ops(s, screen, content)[5 * i]) == rect_of(t.x, t.y, t.w, t.h)
        },
        match hit_from(s.windows@.len(), s.windows@.len(), s.layout.screen_size, p) {
            Some(i) => i < s.windows@.len() && body_covers(i as int, s.windows@.len(), s.layout.screen_size, p)
                && forall|j: int| i < j < s.windows@.len() ==> !#[trigger] body_covers(j, s.windows@.len(), s.layout.screen_size, p),
            None => forall|j: int| 0 <= j < s.windows@.len() ==> !#[trigger] body_covers(j, s.windows@.len(), s.layout.screen_size, p),
        },
{
    let n = s.windows@.len();
    let layout = s.layout.screen_size;
    lemma_windows_ops_layout(n, n, layout, s.focused_window, content);
    let w = windows_ops(n, n, layout, s.focused_window, content);
    assert forall|i: int| 0 <= i < n implies {
        let t = tile_of(i, n as int, layout.w as int, layout.h as int);
        &&& is_body_of(#[trigger] frame_ops(s, screen, content)[5 * i], i)
        &&& op_rect(frame_ops(s, screen, content)[5 * i]) == rect_of(t.x, t.y, t.w, t.h)
    } by {
        assert(frame_ops(s, screen, content)[5 * i] == w[5 * i + 0]);
    }
    assert forall|j: int| 0 <= j < n implies #[trigger] body_covers(j, n, layout, p)
        == tile_contains(tile_of(j, n as int, layout.w as int, layout.h as int), p) by {
        lemma_tile_bounds(j, n as int, layout.w as int, layout.h as int);
    }
    lemma_hit_is_last(n, n, layout, p);
}

/// Decoration hit-testing agrees with what is painted. For window `j`, the
/// close, minimize and maximize buttons that the frame paints (draws
/// `5 * j + 2` to `5 * j + 4`) are the window's decoration button rectangles,
/// moved to the window's position on screen.
pub proof fn painted_buttons_match_decoration(s: MirageState, screen: Size, content: Seq<bool>, j: int)
    requires
        s.wf(),
        content.len() == s.windows@.len(),
        s.windows@.len() <= usize::MAX,
        0 <= j < s.windows@.len(),
    ensures
        ({
            let n = s.windows@.len();
            let t = tile_of(j, n as int, s.layout.screen_size.w as int, s.layout.screen_size.h as int);
            let d = s.windows@[j].decoration;
            let ops = frame_ops(s, screen, content);
            &&& op_rect(ops[5 * j + 2]) == rect_of(t.x + button_rect(d.width as int, CLOSE_OFFSET as int).0,
                t.y + button_rect(d.width as int, CLOSE_OFFSET as int).1, BUTTON_SIZE as int, BUTTON_SIZE as int)
            &&& op_rect(ops[5 * j + 3]) == rect_of(t.x + button_rect(d.width as int, MINIMIZE_OFFSET as int).0,
                t.y + button_rect(d.width as int, MINIMIZE_OFFSET as int).1, BUTTON_SIZE as int, BUTTON_SIZE as int)
            &&& op_rect(ops[5 * j + 4]) == rect_of(t.x + button_rect(d.width as int, MAXIMIZE_OFFSET as int).0,
                t.y + button_rect(d.width as int, MAXIMIZE_OFFSET as int).1, BUTTON_SIZE as int, BUTTON_SIZE as int)
        }),
{
    let n = s.windows@.len();
    let layout = s.layout.screen_size;
    lemma_windows_ops_layout(n, n, layout, s.focused_window, content);
    let w = windows_ops(n, n, layout, s.focused_window, content);
    let ops = frame_ops(s, screen, content);
    assert(ops[5 * j + 2] == w[5 * j + 2]);
    assert(ops[5 * j + 3] == w[5 * j + 3]);
    assert(ops[5 * j + 4] == w[5 * j + 4]);
    assert(window_synced(s.windows@[j], j, n as int, s.focused_window, layout));
}

/// Rust's `a / 2`, rounding towards zero.
fn half_toward_zero(a: i32) -> (r: i32)
    ensures
        r == trunc_div(a as int, 2),
{
    if a >= 0 {
        a / 2
    } else {
        let m: i64 = -(a as i64);
        (-(m / 2)) as i32
    }
}

} // verus!
