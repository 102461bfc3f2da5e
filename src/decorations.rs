use vstd::prelude::*;
use crate::geometry::{Point, Rect, Size};
use crate::palette::Paint;

verus! {

/// Height of a window's title bar.
pub const TITLE_BAR_HEIGHT: i32 = 32;
/// Side of each square control button.
pub const BUTTON_SIZE: i32 = 20;
/// Distance from the top of the title bar to the buttons.
pub const BUTTON_TOP: i32 = 6;
/// Distance from a window's right edge to the right edge of the close button.
pub const BUTTON_RIGHT_MARGIN: i32 = 12;
/// Left edge of the close, minimize and maximize buttons, counted leftwards
/// from the window's right edge.
pub const CLOSE_OFFSET: i32 = 32;
pub const MINIMIZE_OFFSET: i32 = 62;
pub const MAXIMIZE_OFFSET: i32 = 92;

/// The parts of a window frame.
#[derive(Clone, Copy, Debug, PartialEq, Eq, Structural)]
pub enum DecorationElement {
    TitleBar,
    CloseButton,
    MinimizeButton,
    MaximizeButton,
    ResizeHandle,
}

/// A window's frame: its title, frame size and state flags.
#[derive(Clone, Debug)]
pub struct WindowDecoration {
    pub title: String,
    pub width: i32,
    pub height: i32,
    pub is_focused: bool,
    pub is_maximized: bool,
}

/// The rectangle of a control button whose left edge is `offset` left of the
/// right edge of a frame `width` wide.
pub open spec fn button_rect(width: int, offset: int) -> (int, int, int, int) {
    (width - offset, BUTTON_TOP as int, BUTTON_SIZE as int, BUTTON_SIZE as int)
}

pub open spec fn rect_is(r: Rect, t: (int, int, int, int)) -> bool {
    r.loc.x == t.0 && r.loc.y == t.1 && r.size.w == t.2 && r.size.h == t.3
}

/// `a - b`, held to the range of `i32`.
pub open spec fn saturating_sub_i32(a: int, b: int) -> int {
    if a - b < i32::MIN { i32::MIN as int } else if a - b > i32::MAX { i32::MAX as int } else { a - b }
}

impl WindowDecoration {
    pub fn new(title: String, width: i32, height: i32, is_focused: bool) -> (r: WindowDecoration)
        ensures
            r.title@ == title@,
            r.width == width,
            r.height == height,
            r.is_focused == is_focused,
            !r.is_maximized,
    {
        WindowDecoration { title, width, height, is_focused, is_maximized: false }
    }

    /// The frame is wide enough that its button positions fit in `i32`.
    pub open spec fn buttons_fit(&self) -> bool {
        self.width - MAXIMIZE_OFFSET >= i32::MIN
    }

    /// The title bar: the full frame width, `TITLE_BAR_HEIGHT` high, at the top.
    pub fn title_bar_rect(&self) -> (r: Rect)
        ensures
            rect_is(r, (0, 0, self.width as int, TITLE_BAR_HEIGHT as int)),
    {
        Rect::new(0, 0, self.width, TITLE_BAR_HEIGHT)
    }

    fn button_at(&self, offset: i32) -> (r: Rect)
        requires
            0 <= offset <= MAXIMIZE_OFFSET,
            self.buttons_fit(),
        ensures
            rect_is(r, button_rect(self.width as int, offset as int)),
    {
        Rect::new(self.width - offset, BUTTON_TOP, BUTTON_SIZE, BUTTON_SIZE)
    }

    pub fn close_button_rect(&self) -> (r: Rect)
        requires
            self.buttons_fit(),
        ensures
            rect_is(r, button_rect(self.width as int, CLOSE_OFFSET as int)),
    {
        self.button_at(CLOSE_OFFSET)
    }

    pub fn minimize_button_rect(&self) -> (r: Rect)
        requires
            self.buttons_fit(),
        ensures
            rect_is(r, button_rect(self.width as int, MINIMIZE_OFFSET as int)),
    {
        self.button_at(MINIMIZE_OFFSET)
    }

    pub fn maximize_button_rect(&self) -> (r: Rect)
        requires
            self.buttons_fit(),
        ensures
            rect_is(r, button_rect(self.width as int, MAXIMIZE_OFFSET as int)),
    {
        self.button_at(MAXIMIZE_OFFSET)
    }

    /// The area below the title bar; its height never goes below `i32::MIN`.
    pub fn content_rect(&self) -> (r: Rect)
        ensures
            rect_is(
                r,
                (0, TITLE_BAR_HEIGHT as int, self.width as int, saturating_sub_i32(self.height as int, TITLE_BAR_HEIGHT as int)),
            ),
    {
        let h: i32 = if self.height < i32::MIN + TITLE_BAR_HEIGHT {
            i32::MIN
        } else {
            self.height - TITLE_BAR_HEIGHT
        };
        Rect::new(0, TITLE_BAR_HEIGHT, self.width, h)
    }

    pub fn point_on_close_button(&self, point: Point) -> (r: bool)
        requires
            self.buttons_fit(),
        ensures
            r == (Rect { loc: Point { x: (self.width - CLOSE_OFFSET) as i32, y: BUTTON_TOP }, size: Size { w: BUTTON_SIZE, h: BUTTON_SIZE } }).contains_spec(point),
    {
        self.close_button_rect().contains(point)
    }

    pub fn point_on_minimize_button(&self, point: Point) -> (r: bool)
        requires
            self.buttons_fit(),
        ensures
            r == (Rect { loc: Point { x: (self.width - MINIMIZE_OFFSET) as i32, y: BUTTON_TOP }, size: Size { w: BUTTON_SIZE, h: BUTTON_SIZE } }).contains_spec(point),
    {
        self.minimize_button_rect().contains(point)
    }

    pub fn point_on_maximize_button(&self, point: Point) -> (r: bool)
        requires
            self.buttons_fit(),
        ensures
            r == (Rect { loc: Point { x: (self.width - MAXIMIZE_OFFSET) as i32, y: BUTTON_TOP }, size: Size { w: BUTTON_SIZE, h: BUTTON_SIZE } }).contains_spec(point),
    {
        self.maximize_button_rect().contains(point)
    }

    pub fn point_on_title_bar(&self, point: Point) -> (r: bool)
        ensures
            r == (Rect { loc: Point { x: 0, y: 0 }, size: Size { w: self.width, h: TITLE_BAR_HEIGHT } }).contains_spec(point),
    {
        self.title_bar_rect().contains(point)
    }

    pub fn title_bar_color(&self) -> (r: Paint)
        ensures
            r == (if self.is_focused { Paint::TitleBarFocused } else { Paint::TitleBarUnfocused }),
    {
        if self.is_focused {
            Paint::TitleBarFocused
        } else {
            Paint::TitleBarUnfocused
        }
    }

    pub fn button_color(&self) -> (r: Paint)
        ensures
            r == Paint::Button,
    {
        Paint::Button
    }

    pub fn close_button_color(&self) -> (r: Paint)
        ensures
            r == Paint::CloseButton,
    {
        Paint::CloseButton
    }

    pub fn minimize_button_color(&self) -> (r: Paint)
        ensures
            r == Paint::MinimizeButton,
    {
        Paint::MinimizeButton
    }

    pub fn maximize_button_color(&self) -> (r: Paint)
        ensures
            r == Paint::MaximizeButton,
    {
        Paint::MaximizeButton
    }
}

} // verus!
