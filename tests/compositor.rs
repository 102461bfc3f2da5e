use mirage::compose::DrawOp;
use mirage::geometry::{Point, Size};
use mirage::palette::Paint;
use mirage::state::{Dispatch, InputEvent, MirageState};

fn tile(s: &MirageState, i: usize) -> (i32, i32, i32, i32) {
    let g = s.window_geometry(i);
    (g.location.x, g.location.y, g.size.w, g.size.h)
}

fn state_with_seat() -> MirageState {
    let mut s = MirageState::new(1280, 800);
    s.initialize_seat(true, true);
    s
}

fn click(s: &mut MirageState, x: i32, y: i32) {
    s.handle_input(InputEvent::PointerMotionAbsolute { x, y, time: 0 });
    s.handle_input(InputEvent::PointerButton { button: 272, pressed: true, time: 0 });
}

#[test]
fn windows_relayout_as_they_are_created() {
    let mut s = state_with_seat();
    let c1 = s.new_toplevel();
    assert_eq!(c1.index, 0);
    assert_eq!((c1.geometry.location.x, c1.geometry.location.y, c1.geometry.size.w, c1.geometry.size.h), (0, 0, 1280, 800));
    assert_eq!(tile(&s, 0), (0, 0, 1280, 800));

    let c2 = s.new_toplevel();
    assert_eq!((c2.geometry.location.x, c2.geometry.size.w), (640, 640));
    assert_eq!(tile(&s, 0), (0, 0, 640, 800));
    assert_eq!(tile(&s, 1), (640, 0, 640, 800));

    s.new_toplevel();
    assert_eq!(tile(&s, 0), (0, 0, 640, 800));
    assert_eq!(tile(&s, 1), (640, 0, 640, 400));
    assert_eq!(tile(&s, 2), (640, 400, 640, 400));
}

#[test]
fn new_windows_get_titles_and_distinct_ids() {
    let mut s = state_with_seat();
    let a = s.new_toplevel();
    let b = s.new_toplevel();
    assert_ne!(a.id, b.id);
    assert_eq!(s.windows[0].decoration.title, "Window 1");
    assert_eq!(s.windows[1].decoration.title, "Window 2");
    assert_eq!(s.windows[1].decoration.width, 640);
    assert_eq!(s.windows[1].decoration.height, 800);
    for _ in 0..9 {
        s.new_toplevel();
    }
    assert_eq!(s.windows[10].decoration.title, "Window 11");
    assert_eq!(s.focused_window, None);
}

#[test]
fn click_resolves_to_stacked_window() {
    let mut s = state_with_seat();
    for _ in 0..3 {
        s.new_toplevel();
    }
    assert_eq!(s.window_at(Point::new(700, 10)), Some(1));
    click(&mut s, 700, 10);
    assert_eq!(s.focused_window, Some(1));
}

#[test]
fn hit_test_edges() {
    let mut s = state_with_seat();
    for _ in 0..3 {
        s.new_toplevel();
    }
    assert_eq!(s.window_at(Point::new(639, 799)), Some(0));
    assert_eq!(s.window_at(Point::new(640, 400)), Some(2));
    assert_eq!(s.window_at(Point::new(640, 399)), Some(1));
    assert_eq!(s.window_at(Point::new(1280, 10)), None);
    assert_eq!(s.window_at(Point::new(-1, 10)), None);
}

#[test]
fn destroying_focused_window_clears_focus() {
    let mut s = state_with_seat();
    let ids: Vec<u64> = (0..3).map(|_| s.new_toplevel().id).collect();
    click(&mut s, 700, 10);
    assert_eq!(s.focused_window, Some(1));
    assert_eq!(s.toplevel_destroyed(ids[1]), Some(1));
    assert_eq!(s.focused_window, None);
    assert_eq!(s.windows.len(), 2);
    assert_eq!(tile(&s, 0), (0, 0, 640, 800));
    assert_eq!(tile(&s, 1), (640, 0, 640, 800));
    assert_eq!(s.windows[1].id, ids[2]);
}

#[test]
fn destroying_lower_window_keeps_focus_on_same_window() {
    let mut s = state_with_seat();
    let ids: Vec<u64> = (0..3).map(|_| s.new_toplevel().id).collect();
    click(&mut s, 700, 600);
    assert_eq!(s.focused_window, Some(2));
    s.toplevel_destroyed(ids[0]);
    assert_eq!(s.focused_window, Some(1));
    assert_eq!(s.windows[1].id, ids[2]);
    assert_eq!(s.toplevel_destroyed(ids[0]), None);
    assert_eq!(s.windows.len(), 2);
}

#[test]
fn set_focus_ignores_stale_index() {
    let mut s = state_with_seat();
    s.new_toplevel();
    s.set_focus(Some(0));
    assert_eq!(s.focused_window, Some(0));
    s.set_focus(Some(5));
    assert_eq!(s.focused_window, Some(0));
    s.set_focus(None);
    assert_eq!(s.focused_window, None);
}

#[test]
fn click_on_empty_space_clears_focus() {
    let mut s = state_with_seat();
    s.new_toplevel();
    s.set_focus(Some(0));
    click(&mut s, 5000, 5000);
    assert_eq!(s.focused_window, None);
}

#[test]
fn release_does_not_change_focus() {
    let mut s = state_with_seat();
    s.new_toplevel();
    s.set_focus(Some(0));
    s.handle_input(InputEvent::PointerMotionAbsolute { x: 5000, y: 5000, time: 0 });
    s.handle_input(InputEvent::PointerButton { button: 272, pressed: false, time: 0 });
    assert_eq!(s.focused_window, Some(0));
}

#[test]
fn serials_increase_across_a_batch() {
    let mut s = state_with_seat();
    s.new_toplevel();
    let events = vec![
        InputEvent::PointerMotionAbsolute { x: 10, y: 10, time: 1 },
        InputEvent::PointerAxis,
        InputEvent::PointerButton { button: 272, pressed: true, time: 2 },
        InputEvent::PointerMotion,
        InputEvent::Keyboard { key: 30, pressed: true, time: 3 },
        InputEvent::PointerButton { button: 272, pressed: false, time: 4 },
    ];
    let out = s.dispatch_batch(&events);
    assert_eq!(out.len(), 4);
    let serials: Vec<u32> = out
        .iter()
        .map(|d| match d {
            Dispatch::Motion { serial, .. } => *serial,
            Dispatch::Button { serial, .. } => *serial,
            Dispatch::Key { serial, .. } => *serial,
        })
        .collect();
    assert_eq!(serials, vec![1, 2, 3, 4]);
    assert_eq!(out[0], Dispatch::Motion { target: Some(0), location: Point::new(10, 10), serial: 1, time: 1 });
    assert_eq!(out[2], Dispatch::Key { key: 30, pressed: true, serial: 3, time: 3 });
    assert_eq!(s.next_serial, 5);
}

#[test]
fn motion_outside_windows_has_no_target() {
    let mut s = state_with_seat();
    let d = s.handle_input(InputEvent::PointerMotionAbsolute { x: 3, y: 4, time: 9 });
    assert_eq!(d, Some(Dispatch::Motion { target: None, location: Point::new(3, 4), serial: 1, time: 9 }));
    assert_eq!(s.pointer_pos, Point::new(3, 4));
}

#[test]
fn no_devices_means_no_dispatch() {
    let mut s = MirageState::new(1280, 800);
    assert_eq!(s.handle_input(InputEvent::Keyboard { key: 1, pressed: true, time: 0 }), None);
    assert_eq!(s.handle_input(InputEvent::PointerMotionAbsolute { x: 1, y: 2, time: 0 }), None);
    assert_eq!(s.pointer_pos, Point::new(1, 2));
    assert_eq!(s.next_serial, 1);
}

#[test]
fn exhausted_serials_stop_delivery() {
    let mut s = state_with_seat();
    s.next_serial = u32::MAX - 1;
    assert!(s.handle_input(InputEvent::Keyboard { key: 1, pressed: true, time: 0 }).is_some());
    assert_eq!(s.handle_input(InputEvent::Keyboard { key: 1, pressed: true, time: 0 }), None);
}

#[test]
fn frame_paints_windows_then_dock_then_cursor() {
    let mut s = state_with_seat();
    s.new_toplevel();
    s.new_toplevel();
    s.set_focus(Some(1));
    s.handle_input(InputEvent::PointerMotionAbsolute { x: 100, y: 100, time: 0 });
    let frame = s.compose_frame(Size::new(1280, 800), &vec![true, false]);
    assert_eq!((frame.clear.size.w, frame.clear.size.h), (1280, 800));
    assert_eq!(frame.ops.len(), 12);
    match frame.ops[0] {
        DrawOp::Surface { window, rect } => {
            assert_eq!(window, 0);
            assert_eq!((rect.loc.x, rect.loc.y, rect.size.w, rect.size.h), (0, 0, 640, 800));
        }
        _ => panic!("expected content of window 0"),
    }
    match frame.ops[1] {
        DrawOp::Solid { rect, paint } => {
            assert_eq!(paint, Paint::TitleStripUnfocused);
            assert_eq!((rect.loc.x, rect.loc.y, rect.size.w, rect.size.h), (0, 0, 640, 32));
        }
        _ => panic!("expected title strip"),
    }
    match frame.ops[2] {
        DrawOp::Solid { rect, paint } => {
            assert_eq!(paint, Paint::CloseButton);
            assert_eq!((rect.loc.x, rect.loc.y, rect.size.w, rect.size.h), (608, 6, 20, 20));
        }
        _ => panic!("expected close button"),
    }
    match frame.ops[5] {
        DrawOp::Solid { rect, paint } => {
            assert_eq!(paint, Paint::WindowFocused);
            assert_eq!((rect.loc.x, rect.size.w), (640, 640));
        }
        _ => panic!("expected placeholder of window 1"),
    }
    match frame.ops[9] {
        DrawOp::Solid { rect, paint } => {
            assert_eq!(paint, Paint::MaximizeButton);
            assert_eq!(rect.loc.x, 640 + 640 - 92);
        }
        _ => panic!("expected maximize button"),
    }
    match frame.ops[10] {
        DrawOp::Solid { rect, paint } => {
            assert_eq!(paint, Paint::DockBackground);
            assert_eq!((rect.loc.x, rect.loc.y, rect.size.w, rect.size.h), (0, 700, 1280, 80));
        }
        _ => panic!("expected dock strip"),
    }
    match frame.ops[11] {
        DrawOp::Solid { rect, paint } => {
            assert_eq!(paint, Paint::Cursor);
            assert_eq!((rect.loc.x, rect.loc.y, rect.size.w, rect.size.h), (95, 95, 10, 10));
        }
        _ => panic!("expected cursor"),
    }
    assert_eq!(frame.damage.len(), 13);
    assert_eq!(frame.damage[0], frame.clear);
    assert_eq!(frame.damage[11].loc.y, 700);
}

#[test]
fn empty_frame_has_indicator_and_clips_cursor() {
    let mut s = state_with_seat();
    s.handle_input(InputEvent::PointerMotionAbsolute { x: 2, y: 2, time: 0 });
    let frame = s.compose_frame(Size::new(1280, 800), &Vec::new());
    assert_eq!(frame.ops.len(), 2);
    match frame.ops[0] {
        DrawOp::Solid { rect, paint } => {
            assert_eq!(paint, Paint::Indicator);
            assert_eq!((rect.loc.x, rect.loc.y, rect.size.w, rect.size.h), (540, 350, 200, 100));
        }
        _ => panic!("expected indicator"),
    }
    assert_eq!(frame.damage.len(), 3);
    assert_eq!((frame.damage[0].size.w, frame.damage[0].size.h), (1280, 800));
}

#[test]
fn frame_fit_check() {
    let s = state_with_seat();
    assert!(s.frame_fits_screen(Size::new(1280, 800)));
    assert!(!s.frame_fits_screen(Size::new(1280, i32::MIN + 50)));
    let big = MirageState::new(1280, i32::MAX);
    assert!(!big.frame_fits_screen(Size::new(1280, 800)));
}

#[test]
fn hit_test_agrees_with_paint_order() {
    let mut s = state_with_seat();
    for _ in 0..4 {
        s.new_toplevel();
    }
    let content = vec![false; 4];
    let frame = s.compose_frame(Size::new(1280, 800), &content);
    for &(x, y) in &[(10, 10), (700, 10), (700, 300), (700, 599), (1279, 799), (640, 266), (2000, 5)] {
        let p = Point::new(x, y);
        let mut last = None;
        for i in 0..4 {
            match frame.ops[5 * i] {
                DrawOp::Solid { rect, .. } | DrawOp::Surface { rect, .. } => {
                    if rect.contains(p) {
                        last = Some(i);
                    }
                }
            }
        }
        assert_eq!(s.window_at(p), last);
    }
}

#[test]
fn decoration_flags_follow_focus() {
    let mut s = state_with_seat();
    s.new_toplevel();
    s.new_toplevel();
    assert!(!s.windows[0].decoration.is_focused && !s.windows[1].decoration.is_focused);
    s.set_focus(Some(1));
    assert!(!s.windows[0].decoration.is_focused && s.windows[1].decoration.is_focused);
    s.set_focus(Some(0));
    assert!(s.windows[0].decoration.is_focused && !s.windows[1].decoration.is_focused);
    s.new_toplevel();
    assert!(!s.windows[2].decoration.is_focused);
    s.set_focus(None);
    assert!(s.windows.iter().all(|w| !w.decoration.is_focused));
}

#[test]
fn decoration_sizes_follow_layout() {
    let mut s = state_with_seat();
    let a = s.new_toplevel().id;
    assert_eq!((s.windows[0].decoration.width, s.windows[0].decoration.height), (1280, 800));
    s.new_toplevel();
    s.new_toplevel();
    assert_eq!((s.windows[0].decoration.width, s.windows[0].decoration.height), (640, 800));
    assert_eq!((s.windows[2].decoration.width, s.windows[2].decoration.height), (640, 400));
    s.toplevel_destroyed(a);
    assert_eq!((s.windows[1].decoration.width, s.windows[1].decoration.height), (640, 800));
    s.resize(1000, 500);
    assert_eq!((s.windows[0].decoration.width, s.windows[0].decoration.height), (500, 500));
    let d = &s.windows[1].decoration;
    assert!(d.point_on_close_button(Point::new(500 - 32, 6)));
    match s.compose_frame(Size::new(1000, 500), &vec![false, false]).ops[7] {
        DrawOp::Solid { rect, .. } => assert_eq!((rect.loc.x, rect.loc.y), (500 + 500 - 32, 6)),
        _ => panic!("expected close button"),
    }
}
