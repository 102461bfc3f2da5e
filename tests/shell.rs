use mirage::decorations::WindowDecoration;
use mirage::dock::{Dock, DockApp};
use mirage::geometry::Point;
use mirage::palette::Paint;
use mirage::wallpaper::{Wallpaper, DEFAULT_WALLPAPER_PATH};

fn app(name: &str) -> DockApp {
    DockApp { name: name.to_string(), icon_path: None, command: "true".to_string(), is_running: false }
}

fn names(d: &Dock) -> Vec<String> {
    d.apps.iter().map(|a| a.name.clone()).collect()
}

#[test]
fn decoration_buttons_sit_at_fixed_offsets() {
    let d = WindowDecoration::new("Window 1".to_string(), 800, 600, true);
    let c = d.close_button_rect();
    let m = d.minimize_button_rect();
    let x = d.maximize_button_rect();
    assert_eq!((c.loc.x, c.loc.y, c.size.w, c.size.h), (768, 6, 20, 20));
    assert_eq!(m.loc.x, 738);
    assert_eq!(x.loc.x, 708);
    let t = d.title_bar_rect();
    assert_eq!((t.loc.x, t.loc.y, t.size.w, t.size.h), (0, 0, 800, 32));
    let content = d.content_rect();
    assert_eq!((content.loc.y, content.size.h), (32, 568));
    assert!(!d.is_maximized);
}

#[test]
fn decoration_hit_tests() {
    let d = WindowDecoration::new("w".to_string(), 800, 600, false);
    assert!(d.point_on_close_button(Point::new(768, 6)));
    assert!(!d.point_on_close_button(Point::new(788, 6)));
    assert!(d.point_on_minimize_button(Point::new(740, 10)));
    assert!(d.point_on_maximize_button(Point::new(727, 25)));
    assert!(d.point_on_title_bar(Point::new(0, 31)));
    assert!(!d.point_on_title_bar(Point::new(0, 32)));
}

#[test]
fn decoration_colors_follow_focus() {
    let focused = WindowDecoration::new("a".to_string(), 10, 10, true);
    let idle = WindowDecoration::new("b".to_string(), 10, 10, false);
    assert_eq!(focused.title_bar_color(), Paint::TitleBarFocused);
    assert_eq!(idle.title_bar_color(), Paint::TitleBarUnfocused);
    assert_eq!(idle.close_button_color(), Paint::CloseButton);
    assert_eq!(idle.minimize_button_color(), Paint::MinimizeButton);
    assert_eq!(idle.maximize_button_color(), Paint::MaximizeButton);
    assert_eq!(idle.button_color(), Paint::Button);
}

#[test]
fn short_frame_content_height_saturates() {
    let d = WindowDecoration::new("s".to_string(), 10, i32::MIN + 5, false);
    assert_eq!(d.content_rect().size.h, i32::MIN);
}

#[test]
fn dock_starts_with_default_apps() {
    let d = Dock::new();
    assert_eq!(names(&d), vec!["Terminal", "Files", "Text Editor"]);
    assert_eq!(d.apps[0].command, "kitty");
    assert!(d.is_visible);
}

#[test]
fn dock_ignores_duplicate_names_and_removes_by_name() {
    let mut d = Dock::new();
    d.add_app(app("Terminal"));
    assert_eq!(d.apps.len(), 3);
    assert_eq!(d.apps[0].command, "kitty");
    d.add_app(app("Browser"));
    assert_eq!(names(&d), vec!["Terminal", "Files", "Text Editor", "Browser"]);
    d.remove_app("Files");
    assert_eq!(names(&d), vec!["Terminal", "Text Editor", "Browser"]);
    d.remove_app("Nothing");
    assert_eq!(d.apps.len(), 3);
    d.add_default_apps();
    assert_eq!(names(&d), vec!["Terminal", "Text Editor", "Browser", "Files"]);
}

#[test]
fn dock_geometry() {
    let d = Dock::new();
    let r = d.get_dock_rect(1280, 800);
    assert_eq!((r.loc.x, r.loc.y, r.size.w, r.size.h), (543, 700, 194, 80));
    let a = d.get_app_rect(1, 1280, 800).unwrap();
    assert_eq!((a.loc.x, a.loc.y, a.size.w, a.size.h), (611, 716, 48, 48));
    assert!(d.get_app_rect(3, 1280, 800).is_none());
    assert_eq!(d.app_at_point(Point::new(611, 720), 1280, 800), Some(1));
    assert_eq!(d.app_at_point(Point::new(605, 720), 1280, 800), None);
}

#[test]
fn dock_centre_rounds_towards_zero() {
    let d = Dock::new();
    let r = d.get_dock_rect(1, 800);
    assert_eq!(r.loc.x, -96);
}

#[test]
fn dock_running_state_and_visibility() {
    let mut d = Dock::new();
    d.set_app_running(2, true);
    assert!(d.apps[2].is_running);
    d.set_app_running(9, true);
    assert_eq!(d.apps.len(), 3);
    assert_eq!(d.get_app_icon_color(true), Paint::DockIconRunning);
    assert_eq!(d.get_app_icon_color(false), Paint::DockIconIdle);
    assert_eq!(d.get_dock_color(), Paint::DockBackground);
    d.toggle_visibility();
    assert!(!d.is_visible);
    assert_eq!(d.launch_command(0), Some("kitty".to_string()));
    assert_eq!(d.launch_command(3), None);
}

#[test]
fn wallpaper_validity() {
    let w = Wallpaper::new("/tmp/w.png", true);
    assert_eq!(w.path, "/tmp/w.png");
    assert!(w.is_valid(true));
    assert!(!w.is_valid(false));
    let d = Wallpaper::default(false);
    assert_eq!(d.path, DEFAULT_WALLPAPER_PATH);
    assert!(!d.is_valid(true));
}
