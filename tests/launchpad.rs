use mirage::geometry::Point;
use mirage::launchpad::{contains_str, AppCategory, Launchpad, LaunchpadApp};
use mirage::palette::Paint;

fn names(apps: &[&LaunchpadApp]) -> Vec<String> {
    apps.iter().map(|a| a.name.clone()).collect()
}

#[test]
fn category_names() {
    assert_eq!(AppCategory::Development.to_string(), "Development");
    assert_eq!(AppCategory::Internet.to_string(), "Internet");
    assert_eq!(AppCategory::Other.to_string(), "Other");
}

#[test]
fn launchpad_starts_hidden_with_defaults() {
    let l = Launchpad::new();
    assert!(!l.is_visible);
    assert_eq!(l.apps.len(), 8);
    assert_eq!(l.apps[0].name, "VS Code");
    assert_eq!(l.apps[7].name, "VLC");
    assert_eq!(l.animation_progress, 0);
}

#[test]
fn search_is_case_insensitive() {
    let mut l = Launchpad::new();
    l.set_search_query("TEXT".to_string());
    assert_eq!(l.search_query, "text");
    assert_eq!(names(&l.get_filtered_apps()), vec!["Text Editor"]);
    l.set_search_query("e".to_string());
    assert_eq!(names(&l.get_filtered_apps()), vec!["VS Code", "Settings", "Terminal", "Files", "Firefox", "Text Editor"]);
    l.clear_search();
    assert_eq!(l.get_filtered_apps().len(), 8);
}

#[test]
fn categories_are_distinct_and_ordered() {
    let mut l = Launchpad::new();
    assert_eq!(
        l.get_categories(),
        vec![
            AppCategory::Development,
            AppCategory::System,
            AppCategory::Utilities,
            AppCategory::Office,
            AppCategory::Media,
            AppCategory::Internet
        ]
    );
    assert_eq!(names(&l.get_apps_by_category(AppCategory::Media)), vec!["GIMP", "VLC"]);
    l.remove_app("VS Code");
    assert_eq!(l.get_categories()[0], AppCategory::System);
    l.add_app(LaunchpadApp { name: "Chess".to_string(), icon_path: None, command: "chess".to_string(), category: AppCategory::Games });
    assert!(l.get_categories().contains(&AppCategory::Games));
}

#[test]
fn toggle_and_animate() {
    let mut l = Launchpad::new();
    l.toggle_visibility();
    assert!(l.is_visible && l.is_animating);
    assert_eq!(l.animation_progress, 0);
    l.update_animation();
    assert_eq!(l.animation_progress, 2);
    for _ in 0..49 {
        l.update_animation();
    }
    assert_eq!(l.animation_progress, 100);
    assert!(!l.is_animating);
    l.toggle_visibility();
    assert_eq!(l.animation_progress, 100);
    l.update_animation();
    assert_eq!(l.animation_progress, 98);
}

#[test]
fn grid_geometry() {
    let l = Launchpad::new();
    let g = l.get_grid_rect(1280, 800);
    assert_eq!((g.loc.x, g.loc.y, g.size.w, g.size.h), (40, 40, 1200, 720));
    let r = l.get_app_rect(6, 1280, 800).unwrap();
    assert_eq!((r.loc.x, r.loc.y, r.size.w, r.size.h), (368, 278, 64, 64));
    assert!(l.get_app_rect(8, 1280, 800).is_none());
    assert_eq!(l.app_at_point(Point::new(370, 280), 1280, 800), Some(6));
    assert_eq!(l.app_at_point(Point::new(0, 0), 1280, 800), None);
    let full = l.get_launchpad_rect(1280, 800);
    assert_eq!((full.size.w, full.size.h), (1280, 800));
}

#[test]
fn launch_command_follows_filter() {
    let mut l = Launchpad::new();
    l.set_search_query("fire".to_string());
    assert_eq!(l.launch_command(0), Some("firefox".to_string()));
    assert_eq!(l.launch_command(1), None);
    assert_eq!(l.get_background_color(), Paint::LaunchpadBackground);
    assert_eq!(l.get_icon_color(), Paint::LaunchpadIcon);
    assert_eq!(l.get_search_bar_color(), Paint::SearchBar);
}

#[test]
fn substring_search() {
    assert!(contains_str("text editor", "editor"));
    assert!(contains_str("text editor", ""));
    assert!(contains_str("", ""));
    assert!(!contains_str("vlc", "vlcx"));
    assert!(!contains_str("firefox", "fox "));
    assert!(contains_str("café crème", "é cr"));
    assert!(!contains_str("gimp", "GIMP"));
}
