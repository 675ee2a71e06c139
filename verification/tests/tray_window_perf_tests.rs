use mira::performance::{AlertSeverity, History};
use mira::tray::{default_icon_rgba, tray_action, TrayItemIds, TrayMenuAction};
use mira::window::{constrain_size, is_valid_size, max_window_size, resized};

fn ids() -> TrayItemIds {
    TrayItemIds {
        shape_circle: "1".to_string(),
        shape_ellipse: "2".to_string(),
        shape_rectangle: "3".to_string(),
        shape_rounded_rectangle: "4".to_string(),
        shape_heart: "5".to_string(),
        reset_position: "6".to_string(),
        reset_rotation: "7".to_string(),
        reset_size: "8".to_string(),
        rotate_left: "9".to_string(),
        rotate_right: "10".to_string(),
        show_info: "11".to_string(),
        quit: "12".to_string(),
    }
}

#[test]
fn tray_events_map_to_actions() {
    let ids = ids();
    assert_eq!(tray_action(&ids, "1"), Some(TrayMenuAction::ShapeCircle));
    assert_eq!(tray_action(&ids, "9"), Some(TrayMenuAction::RotateLeft));
    assert_eq!(tray_action(&ids, "12"), Some(TrayMenuAction::Quit));
    assert_eq!(tray_action(&ids, "13"), None);
}

#[test]
fn tray_icon_picture() {
    let rgba = default_icon_rgba();
    assert_eq!(rgba.len(), 32 * 32 * 4);
    let px = |x: usize, y: usize| &rgba[(y * 32 + x) * 4..(y * 32 + x) * 4 + 4];
    assert_eq!(px(16, 16), &[64, 128, 255, 255]);
    assert_eq!(px(16, 4), &[64, 128, 255, 255]);
    assert_eq!(px(16, 3), &[255, 255, 255, 255]);
    assert_eq!(px(16, 2), &[255, 255, 255, 255]);
    assert_eq!(px(16, 1), &[0, 0, 0, 0]);
    assert_eq!(px(0, 0), &[0, 0, 0, 0]);
}

#[test]
fn test_performance_history_limit() {
    let mut history: History<u32> = History::new(3);
    for i in 0..5 {
        history.push(i);
    }
    assert!(history.len() <= 3);
    let kept: Vec<u32> = history.items().iter().copied().collect();
    assert_eq!(kept, vec![2, 3, 4]);
    history.clear();
    assert_eq!(history.len(), 0);
    assert_eq!(history.limit(), 3);
}

#[test]
fn severities_compare() {
    assert_ne!(AlertSeverity::Warning, AlertSeverity::Critical);
}

#[test]
fn window_sizes() {
    assert!(is_valid_size(100, 100));
    assert!(!is_valid_size(99, 400));
    let screen = (1920, 1080);
    assert_eq!(resized((400, 400), (50, 300), screen), (400, 400));
    assert_eq!(resized((400, 400), (300, 200), screen), (300, 200));
    assert_eq!(resized((400, 400), (5000, 200), screen), (1536, 200));
    assert_eq!(max_window_size((1920, 1080)), (1536, 864));
    assert_eq!(max_window_size((1366, 768)), (1092, 614));
    assert_eq!(constrain_size((50, 5000), 1536, 864), (100, 864));
    assert_eq!(constrain_size((500, 400), 1536, 864), (500, 400));
}

#[test]
fn test_minimum_window_size() {
    let screen = (1920u32, 1080u32);
    let mut size = (400u32, 400u32);

    size = resized(size, (50, 50), screen);
    assert!(size.0 >= 100, "宽度应该被调整到最小值 100");
    assert!(size.1 >= 100, "高度应该被调整到最小值 100");

    size = resized(size, (100, 100), screen);
    assert_eq!(size.0, 100, "最小宽度应该是 100");
    assert_eq!(size.1, 100, "最小高度应该是 100");
}

#[test]
fn test_maximum_window_size() {
    let screen_width = 1920u32;
    let screen_height = 1080u32;
    let max_width = (screen_width as f32 * 0.8) as u32;
    let max_height = (screen_height as f32 * 0.8) as u32;
    let mut size = (400u32, 400u32);

    size = resized(size, (screen_width, screen_height), (screen_width, screen_height));
    assert!(size.0 <= max_width, "宽度应该被限制在最大值内");
    assert!(size.1 <= max_height, "高度应该被限制在最大值内");

    size = resized(size, (max_width, max_height), (screen_width, screen_height));
    assert!(size.0 <= max_width, "最大宽度应该在限制内");
    assert!(size.1 <= max_height, "最大高度应该在限制内");
    assert_eq!(size, (max_width, max_height));
}

#[test]
fn short_history_keeps_everything_in_order() {
    let mut history: History<u32> = History::new(4);
    history.push(7);
    history.push(8);
    let kept: Vec<u32> = history.items().iter().copied().collect();
    assert_eq!(kept, vec![7, 8]);
    for i in 0..6 {
        history.push(i);
    }
    let kept: Vec<u32> = history.items().iter().copied().collect();
    assert_eq!(kept, vec![2, 3, 4, 5]);
}
