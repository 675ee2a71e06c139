use mira::event::{
    error_source, key_command, HoverState, parse_menu_command, scroll_action, ErrorCounters, ErrorSource,
    KeyCommand, KeyInput, MenuCommand, ScrollAction, ScrollDirection,
};
use mira::shape::{next_shape, parse_shape_name, shape_from_config_name, shape_name, ShapeKind};

#[test]
fn test_shape_cycling_logic() {
    let shapes = [
        ShapeKind::Circle,
        ShapeKind::Ellipse,
        ShapeKind::Rectangle,
        ShapeKind::RoundedRectangle,
        ShapeKind::Heart,
    ];

    for (i, &current_shape) in shapes.iter().enumerate() {
        let next = next_shape(current_shape);
        let expected_next_index = (i + 1) % shapes.len();
        assert_eq!(next, shapes[expected_next_index], "形状循环逻辑不正确");
    }
}

#[test]
fn five_presses_come_back() {
    let mut k = ShapeKind::Rectangle;
    for _ in 0..5 {
        k = next_shape(k);
    }
    assert_eq!(k, ShapeKind::Rectangle);
}

#[test]
fn shape_names_round_trip() {
    for k in [
        ShapeKind::Circle,
        ShapeKind::Ellipse,
        ShapeKind::Rectangle,
        ShapeKind::RoundedRectangle,
        ShapeKind::Heart,
    ] {
        assert_eq!(parse_shape_name(shape_name(k)), Some(k));
    }
    assert_eq!(parse_shape_name("circle"), None);
    assert_eq!(shape_from_config_name("Triangle"), ShapeKind::Circle);
    assert_eq!(shape_from_config_name("Heart"), ShapeKind::Heart);
}

#[test]
fn menu_commands() {
    assert_eq!(parse_menu_command("shape_heart"), Ok(MenuCommand::SetShape(ShapeKind::Heart)));
    assert_eq!(
        parse_menu_command("shape_rounded_rectangle"),
        Ok(MenuCommand::SetShape(ShapeKind::RoundedRectangle))
    );
    assert_eq!(parse_menu_command("camera_2"), Ok(MenuCommand::SelectCamera(2)));
    assert_eq!(parse_menu_command("camera_+7"), Ok(MenuCommand::SelectCamera(7)));
    assert_eq!(parse_menu_command("camera_x"), Err("无效的摄像头设备ID".to_string()));
    assert_eq!(parse_menu_command("camera_"), Err("无效的摄像头设备ID".to_string()));
    assert_eq!(parse_menu_command("reset_size"), Ok(MenuCommand::ResetSize));
    assert_eq!(parse_menu_command("show_info"), Ok(MenuCommand::ShowInfo));
    assert_eq!(parse_menu_command("quit"), Err("未知的菜单项: quit".to_string()));
}

#[test]
fn key_commands() {
    assert_eq!(key_command(&KeyInput::F4, true), Some(KeyCommand::SetShape(ShapeKind::RoundedRectangle)));
    assert_eq!(key_command(&KeyInput::F4, false), None);
    assert_eq!(key_command(&KeyInput::Tab, true), Some(KeyCommand::NextCamera));
    assert_eq!(key_command(&KeyInput::Space, true), Some(KeyCommand::CycleShape));
    assert_eq!(key_command(&KeyInput::Escape, true), Some(KeyCommand::CloseMenu));
    assert_eq!(key_command(&KeyInput::Character("R".to_string()), true), Some(KeyCommand::ResetWindow));
    assert_eq!(key_command(&KeyInput::Character("r".to_string()), true), Some(KeyCommand::ResetWindow));
    assert_eq!(key_command(&KeyInput::Character("x".to_string()), true), None);
    assert_eq!(key_command(&KeyInput::Other, true), None);
}

#[test]
fn wheel_actions() {
    assert_eq!(scroll_action(ScrollDirection::Up, true), Some(ScrollAction::RotateClockwise));
    assert_eq!(scroll_action(ScrollDirection::Down, true), Some(ScrollAction::RotateCounterClockwise));
    assert_eq!(scroll_action(ScrollDirection::Up, false), Some(ScrollAction::ZoomIn));
    assert_eq!(scroll_action(ScrollDirection::Down, false), Some(ScrollAction::ZoomOut));
    assert_eq!(scroll_action(ScrollDirection::Still, true), None);
}

#[test]
fn failed_frames_are_counted_by_source() {
    assert_eq!(error_source("摄像头捕获失败: x"), ErrorSource::Camera);
    assert_eq!(error_source("GPU 上传失败"), ErrorSource::Render);
    assert_eq!(error_source("带菜单的帧渲染失败"), ErrorSource::Render);
    assert_eq!(error_source("窗口丢失"), ErrorSource::Window);
    assert_eq!(error_source("other"), ErrorSource::Unknown);

    let mut counters = ErrorCounters::new();
    counters.record_failure("摄像头捕获失败");
    counters.record_failure("窗口丢失");
    counters.record_failure("GPU 上传失败");
    assert_eq!(counters.render_errors, 3);
    assert_eq!(counters.camera_errors, 1);
    assert_eq!(counters.window_errors, 1);
}

#[test]
fn hover_shows_buttons_after_a_rest() {
    let mut h = HoverState::new();
    assert!(h.pointer_moved(true, 9999, 0, true, false));
    assert!(h.is_hovering && !h.show_controls);
    assert!(!h.pointer_moved(true, 400, 0, true, false));
    assert!(!h.show_controls && !h.close_hovered);
    assert!(!h.pointer_moved(true, 600, 0, true, false));
    assert!(h.show_controls && h.close_hovered && !h.minimize_hovered);
    assert!(!h.pointer_moved(false, 700, 0, false, false));
    assert_eq!(h, HoverState::new());
}
