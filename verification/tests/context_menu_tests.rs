use mira::ui::context_menu::{ContextMenu, MenuItem, MenuItemType, MenuState};

fn item(id: &str, group: Option<&str>, item_type: MenuItemType) -> MenuItem {
    MenuItem {
        id: id.to_string(),
        text: "测试项".to_string(),
        icon: None,
        enabled: true,
        checked: false,
        item_type,
        group_id: group.map(|g| g.to_string()),
    }
}

#[test]
fn test_context_menu_creation() {
    let menu = ContextMenu::new(1920, 1080);

    assert_eq!(*menu.state(), MenuState::Hidden);
    assert!(menu.item_count() > 0);
    assert!(menu.group_count() > 0);
}

#[test]
fn test_menu_item_management() {
    let mut menu = ContextMenu::new(1920, 1080);

    let initial_count = menu.item_count();

    let test_item = item("test_item", None, MenuItemType::Normal);

    menu.add_menu_item(test_item);
    assert_eq!(menu.item_count(), initial_count + 1);
    assert!(menu.contains_item("test_item"));

    menu.remove_menu_item("test_item");
    assert_eq!(menu.item_count(), initial_count);
    assert!(!menu.contains_item("test_item"));
}

#[test]
fn test_radio_selection() {
    let mut menu = ContextMenu::new(1920, 1080);

    menu.execute_item("shape_ellipse", || Ok(())).ok();

    assert!(menu.get_item("shape_ellipse").unwrap().checked);
    assert!(!menu.get_item("shape_circle").unwrap().checked);
}

#[test]
fn test_camera_device_update() {
    let mut menu = ContextMenu::new(1920, 1080);

    let devices = vec![(0, "内置摄像头".to_string()), (1, "USB摄像头".to_string())];

    menu.update_camera_devices(&devices, Some(0));

    assert!(menu.contains_item("camera_0"));
    assert!(menu.contains_item("camera_1"));

    assert!(menu.get_item("camera_0").unwrap().checked);
    assert!(!menu.get_item("camera_1").unwrap().checked);
}

#[test]
fn camera_entries_are_replaced_on_update() {
    let mut menu = ContextMenu::new(1920, 1080);
    menu.update_camera_devices(&[(0, "A".to_string()), (1, "B".to_string())], Some(1));
    menu.update_camera_devices(&[(3, "C".to_string())], None);
    assert!(!menu.contains_item("camera_0"));
    assert!(!menu.contains_item("camera_1"));
    assert!(menu.contains_item("camera_3"));
    assert!(!menu.get_item("camera_3").unwrap().checked);
    assert_eq!(menu.get_item("camera_3").unwrap().text, "C");
}

#[test]
fn unknown_and_disabled_entries_are_refused() {
    let mut menu = ContextMenu::new(800, 600);
    assert_eq!(menu.execute_item("nope", || Ok(())), Err("菜单项 nope 不存在".to_string()));
    let mut off = item("off", None, MenuItemType::Normal);
    off.enabled = false;
    menu.add_menu_item(off);
    assert_eq!(menu.execute_item("off", || Ok(())), Err("菜单项 off 已禁用".to_string()));
}

#[test]
fn show_hide_and_hover() {
    let mut menu = ContextMenu::new(800, 600);
    menu.show();
    assert_eq!(*menu.state(), MenuState::Visible);
    menu.set_hovered_item(Some("shape_heart".to_string()));
    assert_eq!(menu.hovered_item(), Some("shape_heart"));
    menu.hide_menu();
    assert_eq!(*menu.state(), MenuState::Hidden);
    assert_eq!(menu.hovered_item(), None);
}

#[test]
fn add_then_remove_restores_group_membership() {
    let mut menu = ContextMenu::new(800, 600);
    let before = menu.item_count();
    menu.add_group("extra", "Extra");
    menu.add_menu_item(item("x1", Some("extra"), MenuItemType::Radio));
    menu.add_menu_item(item("x2", Some("extra"), MenuItemType::Radio));
    menu.execute_item("x2", || Ok(())).ok();
    assert!(menu.get_item("x2").unwrap().checked);
    assert!(!menu.get_item("x1").unwrap().checked);
    menu.remove_menu_item("x1");
    menu.remove_menu_item("x2");
    assert_eq!(menu.item_count(), before);
}

#[test]
fn status_text_replaces_only_that_entry() {
    let mut menu = ContextMenu::new(800, 600);
    menu.set_item_text("show_info", "尺寸: 400x400, 位置: (100, 100), 旋转: 0°".to_string());
    assert_eq!(menu.get_item("show_info").unwrap().text, "尺寸: 400x400, 位置: (100, 100), 旋转: 0°");
    let before = menu.item_count();
    menu.set_item_text("no_such_entry", "x".to_string());
    assert_eq!(menu.item_count(), before);
    assert!(!menu.contains_item("no_such_entry"));
}
