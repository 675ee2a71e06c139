use mira::config::manager::{
    config_base_dir, default_config_fields, migration_action, needs_migration, str_less,
    validate_and_fix_fields, EnvPaths, MigrationAction, TargetOs,
};
use mira::config::{CameraConfig, ConfigFields};
use mira::error::ConfigError;

fn fields(width: u32, height: u32, shape: &str, device_index: usize) -> ConfigFields {
    ConfigFields {
        version: "1.0".to_string(),
        width,
        height,
        shape: shape.to_string(),
        device_index,
    }
}

#[test]
fn test_default_config() {
    let config = default_config_fields();
    assert_eq!(config.version, "1.0");
    assert_eq!(config.width, 400);
    assert_eq!(config.height, 400);
    assert_eq!(config.device_index, 0);
    assert_eq!(config.shape, "Circle");
    let camera = CameraConfig { device_index: config.device_index };
    assert_eq!(camera.device_index, 0);
}

#[test]
fn test_config_validation() {
    let mut config = fields(50, 50, "InvalidShape", 0);

    validate_and_fix_fields(&mut config);

    assert_eq!(config.width, 100);
    assert_eq!(config.height, 100);
    assert_eq!(config.shape, "Circle");
}

#[test]
fn test_config_migration() {
    let old_version = "0.9";
    assert!(needs_migration(old_version));
    assert_eq!(migration_action(old_version), MigrationAction::Upgrade);
    let mut migrated = fields(400, 400, "Circle", 0);
    migrated.version = old_version.to_string();
    validate_and_fix_fields(&mut migrated);
    assert_eq!(migrated.version, "1.0");
}

#[test]
fn test_enhanced_validation() {
    let mut config = fields(50, 5000, "", 999);

    validate_and_fix_fields(&mut config);

    assert_eq!(config.width, 100);
    assert_eq!(config.height, 4096);
    assert_eq!(config.shape, "Circle");
    assert_eq!(config.device_index, 0);
}

#[test]
fn test_window_size_limits() {
    let mut config = fields(10000, 10, "Circle", 0);

    validate_and_fix_fields(&mut config);

    assert_eq!(config.width, 4096);
    assert_eq!(config.height, 100);
}

#[test]
fn test_future_version_handling() {
    assert!(needs_migration("2.0"));
    assert_eq!(migration_action("2.0"), MigrationAction::ResetToDefaults);
    assert_eq!(default_config_fields().version, "1.0");
}

#[test]
fn test_invalid_shape_names() {
    let invalid_shapes = ["", "Triangle", "Star", "InvalidShape"];

    for invalid_shape in &invalid_shapes {
        let mut config = fields(400, 400, invalid_shape, 0);
        validate_and_fix_fields(&mut config);
        assert_eq!(
            config.shape, "Circle",
            "Invalid shape '{}' should be corrected to 'Circle'",
            invalid_shape
        );
    }
}

#[test]
fn test_valid_shapes_preserved() {
    let valid_shapes = ["Circle", "Ellipse", "Rectangle", "RoundedRectangle", "Heart"];

    for valid_shape in &valid_shapes {
        let mut config = fields(400, 400, valid_shape, 0);
        validate_and_fix_fields(&mut config);
        assert_eq!(config.shape, *valid_shape, "Valid shape '{}' should be preserved", valid_shape);
    }
}

#[test]
fn migration_of_each_known_version() {
    assert_eq!(migration_action("1.0"), MigrationAction::Keep);
    assert!(!needs_migration("1.0"));
    assert_eq!(migration_action(""), MigrationAction::Upgrade);
    assert_eq!(migration_action("0.1"), MigrationAction::Upgrade);
    assert_eq!(migration_action("0.5"), MigrationAction::ResetToDefaults);
    assert_eq!(migration_action("1.0.1"), MigrationAction::ResetToDefaults);
    assert!(str_less("1.0", "2.0"));
    assert!(!str_less("1.0", "1.0"));
    assert!(str_less("1.0", "1.0.1"));
}

#[test]
fn fixing_twice_changes_nothing_more() {
    let mut config = fields(3, 99999, "Star", 123);
    validate_and_fix_fields(&mut config);
    let once = config.clone();
    validate_and_fix_fields(&mut config);
    assert_eq!(config, once);
}

#[test]
fn test_config_path_generation() {
    let env = EnvPaths {
        appdata: Some("C:\\Users\\u\\AppData\\Roaming".to_string()),
        home: Some("/home/u".to_string()),
        xdg_config_home: None,
    };
    assert_eq!(
        config_base_dir(TargetOs::Windows, &env),
        Ok("C:\\Users\\u\\AppData\\Roaming".to_string())
    );
    assert_eq!(
        config_base_dir(TargetOs::MacOs, &env),
        Ok("/home/u/Library/Application Support".to_string())
    );
    assert_eq!(config_base_dir(TargetOs::Other, &env), Ok("/home/u/.config".to_string()));
    let bare = EnvPaths { appdata: None, home: None, xdg_config_home: None };
    assert_eq!(
        config_base_dir(TargetOs::Windows, &bare),
        Err(ConfigError::WriteError("无法获取 APPDATA 环境变量".to_string()))
    );
    assert_eq!(
        config_base_dir(TargetOs::MacOs, &bare),
        Err(ConfigError::WriteError("无法获取 HOME 环境变量".to_string()))
    );
    assert_eq!(config_base_dir(TargetOs::Other, &bare), Ok("./.config".to_string()));
}
