use mira::config::manager::{EnvPaths, TargetOs};
use mira::logging::{
    default_log_dir, flush_logs, log_error_statistics, memory_info_from_total_bytes,
    parse_meminfo, rotation_plan, set_log_level, LogLevel, LoggingConfig, MemoryInfo,
    RotationStep,
};

fn linux_env() -> EnvPaths {
    EnvPaths { appdata: None, home: Some("/home/mira".to_string()), xdg_config_home: None }
}

#[test]
fn test_get_default_log_dir() {
    let log_dir = default_log_dir(TargetOs::Other, &linux_env());
    assert!(log_dir.starts_with('/'));
    assert!(log_dir.contains("Mira"));
    assert_eq!(log_dir, "/home/mira/.config/Mira/logs");
}

#[test]
fn test_logging_config_default() {
    let config = LoggingConfig::default_for(TargetOs::Other, &linux_env());
    assert_eq!(config.level, LogLevel::Info);
    assert!(config.enable_rotation);
    assert_eq!(config.max_file_size, 10 * 1024 * 1024);
    assert_eq!(config.max_files, 5);
    assert_eq!(config.log_file, "/home/mira/.config/Mira/logs/mira.log");
}

#[test]
fn test_memory_info_structure() {
    let mem_info = MemoryInfo { total_mb: 8192, available_mb: 4096 };

    assert_eq!(mem_info.total_mb, 8192);
    assert_eq!(mem_info.available_mb, 4096);
}

#[test]
fn test_log_error_statistics() {
    log_error_statistics(0, 0, 0, 0);
    log_error_statistics(1, 2, 0, 1);
}

#[test]
fn error_statistics_text_and_silence() {
    assert_eq!(log_error_statistics(0, 0, 0, 0), None);
    assert_eq!(
        log_error_statistics(1, 2, 0, 13),
        Some("错误统计: 摄像头=1, 渲染=2, 窗口=0, 配置=13".to_string())
    );
}

#[test]
fn log_dirs_on_each_platform() {
    let env = EnvPaths {
        appdata: Some("C:\\Data".to_string()),
        home: Some("/Users/m".to_string()),
        xdg_config_home: Some("/xdg".to_string()),
    };
    assert_eq!(default_log_dir(TargetOs::Windows, &env), "C:\\Data/Mira/logs");
    assert_eq!(
        default_log_dir(TargetOs::MacOs, &env),
        "/Users/m/Library/Application Support/Mira/logs"
    );
    assert_eq!(default_log_dir(TargetOs::Other, &env), "/xdg/Mira/logs");
    let bare = EnvPaths { appdata: None, home: None, xdg_config_home: None };
    assert_eq!(default_log_dir(TargetOs::Windows, &bare), "./Mira/logs");
    assert_eq!(default_log_dir(TargetOs::Other, &bare), "./.config/Mira/logs");
}

#[test]
fn test_rotate_log_files() {
    // A 1024-byte log with a 512-byte limit and three files kept: backups 1 and 2 exist.
    let exists = vec![false, true, true];
    let plan = rotation_plan(true, 1024, 512, 3, &exists);
    assert_eq!(plan, vec![RotationStep::Remove(2), RotationStep::Shift(1), RotationStep::BackupCurrent]);
}

#[test]
fn rotation_only_when_needed() {
    let exists = vec![false, true, false, true, false];
    assert!(rotation_plan(false, 99999, 10, 5, &exists).is_empty());
    assert!(rotation_plan(true, 9, 10, 5, &exists).is_empty());
    assert_eq!(
        rotation_plan(true, 10, 10, 5, &exists),
        vec![RotationStep::Shift(3), RotationStep::Shift(1), RotationStep::BackupCurrent]
    );
    assert_eq!(rotation_plan(true, 10, 10, 0, &exists), vec![RotationStep::BackupCurrent]);
}

#[test]
fn meminfo_is_read_line_by_line() {
    let text = "MemTotal:       16384000 kB\nMemFree:         1000 kB\nMemAvailable:    8192000 kB\n";
    let info = parse_meminfo(text);
    assert_eq!(info.total_mb, 16000);
    assert_eq!(info.available_mb, 8000);

    let odd = "MemTotal: abc kB\r\nMemAvailable:\t2048\nMemTotal: 4096";
    let info = parse_meminfo(odd);
    assert_eq!(info.total_mb, 4);
    assert_eq!(info.available_mb, 2);

    assert_eq!(parse_meminfo(""), MemoryInfo { total_mb: 0, available_mb: 0 });
}

#[test]
fn memory_from_total_bytes() {
    let info = memory_info_from_total_bytes(8 * 1024 * 1024 * 1024);
    assert_eq!(info.total_mb, 8192);
    assert_eq!(info.available_mb, 4096);
}

#[test]
fn level_changes_are_accepted_and_flush_is_harmless() {
    assert_eq!(set_log_level(LogLevel::Debug), Ok(()));
    assert_eq!(log::max_level(), log::LevelFilter::Debug);
    assert_eq!(set_log_level(LogLevel::Warn), Ok(()));
    assert_eq!(log::max_level(), log::LevelFilter::Warn);
    assert_eq!(set_log_level(LogLevel::Off), Ok(()));
    assert_eq!(log::max_level(), log::LevelFilter::Off);
    flush_logs();
}

#[test]
fn memsize_text_is_trimmed_and_parsed() {
    assert_eq!(
        mira::logging::parse_memsize("17179869184\n"),
        Some(MemoryInfo { total_mb: 16384, available_mb: 8192 })
    );
    assert_eq!(
        mira::logging::parse_memsize("  +1048576 \t"),
        Some(MemoryInfo { total_mb: 1, available_mb: 0 })
    );
    assert_eq!(mira::logging::parse_memsize(" 12a "), None);
    assert_eq!(mira::logging::parse_memsize("   "), None);
    assert_eq!(mira::logging::parse_memsize("18446744073709551616"), None);
}
