use mira::camera::manager::{
    map_device_error, next_device_index, startup_device_order, CaptureRetry, CloseAction,
    DeviceError,
};
use mira::camera::{CameraInfo, CameraManager, Frame, PixelFormat};
use mira::error::CameraError;

fn two_cameras() -> Option<Vec<(String, String)>> {
    Some(vec![
        ("Mock Camera 1".to_string(), "Mock Description 1".to_string()),
        ("Mock Camera 2".to_string(), "Mock Description 2".to_string()),
    ])
}

#[test]
fn test_camera_manager_creation() {
    let result = CameraManager::new(two_cameras());
    match result {
        Ok(manager) => {
            assert!(!manager.devices().is_empty());
        }
        Err(CameraError::NoDeviceFound) => {
            println!("警告: 系统中没有找到摄像头设备");
        }
        Err(e) => {
            panic!("创建摄像头管理器时出现意外错误: {}", e.message());
        }
    }
}

#[test]
fn test_camera_info_structure() {
    let info = CameraInfo {
        index: 0,
        name: "Test Camera".to_string(),
        description: "Test Description".to_string(),
    };

    assert_eq!(info.index, 0);
    assert_eq!(info.name, "Test Camera");
    assert_eq!(info.description, "Test Description");
}

#[test]
fn test_frame_structure() {
    let frame = Frame {
        data: vec![255, 0, 0, 0, 255, 0, 0, 0, 255],
        width: 3,
        height: 1,
        format: PixelFormat::RGB8,
    };

    assert_eq!(frame.width, 3);
    assert_eq!(frame.height, 1);
    assert_eq!(frame.format, PixelFormat::RGB8);
    assert_eq!(frame.data.len(), 9);
}

#[test]
fn manager_test_pixel_format_variants() {
    let formats = [PixelFormat::RGB8, PixelFormat::RGBA8, PixelFormat::YUV420];

    for format in formats {
        let frame = Frame { data: vec![0; 100], width: 10, height: 10, format };
        assert_eq!(frame.format, format);
    }
}

#[test]
fn test_invalid_device_index() {
    let manager = CameraManager::new_empty();
    let result = manager.check_open_index(999);
    assert!(matches!(result, Err(CameraError::NoDeviceFound)));
}

#[test]
fn test_capture_without_device() {
    let manager = CameraManager::new_empty();
    let result = manager.capture_precheck();
    assert!(matches!(result, Err(CameraError::CaptureError(_))));
}

#[test]
fn test_close_device_without_open() {
    let mut manager = CameraManager::new_empty();
    let result = manager.close_device();
    assert_eq!(result, CloseAction::Nothing);
}

#[test]
fn test_retry_mechanism() {
    let mut manager = CameraManager::new_empty();

    assert_eq!(manager.retry_count(), 0);
    assert_eq!(manager.max_retries(), 3);

    manager.set_max_retries(5);
    assert_eq!(manager.max_retries(), 5);
}

#[test]
fn test_error_mapping() {
    let error = DeviceError::UnsupportedOperation("Device busy".to_string());
    let mapped = map_device_error(error);
    assert!(matches!(mapped, CameraError::DeviceInUse));

    let error = DeviceError::GetProperty("Permission denied".to_string());
    let mapped = map_device_error(error);
    assert!(matches!(mapped, CameraError::PermissionDenied));

    let error = DeviceError::General("General error".to_string());
    let mapped = map_device_error(error);
    assert!(matches!(mapped, CameraError::CaptureError(_)));
}

#[test]
fn test_empty_device_list() {
    assert!(matches!(CameraManager::new(Some(vec![])), Err(CameraError::NoDeviceFound)));
    assert!(matches!(CameraManager::new(None), Err(CameraError::NoDeviceFound)));
}

#[test]
fn open_failure_messages_are_classified() {
    let mapped = map_device_error(DeviceError::OpenDevice("Access DENIED by system".to_string()));
    assert_eq!(mapped, CameraError::PermissionDenied);
    let mapped = map_device_error(DeviceError::OpenDevice("device is In Use".to_string()));
    assert_eq!(mapped, CameraError::DeviceInUse);
    let mapped = map_device_error(DeviceError::OpenDevice("timeout".to_string()));
    assert_eq!(mapped, CameraError::CaptureError("打开设备失败: timeout".to_string()));
    let mapped = map_device_error(DeviceError::ReadFrame("eof".to_string()));
    assert_eq!(mapped, CameraError::CaptureError("读取帧失败: eof".to_string()));
    let mapped = map_device_error(DeviceError::Other("strange".to_string()));
    assert_eq!(mapped, CameraError::CaptureError("未知错误: strange".to_string()));
}

#[test]
fn devices_are_numbered_and_opened_and_closed() {
    let mut manager = CameraManager::new(two_cameras()).ok().unwrap();
    assert_eq!(manager.devices().len(), 2);
    assert_eq!(manager.devices()[1].index, 1);
    assert_eq!(manager.devices()[1].name, "Mock Camera 2");
    assert!(manager.current_device().is_none());

    assert!(manager.check_open_index(1).is_ok());
    manager.device_opened(1);
    assert_eq!(manager.current_device_index(), Some(1));
    assert_eq!(manager.current_device().unwrap().name, "Mock Camera 2");
    assert!(!manager.is_capturing());
    assert_eq!(manager.capture_precheck(), Ok(true));

    assert_eq!(manager.stream_started(None), Ok(()));
    assert!(manager.is_capturing());
    assert_eq!(manager.capture_precheck(), Ok(false));

    assert_eq!(manager.close_device(), CloseAction::StopStreamAndRelease);
    assert!(manager.current_device().is_none());
    assert!(!manager.is_capturing());
    assert_eq!(manager.close_device(), CloseAction::Nothing);
}

#[test]
fn failed_stream_start_is_a_capture_error() {
    let mut manager = CameraManager::new(two_cameras()).ok().unwrap();
    manager.device_opened(0);
    let r = manager.stream_started(Some("no signal".to_string()));
    assert_eq!(r, Err(CameraError::CaptureError("开始视频流失败: no signal".to_string())));
    assert!(!manager.is_capturing());
}

#[test]
fn capture_retries_then_gives_up() {
    let mut manager = CameraManager::new(two_cameras()).ok().unwrap();
    manager.device_opened(0);
    for attempt in 0..3 {
        assert_eq!(manager.frame_failed(attempt, "io"), CaptureRetry::RetryAfterRestart);
    }
    let r = manager.frame_failed(3, "io");
    assert_eq!(
        r,
        CaptureRetry::GiveUp(CameraError::CaptureError("捕获帧失败，已重试 3 次: io".to_string()))
    );
    assert_eq!(manager.retry_count(), 4);
    manager.frame_captured();
    assert_eq!(manager.retry_count(), 0);
}

#[test]
fn permission_check_and_in_use_probe() {
    let manager = CameraManager::new(two_cameras()).ok().unwrap();
    assert_eq!(manager.check_device_permissions(Ok(2)), Ok(()));
    assert_eq!(manager.check_device_permissions(Ok(0)), Err(CameraError::NoDeviceFound));
    assert_eq!(
        manager.check_device_permissions(Err(DeviceError::SetProperty("x".to_string()))),
        Err(CameraError::PermissionDenied)
    );
    assert!(manager.is_device_in_use(0, Some(DeviceError::OpenDevice("busy".to_string()))));
    assert!(!manager.is_device_in_use(0, None));
    assert!(!manager.is_device_in_use(7, Some(DeviceError::UnsupportedOperation(String::new()))));
}

#[test]
fn startup_order_and_tab_cycling() {
    assert_eq!(startup_device_order(2, 4), vec![2, 0, 1, 3]);
    assert_eq!(startup_device_order(9, 3), vec![0, 1, 2]);
    assert_eq!(startup_device_order(0, 0), Vec::<usize>::new());
    assert_eq!(next_device_index(Some(0), 3), 1);
    assert_eq!(next_device_index(Some(2), 3), 0);
    assert_eq!(next_device_index(None, 3), 1);
}
