use mira::error::{CameraError, ConfigError, MiraError, RenderError, WindowError};

#[test]
fn test_camera_error_display() {
    let err = CameraError::NoDeviceFound;
    assert!(err.message().contains("未检测到摄像头设备"));

    let err = CameraError::DeviceInUse;
    assert!(err.message().contains("摄像头正被其他应用使用"));

    let err = CameraError::PermissionDenied;
    assert!(err.message().contains("摄像头访问权限被拒绝"));

    let err = CameraError::CaptureError("test error".to_string());
    assert!(err.message().contains("视频捕获失败"));
    assert!(err.message().contains("test error"));
}

#[test]
fn test_window_error_display() {
    let err = WindowError::CreationFailed("test".to_string());
    assert!(err.message().contains("窗口创建失败"));

    let err = WindowError::InvalidSize;
    assert!(err.message().contains("无效的窗口尺寸"));

    let err = WindowError::InvalidPosition;
    assert!(err.message().contains("无效的窗口位置"));
}

#[test]
fn test_render_error_display() {
    let err = RenderError::InitializationFailed("test".to_string());
    assert!(err.message().contains("GPU 初始化失败"));

    let err = RenderError::TextureUploadFailed;
    assert!(err.message().contains("纹理上传失败"));

    let err = RenderError::RenderFailed("test".to_string());
    assert!(err.message().contains("渲染失败"));

    let err = RenderError::UIRenderFailed("test".to_string());
    assert!(err.message().contains("UI 渲染失败"));
}

#[test]
fn test_config_error_display() {
    let err = ConfigError::FileNotFound;
    assert!(err.message().contains("配置文件未找到"));

    let err = ConfigError::ParseError("test".to_string());
    assert!(err.message().contains("配置解析错误"));

    let err = ConfigError::WriteError("test".to_string());
    assert!(err.message().contains("配置写入错误"));
}

#[test]
fn test_mira_error_from_camera_error() {
    let camera_err = CameraError::NoDeviceFound;
    let mira_err: MiraError = camera_err.into();
    assert!(matches!(mira_err, MiraError::Camera(_)));
}

#[test]
fn test_mira_error_from_window_error() {
    let window_err = WindowError::InvalidSize;
    let mira_err: MiraError = window_err.into();
    assert!(matches!(mira_err, MiraError::Window(_)));
}

#[test]
fn test_mira_error_from_render_error() {
    let render_err = RenderError::TextureUploadFailed;
    let mira_err: MiraError = render_err.into();
    assert!(matches!(mira_err, MiraError::Render(_)));
}

#[test]
fn test_mira_error_from_config_error() {
    let config_err = ConfigError::FileNotFound;
    let mira_err: MiraError = config_err.into();
    assert!(matches!(mira_err, MiraError::Config(_)));
}

#[test]
fn test_mira_error_display() {
    let err = MiraError::Camera(CameraError::NoDeviceFound);
    assert!(err.message().contains("摄像头错误"));

    let err = MiraError::Window(WindowError::InvalidSize);
    assert!(err.message().contains("窗口错误"));

    let err = MiraError::Render(RenderError::TextureUploadFailed);
    assert!(err.message().contains("渲染错误"));

    let err = MiraError::Config(ConfigError::FileNotFound);
    assert!(err.message().contains("配置错误"));
}

#[test]
fn test_error_handling_logic() {
    let camera_error = CameraError::CaptureError("Test error".to_string());
    let render_error = RenderError::RenderFailed("Test render error".to_string());

    match camera_error {
        CameraError::CaptureError(msg) => {
            assert_eq!(msg, "Test error");
        }
        _ => assert!(false, "应该匹配捕获错误"),
    }

    match render_error {
        RenderError::RenderFailed(msg) => {
            assert_eq!(msg, "Test render error");
        }
        _ => assert!(false, "应该匹配渲染错误"),
    }
}

#[test]
fn mira_error_messages_are_exact() {
    assert_eq!(
        MiraError::Camera(CameraError::CaptureError("x".to_string())).message(),
        "摄像头错误: 视频捕获失败: x"
    );
    assert_eq!(CameraError::NoDeviceFound.message(), "未检测到摄像头设备，请连接摄像头后重试");
    assert_eq!(
        MiraError::Config(ConfigError::WriteError("disk".to_string())).message(),
        "配置错误: 配置写入错误: disk"
    );
}
