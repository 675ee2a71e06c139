//! Error types of the camera application, their user-facing messages and conversions.

use vstd::prelude::*;

use crate::text::concat_str;

verus! {

/// Top-level error of the application.
#[derive(Debug)]
pub enum MiraError {
    /// A camera error.
    Camera(CameraError),
    /// A window error.
    Window(WindowError),
    /// A rendering error.
    Render(RenderError),
    /// A configuration error.
    Config(ConfigError),
}

/// Camera errors.
#[derive(Debug, Clone, PartialEq)]
pub enum CameraError {
    /// No camera device was found.
    NoDeviceFound,
    /// The device is used by another application.
    DeviceInUse,
    /// Access to the camera was refused.
    PermissionDenied,
    /// Capturing video failed.
    CaptureError(String),
}

/// Window errors.
#[derive(Debug, Clone, PartialEq)]
pub enum WindowError {
    /// The window could not be created.
    CreationFailed(String),
    /// The window size is not valid.
    InvalidSize,
    /// The window position is not valid.
    InvalidPosition,
}

/// Rendering errors.
#[derive(Debug, Clone, PartialEq)]
pub enum RenderError {
    /// GPU initialisation failed.
    InitializationFailed(String),
    /// Uploading a texture failed.
    TextureUploadFailed,
    /// Rendering failed.
    RenderFailed(String),
    /// Rendering the user interface failed.
    UIRenderFailed(String),
}

/// Configuration errors.
#[derive(Debug, Clone, PartialEq)]
pub enum ConfigError {
    /// The configuration file was not found.
    FileNotFound,
    /// The configuration could not be parsed.
    ParseError(String),
    /// The configuration could not be written.
    WriteError(String),
}

/// The message shown for a camera error.
pub open spec fn camera_error_text(e: CameraError) -> Seq<char> {
    match e {
        CameraError::NoDeviceFound => "未检测到摄像头设备，请连接摄像头后重试"@,
        CameraError::DeviceInUse => "摄像头正被其他应用使用，请关闭占用摄像头的应用"@,
        CameraError::PermissionDenied => "摄像头访问权限被拒绝，请在系统设置中允许 Mira 访问摄像头"@,
        CameraError::CaptureError(msg) => "视频捕获失败: "@ + msg@,
    }
}

/// The message shown for a window error.
pub open spec fn window_error_text(e: WindowError) -> Seq<char> {
    match e {
        WindowError::CreationFailed(msg) => "窗口创建失败: "@ + msg@,
        WindowError::InvalidSize => "无效的窗口尺寸"@,
        WindowError::InvalidPosition => "无效的窗口位置"@,
    }
}

/// The message shown for a rendering error.
pub open spec fn render_error_text(e: RenderError) -> Seq<char> {
    match e {
        RenderError::InitializationFailed(msg) => "GPU 初始化失败，请更新显卡驱动: "@ + msg@,
        RenderError::TextureUploadFailed => "纹理上传失败"@,
        RenderError::RenderFailed(msg) => "渲染失败: "@ + msg@,
        RenderError::UIRenderFailed(msg) => "UI 渲染失败: "@ + msg@,
    }
}

/// The message shown for a configuration error.
pub open spec fn config_error_text(e: ConfigError) -> Seq<char> {
    match e {
        ConfigError::FileNotFound => "配置文件未找到"@,
        ConfigError::ParseError(msg) => "配置解析错误: "@ + msg@,
        ConfigError::WriteError(msg) => "配置写入错误: "@ + msg@,
    }
}

/// The message shown for an application error: the area, then the inner message.
pub open spec fn mira_error_text(e: MiraError) -> Seq<char> {
    match e {
        MiraError::Camera(c) => "摄像头错误: "@ + camera_error_text(c),
        MiraError::Window(w) => "窗口错误: "@ + window_error_text(w),
        MiraError::Render(r) => "渲染错误: "@ + render_error_text(r),
        MiraError::Config(c) => "配置错误: "@ + config_error_text(c),
    }
}

impl CameraError {
    /// The user-facing message of this error.
    pub fn message(&self) -> (r: String)
        ensures
            r@ == camera_error_text(*self),
    {
        match self {
            CameraError::NoDeviceFound => String::from_str("未检测到摄像头设备，请连接摄像头后重试"),
            CameraError::DeviceInUse => String::from_str("摄像头正被其他应用使用，请关闭占用摄像头的应用"),
            CameraError::PermissionDenied => String::from_str(
                "摄像头访问权限被拒绝，请在系统设置中允许 Mira 访问摄像头",
            ),
            CameraError::CaptureError(msg) => concat_str("视频捕获失败: ", msg.as_str()),
        }
    }
}

impl WindowError {
    /// The user-facing message of this error.
    pub fn message(&self) -> (r: String)
        ensures
            r@ == window_error_text(*self),
    {
        match self {
            WindowError::CreationFailed(msg) => concat_str("窗口创建失败: ", msg.as_str()),
            WindowError::InvalidSize => String::from_str("无效的窗口尺寸"),
            WindowError::InvalidPosition => String::from_str("无效的窗口位置"),
        }
    }
}

impl RenderError {
    /// The user-facing message of this error.
    pub fn message(&self) -> (r: String)
        ensures
            r@ == render_error_text(*self),
    {
        match self {
            RenderError::InitializationFailed(msg) => concat_str(
                "GPU 初始化失败，请更新显卡驱动: ",
                msg.as_str(),
            ),
            RenderError::TextureUploadFailed => String::from_str("纹理上传失败"),
            RenderError::RenderFailed(msg) => concat_str("渲染失败: ", msg.as_str()),
            RenderError::UIRenderFailed(msg) => concat_str("UI 渲染失败: ", msg.as_str()),
        }
    }
}

impl ConfigError {
    /// The user-facing message of this error.
    pub fn message(&self) -> (r: String)
        ensures
            r@ == config_error_text(*self),
    {
        match self {
            ConfigError::FileNotFound => String::from_str("配置文件未找到"),
            ConfigError::ParseError(msg) => concat_str("配置解析错误: ", msg.as_str()),
            ConfigError::WriteError(msg) => concat_str("配置写入错误: ", msg.as_str()),
        }
    }
}

impl MiraError {
    /// The user-facing message of this error: the area it belongs to, then the inner message.
    pub fn message(&self) -> (r: String)
        ensures
            r@ == mira_error_text(*self),
    {
        match self {
            MiraError::Camera(e) => {
                let inner = e.message();
                concat_str("摄像头错误: ", inner.as_str())
            },
            MiraError::Window(e) => {
                let inner = e.message();
                concat_str("窗口错误: ", inner.as_str())
            },
            MiraError::Render(e) => {
                let inner = e.message();
                concat_str("渲染错误: ", inner.as_str())
            },
            MiraError::Config(e) => {
                let inner = e.message();
                concat_str("配置错误: ", inner.as_str())
            },
        }
    }
}

impl From<CameraError> for MiraError {
    fn from(err: CameraError) -> (r: Self) {
        MiraError::Camera(err)
    }
}

impl vstd::std_specs::convert::FromSpecImpl<CameraError> for MiraError {
    open spec fn obeys_from_spec() -> bool {
        true
    }

    open spec fn from_spec(v: CameraError) -> Self {
        MiraError::Camera(v)
    }
}

impl From<WindowError> for MiraError {
    fn from(err: WindowError) -> (r: Self) {
        MiraError::Window(err)
    }
}

impl vstd::std_specs::convert::FromSpecImpl<WindowError> for MiraError {
    open spec fn obeys_from_spec() -> bool {
        true
    }

    open spec fn from_spec(v: WindowError) -> Self {
        MiraError::Window(v)
    }
}

impl From<RenderError> for MiraError {
    fn from(err: RenderError) -> (r: Self) {
        MiraError::Render(err)
    }
}

impl vstd::std_specs::convert::FromSpecImpl<RenderError> for MiraError {
    open spec fn obeys_from_spec() -> bool {
        true
    }

    open spec fn from_spec(v: RenderError) -> Self {
        MiraError::Render(v)
    }
}

impl From<ConfigError> for MiraError {
    fn from(err: ConfigError) -> (r: Self) {
        MiraError::Config(err)
    }
}

impl vstd::std_specs::convert::FromSpecImpl<ConfigError> for MiraError {
    open spec fn obeys_from_spec() -> bool {
        true
    }

    open spec fn from_spec(v: ConfigError) -> Self {
        MiraError::Config(v)
    }
}

} // verus!
