//! Camera device bookkeeping: the device list, which device is open, whether it streams, and
//! the retry policy for failed captures.
//!
//! Talking to the camera hardware is the caller's part: each step below says what the
//! manager decides before or after one hardware call, and the caller performs that call.

use vstd::prelude::*;

use crate::error::CameraError;
use crate::text::{str_chars, lowercase_ascii, contains_chars, lower_ascii, contains_seq, concat_str, decimal, append_decimal};

verus! {

/// A camera device.
#[derive(Debug, Clone, PartialEq)]
pub struct CameraInfo {
    /// Position of the device in the enumeration.
    pub index: usize,
    /// Human-readable name.
    pub name: String,
    /// Description.
    pub description: String,
}

/// A captured video frame.
#[derive(Debug, Clone)]
pub struct Frame {
    /// Pixel bytes, row by row.
    pub data: Vec<u8>,
    /// Width in pixels.
    pub width: u32,
    /// Height in pixels.
    pub height: u32,
    /// Layout of the pixel bytes.
    pub format: PixelFormat,
}

/// Pixel layouts.
#[derive(Debug, Clone, Copy, PartialEq, Eq, Structural)]
pub enum PixelFormat {
    /// Three bytes per pixel.
    RGB8,
    /// Four bytes per pixel.
    RGBA8,
    /// Planar YUV 4:2:0.
    YUV420,
}

/// A failure reported by the camera backend, with its message.
#[derive(Debug, Clone, PartialEq)]
pub enum DeviceError {
    /// The backend does not support the requested operation.
    UnsupportedOperation(String),
    /// Opening the device failed.
    OpenDevice(String),
    /// Reading a device property failed.
    GetProperty(String),
    /// Setting a device property failed.
    SetProperty(String),
    /// A structure could not be built.
    Structure(String),
    /// Reading a frame failed.
    ReadFrame(String),
    /// Processing a frame failed.
    ProcessFrame(String),
    /// Any other backend failure with a message.
    General(String),
    /// A failure of another kind, described by its displayed text.
    Other(String),
}

/// Whether a lower-cased message speaks of refused access.
pub open spec fn mentions_permission(lower: Seq<char>) -> bool {
    contains_seq(lower, "permission"@) || contains_seq(lower, "access"@) || contains_seq(lower, "denied"@)
}

/// Whether a lower-cased message speaks of a busy device.
pub open spec fn mentions_busy(lower: Seq<char>) -> bool {
    contains_seq(lower, "busy"@) || contains_seq(lower, "in use"@) || contains_seq(lower, "occupied"@)
}

/// Whether `r` is the camera error that backend failure `e` stands for. Unsupported
/// operations mean the device is taken; an open failure whose message (ASCII letters compared
/// case-insensitively) speaks of permission, access or denial is a refusal, one that speaks of
/// a busy, used or occupied device means it is taken; property failures are refusals; every
/// other failure is a capture error carrying the message behind a prefix naming the failure.
pub open spec fn maps_device_error(e: DeviceError, r: CameraError) -> bool {
    match e {
        DeviceError::UnsupportedOperation(_) => r == CameraError::DeviceInUse,
        DeviceError::OpenDevice(msg) => if mentions_permission(lower_ascii(msg@)) {
            r == CameraError::PermissionDenied
        } else if mentions_busy(lower_ascii(msg@)) {
            r == CameraError::DeviceInUse
        } else {
            r matches CameraError::CaptureError(m) && m@ == "打开设备失败: "@ + msg@
        },
        DeviceError::GetProperty(_) => r == CameraError::PermissionDenied,
        DeviceError::SetProperty(_) => r == CameraError::PermissionDenied,
        DeviceError::Structure(msg) => r matches CameraError::CaptureError(m) && m@ == "设备结构错误: "@ + msg@,
        DeviceError::ReadFrame(msg) => r matches CameraError::CaptureError(m) && m@ == "读取帧失败: "@ + msg@,
        DeviceError::ProcessFrame(msg) => r matches CameraError::CaptureError(m) && m@ == "处理帧失败: "@ + msg@,
        DeviceError::General(msg) => r matches CameraError::CaptureError(m) && m@ == "通用错误: "@ + msg@,
        DeviceError::Other(text) => r matches CameraError::CaptureError(m) && m@ == "未知错误: "@ + text@,
    }
}

/// Whether backend failure `e` stands for a device taken by another application.
pub open spec fn means_in_use(e: DeviceError) -> bool {
    match e {
        DeviceError::UnsupportedOperation(_) => true,
        DeviceError::OpenDevice(msg) => !mentions_permission(lower_ascii(msg@)) && mentions_busy(lower_ascii(msg@)),
        _ => false,
    }
}

/// A probe failure means the device is taken exactly when it stands for the camera error
/// `DeviceInUse`; in particular an unsupported operation always does, and so does an open
/// failure that speaks of a busy device but not of permission.
pub proof fn lemma_in_use_iff_maps_to_in_use(e: DeviceError)
    ensures
        means_in_use(e) <==> maps_device_error(e, CameraError::DeviceInUse),
        e is UnsupportedOperation ==> means_in_use(e),
        means_in_use(e) ==> forall|c: CameraError| #[trigger] maps_device_error(e, c) ==> c
            == CameraError::DeviceInUse,
{
}

/// Whether a message speaks of refused access or of a busy device, by the keyword lists
/// `permission`, `access`, `denied` and `busy`, `in use`, `occupied`.
fn keyword_in(lower: &[char], keyword: &str) -> (r: bool)
    ensures
        r == contains_seq(lower@, keyword@),
{
    let k = str_chars(keyword);
    contains_chars(lower, k.as_slice())
}

/// The camera error a backend failure stands for (see `maps_device_error`).
pub fn map_device_error(error: DeviceError) -> (r: CameraError)
    ensures
        maps_device_error(error, r),
{
    match error {
        DeviceError::UnsupportedOperation(_) => CameraError::DeviceInUse,
        DeviceError::OpenDevice(msg) => {
            let chars = str_chars(msg.as_str());
            let lower = lowercase_ascii(chars.as_slice());
            if keyword_in(lower.as_slice(), "permission") || keyword_in(lower.as_slice(), "access")
                || keyword_in(lower.as_slice(), "denied") {
                CameraError::PermissionDenied
            } else if keyword_in(lower.as_slice(), "busy") || keyword_in(lower.as_slice(), "in use")
                || keyword_in(lower.as_slice(), "occupied") {
                CameraError::DeviceInUse
            } else {
                CameraError::CaptureError(concat_str("打开设备失败: ", msg.as_str()))
            }
        },
        DeviceError::GetProperty(_) => CameraError::PermissionDenied,
        DeviceError::SetProperty(_) => CameraError::PermissionDenied,
        DeviceError::Structure(msg) => CameraError::CaptureError(concat_str("设备结构错误: ", msg.as_str())),
        DeviceError::ReadFrame(msg) => CameraError::CaptureError(concat_str("读取帧失败: ", msg.as_str())),
        DeviceError::ProcessFrame(msg) => CameraError::CaptureError(concat_str("处理帧失败: ", msg.as_str())),
        DeviceError::General(msg) => CameraError::CaptureError(concat_str("通用错误: ", msg.as_str())),
        DeviceError::Other(text) => CameraError::CaptureError(concat_str("未知错误: ", text.as_str())),
    }
}

/// A device as values.
pub struct CameraInfoView {
    pub index: usize,
    pub name: Seq<char>,
    pub description: Seq<char>,
}

impl View for CameraInfo {
    type V = CameraInfoView;

    open spec fn view(&self) -> CameraInfoView {
        CameraInfoView { index: self.index, name: self.name@, description: self.description@ }
    }
}

/// The manager as values.
pub struct CameraManagerView {
    /// Known devices.
    pub devices: Seq<CameraInfoView>,
    /// The open device, if any.
    pub current: Option<usize>,
    /// Whether a device is open.
    pub open: bool,
    /// Whether the open device is streaming.
    pub capturing: bool,
    /// Failed captures since the last success or (re)opening.
    pub retry_count: u32,
    /// Retries allowed after a failed capture.
    pub max_retries: u32,
}

/// What the caller does to close the open device.
#[derive(Debug, Clone, Copy, PartialEq, Eq, Structural)]
pub enum CloseAction {
    /// No device is open: nothing to do.
    Nothing,
    /// Release the device.
    Release,
    /// Stop its stream, then release the device.
    StopStreamAndRelease,
}

/// What follows a failed capture attempt.
#[derive(Debug, Clone, PartialEq)]
pub enum CaptureRetry {
    /// Wait a moment, restart the stream and try again.
    RetryAfterRestart,
    /// Stop trying and report the error.
    GiveUp(CameraError),
}

/// Camera manager.
pub struct CameraManager {
    devices: Vec<CameraInfo>,
    current_device_index: Option<usize>,
    camera_open: bool,
    is_capturing: bool,
    retry_count: u32,
    max_retries: u32,
}

impl View for CameraManager {
    type V = CameraManagerView;

    closed spec fn view(&self) -> CameraManagerView {
        CameraManagerView {
            devices: self.devices@.map_values(|d: CameraInfo| d@),
            current: self.current_device_index,
            open: self.camera_open,
            capturing: self.is_capturing,
            retry_count: self.retry_count,
            max_retries: self.max_retries,
        }
    }
}

/// The devices found by a query, numbered by position.
pub open spec fn numbered_devices(found: Seq<(String, String)>) -> Seq<CameraInfoView> {
    Seq::new(found.len(), |i: int| CameraInfoView { index: i as usize, name: found[i].0@, description: found[i].1@ })
}

/// A manager with no devices and nothing open, allowing three retries.
pub open spec fn empty_manager() -> CameraManagerView {
    CameraManagerView { devices: Seq::empty(), current: None, open: false, capturing: false, retry_count: 0, max_retries: 3 }
}

/// The manager after its open device is closed: nothing open or streaming, retries reset.
/// With nothing open, nothing changes.
pub open spec fn closed(v: CameraManagerView) -> CameraManagerView {
    if v.open {
        CameraManagerView { open: false, capturing: false, current: None, retry_count: 0, ..v }
    } else {
        v
    }
}

/// The manager after device `index` was opened: it is current, open, not yet streaming, and
/// retries are reset.
pub open spec fn opened(v: CameraManagerView, index: usize) -> CameraManagerView {
    CameraManagerView { open: true, capturing: false, current: Some(index), retry_count: 0, ..v }
}

impl CameraManager {
    /// A manager with no devices and nothing open, allowing three retries.
    pub fn new_empty() -> (r: Self)
        ensures
            r@ == empty_manager(),
    {
        let r = CameraManager {
            devices: Vec::new(),
            current_device_index: None,
            camera_open: false,
            is_capturing: false,
            retry_count: 0,
            max_retries: 3,
        };
        assert(r@.devices =~= Seq::<CameraInfoView>::empty());
        r
    }

    /// A manager for the devices a backend query found (`None` when the query failed): it
    /// fails with `NoDeviceFound` when the query failed or found nothing.
    pub fn new(found: Option<Vec<(String, String)>>) -> (r: Result<Self, CameraError>)
        ensures
            match found {
                Some(list) => if list@.len() > 0 {
                    r matches Ok(m) && m@ == (CameraManagerView { devices: numbered_devices(list@), ..empty_manager() })
                } else {
                    r matches Err(CameraError::NoDeviceFound)
                },
                None => r matches Err(CameraError::NoDeviceFound),
            },
    {
        let mut manager = Self::new_empty();
        match manager.enumerate_devices(found) {
            Ok(_) => Ok(manager),
            Err(e) => Err(e),
        }
    }

    /// Takes the devices a backend query found (`None` when it failed): each is numbered by
    /// its position; a failed or empty query leaves the list as it was and gives
    /// `NoDeviceFound`. On success the new list is returned too.
    pub fn enumerate_devices(&mut self, found: Option<Vec<(String, String)>>) -> (r: Result<Vec<CameraInfo>, CameraError>)
        ensures
            match found {
                Some(list) => if list@.len() > 0 {
                    &&& final(self)@ == (CameraManagerView { devices: numbered_devices(list@), ..old(self)@ })
                    &&& r matches Ok(v) && v@.map_values(|d: CameraInfo| d@) == numbered_devices(list@)
                } else {
                    final(self)@ == old(self)@ && r matches Err(CameraError::NoDeviceFound)
                },
                None => final(self)@ == old(self)@ && r matches Err(CameraError::NoDeviceFound),
            },
    {
        let list = match found {
            Some(list) => list,
            None => {
                return Err(CameraError::NoDeviceFound);
            },
        };
        if list.len() == 0 {
            return Err(CameraError::NoDeviceFound);
        }
        let mut devices: Vec<CameraInfo> = Vec::new();
        let mut copy: Vec<CameraInfo> = Vec::new();
        let mut i: usize = 0;
        while i < list.len()
            invariant
                i <= list@.len(),
                devices@.map_values(|d: CameraInfo| d@) =~= numbered_devices(list@).take(i as int),
                copy@.map_values(|d: CameraInfo| d@) =~= numbered_devices(list@).take(i as int),
            decreases list@.len() - i,
        {
            let info = CameraInfo { index: i, name: list[i].0.clone(), description: list[i].1.clone() };
            let dup = CameraInfo { index: i, name: list[i].0.clone(), description: list[i].1.clone() };
            let ghost d0 = devices@;
            let ghost c0 = copy@;
            assert(info@ == numbered_devices(list@)[i as int]);
            assert(dup@ == numbered_devices(list@)[i as int]);
            devices.push(info);
            copy.push(dup);
            assert(devices@.map_values(|d: CameraInfo| d@) =~= d0.map_values(|d: CameraInfo| d@).push(numbered_devices(list@)[i as int]));
            assert(copy@.map_values(|d: CameraInfo| d@) =~= c0.map_values(|d: CameraInfo| d@).push(numbered_devices(list@)[i as int]));
            assert(numbered_devices(list@).take(i + 1) =~= numbered_devices(list@).take(i as int).push(numbered_devices(list@)[i as int]));
            i = i + 1;
        }
        assert(numbered_devices(list@).take(list@.len() as int) =~= numbered_devices(list@));
        self.devices = devices;
        Ok(copy)
    }

    /// Whether `index` names a known device; otherwise opening it fails with `NoDeviceFound`.
    pub fn check_open_index(&self, index: usize) -> (r: Result<(), CameraError>)
        ensures
            index < self@.devices.len() ==> r is Ok,
            index >= self@.devices.len() ==> r matches Err(CameraError::NoDeviceFound),
    {
        if index >= self.devices.len() {
            Err(CameraError::NoDeviceFound)
        } else {
            Ok(())
        }
    }

    /// Records that device `index` was opened: it becomes current, is not streaming yet, and
    /// retries are reset.
    pub fn device_opened(&mut self, index: usize)
        ensures
            final(self)@ == opened(old(self)@, index),
    {
        self.camera_open = true;
        self.current_device_index = Some(index);
        self.is_capturing = false;
        self.retry_count = 0;
    }

    /// Closes the open device: the caller stops the stream when told to and releases the
    /// device; the manager then has nothing open or streaming and its retries are reset.
    pub fn close_device(&mut self) -> (r: CloseAction)
        ensures
            final(self)@ == closed(old(self)@),
            r == (if !old(self)@.open {
                CloseAction::Nothing
            } else if old(self)@.capturing {
                CloseAction::StopStreamAndRelease
            } else {
                CloseAction::Release
            }),
    {
        if !self.camera_open {
            return CloseAction::Nothing;
        }
        let action = if self.is_capturing { CloseAction::StopStreamAndRelease } else { CloseAction::Release };
        self.camera_open = false;
        self.is_capturing = false;
        self.current_device_index = None;
        self.retry_count = 0;
        action
    }

    /// Before a capture: with no open device it fails; otherwise it says whether the caller
    /// must first start the stream.
    pub fn capture_precheck(&self) -> (r: Result<bool, CameraError>)
        ensures
            !self@.open ==> (r matches Err(CameraError::CaptureError(m)) && m@ == "没有打开的摄像头设备"@),
            self@.open ==> r == Ok::<bool, CameraError>(!self@.capturing),
    {
        if !self.camera_open {
            return Err(CameraError::CaptureError(String::from_str("没有打开的摄像头设备")));
        }
        Ok(!self.is_capturing)
    }

    /// The outcome of starting the stream: on success the device streams; a failure with
    /// message `error` becomes a capture error and leaves the state unchanged.
    pub fn stream_started(&mut self, error: Option<String>) -> (r: Result<(), CameraError>)
        ensures
            match error {
                None => r is Ok && final(self)@ == (CameraManagerView { capturing: true, ..old(self)@ }),
                Some(e) => final(self)@ == old(self)@ && (r matches Err(CameraError::CaptureError(m))
                    && m@ == "开始视频流失败: "@ + e@),
            },
    {
        match error {
            None => {
                self.is_capturing = true;
                Ok(())
            },
            Some(e) => Err(CameraError::CaptureError(concat_str("开始视频流失败: ", e.as_str()))),
        }
    }

    /// Records a captured frame: failures counted so far are forgotten.
    pub fn frame_captured(&mut self)
        ensures
            final(self)@ == (CameraManagerView { retry_count: 0, ..old(self)@ }),
    {
        if self.retry_count > 0 {
            self.retry_count = 0;
        }
    }

    /// Records that capture attempt `attempt` (counting from zero) failed with message
    /// `error`: the failure is counted; while `attempt` is below `max_retries` the caller waits,
    /// restarts the stream and tries again, after that it gives up with a capture error.
    pub fn frame_failed(&mut self, attempt: u32, error: &str) -> (r: CaptureRetry)
        requires
            old(self)@.retry_count < u32::MAX,
        ensures
            final(self)@ == (CameraManagerView { retry_count: (old(self)@.retry_count + 1) as u32, ..old(self)@ }),
            attempt < old(self)@.max_retries ==> r == CaptureRetry::RetryAfterRestart,
            attempt >= old(self)@.max_retries ==> (r matches CaptureRetry::GiveUp(CameraError::CaptureError(m))
                && m@ == "捕获帧失败，已重试 "@ + decimal(old(self)@.max_retries as nat) + " 次: "@ + error@),
    {
        self.retry_count = self.retry_count + 1;
        if attempt < self.max_retries {
            CaptureRetry::RetryAfterRestart
        } else {
            let mut m = String::from_str("捕获帧失败，已重试 ");
            append_decimal(&mut m, self.max_retries as u64);
            m.append(" 次: ");
            m.append(error);
            CaptureRetry::GiveUp(CameraError::CaptureError(m))
        }
    }

    /// Whether the backend can be asked: a query that failed with `query_error` gives the camera
    /// error it stands for, one that found no device gives `NoDeviceFound`.
    pub fn check_device_permissions(&self, query: Result<usize, DeviceError>) -> (r: Result<(), CameraError>)
        ensures
            match query {
                Ok(count) => if count == 0 { r matches Err(CameraError::NoDeviceFound) } else { r is Ok },
                Err(e) => r matches Err(c) && maps_device_error(e, c),
            },
    {
        match query {
            Ok(count) => if count == 0 {
                Err(CameraError::NoDeviceFound)
            } else {
                Ok(())
            },
            Err(e) => Err(map_device_error(e)),
        }
    }

    /// Whether device `index` is taken by another application, given what a trial opening of
    /// it reported (`None` when it opened): unknown devices are not in use, and a failure
    /// counts when it stands for `DeviceInUse`.
    pub fn is_device_in_use(&self, index: usize, probe: Option<DeviceError>) -> (r: bool)
        ensures
            index >= self@.devices.len() ==> !r,
            index < self@.devices.len() ==> r == match probe {
                None => false,
                Some(e) => means_in_use(e),
            },
            index < self@.devices.len() ==> (r <==> (probe matches Some(e) && maps_device_error(
                e,
                CameraError::DeviceInUse,
            ))),
    {
        if index >= self.devices.len() {
            return false;
        }
        match probe {
            None => false,
            Some(e) => {
                let mapped = map_device_error(e);
                match mapped {
                    CameraError::DeviceInUse => true,
                    _ => false,
                }
            },
        }
    }

    /// The open device's information, when the current index names a known device.
    pub fn current_device(&self) -> (r: Option<&CameraInfo>)
        ensures
            match self@.current {
                Some(i) => if i < self@.devices.len() {
                    r matches Some(d) && d@ == self@.devices[i as int]
                } else {
                    r is None
                },
                None => r is None,
            },
    {
        match self.current_device_index {
            Some(i) => if i < self.devices.len() {
                Some(&self.devices[i])
            } else {
                None
            },
            None => None,
        }
    }

    /// Index of the open device.
    pub fn current_device_index(&self) -> (r: Option<usize>)
        ensures
            r == self@.current,
    {
        self.current_device_index
    }

    /// Whether the open device streams.
    pub fn is_capturing(&self) -> (r: bool)
        ensures
            r == self@.capturing,
    {
        self.is_capturing
    }

    /// Whether a device is open.
    pub fn is_open(&self) -> (r: bool)
        ensures
            r == self@.open,
    {
        self.camera_open
    }

    /// The known devices.
    pub fn devices(&self) -> (r: &[CameraInfo])
        ensures
            r@.map_values(|d: CameraInfo| d@) == self@.devices,
    {
        self.devices.as_slice()
    }

    /// Failed captures counted since the last success or opening.
    pub fn retry_count(&self) -> (r: u32)
        ensures
            r == self@.retry_count,
    {
        self.retry_count
    }

    /// Retries allowed after a failed capture.
    pub fn max_retries(&self) -> (r: u32)
        ensures
            r == self@.max_retries,
    {
        self.max_retries
    }

    /// Sets the retries allowed after a failed capture.
    pub fn set_max_retries(&mut self, max_retries: u32)
        ensures
            final(self)@ == (CameraManagerView { max_retries, ..old(self)@ }),
    {
        self.max_retries = max_retries;
    }
}

/// The order in which to try devices at start-up: the configured device when it exists,
/// otherwise device 0, then every other device in order.
pub open spec fn startup_order(configured: usize, count: usize) -> Seq<usize> {
    let first: usize = if configured < count { configured } else { 0 };
    if count == 0 {
        Seq::empty()
    } else {
        seq![first] + Seq::new(count as nat, |i: int| i as usize).filter(|i: usize| i != first)
    }
}

/// The devices to try at start-up, in order (see `startup_order`).
pub fn startup_device_order(configured: usize, count: usize) -> (r: Vec<usize>)
    ensures
        r@ == startup_order(configured, count),
{
    let mut r: Vec<usize> = Vec::new();
    if count == 0 {
        assert(r@ =~= startup_order(configured, count));
        return r;
    }
    let first: usize = if configured < count { configured } else { 0 };
    r.push(first);
    let ghost all = Seq::new(count as nat, |i: int| i as usize);
    let ghost keep = |i: usize| i != first;
    let mut i: usize = 0;
    while i < count
        invariant
            count > 0,
            i <= count,
            all == Seq::new(count as nat, |i: int| i as usize),
            keep == (|i: usize| i != first),
            r@ == seq![first] + all.take(i as int).filter(keep),
        decreases count - i,
    {
        assert(all.take(i + 1) =~= all.take(i as int).push(i));
        reveal_with_fuel(Seq::filter, 1);
        assert(all.take(i + 1).drop_last() =~= all.take(i as int));
        if i != first {
            r.push(i);
        }
        assert(r@ =~= seq![first] + all.take(i + 1).filter(keep));
        i = i + 1;
    }
    assert(all.take(count as int) =~= all);
    r
}

/// The device after `current` in a list of `count`, wrapping around; no device counts as 0.
pub fn next_device_index(current: Option<usize>, count: usize) -> (r: usize)
    requires
        count > 0,
        current matches Some(c) ==> c < usize::MAX,
    ensures
        r == (match current {
            Some(c) => c,
            None => 0,
        } + 1) % count as int,
{
    let c = match current {
        Some(c) => c,
        None => 0,
    };
    (c + 1) % count
}


/// Closing right after opening leaves nothing open, streaming or current, with retries reset
/// and the device list untouched; closing again then changes nothing.
pub proof fn lemma_close_after_open(v: CameraManagerView, index: usize)
    ensures
        closed(opened(v, index)) == (CameraManagerView {
            open: false,
            capturing: false,
            current: None,
            retry_count: 0,
            ..v
        }),
        closed(closed(v)) == closed(v),
        !closed(v).open,
        closed(v).devices == v.devices,
{
}

/// Start-up tries the configured device first when it exists (device 0 otherwise), and tries
/// every device, each of them an existing one.
pub proof fn lemma_startup_order_covers(configured: usize, count: usize)
    ensures
        count > 0 ==> startup_order(configured, count)[0] == (if configured < count {
            configured
        } else {
            0
        }),
        forall|d: usize| d < count ==> #[trigger] startup_order(configured, count).contains(d),
        forall|i: int|
            0 <= i < startup_order(configured, count).len() ==> #[trigger] startup_order(
                configured,
                count,
            )[i] < count,
{
    broadcast use vstd::seq_lib::group_filter_ensures;
    if count > 0 {
        let first: usize = if configured < count { configured } else { 0 };
        let all = Seq::new(count as nat, |i: int| i as usize);
        let keep = |i: usize| i != first;
        let order = startup_order(configured, count);
        assert(order == seq![first] + all.filter(keep));
        assert forall|d: usize| d < count implies #[trigger] order.contains(d) by {
            if d == first {
                assert(order[0] == d);
            } else {
                assert(all[d as int] == d);
                all.lemma_filter_contains(keep, d as int);
                let j = choose|j: int| 0 <= j < all.filter(keep).len() && all.filter(keep)[j] == d;
                assert(order[j + 1] == d);
            }
        }
        lemma_filter_below(all, keep, count);
        assert forall|i: int| 0 <= i < order.len() implies #[trigger] order[i] < count by {
            if i > 0 {
                assert(order[i] == all.filter(keep)[i - 1]);
            }
        }
    }
}

/// Keeping some elements of a sequence of numbers below `bound` keeps them below `bound`.
proof fn lemma_filter_below(s: Seq<usize>, pred: spec_fn(usize) -> bool, bound: usize)
    requires
        forall|i: int| 0 <= i < s.len() ==> #[trigger] s[i] < bound,
    ensures
        forall|i: int| 0 <= i < s.filter(pred).len() ==> #[trigger] s.filter(pred)[i] < bound,
    decreases s.len(),
{
    reveal_with_fuel(Seq::filter, 1);
    if s.len() > 0 {
        let t = s.drop_last();
        assert forall|i: int| 0 <= i < t.len() implies #[trigger] t[i] < bound by {
            assert(t[i] == s[i]);
        }
        lemma_filter_below(t, pred, bound);
        assert(s.last() == s[s.len() - 1]);
        let sub = t.filter(pred);
        assert(s.filter(pred) == if pred(s.last()) { sub.push(s.last()) } else { sub });
        assert forall|i: int| 0 <= i < s.filter(pred).len() implies #[trigger] s.filter(pred)[i]
            < bound by {
            if i < sub.len() {
                assert(s.filter(pred)[i] == sub[i]);
            }
        }
    }
}

/// Tab walks through every device and comes back: the next index is always an existing
/// device, and from device `c` it is `c + 1`, wrapping to 0 after the last one.
pub proof fn lemma_next_device_cycles(c: usize, count: usize)
    requires
        c < count,
    ensures
        (c + 1) % (count as int) < count,
        c + 1 < count ==> (c + 1) % (count as int) == c + 1,
        c + 1 == count ==> (c + 1) % (count as int) == 0,
{
    if c + 1 < count {
        vstd::arithmetic::div_mod::lemma_small_mod((c + 1) as nat, count as nat);
    }
}

} // verus!
