//! What the window does with a menu choice, a key, a wheel step or a failed frame.

use vstd::prelude::*;
use crate::shape::{ShapeKind, following_shape, shape_at, shape_position};
use crate::text::{
    concat_str, contains_seq, has_prefix, parse_usize, str_chars, str_contains, str_eq,
    str_starts_with, usize_value,
};

verus! {

/// An action chosen from the context menu.
#[derive(Debug, Clone, Copy, PartialEq, Eq, Structural)]
pub enum MenuCommand {
    /// Switch the mask to a shape.
    SetShape(ShapeKind),
    /// Open the camera with this index.
    SelectCamera(usize),
    /// Move the window back to (100, 100).
    ResetPosition,
    /// Set the rotation back to 0°.
    ResetRotation,
    /// Set the size back to 400 × 400.
    ResetSize,
    /// Report the current state.
    ShowInfo,
}

/// The command a menu item id stands for, or the error message for an id that stands for
/// none: ids "camera_N" select camera N when N is an unsigned integer that fits in a `usize`.
pub open spec fn menu_command_for(id: Seq<char>) -> Result<MenuCommand, Seq<char>> {
    if id == "shape_circle"@ {
        Ok(MenuCommand::SetShape(ShapeKind::Circle))
    } else if id == "shape_ellipse"@ {
        Ok(MenuCommand::SetShape(ShapeKind::Ellipse))
    } else if id == "shape_rectangle"@ {
        Ok(MenuCommand::SetShape(ShapeKind::Rectangle))
    } else if id == "shape_rounded_rectangle"@ {
        Ok(MenuCommand::SetShape(ShapeKind::RoundedRectangle))
    } else if id == "shape_heart"@ {
        Ok(MenuCommand::SetShape(ShapeKind::Heart))
    } else if has_prefix(id, "camera_"@) {
        match usize_value(id.skip("camera_"@.len() as int)) {
            Some(n) => Ok(MenuCommand::SelectCamera(n)),
            None => Err("无效的摄像头设备ID"@),
        }
    } else if id == "reset_position"@ {
        Ok(MenuCommand::ResetPosition)
    } else if id == "reset_rotation"@ {
        Ok(MenuCommand::ResetRotation)
    } else if id == "reset_size"@ {
        Ok(MenuCommand::ResetSize)
    } else if id == "show_info"@ {
        Ok(MenuCommand::ShowInfo)
    } else {
        Err("未知的菜单项: "@ + id)
    }
}

/// The command for a clicked menu item (see `menu_command_for`).
pub fn parse_menu_command(item_id: &str) -> (r: Result<MenuCommand, String>)
    ensures
        match r {
            Ok(c) => menu_command_for(item_id@) == Ok::<MenuCommand, Seq<char>>(c),
            Err(e) => menu_command_for(item_id@) == Err::<MenuCommand, Seq<char>>(e@),
        },
{
    if str_eq(item_id, "shape_circle") {
        Ok(MenuCommand::SetShape(ShapeKind::Circle))
    } else if str_eq(item_id, "shape_ellipse") {
        Ok(MenuCommand::SetShape(ShapeKind::Ellipse))
    } else if str_eq(item_id, "shape_rectangle") {
        Ok(MenuCommand::SetShape(ShapeKind::Rectangle))
    } else if str_eq(item_id, "shape_rounded_rectangle") {
        Ok(MenuCommand::SetShape(ShapeKind::RoundedRectangle))
    } else if str_eq(item_id, "shape_heart") {
        Ok(MenuCommand::SetShape(ShapeKind::Heart))
    } else if str_starts_with(item_id, "camera_") {
        proof {
            reveal_strlit("camera_");
        }
        let mut chars = str_chars(item_id);
        let tail = chars.split_off(7);
        assert(tail@ =~= item_id@.skip("camera_"@.len() as int));
        match parse_usize(tail.as_slice()) {
            Some(n) => Ok(MenuCommand::SelectCamera(n)),
            None => Err(String::from_str("无效的摄像头设备ID")),
        }
    } else if str_eq(item_id, "reset_position") {
        Ok(MenuCommand::ResetPosition)
    } else if str_eq(item_id, "reset_rotation") {
        Ok(MenuCommand::ResetRotation)
    } else if str_eq(item_id, "reset_size") {
        Ok(MenuCommand::ResetSize)
    } else if str_eq(item_id, "show_info") {
        Ok(MenuCommand::ShowInfo)
    } else {
        Err(concat_str("未知的菜单项: ", item_id))
    }
}

/// A key as the window sees it.
#[derive(Debug, Clone, PartialEq, Eq)]
pub enum KeyInput {
    F1,
    F2,
    F3,
    F4,
    F5,
    Tab,
    Space,
    Escape,
    /// A key that types text.
    Character(String),
    /// Any other named key.
    Other,
}

/// What a key press asks for.
#[derive(Debug, Clone, Copy, PartialEq, Eq, Structural)]
pub enum KeyCommand {
    /// F1 to F5: switch to a shape.
    SetShape(ShapeKind),
    /// Tab: open the next camera.
    NextCamera,
    /// Space: the next shape of the cycle.
    CycleShape,
    /// R: position, rotation and size back to their defaults.
    ResetWindow,
    /// Escape: close the context menu.
    CloseMenu,
}

/// The command of a key (`pressed` tells a press from a release; releases do nothing).
pub open spec fn key_command_for(key: KeyInput, pressed: bool) -> Option<KeyCommand> {
    if !pressed {
        None
    } else {
        match key {
            KeyInput::F1 => Some(KeyCommand::SetShape(ShapeKind::Circle)),
            KeyInput::F2 => Some(KeyCommand::SetShape(ShapeKind::Ellipse)),
            KeyInput::F3 => Some(KeyCommand::SetShape(ShapeKind::Rectangle)),
            KeyInput::F4 => Some(KeyCommand::SetShape(ShapeKind::RoundedRectangle)),
            KeyInput::F5 => Some(KeyCommand::SetShape(ShapeKind::Heart)),
            KeyInput::Tab => Some(KeyCommand::NextCamera),
            KeyInput::Space => Some(KeyCommand::CycleShape),
            KeyInput::Escape => Some(KeyCommand::CloseMenu),
            KeyInput::Character(c) => if c@ == "r"@ || c@ == "R"@ {
                Some(KeyCommand::ResetWindow)
            } else {
                None
            },
            KeyInput::Other => None,
        }
    }
}

/// The function key at position `k` of the row F1 to F5 (0 is F1; 4 and above are F5).
pub open spec fn function_key(k: nat) -> KeyInput {
    if k == 0 {
        KeyInput::F1
    } else if k == 1 {
        KeyInput::F2
    } else if k == 2 {
        KeyInput::F3
    } else if k == 3 {
        KeyInput::F4
    } else {
        KeyInput::F5
    }
}

/// Pressing the function keys F1 to F5 selects the shapes in the order in which they cycle:
/// key k selects the shape at position k of the cycle, each next key selects the shape that
/// follows, every shape has the key at its own position, and releasing a key does nothing.
pub proof fn lemma_function_keys_follow_cycle(shape: ShapeKind)
    ensures
        forall|k: nat|
            k < 5 ==> #[trigger] key_command_for(function_key(k), true) == Some(
                KeyCommand::SetShape(shape_at(k)),
            ),
        forall|k: nat|
            k < 4 ==> key_command_for(#[trigger] function_key(k + 1), true) == Some(
                KeyCommand::SetShape(following_shape(shape_at(k))),
            ),
        key_command_for(function_key(shape_position(shape)), true) == Some(
            KeyCommand::SetShape(shape),
        ),
        forall|k: nat| #[trigger] key_command_for(function_key(k), false) is None,
{
    assert forall|k: nat| k < 4 implies key_command_for(#[trigger] function_key(k + 1), true)
        == Some(KeyCommand::SetShape(following_shape(shape_at(k)))) by {
        assert(shape_position(shape_at(k)) == k);
        assert(shape_at(k + 1) == following_shape(shape_at(k)));
    }
}

/// The command of a key event (see `key_command_for`).
pub fn key_command(key: &KeyInput, pressed: bool) -> (r: Option<KeyCommand>)
    ensures
        r == key_command_for(*key, pressed),
{
    if !pressed {
        return None;
    }
    match key {
        KeyInput::F1 => Some(KeyCommand::SetShape(ShapeKind::Circle)),
        KeyInput::F2 => Some(KeyCommand::SetShape(ShapeKind::Ellipse)),
        KeyInput::F3 => Some(KeyCommand::SetShape(ShapeKind::Rectangle)),
        KeyInput::F4 => Some(KeyCommand::SetShape(ShapeKind::RoundedRectangle)),
        KeyInput::F5 => Some(KeyCommand::SetShape(ShapeKind::Heart)),
        KeyInput::Tab => Some(KeyCommand::NextCamera),
        KeyInput::Space => Some(KeyCommand::CycleShape),
        KeyInput::Escape => Some(KeyCommand::CloseMenu),
        KeyInput::Character(c) => {
            if str_eq(c.as_str(), "r") || str_eq(c.as_str(), "R") {
                Some(KeyCommand::ResetWindow)
            } else {
                None
            }
        },
        KeyInput::Other => None,
    }
}

/// Which way the wheel turned, once its delta has been read: a line delta by its sign, a
/// pixel delta only when it moved more than one pixel.
#[derive(Debug, Clone, Copy, PartialEq, Eq, Structural)]
pub enum ScrollDirection {
    Up,
    Down,
    Still,
}

/// What a wheel step does to the window.
#[derive(Debug, Clone, Copy, PartialEq, Eq, Structural)]
pub enum ScrollAction {
    /// Ctrl held, wheel up: turn 15° clockwise.
    RotateClockwise,
    /// Ctrl held, wheel down: turn 15° counter-clockwise.
    RotateCounterClockwise,
    /// Wheel up: 10% larger.
    ZoomIn,
    /// Wheel down: back by a factor 1/1.1.
    ZoomOut,
}

/// The angle, in degrees, of one rotation step.
pub const ROTATION_STEP_DEGREES: u32 = 15;

/// The action of a wheel step.
pub open spec fn scroll_action_for(dir: ScrollDirection, ctrl: bool) -> Option<ScrollAction> {
    match dir {
        ScrollDirection::Up => Some(if ctrl { ScrollAction::RotateClockwise } else { ScrollAction::ZoomIn }),
        ScrollDirection::Down => Some(
            if ctrl { ScrollAction::RotateCounterClockwise } else { ScrollAction::ZoomOut },
        ),
        ScrollDirection::Still => None,
    }
}

/// The action of a wheel step (see `scroll_action_for`).
pub fn scroll_action(dir: ScrollDirection, ctrl: bool) -> (r: Option<ScrollAction>)
    ensures
        r == scroll_action_for(dir, ctrl),
{
    match dir {
        ScrollDirection::Up => {
            if ctrl {
                Some(ScrollAction::RotateClockwise)
            } else {
                Some(ScrollAction::ZoomIn)
            }
        },
        ScrollDirection::Down => {
            if ctrl {
                Some(ScrollAction::RotateCounterClockwise)
            } else {
                Some(ScrollAction::ZoomOut)
            }
        },
        ScrollDirection::Still => None,
    }
}

/// The part of the program that a failed frame's message points at.
#[derive(Debug, Clone, Copy, PartialEq, Eq, Structural)]
pub enum ErrorSource {
    Camera,
    Render,
    Window,
    Unknown,
}

/// The source a message names: "摄像头" the camera, else "GPU" or "渲染" rendering, else
/// "窗口" the window.
pub open spec fn error_source_of(msg: Seq<char>) -> ErrorSource {
    if contains_seq(msg, "摄像头"@) {
        ErrorSource::Camera
    } else if contains_seq(msg, "GPU"@) || contains_seq(msg, "渲染"@) {
        ErrorSource::Render
    } else if contains_seq(msg, "窗口"@) {
        ErrorSource::Window
    } else {
        ErrorSource::Unknown
    }
}

/// The source a failed frame's message names (see `error_source_of`).
pub fn error_source(msg: &str) -> (r: ErrorSource)
    ensures
        r == error_source_of(msg@),
{
    if str_contains(msg, "摄像头") {
        ErrorSource::Camera
    } else if str_contains(msg, "GPU") || str_contains(msg, "渲染") {
        ErrorSource::Render
    } else if str_contains(msg, "窗口") {
        ErrorSource::Window
    } else {
        ErrorSource::Unknown
    }
}

/// Counts of failed frames, by what failed.
#[derive(Debug, Clone, Copy, PartialEq, Eq, Structural)]
pub struct ErrorCounters {
    /// Every failed frame.
    pub render_errors: u32,
    /// Failed frames whose message names the camera.
    pub camera_errors: u32,
    /// Failed frames whose message names the window.
    pub window_errors: u32,
}

impl ErrorCounters {
    /// No failures yet.
    pub fn new() -> (r: Self)
        ensures
            r.render_errors == 0,
            r.camera_errors == 0,
            r.window_errors == 0,
    {
        ErrorCounters { render_errors: 0, camera_errors: 0, window_errors: 0 }
    }

    /// Counts one failed frame with message `msg`: it always counts as a render error, and
    /// also as a camera or window error when its message names one.
    pub fn record_failure(&mut self, msg: &str)
        requires
            old(self).render_errors < u32::MAX,
            old(self).camera_errors < u32::MAX,
            old(self).window_errors < u32::MAX,
        ensures
            final(self).render_errors == old(self).render_errors + 1,
            final(self).camera_errors == old(self).camera_errors + (if error_source_of(msg@)
                == ErrorSource::Camera {
                1int
            } else {
                0int
            }),
            final(self).window_errors == old(self).window_errors + (if error_source_of(msg@)
                == ErrorSource::Window {
                1int
            } else {
                0int
            }),
    {
        self.render_errors = self.render_errors + 1;
        match error_source(msg) {
            ErrorSource::Camera => {
                self.camera_errors = self.camera_errors + 1;
            },
            ErrorSource::Window => {
                self.window_errors = self.window_errors + 1;
            },
            _ => {},
        }
    }
}

/// Whether the pointer rests over the window and which window buttons are shown and hovered.
#[derive(Debug, Clone, Copy, PartialEq, Eq, Structural)]
pub struct HoverState {
    /// The pointer is over the window.
    pub is_hovering: bool,
    /// The close and minimise buttons are shown.
    pub show_controls: bool,
    /// The pointer is over the close button.
    pub close_hovered: bool,
    /// The pointer is over the minimise button.
    pub minimize_hovered: bool,
}

/// How long the pointer must rest over the window before the buttons show, in milliseconds.
pub const SHOW_CONTROLS_AFTER_MS: u64 = 500;

/// How long the pointer may stay still before shown buttons hide, in milliseconds.
pub const HIDE_CONTROLS_AFTER_MS: u64 = 2000;

/// The hover state after a pointer move, and whether the hover timer starts anew. `inside`
/// tells whether the pointer is over the window, `hover_ms` how long it has hovered (before
/// any restart), `idle_ms` how long it had stayed still, and `close_hit` / `minimize_hit`
/// whether it is over either button. Entering the window starts the timer; leaving it hides
/// the buttons; after 500 ms of hovering the buttons show and track the pointer; shown
/// buttons hide after 2 s without a move.
pub open spec fn hover_after_move(
    s: HoverState,
    inside: bool,
    hover_ms: u64,
    idle_ms: u64,
    close_hit: bool,
    minimize_hit: bool,
) -> (HoverState, bool) {
    let restart = inside && !s.is_hovering;
    let s1 = if restart {
        HoverState { is_hovering: true, ..s }
    } else if !inside && s.is_hovering {
        HoverState { is_hovering: false, show_controls: false, close_hovered: false, minimize_hovered: false }
    } else {
        s
    };
    let elapsed: u64 = if restart { 0 } else { hover_ms };
    let s2 = if s1.is_hovering && elapsed > SHOW_CONTROLS_AFTER_MS {
        HoverState { show_controls: true, close_hovered: close_hit, minimize_hovered: minimize_hit, ..s1 }
    } else if s1.show_controls {
        if idle_ms > HIDE_CONTROLS_AFTER_MS {
            HoverState { show_controls: false, close_hovered: false, minimize_hovered: false, ..s1 }
        } else {
            HoverState { close_hovered: close_hit, minimize_hovered: minimize_hit, ..s1 }
        }
    } else {
        HoverState { close_hovered: false, minimize_hovered: false, ..s1 }
    };
    (s2, restart)
}

impl HoverState {
    /// Nothing hovered, no buttons shown.
    pub fn new() -> (r: Self)
        ensures
            !r.is_hovering && !r.show_controls && !r.close_hovered && !r.minimize_hovered,
    {
        HoverState { is_hovering: false, show_controls: false, close_hovered: false, minimize_hovered: false }
    }

    /// Updates the state for a pointer move (see `hover_after_move`); returns whether the
    /// hover timer starts anew.
    pub fn pointer_moved(
        &mut self,
        inside: bool,
        hover_ms: u64,
        idle_ms: u64,
        close_hit: bool,
        minimize_hit: bool,
    ) -> (restart: bool)
        ensures
            (*final(self), restart) == hover_after_move(*old(self), inside, hover_ms, idle_ms, close_hit, minimize_hit),
    {
        let restart = inside && !self.is_hovering;
        if restart {
            self.is_hovering = true;
        } else if !inside && self.is_hovering {
            self.is_hovering = false;
            self.show_controls = false;
            self.close_hovered = false;
            self.minimize_hovered = false;
        }
        let elapsed: u64 = if restart { 0 } else { hover_ms };
        if self.is_hovering && elapsed > SHOW_CONTROLS_AFTER_MS {
            self.show_controls = true;
            self.close_hovered = close_hit;
            self.minimize_hovered = minimize_hit;
        } else if self.show_controls {
            if idle_ms > HIDE_CONTROLS_AFTER_MS {
                self.show_controls = false;
                self.close_hovered = false;
                self.minimize_hovered = false;
            } else {
                self.close_hovered = close_hit;
                self.minimize_hovered = minimize_hit;
            }
        } else {
            self.close_hovered = false;
            self.minimize_hovered = false;
        }
        restart
    }
}

/// Buttons are only ever hovered while they are shown, and they are only shown while the
/// pointer is over the window: every pointer move keeps both facts.
pub proof fn lemma_hover_consistent(
    s: HoverState,
    inside: bool,
    hover_ms: u64,
    idle_ms: u64,
    close_hit: bool,
    minimize_hit: bool,
)
    requires
        (s.close_hovered || s.minimize_hovered) ==> s.show_controls,
        s.show_controls ==> s.is_hovering,
    ensures
        ({
            let t = hover_after_move(s, inside, hover_ms, idle_ms, close_hit, minimize_hit).0;
            &&& (t.close_hovered || t.minimize_hovered) ==> t.show_controls
            &&& t.show_controls ==> t.is_hovering
            &&& t.is_hovering == inside
        }),
{
}

} // verus!
