//! The system-tray menu's actions and the tray icon's picture.

use vstd::prelude::*;

verus! {

/// An entry of the tray menu.
#[derive(Debug, Clone, Copy, PartialEq, Eq, Structural)]
pub enum TrayMenuAction {
    ShapeCircle,
    ShapeEllipse,
    ShapeRectangle,
    ShapeRoundedRectangle,
    ShapeHeart,
    ResetPosition,
    ResetRotation,
    ResetSize,
    RotateLeft,
    RotateRight,
    ShowInfo,
    Quit,
}

/// The ids that the tray toolkit gave the menu entries when it built them.
pub struct TrayItemIds {
    pub shape_circle: String,
    pub shape_ellipse: String,
    pub shape_rectangle: String,
    pub shape_rounded_rectangle: String,
    pub shape_heart: String,
    pub reset_position: String,
    pub reset_rotation: String,
    pub reset_size: String,
    pub rotate_left: String,
    pub rotate_right: String,
    pub show_info: String,
    pub quit: String,
}

/// The action of a menu event with id `event`: the first entry, in menu order, whose id it
/// is; none when it is no entry's.
pub open spec fn tray_action_for(ids: TrayItemIds, event: Seq<char>) -> Option<TrayMenuAction> {
    if event == ids.shape_circle@ {
        Some(TrayMenuAction::ShapeCircle)
    } else if event == ids.shape_ellipse@ {
        Some(TrayMenuAction::ShapeEllipse)
    } else if event == ids.shape_rectangle@ {
        Some(TrayMenuAction::ShapeRectangle)
    } else if event == ids.shape_rounded_rectangle@ {
        Some(TrayMenuAction::ShapeRoundedRectangle)
    } else if event == ids.shape_heart@ {
        Some(TrayMenuAction::ShapeHeart)
    } else if event == ids.reset_position@ {
        Some(TrayMenuAction::ResetPosition)
    } else if event == ids.reset_rotation@ {
        Some(TrayMenuAction::ResetRotation)
    } else if event == ids.reset_size@ {
        Some(TrayMenuAction::ResetSize)
    } else if event == ids.rotate_left@ {
        Some(TrayMenuAction::RotateLeft)
    } else if event == ids.rotate_right@ {
        Some(TrayMenuAction::RotateRight)
    } else if event == ids.show_info@ {
        Some(TrayMenuAction::ShowInfo)
    } else if event == ids.quit@ {
        Some(TrayMenuAction::Quit)
    } else {
        None
    }
}

/// The id of the menu entry that performs `action`.
pub open spec fn entry_id(ids: TrayItemIds, action: TrayMenuAction) -> Seq<char> {
    match action {
        TrayMenuAction::ShapeCircle => ids.shape_circle@,
        TrayMenuAction::ShapeEllipse => ids.shape_ellipse@,
        TrayMenuAction::ShapeRectangle => ids.shape_rectangle@,
        TrayMenuAction::ShapeRoundedRectangle => ids.shape_rounded_rectangle@,
        TrayMenuAction::ShapeHeart => ids.shape_heart@,
        TrayMenuAction::ResetPosition => ids.reset_position@,
        TrayMenuAction::ResetRotation => ids.reset_rotation@,
        TrayMenuAction::ResetSize => ids.reset_size@,
        TrayMenuAction::RotateLeft => ids.rotate_left@,
        TrayMenuAction::RotateRight => ids.rotate_right@,
        TrayMenuAction::ShowInfo => ids.show_info@,
        TrayMenuAction::Quit => ids.quit@,
    }
}

/// Whether no two menu entries share an id.
pub open spec fn ids_distinct(ids: TrayItemIds) -> bool {
    forall|a: TrayMenuAction, b: TrayMenuAction|
        a != b ==> #[trigger] entry_id(ids, a) != #[trigger] entry_id(ids, b)
}

/// A click answers with an action only when it carries that action's entry id; and when the
/// entries' ids are distinct, the id of every entry answers with that entry's own action.
pub proof fn lemma_tray_action_is_own_entry(ids: TrayItemIds, event: Seq<char>, action: TrayMenuAction)
    ensures
        tray_action_for(ids, event) == Some(action) ==> event == entry_id(ids, action),
        ids_distinct(ids) ==> tray_action_for(ids, entry_id(ids, action)) == Some(action),
        (forall|a: TrayMenuAction| event != #[trigger] entry_id(ids, a)) ==> tray_action_for(ids, event)
            is None,
{
    if ids_distinct(ids) {
        let e = entry_id(ids, action);
        assert(entry_id(ids, TrayMenuAction::ShapeCircle) == ids.shape_circle@);
        assert(entry_id(ids, TrayMenuAction::ShapeEllipse) == ids.shape_ellipse@);
        assert(entry_id(ids, TrayMenuAction::ShapeRectangle) == ids.shape_rectangle@);
        assert(entry_id(ids, TrayMenuAction::ShapeRoundedRectangle) == ids.shape_rounded_rectangle@);
        assert(entry_id(ids, TrayMenuAction::ShapeHeart) == ids.shape_heart@);
        assert(entry_id(ids, TrayMenuAction::ResetPosition) == ids.reset_position@);
        assert(entry_id(ids, TrayMenuAction::ResetRotation) == ids.reset_rotation@);
        assert(entry_id(ids, TrayMenuAction::ResetSize) == ids.reset_size@);
        assert(entry_id(ids, TrayMenuAction::RotateLeft) == ids.rotate_left@);
        assert(entry_id(ids, TrayMenuAction::RotateRight) == ids.rotate_right@);
        assert(entry_id(ids, TrayMenuAction::ShowInfo) == ids.show_info@);
        assert(entry_id(ids, TrayMenuAction::Quit) == ids.quit@);
    }
    if forall|a: TrayMenuAction| event != #[trigger] entry_id(ids, a) {
        assert(event != entry_id(ids, TrayMenuAction::ShapeCircle));
        assert(event != entry_id(ids, TrayMenuAction::ShapeEllipse));
        assert(event != entry_id(ids, TrayMenuAction::ShapeRectangle));
        assert(event != entry_id(ids, TrayMenuAction::ShapeRoundedRectangle));
        assert(event != entry_id(ids, TrayMenuAction::ShapeHeart));
        assert(event != entry_id(ids, TrayMenuAction::ResetPosition));
        assert(event != entry_id(ids, TrayMenuAction::ResetRotation));
        assert(event != entry_id(ids, TrayMenuAction::ResetSize));
        assert(event != entry_id(ids, TrayMenuAction::RotateLeft));
        assert(event != entry_id(ids, TrayMenuAction::RotateRight));
        assert(event != entry_id(ids, TrayMenuAction::ShowInfo));
        assert(event != entry_id(ids, TrayMenuAction::Quit));
    }
}

/// Whether two ids are the same text.
fn same_id(a: &String, b: &str) -> (r: bool)
    ensures
        r == (a@ == b@),
{
    crate::text::str_eq(a.as_str(), b)
}

/// The action of a received menu event (see `tray_action_for`).
pub fn tray_action(ids: &TrayItemIds, event_id: &str) -> (r: Option<TrayMenuAction>)
    ensures
        r == tray_action_for(*ids, event_id@),
{
    if same_id(&ids.shape_circle, event_id) {
        Some(TrayMenuAction::ShapeCircle)
    } else if same_id(&ids.shape_ellipse, event_id) {
        Some(TrayMenuAction::ShapeEllipse)
    } else if same_id(&ids.shape_rectangle, event_id) {
        Some(TrayMenuAction::ShapeRectangle)
    } else if same_id(&ids.shape_rounded_rectangle, event_id) {
        Some(TrayMenuAction::ShapeRoundedRectangle)
    } else if same_id(&ids.shape_heart, event_id) {
        Some(TrayMenuAction::ShapeHeart)
    } else if same_id(&ids.reset_position, event_id) {
        Some(TrayMenuAction::ResetPosition)
    } else if same_id(&ids.reset_rotation, event_id) {
        Some(TrayMenuAction::ResetRotation)
    } else if same_id(&ids.reset_size, event_id) {
        Some(TrayMenuAction::ResetSize)
    } else if same_id(&ids.rotate_left, event_id) {
        Some(TrayMenuAction::RotateLeft)
    } else if same_id(&ids.rotate_right, event_id) {
        Some(TrayMenuAction::RotateRight)
    } else if same_id(&ids.show_info, event_id) {
        Some(TrayMenuAction::ShowInfo)
    } else if same_id(&ids.quit, event_id) {
        Some(TrayMenuAction::Quit)
    } else {
        None
    }
}

/// The side of the square tray icon, in pixels.
pub const ICON_SIZE: u32 = 32;

/// The squared distance of pixel (x, y) from the icon's centre (16, 16).
pub open spec fn icon_dist2(x: int, y: int) -> int {
    (x - 16) * (x - 16) + (y - 16) * (y - 16)
}

/// Channel `c` (red, green, blue, alpha) of icon pixel (x, y): a blue lens out to radius
/// 12, a white ring out to radius 14, transparent beyond.
pub open spec fn icon_channel(x: int, y: int, c: int) -> u8 {
    let d2 = icon_dist2(x, y);
    if d2 <= 144 {
        if c == 0 {
            64
        } else if c == 1 {
            128
        } else {
            255
        }
    } else if d2 <= 196 {
        255
    } else {
        0
    }
}

/// The four channels of one icon pixel (see `icon_channel`).
fn icon_pixel(x: u32, y: u32) -> (r: [u8; 4])
    requires
        x < 32,
        y < 32,
    ensures
        forall|c: int| 0 <= c < 4 ==> r@[c] == icon_channel(x as int, y as int, c),
{
    let dx: i32 = x as i32 - 16;
    let dy: i32 = y as i32 - 16;
    assert(-16 <= dx < 16 && -16 <= dy < 16);
    assert(dx * dx <= 256) by (nonlinear_arith)
        requires
            -16 <= dx < 16,
    ;
    assert(dy * dy <= 256) by (nonlinear_arith)
        requires
            -16 <= dy < 16,
    ;
    assert(dx * dx >= 0 && dy * dy >= 0) by (nonlinear_arith);
    let d2: i32 = dx * dx + dy * dy;
    assert(d2 == icon_dist2(x as int, y as int));
    if d2 <= 144 {
        [64, 128, 255, 255]
    } else if d2 <= 196 {
        [255, 255, 255, 255]
    } else {
        [0, 0, 0, 0]
    }
}

/// The tray icon as 32 × 32 RGBA bytes, row by row (see `icon_channel`).
pub fn default_icon_rgba() -> (r: Vec<u8>)
    ensures
        r@.len() == 32 * 32 * 4,
        forall|y: int, x: int, c: int|
            0 <= y < 32 && 0 <= x < 32 && 0 <= c < 4 ==> #[trigger] r@[(y * 32 + x) * 4 + c]
                == icon_channel(x, y, c),
{
    let mut v: Vec<u8> = Vec::new();
    let mut y: u32 = 0;
    while y < 32
        invariant
            y <= 32,
            v@.len() == (y as int) * 32 * 4,
            forall|yy: int, x: int, c: int|
                0 <= yy < y && 0 <= x < 32 && 0 <= c < 4 ==> #[trigger] v@[(yy * 32 + x) * 4 + c]
                    == icon_channel(x, yy, c),
        decreases 32 - y,
    {
        let mut x: u32 = 0;
        while x < 32
            invariant
                y < 32,
                x <= 32,
                v@.len() == ((y as int) * 32 + x as int) * 4,
                forall|yy: int, xx: int, c: int|
                    0 <= yy < y && 0 <= xx < 32 && 0 <= c < 4 ==> #[trigger] v@[(yy * 32 + xx) * 4
                        + c] == icon_channel(xx, yy, c),
                forall|xx: int, c: int|
                    0 <= xx < x && 0 <= c < 4 ==> #[trigger] v@[((y as int) * 32 + xx) * 4 + c]
                        == icon_channel(xx, y as int, c),
            decreases 32 - x,
        {
            let p = icon_pixel(x, y);
            let ghost before = v@;
            v.push(p[0]);
            v.push(p[1]);
            v.push(p[2]);
            v.push(p[3]);
            assert(v@ =~= before + p@);
            assert forall|xx: int, c: int|
                0 <= xx < x + 1 && 0 <= c < 4 implies #[trigger] v@[((y as int) * 32 + xx) * 4 + c]
                    == icon_channel(xx, y as int, c) by {
                if xx < x {
                    assert(v@[((y as int) * 32 + xx) * 4 + c] == before[((y as int) * 32 + xx) * 4
                        + c]);
                } else {
                    assert(v@[((y as int) * 32 + xx) * 4 + c] == p@[c]);
                }
            }
            x = x + 1;
        }
        y = y + 1;
    }
    v
}

} // verus!
