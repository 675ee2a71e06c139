//! The right-click context menu: its items, groups, display order, radio groups and state.
//!
//! Layout and hit testing work in floating-point pixels and stay with the windowing layer;
//! this module keeps everything the menu decides.

use vstd::prelude::*;

use crate::keyed::{lemma_entries_card, unique_keys, entries_map, lemma_entries_dom, lemma_entries_index, lemma_entries_update, lemma_entries_remove, lemma_entries_push};
use crate::text::{lemma_decimal_injective, has_prefix, str_starts_with, clone_opt_string, str_eq, concat_str, decimal, append_decimal, str_chars};

verus! {

/// The kind of a menu entry.
#[derive(Debug, Clone, Copy, PartialEq, Eq, Structural)]
pub enum MenuItemType {
    /// A plain entry.
    Normal,
    /// A separator line.
    Separator,
    /// A radio entry: one of its group is checked.
    Radio,
    /// A check box.
    Checkbox,
    /// A sub-menu.
    Submenu,
}

/// One menu entry.
#[derive(Debug)]
pub struct MenuItem {
    /// Unique identifier.
    pub id: String,
    /// Displayed text.
    pub text: String,
    /// Icon name, if any.
    pub icon: Option<String>,
    /// Whether the entry can be chosen.
    pub enabled: bool,
    /// Whether the entry is checked (radio and check box entries).
    pub checked: bool,
    /// The kind of entry.
    pub item_type: MenuItemType,
    /// The group the entry belongs to, if any.
    pub group_id: Option<String>,
}

/// A group of menu entries.
#[derive(Debug)]
pub struct MenuGroup {
    /// Group identifier.
    pub id: String,
    /// Group title.
    pub title: String,
    /// Identifiers of the entries of the group, in the order they joined.
    pub items: Vec<String>,
}

/// Visibility state of the menu.
#[derive(Debug, Clone, Copy, PartialEq, Eq, Structural)]
pub enum MenuState {
    /// Not shown.
    Hidden,
    /// Shown.
    Visible,
    /// Being animated in.
    ShowingAnimation,
    /// Being animated out.
    HidingAnimation,
}

/// A menu entry as values.
pub struct MenuItemView {
    pub id: Seq<char>,
    pub text: Seq<char>,
    pub icon: Option<Seq<char>>,
    pub enabled: bool,
    pub checked: bool,
    pub item_type: MenuItemType,
    pub group_id: Option<Seq<char>>,
}

/// A menu group as values.
pub struct MenuGroupView {
    pub id: Seq<char>,
    pub title: Seq<char>,
    pub items: Seq<Seq<char>>,
}

impl View for MenuItem {
    type V = MenuItemView;

    open spec fn view(&self) -> MenuItemView {
        MenuItemView {
            id: self.id@,
            text: self.text@,
            icon: self.icon.deep_view(),
            enabled: self.enabled,
            checked: self.checked,
            item_type: self.item_type,
            group_id: self.group_id.deep_view(),
        }
    }
}

impl View for MenuGroup {
    type V = MenuGroupView;

    open spec fn view(&self) -> MenuGroupView {
        MenuGroupView { id: self.id@, title: self.title@, items: self.items.deep_view() }
    }
}

impl MenuItem {
    /// A copy of this entry.
    pub fn duplicate(&self) -> (r: MenuItem)
        ensures
            r@ == self@,
    {
        MenuItem {
            id: self.id.clone(),
            text: self.text.clone(),
            icon: clone_opt_string(&self.icon),
            enabled: self.enabled,
            checked: self.checked,
            item_type: self.item_type,
            group_id: clone_opt_string(&self.group_id),
        }
    }
}

/// The whole menu as values.
pub struct ContextMenuView {
    /// Entries by identifier.
    pub items: Map<Seq<char>, MenuItemView>,
    /// Groups by identifier.
    pub groups: Map<Seq<char>, MenuGroupView>,
    /// Entry identifiers in display order.
    pub order: Seq<Seq<char>>,
    /// Visibility state.
    pub state: MenuState,
    /// Selected entry.
    pub selected: Option<Seq<char>>,
    /// Entry under the pointer.
    pub hovered: Option<Seq<char>>,
    /// Entries that have a callback.
    pub callbacks: Set<Seq<char>>,
    /// Screen size used to keep the menu on screen.
    pub screen_width: u32,
    pub screen_height: u32,
}

/// The display order lists exactly the entries of the menu.
pub open spec fn order_matches_items(v: ContextMenuView) -> bool {
    &&& forall|i: int| 0 <= i < v.order.len() ==> v.items.dom().contains(#[trigger] v.order[i])
    &&& forall|k: Seq<char>| v.items.dom().contains(k) ==> v.order.contains(k)
}

/// A group with one more entry identifier at its end.
pub open spec fn group_with(g: MenuGroupView, id: Seq<char>) -> MenuGroupView {
    MenuGroupView { items: g.items.push(id), ..g }
}

/// The menu after adding entry `it` with its identifier at position `pos` of the display
/// order: the entry is stored under its identifier (replacing an entry with the same
/// identifier) and joins its group when that group exists.
pub open spec fn with_item_at(v: ContextMenuView, pos: int, it: MenuItemView) -> ContextMenuView {
    ContextMenuView {
        items: v.items.insert(it.id, it),
        order: v.order.insert(pos, it.id),
        groups: match it.group_id {
            Some(g) => if v.groups.dom().contains(g) {
                v.groups.insert(g, group_with(v.groups[g], it.id))
            } else {
                v.groups
            },
            None => v.groups,
        },
        ..v
    }
}

/// The menu after adding entry `it` at the end of the display order.
pub open spec fn with_item(v: ContextMenuView, it: MenuItemView) -> ContextMenuView {
    with_item_at(v, v.order.len() as int, it)
}

/// The menu after adding an empty group (an existing group of that identifier is replaced).
pub open spec fn with_group(v: ContextMenuView, id: Seq<char>, title: Seq<char>) -> ContextMenuView {
    ContextMenuView {
        groups: v.groups.insert(id, MenuGroupView { id, title, items: Seq::empty() }),
        ..v
    }
}


/// An entry with the given fields.
pub open spec fn entry_view(
    id: Seq<char>,
    text: Seq<char>,
    icon: Option<Seq<char>>,
    enabled: bool,
    checked: bool,
    item_type: MenuItemType,
    group_id: Option<Seq<char>>,
) -> MenuItemView {
    MenuItemView { id, text, icon, enabled, checked, item_type, group_id }
}

/// The entry identifiers of a new menu, in display order: the five shapes, two separators,
/// the three window resets, a separator and the status entry.
pub open spec fn default_order() -> Seq<Seq<char>> {
    seq![
        "shape_circle"@,
        "shape_ellipse"@,
        "shape_rectangle"@,
        "shape_rounded_rectangle"@,
        "shape_heart"@,
        "separator_1"@,
        "separator_2"@,
        "reset_position"@,
        "reset_rotation"@,
        "reset_size"@,
        "separator_3"@,
        "show_info"@,
    ]
}

/// The entries of a new menu by identifier; only the circle is checked.
pub open spec fn default_items() -> Map<Seq<char>, MenuItemView> {
    map![
        "shape_circle"@ => entry_view("shape_circle"@, "圆形"@, Some("circle"@), true, true, MenuItemType::Radio, Some("shapes"@)),
        "shape_ellipse"@ => entry_view("shape_ellipse"@, "椭圆形"@, Some("ellipse"@), true, false, MenuItemType::Radio, Some("shapes"@)),
        "shape_rectangle"@ => entry_view("shape_rectangle"@, "矩形"@, Some("rectangle"@), true, false, MenuItemType::Radio, Some("shapes"@)),
        "shape_rounded_rectangle"@ => entry_view("shape_rounded_rectangle"@, "圆角矩形"@, Some("rounded_rectangle"@), true, false, MenuItemType::Radio, Some("shapes"@)),
        "shape_heart"@ => entry_view("shape_heart"@, "心形"@, Some("heart"@), true, false, MenuItemType::Radio, Some("shapes"@)),
        "separator_1"@ => entry_view("separator_1"@, ""@, None, false, false, MenuItemType::Separator, None),
        "separator_2"@ => entry_view("separator_2"@, ""@, None, false, false, MenuItemType::Separator, None),
        "reset_position"@ => entry_view("reset_position"@, "重置位置"@, Some("reset_position"@), true, false, MenuItemType::Normal, Some("window_control"@)),
        "reset_rotation"@ => entry_view("reset_rotation"@, "重置旋转"@, Some("reset_rotation"@), true, false, MenuItemType::Normal, Some("window_control"@)),
        "reset_size"@ => entry_view("reset_size"@, "重置大小"@, Some("reset_size"@), true, false, MenuItemType::Normal, Some("window_control"@)),
        "separator_3"@ => entry_view("separator_3"@, ""@, None, false, false, MenuItemType::Separator, None),
        "show_info"@ => entry_view("show_info"@, "显示信息"@, Some("info"@), true, false, MenuItemType::Normal, Some("status"@)),
    ]
}

/// The groups of a new menu: shapes (the five shape entries), cameras (empty),
/// window control (the three resets) and status (the status entry).
pub open spec fn default_groups() -> Map<Seq<char>, MenuGroupView> {
    map![
        "shapes"@ => MenuGroupView {
            id: "shapes"@,
            title: "形状选择"@,
            items: seq!["shape_circle"@, "shape_ellipse"@, "shape_rectangle"@, "shape_rounded_rectangle"@, "shape_heart"@],
        },
        "cameras"@ => MenuGroupView { id: "cameras"@, title: "摄像头设备"@, items: seq![] },
        "window_control"@ => MenuGroupView {
            id: "window_control"@,
            title: "窗口控制"@,
            items: seq!["reset_position"@, "reset_rotation"@, "reset_size"@],
        },
        "status"@ => MenuGroupView { id: "status"@, title: "状态信息"@, items: seq!["show_info"@] },
    ]
}

/// A new menu on a screen of the given size: hidden, nothing selected or hovered, no callbacks.
pub open spec fn default_menu(screen_width: u32, screen_height: u32) -> ContextMenuView {
    ContextMenuView {
        items: default_items(),
        groups: default_groups(),
        order: default_order(),
        state: MenuState::Hidden,
        selected: None,
        hovered: None,
        callbacks: Set::empty(),
        screen_width,
        screen_height,
    }
}


/// An optional string as values.
pub open spec fn opt_chars(o: Option<&str>) -> Option<Seq<char>> {
    match o {
        Some(s) => Some(s@),
        None => None,
    }
}

/// A menu with no entries, groups or callbacks, hidden, on a screen of the given size.
pub open spec fn empty_menu(screen_width: u32, screen_height: u32) -> ContextMenuView {
    ContextMenuView {
        items: Map::empty(),
        groups: Map::empty(),
        order: Seq::empty(),
        state: MenuState::Hidden,
        selected: None,
        hovered: None,
        callbacks: Set::empty(),
        screen_width,
        screen_height,
    }
}


/// `s` with every occurrence of `x` taken out, the rest in order.
pub open spec fn without(s: Seq<Seq<char>>, x: Seq<char>) -> Seq<Seq<char>>
    decreases s.len(),
{
    if s.len() == 0 {
        s
    } else if s.last() == x {
        without(s.drop_last(), x)
    } else {
        without(s.drop_last(), x).push(s.last())
    }
}

/// What `without` keeps: exactly the elements other than `x`.
pub proof fn lemma_without(s: Seq<Seq<char>>, x: Seq<char>)
    ensures
        forall|i: int| 0 <= i < without(s, x).len() ==> #[trigger] without(s, x)[i] != x
            && s.contains(without(s, x)[i]),
        forall|y: Seq<char>| y != x && s.contains(y) ==> #[trigger] without(s, x).contains(y),
        without(s, x).len() <= s.len(),
    decreases s.len(),
{
    if s.len() > 0 {
        let t = s.drop_last();
        lemma_without(t, x);
        let w = without(s, x);
        let wt = without(t, x);
        assert forall|i: int| 0 <= i < w.len() implies #[trigger] w[i] != x && s.contains(w[i]) by {
            if i < wt.len() {
                assert(w[i] == wt[i]);
                let j = choose|j: int| 0 <= j < t.len() && t[j] == wt[i];
                assert(s[j] == wt[i]);
            } else {
                assert(w[i] == s.last());
                assert(s[s.len() - 1] == s.last());
            }
        }
        assert forall|y: Seq<char>| y != x && s.contains(y) implies #[trigger] w.contains(y) by {
            let j = choose|j: int| 0 <= j < s.len() && s[j] == y;
            if j < s.len() - 1 {
                assert(t[j] == y);
                assert(wt.contains(y));
                let k = choose|k: int| 0 <= k < wt.len() && wt[k] == y;
                assert(w[k] == y);
            } else {
                assert(w[w.len() - 1] == y);
            }
        }
    }
}

/// The menu after removing the entry `id`, when there is one: it leaves the entry table, the
/// display order, its group and the callbacks, and stops being selected or hovered.
pub open spec fn without_item(v: ContextMenuView, id: Seq<char>) -> ContextMenuView {
    if v.items.dom().contains(id) {
        ContextMenuView {
            items: v.items.remove(id),
            order: without(v.order, id),
            groups: match v.items[id].group_id {
                Some(g) => if v.groups.dom().contains(g) {
                    v.groups.insert(g, MenuGroupView { items: without(v.groups[g].items, id), ..v.groups[g] })
                } else {
                    v.groups
                },
                None => v.groups,
            },
            callbacks: v.callbacks.remove(id),
            selected: if v.selected == Some(id) { None } else { v.selected },
            hovered: if v.hovered == Some(id) { None } else { v.hovered },
            ..v
        }
    } else {
        v
    }
}


/// Whether `k` is a radio entry of group `g`.
pub open spec fn is_radio_of(items: Map<Seq<char>, MenuItemView>, k: Seq<char>, g: Seq<char>) -> bool {
    items[k].group_id == Some(g) && items[k].item_type == MenuItemType::Radio
}

/// The entries after choosing radio entry `id`: within its group, exactly the radio entries'
/// check marks change, and only `id` is checked among them. An entry without a group changes
/// nothing.
pub open spec fn radio_selected(items: Map<Seq<char>, MenuItemView>, id: Seq<char>) -> Map<Seq<char>, MenuItemView> {
    match items[id].group_id {
        Some(g) => Map::new(
            |k: Seq<char>| items.dom().contains(k),
            |k: Seq<char>| if is_radio_of(items, k, g) {
                MenuItemView { checked: k == id, ..items[k] }
            } else {
                items[k]
            },
        ),
        None => items,
    }
}

/// The menu hidden: nothing selected or hovered.
pub open spec fn hidden(v: ContextMenuView) -> ContextMenuView {
    ContextMenuView { state: MenuState::Hidden, selected: None, hovered: None, ..v }
}

/// The menu after choosing entry `id` and before its callback runs: a radio entry takes the
/// check mark of its group.
pub open spec fn chosen(v: ContextMenuView, id: Seq<char>) -> ContextMenuView {
    if v.items[id].item_type == MenuItemType::Radio {
        ContextMenuView { items: radio_selected(v.items, id), ..v }
    } else {
        v
    }
}


/// Whether an entry identifier names a camera entry.
pub open spec fn is_camera_id(id: Seq<char>) -> bool {
    has_prefix(id, "camera_"@)
}

/// The camera identifiers of a display order, in order.
pub open spec fn camera_ids(order: Seq<Seq<char>>) -> Seq<Seq<char>>
    decreases order.len(),
{
    if order.len() == 0 {
        order
    } else if is_camera_id(order.last()) {
        camera_ids(order.drop_last()).push(order.last())
    } else {
        camera_ids(order.drop_last())
    }
}

/// The menu after removing the entries `ids`, one after the other.
pub open spec fn without_items(v: ContextMenuView, ids: Seq<Seq<char>>) -> ContextMenuView
    decreases ids.len(),
{
    if ids.len() == 0 {
        v
    } else {
        without_item(without_items(v, ids.drop_last()), ids.last())
    }
}

/// Position of the first `x` in `s`, or the length of `s` when there is none.
pub open spec fn first_index(s: Seq<Seq<char>>, x: Seq<char>) -> int
    decreases s.len(),
{
    if s.len() == 0 {
        0
    } else if s[0] == x {
        0
    } else {
        1 + first_index(s.drop_first(), x)
    }
}

/// Where camera entries go in the display order: right after the first "separator_1", or at
/// the end when there is none.
pub open spec fn camera_insert_index(order: Seq<Seq<char>>) -> int {
    if order.contains("separator_1"@) {
        first_index(order, "separator_1"@) + 1
    } else {
        order.len() as int
    }
}

/// Position of the first device with index `idx` in `devices`.
pub open spec fn first_device_pos(devices: Seq<(usize, Seq<char>)>, idx: usize) -> int
    decreases devices.len(),
{
    if devices.len() == 0 {
        0
    } else if devices[0].0 == idx {
        0
    } else {
        1 + first_device_pos(devices.drop_first(), idx)
    }
}

/// The identifier of the camera entry for device `idx`: "camera_" and the index in decimal.
pub open spec fn camera_item_id(idx: usize) -> Seq<char> {
    "camera_"@ + decimal(idx as nat)
}

/// The camera entry for device `idx` named `name`: a radio entry of group "cameras", checked
/// when it is the current device.
pub open spec fn camera_item(idx: usize, name: Seq<char>, current: Option<usize>) -> MenuItemView {
    entry_view(camera_item_id(idx), name, Some("camera"@), true, current == Some(idx), MenuItemType::Radio, Some("cameras"@))
}

/// The menu after adding the camera entries for `devices` one after the other; the entry of
/// the device at position k goes to position `base + first_device_pos(devices[..=k], index)`.
pub open spec fn with_cameras(v: ContextMenuView, base: int, devices: Seq<(usize, Seq<char>)>, current: Option<usize>) -> ContextMenuView
    decreases devices.len(),
{
    if devices.len() == 0 {
        v
    } else {
        let prev = with_cameras(v, base, devices.drop_last(), current);
        with_item_at(prev, base + first_device_pos(devices, devices.last().0), camera_item(devices.last().0, devices.last().1, current))
    }
}

/// The menu after replacing its camera entries by those of `devices`.
pub open spec fn with_camera_devices(v: ContextMenuView, devices: Seq<(usize, Seq<char>)>, current: Option<usize>) -> ContextMenuView {
    let cleared = without_items(v, camera_ids(v.order));
    with_cameras(cleared, camera_insert_index(cleared.order), devices, current)
}

/// The context menu.
pub struct ContextMenu {
    items: Vec<MenuItem>,
    groups: Vec<MenuGroup>,
    display_order: Vec<String>,
    state: MenuState,
    selected_item: Option<String>,
    hovered_item: Option<String>,
    callbacks: Vec<String>,
    screen_width: u32,
    screen_height: u32,
}

/// Entries of the item table, keyed by identifier.
pub open spec fn item_entries(items: Seq<MenuItem>) -> Seq<(Seq<char>, MenuItemView)> {
    items.map_values(|it: MenuItem| (it.id@, it@))
}

/// Entries of the group table, keyed by identifier.
pub open spec fn group_entries(groups: Seq<MenuGroup>) -> Seq<(Seq<char>, MenuGroupView)> {
    groups.map_values(|g: MenuGroup| (g.id@, g@))
}

/// Entries of the callback table, keyed by identifier.
pub open spec fn callback_entries(ids: Seq<String>) -> Seq<(Seq<char>, ())> {
    ids.map_values(|s: String| (s@, ()))
}

impl View for ContextMenu {
    type V = ContextMenuView;

    closed spec fn view(&self) -> ContextMenuView {
        ContextMenuView {
            items: entries_map(item_entries(self.items@)),
            groups: entries_map(group_entries(self.groups@)),
            order: self.display_order.deep_view(),
            state: self.state,
            selected: self.selected_item.deep_view(),
            hovered: self.hovered_item.deep_view(),
            callbacks: entries_map(callback_entries(self.callbacks@)).dom(),
            screen_width: self.screen_width,
            screen_height: self.screen_height,
        }
    }
}

impl ContextMenu {
    /// The internal tables are consistent: identifiers are unique in each table and the
    /// display order lists exactly the entries.
    pub closed spec fn wf(&self) -> bool {
        &&& unique_keys(item_entries(self.items@))
        &&& unique_keys(group_entries(self.groups@))
        &&& unique_keys(callback_entries(self.callbacks@))
        &&& order_matches_items(self@)
    }

    /// A well-formed menu's display order lists exactly its entries.
    pub proof fn lemma_order_matches_items(&self)
        requires
            self.wf(),
        ensures
            order_matches_items(self@),
    {
    }

    /// Position of the entry with identifier `id` in the item table.
    fn find_item(&self, id: &str) -> (r: Option<usize>)
        requires
            unique_keys(item_entries(self.items@)),
        ensures
            r matches Some(i) ==> i < self.items@.len() && self.items@[i as int].id@ == id@
                && self@.items.dom().contains(id@) && self@.items[id@] == self.items@[i as int]@,
            r is None ==> !self@.items.dom().contains(id@),
    {
        let mut i: usize = 0;
        while i < self.items.len()
            invariant
                i <= self.items@.len(),
                unique_keys(item_entries(self.items@)),
                forall|j: int| 0 <= j < i ==> self.items@[j].id@ != id@,
            decreases self.items@.len() - i,
        {
            if str_eq(self.items[i].id.as_str(), id) {
                proof {
                    lemma_entries_index(item_entries(self.items@), i as int);
                }
                return Some(i);
            }
            i = i + 1;
        }
        proof {
            lemma_entries_dom(item_entries(self.items@), id@);
            if self@.items.dom().contains(id@) {
                let j = choose|j: int|
                    0 <= j < item_entries(self.items@).len() && item_entries(self.items@)[j].0
                        == id@;
                assert(self.items@[j].id@ == id@);
            }
        }
        None
    }

    /// Position of the group with identifier `id` in the group table.
    fn find_group(&self, id: &str) -> (r: Option<usize>)
        requires
            unique_keys(group_entries(self.groups@)),
        ensures
            r matches Some(i) ==> i < self.groups@.len() && self.groups@[i as int].id@ == id@
                && self@.groups.dom().contains(id@) && self@.groups[id@] == self.groups@[i as int]@,
            r is None ==> !self@.groups.dom().contains(id@),
    {
        let mut i: usize = 0;
        while i < self.groups.len()
            invariant
                i <= self.groups@.len(),
                unique_keys(group_entries(self.groups@)),
                forall|j: int| 0 <= j < i ==> self.groups@[j].id@ != id@,
            decreases self.groups@.len() - i,
        {
            if str_eq(self.groups[i].id.as_str(), id) {
                proof {
                    lemma_entries_index(group_entries(self.groups@), i as int);
                }
                return Some(i);
            }
            i = i + 1;
        }
        proof {
            lemma_entries_dom(group_entries(self.groups@), id@);
            if self@.groups.dom().contains(id@) {
                let j = choose|j: int|
                    0 <= j < group_entries(self.groups@).len() && group_entries(self.groups@)[j].0
                        == id@;
                assert(self.groups@[j].id@ == id@);
            }
        }
        None
    }

    /// Adds an empty group; a group with the same identifier is replaced.
    pub fn add_group(&mut self, id: &str, title: &str)
        requires
            old(self).wf(),
        ensures
            final(self).wf(),
            final(self)@ == with_group(old(self)@, id@, title@),
    {
        let group = MenuGroup { id: String::from_str(id), title: String::from_str(title), items: Vec::new() };
        let ghost gv = group@;
        assert(gv.items =~= Seq::<Seq<char>>::empty());
        match self.find_group(id) {
            Some(i) => {
                proof {
                    lemma_entries_update(group_entries(self.groups@), i as int, gv);
                }
                self.groups.set(i, group);
                assert(group_entries(self.groups@) =~= group_entries(old(self).groups@).update(
                    i as int,
                    (id@, gv),
                ));
            },
            None => {
                proof {
                    lemma_entries_push(group_entries(self.groups@), id@, gv);
                }
                self.groups.push(group);
                assert(group_entries(self.groups@) =~= group_entries(old(self).groups@).push(
                    (id@, gv),
                ));
            },
        }
        assert(self@.items == old(self)@.items);
        assert(self@.order == old(self)@.order);
        assert(self@ == with_group(old(self)@, id@, title@));
    }

    /// Adds an entry: it is stored under its identifier (replacing an entry with the same
    /// identifier), its identifier is appended to the display order, and it joins its group
    /// when that group exists.
    pub fn add_menu_item(&mut self, item: MenuItem)
        requires
            old(self).wf(),
        ensures
            final(self).wf(),
            final(self)@ == with_item(old(self)@, item@),
    {
        let n = self.display_order.len();
        self.insert_menu_item_at(n, item);
    }

    /// Adds an entry with its identifier at position `pos` of the display order.
    fn insert_menu_item_at(&mut self, pos: usize, item: MenuItem)
        requires
            old(self).wf(),
            pos <= old(self)@.order.len(),
        ensures
            final(self).wf(),
            final(self)@ == with_item_at(old(self)@, pos as int, item@),
    {
        let ghost iv = item@;
        let ghost old_view = self@;
        let item_id = item.id.clone();
        let group_id = clone_opt_string(&item.group_id);
        match self.find_item(item_id.as_str()) {
            Some(i) => {
                proof {
                    lemma_entries_update(item_entries(self.items@), i as int, iv);
                }
                self.items.set(i, item);
                assert(item_entries(self.items@) =~= item_entries(old(self).items@).update(
                    i as int,
                    (iv.id, iv),
                ));
            },
            None => {
                proof {
                    lemma_entries_push(item_entries(self.items@), iv.id, iv);
                }
                self.items.push(item);
                assert(item_entries(self.items@) =~= item_entries(old(self).items@).push(
                    (iv.id, iv),
                ));
            },
        }
        self.display_order.insert(pos, item_id.clone());
        assert(self.display_order.deep_view() =~= old(self).display_order.deep_view().insert(pos as int, iv.id));
        let ghost mid_groups = self.groups@;
        match group_id {
            Some(g) => {
                match self.find_group(g.as_str()) {
                    Some(gi) => {
                        let ghost gv = group_with(old_view.groups[g@], iv.id);
                        proof {
                            lemma_entries_update(group_entries(self.groups@), gi as int, gv);
                        }
                        let mut grp = self.groups.remove(gi);
                        grp.items.push(item_id);
                        assert(grp@.items =~= old_view.groups[g@].items.push(iv.id));
                        assert(grp@ == gv);
                        self.groups.insert(gi, grp);
                        assert(group_entries(self.groups@) =~= group_entries(mid_groups).update(
                            gi as int,
                            (g@, gv),
                        ));
                    },
                    None => {},
                }
            },
            None => {},
        }
        proof {
            let v = self@;
            let w = with_item_at(old_view, pos as int, iv);
            assert(v.items == w.items);
            assert(v.order == w.order);
            assert(v.groups == w.groups);
            assert forall|k: Seq<char>| v.items.dom().contains(k) implies v.order.contains(k) by {
                if k == iv.id {
                    assert(v.order[pos as int] == k);
                } else {
                    assert(old_view.items.dom().contains(k));
                    assert(old_view.order.contains(k));
                    let j = choose|j: int| 0 <= j < old_view.order.len() && old_view.order[j] == k;
                    if j < pos {
                        assert(v.order[j] == k);
                    } else {
                        assert(v.order[j + 1] == k);
                    }
                }
            }
            assert forall|i: int| 0 <= i < v.order.len() implies v.items.dom().contains(
                #[trigger] v.order[i],
            ) by {
                if i < pos {
                    assert(v.order[i] == old_view.order[i]);
                } else if i > pos {
                    assert(v.order[i] == old_view.order[i - 1]);
                }
            }
        }
    }
}

/// An entry built from string slices.
fn make_item(
    id: &str,
    text: &str,
    icon: Option<&str>,
    enabled: bool,
    checked: bool,
    item_type: MenuItemType,
    group_id: Option<&str>,
) -> (r: MenuItem)
    ensures
        r@ == entry_view(id@, text@, opt_chars(icon), enabled, checked, item_type, opt_chars(group_id)),
{
    let icon = match icon {
        Some(s) => Some(String::from_str(s)),
        None => None,
    };
    let group_id = match group_id {
        Some(s) => Some(String::from_str(s)),
        None => None,
    };
    MenuItem { id: String::from_str(id), text: String::from_str(text), icon, enabled, checked, item_type, group_id }
}

impl ContextMenu {
    /// A new menu holding the default entries and groups, hidden, for a screen of the given size.
    pub fn new(screen_width: u32, screen_height: u32) -> (r: Self)
        ensures
            r.wf(),
            r@ == default_menu(screen_width, screen_height),
    {
        let mut menu = ContextMenu {
            items: Vec::new(),
            groups: Vec::new(),
            display_order: Vec::new(),
            state: MenuState::Hidden,
            selected_item: None,
            hovered_item: None,
            callbacks: Vec::new(),
            screen_width,
            screen_height,
        };
        assert(menu@.items =~= Map::empty());
        assert(menu@.groups =~= Map::empty());
        assert(menu@.order =~= Seq::empty());
        assert(menu@.callbacks =~= Set::empty());
        menu.initialize_default_menu();
        menu
    }

    /// Fills an empty menu with the default groups and entries.
    fn initialize_default_menu(&mut self)
        requires
            old(self).wf(),
            old(self)@ == empty_menu(old(self)@.screen_width, old(self)@.screen_height),
        ensures
            final(self).wf(),
            final(self)@ == default_menu(old(self)@.screen_width, old(self)@.screen_height),
    {
        let radio = MenuItemType::Radio;
        let normal = MenuItemType::Normal;
        let sep = MenuItemType::Separator;
        self.add_group("shapes", "形状选择");
        self.add_menu_item(make_item("shape_circle", "圆形", Some("circle"), true, true, radio, Some("shapes")));
        self.add_menu_item(make_item("shape_ellipse", "椭圆形", Some("ellipse"), true, false, radio, Some("shapes")));
        self.add_menu_item(make_item("shape_rectangle", "矩形", Some("rectangle"), true, false, radio, Some("shapes")));
        self.add_menu_item(make_item("shape_rounded_rectangle", "圆角矩形", Some("rounded_rectangle"), true, false, radio, Some("shapes")));
        self.add_menu_item(make_item("shape_heart", "心形", Some("heart"), true, false, radio, Some("shapes")));
        self.add_menu_item(make_item("separator_1", "", None, false, false, sep, None));
        self.add_group("cameras", "摄像头设备");
        self.add_menu_item(make_item("separator_2", "", None, false, false, sep, None));
        self.add_group("window_control", "窗口控制");
        self.add_menu_item(make_item("reset_position", "重置位置", Some("reset_position"), true, false, normal, Some("window_control")));
        self.add_menu_item(make_item("reset_rotation", "重置旋转", Some("reset_rotation"), true, false, normal, Some("window_control")));
        self.add_menu_item(make_item("reset_size", "重置大小", Some("reset_size"), true, false, normal, Some("window_control")));
        self.add_menu_item(make_item("separator_3", "", None, false, false, sep, None));
        self.add_group("status", "状态信息");
        self.add_menu_item(make_item("show_info", "显示信息", Some("info"), true, false, normal, Some("status")));
        proof {
            reveal_strlit("shapes");
            reveal_strlit("cameras");
            reveal_strlit("window_control");
            reveal_strlit("status");
            assert(self@.order =~= default_order());
            assert(self@.items =~= default_items());
            assert(self@.groups["shapes"@].items =~= default_groups()["shapes"@].items);
            assert(self@.groups["cameras"@].items =~= default_groups()["cameras"@].items);
            assert(self@.groups["window_control"@].items =~= default_groups()["window_control"@].items);
            assert(self@.groups["status"@].items =~= default_groups()["status"@].items);
            assert(self@.groups =~= default_groups());
        }
    }
}

/// The strings of `v` other than `x`, in order.
fn remove_all(v: &Vec<String>, x: &str) -> (r: Vec<String>)
    ensures
        r.deep_view() == without(v.deep_view(), x@),
{
    let mut r: Vec<String> = Vec::new();
    let mut i: usize = 0;
    while i < v.len()
        invariant
            i <= v@.len(),
            r.deep_view() == without(v.deep_view().take(i as int), x@),
        decreases v@.len() - i,
    {
        let ghost before = r.deep_view();
        assert(v.deep_view().take(i + 1).drop_last() =~= v.deep_view().take(i as int));
        assert(v.deep_view().take(i + 1).last() == v@[i as int]@);
        if !str_eq(v[i].as_str(), x) {
            r.push(v[i].clone());
            assert(r.deep_view() =~= before.push(v@[i as int]@));
        }
        i = i + 1;
    }
    assert(v.deep_view().take(v@.len() as int) =~= v.deep_view());
    r
}

/// Position of `id` among the strings of `v`.
fn position_of(v: &Vec<String>, id: &str) -> (r: Option<usize>)
    ensures
        r matches Some(i) ==> i < v@.len() && v@[i as int]@ == id@,
        r is None ==> forall|j: int| 0 <= j < v@.len() ==> v@[j]@ != id@,
{
    let mut i: usize = 0;
    while i < v.len()
        invariant
            i <= v@.len(),
            forall|j: int| 0 <= j < i ==> v@[j]@ != id@,
        decreases v@.len() - i,
    {
        if str_eq(v[i].as_str(), id) {
            return Some(i);
        }
        i = i + 1;
    }
    None
}

/// Whether an optional string holds exactly `id`.
fn opt_is(o: &Option<String>, id: &str) -> (r: bool)
    ensures
        r == (o.deep_view() == Some(id@)),
{
    match o {
        Some(s) => str_eq(s.as_str(), id),
        None => false,
    }
}

impl ContextMenu {
    /// Removes the entry `item_id` from the entries, the display order, its group and the
    /// callbacks, and clears the selection and hover that point at it. Nothing changes when
    /// there is no such entry.
    pub fn remove_menu_item(&mut self, item_id: &str)
        requires
            old(self).wf(),
        ensures
            final(self).wf(),
            final(self)@ == without_item(old(self)@, item_id@),
    {
        let ghost old_view = self@;
        match self.find_item(item_id) {
            None => {},
            Some(i) => {
                proof {
                    lemma_entries_remove(item_entries(self.items@), i as int);
                }
                let item = self.items.remove(i);
                assert(item_entries(self.items@) =~= item_entries(old(self).items@).remove(i as int));
                let new_order = remove_all(&self.display_order, item_id);
                self.display_order = new_order;
                let ghost mid_groups = self.groups@;
                match &item.group_id {
                    Some(g) => {
                        match self.find_group(g.as_str()) {
                            Some(gi) => {
                                let ghost gv = MenuGroupView {
                                    items: without(old_view.groups[g@].items, item_id@),
                                    ..old_view.groups[g@]
                                };
                                proof {
                                    lemma_entries_update(group_entries(self.groups@), gi as int, gv);
                                }
                                let grp = self.groups.remove(gi);
                                let kept = remove_all(&grp.items, item_id);
                                let new_grp = MenuGroup { id: grp.id, title: grp.title, items: kept };
                                assert(new_grp@ == gv);
                                self.groups.insert(gi, new_grp);
                                assert(group_entries(self.groups@) =~= group_entries(mid_groups).update(
                                    gi as int,
                                    (g@, gv),
                                ));
                            },
                            None => {},
                        }
                    },
                    None => {},
                }
                match position_of(&self.callbacks, item_id) {
                    Some(ci) => {
                        proof {
                            lemma_entries_remove(callback_entries(self.callbacks@), ci as int);
                        }
                        self.callbacks.remove(ci);
                        assert(callback_entries(self.callbacks@) =~= callback_entries(
                            old(self).callbacks@,
                        ).remove(ci as int));
                        assert(self@.callbacks =~= old_view.callbacks.remove(item_id@));
                    },
                    None => {
                        proof {
                            lemma_entries_dom(callback_entries(self.callbacks@), item_id@);
                        }
                        assert(self@.callbacks =~= old_view.callbacks.remove(item_id@));
                    },
                }
                if opt_is(&self.selected_item, item_id) {
                    self.selected_item = None;
                }
                if opt_is(&self.hovered_item, item_id) {
                    self.hovered_item = None;
                }
                proof {
                    let v = self@;
                    let w = without_item(old_view, item_id@);
                    assert(v.items == w.items);
                    assert(v.order == w.order);
                    assert(v.groups == w.groups);
                    assert(v.callbacks == w.callbacks);
                    lemma_without(old_view.order, item_id@);
                    assert forall|k: Seq<char>| v.items.dom().contains(k) implies v.order.contains(k) by {
                        assert(old_view.items.dom().contains(k));
                        assert(old_view.order.contains(k));
                    }
                }
            },
        }
    }
}

impl ContextMenu {
    /// Registers a callback for entry `item_id`; the callback itself is kept by the caller
    /// and handed to `execute_item`.
    pub fn set_callback(&mut self, item_id: &str)
        requires
            old(self).wf(),
        ensures
            final(self).wf(),
            final(self)@ == (ContextMenuView { callbacks: old(self)@.callbacks.insert(item_id@), ..old(self)@ }),
    {
        match position_of(&self.callbacks, item_id) {
            Some(_) => {
                proof {
                    lemma_entries_dom(callback_entries(self.callbacks@), item_id@);
                    let j = choose|j: int| 0 <= j < self.callbacks@.len() && self.callbacks@[j]@ == item_id@;
                    assert(callback_entries(self.callbacks@)[j].0 == item_id@);
                }
                assert(self@.callbacks =~= old(self)@.callbacks.insert(item_id@));
            },
            None => {
                proof {
                    lemma_entries_dom(callback_entries(self.callbacks@), item_id@);
                    lemma_entries_push(callback_entries(self.callbacks@), item_id@, ());
                }
                self.callbacks.push(String::from_str(item_id));
                assert(callback_entries(self.callbacks@) =~= callback_entries(old(self).callbacks@).push(
                    (item_id@, ()),
                ));
                assert(self@.callbacks =~= old(self)@.callbacks.insert(item_id@));
            },
        }
    }

    /// Shows the menu.
    pub fn show(&mut self)
        requires
            old(self).wf(),
        ensures
            final(self).wf(),
            final(self)@ == (ContextMenuView { state: MenuState::Visible, ..old(self)@ }),
    {
        self.state = MenuState::Visible;
    }

    /// Hides the menu and clears its selection and hover.
    pub fn hide_menu(&mut self)
        requires
            old(self).wf(),
        ensures
            final(self).wf(),
            final(self)@ == hidden(old(self)@),
    {
        self.state = MenuState::Hidden;
        self.selected_item = None;
        self.hovered_item = None;
    }

    /// Sets the entry under the pointer.
    pub fn set_hovered_item(&mut self, item_id: Option<String>)
        requires
            old(self).wf(),
        ensures
            final(self).wf(),
            final(self)@ == (ContextMenuView { hovered: item_id.deep_view(), ..old(self)@ }),
    {
        self.hovered_item = item_id;
    }

    /// The visibility state.
    pub fn state(&self) -> (r: &MenuState)
        ensures
            *r == self@.state,
    {
        &self.state
    }

    /// The entry under the pointer, if any.
    pub fn hovered_item(&self) -> (r: Option<&str>)
        ensures
            r matches Some(s) ==> self@.hovered == Some(s@),
            r is None ==> self@.hovered is None,
    {
        match &self.hovered_item {
            Some(s) => Some(s.as_str()),
            None => None,
        }
    }

    /// Records a new screen size.
    pub fn update_screen_size(&mut self, screen_width: u32, screen_height: u32)
        requires
            old(self).wf(),
        ensures
            final(self).wf(),
            final(self)@ == (ContextMenuView { screen_width, screen_height, ..old(self)@ }),
    {
        self.screen_width = screen_width;
        self.screen_height = screen_height;
    }

    /// Number of entries.
    pub fn item_count(&self) -> (r: usize)
        requires
            self.wf(),
        ensures
            r == self@.items.dom().len(),
    {
        proof {
            lemma_entries_card(item_entries(self.items@));
        }
        self.items.len()
    }

    /// Number of groups.
    pub fn group_count(&self) -> (r: usize)
        requires
            self.wf(),
        ensures
            r == self@.groups.dom().len(),
    {
        proof {
            lemma_entries_card(group_entries(self.groups@));
        }
        self.groups.len()
    }

    /// The entry `item_id`, if there is one.
    pub fn get_item(&self, item_id: &str) -> (r: Option<&MenuItem>)
        requires
            self.wf(),
        ensures
            r matches Some(it) ==> self@.items.dom().contains(item_id@) && it@ == self@.items[item_id@],
            r is None ==> !self@.items.dom().contains(item_id@),
    {
        match self.find_item(item_id) {
            Some(i) => Some(&self.items[i]),
            None => None,
        }
    }

    /// Whether the menu has an entry `item_id`.
    pub fn contains_item(&self, item_id: &str) -> (r: bool)
        requires
            self.wf(),
        ensures
            r == self@.items.dom().contains(item_id@),
    {
        self.find_item(item_id).is_some()
    }

    /// The entries in display order.
    pub fn get_display_items(&self) -> (r: Vec<&MenuItem>)
        requires
            self.wf(),
        ensures
            r@.len() == self@.order.len(),
            forall|i: int| 0 <= i < r@.len() ==> #[trigger] r@[i]@ == self@.items[self@.order[i]],
    {
        let mut r: Vec<&MenuItem> = Vec::new();
        let mut i: usize = 0;
        while i < self.display_order.len()
            invariant
                self.wf(),
                i <= self.display_order@.len(),
                r@.len() == i,
                forall|j: int| 0 <= j < i ==> #[trigger] r@[j]@ == self@.items[self@.order[j]],
            decreases self.display_order@.len() - i,
        {
            assert(self@.order[i as int] == self.display_order@[i as int]@);
            assert(self@.items.dom().contains(self@.order[i as int]));
            match self.find_item(self.display_order[i].as_str()) {
                Some(k) => {
                    r.push(&self.items[k]);
                },
                None => {
                    assert(false);
                },
            }
            i = i + 1;
        }
        r
    }

    /// The identifier of the entry at position `index` of the display order when it can be
    /// chosen: it exists, is not a separator and is enabled.
    pub fn selectable_item_at(&self, index: usize) -> (r: Option<&str>)
        requires
            self.wf(),
        ensures
            r matches Some(id) ==> index < self@.order.len() && id@ == self@.order[index as int]
                && self@.items[id@].item_type != MenuItemType::Separator && self@.items[id@].enabled,
            r is None ==> index >= self@.order.len() || self@.items[self@.order[index as int]].item_type
                == MenuItemType::Separator || !self@.items[self@.order[index as int]].enabled,
    {
        if index >= self.display_order.len() {
            return None;
        }
        let id = self.display_order[index].as_str();
        assert(self@.items.dom().contains(self@.order[index as int]));
        match self.find_item(id) {
            Some(k) => {
                let it = &self.items[k];
                if it.item_type != MenuItemType::Separator && it.enabled {
                    Some(id)
                } else {
                    None
                }
            },
            None => None,
        }
    }

    /// Replaces the displayed text of entry `item_id`; nothing changes when there is no such
    /// entry.
    pub fn set_item_text(&mut self, item_id: &str, text: String)
        requires
            old(self).wf(),
        ensures
            final(self).wf(),
            old(self)@.items.dom().contains(item_id@) ==> final(self)@ == (ContextMenuView {
                items: old(self)@.items.insert(
                    item_id@,
                    MenuItemView { text: text@, ..old(self)@.items[item_id@] },
                ),
                ..old(self)@
            }),
            !old(self)@.items.dom().contains(item_id@) ==> final(self)@ == old(self)@,
    {
        let k = match self.find_item(item_id) {
            Some(k) => k,
            None => {
                return;
            },
        };
        let ghost old_entries = item_entries(self.items@);
        let ghost old_items = self@.items;
        let mut it = self.items[k].duplicate();
        it.text = text;
        let ghost nv = it@;
        proof {
            lemma_entries_index(old_entries, k as int);
            lemma_entries_update(old_entries, k as int, nv);
        }
        self.items.set(k, it);
        proof {
            assert(item_entries(self.items@) =~= old_entries.update(k as int, (old_entries[k as int].0, nv)));
            assert(self@.items =~= old_items.insert(item_id@, nv));
            assert forall|i: int| 0 <= i < self@.order.len() implies self@.items.dom().contains(
                #[trigger] self@.order[i],
            ) by {
                assert(old_items.dom().contains(self@.order[i]));
            }
            assert forall|key: Seq<char>| self@.items.dom().contains(key) implies self@.order.contains(key) by {
                if key != item_id@ {
                    assert(old_items.dom().contains(key));
                }
            }
        }
    }

    /// Gives radio entry `item_id` the check mark of its group.
    fn handle_radio_selection(&mut self, item_id: &str)
        requires
            old(self).wf(),
            old(self)@.items.dom().contains(item_id@),
        ensures
            final(self).wf(),
            final(self)@ == (ContextMenuView { items: radio_selected(old(self)@.items, item_id@), ..old(self)@ }),
    {
        let ghost old_items = self@.items;
        let k = match self.find_item(item_id) {
            Some(k) => k,
            None => {
                return;
            },
        };
        let group = clone_opt_string(&self.items[k].group_id);
        match group {
            None => {},
            Some(g) => {
                let mut new_items: Vec<MenuItem> = Vec::new();
                let mut j: usize = 0;
                while j < self.items.len()
                    invariant
                        self.wf(),
                        self@.items == old_items,
                        old_items[item_id@].group_id == Some(g@),
                        j <= self.items@.len(),
                        new_items@.len() == j,
                        forall|m: int| 0 <= m < j ==> (#[trigger] new_items@[m])@ == (if is_radio_of(
                            old_items,
                            self.items@[m].id@,
                            g@,
                        ) {
                            MenuItemView { checked: self.items@[m].id@ == item_id@, ..self.items@[m]@ }
                        } else {
                            self.items@[m]@
                        }),
                    decreases self.items@.len() - j,
                {
                    proof {
                        lemma_entries_index(item_entries(self.items@), j as int);
                    }
                    let mut it = self.items[j].duplicate();
                    if it.item_type == MenuItemType::Radio && opt_is(&it.group_id, g.as_str()) {
                        it.checked = str_eq(it.id.as_str(), item_id);
                    }
                    new_items.push(it);
                    j = j + 1;
                }
                let ghost old_entries = item_entries(self.items@);
                let ghost new_entries = item_entries(new_items@);
                assert forall|a: int| 0 <= a < new_entries.len() implies #[trigger] new_entries[a].0
                    == old_entries[a].0 by {}
                assert(unique_keys(new_entries)) by {
                    assert forall|a: int, b: int|
                        0 <= a < new_entries.len() && 0 <= b < new_entries.len() && a != b implies new_entries[a].0
                        != new_entries[b].0 by {
                        assert(new_entries[a].0 == old_entries[a].0);
                        assert(new_entries[b].0 == old_entries[b].0);
                    }
                }
                self.items = new_items;
                proof {
                    let target = radio_selected(old_items, item_id@);
                    let got = entries_map(new_entries);
                    assert forall|key: Seq<char>| #![auto] got.dom().contains(key) <==> target.dom().contains(key) by {
                        lemma_entries_dom(new_entries, key);
                        lemma_entries_dom(old_entries, key);
                        if got.dom().contains(key) {
                            let a = choose|a: int| 0 <= a < new_entries.len() && new_entries[a].0 == key;
                            assert(old_entries[a].0 == key);
                        }
                        if target.dom().contains(key) {
                            let a = choose|a: int| 0 <= a < old_entries.len() && old_entries[a].0 == key;
                            assert(new_entries[a].0 == key);
                        }
                    }
                    assert forall|key: Seq<char>| #![auto] got.dom().contains(key) implies got[key] == target[key] by {
                        lemma_entries_dom(new_entries, key);
                        let a = choose|a: int| 0 <= a < new_entries.len() && new_entries[a].0 == key;
                        lemma_entries_index(new_entries, a);
                        lemma_entries_index(old_entries, a);
                    }
                    assert(got =~= target);
                    assert forall|i: int| 0 <= i < self@.order.len() implies self@.items.dom().contains(
                        #[trigger] self@.order[i],
                    ) by {
                        assert(old_items.dom().contains(self@.order[i]));
                    }
                    assert forall|key: Seq<char>| self@.items.dom().contains(key) implies self@.order.contains(key) by {
                        assert(old_items.dom().contains(key));
                    }
                }
            },
        }
    }

    /// Runs entry `item_id`: an unknown or disabled entry gives an error and changes nothing;
    /// otherwise a radio entry takes its group's check mark, then the registered callback (the
    /// call of `run_callback`) runs when there is one, and the menu hides unless it failed.
    pub fn execute_item<F: FnOnce() -> Result<(), String>>(&mut self, item_id: &str, run_callback: F) -> (r: Result<(), String>)
        requires
            old(self).wf(),
            run_callback.requires(()),
        ensures
            final(self).wf(),
            !old(self)@.items.dom().contains(item_id@) ==> final(self)@ == old(self)@ && (r matches Err(e)
                && e@ == "菜单项 "@ + item_id@ + " 不存在"@),
            old(self)@.items.dom().contains(item_id@) && !old(self)@.items[item_id@].enabled ==> final(self)@
                == old(self)@ && (r matches Err(e) && e@ == "菜单项 "@ + item_id@ + " 已禁用"@),
            old(self)@.items.dom().contains(item_id@) && old(self)@.items[item_id@].enabled
                && old(self)@.callbacks.contains(item_id@) ==> call_ensures(run_callback, (), r)
                && (r is Ok ==> final(self)@ == hidden(chosen(old(self)@, item_id@)))
                && (r is Err ==> final(self)@ == chosen(old(self)@, item_id@)),
            old(self)@.items.dom().contains(item_id@) && old(self)@.items[item_id@].enabled
                && !old(self)@.callbacks.contains(item_id@) ==> r is Ok && final(self)@ == hidden(
                chosen(old(self)@, item_id@),
            ),
    {
        let k = match self.find_item(item_id) {
            Some(k) => k,
            None => {
                let mut msg = concat_str("菜单项 ", item_id);
                msg.append(" 不存在");
                return Err(msg);
            },
        };
        if !self.items[k].enabled {
            let mut msg = concat_str("菜单项 ", item_id);
            msg.append(" 已禁用");
            return Err(msg);
        }
        if self.items[k].item_type == MenuItemType::Radio {
            self.handle_radio_selection(item_id);
        }
        let ghost mid = self@;
        assert(mid == chosen(old(self)@, item_id@));
        let pos = position_of(&self.callbacks, item_id);
        let has_callback = pos.is_some();
        proof {
            lemma_entries_dom(callback_entries(self.callbacks@), item_id@);
            if self@.callbacks.contains(item_id@) {
                let j = choose|j: int| 0 <= j < callback_entries(self.callbacks@).len()
                    && callback_entries(self.callbacks@)[j].0 == item_id@;
                assert(self.callbacks@[j]@ == item_id@);
            }
            match pos {
                Some(i) => {
                    assert(callback_entries(self.callbacks@)[i as int].0 == item_id@);
                },
                None => {},
            }
            assert(has_callback == old(self)@.callbacks.contains(item_id@));
        }
        if has_callback {
            let result = run_callback();
            if result.is_ok() {
                self.hide_menu();
            }
            result
        } else {
            self.hide_menu();
            Ok(())
        }
    }
}

/// The devices as values.
pub open spec fn devices_view(devices: &[(usize, String)]) -> Seq<(usize, Seq<char>)> {
    devices@.map_values(|d: (usize, String)| (d.0, d.1@))
}

/// The camera identifiers among `order`, in order.
fn collect_camera_ids(order: &Vec<String>) -> (r: Vec<String>)
    ensures
        r.deep_view() == camera_ids(order.deep_view()),
{
    let mut r: Vec<String> = Vec::new();
    let mut i: usize = 0;
    while i < order.len()
        invariant
            i <= order@.len(),
            r.deep_view() == camera_ids(order.deep_view().take(i as int)),
        decreases order@.len() - i,
    {
        let ghost before = r.deep_view();
        assert(order.deep_view().take(i + 1).drop_last() =~= order.deep_view().take(i as int));
        assert(order.deep_view().take(i + 1).last() == order@[i as int]@);
        if str_starts_with(order[i].as_str(), "camera_") {
            r.push(order[i].clone());
            assert(r.deep_view() =~= before.push(order@[i as int]@));
        }
        i = i + 1;
    }
    assert(order.deep_view().take(order@.len() as int) =~= order.deep_view());
    r
}

/// Position of the first device with index `idx`.
fn first_device_position(devices: &[(usize, String)], idx: usize) -> (r: usize)
    ensures
        r as int == first_device_pos(devices_view(devices), idx),
        r <= devices@.len(),
        r < devices@.len() ==> devices@[r as int].0 == idx,
{
    let mut i: usize = 0;
    assert(devices_view(devices).skip(0) =~= devices_view(devices));
    while i < devices.len()
        invariant
            i <= devices@.len(),
            forall|j: int| 0 <= j < i ==> devices@[j].0 != idx,
            first_device_pos(devices_view(devices), idx) == i + first_device_pos(devices_view(devices).skip(i as int), idx),
        decreases devices@.len() - i,
    {
        assert(devices_view(devices).skip(i as int)[0].0 == devices@[i as int].0);
        if devices[i].0 == idx {
            return i;
        }
        assert(devices_view(devices).skip(i as int).drop_first() =~= devices_view(devices).skip(i + 1));
        i = i + 1;
    }
    i
}

/// Where the first device with index `idx` stands, as the specification counts it.
proof fn lemma_first_device_pos(devices: Seq<(usize, Seq<char>)>, k: int)
    requires
        0 <= k < devices.len(),
    ensures
        first_device_pos(devices, devices[k].0) <= k,
        first_device_pos(devices.take(k + 1), devices[k].0) == first_device_pos(devices, devices[k].0),
    decreases k,
{
    if devices[0].0 != devices[k].0 {
        lemma_first_device_pos(devices.drop_first(), k - 1);
        assert(devices.take(k + 1).drop_first() =~= devices.drop_first().take(k));
    }
}

/// Position of the first "separator_1" in the display order, plus one; the length when absent.
fn camera_insert_position(order: &Vec<String>) -> (r: usize)
    ensures
        r as int == camera_insert_index(order.deep_view()),
        r <= order@.len(),
{
    let ghost s = order.deep_view();
    let mut i: usize = 0;
    assert(s.skip(0) =~= s);
    while i < order.len()
        invariant
            s == order.deep_view(),
            i <= order@.len(),
            forall|j: int| 0 <= j < i ==> s[j] != "separator_1"@,
            first_index(s, "separator_1"@) == i + first_index(s.skip(i as int), "separator_1"@),
        decreases order@.len() - i,
    {
        assert(s.skip(i as int)[0] == order@[i as int]@);
        if str_eq(order[i].as_str(), "separator_1") {
            assert(s.contains("separator_1"@)) by {
                assert(s[i as int] == "separator_1"@);
            }
            return i + 1;
        }
        assert(s.skip(i as int).drop_first() =~= s.skip(i + 1));
        i = i + 1;
    }
    assert(!s.contains("separator_1"@));
    order.len()
}

impl ContextMenu {
    /// Replaces the camera entries: every entry whose identifier starts with "camera_" is
    /// removed, then each device gets a radio entry "camera_<index>" of group "cameras",
    /// checked when it is `current_device`, placed after "separator_1" in device order.
    pub fn update_camera_devices(&mut self, devices: &[(usize, String)], current_device: Option<usize>)
        requires
            old(self).wf(),
        ensures
            final(self).wf(),
            final(self)@ == with_camera_devices(old(self)@, devices_view(devices), current_device),
    {
        let ghost v0 = self@;
        let ids = collect_camera_ids(&self.display_order);
        let ghost cam = ids.deep_view();
        let mut i: usize = 0;
        while i < ids.len()
            invariant
                self.wf(),
                i <= ids@.len(),
                cam == ids.deep_view(),
                cam == camera_ids(v0.order),
                self@ == without_items(v0, cam.take(i as int)),
            decreases ids@.len() - i,
        {
            assert(cam.take(i + 1).drop_last() =~= cam.take(i as int));
            assert(cam.take(i + 1).last() == ids@[i as int]@);
            self.remove_menu_item(ids[i].as_str());
            i = i + 1;
        }
        assert(cam.take(ids@.len() as int) =~= cam);
        let ghost cleared = self@;
        let insert_index = camera_insert_position(&self.display_order);
        let ghost dv = devices_view(devices);
        let mut k: usize = 0;
        while k < devices.len()
            invariant
                self.wf(),
                k <= devices@.len(),
                dv == devices_view(devices),
                insert_index as int == camera_insert_index(cleared.order),
                insert_index <= cleared.order.len(),
                self@.order.len() == cleared.order.len() + k,
                self@ == with_cameras(cleared, insert_index as int, dv.take(k as int), current_device),
            decreases devices@.len() - k,
        {
            let idx = devices[k].0;
            let mut id = String::from_str("camera_");
            append_decimal(&mut id, idx as u64);
            let item = MenuItem {
                id,
                text: devices[k].1.clone(),
                icon: Some(String::from_str("camera")),
                enabled: true,
                checked: match current_device {
                    Some(c) => c == idx,
                    None => false,
                },
                item_type: MenuItemType::Radio,
                group_id: Some(String::from_str("cameras")),
            };
            assert(item@ == camera_item(dv[k as int].0, dv[k as int].1, current_device));
            let pos = first_device_position(devices, idx);
            let n = self.display_order.len();
            proof {
                lemma_first_device_pos(dv, k as int);
                assert(dv.take(k + 1).drop_last() =~= dv.take(k as int));
                assert(dv.take(k + 1).last() == dv[k as int]);
                assert(self.display_order@.len() == self@.order.len());
                assert(insert_index + pos <= n);
            }
            self.insert_menu_item_at(insert_index + pos, item);
            k = k + 1;
        }
        assert(dv.take(devices@.len() as int) =~= dv);
    }
}


/// Taking `x` out of a sequence that does not hold it changes nothing.
pub proof fn lemma_without_absent(s: Seq<Seq<char>>, x: Seq<char>)
    requires
        !s.contains(x),
    ensures
        without(s, x) == s,
    decreases s.len(),
{
    if s.len() > 0 {
        assert(!s.drop_last().contains(x)) by {
            if s.drop_last().contains(x) {
                let j = choose|j: int| 0 <= j < s.drop_last().len() && s.drop_last()[j] == x;
                assert(s[j] == x);
            }
        }
        lemma_without_absent(s.drop_last(), x);
        assert(s[s.len() - 1] == s.last());
        assert(s.last() != x);
        assert(s.drop_last().push(s.last()) =~= s);
    }
}

/// Choosing a radio entry leaves exactly that entry checked among the radio entries of its
/// group, and changes no other entry and no other field.
pub proof fn lemma_radio_exclusive(items: Map<Seq<char>, MenuItemView>, id: Seq<char>, g: Seq<char>)
    requires
        items.dom().contains(id),
        items[id].group_id == Some(g),
        items[id].item_type == MenuItemType::Radio,
    ensures
        radio_selected(items, id).dom() == items.dom(),
        radio_selected(items, id)[id].checked,
        forall|k: Seq<char>|
            #![trigger radio_selected(items, id)[k]]
            items.dom().contains(k) && is_radio_of(items, k, g) && k != id
                ==> !radio_selected(items, id)[k].checked,
        forall|k: Seq<char>|
            #![trigger radio_selected(items, id)[k]]
            items.dom().contains(k) ==> radio_selected(items, id)[k] == (MenuItemView {
                checked: radio_selected(items, id)[k].checked,
                ..items[k]
            }),
        forall|k: Seq<char>|
            #![trigger radio_selected(items, id)[k]]
            items.dom().contains(k) && !is_radio_of(items, k, g) ==> radio_selected(items, id)[k]
                == items[k],
{
    assert(radio_selected(items, id).dom() =~= items.dom());
}

/// Adding a fresh entry and then removing it gives back the menu one started from. The
/// entry is fresh when nothing in the menu names it: no entry, display position, callback,
/// selection, hover or group membership.
pub proof fn lemma_add_then_remove(v: ContextMenuView, it: MenuItemView)
    requires
        !v.items.dom().contains(it.id),
        !v.order.contains(it.id),
        !v.callbacks.contains(it.id),
        v.selected != Some(it.id),
        v.hovered != Some(it.id),
        forall|g: Seq<char>|
            it.group_id == Some(g) && v.groups.dom().contains(g) ==> !v.groups[g].items.contains(
                it.id,
            ),
    ensures
        without_item(with_item(v, it), it.id) == v,
{
    let w = with_item(v, it);
    let id = it.id;
    assert(w.items.dom().contains(id));
    assert(w.items[id] == it);
    assert(v.order.insert(v.order.len() as int, id) =~= v.order.push(id));
    assert(without(v.order.push(id), id) == without(v.order, id)) by {
        assert(v.order.push(id).drop_last() =~= v.order);
    }
    lemma_without_absent(v.order, id);
    let r = without_item(w, id);
    assert(r.items =~= v.items);
    assert(r.order =~= v.order);
    assert(r.callbacks =~= v.callbacks);
    match it.group_id {
        Some(g) => {
            if v.groups.dom().contains(g) {
                let gv = v.groups[g];
                assert(gv.items.push(id).drop_last() =~= gv.items);
                lemma_without_absent(gv.items, id);
                assert(without(gv.items.push(id), id) == gv.items);
                assert(r.groups =~= v.groups);
            } else {
                assert(r.groups =~= v.groups);
            }
        },
        None => {
            assert(r.groups =~= v.groups);
        },
    }
}

/// Hiding the menu leaves it hidden with nothing selected or hovered and its entries as they
/// were; hiding it twice is the same as hiding it once.
pub proof fn lemma_hide_clears_pointer_state(v: ContextMenuView)
    ensures
        hidden(v).state == MenuState::Hidden,
        hidden(v).selected is None,
        hidden(v).hovered is None,
        hidden(v).items == v.items,
        hidden(v).order == v.order,
        hidden(hidden(v)) == hidden(v),
{
}

/// Devices with different indices get different entry identifiers.
pub proof fn lemma_camera_ids_distinct(a: usize, b: usize)
    requires
        a != b,
    ensures
        camera_item_id(a) != camera_item_id(b),
{
    if camera_item_id(a) == camera_item_id(b) {
        let p = "camera_"@;
        assert(camera_item_id(a).skip(p.len() as int) =~= decimal(a as nat));
        assert(camera_item_id(b).skip(p.len() as int) =~= decimal(b as nat));
        lemma_decimal_injective(a as nat, b as nat);
    }
}

/// After the camera entries of `devices` are added, every device has its entry: a radio
/// entry of the "cameras" group under "camera_" and its index, named after the device and
/// checked exactly when it is the current device. Device indices are taken to be distinct.
pub proof fn lemma_camera_entries(
    v: ContextMenuView,
    base: int,
    devices: Seq<(usize, Seq<char>)>,
    current: Option<usize>,
)
    requires
        forall|a: int, b: int|
            0 <= a < devices.len() && 0 <= b < devices.len() && a != b ==> devices[a].0
                != devices[b].0,
    ensures
        forall|k: int|
            #![trigger devices[k]]
            0 <= k < devices.len() ==> with_cameras(v, base, devices, current).items.dom().contains(
                camera_item_id(devices[k].0),
            ) && with_cameras(v, base, devices, current).items[camera_item_id(devices[k].0)]
                == camera_item(devices[k].0, devices[k].1, current),
    decreases devices.len(),
{
    if devices.len() > 0 {
        let d = devices.drop_last();
        assert forall|a: int, b: int|
            0 <= a < d.len() && 0 <= b < d.len() && a != b implies d[a].0 != d[b].0 by {
            assert(d[a] == devices[a] && d[b] == devices[b]);
        }
        lemma_camera_entries(v, base, d, current);
        let prev = with_cameras(v, base, d, current);
        let last = devices.last();
        let it = camera_item(last.0, last.1, current);
        let r = with_cameras(v, base, devices, current);
        assert(r.items == prev.items.insert(it.id, it));
        assert(it.id == camera_item_id(last.0));
        assert forall|k: int|
            #![trigger devices[k]]
            0 <= k < devices.len() implies r.items.dom().contains(camera_item_id(devices[k].0))
                && r.items[camera_item_id(devices[k].0)] == camera_item(devices[k].0, devices[k].1, current) by {
            if k < devices.len() - 1 {
                assert(d[k] == devices[k]);
                assert(devices[k].0 != devices[devices.len() - 1].0);
                lemma_camera_ids_distinct(devices[k].0, last.0);
            } else {
                assert(devices[k] == last);
            }
        }
    }
}

/// After the camera device list is updated, every listed device has its entry "camera_" and
/// its index: named after the device, enabled (so choosing it is not refused), a radio entry
/// of the "cameras" group, and checked exactly when it is the current device.
pub proof fn lemma_camera_update(v: ContextMenuView, devices: Seq<(usize, Seq<char>)>, current: Option<usize>)
    requires
        forall|a: int, b: int|
            0 <= a < devices.len() && 0 <= b < devices.len() && a != b ==> devices[a].0
                != devices[b].0,
    ensures
        forall|k: int|
            #![trigger devices[k]]
            0 <= k < devices.len() ==> {
                let m = with_camera_devices(v, devices, current);
                let id = camera_item_id(devices[k].0);
                &&& m.items.dom().contains(id)
                &&& m.items[id].id == id
                &&& m.items[id].checked == (current == Some(devices[k].0))
                &&& m.items[id].text == devices[k].1
                &&& m.items[id].enabled
                &&& m.items[id].item_type == MenuItemType::Radio
                &&& m.items[id].group_id == Some("cameras"@)
            },
{
    let cleared = without_items(v, camera_ids(v.order));
    lemma_camera_entries(cleared, camera_insert_index(cleared.order), devices, current);
}

} // verus!
