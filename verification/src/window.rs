use vstd::prelude::*;

verus! {

/// Smallest width or height, in physical pixels, that the camera window accepts.
pub const MIN_WINDOW_SIDE: u32 = 100;

/// Whether a requested window size is large enough to be applied.
pub fn is_valid_size(width: u32, height: u32) -> (r: bool)
    ensures
        r == (width >= MIN_WINDOW_SIDE && height >= MIN_WINDOW_SIDE),
{
    width >= MIN_WINDOW_SIDE && height >= MIN_WINDOW_SIDE
}


/// Largest width or height a window may take on a screen side of `screen_side` pixels:
/// 80 % of it, rounded down.
pub open spec fn max_side(screen_side: u32) -> int {
    screen_side * 4 / 5
}

/// Whether a screen leaves room for the smallest window: 80 % of each side reaches
/// [`MIN_WINDOW_SIDE`].
pub open spec fn screen_fits_window(screen: (u32, u32)) -> bool {
    max_side(screen.0) >= MIN_WINDOW_SIDE && max_side(screen.1) >= MIN_WINDOW_SIDE
}

/// Whether a window size lies between the smallest size and 80 % of the screen.
pub open spec fn within_bounds(size: (u32, u32), screen: (u32, u32)) -> bool {
    &&& MIN_WINDOW_SIDE <= size.0 <= max_side(screen.0)
    &&& MIN_WINDOW_SIDE <= size.1 <= max_side(screen.1)
}

/// The size a window takes after asking for `requested` on `screen`: a request below the
/// smallest size is ignored and the window keeps `current`; any other request is cut down,
/// side by side, to 80 % of the screen.
pub open spec fn resize_rule(current: (u32, u32), requested: (u32, u32), screen: (u32, u32)) -> (
    u32,
    u32,
) {
    if requested.0 >= MIN_WINDOW_SIDE && requested.1 >= MIN_WINDOW_SIDE {
        (
            if requested.0 > max_side(screen.0) {
                max_side(screen.0) as u32
            } else {
                requested.0
            },
            if requested.1 > max_side(screen.1) {
                max_side(screen.1) as u32
            } else {
                requested.1
            },
        )
    } else {
        current
    }
}

/// The largest window size on `screen`: 80 % of each side, rounded down.
pub fn max_window_size(screen: (u32, u32)) -> (r: (u32, u32))
    ensures
        r.0 == max_side(screen.0),
        r.1 == max_side(screen.1),
{
    let w: u64 = screen.0 as u64 * 4 / 5;
    let h: u64 = screen.1 as u64 * 4 / 5;
    (w as u32, h as u32)
}

/// The size after a resize request on `screen` (see [`resize_rule`]).
pub fn resized(current: (u32, u32), requested: (u32, u32), screen: (u32, u32)) -> (r: (u32, u32))
    requires
        screen_fits_window(screen),
    ensures
        r == resize_rule(current, requested, screen),
        is_valid_size_spec(requested) ==> within_bounds(r, screen),
        !is_valid_size_spec(requested) ==> r == current,
{
    if is_valid_size(requested.0, requested.1) {
        let max = max_window_size(screen);
        constrain_size(requested, max.0, max.1)
    } else {
        current
    }
}

/// Whether a size reaches the smallest window side on both axes.
pub open spec fn is_valid_size_spec(size: (u32, u32)) -> bool {
    size.0 >= MIN_WINDOW_SIDE && size.1 >= MIN_WINDOW_SIDE
}

/// Whatever is asked for, a window that lies within its bounds on a screen stays within
/// them after the request.
pub proof fn lemma_resize_stays_within_bounds(
    current: (u32, u32),
    requested: (u32, u32),
    screen: (u32, u32),
)
    requires
        screen_fits_window(screen),
        within_bounds(current, screen),
    ensures
        within_bounds(resize_rule(current, requested, screen), screen),
{
}

/// Asking twice for the same size gives what asking once gave.
pub proof fn lemma_resize_idempotent(current: (u32, u32), requested: (u32, u32), screen: (u32, u32))
    requires
        screen_fits_window(screen),
    ensures
        resize_rule(resize_rule(current, requested, screen), requested, screen) == resize_rule(
            current,
            requested,
            screen,
        ),
{
}

/// A window side clamped into [100, `max`].
pub fn constrain_side(v: u32, max: u32) -> (r: u32)
    requires
        max >= MIN_WINDOW_SIDE,
    ensures
        r == (if v < MIN_WINDOW_SIDE {
            MIN_WINDOW_SIDE
        } else if v > max {
            max
        } else {
            v
        }),
{
    if v < MIN_WINDOW_SIDE {
        MIN_WINDOW_SIDE
    } else if v > max {
        max
    } else {
        v
    }
}

/// A window size clamped side by side into [100, `max_width`] × [100, `max_height`].
pub fn constrain_size(size: (u32, u32), max_width: u32, max_height: u32) -> (r: (u32, u32))
    requires
        max_width >= MIN_WINDOW_SIDE,
        max_height >= MIN_WINDOW_SIDE,
    ensures
        MIN_WINDOW_SIDE <= r.0 <= max_width,
        MIN_WINDOW_SIDE <= r.1 <= max_height,
        MIN_WINDOW_SIDE <= size.0 <= max_width ==> r.0 == size.0,
        MIN_WINDOW_SIDE <= size.1 <= max_height ==> r.1 == size.1,
        size.0 < MIN_WINDOW_SIDE ==> r.0 == MIN_WINDOW_SIDE,
        size.1 < MIN_WINDOW_SIDE ==> r.1 == MIN_WINDOW_SIDE,
        size.0 > max_width ==> r.0 == max_width,
        size.1 > max_height ==> r.1 == max_height,
{
    (constrain_side(size.0, max_width), constrain_side(size.1, max_height))
}

} // verus!
