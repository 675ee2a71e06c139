//! The mask shapes the window can take, their names and the order in which they cycle.

use vstd::prelude::*;
use crate::text::str_eq;
use crate::config::manager::known_shape_name;

verus! {

/// The outline the camera picture is cut to.
#[derive(Debug, Clone, Copy, PartialEq, Eq, Structural)]
pub enum ShapeKind {
    Circle,
    Ellipse,
    Rectangle,
    RoundedRectangle,
    Heart,
}

/// The corner radius, in pixels, that a rounded rectangle gets when it is chosen.
pub const DEFAULT_CORNER_RADIUS: u32 = 20;

/// The position of a shape in the cycle Circle, Ellipse, Rectangle, RoundedRectangle, Heart.
pub open spec fn shape_position(k: ShapeKind) -> nat {
    match k {
        ShapeKind::Circle => 0,
        ShapeKind::Ellipse => 1,
        ShapeKind::Rectangle => 2,
        ShapeKind::RoundedRectangle => 3,
        ShapeKind::Heart => 4,
    }
}

/// The shape at a position of the cycle (taken modulo five).
pub open spec fn shape_at(p: nat) -> ShapeKind {
    let q = p % 5;
    if q == 0 {
        ShapeKind::Circle
    } else if q == 1 {
        ShapeKind::Ellipse
    } else if q == 2 {
        ShapeKind::Rectangle
    } else if q == 3 {
        ShapeKind::RoundedRectangle
    } else {
        ShapeKind::Heart
    }
}

/// The shape that follows `k` in the cycle.
pub open spec fn following_shape(k: ShapeKind) -> ShapeKind {
    shape_at(shape_position(k) + 1)
}

/// `n` steps along the cycle from `k`.
pub open spec fn shape_after(k: ShapeKind, n: nat) -> ShapeKind
    decreases n,
{
    if n == 0 {
        k
    } else {
        following_shape(shape_after(k, (n - 1) as nat))
    }
}

/// The shape that the space key switches to.
pub fn next_shape(k: ShapeKind) -> (r: ShapeKind)
    ensures
        r == following_shape(k),
{
    match k {
        ShapeKind::Circle => ShapeKind::Ellipse,
        ShapeKind::Ellipse => ShapeKind::Rectangle,
        ShapeKind::Rectangle => ShapeKind::RoundedRectangle,
        ShapeKind::RoundedRectangle => ShapeKind::Heart,
        ShapeKind::Heart => ShapeKind::Circle,
    }
}

/// Stepping `n` times from `k` reaches the shape `n` places further along the cycle.
pub proof fn lemma_shape_after(k: ShapeKind, n: nat)
    ensures
        shape_after(k, n) == shape_at(shape_position(k) + n),
    decreases n,
{
    if n > 0 {
        lemma_shape_after(k, (n - 1) as nat);
        let p = shape_position(k) + (n - 1);
        assert(shape_position(shape_at(p as nat)) == p % 5);
        assert((p % 5 + 1) % 5 == (p + 1) % 5);
    }
}

/// Pressing the space key five times brings back the shape one started from, and no
/// smaller number of presses does.
pub proof fn lemma_cycle_period(k: ShapeKind, n: nat)
    requires
        0 < n < 5,
    ensures
        shape_after(k, 5) == k,
        shape_after(k, n) != k,
{
    lemma_shape_after(k, 5);
    lemma_shape_after(k, n);
}

/// The name under which a shape is saved in the configuration file.
pub open spec fn shape_name_of(k: ShapeKind) -> Seq<char> {
    match k {
        ShapeKind::Circle => "Circle"@,
        ShapeKind::Ellipse => "Ellipse"@,
        ShapeKind::Rectangle => "Rectangle"@,
        ShapeKind::RoundedRectangle => "RoundedRectangle"@,
        ShapeKind::Heart => "Heart"@,
    }
}

/// The name under which a shape is saved (see `shape_name_of`).
pub fn shape_name(k: ShapeKind) -> (r: &'static str)
    ensures
        r@ == shape_name_of(k),
{
    match k {
        ShapeKind::Circle => "Circle",
        ShapeKind::Ellipse => "Ellipse",
        ShapeKind::Rectangle => "Rectangle",
        ShapeKind::RoundedRectangle => "RoundedRectangle",
        ShapeKind::Heart => "Heart",
    }
}

/// The shape that a saved name stands for, if it is one of the five names.
pub open spec fn shape_named(name: Seq<char>) -> Option<ShapeKind> {
    if name == "Circle"@ {
        Some(ShapeKind::Circle)
    } else if name == "Ellipse"@ {
        Some(ShapeKind::Ellipse)
    } else if name == "Rectangle"@ {
        Some(ShapeKind::Rectangle)
    } else if name == "RoundedRectangle"@ {
        Some(ShapeKind::RoundedRectangle)
    } else if name == "Heart"@ {
        Some(ShapeKind::Heart)
    } else {
        None
    }
}

/// The shape a saved name stands for (see `shape_named`).
pub fn parse_shape_name(name: &str) -> (r: Option<ShapeKind>)
    ensures
        r == shape_named(name@),
{
    if str_eq(name, "Circle") {
        Some(ShapeKind::Circle)
    } else if str_eq(name, "Ellipse") {
        Some(ShapeKind::Ellipse)
    } else if str_eq(name, "Rectangle") {
        Some(ShapeKind::Rectangle)
    } else if str_eq(name, "RoundedRectangle") {
        Some(ShapeKind::RoundedRectangle)
    } else if str_eq(name, "Heart") {
        Some(ShapeKind::Heart)
    } else {
        None
    }
}

/// The shape to start with for a saved name: the named shape, or the circle for a name
/// that is none of the five.
pub fn shape_from_config_name(name: &str) -> (r: ShapeKind)
    ensures
        r == (match shape_named(name@) {
            Some(k) => k,
            None => ShapeKind::Circle,
        }),
{
    match parse_shape_name(name) {
        Some(k) => k,
        None => ShapeKind::Circle,
    }
}

/// Saving a shape under its name and reading the name back gives the same shape.
pub proof fn lemma_shape_name_round_trip(k: ShapeKind)
    ensures
        shape_named(shape_name_of(k)) == Some(k),
{
    reveal_strlit("Circle");
    reveal_strlit("Ellipse");
    reveal_strlit("Rectangle");
    reveal_strlit("RoundedRectangle");
    reveal_strlit("Heart");
    // The five names have five different lengths.
    assert("Circle"@.len() == 6);
    assert("Ellipse"@.len() == 7);
    assert("Rectangle"@.len() == 9);
    assert("RoundedRectangle"@.len() == 16);
    assert("Heart"@.len() == 5);
}

/// The names a configuration may hold are exactly the names of the five shapes.
pub proof fn lemma_known_names_are_shapes(name: Seq<char>)
    ensures
        known_shape_name(name) <==> shape_named(name) is Some,
        known_shape_name(name) ==> shape_name_of(shape_named(name).unwrap()) == name,
{
}

} // verus!
