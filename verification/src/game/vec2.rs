use vstd::prelude::*;
use crate::error::SCError;
use crate::numbers::{parse_i64, spec_parse_i64};
use crate::xml::{spec_attr, Element};

verus! {

/// A position on the board or a 2D displacement.
#[derive(Debug, Clone, Copy, PartialEq, Eq, Hash, Structural)]
pub struct Vec2 {
    pub x: i64,
    pub y: i64,
}

/// The vector encoded by an element's `x` / `y` attributes, if both are
/// present and read as numerals in range.
pub open spec fn spec_vec2_of(elem: Element) -> Option<Vec2> {
    match spec_attr(elem.attributes@, "x"@) {
        Option::Some(xs) => match spec_parse_i64(xs) {
            Option::Some(xv) => match spec_attr(elem.attributes@, "y"@) {
                Option::Some(ys) => match spec_parse_i64(ys) {
                    Option::Some(yv) => Option::Some(Vec2 { x: xv as i64, y: yv as i64 }),
                    Option::None => Option::None,
                },
                Option::None => Option::None,
            },
            Option::None => Option::None,
        },
        Option::None => Option::None,
    }
}

impl Vec2 {
    /// The origin.
    pub fn zero() -> (r: Self)
        ensures
            r.x == 0 && r.y == 0,
    {
        Self::new(0, 0)
    }

    /// The vector with the given components.
    pub fn new(x: i64, y: i64) -> (r: Self)
        ensures
            r.x == x && r.y == y,
    {
        Self { x, y }
    }

    /// The x component.
    pub fn x(self) -> (r: i64)
        ensures
            r == self.x,
    {
        self.x
    }

    /// The y component.
    pub fn y(self) -> (r: i64)
        ensures
            r == self.y,
    {
        self.y
    }

    /// Componentwise sum.
    pub fn plus(self, rhs: Vec2) -> (r: Vec2)
        requires
            i64::MIN <= self.x + rhs.x <= i64::MAX,
            i64::MIN <= self.y + rhs.y <= i64::MAX,
        ensures
            r.x == self.x + rhs.x,
            r.y == self.y + rhs.y,
    {
        Vec2 { x: self.x + rhs.x, y: self.y + rhs.y }
    }

    /// Componentwise difference.
    pub fn minus(self, rhs: Vec2) -> (r: Vec2)
        requires
            i64::MIN <= self.x - rhs.x <= i64::MAX,
            i64::MIN <= self.y - rhs.y <= i64::MAX,
        ensures
            r.x == self.x - rhs.x,
            r.y == self.y - rhs.y,
    {
        Vec2 { x: self.x - rhs.x, y: self.y - rhs.y }
    }

    /// Reads a vector from an element's `x` / `y` attributes.
    pub fn from_element(elem: &Element) -> (r: Result<Vec2, SCError>)
        ensures
            match spec_vec2_of(*elem) {
                Option::Some(v) => r == Ok::<Vec2, SCError>(v),
                Option::None => r is Err,
            },
            r matches Err(e) ==> (e is MissingAttribute || e is InvalidNumber),
    {
        let xs = match elem.attribute("x") {
            Ok(s) => s,
            Err(e) => {
                return Err(e);
            },
        };
        let xv = match parse_i64(xs.as_str()) {
            Ok(v) => v,
            Err(e) => {
                return Err(e);
            },
        };
        let ys = match elem.attribute("y") {
            Ok(s) => s,
            Err(e) => {
                return Err(e);
            },
        };
        let yv = match parse_i64(ys.as_str()) {
            Ok(v) => v,
            Err(e) => {
                return Err(e);
            },
        };
        Ok(Vec2 { x: xv, y: yv })
    }
}

} // verus!
