use vstd::prelude::*;
use crate::error::SCError;
use crate::numbers::{parse_usize, spec_parse_usize};
use crate::xml::{spec_attr, Element};

verus! {

/// A non-negative position on the board.
#[derive(Debug, Clone, Copy, PartialEq, Eq, Hash, Structural)]
pub struct Coords {
    pub x: usize,
    pub y: usize,
}

/// The coordinates encoded by an element's `x` / `y` attributes, if both
/// are present and read as numerals in range.
pub open spec fn spec_coords_of(elem: Element) -> Option<Coords> {
    match spec_attr(elem.attributes@, "x"@) {
        Option::Some(xs) => match spec_parse_usize(xs) {
            Option::Some(xv) => match spec_attr(elem.attributes@, "y"@) {
                Option::Some(ys) => match spec_parse_usize(ys) {
                    Option::Some(yv) => Option::Some(Coords { x: xv as usize, y: yv as usize }),
                    Option::None => Option::None,
                },
                Option::None => Option::None,
            },
            Option::None => Option::None,
        },
        Option::None => Option::None,
    }
}

impl Coords {
    /// The coordinates with the given components.
    pub fn new(x: usize, y: usize) -> (r: Self)
        ensures
            r.x == x && r.y == y,
    {
        Self { x, y }
    }

    /// The x component.
    pub fn x(&self) -> (r: usize)
        ensures
            r == self.x,
    {
        self.x
    }

    /// The y component.
    pub fn y(&self) -> (r: usize)
        ensures
            r == self.y,
    {
        self.y
    }

    /// Reads coordinates from an element's `x` / `y` attributes.
    pub fn from_element(elem: &Element) -> (r: Result<Coords, SCError>)
        ensures
            match spec_coords_of(*elem) {
                Option::Some(v) => r == Ok::<Coords, SCError>(v),
                Option::None => r is Err,
            },
            r matches Err(e) ==> (e is MissingAttribute || e is InvalidNumber),
    {
        let xs = match elem.attribute("x") {
            Ok(s) => s,
            Err(e) => {
                return Err(e);
            },
        };
        let xv = match parse_usize(xs.as_str()) {
            Ok(v) => v,
            Err(e) => {
                return Err(e);
            },
        };
        let ys = match elem.attribute("y") {
            Ok(s) => s,
            Err(e) => {
                return Err(e);
            },
        };
        let yv = match parse_usize(ys.as_str()) {
            Ok(v) => v,
            Err(e) => {
                return Err(e);
            },
        };
        Ok(Coords { x: xv, y: yv })
    }
}

} // verus!
