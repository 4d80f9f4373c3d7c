use vstd::prelude::*;
use crate::error::SCError;
use crate::numbers::i64_chars;
use crate::numbers::i64_to_string;
use crate::xml::{spec_attr_index, spec_child_index, Element};
use super::vec2::{spec_vec2_of, Vec2};

verus! {

/// An action in the game: one piece moving from one position to another.
#[derive(Debug, Clone, Copy, PartialEq, Eq, Hash, Structural)]
pub struct Move {
    pub from: Vec2,
    pub to: Vec2,
}

/// A leaf element named `name` carrying exactly `v`'s components as its
/// `x` / `y` attributes, in that order.
pub open spec fn is_coord_element(e: Element, name: Seq<char>, v: Vec2) -> bool {
    &&& e.name@ == name
    &&& e.attributes@.len() == 2
    &&& e.attributes@[0].0@ == "x"@
    &&& e.attributes@[0].1@ == i64_chars(v.x as int)
    &&& e.attributes@[1].0@ == "y"@
    &&& e.attributes@[1].1@ == i64_chars(v.y as int)
    &&& e.children@.len() == 0
    &&& e.content@.len() == 0
}

/// The canonical move-submission element: a `data` element of class `move`
/// wrapping one `from` and one `to` child.
pub open spec fn is_move_element(e: Element, m: Move) -> bool {
    &&& e.name@ == "data"@
    &&& e.attributes@.len() == 1
    &&& e.attributes@[0].0@ == "class"@
    &&& e.attributes@[0].1@ == "move"@
    &&& e.children@.len() == 2
    &&& is_coord_element(e.children@[0], "from"@, m.from)
    &&& is_coord_element(e.children@[1], "to"@, m.to)
    &&& e.content@.len() == 0
}

/// The move encoded by an element's first `from` and `to` children, if both
/// are present and carry coordinates.
pub open spec fn spec_move_of(elem: Element) -> Option<Move> {
    match spec_child_index(elem.children@, "from"@, 0) {
        Option::Some(i) => match spec_vec2_of(elem.children@[i]) {
            Option::Some(f) => match spec_child_index(elem.children@, "to"@, 0) {
                Option::Some(j) => match spec_vec2_of(elem.children@[j]) {
                    Option::Some(t) => Option::Some(Move { from: f, to: t }),
                    Option::None => Option::None,
                },
                Option::None => Option::None,
            },
            Option::None => Option::None,
        },
        Option::None => Option::None,
    }
}

impl Move {
    /// The move from `from` to `to`.
    pub fn new(from: Vec2, to: Vec2) -> (r: Self)
        ensures
            r == (Move { from, to }),
    {
        Self { from, to }
    }

    /// The position moved away from.
    pub fn from(self) -> (r: Vec2)
        ensures
            r == self.from,
    {
        self.from
    }

    /// The position moved to.
    pub fn to(self) -> (r: Vec2)
        ensures
            r == self.to,
    {
        self.to
    }

    /// The displacement of the move.
    pub fn delta(self) -> (r: Vec2)
        requires
            i64::MIN <= self.to.x - self.from.x <= i64::MAX,
            i64::MIN <= self.to.y - self.from.y <= i64::MAX,
        ensures
            r.x == self.to.x - self.from.x,
            r.y == self.to.y - self.from.y,
    {
        self.to.minus(self.from)
    }

    /// Reads a move from an element's `from` / `to` children.
    pub fn from_element(elem: &Element) -> (r: Result<Move, SCError>)
        ensures
            match spec_move_of(*elem) {
                Option::Some(m) => r == Ok::<Move, SCError>(m),
                Option::None => r is Err,
            },
            r matches Err(e) ==> (e is MissingChild || e is MissingAttribute || e
                is InvalidNumber),
    {
        let fe = match elem.child_by_name("from") {
            Ok(c) => c,
            Err(e) => {
                return Err(e);
            },
        };
        let f = match Vec2::from_element(fe) {
            Ok(v) => v,
            Err(e) => {
                return Err(e);
            },
        };
        let te = match elem.child_by_name("to") {
            Ok(c) => c,
            Err(e) => {
                return Err(e);
            },
        };
        let t = match Vec2::from_element(te) {
            Ok(v) => v,
            Err(e) => {
                return Err(e);
            },
        };
        Ok(Move { from: f, to: t })
    }

    /// Encodes one coordinate pair as a leaf element named `name`.
    fn coord_element(name: &str, v: Vec2) -> (r: Element)
        ensures
            is_coord_element(r, name@, v),
    {
        let xs = i64_to_string(v.x);
        let ys = i64_to_string(v.y);
        let b = Element::new(name);
        proof {
            reveal_strlit("x");
            reveal_strlit("y");
            assert(b.spec_attrs().len() == 0);
            assert("x"@ != "y"@) by {
                assert("x"@[0] == 'x');
                assert("y"@[0] == 'y');
            }
        }
        let b = b.attribute("x", xs.as_str());
        proof {
            assert(spec_attr_index(b.spec_attrs(), "y"@, 1) is None);
            assert(spec_attr_index(b.spec_attrs(), "y"@, 0) is None);
        }
        let b = b.attribute("y", ys.as_str());
        b.build()
    }

    /// Encodes this move as the canonical move-submission element.
    pub fn to_element(self) -> (r: Element)
        ensures
            is_move_element(r, self),
    {
        let from_el = Self::coord_element("from", self.from);
        let to_el = Self::coord_element("to", self.to);
        Element::new("data").attribute("class", "move").child(from_el).child(to_el).build()
    }
}

} // verus!
