use vstd::prelude::*;
use vstd::string::StringExecFns;
use crate::error::SCError;
use crate::strutil::str_eq;
use super::vec2::Vec2;

verus! {

/// The kinds of figures of the game.
#[derive(Debug, Clone, Copy, PartialEq, Eq, Hash, Structural)]
pub enum PieceType {
    /// Moves only diagonally forwards.
    Herzmuschel,
    /// Moves only to adjacent fields.
    Moewe,
    /// Moves only diagonally or straight forwards.
    Seestern,
    /// Jumps as a knight in chess does; the only non-light figure.
    Robbe,
}

/// The four cardinal unit displacements.
pub open spec fn spec_cardinals() -> Seq<Vec2> {
    seq![
        Vec2 { x: 1i64, y: 0i64 },
        Vec2 { x: -1i64, y: 0i64 },
        Vec2 { x: 0i64, y: 1i64 },
        Vec2 { x: 0i64, y: -1i64 },
    ]
}

/// The four diagonal unit displacements.
pub open spec fn spec_diagonals() -> Seq<Vec2> {
    seq![
        Vec2 { x: 1i64, y: 1i64 },
        Vec2 { x: 1i64, y: -1i64 },
        Vec2 { x: -1i64, y: 1i64 },
        Vec2 { x: -1i64, y: -1i64 },
    ]
}

/// The piece type named by a wire literal, if any.
pub open spec fn spec_piece_type_of(s: Seq<char>) -> Option<PieceType> {
    if s == "Herzmuschel"@ {
        Option::Some(PieceType::Herzmuschel)
    } else if s == "Moewe"@ {
        Option::Some(PieceType::Moewe)
    } else if s == "Seestern"@ {
        Option::Some(PieceType::Seestern)
    } else if s == "Robbe"@ {
        Option::Some(PieceType::Robbe)
    } else {
        Option::None
    }
}

impl PieceType {
    /// The displacements a piece of this type may move by, before
    /// orientation by team.
    pub open spec fn spec_directions(self) -> Seq<Vec2> {
        match self {
            PieceType::Herzmuschel => seq![Vec2 { x: 1i64, y: 1i64 }, Vec2 { x: 1i64, y: -1i64 }],
            PieceType::Moewe => spec_cardinals(),
            PieceType::Seestern => spec_diagonals().push(Vec2 { x: 1i64, y: 0i64 }),
            PieceType::Robbe => seq![
                Vec2 { x: 2i64, y: 1i64 },
                Vec2 { x: 1i64, y: 2i64 },
                Vec2 { x: 2i64, y: -1i64 },
                Vec2 { x: 1i64, y: -2i64 },
                Vec2 { x: -2i64, y: 1i64 },
                Vec2 { x: -1i64, y: 2i64 },
                Vec2 { x: -2i64, y: -1i64 },
                Vec2 { x: -1i64, y: -2i64 },
            ],
        }
    }

    /// This type's wire literal.
    pub open spec fn spec_name(self) -> Seq<char> {
        match self {
            PieceType::Herzmuschel => "Herzmuschel"@,
            PieceType::Moewe => "Moewe"@,
            PieceType::Seestern => "Seestern"@,
            PieceType::Robbe => "Robbe"@,
        }
    }

    /// Whether the type is lightweight; only the robbe is not.
    pub fn is_light(self) -> (r: bool)
        ensures
            r == (self != PieceType::Robbe),
    {
        !matches!(self, Self::Robbe)
    }

    /// The displacements a piece of this type may move by, before
    /// orientation by team.
    pub fn possible_directions(self) -> (r: Vec<Vec2>)
        ensures
            r@ == self.spec_directions(),
    {
        let mut out: Vec<Vec2> = Vec::new();
        match self {
            PieceType::Herzmuschel => {
                out.push(Vec2::new(1, 1));
                out.push(Vec2::new(1, -1));
            },
            PieceType::Moewe => {
                out.push(Vec2::new(1, 0));
                out.push(Vec2::new(-1, 0));
                out.push(Vec2::new(0, 1));
                out.push(Vec2::new(0, -1));
            },
            PieceType::Seestern => {
                out.push(Vec2::new(1, 1));
                out.push(Vec2::new(1, -1));
                out.push(Vec2::new(-1, 1));
                out.push(Vec2::new(-1, -1));
                out.push(Vec2::new(1, 0));
            },
            PieceType::Robbe => {
                out.push(Vec2::new(2, 1));
                out.push(Vec2::new(1, 2));
                out.push(Vec2::new(2, -1));
                out.push(Vec2::new(1, -2));
                out.push(Vec2::new(-2, 1));
                out.push(Vec2::new(-1, 2));
                out.push(Vec2::new(-2, -1));
                out.push(Vec2::new(-1, -2));
            },
        }
        proof {
            assert(out@ =~= self.spec_directions());
        }
        out
    }

    /// This type's wire literal.
    pub fn name(self) -> (r: String)
        ensures
            r@ == self.spec_name(),
    {
        match self {
            PieceType::Herzmuschel => String::from_str("Herzmuschel"),
            PieceType::Moewe => String::from_str("Moewe"),
            PieceType::Seestern => String::from_str("Seestern"),
            PieceType::Robbe => String::from_str("Robbe"),
        }
    }

    /// Reads a piece type from its wire literal.
    pub fn from_str(s: &str) -> (r: Result<PieceType, SCError>)
        ensures
            match spec_piece_type_of(s@) {
                Option::Some(t) => r == Ok::<PieceType, SCError>(t),
                Option::None => r matches Err(e) && (e matches SCError::UnknownVariant(t) && t@
                    == s@),
            },
    {
        if str_eq(s, "Herzmuschel") {
            Ok(PieceType::Herzmuschel)
        } else if str_eq(s, "Moewe") {
            Ok(PieceType::Moewe)
        } else if str_eq(s, "Seestern") {
            Ok(PieceType::Seestern)
        } else if str_eq(s, "Robbe") {
            Ok(PieceType::Robbe)
        } else {
            Err(SCError::UnknownVariant(s.to_owned()))
        }
    }

    /// Every direction of a piece type has components no larger than 2 in
    /// magnitude.
    pub proof fn lemma_directions_small(self)
        ensures
            forall|i: int|
                0 <= i < self.spec_directions().len() ==> -2 <= (
                #[trigger] self.spec_directions()[i]).x <= 2 && -2 <= self.spec_directions()[i].y
                    <= 2,
    {
    }
}

} // verus!
