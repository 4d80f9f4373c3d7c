use vstd::prelude::*;
use crate::error::SCError;
use crate::numbers::{parse_usize, spec_parse_usize};
use crate::xml::{spec_attr, Element};
use super::piece_type::{spec_piece_type_of, PieceType};
use super::team::{spec_team_of, Team};
use super::vec2::Vec2;

verus! {

/// A placeable figure: the type of the topmost piece of a castle, the team
/// it belongs to, and how many pieces the castle stacks.
#[derive(Debug, Clone, Copy, PartialEq, Eq, Hash, Structural)]
pub struct Piece {
    pub piece_type: PieceType,
    pub team: Team,
    pub count: usize,
}

/// The piece encoded by an element's `type` / `team` / `count` attributes,
/// if all three are present and read as their kinds ask.
pub open spec fn spec_piece_of(elem: Element) -> Option<Piece> {
    match spec_attr(elem.attributes@, "type"@) {
        Option::Some(ts) => match spec_piece_type_of(ts) {
            Option::Some(pt) => match spec_attr(elem.attributes@, "team"@) {
                Option::Some(es) => match spec_team_of(es) {
                    Option::Some(tm) => match spec_attr(elem.attributes@, "count"@) {
                        Option::Some(cs) => match spec_parse_usize(cs) {
                            Option::Some(c) => Option::Some(
                                Piece { piece_type: pt, team: tm, count: c as usize },
                            ),
                            Option::None => Option::None,
                        },
                        Option::None => Option::None,
                    },
                    Option::None => Option::None,
                },
                Option::None => Option::None,
            },
            Option::None => Option::None,
        },
        Option::None => Option::None,
    }
}

impl Piece {
    /// The displacements this piece may move by, oriented by its team: the
    /// x component is mirrored for the second team.
    pub open spec fn spec_directions(self) -> Seq<Vec2> {
        self.piece_type.spec_directions().map_values(
            |v: Vec2| Vec2 { x: (v.x * self.team.spec_direction()) as i64, y: v.y },
        )
    }

    /// A piece with the given type, team and castle size.
    pub fn new(piece_type: PieceType, team: Team, count: usize) -> (r: Self)
        ensures
            r == (Piece { piece_type, team, count }),
    {
        Self { piece_type, team, count }
    }

    /// The type of the topmost piece.
    pub fn piece_type(self) -> (r: PieceType)
        ensures
            r == self.piece_type,
    {
        self.piece_type
    }

    /// The team this piece belongs to.
    pub fn team(self) -> (r: Team)
        ensures
            r == self.team,
    {
        self.team
    }

    /// The number of pieces in this castle.
    pub fn count(self) -> (r: usize)
        ensures
            r == self.count,
    {
        self.count
    }

    /// Whether the castle is tall enough to turn into an amber.
    pub fn is_amber(self) -> (r: bool)
        ensures
            r == (self.count >= 3),
    {
        self.count >= 3
    }

    /// The piece after capturing `other`: the same figure, with the
    /// captured castle's pieces added to its own.
    pub fn capture(self, other: Self) -> (r: Self)
        requires
            self.count + other.count <= usize::MAX,
        ensures
            r == (Piece { count: (self.count + other.count) as usize, ..self }),
    {
        let mut captured = self;
        captured.count = captured.count + other.count;
        captured
    }

    /// The displacements this piece may move by, oriented by its team.
    pub fn possible_directions(self) -> (r: Vec<Vec2>)
        ensures
            r@ == self.spec_directions(),
    {
        let base = self.piece_type.possible_directions();
        let d = self.team.direction();
        let mut out: Vec<Vec2> = Vec::new();
        let n = base.len();
        let mut i: usize = 0;
        proof {
            self.piece_type.lemma_directions_small();
        }
        while i < n
            invariant
                n == base@.len(),
                i <= n,
                base@ == self.piece_type.spec_directions(),
                d == self.team.spec_direction(),
                forall|j: int|
                    0 <= j < n ==> -2 <= (#[trigger] base@[j]).x <= 2 && -2 <= base@[j].y <= 2,
                out@ =~= self.spec_directions().take(i as int),
            decreases n - i,
        {
            let v = base[i];
            out.push(Vec2 { x: v.x * d, y: v.y });
            proof {
                assert(out@ =~= self.spec_directions().take(i as int + 1));
            }
            i = i + 1;
        }
        proof {
            assert(self.spec_directions().take(n as int) =~= self.spec_directions());
        }
        out
    }

    /// Every direction of a piece has components no larger than 2 in
    /// magnitude.
    pub proof fn lemma_directions_small(self)
        ensures
            forall|i: int|
                0 <= i < self.spec_directions().len() ==> -2 <= (
                #[trigger] self.spec_directions()[i]).x <= 2 && -2 <= self.spec_directions()[i].y
                    <= 2,
    {
        self.piece_type.lemma_directions_small();
        assert forall|i: int|
            0 <= i < self.spec_directions().len() implies -2 <= (
        #[trigger] self.spec_directions()[i]).x <= 2 && -2 <= self.spec_directions()[i].y <= 2 by {
            assert(self.spec_directions()[i] == (Vec2 {
                x: (self.piece_type.spec_directions()[i].x * self.team.spec_direction()) as i64,
                y: self.piece_type.spec_directions()[i].y,
            }));
        }
    }

    /// Reads a piece from an element's `type` / `team` / `count`
    /// attributes.
    pub fn from_element(elem: &Element) -> (r: Result<Piece, SCError>)
        ensures
            match spec_piece_of(*elem) {
                Option::Some(p) => r == Ok::<Piece, SCError>(p),
                Option::None => r is Err,
            },
            r matches Err(e) ==> (e is MissingAttribute || e is InvalidNumber || e
                is UnknownVariant),
    {
        let ts = match elem.attribute("type") {
            Ok(s) => s,
            Err(e) => {
                return Err(e);
            },
        };
        let pt = match PieceType::from_str(ts.as_str()) {
            Ok(v) => v,
            Err(e) => {
                return Err(e);
            },
        };
        let es = match elem.attribute("team") {
            Ok(s) => s,
            Err(e) => {
                return Err(e);
            },
        };
        let tm = match Team::from_str(es.as_str()) {
            Ok(v) => v,
            Err(e) => {
                return Err(e);
            },
        };
        let cs = match elem.attribute("count") {
            Ok(s) => s,
            Err(e) => {
                return Err(e);
            },
        };
        let c = match parse_usize(cs.as_str()) {
            Ok(v) => v,
            Err(e) => {
                return Err(e);
            },
        };
        Ok(Piece { piece_type: pt, team: tm, count: c })
    }
}

} // verus!
