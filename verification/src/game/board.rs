use vstd::prelude::*;
use crate::error::SCError;
use crate::xml::{spec_child, spec_named_children, Element};
use super::moves::Move;
use super::piece::{spec_piece_of, Piece};
use super::piece_type::PieceType;
use super::team::Team;
use super::vec2::{spec_vec2_of, Vec2};

verus! {

/// The board's side length.
pub const BOARD_SIZE: usize = 8;

/// No position is repeated in the entry list.
pub open spec fn unique_positions(s: Seq<(Vec2, Piece)>) -> bool {
    forall|i: int, j: int|
        0 <= i < j < s.len() ==> (#[trigger] s[i]).0 != (#[trigger] s[j]).0
}

/// The finite map an entry list denotes; for a repeated position the later
/// entry wins.
pub open spec fn as_map(s: Seq<(Vec2, Piece)>) -> Map<Vec2, Piece>
    decreases s.len(),
{
    if s.len() == 0 {
        Map::empty()
    } else {
        as_map(s.drop_last()).insert(s.last().0, s.last().1)
    }
}

/// A position holds a piece exactly when some entry names it.
proof fn lemma_as_map_contains(s: Seq<(Vec2, Piece)>, k: Vec2)
    ensures
        as_map(s).contains_key(k) <==> exists|i: int| 0 <= i < s.len() && (#[trigger] s[i]).0 == k,
    decreases s.len(),
{
    if s.len() > 0 {
        lemma_as_map_contains(s.drop_last(), k);
        if s.last().0 == k {
            assert(s[s.len() - 1].0 == k);
        } else if as_map(s).contains_key(k) {
            let i = choose|i: int| 0 <= i < s.drop_last().len() && (#[trigger] s.drop_last()[i]).0
                == k;
            assert(s[i].0 == k);
        } else {
            assert forall|i: int| 0 <= i < s.len() implies (#[trigger] s[i]).0 != k by {
                if i < s.len() - 1 {
                    assert(s.drop_last()[i] == s[i]);
                }
            }
        }
    }
}

/// With unique positions, each entry is what the map holds at its position.
proof fn lemma_as_map_entry(s: Seq<(Vec2, Piece)>, i: int)
    requires
        unique_positions(s),
        0 <= i < s.len(),
    ensures
        as_map(s).contains_key(s[i].0),
        as_map(s)[s[i].0] == s[i].1,
    decreases s.len(),
{
    if i == s.len() - 1 {
    } else {
        assert(s.drop_last()[i] == s[i]);
        assert(unique_positions(s.drop_last())) by {
            assert forall|a: int, b: int|
                0 <= a < b < s.drop_last().len() implies (#[trigger] s.drop_last()[a]).0 != (
            #[trigger] s.drop_last()[b]).0 by {
                assert(s.drop_last()[a] == s[a]);
                assert(s.drop_last()[b] == s[b]);
            }
        }
        lemma_as_map_entry(s.drop_last(), i);
        assert(s[i].0 != s.last().0);
    }
}

/// Removing entry `i` removes exactly its position from the map.
proof fn lemma_as_map_remove(s: Seq<(Vec2, Piece)>, i: int)
    requires
        unique_positions(s),
        0 <= i < s.len(),
    ensures
        as_map(s.remove(i)) == as_map(s).remove(s[i].0),
    decreases s.len(),
{
    lemma_unique_drop_last(s);
    if i == s.len() - 1 {
        assert(s.remove(i) =~= s.drop_last());
        lemma_as_map_contains(s.drop_last(), s[i].0);
        assert forall|j: int|
            0 <= j < s.drop_last().len() implies (#[trigger] s.drop_last()[j]).0 != s[i].0 by {
            assert(s.drop_last()[j] == s[j]);
        }
        assert(as_map(s.drop_last()).insert(s.last().0, s.last().1).remove(s[i].0) =~= as_map(
            s.drop_last(),
        ));
    } else {
        lemma_as_map_remove(s.drop_last(), i);
        assert(s.remove(i).drop_last() =~= s.drop_last().remove(i));
        assert(s.remove(i).last() == s.last());
        assert(s[i] == s.drop_last()[i]);
        assert(s[i].0 != s.last().0);
        assert(as_map(s.drop_last()).remove(s[i].0).insert(s.last().0, s.last().1) =~= as_map(
            s.drop_last(),
        ).insert(s.last().0, s.last().1).remove(s[i].0));
    }
}

/// Unique positions survive dropping the last entry.
proof fn lemma_unique_drop_last(s: Seq<(Vec2, Piece)>)
    requires
        unique_positions(s),
        s.len() > 0,
    ensures
        unique_positions(s.drop_last()),
{
    assert forall|a: int, b: int|
        0 <= a < b < s.drop_last().len() implies (#[trigger] s.drop_last()[a]).0 != (
    #[trigger] s.drop_last()[b]).0 by {
        assert(s.drop_last()[a] == s[a]);
        assert(s.drop_last()[b] == s[b]);
    }
}

/// Unique positions survive removing an entry.
proof fn lemma_unique_remove(s: Seq<(Vec2, Piece)>, i: int)
    requires
        unique_positions(s),
        0 <= i < s.len(),
    ensures
        unique_positions(s.remove(i)),
{
    assert forall|a: int, b: int|
        0 <= a < b < s.remove(i).len() implies (#[trigger] s.remove(i)[a]).0 != (
    #[trigger] s.remove(i)[b]).0 by {
        assert(s.remove(i)[a] == if a < i { s[a] } else { s[a + 1] });
        assert(s.remove(i)[b] == if b < i { s[b] } else { s[b + 1] });
    }
}

/// Replacing the piece of entry `i` updates exactly its position.
proof fn lemma_as_map_update(s: Seq<(Vec2, Piece)>, i: int, v: Piece)
    requires
        unique_positions(s),
        0 <= i < s.len(),
    ensures
        as_map(s.update(i, (s[i].0, v))) == as_map(s).insert(s[i].0, v),
    decreases s.len(),
{
    lemma_unique_drop_last(s);
    if i == s.len() - 1 {
        assert(s.update(i, (s[i].0, v)).drop_last() =~= s.drop_last());
        assert(s.update(i, (s[i].0, v)).last() == (s[i].0, v));
        assert(as_map(s.drop_last()).insert(s[i].0, s[i].1).insert(s[i].0, v) =~= as_map(
            s.drop_last(),
        ).insert(s[i].0, v));
    } else {
        lemma_as_map_update(s.drop_last(), i, v);
        assert(s.drop_last()[i] == s[i]);
        assert(s.update(i, (s[i].0, v)).drop_last() =~= s.drop_last().update(i, (s[i].0, v)));
        assert(s.update(i, (s[i].0, v)).last() == s.last());
        assert(s[i].0 != s.last().0);
        assert(as_map(s.drop_last()).insert(s[i].0, v).insert(s.last().0, s.last().1) =~= as_map(
            s.drop_last(),
        ).insert(s.last().0, s.last().1).insert(s[i].0, v));
    }
}

/// An 8 by 8 game board storing castles of pieces by position.
#[derive(Debug, Clone, PartialEq, Eq)]
pub struct Board {
    pub pieces: Vec<(Vec2, Piece)>,
}

impl View for Board {
    type V = Map<Vec2, Piece>;

    open spec fn view(&self) -> Map<Vec2, Piece> {
        as_map(self.pieces@)
    }
}

impl Board {
    /// The entry list names each position at most once.
    pub open spec fn wf(&self) -> bool {
        unique_positions(self.pieces@)
    }

    /// Whether `pos` lies on the board.
    pub open spec fn spec_in_bounds(pos: Vec2) -> bool {
        0 <= pos.x < BOARD_SIZE && 0 <= pos.y < BOARD_SIZE
    }

    /// A board with no pieces.
    pub fn empty() -> (r: Self)
        ensures
            r.wf(),
            r@ == Map::<Vec2, Piece>::empty(),
            r.pieces@ == Seq::<(Vec2, Piece)>::empty(),
    {
        Self { pieces: Vec::new() }
    }

    /// A board holding exactly the given entries, which must name each
    /// position once.
    pub fn new(pieces: Vec<(Vec2, Piece)>) -> (r: Self)
        requires
            unique_positions(pieces@),
        ensures
            r.wf(),
            r.pieces@ == pieces@,
            r@ == as_map(pieces@),
    {
        Self { pieces }
    }

    /// The entries of the board.
    pub fn pieces(&self) -> (r: &Vec<(Vec2, Piece)>)
        ensures
            r == &self.pieces,
    {
        &self.pieces
    }

    /// The piece at `pos`, if any.
    pub fn get(&self, pos: Vec2) -> (r: Option<Piece>)
        requires
            self.wf(),
        ensures
            r == if self@.contains_key(pos) {
                Option::Some(self@[pos])
            } else {
                Option::<Piece>::None
            },
    {
        let n = self.pieces.len();
        let mut i: usize = 0;
        while i < n
            invariant
                n == self.pieces@.len(),
                i <= n,
                self.wf(),
                forall|j: int| 0 <= j < i ==> (#[trigger] self.pieces@[j]).0 != pos,
            decreases n - i,
        {
            if self.pieces[i].0 == pos {
                proof {
                    lemma_as_map_entry(self.pieces@, i as int);
                }
                return Some(self.pieces[i].1);
            }
            i = i + 1;
        }
        proof {
            lemma_as_map_contains(self.pieces@, pos);
        }
        None
    }

    /// A mutable reference to the piece at `pos`, if any.
    pub fn get_mut(&mut self, pos: Vec2) -> (r: Option<&mut Piece>)
        requires
            old(self).wf(),
        ensures
            final(self).wf(),
            old(self)@.contains_key(pos) ==> (r matches Some(p) && *p == old(self)@[pos]
                && final(self)@ == old(self)@.insert(pos, *final(p))),
            !old(self)@.contains_key(pos) ==> r is None && *final(self) == *old(self),
    {
        proof {
            lemma_as_map_contains(self.pieces@, pos);
        }
        match self.index_of(pos) {
            Some(i) => {
                proof {
                    lemma_as_map_entry(self.pieces@, i as int);
                    let s = self.pieces@;
                    assert forall|v: Piece| as_map(
                        #[trigger] s.update(i as int, (s[i as int].0, v)),
                    ) == as_map(s).insert(pos, v) && unique_positions(
                        s.update(i as int, (s[i as int].0, v)),
                    ) by {
                        lemma_as_map_update(s, i as int, v);
                        let s2 = s.update(i as int, (s[i as int].0, v));
                        assert forall|a: int, b: int|
                            0 <= a < b < s2.len() implies (#[trigger] s2[a]).0 != (
                        #[trigger] s2[b]).0 by {
                            assert(s2[a].0 == s[a].0);
                            assert(s2[b].0 == s[b].0);
                        }
                    }
                }
                Some(&mut self.pieces[i].1)
            },
            None => None,
        }
    }

    /// Whether `pos` lies on the board.
    pub fn is_in_bounds(pos: Vec2) -> (r: bool)
        ensures
            r == Self::spec_in_bounds(pos),
    {
        pos.x >= 0 && pos.x < BOARD_SIZE as i64 && pos.y >= 0 && pos.y < BOARD_SIZE as i64
    }

    /// The x coordinate of the team's home line: the line its pieces start
    /// on and the opponent's light pieces score on.
    pub fn start_line(team: Team) -> (r: i64)
        ensures
            r == team.spec_index() * (BOARD_SIZE - 1),
    {
        team.index() * (BOARD_SIZE as i64 - 1)
    }

    /// The index of the entry at `pos`, if any.
    fn index_of(&self, pos: Vec2) -> (r: Option<usize>)
        ensures
            match r {
                Some(i) => i < self.pieces@.len() && self.pieces@[i as int].0 == pos,
                None => forall|j: int|
                    0 <= j < self.pieces@.len() ==> (#[trigger] self.pieces@[j]).0 != pos,
            },
    {
        let n = self.pieces.len();
        let mut i: usize = 0;
        while i < n
            invariant
                n == self.pieces@.len(),
                i <= n,
                forall|j: int| 0 <= j < i ==> (#[trigger] self.pieces@[j]).0 != pos,
            decreases n - i,
        {
            if self.pieces[i].0 == pos {
                return Some(i);
            }
            i = i + 1;
        }
        None
    }

    /// Applies `m`: the piece at its source leaves, capturing whatever
    /// stands at its destination.
    pub fn perform(&mut self, m: Move)
        requires
            old(self).wf(),
            old(self)@.contains_key(m.from),
            old(self)@.remove(m.from).contains_key(m.to) ==> old(self)@[m.from].count + old(
                self,
            )@.remove(m.from)[m.to].count <= usize::MAX,
        ensures
            final(self).wf(),
            final(self)@ == {
                let piece = old(self)@[m.from];
                let cleared = old(self)@.remove(m.from);
                let landed = if cleared.contains_key(m.to) {
                    Piece { count: (piece.count + cleared[m.to].count) as usize, ..piece }
                } else {
                    piece
                };
                cleared.insert(m.to, landed)
            },
    {
        proof {
            lemma_as_map_contains(self.pieces@, m.from);
        }
        let i = match self.index_of(m.from) {
            Some(i) => i,
            None => {
                proof {
                    assert(false);
                }
                return ;
            },
        };
        proof {
            lemma_as_map_entry(self.pieces@, i as int);
            lemma_as_map_remove(self.pieces@, i as int);
            lemma_unique_remove(self.pieces@, i as int);
        }
        let piece = self.pieces[i].1;
        self.pieces.remove(i);
        let landed = match self.get(m.to) {
            Some(target) => piece.capture(target),
            None => piece,
        };
        self.put(m.to, landed);
    }

    /// Places `piece` on `pos`, replacing whatever stood there.
    pub fn put(&mut self, pos: Vec2, piece: Piece)
        requires
            old(self).wf(),
        ensures
            final(self).wf(),
            final(self)@ == old(self)@.insert(pos, piece),
    {
        match self.index_of(pos) {
            Some(j) => {
                proof {
                    lemma_as_map_update(self.pieces@, j as int, piece);
                }
                let ghost before = self.pieces@;
                self.pieces[j] = (pos, piece);
                proof {
                    assert(self.pieces@ =~= before.update(j as int, (before[j as int].0, piece)));
                    assert(unique_positions(self.pieces@)) by {
                        let s = self.pieces@;
                        assert forall|a: int, b: int|
                            0 <= a < b < s.len() implies (#[trigger] s[a]).0 != (
                        #[trigger] s[b]).0 by {
                            assert(s[a].0 == before[a].0);
                            assert(s[b].0 == before[b].0);
                        }
                    }
                }
            },
            None => {
                let ghost before = self.pieces@;
                self.pieces.push((pos, piece));
                proof {
                    let s = self.pieces@;
                    assert(s.drop_last() =~= before);
                    assert(unique_positions(s)) by {
                        assert forall|a: int, b: int|
                            0 <= a < b < s.len() implies (#[trigger] s[a]).0 != (
                        #[trigger] s[b]).0 by {
                            if b < s.len() - 1 {
                                assert(s[a] == before[a]);
                                assert(s[b] == before[b]);
                            } else {
                                assert(s[a] == before[a]);
                            }
                        }
                    }
                }
            },
        }
    }

    /// Whether `piece` may land on `dest`: the square lies on the board and
    /// does not hold a piece of the same team.
    pub fn can_move(&self, piece: Piece, dest: Vec2) -> (r: bool)
        requires
            self.wf(),
        ensures
            r == (Self::spec_in_bounds(dest) && !(self@.contains_key(dest) && self@[dest].team
                == piece.team)),
    {
        if !Self::is_in_bounds(dest) {
            return false;
        }
        match self.get(dest) {
            Some(p) => p.team() != piece.team(),
            None => true,
        }
    }
}


/// The move deltas available to a piece at `pos` along `dirs`, in direction
/// order: those whose destination lies on the board and does not hold a
/// piece of the same team.
pub open spec fn spec_possible_deltas(b: Board, piece: Piece, pos: Vec2, dirs: Seq<Vec2>) -> Seq<Vec2>
    decreases dirs.len(),
{
    if dirs.len() == 0 {
        Seq::empty()
    } else {
        let rest = spec_possible_deltas(b, piece, pos, dirs.drop_last());
        let dest = Vec2 { x: (pos.x + dirs.last().x) as i64, y: (pos.y + dirs.last().y) as i64 };
        if Board::spec_in_bounds(dest) && !(b@.contains_key(dest) && b@[dest].team
            == piece.team) {
            rest.push(dirs.last())
        } else {
            rest
        }
    }
}

/// One entry of a board's `pieces` child: a position and the piece on it.
pub open spec fn spec_entry_of(e: Element) -> Option<(Vec2, Piece)> {
    match spec_child(e, "coordinates"@) {
        Option::Some(ce) => match spec_vec2_of(ce) {
            Option::Some(v) => match spec_child(e, "piece"@) {
                Option::Some(pe) => match spec_piece_of(pe) {
                    Option::Some(p) => Option::Some((v, p)),
                    Option::None => Option::None,
                },
                Option::None => Option::None,
            },
            Option::None => Option::None,
        },
        Option::None => Option::None,
    }
}

/// The board contents a list of entry elements encodes, with a later entry
/// for the same position winning; `None` where any entry is malformed.
pub open spec fn spec_board_map(entries: Seq<Element>) -> Option<Map<Vec2, Piece>>
    decreases entries.len(),
{
    if entries.len() == 0 {
        Option::Some(Map::empty())
    } else {
        match spec_board_map(entries.drop_last()) {
            Option::Some(m) => match spec_entry_of(entries.last()) {
                Option::Some(vp) => Option::Some(m.insert(vp.0, vp.1)),
                Option::None => Option::None,
            },
            Option::None => Option::None,
        }
    }
}

/// The board a `board` element encodes: the entries of its `pieces` child.
pub open spec fn spec_board_of(elem: Element) -> Option<Map<Vec2, Piece>> {
    match spec_child(elem, "pieces"@) {
        Option::Some(pc) => spec_board_map(spec_named_children(pc.children@, "entry"@)),
        Option::None => Option::None,
    }
}

impl Board {
    /// Removes the piece at `pos` if it has grown into an amber: a castle
    /// of three, or a light figure standing on the opponent's home line.
    /// Returns how many ambers that yields.
    pub fn check_amber(&mut self, pos: Vec2) -> (r: usize)
        requires
            old(self).wf(),
        ensures
            final(self).wf(),
            !old(self)@.contains_key(pos) ==> r == 0 && *final(self) == *old(self),
            old(self)@.contains_key(pos) ==> {
                let piece = old(self)@[pos];
                let ambers = (if piece.count >= 3 {
                    1int
                } else {
                    0int
                }) + (if piece.piece_type != PieceType::Robbe && pos.x
                    == piece.team.spec_opponent().spec_index() * (BOARD_SIZE - 1) {
                    1int
                } else {
                    0int
                });
                &&& r == ambers
                &&& (ambers > 0 ==> final(self)@ == old(self)@.remove(pos))
                &&& (ambers == 0 ==> *final(self) == *old(self))
            },
    {
        proof {
            lemma_as_map_contains(self.pieces@, pos);
        }
        match self.index_of(pos) {
            Some(i) => {
                proof {
                    lemma_as_map_entry(self.pieces@, i as int);
                }
                let piece = self.pieces[i].1;
                let mut ambers: usize = 0;
                if piece.is_amber() {
                    ambers = ambers + 1;
                }
                if piece.piece_type().is_light() && pos.x == Self::start_line(
                    piece.team().opponent(),
                ) {
                    ambers = ambers + 1;
                }
                if ambers > 0 {
                    proof {
                        lemma_as_map_remove(self.pieces@, i as int);
                        lemma_unique_remove(self.pieces@, i as int);
                    }
                    self.pieces.remove(i);
                }
                ambers
            },
            None => 0,
        }
    }

    /// The possible move deltas from the given position: the displacements
    /// of the piece standing there whose destination it could land on, not
    /// accounting for whether the move as a whole is legal; empty if no
    /// piece stands there.
    pub fn possible_destinations_from(&self, pos: Vec2) -> (r: Vec<Vec2>)
        requires
            self.wf(),
            i64::MIN + 2 <= pos.x <= i64::MAX - 2,
            i64::MIN + 2 <= pos.y <= i64::MAX - 2,
        ensures
            self@.contains_key(pos) ==> r@ == spec_possible_deltas(
                *self,
                self@[pos],
                pos,
                self@[pos].spec_directions(),
            ),
            !self@.contains_key(pos) ==> r@ == Seq::<Vec2>::empty(),
    {
        let piece = match self.get(pos) {
            Some(p) => p,
            None => {
                let out: Vec<Vec2> = Vec::new();
                proof {
                    assert(out@ =~= Seq::<Vec2>::empty());
                }
                return out;
            },
        };
        let dirs = piece.possible_directions();
        proof {
            piece.lemma_directions_small();
        }
        let mut out: Vec<Vec2> = Vec::new();
        let n = dirs.len();
        let mut i: usize = 0;
        while i < n
            invariant
                n == dirs@.len(),
                i <= n,
                self.wf(),
                i64::MIN + 2 <= pos.x <= i64::MAX - 2,
                i64::MIN + 2 <= pos.y <= i64::MAX - 2,
                self@.contains_key(pos) && piece == self@[pos],
                dirs@ == piece.spec_directions(),
                forall|j: int|
                    0 <= j < n ==> -2 <= (#[trigger] dirs@[j]).x <= 2 && -2 <= dirs@[j].y <= 2,
                out@ =~= spec_possible_deltas(*self, piece, pos, dirs@.take(i as int)),
            decreases n - i,
        {
            let v = dirs[i];
            let dest = pos.plus(v);
            proof {
                assert(dirs@.take(i as int + 1).drop_last() =~= dirs@.take(i as int));
                assert(dirs@.take(i as int + 1).last() == dirs@[i as int]);
            }
            if self.can_move(piece, dest) {
                out.push(v);
            }
            proof {
                assert(out@ =~= spec_possible_deltas(*self, piece, pos, dirs@.take(i as int + 1)));
            }
            i = i + 1;
        }
        proof {
            assert(dirs@.take(n as int) =~= dirs@);
        }
        out
    }

    /// Reads a board from a `board` element: the `coordinates` / `piece`
    /// pairs under its `pieces` child, a later entry for the same position
    /// winning.
    pub fn from_element(elem: &Element) -> (r: Result<Board, SCError>)
        ensures
            match spec_board_of(*elem) {
                Option::Some(m) => r matches Ok(b) && b.wf() && b@ == m,
                Option::None => r is Err,
            },
            r matches Err(e) ==> (e is MissingChild || e is MissingAttribute || e
                is InvalidNumber || e is UnknownVariant),
    {
        let pieces_el = match elem.child_by_name("pieces") {
            Ok(c) => c,
            Err(e) => {
                return Err(e);
            },
        };
        let entries = pieces_el.childs_by_name("entry");
        let ghost ents = spec_named_children(pieces_el.children@, "entry"@);
        proof {
            assert(spec_child(*elem, "pieces"@) == Option::Some(*pieces_el));
        }
        let mut board = Board::empty();
        let n = entries.len();
        let mut i: usize = 0;
        while i < n
            invariant
                spec_child(*elem, "pieces"@) == Option::Some(*pieces_el),
                ents == spec_named_children(pieces_el.children@, "entry"@),
                n == entries@.len(),
                i <= n,
                n == ents.len(),
                forall|j: int| 0 <= j < n ==> *(#[trigger] entries@[j]) == ents[j],
                board.wf(),
                spec_board_map(ents.take(i as int)) == Option::Some(board@),
            decreases n - i,
        {
            let entry = entries[i];
            let ce = match entry.child_by_name("coordinates") {
                Ok(c) => c,
                Err(e) => {
                    proof {
                        assert(*entry == ents[i as int]);
                        lemma_board_map_bad_entry(ents, i as int);
                    }
                    return Err(e);
                },
            };
            let v = match Vec2::from_element(ce) {
                Ok(v) => v,
                Err(e) => {
                    proof {
                        assert(*entry == ents[i as int]);
                        lemma_board_map_bad_entry(ents, i as int);
                    }
                    return Err(e);
                },
            };
            let pe = match entry.child_by_name("piece") {
                Ok(c) => c,
                Err(e) => {
                    proof {
                        assert(*entry == ents[i as int]);
                        lemma_board_map_bad_entry(ents, i as int);
                    }
                    return Err(e);
                },
            };
            let p = match Piece::from_element(pe) {
                Ok(p) => p,
                Err(e) => {
                    proof {
                        assert(*entry == ents[i as int]);
                        lemma_board_map_bad_entry(ents, i as int);
                    }
                    return Err(e);
                },
            };
            board.put(v, p);
            proof {
                assert(ents.take(i as int + 1).drop_last() =~= ents.take(i as int));
                assert(ents.take(i as int + 1).last() == ents[i as int]);
            }
            i = i + 1;
        }
        proof {
            assert(ents.take(n as int) =~= ents);
        }
        Ok(board)
    }
}

/// A malformed entry keeps every extension of the list from encoding a
/// board.
proof fn lemma_board_map_bad_entry(ents: Seq<Element>, i: int)
    requires
        0 <= i < ents.len(),
        spec_entry_of(ents[i]) is None,
    ensures
        spec_board_map(ents) is None,
    decreases ents.len(),
{
    if ents.len() > 0 {
        if i == ents.len() - 1 {
        } else {
            assert(ents.drop_last()[i] == ents[i]);
            lemma_board_map_bad_entry(ents.drop_last(), i);
        }
    }
}


} // verus!
