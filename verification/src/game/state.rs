use vstd::prelude::*;
use crate::error::SCError;
use crate::numbers::spec_parse_usize;
use crate::numbers::parse_usize;
use crate::xml::{spec_attr, spec_child, spec_named_children, Element};
use super::board::{spec_board_of, Board};
use super::moves::{spec_move_of, Move};
use super::piece::Piece;
use super::team::{spec_team_of, Team};
use super::vec2::Vec2;

verus! {

/// The round after which a match ends.
pub const ROUND_LIMIT: usize = 30;

/// The state of the game at a point in time.
#[derive(Debug, Clone, PartialEq, Eq)]
pub struct State {
    /// The game board.
    pub board: Board,
    /// The ambers collected, per team.
    pub ambers: Vec<(Team, usize)>,
    /// The turn of the game.
    pub turn: usize,
    /// The most recent move.
    pub last_move: Option<Move>,
    /// The starting team.
    pub start_team: Option<Team>,
}

/// The moves a piece at `pos` may make along `dirs`: every displacement
/// whose destination does not hold a piece of the same team.
pub open spec fn spec_moves_for(b: Board, pos: Vec2, piece: Piece, dirs: Seq<Vec2>) -> Seq<Move>
    decreases dirs.len(),
{
    if dirs.len() == 0 {
        Seq::empty()
    } else {
        let rest = spec_moves_for(b, pos, piece, dirs.drop_last());
        let dest = Vec2 { x: (pos.x + dirs.last().x) as i64, y: (pos.y + dirs.last().y) as i64 };
        if !(b@.contains_key(dest) && b@[dest].team == piece.team) {
            rest.push(Move { from: pos, to: dest })
        } else {
            rest
        }
    }
}

/// The moves of all entries whose piece belongs to `team`, in entry order.
pub open spec fn spec_moves_entries(b: Board, entries: Seq<(Vec2, Piece)>, team: Option<Team>) -> Seq<Move>
    decreases entries.len(),
{
    if entries.len() == 0 {
        Seq::empty()
    } else {
        let rest = spec_moves_entries(b, entries.drop_last(), team);
        let pos = entries.last().0;
        let piece = entries.last().1;
        if Option::Some(piece.team) == team {
            rest + spec_moves_for(b, pos, piece, piece.spec_directions())
        } else {
            rest
        }
    }
}

/// The entries whose piece belongs to `team`, in entry order.
pub open spec fn spec_team_entries(s: Seq<(Vec2, Piece)>, team: Option<Team>) -> Seq<(Vec2, Piece)>
    decreases s.len(),
{
    if s.len() == 0 {
        Seq::empty()
    } else {
        let rest = spec_team_entries(s.drop_last(), team);
        if Option::Some(s.last().1.team) == team {
            rest.push(s.last())
        } else {
            rest
        }
    }
}

/// One entry of a state's `ambers` child: a team and its amber count.
pub open spec fn spec_amber_of(e: Element) -> Option<(Team, int)> {
    match spec_child(e, "team"@) {
        Option::Some(te) => match spec_team_of(te.content@) {
            Option::Some(t) => match spec_child(e, "int"@) {
                Option::Some(ie) => match spec_parse_usize(ie.content@) {
                    Option::Some(v) => Option::Some((t, v)),
                    Option::None => Option::None,
                },
                Option::None => Option::None,
            },
            Option::None => Option::None,
        },
        Option::None => Option::None,
    }
}

/// `st` is the state `elem` encodes: its board, its per-team amber counts,
/// its turn, and, where present and readable, its last move and starting
/// team.
pub open spec fn is_state_of(elem: Element, st: State) -> bool {
    &&& st.wf()
    &&& (spec_child(elem, "board"@) matches Option::Some(be) && spec_board_of(be)
        == Option::Some(st.board@))
    &&& (spec_child(elem, "ambers"@) matches Option::Some(ae) && {
        let ents = spec_named_children(ae.children@, "entry"@);
        &&& st.ambers@.len() == ents.len()
        &&& forall|i: int|
            0 <= i < ents.len() ==> spec_amber_of(#[trigger] ents[i]) == Option::Some(
                (st.ambers@[i].0, st.ambers@[i].1 as int),
            )
    })
    &&& (spec_attr(elem.attributes@, "turn"@) matches Option::Some(ts) && spec_parse_usize(ts)
        == Option::Some(st.turn as int))
    &&& st.last_move == (match spec_child(elem, "lastMove"@) {
        Option::Some(me) => spec_move_of(me),
        Option::None => Option::<Move>::None,
    })
    &&& st.start_team == (match spec_child(elem, "startTeam"@) {
        Option::Some(te) => spec_team_of(te.content@),
        Option::None => Option::<Team>::None,
    })
}

/// No state can be read off `elem`: its board, amber counts or turn is
/// missing or malformed.
pub open spec fn state_of_fails(elem: Element) -> bool {
    ||| spec_child(elem, "board"@) is None
    ||| (spec_child(elem, "board"@) matches Option::Some(be) && spec_board_of(be) is None)
    ||| spec_child(elem, "ambers"@) is None
    ||| (spec_child(elem, "ambers"@) matches Option::Some(ae) && exists|i: int|
        0 <= i < spec_named_children(ae.children@, "entry"@).len() && spec_amber_of(
            #[trigger] spec_named_children(ae.children@, "entry"@)[i],
        ) is None)
    ||| spec_attr(elem.attributes@, "turn"@) is None
    ||| (spec_attr(elem.attributes@, "turn"@) matches Option::Some(ts) && spec_parse_usize(ts)
        is None)
}

impl State {
    /// The board's entry list names each position at most once.
    pub open spec fn wf(self) -> bool {
        self.board.wf()
    }

    /// Every piece of the board stands on the board.
    pub open spec fn all_in_bounds(self) -> bool {
        forall|i: int|
            0 <= i < self.board.pieces@.len() ==> Board::spec_in_bounds(
                (#[trigger] self.board.pieces@[i]).0,
            )
    }

    /// The team whose turn it is: the starting team on even turns, its
    /// opponent on odd ones; unknown while no starting team is known.
    pub open spec fn spec_current_team(self) -> Option<Team> {
        match self.start_team {
            Option::Some(st) => Option::Some(
                if self.turn % 2 == 0 {
                    st
                } else {
                    st.spec_opponent()
                },
            ),
            Option::None => Option::None,
        }
    }

    /// Whether the game is over: a full round has been played, and either
    /// the round limit is passed or a team holds two ambers.
    pub open spec fn spec_is_over(self) -> bool {
        &&& self.turn % 2 == 0
        &&& {
            ||| (self.turn + 1) as int / 2 > ROUND_LIMIT
            ||| exists|i: int| 0 <= i < self.ambers@.len() && (#[trigger] self.ambers@[i]).1 >= 2
        }
    }

    /// The game board.
    pub fn board(&self) -> (r: &Board)
        ensures
            r == &self.board,
    {
        &self.board
    }

    /// The ambers collected, per team.
    pub fn ambers(&self) -> (r: &Vec<(Team, usize)>)
        ensures
            r == &self.ambers,
    {
        &self.ambers
    }

    /// The turn of the game.
    pub fn turn(&self) -> (r: usize)
        ensures
            r == self.turn,
    {
        self.turn
    }

    /// The round of the game: two turns make one round.
    pub fn round(&self) -> (r: usize)
        requires
            self.turn < usize::MAX,
        ensures
            r == (self.turn + 1) as int / 2,
    {
        (self.turn + 1) / 2
    }

    /// The most recent move, if known.
    pub fn last_move(&self) -> (r: Option<Move>)
        ensures
            r == self.last_move,
    {
        self.last_move
    }

    /// The starting team, if known.
    pub fn start_team(&self) -> (r: Option<Team>)
        ensures
            r == self.start_team,
    {
        self.start_team
    }

    /// The team whose turn it is, if known.
    pub fn current_team(&self) -> (r: Option<Team>)
        ensures
            r == self.spec_current_team(),
    {
        match self.start_team {
            Some(st) => Some(
                if self.turn % 2 == 0 {
                    st
                } else {
                    st.opponent()
                },
            ),
            None => None,
        }
    }

    /// The current team's pieces, in the board's entry order.
    pub fn current_pieces(&self) -> (r: Vec<(Vec2, Piece)>)
        ensures
            r@ == spec_team_entries(self.board.pieces@, self.spec_current_team()),
    {
        let team = self.current_team();
        let mut out: Vec<(Vec2, Piece)> = Vec::new();
        let n = self.board.pieces().len();
        let mut i: usize = 0;
        while i < n
            invariant
                n == self.board.pieces@.len(),
                i <= n,
                team == self.spec_current_team(),
                out@ =~= spec_team_entries(self.board.pieces@.take(i as int), team),
            decreases n - i,
        {
            proof {
                assert(self.board.pieces@.take(i as int + 1).drop_last() =~= self.board.pieces@.take(
                    i as int,
                ));
                assert(self.board.pieces@.take(i as int + 1).last() == self.board.pieces@[i as int]);
            }
            let entry = self.board.pieces()[i];
            let keep = match team {
                Some(t) => entry.1.team() == t,
                None => false,
            };
            if keep {
                out.push(entry);
            }
            i = i + 1;
        }
        proof {
            assert(self.board.pieces@.take(n as int) =~= self.board.pieces@);
        }
        out
    }

    /// The moves the current team could submit: every displacement of one
    /// of its pieces whose destination does not hold a piece of the same
    /// team.
    pub fn possible_moves(&self) -> (r: Vec<Move>)
        requires
            self.wf(),
            self.all_in_bounds(),
        ensures
            r@ == spec_moves_entries(
                self.board,
                self.board.pieces@,
                self.spec_current_team(),
            ),
    {
        let team = self.current_team();
        let mut out: Vec<Move> = Vec::new();
        let n = self.board.pieces().len();
        let mut i: usize = 0;
        while i < n
            invariant
                n == self.board.pieces@.len(),
                i <= n,
                self.wf(),
                self.all_in_bounds(),
                team == self.spec_current_team(),
                out@ =~= spec_moves_entries(self.board, self.board.pieces@.take(i as int), team),
            decreases n - i,
        {
            proof {
                assert(self.board.pieces@.take(i as int + 1).drop_last() =~= self.board.pieces@.take(
                    i as int,
                ));
                assert(self.board.pieces@.take(i as int + 1).last() == self.board.pieces@[i as int]);
            }
            let entry = self.board.pieces()[i];
            let keep = match team {
                Some(t) => entry.1.team() == t,
                None => false,
            };
            if keep {
                let pos = entry.0;
                let piece = entry.1;
                let dirs = piece.possible_directions();
                proof {
                    piece.lemma_directions_small();
                }
                let m = dirs.len();
                let mut j: usize = 0;
                while j < m
                    invariant
                        m == dirs@.len(),
                        j <= m,
                        self.wf(),
                        Board::spec_in_bounds(pos),
                        dirs@ == piece.spec_directions(),
                        forall|k: int|
                            0 <= k < m ==> -2 <= (#[trigger] dirs@[k]).x <= 2 && -2 <= dirs@[k].y
                                <= 2,
                        out@ =~= spec_moves_entries(
                            self.board,
                            self.board.pieces@.take(i as int),
                            team,
                        ) + spec_moves_for(self.board, pos, piece, dirs@.take(j as int)),
                    decreases m - j,
                {
                    proof {
                        assert(dirs@.take(j as int + 1).drop_last() =~= dirs@.take(j as int));
                        assert(dirs@.take(j as int + 1).last() == dirs@[j as int]);
                    }
                    let v = dirs[j];
                    let dest = pos.plus(v);
                    let blocked = match self.board.get(dest) {
                        Some(p) => p.team() == piece.team(),
                        None => false,
                    };
                    if !blocked {
                        out.push(Move::new(pos, dest));
                    }
                    proof {
                        assert(out@ =~= spec_moves_entries(
                            self.board,
                            self.board.pieces@.take(i as int),
                            team,
                        ) + spec_moves_for(self.board, pos, piece, dirs@.take(j as int + 1)));
                    }
                    j = j + 1;
                }
                proof {
                    assert(dirs@.take(m as int) =~= dirs@);
                }
            }
            i = i + 1;
        }
        proof {
            assert(self.board.pieces@.take(n as int) =~= self.board.pieces@);
        }
        out
    }

    /// Whether the game is over.
    pub fn is_over(&self) -> (r: bool)
        requires
            self.turn < usize::MAX,
        ensures
            r == self.spec_is_over(),
    {
        if self.turn % 2 != 0 {
            return false;
        }
        if self.round() > ROUND_LIMIT {
            return true;
        }
        let n = self.ambers.len();
        let mut i: usize = 0;
        while i < n
            invariant
                n == self.ambers@.len(),
                i <= n,
                self.turn % 2 == 0,
                forall|j: int| 0 <= j < i ==> (#[trigger] self.ambers@[j]).1 < 2,
            decreases n - i,
        {
            if self.ambers[i].1 >= 2 {
                proof {
                    assert((self.ambers@[i as int]).1 >= 2);
                }
                return true;
            }
            i = i + 1;
        }
        false
    }

    /// Applies `m` to the board; the bookkeeping fields are untouched.
    pub fn perform(&mut self, m: Move)
        requires
            old(self).wf(),
            old(self).board@.contains_key(m.from),
            old(self).board@.remove(m.from).contains_key(m.to) ==> old(self).board@[m.from].count
                + old(self).board@.remove(m.from)[m.to].count <= usize::MAX,
        ensures
            final(self).wf(),
            final(self).board@ == {
                let piece = old(self).board@[m.from];
                let cleared = old(self).board@.remove(m.from);
                let landed = if cleared.contains_key(m.to) {
                    Piece { count: (piece.count + cleared[m.to].count) as usize, ..piece }
                } else {
                    piece
                };
                cleared.insert(m.to, landed)
            },
            final(self).ambers == old(self).ambers,
            final(self).turn == old(self).turn,
            final(self).last_move == old(self).last_move,
            final(self).start_team == old(self).start_team,
    {
        self.board.perform(m);
    }

    /// The state after `m`, consuming this one.
    pub fn child(self, m: Move) -> (r: State)
        requires
            self.wf(),
            self.board@.contains_key(m.from),
            self.board@.remove(m.from).contains_key(m.to) ==> self.board@[m.from].count
                + self.board@.remove(m.from)[m.to].count <= usize::MAX,
        ensures
            r.wf(),
            r.board@ == {
                let piece = self.board@[m.from];
                let cleared = self.board@.remove(m.from);
                let landed = if cleared.contains_key(m.to) {
                    Piece { count: (piece.count + cleared[m.to].count) as usize, ..piece }
                } else {
                    piece
                };
                cleared.insert(m.to, landed)
            },
            r.ambers == self.ambers,
            r.turn == self.turn,
            r.last_move == self.last_move,
            r.start_team == self.start_team,
    {
        let mut next = self;
        next.perform(m);
        next
    }

    /// Reads a state from a `state` element: its `board` child, the team
    /// amber counts under its `ambers` child, its `turn` attribute, and,
    /// when present and readable, its `lastMove` and `startTeam` children.
    pub fn from_element(elem: &Element) -> (r: Result<State, SCError>)
        ensures
            r matches Ok(st) ==> is_state_of(*elem, st),
            r is Err <==> state_of_fails(*elem),
            r matches Err(e) ==> (e is MissingChild || e is MissingAttribute || e
                is InvalidNumber || e is UnknownVariant),
    {
        let be = match elem.child_by_name("board") {
            Ok(c) => c,
            Err(e) => {
                return Err(e);
            },
        };
        proof {
            assert(spec_child(*elem, "board"@) == Option::Some(*be));
        }
        let board = match Board::from_element(be) {
            Ok(b) => b,
            Err(e) => {
                return Err(e);
            },
        };
        let ae = match elem.child_by_name("ambers") {
            Ok(c) => c,
            Err(e) => {
                return Err(e);
            },
        };
        proof {
            assert(spec_child(*elem, "ambers"@) == Option::Some(*ae));
        }
        let entries = ae.childs_by_name("entry");
        let ghost ents = spec_named_children(ae.children@, "entry"@);
        let mut ambers: Vec<(Team, usize)> = Vec::new();
        let n = entries.len();
        let mut i: usize = 0;
        while i < n
            invariant
                spec_child(*elem, "ambers"@) == Option::Some(*ae),
                ents == spec_named_children(ae.children@, "entry"@),
                n == entries@.len(),
                i <= n,
                n == ents.len(),
                forall|j: int| 0 <= j < n ==> *(#[trigger] entries@[j]) == ents[j],
                ambers@.len() == i,
                forall|j: int|
                    0 <= j < i ==> spec_amber_of(#[trigger] ents[j]) == Option::Some(
                        ((#[trigger] ambers@[j]).0, ambers@[j].1 as int),
                    ),
            decreases n - i,
        {
            let entry = entries[i];
            proof {
                assert(*entry == ents[i as int]);
            }
            let te = match entry.child_by_name("team") {
                Ok(c) => c,
                Err(e) => {
                    proof {
                        assert(spec_amber_of(ents[i as int]) is None);
                    }
                    return Err(e);
                },
            };
            proof {
                assert(spec_child(*entry, "team"@) == Option::Some(*te));
            }
            let t = match Team::from_str(te.content().as_str()) {
                Ok(t) => t,
                Err(e) => {
                    proof {
                        assert(spec_amber_of(ents[i as int]) is None);
                    }
                    return Err(e);
                },
            };
            let ie = match entry.child_by_name("int") {
                Ok(c) => c,
                Err(e) => {
                    proof {
                        assert(spec_amber_of(ents[i as int]) is None);
                    }
                    return Err(e);
                },
            };
            proof {
                assert(spec_child(*entry, "int"@) == Option::Some(*ie));
            }
            let v = match parse_usize(ie.content().as_str()) {
                Ok(v) => v,
                Err(e) => {
                    proof {
                        assert(spec_amber_of(ents[i as int]) is None);
                    }
                    return Err(e);
                },
            };
            ambers.push((t, v));
            i = i + 1;
        }
        let ts = match elem.attribute("turn") {
            Ok(s) => s,
            Err(e) => {
                return Err(e);
            },
        };
        let turn = match parse_usize(ts.as_str()) {
            Ok(v) => v,
            Err(e) => {
                return Err(e);
            },
        };
        let last_move = match elem.child_by_name("lastMove") {
            Ok(me) => {
                proof {
                    assert(spec_child(*elem, "lastMove"@) == Option::Some(*me));
                }
                match Move::from_element(me) {
                    Ok(m) => Some(m),
                    Err(_) => None,
                }
            },
            Err(_) => None,
        };
        let start_team = match elem.child_by_name("startTeam") {
            Ok(te) => {
                proof {
                    assert(spec_child(*elem, "startTeam"@) == Option::Some(*te));
                }
                match Team::from_str(te.content().as_str()) {
                    Ok(t) => Some(t),
                    Err(_) => None,
                }
            },
            Err(_) => None,
        };
        proof {
            assert(spec_named_children(ae.children@, "entry"@) == ents);
            assert forall|k: int| 0 <= k < ents.len() implies !(spec_amber_of(
                #[trigger] ents[k],
            ) is None) by {
                assert(spec_amber_of(ents[k]) == Option::Some(
                    (ambers@[k].0, ambers@[k].1 as int),
                ));
            }
            assert(!state_of_fails(*elem));
        }
        Ok(State { board, ambers, turn, last_move, start_team })
    }
}

} // verus!
