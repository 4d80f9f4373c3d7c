use vstd::prelude::*;
use crate::client::SCClientDelegate;
use crate::game::moves::Move;
use crate::game::state::State;
use crate::game::team::Team;
use crate::game::vec2::Vec2;

verus! {

/// The bundled move-selection strategy: a placeholder that always answers
/// with the same move, to be replaced by a real engine.
pub struct OwnGameLogic;

impl SCClientDelegate for OwnGameLogic {
    /// This placeholder answers exactly one move, whatever the state.
    open spec fn spec_picks(&self, state: State, my_team: Team, m: Move) -> bool {
        m == (Move { from: Vec2 { x: 0i64, y: 0i64 }, to: Vec2 { x: 1i64, y: 1i64 } })
    }

    fn request_move(&mut self, state: &State, my_team: Team) -> (m: Move)
        ensures
            m == (Move { from: Vec2 { x: 0i64, y: 0i64 }, to: Vec2 { x: 1i64, y: 1i64 } }),
    {
        Move::new(Vec2::new(0, 0), Vec2::new(1, 1))
    }
}

} // verus!
