use vstd::prelude::*;
use vstd::string::StringExecFns;
use crate::error::SCError;
use crate::strutil::str_eq;

verus! {

/// One of the two sides of a match.
#[derive(Debug, Clone, Copy, PartialEq, Eq, Hash, Structural)]
pub enum Team {
    One,
    Two,
}

/// The team named by a wire literal, if any.
pub open spec fn spec_team_of(s: Seq<char>) -> Option<Team> {
    if s == "ONE"@ {
        Option::Some(Team::One)
    } else if s == "TWO"@ {
        Option::Some(Team::Two)
    } else {
        Option::None
    }
}

impl Team {
    /// This team's position in orderings: the first team is 0, the second 1.
    pub open spec fn spec_index(self) -> int {
        match self {
            Team::One => 0,
            Team::Two => 1,
        }
    }

    /// The other team.
    pub open spec fn spec_opponent(self) -> Team {
        match self {
            Team::One => Team::Two,
            Team::Two => Team::One,
        }
    }

    /// The x direction this team's pieces move in: the first team moves
    /// towards larger x, the second towards smaller.
    pub open spec fn spec_direction(self) -> int {
        match self {
            Team::One => 1,
            Team::Two => -1,
        }
    }

    /// This team's wire literal.
    pub open spec fn spec_name(self) -> Seq<char> {
        match self {
            Team::One => "ONE"@,
            Team::Two => "TWO"@,
        }
    }

    /// This team's position in orderings: the first team is 0, the second 1.
    pub fn index(self) -> (r: i64)
        ensures
            r == self.spec_index(),
    {
        match self {
            Team::One => 0,
            Team::Two => 1,
        }
    }

    /// The other team.
    pub fn opponent(self) -> (r: Team)
        ensures
            r == self.spec_opponent(),
    {
        match self {
            Team::One => Team::Two,
            Team::Two => Team::One,
        }
    }

    /// The x direction this team's pieces move in.
    pub fn direction(self) -> (r: i64)
        ensures
            r == self.spec_direction(),
    {
        match self {
            Team::One => 1,
            Team::Two => -1,
        }
    }

    /// This team's wire literal.
    pub fn name(self) -> (r: String)
        ensures
            r@ == self.spec_name(),
    {
        match self {
            Team::One => String::from_str("ONE"),
            Team::Two => String::from_str("TWO"),
        }
    }

    /// Reads a team from its wire literal.
    pub fn from_str(s: &str) -> (r: Result<Team, SCError>)
        ensures
            match spec_team_of(s@) {
                Option::Some(t) => r == Ok::<Team, SCError>(t),
                Option::None => r matches Err(e) && (e matches SCError::UnknownVariant(t) && t@
                    == s@),
            },
    {
        if str_eq(s, "ONE") {
            Ok(Team::One)
        } else if str_eq(s, "TWO") {
            Ok(Team::Two)
        } else {
            Err(SCError::UnknownVariant(s.to_owned()))
        }
    }
}

} // verus!
