use vstd::prelude::*;
use vstd::string::StringExecFns;
use crate::error::SCError;
use crate::strutil::str_eq;

verus! {

/// How the fragments of a score are combined across games.
#[derive(Debug, Clone, Copy, PartialEq, Eq, Hash, Structural)]
pub enum ScoreAggregation {
    Sum,
}

/// The aggregation named by a wire literal, if any.
pub open spec fn spec_aggregation_of(s: Seq<char>) -> Option<ScoreAggregation> {
    if s == "SUM"@ {
        Option::Some(ScoreAggregation::Sum)
    } else {
        Option::None
    }
}

impl ScoreAggregation {
    /// This aggregation's wire literal.
    pub open spec fn spec_name(self) -> Seq<char> {
        match self {
            ScoreAggregation::Sum => "SUM"@,
        }
    }

    /// This aggregation's wire literal.
    pub fn name(self) -> (r: String)
        ensures
            r@ == self.spec_name(),
    {
        match self {
            ScoreAggregation::Sum => String::from_str("SUM"),
        }
    }

    /// Reads an aggregation from its wire literal.
    pub fn from_str(s: &str) -> (r: Result<ScoreAggregation, SCError>)
        ensures
            match spec_aggregation_of(s@) {
                Option::Some(a) => r == Ok::<ScoreAggregation, SCError>(a),
                Option::None => r matches Err(e) && (e matches SCError::UnknownVariant(t) && t@
                    == s@),
            },
    {
        if str_eq(s, "SUM") {
            Ok(ScoreAggregation::Sum)
        } else {
            Err(SCError::UnknownVariant(s.to_owned()))
        }
    }
}

} // verus!
