use vstd::prelude::*;
use crate::error::SCError;
use crate::numbers::{parse_bool, spec_parse_bool};
use crate::xml::{spec_child, Element};
use super::score_aggregation::{spec_aggregation_of, ScoreAggregation};

verus! {

/// One component of a score definition: how it aggregates and whether it
/// takes part in ranking.
#[derive(Debug, Clone, Copy, PartialEq, Eq, Structural)]
pub struct ScoreDefinitionFragment {
    pub aggregation: ScoreAggregation,
    pub relevant_for_ranking: bool,
}

/// The fragment encoded by an element's `aggregation` and
/// `relevantForRanking` children, read from their text content.
pub open spec fn spec_fragment_of(e: Element) -> Option<ScoreDefinitionFragment> {
    match spec_child(e, "aggregation"@) {
        Option::Some(ae) => match spec_aggregation_of(ae.content@) {
            Option::Some(a) => match spec_child(e, "relevantForRanking"@) {
                Option::Some(re) => match spec_parse_bool(re.content@) {
                    Option::Some(b) => Option::Some(
                        ScoreDefinitionFragment { aggregation: a, relevant_for_ranking: b },
                    ),
                    Option::None => Option::None,
                },
                Option::None => Option::None,
            },
            Option::None => Option::None,
        },
        Option::None => Option::None,
    }
}

impl ScoreDefinitionFragment {
    /// How this fragment aggregates.
    pub fn aggregation(&self) -> (r: ScoreAggregation)
        ensures
            r == self.aggregation,
    {
        self.aggregation
    }

    /// Whether this fragment takes part in ranking.
    pub fn relevant_for_ranking(&self) -> (r: bool)
        ensures
            r == self.relevant_for_ranking,
    {
        self.relevant_for_ranking
    }

    /// Reads a fragment from an element's `aggregation` and
    /// `relevantForRanking` children.
    pub fn from_element(elem: &Element) -> (r: Result<ScoreDefinitionFragment, SCError>)
        ensures
            match spec_fragment_of(*elem) {
                Option::Some(f) => r == Ok::<ScoreDefinitionFragment, SCError>(f),
                Option::None => r is Err,
            },
            r matches Err(e) ==> (e is MissingChild || e is UnknownVariant),
    {
        let ae = match elem.child_by_name("aggregation") {
            Ok(c) => c,
            Err(e) => {
                return Err(e);
            },
        };
        let a = match ScoreAggregation::from_str(ae.content().as_str()) {
            Ok(a) => a,
            Err(e) => {
                return Err(e);
            },
        };
        let re = match elem.child_by_name("relevantForRanking") {
            Ok(c) => c,
            Err(e) => {
                return Err(e);
            },
        };
        let b = match parse_bool(re.content().as_str()) {
            Ok(b) => b,
            Err(e) => {
                return Err(e);
            },
        };
        Ok(ScoreDefinitionFragment { aggregation: a, relevant_for_ranking: b })
    }
}

} // verus!
