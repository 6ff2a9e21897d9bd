//! A whole response.

use vstd::prelude::*;
use vstd::std_specs::cmp::PartialEqSpecImpl;
use crate::matches::{Matches, MatchesView};
use crate::text::same_text;

verus! {

/// The answer of the service to one query.
#[derive(Debug, Eq)]
pub struct Response {
    /// The query, as the service read it.
    pub title: String,
    /// Whether the service ran out of time. If so, matches are missing.
    pub timedout: bool,
    /// The matches in code, where the service sent that section.
    pub normal: Option<Matches>,
    /// The matches in test code, where the service sent that section.
    pub test: Option<Matches>,
    /// The matches in generated code, where the service sent that section.
    pub generated: Option<Matches>,
}

/// What a [`Response`] stands for.
pub struct ResponseView {
    pub title: Seq<char>,
    pub timedout: bool,
    pub normal: Option<MatchesView>,
    pub test: Option<MatchesView>,
    pub generated: Option<MatchesView>,
}

impl ResponseView {
    /// No sentinel is left in the response, and no symbol is the empty
    /// string.
    pub open spec fn normal(self) -> bool {
        &&& self.normal matches Some(matches) ==> matches.normal() && matches.named()
        &&& self.test matches Some(matches) ==> matches.normal() && matches.named()
        &&& self.generated matches Some(matches) ==> matches.normal() && matches.named()
    }
}

impl View for Response {
    type V = ResponseView;

    open spec fn view(&self) -> ResponseView {
        ResponseView {
            title: self.title@,
            timedout: self.timedout,
            normal: self.normal.deep_view(),
            test: self.test.deep_view(),
            generated: self.generated.deep_view(),
        }
    }
}

impl DeepView for Response {
    type V = ResponseView;

    open spec fn deep_view(&self) -> ResponseView {
        self@
    }
}

/// Whether two sections are both absent, or both there and equal.
fn same_section(a: &Option<Matches>, b: &Option<Matches>) -> (same: bool)
    ensures
        same == (a.deep_view() == b.deep_view()),
{
    match (a, b) {
        (Some(a), Some(b)) => a == b,
        (None, None) => true,
        _ => false,
    }
}

impl PartialEq for Response {
    fn eq(&self, other: &Self) -> (same: bool) {
        same_text(self.title.as_str(), other.title.as_str()) && self.timedout == other.timedout
            && same_section(&self.normal, &other.normal) && same_section(&self.test, &other.test)
            && same_section(&self.generated, &other.generated)
    }
}

impl PartialEqSpecImpl for Response {
    open spec fn obeys_eq_spec() -> bool {
        true
    }

    open spec fn eq_spec(&self, other: &Self) -> bool {
        self@ == other@
    }
}

} // verus!
