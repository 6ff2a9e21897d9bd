//! One match, and the context it was found in.

use vstd::prelude::*;
use vstd::std_specs::cmp::PartialEqSpecImpl;
use crate::text::same_text;

verus! {

/// Where a match was found: the enclosing scope, such as the function that
/// the matched line belongs to.
///
/// Both fields are filled: a context without a symbol, or a symbol without a
/// context, is never built by the decoder.
#[derive(Debug, Eq)]
pub struct MatchContext {
    /// The readable name of the scope.
    pub context: String,
    /// The identifier that the service made for the scope.
    pub symbol: String,
}

/// What a [`MatchContext`] stands for.
pub struct MatchContextView {
    pub context: Seq<char>,
    pub symbol: Seq<char>,
}

impl View for MatchContext {
    type V = MatchContextView;

    open spec fn view(&self) -> MatchContextView {
        MatchContextView { context: self.context@, symbol: self.symbol@ }
    }
}

impl DeepView for MatchContext {
    type V = MatchContextView;

    open spec fn deep_view(&self) -> MatchContextView {
        self@
    }
}

impl MatchContextView {
    /// Both fields are filled.
    pub open spec fn filled(self) -> bool {
        self.context.len() > 0 && self.symbol.len() > 0
    }
}

impl PartialEq for MatchContext {
    fn eq(&self, other: &Self) -> (same: bool) {
        same_text(self.context.as_str(), other.context.as_str()) && same_text(
            self.symbol.as_str(),
            other.symbol.as_str(),
        )
    }
}

impl PartialEqSpecImpl for MatchContext {
    open spec fn obeys_eq_spec() -> bool {
        true
    }

    open spec fn eq_spec(&self, other: &Self) -> bool {
        self@ == other@
    }
}

/// One line of a file that matches the query.
#[derive(Debug, Eq)]
pub struct LineMatch {
    /// The text of the line.
    pub line: String,
    /// The number of the line in its file, counted from 1.
    pub number: usize,
    /// The columns between which the match lies, as the service gave them.
    pub bounds: (usize, usize),
    /// Lines around the match, often a comment that describes it. `None`
    /// where the service sent none; never an empty string.
    pub peek_lines: Option<String>,
    /// The scope in which the match was found, where the service named one.
    pub context: Option<MatchContext>,
}

/// What a [`LineMatch`] stands for.
pub struct LineMatchView {
    pub line: Seq<char>,
    pub number: usize,
    pub bounds: (usize, usize),
    pub peek_lines: Option<Seq<char>>,
    pub context: Option<MatchContextView>,
}

impl View for LineMatch {
    type V = LineMatchView;

    open spec fn view(&self) -> LineMatchView {
        LineMatchView {
            line: self.line@,
            number: self.number,
            bounds: self.bounds,
            peek_lines: match self.peek_lines {
                Some(text) => Some(text@),
                None => None,
            },
            context: match self.context {
                Some(context) => Some(context@),
                None => None,
            },
        }
    }
}

impl DeepView for LineMatch {
    type V = LineMatchView;

    open spec fn deep_view(&self) -> LineMatchView {
        self@
    }
}

impl LineMatchView {
    /// No sentinel is left in the value: the lines around the match are absent
    /// or not empty, and so are both fields of the context.
    pub open spec fn normal(self) -> bool {
        &&& self.peek_lines matches Some(text) ==> text.len() > 0
        &&& self.context matches Some(context) ==> context.filled()
    }
}

impl PartialEq for LineMatch {
    fn eq(&self, other: &Self) -> (same: bool) {
        let same_peek = match (&self.peek_lines, &other.peek_lines) {
            (Some(a), Some(b)) => same_text(a.as_str(), b.as_str()),
            (None, None) => true,
            _ => false,
        };
        let same_context = match (&self.context, &other.context) {
            (Some(a), Some(b)) => a == b,
            (None, None) => true,
            _ => false,
        };
        same_text(self.line.as_str(), other.line.as_str()) && self.number == other.number
            && self.bounds.0 == other.bounds.0 && self.bounds.1 == other.bounds.1 && same_peek
            && same_context
    }
}

impl PartialEqSpecImpl for LineMatch {
    open spec fn obeys_eq_spec() -> bool {
        true
    }

    open spec fn eq_spec(&self, other: &Self) -> bool {
        self@ == other@
    }
}

/// No match of a list holds a sentinel.
pub open spec fn lines_normal(lines: Seq<LineMatchView>) -> bool {
    forall|i: int| 0 <= i < lines.len() ==> (#[trigger] lines[i]).normal()
}

/// No match of any file holds a sentinel.
pub open spec fn files_normal(files: Map<Seq<char>, Seq<LineMatchView>>) -> bool {
    forall|path: Seq<char>| #[trigger] files.contains_key(path) ==> lines_normal(files[path])
}

/// No match of any file of any symbol holds a sentinel.
pub open spec fn symbols_normal(
    symbols: Map<Seq<char>, Map<Seq<char>, Seq<LineMatchView>>>,
) -> bool {
    forall|name: Seq<char>| #[trigger] symbols.contains_key(name) ==> files_normal(symbols[name])
}

/// Whether two lists hold the same matches in the same order.
pub fn same_lines(a: &Vec<LineMatch>, b: &Vec<LineMatch>) -> (same: bool)
    ensures
        same == (a.deep_view() == b.deep_view()),
{
    if a.len() != b.len() {
        assert(a.deep_view().len() != b.deep_view().len());
        return false;
    }
    let mut i: usize = 0;
    while i < a.len()
        invariant
            i <= a.len(),
            a.len() == b.len(),
            forall|j: int| 0 <= j < i ==> a@[j]@ == b@[j]@,
        decreases a.len() - i,
    {
        if !(a[i] == b[i]) {
            assert(a.deep_view()[i as int] != b.deep_view()[i as int]);
            return false;
        }
        i += 1;
    }
    assert(a.deep_view() =~= b.deep_view());
    true
}

} // verus!
