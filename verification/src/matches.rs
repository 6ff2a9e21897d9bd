//! One section of a response: the matches of a query in one kind of code.

use vstd::prelude::*;
use vstd::std_specs::cmp::PartialEqSpecImpl;
use crate::category::{category_of, classify, CategoryTag, CategoryTagView};
use crate::error::{outcome, DecodeError, DecodeErrorView};
use crate::file_matches::FileMatches;
use crate::fuzzy_matches::FuzzyMatches;
use crate::line::{files_normal, lines_normal, symbols_normal, LineMatchView};
use crate::raw::{file_map, path_list, RawMatch, RawMatchView};
use crate::text::same_text;

verus! {

/// The matches of a query in one section.
#[derive(Debug, Eq)]
pub struct Matches {
    /// The declarations that match, by symbol.
    pub declarations: FuzzyMatches,
    /// The definitions that match, by symbol.
    pub definitions: FuzzyMatches,
    /// The files whose names match, in the order of the document.
    pub files: Vec<String>,
    /// The matches in plain text: strings, comments and text files.
    pub text_matches: FileMatches,
    /// The uses that match, by symbol.
    pub uses: FuzzyMatches,
}

/// What a [`Matches`] stands for.
pub struct MatchesView {
    pub declarations: Map<Seq<char>, Map<Seq<char>, Seq<LineMatchView>>>,
    pub definitions: Map<Seq<char>, Map<Seq<char>, Seq<LineMatchView>>>,
    pub files: Seq<Seq<char>>,
    pub text_matches: Map<Seq<char>, Seq<LineMatchView>>,
    pub uses: Map<Seq<char>, Map<Seq<char>, Seq<LineMatchView>>>,
}

impl MatchesView {
    /// A section without matches.
    pub open spec fn empty() -> MatchesView {
        MatchesView {
            declarations: Map::empty(),
            definitions: Map::empty(),
            files: Seq::empty(),
            text_matches: Map::empty(),
            uses: Map::empty(),
        }
    }

    /// No symbol is the empty string.
    pub open spec fn named(self) -> bool {
        &&& !self.declarations.contains_key(Seq::<char>::empty())
        &&& !self.definitions.contains_key(Seq::<char>::empty())
        &&& !self.uses.contains_key(Seq::<char>::empty())
    }

    /// No match of the section holds a sentinel.
    pub open spec fn normal(self) -> bool {
        &&& symbols_normal(self.declarations)
        &&& symbols_normal(self.definitions)
        &&& files_normal(self.text_matches)
        &&& symbols_normal(self.uses)
    }
}

impl View for Matches {
    type V = MatchesView;

    open spec fn view(&self) -> MatchesView {
        MatchesView {
            declarations: self.declarations@,
            definitions: self.definitions@,
            files: self.files.deep_view(),
            text_matches: self.text_matches@,
            uses: self.uses@,
        }
    }
}

impl DeepView for Matches {
    type V = MatchesView;

    open spec fn deep_view(&self) -> MatchesView {
        self@
    }
}

impl Default for Matches {
    /// A section without matches.
    fn default() -> (matches: Matches)
        ensures
            matches@ == MatchesView::empty(),
    {
        let matches = Matches {
            declarations: FuzzyMatches::new(),
            definitions: FuzzyMatches::new(),
            files: Vec::new(),
            text_matches: FileMatches::new(),
            uses: FuzzyMatches::new(),
        };
        assert(matches.files.deep_view() =~= Seq::<Seq<char>>::empty());
        matches
    }
}

/// Whether two lists hold the same strings in the same order.
fn same_names(a: &Vec<String>, b: &Vec<String>) -> (same: bool)
    ensures
        same == (a.deep_view() == b.deep_view()),
{
    if a.len() != b.len() {
        assert(a.deep_view().len() != b.deep_view().len());
        return false;
    }
    let mut i: usize = 0;
    while i < a.len()
        invariant
            i <= a.len(),
            a.len() == b.len(),
            forall|j: int| 0 <= j < i ==> a@[j]@ == b@[j]@,
        decreases a.len() - i,
    {
        if !same_text(a[i].as_str(), b[i].as_str()) {
            assert(a.deep_view()[i as int] != b.deep_view()[i as int]);
            return false;
        }
        i += 1;
    }
    assert(a.deep_view() =~= b.deep_view());
    true
}

impl PartialEq for Matches {
    fn eq(&self, other: &Self) -> (same: bool) {
        self.declarations == other.declarations && self.definitions == other.definitions
            && same_names(&self.files, &other.files) && self.text_matches == other.text_matches
            && self.uses == other.uses
    }
}

impl PartialEqSpecImpl for Matches {
    open spec fn obeys_eq_spec() -> bool {
        true
    }

    open spec fn eq_spec(&self, other: &Self) -> bool {
        self@ == other@
    }
}

/// The files that a section holds for a category: for the definitions,
/// declarations or uses of a symbol what stands under the symbol, for the
/// matches in plain text all of them.
pub open spec fn files_under(matches: MatchesView, tag: CategoryTagView) -> Option<
    Map<Seq<char>, Seq<LineMatchView>>,
> {
    match tag {
        CategoryTagView::TextCategory => Some(matches.text_matches),
        CategoryTagView::DefinitionsCategory(name) => if matches.definitions.contains_key(name) {
            Some(matches.definitions[name])
        } else {
            None
        },
        CategoryTagView::DeclarationsCategory(name) => if matches.declarations.contains_key(
            name,
        ) {
            Some(matches.declarations[name])
        } else {
            None
        },
        CategoryTagView::UsesCategory(name) => if matches.uses.contains_key(name) {
            Some(matches.uses[name])
        } else {
            None
        },
        _ => None,
    }
}

/// A section after the groups of one category were filed in it:
/// - the file names are set, and a group that carries matches is an error;
/// - the matches in plain text are set;
/// - the definitions, declarations or uses of a symbol are put under the
///   symbol, in place of what stood there;
/// - a name that follows no pattern is an error that carries the name.
pub open spec fn filed(
    matches: MatchesView,
    tag: CategoryTagView,
    groups: Seq<RawMatchView>,
) -> Result<MatchesView, DecodeErrorView> {
    match tag {
        CategoryTagView::FilesCategory => match path_list(groups) {
            Ok(paths) => Ok(MatchesView { files: paths, ..matches }),
            Err(error) => Err(error),
        },
        CategoryTagView::TextCategory => Ok(
            MatchesView { text_matches: file_map(groups), ..matches },
        ),
        CategoryTagView::DefinitionsCategory(name) => Ok(
            MatchesView {
                definitions: matches.definitions.insert(name, file_map(groups)),
                ..matches
            },
        ),
        CategoryTagView::DeclarationsCategory(name) => Ok(
            MatchesView {
                declarations: matches.declarations.insert(name, file_map(groups)),
                ..matches
            },
        ),
        CategoryTagView::UsesCategory(name) => Ok(
            MatchesView { uses: matches.uses.insert(name, file_map(groups)), ..matches },
        ),
        CategoryTagView::Unknown(name) => Err(DecodeErrorView::UnrecognizedField(name)),
    }
}

/// A section after one more member, named `key` and holding `groups`, was
/// taken in: the groups are filed under the category that the name stands
/// for.
pub open spec fn absorbed(
    matches: MatchesView,
    key: Seq<char>,
    groups: Seq<RawMatchView>,
) -> Result<MatchesView, DecodeErrorView> {
    filed(matches, category_of(key), groups)
}

/// A section after the members of a list were taken in, one after the other.
/// The first error ends it.
pub open spec fn absorbed_all(
    matches: MatchesView,
    entries: Seq<(Seq<char>, Seq<RawMatchView>)>,
) -> Result<MatchesView, DecodeErrorView>
    decreases entries.len(),
{
    if entries.len() == 0 {
        Ok(matches)
    } else {
        match absorbed_all(matches, entries.drop_last()) {
            Ok(so_far) => absorbed(so_far, entries.last().0, entries.last().1),
            Err(error) => Err(error),
        }
    }
}

/// An error among the first members of a list is the error of the whole list.
pub proof fn lemma_first_error_stays(
    matches: MatchesView,
    entries: Seq<(Seq<char>, Seq<RawMatchView>)>,
    count: int,
)
    requires
        0 <= count <= entries.len(),
        absorbed_all(matches, entries.take(count)) is Err,
    ensures
        absorbed_all(matches, entries) == absorbed_all(matches, entries.take(count)),
    decreases entries.len(),
{
    if count < entries.len() {
        let front = entries.drop_last();
        assert(front.take(count) =~= entries.take(count));
        lemma_first_error_stays(matches, front, count);
    } else {
        assert(entries.take(count) =~= entries);
    }
}

impl Matches {
    /// Files the groups of one category. On an error the section stays as it
    /// was.
    pub fn file(&mut self, tag: CategoryTag, groups: Vec<RawMatch>) -> (done: Result<
        (),
        DecodeError,
    >)
        ensures
            match done {
                Ok(()) => filed(old(self)@, tag@, groups.deep_view()) == Ok::<
                    MatchesView,
                    DecodeErrorView,
                >(final(self)@),
                Err(error) => filed(old(self)@, tag@, groups.deep_view()) == Err::<
                    MatchesView,
                    DecodeErrorView,
                >(error@) && final(self)@ == old(self)@,
            },
    {
        match tag {
            CategoryTag::FilesCategory => {
                match RawMatch::into_paths(groups) {
                    Ok(paths) => {
                        self.files = paths;
                        Ok(())
                    },
                    Err(error) => Err(error),
                }
            },
            CategoryTag::TextCategory => {
                self.text_matches = RawMatch::into_hashmap(groups);
                Ok(())
            },
            CategoryTag::DefinitionsCategory(name) => {
                self.definitions.insert(name, RawMatch::into_hashmap(groups));
                Ok(())
            },
            CategoryTag::DeclarationsCategory(name) => {
                self.declarations.insert(name, RawMatch::into_hashmap(groups));
                Ok(())
            },
            CategoryTag::UsesCategory(name) => {
                self.uses.insert(name, RawMatch::into_hashmap(groups));
                Ok(())
            },
            CategoryTag::Unknown(name) => Err(DecodeError::UnrecognizedField(name)),
        }
    }

    /// Takes in one member of a section: reads its name, and files its groups
    /// where the name says. On an error the section stays as it was.
    pub fn absorb(&mut self, key: &str, groups: Vec<RawMatch>) -> (done: Result<(), DecodeError>)
        ensures
            match done {
                Ok(()) => absorbed(old(self)@, key@, groups.deep_view()) == Ok::<
                    MatchesView,
                    DecodeErrorView,
                >(final(self)@),
                Err(error) => absorbed(old(self)@, key@, groups.deep_view()) == Err::<
                    MatchesView,
                    DecodeErrorView,
                >(error@) && final(self)@ == old(self)@,
            },
    {
        self.file(classify(key), groups)
    }

    /// Decodes a section from its members, in the order in which they were
    /// sent: each is taken in as [`Matches::absorb`] says, and the first error
    /// ends the decoding.
    pub fn from_entries(entries: Vec<(String, Vec<RawMatch>)>) -> (matches: Result<
        Matches,
        DecodeError,
    >)
        ensures
            outcome(matches) == absorbed_all(MatchesView::empty(), entries.deep_view()),
    {
        let ghost members = entries.deep_view();
        let ghost given = entries@;
        let mut matches = Matches::default();
        for entry in it: entries.into_iter()
            invariant
                it.seq() == given,
                members == entries.deep_view(),
                members == Seq::new(given.len(), |i: int| given[i].deep_view()),
                absorbed_all(MatchesView::empty(), members.take(it.index() as int)) == Ok::<
                    MatchesView,
                    DecodeErrorView,
                >(matches@),
        {
            proof {
                let next = members.take(it.index() + 1);
                assert(next.drop_last() =~= members.take(it.index() as int));
                assert(next.last() == entry.deep_view());
            }
            match matches.absorb(entry.0.as_str(), entry.1) {
                Ok(()) => {},
                Err(error) => {
                    proof {
                        lemma_first_error_stays(MatchesView::empty(), members, it.index() + 1);
                    }
                    return Err(error);
                },
            }
        }
        assert(members.take(members.len() as int) =~= members);
        Ok(matches)
    }
}

/// A member named `Definitions (`, a symbol that is not empty, `)` puts the
/// files of its groups under that symbol in the definitions, in place of what
/// stood there, and leaves the rest of the section as it was.
pub proof fn definitions_are_filed_under_their_symbol(
    matches: MatchesView,
    name: Seq<char>,
    groups: Seq<RawMatchView>,
)
    requires
        name.len() > 0,
    ensures
        absorbed(matches, "Definitions ("@ + name + ")"@, groups) == Ok::<
            MatchesView,
            DecodeErrorView,
        >(
            MatchesView {
                definitions: matches.definitions.insert(name, file_map(groups)),
                ..matches
            },
        ),
{
    crate::category::definitions_name_is_recognized(name);
}

/// The same of `Declarations (` and the declarations.
pub proof fn declarations_are_filed_under_their_symbol(
    matches: MatchesView,
    name: Seq<char>,
    groups: Seq<RawMatchView>,
)
    requires
        name.len() > 0,
    ensures
        absorbed(matches, "Declarations ("@ + name + ")"@, groups) == Ok::<
            MatchesView,
            DecodeErrorView,
        >(
            MatchesView {
                declarations: matches.declarations.insert(name, file_map(groups)),
                ..matches
            },
        ),
{
    crate::category::declarations_name_is_recognized(name);
}

/// The same of `Uses (` and the uses.
pub proof fn uses_are_filed_under_their_symbol(
    matches: MatchesView,
    name: Seq<char>,
    groups: Seq<RawMatchView>,
)
    requires
        name.len() > 0,
    ensures
        absorbed(matches, "Uses ("@ + name + ")"@, groups) == Ok::<MatchesView, DecodeErrorView>(
            MatchesView { uses: matches.uses.insert(name, file_map(groups)), ..matches },
        ),
{
    crate::category::uses_name_is_recognized(name);
}

/// A member whose name is not recognized is turned down, whatever its groups
/// and whatever the section holds, and the error carries the name.
pub proof fn unknown_name_is_refused(
    matches: MatchesView,
    key: Seq<char>,
    groups: Seq<RawMatchView>,
)
    requires
        category_of(key) is Unknown,
    ensures
        absorbed(matches, key, groups) == Err::<MatchesView, DecodeErrorView>(
            DecodeErrorView::UnrecognizedField(key),
        ),
{
}

/// A list with a member whose name is not recognized is turned down. Where
/// the members before it are accepted, the error carries that name.
pub proof fn list_with_unknown_name_is_refused(
    matches: MatchesView,
    entries: Seq<(Seq<char>, Seq<RawMatchView>)>,
    i: int,
)
    requires
        0 <= i < entries.len(),
        category_of(entries[i].0) is Unknown,
    ensures
        absorbed_all(matches, entries) is Err,
        absorbed_all(matches, entries.take(i)) is Ok ==> absorbed_all(matches, entries) == Err::<
            MatchesView,
            DecodeErrorView,
        >(DecodeErrorView::UnrecognizedField(entries[i].0)),
{
    let upto = entries.take(i + 1);
    assert(upto.drop_last() =~= entries.take(i));
    assert(upto.last() == entries[i]);
    lemma_first_error_stays(matches, entries, i + 1);
}

/// No symbol of a section is the empty string, once its members were taken
/// in.
pub proof fn symbols_are_never_empty(
    matches: MatchesView,
    entries: Seq<(Seq<char>, Seq<RawMatchView>)>,
)
    requires
        matches.named(),
    ensures
        absorbed_all(matches, entries) matches Ok(after) ==> after.named(),
    decreases entries.len(),
{
    if entries.len() > 0 {
        symbols_are_never_empty(matches, entries.drop_last());
        crate::category::category_is_cut_from_the_name(entries.last().0);
    }
}

/// Two members with different names may come in either order: where both are
/// accepted, the section is the same after them.
pub proof fn members_commute(
    matches: MatchesView,
    first: (Seq<char>, Seq<RawMatchView>),
    second: (Seq<char>, Seq<RawMatchView>),
)
    requires
        first.0 != second.0,
        absorbed(matches, first.0, first.1) is Ok,
        absorbed(matches, second.0, second.1) is Ok,
    ensures
        absorbed(absorbed(matches, first.0, first.1)->Ok_0, second.0, second.1) is Ok,
        absorbed(absorbed(matches, first.0, first.1)->Ok_0, second.0, second.1) == absorbed(
            absorbed(matches, second.0, second.1)->Ok_0,
            first.0,
            first.1,
        ),
{
    if category_of(first.0) == category_of(second.0) {
        crate::category::category_tells_the_name(first.0, second.0);
    }
    let one = absorbed(absorbed(matches, first.0, first.1)->Ok_0, second.0, second.1)->Ok_0;
    let other = absorbed(absorbed(matches, second.0, second.1)->Ok_0, first.0, first.1)->Ok_0;
    assert(one.definitions =~= other.definitions);
    assert(one.declarations =~= other.declarations);
    assert(one.uses =~= other.uses);
}

/// No match of any group holds a sentinel.
pub open spec fn groups_normal(groups: Seq<RawMatchView>) -> bool {
    forall|i: int| 0 <= i < groups.len() ==> lines_normal((#[trigger] groups[i]).lines)
}

/// The map of groups without sentinels is without sentinels.
pub proof fn file_map_stays_normal(groups: Seq<RawMatchView>)
    requires
        groups_normal(groups),
    ensures
        files_normal(file_map(groups)),
    decreases groups.len(),
{
    if groups.len() > 0 {
        let front = groups.drop_last();
        assert forall|i: int| 0 <= i < front.len() implies lines_normal(
            (#[trigger] front[i]).lines,
        ) by {
            assert(front[i] == groups[i]);
        }
        file_map_stays_normal(front);
        assert(lines_normal(groups[groups.len() - 1].lines));
    }
}

/// Filing groups without sentinels leaves the section without sentinels.
pub proof fn filing_keeps_the_section_normal(
    matches: MatchesView,
    tag: CategoryTagView,
    groups: Seq<RawMatchView>,
)
    requires
        matches.normal(),
        groups_normal(groups),
    ensures
        filed(matches, tag, groups) matches Ok(after) ==> after.normal(),
{
    file_map_stays_normal(groups);
}

/// What was filed for a category stays until the same category is filed
/// again: filing another category leaves it as it was.
pub proof fn filing_leaves_other_categories(
    matches: MatchesView,
    tag: CategoryTagView,
    groups: Seq<RawMatchView>,
    other: CategoryTagView,
)
    requires
        tag != other,
    ensures
        filed(matches, tag, groups) matches Ok(after) ==> files_under(after, other)
            == files_under(matches, other) && (other is FilesCategory ==> after.files
            == matches.files),
{
}

/// In a list of members that is accepted, the files of a member stand in the
/// section as they were sent, unless a later member has the same name: for
/// the definitions, declarations or uses of a symbol under that symbol, for
/// the matches in plain text as the whole of them.
pub proof fn section_holds_what_was_sent(
    matches: MatchesView,
    entries: Seq<(Seq<char>, Seq<RawMatchView>)>,
    i: int,
)
    requires
        0 <= i < entries.len(),
        forall|j: int| i < j < entries.len() ==> entries[j].0 != entries[i].0,
        absorbed_all(matches, entries) is Ok,
        !(category_of(entries[i].0) is FilesCategory),
    ensures
        files_under(absorbed_all(matches, entries)->Ok_0, category_of(entries[i].0)) == Some(
            file_map(entries[i].1),
        ),
    decreases entries.len(),
{
    let front = entries.drop_last();
    if i < entries.len() - 1 {
        assert(front[i] == entries[i]);
        assert forall|j: int| i < j < front.len() implies front[j].0 != front[i].0 by {
            assert(front[j] == entries[j]);
        }
        section_holds_what_was_sent(matches, front, i);
        if category_of(entries.last().0) == category_of(entries[i].0) {
            crate::category::category_tells_the_name(entries.last().0, entries[i].0);
            assert(entries[entries.len() - 1].0 != entries[i].0);
        }
        filing_leaves_other_categories(
            absorbed_all(matches, front)->Ok_0,
            category_of(entries.last().0),
            entries.last().1,
            category_of(entries[i].0),
        );
    }
}

/// In a list of members that is accepted, the file names are those of the
/// last member named `Files`, in the order in which they were sent.
pub proof fn section_holds_the_last_file_names(
    matches: MatchesView,
    entries: Seq<(Seq<char>, Seq<RawMatchView>)>,
    i: int,
)
    requires
        0 <= i < entries.len(),
        category_of(entries[i].0) is FilesCategory,
        forall|j: int| i < j < entries.len() ==> !(category_of(entries[j].0) is FilesCategory),
        absorbed_all(matches, entries) is Ok,
    ensures
        path_list(entries[i].1) == Ok::<Seq<Seq<char>>, DecodeErrorView>(
            absorbed_all(matches, entries)->Ok_0.files,
        ),
    decreases entries.len(),
{
    let front = entries.drop_last();
    if i < entries.len() - 1 {
        assert(front[i] == entries[i]);
        assert forall|j: int| i < j < front.len() implies !(category_of(
            front[j].0,
        ) is FilesCategory) by {
            assert(front[j] == entries[j]);
        }
        section_holds_the_last_file_names(matches, front, i);
        assert(!(category_of(entries[entries.len() - 1].0) is FilesCategory));
    }
}

} // verus!
