//! The groups of a category: the matches, file by file, as the service sends
//! them.

use vstd::prelude::*;
use vstd::std_specs::cmp::PartialEqSpecImpl;
use crate::error::{outcome, DecodeError, DecodeErrorView};
use crate::file_matches::FileMatches;
use crate::line::{same_lines, LineMatch, LineMatchView};
use crate::text::same_text;

verus! {

/// All the matches in one file, as the service sends them.
#[derive(Debug, Eq)]
pub struct RawMatch {
    /// The matches, in the order of the document.
    pub lines: Vec<LineMatch>,
    /// The path of the file.
    pub path: String,
}

/// What a [`RawMatch`] stands for.
pub struct RawMatchView {
    pub lines: Seq<LineMatchView>,
    pub path: Seq<char>,
}

impl View for RawMatch {
    type V = RawMatchView;

    open spec fn view(&self) -> RawMatchView {
        RawMatchView { lines: self.lines.deep_view(), path: self.path@ }
    }
}

impl DeepView for RawMatch {
    type V = RawMatchView;

    open spec fn deep_view(&self) -> RawMatchView {
        self@
    }
}

impl PartialEq for RawMatch {
    fn eq(&self, other: &Self) -> (same: bool) {
        same_text(self.path.as_str(), other.path.as_str()) && same_lines(&self.lines, &other.lines)
    }
}

impl PartialEqSpecImpl for RawMatch {
    open spec fn obeys_eq_spec() -> bool {
        true
    }

    open spec fn eq_spec(&self, other: &Self) -> bool {
        self@ == other@
    }
}

/// The map that a list of groups stands for: from each path to the matches of
/// the last group with that path.
pub open spec fn file_map(groups: Seq<RawMatchView>) -> Map<Seq<char>, Seq<LineMatchView>>
    decreases groups.len(),
{
    if groups.len() == 0 {
        Map::empty()
    } else {
        file_map(groups.drop_last()).insert(groups.last().path, groups.last().lines)
    }
}

/// Some group carries matches.
pub open spec fn any_lines(groups: Seq<RawMatchView>) -> bool {
    exists|i: int| 0 <= i < groups.len() && groups[i].lines.len() > 0
}

/// The paths of a list of groups, in order, where no group carries matches: a
/// file-name hit has none, and a group with matches is an error.
pub open spec fn path_list(groups: Seq<RawMatchView>) -> Result<Seq<Seq<char>>, DecodeErrorView> {
    if any_lines(groups) {
        Err(DecodeErrorView::InvalidValue)
    } else {
        Ok(Seq::new(groups.len(), |i: int| groups[i].path))
    }
}

impl RawMatch {
    /// Folds the groups into a map from path to matches. Where a path occurs
    /// in several groups, the last of them stays.
    pub fn into_hashmap(matches: Vec<RawMatch>) -> (files: FileMatches)
        ensures
            files@ == file_map(matches.deep_view()),
    {
        let ghost groups = matches.deep_view();
        let ghost given = matches@;
        let mut files = FileMatches::new();
        for group in it: matches.into_iter()
            invariant
                it.seq() == given,
                groups == Seq::new(given.len(), |i: int| given[i]@),
                files@ == file_map(groups.take(it.index() as int)),
        {
            proof {
                let next = groups.take(it.index() + 1);
                assert(next.drop_last() =~= groups.take(it.index() as int));
                assert(next.last() == group@);
            }
            files.insert(group.path, group.lines);
        }
        assert(groups.take(groups.len() as int) =~= groups);
        files
    }

    /// The paths of the groups, in order. A group that carries matches is
    /// turned down with [`DecodeError::InvalidValue`]: a file-name hit has
    /// none, and to drop them in silence would lose what the service sent.
    pub fn into_paths(matches: Vec<RawMatch>) -> (paths: Result<Vec<String>, DecodeError>)
        ensures
            outcome(paths) == path_list(matches.deep_view()),
    {
        let ghost groups = matches.deep_view();
        let ghost given = matches@;
        let mut paths: Vec<String> = Vec::new();
        for group in it: matches.into_iter()
            invariant
                it.seq() == given,
                groups == matches.deep_view(),
                groups == Seq::new(given.len(), |i: int| given[i]@),
                paths@.len() == it.index(),
                forall|i: int| 0 <= i < it.index() ==> paths@[i]@ == groups[i].path,
                forall|i: int| 0 <= i < it.index() ==> groups[i].lines.len() == 0,
        {
            if group.lines.len() > 0 {
                assert(groups[it.index() as int].lines.len() > 0);
                return Err(DecodeError::InvalidValue);
            }
            paths.push(group.path);
        }
        assert(paths.deep_view() =~= Seq::new(groups.len(), |i: int| groups[i].path));
        Ok(paths)
    }
}

/// Some group has the path `path`.
pub open spec fn has_path(groups: Seq<RawMatchView>, path: Seq<char>) -> bool {
    exists|i: int| 0 <= i < groups.len() && groups[i].path == path
}

/// The paths of the map are the paths of the groups.
pub proof fn file_map_holds_every_path(groups: Seq<RawMatchView>)
    ensures
        forall|path: Seq<char>| #[trigger]
            file_map(groups).contains_key(path) <==> has_path(groups, path),
    decreases groups.len(),
{
    if groups.len() > 0 {
        let front = groups.drop_last();
        file_map_holds_every_path(front);
        assert forall|path: Seq<char>| #[trigger]
            file_map(groups).contains_key(path) <==> has_path(groups, path) by {
            assert(file_map(front).contains_key(path) <==> has_path(front, path));
            if has_path(front, path) {
                let i: int = choose|i: int| 0 <= i < front.len() && front[i].path == path;
                assert(groups[i].path == path);
            }
            if groups.last().path == path {
                assert(groups[groups.len() - 1].path == path);
            }
            if has_path(groups, path) {
                let i: int = choose|i: int| 0 <= i < groups.len() && groups[i].path == path;
                if i < front.len() {
                    assert(front[i].path == path);
                }
            }
        }
    }
}

/// Under a path stand the matches of the last group with that path: a group
/// that no later group shares its path with is found as it was given.
pub proof fn file_map_keeps_the_last_group(groups: Seq<RawMatchView>, i: int)
    requires
        0 <= i < groups.len(),
        forall|j: int| i < j < groups.len() ==> groups[j].path != groups[i].path,
    ensures
        file_map(groups).contains_key(groups[i].path),
        file_map(groups)[groups[i].path] == groups[i].lines,
    decreases groups.len(),
{
    if i < groups.len() - 1 {
        let front = groups.drop_last();
        assert(front[i] == groups[i]);
        assert forall|j: int| i < j < front.len() implies front[j].path != front[i].path by {
            assert(front[j] == groups[j]);
        }
        file_map_keeps_the_last_group(front, i);
    }
}

/// Of two groups with one path, the matches of the second stay, whatever the
/// first held.
pub proof fn second_group_replaces_first(first: RawMatchView, second: RawMatchView)
    requires
        first.path == second.path,
    ensures
        file_map(seq![first, second]) == Map::<Seq<char>, Seq<LineMatchView>>::empty().insert(
            second.path,
            second.lines,
        ),
{
    reveal_with_fuel(file_map, 3);
    let both = seq![first, second];
    assert(both.drop_last() =~= seq![first]);
    assert(seq![first].drop_last() =~= Seq::<RawMatchView>::empty());
    assert(file_map(seq![first]) == Map::<Seq<char>, Seq<LineMatchView>>::empty().insert(
        first.path,
        first.lines,
    ));
    assert(file_map(both) =~= Map::<Seq<char>, Seq<LineMatchView>>::empty().insert(
        second.path,
        second.lines,
    ));
}

} // verus!
