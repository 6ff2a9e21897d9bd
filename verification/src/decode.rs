//! From a JSON document to typed values.
//!
//! The wire format: a response is an object with the members `*title*` (a
//! string), `*timedout*` (a boolean) and, each of them optional, `normal`,
//! `test` and `generated` (sections). A section is an object whose member
//! names follow the grammar of [`crate::category`] and whose values are arrays
//! of groups. A group is an object with `path` (a string) and `lines` (an
//! array of line entries). A line entry is an object with `line` (a string),
//! `lno` (a whole number, not negative), `bounds` (an array of two such
//! numbers) and, each of them optional, `peekLines`, `context` and
//! `contextsym` (strings). An optional member may be left out or be `null`;
//! members with other names are passed over.

use vstd::prelude::*;
use crate::category::{category_of, classify, CategoryTag, CategoryTagView};
use crate::error::{outcome, DecodeError, DecodeErrorView};
use crate::json::{items_view, member, members_view, Json, JsonView};
use crate::matches::{filed, filing_keeps_the_section_normal, groups_normal, Matches, MatchesView};
use crate::line::{lines_normal, LineMatch, LineMatchView};
use crate::normalize::{
    normalize_context,
    normalize_optional_string,
    normalized_context,
    normalized_text,
};
use crate::raw::{RawMatch, RawMatchView};
use crate::response::{Response, ResponseView};

verus! {

/// The values of a list of results, in order, or the first error among them.
pub open spec fn gathered<T>(results: Seq<Result<T, DecodeErrorView>>) -> Result<
    Seq<T>,
    DecodeErrorView,
>
    decreases results.len(),
{
    if results.len() == 0 {
        Ok(Seq::empty())
    } else {
        match gathered(results.drop_last()) {
            Ok(front) => match results.last() {
                Ok(value) => Ok(front.push(value)),
                Err(error) => Err(error),
            },
            Err(error) => Err(error),
        }
    }
}

/// An error among the first results of a list is the error of the whole list.
pub proof fn lemma_gathered_error_stays<T>(
    results: Seq<Result<T, DecodeErrorView>>,
    count: int,
)
    requires
        0 <= count <= results.len(),
        gathered(results.take(count)) is Err,
    ensures
        gathered(results) == gathered(results.take(count)),
    decreases results.len(),
{
    if count < results.len() {
        let front = results.drop_last();
        assert(front.take(count) =~= results.take(count));
        lemma_gathered_error_stays(front, count);
    } else {
        assert(results.take(count) =~= results);
    }
}

/// The string that the member `name` holds. An error where the member is
/// missing or holds anything else.
pub open spec fn text_member(fields: Seq<(Seq<char>, JsonView)>, name: Seq<char>) -> Result<
    Seq<char>,
    DecodeErrorView,
> {
    match member(fields, name) {
        Some(JsonView::Text(text)) => Ok(text),
        _ => Err(DecodeErrorView::SchemaViolation(name)),
    }
}

/// The string that the member `name` holds, if the member is there and not
/// `null`. An error where it holds anything else.
pub open spec fn optional_text_member(
    fields: Seq<(Seq<char>, JsonView)>,
    name: Seq<char>,
) -> Result<Option<Seq<char>>, DecodeErrorView> {
    match member(fields, name) {
        None => Ok(None),
        Some(JsonView::Null) => Ok(None),
        Some(JsonView::Text(text)) => Ok(Some(text)),
        _ => Err(DecodeErrorView::SchemaViolation(name)),
    }
}

/// The boolean that the member `name` holds. An error where the member is
/// missing or holds anything else.
pub open spec fn flag_member(fields: Seq<(Seq<char>, JsonView)>, name: Seq<char>) -> Result<
    bool,
    DecodeErrorView,
> {
    match member(fields, name) {
        Some(JsonView::Bool(flag)) => Ok(flag),
        _ => Err(DecodeErrorView::SchemaViolation(name)),
    }
}

/// The count that a value holds: a whole number that is not negative and that
/// a `usize` can hold.
pub open spec fn count_of(json: JsonView) -> Option<usize> {
    match json {
        JsonView::Number(Some(n)) => if n <= usize::MAX {
            Some(n as usize)
        } else {
            None
        },
        _ => None,
    }
}

/// The count that the member `name` holds. An error where the member is
/// missing or holds anything else.
pub open spec fn count_member(fields: Seq<(Seq<char>, JsonView)>, name: Seq<char>) -> Result<
    usize,
    DecodeErrorView,
> {
    match member(fields, name) {
        Some(value) => match count_of(value) {
            Some(n) => Ok(n),
            None => Err(DecodeErrorView::SchemaViolation(name)),
        },
        None => Err(DecodeErrorView::SchemaViolation(name)),
    }
}

/// The two counts that the member `name` holds, an array of exactly two. An
/// error where the member is missing or holds anything else.
pub open spec fn bounds_member(fields: Seq<(Seq<char>, JsonView)>, name: Seq<char>) -> Result<
    (usize, usize),
    DecodeErrorView,
> {
    match member(fields, name) {
        Some(JsonView::Array(items)) => if items.len() == 2 && count_of(items[0]) is Some
            && count_of(items[1]) is Some {
            Ok((count_of(items[0])->0, count_of(items[1])->0))
        } else {
            Err(DecodeErrorView::SchemaViolation(name))
        },
        _ => Err(DecodeErrorView::SchemaViolation(name)),
    }
}

/// An absent text as the empty one: the service writes either for a context
/// or a symbol that it does not name.
pub open spec fn text_or_empty(text: Option<Seq<char>>) -> Seq<char> {
    match text {
        Some(text) => text,
        None => Seq::empty(),
    }
}

/// The match that a line entry stands for. The members are read in the order
/// `line`, `lno`, `bounds`, `peekLines`, `context`, `contextsym`, and the
/// first that is missing or of the wrong kind is the error. Then the lines
/// around the match and the context are freed of the sentinel. A value that is
/// no object has no `line`.
pub open spec fn line_of(json: JsonView) -> Result<LineMatchView, DecodeErrorView> {
    match json {
        JsonView::Object(fields) => {
            let line = text_member(fields, "line"@);
            let number = count_member(fields, "lno"@);
            let bounds = bounds_member(fields, "bounds"@);
            let peek = optional_text_member(fields, "peekLines"@);
            let context = optional_text_member(fields, "context"@);
            let symbol = optional_text_member(fields, "contextsym"@);
            if line is Err {
                Err(line->Err_0)
            } else if number is Err {
                Err(number->Err_0)
            } else if bounds is Err {
                Err(bounds->Err_0)
            } else if peek is Err {
                Err(peek->Err_0)
            } else if context is Err {
                Err(context->Err_0)
            } else if symbol is Err {
                Err(symbol->Err_0)
            } else {
                match normalized_context(
                    text_or_empty(context->Ok_0),
                    text_or_empty(symbol->Ok_0),
                ) {
                    Ok(scope) => Ok(
                        LineMatchView {
                            line: line->Ok_0,
                            number: number->Ok_0,
                            bounds: bounds->Ok_0,
                            peek_lines: normalized_text(peek->Ok_0),
                            context: scope,
                        },
                    ),
                    Err(error) => Err(error),
                }
            }
        },
        _ => Err(DecodeErrorView::SchemaViolation("line"@)),
    }
}

/// The matches that the line entries of an array stand for, or the error of
/// the first entry that has one.
pub open spec fn lines_of(items: Seq<JsonView>) -> Result<Seq<LineMatchView>, DecodeErrorView> {
    gathered(Seq::new(items.len(), |i: int| line_of(items[i])))
}

/// The matches that the member `name` holds, an array of line entries. An
/// error where the member is missing or no array, or where an entry has one.
pub open spec fn lines_member(fields: Seq<(Seq<char>, JsonView)>, name: Seq<char>) -> Result<
    Seq<LineMatchView>,
    DecodeErrorView,
> {
    match member(fields, name) {
        Some(JsonView::Array(items)) => lines_of(items),
        _ => Err(DecodeErrorView::SchemaViolation(name)),
    }
}

/// The group that a value stands for: `path` is read first, then `lines`. A
/// value that is no object has no `path`.
pub open spec fn group_of(json: JsonView) -> Result<RawMatchView, DecodeErrorView> {
    match json {
        JsonView::Object(fields) => {
            let path = text_member(fields, "path"@);
            let lines = lines_member(fields, "lines"@);
            if path is Err {
                Err(path->Err_0)
            } else if lines is Err {
                Err(lines->Err_0)
            } else {
                Ok(RawMatchView { lines: lines->Ok_0, path: path->Ok_0 })
            }
        },
        _ => Err(DecodeErrorView::SchemaViolation("path"@)),
    }
}

/// The groups that the value of the member `key` of a section stands for: an
/// array of groups. An error that names the member where the value is no
/// array, else the error of the first group that has one.
pub open spec fn groups_of(json: JsonView, key: Seq<char>) -> Result<
    Seq<RawMatchView>,
    DecodeErrorView,
> {
    match json {
        JsonView::Array(items) => gathered(Seq::new(items.len(), |i: int| group_of(items[i]))),
        _ => Err(DecodeErrorView::SchemaViolation(key)),
    }
}

/// Reads the string that the member `name` holds.
fn read_text(members: &Vec<(String, Json)>, name: &str) -> (text: Result<String, DecodeError>)
    ensures
        outcome(text) == text_member(members_view(members@), name@),
{
    match Json::member(members, name) {
        Some(Json::Text(text)) => Ok(text.clone()),
        _ => Err(DecodeError::SchemaViolation(name.to_owned())),
    }
}

/// Reads the string that the member `name` holds, if it is there.
fn read_optional_text(members: &Vec<(String, Json)>, name: &str) -> (text: Result<
    Option<String>,
    DecodeError,
>)
    ensures
        outcome(text) == optional_text_member(members_view(members@), name@),
{
    match Json::member(members, name) {
        None => Ok(None),
        Some(Json::Null) => Ok(None),
        Some(Json::Text(text)) => Ok(Some(text.clone())),
        _ => Err(DecodeError::SchemaViolation(name.to_owned())),
    }
}

/// Reads the boolean that the member `name` holds.
fn read_flag(members: &Vec<(String, Json)>, name: &str) -> (flag: Result<bool, DecodeError>)
    ensures
        outcome(flag) == flag_member(members_view(members@), name@),
{
    match Json::member(members, name) {
        Some(Json::Bool(flag)) => Ok(*flag),
        _ => Err(DecodeError::SchemaViolation(name.to_owned())),
    }
}

/// The count that a value holds, if it holds one.
fn count(json: &Json) -> (n: Option<usize>)
    ensures
        n.deep_view() == count_of(json@),
{
    match json {
        Json::Number(Some(n)) => if *n <= usize::MAX as u64 {
            Some(*n as usize)
        } else {
            None
        },
        _ => None,
    }
}

/// Reads the count that the member `name` holds.
fn read_count(members: &Vec<(String, Json)>, name: &str) -> (n: Result<usize, DecodeError>)
    ensures
        outcome(n) == count_member(members_view(members@), name@),
{
    match Json::member(members, name) {
        Some(value) => match count(value) {
            Some(n) => Ok(n),
            None => Err(DecodeError::SchemaViolation(name.to_owned())),
        },
        None => Err(DecodeError::SchemaViolation(name.to_owned())),
    }
}

/// Reads the two counts that the member `name` holds.
fn read_bounds(members: &Vec<(String, Json)>, name: &str) -> (bounds: Result<
    (usize, usize),
    DecodeError,
>)
    ensures
        outcome(bounds) == bounds_member(members_view(members@), name@),
{
    match Json::member(members, name) {
        Some(Json::Array(items)) => {
            proof {
                Json::Array(*items).lemma_view();
            }
            if items.len() == 2 {
                match (count(&items[0]), count(&items[1])) {
                    (Some(start), Some(end)) => Ok((start, end)),
                    _ => Err(DecodeError::SchemaViolation(name.to_owned())),
                }
            } else {
                Err(DecodeError::SchemaViolation(name.to_owned()))
            }
        },
        _ => Err(DecodeError::SchemaViolation(name.to_owned())),
    }
}

/// The text, or the empty string where there is none.
fn text_or_default(text: Option<String>) -> (given: String)
    ensures
        given@ == text_or_empty(text.deep_view()),
{
    match text {
        Some(text) => text,
        None => String::new(),
    }
}

impl LineMatch {
    /// Decodes a line entry.
    pub fn from_json(json: &Json) -> (line: Result<LineMatch, DecodeError>)
        ensures
            outcome(line) == line_of(json@),
    {
        match json {
            Json::Object(members) => {
                proof {
                    json.lemma_view();
                }
                let line = read_text(members, "line")?;
                let number = read_count(members, "lno")?;
                let bounds = read_bounds(members, "bounds")?;
                let peek = read_optional_text(members, "peekLines")?;
                let context = read_optional_text(members, "context")?;
                let symbol = read_optional_text(members, "contextsym")?;
                let scope = normalize_context(text_or_default(context), text_or_default(symbol))?;
                Ok(
                    LineMatch {
                        line,
                        number,
                        bounds,
                        peek_lines: normalize_optional_string(peek),
                        context: scope,
                    },
                )
            },
            _ => Err(DecodeError::SchemaViolation("line".to_owned())),
        }
    }
}

/// Reads the matches that the member `name` holds, entry by entry.
fn read_lines(members: &Vec<(String, Json)>, name: &str) -> (lines: Result<
    Vec<LineMatch>,
    DecodeError,
>)
    ensures
        outcome(lines) == lines_member(members_view(members@), name@),
{
    match Json::member(members, name) {
        Some(Json::Array(items)) => {
            proof {
                Json::Array(*items).lemma_view();
            }
            let ghost results = Seq::new(
                items@.len(),
                |i: int| line_of(items_view(items@)[i]),
            );
            let mut lines: Vec<LineMatch> = Vec::new();
            let mut i: usize = 0;
            assert(lines.deep_view() =~= Seq::<LineMatchView>::empty());
            assert(results =~= Seq::new(
                items_view(items@).len(),
                |i: int| line_of(items_view(items@)[i]),
            ));
            while i < items.len()
                invariant
                    i <= items.len(),
                    lines_member(members_view(members@), name@) == gathered(results),
                    results == Seq::new(items@.len(), |i: int| line_of(items_view(items@)[i])),
                    gathered(results.take(i as int)) == Ok::<Seq<LineMatchView>, DecodeErrorView>(
                        lines.deep_view(),
                    ),
                decreases items.len() - i,
            {
                proof {
                    let next = results.take(i + 1);
                    assert(next.drop_last() =~= results.take(i as int));
                    assert(next.last() == line_of(items@[i as int]@));
                }
                match LineMatch::from_json(&items[i]) {
                    Ok(line) => {
                        let ghost before = lines.deep_view();
                        let ghost added = line@;
                        lines.push(line);
                        assert(lines.deep_view() =~= before.push(added));
                    },
                    Err(error) => {
                        proof {
                            lemma_gathered_error_stays(results, i + 1);
                        }
                        return Err(error);
                    },
                }
                i += 1;
            }
            assert(results.take(i as int) =~= results);
            Ok(lines)
        },
        _ => Err(DecodeError::SchemaViolation(name.to_owned())),
    }
}

impl RawMatch {
    /// Decodes a group.
    pub fn from_json(json: &Json) -> (group: Result<RawMatch, DecodeError>)
        ensures
            outcome(group) == group_of(json@),
    {
        match json {
            Json::Object(members) => {
                proof {
                    json.lemma_view();
                }
                let path = read_text(members, "path")?;
                let lines = read_lines(members, "lines")?;
                Ok(RawMatch { lines, path })
            },
            _ => Err(DecodeError::SchemaViolation("path".to_owned())),
        }
    }

    /// Decodes the groups of a category: the value of the member `key` of a
    /// section.
    pub fn list_from_json(json: &Json, key: &str) -> (groups: Result<Vec<RawMatch>, DecodeError>)
        ensures
            outcome(groups) == groups_of(json@, key@),
    {
        match json {
            Json::Array(items) => {
                proof {
                    json.lemma_view();
                }
                let ghost results = Seq::new(
                    items@.len(),
                    |i: int| group_of(items_view(items@)[i]),
                );
                let mut groups: Vec<RawMatch> = Vec::new();
                let mut i: usize = 0;
                assert(groups.deep_view() =~= Seq::<RawMatchView>::empty());
                assert(results =~= Seq::new(
                    items_view(items@).len(),
                    |i: int| group_of(items_view(items@)[i]),
                ));
                while i < items.len()
                    invariant
                        i <= items.len(),
                        groups_of(json@, key@) == gathered(results),
                        results == Seq::new(
                            items@.len(),
                            |i: int| group_of(items_view(items@)[i]),
                        ),
                        gathered(results.take(i as int)) == Ok::<
                            Seq<RawMatchView>,
                            DecodeErrorView,
                        >(groups.deep_view()),
                    decreases items.len() - i,
                {
                    proof {
                        let next = results.take(i + 1);
                        assert(next.drop_last() =~= results.take(i as int));
                        assert(next.last() == group_of(items@[i as int]@));
                    }
                    match RawMatch::from_json(&items[i]) {
                        Ok(group) => {
                            let ghost before = groups.deep_view();
                            let ghost added = group@;
                            groups.push(group);
                            assert(groups.deep_view() =~= before.push(added));
                        },
                        Err(error) => {
                            proof {
                                lemma_gathered_error_stays(results, i + 1);
                            }
                            return Err(error);
                        },
                    }
                    i += 1;
                }
                assert(results.take(i as int) =~= results);
                Ok(groups)
            },
            _ => Err(DecodeError::SchemaViolation(key.to_owned())),
        }
    }
}

/// A section after one more member was taken in. The name is read first: one
/// that follows no pattern is the error, whatever the value. Then the value
/// is decoded, and its groups are filed under the category of the name.
pub open spec fn member_absorbed(matches: MatchesView, key: Seq<char>, value: JsonView) -> Result<
    MatchesView,
    DecodeErrorView,
> {
    match category_of(key) {
        CategoryTagView::Unknown(name) => Err(DecodeErrorView::UnrecognizedField(name)),
        tag => match groups_of(value, key) {
            Ok(groups) => filed(matches, tag, groups),
            Err(error) => Err(error),
        },
    }
}

/// A section after the members of an object were taken in, in the order of
/// the document. The first error ends it.
pub open spec fn section_from(matches: MatchesView, fields: Seq<(Seq<char>, JsonView)>) -> Result<
    MatchesView,
    DecodeErrorView,
>
    decreases fields.len(),
{
    if fields.len() == 0 {
        Ok(matches)
    } else {
        match section_from(matches, fields.drop_last()) {
            Ok(so_far) => member_absorbed(so_far, fields.last().0, fields.last().1),
            Err(error) => Err(error),
        }
    }
}

/// The section that the members of an object stand for.
pub open spec fn section_of(fields: Seq<(Seq<char>, JsonView)>) -> Result<
    MatchesView,
    DecodeErrorView,
> {
    section_from(MatchesView::empty(), fields)
}

/// The section that a document stands for. A document that is no object is
/// malformed.
pub open spec fn section_document(json: JsonView) -> Result<MatchesView, DecodeErrorView> {
    match json {
        JsonView::Object(fields) => section_of(fields),
        _ => Err(DecodeErrorView::MalformedPayload),
    }
}

/// An error among the first members of a section is the error of the section.
pub proof fn lemma_section_error_stays(
    matches: MatchesView,
    fields: Seq<(Seq<char>, JsonView)>,
    count: int,
)
    requires
        0 <= count <= fields.len(),
        section_from(matches, fields.take(count)) is Err,
    ensures
        section_from(matches, fields) == section_from(matches, fields.take(count)),
    decreases fields.len(),
{
    if count < fields.len() {
        let front = fields.drop_last();
        assert(front.take(count) =~= fields.take(count));
        lemma_section_error_stays(matches, front, count);
    } else {
        assert(fields.take(count) =~= fields);
    }
}

/// The section that the member `name` of a response holds, if the member is
/// there and not `null`. An error that names the member where it holds no
/// object, else the error of the section.
pub open spec fn section_member(fields: Seq<(Seq<char>, JsonView)>, name: Seq<char>) -> Result<
    Option<MatchesView>,
    DecodeErrorView,
> {
    match member(fields, name) {
        None => Ok(None),
        Some(JsonView::Null) => Ok(None),
        Some(JsonView::Object(members)) => match section_of(members) {
            Ok(matches) => Ok(Some(matches)),
            Err(error) => Err(error),
        },
        _ => Err(DecodeErrorView::SchemaViolation(name)),
    }
}

/// The response that a document stands for. A document that is no object is
/// malformed. The members are read in the order `*title*`, `*timedout*`,
/// `normal`, `test`, `generated`, and the first that fails is the error.
pub open spec fn response_of(json: JsonView) -> Result<ResponseView, DecodeErrorView> {
    match json {
        JsonView::Object(fields) => {
            let title = text_member(fields, "*title*"@);
            let timedout = flag_member(fields, "*timedout*"@);
            let normal = section_member(fields, "normal"@);
            let test = section_member(fields, "test"@);
            let generated = section_member(fields, "generated"@);
            if title is Err {
                Err(title->Err_0)
            } else if timedout is Err {
                Err(timedout->Err_0)
            } else if normal is Err {
                Err(normal->Err_0)
            } else if test is Err {
                Err(test->Err_0)
            } else if generated is Err {
                Err(generated->Err_0)
            } else {
                Ok(
                    ResponseView {
                        title: title->Ok_0,
                        timedout: timedout->Ok_0,
                        normal: normal->Ok_0,
                        test: test->Ok_0,
                        generated: generated->Ok_0,
                    },
                )
            }
        },
        _ => Err(DecodeErrorView::MalformedPayload),
    }
}

impl Matches {
    /// Decodes a section from the members of its object, in the order of the
    /// document.
    pub fn from_members(members: &Vec<(String, Json)>) -> (matches: Result<Matches, DecodeError>)
        ensures
            outcome(matches) == section_of(members_view(members@)),
    {
        let ghost fields = members_view(members@);
        let mut matches = Matches::default();
        let mut i: usize = 0;
        assert(fields.take(0) =~= Seq::<(Seq<char>, JsonView)>::empty());
        while i < members.len()
            invariant
                i <= members.len(),
                fields == members_view(members@),
                section_of(fields.take(i as int)) == Ok::<MatchesView, DecodeErrorView>(matches@),
            decreases members.len() - i,
        {
            proof {
                let next = fields.take(i + 1);
                assert(next.drop_last() =~= fields.take(i as int));
                assert(next.last() == fields[i as int]);
                if member_absorbed(matches@, fields[i as int].0, fields[i as int].1) is Err {
                    lemma_section_error_stays(MatchesView::empty(), fields, i + 1);
                }
            }
            let key = members[i].0.as_str();
            match classify(key) {
                CategoryTag::Unknown(name) => {
                    return Err(DecodeError::UnrecognizedField(name));
                },
                tag => {
                    let groups = RawMatch::list_from_json(&members[i].1, key)?;
                    matches.file(tag, groups)?;
                },
            }
            i += 1;
        }
        assert(fields.take(i as int) =~= fields);
        Ok(matches)
    }

    /// Decodes a section from a document of its own.
    pub fn from_json(json: &Json) -> (matches: Result<Matches, DecodeError>)
        ensures
            outcome(matches) == section_document(json@),
    {
        match json {
            Json::Object(members) => {
                proof {
                    json.lemma_view();
                }
                Matches::from_members(members)
            },
            _ => Err(DecodeError::MalformedPayload),
        }
    }
}

/// Reads the section that the member `name` holds, if it is there.
fn read_section(members: &Vec<(String, Json)>, name: &str) -> (section: Result<
    Option<Matches>,
    DecodeError,
>)
    ensures
        outcome(section) == section_member(members_view(members@), name@),
{
    match Json::member(members, name) {
        None => Ok(None),
        Some(Json::Null) => Ok(None),
        Some(Json::Object(inner)) => {
            proof {
                Json::Object(*inner).lemma_view();
            }
            Ok(Some(Matches::from_members(inner)?))
        },
        _ => Err(DecodeError::SchemaViolation(name.to_owned())),
    }
}

impl Response {
    /// Decodes a response from a document. All three sections are looked for.
    pub fn from_json(json: &Json) -> (response: Result<Response, DecodeError>)
        ensures
            outcome(response) == response_of(json@),
    {
        match json {
            Json::Object(members) => {
                proof {
                    json.lemma_view();
                }
                let title = read_text(members, "*title*")?;
                let timedout = read_flag(members, "*timedout*")?;
                let normal = read_section(members, "normal")?;
                let test = read_section(members, "test")?;
                let generated = read_section(members, "generated")?;
                Ok(Response { title, timedout, normal, test, generated })
            },
            _ => Err(DecodeError::MalformedPayload),
        }
    }
}

/// A line that was decoded holds no sentinel: the lines around the match are
/// absent or not empty, and the context is absent or has both fields filled.
pub proof fn decoded_line_is_normal(json: JsonView)
    ensures
        line_of(json) matches Ok(line) ==> line.normal(),
{
}

/// A member of a section named `Definitions (`, a symbol that is not empty,
/// `)` puts the files of its groups under that symbol in the definitions, and
/// leaves the rest of the section as it was. Where the value cannot be
/// decoded, that is the error.
pub proof fn definitions_member_is_filed(matches: MatchesView, name: Seq<char>, value: JsonView)
    requires
        name.len() > 0,
    ensures
        member_absorbed(matches, "Definitions ("@ + name + ")"@, value) == match groups_of(
            value,
            "Definitions ("@ + name + ")"@,
        ) {
            Ok(groups) => Ok::<MatchesView, DecodeErrorView>(
                MatchesView {
                    definitions: matches.definitions.insert(name, crate::raw::file_map(groups)),
                    ..matches
                },
            ),
            Err(error) => Err(error),
        },
{
    crate::category::definitions_name_is_recognized(name);
}

/// A member of a section whose name is not recognized is turned down,
/// whatever its value, and the error carries the name.
pub proof fn unknown_member_is_refused(matches: MatchesView, key: Seq<char>, value: JsonView)
    requires
        category_of(key) is Unknown,
    ensures
        member_absorbed(matches, key, value) == Err::<MatchesView, DecodeErrorView>(
            DecodeErrorView::UnrecognizedField(key),
        ),
{
}

/// A section with a member whose name is not recognized is turned down: no
/// such member is passed over. Where the members before it are accepted, the
/// error carries that name.
pub proof fn section_with_unknown_member_is_refused(fields: Seq<(Seq<char>, JsonView)>, i: int)
    requires
        0 <= i < fields.len(),
        category_of(fields[i].0) is Unknown,
    ensures
        section_of(fields) is Err,
        section_of(fields.take(i)) is Ok ==> section_of(fields) == Err::<
            MatchesView,
            DecodeErrorView,
        >(DecodeErrorView::UnrecognizedField(fields[i].0)),
{
    let upto = fields.take(i + 1);
    assert(upto.drop_last() =~= fields.take(i));
    assert(upto.last() == fields[i]);
    lemma_section_error_stays(MatchesView::empty(), fields, i + 1);
}

/// No symbol of a decoded section is the empty string.
pub proof fn section_symbols_are_never_empty(fields: Seq<(Seq<char>, JsonView)>)
    ensures
        section_of(fields) matches Ok(matches) ==> matches.named(),
{
    lemma_section_keeps_symbols_named(MatchesView::empty(), fields);
}

/// Taking in members leaves no symbol empty.
proof fn lemma_section_keeps_symbols_named(
    matches: MatchesView,
    fields: Seq<(Seq<char>, JsonView)>,
)
    requires
        matches.named(),
    ensures
        section_from(matches, fields) matches Ok(after) ==> after.named(),
    decreases fields.len(),
{
    if fields.len() > 0 {
        lemma_section_keeps_symbols_named(matches, fields.drop_last());
        crate::category::category_is_cut_from_the_name(fields.last().0);
    }
}

/// A section is decoded member by member as a list of decoded members is
/// taken in: where the value of each member stands for the groups of the
/// entry at its place, under the same name, both give the same section or
/// the same error.
pub proof fn section_agrees_with_entries(
    matches: MatchesView,
    fields: Seq<(Seq<char>, JsonView)>,
    entries: Seq<(Seq<char>, Seq<RawMatchView>)>,
)
    requires
        fields.len() == entries.len(),
        forall|i: int|
            0 <= i < fields.len() ==> (#[trigger] fields[i]).0 == entries[i].0 && groups_of(
                fields[i].1,
                fields[i].0,
            ) == Ok::<Seq<RawMatchView>, DecodeErrorView>(entries[i].1),
    ensures
        section_from(matches, fields) == crate::matches::absorbed_all(matches, entries),
    decreases fields.len(),
{
    if fields.len() > 0 {
        let last: int = fields.len() - 1;
        assert(fields[last].0 == entries[last].0);
        assert forall|i: int| 0 <= i < fields.drop_last().len() implies (
        #[trigger] fields.drop_last()[i]).0 == entries.drop_last()[i].0 && groups_of(
            fields.drop_last()[i].1,
            fields.drop_last()[i].0,
        ) == Ok::<Seq<RawMatchView>, DecodeErrorView>(entries.drop_last()[i].1) by {
            assert(fields.drop_last()[i] == fields[i]);
        }
        section_agrees_with_entries(matches, fields.drop_last(), entries.drop_last());
    }
}

/// What was gathered is as long as the list, and each value is the value of
/// the result at its place.
pub proof fn lemma_gathered_values<T>(results: Seq<Result<T, DecodeErrorView>>)
    ensures
        gathered(results) matches Ok(values) ==> values.len() == results.len() && forall|i: int|
            0 <= i < results.len() ==> results[i] == Ok::<T, DecodeErrorView>(values[i]),
    decreases results.len(),
{
    if results.len() > 0 {
        lemma_gathered_values(results.drop_last());
        if let Ok(values) = gathered(results) {
            let front = gathered(results.drop_last())->Ok_0;
            assert forall|i: int| 0 <= i < results.len() implies results[i] == Ok::<
                T,
                DecodeErrorView,
            >(values[i]) by {
                if i < results.len() - 1 {
                    assert(results.drop_last()[i] == results[i]);
                    assert(values[i] == front[i]);
                }
            }
        }
    }
}

/// The lines of a decoded group hold no sentinel.
pub proof fn decoded_group_is_normal(json: JsonView)
    ensures
        group_of(json) matches Ok(group) ==> lines_normal(group.lines),
{
    if let Ok(group) = group_of(json) {
        let items = member(json->Object_0, "lines"@)->0->Array_0;
        let results = Seq::new(items.len(), |i: int| line_of(items[i]));
        lemma_gathered_values(results);
        assert forall|i: int| 0 <= i < group.lines.len() implies (
        #[trigger] group.lines[i]).normal() by {
            assert(results[i] == line_of(items[i]));
            decoded_line_is_normal(items[i]);
        }
    }
}

/// The lines of decoded groups hold no sentinel.
pub proof fn decoded_groups_are_normal(json: JsonView, key: Seq<char>)
    ensures
        groups_of(json, key) matches Ok(groups) ==> groups_normal(groups),
{
    if let Ok(groups) = groups_of(json, key) {
        let items = json->Array_0;
        let results = Seq::new(items.len(), |i: int| group_of(items[i]));
        lemma_gathered_values(results);
        assert forall|i: int| 0 <= i < groups.len() implies lines_normal(
            (#[trigger] groups[i]).lines,
        ) by {
            assert(results[i] == group_of(items[i]));
            decoded_group_is_normal(items[i]);
        }
    }
}

/// Taking in members leaves no sentinel in the section.
proof fn lemma_section_stays_normal(matches: MatchesView, fields: Seq<(Seq<char>, JsonView)>)
    requires
        matches.normal(),
    ensures
        section_from(matches, fields) matches Ok(after) ==> after.normal(),
    decreases fields.len(),
{
    if fields.len() > 0 {
        lemma_section_stays_normal(matches, fields.drop_last());
        if let Ok(so_far) = section_from(matches, fields.drop_last()) {
            let key = fields.last().0;
            if let Ok(groups) = groups_of(fields.last().1, key) {
                decoded_groups_are_normal(fields.last().1, key);
                filing_keeps_the_section_normal(so_far, category_of(key), groups);
            }
        }
    }
}

/// A decoded section holds no sentinel: no lines around a match that are
/// empty, and no context of which a field is empty.
pub proof fn decoded_section_is_normal(fields: Seq<(Seq<char>, JsonView)>)
    ensures
        section_of(fields) matches Ok(matches) ==> matches.normal(),
{
    lemma_section_stays_normal(MatchesView::empty(), fields);
}

/// A decoded response holds no sentinel, and none of its symbols is the empty
/// string.
pub proof fn decoded_response_is_normal(json: JsonView)
    ensures
        response_of(json) matches Ok(response) ==> response.normal(),
{
    if let JsonView::Object(fields) = json {
        if let Some(JsonView::Object(inner)) = member(fields, "normal"@) {
            decoded_section_is_normal(inner);
            section_symbols_are_never_empty(inner);
        }
        if let Some(JsonView::Object(inner)) = member(fields, "test"@) {
            decoded_section_is_normal(inner);
            section_symbols_are_never_empty(inner);
        }
        if let Some(JsonView::Object(inner)) = member(fields, "generated"@) {
            decoded_section_is_normal(inner);
            section_symbols_are_never_empty(inner);
        }
    }
}

} // verus!
