//! The grammar of the member names of a section.
//!
//! A section names its categories in its member names: `Files`,
//! `Textual Occurrences`, and `Definitions (...)`, `Declarations (...)` and
//! `Uses (...)` with a symbol between the brackets. The symbol is what stands
//! between the opening bracket and the closing bracket at the end of the name,
//! brackets of its own included, and it is never empty. The match is exact
//! and tells upper case from lower case; a name that matches nothing is
//! unknown, and the decoders turn it down.

use vstd::prelude::*;
use vstd::std_specs::cmp::PartialEqSpecImpl;
use crate::text::{chars_of, matches_at, same_text};

verus! {

/// What a member name of a section says.
#[derive(Debug, Eq)]
pub enum CategoryTag {
    /// `Files`: file names that match.
    FilesCategory,
    /// `Textual Occurrences`: matches in plain text.
    TextCategory,
    /// `Definitions (symbol)`: the definitions of a symbol.
    DefinitionsCategory(String),
    /// `Declarations (symbol)`: the declarations of a symbol.
    DeclarationsCategory(String),
    /// `Uses (symbol)`: the uses of a symbol.
    UsesCategory(String),
    /// A name that follows no pattern. Carries the name.
    Unknown(String),
}

/// What a [`CategoryTag`] stands for.
pub enum CategoryTagView {
    FilesCategory,
    TextCategory,
    DefinitionsCategory(Seq<char>),
    DeclarationsCategory(Seq<char>),
    UsesCategory(Seq<char>),
    Unknown(Seq<char>),
}

impl View for CategoryTag {
    type V = CategoryTagView;

    open spec fn view(&self) -> CategoryTagView {
        match self {
            CategoryTag::FilesCategory => CategoryTagView::FilesCategory,
            CategoryTag::TextCategory => CategoryTagView::TextCategory,
            CategoryTag::DefinitionsCategory(name) => CategoryTagView::DefinitionsCategory(name@),
            CategoryTag::DeclarationsCategory(name) => CategoryTagView::DeclarationsCategory(
                name@,
            ),
            CategoryTag::UsesCategory(name) => CategoryTagView::UsesCategory(name@),
            CategoryTag::Unknown(key) => CategoryTagView::Unknown(key@),
        }
    }
}

impl PartialEq for CategoryTag {
    fn eq(&self, other: &Self) -> (same: bool) {
        match (self, other) {
            (CategoryTag::FilesCategory, CategoryTag::FilesCategory) => true,
            (CategoryTag::TextCategory, CategoryTag::TextCategory) => true,
            (CategoryTag::DefinitionsCategory(a), CategoryTag::DefinitionsCategory(b)) => same_text(
                a.as_str(),
                b.as_str(),
            ),
            (
                CategoryTag::DeclarationsCategory(a),
                CategoryTag::DeclarationsCategory(b),
            ) => same_text(a.as_str(), b.as_str()),
            (CategoryTag::UsesCategory(a), CategoryTag::UsesCategory(b)) => same_text(
                a.as_str(),
                b.as_str(),
            ),
            (CategoryTag::Unknown(a), CategoryTag::Unknown(b)) => same_text(
                a.as_str(),
                b.as_str(),
            ),
            _ => false,
        }
    }
}

impl PartialEqSpecImpl for CategoryTag {
    open spec fn obeys_eq_spec() -> bool {
        true
    }

    open spec fn eq_spec(&self, other: &Self) -> bool {
        self@ == other@
    }
}

/// The symbol of a name of the form `opening`, symbol, `)`: what stands
/// between the opening and the closing bracket at the end of the name. There
/// is none where the name has another form or nothing stands between the two.
pub open spec fn symbol_between(key: Seq<char>, opening: Seq<char>) -> Option<Seq<char>> {
    if key.len() > opening.len() + 1 && key.last() == ')' && key.subrange(0, opening.len() as int)
        == opening {
        Some(key.subrange(opening.len() as int, key.len() - 1))
    } else {
        None
    }
}

/// The category that a member name stands for. The two fixed names come
/// first, then the three patterns.
pub open spec fn category_of(key: Seq<char>) -> CategoryTagView {
    if key == "Files"@ {
        CategoryTagView::FilesCategory
    } else if key == "Textual Occurrences"@ {
        CategoryTagView::TextCategory
    } else if let Some(name) = symbol_between(key, "Definitions ("@) {
        CategoryTagView::DefinitionsCategory(name)
    } else if let Some(name) = symbol_between(key, "Declarations ("@) {
        CategoryTagView::DeclarationsCategory(name)
    } else if let Some(name) = symbol_between(key, "Uses ("@) {
        CategoryTagView::UsesCategory(name)
    } else {
        CategoryTagView::Unknown(key)
    }
}

/// The symbol between `opening` and the closing bracket at the end of `key`,
/// whose characters are `chars`.
fn symbol_of(key: &str, chars: &Vec<char>, opening: &str) -> (name: Option<String>)
    requires
        chars@ == key@,
    ensures
        name.deep_view() == symbol_between(key@, opening@),
{
    let start = chars_of(opening);
    let end: usize = chars.len();
    if end > 0 && start.len() < end - 1 && chars[end - 1] == ')' && matches_at(chars, 0, &start) {
        Some(key.substring_char(start.len(), end - 1).to_owned())
    } else {
        None
    }
}

/// Reads a member name of a section.
pub fn classify(key: &str) -> (tag: CategoryTag)
    ensures
        tag@ == category_of(key@),
{
    if same_text(key, "Files") {
        return CategoryTag::FilesCategory;
    }
    if same_text(key, "Textual Occurrences") {
        return CategoryTag::TextCategory;
    }
    let chars = chars_of(key);
    if let Some(name) = symbol_of(key, &chars, "Definitions (") {
        return CategoryTag::DefinitionsCategory(name);
    }
    if let Some(name) = symbol_of(key, &chars, "Declarations (") {
        return CategoryTag::DeclarationsCategory(name);
    }
    if let Some(name) = symbol_of(key, &chars, "Uses (") {
        return CategoryTag::UsesCategory(name);
    }
    CategoryTag::Unknown(key.to_owned())
}

/// A name made of `Definitions (`, a symbol that is not empty, and `)` is read
/// as the definitions of that symbol.
pub proof fn definitions_name_is_recognized(name: Seq<char>)
    requires
        name.len() > 0,
    ensures
        category_of("Definitions ("@ + name + ")"@) == CategoryTagView::DefinitionsCategory(name),
{
    reveal_strlit("Files");
    reveal_strlit("Textual Occurrences");
    reveal_strlit("Definitions (");
    reveal_strlit(")");
    let key = "Definitions ("@ + name + ")"@;
    assert(key.len() == 13 + name.len() + 1);
    assert(key.last() == ')');
    assert(key.subrange(0, 13) =~= "Definitions ("@);
    assert(key.subrange(13, key.len() - 1) =~= name);
    assert(key[0] == 'D');
}

/// The same of `Declarations (`.
pub proof fn declarations_name_is_recognized(name: Seq<char>)
    requires
        name.len() > 0,
    ensures
        category_of("Declarations ("@ + name + ")"@) == CategoryTagView::DeclarationsCategory(
            name,
        ),
{
    reveal_strlit("Files");
    reveal_strlit("Textual Occurrences");
    reveal_strlit("Definitions (");
    reveal_strlit("Declarations (");
    reveal_strlit(")");
    let key = "Declarations ("@ + name + ")"@;
    assert(key.len() == 14 + name.len() + 1);
    assert(key.last() == ')');
    assert(key.subrange(0, 14) =~= "Declarations ("@);
    assert(key.subrange(14, key.len() - 1) =~= name);
    assert(key[0] == 'D');
    assert(key[2] == 'c');
    assert(key.subrange(0, 13)[2] == 'c');
}

/// The same of `Uses (`.
pub proof fn uses_name_is_recognized(name: Seq<char>)
    requires
        name.len() > 0,
    ensures
        category_of("Uses ("@ + name + ")"@) == CategoryTagView::UsesCategory(name),
{
    reveal_strlit("Files");
    reveal_strlit("Textual Occurrences");
    reveal_strlit("Definitions (");
    reveal_strlit("Declarations (");
    reveal_strlit("Uses (");
    reveal_strlit(")");
    let key = "Uses ("@ + name + ")"@;
    assert(key.len() == 6 + name.len() + 1);
    assert(key.last() == ')');
    assert(key.subrange(0, 6) =~= "Uses ("@);
    assert(key.subrange(6, key.len() - 1) =~= name);
    assert(key[0] == 'U');
    if key.len() > 14 {
        assert(key.subrange(0, 13)[0] == 'U');
        assert(key.subrange(0, 14)[0] == 'U');
    }
}

/// Whatever the name, the category keeps its characters: a symbol is a part of
/// the name, and an unknown name is carried whole.
pub proof fn category_is_cut_from_the_name(key: Seq<char>)
    ensures
        match category_of(key) {
            CategoryTagView::FilesCategory => key == "Files"@,
            CategoryTagView::TextCategory => key == "Textual Occurrences"@,
            CategoryTagView::DefinitionsCategory(name) => name.len() > 0 && key
                == "Definitions ("@ + name + ")"@,
            CategoryTagView::DeclarationsCategory(name) => name.len() > 0 && key
                == "Declarations ("@ + name + ")"@,
            CategoryTagView::UsesCategory(name) => name.len() > 0 && key == "Uses ("@ + name
                + ")"@,
            CategoryTagView::Unknown(name) => name == key,
        },
{
    reveal_strlit(")");
    match category_of(key) {
        CategoryTagView::DefinitionsCategory(name) => {
            assert(key =~= "Definitions ("@ + name + ")"@);
        },
        CategoryTagView::DeclarationsCategory(name) => {
            assert(key =~= "Declarations ("@ + name + ")"@);
        },
        CategoryTagView::UsesCategory(name) => {
            assert(key =~= "Uses ("@ + name + ")"@);
        },
        _ => {},
    }
}

/// A name follows one of the three patterns: it is made of an opening, a
/// symbol that is not empty, and `)`.
pub open spec fn follows_pattern(key: Seq<char>) -> bool {
    exists|name: Seq<char>|
        name.len() > 0 && (key == "Definitions ("@ + name + ")"@ || key == "Declarations ("@
            + name + ")"@ || key == "Uses ("@ + name + ")"@)
}

/// The names that are not recognized are those that are neither of the two
/// fixed names nor follow one of the three patterns.
pub proof fn unknown_is_what_follows_no_pattern(key: Seq<char>)
    ensures
        category_of(key) is Unknown <==> key != "Files"@ && key != "Textual Occurrences"@
            && !follows_pattern(key),
{
    category_is_cut_from_the_name(key);
    if follows_pattern(key) {
        let name = choose|name: Seq<char>|
            name.len() > 0 && (key == "Definitions ("@ + name + ")"@ || key
                == "Declarations ("@ + name + ")"@ || key == "Uses ("@ + name + ")"@);
        definitions_name_is_recognized(name);
        declarations_name_is_recognized(name);
        uses_name_is_recognized(name);
    }
}

/// Two names that stand for one category are one name: no symbol is read
/// from two different names.
pub proof fn category_tells_the_name(first: Seq<char>, second: Seq<char>)
    requires
        category_of(first) == category_of(second),
    ensures
        first == second,
{
    category_is_cut_from_the_name(first);
    category_is_cut_from_the_name(second);
}

} // verus!
