//! A JSON document as plain data.

use vstd::prelude::*;
use vstd::std_specs::cmp::PartialEqSpecImpl;
use crate::text::same_text;

verus! {

/// A JSON document.
#[derive(Debug, Eq)]
pub enum Json {
    /// `null`.
    Null,
    /// `true` or `false`.
    Bool(bool),
    /// A number. A whole number from 0 to 2^64 - 1 is kept; of any other
    /// number only that it is one.
    Number(Option<u64>),
    /// A string.
    Text(String),
    /// An array: its items, in the order of the document.
    Array(Vec<Json>),
    /// An object: its members, name and value, in the order of the document.
    Object(Vec<(String, Json)>),
}

/// What a [`Json`] stands for.
pub enum JsonView {
    Null,
    Bool(bool),
    Number(Option<u64>),
    Text(Seq<char>),
    Array(Seq<JsonView>),
    Object(Seq<(Seq<char>, JsonView)>),
}

/// What a document stands for: the same document, its strings as sequences
/// of characters and its arrays and objects as sequences.
pub open spec fn document(json: Json) -> JsonView
    decreases json,
{
    match json {
        Json::Null => JsonView::Null,
        Json::Bool(flag) => JsonView::Bool(flag),
        Json::Number(number) => JsonView::Number(number),
        Json::Text(text) => JsonView::Text(text@),
        Json::Array(items) => JsonView::Array(
            Seq::new(
                items@.len(),
                |i: int|
                    if 0 <= i < items@.len() {
                        document(items@[i])
                    } else {
                        JsonView::Null
                    },
            ),
        ),
        Json::Object(members) => JsonView::Object(
            Seq::new(
                members@.len(),
                |i: int|
                    if 0 <= i < members@.len() {
                        (members@[i].0@, document(members@[i].1))
                    } else {
                        (Seq::empty(), JsonView::Null)
                    },
            ),
        ),
    }
}

impl View for Json {
    type V = JsonView;

    open spec fn view(&self) -> JsonView {
        document(*self)
    }
}

impl DeepView for Json {
    type V = JsonView;

    open spec fn deep_view(&self) -> JsonView {
        self@
    }
}

/// Whether two documents are the same: the same values in the same order.
fn same_document(a: &Json, b: &Json) -> (same: bool)
    ensures
        same == (a@ == b@),
    decreases a,
{
    match (a, b) {
        (Json::Null, Json::Null) => true,
        (Json::Bool(x), Json::Bool(y)) => *x == *y,
        (Json::Number(x), Json::Number(y)) => match (x, y) {
            (Some(m), Some(n)) => *m == *n,
            (None, None) => true,
            _ => false,
        },
        (Json::Text(x), Json::Text(y)) => same_text(x.as_str(), y.as_str()),
        (Json::Array(x), Json::Array(y)) => {
            proof {
                a.lemma_view();
                b.lemma_view();
            }
            if x.len() != y.len() {
                assert(items_view(x@).len() != items_view(y@).len());
                return false;
            }
            let mut i: usize = 0;
            while i < x.len()
                invariant
                    i <= x.len(),
                    x.len() == y.len(),
                    a == Json::Array(*x),
                    a@ == JsonView::Array(items_view(x@)),
                    b@ == JsonView::Array(items_view(y@)),
                    forall|j: int| 0 <= j < i ==> x@[j]@ == y@[j]@,
                decreases x.len() - i,
            {
                if !same_document(&x[i], &y[i]) {
                    assert(items_view(x@)[i as int] != items_view(y@)[i as int]);
                    return false;
                }
                i += 1;
            }
            assert(items_view(x@) =~= items_view(y@));
            true
        },
        (Json::Object(x), Json::Object(y)) => {
            proof {
                a.lemma_view();
                b.lemma_view();
            }
            if x.len() != y.len() {
                assert(members_view(x@).len() != members_view(y@).len());
                return false;
            }
            let mut i: usize = 0;
            while i < x.len()
                invariant
                    i <= x.len(),
                    x.len() == y.len(),
                    a == Json::Object(*x),
                    a@ == JsonView::Object(members_view(x@)),
                    b@ == JsonView::Object(members_view(y@)),
                    forall|j: int|
                        0 <= j < i ==> x@[j].0@ == y@[j].0@ && x@[j].1@ == y@[j].1@,
                decreases x.len() - i,
            {
                if !same_text(x[i].0.as_str(), y[i].0.as_str()) || !same_document(
                    &x[i].1,
                    &y[i].1,
                ) {
                    assert(members_view(x@)[i as int] != members_view(y@)[i as int]);
                    return false;
                }
                i += 1;
            }
            assert(members_view(x@) =~= members_view(y@));
            true
        },
        _ => false,
    }
}

impl PartialEq for Json {
    fn eq(&self, other: &Self) -> (same: bool) {
        same_document(self, other)
    }
}

impl PartialEqSpecImpl for Json {
    open spec fn obeys_eq_spec() -> bool {
        true
    }

    open spec fn eq_spec(&self, other: &Self) -> bool {
        self@ == other@
    }
}

/// The value of the member named `name`, if there is one. Of several members
/// with one name the last counts.
pub open spec fn member(fields: Seq<(Seq<char>, JsonView)>, name: Seq<char>) -> Option<JsonView>
    decreases fields.len(),
{
    if fields.len() == 0 {
        None
    } else if fields.last().0 == name {
        Some(fields.last().1)
    } else {
        member(fields.drop_last(), name)
    }
}

/// What the members of an object stand for.
pub open spec fn members_view(members: Seq<(String, Json)>) -> Seq<(Seq<char>, JsonView)> {
    Seq::new(members.len(), |i: int| (members[i].0@, members[i].1@))
}

/// What the items of an array stand for.
pub open spec fn items_view(items: Seq<Json>) -> Seq<JsonView> {
    Seq::new(items.len(), |i: int| items[i]@)
}

impl Json {
    /// The items of an array are seen one by one, and so are the members of
    /// an object.
    pub proof fn lemma_view(self)
        ensures
            self matches Json::Array(items) ==> self@ == JsonView::Array(items_view(items@)),
            self matches Json::Object(members) ==> self@ == JsonView::Object(
                members_view(members@),
            ),
    {
        match self {
            Json::Array(items) => {
                assert(self@->Array_0 =~= items_view(items@));
            },
            Json::Object(members) => {
                assert(self@->Object_0 =~= members_view(members@));
            },
            _ => {},
        }
    }

    /// The value of the member named `name` among the members of an object.
    pub fn member<'a>(members: &'a Vec<(String, Json)>, name: &str) -> (value: Option<&'a Json>)
        ensures
            match value {
                Some(value) => member(members_view(members@), name@) == Some(value@),
                None => member(members_view(members@), name@) is None,
            },
    {
        let ghost fields = members_view(members@);
        let mut i: usize = members.len();
        assert(fields.take(i as int) =~= fields);
        while i > 0
            invariant
                i <= members.len(),
                fields == members_view(members@),
                member(fields, name@) == member(fields.take(i as int), name@),
            decreases i,
        {
            proof {
                let front = fields.take(i as int);
                assert(front.drop_last() =~= fields.take(i - 1));
                assert(front.last() == fields[i - 1]);
            }
            i -= 1;
            if same_text(members[i].0.as_str(), name) {
                return Some(&members[i].1);
            }
        }
        None
    }
}

} // verus!
