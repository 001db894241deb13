//! The JSON values that a schema document is decoded from.

use vstd::prelude::*;

verus! {

/// A JSON value. The entries of an object are kept in the order of the
/// document, and a name may occur more than once among them.
#[derive(Debug, PartialEq, Eq)]
pub enum Json {
    Null,
    Bool(bool),
    /// A number without fraction or exponent.
    Int(i128),
    /// Any other number, kept as its text.
    Decimal(String),
    Str(String),
    Array(Vec<Json>),
    Object(Vec<(String, Json)>),
}

/// The mathematical value of a [`Json`].
pub enum JsonView {
    Null,
    Bool(bool),
    Int(int),
    Decimal(Seq<char>),
    Str(Seq<char>),
    Array(Seq<JsonView>),
    Object(Entries),
}

/// The entries of an object: each a name with the value under it, in the
/// order of the document.
pub type Entries = Seq<(Seq<char>, JsonView)>;

/// The seven shapes a JSON value can have.
#[derive(Debug, Clone, Copy, PartialEq, Eq, Structural)]
pub enum Shape {
    Null,
    Bool,
    Int,
    Decimal,
    Str,
    Array,
    Object,
}

impl Shape {
    /// The shape, in words.
    pub open spec fn words(self) -> Seq<char> {
        match self {
            Shape::Null => "null"@,
            Shape::Bool => "a boolean"@,
            Shape::Int => "an integer"@,
            Shape::Decimal => "a number with a fraction or an exponent"@,
            Shape::Str => "a string"@,
            Shape::Array => "an array"@,
            Shape::Object => "an object"@,
        }
    }

    /// The shape, in words.
    pub fn in_words(&self) -> (res: &'static str)
        ensures
            res@ == self.words(),
    {
        match self {
            Shape::Null => "null",
            Shape::Bool => "a boolean",
            Shape::Int => "an integer",
            Shape::Decimal => "a number with a fraction or an exponent",
            Shape::Str => "a string",
            Shape::Array => "an array",
            Shape::Object => "an object",
        }
    }
}

impl JsonView {
    /// The shape of this value.
    pub open spec fn shape(self) -> Shape {
        match self {
            JsonView::Null => Shape::Null,
            JsonView::Bool(_) => Shape::Bool,
            JsonView::Int(_) => Shape::Int,
            JsonView::Decimal(_) => Shape::Decimal,
            JsonView::Str(_) => Shape::Str,
            JsonView::Array(_) => Shape::Array,
            JsonView::Object(_) => Shape::Object,
        }
    }
}

impl DeepView for Json {
    type V = JsonView;

    /// The value without its representation: an array is the sequence of its
    /// items, an object the sequence of its entries, each a name with the
    /// value under it.
    open spec fn deep_view(&self) -> JsonView
        decreases self,
    {
        match self {
            Json::Null => JsonView::Null,
            Json::Bool(b) => JsonView::Bool(*b),
            Json::Int(n) => JsonView::Int(*n as int),
            Json::Decimal(text) => JsonView::Decimal(text@),
            Json::Str(text) => JsonView::Str(text@),
            Json::Array(items) => JsonView::Array(
                Seq::new(
                    items@.len(),
                    |i: int|
                        if 0 <= i < items@.len() {
                            items@[i].deep_view()
                        } else {
                            JsonView::Null
                        },
                ),
            ),
            Json::Object(entries) => JsonView::Object(
                Seq::new(
                    entries@.len(),
                    |i: int|
                        (
                            entries@[i].0@,
                            if 0 <= i < entries@.len() {
                                entries@[i].1.deep_view()
                            } else {
                                JsonView::Null
                            },
                        ),
                ),
            ),
        }
    }
}

impl Clone for Json {
    /// A value that stands for the same JSON value.
    fn clone(&self) -> (res: Json)
        ensures
            res.deep_view() == self.deep_view(),
        decreases self,
    {
        match self {
            Json::Null => Json::Null,
            Json::Bool(b) => Json::Bool(*b),
            Json::Int(n) => Json::Int(*n),
            Json::Decimal(text) => Json::Decimal(text.clone()),
            Json::Str(text) => Json::Str(text.clone()),
            Json::Array(items) => {
                let mut copy: Vec<Json> = Vec::new();
                let mut i: usize = 0;
                assert(forall|k: int|
                    0 <= k < items@.len() ==> decreases_to!(self => #[trigger] items@[k]));
                while i < items.len()
                    invariant
                        i <= items@.len(),
                        copy@.len() == i,
                        forall|k: int|
                            0 <= k < items@.len() ==> decreases_to!(self => #[trigger] items@[k]),
                        forall|k: int|
                            0 <= k < i ==> (#[trigger] copy@[k]).deep_view()
                                == items@[k].deep_view(),
                    decreases items@.len() - i,
                {
                    copy.push(items[i].clone());
                    i = i + 1;
                }
                let res = Json::Array(copy);
                proof {
                    res.lemma_parts();
                    self.lemma_parts();
                    assert(copy.deep_view() =~= items.deep_view());
                }
                res
            },
            Json::Object(entries) => {
                let mut copy: Vec<(String, Json)> = Vec::new();
                let mut i: usize = 0;
                assert(forall|k: int|
                    0 <= k < entries@.len() ==> decreases_to!(self => (#[trigger] entries@[k]).1));
                while i < entries.len()
                    invariant
                        i <= entries@.len(),
                        copy@.len() == i,
                        forall|k: int|
                            0 <= k < entries@.len() ==> decreases_to!(
                                self => (#[trigger] entries@[k]).1
                            ),
                        forall|k: int|
                            0 <= k < i ==> (#[trigger] copy@[k]).deep_view()
                                == entries@[k].deep_view(),
                    decreases entries@.len() - i,
                {
                    copy.push((entries[i].0.clone(), entries[i].1.clone()));
                    i = i + 1;
                }
                let res = Json::Object(copy);
                proof {
                    res.lemma_parts();
                    self.lemma_parts();
                    assert(copy.deep_view() =~= entries.deep_view());
                }
                res
            },
        }
    }
}

impl Json {
    /// The value of an array is the sequence of the values of its items, and
    /// the value of an object the sequence of the values of its entries.
    pub proof fn lemma_parts(&self)
        ensures
            self matches Json::Array(items) ==> self.deep_view() == JsonView::Array(
                items.deep_view(),
            ),
            self matches Json::Object(entries) ==> self.deep_view() == JsonView::Object(
                entries.deep_view(),
            ),
    {
        match self {
            Json::Array(items) => {
                assert(self.deep_view()->Array_0 =~= items.deep_view());
            },
            Json::Object(entries) => {
                assert forall|i: int| 0 <= i < entries@.len() implies (
                #[trigger] entries.deep_view()[i]) == (
                    entries@[i].0@,
                    entries@[i].1.deep_view(),
                ) by {
                    assert(entries.deep_view()[i] == entries@[i].deep_view());
                }
                assert(self.deep_view()->Object_0 =~= entries.deep_view());
            },
            _ => {},
        }
    }

    /// The shape of this value.
    pub fn shape(&self) -> (res: Shape)
        ensures
            res == self.deep_view().shape(),
    {
        match self {
            Json::Null => Shape::Null,
            Json::Bool(_) => Shape::Bool,
            Json::Int(_) => Shape::Int,
            Json::Decimal(_) => Shape::Decimal,
            Json::Str(_) => Shape::Str,
            Json::Array(_) => Shape::Array,
            Json::Object(_) => Shape::Object,
        }
    }
}

} // verus!
