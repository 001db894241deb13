//! The one way in which decoding fails: a fault at a place in the document.

use vstd::prelude::*;
use vstd::string::StringExecFns;
use crate::decimal::{append_decimal, append_signed_decimal, signed_decimal};
use crate::json::{JsonView, Shape};

verus! {

/// One step on the way from the root of a document to a value in it.
#[derive(Debug, Clone, PartialEq, Eq)]
pub enum Step {
    /// Into the entry of an object with this name.
    Key(String),
    /// Into the item of an array at this position.
    Index(usize),
}

/// The mathematical value of a [`Step`].
pub enum StepView {
    Key(Seq<char>),
    Index(int),
}

impl DeepView for Step {
    type V = StepView;

    open spec fn deep_view(&self) -> StepView {
        match self {
            Step::Key(name) => StepView::Key(name@),
            Step::Index(i) => StepView::Index(*i as int),
        }
    }
}

impl StepView {
    /// The step as a path writes it: `.name` into an object, `[position]`
    /// into an array.
    pub open spec fn text(self) -> Seq<char> {
        match self {
            StepView::Key(name) => "."@ + name,
            StepView::Index(i) => "["@ + signed_decimal(i) + "]"@,
        }
    }
}

impl Step {
    /// Writes the step behind what `out` holds.
    pub fn append_to(&self, out: &mut String)
        ensures
            final(out)@ == old(out)@ + self.deep_view().text(),
    {
        match self {
            Step::Key(name) => {
                out.append(".");
                out.append(name.as_str());
                assert(final(out)@ =~= old(out)@ + ("."@ + name@));
            },
            Step::Index(i) => {
                out.append("[");
                append_decimal(out, *i as u128);
                out.append("]");
                assert(final(out)@ =~= old(out)@ + ("["@ + signed_decimal(*i as int) + "]"@));
            },
        }
    }
}

/// What was found in place of the expected shape.
#[derive(Debug, Clone, PartialEq, Eq)]
pub enum Cause {
    /// An object holds a key that its node does not have.
    UnknownKey(String),
    /// An object holds a key a second time.
    DuplicateKey(String),
    /// An object lacks a key that its node must have.
    MissingKey(&'static str),
    /// A value has another shape than the expected one.
    WrongShape(Shape),
    /// An integer lies outside the range of its field.
    OutOfRange(i128),
    /// A tag or a name stands in no vocabulary of its position.
    UnknownTag(String),
}

/// The mathematical value of a [`Cause`].
pub enum CauseView {
    UnknownKey(Seq<char>),
    DuplicateKey(Seq<char>),
    MissingKey(Seq<char>),
    WrongShape(Shape),
    OutOfRange(int),
    UnknownTag(Seq<char>),
}

impl DeepView for Cause {
    type V = CauseView;

    open spec fn deep_view(&self) -> CauseView {
        match self {
            Cause::UnknownKey(key) => CauseView::UnknownKey(key@),
            Cause::DuplicateKey(key) => CauseView::DuplicateKey(key@),
            Cause::MissingKey(key) => CauseView::MissingKey(key@),
            Cause::WrongShape(shape) => CauseView::WrongShape(*shape),
            Cause::OutOfRange(n) => CauseView::OutOfRange(*n as int),
            Cause::UnknownTag(tag) => CauseView::UnknownTag(tag@),
        }
    }
}

impl CauseView {
    /// The cause, in words.
    pub open spec fn text(self) -> Seq<char> {
        match self {
            CauseView::UnknownKey(key) => "the unknown key `"@ + key + "`"@,
            CauseView::DuplicateKey(key) => "the key `"@ + key + "` a second time"@,
            CauseView::MissingKey(key) => "no key `"@ + key + "`"@,
            CauseView::WrongShape(shape) => shape.words(),
            CauseView::OutOfRange(n) => "the integer "@ + signed_decimal(n),
            CauseView::UnknownTag(tag) => "the unknown name `"@ + tag + "`"@,
        }
    }
}

impl Cause {
    /// Writes the cause in words behind what `out` holds.
    pub fn append_to(&self, out: &mut String)
        ensures
            final(out)@ == old(out)@ + self.deep_view().text(),
    {
        match self {
            Cause::UnknownKey(key) => {
                out.append("the unknown key `");
                out.append(key.as_str());
                out.append("`");
                assert(final(out)@ =~= old(out)@ + ("the unknown key `"@ + key@ + "`"@));
            },
            Cause::DuplicateKey(key) => {
                out.append("the key `");
                out.append(key.as_str());
                out.append("` a second time");
                assert(final(out)@ =~= old(out)@ + ("the key `"@ + key@ + "` a second time"@));
            },
            Cause::MissingKey(key) => {
                out.append("no key `");
                out.append(key);
                out.append("`");
                assert(final(out)@ =~= old(out)@ + ("no key `"@ + key@ + "`"@));
            },
            Cause::WrongShape(shape) => {
                out.append(shape.in_words());
            },
            Cause::OutOfRange(n) => {
                out.append("the integer ");
                append_signed_decimal(out, *n);
                assert(final(out)@ =~= old(out)@ + ("the integer "@ + signed_decimal(*n as int)));
            },
            Cause::UnknownTag(tag) => {
                out.append("the unknown name `");
                out.append(tag.as_str());
                out.append("`");
                assert(final(out)@ =~= old(out)@ + ("the unknown name `"@ + tag@ + "`"@));
            },
        }
    }
}

/// A decoding failure: where in the document the mismatch lies, what was
/// expected there, and what was found.
#[derive(Debug, Clone, PartialEq, Eq)]
pub struct DecodeError {
    /// The steps from the root of the document to the mismatch.
    pub path: Vec<Step>,
    /// A description of the shape that was expected.
    pub expected: &'static str,
    /// What was found instead.
    pub cause: Cause,
}

/// The mathematical value of a [`DecodeError`].
pub struct DecodeErrorView {
    pub path: Seq<StepView>,
    pub expected: Seq<char>,
    pub cause: CauseView,
}

/// Whether `path` leads from `value` to a value inside it: each step by a
/// name into an entry of an object, each step by a position into an item of an
/// array.
pub open spec fn leads(value: JsonView, path: Seq<StepView>) -> bool
    decreases path.len(),
{
    if path.len() == 0 {
        true
    } else {
        match path[0] {
            StepView::Key(name) => value matches JsonView::Object(entries) && exists|i: int|
                0 <= i < entries.len() && (#[trigger] entries[i]).0 == name && leads(
                    entries[i].1,
                    path.drop_first(),
                ),
            StepView::Index(k) => value matches JsonView::Array(items) && 0 <= k < items.len()
                && leads(items[k], path.drop_first()),
        }
    }
}

/// A path that leads from the value of an entry leads from the object, behind
/// the step into that entry.
pub proof fn lemma_leads_through_entry(value: JsonView, i: int, fault: DecodeErrorView)
    requires
        value matches JsonView::Object(entries) && 0 <= i < entries.len() && leads(
            entries[i].1,
            fault.path,
        ),
    ensures
        leads(value, fault.under(StepView::Key(value->Object_0[i].0)).path),
{
    let entries = value->Object_0;
    let path = fault.under(StepView::Key(entries[i].0)).path;
    assert(path.drop_first() =~= fault.path);
    assert(leads(entries[i].1, path.drop_first()));
}

/// A path that leads from an item leads from the array, behind the step to
/// the position of the item.
pub proof fn lemma_leads_through_item(value: JsonView, i: int, fault: DecodeErrorView)
    requires
        value matches JsonView::Array(items) && 0 <= i < items.len() && leads(
            items[i],
            fault.path,
        ),
    ensures
        leads(value, fault.under(StepView::Index(i)).path),
{
    let path = fault.under(StepView::Index(i)).path;
    assert(path.drop_first() =~= fault.path);
}

/// The first `n` steps of a path, written behind `$` for the root.
pub open spec fn path_text(path: Seq<StepView>, n: int) -> Seq<char>
    decreases n,
{
    if n <= 0 {
        "$"@
    } else {
        path_text(path, n - 1) + path[n - 1].text()
    }
}

impl DecodeErrorView {
    /// The place of the fault: the path from the root, written out.
    pub open spec fn place(self) -> Seq<char> {
        path_text(self.path, self.path.len() as int)
    }

    /// The fault in one sentence: the place, what was expected there, and
    /// what was found.
    pub open spec fn text(self) -> Seq<char> {
        "at "@ + path_text(self.path, self.path.len() as int) + ": expected "@ + self.expected
            + ", found "@ + self.cause.text()
    }

    /// A fault at the value that is being decoded itself.
    pub open spec fn here(expected: Seq<char>, cause: CauseView) -> DecodeErrorView {
        DecodeErrorView { path: Seq::empty(), expected, cause }
    }

    /// The same fault, seen from one step further out.
    pub open spec fn under(self, step: StepView) -> DecodeErrorView {
        DecodeErrorView { path: seq![step] + self.path, expected: self.expected, cause: self.cause }
    }
}

impl DeepView for DecodeError {
    type V = DecodeErrorView;

    open spec fn deep_view(&self) -> DecodeErrorView {
        DecodeErrorView {
            path: self.path.deep_view(),
            expected: self.expected@,
            cause: self.cause.deep_view(),
        }
    }
}

impl Cause {
    /// The cause, in words.
    pub fn in_words(&self) -> (res: String)
        ensures
            res@ == self.deep_view().text(),
    {
        let mut out = String::new();
        self.append_to(&mut out);
        assert(out@ =~= self.deep_view().text());
        out
    }
}

impl DecodeError {
    /// Writes the place of the fault behind what `out` holds.
    pub fn append_place_to(&self, out: &mut String)
        ensures
            final(out)@ == old(out)@ + self.deep_view().place(),
    {
        out.append("$");
        let ghost path = self.path.deep_view();
        let mut i: usize = 0;
        while i < self.path.len()
            invariant
                i <= self.path@.len(),
                path == self.path.deep_view(),
                out@ == old(out)@ + path_text(path, i as int),
            decreases self.path@.len() - i,
        {
            self.path[i].append_to(out);
            proof {
                assert(path[i as int] == self.path@[i as int].deep_view());
                assert(out@ =~= old(out)@ + (path_text(path, i as int) + path[i as int].text()));
            }
            i = i + 1;
        }
    }

    /// The place of the fault: the path from the root, written out.
    pub fn place(&self) -> (res: String)
        ensures
            res@ == self.deep_view().place(),
    {
        let mut out = String::new();
        self.append_place_to(&mut out);
        assert(out@ =~= self.deep_view().place());
        out
    }

    /// The fault in one sentence: the place, what was expected there, and
    /// what was found.
    pub fn describe(&self) -> (res: String)
        ensures
            res@ == self.deep_view().text(),
    {
        let mut out = String::from_str("at ");
        self.append_place_to(&mut out);
        out.append(": expected ");
        out.append(self.expected);
        out.append(", found ");
        self.cause.append_to(&mut out);
        out
    }

    /// A fault at the value that is being decoded itself.
    pub fn here(expected: &'static str, cause: Cause) -> (res: DecodeError)
        ensures
            res.deep_view() == DecodeErrorView::here(expected@, cause.deep_view()),
    {
        let res = DecodeError { path: Vec::new(), expected, cause };
        assert(res.path.deep_view() =~= Seq::empty());
        res
    }

    /// The same fault, seen from one step further out.
    pub fn under(self, step: Step) -> (res: DecodeError)
        ensures
            res.deep_view() == self.deep_view().under(step.deep_view()),
    {
        let mut path = self.path;
        let ghost before = path.deep_view();
        let ghost first = step.deep_view();
        path.insert(0, step);
        assert(path.deep_view() =~= seq![first] + before);
        DecodeError { path, expected: self.expected, cause: self.cause }
    }
}

} // verus!
