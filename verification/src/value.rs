//! The self-describing value model the codec materializes and renders.
//!
//! Every application value is expressed as one of a small set of shapes:
//! a scalar (null, boolean, integer, text), a sequence, a mapping, or a
//! tagged variant.  An absent optional value is `Null`; a present one is the
//! inner value itself.  A unit enum variant is its bare tag as text; a
//! variant with a payload is `Tagged`.

use vstd::prelude::*;

verus! {

broadcast use vstd::seq::group_seq_axioms;

/// A decoded or to-be-encoded value.
#[derive(Debug, PartialEq, Eq)]
pub enum Value {
    /// Absence: the null literal family, or `None`, or unit.
    Null,
    /// A boolean.
    Bool(bool),
    /// A signed integer.
    Int(i64),
    /// An unsigned integer too large for `Int` is kept separately.
    UInt(u64),
    /// Scalar text.
    Str(String),
    /// A block sequence.
    Sequence(Vec<Value>),
    /// A block mapping, as key/value pairs in document order (or, for a
    /// decoded struct, in field declaration order).
    Mapping(Vec<Entry>),
    /// An enum variant with a payload, under its tag.
    Tagged(String, Box<Value>),
}

/// One key/value pair of a mapping.
#[derive(Debug, PartialEq, Eq)]
pub struct Entry {
    pub key: Value,
    pub val: Value,
}

/// The mathematical image of a [`Value`].
pub enum ValueView {
    Null,
    Bool(bool),
    Int(i64),
    UInt(u64),
    Str(Seq<char>),
    Sequence(Seq<ValueView>),
    Mapping(Seq<EntryView>),
    Tagged(Seq<char>, Box<ValueView>),
}

/// The mathematical image of an [`Entry`].
pub struct EntryView {
    pub key: ValueView,
    pub val: ValueView,
}

/// The images of a run of sequence elements.
pub open spec fn views_of_values(s: Seq<Value>) -> Seq<ValueView>
    decreases s,
{
    if s.len() == 0 {
        Seq::empty()
    } else {
        views_of_values(s.subrange(0, s.len() - 1)).push(s[s.len() - 1]@)
    }
}

/// The images of a run of mapping entries.
pub open spec fn views_of_entries(s: Seq<Entry>) -> Seq<EntryView>
    decreases s,
{
    if s.len() == 0 {
        Seq::empty()
    } else {
        views_of_entries(s.subrange(0, s.len() - 1)).push(s[s.len() - 1]@)
    }
}

impl View for Value {
    type V = ValueView;

    open spec fn view(&self) -> ValueView
        decreases self,
    {
        match self {
            Value::Null => ValueView::Null,
            Value::Bool(b) => ValueView::Bool(*b),
            Value::Int(n) => ValueView::Int(*n),
            Value::UInt(n) => ValueView::UInt(*n),
            Value::Str(s) => ValueView::Str(s@),
            Value::Sequence(items) => ValueView::Sequence(views_of_values(items@)),
            Value::Mapping(entries) => ValueView::Mapping(views_of_entries(entries@)),
            Value::Tagged(tag, inner) => ValueView::Tagged(tag@, Box::new((**inner)@)),
        }
    }
}

impl View for Entry {
    type V = EntryView;

    open spec fn view(&self) -> EntryView
        decreases self,
    {
        EntryView { key: self.key@, val: self.val@ }
    }
}

/// The element images are the image elements, position by position.
pub proof fn lemma_views_of_values(s: Seq<Value>)
    ensures
        views_of_values(s).len() == s.len(),
        forall|i: int| 0 <= i < s.len() ==> views_of_values(s)[i] == s[i]@,
    decreases s.len(),
{
    if s.len() > 0 {
        let front = s.subrange(0, s.len() - 1);
        lemma_views_of_values(front);
        assert(views_of_values(s) == views_of_values(front).push(s[s.len() - 1]@));
        assert forall|i: int| 0 <= i < s.len() implies views_of_values(s)[i] == s[i]@ by {
            if i < s.len() - 1 {
                assert(views_of_values(s)[i] == views_of_values(front)[i]);
                assert(front[i] == s[i]);
            }
        }
    }
}

/// The entry images are the image entries, position by position.
pub proof fn lemma_views_of_entries(s: Seq<Entry>)
    ensures
        views_of_entries(s).len() == s.len(),
        forall|i: int| 0 <= i < s.len() ==> views_of_entries(s)[i] == s[i]@,
    decreases s.len(),
{
    if s.len() > 0 {
        let front = s.subrange(0, s.len() - 1);
        lemma_views_of_entries(front);
        assert(views_of_entries(s) == views_of_entries(front).push(s[s.len() - 1]@));
        assert forall|i: int| 0 <= i < s.len() implies views_of_entries(s)[i] == s[i]@ by {
            if i < s.len() - 1 {
                assert(views_of_entries(s)[i] == views_of_entries(front)[i]);
                assert(front[i] == s[i]);
            }
        }
    }
}

impl Value {
    /// An owned deep copy of this value, with the same image.
    pub fn duplicate(&self) -> (r: Value)
        ensures
            r@ == self@,
        decreases self,
    {
        match self {
            Value::Null => Value::Null,
            Value::Bool(b) => Value::Bool(*b),
            Value::Int(n) => Value::Int(*n),
            Value::UInt(n) => Value::UInt(*n),
            Value::Str(s) => Value::Str(s.clone()),
            Value::Sequence(items) => {
                let mut out: Vec<Value> = Vec::new();
                let mut i: usize = 0;
                while i < items.len()
                    invariant
                        i <= items@.len(),
                        out@.len() == i,
                        *self == Value::Sequence(*items),
                        forall|k: int| 0 <= k < i ==> out@[k]@ == items@[k]@,
                    decreases items@.len() - i,
                {
                    proof {
                        let f = self->Sequence_0;
                        assert(f == *items);
                        assert(decreases_to!(*self => f));
                        assert(decreases_to!(f => f@));
                        assert(decreases_to!(f@ => f@[i as int]));
                    }
                    let d = items[i].duplicate();
                    out.push(d);
                    i = i + 1;
                }
                proof {
                    lemma_views_of_values(out@);
                    lemma_views_of_values(items@);
                    assert(views_of_values(out@) =~= views_of_values(items@));
                }
                Value::Sequence(out)
            },
            Value::Mapping(entries) => {
                let mut out: Vec<Entry> = Vec::new();
                let mut i: usize = 0;
                while i < entries.len()
                    invariant
                        i <= entries@.len(),
                        out@.len() == i,
                        *self == Value::Mapping(*entries),
                        forall|k: int| 0 <= k < i ==> out@[k]@ == entries@[k]@,
                    decreases entries@.len() - i,
                {
                    proof {
                        let f = self->Mapping_0;
                        assert(f == *entries);
                        assert(decreases_to!(*self => f));
                        assert(decreases_to!(f => f@));
                        assert(decreases_to!(f@ => f@[i as int]));
                        let e = f@[i as int];
                        assert(decreases_to!(e => e.key));
                        assert(decreases_to!(e => e.val));
                    }
                    let k = entries[i].key.duplicate();
                    let v = entries[i].val.duplicate();
                    out.push(Entry { key: k, val: v });
                    i = i + 1;
                }
                proof {
                    lemma_views_of_entries(out@);
                    lemma_views_of_entries(entries@);
                    assert(views_of_entries(out@) =~= views_of_entries(entries@));
                }
                Value::Mapping(out)
            },
            Value::Tagged(tag, inner) => Value::Tagged(tag.clone(), Box::new((**inner).duplicate())),
        }
    }
}

} // verus!
