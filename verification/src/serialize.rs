//! The encode path: an indentation-tracking writer that renders values back
//! into the block syntax.
//!
//! A new line begins with a newline character followed by two spaces per
//! indent level -- except the very first line of output, and the line a
//! `- ` element opener just started, which are continued instead.  A scalar
//! written right after a `:` gets one separating space.  Output ends with a
//! single trailing newline.

use vstd::prelude::*;
use vstd::string::StrSliceExecFns;
use vstd::string::StringExecFns;
use crate::error::SerializeError;
use crate::num::{i64_text, i64_to_string, u64_text, u64_to_string};
use crate::value::{views_of_entries, views_of_values, lemma_views_of_entries,
    lemma_views_of_values, Entry, EntryView, Value, ValueView};

verus! {

broadcast use vstd::seq::group_seq_axioms;

/// The text a scalar value renders as; `None` for collections and tagged
/// values, which render as blocks.
pub open spec fn scalar_text(v: ValueView) -> Option<Seq<char>> {
    match v {
        ValueView::Null => Option::Some("null"@),
        ValueView::Bool(b) => Option::Some(
            if b {
                "true"@
            } else {
                "false"@
            },
        ),
        ValueView::Int(n) => Option::Some(i64_text(n as int)),
        ValueView::UInt(n) => Option::Some(u64_text(n as int)),
        ValueView::Str(s) => Option::Some(s),
        _ => Option::None,
    }
}

/// Whether a value can be rendered: every mapping key, at any depth, must
/// be a scalar.
pub open spec fn encodable(v: ValueView) -> bool
    decreases v,
{
    match v {
        ValueView::Sequence(items) => encodable_list(items),
        ValueView::Mapping(entries) => encodable_entries(entries),
        ValueView::Tagged(_tag, inner) => encodable(*inner),
        _ => true,
    }
}

/// Whether every element of a sequence can be rendered.
pub open spec fn encodable_list(items: Seq<ValueView>) -> bool
    decreases items,
{
    items.len() == 0 || (encodable(items[0]) && encodable_list(items.drop_first()))
}

/// Whether every entry of a mapping can be rendered: scalar key, renderable
/// value.
pub open spec fn encodable_entries(entries: Seq<EntryView>) -> bool
    decreases entries,
{
    entries.len() == 0 || (scalar_text(entries[0].key) is Some && encodable(entries[0].val)
        && encodable_entries(entries.drop_first()))
}

/// `n` spaces.
pub open spec fn spaces(n: nat) -> Seq<char>
    decreases n,
{
    if n == 0 {
        Seq::empty()
    } else {
        spaces((n - 1) as nat).push(' ')
    }
}

/// Whether the output so far ends with a fresh `- ` element opener, whose
/// line the next write should continue.
pub open spec fn ends_with_opener(prev: Seq<char>) -> bool {
    prev.len() >= 2 && prev[prev.len() - 2] == '-' && prev[prev.len() - 1] == ' '
}

/// What beginning a new line appends: nothing at the very start of output
/// or right after a `- ` element opener, otherwise a newline and two spaces
/// per indent level.
pub open spec fn nl_indent(prev: Seq<char>, ind: nat) -> Seq<char> {
    if prev.len() == 0 || ends_with_opener(prev) {
        Seq::empty()
    } else {
        seq!['\n'] + spaces(2 * ind)
    }
}

/// What writing scalar text appends: the text, preceded by one space when
/// the output so far ends with a `:`.
pub open spec fn put_scalar(prev: Seq<char>, t: Seq<char>) -> Seq<char> {
    if prev.len() > 0 && prev.last() == ':' {
        prev + seq![' '] + t
    } else {
        prev + t
    }
}

/// The whole output after rendering `v` at indent `ind` onto `prev`.
pub open spec fn emit_value(prev: Seq<char>, v: ValueView, ind: nat) -> Seq<char>
    decreases v,
{
    match v {
        ValueView::Null => put_scalar(prev, "null"@),
        ValueView::Bool(b) => put_scalar(
            prev,
            if b {
                "true"@
            } else {
                "false"@
            },
        ),
        ValueView::Int(n) => put_scalar(prev, i64_text(n as int)),
        ValueView::UInt(n) => put_scalar(prev, u64_text(n as int)),
        ValueView::Str(s) => put_scalar(prev, s),
        ValueView::Sequence(items) => emit_list(prev, items, ind),
        ValueView::Mapping(entries) => emit_entries(prev, entries, ind),
        ValueView::Tagged(tag, inner) => emit_value(
            put_scalar(prev, tag) + seq![':'],
            *inner,
            ind + 1,
        ),
    }
}

/// The output after rendering sequence elements: each begins a new line,
/// writes `- `, and renders the element one level deeper.
pub open spec fn emit_list(prev: Seq<char>, items: Seq<ValueView>, ind: nat) -> Seq<char>
    decreases items,
{
    if items.len() == 0 {
        prev
    } else {
        let opened = prev + nl_indent(prev, ind) + "- "@;
        let done = emit_value(opened, items[0], ind + 1);
        emit_list(done, items.drop_first(), ind)
    }
}

/// The output after rendering mapping entries: each begins a new line,
/// writes the key as a scalar and a `:`, and renders the value one level
/// deeper.
pub open spec fn emit_entries(prev: Seq<char>, entries: Seq<EntryView>, ind: nat) -> Seq<char>
    decreases entries,
{
    if entries.len() == 0 {
        prev
    } else {
        let kt = match scalar_text(entries[0].key) {
            Option::Some(t) => t,
            Option::None => Seq::empty(),
        };
        let keyed = put_scalar(prev + nl_indent(prev, ind), kt) + seq![':'];
        let done = emit_value(keyed, entries[0].val, ind + 1);
        emit_entries(done, entries.drop_first(), ind)
    }
}

/// The complete rendering of one value: the value at indent zero, then the
/// trailing newline.
pub open spec fn rendered(v: ValueView) -> Seq<char> {
    emit_value(Seq::empty(), v, 0) + seq!['\n']
}

/// The nesting depth of a value: how many indent levels rendering it can
/// open below its own.
pub open spec fn depth(v: ValueView) -> nat
    decreases v,
{
    match v {
        ValueView::Sequence(items) => 1 + depth_list(items),
        ValueView::Mapping(entries) => 1 + depth_entries(entries),
        ValueView::Tagged(_tag, inner) => 1 + depth(*inner),
        _ => 0,
    }
}

/// The largest element depth of a sequence.
pub open spec fn depth_list(items: Seq<ValueView>) -> nat
    decreases items,
{
    if items.len() == 0 {
        0
    } else {
        let d0 = depth(items[0]);
        let dr = depth_list(items.drop_first());
        if d0 >= dr {
            d0
        } else {
            dr
        }
    }
}

/// The largest value depth of a mapping.
pub open spec fn depth_entries(entries: Seq<EntryView>) -> nat
    decreases entries,
{
    if entries.len() == 0 {
        0
    } else {
        let d0 = depth(entries[0].val);
        let dr = depth_entries(entries.drop_first());
        if d0 >= dr {
            d0
        } else {
            dr
        }
    }
}

/// Every element's depth is bounded by the sequence's.
pub proof fn lemma_depth_list_bound(items: Seq<ValueView>, k: int)
    requires
        0 <= k < items.len(),
    ensures
        depth(items[k]) <= depth_list(items),
    decreases items.len(),
{
    if k > 0 {
        lemma_depth_list_bound(items.drop_first(), k - 1);
        assert(items.drop_first()[k - 1] == items[k]);
    }
}

/// Every value's depth is bounded by the mapping's.
pub proof fn lemma_depth_entries_bound(entries: Seq<EntryView>, k: int)
    requires
        0 <= k < entries.len(),
    ensures
        depth(entries[k].val) <= depth_entries(entries),
    decreases entries.len(),
{
    if k > 0 {
        lemma_depth_entries_bound(entries.drop_first(), k - 1);
        assert(entries.drop_first()[k - 1] == entries[k]);
    }
}

/// The encoder: an output buffer and a non-negative indent counter.
pub struct Serializer {
    output: String,
    indent: usize,
}

impl Serializer {
    /// The output so far.
    pub closed spec fn out(&self) -> Seq<char> {
        self.output@
    }

    /// The current indent level.
    pub closed spec fn ind(&self) -> nat {
        self.indent as nat
    }

    /// An encoder with empty output at indent zero.
    pub fn new() -> (r: Serializer)
        ensures
            r.out() == Seq::<char>::empty(),
            r.ind() == 0,
    {
        Serializer { output: String::new(), indent: 0 }
    }

    /// Hands the finished output to the caller.
    pub fn into_output(self) -> (r: String)
        ensures
            r@ == self.out(),
    {
        self.output
    }

    /// Appends `s` to the output unchanged.
    fn push_str(&mut self, s: &str)
        ensures
            final(self).out() == old(self).out() + s@,
            final(self).ind() == old(self).ind(),
    {
        self.output.append(s);
    }

    /// Begins a new line: a newline character and two spaces per indent
    /// level -- except at the very start of output, and right after a `- `
    /// element opener, where the line is continued instead.
    pub fn newline_with_indent(&mut self)
        ensures
            final(self).out() == old(self).out() + nl_indent(old(self).out(), old(self).ind()),
            final(self).ind() == old(self).ind(),
    {
        let len = self.output.as_str().unicode_len();
        if len == 0 {
            proof {
                assert(old(self).out() + nl_indent(old(self).out(), old(self).ind()) =~= old(
                    self,
                ).out());
            }
            return ;
        }
        if len >= 2 {
            let c1 = self.output.as_str().get_char(len - 2);
            let c2 = self.output.as_str().get_char(len - 1);
            if c1 == '-' && c2 == ' ' {
                proof {
                    assert(ends_with_opener(old(self).out()));
                    assert(old(self).out() + nl_indent(old(self).out(), old(self).ind()) =~= old(
                        self,
                    ).out());
                }
                return ;
            }
        }
        proof {
            assert(!ends_with_opener(old(self).out()));
            assert(nl_indent(old(self).out(), old(self).ind()) == seq!['\n'] + spaces(
                2 * old(self).ind(),
            ));
        }
        self.push_str("\n");
        let mut i: usize = 0;
        let ghost base = old(self).out() + seq!['\n'];
        proof {
            reveal_strlit("\n");
            assert("\n"@ =~= seq!['\n']);
            assert(self.out() =~= base + spaces(0));
        }
        while i < self.indent
            invariant
                i <= self.indent,
                self.ind() == old(self).ind(),
                self.out() == base + spaces(2 * i as nat),
            decreases self.indent - i,
        {
            self.push_str("  ");
            proof {
                reveal_strlit("  ");
                assert("  "@ =~= seq![' ', ' ']);
                assert(spaces((2 * i + 1) as nat) == spaces((2 * i) as nat).push(' '));
                assert(spaces((2 * i + 2) as nat) == spaces((2 * i + 1) as nat).push(' '));
                assert(spaces(2 * (i + 1) as nat) =~= spaces(2 * i as nat) + seq![' ', ' ']);
                assert(base + spaces(2 * (i + 1) as nat) =~= (base + spaces(2 * i as nat)) + seq![
                    ' ',
                    ' ',
                ]);
            }
            i = i + 1;
        }
        proof {
            assert(old(self).out().len() > 0);
            assert(final(self).out() =~= old(self).out() + (seq!['\n'] + spaces(
                2 * old(self).ind(),
            )));
        }
    }

    /// The current indent level.
    pub fn indent_level(&self) -> (r: usize)
        ensures
            r == self.ind(),
    {
        self.indent
    }

    /// One more indent level for nested content.
    pub fn increase_indent(&mut self)
        requires
            old(self).ind() < usize::MAX,
        ensures
            final(self).out() == old(self).out(),
            final(self).ind() == old(self).ind() + 1,
    {
        self.indent = self.indent + 1;
    }

    /// Back out one indent level; the counter never goes below zero.
    pub fn decrease_indent(&mut self)
        requires
            old(self).ind() >= 1,
        ensures
            final(self).out() == old(self).out(),
            final(self).ind() == old(self).ind() - 1,
    {
        self.indent = self.indent - 1;
    }

    /// Terminates the output with its single trailing newline.
    pub fn end_file(&mut self)
        ensures
            final(self).out() == old(self).out() + seq!['\n'],
            final(self).ind() == old(self).ind(),
    {
        proof {
            reveal_strlit("\n");
            assert("\n"@ =~= seq!['\n']);
        }
        self.push_str("\n");
    }

    /// Writes scalar text: one separating space first when the output so
    /// far ends with a `:`.
    fn write_scalar(&mut self, s: &str)
        ensures
            final(self).out() == put_scalar(old(self).out(), s@),
            final(self).ind() == old(self).ind(),
    {
        let len = self.output.as_str().unicode_len();
        if len > 0 && self.output.as_str().get_char(len - 1) == ':' {
            self.push_str(" ");
            proof {
                reveal_strlit(" ");
                assert(" "@ =~= seq![' ']);
            }
        }
        self.push_str(s);
    }

    /// Renders a string scalar.
    pub fn serialize_str(&mut self, v: &str)
        ensures
            final(self).out() == put_scalar(old(self).out(), v@),
            final(self).ind() == old(self).ind(),
    {
        self.write_scalar(v);
    }

    /// Renders a boolean scalar as `true` or `false`.
    pub fn serialize_bool(&mut self, v: bool)
        ensures
            final(self).out() == put_scalar(
                old(self).out(),
                if v {
                    "true"@
                } else {
                    "false"@
                },
            ),
            final(self).ind() == old(self).ind(),
    {
        if v {
            self.write_scalar("true")
        } else {
            self.write_scalar("false")
        }
    }

    /// Renders an unsigned scalar in decimal.
    pub fn serialize_u32(&mut self, v: u32)
        ensures
            final(self).out() == put_scalar(old(self).out(), u64_text(v as int)),
            final(self).ind() == old(self).ind(),
    {
        let s = u64_to_string(v as u64);
        self.write_scalar(s.as_str());
    }

    /// Renders an unsigned scalar in decimal.
    pub fn serialize_u64(&mut self, v: u64)
        ensures
            final(self).out() == put_scalar(old(self).out(), u64_text(v as int)),
            final(self).ind() == old(self).ind(),
    {
        let s = u64_to_string(v);
        self.write_scalar(s.as_str());
    }

    /// Renders a signed scalar in decimal.
    pub fn serialize_i64(&mut self, v: i64)
        ensures
            final(self).out() == put_scalar(old(self).out(), i64_text(v as int)),
            final(self).ind() == old(self).ind(),
    {
        let s = i64_to_string(v);
        self.write_scalar(s.as_str());
    }

    /// Renders absence as the `null` literal.
    pub fn serialize_none(&mut self)
        ensures
            final(self).out() == put_scalar(old(self).out(), "null"@),
            final(self).ind() == old(self).ind(),
    {
        self.write_scalar("null");
    }

    /// Renders a unit variant as its bare tag.
    pub fn serialize_unit_variant(&mut self, variant: &str)
        ensures
            final(self).out() == put_scalar(old(self).out(), variant@),
            final(self).ind() == old(self).ind(),
    {
        self.write_scalar(variant);
    }
}

/// The text rendering a scalar value, or the key-not-scalar error.
fn key_text(v: &Value) -> (r: Result<String, SerializeError>)
    ensures
        match scalar_text(v@) {
            Option::Some(t) => r matches Ok(s) && s@ == t,
            Option::None => r == Result::<String, SerializeError>::Err(
                SerializeError::KeyNotScalar,
            ),
        },
{
    match v {
        Value::Null => Ok(String::from_str("null")),
        Value::Bool(b) => {
            if *b {
                Ok(String::from_str("true"))
            } else {
                Ok(String::from_str("false"))
            }
        },
        Value::Int(n) => Ok(i64_to_string(*n)),
        Value::UInt(n) => Ok(u64_to_string(*n)),
        Value::Str(s) => Ok(s.clone()),
        _ => Err(SerializeError::KeyNotScalar),
    }
}

impl Serializer {
    /// Renders one value at the current indent: scalars as their text,
    /// sequences as `- ` items, mappings as `key:` fields, tagged values as
    /// `tag:` and their payload one level deeper.  Fails exactly on a
    /// mapping key that is not a scalar, at any depth.
    pub fn serialize_value(&mut self, v: &Value) -> (r: Result<(), SerializeError>)
        requires
            old(self).ind() + depth(v@) + 1 <= usize::MAX,
        ensures
            if encodable(v@) {
                r is Ok && final(self).out() == emit_value(old(self).out(), v@, old(self).ind())
                    && final(self).ind() == old(self).ind()
            } else {
                r == Result::<(), SerializeError>::Err(SerializeError::KeyNotScalar)
            },
        decreases v,
    {
        match v {
            Value::Null => {
                self.serialize_none();
                Ok(())
            },
            Value::Bool(b) => {
                self.serialize_bool(*b);
                Ok(())
            },
            Value::Int(n) => {
                self.serialize_i64(*n);
                Ok(())
            },
            Value::UInt(n) => {
                self.serialize_u64(*n);
                Ok(())
            },
            Value::Str(s) => {
                self.serialize_str(s.as_str());
                Ok(())
            },
            Value::Sequence(items) => {
                let ghost all = views_of_values(items@);
                let ghost prev0 = self.out();
                proof {
                    lemma_views_of_values(items@);
                    assert(all.skip(0) =~= all);
                }
                let mut k: usize = 0;
                while k < items.len()
                    invariant
                        k <= items@.len(),
                        *v == Value::Sequence(*items),
                        all == views_of_values(items@),
                        all.len() == items@.len(),
                        forall|j: int| 0 <= j < all.len() ==> all[j] == items@[j]@,
                        self.ind() == old(self).ind(),
                        self.ind() + depth(v@) + 1 <= usize::MAX,
                        emit_list(prev0, all, old(self).ind()) == emit_list(
                            self.out(),
                            all.skip(k as int),
                            old(self).ind(),
                        ),
                        encodable_list(all) == encodable_list(all.skip(k as int)),
                    decreases items@.len() - k,
                {
                    proof {
                        assert(all.skip(k as int)[0] == items@[k as int]@);
                        assert(all.skip(k as int).drop_first() =~= all.skip(k as int + 1));
                        let f = v->Sequence_0;
                        assert(f == *items);
                        assert(decreases_to!(*v => f));
                        assert(decreases_to!(f => f@));
                        assert(decreases_to!(f@ => f@[k as int]));
                        lemma_depth_list_bound(all, k as int);
                        assert(depth(items@[k as int]@) <= depth_list(all));
                    }
                    self.newline_with_indent();
                    self.push_str("- ");
                    self.increase_indent();
                    proof {
                        reveal_strlit("- ");
                        assert("- "@ =~= seq!['-', ' ']);
                    }
                    match self.serialize_value(&items[k]) {
                        Ok(()) => {},
                        Err(e) => {
                            return Err(e);
                        },
                    }
                    self.decrease_indent();
                    k = k + 1;
                }
                proof {
                    assert(all.skip(items@.len() as int) =~= Seq::<ValueView>::empty());
                }
                Ok(())
            },
            Value::Mapping(entries) => {
                let ghost all = views_of_entries(entries@);
                let ghost prev0 = self.out();
                proof {
                    lemma_views_of_entries(entries@);
                    assert(all.skip(0) =~= all);
                }
                let mut k: usize = 0;
                while k < entries.len()
                    invariant
                        k <= entries@.len(),
                        *v == Value::Mapping(*entries),
                        all == views_of_entries(entries@),
                        all.len() == entries@.len(),
                        forall|j: int| 0 <= j < all.len() ==> all[j] == entries@[j]@,
                        self.ind() == old(self).ind(),
                        self.ind() + depth(v@) + 1 <= usize::MAX,
                        emit_entries(prev0, all, old(self).ind()) == emit_entries(
                            self.out(),
                            all.skip(k as int),
                            old(self).ind(),
                        ),
                        encodable_entries(all) == encodable_entries(all.skip(k as int)),
                    decreases entries@.len() - k,
                {
                    proof {
                        assert(all.skip(k as int)[0] == entries@[k as int]@);
                        assert(all.skip(k as int).drop_first() =~= all.skip(k as int + 1));
                        let f = v->Mapping_0;
                        assert(f == *entries);
                        assert(decreases_to!(*v => f));
                        assert(decreases_to!(f => f@));
                        assert(decreases_to!(f@ => f@[k as int]));
                        let e = f@[k as int];
                        assert(decreases_to!(e => e.val));
                        lemma_depth_entries_bound(all, k as int);
                        assert(depth(entries@[k as int]@.val) <= depth_entries(all));
                    }
                    let kt = match key_text(&entries[k].key) {
                        Ok(s) => s,
                        Err(e) => {
                            return Err(e);
                        },
                    };
                    self.newline_with_indent();
                    self.write_scalar(kt.as_str());
                    self.push_str(":");
                    self.increase_indent();
                    proof {
                        reveal_strlit(":");
                        assert(":"@ =~= seq![':']);
                    }
                    match self.serialize_value(&entries[k].val) {
                        Ok(()) => {},
                        Err(e) => {
                            return Err(e);
                        },
                    }
                    self.decrease_indent();
                    k = k + 1;
                }
                proof {
                    assert(all.skip(entries@.len() as int) =~= Seq::<EntryView>::empty());
                }
                Ok(())
            },
            Value::Tagged(tag, inner) => {
                self.write_scalar(tag.as_str());
                self.push_str(":");
                self.increase_indent();
                proof {
                    reveal_strlit(":");
                    assert(":"@ =~= seq![':']);
                    assert(self.out() =~= put_scalar(old(self).out(), tag@) + seq![':']);
                }
                match self.serialize_value(inner) {
                    Ok(()) => {},
                    Err(e) => {
                        return Err(e);
                    },
                }
                self.decrease_indent();
                Ok(())
            },
        }
    }
}

/// Renders one value as a complete document: the value at indent zero, then
/// the single trailing newline.  Fails exactly when some mapping key, at
/// any depth, is not a scalar.
pub fn to_string(value: &Value) -> (r: Result<String, SerializeError>)
    requires
        depth(value@) + 1 <= usize::MAX,
    ensures
        if encodable(value@) {
            r matches Ok(s) && s@ == rendered(value@)
        } else {
            r == Result::<String, SerializeError>::Err(SerializeError::KeyNotScalar)
        },
{
    let mut ser = Serializer::new();
    match ser.serialize_value(value) {
        Ok(()) => {},
        Err(e) => {
            return Err(e);
        },
    }
    ser.end_file();
    Ok(ser.into_output())
}

} // verus!
