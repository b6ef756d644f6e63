//! The decode path: a pull-based cursor over the scanned events, the
//! structural assertions, the scalar leaves, and both forms of value
//! dispatch -- self-describing and shape-directed.
//!
//! The cursor invariant: at any call boundary the next event is either the
//! start of the next logical unit or the end marker of the immediately
//! enclosing collection.  Every method states exactly how far it moves the
//! cursor, for success and for failure alike.

use vstd::prelude::*;
use vstd::string::StrSliceExecFns;
use vstd::string::StringExecFns;
use crate::error::{DeserializeError, Location, ScanFault, ScanFaultView};
use crate::event::{SpannedToken, SpannedTokenView, SrcSpan, Token, TokenView};
use crate::literal::{is_false_lit, is_false_literal, is_null_lit, is_null_literal, is_true_lit,
    is_true_literal};
use crate::num::{int_text_val, valid_int_text, valid_uns_text, NumFail, parse_signed,
    parse_unsigned};
use crate::scan::{events_view, fault_view, scan_events, scan_result_of};
use crate::shape::{FieldShape, Shape, VariantDecl};
use crate::value::{lemma_views_of_entries, lemma_views_of_values, views_of_entries,
    views_of_values, Entry, EntryView, Value, ValueView};

verus! {

broadcast use vstd::seq::group_seq_axioms;

/// The decoder: exclusive owner of one scanned event stream for the
/// duration of one decode.
pub struct YamlDeserializer {
    events: Vec<SpannedToken>,
    pos: usize,
    fault: Option<ScanFault>,
}

impl YamlDeserializer {
    /// The scanned events, as their mathematical images.
    pub closed spec fn stream(&self) -> Seq<SpannedTokenView> {
        events_view(self.events@)
    }

    /// The cursor: how many events have been consumed.
    pub closed spec fn cursor(&self) -> int {
        self.pos as int
    }

    /// The lexical fault recorded behind the last scanned event, if any.
    pub closed spec fn fault_v(&self) -> Option<ScanFaultView> {
        fault_view(self.fault)
    }

    /// The cursor never passes the end of the stream.
    pub open spec fn wf(&self) -> bool {
        0 <= self.cursor() <= self.stream().len()
    }

    /// The error `next_event` yields at the end of the stream: the recorded
    /// lexical fault, or bare exhaustion.
    pub open spec fn end_err(&self, e: DeserializeError) -> bool {
        match self.fault_v() {
            Option::Some(f) => e matches DeserializeError::ScanError(g) && g@ == f,
            Option::None => e == DeserializeError::EarlyTermination,
        }
    }

    /// The stream and recorded fault are never changed by decoding.
    pub open spec fn same_source(&self, other: &Self) -> bool {
        self.stream() == other.stream() && self.fault_v() == other.fault_v()
    }

    /// A decoder over the events the lexical layer yields for `input`.
    pub fn from_str(input: &str) -> (r: YamlDeserializer)
        ensures
            r.wf(),
            r.cursor() == 0,
            r.stream() == scan_result_of(input@).0,
            r.fault_v() == scan_result_of(input@).1,
    {
        let (events, fault) = scan_events(input);
        YamlDeserializer { events, pos: 0, fault }
    }

    /// Consumes and returns the next event, or fails with the recorded
    /// lexical fault or `EarlyTermination` when the stream is exhausted.
    pub fn next_event(&mut self) -> (r: Result<(Token, SrcSpan), DeserializeError>)
        requires
            old(self).wf(),
        ensures
            final(self).wf(),
            final(self).same_source(old(self)),
            old(self).cursor() < old(self).stream().len() ==> {
                &&& final(self).cursor() == old(self).cursor() + 1
                &&& r matches Ok(p) && p.0@ == old(self).stream()[old(self).cursor()].event && p.1
                    == old(self).stream()[old(self).cursor()].span
            },
            old(self).cursor() >= old(self).stream().len() ==> {
                &&& final(self).cursor() == old(self).cursor()
                &&& r matches Err(e) && old(self).end_err(e)
            },
    {
        if self.pos < self.events.len() {
            let ev = self.events[self.pos].event.duplicate();
            let sp = self.events[self.pos].span;
            self.pos = self.pos + 1;
            Ok((ev, sp))
        } else {
            match &self.fault {
                Option::Some(f) => Err(DeserializeError::ScanError(f.duplicate())),
                Option::None => Err(DeserializeError::EarlyTermination),
            }
        }
    }

    /// A non-consuming view of the next event; `None` when nothing more is
    /// buffered (exhaustion or a deferred lexical fault).
    pub fn peek_event(&self) -> (r: Option<&SpannedToken>)
        requires
            self.wf(),
        ensures
            match r {
                Option::Some(e) => self.cursor() < self.stream().len() && e@ == self.stream()[
                    self.cursor()],
                Option::None => self.cursor() == self.stream().len(),
            },
    {
        if self.pos < self.events.len() {
            Some(&self.events[self.pos])
        } else {
            None
        }
    }
}

/// What a structural assertion guarantees: one event is consumed; if its
/// kind satisfies `ok` the assertion succeeds, otherwise it fails with
/// `UnexpectedElement` carrying that event, its span, and the call site; at
/// the end of the stream the end error is returned and nothing moves.
pub open spec fn expect_outcome(
    pre: YamlDeserializer,
    post: YamlDeserializer,
    ok: spec_fn(TokenView) -> bool,
    loc: Location,
    r: Result<(), DeserializeError>,
) -> bool {
    &&& post.same_source(&pre)
    &&& if pre.cursor() < pre.stream().len() {
        &&& post.cursor() == pre.cursor() + 1
        &&& if ok(pre.stream()[pre.cursor()].event) {
            r is Ok
        } else {
            r matches Err(DeserializeError::UnexpectedElement { event, span, location })
                && event@ == pre.stream()[pre.cursor()].event && span
                == pre.stream()[pre.cursor()].span && location == loc
        }
    } else {
        &&& post.cursor() == pre.cursor()
        &&& r matches Err(e) && pre.end_err(e)
    }
}

impl YamlDeserializer {
    /// Asserts that the next event opens the stream.
    pub fn start_stream(&mut self) -> (r: Result<(), DeserializeError>)
        requires
            old(self).wf(),
        ensures
            final(self).wf(),
            expect_outcome(
                *old(self),
                *final(self),
                |e: TokenView| e is StreamStart,
                Location::StartStream,
                r,
            ),
    {
        match self.next_event() {
            Ok((ev, span)) => match ev {
                Token::StreamStart => Ok(()),
                _ => Err(DeserializeError::unexpected(ev, span, Location::StartStream)),
            },
            Err(e) => Err(e),
        }
    }

    /// Asserts that the next event closes the stream.
    pub fn end_stream(&mut self) -> (r: Result<(), DeserializeError>)
        requires
            old(self).wf(),
        ensures
            final(self).wf(),
            expect_outcome(
                *old(self),
                *final(self),
                |e: TokenView| e is StreamEnd,
                Location::EndStream,
                r,
            ),
    {
        match self.next_event() {
            Ok((ev, span)) => match ev {
                Token::StreamEnd => Ok(()),
                _ => Err(DeserializeError::unexpected(ev, span, Location::EndStream)),
            },
            Err(e) => Err(e),
        }
    }

    /// Asserts that the next event opens a document.
    pub fn start_document(&mut self) -> (r: Result<(), DeserializeError>)
        requires
            old(self).wf(),
        ensures
            final(self).wf(),
            expect_outcome(
                *old(self),
                *final(self),
                |e: TokenView| e is DocumentStart,
                Location::StartDocument,
                r,
            ),
    {
        match self.next_event() {
            Ok((ev, span)) => match ev {
                Token::DocumentStart => Ok(()),
                _ => Err(DeserializeError::unexpected(ev, span, Location::StartDocument)),
            },
            Err(e) => Err(e),
        }
    }

    /// Asserts that the next event closes a document.
    pub fn end_document(&mut self) -> (r: Result<(), DeserializeError>)
        requires
            old(self).wf(),
        ensures
            final(self).wf(),
            expect_outcome(
                *old(self),
                *final(self),
                |e: TokenView| e is DocumentEnd,
                Location::EndDocument,
                r,
            ),
    {
        match self.next_event() {
            Ok((ev, span)) => match ev {
                Token::DocumentEnd => Ok(()),
                _ => Err(DeserializeError::unexpected(ev, span, Location::EndDocument)),
            },
            Err(e) => Err(e),
        }
    }

    /// Asserts that the next event opens a block sequence.
    pub fn start_sequence(&mut self) -> (r: Result<(), DeserializeError>)
        requires
            old(self).wf(),
        ensures
            final(self).wf(),
            expect_outcome(
                *old(self),
                *final(self),
                |e: TokenView| e is SequenceStart,
                Location::StartSequence,
                r,
            ),
    {
        match self.next_event() {
            Ok((ev, span)) => match ev {
                Token::SequenceStart => Ok(()),
                _ => Err(DeserializeError::unexpected(ev, span, Location::StartSequence)),
            },
            Err(e) => Err(e),
        }
    }

    /// Asserts that the next event closes a block sequence.
    pub fn end_sequence(&mut self) -> (r: Result<(), DeserializeError>)
        requires
            old(self).wf(),
        ensures
            final(self).wf(),
            expect_outcome(
                *old(self),
                *final(self),
                |e: TokenView| e is SequenceEnd,
                Location::EndSequence,
                r,
            ),
    {
        match self.next_event() {
            Ok((ev, span)) => match ev {
                Token::SequenceEnd => Ok(()),
                _ => Err(DeserializeError::unexpected(ev, span, Location::EndSequence)),
            },
            Err(e) => Err(e),
        }
    }

    /// Asserts that the next event opens a block mapping.
    pub fn start_map(&mut self) -> (r: Result<(), DeserializeError>)
        requires
            old(self).wf(),
        ensures
            final(self).wf(),
            expect_outcome(
                *old(self),
                *final(self),
                |e: TokenView| e is MappingStart,
                Location::StartMap,
                r,
            ),
    {
        match self.next_event() {
            Ok((ev, span)) => match ev {
                Token::MappingStart => Ok(()),
                _ => Err(DeserializeError::unexpected(ev, span, Location::StartMap)),
            },
            Err(e) => Err(e),
        }
    }

    /// Asserts that the next event closes a block mapping.
    pub fn end_map(&mut self) -> (r: Result<(), DeserializeError>)
        requires
            old(self).wf(),
        ensures
            final(self).wf(),
            expect_outcome(
                *old(self),
                *final(self),
                |e: TokenView| e is MappingEnd,
                Location::EndMap,
                r,
            ),
    {
        match self.next_event() {
            Ok((ev, span)) => match ev {
                Token::MappingEnd => Ok(()),
                _ => Err(DeserializeError::unexpected(ev, span, Location::EndMap)),
            },
            Err(e) => Err(e),
        }
    }
}

/// The position just past the first mapping-end event at or after `i`, if
/// one is buffered.
pub open spec fn past_first_map_end(s: Seq<SpannedTokenView>, i: int) -> Option<int>
    decreases s.len() - i,
{
    if i < 0 || i >= s.len() {
        Option::None
    } else if s[i].event is MappingEnd {
        Option::Some(i + 1)
    } else {
        past_first_map_end(s, i + 1)
    }
}

impl YamlDeserializer {
    /// Consumes events up to and including the next mapping-end, discarding
    /// intervening content; restores the boundary invariant when a caller
    /// stopped iterating a mapping early.
    pub fn consume_map(&mut self) -> (r: Result<(), DeserializeError>)
        requires
            old(self).wf(),
        ensures
            final(self).wf(),
            final(self).same_source(old(self)),
            match past_first_map_end(old(self).stream(), old(self).cursor()) {
                Option::Some(j) => r is Ok && final(self).cursor() == j,
                Option::None => {
                    &&& final(self).cursor() == old(self).stream().len()
                    &&& r matches Err(e) && old(self).end_err(e)
                },
            },
    {
        loop
            invariant
                self.wf(),
                self.same_source(old(self)),
                old(self).cursor() <= self.cursor(),
                past_first_map_end(old(self).stream(), old(self).cursor())
                    == past_first_map_end(self.stream(), self.cursor()),
            decreases self.stream().len() - self.cursor(),
        {
            match self.next_event() {
                Ok((ev, _span)) => match ev {
                    Token::MappingEnd => {
                        return Ok(());
                    },
                    _ => {},
                },
                Err(e) => {
                    return Err(e);
                },
            }
        }
    }

    /// Consumes one scalar and returns its text and span; any other event
    /// is an unexpected element.
    pub fn read_scalar_string(&mut self) -> (r: Result<(String, SrcSpan), DeserializeError>)
        requires
            old(self).wf(),
        ensures
            final(self).wf(),
            final(self).same_source(old(self)),
            old(self).cursor() < old(self).stream().len() ==> final(self).cursor() == old(self).cursor()
                + 1 && {
                let t = old(self).stream()[old(self).cursor()];
                match t.event {
                    TokenView::Scalar(text) => r matches Ok(p) && p.0@ == text && p.1 == t.span,
                    _ => r matches Err(DeserializeError::UnexpectedElement { event, span, location })
                        && event@ == t.event && span == t.span && location
                        == Location::DeserializeStr,
                }
            },
            old(self).cursor() >= old(self).stream().len() ==> final(self).cursor() == old(self).cursor()
                && (r matches Err(e) && old(self).end_err(e)),
    {
        match self.next_event() {
            Ok((ev, span)) => match ev {
                Token::Scalar(s) => Ok((s, span)),
                _ => Err(DeserializeError::unexpected(ev, span, Location::DeserializeStr)),
            },
            Err(e) => Err(e),
        }
    }

    /// A non-consuming view of the next scalar's text and span; `None` when
    /// the next event is not a scalar or nothing more is buffered.
    pub fn peek_scalar_string(&self) -> (r: Option<(String, SrcSpan)>)
        requires
            self.wf(),
        ensures
            match r {
                Option::Some(p) => self.cursor() < self.stream().len() && (self.stream()[
                    self.cursor()].event matches TokenView::Scalar(t) && p.0@ == t && p.1
                    == self.stream()[self.cursor()].span),
                Option::None => self.cursor() >= self.stream().len() || !(self.stream()[
                    self.cursor()].event is Scalar),
            },
    {
        if self.pos < self.events.len() {
            match &self.events[self.pos].event {
                Token::Scalar(s) => Some((s.clone(), self.events[self.pos].span)),
                _ => None,
            }
        } else {
            None
        }
    }

    /// Consumes one scalar and classifies it by the boolean literal
    /// families: exactly the truthy family yields `true`, exactly the falsy
    /// family `false`, and anything else is a `BoolParseError` carrying the
    /// offending text.
    pub fn read_boolean(&mut self) -> (r: Result<bool, DeserializeError>)
        requires
            old(self).wf(),
        ensures
            final(self).wf(),
            final(self).same_source(old(self)),
            old(self).cursor() < old(self).stream().len() ==> final(self).cursor() == old(self).cursor()
                + 1 && {
                let t = old(self).stream()[old(self).cursor()];
                match t.event {
                    TokenView::Scalar(text) => {
                        if is_true_lit(text) {
                            r == Result::<bool, DeserializeError>::Ok(true)
                        } else if is_false_lit(text) {
                            r == Result::<bool, DeserializeError>::Ok(false)
                        } else {
                            r matches Err(DeserializeError::BoolParseError { text: bt, span })
                                && bt@ == text && span == t.span
                        }
                    },
                    _ => r matches Err(DeserializeError::UnexpectedElement { event, span, location })
                        && event@ == t.event && span == t.span && location
                        == Location::DeserializeStr,
                }
            },
            old(self).cursor() >= old(self).stream().len() ==> final(self).cursor() == old(self).cursor()
                && (r matches Err(e) && old(self).end_err(e)),
    {
        let (s, span) = match self.read_scalar_string() {
            Ok(p) => p,
            Err(e) => {
                return Err(e);
            },
        };
        if is_true_literal(s.as_str()) {
            Ok(true)
        } else if is_false_literal(s.as_str()) {
            Ok(false)
        } else {
            Err(DeserializeError::not_a_bool(s, span))
        }
    }
}

/// The exact outcome of decoding one numeric scalar: the text must be
/// valid integer text whose value lies in `[lo, hi]`; otherwise a
/// `NumberParseError` names the offending text, the reason, and the target
/// width `tyname`.
pub open spec fn num_scalar_outcome<T>(
    pre: YamlDeserializer,
    post: YamlDeserializer,
    r: Result<T, DeserializeError>,
    valid: spec_fn(Seq<char>) -> bool,
    lo: int,
    hi: int,
    of: spec_fn(T) -> int,
    tyname: Seq<char>,
) -> bool {
    &&& post.same_source(&pre)
    &&& pre.cursor() < pre.stream().len() ==> post.cursor() == pre.cursor() + 1 && {
        let tok = pre.stream()[pre.cursor()];
        match tok.event {
            TokenView::Scalar(t) => {
                if valid(t) && lo <= int_text_val(t) <= hi {
                    r matches Ok(v) && of(v) == int_text_val(t)
                } else {
                    r matches Err(DeserializeError::NumberParseError { text, err, type_string, span })
                        && text@ == t && type_string@ == tyname && span == tok.span && (if valid(t) {
                        err@ == "out of range"@
                    } else {
                        err@ == "invalid digit"@
                    })
                }
            },
            _ => r matches Err(DeserializeError::UnexpectedElement { event, span, location })
                && event@ == tok.event && span == tok.span && location == Location::DeserializeStr,
        }
    }
    &&& pre.cursor() >= pre.stream().len() ==> post.cursor() == pre.cursor() && (r matches Err(e)
        && pre.end_err(e))
}

impl YamlDeserializer {
    /// Consumes one scalar and parses it as unsigned decimal text with a
    /// value at most `max`, naming `tyname` in the failure diagnostic.
    fn read_uns_bounded(&mut self, max: u64, tyname: &'static str) -> (r: Result<
        u64,
        DeserializeError,
    >)
        requires
            old(self).wf(),
        ensures
            final(self).wf(),
            num_scalar_outcome(
                *old(self),
                *final(self),
                r,
                |t: Seq<char>| valid_uns_text(t),
                0,
                max as int,
                |v: u64| v as int,
                tyname@,
            ),
    {
        let (s, span) = match self.read_scalar_string() {
            Ok(p) => p,
            Err(e) => {
                return Err(e);
            },
        };
        match parse_unsigned(s.as_str()) {
            Ok(v) => {
                if v <= max {
                    Ok(v)
                } else {
                    Err(DeserializeError::number_parse_failure(
                        s,
                        String::from_str("out of range"),
                        String::from_str(tyname),
                        span,
                    ))
                }
            },
            Err(NumFail::OutOfRange) => Err(DeserializeError::number_parse_failure(
                s,
                String::from_str("out of range"),
                String::from_str(tyname),
                span,
            )),
            Err(NumFail::Invalid) => Err(DeserializeError::number_parse_failure(
                s,
                String::from_str("invalid digit"),
                String::from_str(tyname),
                span,
            )),
        }
    }

    /// Consumes one scalar and parses it as signed decimal text with a
    /// value in `[min, max]`, naming `tyname` in the failure diagnostic.
    fn read_sig_bounded(&mut self, min: i64, max: i64, tyname: &'static str) -> (r: Result<
        i64,
        DeserializeError,
    >)
        requires
            old(self).wf(),
        ensures
            final(self).wf(),
            num_scalar_outcome(
                *old(self),
                *final(self),
                r,
                |t: Seq<char>| valid_int_text(t),
                min as int,
                max as int,
                |v: i64| v as int,
                tyname@,
            ),
    {
        let (s, span) = match self.read_scalar_string() {
            Ok(p) => p,
            Err(e) => {
                return Err(e);
            },
        };
        match parse_signed(s.as_str()) {
            Ok(v) => {
                if min <= v && v <= max {
                    Ok(v)
                } else {
                    Err(DeserializeError::number_parse_failure(
                        s,
                        String::from_str("out of range"),
                        String::from_str(tyname),
                        span,
                    ))
                }
            },
            Err(NumFail::OutOfRange) => Err(DeserializeError::number_parse_failure(
                s,
                String::from_str("out of range"),
                String::from_str(tyname),
                span,
            )),
            Err(NumFail::Invalid) => Err(DeserializeError::number_parse_failure(
                s,
                String::from_str("invalid digit"),
                String::from_str(tyname),
                span,
            )),
        }
    }

    /// Decodes one `u8` scalar.
    pub fn deserialize_u8(&mut self) -> (r: Result<u8, DeserializeError>)
        requires
            old(self).wf(),
        ensures
            final(self).wf(),
            num_scalar_outcome(
                *old(self),
                *final(self),
                r,
                |t: Seq<char>| valid_uns_text(t),
                0,
                0xff,
                |v: u8| v as int,
                "u8"@,
            ),
    {
        match self.read_uns_bounded(0xff, "u8") {
            Ok(v) => Ok(v as u8),
            Err(e) => Err(e),
        }
    }

    /// Decodes one `u16` scalar.
    pub fn deserialize_u16(&mut self) -> (r: Result<u16, DeserializeError>)
        requires
            old(self).wf(),
        ensures
            final(self).wf(),
            num_scalar_outcome(
                *old(self),
                *final(self),
                r,
                |t: Seq<char>| valid_uns_text(t),
                0,
                0xffff,
                |v: u16| v as int,
                "u16"@,
            ),
    {
        match self.read_uns_bounded(0xffff, "u16") {
            Ok(v) => Ok(v as u16),
            Err(e) => Err(e),
        }
    }

    /// Decodes one `u32` scalar.
    pub fn deserialize_u32(&mut self) -> (r: Result<u32, DeserializeError>)
        requires
            old(self).wf(),
        ensures
            final(self).wf(),
            num_scalar_outcome(
                *old(self),
                *final(self),
                r,
                |t: Seq<char>| valid_uns_text(t),
                0,
                0xffff_ffff,
                |v: u32| v as int,
                "u32"@,
            ),
    {
        match self.read_uns_bounded(0xffff_ffff, "u32") {
            Ok(v) => Ok(v as u32),
            Err(e) => Err(e),
        }
    }

    /// Decodes one `u64` scalar.
    pub fn deserialize_u64(&mut self) -> (r: Result<u64, DeserializeError>)
        requires
            old(self).wf(),
        ensures
            final(self).wf(),
            num_scalar_outcome(
                *old(self),
                *final(self),
                r,
                |t: Seq<char>| valid_uns_text(t),
                0,
                0xffff_ffff_ffff_ffff,
                |v: u64| v as int,
                "u64"@,
            ),
    {
        self.read_uns_bounded(0xffff_ffff_ffff_ffff, "u64")
    }

    /// Decodes one `i8` scalar.
    pub fn deserialize_i8(&mut self) -> (r: Result<i8, DeserializeError>)
        requires
            old(self).wf(),
        ensures
            final(self).wf(),
            num_scalar_outcome(
                *old(self),
                *final(self),
                r,
                |t: Seq<char>| valid_int_text(t),
                -0x80,
                0x7f,
                |v: i8| v as int,
                "i8"@,
            ),
    {
        match self.read_sig_bounded(-0x80, 0x7f, "i8") {
            Ok(v) => Ok(v as i8),
            Err(e) => Err(e),
        }
    }

    /// Decodes one `i16` scalar.
    pub fn deserialize_i16(&mut self) -> (r: Result<i16, DeserializeError>)
        requires
            old(self).wf(),
        ensures
            final(self).wf(),
            num_scalar_outcome(
                *old(self),
                *final(self),
                r,
                |t: Seq<char>| valid_int_text(t),
                -0x8000,
                0x7fff,
                |v: i16| v as int,
                "i16"@,
            ),
    {
        match self.read_sig_bounded(-0x8000, 0x7fff, "i16") {
            Ok(v) => Ok(v as i16),
            Err(e) => Err(e),
        }
    }

    /// Decodes one `i32` scalar.
    pub fn deserialize_i32(&mut self) -> (r: Result<i32, DeserializeError>)
        requires
            old(self).wf(),
        ensures
            final(self).wf(),
            num_scalar_outcome(
                *old(self),
                *final(self),
                r,
                |t: Seq<char>| valid_int_text(t),
                -0x8000_0000,
                0x7fff_ffff,
                |v: i32| v as int,
                "i32"@,
            ),
    {
        match self.read_sig_bounded(-0x8000_0000, 0x7fff_ffff, "i32") {
            Ok(v) => Ok(v as i32),
            Err(e) => Err(e),
        }
    }

    /// Decodes one `i64` scalar.
    pub fn deserialize_i64(&mut self) -> (r: Result<i64, DeserializeError>)
        requires
            old(self).wf(),
        ensures
            final(self).wf(),
            num_scalar_outcome(
                *old(self),
                *final(self),
                r,
                |t: Seq<char>| valid_int_text(t),
                -0x8000_0000_0000_0000,
                0x7fff_ffff_ffff_ffff,
                |v: i64| v as int,
                "i64"@,
            ),
    {
        self.read_sig_bounded(-0x8000_0000_0000_0000, 0x7fff_ffff_ffff_ffff, "i64")
    }

    /// Decodes one scalar as text, handing it over unchanged.
    pub fn deserialize_str(&mut self) -> (r: Result<String, DeserializeError>)
        requires
            old(self).wf(),
        ensures
            final(self).wf(),
            final(self).same_source(old(self)),
            old(self).cursor() < old(self).stream().len() ==> final(self).cursor() == old(self).cursor() + 1 && {
                let tok = old(self).stream()[old(self).cursor()];
                match tok.event {
                    TokenView::Scalar(t) => r matches Ok(s) && s@ == t,
                    _ => r matches Err(DeserializeError::UnexpectedElement { event, span, location })
                        && event@ == tok.event && span == tok.span && location
                        == Location::DeserializeStr,
                }
            },
            old(self).cursor() >= old(self).stream().len() ==> final(self).cursor() == old(self).cursor() && (r matches Err(e) && old(self).end_err(e)),
    {
        match self.read_scalar_string() {
            Ok((s, _span)) => Ok(s),
            Err(e) => Err(e),
        }
    }

    /// Decodes one scalar as owned text; the same contract as
    /// [`Self::deserialize_str`].
    pub fn deserialize_string(&mut self) -> (r: Result<String, DeserializeError>)
        requires
            old(self).wf(),
        ensures
            final(self).wf(),
            final(self).same_source(old(self)),
            old(self).cursor() < old(self).stream().len() ==> final(self).cursor() == old(self).cursor() + 1 && {
                let tok = old(self).stream()[old(self).cursor()];
                match tok.event {
                    TokenView::Scalar(t) => r matches Ok(s) && s@ == t,
                    _ => r matches Err(DeserializeError::UnexpectedElement { event, span, location })
                        && event@ == tok.event && span == tok.span && location
                        == Location::DeserializeStr,
                }
            },
            old(self).cursor() >= old(self).stream().len() ==> final(self).cursor() == old(self).cursor() && (r matches Err(e) && old(self).end_err(e)),
    {
        self.deserialize_str()
    }

    /// Decodes one scalar as an identifier (a struct field name or an enum
    /// tag); the same contract as [`Self::deserialize_str`].
    pub fn deserialize_identifier(&mut self) -> (r: Result<String, DeserializeError>)
        requires
            old(self).wf(),
        ensures
            final(self).wf(),
            final(self).same_source(old(self)),
            old(self).cursor() < old(self).stream().len() ==> final(self).cursor() == old(self).cursor() + 1 && {
                let tok = old(self).stream()[old(self).cursor()];
                match tok.event {
                    TokenView::Scalar(t) => r matches Ok(s) && s@ == t,
                    _ => r matches Err(DeserializeError::UnexpectedElement { event, span, location })
                        && event@ == tok.event && span == tok.span && location
                        == Location::DeserializeStr,
                }
            },
            old(self).cursor() >= old(self).stream().len() ==> final(self).cursor() == old(self).cursor() && (r matches Err(e) && old(self).end_err(e)),
    {
        self.deserialize_str()
    }

    /// Decodes one scalar that must hold exactly one character; any longer
    /// or shorter text is a type error.
    pub fn deserialize_char(&mut self) -> (r: Result<char, DeserializeError>)
        requires
            old(self).wf(),
        ensures
            final(self).wf(),
            final(self).same_source(old(self)),
            old(self).cursor() < old(self).stream().len() ==> final(self).cursor() == old(self).cursor() + 1 && {
                let tok = old(self).stream()[old(self).cursor()];
                match tok.event {
                    TokenView::Scalar(t) => {
                        if t.len() == 1 {
                            r matches Ok(c) && c == t[0]
                        } else {
                            r == Result::<char, DeserializeError>::Err(DeserializeError::TypeError)
                        }
                    },
                    _ => r matches Err(DeserializeError::UnexpectedElement { event, span, location })
                        && event@ == tok.event && span == tok.span && location
                        == Location::DeserializeStr,
                }
            },
            old(self).cursor() >= old(self).stream().len() ==> final(self).cursor() == old(self).cursor() && (r matches Err(e) && old(self).end_err(e)),
    {
        let (s, _span) = match self.read_scalar_string() {
            Ok(p) => p,
            Err(e) => {
                return Err(e);
            },
        };
        if s.as_str().unicode_len() == 1 {
            Ok(s.as_str().get_char(0))
        } else {
            Err(DeserializeError::TypeError)
        }
    }

    /// Decodes unit: the next event must be a scalar in the null literal
    /// family, which is consumed; anything else is a type error and nothing
    /// is consumed.
    pub fn deserialize_unit(&mut self) -> (r: Result<(), DeserializeError>)
        requires
            old(self).wf(),
        ensures
            final(self).wf(),
            final(self).same_source(old(self)),
            if old(self).cursor() < old(self).stream().len() && (old(self).stream()[old(self).cursor()].event matches TokenView::Scalar(t) && is_null_lit(t)) {
                r is Ok && final(self).cursor() == old(self).cursor() + 1
            } else {
                r == Result::<(), DeserializeError>::Err(DeserializeError::TypeError) && final(self).cursor() == old(self).cursor()
            },
    {
        let is_null = match self.peek_scalar_string() {
            Option::Some((s, _span)) => is_null_literal(s.as_str()),
            Option::None => false,
        };
        if is_null {
            match self.next_event() {
                Ok(_) => Ok(()),
                Err(e) => Err(e),
            }
        } else {
            Err(DeserializeError::TypeError)
        }
    }

    /// Decodes a unit struct; the same contract as
    /// [`Self::deserialize_unit`].
    pub fn deserialize_unit_struct(&mut self) -> (r: Result<(), DeserializeError>)
        requires
            old(self).wf(),
        ensures
            final(self).wf(),
            final(self).same_source(old(self)),
            if old(self).cursor() < old(self).stream().len() && (old(self).stream()[old(self).cursor()].event matches TokenView::Scalar(t) && is_null_lit(t)) {
                r is Ok && final(self).cursor() == old(self).cursor() + 1
            } else {
                r == Result::<(), DeserializeError>::Err(DeserializeError::TypeError) && final(self).cursor() == old(self).cursor()
            },
    {
        self.deserialize_unit()
    }
}


/// What one self-describing value denotes at position `i` of the event
/// stream: a scalar is handed over as text, a sequence or mapping is read
/// to its end marker, and any other event denotes nothing.  The result is
/// the value and the position just past it.
pub open spec fn parse_any_at(s: Seq<SpannedTokenView>, i: int) -> Option<(ValueView, int)>
    decreases s.len() - i, 0int,
{
    if i < 0 || i >= s.len() {
        Option::None
    } else {
        match s[i].event {
            TokenView::Scalar(t) => Option::Some((ValueView::Str(t), i + 1)),
            TokenView::SequenceStart => match parse_elems_at(s, i + 1) {
                Option::Some((items, j)) => Option::Some((ValueView::Sequence(items), j)),
                Option::None => Option::None,
            },
            TokenView::MappingStart => match parse_entries_at(s, i + 1) {
                Option::Some((entries, j)) => Option::Some((ValueView::Mapping(entries), j)),
                Option::None => Option::None,
            },
            _ => Option::None,
        }
    }
}

/// The self-describing elements of an open sequence, up to and including
/// its end marker.
pub open spec fn parse_elems_at(s: Seq<SpannedTokenView>, i: int) -> Option<(Seq<ValueView>, int)>
    decreases s.len() - i, 1int,
{
    if i < 0 || i >= s.len() {
        Option::None
    } else if s[i].event is SequenceEnd {
        Option::Some((Seq::empty(), i + 1))
    } else {
        match parse_any_at(s, i) {
            Option::Some((v, j)) => if i < j <= s.len() {
                match parse_elems_at(s, j) {
                    Option::Some((rest, k)) => Option::Some((seq![v] + rest, k)),
                    Option::None => Option::None,
                }
            } else {
                Option::None
            },
            Option::None => Option::None,
        }
    }
}

/// The self-describing entries of an open mapping, up to and including its
/// end marker.
pub open spec fn parse_entries_at(s: Seq<SpannedTokenView>, i: int) -> Option<
    (Seq<EntryView>, int),
>
    decreases s.len() - i, 2int,
{
    if i < 0 || i >= s.len() {
        Option::None
    } else if s[i].event is MappingEnd {
        Option::Some((Seq::empty(), i + 1))
    } else {
        match parse_any_at(s, i) {
            Option::Some((k, j)) => if i < j <= s.len() {
                match parse_any_at(s, j) {
                    Option::Some((v, j2)) => if j < j2 <= s.len() {
                        match parse_entries_at(s, j2) {
                            Option::Some((rest, k2)) => Option::Some(
                                (seq![EntryView { key: k, val: v }] + rest, k2),
                            ),
                            Option::None => Option::None,
                        }
                    } else {
                        Option::None
                    },
                    Option::None => Option::None,
                }
            } else {
                Option::None
            },
            Option::None => Option::None,
        }
    }
}

impl YamlDeserializer {
    /// Decodes one value self-describingly, classifying by the next event
    /// alone; a sequence or mapping is consumed exactly to its end marker.
    pub fn deserialize_any(&mut self) -> (r: Result<Value, DeserializeError>)
        requires
            old(self).wf(),
        ensures
            final(self).wf(),
            final(self).same_source(old(self)),
            old(self).cursor() <= final(self).cursor(),
            match parse_any_at(old(self).stream(), old(self).cursor()) {
                Option::Some(p) => r matches Ok(v) && v@ == p.0 && final(self).cursor() == p.1
                    && old(self).cursor() < final(self).cursor(),
                Option::None => r is Err,
            },
        decreases old(self).stream().len() - old(self).cursor(), 0int,
    {
        match self.next_event() {
            Ok((ev, span)) => match ev {
                Token::Scalar(s) => Ok(Value::Str(s)),
                Token::SequenceStart => match self.read_any_elems() {
                    Ok(items) => Ok(Value::Sequence(items)),
                    Err(e) => Err(e),
                },
                Token::MappingStart => match self.read_any_entries() {
                    Ok(entries) => Ok(Value::Mapping(entries)),
                    Err(e) => Err(e),
                },
                _ => Err(DeserializeError::unexpected(ev, span, Location::DeserializeAny)),
            },
            Err(e) => Err(e),
        }
    }

    /// Decodes the elements of an open sequence self-describingly,
    /// consuming the end marker.
    fn read_any_elems(&mut self) -> (r: Result<Vec<Value>, DeserializeError>)
        requires
            old(self).wf(),
        ensures
            final(self).wf(),
            final(self).same_source(old(self)),
            old(self).cursor() <= final(self).cursor(),
            match parse_elems_at(old(self).stream(), old(self).cursor()) {
                Option::Some(p) => r matches Ok(v) && views_of_values(v@) == p.0 && final(self).cursor() == p.1 && old(self).cursor() < final(self).cursor(),
                Option::None => r is Err,
            },
        decreases old(self).stream().len() - old(self).cursor(), 1int,
    {
        let is_end = match self.peek_event() {
            Option::Some(t) => matches!(t.event, Token::SequenceEnd),
            Option::None => false,
        };
        if is_end {
            match self.next_event() {
                Ok(_) => {
                    let out: Vec<Value> = Vec::new();
                    proof {
                        assert(views_of_values(out@) =~= Seq::<ValueView>::empty());
                    }
                    Ok(out)
                },
                Err(e) => Err(e),
            }
        } else {
            let v = match self.deserialize_any() {
                Ok(v) => v,
                Err(e) => {
                    return Err(e);
                },
            };
            let mut rest = match self.read_any_elems() {
                Ok(r) => r,
                Err(e) => {
                    return Err(e);
                },
            };
            let ghost rest_snap = rest@;
            rest.insert(0, v);
            proof {
                lemma_views_of_values(rest@);
                lemma_views_of_values(rest_snap);
                assert(views_of_values(rest@) =~= seq![rest@[0]@] + views_of_values(rest_snap));
            }
            Ok(rest)
        }
    }

    /// Decodes the entries of an open mapping self-describingly, consuming
    /// the end marker.
    fn read_any_entries(&mut self) -> (r: Result<Vec<Entry>, DeserializeError>)
        requires
            old(self).wf(),
        ensures
            final(self).wf(),
            final(self).same_source(old(self)),
            old(self).cursor() <= final(self).cursor(),
            match parse_entries_at(old(self).stream(), old(self).cursor()) {
                Option::Some(p) => r matches Ok(v) && views_of_entries(v@) == p.0 && final(self).cursor() == p.1 && old(self).cursor() < final(self).cursor(),
                Option::None => r is Err,
            },
        decreases old(self).stream().len() - old(self).cursor(), 2int,
    {
        let is_end = match self.peek_event() {
            Option::Some(t) => matches!(t.event, Token::MappingEnd),
            Option::None => false,
        };
        if is_end {
            match self.next_event() {
                Ok(_) => {
                    let out: Vec<Entry> = Vec::new();
                    proof {
                        assert(views_of_entries(out@) =~= Seq::<EntryView>::empty());
                    }
                    Ok(out)
                },
                Err(e) => Err(e),
            }
        } else {
            let key = match self.deserialize_any() {
                Ok(v) => v,
                Err(e) => {
                    return Err(e);
                },
            };
            let val = match self.deserialize_any() {
                Ok(v) => v,
                Err(e) => {
                    return Err(e);
                },
            };
            let mut rest = match self.read_any_entries() {
                Ok(r) => r,
                Err(e) => {
                    return Err(e);
                },
            };
            let ghost rest_snap = rest@;
            rest.insert(0, Entry { key, val });
            proof {
                lemma_views_of_entries(rest@);
                lemma_views_of_entries(rest_snap);
                assert(views_of_entries(rest@) =~= seq![rest@[0]@] + views_of_entries(rest_snap));
            }
            Ok(rest)
        }
    }

    /// Decodes and discards one self-describing value; the same contract as
    /// [`Self::deserialize_any`].
    pub fn deserialize_ignored_any(&mut self) -> (r: Result<Value, DeserializeError>)
        requires
            old(self).wf(),
        ensures
            final(self).wf(),
            final(self).same_source(old(self)),
            old(self).cursor() <= final(self).cursor(),
            match parse_any_at(old(self).stream(), old(self).cursor()) {
                Option::Some(p) => r matches Ok(v) && v@ == p.0 && final(self).cursor() == p.1
                    && old(self).cursor() < final(self).cursor(),
                Option::None => r is Err,
            },
    {
        self.deserialize_any()
    }
}


/// The text of the scalar at position `i`, when there is one.
pub open spec fn scalar_at(s: Seq<SpannedTokenView>, i: int) -> Option<Seq<char>> {
    if 0 <= i < s.len() {
        match s[i].event {
            TokenView::Scalar(t) => Option::Some(t),
            _ => Option::None,
        }
    } else {
        Option::None
    }
}

/// One unsigned scalar with a value at most `max`.
pub open spec fn uns_case(s: Seq<SpannedTokenView>, i: int, max: int) -> Option<(ValueView, int)> {
    match scalar_at(s, i) {
        Option::Some(t) => if valid_uns_text(t) && 0 <= int_text_val(t) && int_text_val(t)
            <= max {
            Option::Some((ValueView::UInt(int_text_val(t) as u64), i + 1))
        } else {
            Option::None
        },
        Option::None => Option::None,
    }
}

/// One signed scalar with a value in `[min, max]`.
pub open spec fn sig_case(s: Seq<SpannedTokenView>, i: int, min: int, max: int) -> Option<
    (ValueView, int),
> {
    match scalar_at(s, i) {
        Option::Some(t) => if valid_int_text(t) && min <= int_text_val(t) <= max {
            Option::Some((ValueView::Int(int_text_val(t) as i64), i + 1))
        } else {
            Option::None
        },
        Option::None => Option::None,
    }
}

/// The shape of the declared field named `name`, if any.
pub open spec fn field_payload(fields: Seq<FieldShape>, name: Seq<char>) -> Option<Shape>
    decreases fields.len(),
{
    if fields.len() == 0 {
        Option::None
    } else if fields[0].name@ == name {
        Option::Some(fields[0].shape)
    } else {
        field_payload(fields.drop_first(), name)
    }
}

/// The payload shape of the declared variant tagged `tag`, if any.
pub open spec fn variant_payload(variants: Seq<VariantDecl>, tag: Seq<char>) -> Option<Shape>
    decreases variants.len(),
{
    if variants.len() == 0 {
        Option::None
    } else if variants[0].tag@ == tag {
        Option::Some(variants[0].payload)
    } else {
        variant_payload(variants.drop_first(), tag)
    }
}

/// Whether some raw entry carries the key `name`.
pub open spec fn raw_has_key(raw: Seq<(Seq<char>, ValueView)>, name: Seq<char>) -> bool {
    exists|j: int| 0 <= j < raw.len() && raw[j].0 == name
}

/// The name of the first declared field that no raw entry carries.
pub open spec fn first_missing(fields: Seq<FieldShape>, raw: Seq<(Seq<char>, ValueView)>) -> Option<
    Seq<char>,
>
    decreases fields.len(),
{
    if fields.len() == 0 {
        Option::None
    } else if !raw_has_key(raw, fields[0].name@) {
        Option::Some(fields[0].name@)
    } else {
        first_missing(fields.drop_first(), raw)
    }
}

/// The key of the first raw entry that names no declared field.
pub open spec fn first_unknown(fields: Seq<FieldShape>, raw: Seq<(Seq<char>, ValueView)>) -> Option<
    Seq<char>,
>
    decreases raw.len(),
{
    if raw.len() == 0 {
        Option::None
    } else if field_payload(fields, raw[0].0) is None {
        Option::Some(raw[0].0)
    } else {
        first_unknown(fields, raw.drop_first())
    }
}

/// The value of the last raw entry carrying the key `name`.
pub open spec fn last_value_for(raw: Seq<(Seq<char>, ValueView)>, name: Seq<char>) -> ValueView
    decreases raw.len(),
{
    if raw.len() == 0 {
        ValueView::Null
    } else if raw[raw.len() - 1].0 == name {
        raw[raw.len() - 1].1
    } else {
        last_value_for(raw.subrange(0, raw.len() - 1), name)
    }
}

/// The decoded struct: one entry per declared field, in declaration order,
/// each carrying the last raw value for that field.
pub open spec fn struct_entries(fields: Seq<FieldShape>, raw: Seq<(Seq<char>, ValueView)>) -> Seq<
    EntryView,
> {
    Seq::new(
        fields.len(),
        |i: int|
            EntryView {
                key: ValueView::Str(fields[i].name@),
                val: last_value_for(raw, fields[i].name@),
            },
    )
}

/// What one shape-directed value denotes at position `i`, and the position
/// just past it; `None` where the events do not fit the shape.
pub open spec fn decode_at(shape: Shape, s: Seq<SpannedTokenView>, i: int) -> Option<
    (ValueView, int),
>
    decreases s.len() - i, shape, 0int,
{
    if i < 0 || i > s.len() {
        Option::None
    } else {
        match shape {
            Shape::Bool => match scalar_at(s, i) {
                Option::Some(t) => if is_true_lit(t) {
                    Option::Some((ValueView::Bool(true), i + 1))
                } else if is_false_lit(t) {
                    Option::Some((ValueView::Bool(false), i + 1))
                } else {
                    Option::None
                },
                Option::None => Option::None,
            },
            Shape::U8 => uns_case(s, i, 0xff),
            Shape::U16 => uns_case(s, i, 0xffff),
            Shape::U32 => uns_case(s, i, 0xffff_ffff),
            Shape::U64 => uns_case(s, i, 0xffff_ffff_ffff_ffff),
            Shape::I8 => sig_case(s, i, -0x80, 0x7f),
            Shape::I16 => sig_case(s, i, -0x8000, 0x7fff),
            Shape::I32 => sig_case(s, i, -0x8000_0000, 0x7fff_ffff),
            Shape::I64 => sig_case(s, i, -0x8000_0000_0000_0000, 0x7fff_ffff_ffff_ffff),
            Shape::Char => match scalar_at(s, i) {
                Option::Some(t) => if t.len() == 1 {
                    Option::Some((ValueView::Str(t), i + 1))
                } else {
                    Option::None
                },
                Option::None => Option::None,
            },
            Shape::Str => match scalar_at(s, i) {
                Option::Some(t) => Option::Some((ValueView::Str(t), i + 1)),
                Option::None => Option::None,
            },
            Shape::Unit => match scalar_at(s, i) {
                Option::Some(t) => if is_null_lit(t) {
                    Option::Some((ValueView::Null, i + 1))
                } else {
                    Option::None
                },
                Option::None => Option::None,
            },
            Shape::Optional(inner) => if scalar_at(s, i) matches Option::Some(t) && is_null_lit(
                t,
            ) {
                Option::Some((ValueView::Null, i + 1))
            } else {
                decode_at(*inner, s, i)
            },
            Shape::SequenceOf(elem) => if i < s.len() && s[i].event is SequenceStart {
                match decode_elems_at(*elem, s, i + 1) {
                    Option::Some((items, j)) => Option::Some((ValueView::Sequence(items), j)),
                    Option::None => Option::None,
                }
            } else {
                Option::None
            },
            Shape::TupleOf(shapes) => if i < s.len() && s[i].event is SequenceStart {
                match decode_tuple_at(shapes@, s, i + 1) {
                    Option::Some((items, j)) => Option::Some((ValueView::Sequence(items), j)),
                    Option::None => Option::None,
                }
            } else {
                Option::None
            },
            Shape::StructOf(fields) => if i < s.len() && s[i].event is MappingStart {
                match decode_raw_fields(fields@, s, i + 1) {
                    Option::Some((raw, j)) => if first_missing(fields@, raw) is None
                        && first_unknown(fields@, raw) is None {
                        Option::Some((ValueView::Mapping(struct_entries(fields@, raw)), j))
                    } else {
                        Option::None
                    },
                    Option::None => Option::None,
                }
            } else {
                Option::None
            },
            Shape::MapOf(kshape, vshape) => if i < s.len() && s[i].event is MappingStart {
                match decode_pairs_at(*kshape, *vshape, s, i + 1) {
                    Option::Some((entries, j)) => Option::Some((ValueView::Mapping(entries), j)),
                    Option::None => Option::None,
                }
            } else {
                Option::None
            },
            Shape::EnumOf(variants) => if i < s.len() {
                match s[i].event {
                    TokenView::Scalar(tag) => match variant_payload(variants@, tag) {
                        Option::Some(payload) => if payload is Unit {
                            Option::Some((ValueView::Str(tag), i + 1))
                        } else {
                            Option::None
                        },
                        Option::None => Option::None,
                    },
                    TokenView::MappingStart => match scalar_at(s, i + 1) {
                        Option::Some(tag) => match variant_payload(variants@, tag) {
                            Option::Some(payload) => match decode_at(payload, s, i + 2) {
                                Option::Some((pv, j)) => if 0 <= j < s.len() && s[j].event
                                    is MappingEnd {
                                    Option::Some(
                                        (ValueView::Tagged(tag, Box::new(pv)), j + 1),
                                    )
                                } else {
                                    Option::None
                                },
                                Option::None => Option::None,
                            },
                            Option::None => Option::None,
                        },
                        Option::None => Option::None,
                    },
                    _ => Option::None,
                }
            } else {
                Option::None
            },
            Shape::Any => parse_any_at(s, i),
        }
    }
}

/// The shape-directed elements of an open sequence, up to and including its
/// end marker.
pub open spec fn decode_elems_at(elem: Shape, s: Seq<SpannedTokenView>, i: int) -> Option<
    (Seq<ValueView>, int),
>
    decreases s.len() - i, elem, 1int,
{
    if i < 0 || i >= s.len() {
        Option::None
    } else if s[i].event is SequenceEnd {
        Option::Some((Seq::empty(), i + 1))
    } else {
        match decode_at(elem, s, i) {
            Option::Some((v, j)) => if i < j <= s.len() {
                match decode_elems_at(elem, s, j) {
                    Option::Some((rest, k)) => Option::Some((seq![v] + rest, k)),
                    Option::None => Option::None,
                }
            } else {
                Option::None
            },
            Option::None => Option::None,
        }
    }
}

/// The fixed-arity elements of an open sequence: one value per declared
/// shape, then the end marker.
pub open spec fn decode_tuple_at(shapes: Seq<Shape>, s: Seq<SpannedTokenView>, i: int) -> Option<
    (Seq<ValueView>, int),
>
    decreases s.len() - i, shapes, 1int,
{
    if i < 0 || i >= s.len() {
        Option::None
    } else if shapes.len() == 0 {
        if s[i].event is SequenceEnd {
            Option::Some((Seq::empty(), i + 1))
        } else {
            Option::None
        }
    } else {
        match decode_at(shapes[0], s, i) {
            Option::Some((v, j)) => if i < j <= s.len() {
                match decode_tuple_at(shapes.drop_first(), s, j) {
                    Option::Some((rest, k)) => Option::Some((seq![v] + rest, k)),
                    Option::None => Option::None,
                }
            } else {
                Option::None
            },
            Option::None => Option::None,
        }
    }
}

/// The shape-directed entries of an open free mapping, up to and including
/// its end marker.
pub open spec fn decode_pairs_at(
    kshape: Shape,
    vshape: Shape,
    s: Seq<SpannedTokenView>,
    i: int,
) -> Option<(Seq<EntryView>, int)>
    decreases s.len() - i, kshape, 1int,
{
    if i < 0 || i >= s.len() {
        Option::None
    } else if s[i].event is MappingEnd {
        Option::Some((Seq::empty(), i + 1))
    } else {
        match decode_at(kshape, s, i) {
            Option::Some((k, j)) => if i < j <= s.len() {
                match decode_at(vshape, s, j) {
                    Option::Some((v, j2)) => if j < j2 <= s.len() {
                        match decode_pairs_at(kshape, vshape, s, j2) {
                            Option::Some((rest, k2)) => Option::Some(
                                (seq![EntryView { key: k, val: v }] + rest, k2),
                            ),
                            Option::None => Option::None,
                        }
                    } else {
                        Option::None
                    },
                    Option::None => Option::None,
                }
            } else {
                Option::None
            },
            Option::None => Option::None,
        }
    }
}

/// The raw entries of an open struct mapping: each key a scalar, each value
/// decoded by its declared field shape, or self-describingly where the key
/// names no field (so the cursor invariant holds even for unknown fields);
/// ends at, and consumes, the end marker.
pub open spec fn decode_raw_fields(
    fields: Seq<FieldShape>,
    s: Seq<SpannedTokenView>,
    i: int,
) -> Option<(Seq<(Seq<char>, ValueView)>, int)>
    decreases s.len() - i, fields, 1int,
{
    if i < 0 || i >= s.len() {
        Option::None
    } else if s[i].event is MappingEnd {
        Option::Some((Seq::empty(), i + 1))
    } else {
        match scalar_at(s, i) {
            Option::Some(key) => {
                let dec = match field_payload(fields, key) {
                    Option::Some(fshape) => decode_at(fshape, s, i + 1),
                    Option::None => parse_any_at(s, i + 1),
                };
                match dec {
                    Option::Some((v, j)) => if i + 1 < j <= s.len() {
                        match decode_raw_fields(fields, s, j) {
                            Option::Some((rest, k)) => Option::Some((seq![(key, v)] + rest, k)),
                            Option::None => Option::None,
                        }
                    } else {
                        Option::None
                    },
                    Option::None => Option::None,
                }
            },
            Option::None => Option::None,
        }
    }
}

/// What every shape-directed decode call guarantees: the source is
/// untouched, the cursor only advances, and the result is `Ok` exactly when
/// the events at the cursor fit `shape` -- yielding that value and leaving
/// the cursor just past it.
/// No shape decodes where the next event is not a scalar or the start of a
/// collection (or the stream is exhausted).
pub proof fn lemma_decode_at_none(shape: Shape, s: Seq<SpannedTokenView>, i: int)
    requires
        !(0 <= i < s.len() && (s[i].event is Scalar || s[i].event is SequenceStart || s[i].event
            is MappingStart)),
    ensures
        decode_at(shape, s, i) is None,
    decreases shape,
{
    match shape {
        Shape::Optional(inner) => lemma_decode_at_none(*inner, s, i),
        _ => {},
    }
}

pub open spec fn shape_outcome(
    pre: YamlDeserializer,
    post: YamlDeserializer,
    r: Result<Value, DeserializeError>,
    shape: Shape,
) -> bool {
    &&& post.same_source(&pre)
    &&& pre.cursor() <= post.cursor()
    &&& match decode_at(shape, pre.stream(), pre.cursor()) {
        Option::Some(p) => r matches Ok(v) && v@ == p.0 && post.cursor() == p.1 && pre.cursor()
            < post.cursor(),
        Option::None => r is Err,
    }
}


/// One raw struct entry as read from the document: the key text and the
/// decoded value.
pub struct RawField {
    pub name: String,
    pub val: Value,
}

/// The images of a run of raw struct entries.
pub open spec fn raw_views(s: Seq<RawField>) -> Seq<(Seq<char>, ValueView)> {
    s.map_values(|r: RawField| (r.name@, r.val@))
}

/// Finds the declared field named `name` among `fields[k..]`.
fn find_field_from<'a>(fields: &'a Vec<FieldShape>, k: usize, name: &str) -> (r: Option<&'a Shape>)
    requires
        k <= fields@.len(),
    ensures
        match r {
            Option::Some(sh) => field_payload(fields@.skip(k as int), name@) == Option::Some(*sh),
            Option::None => field_payload(fields@.skip(k as int), name@) is None,
        },
    decreases fields@.len() - k,
{
    if k == fields.len() {
        proof {
            assert(fields@.skip(k as int) =~= Seq::<FieldShape>::empty());
        }
        None
    } else {
        proof {
            assert(fields@.skip(k as int)[0] == fields@[k as int]);
            assert(fields@.skip(k as int).drop_first() =~= fields@.skip(k as int + 1));
        }
        if crate::strutil::str_eq(fields[k].name.as_str(), name) {
            Some(&fields[k].shape)
        } else {
            find_field_from(fields, k + 1, name)
        }
    }
}

/// Finds the declared field named `name`.
fn find_field<'a>(fields: &'a Vec<FieldShape>, name: &str) -> (r: Option<&'a Shape>)
    ensures
        match r {
            Option::Some(sh) => field_payload(fields@, name@) == Option::Some(*sh),
            Option::None => field_payload(fields@, name@) is None,
        },
{
    proof {
        assert(fields@.skip(0) =~= fields@);
    }
    find_field_from(fields, 0, name)
}

/// Finds the declared variant tagged `tag` among `variants[k..]`.
fn find_variant_from<'a>(variants: &'a Vec<VariantDecl>, k: usize, tag: &str) -> (r: Option<
    &'a Shape,
>)
    requires
        k <= variants@.len(),
    ensures
        match r {
            Option::Some(sh) => variant_payload(variants@.skip(k as int), tag@) == Option::Some(
                *sh,
            ),
            Option::None => variant_payload(variants@.skip(k as int), tag@) is None,
        },
    decreases variants@.len() - k,
{
    if k == variants.len() {
        proof {
            assert(variants@.skip(k as int) =~= Seq::<VariantDecl>::empty());
        }
        None
    } else {
        proof {
            assert(variants@.skip(k as int)[0] == variants@[k as int]);
            assert(variants@.skip(k as int).drop_first() =~= variants@.skip(k as int + 1));
        }
        if crate::strutil::str_eq(variants[k].tag.as_str(), tag) {
            Some(&variants[k].payload)
        } else {
            find_variant_from(variants, k + 1, tag)
        }
    }
}

/// Finds the declared variant tagged `tag`.
fn find_variant<'a>(variants: &'a Vec<VariantDecl>, tag: &str) -> (r: Option<&'a Shape>)
    ensures
        match r {
            Option::Some(sh) => variant_payload(variants@, tag@) == Option::Some(*sh),
            Option::None => variant_payload(variants@, tag@) is None,
        },
{
    proof {
        assert(variants@.skip(0) =~= variants@);
    }
    find_variant_from(variants, 0, tag)
}

impl YamlDeserializer {
    /// Decodes one value as directed by `shape`.
    pub fn deserialize_value(&mut self, shape: &Shape) -> (r: Result<Value, DeserializeError>)
        requires
            old(self).wf(),
        ensures
            final(self).wf(),
            shape_outcome(*old(self), *final(self), r, *shape),
        decreases old(self).stream().len() - old(self).cursor(), *shape, 0int,
    {
        match shape {
            Shape::Bool => match self.read_boolean() {
                Ok(b) => Ok(Value::Bool(b)),
                Err(e) => Err(e),
            },
            Shape::U8 => match self.deserialize_u8() {
                Ok(v) => Ok(Value::UInt(v as u64)),
                Err(e) => Err(e),
            },
            Shape::U16 => match self.deserialize_u16() {
                Ok(v) => Ok(Value::UInt(v as u64)),
                Err(e) => Err(e),
            },
            Shape::U32 => match self.deserialize_u32() {
                Ok(v) => Ok(Value::UInt(v as u64)),
                Err(e) => Err(e),
            },
            Shape::U64 => match self.deserialize_u64() {
                Ok(v) => Ok(Value::UInt(v)),
                Err(e) => Err(e),
            },
            Shape::I8 => match self.deserialize_i8() {
                Ok(v) => Ok(Value::Int(v as i64)),
                Err(e) => Err(e),
            },
            Shape::I16 => match self.deserialize_i16() {
                Ok(v) => Ok(Value::Int(v as i64)),
                Err(e) => Err(e),
            },
            Shape::I32 => match self.deserialize_i32() {
                Ok(v) => Ok(Value::Int(v as i64)),
                Err(e) => Err(e),
            },
            Shape::I64 => match self.deserialize_i64() {
                Ok(v) => Ok(Value::Int(v)),
                Err(e) => Err(e),
            },
            Shape::Char => {
                let (s, _span) = match self.read_scalar_string() {
                    Ok(p) => p,
                    Err(e) => {
                        return Err(e);
                    },
                };
                if s.as_str().unicode_len() == 1 {
                    Ok(Value::Str(s))
                } else {
                    Err(DeserializeError::TypeError)
                }
            },
            Shape::Str => match self.read_scalar_string() {
                Ok((s, _span)) => Ok(Value::Str(s)),
                Err(e) => Err(e),
            },
            Shape::Unit => match self.deserialize_unit() {
                Ok(()) => Ok(Value::Null),
                Err(e) => Err(e),
            },
            Shape::Optional(inner) => self.deserialize_option(inner),
            Shape::SequenceOf(elem) => self.deserialize_seq(elem),
            Shape::TupleOf(shapes) => self.deserialize_tuple(shapes),
            Shape::StructOf(fields) => self.deserialize_struct(fields),
            Shape::MapOf(kshape, vshape) => self.deserialize_map(kshape, vshape),
            Shape::EnumOf(variants) => self.deserialize_enum(variants),
            Shape::Any => self.deserialize_any(),
        }
    }

    /// Decodes an optional value: a scalar in the null literal family is
    /// consumed and denotes absence; anything else decodes as `inner`.
    pub fn deserialize_option(&mut self, inner: &Shape) -> (r: Result<Value, DeserializeError>)
        requires
            old(self).wf(),
        ensures
            final(self).wf(),
            shape_outcome(
                *old(self),
                *final(self),
                r,
                Shape::Optional(Box::new(*inner)),
            ),
        decreases old(self).stream().len() - old(self).cursor(), *inner, 1int,
    {
        let is_null = match self.peek_scalar_string() {
            Option::Some((s, _span)) => is_null_literal(s.as_str()),
            Option::None => false,
        };
        if is_null {
            match self.next_event() {
                Ok(_) => Ok(Value::Null),
                Err(e) => Err(e),
            }
        } else {
            self.deserialize_value(inner)
        }
    }

    /// Decodes a sequence of elements of one shape, from its start marker
    /// through its end marker.
    pub fn deserialize_seq(&mut self, elem: &Shape) -> (r: Result<Value, DeserializeError>)
        requires
            old(self).wf(),
        ensures
            final(self).wf(),
            shape_outcome(
                *old(self),
                *final(self),
                r,
                Shape::SequenceOf(Box::new(*elem)),
            ),
        decreases old(self).stream().len() - old(self).cursor(), *elem, 1int,
    {
        match self.start_sequence() {
            Ok(()) => {},
            Err(e) => {
                return Err(e);
            },
        }
        match self.read_typed_elems(elem) {
            Ok(items) => Ok(Value::Sequence(items)),
            Err(e) => Err(e),
        }
    }

    /// Decodes the elements of an open sequence as directed by `elem`,
    /// consuming the end marker.
    fn read_typed_elems(&mut self, elem: &Shape) -> (r: Result<Vec<Value>, DeserializeError>)
        requires
            old(self).wf(),
        ensures
            final(self).wf(),
            final(self).same_source(old(self)),
            old(self).cursor() <= final(self).cursor(),
            match decode_elems_at(*elem, old(self).stream(), old(self).cursor()) {
                Option::Some(p) => r matches Ok(v) && views_of_values(v@) == p.0 && final(self).cursor() == p.1 && old(self).cursor() < final(self).cursor(),
                Option::None => r is Err,
            },
        decreases old(self).stream().len() - old(self).cursor(), *elem, 2int,
    {
        let is_end = match self.peek_event() {
            Option::Some(t) => matches!(t.event, Token::SequenceEnd),
            Option::None => false,
        };
        if is_end {
            match self.next_event() {
                Ok(_) => {
                    let out: Vec<Value> = Vec::new();
                    proof {
                        assert(views_of_values(out@) =~= Seq::<ValueView>::empty());
                    }
                    Ok(out)
                },
                Err(e) => Err(e),
            }
        } else {
            let v = match self.deserialize_value(elem) {
                Ok(v) => v,
                Err(e) => {
                    return Err(e);
                },
            };
            let mut rest = match self.read_typed_elems(elem) {
                Ok(r) => r,
                Err(e) => {
                    return Err(e);
                },
            };
            let ghost rest_snap = rest@;
            rest.insert(0, v);
            proof {
                lemma_views_of_values(rest@);
                lemma_views_of_values(rest_snap);
                assert(views_of_values(rest@) =~= seq![rest@[0]@] + views_of_values(rest_snap));
            }
            Ok(rest)
        }
    }

    /// Decodes a fixed-arity sequence: one element per declared shape, then
    /// the end marker; too few or too many elements fail.
    pub fn deserialize_tuple(&mut self, shapes: &Vec<Shape>) -> (r: Result<Value, DeserializeError>)
        requires
            old(self).wf(),
        ensures
            final(self).wf(),
            shape_outcome(*old(self), *final(self), r, Shape::TupleOf(*shapes)),
        decreases old(self).stream().len() - old(self).cursor(), *shapes, 1int,
    {
        match self.start_sequence() {
            Ok(()) => {},
            Err(e) => {
                return Err(e);
            },
        }
        proof {
            assert(shapes@.skip(0) =~= shapes@);
        }
        match self.read_tuple_elems(shapes, 0) {
            Ok(items) => Ok(Value::Sequence(items)),
            Err(e) => Err(e),
        }
    }

    /// Decodes the remaining elements `shapes[k..]` of an open fixed-arity
    /// sequence, consuming the end marker.
    fn read_tuple_elems(&mut self, shapes: &Vec<Shape>, k: usize) -> (r: Result<
        Vec<Value>,
        DeserializeError,
    >)
        requires
            old(self).wf(),
            k <= shapes@.len(),
        ensures
            final(self).wf(),
            final(self).same_source(old(self)),
            old(self).cursor() <= final(self).cursor(),
            match decode_tuple_at(shapes@.skip(k as int), old(self).stream(), old(self).cursor()) {
                Option::Some(p) => r matches Ok(v) && views_of_values(v@) == p.0 && final(self).cursor() == p.1 && old(self).cursor() < final(self).cursor(),
                Option::None => r is Err,
            },
        decreases old(self).stream().len() - old(self).cursor(), shapes@.skip(k as int), 2int,
    {
        if k == shapes.len() {
            proof {
                assert(shapes@.skip(k as int) =~= Seq::<Shape>::empty());
            }
            match self.end_sequence() {
                Ok(()) => {
                    let out: Vec<Value> = Vec::new();
                    proof {
                        assert(views_of_values(out@) =~= Seq::<ValueView>::empty());
                    }
                    Ok(out)
                },
                Err(e) => Err(e),
            }
        } else {
            proof {
                assert(shapes@.skip(k as int)[0] == shapes@[k as int]);
                assert(shapes@.skip(k as int).drop_first() =~= shapes@.skip(k as int + 1));
            }
            let is_end = match self.peek_event() {
                Option::Some(t) => matches!(t.event, Token::SequenceEnd),
                Option::None => false,
            };
            if is_end {
                proof {
                    lemma_decode_at_none(shapes@[k as int], self.stream(), self.cursor());
                }
                return Err(DeserializeError::TypeError);
            }
            let v = match self.deserialize_value(&shapes[k]) {
                Ok(v) => v,
                Err(e) => {
                    return Err(e);
                },
            };
            let mut rest = match self.read_tuple_elems(shapes, k + 1) {
                Ok(r) => r,
                Err(e) => {
                    return Err(e);
                },
            };
            let ghost rest_snap = rest@;
            rest.insert(0, v);
            proof {
                lemma_views_of_values(rest@);
                lemma_views_of_values(rest_snap);
                assert(views_of_values(rest@) =~= seq![rest@[0]@] + views_of_values(rest_snap));
            }
            Ok(rest)
        }
    }

    /// Decodes a fixed-arity sequence standing for a tuple struct; the same
    /// contract as [`Self::deserialize_tuple`].
    pub fn deserialize_tuple_struct(&mut self, shapes: &Vec<Shape>) -> (r: Result<
        Value,
        DeserializeError,
    >)
        requires
            old(self).wf(),
        ensures
            final(self).wf(),
            shape_outcome(*old(self), *final(self), r, Shape::TupleOf(*shapes)),
        decreases old(self).stream().len() - old(self).cursor(), *shapes, 2int,
    {
        self.deserialize_tuple(shapes)
    }

    /// Decodes the single inner value of a newtype struct, transparently.
    pub fn deserialize_newtype_struct(&mut self, inner: &Shape) -> (r: Result<
        Value,
        DeserializeError,
    >)
        requires
            old(self).wf(),
        ensures
            final(self).wf(),
            shape_outcome(*old(self), *final(self), r, *inner),
        decreases old(self).stream().len() - old(self).cursor(), *inner, 1int,
    {
        self.deserialize_value(inner)
    }

    /// Decodes a free mapping: every key by `kshape`, every value by
    /// `vshape`, from its start marker through its end marker.
    pub fn deserialize_map(&mut self, kshape: &Shape, vshape: &Shape) -> (r: Result<
        Value,
        DeserializeError,
    >)
        requires
            old(self).wf(),
        ensures
            final(self).wf(),
            shape_outcome(
                *old(self),
                *final(self),
                r,
                Shape::MapOf(Box::new(*kshape), Box::new(*vshape)),
            ),
        decreases old(self).stream().len() - old(self).cursor(), *kshape, 1int,
    {
        match self.start_map() {
            Ok(()) => {},
            Err(e) => {
                return Err(e);
            },
        }
        match self.read_map_pairs(kshape, vshape) {
            Ok(entries) => Ok(Value::Mapping(entries)),
            Err(e) => Err(e),
        }
    }

    /// Decodes the entries of an open free mapping, consuming the end
    /// marker.
    fn read_map_pairs(&mut self, kshape: &Shape, vshape: &Shape) -> (r: Result<
        Vec<Entry>,
        DeserializeError,
    >)
        requires
            old(self).wf(),
        ensures
            final(self).wf(),
            final(self).same_source(old(self)),
            old(self).cursor() <= final(self).cursor(),
            match decode_pairs_at(*kshape, *vshape, old(self).stream(), old(self).cursor()) {
                Option::Some(p) => r matches Ok(v) && views_of_entries(v@) == p.0 && final(self).cursor() == p.1 && old(self).cursor() < final(self).cursor(),
                Option::None => r is Err,
            },
        decreases old(self).stream().len() - old(self).cursor(), *kshape, 2int,
    {
        let is_end = match self.peek_event() {
            Option::Some(t) => matches!(t.event, Token::MappingEnd),
            Option::None => false,
        };
        if is_end {
            match self.next_event() {
                Ok(_) => {
                    let out: Vec<Entry> = Vec::new();
                    proof {
                        assert(views_of_entries(out@) =~= Seq::<EntryView>::empty());
                    }
                    Ok(out)
                },
                Err(e) => Err(e),
            }
        } else {
            let key = match self.deserialize_value(kshape) {
                Ok(v) => v,
                Err(e) => {
                    return Err(e);
                },
            };
            let val = match self.deserialize_value(vshape) {
                Ok(v) => v,
                Err(e) => {
                    return Err(e);
                },
            };
            let mut rest = match self.read_map_pairs(kshape, vshape) {
                Ok(r) => r,
                Err(e) => {
                    return Err(e);
                },
            };
            let ghost rest_snap = rest@;
            rest.insert(0, Entry { key, val });
            proof {
                lemma_views_of_entries(rest@);
                lemma_views_of_entries(rest_snap);
                assert(views_of_entries(rest@) =~= seq![rest@[0]@] + views_of_entries(rest_snap));
            }
            Ok(rest)
        }
    }

    /// Decodes an enum by one event of lookahead: a bare scalar is a unit
    /// variant's tag; a mapping whose single key is the tag carries the
    /// variant's payload, and the mapping's end is asserted after it.
    pub fn deserialize_enum(&mut self, variants: &Vec<VariantDecl>) -> (r: Result<
        Value,
        DeserializeError,
    >)
        requires
            old(self).wf(),
        ensures
            final(self).wf(),
            shape_outcome(*old(self), *final(self), r, Shape::EnumOf(*variants)),
        decreases old(self).stream().len() - old(self).cursor(), *variants, 1int,
    {
        match self.next_event() {
            Ok((ev, span)) => match ev {
                Token::Scalar(tag) => match find_variant(variants, tag.as_str()) {
                    Option::Some(payload) => match payload {
                        Shape::Unit => Ok(Value::Str(tag)),
                        _ => Err(DeserializeError::TypeError),
                    },
                    Option::None => {
                        let mut m = String::from_str("Unknown variant `");
                        m.append(tag.as_str());
                        m.append("`");
                        Err(DeserializeError::SerdeError(m))
                    },
                },
                Token::MappingStart => {
                    let (tag, _tspan) = match self.read_scalar_string() {
                        Ok(p) => p,
                        Err(e) => {
                            return Err(e);
                        },
                    };
                    let payload = match find_variant(variants, tag.as_str()) {
                        Option::Some(p) => p,
                        Option::None => {
                            let mut m = String::from_str("Unknown variant `");
                            m.append(tag.as_str());
                            m.append("`");
                            return Err(DeserializeError::SerdeError(m));
                        },
                    };
                    let pv = match self.deserialize_value(payload) {
                        Ok(v) => v,
                        Err(e) => {
                            return Err(e);
                        },
                    };
                    match self.end_map() {
                        Ok(()) => Ok(Value::Tagged(tag, Box::new(pv))),
                        Err(e) => Err(e),
                    }
                },
                _ => Err(DeserializeError::unexpected(ev, span, Location::DeserializeEnum)),
            },
            Err(e) => Err(e),
        }
    }
}


/// Skipping fields that all have raw entries does not change the first
/// missing field.
proof fn lemma_first_missing_prefix(
    fields: Seq<FieldShape>,
    raw: Seq<(Seq<char>, ValueView)>,
    i: int,
)
    requires
        0 <= i <= fields.len(),
        forall|j: int| 0 <= j < i ==> raw_has_key(raw, #[trigger] fields[j].name@),
    ensures
        first_missing(fields, raw) == first_missing(fields.skip(i), raw),
    decreases i,
{
    if i == 0 {
        assert(fields.skip(0) =~= fields);
    } else {
        lemma_first_missing_prefix(fields, raw, i - 1);
        assert(fields.skip(i - 1)[0] == fields[i - 1]);
        assert(raw_has_key(raw, fields.skip(i - 1)[0].name@));
        assert(fields.skip(i - 1).drop_first() =~= fields.skip(i));
        assert(first_missing(fields.skip(i - 1), raw) == first_missing(
            fields.skip(i - 1).drop_first(),
            raw,
        ));
    }
}

/// Skipping raw entries that all name declared fields does not change the
/// first unknown key.
proof fn lemma_first_unknown_prefix(
    fields: Seq<FieldShape>,
    raw: Seq<(Seq<char>, ValueView)>,
    u: int,
)
    requires
        0 <= u <= raw.len(),
        forall|j: int| 0 <= j < u ==> field_payload(fields, #[trigger] raw[j].0) is Some,
    ensures
        first_unknown(fields, raw) == first_unknown(fields, raw.skip(u)),
    decreases u,
{
    if u == 0 {
        assert(raw.skip(0) =~= raw);
    } else {
        lemma_first_unknown_prefix(fields, raw, u - 1);
        assert(raw.skip(u - 1)[0] == raw[u - 1]);
        assert(field_payload(fields, raw.skip(u - 1)[0].0) is Some);
        assert(raw.skip(u - 1).drop_first() =~= raw.skip(u));
        assert(first_unknown(fields, raw.skip(u - 1)) == first_unknown(
            fields,
            raw.skip(u - 1).drop_first(),
        ));
    }
}

/// Finds, among `raw[..k]`, the last entry carrying `name`.
fn find_last_raw(raw: &Vec<RawField>, k: usize, name: &str) -> (r: Option<usize>)
    requires
        k <= raw@.len(),
    ensures
        match r {
            Option::Some(j) => j < k && raw@[j as int].name@ == name@ && raw_has_key(
                raw_views(raw@.take(k as int)),
                name@,
            ) && last_value_for(raw_views(raw@.take(k as int)), name@) == raw@[j as int].val@,
            Option::None => !raw_has_key(raw_views(raw@.take(k as int)), name@),
        },
    decreases k,
{
    if k == 0 {
        proof {
            assert(raw_views(raw@.take(0)) =~= Seq::<(Seq<char>, ValueView)>::empty());
        }
        None
    } else {
        proof {
            let cur = raw_views(raw@.take(k as int));
            assert(cur[k - 1] == (raw@[k - 1].name@, raw@[k - 1].val@));
            assert(cur.subrange(0, k - 1) =~= raw_views(raw@.take(k - 1)));
        }
        if crate::strutil::str_eq(raw[k - 1].name.as_str(), name) {
            Some(k - 1)
        } else {
            let r = find_last_raw(raw, k - 1, name);
            proof {
                let cur = raw_views(raw@.take(k as int));
                let prev = raw_views(raw@.take(k - 1));
                assert(cur.subrange(0, k - 1) =~= prev);
                if raw_has_key(cur, name@) {
                    let j = choose|j: int| 0 <= j < cur.len() && cur[j].0 == name@;
                    assert(j < k - 1);
                    assert(prev[j] == cur[j]);
                    assert(raw_has_key(prev, name@));
                }
                if raw_has_key(prev, name@) {
                    let j = choose|j: int| 0 <= j < prev.len() && prev[j].0 == name@;
                    assert(cur[j] == prev[j]);
                    assert(raw_has_key(cur, name@));
                }
            }
            r
        }
    }
}

/// Builds the struct value from the raw entries: one entry per declared
/// field in declaration order, the last raw value winning per field; a
/// missing declared field is reported by name first, then an unknown key.
fn assemble_struct(fields: &Vec<FieldShape>, raw: Vec<RawField>) -> (r: Result<
    Value,
    DeserializeError,
>)
    ensures
        ({
            let rv = raw_views(raw@);
            match first_missing(fields@, rv) {
                Option::Some(name) => r matches Err(DeserializeError::SerdeError(m)) && m@
                    == "Missing field `"@ + name + "`"@,
                Option::None => match first_unknown(fields@, rv) {
                    Option::Some(name) => r matches Err(DeserializeError::SerdeError(m)) && m@
                        == "Unknown field `"@ + name + "`"@,
                    Option::None => r matches Ok(v) && v@ == ValueView::Mapping(
                        struct_entries(fields@, rv),
                    ),
                },
            }
        }),
{
    let ghost rv = raw_views(raw@);
    proof {
        assert(raw@.take(raw@.len() as int) =~= raw@);
    }
    let mut i: usize = 0;
    while i < fields.len()
        invariant
            i <= fields@.len(),
            rv == raw_views(raw@),
            raw@.take(raw@.len() as int) == raw@,
            forall|j: int| 0 <= j < i ==> raw_has_key(rv, #[trigger] fields@[j].name@),
        decreases fields@.len() - i,
    {
        match find_last_raw(&raw, raw.len(), fields[i].name.as_str()) {
            Option::Some(_) => {},
            Option::None => {
                proof {
                    lemma_first_missing_prefix(fields@, rv, i as int);
                    assert(fields@.skip(i as int)[0] == fields@[i as int]);
                    assert(first_missing(fields@, rv) == Option::Some(fields@[i as int].name@));
                }
                let mut m = String::from_str("Missing field `");
                m.append(fields[i].name.as_str());
                m.append("`");
                proof {
                    assert(m@ == "Missing field `"@ + fields@[i as int].name@ + "`"@);
                }
                return Err(DeserializeError::SerdeError(m));
            },
        }
        i = i + 1;
    }
    proof {
        lemma_first_missing_prefix(fields@, rv, fields@.len() as int);
        assert(fields@.skip(fields@.len() as int) =~= Seq::<FieldShape>::empty());
    }
    let mut u: usize = 0;
    while u < raw.len()
        invariant
            u <= raw@.len(),
            rv == raw_views(raw@),
            first_missing(fields@, rv) is None,
            forall|j: int| 0 <= j < u ==> field_payload(fields@, #[trigger] rv[j].0) is Some,
        decreases raw@.len() - u,
    {
        match find_field(fields, raw[u].name.as_str()) {
            Option::Some(_) => {
                proof {
                    assert(rv[u as int].0 == raw@[u as int].name@);
                }
            },
            Option::None => {
                proof {
                    lemma_first_unknown_prefix(fields@, rv, u as int);
                    assert(rv.skip(u as int)[0] == rv[u as int]);
                    assert(rv[u as int].0 == raw@[u as int].name@);
                    assert(first_unknown(fields@, rv) == Option::Some(raw@[u as int].name@));
                }
                let mut m = String::from_str("Unknown field `");
                m.append(raw[u].name.as_str());
                m.append("`");
                proof {
                    assert(m@ == "Unknown field `"@ + raw@[u as int].name@ + "`"@);
                }
                return Err(DeserializeError::SerdeError(m));
            },
        }
        u = u + 1;
    }
    proof {
        lemma_first_unknown_prefix(fields@, rv, rv.len() as int);
        assert(rv.skip(rv.len() as int) =~= Seq::<(Seq<char>, ValueView)>::empty());
    }
    let mut entries: Vec<Entry> = Vec::new();
    let mut n: usize = 0;
    while n < fields.len()
        invariant
            n <= fields@.len(),
            rv == raw_views(raw@),
            raw@.take(raw@.len() as int) == raw@,
            first_missing(fields@, rv) is None,
            first_unknown(fields@, rv) is None,
            entries@.len() == n,
            forall|j: int| 0 <= j < fields@.len() ==> raw_has_key(rv, #[trigger] fields@[j].name@),
            forall|j: int| 0 <= j < n ==> entries@[j]@ == (EntryView {
                key: ValueView::Str(fields@[j].name@),
                val: last_value_for(rv, fields@[j].name@),
            }),
        decreases fields@.len() - n,
    {
        match find_last_raw(&raw, raw.len(), fields[n].name.as_str()) {
            Option::Some(j) => {
                let v = raw[j].val.duplicate();
                entries.push(Entry { key: Value::Str(fields[n].name.clone()), val: v });
            },
            Option::None => {
                proof {
                    assert(false);
                }
                return Err(DeserializeError::TypeError);
            },
        }
        n = n + 1;
    }
    proof {
        lemma_views_of_entries(entries@);
        assert(views_of_entries(entries@) =~= struct_entries(fields@, rv));
    }
    Ok(Value::Mapping(entries))
}

impl YamlDeserializer {
    /// Reads the raw entries of an open struct mapping: each key a scalar,
    /// each value decoded by its declared field shape, or self-describingly
    /// where the key names no field; consumes the end marker.
    fn read_raw_fields(&mut self, fields: &Vec<FieldShape>) -> (r: Result<
        Vec<RawField>,
        DeserializeError,
    >)
        requires
            old(self).wf(),
        ensures
            final(self).wf(),
            final(self).same_source(old(self)),
            old(self).cursor() <= final(self).cursor(),
            match decode_raw_fields(fields@, old(self).stream(), old(self).cursor()) {
                Option::Some(p) => r matches Ok(v) && raw_views(v@) == p.0 && final(self).cursor()
                    == p.1 && old(self).cursor() < final(self).cursor(),
                Option::None => r is Err,
            },
        decreases old(self).stream().len() - old(self).cursor(), *fields, 2int,
    {
        let is_end = match self.peek_event() {
            Option::Some(t) => matches!(t.event, Token::MappingEnd),
            Option::None => false,
        };
        if is_end {
            match self.next_event() {
                Ok(_) => {
                    let out: Vec<RawField> = Vec::new();
                    proof {
                        assert(raw_views(out@) =~= Seq::<(Seq<char>, ValueView)>::empty());
                    }
                    Ok(out)
                },
                Err(e) => Err(e),
            }
        } else {
            let (key, _kspan) = match self.read_scalar_string() {
                Ok(p) => p,
                Err(e) => {
                    return Err(e);
                },
            };
            let val = match find_field(fields, key.as_str()) {
                Option::Some(fshape) => match self.deserialize_value(fshape) {
                    Ok(v) => v,
                    Err(e) => {
                        return Err(e);
                    },
                },
                Option::None => match self.deserialize_any() {
                    Ok(v) => v,
                    Err(e) => {
                        return Err(e);
                    },
                },
            };
            let mut rest = match self.read_raw_fields(fields) {
                Ok(v) => v,
                Err(e) => {
                    return Err(e);
                },
            };
            let ghost rest_snap = rest@;
            rest.insert(0, RawField { name: key, val });
            proof {
                assert(raw_views(rest@) =~= seq![(rest@[0].name@, rest@[0].val@)] + raw_views(
                    rest_snap,
                ));
            }
            Ok(rest)
        }
    }

    /// Decodes a mapping against declared fields: every declared field must
    /// be present (the last occurrence wins), an undeclared key fails after
    /// its value is still consumed, and the result carries the fields in
    /// declaration order.
    pub fn deserialize_struct(&mut self, fields: &Vec<FieldShape>) -> (r: Result<
        Value,
        DeserializeError,
    >)
        requires
            old(self).wf(),
        ensures
            final(self).wf(),
            shape_outcome(*old(self), *final(self), r, Shape::StructOf(*fields)),
            (old(self).cursor() < old(self).stream().len() && old(self).stream()[old(self).cursor()].event is MappingStart) ==> match decode_raw_fields(
                fields@,
                old(self).stream(),
                old(self).cursor() + 1,
            ) {
                Option::Some(p) => {
                    &&& (match first_missing(fields@, p.0) {
                        Option::Some(name) => r matches Err(DeserializeError::SerdeError(m)) && m@
                            == "Missing field `"@ + name + "`"@,
                        Option::None => true,
                    })
                    &&& (first_missing(fields@, p.0) is None ==> match first_unknown(
                        fields@,
                        p.0,
                    ) {
                        Option::Some(name) => r matches Err(DeserializeError::SerdeError(m)) && m@
                            == "Unknown field `"@ + name + "`"@,
                        Option::None => true,
                    })
                },
                Option::None => true,
            },
        decreases old(self).stream().len() - old(self).cursor(), *fields, 1int,
    {
        match self.start_map() {
            Ok(()) => {},
            Err(e) => {
                return Err(e);
            },
        }
        let raw = match self.read_raw_fields(fields) {
            Ok(v) => v,
            Err(e) => {
                return Err(e);
            },
        };
        assemble_struct(fields, raw)
    }
}

/// What one complete document denotes for `shape`: a stream holding exactly
/// stream-start, document-start, one value, document-end, stream-end.
pub open spec fn document_value(s: Seq<SpannedTokenView>, shape: Shape) -> Option<ValueView> {
    if s.len() >= 2 && s[0].event is StreamStart && s[1].event is DocumentStart {
        match decode_at(shape, s, 2) {
            Option::Some((v, j)) => if j + 1 < s.len() && s[j].event is DocumentEnd && s[j
                + 1].event is StreamEnd {
                Option::Some(v)
            } else {
                Option::None
            },
            Option::None => Option::None,
        }
    } else {
        Option::None
    }
}

/// Decodes one complete document from `input` as directed by `shape`:
/// stream and document markers are asserted around exactly one value, so
/// trailing content is an error.
pub fn from_str(input: &str, shape: &Shape) -> (r: Result<Value, DeserializeError>)
    ensures
        match document_value(scan_result_of(input@).0, *shape) {
            Option::Some(v) => r matches Ok(w) && w@ == v,
            Option::None => r is Err,
        },
{
    let mut de = YamlDeserializer::from_str(input);
    match de.start_stream() {
        Ok(()) => {},
        Err(e) => {
            return Err(e);
        },
    }
    match de.start_document() {
        Ok(()) => {},
        Err(e) => {
            return Err(e);
        },
    }
    let v = match de.deserialize_value(shape) {
        Ok(v) => v,
        Err(e) => {
            return Err(e);
        },
    };
    match de.end_document() {
        Ok(()) => {},
        Err(e) => {
            return Err(e);
        },
    }
    match de.end_stream() {
        Ok(()) => {},
        Err(e) => {
            return Err(e);
        },
    }
    Ok(v)
}


/// Whether a value uses only the self-describing shapes: text scalars,
/// sequences and mappings.
pub open spec fn any_shaped(v: ValueView) -> bool
    decreases v,
{
    match v {
        ValueView::Str(_t) => true,
        ValueView::Sequence(items) => any_shaped_list(items),
        ValueView::Mapping(entries) => any_shaped_entries(entries),
        _ => false,
    }
}

/// Whether every element of a sequence is self-describing.
pub open spec fn any_shaped_list(items: Seq<ValueView>) -> bool
    decreases items,
{
    items.len() == 0 || (any_shaped(items[0]) && any_shaped_list(items.drop_first()))
}

/// Whether every entry of a mapping is self-describing.
pub open spec fn any_shaped_entries(entries: Seq<EntryView>) -> bool
    decreases entries,
{
    entries.len() == 0 || (any_shaped(entries[0].key) && any_shaped(entries[0].val)
        && any_shaped_entries(entries.drop_first()))
}

/// The event stream that represents a self-describing value.
pub open spec fn any_events(v: ValueView) -> Seq<TokenView>
    decreases v,
{
    match v {
        ValueView::Str(t) => seq![TokenView::Scalar(t)],
        ValueView::Sequence(items) => seq![TokenView::SequenceStart] + any_events_list(items)
            + seq![TokenView::SequenceEnd],
        ValueView::Mapping(entries) => seq![TokenView::MappingStart] + any_events_entries(entries)
            + seq![TokenView::MappingEnd],
        _ => Seq::empty(),
    }
}

/// The event streams of a sequence's elements, in order.
pub open spec fn any_events_list(items: Seq<ValueView>) -> Seq<TokenView>
    decreases items,
{
    if items.len() == 0 {
        Seq::empty()
    } else {
        any_events(items[0]) + any_events_list(items.drop_first())
    }
}

/// The event streams of a mapping's entries, key before value, in order.
pub open spec fn any_events_entries(entries: Seq<EntryView>) -> Seq<TokenView>
    decreases entries,
{
    if entries.len() == 0 {
        Seq::empty()
    } else {
        any_events(entries[0].key) + any_events(entries[0].val) + any_events_entries(
            entries.drop_first(),
        )
    }
}

/// Whether the events of `v` stand in the stream `s` beginning at `i`.
pub open spec fn embedded_at(s: Seq<SpannedTokenView>, i: int, events: Seq<TokenView>) -> bool {
    &&& 0 <= i
    &&& i + events.len() <= s.len()
    &&& forall|j: int| 0 <= j < events.len() ==> s[i + j].event == events[j]
}

/// The events of a self-describing value open with a scalar or a
/// collection start, never with anything else.
proof fn lemma_any_events_head(v: ValueView)
    requires
        any_shaped(v),
    ensures
        any_events(v).len() >= 1,
        any_events(v)[0] is Scalar || any_events(v)[0] is SequenceStart || any_events(v)[0]
            is MappingStart,
        !(any_events(v)[0] is SequenceEnd),
        !(any_events(v)[0] is MappingEnd),
{
}

/// The value round trip at the event boundary: decoding the event stream
/// that represents a self-describing value yields that value back, and
/// consumes exactly its events.  Together with the scalar text round trips
/// this is the decode-after-encode law, short of the outside lexical layer,
/// which no contract here describes.
pub proof fn lemma_parse_any_round_trip(v: ValueView, s: Seq<SpannedTokenView>, i: int)
    requires
        any_shaped(v),
        embedded_at(s, i, any_events(v)),
    ensures
        parse_any_at(s, i) == Option::Some((v, i + any_events(v).len())),
    decreases v, 0int,
{
    match v {
        ValueView::Str(t) => {
            assert(s[i].event == any_events(v)[0]);
        },
        ValueView::Sequence(items) => {
            assert(s[i].event == any_events(v)[0]);
            let body = any_events_list(items);
            assert forall|j: int| 0 <= j < body.len() implies s[i + 1 + j].event == body[j] by {
                assert(any_events(v)[1 + j] == body[j]);
                assert(s[i + (1 + j)].event == any_events(v)[1 + j]);
            }
            assert(any_events(v)[1 + body.len() as int] == TokenView::SequenceEnd);
            assert(s[i + 1 + body.len() as int].event == any_events(v)[1 + body.len() as int]);
            lemma_parse_elems_round_trip(items, s, i + 1);
        },
        ValueView::Mapping(entries) => {
            assert(s[i].event == any_events(v)[0]);
            let body = any_events_entries(entries);
            assert forall|j: int| 0 <= j < body.len() implies s[i + 1 + j].event == body[j] by {
                assert(any_events(v)[1 + j] == body[j]);
                assert(s[i + (1 + j)].event == any_events(v)[1 + j]);
            }
            assert(any_events(v)[1 + body.len() as int] == TokenView::MappingEnd);
            assert(s[i + 1 + body.len() as int].event == any_events(v)[1 + body.len() as int]);
            lemma_parse_entries_round_trip(entries, s, i + 1);
        },
        _ => {},
    }
}

/// The element run of a self-describing sequence decodes back to its
/// elements, consuming exactly their events and the end marker.
proof fn lemma_parse_elems_round_trip(items: Seq<ValueView>, s: Seq<SpannedTokenView>, i: int)
    requires
        any_shaped_list(items),
        embedded_at(s, i, any_events_list(items)),
        i + any_events_list(items).len() < s.len(),
        s[i + any_events_list(items).len()].event is SequenceEnd,
    ensures
        parse_elems_at(s, i) == Option::Some((items, i + any_events_list(items).len() + 1)),
    decreases items, 1int,
{
    if items.len() == 0 {
        assert(s[i].event is SequenceEnd);
    } else {
        let head = any_events(items[0]);
        let rest = any_events_list(items.drop_first());
        assert(any_events_list(items) == head + rest);
        lemma_any_events_head(items[0]);
        assert(s[i].event == (head + rest)[0]);
        assert((head + rest)[0] == head[0]);
        assert(!(s[i].event is SequenceEnd));
        assert forall|j: int| 0 <= j < head.len() implies s[i + j].event == head[j] by {
            assert((head + rest)[j] == head[j]);
        }
        lemma_parse_any_round_trip(items[0], s, i);
        let mid = i + head.len();
        assert forall|j: int| 0 <= j < rest.len() implies s[mid + j].event == rest[j] by {
            assert((head + rest)[head.len() + j] == rest[j]);
            assert(s[i + (head.len() + j)].event == (head + rest)[head.len() + j]);
        }
        assert(decreases_to!(items => items.drop_first()));
        lemma_parse_elems_round_trip(items.drop_first(), s, mid);
        assert(seq![items[0]] + items.drop_first() =~= items);
    }
}

/// The entry run of a self-describing mapping decodes back to its entries,
/// consuming exactly their events and the end marker.
proof fn lemma_parse_entries_round_trip(entries: Seq<EntryView>, s: Seq<SpannedTokenView>, i: int)
    requires
        any_shaped_entries(entries),
        embedded_at(s, i, any_events_entries(entries)),
        i + any_events_entries(entries).len() < s.len(),
        s[i + any_events_entries(entries).len()].event is MappingEnd,
    ensures
        parse_entries_at(s, i) == Option::Some(
            (entries, i + any_events_entries(entries).len() + 1),
        ),
    decreases entries, 1int,
{
    if entries.len() == 0 {
        assert(s[i].event is MappingEnd);
    } else {
        let ke = any_events(entries[0].key);
        let ve = any_events(entries[0].val);
        let rest = any_events_entries(entries.drop_first());
        assert(any_events_entries(entries) == ke + ve + rest);
        lemma_any_events_head(entries[0].key);
        assert(s[i].event == (ke + ve + rest)[0]);
        assert((ke + ve + rest)[0] == ke[0]);
        assert(!(s[i].event is MappingEnd));
        assert forall|j: int| 0 <= j < ke.len() implies s[i + j].event == ke[j] by {
            assert((ke + ve + rest)[j] == ke[j]);
        }
        assert(decreases_to!(entries[0] => entries[0].key));
        lemma_parse_any_round_trip(entries[0].key, s, i);
        let mid = i + ke.len();
        assert forall|j: int| 0 <= j < ve.len() implies s[mid + j].event == ve[j] by {
            assert((ke + ve + rest)[ke.len() + j] == ve[j]);
            assert(s[i + (ke.len() + j)].event == (ke + ve + rest)[ke.len() + j]);
        }
        assert(decreases_to!(entries[0] => entries[0].val));
        lemma_parse_any_round_trip(entries[0].val, s, mid);
        let mid2 = mid + ve.len();
        assert forall|j: int| 0 <= j < rest.len() implies s[mid2 + j].event == rest[j] by {
            assert((ke + ve + rest)[ke.len() + ve.len() + j] == rest[j]);
            assert(s[i + (ke.len() + ve.len() + j)].event == (ke + ve + rest)[ke.len() + ve.len()
                + j]);
        }
        lemma_parse_entries_round_trip(entries.drop_first(), s, mid2);
        assert(seq![EntryView { key: entries[0].key, val: entries[0].val }] + entries.drop_first()
            =~= entries);
    }
}


/// Decoding the rendered text of a boolean as a boolean yields it back.
pub proof fn lemma_bool_decode_encode(b: bool, s: Seq<SpannedTokenView>, i: int)
    requires
        0 <= i < s.len(),
        s[i].event == TokenView::Scalar(
            if b {
                "true"@
            } else {
                "false"@
            },
        ),
    ensures
        decode_at(Shape::Bool, s, i) == Option::Some((ValueView::Bool(b), i + 1)),
{
    crate::literal::lemma_bool_text_round_trip(b);
}

/// Decoding the rendered text of absence as unit yields absence back.
pub proof fn lemma_null_decode_encode(s: Seq<SpannedTokenView>, i: int)
    requires
        0 <= i < s.len(),
        s[i].event == TokenView::Scalar("null"@),
    ensures
        decode_at(Shape::Unit, s, i) == Option::Some((ValueView::Null, i + 1)),
{
    crate::literal::lemma_null_text_round_trip();
}

/// Decoding the decimal rendering of an unsigned integer at its own width
/// yields it back.
pub proof fn lemma_u64_decode_encode(n: u64, s: Seq<SpannedTokenView>, i: int)
    requires
        0 <= i < s.len(),
        s[i].event == TokenView::Scalar(crate::num::u64_text(n as int)),
    ensures
        decode_at(Shape::U64, s, i) == Option::Some((ValueView::UInt(n), i + 1)),
{
    let t = crate::num::u64_text(n as int);
    crate::num::lemma_u64_text_round_trip(n as int);
    assert(crate::num::is_digit(t[0]));
    assert(t[0] != '-' && t[0] != '+');
    assert(crate::num::mag_of(t) =~= t);
    assert(valid_uns_text(t));
    assert(int_text_val(t) == n);
}

/// Decoding the decimal rendering of a signed integer at its own width
/// yields it back.
pub proof fn lemma_i64_decode_encode(n: i64, s: Seq<SpannedTokenView>, i: int)
    requires
        0 <= i < s.len(),
        s[i].event == TokenView::Scalar(crate::num::i64_text(n as int)),
    ensures
        decode_at(Shape::I64, s, i) == Option::Some((ValueView::Int(n), i + 1)),
{
    crate::num::lemma_i64_text_round_trip(n as int);
}


} // verus!
