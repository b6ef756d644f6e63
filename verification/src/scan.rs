//! The boundary to the lexical layer.
//!
//! The event-producing parser itself is an outside collaborator: it turns
//! raw text into a stream of structural events with source spans.  What it
//! produces for a given text depends on that text alone, so the whole scan
//! result is given a name, [`scan_result_of`], and the one wrapper that runs
//! the parser promises to return exactly that.  Everything downstream of
//! the scan is verified against the event list.

use vstd::prelude::*;
use crate::error::{ScanFault, ScanFaultView};
use crate::event::{SpannedToken, SpannedTokenView};

verus! {

#[verifier::external_type_specification]
#[verifier::external_body]
pub struct ExEvent<'a>(saphyr_parser::Event<'a>);

#[verifier::external_type_specification]
#[verifier::external_body]
pub struct ExSpan(saphyr_parser::Span);

#[verifier::external_type_specification]
#[verifier::external_body]
pub struct ExScanError(saphyr_parser::ScanError);

/// The image of an event list.
pub open spec fn events_view(s: Seq<SpannedToken>) -> Seq<SpannedTokenView> {
    s.map_values(|e: SpannedToken| e@)
}

/// The image of an optional lexical fault.
pub open spec fn fault_view(f: Option<ScanFault>) -> Option<ScanFaultView> {
    match f {
        Option::None => Option::None,
        Option::Some(x) => Option::Some(x@),
    }
}

/// What the lexical layer yields for a text: the events up to the first
/// lexical error, and that error if one occurred.  The scan is a function
/// of the text alone.
pub uninterp spec fn scan_result_of(s: Seq<char>) -> (Seq<SpannedTokenView>, Option<
    ScanFaultView,
>);

/// Relies on `saphyr_parser::Event`: one structural token, reduced to the
/// kinds and the scalar text this core reads; style hints, anchors and tags
/// are dropped.
#[verifier::external_body]
fn convert_event(ev: saphyr_parser::Event<'_>) -> crate::event::Token {
    match ev {
        saphyr_parser::Event::Nothing => crate::event::Token::Nothing,
        saphyr_parser::Event::StreamStart => crate::event::Token::StreamStart,
        saphyr_parser::Event::StreamEnd => crate::event::Token::StreamEnd,
        saphyr_parser::Event::DocumentStart(_) => crate::event::Token::DocumentStart,
        saphyr_parser::Event::DocumentEnd => crate::event::Token::DocumentEnd,
        saphyr_parser::Event::Alias(_) => crate::event::Token::Alias,
        saphyr_parser::Event::Scalar(s, _, _, _) => crate::event::Token::Scalar(s.into_owned()),
        saphyr_parser::Event::SequenceStart(_, _) => crate::event::Token::SequenceStart,
        saphyr_parser::Event::SequenceEnd => crate::event::Token::SequenceEnd,
        saphyr_parser::Event::MappingStart(_, _) => crate::event::Token::MappingStart,
        saphyr_parser::Event::MappingEnd => crate::event::Token::MappingEnd,
    }
}

/// Relies on `saphyr_parser::Span` and its markers: 1-indexed line and
/// column of both ends of the range.
#[verifier::external_body]
fn convert_span(sp: saphyr_parser::Span) -> crate::event::SrcSpan {
    crate::event::SrcSpan {
        start_line: sp.start.line(),
        start_col: sp.start.col(),
        end_line: sp.end.line(),
        end_col: sp.end.col(),
    }
}

/// Relies on `saphyr_parser::ScanError`: its message and the marker it was
/// reported at.
#[verifier::external_body]
fn convert_fault(e: saphyr_parser::ScanError) -> ScanFault {
    ScanFault { msg: String::from(e.info()), line: e.marker().line(), col: e.marker().col() }
}

/// Relies on `saphyr_parser::Parser::new_from_str` and `next_event`: the
/// event stream of `input`, which is a function of `input` alone; events
/// are yielded until the stream ends or the first lexical error.
#[verifier::external_body]
pub fn scan_events(input: &str) -> (r: (Vec<SpannedToken>, Option<ScanFault>))
    ensures
        (events_view(r.0@), fault_view(r.1)) == scan_result_of(input@),
{
    let mut parser = saphyr_parser::Parser::new_from_str(input);
    let mut events: Vec<SpannedToken> = Vec::new();
    let mut fault: Option<ScanFault> = None;
    loop {
        match parser.next_event() {
            None => break,
            Some(Ok((ev, sp))) => {
                events.push(SpannedToken { event: convert_event(ev), span: convert_span(sp) })
            },
            Some(Err(e)) => { fault = Some(convert_fault(e)); break; },
        }
    }
    (events, fault)
}

} // verus!
