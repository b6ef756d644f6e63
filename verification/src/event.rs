//! The structural events pulled from the lexical layer, with their source
//! positions.

use vstd::prelude::*;

verus! {

/// A position range in the source text.  Lines and columns are 1-indexed,
/// as the lexical layer reports them; the end is exclusive.
#[derive(Clone, Copy, Debug, PartialEq, Eq)]
pub struct SrcSpan {
    pub start_line: usize,
    pub start_col: usize,
    pub end_line: usize,
    pub end_col: usize,
}

/// One structural token of the block format.
///
/// Scalars carry their resolved text; style hints, anchors and tags of the
/// lexical layer are not part of this core and are dropped at the boundary.
#[derive(Clone, Debug, PartialEq, Eq)]
pub enum Token {
    /// Generated once at the very beginning of a stream.
    StreamStart,
    /// Generated once at the very end of a stream.
    StreamEnd,
    /// The start of one document inside the stream.
    DocumentStart,
    /// The end of one document inside the stream.
    DocumentEnd,
    /// A scalar with its resolved text.
    Scalar(String),
    /// The start of a block sequence.
    SequenceStart,
    /// The end of a block sequence.
    SequenceEnd,
    /// The start of a block mapping.
    MappingStart,
    /// The end of a block mapping.
    MappingEnd,
    /// An alias node; aliases are outside this core and are rejected
    /// wherever a value is expected.
    Alias,
    /// Reserved by the lexical layer; never expected here.
    Nothing,
}

/// The mathematical image of a [`Token`]: scalar text as a sequence of
/// characters.
pub enum TokenView {
    StreamStart,
    StreamEnd,
    DocumentStart,
    DocumentEnd,
    Scalar(Seq<char>),
    SequenceStart,
    SequenceEnd,
    MappingStart,
    MappingEnd,
    Alias,
    Nothing,
}

impl View for Token {
    type V = TokenView;

    open spec fn view(&self) -> TokenView {
        match self {
            Token::StreamStart => TokenView::StreamStart,
            Token::StreamEnd => TokenView::StreamEnd,
            Token::DocumentStart => TokenView::DocumentStart,
            Token::DocumentEnd => TokenView::DocumentEnd,
            Token::Scalar(s) => TokenView::Scalar(s@),
            Token::SequenceStart => TokenView::SequenceStart,
            Token::SequenceEnd => TokenView::SequenceEnd,
            Token::MappingStart => TokenView::MappingStart,
            Token::MappingEnd => TokenView::MappingEnd,
            Token::Alias => TokenView::Alias,
            Token::Nothing => TokenView::Nothing,
        }
    }
}

impl Token {
    /// An owned copy of this event, equal to it.
    pub fn duplicate(&self) -> (r: Token)
        ensures
            r@ == self@,
    {
        match self {
            Token::StreamStart => Token::StreamStart,
            Token::StreamEnd => Token::StreamEnd,
            Token::DocumentStart => Token::DocumentStart,
            Token::DocumentEnd => Token::DocumentEnd,
            Token::Scalar(s) => Token::Scalar(s.clone()),
            Token::SequenceStart => Token::SequenceStart,
            Token::SequenceEnd => Token::SequenceEnd,
            Token::MappingStart => Token::MappingStart,
            Token::MappingEnd => Token::MappingEnd,
            Token::Alias => Token::Alias,
            Token::Nothing => Token::Nothing,
        }
    }
}

/// An event paired with its source position.
#[derive(Clone, Debug, PartialEq, Eq)]
pub struct SpannedToken {
    pub event: Token,
    pub span: SrcSpan,
}

/// The mathematical image of a [`SpannedToken`].
pub struct SpannedTokenView {
    pub event: TokenView,
    pub span: SrcSpan,
}

impl View for SpannedToken {
    type V = SpannedTokenView;

    open spec fn view(&self) -> SpannedTokenView {
        SpannedTokenView { event: self.event@, span: self.span }
    }
}

} // verus!
