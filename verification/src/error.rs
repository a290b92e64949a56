//! Source locations and the errors that the stages report at them.

use crate::lexer::token::TokenKind;
use crate::semantic_analyzer::types::Type;
use vstd::prelude::*;

verus! {

/// A range of byte offsets in one source file. Offsets count from zero and
/// `end` is exclusive.
#[derive(Clone, Copy, Debug, PartialEq, Eq, Structural)]
pub struct Span {
    pub file: usize,
    pub start: usize,
    pub end: usize,
}

impl Span {
    /// The range lies inside a file of `len` bytes.
    pub open spec fn within(self, len: nat) -> bool {
        self.start <= self.end <= len
    }

    /// The span from `start` to `end` in the file `file`.
    pub fn new(file: usize, start: usize, end: usize) -> (span: Span)
        ensures
            span == (Span { file, start, end }),
    {
        Span { file, start, end }
    }

    /// The line and the column at which the span starts in `source`, both
    /// counted from one. Lines end at a line feed, and a column counts bytes.
    pub fn line_column(&self, source: &[u8]) -> (place: (usize, usize))
        requires
            self.start <= source@.len(),
            source@.len() < usize::MAX,
        ensures
            place.0 == 1 + line_feeds(source@, self.start as int),
            place.1 == 1 + self.start - line_start(source@, self.start as int),
    {
        let mut line: usize = 1;
        let mut start: usize = 0;
        let mut at: usize = 0;
        while at < self.start
            invariant
                at <= self.start <= source@.len(),
                source@.len() < usize::MAX,
                line == 1 + line_feeds(source@, at as int),
                line <= 1 + at,
                start == line_start(source@, at as int),
                start <= at,
            decreases self.start - at,
        {
            if source[at] == '\n' as u8 {
                line = line + 1;
                start = at + 1;
            }
            at = at + 1;
        }
        (line, 1 + (self.start - start))
    }
}

/// How many line feeds stand before the offset `end`.
pub open spec fn line_feeds(source: Seq<u8>, end: int) -> nat
    decreases end,
{
    if end <= 0 {
        0
    } else if source[end - 1] == '\n' as u8 {
        1 + line_feeds(source, end - 1)
    } else {
        line_feeds(source, end - 1)
    }
}

/// Where the line of the offset `offset` starts: behind the last line feed
/// before it, or at the start of the source.
pub open spec fn line_start(source: Seq<u8>, offset: int) -> int
    decreases offset,
{
    if offset <= 0 {
        0
    } else if source[offset - 1] == '\n' as u8 {
        offset
    } else {
        line_start(source, offset - 1)
    }
}

/// What a stage can report. Every variant carries the location it speaks of.
#[derive(Debug, PartialEq)]
pub enum Error {
    /// A byte that starts no token.
    UnrecognizedCharacter(Span),
    /// A run of digits whose value does not fit an integer literal.
    IntegerOutOfRange(Span),
    /// The input ended where a token was required; the span is that of the
    /// last token before the end.
    UnexpectedEndOfInput(Span),
    /// A token that cannot start an expression.
    UnexpectedToken(Span),
    /// A token other than the one that the grammar requires at this place.
    ExpectedKind { span: Span, expected: TokenKind, actual: TokenKind },
    /// A name that no enclosing scope binds.
    UndefinedVariable(Span),
    /// A declaration with a type that no value can have.
    IllegalType(Span),
    /// An operator applied to operands outside its table; `operands` lists
    /// each operand's location and type, in order.
    UnsupportedOperation { operation_span: Span, operands: Vec<(Span, Type)> },
    /// An expression whose type had to be `expected_type` and was not.
    TypeMismatch { span: Span, expected_type: Type, actual_type: Type },
    /// Two types that had to agree and did not.
    ConflictingType { first_span: Span, first_type: Type, second_span: Span, second_type: Type },
}

/// The mathematical value of an [`Error`].
pub enum ErrorView {
    UnrecognizedCharacter(Span),
    IntegerOutOfRange(Span),
    UnexpectedEndOfInput(Span),
    UnexpectedToken(Span),
    ExpectedKind { span: Span, expected: TokenKind, actual: TokenKind },
    UndefinedVariable(Span),
    IllegalType(Span),
    UnsupportedOperation { operation_span: Span, operands: Seq<(Span, Type)> },
    TypeMismatch { span: Span, expected_type: Type, actual_type: Type },
    ConflictingType { first_span: Span, first_type: Type, second_span: Span, second_type: Type },
}

impl DeepView for Error {
    type V = ErrorView;

    open spec fn deep_view(&self) -> ErrorView {
        match *self {
            Error::UnrecognizedCharacter(span) => ErrorView::UnrecognizedCharacter(span),
            Error::IntegerOutOfRange(span) => ErrorView::IntegerOutOfRange(span),
            Error::UnexpectedEndOfInput(span) => ErrorView::UnexpectedEndOfInput(span),
            Error::UnexpectedToken(span) => ErrorView::UnexpectedToken(span),
            Error::ExpectedKind { span, expected, actual } => ErrorView::ExpectedKind {
                span,
                expected,
                actual,
            },
            Error::UndefinedVariable(span) => ErrorView::UndefinedVariable(span),
            Error::IllegalType(span) => ErrorView::IllegalType(span),
            Error::UnsupportedOperation { operation_span, operands } => ErrorView::UnsupportedOperation {
                operation_span,
                operands: operands@,
            },
            Error::TypeMismatch { span, expected_type, actual_type } => ErrorView::TypeMismatch {
                span,
                expected_type,
                actual_type,
            },
            Error::ConflictingType { first_span, first_type, second_span, second_type } => ErrorView::ConflictingType {
                first_span,
                first_type,
                second_span,
                second_type,
            },
        }
    }
}

/// A result with both sides taken as mathematical values.
pub open spec fn outcome<T: DeepView, E: DeepView>(result: Result<T, E>) -> Result<T::V, E::V> {
    match result {
        Ok(value) => Ok(value.deep_view()),
        Err(error) => Err(error.deep_view()),
    }
}

} // verus!
