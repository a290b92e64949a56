//! Scanning of source bytes into tokens.
//!
//! The scan never stops at an error: a byte that starts no token is
//! reported and passed over. Whitespace comes out as tokens too, so that the
//! tokens and the reported bytes together cover the source without a gap.

pub mod spelling;
pub mod token;

use crate::error::{Error, ErrorView, Span};
use crate::interner::{intern_id, intern_values, Interner};
use crate::lexer::token::{Token, TokenKind};
use vstd::prelude::*;
use vstd::slice::{slice_subrange, slice_to_vec};

verus! {

/// Space, tab, line feed and carriage return.
pub open spec fn is_whitespace(byte: u8) -> bool {
    byte == ' ' as u8 || byte == '\t' as u8 || byte == '\n' as u8 || byte == '\r' as u8
}

/// A byte that a name or a reserved word is made of: an ASCII letter or an
/// underscore.
pub open spec fn is_letter(byte: u8) -> bool {
    ('a' as u8 <= byte <= 'z' as u8) || ('A' as u8 <= byte <= 'Z' as u8) || byte == '_' as u8
}

/// A decimal digit.
pub open spec fn is_digit(byte: u8) -> bool {
    '0' as u8 <= byte <= '9' as u8
}

/// The classes of byte of which a token takes as many as there are in a row.
#[derive(Clone, Copy, Debug, PartialEq, Eq, Structural)]
pub enum ByteClass {
    Letter,
    Digit,
    /// Any byte but the double quote.
    Unquoted,
}

/// Whether the byte belongs to the class.
pub open spec fn in_class(class: ByteClass, byte: u8) -> bool {
    match class {
        ByteClass::Letter => is_letter(byte),
        ByteClass::Digit => is_digit(byte),
        ByteClass::Unquoted => byte != '"' as u8,
    }
}

/// How many bytes of `class` stand in a row from `pos` on.
pub open spec fn run(source: Seq<u8>, pos: int, class: ByteClass) -> nat
    decreases source.len() - pos,
{
    if 0 <= pos < source.len() && in_class(class, source[pos]) {
        1 + run(source, pos + 1, class)
    } else {
        0
    }
}

/// The number that a row of decimal digits stands for.
pub open spec fn decimal_value(digits: Seq<u8>) -> nat
    decreases digits.len(),
{
    if digits.len() == 0 {
        0
    } else {
        10 * decimal_value(digits.drop_last()) + (digits.last() - '0' as u8) as nat
    }
}

/// The token that a row of letters is, where it is a reserved word.
pub open spec fn reserved_word(text: Seq<u8>) -> Option<TokenKind> {
    if text == seq!['V' as u8, 'o' as u8, 'i' as u8, 'd' as u8] {
        Some(TokenKind::Void)
    } else if text == seq!['I' as u8, 'n' as u8, 't' as u8] {
        Some(TokenKind::Int)
    } else if text == seq!['F' as u8, 'l' as u8, 'o' as u8, 'a' as u8, 't' as u8] {
        Some(TokenKind::Float)
    } else if text == seq![
        'B' as u8,
        'o' as u8,
        'o' as u8,
        'l' as u8,
        'e' as u8,
        'a' as u8,
        'n' as u8,
    ] {
        Some(TokenKind::Boolean)
    } else if text == seq!['S' as u8, 't' as u8, 'r' as u8, 'i' as u8, 'n' as u8, 'g' as u8] {
        Some(TokenKind::String)
    } else if text == seq!['t' as u8, 'r' as u8, 'u' as u8, 'e' as u8] {
        Some(TokenKind::BooleanLiteral(true))
    } else if text == seq!['f' as u8, 'a' as u8, 'l' as u8, 's' as u8, 'e' as u8] {
        Some(TokenKind::BooleanLiteral(false))
    } else if text == seq!['n' as u8, 'o' as u8, 't' as u8] {
        Some(TokenKind::Not)
    } else if text == seq!['o' as u8, 'r' as u8] {
        Some(TokenKind::Or)
    } else if text == seq!['a' as u8, 'n' as u8, 'd' as u8] {
        Some(TokenKind::And)
    } else if text == seq!['l' as u8, 'e' as u8, 't' as u8] {
        Some(TokenKind::Let)
    } else if text == seq!['i' as u8, 'f' as u8] {
        Some(TokenKind::If)
    } else if text == seq!['t' as u8, 'h' as u8, 'e' as u8, 'n' as u8] {
        Some(TokenKind::Then)
    } else if text == seq!['e' as u8, 'l' as u8, 's' as u8, 'e' as u8] {
        Some(TokenKind::Else)
    } else if text == seq!['w' as u8, 'h' as u8, 'i' as u8, 'l' as u8, 'e' as u8] {
        Some(TokenKind::While)
    } else if text == seq!['d' as u8, 'e' as u8, 'f' as u8, 'i' as u8, 'n' as u8, 'e' as u8] {
        Some(TokenKind::Define)
    } else {
        None
    }
}

/// The operator that two bytes spell together.
pub open spec fn pair_operator(first: u8, second: u8) -> Option<TokenKind> {
    if first == ':' as u8 && second == '=' as u8 {
        Some(TokenKind::ColonEqualSign)
    } else if first == '!' as u8 && second == '=' as u8 {
        Some(TokenKind::ExclamationEqualSign)
    } else if first == '<' as u8 && second == '=' as u8 {
        Some(TokenKind::LessThanEqualSign)
    } else if first == '>' as u8 && second == '=' as u8 {
        Some(TokenKind::GreaterThanEqualSign)
    } else if first == ':' as u8 && second == ':' as u8 {
        Some(TokenKind::ColonColon)
    } else {
        None
    }
}

/// The operator or punctuation mark that one byte spells.
pub open spec fn single_operator(byte: u8) -> Option<TokenKind> {
    if byte == '(' as u8 {
        Some(TokenKind::LeftParenthesis)
    } else if byte == ')' as u8 {
        Some(TokenKind::RightParenthesis)
    } else if byte == '{' as u8 {
        Some(TokenKind::LeftCurlyBrace)
    } else if byte == '}' as u8 {
        Some(TokenKind::RightCurlyBrace)
    } else if byte == '<' as u8 {
        Some(TokenKind::LeftAngleBracket)
    } else if byte == '>' as u8 {
        Some(TokenKind::RightAngleBracket)
    } else if byte == '+' as u8 {
        Some(TokenKind::Plus)
    } else if byte == '-' as u8 {
        Some(TokenKind::Minus)
    } else if byte == '*' as u8 {
        Some(TokenKind::Star)
    } else if byte == '/' as u8 {
        Some(TokenKind::Slash)
    } else if byte == '%' as u8 {
        Some(TokenKind::PercentSign)
    } else if byte == '=' as u8 {
        Some(TokenKind::EqualSign)
    } else if byte == ',' as u8 {
        Some(TokenKind::Comma)
    } else if byte == ':' as u8 {
        Some(TokenKind::Colon)
    } else {
        None
    }
}

/// What the bytes from some position on are read as.
pub enum Lexeme {
    /// A token that is known from its text alone.
    Plain(TokenKind),
    /// A name, with its text.
    Identifier(Seq<u8>),
    /// A string literal, with the text between its quotes.
    StringLiteral(Seq<u8>),
    /// A float literal, with its text.
    FloatLiteral(Seq<u8>),
    /// A byte that starts no token.
    Unrecognized,
    /// A row of digits too large for an integer literal.
    OutOfRange,
}

/// What is read at a position, and where the reading ends.
pub struct Scanned {
    pub end: int,
    pub lexeme: Lexeme,
}

/// What is read at `pos`, a position inside `source`. The longest match is
/// taken: a whole row of letters or digits, a two-byte operator before a
/// one-byte one.
///
/// - A whitespace byte is a token by itself.
/// - A row of letters is a reserved word, or else a name.
/// - A row of digits is an integer literal. Followed by a dot it is, with
///   the dot and the digits behind it, a float literal.
/// - A double quote starts a string literal that runs to the next double
///   quote. Without a closing quote the opening one starts no token.
pub open spec fn scan(source: Seq<u8>, pos: int) -> Scanned {
    let first = source[pos];
    if is_whitespace(first) {
        Scanned { end: pos + 1, lexeme: Lexeme::Plain(TokenKind::Whitespace(first as char)) }
    } else if is_letter(first) {
        let end = pos + 1 + run(source, pos + 1, ByteClass::Letter);
        let text = source.subrange(pos, end);
        Scanned {
            end,
            lexeme: match reserved_word(text) {
                Some(kind) => Lexeme::Plain(kind),
                None => Lexeme::Identifier(text),
            },
        }
    } else if is_digit(first) {
        let whole = pos + 1 + run(source, pos + 1, ByteClass::Digit);
        if whole < source.len() && source[whole] == '.' as u8 {
            let end = whole + 1 + run(source, whole + 1, ByteClass::Digit);
            Scanned { end, lexeme: Lexeme::FloatLiteral(source.subrange(pos, end)) }
        } else {
            let value = decimal_value(source.subrange(pos, whole));
            Scanned {
                end: whole,
                lexeme: if value <= i64::MAX {
                    Lexeme::Plain(TokenKind::IntegerLiteral(value as i64))
                } else {
                    Lexeme::OutOfRange
                },
            }
        }
    } else if first == '"' as u8 {
        let close = pos + 1 + run(source, pos + 1, ByteClass::Unquoted);
        if close < source.len() {
            Scanned {
                end: close + 1,
                lexeme: Lexeme::StringLiteral(source.subrange(pos + 1, close)),
            }
        } else {
            Scanned { end: pos + 1, lexeme: Lexeme::Unrecognized }
        }
    } else if pos + 1 < source.len() && pair_operator(first, source[pos + 1]) is Some {
        Scanned { end: pos + 2, lexeme: Lexeme::Plain(pair_operator(first, source[pos + 1])->Some_0) }
    } else {
        match single_operator(first) {
            Some(kind) => Scanned { end: pos + 1, lexeme: Lexeme::Plain(kind) },
            None => Scanned { end: pos + 1, lexeme: Lexeme::Unrecognized },
        }
    }
}

/// What a scan has produced so far: the tokens and the errors, each in the
/// order of the source, and the values interned.
pub struct Lexed {
    pub tokens: Seq<Token>,
    pub errors: Seq<ErrorView>,
    pub interned: Seq<Seq<u8>>,
}

/// What has been produced once `lexeme`, read at `span`, is added.
pub open spec fn step(state: Lexed, span: Span, lexeme: Lexeme) -> Lexed {
    match lexeme {
        Lexeme::Plain(kind) => Lexed { tokens: state.tokens.push((span, kind)), ..state },
        Lexeme::Identifier(text) => Lexed {
            tokens: state.tokens.push(
                (span, TokenKind::Identifier(intern_id(state.interned, text) as usize)),
            ),
            interned: intern_values(state.interned, text),
            ..state
        },
        Lexeme::StringLiteral(text) => Lexed {
            tokens: state.tokens.push(
                (span, TokenKind::StringLiteral(intern_id(state.interned, text) as usize)),
            ),
            interned: intern_values(state.interned, text),
            ..state
        },
        Lexeme::FloatLiteral(text) => Lexed {
            tokens: state.tokens.push(
                (span, TokenKind::FloatLiteral(intern_id(state.interned, text) as usize)),
            ),
            interned: intern_values(state.interned, text),
            ..state
        },
        Lexeme::Unrecognized => Lexed {
            errors: state.errors.push(ErrorView::UnrecognizedCharacter(span)),
            ..state
        },
        Lexeme::OutOfRange => Lexed {
            errors: state.errors.push(ErrorView::IntegerOutOfRange(span)),
            ..state
        },
    }
}

/// What the scan of `source` from `pos` on adds to `state`.
pub open spec fn lexed_from(source: Seq<u8>, file: usize, pos: int, state: Lexed) -> Lexed
    decreases source.len() - pos,
    via lexed_from_ends
{
    if 0 <= pos < source.len() {
        let scanned = scan(source, pos);
        let span = Span { file, start: pos as usize, end: scanned.end as usize };
        lexed_from(source, file, scanned.end, step(state, span, scanned.lexeme))
    } else {
        state
    }
}

#[via_fn]
proof fn lexed_from_ends(source: Seq<u8>, file: usize, pos: int, state: Lexed) {
    if 0 <= pos < source.len() {
        lemma_scan_advances(source, pos);
    }
}

/// The tokens and errors of `source`, and the interned values after its
/// scan, where `interned` are the values interned before it.
pub open spec fn lexed(source: Seq<u8>, file: usize, interned: Seq<Seq<u8>>) -> Lexed {
    lexed_from(source, file, 0, Lexed { tokens: Seq::empty(), errors: Seq::empty(), interned })
}

/// A scan ends inside the source and behind where it began.
pub proof fn lemma_scan_advances(source: Seq<u8>, pos: int)
    requires
        0 <= pos < source.len(),
    ensures
        pos < scan(source, pos).end <= source.len(),
{
    lemma_run_within(source, pos + 1, ByteClass::Letter);
    lemma_run_within(source, pos + 1, ByteClass::Digit);
    lemma_run_within(source, pos + 1, ByteClass::Unquoted);
    let whole = pos + 1 + run(source, pos + 1, ByteClass::Digit);
    if whole < source.len() {
        lemma_run_within(source, whole + 1, ByteClass::Digit);
    }
}

/// A run ends inside the source, every byte of it is of its class, and the
/// byte behind it is not.
pub proof fn lemma_run_within(source: Seq<u8>, pos: int, class: ByteClass)
    requires
        0 <= pos <= source.len(),
    ensures
        pos + run(source, pos, class) <= source.len(),
        forall|i: int| pos <= i < pos + run(source, pos, class) ==> in_class(class, source[i]),
        pos + run(source, pos, class) < source.len() ==> !in_class(
            class,
            source[pos + run(source, pos, class)],
        ),
    decreases source.len() - pos,
{
    if pos < source.len() && in_class(class, source[pos]) {
        lemma_run_within(source, pos + 1, class);
    }
}

/// The same bytes in the same order.
fn same_bytes(text: &[u8], word: &[u8]) -> (same: bool)
    ensures
        same == (text@ == word@),
{
    if text.len() != word.len() {
        return false;
    }
    let mut i: usize = 0;
    while i < text.len()
        invariant
            text.len() == word.len(),
            i <= text.len(),
            forall|j: int| 0 <= j < i ==> text@[j] == word@[j],
        decreases text.len() - i,
    {
        if text[i] != word[i] {
            return false;
        }
        i = i + 1;
    }
    assert(text@ =~= word@);
    true
}

/// Looks a row of letters up in the table of reserved words.
pub fn keyword(text: &[u8]) -> (kind: Option<TokenKind>)
    ensures
        kind == reserved_word(text@),
{
    let word_void: [u8; 4] = ['V' as u8, 'o' as u8, 'i' as u8, 'd' as u8];
    assert(word_void@ =~= seq!['V' as u8, 'o' as u8, 'i' as u8, 'd' as u8]);
    if same_bytes(text, word_void.as_slice()) {
        return Some(TokenKind::Void);
    }
    let word_int: [u8; 3] = ['I' as u8, 'n' as u8, 't' as u8];
    assert(word_int@ =~= seq!['I' as u8, 'n' as u8, 't' as u8]);
    if same_bytes(text, word_int.as_slice()) {
        return Some(TokenKind::Int);
    }
    let word_float: [u8; 5] = ['F' as u8, 'l' as u8, 'o' as u8, 'a' as u8, 't' as u8];
    assert(word_float@ =~= seq!['F' as u8, 'l' as u8, 'o' as u8, 'a' as u8, 't' as u8]);
    if same_bytes(text, word_float.as_slice()) {
        return Some(TokenKind::Float);
    }
    let word_boolean: [u8; 7] = ['B' as u8, 'o' as u8, 'o' as u8, 'l' as u8, 'e' as u8, 'a' as u8, 'n' as u8];
    assert(word_boolean@ =~= seq!['B' as u8, 'o' as u8, 'o' as u8, 'l' as u8, 'e' as u8, 'a' as u8, 'n' as u8]);
    if same_bytes(text, word_boolean.as_slice()) {
        return Some(TokenKind::Boolean);
    }
    let word_string: [u8; 6] = ['S' as u8, 't' as u8, 'r' as u8, 'i' as u8, 'n' as u8, 'g' as u8];
    assert(word_string@ =~= seq!['S' as u8, 't' as u8, 'r' as u8, 'i' as u8, 'n' as u8, 'g' as u8]);
    if same_bytes(text, word_string.as_slice()) {
        return Some(TokenKind::String);
    }
    let word_true: [u8; 4] = ['t' as u8, 'r' as u8, 'u' as u8, 'e' as u8];
    assert(word_true@ =~= seq!['t' as u8, 'r' as u8, 'u' as u8, 'e' as u8]);
    if same_bytes(text, word_true.as_slice()) {
        return Some(TokenKind::BooleanLiteral(true));
    }
    let word_false: [u8; 5] = ['f' as u8, 'a' as u8, 'l' as u8, 's' as u8, 'e' as u8];
    assert(word_false@ =~= seq!['f' as u8, 'a' as u8, 'l' as u8, 's' as u8, 'e' as u8]);
    if same_bytes(text, word_false.as_slice()) {
        return Some(TokenKind::BooleanLiteral(false));
    }
    let word_not: [u8; 3] = ['n' as u8, 'o' as u8, 't' as u8];
    assert(word_not@ =~= seq!['n' as u8, 'o' as u8, 't' as u8]);
    if same_bytes(text, word_not.as_slice()) {
        return Some(TokenKind::Not);
    }
    let word_or: [u8; 2] = ['o' as u8, 'r' as u8];
    assert(word_or@ =~= seq!['o' as u8, 'r' as u8]);
    if same_bytes(text, word_or.as_slice()) {
        return Some(TokenKind::Or);
    }
    let word_and: [u8; 3] = ['a' as u8, 'n' as u8, 'd' as u8];
    assert(word_and@ =~= seq!['a' as u8, 'n' as u8, 'd' as u8]);
    if same_bytes(text, word_and.as_slice()) {
        return Some(TokenKind::And);
    }
    let word_let: [u8; 3] = ['l' as u8, 'e' as u8, 't' as u8];
    assert(word_let@ =~= seq!['l' as u8, 'e' as u8, 't' as u8]);
    if same_bytes(text, word_let.as_slice()) {
        return Some(TokenKind::Let);
    }
    let word_if: [u8; 2] = ['i' as u8, 'f' as u8];
    assert(word_if@ =~= seq!['i' as u8, 'f' as u8]);
    if same_bytes(text, word_if.as_slice()) {
        return Some(TokenKind::If);
    }
    let word_then: [u8; 4] = ['t' as u8, 'h' as u8, 'e' as u8, 'n' as u8];
    assert(word_then@ =~= seq!['t' as u8, 'h' as u8, 'e' as u8, 'n' as u8]);
    if same_bytes(text, word_then.as_slice()) {
        return Some(TokenKind::Then);
    }
    let word_else: [u8; 4] = ['e' as u8, 'l' as u8, 's' as u8, 'e' as u8];
    assert(word_else@ =~= seq!['e' as u8, 'l' as u8, 's' as u8, 'e' as u8]);
    if same_bytes(text, word_else.as_slice()) {
        return Some(TokenKind::Else);
    }
    let word_while: [u8; 5] = ['w' as u8, 'h' as u8, 'i' as u8, 'l' as u8, 'e' as u8];
    assert(word_while@ =~= seq!['w' as u8, 'h' as u8, 'i' as u8, 'l' as u8, 'e' as u8]);
    if same_bytes(text, word_while.as_slice()) {
        return Some(TokenKind::While);
    }
    let word_define: [u8; 6] = ['d' as u8, 'e' as u8, 'f' as u8, 'i' as u8, 'n' as u8, 'e' as u8];
    assert(word_define@ =~= seq!['d' as u8, 'e' as u8, 'f' as u8, 'i' as u8, 'n' as u8, 'e' as u8]);
    if same_bytes(text, word_define.as_slice()) {
        return Some(TokenKind::Define);
    }
    None
}

fn pair_token(first: u8, second: u8) -> (kind: Option<TokenKind>)
    ensures
        kind == pair_operator(first, second),
{
    if first == ':' as u8 && second == '=' as u8 {
        Some(TokenKind::ColonEqualSign)
    } else if first == '!' as u8 && second == '=' as u8 {
        Some(TokenKind::ExclamationEqualSign)
    } else if first == '<' as u8 && second == '=' as u8 {
        Some(TokenKind::LessThanEqualSign)
    } else if first == '>' as u8 && second == '=' as u8 {
        Some(TokenKind::GreaterThanEqualSign)
    } else if first == ':' as u8 && second == ':' as u8 {
        Some(TokenKind::ColonColon)
    } else {
        None
    }
}

fn single_token(byte: u8) -> (kind: Option<TokenKind>)
    ensures
        kind == single_operator(byte),
{
    if byte == '(' as u8 {
        Some(TokenKind::LeftParenthesis)
    } else if byte == ')' as u8 {
        Some(TokenKind::RightParenthesis)
    } else if byte == '{' as u8 {
        Some(TokenKind::LeftCurlyBrace)
    } else if byte == '}' as u8 {
        Some(TokenKind::RightCurlyBrace)
    } else if byte == '<' as u8 {
        Some(TokenKind::LeftAngleBracket)
    } else if byte == '>' as u8 {
        Some(TokenKind::RightAngleBracket)
    } else if byte == '+' as u8 {
        Some(TokenKind::Plus)
    } else if byte == '-' as u8 {
        Some(TokenKind::Minus)
    } else if byte == '*' as u8 {
        Some(TokenKind::Star)
    } else if byte == '/' as u8 {
        Some(TokenKind::Slash)
    } else if byte == '%' as u8 {
        Some(TokenKind::PercentSign)
    } else if byte == '=' as u8 {
        Some(TokenKind::EqualSign)
    } else if byte == ',' as u8 {
        Some(TokenKind::Comma)
    } else if byte == ':' as u8 {
        Some(TokenKind::Colon)
    } else {
        None
    }
}

fn whitespace(byte: u8) -> (holds: bool)
    ensures
        holds == is_whitespace(byte),
{
    byte == ' ' as u8 || byte == '\t' as u8 || byte == '\n' as u8 || byte == '\r' as u8
}

fn class_holds(class: ByteClass, byte: u8) -> (holds: bool)
    ensures
        holds == in_class(class, byte),
{
    match class {
        ByteClass::Letter => ('a' as u8 <= byte && byte <= 'z' as u8) || ('A' as u8 <= byte && byte
            <= 'Z' as u8) || byte == '_' as u8,
        ByteClass::Digit => '0' as u8 <= byte && byte <= '9' as u8,
        ByteClass::Unquoted => byte != '"' as u8,
    }
}

/// The value of a longer row of digits is no less than that of its start.
pub proof fn lemma_decimal_value_grows(digits: Seq<u8>, count: int)
    requires
        0 <= count <= digits.len(),
        forall|i: int| 0 <= i < digits.len() ==> is_digit(digits[i]),
    ensures
        decimal_value(digits.take(count)) <= decimal_value(digits),
    decreases digits.len() - count,
{
    if count == digits.len() {
        assert(digits.take(count) =~= digits);
    } else {
        let shorter = digits.drop_last();
        lemma_decimal_value_grows(shorter, count);
        assert(shorter.take(count) =~= digits.take(count));
    }
}

/// What has been produced so far, as the variables of the scan hold it.
pub open spec fn produced(tokens: Vec<Token>, errors: Vec<Error>, interner: Interner) -> Lexed {
    Lexed { tokens: tokens@, errors: errors.deep_view(), interned: interner@ }
}

/// A scanner over the bytes of one source file.
pub struct Lexer<'a> {
    file: usize,
    bytes: &'a [u8],
}

impl<'a> Lexer<'a> {
    /// The bytes that the lexer scans.
    pub closed spec fn source(&self) -> Seq<u8> {
        self.bytes@
    }

    /// The file that the spans of its tokens name.
    pub closed spec fn file(&self) -> usize {
        self.file
    }

    /// A lexer for the bytes of the file with the id `file`.
    pub fn new(file: usize, bytes: &'a [u8]) -> (lexer: Lexer<'a>)
        ensures
            lexer.source() == bytes@,
            lexer.file() == file,
            lexer.source().len() <= usize::MAX,
    {
        let _length: usize = bytes.len();
        Lexer { file, bytes }
    }

    /// Where the run of `class` that starts at `start` ends.
    fn run_end(&self, start: usize, class: ByteClass) -> (end: usize)
        requires
            start <= self.bytes@.len(),
        ensures
            end == start + run(self.bytes@, start as int, class),
            end <= self.bytes@.len(),
    {
        let mut end: usize = start;
        while end < self.bytes.len() && class_holds(class, self.bytes[end])
            invariant
                start <= end <= self.bytes@.len(),
                start + run(self.bytes@, start as int, class) == end + run(
                    self.bytes@,
                    end as int,
                    class,
                ),
            decreases self.bytes@.len() - end,
        {
            end = end + 1;
        }
        end
    }

    /// The value of the digits from `start` to `end`, where it fits.
    fn integer(&self, start: usize, end: usize) -> (value: Option<i64>)
        requires
            start <= end <= self.bytes@.len(),
            forall|i: int| start <= i < end ==> is_digit(self.bytes@[i]),
        ensures
            value == (if decimal_value(self.bytes@.subrange(start as int, end as int)) <= i64::MAX {
                Some(decimal_value(self.bytes@.subrange(start as int, end as int)) as i64)
            } else {
                None
            }),
    {
        let ghost digits = self.bytes@.subrange(start as int, end as int);
        let mut value: i64 = 0;
        let mut at: usize = start;
        assert(digits.take(0) =~= Seq::<u8>::empty());
        while at < end
            invariant
                start <= at <= end <= self.bytes@.len(),
                digits == self.bytes@.subrange(start as int, end as int),
                forall|i: int| 0 <= i < digits.len() ==> is_digit(digits[i]),
                0 <= value,
                value == decimal_value(digits.take(at - start)),
            decreases end - at,
        {
            assert(self.bytes@[at as int] == digits[at - start]);
            let digit: i64 = (self.bytes[at] - '0' as u8) as i64;
            let ghost longer = digits.take(at - start + 1);
            assert(longer.drop_last() =~= digits.take(at - start));
            assert(longer.last() == self.bytes@[at as int]);
            if value > (i64::MAX - digit) / 10 {
                proof {
                    lemma_decimal_value_grows(digits, at - start + 1);
                }
                return None;
            }
            value = value * 10 + digit;
            at = at + 1;
        }
        assert(digits.take(end - start) =~= digits);
        Some(value)
    }

    /// Reads what stands at `pos` and adds it to what was produced before.
    fn lex_one(
        &self,
        pos: usize,
        interner: &mut Interner,
        tokens: &mut Vec<Token>,
        errors: &mut Vec<Error>,
    ) -> (end: usize)
        requires
            pos < self.bytes@.len(),
            old(interner).well_formed(),
            old(interner)@.len() < usize::MAX,
        ensures
            final(interner).well_formed(),
            end == scan(self.bytes@, pos as int).end,
            pos < end <= self.bytes@.len(),
            final(interner)@.len() <= old(interner)@.len() + 1,
            produced(*final(tokens), *final(errors), *final(interner)) == step(
                produced(*old(tokens), *old(errors), *old(interner)),
                Span { file: self.file, start: pos, end },
                scan(self.bytes@, pos as int).lexeme,
            ),
    {
        proof {
            lemma_scan_advances(self.bytes@, pos as int);
        }
        let ghost earlier_errors = errors.deep_view();
        let first: u8 = self.bytes[pos];
        if whitespace(first) {
            let end: usize = pos + 1;
            tokens.push((Span::new(self.file, pos, end), TokenKind::Whitespace(first as char)));
            end
        } else if class_holds(ByteClass::Letter, first) {
            let end: usize = self.run_end(pos + 1, ByteClass::Letter);
            let text = slice_subrange(self.bytes, pos, end);
            let span = Span::new(self.file, pos, end);
            match keyword(text) {
                Some(kind) => {
                    tokens.push((span, kind));
                },
                None => {
                    let id: usize = interner.insert(slice_to_vec(text));
                    tokens.push((span, TokenKind::Identifier(id)));
                },
            }
            end
        } else if class_holds(ByteClass::Digit, first) {
            let whole: usize = self.run_end(pos + 1, ByteClass::Digit);
            proof {
                lemma_run_within(self.bytes@, pos + 1, ByteClass::Digit);
            }
            if whole < self.bytes.len() && self.bytes[whole] == '.' as u8 {
                let end: usize = self.run_end(whole + 1, ByteClass::Digit);
                let text = slice_subrange(self.bytes, pos, end);
                let id: usize = interner.insert(slice_to_vec(text));
                tokens.push((Span::new(self.file, pos, end), TokenKind::FloatLiteral(id)));
                end
            } else {
                let span = Span::new(self.file, pos, whole);
                match self.integer(pos, whole) {
                    Some(value) => {
                        tokens.push((span, TokenKind::IntegerLiteral(value)));
                    },
                    None => {
                        errors.push(Error::IntegerOutOfRange(span));
                        assert(errors.deep_view() =~= earlier_errors.push(
                            ErrorView::IntegerOutOfRange(span),
                        ));
                    },
                }
                whole
            }
        } else if first == '"' as u8 {
            let close: usize = self.run_end(pos + 1, ByteClass::Unquoted);
            if close < self.bytes.len() {
                let end: usize = close + 1;
                let text = slice_subrange(self.bytes, pos + 1, close);
                let id: usize = interner.insert(slice_to_vec(text));
                tokens.push((Span::new(self.file, pos, end), TokenKind::StringLiteral(id)));
                end
            } else {
                let end: usize = pos + 1;
                let span = Span::new(self.file, pos, end);
                errors.push(Error::UnrecognizedCharacter(span));
                assert(errors.deep_view() =~= earlier_errors.push(
                    ErrorView::UnrecognizedCharacter(span),
                ));
                end
            }
        } else {
            let pair = if pos + 1 < self.bytes.len() {
                pair_token(first, self.bytes[pos + 1])
            } else {
                None
            };
            match pair {
                Some(kind) => {
                    let end: usize = pos + 2;
                    tokens.push((Span::new(self.file, pos, end), kind));
                    end
                },
                None => {
                    let end: usize = pos + 1;
                    let span = Span::new(self.file, pos, end);
                    match single_token(first) {
                        Some(kind) => {
                            tokens.push((span, kind));
                        },
                        None => {
                            errors.push(Error::UnrecognizedCharacter(span));
                            assert(errors.deep_view() =~= earlier_errors.push(
                                ErrorView::UnrecognizedCharacter(span),
                            ));
                        },
                    }
                    end
                },
            }
        }
    }

    /// Scans the whole source. Returns every token, whitespace included, in
    /// the order of the source, and every error in that order. Names and the
    /// texts of string and float literals are interned in `interner`.
    pub fn get_tokens(self, interner: &mut Interner) -> (out: (Vec<Token>, Vec<Error>))
        requires
            old(interner).well_formed(),
            old(interner)@.len() + self.source().len() <= usize::MAX,
        ensures
            final(interner).well_formed(),
            produced(out.0, out.1, *final(interner)) == lexed(
                self.source(),
                self.file(),
                old(interner)@,
            ),
    {
        let mut tokens: Vec<Token> = Vec::new();
        let mut errors: Vec<Error> = Vec::new();
        let mut pos: usize = 0;
        assert(errors.deep_view() =~= Seq::<ErrorView>::empty());
        while pos < self.bytes.len()
            invariant
                pos <= self.bytes@.len(),
                interner.well_formed(),
                interner@.len() <= old(interner)@.len() + pos,
                old(interner)@.len() + self.bytes@.len() <= usize::MAX,
                lexed(self.bytes@, self.file, old(interner)@) == lexed_from(
                    self.bytes@,
                    self.file,
                    pos as int,
                    produced(tokens, errors, *interner),
                ),
            decreases self.bytes@.len() - pos,
        {
            pos = self.lex_one(pos, interner, &mut tokens, &mut errors);
        }
        (tokens, errors)
    }
}

} // verus!
