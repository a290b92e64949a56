//! The written form of tokens, and the law that the tokens of a source
//! spell the source.

use crate::error::Span;
use crate::interner::{intern_id, lemma_intern_idempotent};
use crate::lexer::token::{Token, TokenKind};
use crate::lexer::{
    decimal_value, is_digit, lemma_run_within, lemma_scan_advances, lexed, lexed_from, scan, step,
    ByteClass, Lexed, Lexeme,
};
use vstd::prelude::*;

verus! {

/// The decimal digits of a number, without any leading zero.
pub open spec fn decimal_digits(value: nat) -> Seq<u8>
    decreases value,
{
    if value < 10 {
        seq![('0' as u8 + value) as u8]
    } else {
        decimal_digits(value / 10).push(('0' as u8 + value % 10) as u8)
    }
}

/// How a token is written: a keyword or an operator as its fixed text, an
/// integer literal as the digits of its value, a name or a float literal as
/// its interned text, a string literal as its interned text in quotes.
pub open spec fn spelling(kind: TokenKind, interned: Seq<Seq<u8>>) -> Seq<u8> {
    match kind {
        TokenKind::Whitespace(ch) => seq![ch as u8],
        TokenKind::IntegerLiteral(value) => decimal_digits(value as nat),
        TokenKind::FloatLiteral(id) => interned[id as int],
        TokenKind::Identifier(id) => interned[id as int],
        TokenKind::StringLiteral(id) => seq!['"' as u8] + interned[id as int] + seq!['"' as u8],
        TokenKind::Void => seq!['V' as u8, 'o' as u8, 'i' as u8, 'd' as u8],
        TokenKind::Int => seq!['I' as u8, 'n' as u8, 't' as u8],
        TokenKind::Float => seq!['F' as u8, 'l' as u8, 'o' as u8, 'a' as u8, 't' as u8],
        TokenKind::Boolean => seq!['B' as u8, 'o' as u8, 'o' as u8, 'l' as u8, 'e' as u8, 'a' as u8, 'n' as u8],
        TokenKind::String => seq!['S' as u8, 't' as u8, 'r' as u8, 'i' as u8, 'n' as u8, 'g' as u8],
        TokenKind::BooleanLiteral(true) => seq!['t' as u8, 'r' as u8, 'u' as u8, 'e' as u8],
        TokenKind::BooleanLiteral(false) => seq!['f' as u8, 'a' as u8, 'l' as u8, 's' as u8, 'e' as u8],
        TokenKind::LeftParenthesis => seq!['(' as u8],
        TokenKind::RightParenthesis => seq![')' as u8],
        TokenKind::LeftCurlyBrace => seq!['{' as u8],
        TokenKind::RightCurlyBrace => seq!['}' as u8],
        TokenKind::LeftAngleBracket => seq!['<' as u8],
        TokenKind::RightAngleBracket => seq!['>' as u8],
        TokenKind::Plus => seq!['+' as u8],
        TokenKind::Minus => seq!['-' as u8],
        TokenKind::Star => seq!['*' as u8],
        TokenKind::Slash => seq!['/' as u8],
        TokenKind::PercentSign => seq!['%' as u8],
        TokenKind::EqualSign => seq!['=' as u8],
        TokenKind::ColonEqualSign => seq![':' as u8, '=' as u8],
        TokenKind::ExclamationEqualSign => seq!['!' as u8, '=' as u8],
        TokenKind::LessThanEqualSign => seq!['<' as u8, '=' as u8],
        TokenKind::GreaterThanEqualSign => seq!['>' as u8, '=' as u8],
        TokenKind::Comma => seq![',' as u8],
        TokenKind::Colon => seq![':' as u8],
        TokenKind::ColonColon => seq![':' as u8, ':' as u8],
        TokenKind::Not => seq!['n' as u8, 'o' as u8, 't' as u8],
        TokenKind::Or => seq!['o' as u8, 'r' as u8],
        TokenKind::And => seq!['a' as u8, 'n' as u8, 'd' as u8],
        TokenKind::Let => seq!['l' as u8, 'e' as u8, 't' as u8],
        TokenKind::If => seq!['i' as u8, 'f' as u8],
        TokenKind::Then => seq!['t' as u8, 'h' as u8, 'e' as u8, 'n' as u8],
        TokenKind::Else => seq!['e' as u8, 'l' as u8, 's' as u8, 'e' as u8],
        TokenKind::While => seq!['w' as u8, 'h' as u8, 'i' as u8, 'l' as u8, 'e' as u8],
        TokenKind::Define => seq!['d' as u8, 'e' as u8, 'f' as u8, 'i' as u8, 'n' as u8, 'e' as u8],
    }
}

/// The written forms of the tokens, one behind the other.
pub open spec fn spelled(tokens: Seq<Token>, interned: Seq<Seq<u8>>) -> Seq<u8>
    decreases tokens.len(),
{
    if tokens.len() == 0 {
        Seq::empty()
    } else {
        spelling(tokens[0].1, interned) + spelled(tokens.drop_first(), interned)
    }
}

/// An integer literal is written plainly if it has no needless zero in
/// front: it is one digit, or does not start with a zero.
pub open spec fn plainly_written(source: Seq<u8>, token: Token) -> bool {
    token.1 is IntegerLiteral ==> (token.0.end - token.0.start == 1 || source[token.0.start as int]
        != '0' as u8)
}

/// Whether the token names, if anything, a value that is interned.
pub open spec fn names_interned(token: Token, interned: Seq<Seq<u8>>) -> bool {
    match token.1 {
        TokenKind::FloatLiteral(id) => id < interned.len(),
        TokenKind::Identifier(id) => id < interned.len(),
        TokenKind::StringLiteral(id) => id < interned.len(),
        _ => true,
    }
}

/// No value is interned twice, and every token names an interned value.
pub open spec fn consistent(state: Lexed) -> bool {
    &&& state.interned.no_duplicates()
    &&& forall|i: int| 0 <= i < state.tokens.len() ==> names_interned(#[trigger] state.tokens[i], state.interned)
}

/// A row of digits that does not start with a zero stands for a number
/// that is not zero.
pub proof fn lemma_decimal_value_positive(digits: Seq<u8>)
    requires
        digits.len() > 0,
        forall|i: int| 0 <= i < digits.len() ==> is_digit(digits[i]),
        digits[0] != '0' as u8,
    ensures
        decimal_value(digits) >= 1,
    decreases digits.len(),
{
    if digits.len() > 1 {
        lemma_decimal_value_positive(digits.drop_last());
    } else {
        assert(digits.drop_last().len() == 0);
    }
}

/// The digits of the number that a plainly written row of digits stands for
/// are that row.
pub proof fn lemma_digits_of_value(digits: Seq<u8>)
    requires
        digits.len() > 0,
        forall|i: int| 0 <= i < digits.len() ==> is_digit(digits[i]),
        digits.len() == 1 || digits[0] != '0' as u8,
    ensures
        decimal_digits(decimal_value(digits)) == digits,
    decreases digits.len(),
{
    let shorter = digits.drop_last();
    let last = (digits.last() - '0' as u8) as nat;
    if digits.len() == 1 {
        assert(shorter.len() == 0);
        assert(decimal_value(shorter) == 0);
        assert(decimal_digits(decimal_value(digits)) =~= digits);
    } else {
        lemma_digits_of_value(shorter);
        lemma_decimal_value_positive(shorter);
        let value = decimal_value(digits);
        assert(value == 10 * decimal_value(shorter) + last);
        assert(value / 10 == decimal_value(shorter));
        assert(value % 10 == last);
        assert(decimal_digits(value) =~= digits);
    }
}

/// What a token spells does not change when more values are interned.
pub proof fn lemma_spelling_stable(token: Token, earlier: Seq<Seq<u8>>, later: Seq<Seq<u8>>)
    requires
        earlier.is_prefix_of(later),
        names_interned(token, earlier),
    ensures
        spelling(token.1, later) == spelling(token.1, earlier),
        names_interned(token, later),
{
}

/// One step of the scan: where it reads a token, the token spells the bytes
/// that it was read from.
pub proof fn lemma_step_spells(source: Seq<u8>, file: usize, pos: int, state: Lexed)
    requires
        0 <= pos < source.len() <= usize::MAX,
        state.interned.len() < usize::MAX,
        consistent(state),
    ensures
        ({
            let scanned = scan(source, pos);
            let span = Span { file, start: pos as usize, end: scanned.end as usize };
            let next = step(state, span, scanned.lexeme);
            &&& consistent(next)
            &&& next.interned.len() <= state.interned.len() + 1
            &&& state.interned.is_prefix_of(next.interned)
            &&& state.errors.is_prefix_of(next.errors)
            &&& state.tokens.is_prefix_of(next.tokens)
            &&& next.tokens.len() + next.errors.len() == state.tokens.len() + state.errors.len()
                + 1
            &&& next.errors.len() == state.errors.len() ==> {
                let token = next.tokens[state.tokens.len() as int];
                &&& token.0 == span
                &&& plainly_written(source, token) ==> spelling(token.1, next.interned)
                    == source.subrange(pos, scanned.end)
            }
        }),
{
    lemma_scan_advances(source, pos);
    let scanned = scan(source, pos);
    let span = Span { file, start: pos as usize, end: scanned.end as usize };
    let next = step(state, span, scanned.lexeme);
    let text = source.subrange(pos, scanned.end);
    match scanned.lexeme {
        Lexeme::Plain(kind) => {
            let token = next.tokens[state.tokens.len() as int];
            assert(token == (span, kind));
            if kind is IntegerLiteral {
                if plainly_written(source, token) {
                    lemma_run_within(source, pos + 1, ByteClass::Digit);
                    lemma_digits_of_value(text);
                }
            } else {
                assert(spelling(kind, next.interned) =~= text);
            }
        },
        Lexeme::Identifier(value) => {
            lemma_intern_idempotent(state.interned, value);
        },
        Lexeme::FloatLiteral(value) => {
            lemma_intern_idempotent(state.interned, value);
        },
        Lexeme::StringLiteral(value) => {
            lemma_intern_idempotent(state.interned, value);
            lemma_run_within(source, pos + 1, ByteClass::Unquoted);
            let id = intern_id(state.interned, value);
            assert(seq!['"' as u8] + next.interned[id] + seq!['"' as u8] =~= text);
        },
        Lexeme::Unrecognized => {},
        Lexeme::OutOfRange => {},
    }
    assert forall|i: int| 0 <= i < next.tokens.len() implies names_interned(
        #[trigger] next.tokens[i],
        next.interned,
    ) by {
        if i < state.tokens.len() {
            lemma_spelling_stable(state.tokens[i], state.interned, next.interned);
        }
    }
}

/// The scan from `pos` on only adds to what was produced. Where it adds no
/// error and every integer literal is plainly written, the tokens it adds
/// spell the source from `pos` on.
pub proof fn lemma_lexed_from_spells(source: Seq<u8>, file: usize, pos: int, state: Lexed)
    requires
        0 <= pos <= source.len() <= usize::MAX,
        state.interned.len() + source.len() - pos <= usize::MAX,
        consistent(state),
    ensures
        ({
            let out = lexed_from(source, file, pos, state);
            let before = state.tokens.len() as int;
            &&& consistent(out)
            &&& state.interned.is_prefix_of(out.interned)
            &&& state.errors.is_prefix_of(out.errors)
            &&& state.tokens.is_prefix_of(out.tokens)
            &&& (out.errors.len() == state.errors.len() && (forall|i: int|
                before <= i < out.tokens.len() ==> plainly_written(source, #[trigger] out.tokens[i])))
                ==> spelled(out.tokens.skip(before), out.interned) == source.subrange(
                pos,
                source.len() as int,
            )
        }),
    decreases source.len() - pos,
{
    let out = lexed_from(source, file, pos, state);
    let before = state.tokens.len() as int;
    if pos < source.len() {
        lemma_scan_advances(source, pos);
        lemma_step_spells(source, file, pos, state);
        let scanned = scan(source, pos);
        let span = Span { file, start: pos as usize, end: scanned.end as usize };
        let next = step(state, span, scanned.lexeme);
        lemma_lexed_from_spells(source, file, scanned.end, next);
        if out.errors.len() == state.errors.len() && (forall|i: int|
            before <= i < out.tokens.len() ==> plainly_written(source, #[trigger] out.tokens[i])) {
            assert(next.errors.len() == state.errors.len());
            assert(next.tokens.len() == before + 1);
            let token = next.tokens[before];
            assert(out.tokens[before] == token);
            let added = out.tokens.skip(before);
            assert(added[0] == token);
            assert(added.drop_first() =~= out.tokens.skip(before + 1));
            lemma_spelling_stable(token, next.interned, out.interned);
            assert(spelled(added, out.interned) =~= source.subrange(pos, source.len() as int));
        }
    } else {
        assert(out.tokens.skip(before) =~= Seq::<Token>::empty());
        assert(source.subrange(pos, source.len() as int) =~= Seq::<u8>::empty());
    }
}

/// Every span that the scan from `pos` on hands out names the file and lies
/// inside the source, at or behind `pos`.
pub proof fn lemma_spans_within(source: Seq<u8>, file: usize, pos: int, state: Lexed)
    requires
        0 <= pos <= source.len() <= usize::MAX,
    ensures
        ({
            let out = lexed_from(source, file, pos, state);
            &&& state.tokens.is_prefix_of(out.tokens)
            &&& forall|i: int|
                state.tokens.len() <= i < out.tokens.len() ==> {
                    let span = (#[trigger] out.tokens[i]).0;
                    span.file == file && pos <= span.start < span.end && span.within(source.len())
                }
        }),
    decreases source.len() - pos,
{
    if pos < source.len() {
        lemma_scan_advances(source, pos);
        let scanned = scan(source, pos);
        let span = Span { file, start: pos as usize, end: scanned.end as usize };
        let next = step(state, span, scanned.lexeme);
        lemma_spans_within(source, file, scanned.end, next);
        let out = lexed_from(source, file, pos, state);
        assert forall|i: int| state.tokens.len() <= i < out.tokens.len() implies {
            let found = (#[trigger] out.tokens[i]).0;
            found.file == file && pos <= found.start < found.end && found.within(source.len())
        } by {
            if i < next.tokens.len() {
                assert(out.tokens[i] == next.tokens[i]);
            }
        }
    }
}

/// The spans of the tokens follow one another without a gap from `start`
/// to `end`.
pub open spec fn chained(tokens: Seq<Token>, start: int, end: int) -> bool
    decreases tokens.len(),
{
    if tokens.len() == 0 {
        start == end
    } else {
        tokens[0].0.start == start && chained(tokens.drop_first(), tokens[0].0.end as int, end)
    }
}

/// Where the scan from `pos` on adds no error, the spans of the tokens that
/// it adds follow one another without a gap from `pos` to the end of the
/// source.
pub proof fn lemma_lexed_from_tiles(source: Seq<u8>, file: usize, pos: int, state: Lexed)
    requires
        0 <= pos <= source.len() <= usize::MAX,
    ensures
        ({
            let out = lexed_from(source, file, pos, state);
            &&& state.tokens.is_prefix_of(out.tokens)
            &&& state.errors.is_prefix_of(out.errors)
            &&& out.errors.len() == state.errors.len() ==> chained(
                out.tokens.skip(state.tokens.len() as int),
                pos,
                source.len() as int,
            )
        }),
    decreases source.len() - pos,
{
    let out = lexed_from(source, file, pos, state);
    let before = state.tokens.len() as int;
    if pos < source.len() {
        lemma_scan_advances(source, pos);
        let scanned = scan(source, pos);
        let span = Span { file, start: pos as usize, end: scanned.end as usize };
        let next = step(state, span, scanned.lexeme);
        lemma_lexed_from_tiles(source, file, scanned.end, next);
        if out.errors.len() == state.errors.len() {
            assert(next.tokens.len() == before + 1);
            assert(out.tokens[before] == next.tokens[before]);
            let added = out.tokens.skip(before);
            assert(added[0].0 == span);
            assert(added.drop_first() =~= out.tokens.skip(before + 1));
        }
    } else {
        assert(out.tokens.skip(before) =~= Seq::<Token>::empty());
    }
}

/// The tokens of a source that scans without an error cover it: their spans
/// follow one another without a gap from its first byte to its last.
pub proof fn lemma_tokens_tile(source: Seq<u8>, file: usize, interned: Seq<Seq<u8>>)
    requires
        source.len() <= usize::MAX,
        lexed(source, file, interned).errors.len() == 0,
    ensures
        chained(lexed(source, file, interned).tokens, 0, source.len() as int),
{
    let out = lexed(source, file, interned);
    lemma_lexed_from_tiles(
        source,
        file,
        0,
        Lexed { tokens: Seq::empty(), errors: Seq::empty(), interned },
    );
    assert(out.tokens.skip(0) =~= out.tokens);
}

/// Every token of a source has a span that is not empty and lies inside
/// the source.
pub proof fn lemma_token_spans(source: Seq<u8>, file: usize, interned: Seq<Seq<u8>>)
    requires
        source.len() <= usize::MAX,
    ensures
        forall|i: int|
            0 <= i < lexed(source, file, interned).tokens.len() ==> {
                let span = (#[trigger] lexed(source, file, interned).tokens[i]).0;
                span.file == file && span.start < span.end && span.within(source.len())
            },
{
    lemma_spans_within(
        source,
        file,
        0,
        Lexed { tokens: Seq::empty(), errors: Seq::empty(), interned },
    );
}

/// Writing out every token of a source, one behind the other, gives the
/// source again, where the scan reports no error and every integer literal
/// is plainly written. Whitespace tokens stand for the whitespace, so that
/// the other tokens spell the source up to whitespace.
pub proof fn lemma_round_trip(source: Seq<u8>, file: usize, interned: Seq<Seq<u8>>)
    requires
        interned.len() + source.len() <= usize::MAX,
        interned.no_duplicates(),
        lexed(source, file, interned).errors.len() == 0,
        forall|i: int|
            0 <= i < lexed(source, file, interned).tokens.len() ==> plainly_written(
                source,
                #[trigger] lexed(source, file, interned).tokens[i],
            ),
    ensures
        spelled(lexed(source, file, interned).tokens, lexed(source, file, interned).interned)
            == source,
{
    let start = Lexed { tokens: Seq::empty(), errors: Seq::empty(), interned };
    let out = lexed(source, file, interned);
    lemma_lexed_from_spells(source, file, 0, start);
    assert(out.tokens.skip(0) =~= out.tokens);
    assert(source.subrange(0, source.len() as int) =~= source);
}

} // verus!
