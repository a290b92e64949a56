use envyc::error::{Error, Span};
use envyc::interner::Interner;
use envyc::lexer::token::{Token, TokenKind};
use envyc::lexer::{keyword, Lexer};

fn lex(source: &str, interner: &mut Interner) -> (Vec<Token>, Vec<Error>) {
    Lexer::new(0, source.as_bytes()).get_tokens(interner)
}

fn kinds(source: &str) -> Vec<TokenKind> {
    let mut interner = Interner::default();
    let (tokens, errors) = lex(source, &mut interner);
    assert!(errors.is_empty());
    tokens.into_iter().map(|token| token.1).filter(|kind| !matches!(kind, TokenKind::Whitespace(_))).collect()
}

fn span(start: usize, end: usize) -> Span {
    Span { file: 0, start, end }
}

#[test]
fn empty_source_has_no_tokens() {
    let mut interner = Interner::default();
    let (tokens, errors) = lex("", &mut interner);
    assert!(tokens.is_empty());
    assert!(errors.is_empty());
}

#[test]
fn whitespace_is_kept_as_tokens() {
    let mut interner = Interner::default();
    let (tokens, errors) = lex("1 \t\n2", &mut interner);
    assert!(errors.is_empty());
    assert_eq!(
        tokens,
        vec![
            (span(0, 1), TokenKind::IntegerLiteral(1)),
            (span(1, 2), TokenKind::Whitespace(' ')),
            (span(2, 3), TokenKind::Whitespace('\t')),
            (span(3, 4), TokenKind::Whitespace('\n')),
            (span(4, 5), TokenKind::IntegerLiteral(2)),
        ]
    );
}

#[test]
fn reserved_words_are_recognized() {
    assert_eq!(
        kinds("Void Int Float Boolean String true false not or and let if then else while define"),
        vec![
            TokenKind::Void,
            TokenKind::Int,
            TokenKind::Float,
            TokenKind::Boolean,
            TokenKind::String,
            TokenKind::BooleanLiteral(true),
            TokenKind::BooleanLiteral(false),
            TokenKind::Not,
            TokenKind::Or,
            TokenKind::And,
            TokenKind::Let,
            TokenKind::If,
            TokenKind::Then,
            TokenKind::Else,
            TokenKind::While,
            TokenKind::Define,
        ]
    );
}

#[test]
fn keyword_lookup_is_exact() {
    assert_eq!(keyword(b"if"), Some(TokenKind::If));
    assert_eq!(keyword(b"iff"), None);
    assert_eq!(keyword(b"If"), None);
    assert_eq!(keyword(b"int"), None);
    assert_eq!(keyword(b"Int"), Some(TokenKind::Int));
    assert_eq!(keyword(b""), None);
}

#[test]
fn operators_take_the_longest_match() {
    assert_eq!(
        kinds(":= : :: != <= >= < > = ( ) { } + - * / % ,"),
        vec![
            TokenKind::ColonEqualSign,
            TokenKind::Colon,
            TokenKind::ColonColon,
            TokenKind::ExclamationEqualSign,
            TokenKind::LessThanEqualSign,
            TokenKind::GreaterThanEqualSign,
            TokenKind::LeftAngleBracket,
            TokenKind::RightAngleBracket,
            TokenKind::EqualSign,
            TokenKind::LeftParenthesis,
            TokenKind::RightParenthesis,
            TokenKind::LeftCurlyBrace,
            TokenKind::RightCurlyBrace,
            TokenKind::Plus,
            TokenKind::Minus,
            TokenKind::Star,
            TokenKind::Slash,
            TokenKind::PercentSign,
            TokenKind::Comma,
        ]
    );
    assert_eq!(kinds(":::"), vec![TokenKind::ColonColon, TokenKind::Colon]);
    assert_eq!(kinds("::="), vec![TokenKind::ColonColon, TokenKind::EqualSign]);
    assert_eq!(kinds("<=="), vec![TokenKind::LessThanEqualSign, TokenKind::EqualSign]);
}

#[test]
fn equal_names_share_one_id() {
    let mut interner = Interner::default();
    let (tokens, errors) = lex("abc x_y abc", &mut interner);
    assert!(errors.is_empty());
    assert_eq!(
        tokens,
        vec![
            (span(0, 3), TokenKind::Identifier(0)),
            (span(3, 4), TokenKind::Whitespace(' ')),
            (span(4, 7), TokenKind::Identifier(1)),
            (span(7, 8), TokenKind::Whitespace(' ')),
            (span(8, 11), TokenKind::Identifier(0)),
        ]
    );
    assert_eq!(interner.get(0), &b"abc".to_vec());
    assert_eq!(interner.get(1), &b"x_y".to_vec());
}

#[test]
fn a_name_ends_where_the_letters_end() {
    let mut interner = Interner::default();
    let (tokens, errors) = lex("x1", &mut interner);
    assert!(errors.is_empty());
    assert_eq!(
        tokens,
        vec![(span(0, 1), TokenKind::Identifier(0)), (span(1, 2), TokenKind::IntegerLiteral(1))]
    );
}

#[test]
fn a_reserved_word_inside_a_name_is_part_of_the_name() {
    let mut interner = Interner::default();
    let (tokens, _) = lex("iffy", &mut interner);
    assert_eq!(tokens, vec![(span(0, 4), TokenKind::Identifier(0))]);
    assert_eq!(interner.get(0), &b"iffy".to_vec());
}

#[test]
fn integer_literals_have_their_value() {
    assert_eq!(kinds("0"), vec![TokenKind::IntegerLiteral(0)]);
    assert_eq!(kinds("42"), vec![TokenKind::IntegerLiteral(42)]);
    assert_eq!(kinds("007"), vec![TokenKind::IntegerLiteral(7)]);
    assert_eq!(kinds("9223372036854775807"), vec![TokenKind::IntegerLiteral(i64::MAX)]);
}

#[test]
fn an_integer_that_does_not_fit_is_an_error() {
    let mut interner = Interner::default();
    let (tokens, errors) = lex("9223372036854775808 1", &mut interner);
    assert_eq!(
        tokens,
        vec![(span(19, 20), TokenKind::Whitespace(' ')), (span(20, 21), TokenKind::IntegerLiteral(1))]
    );
    assert_eq!(errors, vec![Error::IntegerOutOfRange(span(0, 19))]);
    let (tokens, errors) = lex("99999999999999999999999999", &mut interner);
    assert!(tokens.is_empty());
    assert_eq!(errors, vec![Error::IntegerOutOfRange(span(0, 26))]);
}

#[test]
fn float_literals_intern_their_text() {
    let mut interner = Interner::default();
    let (tokens, errors) = lex("1.5 3. 1.5", &mut interner);
    assert!(errors.is_empty());
    assert_eq!(
        tokens,
        vec![
            (span(0, 3), TokenKind::FloatLiteral(0)),
            (span(3, 4), TokenKind::Whitespace(' ')),
            (span(4, 6), TokenKind::FloatLiteral(1)),
            (span(6, 7), TokenKind::Whitespace(' ')),
            (span(7, 10), TokenKind::FloatLiteral(0)),
        ]
    );
    assert_eq!(interner.get(0), &b"1.5".to_vec());
    assert_eq!(interner.get(1), &b"3.".to_vec());
    let value: f64 = std::str::from_utf8(interner.get(0)).unwrap().parse().unwrap();
    assert_eq!(value, 1.5);
}

#[test]
fn a_second_dot_ends_a_float_literal() {
    let mut interner = Interner::default();
    let (tokens, errors) = lex("1.2.3", &mut interner);
    assert_eq!(
        tokens,
        vec![(span(0, 3), TokenKind::FloatLiteral(0)), (span(4, 5), TokenKind::IntegerLiteral(3))]
    );
    assert_eq!(errors, vec![Error::UnrecognizedCharacter(span(3, 4))]);
}

#[test]
fn string_literals_intern_what_is_between_the_quotes() {
    let mut interner = Interner::default();
    let (tokens, errors) = lex("\"hi there\" \"\" \"hi there\"", &mut interner);
    assert!(errors.is_empty());
    assert_eq!(
        tokens,
        vec![
            (span(0, 10), TokenKind::StringLiteral(0)),
            (span(10, 11), TokenKind::Whitespace(' ')),
            (span(11, 13), TokenKind::StringLiteral(1)),
            (span(13, 14), TokenKind::Whitespace(' ')),
            (span(14, 24), TokenKind::StringLiteral(0)),
        ]
    );
    assert_eq!(interner.get(0), &b"hi there".to_vec());
    assert_eq!(interner.get(1), &Vec::<u8>::new());
}

#[test]
fn a_name_and_a_string_with_the_same_text_share_an_id() {
    let mut interner = Interner::default();
    let (tokens, _) = lex("ab\"ab\"", &mut interner);
    assert_eq!(
        tokens,
        vec![(span(0, 2), TokenKind::Identifier(0)), (span(2, 6), TokenKind::StringLiteral(0))]
    );
}

#[test]
fn an_unclosed_quote_is_an_unrecognized_character() {
    let mut interner = Interner::default();
    let (tokens, errors) = lex("\"abc", &mut interner);
    assert_eq!(tokens, vec![(span(1, 4), TokenKind::Identifier(0))]);
    assert_eq!(errors, vec![Error::UnrecognizedCharacter(span(0, 1))]);
}

#[test]
fn an_unrecognized_character_does_not_stop_the_scan() {
    let mut interner = Interner::default();
    let (tokens, errors) = lex("1 # 2 ! 3", &mut interner);
    let found: Vec<TokenKind> = tokens
        .iter()
        .map(|token| token.1)
        .filter(|kind| !matches!(kind, TokenKind::Whitespace(_)))
        .collect();
    assert_eq!(
        found,
        vec![TokenKind::IntegerLiteral(1), TokenKind::IntegerLiteral(2), TokenKind::IntegerLiteral(3)]
    );
    assert_eq!(
        errors,
        vec![Error::UnrecognizedCharacter(span(2, 3)), Error::UnrecognizedCharacter(span(6, 7))]
    );
}

#[test]
fn a_byte_outside_ascii_is_an_unrecognized_character() {
    let mut interner = Interner::default();
    let (tokens, errors) = Lexer::new(0, &[0xC3, 0xA9]).get_tokens(&mut interner);
    assert!(tokens.is_empty());
    assert_eq!(
        errors,
        vec![Error::UnrecognizedCharacter(span(0, 1)), Error::UnrecognizedCharacter(span(1, 2))]
    );
}

#[test]
fn spans_name_the_file_of_the_lexer() {
    let mut interner = Interner::default();
    let (tokens, errors) = Lexer::new(9, b"a ?").get_tokens(&mut interner);
    assert_eq!(tokens[0].0, Span { file: 9, start: 0, end: 1 });
    assert_eq!(errors, vec![Error::UnrecognizedCharacter(Span { file: 9, start: 2, end: 3 })]);
}

#[test]
fn tokens_cover_the_source_in_order() {
    let source = "let total: Int = (price + 12) * 3.5 := \"done\" if x then y else z";
    let mut interner = Interner::default();
    let (tokens, errors) = lex(source, &mut interner);
    assert!(errors.is_empty());
    let mut rebuilt = Vec::new();
    let mut at = 0;
    for (span, _) in &tokens {
        assert_eq!(span.start, at);
        rebuilt.extend_from_slice(&source.as_bytes()[span.start..span.end]);
        at = span.end;
    }
    assert_eq!(at, source.len());
    assert_eq!(rebuilt, source.as_bytes());
}

#[test]
fn spelling_of_every_token_rebuilds_the_source() {
    let source = "let total : Int = ( price + 12 ) * 3.5 := \"done\" , x <= y :: z";
    let mut interner = Interner::default();
    let (tokens, errors) = lex(source, &mut interner);
    assert!(errors.is_empty());
    let mut rebuilt = String::new();
    for (_, kind) in &tokens {
        match kind {
            TokenKind::IntegerLiteral(value) => rebuilt.push_str(&format!("{}", value)),
            TokenKind::FloatLiteral(id) | TokenKind::Identifier(id) => {
                rebuilt.push_str(std::str::from_utf8(interner.get(*id)).unwrap())
            }
            TokenKind::StringLiteral(id) => {
                rebuilt.push('"');
                rebuilt.push_str(std::str::from_utf8(interner.get(*id)).unwrap());
                rebuilt.push('"');
            }
            other => rebuilt.push_str(&other.to_string()),
        }
    }
    assert_eq!(rebuilt, source);
}

#[test]
fn an_interner_that_is_in_use_keeps_its_ids() {
    let mut interner = Interner::default();
    interner.insert(b"kept".to_vec());
    let (tokens, _) = lex("new kept", &mut interner);
    assert_eq!(tokens[0].1, TokenKind::Identifier(1));
    assert_eq!(tokens[2].1, TokenKind::Identifier(0));
}

#[test]
fn kinds_are_named_for_diagnostics() {
    assert_eq!(TokenKind::Whitespace('\n').to_string(), "\n");
    assert_eq!(TokenKind::Whitespace(' ').to_string(), " ");
    assert_eq!(TokenKind::Void.to_string(), "Void");
    assert_eq!(TokenKind::Boolean.to_string(), "Boolean");
    assert_eq!(TokenKind::IntegerLiteral(5).to_string(), "integer literal");
    assert_eq!(TokenKind::FloatLiteral(0).to_string(), "float literal");
    assert_eq!(TokenKind::BooleanLiteral(true).to_string(), "boolean literal");
    assert_eq!(TokenKind::StringLiteral(0).to_string(), "string literal");
    assert_eq!(TokenKind::Identifier(3).to_string(), "identifier");
    assert_eq!(TokenKind::LeftCurlyBrace.to_string(), "{");
    assert_eq!(TokenKind::RightCurlyBrace.to_string(), "}");
    assert_eq!(TokenKind::ColonEqualSign.to_string(), ":=");
    assert_eq!(TokenKind::ExclamationEqualSign.to_string(), "!=");
    assert_eq!(TokenKind::ColonColon.to_string(), "::");
    assert_eq!(TokenKind::Define.to_string(), "define");
}

#[test]
fn kinds_are_numbered_in_order() {
    assert_eq!(TokenKind::Whitespace('x').tag(), 0);
    assert_eq!(TokenKind::IntegerLiteral(1).tag(), TokenKind::IntegerLiteral(2).tag());
    assert_eq!(TokenKind::Identifier(1).tag(), 10);
    assert_eq!(TokenKind::Define.tag(), 38);
}

#[test]
fn line_and_column_count_from_one() {
    let source = b"ab\ncd\n\nxyz";
    let at = |start: usize| Span { file: 0, start, end: start }.line_column(source);
    assert_eq!(at(0), (1, 1));
    assert_eq!(at(1), (1, 2));
    assert_eq!(at(2), (1, 3));
    assert_eq!(at(3), (2, 1));
    assert_eq!(at(4), (2, 2));
    assert_eq!(at(6), (3, 1));
    assert_eq!(at(7), (4, 1));
    assert_eq!(at(9), (4, 3));
    assert_eq!(at(10), (4, 4));
}

#[test]
fn interner_counts_its_values() {
    let mut interner = Interner::default();
    assert_eq!(interner.len(), 0);
    let (_, _) = lex("a b a c", &mut interner);
    assert_eq!(interner.len(), 3);
}
