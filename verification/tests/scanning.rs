use roxy::scanner::scan;
use roxy::token::TokenKind;

#[test]
fn empty_source_yields_one_eof() {
    let (tokens, diags) = scan("");
    assert!(diags.is_empty());
    assert_eq!(tokens.len(), 1);
    assert_eq!(tokens[0].kind, TokenKind::Eof);
    assert_eq!(tokens[0].line, 1);
}

#[test]
fn single_and_double_character_operators() {
    let (tokens, diags) = scan("( ) , . - + ; * / ! != = == < <= > >=");
    assert!(diags.is_empty());
    let kinds: Vec<TokenKind> = tokens.iter().map(|t| t.kind).collect();
    assert_eq!(
        kinds,
        vec![
            TokenKind::LeftParen,
            TokenKind::RightParen,
            TokenKind::Comma,
            TokenKind::Dot,
            TokenKind::Minus,
            TokenKind::Plus,
            TokenKind::Semicolon,
            TokenKind::Star,
            TokenKind::Slash,
            TokenKind::Bang,
            TokenKind::BangEqual,
            TokenKind::Equal,
            TokenKind::EqualEqual,
            TokenKind::Less,
            TokenKind::LessEqual,
            TokenKind::Greater,
            TokenKind::GreaterEqual,
            TokenKind::Eof,
        ]
    );
}

#[test]
fn keywords_and_identifiers() {
    let (tokens, diags) = scan("class fun var for if while print return true false nil froth");
    assert!(diags.is_empty());
    let kinds: Vec<TokenKind> = tokens.iter().map(|t| t.kind).collect();
    assert_eq!(
        kinds,
        vec![
            TokenKind::Class,
            TokenKind::Fun,
            TokenKind::Var,
            TokenKind::For,
            TokenKind::If,
            TokenKind::While,
            TokenKind::Print,
            TokenKind::Return,
            TokenKind::True,
            TokenKind::False,
            TokenKind::Nil,
            TokenKind::Identifier,
            TokenKind::Eof,
        ]
    );
    assert_eq!(tokens[11].text, "froth");
}

#[test]
fn comments_run_to_end_of_line() {
    let (tokens, diags) = scan("1 // the rest is ignored ( ) +\n2");
    assert!(diags.is_empty());
    assert_eq!(tokens.len(), 3);
    assert_eq!(tokens[0].kind, TokenKind::Number);
    assert_eq!(tokens[0].line, 1);
    assert_eq!(tokens[1].kind, TokenKind::Number);
    assert_eq!(tokens[1].line, 2);
    assert_eq!(tokens[1].num, 2_000_000_000);
}

#[test]
fn newlines_advance_the_line_counter() {
    let (tokens, diags) = scan("1\n2\n\n3");
    assert!(diags.is_empty());
    assert_eq!(tokens[0].line, 1);
    assert_eq!(tokens[1].line, 2);
    assert_eq!(tokens[2].line, 4);
    assert_eq!(tokens[3].kind, TokenKind::Eof);
    assert_eq!(tokens[3].line, 4);
}

#[test]
fn string_literals_keep_their_contents() {
    let (tokens, diags) = scan("\"hello world\"");
    assert!(diags.is_empty());
    assert_eq!(tokens[0].kind, TokenKind::Str);
    assert_eq!(tokens[0].text, "hello world");
}

#[test]
fn strings_may_span_lines() {
    let (tokens, diags) = scan("\"a\nb\" 1");
    assert!(diags.is_empty());
    assert_eq!(tokens[0].kind, TokenKind::Str);
    assert_eq!(tokens[0].text, "a\nb");
    assert_eq!(tokens[0].line, 2);
    assert_eq!(tokens[1].line, 2);
}

#[test]
fn unterminated_string_is_reported() {
    let (tokens, diags) = scan("\"never closed");
    assert_eq!(tokens.len(), 1);
    assert_eq!(tokens[0].kind, TokenKind::Eof);
    assert_eq!(diags.len(), 1);
    assert_eq!(diags[0].message, "Unterminated string.");
    assert_eq!(diags[0].line, 1);
}

#[test]
fn unexpected_character_is_reported_and_scanning_continues() {
    let (tokens, diags) = scan("1 @ 2");
    assert_eq!(diags.len(), 1);
    assert_eq!(diags[0].message, "Unexpected character.");
    assert_eq!(tokens.len(), 3);
    assert_eq!(tokens[0].kind, TokenKind::Number);
    assert_eq!(tokens[1].kind, TokenKind::Number);
}

#[test]
fn integer_literals_scale_to_the_mantissa() {
    let (tokens, diags) = scan("42");
    assert!(diags.is_empty());
    assert_eq!(tokens[0].kind, TokenKind::Number);
    assert_eq!(tokens[0].num, 42_000_000_000);
}

#[test]
fn decimal_literals_keep_nine_fraction_digits() {
    let (tokens, diags) = scan("3.14");
    assert!(diags.is_empty());
    assert_eq!(tokens[0].num, 3_140_000_000);

    let (tokens, diags) = scan("0.123456789123");
    assert!(diags.is_empty());
    assert_eq!(tokens[0].num, 123_456_789);
}

#[test]
fn trailing_dot_is_not_part_of_the_number() {
    let (tokens, diags) = scan("123.");
    assert!(diags.is_empty());
    assert_eq!(tokens[0].kind, TokenKind::Number);
    assert_eq!(tokens[0].num, 123_000_000_000);
    assert_eq!(tokens[1].kind, TokenKind::Dot);
}

#[test]
fn oversized_literal_is_reported() {
    let (tokens, diags) = scan("1000000000");
    assert_eq!(diags.len(), 1);
    assert_eq!(diags[0].message, "Number literal too large.");
    assert_eq!(tokens.len(), 1);
    assert_eq!(tokens[0].kind, TokenKind::Eof);

    let (tokens, diags) = scan("999999999");
    assert!(diags.is_empty());
    assert_eq!(tokens[0].num, 999_999_999_000_000_000);
}
