use recipe_lang::ast::Decimal;
use recipe_lang::scan::{Keyword, ScanError, ScanErrorKind, Scanner, Token};

fn scan(text: &str) -> Result<Vec<Token>, ScanError> {
    Scanner::new(text).scan()
}

fn num(mantissa: u64, scale: usize) -> Token {
    Token::Number(Decimal { mantissa, scale })
}

fn ident(s: &str) -> Token {
    Token::Identifier(String::from(s))
}

#[test]
fn scans_punctuation_and_words() {
    let tokens = scan("flour: 2\n").unwrap();
    assert_eq!(tokens, vec![ident("flour"), Token::Colon, num(2, 0), Token::Newline]);
}

#[test]
fn blank_line_runs_collapse_to_one_separator() {
    let tokens = scan("flour\n\n\n\nsugar").unwrap();
    assert_eq!(tokens, vec![ident("flour"), Token::Newline, ident("sugar")]);
}

#[test]
fn tab_and_carriage_return_are_separators() {
    let tokens = scan("flour\t\r\nsugar").unwrap();
    assert_eq!(tokens, vec![ident("flour"), Token::Newline, ident("sugar")]);
}

#[test]
fn consecutive_words_merge_into_one_identifier() {
    let tokens = scan("olive oil").unwrap();
    assert_eq!(tokens, vec![ident("olive oil")]);
}

#[test]
fn merge_joins_with_a_single_space() {
    let tokens = scan("olive    oil").unwrap();
    assert_eq!(tokens, vec![ident("olive oil")]);
}

#[test]
fn three_words_merge_too() {
    let tokens = scan("extra virgin olive-oil").unwrap();
    assert_eq!(tokens, vec![ident("extra virgin olive-oil")]);
}

#[test]
fn keyword_does_not_merge_into_identifier() {
    let tokens = scan("Mix olive oil").unwrap();
    assert_eq!(tokens, vec![Token::Keyword(Keyword::Mix), ident("olive oil")]);
}

#[test]
fn identifier_after_keyword_starts_fresh() {
    let tokens = scan("Cut dough into result").unwrap();
    assert_eq!(
        tokens,
        vec![
            Token::Keyword(Keyword::Cut),
            ident("dough"),
            Token::Keyword(Keyword::Into),
            ident("result"),
        ]
    );
}

#[test]
fn all_keywords_are_recognized() {
    let tokens = scan("Ingredients Instructions Combine Mix Cut into Refridgerate Bake").unwrap();
    assert_eq!(
        tokens,
        vec![
            Token::Keyword(Keyword::Ingredients),
            Token::Keyword(Keyword::Instructions),
            Token::Keyword(Keyword::Combine),
            Token::Keyword(Keyword::Mix),
            Token::Keyword(Keyword::Cut),
            Token::Keyword(Keyword::Into),
            Token::Keyword(Keyword::Refridgerate),
            Token::Keyword(Keyword::Bake),
        ]
    );
}

#[test]
fn keyword_spelling_is_case_sensitive() {
    // `Into` (capitalized) is not the keyword `into`; `mix` is not `Mix`.
    let tokens = scan("Into mix").unwrap();
    assert_eq!(tokens, vec![ident("Into mix")]);
}

#[test]
fn numbers_with_grouping_commas() {
    let tokens = scan("1,000").unwrap();
    assert_eq!(tokens, vec![num(1000, 0)]);
}

#[test]
fn fractional_number() {
    let tokens = scan("2.5").unwrap();
    assert_eq!(tokens, vec![num(25, 1)]);
}

#[test]
fn trailing_dot_number() {
    let tokens = scan("3.").unwrap();
    assert_eq!(tokens, vec![num(3, 0)]);
}

#[test]
fn number_with_two_dots_is_an_error() {
    let err = scan("1.2.3").unwrap_err();
    assert_eq!(err.kind, ScanErrorKind::InvalidNumber(String::from("1.2.3")));
    assert_eq!(err.line, 1);
    assert_eq!(err.column, 1);
}

#[test]
fn number_too_large_for_the_mantissa_is_an_error() {
    let err = scan("111111111111111111111111111111").unwrap_err();
    assert_eq!(
        err.kind,
        ScanErrorKind::InvalidNumber(String::from("111111111111111111111111111111"))
    );
}

#[test]
fn unrecognized_character_aborts_the_scan() {
    let err = scan("flour; sugar").unwrap_err();
    assert_eq!(err.kind, ScanErrorKind::UnrecognizedChar(';'));
    assert_eq!(err.line, 1);
    assert_eq!(err.column, 6);
    assert_eq!(err.source_line, "flour; sugar");
}

#[test]
fn error_position_counts_lines_and_columns() {
    let err = scan("ab\ncd;e\nf").unwrap_err();
    assert_eq!(err.kind, ScanErrorKind::UnrecognizedChar(';'));
    assert_eq!(err.line, 2);
    assert_eq!(err.column, 3);
    assert_eq!(err.source_line, "cd;e");
}

#[test]
fn empty_input_scans_to_no_tokens() {
    let tokens = scan("").unwrap();
    assert_eq!(tokens, Vec::new());
}

#[test]
fn number_then_word_do_not_merge() {
    let tokens = scan("2 cups").unwrap();
    assert_eq!(tokens, vec![num(2, 0), ident("cups")]);
}

#[test]
fn comma_separates_identifiers() {
    let tokens = scan("flour, egg").unwrap();
    assert_eq!(tokens, vec![ident("flour"), Token::Comma, ident("egg")]);
}
