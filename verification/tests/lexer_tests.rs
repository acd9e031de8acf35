use koda::lexer::{lex, Token};

#[test]
fn keyword_prefix_is_identifier() {
    // `funkar` shares a prefix with the keyword `funktion` but is one identifier.
    assert_eq!(lex("funkar"), vec![Token::Ident("funkar".to_string())]);
}

#[test]
fn keywords_lex_as_keywords() {
    assert_eq!(lex("funktion"), vec![Token::Function]);
    assert_eq!(lex("och"), vec![Token::And]);
    assert_eq!(lex("gör"), vec![Token::Do]);
    assert_eq!(lex("för"), vec![Token::For]);
    assert_eq!(lex("ingenting"), vec![Token::Nil]);
    assert_eq!(lex("utför"), vec![Token::Then]);
}

#[test]
fn lone_i_is_a_keyword() {
    // `i` is the Swedish keyword for the host keyword `in`, so it cannot
    // serve as a variable name.
    assert_eq!(lex("i"), vec![Token::In]);
}

#[test]
fn keyword_extended_by_digits_is_identifier() {
    assert_eq!(lex("för1"), vec![Token::Ident("för1".to_string())]);
}

#[test]
fn keyword_after_period_stays_keyword() {
    // Documented ambiguity: the lexer is context-free, so a keyword spelling
    // after a field selector is still the keyword token.
    assert_eq!(
        lex("t.slut"),
        vec![
            Token::Ident("t".to_string()),
            Token::Period,
            Token::End,
        ]
    );
}

#[test]
fn empty_input_gives_no_tokens() {
    assert_eq!(lex(""), Vec::<Token>::new());
    assert_eq!(lex("   \t\n"), Vec::<Token>::new());
}

#[test]
fn comments_are_tokens() {
    assert_eq!(lex("-- hej"), vec![Token::Comment]);
    assert_eq!(lex("--[[a\nb]]"), vec![Token::Comment]);
    assert_eq!(
        lex("--a\n--b"),
        vec![Token::Comment, Token::Comment]
    );
}

#[test]
fn unterminated_long_comment_falls_back_to_line_comment() {
    assert_eq!(
        lex("--[[abc\nkvar"),
        vec![Token::Comment, Token::Ident("kvar".to_string())]
    );
}

#[test]
fn long_comment_on_one_line_takes_whole_line() {
    // The line match is the longer one when the long form does not span lines.
    assert_eq!(lex("--[[a]] x"), vec![Token::Comment]);
}

#[test]
fn numbers() {
    assert_eq!(lex("1"), vec![Token::Number("1".to_string())]);
    assert_eq!(lex("1.5"), vec![Token::Number("1.5".to_string())]);
    assert_eq!(lex("1."), vec![Token::Number("1.".to_string())]);
    // a leading point is not a number
    assert_eq!(
        lex(".5"),
        vec![Token::Period, Token::Number("5".to_string())]
    );
}

#[test]
fn strings_keep_quotes_and_escapes() {
    assert_eq!(lex("\"hej\""), vec![Token::Str("\"hej\"".to_string())]);
    assert_eq!(lex("'hej'"), vec![Token::Str("'hej'".to_string())]);
    assert_eq!(
        lex("\"a\\\"b\""),
        vec![Token::Str("\"a\\\"b\"".to_string())]
    );
}

#[test]
fn unterminated_string_is_an_error_token() {
    assert_eq!(
        lex("\"abc"),
        vec![Token::Error, Token::Ident("abc".to_string())]
    );
}

#[test]
fn subtraction_splits_identifiers() {
    assert_eq!(
        lex("a-b"),
        vec![
            Token::Ident("a".to_string()),
            Token::Subtract,
            Token::Ident("b".to_string()),
        ]
    );
}

#[test]
fn operators() {
    assert_eq!(lex("~="), vec![Token::NotEqual]);
    assert_eq!(lex("~"), vec![Token::Error]);
    assert_eq!(lex("=="), vec![Token::Equal]);
    assert_eq!(lex("="), vec![Token::AssignmentOperator]);
    assert_eq!(lex("..."), vec![Token::VarArgs]);
    assert_eq!(lex(".."), vec![Token::Concat]);
    assert_eq!(lex(">="), vec![Token::GreaterOrEqual]);
    assert_eq!(lex("<="), vec![Token::LessOrEqual]);
    assert_eq!(lex("#"), vec![Token::LengthOperator]);
}

#[test]
fn a_small_program() {
    assert_eq!(
        lex("lokal x = 2 + 3\nskriv(x)"),
        vec![
            Token::Local,
            Token::Ident("x".to_string()),
            Token::AssignmentOperator,
            Token::Number("2".to_string()),
            Token::Add,
            Token::Number("3".to_string()),
            Token::Ident("skriv".to_string()),
            Token::LeftParenthesis,
            Token::Ident("x".to_string()),
            Token::RightParenthesis,
        ]
    );
}
