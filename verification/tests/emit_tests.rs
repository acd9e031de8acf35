use koda::emit::convert_token;
use koda::lexer::Token;
use koda::transpile;

#[test]
fn call_with_string() {
    assert_eq!(transpile("skriv(\"hej\")"), "skriv ( \"hej\" )");
}

#[test]
fn keyword_inside_string_is_not_translated() {
    assert_eq!(transpile("skriv(\"funktion\")"), "skriv ( \"funktion\" )");
}

#[test]
fn local_assignment_and_call() {
    assert_eq!(
        transpile("lokal x = 2 + 3\nskriv(x)"),
        "local x = 2 + 3 skriv ( x )"
    );
}

#[test]
fn numeric_for_loop() {
    assert_eq!(
        transpile("för n = 1, 3 gör skriv(n) slut"),
        "for n = 1 , 3 do skriv ( n ) end"
    );
}

#[test]
fn lone_i_is_the_keyword_for_in() {
    // The Swedish keyword `i` translates to the host keyword `in`, so `i`
    // cannot be used as a variable name.
    assert_eq!(transpile("för k, v i par(t) gör slut"), "for k , v in par ( t ) do end");
}

#[test]
fn swedish_identifier_is_mangled() {
    assert_eq!(
        transpile("lokal å = 7\nskriv(å)"),
        "local __ao__ = 7 skriv ( __ao__ )"
    );
}

#[test]
fn identifier_spelling_a_host_keyword_is_escaped() {
    assert_eq!(transpile("local"), "__escaped_lua_keyword__local");
}

#[test]
fn swedish_text_inside_strings_is_kept_verbatim() {
    assert_eq!(transpile("skriv(\"hej då åäö\")"), "skriv ( \"hej då åäö\" )");
}

#[test]
fn empty_input_translates_to_empty_output() {
    assert_eq!(transpile(""), "");
    assert_eq!(transpile("   \n\t"), "");
}

#[test]
fn comments_translate_to_whitespace() {
    assert_eq!(transpile("-- bara en kommentar"), "");
    assert_eq!(transpile("--a\n--b"), " ");
}

#[test]
fn removing_a_comment_changes_at_most_whitespace() {
    let with_comment = transpile("skriv(1) -- kommentar");
    let without_comment = transpile("skriv(1)");
    assert_eq!(with_comment.replace(' ', ""), without_comment.replace(' ', ""));
}

#[test]
fn translation_is_deterministic() {
    let source = "lokal å = 7 -- öka\nskriv(å .. \"st\")";
    assert_eq!(transpile(source), transpile(source));
}

#[test]
fn token_conversion() {
    assert_eq!(convert_token(&Token::Function), "function");
    assert_eq!(convert_token(&Token::Nil), "nil");
    assert_eq!(convert_token(&Token::Then), "then");
    assert_eq!(convert_token(&Token::Comment), "");
    assert_eq!(convert_token(&Token::Error), "");
    assert_eq!(convert_token(&Token::NotEqual), "~=");
    assert_eq!(
        convert_token(&Token::Str("\"för\"".to_string())),
        "\"för\""
    );
    assert_eq!(
        convert_token(&Token::Ident("räknare".to_string())),
        "r__ae__knare"
    );
    assert_eq!(
        convert_token(&Token::Ident("for".to_string())),
        "__escaped_lua_keyword__for"
    );
    assert_eq!(convert_token(&Token::Number("1.5".to_string())), "1.5");
}
