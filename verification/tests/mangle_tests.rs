use koda::mangle::{escape_keywords, replace_swe_chars, show_escaped_idents};

fn mangle(x: &str) -> String {
    escape_keywords(&replace_swe_chars(x))
}

#[test]
fn swedish_letters_become_markers() {
    assert_eq!(replace_swe_chars("räknare"), "r__ae__knare");
    assert_eq!(replace_swe_chars("åäöÅÄÖ"), "__ao____ae____oe____AO____AE____OE__");
    assert_eq!(replace_swe_chars("enkel"), "enkel");
}

#[test]
fn host_keywords_are_escaped() {
    assert_eq!(escape_keywords("for"), "__escaped_lua_keyword__for");
    assert_eq!(escape_keywords("local"), "__escaped_lua_keyword__local");
    assert_eq!(escape_keywords("skriv"), "skriv");
}

#[test]
fn demangling_restores_swedish_letters() {
    assert_eq!(show_escaped_idents("r__ae__knare"), "räknare");
    assert_eq!(show_escaped_idents("__AO__ngbr__ao__t"), "Ångbråt");
}

#[test]
fn demangling_strips_the_sentinel() {
    assert_eq!(show_escaped_idents("__escaped_lua_keyword__for"), "for");
}

#[test]
fn demangling_leaves_plain_text_alone() {
    assert_eq!(
        show_escaped_idents("attempt to call a nil value"),
        "attempt to call a nil value"
    );
}

#[test]
fn mangle_roundtrip_on_identifiers() {
    for x in [
        "räknare",
        "följa",
        "Ärlig_1",
        "for",
        "x",
        "_privat",
        "stor_Å",
        "a1b",
    ] {
        assert_eq!(show_escaped_idents(&mangle(x)), x);
    }
}

#[test]
fn mangled_identifier_is_never_a_host_keyword() {
    let host_keywords = [
        "and", "break", "do", "else", "elseif", "end", "false", "for", "function", "if", "in",
        "local", "nil", "not", "or", "repeat", "return", "then", "true", "until", "while",
    ];
    for x in ["for", "do", "räknare", "x", "end", "sant_inte"] {
        let m = mangle(x);
        assert!(!host_keywords.contains(&m.as_str()));
    }
}
