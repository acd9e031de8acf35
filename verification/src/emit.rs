//! The token emitter: maps each token to its host-language lexeme and joins
//! the lexemes with single spaces, which the host grammar always tolerates.
//! String and number lexemes are kept verbatim, identifiers are mangled,
//! comments and error tokens vanish.
use vstd::prelude::*;
use vstd::string::StringExecFns;

use crate::lexer::Token;
use crate::lexer::TokenM;
use crate::lexer::keyword_token;
use crate::lexer::spec_lex;
use crate::lexer::token_views;
use crate::mangle::escape_keywords;
use crate::mangle::is_host_keyword;
use crate::mangle::mangle_ident;
use crate::mangle::replace_swe_chars;

verus! {

/// The host-language text of one token.
pub open spec fn spec_convert(t: TokenM) -> Seq<char> {
    match t {
        TokenM::And => "and"@,
        TokenM::Break => "break"@,
        TokenM::Do => "do"@,
        TokenM::Else => "else"@,
        TokenM::Elseif => "elseif"@,
        TokenM::End => "end"@,
        TokenM::False => "false"@,
        TokenM::For => "for"@,
        TokenM::Function => "function"@,
        TokenM::If => "if"@,
        TokenM::In => "in"@,
        TokenM::Local => "local"@,
        TokenM::Not => "not"@,
        TokenM::Or => "or"@,
        TokenM::Repeat => "repeat"@,
        TokenM::Return => "return"@,
        TokenM::True => "true"@,
        TokenM::Until => "until"@,
        TokenM::While => "while"@,
        TokenM::Then => "then"@,
        TokenM::Nil => "nil"@,
        TokenM::LeftParenthesis => "("@,
        TokenM::RightParenthesis => ")"@,
        TokenM::LeftCurly => "{"@,
        TokenM::RightCurly => "}"@,
        TokenM::LeftBracket => "["@,
        TokenM::RightBracket => "]"@,
        TokenM::Period => "."@,
        TokenM::Comma => ","@,
        TokenM::Colon => ":"@,
        TokenM::SemiColon => ";"@,
        TokenM::AssignmentOperator => "="@,
        TokenM::Concat => ".."@,
        TokenM::VarArgs => "..."@,
        TokenM::LengthOperator => "#"@,
        TokenM::Equal => "=="@,
        TokenM::NotEqual => "~="@,
        TokenM::GreaterThan => ">"@,
        TokenM::LessThan => "<"@,
        TokenM::GreaterOrEqual => ">="@,
        TokenM::LessOrEqual => "<="@,
        TokenM::Multiply => "*"@,
        TokenM::Divide => "/"@,
        TokenM::Modulus => "%"@,
        TokenM::Add => "+"@,
        TokenM::Subtract => "-"@,
        TokenM::Exponent => "^"@,
        TokenM::Comment => Seq::empty(),
        TokenM::Str(s) => s,
        TokenM::Ident(s) => mangle_ident(s),
        TokenM::Number(s) => s,
        TokenM::Error => Seq::empty(),
    }
}

/// The emitted text of a token sequence: each token's host text, with one
/// space between consecutive tokens.
pub open spec fn spec_emit(ts: Seq<TokenM>) -> Seq<char>
    decreases ts.len(),
{
    if ts.len() == 0 {
        Seq::empty()
    } else if ts.len() == 1 {
        spec_convert(ts[0])
    } else {
        spec_convert(ts[0]) + seq![' '] + spec_emit(ts.skip(1))
    }
}

/// The whole translation: lex the Swedish source, emit host source.
pub open spec fn spec_transpile(s: Seq<char>) -> Seq<char> {
    spec_emit(spec_lex(s))
}

/// Converts one token to its host-language lexeme.
pub fn convert_token(token: &Token) -> (r: String)
    ensures
        r@ == spec_convert(token@),
{
    match token {
        Token::And => String::from_str("and"),
        Token::Break => String::from_str("break"),
        Token::Do => String::from_str("do"),
        Token::Else => String::from_str("else"),
        Token::Elseif => String::from_str("elseif"),
        Token::End => String::from_str("end"),
        Token::False => String::from_str("false"),
        Token::For => String::from_str("for"),
        Token::Function => String::from_str("function"),
        Token::If => String::from_str("if"),
        Token::In => String::from_str("in"),
        Token::Local => String::from_str("local"),
        Token::Not => String::from_str("not"),
        Token::Or => String::from_str("or"),
        Token::Repeat => String::from_str("repeat"),
        Token::Return => String::from_str("return"),
        Token::True => String::from_str("true"),
        Token::Until => String::from_str("until"),
        Token::While => String::from_str("while"),
        Token::Then => String::from_str("then"),
        Token::Nil => String::from_str("nil"),
        Token::LeftParenthesis => String::from_str("("),
        Token::RightParenthesis => String::from_str(")"),
        Token::LeftCurly => String::from_str("{"),
        Token::RightCurly => String::from_str("}"),
        Token::LeftBracket => String::from_str("["),
        Token::RightBracket => String::from_str("]"),
        Token::Period => String::from_str("."),
        Token::Comma => String::from_str(","),
        Token::Colon => String::from_str(":"),
        Token::SemiColon => String::from_str(";"),
        Token::AssignmentOperator => String::from_str("="),
        Token::Concat => String::from_str(".."),
        Token::VarArgs => String::from_str("..."),
        Token::LengthOperator => String::from_str("#"),
        Token::Equal => String::from_str("=="),
        Token::NotEqual => String::from_str("~="),
        Token::GreaterThan => String::from_str(">"),
        Token::LessThan => String::from_str("<"),
        Token::GreaterOrEqual => String::from_str(">="),
        Token::LessOrEqual => String::from_str("<="),
        Token::Multiply => String::from_str("*"),
        Token::Divide => String::from_str("/"),
        Token::Modulus => String::from_str("%"),
        Token::Add => String::from_str("+"),
        Token::Subtract => String::from_str("-"),
        Token::Exponent => String::from_str("^"),
        Token::Comment => String::new(),
        Token::Str(value) => value.clone(),
        Token::Ident(value) => escape_keywords(replace_swe_chars(value.as_str()).as_str()),
        Token::Number(value) => value.clone(),
        Token::Error => String::new(),
    }
}

fn emit_from(tokens: &Vec<Token>, i: usize) -> (r: String)
    requires
        i <= tokens.len(),
    ensures
        r@ == spec_emit(token_views(tokens@).skip(i as int)),
    decreases tokens.len() - i,
{
    let ghost ms = token_views(tokens@);
    if i >= tokens.len() {
        proof {
            assert(ms.skip(i as int) =~= Seq::<TokenM>::empty());
        }
        String::new()
    } else if i == tokens.len() - 1 {
        let r = convert_token(&tokens[i]);
        proof {
            assert(ms.skip(i as int).len() == 1);
            assert(ms.skip(i as int)[0] == ms[i as int]);
        }
        r
    } else {
        let mut r = convert_token(&tokens[i]);
        let ghost r0 = r@;
        r.push(' ');
        let rest = emit_from(tokens, i + 1);
        r.append(rest.as_str());
        proof {
            assert(ms.skip(i as int).len() >= 2);
            assert(ms.skip(i as int)[0] == ms[i as int]);
            assert(ms.skip(i as int).skip(1) =~= ms.skip(i as int + 1));
            assert(r0.push(' ') + rest@ =~= spec_convert(ms[i as int]) + seq![' '] + spec_emit(
                ms.skip(i as int + 1),
            ));
        }
        r
    }
}

/// Emits the host-language text of a token sequence.
pub fn emit_tokens(tokens: &Vec<Token>) -> (r: String)
    ensures
        r@ == spec_emit(token_views(tokens@)),
{
    let r = emit_from(tokens, 0);
    proof {
        assert(token_views(tokens@).skip(0) =~= token_views(tokens@));
    }
    r
}

/// Whether a token is one of the Swedish keyword tokens.
pub open spec fn is_keyword_token(t: TokenM) -> bool {
    match t {
        TokenM::And => true,
        TokenM::Break => true,
        TokenM::Do => true,
        TokenM::Else => true,
        TokenM::Elseif => true,
        TokenM::End => true,
        TokenM::False => true,
        TokenM::For => true,
        TokenM::Function => true,
        TokenM::If => true,
        TokenM::In => true,
        TokenM::Local => true,
        TokenM::Not => true,
        TokenM::Or => true,
        TokenM::Repeat => true,
        TokenM::Return => true,
        TokenM::True => true,
        TokenM::Until => true,
        TokenM::While => true,
        TokenM::Then => true,
        TokenM::Nil => true,
        _ => false,
    }
}

/// The keyword table maps into the host keyword set: a Swedish keyword's
/// emitted text is always a reserved host keyword.
pub proof fn lemma_keyword_maps_to_host(w: Seq<char>, t: TokenM)
    requires
        keyword_token(w) == Some(t),
    ensures
        is_keyword_token(t),
        is_host_keyword(spec_convert(t)),
{
}

/// The keyword table is onto the host keyword set: every reserved host
/// keyword is the image of some Swedish keyword.
pub proof fn lemma_keyword_table_onto(h: Seq<char>)
    requires
        is_host_keyword(h),
    ensures
        exists|w: Seq<char>, t: TokenM| keyword_token(w) == Some(t) && spec_convert(t) == h,
{
    reveal_strlit("och");
    reveal_strlit("bryt");
    reveal_strlit("gör");
    reveal_strlit("annars");
    reveal_strlit("annarsom");
    reveal_strlit("slut");
    reveal_strlit("falskt");
    reveal_strlit("för");
    reveal_strlit("funktion");
    reveal_strlit("om");
    reveal_strlit("i");
    reveal_strlit("lokal");
    reveal_strlit("inte");
    reveal_strlit("eller");
    reveal_strlit("upprepa");
    reveal_strlit("ge");
    reveal_strlit("sant");
    reveal_strlit("tills");
    reveal_strlit("medan");
    reveal_strlit("utför");
    reveal_strlit("ingenting");
    assert("och"@.len() == 3 && "och"@[0] == 'o');
    assert("bryt"@.len() == 4 && "bryt"@[0] == 'b');
    assert("gör"@.len() == 3 && "gör"@[0] == 'g');
    assert("annars"@.len() == 6 && "annars"@[0] == 'a');
    assert("annarsom"@.len() == 8 && "annarsom"@[0] == 'a');
    assert("slut"@.len() == 4 && "slut"@[0] == 's' && "slut"@[1] == 'l');
    assert("falskt"@.len() == 6 && "falskt"@[0] == 'f');
    assert("för"@.len() == 3 && "för"@[0] == 'f');
    assert("funktion"@.len() == 8 && "funktion"@[0] == 'f');
    assert("om"@.len() == 2 && "om"@[0] == 'o');
    assert("i"@.len() == 1 && "i"@[0] == 'i');
    assert("lokal"@.len() == 5 && "lokal"@[0] == 'l');
    assert("inte"@.len() == 4 && "inte"@[0] == 'i');
    assert("eller"@.len() == 5 && "eller"@[0] == 'e');
    assert("upprepa"@.len() == 7 && "upprepa"@[0] == 'u');
    assert("ge"@.len() == 2 && "ge"@[0] == 'g');
    assert("sant"@.len() == 4 && "sant"@[0] == 's' && "sant"@[1] == 'a');
    assert("tills"@.len() == 5 && "tills"@[0] == 't');
    assert("medan"@.len() == 5 && "medan"@[0] == 'm');
    assert("utför"@.len() == 5 && "utför"@[0] == 'u' && "utför"@[1] == 't');
    assert("upprepa"@[1] == 'p');
    assert("ingenting"@.len() == 9 && "ingenting"@[0] == 'i');
    if h == "and"@ {
        assert(keyword_token("och"@) == Some(TokenM::And) && spec_convert(TokenM::And) == h);
        assert(exists|w: Seq<char>, t: TokenM| keyword_token(w) == Some(t) && spec_convert(t) == h);
    } else if h == "break"@ {
        assert(keyword_token("bryt"@) == Some(TokenM::Break) && spec_convert(TokenM::Break) == h);
        assert(exists|w: Seq<char>, t: TokenM| keyword_token(w) == Some(t) && spec_convert(t) == h);
    } else if h == "do"@ {
        assert(keyword_token("gör"@) == Some(TokenM::Do) && spec_convert(TokenM::Do) == h);
        assert(exists|w: Seq<char>, t: TokenM| keyword_token(w) == Some(t) && spec_convert(t) == h);
    } else if h == "else"@ {
        assert(keyword_token("annars"@) == Some(TokenM::Else) && spec_convert(TokenM::Else) == h);
        assert(exists|w: Seq<char>, t: TokenM| keyword_token(w) == Some(t) && spec_convert(t) == h);
    } else if h == "elseif"@ {
        assert(keyword_token("annarsom"@) == Some(TokenM::Elseif) && spec_convert(TokenM::Elseif) == h);
        assert(exists|w: Seq<char>, t: TokenM| keyword_token(w) == Some(t) && spec_convert(t) == h);
    } else if h == "end"@ {
        assert(keyword_token("slut"@) == Some(TokenM::End) && spec_convert(TokenM::End) == h);
        assert(exists|w: Seq<char>, t: TokenM| keyword_token(w) == Some(t) && spec_convert(t) == h);
    } else if h == "false"@ {
        assert(keyword_token("falskt"@) == Some(TokenM::False) && spec_convert(TokenM::False) == h);
        assert(exists|w: Seq<char>, t: TokenM| keyword_token(w) == Some(t) && spec_convert(t) == h);
    } else if h == "for"@ {
        assert(keyword_token("för"@) == Some(TokenM::For) && spec_convert(TokenM::For) == h);
        assert(exists|w: Seq<char>, t: TokenM| keyword_token(w) == Some(t) && spec_convert(t) == h);
    } else if h == "function"@ {
        assert(keyword_token("funktion"@) == Some(TokenM::Function) && spec_convert(TokenM::Function) == h);
        assert(exists|w: Seq<char>, t: TokenM| keyword_token(w) == Some(t) && spec_convert(t) == h);
    } else if h == "if"@ {
        assert(keyword_token("om"@) == Some(TokenM::If) && spec_convert(TokenM::If) == h);
        assert(exists|w: Seq<char>, t: TokenM| keyword_token(w) == Some(t) && spec_convert(t) == h);
    } else if h == "in"@ {
        assert(keyword_token("i"@) == Some(TokenM::In) && spec_convert(TokenM::In) == h);
        assert(exists|w: Seq<char>, t: TokenM| keyword_token(w) == Some(t) && spec_convert(t) == h);
    } else if h == "local"@ {
        assert(keyword_token("lokal"@) == Some(TokenM::Local) && spec_convert(TokenM::Local) == h);
        assert(exists|w: Seq<char>, t: TokenM| keyword_token(w) == Some(t) && spec_convert(t) == h);
    } else if h == "nil"@ {
        assert(keyword_token("ingenting"@) == Some(TokenM::Nil) && spec_convert(TokenM::Nil) == h);
        assert(exists|w: Seq<char>, t: TokenM| keyword_token(w) == Some(t) && spec_convert(t) == h);
    } else if h == "not"@ {
        assert(keyword_token("inte"@) == Some(TokenM::Not) && spec_convert(TokenM::Not) == h);
        assert(exists|w: Seq<char>, t: TokenM| keyword_token(w) == Some(t) && spec_convert(t) == h);
    } else if h == "or"@ {
        assert(keyword_token("eller"@) == Some(TokenM::Or) && spec_convert(TokenM::Or) == h);
        assert(exists|w: Seq<char>, t: TokenM| keyword_token(w) == Some(t) && spec_convert(t) == h);
    } else if h == "repeat"@ {
        assert(keyword_token("upprepa"@) == Some(TokenM::Repeat) && spec_convert(TokenM::Repeat) == h);
        assert(exists|w: Seq<char>, t: TokenM| keyword_token(w) == Some(t) && spec_convert(t) == h);
    } else if h == "return"@ {
        assert(keyword_token("ge"@) == Some(TokenM::Return) && spec_convert(TokenM::Return) == h);
        assert(exists|w: Seq<char>, t: TokenM| keyword_token(w) == Some(t) && spec_convert(t) == h);
    } else if h == "then"@ {
        assert(keyword_token("utför"@) == Some(TokenM::Then) && spec_convert(TokenM::Then) == h);
        assert(exists|w: Seq<char>, t: TokenM| keyword_token(w) == Some(t) && spec_convert(t) == h);
    } else if h == "true"@ {
        assert(keyword_token("sant"@) == Some(TokenM::True) && spec_convert(TokenM::True) == h);
        assert(exists|w: Seq<char>, t: TokenM| keyword_token(w) == Some(t) && spec_convert(t) == h);
    } else if h == "until"@ {
        assert(keyword_token("tills"@) == Some(TokenM::Until) && spec_convert(TokenM::Until) == h);
        assert(exists|w: Seq<char>, t: TokenM| keyword_token(w) == Some(t) && spec_convert(t) == h);
    } else {
        assert(h == "while"@);
        assert(keyword_token("medan"@) == Some(TokenM::While) && spec_convert(TokenM::While) == h);
        assert(exists|w: Seq<char>, t: TokenM| keyword_token(w) == Some(t) && spec_convert(t) == h);
    }
}

/// The keyword table is injective: distinct keyword tokens emit distinct host
/// keywords.  Together with the two lemmas above, the table is a bijection
/// between the Swedish keywords and the reserved host keywords.
#[verifier::rlimit(100)]
pub proof fn lemma_keyword_table_injective(t1: TokenM, t2: TokenM)
    requires
        is_keyword_token(t1),
        is_keyword_token(t2),
        spec_convert(t1) == spec_convert(t2),
    ensures
        t1 == t2,
{
    reveal_strlit("and");
    reveal_strlit("break");
    reveal_strlit("do");
    reveal_strlit("else");
    reveal_strlit("elseif");
    reveal_strlit("end");
    reveal_strlit("false");
    reveal_strlit("for");
    reveal_strlit("function");
    reveal_strlit("if");
    reveal_strlit("in");
    reveal_strlit("local");
    reveal_strlit("nil");
    reveal_strlit("not");
    reveal_strlit("or");
    reveal_strlit("repeat");
    reveal_strlit("return");
    reveal_strlit("then");
    reveal_strlit("true");
    reveal_strlit("until");
    reveal_strlit("while");
    assert("and"@.len() == 3 && "and"@[0] == 'a');
    assert("break"@.len() == 5 && "break"@[0] == 'b');
    assert("do"@.len() == 2 && "do"@[0] == 'd');
    assert("else"@.len() == 4 && "else"@[0] == 'e');
    assert("elseif"@.len() == 6 && "elseif"@[0] == 'e');
    assert("end"@.len() == 3 && "end"@[0] == 'e');
    assert("false"@.len() == 5 && "false"@[0] == 'f');
    assert("for"@.len() == 3 && "for"@[0] == 'f');
    assert("function"@.len() == 8 && "function"@[0] == 'f');
    assert("if"@.len() == 2 && "if"@[0] == 'i' && "if"@[1] == 'f');
    assert("in"@.len() == 2 && "in"@[0] == 'i' && "in"@[1] == 'n');
    assert("local"@.len() == 5 && "local"@[0] == 'l');
    assert("nil"@.len() == 3 && "nil"@[0] == 'n' && "nil"@[1] == 'i');
    assert("not"@.len() == 3 && "not"@[0] == 'n' && "not"@[1] == 'o');
    assert("or"@.len() == 2 && "or"@[0] == 'o');
    assert("repeat"@.len() == 6 && "repeat"@[0] == 'r' && "repeat"@[2] == 'p');
    assert("return"@.len() == 6 && "return"@[0] == 'r' && "return"@[2] == 't');
    assert("then"@.len() == 4 && "then"@[0] == 't' && "then"@[1] == 'h');
    assert("true"@.len() == 4 && "true"@[0] == 't' && "true"@[1] == 'r');
    assert("until"@.len() == 5 && "until"@[0] == 'u');
    assert("while"@.len() == 5 && "while"@[0] == 'w');
}

/// String transparency: the emitted text contains every string token's
/// lexeme verbatim, quotes and escapes included.
pub proof fn lemma_string_transparency(ts: Seq<TokenM>, k: int, s: Seq<char>)
    requires
        0 <= k < ts.len(),
        ts[k] == TokenM::Str(s),
    ensures
        exists|a: Seq<char>, b: Seq<char>| spec_emit(ts) == a + s + b,
    decreases ts.len(),
{
    if k == 0 {
        if ts.len() == 1 {
            let a = Seq::<char>::empty();
            let b = Seq::<char>::empty();
            assert(spec_emit(ts) == a + s + b) by {
                assert(a + s + b =~= s);
            }
        } else {
            let a = Seq::<char>::empty();
            let b = seq![' '] + spec_emit(ts.skip(1));
            assert(spec_emit(ts) == a + s + b) by {
                assert(s + seq![' '] + spec_emit(ts.skip(1)) =~= a + s + b);
            }
        }
    } else {
        lemma_string_transparency(ts.skip(1), k - 1, s);
        let (a2, b2) = choose|a2: Seq<char>, b2: Seq<char>|
            spec_emit(ts.skip(1)) == a2 + s + b2;
        let a = spec_convert(ts[0]) + seq![' '] + a2;
        assert(spec_emit(ts) == a + s + b2) by {
            assert(spec_convert(ts[0]) + seq![' '] + (a2 + s + b2) =~= a + s + b2);
        }
    }
}

proof fn lemma_insert_concat(a: Seq<char>, b: Seq<char>, j: int, c: char)
    requires
        0 <= j <= b.len(),
    ensures
        a + b.insert(j, c) == (a + b).insert(a.len() + j, c),
{
    assert(a + b.insert(j, c) =~= (a + b).insert(a.len() + j, c));
}

/// Comment irrelevance: dropping a comment token changes the emitted text by
/// at most one space character; a lone comment emits nothing at all.  A
/// comment token carries no text, so altering a comment leaves the token
/// stream — and with it the emitted text — unchanged.
pub proof fn lemma_comment_irrelevance(ts: Seq<TokenM>, k: int)
    requires
        0 <= k < ts.len(),
        ts[k] is Comment,
    ensures
        ts.len() == 1 ==> spec_emit(ts.remove(k)) == spec_emit(ts),
        ts.len() >= 2 ==> exists|j: int|
            0 <= j <= spec_emit(ts.remove(k)).len() && spec_emit(ts) == #[trigger] spec_emit(
                ts.remove(k),
            ).insert(j, ' '),
    decreases ts.len(),
{
    if ts.len() == 1 {
        assert(spec_emit(ts) =~= Seq::<char>::empty());
        assert(ts.remove(0) =~= Seq::<TokenM>::empty());
    } else if k == 0 {
        assert(ts.remove(0) =~= ts.skip(1));
        let j = 0int;
        assert(spec_emit(ts) == spec_emit(ts.remove(k)).insert(j, ' ')) by {
            assert(spec_convert(ts[0]) + seq![' '] + spec_emit(ts.skip(1)) =~= spec_emit(
                ts.skip(1),
            ).insert(0, ' '));
        }
    } else if ts.len() == 2 {
        assert(ts.remove(1) =~= seq![ts[0]]);
        assert(ts.skip(1) =~= seq![ts[1]]);
        assert(spec_emit(ts.skip(1)) =~= Seq::<char>::empty());
        let e0 = spec_convert(ts[0]);
        let j = e0.len() as int;
        assert(spec_emit(ts.remove(1)) == e0);
        assert(spec_emit(ts) == spec_emit(ts.remove(k)).insert(j, ' ')) by {
            assert(e0 + seq![' '] + Seq::<char>::empty() =~= e0.insert(e0.len() as int, ' '));
        }
    } else {
        lemma_comment_irrelevance(ts.skip(1), k - 1);
        let j2 = choose|j2: int|
            0 <= j2 <= spec_emit(ts.skip(1).remove(k - 1)).len() && spec_emit(ts.skip(1))
                == #[trigger] spec_emit(ts.skip(1).remove(k - 1)).insert(j2, ' ');
        let head = spec_convert(ts[0]) + seq![' '];
        let tail_removed = spec_emit(ts.skip(1).remove(k - 1));
        assert(ts.remove(k).skip(1) =~= ts.skip(1).remove(k - 1));
        assert(ts.remove(k).len() >= 2);
        assert(ts.remove(k)[0] == ts[0]);
        assert(spec_emit(ts.remove(k)) == head + tail_removed) by {
            assert(spec_convert(ts[0]) + seq![' '] + tail_removed =~= head + tail_removed);
        }
        lemma_insert_concat(head, tail_removed, j2, ' ');
        let j = head.len() + j2;
        assert(spec_emit(ts) == spec_emit(ts.remove(k)).insert(j, ' ')) by {
            assert(spec_convert(ts[0]) + seq![' '] + tail_removed.insert(j2, ' ') =~= head
                + tail_removed.insert(j2, ' '));
        }
    }
}

/// A token stream of comments only emits whitespace only.
pub proof fn lemma_comments_emit_whitespace(ts: Seq<TokenM>)
    requires
        forall|i: int| 0 <= i < ts.len() ==> ts[i] is Comment,
    ensures
        forall|i: int|
            0 <= i < spec_emit(ts).len() ==> #[trigger] spec_emit(ts)[i] == ' ',
    decreases ts.len(),
{
    if ts.len() <= 1 {
    } else {
        lemma_comments_emit_whitespace(ts.skip(1));
        assert(spec_emit(ts) == spec_convert(ts[0]) + seq![' '] + spec_emit(ts.skip(1)));
        assert(spec_convert(ts[0]) == Seq::<char>::empty());
        assert forall|i: int| 0 <= i < spec_emit(ts).len() implies #[trigger] spec_emit(ts)[i]
            == ' ' by {
            if i >= 1 {
                assert(spec_emit(ts)[i] == spec_emit(ts.skip(1))[i - 1]);
            }
        }
    }
}

/// Empty input translates to empty output.
pub proof fn lemma_empty_translation()
    ensures
        spec_transpile(Seq::<char>::empty()) == Seq::<char>::empty(),
{
    assert(spec_lex(Seq::<char>::empty()) == Seq::<TokenM>::empty());
}

/// Whitespace-only input translates to empty output.
pub proof fn lemma_whitespace_translation(s: Seq<char>)
    requires
        forall|i: int|
            0 <= i < s.len() ==> crate::chars::is_space_char(#[trigger] s[i]),
    ensures
        spec_transpile(s) == Seq::<char>::empty(),
{
    crate::lexer::lemma_lex_whitespace_only(s);
}

} // verus!
