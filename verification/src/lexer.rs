//! Lexical analysis of the Swedish surface syntax.
//!
//! The lexer is a maximal-munch scanner: at every position the longest match
//! wins, and a complete identifier-shaped word that spells a Swedish keyword
//! is the keyword.  Comments are kept as tokens, whitespace is skipped, and
//! an unrecognised character becomes an error token, so lexing never fails.
//!
//! Identifiers follow the host language's rule: letters, digits and
//! underscores only.  A hyphen is always the subtraction operator, so `a-b`
//! is three tokens.
use vstd::prelude::*;

use crate::chars::chars_eq_str;
use crate::chars::chars_to_string;
use crate::chars::copy_range;
use crate::chars::is_digit_char;
use crate::chars::is_ident_letter;
use crate::chars::is_space_char;
use crate::chars::str_to_chars;

verus! {

/// One token of the Swedish surface syntax.  String, identifier and number
/// tokens keep their original lexeme text.
#[derive(Debug, PartialEq)]
pub enum Token {
    And,
    Break,
    Do,
    Else,
    Elseif,
    End,
    False,
    For,
    Function,
    If,
    In,
    Local,
    Not,
    Or,
    Repeat,
    Return,
    True,
    Until,
    While,
    Then,
    Nil,
    LeftParenthesis,
    RightParenthesis,
    LeftCurly,
    RightCurly,
    LeftBracket,
    RightBracket,
    Period,
    Comma,
    Colon,
    SemiColon,
    AssignmentOperator,
    Concat,
    VarArgs,
    LengthOperator,
    Equal,
    NotEqual,
    GreaterThan,
    LessThan,
    GreaterOrEqual,
    LessOrEqual,
    Multiply,
    Divide,
    Modulus,
    Add,
    Subtract,
    Exponent,
    Comment,
    Str(String),
    Ident(String),
    Number(String),
    Error,
}

/// The mathematical model of a token: the same shape, with lexeme text as a
/// sequence of characters.
pub enum TokenM {
    And,
    Break,
    Do,
    Else,
    Elseif,
    End,
    False,
    For,
    Function,
    If,
    In,
    Local,
    Not,
    Or,
    Repeat,
    Return,
    True,
    Until,
    While,
    Then,
    Nil,
    LeftParenthesis,
    RightParenthesis,
    LeftCurly,
    RightCurly,
    LeftBracket,
    RightBracket,
    Period,
    Comma,
    Colon,
    SemiColon,
    AssignmentOperator,
    Concat,
    VarArgs,
    LengthOperator,
    Equal,
    NotEqual,
    GreaterThan,
    LessThan,
    GreaterOrEqual,
    LessOrEqual,
    Multiply,
    Divide,
    Modulus,
    Add,
    Subtract,
    Exponent,
    Comment,
    Str(Seq<char>),
    Ident(Seq<char>),
    Number(Seq<char>),
    Error,
}

impl View for Token {
    type V = TokenM;

    open spec fn view(&self) -> TokenM {
        match self {
            Token::And => TokenM::And,
            Token::Break => TokenM::Break,
            Token::Do => TokenM::Do,
            Token::Else => TokenM::Else,
            Token::Elseif => TokenM::Elseif,
            Token::End => TokenM::End,
            Token::False => TokenM::False,
            Token::For => TokenM::For,
            Token::Function => TokenM::Function,
            Token::If => TokenM::If,
            Token::In => TokenM::In,
            Token::Local => TokenM::Local,
            Token::Not => TokenM::Not,
            Token::Or => TokenM::Or,
            Token::Repeat => TokenM::Repeat,
            Token::Return => TokenM::Return,
            Token::True => TokenM::True,
            Token::Until => TokenM::Until,
            Token::While => TokenM::While,
            Token::Then => TokenM::Then,
            Token::Nil => TokenM::Nil,
            Token::LeftParenthesis => TokenM::LeftParenthesis,
            Token::RightParenthesis => TokenM::RightParenthesis,
            Token::LeftCurly => TokenM::LeftCurly,
            Token::RightCurly => TokenM::RightCurly,
            Token::LeftBracket => TokenM::LeftBracket,
            Token::RightBracket => TokenM::RightBracket,
            Token::Period => TokenM::Period,
            Token::Comma => TokenM::Comma,
            Token::Colon => TokenM::Colon,
            Token::SemiColon => TokenM::SemiColon,
            Token::AssignmentOperator => TokenM::AssignmentOperator,
            Token::Concat => TokenM::Concat,
            Token::VarArgs => TokenM::VarArgs,
            Token::LengthOperator => TokenM::LengthOperator,
            Token::Equal => TokenM::Equal,
            Token::NotEqual => TokenM::NotEqual,
            Token::GreaterThan => TokenM::GreaterThan,
            Token::LessThan => TokenM::LessThan,
            Token::GreaterOrEqual => TokenM::GreaterOrEqual,
            Token::LessOrEqual => TokenM::LessOrEqual,
            Token::Multiply => TokenM::Multiply,
            Token::Divide => TokenM::Divide,
            Token::Modulus => TokenM::Modulus,
            Token::Add => TokenM::Add,
            Token::Subtract => TokenM::Subtract,
            Token::Exponent => TokenM::Exponent,
            Token::Comment => TokenM::Comment,
            Token::Str(s) => TokenM::Str(s@),
            Token::Ident(s) => TokenM::Ident(s@),
            Token::Number(s) => TokenM::Number(s@),
            Token::Error => TokenM::Error,
        }
    }
}

/// The models of a sequence of tokens.
pub open spec fn token_views(ts: Seq<Token>) -> Seq<TokenM> {
    ts.map_values(|t: Token| t@)
}

/// Length of the run of identifier letters (letters and underscores)
/// starting at position `i`.
pub open spec fn ident_run(s: Seq<char>, i: int) -> nat
    decreases s.len() - i,
{
    if 0 <= i < s.len() && is_ident_letter(s[i]) {
        (1 + ident_run(s, i + 1)) as nat
    } else {
        0
    }
}

/// Length of the run of decimal digits starting at position `i`.
pub open spec fn digit_run(s: Seq<char>, i: int) -> nat
    decreases s.len() - i,
{
    if 0 <= i < s.len() && is_digit_char(s[i]) {
        (1 + digit_run(s, i + 1)) as nat
    } else {
        0
    }
}

/// Length of the run of whitespace characters starting at position `i`.
pub open spec fn space_run(s: Seq<char>, i: int) -> nat
    decreases s.len() - i,
{
    if 0 <= i < s.len() && is_space_char(s[i]) {
        (1 + space_run(s, i + 1)) as nat
    } else {
        0
    }
}

/// Length of the run of characters other than a line feed starting at `i`.
pub open spec fn line_run(s: Seq<char>, i: int) -> nat
    decreases s.len() - i,
{
    if 0 <= i < s.len() && s[i] != '\n' {
        (1 + line_run(s, i + 1)) as nat
    } else {
        0
    }
}

/// Length of the run of characters other than a closing bracket at `i`.
pub open spec fn bracket_run(s: Seq<char>, i: int) -> nat
    decreases s.len() - i,
{
    if 0 <= i < s.len() && s[i] != ']' {
        (1 + bracket_run(s, i + 1)) as nat
    } else {
        0
    }
}

/// The length of the longest identifier match at position `i`: a run of
/// letters, optionally followed by a run of digits and another run of
/// letters.
pub open spec fn ident_len(s: Seq<char>, i: int) -> nat {
    let a = ident_run(s, i);
    if a == 0 {
        0
    } else {
        let b = digit_run(s, i + a);
        if b == 0 {
            a
        } else {
            (a + b + ident_run(s, i + a + b)) as nat
        }
    }
}

/// The length of the longest number match at position `i`: digits, optionally
/// followed by a decimal point and more digits.  A leading point is not a
/// number.
pub open spec fn number_len(s: Seq<char>, i: int) -> nat {
    let a = digit_run(s, i);
    if a == 0 {
        0
    } else if i + a < s.len() && s[i + a] == '.' {
        (a + 1 + digit_run(s, i + a + 1)) as nat
    } else {
        a
    }
}

/// The position just after the closing quote of a string literal whose body
/// starts at `j`, if the literal is terminated.  A backslash escapes any
/// character; an unescaped line feed ends the literal unterminated.
pub open spec fn string_end(s: Seq<char>, j: int, q: char) -> Option<int>
    decreases s.len() - j,
{
    if j < 0 || j >= s.len() {
        None
    } else if s[j] == q {
        Some(j + 1)
    } else if s[j] == '\\' {
        if j + 1 < s.len() {
            string_end(s, j + 2, q)
        } else {
            None
        }
    } else if s[j] == '\n' {
        None
    } else {
        string_end(s, j + 1, q)
    }
}

/// The length of a long-form comment starting at `i` (after the two leading
/// dashes): a double bracket, a body free of closing brackets, and a double
/// closing bracket.
pub open spec fn long_comment_len(s: Seq<char>, i: int) -> Option<nat> {
    if i + 3 < s.len() && s[i + 2] == '[' && s[i + 3] == '[' {
        let j = i + 4 + bracket_run(s, i + 4);
        if j + 1 < s.len() && s[j] == ']' && s[j + 1] == ']' {
            Some((j + 2 - i) as nat)
        } else {
            None
        }
    } else {
        None
    }
}

/// The length of a comment starting at the two dashes at `i`: the rest of the
/// line, or a long-form comment when that match is longer (it is longer
/// exactly when it spans lines).
pub open spec fn comment_len(s: Seq<char>, i: int) -> nat {
    let line = (2 + line_run(s, i + 2)) as nat;
    match long_comment_len(s, i) {
        Some(l) => if l > line {
            l
        } else {
            line
        },
        None => line,
    }
}

/// The keyword token for an identifier-shaped word, if the word is one of the
/// Swedish keywords.
pub open spec fn keyword_token(w: Seq<char>) -> Option<TokenM> {
    if w == "och"@ {
        Some(TokenM::And)
    } else if w == "bryt"@ {
        Some(TokenM::Break)
    } else if w == "gör"@ {
        Some(TokenM::Do)
    } else if w == "annars"@ {
        Some(TokenM::Else)
    } else if w == "annarsom"@ {
        Some(TokenM::Elseif)
    } else if w == "slut"@ {
        Some(TokenM::End)
    } else if w == "falskt"@ {
        Some(TokenM::False)
    } else if w == "för"@ {
        Some(TokenM::For)
    } else if w == "funktion"@ {
        Some(TokenM::Function)
    } else if w == "om"@ {
        Some(TokenM::If)
    } else if w == "i"@ {
        Some(TokenM::In)
    } else if w == "lokal"@ {
        Some(TokenM::Local)
    } else if w == "inte"@ {
        Some(TokenM::Not)
    } else if w == "eller"@ {
        Some(TokenM::Or)
    } else if w == "upprepa"@ {
        Some(TokenM::Repeat)
    } else if w == "ge"@ {
        Some(TokenM::Return)
    } else if w == "sant"@ {
        Some(TokenM::True)
    } else if w == "tills"@ {
        Some(TokenM::Until)
    } else if w == "medan"@ {
        Some(TokenM::While)
    } else if w == "utför"@ {
        Some(TokenM::Then)
    } else if w == "ingenting"@ {
        Some(TokenM::Nil)
    } else {
        None
    }
}

/// One scanning step at position `i`: the number of characters consumed and
/// the token produced, or no token where whitespace is skipped.
pub open spec fn munch(s: Seq<char>, i: int) -> (nat, Option<TokenM>) {
    let c = s[i];
    if is_space_char(c) {
        (space_run(s, i), None::<TokenM>)
    } else if is_ident_letter(c) {
        let l = ident_len(s, i);
        let w = s.subrange(i, i + l);
        match keyword_token(w) {
            Some(t) => (l, Some(t)),
            None => (l, Some(TokenM::Ident(w))),
        }
    } else if is_digit_char(c) {
        (number_len(s, i), Some(TokenM::Number(s.subrange(i, i + number_len(s, i)))))
    } else if c == '"' || c == '\'' {
        match string_end(s, i + 1, c) {
            Some(e) => ((e - i) as nat, Some(TokenM::Str(s.subrange(i, e)))),
            None => (1 as nat, Some(TokenM::Error)),
        }
    } else if c == '-' {
        if i + 1 < s.len() && s[i + 1] == '-' {
            (comment_len(s, i), Some(TokenM::Comment))
        } else {
            (1 as nat, Some(TokenM::Subtract))
        }
    } else if c == '.' {
        if i + 1 < s.len() && s[i + 1] == '.' {
            if i + 2 < s.len() && s[i + 2] == '.' {
                (3 as nat, Some(TokenM::VarArgs))
            } else {
                (2 as nat, Some(TokenM::Concat))
            }
        } else {
            (1 as nat, Some(TokenM::Period))
        }
    } else if c == '=' {
        if i + 1 < s.len() && s[i + 1] == '=' {
            (2 as nat, Some(TokenM::Equal))
        } else {
            (1 as nat, Some(TokenM::AssignmentOperator))
        }
    } else if c == '~' {
        if i + 1 < s.len() && s[i + 1] == '=' {
            (2 as nat, Some(TokenM::NotEqual))
        } else {
            (1 as nat, Some(TokenM::Error))
        }
    } else if c == '>' {
        if i + 1 < s.len() && s[i + 1] == '=' {
            (2 as nat, Some(TokenM::GreaterOrEqual))
        } else {
            (1 as nat, Some(TokenM::GreaterThan))
        }
    } else if c == '<' {
        if i + 1 < s.len() && s[i + 1] == '=' {
            (2 as nat, Some(TokenM::LessOrEqual))
        } else {
            (1 as nat, Some(TokenM::LessThan))
        }
    } else if c == '(' {
        (1 as nat, Some(TokenM::LeftParenthesis))
    } else if c == ')' {
        (1 as nat, Some(TokenM::RightParenthesis))
    } else if c == '{' {
        (1 as nat, Some(TokenM::LeftCurly))
    } else if c == '}' {
        (1 as nat, Some(TokenM::RightCurly))
    } else if c == '[' {
        (1 as nat, Some(TokenM::LeftBracket))
    } else if c == ']' {
        (1 as nat, Some(TokenM::RightBracket))
    } else if c == ',' {
        (1 as nat, Some(TokenM::Comma))
    } else if c == ':' {
        (1 as nat, Some(TokenM::Colon))
    } else if c == ';' {
        (1 as nat, Some(TokenM::SemiColon))
    } else if c == '#' {
        (1 as nat, Some(TokenM::LengthOperator))
    } else if c == '*' {
        (1 as nat, Some(TokenM::Multiply))
    } else if c == '/' {
        (1 as nat, Some(TokenM::Divide))
    } else if c == '%' {
        (1 as nat, Some(TokenM::Modulus))
    } else if c == '+' {
        (1 as nat, Some(TokenM::Add))
    } else if c == '^' {
        (1 as nat, Some(TokenM::Exponent))
    } else {
        (1 as nat, Some(TokenM::Error))
    }
}

proof fn lemma_ident_run_bound(s: Seq<char>, i: int)
    requires
        0 <= i <= s.len(),
    ensures
        i + ident_run(s, i) <= s.len(),
    decreases s.len() - i,
{
    if i < s.len() && is_ident_letter(s[i]) {
        lemma_ident_run_bound(s, i + 1);
    }
}

proof fn lemma_digit_run_bound(s: Seq<char>, i: int)
    requires
        0 <= i <= s.len(),
    ensures
        i + digit_run(s, i) <= s.len(),
    decreases s.len() - i,
{
    if i < s.len() && is_digit_char(s[i]) {
        lemma_digit_run_bound(s, i + 1);
    }
}

proof fn lemma_space_run_bound(s: Seq<char>, i: int)
    requires
        0 <= i <= s.len(),
    ensures
        i + space_run(s, i) <= s.len(),
    decreases s.len() - i,
{
    if i < s.len() && is_space_char(s[i]) {
        lemma_space_run_bound(s, i + 1);
    }
}

proof fn lemma_line_run_bound(s: Seq<char>, i: int)
    requires
        0 <= i <= s.len(),
    ensures
        i + line_run(s, i) <= s.len(),
    decreases s.len() - i,
{
    if i < s.len() && s[i] != '\n' {
        lemma_line_run_bound(s, i + 1);
    }
}

proof fn lemma_bracket_run_bound(s: Seq<char>, i: int)
    requires
        0 <= i <= s.len(),
    ensures
        i + bracket_run(s, i) <= s.len(),
    decreases s.len() - i,
{
    if i < s.len() && s[i] != ']' {
        lemma_bracket_run_bound(s, i + 1);
    }
}

proof fn lemma_string_end_bound(s: Seq<char>, j: int, q: char)
    ensures
        string_end(s, j, q) matches Some(e) ==> j < e <= s.len(),
    decreases s.len() - j,
{
    if 0 <= j < s.len() {
        if s[j] == q {
        } else if s[j] == '\\' {
            if j + 1 < s.len() {
                lemma_string_end_bound(s, j + 2, q);
            }
        } else if s[j] == '\n' {
        } else {
            lemma_string_end_bound(s, j + 1, q);
        }
    }
}

/// A scanning step consumes at least one character and stays inside the text.
pub proof fn lemma_munch_bounds(s: Seq<char>, i: int)
    requires
        0 <= i < s.len(),
    ensures
        1 <= munch(s, i).0,
        i + munch(s, i).0 <= s.len(),
{
    let c = s[i];
    lemma_space_run_bound(s, i);
    lemma_ident_run_bound(s, i);
    lemma_digit_run_bound(s, i);
    if is_space_char(c) {
    } else if is_ident_letter(c) {
        let a = ident_run(s, i);
        assert(a >= 1);
        lemma_digit_run_bound(s, i + a);
        let b = digit_run(s, i + a);
        if b > 0 {
            lemma_ident_run_bound(s, i + a + b);
        }
    } else if is_digit_char(c) {
        let a = digit_run(s, i);
        assert(a >= 1);
        if i + a < s.len() && s[i + a] == '.' {
            lemma_digit_run_bound(s, i + a + 1);
        }
    } else if c == '"' || c == '\'' {
        lemma_string_end_bound(s, i + 1, c);
    } else if c == '-' && i + 1 < s.len() && s[i + 1] == '-' {
        lemma_line_run_bound(s, i + 2);
        if i + 4 <= s.len() {
            lemma_bracket_run_bound(s, i + 4);
        }
    } else {
    }
}

/// The token sequence of the text from position `i` on.
pub open spec fn lex_from(s: Seq<char>, i: int) -> Seq<TokenM>
    decreases s.len() - i,
    when 0 <= i
    via lex_from_decreases
{
    if i >= s.len() {
        Seq::empty()
    } else {
        let step = munch(s, i);
        match step.1 {
            None => lex_from(s, i + step.0),
            Some(tok) => seq![tok] + lex_from(s, i + step.0),
        }
    }
}

#[via_fn]
proof fn lex_from_decreases(s: Seq<char>, i: int) {
    if 0 <= i < s.len() {
        lemma_munch_bounds(s, i);
    }
}

/// The token sequence of the whole text.
pub open spec fn spec_lex(s: Seq<char>) -> Seq<TokenM> {
    lex_from(s, 0)
}

proof fn lemma_letters_to_end(s: Seq<char>, i: int)
    requires
        0 <= i <= s.len(),
        forall|k: int| i <= k < s.len() ==> is_ident_letter(#[trigger] s[k]),
    ensures
        ident_run(s, i) == s.len() - i,
    decreases s.len() - i,
{
    if i < s.len() {
        lemma_letters_to_end(s, i + 1);
    }
}

proof fn lemma_spaces_to_end(s: Seq<char>, i: int)
    requires
        0 <= i <= s.len(),
        forall|k: int| i <= k < s.len() ==> is_space_char(#[trigger] s[k]),
    ensures
        space_run(s, i) == s.len() - i,
    decreases s.len() - i,
{
    if i < s.len() {
        lemma_spaces_to_end(s, i + 1);
    }
}

/// Whitespace-only input lexes to no tokens at all.
pub proof fn lemma_lex_whitespace_only(s: Seq<char>)
    requires
        forall|i: int| 0 <= i < s.len() ==> is_space_char(#[trigger] s[i]),
    ensures
        spec_lex(s) == Seq::<TokenM>::empty(),
{
    if s.len() > 0 {
        lemma_spaces_to_end(s, 0);
        assert(munch(s, 0) == (s.len(), None::<TokenM>));
        assert(lex_from(s, s.len() as int) == Seq::<TokenM>::empty());
    }
}

/// A complete identifier-shaped word that is not a Swedish keyword lexes as
/// one identifier token: it is never split, also when a Swedish keyword is a
/// prefix of it.
pub proof fn lemma_lex_whole_ident(x: Seq<char>)
    requires
        x.len() > 0,
        is_ident_letter(x[0]),
        ident_len(x, 0) == x.len(),
        keyword_token(x) is None,
    ensures
        spec_lex(x) == seq![TokenM::Ident(x)],
{
    assert(!is_space_char(x[0]));
    assert(x.subrange(0, x.len() as int) =~= x);
    assert(munch(x, 0) == (x.len() as nat, Some(TokenM::Ident(x))));
    assert(lex_from(x, x.len() as int) == Seq::<TokenM>::empty());
    assert(seq![TokenM::Ident(x)] + Seq::<TokenM>::empty() =~= seq![TokenM::Ident(x)]);
}

/// A Swedish keyword used as a table field directly after a period is still
/// lexed as the keyword token: the lexer is context-free, which is a
/// documented ambiguity of the surface syntax.
pub proof fn lemma_lex_keyword_after_period(w: Seq<char>, t: TokenM)
    requires
        w.len() > 0,
        forall|k: int| 0 <= k < w.len() ==> is_ident_letter(#[trigger] w[k]),
        keyword_token(w) == Some(t),
    ensures
        spec_lex(seq!['.'] + w) == seq![TokenM::Period, t],
{
    let s = seq!['.'] + w;
    assert(s[0] == '.');
    assert(s[1] == w[0]);
    assert(is_ident_letter(w[0]));
    assert(munch(s, 0) == (1 as nat, Some(TokenM::Period)));
    assert forall|k: int| 1 <= k < s.len() implies is_ident_letter(#[trigger] s[k]) by {
        assert(s[k] == w[k - 1]);
    }
    lemma_letters_to_end(s, 1);
    assert(ident_run(s, 1) == w.len());
    assert(digit_run(s, 1 + w.len() as int) == 0);
    assert(ident_len(s, 1) == w.len());
    assert(s.subrange(1, 1 + w.len() as int) =~= w);
    assert(!is_space_char(s[1]));
    assert(munch(s, 1) == (w.len(), Some(t)));
    assert(lex_from(s, s.len() as int) == Seq::<TokenM>::empty());
    assert(lex_from(s, 1) == seq![t] + Seq::<TokenM>::empty());
    assert(seq![t] + Seq::<TokenM>::empty() =~= seq![t]);
    assert(spec_lex(s) == seq![TokenM::Period] + seq![t]);
    assert(seq![TokenM::Period] + seq![t] =~= seq![TokenM::Period, t]);
}

fn scan_ident_run(v: &Vec<char>, start: usize) -> (r: usize)
    requires
        start <= v.len(),
    ensures
        r == start + ident_run(v@, start as int),
        r <= v.len(),
{
    let mut i = start;
    while i < v.len() && (('a' <= v[i] && v[i] <= 'z') || ('A' <= v[i] && v[i] <= 'Z') || v[i] == '_'
        || v[i] == 'å' || v[i] == 'ä' || v[i] == 'ö' || v[i] == 'Å' || v[i] == 'Ä' || v[i] == 'Ö')
        invariant
            start <= i <= v.len(),
            ident_run(v@, start as int) == (i - start) + ident_run(v@, i as int),
        decreases v.len() - i,
    {
        proof {
            assert(ident_run(v@, i as int) == 1 + ident_run(v@, i as int + 1));
        }
        i = i + 1;
    }
    proof {
        assert(ident_run(v@, i as int) == 0);
    }
    i
}

fn scan_digit_run(v: &Vec<char>, start: usize) -> (r: usize)
    requires
        start <= v.len(),
    ensures
        r == start + digit_run(v@, start as int),
        r <= v.len(),
{
    let mut i = start;
    while i < v.len() && '0' <= v[i] && v[i] <= '9'
        invariant
            start <= i <= v.len(),
            digit_run(v@, start as int) == (i - start) + digit_run(v@, i as int),
        decreases v.len() - i,
    {
        proof {
            assert(digit_run(v@, i as int) == 1 + digit_run(v@, i as int + 1));
        }
        i = i + 1;
    }
    proof {
        assert(digit_run(v@, i as int) == 0);
    }
    i
}

fn scan_space_run(v: &Vec<char>, start: usize) -> (r: usize)
    requires
        start <= v.len(),
    ensures
        r == start + space_run(v@, start as int),
        r <= v.len(),
{
    let mut i = start;
    while i < v.len() && (v[i] == ' ' || v[i] == '\t' || v[i] == '\r' || v[i] == '\n' || v[i]
        == '\u{c}')
        invariant
            start <= i <= v.len(),
            space_run(v@, start as int) == (i - start) + space_run(v@, i as int),
        decreases v.len() - i,
    {
        proof {
            assert(space_run(v@, i as int) == 1 + space_run(v@, i as int + 1));
        }
        i = i + 1;
    }
    proof {
        assert(space_run(v@, i as int) == 0);
    }
    i
}

fn scan_line_run(v: &Vec<char>, start: usize) -> (r: usize)
    requires
        start <= v.len(),
    ensures
        r == start + line_run(v@, start as int),
        r <= v.len(),
{
    let mut i = start;
    while i < v.len() && v[i] != '\n'
        invariant
            start <= i <= v.len(),
            line_run(v@, start as int) == (i - start) + line_run(v@, i as int),
        decreases v.len() - i,
    {
        proof {
            assert(line_run(v@, i as int) == 1 + line_run(v@, i as int + 1));
        }
        i = i + 1;
    }
    proof {
        assert(line_run(v@, i as int) == 0);
    }
    i
}

fn scan_bracket_run(v: &Vec<char>, start: usize) -> (r: usize)
    requires
        start <= v.len(),
    ensures
        r == start + bracket_run(v@, start as int),
        r <= v.len(),
{
    let mut i = start;
    while i < v.len() && v[i] != ']'
        invariant
            start <= i <= v.len(),
            bracket_run(v@, start as int) == (i - start) + bracket_run(v@, i as int),
        decreases v.len() - i,
    {
        proof {
            assert(bracket_run(v@, i as int) == 1 + bracket_run(v@, i as int + 1));
        }
        i = i + 1;
    }
    proof {
        assert(bracket_run(v@, i as int) == 0);
    }
    i
}

fn scan_string_body(v: &Vec<char>, j: usize, q: char) -> (r: Option<usize>)
    requires
        j <= v.len(),
    ensures
        r is None ==> string_end(v@, j as int, q) is None,
        r matches Some(e) ==> j < e <= v.len() && string_end(v@, j as int, q) == Some(e as int),
    decreases v.len() - j,
{
    if j >= v.len() {
        None
    } else if v[j] == q {
        Some(j + 1)
    } else if v[j] == '\\' {
        if j + 1 < v.len() {
            scan_string_body(v, j + 2, q)
        } else {
            None
        }
    } else if v[j] == '\n' {
        None
    } else {
        scan_string_body(v, j + 1, q)
    }
}

/// The keyword token for a complete identifier-shaped word, or an identifier
/// token carrying the word itself.
fn keyword_or_ident(w: Vec<char>) -> (t: Token)
    ensures
        t@ == (match keyword_token(w@) {
            Some(k) => k,
            None => TokenM::Ident(w@),
        }),
{
    if chars_eq_str(&w, "och") {
        Token::And
    } else if chars_eq_str(&w, "bryt") {
        Token::Break
    } else if chars_eq_str(&w, "gör") {
        Token::Do
    } else if chars_eq_str(&w, "annars") {
        Token::Else
    } else if chars_eq_str(&w, "annarsom") {
        Token::Elseif
    } else if chars_eq_str(&w, "slut") {
        Token::End
    } else if chars_eq_str(&w, "falskt") {
        Token::False
    } else if chars_eq_str(&w, "för") {
        Token::For
    } else if chars_eq_str(&w, "funktion") {
        Token::Function
    } else if chars_eq_str(&w, "om") {
        Token::If
    } else if chars_eq_str(&w, "i") {
        Token::In
    } else if chars_eq_str(&w, "lokal") {
        Token::Local
    } else if chars_eq_str(&w, "inte") {
        Token::Not
    } else if chars_eq_str(&w, "eller") {
        Token::Or
    } else if chars_eq_str(&w, "upprepa") {
        Token::Repeat
    } else if chars_eq_str(&w, "ge") {
        Token::Return
    } else if chars_eq_str(&w, "sant") {
        Token::True
    } else if chars_eq_str(&w, "tills") {
        Token::Until
    } else if chars_eq_str(&w, "medan") {
        Token::While
    } else if chars_eq_str(&w, "utför") {
        Token::Then
    } else if chars_eq_str(&w, "ingenting") {
        Token::Nil
    } else {
        Token::Ident(chars_to_string(&w))
    }
}

/// The model of an optional token.
pub open spec fn option_token_view(t: Option<Token>) -> Option<TokenM> {
    match t {
        None => None,
        Some(tok) => Some(tok@),
    }
}

/// One scanning step of the executable lexer, equal to the specification's
/// `munch` at the same position.
#[verifier::rlimit(50)]
fn next_token(v: &Vec<char>, i: usize) -> (r: (usize, Option<Token>))
    requires
        i < v.len(),
    ensures
        r.0 as nat == munch(v@, i as int).0,
        option_token_view(r.1) == munch(v@, i as int).1,
{
    let c = v[i];
    if c == ' ' || c == '\t' || c == '\r' || c == '\n' || c == '\u{c}' {
        let e = scan_space_run(v, i);
        (e - i, None)
    } else if ('a' <= c && c <= 'z') || ('A' <= c && c <= 'Z') || c == '_' || c == 'å' || c == 'ä'
        || c == 'ö' || c == 'Å' || c == 'Ä' || c == 'Ö' {
        let e1 = scan_ident_run(v, i);
        let e2 = scan_digit_run(v, e1);
        let end = if e2 == e1 {
            e1
        } else {
            scan_ident_run(v, e2)
        };
        proof {
            assert(end - i == ident_len(v@, i as int));
        }
        let w = copy_range(v, i, end);
        let tok = keyword_or_ident(w);
        (end - i, Some(tok))
    } else if '0' <= c && c <= '9' {
        let e1 = scan_digit_run(v, i);
        let end = if e1 < v.len() && v[e1] == '.' {
            scan_digit_run(v, e1 + 1)
        } else {
            e1
        };
        proof {
            assert(end - i == number_len(v@, i as int));
        }
        let w = copy_range(v, i, end);
        (end - i, Some(Token::Number(chars_to_string(&w))))
    } else if c == '"' || c == '\'' {
        match scan_string_body(v, i + 1, c) {
            Some(e) => {
                let w = copy_range(v, i, e);
                (e - i, Some(Token::Str(chars_to_string(&w))))
            },
            None => (1, Some(Token::Error)),
        }
    } else if c == '-' {
        if i + 1 < v.len() && v[i + 1] == '-' {
            let line_end = scan_line_run(v, i + 2);
            let mut clen = line_end - i;
            if v.len() - i > 3 && v[i + 2] == '[' && v[i + 3] == '[' {
                let j = scan_bracket_run(v, i + 4);
                if v.len() - j > 1 && v[j] == ']' && v[j + 1] == ']' {
                    let long_len = j + 2 - i;
                    if long_len > clen {
                        clen = long_len;
                    }
                }
            }
            proof {
                assert(clen == comment_len(v@, i as int));
            }
            (clen, Some(Token::Comment))
        } else {
            (1, Some(Token::Subtract))
        }
    } else if c == '.' {
        if i + 1 < v.len() && v[i + 1] == '.' {
            if i + 2 < v.len() && v[i + 2] == '.' {
                (3, Some(Token::VarArgs))
            } else {
                (2, Some(Token::Concat))
            }
        } else {
            (1, Some(Token::Period))
        }
    } else if c == '=' {
        if i + 1 < v.len() && v[i + 1] == '=' {
            (2, Some(Token::Equal))
        } else {
            (1, Some(Token::AssignmentOperator))
        }
    } else if c == '~' {
        if i + 1 < v.len() && v[i + 1] == '=' {
            (2, Some(Token::NotEqual))
        } else {
            (1, Some(Token::Error))
        }
    } else if c == '>' {
        if i + 1 < v.len() && v[i + 1] == '=' {
            (2, Some(Token::GreaterOrEqual))
        } else {
            (1, Some(Token::GreaterThan))
        }
    } else if c == '<' {
        if i + 1 < v.len() && v[i + 1] == '=' {
            (2, Some(Token::LessOrEqual))
        } else {
            (1, Some(Token::LessThan))
        }
    } else if c == '(' {
        (1, Some(Token::LeftParenthesis))
    } else if c == ')' {
        (1, Some(Token::RightParenthesis))
    } else if c == '{' {
        (1, Some(Token::LeftCurly))
    } else if c == '}' {
        (1, Some(Token::RightCurly))
    } else if c == '[' {
        (1, Some(Token::LeftBracket))
    } else if c == ']' {
        (1, Some(Token::RightBracket))
    } else if c == ',' {
        (1, Some(Token::Comma))
    } else if c == ':' {
        (1, Some(Token::Colon))
    } else if c == ';' {
        (1, Some(Token::SemiColon))
    } else if c == '#' {
        (1, Some(Token::LengthOperator))
    } else if c == '*' {
        (1, Some(Token::Multiply))
    } else if c == '/' {
        (1, Some(Token::Divide))
    } else if c == '%' {
        (1, Some(Token::Modulus))
    } else if c == '+' {
        (1, Some(Token::Add))
    } else if c == '^' {
        (1, Some(Token::Exponent))
    } else {
        (1, Some(Token::Error))
    }
}

/// Lexes the source text into a flat sequence of tokens.  Lexing is total:
/// whitespace is skipped and an unrecognised character yields an error token.
pub fn lex(code: &str) -> (r: Vec<Token>)
    ensures
        token_views(r@) == spec_lex(code@),
{
    let v = str_to_chars(code);
    let mut r: Vec<Token> = Vec::new();
    let mut i: usize = 0;
    proof {
        assert(token_views(r@) + lex_from(code@, 0) =~= lex_from(code@, 0));
    }
    while i < v.len()
        invariant
            v@ == code@,
            i <= v.len(),
            spec_lex(code@) == token_views(r@) + lex_from(code@, i as int),
        decreases v.len() - i,
    {
        let ghost r0 = r@;
        let (l, t) = next_token(&v, i);
        proof {
            lemma_munch_bounds(code@, i as int);
        }
        match t {
            Some(tok) => {
                r.push(tok);
                proof {
                    assert(token_views(r@) =~= token_views(r0).push(tok@));
                    assert(lex_from(code@, i as int) == seq![tok@] + lex_from(
                        code@,
                        i as int + l,
                    ));
                    assert(token_views(r0) + (seq![tok@] + lex_from(code@, i as int + l))
                        =~= token_views(r0).push(tok@) + lex_from(code@, i as int + l));
                }
            },
            None => {
                proof {
                    assert(lex_from(code@, i as int) == lex_from(code@, i as int + l));
                }
            },
        }
        i = i + l;
    }
    proof {
        assert(lex_from(code@, i as int) == Seq::<TokenM>::empty());
        assert(token_views(r@) + Seq::<TokenM>::empty() =~= token_views(r@));
    }
    r
}

} // verus!
