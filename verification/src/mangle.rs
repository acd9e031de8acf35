//! Bijective rewriting of Swedish identifiers into ASCII-only, host-safe
//! identifiers, and the inverse substitution used when rendering diagnostics.
//!
//! Each Swedish letter is replaced by a six-character ASCII triplet marker;
//! an identifier that afterwards collides with a reserved host keyword is
//! prefixed with a fixed escape sentinel.
use vstd::prelude::*;
use vstd::string::StrSliceExecFns;
use vstd::string::StringExecFns;

use crate::chars::is_digit_char;
use crate::chars::is_letter;
use crate::chars::is_swedish_letter;
use crate::chars::str_eq_str;
use crate::chars::str_to_chars;

verus! {

/// The ASCII replacement for a single character: Swedish letters map to their
/// marker, every other character maps to itself.
pub open spec fn swedish_image(c: char) -> Seq<char> {
    if c == 'å' {
        "__ao__"@
    } else if c == 'ä' {
        "__ae__"@
    } else if c == 'ö' {
        "__oe__"@
    } else if c == 'Å' {
        "__AO__"@
    } else if c == 'Ä' {
        "__AE__"@
    } else if c == 'Ö' {
        "__OE__"@
    } else {
        seq![c]
    }
}

/// Character-by-character replacement of the Swedish letters.
pub open spec fn mangle_chars(s: Seq<char>) -> Seq<char>
    decreases s.len(),
{
    if s.len() == 0 {
        Seq::empty()
    } else {
        swedish_image(s[0]) + mangle_chars(s.skip(1))
    }
}

/// The sentinel put in front of an identifier that would otherwise collide
/// with a reserved host keyword.
pub open spec fn escape_sentinel() -> Seq<char> {
    "__escaped_lua_keyword__"@
}

/// The reserved words of the host language.
pub open spec fn is_host_keyword(w: Seq<char>) -> bool {
    ||| w == "and"@
    ||| w == "break"@
    ||| w == "do"@
    ||| w == "else"@
    ||| w == "elseif"@
    ||| w == "end"@
    ||| w == "false"@
    ||| w == "for"@
    ||| w == "function"@
    ||| w == "if"@
    ||| w == "in"@
    ||| w == "local"@
    ||| w == "nil"@
    ||| w == "not"@
    ||| w == "or"@
    ||| w == "repeat"@
    ||| w == "return"@
    ||| w == "then"@
    ||| w == "true"@
    ||| w == "until"@
    ||| w == "while"@
}

/// The full treatment of one identifier: replace the Swedish letters, then
/// escape a resulting host keyword with the sentinel.
pub open spec fn mangle_ident(s: Seq<char>) -> Seq<char> {
    if is_host_keyword(mangle_chars(s)) {
        escape_sentinel() + mangle_chars(s)
    } else {
        mangle_chars(s)
    }
}

pub open spec fn has_prefix(s: Seq<char>, p: Seq<char>) -> bool {
    p.len() <= s.len() && s.take(p.len() as int) == p
}

/// The inverse substitution: one left-to-right scan that turns each marker
/// back into its Swedish letter and deletes the escape sentinel.  At any
/// position at most one of the seven patterns can match, since they pairwise
/// differ within their first four characters.
pub open spec fn demangle(s: Seq<char>) -> Seq<char>
    decreases s.len(),
    via demangle_decreases
{
    if s.len() == 0 {
        Seq::empty()
    } else if has_prefix(s, escape_sentinel()) {
        demangle(s.skip(23))
    } else if has_prefix(s, "__ao__"@) {
        seq!['å'] + demangle(s.skip(6))
    } else if has_prefix(s, "__ae__"@) {
        seq!['ä'] + demangle(s.skip(6))
    } else if has_prefix(s, "__oe__"@) {
        seq!['ö'] + demangle(s.skip(6))
    } else if has_prefix(s, "__AO__"@) {
        seq!['Å'] + demangle(s.skip(6))
    } else if has_prefix(s, "__AE__"@) {
        seq!['Ä'] + demangle(s.skip(6))
    } else if has_prefix(s, "__OE__"@) {
        seq!['Ö'] + demangle(s.skip(6))
    } else {
        seq![s[0]] + demangle(s.skip(1))
    }
}

#[via_fn]
proof fn demangle_decreases(s: Seq<char>) {
    reveal_strlit("__escaped_lua_keyword__");
    reveal_strlit("__ao__");
    reveal_strlit("__ae__");
    reveal_strlit("__oe__");
    reveal_strlit("__AO__");
    reveal_strlit("__AE__");
    reveal_strlit("__OE__");
}

/// Replaces the Swedish characters by ASCII marker triplets.
pub fn replace_swe_chars(code: &str) -> (r: String)
    ensures
        r@ == mangle_chars(code@),
{
    let v = str_to_chars(code);
    let mut r = String::new();
    let mut i: usize = 0;
    while i < v.len()
        invariant
            v@ == code@,
            i <= v.len(),
            r@ == mangle_chars(code@.take(i as int)),
        decreases v.len() - i,
    {
        let c = v[i];
        if c == 'å' {
            r.append("__ao__");
        } else if c == 'ä' {
            r.append("__ae__");
        } else if c == 'ö' {
            r.append("__oe__");
        } else if c == 'Å' {
            r.append("__AO__");
        } else if c == 'Ä' {
            r.append("__AE__");
        } else if c == 'Ö' {
            r.append("__OE__");
        } else {
            r.push(c);
        }
        proof {
            assert(code@.take(i as int + 1) =~= code@.take(i as int) + seq![c]);
            lemma_mangle_concat(code@.take(i as int), seq![c]);
            assert(seq![c].skip(1) =~= Seq::<char>::empty());
            assert(mangle_chars(Seq::<char>::empty()) == Seq::<char>::empty());
            assert(mangle_chars(seq![c]) == swedish_image(c) + mangle_chars(seq![c].skip(1)));
            assert(swedish_image(c) + Seq::<char>::empty() =~= swedish_image(c));
            if !(c == 'å' || c == 'ä' || c == 'ö' || c == 'Å' || c == 'Ä' || c == 'Ö') {
                assert(r@ =~= mangle_chars(code@.take(i as int)) + seq![c]);
            }
        }
        i = i + 1;
    }
    proof {
        assert(code@.take(v.len() as int) =~= code@);
    }
    r
}

/// Replacing the Swedish characters distributes over concatenation.
pub proof fn lemma_mangle_concat(a: Seq<char>, b: Seq<char>)
    ensures
        mangle_chars(a + b) == mangle_chars(a) + mangle_chars(b),
    decreases a.len(),
{
    if a.len() == 0 {
        assert(a + b =~= b);
        assert(mangle_chars(a) =~= Seq::empty());
        assert(mangle_chars(a) + mangle_chars(b) =~= mangle_chars(b));
    } else {
        assert((a + b).skip(1) =~= a.skip(1) + b);
        lemma_mangle_concat(a.skip(1), b);
        assert(mangle_chars(a + b) == swedish_image(a[0]) + (mangle_chars(a.skip(1)) + mangle_chars(
            b,
        )));
        assert(swedish_image(a[0]) + (mangle_chars(a.skip(1)) + mangle_chars(b)) =~= (swedish_image(
            a[0],
        ) + mangle_chars(a.skip(1))) + mangle_chars(b));
    }
}

/// Decides whether the given text is a reserved host keyword.
pub fn host_keyword(token: &str) -> (r: bool)
    ensures
        r == is_host_keyword(token@),
{
    str_eq_str(token, "and") || str_eq_str(token, "break") || str_eq_str(token, "do") || str_eq_str(
        token,
        "else",
    ) || str_eq_str(token, "elseif") || str_eq_str(token, "end") || str_eq_str(token, "false")
        || str_eq_str(token, "for") || str_eq_str(token, "function") || str_eq_str(token, "if")
        || str_eq_str(token, "in") || str_eq_str(token, "local") || str_eq_str(token, "nil")
        || str_eq_str(token, "not") || str_eq_str(token, "or") || str_eq_str(token, "repeat")
        || str_eq_str(token, "return") || str_eq_str(token, "then") || str_eq_str(token, "true")
        || str_eq_str(token, "until") || str_eq_str(token, "while")
}

/// Escapes a reserved host keyword by prefixing the sentinel.
pub fn escape_keywords(token: &str) -> (r: String)
    ensures
        r@ == (if is_host_keyword(token@) {
            escape_sentinel() + token@
        } else {
            token@
        }),
{
    if host_keyword(token) {
        let mut r = String::from_str("__escaped_lua_keyword__");
        r.append(token);
        r
    } else {
        token.to_owned()
    }
}

/// The characters of which user identifiers consist: ASCII and Swedish
/// letters, digits, and underscores.
pub open spec fn is_ident_text_char(c: char) -> bool {
    is_letter(c) || is_digit_char(c) || c == '_'
}

/// The characters with which the body of a marker or of the sentinel begins.
pub open spec fn is_marker_body_start(c: char) -> bool {
    c == 'a' || c == 'o' || c == 'A' || c == 'O' || c == 'e'
}

/// No position of `s` reads as the start of a marker or of the sentinel: a
/// double underscore followed by a marker-body character.  Such names are
/// reserved for the mangler itself.
pub open spec fn no_reserved_marker(s: Seq<char>) -> bool
    decreases s.len(),
{
    if s.len() < 3 {
        true
    } else {
        !(s[0] == '_' && s[1] == '_' && is_marker_body_start(s[2])) && no_reserved_marker(s.skip(1))
    }
}

/// When no marker can start at the head of `m`, demangling copies the first
/// character unchanged.
proof fn lemma_demangle_copies_head(m: Seq<char>)
    requires
        m.len() > 0,
        !(m.len() >= 3 && m[0] == '_' && m[1] == '_' && is_marker_body_start(m[2])),
    ensures
        demangle(m) == seq![m[0]] + demangle(m.skip(1)),
{
    reveal_strlit("__escaped_lua_keyword__");
    reveal_strlit("__ao__");
    reveal_strlit("__ae__");
    reveal_strlit("__oe__");
    reveal_strlit("__AO__");
    reveal_strlit("__AE__");
    reveal_strlit("__OE__");
    assert(!has_prefix(m, escape_sentinel())) by {
        if has_prefix(m, escape_sentinel()) {
            assert(m.take(23)[0] == m[0]);
            assert(m.take(23)[1] == m[1]);
            assert(m.take(23)[2] == m[2]);
        }
    }
    assert(!has_prefix(m, "__ao__"@)) by {
        if has_prefix(m, "__ao__"@) {
            assert(m.take(6)[0] == m[0]);
            assert(m.take(6)[1] == m[1]);
            assert(m.take(6)[2] == m[2]);
        }
    }
    assert(!has_prefix(m, "__ae__"@)) by {
        if has_prefix(m, "__ae__"@) {
            assert(m.take(6)[0] == m[0]);
            assert(m.take(6)[1] == m[1]);
            assert(m.take(6)[2] == m[2]);
        }
    }
    assert(!has_prefix(m, "__oe__"@)) by {
        if has_prefix(m, "__oe__"@) {
            assert(m.take(6)[0] == m[0]);
            assert(m.take(6)[1] == m[1]);
            assert(m.take(6)[2] == m[2]);
        }
    }
    assert(!has_prefix(m, "__AO__"@)) by {
        if has_prefix(m, "__AO__"@) {
            assert(m.take(6)[0] == m[0]);
            assert(m.take(6)[1] == m[1]);
            assert(m.take(6)[2] == m[2]);
        }
    }
    assert(!has_prefix(m, "__AE__"@)) by {
        if has_prefix(m, "__AE__"@) {
            assert(m.take(6)[0] == m[0]);
            assert(m.take(6)[1] == m[1]);
            assert(m.take(6)[2] == m[2]);
        }
    }
    assert(!has_prefix(m, "__OE__"@)) by {
        if has_prefix(m, "__OE__"@) {
            assert(m.take(6)[0] == m[0]);
            assert(m.take(6)[1] == m[1]);
            assert(m.take(6)[2] == m[2]);
        }
    }
}

/// When `m` starts with the marker of the Swedish letter `c`, demangling
/// turns exactly that marker back into `c`.
proof fn lemma_demangle_marker_head(m: Seq<char>, c: char)
    requires
        is_swedish_letter(c),
        m.len() >= 6,
        m.take(6) == swedish_image(c),
    ensures
        demangle(m) == seq![c] + demangle(m.skip(6)),
{
    reveal_strlit("__escaped_lua_keyword__");
    reveal_strlit("__ao__");
    reveal_strlit("__ae__");
    reveal_strlit("__oe__");
    reveal_strlit("__AO__");
    reveal_strlit("__AE__");
    reveal_strlit("__OE__");
    assert(m.take(6)[2] == m[2]);
    assert(m.take(6)[3] == m[3]);
    assert(!has_prefix(m, escape_sentinel())) by {
        if has_prefix(m, escape_sentinel()) {
            assert(m.take(23)[2] == m[2]);
        }
    }
    if c == 'å' {
        assert(has_prefix(m, "__ao__"@));
    } else if c == 'ä' {
        assert(!has_prefix(m, "__ao__"@)) by {
            if has_prefix(m, "__ao__"@) {
                assert(m.take(6)[3] == 'o');
            }
        }
        assert(has_prefix(m, "__ae__"@));
    } else if c == 'ö' {
        assert(!has_prefix(m, "__ao__"@)) by {
            if has_prefix(m, "__ao__"@) {
                assert(m.take(6)[2] == 'a');
            }
        }
        assert(!has_prefix(m, "__ae__"@)) by {
            if has_prefix(m, "__ae__"@) {
                assert(m.take(6)[2] == 'a');
            }
        }
        assert(has_prefix(m, "__oe__"@));
    } else if c == 'Å' {
        assert(!has_prefix(m, "__ao__"@)) by {
            if has_prefix(m, "__ao__"@) {
                assert(m.take(6)[2] == 'a');
            }
        }
        assert(!has_prefix(m, "__ae__"@)) by {
            if has_prefix(m, "__ae__"@) {
                assert(m.take(6)[2] == 'a');
            }
        }
        assert(!has_prefix(m, "__oe__"@)) by {
            if has_prefix(m, "__oe__"@) {
                assert(m.take(6)[2] == 'o');
            }
        }
        assert(has_prefix(m, "__AO__"@));
    } else if c == 'Ä' {
        assert(!has_prefix(m, "__ao__"@)) by {
            if has_prefix(m, "__ao__"@) {
                assert(m.take(6)[2] == 'a');
            }
        }
        assert(!has_prefix(m, "__ae__"@)) by {
            if has_prefix(m, "__ae__"@) {
                assert(m.take(6)[2] == 'a');
            }
        }
        assert(!has_prefix(m, "__oe__"@)) by {
            if has_prefix(m, "__oe__"@) {
                assert(m.take(6)[2] == 'o');
            }
        }
        assert(!has_prefix(m, "__AO__"@)) by {
            if has_prefix(m, "__AO__"@) {
                assert(m.take(6)[3] == 'O');
            }
        }
        assert(has_prefix(m, "__AE__"@));
    } else {
        assert(c == 'Ö');
        assert(!has_prefix(m, "__ao__"@)) by {
            if has_prefix(m, "__ao__"@) {
                assert(m.take(6)[2] == 'a');
            }
        }
        assert(!has_prefix(m, "__ae__"@)) by {
            if has_prefix(m, "__ae__"@) {
                assert(m.take(6)[2] == 'a');
            }
        }
        assert(!has_prefix(m, "__oe__"@)) by {
            if has_prefix(m, "__oe__"@) {
                assert(m.take(6)[2] == 'o');
            }
        }
        assert(!has_prefix(m, "__AO__"@)) by {
            if has_prefix(m, "__AO__"@) {
                assert(m.take(6)[2] == 'A');
                assert(m.take(6)[3] == 'O');
            }
        }
        assert(!has_prefix(m, "__AE__"@)) by {
            if has_prefix(m, "__AE__"@) {
                assert(m.take(6)[2] == 'A');
            }
        }
        assert(has_prefix(m, "__OE__"@));
    }
}

/// The first character of a mangled text: an underscore pair where the text
/// began with a Swedish letter, the original character otherwise.
proof fn lemma_mangle_first(y: Seq<char>)
    requires
        y.len() > 0,
    ensures
        mangle_chars(y).len() > 0,
        is_swedish_letter(y[0]) ==> mangle_chars(y).len() >= 2 && mangle_chars(y)[0] == '_'
            && mangle_chars(y)[1] == '_',
        !is_swedish_letter(y[0]) ==> mangle_chars(y)[0] == y[0],
{
    reveal_strlit("__ao__");
    reveal_strlit("__ae__");
    reveal_strlit("__oe__");
    reveal_strlit("__AO__");
    reveal_strlit("__AE__");
    reveal_strlit("__OE__");
    assert(mangle_chars(y) == swedish_image(y[0]) + mangle_chars(y.skip(1)));
}

/// Demangling inverts the character replacement, for identifier text that
/// holds no reserved marker.
pub proof fn lemma_demangle_mangle_chars(x: Seq<char>)
    requires
        forall|i: int| 0 <= i < x.len() ==> is_ident_text_char(#[trigger] x[i]),
        no_reserved_marker(x),
    ensures
        demangle(mangle_chars(x)) == x,
    decreases x.len(),
{
    reveal_strlit("__ao__");
    reveal_strlit("__ae__");
    reveal_strlit("__oe__");
    reveal_strlit("__AO__");
    reveal_strlit("__AE__");
    reveal_strlit("__OE__");
    if x.len() == 0 {
        assert(demangle(mangle_chars(x)) =~= x);
    } else {
        let c = x[0];
        let rest = x.skip(1);
        let m = mangle_chars(x);
        let mr = mangle_chars(rest);
        assert(m == swedish_image(c) + mr);
        assert forall|i: int| 0 <= i < rest.len() implies is_ident_text_char(#[trigger] rest[i]) by {
            assert(rest[i] == x[i + 1]);
        }
        assert(no_reserved_marker(rest));
        lemma_demangle_mangle_chars(rest);
        if c == 'å' || c == 'ä' || c == 'ö' || c == 'Å' || c == 'Ä' || c == 'Ö' {
            assert(swedish_image(c).len() == 6);
            assert(m.take(6) =~= swedish_image(c));
            lemma_demangle_marker_head(m, c);
            assert(m.skip(6) =~= mr);
            assert(seq![c] + rest =~= x);
        } else {
            assert(swedish_image(c) == seq![c]);
            assert(m[0] == c);
            assert(m.skip(1) =~= mr);
            if m.len() >= 3 && m[0] == '_' && m[1] == '_' && is_marker_body_start(m[2]) {
                // This cannot happen: it would mean a reserved marker starts
                // inside the original text, which the precondition rules out.
                assert(rest.len() > 0);
                assert(m[1] == mr[0]);
                lemma_mangle_first(rest);
                assert(!is_swedish_letter(rest[0]));
                assert(rest[0] == '_');
                assert(mr == seq!['_'] + mangle_chars(rest.skip(1)));
                assert(rest.skip(1).len() > 0) by {
                    if rest.len() == 1 {
                        assert(mr.len() == 1);
                    }
                }
                assert(m[2] == mr[1]);
                assert(mr[1] == mangle_chars(rest.skip(1))[0]);
                lemma_mangle_first(rest.skip(1));
                assert(!is_swedish_letter(rest.skip(1)[0]));
                assert(rest.skip(1)[0] == m[2]);
                assert(x[0] == '_' && x[1] == '_' && is_marker_body_start(x[2]));
                assert(x.len() >= 3);
                assert(false);
            }
            lemma_demangle_copies_head(m);
            assert(seq![c] + rest =~= x);
        }
    }
}

/// Identifier round-trip: demangling a mangled identifier returns the text
/// the user wrote, for identifier text that holds no reserved marker.
pub proof fn lemma_mangle_roundtrip(x: Seq<char>)
    requires
        forall|i: int| 0 <= i < x.len() ==> is_ident_text_char(#[trigger] x[i]),
        no_reserved_marker(x),
    ensures
        demangle(mangle_ident(x)) == x,
{
    lemma_demangle_mangle_chars(x);
    if is_host_keyword(mangle_chars(x)) {
        reveal_strlit("__escaped_lua_keyword__");
        let m = mangle_chars(x);
        let s = escape_sentinel() + m;
        assert(s.take(23) =~= escape_sentinel());
        assert(has_prefix(s, escape_sentinel()));
        assert(demangle(s) == demangle(s.skip(23)));
        assert(s.skip(23) =~= m);
    }
}

/// A mangled identifier never reads as a reserved host keyword, whatever the
/// identifier was: an escaped identifier is far longer than any keyword, and
/// an unescaped one was checked not to be one.
pub proof fn lemma_mangled_never_host_keyword(x: Seq<char>)
    ensures
        !is_host_keyword(mangle_ident(x)),
{
    if is_host_keyword(mangle_chars(x)) {
        reveal_strlit("__escaped_lua_keyword__");
        reveal_strlit("and");
        reveal_strlit("break");
        reveal_strlit("do");
        reveal_strlit("else");
        reveal_strlit("elseif");
        reveal_strlit("end");
        reveal_strlit("false");
        reveal_strlit("for");
        reveal_strlit("function");
        reveal_strlit("if");
        reveal_strlit("in");
        reveal_strlit("local");
        reveal_strlit("nil");
        reveal_strlit("not");
        reveal_strlit("or");
        reveal_strlit("repeat");
        reveal_strlit("return");
        reveal_strlit("then");
        reveal_strlit("true");
        reveal_strlit("until");
        reveal_strlit("while");
        let s = escape_sentinel() + mangle_chars(x);
        assert(mangle_chars(x).len() >= 2);
        assert(s.len() >= 25);
    }
}

/// Does the pattern `pat` start at position `i` of `v`?
fn match_at(v: &Vec<char>, i: usize, pat: &str) -> (r: bool)
    requires
        i <= v.len(),
    ensures
        r == has_prefix(v@.skip(i as int), pat@),
{
    let n = pat.unicode_len();
    if v.len() - i < n {
        return false;
    }
    let mut j: usize = 0;
    while j < n
        invariant
            j <= n,
            i <= v.len(),
            n == pat@.len(),
            i + n <= v.len(),
            forall|k: int| 0 <= k < j ==> v@[i + k] == pat@[k],
        decreases n - j,
    {
        if v[i + j] != pat.get_char(j) {
            proof {
                if has_prefix(v@.skip(i as int), pat@) {
                    assert(v@.skip(i as int).take(n as int)[j as int] == pat@[j as int]);
                    assert(v@.skip(i as int)[j as int] == v@[i + j]);
                }
            }
            return false;
        }
        j = j + 1;
    }
    proof {
        assert(v@.skip(i as int).take(n as int) =~= pat@);
    }
    true
}

/// Substitutes the Swedish letters back into a mangled message and strips the
/// escape sentinel, so a diagnostic shows what the user actually wrote.
pub fn show_escaped_idents(msg: &str) -> (r: String)
    ensures
        r@ == demangle(msg@),
{
    let v = str_to_chars(msg);
    let mut r = String::new();
    let mut i: usize = 0;
    proof {
        assert(msg@.skip(0) =~= msg@);
        assert(Seq::<char>::empty() + demangle(msg@) =~= demangle(msg@));
    }
    while i < v.len()
        invariant
            v@ == msg@,
            i <= v.len(),
            demangle(msg@) == r@ + demangle(msg@.skip(i as int)),
        decreases v.len() - i,
    {
        let ghost rest = msg@.skip(i as int);
        let ghost r0 = r@;
        proof {
            reveal_strlit("__escaped_lua_keyword__");
            reveal_strlit("__ao__");
            reveal_strlit("__ae__");
            reveal_strlit("__oe__");
            reveal_strlit("__AO__");
            reveal_strlit("__AE__");
            reveal_strlit("__OE__");
            assert(rest.len() > 0);
        }
        if match_at(&v, i, "__escaped_lua_keyword__") {
            proof {
                assert(demangle(rest) == demangle(rest.skip(23)));
                assert(rest.skip(23) =~= msg@.skip(i as int + 23));
            }
            i = i + 23;
        } else if match_at(&v, i, "__ao__") {
            r.push('å');
            proof {
                assert(rest.skip(6) =~= msg@.skip(i as int + 6));
                assert(r0.push('å') + demangle(rest.skip(6)) =~= r0 + (seq!['å'] + demangle(
                    rest.skip(6),
                )));
            }
            i = i + 6;
        } else if match_at(&v, i, "__ae__") {
            r.push('ä');
            proof {
                assert(rest.skip(6) =~= msg@.skip(i as int + 6));
                assert(r0.push('ä') + demangle(rest.skip(6)) =~= r0 + (seq!['ä'] + demangle(
                    rest.skip(6),
                )));
            }
            i = i + 6;
        } else if match_at(&v, i, "__oe__") {
            r.push('ö');
            proof {
                assert(rest.skip(6) =~= msg@.skip(i as int + 6));
                assert(r0.push('ö') + demangle(rest.skip(6)) =~= r0 + (seq!['ö'] + demangle(
                    rest.skip(6),
                )));
            }
            i = i + 6;
        } else if match_at(&v, i, "__AO__") {
            r.push('Å');
            proof {
                assert(rest.skip(6) =~= msg@.skip(i as int + 6));
                assert(r0.push('Å') + demangle(rest.skip(6)) =~= r0 + (seq!['Å'] + demangle(
                    rest.skip(6),
                )));
            }
            i = i + 6;
        } else if match_at(&v, i, "__AE__") {
            r.push('Ä');
            proof {
                assert(rest.skip(6) =~= msg@.skip(i as int + 6));
                assert(r0.push('Ä') + demangle(rest.skip(6)) =~= r0 + (seq!['Ä'] + demangle(
                    rest.skip(6),
                )));
            }
            i = i + 6;
        } else if match_at(&v, i, "__OE__") {
            r.push('Ö');
            proof {
                assert(rest.skip(6) =~= msg@.skip(i as int + 6));
                assert(r0.push('Ö') + demangle(rest.skip(6)) =~= r0 + (seq!['Ö'] + demangle(
                    rest.skip(6),
                )));
            }
            i = i + 6;
        } else {
            r.push(v[i]);
            proof {
                assert(rest[0] == msg@[i as int]);
                assert(rest.skip(1) =~= msg@.skip(i as int + 1));
                assert(r0.push(rest[0]) + demangle(rest.skip(1)) =~= r0 + (seq![rest[0]] + demangle(
                    rest.skip(1),
                )));
            }
            i = i + 1;
        }
    }
    proof {
        assert(msg@.skip(v.len() as int) =~= Seq::<char>::empty());
        assert(r@ + demangle(Seq::empty()) =~= r@);
    }
    r
}

} // verus!
