//! The decision content of the runtime harness and the diagnostic formatter.
//!
//! Interpreter values and errors are modelled by plain data types that hold
//! exactly what the formatting logic reads; the embedding layer converts the
//! interpreter's own values into them.  The harness setup is a plan: the
//! exact sequence of globals, native functions and prelude load that a fresh
//! interpreter state receives, which the embedding layer then performs.
use vstd::prelude::*;
use vstd::string::StringExecFns;

use crate::mangle::demangle;
use crate::mangle::show_escaped_idents;
use crate::prelude::get_prelude;
use crate::prelude::prelude_text;

verus! {

/// An interpreter value, reduced to what the Swedish value display reads.
/// Floating-point numbers arrive already rendered as decimal text.
#[derive(Debug, PartialEq)]
pub enum ScriptValue {
    Nil,
    Boolean(bool),
    LightUserData,
    Integer(i64),
    Number(String),
    Str(String),
    Table,
    Function,
    Thread,
    UserData,
    Error(String),
}

/// An interpreter error, reduced to what the diagnostic formatter reads.
#[derive(Debug, PartialEq)]
pub enum ScriptError {
    Syntax { message: String, incomplete_input: bool },
    Runtime(String),
    Other(String),
}

pub open spec fn dec_digit_char(d: int) -> char {
    if d == 0 {
        '0'
    } else if d == 1 {
        '1'
    } else if d == 2 {
        '2'
    } else if d == 3 {
        '3'
    } else if d == 4 {
        '4'
    } else if d == 5 {
        '5'
    } else if d == 6 {
        '6'
    } else if d == 7 {
        '7'
    } else if d == 8 {
        '8'
    } else {
        '9'
    }
}

/// The decimal digits of a natural number, most significant first.
pub open spec fn dec_rep(n: nat) -> Seq<char>
    decreases n,
{
    if n < 10 {
        seq![dec_digit_char(n as int)]
    } else {
        dec_rep(n / 10) + seq![dec_digit_char((n % 10) as int)]
    }
}

/// The decimal text of an integer, with a leading minus sign when negative.
pub open spec fn spec_int_text(x: int) -> Seq<char> {
    if x < 0 {
        seq!['-'] + dec_rep((-x) as nat)
    } else {
        dec_rep(x as nat)
    }
}

fn digit_of(d: u64) -> (c: char)
    requires
        d < 10,
    ensures
        c == dec_digit_char(d as int),
{
    if d == 0 {
        '0'
    } else if d == 1 {
        '1'
    } else if d == 2 {
        '2'
    } else if d == 3 {
        '3'
    } else if d == 4 {
        '4'
    } else if d == 5 {
        '5'
    } else if d == 6 {
        '6'
    } else if d == 7 {
        '7'
    } else if d == 8 {
        '8'
    } else {
        '9'
    }
}

fn push_decimal(n: u64, out: &mut String)
    ensures
        final(out)@ == old(out)@ + dec_rep(n as nat),
    decreases n,
{
    if n < 10 {
        out.push(digit_of(n));
        proof {
            assert(old(out)@.push(dec_digit_char(n as int)) =~= old(out)@ + seq![
                dec_digit_char(n as int),
            ]);
        }
    } else {
        push_decimal(n / 10, out);
        let ghost mid = out@;
        out.push(digit_of(n % 10));
        proof {
            assert(mid.push(dec_digit_char((n % 10) as int)) =~= old(out)@ + dec_rep(n as nat)) by {
                assert(mid.push(dec_digit_char((n % 10) as int)) =~= mid + seq![
                    dec_digit_char((n % 10) as int),
                ]);
                assert(old(out)@ + (dec_rep(n as nat / 10) + seq![dec_digit_char((n as nat % 10) as int)])
                    =~= (old(out)@ + dec_rep(n as nat / 10)) + seq![
                    dec_digit_char((n as nat % 10) as int),
                ]);
            }
        }
    }
}

/// Renders an integer as decimal text.
pub fn int_to_string(x: i64) -> (r: String)
    ensures
        r@ == spec_int_text(x as int),
{
    let mut r = String::new();
    if x >= 0 {
        push_decimal(x as u64, &mut r);
        proof {
            assert(Seq::<char>::empty() + dec_rep(x as nat) =~= dec_rep(x as nat));
        }
    } else {
        r.push('-');
        let m: u64 = if x == i64::MIN {
            9223372036854775808
        } else {
            (-x) as u64
        };
        let ghost mid = r@;
        push_decimal(m, &mut r);
        proof {
            assert(mid =~= seq!['-']);
            assert(m as nat == (-(x as int)) as nat);
        }
    }
    r
}

/// The Swedish display text of an interpreter value, as the interactive loop
/// shows it: fixed Swedish words for the structural values, decimal text for
/// numbers, the literal text in double quotes for strings, and a demangled
/// message for error values.
pub open spec fn spec_show_value(v: ScriptValue) -> Seq<char> {
    match v {
        ScriptValue::Nil => "ingenting"@,
        ScriptValue::Boolean(b) => if b {
            "sant"@
        } else {
            "falskt"@
        },
        ScriptValue::LightUserData => "pekare (Light user data)"@,
        ScriptValue::Integer(x) => spec_int_text(x as int),
        ScriptValue::Number(s) => s@,
        ScriptValue::Str(s) => seq!['"'] + s@ + seq!['"'],
        ScriptValue::Table => "tabell"@,
        ScriptValue::Function => "funktion"@,
        ScriptValue::Thread => "tråd"@,
        ScriptValue::UserData => "userData"@,
        ScriptValue::Error(m) => demangle(m@),
    }
}

/// Renders an interpreter value in Swedish for the interactive loop.
pub fn show_swedish_values(value: &ScriptValue) -> (r: String)
    ensures
        r@ == spec_show_value(*value),
{
    match value {
        ScriptValue::Nil => String::from_str("ingenting"),
        ScriptValue::Boolean(b) => if *b {
            String::from_str("sant")
        } else {
            String::from_str("falskt")
        },
        ScriptValue::LightUserData => String::from_str("pekare (Light user data)"),
        ScriptValue::Integer(x) => int_to_string(*x),
        ScriptValue::Number(s) => s.clone(),
        ScriptValue::Str(s) => {
            let mut r = String::new();
            r.push('"');
            let ghost r1 = r@;
            r.append(s.as_str());
            let ghost r2 = r@;
            r.push('"');
            proof {
                assert(r1 =~= seq!['"']);
                assert(r2.push('"') =~= (seq!['"'] + s@) + seq!['"']);
                assert((seq!['"'] + s@) + seq!['"'] =~= seq!['"'] + s@ + seq!['"']);
            }
            r
        },
        ScriptValue::Table => String::from_str("tabell"),
        ScriptValue::Function => String::from_str("funktion"),
        ScriptValue::Thread => String::from_str("tråd"),
        ScriptValue::UserData => String::from_str("userData"),
        ScriptValue::Error(m) => show_escaped_idents(m.as_str()),
    }
}

/// The fixed Swedish preamble printed before a syntax error.
pub open spec fn syntax_error_preamble() -> Seq<char> {
    "Fel: Det är ett syntax-fel som har uppstått.\nDe brukar bero på att man stavat fel på en variabel eller glömt något tecken.\nHär är ett meddelande på engelska som berättar om felet: \n"@
}

/// The fixed Swedish preamble printed before a runtime error.
pub open spec fn runtime_error_preamble() -> Seq<char> {
    "Fel: Det är ett runtime-fel som har uppstått.\nHär är ett meddelande på engelska som berättar om felet: \n"@
}

/// The fixed Swedish preamble printed before any other error.
pub open spec fn other_error_preamble() -> Seq<char> {
    "Fel: Här är en text på engelska där felet förklaras: \n"@
}

/// The Swedish rendering of an interpreter error: a fixed Swedish preamble
/// for its kind, then the interpreter's message with the identifier mangling
/// reversed.
pub open spec fn spec_error_repr(e: ScriptError) -> Seq<char> {
    match e {
        ScriptError::Syntax { message, .. } => syntax_error_preamble() + demangle(message@),
        ScriptError::Runtime(message) => runtime_error_preamble() + demangle(message@),
        ScriptError::Other(message) => other_error_preamble() + demangle(message@),
    }
}

/// Formats an interpreter error in Swedish.  Formatting never fails, whatever
/// the message holds.
pub fn error_repr(e: ScriptError) -> (r: String)
    ensures
        r@ == spec_error_repr(e),
{
    match e {
        ScriptError::Syntax { message, .. } => {
            let mut r = String::from_str(
                "Fel: Det är ett syntax-fel som har uppstått.\nDe brukar bero på att man stavat fel på en variabel eller glömt något tecken.\nHär är ett meddelande på engelska som berättar om felet: \n",
            );
            let shown = show_escaped_idents(message.as_str());
            r.append(shown.as_str());
            r
        },
        ScriptError::Runtime(message) => {
            let mut r = String::from_str(
                "Fel: Det är ett runtime-fel som har uppstått.\nHär är ett meddelande på engelska som berättar om felet: \n",
            );
            let shown = show_escaped_idents(message.as_str());
            r.append(shown.as_str());
            r
        },
        ScriptError::Other(message) => {
            let mut r = String::from_str(
                "Fel: Här är en text på engelska där felet förklaras: \n",
            );
            let shown = show_escaped_idents(message.as_str());
            r.append(shown.as_str());
            r
        },
    }
}

/// One step of preparing a fresh interpreter state.
#[derive(Debug, PartialEq)]
pub enum SetupStep {
    /// Bind a global variable to a text value.
    Global { name: String, value: String },
    /// Bind a global variable to a one-indexed table of text values.
    ArgsTable { name: String, values: Vec<String> },
    /// Register the native print function under the given global name.
    NativePrint { name: String },
    /// Register the native prompt function under the given global name.
    NativePrompt { name: String },
    /// Register the native open-external function under the given name.
    NativeOpen { name: String },
    /// Register the native token-dump function under the given name.
    NativeTokenDump { name: String },
    /// Load and execute a source chunk under a diagnostic name.
    LoadPrelude { chunk_name: String, source: String },
}

/// The plan for preparing a fresh interpreter state: which globals to bind,
/// which native functions to register under their mangled Swedish names, and
/// the prelude to load, in exactly this order.  The embedding layer performs
/// the steps.  When arguments are given, the first is the program file name
/// and the rest become the one-indexed parameter table.
pub fn state_setup(env: Option<Vec<String>>, version: &str) -> (r: Vec<SetupStep>)
    requires
        env matches Some(args) ==> args@.len() >= 1,
    ensures
        ({
            let base: int = if env is Some {
                2int
            } else {
                0int
            };
            &&& r@.len() == base + 6
            &&& (env matches Some(args) ==> {
                &&& (r@[0] matches SetupStep::Global { name, value } && name@ == "_FILNAMN"@
                    && value@ == args[0]@)
                &&& (r@[1] matches SetupStep::ArgsTable { name, values } && name@ == "_PARAMETRAR"@
                    && values@ == args@.skip(1))
            })
            &&& (r@[base] matches SetupStep::Global { name, value } && name@ == "_KODA_VERSION"@
                && value@ == "Koda "@ + version@)
            &&& (r@[base + 1] matches SetupStep::NativePrint { name } && name@ == "skriv"@)
            &&& (r@[base + 2] matches SetupStep::NativePrompt { name } && name@ == "fr__ao__ga"@)
            &&& (r@[base + 3] matches SetupStep::NativeOpen { name } && name@ == "__oe__ppna"@)
            &&& (r@[base + 4] matches SetupStep::NativeTokenDump { name } && name@ == "_TOKENS"@)
            &&& (r@[base + 5] matches SetupStep::LoadPrelude { chunk_name, source } && chunk_name@
                == "Koda prelude"@ && source@ == prelude_text())
        }),
{
    let mut r: Vec<SetupStep> = Vec::new();
    match env {
        Some(args) => {
            r.push(
                SetupStep::Global {
                    name: String::from_str("_FILNAMN"),
                    value: args[0].clone(),
                },
            );
            let mut params: Vec<String> = Vec::new();
            let mut i: usize = 1;
            while i < args.len()
                invariant
                    1 <= i <= args.len(),
                    params@ == args@.subrange(1, i as int),
                decreases args.len() - i,
            {
                params.push(args[i].clone());
                i = i + 1;
                proof {
                    assert(params@ =~= args@.subrange(1, i as int));
                }
            }
            proof {
                assert(args@.subrange(1, args@.len() as int) =~= args@.skip(1));
            }
            r.push(
                SetupStep::ArgsTable { name: String::from_str("_PARAMETRAR"), values: params },
            );
        },
        None => {},
    }
    let mut version_value = String::from_str("Koda ");
    version_value.append(version);
    r.push(SetupStep::Global { name: String::from_str("_KODA_VERSION"), value: version_value });
    r.push(SetupStep::NativePrint { name: String::from_str("skriv") });
    r.push(SetupStep::NativePrompt { name: String::from_str("fr__ao__ga") });
    r.push(SetupStep::NativeOpen { name: String::from_str("__oe__ppna") });
    r.push(SetupStep::NativeTokenDump { name: String::from_str("_TOKENS") });
    r.push(
        SetupStep::LoadPrelude {
            chunk_name: String::from_str("Koda prelude"),
            source: get_prelude().to_owned(),
        },
    );
    r
}

/// The text a prompt answer is reduced to: one trailing line feed is
/// stripped, then one trailing carriage return before it.
pub open spec fn spec_trim_line(s: Seq<char>) -> Seq<char> {
    let s1 = if s.len() > 0 && s.last() == '\n' {
        s.drop_last()
    } else {
        s
    };
    if s1.len() > 0 && s1.last() == '\r' {
        s1.drop_last()
    } else {
        s1
    }
}

/// Strips the line ending from a line read from standard input.
pub fn trim_line_ending(line: &str) -> (r: String)
    ensures
        r@ == spec_trim_line(line@),
{
    let v = crate::chars::str_to_chars(line);
    let mut end = v.len();
    if end > 0 && v[end - 1] == '\n' {
        end = end - 1;
    }
    if end > 0 && v[end - 1] == '\r' {
        end = end - 1;
    }
    let w = crate::chars::copy_range(&v, 0, end);
    let r = crate::chars::chars_to_string(&w);
    proof {
        assert(r@ =~= spec_trim_line(line@));
    }
    r
}

} // verus!
