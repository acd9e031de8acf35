//! The decision logic of the interactive loop: meta-command handling, the
//! translation of a complete input, and the response to an evaluation
//! outcome.  The embedding layer owns the actual read-eval loop and performs
//! these decisions.
use vstd::prelude::*;
use vstd::string::StrSliceExecFns;
use vstd::string::StringExecFns;

use crate::chars::str_eq_str;
use crate::emit::spec_transpile;
use crate::runtime::ScriptError;
use crate::runtime::ScriptValue;
use crate::runtime::show_swedish_values;
use crate::runtime::spec_error_repr;
use crate::runtime::spec_show_value;
use crate::transpile;

verus! {

/// The meta-commands that end the interactive session.
pub open spec fn quit_command(c: Seq<char>) -> bool {
    c == ":q"@ || c == ":quit"@ || c == ":a"@ || c == ":avsluta"@
}

/// The meta-commands that ask for help.
pub open spec fn help_command(c: Seq<char>) -> bool {
    c == ":h"@ || c == ":hjälp"@
}

pub open spec fn help_text() -> Seq<char> {
    "För att lära dig mer om Koda, besök https://github.com/adelhult/koda"@
}

pub open spec fn unknown_command_text() -> Seq<char> {
    "Okänt kommando. Prova ':avsluta' eller ':hjälp'"@
}

/// Decides a colon-prefixed meta-command: zero means the session ends, and
/// the optional text is what the loop prints in response.
pub fn run_command(c: &str) -> (r: (u8, Option<String>))
    ensures
        r.0 == (if quit_command(c@) {
            0u8
        } else {
            1u8
        }),
        quit_command(c@) ==> r.1 is None,
        help_command(c@) ==> (r.1 matches Some(msg) && msg@ == help_text()),
        !quit_command(c@) && !help_command(c@) ==> (r.1 matches Some(msg) && msg@
            == unknown_command_text()),
{
    proof {
        reveal_strlit(":q");
        reveal_strlit(":quit");
        reveal_strlit(":a");
        reveal_strlit(":avsluta");
        reveal_strlit(":h");
        reveal_strlit(":hjälp");
        assert(":q"@.len() == 2 && ":q"@[1] == 'q');
        assert(":quit"@.len() == 5);
        assert(":a"@.len() == 2 && ":a"@[1] == 'a');
        assert(":avsluta"@.len() == 8);
        assert(":h"@.len() == 2 && ":h"@[1] == 'h');
        assert(":hjälp"@.len() == 6);
    }
    if str_eq_str(c, ":q") || str_eq_str(c, ":quit") || str_eq_str(c, ":a") || str_eq_str(
        c,
        ":avsluta",
    ) {
        (0, None)
    } else if str_eq_str(c, ":h") || str_eq_str(c, ":hjälp") {
        (
            1,
            Some(
                String::from_str(
                    "För att lära dig mer om Koda, besök https://github.com/adelhult/koda",
                ),
            ),
        )
    } else {
        (1, Some(String::from_str("Okänt kommando. Prova ':avsluta' eller ':hjälp'")))
    }
}

/// What the loop does with one accumulated input.
#[derive(Debug, PartialEq)]
pub enum ReplStep {
    /// End the session.
    Quit,
    /// Print the response to a meta-command and read the next input afresh.
    Respond(String),
    /// Hand the translated text to the interpreter for evaluation.
    Evaluate(String),
}

/// Whether an input line is a meta-command rather than program text.
pub open spec fn is_meta_command(line: Seq<char>) -> bool {
    line.len() > 0 && line[0] == ':'
}

/// Decides one accumulated interactive input: a colon-prefixed line is a
/// meta-command, anything else is translated for evaluation.
pub fn repl_read_step(line: &str) -> (r: ReplStep)
    ensures
        is_meta_command(line@) && quit_command(line@) ==> r is Quit,
        is_meta_command(line@) && !quit_command(line@) ==> (r matches ReplStep::Respond(msg) && (
        if help_command(line@) {
            msg@ == help_text()
        } else {
            msg@ == unknown_command_text()
        })),
        !is_meta_command(line@) ==> (r matches ReplStep::Evaluate(code) && code@ == spec_transpile(
            line@,
        )),
{
    let n = line.unicode_len();
    if n > 0 && line.get_char(0) == ':' {
        let (code, msg) = run_command(line);
        if code == 0 {
            ReplStep::Quit
        } else {
            match msg {
                Some(m) => ReplStep::Respond(m),
                None => ReplStep::Respond(String::new()),
            }
        }
    } else {
        ReplStep::Evaluate(transpile(line))
    }
}

/// The outcome the interpreter reports for one evaluation.
#[derive(Debug, PartialEq)]
pub enum EvalOutcome {
    /// Evaluation succeeded with these returned values.
    Values(Vec<ScriptValue>),
    /// The input is incomplete: keep it and read a continuation line.
    Incomplete,
    /// Evaluation failed with this error.
    Failed(ScriptError),
}

/// What the loop does after one evaluation.
#[derive(Debug, PartialEq)]
pub enum ReplAction {
    /// Print this text and read the next input afresh.
    Show(String),
    /// Keep the accumulated input and read a continuation line.
    Continue,
    /// Print this error text and read the next input afresh.
    ShowError(String),
}

/// The display texts of the returned values, joined by single tabs, from
/// position `i` on.
pub open spec fn spec_join_values(vs: Seq<ScriptValue>, i: int) -> Seq<char>
    decreases vs.len() - i,
{
    if i < 0 || i >= vs.len() {
        Seq::empty()
    } else if i == vs.len() - 1 {
        spec_show_value(vs[i])
    } else {
        spec_show_value(vs[i]) + seq!['\t'] + spec_join_values(vs, i + 1)
    }
}

fn join_values_from(vs: &Vec<ScriptValue>, i: usize) -> (r: String)
    requires
        i <= vs.len(),
    ensures
        r@ == spec_join_values(vs@, i as int),
    decreases vs.len() - i,
{
    if i >= vs.len() {
        String::new()
    } else if i == vs.len() - 1 {
        show_swedish_values(&vs[i])
    } else {
        let mut r = show_swedish_values(&vs[i]);
        let ghost r0 = r@;
        r.push('\t');
        let rest = join_values_from(vs, i + 1);
        r.append(rest.as_str());
        proof {
            assert(r0.push('\t') + rest@ =~= spec_show_value(vs@[i as int]) + seq!['\t']
                + spec_join_values(vs@, i as int + 1));
        }
        r
    }
}

/// Renders the values one evaluation returned, joined by single tabs.
pub fn show_values_joined(vs: &Vec<ScriptValue>) -> (r: String)
    ensures
        r@ == spec_join_values(vs@, 0),
{
    join_values_from(vs, 0)
}

/// Decides the loop's response to one evaluation outcome: show the returned
/// values joined by tabs, keep reading on incomplete input, or show the
/// formatted error.  An error never ends the session.
pub fn repl_respond(outcome: EvalOutcome) -> (r: ReplAction)
    ensures
        outcome matches EvalOutcome::Values(vs) ==> (r matches ReplAction::Show(text) && text@
            == spec_join_values(vs@, 0)),
        outcome is Incomplete ==> r is Continue,
        outcome matches EvalOutcome::Failed(e) ==> (r matches ReplAction::ShowError(text) && text@
            == spec_error_repr(e)),
{
    match outcome {
        EvalOutcome::Values(vs) => ReplAction::Show(show_values_joined(&vs)),
        EvalOutcome::Incomplete => ReplAction::Continue,
        EvalOutcome::Failed(e) => ReplAction::ShowError(crate::runtime::error_repr(e)),
    }
}

/// Accepts exactly the two source-file extensions the driver runs.
pub fn valid_extension(ext: &str) -> (r: bool)
    ensures
        r == (ext@ == "kod"@ || ext@ == "lua"@),
{
    str_eq_str(ext, "kod") || str_eq_str(ext, "lua")
}

} // verus!
