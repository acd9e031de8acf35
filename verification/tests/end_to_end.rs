//! End-to-end tests: the translated programs run on the real embedded
//! interpreter, prepared exactly as the library's setup plan prescribes,
//! with the print primitive capturing its output.
use std::sync::{Arc, Mutex};

use koda::repl::{repl_read_step, repl_respond, EvalOutcome, ReplAction, ReplStep};
use koda::runtime::{state_setup, trim_line_ending, ScriptError, ScriptValue, SetupStep};
use koda::transpile;

fn to_script_value(v: &rlua::Value) -> ScriptValue {
    match v {
        rlua::Value::Nil => ScriptValue::Nil,
        rlua::Value::Boolean(b) => ScriptValue::Boolean(*b),
        rlua::Value::LightUserData(_) => ScriptValue::LightUserData,
        rlua::Value::Integer(x) => ScriptValue::Integer(*x),
        rlua::Value::Number(x) => ScriptValue::Number(x.to_string()),
        rlua::Value::String(s) => ScriptValue::Str(s.to_str().unwrap().to_string()),
        rlua::Value::Table(_) => ScriptValue::Table,
        rlua::Value::Function(_) => ScriptValue::Function,
        rlua::Value::Thread(_) => ScriptValue::Thread,
        rlua::Value::UserData(_) => ScriptValue::UserData,
        rlua::Value::Error(e) => ScriptValue::Error(e.to_string()),
    }
}

fn to_script_error(e: rlua::Error) -> ScriptError {
    match e {
        rlua::Error::SyntaxError {
            message,
            incomplete_input,
        } => ScriptError::Syntax {
            message,
            incomplete_input,
        },
        rlua::Error::RuntimeError(message) => ScriptError::Runtime(message),
        other => ScriptError::Other(other.to_string()),
    }
}

/// Builds a fresh interpreter state by performing the library's setup plan,
/// with `skriv` writing into a captured buffer and `fråga` answering with the
/// given canned line.
fn build_state(
    args: Option<Vec<String>>,
    canned_input: &'static str,
) -> (rlua::Lua, Arc<Mutex<Vec<String>>>) {
    let lua = rlua::Lua::new();
    let captured: Arc<Mutex<Vec<String>>> = Arc::new(Mutex::new(Vec::new()));
    for step in state_setup(args, "0.0.0") {
        match step {
            SetupStep::Global { name, value } => {
                lua.globals().set(name, value).unwrap();
            }
            SetupStep::ArgsTable { name, values } => {
                let table = lua.create_table().unwrap();
                for (i, v) in values.into_iter().enumerate() {
                    table.set(i + 1, v).unwrap();
                }
                lua.globals().set(name, table).unwrap();
            }
            SetupStep::NativePrint { name } => {
                let sink = captured.clone();
                let f = lua
                    .create_function(move |_, msg: String| {
                        sink.lock().unwrap().push(msg);
                        Ok(())
                    })
                    .unwrap();
                lua.globals().set(name, f).unwrap();
            }
            SetupStep::NativePrompt { name } => {
                let f = lua
                    .create_function(move |_, _msg: String| {
                        Ok(trim_line_ending(canned_input))
                    })
                    .unwrap();
                lua.globals().set(name, f).unwrap();
            }
            SetupStep::NativeOpen { name } => {
                let f = lua.create_function(|_, _s: String| Ok(())).unwrap();
                lua.globals().set(name, f).unwrap();
            }
            SetupStep::NativeTokenDump { name } => {
                let f = lua
                    .create_function(|_, s: String| {
                        let _ = koda::lexer::lex(&s);
                        Ok(())
                    })
                    .unwrap();
                lua.globals().set(name, f).unwrap();
            }
            SetupStep::LoadPrelude { chunk_name, source } => {
                lua.load(source).set_name(chunk_name).exec().unwrap();
            }
        }
    }
    (lua, captured)
}

fn run_program(args: Option<Vec<String>>, source: &str) -> Result<Vec<String>, ScriptError> {
    let (lua, captured) = build_state(args, "");
    let translated = transpile(source);
    lua.load(translated)
        .exec()
        .map_err(to_script_error)?;
    let lines = captured.lock().unwrap().clone();
    Ok(lines)
}

#[test]
fn print_a_string() {
    assert_eq!(run_program(None, "skriv(\"hej\")").unwrap(), vec!["hej"]);
}

#[test]
fn print_a_sum() {
    assert_eq!(
        run_program(None, "lokal x = 2 + 3\nskriv(x)").unwrap(),
        vec!["5"]
    );
}

#[test]
fn numeric_for_loop_prints_three_lines() {
    assert_eq!(
        run_program(None, "för n = 1, 3 gör skriv(n) slut").unwrap(),
        vec!["1", "2", "3"]
    );
}

#[test]
fn swedish_variable_name() {
    assert_eq!(
        run_program(None, "lokal å = 7\nskriv(å)").unwrap(),
        vec!["7"]
    );
}

#[test]
fn parameters_table_is_one_indexed_without_the_file_name() {
    let args = vec![
        "file.kod".to_string(),
        "hej".to_string(),
        "då".to_string(),
    ];
    assert_eq!(
        run_program(Some(args), "skriv(_PARAMETRAR[2])").unwrap(),
        vec!["då"]
    );
}

#[test]
fn keyword_inside_a_string_is_printed_untranslated() {
    assert_eq!(
        run_program(None, "skriv(\"funktion\")").unwrap(),
        vec!["funktion"]
    );
}

#[test]
fn empty_and_comment_only_programs_are_no_ops() {
    assert_eq!(run_program(None, "").unwrap(), Vec::<String>::new());
    assert_eq!(
        run_program(None, "-- bara en kommentar").unwrap(),
        Vec::<String>::new()
    );
}

#[test]
fn comments_do_not_change_behaviour() {
    assert_eq!(
        run_program(None, "skriv(1) -- öka\nskriv(2)").unwrap(),
        run_program(None, "skriv(1)\nskriv(2)").unwrap()
    );
}

#[test]
fn prelude_aliases_work() {
    assert_eq!(
        run_program(None, "skriv(till_str__ae__ng(matte.golv(2.7)))").unwrap(),
        vec!["2"]
    );
}

#[test]
fn prompt_answers_are_trimmed() {
    let (lua, captured) = build_state(None, "ja\r\n");
    lua.load(transpile("skriv(fråga(\"svara\"))"))
        .exec()
        .unwrap();
    assert_eq!(captured.lock().unwrap().clone(), vec!["ja"]);
}

#[test]
fn repl_session() {
    let (lua, _captured) = build_state(None, "");
    // A top-level binding must use a global to survive to later inputs: a
    // `lokal` binding lives only until the end of its own evaluated chunk.
    let mut shown: Vec<String> = Vec::new();
    for line in ["1+1", "x = 5", "x*x"] {
        let step = repl_read_step(line);
        let code = match step {
            ReplStep::Evaluate(code) => code,
            other => panic!("unexpected step {:?}", other),
        };
        let outcome = match lua.load(code).eval::<rlua::MultiValue>() {
            Ok(values) => EvalOutcome::Values(
                values.iter().map(to_script_value).collect(),
            ),
            Err(rlua::Error::SyntaxError {
                incomplete_input: true,
                ..
            }) => EvalOutcome::Incomplete,
            Err(e) => EvalOutcome::Failed(to_script_error(e)),
        };
        match repl_respond(outcome) {
            ReplAction::Show(text) => shown.push(text),
            other => panic!("unexpected action {:?}", other),
        }
    }
    assert_eq!(shown, vec!["2", "", "25"]);
}

#[test]
fn repl_joins_multiple_values_with_tabs() {
    let (lua, _captured) = build_state(None, "");
    let values = lua
        .load(transpile("1, \"två\", ingenting"))
        .eval::<rlua::MultiValue>()
        .unwrap();
    let outcome = EvalOutcome::Values(values.iter().map(to_script_value).collect());
    assert_eq!(
        repl_respond(outcome),
        ReplAction::Show("1\t\"två\"\tingenting".to_string())
    );
}

#[test]
fn repl_keeps_incomplete_input() {
    let (lua, _captured) = build_state(None, "");
    let step = repl_read_step("om sant utför");
    let code = match step {
        ReplStep::Evaluate(code) => code,
        other => panic!("unexpected step {:?}", other),
    };
    let outcome = match lua.load(code).eval::<rlua::MultiValue>() {
        Ok(_) => panic!("evaluation should not succeed"),
        Err(rlua::Error::SyntaxError {
            incomplete_input: true,
            ..
        }) => EvalOutcome::Incomplete,
        Err(e) => EvalOutcome::Failed(to_script_error(e)),
    };
    assert_eq!(repl_respond(outcome), ReplAction::Continue);
}

#[test]
fn unterminated_call_reports_a_swedish_syntax_error() {
    let err = run_program(None, "skriv(").unwrap_err();
    let text = koda::runtime::error_repr(err);
    assert!(text.starts_with("Fel: Det är ett syntax-fel som har uppstått.\n"));
}

#[test]
fn runtime_error_messages_are_demangled() {
    let err = run_program(None, "räknare()").unwrap_err();
    let text = koda::runtime::error_repr(err);
    assert!(text.starts_with("Fel: Det är ett runtime-fel som har uppstått.\n"));
    assert!(text.contains("räknare"));
    assert!(!text.contains("r__ae__knare"));
}
