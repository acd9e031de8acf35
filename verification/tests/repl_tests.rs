use koda::repl::{
    repl_read_step, repl_respond, run_command, show_values_joined, valid_extension, EvalOutcome,
    ReplAction, ReplStep,
};
use koda::runtime::{ScriptError, ScriptValue};

const HELP: &str = "För att lära dig mer om Koda, besök https://github.com/adelhult/koda";
const UNKNOWN: &str = "Okänt kommando. Prova ':avsluta' eller ':hjälp'";

#[test]
fn quit_commands() {
    for c in [":q", ":quit", ":a", ":avsluta"] {
        assert_eq!(run_command(c), (0, None));
    }
}

#[test]
fn help_commands() {
    assert_eq!(run_command(":h"), (1, Some(HELP.to_string())));
    assert_eq!(run_command(":hjälp"), (1, Some(HELP.to_string())));
}

#[test]
fn unknown_commands() {
    assert_eq!(run_command(":x"), (1, Some(UNKNOWN.to_string())));
    assert_eq!(run_command(":Quit"), (1, Some(UNKNOWN.to_string())));
}

#[test]
fn read_step_decides_between_commands_and_code() {
    assert_eq!(repl_read_step(":q"), ReplStep::Quit);
    assert_eq!(repl_read_step(":avsluta"), ReplStep::Quit);
    assert_eq!(repl_read_step(":hjälp"), ReplStep::Respond(HELP.to_string()));
    assert_eq!(repl_read_step(":nåt"), ReplStep::Respond(UNKNOWN.to_string()));
    assert_eq!(repl_read_step("1+1"), ReplStep::Evaluate("1 + 1".to_string()));
    assert_eq!(
        repl_read_step("lokal x = 5"),
        ReplStep::Evaluate("local x = 5".to_string())
    );
}

#[test]
fn values_join_with_tabs() {
    assert_eq!(show_values_joined(&vec![]), "");
    assert_eq!(show_values_joined(&vec![ScriptValue::Integer(2)]), "2");
    assert_eq!(
        show_values_joined(&vec![
            ScriptValue::Integer(1),
            ScriptValue::Str("två".to_string()),
            ScriptValue::Nil,
        ]),
        "1\t\"två\"\tingenting"
    );
}

#[test]
fn respond_shows_values() {
    let action = repl_respond(EvalOutcome::Values(vec![ScriptValue::Integer(2)]));
    assert_eq!(action, ReplAction::Show("2".to_string()));
}

#[test]
fn respond_continues_on_incomplete_input() {
    assert_eq!(repl_respond(EvalOutcome::Incomplete), ReplAction::Continue);
}

#[test]
fn respond_formats_errors() {
    let action = repl_respond(EvalOutcome::Failed(ScriptError::Runtime(
        "bad r__ae__knare".to_string(),
    )));
    match action {
        ReplAction::ShowError(text) => {
            assert!(text.contains("räknare"));
            assert!(text.starts_with("Fel:"));
        }
        other => panic!("unexpected action {:?}", other),
    }
}

#[test]
fn only_the_two_source_extensions_are_accepted() {
    assert!(valid_extension("kod"));
    assert!(valid_extension("lua"));
    assert!(!valid_extension("txt"));
    assert!(!valid_extension(""));
    assert!(!valid_extension("KOD"));
}
