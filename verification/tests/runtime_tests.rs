use koda::prelude::get_prelude;
use koda::runtime::{
    error_repr, int_to_string, show_swedish_values, state_setup, trim_line_ending, ScriptError,
    ScriptValue, SetupStep,
};

#[test]
fn integers_render_as_decimal_text() {
    assert_eq!(int_to_string(0), "0");
    assert_eq!(int_to_string(7), "7");
    assert_eq!(int_to_string(-1), "-1");
    assert_eq!(int_to_string(123456), "123456");
    assert_eq!(int_to_string(i64::MAX), "9223372036854775807");
    assert_eq!(int_to_string(i64::MIN), "-9223372036854775808");
}

#[test]
fn values_display_in_swedish() {
    assert_eq!(show_swedish_values(&ScriptValue::Nil), "ingenting");
    assert_eq!(show_swedish_values(&ScriptValue::Boolean(false)), "falskt");
    assert_eq!(show_swedish_values(&ScriptValue::Boolean(true)), "sant");
    assert_eq!(show_swedish_values(&ScriptValue::Integer(25)), "25");
    assert_eq!(
        show_swedish_values(&ScriptValue::Number("2.5".to_string())),
        "2.5"
    );
    assert_eq!(
        show_swedish_values(&ScriptValue::Str("hej".to_string())),
        "\"hej\""
    );
    assert_eq!(show_swedish_values(&ScriptValue::Table), "tabell");
    assert_eq!(show_swedish_values(&ScriptValue::Function), "funktion");
    assert_eq!(show_swedish_values(&ScriptValue::Thread), "tråd");
    assert_eq!(show_swedish_values(&ScriptValue::UserData), "userData");
    assert_eq!(
        show_swedish_values(&ScriptValue::LightUserData),
        "pekare (Light user data)"
    );
    assert_eq!(
        show_swedish_values(&ScriptValue::Error("fel i r__ae__knare".to_string())),
        "fel i räknare"
    );
}

#[test]
fn syntax_errors_get_the_swedish_preamble() {
    let text = error_repr(ScriptError::Syntax {
        message: "unexpected symbol near <eof>".to_string(),
        incomplete_input: true,
    });
    assert!(text.starts_with("Fel: Det är ett syntax-fel som har uppstått.\n"));
    assert!(text.ends_with("unexpected symbol near <eof>"));
}

#[test]
fn runtime_errors_demangle_identifiers() {
    let text = error_repr(ScriptError::Runtime(
        "attempt to call a nil value (global 'r__ae__knare')".to_string(),
    ));
    assert!(text.starts_with("Fel: Det är ett runtime-fel som har uppstått.\n"));
    assert!(text.contains("räknare"));
    assert!(!text.contains("r__ae__knare"));
}

#[test]
fn other_errors_get_the_generic_preamble() {
    let text = error_repr(ScriptError::Other("callback error".to_string()));
    assert!(text.starts_with("Fel: Här är en text på engelska där felet förklaras: \n"));
    assert!(text.ends_with("callback error"));
}

#[test]
fn state_setup_with_arguments() {
    let args = vec![
        "file.kod".to_string(),
        "hej".to_string(),
        "då".to_string(),
    ];
    let steps = state_setup(Some(args), "1.2.3");
    assert_eq!(steps.len(), 8);
    assert_eq!(
        steps[0],
        SetupStep::Global {
            name: "_FILNAMN".to_string(),
            value: "file.kod".to_string(),
        }
    );
    assert_eq!(
        steps[1],
        SetupStep::ArgsTable {
            name: "_PARAMETRAR".to_string(),
            values: vec!["hej".to_string(), "då".to_string()],
        }
    );
    assert_eq!(
        steps[2],
        SetupStep::Global {
            name: "_KODA_VERSION".to_string(),
            value: "Koda 1.2.3".to_string(),
        }
    );
    assert_eq!(steps[3], SetupStep::NativePrint { name: "skriv".to_string() });
    assert_eq!(steps[4], SetupStep::NativePrompt { name: "fr__ao__ga".to_string() });
    assert_eq!(steps[5], SetupStep::NativeOpen { name: "__oe__ppna".to_string() });
    assert_eq!(steps[6], SetupStep::NativeTokenDump { name: "_TOKENS".to_string() });
    assert_eq!(
        steps[7],
        SetupStep::LoadPrelude {
            chunk_name: "Koda prelude".to_string(),
            source: get_prelude().to_string(),
        }
    );
}

#[test]
fn state_setup_without_arguments() {
    let steps = state_setup(None, "1.2.3");
    assert_eq!(steps.len(), 6);
    assert_eq!(
        steps[0],
        SetupStep::Global {
            name: "_KODA_VERSION".to_string(),
            value: "Koda 1.2.3".to_string(),
        }
    );
}

#[test]
fn prompt_lines_lose_one_line_ending() {
    assert_eq!(trim_line_ending("svar\n"), "svar");
    assert_eq!(trim_line_ending("svar\r\n"), "svar");
    assert_eq!(trim_line_ending("svar"), "svar");
    assert_eq!(trim_line_ending(""), "");
    assert_eq!(trim_line_ending("\n"), "");
    assert_eq!(trim_line_ending("svar\n\n"), "svar\n");
}

#[test]
fn prelude_defines_swedish_aliases() {
    let prelude = get_prelude();
    assert!(prelude.contains("skriv") || prelude.contains("matte"));
    assert!(prelude.contains("matte.golv = math.floor"));
    assert!(prelude.contains("str__ae__ng.versaler = string.upper"));
    assert!(prelude.contains("os.tid = os.time"));
}
