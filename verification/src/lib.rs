//! A source-to-source translator for a Swedish-localised surface syntax of a
//! small embeddable scripting language: a lexer for the Swedish syntax, a
//! bijective identifier mangler, a token emitter producing host-language
//! source, a Swedish-named prelude, and the pure decision logic of the
//! runtime harness, the diagnostic formatter and the interactive loop.
pub mod chars;
pub mod emit;
pub mod lexer;
pub mod mangle;
pub mod prelude;
pub mod repl;
pub mod runtime;

use vstd::prelude::*;

use crate::emit::emit_tokens;
use crate::emit::spec_transpile;
use crate::lexer::lex;

verus! {

/// Translates Swedish-syntax source text into equivalent host-language
/// source text.  The translation is a pure function of the source text.
pub fn transpile(code: &str) -> (r: String)
    ensures
        r@ == spec_transpile(code@),
{
    let tokens = lex(code);
    emit_tokens(&tokens)
}

} // verus!
