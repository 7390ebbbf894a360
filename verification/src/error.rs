//! The three error kinds of the interpreter, each carrying a free-form
//! descriptive message.

use vstd::prelude::*;

verus! {

/// An error from one of the interpreter's stages.
///
/// `Lexer` is reserved for malformed literals and is currently never produced;
/// `Parser` reports mismatched parentheses; `Eval` reports every runtime
/// failure (undefined variables, arity mismatches, applying a value that is
/// not a procedure, malformed special forms).
#[derive(Debug, PartialEq)]
pub enum LispError {
    Lexer(String),
    Parser(String),
    Eval(String),
}

/// The rendered form of an error: its kind, then its message in backquotes.
pub open spec fn spec_message(e: LispError) -> Seq<char> {
    match e {
        LispError::Lexer(m) => "Lexer error: `"@ + m@ + "`"@,
        LispError::Parser(m) => "Parser error: `"@ + m@ + "`"@,
        LispError::Eval(m) => "Eval error: `"@ + m@ + "`"@,
    }
}

impl LispError {
    /// Renders the error as the `kind: message` line the REPL shows.
    pub fn message(&self) -> (r: String)
        ensures
            r@ == spec_message(*self),
    {
        let mut r = match self {
            LispError::Lexer(_) => String::from_str("Lexer error: `"),
            LispError::Parser(_) => String::from_str("Parser error: `"),
            LispError::Eval(_) => String::from_str("Eval error: `"),
        };
        match self {
            LispError::Lexer(m) => r.append(m.as_str()),
            LispError::Parser(m) => r.append(m.as_str()),
            LispError::Eval(m) => r.append(m.as_str()),
        }
        r.append("`");
        r
    }
}

} // verus!
