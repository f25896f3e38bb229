use vstd::prelude::*;
use vstd::string::StringExecFns;
use crate::ast::BodyNode;
use crate::diagnostics::Diagnostic;
use crate::lexer::{lex, tokens_view, LexError, Lexer};
use crate::parser::{spec_parse, Parser, SyntaxError};
use crate::tokens::{Token, TokenModel};

verus! {

/// Lexes a line typed at the shell.
pub fn analyze_lexically(code: String) -> (r: Result<Vec<Token>, LexError>)
    ensures
        match r {
            Ok(ts) => lex(code@) == Ok::<Seq<TokenModel>, (int, int)>(tokens_view(ts@)),
            Err(e) => lex(code@) == Err::<Seq<TokenModel>, (int, int)>((e.line as int, e.start as int)),
        },
{
    let mut code_lexer = Lexer::new(code);
    code_lexer.get_context().set_code_source(String::from_str("Shell"));
    code_lexer.analyze()
}

/// Lexes and parses a line typed at the shell.
pub fn analyze_syntatically(code: String) -> (r: Result<BodyNode, Diagnostic>)
    ensures
        match r {
            Ok(b) => exists|ts: Seq<Token>|
                lex(code@) == Ok::<Seq<TokenModel>, (int, int)>(tokens_view(ts))
                    && spec_parse(ts) == Ok::<Seq<crate::ast::Node>, SyntaxError>(b@),
            Err(Diagnostic::Lex(e)) => lex(code@) == Err::<Seq<TokenModel>, (int, int)>(
                (e.line as int, e.start as int),
            ),
            Err(Diagnostic::Syntax(e)) => exists|ts: Seq<Token>|
                lex(code@) == Ok::<Seq<TokenModel>, (int, int)>(tokens_view(ts))
                    && spec_parse(ts) == Err::<Seq<crate::ast::Node>, SyntaxError>(e),
        },
{
    let tokens = match analyze_lexically(code) {
        Ok(ts) => ts,
        Err(e) => return Err(Diagnostic::Lex(e)),
    };
    let ghost ts = tokens@;
    let mut code_parser = Parser::new(tokens);
    code_parser.get_context().set_code_source(String::from_str("Shell"));
    match code_parser.parse() {
        Ok(b) => Ok(b),
        Err(e) => Err(Diagnostic::Syntax(e)),
    }
}

} // verus!
