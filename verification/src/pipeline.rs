//! One compilation from end to end: source text to tree, tree to emitted text.

use crate::ast::{Ast, Type};
use crate::binding::build_program;
use crate::emit::emit_program;
use crate::errors::{CheckError, ParsingError};
use crate::lexer::{FileContext, Token};
use crate::parser::{last_line, lexed, parse_program, reports_in, steps, Lexed, Parser};
use crate::scope::{Binding, CompilationState, Known, ProgramContext};
use vstd::prelude::*;

verus! {

/// Whether `res` is the tree that the grammar makes of these tokens, or the error it
/// fails with, given that the tokens are those of the input.
pub open spec fn parses<'source>(
    toks: Seq<Lexed>,
    input: &'source str,
    file_context: FileContext<'source>,
    res: Result<Ast, ParsingError<'source>>,
) -> bool {
    &&& lexed(toks, input@, steps(input@, 0, file_context.line, Seq::empty()))
    &&& match parse_program(toks) {
        Ok(views) => res matches Ok(ast) && ast@ == views,
        Err(failure) => res matches Err(error) && reports_in(
            error,
            failure,
            toks,
            file_context.filename@,
            file_context.source,
            last_line(input@, 0, file_context.line),
        ),
    }
}

/// The tree of a source text: the text is split into tokens, and the grammar takes
/// the tokens or fails at the first token that it cannot take. Lines are counted from
/// the line of the file context on.
pub fn get_ast<'source>(input: &'source str, file_context: FileContext<'source>) -> (res: Result<
    Ast,
    ParsingError<'source>,
>)
    ensures
        exists|toks: Seq<Lexed>| #[trigger] parses(toks, input, file_context, res),
{
    let lexer = Token::lexer_with_extras(input, file_context);
    let mut parser = Parser::new(lexer);
    let ghost toks = parser.tokens();
    let res = parser.parse();
    assert(parses(toks, input, file_context, res));
    res
}

/// What the build pass knows of a program that it walked from nothing.
pub open spec fn built_from_nothing<'a>(ast: &'a Ast) -> Known<'a> {
    let built = build_program(ast, Seq::<Binding<'a>>::empty(), Map::<Seq<char>, Type>::empty());
    Known { entries: built.entries, types: built.types }
}

/// Compiles a tree: the build pass walks it from a context without symbols and types,
/// and the emit pass checks it against what was found and returns the text. The result
/// depends on the tree and the file context alone.
pub fn expand<'a>(ast: &'a Ast, file_context: FileContext<'a>) -> (res: Result<String, CheckError>)
    ensures
        match emit_program(*ast, built_from_nothing(ast)) {
            Ok(text) => res matches Ok(out) && out@ == text,
            Err(failure) => res matches Err(error) && error.is_semantic(file_context, failure),
        },
{
    let mut state = CompilationState::new();
    let mut ctx = ProgramContext::new(file_context);
    ast.build_context(&mut ctx, &mut state);
    assert(ctx@ == built_from_nothing(ast));
    ast.check_and_emit(&ctx, &mut state)
}

} // verus!
