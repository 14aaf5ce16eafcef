//! What can go wrong, and where in the source it did.

use crate::lexer::{run_end, scan_run, CharClass, FileContext, Token};
use crate::text::{chars_of, decimal, push_char, push_decimal, string_of};
use vstd::prelude::*;
use vstd::string::*;

verus! {

/// The place a semantic error is reported at.
#[derive(Debug)]
pub struct SyntaxErrorContext {
    pub filename: String,
    pub line: usize,
    pub line_content: String,
}

/// The kinds of semantic error.
#[derive(Debug, PartialEq, Eq, Clone, Copy, Structural)]
pub enum ErrorKind {
    /// A name that no visible scope binds.
    UndefinedIdentifier,
    /// A call of a name that no visible scope binds to a function.
    UndefinedFunction,
    /// A name that the visible scopes bind more than once.
    AmbiguousBinding,
    /// A second value for a name in the scope that already gave it one.
    ShadowingViolation,
    /// A call whose arguments no function of that name takes.
    SignatureMismatch,
    /// A call whose arguments more than one function of that name takes.
    AmbiguousOverload,
    /// An argument and a parameter type with no size in common.
    TypeSizeMismatch,
    /// A parameter of a type that was never declared.
    UndefinedType,
}

/// A semantic error: its kind, and a message for the reader.
#[derive(Debug)]
pub struct SemanticError {
    pub kind: ErrorKind,
    pub message: String,
}

/// A semantic error as contracts speak of it: its kind and the text of its message.
pub struct Failure {
    pub kind: ErrorKind,
    pub message: Seq<char>,
}

/// Why checking and emitting failed.
#[derive(Debug)]
pub enum CheckError {
    /// The program is wrong, at the given place.
    CompileError(SyntaxErrorContext, SemanticError),
    /// The output could not be written; the text says why.
    EmitError(String),
}

/// Why parsing failed.
#[derive(Debug)]
pub enum ParsingError<'source> {
    /// The source ended inside the named construct; one of the tokens was expected.
    AbruptEof(&'static str, FileContext<'source>, Vec<Token>),
    /// The token cannot stand here in the named construct; one of the others was expected.
    UnexpectedToken(&'static str, FileContext<'source>, Token, Vec<Token>),
    /// The lexer could not make a token.
    TokenError(String),
}

/// Why a compilation as a whole failed.
#[derive(Debug)]
pub enum CompileError<'source> {
    ParsingError(ParsingError<'source>),
    /// Reading or writing failed; the text says why.
    IoError(String),
}

/// Where the line after `skip` line feeds starts, looking from `from`.
pub open spec fn line_start(src: Seq<char>, from: int, skip: nat) -> Option<int>
    decreases skip,
{
    if skip == 0 {
        Some(from)
    } else {
        let end = run_end(src, from, CharClass::LineBody);
        if 0 <= end < src.len() {
            line_start(src, end + 1, (skip - 1) as nat)
        } else {
            None
        }
    }
}

/// A line without the carriage return that may end it.
pub open spec fn without_return(line: Seq<char>) -> Seq<char> {
    if line.len() > 0 && line.last() == '\r' {
        line.drop_last()
    } else {
        line
    }
}

/// The text of a line of the source, counted from 1, without its line ending; empty where
/// the source has no such line.
pub open spec fn line_text(src: Seq<char>, line: nat) -> Seq<char> {
    if line == 0 {
        Seq::empty()
    } else {
        match line_start(src, 0, (line - 1) as nat) {
            Some(start) => without_return(
                src.subrange(start, run_end(src, start, CharClass::LineBody)),
            ),
            None => Seq::empty(),
        }
    }
}

/// The text of a semantic error with its place:
/// `[Compile Error]<file line> message`, then the line itself in quotes.
pub open spec fn check_error_text(
    filename: Seq<char>,
    line: usize,
    line_content: Seq<char>,
    message: Seq<char>,
) -> Seq<char> {
    "[Compile Error]<"@ + filename + " "@ + decimal(line as nat) + "> "@ + message + "\n\t\""@
        + line_content + "\""@
}

/// The text of a token as error messages show it.
pub open spec fn token_name(token: Token) -> Seq<char> {
    match token {
        Token::Ident => "Ident"@,
        Token::Int(value) => "Int("@ + decimal(value as nat) + ")"@,
        Token::KeywordFn => "KeywordFn"@,
        Token::KeywordType => "KeywordType"@,
        Token::String => "String"@,
        Token::Newline => "Newline"@,
        Token::DocComment => "DocComment"@,
        Token::Comment => "Comment"@,
        Token::Symbol(c) => "Symbol('"@ + seq![c] + "')"@,
    }
}

/// The names of the tokens `tokens[..upto]`, with `, ` between them.
pub open spec fn token_names(tokens: Seq<Token>, upto: nat) -> Seq<char>
    decreases upto,
{
    if upto == 0 || upto > tokens.len() {
        Seq::empty()
    } else if upto == 1 {
        token_name(tokens[0])
    } else {
        token_names(tokens, (upto - 1) as nat) + ", "@ + token_name(tokens[upto - 1])
    }
}

/// The place of a parsing error: `file@line`.
pub open spec fn place_text(context: FileContext) -> Seq<char> {
    context.filename@ + "@"@ + decimal(context.line as nat)
}

impl<'source> ParsingError<'source> {
    /// The text of the error.
    pub open spec fn text(self) -> Seq<char> {
        match self {
            ParsingError::AbruptEof(what, context, expected) => "AbruptEof(expected one of ["@
                + token_names(expected@, expected.len() as nat) + "] at "@ + place_text(context)
                + "): "@ + what@,
            ParsingError::UnexpectedToken(what, context, token, expected) => "UnexpectedToken("@
                + token_name(token) + ", expected one of <["@ + token_names(
                expected@,
                expected.len() as nat,
            ) + "]> at "@ + place_text(context) + "): "@ + what@,
            ParsingError::TokenError(error) => "TokenError("@ + error@ + ")"@,
        }
    }

    /// The text of the error.
    pub fn to_text(&self) -> (res: String)
        ensures
            res@ == self.text(),
    {
        let mut out = String::new();
        match self {
            ParsingError::AbruptEof(what, context, expected) => {
                out.append("AbruptEof(expected one of [");
                push_token_names(&mut out, expected);
                out.append("] at ");
                push_place(&mut out, context);
                out.append("): ");
                out.append(what);
            },
            ParsingError::UnexpectedToken(what, context, token, expected) => {
                out.append("UnexpectedToken(");
                push_token_name(&mut out, *token);
                out.append(", expected one of <[");
                push_token_names(&mut out, expected);
                out.append("]> at ");
                push_place(&mut out, context);
                out.append("): ");
                out.append(what);
            },
            ParsingError::TokenError(error) => {
                out.append("TokenError(");
                out.append(error.as_str());
                out.append(")");
            },
        }
        assert(out@ =~= self.text());
        out
    }
}

impl<'source> CompileError<'source> {
    /// The text of the error.
    pub open spec fn text(self) -> Seq<char> {
        match self {
            CompileError::ParsingError(error) => error.text(),
            CompileError::IoError(error) => error@,
        }
    }

    /// The text of the error.
    pub fn to_text(&self) -> (res: String)
        ensures
            res@ == self.text(),
    {
        match self {
            CompileError::ParsingError(error) => error.to_text(),
            CompileError::IoError(error) => error.clone(),
        }
    }
}

impl CheckError {
    /// The text of the error.
    pub open spec fn text(self) -> Seq<char> {
        match self {
            CheckError::CompileError(context, error) => check_error_text(
                context.filename@,
                context.line,
                context.line_content@,
                error.message@,
            ),
            CheckError::EmitError(error) => error@,
        }
    }

    /// Whether this is the semantic error of the given kind and message, reported at
    /// the line that the file context stands at.
    pub open spec fn is_semantic(self, place: FileContext, failure: Failure) -> bool {
        &&& self matches CheckError::CompileError(context, error)
        &&& context.filename@ == place.filename@
        &&& context.line == place.line
        &&& context.line_content@ == line_text(place.source@, place.line as nat)
        &&& error.kind == failure.kind
        &&& error.message@ == failure.message
    }

    /// The text of the error.
    pub fn to_text(&self) -> (res: String)
        ensures
            res@ == self.text(),
    {
        match self {
            CheckError::CompileError(context, error) => {
                let mut out = String::new();
                out.append("[Compile Error]<");
                out.append(context.filename.as_str());
                out.append(" ");
                push_decimal(&mut out, context.line as u64);
                out.append("> ");
                out.append(error.message.as_str());
                out.append("\n\t\"");
                out.append(context.line_content.as_str());
                out.append("\"");
                assert(out@ =~= self.text());
                out
            },
            CheckError::EmitError(error) => error.clone(),
        }
    }

    /// The kind of the semantic error; none for a failure to write.
    pub fn kind(&self) -> (res: Option<ErrorKind>)
        ensures
            res == match *self {
                CheckError::CompileError(_, error) => Some(error.kind),
                CheckError::EmitError(_) => None,
            },
    {
        match self {
            CheckError::CompileError(_, error) => Some(error.kind),
            CheckError::EmitError(_) => None,
        }
    }
}

fn push_token_name(out: &mut String, token: Token)
    ensures
        final(out)@ == old(out)@ + token_name(token),
{
    match token {
        Token::Ident => out.append("Ident"),
        Token::Int(value) => {
            out.append("Int(");
            push_decimal(out, value as u64);
            out.append(")");
        },
        Token::KeywordFn => out.append("KeywordFn"),
        Token::KeywordType => out.append("KeywordType"),
        Token::String => out.append("String"),
        Token::Newline => out.append("Newline"),
        Token::DocComment => out.append("DocComment"),
        Token::Comment => out.append("Comment"),
        Token::Symbol(c) => {
            out.append("Symbol('");
            push_char(out, c);
            out.append("')");
        },
    }
    assert(out@ =~= old(out)@ + token_name(token));
}

fn push_token_names(out: &mut String, tokens: &Vec<Token>)
    ensures
        final(out)@ == old(out)@ + token_names(tokens@, tokens.len() as nat),
{
    let mut i: usize = 0;
    assert(out@ =~= old(out)@ + token_names(tokens@, 0));
    while i < tokens.len()
        invariant
            i <= tokens.len(),
            out@ == old(out)@ + token_names(tokens@, i as nat),
        decreases tokens.len() - i,
    {
        if i > 0 {
            out.append(", ");
        }
        push_token_name(out, tokens[i]);
        i = i + 1;
        assert(out@ =~= old(out)@ + token_names(tokens@, i as nat));
    }
}

fn push_place(out: &mut String, context: &FileContext)
    ensures
        final(out)@ == old(out)@ + place_text(*context),
{
    out.append(context.filename.as_str());
    out.append("@");
    push_decimal(out, context.line as u64);
    assert(out@ =~= old(out)@ + place_text(*context));
}

/// The text of a line of the source, counted from 1.
pub fn line_of(source: &str, line: usize) -> (res: String)
    ensures
        res@ == line_text(source@, line as nat),
{
    if line == 0 {
        return String::new();
    }
    let chars = chars_of(source);
    let mut start: usize = 0;
    let mut skip: usize = line - 1;
    while skip > 0
        invariant
            start <= chars.len(),
            line >= 1,
            chars@ == source@,
            line_start(chars@, 0, (line - 1) as nat) == line_start(
                chars@,
                start as int,
                skip as nat,
            ),
        decreases skip,
    {
        let end: usize = scan_run(&chars, start, CharClass::LineBody);
        if end < chars.len() {
            start = end + 1;
            skip = skip - 1;
        } else {
            return String::new();
        }
    }
    let end: usize = scan_run(&chars, start, CharClass::LineBody);
    let ghost whole = chars@.subrange(start as int, end as int);
    if end > start && chars[end - 1] == '\r' {
        assert(whole.drop_last() =~= chars@.subrange(start as int, end as int - 1));
        string_of(&chars, start, end - 1)
    } else {
        string_of(&chars, start, end)
    }
}

/// A semantic error of the given kind, reported at the line that the file context
/// stands at, with the text of that line.
pub fn semantic_error(context: &FileContext, kind: ErrorKind, msg: String) -> (error: CheckError)
    ensures
        error.is_semantic(*context, Failure { kind, message: msg@ }),
{
    CheckError::CompileError(
        SyntaxErrorContext {
            filename: context.filename.clone(),
            line: context.line,
            line_content: line_of(context.source, context.line),
        },
        SemanticError { kind, message: msg },
    )
}

/// The failure of a check: always `Err`, with the semantic error of the given kind at
/// the line that the file context stands at.
pub fn report_error<T>(context: &FileContext, kind: ErrorKind, msg: String) -> (res: Result<
    T,
    CheckError,
>)
    ensures
        res matches Err(error) && error.is_semantic(*context, Failure { kind, message: msg@ }),
{
    Err(semantic_error(context, kind, msg))
}

} // verus!
