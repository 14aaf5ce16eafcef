//! The grammar: from the tokens of a source text to its syntax tree.

use crate::ast::{
    exprs_view,
    lemma_exprs_view_push,
    lemma_params_view_push,
    lemma_tokens_view_push,
    name_view,
    params_view,
    tokens_view,
    Assign,
    Ast,
    Expr,
    ExprView,
    FnCall,
    FnDef,
    FnSignature,
    Ident,
    ListContent,
    Param,
    ParamExpr,
    ParamView,
    RawToken,
    SmallValue,
    TokenView,
    Type,
};
use crate::byte_size::ByteSize;
use crate::errors::ParsingError;
use crate::lexer::{lemma_next_token_bounds, next_token, FileContext, Lexer, Step, Token};
use crate::text::{decimal, push_decimal};
use vstd::prelude::*;
use vstd::string::*;

verus! {

/// A token with its text and the line that the lexer stood at after it.
#[derive(Debug)]
pub struct Lexed {
    pub token: Result<Token, ()>,
    pub slice: String,
    pub line: usize,
}

/// What the lexer hands out from `at` on, step by step, behind the steps in `done`.
pub open spec fn steps(src: Seq<char>, at: int, line: usize, done: Seq<Step>) -> Seq<Step>
    decreases src.len() - at,
{
    let step = next_token(src, at, line);
    if step.token is Some && at < step.end <= src.len() {
        steps(src, step.end, step.line, done.push(step))
    } else {
        done
    }
}

/// The line that the lexer stands at when it has read the source to its end.
pub open spec fn last_line(src: Seq<char>, at: int, line: usize) -> usize
    decreases src.len() - at,
{
    let step = next_token(src, at, line);
    if step.token is Some && at < step.end <= src.len() {
        last_line(src, step.end, step.line)
    } else {
        step.line
    }
}

/// Whether the tokens are what the steps of the lexer found: the same tokens with the
/// same text, on the same lines.
pub open spec fn lexed(tokens: Seq<Lexed>, src: Seq<char>, found: Seq<Step>) -> bool {
    &&& tokens.len() == found.len()
    &&& forall|i: int|
        0 <= i < tokens.len() ==> {
            &&& Some((#[trigger] tokens[i]).token) == found[i].token
            &&& tokens[i].slice@ == src.subrange(found[i].start, found[i].end)
            &&& tokens[i].line == found[i].line
        }
}

/// Why the grammar does not take the tokens, as contracts speak of it.
pub enum ParseFailure {
    /// The tokens end at `at` inside the named construct.
    AbruptEof { what: Seq<char>, at: int, expected: Seq<Token> },
    /// The token at `at` cannot stand in the named construct.
    UnexpectedToken { what: Seq<char>, at: int, token: Token, expected: Seq<Token> },
    /// The lexer could not make the token at `at`.
    TokenError { at: int },
}

/// The token at a place, if there is one.
pub open spec fn kind(toks: Seq<Lexed>, at: int) -> Option<Result<Token, ()>> {
    if 0 <= at < toks.len() {
        Some(toks[at].token)
    } else {
        None
    }
}

/// The text of the token at a place.
pub open spec fn text_at(toks: Seq<Lexed>, at: int) -> Seq<char>
    recommends
        0 <= at < toks.len(),
{
    toks[at].slice@
}

/// The line of the token at a place; the last line of the source beyond the tokens.
pub open spec fn line_at(toks: Seq<Lexed>, at: int, last: usize) -> usize {
    if 0 <= at < toks.len() {
        toks[at].line
    } else {
        last
    }
}

/// The failure of a construct at a place where it expected one of the given tokens.
pub open spec fn failure_at(toks: Seq<Lexed>, at: int, what: Seq<char>, expected: Seq<Token>) -> ParseFailure {
    match kind(toks, at) {
        Some(Ok(token)) => ParseFailure::UnexpectedToken { what, at, token, expected },
        Some(Err(_)) => ParseFailure::TokenError { at },
        None => ParseFailure::AbruptEof { what, at, expected },
    }
}

/// Whether the place is in the named file with the given source, at the given line.
pub open spec fn is_place(place: FileContext, filename: Seq<char>, source: &str, line: usize) -> bool {
    place.filename@ == filename && place.source == source && place.line == line
}

/// Whether the error tells of the failure in the named file, with the line of the
/// token it happened at; `last` is the line that the source ends on.
pub open spec fn reports_in(
    error: ParsingError,
    failure: ParseFailure,
    toks: Seq<Lexed>,
    filename: Seq<char>,
    source: &str,
    last: usize,
) -> bool {
    match failure {
        ParseFailure::AbruptEof { what, at, expected } => {
            &&& error matches ParsingError::AbruptEof(w, place, e)
            &&& w@ == what
            &&& e@ == expected
            &&& is_place(place, filename, source, line_at(toks, at, last))
        },
        ParseFailure::UnexpectedToken { what, at, token, expected } => {
            &&& error matches ParsingError::UnexpectedToken(w, place, t, e)
            &&& w@ == what
            &&& t == token
            &&& e@ == expected
            &&& is_place(place, filename, source, line_at(toks, at, last))
        },
        ParseFailure::TokenError { at } => {
            &&& error matches ParsingError::TokenError(message)
            &&& message@ == "Lexer error in "@ + filename + "@"@ + decimal(
                line_at(toks, at, last) as nat,
            )
        },
    }
}

/// Whether the error tells of the failure in the file of the context, whose line is
/// the line that the source ends on.
pub open spec fn reports(
    error: ParsingError,
    failure: ParseFailure,
    toks: Seq<Lexed>,
    context: FileContext,
) -> bool {
    reports_in(error, failure, toks, context.filename@, context.source, context.line)
}

/// The raw token that a token of the lexer stands for: a name for an identifier and
/// for a keyword, an untyped integer for a number, the string for a string, the
/// character for a symbol.
pub open spec fn from_token_view(token: Token, slice: Seq<char>) -> TokenView {
    match token {
        Token::Ident => TokenView::Ident(slice),
        Token::KeywordFn => TokenView::Ident(slice),
        Token::KeywordType => TokenView::Ident(slice),
        Token::Int(value) => TokenView::Expr(
            Box::new(ExprView::SmallValue(SmallValue::Untyped(value as u64))),
        ),
        Token::String => TokenView::Expr(Box::new(ExprView::StringSlice(slice))),
        Token::Symbol(c) => TokenView::Symbol(c),
        Token::Newline => TokenView::Symbol('\n'),
        Token::DocComment => TokenView::Symbol('|'),
        Token::Comment => TokenView::Symbol('|'),
    }
}

/// The tokens that a type may start with.
pub open spec fn type_start() -> Seq<Token> {
    seq![Token::Int(0)]
}

/// The tokens that an expression may start with.
pub open spec fn expr_start() -> Seq<Token> {
    seq![Token::Symbol('('), Token::Ident, Token::Int(0), Token::String, Token::KeywordFn]
}

/// The tokens that may stand in a list.
pub open spec fn list_start() -> Seq<Token> {
    seq![
        Token::Symbol(','),
        Token::Symbol(']'),
        Token::Symbol('}'),
        Token::Ident,
        Token::Int(0),
        Token::String,
        Token::KeywordFn,
    ]
}

/// A type: the word `type` was read, a size follows.
pub open spec fn parse_type(toks: Seq<Lexed>, at: int) -> Result<(Type, int), ParseFailure> {
    match kind(toks, at) {
        Some(Ok(Token::Int(size))) => Ok(
            (Type { size: ByteSize::Exact(size as usize), predicate: None }, at + 1),
        ),
        _ => Err(failure_at(toks, at, "type"@, type_start())),
    }
}

/// The end of a parameter: `]`.
pub open spec fn parse_param_end(
    toks: Seq<Lexed>,
    at: int,
    name: Option<Seq<char>>,
    typename: Option<Seq<char>>,
) -> Result<(ParamView, int), ParseFailure> {
    match kind(toks, at) {
        Some(Ok(Token::Symbol(']'))) => Ok((ParamView::ParamExpr { name, typename }, at + 1)),
        _ => Err(failure_at(toks, at, "param"@, seq![Token::Symbol(']')])),
    }
}

/// The type of a parameter: nothing, or `:` and a name; then `]`.
pub open spec fn parse_param_type(toks: Seq<Lexed>, at: int, name: Option<Seq<char>>) -> Result<
    (ParamView, int),
    ParseFailure,
> {
    match kind(toks, at) {
        Some(Ok(Token::Symbol(']'))) => parse_param_end(toks, at, name, None),
        Some(Ok(Token::Symbol(':'))) => match kind(toks, at + 1) {
            Some(Ok(Token::Ident)) => parse_param_end(
                toks,
                at + 2,
                name,
                Some(text_at(toks, at + 1)),
            ),
            _ => Err(failure_at(toks, at + 1, "param"@, seq![Token::Ident])),
        },
        _ => Err(failure_at(toks, at, "param"@, seq![Token::Symbol(':'), Token::Symbol(']')])),
    }
}

/// A parameter that takes a value: `[` was read; a name, or none, then its type.
pub open spec fn parse_param(toks: Seq<Lexed>, at: int) -> Result<(ParamView, int), ParseFailure> {
    match kind(toks, at) {
        Some(Ok(Token::Ident)) => parse_param_type(toks, at + 1, Some(text_at(toks, at))),
        Some(Ok(Token::Symbol(':'))) => parse_param_type(toks, at, None),
        Some(Ok(Token::Symbol(']'))) => parse_param_type(toks, at, None),
        _ => Err(
            failure_at(
                toks,
                at,
                "param"@,
                seq![Token::Ident, Token::Symbol(':'), Token::Symbol(']')],
            ),
        ),
    }
}

/// The parameters of a function, behind those in `done`: up to `{`; `[` opens
/// a parameter that takes a value, every other token is a literal, a `,` is an error.
/// Where the tokens end, so do the parameters.
pub open spec fn parse_params(toks: Seq<Lexed>, at: int, done: Seq<ParamView>) -> Result<
    (Seq<ParamView>, int),
    ParseFailure,
>
    decreases toks.len() - at,
{
    match kind(toks, at) {
        Some(Ok(Token::Symbol('{'))) => Ok((done, at + 1)),
        Some(Ok(Token::Symbol(','))) => Err(
            failure_at(toks, at, "params"@, seq![Token::Symbol('{')]),
        ),
        Some(Ok(Token::Symbol('['))) => match parse_param(toks, at + 1) {
            Err(failure) => Err(failure),
            Ok((param, next)) => if at < next <= toks.len() {
                parse_params(toks, next, done.push(param))
            } else {
                Ok((done, at))
            },
        },
        Some(Ok(token)) => parse_params(
            toks,
            at + 1,
            done.push(ParamView::LiteralMatcher(from_token_view(token, text_at(toks, at)))),
        ),
        _ => Ok((done, at)),
    }
}

/// The arguments of a call, behind those in `done`: up to and including `,`; an
/// expression in parentheses is one argument, every other token is one by itself.
/// Where the tokens end, so do the arguments.
pub open spec fn parse_args(toks: Seq<Lexed>, at: int, done: Seq<TokenView>) -> Result<
    (Seq<TokenView>, int),
    ParseFailure,
>
    decreases toks.len() - at, 0nat,
{
    match kind(toks, at) {
        Some(Ok(Token::Symbol(','))) => Ok((done, at + 1)),
        Some(Ok(Token::Symbol('('))) => match parse_expr(toks, at + 1) {
            Err(failure) => Err(failure),
            Ok((expr, next)) => match kind(toks, next) {
                Some(Ok(Token::Symbol(')'))) => if at < next {
                    parse_args(toks, next + 1, done.push(TokenView::Expr(Box::new(expr))))
                } else {
                    Ok((done, at))
                },
                _ => Err(failure_at(toks, next, "ArgumentList"@, seq![Token::Symbol(')')])),
            },
        },
        Some(Ok(token)) => parse_args(
            toks,
            at + 1,
            done.push(from_token_view(token, text_at(toks, at))),
        ),
        _ => Ok((done, at)),
    }
}

/// An expression: a number, a string, `type` and a size, `fn` with parameters and
/// a body, a name with `=` and a value, or a name with arguments. An opening
/// parenthesis before it is passed over.
pub open spec fn parse_expr(toks: Seq<Lexed>, at: int) -> Result<(ExprView, int), ParseFailure>
    decreases toks.len() - at, 1nat,
{
    match kind(toks, at) {
        Some(Ok(Token::Symbol('('))) => parse_expr(toks, at + 1),
        Some(Ok(Token::Ident)) => match kind(toks, at + 1) {
            Some(Ok(Token::Symbol('='))) => match parse_expr(toks, at + 2) {
                Err(failure) => Err(failure),
                Ok((value, end)) => Ok(
                    (ExprView::Assign { name: text_at(toks, at), value: Box::new(value) }, end),
                ),
            },
            Some(Err(_)) => Err(ParseFailure::TokenError { at: at + 1 }),
            _ => match parse_args(toks, at + 1, Seq::empty()) {
                Err(failure) => Err(failure),
                Ok((args, end)) => Ok((ExprView::FnCall { name: text_at(toks, at), args }, end)),
            },
        },
        Some(Ok(Token::Int(value))) => Ok((ExprView::SmallValue(SmallValue::DWord(value)), at + 1)),
        Some(Ok(Token::String)) => Ok((ExprView::StringSlice(text_at(toks, at)), at + 1)),
        Some(Ok(Token::KeywordFn)) => match parse_params(toks, at + 1, Seq::empty()) {
            Err(failure) => Err(failure),
            Ok((params, next)) => if at < next <= toks.len() {
                match parse_list(toks, next, Seq::empty()) {
                    Err(failure) => Err(failure),
                    Ok((body, end)) => Ok((ExprView::FnDef { params, body }, end)),
                }
            } else {
                Ok((ExprView::FnDef { params, body: Seq::empty() }, at + 1))
            },
        },
        Some(Ok(Token::KeywordType)) => match parse_type(toks, at + 1) {
            Err(failure) => Err(failure),
            Ok((ty, end)) => Ok((ExprView::Type(ty), end)),
        },
        _ => Err(failure_at(toks, at, "expr"@, expr_start())),
    }
}

/// The tokens that a raw token may start with.
pub open spec fn token_start() -> Seq<Token> {
    seq![Token::String, Token::Int(0), Token::Ident, Token::KeywordFn, Token::Symbol('(')]
}

/// One raw token: an expression behind an opening parenthesis, or else the token
/// that stands there, whatever it is.
pub open spec fn parse_token(toks: Seq<Lexed>, at: int) -> Result<(TokenView, int), ParseFailure> {
    match kind(toks, at) {
        Some(Ok(Token::Symbol('('))) => match parse_expr(toks, at) {
            Err(failure) => Err(failure),
            Ok((expr, end)) => Ok((TokenView::Expr(Box::new(expr)), end)),
        },
        Some(Ok(token)) => Ok((from_token_view(token, text_at(toks, at)), at + 1)),
        _ => Err(failure_at(toks, at, "raw_token"@, token_start())),
    }
}

/// Whether an expression may start with the token.
pub open spec fn starts_expr(token: Token) -> bool {
    token == Token::Ident || token is Int || token == Token::String || token == Token::KeywordFn
        || token == Token::KeywordType
}

/// The expressions of a list, behind those in `done`: up to and including `]` or `}`,
/// or the end of the tokens; a `,` between them is passed over.
pub open spec fn parse_list(toks: Seq<Lexed>, at: int, done: Seq<ExprView>) -> Result<
    (Seq<ExprView>, int),
    ParseFailure,
>
    decreases toks.len() - at, 2nat,
{
    match kind(toks, at) {
        None => Ok((done, at)),
        Some(Ok(Token::Symbol(','))) => parse_list(toks, at + 1, done),
        Some(Ok(Token::Symbol(']'))) => Ok((done, at + 1)),
        Some(Ok(Token::Symbol('}'))) => Ok((done, at + 1)),
        Some(Ok(token)) => if starts_expr(token) {
            match parse_expr(toks, at) {
                Err(failure) => Err(failure),
                Ok((expr, next)) => if at < next <= toks.len() {
                    parse_list(toks, next, done.push(expr))
                } else {
                    Ok((done.push(expr), at))
                },
            }
        } else {
            Err(failure_at(toks, at, "listcontent"@, list_start()))
        },
        Some(Err(_)) => Err(failure_at(toks, at, "listcontent"@, list_start())),
    }
}

/// A program that starts at the given token: a list.
pub open spec fn parse_program_from(toks: Seq<Lexed>, at: int) -> Result<
    Seq<ExprView>,
    ParseFailure,
> {
    match parse_list(toks, at, Seq::empty()) {
        Err(failure) => Err(failure),
        Ok((elements, _)) => Ok(elements),
    }
}

/// A whole program: a list from the first token on.
pub open spec fn parse_program(toks: Seq<Lexed>) -> Result<Seq<ExprView>, ParseFailure> {
    parse_program_from(toks, 0)
}

/// A parameter ends behind where it starts, within the tokens.
pub proof fn lemma_param_moves(toks: Seq<Lexed>, at: int)
    requires
        0 <= at,
    ensures
        parse_param(toks, at) matches Ok((_, end)) ==> at < end <= toks.len(),
{
}

/// Parameters end at or behind where they start, within the tokens.
pub proof fn lemma_params_move(toks: Seq<Lexed>, at: int, done: Seq<ParamView>)
    requires
        0 <= at <= toks.len(),
    ensures
        parse_params(toks, at, done) matches Ok((_, end)) ==> at <= end <= toks.len(),
    decreases toks.len() - at,
{
    match kind(toks, at) {
        Some(Ok(Token::Symbol('{'))) => {},
        Some(Ok(Token::Symbol(','))) => {},
        Some(Ok(Token::Symbol('['))) => {
            lemma_param_moves(toks, at + 1);
            match parse_param(toks, at + 1) {
                Ok((param, next)) => {
                    lemma_params_move(toks, next, done.push(param));
                },
                Err(_) => {},
            }
        },
        Some(Ok(token)) => {
            lemma_params_move(
                toks,
                at + 1,
                done.push(ParamView::LiteralMatcher(from_token_view(token, text_at(toks, at)))),
            );
        },
        _ => {},
    }
}

/// Arguments end at or behind where they start, within the tokens.
pub proof fn lemma_args_move(toks: Seq<Lexed>, at: int, done: Seq<TokenView>)
    requires
        0 <= at <= toks.len(),
    ensures
        parse_args(toks, at, done) matches Ok((_, end)) ==> at <= end <= toks.len(),
    decreases toks.len() - at, 0nat,
{
    match kind(toks, at) {
        Some(Ok(Token::Symbol(','))) => {},
        Some(Ok(Token::Symbol('('))) => {
            lemma_expr_moves(toks, at + 1);
            match parse_expr(toks, at + 1) {
                Ok((expr, next)) => {
                    if kind(toks, next) == Some(Ok::<Token, ()>(Token::Symbol(')'))) {
                        lemma_args_move(toks, next + 1, done.push(TokenView::Expr(Box::new(expr))));
                    }
                },
                Err(_) => {},
            }
        },
        Some(Ok(token)) => {
            lemma_args_move(toks, at + 1, done.push(from_token_view(token, text_at(toks, at))));
        },
        _ => {},
    }
}

/// An expression ends behind where it starts, within the tokens.
pub proof fn lemma_expr_moves(toks: Seq<Lexed>, at: int)
    requires
        0 <= at <= toks.len(),
    ensures
        parse_expr(toks, at) matches Ok((_, end)) ==> at < end <= toks.len(),
    decreases toks.len() - at, 1nat,
{
    match kind(toks, at) {
        Some(Ok(Token::Symbol('('))) => {
            lemma_expr_moves(toks, at + 1);
        },
        Some(Ok(Token::Ident)) => {
            match kind(toks, at + 1) {
                Some(Ok(Token::Symbol('='))) => {
                    lemma_expr_moves(toks, at + 2);
                },
                Some(Err(_)) => {},
                _ => {
                    lemma_args_move(toks, at + 1, Seq::empty());
                },
            }
        },
        Some(Ok(Token::KeywordFn)) => {
            lemma_params_move(toks, at + 1, Seq::empty());
            match parse_params(toks, at + 1, Seq::empty()) {
                Ok((params, next)) => {
                    lemma_list_moves(toks, next, Seq::empty());
                },
                Err(_) => {},
            }
        },
        _ => {},
    }
}

/// A list ends at or behind where it starts, within the tokens.
pub proof fn lemma_list_moves(toks: Seq<Lexed>, at: int, done: Seq<ExprView>)
    requires
        0 <= at <= toks.len(),
    ensures
        parse_list(toks, at, done) matches Ok((_, end)) ==> at <= end <= toks.len(),
    decreases toks.len() - at, 2nat,
{
    match kind(toks, at) {
        Some(Ok(Token::Symbol(','))) => {
            lemma_list_moves(toks, at + 1, done);
        },
        Some(Ok(Token::Symbol(']'))) => {},
        Some(Ok(Token::Symbol('}'))) => {},
        Some(Ok(token)) => {
            if starts_expr(token) {
                lemma_expr_moves(toks, at);
                match parse_expr(toks, at) {
                    Ok((expr, next)) => {
                        lemma_list_moves(toks, next, done.push(expr));
                    },
                    Err(_) => {},
                }
            }
        },
        _ => {},
    }
}

fn expected_one(token: Token) -> (expected: Vec<Token>)
    ensures
        expected@ == seq![token],
{
    let mut expected: Vec<Token> = Vec::new();
    expected.push(token);
    assert(expected@ =~= seq![token]);
    expected
}

fn expected_two(first: Token, second: Token) -> (expected: Vec<Token>)
    ensures
        expected@ == seq![first, second],
{
    let mut expected: Vec<Token> = Vec::new();
    expected.push(first);
    expected.push(second);
    assert(expected@ =~= seq![first, second]);
    expected
}

fn expected_three(first: Token, second: Token, third: Token) -> (expected: Vec<Token>)
    ensures
        expected@ == seq![first, second, third],
{
    let mut expected: Vec<Token> = Vec::new();
    expected.push(first);
    expected.push(second);
    expected.push(third);
    assert(expected@ =~= seq![first, second, third]);
    expected
}

fn expected_expr() -> (expected: Vec<Token>)
    ensures
        expected@ == expr_start(),
{
    let mut expected: Vec<Token> = Vec::new();
    expected.push(Token::Symbol('('));
    expected.push(Token::Ident);
    expected.push(Token::Int(0));
    expected.push(Token::String);
    expected.push(Token::KeywordFn);
    assert(expected@ =~= expr_start());
    expected
}

fn expected_list() -> (expected: Vec<Token>)
    ensures
        expected@ == list_start(),
{
    let mut expected: Vec<Token> = Vec::new();
    expected.push(Token::Symbol(','));
    expected.push(Token::Symbol(']'));
    expected.push(Token::Symbol('}'));
    expected.push(Token::Ident);
    expected.push(Token::Int(0));
    expected.push(Token::String);
    expected.push(Token::KeywordFn);
    assert(expected@ =~= list_start());
    expected
}

impl RawToken {
    /// The raw token that a token of the lexer stands for, given the token's text.
    pub fn from_token(token: Token, slice: &str) -> (res: RawToken)
        ensures
            res@ == from_token_view(token, slice@),
    {
        match token {
            Token::Ident => RawToken::Ident(Ident(slice.to_owned())),
            Token::KeywordFn => RawToken::Ident(Ident(slice.to_owned())),
            Token::KeywordType => RawToken::Ident(Ident(slice.to_owned())),
            Token::Int(value) => RawToken::Expr(
                Expr::SmallValue(SmallValue::Untyped(value as u64)),
            ),
            Token::String => RawToken::Expr(Expr::StringSlice(slice.to_owned())),
            Token::Symbol(c) => RawToken::Symbol(c),
            Token::Newline => RawToken::Symbol('\n'),
            Token::DocComment => RawToken::Symbol('|'),
            Token::Comment => RawToken::Symbol('|'),
        }
    }
}

/// A parser over the tokens of one source text.
pub struct Parser<'source> {
    tokens: Vec<Lexed>,
    position: usize,
    context: FileContext<'source>,
}

impl<'source> Parser<'source> {
    /// The tokens of the source, all of them.
    pub closed spec fn tokens(&self) -> Seq<Lexed> {
        self.tokens@
    }

    /// The place of the token that is looked at.
    pub closed spec fn position(&self) -> int {
        self.position as int
    }

    /// The file, and the line that its source ends on.
    pub closed spec fn context(&self) -> FileContext<'source> {
        self.context
    }

    /// The token that is looked at is one of the tokens, or the parser is at their end.
    pub closed spec fn wf(&self) -> bool {
        self.position <= self.tokens.len()
    }

    /// Whether this is the parser `before` at a later time: over the same tokens of
    /// the same file.
    pub open spec fn continues(&self, before: &Parser<'source>) -> bool {
        &&& self.wf()
        &&& self.tokens() == before.tokens()
        &&& self.context() == before.context()
    }

    /// Reads the source to its end and stands before the first token.
    pub fn new(lexer: Lexer<'source>) -> (parser: Parser<'source>)
        requires
            lexer.wf(),
        ensures
            parser.wf(),
            parser.position() == 0,
            lexed(
                parser.tokens(),
                lexer.source(),
                steps(lexer.source(), lexer.position(), lexer.line(), Seq::empty()),
            ),
            parser.context().filename@ == lexer.filename(),
            parser.context().source == lexer.given_source(),
            parser.context().line == last_line(lexer.source(), lexer.position(), lexer.line()),
    {
        let ghost src = lexer.source();
        let ghost name = lexer.filename();
        let ghost given = lexer.given_source();
        let ghost goal = steps(src, lexer.position(), lexer.line(), Seq::empty());
        let ghost last = last_line(src, lexer.position(), lexer.line());
        let ghost mut done: Seq<Step> = Seq::empty();
        let mut lexer = lexer;
        let mut tokens: Vec<Lexed> = Vec::new();
        loop
            invariant_except_break
                goal == steps(src, lexer.position(), lexer.line(), done),
                last == last_line(src, lexer.position(), lexer.line()),
                lexed(tokens@, src, done),
            invariant
                lexer.wf(),
                lexer.source() == src,
                lexer.filename() == name,
                lexer.given_source() == given,
            ensures
                lexed(tokens@, src, goal),
                last == lexer.line(),
            decreases src.len() - lexer.position(),
        {
            let ghost at = lexer.position();
            let ghost line = lexer.line();
            proof {
                lexer.lemma_position_in_source();
                lemma_next_token_bounds(src, at, line);
            }
            match lexer.next() {
                Some(token) => {
                    let slice = lexer.slice();
                    let line_now: usize = lexer.extras().line;
                    tokens.push(Lexed { token, slice, line: line_now });
                    proof {
                        done = done.push(next_token(src, at, line));
                    }
                },
                None => {
                    break ;
                },
            }
        }
        let context = lexer.into_extras();
        Parser { tokens, position: 0, context }
    }

    /// The token that is looked at; none at the end.
    pub fn current_token(&self) -> (token: Option<Result<Token, ()>>)
        requires
            self.wf(),
        ensures
            token == kind(self.tokens(), self.position()),
    {
        if self.position < self.tokens.len() {
            Some(self.tokens[self.position].token)
        } else {
            None
        }
    }

    /// The text of the token that is looked at; empty at the end.
    pub fn current_slice(&self) -> (slice: String)
        requires
            self.wf(),
        ensures
            self.position() < self.tokens().len() ==> slice@ == text_at(
                self.tokens(),
                self.position(),
            ),
            self.position() >= self.tokens().len() ==> slice@ == Seq::<char>::empty(),
    {
        if self.position < self.tokens.len() {
            self.tokens[self.position].slice.clone()
        } else {
            String::new()
        }
    }

    /// Looks at the next token; stays at the end once it is there.
    pub fn advance(&mut self)
        requires
            old(self).wf(),
        ensures
            final(self).continues(old(self)),
            final(self).position() == if old(self).position() < old(self).tokens().len() {
                old(self).position() + 1
            } else {
                old(self).position()
            },
    {
        if self.position < self.tokens.len() {
            self.position = self.position + 1;
        }
    }

    /// The error of the named construct at the token that is looked at.
    fn fail(&self, what: &'static str, expected: Vec<Token>) -> (error: ParsingError<'source>)
        requires
            self.wf(),
        ensures
            reports(
                error,
                failure_at(self.tokens(), self.position(), what@, expected@),
                self.tokens(),
                self.context(),
            ),
    {
        let line: usize = if self.position < self.tokens.len() {
            self.tokens[self.position].line
        } else {
            self.context.line
        };
        match self.current_token() {
            Some(Ok(token)) => ParsingError::UnexpectedToken(
                what,
                FileContext {
                    filename: self.context.filename.clone(),
                    source: self.context.source,
                    line,
                },
                token,
                expected,
            ),
            Some(Err(_)) => {
                let mut message = String::new();
                message.append("Lexer error in ");
                message.append(self.context.filename.as_str());
                message.append("@");
                push_decimal(&mut message, line as u64);
                assert(message@ =~= "Lexer error in "@ + self.context.filename@ + "@"@ + decimal(
                    line as nat,
                ));
                ParsingError::TokenError(message)
            },
            None => ParsingError::AbruptEof(
                what,
                FileContext {
                    filename: self.context.filename.clone(),
                    source: self.context.source,
                    line,
                },
                expected,
            ),
        }
    }

    /// A type: the word `type` was read, a size follows.
    pub fn parse_type(&mut self) -> (res: Result<Type, ParsingError<'source>>)
        requires
            old(self).wf(),
        ensures
            final(self).continues(old(self)),
            match parse_type(old(self).tokens(), old(self).position()) {
                Ok((ty, end)) => res matches Ok(found) && found == ty && final(self).position()
                    == end,
                Err(failure) => res matches Err(error) && reports(
                    error,
                    failure,
                    old(self).tokens(),
                    old(self).context(),
                ),
            },
    {
        match self.current_token() {
            Some(Ok(Token::Int(size))) => {
                self.advance();
                Ok(Type { size: ByteSize::Exact(size as usize), predicate: None })
            },
            _ => Err(self.fail("type", expected_one(Token::Int(0)))),
        }
    }

    fn parse_param_end(&mut self, name: Option<String>, typename: Option<String>) -> (res: Result<
        ParamExpr,
        ParsingError<'source>,
    >)
        requires
            old(self).wf(),
        ensures
            final(self).continues(old(self)),
            match parse_param_end(
                old(self).tokens(),
                old(self).position(),
                name_view(name),
                name_view(typename),
            ) {
                Ok((view, end)) => res matches Ok(param) && Param::ParamExpr(param)@ == view
                    && final(self).position() == end,
                Err(failure) => res matches Err(error) && reports(
                    error,
                    failure,
                    old(self).tokens(),
                    old(self).context(),
                ),
            },
    {
        match self.current_token() {
            Some(Ok(Token::Symbol(']'))) => {
                self.advance();
                Ok(ParamExpr { name, typename })
            },
            _ => Err(self.fail("param", expected_one(Token::Symbol(']')))),
        }
    }

    fn parse_param_type(&mut self, name: Option<String>) -> (res: Result<
        ParamExpr,
        ParsingError<'source>,
    >)
        requires
            old(self).wf(),
        ensures
            final(self).continues(old(self)),
            match parse_param_type(
                old(self).tokens(),
                old(self).position(),
                name_view(name),
            ) {
                Ok((view, end)) => res matches Ok(param) && Param::ParamExpr(param)@ == view
                    && final(self).position() == end,
                Err(failure) => res matches Err(error) && reports(
                    error,
                    failure,
                    old(self).tokens(),
                    old(self).context(),
                ),
            },
    {
        match self.current_token() {
            Some(Ok(Token::Symbol(']'))) => self.parse_param_end(name, None),
            Some(Ok(Token::Symbol(':'))) => {
                self.advance();
                match self.current_token() {
                    Some(Ok(Token::Ident)) => {
                        let typename = self.current_slice();
                        self.advance();
                        self.parse_param_end(name, Some(typename))
                    },
                    _ => Err(self.fail("param", expected_one(Token::Ident))),
                }
            },
            _ => Err(self.fail("param", expected_two(Token::Symbol(':'), Token::Symbol(']')))),
        }
    }

    /// A parameter that takes a value: `[` was read; a name, or none, then its type
    /// behind `:`, or none, then `]`.
    pub fn parse_param(&mut self) -> (res: Result<ParamExpr, ParsingError<'source>>)
        requires
            old(self).wf(),
        ensures
            final(self).continues(old(self)),
            match parse_param(old(self).tokens(), old(self).position()) {
                Ok((view, end)) => res matches Ok(param) && Param::ParamExpr(param)@ == view
                    && final(self).position() == end,
                Err(failure) => res matches Err(error) && reports(
                    error,
                    failure,
                    old(self).tokens(),
                    old(self).context(),
                ),
            },
    {
        match self.current_token() {
            Some(Ok(Token::Ident)) => {
                let name = self.current_slice();
                self.advance();
                self.parse_param_type(Some(name))
            },
            Some(Ok(Token::Symbol(':'))) => self.parse_param_type(None),
            Some(Ok(Token::Symbol(']'))) => self.parse_param_type(None),
            _ => Err(
                self.fail(
                    "param",
                    expected_three(Token::Ident, Token::Symbol(':'), Token::Symbol(']')),
                ),
            ),
        }
    }

    /// The parameters of a function, up to and including `{`.
    pub fn parse_params(&mut self) -> (res: Result<Vec<Param>, ParsingError<'source>>)
        requires
            old(self).wf(),
        ensures
            final(self).continues(old(self)),
            match parse_params(old(self).tokens(), old(self).position(), Seq::empty()) {
                Ok((views, end)) => res matches Ok(params) && params_view(
                    params@,
                    params.len() as nat,
                ) == views && final(self).position() == end,
                Err(failure) => res matches Err(error) && reports(
                    error,
                    failure,
                    old(self).tokens(),
                    old(self).context(),
                ),
            },
    {
        let ghost goal = parse_params(self.tokens(), self.position(), Seq::empty());
        let mut params: Vec<Param> = Vec::new();
        loop
            invariant
                self.continues(old(self)),
                goal == parse_params(old(self).tokens(), old(self).position(), Seq::empty()),
                goal == parse_params(
                    self.tokens(),
                    self.position(),
                    params_view(params@, params.len() as nat),
                ),
            decreases self.tokens().len() - self.position(),
        {
            let ghost at = self.position();
            match self.current_token() {
                Some(Ok(Token::Symbol('{'))) => {
                    self.advance();
                    return Ok(params);
                },
                Some(Ok(Token::Symbol(','))) => {
                    return Err(self.fail("params", expected_one(Token::Symbol('{'))));
                },
                Some(Ok(Token::Symbol('['))) => {
                    self.advance();
                    proof {
                        lemma_param_moves(self.tokens(), at + 1);
                    }
                    match self.parse_param() {
                        Ok(param) => {
                            proof {
                                lemma_params_view_push(
                                    params@,
                                    Param::ParamExpr(param),
                                    params.len() as nat,
                                );
                            }
                            params.push(Param::ParamExpr(param));
                        },
                        Err(error) => {
                            return Err(error);
                        },
                    }
                },
                Some(Ok(token)) => {
                    let slice = self.current_slice();
                    let literal = RawToken::from_token(token, slice.as_str());
                    self.advance();
                    proof {
                        lemma_params_view_push(
                            params@,
                            Param::LiteralMatcher(literal),
                            params.len() as nat,
                        );
                    }
                    params.push(Param::LiteralMatcher(literal));
                },
                _ => {
                    return Ok(params);
                },
            }
        }
    }

    /// The arguments of a call, up to and including `,`.
    pub fn parse_args(&mut self) -> (res: Result<Vec<RawToken>, ParsingError<'source>>)
        requires
            old(self).wf(),
        ensures
            final(self).continues(old(self)),
            match parse_args(old(self).tokens(), old(self).position(), Seq::empty()) {
                Ok((views, end)) => res matches Ok(args) && tokens_view(args@, args.len() as nat)
                    == views && final(self).position() == end,
                Err(failure) => res matches Err(error) && reports(
                    error,
                    failure,
                    old(self).tokens(),
                    old(self).context(),
                ),
            },
        decreases old(self).tokens().len() - old(self).position(), 0nat,
    {
        let ghost goal = parse_args(self.tokens(), self.position(), Seq::empty());
        let mut args: Vec<RawToken> = Vec::new();
        loop
            invariant
                self.continues(old(self)),
                self.position() >= old(self).position(),
                goal == parse_args(old(self).tokens(), old(self).position(), Seq::empty()),
                goal == parse_args(
                    self.tokens(),
                    self.position(),
                    tokens_view(args@, args.len() as nat),
                ),
            decreases self.tokens().len() - self.position(),
        {
            let ghost at = self.position();
            match self.current_token() {
                Some(Ok(Token::Symbol(','))) => {
                    self.advance();
                    return Ok(args);
                },
                Some(Ok(Token::Symbol('('))) => {
                    self.advance();
                    proof {
                        lemma_expr_moves(self.tokens(), at + 1);
                    }
                    match self.parse_expr() {
                        Ok(expr) => {
                            match self.current_token() {
                                Some(Ok(Token::Symbol(')'))) => {
                                    self.advance();
                                    proof {
                                        lemma_tokens_view_push(
                                            args@,
                                            RawToken::Expr(expr),
                                            args.len() as nat,
                                        );
                                    }
                                    args.push(RawToken::Expr(expr));
                                },
                                _ => {
                                    return Err(
                                        self.fail(
                                            "ArgumentList",
                                            expected_one(Token::Symbol(')')),
                                        ),
                                    );
                                },
                            }
                        },
                        Err(error) => {
                            return Err(error);
                        },
                    }
                },
                Some(Ok(token)) => {
                    let slice = self.current_slice();
                    let arg = RawToken::from_token(token, slice.as_str());
                    self.advance();
                    proof {
                        lemma_tokens_view_push(args@, arg, args.len() as nat);
                    }
                    args.push(arg);
                },
                _ => {
                    return Ok(args);
                },
            }
        }
    }

    /// The value of an assignment: the name and `=` were read, an expression follows.
    pub fn parse_assign(&mut self, name: String) -> (res: Result<Expr, ParsingError<'source>>)
        requires
            old(self).wf(),
        ensures
            final(self).continues(old(self)),
            match parse_expr(old(self).tokens(), old(self).position()) {
                Ok((value, end)) => res matches Ok(expr) && expr@ == (ExprView::Assign {
                    name: name@,
                    value: Box::new(value),
                }) && final(self).position() == end,
                Err(failure) => res matches Err(error) && reports(
                    error,
                    failure,
                    old(self).tokens(),
                    old(self).context(),
                ),
            },
        decreases old(self).tokens().len() - old(self).position(), 3nat,
    {
        match self.parse_expr() {
            Ok(value) => Ok(Expr::Assign(Assign { name, value: Box::new(value) })),
            Err(error) => Err(error),
        }
    }

    /// An expression.
    pub fn parse_expr(&mut self) -> (res: Result<Expr, ParsingError<'source>>)
        requires
            old(self).wf(),
        ensures
            final(self).continues(old(self)),
            match parse_expr(old(self).tokens(), old(self).position()) {
                Ok((view, end)) => res matches Ok(expr) && expr@ == view && final(self).position()
                    == end,
                Err(failure) => res matches Err(error) && reports(
                    error,
                    failure,
                    old(self).tokens(),
                    old(self).context(),
                ),
            },
        decreases old(self).tokens().len() - old(self).position(), 1nat,
    {
        let ghost at = self.position();
        match self.current_token() {
            Some(Ok(Token::Symbol('('))) => {
                self.advance();
                self.parse_expr()
            },
            Some(Ok(Token::Ident)) => {
                let name = self.current_slice();
                self.advance();
                match self.current_token() {
                    Some(Ok(Token::Symbol('='))) => {
                        self.advance();
                        self.parse_assign(name)
                    },
                    Some(Err(_)) => Err(self.fail("expr", expected_expr())),
                    _ => match self.parse_args() {
                        Ok(args) => Ok(Expr::FnCall(FnCall { name, args })),
                        Err(error) => Err(error),
                    },
                }
            },
            Some(Ok(Token::Int(value))) => {
                self.advance();
                Ok(Expr::SmallValue(SmallValue::DWord(value)))
            },
            Some(Ok(Token::String)) => {
                let text = self.current_slice();
                self.advance();
                Ok(Expr::StringSlice(text))
            },
            Some(Ok(Token::KeywordFn)) => {
                self.advance();
                proof {
                    lemma_params_move(self.tokens(), at + 1, Seq::empty());
                }
                let params = match self.parse_params() {
                    Ok(params) => params,
                    Err(error) => {
                        return Err(error);
                    },
                };
                match self.parse_list() {
                    Ok(body) => Ok(Expr::FnDef(FnDef { signature: FnSignature { params }, body })),
                    Err(error) => Err(error),
                }
            },
            Some(Ok(Token::KeywordType)) => {
                self.advance();
                match self.parse_type() {
                    Ok(ty) => Ok(Expr::Type(ty)),
                    Err(error) => Err(error),
                }
            },
            _ => Err(self.fail("expr", expected_expr())),
        }
    }

    /// One raw token: an expression behind an opening parenthesis, or else the token
    /// that is looked at.
    pub fn parse_raw_token(&mut self) -> (res: Result<RawToken, ParsingError<'source>>)
        requires
            old(self).wf(),
        ensures
            final(self).continues(old(self)),
            match parse_token(old(self).tokens(), old(self).position()) {
                Ok((view, end)) => res matches Ok(token) && token@ == view
                    && final(self).position() == end,
                Err(failure) => res matches Err(error) && reports(
                    error,
                    failure,
                    old(self).tokens(),
                    old(self).context(),
                ),
            },
    {
        match self.current_token() {
            Some(Ok(Token::Symbol('('))) => match self.parse_expr() {
                Ok(expr) => Ok(RawToken::Expr(expr)),
                Err(error) => Err(error),
            },
            Some(Ok(token)) => {
                let slice = self.current_slice();
                let found = RawToken::from_token(token, slice.as_str());
                self.advance();
                Ok(found)
            },
            _ => {
                let mut expected: Vec<Token> = Vec::new();
                expected.push(Token::String);
                expected.push(Token::Int(0));
                expected.push(Token::Ident);
                expected.push(Token::KeywordFn);
                expected.push(Token::Symbol('('));
                assert(expected@ =~= token_start());
                Err(self.fail("raw_token", expected))
            },
        }
    }

    /// The expressions of a list, up to and including `]` or `}`, or the end.
    pub fn parse_list(&mut self) -> (res: Result<ListContent, ParsingError<'source>>)
        requires
            old(self).wf(),
        ensures
            final(self).continues(old(self)),
            match parse_list(old(self).tokens(), old(self).position(), Seq::empty()) {
                Ok((views, end)) => res matches Ok(list) && list@ == views
                    && final(self).position() == end,
                Err(failure) => res matches Err(error) && reports(
                    error,
                    failure,
                    old(self).tokens(),
                    old(self).context(),
                ),
            },
        decreases old(self).tokens().len() - old(self).position(), 2nat,
    {
        let ghost goal = parse_list(self.tokens(), self.position(), Seq::empty());
        let mut elements: Vec<Expr> = Vec::new();
        loop
            invariant
                self.continues(old(self)),
                self.position() >= old(self).position(),
                goal == parse_list(old(self).tokens(), old(self).position(), Seq::empty()),
                goal == parse_list(
                    self.tokens(),
                    self.position(),
                    exprs_view(elements@, elements.len() as nat),
                ),
            decreases self.tokens().len() - self.position(),
        {
            let ghost at = self.position();
            match self.current_token() {
                None => {
                    return Ok(ListContent { elements });
                },
                Some(Ok(Token::Symbol(','))) => {
                    self.advance();
                },
                Some(Ok(Token::Symbol(']'))) => {
                    self.advance();
                    return Ok(ListContent { elements });
                },
                Some(Ok(Token::Symbol('}'))) => {
                    self.advance();
                    return Ok(ListContent { elements });
                },
                Some(Ok(token)) => {
                    let starts: bool = match token {
                        Token::Ident => true,
                        Token::Int(_) => true,
                        Token::String => true,
                        Token::KeywordFn => true,
                        Token::KeywordType => true,
                        _ => false,
                    };
                    if starts {
                        proof {
                            lemma_expr_moves(self.tokens(), at);
                        }
                        match self.parse_expr() {
                            Ok(expr) => {
                                proof {
                                    lemma_exprs_view_push(elements@, expr, elements.len() as nat);
                                }
                                elements.push(expr);
                            },
                            Err(error) => {
                                return Err(error);
                            },
                        }
                    } else {
                        return Err(self.fail("listcontent", expected_list()));
                    }
                },
                Some(Err(_)) => {
                    return Err(self.fail("listcontent", expected_list()));
                },
            }
        }
    }

    /// The program from the token that is looked at on: every expression up to the
    /// end of the tokens, or up to a `]` or `}` that nothing opened.
    pub fn parse(&mut self) -> (res: Result<Ast, ParsingError<'source>>)
        requires
            old(self).wf(),
        ensures
            final(self).continues(old(self)),
            match parse_program_from(old(self).tokens(), old(self).position()) {
                Ok(views) => res matches Ok(ast) && ast@ == views,
                Err(failure) => res matches Err(error) && reports(
                    error,
                    failure,
                    old(self).tokens(),
                    old(self).context(),
                ),
            },
    {
        match self.parse_list() {
            Ok(program) => Ok(Ast { program }),
            Err(error) => Err(error),
        }
    }
}

} // verus!
