use eas::ast::{Expr, Param, RawToken, SmallValue};
use eas::byte_size::ByteSize;
use eas::errors::{CompileError, ParsingError};
use eas::lexer::{FileContext, Token};
use eas::parser::Parser;
use eas::pipeline::get_ast;
use eas::scope::ProgramContext;

fn file(source: &str) -> FileContext<'_> {
    FileContext { filename: "test".to_string(), source, line: 1 }
}

fn parse(source: &str) -> Vec<Expr> {
    get_ast(source, file(source)).expect("the source should parse").program.elements
}

fn parse_error(source: &str) -> String {
    match get_ast(source, file(source)) {
        Ok(ast) => panic!("expected an error, got {:?}", ast),
        Err(error) => error.to_text(),
    }
}

#[test]
fn a_program_is_a_list_of_expressions() {
    let elements = parse("set x = 3,\nset y = 4,\nprint x,\n");
    assert_eq!(elements.len(), 3);
    assert_eq!(elements[0].to_text(), "set x = Int(3)");
    assert_eq!(elements[1].to_text(), "set y = Int(4)");
    assert_eq!(elements[2].to_text(), "print x");
    match &elements[0] {
        Expr::FnCall(call) => {
            assert_eq!(call.name, "set");
            assert_eq!(call.args.len(), 3);
            assert!(call.args[1].same(&RawToken::Symbol('=')));
            assert!(call.args[2].same(&RawToken::Expr(Expr::SmallValue(SmallValue::Untyped(3)))));
        }
        other => panic!("expected a call, got {:?}", other),
    }
}

#[test]
fn a_name_with_an_equals_sign_is_an_assignment() {
    let elements = parse("x = 10, s = \"text\", deg = type 3, y = (f 1 2,");
    assert_eq!(elements.len(), 4);
    match &elements[0] {
        Expr::Assign(assign) => {
            assert_eq!(assign.name, "x");
            assert!(assign.value.same(&Expr::SmallValue(SmallValue::DWord(10))));
        }
        other => panic!("expected an assignment, got {:?}", other),
    }
    assert_eq!(elements[1].to_text(), "s = String(\"text\")");
    assert_eq!(elements[2].to_text(), "deg = Type(3b)");
    assert_eq!(elements[3].to_text(), "y = f Int(1) Int(2)");
}

#[test]
fn a_function_has_parameters_and_a_body() {
    let elements = parse("turn = fn [what: deg] by [: deg] [n] [] { x = 2, turn 1, },");
    assert_eq!(elements.len(), 1);
    assert_eq!(elements[0].to_text(), "turn = fn [ what: deg, by, : deg, n, _ ] { .. }");
    match &elements[0] {
        Expr::Assign(assign) => match &*assign.value {
            Expr::FnDef(def) => {
                assert_eq!(def.signature.params.len(), 5);
                assert!(matches!(def.signature.params[1], Param::LiteralMatcher(_)));
                assert_eq!(def.body.elements.len(), 2);
                assert_eq!(def.signature.to_text(), "[ what: deg, by, : deg, n, _ ]");
            }
            other => panic!("expected a function, got {:?}", other),
        },
        other => panic!("expected an assignment, got {:?}", other),
    }
}

#[test]
fn an_expression_in_parentheses_is_one_argument() {
    let context = ProgramContext::new(file(""));
    let elements = parse("f (g 1,) 2,");
    assert_eq!(elements.len(), 1);
    match &elements[0] {
        Expr::FnCall(call) => {
            assert_eq!(call.args.len(), 2);
            assert_eq!(call.args[0].fitting_bytes(&context), ByteSize::AnySize);
            assert!(matches!(&call.args[0], RawToken::Expr(Expr::FnCall(inner)) if inner.name == "g"));
        }
        other => panic!("expected a call, got {:?}", other),
    }
}

#[test]
fn keywords_and_strings_are_arguments_too() {
    let elements = parse("echo \"hello\" fn type ? 7,");
    match &elements[0] {
        Expr::FnCall(call) => {
            assert_eq!(call.args.len(), 5);
            assert!(call.args[0].same(&RawToken::Expr(Expr::StringSlice("\"hello\"".to_string()))));
            assert_eq!(call.args[1].to_text(), "fn");
            assert_eq!(call.args[2].to_text(), "type");
            assert!(call.args[3].same(&RawToken::Symbol('?')));
        }
        other => panic!("expected a call, got {:?}", other),
    }
}

#[test]
fn from_token_turns_every_token_into_a_raw_token() {
    assert!(RawToken::from_token(Token::Ident, "abc").same(&RawToken::Ident(eas::ast::Ident("abc".to_string()))));
    assert!(RawToken::from_token(Token::Int(12), "12")
        .same(&RawToken::Expr(Expr::SmallValue(SmallValue::Untyped(12)))));
    assert!(RawToken::from_token(Token::Symbol('+'), "+").same(&RawToken::Symbol('+')));
    assert!(RawToken::from_token(Token::String, "\"s\"")
        .same(&RawToken::Expr(Expr::StringSlice("\"s\"".to_string()))));
    assert!(RawToken::from_token(Token::KeywordFn, "fn").same(&RawToken::Ident(eas::ast::Ident("fn".to_string()))));
    assert!(RawToken::from_token(Token::Newline, "\n").same(&RawToken::Symbol('\n')));
    assert!(RawToken::from_token(Token::Comment, "| c").same(&RawToken::Symbol('|')));
}

#[test]
fn a_list_ends_at_a_closing_bracket() {
    let elements = parse("a 1, } b 2,");
    assert_eq!(elements.len(), 1);
}

#[test]
fn a_symbol_cannot_start_an_expression_of_a_list() {
    assert_eq!(
        parse_error("a 1,\n? 2,"),
        "UnexpectedToken(Symbol('?'), expected one of <[Symbol(','), Symbol(']'), Symbol('}'), \
         Ident, Int(0), String, KeywordFn]> at test@2): listcontent"
    );
}

#[test]
fn a_type_needs_a_size() {
    assert_eq!(
        parse_error("deg = type x,"),
        "UnexpectedToken(Ident, expected one of <[Int(0)]> at test@1): type"
    );
    assert_eq!(
        parse_error("deg = type"),
        "AbruptEof(expected one of [Int(0)] at test@1): type"
    );
}

#[test]
fn an_assignment_needs_a_value() {
    assert_eq!(
        parse_error("x =\n"),
        "AbruptEof(expected one of [Symbol('('), Ident, Int(0), String, KeywordFn] at test@2): expr"
    );
}

#[test]
fn a_comma_cannot_stand_among_parameters() {
    assert_eq!(
        parse_error("f = fn [a] , {}"),
        "UnexpectedToken(Symbol(','), expected one of <[Symbol('{')]> at test@1): params"
    );
}

#[test]
fn a_parameter_needs_its_closing_bracket() {
    assert_eq!(
        parse_error("f = fn [a: b c] {}"),
        "UnexpectedToken(Ident, expected one of <[Symbol(']')]> at test@1): param"
    );
    assert_eq!(
        parse_error("f = fn [a: 3] {}"),
        "UnexpectedToken(Int(3), expected one of <[Ident]> at test@1): param"
    );
    assert_eq!(
        parse_error("f = fn [3] {}"),
        "UnexpectedToken(Int(3), expected one of <[Ident, Symbol(':'), Symbol(']')]> at test@1): param"
    );
}

#[test]
fn an_argument_in_parentheses_needs_its_closing_parenthesis() {
    assert_eq!(
        parse_error("f (3 4,"),
        "UnexpectedToken(Int(4), expected one of <[Symbol(')')]> at test@1): ArgumentList"
    );
}

#[test]
fn a_number_too_large_for_the_lexer_is_a_token_error() {
    assert_eq!(parse_error("x = 1,\n\n99999999999,"), "TokenError(Lexer error in test@3)");
    let error = CompileError::ParsingError(ParsingError::TokenError("bad".to_string()));
    assert_eq!(error.to_text(), "TokenError(bad)");
    assert_eq!(CompileError::IoError("disk full".to_string()).to_text(), "disk full");
}

#[test]
fn the_parser_walks_the_tokens_one_by_one() {
    let source = "a = 1";
    let mut parser = Parser::new(Token::lexer_with_extras(source, file(source)));
    assert_eq!(parser.current_token(), Some(Ok(Token::Ident)));
    assert_eq!(parser.current_slice(), "a");
    parser.advance();
    assert_eq!(parser.current_token(), Some(Ok(Token::Symbol('='))));
    parser.advance();
    assert_eq!(parser.current_token(), Some(Ok(Token::Int(1))));
    assert_eq!(parser.current_slice(), "1");
    parser.advance();
    assert_eq!(parser.current_token(), None);
    assert_eq!(parser.current_slice(), "");
    parser.advance();
    assert_eq!(parser.current_token(), None);
}

#[test]
fn a_raw_token_is_a_token_or_an_expression_in_parentheses() {
    let source = "name 7 ? (f 1, ) \"s\"";
    let mut parser = Parser::new(Token::lexer_with_extras(source, file(source)));
    assert_eq!(parser.parse_raw_token().expect("a name").to_text(), "name");
    assert_eq!(parser.parse_raw_token().expect("a number").to_text(), "Int(7)");
    assert_eq!(parser.parse_raw_token().expect("a symbol").to_text(), "?");
    assert_eq!(parser.parse_raw_token().expect("an expression").to_text(), "f Int(1)");
    assert_eq!(parser.current_token(), Some(Ok(Token::Symbol(')'))));
    parser.advance();
    assert_eq!(parser.parse_raw_token().expect("a string").to_text(), "String(\"s\")");
    assert_eq!(
        parser.parse_raw_token().expect_err("the end").to_text(),
        "AbruptEof(expected one of [String, Int(0), Ident, KeywordFn, Symbol('(')] at test@1): raw_token"
    );
}

#[test]
fn the_value_of_an_assignment_is_an_expression() {
    let source = "fn [a] { }  rest";
    let mut parser = Parser::new(Token::lexer_with_extras(source, file(source)));
    let assigned = parser.parse_assign("f".to_string()).expect("a function");
    assert_eq!(assigned.to_text(), "f = fn [ a ] { .. }");
    assert_eq!(parser.current_slice(), "rest");
    let mut parser = Parser::new(Token::lexer_with_extras("", file("")));
    assert!(parser.parse_assign("f".to_string()).is_err());
}
