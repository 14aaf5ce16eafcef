use eas::ast::{Assign, Ast, Expr, FnCall, FnDef, FnSignature, Ident, ListContent, Param, ParamExpr, RawToken, SmallValue, Type};
use eas::byte_size::ByteSize;
use eas::errors::{CheckError, ErrorKind};
use eas::lexer::FileContext;
use eas::pipeline::{expand, get_ast};
use eas::scope::{CompilationState, ProgramContext};

fn file(source: &str) -> FileContext<'_> {
    FileContext { filename: "test".to_string(), source, line: 1 }
}

fn compile(source: &str) -> Result<String, CheckError> {
    let ast = get_ast(source, file(source)).expect("the source should parse");
    expand(&ast, file(source))
}

fn failure(source: &str) -> (ErrorKind, String) {
    match compile(source) {
        Ok(text) => panic!("expected an error, got:\n{}", text),
        Err(CheckError::CompileError(_, error)) => (error.kind, error.message),
        Err(CheckError::EmitError(text)) => panic!("unexpected emit error: {}", text),
    }
}

fn typed(name: Option<&str>, typename: Option<&str>) -> Param {
    Param::ParamExpr(ParamExpr {
        name: name.map(|n| n.to_string()),
        typename: typename.map(|n| n.to_string()),
    })
}

fn function(params: Vec<Param>, body: Vec<Expr>) -> Expr {
    Expr::FnDef(FnDef { signature: FnSignature { params }, body: ListContent { elements: body } })
}

fn assign(name: &str, value: Expr) -> Expr {
    Expr::Assign(Assign { name: name.to_string(), value: Box::new(value) })
}

fn call(name: &str, args: Vec<RawToken>) -> Expr {
    Expr::FnCall(FnCall { name: name.to_string(), args })
}

fn ident(name: &str) -> RawToken {
    RawToken::Ident(Ident(name.to_string()))
}

fn sized(size: ByteSize) -> Expr {
    Expr::Type(Type { size, predicate: None })
}

fn program(elements: Vec<Expr>) -> Ast {
    Ast { program: ListContent { elements } }
}

#[test]
fn a_binding_and_then_a_reference_to_it() {
    let text = compile("print = fn [] {},\nx = 10,\nprint x,\n").expect("no errors");
    assert_eq!(
        text,
        "{\n\
         \x20   let print =\n\
         \x20       fn [ _ ]\n\
         \x20       pop AnySize -> r0\n\
         \x20       {\n\
         \x20       }\n\
         \x20       ret\n\
         \x20   let x =\n\
         \x20       move 4b Int(10) -> x\n\
         \x20   push 4b x\n\
         \x20   call print\n\
         }\n"
    );
}

#[test]
fn set_and_print_as_calls_of_bound_functions() {
    let text = compile("set = fn x = [] {},\nprint = fn x {},\nset x = 10,\nprint x,\n")
        .expect("no errors");
    assert!(text.contains("    push 1b Int(10)\n    call set\n"));
    assert!(text.ends_with("    call print\n}\n"));
}

#[test]
fn a_literal_too_large_for_the_range_of_its_type_names_both_sizes() {
    let ast = program(vec![
        assign("u8", sized(ByteSize::Range(1..2))),
        assign("f", function(vec![typed(None, Some("u8"))], vec![])),
        call("f", vec![RawToken::Expr(Expr::SmallValue(SmallValue::Untyped(300)))]),
    ]);
    match expand(&ast, file("")) {
        Err(CheckError::CompileError(_, error)) => {
            assert_eq!(error.kind, ErrorKind::TypeSizeMismatch);
            assert_eq!(
                error.message,
                "Type size mismatch: no overlap between (1..2)b and (2..8)b"
            );
        }
        other => panic!("expected a size mismatch, got {:?}", other),
    }
}

#[test]
fn a_literal_that_fits_the_range_of_its_type_takes_the_fewest_bytes() {
    let ast = program(vec![
        assign("wide", sized(ByteSize::Range(1..4))),
        assign("f", function(vec![typed(None, Some("wide"))], vec![])),
        call("f", vec![RawToken::Expr(Expr::SmallValue(SmallValue::Untyped(300)))]),
        call("f", vec![RawToken::Expr(Expr::SmallValue(SmallValue::Untyped(3)))]),
    ]);
    let text = expand(&ast, file("")).expect("both fit");
    assert!(text.ends_with("    push 2b Int(300)\n    call f\n    push 1b Int(3)\n    call f\n}\n"));
}

#[test]
fn a_type_of_exact_size_fixes_the_bytes_of_the_argument() {
    let text = compile("u8 = type 1,\nf = fn [:u8] {},\nf 300,\n").expect("no errors");
    assert!(text.ends_with("    push 1b Int(300)\n    call f\n}\n"));
}

#[test]
fn a_call_that_no_signature_takes_names_the_first_one() {
    let (kind, message) = failure("u8 = type 1,\nf = fn [:u8] {},\nf \"long text\",\n");
    assert_eq!(kind, ErrorKind::SignatureMismatch);
    assert_eq!(
        message,
        "Function signature mismatch: the arguments of \"f String(\"long text\")\" match no \
         signature; one candidate is f [ : u8 ]"
    );
}

#[test]
fn a_value_too_large_for_the_type_names_both_sizes() {
    let ast = program(vec![
        assign("u8", sized(ByteSize::Range(1..2))),
        assign("f", function(vec![typed(None, Some("u8"))], vec![])),
        assign("big", Expr::SmallValue(SmallValue::Untyped(300))),
        call("f", vec![ident("big")]),
    ]);
    match expand(&ast, file("")) {
        Err(CheckError::CompileError(_, error)) => {
            assert_eq!(error.kind, ErrorKind::TypeSizeMismatch);
            assert_eq!(
                error.message,
                "Type size mismatch: no overlap between (1..2)b and (2..8)b"
            );
        }
        other => panic!("expected a size mismatch, got {:?}", other),
    }
}

#[test]
fn two_overloads_that_take_an_untyped_literal_are_ambiguous() {
    let (kind, message) =
        failure("u8 = type 1, u16 = type 2, f = fn [:u8] {}, f = fn [:u16] {}, f 3,");
    assert_eq!(kind, ErrorKind::AmbiguousOverload);
    assert_eq!(
        message,
        "Found two matching functions for \"f Int(3)\": [ : u8 ] as well as [ : u16 ]; \
         consider adding an identifier to one signature to tell them apart"
    );
}

#[test]
fn overload_that_alone_matches_is_chosen() {
    let ast = program(vec![
        assign("u8", sized(ByteSize::Exact(1))),
        assign("u32", sized(ByteSize::Exact(4))),
        assign("f", function(vec![typed(Some("a"), Some("u8"))], vec![])),
        assign("f", function(vec![typed(Some("b"), Some("u32"))], vec![])),
        call("f", vec![RawToken::Expr(Expr::SmallValue(SmallValue::DWord(7)))]),
        call("f", vec![RawToken::Expr(Expr::SmallValue(SmallValue::Byte(7)))]),
    ]);
    let text = expand(&ast, file("")).expect("each call matches one overload");
    assert!(text.ends_with("    push 4b Int(7)\n    call f\n    push 1b Int(7)\n    call f\n}\n"));
}

#[test]
fn overload_that_matches_neither_names_the_first_signature() {
    let ast = program(vec![
        assign("u8", sized(ByteSize::Exact(1))),
        assign("u32", sized(ByteSize::Exact(4))),
        assign("f", function(vec![typed(Some("a"), Some("u8"))], vec![])),
        assign("f", function(vec![typed(Some("b"), Some("u32"))], vec![])),
        call("f", vec![RawToken::Expr(Expr::SmallValue(SmallValue::Word(7)))]),
    ]);
    match expand(&ast, file("")) {
        Err(CheckError::CompileError(_, error)) => {
            assert_eq!(error.kind, ErrorKind::SignatureMismatch);
            assert!(error.message.ends_with("one candidate is f [ a: u8 ]"));
        }
        other => panic!("expected a mismatch, got {:?}", other),
    }
}

#[test]
fn overload_that_matches_both_is_ambiguous() {
    let ast = program(vec![
        assign("u8", sized(ByteSize::Exact(1))),
        assign("small", sized(ByteSize::Range(1..3))),
        assign("f", function(vec![typed(None, Some("u8"))], vec![])),
        assign("f", function(vec![typed(None, Some("small"))], vec![])),
        call("f", vec![RawToken::Expr(Expr::SmallValue(SmallValue::Byte(7)))]),
    ]);
    match expand(&ast, file("")) {
        Err(error) => assert_eq!(error.kind(), Some(ErrorKind::AmbiguousOverload)),
        other => panic!("expected an ambiguity, got {:?}", other),
    }
}

#[test]
fn literal_tag_tells_overloads_apart() {
    let text = compile(
        "u8 = type 1, turn = fn left [:u8] {}, turn = fn right [:u8] {}, turn right 3, turn left 4,",
    )
    .expect("the literal decides");
    assert!(text.ends_with("    push 1b Int(3)\n    call turn\n    push 1b Int(4)\n    call turn\n}\n"));
}

#[test]
fn two_values_for_a_name_in_one_scope_fail() {
    let (kind, message) = failure("x = 1, x = 2,");
    assert_eq!(kind, ErrorKind::ShadowingViolation);
    assert_eq!(message, "<x> already has a value in this scope");
}

#[test]
fn the_same_name_in_sibling_scopes_does_not_conflict() {
    let text = compile("f = fn { x = 1, }, g = fn { x = 2, },").expect("no conflict");
    assert_eq!(
        text,
        "{\n\
         \x20   let f =\n\
         \x20       fn [ ]\n\
         \x20       {\n\
         \x20           let x =\n\
         \x20               move 4b Int(1) -> x\n\
         \x20       }\n\
         \x20       ret\n\
         \x20   let g =\n\
         \x20       fn [ ]\n\
         \x20       {\n\
         \x20           let x =\n\
         \x20               move 4b Int(2) -> x\n\
         \x20       }\n\
         \x20       ret\n\
         }\n"
    );
}

#[test]
fn the_same_name_in_an_outer_and_an_inner_scope_is_ambiguous_when_referred_to() {
    let (kind, message) = failure("show = fn [] {}, x = 1, f = fn { x = 2, show x, },");
    assert_eq!(kind, ErrorKind::AmbiguousBinding);
    assert_eq!(message, "<x> defined multiple times in this scope");
}

#[test]
fn a_binding_of_a_sibling_scope_is_not_visible() {
    let (kind, message) = failure("show = fn [] {}, f = fn { x = 2, }, g = fn { show x, },");
    assert_eq!(kind, ErrorKind::UndefinedIdentifier);
    assert_eq!(message, "<x> not defined in this scope");
}

#[test]
fn an_inner_block_sees_the_bindings_around_it() {
    let text = compile("show = fn [] {}, x = 1, f = fn { g = fn { show x, }, },").expect("visible");
    assert!(text.contains("                    push 4b x\n                    call show\n"));
}

#[test]
fn a_function_of_an_inner_scope_cannot_be_called_from_outside() {
    let (kind, message) = failure("f = fn { g = fn {}, }, g,");
    assert_eq!(kind, ErrorKind::UndefinedFunction);
    assert_eq!(message, "Function not defined in this scope: g");
}

#[test]
fn a_call_of_a_name_that_is_no_function_fails() {
    let (kind, message) = failure("x = 1, x,");
    assert_eq!(kind, ErrorKind::UndefinedFunction);
    assert_eq!(message, "Function not found: x exists in this scope, but is not callable");
}

#[test]
fn a_parameter_of_an_undeclared_type_is_reported() {
    let (kind, message) = failure("f = fn [a: nothing] {},");
    assert_eq!(kind, ErrorKind::UndefinedType);
    assert_eq!(message, "Type not declared: nothing");
}

#[test]
fn a_type_may_be_declared_after_its_use() {
    let text = compile("f = fn [a: deg] {}, deg = type 3, f 1,").expect("types are global");
    assert!(text.contains("        pop 3b -> r0 : a\n"));
    assert!(text.ends_with("    let deg =\n        Type(3b)\n    push 3b Int(1)\n    call f\n}\n"));
}

#[test]
fn arguments_are_pushed_from_the_last_to_the_first() {
    let text = compile(
        "deg = type 3,\nturn = fn [what: deg] by [how_much: deg] {},\nturn 3 by 90,\n",
    )
    .expect("no errors");
    assert_eq!(
        text,
        "{\n\
         \x20   let deg =\n\
         \x20       Type(3b)\n\
         \x20   let turn =\n\
         \x20       fn [ what: deg, by, how_much: deg ]\n\
         \x20       pop 3b -> r0 : what\n\
         \x20       pop 3b -> r0 : how_much\n\
         \x20       {\n\
         \x20       }\n\
         \x20       ret\n\
         \x20   push 3b Int(90)\n\
         \x20   push 3b Int(3)\n\
         \x20   call turn\n\
         }\n"
    );
}

#[test]
fn the_first_error_in_the_order_of_the_walk_is_returned() {
    let (kind, _) = failure("x = 1, nothing 1, x = 2,");
    assert_eq!(kind, ErrorKind::ShadowingViolation);
    let (kind, _) = failure("nothing 1, x = 1, x = 2,");
    assert_eq!(kind, ErrorKind::UndefinedFunction);
}

#[test]
fn literals_are_emitted_with_their_size() {
    let ast = program(vec![
        Expr::SmallValue(SmallValue::Byte(255)),
        Expr::SmallValue(SmallValue::Word(256)),
        Expr::SmallValue(SmallValue::QWord(u64::MAX)),
        Expr::SmallValue(SmallValue::Untyped(3)),
        Expr::SmallValue(SmallValue::Untyped(70000)),
        Expr::Bytes(vec![0, 10, 255]),
        Expr::StringSlice("\"hi\"".to_string()),
        sized(ByteSize::Range(1..8)),
    ]);
    assert_eq!(
        expand(&ast, file("")).expect("literals never fail"),
        "{\n\
         \x20   1b Int(255)\n\
         \x20   2b Int(256)\n\
         \x20   8b Int(18446744073709551615)\n\
         \x20   (1..8)b Int(3)\n\
         \x20   (1..8)b Int(70000)\n\
         \x20   3b Bytes(0x000AFF)\n\
         \x20   4b String(\"hi\")\n\
         \x20   Type((1..8)b)\n\
         }\n"
    );
}

#[test]
fn an_empty_program_emits_an_empty_block() {
    assert_eq!(compile("").expect("nothing to fail"), "{\n}\n");
}

#[test]
fn compiling_twice_gives_the_same_text() {
    let source = "deg = type 3, f = fn [a: deg] { g = fn { x = 1, }, x = 2, }, h = fn {}, f 2,";
    let ast = get_ast(source, file(source)).expect("parses");
    let first = expand(&ast, file(source)).expect("no errors");
    let second = expand(&ast, file(source)).expect("no errors");
    assert_eq!(first, second);

    let mut state = CompilationState::new();
    let mut ctx = ProgramContext::new(file(source));
    ast.build_context(&mut ctx, &mut state);
    let built_scopes = state.highest_scope;
    let third = ast.check_and_emit(&ctx, &mut state).expect("no errors");
    assert_eq!(state.highest_scope, built_scopes);
    assert_eq!(state.indentation_level, 0);
    let fourth = ast.check_and_emit(&ctx, &mut state).expect("no errors");
    assert_eq!(first, third);
    assert_eq!(third, fourth);
}

#[test]
fn the_build_pass_gives_every_block_its_own_scope() {
    let source = "a = 1, f = fn { b = 2, g = fn { c = 3, }, d = 4, }, h = fn { e = 5, }, z = 6,";
    let ast = get_ast(source, file(source)).expect("parses");
    let mut state = CompilationState::new();
    let mut ctx = ProgramContext::new(file(source));
    ast.build_context(&mut ctx, &mut state);
    let scopes: Vec<(String, usize)> =
        ctx.symbols.entries.iter().map(|b| (b.name.clone(), b.symbol.scope)).collect();
    assert_eq!(
        scopes,
        vec![
            ("a".to_string(), 1),
            ("f".to_string(), 1),
            ("b".to_string(), 2),
            ("g".to_string(), 2),
            ("c".to_string(), 3),
            ("d".to_string(), 2),
            ("h".to_string(), 1),
            ("e".to_string(), 4),
            ("z".to_string(), 1),
        ]
    );
    assert_eq!(state.highest_scope, 5);
    assert_eq!(state.indentation_level, 0);
}

#[test]
fn the_build_pass_declares_types_and_binds_nothing_for_them() {
    let source = "deg = type 3, deg = type 4, x = 1,";
    let ast = get_ast(source, file(source)).expect("parses");
    let mut state = CompilationState::new();
    let mut ctx = ProgramContext::new(file(source));
    ast.build_context(&mut ctx, &mut state);
    assert_eq!(ctx.symbols.entries.len(), 1);
    assert_eq!(ctx.types.get("deg").map(|t| t.size.clone()), Some(ByteSize::Exact(4)));
}

#[test]
fn the_error_carries_the_line_of_the_file_context() {
    let source = "first line\nx = 1, x = 2,\nthird";
    let ast = get_ast("x = 1, x = 2,", file(source)).expect("parses");
    let error = expand(&ast, FileContext { filename: "prog".to_string(), source, line: 2 })
        .expect_err("shadowing");
    assert_eq!(
        error.to_text(),
        "[Compile Error]<prog 2> <x> already has a value in this scope\n\t\"x = 1, x = 2,\""
    );
    match error {
        CheckError::CompileError(context, _) => {
            assert_eq!(context.filename, "prog");
            assert_eq!(context.line, 2);
            assert_eq!(context.line_content, "x = 1, x = 2,");
        }
        CheckError::EmitError(_) => panic!("not an emit error"),
    }
}
