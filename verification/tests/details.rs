use eas::ast::{Assign, CompTimeSize, Expr, FnCall, FnDef, FnSignature, Ident, ListContent, Param, ParamExpr, RawToken, SmallValue, TokenKind, Type};
use eas::byte_size::ByteSize;
use eas::calls::{pick, push_args, resolve, resolve_arg_size, size_of_argument};
use eas::emit::{count_values_in_scope, stack_pop_remaining_parameters};
use eas::errors::{line_of, report_error, semantic_error, CheckError, ErrorKind};
use eas::layers::Layer;
use eas::lexer::FileContext;
use eas::register::{free_register, Register};
use eas::scope::{CompilationState, ProgramContext};
use eas::text::{chars_of, push_decimal, push_hex_bytes, push_repeat, string_of};
use eas::verbosity::Verbosity;

fn context(source: &str) -> ProgramContext<'_> {
    ProgramContext::new(FileContext { filename: "test".to_string(), source, line: 1 })
}

fn declare(ctx: &mut ProgramContext, name: &str, size: ByteSize) {
    ctx.types.insert(name.to_string(), Type { size, predicate: None });
}

fn typed(name: Option<&str>, typename: Option<&str>) -> ParamExpr {
    ParamExpr { name: name.map(|n| n.to_string()), typename: typename.map(|n| n.to_string()) }
}

fn ident(name: &str) -> RawToken {
    RawToken::Ident(Ident(name.to_string()))
}

fn number(value: u64) -> RawToken {
    RawToken::Expr(Expr::SmallValue(SmallValue::Untyped(value)))
}

#[test]
fn an_untyped_integer_has_one_size_for_signatures() {
    let ctx = context("");
    assert_eq!(SmallValue::Untyped(0).number_bytes(&ctx), ByteSize::Range(1..8));
    assert_eq!(SmallValue::Untyped(300).number_bytes(&ctx), ByteSize::Range(1..8));
    assert_eq!(SmallValue::Untyped(u64::MAX).number_bytes(&ctx), ByteSize::Range(1..8));
}

#[test]
fn an_untyped_integer_is_held_by_every_width_from_its_fewest_bytes_on() {
    let size = |v: u64| SmallValue::Untyped(v).fitting_bytes();
    assert_eq!(size(0), ByteSize::Range(1..8));
    assert_eq!(size(255), ByteSize::Range(1..8));
    assert_eq!(size(256), ByteSize::Range(2..8));
    assert_eq!(size(300), ByteSize::Range(2..8));
    assert_eq!(size(65535), ByteSize::Range(2..8));
    assert_eq!(size(65536), ByteSize::Range(3..8));
    assert_eq!(size(0xFF_FFFF), ByteSize::Range(3..8));
    assert_eq!(size(0x100_0000), ByteSize::Range(4..8));
    assert_eq!(size(0x1_0000_0000), ByteSize::Range(5..8));
    assert_eq!(size(0x100_0000_0000), ByteSize::Range(6..8));
    assert_eq!(size(0x1_0000_0000_0000), ByteSize::Range(7..8));
    assert_eq!(size(0xFF_FFFF_FFFF_FFFF), ByteSize::Range(7..8));
    assert_eq!(size(0x100_0000_0000_0000), ByteSize::Exact(8));
    assert_eq!(size(u64::MAX), ByteSize::Exact(8));
}

#[test]
fn typed_literals_have_their_width() {
    let ctx = context("");
    assert_eq!(SmallValue::Byte(9).number_bytes(&ctx), ByteSize::Exact(1));
    assert_eq!(SmallValue::Word(9).number_bytes(&ctx), ByteSize::Exact(2));
    assert_eq!(SmallValue::DWord(9).number_bytes(&ctx), ByteSize::Exact(4));
    assert_eq!(SmallValue::QWord(9).number_bytes(&ctx), ByteSize::Exact(8));
    assert_eq!(SmallValue::Byte(9).fitting_bytes(), ByteSize::Exact(1));
    assert_eq!(SmallValue::QWord(9).fitting_bytes(), ByteSize::Exact(8));
    assert_eq!(SmallValue::Word(513).value(), 513);
}

#[test]
fn sizes_of_expressions_and_tokens() {
    let ctx = context("");
    assert_eq!(Expr::Bytes(vec![1, 2, 3]).number_bytes(&ctx), ByteSize::Exact(3));
    assert_eq!(Expr::StringSlice("héllo".to_string()).number_bytes(&ctx), ByteSize::Exact(6));
    assert_eq!(
        Expr::Type(Type { size: ByteSize::Exact(9), predicate: None }).number_bytes(&ctx),
        ByteSize::Exact(0)
    );
    let call = Expr::FnCall(FnCall { name: "f".to_string(), args: vec![] });
    assert_eq!(call.number_bytes(&ctx), ByteSize::AnySize);
    assert_eq!(ident("x").number_bytes(&ctx), ByteSize::AnySize);
    assert_eq!(RawToken::Symbol('x').number_bytes(&ctx), ByteSize::Exact(1));
    assert_eq!(number(1000).number_bytes(&ctx), ByteSize::Range(1..8));
    assert_eq!(number(1000).fitting_bytes(&ctx), ByteSize::Range(2..8));
    assert_eq!(ident("x").fitting_bytes(&ctx), ByteSize::AnySize);
    assert_eq!(RawToken::Symbol('x').fitting_bytes(&ctx), ByteSize::Exact(1));
    assert_eq!(Expr::Bytes(vec![1, 2, 3]).fitting_bytes(&ctx), ByteSize::Exact(3));
    assert_eq!(ident("x").token_kind(), TokenKind::Ident);
    assert_eq!(RawToken::Symbol('x').token_kind(), TokenKind::Symbol);
    assert_eq!(number(1).token_kind(), TokenKind::Expr);
}

#[test]
fn tokens_are_the_same_when_they_read_the_same() {
    assert!(ident("a").same(&ident("a")));
    assert!(!ident("a").same(&ident("b")));
    assert!(!ident("a").same(&RawToken::Symbol('a')));
    assert!(number(3).same(&number(3)));
    assert!(!number(3).same(&number(4)));
    assert!(!number(3).same(&RawToken::Expr(Expr::SmallValue(SmallValue::Byte(3)))));
    let bytes = |b: Vec<u8>| RawToken::Expr(Expr::Bytes(b));
    assert!(bytes(vec![1, 2]).same(&bytes(vec![1, 2])));
    assert!(!bytes(vec![1, 2]).same(&bytes(vec![1, 3])));
    assert!(!bytes(vec![1, 2]).same(&bytes(vec![1])));
}

#[test]
fn an_assignment_is_the_same_as_nothing() {
    let make = || Expr::Assign(Assign {
        name: "x".to_string(),
        value: Box::new(Expr::SmallValue(SmallValue::Byte(1))),
    });
    assert!(!make().same(&make()));
    let one = make();
    assert!(!one.same(&one));
    let holder = |e: Expr| Expr::FnDef(FnDef {
        signature: FnSignature { params: vec![] },
        body: ListContent { elements: vec![e] },
    });
    assert!(!holder(make()).same(&holder(make())));
    assert!(holder(Expr::Bytes(vec![])).same(&holder(Expr::Bytes(vec![]))));
}

#[test]
fn the_name_of_a_parameter_does_not_count() {
    let a = Param::ParamExpr(typed(Some("a"), Some("u8")));
    let b = Param::ParamExpr(typed(Some("b"), Some("u8")));
    let c = Param::ParamExpr(typed(Some("a"), Some("u16")));
    let d = Param::ParamExpr(typed(Some("a"), None));
    assert!(a.same(&b));
    assert!(!a.same(&c));
    assert!(!a.same(&d));
    assert!(d.same(&Param::ParamExpr(typed(None, None))));
    assert!(!a.same(&Param::LiteralMatcher(ident("a"))));
    assert!(Param::LiteralMatcher(ident("a")).same(&Param::LiteralMatcher(ident("a"))));
}

#[test]
fn a_literal_parameter_takes_the_very_same_token_only() {
    let ctx = context("");
    let by = Param::LiteralMatcher(ident("by"));
    assert!(by.matches_arg(&ctx, &ident("by")));
    assert!(!by.matches_arg(&ctx, &ident("to")));
    assert!(!by.matches_arg(&ctx, &RawToken::Symbol('b')));
    assert_eq!(by.number_bytes(&ctx), Some(ByteSize::AnySize));
    let three = Param::LiteralMatcher(number(3));
    assert!(three.matches_arg(&ctx, &number(3)));
    assert!(!three.matches_arg(&ctx, &number(4)));
}

#[test]
fn a_typed_parameter_takes_what_shares_a_size_with_its_type() {
    let mut ctx = context("");
    declare(&mut ctx, "u8", ByteSize::Exact(1));
    declare(&mut ctx, "mid", ByteSize::Range(2..4));
    let u8_param = typed(Some("a"), Some("u8"));
    assert!(u8_param.matches_arg(&ctx, &number(3)));
    assert!(u8_param.matches_arg(&ctx, &number(300)));
    assert!(u8_param.matches_arg(&ctx, &ident("anything")));
    assert!(u8_param.matches_arg(&ctx, &RawToken::Symbol('+')));
    assert!(!u8_param.matches_arg(&ctx, &RawToken::Expr(Expr::Bytes(vec![1, 2]))));
    assert_eq!(u8_param.number_bytes(&ctx), Some(ByteSize::Exact(1)));
    let mid = typed(None, Some("mid"));
    assert!(mid.matches_arg(&ctx, &RawToken::Expr(Expr::Bytes(vec![1, 2, 3]))));
    assert!(!mid.matches_arg(&ctx, &RawToken::Expr(Expr::Bytes(vec![1, 2, 3, 4]))));
    assert!(mid.matches_arg(&ctx, &number(3)));
    let untyped = typed(Some("x"), None);
    assert!(untyped.matches_arg(&ctx, &RawToken::Expr(Expr::Bytes(vec![0; 100]))));
    assert_eq!(untyped.number_bytes(&ctx), Some(ByteSize::AnySize));
    let unknown = typed(None, Some("nothing"));
    assert!(!unknown.matches_arg(&ctx, &number(3)));
    assert_eq!(unknown.number_bytes(&ctx), None);
}

#[test]
fn the_predicate_of_a_type_decides_too() {
    let mut ctx = context("");
    ctx.types.insert(
        "name".to_string(),
        Type { size: ByteSize::AnySize, predicate: Some(TokenKind::Ident) },
    );
    let param = typed(None, Some("name"));
    assert!(param.matches_arg(&ctx, &ident("x")));
    assert!(!param.matches_arg(&ctx, &number(1)));
    assert!(!param.matches_arg(&ctx, &RawToken::Symbol('x')));
    let ty = Type { size: ByteSize::Exact(1), predicate: Some(TokenKind::Symbol) };
    assert!(ty.accepts_token(&RawToken::Symbol('x')));
    assert!(!ty.accepts_token(&ident("x")));
    assert!(ty.same(&ty.clone()));
    assert!(!ty.same(&Type { size: ByteSize::Exact(1), predicate: None }));
}

#[test]
fn a_signature_takes_as_many_arguments_as_it_has_parameters() {
    let mut ctx = context("");
    declare(&mut ctx, "u8", ByteSize::Exact(1));
    let signature = FnSignature {
        params: vec![Param::ParamExpr(typed(None, Some("u8"))), Param::LiteralMatcher(ident("by"))],
    };
    assert!(signature.matches_args(&ctx, &vec![number(1), ident("by")]));
    assert!(!signature.matches_args(&ctx, &vec![number(1)]));
    assert!(!signature.matches_args(&ctx, &vec![number(1), ident("by"), number(2)]));
    assert!(!signature.matches_args(&ctx, &vec![ident("by"), number(1)]));
    assert!(!signature.matches_args(&ctx, &vec![number(1), ident("to")]));
    assert!(FnSignature { params: vec![] }.matches_args(&ctx, &vec![]));
}

#[test]
fn the_size_of_an_argument_under_a_type() {
    assert_eq!(pick(&ByteSize::Exact(4), &ByteSize::Exact(9)), Some(4));
    assert_eq!(pick(&ByteSize::Exact(4), &ByteSize::Range(1..2)), Some(4));
    assert_eq!(pick(&ByteSize::Range(1..8), &ByteSize::Exact(4)), Some(4));
    assert_eq!(pick(&ByteSize::Range(1..8), &ByteSize::Exact(8)), None);
    assert_eq!(pick(&ByteSize::Range(1..8), &ByteSize::Range(3..5)), Some(3));
    assert_eq!(pick(&ByteSize::Range(4..8), &ByteSize::Range(1..5)), Some(4));
    assert_eq!(pick(&ByteSize::Range(4..8), &ByteSize::Range(1..4)), None);
    assert_eq!(pick(&ByteSize::Range(4..8), &ByteSize::AnySize), Some(4));
    assert_eq!(pick(&ByteSize::AnySize, &ByteSize::Exact(7)), Some(7));
    assert_eq!(pick(&ByteSize::AnySize, &ByteSize::Range(2..3)), Some(2));
    assert_eq!(pick(&ByteSize::AnySize, &ByteSize::AnySize), Some(0));
    assert_eq!(pick(&ByteSize::AnySize, &ByteSize::Range(3..3)), None);
}

#[test]
fn resolve_arg_size_names_both_sizes_when_they_share_none() {
    let ctx = context("one\ntwo");
    let u8_range = Type { size: ByteSize::Range(1..2), predicate: None };
    assert_eq!(resolve_arg_size(&ctx, &u8_range, &number(3)).ok(), Some(1));
    assert_eq!(
        resolve_arg_size(&ctx, &Type { size: ByteSize::Exact(1), predicate: None }, &number(300)).ok(),
        Some(1)
    );
    match resolve_arg_size(&ctx, &u8_range, &number(300)) {
        Err(CheckError::CompileError(place, error)) => {
            assert_eq!(error.kind, ErrorKind::TypeSizeMismatch);
            assert_eq!(error.message, "Type size mismatch: no overlap between (1..2)b and (2..8)b");
            assert_eq!(place.line, 1);
            assert_eq!(place.line_content, "one");
            assert_eq!(place.filename, "test");
        }
        other => panic!("expected a size mismatch, got {:?}", other),
    }
}

#[test]
fn a_name_as_argument_stands_for_its_value() {
    let value = Expr::Bytes(vec![1, 2, 3]);
    let mut ctx = context("");
    ctx.symbols.insert("x".to_string(), 1, &value);
    ctx.symbols.insert("twice".to_string(), 1, &value);
    ctx.symbols.insert("twice".to_string(), 2, &value);
    assert_eq!(size_of_argument(&ctx, &vec![0, 1], &ident("x")).ok(), Some(ByteSize::Exact(3)));
    assert_eq!(
        size_of_argument(&ctx, &vec![0], &ident("x")).err().and_then(|e| e.kind()),
        Some(ErrorKind::UndefinedIdentifier)
    );
    assert_eq!(
        size_of_argument(&ctx, &vec![1, 2], &ident("twice")).err().and_then(|e| e.kind()),
        Some(ErrorKind::AmbiguousBinding)
    );
    assert_eq!(size_of_argument(&ctx, &vec![2], &ident("twice")).ok(), Some(ByteSize::Exact(3)));
    assert_eq!(size_of_argument(&ctx, &vec![], &number(1)).ok(), Some(ByteSize::Range(1..8)));
}

#[test]
fn push_args_pushes_at_the_depth_of_the_state() {
    let mut ctx = context("");
    declare(&mut ctx, "u8", ByteSize::Exact(1));
    declare(&mut ctx, "wide", ByteSize::Range(2..8));
    let params = vec![
        Param::ParamExpr(typed(None, Some("u8"))),
        Param::LiteralMatcher(ident("and")),
        Param::ParamExpr(typed(None, Some("wide"))),
        Param::ParamExpr(typed(None, None)),
    ];
    let args = vec![number(1), ident("and"), number(5), RawToken::Symbol('*')];
    let state = CompilationState { highest_scope: 7, indentation_level: 2 };
    let mut out = String::from("before\n");
    push_args(&mut out, &ctx, &state, &vec![0], &args, &params).expect("all sizes fit");
    assert_eq!(
        out,
        "before\n        push 1b *\n        push 2b Int(5)\n        push 1b Int(1)\n"
    );

    let mut out = String::new();
    let short = vec![number(1)];
    push_args(&mut out, &ctx, &state, &vec![0], &short, &params).expect("one pair");
    assert_eq!(out, "        push 1b Int(1)\n");

    let mut out = String::new();
    let bad = vec![number(1), ident("and"), RawToken::Symbol('x'), ident("unbound")];
    let error = push_args(&mut out, &ctx, &state, &vec![0], &bad, &params).expect_err("fails");
    assert_eq!(error.kind(), Some(ErrorKind::UndefinedIdentifier));
    let bad = vec![number(1), ident("and"), RawToken::Symbol('x'), number(1)];
    let error = push_args(&mut out, &ctx, &state, &vec![0], &bad, &params).expect_err("fails");
    assert_eq!(error.kind(), Some(ErrorKind::TypeSizeMismatch));
}

#[test]
fn parameters_are_popped_in_the_order_of_their_declaration() {
    let mut ctx = context("");
    declare(&mut ctx, "u8", ByteSize::Exact(1));
    declare(&mut ctx, "wide", ByteSize::Range(2..8));
    let params = vec![
        Param::ParamExpr(typed(Some("a"), Some("u8"))),
        Param::LiteralMatcher(ident("and")),
        Param::ParamExpr(typed(None, Some("wide"))),
        Param::ParamExpr(typed(Some("rest"), None)),
    ];
    let state = CompilationState { highest_scope: 0, indentation_level: 1 };
    let mut out = String::new();
    stack_pop_remaining_parameters(&ctx, &mut out, &state, &params).expect("all types known");
    assert_eq!(
        out,
        "    pop 1b -> r0 : a\n    pop (2..8)b -> r0\n    pop AnySize -> r0 : rest\n"
    );
    let unknown = vec![Param::ParamExpr(typed(Some("a"), Some("u9")))];
    let error = stack_pop_remaining_parameters(&ctx, &mut out, &state, &unknown).expect_err("fails");
    assert_eq!(error.kind(), Some(ErrorKind::UndefinedType));
}

#[test]
fn resolve_finds_the_function_that_a_call_means() {
    let first = Expr::FnDef(FnDef {
        signature: FnSignature { params: vec![Param::LiteralMatcher(ident("left"))] },
        body: ListContent { elements: vec![] },
    });
    let second = Expr::FnDef(FnDef {
        signature: FnSignature { params: vec![Param::LiteralMatcher(ident("right"))] },
        body: ListContent { elements: vec![] },
    });
    let value = Expr::Bytes(vec![]);
    let mut ctx = context("");
    ctx.symbols.insert("turn".to_string(), 1, &value);
    ctx.symbols.insert("turn".to_string(), 1, &first);
    ctx.symbols.insert("turn".to_string(), 2, &second);
    let call = |arg: &str| FnCall { name: "turn".to_string(), args: vec![ident(arg)] };
    let found = resolve(&call("right"), &ctx, &vec![1, 2]).expect("one match");
    assert_eq!(found.signature.to_text(), "[ right ]");
    let found = resolve(&call("left"), &ctx, &vec![2, 1]).expect("one match");
    assert_eq!(found.signature.to_text(), "[ left ]");
    assert_eq!(
        resolve(&call("right"), &ctx, &vec![1]).err().and_then(|e| e.kind()),
        Some(ErrorKind::SignatureMismatch)
    );
    assert_eq!(
        resolve(&call("up"), &ctx, &vec![1, 2]).err().map(|e| e.to_text()),
        Some("[Compile Error]<test 1> Function signature mismatch: the arguments of \"turn up\" match no signature; one candidate is turn [ left ]\n\t\"\"".to_string())
    );
    assert_eq!(
        resolve(&call("left"), &ctx, &vec![3]).err().and_then(|e| e.kind()),
        Some(ErrorKind::UndefinedFunction)
    );
    assert_eq!(count_values_in_scope(&ctx, "turn", 1), 1);
    assert_eq!(count_values_in_scope(&ctx, "turn", 2), 0);
}

#[test]
fn lines_of_a_source_are_counted_from_one() {
    let source = "first\nsecond\r\n\nfourth";
    assert_eq!(line_of(source, 0), "");
    assert_eq!(line_of(source, 1), "first");
    assert_eq!(line_of(source, 2), "second");
    assert_eq!(line_of(source, 3), "");
    assert_eq!(line_of(source, 4), "fourth");
    assert_eq!(line_of(source, 5), "");
    assert_eq!(line_of("a\n", 2), "");
    assert_eq!(line_of("", 1), "");
}

#[test]
fn errors_have_a_text() {
    let place = FileContext { filename: "prog".to_string(), source: "a\nb b\nc", line: 2 };
    let error = semantic_error(&place, ErrorKind::UndefinedIdentifier, "gone".to_string());
    assert_eq!(error.kind(), Some(ErrorKind::UndefinedIdentifier));
    assert_eq!(error.to_text(), "[Compile Error]<prog 2> gone\n\t\"b b\"");
    let res: Result<u8, CheckError> = report_error(&place, ErrorKind::UndefinedType, "no".to_string());
    assert_eq!(res.err().map(|e| e.to_text()), Some("[Compile Error]<prog 2> no\n\t\"b b\"".to_string()));
    let emit = CheckError::EmitError("pipe closed".to_string());
    assert_eq!(emit.kind(), None);
    assert_eq!(emit.to_text(), "pipe closed");
}

#[test]
fn the_free_register_is_always_register_zero() {
    assert_eq!(free_register(), Register(0));
    assert_eq!(free_register(), Register(0));
    let mut out = String::new();
    Register(12).push_text(&mut out);
    assert_eq!(out, "r12");
}

#[test]
fn layers_and_levels_have_names() {
    assert_eq!(Layer::from_str("hll"), Ok(Layer::HighLevelLayer));
    assert_eq!(Layer::from_str("cl"), Ok(Layer::CLayer));
    assert_eq!(Layer::from_str("al"), Ok(Layer::AsmLayer));
    assert_eq!(Layer::from_str("hl"), Ok(Layer::HardwareLayer));
    assert_eq!(Layer::from_str("bin"), Ok(Layer::Binary));
    assert_eq!(Layer::from_str("BIN"), Err("Unknown expansion layer: BIN".to_string()));
    assert_eq!(Layer::AsmLayer.to_text(), "al");
    assert!(Layer::HighLevelLayer < Layer::Binary);
    assert_eq!(Verbosity::from_str("error"), Ok(Verbosity::Error));
    assert_eq!(Verbosity::from_str("warn"), Ok(Verbosity::Warn));
    assert_eq!(Verbosity::from_str("info"), Ok(Verbosity::Info));
    assert_eq!(Verbosity::from_str("debug"), Ok(Verbosity::Debug));
    assert_eq!(Verbosity::from_str("trace"), Ok(Verbosity::Trace));
    assert_eq!(Verbosity::from_str(""), Err("Unknown verbosity level: ".to_string()));
    assert_eq!(Verbosity::Debug.to_text(), "debug");
    assert!(Verbosity::Debug.at_least(Verbosity::Info));
    assert!(Verbosity::Info.at_least(Verbosity::Info));
    assert!(!Verbosity::Warn.at_least(Verbosity::Info));
    assert!(Verbosity::Trace > Verbosity::Error);
}

#[test]
fn text_is_built_character_by_character() {
    let mut out = String::from(">");
    push_decimal(&mut out, 0);
    push_decimal(&mut out, 1090);
    push_hex_bytes(&mut out, &vec![0x0f, 0xa0, 0x99]);
    push_repeat(&mut out, '.', 3);
    assert_eq!(out, ">010900FA099...");
    assert_eq!(chars_of("héy"), vec!['h', 'é', 'y']);
    assert_eq!(string_of(&vec!['a', 'b', 'c', 'd'], 1, 3), "bc");
    assert_eq!(string_of(&vec!['a'], 1, 1), "");
}
