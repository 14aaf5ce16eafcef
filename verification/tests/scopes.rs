use eas::ast::{Expr, SmallValue, Type};
use eas::byte_size::ByteSize;
use eas::lexer::FileContext;
use eas::scope::{
    change_indentation, current_padding, current_scope, find_type, next_scope, on_stack, reset_scope_and_indent,
    CompilationState, IndentationChange, ProgramContext, SymbolTable, TypeRegistry,
};

#[test]
fn scopes_grow_and_reset() {
    let mut state = CompilationState::new();
    assert_eq!(next_scope(&mut state), 0);
    assert_eq!(next_scope(&mut state), 1);
    assert_eq!(next_scope(&mut state), 2);
    assert_eq!(state.highest_scope, 3);
    change_indentation(&mut state, IndentationChange::More);
    reset_scope_and_indent(&mut state);
    assert_eq!(state, CompilationState { highest_scope: 0, indentation_level: 0 });
    assert_eq!(next_scope(&mut state), 0);
}

#[test]
fn scope_counter_stops_at_the_largest_number() {
    let mut state = CompilationState { highest_scope: usize::MAX - 1, indentation_level: 0 };
    assert_eq!(next_scope(&mut state), usize::MAX - 1);
    assert_eq!(next_scope(&mut state), usize::MAX);
    assert_eq!(next_scope(&mut state), usize::MAX);
}

#[test]
fn indentation_moves_by_one_level_and_never_touches_scopes() {
    let mut state = CompilationState::new();
    next_scope(&mut state);
    assert_eq!(current_padding(&state), "");
    assert_eq!(current_scope(&state), 1);
    assert_eq!(change_indentation(&mut state, IndentationChange::More), 0);
    assert_eq!(current_padding(&state), "    ");
    assert_eq!(change_indentation(&mut state, IndentationChange::More), 1);
    assert_eq!(current_padding(&state), "        ");
    assert_eq!(change_indentation(&mut state, IndentationChange::Less), 2);
    assert_eq!(change_indentation(&mut state, IndentationChange::Less), 1);
    assert_eq!(change_indentation(&mut state, IndentationChange::Less), 0);
    assert_eq!(state.indentation_level, 0);
    assert_eq!(state.highest_scope, 1);
}

#[test]
fn a_binding_is_found_exactly_when_its_scope_is_on_the_stack() {
    let value = Expr::SmallValue(SmallValue::Byte(1));
    let mut table = SymbolTable::new();
    table.insert("x".to_string(), 3, &value);
    assert_eq!(table.lookup("x", &vec![3]).len(), 1);
    assert_eq!(table.lookup("x", &vec![0, 3, 7]).len(), 1);
    assert_eq!(table.lookup("x", &vec![3, 0]).len(), 1);
    assert_eq!(table.lookup("x", &vec![9, 8, 3]).len(), 1);
    assert_eq!(table.lookup("x", &vec![]).len(), 0);
    assert_eq!(table.lookup("x", &vec![2, 4]).len(), 0);
    assert_eq!(table.lookup("x", &vec![0, 1, 2, 4, 5]).len(), 0);
    assert_eq!(table.lookup("y", &vec![3]).len(), 0);
    assert_eq!(table.lookup("x", &vec![3])[0].scope, 3);
}

#[test]
fn lookup_keeps_the_order_of_insertion_and_never_overwrites() {
    let one = Expr::SmallValue(SmallValue::Byte(1));
    let two = Expr::SmallValue(SmallValue::Byte(2));
    let three = Expr::SmallValue(SmallValue::Byte(3));
    let mut table = SymbolTable::new();
    table.insert("x".to_string(), 1, &one);
    table.insert("y".to_string(), 1, &two);
    table.insert("x".to_string(), 2, &two);
    table.insert("x".to_string(), 1, &three);
    assert_eq!(table.entries.len(), 4);
    let found = table.lookup("x", &vec![2, 1]);
    assert_eq!(found.len(), 3);
    assert_eq!(found[0].scope, 1);
    assert_eq!(found[1].scope, 2);
    assert_eq!(found[2].scope, 1);
    assert!(found[0].value.same(&one));
    assert!(found[1].value.same(&two));
    assert!(found[2].value.same(&three));
    assert_eq!(table.lookup("x", &vec![2]).len(), 1);
}

#[test]
fn on_stack_finds_a_scope_anywhere() {
    assert!(on_stack(&vec![4, 5, 6], 4));
    assert!(on_stack(&vec![4, 5, 6], 5));
    assert!(on_stack(&vec![4, 5, 6], 6));
    assert!(!on_stack(&vec![4, 5, 6], 7));
    assert!(!on_stack(&vec![], 0));
}

#[test]
fn a_later_declaration_of_a_type_replaces_the_earlier_one() {
    let mut types = TypeRegistry::new();
    assert!(types.get("u8").is_none());
    types.insert("u8".to_string(), Type { size: ByteSize::Exact(1), predicate: None });
    types.insert("u16".to_string(), Type { size: ByteSize::Exact(2), predicate: None });
    assert_eq!(types.get("u8"), Some(&Type { size: ByteSize::Exact(1), predicate: None }));
    types.insert("u8".to_string(), Type { size: ByteSize::Range(1..2), predicate: None });
    assert_eq!(types.get("u8"), Some(&Type { size: ByteSize::Range(1..2), predicate: None }));
    assert_eq!(types.get("u16"), Some(&Type { size: ByteSize::Exact(2), predicate: None }));
    assert!(types.get("u32").is_none());
}

#[test]
fn find_type_looks_in_the_context() {
    let source = "";
    let mut ctx = ProgramContext::new(FileContext { filename: "t".to_string(), source, line: 1 });
    assert!(find_type(&ctx, "deg").is_none());
    ctx.types.insert("deg".to_string(), Type { size: ByteSize::Exact(3), predicate: None });
    assert_eq!(find_type(&ctx, "deg").map(|t| t.size.clone()), Some(ByteSize::Exact(3)));
    assert!(ctx.symbols.entries.is_empty());
}
