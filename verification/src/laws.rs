//! What holds of scopes, shadowing, overloads and whole compilations, for every input.

use crate::ast::{Assign, Ast, Expr, FnCall, FnDef, ListContent, Param, RawToken, Type};
use crate::binding::{build_assign, build_block, build_elements, build_expr, build_program, Built};
use crate::calls::{functions, matching, pushes, resolve_call};
use crate::emit::{
    emit_assign,
    emit_block,
    emit_elements,
    emit_expr,
    emit_fn_def,
    emit_program,
    lemma_elements_fail,
    pops,
    shadows,
    values_in_scope,
    Emitted,
};
use crate::errors::{ErrorKind, Failure};
use crate::matching::signature_matches;
use crate::messages::{shadowing_violation, signature_mismatch};
use crate::pipeline::built_from_nothing;
use crate::scope::{succ, visible, Binding, CompilationState, Known, ScopeId, Symbol};
use vstd::prelude::*;

verus! {

/// Scopes are handed out in growing order: a scope handed out from a counter that has
/// not reached the largest number the machine holds is smaller than every scope
/// handed out later in the same compilation, for the counter never goes back before
/// the next reset.
pub proof fn lemma_scopes_grow(first: CompilationState, later: CompilationState)
    requires
        first.highest_scope < usize::MAX,
        succ(first.highest_scope) <= later.highest_scope,
    ensures
        first.highest_scope < later.highest_scope,
        first.highest_scope < succ(later.highest_scope),
{
}

/// A new binding is found under its name exactly when its scope is on the stack,
/// wherever on the stack it is: then it is the last of the symbols found, and
/// otherwise lookup finds what it found before.
pub proof fn lemma_new_binding_visible(
    entries: Seq<Binding>,
    binding: Binding,
    stack: Seq<ScopeId>,
)
    ensures
        stack.contains(binding.symbol.scope) ==> visible(
            entries.push(binding),
            binding.name@,
            stack,
        ) == visible(entries, binding.name@, stack).push(binding.symbol),
        !stack.contains(binding.symbol.scope) ==> visible(
            entries.push(binding),
            binding.name@,
            stack,
        ) == visible(entries, binding.name@, stack),
{
    assert(entries.push(binding).drop_last() =~= entries);
}

/// Lookup finds a symbol exactly when some binding of the name holds it and its scope
/// is on the stack. A binding whose scope is not on the stack is not found, whatever
/// other scopes are.
pub proof fn lemma_visible_iff_on_stack(
    entries: Seq<Binding>,
    name: Seq<char>,
    stack: Seq<ScopeId>,
    symbol: Symbol,
)
    ensures
        visible(entries, name, stack).contains(symbol) <==> stack.contains(symbol.scope)
            && exists|i: int|
            0 <= i < entries.len() && (#[trigger] entries[i]).name@ == name && entries[i].symbol
                == symbol,
    decreases entries.len(),
{
    if entries.len() > 0 {
        let before = entries.drop_last();
        let last = entries.last();
        lemma_visible_iff_on_stack(before, name, stack, symbol);
        let found = visible(before, name, stack);
        if last.name@ == name && stack.contains(last.symbol.scope) {
            let all = found.push(last.symbol);
            if all.contains(symbol) {
                let k = choose|k: int| 0 <= k < all.len() && all[k] == symbol;
                if k < found.len() {
                    assert(found[k] == symbol);
                    assert(found.contains(symbol));
                    let i = choose|i: int|
                        0 <= i < before.len() && (#[trigger] before[i]).name@ == name
                            && before[i].symbol == symbol;
                    assert(entries[i] == before[i]);
                } else {
                    assert(entries[entries.len() - 1].symbol == symbol);
                }
            }
            if stack.contains(symbol.scope) && exists|i: int|
                0 <= i < entries.len() && (#[trigger] entries[i]).name@ == name
                    && entries[i].symbol == symbol {
                let i = choose|i: int|
                    0 <= i < entries.len() && (#[trigger] entries[i]).name@ == name
                        && entries[i].symbol == symbol;
                if i < before.len() {
                    assert(before[i] == entries[i]);
                    assert(found.contains(symbol));
                    let k = choose|k: int| 0 <= k < found.len() && found[k] == symbol;
                    assert(all[k] == symbol);
                } else {
                    assert(all[all.len() - 1] == symbol);
                }
            }
        } else {
            if found.contains(symbol) {
                let i = choose|i: int|
                    0 <= i < before.len() && (#[trigger] before[i]).name@ == name
                        && before[i].symbol == symbol;
                assert(entries[i] == before[i]);
            }
            if stack.contains(symbol.scope) && exists|i: int|
                0 <= i < entries.len() && (#[trigger] entries[i]).name@ == name
                    && entries[i].symbol == symbol {
                let i = choose|i: int|
                    0 <= i < entries.len() && (#[trigger] entries[i]).name@ == name
                        && entries[i].symbol == symbol;
                assert(i < before.len());
                assert(before[i] == entries[i]);
            }
        }
    }
}

/// Whether the binding gives the name a value, functions aside, in the scope.
pub open spec fn is_value_in(binding: Binding, name: Seq<char>, scope: ScopeId) -> bool {
    binding.name@ == name && binding.symbol.scope == scope && !(*binding.symbol.value is FnDef)
}

/// A scope that binds a value at some place binds at least one.
proof fn lemma_count_at_least_one(entries: Seq<Binding>, name: Seq<char>, scope: ScopeId, i: int)
    requires
        0 <= i < entries.len(),
        is_value_in(entries[i], name, scope),
    ensures
        values_in_scope(entries, name, scope) >= 1 + values_in_scope(
            entries.take(i),
            name,
            scope,
        ),
    decreases entries.len(),
{
    if i == entries.len() - 1 {
        assert(entries.drop_last() =~= entries.take(i));
    } else {
        lemma_count_at_least_one(entries.drop_last(), name, scope, i);
        assert(entries.drop_last().take(i) =~= entries.take(i));
    }
}

/// A scope that binds two values binds them at two places.
proof fn lemma_count_two_places(entries: Seq<Binding>, name: Seq<char>, scope: ScopeId) -> (places:
    (int, int))
    requires
        values_in_scope(entries, name, scope) >= 2,
    ensures
        0 <= places.0 < places.1 < entries.len(),
        is_value_in(entries[places.0], name, scope),
        is_value_in(entries[places.1], name, scope),
    decreases entries.len(),
{
    let before = entries.drop_last();
    if values_in_scope(before, name, scope) >= 2 {
        lemma_count_two_places(before, name, scope)
    } else {
        let first = lemma_count_one_place(before, name, scope);
        (first, entries.len() - 1)
    }
}

/// A scope that binds a value binds it at some place.
proof fn lemma_count_one_place(entries: Seq<Binding>, name: Seq<char>, scope: ScopeId) -> (place:
    int)
    requires
        values_in_scope(entries, name, scope) >= 1,
    ensures
        0 <= place < entries.len(),
        is_value_in(entries[place], name, scope),
    decreases entries.len(),
{
    let before = entries.drop_last();
    if values_in_scope(before, name, scope) >= 1 {
        lemma_count_one_place(before, name, scope)
    } else {
        entries.len() - 1
    }
}

/// Two values for one name in one scope are an error: where the innermost scope binds
/// the name of an assignment to values at two places, the assignment fails with
/// a `ShadowingViolation`, whatever its own value emits.
pub proof fn lemma_same_scope_shadows(
    assign: Assign,
    ctx: Known,
    next: usize,
    level: usize,
    stack: Seq<ScopeId>,
    first: int,
    second: int,
)
    requires
        stack.len() > 0,
        !(*assign.value is FnDef),
        !(*assign.value is Type),
        0 <= first < second < ctx.entries.len(),
        is_value_in(ctx.entries[first], assign.name@, stack.last()),
        is_value_in(ctx.entries[second], assign.name@, stack.last()),
    ensures
        emit_assign(assign, ctx, next, level, stack) == Err::<Emitted, Failure>(
            shadowing_violation(assign.name@),
        ),
{
    let name = assign.name@;
    let scope = stack.last();
    lemma_count_at_least_one(ctx.entries, name, scope, second);
    lemma_count_at_least_one(ctx.entries.take(second), name, scope, first);
}

/// Values for one name in different scopes do not conflict: where no two bindings of
/// the name of an assignment give it a value in one and the same scope, the assignment
/// does not shadow, whatever scope it stands in.
pub proof fn lemma_sibling_scopes_do_not_shadow(assign: Assign, ctx: Known, stack: Seq<ScopeId>)
    requires
        forall|i: int, j: int|
            0 <= i < j < ctx.entries.len() && (#[trigger] ctx.entries[i]).name@ == assign.name@
                && (#[trigger] ctx.entries[j]).name@ == assign.name@ && !(
            *ctx.entries[i].symbol.value is FnDef) && !(*ctx.entries[j].symbol.value is FnDef)
                ==> ctx.entries[i].symbol.scope != ctx.entries[j].symbol.scope,
    ensures
        !shadows(assign, ctx, stack),
{
    if shadows(assign, ctx, stack) {
        let places = lemma_count_two_places(ctx.entries, assign.name@, stack.last());
        assert(ctx.entries[places.0].symbol.scope == ctx.entries[places.1].symbol.scope);
    }
}

/// Where no function takes the arguments, none is kept.
proof fn lemma_matching_none(fns: Seq<FnDef>, types: Map<Seq<char>, Type>, args: Seq<RawToken>)
    requires
        forall|i: int| 0 <= i < fns.len() ==> !signature_matches(
            (#[trigger] fns[i]).signature,
            types,
            args,
        ),
    ensures
        matching(fns, types, args).len() == 0,
    decreases fns.len(),
{
    if fns.len() > 0 {
        let before = fns.drop_last();
        assert forall|i: int| 0 <= i < before.len() implies !signature_matches(
            (#[trigger] before[i]).signature,
            types,
            args,
        ) by {
            assert(before[i] == fns[i]);
        }
        lemma_matching_none(before, types, args);
        assert(fns.last() == fns[fns.len() - 1]);
    }
}

/// Where exactly one function takes the arguments, it alone is kept.
proof fn lemma_matching_one(
    fns: Seq<FnDef>,
    types: Map<Seq<char>, Type>,
    args: Seq<RawToken>,
    only: int,
)
    requires
        0 <= only < fns.len(),
        forall|i: int|
            0 <= i < fns.len() ==> (signature_matches((#[trigger] fns[i]).signature, types, args)
                <==> i == only),
    ensures
        matching(fns, types, args) == seq![fns[only]],
    decreases fns.len(),
{
    let before = fns.drop_last();
    assert(fns.last() == fns[fns.len() - 1]);
    if only == fns.len() - 1 {
        assert forall|i: int| 0 <= i < before.len() implies !signature_matches(
            (#[trigger] before[i]).signature,
            types,
            args,
        ) by {
            assert(before[i] == fns[i]);
        }
        lemma_matching_none(before, types, args);
        assert(matching(fns, types, args) =~= seq![fns[only]]);
    } else {
        assert forall|i: int| 0 <= i < before.len() implies (signature_matches(
            (#[trigger] before[i]).signature,
            types,
            args,
        ) <==> i == only) by {
            assert(before[i] == fns[i]);
        }
        lemma_matching_one(before, types, args, only);
        assert(before[only] == fns[only]);
    }
}

/// A function that takes the arguments is kept, behind those kept before it.
proof fn lemma_matching_grows(
    fns: Seq<FnDef>,
    types: Map<Seq<char>, Type>,
    args: Seq<RawToken>,
    at: int,
)
    requires
        0 <= at < fns.len(),
        signature_matches(fns[at].signature, types, args),
    ensures
        matching(fns, types, args).len() >= 1 + matching(fns.take(at), types, args).len(),
    decreases fns.len(),
{
    if at == fns.len() - 1 {
        assert(fns.drop_last() =~= fns.take(at));
    } else {
        lemma_matching_grows(fns.drop_last(), types, args, at);
        assert(fns.drop_last().take(at) =~= fns.take(at));
    }
}

/// The functions that the visible scopes bind to the name of a call.
pub open spec fn candidates(call: FnCall, ctx: Known, stack: Seq<ScopeId>) -> Seq<FnDef> {
    functions(visible(ctx.entries, call.name@, stack))
}

/// A call whose arguments exactly one of the functions of its name takes means that
/// function, however many others bear the name.
pub proof fn lemma_only_match_is_chosen(call: FnCall, ctx: Known, stack: Seq<ScopeId>, only: int)
    requires
        0 <= only < candidates(call, ctx, stack).len(),
        forall|i: int|
            0 <= i < candidates(call, ctx, stack).len() ==> (signature_matches(
                (#[trigger] candidates(call, ctx, stack)[i]).signature,
                ctx.types,
                call.args@,
            ) <==> i == only),
    ensures
        resolve_call(call, ctx, stack) == Ok::<FnDef, Failure>(
            candidates(call, ctx, stack)[only],
        ),
{
    let fns = candidates(call, ctx, stack);
    lemma_matching_one(fns, ctx.types, call.args@, only);
    lemma_functions_need_symbols(visible(ctx.entries, call.name@, stack));
}

/// A call whose arguments two of the functions of its name take is ambiguous.
pub proof fn lemma_two_matches_are_ambiguous(
    call: FnCall,
    ctx: Known,
    stack: Seq<ScopeId>,
    first: int,
    second: int,
)
    requires
        0 <= first < second < candidates(call, ctx, stack).len(),
        signature_matches(candidates(call, ctx, stack)[first].signature, ctx.types, call.args@),
        signature_matches(candidates(call, ctx, stack)[second].signature, ctx.types, call.args@),
    ensures
        resolve_call(call, ctx, stack) matches Err(failure) && failure.kind
            == ErrorKind::AmbiguousOverload,
{
    let fns = candidates(call, ctx, stack);
    lemma_matching_grows(fns, ctx.types, call.args@, second);
    lemma_matching_grows(fns.take(second), ctx.types, call.args@, first);
    lemma_functions_need_symbols(visible(ctx.entries, call.name@, stack));
}

/// A call whose arguments none of the functions of its name takes is a signature
/// mismatch, and the error names the signature of the first of them.
pub proof fn lemma_no_match_is_a_mismatch(call: FnCall, ctx: Known, stack: Seq<ScopeId>)
    requires
        candidates(call, ctx, stack).len() > 0,
        forall|i: int|
            0 <= i < candidates(call, ctx, stack).len() ==> !signature_matches(
                (#[trigger] candidates(call, ctx, stack)[i]).signature,
                ctx.types,
                call.args@,
            ),
    ensures
        resolve_call(call, ctx, stack) == Err::<FnDef, Failure>(
            signature_mismatch(call, candidates(call, ctx, stack)[0].signature),
        ),
{
    let fns = candidates(call, ctx, stack);
    lemma_matching_none(fns, ctx.types, call.args@);
    lemma_functions_need_symbols(visible(ctx.entries, call.name@, stack));
}

/// There are no more functions among symbols than symbols.
proof fn lemma_functions_need_symbols(symbols: Seq<Symbol>)
    ensures
        functions(symbols).len() <= symbols.len(),
    decreases symbols.len(),
{
    if symbols.len() > 0 {
        lemma_functions_need_symbols(symbols.drop_last());
    }
}

/// The emit pass hands out as many scopes for the elements as the build pass does.
proof fn lemma_elements_scopes(
    elements: &Vec<Expr>,
    upto: nat,
    ctx: Known,
    so_far: Built,
    level: usize,
    emit_stack: Seq<ScopeId>,
    build_stack: Seq<ScopeId>,
)
    ensures
        emit_elements(*elements, upto, ctx, so_far.next_scope, level, emit_stack) matches Ok(done)
            ==> done.next_scope == build_elements(elements, upto, so_far, build_stack).next_scope,
    decreases elements, upto,
{
    if !(upto == 0 || upto > elements.len()) {
        lemma_elements_scopes(
            elements,
            (upto - 1) as nat,
            ctx,
            so_far,
            level,
            emit_stack,
            build_stack,
        );
        let before = build_elements(elements, (upto - 1) as nat, so_far, build_stack);
        lemma_expr_scopes(&elements[upto - 1], ctx, before, level, emit_stack, build_stack);
    }
}

/// The emit pass hands out as many scopes for a block as the build pass does.
proof fn lemma_block_scopes(
    list: &ListContent,
    ctx: Known,
    so_far: Built,
    level: usize,
    emit_stack: Seq<ScopeId>,
    build_stack: Seq<ScopeId>,
)
    ensures
        emit_block(*list, ctx, so_far.next_scope, level, emit_stack) matches Ok(done)
            ==> done.next_scope == build_block(list, so_far, build_stack).next_scope,
    decreases list, 0nat,
{
    lemma_elements_scopes(
        &list.elements,
        list.elements.len() as nat,
        ctx,
        Built { next_scope: succ(so_far.next_scope), ..so_far },
        succ(level),
        emit_stack.push(so_far.next_scope),
        build_stack.push(so_far.next_scope),
    );
}

/// The two passes stay in step: walking the same expression from the same counter,
/// the emit pass, where it succeeds, hands out exactly the scopes that the build pass
/// hands out, whatever bindings, depth and stacks the two walk with.
pub proof fn lemma_expr_scopes(
    expr: &Expr,
    ctx: Known,
    so_far: Built,
    level: usize,
    emit_stack: Seq<ScopeId>,
    build_stack: Seq<ScopeId>,
)
    ensures
        emit_expr(*expr, ctx, so_far.next_scope, level, emit_stack) matches Ok(done)
            ==> done.next_scope == build_expr(expr, so_far, build_stack).next_scope,
    decreases expr, 0nat,
{
    match expr {
        Expr::FnDef(def) => {
            lemma_block_scopes(&def.body, ctx, so_far, level, emit_stack, build_stack);
            assert(emit_expr(*expr, ctx, so_far.next_scope, level, emit_stack) == emit_fn_def(
                *def,
                ctx,
                so_far.next_scope,
                level,
                emit_stack,
            ));
            assert(build_expr(expr, so_far, build_stack) == build_block(
                &def.body,
                so_far,
                build_stack,
            ));
        },
        Expr::Assign(assign) => {
            let value = &*assign.value;
            assert(emit_expr(*expr, ctx, so_far.next_scope, level, emit_stack) == emit_assign(
                *assign,
                ctx,
                so_far.next_scope,
                level,
                emit_stack,
            ));
            assert(build_expr(expr, so_far, build_stack) == build_assign(
                assign,
                so_far,
                build_stack,
            ));
            if !(*value is Type) {
                let bound = Built {
                    entries: so_far.entries.push(
                        Binding {
                            name: assign.name,
                            symbol: Symbol { scope: build_stack.last(), value },
                        },
                    ),
                    ..so_far
                };
                lemma_expr_scopes(
                    value,
                    ctx,
                    bound,
                    succ(level),
                    emit_stack,
                    build_stack,
                );
                assert(build_assign(assign, so_far, build_stack) == build_expr(
                    value,
                    bound,
                    build_stack,
                ));
                if *value is SmallValue {
                    assert(emit_expr(
                        *value,
                        ctx,
                        so_far.next_scope,
                        succ(level),
                        emit_stack,
                    ) is Ok);
                }
            }
        },
        _ => {},
    }
}

/// Compiling is repeatable: two contexts that the build pass filled for the same
/// program, each starting without symbols and types, make the program emit the same
/// text, or fail with the same error.
pub proof fn lemma_compilations_agree(ast: &Ast, first: Known, second: Known)
    requires
        first.entries == build_program(ast, Seq::empty(), Map::empty()).entries,
        first.types == build_program(ast, Seq::empty(), Map::empty()).types,
        second.entries == build_program(ast, Seq::empty(), Map::empty()).entries,
        second.types == build_program(ast, Seq::empty(), Map::empty()).types,
    ensures
        emit_program(*ast, first) == emit_program(*ast, second),
        emit_program(*ast, first) matches Ok(text) ==> emit_block(
            ast.program,
            first,
            1,
            0,
            seq![0usize],
        )->Ok_0.next_scope == build_program(ast, Seq::empty(), Map::empty()).next_scope,
{
    assert(first == second);
    lemma_block_scopes(
        &ast.program,
        first,
        Built { entries: Seq::empty(), types: Map::empty(), next_scope: 1 },
        0,
        seq![0usize],
        seq![0usize],
    );
}

/// Whether `longer` holds the bindings of `shorter` at their places, and maybe more
/// behind them.
pub open spec fn extends(longer: Seq<Binding>, shorter: Seq<Binding>) -> bool {
    &&& shorter.len() <= longer.len()
    &&& forall|k: int| 0 <= k < shorter.len() ==> longer[k] == shorter[k]
}

/// The build pass keeps every binding it has while it walks elements.
proof fn lemma_build_elements_keeps(
    elements: &Vec<Expr>,
    upto: nat,
    so_far: Built,
    stack: Seq<ScopeId>,
)
    ensures
        extends(build_elements(elements, upto, so_far, stack).entries, so_far.entries),
    decreases elements, upto,
{
    if !(upto == 0 || upto > elements.len()) {
        lemma_build_elements_keeps(elements, (upto - 1) as nat, so_far, stack);
        let before = build_elements(elements, (upto - 1) as nat, so_far, stack);
        lemma_build_expr_keeps(&elements[upto - 1], before, stack);
    }
}

/// The build pass keeps every binding it has while it walks an expression.
pub proof fn lemma_build_expr_keeps(expr: &Expr, so_far: Built, stack: Seq<ScopeId>)
    ensures
        extends(build_expr(expr, so_far, stack).entries, so_far.entries),
    decreases expr, 0nat,
{
    match expr {
        Expr::FnDef(def) => {
            lemma_build_elements_keeps(
                &def.body.elements,
                def.body.elements.len() as nat,
                Built { next_scope: succ(so_far.next_scope), ..so_far },
                stack.push(so_far.next_scope),
            );
            assert(build_expr(expr, so_far, stack) == build_block(&def.body, so_far, stack));
        },
        Expr::Assign(assign) => {
            let value = &*assign.value;
            assert(build_expr(expr, so_far, stack) == build_assign(assign, so_far, stack));
            if !(*value is Type) {
                let bound = Built {
                    entries: so_far.entries.push(
                        Binding { name: assign.name, symbol: Symbol { scope: stack.last(), value } },
                    ),
                    ..so_far
                };
                lemma_build_expr_keeps(value, bound, stack);
            }
        },
        _ => {},
    }
}

/// The build pass binds the name of an assignment in the innermost scope, right
/// behind the bindings it had.
proof fn lemma_build_assign_binds(assign: &Assign, so_far: Built, stack: Seq<ScopeId>)
    requires
        !(*assign.value is Type),
    ensures
        build_assign(assign, so_far, stack).entries.len() > so_far.entries.len(),
        build_assign(assign, so_far, stack).entries[so_far.entries.len() as int] == (Binding {
            name: assign.name,
            symbol: Symbol { scope: stack.last(), value: &*assign.value },
        }),
{
    let value = &*assign.value;
    let bound = Built {
        entries: so_far.entries.push(
            Binding { name: assign.name, symbol: Symbol { scope: stack.last(), value } },
        ),
        ..so_far
    };
    lemma_build_expr_keeps(value, bound, stack);
    assert(bound.entries[so_far.entries.len() as int] == (Binding {
        name: assign.name,
        symbol: Symbol { scope: stack.last(), value },
    }));
}

/// The build pass binds an assignment among the elements behind everything that the
/// elements before it bound, and keeps the binding while it walks the rest.
proof fn lemma_build_elements_bind(
    elements: &Vec<Expr>,
    upto: nat,
    at: int,
    so_far: Built,
    stack: Seq<ScopeId>,
) -> (place: int)
    requires
        0 <= at < upto <= elements.len(),
        elements[at] is Assign,
        !(*elements[at]->Assign_0.value is Type),
    ensures
        place == build_elements(elements, at as nat, so_far, stack).entries.len(),
        place < build_elements(elements, (at + 1) as nat, so_far, stack).entries.len(),
        place < build_elements(elements, upto, so_far, stack).entries.len(),
        extends(
            build_elements(elements, upto, so_far, stack).entries,
            build_elements(elements, (at + 1) as nat, so_far, stack).entries,
        ),
        build_elements(elements, upto, so_far, stack).entries[place] == (Binding {
            name: elements[at]->Assign_0.name,
            symbol: Symbol { scope: stack.last(), value: &*elements[at]->Assign_0.value },
        }),
    decreases upto,
{
    let before = build_elements(elements, at as nat, so_far, stack);
    let place = before.entries.len() as int;
    if upto == at + 1 {
        let assign = &elements[at]->Assign_0;
        lemma_build_assign_binds(assign, before, stack);
        assert(build_expr(&elements[at], before, stack) == build_assign(assign, before, stack));
        place
    } else {
        let found = lemma_build_elements_bind(elements, (upto - 1) as nat, at, so_far, stack);
        let earlier = build_elements(elements, (upto - 1) as nat, so_far, stack);
        lemma_build_expr_keeps(&elements[upto - 1], earlier, stack);
        found
    }
}

/// Two assignments of values to one name in one block fail: whatever context holds
/// what the build pass found in the block, the emit pass does not get through the
/// block; and where it gets as far as the first of the two, the error is
/// a `ShadowingViolation` for the name.
pub proof fn lemma_block_with_two_values_fails(
    list: &ListContent,
    first: int,
    second: int,
    so_far: Built,
    stack: Seq<ScopeId>,
    ctx: Known,
    level: usize,
)
    requires
        0 <= first < second < list.elements.len(),
        list.elements[first] is Assign,
        list.elements[second] is Assign,
        list.elements[first]->Assign_0.name@ == list.elements[second]->Assign_0.name@,
        !(*list.elements[first]->Assign_0.value is Type),
        !(*list.elements[first]->Assign_0.value is FnDef),
        !(*list.elements[second]->Assign_0.value is Type),
        !(*list.elements[second]->Assign_0.value is FnDef),
        extends(ctx.entries, build_block(list, so_far, stack).entries),
    ensures
        emit_block(*list, ctx, so_far.next_scope, level, stack) is Err,
        emit_elements(
            list.elements,
            first as nat,
            ctx,
            succ(so_far.next_scope),
            succ(level),
            stack.push(so_far.next_scope),
        ) is Ok ==> emit_block(*list, ctx, so_far.next_scope, level, stack) == Err::<
            Emitted,
            Failure,
        >(shadowing_violation(list.elements[first]->Assign_0.name@)),
{
    let elements = &list.elements;
    let total = elements.len() as nat;
    let scope = so_far.next_scope;
    let inner = Built { next_scope: succ(scope), ..so_far };
    let inner_stack = stack.push(scope);
    let inner_level = succ(level);
    let inner_next = succ(scope);
    let a = elements[first]->Assign_0;
    let b = elements[second]->Assign_0;
    let name = a.name@;
    let built = build_elements(elements, total, inner, inner_stack);
    let p = lemma_build_elements_bind(elements, total, first, inner, inner_stack);
    let q = lemma_build_elements_bind(elements, total, second, inner, inner_stack);
    lemma_build_elements_bind(elements, second as nat, first, inner, inner_stack);
    assert(p < q);
    assert(ctx.entries[p] == built.entries[p]);
    assert(ctx.entries[q] == built.entries[q]);
    assert(is_value_in(ctx.entries[p], name, scope));
    assert(is_value_in(ctx.entries[q], name, scope));
    lemma_same_scope_shadows(a, ctx, inner_next, inner_level, inner_stack, p, q);
    let upto_first = emit_elements(
        *elements,
        first as nat,
        ctx,
        inner_next,
        inner_level,
        inner_stack,
    );
    let with_first = emit_elements(
        *elements,
        (first + 1) as nat,
        ctx,
        inner_next,
        inner_level,
        inner_stack,
    );
    match upto_first {
        Ok(done) => {
            lemma_same_scope_shadows(a, ctx, done.next_scope, inner_level, inner_stack, p, q);
            assert(emit_expr(elements[first], ctx, done.next_scope, inner_level, inner_stack)
                == emit_assign(a, ctx, done.next_scope, inner_level, inner_stack));
            assert(with_first == Err::<Emitted, Failure>(shadowing_violation(name)));
        },
        Err(_) => {
            assert(with_first is Err);
        },
    }
    lemma_elements_fail(
        *elements,
        (first + 1) as nat,
        total,
        ctx,
        inner_next,
        inner_level,
        inner_stack,
    );
}

/// Two assignments of values to one name at the top of a program make its compilation
/// fail; where the expressions before the first of the two emit without error, the
/// error is a `ShadowingViolation` for the name.
pub proof fn lemma_program_with_two_values_fails(ast: &Ast, first: int, second: int)
    requires
        0 <= first < second < ast.program.elements.len(),
        ast.program.elements[first] is Assign,
        ast.program.elements[second] is Assign,
        ast.program.elements[first]->Assign_0.name@
            == ast.program.elements[second]->Assign_0.name@,
        !(*ast.program.elements[first]->Assign_0.value is Type),
        !(*ast.program.elements[first]->Assign_0.value is FnDef),
        !(*ast.program.elements[second]->Assign_0.value is Type),
        !(*ast.program.elements[second]->Assign_0.value is FnDef),
    ensures
        emit_program(*ast, built_from_nothing(ast)) is Err,
        emit_elements(
            ast.program.elements,
            first as nat,
            built_from_nothing(ast),
            2,
            1,
            seq![0usize, 1usize],
        ) is Ok ==> emit_program(*ast, built_from_nothing(ast)) == Err::<Seq<char>, Failure>(
            shadowing_violation(ast.program.elements[first]->Assign_0.name@),
        ),
{
    let start = Built { entries: Seq::empty(), types: Map::empty(), next_scope: 1 };
    assert(seq![0usize].push(1usize) =~= seq![0usize, 1usize]);
    lemma_block_with_two_values_fails(
        &ast.program,
        first,
        second,
        start,
        seq![0usize],
        built_from_nothing(ast),
        0,
    );
}

/// Whether two walks agree in everything but the text: both succeed and hand out the
/// same scopes, or both fail with the same error.
pub open spec fn agree_but_for_text(
    one: Result<Emitted, Failure>,
    other: Result<Emitted, Failure>,
) -> bool {
    match (one, other) {
        (Ok(a), Ok(b)) => a.next_scope == b.next_scope,
        (Err(f), Err(g)) => f == g,
        _ => false,
    }
}

/// Whether the arguments can be pushed does not depend on the depth.
proof fn lemma_pushes_at_any_depth(
    params: Seq<Param>,
    args: Seq<RawToken>,
    from: nat,
    ctx: Known,
    one: usize,
    other: usize,
    stack: Seq<ScopeId>,
)
    ensures
        pushes(params, args, from, ctx, one, stack) is Ok <==> pushes(
            params,
            args,
            from,
            ctx,
            other,
            stack,
        ) is Ok,
        pushes(params, args, from, ctx, one, stack) matches Err(f)
            ==> pushes(params, args, from, ctx, other, stack) == Err::<
            Seq<char>,
            Failure,
        >(f),
    decreases params.len() - from,
{
    if !(from >= params.len() || from >= args.len()) {
        lemma_pushes_at_any_depth(params, args, from + 1, ctx, one, other, stack);
    }
}

/// Whether the parameters can be popped does not depend on the depth.
proof fn lemma_pops_at_any_depth(
    params: Seq<Param>,
    upto: nat,
    types: Map<Seq<char>, Type>,
    one: usize,
    other: usize,
)
    ensures
        pops(params, upto, types, one) is Ok <==> pops(
            params,
            upto,
            types,
            other,
        ) is Ok,
        pops(params, upto, types, one) matches Err(f) ==> pops(
            params,
            upto,
            types,
            other,
        ) == Err::<Seq<char>, Failure>(f),
    decreases upto,
{
    if !(upto == 0 || upto > params.len()) {
        lemma_pops_at_any_depth(params, (upto - 1) as nat, types, one, other);
    }
}

/// The elements fail or succeed alike at every depth.
proof fn lemma_elements_at_any_depth(
    elements: Vec<Expr>,
    upto: nat,
    ctx: Known,
    next: usize,
    one: usize,
    other: usize,
    stack: Seq<ScopeId>,
)
    ensures
        agree_but_for_text(
            emit_elements(elements, upto, ctx, next, one, stack),
            emit_elements(elements, upto, ctx, next, other, stack),
        ),
    decreases elements, upto,
{
    if !(upto == 0 || upto > elements.len()) {
        lemma_elements_at_any_depth(elements, (upto - 1) as nat, ctx, next, one, other, stack);
        match emit_elements(elements, (upto - 1) as nat, ctx, next, one, stack) {
            Ok(before) => {
                lemma_depth_carries_no_weight(
                    elements[upto - 1],
                    ctx,
                    before.next_scope,
                    one,
                    other,
                    stack,
                );
            },
            Err(_) => {},
        }
    }
}

/// The depth at which text is emitted decides nothing but the padding: at any two
/// depths an expression hands out the same scopes, or fails with the same error.
pub proof fn lemma_depth_carries_no_weight(
    expr: Expr,
    ctx: Known,
    next: usize,
    one: usize,
    other: usize,
    stack: Seq<ScopeId>,
)
    ensures
        agree_but_for_text(
            emit_expr(expr, ctx, next, one, stack),
            emit_expr(expr, ctx, next, other, stack),
        ),
    decreases expr, 0nat,
{
    match expr {
        Expr::FnDef(def) => {
            lemma_pops_at_any_depth(
                def.signature.params@,
                def.signature.params.len() as nat,
                ctx.types,
                one,
                other,
            );
            lemma_elements_at_any_depth(
                def.body.elements,
                def.body.elements.len() as nat,
                ctx,
                succ(next),
                succ(one),
                succ(other),
                stack.push(next),
            );
            assert(emit_expr(expr, ctx, next, one, stack) == emit_fn_def(
                def,
                ctx,
                next,
                one,
                stack,
            ));
            assert(emit_expr(expr, ctx, next, other, stack) == emit_fn_def(
                def,
                ctx,
                next,
                other,
                stack,
            ));
            assert(emit_block(def.body, ctx, next, one, stack) is Ok <==> emit_elements(
                def.body.elements,
                def.body.elements.len() as nat,
                ctx,
                succ(next),
                succ(one),
                stack.push(next),
            ) is Ok);
            assert(emit_block(def.body, ctx, next, other, stack) is Ok <==> emit_elements(
                def.body.elements,
                def.body.elements.len() as nat,
                ctx,
                succ(next),
                succ(other),
                stack.push(next),
            ) is Ok);
        },
        Expr::FnCall(call) => {
            match resolve_call(call, ctx, stack) {
                Ok(def) => {
                    lemma_pushes_at_any_depth(
                        def.signature.params@,
                        call.args@,
                        0,
                        ctx,
                        one,
                        other,
                        stack,
                    );
                },
                Err(_) => {},
            }
        },
        Expr::Assign(assign) => {
            assert(emit_expr(expr, ctx, next, one, stack) == emit_assign(
                assign,
                ctx,
                next,
                one,
                stack,
            ));
            assert(emit_expr(expr, ctx, next, other, stack) == emit_assign(
                assign,
                ctx,
                next,
                other,
                stack,
            ));
            if !(*assign.value is SmallValue) {
                lemma_depth_carries_no_weight(
                    *assign.value,
                    ctx,
                    next,
                    succ(one),
                    succ(other),
                    stack,
                );
            }
        },
        _ => {},
    }
}

} // verus!
