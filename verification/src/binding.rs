//! The build pass: the first walk over the tree, which binds every assigned name in
//! the scope it stands in and declares every type. It emits nothing and cannot fail.

use crate::ast::{Assign, Ast, Expr, FnDef, ListContent, Type};
use crate::scope::{
    next_scope,
    reset_scope_and_indent,
    succ,
    Binding,
    CompilationState,
    ProgramContext,
    ScopeId,
    Symbol,
};
use vstd::prelude::*;

verus! {

/// What the build pass knows at some point of its walk: the bindings and the types so
/// far, and the next scope to hand out.
pub struct Built<'a> {
    pub entries: Seq<Binding<'a>>,
    pub types: Map<Seq<char>, Type>,
    pub next_scope: usize,
}

/// What the pass knows when it holds the given context and state.
pub open spec fn known<'a>(ctx: ProgramContext<'a>, state: CompilationState) -> Built<'a> {
    Built { entries: ctx.symbols.entries@, types: ctx.types@, next_scope: state.highest_scope }
}

/// What the pass knows after the elements `elements[..upto]`.
pub open spec fn build_elements<'a>(
    elements: &'a Vec<Expr>,
    upto: nat,
    so_far: Built<'a>,
    stack: Seq<ScopeId>,
) -> Built<'a>
    decreases elements, upto,
{
    if upto == 0 || upto > elements.len() {
        so_far
    } else {
        build_expr(
            &elements[upto - 1],
            build_elements(elements, (upto - 1) as nat, so_far, stack),
            stack,
        )
    }
}

/// What the pass knows after a block: its elements stand in a scope of their own, the
/// next one to hand out.
pub open spec fn build_block<'a>(list: &'a ListContent, so_far: Built<'a>, stack: Seq<ScopeId>) -> Built<
    'a,
>
    decreases list, 0nat,
{
    build_elements(
        &list.elements,
        list.elements.len() as nat,
        Built { next_scope: succ(so_far.next_scope), ..so_far },
        stack.push(so_far.next_scope),
    )
}

/// What the pass knows after an assignment: a type is declared under the name; any
/// other value is bound to the name in the innermost scope, behind all earlier
/// bindings, and then walked itself.
pub open spec fn build_assign<'a>(assign: &'a Assign, so_far: Built<'a>, stack: Seq<ScopeId>) -> Built<
    'a,
>
    decreases assign, 0nat,
{
    match *assign.value {
        Expr::Type(ty) => Built { types: so_far.types.insert(assign.name@, ty), ..so_far },
        _ => build_expr(
            &*assign.value,
            Built {
                entries: so_far.entries.push(
                    Binding {
                        name: assign.name,
                        symbol: Symbol { scope: stack.last(), value: &*assign.value },
                    },
                ),
                ..so_far
            },
            stack,
        ),
    }
}

/// What the pass knows after an expression. Only assignments and the bodies of
/// functions add to it.
pub open spec fn build_expr<'a>(expr: &'a Expr, so_far: Built<'a>, stack: Seq<ScopeId>) -> Built<'a>
    decreases expr, 0nat,
{
    match expr {
        Expr::FnDef(def) => build_block(&def.body, so_far, stack),
        Expr::Assign(assign) => build_assign(assign, so_far, stack),
        _ => so_far,
    }
}

/// What the pass knows after a whole program, walked inside scope 0 on top of the given
/// bindings and types.
pub open spec fn build_program<'a>(
    ast: &'a Ast,
    entries: Seq<Binding<'a>>,
    types: Map<Seq<char>, Type>,
) -> Built<'a> {
    build_block(&ast.program, Built { entries, types, next_scope: 1 }, seq![0usize])
}

/// Whether a walk left the context and the state as the pass knows them afterwards.
/// The place in the file and the depth are as before.
pub open spec fn built<'a>(
    outcome: Built<'a>,
    entry: ProgramContext<'a>,
    exit: ProgramContext<'a>,
    before: CompilationState,
    after: CompilationState,
) -> bool {
    &&& known(exit, after) == outcome
    &&& exit.file_context == entry.file_context
    &&& after.indentation_level == before.indentation_level
}

fn build_all<'a>(
    elements: &'a Vec<Expr>,
    ctx: &mut ProgramContext<'a>,
    state: &mut CompilationState,
    scope_stack: &mut Vec<ScopeId>,
)
    requires
        old(scope_stack).len() > 0,
    ensures
        final(scope_stack)@ == old(scope_stack)@,
        built(
            build_elements(
                elements,
                elements.len() as nat,
                known(*old(ctx), *old(state)),
                old(scope_stack)@,
            ),
            *old(ctx),
            *final(ctx),
            *old(state),
            *final(state),
        ),
    decreases elements, elements.len(),
{
    let mut i: usize = 0;
    while i < elements.len()
        invariant
            i <= elements.len(),
            scope_stack@ == old(scope_stack)@,
            scope_stack.len() > 0,
            built(
                build_elements(elements, i as nat, known(*old(ctx), *old(state)), old(scope_stack)@),
                *old(ctx),
                *ctx,
                *old(state),
                *state,
            ),
        decreases elements.len() - i,
    {
        elements[i].build_context(ctx, state, scope_stack);
        i = i + 1;
    }
}

impl ListContent {
    /// Walks the block: its elements stand in a scope of their own, the next one to
    /// hand out, which is on the stack while they are walked and off it afterwards.
    pub fn build_context<'a>(
        &'a self,
        ctx: &mut ProgramContext<'a>,
        state: &mut CompilationState,
        scope_stack: &mut Vec<ScopeId>,
    )
        ensures
            final(scope_stack)@ == old(scope_stack)@,
            built(
                build_block(self, known(*old(ctx), *old(state)), old(scope_stack)@),
                *old(ctx),
                *final(ctx),
                *old(state),
                *final(state),
            ),
        decreases self, 0nat,
    {
        let scope: ScopeId = next_scope(state);
        scope_stack.push(scope);
        assert(known(*ctx, *state) == Built {
            next_scope: succ(old(state).highest_scope),
            ..known(*old(ctx), *old(state))
        });
        build_all(&self.elements, ctx, state, scope_stack);
        scope_stack.pop();
        assert(scope_stack@ =~= old(scope_stack)@);
    }
}

impl FnDef {
    /// Walks the body of the function, as a block.
    pub fn build_context<'a>(
        &'a self,
        ctx: &mut ProgramContext<'a>,
        state: &mut CompilationState,
        scope_stack: &mut Vec<ScopeId>,
    )
        ensures
            final(scope_stack)@ == old(scope_stack)@,
            built(
                build_block(&self.body, known(*old(ctx), *old(state)), old(scope_stack)@),
                *old(ctx),
                *final(ctx),
                *old(state),
                *final(state),
            ),
        decreases self, 1nat,
    {
        self.body.build_context(ctx, state, scope_stack);
    }
}

impl Assign {
    /// Walks the assignment: declares the type under the name, or binds the name to
    /// the value in the innermost scope on the stack and walks the value. No earlier
    /// binding is changed or removed.
    pub fn build_context<'a>(
        &'a self,
        ctx: &mut ProgramContext<'a>,
        state: &mut CompilationState,
        scope_stack: &mut Vec<ScopeId>,
    )
        requires
            old(scope_stack).len() > 0,
        ensures
            final(scope_stack)@ == old(scope_stack)@,
            built(
                build_assign(self, known(*old(ctx), *old(state)), old(scope_stack)@),
                *old(ctx),
                *final(ctx),
                *old(state),
                *final(state),
            ),
        decreases self, 0nat,
    {
        match &*self.value {
            Expr::Type(ty) => {
                ctx.types.insert(self.name.clone(), ty.clone());
            },
            value => {
                let scope: ScopeId = scope_stack[scope_stack.len() - 1];
                ctx.symbols.insert(self.name.clone(), scope, value);
                value.build_context(ctx, state, scope_stack);
            },
        }
    }
}

impl Expr {
    /// Walks the expression: an assignment binds its name, a function has its body
    /// walked, and nothing else adds to the context.
    pub fn build_context<'a>(
        &'a self,
        ctx: &mut ProgramContext<'a>,
        state: &mut CompilationState,
        scope_stack: &mut Vec<ScopeId>,
    )
        requires
            old(scope_stack).len() > 0,
        ensures
            final(scope_stack)@ == old(scope_stack)@,
            built(
                build_expr(self, known(*old(ctx), *old(state)), old(scope_stack)@),
                *old(ctx),
                *final(ctx),
                *old(state),
                *final(state),
            ),
        decreases self, 0nat,
    {
        match self {
            Expr::FnDef(def) => def.body.build_context(ctx, state, scope_stack),
            Expr::Assign(assign) => assign.build_context(ctx, state, scope_stack),
            _ => {},
        }
    }
}

impl Ast {
    /// Walks the whole program and adds its bindings and types to the context.
    ///
    /// The counters start over: the program stands in scope 0, its block in scope 1,
    /// and every further block in the next scope in the order of the walk.
    pub fn build_context<'a>(&'a self, ctx: &mut ProgramContext<'a>, state: &mut CompilationState)
        ensures
            built(
                build_program(self, old(ctx).symbols.entries@, old(ctx).types@),
                *old(ctx),
                *final(ctx),
                CompilationState { highest_scope: 0, indentation_level: 0 },
                *final(state),
            ),
    {
        reset_scope_and_indent(state);
        let root: ScopeId = next_scope(state);
        let mut scope_stack: Vec<ScopeId> = Vec::new();
        scope_stack.push(root);
        assert(scope_stack@ =~= seq![0usize]);
        self.program.build_context(ctx, state, &mut scope_stack);
    }
}

} // verus!
