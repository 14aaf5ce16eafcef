//! The emit pass: the second walk over the tree, which checks every call and every
//! binding against what the build pass found, and writes the instructions.

use crate::ast::{
    expr_text,
    CompTimeSize,
    name_text,
    signature_text,
    Assign,
    Ast,
    Expr,
    FnDef,
    ListContent,
    Param,
    ParamExpr,
    SmallValue,
    Type,
};
use crate::byte_size::ByteSize;
use crate::calls::emit_call;
use crate::errors::{CheckError, Failure};
use crate::lexer::FileContext;
use crate::matching::param_expr_size;
use crate::messages::{
    fail_shadowing_violation,
    fail_undefined_type,
    shadowing_violation,
    undefined_type,
};
use crate::register::{free_register, Register};
use crate::scope::{
    change_indentation,
    next_scope,
    padding,
    push_padding,
    reset_scope_and_indent,
    succ,
    Binding,
    CompilationState,
    IndentationChange,
    Known,
    ProgramContext,
    ScopeId,
};
use crate::text::{decimal, grows, push_decimal, same_text};
use vstd::prelude::*;
use vstd::string::*;

verus! {

/// What a part of the tree emits: its text, and the next scope to hand out afterwards.
pub struct Emitted {
    pub text: Seq<char>,
    pub next_scope: usize,
}

/// The instruction that pops one parameter: `pop <size> -> <register>`, and ` : <name>`
/// behind it where the parameter has a name.
pub open spec fn pop_line(param: ParamExpr, size: ByteSize, level: usize) -> Seq<char> {
    padding(level) + "pop "@ + size.text() + " -> "@ + Register(0).text() + match param.name {
        Some(name) => " : "@ + name@,
        None => Seq::empty(),
    } + "\n"@
}

/// The instructions that pop the parameters `params[..upto]`, in the order in which
/// they are declared. A literal is not popped. The first parameter whose type was never
/// declared decides the error.
pub open spec fn pops(
    params: Seq<Param>,
    upto: nat,
    types: Map<Seq<char>, Type>,
    level: usize,
) -> Result<Seq<char>, Failure>
    decreases upto,
{
    if upto == 0 || upto > params.len() {
        Ok(Seq::empty())
    } else {
        match pops(params, (upto - 1) as nat, types, level) {
            Err(failure) => Err(failure),
            Ok(before) => match params[upto - 1] {
                Param::LiteralMatcher(_) => Ok(before),
                Param::ParamExpr(p) => match param_expr_size(p, types) {
                    None => Err(undefined_type(name_text(p.typename))),
                    Some(size) => Ok(before + pop_line(p, size, level)),
                },
            },
        }
    }
}

/// How many values, functions aside, the scope binds to the name.
pub open spec fn values_in_scope(entries: Seq<Binding>, name: Seq<char>, scope: ScopeId) -> nat
    decreases entries.len(),
{
    if entries.len() == 0 {
        0
    } else {
        let before = values_in_scope(entries.drop_last(), name, scope);
        let last = entries.last();
        if last.name@ == name && last.symbol.scope == scope && !(*last.symbol.value is FnDef) {
            before + 1
        } else {
            before
        }
    }
}

/// Whether an assignment gives a name a second value in its own scope.
pub open spec fn shadows(assign: Assign, ctx: Known, stack: Seq<ScopeId>) -> bool {
    &&& !(*assign.value is FnDef)
    &&& !(*assign.value is Type)
    &&& stack.len() > 0
    &&& values_in_scope(ctx.entries, assign.name@, stack.last()) >= 2
}

/// The line of a literal: its size, then its text.
pub open spec fn literal_line(expr: Expr, level: usize) -> Seq<char> {
    padding(level) + expr.size().text() + " "@ + expr_text(expr) + "\n"@
}

/// What the elements `elements[..upto]` emit, one after the other. The first element
/// that fails decides the error.
pub open spec fn emit_elements(
    elements: Vec<Expr>,
    upto: nat,
    ctx: Known,
    next: usize,
    level: usize,
    stack: Seq<ScopeId>,
) -> Result<Emitted, Failure>
    decreases elements, upto,
{
    if upto == 0 || upto > elements.len() {
        Ok(Emitted { text: Seq::empty(), next_scope: next })
    } else {
        match emit_elements(elements, (upto - 1) as nat, ctx, next, level, stack) {
            Err(failure) => Err(failure),
            Ok(before) => match emit_expr(
                elements[upto - 1],
                ctx,
                before.next_scope,
                level,
                stack,
            ) {
                Err(failure) => Err(failure),
                Ok(last) => Ok(
                    Emitted { text: before.text + last.text, next_scope: last.next_scope },
                ),
            },
        }
    }
}

/// What a block emits: `{`, its elements one level deeper and inside a scope of their
/// own, and `}`.
pub open spec fn emit_block(
    list: ListContent,
    ctx: Known,
    next: usize,
    level: usize,
    stack: Seq<ScopeId>,
) -> Result<Emitted, Failure>
    decreases list, 0nat,
{
    match emit_elements(
        list.elements,
        list.elements.len() as nat,
        ctx,
        succ(next),
        succ(level),
        stack.push(next),
    ) {
        Err(failure) => Err(failure),
        Ok(inner) => Ok(
            Emitted {
                text: word_line("{"@, level) + inner.text + word_line("}"@, level),
                next_scope: inner.next_scope,
            },
        ),
    }
}

/// What a function emits: `fn [ params ]`, the pops of its parameters, its body as
/// a block, and `ret`.
pub open spec fn emit_fn_def(
    def: FnDef,
    ctx: Known,
    next: usize,
    level: usize,
    stack: Seq<ScopeId>,
) -> Result<Emitted, Failure>
    decreases def, 0nat,
{
    match pops(def.signature.params@, def.signature.params.len() as nat, ctx.types, level) {
        Err(failure) => Err(failure),
        Ok(popped) => match emit_block(def.body, ctx, next, level, stack) {
            Err(failure) => Err(failure),
            Ok(body) => Ok(
                Emitted {
                    text: fn_line(def, level) + popped + body.text + word_line("ret"@, level),
                    next_scope: body.next_scope,
                },
            ),
        },
    }
}

/// What an assignment emits: `let <name> =`, and one level deeper a `move` of the
/// literal into the name, or else what the value emits. A second value for a name in
/// one scope is an error.
pub open spec fn emit_assign(
    assign: Assign,
    ctx: Known,
    next: usize,
    level: usize,
    stack: Seq<ScopeId>,
) -> Result<Emitted, Failure>
    decreases assign, 0nat,
{
    let header = let_line(assign, level);
    if shadows(assign, ctx, stack) {
        Err(shadowing_violation(assign.name@))
    } else {
        match *assign.value {
            Expr::SmallValue(value) => Ok(
                Emitted {
                    text: header + move_line(assign, value, succ(level)),
                    next_scope: next,
                },
            ),
            _ => match emit_expr(*assign.value, ctx, next, succ(level), stack) {
                Err(failure) => Err(failure),
                Ok(value) => Ok(
                    Emitted { text: header + value.text, next_scope: value.next_scope },
                ),
            },
        }
    }
}

/// What an expression emits at a depth, with the given scopes around it, when `next` is
/// the next scope to hand out.
pub open spec fn emit_expr(
    expr: Expr,
    ctx: Known,
    next: usize,
    level: usize,
    stack: Seq<ScopeId>,
) -> Result<Emitted, Failure>
    decreases expr, 0nat,
{
    match expr {
        Expr::FnDef(def) => emit_fn_def(def, ctx, next, level, stack),
        Expr::FnCall(call) => match emit_call(call, ctx, level, stack) {
            Err(failure) => Err(failure),
            Ok(text) => Ok(Emitted { text, next_scope: next }),
        },
        Expr::Type(ty) => Ok(
            Emitted { text: padding(level) + ty.text() + "\n"@, next_scope: next },
        ),
        Expr::Assign(assign) => emit_assign(assign, ctx, next, level, stack),
        _ => Ok(Emitted { text: literal_line(expr, level), next_scope: next }),
    }
}

/// What a whole program emits: its block at depth 0, inside scope 0.
pub open spec fn emit_program(ast: Ast, ctx: Known) -> Result<Seq<char>, Failure> {
    match emit_block(ast.program, ctx, 1, 0, seq![0usize]) {
        Err(failure) => Err(failure),
        Ok(done) => Ok(done.text),
    }
}

/// Whether a walk did what the tree emits: on success the text was appended and the
/// scopes were handed out; on failure the error is the one that the tree fails with,
/// and the text was at most appended to. Either way the depth is as before and the
/// counter of scopes did not go back.
pub open spec fn emitted(
    outcome: Result<Emitted, Failure>,
    res: Result<(), CheckError>,
    before: Seq<char>,
    after: Seq<char>,
    entry: CompilationState,
    exit: CompilationState,
    place: FileContext,
) -> bool {
    &&& exit.indentation_level == entry.indentation_level
    &&& exit.highest_scope >= entry.highest_scope
    &&& match outcome {
        Ok(done) => {
            &&& res is Ok
            &&& after == before + done.text
            &&& exit.highest_scope == done.next_scope
        },
        Err(failure) => {
            &&& res matches Err(error) && error.is_semantic(place, failure)
            &&& grows(before, after)
        },
    }
}

/// A line that holds one word: `{`, `}` or `ret`.
pub open spec fn word_line(word: Seq<char>, level: usize) -> Seq<char> {
    padding(level) + word + "\n"@
}

/// The first line of a function: `fn [ params ]`.
pub open spec fn fn_line(def: FnDef, level: usize) -> Seq<char> {
    padding(level) + "fn "@ + signature_text(def.signature) + "\n"@
}

/// The first line of an assignment: `let <name> =`.
pub open spec fn let_line(assign: Assign, level: usize) -> Seq<char> {
    padding(level) + "let "@ + assign.name@ + " =\n"@
}

/// The instruction that moves a literal into a name: `move <N>b Int(v) -> <name>`, with
/// the fewest bytes that hold the literal.
pub open spec fn move_line(assign: Assign, value: SmallValue, level: usize) -> Seq<char> {
    padding(level) + "move "@ + decimal(value.fit().least() as nat) + "b "@ + value.text()
        + " -> "@ + assign.name@ + "\n"@
}

fn push_fn_line(out: &mut String, def: &FnDef, level: usize)
    ensures
        final(out)@ == old(out)@ + fn_line(*def, level),
{
    push_padding(out, level);
    out.append("fn ");
    def.signature.push_text(out);
    out.append("\n");
    assert(out@ =~= old(out)@ + fn_line(*def, level));
}

fn push_word_line(out: &mut String, word: &str, level: usize)
    ensures
        final(out)@ == old(out)@ + word_line(word@, level),
{
    push_padding(out, level);
    out.append(word);
    out.append("\n");
    assert(out@ =~= old(out)@ + word_line(word@, level));
}

fn push_let_line(out: &mut String, assign: &Assign, level: usize)
    ensures
        final(out)@ == old(out)@ + let_line(*assign, level),
{
    push_padding(out, level);
    out.append("let ");
    out.append(assign.name.as_str());
    out.append(" =\n");
    assert(out@ =~= old(out)@ + let_line(*assign, level));
}

fn push_move_line(out: &mut String, assign: &Assign, value: &SmallValue, level: usize)
    ensures
        final(out)@ == old(out)@ + move_line(*assign, *value, level),
{
    push_padding(out, level);
    out.append("move ");
    push_decimal(out, value.fitting_bytes().smallest() as u64);
    out.append("b ");
    value.push_text(out);
    out.append(" -> ");
    out.append(assign.name.as_str());
    out.append("\n");
    assert(out@ =~= old(out)@ + move_line(*assign, *value, level));
}

/// Once a parameter could not be popped, none of the parameters behind it changes that.
pub proof fn lemma_pops_fail(
    params: Seq<Param>,
    at: nat,
    upto: nat,
    types: Map<Seq<char>, Type>,
    level: usize,
)
    requires
        at <= upto <= params.len(),
        pops(params, at, types, level) is Err,
    ensures
        pops(params, upto, types, level) == pops(params, at, types, level),
    decreases upto - at,
{
    if at < upto {
        lemma_pops_fail(params, at, (upto - 1) as nat, types, level);
    }
}

/// Once an element failed, none of the elements behind it changes that.
pub proof fn lemma_elements_fail(
    elements: Vec<Expr>,
    at: nat,
    upto: nat,
    ctx: Known,
    next: usize,
    level: usize,
    stack: Seq<ScopeId>,
)
    requires
        at <= upto <= elements.len(),
        emit_elements(elements, at, ctx, next, level, stack) is Err,
    ensures
        emit_elements(elements, upto, ctx, next, level, stack) == emit_elements(
            elements,
            at,
            ctx,
            next,
            level,
            stack,
        ),
    decreases upto - at,
{
    if at < upto {
        lemma_elements_fail(elements, at, (upto - 1) as nat, ctx, next, level, stack);
    }
}

/// Appends the instructions that pop the parameters of a function, in the order in
/// which they are declared.
///
/// Every parameter that takes a value is popped into the free register, with the size
/// of its type; a literal is not popped. A parameter whose type was never declared is
/// an `UndefinedType` error.
pub fn stack_pop_remaining_parameters(
    ctx: &ProgramContext,
    out: &mut String,
    state: &CompilationState,
    params: &Vec<Param>,
) -> (res: Result<(), CheckError>)
    ensures
        match pops(params@, params.len() as nat, ctx.types@, state.indentation_level) {
            Ok(text) => res is Ok && final(out)@ == old(out)@ + text,
            Err(failure) => res matches Err(error) && error.is_semantic(ctx.file_context, failure)
                && grows(old(out)@, final(out)@),
        },
{
    let level: usize = state.indentation_level;
    let ghost mut done: Seq<char> = Seq::empty();
    let mut i: usize = 0;
    assert(out@ =~= old(out)@ + done);
    while i < params.len()
        invariant
            i <= params.len(),
            level == state.indentation_level,
            pops(params@, i as nat, ctx.types@, level) == Ok::<Seq<char>, Failure>(done),
            out@ == old(out)@ + done,
        decreases params.len() - i,
    {
        match &params[i] {
            Param::LiteralMatcher(_) => {},
            Param::ParamExpr(p) => {
                match p.number_bytes(ctx) {
                    None => {
                        proof {
                            assert(pops(params@, (i + 1) as nat, ctx.types@, level) is Err);
                            lemma_pops_fail(
                                params@,
                                (i + 1) as nat,
                                params.len() as nat,
                                ctx.types@,
                                level,
                            );
                        }
                        return Err(
                            match &p.typename {
                                Some(typename) => fail_undefined_type(ctx, typename.as_str()),
                                None => fail_undefined_type(ctx, ""),
                            },
                        );
                    },
                    Some(size) => {
                        push_padding(out, level);
                        out.append("pop ");
                        size.push_text(out);
                        out.append(" -> ");
                        free_register().push_text(out);
                        match &p.name {
                            Some(name) => {
                                out.append(" : ");
                                out.append(name.as_str());
                            },
                            None => {},
                        }
                        out.append("\n");
                        proof {
                            let line = pop_line(*p, size, level);
                            assert(out@ =~= old(out)@ + (done + line));
                            done = done + line;
                        }
                    },
                }
            },
        }
        i = i + 1;
    }
    Ok(())
}

/// Counts the values, functions aside, that a scope binds to a name.
pub fn count_values_in_scope(ctx: &ProgramContext, name: &str, scope: ScopeId) -> (count: usize)
    ensures
        count == values_in_scope(ctx.symbols.entries@, name@, scope),
{
    let entries = &ctx.symbols.entries;
    let mut count: usize = 0;
    let mut i: usize = 0;
    assert(entries@.take(0) =~= Seq::<Binding>::empty());
    while i < entries.len()
        invariant
            i <= entries.len(),
            count <= i,
            count == values_in_scope(entries@.take(i as int), name@, scope),
        decreases entries.len() - i,
    {
        let entry = &entries[i];
        proof {
            let next = entries@.take(i + 1);
            assert(next.drop_last() =~= entries@.take(i as int));
            assert(next.last() == entries@[i as int]);
        }
        let is_function: bool = match entry.symbol.value {
            Expr::FnDef(_) => true,
            _ => false,
        };
        if same_text(entry.name.as_str(), name) && entry.symbol.scope == scope
            && !is_function {
            count = count + 1;
        }
        i = i + 1;
    }
    assert(entries@.take(entries.len() as int) =~= entries@);
    count
}

fn emit_all(
    elements: &Vec<Expr>,
    out: &mut String,
    ctx: &ProgramContext,
    state: &mut CompilationState,
    scope_stack: &mut Vec<ScopeId>,
) -> (res: Result<(), CheckError>)
    ensures
        final(scope_stack)@ == old(scope_stack)@,
        emitted(
            emit_elements(
                *elements,
                elements.len() as nat,
                ctx@,
                old(state).highest_scope,
                old(state).indentation_level,
                old(scope_stack)@,
            ),
            res,
            old(out)@,
            final(out)@,
            *old(state),
            *final(state),
            ctx.file_context,
        ),
    decreases elements, elements.len(),
{
    let ghost mut done: Seq<char> = Seq::empty();
    let mut i: usize = 0;
    assert(out@ =~= old(out)@ + done);
    while i < elements.len()
        invariant
            i <= elements.len(),
            scope_stack@ == old(scope_stack)@,
            state.indentation_level == old(state).indentation_level,
            state.highest_scope >= old(state).highest_scope,
            emit_elements(
                *elements,
                i as nat,
                ctx@,
                old(state).highest_scope,
                old(state).indentation_level,
                old(scope_stack)@,
            ) == Ok::<Emitted, Failure>(Emitted { text: done, next_scope: state.highest_scope }),
            out@ == old(out)@ + done,
        decreases elements.len() - i,
    {
        let ghost next = state.highest_scope;
        match elements[i].check_and_emit(out, ctx, state, scope_stack) {
            Ok(()) => {
                proof {
                    let part = emit_expr(
                        elements[i as int],
                        ctx@,
                        next,
                        old(state).indentation_level,
                        old(scope_stack)@,
                    )->Ok_0;
                    assert(out@ =~= old(out)@ + (done + part.text));
                    done = done + part.text;
                }
            },
            Err(error) => {
                proof {
                    assert(emit_elements(
                        *elements,
                        (i + 1) as nat,
                        ctx@,
                        old(state).highest_scope,
                        old(state).indentation_level,
                        old(scope_stack)@,
                    ) is Err);
                    lemma_elements_fail(
                        *elements,
                        (i + 1) as nat,
                        elements.len() as nat,
                        ctx@,
                        old(state).highest_scope,
                        old(state).indentation_level,
                        old(scope_stack)@,
                    );
                }
                return Err(error);
            },
        }
        i = i + 1;
    }
    Ok(())
}

impl ListContent {
    /// Checks the block and appends what it emits: `{`, its elements one level deeper,
    /// and `}`. The elements stand in a scope of their own, the next one to hand out,
    /// which is on the stack while they are walked and off it afterwards.
    pub fn check_and_emit(
        &self,
        out: &mut String,
        ctx: &ProgramContext,
        state: &mut CompilationState,
        scope_stack: &mut Vec<ScopeId>,
    ) -> (res: Result<(), CheckError>)
        ensures
            final(scope_stack)@ == old(scope_stack)@,
            emitted(
                emit_block(
                    *self,
                    ctx@,
                    old(state).highest_scope,
                    old(state).indentation_level,
                    old(scope_stack)@,
                ),
                res,
                old(out)@,
                final(out)@,
                *old(state),
                *final(state),
                ctx.file_context,
            ),
        decreases self, 0nat,
    {
        let level: usize = state.indentation_level;
        let scope: ScopeId = next_scope(state);
        scope_stack.push(scope);
        push_word_line(out, "{", level);
        let previous: usize = change_indentation(state, IndentationChange::More);
        let res = emit_all(&self.elements, out, ctx, state, scope_stack);
        state.indentation_level = previous;
        scope_stack.pop();
        assert(scope_stack@ =~= old(scope_stack)@);
        match res {
            Err(error) => Err(error),
            Ok(()) => {
                push_word_line(out, "}", level);
                proof {
                    let done = emit_block(*self, ctx@, scope, level, old(scope_stack)@)->Ok_0;
                    assert(out@ =~= old(out)@ + done.text);
                }
                Ok(())
            },
        }
    }
}

impl FnDef {
    /// Checks the function and appends what it emits: `fn [ params ]`, the pops of its
    /// parameters, its body as a block, and `ret`.
    pub fn check_and_emit(
        &self,
        out: &mut String,
        ctx: &ProgramContext,
        state: &mut CompilationState,
        scope_stack: &mut Vec<ScopeId>,
    ) -> (res: Result<(), CheckError>)
        ensures
            final(scope_stack)@ == old(scope_stack)@,
            emitted(
                emit_fn_def(
                    *self,
                    ctx@,
                    old(state).highest_scope,
                    old(state).indentation_level,
                    old(scope_stack)@,
                ),
                res,
                old(out)@,
                final(out)@,
                *old(state),
                *final(state),
                ctx.file_context,
            ),
        decreases self, 0nat,
    {
        let level: usize = state.indentation_level;
        push_fn_line(out, self, level);
        match stack_pop_remaining_parameters(ctx, out, state, &self.signature.params) {
            Ok(()) => {},
            Err(error) => {
                return Err(error);
            },
        }
        match self.body.check_and_emit(out, ctx, state, scope_stack) {
            Ok(()) => {},
            Err(error) => {
                return Err(error);
            },
        }
        push_word_line(out, "ret", level);
        proof {
            let done = emit_fn_def(
                *self,
                ctx@,
                old(state).highest_scope,
                level,
                old(scope_stack)@,
            )->Ok_0;
            assert(out@ =~= old(out)@ + done.text);
        }
        Ok(())
    }
}

impl Assign {
    /// Checks the assignment and appends what it emits: `let <name> =`, and one level
    /// deeper a `move` of the literal into the name, or else what the value emits.
    ///
    /// Where the value is neither a function nor a type, and the innermost scope on the
    /// stack binds the name to two or more such values, the assignment fails with
    /// a `ShadowingViolation`.
    pub fn check_and_emit(
        &self,
        out: &mut String,
        ctx: &ProgramContext,
        state: &mut CompilationState,
        scope_stack: &mut Vec<ScopeId>,
    ) -> (res: Result<(), CheckError>)
        ensures
            final(scope_stack)@ == old(scope_stack)@,
            emitted(
                emit_assign(
                    *self,
                    ctx@,
                    old(state).highest_scope,
                    old(state).indentation_level,
                    old(scope_stack)@,
                ),
                res,
                old(out)@,
                final(out)@,
                *old(state),
                *final(state),
                ctx.file_context,
            ),
        decreases self, 0nat,
    {
        let level: usize = state.indentation_level;
        let is_value: bool = match &*self.value {
            Expr::FnDef(_) => false,
            Expr::Type(_) => false,
            _ => true,
        };
        if is_value && scope_stack.len() > 0 {
            let scope: ScopeId = scope_stack[scope_stack.len() - 1];
            if count_values_in_scope(ctx, self.name.as_str(), scope) >= 2 {
                return Err(fail_shadowing_violation(ctx, self.name.as_str()));
            }
        }
        push_let_line(out, self, level);
        let previous: usize = change_indentation(state, IndentationChange::More);
        match &*self.value {
            Expr::SmallValue(value) => {
                push_move_line(out, self, value, state.indentation_level);
                state.indentation_level = previous;
                proof {
                    let done = emit_assign(
                        *self,
                        ctx@,
                        old(state).highest_scope,
                        level,
                        old(scope_stack)@,
                    )->Ok_0;
                    assert(out@ =~= old(out)@ + done.text);
                }
                Ok(())
            },
            _ => {
                let res = self.value.check_and_emit(out, ctx, state, scope_stack);
                state.indentation_level = previous;
                match res {
                    Err(error) => Err(error),
                    Ok(()) => {
                        proof {
                            let done = emit_assign(
                                *self,
                                ctx@,
                                old(state).highest_scope,
                                level,
                                old(scope_stack)@,
                            )->Ok_0;
                            assert(out@ =~= old(out)@ + done.text);
                        }
                        Ok(())
                    },
                }
            },
        }
    }
}

impl Expr {
    /// Checks the expression and appends what it emits at the current depth.
    ///
    /// A function emits its pops, body and `ret`; a call its pushes and `call`; an
    /// assignment `let` and its value; a type `Type(size)`; a literal its size and its
    /// text. The first part that fails decides the error; what was appended before it
    /// stays appended.
    pub fn check_and_emit(
        &self,
        out: &mut String,
        ctx: &ProgramContext,
        state: &mut CompilationState,
        scope_stack: &mut Vec<ScopeId>,
    ) -> (res: Result<(), CheckError>)
        ensures
            final(scope_stack)@ == old(scope_stack)@,
            emitted(
                emit_expr(
                    *self,
                    ctx@,
                    old(state).highest_scope,
                    old(state).indentation_level,
                    old(scope_stack)@,
                ),
                res,
                old(out)@,
                final(out)@,
                *old(state),
                *final(state),
                ctx.file_context,
            ),
        decreases self, 0nat,
    {
        match self {
            Expr::FnDef(def) => def.check_and_emit(out, ctx, state, scope_stack),
            Expr::FnCall(call) => call.check_and_emit(out, ctx, state, scope_stack),
            Expr::Type(ty) => {
                push_padding(out, state.indentation_level);
                ty.push_text(out);
                out.append("\n");
                assert(out@ =~= old(out)@ + (padding(state.indentation_level) + ty.text() + "\n"@));
                Ok(())
            },
            Expr::Assign(assign) => assign.check_and_emit(out, ctx, state, scope_stack),
            _ => {
                push_padding(out, state.indentation_level);
                self.number_bytes(ctx).push_text(out);
                out.append(" ");
                self.push_text(out);
                out.append("\n");
                assert(out@ =~= old(out)@ + literal_line(*self, state.indentation_level));
                Ok(())
            },
        }
    }
}

impl Ast {
    /// Checks the program against the context that the build pass made, and returns the
    /// text that it emits.
    ///
    /// The counters start over, so that every block gets the scope that the build pass
    /// gave it. The first expression that fails, in the order of the walk, decides the
    /// error, and no text is returned then. Afterwards the depth is 0 again, and after
    /// a success the counter of scopes stands where the walk left it.
    pub fn check_and_emit(&self, ctx: &ProgramContext, state: &mut CompilationState) -> (res: Result<
        String,
        CheckError,
    >)
        ensures
            match emit_program(*self, ctx@) {
                Ok(text) => res matches Ok(out) && out@ == text,
                Err(failure) => res matches Err(error) && error.is_semantic(
                    ctx.file_context,
                    failure,
                ),
            },
            final(state).indentation_level == 0,
            res is Ok ==> final(state).highest_scope == emit_block(
                self.program,
                ctx@,
                1,
                0,
                seq![0usize],
            )->Ok_0.next_scope,
    {
        reset_scope_and_indent(state);
        let root: ScopeId = next_scope(state);
        let mut scope_stack: Vec<ScopeId> = Vec::new();
        scope_stack.push(root);
        assert(scope_stack@ =~= seq![0usize]);
        let mut out = String::new();
        match self.program.check_and_emit(&mut out, ctx, state, &mut scope_stack) {
            Ok(()) => {
                proof {
                    let done = emit_block(self.program, ctx@, 1, 0, seq![0usize])->Ok_0;
                    assert(out@ =~= done.text);
                }
                Ok(out)
            },
            Err(error) => Err(error),
        }
    }
}

} // verus!
