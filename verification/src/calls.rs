//! Calls: which function a call means, how many bytes each argument takes, and the
//! instructions that push the arguments and make the call.

use crate::ast::{name_text, token_text, Expr, FnCall, FnDef, Param, RawToken, Type};
use crate::byte_size::{lemma_overlap_is_intersection, ByteSize};
use crate::errors::{CheckError, Failure};
use crate::matching::{param_expr_size, signature_matches};
use crate::messages::{
    ambiguous_binding,
    ambiguous_overload,
    fail_ambiguous_binding,
    fail_ambiguous_overload,
    fail_not_callable,
    fail_signature_mismatch,
    fail_size_mismatch,
    fail_undefined_function,
    fail_undefined_identifier,
    fail_undefined_type,
    not_callable,
    signature_mismatch,
    size_mismatch,
    undefined_function,
    undefined_identifier,
    undefined_type,
};
use crate::scope::{padding, push_padding, visible, CompilationState, Known, ProgramContext, ScopeId, Symbol};
use crate::text::{decimal, grows, push_decimal};
use vstd::prelude::*;
use vstd::string::*;

verus! {

/// The functions among the symbols, in order.
pub open spec fn functions(symbols: Seq<Symbol>) -> Seq<FnDef>
    decreases symbols.len(),
{
    if symbols.len() == 0 {
        Seq::empty()
    } else {
        let before = functions(symbols.drop_last());
        match *symbols.last().value {
            Expr::FnDef(def) => before.push(def),
            _ => before,
        }
    }
}

/// The functions whose signature takes the arguments, in order.
pub open spec fn matching(fns: Seq<FnDef>, types: Map<Seq<char>, Type>, args: Seq<RawToken>) -> Seq<
    FnDef,
>
    decreases fns.len(),
{
    if fns.len() == 0 {
        Seq::empty()
    } else {
        let before = matching(fns.drop_last(), types, args);
        if signature_matches(fns.last().signature, types, args) {
            before.push(fns.last())
        } else {
            before
        }
    }
}

/// The function that a call means: among the functions that the visible scopes bind
/// to the name, the only one whose signature takes the arguments.
pub open spec fn resolve_call(call: FnCall, ctx: Known, stack: Seq<ScopeId>) -> Result<
    FnDef,
    Failure,
> {
    let seen = visible(ctx.entries, call.name@, stack);
    let fns = functions(seen);
    let hits = matching(fns, ctx.types, call.args@);
    if seen.len() == 0 {
        Err(undefined_function(call.name@))
    } else if fns.len() == 0 {
        Err(not_callable(call.name@))
    } else if hits.len() == 0 {
        Err(signature_mismatch(call, fns[0].signature))
    } else if hits.len() >= 2 {
        Err(ambiguous_overload(call, hits[0].signature, hits[1].signature))
    } else {
        Ok(hits[0])
    }
}

/// The bytes that an argument takes under a parameter of the given size: as many as an
/// exact parameter says, whatever the argument; otherwise the fewest that satisfy
/// both, and none where nothing satisfies both.
pub open spec fn pick_size(wanted: ByteSize, given: ByteSize) -> Option<usize> {
    match wanted {
        ByteSize::Exact(size) => Some(size),
        _ => match wanted.spec_overlap(given) {
            Some(both) => Some(both.least()),
            None => None,
        },
    }
}

/// The sizes that hold an argument at emission. A name stands for the value that the
/// visible scopes bind it to, and must be bound exactly once; a literal needs the bytes
/// that hold its value.
pub open spec fn argument_size(arg: RawToken, ctx: Known, stack: Seq<ScopeId>) -> Result<
    ByteSize,
    Failure,
> {
    match arg {
        RawToken::Ident(ident) => {
            let seen = visible(ctx.entries, ident.0@, stack);
            if seen.len() == 0 {
                Err(undefined_identifier(ident.0@))
            } else if seen.len() >= 2 {
                Err(ambiguous_binding(ident.0@))
            } else {
                Ok((*seen[0].value).fit())
            }
        },
        _ => Ok(arg.fit()),
    }
}

/// The instruction that pushes one argument: `push <N>b <token>`, and nothing for an
/// argument that a literal took.
pub open spec fn push_line(
    param: Param,
    arg: RawToken,
    ctx: Known,
    level: usize,
    stack: Seq<ScopeId>,
) -> Result<Seq<char>, Failure> {
    match param {
        Param::LiteralMatcher(_) => Ok(Seq::empty()),
        Param::ParamExpr(p) => match param_expr_size(p, ctx.types) {
            None => Err(undefined_type(name_text(p.typename))),
            Some(wanted) => match argument_size(arg, ctx, stack) {
                Err(failure) => Err(failure),
                Ok(given) => match pick_size(wanted, given) {
                    None => Err(size_mismatch(wanted, given)),
                    Some(size) => Ok(
                        padding(level) + "push "@ + decimal(size as nat) + "b "@ + token_text(arg)
                            + "\n"@,
                    ),
                },
            },
        },
    }
}

/// The instructions that push the arguments from place `from` on, the last argument
/// first. A parameter without an argument, and an argument without a parameter, is
/// passed over.
pub open spec fn pushes(
    params: Seq<Param>,
    args: Seq<RawToken>,
    from: nat,
    ctx: Known,
    level: usize,
    stack: Seq<ScopeId>,
) -> Result<Seq<char>, Failure>
    decreases params.len() - from,
{
    if from >= params.len() || from >= args.len() {
        Ok(Seq::empty())
    } else {
        match pushes(params, args, from + 1, ctx, level, stack) {
            Err(failure) => Err(failure),
            Ok(later) => match push_line(params[from as int], args[from as int], ctx, level, stack) {
                Err(failure) => Err(failure),
                Ok(line) => Ok(later + line),
            },
        }
    }
}

/// What a call emits: the pushes of its arguments, then `call <name>`.
pub open spec fn emit_call(call: FnCall, ctx: Known, level: usize, stack: Seq<ScopeId>) -> Result<
    Seq<char>,
    Failure,
> {
    match resolve_call(call, ctx, stack) {
        Err(failure) => Err(failure),
        Ok(def) => match pushes(def.signature.params@, call.args@, 0, ctx, level, stack) {
            Err(failure) => Err(failure),
            Ok(text) => Ok(text + padding(level) + "call "@ + call.name@ + "\n"@),
        },
    }
}

/// Finds the function that a call means.
pub fn resolve<'a>(call: &FnCall, ctx: &ProgramContext<'a>, scope_stack: &Vec<ScopeId>) -> (res:
    Result<&'a FnDef, CheckError>)
    ensures
        match resolve_call(*call, ctx@, scope_stack@) {
            Ok(def) => res matches Ok(found) && *found == def,
            Err(failure) => res matches Err(error) && error.is_semantic(ctx.file_context, failure),
        },
{
    let found = ctx.symbols.lookup(call.name.as_str(), scope_stack);
    if found.len() == 0 {
        return Err(fail_undefined_function(ctx, call.name.as_str()));
    }
    let mut first_fn: Option<&'a FnDef> = None;
    let mut first_hit: Option<&'a FnDef> = None;
    let mut second_hit: Option<&'a FnDef> = None;
    let mut i: usize = 0;
    assert(found@.take(0) =~= Seq::<Symbol>::empty());
    while i < found.len()
        invariant
            i <= found.len(),
            ({
                let fns = functions(found@.take(i as int));
                let hits = matching(fns, ctx.types@, call.args@);
                &&& first_fn is None <==> fns.len() == 0
                &&& first_fn matches Some(def) ==> *def == fns[0]
                &&& first_hit is None <==> hits.len() == 0
                &&& first_hit matches Some(def) ==> *def == hits[0]
                &&& second_hit is None <==> hits.len() < 2
                &&& second_hit matches Some(def) ==> *def == hits[1]
            }),
        decreases found.len() - i,
    {
        let symbol: Symbol<'a> = found[i];
        proof {
            let next = found@.take(i + 1);
            assert(next.drop_last() =~= found@.take(i as int));
            assert(next.last() == found@[i as int]);
        }
        match symbol.value {
            Expr::FnDef(def) => {
                proof {
                    let fns = functions(found@.take(i as int));
                    assert(fns.push(*def).drop_last() =~= fns);
                }
                if first_fn.is_none() {
                    first_fn = Some(def);
                }
                if def.signature.matches_args(ctx, &call.args) {
                    if first_hit.is_none() {
                        first_hit = Some(def);
                    } else if second_hit.is_none() {
                        second_hit = Some(def);
                    }
                }
            },
            _ => {},
        }
        i = i + 1;
    }
    assert(found@.take(found.len() as int) =~= found@);
    match first_fn {
        None => Err(fail_not_callable(ctx, call.name.as_str())),
        Some(candidate) => match first_hit {
            None => Err(fail_signature_mismatch(ctx, call, &candidate.signature)),
            Some(def) => match second_hit {
                Some(other) => Err(
                    fail_ambiguous_overload(ctx, call, &def.signature, &other.signature),
                ),
                None => Ok(def),
            },
        },
    }
}

/// Picks the bytes that an argument takes under a parameter of the given size.
pub fn pick(wanted: &ByteSize, given: &ByteSize) -> (res: Option<usize>)
    ensures
        res == pick_size(*wanted, *given),
        *wanted matches ByteSize::Exact(size) ==> res == Some(size),
        !(wanted is Exact) ==> (res is None <==> forall|n: int|
            !(wanted.admits(n) && given.admits(n))),
        !(wanted is Exact) ==> (res matches Some(size) ==> wanted.admits(size as int)
            && given.admits(size as int) && forall|n: int|
            wanted.admits(n) && given.admits(n) ==> size <= n),
{
    match wanted {
        ByteSize::Exact(size) => Some(*size),
        _ => match wanted.overlap(given) {
            Some(both) => {
                proof {
                    lemma_overlap_is_intersection(*wanted, *given);
                    assert(!both.is_empty());
                }
                Some(both.smallest())
            },
            None => None,
        },
    }
}

/// The bytes that the argument takes under a parameter of the given type.
///
/// A type of exact size fixes the bytes, whatever the argument. Under any other type the
/// argument takes the fewest bytes that the type admits and that hold the argument;
/// where there are none the result is a `TypeSizeMismatch` that names both sizes.
pub fn resolve_arg_size(ctx: &ProgramContext, type_: &Type, arg: &RawToken) -> (res: Result<
    usize,
    CheckError,
>)
    ensures
        match pick_size(type_.size, arg.fit()) {
            Some(size) => res == Ok::<usize, CheckError>(size),
            None => res matches Err(error) && error.is_semantic(
                ctx.file_context,
                size_mismatch(type_.size, arg.fit()),
            ),
        },
{
    let given = arg.fitting_bytes(ctx);
    match pick(&type_.size, &given) {
        Some(size) => Ok(size),
        None => Err(fail_size_mismatch(ctx, &type_.size, &given)),
    }
}

/// The sizes that hold an argument at emission.
pub fn size_of_argument(ctx: &ProgramContext, scope_stack: &Vec<ScopeId>, arg: &RawToken) -> (res:
    Result<ByteSize, CheckError>)
    ensures
        match argument_size(*arg, ctx@, scope_stack@) {
            Ok(size) => res == Ok::<ByteSize, CheckError>(size),
            Err(failure) => res matches Err(error) && error.is_semantic(ctx.file_context, failure),
        },
{
    match arg {
        RawToken::Ident(ident) => {
            let seen = ctx.symbols.lookup(ident.0.as_str(), scope_stack);
            if seen.len() == 0 {
                Err(fail_undefined_identifier(ctx, ident.0.as_str()))
            } else if seen.len() >= 2 {
                Err(fail_ambiguous_binding(ctx, ident.0.as_str()))
            } else {
                Ok(seen[0].value.fitting_bytes(ctx))
            }
        },
        _ => Ok(arg.fitting_bytes(ctx)),
    }
}

/// Appends the instruction that pushes one argument.
fn push_arg(
    out: &mut String,
    ctx: &ProgramContext,
    level: usize,
    scope_stack: &Vec<ScopeId>,
    arg: &RawToken,
    param: &Param,
) -> (res: Result<(), CheckError>)
    ensures
        match push_line(*param, *arg, ctx@, level, scope_stack@) {
            Ok(line) => res is Ok && final(out)@ == old(out)@ + line,
            Err(failure) => res matches Err(error) && error.is_semantic(ctx.file_context, failure)
                && grows(old(out)@, final(out)@),
        },
{
    match param {
        Param::LiteralMatcher(_) => {
            assert(out@ =~= old(out)@ + Seq::<char>::empty());
            Ok(())
        },
        Param::ParamExpr(p) => {
            let wanted = match p.number_bytes(ctx) {
                Some(wanted) => wanted,
                None => {
                    return Err(
                        match &p.typename {
                            Some(typename) => fail_undefined_type(ctx, typename.as_str()),
                            None => fail_undefined_type(ctx, ""),
                        },
                    );
                },
            };
            let given = match size_of_argument(ctx, scope_stack, arg) {
                Ok(given) => given,
                Err(error) => {
                    return Err(error);
                },
            };
            match pick(&wanted, &given) {
                None => Err(fail_size_mismatch(ctx, &wanted, &given)),
                Some(size) => {
                    push_padding(out, level);
                    out.append("push ");
                    push_decimal(out, size as u64);
                    out.append("b ");
                    arg.push_text(out);
                    out.append("\n");
                    assert(out@ =~= old(out)@ + (padding(level) + "push "@ + decimal(size as nat)
                        + "b "@ + token_text(*arg) + "\n"@));
                    Ok(())
                },
            }
        },
    }
}

/// Appends the instructions that push the arguments of a call, the last argument first.
///
/// An argument that a literal took is not pushed. Every other argument is pushed with
/// the bytes that it takes under its parameter's type. The first argument, going from
/// the last to the first, that cannot be pushed decides the error: its type was never
/// declared, it is a name that is not bound exactly once, or it shares no size with
/// its type. The pushes before it stay appended.
pub fn push_args(
    out: &mut String,
    ctx: &ProgramContext,
    state: &CompilationState,
    scope_stack: &Vec<ScopeId>,
    args: &Vec<RawToken>,
    params: &Vec<Param>,
) -> (res: Result<(), CheckError>)
    ensures
        match pushes(params@, args@, 0, ctx@, state.indentation_level, scope_stack@) {
            Ok(text) => res is Ok && final(out)@ == old(out)@ + text,
            Err(failure) => res matches Err(error) && error.is_semantic(ctx.file_context, failure)
                && grows(old(out)@, final(out)@),
        },
{
    let level: usize = state.indentation_level;
    let mut i: usize = if params.len() < args.len() {
        params.len()
    } else {
        args.len()
    };
    let ghost mut done: Seq<char> = Seq::empty();
    assert(out@ =~= old(out)@ + done);
    while i > 0
        invariant
            i <= params.len(),
            i <= args.len(),
            level == state.indentation_level,
            pushes(params@, args@, i as nat, ctx@, level, scope_stack@) == Ok::<Seq<char>, Failure>(
                done,
            ),
            out@ == old(out)@ + done,
        decreases i,
    {
        i = i - 1;
        match push_arg(out, ctx, level, scope_stack, &args[i], &params[i]) {
            Ok(()) => {
                proof {
                    let line = push_line(params@[i as int], args@[i as int], ctx@, level, scope_stack@)->Ok_0;
                    assert(out@ =~= old(out)@ + (done + line));
                    done = done + line;
                }
            },
            Err(error) => {
                proof {
                    assert(pushes(params@, args@, (i + 1) as nat, ctx@, level, scope_stack@) is Ok);
                    assert(pushes(params@, args@, i as nat, ctx@, level, scope_stack@) == Err::<
                        Seq<char>,
                        Failure,
                    >(push_line(params@[i as int], args@[i as int], ctx@, level, scope_stack@)->Err_0));
                    lemma_pushes_fail(params@, args@, i as nat, ctx@, level, scope_stack@);
                }
                return Err(error);
            },
        }
    }
    Ok(())
}

/// Once an argument could not be pushed, none of the arguments before it changes that.
pub proof fn lemma_pushes_fail(
    params: Seq<Param>,
    args: Seq<RawToken>,
    at: nat,
    ctx: Known,
    level: usize,
    stack: Seq<ScopeId>,
)
    requires
        pushes(params, args, at, ctx, level, stack) is Err,
    ensures
        pushes(params, args, 0, ctx, level, stack) == pushes(params, args, at, ctx, level, stack),
    decreases at,
{
    if at > 0 {
        assert(pushes(params, args, (at - 1) as nat, ctx, level, stack) == pushes(
            params,
            args,
            at,
            ctx,
            level,
            stack,
        ));
        lemma_pushes_fail(params, args, (at - 1) as nat, ctx, level, stack);
    }
}

impl FnCall {
    /// Checks the call and appends its instructions: the pushes of its arguments, the
    /// last argument first, then `call <name>`.
    ///
    /// The call means the only function, among those that the scopes on the stack bind
    /// to its name, whose signature takes its arguments. Where there is none or more
    /// than one, the call fails; what was appended before stays appended.
    pub fn check_and_emit(
        &self,
        out: &mut String,
        ctx: &ProgramContext,
        state: &CompilationState,
        scope_stack: &Vec<ScopeId>,
    ) -> (res: Result<(), CheckError>)
        ensures
            match emit_call(*self, ctx@, state.indentation_level, scope_stack@) {
                Ok(text) => res is Ok && final(out)@ == old(out)@ + text,
                Err(failure) => res matches Err(error) && error.is_semantic(
                    ctx.file_context,
                    failure,
                ) && grows(old(out)@, final(out)@),
            },
    {
        let def = match resolve(self, ctx, scope_stack) {
            Ok(def) => def,
            Err(error) => {
                return Err(error);
            },
        };
        match push_args(out, ctx, state, scope_stack, &self.args, &def.signature.params) {
            Ok(()) => {},
            Err(error) => {
                return Err(error);
            },
        }
        let ghost pushed = out@;
        push_padding(out, state.indentation_level);
        out.append("call ");
        out.append(self.name.as_str());
        out.append("\n");
        assert(out@ =~= pushed + padding(state.indentation_level) + "call "@ + self.name@ + "\n"@);
        Ok(())
    }
}

} // verus!
