//! The semantic errors, each with the text of its message.

use crate::ast::{signature_text, tokens_text, FnCall, FnSignature};
use crate::byte_size::ByteSize;
use crate::errors::{semantic_error, CheckError, ErrorKind, Failure};
use crate::scope::ProgramContext;
use vstd::prelude::*;
use vstd::string::*;

verus! {

/// No visible scope binds the name.
pub open spec fn undefined_identifier(name: Seq<char>) -> Failure {
    Failure {
        kind: ErrorKind::UndefinedIdentifier,
        message: "<"@ + name + "> not defined in this scope"@,
    }
}

/// The visible scopes bind the name more than once.
pub open spec fn ambiguous_binding(name: Seq<char>) -> Failure {
    Failure {
        kind: ErrorKind::AmbiguousBinding,
        message: "<"@ + name + "> defined multiple times in this scope"@,
    }
}

/// The scope already gave the name a value.
pub open spec fn shadowing_violation(name: Seq<char>) -> Failure {
    Failure {
        kind: ErrorKind::ShadowingViolation,
        message: "<"@ + name + "> already has a value in this scope"@,
    }
}

/// No visible scope binds the name at all.
pub open spec fn undefined_function(name: Seq<char>) -> Failure {
    Failure {
        kind: ErrorKind::UndefinedFunction,
        message: "Function not defined in this scope: "@ + name,
    }
}

/// The visible scopes bind the name, but to no function.
pub open spec fn not_callable(name: Seq<char>) -> Failure {
    Failure {
        kind: ErrorKind::UndefinedFunction,
        message: "Function not found: "@ + name + " exists in this scope, but is not callable"@,
    }
}

/// No function of that name takes the arguments; the message names the signature of
/// the first one.
pub open spec fn signature_mismatch(call: FnCall, expected: FnSignature) -> Failure {
    Failure {
        kind: ErrorKind::SignatureMismatch,
        message: "Function signature mismatch: the arguments of \""@ + call.name@ + tokens_text(
            call.args,
            call.args.len() as nat,
        ) + "\" match no signature; one candidate is "@ + call.name@ + " "@ + signature_text(
            expected,
        ),
    }
}

/// More than one function of that name takes the arguments; the message names the
/// signatures of the first two.
pub open spec fn ambiguous_overload(call: FnCall, first: FnSignature, second: FnSignature) -> Failure {
    Failure {
        kind: ErrorKind::AmbiguousOverload,
        message: "Found two matching functions for \""@ + call.name@ + tokens_text(
            call.args,
            call.args.len() as nat,
        ) + "\": "@ + signature_text(first) + " as well as "@ + signature_text(second)
            + "; consider adding an identifier to one signature to tell them apart"@,
    }
}

/// The type and the argument have no size in common; the message names both sizes.
pub open spec fn size_mismatch(wanted: ByteSize, given: ByteSize) -> Failure {
    Failure {
        kind: ErrorKind::TypeSizeMismatch,
        message: "Type size mismatch: no overlap between "@ + wanted.text() + " and "@
            + given.text(),
    }
}

/// The type was never declared.
pub open spec fn undefined_type(name: Seq<char>) -> Failure {
    Failure { kind: ErrorKind::UndefinedType, message: "Type not declared: "@ + name }
}

/// The error for a name that no visible scope binds.
pub fn fail_undefined_identifier(ctx: &ProgramContext, name: &str) -> (error: CheckError)
    ensures
        error.is_semantic(ctx.file_context, undefined_identifier(name@)),
{
    let mut msg = String::new();
    msg.append("<");
    msg.append(name);
    msg.append("> not defined in this scope");
    assert(msg@ =~= undefined_identifier(name@).message);
    semantic_error(&ctx.file_context, ErrorKind::UndefinedIdentifier, msg)
}

/// The error for a name that the visible scopes bind more than once.
pub fn fail_ambiguous_binding(ctx: &ProgramContext, name: &str) -> (error: CheckError)
    ensures
        error.is_semantic(ctx.file_context, ambiguous_binding(name@)),
{
    let mut msg = String::new();
    msg.append("<");
    msg.append(name);
    msg.append("> defined multiple times in this scope");
    assert(msg@ =~= ambiguous_binding(name@).message);
    semantic_error(&ctx.file_context, ErrorKind::AmbiguousBinding, msg)
}

/// The error for a second value for a name in one scope.
pub fn fail_shadowing_violation(ctx: &ProgramContext, name: &str) -> (error: CheckError)
    ensures
        error.is_semantic(ctx.file_context, shadowing_violation(name@)),
{
    let mut msg = String::new();
    msg.append("<");
    msg.append(name);
    msg.append("> already has a value in this scope");
    assert(msg@ =~= shadowing_violation(name@).message);
    semantic_error(&ctx.file_context, ErrorKind::ShadowingViolation, msg)
}

/// The error for a call of a name that no visible scope binds.
pub fn fail_undefined_function(ctx: &ProgramContext, name: &str) -> (error: CheckError)
    ensures
        error.is_semantic(ctx.file_context, undefined_function(name@)),
{
    let mut msg = String::new();
    msg.append("Function not defined in this scope: ");
    msg.append(name);
    assert(msg@ =~= undefined_function(name@).message);
    semantic_error(&ctx.file_context, ErrorKind::UndefinedFunction, msg)
}

/// The error for a call of a name that is bound, but to no function.
pub fn fail_not_callable(ctx: &ProgramContext, name: &str) -> (error: CheckError)
    ensures
        error.is_semantic(ctx.file_context, not_callable(name@)),
{
    let mut msg = String::new();
    msg.append("Function not found: ");
    msg.append(name);
    msg.append(" exists in this scope, but is not callable");
    assert(msg@ =~= not_callable(name@).message);
    semantic_error(&ctx.file_context, ErrorKind::UndefinedFunction, msg)
}

/// The error for a call that no signature takes; it names the given signature.
pub fn fail_signature_mismatch(ctx: &ProgramContext, call: &FnCall, expected: &FnSignature) -> (error:
    CheckError)
    ensures
        error.is_semantic(ctx.file_context, signature_mismatch(*call, *expected)),
{
    let mut msg = String::new();
    msg.append("Function signature mismatch: the arguments of \"");
    push_call(&mut msg, call);
    msg.append("\" match no signature; one candidate is ");
    msg.append(call.name.as_str());
    msg.append(" ");
    expected.push_text(&mut msg);
    assert(msg@ =~= signature_mismatch(*call, *expected).message);
    semantic_error(&ctx.file_context, ErrorKind::SignatureMismatch, msg)
}

/// The error for a call that two signatures take; it names both.
pub fn fail_ambiguous_overload(
    ctx: &ProgramContext,
    call: &FnCall,
    first: &FnSignature,
    second: &FnSignature,
) -> (error: CheckError)
    ensures
        error.is_semantic(ctx.file_context, ambiguous_overload(*call, *first, *second)),
{
    let mut msg = String::new();
    msg.append("Found two matching functions for \"");
    push_call(&mut msg, call);
    msg.append("\": ");
    first.push_text(&mut msg);
    msg.append(" as well as ");
    second.push_text(&mut msg);
    msg.append("; consider adding an identifier to one signature to tell them apart");
    assert(msg@ =~= ambiguous_overload(*call, *first, *second).message);
    semantic_error(&ctx.file_context, ErrorKind::AmbiguousOverload, msg)
}

/// The error for a type and an argument with no size in common; it names both sizes.
pub fn fail_size_mismatch(ctx: &ProgramContext, wanted: &ByteSize, given: &ByteSize) -> (error:
    CheckError)
    ensures
        error.is_semantic(ctx.file_context, size_mismatch(*wanted, *given)),
{
    let mut msg = String::new();
    msg.append("Type size mismatch: no overlap between ");
    wanted.push_text(&mut msg);
    msg.append(" and ");
    given.push_text(&mut msg);
    assert(msg@ =~= size_mismatch(*wanted, *given).message);
    semantic_error(&ctx.file_context, ErrorKind::TypeSizeMismatch, msg)
}

/// The error for a type that was never declared.
pub fn fail_undefined_type(ctx: &ProgramContext, name: &str) -> (error: CheckError)
    ensures
        error.is_semantic(ctx.file_context, undefined_type(name@)),
{
    let mut msg = String::new();
    msg.append("Type not declared: ");
    msg.append(name);
    assert(msg@ =~= undefined_type(name@).message);
    semantic_error(&ctx.file_context, ErrorKind::UndefinedType, msg)
}

/// Appends the call as it stands in the source: the name, then each argument after a space.
fn push_call(out: &mut String, call: &FnCall)
    ensures
        final(out)@ == old(out)@ + call.name@ + tokens_text(call.args, call.args.len() as nat),
{
    out.append(call.name.as_str());
    let mut i: usize = 0;
    assert(out@ =~= old(out)@ + call.name@ + tokens_text(call.args, 0));
    while i < call.args.len()
        invariant
            i <= call.args.len(),
            out@ == old(out)@ + call.name@ + tokens_text(call.args, i as nat),
        decreases call.args.len() - i,
    {
        out.append(" ");
        call.args[i].push_text(out);
        i = i + 1;
        assert(out@ =~= old(out)@ + call.name@ + tokens_text(call.args, i as nat));
    }
}

} // verus!
