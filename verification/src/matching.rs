//! Which arguments a parameter takes, and which a whole signature.

use crate::ast::{token_eq, CompTimeSize, FnSignature, Param, ParamExpr, RawToken, Type};
use crate::byte_size::ByteSize;
use crate::scope::{find_type, ProgramContext};
use vstd::prelude::*;

verus! {

/// The size that a value parameter asks for: any where it names no type, that of its
/// type where the type is declared, and none where it is not.
pub open spec fn param_expr_size(param: ParamExpr, types: Map<Seq<char>, Type>) -> Option<
    ByteSize,
> {
    match param.typename {
        None => Some(ByteSize::AnySize),
        Some(typename) => if types.contains_key(typename@) {
            Some(types[typename@].size)
        } else {
            None
        },
    }
}

/// The size that a parameter asks for: that of the token for a literal.
pub open spec fn param_size(param: Param, types: Map<Seq<char>, Type>) -> Option<ByteSize> {
    match param {
        Param::LiteralMatcher(token) => Some(token.size()),
        Param::ParamExpr(p) => param_expr_size(p, types),
    }
}

/// Whether a value parameter takes the argument: always where it names no type; else
/// the type must be declared, share a size with the argument, and let its token pass.
pub open spec fn param_expr_matches(
    param: ParamExpr,
    types: Map<Seq<char>, Type>,
    arg: RawToken,
) -> bool {
    match param.typename {
        None => true,
        Some(typename) => {
            &&& types.contains_key(typename@)
            &&& types[typename@].size.spec_overlap(arg.size()) is Some
            &&& types[typename@].accepts(arg)
        },
    }
}

/// Whether a parameter takes the argument: a literal takes the very same token only.
pub open spec fn param_matches(param: Param, types: Map<Seq<char>, Type>, arg: RawToken) -> bool {
    match param {
        Param::LiteralMatcher(token) => token_eq(arg, token),
        Param::ParamExpr(p) => param_expr_matches(p, types, arg),
    }
}

/// Whether a signature takes the arguments: as many as it has parameters, and each
/// parameter takes the argument at its place.
pub open spec fn signature_matches(
    signature: FnSignature,
    types: Map<Seq<char>, Type>,
    args: Seq<RawToken>,
) -> bool {
    &&& signature.params.len() == args.len()
    &&& forall|i: int|
        0 <= i < args.len() ==> param_matches(#[trigger] signature.params[i], types, args[i])
}

impl ParamExpr {
    /// The size that the parameter asks for; `None` where its type was never declared.
    pub fn number_bytes(&self, ctx: &ProgramContext) -> (res: Option<ByteSize>)
        ensures
            res == param_expr_size(*self, ctx.types@),
    {
        match &self.typename {
            None => Some(ByteSize::AnySize),
            Some(typename) => match find_type(ctx, typename.as_str()) {
                Some(ty) => Some(ty.size.clone()),
                None => None,
            },
        }
    }

    /// Whether the parameter takes the argument. Types are not inferred: a parameter
    /// that names no type takes every argument.
    pub fn matches_arg(&self, ctx: &ProgramContext, arg: &RawToken) -> (res: bool)
        ensures
            res == param_expr_matches(*self, ctx.types@, *arg),
    {
        match &self.typename {
            None => true,
            Some(typename) => match find_type(ctx, typename.as_str()) {
                Some(ty) => {
                    let arg_size = arg.number_bytes(ctx);
                    ty.size.overlap(&arg_size).is_some() && ty.accepts_token(arg)
                },
                None => false,
            },
        }
    }
}

impl Param {
    /// The size that the parameter asks for; `None` where its type was never declared.
    pub fn number_bytes(&self, ctx: &ProgramContext) -> (res: Option<ByteSize>)
        ensures
            res == param_size(*self, ctx.types@),
    {
        match self {
            Param::LiteralMatcher(token) => Some(token.number_bytes(ctx)),
            Param::ParamExpr(p) => p.number_bytes(ctx),
        }
    }

    /// Whether the parameter takes the argument.
    pub fn matches_arg(&self, ctx: &ProgramContext, arg: &RawToken) -> (res: bool)
        ensures
            res == param_matches(*self, ctx.types@, *arg),
    {
        match self {
            Param::LiteralMatcher(token) => arg.same(token),
            Param::ParamExpr(p) => p.matches_arg(ctx, arg),
        }
    }
}

impl FnSignature {
    /// Whether the signature takes the arguments.
    pub fn matches_args(&self, ctx: &ProgramContext, args: &Vec<RawToken>) -> (res: bool)
        ensures
            res == signature_matches(*self, ctx.types@, args@),
    {
        if self.params.len() != args.len() {
            return false;
        }
        let mut i: usize = 0;
        while i < args.len()
            invariant
                i <= args.len(),
                self.params.len() == args.len(),
                forall|j: int|
                    0 <= j < i ==> param_matches(#[trigger] self.params[j], ctx.types@, args@[j]),
            decreases args.len() - i,
        {
            if !self.params[i].matches_arg(ctx, &args[i]) {
                return false;
            }
            i = i + 1;
        }
        true
    }
}

} // verus!
