//! The syntax tree: expressions, raw tokens, functions and their parameters.

use crate::byte_size::ByteSize;
use crate::scope::ProgramContext;
use crate::text::{decimal, hex_bytes, push_char, push_decimal, push_hex_bytes};
use vstd::prelude::*;
use vstd::string::*;
use vstd::utf8::encode_utf8;

verus! {

/// A literal of at most eight bytes.
#[derive(Debug, PartialEq, Eq, Clone, Copy, Structural)]
pub enum SmallValue {
    Byte(u8),
    Word(u16),
    DWord(u32),
    QWord(u64),
    /// An integer whose width the source did not fix.
    Untyped(u64),
}

/// The fewest bytes that can hold a number.
pub open spec fn min_bytes(value: u64) -> nat {
    if value < 0x100 {
        1
    } else if value < 0x1_0000 {
        2
    } else if value < 0x100_0000 {
        3
    } else if value < 0x1_0000_0000 {
        4
    } else if value < 0x100_0000_0000 {
        5
    } else if value < 0x1_0000_0000_0000 {
        6
    } else if value < 0x100_0000_0000_0000 {
        7
    } else {
        8
    }
}

impl SmallValue {
    /// The number that the literal holds.
    pub open spec fn number(self) -> u64 {
        match self {
            SmallValue::Byte(v) => v as u64,
            SmallValue::Word(v) => v as u64,
            SmallValue::DWord(v) => v as u64,
            SmallValue::QWord(v) => v,
            SmallValue::Untyped(v) => v,
        }
    }

    /// The size of the literal as signatures see it: its width where it has one, and
    /// any width from one byte up to, but not including, eight for an untyped integer,
    /// whatever its value.
    pub open spec fn size(self) -> ByteSize {
        match self {
            SmallValue::Byte(_) => ByteSize::Exact(1),
            SmallValue::Word(_) => ByteSize::Exact(2),
            SmallValue::DWord(_) => ByteSize::Exact(4),
            SmallValue::QWord(_) => ByteSize::Exact(8),
            SmallValue::Untyped(_) => ByteSize::Range(1..8),
        }
    }

    /// The sizes that hold the value of the literal: its width where it has one; for an
    /// untyped integer every width from the fewest bytes that hold it up to, but not
    /// including, eight, and exactly eight where it needs them all.
    pub open spec fn fit(self) -> ByteSize {
        match self {
            SmallValue::Untyped(v) => if min_bytes(v) < 8 {
                ByteSize::Range((min_bytes(v) as usize)..8)
            } else {
                ByteSize::Exact(8)
            },
            _ => self.size(),
        }
    }

    /// The text of the literal: `Int(N)`, with `N` in decimal.
    pub open spec fn text(self) -> Seq<char> {
        "Int("@ + decimal(self.number() as nat) + ")"@
    }

    /// The number that the literal holds.
    pub fn value(&self) -> (res: u64)
        ensures
            res == self.number(),
    {
        match self {
            SmallValue::Byte(v) => *v as u64,
            SmallValue::Word(v) => *v as u64,
            SmallValue::DWord(v) => *v as u64,
            SmallValue::QWord(v) => *v,
            SmallValue::Untyped(v) => *v,
        }
    }

    /// The sizes that hold the value of the literal.
    pub fn fitting_bytes(&self) -> (res: ByteSize)
        ensures
            res == self.fit(),
    {
        match self {
            SmallValue::Byte(_) => ByteSize::Exact(1),
            SmallValue::Word(_) => ByteSize::Exact(2),
            SmallValue::DWord(_) => ByteSize::Exact(4),
            SmallValue::QWord(_) => ByteSize::Exact(8),
            SmallValue::Untyped(v) => {
                let v: u64 = *v;
                let least: usize = if v < 0x100 {
                    1
                } else if v < 0x1_0000 {
                    2
                } else if v < 0x100_0000 {
                    3
                } else if v < 0x1_0000_0000 {
                    4
                } else if v < 0x100_0000_0000 {
                    5
                } else if v < 0x1_0000_0000_0000 {
                    6
                } else if v < 0x100_0000_0000_0000 {
                    7
                } else {
                    8
                };
                if least < 8 {
                    ByteSize::Range(least..8)
                } else {
                    ByteSize::Exact(8)
                }
            },
        }
    }

    /// Appends the text of the literal.
    pub fn push_text(&self, out: &mut String)
        ensures
            final(out)@ == old(out)@ + self.text(),
    {
        out.append("Int(");
        push_decimal(out, self.value());
        out.append(")");
        assert(out@ =~= old(out)@ + self.text());
    }
}

/// The three forms that a raw token takes.
#[derive(Debug, PartialEq, Eq, Clone, Copy, Structural)]
pub enum TokenKind {
    Ident,
    Symbol,
    Expr,
}

/// A declared type: its size, and the form of token it asks for, if it asks for one.
#[derive(Debug, PartialEq, Eq)]
pub struct Type {
    pub size: ByteSize,
    pub predicate: Option<TokenKind>,
}

impl Clone for Type {
    fn clone(&self) -> (res: Self)
        ensures
            res == *self,
    {
        Type {
            size: self.size.clone(),
            predicate: match self.predicate {
                Some(kind) => Some(kind),
                None => None,
            },
        }
    }
}

impl Type {
    /// Whether the type's predicate lets the token pass.
    pub open spec fn accepts(self, token: RawToken) -> bool {
        match self.predicate {
            Some(kind) => token.kind() == kind,
            None => true,
        }
    }

    /// The text of the declaration: `Type(size)`.
    pub open spec fn text(self) -> Seq<char> {
        "Type("@ + self.size.text() + ")"@
    }

    /// Structural equality.
    pub fn same(&self, other: &Type) -> (res: bool)
        ensures
            res == (*self == *other),
    {
        self.size.same(&other.size) && match (self.predicate, other.predicate) {
            (Some(a), Some(b)) => a == b,
            (None, None) => true,
            _ => false,
        }
    }

    /// Whether the type's predicate lets the token pass.
    pub fn accepts_token(&self, token: &RawToken) -> (res: bool)
        ensures
            res == self.accepts(*token),
    {
        match self.predicate {
            Some(kind) => token.token_kind() == kind,
            None => true,
        }
    }

    /// Appends the text of the declaration.
    pub fn push_text(&self, out: &mut String)
        ensures
            final(out)@ == old(out)@ + self.text(),
    {
        out.append("Type(");
        self.size.push_text(out);
        out.append(")");
        assert(out@ =~= old(out)@ + self.text());
    }
}

/// A name.
#[derive(Debug)]
pub struct Ident(pub String);

/// An argument as it stands in the source, before it is given a size.
#[derive(Debug)]
pub enum RawToken {
    Ident(Ident),
    Symbol(char),
    Expr(Expr),
}

/// A name bound to a value.
#[derive(Debug)]
pub struct Assign {
    pub name: String,
    pub value: Box<Expr>,
}

/// A parameter that takes a value: an optional name and an optional type name.
#[derive(Debug)]
pub struct ParamExpr {
    pub name: Option<String>,
    pub typename: Option<String>,
}

/// A parameter of a function.
#[derive(Debug)]
pub enum Param {
    /// Matches only the very same token.
    LiteralMatcher(RawToken),
    /// Takes a value of the named type; of any type where none is named.
    ParamExpr(ParamExpr),
}

/// The parameters of a function, in order.
#[derive(Debug)]
pub struct FnSignature {
    pub params: Vec<Param>,
}

/// A function: its signature and its body.
#[derive(Debug)]
pub struct FnDef {
    pub signature: FnSignature,
    pub body: ListContent,
}

/// A call of a function by name.
#[derive(Debug)]
pub struct FnCall {
    pub name: String,
    pub args: Vec<RawToken>,
}

/// The expressions of one block.
#[derive(Debug)]
pub struct ListContent {
    pub elements: Vec<Expr>,
}

/// An expression.
#[derive(Debug)]
pub enum Expr {
    FnDef(FnDef),
    FnCall(FnCall),
    Type(Type),
    Assign(Assign),
    SmallValue(SmallValue),
    Bytes(Vec<u8>),
    StringSlice(String),
}

/// A whole program.
#[derive(Debug)]
pub struct Ast {
    pub program: ListContent,
}

/// What has a size that is known before anything is emitted.
pub trait CompTimeSize {
    /// The size as signatures see it.
    spec fn comptime_size(&self) -> ByteSize;

    /// The size as signatures see it. Nothing of the context decides it yet.
    fn number_bytes(&self, ctx: &ProgramContext) -> (res: ByteSize)
        ensures
            res == self.comptime_size(),
    ;
}

impl CompTimeSize for SmallValue {
    open spec fn comptime_size(&self) -> ByteSize {
        self.size()
    }

    fn number_bytes(&self, ctx: &ProgramContext) -> (res: ByteSize) {
        match self {
            SmallValue::Byte(_) => ByteSize::Exact(1),
            SmallValue::Word(_) => ByteSize::Exact(2),
            SmallValue::DWord(_) => ByteSize::Exact(4),
            SmallValue::QWord(_) => ByteSize::Exact(8),
            SmallValue::Untyped(_) => ByteSize::Range(1..8),
        }
    }
}

impl CompTimeSize for Expr {
    open spec fn comptime_size(&self) -> ByteSize {
        self.size()
    }

    fn number_bytes(&self, ctx: &ProgramContext) -> (res: ByteSize) {
        match self {
            Expr::FnDef(_) => ByteSize::AnySize,
            Expr::FnCall(_) => ByteSize::AnySize,
            Expr::Type(_) => ByteSize::Exact(0),
            Expr::Assign(_) => ByteSize::AnySize,
            Expr::SmallValue(value) => value.number_bytes(ctx),
            Expr::Bytes(bytes) => ByteSize::Exact(bytes.len()),
            Expr::StringSlice(s) => ByteSize::Exact(s.as_str().len()),
        }
    }
}

impl CompTimeSize for RawToken {
    open spec fn comptime_size(&self) -> ByteSize {
        self.size()
    }

    fn number_bytes(&self, ctx: &ProgramContext) -> (res: ByteSize) {
        match self {
            RawToken::Ident(_) => ByteSize::AnySize,
            RawToken::Symbol(_) => ByteSize::Exact(1),
            RawToken::Expr(expr) => expr.number_bytes(ctx),
        }
    }
}

/// A raw token as contracts speak of it: names as sequences of characters.
pub enum TokenView {
    Ident(Seq<char>),
    Symbol(char),
    Expr(Box<ExprView>),
}

/// A parameter as contracts speak of it.
pub enum ParamView {
    LiteralMatcher(TokenView),
    ParamExpr { name: Option<Seq<char>>, typename: Option<Seq<char>> },
}

/// An expression as contracts speak of it: names and strings as sequences of
/// characters, lists as sequences.
pub enum ExprView {
    FnDef { params: Seq<ParamView>, body: Seq<ExprView> },
    FnCall { name: Seq<char>, args: Seq<TokenView> },
    Type(Type),
    Assign { name: Seq<char>, value: Box<ExprView> },
    SmallValue(SmallValue),
    Bytes(Seq<u8>),
    StringSlice(Seq<char>),
}

/// The characters of an optional name.
pub open spec fn name_view(name: Option<String>) -> Option<Seq<char>> {
    match name {
        Some(n) => Some(n@),
        None => None,
    }
}

/// The views of the tokens `tokens[..upto]`.
pub open spec fn tokens_view(tokens: Seq<RawToken>, upto: nat) -> Seq<TokenView>
    decreases tokens, upto,
{
    if upto == 0 || upto > tokens.len() {
        Seq::empty()
    } else {
        tokens_view(tokens, (upto - 1) as nat).push(token_view(tokens[upto - 1]))
    }
}

/// The views of the parameters `params[..upto]`.
pub open spec fn params_view(params: Seq<Param>, upto: nat) -> Seq<ParamView>
    decreases params, upto,
{
    if upto == 0 || upto > params.len() {
        Seq::empty()
    } else {
        params_view(params, (upto - 1) as nat).push(param_view(params[upto - 1]))
    }
}

/// The views of the expressions `exprs[..upto]`.
pub open spec fn exprs_view(exprs: Seq<Expr>, upto: nat) -> Seq<ExprView>
    decreases exprs, upto,
{
    if upto == 0 || upto > exprs.len() {
        Seq::empty()
    } else {
        exprs_view(exprs, (upto - 1) as nat).push(expr_view(exprs[upto - 1]))
    }
}

/// The view of a token.
pub open spec fn token_view(token: RawToken) -> TokenView
    decreases token, 0nat,
{
    match token {
        RawToken::Ident(ident) => TokenView::Ident(ident.0@),
        RawToken::Symbol(c) => TokenView::Symbol(c),
        RawToken::Expr(expr) => TokenView::Expr(Box::new(expr_view(expr))),
    }
}

/// The view of a parameter.
pub open spec fn param_view(param: Param) -> ParamView
    decreases param, 0nat,
{
    match param {
        Param::LiteralMatcher(token) => ParamView::LiteralMatcher(token_view(token)),
        Param::ParamExpr(p) => ParamView::ParamExpr {
            name: name_view(p.name),
            typename: name_view(p.typename),
        },
    }
}

/// The view of an expression.
pub open spec fn expr_view(expr: Expr) -> ExprView
    decreases expr, 0nat,
{
    match expr {
        Expr::FnDef(def) => ExprView::FnDef {
            params: params_view(def.signature.params@, def.signature.params.len() as nat),
            body: exprs_view(def.body.elements@, def.body.elements.len() as nat),
        },
        Expr::FnCall(call) => ExprView::FnCall {
            name: call.name@,
            args: tokens_view(call.args@, call.args.len() as nat),
        },
        Expr::Type(ty) => ExprView::Type(ty),
        Expr::Assign(assign) => ExprView::Assign {
            name: assign.name@,
            value: Box::new(expr_view(*assign.value)),
        },
        Expr::SmallValue(value) => ExprView::SmallValue(value),
        Expr::Bytes(bytes) => ExprView::Bytes(bytes@),
        Expr::StringSlice(s) => ExprView::StringSlice(s@),
    }
}

impl View for RawToken {
    type V = TokenView;

    open spec fn view(&self) -> TokenView {
        token_view(*self)
    }
}

impl View for Param {
    type V = ParamView;

    open spec fn view(&self) -> ParamView {
        param_view(*self)
    }
}

impl View for Expr {
    type V = ExprView;

    open spec fn view(&self) -> ExprView {
        expr_view(*self)
    }
}

impl View for ListContent {
    type V = Seq<ExprView>;

    open spec fn view(&self) -> Seq<ExprView> {
        exprs_view(self.elements@, self.elements.len() as nat)
    }
}

impl View for Ast {
    type V = Seq<ExprView>;

    open spec fn view(&self) -> Seq<ExprView> {
        self.program@
    }
}

/// The views of the first elements of a list do not change where the list grows, and
/// the view of the new element comes last.
pub proof fn lemma_exprs_view_push(exprs: Seq<Expr>, expr: Expr, upto: nat)
    requires
        upto <= exprs.len(),
    ensures
        exprs_view(exprs.push(expr), upto) == exprs_view(exprs, upto),
        upto == exprs.len() ==> exprs_view(exprs.push(expr), upto + 1) == exprs_view(
            exprs,
            upto,
        ).push(expr_view(expr)),
    decreases upto,
{
    if upto > 0 {
        lemma_exprs_view_push(exprs, expr, (upto - 1) as nat);
        assert(exprs.push(expr)[upto - 1] == exprs[upto - 1]);
    }
    if upto == exprs.len() {
        assert(exprs.push(expr)[upto as int] == expr);
    }
}

/// The views of the first elements of a list do not change where the list grows, and
/// the view of the new element comes last.
pub proof fn lemma_tokens_view_push(tokens: Seq<RawToken>, token: RawToken, upto: nat)
    requires
        upto <= tokens.len(),
    ensures
        tokens_view(tokens.push(token), upto) == tokens_view(tokens, upto),
        upto == tokens.len() ==> tokens_view(tokens.push(token), upto + 1) == tokens_view(
            tokens,
            upto,
        ).push(token_view(token)),
    decreases upto,
{
    if upto > 0 {
        lemma_tokens_view_push(tokens, token, (upto - 1) as nat);
        assert(tokens.push(token)[upto - 1] == tokens[upto - 1]);
    }
    if upto == tokens.len() {
        assert(tokens.push(token)[upto as int] == token);
    }
}

/// The views of the first elements of a list do not change where the list grows, and
/// the view of the new element comes last.
pub proof fn lemma_params_view_push(params: Seq<Param>, param: Param, upto: nat)
    requires
        upto <= params.len(),
    ensures
        params_view(params.push(param), upto) == params_view(params, upto),
        upto == params.len() ==> params_view(params.push(param), upto + 1) == params_view(
            params,
            upto,
        ).push(param_view(param)),
    decreases upto,
{
    if upto > 0 {
        lemma_params_view_push(params, param, (upto - 1) as nat);
        assert(params.push(param)[upto - 1] == params[upto - 1]);
    }
    if upto == params.len() {
        assert(params.push(param)[upto as int] == param);
    }
}

/// The text of an optional name; nothing where there is none.
pub open spec fn name_text(name: Option<String>) -> Seq<char> {
    match name {
        Some(n) => n@,
        None => Seq::empty(),
    }
}

/// Whether two optional names read the same.
pub open spec fn name_eq(a: Option<String>, b: Option<String>) -> bool {
    match (a, b) {
        (Some(x), Some(y)) => x@ == y@,
        (None, None) => true,
        _ => false,
    }
}

/// Whether two tokens are the same token. A token that holds an assignment is the same
/// as no token, and the name of a parameter does not count.
pub open spec fn token_eq(a: RawToken, b: RawToken) -> bool
    decreases a,
{
    match (a, b) {
        (RawToken::Ident(x), RawToken::Ident(y)) => x.0@ == y.0@,
        (RawToken::Symbol(c), RawToken::Symbol(d)) => c == d,
        (RawToken::Expr(e), RawToken::Expr(f)) => expr_eq(e, f),
        _ => false,
    }
}

/// Whether two lists of tokens are the same, token by token.
pub open spec fn tokens_eq(a: Vec<RawToken>, b: Vec<RawToken>) -> bool
    decreases a,
{
    a.len() == b.len() && forall|i: int| 0 <= i < a.len() ==> token_eq(#[trigger] a[i], b[i])
}

/// Whether two parameters are the same: the same literal, or the same type name.
pub open spec fn param_eq(a: Param, b: Param) -> bool
    decreases a,
{
    match (a, b) {
        (Param::LiteralMatcher(x), Param::LiteralMatcher(y)) => token_eq(x, y),
        (Param::ParamExpr(x), Param::ParamExpr(y)) => name_eq(x.typename, y.typename),
        _ => false,
    }
}

/// Whether two lists of parameters are the same, parameter by parameter.
pub open spec fn params_eq(a: Vec<Param>, b: Vec<Param>) -> bool
    decreases a,
{
    a.len() == b.len() && forall|i: int| 0 <= i < a.len() ==> param_eq(#[trigger] a[i], b[i])
}

/// Whether two lists of expressions are the same, expression by expression.
pub open spec fn exprs_eq(a: Vec<Expr>, b: Vec<Expr>) -> bool
    decreases a,
{
    a.len() == b.len() && forall|i: int| 0 <= i < a.len() ==> expr_eq(#[trigger] a[i], b[i])
}

/// Whether two expressions are the same. An assignment is the same as nothing, itself
/// included.
pub open spec fn expr_eq(a: Expr, b: Expr) -> bool
    decreases a,
{
    match (a, b) {
        (Expr::FnDef(x), Expr::FnDef(y)) => params_eq(x.signature.params, y.signature.params)
            && exprs_eq(x.body.elements, y.body.elements),
        (Expr::FnCall(x), Expr::FnCall(y)) => x.name@ == y.name@ && tokens_eq(x.args, y.args),
        (Expr::Type(x), Expr::Type(y)) => x == y,
        (Expr::Assign(_), Expr::Assign(_)) => false,
        (Expr::SmallValue(x), Expr::SmallValue(y)) => x == y,
        (Expr::Bytes(x), Expr::Bytes(y)) => x@ == y@,
        (Expr::StringSlice(x), Expr::StringSlice(y)) => x@ == y@,
        _ => false,
    }
}

/// The tokens `args[..upto]`, each after one space.
pub open spec fn tokens_text(args: Vec<RawToken>, upto: nat) -> Seq<char>
    decreases args, upto,
{
    if upto == 0 || upto > args.len() {
        Seq::empty()
    } else {
        tokens_text(args, (upto - 1) as nat) + " "@ + token_text(args[upto - 1])
    }
}

/// The parameters `params[..upto]`, with `, ` between them.
pub open spec fn params_text(params: Vec<Param>, upto: nat) -> Seq<char>
    decreases params, upto,
{
    if upto == 0 || upto > params.len() {
        Seq::empty()
    } else if upto == 1 {
        param_text(params[0])
    } else {
        params_text(params, (upto - 1) as nat) + ", "@ + param_text(params[upto - 1])
    }
}

/// The text of a parameter: the literal, or `name: type`, `: type`, `name`, or `_`.
pub open spec fn param_text(param: Param) -> Seq<char>
    decreases param, 0nat,
{
    match param {
        Param::LiteralMatcher(token) => token_text(token),
        Param::ParamExpr(p) => match (p.name, p.typename) {
            (Some(name), Some(typename)) => name@ + ": "@ + typename@,
            (None, Some(typename)) => ": "@ + typename@,
            (Some(name), None) => name@,
            (None, None) => "_"@,
        },
    }
}

/// The text of a token: the name, the character, or the text of the expression.
pub open spec fn token_text(token: RawToken) -> Seq<char>
    decreases token, 0nat,
{
    match token {
        RawToken::Ident(ident) => ident.0@,
        RawToken::Symbol(c) => seq![c],
        RawToken::Expr(expr) => expr_text(expr),
    }
}

/// The text of a list of parameters in brackets: `[ params ]`, and `[ ]` where there
/// are none.
pub open spec fn bracketed(params: Vec<Param>) -> Seq<char>
    decreases params, params.len() + 1,
{
    if params.len() == 0 {
        "[ ]"@
    } else {
        "[ "@ + params_text(params, params.len() as nat) + " ]"@
    }
}

/// The text of a signature: `[ params ]`.
pub open spec fn signature_text(signature: FnSignature) -> Seq<char> {
    bracketed(signature.params)
}

/// The text of an expression on one line. A function shows its parameters only.
pub open spec fn expr_text(expr: Expr) -> Seq<char>
    decreases expr, 0nat,
{
    match expr {
        Expr::FnDef(def) => "fn "@ + bracketed(def.signature.params) + " { .. }"@,
        Expr::FnCall(call) => call.name@ + tokens_text(call.args, call.args.len() as nat),
        Expr::Type(ty) => ty.text(),
        Expr::Assign(assign) => assign.name@ + " = "@ + expr_text(*assign.value),
        Expr::SmallValue(value) => value.text(),
        Expr::Bytes(bytes) => "Bytes(0x"@ + hex_bytes(bytes@) + ")"@,
        Expr::StringSlice(s) => "String("@ + s@ + ")"@,
    }
}

fn same_name(a: &Option<String>, b: &Option<String>) -> (res: bool)
    ensures
        res == name_eq(*a, *b),
{
    match (a, b) {
        (Some(x), Some(y)) => *x == *y,
        (None, None) => true,
        _ => false,
    }
}

fn same_bytes(a: &Vec<u8>, b: &Vec<u8>) -> (res: bool)
    ensures
        res == (a@ == b@),
{
    if a.len() != b.len() {
        return false;
    }
    let mut i: usize = 0;
    while i < a.len()
        invariant
            i <= a.len(),
            a.len() == b.len(),
            forall|j: int| 0 <= j < i ==> a@[j] == b@[j],
        decreases a.len() - i,
    {
        if a[i] != b[i] {
            return false;
        }
        i = i + 1;
    }
    assert(a@ =~= b@);
    true
}

fn same_tokens(a: &Vec<RawToken>, b: &Vec<RawToken>) -> (res: bool)
    ensures
        res == tokens_eq(*a, *b),
    decreases a,
{
    if a.len() != b.len() {
        return false;
    }
    let mut i: usize = 0;
    while i < a.len()
        invariant
            i <= a.len(),
            a.len() == b.len(),
            forall|j: int| 0 <= j < i ==> token_eq(#[trigger] a[j], b[j]),
        decreases a.len() - i,
    {
        if !a[i].same(&b[i]) {
            return false;
        }
        i = i + 1;
    }
    true
}

fn same_params(a: &Vec<Param>, b: &Vec<Param>) -> (res: bool)
    ensures
        res == params_eq(*a, *b),
    decreases a,
{
    if a.len() != b.len() {
        return false;
    }
    let mut i: usize = 0;
    while i < a.len()
        invariant
            i <= a.len(),
            a.len() == b.len(),
            forall|j: int| 0 <= j < i ==> param_eq(#[trigger] a[j], b[j]),
        decreases a.len() - i,
    {
        if !a[i].same(&b[i]) {
            return false;
        }
        i = i + 1;
    }
    true
}

fn same_exprs(a: &Vec<Expr>, b: &Vec<Expr>) -> (res: bool)
    ensures
        res == exprs_eq(*a, *b),
    decreases a,
{
    if a.len() != b.len() {
        return false;
    }
    let mut i: usize = 0;
    while i < a.len()
        invariant
            i <= a.len(),
            a.len() == b.len(),
            forall|j: int| 0 <= j < i ==> expr_eq(#[trigger] a[j], b[j]),
        decreases a.len() - i,
    {
        if !a[i].same(&b[i]) {
            return false;
        }
        i = i + 1;
    }
    true
}

fn push_tokens_text(out: &mut String, args: &Vec<RawToken>)
    ensures
        final(out)@ == old(out)@ + tokens_text(*args, args.len() as nat),
    decreases args, args.len(),
{
    let mut i: usize = 0;
    assert(out@ =~= old(out)@ + tokens_text(*args, 0));
    while i < args.len()
        invariant
            i <= args.len(),
            out@ == old(out)@ + tokens_text(*args, i as nat),
        decreases args.len() - i,
    {
        out.append(" ");
        args[i].push_text(out);
        i = i + 1;
        assert(out@ =~= old(out)@ + tokens_text(*args, i as nat));
    }
}

fn push_bracketed(out: &mut String, params: &Vec<Param>)
    ensures
        final(out)@ == old(out)@ + bracketed(*params),
    decreases params, params.len() + 1,
{
    if params.len() == 0 {
        out.append("[ ]");
        return ;
    }
    out.append("[ ");
    let ghost opened = out@;
    let mut i: usize = 0;
    assert(out@ =~= opened + params_text(*params, 0));
    while i < params.len()
        invariant
            i <= params.len(),
            out@ == opened + params_text(*params, i as nat),
        decreases params.len() - i,
    {
        if i > 0 {
            out.append(", ");
        }
        params[i].push_text(out);
        i = i + 1;
        assert(out@ =~= opened + params_text(*params, i as nat));
    }
    out.append(" ]");
    assert(out@ =~= old(out)@ + bracketed(*params));
}

impl RawToken {
    /// The form of the token.
    pub open spec fn kind(self) -> TokenKind {
        match self {
            RawToken::Ident(_) => TokenKind::Ident,
            RawToken::Symbol(_) => TokenKind::Symbol,
            RawToken::Expr(_) => TokenKind::Expr,
        }
    }

    /// The size of the token: unknown for a name, one byte for a symbol, that of the
    /// expression otherwise.
    pub open spec fn size(self) -> ByteSize {
        match self {
            RawToken::Ident(_) => ByteSize::AnySize,
            RawToken::Symbol(_) => ByteSize::Exact(1),
            RawToken::Expr(expr) => expr.size(),
        }
    }

    /// The sizes that hold the token: those that hold its value where it is a literal,
    /// and its size otherwise.
    pub open spec fn fit(self) -> ByteSize {
        match self {
            RawToken::Expr(expr) => expr.fit(),
            _ => self.size(),
        }
    }

    /// The sizes that hold the token.
    pub fn fitting_bytes(&self, ctx: &ProgramContext) -> (res: ByteSize)
        ensures
            res == self.fit(),
    {
        match self {
            RawToken::Ident(_) => ByteSize::AnySize,
            RawToken::Symbol(_) => ByteSize::Exact(1),
            RawToken::Expr(expr) => expr.fitting_bytes(ctx),
        }
    }

    /// The form of the token.
    pub fn token_kind(&self) -> (res: TokenKind)
        ensures
            res == self.kind(),
    {
        match self {
            RawToken::Ident(_) => TokenKind::Ident,
            RawToken::Symbol(_) => TokenKind::Symbol,
            RawToken::Expr(_) => TokenKind::Expr,
        }
    }

    /// Whether the two are the same token.
    pub fn same(&self, other: &RawToken) -> (res: bool)
        ensures
            res == token_eq(*self, *other),
        decreases self,
    {
        match (self, other) {
            (RawToken::Ident(x), RawToken::Ident(y)) => x.0 == y.0,
            (RawToken::Symbol(c), RawToken::Symbol(d)) => *c == *d,
            (RawToken::Expr(e), RawToken::Expr(f)) => e.same(f),
            _ => false,
        }
    }

    /// Appends the text of the token.
    pub fn push_text(&self, out: &mut String)
        ensures
            final(out)@ == old(out)@ + token_text(*self),
        decreases self, 0nat,
    {
        match self {
            RawToken::Ident(ident) => {
                out.append(ident.0.as_str());
            },
            RawToken::Symbol(c) => {
                push_char(out, *c);
                assert(out@ =~= old(out)@ + token_text(*self));
            },
            RawToken::Expr(expr) => {
                expr.push_text(out);
            },
        }
    }
}

impl RawToken {
    /// The text of the token.
    pub fn to_text(&self) -> (res: String)
        ensures
            res@ == token_text(*self),
    {
        let mut out = String::new();
        self.push_text(&mut out);
        assert(out@ =~= token_text(*self));
        out
    }
}

impl Param {
    /// Whether the two are the same parameter.
    pub fn same(&self, other: &Param) -> (res: bool)
        ensures
            res == param_eq(*self, *other),
        decreases self,
    {
        match (self, other) {
            (Param::LiteralMatcher(x), Param::LiteralMatcher(y)) => x.same(y),
            (Param::ParamExpr(x), Param::ParamExpr(y)) => same_name(&x.typename, &y.typename),
            _ => false,
        }
    }

    /// Appends the text of the parameter.
    pub fn push_text(&self, out: &mut String)
        ensures
            final(out)@ == old(out)@ + param_text(*self),
        decreases self, 0nat,
    {
        match self {
            Param::LiteralMatcher(token) => {
                token.push_text(out);
            },
            Param::ParamExpr(p) => {
                match &p.name {
                    Some(name) => {
                        out.append(name.as_str());
                    },
                    None => {},
                }
                match &p.typename {
                    Some(typename) => {
                        out.append(": ");
                        out.append(typename.as_str());
                    },
                    None => {
                        if p.name.is_none() {
                            out.append("_");
                        }
                    },
                }
                assert(out@ =~= old(out)@ + param_text(*self));
            },
        }
    }
}

impl FnSignature {
    /// Appends the text of the signature.
    pub fn push_text(&self, out: &mut String)
        ensures
            final(out)@ == old(out)@ + signature_text(*self),
    {
        push_bracketed(out, &self.params);
    }

    /// The text of the signature.
    pub fn to_text(&self) -> (res: String)
        ensures
            res@ == signature_text(*self),
    {
        let mut out = String::new();
        self.push_text(&mut out);
        assert(out@ =~= signature_text(*self));
        out
    }
}

impl Expr {
    /// The size of the expression as far as it is known before emission: nothing for a
    /// type, the width of a literal, the length of bytes and of a string, and unknown for
    /// functions, calls and assignments.
    pub open spec fn size(self) -> ByteSize {
        match self {
            Expr::FnDef(_) => ByteSize::AnySize,
            Expr::FnCall(_) => ByteSize::AnySize,
            Expr::Type(_) => ByteSize::Exact(0),
            Expr::Assign(_) => ByteSize::AnySize,
            Expr::SmallValue(value) => value.size(),
            Expr::Bytes(bytes) => ByteSize::Exact(bytes.len()),
            Expr::StringSlice(s) => ByteSize::Exact(encode_utf8(s@).len() as usize),
        }
    }

    /// The sizes that hold the expression: those that hold its value where it is
    /// a literal, and its size otherwise.
    pub open spec fn fit(self) -> ByteSize {
        match self {
            Expr::SmallValue(value) => value.fit(),
            _ => self.size(),
        }
    }

    /// The sizes that hold the expression.
    pub fn fitting_bytes(&self, ctx: &ProgramContext) -> (res: ByteSize)
        ensures
            res == self.fit(),
    {
        match self {
            Expr::SmallValue(value) => value.fitting_bytes(),
            _ => self.number_bytes(ctx),
        }
    }

    /// Whether the two are the same expression.
    pub fn same(&self, other: &Expr) -> (res: bool)
        ensures
            res == expr_eq(*self, *other),
        decreases self,
    {
        match (self, other) {
            (Expr::FnDef(x), Expr::FnDef(y)) => same_params(
                &x.signature.params,
                &y.signature.params,
            ) && same_exprs(&x.body.elements, &y.body.elements),
            (Expr::FnCall(x), Expr::FnCall(y)) => x.name == y.name && same_tokens(&x.args, &y.args),
            (Expr::Type(x), Expr::Type(y)) => x.same(y),
            (Expr::Assign(_), Expr::Assign(_)) => false,
            (Expr::SmallValue(x), Expr::SmallValue(y)) => *x == *y,
            (Expr::Bytes(x), Expr::Bytes(y)) => same_bytes(x, y),
            (Expr::StringSlice(x), Expr::StringSlice(y)) => *x == *y,
            _ => false,
        }
    }

    /// Appends the text of the expression.
    pub fn push_text(&self, out: &mut String)
        ensures
            final(out)@ == old(out)@ + expr_text(*self),
        decreases self, 0nat,
    {
        match self {
            Expr::FnDef(def) => {
                out.append("fn ");
                push_bracketed(out, &def.signature.params);
                out.append(" { .. }");
                assert(out@ =~= old(out)@ + expr_text(*self));
            },
            Expr::FnCall(call) => {
                out.append(call.name.as_str());
                push_tokens_text(out, &call.args);
                assert(out@ =~= old(out)@ + expr_text(*self));
            },
            Expr::Type(ty) => {
                ty.push_text(out);
            },
            Expr::Assign(assign) => {
                out.append(assign.name.as_str());
                out.append(" = ");
                assign.value.push_text(out);
                assert(out@ =~= old(out)@ + expr_text(*self));
            },
            Expr::SmallValue(value) => {
                value.push_text(out);
            },
            Expr::Bytes(bytes) => {
                out.append("Bytes(0x");
                push_hex_bytes(out, bytes);
                out.append(")");
                assert(out@ =~= old(out)@ + expr_text(*self));
            },
            Expr::StringSlice(s) => {
                out.append("String(");
                out.append(s.as_str());
                out.append(")");
                assert(out@ =~= old(out)@ + expr_text(*self));
            },
        }
    }

    /// The text of the expression.
    pub fn to_text(&self) -> (res: String)
        ensures
            res@ == expr_text(*self),
    {
        let mut out = String::new();
        self.push_text(&mut out);
        assert(out@ =~= expr_text(*self));
        out
    }
}

} // verus!
