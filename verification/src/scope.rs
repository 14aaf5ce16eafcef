//! Scopes, the symbol table, the type registry and the state of one compilation.

use crate::ast::{Expr, Type};
use crate::lexer::FileContext;
use crate::text::{push_repeat, repeat, same_text};
use vstd::prelude::*;
use vstd::string::*;

verus! {

/// The number of a scope. Later scopes have larger numbers.
pub type ScopeId = usize;

/// Which way the indentation moves.
#[derive(Debug, PartialEq, Eq, Clone, Copy, Structural)]
pub enum IndentationChange {
    More,
    Less,
}

/// The counters of one compilation: the next scope to hand out, and the depth at which
/// text is emitted. Every compilation owns its own.
#[derive(Debug, PartialEq, Eq, Clone, Copy, Structural)]
pub struct CompilationState {
    pub highest_scope: usize,
    pub indentation_level: usize,
}

/// One more, as far as the machine can count.
pub open spec fn succ(n: usize) -> usize {
    if n < usize::MAX {
        (n + 1) as usize
    } else {
        n
    }
}

/// One less, but not below zero.
pub open spec fn pred(n: usize) -> usize {
    if n > 0 {
        (n - 1) as usize
    } else {
        n
    }
}

/// The padding at a depth: four spaces for every level.
pub open spec fn padding(level: usize) -> Seq<char> {
    repeat(' ', (4 * level) as nat)
}

impl CompilationState {
    /// The state at the start of a compilation.
    pub fn new() -> (state: CompilationState)
        ensures
            state.highest_scope == 0,
            state.indentation_level == 0,
    {
        CompilationState { highest_scope: 0, indentation_level: 0 }
    }
}

/// The padding at the current depth.
pub fn current_padding(state: &CompilationState) -> (res: String)
    ensures
        res@ == padding(state.indentation_level),
{
    let mut out = String::new();
    push_padding(&mut out, state.indentation_level);
    assert(out@ =~= padding(state.indentation_level));
    out
}

/// Appends the padding at a depth.
pub fn push_padding(out: &mut String, level: usize)
    ensures
        final(out)@ == old(out)@ + padding(level),
{
    let mut i: usize = 0;
    assert(out@ =~= old(out)@ + repeat(' ', 0));
    while i < level
        invariant
            i <= level,
            out@ == old(out)@ + repeat(' ', (4 * i) as nat),
        decreases level - i,
    {
        push_repeat(out, ' ', 4);
        i = i + 1;
        assert(out@ =~= old(out)@ + repeat(' ', (4 * i) as nat));
    }
}

/// The scope that is handed out next.
pub fn current_scope(state: &CompilationState) -> (scope: ScopeId)
    ensures
        scope == state.highest_scope,
{
    state.highest_scope
}

/// Hands out the next scope. It is larger than every scope handed out since the last
/// reset, as long as the counter has not reached the largest number the machine holds.
pub fn next_scope(state: &mut CompilationState) -> (scope: ScopeId)
    ensures
        scope == old(state).highest_scope,
        final(state).highest_scope == succ(old(state).highest_scope),
        final(state).indentation_level == old(state).indentation_level,
        scope < final(state).highest_scope || scope == usize::MAX,
{
    let scope: usize = state.highest_scope;
    if scope < usize::MAX {
        state.highest_scope = scope + 1;
    }
    scope
}

/// Starts a compilation over: the first scope is 0 again, and so is the depth.
pub fn reset_scope_and_indent(state: &mut CompilationState)
    ensures
        final(state).highest_scope == 0,
        final(state).indentation_level == 0,
{
    state.highest_scope = 0;
    state.indentation_level = 0;
}

/// Moves the indentation one level and returns the level it had before. The scopes are
/// not touched.
pub fn change_indentation(state: &mut CompilationState, change: IndentationChange) -> (previous:
    usize)
    ensures
        previous == old(state).indentation_level,
        final(state).highest_scope == old(state).highest_scope,
        final(state).indentation_level == match change {
            IndentationChange::More => succ(old(state).indentation_level),
            IndentationChange::Less => pred(old(state).indentation_level),
        },
{
    let previous: usize = state.indentation_level;
    match change {
        IndentationChange::More => {
            if previous < usize::MAX {
                state.indentation_level = previous + 1;
            }
        },
        IndentationChange::Less => {
            if previous > 0 {
                state.indentation_level = previous - 1;
            }
        },
    }
    previous
}

/// What a name is bound to, and in which scope.
#[derive(Debug, Clone, Copy)]
pub struct Symbol<'a> {
    pub scope: ScopeId,
    pub value: &'a Expr,
}

/// One entry of the symbol table.
#[derive(Debug)]
pub struct Binding<'a> {
    pub name: String,
    pub symbol: Symbol<'a>,
}

/// All bindings of a compilation, in the order in which they were made. A name may be
/// bound any number of times.
#[derive(Debug)]
pub struct SymbolTable<'a> {
    pub entries: Vec<Binding<'a>>,
}

/// The bindings of `name` whose scope is on the stack, in the order in which they were
/// made.
pub open spec fn visible(entries: Seq<Binding>, name: Seq<char>, stack: Seq<ScopeId>) -> Seq<
    Symbol,
>
    decreases entries.len(),
{
    if entries.len() == 0 {
        Seq::empty()
    } else {
        let before = visible(entries.drop_last(), name, stack);
        let last = entries.last();
        if last.name@ == name && stack.contains(last.symbol.scope) {
            before.push(last.symbol)
        } else {
            before
        }
    }
}

/// Whether the scope is on the stack.
pub fn on_stack(stack: &Vec<ScopeId>, scope: ScopeId) -> (res: bool)
    ensures
        res == stack@.contains(scope),
{
    let mut i: usize = 0;
    while i < stack.len()
        invariant
            i <= stack.len(),
            forall|j: int| 0 <= j < i ==> stack@[j] != scope,
        decreases stack.len() - i,
    {
        if stack[i] == scope {
            return true;
        }
        i = i + 1;
    }
    false
}

impl<'a> SymbolTable<'a> {
    /// A table without bindings.
    pub fn new() -> (table: SymbolTable<'a>)
        ensures
            table.entries@ == Seq::<Binding>::empty(),
    {
        SymbolTable { entries: Vec::new() }
    }

    /// Adds a binding behind all others. No binding is changed or removed.
    pub fn insert(&mut self, name: String, scope: ScopeId, value: &'a Expr)
        ensures
            final(self).entries@ == old(self).entries@.push(
                Binding { name, symbol: Symbol { scope, value } },
            ),
    {
        self.entries.push(Binding { name, symbol: Symbol { scope, value } });
    }

    /// The bindings of `name` whose scope is anywhere on the stack, in the order in
    /// which they were made.
    pub fn lookup(&self, name: &str, scope_stack: &Vec<ScopeId>) -> (found: Vec<Symbol<'a>>)
        ensures
            found@ == visible(self.entries@, name@, scope_stack@),
    {
        let mut found: Vec<Symbol<'a>> = Vec::new();
        let mut i: usize = 0;
        assert(self.entries@.take(0) =~= Seq::<Binding>::empty());
        while i < self.entries.len()
            invariant
                i <= self.entries.len(),
                found@ == visible(self.entries@.take(i as int), name@, scope_stack@),
            decreases self.entries.len() - i,
        {
            let entry = &self.entries[i];
            proof {
                let next = self.entries@.take(i + 1);
                assert(next.drop_last() =~= self.entries@.take(i as int));
                assert(next.last() == self.entries@[i as int]);
            }
            if same_text(entry.name.as_str(), name) && on_stack(scope_stack, entry.symbol.scope) {
                found.push(entry.symbol);
            }
            i = i + 1;
        }
        assert(self.entries@.take(self.entries.len() as int) =~= self.entries@);
        found
    }
}

/// The declared types by name.
#[derive(Debug)]
pub struct TypeRegistry {
    entries: Vec<(String, Type)>,
}

/// The map that a list of declarations makes; a later declaration of a name replaces
/// an earlier one.
pub open spec fn declared(entries: Seq<(String, Type)>) -> Map<Seq<char>, Type>
    decreases entries.len(),
{
    if entries.len() == 0 {
        Map::empty()
    } else {
        declared(entries.drop_last()).insert(entries.last().0@, entries.last().1)
    }
}

impl View for TypeRegistry {
    type V = Map<Seq<char>, Type>;

    closed spec fn view(&self) -> Map<Seq<char>, Type> {
        declared(self.entries@)
    }
}

impl TypeRegistry {
    /// A registry without types.
    pub fn new() -> (registry: TypeRegistry)
        ensures
            registry@ == Map::<Seq<char>, Type>::empty(),
    {
        TypeRegistry { entries: Vec::new() }
    }

    /// Declares a type under a name. The name then stands for this type only.
    pub fn insert(&mut self, name: String, ty: Type)
        ensures
            final(self)@ == old(self)@.insert(name@, ty),
    {
        proof {
            let after = self.entries@.push((name, ty));
            assert(after.drop_last() =~= self.entries@);
        }
        self.entries.push((name, ty));
    }

    /// The type declared under a name, if there is one.
    pub fn get(&self, name: &str) -> (found: Option<&Type>)
        ensures
            found matches Some(ty) ==> self@.contains_key(name@) && self@[name@] == *ty,
            found is None ==> !self@.contains_key(name@),
    {
        let mut i: usize = self.entries.len();
        assert(self.entries@.take(i as int) =~= self.entries@);
        while i > 0
            invariant
                i <= self.entries.len(),
                self@.contains_key(name@) == declared(self.entries@.take(i as int)).contains_key(
                    name@,
                ),
                self@.contains_key(name@) ==> self@[name@] == declared(
                    self.entries@.take(i as int),
                )[name@],
            decreases i,
        {
            let entry = &self.entries[i - 1];
            proof {
                let upto = self.entries@.take(i as int);
                assert(upto.drop_last() =~= self.entries@.take(i - 1));
                assert(upto.last() == self.entries@[i - 1]);
            }
            if same_text(entry.0.as_str(), name) {
                return Some(&entry.1);
            }
            i = i - 1;
        }
        None
    }

}

/// What is known of the program: its symbols, its types, and where in which file
/// errors are reported.
#[derive(Debug)]
pub struct ProgramContext<'a> {
    pub symbols: SymbolTable<'a>,
    pub types: TypeRegistry,
    pub file_context: FileContext<'a>,
}

/// What a context holds, as contracts speak of it: the bindings in the order in which
/// they were made, and the declared types by name.
pub struct Known<'a> {
    pub entries: Seq<Binding<'a>>,
    pub types: Map<Seq<char>, Type>,
}

impl<'a> View for ProgramContext<'a> {
    type V = Known<'a>;

    open spec fn view(&self) -> Known<'a> {
        Known { entries: self.symbols.entries@, types: self.types@ }
    }
}

impl<'a> ProgramContext<'a> {
    /// A context without symbols and types.
    pub fn new(file_context: FileContext<'a>) -> (ctx: ProgramContext<'a>)
        ensures
            ctx.symbols.entries@ == Seq::<Binding>::empty(),
            ctx.types@ == Map::<Seq<char>, Type>::empty(),
            ctx.file_context == file_context,
    {
        ProgramContext { symbols: SymbolTable::new(), types: TypeRegistry::new(), file_context }
    }
}

/// The type declared under a name, if there is one.
pub fn find_type<'c>(ctx: &'c ProgramContext, typename: &str) -> (found: Option<&'c Type>)
    ensures
        found matches Some(ty) ==> ctx.types@.contains_key(typename@) && ctx.types@[typename@]
            == *ty,
        found is None ==> !ctx.types@.contains_key(typename@),
{
    ctx.types.get(typename)
}

} // verus!
