//! Which identifiers the nodes of a graph use, and which they introduce.

use vstd::prelude::*;

verus! {

/// The text that the standard library gives as the lower-case form of a
/// text.
pub uninterp spec fn lowercase_of(name: Seq<char>) -> Seq<char>;

/// Calls `str::to_lowercase` of the standard library. The contract gives
/// the result its name and states nothing else of it.
#[verifier::external_body]
fn to_lowercase(name: &str) -> (r: String)
    ensures
        r@ == lowercase_of(name@),
{
    name.to_lowercase()
}

/// The identifier name normalized to a lower-case (as the comparisons are
/// case-insensitive).
#[derive(Clone, Debug, PartialEq, Eq, Hash)]
pub struct NormalizedName(pub String);

impl NormalizedName {
    /// Wraps given string into the normalized name.
    pub fn new(name: &str) -> (r: NormalizedName)
        ensures
            r.0@ == lowercase_of(name@),
    {
        NormalizedName(to_lowercase(name))
    }

    /// Whether the two names are one name.
    pub fn is_same(&self, other: &NormalizedName) -> (r: bool)
        ensures
            r == (self.0@ == other.0@),
    {
        self.0 == other.0
    }

    /// A copy of the name.
    pub fn duplicate(&self) -> (r: NormalizedName)
        ensures
            r.0@ == self.0@,
    {
        NormalizedName(self.0.clone())
    }
}

/// Identifier with its location (relative to the expression of the node).
#[derive(Clone, Debug, PartialEq, Eq)]
pub struct LocatedIdentifier {
    pub crumbs: Vec<usize>,
    pub item: NormalizedName,
}

impl LocatedIdentifier {
    /// The identifier `item` at the location `crumbs`.
    pub fn new(crumbs: Vec<usize>, item: NormalizedName) -> (r: Self)
        ensures
            r.crumbs == crumbs,
            r.item == item,
    {
        LocatedIdentifier { crumbs, item }
    }

    /// A copy of the identifier and its location.
    pub fn duplicate(&self) -> (r: Self)
        ensures
            r.item.0@ == self.item.0@,
            r.crumbs@ == self.crumbs@,
    {
        let mut crumbs: Vec<usize> = Vec::new();
        let mut i: usize = 0;
        while i < self.crumbs.len()
            invariant
                i <= self.crumbs.len(),
                crumbs@ == self.crumbs@.subrange(0, i as int),
            decreases self.crumbs.len() - i,
        {
            crumbs.push(self.crumbs[i]);
            proof {
                assert(crumbs@ =~= self.crumbs@.subrange(0, i as int + 1));
            }
            i = i + 1;
        }
        proof {
            assert(crumbs@ =~= self.crumbs@);
        }
        LocatedIdentifier { crumbs, item: self.item.duplicate() }
    }
}

/// Description of how some node is interacting with the graph's scope.
#[derive(Clone, Debug, Default)]
pub struct IdentifierUsage {
    /// Identifiers that node introduces into the parent scope.
    pub introduced: Vec<LocatedIdentifier>,
    /// Identifiers from the graph's scope that node is using.
    pub used: Vec<LocatedIdentifier>,
}

/// Says whether the identifier occurrence introduces it into scope or uses
/// it from scope.
#[derive(Clone, Copy, Debug, PartialEq, Eq, Structural)]
pub enum OccurrenceKind {
    Used,
    Introduced,
}

/// If the current context in the AST processor is a pattern context.
#[derive(Clone, Copy, Debug, PartialEq, Eq, Structural)]
pub enum Context {
    NonPattern,
    Pattern,
}

/// Represents scope and information about identifiers usage within it.
#[derive(Clone, Debug, Default)]
pub struct Scope {
    pub symbols: IdentifierUsage,
}

/// One of the first `n` identifiers has the name.
pub open spec fn introduces(introduced: Seq<LocatedIdentifier>, name: Seq<char>, n: int) -> bool
    decreases n,
{
    if n <= 0 {
        false
    } else {
        introduced[n - 1].item.0@ == name || introduces(introduced, name, n - 1)
    }
}

/// The names and locations of those among the first `n` used identifiers
/// that are not introduced: the identifiers that the parent scope must
/// provide, in the order of their use.
pub open spec fn unprovided(used: Seq<LocatedIdentifier>, introduced: Seq<LocatedIdentifier>, n: int) -> Seq<
    (Seq<char>, Seq<usize>),
>
    decreases n,
{
    if n <= 0 {
        Seq::empty()
    } else if introduces(introduced, used[n - 1].item.0@, introduced.len() as int) {
        unprovided(used, introduced, n - 1)
    } else {
        unprovided(used, introduced, n - 1).push((used[n - 1].item.0@, used[n - 1].crumbs@))
    }
}

/// The names and locations of the identifiers.
pub open spec fn located(identifiers: Seq<LocatedIdentifier>) -> Seq<(Seq<char>, Seq<usize>)> {
    Seq::new(identifiers.len(), |i: int| (identifiers[i].item.0@, identifiers[i].crumbs@))
}

impl Scope {
    /// A scope in which nothing is introduced or used.
    pub fn new() -> (r: Self)
        ensures
            r.symbols.introduced@.len() == 0,
            r.symbols.used@.len() == 0,
    {
        Scope { symbols: IdentifierUsage { introduced: Vec::new(), used: Vec::new() } }
    }

    /// Whether the scope introduces the name.
    pub fn is_introduced(&self, name: &NormalizedName) -> (r: bool)
        ensures
            r == introduces(self.symbols.introduced@, name.0@, self.symbols.introduced@.len() as int),
    {
        let mut i: usize = 0;
        while i < self.symbols.introduced.len()
            invariant
                i <= self.symbols.introduced.len(),
                !introduces(self.symbols.introduced@, name.0@, i as int),
            decreases self.symbols.introduced.len() - i,
        {
            if self.symbols.introduced[i].item.is_same(name) {
                proof {
                    lemma_introduces_from(
                        self.symbols.introduced@,
                        name.0@,
                        i as int + 1,
                        self.symbols.introduced@.len() as int,
                    );
                }
                return true;
            }
            i = i + 1;
        }
        false
    }

    /// The identifiers that are used in this scope but are not introduced
    /// in this scope, i.e. the identifiers that parent scope must provide.
    pub fn used_from_parent(&self) -> (r: Vec<LocatedIdentifier>)
        ensures
            located(r@) == unprovided(self.symbols.used@, self.symbols.introduced@, self.symbols.used@.len() as int),
    {
        let mut r: Vec<LocatedIdentifier> = Vec::new();
        let mut i: usize = 0;
        assert(located(r@) =~= Seq::<(Seq<char>, Seq<usize>)>::empty());
        while i < self.symbols.used.len()
            invariant
                i <= self.symbols.used.len(),
                located(r@) == unprovided(self.symbols.used@, self.symbols.introduced@, i as int),
            decreases self.symbols.used.len() - i,
        {
            if !self.is_introduced(&self.symbols.used[i].item) {
                let ghost before = r@;
                r.push(self.symbols.used[i].duplicate());
                proof {
                    assert(located(r@) =~= located(before).push(
                        (self.symbols.used@[i as int].item.0@, self.symbols.used@[i as int].crumbs@),
                    ));
                }
            }
            i = i + 1;
        }
        r
    }

    /// Drops the information about nested child scope by:
    /// 1) disregarding any usage of identifiers introduced in the child
    ///    scope;
    /// 2) propagating all non-shadowed identifier usage from the child scope
    ///    into this scope usage list.
    pub fn coalesce_child(&mut self, child: Scope)
        ensures
            located(final(self).symbols.introduced@) == located(old(self).symbols.introduced@),
            located(final(self).symbols.used@) == located(old(self).symbols.used@) + unprovided(
                child.symbols.used@,
                child.symbols.introduced@,
                child.symbols.used@.len() as int,
            ),
    {
        let symbols_to_use = child.used_from_parent();
        let mut i: usize = 0;
        assert(located(self.symbols.used@) =~= located(old(self).symbols.used@) + located(
            symbols_to_use@,
        ).subrange(0, 0));
        while i < symbols_to_use.len()
            invariant
                i <= symbols_to_use.len(),
                self.symbols.introduced@ == old(self).symbols.introduced@,
                located(self.symbols.used@) == located(old(self).symbols.used@) + located(
                    symbols_to_use@,
                ).subrange(0, i as int),
            decreases symbols_to_use.len() - i,
        {
            let ghost before = self.symbols.used@;
            self.symbols.used.push(symbols_to_use[i].duplicate());
            proof {
                assert(located(self.symbols.used@) =~= located(before).push(
                    (symbols_to_use@[i as int].item.0@, symbols_to_use@[i as int].crumbs@),
                ));
                assert(located(self.symbols.used@) =~= located(old(self).symbols.used@) + located(
                    symbols_to_use@,
                ).subrange(0, i as int + 1));
            }
            i = i + 1;
        }
        proof {
            assert(located(symbols_to_use@).subrange(0, symbols_to_use@.len() as int) =~= located(
                symbols_to_use@,
            ));
        }
    }

    /// Notes that the identifier occurs in this scope, as one that is used
    /// or as one that is introduced.
    pub fn add_identifier(&mut self, kind: OccurrenceKind, identifier: LocatedIdentifier)
        ensures
            match kind {
                OccurrenceKind::Used => final(self).symbols.used@ == old(self).symbols.used@.push(identifier)
                    && final(self).symbols.introduced@ == old(self).symbols.introduced@,
                OccurrenceKind::Introduced => final(self).symbols.introduced@ == old(
                    self,
                ).symbols.introduced@.push(identifier) && final(self).symbols.used@ == old(self).symbols.used@,
            },
    {
        match kind {
            OccurrenceKind::Used => {
                self.symbols.used.push(identifier);
            },
            OccurrenceKind::Introduced => {
                self.symbols.introduced.push(identifier);
            },
        }
    }
}

/// Goes through an expression and keeps what it finds of the use of
/// identifiers: the scopes that are open, the contexts, and the place in
/// the expression.
#[derive(Clone, Debug, Default)]
pub struct AliasAnalyzer {
    /// Root scope for this analyzer.
    pub root_scope: Scope,
    /// Stack of scopes, shadowing the root one.
    pub scopes: Vec<Scope>,
    /// Stack of context. Lack of any context information is considered
    /// non-pattern context.
    pub context: Vec<Context>,
    /// Current location, relative to the input AST root.
    pub location: Vec<usize>,
}

impl AliasAnalyzer {
    /// The innermost scope that is open.
    pub open spec fn current_scope(self) -> Scope {
        if self.scopes@.len() > 0 {
            self.scopes@.last()
        } else {
            self.root_scope
        }
    }

    /// The context that holds: the one that was entered last, or the
    /// non-pattern context if none was entered.
    pub open spec fn current_context(self) -> Context {
        if self.context@.len() > 0 {
            self.context@.last()
        } else {
            Context::NonPattern
        }
    }

    /// Creates a new analyzer.
    pub fn new() -> (r: AliasAnalyzer)
        ensures
            r.scopes@.len() == 0,
            r.context@.len() == 0,
            r.location@.len() == 0,
            r.root_scope.symbols.used@.len() == 0,
            r.root_scope.symbols.introduced@.len() == 0,
    {
        AliasAnalyzer { root_scope: Scope::new(), scopes: Vec::new(), context: Vec::new(), location: Vec::new() }
    }

    /// Opens a new scope inside the current one.
    pub fn enter_scope(&mut self)
        ensures
            final(self).scopes@.len() == old(self).scopes@.len() + 1,
            final(self).scopes@.drop_last() == old(self).scopes@,
            final(self).scopes@.last().symbols.used@.len() == 0,
            final(self).scopes@.last().symbols.introduced@.len() == 0,
            final(self).root_scope == old(self).root_scope,
            final(self).context == old(self).context,
            final(self).location == old(self).location,
    {
        self.scopes.push(Scope::new());
    }

    /// Closes the innermost scope: what it used and did not introduce is
    /// used by the scope around it. A scope has to be open.
    pub fn leave_scope(&mut self)
        requires
            old(self).scopes@.len() > 0,
        ensures
            final(self).scopes@.len() == old(self).scopes@.len() - 1,
            final(self).context == old(self).context,
            final(self).location == old(self).location,
            located(final(self).current_scope().symbols.introduced@) == located(
                old(self).outer_scope().symbols.introduced@,
            ),
            located(final(self).current_scope().symbols.used@) == located(old(self).outer_scope().symbols.used@)
                + unprovided(
                old(self).current_scope().symbols.used@,
                old(self).current_scope().symbols.introduced@,
                old(self).current_scope().symbols.used@.len() as int,
            ),
    {
        let scope = self.scopes.pop();
        match scope {
            Some(scope) => {
                let n = self.scopes.len();
                if n > 0 {
                    self.scopes[n - 1].coalesce_child(scope);
                } else {
                    self.root_scope.coalesce_child(scope);
                }
            },
            None => {},
        }
    }

    /// The scope around the innermost scope. A scope has to be open.
    pub open spec fn outer_scope(self) -> Scope {
        if self.scopes@.len() > 1 {
            self.scopes@[self.scopes@.len() - 2]
        } else {
            self.root_scope
        }
    }

    /// Enters a context.
    pub fn enter_context(&mut self, context: Context)
        ensures
            final(self).context@ == old(self).context@.push(context),
            final(self).scopes == old(self).scopes,
            final(self).root_scope == old(self).root_scope,
            final(self).location == old(self).location,
    {
        self.context.push(context);
    }

    /// Leaves the context that was entered last.
    pub fn leave_context(&mut self)
        ensures
            final(self).context@ == (if old(self).context@.len() > 0 {
                old(self).context@.drop_last()
            } else {
                old(self).context@
            }),
            final(self).scopes == old(self).scopes,
            final(self).root_scope == old(self).root_scope,
            final(self).location == old(self).location,
    {
        self.context.pop();
    }

    /// Whether the given context holds.
    pub fn is_in_context(&self, context: Context) -> (r: bool)
        ensures
            r == (self.current_context() == context),
    {
        let current = if self.context.len() > 0 {
            self.context[self.context.len() - 1]
        } else {
            Context::NonPattern
        };
        current == context
    }

    /// Whether the pattern context holds.
    pub fn is_in_pattern(&self) -> (r: bool)
        ensures
            r == (self.current_context() is Pattern),
    {
        self.is_in_context(Context::Pattern)
    }

    /// Goes one step deeper into the expression.
    pub fn enter_location(&mut self, crumb: usize)
        ensures
            final(self).location@ == old(self).location@.push(crumb),
            final(self).scopes == old(self).scopes,
            final(self).root_scope == old(self).root_scope,
            final(self).context == old(self).context,
    {
        self.location.push(crumb);
    }

    /// Goes one step back out of the expression.
    pub fn leave_location(&mut self)
        ensures
            final(self).location@ == (if old(self).location@.len() > 0 {
                old(self).location@.drop_last()
            } else {
                old(self).location@
            }),
            final(self).scopes == old(self).scopes,
            final(self).root_scope == old(self).root_scope,
            final(self).context == old(self).context,
    {
        self.location.pop();
    }

    /// Notes that the identifier occurs at the current location, in the
    /// innermost scope that is open.
    pub fn add_identifier(&mut self, kind: OccurrenceKind, identifier: NormalizedName)
        ensures
            final(self).context == old(self).context,
            final(self).location == old(self).location,
            final(self).scopes@.len() == old(self).scopes@.len(),
            match kind {
                OccurrenceKind::Used => located(final(self).current_scope().symbols.used@) == located(
                    old(self).current_scope().symbols.used@,
                ).push((identifier.0@, old(self).location@)) && final(self).current_scope().symbols.introduced@
                    == old(self).current_scope().symbols.introduced@,
                OccurrenceKind::Introduced => located(final(self).current_scope().symbols.introduced@)
                    == located(old(self).current_scope().symbols.introduced@).push(
                    (identifier.0@, old(self).location@),
                ) && final(self).current_scope().symbols.used@ == old(self).current_scope().symbols.used@,
            },
    {
        let mut crumbs: Vec<usize> = Vec::new();
        let mut i: usize = 0;
        while i < self.location.len()
            invariant
                i <= self.location.len(),
                *self == *old(self),
                crumbs@ == self.location@.subrange(0, i as int),
            decreases self.location.len() - i,
        {
            crumbs.push(self.location[i]);
            proof {
                assert(crumbs@ =~= self.location@.subrange(0, i as int + 1));
            }
            i = i + 1;
        }
        proof {
            assert(crumbs@ =~= self.location@);
        }
        let identifier = LocatedIdentifier::new(crumbs, identifier);
        let ghost used_before = located(self.current_scope().symbols.used@);
        let ghost introduced_before = located(self.current_scope().symbols.introduced@);
        let n = self.scopes.len();
        if n > 0 {
            self.scopes[n - 1].add_identifier(kind, identifier);
        } else {
            self.root_scope.add_identifier(kind, identifier);
        }
        proof {
            match kind {
                OccurrenceKind::Used => {
                    assert(located(self.current_scope().symbols.used@) =~= used_before.push(
                        (identifier.item.0@, identifier.crumbs@),
                    ));
                },
                OccurrenceKind::Introduced => {
                    assert(located(self.current_scope().symbols.introduced@) =~= introduced_before.push(
                        (identifier.item.0@, identifier.crumbs@),
                    ));
                },
            }
        }
    }
}

/// A name that one of the first `k` identifiers has, one of the first `n`
/// has.
pub proof fn lemma_introduces_from(introduced: Seq<LocatedIdentifier>, name: Seq<char>, k: int, n: int)
    requires
        0 <= k <= n <= introduced.len(),
        introduces(introduced, name, k),
    ensures
        introduces(introduced, name, n),
    decreases n - k,
{
    if n > k {
        lemma_introduces_from(introduced, name, k, n - 1);
    }
}

} // verus!
