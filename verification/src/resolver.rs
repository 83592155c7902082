//! The resolver: a pre-execution pass that annotates every identifier
//! reference and assignment with its scope distance — how many frames out
//! from the innermost scope its binding lives. Names bound in no surrounding
//! scope produce no entry and resolve through the globals at run time.
//!
//! The pass is pure: it produces a map from parse-tree id to distance and
//! leaves the syntax tree alone.

use vstd::prelude::*;
use vstd::string::StringExecFns;

use crate::expr::{Expr, ExprView, ParseTreeId};
use crate::stmt::{view_stmts, view_strings, Stmt, StmtView};
use crate::text::str_eq;

verus! {

/// One scope while resolving: names declared there, each marked whether its
/// initializer has finished.
type Scope = (String, bool);

/// The shape of one scope.
pub type ScopeView = Seq<(Seq<char>, bool)>;

/// The shape of the resolver's working state: the scope stack, innermost
/// last, and the map built so far as insertions in order.
pub struct ResolveState {
    pub scopes: Seq<ScopeView>,
    pub map: Seq<(ParseTreeId, usize)>,
}

/// The shape of one scope's entries.
pub open spec fn view_scope(s: Seq<Scope>) -> ScopeView {
    s.map_values(|b: Scope| (b.0@, b.1))
}

/// The shapes of all scopes.
pub open spec fn view_scopes(ss: Seq<Vec<Scope>>) -> Seq<ScopeView> {
    ss.map_values(|v: Vec<Scope>| view_scope(v@))
}

/// The defined-mark of a name in one scope: the latest entry wins.
pub open spec fn scope_lookup(s: ScopeView, name: Seq<char>) -> Option<bool>
    decreases s.len(),
{
    if s.len() == 0 {
        None
    } else if s.last().0 == name {
        Some(s.last().1)
    } else {
        scope_lookup(s.drop_last(), name)
    }
}

/// How many hops out from the innermost scope the first scope holding the
/// name lies; nothing when no scope holds it.
pub open spec fn find_distance(ss: Seq<ScopeView>, name: Seq<char>) -> Option<nat>
    decreases ss.len(),
{
    if ss.len() == 0 {
        None
    } else if scope_lookup(ss.last(), name) is Some {
        Some(0)
    } else {
        match find_distance(ss.drop_last(), name) {
            Some(d) => Some(d + 1),
            None => None,
        }
    }
}

/// Declares a name in the innermost scope, not yet defined; outside any
/// scope this does nothing.
pub open spec fn spec_declare(st: ResolveState, name: Seq<char>) -> ResolveState {
    if st.scopes.len() > 0 {
        ResolveState {
            scopes: st.scopes.update(
                st.scopes.len() - 1,
                st.scopes.last().push((name, false)),
            ),
            map: st.map,
        }
    } else {
        st
    }
}

/// Marks a name defined in the innermost scope; outside any scope this does
/// nothing.
pub open spec fn spec_define(st: ResolveState, name: Seq<char>) -> ResolveState {
    if st.scopes.len() > 0 {
        ResolveState {
            scopes: st.scopes.update(st.scopes.len() - 1, st.scopes.last().push((name, true))),
            map: st.map,
        }
    } else {
        st
    }
}

/// Records the scope distance of one identifier or assignment node; a name
/// held by no scope stays out of the map and resolves globally at run time.
pub open spec fn spec_resolve_local(st: ResolveState, id: ParseTreeId, name: Seq<char>) -> ResolveState {
    match find_distance(st.scopes, name) {
        Some(d) => ResolveState { scopes: st.scopes, map: st.map.push((id, d as usize)) },
        None => st,
    }
}

/// The message for reading a name inside its own initializer.
pub open spec fn spec_own_initializer_msg(name: Seq<char>) -> Seq<char> {
    "cannot read local variable \""@ + name + "\" in its own initializer."@
}

/// Resolves one expression.
#[verifier::opaque]
pub open spec fn spec_resolve_expr(st: ResolveState, e: ExprView) -> Result<ResolveState, Seq<char>>
    decreases e, 0int,
{
    match e {
        ExprView::Assign(a) => match spec_resolve_expr(st, *a.right) {
            Err(m) => Err(m),
            Ok(st2) => Ok(spec_resolve_local(st2, a.parse_tree_id, a.left)),
        },
        ExprView::BinaryOr(l, r) => match spec_resolve_expr(st, *l) {
            Err(m) => Err(m),
            Ok(st2) => spec_resolve_expr(st2, *r),
        },
        ExprView::BinaryAnd(l, r) => match spec_resolve_expr(st, *l) {
            Err(m) => Err(m),
            Ok(st2) => spec_resolve_expr(st2, *r),
        },
        ExprView::BinaryEqual(l, r) => match spec_resolve_expr(st, *l) {
            Err(m) => Err(m),
            Ok(st2) => spec_resolve_expr(st2, *r),
        },
        ExprView::BinaryNotEqual(l, r) => match spec_resolve_expr(st, *l) {
            Err(m) => Err(m),
            Ok(st2) => spec_resolve_expr(st2, *r),
        },
        ExprView::BinaryLess(l, r) => match spec_resolve_expr(st, *l) {
            Err(m) => Err(m),
            Ok(st2) => spec_resolve_expr(st2, *r),
        },
        ExprView::BinaryLessEqual(l, r) => match spec_resolve_expr(st, *l) {
            Err(m) => Err(m),
            Ok(st2) => spec_resolve_expr(st2, *r),
        },
        ExprView::BinaryGreater(l, r) => match spec_resolve_expr(st, *l) {
            Err(m) => Err(m),
            Ok(st2) => spec_resolve_expr(st2, *r),
        },
        ExprView::BinaryGreaterEqual(l, r) => match spec_resolve_expr(st, *l) {
            Err(m) => Err(m),
            Ok(st2) => spec_resolve_expr(st2, *r),
        },
        ExprView::BinaryAdd(l, r) => match spec_resolve_expr(st, *l) {
            Err(m) => Err(m),
            Ok(st2) => spec_resolve_expr(st2, *r),
        },
        ExprView::BinarySub(l, r) => match spec_resolve_expr(st, *l) {
            Err(m) => Err(m),
            Ok(st2) => spec_resolve_expr(st2, *r),
        },
        ExprView::BinaryMul(l, r) => match spec_resolve_expr(st, *l) {
            Err(m) => Err(m),
            Ok(st2) => spec_resolve_expr(st2, *r),
        },
        ExprView::BinaryDiv(l, r) => match spec_resolve_expr(st, *l) {
            Err(m) => Err(m),
            Ok(st2) => spec_resolve_expr(st2, *r),
        },
        ExprView::UnaryBang(inner) => spec_resolve_expr(st, *inner),
        ExprView::UnaryMinus(inner) => spec_resolve_expr(st, *inner),
        ExprView::Call(callee, args) => match spec_resolve_expr(st, *callee) {
            Err(m) => Err(m),
            Ok(st2) => spec_resolve_exprs(st2, args),
        },
        ExprView::LiteralString(_) => Ok(st),
        ExprView::LiteralNumber(_) => Ok(st),
        ExprView::False => Ok(st),
        ExprView::True => Ok(st),
        ExprView::Nil => Ok(st),
        ExprView::Identifier(i) => {
            if st.scopes.len() > 0 && scope_lookup(st.scopes.last(), i.id) == Some(false) {
                Err(spec_own_initializer_msg(i.id))
            } else {
                Ok(spec_resolve_local(st, i.parse_tree_id, i.id))
            }
        },
    }
}

/// Resolves a run of expressions in order.
#[verifier::opaque]
pub open spec fn spec_resolve_exprs(st: ResolveState, es: Seq<ExprView>) -> Result<
    ResolveState,
    Seq<char>,
>
    decreases es, 1int,
{
    if es.len() == 0 {
        Ok(st)
    } else {
        match spec_resolve_expr(st, es[0]) {
            Err(m) => Err(m),
            Ok(st2) => spec_resolve_exprs(st2, es.subrange(1, es.len() as int)),
        }
    }
}

/// Declares and defines parameter names in order.
#[verifier::opaque]
pub open spec fn spec_resolve_params(st: ResolveState, params: Seq<Seq<char>>) -> ResolveState
    decreases params.len(),
{
    if params.len() == 0 {
        st
    } else {
        spec_resolve_params(
            spec_define(spec_declare(st, params[0]), params[0]),
            params.subrange(1, params.len() as int),
        )
    }
}

/// Resolves one statement.
#[verifier::opaque]
pub open spec fn spec_resolve_stmt(st: ResolveState, s: StmtView) -> Result<ResolveState, Seq<char>>
    decreases s, 0int,
{
    match s {
        StmtView::Print(e) => spec_resolve_expr(st, e),
        StmtView::Expr(e) => spec_resolve_expr(st, e),
        StmtView::VarDeclaration(name, init) => {
            let st1 = spec_declare(st, name);
            match init {
                Some(e) => match spec_resolve_expr(st1, e) {
                    Err(m) => Err(m),
                    Ok(st2) => Ok(spec_define(st2, name)),
                },
                None => Ok(spec_define(st1, name)),
            }
        },
        StmtView::Block(stmts) => {
            let st1 = ResolveState { scopes: st.scopes.push(Seq::empty()), map: st.map };
            match spec_resolve_stmts(st1, stmts) {
                Err(m) => Err(m),
                Ok(st2) => Ok(
                    ResolveState {
                        scopes: if st2.scopes.len() > 0 {
                            st2.scopes.drop_last()
                        } else {
                            st2.scopes
                        },
                        map: st2.map,
                    },
                ),
            }
        },
        StmtView::If(cond, then_branch, else_branch) => match spec_resolve_expr(st, cond) {
            Err(m) => Err(m),
            Ok(st2) => match spec_resolve_stmt(st2, *then_branch) {
                Err(m) => Err(m),
                Ok(st3) => match else_branch {
                    Some(eb) => spec_resolve_stmt(st3, *eb),
                    None => Ok(st3),
                },
            },
        },
        StmtView::While(cond, body) => match spec_resolve_expr(st, cond) {
            Err(m) => Err(m),
            Ok(st2) => spec_resolve_stmt(st2, *body),
        },
        StmtView::FunctionDeclaration(name, params, body) => {
            let st1 = spec_define(spec_declare(st, name), name);
            let st2 = ResolveState { scopes: st1.scopes.push(Seq::empty()), map: st1.map };
            let st3 = spec_resolve_params(st2, params);
            match spec_resolve_stmt(st3, *body) {
                Err(m) => Err(m),
                Ok(st4) => Ok(
                    ResolveState {
                        scopes: if st4.scopes.len() > 0 {
                            st4.scopes.drop_last()
                        } else {
                            st4.scopes
                        },
                        map: st4.map,
                    },
                ),
            }
        },
    }
}

/// Resolves a run of statements in order.
pub open spec fn spec_resolve_stmts(st: ResolveState, ss: Seq<StmtView>) -> Result<
    ResolveState,
    Seq<char>,
>
    decreases ss, 1int,
{
    if ss.len() == 0 {
        Ok(st)
    } else {
        match spec_resolve_stmt(st, ss[0]) {
            Err(m) => Err(m),
            Ok(st2) => spec_resolve_stmts(st2, ss.subrange(1, ss.len() as int)),
        }
    }
}

/// One unfolding step of resolving a non-empty run of statements.
pub proof fn lemma_resolve_stmts_step(st: ResolveState, ss: Seq<StmtView>)
    requires
        ss.len() > 0,
    ensures
        spec_resolve_stmts(st, ss) == (match spec_resolve_stmt(st, ss[0]) {
            Err(m) => Err(m),
            Ok(st2) => spec_resolve_stmts(st2, ss.subrange(1, ss.len() as int)),
        }),
{
    reveal(spec_resolve_stmt);
}

/// Resolving no statements changes nothing.
pub proof fn lemma_resolve_stmts_nil(st: ResolveState)
    ensures
        spec_resolve_stmts(st, Seq::empty()) == Ok::<ResolveState, Seq<char>>(st),
{
}

/// The whole pass: from no scopes and an empty map, the distance map of a
/// program, or the first resolution error.
pub open spec fn spec_resolve(ss: Seq<StmtView>) -> Result<Seq<(ParseTreeId, usize)>, Seq<char>> {
    match spec_resolve_stmts(ResolveState { scopes: Seq::empty(), map: Seq::empty() }, ss) {
        Err(m) => Err(m),
        Ok(st) => Ok(st.map),
    }
}

/// The distance bound to a parse-tree id: the latest insertion wins.
pub open spec fn rm_lookup(s: Seq<(ParseTreeId, usize)>, id: ParseTreeId) -> Option<usize>
    decreases s.len(),
{
    if s.len() == 0 {
        None
    } else if s.last().0 == id {
        Some(s.last().1)
    } else {
        rm_lookup(s.drop_last(), id)
    }
}

/// The map from parse-tree ids to scope distances that the resolver builds.
#[derive(Debug)]
pub struct ResolverMap {
    entries: Vec<(ParseTreeId, usize)>,
}

impl View for ResolverMap {
    type V = Seq<(ParseTreeId, usize)>;

    closed spec fn view(&self) -> Seq<(ParseTreeId, usize)> {
        self.entries@
    }
}

impl ResolverMap {
    /// An empty map.
    pub fn new() -> (r: ResolverMap)
        ensures
            r@ == Seq::<(ParseTreeId, usize)>::empty(),
    {
        ResolverMap { entries: Vec::new() }
    }

    /// Records a distance for a node id.
    pub fn insert(&mut self, id: ParseTreeId, distance: usize)
        ensures
            final(self)@ == old(self)@.push((id, distance)),
    {
        self.entries.push((id, distance));
    }

    /// The distance recorded for a node id, if any.
    pub fn get(&self, id: ParseTreeId) -> (r: Option<usize>)
        ensures
            r == rm_lookup(self@, id),
    {
        let mut i: usize = self.entries.len();
        proof {
            assert(self@.subrange(0, self@.len() as int) =~= self@);
        }
        while i > 0
            invariant
                i <= self@.len(),
                rm_lookup(self@, id) == rm_lookup(self@.subrange(0, i as int), id),
            decreases i,
        {
            i = i - 1;
            proof {
                let pre = self@.subrange(0, i as int + 1);
                assert(pre.last() == self@[i as int]);
                assert(pre.drop_last() =~= self@.subrange(0, i as int));
            }
            if self.entries[i].0 == id {
                return Some(self.entries[i].1);
            }
        }
        proof {
            assert(self@.subrange(0, 0) =~= Seq::<(ParseTreeId, usize)>::empty());
        }
        None
    }

    /// How many insertions the map holds.
    pub fn len(&self) -> (r: usize)
        ensures
            r == self@.len(),
    {
        self.entries.len()
    }

    /// The insertion at one position, oldest first.
    pub fn entry_at(&self, i: usize) -> (r: (ParseTreeId, usize))
        requires
            i < self@.len(),
        ensures
            r == self@[i as int],
    {
        self.entries[i]
    }
}

/// The resolver: a scope stack and the distance map it is building.
pub struct Resolver {
    scopes: Vec<Vec<Scope>>,
    interpreter_local_map: ResolverMap,
}

/// The defined-mark of a name in one scope vector, scanning latest first.
fn scope_get(scope: &Vec<Scope>, name: &str) -> (r: Option<bool>)
    ensures
        r == scope_lookup(view_scope(scope@), name@),
{
    let ghost sv = view_scope(scope@);
    proof {
        assert(sv.subrange(0, sv.len() as int) =~= sv);
    }
    let mut i: usize = scope.len();
    while i > 0
        invariant
            i <= scope@.len(),
            sv == view_scope(scope@),
            sv.len() == scope@.len(),
            scope_lookup(sv, name@) == scope_lookup(sv.subrange(0, i as int), name@),
        decreases i,
    {
        i = i - 1;
        proof {
            let pre = sv.subrange(0, i as int + 1);
            assert(pre.last() == sv[i as int]);
            assert(sv[i as int] == (scope@[i as int].0@, scope@[i as int].1));
            assert(pre.drop_last() =~= sv.subrange(0, i as int));
        }
        if str_eq(scope[i].0.as_str(), name) {
            return Some(scope[i].1);
        }
    }
    proof {
        assert(sv.subrange(0, 0) =~= Seq::<(Seq<char>, bool)>::empty());
    }
    None
}

impl Resolver {
    /// The shape of the scope stack.
    pub closed spec fn scopes_view(&self) -> Seq<ScopeView> {
        view_scopes(self.scopes@)
    }

    /// The shape of the map built so far.
    pub closed spec fn map_view(&self) -> Seq<(ParseTreeId, usize)> {
        self.interpreter_local_map@
    }

    /// The whole working state as the description sees it.
    pub closed spec fn st(&self) -> ResolveState {
        ResolveState { scopes: self.scopes_view(), map: self.map_view() }
    }

    /// A resolver with no scopes and an empty map.
    pub fn new() -> (r: Resolver)
        ensures
            r.st() == (ResolveState {
                scopes: Seq::<ScopeView>::empty(),
                map: Seq::<(ParseTreeId, usize)>::empty(),
            }),
    {
        let r = Resolver { scopes: Vec::new(), interpreter_local_map: ResolverMap::new() };
        proof {
            assert(r.scopes_view() =~= Seq::<ScopeView>::empty());
        }
        r
    }

    /// Opens a scope.
    fn begin_scope(&mut self)
        ensures
            final(self).st() == (ResolveState {
                scopes: old(self).st().scopes.push(Seq::empty()),
                map: old(self).st().map,
            }),
    {
        self.scopes.push(Vec::new());
        proof {
            assert(view_scope(Seq::<Scope>::empty()) =~= Seq::<(Seq<char>, bool)>::empty());
            assert(self.scopes_view() =~~= old(self).scopes_view().push(Seq::empty()));
        }
    }

    /// Closes the innermost scope; with none open, nothing changes.
    fn end_scope(&mut self)
        ensures
            final(self).st() == (ResolveState {
                scopes: if old(self).st().scopes.len() > 0 {
                    old(self).st().scopes.drop_last()
                } else {
                    old(self).st().scopes
                },
                map: old(self).st().map,
            }),
    {
        let popped = self.scopes.pop();
        proof {
            if old(self).scopes@.len() > 0 {
                assert(self.scopes_view() =~~= old(self).scopes_view().drop_last());
            } else {
                assert(self.scopes_view() =~~= old(self).scopes_view());
            }
        }
    }

    /// Declares a name in the innermost scope, not yet defined.
    fn declare(&mut self, name: &str)
        ensures
            final(self).st() == spec_declare(old(self).st(), name@),
    {
        let entry = (name.to_owned(), false);
        let top = self.scopes.pop();
        match top {
            Some(mut scope) => {
                scope.push(entry);
                self.scopes.push(scope);
                proof {
                    assert(view_scope(scope@) =~= old(self).scopes_view().last().push(
                        (name@, false),
                    ));
                    assert(self.scopes_view() =~~= spec_declare(old(self).st(), name@).scopes);
                }
            },
            None => {
                proof {
                    assert(self.scopes_view() =~~= old(self).scopes_view());
                }
            },
        }
    }

    /// Marks a name defined in the innermost scope.
    fn define(&mut self, name: &str)
        ensures
            final(self).st() == spec_define(old(self).st(), name@),
    {
        let entry = (name.to_owned(), true);
        let top = self.scopes.pop();
        match top {
            Some(mut scope) => {
                scope.push(entry);
                self.scopes.push(scope);
                proof {
                    assert(view_scope(scope@) =~= old(self).scopes_view().last().push(
                        (name@, true),
                    ));
                    assert(self.scopes_view() =~~= spec_define(old(self).st(), name@).scopes);
                }
            },
            None => {
                proof {
                    assert(self.scopes_view() =~~= old(self).scopes_view());
                }
            },
        }
    }

    /// Records the scope distance of one identifier or assignment node.
    fn resolve_local(&mut self, parse_tree_id: ParseTreeId, name: &str)
        ensures
            final(self).st() == spec_resolve_local(old(self).st(), parse_tree_id, name@),
    {
        let ghost ssv = self.scopes_view();
        proof {
            assert(ssv.subrange(0, ssv.len() as int) =~= ssv);
        }
        let len = self.scopes.len();
        let mut d: usize = 0;
        while d < len
            invariant
                d <= len,
                len == self.scopes@.len(),
                ssv == self.scopes_view(),
                ssv.len() == self.scopes@.len(),
                self.st() == old(self).st(),
                match find_distance(ssv.subrange(0, (len - d) as int), name@) {
                    Some(k) => find_distance(ssv, name@) == Some((k + d) as nat),
                    None => find_distance(ssv, name@) is None,
                },
            decreases len - d,
        {
            proof {
                let pre = ssv.subrange(0, (len - d) as int);
                assert(pre.last() == ssv[(len - 1 - d) as int]);
                assert(ssv[(len - 1 - d) as int] == view_scope(
                    self.scopes@[(len - 1 - d) as int]@,
                ));
                assert(pre.drop_last() =~= ssv.subrange(0, (len - d - 1) as int));
            }
            let hit = scope_get(&self.scopes[len - 1 - d], name);
            if hit.is_some() {
                self.interpreter_local_map.insert(parse_tree_id, d);
                return ;
            }
            d = d + 1;
        }
        proof {
            assert(ssv.subrange(0, 0) =~= Seq::<ScopeView>::empty());
        }
    }

    /// Declares and defines each parameter, then resolves the body in a
    /// fresh scope.
    fn resolve_function(&mut self, arguments: &Vec<String>, body: &Stmt) -> (r: Result<(), String>)
        ensures
            match r {
                Ok(_) => ({
                    let st1 = ResolveState {
                        scopes: old(self).st().scopes.push(Seq::empty()),
                        map: old(self).st().map,
                    };
                    let st2 = spec_resolve_params(st1, view_strings(arguments@));
                    match spec_resolve_stmt(st2, body@) {
                        Ok(st3) => final(self).st() == (ResolveState {
                            scopes: if st3.scopes.len() > 0 {
                                st3.scopes.drop_last()
                            } else {
                                st3.scopes
                            },
                            map: st3.map,
                        }),
                        Err(_) => false,
                    }
                }),
                Err(m) => ({
                    let st1 = ResolveState {
                        scopes: old(self).st().scopes.push(Seq::empty()),
                        map: old(self).st().map,
                    };
                    let st2 = spec_resolve_params(st1, view_strings(arguments@));
                    spec_resolve_stmt(st2, body@) == Err::<ResolveState, Seq<char>>(m@)
                }),
            },
        decreases body, 4int,
    {
        proof {
            reveal(spec_resolve_params);
        }
        self.begin_scope();
        let ghost params = view_strings(arguments@);
        let ghost st1 = self.st();
        let mut i: usize = 0;
        proof {
            assert(params.subrange(0, params.len() as int) =~= params);
        }
        while i < arguments.len()
            invariant
                i <= arguments@.len(),
                params == view_strings(arguments@),
                params.len() == arguments@.len(),
                spec_resolve_params(st1, params) == spec_resolve_params(
                    self.st(),
                    params.subrange(i as int, params.len() as int),
                ),
            decreases arguments@.len() - i,
        {
            proof {
                reveal(spec_resolve_params);
                let rest = params.subrange(i as int, params.len() as int);
                assert(rest[0] == params[i as int]);
                assert(params[i as int] == arguments@[i as int]@);
                assert(rest.subrange(1, rest.len() as int) =~= params.subrange(
                    i as int + 1,
                    params.len() as int,
                ));
            }
            let name = &arguments[i];
            self.declare(name.as_str());
            self.define(name.as_str());
            i = i + 1;
        }
        proof {
            reveal(spec_resolve_params);
            assert(params.subrange(params.len() as int, params.len() as int)
                =~= Seq::<Seq<char>>::empty());
        }
        let res = self.resolve_stmt(body);
        match res {
            Ok(_) => {
                self.end_scope();
                Ok(())
            },
            Err(m) => Err(m),
        }
    }

    /// Resolves one statement.
    #[verifier::rlimit(100)]
    #[verifier::spinoff_prover]
    #[verifier::loop_isolation(false)]
    fn resolve_stmt(&mut self, s: &Stmt) -> (r: Result<(), String>)
        ensures
            match r {
                Ok(_) => spec_resolve_stmt(old(self).st(), s@) == Ok::<ResolveState, Seq<char>>(
                    final(self).st(),
                ),
                Err(m) => spec_resolve_stmt(old(self).st(), s@) == Err::<ResolveState, Seq<char>>(
                    m@,
                ),
            },
        decreases s, 3int,
    {
        proof {
            reveal(spec_resolve_stmt);
        }
        match s {
            Stmt::Print(e) => self.resolve_expr(e),
            Stmt::Expr(e) => self.resolve_expr(e),
            Stmt::VarDeclaration(name, init) => {
                self.declare(name.as_str());
                match init {
                    Some(e) => {
                        let res = self.resolve_expr(e);
                        match res {
                            Ok(_) => {
                                self.define(name.as_str());
                                Ok(())
                            },
                            Err(m) => Err(m),
                        }
                    },
                    None => {
                        self.define(name.as_str());
                        Ok(())
                    },
                }
            },
            Stmt::Block(stmts) => {
                self.begin_scope();
                let ghost st1 = self.st();
                let ghost sv = view_stmts(stmts@);
                let mut i: usize = 0;
                proof {
                    reveal(spec_resolve_stmts);
                    crate::stmt::lemma_view_stmts_len(stmts@);
                    assert(sv.subrange(0, sv.len() as int) =~= sv);
                }
                while i < stmts.len()
                    invariant
                        i <= stmts@.len(),
                        spec_resolve_stmts(st1, sv) == spec_resolve_stmts(
                            self.st(),
                            sv.subrange(i as int, sv.len() as int),
                        ),
                    decreases stmts@.len() - i,
                {
                    proof {
                        reveal(spec_resolve_stmts);
                        assert(decreases_to!(*s => *stmts));
                        assert(decreases_to!(*stmts => stmts@));
                        assert(decreases_to!(stmts@ => stmts@[i as int]));
                        let rest = sv.subrange(i as int, sv.len() as int);
                        assert(rest[0] == sv[i as int]);
                        assert(sv[i as int] == stmts@[i as int]@);
                        assert(rest.subrange(1, rest.len() as int) =~= sv.subrange(
                            i as int + 1,
                            sv.len() as int,
                        ));
                    }
                    let res = self.resolve_stmt(&stmts[i]);
                    if let Err(m) = res {
                        return Err(m);
                    }
                    i = i + 1;
                }
                proof {
                    reveal(spec_resolve_stmts);
                    assert(sv.subrange(sv.len() as int, sv.len() as int)
                        =~= Seq::<StmtView>::empty());
                }
                self.end_scope();
                Ok(())
            },
            Stmt::If(cond, then_branch, else_branch) => {
                let res = self.resolve_expr(cond);
                if let Err(m) = res {
                    return Err(m);
                }
                let res2 = self.resolve_stmt(then_branch);
                if let Err(m) = res2 {
                    return Err(m);
                }
                match else_branch {
                    Some(eb) => self.resolve_stmt(eb),
                    None => Ok(()),
                }
            },
            Stmt::While(cond, body) => {
                let res = self.resolve_expr(cond);
                if let Err(m) = res {
                    return Err(m);
                }
                self.resolve_stmt(body)
            },
            Stmt::FunctionDeclaration(name, params, body) => {
                self.declare(name.as_str());
                self.define(name.as_str());
                self.resolve_function(params, body)
            },
        }
    }

    /// Resolves one expression.
    #[verifier::rlimit(100)]
    #[verifier::spinoff_prover]
    #[verifier::loop_isolation(false)]
    fn resolve_expr(&mut self, e: &Expr) -> (r: Result<(), String>)
        ensures
            match r {
                Ok(_) => spec_resolve_expr(old(self).st(), e@) == Ok::<ResolveState, Seq<char>>(
                    final(self).st(),
                ),
                Err(m) => spec_resolve_expr(old(self).st(), e@) == Err::<ResolveState, Seq<char>>(
                    m@,
                ),
            },
        decreases e, 3int,
    {
        proof {
            reveal(spec_resolve_expr);
        }
        match e {
            Expr::Assign(a) => {
                let res = self.resolve_expr(&a.right);
                match res {
                    Ok(_) => {
                        self.resolve_local(a.parse_tree_id, a.left.as_str());
                        Ok(())
                    },
                    Err(m) => Err(m),
                }
            },
            Expr::BinaryOr(l, r) => {
                let res = self.resolve_expr(l);
                if let Err(m) = res {
                    return Err(m);
                }
                self.resolve_expr(r)
            },
            Expr::BinaryAnd(l, r) => {
                let res = self.resolve_expr(l);
                if let Err(m) = res {
                    return Err(m);
                }
                self.resolve_expr(r)
            },
            Expr::BinaryEqual(l, r) => {
                let res = self.resolve_expr(l);
                if let Err(m) = res {
                    return Err(m);
                }
                self.resolve_expr(r)
            },
            Expr::BinaryNotEqual(l, r) => {
                let res = self.resolve_expr(l);
                if let Err(m) = res {
                    return Err(m);
                }
                self.resolve_expr(r)
            },
            Expr::BinaryLess(l, r) => {
                let res = self.resolve_expr(l);
                if let Err(m) = res {
                    return Err(m);
                }
                self.resolve_expr(r)
            },
            Expr::BinaryLessEqual(l, r) => {
                let res = self.resolve_expr(l);
                if let Err(m) = res {
                    return Err(m);
                }
                self.resolve_expr(r)
            },
            Expr::BinaryGreater(l, r) => {
                let res = self.resolve_expr(l);
                if let Err(m) = res {
                    return Err(m);
                }
                self.resolve_expr(r)
            },
            Expr::BinaryGreaterEqual(l, r) => {
                let res = self.resolve_expr(l);
                if let Err(m) = res {
                    return Err(m);
                }
                self.resolve_expr(r)
            },
            Expr::BinaryAdd(l, r) => {
                let res = self.resolve_expr(l);
                if let Err(m) = res {
                    return Err(m);
                }
                self.resolve_expr(r)
            },
            Expr::BinarySub(l, r) => {
                let res = self.resolve_expr(l);
                if let Err(m) = res {
                    return Err(m);
                }
                self.resolve_expr(r)
            },
            Expr::BinaryMul(l, r) => {
                let res = self.resolve_expr(l);
                if let Err(m) = res {
                    return Err(m);
                }
                self.resolve_expr(r)
            },
            Expr::BinaryDiv(l, r) => {
                let res = self.resolve_expr(l);
                if let Err(m) = res {
                    return Err(m);
                }
                self.resolve_expr(r)
            },
            Expr::UnaryBang(inner) => self.resolve_expr(inner),
            Expr::UnaryMinus(inner) => self.resolve_expr(inner),
            Expr::Call(callee, args) => {
                let res = self.resolve_expr(callee);
                if let Err(m) = res {
                    return Err(m);
                }
                let ghost st2 = self.st();
                let ghost av = crate::expr::view_exprs(args@);
                let mut i: usize = 0;
                proof {
                    reveal(spec_resolve_exprs);
                    crate::expr::lemma_view_exprs_len(args@);
                    assert(av.subrange(0, av.len() as int) =~= av);
                }
                while i < args.len()
                    invariant
                        i <= args@.len(),
                        spec_resolve_exprs(st2, av) == spec_resolve_exprs(
                            self.st(),
                            av.subrange(i as int, av.len() as int),
                        ),
                    decreases args@.len() - i,
                {
                    proof {
                        reveal(spec_resolve_exprs);
                        assert(decreases_to!(*e => *args));
                        assert(decreases_to!(*args => args@));
                        assert(decreases_to!(args@ => args@[i as int]));
                        let rest = av.subrange(i as int, av.len() as int);
                        assert(rest[0] == av[i as int]);
                        assert(av[i as int] == args@[i as int]@);
                        assert(rest.subrange(1, rest.len() as int) =~= av.subrange(
                            i as int + 1,
                            av.len() as int,
                        ));
                    }
                    let res2 = self.resolve_expr(&args[i]);
                    if let Err(m) = res2 {
                        return Err(m);
                    }
                    i = i + 1;
                }
                proof {
                    reveal(spec_resolve_exprs);
                    assert(av.subrange(av.len() as int, av.len() as int)
                        =~= Seq::<ExprView>::empty());
                }
                Ok(())
            },
            Expr::LiteralString(_) => Ok(()),
            Expr::LiteralNumber(_) => Ok(()),
            Expr::False => Ok(()),
            Expr::True => Ok(()),
            Expr::Nil => Ok(()),
            Expr::Identifier(ident) => {
                if self.scopes.len() > 0 {
                    let top = scope_get(&self.scopes[self.scopes.len() - 1], ident.id.as_str());
                    proof {
                        assert(self.scopes_view().last() == view_scope(
                            self.scopes@[self.scopes@.len() - 1]@,
                        ));
                    }
                    if let Some(false) = top {
                        let mut msg = String::from_str("cannot read local variable \"");
                        msg.append(ident.id.as_str());
                        msg.append("\" in its own initializer.");
                        proof {
                            assert(msg@ =~= spec_own_initializer_msg(ident.id@));
                        }
                        return Err(msg);
                    }
                }
                self.resolve_local(ident.parse_tree_id, ident.id.as_str());
                Ok(())
            },
        }
    }

    /// Resolves the statements from one position on, in order.
    fn resolve_statements_from(&mut self, statements: &Vec<Stmt>, i: usize) -> (r: Result<
        (),
        String,
    >)
        requires
            i <= statements@.len(),
        ensures
            match r {
                Ok(_) => spec_resolve_stmts(
                    old(self).st(),
                    view_stmts(statements@).subrange(i as int, statements@.len() as int),
                ) == Ok::<ResolveState, Seq<char>>(final(self).st()),
                Err(m) => spec_resolve_stmts(
                    old(self).st(),
                    view_stmts(statements@).subrange(i as int, statements@.len() as int),
                ) == Err::<ResolveState, Seq<char>>(m@),
            },
        decreases statements@.len() - i,
    {
        let ghost sv = view_stmts(statements@);
        proof {
            crate::stmt::lemma_view_stmts_len(statements@);
        }
        if i >= statements.len() {
            proof {
                assert(sv.subrange(i as int, statements@.len() as int)
                    =~= Seq::<StmtView>::empty());
                lemma_resolve_stmts_nil(self.st());
            }
            return Ok(());
        }
        proof {
            let rest = sv.subrange(i as int, statements@.len() as int);
            assert(rest[0] == sv[i as int]);
            assert(rest[0] == statements@[i as int]@);
            assert(rest.subrange(1, rest.len() as int) =~= sv.subrange(
                i as int + 1,
                statements@.len() as int,
            ));
        }
        proof {
            assert(self.st() == old(self).st());
        }
        let ghost pre = self.st();
        let stmt_ref = &statements[i];
        let ghost svi = stmt_ref@;
        let res = self.resolve_stmt(stmt_ref);
        proof {
            lemma_resolve_stmts_step(pre, sv.subrange(i as int, statements@.len() as int));
        }
        if let Err(m) = res {
            return Err(m);
        }
        self.resolve_statements_from(statements, i + 1)
    }

    /// Resolves a whole program: clears the map and the scope stack, walks
    /// the statements, and hands back the distance map or the first error.
    #[verifier::loop_isolation(false)]
    #[verifier::rlimit(100)]
    pub fn resolve(&mut self, statements: &Vec<Stmt>) -> (r: Result<ResolverMap, String>)
        ensures
            match r {
                Ok(m) => spec_resolve(view_stmts(statements@)) == Ok::<
                    Seq<(ParseTreeId, usize)>,
                    Seq<char>,
                >(m@),
                Err(msg) => spec_resolve(view_stmts(statements@)) == Err::<
                    Seq<(ParseTreeId, usize)>,
                    Seq<char>,
                >(msg@),
            },
    {
        self.interpreter_local_map = ResolverMap::new();
        self.scopes = Vec::new();
        let ghost st0 = self.st();
        proof {
            assert(st0.scopes =~= Seq::<ScopeView>::empty());
            assert(st0.map =~= Seq::<(ParseTreeId, usize)>::empty());
            reveal(spec_resolve_stmts);
        }
        let res = self.resolve_statements_from(statements, 0);
        proof {
            crate::stmt::lemma_view_stmts_len(statements@);
            assert(view_stmts(statements@).subrange(0, statements@.len() as int) =~= view_stmts(
                statements@,
            ));
        }
        if let Err(m) = res {
            return Err(m);
        }
        let mut out = ResolverMap::new();
        let n = self.interpreter_local_map.len();
        let mut k: usize = 0;
        while k < n
            invariant
                k <= n,
                n == self.interpreter_local_map@.len(),
                out@ == self.interpreter_local_map@.subrange(0, k as int),
            decreases n - k,
        {
            let entry = self.interpreter_local_map.entry_at(k);
            out.insert(entry.0, entry.1);
            proof {
                assert(self.interpreter_local_map@.subrange(0, k as int).push(
                    self.interpreter_local_map@[k as int],
                ) =~= self.interpreter_local_map@.subrange(0, k as int + 1));
            }
            k = k + 1;
        }
        proof {
            assert(self.interpreter_local_map@.subrange(
                0,
                self.interpreter_local_map@.len() as int,
            ) =~= self.interpreter_local_map@);
        }
        Ok(out)
    }
}

} // verus!

verus! {

/// Idempotent resolution: two runs of the resolver over the same statements
/// that both succeed produce the same distance map — the map is a function
/// of the syntax tree alone.
pub proof fn lemma_resolver_idempotent(
    ss: Seq<StmtView>,
    m1: Seq<(ParseTreeId, usize)>,
    m2: Seq<(ParseTreeId, usize)>,
)
    requires
        spec_resolve(ss) == Ok::<Seq<(ParseTreeId, usize)>, Seq<char>>(m1),
        spec_resolve(ss) == Ok::<Seq<(ParseTreeId, usize)>, Seq<char>>(m2),
    ensures
        m1 == m2,
{
}

} // verus!
