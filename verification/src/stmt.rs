//! Statement nodes of the syntax tree.

use vstd::prelude::*;

use crate::expr::{view_exprs, Expr, ExprView};

verus! {

/// A statement node.
#[derive(Debug, PartialEq)]
pub enum Stmt {
    Print(Box<Expr>),
    Expr(Box<Expr>),
    VarDeclaration(String, Option<Box<Expr>>),
    Block(Vec<Stmt>),
    If(Box<Expr>, Box<Stmt>, Option<Box<Stmt>>),
    While(Box<Expr>, Box<Stmt>),
    FunctionDeclaration(String, Vec<String>, Box<Stmt>),
}

/// The mathematical shape of a statement.
pub enum StmtView {
    Print(ExprView),
    Expr(ExprView),
    VarDeclaration(Seq<char>, Option<ExprView>),
    Block(Seq<StmtView>),
    If(ExprView, Box<StmtView>, Option<Box<StmtView>>),
    While(ExprView, Box<StmtView>),
    FunctionDeclaration(Seq<char>, Seq<Seq<char>>, Box<StmtView>),
}

/// The character sequences of a sequence of strings.
pub open spec fn view_strings(s: Seq<String>) -> Seq<Seq<char>> {
    s.map_values(|x: String| x@)
}

/// The shapes of a sequence of statements.
pub open spec fn view_stmts(s: Seq<Stmt>) -> Seq<StmtView>
    decreases s,
{
    if s.len() == 0 {
        Seq::empty()
    } else {
        seq![s[0].shape()] + view_stmts(s.subrange(1, s.len() as int))
    }
}

impl Stmt {
    /// The shape of this statement.
    pub open spec fn shape(&self) -> StmtView
        decreases self,
    {
        match self {
            Stmt::Print(e) => StmtView::Print(e.shape()),
            Stmt::Expr(e) => StmtView::Expr(e.shape()),
            Stmt::VarDeclaration(name, init) => StmtView::VarDeclaration(
                name@,
                match init {
                    Some(e) => Some(e.shape()),
                    None => None,
                },
            ),
            Stmt::Block(stmts) => StmtView::Block(view_stmts(stmts@)),
            Stmt::If(cond, then_branch, else_branch) => StmtView::If(
                cond.shape(),
                Box::new(then_branch.shape()),
                match else_branch {
                    Some(s) => Some(Box::new(s.shape())),
                    None => None,
                },
            ),
            Stmt::While(cond, body) => StmtView::While(cond.shape(), Box::new(body.shape())),
            Stmt::FunctionDeclaration(name, params, body) => StmtView::FunctionDeclaration(
                name@,
                view_strings(params@),
                Box::new(body.shape()),
            ),
        }
    }
}

impl View for Stmt {
    type V = StmtView;

    open spec fn view(&self) -> StmtView {
        self.shape()
    }
}

/// A deep copy of a list of parameter names, with the same characters.
pub fn clone_strings(v: &Vec<String>) -> (res: Vec<String>)
    ensures
        res@.len() == v@.len(),
        view_strings(res@) == view_strings(v@),
        forall|i: int| 0 <= i < v@.len() ==> res@[i] == #[trigger] v@[i],
{
    let mut res: Vec<String> = Vec::new();
    let mut i: usize = 0;
    while i < v.len()
        invariant
            i <= v@.len(),
            res@.len() == i,
            forall|j: int| 0 <= j < i ==> res@[j] == #[trigger] v@[j],
        decreases v@.len() - i,
    {
        res.push(v[i].clone());
        i = i + 1;
    }
    proof {
        assert(res@ =~= v@);
    }
    res
}

impl Clone for Stmt {
    /// A deep copy with the same shape.
    #[verifier::loop_isolation(false)]
    fn clone(&self) -> (res: Self)
        ensures
            res@ == self@,
        decreases self,
    {
        match self {
            Stmt::Print(e) => Stmt::Print(Box::new((**e).clone())),
            Stmt::Expr(e) => Stmt::Expr(Box::new((**e).clone())),
            Stmt::VarDeclaration(name, init) => Stmt::VarDeclaration(
                name.clone(),
                match init {
                    Some(e) => Some(Box::new((**e).clone())),
                    None => None,
                },
            ),
            Stmt::Block(stmts) => {
                let mut cloned: Vec<Stmt> = Vec::new();
                let mut i: usize = 0;
                while i < stmts.len()
                    invariant
                        i <= stmts.len(),
                        view_stmts(cloned@) == view_stmts(stmts@.subrange(0, i as int)),
                        cloned@.len() == i,
                    decreases stmts.len() - i,
                {
                    proof {
                        assert(decreases_to!(*self => *stmts));
                        assert(decreases_to!(*stmts => stmts@));
                        assert(decreases_to!(stmts@ => stmts@[i as int]));
                    }
                    let c = stmts[i].clone();
                    let ghost prev = cloned@;
                    cloned.push(c);
                    proof {
                        lemma_view_stmts_push(prev, c);
                        lemma_view_stmts_push(stmts@.subrange(0, i as int), stmts@[i as int]);
                        assert(stmts@.subrange(0, i as int).push(stmts@[i as int])
                            =~= stmts@.subrange(0, i as int + 1));
                        assert(view_stmts(cloned@) =~= view_stmts(
                            stmts@.subrange(0, i as int + 1),
                        ));
                    }
                    i = i + 1;
                }
                proof {
                    assert(stmts@.subrange(0, stmts@.len() as int) =~= stmts@);
                }
                Stmt::Block(cloned)
            },
            Stmt::If(cond, then_branch, else_branch) => Stmt::If(
                Box::new((**cond).clone()),
                Box::new((**then_branch).clone()),
                match else_branch {
                    Some(s) => Some(Box::new((**s).clone())),
                    None => None,
                },
            ),
            Stmt::While(cond, body) => Stmt::While(
                Box::new((**cond).clone()),
                Box::new((**body).clone()),
            ),
            Stmt::FunctionDeclaration(name, params, body) => Stmt::FunctionDeclaration(
                name.clone(),
                clone_strings(params),
                Box::new((**body).clone()),
            ),
        }
    }
}

/// Appending one statement appends one shape.
pub proof fn lemma_view_stmts_push(s: Seq<Stmt>, e: Stmt)
    ensures
        view_stmts(s.push(e)) =~= view_stmts(s).push(e@),
    decreases s,
{
    if s.len() == 0 {
        assert(s.push(e).len() == 1);
        assert(s.push(e)[0] == e);
        assert(s.push(e).subrange(1, s.push(e).len() as int) =~= Seq::<Stmt>::empty());
        assert(view_stmts(Seq::<Stmt>::empty()) == Seq::<StmtView>::empty());
        assert(view_stmts(s.push(e)) == seq![e.shape()] + view_stmts(
            s.push(e).subrange(1, s.push(e).len() as int),
        ));
        assert(view_stmts(s) == Seq::<StmtView>::empty());
        assert(view_stmts(s.push(e)) =~= view_stmts(s).push(e.shape()));
    } else {
        assert(s.push(e).subrange(1, s.push(e).len() as int) =~= s.subrange(
            1,
            s.len() as int,
        ).push(e));
        lemma_view_stmts_push(s.subrange(1, s.len() as int), e);
        assert(s.push(e)[0] == s[0]);
        assert(view_stmts(s.push(e)) == seq![s[0].shape()] + view_stmts(
            s.subrange(1, s.len() as int).push(e),
        ));
        assert(view_stmts(s.push(e)) =~= view_stmts(s).push(e.shape()));
    }
}

/// The shape sequence keeps the length and the element shapes.
pub proof fn lemma_view_stmts_len(s: Seq<Stmt>)
    ensures
        view_stmts(s).len() == s.len(),
        forall|i: int| 0 <= i < s.len() ==> view_stmts(s)[i] == #[trigger] s[i]@,
        forall|i: int| 0 <= i < s.len() ==> #[trigger] view_stmts(s)[i] == s[i]@,
    decreases s,
{
    if s.len() != 0 {
        lemma_view_stmts_len(s.subrange(1, s.len() as int));
        assert forall|i: int| 0 <= i < s.len() implies view_stmts(s)[i] == #[trigger] s[i]@ by {
            if i > 0 {
                assert(view_stmts(s)[i] == view_stmts(s.subrange(1, s.len() as int))[i - 1]);
                assert(s.subrange(1, s.len() as int)[i - 1] == s[i]);
            }
        }
    }
}

} // verus!
