//! Expression nodes of the syntax tree.
//!
//! Identifier references and assignments carry a stable parse-tree id, a
//! monotonic integer handed out by the parser; the resolver keys its scope
//! distances by it.

use vstd::prelude::*;

verus! {

/// The stable id of an identifier or assignment node, assigned at parse time.
pub type ParseTreeId = u32;

/// An expression node.
#[derive(Debug, PartialEq)]
pub enum Expr {
    Assign(ExprAssign),
    BinaryOr(Box<Expr>, Box<Expr>),
    BinaryAnd(Box<Expr>, Box<Expr>),
    BinaryEqual(Box<Expr>, Box<Expr>),
    BinaryNotEqual(Box<Expr>, Box<Expr>),
    BinaryLess(Box<Expr>, Box<Expr>),
    BinaryLessEqual(Box<Expr>, Box<Expr>),
    BinaryGreater(Box<Expr>, Box<Expr>),
    BinaryGreaterEqual(Box<Expr>, Box<Expr>),
    BinaryAdd(Box<Expr>, Box<Expr>),
    BinarySub(Box<Expr>, Box<Expr>),
    BinaryMul(Box<Expr>, Box<Expr>),
    BinaryDiv(Box<Expr>, Box<Expr>),
    UnaryBang(Box<Expr>),
    UnaryMinus(Box<Expr>),
    Call(Box<Expr>, Vec<Expr>),
    LiteralString(String),
    LiteralNumber(crate::num::Num),
    False,
    True,
    Nil,
    Identifier(ExprIdentifier),
}

/// An assignment to a named variable.
#[derive(Debug, PartialEq)]
pub struct ExprAssign {
    pub parse_tree_id: ParseTreeId,
    pub left: String,
    pub right: Box<Expr>,
}

/// A read of a named variable.
#[derive(Debug, PartialEq)]
pub struct ExprIdentifier {
    pub parse_tree_id: ParseTreeId,
    pub id: String,
}

/// The mathematical shape of an expression, with strings as character
/// sequences and numbers as mantissas.
pub enum ExprView {
    Assign(ExprAssignView),
    BinaryOr(Box<ExprView>, Box<ExprView>),
    BinaryAnd(Box<ExprView>, Box<ExprView>),
    BinaryEqual(Box<ExprView>, Box<ExprView>),
    BinaryNotEqual(Box<ExprView>, Box<ExprView>),
    BinaryLess(Box<ExprView>, Box<ExprView>),
    BinaryLessEqual(Box<ExprView>, Box<ExprView>),
    BinaryGreater(Box<ExprView>, Box<ExprView>),
    BinaryGreaterEqual(Box<ExprView>, Box<ExprView>),
    BinaryAdd(Box<ExprView>, Box<ExprView>),
    BinarySub(Box<ExprView>, Box<ExprView>),
    BinaryMul(Box<ExprView>, Box<ExprView>),
    BinaryDiv(Box<ExprView>, Box<ExprView>),
    UnaryBang(Box<ExprView>),
    UnaryMinus(Box<ExprView>),
    Call(Box<ExprView>, Seq<ExprView>),
    LiteralString(Seq<char>),
    LiteralNumber(int),
    False,
    True,
    Nil,
    Identifier(ExprIdentifierView),
}

/// The shape of an assignment node.
pub struct ExprAssignView {
    pub parse_tree_id: ParseTreeId,
    pub left: Seq<char>,
    pub right: Box<ExprView>,
}

/// The shape of an identifier node.
pub struct ExprIdentifierView {
    pub parse_tree_id: ParseTreeId,
    pub id: Seq<char>,
}

/// The shapes of a sequence of expressions.
pub open spec fn view_exprs(s: Seq<Expr>) -> Seq<ExprView>
    decreases s,
{
    if s.len() == 0 {
        Seq::empty()
    } else {
        seq![s[0].shape()] + view_exprs(s.subrange(1, s.len() as int))
    }
}

impl Expr {
    /// The shape of this expression.
    pub open spec fn shape(&self) -> ExprView
        decreases self,
    {
        match self {
            Expr::Assign(a) => ExprView::Assign(
                ExprAssignView {
                    parse_tree_id: a.parse_tree_id,
                    left: a.left@,
                    right: Box::new(a.right.shape()),
                },
            ),
            Expr::BinaryOr(l, r) => ExprView::BinaryOr(Box::new(l.shape()), Box::new(r.shape())),
            Expr::BinaryAnd(l, r) => ExprView::BinaryAnd(Box::new(l.shape()), Box::new(r.shape())),
            Expr::BinaryEqual(l, r) => ExprView::BinaryEqual(Box::new(l.shape()), Box::new(r.shape())),
            Expr::BinaryNotEqual(l, r) => ExprView::BinaryNotEqual(Box::new(l.shape()), Box::new(r.shape())),
            Expr::BinaryLess(l, r) => ExprView::BinaryLess(Box::new(l.shape()), Box::new(r.shape())),
            Expr::BinaryLessEqual(l, r) => ExprView::BinaryLessEqual(Box::new(l.shape()), Box::new(r.shape())),
            Expr::BinaryGreater(l, r) => ExprView::BinaryGreater(Box::new(l.shape()), Box::new(r.shape())),
            Expr::BinaryGreaterEqual(l, r) => ExprView::BinaryGreaterEqual(
                Box::new(l.shape()),
                Box::new(r.shape()),
            ),
            Expr::BinaryAdd(l, r) => ExprView::BinaryAdd(Box::new(l.shape()), Box::new(r.shape())),
            Expr::BinarySub(l, r) => ExprView::BinarySub(Box::new(l.shape()), Box::new(r.shape())),
            Expr::BinaryMul(l, r) => ExprView::BinaryMul(Box::new(l.shape()), Box::new(r.shape())),
            Expr::BinaryDiv(l, r) => ExprView::BinaryDiv(Box::new(l.shape()), Box::new(r.shape())),
            Expr::UnaryBang(e) => ExprView::UnaryBang(Box::new(e.shape())),
            Expr::UnaryMinus(e) => ExprView::UnaryMinus(Box::new(e.shape())),
            Expr::Call(callee, args) => ExprView::Call(Box::new(callee.shape()), view_exprs(args@)),
            Expr::LiteralString(s) => ExprView::LiteralString(s@),
            Expr::LiteralNumber(n) => ExprView::LiteralNumber(n@),
            Expr::False => ExprView::False,
            Expr::True => ExprView::True,
            Expr::Nil => ExprView::Nil,
            Expr::Identifier(i) => ExprView::Identifier(
                ExprIdentifierView { parse_tree_id: i.parse_tree_id, id: i.id@ },
            ),
        }
    }
}

impl View for Expr {
    type V = ExprView;

    open spec fn view(&self) -> ExprView {
        self.shape()
    }
}

impl Clone for Expr {
    /// A deep copy with the same shape.
    #[verifier::loop_isolation(false)]
    fn clone(&self) -> (res: Self)
        ensures
            res@ == self@,
        decreases self,
    {
        match self {
            Expr::Assign(a) => Expr::Assign(
                ExprAssign {
                    parse_tree_id: a.parse_tree_id,
                    left: a.left.clone(),
                    right: Box::new((*a.right).clone()),
                },
            ),
            Expr::BinaryOr(l, r) => Expr::BinaryOr(
                Box::new((**l).clone()),
                Box::new((**r).clone()),
            ),
            Expr::BinaryAnd(l, r) => Expr::BinaryAnd(
                Box::new((**l).clone()),
                Box::new((**r).clone()),
            ),
            Expr::BinaryEqual(l, r) => Expr::BinaryEqual(
                Box::new((**l).clone()),
                Box::new((**r).clone()),
            ),
            Expr::BinaryNotEqual(l, r) => Expr::BinaryNotEqual(
                Box::new((**l).clone()),
                Box::new((**r).clone()),
            ),
            Expr::BinaryLess(l, r) => Expr::BinaryLess(
                Box::new((**l).clone()),
                Box::new((**r).clone()),
            ),
            Expr::BinaryLessEqual(l, r) => Expr::BinaryLessEqual(
                Box::new((**l).clone()),
                Box::new((**r).clone()),
            ),
            Expr::BinaryGreater(l, r) => Expr::BinaryGreater(
                Box::new((**l).clone()),
                Box::new((**r).clone()),
            ),
            Expr::BinaryGreaterEqual(l, r) => Expr::BinaryGreaterEqual(
                Box::new((**l).clone()),
                Box::new((**r).clone()),
            ),
            Expr::BinaryAdd(l, r) => Expr::BinaryAdd(
                Box::new((**l).clone()),
                Box::new((**r).clone()),
            ),
            Expr::BinarySub(l, r) => Expr::BinarySub(
                Box::new((**l).clone()),
                Box::new((**r).clone()),
            ),
            Expr::BinaryMul(l, r) => Expr::BinaryMul(
                Box::new((**l).clone()),
                Box::new((**r).clone()),
            ),
            Expr::BinaryDiv(l, r) => Expr::BinaryDiv(
                Box::new((**l).clone()),
                Box::new((**r).clone()),
            ),
            Expr::UnaryBang(e) => Expr::UnaryBang(Box::new((**e).clone())),
            Expr::UnaryMinus(e) => Expr::UnaryMinus(Box::new((**e).clone())),
            Expr::Call(callee, args) => {
                let cloned_callee = Box::new((**callee).clone());
                let mut cloned_args: Vec<Expr> = Vec::new();
                let mut i: usize = 0;
                while i < args.len()
                    invariant
                        i <= args.len(),
                        view_exprs(cloned_args@) == view_exprs(args@.subrange(0, i as int)),
                        cloned_args@.len() == i,
                    decreases args.len() - i,
                {
                    proof {
                        assert(decreases_to!(*self => (*self)->Call_1));
                        assert((*self)->Call_1 == *args);
                        assert(decreases_to!(*args => args@));
                        assert(decreases_to!(args@ => args@[i as int]));
                    }
                    let cloned = args[i].clone();
                    let ghost prev = cloned_args@;
                    cloned_args.push(cloned);
                    proof {
                        lemma_view_exprs_push(prev, cloned);
                        lemma_view_exprs_push(args@.subrange(0, i as int), args@[i as int]);
                        assert(args@.subrange(0, i as int).push(args@[i as int]) =~= args@.subrange(
                            0,
                            i as int + 1,
                        ));
                        assert(view_exprs(cloned_args@) =~= view_exprs(
                            args@.subrange(0, i as int + 1),
                        ));
                    }
                    i = i + 1;
                }
                proof {
                    assert(args@.subrange(0, args@.len() as int) =~= args@);
                }
                Expr::Call(cloned_callee, cloned_args)
            },
            Expr::LiteralString(s) => Expr::LiteralString(s.clone()),
            Expr::LiteralNumber(n) => Expr::LiteralNumber(*n),
            Expr::False => Expr::False,
            Expr::True => Expr::True,
            Expr::Nil => Expr::Nil,
            Expr::Identifier(id) => Expr::Identifier(
                ExprIdentifier { parse_tree_id: id.parse_tree_id, id: id.id.clone() },
            ),
        }
    }
}

/// Appending one expression appends one shape.
pub proof fn lemma_view_exprs_push(s: Seq<Expr>, e: Expr)
    ensures
        view_exprs(s.push(e)) =~= view_exprs(s).push(e@),
    decreases s,
{
    if s.len() == 0 {
        assert(s.push(e).len() == 1);
        assert(s.push(e)[0] == e);
        assert(s.push(e).subrange(1, s.push(e).len() as int) =~= Seq::<Expr>::empty());
        assert(view_exprs(Seq::<Expr>::empty()) == Seq::<ExprView>::empty());
        assert(view_exprs(s.push(e)) == seq![e.shape()] + view_exprs(
            s.push(e).subrange(1, s.push(e).len() as int),
        ));
        assert(view_exprs(s) == Seq::<ExprView>::empty());
        assert(view_exprs(s.push(e)) =~= view_exprs(s).push(e.shape()));
    } else {
        assert(s.push(e).subrange(1, s.push(e).len() as int) =~= s.subrange(
            1,
            s.len() as int,
        ).push(e));
        lemma_view_exprs_push(s.subrange(1, s.len() as int), e);
        assert(s.push(e)[0] == s[0]);
        assert(view_exprs(s.push(e)) == seq![s[0].shape()] + view_exprs(
            s.subrange(1, s.len() as int).push(e),
        ));
        assert(view_exprs(s.push(e)) =~= view_exprs(s).push(e.shape()));
    }
}

/// The shape sequence keeps the length and the element shapes.
pub proof fn lemma_view_exprs_len(s: Seq<Expr>)
    ensures
        view_exprs(s).len() == s.len(),
        forall|i: int| 0 <= i < s.len() ==> view_exprs(s)[i] == #[trigger] s[i]@,
        forall|i: int| 0 <= i < s.len() ==> #[trigger] view_exprs(s)[i] == s[i]@,
    decreases s,
{
    if s.len() != 0 {
        lemma_view_exprs_len(s.subrange(1, s.len() as int));
        assert forall|i: int| 0 <= i < s.len() implies view_exprs(s)[i] == #[trigger] s[i]@ by {
            if i > 0 {
                assert(view_exprs(s)[i] == view_exprs(s.subrange(1, s.len() as int))[i - 1]);
                assert(s.subrange(1, s.len() as int)[i - 1] == s[i]);
            }
        }
    }
}

} // verus!
