//! The syntax-tree printer: a text form that shows every node's grouping
//! with explicit braces, so precedence and associativity are visible in the
//! output.

use vstd::prelude::*;
use vstd::string::StringExecFns;

use crate::expr::{view_exprs, Expr, ExprView};
use crate::interpreter::{size_expr, size_exprs, size_stmt, size_stmts};
use crate::num::spec_num_text;
use crate::stmt::{view_stmts, view_strings, Stmt, StmtView};

verus! {

/// The printed form of an expression.
pub open spec fn spec_print_expr(e: ExprView) -> Seq<char>
    decreases size_expr(e),
{
    match e {
        ExprView::Assign(a) => "{"@ + a.left + " = "@ + spec_print_expr(*a.right) + "}"@,
        ExprView::BinaryOr(l, r) => "{"@ + spec_print_expr(*l) + " or "@ + spec_print_expr(*r)
            + "}"@,
        ExprView::BinaryAnd(l, r) => "{"@ + spec_print_expr(*l) + " and "@ + spec_print_expr(*r)
            + "}"@,
        ExprView::BinaryEqual(l, r) => "{"@ + spec_print_expr(*l) + " == "@ + spec_print_expr(*r)
            + "}"@,
        ExprView::BinaryNotEqual(l, r) => "{"@ + spec_print_expr(*l) + " != "@ + spec_print_expr(
            *r,
        ) + "}"@,
        ExprView::BinaryLess(l, r) => "{"@ + spec_print_expr(*l) + " < "@ + spec_print_expr(*r)
            + "}"@,
        ExprView::BinaryLessEqual(l, r) => "{"@ + spec_print_expr(*l) + " <= "@ + spec_print_expr(
            *r,
        ) + "}"@,
        ExprView::BinaryGreater(l, r) => "{"@ + spec_print_expr(*l) + " > "@ + spec_print_expr(*r)
            + "}"@,
        ExprView::BinaryGreaterEqual(l, r) => "{"@ + spec_print_expr(*l) + " >= "@
            + spec_print_expr(*r) + "}"@,
        ExprView::BinaryAdd(l, r) => "{"@ + spec_print_expr(*l) + " + "@ + spec_print_expr(*r)
            + "}"@,
        ExprView::BinarySub(l, r) => "{"@ + spec_print_expr(*l) + " - "@ + spec_print_expr(*r)
            + "}"@,
        ExprView::BinaryMul(l, r) => "{"@ + spec_print_expr(*l) + " * "@ + spec_print_expr(*r)
            + "}"@,
        ExprView::BinaryDiv(l, r) => "{"@ + spec_print_expr(*l) + " / "@ + spec_print_expr(*r)
            + "}"@,
        ExprView::UnaryBang(inner) => "{!"@ + spec_print_expr(*inner) + "}"@,
        ExprView::UnaryMinus(inner) => "{-"@ + spec_print_expr(*inner) + "}"@,
        ExprView::Call(callee, args) => "{call "@ + spec_print_expr(*callee) + "("@
            + spec_print_args(args) + ")}"@,
        ExprView::LiteralString(s) => "\""@ + s + "\""@,
        ExprView::LiteralNumber(m) => spec_num_text(m),
        ExprView::False => "false"@,
        ExprView::True => "true"@,
        ExprView::Nil => "nil"@,
        ExprView::Identifier(i) => i.id,
    }
}

/// The printed form of an argument list, comma-separated.
pub open spec fn spec_print_args(es: Seq<ExprView>) -> Seq<char>
    decreases size_exprs(es),
{
    if es.len() == 0 {
        Seq::empty()
    } else if es.len() == 1 {
        spec_print_expr(es[0])
    } else {
        spec_print_expr(es[0]) + ", "@ + spec_print_args(es.subrange(1, es.len() as int))
    }
}

/// The printed form of a parameter-name list, comma-separated.
pub open spec fn spec_print_params(ps: Seq<Seq<char>>) -> Seq<char>
    decreases ps.len(),
{
    if ps.len() == 0 {
        Seq::empty()
    } else if ps.len() == 1 {
        ps[0]
    } else {
        ps[0] + ", "@ + spec_print_params(ps.subrange(1, ps.len() as int))
    }
}

/// The printed form of a statement.
pub open spec fn spec_print_stmt(s: StmtView) -> Seq<char>
    decreases size_stmt(s),
{
    match s {
        StmtView::Print(e) => "{print "@ + spec_print_expr(e) + "}"@,
        StmtView::Expr(e) => spec_print_expr(e),
        StmtView::VarDeclaration(name, init) => match init {
            Some(e) => "{var "@ + name + " = "@ + spec_print_expr(e) + "}"@,
            None => "{var "@ + name + "}"@,
        },
        StmtView::Block(stmts) => "{"@ + spec_print_stmts(stmts) + "}"@,
        StmtView::If(cond, then_branch, else_branch) => {
            let head = "{if "@ + spec_print_expr(cond) + " then "@ + spec_print_stmt(
                *then_branch,
            ) + " "@;
            match else_branch {
                Some(eb) => head + " else "@ + spec_print_stmt(*eb) + "}"@,
                None => head + "}"@,
            }
        },
        StmtView::While(cond, body) => "{while "@ + spec_print_expr(cond) + " then "@
            + spec_print_stmt(*body) + "}"@,
        StmtView::FunctionDeclaration(name, params, body) => "{fun "@ + name + "("@
            + spec_print_params(params) + ") "@ + "{ "@ + spec_print_stmt(*body) + " }"@,
    }
}

/// The printed forms of a run of statements, one after the other.
pub open spec fn spec_print_stmts(ss: Seq<StmtView>) -> Seq<char>
    decreases size_stmts(ss),
{
    if ss.len() == 0 {
        Seq::empty()
    } else {
        spec_print_stmt(ss[0]) + spec_print_stmts(ss.subrange(1, ss.len() as int))
    }
}

/// Prints syntax trees in the braced text form.
pub struct AstPrinter {}

impl AstPrinter {
    /// The printed form of an expression.
    #[verifier::rlimit(100)]
    #[verifier::spinoff_prover]
    pub fn print_expr(&self, e: &Expr) -> (r: String)
        ensures
            r@ == spec_print_expr(e@),
        decreases size_expr(e@), 1int,
    {
        match e {
            Expr::Assign(a) => {
                let mut out = String::from_str("{");
                out.append(a.left.as_str());
                out.append(" = ");
                let rhs = self.print_expr(&a.right);
                out.append(rhs.as_str());
                out.append("}");
                proof {
                    assert(out@ =~= spec_print_expr(e@));
                }
                out
            },
            Expr::BinaryOr(l, r) => self.print_binary(e, l, r, " or "),
            Expr::BinaryAnd(l, r) => self.print_binary(e, l, r, " and "),
            Expr::BinaryEqual(l, r) => self.print_binary(e, l, r, " == "),
            Expr::BinaryNotEqual(l, r) => self.print_binary(e, l, r, " != "),
            Expr::BinaryLess(l, r) => self.print_binary(e, l, r, " < "),
            Expr::BinaryLessEqual(l, r) => self.print_binary(e, l, r, " <= "),
            Expr::BinaryGreater(l, r) => self.print_binary(e, l, r, " > "),
            Expr::BinaryGreaterEqual(l, r) => self.print_binary(e, l, r, " >= "),
            Expr::BinaryAdd(l, r) => self.print_binary(e, l, r, " + "),
            Expr::BinarySub(l, r) => self.print_binary(e, l, r, " - "),
            Expr::BinaryMul(l, r) => self.print_binary(e, l, r, " * "),
            Expr::BinaryDiv(l, r) => self.print_binary(e, l, r, " / "),
            Expr::UnaryBang(inner) => {
                let mut out = String::from_str("{!");
                let body = self.print_expr(inner);
                out.append(body.as_str());
                out.append("}");
                proof {
                    assert(out@ =~= spec_print_expr(e@));
                }
                out
            },
            Expr::UnaryMinus(inner) => {
                let mut out = String::from_str("{-");
                let body = self.print_expr(inner);
                out.append(body.as_str());
                out.append("}");
                proof {
                    assert(out@ =~= spec_print_expr(e@));
                }
                out
            },
            Expr::Call(callee, args) => {
                let mut out = String::from_str("{call ");
                let head = self.print_expr(callee);
                out.append(head.as_str());
                out.append("(");
                proof {
                    crate::expr::lemma_view_exprs_len(args@);
                    assert(view_exprs(args@).subrange(0, args@.len() as int) =~= view_exprs(
                        args@,
                    ));
                    assert(size_exprs(view_exprs(args@).subrange(0, args@.len() as int))
                        < size_expr(e@));
                }
                let listed = self.print_args_from(args, 0);
                out.append(listed.as_str());
                out.append(")}");
                proof {
                    assert(out@ =~= spec_print_expr(e@));
                }
                out
            },
            Expr::LiteralString(s) => {
                let mut out = String::from_str("\"");
                out.append(s.as_str());
                out.append("\"");
                proof {
                    assert(out@ =~= spec_print_expr(e@));
                }
                out
            },
            Expr::LiteralNumber(n) => n.to_text(),
            Expr::False => String::from_str("false"),
            Expr::True => String::from_str("true"),
            Expr::Nil => String::from_str("nil"),
            Expr::Identifier(i) => i.id.clone(),
        }
    }

    /// The printed form of one binary node, given its operator text.
    #[verifier::rlimit(100)]
    #[verifier::spinoff_prover]
    fn print_binary(&self, e: &Expr, l: &Expr, r: &Expr, op: &str) -> (res: String)
        requires
            size_expr(l@) < size_expr(e@),
            size_expr(r@) < size_expr(e@),
            spec_print_expr(e@) == "{"@ + spec_print_expr(l@) + op@ + spec_print_expr(r@) + "}"@,
        ensures
            res@ == spec_print_expr(e@),
        decreases size_expr(e@), 0int,
    {
        let mut out = String::from_str("{");
        let left = self.print_expr(l);
        out.append(left.as_str());
        out.append(op);
        let right = self.print_expr(r);
        out.append(right.as_str());
        out.append("}");
        proof {
            assert(out@ =~= spec_print_expr(e@));
        }
        out
    }

    /// The printed argument list from `i` on.
    #[verifier::rlimit(100)]
    #[verifier::spinoff_prover]
    fn print_args_from(&self, args: &Vec<Expr>, i: usize) -> (r: String)
        requires
            i <= args@.len(),
        ensures
            r@ == spec_print_args(view_exprs(args@).subrange(i as int, args@.len() as int)),
        decreases size_exprs(view_exprs(args@).subrange(i as int, args@.len() as int)), 2int,
    {
        proof {
            crate::expr::lemma_view_exprs_len(args@);
        }
        let ghost av = view_exprs(args@);
        if i >= args.len() {
            let out = String::new();
            proof {
                assert(av.subrange(i as int, args@.len() as int) =~= Seq::<ExprView>::empty());
            }
            return out;
        }
        proof {
            let rest = av.subrange(i as int, args@.len() as int);
            assert(rest[0] == av[i as int]);
            assert(rest[0] == args@[i as int]@);
            assert(rest.subrange(1, rest.len() as int) =~= av.subrange(
                i as int + 1,
                args@.len() as int,
            ));
            assert(size_expr(rest[0]) < size_exprs(rest));
            assert(size_exprs(rest.subrange(1, rest.len() as int)) < size_exprs(rest));
        }
        let mut out = self.print_expr(&args[i]);
        if i + 1 == args.len() {
            return out;
        }
        out.append(", ");
        let rest = self.print_args_from(args, i + 1);
        out.append(rest.as_str());
        proof {
            assert(out@ =~= spec_print_args(av.subrange(i as int, args@.len() as int)));
        }
        out
    }

    /// The printed parameter list from `i` on.
    fn print_params_from(&self, params: &Vec<String>, i: usize) -> (r: String)
        requires
            i <= params@.len(),
        ensures
            r@ == spec_print_params(view_strings(params@).subrange(i as int, params@.len() as int)),
        decreases params@.len() - i,
    {
        let ghost pv = view_strings(params@);
        if i >= params.len() {
            let out = String::new();
            proof {
                assert(pv.subrange(i as int, params@.len() as int) =~= Seq::<Seq<char>>::empty());
            }
            return out;
        }
        proof {
            let rest = pv.subrange(i as int, params@.len() as int);
            assert(rest[0] == pv[i as int]);
            assert(pv[i as int] == params@[i as int]@);
            assert(rest.subrange(1, rest.len() as int) =~= pv.subrange(
                i as int + 1,
                params@.len() as int,
            ));
        }
        let mut out = params[i].clone();
        if i + 1 == params.len() {
            return out;
        }
        out.append(", ");
        let rest = self.print_params_from(params, i + 1);
        out.append(rest.as_str());
        proof {
            assert(out@ =~= spec_print_params(pv.subrange(i as int, params@.len() as int)));
        }
        out
    }

    /// The printed form of a statement.
    #[verifier::rlimit(100)]
    #[verifier::spinoff_prover]
    pub fn print_stmt(&self, s: &Stmt) -> (r: String)
        ensures
            r@ == spec_print_stmt(s@),
        decreases size_stmt(s@), 1int,
    {
        match s {
            Stmt::Print(e) => {
                let mut out = String::from_str("{print ");
                let body = self.print_expr(e);
                out.append(body.as_str());
                out.append("}");
                proof {
                    assert(out@ =~= spec_print_stmt(s@));
                }
                out
            },
            Stmt::Expr(e) => self.print_expr(e),
            Stmt::VarDeclaration(name, init) => {
                let mut out = String::from_str("{var ");
                out.append(name.as_str());
                match init {
                    Some(e) => {
                        out.append(" = ");
                        let body = self.print_expr(e);
                        out.append(body.as_str());
                    },
                    None => {},
                }
                out.append("}");
                proof {
                    assert(out@ =~= spec_print_stmt(s@));
                }
                out
            },
            Stmt::Block(stmts) => {
                let mut out = String::from_str("{");
                proof {
                    crate::stmt::lemma_view_stmts_len(stmts@);
                    assert(view_stmts(stmts@).subrange(0, stmts@.len() as int) =~= view_stmts(
                        stmts@,
                    ));
                    assert(size_stmts(view_stmts(stmts@).subrange(0, stmts@.len() as int))
                        < size_stmt(s@));
                }
                let body = self.print_stmts_from(stmts, 0);
                out.append(body.as_str());
                out.append("}");
                proof {
                    assert(out@ =~= spec_print_stmt(s@));
                }
                out
            },
            Stmt::If(cond, then_branch, else_branch) => {
                let mut out = String::from_str("{if ");
                let c = self.print_expr(cond);
                out.append(c.as_str());
                out.append(" then ");
                let t = self.print_stmt(then_branch);
                out.append(t.as_str());
                out.append(" ");
                match else_branch {
                    Some(eb) => {
                        out.append(" else ");
                        let eb_text = self.print_stmt(eb);
                        out.append(eb_text.as_str());
                    },
                    None => {},
                }
                out.append("}");
                proof {
                    assert(out@ =~= spec_print_stmt(s@));
                }
                out
            },
            Stmt::While(cond, body) => {
                let mut out = String::from_str("{while ");
                let c = self.print_expr(cond);
                out.append(c.as_str());
                out.append(" then ");
                let b = self.print_stmt(body);
                out.append(b.as_str());
                out.append("}");
                proof {
                    assert(out@ =~= spec_print_stmt(s@));
                }
                out
            },
            Stmt::FunctionDeclaration(name, params, body) => {
                let mut out = String::from_str("{fun ");
                out.append(name.as_str());
                out.append("(");
                let listed = self.print_params_from(params, 0);
                out.append(listed.as_str());
                out.append(") ");
                out.append("{ ");
                let b = self.print_stmt(body);
                out.append(b.as_str());
                out.append(" }");
                proof {
                    assert(view_strings(params@).subrange(0, params@.len() as int) =~= view_strings(
                        params@,
                    ));
                    assert(out@ =~= spec_print_stmt(s@));
                }
                out
            },
        }
    }

    /// The printed run of statements from `i` on.
    #[verifier::rlimit(100)]
    #[verifier::spinoff_prover]
    fn print_stmts_from(&self, stmts: &Vec<Stmt>, i: usize) -> (r: String)
        requires
            i <= stmts@.len(),
        ensures
            r@ == spec_print_stmts(view_stmts(stmts@).subrange(i as int, stmts@.len() as int)),
        decreases size_stmts(view_stmts(stmts@).subrange(i as int, stmts@.len() as int)), 2int,
    {
        proof {
            crate::stmt::lemma_view_stmts_len(stmts@);
        }
        let ghost sv = view_stmts(stmts@);
        if i >= stmts.len() {
            let out = String::new();
            proof {
                assert(sv.subrange(i as int, stmts@.len() as int) =~= Seq::<StmtView>::empty());
            }
            return out;
        }
        proof {
            let rest = sv.subrange(i as int, stmts@.len() as int);
            assert(rest[0] == sv[i as int]);
            assert(rest[0] == stmts@[i as int]@);
            assert(rest.subrange(1, rest.len() as int) =~= sv.subrange(
                i as int + 1,
                stmts@.len() as int,
            ));
            assert(size_stmt(rest[0]) < size_stmts(rest));
            assert(size_stmts(rest.subrange(1, rest.len() as int)) < size_stmts(rest));
        }
        let mut out = self.print_stmt(&stmts[i]);
        let rest = self.print_stmts_from(stmts, i + 1);
        out.append(rest.as_str());
        proof {
            assert(out@ =~= spec_print_stmts(sv.subrange(i as int, stmts@.len() as int)));
        }
        out
    }
}

} // verus!

verus! {

/// Whether an expression is compound: built from sub-expressions whose
/// grouping the printed form must show.
pub open spec fn spec_is_compound(e: ExprView) -> bool {
    match e {
        ExprView::LiteralString(_) => false,
        ExprView::LiteralNumber(_) => false,
        ExprView::False => false,
        ExprView::True => false,
        ExprView::Nil => false,
        ExprView::Identifier(_) => false,
        _ => true,
    }
}

/// The printed form makes grouping explicit: every compound expression
/// prints enclosed in its own braces, so two trees that group the same
/// operands differently print differently — operator precedence and
/// associativity chosen by the parser stay visible in the printer's output.
pub proof fn lemma_print_groups_explicit(e: ExprView)
    requires
        spec_is_compound(e),
    ensures
        spec_print_expr(e).len() >= 2,
        spec_print_expr(e)[0] == '{',
        spec_print_expr(e).last() == '}',
{
    reveal_strlit("{");
    reveal_strlit("{!");
    reveal_strlit("{-");
    reveal_strlit("{call ");
    reveal_strlit("}");
    reveal_strlit(")}");
    assert(("{"@).len() == 1 && ("{"@)[0] == '{');
    assert(("{!"@).len() == 2 && ("{!"@)[0] == '{');
    assert(("{-"@).len() == 2 && ("{-"@)[0] == '{');
    assert(("{call "@).len() == 6 && ("{call "@)[0] == '{');
    assert(("}"@).len() == 1 && ("}"@)[0] == '}');
    assert((")}"@).len() == 2 && (")}"@)[1] == '}');
}

} // verus!
