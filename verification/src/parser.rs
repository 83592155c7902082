//! The parser: recursive descent with one-token lookahead, from the token
//! sequence to a list of statements.
//!
//! Grammar precedence, lowest to highest: assignment, logical or, logical
//! and, equality, comparison, additive, multiplicative, unary, call, primary.
//! Binary operators are left-associative; assignment requires an identifier
//! on its left. The `spec_parse_*` functions are the mathematical
//! description; the `Parser` methods compute them. Identifier and assignment
//! nodes receive parse-tree ids counting up from the id the parser starts
//! with.

use vstd::prelude::*;
use vstd::string::StringExecFns;

use crate::expr::{view_exprs, Expr, ExprAssign, ExprAssignView, ExprIdentifier,
    ExprIdentifierView, ExprView, ParseTreeId};
use crate::stmt::{view_stmts, view_strings, Stmt, StmtView};
use crate::token::{spec_token_text, view_tokens, Token, TokenView};

verus! {

/// A statement marker kept for callers that name it; the parser's real
/// output is `Stmt`.
pub struct Statement {}

/// A parse failure, carrying a human-readable message.
#[derive(Debug)]
pub struct ParseError {
    message: String,
}

impl View for ParseError {
    type V = Seq<char>;

    closed spec fn view(&self) -> Seq<char> {
        self.message@
    }
}

impl ParseError {
    /// The error's message.
    pub fn to_string(&self) -> (r: String)
        ensures
            r@ == self@,
    {
        self.message.clone()
    }
}

/// The outcome of parsing one expression: its shape, the next position, and
/// the next free parse-tree id; or an error message.
pub type ParsedExpr = Result<(ExprView, nat, nat), Seq<char>>;

/// The outcome of parsing one statement.
pub type ParsedStmt = Result<(StmtView, nat, nat), Seq<char>>;

/// The outcome of parsing a run of statements.
pub type ParsedStmts = Result<(Seq<StmtView>, nat, nat), Seq<char>>;

/// The outcome of parsing a parameter list: the names and the next position.
pub type ParsedParams = Result<(Seq<Seq<char>>, nat), Seq<char>>;

/// Whether the parser at this position is done: past the end, or at `Eof`.
pub open spec fn spec_at_end(t: Seq<TokenView>, p: nat) -> bool {
    p >= t.len() || t[p as int] is Eof
}

/// The guard every position handed back by a sub-parse satisfies: it moved
/// forward and stayed within the tokens. A result outside this range stops
/// the description; the executable parser never produces one.
pub open spec fn spec_moved(p0: nat, p: nat, t: Seq<TokenView>) -> bool {
    p0 < p <= t.len()
}

/// The message of the unreachable guard branch.
pub open spec fn spec_stall_msg() -> Seq<char> {
    "parser made no progress"@
}

/// The message for running out of tokens.
pub open spec fn spec_end_msg() -> Seq<char> {
    "Unexpected end of input."@
}

/// Parses a primary expression: a literal, an identifier (allocating its
/// parse-tree id), or a parenthesized expression.
#[verifier::opaque]
pub open spec fn spec_parse_primary(t: Seq<TokenView>, p: nat, id: nat) -> ParsedExpr
    decreases t.len() - p, 10int,
{
    if p >= t.len() {
        Err(spec_end_msg())
    } else {
        match t[p as int] {
            TokenView::NumberLiteral(m) => Ok((ExprView::LiteralNumber(m), p + 1, id)),
            TokenView::StringLiteral(s) => Ok((ExprView::LiteralString(s), p + 1, id)),
            TokenView::Identifier(name) => Ok(
                (
                    ExprView::Identifier(
                        ExprIdentifierView { parse_tree_id: id as u32, id: name },
                    ),
                    p + 1,
                    id + 1,
                ),
            ),
            TokenView::False => Ok((ExprView::False, p + 1, id)),
            TokenView::True => Ok((ExprView::True, p + 1, id)),
            TokenView::Nil => Ok((ExprView::Nil, p + 1, id)),
            TokenView::LeftParenthesis => spec_parse_parenthesis(t, p + 1, id),
            _ => Err("Unexpected token while parsing primary: "@ + spec_token_text(t[p as int])),
        }
    }
}

/// Parses the inside of a parenthesized expression and its closing `)`.
#[verifier::opaque]
pub open spec fn spec_parse_parenthesis(t: Seq<TokenView>, p: nat, id: nat) -> ParsedExpr
    decreases t.len() - p, 32int,
{
    match spec_parse_expression(t, p, id) {
        Err(e) => Err(e),
        Ok((e, p2, id2)) => if p2 < t.len() && t[p2 as int] is RightParenthesis {
            Ok((e, p2 + 1, id2))
        } else {
            Err("Expected ')' after expression."@)
        },
    }
}

/// Parses a call expression: a primary followed by any number of argument
/// lists.
#[verifier::opaque]
pub open spec fn spec_parse_call(t: Seq<TokenView>, p: nat, id: nat) -> ParsedExpr
    decreases t.len() - p, 12int,
{
    match spec_parse_primary(t, p, id) {
        Err(e) => Err(e),
        Ok((callee, p2, id2)) => if !spec_moved(p, p2, t) {
            Err(spec_stall_msg())
        } else {
            spec_parse_call_suffix(t, callee, p2, id2)
        },
    }
}

/// Parses the argument lists that follow a callee, if any.
#[verifier::opaque]
pub open spec fn spec_parse_call_suffix(t: Seq<TokenView>, callee: ExprView, p: nat, id: nat) -> ParsedExpr
    decreases t.len() - p, 11int,
{
    if p < t.len() && t[p as int] is LeftParenthesis {
        if p + 1 < t.len() && t[p as int + 1] is RightParenthesis {
            spec_parse_call_suffix(t, ExprView::Call(Box::new(callee), Seq::empty()), p + 2, id)
        } else {
            match spec_parse_call_args(t, p + 1, id) {
                Err(e) => Err(e),
                Ok((args, p2, id2)) => if !spec_moved(p, p2, t) {
                    Err(spec_stall_msg())
                } else if p2 < t.len() && t[p2 as int] is RightParenthesis {
                    spec_parse_call_suffix(
                        t,
                        ExprView::Call(Box::new(callee), args),
                        p2 + 1,
                        id2,
                    )
                } else {
                    Err("Expected ')' for closing function call."@)
                },
            }
        }
    } else {
        Ok((callee, p, id))
    }
}

/// Parses one or more comma-separated call arguments.
#[verifier::opaque]
pub open spec fn spec_parse_call_args(t: Seq<TokenView>, p: nat, id: nat) -> Result<
    (Seq<ExprView>, nat, nat),
    Seq<char>,
>
    decreases t.len() - p, 31int,
{
    match spec_parse_expression(t, p, id) {
        Err(e) => Err(e),
        Ok((e, p2, id2)) => if !spec_moved(p, p2, t) {
            Err(spec_stall_msg())
        } else if p2 < t.len() && t[p2 as int] is Comma {
            match spec_parse_call_args(t, p2 + 1, id2) {
                Err(e2) => Err(e2),
                Ok((rest, p3, id3)) => Ok((seq![e] + rest, p3, id3)),
            }
        } else {
            Ok((seq![e], p2, id2))
        },
    }
}

/// Parses a unary expression: `!` or `-` applied to a unary expression, or a
/// call.
#[verifier::opaque]
pub open spec fn spec_parse_unary(t: Seq<TokenView>, p: nat, id: nat) -> ParsedExpr
    decreases t.len() - p, 14int,
{
    if p < t.len() && t[p as int] is Bang {
        match spec_parse_unary(t, p + 1, id) {
            Err(e) => Err(e),
            Ok((e, p2, id2)) => Ok((ExprView::UnaryBang(Box::new(e)), p2, id2)),
        }
    } else if p < t.len() && t[p as int] is Minus {
        match spec_parse_unary(t, p + 1, id) {
            Err(e) => Err(e),
            Ok((e, p2, id2)) => Ok((ExprView::UnaryMinus(Box::new(e)), p2, id2)),
        }
    } else {
        spec_parse_call(t, p, id)
    }
}

/// Builds the node for one multiplicative operator.
pub open spec fn spec_muldiv_node(op: TokenView, l: ExprView, r: ExprView) -> ExprView {
    if op is Star {
        ExprView::BinaryMul(Box::new(l), Box::new(r))
    } else {
        ExprView::BinaryDiv(Box::new(l), Box::new(r))
    }
}

/// Parses a multiplicative expression: unaries joined by `*` or `/`.
#[verifier::opaque]
pub open spec fn spec_parse_mul_div(t: Seq<TokenView>, p: nat, id: nat) -> ParsedExpr
    decreases t.len() - p, 16int,
{
    match spec_parse_unary(t, p, id) {
        Err(e) => Err(e),
        Ok((l, p2, id2)) => if !spec_moved(p, p2, t) {
            Err(spec_stall_msg())
        } else {
            spec_parse_mul_div_rest(t, l, p2, id2)
        },
    }
}

/// Parses the `* unary` and `/ unary` continuations, left-associatively.
#[verifier::opaque]
pub open spec fn spec_parse_mul_div_rest(t: Seq<TokenView>, l: ExprView, p: nat, id: nat) -> ParsedExpr
    decreases t.len() - p, 15int,
{
    if p < t.len() && (t[p as int] is Star || t[p as int] is Slash) {
        match spec_parse_unary(t, p + 1, id) {
            Err(e) => Err(e),
            Ok((r, p2, id2)) => if !spec_moved(p, p2, t) {
                Err(spec_stall_msg())
            } else {
                spec_parse_mul_div_rest(t, spec_muldiv_node(t[p as int], l, r), p2, id2)
            },
        }
    } else {
        Ok((l, p, id))
    }
}

/// Builds the node for one additive operator.
pub open spec fn spec_addsub_node(op: TokenView, l: ExprView, r: ExprView) -> ExprView {
    if op is Plus {
        ExprView::BinaryAdd(Box::new(l), Box::new(r))
    } else {
        ExprView::BinarySub(Box::new(l), Box::new(r))
    }
}

/// Parses an additive expression: products joined by `+` or `-`.
#[verifier::opaque]
pub open spec fn spec_parse_add_sub(t: Seq<TokenView>, p: nat, id: nat) -> ParsedExpr
    decreases t.len() - p, 18int,
{
    match spec_parse_mul_div(t, p, id) {
        Err(e) => Err(e),
        Ok((l, p2, id2)) => if !spec_moved(p, p2, t) {
            Err(spec_stall_msg())
        } else {
            spec_parse_add_sub_rest(t, l, p2, id2)
        },
    }
}

/// Parses the `+ product` and `- product` continuations.
#[verifier::opaque]
pub open spec fn spec_parse_add_sub_rest(t: Seq<TokenView>, l: ExprView, p: nat, id: nat) -> ParsedExpr
    decreases t.len() - p, 17int,
{
    if p < t.len() && (t[p as int] is Plus || t[p as int] is Minus) {
        match spec_parse_mul_div(t, p + 1, id) {
            Err(e) => Err(e),
            Ok((r, p2, id2)) => if !spec_moved(p, p2, t) {
                Err(spec_stall_msg())
            } else {
                spec_parse_add_sub_rest(t, spec_addsub_node(t[p as int], l, r), p2, id2)
            },
        }
    } else {
        Ok((l, p, id))
    }
}

/// Builds the node for one comparison operator.
pub open spec fn spec_comparison_node(op: TokenView, l: ExprView, r: ExprView) -> ExprView {
    if op is Less {
        ExprView::BinaryLess(Box::new(l), Box::new(r))
    } else if op is LessEqual {
        ExprView::BinaryLessEqual(Box::new(l), Box::new(r))
    } else if op is Greater {
        ExprView::BinaryGreater(Box::new(l), Box::new(r))
    } else {
        ExprView::BinaryGreaterEqual(Box::new(l), Box::new(r))
    }
}

/// Whether a token is one of the comparison operators.
pub open spec fn spec_is_comparison_op(op: TokenView) -> bool {
    op is Less || op is LessEqual || op is Greater || op is GreaterEqual
}

/// Parses a comparison: sums joined by `<`, `<=`, `>` or `>=`.
#[verifier::opaque]
pub open spec fn spec_parse_comparison(t: Seq<TokenView>, p: nat, id: nat) -> ParsedExpr
    decreases t.len() - p, 20int,
{
    match spec_parse_add_sub(t, p, id) {
        Err(e) => Err(e),
        Ok((l, p2, id2)) => if !spec_moved(p, p2, t) {
            Err(spec_stall_msg())
        } else {
            spec_parse_comparison_rest(t, l, p2, id2)
        },
    }
}

/// Parses the comparison-operator continuations.
#[verifier::opaque]
pub open spec fn spec_parse_comparison_rest(t: Seq<TokenView>, l: ExprView, p: nat, id: nat) -> ParsedExpr
    decreases t.len() - p, 19int,
{
    if p < t.len() && spec_is_comparison_op(t[p as int]) {
        match spec_parse_add_sub(t, p + 1, id) {
            Err(e) => Err(e),
            Ok((r, p2, id2)) => if !spec_moved(p, p2, t) {
                Err(spec_stall_msg())
            } else {
                spec_parse_comparison_rest(t, spec_comparison_node(t[p as int], l, r), p2, id2)
            },
        }
    } else {
        Ok((l, p, id))
    }
}

/// Builds the node for one equality operator.
pub open spec fn spec_equality_node(op: TokenView, l: ExprView, r: ExprView) -> ExprView {
    if op is EqualEqual {
        ExprView::BinaryEqual(Box::new(l), Box::new(r))
    } else {
        ExprView::BinaryNotEqual(Box::new(l), Box::new(r))
    }
}

/// Parses an equality: comparisons joined by `==` or `!=`.
#[verifier::opaque]
pub open spec fn spec_parse_equality(t: Seq<TokenView>, p: nat, id: nat) -> ParsedExpr
    decreases t.len() - p, 22int,
{
    match spec_parse_comparison(t, p, id) {
        Err(e) => Err(e),
        Ok((l, p2, id2)) => if !spec_moved(p, p2, t) {
            Err(spec_stall_msg())
        } else {
            spec_parse_equality_rest(t, l, p2, id2)
        },
    }
}

/// Parses the equality-operator continuations.
#[verifier::opaque]
pub open spec fn spec_parse_equality_rest(t: Seq<TokenView>, l: ExprView, p: nat, id: nat) -> ParsedExpr
    decreases t.len() - p, 21int,
{
    if p < t.len() && (t[p as int] is EqualEqual || t[p as int] is BangEqual) {
        match spec_parse_comparison(t, p + 1, id) {
            Err(e) => Err(e),
            Ok((r, p2, id2)) => if !spec_moved(p, p2, t) {
                Err(spec_stall_msg())
            } else {
                spec_parse_equality_rest(t, spec_equality_node(t[p as int], l, r), p2, id2)
            },
        }
    } else {
        Ok((l, p, id))
    }
}

/// Parses a logical and: equalities joined by `and`, short-circuit form.
#[verifier::opaque]
pub open spec fn spec_parse_and(t: Seq<TokenView>, p: nat, id: nat) -> ParsedExpr
    decreases t.len() - p, 24int,
{
    match spec_parse_equality(t, p, id) {
        Err(e) => Err(e),
        Ok((l, p2, id2)) => if !spec_moved(p, p2, t) {
            Err(spec_stall_msg())
        } else {
            spec_parse_and_rest(t, l, p2, id2)
        },
    }
}

/// Parses the `and` continuations.
#[verifier::opaque]
pub open spec fn spec_parse_and_rest(t: Seq<TokenView>, l: ExprView, p: nat, id: nat) -> ParsedExpr
    decreases t.len() - p, 23int,
{
    if p < t.len() && t[p as int] is And {
        match spec_parse_equality(t, p + 1, id) {
            Err(e) => Err(e),
            Ok((r, p2, id2)) => if !spec_moved(p, p2, t) {
                Err(spec_stall_msg())
            } else {
                spec_parse_and_rest(t, ExprView::BinaryAnd(Box::new(l), Box::new(r)), p2, id2)
            },
        }
    } else {
        Ok((l, p, id))
    }
}

/// Parses a logical or: ands joined by `or`, short-circuit form.
#[verifier::opaque]
pub open spec fn spec_parse_or(t: Seq<TokenView>, p: nat, id: nat) -> ParsedExpr
    decreases t.len() - p, 26int,
{
    match spec_parse_and(t, p, id) {
        Err(e) => Err(e),
        Ok((l, p2, id2)) => if !spec_moved(p, p2, t) {
            Err(spec_stall_msg())
        } else {
            spec_parse_or_rest(t, l, p2, id2)
        },
    }
}

/// Parses the `or` continuations.
#[verifier::opaque]
pub open spec fn spec_parse_or_rest(t: Seq<TokenView>, l: ExprView, p: nat, id: nat) -> ParsedExpr
    decreases t.len() - p, 25int,
{
    if p < t.len() && t[p as int] is Or {
        match spec_parse_and(t, p + 1, id) {
            Err(e) => Err(e),
            Ok((r, p2, id2)) => if !spec_moved(p, p2, t) {
                Err(spec_stall_msg())
            } else {
                spec_parse_or_rest(t, ExprView::BinaryOr(Box::new(l), Box::new(r)), p2, id2)
            },
        }
    } else {
        Ok((l, p, id))
    }
}

/// Parses an assignment: an or-expression, optionally followed by `=` and a
/// right-hand side at assignment precedence, so assignment is
/// right-associative; the left side must be an identifier, and the
/// assignment node takes a fresh parse-tree id.
#[verifier::opaque]
pub open spec fn spec_parse_assignment(t: Seq<TokenView>, p: nat, id: nat) -> ParsedExpr
    decreases t.len() - p, 28int,
{
    match spec_parse_or(t, p, id) {
        Err(e) => Err(e),
        Ok((lhs, p2, id2)) => if !spec_moved(p, p2, t) {
            Err(spec_stall_msg())
        } else if p2 < t.len() && t[p2 as int] is Equal {
            match spec_parse_assignment(t, p2 + 1, id2) {
                Err(e) => Err(e),
                Ok((rhs, p3, id3)) => match lhs {
                    ExprView::Identifier(ident) => Ok(
                        (
                            ExprView::Assign(
                                ExprAssignView {
                                    parse_tree_id: id3 as u32,
                                    left: ident.id,
                                    right: Box::new(rhs),
                                },
                            ),
                            p3,
                            id3 + 1,
                        ),
                    ),
                    _ => Err("Invalid assignment target."@),
                },
            }
        } else {
            Ok((lhs, p2, id2))
        },
    }
}

/// Parses one expression, beginning at assignment precedence.
#[verifier::opaque]
pub open spec fn spec_parse_expression(t: Seq<TokenView>, p: nat, id: nat) -> ParsedExpr
    decreases t.len() - p, 30int,
{
    spec_parse_assignment(t, p, id)
}

/// Parses a `print` statement: keyword, expression, `;`.
#[verifier::opaque]
pub open spec fn spec_parse_statement_print(t: Seq<TokenView>, p: nat, id: nat) -> ParsedStmt
    decreases t.len() - p, 36int,
{
    match spec_parse_expression(t, p + 1, id) {
        Err(e) => Err(e),
        Ok((e, p2, id2)) => if p2 < t.len() && t[p2 as int] is Semicolon {
            Ok((StmtView::Print(e), p2 + 1, id2))
        } else {
            Err("Expected ';' after expression."@)
        },
    }
}

/// Parses an expression statement: expression, `;`.
#[verifier::opaque]
pub open spec fn spec_parse_statement_expression(t: Seq<TokenView>, p: nat, id: nat) -> ParsedStmt
    decreases t.len() - p, 36int,
{
    match spec_parse_expression(t, p, id) {
        Err(e) => Err(e),
        Ok((e, p2, id2)) => if p2 < t.len() && t[p2 as int] is Semicolon {
            Ok((StmtView::Expr(e), p2 + 1, id2))
        } else {
            Err("Expected ';' after expression."@)
        },
    }
}

/// Parses a variable declaration: `var`, identifier, optional `=` and
/// initializer, `;`.
#[verifier::opaque]
pub open spec fn spec_parse_statement_var(t: Seq<TokenView>, p: nat, id: nat) -> ParsedStmt
    decreases t.len() - p, 36int,
{
    if p + 1 < t.len() && t[p as int + 1] is Identifier {
        let name = t[p as int + 1]->Identifier_0;
        if p + 2 < t.len() && t[p as int + 2] is Equal {
            match spec_parse_expression(t, p + 3, id) {
                Err(e) => Err(e),
                Ok((e, p2, id2)) => if p2 < t.len() && t[p2 as int] is Semicolon {
                    Ok((StmtView::VarDeclaration(name, Some(e)), p2 + 1, id2))
                } else {
                    Err("Expected ';' after variable declaration."@)
                },
            }
        } else if p + 2 < t.len() && t[p as int + 2] is Semicolon {
            Ok((StmtView::VarDeclaration(name, None), p + 3, id))
        } else {
            Err("Expected ';' after variable declaration."@)
        }
    } else {
        Err("Expected identifier after var."@)
    }
}

/// Parses an `if` statement: condition in parentheses, then-branch, and an
/// optional `else` branch.
#[verifier::opaque]
pub open spec fn spec_parse_statement_if(t: Seq<TokenView>, p: nat, id: nat) -> ParsedStmt
    decreases t.len() - p, 36int,
{
    if !(p + 1 < t.len() && t[p as int + 1] is LeftParenthesis) {
        Err("Expected '(' after if."@)
    } else {
        match spec_parse_expression(t, p + 2, id) {
            Err(e) => Err(e),
            Ok((cond, p2, id2)) => if !spec_moved(p + 2, p2, t) {
                Err(spec_stall_msg())
            } else if !(p2 < t.len() && t[p2 as int] is RightParenthesis) {
                Err("Expected ')' after if condition."@)
            } else {
                match spec_parse_statement(t, p2 + 1, id2) {
                    Err(e) => Err(e),
                    Ok((thenb, p3, id3)) => if !spec_moved(p2 + 1, p3, t) {
                        Err(spec_stall_msg())
                    } else if p3 < t.len() && t[p3 as int] is Else {
                        match spec_parse_statement(t, p3 + 1, id3) {
                            Err(e) => Err(e),
                            Ok((elseb, p4, id4)) => Ok(
                                (
                                    StmtView::If(
                                        cond,
                                        Box::new(thenb),
                                        Some(Box::new(elseb)),
                                    ),
                                    p4,
                                    id4,
                                ),
                            ),
                        }
                    } else {
                        Ok((StmtView::If(cond, Box::new(thenb), None), p3, id3))
                    },
                }
            },
        }
    }
}

/// Parses a `while` statement: condition in parentheses and a body.
#[verifier::opaque]
pub open spec fn spec_parse_statement_while(t: Seq<TokenView>, p: nat, id: nat) -> ParsedStmt
    decreases t.len() - p, 36int,
{
    if !(p + 1 < t.len() && t[p as int + 1] is LeftParenthesis) {
        Err("Expected '(' after while."@)
    } else {
        match spec_parse_expression(t, p + 2, id) {
            Err(e) => Err(e),
            Ok((cond, p2, id2)) => if !spec_moved(p + 2, p2, t) {
                Err(spec_stall_msg())
            } else if !(p2 < t.len() && t[p2 as int] is RightParenthesis) {
                Err("Expected ')' after while condition."@)
            } else {
                match spec_parse_statement(t, p2 + 1, id2) {
                    Err(e) => Err(e),
                    Ok((body, p3, id3)) => Ok(
                        (StmtView::While(cond, Box::new(body)), p3, id3),
                    ),
                }
            },
        }
    }
}

/// Parses a comma-separated parameter-name list, stopping before `)`.
#[verifier::opaque]
pub open spec fn spec_parse_params(t: Seq<TokenView>, p: nat) -> ParsedParams
    decreases t.len() - p, 0int,
{
    if p >= t.len() || t[p as int] is Eof || t[p as int] is RightParenthesis {
        Ok((Seq::empty(), p))
    } else if t[p as int] is Identifier {
        let name = t[p as int]->Identifier_0;
        if p + 1 < t.len() && t[p as int + 1] is Comma {
            match spec_parse_params(t, p + 2) {
                Err(e) => Err(e),
                Ok((rest, p2)) => Ok((seq![name] + rest, p2)),
            }
        } else {
            Ok((seq![name], p + 1))
        }
    } else {
        Err("Expected identifier in function arguments."@)
    }
}

/// Parses a function declaration: `fun`, name, parameter list in
/// parentheses, and a body wrapped as a block so that a call pushes a
/// dedicated scope frame.
#[verifier::opaque]
pub open spec fn spec_parse_statement_fun(t: Seq<TokenView>, p: nat, id: nat) -> ParsedStmt
    decreases t.len() - p, 36int,
{
    if !(p + 1 < t.len() && t[p as int + 1] is Identifier) {
        Err("Expected identifier after fun."@)
    } else if !(p + 2 < t.len() && t[p as int + 2] is LeftParenthesis) {
        Err("Expected '(' after function name."@)
    } else {
        let name = t[p as int + 1]->Identifier_0;
        match spec_parse_params(t, p + 3) {
            Err(e) => Err(e),
            Ok((params, p2)) => if !(p + 3 <= p2 <= t.len()) {
                Err(spec_stall_msg())
            } else if !(p2 < t.len() && t[p2 as int] is RightParenthesis) {
                Err("Expected ')' after function arguments."@)
            } else {
                match spec_parse_statement(t, p2 + 1, id) {
                    Err(e) => Err(e),
                    Ok((body, p3, id3)) => Ok(
                        (
                            StmtView::FunctionDeclaration(
                                name,
                                params,
                                Box::new(StmtView::Block(seq![body])),
                            ),
                            p3,
                            id3,
                        ),
                    ),
                }
            },
        }
    }
}

/// Parses the statements of a block up to and through its closing `}`.
#[verifier::opaque]
pub open spec fn spec_parse_block_rest(t: Seq<TokenView>, p: nat, id: nat) -> ParsedStmts
    decreases t.len() - p, 39int,
{
    if p >= t.len() || t[p as int] is Eof || t[p as int] is RightBrace {
        if p < t.len() && t[p as int] is RightBrace {
            Ok((Seq::empty(), p + 1, id))
        } else {
            Err("Expected '}' after block."@)
        }
    } else {
        match spec_parse_statement(t, p, id) {
            Err(e) => Err(e),
            Ok((s, p2, id2)) => if !spec_moved(p, p2, t) {
                Err(spec_stall_msg())
            } else {
                match spec_parse_block_rest(t, p2, id2) {
                    Err(e) => Err(e),
                    Ok((rest, p3, id3)) => Ok((seq![s] + rest, p3, id3)),
                }
            },
        }
    }
}

/// Parses a block statement: `{`, statements, `}`.
#[verifier::opaque]
pub open spec fn spec_parse_statement_block(t: Seq<TokenView>, p: nat, id: nat) -> ParsedStmt
    decreases t.len() - p, 36int,
{
    if p >= t.len() {
        Err(spec_end_msg())
    } else {
        match spec_parse_block_rest(t, p + 1, id) {
            Err(e) => Err(e),
            Ok((stmts, p2, id2)) => Ok((StmtView::Block(stmts), p2, id2)),
        }
    }
}

/// Parses one statement, dispatching on its first token.
#[verifier::opaque]
pub open spec fn spec_parse_statement(t: Seq<TokenView>, p: nat, id: nat) -> ParsedStmt
    decreases t.len() - p, 38int,
{
    if p >= t.len() {
        Err(spec_end_msg())
    } else {
        match t[p as int] {
            TokenView::Print => spec_parse_statement_print(t, p, id),
            TokenView::Var => spec_parse_statement_var(t, p, id),
            TokenView::LeftBrace => spec_parse_statement_block(t, p, id),
            TokenView::If => spec_parse_statement_if(t, p, id),
            TokenView::While => spec_parse_statement_while(t, p, id),
            TokenView::Fun => spec_parse_statement_fun(t, p, id),
            _ => spec_parse_statement_expression(t, p, id),
        }
    }
}

/// Parses statements until the end of input, collecting them in order.
#[verifier::opaque]
pub open spec fn spec_parse_program(t: Seq<TokenView>, p: nat, id: nat) -> ParsedStmts
    decreases t.len() - p, 40int,
{
    if spec_at_end(t, p) {
        Ok((Seq::empty(), p, id))
    } else {
        match spec_parse_statement(t, p, id) {
            Err(e) => Err(e),
            Ok((s, p2, id2)) => if !spec_moved(p, p2, t) {
                Err(spec_stall_msg())
            } else {
                match spec_parse_program(t, p2, id2) {
                    Err(e) => Err(e),
                    Ok((rest, p3, id3)) => Ok((seq![s] + rest, p3, id3)),
                }
            },
        }
    }
}

} // verus!

verus! {

/// Wraps a successful expression parse for comparison with the description.
pub open spec fn parsed_expr_ok(e: ExprView, p: nat, id: nat) -> ParsedExpr {
    Ok((e, p, id))
}

/// Wraps a failed expression parse for comparison with the description.
pub open spec fn parsed_expr_err(m: Seq<char>) -> ParsedExpr {
    Err(m)
}

/// Wraps a successful statement parse for comparison with the description.
pub open spec fn parsed_stmt_ok(s: StmtView, p: nat, id: nat) -> ParsedStmt {
    Ok((s, p, id))
}

/// Wraps a failed statement parse for comparison with the description.
pub open spec fn parsed_stmt_err(m: Seq<char>) -> ParsedStmt {
    Err(m)
}

/// A parse error with the given message.
fn perr(m: &str) -> (r: ParseError)
    ensures
        r@ == m@,
{
    ParseError { message: String::from_str(m) }
}

/// Puts one statement in front of a parsed run of statements.
fn prepend_stmt(first: Stmt, rest: Vec<Stmt>) -> (r: Vec<Stmt>)
    ensures
        view_stmts(r@) == seq![first@] + view_stmts(rest@),
        r@.len() == rest@.len() + 1,
{
    let ghost rest0 = rest@;
    let mut out: Vec<Stmt> = Vec::new();
    out.push(first);
    let mut rest = rest;
    out.append(&mut rest);
    proof {
        assert(out@ =~= seq![first] + rest0);
        assert(out@.len() == rest0.len() + 1);
        assert(out@[0] == first);
        assert(out@.subrange(1, out@.len() as int) =~= rest0);
        assert(view_stmts(out@) == seq![out@[0].shape()] + view_stmts(
            out@.subrange(1, out@.len() as int),
        ));
        assert(view_stmts(out@) =~= seq![first@] + view_stmts(rest0));
    }
    out
}

/// Puts one expression in front of a parsed argument list.
fn prepend_expr(first: Expr, rest: Vec<Expr>) -> (r: Vec<Expr>)
    ensures
        view_exprs(r@) == seq![first@] + view_exprs(rest@),
        r@.len() == rest@.len() + 1,
{
    let ghost rest0 = rest@;
    let mut out: Vec<Expr> = Vec::new();
    out.push(first);
    let mut rest = rest;
    out.append(&mut rest);
    proof {
        assert(out@ =~= seq![first] + rest0);
        assert(out@.len() == rest0.len() + 1);
        assert(out@[0] == first);
        assert(out@.subrange(1, out@.len() as int) =~= rest0);
        assert(view_exprs(out@) == seq![out@[0].shape()] + view_exprs(
            out@.subrange(1, out@.len() as int),
        ));
        assert(view_exprs(out@) =~= seq![first@] + view_exprs(rest0));
    }
    out
}

/// Puts one name in front of a parsed parameter list.
fn prepend_string(first: String, rest: Vec<String>) -> (r: Vec<String>)
    ensures
        view_strings(r@) == seq![first@] + view_strings(rest@),
        r@.len() == rest@.len() + 1,
{
    let ghost rest0 = rest@;
    let mut out: Vec<String> = Vec::new();
    out.push(first);
    let mut rest = rest;
    out.append(&mut rest);
    proof {
        assert(out@ =~= seq![first] + rest0);
        assert(view_strings(out@) =~= seq![first@] + view_strings(rest0));
    }
    out
}

/// The parser over one token sequence.
pub struct Parser {
    tokens: Vec<Token>,
    current: usize,
    current_parse_tree_id: ParseTreeId,
}

impl Parser {
    /// The shapes of the tokens being parsed.
    pub closed spec fn toks(&self) -> Seq<TokenView> {
        view_tokens(self.tokens@)
    }

    /// The current position.
    pub closed spec fn pos(&self) -> nat {
        self.current as nat
    }

    /// The next free parse-tree id.
    pub closed spec fn pid(&self) -> nat {
        self.current_parse_tree_id as nat
    }

    /// The parser's own invariant: the position is inside the tokens, ids
    /// never run ahead of the position, and the token count leaves room for
    /// every id a parse could allocate.
    pub closed spec fn wf(&self) -> bool {
        &&& self.current <= self.tokens@.len()
        &&& self.current_parse_tree_id as int <= self.current as int
        &&& self.tokens@.len() < 0xFFFF_FFFF
    }

    /// A parser over the given tokens, starting at the first and with id
    /// zero. The length bound is what lets every parse-tree id fit its
    /// 32 bits.
    pub fn new(tokens: Vec<Token>) -> (r: Parser)
        requires
            tokens@.len() < 0xFFFF_FFFF,
        ensures
            r.wf(),
            r.toks() == view_tokens(tokens@),
            r.pos() == 0,
            r.pid() == 0,
    {
        Parser { tokens, current: 0, current_parse_tree_id: 0 }
    }

    /// Whether all tokens are consumed or only `Eof` is left.
    fn is_at_end(&self) -> (r: bool)
        requires
            self.wf(),
        ensures
            r == spec_at_end(self.toks(), self.pos()),
    {
        proof {
            crate::token::lemma_view_tokens_len(self.tokens@);
        }
        if self.current >= self.tokens.len() {
            true
        } else {
            matches!(self.tokens[self.current], Token::Eof)
        }
    }

    /// Consumes one token.
    fn advance(&mut self)
        requires
            old(self).wf(),
            old(self).pos() < old(self).toks().len(),
        ensures
            final(self).wf(),
            final(self).toks() == old(self).toks(),
            final(self).pos() == old(self).pos() + 1,
            final(self).pid() == old(self).pid(),
    {
        proof {
            crate::token::lemma_view_tokens_len(self.tokens@);
        }
        self.current = self.current + 1;
    }

    /// Hands out the next parse-tree id.
    fn get_next_parse_tree_id(&mut self) -> (id: ParseTreeId)
        requires
            old(self).wf(),
            old(self).pid() < old(self).pos(),
        ensures
            final(self).wf(),
            final(self).toks() == old(self).toks(),
            final(self).pos() == old(self).pos(),
            final(self).pid() == old(self).pid() + 1,
            id as nat == old(self).pid(),
    {
        let id = self.current_parse_tree_id;
        self.current_parse_tree_id = id + 1;
        id
    }

    /// Whether the next token has the given shape; never true at the end.
    fn check(&self, token: &Token) -> (r: bool)
        requires
            self.wf(),
        ensures
            r == (!spec_at_end(self.toks(), self.pos()) && self.toks()[self.pos() as int]
                == token@),
    {
        proof {
            crate::token::lemma_view_tokens_len(self.tokens@);
        }
        if self.is_at_end() {
            false
        } else {
            crate::token::token_eq(&self.tokens[self.current], token)
        }
    }

    /// Consumes the next token when it has the given shape.
    fn match_token(&mut self, token: &Token) -> (r: bool)
        requires
            old(self).wf(),
        ensures
            final(self).wf(),
            final(self).toks() == old(self).toks(),
            final(self).pid() == old(self).pid(),
            r == (!spec_at_end(old(self).toks(), old(self).pos()) && old(self).toks()[old(
                self,
            ).pos() as int] == token@),
            r ==> final(self).pos() == old(self).pos() + 1 && old(self).pos() < old(
                self,
            ).toks().len(),
            !r ==> final(self).pos() == old(self).pos(),
    {
        proof {
            crate::token::lemma_view_tokens_len(self.tokens@);
        }
        if self.check(token) {
            self.advance();
            true
        } else {
            false
        }
    }

    /// Parses a primary expression.
    #[verifier::rlimit(100)]
    #[verifier::spinoff_prover]
    pub fn parse_expression_primary(&mut self) -> (r: Result<Expr, ParseError>)
        requires
            old(self).wf(),
        ensures
            final(self).wf(),
            final(self).toks() == old(self).toks(),
            match r {
                Ok(e) => {
                    &&& spec_parse_primary(old(self).toks(), old(self).pos(), old(self).pid())
                        == parsed_expr_ok(e@, final(self).pos(), final(self).pid())
                    &&& old(self).pos() < final(self).pos() <= final(self).toks().len()
                    &&& old(self).pid() <= final(self).pid()
                    &&& final(self).pid() - old(self).pid() <= final(self).pos() - old(self).pos()
                },
                Err(pe) => spec_parse_primary(old(self).toks(), old(self).pos(), old(self).pid())
                    == parsed_expr_err(pe@),
            },
        decreases self.toks().len() - self.pos(), 10int,
    {
        proof {
            crate::token::lemma_view_tokens_len(self.tokens@);
            reveal(spec_parse_primary);
        }
        proof {
            crate::token::lemma_view_tokens_len(self.tokens@);
        }
        if self.current >= self.tokens.len() {
            return Err(perr("Unexpected end of input."));
        }
        let tok = self.tokens[self.current].clone();
        self.advance();
        match tok {
            Token::NumberLiteral(n) => Ok(Expr::LiteralNumber(n)),
            Token::StringLiteral(s) => Ok(Expr::LiteralString(s)),
            Token::Identifier(s) => {
                let id = self.get_next_parse_tree_id();
                Ok(Expr::Identifier(ExprIdentifier { parse_tree_id: id, id: s }))
            },
            Token::False => Ok(Expr::False),
            Token::True => Ok(Expr::True),
            Token::Nil => Ok(Expr::Nil),
            Token::LeftParenthesis => self.parse_expression_parenthesis(),
            other => {
                let mut msg = String::from_str("Unexpected token while parsing primary: ");
                let text = other.text();
                msg.append(text.as_str());
                Err(ParseError { message: msg })
            },
        }
    }

    /// Parses the inside of a parenthesized expression and its closing `)`.
    #[verifier::rlimit(100)]
    #[verifier::spinoff_prover]
    pub fn parse_expression_parenthesis(&mut self) -> (r: Result<Expr, ParseError>)
        requires
            old(self).wf(),
        ensures
            final(self).wf(),
            final(self).toks() == old(self).toks(),
            match r {
                Ok(e) => {
                    &&& spec_parse_parenthesis(old(self).toks(), old(self).pos(), old(self).pid())
                        == parsed_expr_ok(e@, final(self).pos(), final(self).pid())
                    &&& old(self).pos() < final(self).pos() <= final(self).toks().len()
                    &&& old(self).pid() <= final(self).pid()
                    &&& final(self).pid() - old(self).pid() <= final(self).pos() - old(self).pos()
                },
                Err(pe) => spec_parse_parenthesis(
                    old(self).toks(),
                    old(self).pos(),
                    old(self).pid(),
                ) == parsed_expr_err(pe@),
            },
        decreases self.toks().len() - self.pos(), 32int,
    {
        proof {
            crate::token::lemma_view_tokens_len(self.tokens@);
            reveal(spec_parse_parenthesis);
        }
        let e = match self.parse_expression() {
            Ok(e) => e,
            Err(pe) => {
                return Err(pe);
            },
        };
        if self.match_token(&Token::RightParenthesis) {
            Ok(e)
        } else {
            Err(perr("Expected ')' after expression."))
        }
    }

    /// Parses a call expression: a primary and any argument lists after it.
    #[verifier::rlimit(100)]
    #[verifier::spinoff_prover]
    pub fn parse_expression_call(&mut self) -> (r: Result<Expr, ParseError>)
        requires
            old(self).wf(),
        ensures
            final(self).wf(),
            final(self).toks() == old(self).toks(),
            match r {
                Ok(e) => {
                    &&& spec_parse_call(old(self).toks(), old(self).pos(), old(self).pid())
                        == parsed_expr_ok(e@, final(self).pos(), final(self).pid())
                    &&& old(self).pos() < final(self).pos() <= final(self).toks().len()
                    &&& old(self).pid() <= final(self).pid()
                    &&& final(self).pid() - old(self).pid() <= final(self).pos() - old(self).pos()
                },
                Err(pe) => spec_parse_call(old(self).toks(), old(self).pos(), old(self).pid())
                    == parsed_expr_err(pe@),
            },
        decreases self.toks().len() - self.pos(), 12int,
    {
        proof {
            crate::token::lemma_view_tokens_len(self.tokens@);
            reveal(spec_parse_call);
        }
        let callee = match self.parse_expression_primary() {
            Ok(e) => e,
            Err(pe) => {
                return Err(pe);
            },
        };
        self.parse_expression_call_suffix(callee)
    }

    /// Parses the argument lists that follow a callee, if any.
    #[verifier::rlimit(100)]
    #[verifier::spinoff_prover]
    fn parse_expression_call_suffix(&mut self, callee: Expr) -> (r: Result<Expr, ParseError>)
        requires
            old(self).wf(),
        ensures
            final(self).wf(),
            final(self).toks() == old(self).toks(),
            match r {
                Ok(e) => {
                    &&& spec_parse_call_suffix(
                        old(self).toks(),
                        callee@,
                        old(self).pos(),
                        old(self).pid(),
                    ) == parsed_expr_ok(e@, final(self).pos(), final(self).pid())
                    &&& old(self).pos() <= final(self).pos() <= final(self).toks().len()
                    &&& old(self).pid() <= final(self).pid()
                    &&& final(self).pid() - old(self).pid() <= final(self).pos() - old(self).pos()
                },
                Err(pe) => spec_parse_call_suffix(
                    old(self).toks(),
                    callee@,
                    old(self).pos(),
                    old(self).pid(),
                ) == parsed_expr_err(pe@),
            },
        decreases self.toks().len() - self.pos(), 11int,
    {
        proof {
            crate::token::lemma_view_tokens_len(self.tokens@);
            reveal(spec_parse_call_suffix);
        }
        if self.check(&Token::LeftParenthesis) {
            self.advance();
            if self.match_token(&Token::RightParenthesis) {
                let empty_args: Vec<Expr> = Vec::new();
                let next = Expr::Call(Box::new(callee), empty_args);
                proof {
                    assert(view_exprs(Seq::<Expr>::empty()) == Seq::<ExprView>::empty());
                }
                self.parse_expression_call_suffix(next)
            } else {
                let args = match self.parse_expression_call_args() {
                    Ok(a) => a,
                    Err(pe) => {
                        return Err(pe);
                    },
                };
                if self.match_token(&Token::RightParenthesis) {
                    self.parse_expression_call_suffix(Expr::Call(Box::new(callee), args))
                } else {
                    Err(perr("Expected ')' for closing function call."))
                }
            }
        } else {
            Ok(callee)
        }
    }

    /// Parses one or more comma-separated call arguments.
    #[verifier::rlimit(100)]
    #[verifier::spinoff_prover]
    fn parse_expression_call_args(&mut self) -> (r: Result<Vec<Expr>, ParseError>)
        requires
            old(self).wf(),
        ensures
            final(self).wf(),
            final(self).toks() == old(self).toks(),
            match r {
                Ok(args) => {
                    &&& spec_parse_call_args(old(self).toks(), old(self).pos(), old(self).pid())
                        == Ok::<(Seq<ExprView>, nat, nat), Seq<char>>(
                        (view_exprs(args@), final(self).pos(), final(self).pid()),
                    )
                    &&& old(self).pos() < final(self).pos() <= final(self).toks().len()
                    &&& old(self).pid() <= final(self).pid()
                    &&& final(self).pid() - old(self).pid() <= final(self).pos() - old(self).pos()
                },
                Err(pe) => spec_parse_call_args(old(self).toks(), old(self).pos(), old(self).pid())
                    == Err::<(Seq<ExprView>, nat, nat), Seq<char>>(pe@),
            },
        decreases self.toks().len() - self.pos(), 31int,
    {
        proof {
            crate::token::lemma_view_tokens_len(self.tokens@);
            reveal(spec_parse_call_args);
        }
        let first = match self.parse_expression() {
            Ok(e) => e,
            Err(pe) => {
                return Err(pe);
            },
        };
        if self.match_token(&Token::Comma) {
            let rest = match self.parse_expression_call_args() {
                Ok(a) => a,
                Err(pe) => {
                    return Err(pe);
                },
            };
            Ok(prepend_expr(first, rest))
        } else {
            let mut out: Vec<Expr> = Vec::new();
            out.push(first);
            proof {
                assert(out@ =~= seq![first]);
                assert(out@.len() == 1);
                assert(out@[0] == first);
                assert(out@.subrange(1, 1) =~= Seq::<Expr>::empty());
                assert(view_exprs(Seq::<Expr>::empty()) == Seq::<ExprView>::empty());
                assert(view_exprs(out@) == seq![out@[0].shape()] + view_exprs(out@.subrange(1, 1)));
                assert(view_exprs(out@) =~= seq![first@]);
            }
            Ok(out)
        }
    }

    /// Parses a unary expression.
    #[verifier::rlimit(100)]
    #[verifier::spinoff_prover]
    pub fn parse_expression_unary(&mut self) -> (r: Result<Expr, ParseError>)
        requires
            old(self).wf(),
        ensures
            final(self).wf(),
            final(self).toks() == old(self).toks(),
            match r {
                Ok(e) => {
                    &&& spec_parse_unary(old(self).toks(), old(self).pos(), old(self).pid())
                        == parsed_expr_ok(e@, final(self).pos(), final(self).pid())
                    &&& old(self).pos() < final(self).pos() <= final(self).toks().len()
                    &&& old(self).pid() <= final(self).pid()
                    &&& final(self).pid() - old(self).pid() <= final(self).pos() - old(self).pos()
                },
                Err(pe) => spec_parse_unary(old(self).toks(), old(self).pos(), old(self).pid())
                    == parsed_expr_err(pe@),
            },
        decreases self.toks().len() - self.pos(), 14int,
    {
        proof {
            crate::token::lemma_view_tokens_len(self.tokens@);
            reveal(spec_parse_unary);
        }
        if self.check(&Token::Bang) {
            self.advance();
            match self.parse_expression_unary() {
                Ok(e) => Ok(Expr::UnaryBang(Box::new(e))),
                Err(pe) => Err(pe),
            }
        } else if self.check(&Token::Minus) {
            self.advance();
            match self.parse_expression_unary() {
                Ok(e) => Ok(Expr::UnaryMinus(Box::new(e))),
                Err(pe) => Err(pe),
            }
        } else {
            self.parse_expression_call()
        }
    }

    /// Parses a multiplicative expression.
    #[verifier::rlimit(100)]
    #[verifier::spinoff_prover]
    pub fn parse_expression_mul_div(&mut self) -> (r: Result<Expr, ParseError>)
        requires
            old(self).wf(),
        ensures
            final(self).wf(),
            final(self).toks() == old(self).toks(),
            match r {
                Ok(e) => {
                    &&& spec_parse_mul_div(old(self).toks(), old(self).pos(), old(self).pid())
                        == parsed_expr_ok(e@, final(self).pos(), final(self).pid())
                    &&& old(self).pos() < final(self).pos() <= final(self).toks().len()
                    &&& old(self).pid() <= final(self).pid()
                    &&& final(self).pid() - old(self).pid() <= final(self).pos() - old(self).pos()
                },
                Err(pe) => spec_parse_mul_div(old(self).toks(), old(self).pos(), old(self).pid())
                    == parsed_expr_err(pe@),
            },
        decreases self.toks().len() - self.pos(), 16int,
    {
        proof {
            crate::token::lemma_view_tokens_len(self.tokens@);
            reveal(spec_parse_mul_div);
        }
        let left = match self.parse_expression_unary() {
            Ok(e) => e,
            Err(pe) => {
                return Err(pe);
            },
        };
        self.parse_expression_mul_div_rest(left)
    }

    /// Parses the `*`/`/` continuations, left-associatively.
    #[verifier::rlimit(100)]
    #[verifier::spinoff_prover]
    fn parse_expression_mul_div_rest(&mut self, left: Expr) -> (r: Result<Expr, ParseError>)
        requires
            old(self).wf(),
        ensures
            final(self).wf(),
            final(self).toks() == old(self).toks(),
            match r {
                Ok(e) => {
                    &&& spec_parse_mul_div_rest(
                        old(self).toks(),
                        left@,
                        old(self).pos(),
                        old(self).pid(),
                    ) == parsed_expr_ok(e@, final(self).pos(), final(self).pid())
                    &&& old(self).pos() <= final(self).pos() <= final(self).toks().len()
                    &&& old(self).pid() <= final(self).pid()
                    &&& final(self).pid() - old(self).pid() <= final(self).pos() - old(self).pos()
                },
                Err(pe) => spec_parse_mul_div_rest(
                    old(self).toks(),
                    left@,
                    old(self).pos(),
                    old(self).pid(),
                ) == parsed_expr_err(pe@),
            },
        decreases self.toks().len() - self.pos(), 15int,
    {
        proof {
            crate::token::lemma_view_tokens_len(self.tokens@);
            reveal(spec_parse_mul_div_rest);
        }
        let is_mul = self.check(&Token::Star);
        let is_div = self.check(&Token::Slash);
        if is_mul || is_div {
            self.advance();
            let right = match self.parse_expression_unary() {
                Ok(e) => e,
                Err(pe) => {
                    return Err(pe);
                },
            };
            let node = if is_mul {
                Expr::BinaryMul(Box::new(left), Box::new(right))
            } else {
                Expr::BinaryDiv(Box::new(left), Box::new(right))
            };
            self.parse_expression_mul_div_rest(node)
        } else {
            Ok(left)
        }
    }

    /// Parses an additive expression.
    #[verifier::rlimit(100)]
    #[verifier::spinoff_prover]
    pub fn parse_expression_add_sub(&mut self) -> (r: Result<Expr, ParseError>)
        requires
            old(self).wf(),
        ensures
            final(self).wf(),
            final(self).toks() == old(self).toks(),
            match r {
                Ok(e) => {
                    &&& spec_parse_add_sub(old(self).toks(), old(self).pos(), old(self).pid())
                        == parsed_expr_ok(e@, final(self).pos(), final(self).pid())
                    &&& old(self).pos() < final(self).pos() <= final(self).toks().len()
                    &&& old(self).pid() <= final(self).pid()
                    &&& final(self).pid() - old(self).pid() <= final(self).pos() - old(self).pos()
                },
                Err(pe) => spec_parse_add_sub(old(self).toks(), old(self).pos(), old(self).pid())
                    == parsed_expr_err(pe@),
            },
        decreases self.toks().len() - self.pos(), 18int,
    {
        proof {
            crate::token::lemma_view_tokens_len(self.tokens@);
            reveal(spec_parse_add_sub);
        }
        let left = match self.parse_expression_mul_div() {
            Ok(e) => e,
            Err(pe) => {
                return Err(pe);
            },
        };
        self.parse_expression_add_sub_rest(left)
    }

    /// Parses the `+`/`-` continuations.
    #[verifier::rlimit(100)]
    #[verifier::spinoff_prover]
    fn parse_expression_add_sub_rest(&mut self, left: Expr) -> (r: Result<Expr, ParseError>)
        requires
            old(self).wf(),
        ensures
            final(self).wf(),
            final(self).toks() == old(self).toks(),
            match r {
                Ok(e) => {
                    &&& spec_parse_add_sub_rest(
                        old(self).toks(),
                        left@,
                        old(self).pos(),
                        old(self).pid(),
                    ) == parsed_expr_ok(e@, final(self).pos(), final(self).pid())
                    &&& old(self).pos() <= final(self).pos() <= final(self).toks().len()
                    &&& old(self).pid() <= final(self).pid()
                    &&& final(self).pid() - old(self).pid() <= final(self).pos() - old(self).pos()
                },
                Err(pe) => spec_parse_add_sub_rest(
                    old(self).toks(),
                    left@,
                    old(self).pos(),
                    old(self).pid(),
                ) == parsed_expr_err(pe@),
            },
        decreases self.toks().len() - self.pos(), 17int,
    {
        proof {
            crate::token::lemma_view_tokens_len(self.tokens@);
            reveal(spec_parse_add_sub_rest);
        }
        let is_add = self.check(&Token::Plus);
        let is_sub = self.check(&Token::Minus);
        if is_add || is_sub {
            self.advance();
            let right = match self.parse_expression_mul_div() {
                Ok(e) => e,
                Err(pe) => {
                    return Err(pe);
                },
            };
            let node = if is_add {
                Expr::BinaryAdd(Box::new(left), Box::new(right))
            } else {
                Expr::BinarySub(Box::new(left), Box::new(right))
            };
            self.parse_expression_add_sub_rest(node)
        } else {
            Ok(left)
        }
    }

    /// Parses a comparison.
    #[verifier::rlimit(100)]
    #[verifier::spinoff_prover]
    pub fn parse_expression_comparison(&mut self) -> (r: Result<Expr, ParseError>)
        requires
            old(self).wf(),
        ensures
            final(self).wf(),
            final(self).toks() == old(self).toks(),
            match r {
                Ok(e) => {
                    &&& spec_parse_comparison(old(self).toks(), old(self).pos(), old(self).pid())
                        == parsed_expr_ok(e@, final(self).pos(), final(self).pid())
                    &&& old(self).pos() < final(self).pos() <= final(self).toks().len()
                    &&& old(self).pid() <= final(self).pid()
                    &&& final(self).pid() - old(self).pid() <= final(self).pos() - old(self).pos()
                },
                Err(pe) => spec_parse_comparison(old(self).toks(), old(self).pos(), old(self).pid())
                    == parsed_expr_err(pe@),
            },
        decreases self.toks().len() - self.pos(), 20int,
    {
        proof {
            crate::token::lemma_view_tokens_len(self.tokens@);
            reveal(spec_parse_comparison);
        }
        let left = match self.parse_expression_add_sub() {
            Ok(e) => e,
            Err(pe) => {
                return Err(pe);
            },
        };
        self.parse_expression_comparison_rest(left)
    }

    /// Parses the comparison-operator continuations.
    #[verifier::rlimit(100)]
    #[verifier::spinoff_prover]
    fn parse_expression_comparison_rest(&mut self, left: Expr) -> (r: Result<Expr, ParseError>)
        requires
            old(self).wf(),
        ensures
            final(self).wf(),
            final(self).toks() == old(self).toks(),
            match r {
                Ok(e) => {
                    &&& spec_parse_comparison_rest(
                        old(self).toks(),
                        left@,
                        old(self).pos(),
                        old(self).pid(),
                    ) == parsed_expr_ok(e@, final(self).pos(), final(self).pid())
                    &&& old(self).pos() <= final(self).pos() <= final(self).toks().len()
                    &&& old(self).pid() <= final(self).pid()
                    &&& final(self).pid() - old(self).pid() <= final(self).pos() - old(self).pos()
                },
                Err(pe) => spec_parse_comparison_rest(
                    old(self).toks(),
                    left@,
                    old(self).pos(),
                    old(self).pid(),
                ) == parsed_expr_err(pe@),
            },
        decreases self.toks().len() - self.pos(), 19int,
    {
        proof {
            crate::token::lemma_view_tokens_len(self.tokens@);
            reveal(spec_parse_comparison_rest);
        }
        let is_lt = self.check(&Token::Less);
        let is_le = self.check(&Token::LessEqual);
        let is_gt = self.check(&Token::Greater);
        let is_ge = self.check(&Token::GreaterEqual);
        if is_lt || is_le || is_gt || is_ge {
            self.advance();
            let right = match self.parse_expression_add_sub() {
                Ok(e) => e,
                Err(pe) => {
                    return Err(pe);
                },
            };
            let node = if is_lt {
                Expr::BinaryLess(Box::new(left), Box::new(right))
            } else if is_le {
                Expr::BinaryLessEqual(Box::new(left), Box::new(right))
            } else if is_gt {
                Expr::BinaryGreater(Box::new(left), Box::new(right))
            } else {
                Expr::BinaryGreaterEqual(Box::new(left), Box::new(right))
            };
            self.parse_expression_comparison_rest(node)
        } else {
            Ok(left)
        }
    }

    /// Parses an equality.
    #[verifier::rlimit(100)]
    #[verifier::spinoff_prover]
    pub fn parse_expression_equality(&mut self) -> (r: Result<Expr, ParseError>)
        requires
            old(self).wf(),
        ensures
            final(self).wf(),
            final(self).toks() == old(self).toks(),
            match r {
                Ok(e) => {
                    &&& spec_parse_equality(old(self).toks(), old(self).pos(), old(self).pid())
                        == parsed_expr_ok(e@, final(self).pos(), final(self).pid())
                    &&& old(self).pos() < final(self).pos() <= final(self).toks().len()
                    &&& old(self).pid() <= final(self).pid()
                    &&& final(self).pid() - old(self).pid() <= final(self).pos() - old(self).pos()
                },
                Err(pe) => spec_parse_equality(old(self).toks(), old(self).pos(), old(self).pid())
                    == parsed_expr_err(pe@),
            },
        decreases self.toks().len() - self.pos(), 22int,
    {
        proof {
            crate::token::lemma_view_tokens_len(self.tokens@);
            reveal(spec_parse_equality);
        }
        let left = match self.parse_expression_comparison() {
            Ok(e) => e,
            Err(pe) => {
                return Err(pe);
            },
        };
        self.parse_expression_equality_rest(left)
    }

    /// Parses the `==`/`!=` continuations.
    #[verifier::rlimit(100)]
    #[verifier::spinoff_prover]
    fn parse_expression_equality_rest(&mut self, left: Expr) -> (r: Result<Expr, ParseError>)
        requires
            old(self).wf(),
        ensures
            final(self).wf(),
            final(self).toks() == old(self).toks(),
            match r {
                Ok(e) => {
                    &&& spec_parse_equality_rest(
                        old(self).toks(),
                        left@,
                        old(self).pos(),
                        old(self).pid(),
                    ) == parsed_expr_ok(e@, final(self).pos(), final(self).pid())
                    &&& old(self).pos() <= final(self).pos() <= final(self).toks().len()
                    &&& old(self).pid() <= final(self).pid()
                    &&& final(self).pid() - old(self).pid() <= final(self).pos() - old(self).pos()
                },
                Err(pe) => spec_parse_equality_rest(
                    old(self).toks(),
                    left@,
                    old(self).pos(),
                    old(self).pid(),
                ) == parsed_expr_err(pe@),
            },
        decreases self.toks().len() - self.pos(), 21int,
    {
        proof {
            crate::token::lemma_view_tokens_len(self.tokens@);
            reveal(spec_parse_equality_rest);
        }
        let is_eq = self.check(&Token::EqualEqual);
        let is_ne = self.check(&Token::BangEqual);
        if is_eq || is_ne {
            self.advance();
            let right = match self.parse_expression_comparison() {
                Ok(e) => e,
                Err(pe) => {
                    return Err(pe);
                },
            };
            let node = if is_eq {
                Expr::BinaryEqual(Box::new(left), Box::new(right))
            } else {
                Expr::BinaryNotEqual(Box::new(left), Box::new(right))
            };
            self.parse_expression_equality_rest(node)
        } else {
            Ok(left)
        }
    }

    /// Parses a logical and.
    #[verifier::rlimit(100)]
    #[verifier::spinoff_prover]
    pub fn parse_expression_and(&mut self) -> (r: Result<Expr, ParseError>)
        requires
            old(self).wf(),
        ensures
            final(self).wf(),
            final(self).toks() == old(self).toks(),
            match r {
                Ok(e) => {
                    &&& spec_parse_and(old(self).toks(), old(self).pos(), old(self).pid())
                        == parsed_expr_ok(e@, final(self).pos(), final(self).pid())
                    &&& old(self).pos() < final(self).pos() <= final(self).toks().len()
                    &&& old(self).pid() <= final(self).pid()
                    &&& final(self).pid() - old(self).pid() <= final(self).pos() - old(self).pos()
                },
                Err(pe) => spec_parse_and(old(self).toks(), old(self).pos(), old(self).pid())
                    == parsed_expr_err(pe@),
            },
        decreases self.toks().len() - self.pos(), 24int,
    {
        proof {
            crate::token::lemma_view_tokens_len(self.tokens@);
            reveal(spec_parse_and);
        }
        let left = match self.parse_expression_equality() {
            Ok(e) => e,
            Err(pe) => {
                return Err(pe);
            },
        };
        self.parse_expression_and_rest(left)
    }

    /// Parses the `and` continuations.
    #[verifier::rlimit(100)]
    #[verifier::spinoff_prover]
    fn parse_expression_and_rest(&mut self, left: Expr) -> (r: Result<Expr, ParseError>)
        requires
            old(self).wf(),
        ensures
            final(self).wf(),
            final(self).toks() == old(self).toks(),
            match r {
                Ok(e) => {
                    &&& spec_parse_and_rest(
                        old(self).toks(),
                        left@,
                        old(self).pos(),
                        old(self).pid(),
                    ) == parsed_expr_ok(e@, final(self).pos(), final(self).pid())
                    &&& old(self).pos() <= final(self).pos() <= final(self).toks().len()
                    &&& old(self).pid() <= final(self).pid()
                    &&& final(self).pid() - old(self).pid() <= final(self).pos() - old(self).pos()
                },
                Err(pe) => spec_parse_and_rest(
                    old(self).toks(),
                    left@,
                    old(self).pos(),
                    old(self).pid(),
                ) == parsed_expr_err(pe@),
            },
        decreases self.toks().len() - self.pos(), 23int,
    {
        proof {
            crate::token::lemma_view_tokens_len(self.tokens@);
            reveal(spec_parse_and_rest);
        }
        let ghost t = old(self).toks();
        let ghost p0 = old(self).pos();
        let ghost id0 = old(self).pid();
        if self.check(&Token::And) {
            proof {
                assert(t[p0 as int] is And);
            }
            self.advance();
            let right = match self.parse_expression_equality() {
                Ok(e) => e,
                Err(pe) => {
                    return Err(pe);
                },
            };
            let ghost pm = self.pos();
            let ghost im = self.pid();
            proof {
                assert(spec_parse_equality(t, (p0 + 1) as nat, id0) == parsed_expr_ok(
                    right@,
                    pm,
                    im,
                ));
                assert(spec_moved(p0, pm, t));
            }
            let node = Expr::BinaryAnd(Box::new(left), Box::new(right));
            proof {
                assert(node@ == ExprView::BinaryAnd(Box::new(left@), Box::new(right@)));
                assert(spec_parse_and_rest(t, left@, p0, id0) == spec_parse_and_rest(
                    t,
                    node@,
                    pm,
                    im,
                ));
            }
            self.parse_expression_and_rest(node)
        } else {
            Ok(left)
        }
    }

    /// Parses a logical or.
    #[verifier::rlimit(100)]
    #[verifier::spinoff_prover]
    pub fn parse_expression_or(&mut self) -> (r: Result<Expr, ParseError>)
        requires
            old(self).wf(),
        ensures
            final(self).wf(),
            final(self).toks() == old(self).toks(),
            match r {
                Ok(e) => {
                    &&& spec_parse_or(old(self).toks(), old(self).pos(), old(self).pid())
                        == parsed_expr_ok(e@, final(self).pos(), final(self).pid())
                    &&& old(self).pos() < final(self).pos() <= final(self).toks().len()
                    &&& old(self).pid() <= final(self).pid()
                    &&& final(self).pid() - old(self).pid() <= final(self).pos() - old(self).pos()
                },
                Err(pe) => spec_parse_or(old(self).toks(), old(self).pos(), old(self).pid())
                    == parsed_expr_err(pe@),
            },
        decreases self.toks().len() - self.pos(), 26int,
    {
        proof {
            crate::token::lemma_view_tokens_len(self.tokens@);
            reveal(spec_parse_or);
        }
        let left = match self.parse_expression_and() {
            Ok(e) => e,
            Err(pe) => {
                return Err(pe);
            },
        };
        self.parse_expression_or_rest(left)
    }

    /// Parses the `or` continuations.
    #[verifier::rlimit(100)]
    #[verifier::spinoff_prover]
    fn parse_expression_or_rest(&mut self, left: Expr) -> (r: Result<Expr, ParseError>)
        requires
            old(self).wf(),
        ensures
            final(self).wf(),
            final(self).toks() == old(self).toks(),
            match r {
                Ok(e) => {
                    &&& spec_parse_or_rest(
                        old(self).toks(),
                        left@,
                        old(self).pos(),
                        old(self).pid(),
                    ) == parsed_expr_ok(e@, final(self).pos(), final(self).pid())
                    &&& old(self).pos() <= final(self).pos() <= final(self).toks().len()
                    &&& old(self).pid() <= final(self).pid()
                    &&& final(self).pid() - old(self).pid() <= final(self).pos() - old(self).pos()
                },
                Err(pe) => spec_parse_or_rest(
                    old(self).toks(),
                    left@,
                    old(self).pos(),
                    old(self).pid(),
                ) == parsed_expr_err(pe@),
            },
        decreases self.toks().len() - self.pos(), 25int,
    {
        proof {
            crate::token::lemma_view_tokens_len(self.tokens@);
            reveal(spec_parse_or_rest);
        }
        if self.check(&Token::Or) {
            self.advance();
            let right = match self.parse_expression_and() {
                Ok(e) => e,
                Err(pe) => {
                    return Err(pe);
                },
            };
            self.parse_expression_or_rest(Expr::BinaryOr(Box::new(left), Box::new(right)))
        } else {
            Ok(left)
        }
    }

    /// Parses an assignment, or the or-expression it falls back to.
    #[verifier::rlimit(100)]
    #[verifier::spinoff_prover]
    pub fn parse_expression_assignment(&mut self) -> (r: Result<Expr, ParseError>)
        requires
            old(self).wf(),
        ensures
            final(self).wf(),
            final(self).toks() == old(self).toks(),
            match r {
                Ok(e) => {
                    &&& spec_parse_assignment(old(self).toks(), old(self).pos(), old(self).pid())
                        == parsed_expr_ok(e@, final(self).pos(), final(self).pid())
                    &&& old(self).pos() < final(self).pos() <= final(self).toks().len()
                    &&& old(self).pid() <= final(self).pid()
                    &&& final(self).pid() - old(self).pid() <= final(self).pos() - old(self).pos()
                },
                Err(pe) => spec_parse_assignment(
                    old(self).toks(),
                    old(self).pos(),
                    old(self).pid(),
                ) == parsed_expr_err(pe@),
            },
        decreases self.toks().len() - self.pos(), 28int,
    {
        proof {
            crate::token::lemma_view_tokens_len(self.tokens@);
            reveal(spec_parse_assignment);
        }
        let lhs = match self.parse_expression_or() {
            Ok(e) => e,
            Err(pe) => {
                return Err(pe);
            },
        };
        if self.match_token(&Token::Equal) {
            let rhs = match self.parse_expression_assignment() {
                Ok(e) => e,
                Err(pe) => {
                    return Err(pe);
                },
            };
            match lhs {
                Expr::Identifier(ident) => {
                    let id = self.get_next_parse_tree_id();
                    Ok(
                        Expr::Assign(
                            ExprAssign {
                                parse_tree_id: id,
                                left: ident.id,
                                right: Box::new(rhs),
                            },
                        ),
                    )
                },
                _ => Err(perr("Invalid assignment target.")),
            }
        } else {
            Ok(lhs)
        }
    }

    /// Parses one expression.
    #[verifier::rlimit(100)]
    #[verifier::spinoff_prover]
    pub fn parse_expression(&mut self) -> (r: Result<Expr, ParseError>)
        requires
            old(self).wf(),
        ensures
            final(self).wf(),
            final(self).toks() == old(self).toks(),
            match r {
                Ok(e) => {
                    &&& spec_parse_expression(old(self).toks(), old(self).pos(), old(self).pid())
                        == parsed_expr_ok(e@, final(self).pos(), final(self).pid())
                    &&& old(self).pos() < final(self).pos() <= final(self).toks().len()
                    &&& old(self).pid() <= final(self).pid()
                    &&& final(self).pid() - old(self).pid() <= final(self).pos() - old(self).pos()
                },
                Err(pe) => spec_parse_expression(
                    old(self).toks(),
                    old(self).pos(),
                    old(self).pid(),
                ) == parsed_expr_err(pe@),
            },
        decreases self.toks().len() - self.pos(), 30int,
    {
        proof {
            crate::token::lemma_view_tokens_len(self.tokens@);
            reveal(spec_parse_expression);
        }
        self.parse_expression_assignment()
    }
}

} // verus!

verus! {

impl Parser {
    /// Parses a `print` statement.
    #[verifier::rlimit(100)]
    #[verifier::spinoff_prover]
    pub fn parse_statement_print(&mut self) -> (r: Result<Stmt, ParseError>)
        requires
            old(self).wf(),
            old(self).pos() < old(self).toks().len(),
        ensures
            final(self).wf(),
            final(self).toks() == old(self).toks(),
            match r {
                Ok(s) => {
                    &&& spec_parse_statement_print(
                        old(self).toks(),
                        old(self).pos(),
                        old(self).pid(),
                    ) == parsed_stmt_ok(s@, final(self).pos(), final(self).pid())
                    &&& old(self).pos() < final(self).pos() <= final(self).toks().len()
                    &&& old(self).pid() <= final(self).pid()
                    &&& final(self).pid() - old(self).pid() <= final(self).pos() - old(self).pos()
                },
                Err(pe) => spec_parse_statement_print(
                    old(self).toks(),
                    old(self).pos(),
                    old(self).pid(),
                ) == parsed_stmt_err(pe@),
            },
        decreases self.toks().len() - self.pos(), 36int,
    {
        proof {
            crate::token::lemma_view_tokens_len(self.tokens@);
            reveal(spec_parse_statement_print);
        }
        self.advance();
        let e = match self.parse_expression() {
            Ok(e) => e,
            Err(pe) => {
                return Err(pe);
            },
        };
        if self.match_token(&Token::Semicolon) {
            Ok(Stmt::Print(Box::new(e)))
        } else {
            Err(perr("Expected ';' after expression."))
        }
    }

    /// Parses an expression statement.
    #[verifier::rlimit(100)]
    #[verifier::spinoff_prover]
    pub fn parse_statement_expression(&mut self) -> (r: Result<Stmt, ParseError>)
        requires
            old(self).wf(),
        ensures
            final(self).wf(),
            final(self).toks() == old(self).toks(),
            match r {
                Ok(s) => {
                    &&& spec_parse_statement_expression(
                        old(self).toks(),
                        old(self).pos(),
                        old(self).pid(),
                    ) == parsed_stmt_ok(s@, final(self).pos(), final(self).pid())
                    &&& old(self).pos() < final(self).pos() <= final(self).toks().len()
                    &&& old(self).pid() <= final(self).pid()
                    &&& final(self).pid() - old(self).pid() <= final(self).pos() - old(self).pos()
                },
                Err(pe) => spec_parse_statement_expression(
                    old(self).toks(),
                    old(self).pos(),
                    old(self).pid(),
                ) == parsed_stmt_err(pe@),
            },
        decreases self.toks().len() - self.pos(), 36int,
    {
        proof {
            crate::token::lemma_view_tokens_len(self.tokens@);
            reveal(spec_parse_statement_expression);
        }
        let e = match self.parse_expression() {
            Ok(e) => e,
            Err(pe) => {
                return Err(pe);
            },
        };
        if self.match_token(&Token::Semicolon) {
            Ok(Stmt::Expr(Box::new(e)))
        } else {
            Err(perr("Expected ';' after expression."))
        }
    }

    /// Parses a variable declaration.
    #[verifier::rlimit(100)]
    #[verifier::spinoff_prover]
    pub fn parse_statement_var_declaration(&mut self) -> (r: Result<Stmt, ParseError>)
        requires
            old(self).wf(),
            old(self).pos() < old(self).toks().len(),
        ensures
            final(self).wf(),
            final(self).toks() == old(self).toks(),
            match r {
                Ok(s) => {
                    &&& spec_parse_statement_var(
                        old(self).toks(),
                        old(self).pos(),
                        old(self).pid(),
                    ) == parsed_stmt_ok(s@, final(self).pos(), final(self).pid())
                    &&& old(self).pos() < final(self).pos() <= final(self).toks().len()
                    &&& old(self).pid() <= final(self).pid()
                    &&& final(self).pid() - old(self).pid() <= final(self).pos() - old(self).pos()
                },
                Err(pe) => spec_parse_statement_var(
                    old(self).toks(),
                    old(self).pos(),
                    old(self).pid(),
                ) == parsed_stmt_err(pe@),
            },
        decreases self.toks().len() - self.pos(), 36int,
    {
        proof {
            crate::token::lemma_view_tokens_len(self.tokens@);
            reveal(spec_parse_statement_var);
        }
        self.advance();
        proof {
            crate::token::lemma_view_tokens_len(self.tokens@);
        }
        if self.current >= self.tokens.len() {
            return Err(perr("Expected identifier after var."));
        }
        let tok = self.tokens[self.current].clone();
        let ghost tv = tok@;
        proof {
            crate::token::lemma_view_tokens_len(self.tokens@);
            assert(tv == old(self).toks()[old(self).pos() as int + 1]);
        }
        match tok {
            Token::Identifier(name) => {
                proof {
                    assert(tv is Identifier && tv->Identifier_0 == name@);
                }
                self.advance();
                if self.match_token(&Token::Equal) {
                    let e = match self.parse_expression() {
                        Ok(e) => e,
                        Err(pe) => {
                            return Err(pe);
                        },
                    };
                    if self.match_token(&Token::Semicolon) {
                        Ok(Stmt::VarDeclaration(name, Some(Box::new(e))))
                    } else {
                        Err(perr("Expected ';' after variable declaration."))
                    }
                } else if self.match_token(&Token::Semicolon) {
                    Ok(Stmt::VarDeclaration(name, None))
                } else {
                    Err(perr("Expected ';' after variable declaration."))
                }
            },
            _ => {
                proof {
                    assert(!(tv is Identifier));
                }
                Err(perr("Expected identifier after var."))
            },
        }
    }

    /// Parses an `if` statement.
    #[verifier::rlimit(100)]
    #[verifier::spinoff_prover]
    pub fn parse_statement_if(&mut self) -> (r: Result<Stmt, ParseError>)
        requires
            old(self).wf(),
            old(self).pos() < old(self).toks().len(),
        ensures
            final(self).wf(),
            final(self).toks() == old(self).toks(),
            match r {
                Ok(s) => {
                    &&& spec_parse_statement_if(
                        old(self).toks(),
                        old(self).pos(),
                        old(self).pid(),
                    ) == parsed_stmt_ok(s@, final(self).pos(), final(self).pid())
                    &&& old(self).pos() < final(self).pos() <= final(self).toks().len()
                    &&& old(self).pid() <= final(self).pid()
                    &&& final(self).pid() - old(self).pid() <= final(self).pos() - old(self).pos()
                },
                Err(pe) => spec_parse_statement_if(
                    old(self).toks(),
                    old(self).pos(),
                    old(self).pid(),
                ) == parsed_stmt_err(pe@),
            },
        decreases self.toks().len() - self.pos(), 36int,
    {
        proof {
            crate::token::lemma_view_tokens_len(self.tokens@);
            reveal(spec_parse_statement_if);
        }
        self.advance();
        if !self.match_token(&Token::LeftParenthesis) {
            return Err(perr("Expected '(' after if."));
        }
        let cond = match self.parse_expression() {
            Ok(e) => e,
            Err(pe) => {
                return Err(pe);
            },
        };
        if !self.match_token(&Token::RightParenthesis) {
            return Err(perr("Expected ')' after if condition."));
        }
        let then_branch = match self.parse_statement() {
            Ok(s) => s,
            Err(pe) => {
                return Err(pe);
            },
        };
        if self.match_token(&Token::Else) {
            let else_branch = match self.parse_statement() {
                Ok(s) => s,
                Err(pe) => {
                    return Err(pe);
                },
            };
            Ok(
                Stmt::If(
                    Box::new(cond),
                    Box::new(then_branch),
                    Some(Box::new(else_branch)),
                ),
            )
        } else {
            Ok(Stmt::If(Box::new(cond), Box::new(then_branch), None))
        }
    }

    /// Parses a `while` statement.
    #[verifier::rlimit(100)]
    #[verifier::spinoff_prover]
    pub fn parse_statement_while(&mut self) -> (r: Result<Stmt, ParseError>)
        requires
            old(self).wf(),
            old(self).pos() < old(self).toks().len(),
        ensures
            final(self).wf(),
            final(self).toks() == old(self).toks(),
            match r {
                Ok(s) => {
                    &&& spec_parse_statement_while(
                        old(self).toks(),
                        old(self).pos(),
                        old(self).pid(),
                    ) == parsed_stmt_ok(s@, final(self).pos(), final(self).pid())
                    &&& old(self).pos() < final(self).pos() <= final(self).toks().len()
                    &&& old(self).pid() <= final(self).pid()
                    &&& final(self).pid() - old(self).pid() <= final(self).pos() - old(self).pos()
                },
                Err(pe) => spec_parse_statement_while(
                    old(self).toks(),
                    old(self).pos(),
                    old(self).pid(),
                ) == parsed_stmt_err(pe@),
            },
        decreases self.toks().len() - self.pos(), 36int,
    {
        proof {
            crate::token::lemma_view_tokens_len(self.tokens@);
            reveal(spec_parse_statement_while);
        }
        self.advance();
        if !self.match_token(&Token::LeftParenthesis) {
            return Err(perr("Expected '(' after while."));
        }
        let cond = match self.parse_expression() {
            Ok(e) => e,
            Err(pe) => {
                return Err(pe);
            },
        };
        if !self.match_token(&Token::RightParenthesis) {
            return Err(perr("Expected ')' after while condition."));
        }
        let body = match self.parse_statement() {
            Ok(s) => s,
            Err(pe) => {
                return Err(pe);
            },
        };
        Ok(Stmt::While(Box::new(cond), Box::new(body)))
    }

    /// Parses a comma-separated parameter-name list, stopping before `)`.
    #[verifier::rlimit(100)]
    #[verifier::spinoff_prover]
    fn parse_function_params(&mut self) -> (r: Result<Vec<String>, ParseError>)
        requires
            old(self).wf(),
        ensures
            final(self).wf(),
            final(self).toks() == old(self).toks(),
            final(self).pid() == old(self).pid(),
            match r {
                Ok(names) => {
                    &&& spec_parse_params(old(self).toks(), old(self).pos()) == Ok::<
                        (Seq<Seq<char>>, nat),
                        Seq<char>,
                    >((view_strings(names@), final(self).pos()))
                    &&& old(self).pos() <= final(self).pos() <= final(self).toks().len()
                },
                Err(pe) => spec_parse_params(old(self).toks(), old(self).pos()) == Err::<
                    (Seq<Seq<char>>, nat),
                    Seq<char>,
                >(pe@),
            },
        decreases self.toks().len() - self.pos(), 0int,
    {
        proof {
            crate::token::lemma_view_tokens_len(self.tokens@);
            reveal(spec_parse_params);
        }
        if self.is_at_end() || self.check(&Token::RightParenthesis) {
            let out: Vec<String> = Vec::new();
            proof {
                assert(view_strings(out@) =~= Seq::<Seq<char>>::empty());
            }
            return Ok(out);
        }
        let tok = self.tokens[self.current].clone();
        let ghost tv = tok@;
        proof {
            crate::token::lemma_view_tokens_len(self.tokens@);
            assert(tv == old(self).toks()[old(self).pos() as int]);
        }
        match tok {
            Token::Identifier(name) => {
                proof {
                    assert(tv is Identifier && tv->Identifier_0 == name@);
                }
                self.advance();
                if self.match_token(&Token::Comma) {
                    let rest = match self.parse_function_params() {
                        Ok(v) => v,
                        Err(pe) => {
                            return Err(pe);
                        },
                    };
                    Ok(prepend_string(name, rest))
                } else {
                    let mut out: Vec<String> = Vec::new();
                    out.push(name);
                    proof {
                        assert(view_strings(out@) =~= seq![out@[0]@]);
                    }
                    Ok(out)
                }
            },
            _ => {
                proof {
                    assert(!(tv is Identifier));
                }
                Err(perr("Expected identifier in function arguments."))
            },
        }
    }

    /// Parses a function declaration; the body becomes a one-statement block
    /// so that a call pushes a dedicated scope frame.
    #[verifier::rlimit(100)]
    #[verifier::spinoff_prover]
    pub fn parse_statement_function_declaration(&mut self) -> (r: Result<Stmt, ParseError>)
        requires
            old(self).wf(),
            old(self).pos() < old(self).toks().len(),
        ensures
            final(self).wf(),
            final(self).toks() == old(self).toks(),
            match r {
                Ok(s) => {
                    &&& spec_parse_statement_fun(
                        old(self).toks(),
                        old(self).pos(),
                        old(self).pid(),
                    ) == parsed_stmt_ok(s@, final(self).pos(), final(self).pid())
                    &&& old(self).pos() < final(self).pos() <= final(self).toks().len()
                    &&& old(self).pid() <= final(self).pid()
                    &&& final(self).pid() - old(self).pid() <= final(self).pos() - old(self).pos()
                },
                Err(pe) => spec_parse_statement_fun(
                    old(self).toks(),
                    old(self).pos(),
                    old(self).pid(),
                ) == parsed_stmt_err(pe@),
            },
        decreases self.toks().len() - self.pos(), 36int,
    {
        proof {
            crate::token::lemma_view_tokens_len(self.tokens@);
            reveal(spec_parse_statement_fun);
        }
        self.advance();
        proof {
            crate::token::lemma_view_tokens_len(self.tokens@);
        }
        if self.current >= self.tokens.len() {
            return Err(perr("Expected identifier after fun."));
        }
        let tok = self.tokens[self.current].clone();
        let ghost tv = tok@;
        proof {
            crate::token::lemma_view_tokens_len(self.tokens@);
            assert(tv == old(self).toks()[old(self).pos() as int + 1]);
        }
        let name = match tok {
            Token::Identifier(name) => {
                proof {
                    assert(tv is Identifier && tv->Identifier_0 == name@);
                }
                name
            },
            _ => {
                proof {
                    assert(!(tv is Identifier));
                }
                return Err(perr("Expected identifier after fun."));
            },
        };
        self.advance();
        if !self.match_token(&Token::LeftParenthesis) {
            return Err(perr("Expected '(' after function name."));
        }
        let params = match self.parse_function_params() {
            Ok(v) => v,
            Err(pe) => {
                return Err(pe);
            },
        };
        if !self.match_token(&Token::RightParenthesis) {
            return Err(perr("Expected ')' after function arguments."));
        }
        let body = match self.parse_statement() {
            Ok(s) => s,
            Err(pe) => {
                return Err(pe);
            },
        };
        let ghost nv = name@;
        let ghost pv = view_strings(params@);
        let ghost bv = body@;
        let mut block: Vec<Stmt> = Vec::new();
        block.push(body);
        proof {
            assert(block@ =~= seq![block@[0]]);
            assert(block@.subrange(1, 1) =~= Seq::<Stmt>::empty());
            assert(view_stmts(Seq::<Stmt>::empty()) == Seq::<StmtView>::empty());
            assert(view_stmts(block@) == seq![block@[0].shape()] + view_stmts(
                block@.subrange(1, 1),
            ));
            assert(view_stmts(block@) =~= seq![bv]);
        }
        let inner = Stmt::Block(block);
        let ghost iv = inner@;
        proof {
            assert(iv == StmtView::Block(seq![bv]));
        }
        let result = Stmt::FunctionDeclaration(name, params, Box::new(inner));
        proof {
            assert(result@ == StmtView::FunctionDeclaration(nv, pv, Box::new(iv)));
            assert(result@ == StmtView::FunctionDeclaration(
                nv,
                pv,
                Box::new(StmtView::Block(seq![bv])),
            ));
            assert(old(self).toks()[old(self).pos() as int + 1] is Identifier);
            assert(old(self).toks()[old(self).pos() as int + 2] is LeftParenthesis);
            assert(spec_parse_statement_fun(old(self).toks(), old(self).pos(), old(self).pid())
                == parsed_stmt_ok(result@, self.pos(), self.pid()));
        }
        Ok(result)
    }

    /// Parses the statements of a block up to and through its closing `}`.
    #[verifier::rlimit(100)]
    #[verifier::spinoff_prover]
    fn parse_block_rest(&mut self) -> (r: Result<Vec<Stmt>, ParseError>)
        requires
            old(self).wf(),
        ensures
            final(self).wf(),
            final(self).toks() == old(self).toks(),
            match r {
                Ok(stmts) => {
                    &&& spec_parse_block_rest(old(self).toks(), old(self).pos(), old(self).pid())
                        == Ok::<(Seq<StmtView>, nat, nat), Seq<char>>(
                        (view_stmts(stmts@), final(self).pos(), final(self).pid()),
                    )
                    &&& old(self).pos() < final(self).pos() <= final(self).toks().len()
                    &&& old(self).pid() <= final(self).pid()
                    &&& final(self).pid() - old(self).pid() <= final(self).pos() - old(self).pos()
                },
                Err(pe) => spec_parse_block_rest(old(self).toks(), old(self).pos(), old(self).pid())
                    == Err::<(Seq<StmtView>, nat, nat), Seq<char>>(pe@),
            },
        decreases self.toks().len() - self.pos(), 39int,
    {
        proof {
            crate::token::lemma_view_tokens_len(self.tokens@);
            reveal(spec_parse_block_rest);
        }
        if self.is_at_end() || self.check(&Token::RightBrace) {
            if self.match_token(&Token::RightBrace) {
                let out: Vec<Stmt> = Vec::new();
                proof {
                    assert(view_stmts(out@) =~= Seq::<StmtView>::empty());
                }
                Ok(out)
            } else {
                Err(perr("Expected '}' after block."))
            }
        } else {
            let s = match self.parse_statement() {
                Ok(s) => s,
                Err(pe) => {
                    return Err(pe);
                },
            };
            let rest = match self.parse_block_rest() {
                Ok(v) => v,
                Err(pe) => {
                    return Err(pe);
                },
            };
            Ok(prepend_stmt(s, rest))
        }
    }

    /// Parses a block statement.
    #[verifier::rlimit(100)]
    #[verifier::spinoff_prover]
    pub fn parse_statement_block(&mut self) -> (r: Result<Stmt, ParseError>)
        requires
            old(self).wf(),
            old(self).pos() < old(self).toks().len(),
        ensures
            final(self).wf(),
            final(self).toks() == old(self).toks(),
            match r {
                Ok(s) => {
                    &&& spec_parse_statement_block(
                        old(self).toks(),
                        old(self).pos(),
                        old(self).pid(),
                    ) == parsed_stmt_ok(s@, final(self).pos(), final(self).pid())
                    &&& old(self).pos() < final(self).pos() <= final(self).toks().len()
                    &&& old(self).pid() <= final(self).pid()
                    &&& final(self).pid() - old(self).pid() <= final(self).pos() - old(self).pos()
                },
                Err(pe) => spec_parse_statement_block(
                    old(self).toks(),
                    old(self).pos(),
                    old(self).pid(),
                ) == parsed_stmt_err(pe@),
            },
        decreases self.toks().len() - self.pos(), 36int,
    {
        proof {
            crate::token::lemma_view_tokens_len(self.tokens@);
            reveal(spec_parse_statement_block);
        }
        self.advance();
        let stmts = match self.parse_block_rest() {
            Ok(v) => v,
            Err(pe) => {
                return Err(pe);
            },
        };
        Ok(Stmt::Block(stmts))
    }

    /// Parses one statement, dispatching on its first token.
    #[verifier::rlimit(100)]
    #[verifier::spinoff_prover]
    pub fn parse_statement(&mut self) -> (r: Result<Stmt, ParseError>)
        requires
            old(self).wf(),
        ensures
            final(self).wf(),
            final(self).toks() == old(self).toks(),
            match r {
                Ok(s) => {
                    &&& spec_parse_statement(old(self).toks(), old(self).pos(), old(self).pid())
                        == parsed_stmt_ok(s@, final(self).pos(), final(self).pid())
                    &&& old(self).pos() < final(self).pos() <= final(self).toks().len()
                    &&& old(self).pid() <= final(self).pid()
                    &&& final(self).pid() - old(self).pid() <= final(self).pos() - old(self).pos()
                },
                Err(pe) => spec_parse_statement(old(self).toks(), old(self).pos(), old(self).pid())
                    == parsed_stmt_err(pe@),
            },
        decreases self.toks().len() - self.pos(), 38int,
    {
        proof {
            crate::token::lemma_view_tokens_len(self.tokens@);
            reveal(spec_parse_statement);
        }
        if self.current >= self.tokens.len() {
            return Err(perr("Unexpected end of input."));
        }
        if self.check(&Token::Print) {
            self.parse_statement_print()
        } else if self.check(&Token::Var) {
            self.parse_statement_var_declaration()
        } else if self.check(&Token::LeftBrace) {
            self.parse_statement_block()
        } else if self.check(&Token::If) {
            self.parse_statement_if()
        } else if self.check(&Token::While) {
            self.parse_statement_while()
        } else if self.check(&Token::Fun) {
            self.parse_statement_function_declaration()
        } else {
            self.parse_statement_expression()
        }
    }

    /// Parses statements until the end of input.
    #[verifier::rlimit(100)]
    #[verifier::spinoff_prover]
    fn parse_program_rest(&mut self) -> (r: Result<Vec<Stmt>, ParseError>)
        requires
            old(self).wf(),
        ensures
            final(self).wf(),
            final(self).toks() == old(self).toks(),
            match r {
                Ok(stmts) => {
                    &&& spec_parse_program(old(self).toks(), old(self).pos(), old(self).pid())
                        == Ok::<(Seq<StmtView>, nat, nat), Seq<char>>(
                        (view_stmts(stmts@), final(self).pos(), final(self).pid()),
                    )
                    &&& old(self).pos() <= final(self).pos() <= final(self).toks().len()
                    &&& old(self).pid() <= final(self).pid()
                    &&& final(self).pid() - old(self).pid() <= final(self).pos() - old(self).pos()
                },
                Err(pe) => spec_parse_program(old(self).toks(), old(self).pos(), old(self).pid())
                    == Err::<(Seq<StmtView>, nat, nat), Seq<char>>(pe@),
            },
        decreases self.toks().len() - self.pos(), 40int,
    {
        proof {
            crate::token::lemma_view_tokens_len(self.tokens@);
            reveal(spec_parse_program);
        }
        if self.is_at_end() {
            let out: Vec<Stmt> = Vec::new();
            proof {
                assert(view_stmts(out@) =~= Seq::<StmtView>::empty());
            }
            return Ok(out);
        }
        let s = match self.parse_statement() {
            Ok(s) => s,
            Err(pe) => {
                return Err(pe);
            },
        };
        let rest = match self.parse_program_rest() {
            Ok(v) => v,
            Err(pe) => {
                return Err(pe);
            },
        };
        Ok(prepend_stmt(s, rest))
    }

    /// Parses the whole token sequence into its list of statements; the
    /// first parse error aborts parsing.
    pub fn parse(&mut self) -> (r: Result<Vec<Stmt>, ParseError>)
        requires
            old(self).wf(),
        ensures
            final(self).wf(),
            final(self).toks() == old(self).toks(),
            match r {
                Ok(stmts) => spec_parse_program(old(self).toks(), old(self).pos(), old(self).pid())
                    == Ok::<(Seq<StmtView>, nat, nat), Seq<char>>(
                    (view_stmts(stmts@), final(self).pos(), final(self).pid()),
                ),
                Err(pe) => spec_parse_program(old(self).toks(), old(self).pos(), old(self).pid())
                    == Err::<(Seq<StmtView>, nat, nat), Seq<char>>(pe@),
            },
    {
        self.parse_program_rest()
    }
}

} // verus!
