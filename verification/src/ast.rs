//! The abstract syntax tree consumed by the type checker.

use vstd::prelude::*;

verus! {

/// One node of the tree. Each node owns its children exclusively.
#[derive(Debug, PartialEq)]
pub enum Expr {
    /// An ordered sequence of statements.
    Block(Vec<ExprWrapper>),
    /// Name, parameters as (name, declared type) pairs, declared return
    /// type, body.
    FnDecl(String, Vec<(String, String)>, Option<String>, Box<ExprWrapper>),
    /// Operator, left operand, right operand.
    InfixOp(String, Box<ExprWrapper>, Box<ExprWrapper>),
    /// Constness, name, optional declared type, initializer.
    VarDecl(bool, String, Option<String>, Box<ExprWrapper>),
    /// Condition, body.
    WhileLoop(Box<ExprWrapper>, Box<ExprWrapper>),
    /// Name and arguments.
    FnCall(String, Vec<ExprWrapper>),
    /// A literal, carried as the type name of its value.
    Literal(String),
    /// A return, with or without a value.
    Return(Option<Box<ExprWrapper>>),
    /// Nothing.
    NoOp,
}

/// The wrapper the parser puts around every node.
#[derive(Debug, PartialEq)]
pub struct ExprWrapper {
    pub expr: Expr,
}

/// The mathematical shape of a tree node: strings as character sequences.
pub enum ExprV {
    Block(Seq<ExprV>),
    FnDecl(Seq<char>, Seq<(Seq<char>, Seq<char>)>, Option<Seq<char>>, Box<ExprV>),
    InfixOp(Seq<char>, Box<ExprV>, Box<ExprV>),
    VarDecl(bool, Seq<char>, Option<Seq<char>>, Box<ExprV>),
    WhileLoop(Box<ExprV>, Box<ExprV>),
    FnCall(Seq<char>, Seq<ExprV>),
    Literal(Seq<char>),
    Return(Option<Box<ExprV>>),
    NoOp,
}

/// An optional type name, viewed.
pub open spec fn opt_str_view(o: Option<String>) -> Option<Seq<char>> {
    match o {
        Some(s) => Some(s@),
        None => None,
    }
}

/// A parameter list, viewed.
pub open spec fn params_view(a: Seq<(String, String)>) -> Seq<(Seq<char>, Seq<char>)> {
    Seq::new(a.len(), |i: int| (a[i].0@, a[i].1@))
}

/// An ordered sequence of nodes, viewed.
pub open spec fn wrappers_view(v: Seq<ExprWrapper>) -> Seq<ExprV>
    decreases v,
{
    Seq::new(
        v.len(),
        |i: int|
            if 0 <= i < v.len() {
                view_expr(v[i].expr)
            } else {
                ExprV::NoOp
            },
    )
}

/// The shape of a node.
pub open spec fn view_expr(e: Expr) -> ExprV
    decreases e,
{
    match e {
        Expr::Block(v) => ExprV::Block(wrappers_view(v@)),
        Expr::FnDecl(name, args, ret, body) => ExprV::FnDecl(
            name@,
            params_view(args@),
            opt_str_view(ret),
            Box::new(view_expr(body.expr)),
        ),
        Expr::InfixOp(op, l, r) => ExprV::InfixOp(
            op@,
            Box::new(view_expr(l.expr)),
            Box::new(view_expr(r.expr)),
        ),
        Expr::VarDecl(c, name, ty, init) => ExprV::VarDecl(
            c,
            name@,
            opt_str_view(ty),
            Box::new(view_expr(init.expr)),
        ),
        Expr::WhileLoop(cond, body) => ExprV::WhileLoop(
            Box::new(view_expr(cond.expr)),
            Box::new(view_expr(body.expr)),
        ),
        Expr::FnCall(name, args) => ExprV::FnCall(name@, wrappers_view(args@)),
        Expr::Literal(t) => ExprV::Literal(t@),
        Expr::Return(o) => ExprV::Return(
            match o {
                Some(b) => Some(Box::new(view_expr(b.expr))),
                None => None,
            },
        ),
        Expr::NoOp => ExprV::NoOp,
    }
}

impl View for ExprWrapper {
    type V = ExprV;

    open spec fn view(&self) -> ExprV {
        view_expr(self.expr)
    }
}

} // verus!
