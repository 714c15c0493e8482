//! The type checker: a depth-first walk that threads inferred and declared
//! types through the tree, filling an omitted declared type in from its
//! initializer.
//!
//! The walk is modelled by `spec_check`, a function from a node to the
//! inferred type (or the error that stops the walk) and the node after its
//! back-fill. `analyze` is proved to follow that model exactly.

use vstd::prelude::*;
use vstd::string::StringExecFns;

use crate::ast::Expr;
use crate::ast::ExprV;
use crate::ast::ExprWrapper;
use crate::ast::opt_str_view;
use crate::ast::wrappers_view;
use crate::tokens::Types;
use crate::tokens::spec_parse_type;

verus! {

/// The kind of a type-checking failure.
#[derive(Debug, PartialEq, Eq, Clone, Copy, Structural)]
pub enum TypeError {
    /// Two types that must agree do not: a declared type against an
    /// inferred one, a declared return type against a body, or the two
    /// operands of an infix operator (a builtin never unifies with a
    /// user-defined name).
    Mismatch,
    /// Two user-defined type names met: this layer has no declaration
    /// table to resolve them against.
    UnresolvedCustomTypes,
    /// A loop condition whose type is not the boolean type.
    NonBoolCondition,
    /// A node that must carry a type reported none.
    MissingType,
}

/// How an executable checking result reads as the model's.
pub open spec fn ty_res_view(r: Result<Option<String>, TypeError>) -> Result<
    Option<Seq<char>>,
    TypeError,
> {
    match r {
        Ok(t) => Ok(opt_str_view(t)),
        Err(k) => Err(k),
    }
}

/// The type-equality rule: both names resolve as builtins and must then be
/// the same; two user-defined names cannot be resolved at this layer; a
/// builtin never unifies with a user-defined name.
pub open spec fn spec_cmp(lhs: Seq<char>, rhs: Seq<char>) -> Result<
    Option<Seq<char>>,
    TypeError,
> {
    match (spec_parse_type(lhs), spec_parse_type(rhs)) {
        (Some(l), Some(r)) => if l != r {
            Err(TypeError::Mismatch)
        } else {
            Ok(Some(lhs))
        },
        (None, None) => Err(TypeError::UnresolvedCustomTypes),
        _ => Err(TypeError::Mismatch),
    }
}

/// The walk: the type a node reports — or the error that stops the walk —
/// and the node after its back-fill.
pub open spec fn spec_check(e: ExprV) -> (Result<Option<Seq<char>>, TypeError>, ExprV)
    decreases e,
{
    match e {
        ExprV::Block(v) => {
            let walked = spec_check_seq(v);
            (
                match walked.0 {
                    Ok(_) => Ok(None),
                    Err(k) => Err(k),
                },
                ExprV::Block(walked.1),
            )
        },
        ExprV::FnDecl(name, args, ret, body) => {
            let b = spec_check(*body);
            let filled = ExprV::FnDecl(name, args, ret, Box::new(b.1));
            match b.0 {
                Err(k) => (Err(k), filled),
                Ok(t) => if t == ret {
                    (Ok(ret), filled)
                } else {
                    (Err(TypeError::Mismatch), filled)
                },
            }
        },
        ExprV::InfixOp(op, l, r) => {
            let lc = spec_check(*l);
            match lc.0 {
                Err(k) => (Err(k), ExprV::InfixOp(op, Box::new(lc.1), r)),
                Ok(None) => (Err(TypeError::MissingType), ExprV::InfixOp(op, Box::new(lc.1), r)),
                Ok(Some(lt)) => {
                    let rc = spec_check(*r);
                    let filled = ExprV::InfixOp(op, Box::new(lc.1), Box::new(rc.1));
                    match rc.0 {
                        Err(k) => (Err(k), filled),
                        Ok(None) => (Err(TypeError::MissingType), filled),
                        Ok(Some(rt)) => (spec_cmp(lt, rt), filled),
                    }
                },
            }
        },
        ExprV::VarDecl(c, name, ty, init) => {
            let ic = spec_check(*init);
            match ic.0 {
                Err(k) => (Err(k), ExprV::VarDecl(c, name, ty, Box::new(ic.1))),
                Ok(None) => (
                    Err(TypeError::MissingType),
                    ExprV::VarDecl(c, name, ty, Box::new(ic.1)),
                ),
                Ok(Some(rt)) => match ty {
                    Some(lt) => (spec_cmp(lt, rt), ExprV::VarDecl(c, name, ty, Box::new(ic.1))),
                    None => (Ok(None), ExprV::VarDecl(c, name, Some(rt), Box::new(ic.1))),
                },
            }
        },
        ExprV::WhileLoop(cond, body) => {
            let cc = spec_check(*cond);
            match cc.0 {
                Err(k) => (Err(k), ExprV::WhileLoop(Box::new(cc.1), body)),
                Ok(None) => (
                    Err(TypeError::MissingType),
                    ExprV::WhileLoop(Box::new(cc.1), body),
                ),
                Ok(Some(ct)) => if spec_parse_type(ct) == Some(Types::Bool) {
                    let bc = spec_check(*body);
                    (bc.0, ExprV::WhileLoop(Box::new(cc.1), Box::new(bc.1)))
                } else {
                    (Err(TypeError::NonBoolCondition), ExprV::WhileLoop(Box::new(cc.1), body))
                },
            }
        },
        ExprV::FnCall(name, args) => (Ok(None), ExprV::FnCall(name, args)),
        ExprV::Literal(t) => (Ok(Some(t)), ExprV::Literal(t)),
        ExprV::Return(o) => match o {
            Some(b) => {
                let rc = spec_check(*b);
                (rc.0, ExprV::Return(Some(Box::new(rc.1))))
            },
            None => (Ok(Some("None"@)), ExprV::Return(None)),
        },
        ExprV::NoOp => (Ok(None), ExprV::NoOp),
    }
}

/// The walk over an ordered sequence of nodes, stopping at the first
/// error: nodes after it stay untouched.
pub open spec fn spec_check_seq(v: Seq<ExprV>) -> (Result<(), TypeError>, Seq<ExprV>)
    decreases v,
{
    if v.len() == 0 {
        (Ok(()), v)
    } else {
        let first = spec_check(v[0]);
        match first.0 {
            Err(k) => (Err(k), seq![first.1] + v.skip(1)),
            Ok(_) => {
                let rest = spec_check_seq(v.skip(1));
                (rest.0, seq![first.1] + rest.1)
            },
        }
    }
}

/// The skeletal type checker.
pub struct TypeChecker;

impl TypeChecker {
    /// Create a type checker.
    pub fn new() -> TypeChecker {
        TypeChecker
    }

    /// The type-equality rule on two type names.
    fn cmp_lhs_rhs(lhs_str: String, rhs_str: String) -> (r: Result<Option<String>, TypeError>)
        ensures
            ty_res_view(r) == spec_cmp(lhs_str@, rhs_str@),
    {
        match (Types::lookup(&lhs_str), Types::lookup(&rhs_str)) {
            (Some(lhs_type), Some(rhs_type)) => {
                if lhs_type != rhs_type {
                    Err(TypeError::Mismatch)
                } else {
                    Ok(Some(lhs_str))
                }
            },
            (None, None) => Err(TypeError::UnresolvedCustomTypes),
            _ => Err(TypeError::Mismatch),
        }
    }

    /// The walk itself, owning the node and handing back its filled form.
    fn check_wrapper(w: ExprWrapper) -> (res: (ExprWrapper, Result<Option<String>, TypeError>))
        ensures
            res.0@ == spec_check(w@).1,
            ty_res_view(res.1) == spec_check(w@).0,
        decreases w,
    {
        match w.expr {
            Expr::Block(v) => {
                let mut rem = v;
                let mut out: Vec<ExprWrapper> = Vec::new();
                let mut err: Option<TypeError> = None;
                let ghost whole = wrappers_view(rem@);
                proof {
                    assert forall|i: int| 0 <= i < rem@.len() implies (decreases_to!(w => rem@[i])) by {
                        assert(decreases_to!(w => w.expr));
                        assert(decreases_to!(w.expr => rem));
                        assert(decreases_to!(rem => rem@));
                        assert(decreases_to!(rem@ => rem@[i]));
                    }
                }
                loop
                    invariant
                        forall|i: int| 0 <= i < rem@.len() ==> (decreases_to!(w => #[trigger] rem@[i])),
                        err is None ==> {
                            &&& spec_check_seq(whole).0 == spec_check_seq(wrappers_view(rem@)).0
                            &&& spec_check_seq(whole).1 == wrappers_view(out@) + spec_check_seq(
                                wrappers_view(rem@),
                            ).1
                        },
                        err matches Some(k) ==> {
                            &&& spec_check_seq(whole).0 == Err::<(), TypeError>(k)
                            &&& spec_check_seq(whole).1 == wrappers_view(out@) + wrappers_view(
                                rem@,
                            )
                        },
                    ensures
                        rem@.len() == 0,
                        err is None ==> {
                            &&& spec_check_seq(whole).0 == Ok::<(), TypeError>(())
                            &&& spec_check_seq(whole).1 == wrappers_view(out@)
                        },
                        err matches Some(k) ==> {
                            &&& spec_check_seq(whole).0 == Err::<(), TypeError>(k)
                            &&& spec_check_seq(whole).1 == wrappers_view(out@)
                        },
                    decreases rem@.len(),
                {
                    if rem.len() == 0 {
                        proof {
                            assert(wrappers_view(rem@) =~= Seq::<ExprV>::empty());
                            assert(wrappers_view(out@) + Seq::<ExprV>::empty() =~= wrappers_view(
                                out@,
                            ));
                        }
                        break ;
                    }
                    let ghost rem0 = rem@;
                    let x = rem.remove(0);
                    proof {
                        assert(wrappers_view(rem0).len() > 0);
                        assert(wrappers_view(rem0)[0] == x@);
                        assert(wrappers_view(rem0).skip(1) =~= wrappers_view(rem@));
                    }
                    match err {
                        None => {
                            let (x2, r) = Self::check_wrapper(x);
                            proof {
                                assert(wrappers_view(out@.push(x2)) =~= wrappers_view(
                                    out@,
                                ).push(x2@));
                            }
                            out.push(x2);
                            if let Err(k) = r {
                                err = Some(k);
                            }
                        },
                        Some(_) => {
                            proof {
                                assert(wrappers_view(out@.push(x)) =~= wrappers_view(out@).push(
                                    x@,
                                ));
                            }
                            out.push(x);
                        },
                    }
                }
                let tree = ExprWrapper { expr: Expr::Block(out) };
                match err {
                    None => (tree, Ok(None)),
                    Some(k) => (tree, Err(k)),
                }
            },
            Expr::FnDecl(name, args, ret, body) => {
                let (b2, r) = Self::check_wrapper(*body);
                let rr: Result<Option<String>, TypeError> = match r {
                    Err(k) => Err(k),
                    Ok(t) => {
                        if Self::opt_str_eq(&t, &ret) {
                            Ok(Self::opt_str_copy(&ret))
                        } else {
                            Err(TypeError::Mismatch)
                        }
                    },
                };
                (ExprWrapper { expr: Expr::FnDecl(name, args, ret, Box::new(b2)) }, rr)
            },
            Expr::InfixOp(op, l, r) => {
                let (l2, lr) = Self::check_wrapper(*l);
                match lr {
                    Err(k) => (ExprWrapper { expr: Expr::InfixOp(op, Box::new(l2), r) }, Err(k)),
                    Ok(None) => (
                        ExprWrapper { expr: Expr::InfixOp(op, Box::new(l2), r) },
                        Err(TypeError::MissingType),
                    ),
                    Ok(Some(lt)) => {
                        let (r2, rr) = Self::check_wrapper(*r);
                        let tree = ExprWrapper {
                            expr: Expr::InfixOp(op, Box::new(l2), Box::new(r2)),
                        };
                        match rr {
                            Err(k) => (tree, Err(k)),
                            Ok(None) => (tree, Err(TypeError::MissingType)),
                            Ok(Some(rt)) => {
                                let res = Self::cmp_lhs_rhs(lt, rt);
                                (tree, res)
                            },
                        }
                    },
                }
            },
            Expr::VarDecl(constness, name, opt_type, init) => {
                let (i2, ir) = Self::check_wrapper(*init);
                match ir {
                    Err(k) => (
                        ExprWrapper { expr: Expr::VarDecl(constness, name, opt_type, Box::new(i2)) },
                        Err(k),
                    ),
                    Ok(None) => (
                        ExprWrapper { expr: Expr::VarDecl(constness, name, opt_type, Box::new(i2)) },
                        Err(TypeError::MissingType),
                    ),
                    Ok(Some(rhs_type)) => match opt_type {
                        Some(lhs_type) => {
                            let res = Self::cmp_lhs_rhs(lhs_type.clone(), rhs_type);
                            (
                                ExprWrapper {
                                    expr: Expr::VarDecl(
                                        constness,
                                        name,
                                        Some(lhs_type),
                                        Box::new(i2),
                                    ),
                                },
                                res,
                            )
                        },
                        None => (
                            ExprWrapper {
                                expr: Expr::VarDecl(constness, name, Some(rhs_type), Box::new(i2)),
                            },
                            Ok(None),
                        ),
                    },
                }
            },
            Expr::WhileLoop(cond, body) => {
                let (c2, cr) = Self::check_wrapper(*cond);
                match cr {
                    Err(k) => (
                        ExprWrapper { expr: Expr::WhileLoop(Box::new(c2), body) },
                        Err(k),
                    ),
                    Ok(None) => (
                        ExprWrapper { expr: Expr::WhileLoop(Box::new(c2), body) },
                        Err(TypeError::MissingType),
                    ),
                    Ok(Some(cond_type)) => {
                        let is_bool = match Types::lookup(&cond_type) {
                            Some(t) => t == Types::Bool,
                            None => false,
                        };
                        if is_bool {
                            let (b2, br) = Self::check_wrapper(*body);
                            (
                                ExprWrapper {
                                    expr: Expr::WhileLoop(Box::new(c2), Box::new(b2)),
                                },
                                br,
                            )
                        } else {
                            (
                                ExprWrapper { expr: Expr::WhileLoop(Box::new(c2), body) },
                                Err(TypeError::NonBoolCondition),
                            )
                        }
                    },
                }
            },
            Expr::FnCall(name, args) => (
                ExprWrapper { expr: Expr::FnCall(name, args) },
                Ok(None),
            ),
            Expr::Literal(literal) => {
                let t = literal.clone();
                (ExprWrapper { expr: Expr::Literal(literal) }, Ok(Some(t)))
            },
            Expr::Return(o) => match o {
                Some(b) => {
                    let (b2, r) = Self::check_wrapper(*b);
                    (ExprWrapper { expr: Expr::Return(Some(Box::new(b2))) }, r)
                },
                None => (
                    ExprWrapper { expr: Expr::Return(None) },
                    Ok(Some(String::from_str("None"))),
                ),
            },
            Expr::NoOp => (ExprWrapper { expr: Expr::NoOp }, Ok(None)),
        }
    }

    /// Equality of two optional type names.
    fn opt_str_eq(a: &Option<String>, b: &Option<String>) -> (r: bool)
        ensures
            r == (opt_str_view(*a) == opt_str_view(*b)),
    {
        match (a, b) {
            (Some(x), Some(y)) => {
                let eq = *x == *y;
                proof {
                    if x@ == y@ {
                        assert(opt_str_view(*a) == opt_str_view(*b));
                    }
                }
                eq
            },
            (None, None) => true,
            _ => false,
        }
    }

    /// A copy of an optional type name.
    fn opt_str_copy(a: &Option<String>) -> (r: Option<String>)
        ensures
            opt_str_view(r) == opt_str_view(*a),
    {
        match a {
            Some(x) => Some(x.clone()),
            None => None,
        }
    }

    /// Check one tree in place: report the root's inferred type, or the
    /// error that stopped the walk, and fill omitted declared types in as
    /// the walk reaches them.
    pub fn analyze(&mut self, ast_root: &mut ExprWrapper) -> (r: Result<Option<String>, TypeError>)
        ensures
            final(ast_root)@ == spec_check(old(ast_root)@).1,
            ty_res_view(r) == spec_check(old(ast_root)@).0,
    {
        let mut taken = ExprWrapper { expr: Expr::NoOp };
        core::mem::swap(ast_root, &mut taken);
        let (filled, r) = Self::check_wrapper(taken);
        let mut filled = filled;
        core::mem::swap(ast_root, &mut filled);
        r
    }
}


} // verus!
