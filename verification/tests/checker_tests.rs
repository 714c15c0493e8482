use limonite::ast::{Expr, ExprWrapper};
use limonite::checker::{TypeChecker, TypeError};

fn wrap(expr: Expr) -> ExprWrapper {
    ExprWrapper { expr }
}

fn lit(name: &str) -> Box<ExprWrapper> {
    Box::new(wrap(Expr::Literal(name.to_string())))
}

#[test]
fn test_var_decl_type_backfill() {
    let mut root = wrap(Expr::VarDecl(false, "x".to_string(), None, lit("i32")));
    let mut checker = TypeChecker::new();
    let result = checker.analyze(&mut root);
    assert_eq!(result, Ok(None));
    assert_eq!(
        root,
        wrap(Expr::VarDecl(
            false,
            "x".to_string(),
            Some("i32".to_string()),
            lit("i32"),
        ))
    );
}

#[test]
fn test_var_decl_type_mismatch() {
    let mut root = wrap(Expr::VarDecl(
        false,
        "x".to_string(),
        Some("str".to_string()),
        lit("i32"),
    ));
    let mut checker = TypeChecker::new();
    assert_eq!(checker.analyze(&mut root), Err(TypeError::Mismatch));
}

#[test]
fn test_var_decl_type_match() {
    let mut root = wrap(Expr::VarDecl(
        true,
        "x".to_string(),
        Some("u64".to_string()),
        lit("u64"),
    ));
    let mut checker = TypeChecker::new();
    assert_eq!(checker.analyze(&mut root), Ok(Some("u64".to_string())));
}

#[test]
fn test_infix_matching_operands() {
    let mut root = wrap(Expr::InfixOp("+".to_string(), lit("i32"), lit("i32")));
    let mut checker = TypeChecker::new();
    assert_eq!(checker.analyze(&mut root), Ok(Some("i32".to_string())));
}

#[test]
fn test_infix_mismatched_operands() {
    let mut root = wrap(Expr::InfixOp("+".to_string(), lit("i32"), lit("u32")));
    let mut checker = TypeChecker::new();
    assert_eq!(checker.analyze(&mut root), Err(TypeError::Mismatch));
}

#[test]
fn test_infix_custom_types() {
    let mut root = wrap(Expr::InfixOp("+".to_string(), lit("Obj"), lit("Obj")));
    let mut checker = TypeChecker::new();
    assert_eq!(
        checker.analyze(&mut root),
        Err(TypeError::UnresolvedCustomTypes)
    );
}

#[test]
fn test_infix_builtin_against_custom() {
    let mut root = wrap(Expr::InfixOp("+".to_string(), lit("i32"), lit("Obj")));
    let mut checker = TypeChecker::new();
    assert_eq!(checker.analyze(&mut root), Err(TypeError::Mismatch));
}

#[test]
fn test_infix_operand_without_type() {
    let operand = Box::new(wrap(Expr::NoOp));
    let mut root = wrap(Expr::InfixOp("+".to_string(), operand, lit("i32")));
    let mut checker = TypeChecker::new();
    assert_eq!(checker.analyze(&mut root), Err(TypeError::MissingType));
}

#[test]
fn test_while_loop_bool_condition() {
    let body = Box::new(wrap(Expr::Block(Vec::new())));
    let mut root = wrap(Expr::WhileLoop(lit("bool"), body));
    let mut checker = TypeChecker::new();
    assert_eq!(checker.analyze(&mut root), Ok(None));
}

#[test]
fn test_while_loop_reports_body_type() {
    let mut root = wrap(Expr::WhileLoop(lit("bool"), lit("i32")));
    let mut checker = TypeChecker::new();
    assert_eq!(checker.analyze(&mut root), Ok(Some("i32".to_string())));
}

#[test]
fn test_while_loop_non_bool_condition() {
    let body = Box::new(wrap(Expr::Block(Vec::new())));
    let mut root = wrap(Expr::WhileLoop(lit("i32"), body));
    let mut checker = TypeChecker::new();
    assert_eq!(checker.analyze(&mut root), Err(TypeError::NonBoolCondition));
}

#[test]
fn test_fn_decl_return_type_match() {
    let mut root = wrap(Expr::FnDecl(
        "foo".to_string(),
        Vec::new(),
        Some("i32".to_string()),
        lit("i32"),
    ));
    let mut checker = TypeChecker::new();
    assert_eq!(checker.analyze(&mut root), Ok(Some("i32".to_string())));
}

#[test]
fn test_fn_decl_return_type_mismatch() {
    let mut root = wrap(Expr::FnDecl(
        "foo".to_string(),
        Vec::new(),
        Some("u64".to_string()),
        lit("i32"),
    ));
    let mut checker = TypeChecker::new();
    assert_eq!(checker.analyze(&mut root), Err(TypeError::Mismatch));
}

#[test]
fn test_return_node() {
    let mut bare = wrap(Expr::Return(None));
    let mut checker = TypeChecker::new();
    assert_eq!(checker.analyze(&mut bare), Ok(Some("None".to_string())));

    let mut valued = wrap(Expr::Return(Some(lit("u32"))));
    assert_eq!(checker.analyze(&mut valued), Ok(Some("u32".to_string())));
}

#[test]
fn test_fn_call_and_noop_report_no_type() {
    let mut call = wrap(Expr::FnCall("foo".to_string(), Vec::new()));
    let mut checker = TypeChecker::new();
    assert_eq!(checker.analyze(&mut call), Ok(None));

    let mut noop = wrap(Expr::NoOp);
    assert_eq!(checker.analyze(&mut noop), Ok(None));
}

#[test]
fn test_block_walks_children_and_backfills() {
    let decl = wrap(Expr::VarDecl(false, "x".to_string(), None, lit("bool")));
    let mut root = wrap(Expr::Block(vec![decl, wrap(Expr::NoOp)]));
    let mut checker = TypeChecker::new();
    assert_eq!(checker.analyze(&mut root), Ok(None));
    let filled = wrap(Expr::VarDecl(
        false,
        "x".to_string(),
        Some("bool".to_string()),
        lit("bool"),
    ));
    assert_eq!(root, wrap(Expr::Block(vec![filled, wrap(Expr::NoOp)])));
}

#[test]
fn test_block_reports_first_error() {
    let bad = wrap(Expr::WhileLoop(
        lit("i32"),
        Box::new(wrap(Expr::Block(Vec::new()))),
    ));
    let mut root = wrap(Expr::Block(vec![wrap(Expr::NoOp), bad]));
    let mut checker = TypeChecker::new();
    assert_eq!(checker.analyze(&mut root), Err(TypeError::NonBoolCondition));
}
