//! Tests for the AST construction helpers and the parser's nesting budget.

use lua_front::ast::{Expr, ExprNode, IfThenElse, ParList, Span, StmtNode};
use lua_front::lex::Lex;
use lua_front::parse::{Error, Parser, SyntaxErrorKind};

#[test]
fn span_new_keeps_its_bounds() {
    let s = Span::new(3, 7);
    assert_eq!(s.start, 3);
    assert_eq!(s.end, 7);
}

#[test]
fn expr_node_new_wraps_expr_and_span() {
    let n = ExprNode::new(Expr::Integer(42), (1, 2));
    assert!(matches!(n.expr, Expr::Integer(42)));
    assert_eq!(n.span, Span::new(1, 2));
}

#[test]
fn par_list_builders() {
    let mut pl = ParList::new();
    assert!(pl.names.is_empty());
    assert!(!pl.varargs);
    pl.set_names(vec![b"a".to_vec(), b"b".to_vec()]);
    pl.set_vargs(true);
    assert_eq!(pl.names, vec![b"a".to_vec(), b"b".to_vec()]);
    assert!(pl.varargs);
}

#[test]
fn if_then_else_set_els_replaces_the_else_branch() {
    let cond = ExprNode::new(Expr::Bool(true), (1, 1));
    let mut ite = IfThenElse::new(cond, Vec::new(), Vec::new());
    assert!(ite.else_branch.is_empty());
    let els = vec![StmtNode::new(lua_front::ast::Stmt::Break, (2, 2))];
    ite.set_els(els);
    assert_eq!(ite.else_branch.len(), 1);
}

#[test]
fn nesting_beyond_the_budget_is_refused_not_crashed() {
    let mut src = String::from("x = ");
    for _ in 0..2000 {
        src.push('(');
    }
    src.push('1');
    for _ in 0..2000 {
        src.push(')');
    }
    let lex = Lex::new(src.into_bytes());
    let mut parser = Parser::new(lex).unwrap();
    match parser.parse() {
        Err(Error::SyntaxError(se)) => assert_eq!(se.kind, SyntaxErrorKind::TooDeep),
        other => panic!("expected the nesting budget to refuse this, got {:?}", other),
    }
}

#[test]
fn nesting_within_the_budget_parses() {
    let mut src = String::from("x = ");
    for _ in 0..50 {
        src.push('(');
    }
    src.push('1');
    for _ in 0..50 {
        src.push(')');
    }
    let lex = Lex::new(src.into_bytes());
    let mut parser = Parser::new(lex).unwrap();
    let stmts = parser.parse().unwrap();
    assert_eq!(stmts.len(), 1);
}
