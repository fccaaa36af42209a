//! Tests for the parser: statement forms, operator precedence and
//! associativity, span tracking, and fail-fast errors.

use lua_front::ast::{BinaryOpr, Expr, ExprNode, Stmt, StmtNode, UnaryOpr};
use lua_front::lex::{Lex, TokenKind};
use lua_front::parse::{Error, Parser, SyntaxErrorKind};

fn parse_source(src: &str) -> Result<Vec<StmtNode>, Error> {
    let lex = Lex::new(src.as_bytes().to_vec());
    let mut parser = Parser::new(lex)?;
    parser.parse()
}

fn parse_ok(src: &str) -> Vec<StmtNode> {
    parse_source(src).expect("expected a successful parse")
}

fn check_expr_spans(e: &ExprNode) {
    assert!(e.span.start <= e.span.end, "span {:?}", e.span);
    match &e.expr {
        Expr::UnaryOp(_, a) => check_expr_spans(a),
        Expr::BinaryOp(_, a, b) => {
            check_expr_spans(a);
            check_expr_spans(b);
        }
        Expr::FuncCall(f, args) => {
            check_expr_spans(f);
            for a in args {
                check_expr_spans(a);
            }
        }
        Expr::MethodCall(obj, _, args) => {
            check_expr_spans(obj);
            for a in args {
                check_expr_spans(a);
            }
        }
        Expr::AttrGet(obj, key) => {
            check_expr_spans(obj);
            check_expr_spans(key);
        }
        Expr::Table(fields) => {
            for f in fields {
                if let Some(k) = &f.key {
                    check_expr_spans(k);
                }
                check_expr_spans(&f.val);
            }
        }
        Expr::Function(_, body) => {
            for s in body {
                check_stmt_spans(s);
            }
        }
        _ => {}
    }
}

fn check_stmt_spans(s: &StmtNode) {
    assert!(s.span.start <= s.span.end, "span {:?}", s.span);
    match &s.stmt {
        Stmt::Return(es) => es.iter().for_each(check_expr_spans),
        Stmt::Assign(ts, vs) => {
            ts.iter().for_each(check_expr_spans);
            vs.iter().for_each(check_expr_spans);
        }
        Stmt::LocalAssign(_, vs) => vs.iter().for_each(check_expr_spans),
        Stmt::FuncCall(e) | Stmt::MethodCall(e) => check_expr_spans(e),
        Stmt::DoBlock(body) => body.iter().for_each(check_stmt_spans),
        Stmt::If(ite) => {
            check_expr_spans(&ite.cond);
            ite.then_branch.iter().for_each(check_stmt_spans);
            ite.else_branch.iter().for_each(check_stmt_spans);
        }
        Stmt::While(c, body) | Stmt::Repeat(c, body) => {
            check_expr_spans(c);
            body.iter().for_each(check_stmt_spans);
        }
        Stmt::NumberFor(nf) => {
            check_expr_spans(&nf.init);
            check_expr_spans(&nf.limit);
            check_expr_spans(&nf.step);
            nf.body.iter().for_each(check_stmt_spans);
        }
        Stmt::GenericFor(gf) => {
            gf.exprs.iter().for_each(check_expr_spans);
            gf.body.iter().for_each(check_stmt_spans);
        }
        Stmt::FuncDef(fd) => {
            check_expr_spans(&fd.name);
            check_expr_spans(&fd.body);
        }
        Stmt::MethodDef(md) => {
            check_expr_spans(&md.obj);
            check_expr_spans(&md.body);
        }
        Stmt::Break => {}
    }
}

#[test]
fn end_to_end_local_then_return() {
    let stmts = parse_ok("local x = 1\nreturn x");
    assert_eq!(stmts.len(), 2);
    match &stmts[0].stmt {
        Stmt::LocalAssign(names, values) => {
            assert_eq!(names.len(), 1);
            assert_eq!(names[0], b"x".to_vec());
            assert_eq!(values.len(), 1);
            assert!(matches!(values[0].expr, Expr::Integer(1)));
        }
        other => panic!("expected LocalAssign, got {:?}", other),
    }
    match &stmts[1].stmt {
        Stmt::Return(values) => {
            assert_eq!(values.len(), 1);
            match &values[0].expr {
                Expr::Ident(w) => assert_eq!(w, &b"x".to_vec()),
                other => panic!("expected Ident, got {:?}", other),
            }
        }
        other => panic!("expected Return, got {:?}", other),
    }
}

#[test]
fn call_statement_classification() {
    let stmts = parse_ok("foo(1, 2)");
    assert_eq!(stmts.len(), 1);
    match &stmts[0].stmt {
        Stmt::FuncCall(e) => match &e.expr {
            Expr::FuncCall(f, args) => {
                assert!(matches!(&f.expr, Expr::Ident(w) if w == &b"foo".to_vec()));
                assert_eq!(args.len(), 2);
                assert!(matches!(args[0].expr, Expr::Integer(1)));
                assert!(matches!(args[1].expr, Expr::Integer(2)));
            }
            other => panic!("expected FuncCall expr, got {:?}", other),
        },
        other => panic!("expected FuncCall stmt, got {:?}", other),
    }
}

#[test]
fn assign_statement_classification() {
    let stmts = parse_ok("x = 1");
    assert_eq!(stmts.len(), 1);
    match &stmts[0].stmt {
        Stmt::Assign(targets, values) => {
            assert_eq!(targets.len(), 1);
            assert_eq!(values.len(), 1);
            assert!(matches!(&targets[0].expr, Expr::Ident(w) if w == &b"x".to_vec()));
            assert!(matches!(values[0].expr, Expr::Integer(1)));
        }
        other => panic!("expected Assign, got {:?}", other),
    }
}

#[test]
fn concat_is_right_associative() {
    let stmts = parse_ok("x = a .. b .. c");
    match &stmts[0].stmt {
        Stmt::Assign(_, values) => match &values[0].expr {
            Expr::BinaryOp(BinaryOpr::Concat, left, right) => {
                assert!(matches!(&left.expr, Expr::Ident(w) if w == &b"a".to_vec()));
                match &right.expr {
                    Expr::BinaryOp(BinaryOpr::Concat, rl, rr) => {
                        assert!(matches!(&rl.expr, Expr::Ident(w) if w == &b"b".to_vec()));
                        assert!(matches!(&rr.expr, Expr::Ident(w) if w == &b"c".to_vec()));
                    }
                    other => panic!("expected nested Concat on the right, got {:?}", other),
                }
            }
            other => panic!("expected Concat, got {:?}", other),
        },
        other => panic!("expected Assign, got {:?}", other),
    }
}

#[test]
fn power_is_right_associative() {
    let stmts = parse_ok("x = 2 ^ 3 ^ 2");
    match &stmts[0].stmt {
        Stmt::Assign(_, values) => match &values[0].expr {
            Expr::BinaryOp(BinaryOpr::Pow, left, right) => {
                assert!(matches!(left.expr, Expr::Integer(2)));
                match &right.expr {
                    Expr::BinaryOp(BinaryOpr::Pow, rl, rr) => {
                        assert!(matches!(rl.expr, Expr::Integer(3)));
                        assert!(matches!(rr.expr, Expr::Integer(2)));
                    }
                    other => panic!("expected nested Pow on the right, got {:?}", other),
                }
            }
            other => panic!("expected Pow, got {:?}", other),
        },
        other => panic!("expected Assign, got {:?}", other),
    }
}

#[test]
fn precedence_add_binds_tighter_than_comparison_and_or() {
    // a + b < c or d  parses as  ((a + b) < c) or d
    let stmts = parse_ok("x = a + b < c or d");
    match &stmts[0].stmt {
        Stmt::Assign(_, values) => match &values[0].expr {
            Expr::BinaryOp(BinaryOpr::Or, left, _) => match &left.expr {
                Expr::BinaryOp(BinaryOpr::LT, ll, _) => {
                    assert!(matches!(ll.expr, Expr::BinaryOp(BinaryOpr::Add, _, _)));
                }
                other => panic!("expected LT under Or, got {:?}", other),
            },
            other => panic!("expected Or at the top, got {:?}", other),
        },
        other => panic!("expected Assign, got {:?}", other),
    }
}

#[test]
fn unary_minus_binds_looser_than_power() {
    // -2 ^ 3  parses as  -(2 ^ 3)
    let stmts = parse_ok("x = -2 ^ 3");
    match &stmts[0].stmt {
        Stmt::Assign(_, values) => match &values[0].expr {
            Expr::UnaryOp(UnaryOpr::Minus, operand) => {
                assert!(matches!(operand.expr, Expr::BinaryOp(BinaryOpr::Pow, _, _)));
            }
            other => panic!("expected unary Minus at the top, got {:?}", other),
        },
        other => panic!("expected Assign, got {:?}", other),
    }
}

#[test]
fn fail_fast_unterminated_if() {
    let r = parse_source("if x then");
    match r {
        Err(Error::SyntaxError(se)) => {
            assert_eq!(se.kind, SyntaxErrorKind::Expected(TokenKind::End, TokenKind::Eof));
            assert_eq!(se.line, 1);
        }
        other => panic!("expected a syntax error, got {:?}", other),
    }
}

#[test]
fn unexpected_token_fails_fast() {
    let r = parse_source("x = ");
    assert!(matches!(
        r,
        Err(Error::SyntaxError(se)) if matches!(se.kind, SyntaxErrorKind::Unexpected(_))
    ));
}

#[test]
fn lex_error_reaches_the_parse_result() {
    let r = parse_source("x = $");
    assert!(matches!(r, Err(Error::LexError(_))));
}

#[test]
fn if_elseif_else_nesting() {
    let stmts = parse_ok("if a then x = 1 elseif b then x = 2 else x = 3 end");
    assert_eq!(stmts.len(), 1);
    match &stmts[0].stmt {
        Stmt::If(ite) => {
            assert!(matches!(&ite.cond.expr, Expr::Ident(w) if w == &b"a".to_vec()));
            assert_eq!(ite.then_branch.len(), 1);
            // the elseif chain is one nested If standing alone in the else-branch
            assert_eq!(ite.else_branch.len(), 1);
            match &ite.else_branch[0].stmt {
                Stmt::If(inner) => {
                    assert!(matches!(&inner.cond.expr, Expr::Ident(w) if w == &b"b".to_vec()));
                    assert_eq!(inner.then_branch.len(), 1);
                    assert_eq!(inner.else_branch.len(), 1);
                }
                other => panic!("expected nested If, got {:?}", other),
            }
        }
        other => panic!("expected If, got {:?}", other),
    }
}

#[test]
fn while_and_repeat_and_break() {
    let stmts = parse_ok("while a do break end\nrepeat break until b");
    assert_eq!(stmts.len(), 2);
    match &stmts[0].stmt {
        Stmt::While(cond, body) => {
            assert!(matches!(&cond.expr, Expr::Ident(w) if w == &b"a".to_vec()));
            assert_eq!(body.len(), 1);
            assert!(matches!(body[0].stmt, Stmt::Break));
        }
        other => panic!("expected While, got {:?}", other),
    }
    match &stmts[1].stmt {
        Stmt::Repeat(cond, body) => {
            assert!(matches!(&cond.expr, Expr::Ident(w) if w == &b"b".to_vec()));
            assert_eq!(body.len(), 1);
        }
        other => panic!("expected Repeat, got {:?}", other),
    }
}

#[test]
fn numeric_for_with_default_step() {
    let stmts = parse_ok("for i = 1, 10 do x = i end");
    match &stmts[0].stmt {
        Stmt::NumberFor(nf) => {
            assert_eq!(nf.var, b"i".to_vec());
            assert!(matches!(nf.init.expr, Expr::Integer(1)));
            assert!(matches!(nf.limit.expr, Expr::Integer(10)));
            // a missing step defaults to the integer literal 1
            assert!(matches!(nf.step.expr, Expr::Integer(1)));
            assert_eq!(nf.body.len(), 1);
        }
        other => panic!("expected NumberFor, got {:?}", other),
    }
}

#[test]
fn numeric_for_with_explicit_step() {
    let stmts = parse_ok("for i = 10, 1, -1 do break end");
    match &stmts[0].stmt {
        Stmt::NumberFor(nf) => {
            assert!(matches!(nf.step.expr, Expr::UnaryOp(UnaryOpr::Minus, _)));
        }
        other => panic!("expected NumberFor, got {:?}", other),
    }
}

#[test]
fn generic_for_over_iterator() {
    let stmts = parse_ok("for k, v in pairs(t) do break end");
    match &stmts[0].stmt {
        Stmt::GenericFor(gf) => {
            assert_eq!(gf.names, vec![b"k".to_vec(), b"v".to_vec()]);
            assert_eq!(gf.exprs.len(), 1);
            assert!(matches!(gf.exprs[0].expr, Expr::FuncCall(_, _)));
            assert_eq!(gf.body.len(), 1);
        }
        other => panic!("expected GenericFor, got {:?}", other),
    }
}

#[test]
fn function_definition_with_dotted_name() {
    let stmts = parse_ok("function a.b.c(x) return x end");
    match &stmts[0].stmt {
        Stmt::FuncDef(fd) => {
            assert!(matches!(fd.name.expr, Expr::AttrGet(_, _)));
            match &fd.body.expr {
                Expr::Function(pl, body) => {
                    assert_eq!(pl.names, vec![b"x".to_vec()]);
                    assert!(!pl.varargs);
                    assert_eq!(body.len(), 1);
                }
                other => panic!("expected Function body, got {:?}", other),
            }
        }
        other => panic!("expected FuncDef, got {:?}", other),
    }
}

#[test]
fn method_definition_injects_self() {
    let stmts = parse_ok("function t:m(a) return a end");
    match &stmts[0].stmt {
        Stmt::MethodDef(md) => {
            assert!(matches!(&md.obj.expr, Expr::Ident(w) if w == &b"t".to_vec()));
            assert_eq!(md.method, b"m".to_vec());
            match &md.body.expr {
                Expr::Function(pl, _) => {
                    assert_eq!(pl.names, vec![b"self".to_vec(), b"a".to_vec()]);
                }
                other => panic!("expected Function body, got {:?}", other),
            }
        }
        other => panic!("expected MethodDef, got {:?}", other),
    }
}

#[test]
fn anonymous_function_with_varargs() {
    let stmts = parse_ok("f = function(a, ...) return ... end");
    match &stmts[0].stmt {
        Stmt::Assign(_, values) => match &values[0].expr {
            Expr::Function(pl, _) => {
                assert_eq!(pl.names, vec![b"a".to_vec()]);
                assert!(pl.varargs);
            }
            other => panic!("expected Function, got {:?}", other),
        },
        other => panic!("expected Assign, got {:?}", other),
    }
}

#[test]
fn table_constructor_field_forms() {
    let stmts = parse_ok("t = { 1, x = 2, [3] = 4; }");
    match &stmts[0].stmt {
        Stmt::Assign(_, values) => match &values[0].expr {
            Expr::Table(fields) => {
                assert_eq!(fields.len(), 3);
                assert!(fields[0].key.is_none());
                assert!(matches!(fields[0].val.expr, Expr::Integer(1)));
                match &fields[1].key {
                    Some(k) => {
                        assert!(matches!(&k.expr, Expr::Str(w) if w == &b"x".to_vec()))
                    }
                    None => panic!("expected a keyed field"),
                }
                match &fields[2].key {
                    Some(k) => assert!(matches!(k.expr, Expr::Integer(3))),
                    None => panic!("expected a bracket-keyed field"),
                }
            }
            other => panic!("expected Table, got {:?}", other),
        },
        other => panic!("expected Assign, got {:?}", other),
    }
}

#[test]
fn postfix_chains_index_and_method_call() {
    let stmts = parse_ok("x = t.a[1]:m(2)");
    match &stmts[0].stmt {
        Stmt::Assign(_, values) => match &values[0].expr {
            Expr::MethodCall(obj, method, args) => {
                assert_eq!(method, &b"m".to_vec());
                assert_eq!(args.len(), 1);
                assert!(matches!(obj.expr, Expr::AttrGet(_, _)));
            }
            other => panic!("expected MethodCall, got {:?}", other),
        },
        other => panic!("expected Assign, got {:?}", other),
    }
}

#[test]
fn multi_assignment_targets_and_values() {
    let stmts = parse_ok("a, b = 1, 2");
    match &stmts[0].stmt {
        Stmt::Assign(targets, values) => {
            assert_eq!(targets.len(), 2);
            assert_eq!(values.len(), 2);
        }
        other => panic!("expected Assign, got {:?}", other),
    }
}

#[test]
fn do_block_statement() {
    let stmts = parse_ok("do x = 1 end");
    match &stmts[0].stmt {
        Stmt::DoBlock(body) => assert_eq!(body.len(), 1),
        other => panic!("expected DoBlock, got {:?}", other),
    }
}

#[test]
fn spans_are_monotone_across_a_program() {
    let src = "local a = 1\nif a then\n  b = a + 2\nelse\n  foo(a,\n      3)\nend\nwhile a do\n  a = a - 1\nend";
    let stmts = parse_ok(src);
    for s in &stmts {
        check_stmt_spans(s);
    }
    // the if statement covers lines 2 through 7
    assert_eq!(stmts[1].span.start, 2);
    assert!(stmts[1].span.end >= 6);
}

#[test]
fn parenthesized_expression_returns_inner() {
    let stmts = parse_ok("x = (1 + 2) * 3");
    match &stmts[0].stmt {
        Stmt::Assign(_, values) => {
            assert!(matches!(
                values[0].expr,
                Expr::BinaryOp(BinaryOpr::Mul, _, _)
            ));
        }
        other => panic!("expected Assign, got {:?}", other),
    }
}

#[test]
fn precedence_mul_binds_tighter_than_add() {
    let stmts = parse_ok("x = 1 + 2 * 3");
    match &stmts[0].stmt {
        Stmt::Assign(_, values) => match &values[0].expr {
            Expr::BinaryOp(BinaryOpr::Add, left, right) => {
                assert!(matches!(left.expr, Expr::Integer(1)));
                assert!(matches!(right.expr, Expr::BinaryOp(BinaryOpr::Mul, _, _)));
            }
            other => panic!("expected Add at the top, got {:?}", other),
        },
        other => panic!("expected Assign, got {:?}", other),
    }
}

#[test]
fn additive_is_left_associative() {
    let stmts = parse_ok("x = a - b - c");
    match &stmts[0].stmt {
        Stmt::Assign(_, values) => match &values[0].expr {
            Expr::BinaryOp(BinaryOpr::Sub, left, right) => {
                assert!(matches!(left.expr, Expr::BinaryOp(BinaryOpr::Sub, _, _)));
                assert!(matches!(&right.expr, Expr::Ident(w) if w == &b"c".to_vec()));
            }
            other => panic!("expected Sub at the top, got {:?}", other),
        },
        other => panic!("expected Assign, got {:?}", other),
    }
}

#[test]
fn zero_argument_call_statement() {
    let stmts = parse_ok("foo()");
    match &stmts[0].stmt {
        Stmt::FuncCall(e) => match &e.expr {
            Expr::FuncCall(f, args) => {
                assert!(matches!(&f.expr, Expr::Ident(w) if w == &b"foo".to_vec()));
                assert!(args.is_empty());
            }
            other => panic!("expected FuncCall expr, got {:?}", other),
        },
        other => panic!("expected FuncCall stmt, got {:?}", other),
    }
}

#[test]
fn missing_close_paren_names_the_expected_token() {
    let r = parse_source("x = (1 end");
    match r {
        Err(Error::SyntaxError(se)) => {
            assert_eq!(se.kind, SyntaxErrorKind::Expected(TokenKind::ParR, TokenKind::End));
        }
        other => panic!("expected a syntax error, got {:?}", other),
    }
}

#[test]
fn method_call_statement() {
    let stmts = parse_ok("obj:m(1)");
    match &stmts[0].stmt {
        Stmt::MethodCall(e) => match &e.expr {
            Expr::MethodCall(obj, method, args) => {
                assert!(matches!(&obj.expr, Expr::Ident(w) if w == &b"obj".to_vec()));
                assert_eq!(method, &b"m".to_vec());
                assert_eq!(args.len(), 1);
                assert!(matches!(args[0].expr, Expr::Integer(1)));
            }
            other => panic!("expected MethodCall expr, got {:?}", other),
        },
        other => panic!("expected MethodCall stmt, got {:?}", other),
    }
}
