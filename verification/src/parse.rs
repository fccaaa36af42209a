//! The parser: recursive descent for statements, precedence climbing for
//! expressions, one token of lookahead, and fail-fast errors.
//!
//! Every function that returns a piece of the tree guarantees that the
//! piece is well formed: every span in it has its end line at or after its
//! start line. Recursion is bounded by an explicit nesting budget, so the
//! parser provably terminates on every input; an input nested beyond the
//! budget is refused with an error rather than exhausting the stack.

use vstd::prelude::*;

use crate::ast::{
    BinaryOpr, Expr, ExprNode, Field, FuncDef, GenericFor, IfThenElse, MethodDef, NumberFor,
    ParList, Stmt, StmtNode, UnaryOpr,
};
use crate::lex::{spec_next, Lex, LexError, LexRes, Token, TokenKind};

verus! {

/// The nesting budget: how many recursive parsing steps one statement may
/// take before the parser refuses the input.
pub const MAX_DEPTH: u32 = 1000;

/// The exec token carries exactly what one scan of the lexer model says:
/// its kind, its byte payload, and its integer value.
pub open spec fn token_matches(t: Token, m: LexRes) -> bool {
    t.spec_kind() == m.kind && t.spec_text() == m.text && t.spec_ival() == m.ival
}

/// Which statement forms the dispatch on a buffered token may produce:
/// each statement keyword owes its own form; any other token begins an
/// expression, which becomes a call statement or an assignment.
pub open spec fn dispatched(k: TokenKind, s: Stmt) -> bool {
    match k {
        TokenKind::Break => s == Stmt::Break,
        TokenKind::Return => s is Return,
        TokenKind::Local => s is LocalAssign,
        TokenKind::If => s is If,
        TokenKind::While => s is While,
        TokenKind::Repeat => s is Repeat,
        TokenKind::For => s is NumberFor || s is GenericFor,
        TokenKind::Function => s is FuncDef || s is MethodDef,
        TokenKind::Do => s is DoBlock,
        _ => s is FuncCall || s is MethodCall || s is Assign,
    }
}

/// Which token kinds may start a primary expression.
pub open spec fn starts_expression(k: TokenKind) -> bool {
    ||| k == TokenKind::Nil
    ||| k == TokenKind::True
    ||| k == TokenKind::False
    ||| k == TokenKind::Dots
    ||| k == TokenKind::Integer
    ||| k == TokenKind::Float
    ||| k == TokenKind::Str
    ||| k == TokenKind::Name
    ||| k == TokenKind::ParL
    ||| k == TokenKind::CurlyL
    ||| k == TokenKind::Function
}

/// What a primary expression holds, by the token that starts it: each
/// literal and identifier token owes its own expression form carrying the
/// token's own payload; a parenthesis owes whatever stands inside it.
pub open spec fn primary_shape(t: Token, x: Expr) -> bool {
    match t.spec_kind() {
        TokenKind::Nil => x == Expr::Nil,
        TokenKind::True => x == (Expr::Bool(true)),
        TokenKind::False => x == (Expr::Bool(false)),
        TokenKind::Dots => x == Expr::Dots,
        TokenKind::Integer => x matches Expr::Integer(n) && n as int == t.spec_ival(),
        TokenKind::Float => x matches Expr::Float(w) && w@ == t.spec_text(),
        TokenKind::Str => x matches Expr::Str(w) && w@ == t.spec_text(),
        TokenKind::Name => x matches Expr::Ident(w) && w@ == t.spec_text(),
        TokenKind::CurlyL => x is Table,
        TokenKind::Function => x is Function,
        _ => true,
    }
}

/// Token kinds that are a whole primary expression by themselves.
pub open spec fn simple_primary(k: TokenKind) -> bool {
    ||| k == TokenKind::Nil
    ||| k == TokenKind::True
    ||| k == TokenKind::False
    ||| k == TokenKind::Dots
    ||| k == TokenKind::Integer
    ||| k == TokenKind::Float
    ||| k == TokenKind::Str
    ||| k == TokenKind::Name
}

/// Token kinds that continue a postfix chain: call arguments, field
/// access, bracketed indexing, method calls.
pub open spec fn continues_postfix(k: TokenKind) -> bool {
    k == TokenKind::ParL || k == TokenKind::Dot || k == TokenKind::SqurL || k
        == TokenKind::Colon
}

/// The left binding power of a binary operator token kind, 0 for a kind
/// that is no binary operator: `or` < `and` < comparison < concat <
/// additive < multiplicative < power.
pub open spec fn spec_binop_lbp(k: TokenKind) -> int {
    match k {
        TokenKind::Or => 1,
        TokenKind::And => 3,
        TokenKind::Less => 5,
        TokenKind::Greater => 5,
        TokenKind::LesEq => 5,
        TokenKind::GreEq => 5,
        TokenKind::NotEq => 5,
        TokenKind::Equal => 5,
        TokenKind::Concat => 8,
        TokenKind::Add => 9,
        TokenKind::Sub => 9,
        TokenKind::Mul => 11,
        TokenKind::Div => 11,
        TokenKind::Idiv => 11,
        TokenKind::Mod => 11,
        TokenKind::Pow => 16,
        _ => 0,
    }
}

/// The right binding power of a binary operator token kind: one more
/// than the left power for a left-associative operator, one less for the
/// right-associative `..` and `^`.
pub open spec fn spec_binop_rbp(k: TokenKind) -> int {
    match k {
        TokenKind::Or => 2,
        TokenKind::And => 4,
        TokenKind::Less => 6,
        TokenKind::Greater => 6,
        TokenKind::LesEq => 6,
        TokenKind::GreEq => 6,
        TokenKind::NotEq => 6,
        TokenKind::Equal => 6,
        TokenKind::Concat => 7,
        TokenKind::Add => 10,
        TokenKind::Sub => 10,
        TokenKind::Mul => 12,
        TokenKind::Div => 12,
        TokenKind::Idiv => 12,
        TokenKind::Mod => 12,
        TokenKind::Pow => 15,
        _ => 0,
    }
}

/// The AST operator of a binary operator token kind.
pub open spec fn spec_binop_of(k: TokenKind) -> BinaryOpr {
    match k {
        TokenKind::Or => BinaryOpr::Or,
        TokenKind::And => BinaryOpr::And,
        TokenKind::Less => BinaryOpr::LT,
        TokenKind::Greater => BinaryOpr::GT,
        TokenKind::LesEq => BinaryOpr::LE,
        TokenKind::GreEq => BinaryOpr::GE,
        TokenKind::NotEq => BinaryOpr::NE,
        TokenKind::Equal => BinaryOpr::Eq,
        TokenKind::Concat => BinaryOpr::Concat,
        TokenKind::Add => BinaryOpr::Add,
        TokenKind::Sub => BinaryOpr::Sub,
        TokenKind::Mul => BinaryOpr::Mul,
        TokenKind::Div => BinaryOpr::Div,
        TokenKind::Idiv => BinaryOpr::IDiv,
        TokenKind::Mod => BinaryOpr::Mod,
        TokenKind::Pow => BinaryOpr::Pow,
        _ => BinaryOpr::NoBinary,
    }
}

/// A one-token operand stands buffered: a literal, `...` or a name,
/// scanning cleanly past it, with the token after it not continuing a
/// postfix chain. A primary or postfix parse then owes exactly that
/// token's expression.
pub open spec fn lone_operand(p: Parser) -> bool {
    &&& simple_primary(p.current.spec_kind())
    &&& spec_next(p.lexer@).err is None
    &&& !continues_postfix(spec_next(p.lexer@).kind)
}

/// A one-token expression stands buffered: a lone operand whose following
/// token is no binary operator either. Expression parsing then owes
/// exactly that token's expression.
pub open spec fn lone_primary(p: Parser) -> bool {
    &&& lone_operand(p)
    &&& spec_binop_lbp(spec_next(p.lexer@).kind) == 0
}

/// A single binary operation stands buffered: a one-token operand, then a
/// binary operator binding at least `min_bp`, then a second one-token
/// operand, then a token that is no operator at all. Expression parsing
/// then owes exactly that operation.
pub open spec fn lone_binop(p: Parser, min_bp: int) -> bool {
    let a = spec_next(p.lexer@);
    let u2 = spec_next(a.st);
    let t = spec_next(u2.st);
    &&& simple_primary(p.current.spec_kind())
    &&& a.err is None
    &&& !continues_postfix(a.kind)
    &&& spec_binop_lbp(a.kind) >= 1
    &&& spec_binop_lbp(a.kind) >= min_bp
    &&& u2.err is None
    &&& simple_primary(u2.kind)
    &&& t.err is None
    &&& !continues_postfix(t.kind)
    &&& spec_binop_lbp(t.kind) == 0
}

/// Two binary operations stand buffered — operand, operator `a`, operand,
/// operator `b`, operand, then no operator — where `b` binds at least as
/// tightly as `a` allows on its right: a right-associative repetition
/// such as `.. ..` or `^ ^`, or a tighter operator such as `*` after `+`.
/// Expression parsing then owes the tree grouped to the right.
pub open spec fn lone_binop_chain(p: Parser, min_bp: int) -> bool {
    let a = spec_next(p.lexer@);
    let u2 = spec_next(a.st);
    let b = spec_next(u2.st);
    let u3 = spec_next(b.st);
    let t = spec_next(u3.st);
    &&& simple_primary(p.current.spec_kind())
    &&& a.err is None
    &&& !continues_postfix(a.kind)
    &&& spec_binop_lbp(a.kind) >= 1
    &&& spec_binop_lbp(a.kind) >= min_bp
    &&& u2.err is None
    &&& simple_primary(u2.kind)
    &&& b.err is None
    &&& !continues_postfix(b.kind)
    &&& spec_binop_lbp(b.kind) >= 1
    &&& spec_binop_lbp(b.kind) >= spec_binop_rbp(a.kind)
    &&& u3.err is None
    &&& simple_primary(u3.kind)
    &&& t.err is None
    &&& !continues_postfix(t.kind)
    &&& spec_binop_lbp(t.kind) == 0
}

/// Two binary operations stand buffered where the second binds less
/// tightly than the first allows on its right — the left-associative
/// repetition, such as `- -`. Expression parsing then owes the tree
/// grouped to the left.
pub open spec fn lone_binop_left(p: Parser, min_bp: int) -> bool {
    let a = spec_next(p.lexer@);
    let u2 = spec_next(a.st);
    let b = spec_next(u2.st);
    let u3 = spec_next(b.st);
    let t = spec_next(u3.st);
    &&& simple_primary(p.current.spec_kind())
    &&& a.err is None
    &&& !continues_postfix(a.kind)
    &&& spec_binop_lbp(a.kind) >= 1
    &&& spec_binop_lbp(a.kind) >= min_bp
    &&& u2.err is None
    &&& simple_primary(u2.kind)
    &&& b.err is None
    &&& !continues_postfix(b.kind)
    &&& spec_binop_lbp(b.kind) >= 1
    &&& spec_binop_lbp(b.kind) >= min_bp
    &&& spec_binop_lbp(b.kind) < spec_binop_rbp(a.kind)
    &&& u3.err is None
    &&& simple_primary(u3.kind)
    &&& t.err is None
    &&& !continues_postfix(t.kind)
    &&& spec_binop_lbp(t.kind) == 0
}

/// What a primary expression holds, by the model scan that produced its
/// token.
pub open spec fn model_primary_shape(m: LexRes, x: Expr) -> bool {
    match m.kind {
        TokenKind::Nil => x == Expr::Nil,
        TokenKind::True => x == (Expr::Bool(true)),
        TokenKind::False => x == (Expr::Bool(false)),
        TokenKind::Dots => x == Expr::Dots,
        TokenKind::Integer => x matches Expr::Integer(n) && n as int == m.ival,
        TokenKind::Float => x matches Expr::Float(w) && w@ == m.text,
        TokenKind::Str => x matches Expr::Str(w) && w@ == m.text,
        TokenKind::Name => x matches Expr::Ident(w) && w@ == m.text,
        _ => true,
    }
}

/// A one-target, one-value assignment stands buffered: a name, then `=`,
/// then a one-token value, then no continuation of the value list.
/// Statement parsing then owes exactly that assignment.
pub open spec fn lone_assignment(p: Parser) -> bool {
    let m1 = spec_next(p.lexer@);
    let m2 = spec_next(m1.st);
    let m3 = spec_next(m2.st);
    &&& p.current.spec_kind() == TokenKind::Name
    &&& m1.err is None
    &&& m1.kind == TokenKind::Assign
    &&& m2.err is None
    &&& simple_primary(m2.kind)
    &&& m3.err is None
    &&& !continues_postfix(m3.kind)
    &&& spec_binop_lbp(m3.kind) == 0
    &&& m3.kind != TokenKind::Comma
}

/// A `return` with a single one-token result stands buffered: `return`,
/// then a literal or name, then no continuation of the result list.
pub open spec fn lone_return(p: Parser) -> bool {
    let m1 = spec_next(p.lexer@);
    let m2 = spec_next(m1.st);
    &&& p.current.spec_kind() == TokenKind::Return
    &&& m1.err is None
    &&& simple_primary(m1.kind)
    &&& m2.err is None
    &&& !continues_postfix(m2.kind)
    &&& spec_binop_lbp(m2.kind) == 0
    &&& m2.kind != TokenKind::Comma
}

/// A local declaration of one name with a one-token value stands
/// buffered: `local`, a name, `=`, the value, and no list continuation.
pub open spec fn lone_local(p: Parser) -> bool {
    let m1 = spec_next(p.lexer@);
    let m2 = spec_next(m1.st);
    let m3 = spec_next(m2.st);
    let m4 = spec_next(m3.st);
    &&& p.current.spec_kind() == TokenKind::Local
    &&& m1.err is None
    &&& m1.kind == TokenKind::Name
    &&& m2.err is None
    &&& m2.kind == TokenKind::Assign
    &&& m3.err is None
    &&& simple_primary(m3.kind)
    &&& m4.err is None
    &&& !continues_postfix(m4.kind)
    &&& spec_binop_lbp(m4.kind) == 0
    &&& m4.kind != TokenKind::Comma
}

/// A parenthesized one-token expression stands buffered: `(`, the inner
/// token, `)`. Primary parsing then owes the inner expression itself —
/// no wrapper node — with both parentheses consumed.
pub open spec fn lone_paren(p: Parser) -> bool {
    let m1 = spec_next(p.lexer@);
    let m2 = spec_next(m1.st);
    let m3 = spec_next(m2.st);
    &&& p.current.spec_kind() == TokenKind::ParL
    &&& m1.err is None
    &&& simple_primary(m1.kind)
    &&& m2.err is None
    &&& m2.kind == TokenKind::ParR
    &&& m3.err is None
}

/// A parenthesized one-token expression whose closing `)` is missing:
/// whatever follows the inner token instead is neither a postfix
/// continuation nor an operator. Primary parsing then owes the error
/// naming the missing `)` against what was found.
pub open spec fn lone_unclosed_paren(p: Parser) -> bool {
    let m1 = spec_next(p.lexer@);
    let m2 = spec_next(m1.st);
    &&& p.current.spec_kind() == TokenKind::ParL
    &&& m1.err is None
    &&& simple_primary(m1.kind)
    &&& m2.err is None
    &&& m2.kind != TokenKind::ParR
    &&& !continues_postfix(m2.kind)
    &&& spec_binop_lbp(m2.kind) == 0
}

/// A call of a name with no arguments stands buffered: a name, `(`, `)`,
/// and then a token that neither continues the chain nor is an operator.
/// Parsing then owes exactly that call, and as a standalone statement it
/// owes a call statement.
pub open spec fn lone_call(p: Parser) -> bool {
    let m1 = spec_next(p.lexer@);
    let m2 = spec_next(m1.st);
    let m3 = spec_next(m2.st);
    &&& p.current.spec_kind() == TokenKind::Name
    &&& m1.err is None
    &&& m1.kind == TokenKind::ParL
    &&& m2.err is None
    &&& m2.kind == TokenKind::ParR
    &&& m3.err is None
    &&& !continues_postfix(m3.kind)
    &&& spec_binop_lbp(m3.kind) == 0
}

/// An `if` whose chain never closes stands buffered: `if`, a one-token
/// condition, `then`, and then the end of the input with no `end`.
/// Parsing then owes the error that names the missing `end`.
pub open spec fn lone_unclosed_if(p: Parser) -> bool {
    let m1 = spec_next(p.lexer@);
    let m2 = spec_next(m1.st);
    let m3 = spec_next(m2.st);
    &&& p.current.spec_kind() == TokenKind::If
    &&& m1.err is None
    &&& simple_primary(m1.kind)
    &&& m2.err is None
    &&& m2.kind == TokenKind::Then
    &&& m3.err is None
    &&& m3.kind == TokenKind::Eof
}

/// A whole two-statement program stands buffered: a one-name local
/// declaration with a one-token value, then a `return` of one token, then
/// the end of the input. Parsing then owes exactly those two statements.
pub open spec fn lone_local_then_return(p: Parser) -> bool {
    let m1 = spec_next(p.lexer@);
    let m2 = spec_next(m1.st);
    let m3 = spec_next(m2.st);
    let m4 = spec_next(m3.st);
    let m5 = spec_next(m4.st);
    let m6 = spec_next(m5.st);
    &&& lone_local(p)
    &&& m4.kind == TokenKind::Return
    &&& m5.err is None
    &&& simple_primary(m5.kind)
    &&& m6.err is None
    &&& m6.kind == TokenKind::Eof
}

/// What a syntax error complains about.
#[derive(Debug, Clone, Copy, PartialEq, Eq, Structural)]
pub enum SyntaxErrorKind {
    /// A required token (first field) was not the one found (second field).
    Expected(TokenKind, TokenKind),
    /// A token that can start no expression or statement.
    Unexpected(TokenKind),
    /// The input is nested more deeply than the parser's budget allows.
    TooDeep,
}

/// A syntax error, with the 1-based line and column where it was noticed.
#[derive(Debug, Clone, Copy, PartialEq, Eq, Structural)]
pub struct SyntaxError {
    pub kind: SyntaxErrorKind,
    pub line: u32,
    pub col: usize,
}

/// The parser's error channel: the first lexing or syntax error aborts
/// the whole parse; no partial tree is returned.
#[derive(Debug, Clone, Copy, PartialEq, Eq, Structural)]
pub enum Error {
    LexError(LexError),
    SyntaxError(SyntaxError),
}

/// The parser: the token stream, plus one buffered token of lookahead.
pub struct Parser {
    pub lexer: Lex,
    pub current: Token,
}

impl Parser {
    /// The lexer is well formed, and a buffered `Eof` means the whole
    /// input has been read: `Eof` is only ever produced at the end.
    pub open spec fn wf(self) -> bool {
        &&& self.lexer.wf()
        &&& (self.current.spec_kind() == TokenKind::Eof ==> self.lexer@.pos
            == self.lexer@.input.len())
        &&& (self.current.spec_kind() == TokenKind::Name ==> self.current.spec_text().len() > 0)
    }

    /// How much input is left: unread bytes, plus the buffered token.
    /// Every parsing step that consumes a token makes this smaller, which
    /// bounds every parsing loop.
    pub open spec fn remaining(self) -> int {
        self.lexer@.input.len() - self.lexer@.pos + if self.current.spec_kind()
            == TokenKind::Eof {
            0int
        } else {
            1int
        }
    }

    /// A parser holding the given lexer, with the first token buffered:
    /// on success the buffered token is exactly the stream's first token
    /// and the lexer stands right after it; the first scan's error is
    /// handed through otherwise.
    pub fn new(mut lexer: Lex) -> (r: Result<Parser, Error>)
        requires
            lexer.wf(),
        ensures
            ({
                let m = spec_next(lexer@);
                match r {
                    Ok(p) => {
                        &&& p.wf()
                        &&& m.err is None
                        &&& token_matches(p.current, m)
                        &&& p.lexer@ == m.st
                    },
                    Err(e) => e matches Error::LexError(le) && Some(le.kind) == m.err,
                }
            }),
    {
        match lexer.next() {
            Ok(t) => Ok(Parser { lexer, current: t }),
            Err(e) => Err(Error::LexError(e)),
        }
    }

    /// Discard the buffered token and pull the next one.
    fn advance(&mut self) -> (r: Result<(), Error>)
        requires
            old(self).wf(),
        ensures
            final(self).wf(),
            final(self).lexer@.input == old(self).lexer@.input,
            final(self).remaining() <= old(self).remaining(),
            final(self).lexer@.line >= old(self).lexer@.line,
            r is Ok && old(self).current.spec_kind() != TokenKind::Eof ==> final(self).remaining()
                < old(self).remaining(),
            ({
                let m = spec_next(old(self).lexer@);
                match r {
                    Ok(u) => {
                        &&& m.err is None
                        &&& token_matches(final(self).current, m)
                        &&& final(self).lexer@ == m.st
                    },
                    Err(e) => {
                        &&& e matches Error::LexError(le) && Some(le.kind) == m.err
                        &&& final(self).current == old(self).current
                        &&& final(self).lexer@ == m.st
                    },
                }
            }),
    {
        match self.lexer.next() {
            Ok(t) => {
                self.current = t;
                Ok(())
            },
            Err(e) => Err(Error::LexError(e)),
        }
    }

    /// Hand out the buffered token and pull the next one.
    fn take_token(&mut self) -> (r: Result<Token, Error>)
        requires
            old(self).wf(),
        ensures
            final(self).wf(),
            final(self).lexer@.input == old(self).lexer@.input,
            final(self).remaining() <= old(self).remaining(),
            final(self).lexer@.line >= old(self).lexer@.line,
            r matches Ok(t) ==> t == old(self).current,
            r is Ok && old(self).current.spec_kind() != TokenKind::Eof ==> final(self).remaining()
                < old(self).remaining(),
            ({
                let m = spec_next(old(self).lexer@);
                match r {
                    Ok(t) => {
                        &&& m.err is None
                        &&& token_matches(final(self).current, m)
                        &&& final(self).lexer@ == m.st
                    },
                    Err(e) => {
                        &&& e matches Error::LexError(le) && Some(le.kind) == m.err
                        &&& final(self).current == old(self).current
                        &&& final(self).lexer@ == m.st
                    },
                }
            }),
    {
        let mut t = Token::Eof;
        core::mem::swap(&mut t, &mut self.current);
        match self.lexer.next() {
            Ok(nt) => {
                self.current = nt;
                Ok(t)
            },
            Err(e) => {
                self.current = t;
                Err(Error::LexError(e))
            },
        }
    }

    /// Consume the buffered token if it has the expected kind; a fatal
    /// syntax error otherwise. Success is owed exactly when the kinds
    /// match and refilling the lookahead hits no lexing error; a mismatch
    /// consumes nothing and reports the expected kind against the found
    /// one at the current position.
    fn expect(&mut self, k: TokenKind) -> (r: Result<(), Error>)
        requires
            old(self).wf(),
            k != TokenKind::Eof,
        ensures
            final(self).wf(),
            final(self).lexer@.input == old(self).lexer@.input,
            final(self).remaining() <= old(self).remaining(),
            final(self).lexer@.line >= old(self).lexer@.line,
            r is Ok <==> old(self).current.spec_kind() == k && spec_next(
                old(self).lexer@,
            ).err is None,
            r is Ok ==> final(self).remaining() < old(self).remaining() && token_matches(
                final(self).current,
                spec_next(old(self).lexer@),
            ) && final(self).lexer@ == spec_next(old(self).lexer@).st,
            old(self).current.spec_kind() != k ==> ({
                &&& *final(self) == *old(self)
                &&& (r matches Err(e) && e matches Error::SyntaxError(se) && se.kind == (
                SyntaxErrorKind::Expected(k, old(self).current.spec_kind())) && se.line as int
                    == old(self).lexer@.line && se.col as int == old(self).lexer@.pos - old(
                    self,
                ).lexer@.off + 1)
            }),
            old(self).current.spec_kind() == k && r is Err ==> ({
                &&& (r matches Err(e) && e matches Error::LexError(le) && Some(le.kind)
                    == spec_next(old(self).lexer@).err)
                &&& final(self).current == old(self).current
            }),
    {
        if self.current.kind() == k {
            self.advance()
        } else {
            Err(self.err_expected(k))
        }
    }

    /// Consume a `Name` token and hand out its bytes; a fatal syntax
    /// error if the buffered token is anything else.
    fn take_name(&mut self) -> (r: Result<Vec<u8>, Error>)
        requires
            old(self).wf(),
        ensures
            final(self).wf(),
            final(self).lexer@.input == old(self).lexer@.input,
            final(self).remaining() <= old(self).remaining(),
            final(self).lexer@.line >= old(self).lexer@.line,
            r is Ok ==> old(self).current.spec_kind() == TokenKind::Name && final(self).remaining() < old(self).remaining(),
            r matches Ok(w) ==> w@.len() > 0 && old(self).current == (Token::Name(w))
                && token_matches(final(self).current, spec_next(old(self).lexer@)) && final(self).lexer@ == spec_next(old(self).lexer@).st,
            old(self).current.spec_kind() != TokenKind::Name ==> ({
                &&& *final(self) == *old(self)
                &&& (r matches Err(e) && e matches Error::SyntaxError(se) && se.kind == (
                SyntaxErrorKind::Expected(TokenKind::Name, old(self).current.spec_kind())))
            }),
            old(self).current.spec_kind() == TokenKind::Name && r is Err ==> spec_next(
                old(self).lexer@,
            ).err is Some,
    {
        match &self.current {
            Token::Name(_) => {},
            _ => {
                return Err(self.err_expected(TokenKind::Name));
            },
        }
        let t = self.take_token()?;
        match t {
            Token::Name(w) => Ok(w),
            _ => Ok(Vec::new()),
        }
    }

    /// A syntax error: the expected token kind against the one found, at
    /// the lexer's current position.
    fn err_expected(&self, k: TokenKind) -> (e: Error)
        requires
            self.wf(),
        ensures
            e matches Error::SyntaxError(se) && se.kind == (SyntaxErrorKind::Expected(
                k,
                self.current.spec_kind(),
            )) && se.line as int == self.lexer@.line && se.col as int == self.lexer@.pos
                - self.lexer@.off + 1,
    {
        Error::SyntaxError(
            SyntaxError {
                kind: SyntaxErrorKind::Expected(k, self.current.kind()),
                line: self.lexer.line_number(),
                col: self.lexer.line_position(),
            },
        )
    }

    /// A syntax error: the buffered token can start no expression or
    /// statement here.
    fn err_unexpected(&self) -> (e: Error)
        requires
            self.wf(),
        ensures
            e matches Error::SyntaxError(se) && se.kind == (SyntaxErrorKind::Unexpected(
                self.current.spec_kind(),
            )) && se.line as int == self.lexer@.line && se.col as int == self.lexer@.pos
                - self.lexer@.off + 1,
    {
        Error::SyntaxError(
            SyntaxError {
                kind: SyntaxErrorKind::Unexpected(self.current.kind()),
                line: self.lexer.line_number(),
                col: self.lexer.line_position(),
            },
        )
    }

    /// A syntax error: the input is nested beyond the parsing budget.
    fn err_too_deep(&self) -> (e: Error)
        requires
            self.wf(),
        ensures
            e matches Error::SyntaxError(se) && se.kind == SyntaxErrorKind::TooDeep,
    {
        Error::SyntaxError(
            SyntaxError {
                kind: SyntaxErrorKind::TooDeep,
                line: self.lexer.line_number(),
                col: self.lexer.line_position(),
            },
        )
    }

    /// Parse statements until the end of the input: the whole program, or
    /// the first error. Parsing is fail-fast: no tree is returned on an
    /// error. Every node of a returned tree is well formed: each span's
    /// end line is at or after its start line.
    pub fn parse(&mut self) -> (r: Result<Vec<StmtNode>, Error>)
        requires
            old(self).wf(),
        ensures
            final(self).wf(),
            r matches Ok(stmts) ==> forall|i: int|
                0 <= i < stmts@.len() ==> (#[trigger] stmts@[i]).wf(),
            r is Ok ==> final(self).current.spec_kind() == TokenKind::Eof,
            r is Ok ==> final(self).lexer@.pos == final(self).lexer@.input.len(),
            old(self).current.spec_kind() == TokenKind::Eof ==> (r matches Ok(stmts)
                && stmts@.len() == 0) && *final(self) == *old(self),
            lone_local_then_return(*old(self)) ==> ({
                let m1 = spec_next(old(self).lexer@);
                let m3 = spec_next(spec_next(m1.st).st);
                let m5 = spec_next(spec_next(m3.st).st);
                r matches Ok(stmts) && stmts@.len() == 2 && (stmts@[0].stmt matches Stmt::LocalAssign(ns, vs) && ns@.len() == 1
                        && ns@[0]@ == m1.text && vs@.len() == 1 && model_primary_shape(
                        m3,
                        vs@[0].expr,
                    )) && (stmts@[1].stmt matches Stmt::Return(es) && es@.len() == 1
                        && model_primary_shape(m5, es@[0].expr))
            }),
            lone_unclosed_if(*old(self)) ==> ({
                let m3 = spec_next(spec_next(spec_next(old(self).lexer@).st).st);
                r matches Err(e) && e matches Error::SyntaxError(se) && se.kind == (
                SyntaxErrorKind::Expected(TokenKind::End, TokenKind::Eof)) && se.line as int
                    == m3.st.line && se.col as int == m3.st.pos - m3.st.off + 1
            }),
            lone_assignment(*old(self)) && spec_next(
                spec_next(spec_next(old(self).lexer@).st).st,
            ).kind == TokenKind::Eof ==> ({
                let m2 = spec_next(spec_next(old(self).lexer@).st);
                r matches Ok(stmts) && stmts@.len() == 1 && (
                stmts@[0].stmt matches Stmt::Assign(ts, vs) && ts@.len() == 1 && vs@.len() == 1
                    && (ts@[0].expr matches Expr::Ident(w) && w@ == old(
                    self,
                ).current.spec_text()) && model_primary_shape(m2, vs@[0].expr))
            }),
    {
        let mut stmts: Vec<StmtNode> = Vec::new();
        loop
            invariant
                self.wf(),
                forall|i: int| 0 <= i < stmts@.len() ==> (#[trigger] stmts@[i]).wf(),
                old(self).current.spec_kind() == TokenKind::Eof ==> self == old(self)
                    && stmts@.len() == 0,
                lone_unclosed_if(*old(self)) ==> *self == *old(self) && stmts@.len() == 0,
                lone_local_then_return(*old(self)) ==> ({
                    let m1 = spec_next(old(self).lexer@);
                    let m3 = spec_next(spec_next(m1.st).st);
                    let m4 = spec_next(m3.st);
                    let m5 = spec_next(m4.st);
                    ||| (stmts@.len() == 0 && *self == *old(self))
                    ||| ({
                        &&& stmts@.len() == 1
                        &&& (stmts@[0].stmt matches Stmt::LocalAssign(ns, vs) && ns@.len() == 1
                        && ns@[0]@ == m1.text && vs@.len() == 1 && model_primary_shape(
                        m3,
                        vs@[0].expr,
                    ))
                        &&& self.lexer@ == m4.st
                        &&& token_matches(self.current, m4)
                    })
                    ||| ({
                        &&& stmts@.len() == 2
                        &&& (stmts@[0].stmt matches Stmt::LocalAssign(ns, vs) && ns@.len() == 1
                        && ns@[0]@ == m1.text && vs@.len() == 1 && model_primary_shape(
                        m3,
                        vs@[0].expr,
                    ))
                        &&& (stmts@[1].stmt matches Stmt::Return(es) && es@.len() == 1
                        && model_primary_shape(m5, es@[0].expr))
                        &&& self.current.spec_kind() == TokenKind::Eof
                    })
                }),
                lone_assignment(*old(self)) && spec_next(
                    spec_next(spec_next(old(self).lexer@).st).st,
                ).kind == TokenKind::Eof ==> ({
                    let m2 = spec_next(spec_next(old(self).lexer@).st);
                    ||| (stmts@.len() == 0 && *self == *old(self))
                    ||| ({
                        &&& stmts@.len() == 1
                        &&& (stmts@[0].stmt matches Stmt::Assign(ts, vs) && ts@.len() == 1
                            && vs@.len() == 1 && (ts@[0].expr matches Expr::Ident(w) && w@
                            == old(self).current.spec_text()) && model_primary_shape(
                            m2,
                            stmts@[0].stmt->Assign_1@[0].expr,
                        ))
                        &&& self.current.spec_kind() == TokenKind::Eof
                    })
                }),
            ensures
                self.wf(),
                forall|i: int| 0 <= i < stmts@.len() ==> (#[trigger] stmts@[i]).wf(),
                self.current.spec_kind() == TokenKind::Eof,
                old(self).current.spec_kind() == TokenKind::Eof ==> self == old(self)
                    && stmts@.len() == 0,
                lone_unclosed_if(*old(self)) ==> *self == *old(self) && stmts@.len() == 0,
                lone_local_then_return(*old(self)) ==> ({
                    let m1 = spec_next(old(self).lexer@);
                    let m3 = spec_next(spec_next(m1.st).st);
                    let m4 = spec_next(m3.st);
                    let m5 = spec_next(m4.st);
                    ||| (stmts@.len() == 0 && *self == *old(self))
                    ||| ({
                        &&& stmts@.len() == 1
                        &&& (stmts@[0].stmt matches Stmt::LocalAssign(ns, vs) && ns@.len() == 1
                        && ns@[0]@ == m1.text && vs@.len() == 1 && model_primary_shape(
                        m3,
                        vs@[0].expr,
                    ))
                        &&& self.lexer@ == m4.st
                        &&& token_matches(self.current, m4)
                    })
                    ||| ({
                        &&& stmts@.len() == 2
                        &&& (stmts@[0].stmt matches Stmt::LocalAssign(ns, vs) && ns@.len() == 1
                        && ns@[0]@ == m1.text && vs@.len() == 1 && model_primary_shape(
                        m3,
                        vs@[0].expr,
                    ))
                        &&& (stmts@[1].stmt matches Stmt::Return(es) && es@.len() == 1
                        && model_primary_shape(m5, es@[0].expr))
                        &&& self.current.spec_kind() == TokenKind::Eof
                    })
                }),
                lone_assignment(*old(self)) && spec_next(
                    spec_next(spec_next(old(self).lexer@).st).st,
                ).kind == TokenKind::Eof ==> ({
                    let m2 = spec_next(spec_next(old(self).lexer@).st);
                    ||| (stmts@.len() == 0 && *self == *old(self))
                    ||| ({
                        &&& stmts@.len() == 1
                        &&& (stmts@[0].stmt matches Stmt::Assign(ts, vs) && ts@.len() == 1
                            && vs@.len() == 1 && (ts@[0].expr matches Expr::Ident(w) && w@
                            == old(self).current.spec_text()) && model_primary_shape(
                            m2,
                            stmts@[0].stmt->Assign_1@[0].expr,
                        ))
                        &&& self.current.spec_kind() == TokenKind::Eof
                    })
                }),
            decreases self.remaining(),
        {
            if self.current.kind() == TokenKind::Eof {
                break;
            }
            let sn = self.statement(MAX_DEPTH)?;
            stmts.push(sn);
        }
        Ok(stmts)
    }

    /// Parse one statement, dispatching on the buffered token. The form
    /// of the result follows the dispatch: each statement keyword owes
    /// its own statement form; the span runs from the line at entry to
    /// the line after the last consumed token. A buffered `break` fails
    /// only on a lexing error while refilling the lookahead.
    #[verifier::rlimit(40)]
    fn statement(&mut self, depth: u32) -> (r: Result<StmtNode, Error>)
        requires
            old(self).wf(),
        ensures
            final(self).wf(),
            final(self).lexer@.input == old(self).lexer@.input,
            final(self).remaining() <= old(self).remaining(),
            final(self).lexer@.line >= old(self).lexer@.line,
            r matches Ok(sn) ==> sn.wf() && final(self).remaining() < old(self).remaining(),
            r matches Ok(sn) ==> dispatched(old(self).current.spec_kind(), sn.stmt),
            r matches Ok(sn) ==> sn.span.start as int == old(self).lexer@.line
                && sn.span.end as int == final(self).lexer@.line,
            r matches Ok(sn) ==> ({
                &&& (sn.stmt matches Stmt::FuncCall(e) ==> e.expr is FuncCall)
                &&& (sn.stmt matches Stmt::MethodCall(e) ==> e.expr is MethodCall)
                &&& (sn.stmt matches Stmt::Assign(ts, vs) ==> ts@.len() >= 1 && vs@.len()
                    >= 1)
            }),
            depth > 0 && old(self).current.spec_kind() == TokenKind::Break && r is Err ==> (
            r matches Err(e) && e is LexError),
            depth > 0 && old(self).current.spec_kind() == TokenKind::Break && spec_next(
                old(self).lexer@,
            ).err is None ==> r is Ok && final(self).lexer@ == spec_next(old(self).lexer@).st
                && token_matches(final(self).current, spec_next(old(self).lexer@)),
            depth >= 8 && lone_call(*old(self)) ==> ({
                let m3 = spec_next(spec_next(spec_next(old(self).lexer@).st).st);
                &&& (r matches Ok(sn) && sn.stmt matches Stmt::FuncCall(e) && (
                e.expr matches Expr::FuncCall(f, args) && (f.expr matches Expr::Ident(w)
                    && w@ == old(self).current.spec_text()) && args@.len() == 0))
                &&& final(self).lexer@ == m3.st
                &&& token_matches(final(self).current, m3)
            }),
            depth >= 8 && lone_unclosed_if(*old(self)) ==> ({
                let m3 = spec_next(spec_next(spec_next(old(self).lexer@).st).st);
                r matches Err(e) && e matches Error::SyntaxError(se) && se.kind == (
                SyntaxErrorKind::Expected(TokenKind::End, TokenKind::Eof)) && se.line as int
                    == m3.st.line && se.col as int == m3.st.pos - m3.st.off + 1
            }),
            depth >= 8 && old(self).current.spec_kind() == TokenKind::Return && spec_next(
                old(self).lexer@,
            ).err is None && spec_ends_block(spec_next(old(self).lexer@).kind) ==> ({
                &&& (r matches Ok(sn) && sn.stmt matches Stmt::Return(es) && es@.len() == 0)
                &&& final(self).lexer@ == spec_next(old(self).lexer@).st
                &&& token_matches(final(self).current, spec_next(old(self).lexer@))
            }),
            depth >= 8 && lone_return(*old(self)) ==> ({
                let m1 = spec_next(old(self).lexer@);
                let m2 = spec_next(m1.st);
                &&& (r matches Ok(sn) && sn.stmt matches Stmt::Return(es) && es@.len() == 1
                    && model_primary_shape(m1, es@[0].expr))
                &&& final(self).lexer@ == m2.st
                &&& token_matches(final(self).current, m2)
            }),
            depth >= 8 && lone_local(*old(self)) ==> ({
                let m1 = spec_next(old(self).lexer@);
                let m3 = spec_next(spec_next(m1.st).st);
                let m4 = spec_next(m3.st);
                &&& (r matches Ok(sn) && sn.stmt matches Stmt::LocalAssign(ns, vs) && ns@.len()
                    == 1 && ns@[0]@ == m1.text && vs@.len() == 1 && model_primary_shape(
                    m3,
                    vs@[0].expr,
                ))
                &&& final(self).lexer@ == m4.st
                &&& token_matches(final(self).current, m4)
            }),
            depth >= 8 && lone_assignment(*old(self)) ==> ({
                let m1 = spec_next(old(self).lexer@);
                let m2 = spec_next(m1.st);
                let m3 = spec_next(m2.st);
                &&& (r matches Ok(sn) && sn.stmt matches Stmt::Assign(ts, vs) && ts@.len() == 1
                    && vs@.len() == 1 && (ts@[0].expr matches Expr::Ident(w) && w@ == old(
                    self,
                ).current.spec_text()) && model_primary_shape(m2, vs@[0].expr))
                &&& final(self).lexer@ == m3.st
                &&& token_matches(final(self).current, m3)
            }),
        decreases depth,
    {
        if depth == 0 {
            return Err(self.err_too_deep());
        }
        let start = self.lexer.line_number();
        let k = self.current.kind();
        let stmt: Stmt = match k {
            TokenKind::Break => {
                self.advance()?;
                Stmt::Break
            },
            TokenKind::Return => {
                self.advance()?;
                let kk = self.current.kind();
                if ends_block(kk) {
                    Stmt::Return(Vec::new())
                } else {
                    let es = self.exprlist(depth - 1)?;
                    Stmt::Return(es)
                }
            },
            TokenKind::Local => {
                self.advance()?;
                let mut names: Vec<Vec<u8>> = Vec::new();
                let n0 = self.take_name()?;
                names.push(n0);
                let ghost mid = *self;
                let ghost n0s = names@;
                loop
                    invariant
                        self.wf(),
                        self.lexer@.input == old(self).lexer@.input,
                        self.remaining() < old(self).remaining(),
                        self.lexer@.line >= old(self).lexer@.line,
                        old(self).current.spec_kind() == TokenKind::Local,
                        depth >= 8 && lone_local(*old(self)) ==> ({
                            let m1 = spec_next(old(self).lexer@);
                            let m2 = spec_next(m1.st);
                            &&& *self == mid
                            &&& names@ == n0s
                            &&& n0s.len() == 1
                            &&& n0s[0]@ == m1.text
                            &&& mid.lexer@ == m2.st
                            &&& token_matches(mid.current, m2)
                        }),
                    ensures
                        self.wf(),
                        self.lexer@.input == old(self).lexer@.input,
                        self.remaining() < old(self).remaining(),
                        self.lexer@.line >= old(self).lexer@.line,
                        old(self).current.spec_kind() == TokenKind::Local,
                        depth >= 8 && lone_local(*old(self)) ==> ({
                            let m1 = spec_next(old(self).lexer@);
                            let m2 = spec_next(m1.st);
                            &&& *self == mid
                            &&& names@ == n0s
                            &&& n0s.len() == 1
                            &&& n0s[0]@ == m1.text
                            &&& mid.lexer@ == m2.st
                            &&& token_matches(mid.current, m2)
                        }),
                    decreases self.remaining(),
                {
                    if self.current.kind() != TokenKind::Comma {
                        break;
                    }
                    self.advance()?;
                    let n = self.take_name()?;
                    names.push(n);
                }
                if self.current.kind() == TokenKind::Assign {
                    self.advance()?;
                    let vs = self.exprlist(depth - 1)?;
                    Stmt::LocalAssign(names, vs)
                } else {
                    Stmt::LocalAssign(names, Vec::new())
                }
            },
            TokenKind::If => {
                let s = self.if_statement(depth - 1)?;
                s
            },
            TokenKind::While => {
                self.advance()?;
                let cond = self.expression(depth - 1)?;
                self.expect(TokenKind::Do)?;
                let body = self.block(depth - 1)?;
                self.expect(TokenKind::End)?;
                Stmt::While(cond, body)
            },
            TokenKind::Repeat => {
                self.advance()?;
                let body = self.block(depth - 1)?;
                self.expect(TokenKind::Until)?;
                let cond = self.expression(depth - 1)?;
                Stmt::Repeat(cond, body)
            },
            TokenKind::For => {
                let s = self.for_statement(depth - 1)?;
                s
            },
            TokenKind::Function => {
                let s = self.function_statement(depth - 1)?;
                s
            },
            TokenKind::Do => {
                self.advance()?;
                let body = self.block(depth - 1)?;
                self.expect(TokenKind::End)?;
                Stmt::DoBlock(body)
            },
            _ => {
                let e = self.expression(depth - 1)?;
                let is_call = match &e.expr {
                    Expr::FuncCall(_, _) => true,
                    _ => false,
                };
                let is_method = match &e.expr {
                    Expr::MethodCall(_, _, _) => true,
                    _ => false,
                };
                if is_call {
                    Stmt::FuncCall(e)
                } else if is_method {
                    Stmt::MethodCall(e)
                } else {
                    let mut targets: Vec<ExprNode> = Vec::new();
                    targets.push(e);
                    let ghost mid = *self;
                    let ghost t0 = targets@;
                    loop
                        invariant
                            depth >= 1,
                            self.wf(),
                            self.lexer@.input == old(self).lexer@.input,
                            self.remaining() < old(self).remaining(),
                            self.lexer@.line >= old(self).lexer@.line,
                            forall|i: int|
                                0 <= i < targets@.len() ==> (#[trigger] targets@[i]).wf(),
                            targets@.len() >= 1,
                            old(self).current.spec_kind() != TokenKind::Break,
                            old(self).current.spec_kind() != TokenKind::Return,
                            old(self).current.spec_kind() != TokenKind::Local,
                            old(self).current.spec_kind() != TokenKind::If,
                            !(depth >= 8 && lone_call(*old(self))),
                            depth >= 8 && lone_assignment(*old(self)) ==> ({
                                &&& *self == mid
                                &&& targets@ == t0
                                &&& t0.len() == 1
                                &&& (t0[0].expr matches Expr::Ident(w) && w@ == old(
                                    self,
                                ).current.spec_text())
                                &&& mid.lexer@ == spec_next(old(self).lexer@).st
                                &&& token_matches(mid.current, spec_next(old(self).lexer@))
                            }),
                        ensures
                            self.wf(),
                            self.lexer@.input == old(self).lexer@.input,
                            self.remaining() < old(self).remaining(),
                            self.lexer@.line >= old(self).lexer@.line,
                            forall|i: int|
                                0 <= i < targets@.len() ==> (#[trigger] targets@[i]).wf(),
                            targets@.len() >= 1,
                            old(self).current.spec_kind() != TokenKind::Break,
                            old(self).current.spec_kind() != TokenKind::Return,
                            old(self).current.spec_kind() != TokenKind::Local,
                            old(self).current.spec_kind() != TokenKind::If,
                            !(depth >= 8 && lone_call(*old(self))),
                            depth >= 8 && lone_assignment(*old(self)) ==> ({
                                &&& *self == mid
                                &&& targets@ == t0
                                &&& t0.len() == 1
                                &&& (t0[0].expr matches Expr::Ident(w) && w@ == old(
                                    self,
                                ).current.spec_text())
                                &&& mid.lexer@ == spec_next(old(self).lexer@).st
                                &&& token_matches(mid.current, spec_next(old(self).lexer@))
                            }),
                        decreases self.remaining(),
                    {
                        if self.current.kind() != TokenKind::Comma {
                            break;
                        }
                        self.advance()?;
                        let t = self.expression(depth - 1)?;
                        targets.push(t);
                    }
                    self.expect(TokenKind::Assign)?;
                    let vs = self.exprlist(depth - 1)?;
                    Stmt::Assign(targets, vs)
                }
            },
        };
        let end = self.lexer.line_number();
        Ok(StmtNode::new(stmt, (start, end)))
    }

    /// Parse an `if` (or `elseif`) chain from its keyword through the one
    /// `end` that closes the whole chain: each `elseif` becomes a nested
    /// `If` standing alone in the else-branch.
    fn if_statement(&mut self, depth: u32) -> (r: Result<Stmt, Error>)
        requires
            old(self).wf(),
        ensures
            final(self).wf(),
            final(self).lexer@.input == old(self).lexer@.input,
            final(self).remaining() <= old(self).remaining(),
            final(self).lexer@.line >= old(self).lexer@.line,
            r matches Ok(s) ==> s.wf() && final(self).remaining() < old(self).remaining(),
            r matches Ok(s) ==> s is If,
            depth >= 7 && lone_unclosed_if(*old(self)) ==> ({
                let m3 = spec_next(spec_next(spec_next(old(self).lexer@).st).st);
                r matches Err(e) && e matches Error::SyntaxError(se) && se.kind == (
                SyntaxErrorKind::Expected(TokenKind::End, TokenKind::Eof)) && se.line as int
                    == m3.st.line && se.col as int == m3.st.pos - m3.st.off + 1
            }),
        decreases depth,
    {
        if depth == 0 {
            return Err(self.err_too_deep());
        }
        // consume the `if` or `elseif` keyword that brought us here
        self.advance()?;
        let cond = self.expression(depth - 1)?;
        self.expect(TokenKind::Then)?;
        let then_branch = self.block(depth - 1)?;
        let k = self.current.kind();
        let else_branch: Vec<StmtNode> = match k {
            TokenKind::End => {
                self.advance()?;
                Vec::new()
            },
            TokenKind::Else => {
                self.advance()?;
                let els = self.block(depth - 1)?;
                self.expect(TokenKind::End)?;
                els
            },
            TokenKind::Elseif => {
                let start = self.lexer.line_number();
                let inner = self.if_statement(depth - 1)?;
                let end = self.lexer.line_number();
                let mut els: Vec<StmtNode> = Vec::new();
                els.push(StmtNode::new(inner, (start, end)));
                els
            },
            _ => {
                return Err(self.err_expected(TokenKind::End));
            },
        };
        let ite = IfThenElse::new(cond, then_branch, else_branch);
        proof {
            assert(ite.cond.wf());
            assert(forall|i: int|
                0 <= i < ite.then_branch@.len() ==> (#[trigger] ite.then_branch@[i]).wf());
            assert(forall|i: int|
                0 <= i < ite.else_branch@.len() ==> (#[trigger] ite.else_branch@[i]).wf());
            assert(ite.wf());
        }
        Ok(Stmt::If(ite))
    }

    /// Parse a `for` statement, telling the numeric form from the generic
    /// form by the token after the first name.
    fn for_statement(&mut self, depth: u32) -> (r: Result<Stmt, Error>)
        requires
            old(self).wf(),
        ensures
            final(self).wf(),
            final(self).lexer@.input == old(self).lexer@.input,
            final(self).remaining() <= old(self).remaining(),
            final(self).lexer@.line >= old(self).lexer@.line,
            r matches Ok(s) ==> s.wf() && final(self).remaining() < old(self).remaining(),
            r matches Ok(s) ==> s is NumberFor || s is GenericFor,
        decreases depth,
    {
        if depth == 0 {
            return Err(self.err_too_deep());
        }
        self.advance()?;  // `for`
        let name0 = self.take_name()?;
        let k = self.current.kind();
        if k == TokenKind::Assign {
            self.advance()?;
            let init = self.expression(depth - 1)?;
            self.expect(TokenKind::Comma)?;
            let limit = self.expression(depth - 1)?;
            let step: ExprNode = if self.current.kind() == TokenKind::Comma {
                self.advance()?;
                self.expression(depth - 1)?
            } else {
                let l = self.lexer.line_number();
                ExprNode::new(Expr::Integer(1), (l, l))
            };
            self.expect(TokenKind::Do)?;
            let body = self.block(depth - 1)?;
            self.expect(TokenKind::End)?;
            let nf = NumberFor::new(name0, init, limit, step, body);
            proof {
                assert(nf.init.wf());
                assert(nf.limit.wf());
                assert(nf.step.wf());
                assert(forall|i: int| 0 <= i < nf.body@.len() ==> (#[trigger] nf.body@[i]).wf());
                assert(nf.wf());
            }
            Ok(Stmt::NumberFor(nf))
        } else if k == TokenKind::Comma || k == TokenKind::In {
            let mut names: Vec<Vec<u8>> = Vec::new();
            names.push(name0);
            loop
                invariant
                    self.wf(),
                    self.lexer@.input == old(self).lexer@.input,
                    self.remaining() < old(self).remaining(),
                    self.lexer@.line >= old(self).lexer@.line,
                ensures
                    self.wf(),
                    self.lexer@.input == old(self).lexer@.input,
                    self.remaining() < old(self).remaining(),
                    self.lexer@.line >= old(self).lexer@.line,
                decreases self.remaining(),
            {
                if self.current.kind() != TokenKind::Comma {
                    break;
                }
                self.advance()?;
                let n = self.take_name()?;
                names.push(n);
            }
            self.expect(TokenKind::In)?;
            let exprs = self.exprlist(depth - 1)?;
            self.expect(TokenKind::Do)?;
            let body = self.block(depth - 1)?;
            self.expect(TokenKind::End)?;
            Ok(Stmt::GenericFor(GenericFor::new(names, exprs, body)))
        } else {
            Err(self.err_expected(TokenKind::In))
        }
    }

    /// Parse a `function` statement: a dotted name makes a function
    /// definition; a final colon-qualified name makes a method definition
    /// with the implicit receiver parameter injected.
    fn function_statement(&mut self, depth: u32) -> (r: Result<Stmt, Error>)
        requires
            old(self).wf(),
        ensures
            final(self).wf(),
            final(self).lexer@.input == old(self).lexer@.input,
            final(self).remaining() <= old(self).remaining(),
            final(self).lexer@.line >= old(self).lexer@.line,
            r matches Ok(s) ==> s.wf() && final(self).remaining() < old(self).remaining(),
            r matches Ok(s) ==> s is FuncDef || s is MethodDef,
        decreases depth,
    {
        if depth == 0 {
            return Err(self.err_too_deep());
        }
        self.advance()?;  // `function`
        let start = self.lexer.line_number();
        let n0 = self.take_name()?;
        let mut name = ExprNode::new(Expr::Ident(n0), (start, start));
        loop
            invariant
                self.wf(),
                self.lexer@.input == old(self).lexer@.input,
                self.remaining() < old(self).remaining(),
                self.lexer@.line >= old(self).lexer@.line,
                name.wf(),
                start as int <= self.lexer@.line,
            ensures
                self.wf(),
                self.lexer@.input == old(self).lexer@.input,
                self.remaining() < old(self).remaining(),
                self.lexer@.line >= old(self).lexer@.line,
                name.wf(),
                start as int <= self.lexer@.line,
            decreases self.remaining(),
        {
            if self.current.kind() != TokenKind::Dot {
                break;
            }
            self.advance()?;
            let attr = self.take_name()?;
            let end = self.lexer.line_number();
            let key = ExprNode::new(Expr::Str(attr), (end, end));
            proof {
                assert(key.span.wf());
                assert(key.expr.wf());
                assert(key.wf());
            }
            let obj = Box::new(name);
            let keyb = Box::new(key);
            proof {
                assert(obj.wf());
                assert(keyb.wf());
            }
            name = ExprNode::new(Expr::AttrGet(obj, keyb), (start, end));
            proof {
                assert(name.span.wf());
                assert(name.expr.wf());
            }
        }
        if self.current.kind() == TokenKind::Colon {
            self.advance()?;
            let method = self.take_name()?;
            let body = self.func_body(depth - 1, true)?;
            Ok(Stmt::MethodDef(MethodDef::new(name, method, body)))
        } else {
            let body = self.func_body(depth - 1, false)?;
            Ok(Stmt::FuncDef(FuncDef::new(name, body)))
        }
    }

    /// Parse a function body: parameter list, block, `end`; the result is
    /// a first-class `Function` expression. With `with_self`, the implicit
    /// receiver parameter is placed before the declared parameters.
    fn func_body(&mut self, depth: u32, with_self: bool) -> (r: Result<ExprNode, Error>)
        requires
            old(self).wf(),
        ensures
            final(self).wf(),
            final(self).lexer@.input == old(self).lexer@.input,
            final(self).remaining() <= old(self).remaining(),
            final(self).lexer@.line >= old(self).lexer@.line,
            r matches Ok(e) ==> e.wf() && final(self).remaining() < old(self).remaining(),
            r matches Ok(e) ==> e.expr is Function,
        decreases depth,
    {
        if depth == 0 {
            return Err(self.err_too_deep());
        }
        let start = self.lexer.line_number();
        self.expect(TokenKind::ParL)?;
        let mut names: Vec<Vec<u8>> = Vec::new();
        if with_self {
            names.push(self_param_name());
        }
        let mut varargs = false;
        if self.current.kind() != TokenKind::ParR {
            loop
                invariant
                    self.wf(),
                    self.lexer@.input == old(self).lexer@.input,
                    self.remaining() < old(self).remaining(),
                    self.lexer@.line >= old(self).lexer@.line,
                    forall|i: int| 0 <= i < names@.len() ==> (#[trigger] names@[i])@.len() > 0,
                ensures
                    self.wf(),
                    self.lexer@.input == old(self).lexer@.input,
                    self.remaining() < old(self).remaining(),
                    self.lexer@.line >= old(self).lexer@.line,
                    forall|i: int| 0 <= i < names@.len() ==> (#[trigger] names@[i])@.len() > 0,
                decreases self.remaining(),
            {
                if self.current.kind() == TokenKind::Dots {
                    self.advance()?;
                    varargs = true;
                    break;
                }
                let n = self.take_name()?;
                names.push(n);
                if self.current.kind() == TokenKind::Comma {
                    self.advance()?;
                } else {
                    break;
                }
            }
        }
        self.expect(TokenKind::ParR)?;
        let mut pl = ParList::new();
        pl.set_names(names);
        pl.set_vargs(varargs);
        proof {
            assert(pl.wf());
        }
        let body = self.block(depth - 1)?;
        self.expect(TokenKind::End)?;
        let end = self.lexer.line_number();
        Ok(ExprNode::new(Expr::Function(pl, body), (start, end)))
    }

    /// Parse statements until a token that closes a block (`end`, `else`,
    /// `elseif`, `until`, or the end of the input); the caller consumes
    /// the closing token itself.
    fn block(&mut self, depth: u32) -> (r: Result<Vec<StmtNode>, Error>)
        requires
            old(self).wf(),
        ensures
            final(self).wf(),
            final(self).lexer@.input == old(self).lexer@.input,
            final(self).remaining() <= old(self).remaining(),
            final(self).lexer@.line >= old(self).lexer@.line,
            r matches Ok(body) ==> forall|i: int|
                0 <= i < body@.len() ==> (#[trigger] body@[i]).wf(),
            depth > 0 && spec_ends_block(old(self).current.spec_kind()) ==> (
            r matches Ok(body) && body@.len() == 0) && *final(self) == *old(self),
        decreases depth,
    {
        if depth == 0 {
            return Err(self.err_too_deep());
        }
        let mut body: Vec<StmtNode> = Vec::new();
        loop
            invariant
                depth >= 1,
                self.wf(),
                self.lexer@.input == old(self).lexer@.input,
                self.remaining() <= old(self).remaining(),
                self.lexer@.line >= old(self).lexer@.line,
                forall|i: int| 0 <= i < body@.len() ==> (#[trigger] body@[i]).wf(),
                spec_ends_block(old(self).current.spec_kind()) ==> *self == *old(self)
                    && body@.len() == 0,
            ensures
                self.wf(),
                self.lexer@.input == old(self).lexer@.input,
                self.remaining() <= old(self).remaining(),
                self.lexer@.line >= old(self).lexer@.line,
                forall|i: int| 0 <= i < body@.len() ==> (#[trigger] body@[i]).wf(),
                spec_ends_block(old(self).current.spec_kind()) ==> *self == *old(self)
                    && body@.len() == 0,
            decreases self.remaining(),
        {
            if ends_block(self.current.kind()) {
                break;
            }
            let sn = self.statement(depth - 1)?;
            body.push(sn);
        }
        Ok(body)
    }

    /// Parse a comma-separated list of one or more expressions.
    fn exprlist(&mut self, depth: u32) -> (r: Result<Vec<ExprNode>, Error>)
        requires
            old(self).wf(),
        ensures
            final(self).wf(),
            final(self).lexer@.input == old(self).lexer@.input,
            final(self).remaining() <= old(self).remaining(),
            final(self).lexer@.line >= old(self).lexer@.line,
            r matches Ok(es) ==> (forall|i: int|
                0 <= i < es@.len() ==> (#[trigger] es@[i]).wf()) && final(self).remaining() < old(self).remaining() && es@.len() >= 1,
            depth >= 6 && lone_primary(*old(self)) && spec_next(old(self).lexer@).kind
                != TokenKind::Comma ==> ({
                &&& (r matches Ok(es) && es@.len() == 1 && primary_shape(
                    old(self).current,
                    es@[0].expr,
                ))
                &&& final(self).lexer@ == spec_next(old(self).lexer@).st
                &&& token_matches(final(self).current, spec_next(old(self).lexer@))
            }),
        decreases depth,
    {
        if depth == 0 {
            return Err(self.err_too_deep());
        }
        let mut es: Vec<ExprNode> = Vec::new();
        let e0 = self.expression(depth - 1)?;
        es.push(e0);
        let ghost mid = *self;
        let ghost es0 = es@;
        loop
            invariant
                depth >= 1,
                self.wf(),
                self.lexer@.input == old(self).lexer@.input,
                self.remaining() < old(self).remaining(),
                self.lexer@.line >= old(self).lexer@.line,
                forall|i: int| 0 <= i < es@.len() ==> (#[trigger] es@[i]).wf(),
                es@.len() >= 1,
                depth >= 6 && lone_primary(*old(self)) && spec_next(old(self).lexer@).kind
                    != TokenKind::Comma ==> ({
                    &&& *self == mid
                    &&& es@ == es0
                    &&& es0.len() == 1
                    &&& primary_shape(old(self).current, es0[0].expr)
                    &&& mid.lexer@ == spec_next(old(self).lexer@).st
                    &&& token_matches(mid.current, spec_next(old(self).lexer@))
                }),
            ensures
                self.wf(),
                self.lexer@.input == old(self).lexer@.input,
                self.remaining() < old(self).remaining(),
                self.lexer@.line >= old(self).lexer@.line,
                forall|i: int| 0 <= i < es@.len() ==> (#[trigger] es@[i]).wf(),
                es@.len() >= 1,
                depth >= 6 && lone_primary(*old(self)) && spec_next(old(self).lexer@).kind
                    != TokenKind::Comma ==> ({
                    &&& *self == mid
                    &&& es@ == es0
                    &&& es0.len() == 1
                    &&& primary_shape(old(self).current, es0[0].expr)
                    &&& mid.lexer@ == spec_next(old(self).lexer@).st
                    &&& token_matches(mid.current, spec_next(old(self).lexer@))
                }),
            decreases self.remaining(),
        {
            if self.current.kind() != TokenKind::Comma {
                break;
            }
            self.advance()?;
            let e = self.expression(depth - 1)?;
            es.push(e);
        }
        Ok(es)
    }

    /// Parse one expression.
    fn expression(&mut self, depth: u32) -> (r: Result<ExprNode, Error>)
        requires
            old(self).wf(),
        ensures
            final(self).wf(),
            final(self).lexer@.input == old(self).lexer@.input,
            final(self).remaining() <= old(self).remaining(),
            final(self).lexer@.line >= old(self).lexer@.line,
            r matches Ok(e) ==> e.wf() && final(self).remaining() < old(self).remaining(),
            depth >= 5 && !starts_expression(old(self).current.spec_kind()) && old(
                self,
            ).current.spec_kind() != TokenKind::Not && old(self).current.spec_kind()
                != TokenKind::Sub && old(self).current.spec_kind() != TokenKind::Len ==> ({
                &&& *final(self) == *old(self)
                &&& (r matches Err(e) && e matches Error::SyntaxError(se) && se.kind == (
                SyntaxErrorKind::Unexpected(old(self).current.spec_kind())) && se.line as int
                    == old(self).lexer@.line && se.col as int == old(self).lexer@.pos - old(
                    self,
                ).lexer@.off + 1)
            }),
            depth >= 5 && lone_call(*old(self)) ==> ({
                let m3 = spec_next(spec_next(spec_next(old(self).lexer@).st).st);
                &&& (r matches Ok(e) && (e.expr matches Expr::FuncCall(f, args) && (
                f.expr matches Expr::Ident(w) && w@ == old(self).current.spec_text())
                    && args@.len() == 0))
                &&& final(self).lexer@ == m3.st
                &&& token_matches(final(self).current, m3)
            }),
            depth >= 6 && lone_binop(*old(self), 0) ==> ({
                let a = spec_next(old(self).lexer@);
                let u2 = spec_next(a.st);
                let t = spec_next(u2.st);
                &&& (r matches Ok(e) && e.expr matches Expr::BinaryOp(op, l, rr) && op
                    == spec_binop_of(a.kind) && primary_shape(old(self).current, l.expr)
                    && model_primary_shape(u2, rr.expr))
                &&& final(self).lexer@ == t.st
                &&& token_matches(final(self).current, t)
            }),
            depth >= 7 && lone_binop_chain(*old(self), 0) ==> ({
                let a = spec_next(old(self).lexer@);
                let u2 = spec_next(a.st);
                let b = spec_next(u2.st);
                let u3 = spec_next(b.st);
                let t = spec_next(u3.st);
                &&& (r matches Ok(e) && e.expr matches Expr::BinaryOp(op, l, rr) && op
                    == spec_binop_of(a.kind) && primary_shape(old(self).current, l.expr) && (
                rr.expr matches Expr::BinaryOp(op2, rl, rr2) && op2 == spec_binop_of(b.kind)
                    && model_primary_shape(u2, rl.expr) && model_primary_shape(u3, rr2.expr)))
                &&& final(self).lexer@ == t.st
                &&& token_matches(final(self).current, t)
            }),
            depth >= 7 && lone_binop_left(*old(self), 0) ==> ({
                let a = spec_next(old(self).lexer@);
                let u2 = spec_next(a.st);
                let b = spec_next(u2.st);
                let u3 = spec_next(b.st);
                let t = spec_next(u3.st);
                &&& (r matches Ok(e) && e.expr matches Expr::BinaryOp(opb, ll, rr) && opb
                    == spec_binop_of(b.kind) && (ll.expr matches Expr::BinaryOp(opa, l1, r1)
                    && opa == spec_binop_of(a.kind) && primary_shape(old(self).current, l1.expr)
                    && model_primary_shape(u2, r1.expr)) && model_primary_shape(u3, rr.expr))
                &&& final(self).lexer@ == t.st
                &&& token_matches(final(self).current, t)
            }),
            depth >= 5 && lone_primary(*old(self)) ==> ({
                &&& (r matches Ok(e) && primary_shape(old(self).current, e.expr))
                &&& final(self).lexer@ == spec_next(old(self).lexer@).st
                &&& token_matches(final(self).current, spec_next(old(self).lexer@))
            }),
        decreases depth,
    {
        if depth == 0 {
            return Err(self.err_too_deep());
        }
        self.expr_bp(depth - 1, 0)
    }

    /// Precedence climbing: parse an expression whose binary operators all
    /// bind at least as tightly as `min_bp`.
    fn expr_bp(&mut self, depth: u32, min_bp: u32) -> (r: Result<ExprNode, Error>)
        requires
            old(self).wf(),
        ensures
            final(self).wf(),
            final(self).lexer@.input == old(self).lexer@.input,
            final(self).remaining() <= old(self).remaining(),
            final(self).lexer@.line >= old(self).lexer@.line,
            r matches Ok(e) ==> e.wf() && final(self).remaining() < old(self).remaining(),
            depth >= 4 && !starts_expression(old(self).current.spec_kind()) && old(
                self,
            ).current.spec_kind() != TokenKind::Not && old(self).current.spec_kind()
                != TokenKind::Sub && old(self).current.spec_kind() != TokenKind::Len ==> ({
                &&& *final(self) == *old(self)
                &&& (r matches Err(e) && e matches Error::SyntaxError(se) && se.kind == (
                SyntaxErrorKind::Unexpected(old(self).current.spec_kind())) && se.line as int
                    == old(self).lexer@.line && se.col as int == old(self).lexer@.pos - old(
                    self,
                ).lexer@.off + 1)
            }),
            depth >= 4 && lone_operand(*old(self)) && (spec_binop_lbp(spec_next(old(self).lexer@).kind) == 0 || spec_binop_lbp(spec_next(old(self).lexer@).kind) < min_bp) ==> ({
                &&& (r matches Ok(e) && primary_shape(old(self).current, e.expr))
                &&& final(self).lexer@ == spec_next(old(self).lexer@).st
                &&& token_matches(final(self).current, spec_next(old(self).lexer@))
            }),
            depth >= 4 && lone_call(*old(self)) ==> ({
                let m3 = spec_next(spec_next(spec_next(old(self).lexer@).st).st);
                &&& (r matches Ok(e) && (e.expr matches Expr::FuncCall(f, args) && (
                f.expr matches Expr::Ident(w) && w@ == old(self).current.spec_text())
                    && args@.len() == 0))
                &&& final(self).lexer@ == m3.st
                &&& token_matches(final(self).current, m3)
            }),
            depth >= 5 && lone_binop(*old(self), min_bp as int) ==> ({
                let a = spec_next(old(self).lexer@);
                let u2 = spec_next(a.st);
                let t = spec_next(u2.st);
                &&& (r matches Ok(e) && e.expr matches Expr::BinaryOp(op, l, rr) && op
                    == spec_binop_of(a.kind) && primary_shape(old(self).current, l.expr)
                    && model_primary_shape(u2, rr.expr))
                &&& final(self).lexer@ == t.st
                &&& token_matches(final(self).current, t)
            }),
            depth >= 6 && lone_binop_chain(*old(self), min_bp as int) ==> ({
                let a = spec_next(old(self).lexer@);
                let u2 = spec_next(a.st);
                let b = spec_next(u2.st);
                let u3 = spec_next(b.st);
                let t = spec_next(u3.st);
                &&& (r matches Ok(e) && e.expr matches Expr::BinaryOp(op, l, rr) && op
                    == spec_binop_of(a.kind) && primary_shape(old(self).current, l.expr) && (
                rr.expr matches Expr::BinaryOp(op2, rl, rr2) && op2 == spec_binop_of(b.kind)
                    && model_primary_shape(u2, rl.expr) && model_primary_shape(u3, rr2.expr)))
                &&& final(self).lexer@ == t.st
                &&& token_matches(final(self).current, t)
            }),
            depth >= 6 && lone_binop_left(*old(self), min_bp as int) ==> ({
                let a = spec_next(old(self).lexer@);
                let u2 = spec_next(a.st);
                let b = spec_next(u2.st);
                let u3 = spec_next(b.st);
                let t = spec_next(u3.st);
                &&& (r matches Ok(e) && e.expr matches Expr::BinaryOp(opb, ll, rr) && opb
                    == spec_binop_of(b.kind) && (ll.expr matches Expr::BinaryOp(opa, l1, r1)
                    && opa == spec_binop_of(a.kind) && primary_shape(old(self).current, l1.expr)
                    && model_primary_shape(u2, r1.expr)) && model_primary_shape(u3, rr.expr))
                &&& final(self).lexer@ == t.st
                &&& token_matches(final(self).current, t)
            }),
        decreases depth,
    {
        if depth == 0 {
            return Err(self.err_too_deep());
        }
        let start = self.lexer.line_number();
        let mut lhs = self.unary_expr(depth - 1)?;
        let ghost mid = *self;
        let ghost lhs0 = lhs;
        loop
            invariant
                depth >= 1,
                self.wf(),
                self.lexer@.input == old(self).lexer@.input,
                self.remaining() < old(self).remaining(),
                self.lexer@.line >= old(self).lexer@.line,
                lhs.wf(),
                start as int <= self.lexer@.line,
                depth >= 4 ==> (starts_expression(old(self).current.spec_kind()) || old(
                    self,
                ).current.spec_kind() == TokenKind::Not || old(self).current.spec_kind()
                    == TokenKind::Sub || old(self).current.spec_kind() == TokenKind::Len),
                depth >= 4 && lone_operand(*old(self)) && (spec_binop_lbp(spec_next(old(self).lexer@).kind) == 0 || spec_binop_lbp(spec_next(old(self).lexer@).kind) < min_bp) ==> ({
                    &&& *self == mid
                    &&& lhs == lhs0
                    &&& primary_shape(old(self).current, lhs0.expr)
                    &&& mid.lexer@ == spec_next(old(self).lexer@).st
                    &&& token_matches(mid.current, spec_next(old(self).lexer@))
                }),
                depth >= 4 && lone_call(*old(self)) ==> ({
                    let m3 = spec_next(spec_next(spec_next(old(self).lexer@).st).st);
                    &&& *self == mid
                    &&& lhs == lhs0
                    &&& (lhs0.expr matches Expr::FuncCall(f, args) && (
                    f.expr matches Expr::Ident(w) && w@ == old(self).current.spec_text())
                        && args@.len() == 0)
                    &&& mid.lexer@ == m3.st
                    &&& token_matches(mid.current, m3)
                }),
                depth >= 5 && lone_binop(*old(self), min_bp as int) ==> ({
                    let a = spec_next(old(self).lexer@);
                    let u2 = spec_next(a.st);
                    let t = spec_next(u2.st);
                    ||| ({
                        &&& *self == mid
                        &&& lhs == lhs0
                        &&& primary_shape(old(self).current, lhs0.expr)
                        &&& mid.lexer@ == a.st
                        &&& token_matches(mid.current, a)
                    })
                    ||| ({
                        &&& (lhs.expr matches Expr::BinaryOp(op, l, rr) && op == spec_binop_of(
                            a.kind,
                        ) && primary_shape(old(self).current, l.expr) && model_primary_shape(
                            u2,
                            rr.expr,
                        ))
                        &&& self.lexer@ == t.st
                        &&& token_matches(self.current, t)
                    })
                }),
                depth >= 6 && lone_binop_chain(*old(self), min_bp as int) ==> ({
                    let a = spec_next(old(self).lexer@);
                    let u2 = spec_next(a.st);
                    let b = spec_next(u2.st);
                    let u3 = spec_next(b.st);
                    let t = spec_next(u3.st);
                    ||| ({
                        &&& *self == mid
                        &&& lhs == lhs0
                        &&& primary_shape(old(self).current, lhs0.expr)
                        &&& mid.lexer@ == a.st
                        &&& token_matches(mid.current, a)
                    })
                    ||| ({
                        &&& (lhs.expr matches Expr::BinaryOp(op, l, rr) && op == spec_binop_of(
                            a.kind,
                        ) && primary_shape(old(self).current, l.expr) && (
                        rr.expr matches Expr::BinaryOp(op2, rl, rr2) && op2 == spec_binop_of(
                            b.kind,
                        ) && model_primary_shape(u2, rl.expr) && model_primary_shape(
                            u3,
                            rr2.expr,
                        )))
                        &&& self.lexer@ == t.st
                        &&& token_matches(self.current, t)
                    })
                }),
                depth >= 6 && lone_binop_left(*old(self), min_bp as int) ==> ({
                    let a = spec_next(old(self).lexer@);
                    let u2 = spec_next(a.st);
                    let b = spec_next(u2.st);
                    let u3 = spec_next(b.st);
                    let t = spec_next(u3.st);
                    ||| ({
                        &&& *self == mid
                        &&& lhs == lhs0
                        &&& primary_shape(old(self).current, lhs0.expr)
                        &&& mid.lexer@ == a.st
                        &&& token_matches(mid.current, a)
                    })
                    ||| ({
                        &&& (lhs.expr matches Expr::BinaryOp(opa, l1, r1) && opa
                            == spec_binop_of(a.kind) && primary_shape(
                            old(self).current,
                            l1.expr,
                        ) && model_primary_shape(u2, r1.expr))
                        &&& self.lexer@ == b.st
                        &&& token_matches(self.current, b)
                    })
                    ||| ({
                        &&& (lhs.expr matches Expr::BinaryOp(opb, ll, rr) && opb
                            == spec_binop_of(b.kind) && (
                        ll.expr matches Expr::BinaryOp(opa, l1, r1) && opa == spec_binop_of(
                            a.kind,
                        ) && primary_shape(old(self).current, l1.expr) && model_primary_shape(
                            u2,
                            r1.expr,
                        )) && model_primary_shape(u3, rr.expr))
                        &&& self.lexer@ == t.st
                        &&& token_matches(self.current, t)
                    })
                }),
            ensures
                self.wf(),
                self.lexer@.input == old(self).lexer@.input,
                self.remaining() < old(self).remaining(),
                self.lexer@.line >= old(self).lexer@.line,
                lhs.wf(),
                depth >= 4 ==> (starts_expression(old(self).current.spec_kind()) || old(
                    self,
                ).current.spec_kind() == TokenKind::Not || old(self).current.spec_kind()
                    == TokenKind::Sub || old(self).current.spec_kind() == TokenKind::Len),
                depth >= 4 && lone_operand(*old(self)) && (spec_binop_lbp(spec_next(old(self).lexer@).kind) == 0 || spec_binop_lbp(spec_next(old(self).lexer@).kind) < min_bp) ==> ({
                    &&& *self == mid
                    &&& lhs == lhs0
                    &&& primary_shape(old(self).current, lhs0.expr)
                    &&& mid.lexer@ == spec_next(old(self).lexer@).st
                    &&& token_matches(mid.current, spec_next(old(self).lexer@))
                }),
                depth >= 4 && lone_call(*old(self)) ==> ({
                    let m3 = spec_next(spec_next(spec_next(old(self).lexer@).st).st);
                    &&& *self == mid
                    &&& lhs == lhs0
                    &&& (lhs0.expr matches Expr::FuncCall(f, args) && (
                    f.expr matches Expr::Ident(w) && w@ == old(self).current.spec_text())
                        && args@.len() == 0)
                    &&& mid.lexer@ == m3.st
                    &&& token_matches(mid.current, m3)
                }),
                depth >= 5 && lone_binop(*old(self), min_bp as int) ==> ({
                    let a = spec_next(old(self).lexer@);
                    let u2 = spec_next(a.st);
                    let t = spec_next(u2.st);
                    &&& (lhs.expr matches Expr::BinaryOp(op, l, rr) && op == spec_binop_of(
                        a.kind,
                    ) && primary_shape(old(self).current, l.expr) && model_primary_shape(
                        u2,
                        rr.expr,
                    ))
                    &&& self.lexer@ == t.st
                    &&& token_matches(self.current, t)
                }),
                depth >= 6 && lone_binop_chain(*old(self), min_bp as int) ==> ({
                    let a = spec_next(old(self).lexer@);
                    let u2 = spec_next(a.st);
                    let b = spec_next(u2.st);
                    let u3 = spec_next(b.st);
                    let t = spec_next(u3.st);
                    &&& (lhs.expr matches Expr::BinaryOp(op, l, rr) && op == spec_binop_of(
                        a.kind,
                    ) && primary_shape(old(self).current, l.expr) && (
                    rr.expr matches Expr::BinaryOp(op2, rl, rr2) && op2 == spec_binop_of(
                        b.kind,
                    ) && model_primary_shape(u2, rl.expr) && model_primary_shape(u3, rr2.expr)))
                    &&& self.lexer@ == t.st
                    &&& token_matches(self.current, t)
                }),
                depth >= 6 && lone_binop_left(*old(self), min_bp as int) ==> ({
                    let a = spec_next(old(self).lexer@);
                    let u2 = spec_next(a.st);
                    let b = spec_next(u2.st);
                    let u3 = spec_next(b.st);
                    let t = spec_next(u3.st);
                    &&& (lhs.expr matches Expr::BinaryOp(opb, ll, rr) && opb == spec_binop_of(
                        b.kind,
                    ) && (ll.expr matches Expr::BinaryOp(opa, l1, r1) && opa == spec_binop_of(
                        a.kind,
                    ) && primary_shape(old(self).current, l1.expr) && model_primary_shape(
                        u2,
                        r1.expr,
                    )) && model_primary_shape(u3, rr.expr))
                    &&& self.lexer@ == t.st
                    &&& token_matches(self.current, t)
                }),
            decreases self.remaining(),
        {
            let k = self.current.kind();
            let lbp = binop_left_power(k);
            if lbp == 0 || lbp < min_bp {
                break;
            }
            let op = binop_of(k);
            let rbp = binop_right_power(k);
            self.advance()?;
            let rhs = self.expr_bp(depth - 1, rbp)?;
            let end = self.lexer.line_number();
            lhs = ExprNode::new(
                Expr::BinaryOp(op, Box::new(lhs), Box::new(rhs)),
                (start, end),
            );
        }
        Ok(lhs)
    }

    /// Parse a prefix-operator expression, or fall through to a postfix
    /// chain. The operand of a unary operator binds more tightly than
    /// every binary operator except power.
    fn unary_expr(&mut self, depth: u32) -> (r: Result<ExprNode, Error>)
        requires
            old(self).wf(),
        ensures
            final(self).wf(),
            final(self).lexer@.input == old(self).lexer@.input,
            final(self).remaining() <= old(self).remaining(),
            final(self).lexer@.line >= old(self).lexer@.line,
            r matches Ok(e) ==> e.wf() && final(self).remaining() < old(self).remaining(),
            depth >= 3 && !starts_expression(old(self).current.spec_kind()) && old(
                self,
            ).current.spec_kind() != TokenKind::Not && old(self).current.spec_kind()
                != TokenKind::Sub && old(self).current.spec_kind() != TokenKind::Len ==> ({
                &&& *final(self) == *old(self)
                &&& (r matches Err(e) && e matches Error::SyntaxError(se) && se.kind == (
                SyntaxErrorKind::Unexpected(old(self).current.spec_kind())) && se.line as int
                    == old(self).lexer@.line && se.col as int == old(self).lexer@.pos - old(
                    self,
                ).lexer@.off + 1)
            }),
            depth >= 3 && lone_call(*old(self)) ==> ({
                let m3 = spec_next(spec_next(spec_next(old(self).lexer@).st).st);
                &&& (r matches Ok(e) && (e.expr matches Expr::FuncCall(f, args) && (
                f.expr matches Expr::Ident(w) && w@ == old(self).current.spec_text())
                    && args@.len() == 0))
                &&& final(self).lexer@ == m3.st
                &&& token_matches(final(self).current, m3)
            }),
            depth >= 3 && lone_operand(*old(self)) ==> ({
                &&& (r matches Ok(e) && primary_shape(old(self).current, e.expr))
                &&& final(self).lexer@ == spec_next(old(self).lexer@).st
                &&& token_matches(final(self).current, spec_next(old(self).lexer@))
            }),
            r matches Ok(e) ==> ({
                &&& (old(self).current.spec_kind() == TokenKind::Not ==> (
                e.expr matches Expr::UnaryOp(op, _) && op == UnaryOpr::Not))
                &&& (old(self).current.spec_kind() == TokenKind::Sub ==> (
                e.expr matches Expr::UnaryOp(op, _) && op == UnaryOpr::Minus))
                &&& (old(self).current.spec_kind() == TokenKind::Len ==> (
                e.expr matches Expr::UnaryOp(op, _) && op == UnaryOpr::Length))
            }),
        decreases depth,
    {
        if depth == 0 {
            return Err(self.err_too_deep());
        }
        let k = self.current.kind();
        let op: UnaryOpr = match k {
            TokenKind::Not => UnaryOpr::Not,
            TokenKind::Sub => UnaryOpr::Minus,
            TokenKind::Len => UnaryOpr::Length,
            _ => UnaryOpr::NoUnary,
        };
        match op {
            UnaryOpr::NoUnary => self.postfix_expr(depth - 1),
            _ => {
                let start = self.lexer.line_number();
                self.advance()?;
                let operand = self.expr_bp(depth - 1, 13)?;
                let end = self.lexer.line_number();
                Ok(ExprNode::new(Expr::UnaryOp(op, Box::new(operand)), (start, end)))
            },
        }
    }

    /// Parse a primary expression and its postfix chain, left to right:
    /// call arguments, field access, bracketed indexing, method calls.
    fn postfix_expr(&mut self, depth: u32) -> (r: Result<ExprNode, Error>)
        requires
            old(self).wf(),
        ensures
            final(self).wf(),
            final(self).lexer@.input == old(self).lexer@.input,
            final(self).remaining() <= old(self).remaining(),
            final(self).lexer@.line >= old(self).lexer@.line,
            r matches Ok(e) ==> e.wf() && final(self).remaining() < old(self).remaining(),
            depth >= 2 && !starts_expression(old(self).current.spec_kind()) && old(
                self,
            ).current.spec_kind() != TokenKind::Not && old(self).current.spec_kind()
                != TokenKind::Sub && old(self).current.spec_kind() != TokenKind::Len ==> ({
                &&& *final(self) == *old(self)
                &&& (r matches Err(e) && e matches Error::SyntaxError(se) && se.kind == (
                SyntaxErrorKind::Unexpected(old(self).current.spec_kind())) && se.line as int
                    == old(self).lexer@.line && se.col as int == old(self).lexer@.pos - old(
                    self,
                ).lexer@.off + 1)
            }),
            depth >= 2 && lone_call(*old(self)) ==> ({
                let m3 = spec_next(spec_next(spec_next(old(self).lexer@).st).st);
                &&& (r matches Ok(e) && (e.expr matches Expr::FuncCall(f, args) && (
                f.expr matches Expr::Ident(w) && w@ == old(self).current.spec_text())
                    && args@.len() == 0))
                &&& final(self).lexer@ == m3.st
                &&& token_matches(final(self).current, m3)
            }),
            depth >= 2 && lone_operand(*old(self)) ==> ({
                &&& (r matches Ok(e) && primary_shape(old(self).current, e.expr))
                &&& final(self).lexer@ == spec_next(old(self).lexer@).st
                &&& token_matches(final(self).current, spec_next(old(self).lexer@))
            }),
        decreases depth,
    {
        if depth == 0 {
            return Err(self.err_too_deep());
        }
        let start = self.lexer.line_number();
        let mut e = self.primary_expr(depth - 1)?;
        let ghost mid = *self;
        let ghost e0 = e;
        loop
            invariant
                depth >= 1,
                self.wf(),
                self.lexer@.input == old(self).lexer@.input,
                self.remaining() < old(self).remaining(),
                self.lexer@.line >= old(self).lexer@.line,
                e.wf(),
                start as int <= self.lexer@.line,
                depth >= 2 ==> starts_expression(old(self).current.spec_kind()),
                depth >= 2 && lone_operand(*old(self)) ==> ({
                    &&& *self == mid
                    &&& e == e0
                    &&& primary_shape(old(self).current, e0.expr)
                    &&& mid.lexer@ == spec_next(old(self).lexer@).st
                    &&& token_matches(mid.current, spec_next(old(self).lexer@))
                }),
                depth >= 2 && lone_call(*old(self)) ==> ({
                    let m1 = spec_next(old(self).lexer@);
                    let m3 = spec_next(spec_next(m1.st).st);
                    ||| ({
                        &&& *self == mid
                        &&& e == e0
                        &&& (e0.expr matches Expr::Ident(w) && w@ == old(
                            self,
                        ).current.spec_text())
                        &&& mid.lexer@ == m1.st
                        &&& token_matches(mid.current, m1)
                    })
                    ||| ({
                        &&& (e.expr matches Expr::FuncCall(f, args) && (
                        f.expr matches Expr::Ident(w) && w@ == old(self).current.spec_text())
                            && args@.len() == 0)
                        &&& self.lexer@ == m3.st
                        &&& token_matches(self.current, m3)
                    })
                }),
            ensures
                self.wf(),
                self.lexer@.input == old(self).lexer@.input,
                self.remaining() < old(self).remaining(),
                self.lexer@.line >= old(self).lexer@.line,
                e.wf(),
                depth >= 2 ==> starts_expression(old(self).current.spec_kind()),
                depth >= 2 && lone_operand(*old(self)) ==> ({
                    &&& *self == mid
                    &&& e == e0
                    &&& primary_shape(old(self).current, e0.expr)
                    &&& mid.lexer@ == spec_next(old(self).lexer@).st
                    &&& token_matches(mid.current, spec_next(old(self).lexer@))
                }),
                depth >= 2 && lone_call(*old(self)) ==> ({
                    let m3 = spec_next(spec_next(spec_next(old(self).lexer@).st).st);
                    &&& (e.expr matches Expr::FuncCall(f, args) && (
                    f.expr matches Expr::Ident(w) && w@ == old(self).current.spec_text())
                        && args@.len() == 0)
                    &&& self.lexer@ == m3.st
                    &&& token_matches(self.current, m3)
                }),
            decreases self.remaining(),
        {
            let k = self.current.kind();
            if k == TokenKind::ParL {
                self.advance()?;
                let args: Vec<ExprNode> = if self.current.kind() != TokenKind::ParR {
                    self.exprlist(depth - 1)?
                } else {
                    Vec::new()
                };
                self.expect(TokenKind::ParR)?;
                let end = self.lexer.line_number();
                e = ExprNode::new(Expr::FuncCall(Box::new(e), args), (start, end));
                proof {
                    assert(e.span.wf());
                    assert(e.expr.wf());
                }
            } else if k == TokenKind::Dot {
                self.advance()?;
                let attr = self.take_name()?;
                let end = self.lexer.line_number();
                let key = ExprNode::new(Expr::Str(attr), (end, end));
                proof {
                    assert(key.span.wf());
                    assert(key.expr.wf());
                    assert(key.wf());
                }
                let obj = Box::new(e);
                let keyb = Box::new(key);
                proof {
                    assert(obj.wf());
                    assert(keyb.wf());
                }
                e = ExprNode::new(Expr::AttrGet(obj, keyb), (start, end));
                proof {
                    assert(e.span.wf());
                    assert(e.expr.wf());
                }
            } else if k == TokenKind::SqurL {
                self.advance()?;
                let key = self.expression(depth - 1)?;
                self.expect(TokenKind::SqurR)?;
                let end = self.lexer.line_number();
                let obj = Box::new(e);
                let keyb = Box::new(key);
                e = ExprNode::new(Expr::AttrGet(obj, keyb), (start, end));
                proof {
                    assert(e.span.wf());
                    assert(e.expr.wf());
                }
            } else if k == TokenKind::Colon {
                self.advance()?;
                let method = self.take_name()?;
                self.expect(TokenKind::ParL)?;
                let args: Vec<ExprNode> = if self.current.kind() != TokenKind::ParR {
                    self.exprlist(depth - 1)?
                } else {
                    Vec::new()
                };
                self.expect(TokenKind::ParR)?;
                let end = self.lexer.line_number();
                e = ExprNode::new(Expr::MethodCall(Box::new(e), method, args), (start, end));
                proof {
                    assert(e.span.wf());
                    assert(e.expr.wf());
                }
            } else {
                break;
            }
        }
        Ok(e)
    }

    /// Parse a primary expression: a literal, `...`, an identifier, a
    /// parenthesized sub-expression, a table constructor, or an anonymous
    /// function.
    fn primary_expr(&mut self, depth: u32) -> (r: Result<ExprNode, Error>)
        requires
            old(self).wf(),
        ensures
            final(self).wf(),
            final(self).lexer@.input == old(self).lexer@.input,
            final(self).remaining() <= old(self).remaining(),
            final(self).lexer@.line >= old(self).lexer@.line,
            r matches Ok(e) ==> e.wf() && final(self).remaining() < old(self).remaining(),
            r matches Ok(e) ==> primary_shape(old(self).current, e.expr),
            depth >= 6 && lone_paren(*old(self)) ==> ({
                let m1 = spec_next(old(self).lexer@);
                let m3 = spec_next(spec_next(m1.st).st);
                &&& (r matches Ok(e) && model_primary_shape(m1, e.expr))
                &&& final(self).lexer@ == m3.st
                &&& token_matches(final(self).current, m3)
            }),
            depth >= 6 && lone_unclosed_paren(*old(self)) ==> ({
                let m2 = spec_next(spec_next(old(self).lexer@).st);
                r matches Err(e) && e matches Error::SyntaxError(se) && se.kind == (
                SyntaxErrorKind::Expected(TokenKind::ParR, m2.kind)) && se.line as int
                    == m2.st.line && se.col as int == m2.st.pos - m2.st.off + 1
            }),
            depth >= 1 && simple_primary(old(self).current.spec_kind()) && spec_next(
                old(self).lexer@,
            ).err is None ==> ({
                &&& (r matches Ok(e) && primary_shape(old(self).current, e.expr))
                &&& final(self).lexer@ == spec_next(old(self).lexer@).st
                &&& token_matches(final(self).current, spec_next(old(self).lexer@))
            }),
            depth > 0 && !starts_expression(old(self).current.spec_kind()) ==> ({
                &&& *final(self) == *old(self)
                &&& (r matches Err(e) && e matches Error::SyntaxError(se) && se.kind == (
                SyntaxErrorKind::Unexpected(old(self).current.spec_kind())) && se.line as int
                    == old(self).lexer@.line && se.col as int == old(self).lexer@.pos - old(
                    self,
                ).lexer@.off + 1)
            }),
        decreases depth,
    {
        if depth == 0 {
            return Err(self.err_too_deep());
        }
        let start = self.lexer.line_number();
        let k = self.current.kind();
        if k == TokenKind::Nil {
            self.advance()?;
            let end = self.lexer.line_number();
            Ok(ExprNode::new(Expr::Nil, (start, end)))
        } else if k == TokenKind::True {
            self.advance()?;
            let end = self.lexer.line_number();
            Ok(ExprNode::new(Expr::Bool(true), (start, end)))
        } else if k == TokenKind::False {
            self.advance()?;
            let end = self.lexer.line_number();
            Ok(ExprNode::new(Expr::Bool(false), (start, end)))
        } else if k == TokenKind::Dots {
            self.advance()?;
            let end = self.lexer.line_number();
            Ok(ExprNode::new(Expr::Dots, (start, end)))
        } else if k == TokenKind::Integer {
            let t = self.take_token()?;
            let n: i64 = match t {
                Token::Integer(n) => n,
                _ => 0,
            };
            let end = self.lexer.line_number();
            Ok(ExprNode::new(Expr::Integer(n), (start, end)))
        } else if k == TokenKind::Float {
            let t = self.take_token()?;
            let w: Vec<u8> = match t {
                Token::Float(w) => w,
                _ => Vec::new(),
            };
            let end = self.lexer.line_number();
            Ok(ExprNode::new(Expr::Float(w), (start, end)))
        } else if k == TokenKind::Str {
            let t = self.take_token()?;
            let w: Vec<u8> = match t {
                Token::Str(w) => w,
                _ => Vec::new(),
            };
            let end = self.lexer.line_number();
            Ok(ExprNode::new(Expr::Str(w), (start, end)))
        } else if k == TokenKind::Name {
            let w = self.take_name()?;
            let end = self.lexer.line_number();
            Ok(ExprNode::new(Expr::Ident(w), (start, end)))
        } else if k == TokenKind::ParL {
            self.advance()?;
            let inner = self.expression(depth - 1)?;
            self.expect(TokenKind::ParR)?;
            Ok(inner)
        } else if k == TokenKind::CurlyL {
            self.table_expr(depth - 1)
        } else if k == TokenKind::Function {
            self.advance()?;
            self.func_body(depth - 1, false)
        } else {
            Err(self.err_unexpected())
        }
    }

    /// Parse a table constructor: fields in order, each `[expr] = expr`,
    /// `name = expr`, or a bare positional expression, separated by commas
    /// or semicolons, with an optional trailing separator.
    fn table_expr(&mut self, depth: u32) -> (r: Result<ExprNode, Error>)
        requires
            old(self).wf(),
            old(self).current.spec_kind() == TokenKind::CurlyL,
        ensures
            final(self).wf(),
            final(self).lexer@.input == old(self).lexer@.input,
            final(self).remaining() <= old(self).remaining(),
            final(self).lexer@.line >= old(self).lexer@.line,
            r matches Ok(e) ==> e.wf() && final(self).remaining() < old(self).remaining(),
            r matches Ok(e) ==> e.expr is Table,
        decreases depth,
    {
        if depth == 0 {
            return Err(self.err_too_deep());
        }
        let start = self.lexer.line_number();
        self.advance()?;  // `{`
        let mut fields: Vec<Field> = Vec::new();
        loop
            invariant
                depth >= 1,
                self.wf(),
                self.lexer@.input == old(self).lexer@.input,
                self.remaining() < old(self).remaining(),
                self.lexer@.line >= old(self).lexer@.line,
                forall|i: int| 0 <= i < fields@.len() ==> (#[trigger] fields@[i]).wf(),
            ensures
                self.wf(),
                self.lexer@.input == old(self).lexer@.input,
                self.remaining() < old(self).remaining(),
                self.lexer@.line >= old(self).lexer@.line,
                forall|i: int| 0 <= i < fields@.len() ==> (#[trigger] fields@[i]).wf(),
            decreases self.remaining(),
        {
            if self.current.kind() == TokenKind::CurlyR {
                break;
            }
            if self.current.kind() == TokenKind::SqurL {
                self.advance()?;
                let key = self.expression(depth - 1)?;
                self.expect(TokenKind::SqurR)?;
                self.expect(TokenKind::Assign)?;
                let val = self.expression(depth - 1)?;
                fields.push(Field::new(Some(key), val));
            } else {
                let e = self.expression(depth - 1)?;
                let is_ident = match &e.expr {
                    Expr::Ident(_) => true,
                    _ => false,
                };
                if is_ident && self.current.kind() == TokenKind::Assign {
                    self.advance()?;
                    let val = self.expression(depth - 1)?;
                    let key_bytes: Vec<u8> = match e.expr {
                        Expr::Ident(w) => w,
                        _ => Vec::new(),
                    };
                    let key = ExprNode::new(Expr::Str(key_bytes), (e.span.start, e.span.end));
                    fields.push(Field::new(Some(key), val));
                } else {
                    fields.push(Field::new(None, e));
                }
            }
            let sep = self.current.kind();
            if sep == TokenKind::Comma || sep == TokenKind::SemiColon {
                self.advance()?;
            } else {
                break;
            }
        }
        self.expect(TokenKind::CurlyR)?;
        let end = self.lexer.line_number();
        Ok(ExprNode::new(Expr::Table(fields), (start, end)))
    }
}

/// Whether a token kind closes a block: `end`, `else`, `elseif`, `until`
/// or the end of the input.
pub open spec fn spec_ends_block(k: TokenKind) -> bool {
    k == TokenKind::End || k == TokenKind::Else || k == TokenKind::Elseif || k
        == TokenKind::Until || k == TokenKind::Eof
}

/// Whether a token kind closes a block: the statement loop stops there
/// and hands control back to the construct that owns the block.
fn ends_block(k: TokenKind) -> (r: bool)
    ensures
        r == spec_ends_block(k),
{
    k == TokenKind::End || k == TokenKind::Else || k == TokenKind::Elseif || k == TokenKind::Until
        || k == TokenKind::Eof
}

/// The left binding power of a binary operator token, or 0 for a token
/// that is no binary operator. Higher binds tighter: `or` < `and` <
/// comparison < concat < additive < multiplicative < unary < power.
fn binop_left_power(k: TokenKind) -> (p: u32)
    ensures
        p as int == spec_binop_lbp(k),
{
    match k {
        TokenKind::Or => 1,
        TokenKind::And => 3,
        TokenKind::Less => 5,
        TokenKind::Greater => 5,
        TokenKind::LesEq => 5,
        TokenKind::GreEq => 5,
        TokenKind::NotEq => 5,
        TokenKind::Equal => 5,
        TokenKind::Concat => 8,
        TokenKind::Add => 9,
        TokenKind::Sub => 9,
        TokenKind::Mul => 11,
        TokenKind::Div => 11,
        TokenKind::Idiv => 11,
        TokenKind::Mod => 11,
        TokenKind::Pow => 16,
        _ => 0,
    }
}

/// The right binding power: one more than the left for a left-associative
/// operator, one less for the right-associative `..` and `^`.
fn binop_right_power(k: TokenKind) -> (p: u32)
    ensures
        p as int == spec_binop_rbp(k),
{
    match k {
        TokenKind::Or => 2,
        TokenKind::And => 4,
        TokenKind::Less => 6,
        TokenKind::Greater => 6,
        TokenKind::LesEq => 6,
        TokenKind::GreEq => 6,
        TokenKind::NotEq => 6,
        TokenKind::Equal => 6,
        TokenKind::Concat => 7,
        TokenKind::Add => 10,
        TokenKind::Sub => 10,
        TokenKind::Mul => 12,
        TokenKind::Div => 12,
        TokenKind::Idiv => 12,
        TokenKind::Mod => 12,
        TokenKind::Pow => 15,
        _ => 0,
    }
}

/// The AST operator of a binary operator token.
fn binop_of(k: TokenKind) -> (op: BinaryOpr)
    ensures
        op == spec_binop_of(k),
{
    match k {
        TokenKind::Or => BinaryOpr::Or,
        TokenKind::And => BinaryOpr::And,
        TokenKind::Less => BinaryOpr::LT,
        TokenKind::Greater => BinaryOpr::GT,
        TokenKind::LesEq => BinaryOpr::LE,
        TokenKind::GreEq => BinaryOpr::GE,
        TokenKind::NotEq => BinaryOpr::NE,
        TokenKind::Equal => BinaryOpr::Eq,
        TokenKind::Concat => BinaryOpr::Concat,
        TokenKind::Add => BinaryOpr::Add,
        TokenKind::Sub => BinaryOpr::Sub,
        TokenKind::Mul => BinaryOpr::Mul,
        TokenKind::Div => BinaryOpr::Div,
        TokenKind::Idiv => BinaryOpr::IDiv,
        TokenKind::Mod => BinaryOpr::Mod,
        TokenKind::Pow => BinaryOpr::Pow,
        _ => BinaryOpr::NoBinary,
    }
}

/// The implicit receiver parameter's name: the bytes of `self`.
fn self_param_name() -> (w: Vec<u8>)
    ensures
        w@ == seq![('s' as u8), ('e' as u8), ('l' as u8), ('f' as u8)],
{
    let mut w: Vec<u8> = Vec::new();
    w.push('s' as u8);
    w.push('e' as u8);
    w.push('l' as u8);
    w.push('f' as u8);
    proof {
        assert(w@ =~= seq![('s' as u8), ('e' as u8), ('l' as u8), ('f' as u8)]);
    }
    w
}

} // verus!
