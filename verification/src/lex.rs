//! The lexer: turns source bytes into tokens on demand, tracking the
//! 1-based line and column of its scan position for diagnostics.
//!
//! The whole scan is specified by a functional model: `spec_next` says,
//! for any lexer state, exactly which token comes next, what its payload
//! is, and where the lexer stands afterwards. `Lex::next` is proved to
//! follow that model on every call.

use vstd::prelude::*;

verus! {

/// One lexical unit: keyword, operator or punctuation, identifier,
/// literal, or the end-of-input sentinel. Identifier, string and float
/// payloads are the source bytes; a float literal keeps its text so that
/// a consumer may convert it with whatever numeric type it uses.
#[derive(Debug, PartialEq)]
pub enum Token {
    // Keywords
    And,
    Break,
    Do,
    Else,
    Elseif,
    End,
    False,
    For,
    Function,
    Goto,
    If,
    In,
    Local,
    Nil,
    Not,
    Or,
    Repeat,
    Return,
    Then,
    True,
    Until,
    While,
    // Operators
    Add,       // +
    Sub,       // -
    Mul,       // *
    Div,       // /
    Mod,       // %
    Pow,       // ^
    Len,       // #
    BitAnd,    // &
    BitXor,    // ~
    BitOr,     // |
    ShiftL,    // <<
    ShiftR,    // >>
    Idiv,      // //
    Equal,     // ==
    NotEq,     // ~=
    LesEq,     // <=
    GreEq,     // >=
    Less,      // <
    Greater,   // >
    Assign,    // =
    ParL,      // (
    ParR,      // )
    CurlyL,    // {
    CurlyR,    // }
    SqurL,     // [
    SqurR,     // ]
    DoubColon, // ::
    SemiColon, // ;
    Colon,     // :
    Comma,     // ,
    Dot,       // .
    Concat,    // ..
    Dots,      // ...
    // Payload-carrying tokens
    Name(Vec<u8>),
    Str(Vec<u8>),
    Integer(i64),
    Float(Vec<u8>),
    Eof,
}

/// The kind of a token, with payloads stripped: what the parser compares
/// when it expects a particular token.
#[derive(Debug, Clone, Copy, PartialEq, Eq, Structural)]
pub enum TokenKind {
    And,
    Break,
    Do,
    Else,
    Elseif,
    End,
    False,
    For,
    Function,
    Goto,
    If,
    In,
    Local,
    Nil,
    Not,
    Or,
    Repeat,
    Return,
    Then,
    True,
    Until,
    While,
    Add,
    Sub,
    Mul,
    Div,
    Mod,
    Pow,
    Len,
    BitAnd,
    BitXor,
    BitOr,
    ShiftL,
    ShiftR,
    Idiv,
    Equal,
    NotEq,
    LesEq,
    GreEq,
    Less,
    Greater,
    Assign,
    ParL,
    ParR,
    CurlyL,
    CurlyR,
    SqurL,
    SqurR,
    DoubColon,
    SemiColon,
    Colon,
    Comma,
    Dot,
    Concat,
    Dots,
    Name,
    Str,
    Integer,
    Float,
    Eof,
}

impl Token {
    /// The kind of this token.
    pub open spec fn spec_kind(&self) -> TokenKind {
        match self {
            Token::And => TokenKind::And,
            Token::Break => TokenKind::Break,
            Token::Do => TokenKind::Do,
            Token::Else => TokenKind::Else,
            Token::Elseif => TokenKind::Elseif,
            Token::End => TokenKind::End,
            Token::False => TokenKind::False,
            Token::For => TokenKind::For,
            Token::Function => TokenKind::Function,
            Token::Goto => TokenKind::Goto,
            Token::If => TokenKind::If,
            Token::In => TokenKind::In,
            Token::Local => TokenKind::Local,
            Token::Nil => TokenKind::Nil,
            Token::Not => TokenKind::Not,
            Token::Or => TokenKind::Or,
            Token::Repeat => TokenKind::Repeat,
            Token::Return => TokenKind::Return,
            Token::Then => TokenKind::Then,
            Token::True => TokenKind::True,
            Token::Until => TokenKind::Until,
            Token::While => TokenKind::While,
            Token::Add => TokenKind::Add,
            Token::Sub => TokenKind::Sub,
            Token::Mul => TokenKind::Mul,
            Token::Div => TokenKind::Div,
            Token::Mod => TokenKind::Mod,
            Token::Pow => TokenKind::Pow,
            Token::Len => TokenKind::Len,
            Token::BitAnd => TokenKind::BitAnd,
            Token::BitXor => TokenKind::BitXor,
            Token::BitOr => TokenKind::BitOr,
            Token::ShiftL => TokenKind::ShiftL,
            Token::ShiftR => TokenKind::ShiftR,
            Token::Idiv => TokenKind::Idiv,
            Token::Equal => TokenKind::Equal,
            Token::NotEq => TokenKind::NotEq,
            Token::LesEq => TokenKind::LesEq,
            Token::GreEq => TokenKind::GreEq,
            Token::Less => TokenKind::Less,
            Token::Greater => TokenKind::Greater,
            Token::Assign => TokenKind::Assign,
            Token::ParL => TokenKind::ParL,
            Token::ParR => TokenKind::ParR,
            Token::CurlyL => TokenKind::CurlyL,
            Token::CurlyR => TokenKind::CurlyR,
            Token::SqurL => TokenKind::SqurL,
            Token::SqurR => TokenKind::SqurR,
            Token::DoubColon => TokenKind::DoubColon,
            Token::SemiColon => TokenKind::SemiColon,
            Token::Colon => TokenKind::Colon,
            Token::Comma => TokenKind::Comma,
            Token::Dot => TokenKind::Dot,
            Token::Concat => TokenKind::Concat,
            Token::Dots => TokenKind::Dots,
            Token::Name(_) => TokenKind::Name,
            Token::Str(_) => TokenKind::Str,
            Token::Integer(_) => TokenKind::Integer,
            Token::Float(_) => TokenKind::Float,
            Token::Eof => TokenKind::Eof,
        }
    }

    /// The byte payload of a `Name`, `Str` or `Float` token; empty for
    /// every other token.
    pub open spec fn spec_text(&self) -> Seq<u8> {
        match self {
            Token::Name(w) => w@,
            Token::Str(w) => w@,
            Token::Float(w) => w@,
            _ => Seq::empty(),
        }
    }

    /// The value of an `Integer` token; zero for every other token.
    pub open spec fn spec_ival(&self) -> int {
        match self {
            Token::Integer(n) => *n as int,
            _ => 0,
        }
    }

    /// The kind of this token, for the parser's token-kind comparisons.
    pub fn kind(&self) -> (k: TokenKind)
        ensures
            k == self.spec_kind(),
    {
        match self {
            Token::And => TokenKind::And,
            Token::Break => TokenKind::Break,
            Token::Do => TokenKind::Do,
            Token::Else => TokenKind::Else,
            Token::Elseif => TokenKind::Elseif,
            Token::End => TokenKind::End,
            Token::False => TokenKind::False,
            Token::For => TokenKind::For,
            Token::Function => TokenKind::Function,
            Token::Goto => TokenKind::Goto,
            Token::If => TokenKind::If,
            Token::In => TokenKind::In,
            Token::Local => TokenKind::Local,
            Token::Nil => TokenKind::Nil,
            Token::Not => TokenKind::Not,
            Token::Or => TokenKind::Or,
            Token::Repeat => TokenKind::Repeat,
            Token::Return => TokenKind::Return,
            Token::Then => TokenKind::Then,
            Token::True => TokenKind::True,
            Token::Until => TokenKind::Until,
            Token::While => TokenKind::While,
            Token::Add => TokenKind::Add,
            Token::Sub => TokenKind::Sub,
            Token::Mul => TokenKind::Mul,
            Token::Div => TokenKind::Div,
            Token::Mod => TokenKind::Mod,
            Token::Pow => TokenKind::Pow,
            Token::Len => TokenKind::Len,
            Token::BitAnd => TokenKind::BitAnd,
            Token::BitXor => TokenKind::BitXor,
            Token::BitOr => TokenKind::BitOr,
            Token::ShiftL => TokenKind::ShiftL,
            Token::ShiftR => TokenKind::ShiftR,
            Token::Idiv => TokenKind::Idiv,
            Token::Equal => TokenKind::Equal,
            Token::NotEq => TokenKind::NotEq,
            Token::LesEq => TokenKind::LesEq,
            Token::GreEq => TokenKind::GreEq,
            Token::Less => TokenKind::Less,
            Token::Greater => TokenKind::Greater,
            Token::Assign => TokenKind::Assign,
            Token::ParL => TokenKind::ParL,
            Token::ParR => TokenKind::ParR,
            Token::CurlyL => TokenKind::CurlyL,
            Token::CurlyR => TokenKind::CurlyR,
            Token::SqurL => TokenKind::SqurL,
            Token::SqurR => TokenKind::SqurR,
            Token::DoubColon => TokenKind::DoubColon,
            Token::SemiColon => TokenKind::SemiColon,
            Token::Colon => TokenKind::Colon,
            Token::Comma => TokenKind::Comma,
            Token::Dot => TokenKind::Dot,
            Token::Concat => TokenKind::Concat,
            Token::Dots => TokenKind::Dots,
            Token::Name(_) => TokenKind::Name,
            Token::Str(_) => TokenKind::Str,
            Token::Integer(_) => TokenKind::Integer,
            Token::Float(_) => TokenKind::Float,
            Token::Eof => TokenKind::Eof,
        }
    }
}

/// What went wrong while scanning a token.
#[derive(Debug, Clone, Copy, PartialEq, Eq, Structural)]
pub enum LexErrorKind {
    /// A byte that starts no token of the language.
    UnknownByte(u8),
    /// Numeric text that names no value: an integer literal too large for
    /// a 64-bit signed integer, or an exponent with no digits.
    MalformedNumber,
}

/// A lexing error, with the 1-based line and column of the offending text.
#[derive(Debug, Clone, Copy, PartialEq, Eq, Structural)]
pub struct LexError {
    pub kind: LexErrorKind,
    pub line: u32,
    pub col: usize,
}

// ------------------------------------------------------------------
// Character classes
// ------------------------------------------------------------------

/// Whitespace skipped in place: space and tab.
pub open spec fn is_blank(b: u8) -> bool {
    b == (' ' as u8) || b == ('\t' as u8)
}

/// Line ends: carriage return and newline each advance the line counter.
pub open spec fn is_newline(b: u8) -> bool {
    b == ('\r' as u8) || b == ('\n' as u8)
}

pub open spec fn is_digit(b: u8) -> bool {
    ('0' as u8) <= b && b <= ('9' as u8)
}

pub open spec fn is_ident_start(b: u8) -> bool {
    (('a' as u8) <= b && b <= ('z' as u8)) || (('A' as u8) <= b && b <= ('Z' as u8)) || b == ('_' as u8)
}

pub open spec fn is_ident_char(b: u8) -> bool {
    is_ident_start(b) || is_digit(b)
}

// ------------------------------------------------------------------
// The functional model of the scan
// ------------------------------------------------------------------

/// A lexer state: the input bytes, the scan position, the 1-based line
/// number, and the position where the current line begins.
pub ghost struct LexSt {
    pub input: Seq<u8>,
    pub pos: int,
    pub line: int,
    pub off: int,
}

impl LexSt {
    /// Positions stay inside the input, the line origin never passes the
    /// scan position, and the line count never exceeds a position's worth
    /// of line breaks. The input is bounded so line numbers fit in 32 bits.
    pub open spec fn wf(self) -> bool {
        &&& 0 <= self.off <= self.pos <= self.input.len()
        &&& 1 <= self.line <= self.pos + 1
        &&& self.input.len() < 0xFFFF_FFFF
    }
}

/// Advance past blanks and line ends, counting lines.
pub open spec fn skip_ws(st: LexSt) -> LexSt
    decreases st.input.len() - st.pos,
{
    if 0 <= st.pos < st.input.len() {
        if is_blank(st.input[st.pos]) {
            skip_ws(LexSt { input: st.input, pos: st.pos + 1, line: st.line, off: st.off })
        } else if is_newline(st.input[st.pos]) {
            skip_ws(
                LexSt { input: st.input, pos: st.pos + 1, line: st.line + 1, off: st.pos + 1 },
            )
        } else {
            st
        }
    } else {
        st
    }
}

/// The end of the maximal identifier run starting at `pos`.
pub open spec fn ident_end(s: Seq<u8>, pos: int) -> int
    decreases s.len() - pos,
{
    if 0 <= pos < s.len() && is_ident_char(s[pos]) {
        ident_end(s, pos + 1)
    } else {
        pos
    }
}

/// The end of the maximal numeric run starting at `pos`, together with
/// whether a decimal point and an exponent marker were seen. A point is
/// taken only before any exponent marker; a marker is taken only once and
/// may be followed directly by one sign.
pub open spec fn num_end(s: Seq<u8>, pos: int, has_dot: bool, has_exp: bool) -> (int, bool, bool)
    decreases s.len() - pos,
{
    if 0 <= pos < s.len() {
        let b = s[pos];
        if is_digit(b) {
            num_end(s, pos + 1, has_dot, has_exp)
        } else if b == ('.' as u8) && !has_dot && !has_exp {
            num_end(s, pos + 1, true, has_exp)
        } else if (b == ('e' as u8) || b == ('E' as u8)) && !has_exp {
            if pos + 1 < s.len() && (s[pos + 1] == ('+' as u8) || s[pos + 1] == ('-' as u8)) {
                num_end(s, pos + 2, has_dot, true)
            } else {
                num_end(s, pos + 1, has_dot, true)
            }
        } else {
            (pos, has_dot, has_exp)
        }
    } else {
        (pos, has_dot, has_exp)
    }
}

/// The position of the closing quote of a string literal whose contents
/// start at `pos`, or the end of the input if none follows.
pub open spec fn str_end(s: Seq<u8>, pos: int) -> int
    decreases s.len() - pos,
{
    if 0 <= pos < s.len() && s[pos] != ('"' as u8) {
        str_end(s, pos + 1)
    } else {
        pos
    }
}

/// The value of a run of decimal digits, most significant first.
pub open spec fn digits_val(s: Seq<u8>) -> int
    decreases s.len(),
{
    if s.len() == 0 {
        0
    } else {
        digits_val(s.drop_last()) * 10 + (s.last() - ('0' as u8))
    }
}

/// Float text names a value exactly when its exponent part, if any, has
/// at least one digit; within a scanned numeric run that fails only when
/// the text ends with the marker or the sign.
pub open spec fn float_text_ok(w: Seq<u8>) -> bool {
    w.len() > 0 && !(w.last() == ('e' as u8) || w.last() == ('E' as u8) || w.last() == ('+' as u8) || w.last()
        == ('-' as u8))
}

/// The fixed keyword table: the token kind of an identifier run, `Name`
/// for anything not in the table.
pub open spec fn kw_kind(w: Seq<u8>) -> TokenKind {
    if w.len() == 3 && w[0] == ('a' as u8) && w[1] == ('n' as u8) && w[2] == ('d' as u8) {
        TokenKind::And
    } else if w.len() == 5 && w[0] == ('b' as u8) && w[1] == ('r' as u8) && w[2] == ('e' as u8) && w[3] == ('a' as u8) && w[4]
        == ('k' as u8) {
        TokenKind::Break
    } else if w.len() == 2 && w[0] == ('d' as u8) && w[1] == ('o' as u8) {
        TokenKind::Do
    } else if w.len() == 4 && w[0] == ('e' as u8) && w[1] == ('l' as u8) && w[2] == ('s' as u8) && w[3] == ('e' as u8) {
        TokenKind::Else
    } else if w.len() == 6 && w[0] == ('e' as u8) && w[1] == ('l' as u8) && w[2] == ('s' as u8) && w[3] == ('e' as u8) && w[4]
        == ('i' as u8) && w[5] == ('f' as u8) {
        TokenKind::Elseif
    } else if w.len() == 3 && w[0] == ('e' as u8) && w[1] == ('n' as u8) && w[2] == ('d' as u8) {
        TokenKind::End
    } else if w.len() == 5 && w[0] == ('f' as u8) && w[1] == ('a' as u8) && w[2] == ('l' as u8) && w[3] == ('s' as u8) && w[4]
        == ('e' as u8) {
        TokenKind::False
    } else if w.len() == 3 && w[0] == ('f' as u8) && w[1] == ('o' as u8) && w[2] == ('r' as u8) {
        TokenKind::For
    } else if w.len() == 8 && w[0] == ('f' as u8) && w[1] == ('u' as u8) && w[2] == ('n' as u8) && w[3] == ('c' as u8) && w[4]
        == ('t' as u8) && w[5] == ('i' as u8) && w[6] == ('o' as u8) && w[7] == ('n' as u8) {
        TokenKind::Function
    } else if w.len() == 4 && w[0] == ('g' as u8) && w[1] == ('o' as u8) && w[2] == ('t' as u8) && w[3] == ('o' as u8) {
        TokenKind::Goto
    } else if w.len() == 2 && w[0] == ('i' as u8) && w[1] == ('f' as u8) {
        TokenKind::If
    } else if w.len() == 2 && w[0] == ('i' as u8) && w[1] == ('n' as u8) {
        TokenKind::In
    } else if w.len() == 5 && w[0] == ('l' as u8) && w[1] == ('o' as u8) && w[2] == ('c' as u8) && w[3] == ('a' as u8) && w[4]
        == ('l' as u8) {
        TokenKind::Local
    } else if w.len() == 3 && w[0] == ('n' as u8) && w[1] == ('i' as u8) && w[2] == ('l' as u8) {
        TokenKind::Nil
    } else if w.len() == 3 && w[0] == ('n' as u8) && w[1] == ('o' as u8) && w[2] == ('t' as u8) {
        TokenKind::Not
    } else if w.len() == 2 && w[0] == ('o' as u8) && w[1] == ('r' as u8) {
        TokenKind::Or
    } else if w.len() == 6 && w[0] == ('r' as u8) && w[1] == ('e' as u8) && w[2] == ('p' as u8) && w[3] == ('e' as u8) && w[4]
        == ('a' as u8) && w[5] == ('t' as u8) {
        TokenKind::Repeat
    } else if w.len() == 6 && w[0] == ('r' as u8) && w[1] == ('e' as u8) && w[2] == ('t' as u8) && w[3] == ('u' as u8) && w[4]
        == ('r' as u8) && w[5] == ('n' as u8) {
        TokenKind::Return
    } else if w.len() == 4 && w[0] == ('t' as u8) && w[1] == ('h' as u8) && w[2] == ('e' as u8) && w[3] == ('n' as u8) {
        TokenKind::Then
    } else if w.len() == 4 && w[0] == ('t' as u8) && w[1] == ('r' as u8) && w[2] == ('u' as u8) && w[3] == ('e' as u8) {
        TokenKind::True
    } else if w.len() == 5 && w[0] == ('u' as u8) && w[1] == ('n' as u8) && w[2] == ('t' as u8) && w[3] == ('i' as u8) && w[4]
        == ('l' as u8) {
        TokenKind::Until
    } else if w.len() == 5 && w[0] == ('w' as u8) && w[1] == ('h' as u8) && w[2] == ('i' as u8) && w[3] == ('l' as u8) && w[4]
        == ('e' as u8) {
        TokenKind::While
    } else {
        TokenKind::Name
    }
}

/// Operator scan at a non-blank position: the token kind and the position
/// after it, with one byte of lookahead for the two- and three-byte
/// operators; `None` for a byte that starts no token.
pub open spec fn op_scan(s: Seq<u8>, p: int) -> Option<(TokenKind, int)> {
    let b = s[p];
    if b == ('+' as u8) {
        Some((TokenKind::Add, p + 1))
    } else if b == ('-' as u8) {
        Some((TokenKind::Sub, p + 1))
    } else if b == ('*' as u8) {
        Some((TokenKind::Mul, p + 1))
    } else if b == ('/' as u8) {
        if p + 1 < s.len() && s[p + 1] == ('/' as u8) {
            Some((TokenKind::Idiv, p + 2))
        } else {
            Some((TokenKind::Div, p + 1))
        }
    } else if b == ('%' as u8) {
        Some((TokenKind::Mod, p + 1))
    } else if b == ('=' as u8) {
        if p + 1 < s.len() && s[p + 1] == ('=' as u8) {
            Some((TokenKind::Equal, p + 2))
        } else {
            Some((TokenKind::Assign, p + 1))
        }
    } else if b == ('~' as u8) {
        if p + 1 < s.len() && s[p + 1] == ('=' as u8) {
            Some((TokenKind::NotEq, p + 2))
        } else {
            Some((TokenKind::BitXor, p + 1))
        }
    } else if b == ('.' as u8) {
        if p + 1 < s.len() && s[p + 1] == ('.' as u8) {
            if p + 2 < s.len() && s[p + 2] == ('.' as u8) {
                Some((TokenKind::Dots, p + 3))
            } else {
                Some((TokenKind::Concat, p + 2))
            }
        } else {
            Some((TokenKind::Dot, p + 1))
        }
    } else if b == ('<' as u8) {
        if p + 1 < s.len() && s[p + 1] == ('=' as u8) {
            Some((TokenKind::LesEq, p + 2))
        } else {
            Some((TokenKind::Less, p + 1))
        }
    } else if b == ('>' as u8) {
        if p + 1 < s.len() && s[p + 1] == ('=' as u8) {
            Some((TokenKind::GreEq, p + 2))
        } else {
            Some((TokenKind::Greater, p + 1))
        }
    } else if b == ('&' as u8) {
        Some((TokenKind::BitAnd, p + 1))
    } else if b == ('|' as u8) {
        Some((TokenKind::BitOr, p + 1))
    } else if b == ('^' as u8) {
        Some((TokenKind::Pow, p + 1))
    } else if b == ('#' as u8) {
        Some((TokenKind::Len, p + 1))
    } else if b == ('(' as u8) {
        Some((TokenKind::ParL, p + 1))
    } else if b == (')' as u8) {
        Some((TokenKind::ParR, p + 1))
    } else if b == ('{' as u8) {
        Some((TokenKind::CurlyL, p + 1))
    } else if b == ('}' as u8) {
        Some((TokenKind::CurlyR, p + 1))
    } else if b == ('[' as u8) {
        Some((TokenKind::SqurL, p + 1))
    } else if b == (']' as u8) {
        Some((TokenKind::SqurR, p + 1))
    } else if b == (':' as u8) {
        if p + 1 < s.len() && s[p + 1] == (':' as u8) {
            Some((TokenKind::DoubColon, p + 2))
        } else {
            Some((TokenKind::Colon, p + 1))
        }
    } else if b == (';' as u8) {
        Some((TokenKind::SemiColon, p + 1))
    } else if b == (',' as u8) {
        Some((TokenKind::Comma, p + 1))
    } else {
        None
    }
}

/// The outcome the model assigns to one scan: the token's kind, its byte
/// payload and integer value where it has one, the error if the text is
/// refused, and the state afterwards. On an error the state points at the
/// start of the refused text.
pub ghost struct LexRes {
    pub kind: TokenKind,
    pub text: Seq<u8>,
    pub ival: int,
    pub err: Option<LexErrorKind>,
    pub st: LexSt,
}

/// The model of `Lex::next`: one whole scan from a given state.
pub open spec fn spec_next(st0: LexSt) -> LexRes {
    let st = skip_ws(st0);
    let s = st.input;
    let p = st.pos;
    if p >= s.len() {
        LexRes { kind: TokenKind::Eof, text: Seq::empty(), ival: 0, err: None, st }
    } else {
        let b = s[p];
        if is_ident_start(b) {
            let e = ident_end(s, p);
            let w = s.subrange(p, e);
            LexRes {
                kind: kw_kind(w),
                text: if kw_kind(w) == TokenKind::Name {
                    w
                } else {
                    Seq::empty()
                },
                ival: 0,
                err: None,
                st: LexSt { input: s, pos: e, line: st.line, off: st.off },
            }
        } else if is_digit(b) {
            let r = num_end(s, p, false, false);
            let w = s.subrange(p, r.0);
            if r.1 || r.2 {
                if float_text_ok(w) {
                    LexRes {
                        kind: TokenKind::Float,
                        text: w,
                        ival: 0,
                        err: None,
                        st: LexSt { input: s, pos: r.0, line: st.line, off: st.off },
                    }
                } else {
                    LexRes {
                        kind: TokenKind::Eof,
                        text: Seq::empty(),
                        ival: 0,
                        err: Some(LexErrorKind::MalformedNumber),
                        st,
                    }
                }
            } else {
                if digits_val(w) <= i64::MAX {
                    LexRes {
                        kind: TokenKind::Integer,
                        text: Seq::empty(),
                        ival: digits_val(w),
                        err: None,
                        st: LexSt { input: s, pos: r.0, line: st.line, off: st.off },
                    }
                } else {
                    LexRes {
                        kind: TokenKind::Eof,
                        text: Seq::empty(),
                        ival: 0,
                        err: Some(LexErrorKind::MalformedNumber),
                        st,
                    }
                }
            }
        } else if b == ('"' as u8) {
            let e = str_end(s, p + 1);
            let w = s.subrange(p + 1, e);
            let p2 = if e < s.len() {
                e + 1
            } else {
                e
            };
            LexRes {
                kind: TokenKind::Str,
                text: w,
                ival: 0,
                err: None,
                st: LexSt { input: s, pos: p2, line: st.line, off: st.off },
            }
        } else {
            match op_scan(s, p) {
                Some(ke) => LexRes {
                    kind: ke.0,
                    text: Seq::empty(),
                    ival: 0,
                    err: None,
                    st: LexSt { input: s, pos: ke.1, line: st.line, off: st.off },
                },
                None => LexRes {
                    kind: TokenKind::Eof,
                    text: Seq::empty(),
                    ival: 0,
                    err: Some(LexErrorKind::UnknownByte(b)),
                    st,
                },
            }
        }
    }
}

// ------------------------------------------------------------------
// The lexer
// ------------------------------------------------------------------

/// The lexer: input bytes, scan position, and line bookkeeping.
#[derive(Debug)]
pub struct Lex {
    pub input: Vec<u8>,
    pub pos: usize,
    pub line_number: u32,
    pub line_pos_offset: usize,
}

impl View for Lex {
    type V = LexSt;

    open spec fn view(&self) -> LexSt {
        LexSt {
            input: self.input@,
            pos: self.pos as int,
            line: self.line_number as int,
            off: self.line_pos_offset as int,
        }
    }
}

impl Lex {
    pub open spec fn wf(self) -> bool {
        self@.wf()
    }

    /// A lexer positioned at offset 0, line 1 of the given source bytes.
    pub fn new(input: Vec<u8>) -> (l: Self)
        requires
            input@.len() < 0xFFFF_FFFF,
        ensures
            l.wf(),
            l@ == (LexSt { input: input@, pos: 0, line: 1, off: 0 }),
    {
        Self { input, pos: 0, line_number: 1, line_pos_offset: 0 }
    }

    /// The 1-based line of the current scan position.
    pub fn line_number(&self) -> (n: u32)
        ensures
            n == self@.line,
    {
        self.line_number
    }

    /// The 1-based column of the current scan position.
    pub fn line_position(&self) -> (n: usize)
        requires
            self.wf(),
        ensures
            n == self@.pos - self@.off + 1,
    {
        self.pos - self.line_pos_offset + 1
    }

    /// The next token, advancing the scan, exactly as the model `spec_next`
    /// says. Repeated calls at the end of the input return `Eof` forever;
    /// an unknown byte or malformed numeric text is reported as an error
    /// with its position, and the scan does not move past it.
    pub fn next(&mut self) -> (r: Result<Token, LexError>)
        requires
            old(self).wf(),
        ensures
            final(self).wf(),
            final(self)@.input == old(self)@.input,
            final(self)@.pos >= old(self)@.pos,
            final(self)@.line >= old(self)@.line,
            ({
                let m = spec_next(old(self)@);
                match r {
                    Ok(t) => {
                        &&& m.err is None
                        &&& t.spec_kind() == m.kind
                        &&& t.spec_text() == m.text
                        &&& t.spec_ival() == m.ival
                        &&& final(self)@ == m.st
                        &&& (t.spec_kind() != TokenKind::Eof ==> final(self)@.pos > old(
                            self,
                        )@.pos)
                        &&& (t.spec_kind() == TokenKind::Eof ==> final(self)@.pos
                            == final(self)@.input.len())
                        &&& (t.spec_kind() == TokenKind::Name ==> t.spec_text().len() > 0)
                    },
                    Err(e) => {
                        &&& m.err == Some(e.kind)
                        &&& final(self)@ == m.st
                        &&& e.line == m.st.line
                        &&& e.col == m.st.pos - m.st.off + 1
                    },
                }
            }),
    {
        let ghost st0 = self@;
        loop
            invariant
                st0 == old(self)@,
                self.wf(),
                self@.input == st0.input,
                skip_ws(st0) == skip_ws(self@),
                self@.pos >= st0.pos,
                self@.line >= st0.line,
            ensures
                self.wf(),
                self@.input == st0.input,
                self@ == skip_ws(st0),
                self@.pos < self@.input.len(),
                !is_blank(self@.input[self@.pos]),
                !is_newline(self@.input[self@.pos]),
                self@.pos >= st0.pos,
                self@.line >= st0.line,
            decreases self@.input.len() - self@.pos,
        {
            if self.pos >= self.input.len() {
                proof {
                    assert(skip_ws(self@) == self@);
                }
                return Ok(Token::Eof);
            }
            let b = self.input[self.pos];
            if b == (' ' as u8) || b == ('\t' as u8) {
                self.pos = self.pos + 1;
            } else if b == ('\r' as u8) || b == ('\n' as u8) {
                self.pos = self.pos + 1;
                self.line_number = self.line_number + 1;
                self.line_pos_offset = self.pos;
            } else {
                proof {
                    assert(skip_ws(self@) == self@);
                }
                break;
            }
        }
        let b = self.input[self.pos];
        if (('a' as u8) <= b && b <= ('z' as u8)) || (('A' as u8) <= b && b <= ('Z' as u8)) || b == ('_' as u8) {
            Ok(self.lex_identifier())
        } else if ('0' as u8) <= b && b <= ('9' as u8) {
            self.lex_number()
        } else if b == ('"' as u8) {
            Ok(self.lex_string())
        } else {
            self.lex_operator()
        }
    }

    /// Scan a maximal identifier run and classify it against the keyword
    /// table.
    fn lex_identifier(&mut self) -> (t: Token)
        requires
            old(self).wf(),
            old(self)@.pos < old(self)@.input.len(),
            is_ident_start(old(self)@.input[old(self)@.pos]),
        ensures
            final(self).wf(),
            final(self)@ == (LexSt {
                input: old(self)@.input,
                pos: ident_end(old(self)@.input, old(self)@.pos),
                line: old(self)@.line,
                off: old(self)@.off,
            }),
            t.spec_kind() == kw_kind(
                old(self)@.input.subrange(old(self)@.pos, ident_end(old(self)@.input, old(self)@.pos)),
            ),
            t.spec_text() == if t.spec_kind() == TokenKind::Name {
                old(self)@.input.subrange(old(self)@.pos, ident_end(old(self)@.input, old(self)@.pos))
            } else {
                Seq::<u8>::empty()
            },
            t.spec_ival() == 0,
            final(self)@.pos > old(self)@.pos,
    {
        let ghost s = self@.input;
        let start = self.pos;
        loop
            invariant
                self@.input == s,
                start <= self.pos <= self@.input.len(),
                ident_end(s, start as int) == ident_end(s, self.pos as int),
                self@.line == old(self)@.line,
                self@.off == old(self)@.off,
                old(self)@.pos == start,
                self.wf(),
            ensures
                self@.input == s,
                start <= self.pos <= self@.input.len(),
                ident_end(s, start as int) == self.pos as int,
                self@.line == old(self)@.line,
                self@.off == old(self)@.off,
                self.wf(),
            decreases self@.input.len() - self@.pos,
        {
            if self.pos >= self.input.len() {
                proof {
                    assert(ident_end(s, self.pos as int) == self.pos as int);
                }
                break;
            }
            let b = self.input[self.pos];
            if (('a' as u8) <= b && b <= ('z' as u8)) || (('A' as u8) <= b && b <= ('Z' as u8)) || b == ('_' as u8) || (('0' as u8) <= b
                && b <= ('9' as u8)) {
                self.pos = self.pos + 1;
            } else {
                proof {
                    assert(ident_end(s, self.pos as int) == self.pos as int);
                }
                break;
            }
        }
        proof {
            assert(ident_end(s, start as int) == ident_end(s, start as int + 1));
            lemma_ident_end_bounds(s, start as int + 1);
        }
        let w = sub_vec(&self.input, start, self.pos);
        let k = word_kind(&w);
        if k == TokenKind::Name {
            Token::Name(w)
        } else {
            keyword_token(k)
        }
    }

    /// Scan a maximal numeric run; classify it as an integer or a float
    /// by the presence of a decimal point or exponent marker, and refuse
    /// text that names no value.
    fn lex_number(&mut self) -> (r: Result<Token, LexError>)
        requires
            old(self).wf(),
            old(self)@.pos < old(self)@.input.len(),
            is_digit(old(self)@.input[old(self)@.pos]),
        ensures
            final(self).wf(),
            ({
                let s = old(self)@.input;
                let p = old(self)@.pos;
                let ne = num_end(s, p, false, false);
                let w = s.subrange(p, ne.0);
                match r {
                    Ok(t) => {
                        &&& final(self)@ == (LexSt {
                            input: s,
                            pos: ne.0,
                            line: old(self)@.line,
                            off: old(self)@.off,
                        })
                        &&& final(self)@.pos > old(self)@.pos
                        &&& if ne.1 || ne.2 {
                            &&& float_text_ok(w)
                            &&& t.spec_kind() == TokenKind::Float
                            &&& t.spec_text() == w
                            &&& t.spec_ival() == 0
                        } else {
                            &&& digits_val(w) <= i64::MAX
                            &&& t.spec_kind() == TokenKind::Integer
                            &&& t.spec_ival() == digits_val(w)
                            &&& t.spec_text() == Seq::<u8>::empty()
                        }
                    },
                    Err(e) => {
                        &&& final(self)@ == old(self)@
                        &&& e.kind == LexErrorKind::MalformedNumber
                        &&& if ne.1 || ne.2 {
                            !float_text_ok(w)
                        } else {
                            digits_val(w) > i64::MAX
                        }
                        &&& e.line == old(self)@.line
                        &&& e.col == old(self)@.pos - old(self)@.off + 1
                    },
                }
            }),
    {
        let ghost s = self@.input;
        let start = self.pos;
        let mut has_dot = false;
        let mut has_exp = false;
        loop
            invariant
                self@.input == s,
                start <= self.pos <= s.len(),
                num_end(s, start as int, false, false) == num_end(
                    s,
                    self.pos as int,
                    has_dot,
                    has_exp,
                ),
                self@.line == old(self)@.line,
                self@.off == old(self)@.off,
                old(self)@.pos == start,
                start < s.len() && is_digit(s[start as int]),
                self.wf(),
            ensures
                self@.input == s,
                start <= self.pos <= s.len(),
                num_end(s, start as int, false, false) == (self.pos as int, has_dot, has_exp),
                self@.line == old(self)@.line,
                self@.off == old(self)@.off,
                self.wf(),
            decreases self@.input.len() - self@.pos,
        {
            if self.pos >= self.input.len() {
                proof {
                    assert(num_end(s, self.pos as int, has_dot, has_exp) == (
                        self.pos as int,
                        has_dot,
                        has_exp,
                    ));
                }
                break;
            }
            let b = self.input[self.pos];
            if ('0' as u8) <= b && b <= ('9' as u8) {
                self.pos = self.pos + 1;
            } else if b == ('.' as u8) && !has_dot && !has_exp {
                has_dot = true;
                self.pos = self.pos + 1;
            } else if (b == ('e' as u8) || b == ('E' as u8)) && !has_exp {
                has_exp = true;
                self.pos = self.pos + 1;
                if self.pos < self.input.len() {
                    let c = self.input[self.pos];
                    if c == ('+' as u8) || c == ('-' as u8) {
                        self.pos = self.pos + 1;
                    }
                }
            } else {
                proof {
                    assert(num_end(s, self.pos as int, has_dot, has_exp) == (
                        self.pos as int,
                        has_dot,
                        has_exp,
                    ));
                }
                break;
            }
        }
        proof {
            assert(num_end(s, start as int, false, false) == num_end(
                s,
                start as int + 1,
                false,
                false,
            ));
            lemma_num_end_flags(s, start as int + 1, false, false);
        }
        let w = sub_vec(&self.input, start, self.pos);
        if has_dot || has_exp {
            let lb = w[w.len() - 1];
            if lb == ('e' as u8) || lb == ('E' as u8) || lb == ('+' as u8) || lb == ('-' as u8) {
                let e = LexError {
                    kind: LexErrorKind::MalformedNumber,
                    line: self.line_number,
                    col: start - self.line_pos_offset + 1,
                };
                self.pos = start;
                Err(e)
            } else {
                Ok(Token::Float(w))
            }
        } else {
            proof {
                lemma_num_end_digits(s, start as int);
            }
            match digits_to_i64(&w) {
                Some(n) => Ok(Token::Integer(n)),
                None => {
                    let e = LexError {
                        kind: LexErrorKind::MalformedNumber,
                        line: self.line_number,
                        col: start - self.line_pos_offset + 1,
                    };
                    self.pos = start;
                    Err(e)
                },
            }
        }
    }

    /// Scan a string literal: the bytes between the quotes, verbatim, with
    /// no escape handling; an unclosed literal runs to the end of the input.
    fn lex_string(&mut self) -> (t: Token)
        requires
            old(self).wf(),
            old(self)@.pos < old(self)@.input.len(),
            old(self)@.input[old(self)@.pos] == ('"' as u8),
        ensures
            final(self).wf(),
            ({
                let s = old(self)@.input;
                let p = old(self)@.pos;
                let e = str_end(s, p + 1);
                &&& t.spec_kind() == TokenKind::Str
                &&& t.spec_ival() == 0
                &&& t.spec_text() == s.subrange(p + 1, e)
                &&& final(self)@ == (LexSt {
                    input: s,
                    pos: if e < s.len() {
                        e + 1
                    } else {
                        e
                    },
                    line: old(self)@.line,
                    off: old(self)@.off,
                })
                &&& final(self)@.pos > old(self)@.pos
            }),
    {
        let ghost s = self@.input;
        self.pos = self.pos + 1;
        let start = self.pos;
        while self.pos < self.input.len() && self.input[self.pos] != ('"' as u8)
            invariant
                self@.input == s,
                start <= self.pos <= s.len(),
                str_end(s, start as int) == str_end(s, self.pos as int),
                self@.line == old(self)@.line,
                self@.off == old(self)@.off,
                old(self)@.pos + 1 == start,
                self.wf(),
            decreases self@.input.len() - self@.pos,
        {
            self.pos = self.pos + 1;
        }
        proof {
            assert(str_end(s, self.pos as int) == self.pos as int);
        }
        let w = sub_vec(&self.input, start, self.pos);
        if self.pos < self.input.len() {
            self.pos = self.pos + 1;
        }
        Token::Str(w)
    }

    /// Scan an operator or punctuation token, with one byte of lookahead
    /// for the multi-byte operators.
    fn lex_operator(&mut self) -> (r: Result<Token, LexError>)
        requires
            old(self).wf(),
            old(self)@.pos < old(self)@.input.len(),
            !is_blank(old(self)@.input[old(self)@.pos]),
            !is_newline(old(self)@.input[old(self)@.pos]),
            !is_ident_start(old(self)@.input[old(self)@.pos]),
            !is_digit(old(self)@.input[old(self)@.pos]),
            old(self)@.input[old(self)@.pos] != ('"' as u8),
        ensures
            final(self).wf(),
            ({
                let s = old(self)@.input;
                let p = old(self)@.pos;
                match r {
                    Ok(t) => {
                        &&& op_scan(s, p) matches Some(ke) && t.spec_kind() == ke.0
                            && final(self)@.pos == ke.1
                        &&& t.spec_text() == Seq::<u8>::empty()
                        &&& t.spec_ival() == 0
                        &&& final(self)@ == (LexSt {
                            input: s,
                            pos: final(self)@.pos,
                            line: old(self)@.line,
                            off: old(self)@.off,
                        })
                        &&& final(self)@.pos > p
                    },
                    Err(e) => {
                        &&& op_scan(s, p) is None
                        &&& e.kind == LexErrorKind::UnknownByte(s[p])
                        &&& final(self)@ == old(self)@
                        &&& e.line == old(self)@.line
                        &&& e.col == old(self)@.pos - old(self)@.off + 1
                    },
                }
            }),
    {
        let b = self.input[self.pos];
        if b == ('+' as u8) {
            self.pos = self.pos + 1;
            Ok(Token::Add)
        } else if b == ('-' as u8) {
            self.pos = self.pos + 1;
            Ok(Token::Sub)
        } else if b == ('*' as u8) {
            self.pos = self.pos + 1;
            Ok(Token::Mul)
        } else if b == ('/' as u8) {
            self.pos = self.pos + 1;
            if self.pos < self.input.len() && self.input[self.pos] == ('/' as u8) {
                self.pos = self.pos + 1;
                Ok(Token::Idiv)
            } else {
                Ok(Token::Div)
            }
        } else if b == ('%' as u8) {
            self.pos = self.pos + 1;
            Ok(Token::Mod)
        } else if b == ('=' as u8) {
            self.pos = self.pos + 1;
            if self.pos < self.input.len() && self.input[self.pos] == ('=' as u8) {
                self.pos = self.pos + 1;
                Ok(Token::Equal)
            } else {
                Ok(Token::Assign)
            }
        } else if b == ('~' as u8) {
            self.pos = self.pos + 1;
            if self.pos < self.input.len() && self.input[self.pos] == ('=' as u8) {
                self.pos = self.pos + 1;
                Ok(Token::NotEq)
            } else {
                Ok(Token::BitXor)
            }
        } else if b == ('.' as u8) {
            self.pos = self.pos + 1;
            if self.pos < self.input.len() && self.input[self.pos] == ('.' as u8) {
                self.pos = self.pos + 1;
                if self.pos < self.input.len() && self.input[self.pos] == ('.' as u8) {
                    self.pos = self.pos + 1;
                    Ok(Token::Dots)
                } else {
                    Ok(Token::Concat)
                }
            } else {
                Ok(Token::Dot)
            }
        } else if b == ('<' as u8) {
            self.pos = self.pos + 1;
            if self.pos < self.input.len() && self.input[self.pos] == ('=' as u8) {
                self.pos = self.pos + 1;
                Ok(Token::LesEq)
            } else {
                Ok(Token::Less)
            }
        } else if b == ('>' as u8) {
            self.pos = self.pos + 1;
            if self.pos < self.input.len() && self.input[self.pos] == ('=' as u8) {
                self.pos = self.pos + 1;
                Ok(Token::GreEq)
            } else {
                Ok(Token::Greater)
            }
        } else if b == ('&' as u8) {
            self.pos = self.pos + 1;
            Ok(Token::BitAnd)
        } else if b == ('|' as u8) {
            self.pos = self.pos + 1;
            Ok(Token::BitOr)
        } else if b == ('^' as u8) {
            self.pos = self.pos + 1;
            Ok(Token::Pow)
        } else if b == ('#' as u8) {
            self.pos = self.pos + 1;
            Ok(Token::Len)
        } else if b == ('(' as u8) {
            self.pos = self.pos + 1;
            Ok(Token::ParL)
        } else if b == (')' as u8) {
            self.pos = self.pos + 1;
            Ok(Token::ParR)
        } else if b == ('{' as u8) {
            self.pos = self.pos + 1;
            Ok(Token::CurlyL)
        } else if b == ('}' as u8) {
            self.pos = self.pos + 1;
            Ok(Token::CurlyR)
        } else if b == ('[' as u8) {
            self.pos = self.pos + 1;
            Ok(Token::SqurL)
        } else if b == (']' as u8) {
            self.pos = self.pos + 1;
            Ok(Token::SqurR)
        } else if b == (':' as u8) {
            self.pos = self.pos + 1;
            if self.pos < self.input.len() && self.input[self.pos] == (':' as u8) {
                self.pos = self.pos + 1;
                Ok(Token::DoubColon)
            } else {
                Ok(Token::Colon)
            }
        } else if b == (';' as u8) {
            self.pos = self.pos + 1;
            Ok(Token::SemiColon)
        } else if b == (',' as u8) {
            self.pos = self.pos + 1;
            Ok(Token::Comma)
        } else {
            Err(
                LexError {
                    kind: LexErrorKind::UnknownByte(b),
                    line: self.line_number,
                    col: self.pos - self.line_pos_offset + 1,
                },
            )
        }
    }
}

/// The bytes of `v` from `start` (inclusive) to `end` (exclusive).
fn sub_vec(v: &Vec<u8>, start: usize, end: usize) -> (r: Vec<u8>)
    requires
        start <= end <= v@.len(),
    ensures
        r@ == v@.subrange(start as int, end as int),
{
    let mut r: Vec<u8> = Vec::new();
    let mut i = start;
    while i < end
        invariant
            start <= i <= end <= v@.len(),
            r@ == v@.subrange(start as int, i as int),
        decreases end - i,
    {
        r.push(v[i]);
        proof {
            assert(v@.subrange(start as int, i as int + 1) == v@.subrange(
                start as int,
                i as int,
            ).push(v@[i as int]));
        }
        i = i + 1;
    }
    r
}

/// The keyword table, over the bytes of one identifier run.
fn word_kind(w: &Vec<u8>) -> (k: TokenKind)
    ensures
        k == kw_kind(w@),
{
    let n = w.len();
    if n == 3 && w[0] == ('a' as u8) && w[1] == ('n' as u8) && w[2] == ('d' as u8) {
        TokenKind::And
    } else if n == 5 && w[0] == ('b' as u8) && w[1] == ('r' as u8) && w[2] == ('e' as u8) && w[3] == ('a' as u8) && w[4]
        == ('k' as u8) {
        TokenKind::Break
    } else if n == 2 && w[0] == ('d' as u8) && w[1] == ('o' as u8) {
        TokenKind::Do
    } else if n == 4 && w[0] == ('e' as u8) && w[1] == ('l' as u8) && w[2] == ('s' as u8) && w[3] == ('e' as u8) {
        TokenKind::Else
    } else if n == 6 && w[0] == ('e' as u8) && w[1] == ('l' as u8) && w[2] == ('s' as u8) && w[3] == ('e' as u8) && w[4]
        == ('i' as u8) && w[5] == ('f' as u8) {
        TokenKind::Elseif
    } else if n == 3 && w[0] == ('e' as u8) && w[1] == ('n' as u8) && w[2] == ('d' as u8) {
        TokenKind::End
    } else if n == 5 && w[0] == ('f' as u8) && w[1] == ('a' as u8) && w[2] == ('l' as u8) && w[3] == ('s' as u8) && w[4]
        == ('e' as u8) {
        TokenKind::False
    } else if n == 3 && w[0] == ('f' as u8) && w[1] == ('o' as u8) && w[2] == ('r' as u8) {
        TokenKind::For
    } else if n == 8 && w[0] == ('f' as u8) && w[1] == ('u' as u8) && w[2] == ('n' as u8) && w[3] == ('c' as u8) && w[4]
        == ('t' as u8) && w[5] == ('i' as u8) && w[6] == ('o' as u8) && w[7] == ('n' as u8) {
        TokenKind::Function
    } else if n == 4 && w[0] == ('g' as u8) && w[1] == ('o' as u8) && w[2] == ('t' as u8) && w[3] == ('o' as u8) {
        TokenKind::Goto
    } else if n == 2 && w[0] == ('i' as u8) && w[1] == ('f' as u8) {
        TokenKind::If
    } else if n == 2 && w[0] == ('i' as u8) && w[1] == ('n' as u8) {
        TokenKind::In
    } else if n == 5 && w[0] == ('l' as u8) && w[1] == ('o' as u8) && w[2] == ('c' as u8) && w[3] == ('a' as u8) && w[4]
        == ('l' as u8) {
        TokenKind::Local
    } else if n == 3 && w[0] == ('n' as u8) && w[1] == ('i' as u8) && w[2] == ('l' as u8) {
        TokenKind::Nil
    } else if n == 3 && w[0] == ('n' as u8) && w[1] == ('o' as u8) && w[2] == ('t' as u8) {
        TokenKind::Not
    } else if n == 2 && w[0] == ('o' as u8) && w[1] == ('r' as u8) {
        TokenKind::Or
    } else if n == 6 && w[0] == ('r' as u8) && w[1] == ('e' as u8) && w[2] == ('p' as u8) && w[3] == ('e' as u8) && w[4]
        == ('a' as u8) && w[5] == ('t' as u8) {
        TokenKind::Repeat
    } else if n == 6 && w[0] == ('r' as u8) && w[1] == ('e' as u8) && w[2] == ('t' as u8) && w[3] == ('u' as u8) && w[4]
        == ('r' as u8) && w[5] == ('n' as u8) {
        TokenKind::Return
    } else if n == 4 && w[0] == ('t' as u8) && w[1] == ('h' as u8) && w[2] == ('e' as u8) && w[3] == ('n' as u8) {
        TokenKind::Then
    } else if n == 4 && w[0] == ('t' as u8) && w[1] == ('r' as u8) && w[2] == ('u' as u8) && w[3] == ('e' as u8) {
        TokenKind::True
    } else if n == 5 && w[0] == ('u' as u8) && w[1] == ('n' as u8) && w[2] == ('t' as u8) && w[3] == ('i' as u8) && w[4]
        == ('l' as u8) {
        TokenKind::Until
    } else if n == 5 && w[0] == ('w' as u8) && w[1] == ('h' as u8) && w[2] == ('i' as u8) && w[3] == ('l' as u8) && w[4]
        == ('e' as u8) {
        TokenKind::While
    } else {
        TokenKind::Name
    }
}

/// The payload-free token of a keyword kind.
fn keyword_token(k: TokenKind) -> (t: Token)
    requires
        k != TokenKind::Name,
        k != TokenKind::Str,
        k != TokenKind::Integer,
        k != TokenKind::Float,
    ensures
        t.spec_kind() == k,
        t.spec_text() == Seq::<u8>::empty(),
        t.spec_ival() == 0,
{
    match k {
        TokenKind::And => Token::And,
        TokenKind::Break => Token::Break,
        TokenKind::Do => Token::Do,
        TokenKind::Else => Token::Else,
        TokenKind::Elseif => Token::Elseif,
        TokenKind::End => Token::End,
        TokenKind::False => Token::False,
        TokenKind::For => Token::For,
        TokenKind::Function => Token::Function,
        TokenKind::Goto => Token::Goto,
        TokenKind::If => Token::If,
        TokenKind::In => Token::In,
        TokenKind::Local => Token::Local,
        TokenKind::Nil => Token::Nil,
        TokenKind::Not => Token::Not,
        TokenKind::Or => Token::Or,
        TokenKind::Repeat => Token::Repeat,
        TokenKind::Return => Token::Return,
        TokenKind::Then => Token::Then,
        TokenKind::True => Token::True,
        TokenKind::Until => Token::Until,
        TokenKind::While => Token::While,
        TokenKind::Add => Token::Add,
        TokenKind::Sub => Token::Sub,
        TokenKind::Mul => Token::Mul,
        TokenKind::Div => Token::Div,
        TokenKind::Mod => Token::Mod,
        TokenKind::Pow => Token::Pow,
        TokenKind::Len => Token::Len,
        TokenKind::BitAnd => Token::BitAnd,
        TokenKind::BitXor => Token::BitXor,
        TokenKind::BitOr => Token::BitOr,
        TokenKind::ShiftL => Token::ShiftL,
        TokenKind::ShiftR => Token::ShiftR,
        TokenKind::Idiv => Token::Idiv,
        TokenKind::Equal => Token::Equal,
        TokenKind::NotEq => Token::NotEq,
        TokenKind::LesEq => Token::LesEq,
        TokenKind::GreEq => Token::GreEq,
        TokenKind::Less => Token::Less,
        TokenKind::Greater => Token::Greater,
        TokenKind::Assign => Token::Assign,
        TokenKind::ParL => Token::ParL,
        TokenKind::ParR => Token::ParR,
        TokenKind::CurlyL => Token::CurlyL,
        TokenKind::CurlyR => Token::CurlyR,
        TokenKind::SqurL => Token::SqurL,
        TokenKind::SqurR => Token::SqurR,
        TokenKind::DoubColon => Token::DoubColon,
        TokenKind::SemiColon => Token::SemiColon,
        TokenKind::Colon => Token::Colon,
        TokenKind::Comma => Token::Comma,
        TokenKind::Dot => Token::Dot,
        TokenKind::Concat => Token::Concat,
        TokenKind::Dots => Token::Dots,
        _ => Token::Eof,
    }
}

/// The value of a run of decimal digits, if it fits a 64-bit signed
/// integer.
fn digits_to_i64(w: &Vec<u8>) -> (r: Option<i64>)
    requires
        forall|i: int| 0 <= i < w@.len() ==> is_digit(#[trigger] w@[i]),
    ensures
        match r {
            Some(n) => n as int == digits_val(w@) && digits_val(w@) <= i64::MAX,
            None => digits_val(w@) > i64::MAX,
        },
{
    let n = w.len();
    let mut v: u64 = 0;
    let mut i: usize = 0;
    let mut over = false;
    while i < n
        invariant
            i <= n == w@.len(),
            forall|j: int| 0 <= j < w@.len() ==> is_digit(#[trigger] w@[j]),
            !over ==> v as int == digits_val(w@.subrange(0, i as int)) && v <= i64::MAX as u64,
            over ==> digits_val(w@.subrange(0, i as int)) > i64::MAX,
        decreases n - i,
    {
        let d = (w[i] - ('0' as u8)) as u64;
        proof {
            assert(w@.subrange(0, i as int + 1).drop_last() == w@.subrange(0, i as int));
            assert(w@.subrange(0, i as int + 1).last() == w@[i as int]);
            lemma_digits_val_nonneg(w@.subrange(0, i as int));
        }
        if !over {
            let m: u64 = i64::MAX as u64;
            if v > (m - d) / 10 {
                proof {
                    assert(v * 10 + d > m) by (nonlinear_arith)
                        requires
                            v > (m - d) / 10,
                            d <= 9,
                            m >= 9,
                    ;
                }
                over = true;
            } else {
                proof {
                    assert(v * 10 + d <= m) by (nonlinear_arith)
                        requires
                            v <= (m - d) / 10,
                            d <= 9,
                            m >= 9,
                    ;
                }
                v = v * 10 + d;
            }
        } else {
            proof {
                lemma_digits_val_nonneg(w@.subrange(0, i as int));
                assert(digits_val(w@.subrange(0, i as int + 1)) == digits_val(
                    w@.subrange(0, i as int),
                ) * 10 + (w@[i as int] - ('0' as u8)));
                assert(digits_val(w@.subrange(0, i as int)) * 10 >= digits_val(
                    w@.subrange(0, i as int),
                )) by (nonlinear_arith)
                    requires
                        digits_val(w@.subrange(0, i as int)) >= 0,
                ;
            }
        }
        i = i + 1;
    }
    proof {
        assert(w@.subrange(0, n as int) == w@);
    }
    if over {
        None
    } else {
        Some(v as i64)
    }
}

/// A digit run's value is never negative.
proof fn lemma_digits_val_nonneg(s: Seq<u8>)
    requires
        forall|i: int| 0 <= i < s.len() ==> is_digit(#[trigger] s[i]),
    ensures
        digits_val(s) >= 0,
    decreases s.len(),
{
    if s.len() > 0 {
        lemma_digits_val_nonneg(s.drop_last());
        assert(digits_val(s.drop_last()) * 10 >= 0) by (nonlinear_arith)
            requires
                digits_val(s.drop_last()) >= 0,
        ;
    }
}

/// An identifier run stays within the input and never moves backwards.
proof fn lemma_ident_end_bounds(s: Seq<u8>, p: int)
    requires
        0 <= p <= s.len(),
    ensures
        p <= ident_end(s, p) <= s.len(),
    decreases s.len() - p,
{
    if p < s.len() && is_ident_char(s[p]) {
        lemma_ident_end_bounds(s, p + 1);
    }
}

/// Once the point or exponent flag is set, the scan keeps it set.
proof fn lemma_num_end_flags(s: Seq<u8>, p: int, has_dot: bool, has_exp: bool)
    ensures
        has_dot ==> num_end(s, p, has_dot, has_exp).1,
        has_exp ==> num_end(s, p, has_dot, has_exp).2,
        num_end(s, p, has_dot, has_exp).0 >= p,
        p <= s.len() ==> num_end(s, p, has_dot, has_exp).0 <= s.len(),
    decreases s.len() - p,
{
    if 0 <= p < s.len() {
        let b = s[p];
        if is_digit(b) {
            lemma_num_end_flags(s, p + 1, has_dot, has_exp);
        } else if b == ('.' as u8) && !has_dot && !has_exp {
            lemma_num_end_flags(s, p + 1, true, has_exp);
        } else if (b == ('e' as u8) || b == ('E' as u8)) && !has_exp {
            if p + 1 < s.len() && (s[p + 1] == ('+' as u8) || s[p + 1] == ('-' as u8)) {
                lemma_num_end_flags(s, p + 2, has_dot, true);
            } else {
                lemma_num_end_flags(s, p + 1, has_dot, true);
            }
        }
    }
}

/// Skipping whitespace keeps the state well formed, never moves the scan
/// backwards, and never lowers the line number.
proof fn lemma_skip_ws_wf(st: LexSt)
    requires
        st.wf(),
    ensures
        skip_ws(st).wf(),
        skip_ws(st).input == st.input,
        skip_ws(st).pos >= st.pos,
        skip_ws(st).line >= st.line,
    decreases st.input.len() - st.pos,
{
    if 0 <= st.pos < st.input.len() {
        if is_blank(st.input[st.pos]) {
            lemma_skip_ws_wf(LexSt { input: st.input, pos: st.pos + 1, line: st.line, off: st.off });
        } else if is_newline(st.input[st.pos]) {
            lemma_skip_ws_wf(
                LexSt { input: st.input, pos: st.pos + 1, line: st.line + 1, off: st.pos + 1 },
            );
        }
    }
}

/// A run of identifier characters reaching the end of the input scans to
/// the end of the input.
proof fn lemma_ident_end_all(s: Seq<u8>, p: int)
    requires
        0 <= p <= s.len(),
        forall|j: int| p <= j < s.len() ==> is_ident_char(#[trigger] s[j]),
    ensures
        ident_end(s, p) == s.len(),
    decreases s.len() - p,
{
    if p < s.len() {
        lemma_ident_end_all(s, p + 1);
    }
}

/// The scan sets a point or exponent flag exactly when the consumed run
/// holds a decimal point or an exponent marker.
proof fn lemma_num_end_chars(s: Seq<u8>, p: int, d: bool, x: bool)
    requires
        0 <= p <= s.len(),
    ensures
        ({
            let r = num_end(s, p, d, x);
            (r.1 || r.2) <==> (d || x || exists|i: int|
                p <= i < r.0 && (s[i] == ('.' as u8) || s[i] == ('e' as u8) || s[i] == (
                'E' as u8)))
        }),
    decreases s.len() - p,
{
    lemma_num_end_flags(s, p, d, x);
    let r = num_end(s, p, d, x);
    if 0 <= p < s.len() {
        let b = s[p];
        if is_digit(b) {
            lemma_num_end_chars(s, p + 1, d, x);
            assert((exists|i: int|
                p + 1 <= i < r.0 && (s[i] == ('.' as u8) || s[i] == ('e' as u8) || s[i] == (
                'E' as u8))) ==> exists|i: int|
                p <= i < r.0 && (s[i] == ('.' as u8) || s[i] == ('e' as u8) || s[i] == (
                'E' as u8)));
            if exists|i: int|
                p <= i < r.0 && (s[i] == ('.' as u8) || s[i] == ('e' as u8) || s[i] == (
                'E' as u8)) {
                let i = choose|i: int|
                    p <= i < r.0 && (s[i] == ('.' as u8) || s[i] == ('e' as u8) || s[i] == (
                    'E' as u8));
                assert(i != p);
            }
        } else if b == ('.' as u8) && !d && !x {
            lemma_num_end_flags(s, p + 1, true, x);
            assert(p <= p < r.0 && s[p] == ('.' as u8));
        } else if (b == ('e' as u8) || b == ('E' as u8)) && !x {
            if p + 1 < s.len() && (s[p + 1] == ('+' as u8) || s[p + 1] == ('-' as u8)) {
                lemma_num_end_flags(s, p + 2, d, true);
            } else {
                lemma_num_end_flags(s, p + 1, d, true);
            }
            assert(p <= p < r.0 && (s[p] == ('e' as u8) || s[p] == ('E' as u8)));
        }
    }
}

/// A numeric run scanned with both flags clear that ends with both flags
/// still clear consumed digits only.
proof fn lemma_num_end_digits(s: Seq<u8>, p: int)
    requires
        0 <= p,
        !num_end(s, p, false, false).1,
        !num_end(s, p, false, false).2,
    ensures
        forall|i: int| p <= i < num_end(s, p, false, false).0 ==> is_digit(#[trigger] s[i]),
        num_end(s, p, false, false).0 >= p,
    decreases s.len() - p,
{
    lemma_num_end_flags(s, p, false, false);
    if 0 <= p < s.len() {
        let b = s[p];
        if is_digit(b) {
            lemma_num_end_digits(s, p + 1);
        } else if b == ('.' as u8) {
            lemma_num_end_flags(s, p + 1, true, false);
        } else if b == ('e' as u8) || b == ('E' as u8) {
            if p + 1 < s.len() && (s[p + 1] == ('+' as u8) || s[p + 1] == ('-' as u8)) {
                lemma_num_end_flags(s, p + 2, false, true);
            } else {
                lemma_num_end_flags(s, p + 1, false, true);
            }
        }
    }
}


/// Lexing any word of the fixed keyword table in isolation yields its
/// dedicated keyword token, never a `Name`, and consumes the whole word.
pub proof fn lemma_keyword_round_trip(w: Seq<u8>)
    requires
        w.len() < 0xFFFF_FFFF,
        kw_kind(w) != TokenKind::Name,
    ensures
        ({
            let m = spec_next(LexSt { input: w, pos: 0, line: 1, off: 0 });
            &&& m.err is None
            &&& m.kind == kw_kind(w)
            &&& m.kind != TokenKind::Name
            &&& m.st.pos == w.len()
        }),
{
    let st = LexSt { input: w, pos: 0, line: 1, off: 0 };
    assert(forall|j: int| 0 <= j < w.len() ==> is_ident_char(#[trigger] w[j]));
    assert(skip_ws(st) == st);
    lemma_ident_end_all(w, 0);
    assert(w.subrange(0, w.len() as int) =~= w);
}

/// Numeric classification: a literal holding a decimal point or an
/// exponent marker lexes as a float; an all-digit literal lexes as an
/// integer. `w` is one whole numeric literal: it starts with a digit and
/// the scan consumes all of it.
pub proof fn lemma_numeric_classification(w: Seq<u8>)
    requires
        0 < w.len() < 0xFFFF_FFFF,
        is_digit(w[0]),
        num_end(w, 0, false, false).0 == w.len(),
    ensures
        ({
            let m = spec_next(LexSt { input: w, pos: 0, line: 1, off: 0 });
            &&& (m.err is None ==> (m.kind == TokenKind::Float <==> exists|i: int|
                0 <= i < w.len() && (w[i] == ('.' as u8) || w[i] == ('e' as u8) || w[i] == (
                'E' as u8))))
            &&& (m.err is None ==> (m.kind == TokenKind::Integer <==> forall|i: int|
                0 <= i < w.len() ==> is_digit(#[trigger] w[i])))
        }),
{
    let st = LexSt { input: w, pos: 0, line: 1, off: 0 };
    assert(skip_ws(st) == st);
    lemma_num_end_chars(w, 0, false, false);
    let r = num_end(w, 0, false, false);
    assert(w.subrange(0, r.0) =~= w);
    if !r.1 && !r.2 {
        lemma_num_end_digits(w, 0);
    } else {
        let i = choose|i: int|
            0 <= i < w.len() && (w[i] == ('.' as u8) || w[i] == ('e' as u8) || w[i] == (
            'E' as u8));
        assert(!is_digit(w[i]));
    }
}

/// At the end of the input the lexer stays put: after a scan that returns
/// `Eof`, every further scan returns `Eof` again from an unchanged state.
pub proof fn lemma_eof_idempotent(st: LexSt)
    requires
        st.wf(),
        spec_next(st).err is None,
        spec_next(st).kind == TokenKind::Eof,
    ensures
        spec_next(spec_next(st).st).err is None,
        spec_next(spec_next(st).st).kind == TokenKind::Eof,
        spec_next(spec_next(st).st).st == spec_next(st).st,
{
    lemma_skip_ws_wf(st);
    let m = spec_next(st);
    assert(m.st == skip_ws(st));
    assert(m.st.pos == m.st.input.len());
    assert(skip_ws(m.st) == m.st);
}

} // verus!
