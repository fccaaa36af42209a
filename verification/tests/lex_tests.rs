//! Tests for the lexer: token classification, payloads, greedy operators,
//! numeric classification, line tracking, and error reporting.

use lua_front::lex::{Lex, LexError, LexErrorKind, Token};

fn lexer_for(src: &str) -> Lex {
    Lex::new(src.as_bytes().to_vec())
}

fn lex_all(src: &str) -> Vec<Token> {
    let mut lex = lexer_for(src);
    let mut out = Vec::new();
    loop {
        let t = lex.next().expect("unexpected lex error");
        let done = t == Token::Eof;
        out.push(t);
        if done {
            return out;
        }
    }
}

#[test]
fn lex_numbers() {
    let mut lex = lexer_for("123 4.56 444 4.55555555 4.57e-3 0.3e12 5e+20");
    assert_eq!(lex.next().unwrap(), Token::Integer(123));
    assert_eq!(lex.next().unwrap(), Token::Float(b"4.56".to_vec()));
    assert_eq!(lex.next().unwrap(), Token::Integer(444));
    assert_eq!(lex.next().unwrap(), Token::Float(b"4.55555555".to_vec()));
    assert_eq!(lex.next().unwrap(), Token::Float(b"4.57e-3".to_vec()));
    assert_eq!(lex.next().unwrap(), Token::Float(b"0.3e12".to_vec()));
    assert_eq!(lex.next().unwrap(), Token::Float(b"5e+20".to_vec()));
    assert_eq!(lex.next().unwrap(), Token::Eof);
}

#[test]
fn lex_float_payloads_name_the_expected_values() {
    let mut lex = lexer_for("4.56 4.55555555 4.57e-3 0.3e12 5e+20");
    let expected: [f64; 5] = [4.56, 4.55555555, 4.57e-3, 0.3e12, 5e+20];
    for want in expected {
        match lex.next().unwrap() {
            Token::Float(w) => {
                let text = String::from_utf8(w).unwrap();
                let got: f64 = text.parse().unwrap();
                assert_eq!(got, want);
            }
            other => panic!("expected a float token, got {:?}", other),
        }
    }
    assert_eq!(lex.next().unwrap(), Token::Eof);
}

#[test]
fn lex_identifiers_and_keywords() {
    let mut lex = lexer_for("if x then end foo_bar");
    assert_eq!(lex.next().unwrap(), Token::If);
    assert_eq!(lex.next().unwrap(), Token::Name(b"x".to_vec()));
    assert_eq!(lex.next().unwrap(), Token::Then);
    assert_eq!(lex.next().unwrap(), Token::End);
    assert_eq!(lex.next().unwrap(), Token::Name(b"foo_bar".to_vec()));
    assert_eq!(lex.next().unwrap(), Token::Eof);
}

#[test]
fn every_keyword_lexes_to_its_token() {
    let cases: Vec<(&str, Token)> = vec![
        ("and", Token::And),
        ("break", Token::Break),
        ("do", Token::Do),
        ("else", Token::Else),
        ("elseif", Token::Elseif),
        ("end", Token::End),
        ("false", Token::False),
        ("for", Token::For),
        ("function", Token::Function),
        ("goto", Token::Goto),
        ("if", Token::If),
        ("in", Token::In),
        ("local", Token::Local),
        ("nil", Token::Nil),
        ("not", Token::Not),
        ("or", Token::Or),
        ("repeat", Token::Repeat),
        ("return", Token::Return),
        ("then", Token::Then),
        ("true", Token::True),
        ("until", Token::Until),
        ("while", Token::While),
    ];
    for (text, want) in cases {
        let mut lex = lexer_for(text);
        let got = lex.next().unwrap();
        assert_eq!(got, want, "keyword {:?}", text);
        assert!(!matches!(got, Token::Name(_)));
        assert_eq!(lex.next().unwrap(), Token::Eof);
    }
}

#[test]
fn capitalized_until_is_an_ordinary_identifier() {
    let mut lex = lexer_for("Until");
    assert_eq!(lex.next().unwrap(), Token::Name(b"Until".to_vec()));
}

#[test]
fn greedy_equality_never_two_assigns() {
    assert_eq!(lex_all("=="), vec![Token::Equal, Token::Eof]);
}

#[test]
fn greedy_dots_never_three_tokens() {
    assert_eq!(lex_all("..."), vec![Token::Dots, Token::Eof]);
}

#[test]
fn greedy_integer_divide_never_two_divides() {
    assert_eq!(lex_all("//"), vec![Token::Idiv, Token::Eof]);
}

#[test]
fn other_multi_byte_operators() {
    assert_eq!(lex_all("~="), vec![Token::NotEq, Token::Eof]);
    assert_eq!(lex_all("<="), vec![Token::LesEq, Token::Eof]);
    assert_eq!(lex_all(">="), vec![Token::GreEq, Token::Eof]);
    assert_eq!(lex_all(".."), vec![Token::Concat, Token::Eof]);
    assert_eq!(lex_all("::"), vec![Token::DoubColon, Token::Eof]);
    assert_eq!(lex_all("~"), vec![Token::BitXor, Token::Eof]);
    assert_eq!(lex_all("^"), vec![Token::Pow, Token::Eof]);
}

#[test]
fn single_byte_punctuation() {
    assert_eq!(
        lex_all("+ - * / % # & | ( ) { } [ ] ; : , . < > ="),
        vec![
            Token::Add,
            Token::Sub,
            Token::Mul,
            Token::Div,
            Token::Mod,
            Token::Len,
            Token::BitAnd,
            Token::BitOr,
            Token::ParL,
            Token::ParR,
            Token::CurlyL,
            Token::CurlyR,
            Token::SqurL,
            Token::SqurR,
            Token::SemiColon,
            Token::Colon,
            Token::Comma,
            Token::Dot,
            Token::Less,
            Token::Greater,
            Token::Assign,
            Token::Eof,
        ]
    );
}

#[test]
fn numeric_classification_examples() {
    assert_eq!(lex_all("123"), vec![Token::Integer(123), Token::Eof]);
    assert_eq!(lex_all("4.56"), vec![Token::Float(b"4.56".to_vec()), Token::Eof]);
    assert_eq!(lex_all("4.57e-3"), vec![Token::Float(b"4.57e-3".to_vec()), Token::Eof]);
    assert_eq!(lex_all("5e+20"), vec![Token::Float(b"5e+20".to_vec()), Token::Eof]);
    assert_eq!(lex_all("7E4"), vec![Token::Float(b"7E4".to_vec()), Token::Eof]);
}

#[test]
fn string_literal_verbatim_between_quotes() {
    assert_eq!(
        lex_all("\"hello world\""),
        vec![Token::Str(b"hello world".to_vec()), Token::Eof]
    );
    // no escape processing: the backslash is kept as-is
    assert_eq!(
        lex_all("\"a\\n\""),
        vec![Token::Str(b"a\\n".to_vec()), Token::Eof]
    );
}

#[test]
fn eof_is_idempotent() {
    let mut lex = lexer_for("x");
    assert_eq!(lex.next().unwrap(), Token::Name(b"x".to_vec()));
    assert_eq!(lex.next().unwrap(), Token::Eof);
    assert_eq!(lex.next().unwrap(), Token::Eof);
    assert_eq!(lex.next().unwrap(), Token::Eof);
}

#[test]
fn line_and_column_tracking() {
    let mut lex = lexer_for("a\nbb c");
    assert_eq!(lex.line_number(), 1);
    assert_eq!(lex.next().unwrap(), Token::Name(b"a".to_vec()));
    assert_eq!(lex.line_number(), 1);
    assert_eq!(lex.next().unwrap(), Token::Name(b"bb".to_vec()));
    assert_eq!(lex.line_number(), 2);
    // after "bb" the scan stands at column 3 of line 2
    assert_eq!(lex.line_position(), 3);
    assert_eq!(lex.next().unwrap(), Token::Name(b"c".to_vec()));
    assert_eq!(lex.next().unwrap(), Token::Eof);
}

#[test]
fn unknown_byte_is_a_lex_error() {
    let mut lex = lexer_for("x $");
    assert_eq!(lex.next().unwrap(), Token::Name(b"x".to_vec()));
    let err: LexError = lex.next().unwrap_err();
    assert_eq!(err.kind, LexErrorKind::UnknownByte(b'$'));
    assert_eq!(err.line, 1);
    assert_eq!(err.col, 3);
}

#[test]
fn integer_overflow_is_a_malformed_number() {
    let mut lex = lexer_for("99999999999999999999");
    let err = lex.next().unwrap_err();
    assert_eq!(err.kind, LexErrorKind::MalformedNumber);
}

#[test]
fn largest_integer_still_fits() {
    let mut lex = lexer_for("9223372036854775807");
    assert_eq!(lex.next().unwrap(), Token::Integer(i64::MAX));
    let mut lex2 = lexer_for("9223372036854775808");
    assert_eq!(lex2.next().unwrap_err().kind, LexErrorKind::MalformedNumber);
}

#[test]
fn exponent_without_digits_is_malformed() {
    let mut lex = lexer_for("1e");
    assert_eq!(lex.next().unwrap_err().kind, LexErrorKind::MalformedNumber);
    let mut lex2 = lexer_for("1e+");
    assert_eq!(lex2.next().unwrap_err().kind, LexErrorKind::MalformedNumber);
}

#[test]
fn empty_input_is_eof_at_once() {
    assert_eq!(lex_all(""), vec![Token::Eof]);
    assert_eq!(lex_all("   \t \n "), vec![Token::Eof]);
}

#[test]
fn trailing_dot_float_is_accepted() {
    assert_eq!(lex_all("1."), vec![Token::Float(b"1.".to_vec()), Token::Eof]);
}

#[test]
fn newline_inside_a_string_does_not_advance_the_line_counter() {
    let mut lex = lexer_for("\"a\nb\" x");
    assert_eq!(lex.next().unwrap(), Token::Str(b"a\nb".to_vec()));
    assert_eq!(lex.line_number(), 1);
    assert_eq!(lex.next().unwrap(), Token::Name(b"x".to_vec()));
}

#[test]
fn unterminated_string_runs_to_the_end_of_input() {
    let mut lex = lexer_for("\"abc");
    assert_eq!(lex.next().unwrap(), Token::Str(b"abc".to_vec()));
    assert_eq!(lex.next().unwrap(), Token::Eof);
}
