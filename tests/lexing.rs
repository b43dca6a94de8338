use minilang::{lex, CompileError, LexError, Token};

fn ident(s: &str) -> Token {
    Token::Ident(s.to_string())
}

#[test]
fn string_literal_strips_quotes() {
    let toks = lex("\"hello\"").unwrap();
    assert_eq!(toks, vec![Token::StrLiteral("hello".to_string()), Token::EOF]);
}

#[test]
fn unterminated_string_fails() {
    assert_eq!(
        lex("\"abc"),
        Err(CompileError::Lex(LexError::UnterminatedString { pos: 0 }))
    );
}

#[test]
fn empty_source_is_only_eof() {
    assert_eq!(lex("").unwrap(), vec![Token::EOF]);
    assert_eq!(lex(" \t\n\r ").unwrap(), vec![Token::EOF]);
}

#[test]
fn unicode_whitespace_is_skipped() {
    assert_eq!(lex("a\u{00A0}b\u{2003}").unwrap(), vec![ident("a"), ident("b"), Token::EOF]);
}

#[test]
fn identifiers_keep_digits_and_underscores() {
    assert_eq!(
        lex("x1 _tmp a_b2c").unwrap(),
        vec![ident("x1"), ident("_tmp"), ident("a_b2c"), Token::EOF]
    );
}

#[test]
fn keywords_and_booleans() {
    assert_eq!(
        lex("fn print true false fnx printer").unwrap(),
        vec![
            Token::Fn,
            Token::Print,
            Token::BoolLiteral(true),
            Token::BoolLiteral(false),
            ident("fnx"),
            ident("printer"),
            Token::EOF
        ]
    );
}

#[test]
fn integers_have_their_value() {
    assert_eq!(
        lex("0 42 9223372036854775807").unwrap(),
        vec![Token::Number(0), Token::Number(42), Token::Number(i64::MAX), Token::EOF]
    );
}

#[test]
fn integer_too_large_fails() {
    assert_eq!(
        lex("x 9223372036854775808"),
        Err(CompileError::Lex(LexError::NumberTooLarge { pos: 2 }))
    );
}

#[test]
fn minus_is_not_merged_into_a_number() {
    assert_eq!(lex("-5").unwrap(), vec![Token::Minus, Token::Number(5), Token::EOF]);
}

#[test]
fn digits_then_letters_split() {
    assert_eq!(lex("12ab").unwrap(), vec![Token::Number(12), ident("ab"), Token::EOF]);
}

#[test]
fn punctuation_tokens() {
    assert_eq!(
        lex("(){}[],.+-*/").unwrap(),
        vec![
            Token::LParen,
            Token::RParen,
            Token::LBrace,
            Token::RBrace,
            Token::LBracket,
            Token::RBracket,
            Token::Comma,
            Token::Dot,
            Token::Plus,
            Token::Minus,
            Token::Star,
            Token::Slash,
            Token::EOF
        ]
    );
}

#[test]
fn one_and_two_character_operators() {
    assert_eq!(
        lex("= == != < <= > >=").unwrap(),
        vec![
            Token::Eq,
            Token::EqEq,
            Token::Ne,
            Token::Lt,
            Token::Le,
            Token::Gt,
            Token::Ge,
            Token::EOF
        ]
    );
    assert_eq!(lex("a<=b").unwrap(), vec![ident("a"), Token::Le, ident("b"), Token::EOF]);
    assert_eq!(lex("===").unwrap(), vec![Token::EqEq, Token::Eq, Token::EOF]);
}

#[test]
fn lone_bang_fails() {
    assert_eq!(
        lex("a ! b"),
        Err(CompileError::Lex(LexError::UnexpectedChar { ch: '!', pos: 2 }))
    );
    assert_eq!(lex("!"), Err(CompileError::Lex(LexError::UnexpectedChar { ch: '!', pos: 0 })));
}

#[test]
fn unknown_character_fails_with_position() {
    assert_eq!(
        lex("x = 1 # y"),
        Err(CompileError::Lex(LexError::UnexpectedChar { ch: '#', pos: 6 }))
    );
    assert_eq!(
        lex("é"),
        Err(CompileError::Lex(LexError::UnexpectedChar { ch: 'é', pos: 0 }))
    );
}

#[test]
fn string_contents_are_verbatim() {
    assert_eq!(
        lex("\"a b (1)\" x").unwrap(),
        vec![Token::StrLiteral("a b (1)".to_string()), ident("x"), Token::EOF]
    );
    assert_eq!(lex("\"\"").unwrap(), vec![Token::StrLiteral(String::new()), Token::EOF]);
}

#[test]
fn unterminated_string_reports_its_start() {
    assert_eq!(
        lex("print \"ab"),
        Err(CompileError::Lex(LexError::UnterminatedString { pos: 6 }))
    );
}

fn render(toks: &[Token]) -> String {
    let mut out = String::new();
    for t in toks {
        let text = match t {
            Token::Ident(s) => s.clone(),
            Token::Number(n) => n.to_string(),
            Token::StrLiteral(s) => format!("\"{}\"", s),
            Token::BoolLiteral(b) => b.to_string(),
            Token::Fn => "fn".to_string(),
            Token::Print => "print".to_string(),
            Token::LParen => "(".to_string(),
            Token::RParen => ")".to_string(),
            Token::LBrace => "{".to_string(),
            Token::RBrace => "}".to_string(),
            Token::LBracket => "[".to_string(),
            Token::RBracket => "]".to_string(),
            Token::Comma => ",".to_string(),
            Token::Dot => ".".to_string(),
            Token::EOF => String::new(),
            Token::Gt => ">".to_string(),
            Token::Ge => ">=".to_string(),
            Token::Eq => "=".to_string(),
            Token::EqEq => "==".to_string(),
            Token::Ne | Token::NeEq => "!=".to_string(),
            Token::Lt => "<".to_string(),
            Token::Le => "<=".to_string(),
            Token::Plus => "+".to_string(),
            Token::Minus => "-".to_string(),
            Token::Star => "*".to_string(),
            Token::Slash => "/".to_string(),
        };
        out.push_str(&text);
        out.push(' ');
    }
    out
}

#[test]
fn retokenizing_rendered_tokens_is_stable() {
    let source = "fn f(a, b) { print a.length() } x = \"s t\" <= 12 != true";
    let toks = lex(source).unwrap();
    let again = lex(&render(&toks)).unwrap();
    assert_eq!(toks, again);
}

#[test]
fn whitespace_table_edges() {
    assert_eq!(
        lex("a\u{0B}b\u{0C}c\u{85}d\u{1680}e\u{200A}f\u{2028}g\u{202F}h\u{205F}i\u{3000}").unwrap().len(),
        10
    );
    assert_eq!(
        lex("a\u{200B}"),
        Err(CompileError::Lex(LexError::UnexpectedChar { ch: '\u{200B}', pos: 1 }))
    );
    assert_eq!(
        lex("a@"),
        Err(CompileError::Lex(LexError::UnexpectedChar { ch: '@', pos: 1 }))
    );
}

#[test]
fn whitespace_table_matches_std_on_low_code_points() {
    for code in 0u32..0x4000 {
        if let Some(c) = char::from_u32(code) {
            let starts_token = c.is_ascii_alphanumeric() || "_\"(){}[],.+-*/=<>!".contains(c);
            if starts_token {
                continue;
            }
            let src = format!("a{}b", c);
            let skipped = lex(&src).is_ok();
            assert_eq!(skipped, c.is_whitespace(), "code point {:#x}", code);
        }
    }
}
