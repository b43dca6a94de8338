use minilang::{
    lex, parse_source, BinOp, CompileError, Expected, Expr, ParseError, Parser, Program,
    Statement, Token,
};

fn parse(src: &str) -> Result<Program, CompileError> {
    parse_source(src)
}

fn var(s: &str) -> Expr {
    Expr::Variable(s.to_string())
}

fn bin(op: BinOp, l: Expr, r: Expr) -> Expr {
    Expr::Binary { op, left: Box::new(l), right: Box::new(r) }
}

fn parse_err(src: &str) -> ParseError {
    match parse(src) {
        Err(CompileError::Parse(e)) => e,
        other => panic!("expected a parse error, got {:?}", other),
    }
}

#[test]
fn print_string_literal() {
    let p = parse("print \"hi\"").unwrap();
    assert!(p.functions.is_empty());
    assert_eq!(
        p.statements,
        vec![Statement::Print { expr: Expr::StrLiteral("hi".to_string()) }]
    );
}

#[test]
fn multiplication_binds_tighter() {
    let p = parse("x = 1 + 2 * 3").unwrap();
    assert_eq!(
        p.statements,
        vec![Statement::Assign {
            name: "x".to_string(),
            expr: bin(
                BinOp::Add,
                Expr::IntLiteral(1),
                bin(BinOp::Mul, Expr::IntLiteral(2), Expr::IntLiteral(3))
            ),
        }]
    );
}

#[test]
fn subtraction_is_left_associative() {
    let p = parse("a - b - c").unwrap();
    assert_eq!(
        p.statements,
        vec![Statement::ExprStmt(bin(
            BinOp::Sub,
            bin(BinOp::Sub, var("a"), var("b")),
            var("c")
        ))]
    );
}

#[test]
fn literal_assignment_target_fails() {
    let e = parse_err("5 = x");
    assert_eq!(e.expected, Expected::AssignmentTarget);
    assert_eq!(e.found, Token::Number(5));
    assert_eq!(e.pos, 0);
}

#[test]
fn call_assignment_target_fails() {
    let e = parse_err("print 1 f(a) = 2");
    assert_eq!(e.expected, Expected::AssignmentTarget);
    assert_eq!(e.pos, 2);
}

#[test]
fn function_definition() {
    let p = parse("fn add(a, b) { print a }").unwrap();
    assert!(p.statements.is_empty());
    assert_eq!(p.functions.len(), 1);
    let f = &p.functions[0];
    assert_eq!(f.name, "add");
    assert_eq!(f.params, vec!["a".to_string(), "b".to_string()]);
    assert_eq!(f.body, vec![Statement::Print { expr: var("a") }]);
}

#[test]
fn function_without_parameters() {
    let p = parse("fn main() { }").unwrap();
    assert_eq!(p.functions[0].params.len(), 0);
    assert!(p.functions[0].body.is_empty());
}

#[test]
fn trailing_comma_in_parameters_fails() {
    let e = parse_err("fn f(a,) { }");
    assert_eq!(e.expected, Expected::ParameterName);
    assert_eq!(e.found, Token::RParen);
    assert_eq!(e.pos, 5);
}

#[test]
fn missing_function_name_fails() {
    let e = parse_err("fn (a) { }");
    assert_eq!(e.expected, Expected::FunctionName);
    assert_eq!(e.found, Token::LParen);
}

#[test]
fn missing_close_paren_fails() {
    let e = parse_err("print (a + b");
    assert_eq!(e.expected, Expected::RParen);
    assert_eq!(e.found, Token::EOF);
    assert_eq!(e.pos, 5);
}

#[test]
fn missing_block_fails() {
    let e = parse_err("fn f() print 1");
    assert_eq!(e.expected, Expected::LBrace);
    assert_eq!(e.found, Token::Print);
}

#[test]
fn unclosed_block_fails() {
    let e = parse_err("fn f() { print 1");
    assert_eq!(e.expected, Expected::Expression);
    assert_eq!(e.found, Token::EOF);
}

#[test]
fn boolean_is_not_an_expression() {
    let e = parse_err("print true");
    assert_eq!(e.expected, Expected::Expression);
    assert_eq!(e.found, Token::BoolLiteral(true));
    assert_eq!(e.pos, 1);
}

#[test]
fn dot_needs_length() {
    let e = parse_err("print a.size()");
    assert_eq!(e.expected, Expected::LengthMethod);
    let e = parse_err("print a.length");
    assert_eq!(e.expected, Expected::LParen);
    let e = parse_err("print a.length(");
    assert_eq!(e.expected, Expected::RParen);
}

#[test]
fn chained_length_calls() {
    let p = parse("print x.length().length()").unwrap();
    assert_eq!(
        p.statements,
        vec![Statement::Print {
            expr: Expr::Length {
                array: Box::new(Expr::Length { array: Box::new(var("x")) })
            },
        }]
    );
}

#[test]
fn length_binds_tighter_than_operators() {
    let p = parse("print a * b.length()").unwrap();
    assert_eq!(
        p.statements,
        vec![Statement::Print {
            expr: bin(BinOp::Mul, var("a"), Expr::Length { array: Box::new(var("b")) }),
        }]
    );
}

#[test]
fn calls_with_arguments() {
    let p = parse("f() g(1, h(x), \"s\")").unwrap();
    assert_eq!(
        p.statements,
        vec![
            Statement::ExprStmt(Expr::Call { name: "f".to_string(), args: vec![] }),
            Statement::ExprStmt(Expr::Call {
                name: "g".to_string(),
                args: vec![
                    Expr::IntLiteral(1),
                    Expr::Call { name: "h".to_string(), args: vec![var("x")] },
                    Expr::StrLiteral("s".to_string()),
                ],
            }),
        ]
    );
}

#[test]
fn trailing_comma_in_arguments_fails() {
    let e = parse_err("f(a,)");
    assert_eq!(e.expected, Expected::Expression);
    assert_eq!(e.found, Token::RParen);
}

#[test]
fn precedence_ladder() {
    let p = parse("print a == b < c + d * e").unwrap();
    let expected = bin(
        BinOp::Eq,
        var("a"),
        bin(BinOp::Lt, var("b"), bin(BinOp::Add, var("c"), bin(BinOp::Mul, var("d"), var("e")))),
    );
    assert_eq!(p.statements, vec![Statement::Print { expr: expected }]);
}

#[test]
fn comparison_and_equality_operators() {
    let p = parse("print a != b print a <= b print a >= b print a > b print a / b").unwrap();
    let ops: Vec<BinOp> = p
        .statements
        .iter()
        .map(|s| match s {
            Statement::Print { expr: Expr::Binary { op, .. } } => *op,
            other => panic!("unexpected {:?}", other),
        })
        .collect();
    assert_eq!(ops, vec![BinOp::Ne, BinOp::Le, BinOp::Ge, BinOp::Gt, BinOp::Div]);
}

#[test]
fn parentheses_override_precedence() {
    let p = parse("print (a + b) * c").unwrap();
    assert_eq!(
        p.statements,
        vec![Statement::Print {
            expr: bin(BinOp::Mul, bin(BinOp::Add, var("a"), var("b")), var("c")),
        }]
    );
}

#[test]
fn if_with_and_without_else() {
    let p = parse("if a < b { print a } else { print b } if c { }").unwrap();
    assert_eq!(
        p.statements,
        vec![
            Statement::If {
                cond: bin(BinOp::Lt, var("a"), var("b")),
                then_branch: vec![Statement::Print { expr: var("a") }],
                else_branch: vec![Statement::Print { expr: var("b") }],
            },
            Statement::If { cond: var("c"), then_branch: vec![], else_branch: vec![] },
        ]
    );
}

#[test]
fn functions_and_statements_keep_order() {
    let p = parse("x = 1 fn f() { } print x fn g(a) { a = 2 }").unwrap();
    assert_eq!(p.functions.len(), 2);
    assert_eq!(p.functions[0].name, "f");
    assert_eq!(p.functions[1].name, "g");
    assert_eq!(p.statements.len(), 2);
    assert!(matches!(p.statements[0], Statement::Assign { .. }));
    assert!(matches!(p.statements[1], Statement::Print { .. }));
}

#[test]
fn empty_program() {
    let p = parse("").unwrap();
    assert!(p.functions.is_empty() && p.statements.is_empty());
}

#[test]
fn lex_errors_pass_through() {
    assert!(matches!(parse("print @"), Err(CompileError::Lex(_))));
}

#[test]
fn parser_on_explicit_tokens() {
    let toks = lex("print 1 + 2").unwrap();
    let mut parser = Parser::new(toks);
    let p = parser.parse_program().unwrap();
    assert_eq!(
        p.statements,
        vec![Statement::Print { expr: bin(BinOp::Add, Expr::IntLiteral(1), Expr::IntLiteral(2)) }]
    );
}

#[test]
fn parser_without_trailing_eof() {
    let toks = vec![Token::Print, Token::Ident("a".to_string())];
    let mut parser = Parser::new(toks);
    let p = parser.parse_program().unwrap();
    assert_eq!(p.statements, vec![Statement::Print { expr: var("a") }]);
}

#[test]
fn ne_eq_token_is_not_equal() {
    let toks = vec![
        Token::Print,
        Token::Ident("a".to_string()),
        Token::NeEq,
        Token::Ident("b".to_string()),
        Token::EOF,
    ];
    let p = Parser::new(toks).parse_program().unwrap();
    assert_eq!(p.statements, vec![Statement::Print { expr: bin(BinOp::Ne, var("a"), var("b")) }]);
}

#[test]
fn assignment_from_explicit_tokens() {
    let toks = vec![
        Token::Ident("x".to_string()),
        Token::Eq,
        Token::Number(1),
        Token::Plus,
        Token::Number(2),
        Token::Star,
        Token::Number(3),
        Token::EOF,
    ];
    let p = Parser::new(toks).parse_program().unwrap();
    assert!(p.functions.is_empty());
    assert_eq!(
        p.statements,
        vec![Statement::Assign {
            name: "x".to_string(),
            expr: bin(
                BinOp::Add,
                Expr::IntLiteral(1),
                bin(BinOp::Mul, Expr::IntLiteral(2), Expr::IntLiteral(3))
            ),
        }]
    );
}

#[test]
fn failed_expect_reports_the_token_in_place() {
    let e = parse_err("fn f { }");
    assert_eq!(e.expected, Expected::LParen);
    assert_eq!(e.found, Token::LBrace);
    assert_eq!(e.pos, 2);
    let e = parse_err("fn f() x");
    assert_eq!(e.expected, Expected::LBrace);
    assert_eq!(e.found, Token::Ident("x".to_string()));
    assert_eq!(e.pos, 4);
}

#[test]
fn errors_from_explicit_tokens_are_parse_errors() {
    let toks = vec![Token::Print, Token::EOF];
    match Parser::new(toks).parse_program() {
        Err(CompileError::Parse(e)) => {
            assert_eq!(e.expected, Expected::Expression);
            assert_eq!(e.found, Token::EOF);
            assert_eq!(e.pos, 1);
        }
        other => panic!("expected a parse error, got {:?}", other),
    }
}
