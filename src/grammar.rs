use vstd::prelude::*;

use crate::ast::{BinOp, ExprView, FunctionView, ProgramView, StatementView};
use crate::error::{Expected, ParseErrorView};
use crate::token::TokenView;

verus! {

/// The token at `p`; every position outside the sequence reads as `EOF`.
pub open spec fn tok_at(ts: Seq<TokenView>, p: int) -> TokenView {
    if 0 <= p < ts.len() {
        ts[p]
    } else {
        TokenView::EOF
    }
}

/// The failure at `p` where `expected` was required.
pub open spec fn fail(ts: Seq<TokenView>, p: int, expected: Expected) -> ParseErrorView {
    ParseErrorView { expected, found: tok_at(ts, p), pos: p }
}

/// `q` lies between `lo` and the end of the sequence. Every rule returns
/// such a position; each rule goes on only from one.
pub open spec fn within(ts: Seq<TokenView>, lo: int, q: int) -> bool {
    lo <= q <= ts.len()
}

pub open spec fn length_word() -> Seq<char> {
    seq!['l', 'e', 'n', 'g', 't', 'h']
}

pub open spec fn if_word() -> Seq<char> {
    seq!['i', 'f']
}

pub open spec fn else_word() -> Seq<char> {
    seq!['e', 'l', 's', 'e']
}

/// The binary-operator levels, loosest first.
#[derive(Clone, Copy, PartialEq, Eq, Structural)]
pub enum Level {
    Equality,
    Comparison,
    Addition,
    Term,
}

pub open spec fn level_rank(l: Level) -> int {
    match l {
        Level::Equality => 40,
        Level::Comparison => 30,
        Level::Addition => 20,
        Level::Term => 10,
    }
}

/// The operator that token `t` stands for at level `l`, if any.
pub open spec fn level_op(l: Level, t: TokenView) -> Option<BinOp> {
    match l {
        Level::Equality => match t {
            TokenView::EqEq => Some(BinOp::Eq),
            TokenView::Ne => Some(BinOp::Ne),
            TokenView::NeEq => Some(BinOp::Ne),
            _ => None,
        },
        Level::Comparison => match t {
            TokenView::Lt => Some(BinOp::Lt),
            TokenView::Le => Some(BinOp::Le),
            TokenView::Gt => Some(BinOp::Gt),
            TokenView::Ge => Some(BinOp::Ge),
            _ => None,
        },
        Level::Addition => match t {
            TokenView::Plus => Some(BinOp::Add),
            TokenView::Minus => Some(BinOp::Sub),
            _ => None,
        },
        Level::Term => match t {
            TokenView::Star => Some(BinOp::Mul),
            TokenView::Slash => Some(BinOp::Div),
            _ => None,
        },
    }
}

/// `primary := STRING | NUMBER | IDENT ('(' args ')')? | '(' expr ')'`
pub open spec fn primary_at(ts: Seq<TokenView>, p: int) -> Result<(ExprView, int), ParseErrorView>
    decreases ts.len() - p, 2int,
{
    if !within(ts, 0, p) {
        Err(fail(ts, p, Expected::Expression))
    } else {
        match tok_at(ts, p) {
            TokenView::StrLiteral(s) => Ok((ExprView::StrLiteral(s), p + 1)),
            TokenView::Number(n) => Ok((ExprView::IntLiteral(n), p + 1)),
            TokenView::Ident(name) => if tok_at(ts, p + 1) == TokenView::LParen {
                match args_at(ts, p + 2) {
                    Ok((args, q)) => Ok((ExprView::Call { name, args }, q)),
                    Err(e) => Err(e),
                }
            } else {
                Ok((ExprView::Variable(name), p + 1))
            },
            TokenView::LParen => match expr_at(ts, p + 1) {
                Ok((e, q)) => if tok_at(ts, q) == TokenView::RParen {
                    Ok((e, q + 1))
                } else {
                    Err(fail(ts, q, Expected::RParen))
                },
                Err(e) => Err(e),
            },
            _ => Err(fail(ts, p, Expected::Expression)),
        }
    }
}

/// The arguments of a call, from just after its `(` up to and past its `)`.
pub open spec fn args_at(ts: Seq<TokenView>, p: int) -> Result<(Seq<ExprView>, int), ParseErrorView>
    decreases ts.len() - p, 47int,
{
    if !within(ts, 0, p) {
        Err(fail(ts, p, Expected::Expression))
    } else if tok_at(ts, p) == TokenView::RParen {
        Ok((Seq::empty(), p + 1))
    } else {
        args_rest(ts, p, Seq::empty())
    }
}

pub open spec fn args_rest(ts: Seq<TokenView>, p: int, acc: Seq<ExprView>) -> Result<
    (Seq<ExprView>, int),
    ParseErrorView,
>
    decreases ts.len() - p, 46int,
{
    if !within(ts, 0, p) {
        Err(fail(ts, p, Expected::Expression))
    } else {
        match expr_at(ts, p) {
            Ok((e, q)) => if !within(ts, p + 1, q) {
                Ok((acc.push(e), q))
            } else if tok_at(ts, q) == TokenView::Comma {
                args_rest(ts, q + 1, acc.push(e))
            } else if tok_at(ts, q) == TokenView::RParen {
                Ok((acc.push(e), q + 1))
            } else {
                Err(fail(ts, q, Expected::RParen))
            },
            Err(e) => Err(e),
        }
    }
}

/// `factor := primary ('.' 'length' '(' ')')*`
pub open spec fn factor_at(ts: Seq<TokenView>, p: int) -> Result<(ExprView, int), ParseErrorView>
    decreases ts.len() - p, 4int,
{
    match primary_at(ts, p) {
        Ok((e, q)) => if within(ts, p + 1, q) {
            postfix_rest(ts, q, e)
        } else {
            Ok((e, q))
        },
        Err(e) => Err(e),
    }
}

pub open spec fn postfix_rest(ts: Seq<TokenView>, q: int, e: ExprView) -> Result<
    (ExprView, int),
    ParseErrorView,
>
    decreases ts.len() - q, 3int,
{
    if !within(ts, 0, q) || tok_at(ts, q) != TokenView::Dot {
        Ok((e, q))
    } else if tok_at(ts, q + 1) != TokenView::Ident(length_word()) {
        Err(fail(ts, q + 1, Expected::LengthMethod))
    } else if tok_at(ts, q + 2) != TokenView::LParen {
        Err(fail(ts, q + 2, Expected::LParen))
    } else if tok_at(ts, q + 3) != TokenView::RParen {
        Err(fail(ts, q + 3, Expected::RParen))
    } else {
        postfix_rest(ts, q + 4, ExprView::Length { array: Box::new(e) })
    }
}

/// The operand of level `l`: the next tighter level, or a factor.
pub open spec fn operand_at(ts: Seq<TokenView>, p: int, l: Level) -> Result<
    (ExprView, int),
    ParseErrorView,
>
    decreases ts.len() - p, level_rank(l) - 5,
{
    match l {
        Level::Term => factor_at(ts, p),
        Level::Addition => binary_at(ts, p, Level::Term),
        Level::Comparison => binary_at(ts, p, Level::Addition),
        Level::Equality => binary_at(ts, p, Level::Comparison),
    }
}

/// `level := operand (op operand)*`, folded to the left.
pub open spec fn binary_at(ts: Seq<TokenView>, p: int, l: Level) -> Result<
    (ExprView, int),
    ParseErrorView,
>
    decreases ts.len() - p, level_rank(l),
{
    match operand_at(ts, p, l) {
        Ok((lhs, q)) => if within(ts, p + 1, q) {
            binary_rest(ts, q, l, lhs)
        } else {
            Ok((lhs, q))
        },
        Err(e) => Err(e),
    }
}

pub open spec fn binary_rest(ts: Seq<TokenView>, q: int, l: Level, lhs: ExprView) -> Result<
    (ExprView, int),
    ParseErrorView,
>
    decreases ts.len() - q, level_rank(l) - 1,
{
    if !within(ts, 0, q) {
        Ok((lhs, q))
    } else {
        match level_op(l, tok_at(ts, q)) {
            None => Ok((lhs, q)),
            Some(op) => match operand_at(ts, q + 1, l) {
                Ok((rhs, q2)) => {
                    let node = ExprView::Binary { op, left: Box::new(lhs), right: Box::new(rhs) };
                    if within(ts, q + 2, q2) {
                        binary_rest(ts, q2, l, node)
                    } else {
                        Ok((node, q2))
                    }
                },
                Err(e) => Err(e),
            },
        }
    }
}

/// `expr := equality`
pub open spec fn expr_at(ts: Seq<TokenView>, p: int) -> Result<(ExprView, int), ParseErrorView>
    decreases ts.len() - p, 45int,
{
    binary_at(ts, p, Level::Equality)
}

/// `statement := 'print' expr | 'if' expr block ('else' block)? | expr ('=' expr)?`,
/// where the left side of `=` must be a bare variable.
pub open spec fn statement_at(ts: Seq<TokenView>, p: int) -> Result<
    (StatementView, int),
    ParseErrorView,
>
    decreases ts.len() - p, 50int,
{
    if !within(ts, 0, p) {
        Err(fail(ts, p, Expected::Expression))
    } else if tok_at(ts, p) == TokenView::Print {
        match expr_at(ts, p + 1) {
            Ok((e, q)) => Ok((StatementView::Print { expr: e }, q)),
            Err(e) => Err(e),
        }
    } else if tok_at(ts, p) == TokenView::Ident(if_word()) {
        if_at(ts, p)
    } else {
        simple_statement_at(ts, p)
    }
}

/// `'if' expr block ('else' block)?`, with the `if` at `p`.
pub open spec fn if_at(ts: Seq<TokenView>, p: int) -> Result<(StatementView, int), ParseErrorView>
    decreases ts.len() - p, 49int,
{
    match expr_at(ts, p + 1) {
        Ok((c, q)) => if !within(ts, p + 2, q) {
            Err(fail(ts, q, Expected::LBrace))
        } else {
            match block_at(ts, q) {
                Ok((th, q2)) => if !within(ts, q + 2, q2) {
                    Err(fail(ts, q2, Expected::LBrace))
                } else if tok_at(ts, q2) == TokenView::Ident(else_word()) {
                    match block_at(ts, q2 + 1) {
                        Ok((el, q3)) => Ok(
                            (
                                StatementView::If { cond: c, then_branch: th, else_branch: el },
                                q3,
                            ),
                        ),
                        Err(e) => Err(e),
                    }
                } else {
                    Ok(
                        (
                            StatementView::If {
                                cond: c,
                                then_branch: th,
                                else_branch: Seq::empty(),
                            },
                            q2,
                        ),
                    )
                },
                Err(e) => Err(e),
            }
        },
        Err(e) => Err(e),
    }
}

/// `expr ('=' expr)?`, where the left side of `=` must be a bare variable.
pub open spec fn simple_statement_at(ts: Seq<TokenView>, p: int) -> Result<
    (StatementView, int),
    ParseErrorView,
>
    decreases ts.len() - p, 48int,
{
    match expr_at(ts, p) {
        Ok((lhs, q)) => if !within(ts, p + 1, q) || tok_at(ts, q) != TokenView::Eq {
            Ok((StatementView::ExprStmt(lhs), q))
        } else {
            match expr_at(ts, q + 1) {
                Ok((v, q2)) => match lhs {
                    ExprView::Variable(name) => Ok(
                        (StatementView::Assign { name, expr: v }, q2),
                    ),
                    _ => Err(fail(ts, p, Expected::AssignmentTarget)),
                },
                Err(e) => Err(e),
            }
        },
        Err(e) => Err(e),
    }
}

/// `block := '{' statement* '}'`
pub open spec fn block_at(ts: Seq<TokenView>, p: int) -> Result<
    (Seq<StatementView>, int),
    ParseErrorView,
>
    decreases ts.len() - p, 52int,
{
    if !within(ts, 0, p) || tok_at(ts, p) != TokenView::LBrace {
        Err(fail(ts, p, Expected::LBrace))
    } else {
        block_rest(ts, p + 1, Seq::empty())
    }
}

pub open spec fn block_rest(ts: Seq<TokenView>, p: int, acc: Seq<StatementView>) -> Result<
    (Seq<StatementView>, int),
    ParseErrorView,
>
    decreases ts.len() - p, 51int,
{
    if !within(ts, 0, p) {
        Err(fail(ts, p, Expected::RBrace))
    } else if tok_at(ts, p) == TokenView::RBrace {
        Ok((acc, p + 1))
    } else {
        match statement_at(ts, p) {
            Ok((st, q)) => if within(ts, p + 1, q) {
                block_rest(ts, q, acc.push(st))
            } else {
                Ok((acc.push(st), q))
            },
            Err(e) => Err(e),
        }
    }
}

/// The parameter names, from just after the `(` up to and past the `)`;
/// a comma must be followed by another name.
pub open spec fn params_at(ts: Seq<TokenView>, p: int) -> Result<
    (Seq<Seq<char>>, int),
    ParseErrorView,
> {
    if tok_at(ts, p) == TokenView::RParen {
        Ok((Seq::empty(), p + 1))
    } else {
        params_rest(ts, p, Seq::empty())
    }
}

pub open spec fn params_rest(ts: Seq<TokenView>, p: int, acc: Seq<Seq<char>>) -> Result<
    (Seq<Seq<char>>, int),
    ParseErrorView,
>
    decreases ts.len() - p,
{
    if !within(ts, 0, p) {
        Err(fail(ts, p, Expected::ParameterName))
    } else {
        match tok_at(ts, p) {
            TokenView::Ident(n) => if tok_at(ts, p + 1) == TokenView::Comma {
                params_rest(ts, p + 2, acc.push(n))
            } else if tok_at(ts, p + 1) == TokenView::RParen {
                Ok((acc.push(n), p + 2))
            } else {
                Err(fail(ts, p + 1, Expected::RParen))
            },
            _ => Err(fail(ts, p, Expected::ParameterName)),
        }
    }
}

/// `function := 'fn' IDENT '(' params ')' block`, with the `fn` keyword at `p`.
pub open spec fn function_at(ts: Seq<TokenView>, p: int) -> Result<
    (FunctionView, int),
    ParseErrorView,
> {
    match tok_at(ts, p + 1) {
        TokenView::Ident(name) => if tok_at(ts, p + 2) != TokenView::LParen {
            Err(fail(ts, p + 2, Expected::LParen))
        } else {
            match params_at(ts, p + 3) {
                Ok((params, q)) => match block_at(ts, q) {
                    Ok((body, q2)) => Ok((FunctionView { name, params, body }, q2)),
                    Err(e) => Err(e),
                },
                Err(e) => Err(e),
            }
        },
        _ => Err(fail(ts, p + 1, Expected::FunctionName)),
    }
}

/// `program := (function | statement)* EOF`; the position returned is that of
/// the `EOF` where parsing stopped.
pub open spec fn program_rest(
    ts: Seq<TokenView>,
    p: int,
    fs: Seq<FunctionView>,
    ss: Seq<StatementView>,
) -> Result<(ProgramView, int), ParseErrorView>
    decreases ts.len() - p,
{
    if !within(ts, 0, p) || tok_at(ts, p) == TokenView::EOF {
        Ok((ProgramView { functions: fs, statements: ss }, p))
    } else if tok_at(ts, p) == TokenView::Fn {
        match function_at(ts, p) {
            Ok((f, q)) => if within(ts, p + 1, q) {
                program_rest(ts, q, fs.push(f), ss)
            } else {
                Ok((ProgramView { functions: fs.push(f), statements: ss }, q))
            },
            Err(e) => Err(e),
        }
    } else {
        match statement_at(ts, p) {
            Ok((st, q)) => if within(ts, p + 1, q) {
                program_rest(ts, q, fs, ss.push(st))
            } else {
                Ok((ProgramView { functions: fs, statements: ss.push(st) }, q))
            },
            Err(e) => Err(e),
        }
    }
}

/// The program that the tokens from `p` on form.
pub open spec fn program_at(ts: Seq<TokenView>, p: int) -> Result<(ProgramView, int), ParseErrorView> {
    program_rest(ts, p, Seq::empty(), Seq::empty())
}

} // verus!
