use vstd::prelude::*;
use vstd::string::StrSliceExecFns;

use crate::ast::{
    FunctionView,
    StatementView,
    exprs_view, functions_view, names_view, statements_view, BinOp, Expr, Function, Program,
    Statement,
};
use crate::error::{CompileError, Expected, ParseError, ParseErrorView};
use crate::grammar::{
    args_at, args_rest, binary_at, else_word, if_at, if_word, length_word, simple_statement_at, binary_rest, block_at, block_rest, expr_at, factor_at, fail,
    function_at, level_op, level_rank, operand_at, params_at, params_rest, postfix_rest, primary_at,
    program_at, program_rest, statement_at, tok_at, within, Level,
};
use crate::token::{carries_data, ends_in_eof, tokens_view, Token, TokenView};

verus! {

broadcast use vstd::std_specs::vec::group_vec_axioms, vstd::seq::group_seq_axioms;

/// `s` is the spec result of a rule: on `Ok` the parse succeeded with view `v`
/// and stopped at `q`; otherwise it failed with `e`.
pub open spec fn agrees<V>(
    ok: bool,
    v: V,
    e: ParseErrorView,
    q: int,
    s: Result<(V, int), ParseErrorView>,
) -> bool {
    match s {
        Ok((sv, sq)) => ok && v == sv && q == sq,
        Err(se) => !ok && e == se,
    }
}

/// Parsing went from `p` to `q` and its last token taken was not `EOF`.
pub open spec fn progressed(ts: Seq<TokenView>, p: int, q: int) -> bool {
    p < q && !(tok_at(ts, q - 1) is EOF)
}

/// Whether `s` holds exactly the characters of `w`.
fn text_is(s: &String, w: &str) -> (r: bool)
    ensures
        r == (s@ == w@),
{
    let a = s.as_str();
    let n = a.unicode_len();
    if n != w.unicode_len() {
        return false;
    }
    let mut i: usize = 0;
    while i < n
        invariant
            n == a@.len() == w@.len(),
            a@ == s@,
            i <= n,
            forall|j: int| 0 <= j < i ==> a@[j] == w@[j],
        decreases n - i,
    {
        if a.get_char(i) != w.get_char(i) {
            return false;
        }
        i = i + 1;
    }
    assert(a@ =~= w@);
    true
}

fn level_op_of(l: Level, t: &Token) -> (r: Option<BinOp>)
    ensures
        r == level_op(l, t@),
{
    match l {
        Level::Equality => match t {
            Token::EqEq => Some(BinOp::Eq),
            Token::Ne => Some(BinOp::Ne),
            Token::NeEq => Some(BinOp::Ne),
            _ => None,
        },
        Level::Comparison => match t {
            Token::Lt => Some(BinOp::Lt),
            Token::Le => Some(BinOp::Le),
            Token::Gt => Some(BinOp::Gt),
            Token::Ge => Some(BinOp::Ge),
            _ => None,
        },
        Level::Addition => match t {
            Token::Plus => Some(BinOp::Add),
            Token::Minus => Some(BinOp::Sub),
            _ => None,
        },
        Level::Term => match t {
            Token::Star => Some(BinOp::Mul),
            Token::Slash => Some(BinOp::Div),
            _ => None,
        },
    }
}

/// A recursive-descent parser over an owned token sequence, with one forward
/// cursor.
pub struct Parser {
    tokens: Vec<Token>,
    pos: usize,
}

impl Parser {
    /// The tokens being parsed.
    pub closed spec fn token_views(&self) -> Seq<TokenView> {
        tokens_view(self.tokens@)
    }

    /// The cursor: the index of the next token to read.
    pub closed spec fn position(&self) -> int {
        self.pos as int
    }

    /// The cursor never passes the end of the sequence, nor a final `EOF`.
    pub closed spec fn wf(&self) -> bool {
        &&& self.pos <= self.tokens@.len()
        &&& ends_in_eof(self.token_views()) ==> self.pos < self.tokens@.len()
    }

    /// A parser at the start of `tokens`.
    pub fn new(tokens: Vec<Token>) -> (r: Parser)
        ensures
            r.wf(),
            r.token_views() == tokens_view(tokens@),
            r.position() == 0,
    {
        Parser { tokens, pos: 0 }
    }

    /// The token under the cursor; `None` past the end of the sequence.
    fn peek(&self) -> (r: Option<&Token>)
        requires
            self.wf(),
        ensures
            r is None <==> self.pos >= self.tokens@.len(),
            r is Some ==> r->0@ == tok_at(self.token_views(), self.position()),
    {
        if self.pos < self.tokens.len() {
            Some(&self.tokens[self.pos])
        } else {
            None
        }
    }

    fn next_is(&self, unit: &Token) -> (r: bool)
        requires
            self.wf(),
            !carries_data(unit@),
        ensures
            r == (tok_at(self.token_views(), self.position()) == unit@),
    {
        match self.peek() {
            Some(t) => t.is_same(unit),
            None => matches!(unit, Token::EOF),
        }
    }

    fn ident_is(&self, w: &str) -> (r: bool)
        requires
            self.wf(),
        ensures
            r == (tok_at(self.token_views(), self.position()) == TokenView::Ident(w@)),
    {
        match self.peek() {
            Some(Token::Ident(s)) => text_is(s, w),
            _ => false,
        }
    }

    fn eat(&mut self)
        requires
            old(self).wf(),
        ensures
            final(self).wf(),
            final(self).tokens == old(self).tokens,
            final(self).pos == if tok_at(old(self).token_views(), old(self).position()) is EOF {
                old(self).pos as int
            } else {
                old(self).pos + 1
            },
    {
        if self.pos < self.tokens.len() && !matches!(self.tokens[self.pos], Token::EOF) {
            self.pos = self.pos + 1;
        }
    }

    fn error_at(&self, p: usize, what: Expected) -> (r: ParseError)
        requires
            self.wf(),
        ensures
            r@ == fail(self.token_views(), p as int, what),
    {
        let found = if p < self.tokens.len() {
            self.tokens[p].duplicate()
        } else {
            Token::EOF
        };
        ParseError { expected: what, found, pos: p }
    }

    /// Consumes the token under the cursor when it is `want`; otherwise fails
    /// with `what` and leaves the cursor where it is. An `EOF` is matched but
    /// never stepped over.
    fn expect(&mut self, want: Token, what: Expected) -> (r: Result<(), ParseError>)
        requires
            old(self).wf(),
        ensures
            final(self).wf(),
            final(self).tokens == old(self).tokens,
            tok_at(old(self).token_views(), old(self).position()) == want@ ==> r is Ok
                && final(self).pos == if want@ is EOF {
                old(self).pos as int
            } else {
                old(self).pos + 1
            },
            tok_at(old(self).token_views(), old(self).position()) != want@ ==> r is Err
                && r->Err_0@ == fail(old(self).token_views(), old(self).position(), what)
                && final(self).pos == old(self).pos,
    {
        let found = match self.peek() {
            Some(t) => t.same_as(&want),
            None => matches!(want, Token::EOF),
        };
        if found {
            self.eat();
            Ok(())
        } else {
            Err(self.error_at(self.pos, what))
        }
    }

    fn parse_primary(&mut self) -> (r: Result<Expr, ParseError>)
        requires
            old(self).wf(),
        ensures
            final(self).wf(),
            final(self).tokens == old(self).tokens,
            agrees(
                r is Ok,
                r->Ok_0@,
                r->Err_0@,
                final(self).position(),
                primary_at(old(self).token_views(), old(self).position()),
            ),
            r is Ok ==> progressed(old(self).token_views(), old(self).position(), final(self).position()),
        decreases old(self).tokens@.len() - old(self).pos, 2int,
    {
        match self.peek() {
            Some(Token::StrLiteral(s)) => {
                let v = s.clone();
                self.eat();
                Ok(Expr::StrLiteral(v))
            },
            Some(Token::Number(n)) => {
                let v = *n;
                self.eat();
                Ok(Expr::IntLiteral(v))
            },
            Some(Token::Ident(name)) => {
                let name = name.clone();
                self.eat();
                if self.next_is(&Token::LParen) {
                    self.eat();
                    match self.parse_args() {
                        Ok(args) => Ok(Expr::Call { name, args }),
                        Err(e) => Err(e),
                    }
                } else {
                    Ok(Expr::Variable(name))
                }
            },
            Some(Token::LParen) => {
                self.eat();
                let e = match self.parse_expr() {
                    Ok(e) => e,
                    Err(e) => {
                        return Err(e);
                    },
                };
                if self.next_is(&Token::RParen) {
                    self.eat();
                    Ok(e)
                } else {
                    Err(self.error_at(self.pos, Expected::RParen))
                }
            },
            _ => Err(self.error_at(self.pos, Expected::Expression)),
        }
    }

    /// The arguments of a call, with the cursor just after its `(`.
    fn parse_args(&mut self) -> (r: Result<Vec<Expr>, ParseError>)
        requires
            old(self).wf(),
        ensures
            final(self).wf(),
            final(self).tokens == old(self).tokens,
            agrees(
                r is Ok,
                exprs_view(r->Ok_0@),
                r->Err_0@,
                final(self).position(),
                args_at(old(self).token_views(), old(self).position()),
            ),
            r is Ok ==> progressed(old(self).token_views(), old(self).position(), final(self).position()),
        decreases old(self).tokens@.len() - old(self).pos, 47int,
    {
        let ghost ts = self.token_views();
        let ghost start = self.position();
        let mut args: Vec<Expr> = Vec::new();
        if self.next_is(&Token::RParen) {
            self.eat();
            return Ok(args);
        }
        loop
            invariant
                self.wf(),
                self.tokens == old(self).tokens,
                ts == self.token_views(),
                ts == old(self).token_views(),
                start == old(self).pos,
                start <= self.position(),
                args_at(ts, start) == args_rest(ts, self.position(), exprs_view(args@)),
            decreases self.tokens@.len() - self.pos,
        {
            let e = match self.parse_expr() {
                Ok(e) => e,
                Err(e) => {
                    return Err(e);
                },
            };
            let ghost before = args@;
            args.push(e);
            assert(args@.drop_last() =~= before);
            if self.next_is(&Token::Comma) {
                self.eat();
            } else if self.next_is(&Token::RParen) {
                self.eat();
                return Ok(args);
            } else {
                return Err(self.error_at(self.pos, Expected::RParen));
            }
        }
    }

    fn parse_factor(&mut self) -> (r: Result<Expr, ParseError>)
        requires
            old(self).wf(),
        ensures
            final(self).wf(),
            final(self).tokens == old(self).tokens,
            agrees(
                r is Ok,
                r->Ok_0@,
                r->Err_0@,
                final(self).position(),
                factor_at(old(self).token_views(), old(self).position()),
            ),
            r is Ok ==> progressed(old(self).token_views(), old(self).position(), final(self).position()),
        decreases old(self).tokens@.len() - old(self).pos, 4int,
    {
        let ghost ts = self.token_views();
        let ghost start = self.position();
        let mut node = match self.parse_primary() {
            Ok(e) => e,
            Err(e) => {
                return Err(e);
            },
        };
        loop
            invariant
                self.wf(),
                self.tokens == old(self).tokens,
                ts == self.token_views(),
                ts == old(self).token_views(),
                start == old(self).pos,
                progressed(ts, start, self.position()),
                factor_at(ts, start) == postfix_rest(ts, self.position(), node@),
            decreases self.tokens@.len() - self.pos,
        {
            if !self.next_is(&Token::Dot) {
                return Ok(node);
            }
            self.eat();
            let is_length = self.ident_is("length");
            proof {
                reveal_strlit("length");
                assert("length"@ =~= length_word());
            }
            if !is_length {
                return Err(self.error_at(self.pos, Expected::LengthMethod));
            }
            self.eat();
            match self.expect(Token::LParen, Expected::LParen) {
                Ok(()) => {},
                Err(e) => {
                    return Err(e);
                },
            }
            match self.expect(Token::RParen, Expected::RParen) {
                Ok(()) => {},
                Err(e) => {
                    return Err(e);
                },
            }
            node = Expr::Length { array: Box::new(node) };
        }
    }

    fn parse_operand(&mut self, l: Level) -> (r: Result<Expr, ParseError>)
        requires
            old(self).wf(),
        ensures
            final(self).wf(),
            final(self).tokens == old(self).tokens,
            agrees(
                r is Ok,
                r->Ok_0@,
                r->Err_0@,
                final(self).position(),
                operand_at(old(self).token_views(), old(self).position(), l),
            ),
            r is Ok ==> progressed(old(self).token_views(), old(self).position(), final(self).position()),
        decreases old(self).tokens@.len() - old(self).pos, level_rank(l) - 5,
    {
        match l {
            Level::Term => self.parse_factor(),
            Level::Addition => self.parse_term(),
            Level::Comparison => self.parse_addition(),
            Level::Equality => self.parse_comparison(),
        }
    }

    /// One level of the binary-operator ladder, folded to the left.
    fn parse_binary(&mut self, l: Level) -> (r: Result<Expr, ParseError>)
        requires
            old(self).wf(),
        ensures
            final(self).wf(),
            final(self).tokens == old(self).tokens,
            agrees(
                r is Ok,
                r->Ok_0@,
                r->Err_0@,
                final(self).position(),
                binary_at(old(self).token_views(), old(self).position(), l),
            ),
            r is Ok ==> progressed(old(self).token_views(), old(self).position(), final(self).position()),
        decreases old(self).tokens@.len() - old(self).pos, level_rank(l),
    {
        let ghost ts = self.token_views();
        let ghost start = self.position();
        let mut lhs = match self.parse_operand(l) {
            Ok(e) => e,
            Err(e) => {
                return Err(e);
            },
        };
        loop
            invariant
                self.wf(),
                self.tokens == old(self).tokens,
                ts == self.token_views(),
                ts == old(self).token_views(),
                start == old(self).pos,
                progressed(ts, start, self.position()),
                binary_at(ts, start, l) == binary_rest(ts, self.position(), l, lhs@),
            decreases self.tokens@.len() - self.pos,
        {
            let op = match self.peek() {
                Some(t) => level_op_of(l, t),
                None => None,
            };
            match op {
                None => {
                    return Ok(lhs);
                },
                Some(op) => {
                    self.eat();
                    let rhs = match self.parse_operand(l) {
                        Ok(e) => e,
                        Err(e) => {
                            return Err(e);
                        },
                    };
                    lhs = Expr::Binary { op, left: Box::new(lhs), right: Box::new(rhs) };
                },
            }
        }
    }

    fn parse_equality(&mut self) -> (r: Result<Expr, ParseError>)
        requires
            old(self).wf(),
        ensures
            final(self).wf(),
            final(self).tokens == old(self).tokens,
            agrees(
                r is Ok,
                r->Ok_0@,
                r->Err_0@,
                final(self).position(),
                binary_at(old(self).token_views(), old(self).position(), Level::Equality),
            ),
            r is Ok ==> progressed(old(self).token_views(), old(self).position(), final(self).position()),
        decreases old(self).tokens@.len() - old(self).pos, 41int,
    {
        self.parse_binary(Level::Equality)
    }

    fn parse_comparison(&mut self) -> (r: Result<Expr, ParseError>)
        requires
            old(self).wf(),
        ensures
            final(self).wf(),
            final(self).tokens == old(self).tokens,
            agrees(
                r is Ok,
                r->Ok_0@,
                r->Err_0@,
                final(self).position(),
                binary_at(old(self).token_views(), old(self).position(), Level::Comparison),
            ),
            r is Ok ==> progressed(old(self).token_views(), old(self).position(), final(self).position()),
        decreases old(self).tokens@.len() - old(self).pos, 31int,
    {
        self.parse_binary(Level::Comparison)
    }

    fn parse_addition(&mut self) -> (r: Result<Expr, ParseError>)
        requires
            old(self).wf(),
        ensures
            final(self).wf(),
            final(self).tokens == old(self).tokens,
            agrees(
                r is Ok,
                r->Ok_0@,
                r->Err_0@,
                final(self).position(),
                binary_at(old(self).token_views(), old(self).position(), Level::Addition),
            ),
            r is Ok ==> progressed(old(self).token_views(), old(self).position(), final(self).position()),
        decreases old(self).tokens@.len() - old(self).pos, 21int,
    {
        self.parse_binary(Level::Addition)
    }

    fn parse_term(&mut self) -> (r: Result<Expr, ParseError>)
        requires
            old(self).wf(),
        ensures
            final(self).wf(),
            final(self).tokens == old(self).tokens,
            agrees(
                r is Ok,
                r->Ok_0@,
                r->Err_0@,
                final(self).position(),
                binary_at(old(self).token_views(), old(self).position(), Level::Term),
            ),
            r is Ok ==> progressed(old(self).token_views(), old(self).position(), final(self).position()),
        decreases old(self).tokens@.len() - old(self).pos, 11int,
    {
        self.parse_binary(Level::Term)
    }

    fn parse_expr(&mut self) -> (r: Result<Expr, ParseError>)
        requires
            old(self).wf(),
        ensures
            final(self).wf(),
            final(self).tokens == old(self).tokens,
            agrees(
                r is Ok,
                r->Ok_0@,
                r->Err_0@,
                final(self).position(),
                expr_at(old(self).token_views(), old(self).position()),
            ),
            r is Ok ==> progressed(old(self).token_views(), old(self).position(), final(self).position()),
        decreases old(self).tokens@.len() - old(self).pos, 45int,
    {
        self.parse_equality()
    }

    fn parse_statement(&mut self) -> (r: Result<Statement, ParseError>)
        requires
            old(self).wf(),
        ensures
            final(self).wf(),
            final(self).tokens == old(self).tokens,
            agrees(
                r is Ok,
                r->Ok_0@,
                r->Err_0@,
                final(self).position(),
                statement_at(old(self).token_views(), old(self).position()),
            ),
            r is Ok ==> progressed(old(self).token_views(), old(self).position(), final(self).position()),
        decreases old(self).tokens@.len() - old(self).pos, 50int,
    {
        if self.next_is(&Token::Print) {
            self.eat();
            return match self.parse_expr() {
                Ok(e) => Ok(Statement::Print { expr: e }),
                Err(e) => Err(e),
            };
        }
        let is_if = self.ident_is("if");
        proof {
            reveal_strlit("if");
            assert("if"@ =~= if_word());
        }
        if is_if {
            self.parse_if()
        } else {
            self.parse_simple_statement()
        }
    }

    /// A conditional, with the cursor on its `if`.
    #[verifier::rlimit(40)]
    fn parse_if(&mut self) -> (r: Result<Statement, ParseError>)
        requires
            old(self).wf(),
            tok_at(old(self).token_views(), old(self).position()) == TokenView::Ident(if_word()),
        ensures
            final(self).wf(),
            final(self).tokens == old(self).tokens,
            agrees(
                r is Ok,
                r->Ok_0@,
                r->Err_0@,
                final(self).position(),
                if_at(old(self).token_views(), old(self).position()),
            ),
            r is Ok ==> progressed(old(self).token_views(), old(self).position(), final(self).position()),
        decreases old(self).tokens@.len() - old(self).pos, 49int,
    {
        let ghost ts = self.token_views();
        let ghost start = self.position();
        self.eat();
        let cond = match self.parse_expr() {
            Ok(e) => e,
            Err(e) => {
                return Err(e);
            },
        };
        let ghost q = self.position();
        assert(within(ts, start + 2, q));
        let then_branch = match self.parse_block() {
            Ok(b) => b,
            Err(e) => {
                return Err(e);
            },
        };
        let ghost q2 = self.position();
        assert(within(ts, q + 2, q2));
        let is_else = self.ident_is("else");
        proof {
            reveal_strlit("else");
            assert("else"@ =~= else_word());
        }
        if is_else {
            self.eat();
            let else_branch = match self.parse_block() {
                Ok(b) => b,
                Err(e) => {
                    return Err(e);
                },
            };
            Ok(Statement::If { cond, then_branch, else_branch })
        } else {
            let else_branch: Vec<Statement> = Vec::new();
            assert(statements_view(else_branch@) == Seq::<StatementView>::empty());
            Ok(Statement::If { cond, then_branch, else_branch })
        }
    }

    /// An expression statement, or an assignment when `=` follows the
    /// expression.
    fn parse_simple_statement(&mut self) -> (r: Result<Statement, ParseError>)
        requires
            old(self).wf(),
        ensures
            final(self).wf(),
            final(self).tokens == old(self).tokens,
            agrees(
                r is Ok,
                r->Ok_0@,
                r->Err_0@,
                final(self).position(),
                simple_statement_at(old(self).token_views(), old(self).position()),
            ),
            r is Ok ==> progressed(old(self).token_views(), old(self).position(), final(self).position()),
        decreases old(self).tokens@.len() - old(self).pos, 48int,
    {
        let start = self.pos;
        let lhs = match self.parse_expr() {
            Ok(e) => e,
            Err(e) => {
                return Err(e);
            },
        };
        if !self.next_is(&Token::Eq) {
            return Ok(Statement::ExprStmt(lhs));
        }
        self.eat();
        let value = match self.parse_expr() {
            Ok(e) => e,
            Err(e) => {
                return Err(e);
            },
        };
        match lhs {
            Expr::Variable(name) => Ok(Statement::Assign { name, expr: value }),
            _ => Err(self.error_at(start, Expected::AssignmentTarget)),
        }
    }

    fn parse_block(&mut self) -> (r: Result<Vec<Statement>, ParseError>)
        requires
            old(self).wf(),
        ensures
            final(self).wf(),
            final(self).tokens == old(self).tokens,
            agrees(
                r is Ok,
                statements_view(r->Ok_0@),
                r->Err_0@,
                final(self).position(),
                block_at(old(self).token_views(), old(self).position()),
            ),
            r is Ok ==> old(self).position() + 2 <= final(self).position(),
            r is Ok ==> progressed(old(self).token_views(), old(self).position(), final(self).position()),
        decreases old(self).tokens@.len() - old(self).pos, 52int,
    {
        let ghost ts = self.token_views();
        let ghost start = self.position();
        match self.expect(Token::LBrace, Expected::LBrace) {
            Ok(()) => {},
            Err(e) => {
                return Err(e);
            },
        }
        let mut v: Vec<Statement> = Vec::new();
        loop
            invariant
                self.wf(),
                self.tokens == old(self).tokens,
                ts == self.token_views(),
                ts == old(self).token_views(),
                start == old(self).pos,
                start < self.position(),
                block_at(ts, start) == block_rest(ts, self.position(), statements_view(v@)),
            decreases self.tokens@.len() - self.pos,
        {
            if self.next_is(&Token::RBrace) {
                self.eat();
                return Ok(v);
            }
            let st = match self.parse_statement() {
                Ok(st) => st,
                Err(e) => {
                    return Err(e);
                },
            };
            let ghost before = v@;
            v.push(st);
            assert(v@.drop_last() =~= before);
        }
    }

    /// The parameter names, with the cursor just after the `(`.
    fn parse_params(&mut self) -> (r: Result<Vec<String>, ParseError>)
        requires
            old(self).wf(),
        ensures
            final(self).wf(),
            final(self).tokens == old(self).tokens,
            agrees(
                r is Ok,
                names_view(r->Ok_0@),
                r->Err_0@,
                final(self).position(),
                params_at(old(self).token_views(), old(self).position()),
            ),
            r is Ok ==> progressed(old(self).token_views(), old(self).position(), final(self).position()),
    {
        let ghost ts = self.token_views();
        let ghost start = self.position();
        let mut params: Vec<String> = Vec::new();
        assert(names_view(params@) =~= Seq::<Seq<char>>::empty());
        if self.next_is(&Token::RParen) {
            self.eat();
            return Ok(params);
        }
        loop
            invariant
                self.wf(),
                self.tokens == old(self).tokens,
                ts == self.token_views(),
                ts == old(self).token_views(),
                start == old(self).pos,
                start <= self.position(),
                !(tok_at(ts, start) == TokenView::RParen),
                params_at(ts, start) == params_rest(ts, self.position(), names_view(params@)),
            decreases self.tokens@.len() - self.pos,
        {
            let name = match self.peek() {
                Some(Token::Ident(n)) => n.clone(),
                _ => {
                    return Err(self.error_at(self.pos, Expected::ParameterName));
                },
            };
            let ghost before = params@;
            params.push(name);
            assert(names_view(params@) =~= names_view(before).push(name@));
            self.eat();
            if self.next_is(&Token::Comma) {
                self.eat();
            } else if self.next_is(&Token::RParen) {
                self.eat();
                return Ok(params);
            } else {
                return Err(self.error_at(self.pos, Expected::RParen));
            }
        }
    }

    /// A function definition, with the cursor on its `fn`.
    fn parse_function(&mut self) -> (r: Result<Function, ParseError>)
        requires
            old(self).wf(),
            tok_at(old(self).token_views(), old(self).position()) == TokenView::Fn,
        ensures
            final(self).wf(),
            final(self).tokens == old(self).tokens,
            agrees(
                r is Ok,
                r->Ok_0@,
                r->Err_0@,
                final(self).position(),
                function_at(old(self).token_views(), old(self).position()),
            ),
            r is Ok ==> progressed(old(self).token_views(), old(self).position(), final(self).position()),
    {
        self.eat();
        let name = match self.peek() {
            Some(Token::Ident(n)) => n.clone(),
            _ => {
                return Err(self.error_at(self.pos, Expected::FunctionName));
            },
        };
        self.eat();
        match self.expect(Token::LParen, Expected::LParen) {
            Ok(()) => {},
            Err(e) => {
                return Err(e);
            },
        }
        let params = match self.parse_params() {
            Ok(ps) => ps,
            Err(e) => {
                return Err(e);
            },
        };
        let body = match self.parse_block() {
            Ok(b) => b,
            Err(e) => {
                return Err(e);
            },
        };
        Ok(Function { name, params, body })
    }

    /// Parses function definitions and statements from the cursor up to the
    /// first `EOF`, where the cursor then stands; the first failure ends the
    /// parse.
    #[verifier::rlimit(60)]
    pub fn parse_program(&mut self) -> (r: Result<Program, CompileError>)
        requires
            old(self).wf(),
        ensures
            final(self).wf(),
            final(self).token_views() == old(self).token_views(),
            match program_at(old(self).token_views(), old(self).position()) {
                Ok((prog, q)) => r is Ok && r->Ok_0@ == prog && final(self).position() == q,
                Err(e) => r matches Err(CompileError::Parse(e2)) && e2@ == e,
            },
            r is Ok ==> tok_at(final(self).token_views(), final(self).position()) == TokenView::EOF,
            ends_in_eof(old(self).token_views()) ==> final(self).position() < old(
                self,
            ).token_views().len(),
            r is Ok ==> final(self).position() == old(self).position() || progressed(
                old(self).token_views(),
                old(self).position(),
                final(self).position(),
            ),
    {
        let ghost ts = self.token_views();
        let ghost start = self.position();
        let mut functions: Vec<Function> = Vec::new();
        let mut statements: Vec<Statement> = Vec::new();
        assert(functions_view(functions@) =~= Seq::<FunctionView>::empty());
        assert(statements_view(statements@) =~= Seq::<StatementView>::empty());
        loop
            invariant
                self.wf(),
                self.tokens == old(self).tokens,
                ts == self.token_views(),
                ts == old(self).token_views(),
                start == old(self).pos,
                self.position() == start || progressed(ts, start, self.position()),
                program_at(ts, start) == program_rest(
                    ts,
                    self.position(),
                    functions_view(functions@),
                    statements_view(statements@),
                ),
            decreases self.tokens@.len() - self.pos,
        {
            if self.next_is(&Token::EOF) {
                return Ok(Program { functions, statements });
            }
            if self.next_is(&Token::Fn) {
                let f = match self.parse_function() {
                    Ok(f) => f,
                    Err(e) => {
                        return Err(CompileError::Parse(e));
                    },
                };
                let ghost before = functions@;
                functions.push(f);
                assert(functions_view(functions@) =~= functions_view(before).push(f@));
            } else {
                let st = match self.parse_statement() {
                    Ok(st) => st,
                    Err(e) => {
                        return Err(CompileError::Parse(e));
                    },
                };
                let ghost before = statements@;
                statements.push(st);
                assert(statements@.drop_last() =~= before);
            }
        }
    }
}

} // verus!
