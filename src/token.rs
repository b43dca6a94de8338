use vstd::prelude::*;

verus! {

/// One lexical unit of the language.
#[derive(Debug, Clone, PartialEq)]
pub enum Token {
    Ident(String),
    Number(i64),
    StrLiteral(String),
    BoolLiteral(bool),
    Fn,
    Print,
    LParen,
    RParen,
    LBrace,
    RBrace,
    LBracket,
    RBracket,
    Comma,
    Dot,
    EOF,
    Gt,
    Ge,
    Eq,
    EqEq,
    Ne,
    NeEq,
    Lt,
    Le,
    Plus,
    Minus,
    Star,
    Slash,
}

/// The mathematical value of a token: text is a sequence of chars.
pub enum TokenView {
    Ident(Seq<char>),
    Number(i64),
    StrLiteral(Seq<char>),
    BoolLiteral(bool),
    Fn,
    Print,
    LParen,
    RParen,
    LBrace,
    RBrace,
    LBracket,
    RBracket,
    Comma,
    Dot,
    EOF,
    Gt,
    Ge,
    Eq,
    EqEq,
    Ne,
    NeEq,
    Lt,
    Le,
    Plus,
    Minus,
    Star,
    Slash,
}

impl View for Token {
    type V = TokenView;

    open spec fn view(&self) -> TokenView {
        match self {
            Token::Ident(s) => TokenView::Ident(s@),
            Token::Number(n) => TokenView::Number(*n),
            Token::StrLiteral(s) => TokenView::StrLiteral(s@),
            Token::BoolLiteral(b) => TokenView::BoolLiteral(*b),
            Token::Fn => TokenView::Fn,
            Token::Print => TokenView::Print,
            Token::LParen => TokenView::LParen,
            Token::RParen => TokenView::RParen,
            Token::LBrace => TokenView::LBrace,
            Token::RBrace => TokenView::RBrace,
            Token::LBracket => TokenView::LBracket,
            Token::RBracket => TokenView::RBracket,
            Token::Comma => TokenView::Comma,
            Token::Dot => TokenView::Dot,
            Token::EOF => TokenView::EOF,
            Token::Gt => TokenView::Gt,
            Token::Ge => TokenView::Ge,
            Token::Eq => TokenView::Eq,
            Token::EqEq => TokenView::EqEq,
            Token::Ne => TokenView::Ne,
            Token::NeEq => TokenView::NeEq,
            Token::Lt => TokenView::Lt,
            Token::Le => TokenView::Le,
            Token::Plus => TokenView::Plus,
            Token::Minus => TokenView::Minus,
            Token::Star => TokenView::Star,
            Token::Slash => TokenView::Slash,
        }
    }
}

/// The views of a sequence of tokens, element by element.
pub open spec fn tokens_view(ts: Seq<Token>) -> Seq<TokenView> {
    ts.map_values(|t: Token| t@)
}

/// `ts` is not empty and its last token is `EOF`.
pub open spec fn ends_in_eof(ts: Seq<TokenView>) -> bool {
    ts.len() >= 1 && ts.last() == TokenView::EOF
}

/// Tokens that carry a name, a number, a text or a truth value.
pub open spec fn carries_data(t: TokenView) -> bool {
    t is Ident || t is Number || t is StrLiteral || t is BoolLiteral
}

impl Token {
    /// Whether this token is `unit`, a token that carries no data.
    pub fn is_same(&self, unit: &Token) -> (r: bool)
        requires
            !carries_data(unit@),
        ensures
            r == (self@ == unit@),
    {
        match unit {
            Token::Fn => matches!(self, Token::Fn),
            Token::Print => matches!(self, Token::Print),
            Token::LParen => matches!(self, Token::LParen),
            Token::RParen => matches!(self, Token::RParen),
            Token::LBrace => matches!(self, Token::LBrace),
            Token::RBrace => matches!(self, Token::RBrace),
            Token::LBracket => matches!(self, Token::LBracket),
            Token::RBracket => matches!(self, Token::RBracket),
            Token::Comma => matches!(self, Token::Comma),
            Token::Dot => matches!(self, Token::Dot),
            Token::EOF => matches!(self, Token::EOF),
            Token::Gt => matches!(self, Token::Gt),
            Token::Ge => matches!(self, Token::Ge),
            Token::Eq => matches!(self, Token::Eq),
            Token::EqEq => matches!(self, Token::EqEq),
            Token::Ne => matches!(self, Token::Ne),
            Token::NeEq => matches!(self, Token::NeEq),
            Token::Lt => matches!(self, Token::Lt),
            Token::Le => matches!(self, Token::Le),
            Token::Plus => matches!(self, Token::Plus),
            Token::Minus => matches!(self, Token::Minus),
            Token::Star => matches!(self, Token::Star),
            Token::Slash => matches!(self, Token::Slash),
            _ => false,
        }
    }

    /// Whether this token equals `other`, data included.
    pub fn same_as(&self, other: &Token) -> (r: bool)
        ensures
            r == (self@ == other@),
    {
        match (self, other) {
            (Token::Ident(a), Token::Ident(b)) => *a == *b,
            (Token::StrLiteral(a), Token::StrLiteral(b)) => *a == *b,
            (Token::Number(a), Token::Number(b)) => *a == *b,
            (Token::BoolLiteral(a), Token::BoolLiteral(b)) => *a == *b,
            _ => {
                if matches!(other, Token::Ident(_))
                    || matches!(other, Token::StrLiteral(_))
                    || matches!(other, Token::Number(_))
                    || matches!(other, Token::BoolLiteral(_)) {
                    false
                } else {
                    self.is_same(other)
                }
            },
        }
    }

    /// A copy of this token.
    pub fn duplicate(&self) -> (r: Token)
        ensures
            r@ == self@,
    {
        match self {
            Token::Ident(s) => Token::Ident(s.clone()),
            Token::Number(n) => Token::Number(*n),
            Token::StrLiteral(s) => Token::StrLiteral(s.clone()),
            Token::BoolLiteral(b) => Token::BoolLiteral(*b),
            Token::Fn => Token::Fn,
            Token::Print => Token::Print,
            Token::LParen => Token::LParen,
            Token::RParen => Token::RParen,
            Token::LBrace => Token::LBrace,
            Token::RBrace => Token::RBrace,
            Token::LBracket => Token::LBracket,
            Token::RBracket => Token::RBracket,
            Token::Comma => Token::Comma,
            Token::Dot => Token::Dot,
            Token::EOF => Token::EOF,
            Token::Gt => Token::Gt,
            Token::Ge => Token::Ge,
            Token::Eq => Token::Eq,
            Token::EqEq => Token::EqEq,
            Token::Ne => Token::Ne,
            Token::NeEq => Token::NeEq,
            Token::Lt => Token::Lt,
            Token::Le => Token::Le,
            Token::Plus => Token::Plus,
            Token::Minus => Token::Minus,
            Token::Star => Token::Star,
            Token::Slash => Token::Slash,
        }
    }
}

} // verus!
