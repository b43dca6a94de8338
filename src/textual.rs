use vstd::prelude::*;

use crate::lexer::{
    digits_value, ident_continue, ident_start, is_digit, lemma_digits_value_grows,
    lemma_lex_single_eof, lemma_run_end_bounds, lex_from, lexed, paired_token, prefixed, run_end,
    single_token, word_token, CharClass, in_class,
};
use crate::token::TokenView;

verus! {

broadcast use vstd::seq::group_seq_axioms;

/// The decimal digits of `n`, most significant first, with no leading zero.
pub open spec fn decimal(n: nat) -> Seq<char>
    decreases n,
{
    if n < 10 {
        seq![digit_char(n)]
    } else {
        decimal(n / 10).push(digit_char(n % 10))
    }
}

pub open spec fn digit_char(d: nat) -> char {
    if d == 0 {
        '0'
    } else if d == 1 {
        '1'
    } else if d == 2 {
        '2'
    } else if d == 3 {
        '3'
    } else if d == 4 {
        '4'
    } else if d == 5 {
        '5'
    } else if d == 6 {
        '6'
    } else if d == 7 {
        '7'
    } else if d == 8 {
        '8'
    } else {
        '9'
    }
}

/// The source text of one token.
pub open spec fn token_text(t: TokenView) -> Seq<char> {
    match t {
        TokenView::Ident(w) => w,
        TokenView::Number(n) => decimal(n as nat),
        TokenView::StrLiteral(s) => seq!['"'] + s + seq!['"'],
        TokenView::BoolLiteral(b) => if b {
            seq!['t', 'r', 'u', 'e']
        } else {
            seq!['f', 'a', 'l', 's', 'e']
        },
        TokenView::Fn => seq!['f', 'n'],
        TokenView::Print => seq!['p', 'r', 'i', 'n', 't'],
        TokenView::LParen => seq!['('],
        TokenView::RParen => seq![')'],
        TokenView::LBrace => seq!['{'],
        TokenView::RBrace => seq!['}'],
        TokenView::LBracket => seq!['['],
        TokenView::RBracket => seq![']'],
        TokenView::Comma => seq![','],
        TokenView::Dot => seq!['.'],
        TokenView::EOF => Seq::empty(),
        TokenView::Gt => seq!['>'],
        TokenView::Ge => seq!['>', '='],
        TokenView::Eq => seq!['='],
        TokenView::EqEq => seq!['=', '='],
        TokenView::Ne => seq!['!', '='],
        TokenView::NeEq => seq!['!', '='],
        TokenView::Lt => seq!['<'],
        TokenView::Le => seq!['<', '='],
        TokenView::Plus => seq!['+'],
        TokenView::Minus => seq!['-'],
        TokenView::Star => seq!['*'],
        TokenView::Slash => seq!['/'],
    }
}

/// The tokens whose text reads back as the same token: an identifier that is
/// a well-formed name and no keyword, a non-negative number, a string without
/// a `"`, and every symbol but `EOF` and the spare `NeEq`.
pub open spec fn faithful(t: TokenView) -> bool {
    match t {
        TokenView::Ident(w) => w.len() >= 1 && ident_start(w[0]) && (forall|k: int|
            0 <= k < w.len() ==> ident_continue(#[trigger] w[k])) && word_token(w)
            == TokenView::Ident(w),
        TokenView::Number(n) => n >= 0,
        TokenView::StrLiteral(s) => forall|k: int| 0 <= k < s.len() ==> #[trigger] s[k] != '"',
        TokenView::EOF => false,
        TokenView::NeEq => false,
        _ => true,
    }
}

/// The text of a token sequence: each token followed by one space.
pub open spec fn render(ts: Seq<TokenView>) -> Seq<char>
    decreases ts.len(),
{
    if ts.len() == 0 {
        Seq::empty()
    } else {
        token_text(ts[0]) + seq![' '] + render(ts.drop_first())
    }
}

proof fn lemma_run_end_at(s: Seq<char>, k: int, e: int, cls: CharClass)
    requires
        0 <= k <= e <= s.len(),
        forall|m: int| k <= m < e ==> in_class(cls, #[trigger] s[m]),
        e < s.len() ==> !in_class(cls, s[e]),
    ensures
        run_end(s, k, cls) == e,
    decreases e - k,
{
    if k < e {
        lemma_run_end_at(s, k + 1, e, cls);
    }
}

proof fn lemma_digit_char(d: nat)
    requires
        d < 10,
    ensures
        is_digit(digit_char(d)),
        digit_char(d) as int - '0' as int == d,
{
}

proof fn lemma_decimal(n: nat)
    ensures
        decimal(n).len() >= 1,
        forall|k: int| 0 <= k < decimal(n).len() ==> is_digit(#[trigger] decimal(n)[k]),
        digits_value(decimal(n)) == n,
    decreases n,
{
    if n < 10 {
        lemma_digit_char(n);
        assert(seq![digit_char(n)].drop_last() =~= Seq::<char>::empty());
        assert(digits_value(seq![digit_char(n)]) == digits_value(Seq::<char>::empty()) * 10 + (
        digit_char(n) as int - '0' as int));
    } else {
        lemma_digit_char(n % 10);
        lemma_decimal(n / 10);
        let d = decimal(n / 10);
        assert(d.push(digit_char(n % 10)).drop_last() =~= d);
        assert(n == (n / 10) * 10 + n % 10);
    }
}

/// Lexing at the start of a token's text, followed by a space, gives that
/// token and goes on right after the text.
proof fn lemma_lex_token(s: Seq<char>, i: int, t: TokenView)
    requires
        faithful(t),
        0 <= i,
        i + token_text(t).len() < s.len(),
        s.subrange(i, i + token_text(t).len()) == token_text(t),
        s[i + token_text(t).len()] == ' ',
    ensures
        lex_from(s, i) == prefixed(seq![t], lex_from(s, i + token_text(t).len())),
{
    let text = token_text(t);
    let m = text.len() as int;
    assert forall|k: int| 0 <= k < m implies s[i + k] == #[trigger] text[k] by {
        assert(s.subrange(i, i + m)[k] == s[i + k]);
    }
    if t is Number {
        lemma_decimal(t->Number_0 as nat);
    }
    if t is Ident || t is Number || t is BoolLiteral || t is Fn || t is Print {
        let cls = if t is Number {
            CharClass::Digit
        } else {
            CharClass::IdentPart
        };
        assert forall|k: int| i <= k < i + m implies in_class(cls, #[trigger] s[k]) by {
            assert(s[k] == text[k - i]);
        }
    }
    match t {
        TokenView::Ident(w) => {
            lemma_run_end_at(s, i, i + m, CharClass::IdentPart);
            assert(s.subrange(i, i + m) =~= w);
        },
        TokenView::Number(n) => {
            lemma_decimal(n as nat);
            lemma_run_end_at(s, i, i + m, CharClass::Digit);
            assert(s.subrange(i, i + m) =~= decimal(n as nat));
        },
        TokenView::StrLiteral(c) => {
            assert(text[0] == '"');
            assert(s[i] == '"');
            assert forall|k: int| i + 1 <= k < i + 1 + c.len() implies in_class(
                CharClass::NotQuote,
                #[trigger] s[k],
            ) by {
                assert(s[k] == text[k - i]);
                assert(text[k - i] == c[k - i - 1]);
            }
            assert(s[i + 1 + c.len()] == text[c.len() + 1int]);
            lemma_run_end_at(s, i + 1, i + 1 + c.len(), CharClass::NotQuote);
            assert forall|k: int| 0 <= k < c.len() implies s.subrange(i + 1, i + 1 + c.len())[k]
                == c[k] by {
                assert(s[i + 1 + k] == text[k + 1]);
            }
            assert(s.subrange(i + 1, i + 1 + c.len()) =~= c);
        },
        TokenView::BoolLiteral(b) => {
            lemma_run_end_at(s, i, i + m, CharClass::IdentPart);
            assert(s.subrange(i, i + m) =~= text);
        },
        TokenView::Fn => {
            lemma_run_end_at(s, i, i + m, CharClass::IdentPart);
            assert(s.subrange(i, i + m) =~= text);
        },
        TokenView::Print => {
            lemma_run_end_at(s, i, i + m, CharClass::IdentPart);
            assert(s.subrange(i, i + m) =~= text);
        },
        _ => {
            assert(s[i] == text[0]);
            if m == 2 {
                assert(s[i + 1] == text[1]);
            }
        },
    }
}

proof fn lemma_lex_rendered(s: Seq<char>, i: int, ts: Seq<TokenView>)
    requires
        0 <= i <= s.len(),
        s.subrange(i, s.len() as int) == render(ts),
        forall|k: int| 0 <= k < ts.len() ==> faithful(#[trigger] ts[k]),
    ensures
        lex_from(s, i) == Ok::<Seq<TokenView>, crate::error::LexError>(ts.push(TokenView::EOF)),
    decreases ts.len(),
{
    if ts.len() == 0 {
        assert(s.subrange(i, s.len() as int).len() == 0);
        assert(seq![TokenView::EOF] =~= ts.push(TokenView::EOF));
    } else {
        let t = ts[0];
        let rest = ts.drop_first();
        let text = token_text(t);
        let m = text.len() as int;
        let tail = s.subrange(i, s.len() as int);
        assert(faithful(ts[0]));
        assert(tail == text + seq![' '] + render(rest));
        assert(s.subrange(i, i + m) =~= text) by {
            assert forall|k: int| 0 <= k < m implies s.subrange(i, i + m)[k] == text[k] by {
                assert(tail[k] == s[i + k]);
            }
        }
        assert(s[i + m] == ' ') by {
            assert(tail[m] == s[i + m]);
        }
        assert(s.subrange(i + m + 1, s.len() as int) =~= render(rest)) by {
            assert forall|k: int| 0 <= k < render(rest).len() implies s.subrange(
                i + m + 1,
                s.len() as int,
            )[k] == render(rest)[k] by {
                assert(tail[m + 1 + k] == s[i + m + 1 + k]);
            }
        }
        assert forall|k: int| 0 <= k < rest.len() implies faithful(#[trigger] rest[k]) by {
            assert(rest[k] == ts[k + 1]);
        }
        lemma_lex_token(s, i, t);
        lemma_lex_rendered(s, i + m + 1, rest);
        assert(lex_from(s, i + m) == lex_from(s, i + m + 1));
        assert(seq![t] + rest.push(TokenView::EOF) =~= ts.push(TokenView::EOF));
    }
}

/// Re-tokenizing the text of a sequence of faithful tokens gives the same
/// tokens back, followed by `EOF`.
pub proof fn lemma_round_trip(ts: Seq<TokenView>)
    requires
        forall|k: int| 0 <= k < ts.len() ==> faithful(#[trigger] ts[k]),
    ensures
        lexed(render(ts)) == Ok::<Seq<TokenView>, crate::error::LexError>(ts.push(TokenView::EOF)),
{
    let s = render(ts);
    assert(s.subrange(0, s.len() as int) =~= s);
    lemma_lex_rendered(s, 0, ts);
}

proof fn lemma_prefixed_keeps_faithful(t: TokenView, r: Result<Seq<TokenView>, crate::error::LexError>)
    requires
        faithful(t),
        r is Ok ==> forall|k: int| 0 <= k < r->Ok_0.len() - 1 ==> faithful(#[trigger] r->Ok_0[k]),
    ensures
        prefixed(seq![t], r) is Ok ==> forall|k: int|
            0 <= k < prefixed(seq![t], r)->Ok_0.len() - 1 ==> faithful(
                #[trigger] prefixed(seq![t], r)->Ok_0[k],
            ),
{
    if r is Ok {
        let ts = seq![t] + r->Ok_0;
        assert forall|k: int| 0 <= k < ts.len() - 1 implies faithful(#[trigger] ts[k]) by {
            if k > 0 {
                assert(ts[k] == r->Ok_0[k - 1]);
            }
        }
    }
}

/// Every token that tokenizing produces before its `EOF` is faithful.
pub proof fn lemma_lex_faithful(s: Seq<char>, i: int)
    ensures
        lex_from(s, i) is Ok ==> forall|k: int|
            0 <= k < lex_from(s, i)->Ok_0.len() - 1 ==> faithful(#[trigger] lex_from(s, i)->Ok_0[k]),
    decreases s.len() - i,
{
    if 0 <= i < s.len() {
        let c = s[i];
        lemma_run_end_bounds(s, i + 1, CharClass::NotQuote);
        lemma_run_end_bounds(s, i, CharClass::Digit);
        lemma_run_end_bounds(s, i, CharClass::IdentPart);
        lemma_lex_faithful(s, i + 1);
        if i + 2 <= s.len() {
            lemma_lex_faithful(s, i + 2);
        }
        if single_token(c) is Some {
            lemma_prefixed_keeps_faithful(single_token(c)->0, lex_from(s, i + 1));
        } else if c == '"' {
            let j = run_end(s, i + 1, CharClass::NotQuote);
            if j < s.len() {
                let w = s.subrange(i + 1, j);
                assert forall|k: int| 0 <= k < w.len() implies #[trigger] w[k] != '"' by {
                    assert(w[k] == s[i + 1 + k]);
                    assert(in_class(CharClass::NotQuote, s[i + 1 + k]));
                }
                lemma_lex_faithful(s, j + 1);
                lemma_prefixed_keeps_faithful(TokenView::StrLiteral(w), lex_from(s, j + 1));
            }
        } else if is_digit(c) {
            let j = run_end(s, i, CharClass::Digit);
            lemma_run_end_bounds(s, i + 1, CharClass::Digit);
            lemma_lex_faithful(s, j);
            let d = s.subrange(i, j);
            assert forall|k: int| 0 <= k < d.len() implies is_digit(#[trigger] d[k]) by {
                assert(d[k] == s[i + k]);
                assert(in_class(CharClass::Digit, s[i + k]));
            }
            lemma_digits_value_grows(d);
            let v = digits_value(d);
            if v <= i64::MAX {
                lemma_prefixed_keeps_faithful(TokenView::Number(v as i64), lex_from(s, j));
            }
        } else if ident_start(c) {
            let j = run_end(s, i, CharClass::IdentPart);
            lemma_run_end_bounds(s, i + 1, CharClass::IdentPart);
            lemma_lex_faithful(s, j);
            let w = s.subrange(i, j);
            assert(w[0] == s[i]);
            assert forall|k: int| 0 <= k < w.len() implies ident_continue(#[trigger] w[k]) by {
                assert(w[k] == s[i + k]);
                assert(in_class(CharClass::IdentPart, s[i + k]));
            }
            lemma_prefixed_keeps_faithful(word_token(w), lex_from(s, j));
        } else if paired_token(c) is Some {
            let (pair, alone) = paired_token(c)->0;
            if i + 1 < s.len() && s[i + 1] == '=' {
                lemma_prefixed_keeps_faithful(pair, lex_from(s, i + 2));
            } else if alone is Some {
                lemma_prefixed_keeps_faithful(alone->0, lex_from(s, i + 1));
            }
        }
    }
}

/// Re-tokenizing the text of what tokenizing produced (its tokens before the
/// final `EOF`) gives the same token sequence again.
pub proof fn lemma_lex_round_trip(s: Seq<char>)
    ensures
        lexed(s) is Ok ==> lexed(render(lexed(s)->Ok_0.drop_last())) == lexed(s),
{
    if lexed(s) is Ok {
        let ts = lexed(s)->Ok_0;
        lemma_lex_single_eof(s, 0);
        lemma_lex_faithful(s, 0);
        let body = ts.drop_last();
        assert forall|k: int| 0 <= k < body.len() implies faithful(#[trigger] body[k]) by {
            assert(body[k] == ts[k]);
        }
        lemma_round_trip(body);
        assert(body.push(TokenView::EOF) =~= ts);
    }
}

} // verus!
