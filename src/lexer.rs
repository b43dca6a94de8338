use vstd::prelude::*;
use vstd::std_specs::iter::IteratorSpec;

use crate::error::{CompileError, LexError};
use crate::token::{tokens_view, Token, TokenView};

verus! {

broadcast use vstd::std_specs::vec::group_vec_axioms, vstd::seq::group_seq_axioms;

/// The characters with the Unicode `White_Space` property.
pub open spec fn white_space(c: char) -> bool {
    ('\u{9}' <= c <= '\u{d}') || c == ' ' || c == '\u{85}' || c == '\u{a0}' || c == '\u{1680}'
        || ('\u{2000}' <= c <= '\u{200a}') || c == '\u{2028}' || c == '\u{2029}' || c
        == '\u{202f}' || c == '\u{205f}' || c == '\u{3000}'
}

fn is_whitespace(c: char) -> (r: bool)
    ensures
        r == white_space(c),
{
    ('\u{9}' <= c && c <= '\u{d}') || c == ' ' || c == '\u{85}' || c == '\u{a0}' || c == '\u{1680}'
        || ('\u{2000}' <= c && c <= '\u{200a}') || c == '\u{2028}' || c == '\u{2029}' || c
        == '\u{202f}' || c == '\u{205f}' || c == '\u{3000}'
}

/// Relies on `String::push`: appends one character at the end.
#[verifier::external_body]
fn push_char(s: &mut String, c: char)
    ensures
        final(s)@ == old(s)@.push(c),
{
    s.push(c)
}

pub open spec fn is_digit(c: char) -> bool {
    '0' <= c <= '9'
}

pub open spec fn is_letter(c: char) -> bool {
    ('a' <= c <= 'z') || ('A' <= c <= 'Z')
}

pub open spec fn ident_start(c: char) -> bool {
    is_letter(c) || c == '_'
}

pub open spec fn ident_continue(c: char) -> bool {
    is_letter(c) || is_digit(c) || c == '_'
}

/// The classes of characters that a run of one lexical unit is made of.
#[derive(Clone, Copy, PartialEq, Eq, Structural)]
pub enum CharClass {
    Digit,
    IdentPart,
    NotQuote,
}

pub open spec fn in_class(cls: CharClass, c: char) -> bool {
    match cls {
        CharClass::Digit => is_digit(c),
        CharClass::IdentPart => ident_continue(c),
        CharClass::NotQuote => c != '"',
    }
}

/// The first index at or after `k` whose character is not in `cls`, or the
/// length of `s` when there is none.
pub open spec fn run_end(s: Seq<char>, k: int, cls: CharClass) -> int
    decreases s.len() - k,
{
    if k < 0 || k >= s.len() {
        s.len() as int
    } else if in_class(cls, s[k]) {
        run_end(s, k + 1, cls)
    } else {
        k
    }
}

pub proof fn lemma_run_end_bounds(s: Seq<char>, k: int, cls: CharClass)
    requires
        0 <= k <= s.len(),
    ensures
        k <= run_end(s, k, cls) <= s.len(),
        forall|m: int| k <= m < run_end(s, k, cls) ==> in_class(cls, #[trigger] s[m]),
        run_end(s, k, cls) < s.len() ==> !in_class(cls, s[run_end(s, k, cls)]),
    decreases s.len() - k,
{
    if k < s.len() && in_class(cls, s[k]) {
        lemma_run_end_bounds(s, k + 1, cls);
    }
}

/// The numeric value of a sequence of decimal digits.
pub open spec fn digits_value(d: Seq<char>) -> int
    decreases d.len(),
{
    if d.len() == 0 {
        0
    } else {
        digits_value(d.drop_last()) * 10 + (d.last() as int - '0' as int)
    }
}

/// The token of a single-character unit that needs no lookahead.
pub open spec fn single_token(c: char) -> Option<TokenView> {
    if c == '(' {
        Some(TokenView::LParen)
    } else if c == ')' {
        Some(TokenView::RParen)
    } else if c == '{' {
        Some(TokenView::LBrace)
    } else if c == '}' {
        Some(TokenView::RBrace)
    } else if c == '[' {
        Some(TokenView::LBracket)
    } else if c == ']' {
        Some(TokenView::RBracket)
    } else if c == ',' {
        Some(TokenView::Comma)
    } else if c == '.' {
        Some(TokenView::Dot)
    } else if c == '+' {
        Some(TokenView::Plus)
    } else if c == '-' {
        Some(TokenView::Minus)
    } else if c == '*' {
        Some(TokenView::Star)
    } else if c == '/' {
        Some(TokenView::Slash)
    } else {
        None
    }
}

/// For an operator character that may pair with a following `=`: the token
/// of the pair, and the token of the character alone (`None` for `!`).
pub open spec fn paired_token(c: char) -> Option<(TokenView, Option<TokenView>)> {
    if c == '=' {
        Some((TokenView::EqEq, Some(TokenView::Eq)))
    } else if c == '!' {
        Some((TokenView::Ne, None))
    } else if c == '<' {
        Some((TokenView::Le, Some(TokenView::Lt)))
    } else if c == '>' {
        Some((TokenView::Ge, Some(TokenView::Gt)))
    } else {
        None
    }
}

/// The token of a scanned word: a keyword, a boolean literal or an identifier.
pub open spec fn word_token(w: Seq<char>) -> TokenView {
    if w == seq!['f', 'n'] {
        TokenView::Fn
    } else if w == seq!['p', 'r', 'i', 'n', 't'] {
        TokenView::Print
    } else if w == seq!['t', 'r', 'u', 'e'] {
        TokenView::BoolLiteral(true)
    } else if w == seq!['f', 'a', 'l', 's', 'e'] {
        TokenView::BoolLiteral(false)
    } else {
        TokenView::Ident(w)
    }
}

/// Puts `pre` in front of a successful result; an error stays as it is.
pub open spec fn prefixed(
    pre: Seq<TokenView>,
    r: Result<Seq<TokenView>, LexError>,
) -> Result<Seq<TokenView>, LexError> {
    match r {
        Ok(ts) => Ok(pre + ts),
        Err(e) => Err(e),
    }
}

/// The tokens of `s` from position `i` on, ending with one `EOF`, or the
/// first lexical error there.
pub open spec fn lex_from(s: Seq<char>, i: int) -> Result<Seq<TokenView>, LexError>
    decreases s.len() - i,
    via lex_from_decreases
{
    if i < 0 || i >= s.len() {
        Ok(seq![TokenView::EOF])
    } else {
        let c = s[i];
        if single_token(c) is Some {
            prefixed(seq![single_token(c)->0], lex_from(s, i + 1))
        } else if c == '"' {
            let j = run_end(s, i + 1, CharClass::NotQuote);
            if j >= s.len() {
                Err(LexError::UnterminatedString { pos: i as usize })
            } else {
                prefixed(seq![TokenView::StrLiteral(s.subrange(i + 1, j))], lex_from(s, j + 1))
            }
        } else if is_digit(c) {
            let j = run_end(s, i, CharClass::Digit);
            let v = digits_value(s.subrange(i, j));
            if v > i64::MAX {
                Err(LexError::NumberTooLarge { pos: i as usize })
            } else {
                prefixed(seq![TokenView::Number(v as i64)], lex_from(s, j))
            }
        } else if ident_start(c) {
            let j = run_end(s, i, CharClass::IdentPart);
            prefixed(seq![word_token(s.subrange(i, j))], lex_from(s, j))
        } else if paired_token(c) is Some {
            let (pair, alone) = paired_token(c)->0;
            if i + 1 < s.len() && s[i + 1] == '=' {
                prefixed(seq![pair], lex_from(s, i + 2))
            } else if alone is Some {
                prefixed(seq![alone->0], lex_from(s, i + 1))
            } else {
                Err(LexError::UnexpectedChar { ch: c, pos: i as usize })
            }
        } else if white_space(c) {
            lex_from(s, i + 1)
        } else {
            Err(LexError::UnexpectedChar { ch: c, pos: i as usize })
        }
    }
}

#[via_fn]
proof fn lex_from_decreases(s: Seq<char>, i: int) {
    if 0 <= i < s.len() {
        lemma_run_end_bounds(s, i + 1, CharClass::NotQuote);
        lemma_run_end_bounds(s, i, CharClass::Digit);
        lemma_run_end_bounds(s, i, CharClass::IdentPart);
    }
}

/// `ts` ends with an `EOF`, and holds no other.
pub open spec fn ends_with_single_eof(ts: Seq<TokenView>) -> bool {
    &&& ts.len() >= 1
    &&& ts.last() == TokenView::EOF
    &&& forall|k: int| 0 <= k < ts.len() - 1 ==> #[trigger] ts[k] != TokenView::EOF
}

proof fn lemma_prefixed_keeps_single_eof(t: TokenView, r: Result<Seq<TokenView>, LexError>)
    requires
        t != TokenView::EOF,
        r is Ok ==> ends_with_single_eof(r->Ok_0),
    ensures
        prefixed(seq![t], r) is Ok ==> ends_with_single_eof(prefixed(seq![t], r)->Ok_0),
{
    if r is Ok {
        let ts = seq![t] + r->Ok_0;
        assert forall|k: int| 0 <= k < ts.len() - 1 implies #[trigger] ts[k] != TokenView::EOF by {
            if k > 0 {
                assert(ts[k] == r->Ok_0[k - 1]);
            }
        }
    }
}

/// Whatever the text, a successful tokenization ends with exactly one `EOF`.
pub proof fn lemma_lex_single_eof(s: Seq<char>, i: int)
    ensures
        lex_from(s, i) is Ok ==> ends_with_single_eof(lex_from(s, i)->Ok_0),
    decreases s.len() - i,
{
    if 0 <= i < s.len() {
        let c = s[i];
        lemma_run_end_bounds(s, i + 1, CharClass::NotQuote);
        lemma_run_end_bounds(s, i, CharClass::Digit);
        lemma_run_end_bounds(s, i, CharClass::IdentPart);
        lemma_lex_single_eof(s, i + 1);
        if i + 2 <= s.len() {
            lemma_lex_single_eof(s, i + 2);
        }
        if single_token(c) is Some {
            lemma_prefixed_keeps_single_eof(single_token(c)->0, lex_from(s, i + 1));
        } else if c == '"' {
            let j = run_end(s, i + 1, CharClass::NotQuote);
            if j < s.len() {
                lemma_lex_single_eof(s, j + 1);
                lemma_prefixed_keeps_single_eof(
                    TokenView::StrLiteral(s.subrange(i + 1, j)),
                    lex_from(s, j + 1),
                );
            }
        } else if is_digit(c) {
            let j = run_end(s, i, CharClass::Digit);
            lemma_run_end_bounds(s, i + 1, CharClass::Digit);
            lemma_lex_single_eof(s, j);
            let v = digits_value(s.subrange(i, j));
            lemma_prefixed_keeps_single_eof(TokenView::Number(v as i64), lex_from(s, j));
        } else if ident_start(c) {
            let j = run_end(s, i, CharClass::IdentPart);
            lemma_run_end_bounds(s, i + 1, CharClass::IdentPart);
            lemma_lex_single_eof(s, j);
            lemma_prefixed_keeps_single_eof(word_token(s.subrange(i, j)), lex_from(s, j));
        } else if paired_token(c) is Some {
            let (pair, alone) = paired_token(c)->0;
            if i + 1 < s.len() && s[i + 1] == '=' {
                lemma_prefixed_keeps_single_eof(pair, lex_from(s, i + 2));
            } else if alone is Some {
                lemma_prefixed_keeps_single_eof(alone->0, lex_from(s, i + 1));
            }
        }
    } else {
        assert(seq![TokenView::EOF].last() == TokenView::EOF);
    }
}

/// The result of tokenizing the whole text `s`.
pub open spec fn lexed(s: Seq<char>) -> Result<Seq<TokenView>, LexError> {
    lex_from(s, 0)
}

fn is_ident_start(c: char) -> (r: bool)
    ensures
        r == ident_start(c),
{
    ('a' <= c && c <= 'z') || ('A' <= c && c <= 'Z') || c == '_'
}

fn is_ident_continue(c: char) -> (r: bool)
    ensures
        r == ident_continue(c),
{
    is_ident_start(c) || ('0' <= c && c <= '9')
}

fn class_has(cls: CharClass, c: char) -> (r: bool)
    ensures
        r == in_class(cls, c),
{
    match cls {
        CharClass::Digit => '0' <= c && c <= '9',
        CharClass::IdentPart => is_ident_continue(c),
        CharClass::NotQuote => c != '"',
    }
}

/// The characters of `s`, in order.
fn chars_of(s: &str) -> (r: Vec<char>)
    ensures
        r@ == s@,
{
    broadcast use vstd::string::axiom_spec_iter, vstd::string::next_postcondition;

    let mut it = s.chars();
    let mut v: Vec<char> = Vec::new();
    loop
        invariant
            v@ + it.remaining() == s@,
        ensures
            v@ == s@,
        decreases s@.len() - v@.len(),
    {
        match it.next() {
            Some(c) => {
                v.push(c);
            },
            None => {
                assert(v@ + it.remaining() =~= v@);
                break ;
            },
        }
    }
    v
}

/// The end of the run of `cls` characters that starts at `k`.
fn scan_run(cs: &Vec<char>, k: usize, cls: CharClass) -> (r: usize)
    requires
        k <= cs@.len(),
    ensures
        r == run_end(cs@, k as int, cls),
{
    let mut j: usize = k;
    while j < cs.len() && class_has(cls, cs[j])
        invariant
            k <= j <= cs@.len(),
            run_end(cs@, k as int, cls) == run_end(cs@, j as int, cls),
        decreases cs@.len() - j,
    {
        j = j + 1;
    }
    j
}

/// A string holding the characters of `cs` from `k` up to `j`.
fn text_of(cs: &Vec<char>, k: usize, j: usize) -> (r: String)
    requires
        k <= j <= cs@.len(),
    ensures
        r@ == cs@.subrange(k as int, j as int),
{
    let mut out = String::new();
    let mut m: usize = k;
    while m < j
        invariant
            k <= m <= j <= cs@.len(),
            out@ == cs@.subrange(k as int, m as int),
        decreases j - m,
    {
        push_char(&mut out, cs[m]);
        assert(out@ =~= cs@.subrange(k as int, m + 1));
        m = m + 1;
    }
    out
}

proof fn lemma_digits_prefix_le(s: Seq<char>, k: int, a: int, b: int)
    requires
        0 <= k <= a <= b <= s.len(),
        forall|m: int| k <= m < b ==> is_digit(#[trigger] s[m]),
    ensures
        digits_value(s.subrange(k, a)) <= digits_value(s.subrange(k, b)),
    decreases b - a,
{
    if a < b {
        lemma_digits_prefix_le(s, k, a, b - 1);
        assert(s.subrange(k, b).drop_last() =~= s.subrange(k, b - 1));
        lemma_digits_value_grows(s.subrange(k, b - 1));
    }
}

pub proof fn lemma_digits_value_grows(d: Seq<char>)
    requires
        forall|m: int| 0 <= m < d.len() ==> is_digit(#[trigger] d[m]),
    ensures
        digits_value(d) >= 0,
    decreases d.len(),
{
    if d.len() > 0 {
        assert(is_digit(d[d.len() - 1]));
        lemma_digits_value_grows(d.drop_last());
    }
}

/// The value of the digits of `cs` from `k` up to `j`, when it fits in an `i64`.
fn number_value(cs: &Vec<char>, k: usize, j: usize) -> (r: Option<i64>)
    requires
        k <= j <= cs@.len(),
        forall|m: int| k <= m < j ==> is_digit(#[trigger] cs@[m]),
    ensures
        digits_value(cs@.subrange(k as int, j as int)) <= i64::MAX <==> r is Some,
        r is Some ==> r->0 == digits_value(cs@.subrange(k as int, j as int)),
{
    let mut v: i64 = 0;
    let mut m: usize = k;
    while m < j
        invariant
            k <= m <= j <= cs@.len(),
            forall|x: int| k <= x < j ==> is_digit(#[trigger] cs@[x]),
            v == digits_value(cs@.subrange(k as int, m as int)),
            v >= 0,
        decreases j - m,
    {
        let d = cs[m];
        let dv: i64 = (d as u32 - '0' as u32) as i64;
        assert(cs@.subrange(k as int, m + 1).drop_last() =~= cs@.subrange(k as int, m as int));
        assert(0 <= dv <= 9);
        assert(digits_value(cs@.subrange(k as int, m + 1)) == v * 10 + dv);
        if v > (i64::MAX - dv) / 10 {
            proof {
                assert(v * 10 + dv > i64::MAX) by (nonlinear_arith)
                    requires
                        v > (i64::MAX - dv) / 10,
                        0 <= dv <= 9,
                ;
                assert(digits_value(cs@.subrange(k as int, m + 1)) > i64::MAX);
                lemma_digits_prefix_le(cs@, k as int, m + 1, j as int);
            }
            return None;
        }
        assert(v * 10 + dv <= i64::MAX) by (nonlinear_arith)
            requires
                v <= (i64::MAX - dv) / 10,
                0 <= dv <= 9,
                v >= 0,
        ;
        v = v * 10 + dv;
        m = m + 1;
    }
    Some(v)
}

/// The token of the word of `cs` from `k` up to `j`.
fn word_of(cs: &Vec<char>, k: usize, j: usize) -> (r: Token)
    requires
        k <= j <= cs@.len(),
    ensures
        r@ == word_token(cs@.subrange(k as int, j as int)),
{
    let w = Ghost(cs@.subrange(k as int, j as int));
    let n = j - k;
    if n == 2 && cs[k] == 'f' && cs[k + 1] == 'n' {
        assert(w@ =~= seq!['f', 'n']);
        Token::Fn
    } else if n == 5 && cs[k] == 'p' && cs[k + 1] == 'r' && cs[k + 2] == 'i' && cs[k + 3] == 'n'
        && cs[k + 4] == 't' {
        assert(w@ =~= seq!['p', 'r', 'i', 'n', 't']);
        Token::Print
    } else if n == 4 && cs[k] == 't' && cs[k + 1] == 'r' && cs[k + 2] == 'u' && cs[k + 3] == 'e' {
        assert(w@ =~= seq!['t', 'r', 'u', 'e']);
        Token::BoolLiteral(true)
    } else if n == 5 && cs[k] == 'f' && cs[k + 1] == 'a' && cs[k + 2] == 'l' && cs[k + 3] == 's'
        && cs[k + 4] == 'e' {
        assert(w@ =~= seq!['f', 'a', 'l', 's', 'e']);
        Token::BoolLiteral(false)
    } else {
        assert(w@ != seq!['f', 'n'] && w@ != seq!['p', 'r', 'i', 'n', 't'] && w@ != seq![
            't',
            'r',
            'u',
            'e',
        ] && w@ != seq!['f', 'a', 'l', 's', 'e']) by {
            assert(w@.len() == n);
            assert(forall|x: int| 0 <= x < n ==> w@[x] == cs@[k + x]);
            if w@ == seq!['f', 'n'] {
                assert(w@[0] == 'f' && w@[1] == 'n');
            }
            if w@ == seq!['p', 'r', 'i', 'n', 't'] {
                assert(w@[0] == 'p' && w@[1] == 'r' && w@[2] == 'i' && w@[3] == 'n' && w@[4] == 't');
            }
            if w@ == seq!['t', 'r', 'u', 'e'] {
                assert(w@[0] == 't' && w@[1] == 'r' && w@[2] == 'u' && w@[3] == 'e');
            }
            if w@ == seq!['f', 'a', 'l', 's', 'e'] {
                assert(w@[0] == 'f' && w@[1] == 'a' && w@[2] == 'l' && w@[3] == 's' && w@[4] == 'e');
            }
        }
        Token::Ident(text_of(cs, k, j))
    }
}

fn single_of(c: char) -> (r: Option<Token>)
    ensures
        match single_token(c) {
            Some(t) => r is Some && r->0@ == t,
            None => r is None,
        },
{
    match c {
        '(' => Some(Token::LParen),
        ')' => Some(Token::RParen),
        '{' => Some(Token::LBrace),
        '}' => Some(Token::RBrace),
        '[' => Some(Token::LBracket),
        ']' => Some(Token::RBracket),
        ',' => Some(Token::Comma),
        '.' => Some(Token::Dot),
        '+' => Some(Token::Plus),
        '-' => Some(Token::Minus),
        '*' => Some(Token::Star),
        '/' => Some(Token::Slash),
        _ => None,
    }
}

proof fn lemma_prefixed_push(pre: Seq<TokenView>, t: TokenView, r: Result<Seq<TokenView>, LexError>)
    ensures
        prefixed(pre, prefixed(seq![t], r)) == prefixed(pre.push(t), r),
{
    if r is Ok {
        assert(pre + (seq![t] + r->Ok_0) =~= pre.push(t) + r->Ok_0);
    }
}

/// Splits `input` into tokens, ending with one `EOF`; fails on the first
/// character that starts no token, on an unterminated string and on a
/// number too large for an `i64`.
pub fn lex(input: &str) -> (r: Result<Vec<Token>, CompileError>)
    ensures
        match lexed(input@) {
            Ok(ts) => r is Ok && tokens_view(r->Ok_0@) == ts,
            Err(e) => r matches Err(CompileError::Lex(e2)) && e2 == e,
        },
{
    let cs = chars_of(input);
    let n = cs.len();
    let mut toks: Vec<Token> = Vec::new();
    let mut i: usize = 0;
    while i < n
        invariant
            i <= n == cs@.len(),
            cs@ == input@,
            lexed(input@) == prefixed(tokens_view(toks@), lex_from(cs@, i as int)),
        decreases n - i,
    {
        let c = cs[i];
        let ghost s = cs@;
        let ghost pre = tokens_view(toks@);
        let tok: Token;
        let next: usize;
        let single = single_of(c);
        if let Some(t) = single {
            tok = t;
            next = i + 1;
        } else if c == '"' {
            let j = scan_run(&cs, i + 1, CharClass::NotQuote);
            proof {
                lemma_run_end_bounds(s, i + 1, CharClass::NotQuote);
            }
            if j >= n {
                return Err(CompileError::Lex(LexError::UnterminatedString { pos: i }));
            }
            tok = Token::StrLiteral(text_of(&cs, i + 1, j));
            next = j + 1;
        } else if '0' <= c && c <= '9' {
            let j = scan_run(&cs, i, CharClass::Digit);
            proof {
                lemma_run_end_bounds(s, i as int, CharClass::Digit);
                lemma_run_end_bounds(s, i + 1, CharClass::Digit);
            }
            match number_value(&cs, i, j) {
                Some(v) => {
                    tok = Token::Number(v);
                },
                None => {
                    return Err(CompileError::Lex(LexError::NumberTooLarge { pos: i }));
                },
            }
            next = j;
        } else if is_ident_start(c) {
            let j = scan_run(&cs, i, CharClass::IdentPart);
            proof {
                lemma_run_end_bounds(s, i as int, CharClass::IdentPart);
                lemma_run_end_bounds(s, i + 1, CharClass::IdentPart);
            }
            tok = word_of(&cs, i, j);
            next = j;
        } else if c == '=' || c == '!' || c == '<' || c == '>' {
            if i + 1 < n && cs[i + 1] == '=' {
                tok = if c == '=' {
                    Token::EqEq
                } else if c == '!' {
                    Token::Ne
                } else if c == '<' {
                    Token::Le
                } else {
                    Token::Ge
                };
                next = i + 2;
            } else if c == '!' {
                return Err(CompileError::Lex(LexError::UnexpectedChar { ch: c, pos: i }));
            } else {
                tok = if c == '=' {
                    Token::Eq
                } else if c == '<' {
                    Token::Lt
                } else {
                    Token::Gt
                };
                next = i + 1;
            }
        } else if is_whitespace(c) {
            i = i + 1;
            continue;
        } else {
            return Err(CompileError::Lex(LexError::UnexpectedChar { ch: c, pos: i }));
        }
        proof {
            assert(lex_from(s, i as int) == prefixed(seq![tok@], lex_from(s, next as int)));
            lemma_prefixed_push(pre, tok@, lex_from(s, next as int));
        }
        toks.push(tok);
        assert(tokens_view(toks@) =~= pre.push(tok@));
        i = next;
    }
    toks.push(Token::EOF);
    assert(tokens_view(toks@) =~= tokens_view(toks@).drop_last() + seq![TokenView::EOF]);
    assert(tokens_view(toks@).drop_last() =~= tokens_view(toks@.drop_last()));
    Ok(toks)
}

} // verus!
