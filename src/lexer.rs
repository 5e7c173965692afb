use vstd::prelude::*;
use crate::diagnostics::{ParseError, UnknownValue};
use crate::parser::{Parser, MAX_TOKENS};
use crate::span::{Span, Spanned};
use crate::text::chars_of;
use crate::token::{Number, Token, MANTISSA_LIMIT, MAX_SCALE};

verus! {

pub open spec fn is_digit(c: char) -> bool {
    '0' <= c && c <= '9'
}

pub open spec fn is_ident_start(c: char) -> bool {
    ('a' <= c && c <= 'z') || ('A' <= c && c <= 'Z') || c == '_' || c as u32 >= 0x80
}

pub open spec fn is_ident_char(c: char) -> bool {
    is_ident_start(c) || is_digit(c) || c == '-'
}

pub open spec fn is_space(c: char) -> bool {
    c == ' ' || c == '\t' || c == '\n' || c == '\r' || c == '\x0C'
}

/// A text that is exactly one identifier.
pub open spec fn is_plain_ident(s: Seq<char>) -> bool {
    &&& s.len() > 0
    &&& is_ident_start(s[0])
    &&& forall|i: int| 0 <= i < s.len() ==> is_ident_char(#[trigger] s[i])
}

fn digit(c: char) -> (r: bool)
    ensures
        r == is_digit(c),
{
    '0' <= c && c <= '9'
}

fn ident_start(c: char) -> (r: bool)
    ensures
        r == is_ident_start(c),
{
    ('a' <= c && c <= 'z') || ('A' <= c && c <= 'Z') || c == '_' || c as u32 >= 0x80
}

fn ident_char(c: char) -> (r: bool)
    ensures
        r == is_ident_char(c),
{
    ident_start(c) || digit(c) || c == '-'
}

fn space(c: char) -> (r: bool)
    ensures
        r == is_space(c),
{
    c == ' ' || c == '\t' || c == '\n' || c == '\r' || c == '\x0C'
}

/// The character at `i`, if there is one.
fn at(s: &Vec<char>, i: usize) -> (r: Option<char>)
    ensures
        r == (if i < s@.len() { Some(s@[i as int]) } else { None::<char> }),
{
    if i < s.len() {
        Some(s[i])
    } else {
        None
    }
}

/// Whether an identifier starts at `i`: a start character, or a hyphen
/// before a start character or a second hyphen.
fn ident_here(s: &Vec<char>, i: usize) -> (r: bool)
    ensures
        r ==> i < s@.len() && is_ident_char(s@[i as int]),
        i < s@.len() && is_ident_start(s@[i as int]) ==> r,
{
    match at(s, i) {
        Some(c) => {
            if ident_start(c) {
                true
            } else if c == '-' && i < usize::MAX {
                match at(s, i + 1) {
                    Some(d) => ident_start(d) || d == '-',
                    None => false,
                }
            } else {
                false
            }
        },
        None => false,
    }
}

/// The end of the run of identifier characters from `i` on.
fn scan_ident(s: &Vec<char>, i: usize) -> (r: usize)
    requires
        i <= s@.len(),
    ensures
        i <= r <= s@.len(),
        forall|k: int| i <= k < r ==> is_ident_char(#[trigger] s@[k]),
        i < s@.len() && is_ident_char(s@[i as int]) ==> r > i,
        r == s@.len() || !is_ident_char(s@[r as int]),
{
    let mut j = i;
    while j < s.len() && ident_char(s[j])
        invariant
            i <= j <= s@.len(),
            forall|k: int| i <= k < j ==> is_ident_char(#[trigger] s@[k]),
        decreases s@.len() - j,
    {
        j = j + 1;
    }
    j
}

/// The characters from `a` up to `b`.
fn slice(s: &Vec<char>, a: usize, b: usize) -> (r: Vec<char>)
    requires
        a <= b <= s@.len(),
    ensures
        r@ == s@.subrange(a as int, b as int),
{
    let mut r: Vec<char> = Vec::new();
    let mut k = a;
    while k < b
        invariant
            a <= k <= b,
            b <= s@.len(),
            r@ =~= s@.subrange(a as int, k as int),
        decreases b - k,
    {
        r.push(s[k]);
        k = k + 1;
    }
    r
}

/// Whether a number starts at `i`.
fn number_here(s: &Vec<char>, i: usize) -> (r: bool)
    ensures
        r ==> i < s@.len(),
        r ==> is_digit(s@[i as int]) || s@[i as int] == '+' || s@[i as int] == '-' || s@[i as int] == '.',
{
    if i >= s.len() || i > usize::MAX - 3 {
        return false;
    }
    let c = s[i];
    let after_sign = if c == '+' || c == '-' { i + 1 } else { i };
    match at(s, after_sign) {
        Some(d) => if digit(d) {
            true
        } else if d == '.' {
            match at(s, after_sign + 1) {
                Some(e) => digit(e),
                None => false,
            }
        } else {
            false
        },
        None => false,
    }
}

/// Reads a number from `i`: sign, digits, and an optional fraction. The
/// digits must fit a number's mantissa, and at most fifteen follow the point.
fn scan_number(s: &Vec<char>, i: usize) -> (r: Option<(Number, usize)>)
    requires
        i < s@.len(),
    ensures
        r matches Some((n, j)) ==> i < j <= s@.len(),
{
    let n = s.len();
    let mut j = i;
    let negative = s[i] == '-';
    if s[i] == '+' || s[i] == '-' {
        j = j + 1;
    }
    let mut m: u32 = 0;
    let mut scale: u32 = 0;
    let mut seen = false;
    while j < n && digit(s[j])
        invariant
            i <= j <= n,
            n == s@.len(),
            m < MANTISSA_LIMIT,
            seen ==> j > i,
        decreases n - j,
    {
        if m >= (MANTISSA_LIMIT - 9) / 10 {
            return None;
        }
        m = m * 10 + (s[j] as u32 - '0' as u32);
        j = j + 1;
        seen = true;
    }
    if j < n - 1 && s[j] == '.' && digit(s[j + 1]) {
        j = j + 1;
        while j < n && digit(s[j])
            invariant
                i < j <= n,
                n == s@.len(),
                m < MANTISSA_LIMIT,
                scale <= MAX_SCALE,
            decreases n - j,
        {
            if m >= (MANTISSA_LIMIT - 9) / 10 || scale >= MAX_SCALE {
                return None;
            }
            m = m * 10 + (s[j] as u32 - '0' as u32);
            scale = scale + 1;
            j = j + 1;
        }
    }
    if j == i {
        return None;
    }
    Some((Number::new(negative && m != 0, m, scale), j))
}

/// The end of a comment that opens at `i`: after its `*/`, or the end of input.
fn scan_comment(s: &Vec<char>, i: usize) -> (r: usize)
    requires
        i + 2 <= s@.len(),
    ensures
        i < r <= s@.len(),
{
    let _n = s.len();
    let mut j = i + 2;
    while j < s.len()
        invariant
            i + 2 <= j <= s@.len(),
        decreases s@.len() - j,
    {
        if s[j] == '*' && j < s.len() - 1 && s[j + 1] == '/' {
            return j + 2;
        }
        j = j + 1;
    }
    j
}

/// Spans that follow each other without gap from position 0 up to `end`,
/// each covering at least one character.
pub open spec fn tiles(toks: Seq<Spanned<Token>>, end: int) -> bool {
    &&& toks.len() == 0 ==> end == 0
    &&& toks.len() > 0 ==> toks[0].span.start == 0 && toks.last().span.end == end
    &&& forall|k: int| 0 <= k < toks.len() ==> (#[trigger] toks[k]).span.start < toks[k].span.end
    &&& forall|k: int| 0 <= k < toks.len() - 1 ==> (#[trigger] toks[k]).span.end == toks[k + 1].span.start
}

fn push_token(toks: &mut Vec<Spanned<Token>>, t: Token, a: usize, b: usize)
    requires
        tiles(old(toks)@, a as int),
        a < b,
    ensures
        tiles(final(toks)@, b as int),
        final(toks)@ == old(toks)@.push(Spanned { node: t, span: Span { start: a, end: b } }),
{
    toks.push(Spanned { node: t, span: Span { start: a, end: b } });
    assert forall|k: int| 0 <= k < toks@.len() - 1 implies (#[trigger] toks@[k]).span.end == toks@[k + 1].span.start by {
        if k < old(toks)@.len() - 1 {
            assert(toks@[k] == old(toks)@[k]);
            assert(toks@[k + 1] == old(toks)@[k + 1]);
        }
    }
}

/// Splits CSS text into tokens. The tokens' ranges tile the text from its
/// start to its end, and a zero-width end-of-input token closes the list.
/// A number with more than nine digits in either part is refused.
pub fn tokenize(s: &Vec<char>) -> (r: Result<Vec<Spanned<Token>>, ParseError>)
    ensures
        r matches Ok(toks) ==> {
            &&& toks@.len() > 0
            &&& toks@.last().node is Eof
            &&& toks@.last().span == (Span { start: s@.len() as usize, end: s@.len() as usize })
            &&& tiles(toks@.drop_last(), s@.len() as int)
        },
        is_plain_ident(s@) ==> (r matches Ok(toks) && toks@.len() == 2 && (toks@[0].node matches Token::Ident(a)
            && a@ == s@)),
{
    let mut toks: Vec<Spanned<Token>> = Vec::new();
    let n = s.len();
    let mut i: usize = 0;
    while i < n
        invariant
            n == s@.len(),
            i <= n,
            tiles(toks@, i as int),
            is_plain_ident(s@) ==> ((i == 0 && toks@.len() == 0) || (i == n && toks@.len() == 1
                && (toks@[0].node matches Token::Ident(a) && a@ == s@))),
        decreases n - i,
    {
        let c = s[i];
        if space(c) {
            let mut j = i + 1;
            while j < n && space(s[j])
                invariant
                    i < j <= n,
                    n == s@.len(),
                decreases n - j,
            {
                j = j + 1;
            }
            push_token(&mut toks, Token::Whitespace, i, j);
            i = j;
        } else if c == '/' && i + 1 < n && s[i + 1] == '*' {
            let j = scan_comment(s, i);
            push_token(&mut toks, Token::Comment, i, j);
            i = j;
        } else if c == '"' || c == '\'' {
            let mut j = i + 1;
            while j < n && s[j] != c
                invariant
                    i < j <= n,
                    n == s@.len(),
                decreases n - j,
            {
                j = j + 1;
            }
            let text = slice(s, i + 1, j);
            let end = if j < n { j + 1 } else { j };
            push_token(&mut toks, Token::Str(text), i, end);
            i = end;
        } else if number_here(s, i) {
            match scan_number(s, i) {
                Some((num, j)) => {
                    if j < n && s[j] == '%' {
                        push_token(&mut toks, Token::Percentage(num), i, j + 1);
                        i = j + 1;
                    } else if ident_here(s, j) {
                        let k = scan_ident(s, j);
                        let unit = slice(s, j, k);
                        push_token(&mut toks, Token::Dimension(num, unit), i, k);
                        i = k;
                    } else {
                        push_token(&mut toks, Token::Number(num), i, j);
                        i = j;
                    }
                },
                None => {
                    return Err(ParseError::UnknownValue(UnknownValue(Span { start: i, end: i + 1 })));
                },
            }
        } else if ident_here(s, i) {
            let j = scan_ident(s, i);
            let name = slice(s, i, j);
            proof {
                if is_plain_ident(s@) {
                    assert(j == n);
                    assert(name@ =~= s@);
                }
            }
            if j < n && s[j] == '(' {
                push_token(&mut toks, Token::Function(name), i, j + 1);
                i = j + 1;
            } else {
                push_token(&mut toks, Token::Ident(name), i, j);
                i = j;
            }
        } else if c == '@' && ident_here(s, i + 1) {
            let j = scan_ident(s, i + 1);
            let name = slice(s, i + 1, j);
            push_token(&mut toks, Token::AtKeyword(name), i, j);
            i = j;
        } else {
            let t = if c == '(' {
                Token::LeftParen
            } else if c == ')' {
                Token::RightParen
            } else if c == '[' {
                Token::LeftSquare
            } else if c == ']' {
                Token::RightSquare
            } else if c == '{' {
                Token::LeftCurly
            } else if c == '}' {
                Token::RightCurly
            } else if c == ',' {
                Token::Comma
            } else if c == ':' {
                Token::Colon
            } else if c == ';' {
                Token::Semicolon
            } else {
                Token::Delim(c)
            };
            push_token(&mut toks, t, i, i + 1);
            i = i + 1;
        }
    }
    let ghost body = toks@;
    toks.push(Spanned { node: Token::Eof, span: Span { start: n, end: n } });
    assert(toks@.drop_last() =~= body);
    proof {
        if is_plain_ident(s@) {
            assert(body.len() == 1);
            assert(toks@[0] == body[0]);
        }
    }
    Ok(toks)
}

/// A cursor on the tokens of a CSS text.
pub fn parser_for(css: &str) -> (r: Result<Parser, ParseError>)
    ensures
        r matches Ok(p) ==> p@.wf() && p@.toks.last().span.end == css@.len(),
        is_plain_ident(css@) ==> (r matches Ok(p) && p@.toks.len() == 2 && p@.pos == 0 && (p@.cur() matches Token::Ident(
            a,
        ) && a@ == css@)),
{
    let chars = chars_of(css);
    let toks = tokenize(&chars)?;
    if toks.len() > MAX_TOKENS {
        return Err(ParseError::UnknownValue(UnknownValue(Span { start: 0, end: chars.len() })));
    }
    Ok(Parser::new(toks))
}

} // verus!
