use vstd::prelude::*;
use crate::text::copy_chars;

verus! {

/// An identifier's text as the source spelled it.
pub type Atom = Vec<char>;

/// A decimal number as the source wrote it, packed in one word: the top bit
/// is the sign, the next four the scale (digits after the point), the low 27
/// the digits as an integer. `1.50` is 150 at scale 2.
#[derive(Clone, Copy, Debug, PartialEq, Eq, Hash, Structural)]
pub struct Number {
    pub raw: u32,
}

/// One more than the largest digit string a number holds.
pub const MANTISSA_LIMIT: u32 = 0x0800_0000;

/// Digits after the point a number holds at most.
pub const MAX_SCALE: u32 = 15;

impl Number {
    pub open spec fn negative(self) -> bool {
        self.raw >= 0x8000_0000
    }

    pub open spec fn scale(self) -> nat {
        ((self.raw % 0x8000_0000) / 0x0800_0000) as nat
    }

    pub open spec fn mantissa(self) -> nat {
        (self.raw % 0x0800_0000) as nat
    }

    pub open spec fn is_zero(self) -> bool {
        self.mantissa() == 0
    }

    pub fn new(negative: bool, mantissa: u32, scale: u32) -> (r: Number)
        requires
            mantissa < MANTISSA_LIMIT,
            scale <= MAX_SCALE,
        ensures
            r.negative() == negative,
            r.mantissa() == mantissa,
            r.scale() == scale,
    {
        let sign: u32 = if negative { 0x8000_0000 } else { 0 };
        let raw = sign + scale * 0x0800_0000 + mantissa;
        let r = Number { raw };
        proof {
            let low = scale as int * 0x0800_0000 + mantissa as int;
            assert(low < 0x8000_0000);
            assert(raw as int % 0x8000_0000 == low) by {
                assert(raw as int == sign as int + low);
            }
            assert(low % 0x0800_0000 == mantissa as int) by {
                assert(low == scale as int * 0x0800_0000 + mantissa as int);
            }
            assert(low / 0x0800_0000 == scale as int) by {
                assert(low == scale as int * 0x0800_0000 + mantissa as int);
            }
            assert(raw as int % 0x0800_0000 == mantissa as int) by {
                assert(raw as int == sign as int + scale as int * 0x0800_0000 + mantissa as int);
                assert(sign as int % 0x0800_0000 == 0);
            }
        }
        r
    }

    pub fn is_negative(&self) -> (r: bool)
        ensures
            r == self.negative(),
    {
        self.raw >= 0x8000_0000
    }

    pub fn is_zero_exec(&self) -> (r: bool)
        ensures
            r == self.is_zero(),
    {
        self.raw % 0x0800_0000 == 0
    }

    pub fn mantissa_exec(&self) -> (r: u32)
        ensures
            r == self.mantissa(),
            r < MANTISSA_LIMIT,
    {
        self.raw % 0x0800_0000
    }

    pub fn scale_exec(&self) -> (r: u32)
        ensures
            r == self.scale(),
            r <= MAX_SCALE,
    {
        (self.raw % 0x8000_0000) / 0x0800_0000
    }
}

/// One token of CSS, as the tokenizer hands it over.
#[derive(Debug)]
pub enum Token {
    Ident(Atom),
    Function(Atom),
    AtKeyword(Atom),
    Str(Atom),
    Number(Number),
    Percentage(Number),
    Dimension(Number, Atom),
    Delim(char),
    Colon,
    Semicolon,
    Comma,
    LeftParen,
    RightParen,
    LeftSquare,
    RightSquare,
    LeftCurly,
    RightCurly,
    Whitespace,
    Comment,
    Eof,
}

impl Token {
    /// The same token, payload compared by content.
    pub open spec fn same(self, o: Token) -> bool {
        match (self, o) {
            (Token::Ident(a), Token::Ident(b)) => a@ == b@,
            (Token::Function(a), Token::Function(b)) => a@ == b@,
            (Token::AtKeyword(a), Token::AtKeyword(b)) => a@ == b@,
            (Token::Str(a), Token::Str(b)) => a@ == b@,
            (Token::Dimension(n, a), Token::Dimension(m, b)) => n == m && a@ == b@,
            _ => self == o,
        }
    }

    pub fn duplicate(&self) -> (r: Token)
        ensures
            r.same(*self),
    {
        match self {
            Token::Ident(a) => Token::Ident(copy_chars(a)),
            Token::Function(a) => Token::Function(copy_chars(a)),
            Token::AtKeyword(a) => Token::AtKeyword(copy_chars(a)),
            Token::Str(a) => Token::Str(copy_chars(a)),
            Token::Number(n) => Token::Number(*n),
            Token::Percentage(n) => Token::Percentage(*n),
            Token::Dimension(n, a) => Token::Dimension(*n, copy_chars(a)),
            Token::Delim(c) => Token::Delim(*c),
            Token::Colon => Token::Colon,
            Token::Semicolon => Token::Semicolon,
            Token::Comma => Token::Comma,
            Token::LeftParen => Token::LeftParen,
            Token::RightParen => Token::RightParen,
            Token::LeftSquare => Token::LeftSquare,
            Token::RightSquare => Token::RightSquare,
            Token::LeftCurly => Token::LeftCurly,
            Token::RightCurly => Token::RightCurly,
            Token::Whitespace => Token::Whitespace,
            Token::Comment => Token::Comment,
            Token::Eof => Token::Eof,
        }
    }
}

/// Whitespace and comments, which most productions step over.
pub open spec fn is_trivia(t: Token) -> bool {
    t is Whitespace || t is Comment
}

} // verus!
