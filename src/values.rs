use vstd::prelude::*;
use crate::lexer::is_plain_ident;
use crate::diagnostics::{unexpected, ParseError, UnexpectedIdent};
use crate::line_width::{Length, LengthUnit};
use crate::parser::{nth_pos, next_pos, Parser, ParserView};
use crate::span::Spanned;
use crate::text::{copy_chars, eq_str, lemma_lower_is_lower, lemma_lower_of_lower, lower, sig, to_ascii_lowercase};
use crate::token::{Atom, Number, Token};
use crate::writer::{lemma_put_put, CssWriter};

verus! {

/// `visibility`: whether a box is shown, hidden, or collapsed.
#[derive(Clone, Copy, Debug, PartialEq, Eq, Hash, Structural)]
pub enum Visibility {
    Visible,
    Hidden,
    Collapse,
}

impl Visibility {
    /// The canonical, lower-case spelling.
    pub open spec fn spelling(self) -> Seq<char> {
        match self {
            Visibility::Visible => "visible"@,
            Visibility::Hidden => "hidden"@,
            Visibility::Collapse => "collapse"@,
        }
    }

    /// The variant spelled `s`, in any case.
    pub open spec fn resolve(s: Seq<char>) -> Option<Self> {
        if exists|v: Visibility| v.spelling() == lower(s) {
            Some(choose|v: Visibility| v.spelling() == lower(s))
        } else {
            None
        }
    }

    /// No two variants share a spelling, and every spelling is in lower case.
    pub proof fn lemma_spellings()
        ensures
            forall|a: Visibility, b: Visibility| a.spelling() == b.spelling() ==> a == b,
            forall|a: Visibility| #[trigger] lower(a.spelling()) == a.spelling(),
    {
        reveal_strlit("visible");
        reveal_strlit("hidden");
        reveal_strlit("collapse");
        assert forall|a: Visibility, b: Visibility| a.spelling() == b.spelling() implies a == b by {
            assert(sig(a.spelling()) == sig(b.spelling()));
        }
        assert forall|a: Visibility| #[trigger] lower(a.spelling()) == a.spelling() by {
            lemma_lower_of_lower(a.spelling());
        }
    }

    /// A text whose lower-case form is the spelling of `v` resolves to `v`.
    pub proof fn lemma_resolves_to(v: Self, s: Seq<char>)
        requires
            v.spelling() == lower(s),
        ensures
            Visibility::resolve(s) == Some(v),
    {
        Visibility::lemma_spellings();
        let w = choose|w: Visibility| w.spelling() == lower(s);
        assert(w.spelling() == v.spelling());
    }

    /// Every keyword resolves back from its own canonical spelling.
    pub proof fn lemma_resolve_spelling(v: Self)
        ensures
            Visibility::resolve(v.spelling()) == Some(v),
    {
        Visibility::lemma_spellings();
        Visibility::lemma_resolves_to(v, v.spelling());
    }

    /// Each canonical spelling is one identifier, so it is read back as a single token.
    pub proof fn lemma_spelling_is_identifier(v: Self)
        ensures
            is_plain_ident(v.spelling()),
    {
        reveal_strlit("visible");
        reveal_strlit("hidden");
        reveal_strlit("collapse");
    }

    /// Resolution ignores ASCII case: a spelling in any case resolves as its lower-case form.
    pub proof fn lemma_resolve_ignores_case(s: Seq<char>)
        ensures
            Visibility::resolve(s) == Visibility::resolve(lower(s)),
    {
        lemma_lower_is_lower(s);
    }

    /// The canonical spelling, for writing.
    pub fn to_atom(&self) -> (r: &'static str)
        ensures
            r@ == self.spelling(),
    {
        match self {
            Visibility::Visible => "visible",
            Visibility::Hidden => "hidden",
            Visibility::Collapse => "collapse",
        }
    }

    /// Resolves a keyword, ASCII case ignored; only spellings of the same length are compared.
    pub fn from_atom(s: &Atom) -> (r: Option<Self>)
        ensures
            r == Visibility::resolve(s@),
    {
        let l = to_ascii_lowercase(s);
        proof {
            Visibility::lemma_spellings();
            reveal_strlit("visible");
            reveal_strlit("hidden");
            reveal_strlit("collapse");
        }
        let n = l.len();
        if n == 6 {
            if eq_str(&l, "hidden") {
                proof {
                    Visibility::lemma_resolves_to(Visibility::Hidden, s@);
                }
                return Some(Visibility::Hidden);
            }
        }
        if n == 7 {
            if eq_str(&l, "visible") {
                proof {
                    Visibility::lemma_resolves_to(Visibility::Visible, s@);
                }
                return Some(Visibility::Visible);
            }
        }
        if n == 8 {
            if eq_str(&l, "collapse") {
                proof {
                    Visibility::lemma_resolves_to(Visibility::Collapse, s@);
                }
                return Some(Visibility::Collapse);
            }
        }
        None
    }
}

/// The keywords of `max-width`.
#[derive(Clone, Copy, Debug, PartialEq, Eq, Hash, Structural)]
pub enum SizingKeyword {
    NoneValue,
    MinContent,
    MaxContent,
    Stretch,
    FitContent,
    Contain,
}

impl SizingKeyword {
    /// The canonical, lower-case spelling.
    pub open spec fn spelling(self) -> Seq<char> {
        match self {
            SizingKeyword::NoneValue => "none"@,
            SizingKeyword::MinContent => "min-content"@,
            SizingKeyword::MaxContent => "max-content"@,
            SizingKeyword::Stretch => "stretch"@,
            SizingKeyword::FitContent => "fit-content"@,
            SizingKeyword::Contain => "contain"@,
        }
    }

    /// The variant spelled `s`, in any case.
    pub open spec fn resolve(s: Seq<char>) -> Option<Self> {
        if exists|v: SizingKeyword| v.spelling() == lower(s) {
            Some(choose|v: SizingKeyword| v.spelling() == lower(s))
        } else {
            None
        }
    }

    /// No two variants share a spelling, and every spelling is in lower case.
    pub proof fn lemma_spellings()
        ensures
            forall|a: SizingKeyword, b: SizingKeyword| a.spelling() == b.spelling() ==> a == b,
            forall|a: SizingKeyword| #[trigger] lower(a.spelling()) == a.spelling(),
    {
        reveal_strlit("none");
        reveal_strlit("min-content");
        reveal_strlit("max-content");
        reveal_strlit("stretch");
        reveal_strlit("fit-content");
        reveal_strlit("contain");
        assert forall|a: SizingKeyword, b: SizingKeyword| a.spelling() == b.spelling() implies a == b by {
            assert(sig(a.spelling()) == sig(b.spelling()));
        }
        assert forall|a: SizingKeyword| #[trigger] lower(a.spelling()) == a.spelling() by {
            lemma_lower_of_lower(a.spelling());
        }
    }

    /// A text whose lower-case form is the spelling of `v` resolves to `v`.
    pub proof fn lemma_resolves_to(v: Self, s: Seq<char>)
        requires
            v.spelling() == lower(s),
        ensures
            SizingKeyword::resolve(s) == Some(v),
    {
        SizingKeyword::lemma_spellings();
        let w = choose|w: SizingKeyword| w.spelling() == lower(s);
        assert(w.spelling() == v.spelling());
    }

    /// Every keyword resolves back from its own canonical spelling.
    pub proof fn lemma_resolve_spelling(v: Self)
        ensures
            SizingKeyword::resolve(v.spelling()) == Some(v),
    {
        SizingKeyword::lemma_spellings();
        SizingKeyword::lemma_resolves_to(v, v.spelling());
    }

    /// Each canonical spelling is one identifier, so it is read back as a single token.
    pub proof fn lemma_spelling_is_identifier(v: Self)
        ensures
            is_plain_ident(v.spelling()),
    {
        reveal_strlit("none");
        reveal_strlit("min-content");
        reveal_strlit("max-content");
        reveal_strlit("stretch");
        reveal_strlit("fit-content");
        reveal_strlit("contain");
    }

    /// Resolution ignores ASCII case: a spelling in any case resolves as its lower-case form.
    pub proof fn lemma_resolve_ignores_case(s: Seq<char>)
        ensures
            SizingKeyword::resolve(s) == SizingKeyword::resolve(lower(s)),
    {
        lemma_lower_is_lower(s);
    }

    /// The canonical spelling, for writing.
    pub fn to_atom(&self) -> (r: &'static str)
        ensures
            r@ == self.spelling(),
    {
        match self {
            SizingKeyword::NoneValue => "none",
            SizingKeyword::MinContent => "min-content",
            SizingKeyword::MaxContent => "max-content",
            SizingKeyword::Stretch => "stretch",
            SizingKeyword::FitContent => "fit-content",
            SizingKeyword::Contain => "contain",
        }
    }

    /// Resolves a keyword, ASCII case ignored; only spellings of the same length are compared.
    pub fn from_atom(s: &Atom) -> (r: Option<Self>)
        ensures
            r == SizingKeyword::resolve(s@),
    {
        let l = to_ascii_lowercase(s);
        proof {
            SizingKeyword::lemma_spellings();
            reveal_strlit("none");
            reveal_strlit("min-content");
            reveal_strlit("max-content");
            reveal_strlit("stretch");
            reveal_strlit("fit-content");
            reveal_strlit("contain");
        }
        let n = l.len();
        if n == 4 {
            if eq_str(&l, "none") {
                proof {
                    SizingKeyword::lemma_resolves_to(SizingKeyword::NoneValue, s@);
                }
                return Some(SizingKeyword::NoneValue);
            }
        }
        if n == 7 {
            if eq_str(&l, "stretch") {
                proof {
                    SizingKeyword::lemma_resolves_to(SizingKeyword::Stretch, s@);
                }
                return Some(SizingKeyword::Stretch);
            }
            if eq_str(&l, "contain") {
                proof {
                    SizingKeyword::lemma_resolves_to(SizingKeyword::Contain, s@);
                }
                return Some(SizingKeyword::Contain);
            }
        }
        if n == 11 {
            if eq_str(&l, "min-content") {
                proof {
                    SizingKeyword::lemma_resolves_to(SizingKeyword::MinContent, s@);
                }
                return Some(SizingKeyword::MinContent);
            }
            if eq_str(&l, "max-content") {
                proof {
                    SizingKeyword::lemma_resolves_to(SizingKeyword::MaxContent, s@);
                }
                return Some(SizingKeyword::MaxContent);
            }
            if eq_str(&l, "fit-content") {
                proof {
                    SizingKeyword::lemma_resolves_to(SizingKeyword::FitContent, s@);
                }
                return Some(SizingKeyword::FitContent);
            }
        }
        None
    }
}

/// Parses a value that is one keyword of a closed set.
pub open spec fn keyword_spec<K>(v: ParserView, resolve: spec_fn(Seq<char>) -> Option<K>) -> Option<(K, ParserView)> {
    match v.cur() {
        Token::Ident(a) => match resolve(a@) {
            Some(k) => Some((k, v.skip(1))),
            None => None,
        },
        _ => None,
    }
}

impl Visibility {
    pub fn parse(p: &mut Parser) -> (r: Result<Visibility, ParseError>)
        requires
            old(p)@.wf(),
        ensures
            final(p)@.wf(),
            final(p)@.toks == old(p)@.toks,
            r is Ok <==> keyword_spec(old(p)@, |s: Seq<char>| Visibility::resolve(s)) is Some,
            r matches Ok(k) ==> keyword_spec(old(p)@, |s: Seq<char>| Visibility::resolve(s)) == Some((k, final(p)@)),
    {
        let k = match p.cur() {
            Token::Ident(a) => match Visibility::from_atom(a) {
                Some(k) => k,
                None => {
                    return Err(ParseError::UnexpectedIdent(UnexpectedIdent(copy_chars(a), p.span())));
                },
            },
            _ => {
                return Err(unexpected(p));
            },
        };
        p.advance();
        Ok(k)
    }

    pub fn write_css(&self, w: &mut CssWriter)
        ensures
            final(w)@ == old(w)@.put(self.spelling()),
    {
        w.write_str(self.to_atom())
    }
}

/// `zoom`: a keyword, a number, or a percentage.
#[derive(Clone, Copy, Debug, PartialEq, Eq, Hash, Structural)]
pub enum Zoom {
    Normal,
    Reset,
    Number(Number),
    Percent(Number),
}

impl Zoom {
    pub open spec fn text(self) -> Seq<char> {
        match self {
            Zoom::Normal => "normal"@,
            Zoom::Reset => "reset"@,
            Zoom::Number(n) => n.text(),
            Zoom::Percent(n) => n.text() + seq!['%'],
        }
    }

    /// The value a single token gives, if any.
    pub open spec fn of_token(t: Token) -> Option<Zoom> {
        match t {
            Token::Ident(a) => if lower(a@) == "normal"@ {
                Some(Zoom::Normal)
            } else if lower(a@) == "reset"@ {
                Some(Zoom::Reset)
            } else {
                None
            },
            Token::Number(n) => Some(Zoom::Number(n)),
            Token::Percentage(n) => Some(Zoom::Percent(n)),
            _ => None,
        }
    }

    pub fn parse(p: &mut Parser) -> (r: Result<Zoom, ParseError>)
        requires
            old(p)@.wf(),
        ensures
            final(p)@.wf(),
            final(p)@.toks == old(p)@.toks,
            r is Ok <==> Zoom::of_token(old(p)@.cur()) is Some,
            r matches Ok(z) ==> Zoom::of_token(old(p)@.cur()) == Some(z) && final(p)@ == old(p)@.skip(1),
    {
        let z = match p.cur() {
            Token::Ident(a) => {
                let l = to_ascii_lowercase(a);
                if eq_str(&l, "normal") {
                    Zoom::Normal
                } else if eq_str(&l, "reset") {
                    Zoom::Reset
                } else {
                    return Err(ParseError::UnexpectedIdent(UnexpectedIdent(copy_chars(a), p.span())));
                }
            },
            Token::Number(n) => Zoom::Number(*n),
            Token::Percentage(n) => Zoom::Percent(*n),
            _ => {
                return Err(unexpected(p));
            },
        };
        p.advance();
        Ok(z)
    }

    pub fn write_css(&self, w: &mut CssWriter)
        ensures
            final(w)@ == old(w)@.put(self.text()),
    {
        match self {
            Zoom::Normal => w.write_str("normal"),
            Zoom::Reset => w.write_str("reset"),
            Zoom::Number(n) => n.write_css(w),
            Zoom::Percent(n) => {
                let ghost w0 = w@;
                n.write_css(w);
                w.write_char('%');
                proof {
                    lemma_put_put(w0, n.text(), seq!['%']);
                }
            },
        }
    }
}

/// A length or a percentage.
#[derive(Clone, Copy, Debug, PartialEq, Eq, Hash, Structural)]
pub enum LengthPercentage {
    Length(Length),
    Percent(Number),
}

impl LengthPercentage {
    pub open spec fn text(self) -> Seq<char> {
        match self {
            LengthPercentage::Length(l) => l.text(),
            LengthPercentage::Percent(n) => n.text() + seq!['%'],
        }
    }

    /// The value a token gives, if it is a length or percentage that is not negative.
    pub open spec fn of_token(t: Token) -> Option<LengthPercentage> {
        match t {
            Token::Dimension(n, u) => match LengthUnit::resolve(u@) {
                Some(unit) => if !n.negative() {
                    Some(LengthPercentage::Length(Length { value: n, unit: Some(unit) }))
                } else {
                    None
                },
                None => None,
            },
            Token::Number(n) => if n.is_zero() && !n.negative() {
                Some(LengthPercentage::Length(Length { value: n, unit: None }))
            } else {
                None
            },
            Token::Percentage(n) => if !n.negative() {
                Some(LengthPercentage::Percent(n))
            } else {
                None
            },
            _ => None,
        }
    }

    pub fn from_token(t: &Token) -> (r: Option<LengthPercentage>)
        ensures
            r == LengthPercentage::of_token(*t),
    {
        match t {
            Token::Dimension(n, u) => match LengthUnit::from_atom(u) {
                Some(unit) => if !n.is_negative() {
                    Some(LengthPercentage::Length(Length { value: *n, unit: Some(unit) }))
                } else {
                    None
                },
                None => None,
            },
            Token::Number(n) => if n.is_zero_exec() && !n.is_negative() {
                Some(LengthPercentage::Length(Length { value: *n, unit: None }))
            } else {
                None
            },
            Token::Percentage(n) => if !n.is_negative() {
                Some(LengthPercentage::Percent(*n))
            } else {
                None
            },
            _ => None,
        }
    }

    pub fn write_css(&self, w: &mut CssWriter)
        ensures
            final(w)@ == old(w)@.put(self.text()),
    {
        match self {
            LengthPercentage::Length(l) => l.write_css(w),
            LengthPercentage::Percent(n) => {
                let ghost w0 = w@;
                n.write_css(w);
                w.write_char('%');
                proof {
                    lemma_put_put(w0, n.text(), seq!['%']);
                }
            },
        }
    }
}

/// `max-width`: a keyword, a length or percentage, or `fit-content(<length-percentage>)`.
#[derive(Clone, Copy, Debug, PartialEq, Eq, Hash, Structural)]
pub enum MaxWidth {
    Keyword(SizingKeyword),
    LengthPercentage(LengthPercentage),
    FitContentFunction(LengthPercentage),
}

impl MaxWidth {
    pub open spec fn text(self) -> Seq<char> {
        match self {
            MaxWidth::Keyword(k) => k.spelling(),
            MaxWidth::LengthPercentage(lp) => lp.text(),
            MaxWidth::FitContentFunction(lp) => "fit-content("@ + lp.text() + seq![')'],
        }
    }

    /// The value that the tokens at `v` spell.
    pub open spec fn parse_spec(v: ParserView) -> Option<(MaxWidth, ParserView)> {
        match v.cur() {
            Token::Ident(a) => match SizingKeyword::resolve(a@) {
                Some(k) => Some((MaxWidth::Keyword(k), v.skip(1))),
                None => None,
            },
            Token::Function(f) => if lower(f@) == "fit-content"@ {
                let w = v.skip(1);
                match LengthPercentage::of_token(w.cur()) {
                    Some(lp) => if w.skip(1).cur() is RightParen {
                        Some((MaxWidth::FitContentFunction(lp), w.skip(1).skip(1)))
                    } else {
                        None
                    },
                    None => None,
                }
            } else {
                None
            },
            _ => match LengthPercentage::of_token(v.cur()) {
                Some(lp) => Some((MaxWidth::LengthPercentage(lp), v.skip(1))),
                None => None,
            },
        }
    }

    pub fn parse(p: &mut Parser) -> (r: Result<MaxWidth, ParseError>)
        requires
            old(p)@.wf(),
        ensures
            final(p)@.wf(),
            final(p)@.toks == old(p)@.toks,
            r is Ok <==> MaxWidth::parse_spec(old(p)@) is Some,
            r matches Ok(m) ==> MaxWidth::parse_spec(old(p)@) == Some((m, final(p)@)),
    {
        match p.cur() {
            Token::Ident(a) => match SizingKeyword::from_atom(a) {
                Some(k) => {
                    p.advance();
                    Ok(MaxWidth::Keyword(k))
                },
                None => Err(ParseError::UnexpectedIdent(UnexpectedIdent(copy_chars(a), p.span()))),
            },
            Token::Function(f) => {
                let l = to_ascii_lowercase(f);
                if !eq_str(&l, "fit-content") {
                    return Err(unexpected(p));
                }
                p.advance();
                let lp = match LengthPercentage::from_token(p.cur()) {
                    Some(lp) => lp,
                    None => {
                        return Err(unexpected(p));
                    },
                };
                p.advance();
                if !matches!(p.cur(), Token::RightParen) {
                    return Err(unexpected(p));
                }
                p.advance();
                Ok(MaxWidth::FitContentFunction(lp))
            },
            _ => match LengthPercentage::from_token(p.cur()) {
                Some(lp) => {
                    p.advance();
                    Ok(MaxWidth::LengthPercentage(lp))
                },
                None => Err(unexpected(p)),
            },
        }
    }

    pub fn write_css(&self, w: &mut CssWriter)
        ensures
            final(w)@ == old(w)@.put(self.text()),
    {
        match self {
            MaxWidth::Keyword(k) => w.write_str(k.to_atom()),
            MaxWidth::LengthPercentage(lp) => lp.write_css(w),
            MaxWidth::FitContentFunction(lp) => {
                let ghost w0 = w@;
                w.write_str("fit-content(");
                lp.write_css(w);
                w.write_char(')');
                proof {
                    lemma_put_put(w0, "fit-content("@, lp.text());
                    lemma_put_put(w0, "fit-content("@ + lp.text(), seq![')']);
                }
            },
        }
    }
}

/// The canonical text of a `visibility` value is one identifier, and the
/// tokens of that text (the identifier, then the end) parse back to the same value.
pub proof fn lemma_visibility_round_trip(v: Visibility, toks: Seq<Spanned<Token>>)
    requires
        toks.len() == 2,
        (toks[0].node matches Token::Ident(a) && a@ == v.spelling()),
        toks[1].node is Eof,
    ensures
        is_plain_ident(v.spelling()),
        keyword_spec(ParserView { toks, pos: 0 }, |s: Seq<char>| Visibility::resolve(s)) == Some(
            (v, ParserView { toks, pos: 1 }),
        ),
{
    Visibility::lemma_spelling_is_identifier(v);
    Visibility::lemma_resolve_spelling(v);
    assert(nth_pos(toks, 0, 1) == nth_pos(toks, next_pos(toks, 0), 0));
}

} // verus!
