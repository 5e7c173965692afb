use vstd::prelude::*;
use crate::lexer::is_plain_ident;
use crate::diagnostics::{unexpected, ParseError, UnexpectedCharset};
use crate::parser::{Parser, ParserView};
use crate::span::Spanned;
use crate::text::{copy_chars, eq_str, lemma_lower_is_lower, lemma_lower_of_lower, lower, sig, to_ascii_lowercase};
use crate::token::{Atom, Token};
use crate::writer::{lemma_put_put, CssWriter};

verus! {

/// The `@charset` rule, one variant per encoding name it may give.
#[derive(Clone, Copy, Debug, PartialEq, Eq, Hash, Structural)]
pub enum CharsetRule {
    Utf8,
    UsAscii,
    Iso88591,
    Iso88592,
    Iso88593,
    Iso88594,
    Iso88595,
    Iso88596,
    Iso88597,
    Iso88598,
    Iso88599,
    Iso885910,
    ShiftJis,
    EucJp,
    Iso2022Kr,
    EucKr,
    Iso2022Jp,
    Iso2022Jp2,
    Iso88596E,
    Iso88596I,
    Iso88598E,
    Iso88598I,
    Gb2312,
    Big5,
    Koi8R,
}

impl CharsetRule {
    /// The canonical, lower-case spelling.
    pub open spec fn spelling(self) -> Seq<char> {
        match self {
            CharsetRule::Utf8 => "utf-8"@,
            CharsetRule::UsAscii => "us-ascii"@,
            CharsetRule::Iso88591 => "iso-8859-1"@,
            CharsetRule::Iso88592 => "iso-8859-2"@,
            CharsetRule::Iso88593 => "iso-8859-3"@,
            CharsetRule::Iso88594 => "iso-8859-4"@,
            CharsetRule::Iso88595 => "iso-8859-5"@,
            CharsetRule::Iso88596 => "iso-8859-6"@,
            CharsetRule::Iso88597 => "iso-8859-7"@,
            CharsetRule::Iso88598 => "iso-8859-8"@,
            CharsetRule::Iso88599 => "iso-8859-9"@,
            CharsetRule::Iso885910 => "iso-8859-10"@,
            CharsetRule::ShiftJis => "shift_jis"@,
            CharsetRule::EucJp => "euc-jp"@,
            CharsetRule::Iso2022Kr => "iso-2022-kr"@,
            CharsetRule::EucKr => "euc-kr"@,
            CharsetRule::Iso2022Jp => "iso-2022-jp"@,
            CharsetRule::Iso2022Jp2 => "iso-2022-jp-2"@,
            CharsetRule::Iso88596E => "iso-8859-6-e"@,
            CharsetRule::Iso88596I => "iso-8859-6-i"@,
            CharsetRule::Iso88598E => "iso-8859-8-e"@,
            CharsetRule::Iso88598I => "iso-8859-8-i"@,
            CharsetRule::Gb2312 => "gb2312"@,
            CharsetRule::Big5 => "big5"@,
            CharsetRule::Koi8R => "koi8-r"@,
        }
    }

    /// The variant spelled `s`, in any case.
    pub open spec fn resolve(s: Seq<char>) -> Option<Self> {
        if exists|v: CharsetRule| v.spelling() == lower(s) {
            Some(choose|v: CharsetRule| v.spelling() == lower(s))
        } else {
            None
        }
    }

    /// No two variants share a spelling, and every spelling is in lower case.
    pub proof fn lemma_spellings()
        ensures
            forall|a: CharsetRule, b: CharsetRule| a.spelling() == b.spelling() ==> a == b,
            forall|a: CharsetRule| #[trigger] lower(a.spelling()) == a.spelling(),
    {
        reveal_strlit("utf-8");
        reveal_strlit("us-ascii");
        reveal_strlit("iso-8859-1");
        reveal_strlit("iso-8859-2");
        reveal_strlit("iso-8859-3");
        reveal_strlit("iso-8859-4");
        reveal_strlit("iso-8859-5");
        reveal_strlit("iso-8859-6");
        reveal_strlit("iso-8859-7");
        reveal_strlit("iso-8859-8");
        reveal_strlit("iso-8859-9");
        reveal_strlit("iso-8859-10");
        reveal_strlit("shift_jis");
        reveal_strlit("euc-jp");
        reveal_strlit("iso-2022-kr");
        reveal_strlit("euc-kr");
        reveal_strlit("iso-2022-jp");
        reveal_strlit("iso-2022-jp-2");
        reveal_strlit("iso-8859-6-e");
        reveal_strlit("iso-8859-6-i");
        reveal_strlit("iso-8859-8-e");
        reveal_strlit("iso-8859-8-i");
        reveal_strlit("gb2312");
        reveal_strlit("big5");
        reveal_strlit("koi8-r");
        assert forall|a: CharsetRule, b: CharsetRule| a.spelling() == b.spelling() implies a == b by {
            assert(sig(a.spelling()) == sig(b.spelling()));
        }
        assert forall|a: CharsetRule| #[trigger] lower(a.spelling()) == a.spelling() by {
            lemma_lower_of_lower(a.spelling());
        }
    }

    /// A text whose lower-case form is the spelling of `v` resolves to `v`.
    pub proof fn lemma_resolves_to(v: Self, s: Seq<char>)
        requires
            v.spelling() == lower(s),
        ensures
            CharsetRule::resolve(s) == Some(v),
    {
        CharsetRule::lemma_spellings();
        let w = choose|w: CharsetRule| w.spelling() == lower(s);
        assert(w.spelling() == v.spelling());
    }

    /// Every keyword resolves back from its own canonical spelling.
    pub proof fn lemma_resolve_spelling(v: Self)
        ensures
            CharsetRule::resolve(v.spelling()) == Some(v),
    {
        CharsetRule::lemma_spellings();
        CharsetRule::lemma_resolves_to(v, v.spelling());
    }

    /// Each canonical spelling is one identifier, so it is read back as a single token.
    pub proof fn lemma_spelling_is_identifier(v: Self)
        ensures
            is_plain_ident(v.spelling()),
    {
        reveal_strlit("utf-8");
        reveal_strlit("us-ascii");
        reveal_strlit("iso-8859-1");
        reveal_strlit("iso-8859-2");
        reveal_strlit("iso-8859-3");
        reveal_strlit("iso-8859-4");
        reveal_strlit("iso-8859-5");
        reveal_strlit("iso-8859-6");
        reveal_strlit("iso-8859-7");
        reveal_strlit("iso-8859-8");
        reveal_strlit("iso-8859-9");
        reveal_strlit("iso-8859-10");
        reveal_strlit("shift_jis");
        reveal_strlit("euc-jp");
        reveal_strlit("iso-2022-kr");
        reveal_strlit("euc-kr");
        reveal_strlit("iso-2022-jp");
        reveal_strlit("iso-2022-jp-2");
        reveal_strlit("iso-8859-6-e");
        reveal_strlit("iso-8859-6-i");
        reveal_strlit("iso-8859-8-e");
        reveal_strlit("iso-8859-8-i");
        reveal_strlit("gb2312");
        reveal_strlit("big5");
        reveal_strlit("koi8-r");
    }

    /// Resolution ignores ASCII case: a spelling in any case resolves as its lower-case form.
    pub proof fn lemma_resolve_ignores_case(s: Seq<char>)
        ensures
            CharsetRule::resolve(s) == CharsetRule::resolve(lower(s)),
    {
        lemma_lower_is_lower(s);
    }

    /// The canonical spelling, for writing.
    pub fn to_atom(&self) -> (r: &'static str)
        ensures
            r@ == self.spelling(),
    {
        match self {
            CharsetRule::Utf8 => "utf-8",
            CharsetRule::UsAscii => "us-ascii",
            CharsetRule::Iso88591 => "iso-8859-1",
            CharsetRule::Iso88592 => "iso-8859-2",
            CharsetRule::Iso88593 => "iso-8859-3",
            CharsetRule::Iso88594 => "iso-8859-4",
            CharsetRule::Iso88595 => "iso-8859-5",
            CharsetRule::Iso88596 => "iso-8859-6",
            CharsetRule::Iso88597 => "iso-8859-7",
            CharsetRule::Iso88598 => "iso-8859-8",
            CharsetRule::Iso88599 => "iso-8859-9",
            CharsetRule::Iso885910 => "iso-8859-10",
            CharsetRule::ShiftJis => "shift_jis",
            CharsetRule::EucJp => "euc-jp",
            CharsetRule::Iso2022Kr => "iso-2022-kr",
            CharsetRule::EucKr => "euc-kr",
            CharsetRule::Iso2022Jp => "iso-2022-jp",
            CharsetRule::Iso2022Jp2 => "iso-2022-jp-2",
            CharsetRule::Iso88596E => "iso-8859-6-e",
            CharsetRule::Iso88596I => "iso-8859-6-i",
            CharsetRule::Iso88598E => "iso-8859-8-e",
            CharsetRule::Iso88598I => "iso-8859-8-i",
            CharsetRule::Gb2312 => "gb2312",
            CharsetRule::Big5 => "big5",
            CharsetRule::Koi8R => "koi8-r",
        }
    }

    /// Resolves a keyword, ASCII case ignored; only spellings of the same length are compared.
    pub fn from_atom(s: &Atom) -> (r: Option<Self>)
        ensures
            r == CharsetRule::resolve(s@),
    {
        let l = to_ascii_lowercase(s);
        proof {
            CharsetRule::lemma_spellings();
            reveal_strlit("utf-8");
            reveal_strlit("us-ascii");
            reveal_strlit("iso-8859-1");
            reveal_strlit("iso-8859-2");
            reveal_strlit("iso-8859-3");
            reveal_strlit("iso-8859-4");
            reveal_strlit("iso-8859-5");
            reveal_strlit("iso-8859-6");
            reveal_strlit("iso-8859-7");
            reveal_strlit("iso-8859-8");
            reveal_strlit("iso-8859-9");
            reveal_strlit("iso-8859-10");
            reveal_strlit("shift_jis");
            reveal_strlit("euc-jp");
            reveal_strlit("iso-2022-kr");
            reveal_strlit("euc-kr");
            reveal_strlit("iso-2022-jp");
            reveal_strlit("iso-2022-jp-2");
            reveal_strlit("iso-8859-6-e");
            reveal_strlit("iso-8859-6-i");
            reveal_strlit("iso-8859-8-e");
            reveal_strlit("iso-8859-8-i");
            reveal_strlit("gb2312");
            reveal_strlit("big5");
            reveal_strlit("koi8-r");
        }
        let n = l.len();
        if n == 4 {
            if eq_str(&l, "big5") {
                proof {
                    CharsetRule::lemma_resolves_to(CharsetRule::Big5, s@);
                }
                return Some(CharsetRule::Big5);
            }
        }
        if n == 5 {
            if eq_str(&l, "utf-8") {
                proof {
                    CharsetRule::lemma_resolves_to(CharsetRule::Utf8, s@);
                }
                return Some(CharsetRule::Utf8);
            }
        }
        if n == 6 {
            if eq_str(&l, "euc-jp") {
                proof {
                    CharsetRule::lemma_resolves_to(CharsetRule::EucJp, s@);
                }
                return Some(CharsetRule::EucJp);
            }
            if eq_str(&l, "euc-kr") {
                proof {
                    CharsetRule::lemma_resolves_to(CharsetRule::EucKr, s@);
                }
                return Some(CharsetRule::EucKr);
            }
            if eq_str(&l, "gb2312") {
                proof {
                    CharsetRule::lemma_resolves_to(CharsetRule::Gb2312, s@);
                }
                return Some(CharsetRule::Gb2312);
            }
            if eq_str(&l, "koi8-r") {
                proof {
                    CharsetRule::lemma_resolves_to(CharsetRule::Koi8R, s@);
                }
                return Some(CharsetRule::Koi8R);
            }
        }
        if n == 8 {
            if eq_str(&l, "us-ascii") {
                proof {
                    CharsetRule::lemma_resolves_to(CharsetRule::UsAscii, s@);
                }
                return Some(CharsetRule::UsAscii);
            }
        }
        if n == 9 {
            if eq_str(&l, "shift_jis") {
                proof {
                    CharsetRule::lemma_resolves_to(CharsetRule::ShiftJis, s@);
                }
                return Some(CharsetRule::ShiftJis);
            }
        }
        if n == 10 {
            if eq_str(&l, "iso-8859-1") {
                proof {
                    CharsetRule::lemma_resolves_to(CharsetRule::Iso88591, s@);
                }
                return Some(CharsetRule::Iso88591);
            }
            if eq_str(&l, "iso-8859-2") {
                proof {
                    CharsetRule::lemma_resolves_to(CharsetRule::Iso88592, s@);
                }
                return Some(CharsetRule::Iso88592);
            }
            if eq_str(&l, "iso-8859-3") {
                proof {
                    CharsetRule::lemma_resolves_to(CharsetRule::Iso88593, s@);
                }
                return Some(CharsetRule::Iso88593);
            }
            if eq_str(&l, "iso-8859-4") {
                proof {
                    CharsetRule::lemma_resolves_to(CharsetRule::Iso88594, s@);
                }
                return Some(CharsetRule::Iso88594);
            }
            if eq_str(&l, "iso-8859-5") {
                proof {
                    CharsetRule::lemma_resolves_to(CharsetRule::Iso88595, s@);
                }
                return Some(CharsetRule::Iso88595);
            }
            if eq_str(&l, "iso-8859-6") {
                proof {
                    CharsetRule::lemma_resolves_to(CharsetRule::Iso88596, s@);
                }
                return Some(CharsetRule::Iso88596);
            }
            if eq_str(&l, "iso-8859-7") {
                proof {
                    CharsetRule::lemma_resolves_to(CharsetRule::Iso88597, s@);
                }
                return Some(CharsetRule::Iso88597);
            }
            if eq_str(&l, "iso-8859-8") {
                proof {
                    CharsetRule::lemma_resolves_to(CharsetRule::Iso88598, s@);
                }
                return Some(CharsetRule::Iso88598);
            }
            if eq_str(&l, "iso-8859-9") {
                proof {
                    CharsetRule::lemma_resolves_to(CharsetRule::Iso88599, s@);
                }
                return Some(CharsetRule::Iso88599);
            }
        }
        if n == 11 {
            if eq_str(&l, "iso-8859-10") {
                proof {
                    CharsetRule::lemma_resolves_to(CharsetRule::Iso885910, s@);
                }
                return Some(CharsetRule::Iso885910);
            }
            if eq_str(&l, "iso-2022-kr") {
                proof {
                    CharsetRule::lemma_resolves_to(CharsetRule::Iso2022Kr, s@);
                }
                return Some(CharsetRule::Iso2022Kr);
            }
            if eq_str(&l, "iso-2022-jp") {
                proof {
                    CharsetRule::lemma_resolves_to(CharsetRule::Iso2022Jp, s@);
                }
                return Some(CharsetRule::Iso2022Jp);
            }
        }
        if n == 12 {
            if eq_str(&l, "iso-8859-6-e") {
                proof {
                    CharsetRule::lemma_resolves_to(CharsetRule::Iso88596E, s@);
                }
                return Some(CharsetRule::Iso88596E);
            }
            if eq_str(&l, "iso-8859-6-i") {
                proof {
                    CharsetRule::lemma_resolves_to(CharsetRule::Iso88596I, s@);
                }
                return Some(CharsetRule::Iso88596I);
            }
            if eq_str(&l, "iso-8859-8-e") {
                proof {
                    CharsetRule::lemma_resolves_to(CharsetRule::Iso88598E, s@);
                }
                return Some(CharsetRule::Iso88598E);
            }
            if eq_str(&l, "iso-8859-8-i") {
                proof {
                    CharsetRule::lemma_resolves_to(CharsetRule::Iso88598I, s@);
                }
                return Some(CharsetRule::Iso88598I);
            }
        }
        if n == 13 {
            if eq_str(&l, "iso-2022-jp-2") {
                proof {
                    CharsetRule::lemma_resolves_to(CharsetRule::Iso2022Jp2, s@);
                }
                return Some(CharsetRule::Iso2022Jp2);
            }
        }
        None
    }
}


impl CharsetRule {
    /// The rule as written: `@charset "<name>";`.
    pub open spec fn text(self) -> Seq<char> {
        "@charset \""@ + self.spelling() + "\";"@
    }

    /// The rule that the tokens at `v` spell, with the cursor after its `;`.
    pub open spec fn parse_spec(v: ParserView) -> Option<(CharsetRule, ParserView)> {
        let w = v.step_raw();
        let x = w.skip(1);
        let y = x.skip(1);
        match (v.cur(), w.cur(), x.cur(), y.cur()) {
            (Token::AtKeyword(kw), Token::Whitespace, Token::Str(name), Token::Semicolon) => {
                if kw@ == "charset"@ && CharsetRule::resolve(name@) is Some {
                    Some((CharsetRule::resolve(name@)->Some_0, y.skip(1)))
                } else {
                    None
                }
            },
            _ => None,
        }
    }

    /// The rule is well formed up to its name, and the name is no known encoding.
    pub open spec fn unknown_name(v: ParserView) -> bool {
        let w = v.step_raw();
        match (v.cur(), w.cur(), w.skip(1).cur()) {
            (Token::AtKeyword(kw), Token::Whitespace, Token::Str(name)) => kw@ == "charset"@ && CharsetRule::resolve(name@) is None,
            _ => false,
        }
    }

    /// Parses `@charset "<name>";`; one space or more must follow the at-keyword.
    pub fn parse(p: &mut Parser) -> (r: Result<Spanned<CharsetRule>, ParseError>)
        requires
            old(p)@.wf(),
        ensures
            final(p)@.wf(),
            final(p)@.toks == old(p)@.toks,
            r is Ok <==> CharsetRule::parse_spec(old(p)@) is Some,
            r matches Ok(n) ==> CharsetRule::parse_spec(old(p)@) == Some((n.node, final(p)@)),
            r matches Err(e) ==> (e is UnexpectedCharset <==> CharsetRule::unknown_name(old(p)@)),
            r matches Err(e) ==> (e is UnexpectedCharset || e is Unexpected),
    {
        let start = p.span();
        let is_charset = match p.cur() {
            Token::AtKeyword(a) => eq_str(a, "charset"),
            _ => false,
        };
        if !is_charset {
            return Err(unexpected(p));
        }
        p.advance_including_trivia();
        if !matches!(p.cur(), Token::Whitespace) {
            return Err(unexpected(p));
        }
        p.advance();
        let rule = match p.cur() {
            Token::Str(a) => match CharsetRule::from_atom(a) {
                Some(c) => c,
                None => {
                    return Err(ParseError::UnexpectedCharset(UnexpectedCharset(copy_chars(a), p.span())));
                },
            },
            _ => {
                return Err(unexpected(p));
            },
        };
        p.advance();
        if !matches!(p.cur(), Token::Semicolon) {
            return Err(unexpected(p));
        }
        let end = p.span().end;
        p.advance();
        Ok(Spanned { node: rule, span: start.up_to(end) })
    }

    pub fn write_css(&self, w: &mut CssWriter)
        ensures
            final(w)@ == old(w)@.put(self.text()),
    {
        let ghost w0 = w@;
        w.write_str("@charset \"");
        w.write_str(self.to_atom());
        w.write_str("\";");
        proof {
            lemma_put_put(w0, "@charset \""@, self.spelling());
            lemma_put_put(w0, "@charset \""@ + self.spelling(), "\";"@);
        }
    }
}

} // verus!
