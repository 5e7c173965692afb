use vstd::prelude::*;
use crate::lexer::is_plain_ident;
use crate::diagnostics::{unexpected, ParseError};
use crate::media::{prepend, progress};
use crate::parser::{Parser, ParserView, lemma_skip1_progress, MAX_TOKENS};
use crate::span::{Span, Spanned};
use crate::text::{copy_chars, eq_str, lemma_lower_is_lower, lemma_lower_of_lower, lower, sig, to_ascii_lowercase};
use crate::token::{Atom, Token};
use crate::writer::{gap_text, lemma_put_put, lemma_space, CssWriter};

verus! {

/// A generic or system font family keyword.
#[derive(Clone, Copy, Debug, PartialEq, Eq, Hash, Structural)]
pub enum GenericFamily {
    Serif,
    SansSerif,
    Cursive,
    Fantasy,
    Monospace,
    SystemUi,
    Math,
    UiSerif,
    UiMonospace,
    UiRounded,
    Caption,
    Icon,
    Menu,
    MessageBox,
    SmallCaption,
    StatusBar,
}

impl GenericFamily {
    /// The canonical, lower-case spelling.
    pub open spec fn spelling(self) -> Seq<char> {
        match self {
            GenericFamily::Serif => "serif"@,
            GenericFamily::SansSerif => "sans-serif"@,
            GenericFamily::Cursive => "cursive"@,
            GenericFamily::Fantasy => "fantasy"@,
            GenericFamily::Monospace => "monospace"@,
            GenericFamily::SystemUi => "system-ui"@,
            GenericFamily::Math => "math"@,
            GenericFamily::UiSerif => "ui-serif"@,
            GenericFamily::UiMonospace => "ui-monospace"@,
            GenericFamily::UiRounded => "ui-rounded"@,
            GenericFamily::Caption => "caption"@,
            GenericFamily::Icon => "icon"@,
            GenericFamily::Menu => "menu"@,
            GenericFamily::MessageBox => "message-box"@,
            GenericFamily::SmallCaption => "small-caption"@,
            GenericFamily::StatusBar => "status-bar"@,
        }
    }

    /// The variant spelled `s`, in any case.
    pub open spec fn resolve(s: Seq<char>) -> Option<Self> {
        if exists|v: GenericFamily| v.spelling() == lower(s) {
            Some(choose|v: GenericFamily| v.spelling() == lower(s))
        } else {
            None
        }
    }

    /// No two variants share a spelling, and every spelling is in lower case.
    pub proof fn lemma_spellings()
        ensures
            forall|a: GenericFamily, b: GenericFamily| a.spelling() == b.spelling() ==> a == b,
            forall|a: GenericFamily| #[trigger] lower(a.spelling()) == a.spelling(),
    {
        reveal_strlit("serif");
        reveal_strlit("sans-serif");
        reveal_strlit("cursive");
        reveal_strlit("fantasy");
        reveal_strlit("monospace");
        reveal_strlit("system-ui");
        reveal_strlit("math");
        reveal_strlit("ui-serif");
        reveal_strlit("ui-monospace");
        reveal_strlit("ui-rounded");
        reveal_strlit("caption");
        reveal_strlit("icon");
        reveal_strlit("menu");
        reveal_strlit("message-box");
        reveal_strlit("small-caption");
        reveal_strlit("status-bar");
        assert forall|a: GenericFamily, b: GenericFamily| a.spelling() == b.spelling() implies a == b by {
            assert(sig(a.spelling()) == sig(b.spelling()));
        }
        assert forall|a: GenericFamily| #[trigger] lower(a.spelling()) == a.spelling() by {
            lemma_lower_of_lower(a.spelling());
        }
    }

    /// A text whose lower-case form is the spelling of `v` resolves to `v`.
    pub proof fn lemma_resolves_to(v: Self, s: Seq<char>)
        requires
            v.spelling() == lower(s),
        ensures
            GenericFamily::resolve(s) == Some(v),
    {
        GenericFamily::lemma_spellings();
        let w = choose|w: GenericFamily| w.spelling() == lower(s);
        assert(w.spelling() == v.spelling());
    }

    /// Every keyword resolves back from its own canonical spelling.
    pub proof fn lemma_resolve_spelling(v: Self)
        ensures
            GenericFamily::resolve(v.spelling()) == Some(v),
    {
        GenericFamily::lemma_spellings();
        GenericFamily::lemma_resolves_to(v, v.spelling());
    }

    /// Each canonical spelling is one identifier, so it is read back as a single token.
    pub proof fn lemma_spelling_is_identifier(v: Self)
        ensures
            is_plain_ident(v.spelling()),
    {
        reveal_strlit("serif");
        reveal_strlit("sans-serif");
        reveal_strlit("cursive");
        reveal_strlit("fantasy");
        reveal_strlit("monospace");
        reveal_strlit("system-ui");
        reveal_strlit("math");
        reveal_strlit("ui-serif");
        reveal_strlit("ui-monospace");
        reveal_strlit("ui-rounded");
        reveal_strlit("caption");
        reveal_strlit("icon");
        reveal_strlit("menu");
        reveal_strlit("message-box");
        reveal_strlit("small-caption");
        reveal_strlit("status-bar");
    }

    /// Resolution ignores ASCII case: a spelling in any case resolves as its lower-case form.
    pub proof fn lemma_resolve_ignores_case(s: Seq<char>)
        ensures
            GenericFamily::resolve(s) == GenericFamily::resolve(lower(s)),
    {
        lemma_lower_is_lower(s);
    }

    /// The canonical spelling, for writing.
    pub fn to_atom(&self) -> (r: &'static str)
        ensures
            r@ == self.spelling(),
    {
        match self {
            GenericFamily::Serif => "serif",
            GenericFamily::SansSerif => "sans-serif",
            GenericFamily::Cursive => "cursive",
            GenericFamily::Fantasy => "fantasy",
            GenericFamily::Monospace => "monospace",
            GenericFamily::SystemUi => "system-ui",
            GenericFamily::Math => "math",
            GenericFamily::UiSerif => "ui-serif",
            GenericFamily::UiMonospace => "ui-monospace",
            GenericFamily::UiRounded => "ui-rounded",
            GenericFamily::Caption => "caption",
            GenericFamily::Icon => "icon",
            GenericFamily::Menu => "menu",
            GenericFamily::MessageBox => "message-box",
            GenericFamily::SmallCaption => "small-caption",
            GenericFamily::StatusBar => "status-bar",
        }
    }

    /// Resolves a keyword, ASCII case ignored; only spellings of the same length are compared.
    pub fn from_atom(s: &Atom) -> (r: Option<Self>)
        ensures
            r == GenericFamily::resolve(s@),
    {
        let l = to_ascii_lowercase(s);
        proof {
            GenericFamily::lemma_spellings();
            reveal_strlit("serif");
            reveal_strlit("sans-serif");
            reveal_strlit("cursive");
            reveal_strlit("fantasy");
            reveal_strlit("monospace");
            reveal_strlit("system-ui");
            reveal_strlit("math");
            reveal_strlit("ui-serif");
            reveal_strlit("ui-monospace");
            reveal_strlit("ui-rounded");
            reveal_strlit("caption");
            reveal_strlit("icon");
            reveal_strlit("menu");
            reveal_strlit("message-box");
            reveal_strlit("small-caption");
            reveal_strlit("status-bar");
        }
        let n = l.len();
        if n == 4 {
            if eq_str(&l, "math") {
                proof {
                    GenericFamily::lemma_resolves_to(GenericFamily::Math, s@);
                }
                return Some(GenericFamily::Math);
            }
            if eq_str(&l, "icon") {
                proof {
                    GenericFamily::lemma_resolves_to(GenericFamily::Icon, s@);
                }
                return Some(GenericFamily::Icon);
            }
            if eq_str(&l, "menu") {
                proof {
                    GenericFamily::lemma_resolves_to(GenericFamily::Menu, s@);
                }
                return Some(GenericFamily::Menu);
            }
        }
        if n == 5 {
            if eq_str(&l, "serif") {
                proof {
                    GenericFamily::lemma_resolves_to(GenericFamily::Serif, s@);
                }
                return Some(GenericFamily::Serif);
            }
        }
        if n == 7 {
            if eq_str(&l, "cursive") {
                proof {
                    GenericFamily::lemma_resolves_to(GenericFamily::Cursive, s@);
                }
                return Some(GenericFamily::Cursive);
            }
            if eq_str(&l, "fantasy") {
                proof {
                    GenericFamily::lemma_resolves_to(GenericFamily::Fantasy, s@);
                }
                return Some(GenericFamily::Fantasy);
            }
            if eq_str(&l, "caption") {
                proof {
                    GenericFamily::lemma_resolves_to(GenericFamily::Caption, s@);
                }
                return Some(GenericFamily::Caption);
            }
        }
        if n == 8 {
            if eq_str(&l, "ui-serif") {
                proof {
                    GenericFamily::lemma_resolves_to(GenericFamily::UiSerif, s@);
                }
                return Some(GenericFamily::UiSerif);
            }
        }
        if n == 9 {
            if eq_str(&l, "monospace") {
                proof {
                    GenericFamily::lemma_resolves_to(GenericFamily::Monospace, s@);
                }
                return Some(GenericFamily::Monospace);
            }
            if eq_str(&l, "system-ui") {
                proof {
                    GenericFamily::lemma_resolves_to(GenericFamily::SystemUi, s@);
                }
                return Some(GenericFamily::SystemUi);
            }
        }
        if n == 10 {
            if eq_str(&l, "sans-serif") {
                proof {
                    GenericFamily::lemma_resolves_to(GenericFamily::SansSerif, s@);
                }
                return Some(GenericFamily::SansSerif);
            }
            if eq_str(&l, "ui-rounded") {
                proof {
                    GenericFamily::lemma_resolves_to(GenericFamily::UiRounded, s@);
                }
                return Some(GenericFamily::UiRounded);
            }
            if eq_str(&l, "status-bar") {
                proof {
                    GenericFamily::lemma_resolves_to(GenericFamily::StatusBar, s@);
                }
                return Some(GenericFamily::StatusBar);
            }
        }
        if n == 11 {
            if eq_str(&l, "message-box") {
                proof {
                    GenericFamily::lemma_resolves_to(GenericFamily::MessageBox, s@);
                }
                return Some(GenericFamily::MessageBox);
            }
        }
        if n == 12 {
            if eq_str(&l, "ui-monospace") {
                proof {
                    GenericFamily::lemma_resolves_to(GenericFamily::UiMonospace, s@);
                }
                return Some(GenericFamily::UiMonospace);
            }
        }
        if n == 13 {
            if eq_str(&l, "small-caption") {
                proof {
                    GenericFamily::lemma_resolves_to(GenericFamily::SmallCaption, s@);
                }
                return Some(GenericFamily::SmallCaption);
            }
        }
        None
    }
}

/// One entry of a font family list.
#[derive(Debug)]
pub enum SingleFontFamily {
    /// A family given by name, quoted or not.
    Named(Atom),
    /// `generic(<ident>)`.
    Generic(Atom),
    /// A generic or system family keyword.
    Keyword(GenericFamily),
}

/// One entry of a font family list as contracts see it.
pub enum SingleFontFamilyV {
    Named(Seq<char>),
    Generic(Seq<char>),
    Keyword(GenericFamily),
}

impl View for SingleFontFamily {
    type V = SingleFontFamilyV;

    open spec fn view(&self) -> SingleFontFamilyV {
        match self {
            SingleFontFamily::Named(a) => SingleFontFamilyV::Named(a@),
            SingleFontFamily::Generic(a) => SingleFontFamilyV::Generic(a@),
            SingleFontFamily::Keyword(k) => SingleFontFamilyV::Keyword(*k),
        }
    }
}

impl SingleFontFamilyV {
    /// A name is always written as a double-quoted string.
    pub open spec fn text(self) -> Seq<char> {
        match self {
            SingleFontFamilyV::Named(s) => seq!['"'] + s + seq!['"'],
            SingleFontFamilyV::Generic(s) => "generic("@ + s + seq![')'],
            SingleFontFamilyV::Keyword(k) => k.spelling(),
        }
    }

    /// The entry that the tokens at `v` spell.
    pub open spec fn parse_spec(v: ParserView) -> Option<(SingleFontFamilyV, ParserView)> {
        match v.cur() {
            Token::Ident(a) => Some((
                match GenericFamily::resolve(a@) {
                    Some(k) => SingleFontFamilyV::Keyword(k),
                    None => SingleFontFamilyV::Named(a@),
                },
                v.skip(1),
            )),
            Token::Function(f) => if lower(f@) == "generic"@ {
                let w = v.skip(1);
                match w.cur() {
                    Token::Ident(g) => if w.skip(1).cur() is RightParen {
                        Some((SingleFontFamilyV::Generic(g@), w.skip(1).skip(1)))
                    } else {
                        None
                    },
                    _ => None,
                }
            } else {
                None
            },
            Token::Str(a) => Some((SingleFontFamilyV::Named(a@), v.skip(1))),
            _ => None,
        }
    }
}

impl SingleFontFamily {
    pub fn parse(p: &mut Parser) -> (r: Result<Spanned<SingleFontFamily>, ParseError>)
        requires
            old(p)@.wf(),
        ensures
            final(p)@.wf(),
            final(p)@.toks == old(p)@.toks,
            r is Ok <==> SingleFontFamilyV::parse_spec(old(p)@) is Some,
            r matches Ok(f) ==> SingleFontFamilyV::parse_spec(old(p)@) == Some((f.node@, final(p)@)),
            r is Ok ==> final(p)@.pos > old(p)@.pos,
    {
        let start = p.offset();
        let value = match p.cur() {
            Token::Ident(a) => {
                let v = match GenericFamily::from_atom(a) {
                    Some(k) => SingleFontFamily::Keyword(k),
                    None => SingleFontFamily::Named(copy_chars(a)),
                };
                proof {
                    lemma_skip1_progress(p@);
                }
                p.advance();
                v
            },
            Token::Function(f) => {
                let l = to_ascii_lowercase(f);
                if !eq_str(&l, "generic") {
                    return Err(unexpected(p));
                }
                proof {
                    lemma_skip1_progress(p@);
                }
                p.advance();
                let g = match p.cur() {
                    Token::Ident(g) => copy_chars(g),
                    _ => {
                        return Err(unexpected(p));
                    },
                };
                proof {
                    lemma_skip1_progress(p@);
                }
                p.advance();
                if !matches!(p.cur(), Token::RightParen) {
                    return Err(unexpected(p));
                }
                proof {
                    lemma_skip1_progress(p@);
                }
                p.advance();
                SingleFontFamily::Generic(g)
            },
            Token::Str(a) => {
                let v = SingleFontFamily::Named(copy_chars(a));
                proof {
                    lemma_skip1_progress(p@);
                }
                p.advance();
                v
            },
            _ => {
                return Err(unexpected(p));
            },
        };
        let end = p.prev_end();
        Ok(Spanned { node: value, span: Span { start, end } })
    }

    pub fn write_css(&self, w: &mut CssWriter)
        ensures
            final(w)@ == old(w)@.put(self@.text()),
    {
        let ghost w0 = w@;
        match self {
            SingleFontFamily::Named(a) => {
                w.write_char('"');
                w.write_chars(a);
                w.write_char('"');
                proof {
                    lemma_put_put(w0, seq!['"'], a@);
                    lemma_put_put(w0, seq!['"'] + a@, seq!['"']);
                }
            },
            SingleFontFamily::Generic(a) => {
                w.write_str("generic(");
                w.write_chars(a);
                w.write_char(')');
                proof {
                    lemma_put_put(w0, "generic("@, a@);
                    lemma_put_put(w0, "generic("@ + a@, seq![')']);
                }
            },
            SingleFontFamily::Keyword(k) => w.write_str(k.to_atom()),
        }
    }
}

/// The entries of a font family list, held inline when there is one.
#[verifier::external_body]
pub struct FamilyList {
    inner: smallvec::SmallVec<[Spanned<SingleFontFamily>; 1]>,
}

/// The entries a list holds, in order.
pub uninterp spec fn family_items(l: FamilyList) -> Seq<Spanned<SingleFontFamily>>;

impl FamilyList {
    /// Relies on `SmallVec::new`: a vector with no items.
    #[verifier::external_body]
    pub(crate) fn new() -> (r: FamilyList)
        ensures
            family_items(r) == Seq::<Spanned<SingleFontFamily>>::empty(),
    {
        FamilyList { inner: smallvec::SmallVec::new() }
    }

    /// Relies on `SmallVec::push`: the item goes at the end. Growing past
    /// `isize::MAX` bytes panics there; the bound keeps far below that.
    #[verifier::external_body]
    pub(crate) fn push(&mut self, f: Spanned<SingleFontFamily>)
        requires
            family_items(*old(self)).len() < MAX_TOKENS,
        ensures
            family_items(*final(self)) == family_items(*old(self)).push(f),
    {
        self.inner.push(f)
    }

    /// Relies on `SmallVec::len`: the number of items.
    #[verifier::external_body]
    pub(crate) fn len(&self) -> (r: usize)
        ensures
            r == family_items(*self).len(),
    {
        self.inner.len()
    }

    /// Relies on indexing a `SmallVec`: the item at `i`.
    #[verifier::external_body]
    pub(crate) fn get(&self, i: usize) -> (r: &Spanned<SingleFontFamily>)
        requires
            i < family_items(*self).len(),
        ensures
            *r == family_items(*self)[i as int],
    {
        &self.inner[i]
    }
}

pub open spec fn families_view(fs: Seq<Spanned<SingleFontFamily>>) -> Seq<SingleFontFamilyV> {
    Seq::new(fs.len(), |i: int| fs[i].node@)
}

/// `font-family`: a comma-separated list of families; it is never empty.
pub struct FontFamily(pub FamilyList);

impl View for FontFamily {
    type V = Seq<SingleFontFamilyV>;

    open spec fn view(&self) -> Seq<SingleFontFamilyV> {
        families_view(family_items(self.0))
    }
}

/// The families joined by a comma and separating whitespace.
pub open spec fn family_list_text(fs: Seq<SingleFontFamilyV>, minify: bool) -> Seq<char>
    decreases fs.len(),
{
    if fs.len() == 0 {
        Seq::empty()
    } else if fs.len() == 1 {
        fs[0].text()
    } else {
        family_list_text(fs.drop_last(), minify) + seq![','] + gap_text(minify) + fs.last().text()
    }
}

/// The list of families that the tokens at `v` spell.
pub open spec fn family_list_spec(v: ParserView) -> Option<(Seq<SingleFontFamilyV>, ParserView)>
    decreases v.toks.len() - v.pos,
{
    match SingleFontFamilyV::parse_spec(v) {
        Some((f, w)) => if !(w.cur() is Comma) {
            Some((seq![f], w))
        } else if progress(v, w.skip(1)) {
            prepend(seq![f], family_list_spec(w.skip(1)))
        } else {
            None
        },
        None => None,
    }
}

impl FontFamily {
    pub fn parse(p: &mut Parser) -> (r: Result<Spanned<FontFamily>, ParseError>)
        requires
            old(p)@.wf(),
        ensures
            final(p)@.wf(),
            final(p)@.toks == old(p)@.toks,
            r is Ok <==> family_list_spec(old(p)@) is Some,
            r matches Ok(l) ==> family_list_spec(old(p)@) == Some((l.node@, final(p)@)),
    {
        let ghost v0 = p@;
        let start = p.offset();
        let mut list = FamilyList::new();
        assert(prepend(families_view(family_items(list)), family_list_spec(p@)) == family_list_spec(v0)) by {
            match family_list_spec(v0) {
                Some((fs, y)) => assert(families_view(family_items(list)) + fs =~= fs),
                None => {},
            }
        }
        loop
            invariant
                v0 == old(p)@,
                v0.wf(),
                p@.wf(),
                p@.toks == v0.toks,
                p@.pos >= v0.pos,
                family_items(list).len() <= p@.pos - v0.pos,
                family_list_spec(v0) == prepend(families_view(family_items(list)), family_list_spec(p@)),
            decreases p@.toks.len() - p@.pos,
        {
            let ghost before = p@;
            let ghost acc = families_view(family_items(list));
            let f = match SingleFontFamily::parse(p) {
                Ok(f) => f,
                Err(e) => {
                    return Err(e);
                },
            };
            let ghost fv = f.node@;
            assert(family_items(list).len() < MAX_TOKENS) by {
                assert(before.pos < before.toks.len());
            }
            list.push(f);
            assert(families_view(family_items(list)) =~= acc + seq![fv]);
            if !matches!(p.cur(), Token::Comma) {
                let end = p.prev_end();
                return Ok(Spanned { node: FontFamily(list), span: Span { start, end } });
            }
            proof {
                lemma_skip1_progress(p@);
                assert(progress(before, p@.skip(1)));
                match family_list_spec(p@.skip(1)) {
                    Some((fs, y)) => {
                        assert(acc + (seq![fv] + fs) =~= families_view(family_items(list)) + fs);
                    },
                    None => {},
                }
            }
            p.advance();
        }
    }

    pub fn write_css(&self, w: &mut CssWriter)
        ensures
            final(w)@ == old(w)@.put(family_list_text(self@, old(w)@.minify)),
    {
        let ghost w0 = w@;
        let ghost fs = self@;
        let n = self.0.len();
        let mut i: usize = 0;
        while i < n
            invariant
                n == fs.len(),
                fs == self@,
                i <= n,
                w@.minify == w0.minify,
                w@ == w0.put(family_list_text(fs.subrange(0, i as int), w0.minify)),
            decreases n - i,
        {
            let ghost acc = family_list_text(fs.subrange(0, i as int), w0.minify);
            let f = self.0.get(i);
            let ghost sep = if i == 0 { Seq::<char>::empty() } else { seq![','] + gap_text(w0.minify) };
            if i > 0 {
                w.write_char(',');
                w.write_whitespace();
                proof {
                    lemma_space(w0.put(acc).put(seq![',']));
                    lemma_put_put(w0, acc, seq![',']);
                    lemma_put_put(w0, acc + seq![','], gap_text(w0.minify));
                    assert(acc + seq![','] + gap_text(w0.minify) =~= acc + sep);
                }
            } else {
                assert(acc + sep =~= acc);
            }
            f.node.write_css(w);
            proof {
                let t = f.node@.text();
                lemma_put_put(w0, acc + sep, t);
                let next = fs.subrange(0, i + 1);
                assert(next.drop_last() =~= fs.subrange(0, i as int));
                assert(next.last() == f.node@);
                if i == 0 {
                    assert(acc + sep + t =~= t);
                } else {
                    assert(acc + sep + t =~= acc + seq![','] + gap_text(w0.minify) + t);
                }
            }
            i = i + 1;
        }
        proof {
            assert(fs.subrange(0, n as int) =~= fs);
        }
    }
}

} // verus!
