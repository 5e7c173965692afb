use vstd::prelude::*;
use crate::lexer::is_plain_ident;
use crate::line_width::LineWidth;
use crate::text::{eq_str, lemma_lower_is_lower, lemma_lower_of_lower, lower, sig, to_ascii_lowercase};
use crate::token::Atom;
use crate::writer::{lemma_put_empty, lemma_put_put, CssWriter};

verus! {

/// `<line-style>`.
#[derive(Clone, Copy, Debug, PartialEq, Eq, Hash, Structural)]
pub enum LineStyle {
    NoneStyle,
    Hidden,
    Dotted,
    Dashed,
    Solid,
    Double,
    Groove,
    Ridge,
    Inset,
    Outset,
}

impl LineStyle {
    /// The canonical, lower-case spelling.
    pub open spec fn spelling(self) -> Seq<char> {
        match self {
            LineStyle::NoneStyle => "none"@,
            LineStyle::Hidden => "hidden"@,
            LineStyle::Dotted => "dotted"@,
            LineStyle::Dashed => "dashed"@,
            LineStyle::Solid => "solid"@,
            LineStyle::Double => "double"@,
            LineStyle::Groove => "groove"@,
            LineStyle::Ridge => "ridge"@,
            LineStyle::Inset => "inset"@,
            LineStyle::Outset => "outset"@,
        }
    }

    /// The variant spelled `s`, in any case.
    pub open spec fn resolve(s: Seq<char>) -> Option<Self> {
        if exists|v: LineStyle| v.spelling() == lower(s) {
            Some(choose|v: LineStyle| v.spelling() == lower(s))
        } else {
            None
        }
    }

    /// No two variants share a spelling, and every spelling is in lower case.
    pub proof fn lemma_spellings()
        ensures
            forall|a: LineStyle, b: LineStyle| a.spelling() == b.spelling() ==> a == b,
            forall|a: LineStyle| #[trigger] lower(a.spelling()) == a.spelling(),
    {
        reveal_strlit("none");
        reveal_strlit("hidden");
        reveal_strlit("dotted");
        reveal_strlit("dashed");
        reveal_strlit("solid");
        reveal_strlit("double");
        reveal_strlit("groove");
        reveal_strlit("ridge");
        reveal_strlit("inset");
        reveal_strlit("outset");
        assert forall|a: LineStyle, b: LineStyle| a.spelling() == b.spelling() implies a == b by {
            assert(sig(a.spelling()) == sig(b.spelling()));
        }
        assert forall|a: LineStyle| #[trigger] lower(a.spelling()) == a.spelling() by {
            lemma_lower_of_lower(a.spelling());
        }
    }

    /// A text whose lower-case form is the spelling of `v` resolves to `v`.
    pub proof fn lemma_resolves_to(v: Self, s: Seq<char>)
        requires
            v.spelling() == lower(s),
        ensures
            LineStyle::resolve(s) == Some(v),
    {
        LineStyle::lemma_spellings();
        let w = choose|w: LineStyle| w.spelling() == lower(s);
        assert(w.spelling() == v.spelling());
    }

    /// Every keyword resolves back from its own canonical spelling.
    pub proof fn lemma_resolve_spelling(v: Self)
        ensures
            LineStyle::resolve(v.spelling()) == Some(v),
    {
        LineStyle::lemma_spellings();
        LineStyle::lemma_resolves_to(v, v.spelling());
    }

    /// Each canonical spelling is one identifier, so it is read back as a single token.
    pub proof fn lemma_spelling_is_identifier(v: Self)
        ensures
            is_plain_ident(v.spelling()),
    {
        reveal_strlit("none");
        reveal_strlit("hidden");
        reveal_strlit("dotted");
        reveal_strlit("dashed");
        reveal_strlit("solid");
        reveal_strlit("double");
        reveal_strlit("groove");
        reveal_strlit("ridge");
        reveal_strlit("inset");
        reveal_strlit("outset");
    }

    /// Resolution ignores ASCII case: a spelling in any case resolves as its lower-case form.
    pub proof fn lemma_resolve_ignores_case(s: Seq<char>)
        ensures
            LineStyle::resolve(s) == LineStyle::resolve(lower(s)),
    {
        lemma_lower_is_lower(s);
    }

    /// The canonical spelling, for writing.
    pub fn to_atom(&self) -> (r: &'static str)
        ensures
            r@ == self.spelling(),
    {
        match self {
            LineStyle::NoneStyle => "none",
            LineStyle::Hidden => "hidden",
            LineStyle::Dotted => "dotted",
            LineStyle::Dashed => "dashed",
            LineStyle::Solid => "solid",
            LineStyle::Double => "double",
            LineStyle::Groove => "groove",
            LineStyle::Ridge => "ridge",
            LineStyle::Inset => "inset",
            LineStyle::Outset => "outset",
        }
    }

    /// Resolves a keyword, ASCII case ignored; only spellings of the same length are compared.
    pub fn from_atom(s: &Atom) -> (r: Option<Self>)
        ensures
            r == LineStyle::resolve(s@),
    {
        let l = to_ascii_lowercase(s);
        proof {
            LineStyle::lemma_spellings();
            reveal_strlit("none");
            reveal_strlit("hidden");
            reveal_strlit("dotted");
            reveal_strlit("dashed");
            reveal_strlit("solid");
            reveal_strlit("double");
            reveal_strlit("groove");
            reveal_strlit("ridge");
            reveal_strlit("inset");
            reveal_strlit("outset");
        }
        let n = l.len();
        if n == 4 {
            if eq_str(&l, "none") {
                proof {
                    LineStyle::lemma_resolves_to(LineStyle::NoneStyle, s@);
                }
                return Some(LineStyle::NoneStyle);
            }
        }
        if n == 5 {
            if eq_str(&l, "solid") {
                proof {
                    LineStyle::lemma_resolves_to(LineStyle::Solid, s@);
                }
                return Some(LineStyle::Solid);
            }
            if eq_str(&l, "ridge") {
                proof {
                    LineStyle::lemma_resolves_to(LineStyle::Ridge, s@);
                }
                return Some(LineStyle::Ridge);
            }
            if eq_str(&l, "inset") {
                proof {
                    LineStyle::lemma_resolves_to(LineStyle::Inset, s@);
                }
                return Some(LineStyle::Inset);
            }
        }
        if n == 6 {
            if eq_str(&l, "hidden") {
                proof {
                    LineStyle::lemma_resolves_to(LineStyle::Hidden, s@);
                }
                return Some(LineStyle::Hidden);
            }
            if eq_str(&l, "dotted") {
                proof {
                    LineStyle::lemma_resolves_to(LineStyle::Dotted, s@);
                }
                return Some(LineStyle::Dotted);
            }
            if eq_str(&l, "dashed") {
                proof {
                    LineStyle::lemma_resolves_to(LineStyle::Dashed, s@);
                }
                return Some(LineStyle::Dashed);
            }
            if eq_str(&l, "double") {
                proof {
                    LineStyle::lemma_resolves_to(LineStyle::Double, s@);
                }
                return Some(LineStyle::Double);
            }
            if eq_str(&l, "groove") {
                proof {
                    LineStyle::lemma_resolves_to(LineStyle::Groove, s@);
                }
                return Some(LineStyle::Groove);
            }
            if eq_str(&l, "outset") {
                proof {
                    LineStyle::lemma_resolves_to(LineStyle::Outset, s@);
                }
                return Some(LineStyle::Outset);
            }
        }
        None
    }
}

/// A longhand of a shorthand: given explicitly, or left to its initial value.
#[derive(Debug)]
pub enum Shorthand<T> {
    Implicit,
    Explicit(T),
}

impl<T> Shorthand<T> {
    pub fn is_explicit(&self) -> (r: bool)
        ensures
            r == (self is Explicit),
    {
        match self {
            Shorthand::Explicit(_) => true,
            Shorthand::Implicit => false,
        }
    }
}

/// `border` and its per-side forms: a width, a style and a color, each optional.
/// The color is kept as the text it was written in.
#[derive(Debug)]
pub struct BorderShorthand {
    pub line_width: Shorthand<LineWidth>,
    pub line_style: Shorthand<LineStyle>,
    pub color: Shorthand<Atom>,
}

/// What writing one part adds, given whether a part came before.
pub open spec fn part_piece(any_before: bool, present: bool, text: Seq<char>) -> Seq<char> {
    if !present {
        Seq::empty()
    } else if any_before {
        seq![' '] + text
    } else {
        text
    }
}

impl BorderShorthand {
    /// The explicit parts, width, style, color, one space apart.
    pub open spec fn text(self) -> Seq<char> {
        let a = self.line_width is Explicit;
        let b = self.line_style is Explicit;
        let c = self.color is Explicit;
        let wt = match self.line_width {
            Shorthand::Explicit(x) => x.text(),
            Shorthand::Implicit => Seq::empty(),
        };
        let st = match self.line_style {
            Shorthand::Explicit(x) => x.spelling(),
            Shorthand::Implicit => Seq::empty(),
        };
        let ct = match self.color {
            Shorthand::Explicit(x) => x@,
            Shorthand::Implicit => Seq::empty(),
        };
        part_piece(false, a, wt) + part_piece(a, b, st) + part_piece(a || b, c, ct)
    }

    pub fn write_css(&self, w: &mut CssWriter)
        ensures
            final(w)@ == old(w)@.put(self.text()),
    {
        let ghost w0 = w@;
        let a = self.line_width.is_explicit();
        let b = self.line_style.is_explicit();
        let ghost s1 = match self.line_width {
            Shorthand::Explicit(x) => x.text(),
            Shorthand::Implicit => Seq::<char>::empty(),
        };
        let ghost s2 = part_piece(a, b, match self.line_style {
            Shorthand::Explicit(x) => x.spelling(),
            Shorthand::Implicit => Seq::<char>::empty(),
        });
        let ghost ct = match &self.color {
            Shorthand::Explicit(x) => x@,
            Shorthand::Implicit => Seq::<char>::empty(),
        };
        proof {
            lemma_put_empty(w0);
        }
        if let Shorthand::Explicit(lw) = &self.line_width {
            lw.write_css(w);
        }
        if let Shorthand::Explicit(ls) = &self.line_style {
            let ghost w1 = w@;
            if a {
                w.write_char(' ');
            }
            w.write_str(ls.to_atom());
            proof {
                if a {
                    lemma_put_put(w1, seq![' '], ls.spelling());
                }
            }
        }
        proof {
            lemma_put_put(w0, s1, s2);
        }
        if let Shorthand::Explicit(c) = &self.color {
            let ghost w2 = w@;
            if a || b {
                w.write_char(' ');
            }
            w.write_chars(c);
            proof {
                if a || b {
                    lemma_put_put(w2, seq![' '], c@);
                }
            }
        }
        proof {
            lemma_put_put(w0, s1 + s2, part_piece(a || b, self.color is Explicit, ct));
            assert(part_piece(false, a, s1) =~= s1);
        }
    }
}

} // verus!
