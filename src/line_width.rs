use vstd::prelude::*;
use crate::lexer::is_plain_ident;
use crate::diagnostics::{unexpected, ParseError};
use crate::parser::{Parser, ParserView};
use crate::text::{eq_str, lemma_lower_is_lower, lemma_lower_of_lower, lower, sig, to_ascii_lowercase};
use crate::token::{Atom, Number, Token};
use crate::writer::{lemma_put_empty, lemma_put_put, CssWriter};

verus! {

/// A unit of length.
#[derive(Clone, Copy, Debug, PartialEq, Eq, Hash, Structural)]
pub enum LengthUnit {
    Px,
    Em,
    Rem,
    Ex,
    Rex,
    Cap,
    Ch,
    Ic,
    Lh,
    Rlh,
    Vw,
    Vh,
    Vi,
    Vb,
    Vmin,
    Vmax,
    Cm,
    Mm,
    Q,
    In,
    Pt,
    Pc,
}

impl LengthUnit {
    /// The canonical, lower-case spelling.
    pub open spec fn spelling(self) -> Seq<char> {
        match self {
            LengthUnit::Px => "px"@,
            LengthUnit::Em => "em"@,
            LengthUnit::Rem => "rem"@,
            LengthUnit::Ex => "ex"@,
            LengthUnit::Rex => "rex"@,
            LengthUnit::Cap => "cap"@,
            LengthUnit::Ch => "ch"@,
            LengthUnit::Ic => "ic"@,
            LengthUnit::Lh => "lh"@,
            LengthUnit::Rlh => "rlh"@,
            LengthUnit::Vw => "vw"@,
            LengthUnit::Vh => "vh"@,
            LengthUnit::Vi => "vi"@,
            LengthUnit::Vb => "vb"@,
            LengthUnit::Vmin => "vmin"@,
            LengthUnit::Vmax => "vmax"@,
            LengthUnit::Cm => "cm"@,
            LengthUnit::Mm => "mm"@,
            LengthUnit::Q => "q"@,
            LengthUnit::In => "in"@,
            LengthUnit::Pt => "pt"@,
            LengthUnit::Pc => "pc"@,
        }
    }

    /// The variant spelled `s`, in any case.
    pub open spec fn resolve(s: Seq<char>) -> Option<Self> {
        if exists|v: LengthUnit| v.spelling() == lower(s) {
            Some(choose|v: LengthUnit| v.spelling() == lower(s))
        } else {
            None
        }
    }

    /// No two variants share a spelling, and every spelling is in lower case.
    pub proof fn lemma_spellings()
        ensures
            forall|a: LengthUnit, b: LengthUnit| a.spelling() == b.spelling() ==> a == b,
            forall|a: LengthUnit| #[trigger] lower(a.spelling()) == a.spelling(),
    {
        reveal_strlit("px");
        reveal_strlit("em");
        reveal_strlit("rem");
        reveal_strlit("ex");
        reveal_strlit("rex");
        reveal_strlit("cap");
        reveal_strlit("ch");
        reveal_strlit("ic");
        reveal_strlit("lh");
        reveal_strlit("rlh");
        reveal_strlit("vw");
        reveal_strlit("vh");
        reveal_strlit("vi");
        reveal_strlit("vb");
        reveal_strlit("vmin");
        reveal_strlit("vmax");
        reveal_strlit("cm");
        reveal_strlit("mm");
        reveal_strlit("q");
        reveal_strlit("in");
        reveal_strlit("pt");
        reveal_strlit("pc");
        assert forall|a: LengthUnit, b: LengthUnit| a.spelling() == b.spelling() implies a == b by {
            assert(sig(a.spelling()) == sig(b.spelling()));
        }
        assert forall|a: LengthUnit| #[trigger] lower(a.spelling()) == a.spelling() by {
            lemma_lower_of_lower(a.spelling());
        }
    }

    /// A text whose lower-case form is the spelling of `v` resolves to `v`.
    pub proof fn lemma_resolves_to(v: Self, s: Seq<char>)
        requires
            v.spelling() == lower(s),
        ensures
            LengthUnit::resolve(s) == Some(v),
    {
        LengthUnit::lemma_spellings();
        let w = choose|w: LengthUnit| w.spelling() == lower(s);
        assert(w.spelling() == v.spelling());
    }

    /// Every keyword resolves back from its own canonical spelling.
    pub proof fn lemma_resolve_spelling(v: Self)
        ensures
            LengthUnit::resolve(v.spelling()) == Some(v),
    {
        LengthUnit::lemma_spellings();
        LengthUnit::lemma_resolves_to(v, v.spelling());
    }

    /// Each canonical spelling is one identifier, so it is read back as a single token.
    pub proof fn lemma_spelling_is_identifier(v: Self)
        ensures
            is_plain_ident(v.spelling()),
    {
        reveal_strlit("px");
        reveal_strlit("em");
        reveal_strlit("rem");
        reveal_strlit("ex");
        reveal_strlit("rex");
        reveal_strlit("cap");
        reveal_strlit("ch");
        reveal_strlit("ic");
        reveal_strlit("lh");
        reveal_strlit("rlh");
        reveal_strlit("vw");
        reveal_strlit("vh");
        reveal_strlit("vi");
        reveal_strlit("vb");
        reveal_strlit("vmin");
        reveal_strlit("vmax");
        reveal_strlit("cm");
        reveal_strlit("mm");
        reveal_strlit("q");
        reveal_strlit("in");
        reveal_strlit("pt");
        reveal_strlit("pc");
    }

    /// Resolution ignores ASCII case: a spelling in any case resolves as its lower-case form.
    pub proof fn lemma_resolve_ignores_case(s: Seq<char>)
        ensures
            LengthUnit::resolve(s) == LengthUnit::resolve(lower(s)),
    {
        lemma_lower_is_lower(s);
    }

    /// The canonical spelling, for writing.
    pub fn to_atom(&self) -> (r: &'static str)
        ensures
            r@ == self.spelling(),
    {
        match self {
            LengthUnit::Px => "px",
            LengthUnit::Em => "em",
            LengthUnit::Rem => "rem",
            LengthUnit::Ex => "ex",
            LengthUnit::Rex => "rex",
            LengthUnit::Cap => "cap",
            LengthUnit::Ch => "ch",
            LengthUnit::Ic => "ic",
            LengthUnit::Lh => "lh",
            LengthUnit::Rlh => "rlh",
            LengthUnit::Vw => "vw",
            LengthUnit::Vh => "vh",
            LengthUnit::Vi => "vi",
            LengthUnit::Vb => "vb",
            LengthUnit::Vmin => "vmin",
            LengthUnit::Vmax => "vmax",
            LengthUnit::Cm => "cm",
            LengthUnit::Mm => "mm",
            LengthUnit::Q => "q",
            LengthUnit::In => "in",
            LengthUnit::Pt => "pt",
            LengthUnit::Pc => "pc",
        }
    }

    /// Resolves a keyword, ASCII case ignored; only spellings of the same length are compared.
    pub fn from_atom(s: &Atom) -> (r: Option<Self>)
        ensures
            r == LengthUnit::resolve(s@),
    {
        let l = to_ascii_lowercase(s);
        proof {
            LengthUnit::lemma_spellings();
            reveal_strlit("px");
            reveal_strlit("em");
            reveal_strlit("rem");
            reveal_strlit("ex");
            reveal_strlit("rex");
            reveal_strlit("cap");
            reveal_strlit("ch");
            reveal_strlit("ic");
            reveal_strlit("lh");
            reveal_strlit("rlh");
            reveal_strlit("vw");
            reveal_strlit("vh");
            reveal_strlit("vi");
            reveal_strlit("vb");
            reveal_strlit("vmin");
            reveal_strlit("vmax");
            reveal_strlit("cm");
            reveal_strlit("mm");
            reveal_strlit("q");
            reveal_strlit("in");
            reveal_strlit("pt");
            reveal_strlit("pc");
        }
        let n = l.len();
        if n == 1 {
            if eq_str(&l, "q") {
                proof {
                    LengthUnit::lemma_resolves_to(LengthUnit::Q, s@);
                }
                return Some(LengthUnit::Q);
            }
        }
        if n == 2 {
            if eq_str(&l, "px") {
                proof {
                    LengthUnit::lemma_resolves_to(LengthUnit::Px, s@);
                }
                return Some(LengthUnit::Px);
            }
            if eq_str(&l, "em") {
                proof {
                    LengthUnit::lemma_resolves_to(LengthUnit::Em, s@);
                }
                return Some(LengthUnit::Em);
            }
            if eq_str(&l, "ex") {
                proof {
                    LengthUnit::lemma_resolves_to(LengthUnit::Ex, s@);
                }
                return Some(LengthUnit::Ex);
            }
            if eq_str(&l, "ch") {
                proof {
                    LengthUnit::lemma_resolves_to(LengthUnit::Ch, s@);
                }
                return Some(LengthUnit::Ch);
            }
            if eq_str(&l, "ic") {
                proof {
                    LengthUnit::lemma_resolves_to(LengthUnit::Ic, s@);
                }
                return Some(LengthUnit::Ic);
            }
            if eq_str(&l, "lh") {
                proof {
                    LengthUnit::lemma_resolves_to(LengthUnit::Lh, s@);
                }
                return Some(LengthUnit::Lh);
            }
            if eq_str(&l, "vw") {
                proof {
                    LengthUnit::lemma_resolves_to(LengthUnit::Vw, s@);
                }
                return Some(LengthUnit::Vw);
            }
            if eq_str(&l, "vh") {
                proof {
                    LengthUnit::lemma_resolves_to(LengthUnit::Vh, s@);
                }
                return Some(LengthUnit::Vh);
            }
            if eq_str(&l, "vi") {
                proof {
                    LengthUnit::lemma_resolves_to(LengthUnit::Vi, s@);
                }
                return Some(LengthUnit::Vi);
            }
            if eq_str(&l, "vb") {
                proof {
                    LengthUnit::lemma_resolves_to(LengthUnit::Vb, s@);
                }
                return Some(LengthUnit::Vb);
            }
            if eq_str(&l, "cm") {
                proof {
                    LengthUnit::lemma_resolves_to(LengthUnit::Cm, s@);
                }
                return Some(LengthUnit::Cm);
            }
            if eq_str(&l, "mm") {
                proof {
                    LengthUnit::lemma_resolves_to(LengthUnit::Mm, s@);
                }
                return Some(LengthUnit::Mm);
            }
            if eq_str(&l, "in") {
                proof {
                    LengthUnit::lemma_resolves_to(LengthUnit::In, s@);
                }
                return Some(LengthUnit::In);
            }
            if eq_str(&l, "pt") {
                proof {
                    LengthUnit::lemma_resolves_to(LengthUnit::Pt, s@);
                }
                return Some(LengthUnit::Pt);
            }
            if eq_str(&l, "pc") {
                proof {
                    LengthUnit::lemma_resolves_to(LengthUnit::Pc, s@);
                }
                return Some(LengthUnit::Pc);
            }
        }
        if n == 3 {
            if eq_str(&l, "rem") {
                proof {
                    LengthUnit::lemma_resolves_to(LengthUnit::Rem, s@);
                }
                return Some(LengthUnit::Rem);
            }
            if eq_str(&l, "rex") {
                proof {
                    LengthUnit::lemma_resolves_to(LengthUnit::Rex, s@);
                }
                return Some(LengthUnit::Rex);
            }
            if eq_str(&l, "cap") {
                proof {
                    LengthUnit::lemma_resolves_to(LengthUnit::Cap, s@);
                }
                return Some(LengthUnit::Cap);
            }
            if eq_str(&l, "rlh") {
                proof {
                    LengthUnit::lemma_resolves_to(LengthUnit::Rlh, s@);
                }
                return Some(LengthUnit::Rlh);
            }
        }
        if n == 4 {
            if eq_str(&l, "vmin") {
                proof {
                    LengthUnit::lemma_resolves_to(LengthUnit::Vmin, s@);
                }
                return Some(LengthUnit::Vmin);
            }
            if eq_str(&l, "vmax") {
                proof {
                    LengthUnit::lemma_resolves_to(LengthUnit::Vmax, s@);
                }
                return Some(LengthUnit::Vmax);
            }
        }
        None
    }
}

/// A length: a number and its unit; a bare zero has no unit.
#[derive(Clone, Copy, Debug, PartialEq, Eq, Hash, Structural)]
pub struct Length {
    pub value: Number,
    pub unit: Option<LengthUnit>,
}

impl Length {
    pub open spec fn text(self) -> Seq<char> {
        self.value.text() + match self.unit {
            Some(u) => u.spelling(),
            None => Seq::empty(),
        }
    }

    pub fn write_css(&self, w: &mut CssWriter)
        ensures
            final(w)@ == old(w)@.put(self.text()),
    {
        let ghost w0 = w@;
        self.value.write_css(w);
        match self.unit {
            Some(u) => {
                w.write_str(u.to_atom());
                proof {
                    lemma_put_put(w0, self.value.text(), u.spelling());
                }
            },
            None => {
                proof {
                    assert(self.value.text() + Seq::<char>::empty() =~= self.value.text());
                }
            },
        }
    }
}

/// `<line-width>`: a keyword or a length that is not negative.
#[derive(Clone, Copy, Debug, PartialEq, Eq, Hash, Structural)]
pub enum LineWidth {
    Thin,
    Medium,
    Thick,
    Length(Length),
}

impl LineWidth {
    pub open spec fn text(self) -> Seq<char> {
        match self {
            LineWidth::Thin => "thin"@,
            LineWidth::Medium => "medium"@,
            LineWidth::Thick => "thick"@,
            LineWidth::Length(l) => l.text(),
        }
    }

    /// The line width a single token gives, if any.
    pub open spec fn of_token(t: Token) -> Option<LineWidth> {
        match t {
            Token::Ident(a) => {
                let l = lower(a@);
                if l == "thin"@ {
                    Some(LineWidth::Thin)
                } else if l == "medium"@ {
                    Some(LineWidth::Medium)
                } else if l == "thick"@ {
                    Some(LineWidth::Thick)
                } else {
                    None
                }
            },
            Token::Dimension(n, u) => match LengthUnit::resolve(u@) {
                Some(unit) => if !n.negative() || n.is_zero() {
                    Some(LineWidth::Length(Length { value: n, unit: Some(unit) }))
                } else {
                    None
                },
                None => None,
            },
            Token::Number(n) => if n.is_zero() {
                Some(LineWidth::Length(Length { value: n, unit: None }))
            } else {
                None
            },
            _ => None,
        }
    }

    pub fn from_token(t: &Token) -> (r: Option<LineWidth>)
        ensures
            r == LineWidth::of_token(*t),
    {
        match t {
            Token::Ident(a) => {
                let l = to_ascii_lowercase(a);
                if eq_str(&l, "thin") {
                    Some(LineWidth::Thin)
                } else if eq_str(&l, "medium") {
                    Some(LineWidth::Medium)
                } else if eq_str(&l, "thick") {
                    Some(LineWidth::Thick)
                } else {
                    None
                }
            },
            Token::Dimension(n, u) => match LengthUnit::from_atom(u) {
                Some(unit) => if !n.is_negative() || n.is_zero_exec() {
                    Some(LineWidth::Length(Length { value: *n, unit: Some(unit) }))
                } else {
                    None
                },
                None => None,
            },
            Token::Number(n) => if n.is_zero_exec() {
                Some(LineWidth::Length(Length { value: *n, unit: None }))
            } else {
                None
            },
            _ => None,
        }
    }

    /// The cursor after a line width, if the current token is one.
    pub open spec fn parse_spec(v: ParserView) -> Option<(LineWidth, ParserView)> {
        match LineWidth::of_token(v.cur()) {
            Some(x) => Some((x, v.skip(1))),
            None => None,
        }
    }

    pub fn parse(p: &mut Parser) -> (r: Result<LineWidth, ParseError>)
        requires
            old(p)@.wf(),
        ensures
            final(p)@.wf(),
            final(p)@.toks == old(p)@.toks,
            r is Ok <==> LineWidth::parse_spec(old(p)@) is Some,
            r matches Ok(x) ==> LineWidth::parse_spec(old(p)@) == Some((x, final(p)@)),
    {
        match LineWidth::from_token(p.cur()) {
            Some(x) => {
                p.advance();
                Ok(x)
            },
            None => Err(unexpected(p)),
        }
    }

    pub fn write_css(&self, w: &mut CssWriter)
        ensures
            final(w)@ == old(w)@.put(self.text()),
    {
        match self {
            LineWidth::Thin => w.write_str("thin"),
            LineWidth::Medium => w.write_str("medium"),
            LineWidth::Thick => w.write_str("thick"),
            LineWidth::Length(l) => l.write_css(w),
        }
    }
}

/// Line widths one space apart.
pub open spec fn widths_text(vs: Seq<LineWidth>) -> Seq<char>
    decreases vs.len(),
{
    if vs.len() == 0 {
        Seq::empty()
    } else if vs.len() == 1 {
        vs[0].text()
    } else {
        widths_text(vs.drop_last()) + seq![' '] + vs.last().text()
    }
}

/// Up to `n` line widths in a row from `v` on, and the cursor after them.
pub open spec fn take_widths(v: ParserView, n: nat) -> (Seq<LineWidth>, ParserView)
    decreases n,
{
    if n == 0 {
        (Seq::empty(), v)
    } else {
        match LineWidth::of_token(v.cur()) {
            Some(x) => {
                let (rest, y) = take_widths(v.skip(1), (n - 1) as nat);
                (seq![x] + rest, y)
            },
            None => (Seq::empty(), v),
        }
    }
}

pub proof fn lemma_take_widths_len(v: ParserView, n: nat)
    ensures
        take_widths(v, n).0.len() <= n,
    decreases n,
{
    if n > 0 {
        lemma_take_widths_len(v.skip(1), (n - 1) as nat);
    }
}

/// Reads up to `max` line widths in a row, stopping at the first token that is none.
pub fn parse_widths(p: &mut Parser, max: usize) -> (r: Vec<LineWidth>)
    requires
        old(p)@.wf(),
    ensures
        final(p)@.wf(),
        final(p)@.toks == old(p)@.toks,
        take_widths(old(p)@, max as nat) == (r@, final(p)@),
{
    let ghost v0 = p@;
    let mut vs: Vec<LineWidth> = Vec::new();
    let mut i: usize = 0;
    while i < max
        invariant
            v0 == old(p)@,
            p@.wf(),
            p@.toks == v0.toks,
            i <= max,
            take_widths(v0, max as nat) == (vs@ + take_widths(p@, (max - i) as nat).0, take_widths(p@, (max - i) as nat).1),
        decreases max - i,
    {
        let ghost before = p@;
        match LineWidth::from_token(p.cur()) {
            Some(x) => {
                p.advance();
                proof {
                    let (rest, y) = take_widths(p@, (max - i - 1) as nat);
                    assert(take_widths(before, (max - i) as nat) == (seq![x] + rest, y));
                    assert(vs@ + (seq![x] + rest) =~= vs@.push(x) + rest);
                }
                vs.push(x);
                i = i + 1;
            },
            None => {
                proof {
                    assert(vs@ + Seq::<LineWidth>::empty() =~= vs@);
                }
                return vs;
            },
        }
    }
    proof {
        assert(vs@ + Seq::<LineWidth>::empty() =~= vs@);
    }
    vs
}

/// Writes line widths one space apart.
pub fn write_widths(vs: &Vec<LineWidth>, w: &mut CssWriter)
    ensures
        final(w)@ == old(w)@.put(widths_text(vs@)),
{
    let ghost w0 = w@;
    let n = vs.len();
    let mut i: usize = 0;
    proof {
        lemma_put_empty(w0);
        assert(widths_text(vs@.subrange(0, 0)) == Seq::<char>::empty());
    }
    while i < n
        invariant
            n == vs@.len(),
            i <= n,
            w@ == w0.put(widths_text(vs@.subrange(0, i as int))),
        decreases n - i,
    {
        let ghost acc = widths_text(vs@.subrange(0, i as int));
        let ghost next = vs@.subrange(0, i + 1);
        assert(next.drop_last() =~= vs@.subrange(0, i as int));
        if i > 0 {
            w.write_char(' ');
            vs[i].write_css(w);
            proof {
                lemma_put_put(w0, acc, seq![' ']);
                lemma_put_put(w0, acc + seq![' '], vs@[i as int].text());
            }
        } else {
            vs[i].write_css(w);
            proof {
                assert(acc =~= Seq::<char>::empty());
                lemma_put_put(w0, acc, vs@[i as int].text());
                assert(acc + vs@[i as int].text() =~= vs@[i as int].text());
            }
        }
        i = i + 1;
    }
    proof {
        assert(vs@.subrange(0, n as int) =~= vs@);
    }
}

/// The four sides that one to four values give, top, right, bottom, left:
/// one value fills all; two give top and bottom, then right and left; three
/// give top, right and left, bottom; four give each.
pub open spec fn expand_rect(vs: Seq<LineWidth>) -> (LineWidth, LineWidth, LineWidth, LineWidth) {
    if vs.len() == 1 {
        (vs[0], vs[0], vs[0], vs[0])
    } else if vs.len() == 2 {
        (vs[0], vs[1], vs[0], vs[1])
    } else if vs.len() == 3 {
        (vs[0], vs[1], vs[2], vs[1])
    } else {
        (vs[0], vs[1], vs[2], vs[3])
    }
}

/// The fewest values that expand back to the four sides.
pub open spec fn shortest_rect(t: LineWidth, r: LineWidth, b: LineWidth, l: LineWidth) -> Seq<LineWidth> {
    if r == l {
        if t == b {
            if t == r {
                seq![t]
            } else {
                seq![t, r]
            }
        } else {
            seq![t, r, b]
        }
    } else {
        seq![t, r, b, l]
    }
}

/// The two sides of an axis that one or two values give.
pub open spec fn expand_sides(vs: Seq<LineWidth>) -> (LineWidth, LineWidth) {
    if vs.len() == 1 {
        (vs[0], vs[0])
    } else {
        (vs[0], vs[1])
    }
}

/// The fewest values that expand back to the two sides.
pub open spec fn shortest_sides(a: LineWidth, b: LineWidth) -> Seq<LineWidth> {
    if a == b {
        seq![a]
    } else {
        seq![a, b]
    }
}

/// Writes a 4-value shorthand: every side in canonical output, the fewest
/// values that expand back to them when minifying.
pub fn write_rect(t: LineWidth, r: LineWidth, b: LineWidth, l: LineWidth, w: &mut CssWriter)
    ensures
        final(w)@ == old(w)@.put(widths_text(
            if old(w)@.minify { shortest_rect(t, r, b, l) } else { seq![t, r, b, l] },
        )),
{
    let mut vs: Vec<LineWidth> = Vec::new();
    vs.push(t);
    if !w.is_minifying() || r != l || t != b || t != r {
        vs.push(r);
    }
    if !w.is_minifying() || r != l || t != b {
        vs.push(b);
    }
    if !w.is_minifying() || r != l {
        vs.push(l);
    } else if t != b {
    }
    let ghost want = if w@.minify { shortest_rect(t, r, b, l) } else { seq![t, r, b, l] };
    assert(vs@ =~= want);
    write_widths(&vs, w);
}

/// Writes a 2-value shorthand: both sides in canonical output, one value when
/// minifying and they are equal.
pub fn write_sides(a: LineWidth, b: LineWidth, w: &mut CssWriter)
    ensures
        final(w)@ == old(w)@.put(widths_text(if old(w)@.minify { shortest_sides(a, b) } else { seq![a, b] })),
{
    let mut vs: Vec<LineWidth> = Vec::new();
    vs.push(a);
    if !w.is_minifying() || a != b {
        vs.push(b);
    }
    let ghost want = if w@.minify { shortest_sides(a, b) } else { seq![a, b] };
    assert(vs@ =~= want);
    write_widths(&vs, w);
}

/// Collapsing four sides to the fewest values and expanding those again gives
/// the four sides back; at most four values are used.
pub proof fn lemma_rect_collapse_expand(t: LineWidth, r: LineWidth, b: LineWidth, l: LineWidth)
    ensures
        expand_rect(shortest_rect(t, r, b, l)) == (t, r, b, l),
        1 <= shortest_rect(t, r, b, l).len() <= 4,
{
}

/// One to four values fill the four sides by the fill rule, and collapsing
/// the result takes no more values than were given and expands the same.
pub proof fn lemma_rect_expand_collapse(vs: Seq<LineWidth>)
    requires
        1 <= vs.len() <= 4,
    ensures
        ({
            let (t, r, b, l) = expand_rect(vs);
            &&& vs.len() == 1 ==> t == vs[0] && r == vs[0] && b == vs[0] && l == vs[0]
            &&& vs.len() == 2 ==> t == vs[0] && r == vs[1] && b == vs[0] && l == vs[1]
            &&& vs.len() == 3 ==> t == vs[0] && r == vs[1] && b == vs[2] && l == vs[1]
            &&& vs.len() == 4 ==> t == vs[0] && r == vs[1] && b == vs[2] && l == vs[3]
            &&& shortest_rect(t, r, b, l).len() <= vs.len()
            &&& expand_rect(shortest_rect(t, r, b, l)) == expand_rect(vs)
        }),
{
}

/// The same for the two sides of an axis.
pub proof fn lemma_sides_collapse_expand(a: LineWidth, b: LineWidth)
    ensures
        expand_sides(shortest_sides(a, b)) == (a, b),
        1 <= shortest_sides(a, b).len() <= 2,
{
}

/// Dropping values from the end never makes the text longer.
pub proof fn lemma_widths_text_prefix(vs: Seq<LineWidth>, k: int)
    requires
        0 <= k <= vs.len(),
    ensures
        widths_text(vs.subrange(0, k)).len() <= widths_text(vs).len(),
    decreases vs.len() - k,
{
    if k < vs.len() {
        lemma_widths_text_prefix(vs, k + 1);
        let s = vs.subrange(0, k + 1);
        assert(s.drop_last() =~= vs.subrange(0, k));
    } else {
        assert(vs.subrange(0, k) =~= vs);
    }
}

} // verus!
