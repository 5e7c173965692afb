use vstd::prelude::*;
use crate::lexer::is_plain_ident;
use crate::diagnostics::{unexpected, ParseError, UnexpectedDuplicateIdent};
use crate::media::{is_word, progress};
use crate::parser::{Parser, ParserView, lemma_skip1_progress, lemma_skip_skip, lemma_skip_wf};
use crate::text::{copy_chars, eq_str, lemma_lower_is_lower, lemma_lower_of_lower, lower, sig, to_ascii_lowercase};
use crate::token::{Atom, Token};
use crate::writer::{lemma_put_empty, lemma_put_put, CssWriter};

verus! {

/// The keywords of `margin-trim`.
#[derive(Clone, Copy, Debug, PartialEq, Eq, Hash, Structural)]
pub enum TrimKeyword {
    Block,
    Inline,
    BlockStart,
    BlockEnd,
    InlineStart,
    InlineEnd,
}

impl TrimKeyword {
    /// The canonical, lower-case spelling.
    pub open spec fn spelling(self) -> Seq<char> {
        match self {
            TrimKeyword::Block => "block"@,
            TrimKeyword::Inline => "inline"@,
            TrimKeyword::BlockStart => "block-start"@,
            TrimKeyword::BlockEnd => "block-end"@,
            TrimKeyword::InlineStart => "inline-start"@,
            TrimKeyword::InlineEnd => "inline-end"@,
        }
    }

    /// The variant spelled `s`, in any case.
    pub open spec fn resolve(s: Seq<char>) -> Option<Self> {
        if exists|v: TrimKeyword| v.spelling() == lower(s) {
            Some(choose|v: TrimKeyword| v.spelling() == lower(s))
        } else {
            None
        }
    }

    /// No two variants share a spelling, and every spelling is in lower case.
    pub proof fn lemma_spellings()
        ensures
            forall|a: TrimKeyword, b: TrimKeyword| a.spelling() == b.spelling() ==> a == b,
            forall|a: TrimKeyword| #[trigger] lower(a.spelling()) == a.spelling(),
    {
        reveal_strlit("block");
        reveal_strlit("inline");
        reveal_strlit("block-start");
        reveal_strlit("block-end");
        reveal_strlit("inline-start");
        reveal_strlit("inline-end");
        assert forall|a: TrimKeyword, b: TrimKeyword| a.spelling() == b.spelling() implies a == b by {
            assert(sig(a.spelling()) == sig(b.spelling()));
        }
        assert forall|a: TrimKeyword| #[trigger] lower(a.spelling()) == a.spelling() by {
            lemma_lower_of_lower(a.spelling());
        }
    }

    /// A text whose lower-case form is the spelling of `v` resolves to `v`.
    pub proof fn lemma_resolves_to(v: Self, s: Seq<char>)
        requires
            v.spelling() == lower(s),
        ensures
            TrimKeyword::resolve(s) == Some(v),
    {
        TrimKeyword::lemma_spellings();
        let w = choose|w: TrimKeyword| w.spelling() == lower(s);
        assert(w.spelling() == v.spelling());
    }

    /// Every keyword resolves back from its own canonical spelling.
    pub proof fn lemma_resolve_spelling(v: Self)
        ensures
            TrimKeyword::resolve(v.spelling()) == Some(v),
    {
        TrimKeyword::lemma_spellings();
        TrimKeyword::lemma_resolves_to(v, v.spelling());
    }

    /// Each canonical spelling is one identifier, so it is read back as a single token.
    pub proof fn lemma_spelling_is_identifier(v: Self)
        ensures
            is_plain_ident(v.spelling()),
    {
        reveal_strlit("block");
        reveal_strlit("inline");
        reveal_strlit("block-start");
        reveal_strlit("block-end");
        reveal_strlit("inline-start");
        reveal_strlit("inline-end");
    }

    /// Resolution ignores ASCII case: a spelling in any case resolves as its lower-case form.
    pub proof fn lemma_resolve_ignores_case(s: Seq<char>)
        ensures
            TrimKeyword::resolve(s) == TrimKeyword::resolve(lower(s)),
    {
        lemma_lower_is_lower(s);
    }

    /// The canonical spelling, for writing.
    pub fn to_atom(&self) -> (r: &'static str)
        ensures
            r@ == self.spelling(),
    {
        match self {
            TrimKeyword::Block => "block",
            TrimKeyword::Inline => "inline",
            TrimKeyword::BlockStart => "block-start",
            TrimKeyword::BlockEnd => "block-end",
            TrimKeyword::InlineStart => "inline-start",
            TrimKeyword::InlineEnd => "inline-end",
        }
    }

    /// Resolves a keyword, ASCII case ignored; only spellings of the same length are compared.
    pub fn from_atom(s: &Atom) -> (r: Option<Self>)
        ensures
            r == TrimKeyword::resolve(s@),
    {
        let l = to_ascii_lowercase(s);
        proof {
            TrimKeyword::lemma_spellings();
            reveal_strlit("block");
            reveal_strlit("inline");
            reveal_strlit("block-start");
            reveal_strlit("block-end");
            reveal_strlit("inline-start");
            reveal_strlit("inline-end");
        }
        let n = l.len();
        if n == 5 {
            if eq_str(&l, "block") {
                proof {
                    TrimKeyword::lemma_resolves_to(TrimKeyword::Block, s@);
                }
                return Some(TrimKeyword::Block);
            }
        }
        if n == 6 {
            if eq_str(&l, "inline") {
                proof {
                    TrimKeyword::lemma_resolves_to(TrimKeyword::Inline, s@);
                }
                return Some(TrimKeyword::Inline);
            }
        }
        if n == 9 {
            if eq_str(&l, "block-end") {
                proof {
                    TrimKeyword::lemma_resolves_to(TrimKeyword::BlockEnd, s@);
                }
                return Some(TrimKeyword::BlockEnd);
            }
        }
        if n == 10 {
            if eq_str(&l, "inline-end") {
                proof {
                    TrimKeyword::lemma_resolves_to(TrimKeyword::InlineEnd, s@);
                }
                return Some(TrimKeyword::InlineEnd);
            }
        }
        if n == 11 {
            if eq_str(&l, "block-start") {
                proof {
                    TrimKeyword::lemma_resolves_to(TrimKeyword::BlockStart, s@);
                }
                return Some(TrimKeyword::BlockStart);
            }
        }
        if n == 12 {
            if eq_str(&l, "inline-start") {
                proof {
                    TrimKeyword::lemma_resolves_to(TrimKeyword::InlineStart, s@);
                }
                return Some(TrimKeyword::InlineStart);
            }
        }
        None
    }
}

impl TrimKeyword {
    /// The flag a keyword sets.
    pub open spec fn bits(self) -> u8 {
        match self {
            TrimKeyword::Block => 1,
            TrimKeyword::Inline => 2,
            TrimKeyword::BlockStart => 4,
            TrimKeyword::BlockEnd => 8,
            TrimKeyword::InlineStart => 16,
            TrimKeyword::InlineEnd => 32,
        }
    }

    pub fn to_bits(self) -> (r: u8)
        ensures
            r == self.bits(),
    {
        match self {
            TrimKeyword::Block => 1,
            TrimKeyword::Inline => 2,
            TrimKeyword::BlockStart => 4,
            TrimKeyword::BlockEnd => 8,
            TrimKeyword::InlineStart => 16,
            TrimKeyword::InlineEnd => 32,
        }
    }
}

/// `margin-trim`: `block` or `inline` alone, or a set of the four sides.
#[derive(Clone, Copy, Debug, PartialEq, Eq, Hash, Structural, Default)]
pub struct MarginTrim {
    pub bits: u8,
}

pub const BLOCK: u8 = 1;
pub const INLINE: u8 = 2;
pub const BLOCK_START: u8 = 4;
pub const BLOCK_END: u8 = 8;
pub const INLINE_START: u8 = 16;
pub const INLINE_END: u8 = 32;
/// All four sides.
pub const ALL_SIDES: u8 = 60;

/// The flag a token sets, if it is one of the keywords.
pub open spec fn trim_flag(t: Token) -> Option<u8> {
    match t {
        Token::Ident(a) => match TrimKeyword::resolve(a@) {
            Some(k) => Some(k.bits()),
            None => None,
        },
        _ => None,
    }
}

/// Whether a token is one of the four side keywords.
pub open spec fn is_side(t: Token) -> bool {
    match trim_flag(t) {
        Some(f) => f >= 4,
        None => false,
    }
}

/// Reads side keywords from `v` on, with `acc` set so far. Each side may come
/// once; the list ends once all four are set or before a token that is no side.
pub open spec fn trim_sides(v: ParserView, acc: u8) -> Option<(u8, ParserView)>
    decreases v.toks.len() - v.pos,
{
    match trim_flag(v.cur()) {
        Some(f) => if f < 4 || acc & f != 0 {
            None
        } else {
            let b = acc | f;
            let w = v.skip(1);
            if b == ALL_SIDES || !is_side(w.cur()) || !progress(v, w) {
                Some((b, w))
            } else {
                trim_sides(w, b)
            }
        },
        None => None,
    }
}

/// Whether reading sides from `v` on, with `acc` set so far, meets a side
/// that is already set.
pub open spec fn trim_sides_dup(v: ParserView, acc: u8) -> bool
    decreases v.toks.len() - v.pos,
{
    match trim_flag(v.cur()) {
        Some(f) => if f < 4 {
            false
        } else if acc & f != 0 {
            true
        } else {
            let b = acc | f;
            let w = v.skip(1);
            if b == ALL_SIDES || !is_side(w.cur()) || !progress(v, w) {
                false
            } else {
                trim_sides_dup(w, b)
            }
        },
        None => false,
    }
}

/// Adds a word to a space-separated text when `present`.
pub open spec fn add_word(acc: Seq<char>, present: bool, word: Seq<char>) -> Seq<char> {
    if !present {
        acc
    } else if acc.len() == 0 {
        word
    } else {
        acc + seq![' '] + word
    }
}

/// What writing one word adds, given whether a word came before.
pub open spec fn word_piece(any_before: bool, present: bool, word: Seq<char>) -> Seq<char> {
    if !present {
        Seq::empty()
    } else if any_before {
        seq![' '] + word
    } else {
        word
    }
}

fn put_word(w: &mut CssWriter, any_before: bool, present: bool, word: &str)
    ensures
        final(w)@ == old(w)@.put(word_piece(any_before, present, word@)),
{
    if present {
        if any_before {
            let ghost w0 = w@;
            w.write_char(' ');
            w.write_str(word);
            proof {
                lemma_put_put(w0, seq![' '], word@);
            }
        } else {
            w.write_str(word);
        }
    } else {
        proof {
            lemma_put_empty(w@);
        }
    }
}

impl MarginTrim {
    /// The keywords set, in the fixed order block, inline, block-start,
    /// block-end, inline-start, inline-end, one space apart.
    pub open spec fn text(self) -> Seq<char> {
        let t0 = add_word(Seq::empty(), self.bits & 1 != 0, "block"@);
        let t1 = add_word(t0, self.bits & 2 != 0, "inline"@);
        let t2 = add_word(t1, self.bits & 4 != 0, "block-start"@);
        let t3 = add_word(t2, self.bits & 8 != 0, "block-end"@);
        let t4 = add_word(t3, self.bits & 16 != 0, "inline-start"@);
        add_word(t4, self.bits & 32 != 0, "inline-end"@)
    }

    /// The value that the tokens at `v` spell: `block` or `inline` alone, or
    /// one to four distinct sides.
    pub open spec fn parse_spec(v: ParserView) -> Option<(MarginTrim, ParserView)> {
        match trim_flag(v.cur()) {
            Some(f) => if f < 4 {
                Some((MarginTrim { bits: f }, v.skip(1)))
            } else {
                match trim_sides(v, 0) {
                    Some((b, w)) => Some((MarginTrim { bits: b }, w)),
                    None => None,
                }
            },
            None => None,
        }
    }

    pub fn none() -> (r: MarginTrim)
        ensures
            r.bits == 0,
    {
        MarginTrim { bits: 0 }
    }

    pub fn block() -> (r: MarginTrim)
        ensures
            r.bits == BLOCK,
    {
        MarginTrim { bits: BLOCK }
    }

    pub fn inline() -> (r: MarginTrim)
        ensures
            r.bits == INLINE,
    {
        MarginTrim { bits: INLINE }
    }

    /// All four sides: what `block-start block-end inline-start inline-end` gives.
    pub fn all() -> (r: MarginTrim)
        ensures
            r.bits == ALL_SIDES,
    {
        MarginTrim { bits: ALL_SIDES }
    }

    pub fn is_none(&self) -> (r: bool)
        ensures
            r == (self.bits == 0),
    {
        self.bits == 0
    }

    pub fn is_all(&self) -> (r: bool)
        ensures
            r == (self.bits & ALL_SIDES == ALL_SIDES),
    {
        self.bits & ALL_SIDES == ALL_SIDES
    }

    /// Whether every flag of `other` is set here.
    pub fn contains(&self, other: MarginTrim) -> (r: bool)
        ensures
            r == (self.bits & other.bits == other.bits),
    {
        self.bits & other.bits == other.bits
    }

    /// Whether a flag of `other` is set here.
    pub fn intersects(&self, other: MarginTrim) -> (r: bool)
        ensures
            r == (self.bits & other.bits != 0),
    {
        self.bits & other.bits != 0
    }

    pub fn union(&self, other: MarginTrim) -> (r: MarginTrim)
        ensures
            r.bits == self.bits | other.bits,
    {
        MarginTrim { bits: self.bits | other.bits }
    }

    fn flag_of(t: &Token) -> (r: Option<u8>)
        ensures
            r == trim_flag(*t),
    {
        match t {
            Token::Ident(a) => match TrimKeyword::from_atom(a) {
                Some(k) => Some(k.to_bits()),
                None => None,
            },
            _ => None,
        }
    }

    pub fn parse(p: &mut Parser) -> (r: Result<MarginTrim, ParseError>)
        requires
            old(p)@.wf(),
        ensures
            final(p)@.wf(),
            final(p)@.toks == old(p)@.toks,
            r is Ok <==> MarginTrim::parse_spec(old(p)@) is Some,
            r matches Ok(m) ==> MarginTrim::parse_spec(old(p)@) == Some((m, final(p)@)),
            r matches Err(e) ==> (e is UnexpectedDuplicateIdent <==> trim_sides_dup(old(p)@, 0)),
            r matches Err(e) ==> (e is UnexpectedDuplicateIdent || e is Unexpected),
    {
        let ghost v0 = p@;
        let first = match MarginTrim::flag_of(p.cur()) {
            Some(f) => f,
            None => {
                return Err(unexpected(p));
            },
        };
        if first < 4 {
            p.advance();
            return Ok(MarginTrim { bits: first });
        }
        let mut value: u8 = 0;
        loop
            invariant
                v0 == old(p)@,
                p@.wf(),
                p@.toks == v0.toks,
                trim_flag(v0.cur()) matches Some(f) && f >= 4,
                trim_sides(v0, 0) == trim_sides(p@, value),
                trim_sides_dup(v0, 0) == trim_sides_dup(p@, value),
            decreases p@.toks.len() - p@.pos,
        {
            let ghost before = p@;
            let f = match MarginTrim::flag_of(p.cur()) {
                Some(f) => f,
                None => {
                    return Err(unexpected(p));
                },
            };
            if f < 4 {
                return Err(unexpected(p));
            }
            if value & f != 0 {
                let word = match p.cur() {
                    Token::Ident(a) => copy_chars(a),
                    _ => Vec::new(),
                };
                return Err(ParseError::UnexpectedDuplicateIdent(UnexpectedDuplicateIdent(word, p.span())));
            }
            value = value | f;
            proof {
                lemma_skip1_progress(p@);
            }
            p.advance();
            let next = MarginTrim::flag_of(p.cur());
            let side_next = match next {
                Some(g) => g >= 4,
                None => false,
            };
            if value == ALL_SIDES || !side_next {
                return Ok(MarginTrim { bits: value });
            }
            assert(progress(before, p@));
        }
    }

    pub fn write_css(&self, w: &mut CssWriter)
        ensures
            final(w)@ == old(w)@.put(self.text()),
    {
        let ghost w0 = w@;
        let b = self.bits;
        let ghost t0 = add_word(Seq::empty(), b & 1 != 0, "block"@);
        let ghost t1 = add_word(t0, b & 2 != 0, "inline"@);
        let ghost t2 = add_word(t1, b & 4 != 0, "block-start"@);
        let ghost t3 = add_word(t2, b & 8 != 0, "block-end"@);
        let ghost t4 = add_word(t3, b & 16 != 0, "inline-start"@);
        proof {
            reveal_strlit("block");
            reveal_strlit("inline");
            reveal_strlit("block-start");
            reveal_strlit("block-end");
            reveal_strlit("inline-start");
            reveal_strlit("inline-end");
            lemma_put_empty(w0);
        }
        put_word(w, false, b & 1 != 0, "block");
        proof {
            assert(Seq::<char>::empty() + word_piece(false, b & 1 != 0, "block"@) =~= t0);
        }
        let mut any = b & 1 != 0;
        put_word(w, any, b & 2 != 0, "inline");
        proof {
            lemma_put_put(w0, t0, word_piece(any, b & 2 != 0, "inline"@));
            assert(t0 + word_piece(any, b & 2 != 0, "inline"@) =~= t1);
        }
        any = any || b & 2 != 0;
        put_word(w, any, b & 4 != 0, "block-start");
        proof {
            lemma_put_put(w0, t1, word_piece(any, b & 4 != 0, "block-start"@));
            assert(t1 + word_piece(any, b & 4 != 0, "block-start"@) =~= t2);
        }
        any = any || b & 4 != 0;
        put_word(w, any, b & 8 != 0, "block-end");
        proof {
            lemma_put_put(w0, t2, word_piece(any, b & 8 != 0, "block-end"@));
            assert(t2 + word_piece(any, b & 8 != 0, "block-end"@) =~= t3);
        }
        any = any || b & 8 != 0;
        put_word(w, any, b & 16 != 0, "inline-start");
        proof {
            lemma_put_put(w0, t3, word_piece(any, b & 16 != 0, "inline-start"@));
            assert(t3 + word_piece(any, b & 16 != 0, "inline-start"@) =~= t4);
        }
        any = any || b & 16 != 0;
        put_word(w, any, b & 32 != 0, "inline-end");
        proof {
            lemma_put_put(w0, t4, word_piece(any, b & 32 != 0, "inline-end"@));
            assert(t4 + word_piece(any, b & 32 != 0, "inline-end"@) =~= self.text());
        }
    }
}

/// The four side keywords, in this order, read as one value: all four sides.
pub proof fn lemma_all_sides(v: ParserView)
    requires
        v.wf(),
        is_word(v.cur(), "block-start"@),
        is_word(v.tok(1), "block-end"@),
        is_word(v.tok(2), "inline-start"@),
        is_word(v.tok(3), "inline-end"@),
    ensures
        MarginTrim::parse_spec(v) == Some((MarginTrim { bits: ALL_SIDES }, v.skip(4))),
{
    lemma_skip_wf(v, 1);
    lemma_skip_wf(v, 2);
    lemma_skip_wf(v, 3);
    lemma_skip_skip(v, 1, 1);
    lemma_skip_skip(v, 2, 1);
    lemma_skip_skip(v, 3, 1);
    let v1 = v.skip(1);
    let v2 = v.skip(2);
    let v3 = v.skip(3);
    lemma_skip1_progress(v);
    lemma_skip1_progress(v1);
    lemma_skip1_progress(v2);
    lemma_skip1_progress(v3);
    match (v.cur(), v1.cur(), v2.cur(), v3.cur()) {
        (Token::Ident(a), Token::Ident(b), Token::Ident(c), Token::Ident(d)) => {
            TrimKeyword::lemma_resolves_to(TrimKeyword::BlockStart, a@);
            TrimKeyword::lemma_resolves_to(TrimKeyword::BlockEnd, b@);
            TrimKeyword::lemma_resolves_to(TrimKeyword::InlineStart, c@);
            TrimKeyword::lemma_resolves_to(TrimKeyword::InlineEnd, d@);
        },
        _ => {},
    }
    assert(0u8 & 4u8 == 0 && (0u8 | 4u8) == 4u8) by (bit_vector);
    assert(4u8 & 8u8 == 0 && (4u8 | 8u8) == 12u8) by (bit_vector);
    assert(12u8 & 16u8 == 0 && (12u8 | 16u8) == 28u8) by (bit_vector);
    assert(28u8 & 32u8 == 0 && (28u8 | 32u8) == 60u8) by (bit_vector);
    assert(trim_sides(v3, 28) == Some((60u8, v.skip(4))));
    assert(trim_sides(v2, 12) == trim_sides(v3, 28));
    assert(trim_sides(v1, 4) == trim_sides(v2, 12));
    assert(trim_sides(v, 0) == trim_sides(v1, 4));
}

/// `block` or `inline` is a whole value: reading stops right after it, so in
/// a full parse any token that follows, other than the end of input, is an error.
pub proof fn lemma_coarse_is_terminal(v: ParserView)
    requires
        v.wf(),
        is_word(v.cur(), "block"@) || is_word(v.cur(), "inline"@),
    ensures
        MarginTrim::parse_spec(v) == Some(
            (MarginTrim { bits: if is_word(v.cur(), "block"@) { BLOCK } else { INLINE } }, v.skip(1)),
        ),
        v.skip(1).cur() == v.tok(1),
{
    lemma_skip_wf(v, 1);
    match v.cur() {
        Token::Ident(a) => {
            if lower(a@) == "block"@ {
                TrimKeyword::lemma_resolves_to(TrimKeyword::Block, a@);
            } else {
                TrimKeyword::lemma_resolves_to(TrimKeyword::Inline, a@);
            }
        },
        _ => {},
    }
}

/// The sides of a set, in canonical order.
pub open spec fn side_list(b: u8) -> Seq<u8> {
    let l0 = if b & 4 != 0 { seq![4u8] } else { Seq::<u8>::empty() };
    let l1 = if b & 8 != 0 { l0.push(8u8) } else { l0 };
    let l2 = if b & 16 != 0 { l1.push(16u8) } else { l1 };
    if b & 32 != 0 { l2.push(32u8) } else { l2 }
}

pub open spec fn is_side_flag(f: u8) -> bool {
    f == 4 || f == 8 || f == 16 || f == 32
}

pub open spec fn flag_sum(ws: Seq<u8>) -> int
    decreases ws.len(),
{
    if ws.len() == 0 {
        0
    } else {
        ws[0] + flag_sum(ws.drop_first())
    }
}

proof fn lemma_or_disjoint(a: u8, f: u8) by (bit_vector)
    requires
        f == 4 || f == 8 || f == 16 || f == 32,
        a < f,
        a & 3 == 0,
    ensures
        a & f == 0,
        a | f == a + f,
        (a | f) & 3 == 0,
{
}

proof fn lemma_side_split(b: u8) by (bit_vector)
    requires
        b & 195 == 0,
    ensures
        b == (b & 4) + (b & 8) + (b & 16) + (b & 32),
        b & 4 == 0 || b & 4 == 4,
        b & 8 == 0 || b & 8 == 8,
        b & 16 == 0 || b & 16 == 16,
        b & 32 == 0 || b & 32 == 32,
{
}

/// Side keywords in increasing flag order, each new, read one after another.
proof fn lemma_read_sides(v: ParserView, acc: u8, ws: Seq<u8>)
    requires
        v.wf(),
        ws.len() > 0,
        forall|k: int| 0 <= k < ws.len() ==> is_side_flag(#[trigger] ws[k]),
        forall|k: int| 0 <= k < ws.len() - 1 ==> #[trigger] ws[k] < ws[k + 1],
        acc < ws[0],
        acc & 3 == 0,
        acc + flag_sum(ws) <= 60,
        forall|k: int| 0 <= k < ws.len() ==> trim_flag(v.tok(k as nat)) == Some(#[trigger] ws[k]),
        acc + flag_sum(ws) == 60 || !is_side(v.tok(ws.len())),
    ensures
        trim_sides(v, acc) == Some(((acc + flag_sum(ws)) as u8, v.skip(ws.len()))),
    decreases ws.len(),
{
    let f = ws[0];
    lemma_or_disjoint(acc, f);
    lemma_skip_wf(v, 1);
    assert(trim_flag(v.tok(0)) == Some(f));
    assert(v.tok(0) == v.cur());
    assert(!(v.cur() is Eof));
    lemma_skip1_progress(v);
    let b = acc | f;
    let w = v.skip(1);
    let rest = ws.drop_first();
    assert(flag_sum(ws) == f + flag_sum(rest));
    if ws.len() == 1 {
        assert(flag_sum(rest) == 0);
        assert(w.cur() == v.tok(1));
    } else {
        assert(rest[0] == ws[1]);
        assert(flag_sum(rest) >= rest[0]) by {
            lemma_flag_sum_ge_first(rest);
        }
        assert(b != 60);
        assert(w.cur() == v.tok(1));
        assert(trim_flag(v.tok(1)) == Some(ws[1]));
        assert(is_side(w.cur()));
        assert(progress(v, w));
        assert forall|k: int| 0 <= k < rest.len() implies trim_flag(w.tok(k as nat)) == Some(#[trigger] rest[k]) by {
            lemma_skip_skip(v, 1, k as nat);
            assert(trim_flag(v.tok((k + 1) as nat)) == Some(ws[k + 1]));
        }
        assert(forall|k: int| 0 <= k < rest.len() ==> is_side_flag(#[trigger] rest[k]) && rest[k] == ws[k + 1]);
        assert(b < rest[0]) by {
            assert(f == 4 || f == 8 || f == 16 || f == 32);
            assert(ws[1] == 4 || ws[1] == 8 || ws[1] == 16 || ws[1] == 32);
        }
        lemma_skip_skip(v, 1, rest.len());
        lemma_read_sides(w, b, rest);
        lemma_skip_skip(v, 1, rest.len());
    }
}

proof fn lemma_flag_sum_ge_first(ws: Seq<u8>)
    requires
        ws.len() > 0,
    ensures
        flag_sum(ws) >= ws[0],
    decreases ws.len(),
{
    lemma_flag_sum_nonneg(ws.drop_first());
}

proof fn lemma_flag_sum_nonneg(ws: Seq<u8>)
    ensures
        flag_sum(ws) >= 0,
    decreases ws.len(),
{
    if ws.len() > 0 {
        lemma_flag_sum_nonneg(ws.drop_first());
    }
}

/// A set of sides read back from the tokens of its canonical text (its side
/// keywords in canonical order, then a token that is no side) is the same set.
pub proof fn lemma_margin_trim_round_trip(x: MarginTrim, v: ParserView)
    requires
        v.wf(),
        x.bits != 0,
        x.bits & 195 == 0,
        forall|k: int| 0 <= k < side_list(x.bits).len() ==> trim_flag(v.tok(k as nat)) == Some(#[trigger] side_list(x.bits)[k]),
        x.bits == ALL_SIDES || !is_side(v.tok(side_list(x.bits).len())),
    ensures
        MarginTrim::parse_spec(v) == Some((x, v.skip(side_list(x.bits).len()))),
{
    let b = x.bits;
    lemma_side_split(b);
    let ws = side_list(b);
    assert(ws.len() > 0);
    assert(flag_sum(ws) == b) by {
        reveal_with_fuel(flag_sum, 5);
        if b & 4 != 0 {
            if b & 8 != 0 {
                if b & 16 != 0 {
                    if b & 32 != 0 {
                        assert(ws =~= seq![4u8, 8u8, 16u8, 32u8]);
                    } else {
                        assert(ws =~= seq![4u8, 8u8, 16u8]);
                    }
                } else if b & 32 != 0 {
                    assert(ws =~= seq![4u8, 8u8, 32u8]);
                } else {
                    assert(ws =~= seq![4u8, 8u8]);
                }
            } else if b & 16 != 0 {
                if b & 32 != 0 {
                    assert(ws =~= seq![4u8, 16u8, 32u8]);
                } else {
                    assert(ws =~= seq![4u8, 16u8]);
                }
            } else if b & 32 != 0 {
                assert(ws =~= seq![4u8, 32u8]);
            } else {
                assert(ws =~= seq![4u8]);
            }
        } else if b & 8 != 0 {
            if b & 16 != 0 {
                if b & 32 != 0 {
                    assert(ws =~= seq![8u8, 16u8, 32u8]);
                } else {
                    assert(ws =~= seq![8u8, 16u8]);
                }
            } else if b & 32 != 0 {
                assert(ws =~= seq![8u8, 32u8]);
            } else {
                assert(ws =~= seq![8u8]);
            }
        } else if b & 16 != 0 {
            if b & 32 != 0 {
                assert(ws =~= seq![16u8, 32u8]);
            } else {
                assert(ws =~= seq![16u8]);
            }
        } else {
            assert(ws =~= seq![32u8]);
        }
    }
    assert(forall|k: int| 0 <= k < ws.len() ==> is_side_flag(#[trigger] ws[k]));
    assert(forall|k: int| 0 <= k < ws.len() - 1 ==> #[trigger] ws[k] < ws[k + 1]);
    assert(0u8 & 3 == 0) by (bit_vector);
    lemma_read_sides(v, 0, ws);
    assert(trim_flag(v.cur()) == Some(ws[0]));
}

} // verus!
