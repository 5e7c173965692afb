use vstd::prelude::*;
use crate::diagnostics::{unexpected, ParseError};
use crate::line_width::{
    expand_rect, expand_sides, lemma_rect_collapse_expand, lemma_sides_collapse_expand, lemma_take_widths_len,
    lemma_widths_text_prefix, parse_widths, shortest_rect, shortest_sides, take_widths, widths_text, write_rect,
    write_sides, LineWidth,
};
use crate::parser::{Parser, ParserView};
use crate::writer::CssWriter;

verus! {

/// `border-top-width`: one line width.
#[derive(Clone, Copy, Debug, PartialEq, Eq, Hash, Structural)]
pub struct BorderTopWidth(pub LineWidth);

impl BorderTopWidth {
    pub fn parse(p: &mut Parser) -> (r: Result<BorderTopWidth, ParseError>)
        requires
            old(p)@.wf(),
        ensures
            final(p)@.wf(),
            final(p)@.toks == old(p)@.toks,
            r is Ok <==> LineWidth::parse_spec(old(p)@) is Some,
            r matches Ok(x) ==> LineWidth::parse_spec(old(p)@) == Some((x.0, final(p)@)),
    {
        let x = LineWidth::parse(p)?;
        Ok(BorderTopWidth(x))
    }

    pub fn write_css(&self, w: &mut CssWriter)
        ensures
            final(w)@ == old(w)@.put(self.0.text()),
    {
        self.0.write_css(w)
    }
}

/// `border-bottom-width`: one line width.
#[derive(Clone, Copy, Debug, PartialEq, Eq, Hash, Structural)]
pub struct BorderBottomWidth(pub LineWidth);

impl BorderBottomWidth {
    pub fn parse(p: &mut Parser) -> (r: Result<BorderBottomWidth, ParseError>)
        requires
            old(p)@.wf(),
        ensures
            final(p)@.wf(),
            final(p)@.toks == old(p)@.toks,
            r is Ok <==> LineWidth::parse_spec(old(p)@) is Some,
            r matches Ok(x) ==> LineWidth::parse_spec(old(p)@) == Some((x.0, final(p)@)),
    {
        let x = LineWidth::parse(p)?;
        Ok(BorderBottomWidth(x))
    }

    pub fn write_css(&self, w: &mut CssWriter)
        ensures
            final(w)@ == old(w)@.put(self.0.text()),
    {
        self.0.write_css(w)
    }
}

/// `border-left-width`: one line width.
#[derive(Clone, Copy, Debug, PartialEq, Eq, Hash, Structural)]
pub struct BorderLeftWidth(pub LineWidth);

impl BorderLeftWidth {
    pub fn parse(p: &mut Parser) -> (r: Result<BorderLeftWidth, ParseError>)
        requires
            old(p)@.wf(),
        ensures
            final(p)@.wf(),
            final(p)@.toks == old(p)@.toks,
            r is Ok <==> LineWidth::parse_spec(old(p)@) is Some,
            r matches Ok(x) ==> LineWidth::parse_spec(old(p)@) == Some((x.0, final(p)@)),
    {
        let x = LineWidth::parse(p)?;
        Ok(BorderLeftWidth(x))
    }

    pub fn write_css(&self, w: &mut CssWriter)
        ensures
            final(w)@ == old(w)@.put(self.0.text()),
    {
        self.0.write_css(w)
    }
}

/// `border-right-width`: one line width.
#[derive(Clone, Copy, Debug, PartialEq, Eq, Hash, Structural)]
pub struct BorderRightWidth(pub LineWidth);

impl BorderRightWidth {
    pub fn parse(p: &mut Parser) -> (r: Result<BorderRightWidth, ParseError>)
        requires
            old(p)@.wf(),
        ensures
            final(p)@.wf(),
            final(p)@.toks == old(p)@.toks,
            r is Ok <==> LineWidth::parse_spec(old(p)@) is Some,
            r matches Ok(x) ==> LineWidth::parse_spec(old(p)@) == Some((x.0, final(p)@)),
    {
        let x = LineWidth::parse(p)?;
        Ok(BorderRightWidth(x))
    }

    pub fn write_css(&self, w: &mut CssWriter)
        ensures
            final(w)@ == old(w)@.put(self.0.text()),
    {
        self.0.write_css(w)
    }
}

/// `border-block-start-width`: one line width.
#[derive(Clone, Copy, Debug, PartialEq, Eq, Hash, Structural)]
pub struct BorderBlockStartWidth(pub LineWidth);

impl BorderBlockStartWidth {
    pub fn parse(p: &mut Parser) -> (r: Result<BorderBlockStartWidth, ParseError>)
        requires
            old(p)@.wf(),
        ensures
            final(p)@.wf(),
            final(p)@.toks == old(p)@.toks,
            r is Ok <==> LineWidth::parse_spec(old(p)@) is Some,
            r matches Ok(x) ==> LineWidth::parse_spec(old(p)@) == Some((x.0, final(p)@)),
    {
        let x = LineWidth::parse(p)?;
        Ok(BorderBlockStartWidth(x))
    }

    pub fn write_css(&self, w: &mut CssWriter)
        ensures
            final(w)@ == old(w)@.put(self.0.text()),
    {
        self.0.write_css(w)
    }
}

/// `border-block-end-width`: one line width.
#[derive(Clone, Copy, Debug, PartialEq, Eq, Hash, Structural)]
pub struct BorderBlockEndWidth(pub LineWidth);

impl BorderBlockEndWidth {
    pub fn parse(p: &mut Parser) -> (r: Result<BorderBlockEndWidth, ParseError>)
        requires
            old(p)@.wf(),
        ensures
            final(p)@.wf(),
            final(p)@.toks == old(p)@.toks,
            r is Ok <==> LineWidth::parse_spec(old(p)@) is Some,
            r matches Ok(x) ==> LineWidth::parse_spec(old(p)@) == Some((x.0, final(p)@)),
    {
        let x = LineWidth::parse(p)?;
        Ok(BorderBlockEndWidth(x))
    }

    pub fn write_css(&self, w: &mut CssWriter)
        ensures
            final(w)@ == old(w)@.put(self.0.text()),
    {
        self.0.write_css(w)
    }
}

/// `border-inline-start-width`: one line width.
#[derive(Clone, Copy, Debug, PartialEq, Eq, Hash, Structural)]
pub struct BorderInlineStartWidth(pub LineWidth);

impl BorderInlineStartWidth {
    pub fn parse(p: &mut Parser) -> (r: Result<BorderInlineStartWidth, ParseError>)
        requires
            old(p)@.wf(),
        ensures
            final(p)@.wf(),
            final(p)@.toks == old(p)@.toks,
            r is Ok <==> LineWidth::parse_spec(old(p)@) is Some,
            r matches Ok(x) ==> LineWidth::parse_spec(old(p)@) == Some((x.0, final(p)@)),
    {
        let x = LineWidth::parse(p)?;
        Ok(BorderInlineStartWidth(x))
    }

    pub fn write_css(&self, w: &mut CssWriter)
        ensures
            final(w)@ == old(w)@.put(self.0.text()),
    {
        self.0.write_css(w)
    }
}

/// `border-inline-end-width`: one line width.
#[derive(Clone, Copy, Debug, PartialEq, Eq, Hash, Structural)]
pub struct BorderInlineEndWidth(pub LineWidth);

impl BorderInlineEndWidth {
    pub fn parse(p: &mut Parser) -> (r: Result<BorderInlineEndWidth, ParseError>)
        requires
            old(p)@.wf(),
        ensures
            final(p)@.wf(),
            final(p)@.toks == old(p)@.toks,
            r is Ok <==> LineWidth::parse_spec(old(p)@) is Some,
            r matches Ok(x) ==> LineWidth::parse_spec(old(p)@) == Some((x.0, final(p)@)),
    {
        let x = LineWidth::parse(p)?;
        Ok(BorderInlineEndWidth(x))
    }

    pub fn write_css(&self, w: &mut CssWriter)
        ensures
            final(w)@ == old(w)@.put(self.0.text()),
    {
        self.0.write_css(w)
    }
}

/// `border-block-width`: the two sides of one logical axis, from one or two values.
#[derive(Clone, Copy, Debug, PartialEq, Eq, Hash, Structural)]
pub struct BorderBlockWidth(pub BorderBlockStartWidth, pub BorderBlockEndWidth);

impl BorderBlockWidth {
    /// The sides that the tokens at `v` give: one or two line widths.
    pub open spec fn parse_spec(v: ParserView) -> Option<(BorderBlockWidth, ParserView)> {
        let (vs, y) = take_widths(v, 2);
        if vs.len() == 0 {
            None
        } else {
            let (x0, x1) = expand_sides(vs);
            Some((BorderBlockWidth(BorderBlockStartWidth(x0), BorderBlockEndWidth(x1)), y))
        }
    }

    pub open spec fn text(self, minify: bool) -> Seq<char> {
        widths_text(if minify { shortest_sides(self.0.0, self.1.0) } else { seq![self.0.0, self.1.0] })
    }

    pub fn parse(p: &mut Parser) -> (r: Result<BorderBlockWidth, ParseError>)
        requires
            old(p)@.wf(),
        ensures
            final(p)@.wf(),
            final(p)@.toks == old(p)@.toks,
            r is Ok <==> BorderBlockWidth::parse_spec(old(p)@) is Some,
            r matches Ok(x) ==> BorderBlockWidth::parse_spec(old(p)@) == Some((x, final(p)@)),
    {
        proof {
            lemma_take_widths_len(p@, 2);
        }
        let vs = parse_widths(p, 2);
        if vs.len() == 0 {
            return Err(unexpected(p));
        }
        let x0 = vs[0];
        let x1 = if vs.len() == 1 { vs[0] } else { vs[1] };
        Ok(BorderBlockWidth(BorderBlockStartWidth(x0), BorderBlockEndWidth(x1)))
    }

    pub fn write_css(&self, w: &mut CssWriter)
        ensures
            final(w)@ == old(w)@.put(self.text(old(w)@.minify)),
    {
        write_sides(self.0.0, self.1.0, w)
    }
}

/// `border-inline-width`: the two sides of one logical axis, from one or two values.
#[derive(Clone, Copy, Debug, PartialEq, Eq, Hash, Structural)]
pub struct BorderInlineWidth(pub BorderInlineStartWidth, pub BorderInlineEndWidth);

impl BorderInlineWidth {
    /// The sides that the tokens at `v` give: one or two line widths.
    pub open spec fn parse_spec(v: ParserView) -> Option<(BorderInlineWidth, ParserView)> {
        let (vs, y) = take_widths(v, 2);
        if vs.len() == 0 {
            None
        } else {
            let (x0, x1) = expand_sides(vs);
            Some((BorderInlineWidth(BorderInlineStartWidth(x0), BorderInlineEndWidth(x1)), y))
        }
    }

    pub open spec fn text(self, minify: bool) -> Seq<char> {
        widths_text(if minify { shortest_sides(self.0.0, self.1.0) } else { seq![self.0.0, self.1.0] })
    }

    pub fn parse(p: &mut Parser) -> (r: Result<BorderInlineWidth, ParseError>)
        requires
            old(p)@.wf(),
        ensures
            final(p)@.wf(),
            final(p)@.toks == old(p)@.toks,
            r is Ok <==> BorderInlineWidth::parse_spec(old(p)@) is Some,
            r matches Ok(x) ==> BorderInlineWidth::parse_spec(old(p)@) == Some((x, final(p)@)),
    {
        proof {
            lemma_take_widths_len(p@, 2);
        }
        let vs = parse_widths(p, 2);
        if vs.len() == 0 {
            return Err(unexpected(p));
        }
        let x0 = vs[0];
        let x1 = if vs.len() == 1 { vs[0] } else { vs[1] };
        Ok(BorderInlineWidth(BorderInlineStartWidth(x0), BorderInlineEndWidth(x1)))
    }

    pub fn write_css(&self, w: &mut CssWriter)
        ensures
            final(w)@ == old(w)@.put(self.text(old(w)@.minify)),
    {
        write_sides(self.0.0, self.1.0, w)
    }
}

/// `border-width`: the four sides, top, right, bottom, left, from one to four values.
#[derive(Clone, Copy, Debug, PartialEq, Eq, Hash, Structural)]
pub struct BorderWidth(pub BorderBlockStartWidth, pub BorderInlineEndWidth, pub BorderBlockEndWidth, pub BorderInlineStartWidth);

impl BorderWidth {
    /// The sides that the tokens at `v` give: one to four line widths.
    pub open spec fn parse_spec(v: ParserView) -> Option<(BorderWidth, ParserView)> {
        let (vs, y) = take_widths(v, 4);
        if vs.len() == 0 {
            None
        } else {
            let (t, r, b, l) = expand_rect(vs);
            Some((BorderWidth(BorderBlockStartWidth(t), BorderInlineEndWidth(r), BorderBlockEndWidth(b), BorderInlineStartWidth(l)), y))
        }
    }

    pub open spec fn text(self, minify: bool) -> Seq<char> {
        widths_text(
            if minify {
                shortest_rect(self.0.0, self.1.0, self.2.0, self.3.0)
            } else {
                seq![self.0.0, self.1.0, self.2.0, self.3.0]
            },
        )
    }

    pub fn parse(p: &mut Parser) -> (r: Result<BorderWidth, ParseError>)
        requires
            old(p)@.wf(),
        ensures
            final(p)@.wf(),
            final(p)@.toks == old(p)@.toks,
            r is Ok <==> BorderWidth::parse_spec(old(p)@) is Some,
            r matches Ok(x) ==> BorderWidth::parse_spec(old(p)@) == Some((x, final(p)@)),
    {
        proof {
            lemma_take_widths_len(p@, 4);
        }
        let vs = parse_widths(p, 4);
        let n = vs.len();
        if n == 0 {
            return Err(unexpected(p));
        }
        let t = vs[0];
        let r = if n == 1 { vs[0] } else { vs[1] };
        let b = if n <= 2 { vs[0] } else { vs[2] };
        let l = if n == 1 { vs[0] } else if n <= 3 { vs[1] } else { vs[3] };
        Ok(BorderWidth(BorderBlockStartWidth(t), BorderInlineEndWidth(r), BorderBlockEndWidth(b), BorderInlineStartWidth(l)))
    }

    pub fn write_css(&self, w: &mut CssWriter)
        ensures
            final(w)@ == old(w)@.put(self.text(old(w)@.minify)),
    {
        write_rect(self.0.0, self.1.0, self.2.0, self.3.0, w)
    }
}

/// Minified output is never longer than canonical output.
pub proof fn lemma_border_width_minify_shorter(x: BorderWidth)
    ensures
        x.text(true).len() <= x.text(false).len(),
{
    let all = seq![x.0.0, x.1.0, x.2.0, x.3.0];
    let short = shortest_rect(x.0.0, x.1.0, x.2.0, x.3.0);
    assert(short =~= all.subrange(0, short.len() as int));
    lemma_widths_text_prefix(all, short.len() as int);
}

/// Reading back the minified values of a border width gives the same border
/// width, so minifying that again writes the same text.
pub proof fn lemma_border_width_minify_idempotent(x: BorderWidth, v: ParserView)
    requires
        take_widths(v, 4).0 == shortest_rect(x.0.0, x.1.0, x.2.0, x.3.0),
    ensures
        BorderWidth::parse_spec(v) matches Some((y, _)) && y == x && y.text(true) == x.text(true),
{
    lemma_rect_collapse_expand(x.0.0, x.1.0, x.2.0, x.3.0);
}

/// Canonical output spells all four sides; reading those four values back
/// gives the same border width.
pub proof fn lemma_border_width_round_trip(x: BorderWidth, v: ParserView)
    requires
        take_widths(v, 4).0 == seq![x.0.0, x.1.0, x.2.0, x.3.0],
    ensures
        BorderWidth::parse_spec(v) matches Some((y, _)) && y == x && y.text(false) == x.text(false),
{
}

/// Minified output of an axis is never longer than canonical output.
pub proof fn lemma_border_block_width_minify_shorter(x: BorderBlockWidth)
    ensures
        x.text(true).len() <= x.text(false).len(),
{
    let all = seq![x.0.0, x.1.0];
    let short = shortest_sides(x.0.0, x.1.0);
    assert(short =~= all.subrange(0, short.len() as int));
    lemma_widths_text_prefix(all, short.len() as int);
}

/// Reading back the minified values of an axis gives the same value.
pub proof fn lemma_border_block_width_minify_idempotent(x: BorderBlockWidth, v: ParserView)
    requires
        take_widths(v, 2).0 == shortest_sides(x.0.0, x.1.0),
    ensures
        BorderBlockWidth::parse_spec(v) matches Some((y, _)) && y == x && y.text(true) == x.text(true),
{
    lemma_sides_collapse_expand(x.0.0, x.1.0);
}

} // verus!
