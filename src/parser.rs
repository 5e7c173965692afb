use vstd::prelude::*;
use crate::diagnostics::{ExpectedEnd, ParseError};
use crate::span::{Span, Spanned};
use crate::token::{Token, is_trivia};

verus! {

/// The position of the first token at or after `i` that is not trivia; the
/// last token (the end of input) stops the search.
pub open spec fn skip_trivia(toks: Seq<Spanned<Token>>, i: int) -> int
    decreases toks.len() - i,
{
    if i < 0 || i + 1 >= toks.len() {
        i
    } else if is_trivia(toks[i].node) {
        skip_trivia(toks, i + 1)
    } else {
        i
    }
}

/// Where an advance from `i` lands: the next token that is not trivia.
pub open spec fn next_pos(toks: Seq<Spanned<Token>>, i: int) -> int {
    if i + 1 < toks.len() {
        skip_trivia(toks, i + 1)
    } else {
        i
    }
}

/// The position `k` advances after `i`.
pub open spec fn nth_pos(toks: Seq<Spanned<Token>>, i: int, k: nat) -> int
    decreases k,
{
    if k == 0 {
        i
    } else {
        nth_pos(toks, next_pos(toks, i), (k - 1) as nat)
    }
}

pub proof fn lemma_skip_trivia_bounds(toks: Seq<Spanned<Token>>, i: int)
    requires
        0 <= i < toks.len(),
    ensures
        i <= skip_trivia(toks, i) < toks.len(),
    decreases toks.len() - i,
{
    if i + 1 < toks.len() && is_trivia(toks[i].node) {
        lemma_skip_trivia_bounds(toks, i + 1);
    }
}

pub proof fn lemma_next_pos_bounds(toks: Seq<Spanned<Token>>, i: int)
    requires
        0 <= i < toks.len(),
    ensures
        i <= next_pos(toks, i) < toks.len(),
        i + 1 < toks.len() ==> i < next_pos(toks, i),
{
    if i + 1 < toks.len() {
        lemma_skip_trivia_bounds(toks, i + 1);
    }
}

pub proof fn lemma_nth_pos_bounds(toks: Seq<Spanned<Token>>, i: int, k: nat)
    requires
        0 <= i < toks.len(),
    ensures
        i <= nth_pos(toks, i, k) < toks.len(),
    decreases k,
{
    if k > 0 {
        lemma_next_pos_bounds(toks, i);
        lemma_nth_pos_bounds(toks, next_pos(toks, i), (k - 1) as nat);
    }
}

/// The most tokens a cursor takes; list nodes stay far below the sizes at
/// which their storage could overflow.
pub const MAX_TOKENS: usize = 0x0100_0000;

/// The position just after the last token before `i` that is not trivia; 0
/// when only trivia comes before `i`.
pub open spec fn back_over_trivia(toks: Seq<Spanned<Token>>, i: int) -> int
    decreases i,
{
    if i <= 0 {
        0
    } else if is_trivia(toks[i - 1].node) {
        back_over_trivia(toks, i - 1)
    } else {
        i
    }
}

/// A cursor's state as contracts see it: the tokens and the current position.
pub struct ParserView {
    pub toks: Seq<Spanned<Token>>,
    pub pos: int,
}

impl ParserView {
    pub open spec fn wf(self) -> bool {
        &&& 0 < self.toks.len() <= MAX_TOKENS
        &&& self.toks.last().node is Eof
        &&& 0 <= self.pos < self.toks.len()
    }

    /// The token `k` advances ahead of the current one.
    pub open spec fn tok(self, k: nat) -> Token {
        self.toks[nth_pos(self.toks, self.pos, k)].node
    }

    pub open spec fn cur(self) -> Token {
        self.toks[self.pos].node
    }

    /// The cursor after `k` advances.
    pub open spec fn skip(self, k: nat) -> ParserView {
        ParserView { toks: self.toks, pos: nth_pos(self.toks, self.pos, k) }
    }

    /// The cursor after one step that also stops on trivia.
    pub open spec fn step_raw(self) -> ParserView {
        ParserView { toks: self.toks, pos: if self.pos + 1 < self.toks.len() { self.pos + 1 } else { self.pos } }
    }

    pub open spec fn cur_span(self) -> Span {
        self.toks[self.pos].span
    }

    pub open spec fn span_at(self, k: nat) -> Span {
        self.toks[nth_pos(self.toks, self.pos, k)].span
    }
}

pub proof fn lemma_skip_wf(v: ParserView, k: nat)
    requires
        v.wf(),
    ensures
        v.skip(k).wf(),
        v.skip(k).toks == v.toks,
        v.skip(k).cur() == v.tok(k),
{
    lemma_nth_pos_bounds(v.toks, v.pos, k);
}

/// Stepping past a token other than the end of input moves forward.
pub proof fn lemma_skip1_progress(v: ParserView)
    requires
        v.wf(),
        !(v.cur() is Eof),
    ensures
        v.skip(1).pos > v.pos,
        v.skip(1).wf(),
        v.skip(1).toks == v.toks,
{
    lemma_next_pos_bounds(v.toks, v.pos);
    lemma_skip_wf(v, 1);
    assert(nth_pos(v.toks, v.pos, 1) == nth_pos(v.toks, next_pos(v.toks, v.pos), 0));
}

pub proof fn lemma_skip_skip(v: ParserView, a: nat, b: nat)
    requires
        v.wf(),
    ensures
        v.skip(a).skip(b) == v.skip(a + b),
        v.skip(a).tok(b) == v.tok(a + b),
    decreases a,
{
    if a > 0 {
        lemma_next_pos_bounds(v.toks, v.pos);
        let w = ParserView { toks: v.toks, pos: next_pos(v.toks, v.pos) };
        lemma_skip_skip(w, (a - 1) as nat, b);
        assert(nth_pos(v.toks, v.pos, a + b) == nth_pos(v.toks, w.pos, (a + b - 1) as nat));
    }
}

/// A cursor over a token stream that ends in `Token::Eof`.
pub struct Parser {
    tokens: Vec<Spanned<Token>>,
    pos: usize,
}

impl View for Parser {
    type V = ParserView;

    closed spec fn view(&self) -> ParserView {
        ParserView { toks: self.tokens@, pos: self.pos as int }
    }
}

impl Parser {
    /// A cursor on the first token that is not trivia.
    pub fn new(tokens: Vec<Spanned<Token>>) -> (r: Parser)
        requires
            0 < tokens@.len() <= MAX_TOKENS,
            tokens@.last().node is Eof,
        ensures
            r@.wf(),
            r@.toks == tokens@,
            r@.pos == skip_trivia(tokens@, 0),
    {
        let _n = tokens.len();
        let mut p = Parser { tokens, pos: 0 };
        p.skip_trivia_here();
        p
    }

    fn skip_trivia_here(&mut self)
        requires
            old(self)@.wf(),
        ensures
            final(self)@.wf(),
            final(self)@.toks == old(self)@.toks,
            final(self)@.pos == skip_trivia(old(self)@.toks, old(self)@.pos),
    {
        let ghost start = self.pos as int;
        while self.pos < self.tokens.len() - 1 && self.is_trivia_at(self.pos)
            invariant
                self@.wf(),
                self@.toks == old(self)@.toks,
                skip_trivia(self@.toks, self.pos as int) == skip_trivia(self@.toks, start),
            decreases self.tokens@.len() - self.pos,
        {
            self.pos = self.pos + 1;
        }
    }

    fn is_trivia_at(&self, i: usize) -> (r: bool)
        requires
            i < self@.toks.len(),
        ensures
            r == is_trivia(self@.toks[i as int].node),
    {
        match self.tokens[i].node {
            Token::Whitespace | Token::Comment => true,
            _ => false,
        }
    }

    /// The current token.
    pub fn cur(&self) -> (r: &Token)
        requires
            self@.wf(),
        ensures
            *r == self@.cur(),
    {
        &self.tokens[self.pos].node
    }

    /// The range of the current token.
    pub fn span(&self) -> (r: Span)
        requires
            self@.wf(),
        ensures
            r == self@.toks[self@.pos].span,
    {
        self.tokens[self.pos].span
    }

    /// The position the current token starts at.
    pub fn offset(&self) -> (r: usize)
        requires
            self@.wf(),
        ensures
            r == self@.toks[self@.pos].span.start,
    {
        self.tokens[self.pos].span.start
    }

    /// Where the last token before the current one that is not trivia ends:
    /// the end of what has been read. The current token's start if there is none.
    pub fn prev_end(&self) -> (r: usize)
        requires
            self@.wf(),
        ensures
            ({
                let b = back_over_trivia(self@.toks, self@.pos);
                r == if b > 0 { self@.toks[b - 1].span.end } else { self@.cur_span().start }
            }),
    {
        let mut i = self.pos;
        while i > 0 && self.is_trivia_at(i - 1)
            invariant
                self@.wf(),
                i <= self.pos,
                back_over_trivia(self@.toks, i as int) == back_over_trivia(self@.toks, self@.pos),
            decreases i,
        {
            i = i - 1;
        }
        if i > 0 {
            self.tokens[i - 1].span.end
        } else {
            self.tokens[self.pos].span.start
        }
    }

    /// The token after the current one, trivia stepped over; nothing moves.
    pub fn peek(&self) -> (r: &Token)
        requires
            self@.wf(),
        ensures
            *r == self@.tok(1),
    {
        let mut i = self.pos;
        if i < self.tokens.len() - 1 {
            i = i + 1;
            while i < self.tokens.len() - 1 && self.is_trivia_at(i)
                invariant
                    self@.wf(),
                    0 <= i < self@.toks.len(),
                    skip_trivia(self@.toks, i as int) == next_pos(self@.toks, self@.pos),
                decreases self.tokens@.len() - i,
            {
                i = i + 1;
            }
        }
        proof {
            assert(nth_pos(self@.toks, self@.pos, 1) == nth_pos(self@.toks, next_pos(self@.toks, self@.pos), 0));
        }
        &self.tokens[i].node
    }

    /// Succeeds exactly when the input is used up.
    pub fn expect_end(&self) -> (r: Result<(), ParseError>)
        requires
            self@.wf(),
        ensures
            r is Ok <==> self@.cur() is Eof,
    {
        if matches!(self.cur(), Token::Eof) {
            Ok(())
        } else {
            Err(ParseError::ExpectedEnd(ExpectedEnd(self.span())))
        }
    }

    /// Moves to the next token that is not trivia.
    pub fn advance(&mut self)
        requires
            old(self)@.wf(),
        ensures
            final(self)@ == old(self)@.skip(1),
            final(self)@.wf(),
    {
        if self.pos < self.tokens.len() - 1 {
            self.pos = self.pos + 1;
            self.skip_trivia_here();
        }
        proof {
            lemma_skip_wf(old(self)@, 1);
            assert(nth_pos(old(self)@.toks, old(self)@.pos, 1) == nth_pos(old(self)@.toks, next_pos(old(self)@.toks, old(self)@.pos), 0));
        }
    }

    /// Moves to the next token, trivia or not.
    pub fn advance_including_trivia(&mut self)
        requires
            old(self)@.wf(),
        ensures
            final(self)@ == old(self)@.step_raw(),
            final(self)@.wf(),
    {
        if self.pos < self.tokens.len() - 1 {
            self.pos = self.pos + 1;
        }
    }
}

} // verus!
