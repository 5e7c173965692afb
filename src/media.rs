use vstd::prelude::*;
use crate::diagnostics::{unexpected, MissingAtRuleBlock, MissingAtRulePrelude, ParseError, Unimplemented, UnexpectedIdent};
use crate::media_feature::MediaFeature;
use crate::parser::{Parser, ParserView, MAX_TOKENS, lemma_skip1_progress, lemma_skip_skip, lemma_skip_wf};
use crate::span::{Span, Spanned};
use crate::text::{copy_chars, eq_str, lower, to_ascii_lowercase};
use crate::token::{Atom, Token};
use crate::writer::{gap_text, lemma_put_put, lemma_space, tabs, CssWriter, OutputOption, WriterView};

verus! {

/// Whether a token is the identifier `word` (given in lower case), in any case.
pub open spec fn is_word(t: Token, word: Seq<char>) -> bool {
    match t {
        Token::Ident(a) => lower(a@) == word,
        _ => false,
    }
}

pub fn is_word_exec(t: &Token, word: &str) -> (r: bool)
    ensures
        r == is_word(*t, word@),
{
    match t {
        Token::Ident(a) => {
            let l = to_ascii_lowercase(a);
            eq_str(&l, word)
        },
        _ => false,
    }
}

/// `x` lies strictly after `v` on the same tokens.
pub open spec fn progress(v: ParserView, x: ParserView) -> bool {
    x.toks == v.toks && v.pos < x.pos < x.toks.len()
}

/// The operands of an `and` or `or` list, held inline up to four.
#[verifier::external_body]
pub struct FeatureList {
    inner: smallvec::SmallVec<[MediaFeature; 4]>,
}

/// The features a list holds, in order.
pub uninterp spec fn feature_items(l: FeatureList) -> Seq<MediaFeature>;

impl FeatureList {
    /// Relies on `SmallVec::new`: a vector with no items.
    #[verifier::external_body]
    pub(crate) fn new() -> (r: FeatureList)
        ensures
            feature_items(r) == Seq::<MediaFeature>::empty(),
    {
        FeatureList { inner: smallvec::SmallVec::new() }
    }

    /// Relies on `SmallVec::push`: the item goes at the end. Growing past
    /// `isize::MAX` bytes panics there; the bound keeps far below that.
    #[verifier::external_body]
    pub(crate) fn push(&mut self, f: MediaFeature)
        requires
            feature_items(*old(self)).len() < MAX_TOKENS,
        ensures
            feature_items(*final(self)) == feature_items(*old(self)).push(f),
    {
        self.inner.push(f)
    }

    /// Relies on `SmallVec::len`: the number of items.
    #[verifier::external_body]
    pub(crate) fn len(&self) -> (r: usize)
        ensures
            r == feature_items(*self).len(),
    {
        self.inner.len()
    }

    /// Relies on indexing a `SmallVec`: the item at `i`.
    #[verifier::external_body]
    pub(crate) fn get(&self, i: usize) -> (r: MediaFeature)
        requires
            i < feature_items(*self).len(),
        ensures
            r == feature_items(*self)[i as int],
    {
        self.inner[i]
    }
}

/// A media type: the three that CSS names, or another identifier kept as written.
#[derive(Debug)]
pub enum MediaType {
    All,
    Print,
    Screen,
    Custom(Atom),
}

/// A media type as contracts see it.
pub enum MediaTypeV {
    All,
    Print,
    Screen,
    Custom(Seq<char>),
}

impl View for MediaType {
    type V = MediaTypeV;

    open spec fn view(&self) -> MediaTypeV {
        match self {
            MediaType::All => MediaTypeV::All,
            MediaType::Print => MediaTypeV::Print,
            MediaType::Screen => MediaTypeV::Screen,
            MediaType::Custom(a) => MediaTypeV::Custom(a@),
        }
    }
}

/// Words the `<media-type>` production leaves out.
pub open spec fn is_reserved(l: Seq<char>) -> bool {
    l == "only"@ || l == "not"@ || l == "and"@ || l == "or"@ || l == "layer"@
}

impl MediaTypeV {
    pub open spec fn text(self) -> Seq<char> {
        match self {
            MediaTypeV::All => "all"@,
            MediaTypeV::Print => "print"@,
            MediaTypeV::Screen => "screen"@,
            MediaTypeV::Custom(s) => s,
        }
    }

    /// The media type a token names, if it names one.
    pub open spec fn of_token(t: Token) -> Option<MediaTypeV> {
        match t {
            Token::Ident(a) => {
                let l = lower(a@);
                if l == "all"@ {
                    Some(MediaTypeV::All)
                } else if l == "print"@ {
                    Some(MediaTypeV::Print)
                } else if l == "screen"@ {
                    Some(MediaTypeV::Screen)
                } else if is_reserved(l) {
                    None
                } else {
                    Some(MediaTypeV::Custom(a@))
                }
            },
            _ => None,
        }
    }
}

impl MediaType {
    pub fn from_token(t: &Token) -> (r: Option<MediaType>)
        ensures
            match r {
                Some(m) => MediaTypeV::of_token(*t) == Some(m@),
                None => MediaTypeV::of_token(*t) is None,
            },
    {
        match t {
            Token::Ident(a) => {
                let l = to_ascii_lowercase(a);
                if eq_str(&l, "all") {
                    Some(MediaType::All)
                } else if eq_str(&l, "print") {
                    Some(MediaType::Print)
                } else if eq_str(&l, "screen") {
                    Some(MediaType::Screen)
                } else if eq_str(&l, "only") || eq_str(&l, "not") || eq_str(&l, "and") || eq_str(&l, "or")
                    || eq_str(&l, "layer") {
                    None
                } else {
                    Some(MediaType::Custom(copy_chars(a)))
                }
            },
            _ => None,
        }
    }

    pub fn write_css(&self, w: &mut CssWriter)
        ensures
            final(w)@ == old(w)@.put(self@.text()),
    {
        match self {
            MediaType::All => w.write_str("all"),
            MediaType::Print => w.write_str("print"),
            MediaType::Screen => w.write_str("screen"),
            MediaType::Custom(a) => w.write_chars(a),
        }
    }
}

/// A media condition over features; `and` and `or` lists are never empty.
pub enum MediaCondition {
    Is(MediaFeature),
    Not(MediaFeature),
    And(FeatureList),
    Or(FeatureList),
}

/// A media condition as contracts see it.
pub enum MediaConditionV {
    Is(MediaFeature),
    Not(MediaFeature),
    And(Seq<MediaFeature>),
    Or(Seq<MediaFeature>),
}

impl View for MediaCondition {
    type V = MediaConditionV;

    open spec fn view(&self) -> MediaConditionV {
        match self {
            MediaCondition::Is(f) => MediaConditionV::Is(*f),
            MediaCondition::Not(f) => MediaConditionV::Not(*f),
            MediaCondition::And(l) => MediaConditionV::And(feature_items(*l)),
            MediaCondition::Or(l) => MediaConditionV::Or(feature_items(*l)),
        }
    }
}

/// `word (f1) word (f2) ...`: each feature after its keyword, one space apart.
pub open spec fn list_text(word: Seq<char>, fs: Seq<MediaFeature>, minify: bool) -> Seq<char>
    decreases fs.len(),
{
    if fs.len() == 0 {
        Seq::empty()
    } else if fs.len() == 1 {
        word + seq![' '] + fs[0].text(minify)
    } else {
        list_text(word, fs.drop_last(), minify) + seq![' '] + word + seq![' '] + fs.last().text(minify)
    }
}

/// Prepends what was read so far to what the rest of a list yields.
pub open spec fn prepend<T>(acc: Seq<T>, rest: Option<(Seq<T>, ParserView)>) -> Option<(Seq<T>, ParserView)> {
    match rest {
        Some((fs, y)) => Some((acc + fs, y)),
        None => None,
    }
}

/// The list `word (f1) word (f2) ...` that the tokens at `v` spell; it stops
/// at the first token after a feature that is not `word`.
pub open spec fn feature_list_spec(v: ParserView, word: Seq<char>) -> Option<(Seq<MediaFeature>, ParserView)>
    decreases v.toks.len() - v.pos,
{
    if is_word(v.cur(), word) {
        match MediaFeature::parse_spec(v.skip(1)) {
            Some((f, x)) => if !is_word(x.cur(), word) {
                Some((seq![f], x))
            } else if progress(v, x) {
                prepend(seq![f], feature_list_spec(x, word))
            } else {
                None
            },
            None => None,
        }
    } else {
        None
    }
}

impl MediaConditionV {
    pub open spec fn text(self, minify: bool) -> Seq<char> {
        match self {
            MediaConditionV::Is(f) => f.text(minify),
            MediaConditionV::Not(f) => "not"@ + seq![' '] + f.text(minify),
            MediaConditionV::And(fs) => list_text("and"@, fs, minify),
            MediaConditionV::Or(fs) => list_text("or"@, fs, minify),
        }
    }

    /// The condition that the tokens at `v` spell. A parenthesis right inside
    /// another, a nested condition, is not part of this grammar.
    pub open spec fn parse_spec(v: ParserView) -> Option<(MediaConditionV, ParserView)> {
        match v.cur() {
            Token::LeftParen => if v.tok(1) is LeftParen {
                None
            } else {
                match MediaFeature::parse_spec(v) {
                    Some((f, w)) => Some((MediaConditionV::Is(f), w)),
                    None => None,
                }
            },
            Token::Ident(a) => {
                let l = lower(a@);
                if l == "and"@ {
                    match feature_list_spec(v, "and"@) {
                        Some((fs, w)) => Some((MediaConditionV::And(fs), w)),
                        None => None,
                    }
                } else if l == "or"@ {
                    match feature_list_spec(v, "or"@) {
                        Some((fs, w)) => Some((MediaConditionV::Or(fs), w)),
                        None => None,
                    }
                } else if l == "not"@ {
                    match MediaFeature::parse_spec(v.skip(1)) {
                        Some((f, w)) => Some((MediaConditionV::Not(f), w)),
                        None => None,
                    }
                } else {
                    None
                }
            },
            _ => None,
        }
    }
}

/// Reads `word (f1) word (f2) ...`, stopping before the first token after a
/// feature that is not `word`.
pub fn parse_feature_list(p: &mut Parser, word: &str) -> (r: Result<FeatureList, ParseError>)
    requires
        old(p)@.wf(),
    ensures
        final(p)@.wf(),
        final(p)@.toks == old(p)@.toks,
        r is Ok <==> feature_list_spec(old(p)@, word@) is Some,
        r matches Ok(l) ==> feature_list_spec(old(p)@, word@) == Some((feature_items(l), final(p)@)),
        r is Ok ==> final(p)@.pos > old(p)@.pos,
{
    let ghost v0 = p@;
    let mut list = FeatureList::new();
    if !is_word_exec(p.cur(), word) {
        return Err(unexpected(p));
    }
    assert(prepend(feature_items(list), feature_list_spec(p@, word@)) == feature_list_spec(v0, word@)) by {
        match feature_list_spec(v0, word@) {
            Some((fs, y)) => assert(feature_items(list) + fs =~= fs),
            None => {},
        }
    }
    loop
        invariant
            v0 == old(p)@,
            v0.wf(),
            p@.wf(),
            p@.toks == v0.toks,
            p@.pos >= v0.pos,
            is_word(p@.cur(), word@),
            feature_items(list).len() <= p@.pos - v0.pos,
            feature_list_spec(v0, word@) == prepend(feature_items(list), feature_list_spec(p@, word@)),
        decreases p@.toks.len() - p@.pos,
    {
        let ghost before = p@;
        let ghost acc = feature_items(list);
        proof {
            lemma_skip1_progress(p@);
        }
        p.advance();
        let f = match MediaFeature::parse(p) {
            Ok(f) => f,
            Err(e) => {
                return Err(e);
            },
        };
        assert(feature_items(list).len() < MAX_TOKENS) by {
            assert(acc.len() <= before.pos - v0.pos);
            assert(before.pos < before.toks.len());

        }
        list.push(f);
        if !is_word_exec(p.cur(), word) {
            assert(acc + seq![f] =~= feature_items(list));
            return Ok(list);
        }
        proof {
            assert(progress(before, p@));
            match feature_list_spec(p@, word@) {
                Some((fs, y)) => {
                    assert(acc + (seq![f] + fs) =~= feature_items(list) + fs);
                },
                None => {},
            }
        }
    }
}

impl MediaCondition {
    pub fn parse(p: &mut Parser) -> (r: Result<MediaCondition, ParseError>)
        requires
            old(p)@.wf(),
        ensures
            final(p)@.wf(),
            final(p)@.toks == old(p)@.toks,
            r is Ok <==> MediaConditionV::parse_spec(old(p)@) is Some,
            r matches Ok(c) ==> MediaConditionV::parse_spec(old(p)@) == Some((c@, final(p)@)),
            r is Ok ==> final(p)@.pos > old(p)@.pos,
            old(p)@.cur() is LeftParen && old(p)@.tok(1) is LeftParen ==> (r matches Err(e) && e is Unimplemented),
    {
        match p.cur() {
            Token::LeftParen => {
                if matches!(p.peek(), Token::LeftParen) {
                    return Err(ParseError::Unimplemented(Unimplemented(p.span())));
                }
                let f = MediaFeature::parse(p)?;
                Ok(MediaCondition::Is(f))
            },
            Token::Ident(a) => {
                let l = to_ascii_lowercase(a);
                if eq_str(&l, "and") {
                    let fs = parse_feature_list(p, "and")?;
                    Ok(MediaCondition::And(fs))
                } else if eq_str(&l, "or") {
                    let fs = parse_feature_list(p, "or")?;
                    Ok(MediaCondition::Or(fs))
                } else if eq_str(&l, "not") {
                    let ghost v0 = p@;
                    proof {
                        lemma_skip1_progress(p@);
                    }
                    p.advance();
                    let f = MediaFeature::parse(p)?;
                    Ok(MediaCondition::Not(f))
                } else {
                    Err(ParseError::UnexpectedIdent(UnexpectedIdent(copy_chars(a), p.span())))
                }
            },
            _ => Err(unexpected(p)),
        }
    }

    fn write_list(l: &FeatureList, word: &str, w: &mut CssWriter)
        ensures
            final(w)@ == old(w)@.put(list_text(word@, feature_items(*l), old(w)@.minify)),
    {
        let ghost w0 = w@;
        let ghost fs = feature_items(*l);
        let n = l.len();
        let mut i: usize = 0;
        proof {
            assert(fs.subrange(0, 0).len() == 0);
        }
        while i < n
            invariant
                n == fs.len(),
                fs == feature_items(*l),
                i <= n,
                w@.minify == w0.minify,
                w@ == w0.put(list_text(word@, fs.subrange(0, i as int), w0.minify)),
            decreases n - i,
        {
            let ghost acc = list_text(word@, fs.subrange(0, i as int), w0.minify);
            let f = l.get(i);
            let ghost sep = if i == 0 { Seq::<char>::empty() } else { seq![' '] };
            if i > 0 {
                w.write_str(" ");
                proof {
                    reveal_strlit(" ");
                    assert(" "@ =~= seq![' ']);
                }
            }
            w.write_str(word);
            w.write_str(" ");
            proof {
                reveal_strlit(" ");
                assert(" "@ =~= seq![' ']);
            }
            f.write_css(w);
            proof {
                let t = f.text(w0.minify);
                lemma_put_put(w0, acc, sep);
                lemma_put_put(w0, acc + sep, word@);
                lemma_put_put(w0, acc + sep + word@, seq![' ']);
                lemma_put_put(w0, acc + sep + word@ + seq![' '], t);
                let next = fs.subrange(0, i + 1);
                assert(next.drop_last() =~= fs.subrange(0, i as int));
                assert(next.last() == f);
                if i == 0 {
                    assert(acc + sep + word@ + seq![' '] + t =~= word@ + seq![' '] + t);
                } else {
                    assert(acc + sep + word@ + seq![' '] + t =~= acc + seq![' '] + word@ + seq![' '] + t);
                }
            }
            i = i + 1;
        }
        proof {
            assert(fs.subrange(0, n as int) =~= fs);
        }
    }

    pub fn write_css(&self, w: &mut CssWriter)
        ensures
            final(w)@ == old(w)@.put(self@.text(old(w)@.minify)),
    {
        match self {
            MediaCondition::Is(f) => f.write_css(w),
            MediaCondition::Not(f) => {
                let ghost w0 = w@;
                w.write_str("not ");
                f.write_css(w);
                proof {
                    reveal_strlit("not ");
                    reveal_strlit("not");
                    assert("not "@ =~= "not"@ + seq![' ']);
                    lemma_put_put(w0, "not "@, f.text(w0.minify));
                }
            },
            MediaCondition::And(l) => MediaCondition::write_list(l, "and", w),
            MediaCondition::Or(l) => MediaCondition::write_list(l, "or", w),
        }
    }
}

/// One media query.
pub enum MediaQuery {
    Condition(MediaCondition),
    Typed(MediaType),
    NotTyped(MediaType),
    OnlyTyped(MediaType),
    TypedCondition(MediaType, MediaCondition),
    NotTypedCondition(MediaType, MediaCondition),
    OnlyTypedCondition(MediaType, MediaCondition),
}

/// A media query as contracts see it.
pub enum MediaQueryV {
    Condition(MediaConditionV),
    Typed(MediaTypeV),
    NotTyped(MediaTypeV),
    OnlyTyped(MediaTypeV),
    TypedCondition(MediaTypeV, MediaConditionV),
    NotTypedCondition(MediaTypeV, MediaConditionV),
    OnlyTypedCondition(MediaTypeV, MediaConditionV),
}

impl View for MediaQuery {
    type V = MediaQueryV;

    open spec fn view(&self) -> MediaQueryV {
        match self {
            MediaQuery::Condition(c) => MediaQueryV::Condition(c@),
            MediaQuery::Typed(t) => MediaQueryV::Typed(t@),
            MediaQuery::NotTyped(t) => MediaQueryV::NotTyped(t@),
            MediaQuery::OnlyTyped(t) => MediaQueryV::OnlyTyped(t@),
            MediaQuery::TypedCondition(t, c) => MediaQueryV::TypedCondition(t@, c@),
            MediaQuery::NotTypedCondition(t, c) => MediaQueryV::NotTypedCondition(t@, c@),
            MediaQuery::OnlyTypedCondition(t, c) => MediaQueryV::OnlyTypedCondition(t@, c@),
        }
    }
}

impl MediaQueryV {
    pub open spec fn text(self, minify: bool) -> Seq<char> {
        match self {
            MediaQueryV::Condition(c) => c.text(minify),
            MediaQueryV::Typed(t) => t.text(),
            MediaQueryV::NotTyped(t) => "not "@ + t.text(),
            MediaQueryV::OnlyTyped(t) => "only "@ + t.text(),
            MediaQueryV::TypedCondition(t, c) => t.text() + seq![' '] + c.text(minify),
            MediaQueryV::NotTypedCondition(t, c) => "not "@ + t.text() + seq![' '] + c.text(minify),
            MediaQueryV::OnlyTypedCondition(t, c) => "only "@ + t.text() + seq![' '] + c.text(minify),
        }
    }

    /// After `not` or `only` (or neither) and a media type, at `w`: an `and`
    /// brings a condition, which the condition's own grammar reads from the `and`.
    pub open spec fn typed_rest(w: ParserView, t: MediaTypeV, not: bool, only: bool) -> Option<(MediaQueryV, ParserView)> {
        if is_word(w.cur(), "and"@) {
            match MediaConditionV::parse_spec(w) {
                Some((c, y)) => Some((
                    if not {
                        MediaQueryV::NotTypedCondition(t, c)
                    } else if only {
                        MediaQueryV::OnlyTypedCondition(t, c)
                    } else {
                        MediaQueryV::TypedCondition(t, c)
                    },
                    y,
                )),
                None => None,
            }
        } else {
            Some((
                if not {
                    MediaQueryV::NotTyped(t)
                } else if only {
                    MediaQueryV::OnlyTyped(t)
                } else {
                    MediaQueryV::Typed(t)
                },
                w,
            ))
        }
    }

    /// The query that the tokens at `v` spell: a condition, or an optional
    /// `not` or `only`, a media type, and an optional `and`-condition.
    pub open spec fn parse_spec(v: ParserView) -> Option<(MediaQueryV, ParserView)> {
        match v.cur() {
            Token::LeftParen => match MediaConditionV::parse_spec(v) {
                Some((c, w)) => Some((MediaQueryV::Condition(c), w)),
                None => None,
            },
            Token::Ident(a) => {
                let l = lower(a@);
                if l == "not"@ || l == "only"@ {
                    let w = v.skip(1);
                    match MediaTypeV::of_token(w.cur()) {
                        Some(t) => MediaQueryV::typed_rest(w.skip(1), t, l == "not"@, l == "only"@),
                        None => None,
                    }
                } else {
                    match MediaTypeV::of_token(v.cur()) {
                        Some(t) => MediaQueryV::typed_rest(v.skip(1), t, false, false),
                        None => None,
                    }
                }
            },
            _ => None,
        }
    }
}

impl MediaQuery {
    fn parse_typed_rest(p: &mut Parser, t: MediaType, not: bool, only: bool) -> (r: Result<MediaQuery, ParseError>)
        requires
            old(p)@.wf(),
            !(not && only),
        ensures
            final(p)@.wf(),
            final(p)@.toks == old(p)@.toks,
            r is Ok ==> final(p)@.pos >= old(p)@.pos,
            r is Ok <==> MediaQueryV::typed_rest(old(p)@, t@, not, only) is Some,
            r matches Ok(q) ==> MediaQueryV::typed_rest(old(p)@, t@, not, only) == Some((q@, final(p)@)),
    {
        if is_word_exec(p.cur(), "and") {
            let c = MediaCondition::parse(p)?;
            if not {
                Ok(MediaQuery::NotTypedCondition(t, c))
            } else if only {
                Ok(MediaQuery::OnlyTypedCondition(t, c))
            } else {
                Ok(MediaQuery::TypedCondition(t, c))
            }
        } else if not {
            Ok(MediaQuery::NotTyped(t))
        } else if only {
            Ok(MediaQuery::OnlyTyped(t))
        } else {
            Ok(MediaQuery::Typed(t))
        }
    }

    pub fn parse(p: &mut Parser) -> (r: Result<MediaQuery, ParseError>)
        requires
            old(p)@.wf(),
        ensures
            final(p)@.wf(),
            final(p)@.toks == old(p)@.toks,
            r is Ok <==> MediaQueryV::parse_spec(old(p)@) is Some,
            r matches Ok(q) ==> MediaQueryV::parse_spec(old(p)@) == Some((q@, final(p)@)),
            r is Ok ==> final(p)@.pos > old(p)@.pos,
            (old(p)@.cur() matches Token::Ident(a) && lower(a@) != "not"@ && lower(a@) != "only"@
                && MediaTypeV::of_token(old(p)@.cur()) is None) ==> (r matches Err(e) && e is UnexpectedIdent),
    {
        match p.cur() {
            Token::LeftParen => {
                let c = MediaCondition::parse(p)?;
                Ok(MediaQuery::Condition(c))
            },
            Token::Ident(a) => {
                let l = to_ascii_lowercase(a);
                let not = eq_str(&l, "not");
                let only = eq_str(&l, "only");
                if not || only {
                    proof {
                        reveal_strlit("not");
                        reveal_strlit("only");
                        lemma_skip1_progress(p@);
                        if not && only {
                            assert("not"@.len() != "only"@.len());
                        }
                    }
                    p.advance();
                    let t = match MediaType::from_token(p.cur()) {
                        Some(t) => t,
                        None => {
                            return Err(unexpected(p));
                        },
                    };
                    proof {
                        lemma_skip1_progress(p@);
                    }
                    p.advance();
                    MediaQuery::parse_typed_rest(p, t, not, only)
                } else {
                    let t = match MediaType::from_token(p.cur()) {
                        Some(t) => t,
                        None => {
                            return Err(ParseError::UnexpectedIdent(UnexpectedIdent(copy_chars(a), p.span())));
                        },
                    };
                    proof {
                        lemma_skip1_progress(p@);
                    }
                    p.advance();
                    MediaQuery::parse_typed_rest(p, t, false, false)
                }
            },
            _ => Err(unexpected(p)),
        }
    }

    pub fn write_css(&self, w: &mut CssWriter)
        ensures
            final(w)@ == old(w)@.put(self@.text(old(w)@.minify)),
    {
        let ghost w0 = w@;
        proof {
            reveal_strlit(" ");
            assert(" "@ =~= seq![' ']);
        }
        match self {
            MediaQuery::Condition(c) => c.write_css(w),
            MediaQuery::Typed(t) => t.write_css(w),
            MediaQuery::NotTyped(t) => {
                w.write_str("not ");
                t.write_css(w);
                proof {
                    lemma_put_put(w0, "not "@, t@.text());
                }
            },
            MediaQuery::OnlyTyped(t) => {
                w.write_str("only ");
                t.write_css(w);
                proof {
                    lemma_put_put(w0, "only "@, t@.text());
                }
            },
            MediaQuery::TypedCondition(t, c) => {
                t.write_css(w);
                w.write_str(" ");
                c.write_css(w);
                proof {
                    lemma_put_put(w0, t@.text(), seq![' ']);
                    lemma_put_put(w0, t@.text() + seq![' '], c@.text(w0.minify));
                }
            },
            MediaQuery::NotTypedCondition(t, c) => {
                w.write_str("not ");
                t.write_css(w);
                w.write_str(" ");
                c.write_css(w);
                proof {
                    lemma_put_put(w0, "not "@, t@.text());
                    lemma_put_put(w0, "not "@ + t@.text(), seq![' ']);
                    lemma_put_put(w0, "not "@ + t@.text() + seq![' '], c@.text(w0.minify));
                }
            },
            MediaQuery::OnlyTypedCondition(t, c) => {
                w.write_str("only ");
                t.write_css(w);
                w.write_str(" ");
                c.write_css(w);
                proof {
                    lemma_put_put(w0, "only "@, t@.text());
                    lemma_put_put(w0, "only "@ + t@.text(), seq![' ']);
                    lemma_put_put(w0, "only "@ + t@.text() + seq![' '], c@.text(w0.minify));
                }
            },
        }
    }
}

/// The queries of a list, held inline when there is one.
#[verifier::external_body]
pub struct QueryList {
    inner: smallvec::SmallVec<[Spanned<MediaQuery>; 1]>,
}

/// The queries a list holds, in order.
pub uninterp spec fn query_items(l: QueryList) -> Seq<Spanned<MediaQuery>>;

impl QueryList {
    /// Relies on `SmallVec::new`: a vector with no items.
    #[verifier::external_body]
    pub(crate) fn new() -> (r: QueryList)
        ensures
            query_items(r) == Seq::<Spanned<MediaQuery>>::empty(),
    {
        QueryList { inner: smallvec::SmallVec::new() }
    }

    /// Relies on `SmallVec::push`: the item goes at the end. Growing past
    /// `isize::MAX` bytes panics there; the bound keeps far below that.
    #[verifier::external_body]
    pub(crate) fn push(&mut self, q: Spanned<MediaQuery>)
        requires
            query_items(*old(self)).len() < MAX_TOKENS,
        ensures
            query_items(*final(self)) == query_items(*old(self)).push(q),
    {
        self.inner.push(q)
    }

    /// Relies on `SmallVec::len`: the number of items.
    #[verifier::external_body]
    pub(crate) fn len(&self) -> (r: usize)
        ensures
            r == query_items(*self).len(),
    {
        self.inner.len()
    }

    /// Relies on indexing a `SmallVec`: the item at `i`.
    #[verifier::external_body]
    pub(crate) fn get(&self, i: usize) -> (r: &Spanned<MediaQuery>)
        requires
            i < query_items(*self).len(),
        ensures
            *r == query_items(*self)[i as int],
    {
        &self.inner[i]
    }
}

/// The queries of a list as contracts see them.
pub open spec fn queries_view(qs: Seq<Spanned<MediaQuery>>) -> Seq<MediaQueryV> {
    Seq::new(qs.len(), |i: int| qs[i].node@)
}

/// A comma-separated list of media queries; it is never empty.
pub struct MediaQueryList(pub QueryList);

impl View for MediaQueryList {
    type V = Seq<MediaQueryV>;

    open spec fn view(&self) -> Seq<MediaQueryV> {
        queries_view(query_items(self.0))
    }
}

/// The queries joined by a comma and separating whitespace.
pub open spec fn query_list_text(qs: Seq<MediaQueryV>, minify: bool) -> Seq<char>
    decreases qs.len(),
{
    if qs.len() == 0 {
        Seq::empty()
    } else if qs.len() == 1 {
        qs[0].text(minify)
    } else {
        query_list_text(qs.drop_last(), minify) + seq![','] + gap_text(minify) + qs.last().text(minify)
    }
}

/// The list of queries that the tokens at `v` spell: queries separated by commas.
pub open spec fn query_list_spec(v: ParserView) -> Option<(Seq<MediaQueryV>, ParserView)>
    decreases v.toks.len() - v.pos,
{
    match MediaQueryV::parse_spec(v) {
        Some((q, w)) => if !(w.cur() is Comma) {
            Some((seq![q], w))
        } else if progress(v, w.skip(1)) {
            prepend(seq![q], query_list_spec(w.skip(1)))
        } else {
            None
        },
        None => None,
    }
}

impl MediaQueryList {
    pub fn parse(p: &mut Parser) -> (r: Result<MediaQueryList, ParseError>)
        requires
            old(p)@.wf(),
        ensures
            final(p)@.wf(),
            final(p)@.toks == old(p)@.toks,
            r is Ok <==> query_list_spec(old(p)@) is Some,
            r matches Ok(l) ==> query_list_spec(old(p)@) == Some((l@, final(p)@)),
            r is Ok ==> final(p)@.pos > old(p)@.pos,
    {
        let ghost v0 = p@;
        let mut list = QueryList::new();
        assert(prepend(queries_view(query_items(list)), query_list_spec(p@)) == query_list_spec(v0)) by {
            match query_list_spec(v0) {
                Some((qs, y)) => assert(queries_view(query_items(list)) + qs =~= qs),
                None => {},
            }
        }
        loop
            invariant
                v0 == old(p)@,
                v0.wf(),
                p@.wf(),
                p@.toks == v0.toks,
                p@.pos >= v0.pos,
                query_items(list).len() <= p@.pos - v0.pos,
                query_list_spec(v0) == prepend(queries_view(query_items(list)), query_list_spec(p@)),
            decreases p@.toks.len() - p@.pos,
        {
            let ghost before = p@;
            let ghost acc = queries_view(query_items(list));
            let start = p.offset();
            let q = match MediaQuery::parse(p) {
                Ok(q) => q,
                Err(e) => {
                    return Err(e);
                },
            };
            let ghost qv = q@;
            let end = p.prev_end();
            assert(query_items(list).len() < MAX_TOKENS) by {
                assert(before.pos < before.toks.len());
            }
            list.push(Spanned { node: q, span: Span { start, end } });
            assert(queries_view(query_items(list)) =~= acc + seq![qv]);
            if !matches!(p.cur(), Token::Comma) {
                return Ok(MediaQueryList(list));
            }
            proof {
                lemma_skip1_progress(p@);
                assert(progress(before, p@.skip(1)));
                match query_list_spec(p@.skip(1)) {
                    Some((qs, y)) => {
                        assert(acc + (seq![qv] + qs) =~= queries_view(query_items(list)) + qs);
                    },
                    None => {},
                }
            }
            p.advance();
        }
    }

    pub fn write_css(&self, w: &mut CssWriter)
        ensures
            final(w)@ == old(w)@.put(query_list_text(self@, old(w)@.minify)),
    {
        let ghost w0 = w@;
        let ghost qs = self@;
        let n = self.0.len();
        let mut i: usize = 0;
        while i < n
            invariant
                n == qs.len(),
                qs == self@,
                i <= n,
                w@.minify == w0.minify,
                w@ == w0.put(query_list_text(qs.subrange(0, i as int), w0.minify)),
            decreases n - i,
        {
            let ghost acc = query_list_text(qs.subrange(0, i as int), w0.minify);
            let q = self.0.get(i);
            let ghost sep = if i == 0 { Seq::<char>::empty() } else { seq![','] + gap_text(w0.minify) };
            if i > 0 {
                w.write_str(",");
                w.write_whitespace();
                proof {
                    reveal_strlit(",");
                    assert(","@ =~= seq![',']);
                    lemma_space(w0.put(acc).put(seq![',']));
                    lemma_put_put(w0, acc, seq![',']);
                    lemma_put_put(w0, acc + seq![','], gap_text(w0.minify));
                    assert(acc + seq![','] + gap_text(w0.minify) =~= acc + sep);
                }
            } else {
                assert(acc + sep =~= acc);
            }
            q.node.write_css(w);
            proof {
                let t = q.node@.text(w0.minify);
                lemma_put_put(w0, acc + sep, t);
                let next = qs.subrange(0, i + 1);
                assert(next.drop_last() =~= qs.subrange(0, i as int));
                assert(next.last() == q.node@);
                if i == 0 {
                    assert(acc + sep + t =~= t);
                } else {
                    assert(acc + sep + t =~= acc + seq![','] + gap_text(w0.minify) + t);
                }
            }
            i = i + 1;
        }
        proof {
            assert(qs.subrange(0, n as int) =~= qs);
        }
    }
}

/// The rules nested in a conditional block, each held as its CSS text.
pub struct MediaRules(pub Vec<Vec<char>>);

impl View for MediaRules {
    type V = Seq<Seq<char>>;

    open spec fn view(&self) -> Seq<Seq<char>> {
        Seq::new(self.0@.len(), |i: int| self.0@[i]@)
    }
}

/// The nested rules written one per line.
pub open spec fn write_rules_spec(rs: Seq<Seq<char>>, w: WriterView) -> WriterView
    decreases rs.len(),
{
    if rs.len() == 0 {
        w
    } else if rs.len() == 1 {
        w.put(rs[0])
    } else {
        write_rules_spec(rs.drop_last(), w).newline().put(rs.last())
    }
}

pub proof fn lemma_write_rules_minify(rs: Seq<Seq<char>>, w: WriterView)
    ensures
        write_rules_spec(rs, w).minify == w.minify,
        write_rules_spec(rs, w).depth == w.depth,
    decreases rs.len(),
{
    if rs.len() > 1 {
        lemma_write_rules_minify(rs.drop_last(), w);
    }
}

impl MediaRules {
    /// Reads a block `{ }`. Nested style rules are read by the style-rule
    /// grammar, which this crate does not hold; a block that has any fails.
    pub fn parse(p: &mut Parser) -> (r: Result<MediaRules, ParseError>)
        requires
            old(p)@.wf(),
        ensures
            final(p)@.wf(),
            final(p)@.toks == old(p)@.toks,
            r is Ok <==> (old(p)@.cur() is LeftCurly && old(p)@.skip(1).cur() is RightCurly),
            r matches Ok(m) ==> m@.len() == 0 && final(p)@ == old(p)@.skip(1).skip(1),
            !(old(p)@.cur() is LeftCurly) ==> (r matches Err(e) && e is MissingAtRuleBlock),
            old(p)@.cur() is LeftCurly && !(old(p)@.skip(1).cur() is RightCurly) ==> (r matches Err(e)
                && e is Unimplemented),
    {
        if !matches!(p.cur(), Token::LeftCurly) {
            return Err(ParseError::MissingAtRuleBlock(MissingAtRuleBlock(p.span())));
        }
        p.advance();
        if !matches!(p.cur(), Token::RightCurly) {
            return Err(ParseError::Unimplemented(Unimplemented(p.span())));
        }
        p.advance();
        let r = MediaRules(Vec::new());
        assert(r@ =~= Seq::<Seq<char>>::empty());
        Ok(r)
    }

    pub fn write_css(&self, w: &mut CssWriter)
        ensures
            final(w)@ == write_rules_spec(self@, old(w)@),
    {
        let ghost w0 = w@;
        let ghost rs = self@;
        let n = self.0.len();
        let mut i: usize = 0;
        while i < n
            invariant
                n == rs.len(),
                rs == self@,
                i <= n,
                w@ == write_rules_spec(rs.subrange(0, i as int), w0),
            decreases n - i,
        {
            let ghost next = rs.subrange(0, i + 1);
            assert(next.drop_last() =~= rs.subrange(0, i as int));
            if i > 0 {
                w.write_newline();
            }
            w.write_chars(&self.0[i]);
            assert(next.last() == self.0@[i as int]@);
            assert(next.len() == 1 ==> next[0] == next.last());
            i = i + 1;
        }
        assert(rs.subrange(0, n as int) =~= rs);
    }
}

/// `@media <queries> { <rules> }`.
pub struct MediaRule {
    pub query: Spanned<MediaQueryList>,
    pub rules: Spanned<MediaRules>,
}

impl MediaRule {
    /// What writing a rule with these queries and nested rules does to a writer.
    /// With nothing nested, a policy that drops redundant rules writes nothing.
    pub open spec fn write_spec(qs: Seq<MediaQueryV>, rs: Seq<Seq<char>>, w: WriterView) -> WriterView {
        if !w.can_output(OutputOption::RedundantRules) && rs.len() == 0 {
            w
        } else {
            let lead = if qs.len() > 0 && qs[0] is Condition { gap_text(w.minify) } else { seq![' '] };
            let head = w.put("@media"@ + lead + query_list_text(qs, w.minify)).space().put(seq!['{']).newline().indent();
            write_rules_spec(rs, head).newline().dedent().put(seq!['}'])
        }
    }

    /// The token is the at-keyword `@media`, in any case.
    pub open spec fn is_media_keyword(t: Token) -> bool {
        match t {
            Token::AtKeyword(a) => lower(a@) == "media"@,
            _ => false,
        }
    }

    /// The rule that the tokens at `v` spell, with an empty block.
    pub open spec fn parse_spec(v: ParserView) -> Option<(Seq<MediaQueryV>, ParserView)> {
        match v.cur() {
            Token::AtKeyword(a) => if lower(a@) == "media"@ {
                match query_list_spec(v.skip(1)) {
                    Some((qs, x)) => if x.cur() is LeftCurly && x.skip(1).cur() is RightCurly {
                        Some((qs, x.skip(1).skip(1)))
                    } else {
                        None
                    },
                    None => None,
                }
            } else {
                None
            },
            _ => None,
        }
    }

    pub fn parse(p: &mut Parser) -> (r: Result<MediaRule, ParseError>)
        requires
            old(p)@.wf(),
        ensures
            final(p)@.wf(),
            final(p)@.toks == old(p)@.toks,
            r is Ok <==> MediaRule::parse_spec(old(p)@) is Some,
            r matches Ok(m) ==> MediaRule::parse_spec(old(p)@) == Some((m.query.node@, final(p)@))
                && m.rules.node@.len() == 0,
            MediaRule::is_media_keyword(old(p)@.cur()) && old(p)@.skip(1).cur() is LeftCurly ==> (r matches Err(e)
                && e is MissingAtRulePrelude),
            MediaRule::is_media_keyword(old(p)@.cur()) && (query_list_spec(old(p)@.skip(1)) matches Some((_, x))
                && !(x.cur() is LeftCurly)) ==> (r matches Err(e) && e is MissingAtRuleBlock),
            MediaRule::is_media_keyword(old(p)@.cur()) && (query_list_spec(old(p)@.skip(1)) matches Some((_, x))
                && x.cur() is LeftCurly && !(x.skip(1).cur() is RightCurly)) ==> (r matches Err(e) && e is Unimplemented),
    {
        let at_media = match p.cur() {
            Token::AtKeyword(a) => {
                let l = to_ascii_lowercase(a);
                eq_str(&l, "media")
            },
            _ => false,
        };
        if !at_media {
            return Err(unexpected(p));
        }
        p.advance();
        if matches!(p.cur(), Token::LeftCurly) {
            return Err(ParseError::MissingAtRulePrelude(MissingAtRulePrelude(p.span())));
        }
        let q_start = p.offset();
        let query = MediaQueryList::parse(p)?;
        let q_end = p.prev_end();
        let r_start = p.offset();
        let rules = MediaRules::parse(p)?;
        let end = p.prev_end();
        Ok(MediaRule {
            query: Spanned { node: query, span: Span { start: q_start, end: q_end } },
            rules: Spanned { node: rules, span: Span { start: r_start, end } },
        })
    }

    pub fn write_css(&self, w: &mut CssWriter)
        requires
            old(w)@.depth < usize::MAX,
        ensures
            final(w)@ == MediaRule::write_spec(self.query.node@, self.rules.node@, old(w)@),
    {
        let ghost w0 = w@;
        let ghost qs = self.query.node@;
        if !w.can_output(OutputOption::RedundantRules) && self.rules.node.0.len() == 0 {
            return;
        }
        w.write_str("@media");
        let first_is_condition = self.query.node.0.len() > 0 && matches!(self.query.node.0.get(0).node, MediaQuery::Condition(_));
        let ghost lead = if qs.len() > 0 && qs[0] is Condition { gap_text(w0.minify) } else { seq![' '] };
        if first_is_condition {
            w.write_whitespace();
            proof {
                lemma_space(w0.put("@media"@));
            }
        } else {
            w.write_str(" ");
            proof {
                reveal_strlit(" ");
                assert(" "@ =~= seq![' ']);
            }
        }
        proof {
            lemma_put_put(w0, "@media"@, lead);
        }
        self.query.node.write_css(w);
        proof {
            lemma_put_put(w0, "@media"@ + lead, query_list_text(qs, w0.minify));
        }
        w.write_whitespace();
        w.write_str("{");
        w.write_newline();
        w.indent();
        let ghost head = w@;
        self.rules.node.write_css(w);
        proof {
            reveal_strlit("{");
            assert("{"@ =~= seq!['{']);
            lemma_write_rules_minify(self.rules.node@, head);
        }
        w.write_newline();
        w.dedent();
        w.write_str("}");
        proof {
            reveal_strlit("}");
            assert("}"@ =~= seq!['}']);
        }
    }
}

pub proof fn lemma_list_text_minify(word: Seq<char>, fs: Seq<MediaFeature>)
    ensures
        list_text(word, fs, true).len() <= list_text(word, fs, false).len(),
    decreases fs.len(),
{
    if fs.len() > 1 {
        lemma_list_text_minify(word, fs.drop_last());
        crate::media_feature::lemma_feature_minify(fs.last());
    } else if fs.len() == 1 {
        crate::media_feature::lemma_feature_minify(fs[0]);
    }
}

/// Minified output of a condition is never longer than canonical output.
pub proof fn lemma_condition_minify_shorter(c: MediaConditionV)
    ensures
        c.text(true).len() <= c.text(false).len(),
{
    match c {
        MediaConditionV::Is(f) => crate::media_feature::lemma_feature_minify(f),
        MediaConditionV::Not(f) => crate::media_feature::lemma_feature_minify(f),
        MediaConditionV::And(fs) => lemma_list_text_minify("and"@, fs),
        MediaConditionV::Or(fs) => lemma_list_text_minify("or"@, fs),
    }
}

/// Minified output of a query is never longer than canonical output.
pub proof fn lemma_query_minify_shorter(q: MediaQueryV)
    ensures
        q.text(true).len() <= q.text(false).len(),
{
    match q {
        MediaQueryV::Condition(c) => lemma_condition_minify_shorter(c),
        MediaQueryV::TypedCondition(_, c) => lemma_condition_minify_shorter(c),
        MediaQueryV::NotTypedCondition(_, c) => lemma_condition_minify_shorter(c),
        MediaQueryV::OnlyTypedCondition(_, c) => lemma_condition_minify_shorter(c),
        _ => {},
    }
}

/// Minified output of a query list is never longer than canonical output.
pub proof fn lemma_query_list_minify_shorter(qs: Seq<MediaQueryV>)
    ensures
        query_list_text(qs, true).len() <= query_list_text(qs, false).len(),
    decreases qs.len(),
{
    if qs.len() > 1 {
        lemma_query_list_minify_shorter(qs.drop_last());
        lemma_query_minify_shorter(qs.last());
    } else if qs.len() == 1 {
        lemma_query_minify_shorter(qs[0]);
    }
}

/// The total length of the nested rules' texts.
pub open spec fn rules_len(rs: Seq<Seq<char>>) -> nat
    decreases rs.len(),
{
    if rs.len() == 0 {
        0
    } else {
        rules_len(rs.drop_last()) + rs.last().len()
    }
}

pub proof fn lemma_rules_len(rs: Seq<Seq<char>>, w: WriterView)
    ensures
        write_rules_spec(rs, w).out.len() >= w.out.len() + rules_len(rs),
        w.minify ==> write_rules_spec(rs, w).out.len() == w.out.len() + rules_len(rs),
        write_rules_spec(rs, w).minify == w.minify,
    decreases rs.len(),
{
    lemma_write_rules_minify(rs, w);
    if rs.len() > 1 {
        lemma_rules_len(rs.drop_last(), w);
        let before = write_rules_spec(rs.drop_last(), w);
        let mid = before.newline();
        assert(mid.out.len() >= before.out.len());
        assert(mid.minify ==> mid.out.len() == before.out.len());
        let lead = if mid.fresh && !mid.minify { tabs(mid.depth) } else { Seq::<char>::empty() };
        if rs.last().len() > 0 {
            assert(mid.put(rs.last()).out == mid.out + lead + rs.last());
        }
        assert(write_rules_spec(rs, w) == mid.put(rs.last()));
    } else if rs.len() == 1 {
        assert(rs.drop_last().len() == 0);
        assert(rules_len(rs.drop_last()) == 0);
        assert(rs.last() == rs[0]);
        let lead = if w.fresh && !w.minify { tabs(w.depth) } else { Seq::<char>::empty() };
        if rs[0].len() > 0 {
            assert(w.put(rs[0]).out == w.out + lead + rs[0]);
        }
    }
}

/// A writer that has written nothing yet.
pub open spec fn fresh_writer(minify: bool) -> WriterView {
    WriterView { out: Seq::empty(), minify, depth: 0, fresh: true }
}

/// A whole rule written minified is never longer than written canonically.
pub proof fn lemma_rule_minify_shorter(qs: Seq<MediaQueryV>, rs: Seq<Seq<char>>)
    ensures
        MediaRule::write_spec(qs, rs, fresh_writer(true)).out.len() <= MediaRule::write_spec(qs, rs, fresh_writer(false)).out.len(),
{
    lemma_query_list_minify_shorter(qs);
    if rs.len() > 0 {
        reveal_strlit("@media");
        let mm = fresh_writer(true);
        let cc = fresh_writer(false);
        let lead_m = if qs.len() > 0 && qs[0] is Condition { gap_text(true) } else { seq![' '] };
        let lead_c = if qs.len() > 0 && qs[0] is Condition { gap_text(false) } else { seq![' '] };
        let hm = mm.put("@media"@ + lead_m + query_list_text(qs, true)).space().put(seq!['{']).newline().indent();
        let hc = cc.put("@media"@ + lead_c + query_list_text(qs, false)).space().put(seq!['{']).newline().indent();
        assert(hm.out.len() == 6 + lead_m.len() + query_list_text(qs, true).len() + 1);
        assert(hc.out.len() == 6 + lead_c.len() + query_list_text(qs, false).len() + 3);
        lemma_rules_len(rs, hm);
        lemma_rules_len(rs, hc);
    }
}

/// A parenthesis at the start of a query always begins a bare condition.
pub proof fn lemma_paren_starts_condition(v: ParserView)
    requires
        v.cur() is LeftParen,
    ensures
        MediaQueryV::parse_spec(v) matches Some((q, _)) ==> q is Condition,
{
}

/// `not <type>` with no `and` after it is a negated type.
pub proof fn lemma_not_type(v: ParserView, t: MediaTypeV)
    requires
        v.wf(),
        is_word(v.cur(), "not"@),
        MediaTypeV::of_token(v.tok(1)) == Some(t),
        !is_word(v.tok(2), "and"@),
    ensures
        MediaQueryV::parse_spec(v) == Some((MediaQueryV::NotTyped(t), v.skip(2))),
{
    lemma_skip_wf(v, 1);
    lemma_skip_wf(v, 2);
    lemma_skip_skip(v, 1, 1);
    assert("not"@ != "only"@) by {
        reveal_strlit("not");
        reveal_strlit("only");
        assert("not"@.len() != "only"@.len());
    }
}

/// `only <type>` with no `and` after it is an only-qualified type.
pub proof fn lemma_only_type(v: ParserView, t: MediaTypeV)
    requires
        v.wf(),
        is_word(v.cur(), "only"@),
        MediaTypeV::of_token(v.tok(1)) == Some(t),
        !is_word(v.tok(2), "and"@),
    ensures
        MediaQueryV::parse_spec(v) == Some((MediaQueryV::OnlyTyped(t), v.skip(2))),
{
    lemma_skip_wf(v, 1);
    lemma_skip_wf(v, 2);
    lemma_skip_skip(v, 1, 1);
    assert("not"@ != "only"@) by {
        reveal_strlit("not");
        reveal_strlit("only");
        assert("not"@.len() != "only"@.len());
    }
}

/// A media type followed by `and` is a typed condition; the condition is read
/// from the `and` on.
proof fn lemma_type_not_prefix(a: Seq<char>)
    ensures
        (lower(a) == "all"@ || lower(a) == "print"@ || lower(a) == "screen"@) ==> lower(a) != "not"@ && lower(a)
            != "only"@,
{
    reveal_strlit("all");
    reveal_strlit("print");
    reveal_strlit("screen");
    reveal_strlit("not");
    reveal_strlit("only");
    assert("all"@.len() == 3 && "print"@.len() == 5 && "screen"@.len() == 6);
    assert("not"@.len() == 3 && "only"@.len() == 4);
    assert("all"@[0] != "not"@[0]);
}

pub proof fn lemma_type_and_condition(v: ParserView, t: MediaTypeV, c: MediaConditionV, y: ParserView)
    requires
        v.wf(),
        v.cur() is Ident,
        MediaTypeV::of_token(v.cur()) == Some(t),
        is_word(v.tok(1), "and"@),
        MediaConditionV::parse_spec(v.skip(1)) == Some((c, y)),
    ensures
        MediaQueryV::parse_spec(v) == Some((MediaQueryV::TypedCondition(t, c), y)),
{
    lemma_skip_wf(v, 1);
    if let Token::Ident(a) = v.cur() {
        lemma_type_not_prefix(a@);
    }
}

/// A media type with no `and` after it is a bare type.
pub proof fn lemma_bare_type(v: ParserView, t: MediaTypeV)
    requires
        v.wf(),
        v.cur() is Ident,
        MediaTypeV::of_token(v.cur()) == Some(t),
        !is_word(v.tok(1), "and"@),
    ensures
        MediaQueryV::parse_spec(v) == Some((MediaQueryV::Typed(t), v.skip(1))),
{
    lemma_skip_wf(v, 1);
    if let Token::Ident(a) = v.cur() {
        lemma_type_not_prefix(a@);
    }
}

/// Under a policy that drops redundant rules, a rule with nothing nested
/// writes nothing at all.
pub proof fn lemma_empty_rule_minifies_to_nothing(qs: Seq<MediaQueryV>, w: WriterView)
    requires
        w.minify,
    ensures
        MediaRule::write_spec(qs, Seq::empty(), w) == w,
{
}

} // verus!
