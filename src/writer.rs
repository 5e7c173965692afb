use vstd::prelude::*;
use crate::text::string_of;

verus! {

/// What can be asked of a writer's policy.
#[derive(Clone, Copy, Debug, PartialEq, Eq, Structural)]
pub enum OutputOption {
    /// Rules and segments that carry no meaning, such as an empty block.
    RedundantRules,
}

/// The state of a writer as contracts see it.
pub struct WriterView {
    pub out: Seq<char>,
    pub minify: bool,
    pub depth: nat,
    /// Nothing has been written on the current line yet.
    pub fresh: bool,
}

pub open spec fn tabs(n: nat) -> Seq<char>
    decreases n,
{
    if n == 0 {
        Seq::empty()
    } else {
        tabs((n - 1) as nat).push('\t')
    }
}

impl WriterView {
    /// Text written as it stands; a line's indentation comes before its first text.
    pub open spec fn put(self, s: Seq<char>) -> WriterView {
        if s.len() == 0 {
            self
        } else {
            let lead = if self.fresh && !self.minify { tabs(self.depth) } else { Seq::empty() };
            WriterView { out: self.out + lead + s, fresh: false, ..self }
        }
    }

    /// Separating whitespace: one space, or nothing when minifying.
    pub open spec fn space(self) -> WriterView {
        if self.minify {
            self
        } else {
            self.put(seq![' '])
        }
    }

    pub open spec fn newline(self) -> WriterView {
        if self.minify {
            self
        } else {
            WriterView { out: self.out.push('\n'), fresh: true, ..self }
        }
    }

    pub open spec fn indent(self) -> WriterView {
        WriterView { depth: self.depth + 1, ..self }
    }

    pub open spec fn dedent(self) -> WriterView {
        WriterView { depth: if self.depth == 0 { 0 } else { (self.depth - 1) as nat }, ..self }
    }

    pub open spec fn can_output(self, o: OutputOption) -> bool {
        !self.minify
    }
}

pub proof fn lemma_put_put(w: WriterView, a: Seq<char>, b: Seq<char>)
    ensures
        w.put(a).put(b) == w.put(a + b),
{
    if a.len() == 0 {
        assert(a + b =~= b);
    } else if b.len() > 0 {
        let lead = if w.fresh && !w.minify { tabs(w.depth) } else { Seq::<char>::empty() };
        assert(w.out + lead + a + b =~= w.out + lead + (a + b));
    } else {
        assert(a + b =~= a);
    }
}

/// What separating whitespace amounts to under a policy.
pub open spec fn gap_text(minify: bool) -> Seq<char> {
    if minify {
        Seq::empty()
    } else {
        seq![' ']
    }
}

pub proof fn lemma_space(w: WriterView)
    ensures
        w.space() == w.put(gap_text(w.minify)),
{
}

pub proof fn lemma_put_empty(w: WriterView)
    ensures
        w.put(Seq::empty()) == w,
{
}

/// A sink that nodes write themselves to, under a canonical or a minifying policy.
pub struct CssWriter {
    out: Vec<char>,
    minify: bool,
    depth: usize,
    fresh: bool,
}

impl View for CssWriter {
    type V = WriterView;

    closed spec fn view(&self) -> WriterView {
        WriterView { out: self.out@, minify: self.minify, depth: self.depth as nat, fresh: self.fresh }
    }
}

impl CssWriter {
    pub fn new(minify: bool) -> (r: CssWriter)
        ensures
            r@.out == Seq::<char>::empty(),
            r@.minify == minify,
            r@.depth == 0,
            r@.fresh,
    {
        CssWriter { out: Vec::new(), minify, depth: 0, fresh: true }
    }

    pub fn is_minifying(&self) -> (r: bool)
        ensures
            r == self@.minify,
    {
        self.minify
    }

    pub fn can_output(&self, o: OutputOption) -> (r: bool)
        ensures
            r == self@.can_output(o),
    {
        !self.minify
    }

    fn push_indentation(&mut self)
        ensures
            final(self)@.out == old(self)@.out + tabs(old(self)@.depth),
            final(self)@.minify == old(self)@.minify,
            final(self)@.depth == old(self)@.depth,
            final(self)@.fresh == old(self)@.fresh,
    {
        let mut i: usize = 0;
        while i < self.depth
            invariant
                i <= self.depth,
                self.depth == old(self).depth,
                self.minify == old(self).minify,
                self.fresh == old(self).fresh,
                self.out@ == old(self).out@ + tabs(i as nat),
            decreases self.depth - i,
        {
            self.out.push('\t');
            i = i + 1;
            assert(tabs(i as nat) == tabs((i - 1) as nat).push('\t'));
        }
    }

    /// Writes a text as it stands.
    pub fn write_chars(&mut self, s: &Vec<char>)
        ensures
            final(self)@ == old(self)@.put(s@),
    {
        if s.len() == 0 {
            return;
        }
        if self.fresh && !self.minify {
            self.push_indentation();
        }
        let ghost mid = self.out@;
        let mut i: usize = 0;
        while i < s.len()
            invariant
                i <= s@.len(),
                self.minify == old(self).minify,
                self.depth == old(self).depth,
                self.fresh == old(self).fresh,
                self.out@ == mid + s@.subrange(0, i as int),
            decreases s@.len() - i,
        {
            self.out.push(s[i]);
            i = i + 1;
        }
        self.fresh = false;
        assert(s@.subrange(0, s@.len() as int) =~= s@);
        assert(mid == old(self)@.out + (if old(self)@.fresh && !old(self)@.minify { tabs(old(self)@.depth) } else { Seq::<char>::empty() })) by {
            if !(old(self)@.fresh && !old(self)@.minify) {
                assert(old(self)@.out + Seq::<char>::empty() =~= old(self)@.out);
            }
        }
    }

    /// Writes one character.
    pub fn write_char(&mut self, c: char)
        ensures
            final(self)@ == old(self)@.put(seq![c]),
    {
        let mut v: Vec<char> = Vec::new();
        v.push(c);
        assert(v@ =~= seq![c]);
        self.write_chars(&v);
    }

    /// Writes a literal text as it stands.
    pub fn write_str(&mut self, s: &str)
        ensures
            final(self)@ == old(self)@.put(s@),
    {
        let v = crate::text::chars_of(s);
        self.write_chars(&v);
    }

    /// Writes separating whitespace: one space, or nothing when minifying.
    pub fn write_whitespace(&mut self)
        ensures
            final(self)@ == old(self)@.space(),
    {
        if !self.minify {
            self.write_str(" ");
            proof {
                reveal_strlit(" ");
                assert(" "@ =~= seq![' ']);
            }
        }
    }

    /// Ends the line; nothing when minifying.
    pub fn write_newline(&mut self)
        ensures
            final(self)@ == old(self)@.newline(),
    {
        if !self.minify {
            self.out.push('\n');
            self.fresh = true;
        }
    }

    pub fn indent(&mut self)
        requires
            old(self)@.depth < usize::MAX,
        ensures
            final(self)@ == old(self)@.indent(),
    {
        self.depth = self.depth + 1;
    }

    pub fn dedent(&mut self)
        ensures
            final(self)@ == old(self)@.dedent(),
    {
        if self.depth > 0 {
            self.depth = self.depth - 1;
        }
    }

    /// What has been written so far.
    pub fn text(&self) -> (r: String)
        ensures
            r@ == self@.out,
    {
        string_of(&self.out)
    }
}

} // verus!
