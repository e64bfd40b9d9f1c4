//! The text emitter: an indentation-aware sink for script text.
use crate::seqs::{lemma_push_concat, lemma_take_ends, lemma_take_next, lemma_take_split};
use vstd::prelude::*;

verus! {

/// Number of spaces that one level of nesting adds to the start of a line.
pub const INDENT_WIDTH: usize = 4;

/// The indentation that starts a line at nesting depth `depth`.
pub open spec fn indentation(depth: nat) -> Seq<char> {
    Seq::new(INDENT_WIDTH as nat * depth, |i: int| ' ')
}

/// What a [`Writer`] stands for: the text emitted so far, the nesting depth
/// and whether the next character starts a new line.
pub struct WriterView {
    pub text: Seq<char>,
    pub depth: nat,
    pub line_start: bool,
}

impl WriterView {
    /// An empty sink at depth `depth`, at the start of a line.
    pub open spec fn fresh(depth: nat) -> WriterView {
        WriterView { text: Seq::empty(), depth, line_start: true }
    }

    /// Emits one character. A line break is never indented; any other
    /// character that starts a line is preceded by the indentation.
    pub open spec fn put(self, c: char) -> WriterView {
        if c == '\n' {
            WriterView { text: self.text.push(c), line_start: true, ..self }
        } else if self.line_start {
            WriterView {
                text: (self.text + indentation(self.depth)).push(c),
                line_start: false,
                ..self
            }
        } else {
            WriterView { text: self.text.push(c), ..self }
        }
    }

    /// Emits the characters of `s` in order.
    pub open spec fn write(self, s: Seq<char>) -> WriterView
        decreases s.len(),
    {
        if s.len() == 0 {
            self
        } else {
            self.write(s.drop_last()).put(s.last())
        }
    }

    /// Whole lines behind the text; depth and position stay as they are.
    pub open spec fn append(self, lines: Seq<char>) -> WriterView {
        WriterView { text: self.text + lines, ..self }
    }

    /// One level deeper.
    pub open spec fn indent(self) -> WriterView {
        WriterView { depth: self.depth + 1, ..self }
    }

    /// One level up.
    pub open spec fn outdent(self) -> WriterView
        recommends
            self.depth > 0,
    {
        WriterView { depth: (self.depth - 1) as nat, ..self }
    }
}

/// `raw` as it appears in the output when it is written from the start of a
/// line at depth `depth`: every line of it that is not empty is indented.
///
/// Proofs see the definition only where they reveal it; most need no more
/// than [`lemma_write_laid_out`].
#[verifier::opaque]
pub open spec fn laid_out(raw: Seq<char>, depth: nat) -> Seq<char> {
    WriterView::fresh(depth).write(raw).text
}

/// The line `raw` as it appears in the output at depth `depth`, line break
/// included.
pub open spec fn line(raw: Seq<char>, depth: nat) -> Seq<char> {
    laid_out(raw + "\n"@, depth)
}

/// True if no character of `s` is a line break.
pub open spec fn single_line(s: Seq<char>) -> bool {
    forall|i: int| 0 <= i < s.len() ==> s[i] != '\n'
}

/// Writing one character is emitting it.
pub proof fn lemma_write_one(st: WriterView, c: char)
    ensures
        st.write(seq![c]) == st.put(c),
{
    assert(seq![c].drop_last() =~= Seq::<char>::empty());
    assert(st.write(seq![c].drop_last()) == st);
}

/// Writing a concatenation is writing its parts one after the other.
pub proof fn lemma_write_concat(st: WriterView, a: Seq<char>, b: Seq<char>)
    ensures
        st.write(a + b) == st.write(a).write(b),
    decreases b.len(),
{
    if b.len() == 0 {
        assert(a + b =~= a);
    } else {
        assert((a + b).drop_last() =~= a + b.drop_last());
        assert((a + b).last() == b.last());
        lemma_write_concat(st, a, b.drop_last());
    }
}

/// Two writes in a row are one write of the concatenation.
pub broadcast proof fn lemma_write_chain(st: WriterView, a: Seq<char>, b: Seq<char>)
    ensures
        #[trigger] st.write(a).write(b) == st.write(a + b),
{
    lemma_write_concat(st, a, b);
}

/// At depth zero nothing is indented: what is written is what arrives.
pub proof fn lemma_write_flat(st: WriterView, s: Seq<char>)
    requires
        st.depth == 0,
    ensures
        st.write(s).text == st.text + s,
    decreases s.len(),
{
    if s.len() == 0 {
        assert(st.text + s =~= st.text);
    } else {
        lemma_write_flat(st, s.drop_last());
        lemma_write_depth(st, s.drop_last());
        assert(indentation(0) =~= Seq::<char>::empty());
        assert((st.text + s.drop_last()).push(s.last()) =~= st.text + s);
        assert((st.text + s.drop_last() + indentation(0)).push(s.last()) =~= st.text + s);
    }
}

/// Writing never changes the depth.
pub proof fn lemma_write_depth(st: WriterView, s: Seq<char>)
    ensures
        st.write(s).depth == st.depth,
    decreases s.len(),
{
    if s.len() > 0 {
        lemma_write_depth(st, s.drop_last());
    }
}

/// What is written does not depend on the text that is already there.
pub proof fn lemma_write_appends(st: WriterView, s: Seq<char>)
    ensures
        st.write(s) == (WriterView {
            text: st.text + (WriterView { text: Seq::empty(), ..st }).write(s).text,
            depth: st.depth,
            line_start: (WriterView { text: Seq::empty(), ..st }).write(s).line_start,
        }),
    decreases s.len(),
{
    let blank = WriterView { text: Seq::empty(), ..st };
    if s.len() == 0 {
        assert(st.text + blank.text =~= st.text);
    } else {
        lemma_write_appends(st, s.drop_last());
        lemma_write_depth(blank, s.drop_last());
        let before = blank.write(s.drop_last());
        let c = s.last();
        if c == '\n' {
            assert((st.text + before.text).push(c) =~= st.text + before.text.push(c));
        } else if before.line_start {
            let pad = indentation(st.depth);
            assert((st.text + before.text + pad).push(c) =~= st.text + (before.text + pad).push(c));
        } else {
            assert((st.text + before.text).push(c) =~= st.text + before.text.push(c));
        }
    }
}

/// Text without a line break goes out as it is, behind the indentation when
/// it starts a line.
pub proof fn lemma_write_single_line(st: WriterView, s: Seq<char>)
    requires
        single_line(s),
        s.len() > 0,
    ensures
        st.write(s) == (WriterView {
            text: if st.line_start {
                st.text + indentation(st.depth) + s
            } else {
                st.text + s
            },
            depth: st.depth,
            line_start: false,
        }),
    decreases s.len(),
{
    let head = s.drop_last();
    if head.len() == 0 {
        assert(st.write(head) == st);
        if st.line_start {
            assert((st.text + indentation(st.depth)).push(s.last()) =~= st.text + indentation(
                st.depth,
            ) + s);
        } else {
            assert(st.text.push(s.last()) =~= st.text + s);
        }
    } else {
        lemma_write_single_line(st, head);
        if st.line_start {
            assert((st.text + indentation(st.depth) + head).push(s.last()) =~= st.text
                + indentation(st.depth) + s);
        } else {
            assert((st.text + head).push(s.last()) =~= st.text + s);
        }
    }
}

/// After text that ends in a line break the sink is at the start of a line.
pub proof fn lemma_write_ends_line(st: WriterView, s: Seq<char>)
    requires
        s.len() > 0,
        s.last() == '\n',
    ensures
        st.write(s).line_start,
        st.write(s).depth == st.depth,
{
    lemma_write_appends(st, s);
}

/// From the start of a line, writing `raw` appends `laid_out(raw, depth)`.
pub proof fn lemma_write_laid_out(st: WriterView, raw: Seq<char>)
    requires
        st.line_start,
    ensures
        st.write(raw).text == st.text + laid_out(raw, st.depth),
        st.write(raw).depth == st.depth,
        st.write(raw).line_start == WriterView::fresh(st.depth).write(raw).line_start,
{
    reveal(laid_out);
    lemma_write_appends(st, raw);
}

/// A line without a line break in it is its indentation, the line itself
/// and the line break; an empty line is the line break alone.
pub proof fn lemma_line_single_line(raw: Seq<char>, depth: nat)
    requires
        single_line(raw),
    ensures
        line(raw, depth) == if raw.len() == 0 {
            seq!['\n']
        } else {
            indentation(depth) + raw + seq!['\n']
        },
{
    reveal(laid_out);
    lemma_line_break();
    let start = WriterView::fresh(depth);
    lemma_write_concat(start, raw, seq!['\n']);
    lemma_write_one(start.write(raw), '\n');
    if raw.len() == 0 {
        assert(start.write(raw).text.push('\n') =~= seq!['\n']);
    } else {
        lemma_write_single_line(start, raw);
        assert((start.text + indentation(depth) + raw).push('\n') =~= indentation(depth) + raw
            + seq!['\n']);
    }
}

/// The text of a line break is the one character.
pub proof fn lemma_line_break()
    ensures
        "\n"@ == seq!['\n'],
{
    reveal_strlit("\n");
    assert("\n"@ =~= seq!['\n']);
}

/// The indentation of one nesting depth, kept as the text that starts a line.
struct Margin {
    pad: String,
}

impl Margin {
    #[verifier::type_invariant]
    spec fn well_formed(self) -> bool {
        self.pad@ =~= indentation(self.depth())
    }

    spec fn depth(self) -> nat {
        self.pad@.len() / (INDENT_WIDTH as nat)
    }

    fn none() -> (m: Margin)
        ensures
            m.depth() == 0,
    {
        Margin { pad: String::new() }
    }

    fn deeper(&self) -> (m: Margin)
        ensures
            m.depth() == self.depth() + 1,
    {
        proof {
            use_type_invariant(self);
            reveal_strlit("    ");
        }
        let pad = String::from_str(self.pad.as_str()).concat("    ");
        proof {
            assert(pad@ =~= indentation(self.depth() + 1));
        }
        Margin { pad }
    }

    fn shallower(&self) -> (m: Margin)
        requires
            self.depth() > 0,
        ensures
            m.depth() == self.depth() - 1,
    {
        proof {
            use_type_invariant(self);
        }
        let len = self.pad.as_str().unicode_len();
        let pad = String::from_str(self.pad.as_str().substring_char(0, len - INDENT_WIDTH));
        proof {
            assert(pad@ =~= indentation((self.depth() - 1) as nat));
        }
        Margin { pad }
    }

    fn text(&self) -> (pad: &str)
        ensures
            pad@ == indentation(self.depth()),
    {
        proof {
            use_type_invariant(self);
        }
        self.pad.as_str()
    }
}

/// The sink itself. It holds the text emitted so far and indents each line
/// once, when the first character of the line arrives.
pub struct Writer {
    buf: String,
    margin: Margin,
    start: bool,
}

impl View for Writer {
    type V = WriterView;

    closed spec fn view(&self) -> WriterView {
        WriterView { text: self.buf@, depth: self.margin.depth(), line_start: self.start }
    }
}

impl Writer {
    /// An empty sink at depth zero.
    pub fn new() -> (w: Writer)
        ensures
            w@ == WriterView::fresh(0),
    {
        Writer { buf: String::new(), margin: Margin::none(), start: true }
    }

    /// Lines that start from now on are indented one level more.
    pub fn indent(&mut self)
        ensures
            final(self)@ == old(self)@.indent(),
    {
        self.margin = self.margin.deeper();
    }

    /// Lines that start from now on are indented one level less.
    pub fn outdent(&mut self)
        requires
            old(self)@.depth > 0,
        ensures
            final(self)@ == old(self)@.outdent(),
    {
        self.margin = self.margin.shallower();
    }

    /// Emits a piece of one line.
    fn put_segment(&mut self, segment: &str)
        requires
            single_line(segment@),
        ensures
            final(self)@ == old(self)@.write(segment@),
    {
        if !segment.is_empty() {
            proof {
                lemma_write_single_line(self@, segment@);
            }
            if self.start {
                self.buf.append(self.margin.text());
                self.start = false;
            }
            self.buf.append(segment);
        }
    }

    /// Ends the current line.
    fn put_line_break(&mut self)
        ensures
            final(self)@ == old(self)@.put('\n'),
    {
        proof {
            lemma_line_break();
            lemma_push_concat(self.buf@, '\n');
        }
        self.buf.append("\n");
        self.start = true;
    }

    /// Appends `s`, indenting every line of it that starts here.
    pub fn write_str(&mut self, s: &str)
        ensures
            final(self)@ == old(self)@.write(s@),
    {
        let len = s.unicode_len();
        let mut from: usize = 0;
        let mut at: usize = 0;
        for c in it: s.chars()
            invariant
                it.seq() == s@,
                at == it.index(),
                len == s@.len(),
                from <= at <= len,
                single_line(s@.subrange(from as int, at as int)),
                self@ == old(self)@.write(s@.take(from as int)),
        {
            if c == '\n' {
                self.put_segment(s.substring_char(from, at));
                self.put_line_break();
                proof {
                    let done = s@.take(from as int);
                    let segment = s@.subrange(from as int, at as int);
                    lemma_take_split(s@, from as int, at as int);
                    lemma_take_next(s@, at as int);
                    lemma_write_concat(old(self)@, done, segment);
                    lemma_write_concat(old(self)@, done + segment, seq!['\n']);
                    lemma_write_one(old(self)@.write(done + segment), '\n');
                }
                from = at + 1;
            }
            at += 1;
        }
        self.put_segment(s.substring_char(from, len));
        proof {
            let done = s@.take(from as int);
            let segment = s@.subrange(from as int, len as int);
            lemma_take_split(s@, from as int, len as int);
            lemma_take_ends(s@);
            lemma_write_concat(old(self)@, done, segment);
        }
    }

    /// Appends `raw` and a line break. From the start of a line this adds
    /// the line `raw` at the current depth and ends at the start of a line.
    pub fn write_line(&mut self, raw: &str)
        ensures
            final(self)@ == old(self)@.write(raw@ + "\n"@),
            old(self)@.line_start ==> final(self)@ == old(self)@.append(
                line(raw@, old(self)@.depth),
            ),
    {
        self.write_str(raw);
        self.put_line_break();
        proof {
            let text = raw@ + "\n"@;
            lemma_write_one(old(self)@.write(raw@), '\n');
            lemma_line_break();
            lemma_write_concat(old(self)@, raw@, "\n"@);
            if old(self)@.line_start {
                lemma_write_laid_out(old(self)@, text);
                lemma_write_ends_line(WriterView::fresh(old(self)@.depth), text);
            }
        }
    }

    /// The text emitted so far.
    pub fn end(self) -> (text: String)
        ensures
            text@ == self@.text,
    {
        self.buf
    }
}

} // verus!
