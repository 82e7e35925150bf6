//! Styled text for the terminal, built as data and written out by the program.

use vstd::prelude::*;

verus! {

/// The colour of a piece of text.
#[derive(Debug, Clone, Copy, PartialEq, Eq, Structural)]
pub enum Ink {
    /// The terminal's own colour.
    Plain,
    Red,
    Green,
    DarkGreen,
    Yellow,
    Blue,
    Magenta,
    Cyan,
    DarkGrey,
    White,
}

/// A piece of text in one style.
#[derive(Debug, PartialEq, Eq)]
pub struct Span {
    /// Its colour.
    pub ink: Ink,
    /// Whether it is bold.
    pub bold: bool,
    /// The text.
    pub text: String,
}

/// The style and the text of a span.
pub type SpanText = (Ink, bool, Seq<char>);

impl View for Span {
    type V = SpanText;

    open spec fn view(&self) -> SpanText {
        (self.ink, self.bold, self.text@)
    }
}

/// A text of several styles.
#[derive(Debug, PartialEq, Eq)]
pub struct Report {
    /// The pieces, in the order in which they are written.
    pub spans: Vec<Span>,
}

impl View for Report {
    type V = Seq<SpanText>;

    open spec fn view(&self) -> Seq<SpanText> {
        Seq::new(self.spans@.len(), |i: int| self.spans@[i]@)
    }
}

/// A piece of text in one colour.
pub open spec fn inked(ink: Ink, text: Seq<char>) -> SpanText {
    (ink, false, text)
}

/// A bold piece of text.
pub open spec fn bold(ink: Ink, text: Seq<char>) -> SpanText {
    (ink, true, text)
}

/// The text of a report without its styles.
pub open spec fn plain_text(report: Seq<SpanText>) -> Seq<char>
    decreases report.len(),
{
    if report.len() == 0 {
        seq![]
    } else {
        plain_text(report.drop_last()) + report.last().2
    }
}

impl Report {
    /// The empty report.
    pub fn new() -> (res: Self)
        ensures
            res@ == Seq::<SpanText>::empty(),
    {
        let res = Report { spans: Vec::new() };
        assert(res@ =~= Seq::<SpanText>::empty());
        res
    }

    /// Adds a piece of text.
    pub fn say(&mut self, ink: Ink, text: &str)
        ensures
            final(self)@ == old(self)@.push(inked(ink, text@)),
    {
        self.spans.push(Span { ink, bold: false, text: String::from_str(text) });
        assert(self@ =~= old(self)@.push(inked(ink, text@)));
    }

    /// Adds a bold piece of text.
    pub fn say_bold(&mut self, ink: Ink, text: &str)
        ensures
            final(self)@ == old(self)@.push(bold(ink, text@)),
    {
        self.spans.push(Span { ink, bold: true, text: String::from_str(text) });
        assert(self@ =~= old(self)@.push(bold(ink, text@)));
    }

    /// The text without its styles.
    pub fn text(&self) -> (res: String)
        ensures
            res@ == plain_text(self@),
    {
        let mut out = String::from_str("");
        proof {
            reveal_strlit("");
            assert(self@.take(0) =~= Seq::<SpanText>::empty());
        }
        let mut i: usize = 0;
        while i < self.spans.len()
            invariant
                i <= self.spans@.len(),
                out@ == plain_text(self@.take(i as int)),
            decreases self.spans@.len() - i,
        {
            out.append(self.spans[i].text.as_str());
            assert(self@.take(i as int + 1).drop_last() =~= self@.take(i as int));
            i += 1;
        }
        assert(self@.take(i as int) =~= self@);
        out
    }
}

} // verus!
