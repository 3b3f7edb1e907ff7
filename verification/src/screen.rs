//! What a screen shows, lines of text with the colour of each part, and the
//! keys that are pressed before it.

use vstd::prelude::*;

use crate::text::{lines, lines_of, texts};

verus! {

/// Which key was pressed.
#[derive(Clone, Copy, Debug, PartialEq, Eq, Structural)]
pub enum KeyCode {
    Enter,
    Esc,
    Backspace,
    Tab,
    Left,
    Right,
    Up,
    Down,
    Char(char),
    Other,
}

/// A key that was pressed, with the modifiers that were held.
#[derive(Clone, Copy, Debug, PartialEq, Eq, Structural)]
pub struct Key {
    pub code: KeyCode,
    pub control: bool,
    pub alt: bool,
}

/// The colour of a part of a line.
#[derive(Clone, Copy, Debug, PartialEq, Eq, Structural)]
pub enum Tone {
    Plain,
    White,
    Gray,
    DarkGray,
    Red,
    Green,
    Yellow,
    Cyan,
    Magenta,
    /// The gradient of the title, at a letter.
    Shimmer(usize),
    /// The pulsing green of a server that runs.
    ServerGlow,
    /// The pulsing cyan of the current release.
    ReleaseGlow,
}

/// A part of a line.
pub struct Span {
    pub text: String,
    pub tone: Tone,
    pub bold: bool,
    pub dim: bool,
}

/// A part of a line, with its text as characters.
pub struct Piece {
    pub text: Seq<char>,
    pub tone: Tone,
    pub bold: bool,
    pub dim: bool,
}

impl View for Span {
    type V = Piece;

    open spec fn view(&self) -> Piece {
        Piece { text: self.text@, tone: self.tone, bold: self.bold, dim: self.dim }
    }
}

/// A line.
pub struct Line {
    pub spans: Vec<Span>,
}

impl View for Line {
    type V = Seq<Piece>;

    open spec fn view(&self) -> Seq<Piece> {
        self.spans@.map_values(|s: Span| s@)
    }
}

/// The views of lines.
pub open spec fn rows(lines: Seq<Line>) -> Seq<Seq<Piece>> {
    lines.map_values(|l: Line| l@)
}

/// A part in a colour.
pub open spec fn toned(text: Seq<char>, tone: Tone) -> Piece {
    Piece { text, tone, bold: false, dim: false }
}

/// A bold part in a colour.
pub open spec fn bold(text: Seq<char>, tone: Tone) -> Piece {
    Piece { text, tone, bold: true, dim: false }
}

/// The lines of a text, without colours.
pub open spec fn plain_rows(text: Seq<char>) -> Seq<Seq<Piece>> {
    lines_of(text).map_values(|line: Seq<char>| seq![toned(line, Tone::Plain)])
}

impl Span {
    /// A part in a colour.
    pub fn toned(text: String, tone: Tone) -> (r: Span)
        ensures
            r@ == toned(text@, tone),
    {
        Span { text, tone, bold: false, dim: false }
    }

    /// A bold part in a colour.
    pub fn bold(text: String, tone: Tone) -> (r: Span)
        ensures
            r@ == bold(text@, tone),
    {
        Span { text, tone, bold: true, dim: false }
    }
}

impl Line {
    /// A line with nothing on it.
    pub fn empty() -> (r: Line)
        ensures
            r@ == Seq::<Piece>::empty(),
    {
        let r = Line { spans: Vec::new() };
        assert(r@ =~= Seq::empty());
        r
    }

    /// A line of one part.
    pub fn of(span: Span) -> (r: Line)
        ensures
            r@ == seq![span@],
    {
        let mut r: Line = Line::empty();
        r.add(span);
        assert(r@ =~= seq![span@]);
        r
    }

    /// Put a part at the end of the line.
    pub fn add(&mut self, span: Span)
        ensures
            final(self)@ == old(self)@.push(span@),
    {
        self.spans.push(span);
        assert(self@ =~= old(self)@.push(span@));
    }
}

/// Put a line behind the others.
pub fn add_line(lines: &mut Vec<Line>, line: Line)
    ensures
        rows(final(lines)@) == rows(old(lines)@).push(line@),
{
    lines.push(line);
    assert(rows(lines@) =~= rows(old(lines)@).push(line@));
}

/// The lines of a text, without colours, put behind the others.
pub fn add_text(shown: &mut Vec<Line>, text: &str)
    ensures
        rows(final(shown)@) == rows(old(shown)@) + plain_rows(text@),
{
    let all: Vec<String> = lines(text);
    let ghost start = rows(shown@);
    let mut i: usize = 0;
    assert(rows(shown@) =~= start + plain_rows(text@).take(0));
    while i < all.len()
        invariant
            texts(all@) == lines_of(text@),
            i <= all.len(),
            rows(shown@) == start + plain_rows(text@).take(i as int),
        decreases all.len() - i,
    {
        let line: String = all[i].clone();
        assert(texts(all@)[i as int] == line@);
        assert(plain_rows(text@)[i as int] == seq![toned(line@, Tone::Plain)]);
        add_line(shown, Line::of(Span::toned(line, Tone::Plain)));
        i = i + 1;
        assert(rows(shown@) =~= start + plain_rows(text@).take(i as int));
    }
    assert(texts(all@).len() == all.len());
    assert(plain_rows(text@).take(i as int) == plain_rows(text@));
}

/// A text is shown line by line, each line in one part without a colour.
pub proof fn law_plain_rows(text: Seq<char>, i: int)
    requires
        0 <= i < lines_of(text).len(),
    ensures
        plain_rows(text).len() == lines_of(text).len(),
        plain_rows(text)[i].len() == 1,
        plain_rows(text)[i][0].text == lines_of(text)[i],
        plain_rows(text)[i][0].tone == Tone::Plain,
        !plain_rows(text)[i][0].bold,
        !plain_rows(text)[i][0].dim,
{
}

/// A line is viewed part by part, and lines one by one; a part keeps its text, its
/// colour and its weight.
pub proof fn law_views_of_lines(lines: Seq<Line>, i: int, j: int)
    requires
        0 <= i < lines.len(),
    ensures
        rows(lines).len() == lines.len(),
        rows(lines)[i].len() == lines[i].spans.len(),
        0 <= j < lines[i].spans.len() ==> {
            let span = lines[i].spans@[j];
            rows(lines)[i][j] == (Piece {
                text: span.text@,
                tone: span.tone,
                bold: span.bold,
                dim: span.dim,
            })
        },
{
}

/// A part in a colour is neither bold nor dim, and a bold one is bold.
pub proof fn law_parts(text: Seq<char>, tone: Tone)
    ensures
        toned(text, tone).text == text && toned(text, tone).tone == tone,
        !toned(text, tone).bold && !toned(text, tone).dim,
        bold(text, tone).text == text && bold(text, tone).tone == tone,
        bold(text, tone).bold && !bold(text, tone).dim,
{
}

} // verus!
