//! Turns a screen into render-ready lines of styled segments and detects the
//! shell prompt at the cursor.
use vstd::prelude::*;
use vstd::string::StringExecFns;
use crate::color::{Color, Rgb, resolve_color, spec_resolve, rgb_is};
use crate::screen::{Cell, Pen, ScreenBuffer, ScreenModel, spec_blank};
use crate::text::{push_char, starts_with, starts_with_chars, string_of, trim, trim_white};

verus! {

/// A maximal run of cells with the same attributes.
#[derive(Clone, Debug)]
pub struct TerminalSegment {
    pub text: String,
    pub color: Color,
    pub background_color: Color,
    pub bold: bool,
    pub italic: bool,
    pub underline: bool,
    pub inverse: bool,
}

/// One screen row as segments, in column order.
#[derive(Clone, Debug)]
pub struct TerminalLine {
    pub segments: Vec<TerminalSegment>,
}

/// A whole frame: the lines down to the last one with content, and the
/// prompt found at the cursor, if any.
#[derive(Clone, Debug)]
pub struct TerminalProcessResult {
    pub lines: Vec<TerminalLine>,
    pub prompt_update: Option<String>,
}

/// A segment as text and attributes.
pub open spec fn seg_view(s: TerminalSegment) -> (Seq<char>, Pen) {
    (
        s.text@,
        Pen {
            fg: s.color,
            bg: s.background_color,
            bold: s.bold,
            italic: s.italic,
            underline: s.underline,
            inverse: s.inverse,
        },
    )
}

pub open spec fn line_view(l: TerminalLine) -> Seq<(Seq<char>, Pen)> {
    l.segments@.map_values(|s: TerminalSegment| seg_view(s))
}

pub open spec fn string_opt(o: Option<String>) -> Option<Seq<char>> {
    match o {
        Some(s) => Some(s@),
        None => None,
    }
}

/// The runs of a row: consecutive cells with equal attributes joined, in
/// column order.
pub open spec fn runs(cells: Seq<Cell>) -> Seq<(Seq<char>, Pen)>
    decreases cells.len(),
{
    if cells.len() == 0 {
        Seq::empty()
    } else {
        let r = runs(cells.drop_last());
        let c = cells.last();
        if r.len() > 0 && r.last().1 == c.pen {
            r.update(r.len() - 1, (r.last().0.push(c.ch), c.pen))
        } else {
            r.push((seq![c.ch], c.pen))
        }
    }
}

pub open spec fn row_blank(row: Seq<Cell>) -> bool {
    forall|c: int| 0 <= c < row.len() ==> row[c] == spec_blank()
}

/// The last of the first `n` rows that is not blank, or 0.
pub open spec fn last_content(grid: Seq<Seq<Cell>>, n: int) -> int
    decreases n,
{
    if n <= 1 {
        0
    } else if !row_blank(grid[n - 1]) {
        n - 1
    } else {
        last_content(grid, n - 1)
    }
}

/// The lines of a frame: every row down to the last one with content.
pub open spec fn frame_lines(s: ScreenModel) -> Seq<Seq<(Seq<char>, Pen)>> {
    Seq::new((last_content(s.grid, s.rows as int) + 1) as nat, |r: int| runs(s.grid[r]))
}

pub open spec fn last_login() -> Seq<char> {
    seq!['L', 'a', 's', 't', ' ', 'l', 'o', 'g', 'i', 'n']
}

/// The prompt: the cursor's row left of the cursor, without surrounding
/// white space, unless it is empty or looks like a login banner.
pub open spec fn prompt_of(s: ScreenModel) -> Option<Seq<char>> {
    let t = trim(s.grid[s.crow as int].subrange(0, s.ccol as int).map_values(|c: Cell| c.ch));
    if t.len() > 0 && !starts_with(t, last_login()) {
        Some(t)
    } else {
        None
    }
}

impl TerminalSegment {
    /// The foreground as RGB, `None` for the terminal default.
    pub fn foreground_rgb(&self) -> (r: Option<Rgb>)
        ensures
            match spec_resolve(self.color) {
                None => r is None,
                Some(v) => r is Some && rgb_is(r->0, v),
            },
    {
        resolve_color(self.color)
    }

    /// The background as RGB, `None` for the terminal default.
    pub fn background_rgb(&self) -> (r: Option<Rgb>)
        ensures
            match spec_resolve(self.background_color) {
                None => r is None,
                Some(v) => r is Some && rgb_is(r->0, v),
            },
    {
        resolve_color(self.background_color)
    }
}

fn segment_of(c: Cell) -> (s: TerminalSegment)
    ensures
        seg_view(s) == (seq![c.ch], c.pen),
{
    let mut t = String::new();
    push_char(&mut t, c.ch);
    assert(t@ =~= seq![c.ch]);
    TerminalSegment {
        text: t,
        color: c.pen.fg,
        background_color: c.pen.bg,
        bold: c.pen.bold,
        italic: c.pen.italic,
        underline: c.pen.underline,
        inverse: c.pen.inverse,
    }
}

fn pen_of(s: &TerminalSegment) -> (p: Pen)
    ensures
        p == seg_view(*s).1,
{
    Pen {
        fg: s.color,
        bg: s.background_color,
        bold: s.bold,
        italic: s.italic,
        underline: s.underline,
        inverse: s.inverse,
    }
}

/// Row `r` of the screen as segments.
pub fn extract_line(s: &ScreenBuffer, r: u16) -> (l: TerminalLine)
    requires
        s@.wf(),
        r < s@.rows,
    ensures
        line_view(l) == runs(s@.grid[r as int]),
{
    let ghost row = s@.grid[r as int];
    let cols = s.cols();
    let mut segs: Vec<TerminalSegment> = Vec::new();
    let mut c: u16 = 0;
    assert(row.subrange(0, 0) =~= Seq::<Cell>::empty());
    assert(segs@.map_values(|x: TerminalSegment| seg_view(x)) =~= Seq::<(Seq<char>, Pen)>::empty());
    while c < cols
        invariant
            s@.wf(),
            r < s@.rows,
            cols as nat == s@.cols,
            row == s@.grid[r as int],
            row.len() == cols,
            c <= cols,
            segs@.map_values(|x: TerminalSegment| seg_view(x)) == runs(row.subrange(0, c as int)),
        decreases cols - c,
    {
        let cell = s.cell(r, c);
        let ghost prev = runs(row.subrange(0, c as int));
        assert(row.subrange(0, c + 1).drop_last() =~= row.subrange(0, c as int));
        assert(row.subrange(0, c + 1).last() == cell);
        let k = segs.len();
        if k > 0 && pen_of(&segs[k - 1]) == cell.pen {
            let mut last = segs.pop().unwrap();
            push_char(&mut last.text, cell.ch);
            segs.push(last);
            assert(segs@.map_values(|x: TerminalSegment| seg_view(x)) =~= prev.update(
                prev.len() - 1,
                (prev.last().0.push(cell.ch), cell.pen),
            ));
        } else {
            segs.push(segment_of(cell));
            assert(segs@.map_values(|x: TerminalSegment| seg_view(x)) =~= prev.push((seq![cell.ch], cell.pen)));
        }
        c = c + 1;
    }
    assert(row.subrange(0, cols as int) =~= row);
    TerminalLine { segments: segs }
}

/// Whether row `r` holds only default blank cells.
pub fn row_is_blank(s: &ScreenBuffer, r: u16) -> (b: bool)
    requires
        s@.wf(),
        r < s@.rows,
    ensures
        b == row_blank(s@.grid[r as int]),
{
    let cols = s.cols();
    let blank = Cell::blank();
    let mut c: u16 = 0;
    while c < cols
        invariant
            s@.wf(),
            r < s@.rows,
            cols as nat == s@.cols,
            blank == spec_blank(),
            c <= cols,
            forall|k: int| 0 <= k < c ==> s@.grid[r as int][k] == spec_blank(),
        decreases cols - c,
    {
        if s.cell(r, c) != blank {
            return false;
        }
        c = c + 1;
    }
    true
}

/// The last row with content, or 0 when every row is blank.
pub fn last_content_row(s: &ScreenBuffer) -> (r: u16)
    requires
        s@.wf(),
    ensures
        r as int == last_content(s@.grid, s@.rows as int),
        r < s@.rows,
{
    let mut n: u16 = s.rows();
    while n > 1
        invariant
            s@.wf(),
            1 <= n <= s@.rows,
            last_content(s@.grid, n as int) == last_content(s@.grid, s@.rows as int),
        decreases n,
    {
        if !row_is_blank(s, n - 1) {
            return n - 1;
        }
        n = n - 1;
    }
    0
}

/// The characters of the cursor's row left of the cursor.
fn chars_before_cursor(s: &ScreenBuffer) -> (v: Vec<char>)
    requires
        s@.wf(),
    ensures
        v@ == s@.grid[s@.crow as int].subrange(0, s@.ccol as int).map_values(|c: Cell| c.ch),
{
    let (row, col) = s.cursor_position();
    let ghost cells = s@.grid[s@.crow as int];
    let mut v: Vec<char> = Vec::new();
    let mut c: u16 = 0;
    while c < col
        invariant
            s@.wf(),
            row as nat == s@.crow,
            col as nat == s@.ccol,
            cells == s@.grid[s@.crow as int],
            c <= col,
            v@ == cells.subrange(0, c as int).map_values(|x: Cell| x.ch),
        decreases col - c,
    {
        v.push(s.cell(row, c).ch);
        c = c + 1;
        assert(v@ =~= cells.subrange(0, c as int).map_values(|x: Cell| x.ch));
    }
    v
}

/// The prompt at the cursor: the row left of the cursor without
/// surrounding white space, unless it is empty or looks like a login banner
/// (it begins with "Last login").
pub fn detect_prompt(s: &ScreenBuffer) -> (p: Option<String>)
    requires
        s@.wf(),
    ensures
        string_opt(p) == prompt_of(s@),
{
    let before = chars_before_cursor(s);
    let t = trim_white(&before);
    let banner = vec!['L', 'a', 's', 't', ' ', 'l', 'o', 'g', 'i', 'n'];
    assert(banner@ =~= last_login());
    if t.len() > 0 && !starts_with_chars(&t, &banner) {
        Some(string_of(&t))
    } else {
        None
    }
}

/// Extracts whole frames from a screen.
pub struct ContentExtractor {}

impl ContentExtractor {
    pub fn new() -> (e: ContentExtractor) {
        ContentExtractor {}
    }

    /// The frame: each row down to the last one with content as segments,
    /// and the prompt at the cursor.
    pub fn extract_content(&self, s: &ScreenBuffer) -> (res: TerminalProcessResult)
        requires
            s@.wf(),
        ensures
            res.lines@.map_values(|l: TerminalLine| line_view(l)) == frame_lines(s@),
            string_opt(res.prompt_update) == prompt_of(s@),
    {
        let last = last_content_row(s);
        let mut lines: Vec<TerminalLine> = Vec::new();
        let mut r: u16 = 0;
        while r <= last
            invariant
                s@.wf(),
                last < s@.rows,
                last as int == last_content(s@.grid, s@.rows as int),
                r <= last + 1,
                lines@.len() == r,
                forall|i: int| 0 <= i < r ==> line_view(#[trigger] lines@[i]) == runs(s@.grid[i]),
            decreases last + 1 - r,
        {
            lines.push(extract_line(s, r));
            r = r + 1;
        }
        assert(lines@.map_values(|l: TerminalLine| line_view(l)) =~= frame_lines(s@));
        TerminalProcessResult { lines, prompt_update: detect_prompt(s) }
    }
}

pub open spec fn all_text(segs: Seq<TerminalSegment>) -> Seq<char>
    decreases segs.len(),
{
    if segs.len() == 0 {
        Seq::empty()
    } else {
        all_text(segs.drop_last()) + segs.last().text@
    }
}

impl TerminalLine {
    pub fn new() -> (l: TerminalLine)
        ensures
            l.segments@.len() == 0,
    {
        TerminalLine { segments: Vec::new() }
    }

    /// The text of the line: the segments' texts joined.
    pub fn text(&self) -> (t: String)
        ensures
            t@ == all_text(self.segments@),
    {
        let mut t = String::new();
        let mut i: usize = 0;
        while i < self.segments.len()
            invariant
                i <= self.segments@.len(),
                t@ == all_text(self.segments@.subrange(0, i as int)),
            decreases self.segments@.len() - i,
        {
            t.append(self.segments[i].text.as_str());
            assert(self.segments@.subrange(0, i + 1).drop_last() =~= self.segments@.subrange(0, i as int));
            i = i + 1;
        }
        assert(self.segments@.subrange(0, i as int) =~= self.segments@);
        t
    }
}

/// No segment has empty text, there are no more segments than cells, and a
/// row with cells has at least one segment.
pub proof fn lemma_runs_nonempty(cells: Seq<Cell>)
    ensures
        forall|k: int| 0 <= k < runs(cells).len() ==> (#[trigger] runs(cells)[k]).0.len() > 0,
        runs(cells).len() <= cells.len(),
        cells.len() > 0 ==> runs(cells).len() > 0,
    decreases cells.len(),
{
    if cells.len() > 0 {
        lemma_runs_nonempty(cells.drop_last());
        let r = runs(cells.drop_last());
        let c = cells.last();
        if r.len() > 0 && r.last().1 == c.pen {
            assert forall|k: int| 0 <= k < runs(cells).len() implies (#[trigger] runs(cells)[k]).0.len() > 0 by {
                if k < r.len() - 1 {
                    assert(runs(cells)[k] == r[k]);
                }
            }
        } else {
            assert forall|k: int| 0 <= k < runs(cells).len() implies (#[trigger] runs(cells)[k]).0.len() > 0 by {
                if k < r.len() {
                    assert(runs(cells)[k] == r[k]);
                }
            }
        }
    }
}

/// A row whose cells all share one pen is a single segment holding all of
/// its characters.
pub proof fn lemma_uniform_row_one_segment(cells: Seq<Cell>, pen: Pen)
    requires
        cells.len() > 0,
        forall|c: int| 0 <= c < cells.len() ==> (#[trigger] cells[c]).pen == pen,
    ensures
        runs(cells) == seq![(cells.map_values(|x: Cell| x.ch), pen)],
    decreases cells.len(),
{
    if cells.len() == 1 {
        assert(cells.drop_last() =~= Seq::<Cell>::empty());
        assert(runs(cells.drop_last()) == Seq::<(Seq<char>, Pen)>::empty());
        assert(cells.map_values(|x: Cell| x.ch) =~= seq![cells[0].ch]);
        assert(runs(cells) =~= seq![(cells.map_values(|x: Cell| x.ch), pen)]);
    } else {
        let init = cells.drop_last();
        assert forall|c: int| 0 <= c < init.len() implies (#[trigger] init[c]).pen == pen by {
            assert(init[c] == cells[c]);
        }
        lemma_uniform_row_one_segment(init, pen);
        assert(cells.last().pen == pen);
        assert(init.map_values(|x: Cell| x.ch).push(cells.last().ch) =~= cells.map_values(|x: Cell| x.ch));
        assert(runs(cells) =~= seq![(cells.map_values(|x: Cell| x.ch), pen)]);
    }
}

} // verus!
