//! The screen buffer: a fixed grid of cells with a cursor, modes and
//! counters, and the operations a VT100 stream performs on it.
use vstd::prelude::*;
use crate::color::Color;

verus! {

/// The drawing attributes of a cell (and of the terminal's current pen).
#[derive(Clone, Copy, Debug, PartialEq, Eq, Structural)]
pub struct Pen {
    pub fg: Color,
    pub bg: Color,
    pub bold: bool,
    pub italic: bool,
    pub underline: bool,
    pub inverse: bool,
}

/// One screen position.
#[derive(Clone, Copy, Debug, PartialEq, Eq, Structural)]
pub struct Cell {
    pub ch: char,
    pub pen: Pen,
}

pub open spec fn spec_plain_pen() -> Pen {
    Pen {
        fg: Color::Default,
        bg: Color::Default,
        bold: false,
        italic: false,
        underline: false,
        inverse: false,
    }
}

/// The default cell: a space with no attributes.
pub open spec fn spec_blank() -> Cell {
    Cell { ch: ' ', pen: spec_plain_pen() }
}

impl Pen {
    /// No colors and no attributes.
    pub fn plain() -> (p: Pen)
        ensures
            p == spec_plain_pen(),
    {
        Pen {
            fg: Color::Default,
            bg: Color::Default,
            bold: false,
            italic: false,
            underline: false,
            inverse: false,
        }
    }
}

impl Cell {
    /// The default blank cell.
    pub fn blank() -> (c: Cell)
        ensures
            c == spec_blank(),
    {
        Cell { ch: ' ', pen: Pen::plain() }
    }
}

pub open spec fn blank_row(cols: nat) -> Seq<Cell> {
    Seq::new(cols, |_c: int| spec_blank())
}

/// `row` with the columns in `lo..hi` set to the blank cell.
pub open spec fn blanked(row: Seq<Cell>, lo: int, hi: int) -> Seq<Cell> {
    Seq::new(row.len(), |c: int| if lo <= c < hi { spec_blank() } else { row[c] })
}

pub open spec fn blank_grid(rows: nat, cols: nat) -> Seq<Seq<Cell>> {
    Seq::new(rows, |_r: int| blank_row(cols))
}

/// A grid of `orows` by `ocols` brought to `rows` by `cols`: cells in both
/// keep their content, the others are blank.
pub open spec fn resize_grid(g: Seq<Seq<Cell>>, orows: nat, ocols: nat, rows: nat, cols: nat) -> Seq<Seq<Cell>> {
    Seq::new(
        rows,
        |r: int| Seq::new(cols, |c: int| if r < orows && c < ocols { g[r][c] } else { spec_blank() }),
    )
}

/// Rows `lo..=hi` move down by `shift` (up for a negative shift); rows
/// moved in from outside that band are blank, rows outside it stay.
pub open spec fn shift_rows(g: Seq<Seq<Cell>>, cols: nat, lo: int, hi: int, shift: int) -> Seq<Seq<Cell>> {
    Seq::new(
        g.len(),
        |r: int|
            if lo <= r <= hi {
                if lo <= r - shift <= hi { g[r - shift] } else { blank_row(cols) }
            } else {
                g[r]
            },
    )
}

/// Cells from column `lo` on move right by `shift` (left for a negative
/// shift); cells moved in from outside are blank, cells left of `lo` stay.
pub open spec fn shift_cells(row: Seq<Cell>, lo: int, shift: int) -> Seq<Cell> {
    Seq::new(
        row.len(),
        |c: int|
            if c >= lo {
                if lo <= c - shift < row.len() { row[c - shift] } else { spec_blank() }
            } else {
                row[c]
            },
    )
}

pub open spec fn grid_view(g: Seq<Vec<Cell>>) -> Seq<Seq<Cell>> {
    g.map_values(|row: Vec<Cell>| row@)
}

/// The mathematical screen: what a `ScreenBuffer` holds.
pub struct ScreenModel {
    pub rows: nat,
    pub cols: nat,
    pub grid: Seq<Seq<Cell>>,
    pub crow: nat,
    pub ccol: nat,
    /// A character was written in the last column: the next one wraps.
    pub wrap: bool,
    pub pen: Pen,
    pub hidden: bool,
    pub alt: bool,
    /// The main screen's grid while the alternate screen is shown.
    pub saved: Seq<Seq<Cell>>,
    pub paste: bool,
    pub app_cursor: bool,
    pub app_keypad: bool,
    pub title: Seq<char>,
    pub icon: Seq<char>,
    pub top: nat,
    pub bottom: nat,
    /// The cursor position that the last save stored.
    pub saved_pos: (nat, nat),
    pub errors: nat,
    pub bells: nat,
}

pub open spec fn counter_max() -> nat {
    0xffff_ffff_ffff_ffff
}

/// A counter that stops at the largest `u64`.
pub open spec fn bump(n: nat) -> nat {
    if n < counter_max() { n + 1 } else { n }
}

pub open spec fn min_int(a: int, b: int) -> int {
    if a < b { a } else { b }
}

pub open spec fn max_int(a: int, b: int) -> int {
    if a < b { b } else { a }
}

impl ScreenModel {
    pub open spec fn wf(self) -> bool {
        &&& 1 <= self.rows <= 0xffff
        &&& 1 <= self.cols <= 0xffff
        &&& self.grid.len() == self.rows
        &&& forall|r: int| 0 <= r < self.rows ==> (#[trigger] self.grid[r]).len() == self.cols
        &&& self.crow < self.rows
        &&& self.ccol < self.cols
        &&& self.top <= self.bottom < self.rows
        &&& self.alt ==> self.saved.len() == self.rows && forall|r: int|
            0 <= r < self.rows ==> (#[trigger] self.saved[r]).len() == self.cols
        &&& !self.alt ==> self.saved.len() == 0
        &&& self.errors <= counter_max()
        &&& self.bells <= counter_max()
    }

    /// A fresh screen of the given size: all blank, cursor at the origin.
    pub open spec fn fresh(rows: nat, cols: nat) -> ScreenModel {
        ScreenModel {
            rows,
            cols,
            grid: blank_grid(rows, cols),
            crow: 0,
            ccol: 0,
            wrap: false,
            pen: spec_plain_pen(),
            hidden: false,
            alt: false,
            saved: Seq::empty(),
            paste: false,
            app_cursor: false,
            app_keypad: false,
            title: Seq::empty(),
            icon: Seq::empty(),
            top: 0,
            bottom: (rows - 1) as nat,
            saved_pos: (0, 0),
            errors: 0,
            bells: 0,
        }
    }

    pub open spec fn cell(self, r: int, c: int) -> Cell {
        self.grid[r][c]
    }

    pub open spec fn with_cell(self, r: int, c: int, cell: Cell) -> ScreenModel {
        ScreenModel { grid: self.grid.update(r, self.grid[r].update(c, cell)), ..self }
    }

    pub open spec fn with_row(self, r: int, row: Seq<Cell>) -> ScreenModel {
        ScreenModel { grid: self.grid.update(r, row), ..self }
    }

    /// Cursor to (r, c), clamped to the screen.
    pub open spec fn move_to(self, r: int, c: int) -> ScreenModel {
        ScreenModel {
            crow: max_int(0, min_int(r, self.rows - 1)) as nat,
            ccol: max_int(0, min_int(c, self.cols - 1)) as nat,
            wrap: false,
            ..self
        }
    }

    /// The scroll region moves up one line; its bottom line becomes blank.
    pub open spec fn scroll_up(self) -> ScreenModel {
        ScreenModel {
            grid: Seq::new(
                self.rows,
                |r: int|
                    if self.top <= r < self.bottom {
                        self.grid[r + 1]
                    } else if r == self.bottom {
                        blank_row(self.cols)
                    } else {
                        self.grid[r]
                    },
            ),
            ..self
        }
    }

    /// Cursor down one line, scrolling at the bottom of the scroll region.
    pub open spec fn line_feed(self) -> ScreenModel {
        if self.crow == self.bottom {
            ScreenModel { wrap: false, ..self.scroll_up() }
        } else if self.crow + 1 < self.rows {
            ScreenModel { crow: self.crow + 1, wrap: false, ..self }
        } else {
            ScreenModel { wrap: false, ..self }
        }
    }

    pub open spec fn carriage_return(self) -> ScreenModel {
        ScreenModel { ccol: 0, wrap: false, ..self }
    }

    pub open spec fn backspace(self) -> ScreenModel {
        ScreenModel {
            ccol: if self.ccol > 0 { (self.ccol - 1) as nat } else { 0 },
            wrap: false,
            ..self
        }
    }

    /// Cursor to the next multiple of eight, or the last column.
    pub open spec fn tab(self) -> ScreenModel {
        ScreenModel {
            ccol: min_int(((self.ccol / 8 + 1) * 8) as int, self.cols - 1) as nat,
            wrap: false,
            ..self
        }
    }

    pub open spec fn bell(self) -> ScreenModel {
        ScreenModel { bells: bump(self.bells), ..self }
    }

    pub open spec fn error(self) -> ScreenModel {
        ScreenModel { errors: bump(self.errors), ..self }
    }

    /// A printable character: written at the cursor with the current pen.
    pub open spec fn put_char(self, ch: char) -> ScreenModel {
        let m1 = if self.wrap { self.carriage_return().line_feed() } else { self };
        let m2 = m1.with_cell(m1.crow as int, m1.ccol as int, Cell { ch, pen: m1.pen });
        if m2.ccol + 1 < m2.cols {
            ScreenModel { ccol: m2.ccol + 1, ..m2 }
        } else {
            ScreenModel { wrap: true, ..m2 }
        }
    }

    /// The columns of row `r` that erase-in-display `mode` blanks.
    pub open spec fn display_span(self, mode: u16, r: int) -> (int, int) {
        if mode == 0 {
            if r < self.crow { (0, 0) } else if r == self.crow { (self.ccol as int, self.cols as int) } else { (0, self.cols as int) }
        } else if mode == 1 {
            if r < self.crow { (0, self.cols as int) } else if r == self.crow { (0, self.ccol + 1int) } else { (0, 0) }
        } else {
            (0, self.cols as int)
        }
    }

    /// Erase in display: 0 cursor to end, 1 start to cursor, 2 all.
    pub open spec fn erase_display(self, mode: u16) -> ScreenModel {
        ScreenModel {
            grid: Seq::new(
                self.rows,
                |r: int| blanked(self.grid[r], self.display_span(mode, r).0, self.display_span(mode, r).1),
            ),
            ..self
        }
    }

    /// The columns of the cursor's row that erase-in-line `mode` blanks.
    pub open spec fn line_span(self, mode: u16) -> (int, int) {
        if mode == 0 {
            (self.ccol as int, self.cols as int)
        } else if mode == 1 {
            (0, self.ccol + 1int)
        } else {
            (0, self.cols as int)
        }
    }

    /// Erase in line: 0 cursor to end, 1 start to cursor, 2 the whole line.
    pub open spec fn erase_line(self, mode: u16) -> ScreenModel {
        self.with_row(
            self.crow as int,
            blanked(self.grid[self.crow as int], self.line_span(mode).0, self.line_span(mode).1),
        )
    }

    /// Shows (`on`) or leaves the alternate screen. Entering saves the main
    /// grid and shows a blank one; leaving brings the main grid back.
    /// Asking for the screen already shown changes nothing.
    pub open spec fn switch_screen(self, on: bool) -> ScreenModel {
        if on && !self.alt {
            ScreenModel { alt: true, saved: self.grid, grid: blank_grid(self.rows, self.cols), ..self }
        } else if !on && self.alt {
            ScreenModel { alt: false, grid: self.saved, saved: Seq::empty(), ..self }
        } else {
            self
        }
    }

    /// Insert `n` blank lines at the cursor's row, within the scroll
    /// region; the cursor goes to the first column. Outside the region
    /// nothing happens.
    pub open spec fn insert_lines(self, n: int) -> ScreenModel {
        if self.top <= self.crow <= self.bottom {
            ScreenModel {
                grid: shift_rows(self.grid, self.cols, self.crow as int, self.bottom as int, n),
                ccol: 0,
                wrap: false,
                ..self
            }
        } else {
            self
        }
    }

    /// Delete `n` lines at the cursor's row, within the scroll region;
    /// blank lines come in at its bottom.
    pub open spec fn delete_lines(self, n: int) -> ScreenModel {
        if self.top <= self.crow <= self.bottom {
            ScreenModel {
                grid: shift_rows(self.grid, self.cols, self.crow as int, self.bottom as int, -n),
                ccol: 0,
                wrap: false,
                ..self
            }
        } else {
            self
        }
    }

    /// Insert `n` blank cells at the cursor (negative `n`: delete `-n`
    /// cells there), within the cursor's row.
    pub open spec fn shift_chars(self, n: int) -> ScreenModel {
        ScreenModel {
            grid: self.grid.update(self.crow as int, shift_cells(self.grid[self.crow as int], self.ccol as int, n)),
            wrap: false,
            ..self
        }
    }

    /// Blank `n` cells from the cursor on, stopping at the line's end.
    pub open spec fn erase_chars(self, n: int) -> ScreenModel {
        self.with_row(
            self.crow as int,
            blanked(self.grid[self.crow as int], self.ccol as int, min_int(self.ccol + n, self.cols as int)),
        )
    }

    /// Cursor up a line, scrolling the region down at its top.
    pub open spec fn reverse_index(self) -> ScreenModel {
        if self.crow == self.top {
            ScreenModel {
                grid: shift_rows(self.grid, self.cols, self.top as int, self.bottom as int, 1),
                wrap: false,
                ..self
            }
        } else if self.crow > 0 {
            ScreenModel { crow: (self.crow - 1) as nat, wrap: false, ..self }
        } else {
            ScreenModel { wrap: false, ..self }
        }
    }

    pub open spec fn save_cursor(self) -> ScreenModel {
        ScreenModel { saved_pos: (self.crow, self.ccol), ..self }
    }

    pub open spec fn restore_cursor(self) -> ScreenModel {
        self.move_to(self.saved_pos.0 as int, self.saved_pos.1 as int)
    }

    /// A new size: cells that stay in bounds keep their content, new ones are
    /// blank, the cursor is clamped and the scroll region covers the screen.
    pub open spec fn resize(self, rows: nat, cols: nat) -> ScreenModel {
        ScreenModel {
            rows,
            cols,
            grid: resize_grid(self.grid, self.rows, self.cols, rows, cols),
            saved: if self.alt { resize_grid(self.saved, self.rows, self.cols, rows, cols) } else { self.saved },
            crow: min_int(self.crow as int, rows - 1) as nat,
            ccol: min_int(self.ccol as int, cols - 1) as nat,
            wrap: false,
            top: 0,
            bottom: (rows - 1) as nat,
            ..self
        }
    }
}

/// A fixed-size grid of cells with cursor, modes, title and counters.
pub struct ScreenBuffer {
    rows: u16,
    cols: u16,
    grid: Vec<Vec<Cell>>,
    cursor_row: u16,
    cursor_col: u16,
    wrap_pending: bool,
    pen: Pen,
    cursor_hidden: bool,
    alternate_screen: bool,
    saved_grid: Vec<Vec<Cell>>,
    bracketed_paste: bool,
    application_cursor: bool,
    application_keypad: bool,
    title: Vec<char>,
    icon_name: Vec<char>,
    scroll_top: u16,
    scroll_bottom: u16,
    saved_row: u16,
    saved_col: u16,
    errors: u64,
    bells: u64,
}

impl View for ScreenBuffer {
    type V = ScreenModel;

    closed spec fn view(&self) -> ScreenModel {
        ScreenModel {
            rows: self.rows as nat,
            cols: self.cols as nat,
            grid: grid_view(self.grid@),
            crow: self.cursor_row as nat,
            ccol: self.cursor_col as nat,
            wrap: self.wrap_pending,
            pen: self.pen,
            hidden: self.cursor_hidden,
            alt: self.alternate_screen,
            saved: grid_view(self.saved_grid@),
            paste: self.bracketed_paste,
            app_cursor: self.application_cursor,
            app_keypad: self.application_keypad,
            title: self.title@,
            icon: self.icon_name@,
            top: self.scroll_top as nat,
            bottom: self.scroll_bottom as nat,
            saved_pos: (self.saved_row as nat, self.saved_col as nat),
            errors: self.errors as nat,
            bells: self.bells as nat,
        }
    }
}

fn blank_vec(n: u16) -> (v: Vec<Cell>)
    ensures
        v@ == blank_row(n as nat),
{
    let mut v: Vec<Cell> = Vec::new();
    let mut i: u16 = 0;
    while i < n
        invariant
            i <= n,
            v@ == blank_row(i as nat),
        decreases n - i,
    {
        v.push(Cell::blank());
        i = i + 1;
    }
    assert(v@ =~= blank_row(n as nat));
    v
}

fn blank_grid_vec(rows: u16, cols: u16) -> (g: Vec<Vec<Cell>>)
    ensures
        grid_view(g@) == blank_grid(rows as nat, cols as nat),
        g@.len() == rows,
{
    let mut grid: Vec<Vec<Cell>> = Vec::new();
    let mut i: u16 = 0;
    while i < rows
        invariant
            i <= rows,
            grid@.len() == i,
            forall|r: int| 0 <= r < i ==> (#[trigger] grid@[r])@ == blank_row(cols as nat),
        decreases rows - i,
    {
        grid.push(blank_vec(cols));
        i = i + 1;
    }
    assert(grid_view(grid@) =~= blank_grid(rows as nat, cols as nat));
    grid
}

fn copy_row(v: &Vec<Cell>) -> (r: Vec<Cell>)
    ensures
        r@ == v@,
{
    let mut r: Vec<Cell> = Vec::new();
    let mut i: usize = 0;
    while i < v.len()
        invariant
            i <= v@.len(),
            r@ == v@.subrange(0, i as int),
        decreases v@.len() - i,
    {
        r.push(v[i]);
        i = i + 1;
        assert(r@ =~= v@.subrange(0, i as int));
    }
    assert(r@ =~= v@);
    r
}

/// A grid with rows `lo..=hi` shifted (see `shift_rows`).
fn shifted_rows(g: &Vec<Vec<Cell>>, cols: u16, lo: u16, hi: u16, shift: i64) -> (n: Vec<Vec<Cell>>)
    requires
        lo <= hi < g@.len(),
        g@.len() <= 0xffff,
        -0x10000 <= shift <= 0x10000,
    ensures
        grid_view(n@) == shift_rows(grid_view(g@), cols as nat, lo as int, hi as int, shift as int),
        n@.len() == g@.len(),
{
    let ghost want = shift_rows(grid_view(g@), cols as nat, lo as int, hi as int, shift as int);
    let mut out: Vec<Vec<Cell>> = Vec::new();
    let mut r: usize = 0;
    while r < g.len()
        invariant
            r <= g@.len(),
            lo <= hi < g@.len(),
            g@.len() <= 0xffff,
            -0x10000 <= shift <= 0x10000,
            want == shift_rows(grid_view(g@), cols as nat, lo as int, hi as int, shift as int),
            out@.len() == r,
            forall|i: int| 0 <= i < r ==> (#[trigger] out@[i])@ == want[i],
        decreases g@.len() - r,
    {
        let row = if lo as usize <= r && r <= hi as usize {
            let src: i64 = r as i64 - shift;
            if lo as i64 <= src && src <= hi as i64 {
                copy_row(&g[src as usize])
            } else {
                blank_vec(cols)
            }
        } else {
            copy_row(&g[r])
        };
        out.push(row);
        r = r + 1;
    }
    assert(grid_view(out@) =~= want);
    out
}

/// A row with the cells from `lo` on shifted (see `shift_cells`).
fn shifted_cells(row: &Vec<Cell>, lo: u16, shift: i64) -> (n: Vec<Cell>)
    requires
        row@.len() <= 0xffff,
        -0x10000 <= shift <= 0x10000,
    ensures
        n@ == shift_cells(row@, lo as int, shift as int),
{
    let ghost want = shift_cells(row@, lo as int, shift as int);
    let mut out: Vec<Cell> = Vec::new();
    let mut c: usize = 0;
    while c < row.len()
        invariant
            c <= row@.len(),
            row@.len() <= 0xffff,
            -0x10000 <= shift <= 0x10000,
            want == shift_cells(row@, lo as int, shift as int),
            out@ == want.subrange(0, c as int),
        decreases row@.len() - c,
    {
        let x = if c >= lo as usize {
            let src: i64 = c as i64 - shift;
            if lo as i64 <= src && src < row.len() as i64 {
                row[src as usize]
            } else {
                Cell::blank()
            }
        } else {
            row[c]
        };
        out.push(x);
        c = c + 1;
        assert(out@ =~= want.subrange(0, c as int));
    }
    assert(out@ =~= want);
    out
}

/// A grid brought to a new size (see `resize_grid`).
fn resized_grid(g: &Vec<Vec<Cell>>, orows: u16, ocols: u16, rows: u16, cols: u16) -> (n: Vec<Vec<Cell>>)
    requires
        g@.len() == orows,
        forall|r: int| 0 <= r < orows ==> (#[trigger] g@[r])@.len() == ocols,
    ensures
        grid_view(n@) == resize_grid(grid_view(g@), orows as nat, ocols as nat, rows as nat, cols as nat),
        n@.len() == rows,
{
    let ghost want = resize_grid(grid_view(g@), orows as nat, ocols as nat, rows as nat, cols as nat);
    let mut grid: Vec<Vec<Cell>> = Vec::new();
    let mut r: u16 = 0;
    while r < rows
        invariant
            r <= rows,
            g@.len() == orows,
            forall|i: int| 0 <= i < orows ==> (#[trigger] g@[i])@.len() == ocols,
            want == resize_grid(grid_view(g@), orows as nat, ocols as nat, rows as nat, cols as nat),
            grid@.len() == r,
            forall|i: int| 0 <= i < r ==> (#[trigger] grid@[i])@ == want[i],
        decreases rows - r,
    {
        let mut row: Vec<Cell> = Vec::new();
        let mut c: u16 = 0;
        while c < cols
            invariant
                r < rows,
                c <= cols,
                g@.len() == orows,
                forall|i: int| 0 <= i < orows ==> (#[trigger] g@[i])@.len() == ocols,
                want == resize_grid(grid_view(g@), orows as nat, ocols as nat, rows as nat, cols as nat),
                row@ == want[r as int].subrange(0, c as int),
            decreases cols - c,
        {
            let x = if r < orows && c < ocols {
                g[r as usize][c as usize]
            } else {
                Cell::blank()
            };
            row.push(x);
            c = c + 1;
            assert(row@ =~= want[r as int].subrange(0, c as int));
        }
        assert(row@ =~= want[r as int]);
        grid.push(row);
        r = r + 1;
    }
    assert(grid_view(grid@) =~= want);
    grid
}

impl ScreenBuffer {
    /// A blank screen of `rows` by `cols` (each at least one).
    pub fn new(rows: u16, cols: u16) -> (s: ScreenBuffer)
        requires
            rows >= 1,
            cols >= 1,
        ensures
            s@.wf(),
            s@ == ScreenModel::fresh(rows as nat, cols as nat),
    {
        let grid = blank_grid_vec(rows, cols);
        let s = ScreenBuffer {
            rows,
            cols,
            grid,
            cursor_row: 0,
            cursor_col: 0,
            wrap_pending: false,
            pen: Pen::plain(),
            cursor_hidden: false,
            alternate_screen: false,
            saved_grid: Vec::new(),
            bracketed_paste: false,
            application_cursor: false,
            application_keypad: false,
            title: Vec::new(),
            icon_name: Vec::new(),
            scroll_top: 0,
            scroll_bottom: rows - 1,
            saved_row: 0,
            saved_col: 0,
            errors: 0,
            bells: 0,
        };
        assert(s@.grid =~= ScreenModel::fresh(rows as nat, cols as nat).grid);
        assert(s@.title =~= Seq::<char>::empty());
        assert(s@.saved =~= Seq::<Seq<Cell>>::empty());
        assert(s@.icon =~= Seq::<char>::empty());
        s
    }

    pub fn rows(&self) -> (r: u16)
        ensures
            r as nat == self@.rows,
    {
        self.rows
    }

    pub fn cols(&self) -> (c: u16)
        ensures
            c as nat == self@.cols,
    {
        self.cols
    }

    /// The cursor as (row, column), both from zero.
    pub fn cursor_position(&self) -> (p: (u16, u16))
        ensures
            p.0 as nat == self@.crow,
            p.1 as nat == self@.ccol,
    {
        (self.cursor_row, self.cursor_col)
    }

    /// The cell at (r, c).
    pub fn cell(&self, r: u16, c: u16) -> (x: Cell)
        requires
            self@.wf(),
            r < self@.rows,
            c < self@.cols,
        ensures
            x == self@.cell(r as int, c as int),
    {
        self.grid[r as usize][c as usize]
    }

    fn set_cell(&mut self, r: u16, c: u16, cell: Cell)
        requires
            old(self)@.wf(),
            r < old(self)@.rows,
            c < old(self)@.cols,
        ensures
            final(self)@.wf(),
            final(self)@ == old(self)@.with_cell(r as int, c as int, cell),
    {
        let ghost pre = self@;
        self.grid[r as usize][c as usize] = cell;
        assert(self@.grid =~= pre.grid.update(r as int, pre.grid[r as int].update(c as int, cell)));
        assert(self@.wf()) by {
            assert forall|i: int| 0 <= i < self@.rows implies (#[trigger] self@.grid[i]).len() == self@.cols by {
                if i != r {
                    assert(self@.grid[i] == pre.grid[i]);
                }
            }
        }
    }

    /// Sets columns `lo..hi` of row `r` to the blank cell.
    fn blank_span(&mut self, r: u16, lo: u16, hi: u16)
        requires
            old(self)@.wf(),
            r < old(self)@.rows,
            lo <= hi <= old(self)@.cols,
        ensures
            final(self)@.wf(),
            final(self)@ == old(self)@.with_row(r as int, blanked(old(self)@.grid[r as int], lo as int, hi as int)),
    {
        let ghost pre = self@;
        let mut c: u16 = lo;
        assert(blanked(pre.grid[r as int], lo as int, lo as int) =~= pre.grid[r as int]);
        assert(pre.with_row(r as int, blanked(pre.grid[r as int], lo as int, lo as int)).grid =~= pre.grid);
        while c < hi
            invariant
                lo <= c <= hi,
                hi <= pre.cols,
                r < pre.rows,
                pre.wf(),
                self@.wf(),
                self@ == pre.with_row(r as int, blanked(pre.grid[r as int], lo as int, c as int)),
            decreases hi - c,
        {
            self.set_cell(r, c, Cell::blank());
            assert(self@.grid[r as int] =~= blanked(pre.grid[r as int], lo as int, c + 1));
            assert(self@.grid =~= pre.with_row(r as int, blanked(pre.grid[r as int], lo as int, c + 1)).grid);
            c = c + 1;
        }
    }

    /// Erase in line: 0 cursor to end, 1 start to cursor, 2 the whole line.
    pub fn erase_in_line(&mut self, mode: u16)
        requires
            old(self)@.wf(),
        ensures
            final(self)@.wf(),
            final(self)@ == old(self)@.erase_line(mode),
    {
        let (lo, hi): (u16, u16) = if mode == 0 {
            (self.cursor_col, self.cols)
        } else if mode == 1 {
            (0, self.cursor_col + 1)
        } else {
            (0, self.cols)
        };
        self.blank_span(self.cursor_row, lo, hi);
    }

    /// Erase in display: 0 cursor to end, 1 start to cursor, 2 all.
    pub fn erase_in_display(&mut self, mode: u16)
        requires
            old(self)@.wf(),
        ensures
            final(self)@.wf(),
            final(self)@ == old(self)@.erase_display(mode),
    {
        let ghost pre = self@;
        let mut r: u16 = 0;
        assert(pre.grid =~= Seq::new(
            pre.rows,
            |i: int|
                if i < 0 {
                    blanked(pre.grid[i], pre.display_span(mode, i).0, pre.display_span(mode, i).1)
                } else {
                    pre.grid[i]
                },
        ));
        while r < self.rows
            invariant
                pre.wf(),
                self@.wf(),
                r <= self@.rows,
                self@ == (ScreenModel {
                    grid: Seq::new(
                        pre.rows,
                        |i: int|
                            if i < r {
                                blanked(pre.grid[i], pre.display_span(mode, i).0, pre.display_span(mode, i).1)
                            } else {
                                pre.grid[i]
                            },
                    ),
                    ..pre
                }),
            decreases self@.rows - r,
        {
            let (lo, hi): (u16, u16) = if mode == 0 {
                if r < self.cursor_row {
                    (0, 0)
                } else if r == self.cursor_row {
                    (self.cursor_col, self.cols)
                } else {
                    (0, self.cols)
                }
            } else if mode == 1 {
                if r < self.cursor_row {
                    (0, self.cols)
                } else if r == self.cursor_row {
                    (0, self.cursor_col + 1)
                } else {
                    (0, 0)
                }
            } else {
                (0, self.cols)
            };
            let ghost before = self@;
            self.blank_span(r, lo, hi);
            assert(self@.grid =~= Seq::new(
                pre.rows,
                |i: int|
                    if i < r + 1 {
                        blanked(pre.grid[i], pre.display_span(mode, i).0, pre.display_span(mode, i).1)
                    } else {
                        pre.grid[i]
                    },
            ));
            r = r + 1;
        }
        assert(self@.grid =~= pre.erase_display(mode).grid);
    }

    /// The scroll region moves up a line; its last line becomes blank.
    fn scroll_up(&mut self)
        requires
            old(self)@.wf(),
        ensures
            final(self)@.wf(),
            final(self)@ == old(self)@.scroll_up(),
    {
        let ghost pre = self@;
        let _gone = self.grid.remove(self.scroll_top as usize);
        let row = blank_vec(self.cols);
        self.grid.insert(self.scroll_bottom as usize, row);
        assert(self@.grid =~= pre.scroll_up().grid);
    }

    /// Cursor down a line, scrolling at the bottom of the scroll region.
    pub fn line_feed(&mut self)
        requires
            old(self)@.wf(),
        ensures
            final(self)@.wf(),
            final(self)@ == old(self)@.line_feed(),
    {
        if self.cursor_row == self.scroll_bottom {
            self.scroll_up();
        } else if self.cursor_row + 1 < self.rows {
            self.cursor_row = self.cursor_row + 1;
        }
        self.wrap_pending = false;
    }

    /// Cursor to the first column.
    pub fn carriage_return(&mut self)
        requires
            old(self)@.wf(),
        ensures
            final(self)@.wf(),
            final(self)@ == old(self)@.carriage_return(),
    {
        self.cursor_col = 0;
        self.wrap_pending = false;
    }

    /// Cursor one column left, stopping at the first.
    pub fn backspace(&mut self)
        requires
            old(self)@.wf(),
        ensures
            final(self)@.wf(),
            final(self)@ == old(self)@.backspace(),
    {
        if self.cursor_col > 0 {
            self.cursor_col = self.cursor_col - 1;
        }
        self.wrap_pending = false;
    }

    /// Cursor to the next multiple of eight, or to the last column.
    pub fn tab(&mut self)
        requires
            old(self)@.wf(),
        ensures
            final(self)@.wf(),
            final(self)@ == old(self)@.tab(),
    {
        let next: u32 = (self.cursor_col as u32 / 8 + 1) * 8;
        let last: u32 = self.cols as u32 - 1;
        self.cursor_col = if next < last { next as u16 } else { last as u16 };
        self.wrap_pending = false;
    }

    /// Counts a bell.
    pub fn bell(&mut self)
        requires
            old(self)@.wf(),
        ensures
            final(self)@.wf(),
            final(self)@ == old(self)@.bell(),
    {
        if self.bells < u64::MAX {
            self.bells = self.bells + 1;
        }
    }

    /// Counts a malformed sequence.
    pub fn count_error(&mut self)
        requires
            old(self)@.wf(),
        ensures
            final(self)@.wf(),
            final(self)@ == old(self)@.error(),
    {
        if self.errors < u64::MAX {
            self.errors = self.errors + 1;
        }
    }

    /// Writes a printable character at the cursor and advances it, wrapping
    /// at the right margin.
    pub fn put_char(&mut self, ch: char)
        requires
            old(self)@.wf(),
        ensures
            final(self)@.wf(),
            final(self)@ == old(self)@.put_char(ch),
    {
        if self.wrap_pending {
            self.carriage_return();
            self.line_feed();
        }
        let cell = Cell { ch, pen: self.pen };
        self.set_cell(self.cursor_row, self.cursor_col, cell);
        if self.cursor_col as u32 + 1 < self.cols as u32 {
            self.cursor_col = self.cursor_col + 1;
        } else {
            self.wrap_pending = true;
        }
    }

    /// Cursor to (r, c), clamped to the screen.
    pub fn move_to(&mut self, r: i64, c: i64)
        requires
            old(self)@.wf(),
        ensures
            final(self)@.wf(),
            final(self)@ == old(self)@.move_to(r as int, c as int),
    {
        let last_r: i64 = self.rows as i64 - 1;
        let last_c: i64 = self.cols as i64 - 1;
        let r1: i64 = if r < last_r { r } else { last_r };
        let c1: i64 = if c < last_c { c } else { last_c };
        self.cursor_row = if r1 < 0 { 0 } else { r1 as u16 };
        self.cursor_col = if c1 < 0 { 0 } else { c1 as u16 };
        self.wrap_pending = false;
    }

    /// The pen that following characters are drawn with.
    pub fn pen(&self) -> (p: Pen)
        ensures
            p == self@.pen,
    {
        self.pen
    }

    pub fn set_pen(&mut self, p: Pen)
        requires
            old(self)@.wf(),
        ensures
            final(self)@.wf(),
            final(self)@ == (ScreenModel { pen: p, ..old(self)@ }),
    {
        self.pen = p;
    }

    pub fn set_cursor_hidden(&mut self, on: bool)
        requires
            old(self)@.wf(),
        ensures
            final(self)@.wf(),
            final(self)@ == (ScreenModel { hidden: on, ..old(self)@ }),
    {
        self.cursor_hidden = on;
    }

    pub fn set_alternate_screen(&mut self, on: bool)
        requires
            old(self)@.wf(),
        ensures
            final(self)@.wf(),
            final(self)@ == old(self)@.switch_screen(on),
    {
        let ghost pre = self@;
        if on && !self.alternate_screen {
            let mut blank = blank_grid_vec(self.rows, self.cols);
            std::mem::swap(&mut self.grid, &mut blank);
            self.saved_grid = blank;
            self.alternate_screen = true;
            assert(self@.saved =~= pre.grid);
        } else if !on && self.alternate_screen {
            let mut main: Vec<Vec<Cell>> = Vec::new();
            std::mem::swap(&mut self.saved_grid, &mut main);
            self.grid = main;
            self.alternate_screen = false;
            assert(self@.saved =~= Seq::<Seq<Cell>>::empty());
            assert(self@.grid =~= pre.saved);
        }
    }

    pub fn set_bracketed_paste(&mut self, on: bool)
        requires
            old(self)@.wf(),
        ensures
            final(self)@.wf(),
            final(self)@ == (ScreenModel { paste: on, ..old(self)@ }),
    {
        self.bracketed_paste = on;
    }

    pub fn set_application_cursor(&mut self, on: bool)
        requires
            old(self)@.wf(),
        ensures
            final(self)@.wf(),
            final(self)@ == (ScreenModel { app_cursor: on, ..old(self)@ }),
    {
        self.application_cursor = on;
    }

    pub fn set_application_keypad(&mut self, on: bool)
        requires
            old(self)@.wf(),
        ensures
            final(self)@.wf(),
            final(self)@ == (ScreenModel { app_keypad: on, ..old(self)@ }),
    {
        self.application_keypad = on;
    }

    pub fn set_title(&mut self, t: Vec<char>)
        requires
            old(self)@.wf(),
        ensures
            final(self)@.wf(),
            final(self)@ == (ScreenModel { title: t@, ..old(self)@ }),
    {
        self.title = t;
    }

    pub fn set_icon_name(&mut self, t: Vec<char>)
        requires
            old(self)@.wf(),
        ensures
            final(self)@.wf(),
            final(self)@ == (ScreenModel { icon: t@, ..old(self)@ }),
    {
        self.icon_name = t;
    }

    /// The window title, as the last OSC 0 or 2 set it.
    pub fn title(&self) -> (t: Vec<char>)
        ensures
            t@ == self@.title,
    {
        let mut t: Vec<char> = Vec::new();
        let mut i: usize = 0;
        while i < self.title.len()
            invariant
                i <= self.title@.len(),
                t@ == self.title@.subrange(0, i as int),
            decreases self.title@.len() - i,
        {
            t.push(self.title[i]);
            i = i + 1;
            assert(t@ =~= self.title@.subrange(0, i as int));
        }
        assert(t@ =~= self.title@);
        t
    }

    /// The icon name, as the last OSC 0 or 1 set it.
    pub fn icon_name(&self) -> (t: Vec<char>)
        ensures
            t@ == self@.icon,
    {
        let mut t: Vec<char> = Vec::new();
        let mut i: usize = 0;
        while i < self.icon_name.len()
            invariant
                i <= self.icon_name@.len(),
                t@ == self.icon_name@.subrange(0, i as int),
            decreases self.icon_name@.len() - i,
        {
            t.push(self.icon_name[i]);
            i = i + 1;
            assert(t@ =~= self.icon_name@.subrange(0, i as int));
        }
        assert(t@ =~= self.icon_name@);
        t
    }

    pub fn is_cursor_hidden(&self) -> (b: bool)
        ensures
            b == self@.hidden,
    {
        self.cursor_hidden
    }

    pub fn is_alternate_screen(&self) -> (b: bool)
        ensures
            b == self@.alt,
    {
        self.alternate_screen
    }

    pub fn is_bracketed_paste(&self) -> (b: bool)
        ensures
            b == self@.paste,
    {
        self.bracketed_paste
    }

    pub fn is_application_cursor(&self) -> (b: bool)
        ensures
            b == self@.app_cursor,
    {
        self.application_cursor
    }

    pub fn is_application_keypad(&self) -> (b: bool)
        ensures
            b == self@.app_keypad,
    {
        self.application_keypad
    }

    /// How many malformed sequences were met.
    pub fn error_count(&self) -> (n: u64)
        ensures
            n as nat == self@.errors,
    {
        self.errors
    }

    /// How many bells were rung.
    pub fn bell_count(&self) -> (n: u64)
        ensures
            n as nat == self@.bells,
    {
        self.bells
    }

    /// The scroll region as (top, bottom), both rows included.
    pub fn scroll_region(&self) -> (p: (u16, u16))
        ensures
            p.0 as nat == self@.top,
            p.1 as nat == self@.bottom,
    {
        (self.scroll_top, self.scroll_bottom)
    }

    /// Sets the scroll region to rows `top..=bottom` and homes the cursor;
    /// a region that is empty or leaves the screen is ignored.
    pub fn set_scroll_region(&mut self, top: u16, bottom: u16)
        requires
            old(self)@.wf(),
        ensures
            final(self)@.wf(),
            final(self)@ == (if top < bottom && bottom < old(self)@.rows {
                ScreenModel { top: top as nat, bottom: bottom as nat, ..old(self)@.move_to(0, 0) }
            } else {
                old(self)@
            }),
    {
        if top < bottom && bottom < self.rows {
            self.move_to(0, 0);
            self.scroll_top = top;
            self.scroll_bottom = bottom;
        }
    }

    proof fn lemma_rows_view(&self)
        requires
            self@.wf(),
        ensures
            self.grid@.len() == self@.rows,
            forall|r: int| 0 <= r < self@.rows ==> (#[trigger] self.grid@[r])@ == self@.grid[r],
    {
        assert forall|r: int| 0 <= r < self@.rows implies (#[trigger] self.grid@[r])@ == self@.grid[r] by {}
    }

    fn replace_rows(&mut self, lo: u16, hi: u16, shift: i64)
        requires
            old(self)@.wf(),
            lo <= hi < old(self)@.rows,
            -0x10000 <= shift <= 0x10000,
        ensures
            final(self)@ == (ScreenModel {
                grid: shift_rows(old(self)@.grid, old(self)@.cols, lo as int, hi as int, shift as int),
                ..old(self)@
            }),
            final(self)@.wf(),
    {
        let ghost pre = self@;
        proof {
            self.lemma_rows_view();
        }
        let g = shifted_rows(&self.grid, self.cols, lo, hi, shift);
        self.grid = g;
        assert(grid_view(old(self).grid@) =~= pre.grid);
        assert forall|r: int| 0 <= r < self@.rows implies (#[trigger] self@.grid[r]).len() == self@.cols by {}
    }

    /// Inserts `n` blank lines at the cursor's row within the scroll
    /// region (nothing outside it); the cursor goes to the first column.
    pub fn insert_lines(&mut self, n: u16)
        requires
            old(self)@.wf(),
        ensures
            final(self)@.wf(),
            final(self)@ == old(self)@.insert_lines(n as int),
    {
        if self.scroll_top <= self.cursor_row && self.cursor_row <= self.scroll_bottom {
            self.replace_rows(self.cursor_row, self.scroll_bottom, n as i64);
            self.cursor_col = 0;
            self.wrap_pending = false;
        }
    }

    /// Deletes `n` lines at the cursor's row within the scroll region;
    /// blank lines come in at its bottom.
    pub fn delete_lines(&mut self, n: u16)
        requires
            old(self)@.wf(),
        ensures
            final(self)@.wf(),
            final(self)@ == old(self)@.delete_lines(n as int),
    {
        if self.scroll_top <= self.cursor_row && self.cursor_row <= self.scroll_bottom {
            self.replace_rows(self.cursor_row, self.scroll_bottom, -(n as i64));
            self.cursor_col = 0;
            self.wrap_pending = false;
        }
    }

    /// Cursor up a line, scrolling the region down at its top.
    pub fn reverse_index(&mut self)
        requires
            old(self)@.wf(),
        ensures
            final(self)@.wf(),
            final(self)@ == old(self)@.reverse_index(),
    {
        if self.cursor_row == self.scroll_top {
            self.replace_rows(self.scroll_top, self.scroll_bottom, 1);
        } else if self.cursor_row > 0 {
            self.cursor_row = self.cursor_row - 1;
        }
        self.wrap_pending = false;
    }

    /// Inserts `n` blank cells at the cursor (a negative `n` deletes `-n`
    /// cells there); the rest of the row moves.
    pub fn shift_chars(&mut self, n: i64)
        requires
            old(self)@.wf(),
            -0x10000 <= n <= 0x10000,
        ensures
            final(self)@.wf(),
            final(self)@ == old(self)@.shift_chars(n as int),
    {
        let ghost pre = self@;
        proof {
            self.lemma_rows_view();
        }
        let r = self.cursor_row as usize;
        let row = shifted_cells(&self.grid[r], self.cursor_col, n);
        self.grid.set(r, row);
        self.wrap_pending = false;
        assert(self@.grid =~= pre.grid.update(r as int, shift_cells(pre.grid[r as int], pre.ccol as int, n as int)));
        assert forall|i: int| 0 <= i < self@.rows implies (#[trigger] self@.grid[i]).len() == self@.cols by {
            if i != r {
                assert(self@.grid[i] == pre.grid[i]);
            }
        }
    }

    /// Blanks `n` cells from the cursor on, stopping at the line's end.
    pub fn erase_chars(&mut self, n: u16)
        requires
            old(self)@.wf(),
        ensures
            final(self)@.wf(),
            final(self)@ == old(self)@.erase_chars(n as int),
    {
        let end: u32 = self.cursor_col as u32 + n as u32;
        let hi: u16 = if end < self.cols as u32 { end as u16 } else { self.cols };
        self.blank_span(self.cursor_row, self.cursor_col, hi);
    }

    /// Stores the cursor position.
    pub fn save_cursor(&mut self)
        requires
            old(self)@.wf(),
        ensures
            final(self)@.wf(),
            final(self)@ == old(self)@.save_cursor(),
    {
        self.saved_row = self.cursor_row;
        self.saved_col = self.cursor_col;
    }

    /// Moves the cursor back to the stored position, clamped to the screen.
    pub fn restore_cursor(&mut self)
        requires
            old(self)@.wf(),
        ensures
            final(self)@.wf(),
            final(self)@ == old(self)@.restore_cursor(),
    {
        self.move_to(self.saved_row as i64, self.saved_col as i64);
    }

    /// Changes the size: cells still in bounds keep their content, new cells
    /// are blank, the cursor is clamped and the scroll region is reset.
    pub fn resize(&mut self, rows: u16, cols: u16)
        requires
            old(self)@.wf(),
            rows >= 1,
            cols >= 1,
        ensures
            final(self)@.wf(),
            final(self)@ == old(self)@.resize(rows as nat, cols as nat),
    {
        let ghost pre = self@;
        assert forall|r: int| 0 <= r < self.rows implies (#[trigger] self.grid@[r])@.len() == self.cols by {
            assert(self@.grid[r] == self.grid@[r]@);
        }
        assert forall|r: int| 0 <= r < self.rows && self.alternate_screen implies (#[trigger] self.saved_grid@[r])@.len()
            == self.cols by {
            assert(self@.saved[r] == self.saved_grid@[r]@);
        }
        let grid = resized_grid(&self.grid, self.rows, self.cols, rows, cols);
        if self.alternate_screen {
            self.saved_grid = resized_grid(&self.saved_grid, self.rows, self.cols, rows, cols);
        }
        self.grid = grid;
        self.rows = rows;
        self.cols = cols;
        self.cursor_row = if self.cursor_row < rows { self.cursor_row } else { rows - 1 };
        self.cursor_col = if self.cursor_col < cols { self.cursor_col } else { cols - 1 };
        self.wrap_pending = false;
        self.scroll_top = 0;
        self.scroll_bottom = rows - 1;
        assert(self@.grid == pre.resize(rows as nat, cols as nat).grid);
    }
}

/// Writing a character keeps the screen well formed.
pub proof fn lemma_put_char_wf(s: ScreenModel, ch: char)
    requires
        s.wf(),
    ensures
        s.put_char(ch).wf(),
{
    let m1 = if s.wrap { s.carriage_return().line_feed() } else { s };
    if s.wrap {
        let t = s.carriage_return();
        if t.crow == t.bottom {
            assert forall|r: int| 0 <= r < t.rows implies (#[trigger] t.scroll_up().grid[r]).len() == t.cols by {
                if t.top <= r < t.bottom {
                    assert(t.grid[r + 1].len() == t.cols);
                }
            }
        }
    }
    assert(m1.wf());
    let m2 = m1.with_cell(m1.crow as int, m1.ccol as int, Cell { ch, pen: m1.pen });
    assert forall|r: int| 0 <= r < m2.rows implies (#[trigger] m2.grid[r]).len() == m2.cols by {
        if r != m1.crow {
            assert(m2.grid[r] == m1.grid[r]);
        }
    }
}

/// Resizing to the size a screen already has changes neither its cells
/// nor its cursor; so resizing twice to one size is the same as once.
pub proof fn lemma_resize_same_size(s: ScreenModel)
    requires
        s.wf(),
    ensures
        s.resize(s.rows, s.cols).grid == s.grid,
        s.resize(s.rows, s.cols).crow == s.crow,
        s.resize(s.rows, s.cols).ccol == s.ccol,
{
    let t = s.resize(s.rows, s.cols);
    assert forall|r: int| 0 <= r < s.rows implies #[trigger] t.grid[r] == s.grid[r] by {
        assert(t.grid[r] =~= s.grid[r]);
    }
    assert(t.grid =~= s.grid);
}

/// Resizing twice to the same size leaves cursor and cells as the first
/// resize left them, and a resize keeps every cell that stays in bounds.
pub proof fn lemma_resize_idempotent(s: ScreenModel, rows: nat, cols: nat)
    requires
        s.wf(),
        1 <= rows <= 0xffff,
        1 <= cols <= 0xffff,
    ensures
        s.resize(rows, cols).resize(rows, cols).grid == s.resize(rows, cols).grid,
        s.resize(rows, cols).resize(rows, cols).crow == s.resize(rows, cols).crow,
        s.resize(rows, cols).resize(rows, cols).ccol == s.resize(rows, cols).ccol,
        forall|r: int, c: int|
            0 <= r < rows && r < s.rows && 0 <= c < cols && c < s.cols ==> #[trigger] s.resize(rows, cols).grid[r][c]
                == s.grid[r][c],
{
    let t = s.resize(rows, cols);
    assert(t.wf());
    lemma_resize_same_size(t);
}

/// Erasing the whole line leaves the cursor's row all blank, whatever was
/// written there.
pub proof fn lemma_erase_whole_line(s: ScreenModel)
    requires
        s.wf(),
    ensures
        s.erase_line(2).grid[s.crow as int] == blank_row(s.cols),
        s.erase_line(2).crow == s.crow,
        s.erase_line(2).wf(),
{
    let t = s.erase_line(2);
    assert(t.grid[s.crow as int] =~= blank_row(s.cols));
    assert forall|r: int| 0 <= r < t.rows implies (#[trigger] t.grid[r]).len() == t.cols by {
        if r != s.crow {
            assert(t.grid[r] == s.grid[r]);
        }
    }
}

/// Erasing the whole display leaves every cell blank.
pub proof fn lemma_erase_whole_display(s: ScreenModel)
    requires
        s.wf(),
    ensures
        s.erase_display(2).grid == Seq::new(s.rows, |_r: int| blank_row(s.cols)),
        s.erase_display(2).wf(),
{
    let t = s.erase_display(2);
    assert forall|r: int| 0 <= r < s.rows implies #[trigger] t.grid[r] == blank_row(s.cols) by {
        assert(t.grid[r] =~= blank_row(s.cols));
    }
    assert(t.grid =~= Seq::new(s.rows, |_r: int| blank_row(s.cols)));
}

/// Entering and then leaving the alternate screen brings the main grid
/// back unchanged, whatever was drawn meanwhile on the alternate one.
pub proof fn lemma_alternate_round_trip(s: ScreenModel, alt_grid: Seq<Seq<Cell>>)
    requires
        s.wf(),
        !s.alt,
    ensures
        (ScreenModel { grid: alt_grid, ..s.switch_screen(true) }).switch_screen(false).grid == s.grid,
        s.switch_screen(true).wf(),
{
    let t = s.switch_screen(true);
    assert forall|r: int| 0 <= r < t.rows implies (#[trigger] t.grid[r]).len() == t.cols by {}
}

} // verus!
