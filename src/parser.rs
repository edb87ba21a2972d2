//! The VT100 byte-stream parser: a state machine that reads one byte at a
//! time and applies what it reads to a `ScreenBuffer`.
use vstd::prelude::*;
use crate::color::Color;
use crate::screen::{
    Pen, ScreenBuffer, ScreenModel, blank_row, lemma_erase_whole_display, lemma_erase_whole_line,
    lemma_put_char_wf, spec_plain_pen,
};

verus! {

/// Where the parser stands between bytes.
#[derive(Clone, Copy, Debug, PartialEq, Eq, Structural)]
pub enum ParseState {
    Ground,
    /// After ESC.
    Escape,
    /// After ESC and an intermediate byte: the next final byte is ignored.
    EscapeIntermediate,
    /// Inside `ESC [ ...`.
    Csi,
    /// Inside `ESC ] ...`.
    Osc,
    /// After ESC inside an OSC string: `\` ends it.
    OscEscape,
}

/// The largest number of CSI parameters kept.
pub const MAX_PARAMS: usize = 16;

/// The largest value a CSI parameter holds; larger ones saturate.
pub const MAX_PARAM_VALUE: u16 = 9999;

/// The longest OSC string kept; further bytes are dropped.
pub const MAX_OSC_LEN: usize = 512;

/// The mathematical parser: what a `Vt100Parser` holds.
pub struct ParserModel {
    pub screen: ScreenModel,
    pub state: ParseState,
    pub params: Seq<u16>,
    pub private: bool,
    pub overflow: bool,
    pub osc: Seq<u8>,
    pub utf8_need: u8,
    pub utf8_acc: u32,
}

/// One SGR parameter applied to a pen.
pub open spec fn sgr_one(pen: Pen, p: u16) -> Pen {
    if p == 0 {
        spec_plain_pen()
    } else if p == 1 {
        Pen { bold: true, ..pen }
    } else if p == 3 {
        Pen { italic: true, ..pen }
    } else if p == 4 {
        Pen { underline: true, ..pen }
    } else if p == 7 {
        Pen { inverse: true, ..pen }
    } else if p == 22 {
        Pen { bold: false, ..pen }
    } else if p == 23 {
        Pen { italic: false, ..pen }
    } else if p == 24 {
        Pen { underline: false, ..pen }
    } else if p == 27 {
        Pen { inverse: false, ..pen }
    } else if 30 <= p <= 37 {
        Pen { fg: Color::Idx((p - 30) as u8), ..pen }
    } else if p == 39 {
        Pen { fg: Color::Default, ..pen }
    } else if 40 <= p <= 47 {
        Pen { bg: Color::Idx((p - 40) as u8), ..pen }
    } else if p == 49 {
        Pen { bg: Color::Default, ..pen }
    } else if 90 <= p <= 97 {
        Pen { fg: Color::Idx((p - 82) as u8), ..pen }
    } else if 100 <= p <= 107 {
        Pen { bg: Color::Idx((p - 92) as u8), ..pen }
    } else {
        pen
    }
}

/// Sets the foreground (selector 38) or background (48) color.
pub open spec fn with_color(pen: Pen, sel: u16, c: Color) -> Pen {
    if sel == 38 { Pen { fg: c, ..pen } } else { Pen { bg: c, ..pen } }
}

/// The SGR parameters from index `i` on, applied to a pen. `38;5;n` and
/// `48;5;n` pick a palette index, `38;2;r;g;b` and `48;2;r;g;b` a 24-bit
/// color; an extended color that is cut short ends the list, and a
/// component above 255 leaves the color as it was.
pub open spec fn sgr_from(pen: Pen, ps: Seq<u16>, i: int) -> Pen
    decreases ps.len() - i,
{
    if i < 0 || i >= ps.len() {
        pen
    } else if ps[i] == 38 || ps[i] == 48 {
        let sel = ps[i];
        if i + 2 < ps.len() && ps[i + 1] == 5 {
            let n = ps[i + 2];
            let next_pen = if n <= 255 { with_color(pen, sel, Color::Idx(n as u8)) } else { pen };
            sgr_from(next_pen, ps, i + 3)
        } else if i + 4 < ps.len() && ps[i + 1] == 2 {
            let (r, g, b) = (ps[i + 2], ps[i + 3], ps[i + 4]);
            let next_pen = if r <= 255 && g <= 255 && b <= 255 {
                with_color(pen, sel, Color::Rgb(r as u8, g as u8, b as u8))
            } else {
                pen
            };
            sgr_from(next_pen, ps, i + 5)
        } else {
            pen
        }
    } else {
        sgr_from(sgr_one(pen, ps[i]), ps, i + 1)
    }
}

/// One DEC private mode set (`on`) or reset.
pub open spec fn mode_one(s: ScreenModel, p: u16, on: bool) -> ScreenModel {
    if p == 1 {
        ScreenModel { app_cursor: on, ..s }
    } else if p == 25 {
        ScreenModel { hidden: !on, ..s }
    } else if p == 47 || p == 1047 || p == 1049 {
        s.switch_screen(on)
    } else if p == 2004 {
        ScreenModel { paste: on, ..s }
    } else {
        s
    }
}

/// The private modes from index `i` on.
pub open spec fn modes_from(s: ScreenModel, ps: Seq<u16>, i: int, on: bool) -> ScreenModel
    decreases ps.len() - i,
{
    if i < 0 || i >= ps.len() {
        s
    } else {
        modes_from(mode_one(s, ps[i], on), ps, i + 1, on)
    }
}

/// The first parameter, or 0 when there is none.
pub open spec fn param0(ps: Seq<u16>) -> int {
    if ps.len() > 0 { ps[0] as int } else { 0 }
}

pub open spec fn param1(ps: Seq<u16>) -> int {
    if ps.len() > 1 { ps[1] as int } else { 0 }
}

/// A count parameter: 0 means 1.
pub open spec fn count_of(p: int) -> int {
    if p == 0 { 1 } else { p }
}

/// What a complete CSI sequence does to the screen.
pub open spec fn csi_dispatch(s: ScreenModel, ps: Seq<u16>, private: bool, overflow: bool, f: u8) -> ScreenModel {
    let n = count_of(param0(ps));
    let r = s.crow as int;
    let c = s.ccol as int;
    if overflow {
        s.error()
    } else if private {
        if f == 0x68 {
            modes_from(s, ps, 0, true)
        } else if f == 0x6c {
            modes_from(s, ps, 0, false)
        } else {
            s
        }
    } else if f == 0x41 {
        s.move_to(r - n, c)
    } else if f == 0x42 {
        s.move_to(r + n, c)
    } else if f == 0x43 {
        s.move_to(r, c + n)
    } else if f == 0x44 {
        s.move_to(r, c - n)
    } else if f == 0x45 {
        s.move_to(r + n, 0)
    } else if f == 0x46 {
        s.move_to(r - n, 0)
    } else if f == 0x47 {
        s.move_to(r, n - 1)
    } else if f == 0x64 {
        s.move_to(n - 1, c)
    } else if f == 0x48 || f == 0x66 {
        s.move_to(n - 1, count_of(param1(ps)) - 1)
    } else if f == 0x4a {
        if param0(ps) <= 2 { s.erase_display(param0(ps) as u16) } else { s }
    } else if f == 0x4b {
        if param0(ps) <= 2 { s.erase_line(param0(ps) as u16) } else { s }
    } else if f == 0x6d {
        ScreenModel { pen: sgr_from(s.pen, ps, 0), ..s }
    } else if f == 0x72 {
        let top = n - 1;
        let bottom = if param1(ps) == 0 { s.rows - 1 } else { param1(ps) - 1 };
        if top < bottom && bottom < s.rows {
            ScreenModel { top: top as nat, bottom: bottom as nat, ..s.move_to(0, 0) }
        } else {
            s
        }
    } else if f == 0x4c {
        s.insert_lines(n)
    } else if f == 0x4d {
        s.delete_lines(n)
    } else if f == 0x40 {
        s.shift_chars(n)
    } else if f == 0x50 {
        s.shift_chars(-n)
    } else if f == 0x58 {
        s.erase_chars(n)
    } else if f == 0x73 {
        s.save_cursor()
    } else if f == 0x75 {
        s.restore_cursor()
    } else {
        s
    }
}

/// Where lossy UTF-8 decoding of a byte string stands: how many
/// continuation bytes are owed, the value so far, the characters out.
pub struct Utf8Text {
    pub need: u8,
    pub acc: u32,
    pub out: Seq<char>,
}

/// One more byte of lossy UTF-8: a broken or invalid sequence gives one
/// replacement character.
pub open spec fn text_step(t: Utf8Text, b: u8) -> Utf8Text {
    if t.need > 0 && 0x80 <= b < 0xc0 {
        let acc = (t.acc * 64 + (b - 0x80)) as u32;
        if t.need == 1 {
            Utf8Text { need: 0, acc: 0, out: t.out.push(scalar_char(acc)) }
        } else {
            Utf8Text { need: (t.need - 1) as u8, acc, out: t.out }
        }
    } else {
        let out = if t.need > 0 { t.out.push('\u{FFFD}') } else { t.out };
        if b < 0x80 {
            Utf8Text { need: 0, acc: 0, out: out.push((b as u32) as char) }
        } else if 0xc2 <= b <= 0xdf {
            Utf8Text { need: 1, acc: (b - 0xc0) as u32, out }
        } else if 0xe0 <= b <= 0xef {
            Utf8Text { need: 2, acc: (b - 0xe0) as u32, out }
        } else if 0xf0 <= b <= 0xf4 {
            Utf8Text { need: 3, acc: (b - 0xf0) as u32, out }
        } else {
            Utf8Text { need: 0, acc: 0, out: out.push('\u{FFFD}') }
        }
    }
}

pub open spec fn text_fold(bytes: Seq<u8>) -> Utf8Text
    decreases bytes.len(),
{
    if bytes.len() == 0 {
        Utf8Text { need: 0, acc: 0, out: Seq::empty() }
    } else {
        text_step(text_fold(bytes.drop_last()), bytes.last())
    }
}

/// The characters of a byte string read as UTF-8, with a replacement
/// character for each broken sequence, a cut-off end included.
pub open spec fn decode_lossy(bytes: Seq<u8>) -> Seq<char> {
    let t = text_fold(bytes);
    if t.need > 0 { t.out.push('\u{FFFD}') } else { t.out }
}

pub open spec fn text_ok(t: Utf8Text) -> bool {
    &&& t.need <= 3
    &&& t.acc < 0x8000
    &&& t.need == 3 ==> t.acc < 8
    &&& t.need == 2 ==> t.acc < 512
}

/// What an OSC string does: `0;t` sets title and icon name, `1;t` the icon
/// name, `2;t` the title; other strings are ignored.
pub open spec fn osc_dispatch(s: ScreenModel, osc: Seq<u8>) -> ScreenModel {
    if osc.len() >= 2 && osc[1] == 0x3b && 0x30 <= osc[0] <= 0x32 {
        let t = decode_lossy(osc.subrange(2, osc.len() as int));
        if osc[0] == 0x30 {
            ScreenModel { title: t, icon: t, ..s }
        } else if osc[0] == 0x31 {
            ScreenModel { icon: t, ..s }
        } else {
            ScreenModel { title: t, ..s }
        }
    } else {
        s
    }
}

/// A C0 control byte (other than ESC).
pub open spec fn control(s: ScreenModel, b: u8) -> ScreenModel {
    if b == 0x07 {
        s.bell()
    } else if b == 0x08 {
        s.backspace()
    } else if b == 0x09 {
        s.tab()
    } else if b == 0x0a || b == 0x0b || b == 0x0c {
        s.line_feed()
    } else if b == 0x0d {
        s.carriage_return()
    } else {
        s
    }
}

pub open spec fn is_scalar(u: u32) -> bool {
    u <= 0x10ffff && !(0xd800 <= u <= 0xdfff)
}

/// The character a decoded UTF-8 value stands for.
pub open spec fn scalar_char(u: u32) -> char {
    if is_scalar(u) { u as char } else { '\u{FFFD}' }
}

impl ParserModel {
    pub open spec fn wf(self) -> bool {
        &&& self.screen.wf()
        &&& 1 <= self.params.len() <= MAX_PARAMS
        &&& self.osc.len() <= MAX_OSC_LEN
        &&& self.utf8_need <= 3
        &&& self.utf8_acc < 0x8000
        &&& self.utf8_need == 3 ==> self.utf8_acc < 8
        &&& self.utf8_need == 2 ==> self.utf8_acc < 512
    }

    pub open spec fn fresh(rows: nat, cols: nat) -> ParserModel {
        ParserModel {
            screen: ScreenModel::fresh(rows, cols),
            state: ParseState::Ground,
            params: seq![0u16],
            private: false,
            overflow: false,
            osc: Seq::empty(),
            utf8_need: 0,
            utf8_acc: 0,
        }
    }

    pub open spec fn with_screen(self, s: ScreenModel) -> ParserModel {
        ParserModel { screen: s, ..self }
    }

    pub open spec fn goto(self, st: ParseState) -> ParserModel {
        ParserModel { state: st, ..self }
    }

    /// A digit of the current CSI parameter.
    pub open spec fn csi_digit(self, d: u8) -> ParserModel {
        let last = self.params.last() as int;
        let v = last * 10 + d;
        let v2 = if v <= MAX_PARAM_VALUE { v } else { MAX_PARAM_VALUE as int };
        ParserModel { params: self.params.update(self.params.len() - 1, v2 as u16), ..self }
    }

    /// A `;`: a new CSI parameter starts, unless there are too many.
    pub open spec fn csi_separator(self) -> ParserModel {
        if self.params.len() < MAX_PARAMS {
            ParserModel { params: self.params.push(0), ..self }
        } else {
            ParserModel { overflow: true, ..self }
        }
    }

    pub open spec fn enter_csi(self) -> ParserModel {
        ParserModel {
            state: ParseState::Csi,
            params: seq![0u16],
            private: false,
            overflow: false,
            ..self
        }
    }

    pub open spec fn enter_osc(self) -> ParserModel {
        ParserModel { state: ParseState::Osc, osc: Seq::empty(), ..self }
    }

    pub open spec fn osc_byte(self, b: u8) -> ParserModel {
        if self.osc.len() < MAX_OSC_LEN {
            ParserModel { osc: self.osc.push(b), ..self }
        } else {
            self
        }
    }

    /// A byte at or above 0x80 in the ground state: part of UTF-8 text.
    pub open spec fn utf8_byte(self, b: u8) -> ParserModel {
        if self.utf8_need > 0 && 0x80 <= b < 0xc0 {
            let acc = (self.utf8_acc * 64 + (b - 0x80)) as u32;
            if self.utf8_need == 1 {
                ParserModel { utf8_need: 0, utf8_acc: 0, ..self.with_screen(self.screen.put_char(scalar_char(acc))) }
            } else {
                ParserModel { utf8_need: (self.utf8_need - 1) as u8, utf8_acc: acc, ..self }
            }
        } else {
            let m = if self.utf8_need > 0 { self.with_screen(self.screen.error()) } else { self };
            if 0xc2 <= b <= 0xdf {
                ParserModel { utf8_need: 1, utf8_acc: (b - 0xc0) as u32, ..m }
            } else if 0xe0 <= b <= 0xef {
                ParserModel { utf8_need: 2, utf8_acc: (b - 0xe0) as u32, ..m }
            } else if 0xf0 <= b <= 0xf4 {
                ParserModel { utf8_need: 3, utf8_acc: (b - 0xf0) as u32, ..m }
            } else {
                ParserModel { utf8_need: 0, utf8_acc: 0, ..m.with_screen(m.screen.error()) }
            }
        }
    }

    /// A byte below 0x80 in the ground state.
    pub open spec fn ground_ascii(self, b: u8) -> ParserModel {
        if b == 0x1b {
            self.goto(ParseState::Escape)
        } else if b < 0x20 {
            self.with_screen(control(self.screen, b))
        } else if b < 0x7f {
            self.with_screen(self.screen.put_char((b as u32) as char))
        } else {
            self
        }
    }

    /// The parser after one more byte.
    pub open spec fn step(self, b: u8) -> ParserModel {
        match self.state {
            ParseState::Ground => {
                if b >= 0x80 {
                    self.utf8_byte(b)
                } else if self.utf8_need > 0 {
                    ParserModel { utf8_need: 0, utf8_acc: 0, ..self.with_screen(self.screen.error()) }.ground_ascii(b)
                } else {
                    self.ground_ascii(b)
                }
            },
            ParseState::Escape => {
                if b == 0x5b {
                    self.enter_csi()
                } else if b == 0x5d {
                    self.enter_osc()
                } else if b == 0x1b {
                    self
                } else if b < 0x20 {
                    self.with_screen(control(self.screen, b))
                } else if b < 0x30 {
                    self.goto(ParseState::EscapeIntermediate)
                } else if b == 0x3d {
                    self.with_screen(ScreenModel { app_keypad: true, ..self.screen }).goto(ParseState::Ground)
                } else if b == 0x3e {
                    self.with_screen(ScreenModel { app_keypad: false, ..self.screen }).goto(ParseState::Ground)
                } else if b == 0x37 {
                    self.with_screen(self.screen.save_cursor()).goto(ParseState::Ground)
                } else if b == 0x38 {
                    self.with_screen(self.screen.restore_cursor()).goto(ParseState::Ground)
                } else if b == 0x4d {
                    self.with_screen(self.screen.reverse_index()).goto(ParseState::Ground)
                } else if b < 0x7f {
                    self.goto(ParseState::Ground)
                } else {
                    self.with_screen(self.screen.error()).goto(ParseState::Ground)
                }
            },
            ParseState::EscapeIntermediate => {
                if b == 0x1b {
                    self.goto(ParseState::Escape)
                } else if b < 0x20 {
                    self.with_screen(control(self.screen, b))
                } else if b < 0x30 {
                    self
                } else if b < 0x7f {
                    self.goto(ParseState::Ground)
                } else {
                    self.with_screen(self.screen.error()).goto(ParseState::Ground)
                }
            },
            ParseState::Csi => {
                if 0x30 <= b <= 0x39 {
                    self.csi_digit((b - 0x30) as u8)
                } else if b == 0x3b {
                    self.csi_separator()
                } else if b == 0x3f {
                    ParserModel { private: true, ..self }
                } else if b == 0x1b {
                    self.goto(ParseState::Escape)
                } else if b < 0x20 {
                    self.with_screen(control(self.screen, b))
                } else if b < 0x40 {
                    self
                } else if b < 0x7f {
                    self.with_screen(csi_dispatch(self.screen, self.params, self.private, self.overflow, b)).goto(
                        ParseState::Ground,
                    )
                } else {
                    self.with_screen(self.screen.error()).goto(ParseState::Ground)
                }
            },
            ParseState::Osc => {
                if b == 0x07 {
                    self.with_screen(osc_dispatch(self.screen, self.osc)).goto(ParseState::Ground)
                } else if b == 0x1b {
                    self.goto(ParseState::OscEscape)
                } else if b < 0x20 {
                    self
                } else {
                    self.osc_byte(b)
                }
            },
            ParseState::OscEscape => {
                if b == 0x5c {
                    self.with_screen(osc_dispatch(self.screen, self.osc)).goto(ParseState::Ground)
                } else {
                    self.with_screen(self.screen.error()).goto(ParseState::Ground)
                }
            },
        }
    }
}

/// The parser after each byte of `bytes` in turn.
pub open spec fn feed(m: ParserModel, bytes: Seq<u8>) -> ParserModel
    decreases bytes.len(),
{
    if bytes.len() == 0 {
        m
    } else {
        feed(m, bytes.drop_last()).step(bytes.last())
    }
}

/// Relies on std's `char::from_u32`: `Some` exactly for Unicode scalar
/// values (at most 0x10FFFF and outside the surrogate range).
#[verifier::external_body]
fn char_from_u32(u: u32) -> (r: Option<char>)
    ensures
        is_scalar(u) ==> r == Some(u as char),
        !is_scalar(u) ==> r is None,
{
    char::from_u32(u)
}

fn scalar_to_char(u: u32) -> (c: char)
    ensures
        c == scalar_char(u),
{
    match char_from_u32(u) {
        Some(c) => c,
        None => '\u{FFFD}',
    }
}

/// Decodes `bytes[from..]` as lossy UTF-8.
fn decode_from(bytes: &Vec<u8>, from: usize) -> (r: Vec<char>)
    requires
        from <= bytes@.len(),
    ensures
        r@ == decode_lossy(bytes@.subrange(from as int, bytes@.len() as int)),
{
    let ghost src = bytes@.subrange(from as int, bytes@.len() as int);
    let mut out: Vec<char> = Vec::new();
    let mut need: u8 = 0;
    let mut acc: u32 = 0;
    let mut i: usize = from;
    assert(bytes@.subrange(from as int, from as int) =~= Seq::<u8>::empty());
    while i < bytes.len()
        invariant
            from <= i <= bytes@.len(),
            src == bytes@.subrange(from as int, bytes@.len() as int),
            text_fold(bytes@.subrange(from as int, i as int)) == (Utf8Text { need, acc, out: out@ }),
            text_ok(Utf8Text { need, acc, out: out@ }),
        decreases bytes@.len() - i,
    {
        let b = bytes[i];
        assert(bytes@.subrange(from as int, i + 1).drop_last() =~= bytes@.subrange(from as int, i as int));
        if need > 0 && 0x80 <= b && b < 0xc0 {
            let v: u32 = acc * 64 + (b - 0x80) as u32;
            if need == 1 {
                out.push(scalar_to_char(v));
                need = 0;
                acc = 0;
            } else {
                need = need - 1;
                acc = v;
            }
        } else {
            if need > 0 {
                out.push('\u{FFFD}');
            }
            if b < 0x80 {
                out.push(scalar_to_char(b as u32));
                need = 0;
                acc = 0;
            } else if 0xc2 <= b && b <= 0xdf {
                need = 1;
                acc = (b - 0xc0) as u32;
            } else if 0xe0 <= b && b <= 0xef {
                need = 2;
                acc = (b - 0xe0) as u32;
            } else if 0xf0 <= b && b <= 0xf4 {
                need = 3;
                acc = (b - 0xf0) as u32;
            } else {
                out.push('\u{FFFD}');
                need = 0;
                acc = 0;
            }
        }
        i = i + 1;
        assert(text_fold(bytes@.subrange(from as int, i as int)).out =~= out@);
    }
    assert(bytes@.subrange(from as int, i as int) =~= src);
    if need > 0 {
        out.push('\u{FFFD}');
    }
    out
}

/// Applies the SGR parameters to a pen.
pub fn apply_sgr(pen: Pen, ps: &Vec<u16>) -> (r: Pen)
    ensures
        r == sgr_from(pen, ps@, 0),
{
    let mut p = pen;
    let mut i: usize = 0;
    while i < ps.len()
        invariant
            i <= ps@.len(),
            sgr_from(p, ps@, i as int) == sgr_from(pen, ps@, 0),
        decreases ps@.len() - i,
    {
        let v = ps[i];
        if v == 38 || v == 48 {
            if ps.len() - i > 2 && ps[i + 1] == 5 {
                let n = ps[i + 2];
                if n <= 255 {
                    p = if v == 38 { Pen { fg: Color::Idx(n as u8), ..p } } else { Pen { bg: Color::Idx(n as u8), ..p } };
                }
                i = i + 3;
            } else if ps.len() - i > 4 && ps[i + 1] == 2 {
                let (r, g, b) = (ps[i + 2], ps[i + 3], ps[i + 4]);
                if r <= 255 && g <= 255 && b <= 255 {
                    let c = Color::Rgb(r as u8, g as u8, b as u8);
                    p = if v == 38 { Pen { fg: c, ..p } } else { Pen { bg: c, ..p } };
                }
                i = i + 5;
            } else {
                return p;
            }
        } else {
            p = sgr_param(p, v);
            i = i + 1;
        }
    }
    p
}

fn sgr_param(pen: Pen, v: u16) -> (r: Pen)
    ensures
        r == sgr_one(pen, v),
{
    if v == 0 {
        Pen::plain()
    } else if v == 1 {
        Pen { bold: true, ..pen }
    } else if v == 3 {
        Pen { italic: true, ..pen }
    } else if v == 4 {
        Pen { underline: true, ..pen }
    } else if v == 7 {
        Pen { inverse: true, ..pen }
    } else if v == 22 {
        Pen { bold: false, ..pen }
    } else if v == 23 {
        Pen { italic: false, ..pen }
    } else if v == 24 {
        Pen { underline: false, ..pen }
    } else if v == 27 {
        Pen { inverse: false, ..pen }
    } else if 30 <= v && v <= 37 {
        Pen { fg: Color::Idx((v - 30) as u8), ..pen }
    } else if v == 39 {
        Pen { fg: Color::Default, ..pen }
    } else if 40 <= v && v <= 47 {
        Pen { bg: Color::Idx((v - 40) as u8), ..pen }
    } else if v == 49 {
        Pen { bg: Color::Default, ..pen }
    } else if 90 <= v && v <= 97 {
        Pen { fg: Color::Idx((v - 82) as u8), ..pen }
    } else if 100 <= v && v <= 107 {
        Pen { bg: Color::Idx((v - 92) as u8), ..pen }
    } else {
        pen
    }
}

/// Applies a C0 control byte (other than ESC) to the screen.
pub fn apply_control(s: &mut ScreenBuffer, b: u8)
    requires
        old(s)@.wf(),
    ensures
        final(s)@.wf(),
        final(s)@ == control(old(s)@, b),
{
    if b == 0x07 {
        s.bell();
    } else if b == 0x08 {
        s.backspace();
    } else if b == 0x09 {
        s.tab();
    } else if b == 0x0a || b == 0x0b || b == 0x0c {
        s.line_feed();
    } else if b == 0x0d {
        s.carriage_return();
    }
}

fn apply_mode(s: &mut ScreenBuffer, p: u16, on: bool)
    requires
        old(s)@.wf(),
    ensures
        final(s)@.wf(),
        final(s)@ == mode_one(old(s)@, p, on),
{
    if p == 1 {
        s.set_application_cursor(on);
    } else if p == 25 {
        s.set_cursor_hidden(!on);
    } else if p == 47 || p == 1047 || p == 1049 {
        s.set_alternate_screen(on);
    } else if p == 2004 {
        s.set_bracketed_paste(on);
    }
}

/// Sets (`on`) or resets each DEC private mode in `ps`.
pub fn apply_modes(s: &mut ScreenBuffer, ps: &Vec<u16>, on: bool)
    requires
        old(s)@.wf(),
    ensures
        final(s)@.wf(),
        final(s)@ == modes_from(old(s)@, ps@, 0, on),
{
    let mut i: usize = 0;
    while i < ps.len()
        invariant
            i <= ps@.len(),
            s@.wf(),
            modes_from(s@, ps@, i as int, on) == modes_from(old(s)@, ps@, 0, on),
        decreases ps@.len() - i,
    {
        apply_mode(s, ps[i], on);
        i = i + 1;
    }
}

/// Applies a complete CSI sequence with final byte `f`.
pub fn dispatch_csi(s: &mut ScreenBuffer, ps: &Vec<u16>, private: bool, overflow: bool, f: u8)
    requires
        old(s)@.wf(),
    ensures
        final(s)@.wf(),
        final(s)@ == csi_dispatch(old(s)@, ps@, private, overflow, f),
{
    let p0: i64 = if ps.len() > 0 { ps[0] as i64 } else { 0 };
    let p1: i64 = if ps.len() > 1 { ps[1] as i64 } else { 0 };
    let n: i64 = if p0 == 0 { 1 } else { p0 };
    let (row, col) = s.cursor_position();
    let r = row as i64;
    let c = col as i64;
    if overflow {
        s.count_error();
    } else if private {
        if f == 0x68 {
            apply_modes(s, ps, true);
        } else if f == 0x6c {
            apply_modes(s, ps, false);
        }
    } else if f == 0x41 {
        s.move_to(r - n, c);
    } else if f == 0x42 {
        s.move_to(r + n, c);
    } else if f == 0x43 {
        s.move_to(r, c + n);
    } else if f == 0x44 {
        s.move_to(r, c - n);
    } else if f == 0x45 {
        s.move_to(r + n, 0);
    } else if f == 0x46 {
        s.move_to(r - n, 0);
    } else if f == 0x47 {
        s.move_to(r, n - 1);
    } else if f == 0x64 {
        s.move_to(n - 1, c);
    } else if f == 0x48 || f == 0x66 {
        let m: i64 = if p1 == 0 { 1 } else { p1 };
        s.move_to(n - 1, m - 1);
    } else if f == 0x4a {
        if p0 <= 2 {
            s.erase_in_display(p0 as u16);
        }
    } else if f == 0x4b {
        if p0 <= 2 {
            s.erase_in_line(p0 as u16);
        }
    } else if f == 0x6d {
        let pen = apply_sgr(s.pen(), ps);
        s.set_pen(pen);
    } else if f == 0x72 {
        let top: i64 = n - 1;
        let bottom: i64 = if p1 == 0 { s.rows() as i64 - 1 } else { p1 - 1 };
        if top < bottom && bottom < s.rows() as i64 {
            s.set_scroll_region(top as u16, bottom as u16);
        }
    } else if f == 0x4c {
        s.insert_lines(n as u16);
    } else if f == 0x4d {
        s.delete_lines(n as u16);
    } else if f == 0x40 {
        s.shift_chars(n);
    } else if f == 0x50 {
        s.shift_chars(-n);
    } else if f == 0x58 {
        s.erase_chars(n as u16);
    } else if f == 0x73 {
        s.save_cursor();
    } else if f == 0x75 {
        s.restore_cursor();
    }
}

/// Applies a complete OSC string.
pub fn dispatch_osc(s: &mut ScreenBuffer, osc: &Vec<u8>)
    requires
        old(s)@.wf(),
    ensures
        final(s)@.wf(),
        final(s)@ == osc_dispatch(old(s)@, osc@),
{
    if osc.len() >= 2 && osc[1] == 0x3b && 0x30 <= osc[0] && osc[0] <= 0x32 {
        let t = decode_from(osc, 2);
        if osc[0] == 0x30 {
            let t2 = copy_chars(&t);
            s.set_title(t);
            s.set_icon_name(t2);
        } else if osc[0] == 0x31 {
            s.set_icon_name(t);
        } else {
            s.set_title(t);
        }
    }
}

fn copy_chars(v: &Vec<char>) -> (r: Vec<char>)
    ensures
        r@ == v@,
{
    let mut r: Vec<char> = Vec::new();
    let mut i: usize = 0;
    while i < v.len()
        invariant
            i <= v@.len(),
            r@ == v@.subrange(0, i as int),
        decreases v@.len() - i,
    {
        r.push(v[i]);
        i = i + 1;
        assert(r@ =~= v@.subrange(0, i as int));
    }
    assert(r@ =~= v@);
    r
}

/// A VT100 terminal: the screen and the parser state between bytes.
pub struct Vt100Parser {
    screen: ScreenBuffer,
    state: ParseState,
    params: Vec<u16>,
    private: bool,
    overflow: bool,
    osc: Vec<u8>,
    utf8_need: u8,
    utf8_acc: u32,
}

impl View for Vt100Parser {
    type V = ParserModel;

    closed spec fn view(&self) -> ParserModel {
        ParserModel {
            screen: self.screen@,
            state: self.state,
            params: self.params@,
            private: self.private,
            overflow: self.overflow,
            osc: self.osc@,
            utf8_need: self.utf8_need,
            utf8_acc: self.utf8_acc,
        }
    }
}

impl Vt100Parser {
    /// A terminal of `rows` by `cols` (each at least one), blank, in the
    /// ground state.
    pub fn new(rows: u16, cols: u16) -> (p: Vt100Parser)
        requires
            rows >= 1,
            cols >= 1,
        ensures
            p@.wf(),
            p@ == ParserModel::fresh(rows as nat, cols as nat),
    {
        let p = Vt100Parser {
            screen: ScreenBuffer::new(rows, cols),
            state: ParseState::Ground,
            params: vec![0u16],
            private: false,
            overflow: false,
            osc: Vec::new(),
            utf8_need: 0,
            utf8_acc: 0,
        };
        assert(p@.params =~= seq![0u16]);
        assert(p@.osc =~= Seq::<u8>::empty());
        p
    }

    /// The screen as the bytes so far left it.
    pub fn screen(&self) -> (s: &ScreenBuffer)
        ensures
            s@ == self@.screen,
    {
        &self.screen
    }

    /// The parser state between bytes.
    pub fn state(&self) -> (st: ParseState)
        ensures
            st == self@.state,
    {
        self.state
    }

    /// Changes the screen size (see `ScreenBuffer::resize`); the parser
    /// state is kept.
    pub fn resize(&mut self, rows: u16, cols: u16)
        requires
            old(self)@.wf(),
            rows >= 1,
            cols >= 1,
        ensures
            final(self)@.wf(),
            final(self)@ == old(self)@.with_screen(old(self)@.screen.resize(rows as nat, cols as nat)),
    {
        self.screen.resize(rows, cols);
    }

    fn ground_ascii(&mut self, b: u8)
        requires
            old(self)@.wf(),
            b < 0x80,
        ensures
            final(self)@.wf(),
            final(self)@ == old(self)@.ground_ascii(b),
    {
        if b == 0x1b {
            self.state = ParseState::Escape;
        } else if b < 0x20 {
            apply_control(&mut self.screen, b);
        } else if b < 0x7f {
            let c = scalar_to_char(b as u32);
            self.screen.put_char(c);
        }
    }

    fn utf8_byte(&mut self, b: u8)
        requires
            old(self)@.wf(),
            b >= 0x80,
        ensures
            final(self)@.wf(),
            final(self)@ == old(self)@.utf8_byte(b),
    {
        if self.utf8_need > 0 && b < 0xc0 {
            let acc: u32 = self.utf8_acc * 64 + (b - 0x80) as u32;
            if self.utf8_need == 1 {
                let c = scalar_to_char(acc);
                self.screen.put_char(c);
                self.utf8_need = 0;
                self.utf8_acc = 0;
            } else {
                self.utf8_need = self.utf8_need - 1;
                self.utf8_acc = acc;
            }
        } else {
            if self.utf8_need > 0 {
                self.screen.count_error();
            }
            if 0xc2 <= b && b <= 0xdf {
                self.utf8_need = 1;
                self.utf8_acc = (b - 0xc0) as u32;
            } else if 0xe0 <= b && b <= 0xef {
                self.utf8_need = 2;
                self.utf8_acc = (b - 0xe0) as u32;
            } else if 0xf0 <= b && b <= 0xf4 {
                self.utf8_need = 3;
                self.utf8_acc = (b - 0xf0) as u32;
            } else {
                self.screen.count_error();
                self.utf8_need = 0;
                self.utf8_acc = 0;
            }
        }
    }

    /// Reads one byte.
    pub fn process_byte(&mut self, b: u8)
        requires
            old(self)@.wf(),
        ensures
            final(self)@.wf(),
            final(self)@ == old(self)@.step(b),
    {
        match self.state {
            ParseState::Ground => {
                if b >= 0x80 {
                    self.utf8_byte(b);
                } else {
                    if self.utf8_need > 0 {
                        self.screen.count_error();
                        self.utf8_need = 0;
                        self.utf8_acc = 0;
                    }
                    self.ground_ascii(b);
                }
            },
            ParseState::Escape => {
                if b == 0x5b {
                    self.state = ParseState::Csi;
                    self.params = vec![0u16];
                    self.private = false;
                    self.overflow = false;
                    assert(self@.params =~= seq![0u16]);
                } else if b == 0x5d {
                    self.state = ParseState::Osc;
                    self.osc = Vec::new();
                    assert(self@.osc =~= Seq::<u8>::empty());
                } else if b == 0x1b {
                } else if b < 0x20 {
                    apply_control(&mut self.screen, b);
                } else if b < 0x30 {
                    self.state = ParseState::EscapeIntermediate;
                } else if b == 0x3d {
                    self.screen.set_application_keypad(true);
                    self.state = ParseState::Ground;
                } else if b == 0x3e {
                    self.screen.set_application_keypad(false);
                    self.state = ParseState::Ground;
                } else if b == 0x37 {
                    self.screen.save_cursor();
                    self.state = ParseState::Ground;
                } else if b == 0x38 {
                    self.screen.restore_cursor();
                    self.state = ParseState::Ground;
                } else if b == 0x4d {
                    self.screen.reverse_index();
                    self.state = ParseState::Ground;
                } else if b < 0x7f {
                    self.state = ParseState::Ground;
                } else {
                    self.screen.count_error();
                    self.state = ParseState::Ground;
                }
            },
            ParseState::EscapeIntermediate => {
                if b == 0x1b {
                    self.state = ParseState::Escape;
                } else if b < 0x20 {
                    apply_control(&mut self.screen, b);
                } else if b < 0x30 {
                } else if b < 0x7f {
                    self.state = ParseState::Ground;
                } else {
                    self.screen.count_error();
                    self.state = ParseState::Ground;
                }
            },
            ParseState::Csi => {
                if 0x30 <= b && b <= 0x39 {
                    let k = self.params.len() - 1;
                    let last = self.params[k] as u32;
                    let v: u32 = last * 10 + (b - 0x30) as u32;
                    let v2: u16 = if v <= MAX_PARAM_VALUE as u32 { v as u16 } else { MAX_PARAM_VALUE };
                    self.params.set(k, v2);
                } else if b == 0x3b {
                    if self.params.len() < MAX_PARAMS {
                        self.params.push(0);
                    } else {
                        self.overflow = true;
                    }
                } else if b == 0x3f {
                    self.private = true;
                } else if b == 0x1b {
                    self.state = ParseState::Escape;
                } else if b < 0x20 {
                    apply_control(&mut self.screen, b);
                } else if b < 0x40 {
                } else if b < 0x7f {
                    dispatch_csi(&mut self.screen, &self.params, self.private, self.overflow, b);
                    self.state = ParseState::Ground;
                } else {
                    self.screen.count_error();
                    self.state = ParseState::Ground;
                }
            },
            ParseState::Osc => {
                if b == 0x07 {
                    dispatch_osc(&mut self.screen, &self.osc);
                    self.state = ParseState::Ground;
                } else if b == 0x1b {
                    self.state = ParseState::OscEscape;
                } else if b < 0x20 {
                } else if self.osc.len() < MAX_OSC_LEN {
                    self.osc.push(b);
                }
            },
            ParseState::OscEscape => {
                if b == 0x5c {
                    dispatch_osc(&mut self.screen, &self.osc);
                } else {
                    self.screen.count_error();
                }
                self.state = ParseState::Ground;
            },
        }
    }

    /// Reads the bytes in order. Any split of a stream into chunks leaves
    /// the same terminal (see `lemma_feed_split`).
    pub fn process(&mut self, bytes: &[u8])
        requires
            old(self)@.wf(),
        ensures
            final(self)@.wf(),
            final(self)@ == feed(old(self)@, bytes@),
    {
        let mut i: usize = 0;
        while i < bytes.len()
            invariant
                i <= bytes@.len(),
                self@.wf(),
                self@ == feed(old(self)@, bytes@.subrange(0, i as int)),
            decreases bytes@.len() - i,
        {
            let ghost prev = bytes@.subrange(0, i as int);
            self.process_byte(bytes[i]);
            i = i + 1;
            assert(bytes@.subrange(0, i as int).drop_last() =~= prev);
        }
        assert(bytes@.subrange(0, i as int) =~= bytes@);
    }
}

/// Feeding a stream in two chunks gives the same terminal as feeding it at
/// once: the parser does not depend on where chunks end.
pub proof fn lemma_feed_split(m: ParserModel, a: Seq<u8>, b: Seq<u8>)
    ensures
        feed(feed(m, a), b) == feed(m, a + b),
    decreases b.len(),
{
    if b.len() == 0 {
        assert(a + b =~= a);
    } else {
        lemma_feed_split(m, a, b.drop_last());
        assert((a + b).drop_last() =~= a + b.drop_last());
        assert((a + b).last() == b.last());
    }
}

/// The parser is at rest: in the ground state with no UTF-8 sequence open.
pub open spec fn at_rest(m: ParserModel) -> bool {
    m.wf() && m.state == ParseState::Ground && m.utf8_need == 0
}

/// Bytes that print themselves.
pub open spec fn printable(text: Seq<u8>) -> bool {
    forall|i: int| 0 <= i < text.len() ==> 0x20 <= #[trigger] text[i] < 0x7f
}

proof fn lemma_feed_one(m: ParserModel, a: Seq<u8>, b: u8)
    ensures
        feed(m, a.push(b)) == feed(m, a).step(b),
{
    assert(a.push(b).drop_last() =~= a);
}

/// Printable text leaves a parser at rest at rest.
pub proof fn lemma_text_keeps_rest(m: ParserModel, text: Seq<u8>)
    requires
        at_rest(m),
        printable(text),
    ensures
        at_rest(feed(m, text)),
    decreases text.len(),
{
    if text.len() > 0 {
        let t = text.drop_last();
        assert(printable(t)) by {
            assert forall|i: int| 0 <= i < t.len() implies 0x20 <= #[trigger] t[i] < 0x7f by {
                assert(t[i] == text[i]);
            }
        }
        lemma_text_keeps_rest(m, t);
        let p = feed(m, t);
        let b = text.last();
        assert(0x20 <= text[text.len() - 1] < 0x7f);
        lemma_put_char_wf(p.screen, (b as u32) as char);
    }
}

/// Four bytes fed one after another.
#[verifier::rlimit(60)]
proof fn lemma_feed_four(m: ParserModel, a: u8, b: u8, c: u8, d: u8)
    ensures
        feed(m, seq![a, b, c, d]) == m.step(a).step(b).step(c).step(d),
{
    let s0 = Seq::<u8>::empty();
    assert(feed(m, s0) == m);
    lemma_feed_one(m, s0, a);
    assert(s0.push(a) =~= seq![a]);
    lemma_feed_one(m, seq![a], b);
    assert(seq![a].push(b) =~= seq![a, b]);
    lemma_feed_one(m, seq![a, b], c);
    assert(seq![a, b].push(c) =~= seq![a, b, c]);
    lemma_feed_one(m, seq![a, b, c], d);
    assert(seq![a, b, c].push(d) =~= seq![a, b, c, d]);
}

/// Three bytes fed one after another.
#[verifier::rlimit(60)]
proof fn lemma_feed_three(m: ParserModel, a: u8, b: u8, c: u8)
    ensures
        feed(m, seq![a, b, c]) == m.step(a).step(b).step(c),
{
    let s0 = Seq::<u8>::empty();
    assert(feed(m, s0) == m);
    lemma_feed_one(m, s0, a);
    assert(s0.push(a) =~= seq![a]);
    lemma_feed_one(m, seq![a], b);
    assert(seq![a].push(b) =~= seq![a, b]);
    lemma_feed_one(m, seq![a, b], c);
    assert(seq![a, b].push(c) =~= seq![a, b, c]);
}

/// `ESC [ n X` with a one-digit parameter, from rest: the CSI dispatch.
proof fn lemma_csi_one_digit(m: ParserModel, d: u8, f: u8)
    requires
        at_rest(m),
        0x30 <= d <= 0x39,
        0x40 <= f < 0x7f,
    ensures
        feed(m, seq![0x1bu8, 0x5bu8, d, f]) == (ParserModel {
            screen: csi_dispatch(m.screen, seq![(d - 0x30) as u16], false, false, f),
            state: ParseState::Ground,
            params: seq![(d - 0x30) as u16],
            private: false,
            overflow: false,
            ..m
        }),
{
    lemma_feed_four(m, 0x1b, 0x5b, d, f);
    let m3 = m.step(0x1b).step(0x5b).step(d);
    assert(m3.params =~= seq![(d - 0x30) as u16]);
}

/// Writing printable text and then erasing the whole line (`ESC [ 2 K`)
/// leaves the cursor's row all blank.
pub proof fn lemma_text_then_erase_line(m: ParserModel, text: Seq<u8>)
    requires
        at_rest(m),
        printable(text),
    ensures
        ({
            let e = feed(m, text + seq![0x1bu8, 0x5bu8, 0x32u8, 0x4bu8]);
            &&& e.screen.wf()
            &&& e.screen.grid[e.screen.crow as int] == blank_row(e.screen.cols)
        }),
{
    lemma_text_keeps_rest(m, text);
    let p = feed(m, text);
    lemma_feed_split(m, text, seq![0x1bu8, 0x5bu8, 0x32u8, 0x4bu8]);
    lemma_csi_one_digit(p, 0x32, 0x4b);
    lemma_erase_whole_line(p.screen);
}

/// `ESC [ X` without parameters, from rest: the CSI dispatch.
proof fn lemma_csi_no_param(m: ParserModel, f: u8)
    requires
        at_rest(m),
        0x40 <= f < 0x7f,
    ensures
        feed(m, seq![0x1bu8, 0x5bu8, f]) == (ParserModel {
            screen: csi_dispatch(m.screen, seq![0u16], false, false, f),
            state: ParseState::Ground,
            params: seq![0u16],
            private: false,
            overflow: false,
            ..m
        }),
{
    lemma_feed_three(m, 0x1b, 0x5b, f);
    assert(m.step(0x1b).step(0x5b).params =~= seq![0u16]);
}

proof fn lemma_dispatch_clear(s: ScreenModel)
    ensures
        csi_dispatch(s, seq![2u16], false, false, 0x4a) == s.erase_display(2),
{
}

proof fn lemma_dispatch_home(s: ScreenModel)
    requires
        s.wf(),
    ensures
        csi_dispatch(s, seq![0u16], false, false, 0x48) == s.move_to(0, 0),
{
}

/// `ESC [ 2 J ESC [ H` from rest blanks every cell and puts the cursor at
/// the origin, whatever the screen held.
#[verifier::rlimit(40)]
pub proof fn lemma_clear_and_home(m: ParserModel)
    requires
        at_rest(m),
    ensures
        ({
            let e = feed(m, seq![0x1bu8, 0x5bu8, 0x32u8, 0x4au8, 0x1bu8, 0x5bu8, 0x48u8]);
            &&& e.screen.grid == Seq::new(m.screen.rows, |_r: int| blank_row(m.screen.cols))
            &&& e.screen.crow == 0
            &&& e.screen.ccol == 0
        }),
{
    let clear = seq![0x1bu8, 0x5bu8, 0x32u8, 0x4au8];
    let home = seq![0x1bu8, 0x5bu8, 0x48u8];
    lemma_csi_one_digit(m, 0x32, 0x4a);
    let p = feed(m, clear);
    lemma_dispatch_clear(m.screen);
    lemma_erase_whole_display(m.screen);
    assert(at_rest(p));
    lemma_csi_no_param(p, 0x48);
    lemma_dispatch_home(p.screen);
    lemma_feed_split(m, clear, home);
    assert(clear + home =~= seq![0x1bu8, 0x5bu8, 0x32u8, 0x4au8, 0x1bu8, 0x5bu8, 0x48u8]);
}

/// The chunks joined in order.
pub open spec fn joined(chunks: Seq<Seq<u8>>) -> Seq<u8>
    decreases chunks.len(),
{
    if chunks.len() == 0 {
        Seq::empty()
    } else {
        joined(chunks.drop_last()) + chunks.last()
    }
}

/// The parser after each chunk in turn.
pub open spec fn feed_chunks(m: ParserModel, chunks: Seq<Seq<u8>>) -> ParserModel
    decreases chunks.len(),
{
    if chunks.len() == 0 {
        m
    } else {
        feed(feed_chunks(m, chunks.drop_last()), chunks.last())
    }
}

/// Feeding a stream in any number of chunks, split anywhere (inside an
/// escape sequence or a UTF-8 character too), gives the same parser and
/// screen as feeding it all at once.
pub proof fn lemma_feed_chunks(m: ParserModel, chunks: Seq<Seq<u8>>)
    ensures
        feed_chunks(m, chunks) == feed(m, joined(chunks)),
    decreases chunks.len(),
{
    if chunks.len() > 0 {
        lemma_feed_chunks(m, chunks.drop_last());
        lemma_feed_split(m, joined(chunks.drop_last()), chunks.last());
    }
}

/// A new terminal is at rest.
pub proof fn lemma_fresh_at_rest(rows: nat, cols: nat)
    requires
        1 <= rows <= 0xffff,
        1 <= cols <= 0xffff,
    ensures
        at_rest(ParserModel::fresh(rows, cols)),
{
    let m = ParserModel::fresh(rows, cols);
    assert forall|r: int| 0 <= r < rows implies (#[trigger] m.screen.grid[r]).len() == cols by {}
}

/// On a new terminal, printable text followed by `ESC [ 2 K` leaves the
/// cursor's row all blank.
pub proof fn lemma_fresh_text_then_erase_line(rows: nat, cols: nat, text: Seq<u8>)
    requires
        1 <= rows <= 0xffff,
        1 <= cols <= 0xffff,
        printable(text),
    ensures
        ({
            let e = feed(ParserModel::fresh(rows, cols), text + seq![0x1bu8, 0x5bu8, 0x32u8, 0x4bu8]);
            e.screen.grid[e.screen.crow as int] == blank_row(e.screen.cols)
        }),
{
    lemma_fresh_at_rest(rows, cols);
    lemma_text_then_erase_line(ParserModel::fresh(rows, cols), text);
}

} // verus!
