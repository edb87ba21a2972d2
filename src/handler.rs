//! A quick scan of a raw chunk for the escape sequences it holds, before the
//! chunk goes through the parser.
use vstd::prelude::*;
use vstd::string::StringSliceAdditionalSpecFns;
use crate::screen::{Pen, spec_plain_pen};
use crate::text::{contains, contains_bytes};

verus! {

/// Which part of the screen or line an erase sequence covers.
#[derive(Clone, Copy, Debug, PartialEq, Eq, Structural)]
pub enum EraseScope {
    /// Mode 0: from the cursor to the end.
    CursorToEnd,
    /// Mode 1: from the start to the cursor.
    StartToCursor,
    /// Mode 2: all of it.
    All,
}

/// A cursor direction.
#[derive(Clone, Copy, Debug, PartialEq, Eq, Structural)]
pub enum Direction {
    Up,
    Down,
    Right,
    Left,
}

/// The C0 controls a chunk holds.
#[derive(Clone, Copy, Debug, PartialEq, Eq, Structural)]
pub struct ControlChars {
    pub bell: bool,
    pub tab: bool,
    pub line_feed: bool,
    pub carriage_return: bool,
}

/// Whether the chunk holds `ESC [` followed by `tail`.
pub open spec fn has_csi(data: &str, tail: Seq<u8>) -> bool {
    contains(data.spec_bytes(), seq![0x1bu8, 0x5bu8] + tail)
}

pub open spec fn has_byte(data: &str, b: u8) -> bool {
    contains(data.spec_bytes(), seq![b])
}

/// The scope of the first kind of sequence found, trying `2`, then `1`,
/// then the bare and `0` forms, each followed by `fin`.
pub open spec fn erase_scope(data: &str, fin: u8) -> Option<EraseScope> {
    if has_csi(data, seq![0x32u8, fin]) {
        Some(EraseScope::All)
    } else if has_csi(data, seq![0x31u8, fin]) {
        Some(EraseScope::StartToCursor)
    } else if has_csi(data, seq![fin]) || has_csi(data, seq![0x30u8, fin]) {
        Some(EraseScope::CursorToEnd)
    } else {
        None
    }
}

fn find_csi1(data: &str, a: u8) -> (b: bool)
    ensures
        b == has_csi(data, seq![a]),
{
    let needle = vec![0x1bu8, 0x5bu8, a];
    assert(needle@ =~= seq![0x1bu8, 0x5bu8] + seq![a]);
    contains_bytes(data.as_bytes(), needle.as_slice())
}

fn find_csi2(data: &str, a: u8, z: u8) -> (b: bool)
    ensures
        b == has_csi(data, seq![a, z]),
{
    let needle = vec![0x1bu8, 0x5bu8, a, z];
    assert(needle@ =~= seq![0x1bu8, 0x5bu8] + seq![a, z]);
    contains_bytes(data.as_bytes(), needle.as_slice())
}

fn find_byte(data: &str, x: u8) -> (b: bool)
    ensures
        b == has_byte(data, x),
{
    let needle = vec![x];
    assert(needle@ =~= seq![x]);
    contains_bytes(data.as_bytes(), needle.as_slice())
}

fn scope_of(data: &str, fin: u8) -> (r: Option<EraseScope>)
    ensures
        r == erase_scope(data, fin),
{
    if find_csi2(data, 0x32, fin) {
        Some(EraseScope::All)
    } else if find_csi2(data, 0x31, fin) {
        Some(EraseScope::StartToCursor)
    } else if find_csi1(data, fin) || find_csi2(data, 0x30, fin) {
        Some(EraseScope::CursorToEnd)
    } else {
        None
    }
}

/// Scans raw chunks for the sequences they hold.
pub struct Vt100Handler {}

impl Vt100Handler {
    pub fn new() -> (h: Vt100Handler) {
        Vt100Handler {}
    }

    /// Which erase-in-display sequence the chunk holds, if any.
    pub fn handle_clear_screen(&self, raw_data: &str) -> (r: Option<EraseScope>)
        ensures
            r == erase_scope(raw_data, 0x4a),
    {
        scope_of(raw_data, 0x4a)
    }

    /// Which erase-in-line sequence the chunk holds, if any.
    pub fn handle_clear_line(&self, raw_data: &str) -> (r: Option<EraseScope>)
        ensures
            r == erase_scope(raw_data, 0x4b),
    {
        scope_of(raw_data, 0x4b)
    }

    /// The first of up, down, right, left whose bare cursor sequence
    /// (`ESC [ A` to `ESC [ D`) the chunk holds.
    pub fn handle_cursor_move(&self, raw_data: &str) -> (r: Option<Direction>)
        ensures
            r == (if has_csi(raw_data, seq![0x41u8]) {
                Some(Direction::Up)
            } else if has_csi(raw_data, seq![0x42u8]) {
                Some(Direction::Down)
            } else if has_csi(raw_data, seq![0x43u8]) {
                Some(Direction::Right)
            } else if has_csi(raw_data, seq![0x44u8]) {
                Some(Direction::Left)
            } else {
                None
            }),
    {
        if find_csi1(raw_data, 0x41) {
            Some(Direction::Up)
        } else if find_csi1(raw_data, 0x42) {
            Some(Direction::Down)
        } else if find_csi1(raw_data, 0x43) {
            Some(Direction::Right)
        } else if find_csi1(raw_data, 0x44) {
            Some(Direction::Left)
        } else {
            None
        }
    }

    /// The pen after an attribute reset.
    pub fn handle_reset_attributes(&self) -> (p: Pen)
        ensures
            p == spec_plain_pen(),
    {
        Pen::plain()
    }

    /// Which of bell, tab, line feed and carriage return the chunk holds.
    pub fn handle_control_chars(&self, raw_data: &str) -> (c: ControlChars)
        ensures
            c.bell == has_byte(raw_data, 0x07),
            c.tab == has_byte(raw_data, 0x09),
            c.line_feed == has_byte(raw_data, 0x0a),
            c.carriage_return == has_byte(raw_data, 0x0d),
    {
        ControlChars {
            bell: find_byte(raw_data, 0x07),
            tab: find_byte(raw_data, 0x09),
            line_feed: find_byte(raw_data, 0x0a),
            carriage_return: find_byte(raw_data, 0x0d),
        }
    }

    /// `(1, 1)` when the chunk homes the cursor with a bare `ESC [ H`.
    pub fn parse_cursor_position(&self, data: &str) -> (r: Option<(u16, u16)>)
        ensures
            r == (if has_csi(data, seq![0x48u8]) { Some((1u16, 1u16)) } else { None }),
    {
        if find_csi1(data, 0x48) {
            Some((1, 1))
        } else {
            None
        }
    }
}

} // verus!
