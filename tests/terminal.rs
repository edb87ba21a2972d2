use ay_terminal::color::{palette_rgb, resolve_color, Color, Rgb};
use ay_terminal::emulator::TerminalEmulator;
use ay_terminal::extract::{ContentExtractor, TerminalLine};
use ay_terminal::parser::{ParseState, Vt100Parser};
use ay_terminal::screen::{Cell, Pen, ScreenBuffer};

fn feed(p: &mut Vt100Parser, s: &str) {
    p.process(s.as_bytes());
}

fn row_text(s: &ScreenBuffer, r: u16) -> String {
    (0..s.cols()).map(|c| s.cell(r, c).ch).collect()
}

fn same_screen(a: &ScreenBuffer, b: &ScreenBuffer) -> bool {
    if a.rows() != b.rows() || a.cols() != b.cols() || a.cursor_position() != b.cursor_position() {
        return false;
    }
    for r in 0..a.rows() {
        for c in 0..a.cols() {
            if a.cell(r, c) != b.cell(r, c) {
                return false;
            }
        }
    }
    a.pen() == b.pen()
        && a.title() == b.title()
        && a.error_count() == b.error_count()
        && a.bell_count() == b.bell_count()
        && a.is_alternate_screen() == b.is_alternate_screen()
        && a.is_cursor_hidden() == b.is_cursor_hidden()
}

#[test]
fn palette_base_colors() {
    assert_eq!(palette_rgb(0), Rgb { r: 0, g: 0, b: 0 });
    assert_eq!(palette_rgb(1), Rgb { r: 205, g: 49, b: 49 });
    assert_eq!(palette_rgb(6), Rgb { r: 17, g: 168, b: 205 });
    assert_eq!(palette_rgb(8), Rgb { r: 102, g: 102, b: 102 });
    assert_eq!(palette_rgb(9), Rgb { r: 241, g: 76, b: 76 });
    assert_eq!(palette_rgb(15), Rgb { r: 255, g: 255, b: 255 });
}

#[test]
fn palette_cube_matches_formula() {
    for n in 16u16..=231 {
        let k = n - 16;
        let want = Rgb { r: (51 * (k / 36)) as u8, g: (51 * ((k / 6) % 6)) as u8, b: (51 * (k % 6)) as u8 };
        assert_eq!(palette_rgb(n as u8), want);
    }
    assert_eq!(palette_rgb(196), Rgb { r: 255, g: 0, b: 0 });
    assert_eq!(palette_rgb(231), Rgb { r: 255, g: 255, b: 255 });
}

#[test]
fn palette_gray_ramp_increases() {
    assert_eq!(palette_rgb(232), Rgb { r: 8, g: 8, b: 8 });
    assert_eq!(palette_rgb(255), Rgb { r: 238, g: 238, b: 238 });
    for n in 232u8..255 {
        let a = palette_rgb(n);
        let b = palette_rgb(n + 1);
        assert!(a.r < b.r && a.g < b.g && a.b < b.b);
        assert!(a.r == a.g && a.g == a.b);
    }
}

#[test]
fn default_color_resolves_to_none() {
    assert_eq!(resolve_color(Color::Default), None);
    assert_eq!(resolve_color(Color::Rgb(1, 2, 3)), Some(Rgb { r: 1, g: 2, b: 3 }));
}

#[test]
fn chunked_feed_equals_whole_feed() {
    let stream = "ab\x1b[31mcd\x1b[1;4mef\r\nline two\x1b[2;3Hx\x1b]0;title\x07\x1b[?25lé\x1b[K\tend";
    let mut whole = Vt100Parser::new(5, 20);
    feed(&mut whole, stream);
    let mut bytewise = Vt100Parser::new(5, 20);
    for b in stream.as_bytes() {
        bytewise.process_byte(*b);
    }
    assert!(same_screen(whole.screen(), bytewise.screen()));
    for split in 0..stream.len() {
        let mut chunked = Vt100Parser::new(5, 20);
        chunked.process(&stream.as_bytes()[..split]);
        chunked.process(&stream.as_bytes()[split..]);
        assert!(same_screen(whole.screen(), chunked.screen()));
    }
}

#[test]
fn erase_whole_line_after_text() {
    let mut p = Vt100Parser::new(3, 10);
    feed(&mut p, "hello");
    assert_eq!(row_text(p.screen(), 0), "hello     ");
    feed(&mut p, "\x1b[2K");
    for c in 0..10 {
        assert_eq!(p.screen().cell(0, c), Cell::blank());
    }
    assert_eq!(p.screen().cursor_position(), (0, 5));
}

#[test]
fn erase_line_partial_modes() {
    let mut p = Vt100Parser::new(2, 6);
    feed(&mut p, "abcdef\r\x1b[3C\x1b[K");
    assert_eq!(row_text(p.screen(), 0), "abc   ");
    feed(&mut p, "\rabcdef\r\x1b[2C\x1b[1K");
    assert_eq!(row_text(p.screen(), 0), "   def");
}

#[test]
fn resize_twice_same_size() {
    let mut p = Vt100Parser::new(4, 8);
    feed(&mut p, "abc\r\nde");
    p.resize(3, 5);
    let pos = p.screen().cursor_position();
    let first: Vec<String> = (0..3).map(|r| row_text(p.screen(), r)).collect();
    p.resize(3, 5);
    assert_eq!(p.screen().cursor_position(), pos);
    let second: Vec<String> = (0..3).map(|r| row_text(p.screen(), r)).collect();
    assert_eq!(first, second);
    assert_eq!(first[0], "abc  ");
    assert_eq!(first[1], "de   ");
    assert_eq!(pos, (1, 2));
}

#[test]
fn resize_clamps_cursor() {
    let mut p = Vt100Parser::new(10, 10);
    feed(&mut p, "\x1b[8;9H");
    assert_eq!(p.screen().cursor_position(), (7, 8));
    p.resize(4, 4);
    assert_eq!(p.screen().cursor_position(), (3, 3));
    assert_eq!(p.screen().rows(), 4);
    assert_eq!(p.screen().cols(), 4);
}

#[test]
fn red_hello_segments() {
    let mut t = TerminalEmulator::new(20, 4);
    let frame = t.process_pty_output("\x1b[31mHELLO\x1b[0m");
    assert_eq!(frame.lines.len(), 1);
    let line = &frame.lines[0];
    assert_eq!(line.segments.len(), 2);
    assert_eq!(line.segments[0].text, "HELLO");
    assert_eq!(line.segments[0].color, Color::Idx(1));
    assert_eq!(line.segments[0].foreground_rgb(), Some(Rgb { r: 205, g: 49, b: 49 }));
    assert_eq!(line.segments[1].text, " ".repeat(15));
    assert_eq!(line.segments[1].color, Color::Default);
    assert_eq!(line.segments[1].background_color, Color::Default);
    assert!(!line.segments[1].bold);
    assert_eq!(line.text(), format!("HELLO{}", " ".repeat(15)));
}

#[test]
fn clear_screen_and_home() {
    let mut p = Vt100Parser::new(3, 6);
    feed(&mut p, "abc\r\ndef\r\nghi");
    feed(&mut p, "\x1b[2J\x1b[H");
    for r in 0..3 {
        for c in 0..6 {
            assert_eq!(p.screen().cell(r, c), Cell::blank());
        }
    }
    assert_eq!(p.screen().cursor_position(), (0, 0));
}

#[test]
fn erase_display_modes() {
    let mut p = Vt100Parser::new(3, 3);
    feed(&mut p, "abc\r\ndef\r\nghi\x1b[2;2H\x1b[J");
    assert_eq!(row_text(p.screen(), 0), "abc");
    assert_eq!(row_text(p.screen(), 1), "d  ");
    assert_eq!(row_text(p.screen(), 2), "   ");
    let mut q = Vt100Parser::new(3, 3);
    feed(&mut q, "abc\r\ndef\r\nghi\x1b[2;2H\x1b[1J");
    assert_eq!(row_text(q.screen(), 0), "   ");
    assert_eq!(row_text(q.screen(), 1), "  f");
    assert_eq!(row_text(q.screen(), 2), "ghi");
}

#[test]
fn cursor_moves_are_clamped() {
    let mut p = Vt100Parser::new(5, 10);
    feed(&mut p, "\x1b[3;4H");
    assert_eq!(p.screen().cursor_position(), (2, 3));
    feed(&mut p, "\x1b[A");
    assert_eq!(p.screen().cursor_position(), (1, 3));
    feed(&mut p, "\x1b[10B");
    assert_eq!(p.screen().cursor_position(), (4, 3));
    feed(&mut p, "\x1b[2C");
    assert_eq!(p.screen().cursor_position(), (4, 5));
    feed(&mut p, "\x1b[99D");
    assert_eq!(p.screen().cursor_position(), (4, 0));
    feed(&mut p, "\x1b[7G");
    assert_eq!(p.screen().cursor_position(), (4, 6));
    feed(&mut p, "\x1b[2d");
    assert_eq!(p.screen().cursor_position(), (1, 6));
}

#[test]
fn tab_goes_to_next_multiple_of_eight() {
    let mut p = Vt100Parser::new(2, 20);
    feed(&mut p, "ab\t");
    assert_eq!(p.screen().cursor_position(), (0, 8));
    feed(&mut p, "\t\t");
    assert_eq!(p.screen().cursor_position(), (0, 19));
    assert_eq!(row_text(p.screen(), 0), format!("ab{}", " ".repeat(18)));
}

#[test]
fn wrap_and_scroll() {
    let mut p = Vt100Parser::new(2, 3);
    feed(&mut p, "abcdefg");
    assert_eq!(row_text(p.screen(), 0), "def");
    assert_eq!(row_text(p.screen(), 1), "g  ");
    assert_eq!(p.screen().cursor_position(), (1, 1));
}

#[test]
fn bell_backspace_and_carriage_return() {
    let mut p = Vt100Parser::new(2, 5);
    feed(&mut p, "ab\x07\x08X\rY");
    assert_eq!(row_text(p.screen(), 0), "YX   ");
    assert_eq!(p.screen().bell_count(), 1);
}

#[test]
fn sgr_attributes_and_colors() {
    let mut p = Vt100Parser::new(1, 10);
    feed(&mut p, "\x1b[1;3;4;7;38;5;200;48;2;1;2;3mA");
    let pen = p.screen().cell(0, 0).pen;
    assert!(pen.bold && pen.italic && pen.underline && pen.inverse);
    assert_eq!(pen.fg, Color::Idx(200));
    assert_eq!(pen.bg, Color::Rgb(1, 2, 3));
    feed(&mut p, "\x1b[22;23;24;27;39;49mB");
    assert_eq!(p.screen().cell(0, 1).pen, Pen::plain());
    feed(&mut p, "\x1b[92;104mC\x1b[mD");
    assert_eq!(p.screen().cell(0, 2).pen.fg, Color::Idx(10));
    assert_eq!(p.screen().cell(0, 2).pen.bg, Color::Idx(12));
    assert_eq!(p.screen().cell(0, 3).pen, Pen::plain());
}

#[test]
fn private_modes() {
    let mut p = Vt100Parser::new(2, 5);
    feed(&mut p, "\x1b[?1049h\x1b[?25l\x1b[?2004h\x1b[?1h\x1b=");
    let s = p.screen();
    assert!(s.is_alternate_screen() && s.is_cursor_hidden() && s.is_bracketed_paste());
    assert!(s.is_application_cursor() && s.is_application_keypad());
    feed(&mut p, "\x1b[?1049l\x1b[?25h\x1b[?2004l\x1b[?1l\x1b>");
    let s = p.screen();
    assert!(!s.is_alternate_screen() && !s.is_cursor_hidden() && !s.is_bracketed_paste());
    assert!(!s.is_application_cursor() && !s.is_application_keypad());
}

#[test]
fn alternate_screen_restores_main_grid() {
    let mut p = Vt100Parser::new(2, 4);
    feed(&mut p, "main");
    feed(&mut p, "\x1b[?1049h");
    assert!(p.screen().is_alternate_screen());
    assert_eq!(row_text(p.screen(), 0), "    ");
    feed(&mut p, "\x1b[Hvim!");
    assert_eq!(row_text(p.screen(), 0), "vim!");
    feed(&mut p, "\x1b[?1049h");
    assert_eq!(row_text(p.screen(), 0), "vim!");
    feed(&mut p, "\x1b[?1049l");
    assert!(!p.screen().is_alternate_screen());
    assert_eq!(row_text(p.screen(), 0), "main");
    feed(&mut p, "\x1b[?47h");
    p.resize(3, 2);
    feed(&mut p, "\x1b[?47l");
    assert_eq!(row_text(p.screen(), 0), "ma");
    assert_eq!(row_text(p.screen(), 2), "  ");
}

#[test]
fn many_chunks_equal_one() {
    let stream = "x\x1b[38;5;196mé\x1b]2;t\x1b\\y\x1b[?1049hz\x1b[?1049l";
    let bytes = stream.as_bytes();
    let mut whole = Vt100Parser::new(3, 8);
    whole.process(bytes);
    for step in 1..5 {
        let mut chunked = Vt100Parser::new(3, 8);
        for piece in bytes.chunks(step) {
            chunked.process(piece);
        }
        assert!(same_screen(whole.screen(), chunked.screen()));
        assert_eq!(whole.screen().icon_name(), chunked.screen().icon_name());
    }
}

#[test]
fn osc_title_and_icon() {
    let mut p = Vt100Parser::new(2, 5);
    feed(&mut p, "\x1b]0;both\x07");
    assert_eq!(p.screen().title().iter().collect::<String>(), "both");
    assert_eq!(p.screen().icon_name().iter().collect::<String>(), "both");
    feed(&mut p, "\x1b]2;win\x1b\\\x1b]1;ico\x07");
    assert_eq!(p.screen().title().iter().collect::<String>(), "win");
    assert_eq!(p.screen().icon_name().iter().collect::<String>(), "ico");
    assert_eq!(p.state(), ParseState::Ground);
    feed(&mut p, "\x1b]2;终端 é\x07");
    assert_eq!(p.screen().title().iter().collect::<String>(), "终端 é");
    p.process(b"\x1b]2;a\xffb\xe4\xb8\x07");
    assert_eq!(p.screen().title().iter().collect::<String>(), "a\u{FFFD}b\u{FFFD}");
}

#[test]
fn malformed_sequences_count_errors() {
    let mut p = Vt100Parser::new(2, 5);
    feed(&mut p, "\x1b]0;t\x1bxA");
    assert_eq!(p.screen().error_count(), 1);
    assert_eq!(row_text(p.screen(), 0), "A    ");
    p.process(&[0xff, b'B']);
    assert_eq!(p.screen().error_count(), 2);
    p.process(&[0x1b, b'[', 0x80]);
    assert_eq!(p.screen().error_count(), 3);
    assert_eq!(p.state(), ParseState::Ground);
}

#[test]
fn utf8_text_is_decoded() {
    let mut p = Vt100Parser::new(1, 6);
    feed(&mut p, "é中😀");
    assert_eq!(p.screen().cell(0, 0).ch, 'é');
    assert_eq!(p.screen().cell(0, 1).ch, '中');
    assert_eq!(p.screen().cell(0, 2).ch, '😀');
    assert_eq!(p.screen().error_count(), 0);
}

#[test]
fn scroll_region_limits_scrolling() {
    let mut p = Vt100Parser::new(4, 3);
    feed(&mut p, "top\x1b[2;3r");
    assert_eq!(p.screen().scroll_region(), (1, 2));
    assert_eq!(p.screen().cursor_position(), (0, 0));
    feed(&mut p, "\x1b[2;1Haa\r\nbb\r\ncc");
    assert_eq!(row_text(p.screen(), 0), "top");
    assert_eq!(row_text(p.screen(), 1), "bb ");
    assert_eq!(row_text(p.screen(), 2), "cc ");
    assert_eq!(row_text(p.screen(), 3), "   ");
}

#[test]
fn frame_trims_trailing_blank_rows() {
    let mut t = TerminalEmulator::new(10, 30);
    let frame = t.process_pty_output("one\r\n\r\nthree\r\n");
    assert_eq!(frame.lines.len(), 3);
    assert_eq!(frame.lines[1].text(), " ".repeat(10));
    assert_eq!(frame.lines[2].segments.len(), 1);
    let empty = TerminalEmulator::new(4, 3).process_pty_output("");
    assert_eq!(empty.lines.len(), 1);
}

#[test]
fn prompt_detected_left_of_cursor() {
    let mut t = TerminalEmulator::new(40, 5);
    let frame = t.process_pty_output("output\r\n  user@host:~$ ");
    assert_eq!(frame.prompt_update, Some("user@host:~$".to_string()));
    let banner = TerminalEmulator::new(40, 5).process_pty_output("Last login: Mon");
    assert_eq!(banner.prompt_update, None);
    let from = TerminalEmulator::new(40, 5).process_pty_output("git pull from origin");
    assert_eq!(from.prompt_update, Some("git pull from origin".to_string()));
    let blank = TerminalEmulator::new(40, 5).process_pty_output("   ");
    assert_eq!(blank.prompt_update, None);
    let wide = TerminalEmulator::new(40, 5).process_pty_output("\u{3000}\u{a0}");
    assert_eq!(wide.prompt_update, None);
    let nbsp = TerminalEmulator::new(40, 5).process_pty_output("\u{a0}$ \u{3000}");
    assert_eq!(nbsp.prompt_update, Some("$".to_string()));
}

#[test]
fn extractor_on_screen() {
    let mut p = Vt100Parser::new(2, 4);
    feed(&mut p, "\x1b[1mab\x1b[0mcd");
    let frame = ContentExtractor::new().extract_content(p.screen());
    assert_eq!(frame.lines.len(), 1);
    assert_eq!(frame.lines[0].segments.len(), 2);
    assert_eq!(frame.lines[0].segments[0].text, "ab");
    assert!(frame.lines[0].segments[0].bold);
    assert_eq!(frame.lines[0].segments[1].text, "cd");
    assert!(TerminalLine::new().segments.is_empty());
}

#[test]
fn emulator_reset_and_accessors() {
    let mut t = TerminalEmulator::new(12, 3);
    t.process_pty_output("\x1b]2;name\x07\x1b[?25lxy");
    assert_eq!(t.size(), (3, 12));
    assert_eq!(t.cursor_position(), (0, 2));
    assert!(t.is_cursor_hidden());
    assert_eq!(t.title().iter().collect::<String>(), "name");
    t.reset();
    assert_eq!(t.cursor_position(), (0, 0));
    assert!(!t.is_cursor_hidden());
    assert!(t.title().is_empty());
    t.resize(5, 2);
    assert_eq!(t.size(), (2, 5));
}

#[test]
fn insert_and_delete_lines() {
    let mut p = Vt100Parser::new(4, 3);
    feed(&mut p, "aaa\r\nbbb\r\nccc\r\nddd\x1b[2;1H\x1b[L");
    let rows: Vec<String> = (0..4).map(|r| row_text(p.screen(), r)).collect();
    assert_eq!(rows, vec!["aaa", "   ", "bbb", "ccc"]);
    assert_eq!(p.screen().cursor_position(), (1, 0));
    feed(&mut p, "\x1b[2M");
    let rows: Vec<String> = (0..4).map(|r| row_text(p.screen(), r)).collect();
    assert_eq!(rows, vec!["aaa", "ccc", "   ", "   "]);
}

#[test]
fn insert_delete_and_erase_chars() {
    let mut p = Vt100Parser::new(1, 5);
    feed(&mut p, "abcde\x1b[1;2H\x1b[2@");
    assert_eq!(row_text(p.screen(), 0), "a  bc");
    feed(&mut p, "\x1b[1;2H\x1b[P");
    assert_eq!(row_text(p.screen(), 0), "a bc ");
    let mut q = Vt100Parser::new(1, 5);
    feed(&mut q, "abcde\x1b[1;2H\x1b[2X");
    assert_eq!(row_text(q.screen(), 0), "a  de");
    feed(&mut q, "\x1b[9X");
    assert_eq!(row_text(q.screen(), 0), "a    ");
    assert_eq!(q.screen().cursor_position(), (0, 1));
}

#[test]
fn reverse_index_scrolls_down_at_top() {
    let mut p = Vt100Parser::new(3, 3);
    feed(&mut p, "aaa\r\nbbb\x1bM");
    assert_eq!(p.screen().cursor_position(), (0, 2));
    feed(&mut p, "\x1bM");
    let rows: Vec<String> = (0..3).map(|r| row_text(p.screen(), r)).collect();
    assert_eq!(rows, vec!["   ", "aaa", "bbb"]);
}

#[test]
fn save_and_restore_cursor() {
    let mut p = Vt100Parser::new(5, 5);
    feed(&mut p, "\x1b[2;3H\x1b7\x1b[H\x1b8");
    assert_eq!(p.screen().cursor_position(), (1, 2));
    feed(&mut p, "\x1b[4;5H\x1b[s\x1b[H\x1b[u");
    assert_eq!(p.screen().cursor_position(), (3, 4));
}
