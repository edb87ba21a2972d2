//! The terminal emulator: raw output in, render-ready frames out.
use vstd::prelude::*;
use vstd::string::StringSliceAdditionalSpecFns;
use crate::extract::{ContentExtractor, TerminalLine, TerminalProcessResult, frame_lines, line_view, prompt_of, string_opt};
use crate::parser::{ParserModel, Vt100Parser, feed};
use crate::screen::ScreenBuffer;

verus! {

/// A VT100 screen fed with a session's output.
pub struct TerminalEmulator {
    parser: Vt100Parser,
    extractor: ContentExtractor,
}

impl TerminalEmulator {
    pub closed spec fn spec_parser(&self) -> ParserModel {
        self.parser@
    }

    pub open spec fn wf(&self) -> bool {
        self.spec_parser().wf()
    }

    /// A blank terminal of `width` columns and `height` rows.
    pub fn new(width: u16, height: u16) -> (t: TerminalEmulator)
        requires
            width >= 1,
            height >= 1,
        ensures
            t.wf(),
            t.spec_parser() == ParserModel::fresh(height as nat, width as nat),
    {
        TerminalEmulator { parser: Vt100Parser::new(height, width), extractor: ContentExtractor::new() }
    }

    /// Feeds a chunk of output and returns the frame it leaves.
    pub fn process_pty_output(&mut self, data: &str) -> (res: TerminalProcessResult)
        requires
            old(self).wf(),
        ensures
            final(self).wf(),
            final(self).spec_parser() == feed(old(self).spec_parser(), data.spec_bytes()),
            res.lines@.map_values(|l: TerminalLine| line_view(l)) == frame_lines(final(self).spec_parser().screen),
            string_opt(res.prompt_update) == prompt_of(final(self).spec_parser().screen),
    {
        self.process_bytes(data.as_bytes())
    }

    /// Feeds raw bytes and returns the frame they leave.
    pub fn process_bytes(&mut self, data: &[u8]) -> (res: TerminalProcessResult)
        requires
            old(self).wf(),
        ensures
            final(self).wf(),
            final(self).spec_parser() == feed(old(self).spec_parser(), data@),
            res.lines@.map_values(|l: TerminalLine| line_view(l)) == frame_lines(final(self).spec_parser().screen),
            string_opt(res.prompt_update) == prompt_of(final(self).spec_parser().screen),
    {
        self.parser.process(data);
        self.extractor.extract_content(self.parser.screen())
    }

    /// The size as (rows, columns).
    pub fn size(&self) -> (s: (u16, u16))
        requires
            self.wf(),
        ensures
            s.0 as nat == self.spec_parser().screen.rows,
            s.1 as nat == self.spec_parser().screen.cols,
    {
        (self.parser.screen().rows(), self.parser.screen().cols())
    }

    /// Changes the size to `width` columns and `height` rows.
    pub fn resize(&mut self, width: u16, height: u16)
        requires
            old(self).wf(),
            width >= 1,
            height >= 1,
        ensures
            final(self).wf(),
            final(self).spec_parser() == old(self).spec_parser().with_screen(
                old(self).spec_parser().screen.resize(height as nat, width as nat),
            ),
    {
        self.parser.resize(height, width);
    }

    /// The screen.
    pub fn screen(&self) -> (s: &ScreenBuffer)
        ensures
            s@ == self.spec_parser().screen,
    {
        self.parser.screen()
    }

    /// The cursor as (row, column).
    pub fn cursor_position(&self) -> (p: (u16, u16))
        ensures
            p.0 as nat == self.spec_parser().screen.crow,
            p.1 as nat == self.spec_parser().screen.ccol,
    {
        self.parser.screen().cursor_position()
    }

    pub fn title(&self) -> (t: Vec<char>)
        ensures
            t@ == self.spec_parser().screen.title,
    {
        self.parser.screen().title()
    }

    pub fn icon_name(&self) -> (t: Vec<char>)
        ensures
            t@ == self.spec_parser().screen.icon,
    {
        self.parser.screen().icon_name()
    }

    pub fn is_alternate_screen(&self) -> (b: bool)
        ensures
            b == self.spec_parser().screen.alt,
    {
        self.parser.screen().is_alternate_screen()
    }

    pub fn is_cursor_hidden(&self) -> (b: bool)
        ensures
            b == self.spec_parser().screen.hidden,
    {
        self.parser.screen().is_cursor_hidden()
    }

    /// How many malformed sequences were met.
    pub fn error_count(&self) -> (n: u64)
        ensures
            n as nat == self.spec_parser().screen.errors,
    {
        self.parser.screen().error_count()
    }

    /// Back to a blank terminal of the same size.
    pub fn reset(&mut self)
        requires
            old(self).wf(),
        ensures
            final(self).wf(),
            final(self).spec_parser() == ParserModel::fresh(old(self).spec_parser().screen.rows, old(self).spec_parser().screen.cols),
    {
        let rows = self.parser.screen().rows();
        let cols = self.parser.screen().cols();
        self.parser = Vt100Parser::new(rows, cols);
    }
}

} // verus!
