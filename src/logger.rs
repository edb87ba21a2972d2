//! Log levels and the decisions of the logger: what is logged, and as which
//! line. Writing the lines out is left to the caller.
use vstd::prelude::*;
use vstd::string::StringExecFns;

verus! {

#[derive(Clone, Copy, Debug, PartialEq, Eq, Structural)]
pub enum LogLevel {
    Error,
    Warn,
    Info,
    Debug,
}

/// Severity rank: lower is more severe.
pub open spec fn rank(l: LogLevel) -> int {
    match l {
        LogLevel::Error => 0,
        LogLevel::Warn => 1,
        LogLevel::Info => 2,
        LogLevel::Debug => 3,
    }
}

pub open spec fn level_name(l: LogLevel) -> Seq<char> {
    match l {
        LogLevel::Error => seq!['E', 'R', 'R', 'O', 'R'],
        LogLevel::Warn => seq!['W', 'A', 'R', 'N'],
        LogLevel::Info => seq!['I', 'N', 'F', 'O'],
        LogLevel::Debug => seq!['D', 'E', 'B', 'U', 'G'],
    }
}

impl LogLevel {
    /// The level's name in capitals.
    pub fn name(&self) -> (s: &'static str)
        ensures
            s@ == level_name(*self),
    {
        match self {
            LogLevel::Error => {
                let s = "ERROR";
                proof {
                    reveal_strlit("ERROR");
                }
                assert(s@ =~= level_name(*self));
                s
            },
            LogLevel::Warn => {
                let s = "WARN";
                proof {
                    reveal_strlit("WARN");
                }
                assert(s@ =~= level_name(*self));
                s
            },
            LogLevel::Info => {
                let s = "INFO";
                proof {
                    reveal_strlit("INFO");
                }
                assert(s@ =~= level_name(*self));
                s
            },
            LogLevel::Debug => {
                let s = "DEBUG";
                proof {
                    reveal_strlit("DEBUG");
                }
                assert(s@ =~= level_name(*self));
                s
            },
        }
    }
}

/// A message to be written.
#[derive(Clone, Debug)]
pub struct LogEntry {
    pub level: LogLevel,
    pub module: String,
    pub message: String,
}

/// The line written for an entry: `[time] [LEVEL] [module] message`.
pub open spec fn line_of(time: Seq<char>, level: LogLevel, module: Seq<char>, message: Seq<char>) -> Seq<char> {
    seq!['['] + time + seq![']', ' ', '['] + level_name(level) + seq![']', ' ', '['] + module + seq![']', ' ']
        + message
}

impl LogEntry {
    /// The line for this entry, stamped with `time`.
    pub fn format_for_file(&self, time: &str) -> (s: String)
        ensures
            s@ == line_of(time@, self.level, self.module@, self.message@),
    {
        let mut s = String::new();
        let open = "[";
        let mid = "] [";
        let close = "] ";
        proof {
            reveal_strlit("[");
            reveal_strlit("] [");
            reveal_strlit("] ");
        }
        s.append(open);
        s.append(time);
        s.append(mid);
        s.append(self.level.name());
        s.append(mid);
        s.append(self.module.as_str());
        s.append(close);
        s.append(self.message.as_str());
        assert(s@ =~= line_of(time@, self.level, self.module@, self.message@));
        s
    }
}

/// Where log lines go and from which level on.
pub struct Logger {
    log_file_path: Option<String>,
    console_enabled: bool,
    file_enabled: bool,
    min_level: LogLevel,
}

impl Logger {
    /// A logger that writes every level to the console and, where a path
    /// is given, to that file.
    pub fn new(log_file_path: Option<String>) -> (l: Logger)
        ensures
            l.spec_path() == log_file_path,
            l.spec_min_level() == LogLevel::Debug,
            l.spec_console() && l.spec_file(),
    {
        Logger { log_file_path, console_enabled: true, file_enabled: true, min_level: LogLevel::Debug }
    }

    pub closed spec fn spec_path(&self) -> Option<String> {
        self.log_file_path
    }

    /// The file that log lines go to, if any.
    pub fn log_file_path(&self) -> (p: &Option<String>)
        ensures
            *p == self.spec_path(),
    {
        &self.log_file_path
    }

    pub closed spec fn spec_min_level(&self) -> LogLevel {
        self.min_level
    }

    pub closed spec fn spec_console(&self) -> bool {
        self.console_enabled
    }

    pub closed spec fn spec_file(&self) -> bool {
        self.file_enabled
    }

    pub fn min_level(&self) -> (l: LogLevel)
        ensures
            l == self.spec_min_level(),
    {
        self.min_level
    }

    pub fn set_min_level(&mut self, l: LogLevel)
        ensures
            final(self).spec_min_level() == l,
            final(self).spec_console() == old(self).spec_console(),
            final(self).spec_file() == old(self).spec_file(),
            final(self).spec_path() == old(self).spec_path(),
    {
        self.min_level = l;
    }

    pub fn console_enabled(&self) -> (b: bool)
        ensures
            b == self.spec_console(),
    {
        self.console_enabled
    }

    pub fn file_enabled(&self) -> (b: bool)
        ensures
            b == self.spec_file(),
    {
        self.file_enabled
    }

    /// Whether a message of `level` passes: it is at least as severe as
    /// the minimum level.
    pub fn should_log(&self, level: &LogLevel) -> (b: bool)
        ensures
            b == (rank(*level) <= rank(self.spec_min_level())),
    {
        match (&self.min_level, level) {
            (LogLevel::Debug, _) => true,
            (LogLevel::Info, LogLevel::Debug) => false,
            (LogLevel::Info, _) => true,
            (LogLevel::Warn, LogLevel::Debug) => false,
            (LogLevel::Warn, LogLevel::Info) => false,
            (LogLevel::Warn, _) => true,
            (LogLevel::Error, LogLevel::Error) => true,
            (LogLevel::Error, _) => false,
        }
    }

    /// The entry to write for a message, or `None` when its level is
    /// filtered out.
    pub fn log(&self, level: LogLevel, module: &str, message: &str) -> (e: Option<LogEntry>)
        ensures
            e is Some == (rank(level) <= rank(self.spec_min_level())),
            e matches Some(x) ==> x.level == level && x.module@ == module@ && x.message@ == message@,
    {
        if self.should_log(&level) {
            Some(LogEntry { level, module: module.to_owned(), message: message.to_owned() })
        } else {
            None
        }
    }

    pub fn error(&self, module: &str, message: &str) -> (e: Option<LogEntry>)
        ensures
            e is Some,
            e matches Some(x) ==> x.level == LogLevel::Error && x.module@ == module@ && x.message@ == message@,
    {
        self.log(LogLevel::Error, module, message)
    }

    pub fn warn(&self, module: &str, message: &str) -> (e: Option<LogEntry>)
        ensures
            e is Some == (rank(LogLevel::Warn) <= rank(self.spec_min_level())),
            e matches Some(x) ==> x.level == LogLevel::Warn && x.module@ == module@ && x.message@ == message@,
    {
        self.log(LogLevel::Warn, module, message)
    }

    pub fn info(&self, module: &str, message: &str) -> (e: Option<LogEntry>)
        ensures
            e is Some == (rank(LogLevel::Info) <= rank(self.spec_min_level())),
            e matches Some(x) ==> x.level == LogLevel::Info && x.module@ == module@ && x.message@ == message@,
    {
        self.log(LogLevel::Info, module, message)
    }

    pub fn debug(&self, module: &str, message: &str) -> (e: Option<LogEntry>)
        ensures
            e is Some == (rank(LogLevel::Debug) <= rank(self.spec_min_level())),
            e matches Some(x) ==> x.level == LogLevel::Debug && x.module@ == module@ && x.message@ == message@,
    {
        self.log(LogLevel::Debug, module, message)
    }
}

} // verus!
