//! Structured human-facing output.
//!
//! An `Output` keeps the entries that the workflows emit. A terminal output also says how each
//! entry is printed (stream, color, prefix); the program that owns the terminal prints them.

use vstd::prelude::*;
use crate::model::ColorMode;
use crate::text::push_str;

verus! {

/// The kind of an output entry.
#[derive(Clone, Copy, Debug, PartialEq, Eq, Structural)]
pub enum OutputLevel {
    RawStdout,
    RawStderr,
    Message,
    Detail,
    Success,
    Warning,
    Error,
    Progress,
}

/// One emitted line or raw chunk.
#[derive(Clone, Debug)]
pub struct OutputEntry {
    pub level: OutputLevel,
    pub message: String,
}

impl View for OutputEntry {
    type V = (OutputLevel, Seq<char>);

    open spec fn view(&self) -> (OutputLevel, Seq<char>) {
        (self.level, self.message@)
    }
}

impl OutputEntry {
    /// An error entry with the given message.
    pub fn error(message: String) -> (r: OutputEntry)
        ensures
            r@ == (OutputLevel::Error, message@),
    {
        OutputEntry { level: OutputLevel::Error, message }
    }

    /// A copy of this entry.
    pub fn duplicate(&self) -> (r: OutputEntry)
        ensures
            r@ == self@,
    {
        OutputEntry { level: self.level, message: self.message.clone() }
    }
}

/// A copy of a list of entries.
pub fn duplicate_entries(entries: &Vec<OutputEntry>) -> (r: Vec<OutputEntry>)
    ensures
        entries_view(r@) == entries_view(entries@),
{
    let mut r: Vec<OutputEntry> = Vec::new();
    let mut i: usize = 0;
    while i < entries.len()
        invariant
            i <= entries.len(),
            r@.len() == i,
            forall|j: int| 0 <= j < i ==> #[trigger] r@[j]@ == entries@[j]@,
        decreases entries.len() - i,
    {
        r.push(entries[i].duplicate());
        i = i + 1;
    }
    assert(entries_view(r@) =~= entries_view(entries@));
    r
}

/// The views of a list of entries.
pub open spec fn entries_view(entries: Seq<OutputEntry>) -> Seq<(OutputLevel, Seq<char>)> {
    entries.map_values(|e: OutputEntry| e@)
}

/// Where entries go.
#[derive(Clone, Copy, Debug, PartialEq, Eq, Structural)]
pub enum OutputMode {
    /// Printed on a terminal, each stream colored or not.
    Terminal { use_color_stdout: bool, use_color_stderr: bool, stderr_tty: bool },
    /// Kept for the caller.
    Buffered,
    /// Dropped.
    Silent,
}

/// The entries that the workflows emit, and where they go.
#[derive(Clone, Debug)]
pub struct Output {
    pub mode: OutputMode,
    pub entries: Vec<OutputEntry>,
}

/// The entries kept by a buffered output.
#[derive(Clone, Debug)]
pub struct OutputBuffer {
    pub lines: Vec<OutputEntry>,
}

impl OutputBuffer {
    /// The kept entries, in the order they were emitted.
    pub fn entries(&self) -> (r: Vec<OutputEntry>)
        ensures
            entries_view(r@) == entries_view(self.lines@),
    {
        duplicate_entries(&self.lines)
    }
}

/// The terminal mode for a color choice and for whether stdout and stderr are terminals.
pub open spec fn terminal_mode(color_mode: ColorMode, stdout_tty: bool, stderr_tty: bool) -> OutputMode {
    match color_mode {
        ColorMode::Always => OutputMode::Terminal { use_color_stdout: true, use_color_stderr: true, stderr_tty },
        ColorMode::Auto => OutputMode::Terminal { use_color_stdout: stdout_tty, use_color_stderr: stderr_tty, stderr_tty },
        ColorMode::Never => OutputMode::Terminal { use_color_stdout: false, use_color_stderr: false, stderr_tty },
    }
}

/// The entries after one more is emitted: silent outputs keep nothing.
pub open spec fn after_record(mode: OutputMode, entries: Seq<(OutputLevel, Seq<char>)>, level: OutputLevel, message: Seq<char>) -> Seq<(OutputLevel, Seq<char>)> {
    if mode is Silent {
        entries
    } else {
        entries.push((level, message))
    }
}

pub const ESC_RESET: &'static str = "\u{1b}[0m";
pub const ESC_BOLD_BLUE: &'static str = "\u{1b}[1;34m";
pub const ESC_BOLD_GREEN: &'static str = "\u{1b}[1;32m";
pub const ESC_BOLD_YELLOW: &'static str = "\u{1b}[1;33m";
pub const ESC_BOLD_RED: &'static str = "\u{1b}[1;31m";

/// Whether an entry of this level is printed on stderr.
pub open spec fn to_stderr(level: OutputLevel) -> bool {
    match level {
        OutputLevel::Warning | OutputLevel::Error | OutputLevel::RawStderr | OutputLevel::Progress => true,
        _ => false,
    }
}

/// A prefixed line, colored or plain.
pub open spec fn prefixed_line(colored: bool, color: Seq<char>, prefix: Seq<char>, message: Seq<char>) -> Seq<char> {
    if colored {
        color + prefix + ESC_RESET@ + " "@ + message + "\n"@
    } else {
        prefix + " "@ + message + "\n"@
    }
}

/// The text printed for an entry on a terminal.
pub open spec fn rendered(use_color_stdout: bool, use_color_stderr: bool, stderr_tty: bool, level: OutputLevel, message: Seq<char>) -> Seq<char> {
    match level {
        OutputLevel::Message => prefixed_line(use_color_stdout, ESC_BOLD_GREEN@, "==>"@, message),
        OutputLevel::Detail => prefixed_line(use_color_stdout, ESC_BOLD_BLUE@, "  ->"@, message),
        OutputLevel::Success => prefixed_line(use_color_stdout, ESC_BOLD_GREEN@, "==>"@, message),
        OutputLevel::Warning => prefixed_line(use_color_stderr, ESC_BOLD_YELLOW@, "warning:"@, message),
        OutputLevel::Error => prefixed_line(use_color_stderr, ESC_BOLD_RED@, "error:"@, message),
        OutputLevel::RawStdout => message,
        OutputLevel::RawStderr => message,
        OutputLevel::Progress => if stderr_tty { "\r"@ + message } else { message + "\n"@ },
    }
}

fn prefixed(colored: bool, color: &str, prefix: &str, message: &str) -> (r: String)
    ensures
        r@ == prefixed_line(colored, color@, prefix@, message@),
{
    let mut s = String::new();
    if colored {
        push_str(&mut s, color);
        push_str(&mut s, prefix);
        push_str(&mut s, ESC_RESET);
    } else {
        push_str(&mut s, prefix);
    }
    push_str(&mut s, " ");
    push_str(&mut s, message);
    push_str(&mut s, "\n");
    s
}

impl Output {
    /// A terminal output; colors follow `color_mode` and, in auto mode, whether each stream is a terminal.
    pub fn new(color_mode: ColorMode, stdout_tty: bool, stderr_tty: bool) -> (r: Output)
        ensures
            r.mode == terminal_mode(color_mode, stdout_tty, stderr_tty),
            r.entries@.len() == 0,
    {
        let (use_color_stdout, use_color_stderr) = match color_mode {
            ColorMode::Always => (true, true),
            ColorMode::Auto => (stdout_tty, stderr_tty),
            ColorMode::Never => (false, false),
        };
        Output { mode: OutputMode::Terminal { use_color_stdout, use_color_stderr, stderr_tty }, entries: Vec::new() }
    }

    /// An output that keeps its entries for the caller.
    pub fn buffered() -> (r: Output)
        ensures
            r.mode == OutputMode::Buffered,
            r.entries@.len() == 0,
    {
        Output { mode: OutputMode::Buffered, entries: Vec::new() }
    }

    /// An output that drops everything.
    pub fn silent() -> (r: Output)
        ensures
            r.mode == OutputMode::Silent,
            r.entries@.len() == 0,
    {
        Output { mode: OutputMode::Silent, entries: Vec::new() }
    }

    /// The entries emitted so far.
    pub fn buffer(&self) -> (r: OutputBuffer)
        ensures
            entries_view(r.lines@) == entries_view(self.entries@),
    {
        OutputBuffer { lines: duplicate_entries(&self.entries) }
    }

    /// Hands out the entries emitted so far and forgets them.
    pub fn take_entries(&mut self) -> (r: Vec<OutputEntry>)
        ensures
            r@ == old(self).entries@,
            final(self).entries@.len() == 0,
            final(self).mode == old(self).mode,
    {
        let mut taken: Vec<OutputEntry> = Vec::new();
        std::mem::swap(&mut taken, &mut self.entries);
        taken
    }

    /// Whether stderr is a terminal (only a terminal output says so).
    pub fn stderr_is_tty(&self) -> (r: bool)
        ensures
            r == (self.mode matches OutputMode::Terminal { stderr_tty, .. } && stderr_tty),
    {
        match self.mode {
            OutputMode::Terminal { stderr_tty, .. } => stderr_tty,
            _ => false,
        }
    }

    fn record(&mut self, level: OutputLevel, message: &str)
        ensures
            final(self).mode == old(self).mode,
            entries_view(final(self).entries@) == after_record(old(self).mode, entries_view(old(self).entries@), level, message@),
    {
        match self.mode {
            OutputMode::Silent => {},
            _ => {
                let entry = OutputEntry { level, message: message.to_string() };
                self.entries.push(entry);
                assert(entries_view(self.entries@) =~= entries_view(old(self).entries@).push((level, message@)));
            },
        }
    }

    /// Emits raw text for stdout.
    pub fn raw_stdout(&mut self, value: &str)
        ensures
            final(self).mode == old(self).mode,
            entries_view(final(self).entries@) == after_record(old(self).mode, entries_view(old(self).entries@), OutputLevel::RawStdout, value@),
    {
        self.record(OutputLevel::RawStdout, value);
    }

    /// Emits raw text for stderr.
    pub fn raw_stderr(&mut self, value: &str)
        ensures
            final(self).mode == old(self).mode,
            entries_view(final(self).entries@) == after_record(old(self).mode, entries_view(old(self).entries@), OutputLevel::RawStderr, value@),
    {
        self.record(OutputLevel::RawStderr, value);
    }

    /// Emits a step message.
    pub fn msg(&mut self, message: &str)
        ensures
            final(self).mode == old(self).mode,
            entries_view(final(self).entries@) == after_record(old(self).mode, entries_view(old(self).entries@), OutputLevel::Message, message@),
    {
        self.record(OutputLevel::Message, message);
    }

    /// Emits a detail under the current step.
    pub fn msg2(&mut self, message: &str)
        ensures
            final(self).mode == old(self).mode,
            entries_view(final(self).entries@) == after_record(old(self).mode, entries_view(old(self).entries@), OutputLevel::Detail, message@),
    {
        self.record(OutputLevel::Detail, message);
    }

    /// Emits a success message.
    pub fn success(&mut self, message: &str)
        ensures
            final(self).mode == old(self).mode,
            entries_view(final(self).entries@) == after_record(old(self).mode, entries_view(old(self).entries@), OutputLevel::Success, message@),
    {
        self.record(OutputLevel::Success, message);
    }

    /// Emits a warning.
    pub fn warn(&mut self, message: &str)
        ensures
            final(self).mode == old(self).mode,
            entries_view(final(self).entries@) == after_record(old(self).mode, entries_view(old(self).entries@), OutputLevel::Warning, message@),
    {
        self.record(OutputLevel::Warning, message);
    }

    /// Emits an error.
    pub fn error(&mut self, message: &str)
        ensures
            final(self).mode == old(self).mode,
            entries_view(final(self).entries@) == after_record(old(self).mode, entries_view(old(self).entries@), OutputLevel::Error, message@),
    {
        self.record(OutputLevel::Error, message);
    }

    /// Emits a progress line.
    pub fn progress(&mut self, message: &str)
        ensures
            final(self).mode == old(self).mode,
            entries_view(final(self).entries@) == after_record(old(self).mode, entries_view(old(self).entries@), OutputLevel::Progress, message@),
    {
        self.record(OutputLevel::Progress, message);
    }

    /// Ends a run of progress lines: a terminal whose stderr is a terminal gets a newline.
    pub fn finish_progress(&mut self)
        ensures
            final(self).mode == old(self).mode,
            entries_view(final(self).entries@) == if old(self).mode matches OutputMode::Terminal { stderr_tty, .. } && stderr_tty {
                entries_view(old(self).entries@).push((OutputLevel::RawStderr, "\n"@))
            } else {
                entries_view(old(self).entries@)
            },
    {
        if self.stderr_is_tty() {
            self.record(OutputLevel::RawStderr, "\n");
        }
    }

    /// How a terminal output prints an entry: on stderr or not, and the text.
    /// Other outputs print nothing.
    pub fn render(&self, entry: &OutputEntry) -> (r: Option<(bool, String)>)
        ensures
            match self.mode {
                OutputMode::Terminal { use_color_stdout, use_color_stderr, stderr_tty } =>
                    r matches Some((err, text)) && err == to_stderr(entry.level)
                        && text@ == rendered(use_color_stdout, use_color_stderr, stderr_tty, entry.level, entry.message@),
                _ => r is None,
            },
    {
        match self.mode {
            OutputMode::Terminal { use_color_stdout, use_color_stderr, stderr_tty } => {
                let message = entry.message.as_str();
                let text = match entry.level {
                    OutputLevel::Message => prefixed(use_color_stdout, ESC_BOLD_GREEN, "==>", message),
                    OutputLevel::Detail => prefixed(use_color_stdout, ESC_BOLD_BLUE, "  ->", message),
                    OutputLevel::Success => prefixed(use_color_stdout, ESC_BOLD_GREEN, "==>", message),
                    OutputLevel::Warning => prefixed(use_color_stderr, ESC_BOLD_YELLOW, "warning:", message),
                    OutputLevel::Error => prefixed(use_color_stderr, ESC_BOLD_RED, "error:", message),
                    OutputLevel::RawStdout => entry.message.clone(),
                    OutputLevel::RawStderr => entry.message.clone(),
                    OutputLevel::Progress => {
                        let mut s = String::new();
                        if stderr_tty {
                            push_str(&mut s, "\r");
                            push_str(&mut s, message);
                        } else {
                            push_str(&mut s, message);
                            push_str(&mut s, "\n");
                        }
                        s
                    },
                };
                let err = match entry.level {
                    OutputLevel::Warning | OutputLevel::Error | OutputLevel::RawStderr | OutputLevel::Progress => true,
                    _ => false,
                };
                Some((err, text))
            },
            _ => None,
        }
    }
}

} // verus!
