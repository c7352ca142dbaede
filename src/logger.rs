use std::rc::Rc;

use vstd::prelude::*;

use crate::config::{AppConfig, HasAppConfig};
use crate::escape::{clear_escape_codes_from_str, lemma_strip_without_open, stripped_chars};
use crate::level::LogLevel;
use crate::line::{free_of_escape, lemma_rendered_line_stripped, render_line, rendered, tag_of};

verus! {

/// A sink refused or failed to take a write.
#[derive(Clone, Copy, Debug, PartialEq, Eq, Structural)]
pub struct SinkError;

/// Where a logger's rendered lines go: the process's standard output, or an
/// in-memory capture for checking what was logged.
pub trait Logger: Sized {
    /// Whether taking `text` as one write brings the sink from `before` to
    /// `after`. A sink that states nothing about its writes keeps this
    /// default, which holds of every outcome.
    open spec fn took(before: Self, after: Self, text: Seq<char>) -> bool {
        true
    }

    /// Takes `text` as one write.
    fn write(&mut self, text: &str) -> (r: Result<(), SinkError>)
        ensures
            Self::took(*old(self), *final(self), text@),
    ;

    /// Pushes out whatever the sink still holds.
    fn flush(&mut self) -> Result<(), SinkError>;

    /// The lines the sink keeps, oldest first; a sink that keeps nothing
    /// returns none.
    fn log_messages(&self) -> Vec<String>;
}

/// A sink that keeps each write as one line, with its escape sequences
/// taken out.
#[derive(Debug)]
pub struct LogMessages(pub Vec<String>);

impl View for LogMessages {
    type V = Seq<Seq<char>>;

    open spec fn view(&self) -> Seq<Seq<char>> {
        self.0@.map_values(|line: String| line@)
    }
}

impl LogMessages {
    pub fn new() -> (r: LogMessages)
        ensures
            r@ == Seq::<Seq<char>>::empty(),
    {
        let r = LogMessages(Vec::new());
        assert(r@ =~= Seq::<Seq<char>>::empty());
        r
    }
}

impl Logger for LogMessages {
    /// A write adds one line: the text with its escape sequences taken out.
    open spec fn took(before: Self, after: Self, text: Seq<char>) -> bool {
        after@ == before@.push(stripped_chars(text))
    }

    fn write(&mut self, text: &str) -> (r: Result<(), SinkError>)
        ensures
            final(self)@ == old(self)@.push(stripped_chars(text@)),
            r is Ok,
    {
        let line: String = clear_escape_codes_from_str(text);
        self.0.push(line);
        assert(self@ =~= old(self)@.push(stripped_chars(text@)));
        Ok(())
    }

    fn flush(&mut self) -> (r: Result<(), SinkError>)
        ensures
            final(self)@ == old(self)@,
            r is Ok,
    {
        Ok(())
    }

    fn log_messages(&self) -> (r: Vec<String>)
        ensures
            r@.map_values(|line: String| line@) == self@,
    {
        let mut lines: Vec<String> = Vec::new();
        let mut i: usize = 0;
        while i < self.0.len()
            invariant
                i <= self.0@.len(),
                lines@ == self.0@.take(i as int),
            decreases self.0@.len() - i,
        {
            lines.push(self.0[i].clone());
            assert(lines@ =~= self.0@.take(i + 1));
            i += 1;
        }
        assert(lines@ =~= self.0@);
        lines
    }
}

/// A text without ESC is captured as it is: one more line, equal to the
/// text.
pub proof fn lemma_capture_plain_text(before: LogMessages, after: LogMessages, text: Seq<char>)
    requires
        LogMessages::took(before, after, text),
        free_of_escape(text),
    ensures
        after@ == before@.push(text),
{
    lemma_strip_without_open(text, '\x1b', 'm');
}

/// A log line is captured without its colours: one more line, made of the
/// stamp, the tag, a space, the message and a line break, when neither the
/// stamp nor the message holds ESC.
pub proof fn lemma_capture_rendered_line(
    before: LogMessages,
    after: LogMessages,
    line: Seq<char>,
    stamp: Seq<char>,
    level: LogLevel,
    message: Seq<char>,
)
    requires
        LogMessages::took(before, after, line),
        rendered(line, stamp, level, message),
        free_of_escape(stamp),
        free_of_escape(message),
    ensures
        after@ == before@.push(stamp + tag_of(level) + seq![' '] + message + seq!['\n']),
{
    lemma_rendered_line_stripped(line, stamp, level, message);
}

/// The operations of a logging facade: one per severity, each gated by the
/// configured level, and a raw pass-through.
pub trait HasLogger {
    /// Whether a message at `log_level` would be written.
    fn is_enabled(&self, log_level: LogLevel) -> bool;

    /// Writes `message` as it is, whatever the configured level.
    fn stdout(&mut self, message: &str);

    fn trace(&mut self, message: &str);

    fn debug(&mut self, message: &str);

    fn info(&mut self, message: &str);

    fn warn(&mut self, message: &str);

    fn error(&mut self, message: &str);
}

/// A logging facade: it reads one configuration and owns one sink.
pub struct AppLogger<L: Logger> {
    app_config: Rc<AppConfig>,
    sink: L,
    handed: Ghost<Seq<Seq<char>>>,
}

impl<L: Logger> AppLogger<L> {
    pub closed spec fn config(&self) -> AppConfig {
        *self.app_config
    }

    pub closed spec fn sink(&self) -> L {
        self.sink
    }

    /// Every text this facade has handed to its sink, oldest first.
    pub closed spec fn handed(&self) -> Seq<Seq<char>> {
        self.handed@
    }

    pub fn new(app_config: Rc<AppConfig>, sink: L) -> (r: AppLogger<L>)
        ensures
            r.config() == *app_config,
            r.sink() == sink,
            r.handed() == Seq::<Seq<char>>::empty(),
    {
        AppLogger { app_config, sink, handed: Ghost(Seq::empty()) }
    }

    /// Hands `text` to the sink as one write. A write the sink fails is
    /// lost: logging does not report it.
    fn emit(&mut self, text: &str)
        ensures
            final(self).config() == old(self).config(),
            final(self).handed() == old(self).handed().push(text@),
            L::took(old(self).sink(), final(self).sink(), text@),
    {
        let _ = self.sink.write(text);
        self.handed = Ghost(self.handed@.push(text@));
    }

    /// Logs `message` at `level` with the timestamp `stamp`, where one could
    /// be written: when `level` is enabled and there is a stamp, exactly one
    /// rendered line goes to the sink; otherwise the sink is not touched.
    pub fn log_stamped(&mut self, level: LogLevel, stamp: Option<String>, message: &str)
        ensures
            final(self).config() == old(self).config(),
            level.enabled_under(old(self).config().level()) && stamp is Some ==> {
                &&& final(self).handed().len() == old(self).handed().len() + 1
                &&& final(self).handed().drop_last() == old(self).handed()
                &&& rendered(final(self).handed().last(), stamp->0@, level, message@)
                &&& L::took(old(self).sink(), final(self).sink(), final(self).handed().last())
            },
            !(level.enabled_under(old(self).config().level()) && stamp is Some) ==> {
                &&& final(self).handed() == old(self).handed()
                &&& final(self).sink() == old(self).sink()
            },
    {
        if level.is_enabled(self.app_config.log_level()) {
            match stamp {
                Some(stamp) => {
                    let line: String = render_line(stamp.as_str(), level, message);
                    self.emit(line.as_str());
                    assert(self.handed().drop_last() =~= old(self).handed());
                },
                None => {},
            }
        }
    }

    /// What logging `message` at `level` may do, taking the facade from
    /// `before` to `after`. The configuration stays. Either nothing is handed
    /// to the sink and the sink is as it was, or exactly one line is, rendered
    /// for `message` at `level` with some timestamp. A disabled level, or a
    /// timestamp format that was refused, always gives the first outcome.
    pub open spec fn logged_at(before: Self, after: Self, level: LogLevel, message: Seq<char>) -> bool {
        &&& after.config() == before.config()
        &&& after.handed() == before.handed() ==> after.sink() == before.sink()
        &&& after.handed() != before.handed() ==> {
            &&& after.handed().len() == before.handed().len() + 1
            &&& after.handed().drop_last() == before.handed()
            &&& exists|stamp: Seq<char>| rendered(after.handed().last(), stamp, level, message)
            &&& L::took(before.sink(), after.sink(), after.handed().last())
        }
        &&& !level.enabled_under(before.config().level()) || !before.config().format().usable()
            ==> after.handed() == before.handed()
    }

    /// Logs `message` at `level`, stamped with the current local time in the
    /// configured format. A disabled level leaves the sink untouched and
    /// reads no clock; where no timestamp can be written, the line is lost.
    pub fn log(&mut self, level: LogLevel, message: &str)
        ensures
            Self::logged_at(*old(self), *final(self), level, message@),
    {
        if level.is_enabled(self.app_config.log_level()) {
            let stamp: Option<String> = self.app_config.time_format().now();
            self.log_stamped(level, stamp, message);
        }
    }
}

impl AppLogger<LogMessages> {
    /// A facade over `app_config` that captures its lines in `log_messages`.
    pub fn test_logger(app_config: Rc<AppConfig>, log_messages: LogMessages) -> (r: AppLogger<
        LogMessages,
    >)
        ensures
            r.config() == *app_config,
            r.sink()@ == log_messages@,
            r.handed() == Seq::<Seq<char>>::empty(),
    {
        AppLogger::new(app_config, log_messages)
    }

    /// The lines captured so far, oldest first.
    pub fn log_messages(&self) -> (r: Vec<String>)
        ensures
            r@.map_values(|line: String| line@) == self.sink()@,
    {
        self.sink.log_messages()
    }
}

impl<L: Logger> HasAppConfig for AppLogger<L> {
    fn app_config(&self) -> (r: &AppConfig)
        ensures
            *r == self.config(),
    {
        &self.app_config
    }
}

impl<L: Logger> HasLogger for AppLogger<L> {
    fn is_enabled(&self, log_level: LogLevel) -> (r: bool)
        ensures
            r == log_level.enabled_under(self.config().level()),
    {
        log_level.is_enabled(self.app_config.log_level())
    }

    fn stdout(&mut self, message: &str)
        ensures
            final(self).config() == old(self).config(),
            final(self).handed() == old(self).handed().push(message@),
            L::took(old(self).sink(), final(self).sink(), message@),
    {
        self.emit(message);
    }

    fn trace(&mut self, message: &str)
        ensures
            Self::logged_at(*old(self), *final(self), LogLevel::Trace, message@),
    {
        self.log(LogLevel::Trace, message);
    }

    fn debug(&mut self, message: &str)
        ensures
            Self::logged_at(*old(self), *final(self), LogLevel::Debug, message@),
    {
        self.log(LogLevel::Debug, message);
    }

    fn info(&mut self, message: &str)
        ensures
            Self::logged_at(*old(self), *final(self), LogLevel::Info, message@),
    {
        self.log(LogLevel::Info, message);
    }

    fn warn(&mut self, message: &str)
        ensures
            Self::logged_at(*old(self), *final(self), LogLevel::Warn, message@),
    {
        self.log(LogLevel::Warn, message);
    }

    fn error(&mut self, message: &str)
        ensures
            Self::logged_at(*old(self), *final(self), LogLevel::Error, message@),
    {
        self.log(LogLevel::Error, message);
    }
}

} // verus!
