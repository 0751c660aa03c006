//! Starting the daemon: how it is to be started, and what its log says of
//! its progress while it builds its first circuits.
//!
//! A raw log line is a timestamp of 19 characters, a space, the text and a
//! line feed. A text whose first word is `[notice]` and whose second is
//! `Bootstrapped` reports the progress as `[notice] Bootstrapped NN%: `; one
//! whose first word is `[warn]` is a warning, and one whose first word is
//! `[err]` an error.

use crate::text::{
    chars_of, decimal_value, first_word, has_at, lemma_run_reaches, parse_decimal, range_is,
    run_end, scan_run, second_word, slice_string, starts_at, CharClass,
};
use vstd::prelude::*;

verus! {

/// The ways in which starting the daemon can fail.
#[derive(Debug, Clone, PartialEq, Eq)]
pub enum Error {
    /// The daemon logged an error: its text, and the warnings before it.
    Tor(String, Vec<String>),
    /// A log line is too short to hold a timestamp and a text.
    InvalidLogLine,
    /// A progress report does not have the expected form: its text.
    InvalidBootstrapLine(String),
    /// There is no process to act on.
    ProcessNotStarted,
    /// The daemon did not get as far as asked in the time given.
    Timeout,
}

/// How the daemon is to be started.
#[derive(Debug, Clone, PartialEq, Eq)]
pub struct TorProcess {
    tor_cmd: String,
    args: Vec<String>,
    torrc_path: Option<String>,
    completion_percent: u8,
    timeout: u32,
}

/// The mathematical content of a [`TorProcess`].
pub struct TorProcessView {
    /// The program to run.
    pub tor_cmd: Seq<char>,
    /// The arguments after those that name the configuration file.
    pub args: Seq<Seq<char>>,
    /// The configuration file, where one is given.
    pub torrc_path: Option<Seq<char>>,
    /// The progress, in percent, at which the daemon counts as started.
    pub completion_percent: u8,
    /// The seconds that the daemon is given to get there.
    pub timeout: u32,
}

impl View for TorProcess {
    type V = TorProcessView;

    closed spec fn view(&self) -> TorProcessView {
        TorProcessView {
            tor_cmd: self.tor_cmd@,
            args: self.args.deep_view(),
            torrc_path: self.torrc_path.deep_view(),
            completion_percent: self.completion_percent,
            timeout: self.timeout,
        }
    }
}

/// The arguments that the daemon is started with: `-f` and the
/// configuration file where one is given, then the other arguments.
pub open spec fn command_line(p: TorProcessView) -> Seq<Seq<char>> {
    match p.torrc_path {
        Some(path) => seq!["-f"@, path] + p.args,
        None => p.args,
    }
}

impl TorProcess {
    /// The daemon `tor`, without arguments or configuration file, which
    /// counts as started at 100 percent and is given no time.
    pub fn new() -> (p: TorProcess)
        ensures
            p@ == (TorProcessView {
                tor_cmd: "tor"@,
                args: Seq::empty(),
                torrc_path: None,
                completion_percent: 100,
                timeout: 0,
            }),
    {
        let p = TorProcess {
            tor_cmd: "tor".to_owned(),
            args: Vec::new(),
            torrc_path: None,
            completion_percent: 100,
            timeout: 0,
        };
        assert(p@.args =~= Seq::empty());
        p
    }

    /// Sets the program to run.
    pub fn tor_cmd(&mut self, tor_cmd: &str) -> (r: &mut Self)
        ensures
            *final(self) == *final(r),
            r@ == (TorProcessView { tor_cmd: tor_cmd@, ..old(self)@ }),
    {
        self.tor_cmd = tor_cmd.to_owned();
        self
    }

    /// Sets the configuration file.
    pub fn torrc_path(&mut self, torrc_path: &str) -> (r: &mut Self)
        ensures
            *final(self) == *final(r),
            r@ == (TorProcessView { torrc_path: Some(torrc_path@), ..old(self)@ }),
    {
        self.torrc_path = Some(torrc_path.to_owned());
        self
    }

    /// Adds one argument after those that are there.
    pub fn arg(&mut self, arg: String) -> (r: &mut Self)
        ensures
            *final(self) == *final(r),
            r@ == (TorProcessView { args: old(self)@.args.push(arg@), ..old(self)@ }),
    {
        self.args.push(arg);
        assert(self.args.deep_view() =~= old(self).args.deep_view().push(arg@));
        self
    }

    /// Adds arguments, in their order, after those that are there.
    pub fn args(&mut self, args: Vec<String>) -> (r: &mut Self)
        ensures
            *final(self) == *final(r),
            r@ == (TorProcessView { args: old(self)@.args + args.deep_view(), ..old(self)@ }),
    {
        let mut i: usize = 0;
        assert(self.args.deep_view() =~= old(self).args.deep_view() + args.deep_view().take(0));
        while i < args.len()
            invariant
                i <= args.len(),
                self.tor_cmd == old(self).tor_cmd,
                self.torrc_path == old(self).torrc_path,
                self.completion_percent == old(self).completion_percent,
                self.timeout == old(self).timeout,
                self.args.deep_view() == old(self).args.deep_view() + args.deep_view().take(
                    i as int,
                ),
            decreases args.len() - i,
        {
            let ghost before = self.args.deep_view();
            self.args.push(args[i].clone());
            proof {
                assert(self.args.deep_view() =~= before.push(args[i as int]@));
                assert(args.deep_view().take(i + 1) =~= args.deep_view().take(i as int).push(
                    args[i as int]@,
                ));
                assert(self.args.deep_view() =~= old(self).args.deep_view()
                    + args.deep_view().take(i + 1));
            }
            i += 1;
        }
        assert(args.deep_view().take(args.len() as int) =~= args.deep_view());
        self
    }

    /// Sets the progress, in percent, at which the daemon counts as started.
    pub fn completion_percent(&mut self, completion_percent: u8) -> (r: &mut Self)
        ensures
            *final(self) == *final(r),
            r@ == (TorProcessView { completion_percent, ..old(self)@ }),
    {
        self.completion_percent = completion_percent;
        self
    }

    /// Sets the seconds that the daemon is given to get that far.
    pub fn timeout(&mut self, timeout: u32) -> (r: &mut Self)
        ensures
            *final(self) == *final(r),
            r@ == (TorProcessView { timeout, ..old(self)@ }),
    {
        self.timeout = timeout;
        self
    }

    /// The program to run.
    pub fn program(&self) -> (r: &str)
        ensures
            r@ == self@.tor_cmd,
    {
        self.tor_cmd.as_str()
    }

    /// The seconds that the daemon is given.
    pub fn timeout_seconds(&self) -> (r: u32)
        ensures
            r == self@.timeout,
    {
        self.timeout
    }

    /// The arguments to start the daemon with.
    pub fn arguments(&self) -> (r: Vec<String>)
        ensures
            r.deep_view() == command_line(self@),
    {
        let mut r: Vec<String> = Vec::new();
        match &self.torrc_path {
            Some(path) => {
                r.push("-f".to_owned());
                r.push(path.clone());
                assert(r.deep_view() =~= seq!["-f"@, path@]);
            },
            None => {
                assert(r.deep_view() =~= Seq::empty());
            },
        }
        let ghost head = r.deep_view();
        let mut i: usize = 0;
        assert(r.deep_view() =~= head + self.args.deep_view().take(0));
        while i < self.args.len()
            invariant
                i <= self.args.len(),
                r.deep_view() == head + self.args.deep_view().take(i as int),
            decreases self.args.len() - i,
        {
            let ghost before = r.deep_view();
            r.push(self.args[i].clone());
            proof {
                assert(r.deep_view() =~= before.push(self.args[i as int]@));
                assert(self.args.deep_view().take(i + 1) =~= self.args.deep_view().take(
                    i as int,
                ).push(self.args[i as int]@));
                assert(r.deep_view() =~= head + self.args.deep_view().take(i + 1));
            }
            i += 1;
        }
        assert(self.args.deep_view().take(self.args.len() as int) =~= self.args.deep_view());
        r
    }

    /// A monitor for the log of the daemon that is started this way.
    pub fn monitor(&self) -> (m: BootstrapMonitor)
        ensures
            m.completion_percent == self@.completion_percent,
            m.warnings@.len() == 0,
    {
        BootstrapMonitor { completion_percent: self.completion_percent, warnings: Vec::new() }
    }
}

/// The text of a raw log line: what stands between the timestamp and its
/// space, and the line feed.
pub open spec fn log_text(raw: Seq<char>) -> Seq<char> {
    raw.subrange(20, raw.len() - 1)
}

/// The word that opens a progress report.
pub open spec fn bootstrap_word() -> Seq<char> {
    "[notice] Bootstrapped "@
}

/// The digits of the progress, where `line` starts with
/// `[notice] Bootstrapped `, one digit or more, and `%: `.
pub open spec fn bootstrap_digits(line: Seq<char>) -> Option<Seq<char>> {
    let end = run_end(line, bootstrap_word().len() as int, CharClass::Digit);
    if has_at(line, 0, bootstrap_word()) && end > bootstrap_word().len() && has_at(
        line,
        end,
        "%: "@,
    ) {
        Some(line.subrange(bootstrap_word().len() as int, end))
    } else {
        None
    }
}

/// What a log line means to one who waits for the daemon.
pub enum Observed {
    /// Nothing yet.
    Nothing,
    /// A warning, to be kept.
    Warning,
    /// The daemon has got as far as asked.
    Started,
    /// The daemon logged an error.
    Failed,
    /// The line is too short.
    InvalidLine,
    /// The line is a progress report of another form than expected, or of a
    /// progress above 255.
    InvalidReport,
}

/// What the raw log line `raw` means where the daemon counts as started at
/// `threshold` percent.
pub open spec fn observed(threshold: u8, raw: Seq<char>) -> Observed {
    if raw.len() < 21 {
        Observed::InvalidLine
    } else if first_word(log_text(raw)) == "[notice]"@ {
        if second_word(log_text(raw)) == Some("Bootstrapped"@) {
            match bootstrap_digits(log_text(raw)) {
                None => Observed::InvalidReport,
                Some(digits) => if decimal_value(digits) > 255 {
                    Observed::InvalidReport
                } else if decimal_value(digits) >= threshold {
                    Observed::Started
                } else {
                    Observed::Nothing
                },
            }
        } else {
            Observed::Nothing
        }
    } else if first_word(log_text(raw)) == "[warn]"@ {
        Observed::Warning
    } else if first_word(log_text(raw)) == "[err]"@ {
        Observed::Failed
    } else {
        Observed::Nothing
    }
}

/// One who reads the daemon's log until the daemon has started or failed.
#[derive(Debug, Clone, PartialEq, Eq)]
pub struct BootstrapMonitor {
    /// The progress, in percent, at which the daemon counts as started.
    pub completion_percent: u8,
    /// The warnings that the daemon has logged so far.
    pub warnings: Vec<String>,
}

impl BootstrapMonitor {
    /// Takes in one raw line of the log. `Ok(true)` says that the daemon has
    /// started, `Ok(false)` that the log is to be read on. An error of the
    /// daemon takes the warnings with it.
    pub fn observe(&mut self, raw_line: &str) -> (r: Result<bool, Error>)
        ensures
            final(self).completion_percent == old(self).completion_percent,
            match observed(old(self).completion_percent, raw_line@) {
                Observed::Nothing => {
                    &&& r == Ok::<bool, Error>(false)
                    &&& final(self).warnings == old(self).warnings
                },
                Observed::Warning => {
                    &&& r == Ok::<bool, Error>(false)
                    &&& final(self).warnings.deep_view() == old(self).warnings.deep_view().push(
                        log_text(raw_line@),
                    )
                },
                Observed::Started => {
                    &&& r == Ok::<bool, Error>(true)
                    &&& final(self).warnings == old(self).warnings
                },
                Observed::Failed => {
                    &&& r matches Err(Error::Tor(text, warnings))
                    &&& text@ == log_text(raw_line@)
                    &&& warnings == old(self).warnings
                    &&& final(self).warnings@.len() == 0
                },
                Observed::InvalidLine => {
                    &&& r == Err::<bool, Error>(Error::InvalidLogLine)
                    &&& final(self).warnings == old(self).warnings
                },
                Observed::InvalidReport => {
                    &&& r matches Err(Error::InvalidBootstrapLine(text))
                    &&& text@ == log_text(raw_line@)
                    &&& final(self).warnings == old(self).warnings
                },
            },
    {
        let raw = chars_of(raw_line);
        if raw.len() < 21 {
            return Err(Error::InvalidLogLine);
        }
        let line = slice_string(raw_line, 20, raw.len() - 1);
        let cs = chars_of(line.as_str());
        let s = cs.as_slice();
        let n = cs.len();
        let word_end = scan_run(s, 0, CharClass::Except(' '));
        assert(cs@.subrange(0, word_end as int) =~= first_word(cs@));
        if range_is(s, 0, word_end, "[notice]") {
            if word_end >= n {
                return Ok(false);
            }
            let second_end = scan_run(s, word_end + 1, CharClass::Except(' '));
            if !range_is(s, word_end + 1, second_end, "Bootstrapped") {
                return Ok(false);
            }
            let word = chars_of("[notice] Bootstrapped ");
            if !starts_at(s, 0, "[notice] Bootstrapped ") {
                return Err(Error::InvalidBootstrapLine(line));
            }
            let end = scan_run(s, word.len(), CharClass::Digit);
            if end <= word.len() || !starts_at(s, end, "%: ") {
                return Err(Error::InvalidBootstrapLine(line));
            }
            proof {
                lemma_run_reaches(cs@, word@.len() as int, end as int, CharClass::Digit);
            }
            match parse_decimal(s, word.len(), end, 255) {
                None => Err(Error::InvalidBootstrapLine(line)),
                Some(percent) => Ok(percent >= self.completion_percent as u16),
            }
        } else if range_is(s, 0, word_end, "[warn]") {
            self.warnings.push(line);
            assert(self.warnings.deep_view() =~= old(self).warnings.deep_view().push(
                log_text(raw_line@),
            ));
            Ok(false)
        } else if range_is(s, 0, word_end, "[err]") {
            let mut warnings: Vec<String> = Vec::new();
            core::mem::swap(&mut self.warnings, &mut warnings);
            Err(Error::Tor(line, warnings))
        } else {
            Ok(false)
        }
    }
}

} // verus!
