//! The configuration of one run.

use crate::text::str_eq;
use vstd::prelude::*;

verus! {

/// When the outcome words are colored.
#[derive(Debug, Clone, Copy, PartialEq, Eq, Structural)]
pub enum ColorSetting {
    /// Colored if the destination is a terminal.
    Auto,
    /// Always colored.
    Always,
    /// Never colored.
    Never,
}

/// The shape of the report.
#[derive(Debug, Clone, Copy, PartialEq, Eq, Structural)]
pub enum FormatSetting {
    /// One line per test.
    Pretty,
    /// One character per test.
    Terse,
    /// A machine-readable report. No text names it: a configuration that is
    /// built in code can ask for it, and every run that asks for it is refused.
    Json,
}

/// Where the report goes, and whether it carries color codes.
#[derive(Debug, Clone, PartialEq, Eq)]
pub enum Destination {
    /// The standard output, colored as the setting says.
    Stdout { color: ColorSetting },
    /// A file at `path`; `ansi` says whether color codes are written into it.
    File { path: String, ansi: bool },
}

/// Everything a caller can ask of a run.
#[derive(Debug, Clone)]
pub struct Arguments {
    /// Run ignored tests along with the others.
    pub include_ignored: bool,
    /// Run ignored tests; a listing shows the ignored tests only.
    pub ignored: bool,
    /// Run tests, not benchmarks.
    pub test: bool,
    /// Run benchmarks, not tests.
    pub bench: bool,
    /// List the tests instead of running them.
    pub list: bool,
    /// Accepted and without effect: output is never captured.
    pub nocapture: bool,
    /// Patterns must equal a name, not merely occur in it.
    pub exact: bool,
    /// One character per test. Stands for the terse format.
    pub quiet: bool,
    /// The number of workers. None, zero and one all mean: on the calling thread.
    pub test_threads: Option<usize>,
    /// The file that receives the report in place of the standard output.
    pub logfile: Option<String>,
    /// Tests whose name matches one of these are left out.
    pub skip: Vec<String>,
    /// When to color. None stands for `Auto`.
    pub color: Option<ColorSetting>,
    /// The shape of the report. None stands for `Pretty`.
    pub format: Option<FormatSetting>,
    /// Only tests whose name matches this are kept.
    pub filter: Option<String>,
}

impl ColorSetting {
    /// The setting that `s` names, if it names one.
    pub open spec fn named(s: Seq<char>) -> Option<ColorSetting> {
        if s == "auto"@ {
            Some(ColorSetting::Auto)
        } else if s == "always"@ {
            Some(ColorSetting::Always)
        } else if s == "never"@ {
            Some(ColorSetting::Never)
        } else {
            None
        }
    }

    /// Reads `auto`, `always` or `never`; anything else is an error.
    pub fn parse(s: &str) -> (r: Result<ColorSetting, &'static str>)
        ensures
            match r {
                Ok(c) => Self::named(s@) == Some(c),
                Err(e) => Self::named(s@).is_none() && e@ == "invalid color setting"@,
            },
    {
        if str_eq(s, "auto") {
            Ok(ColorSetting::Auto)
        } else if str_eq(s, "always") {
            Ok(ColorSetting::Always)
        } else if str_eq(s, "never") {
            Ok(ColorSetting::Never)
        } else {
            Err("invalid color setting")
        }
    }
}

impl Default for ColorSetting {
    fn default() -> (r: Self)
        ensures
            r == ColorSetting::Auto,
    {
        ColorSetting::Auto
    }
}

impl std::str::FromStr for ColorSetting {
    type Err = &'static str;

    /// Reads `auto`, `always` or `never`; anything else is an error.
    fn from_str(s: &str) -> (r: Result<Self, Self::Err>)
        ensures
            match r {
                Ok(c) => ColorSetting::named(s@) == Some(c),
                Err(e) => ColorSetting::named(s@).is_none() && e@ == "invalid color setting"@,
            },
    {
        ColorSetting::parse(s)
    }
}

impl FormatSetting {
    /// The format that `s` names, if it names one.
    pub open spec fn named(s: Seq<char>) -> Option<FormatSetting> {
        if s == "pretty"@ {
            Some(FormatSetting::Pretty)
        } else if s == "terse"@ {
            Some(FormatSetting::Terse)
        } else {
            None
        }
    }

    /// Reads `pretty` or `terse`; anything else is an error, `json` too.
    pub fn parse(s: &str) -> (r: Result<FormatSetting, &'static str>)
        ensures
            match r {
                Ok(f) => Self::named(s@) == Some(f),
                Err(e) => Self::named(s@).is_none() && e@ == "invalid output format"@,
            },
    {
        if str_eq(s, "pretty") {
            Ok(FormatSetting::Pretty)
        } else if str_eq(s, "terse") {
            Ok(FormatSetting::Terse)
        } else {
            Err("invalid output format")
        }
    }
}

impl Default for FormatSetting {
    fn default() -> (r: Self)
        ensures
            r == FormatSetting::Pretty,
    {
        FormatSetting::Pretty
    }
}

impl std::str::FromStr for FormatSetting {
    type Err = &'static str;

    /// Reads `pretty` or `terse`; anything else is an error, `json` too.
    fn from_str(s: &str) -> (r: Result<Self, Self::Err>)
        ensures
            match r {
                Ok(f) => FormatSetting::named(s@) == Some(f),
                Err(e) => FormatSetting::named(s@).is_none() && e@ == "invalid output format"@,
            },
    {
        FormatSetting::parse(s)
    }
}

impl Arguments {
    /// The configuration that asks for nothing.
    pub open spec fn is_plain(self) -> bool {
        &&& !self.include_ignored
        &&& !self.ignored
        &&& !self.test
        &&& !self.bench
        &&& !self.list
        &&& !self.nocapture
        &&& !self.exact
        &&& !self.quiet
        &&& self.test_threads.is_none()
        &&& self.logfile.is_none()
        &&& self.skip@.len() == 0
        &&& self.color.is_none()
        &&& self.format.is_none()
        &&& self.filter.is_none()
    }

    /// The color setting in force.
    pub open spec fn color_in_force(self) -> ColorSetting {
        match self.color {
            Some(c) => c,
            None => ColorSetting::Auto,
        }
    }

    /// Outcome words carry their color: never under `Never`, and in a log
    /// file only under `Always`.
    pub open spec fn colors(self) -> bool {
        match self.logfile {
            Some(_) => self.color_in_force() == ColorSetting::Always,
            None => self.color_in_force() != ColorSetting::Never,
        }
    }

    /// The number of workers in force: what was asked for, and never less than one.
    pub open spec fn workers(self) -> usize {
        match self.test_threads {
            Some(n) => if n > 1 { n } else { 1 },
            None => 1,
        }
    }

    /// Where the report goes. A log file carries color codes only under `Always`.
    pub open spec fn target(self) -> DestinationView {
        match self.logfile {
            Some(path) => DestinationView::File {
                path: path@,
                ansi: self.color_in_force() == ColorSetting::Always,
            },
            None => DestinationView::Stdout { color: self.color_in_force() },
        }
    }

    /// The color setting in force.
    pub fn color_setting(&self) -> (c: ColorSetting)
        ensures
            c == self.color_in_force(),
    {
        match self.color {
            Some(c) => c,
            None => ColorSetting::Auto,
        }
    }

    /// Whether outcome words carry their color.
    pub fn uses_color(&self) -> (b: bool)
        ensures
            b == self.colors(),
    {
        let color = self.color_setting();
        match &self.logfile {
            Some(_) => color == ColorSetting::Always,
            None => color != ColorSetting::Never,
        }
    }

    /// The number of workers that evaluate tests. One means that every test
    /// runs on the calling thread, in the order of the catalog.
    pub fn worker_count(&self) -> (n: usize)
        ensures
            n == self.workers(),
            n >= 1,
    {
        match self.test_threads {
            Some(n) => if n > 1 { n } else { 1 },
            None => 1,
        }
    }

    /// Whether every test runs on the calling thread.
    pub fn is_sequential(&self) -> (b: bool)
        ensures
            b == (self.workers() == 1),
    {
        self.worker_count() == 1
    }

    /// Where the report goes.
    pub fn destination(&self) -> (d: Destination)
        ensures
            d@ == self.target(),
    {
        let color = self.color_setting();
        match &self.logfile {
            Some(path) => Destination::File {
                path: path.clone(),
                ansi: color == ColorSetting::Always,
            },
            None => Destination::Stdout { color },
        }
    }
}

/// A `Destination` with its path as a sequence of characters.
pub enum DestinationView {
    Stdout { color: ColorSetting },
    File { path: Seq<char>, ansi: bool },
}

impl View for Destination {
    type V = DestinationView;

    open spec fn view(&self) -> DestinationView {
        match *self {
            Destination::Stdout { color } => DestinationView::Stdout { color },
            Destination::File { path, ansi } => DestinationView::File { path: path@, ansi },
        }
    }
}

impl Default for Arguments {
    fn default() -> (r: Self)
        ensures
            r.is_plain(),
    {
        Arguments {
            include_ignored: false,
            ignored: false,
            test: false,
            bench: false,
            list: false,
            nocapture: false,
            exact: false,
            quiet: false,
            test_threads: None,
            logfile: None,
            skip: Vec::new(),
            color: None,
            format: None,
            filter: None,
        }
    }
}

} // verus!
