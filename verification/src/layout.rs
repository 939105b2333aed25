//! What the report of a run looks like: the text of every part of it, as
//! sequences of characters, and which parts are colored.

use crate::args::{Arguments, FormatSetting};
use crate::outcome::{Conclusion, Outcome, Test};
use crate::text::{decimal, pad_right};
use vstd::prelude::*;

verus! {

/// The color of an outcome word.
#[derive(Debug, Clone, Copy, PartialEq, Eq, Structural)]
pub enum Color {
    Green,
    Red,
    Yellow,
    Cyan,
}

/// One write to the destination: a text, in one color or in none.
#[derive(Debug, Clone, PartialEq, Eq)]
pub struct Piece {
    pub text: String,
    pub color: Option<Color>,
}

/// A `Piece` with its text as a sequence of characters.
pub struct Span {
    pub text: Seq<char>,
    pub color: Option<Color>,
}

impl View for Piece {
    type V = Span;

    open spec fn view(&self) -> Span {
        Span { text: self.text@, color: self.color }
    }
}

/// The spans of a sequence of pieces.
pub open spec fn spans(pieces: Seq<Piece>) -> Seq<Span> {
    pieces.map_values(|p: Piece| p@)
}

/// How a report is laid out. It is fixed before the first test runs, so that
/// the columns line up in whatever order the outcomes arrive.
#[derive(Debug, Clone, Copy, PartialEq, Eq, Structural)]
pub struct Layout {
    /// One character per test, in place of one line.
    pub terse: bool,
    /// Outcome words carry their color.
    pub colored: bool,
    /// The length of the longest test name.
    pub name_width: usize,
    /// The length of the longest kind; zero where no test has one.
    pub kind_width: usize,
}

/// The length of the longest name among `tests`; zero for none.
pub open spec fn longest_name<D>(tests: Seq<Test<D>>) -> nat
    decreases tests.len(),
{
    if tests.len() == 0 {
        0
    } else {
        let rest = longest_name(tests.drop_last());
        if tests.last().name@.len() > rest {
            tests.last().name@.len()
        } else {
            rest
        }
    }
}

/// The length of the longest kind among `tests`; zero for none.
pub open spec fn longest_kind<D>(tests: Seq<Test<D>>) -> nat
    decreases tests.len(),
{
    if tests.len() == 0 {
        0
    } else {
        let rest = longest_kind(tests.drop_last());
        if tests.last().kind@.len() > rest {
            tests.last().kind@.len()
        } else {
            rest
        }
    }
}

impl Arguments {
    /// The report has one character per test: `quiet` asks for that, and so
    /// does the terse format.
    pub open spec fn wants_terse(self) -> bool {
        self.quiet || self.format == Some(FormatSetting::Terse)
    }

    /// The run asks for the format that does not exist.
    pub open spec fn wants_json(self) -> bool {
        self.format == Some(FormatSetting::Json)
    }
}

/// The layout of the report on `tests` under `args`.
pub open spec fn layout_of<D>(args: Arguments, tests: Seq<Test<D>>) -> Layout {
    Layout {
        terse: args.wants_terse(),
        colored: args.colors(),
        name_width: longest_name(tests) as usize,
        kind_width: longest_kind(tests) as usize,
    }
}

impl Layout {
    /// The width of the column that holds the kind in brackets and the space
    /// after it; no column where no test has a kind.
    pub open spec fn label_width(self) -> nat {
        if self.kind_width == 0 {
            0
        } else {
            (self.kind_width + 3) as nat
        }
    }

    /// A span in no color.
    pub open spec fn plain(text: Seq<char>) -> Span {
        Span { text, color: None }
    }

    /// A span in `color`, where the layout has colors.
    pub open spec fn tinted(self, text: Seq<char>, color: Color) -> Span {
        Span { text, color: if self.colored { Some(color) } else { None } }
    }

    /// The first line: how many tests will run.
    pub open spec fn title(self, num_tests: u64) -> Seq<Span> {
        seq![
            Self::plain(
                "\nrunning "@ + decimal(num_tests as nat) + " test"@ + plural(num_tests) + "\n"@,
            ),
        ]
    }

    /// The start of a test's line, up to the place of the outcome word.
    /// Nothing in a terse report.
    pub open spec fn announcement(self, name: Seq<char>, kind: Seq<char>) -> Seq<Span> {
        if self.terse {
            Seq::empty()
        } else {
            seq![
                Self::plain(
                    "test "@ + pad_right(label(kind), self.label_width()) + pad_right(
                        name,
                        self.name_width as nat,
                    ) + " ... "@,
                ),
            ]
        }
    }

    /// The outcome word in its color, alone.
    pub open spec fn word(self, outcome: Outcome) -> Seq<Span> {
        seq![self.tinted(word_of(outcome), color_of(outcome))]
    }

    /// The outcome of one test: the colored word, what was measured, and the
    /// end of the line; in a terse report one colored character.
    pub open spec fn verdict(self, outcome: Outcome) -> Seq<Span> {
        if self.terse {
            seq![self.tinted(mark_of(outcome), color_of(outcome))]
        } else {
            self.word(outcome) + seq![Self::plain(measurement(outcome) + "\n"@)]
        }
    }

    /// All that the report says of one test.
    pub open spec fn entry(self, name: Seq<char>, kind: Seq<char>, outcome: Outcome) -> Seq<Span> {
        self.announcement(name, kind) + self.verdict(outcome)
    }

    /// The last line: the overall result and the five counts.
    pub open spec fn summary(self, c: Conclusion) -> Seq<Span> {
        seq![Self::plain("\ntest result: "@)] + self.word(overall(c)) + seq![
            Self::plain(counts(c)),
        ]
    }
}

/// The plural ending after a count.
pub open spec fn plural(n: u64) -> Seq<char> {
    if n == 1 {
        ""@
    } else {
        "s"@
    }
}

/// The kind in brackets with a space after it; nothing for no kind.
pub open spec fn label(kind: Seq<char>) -> Seq<char> {
    if kind.len() == 0 {
        Seq::empty()
    } else {
        "["@ + kind + "] "@
    }
}

/// The word that a line-per-test report shows for an outcome.
pub open spec fn word_of(outcome: Outcome) -> Seq<char> {
    match outcome {
        Outcome::Passed => "ok"@,
        Outcome::Failed { .. } => "FAILED"@,
        Outcome::Ignored => "ignored"@,
        Outcome::Measured { .. } => "bench"@,
    }
}

/// The character that a terse report shows for an outcome.
pub open spec fn mark_of(outcome: Outcome) -> Seq<char> {
    match outcome {
        Outcome::Passed => "."@,
        Outcome::Failed { .. } => "F"@,
        Outcome::Ignored => "i"@,
        Outcome::Measured { .. } => "b"@,
    }
}

/// The color of an outcome.
pub open spec fn color_of(outcome: Outcome) -> Color {
    match outcome {
        Outcome::Passed => Color::Green,
        Outcome::Failed { .. } => Color::Red,
        Outcome::Ignored => Color::Yellow,
        Outcome::Measured { .. } => Color::Cyan,
    }
}

/// What follows the word of a measured benchmark; nothing after the others.
pub open spec fn measurement(outcome: Outcome) -> Seq<char> {
    match outcome {
        Outcome::Measured { avg, variance } => ": "@ + decimal(avg as nat) + " ns/iter (+/- "@
            + decimal(variance as nat) + ")"@,
        _ => Seq::empty(),
    }
}

/// The outcome that stands for a whole run: failed if any test failed.
pub open spec fn overall(c: Conclusion) -> Outcome {
    if c.num_failed > 0 {
        Outcome::Failed { msg: None }
    } else {
        Outcome::Passed
    }
}

/// The five counts of the summary line.
pub open spec fn counts(c: Conclusion) -> Seq<char> {
    ". "@ + decimal(c.num_passed as nat) + " passed; "@ + decimal(c.num_failed as nat)
        + " failed; "@ + decimal(c.num_ignored as nat) + " ignored; "@ + decimal(
        c.num_measured as nat,
    ) + " measured; "@ + decimal(c.num_filtered_out as nat) + " filtered out\n\n"@
}

/// The line of a listing for one test.
pub open spec fn listing_line<D>(test: Test<D>) -> Span {
    Layout::plain(
        label(test.kind@) + test.name@ + ": "@ + (if test.is_bench {
            "bench"@
        } else {
            "test"@
        }) + "\n"@,
    )
}

/// The listing of `tests`, one line each; under `ignored_only` the tests
/// that are marked as ignored, and no others.
pub open spec fn listing<D>(tests: Seq<Test<D>>, ignored_only: bool) -> Seq<Span>
    decreases tests.len(),
{
    if tests.len() == 0 {
        Seq::empty()
    } else {
        let rest = listing(tests.drop_last(), ignored_only);
        if ignored_only && !tests.last().is_ignored {
            rest
        } else {
            rest.push(listing_line(tests.last()))
        }
    }
}

/// The message of one failed test under a heading with its name; nothing
/// for a failure without a message.
pub open spec fn failure_detail<D>(fail: (Test<D>, Option<String>)) -> Seq<Span> {
    match fail.1 {
        Some(msg) => seq![
            Layout::plain("---- "@ + fail.0.name@ + " ----\n"@ + msg@ + "\n\n"@),
        ],
        None => Seq::empty(),
    }
}

/// The messages of the failed tests, in their order.
pub open spec fn failure_details<D>(fails: Seq<(Test<D>, Option<String>)>) -> Seq<Span>
    decreases fails.len(),
{
    if fails.len() == 0 {
        Seq::empty()
    } else {
        failure_details(fails.drop_last()) + failure_detail(fails.last())
    }
}

/// The names of the failed tests, one line each, in their order.
pub open spec fn failure_names<D>(fails: Seq<(Test<D>, Option<String>)>) -> Seq<Span>
    decreases fails.len(),
{
    if fails.len() == 0 {
        Seq::empty()
    } else {
        failure_names(fails.drop_last()).push(
            Layout::plain("    "@ + fails.last().0.name@ + "\n"@),
        )
    }
}

/// The part of the report on the failed tests: their messages, then their names.
pub open spec fn failures<D>(fails: Seq<(Test<D>, Option<String>)>) -> Seq<Span> {
    seq![Layout::plain("\nfailures:\n\n"@)] + failure_details(fails) + seq![
        Layout::plain("\nfailures:\n"@),
    ] + failure_names(fails)
}

} // verus!
