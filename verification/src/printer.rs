//! The renderer: it turns the events of a run into the pieces of the report.
//!
//! A `Printer` writes nowhere. It keeps the pieces in the order in which they
//! are to be written, and hands them over when asked: whoever owns the
//! destination writes them out.

use crate::args::{Arguments, FormatSetting};
use crate::layout::{
    color_of, counts, failure_detail, failure_details, failure_names, failures, label, layout_of,
    listing, listing_line, longest_kind, longest_name, mark_of, measurement, overall, plural,
    spans, word_of, Color, Layout, Piece, Span,
};
use crate::outcome::{Conclusion, Outcome, Test};
use crate::text::{decimal, pad_right, push_decimal, push_padded, push_spaces, spaces};
use vstd::prelude::*;

verus! {

/// Why a run was refused before it began.
#[derive(Debug, Clone, Copy, PartialEq, Eq, Structural)]
pub enum ConfigError {
    /// The run asks for the machine-readable format, which does not exist.
    UnsupportedFormat,
}

impl ConfigError {
    /// The error in words.
    pub fn message(&self) -> (s: String)
        ensures
            s@ == "the json format is not supported"@,
    {
        "the json format is not supported".to_owned()
    }
}

/// The renderer of one run.
pub struct Printer {
    layout: Layout,
    out: Vec<Piece>,
}

/// The color of an outcome: one for each kind of outcome.
pub fn color_of_outcome(outcome: &Outcome) -> (c: Color)
    ensures
        c == color_of(*outcome),
{
    match outcome {
        Outcome::Passed => Color::Green,
        Outcome::Failed { .. } => Color::Red,
        Outcome::Ignored => Color::Yellow,
        Outcome::Measured { .. } => Color::Cyan,
    }
}

/// The length of the longest name and of the longest kind among `tests`.
pub fn column_widths<D>(tests: &Vec<Test<D>>) -> (w: (usize, usize))
    ensures
        w.0 == longest_name(tests@),
        w.1 == longest_kind(tests@),
{
    let mut name_width: usize = 0;
    let mut kind_width: usize = 0;
    let mut i: usize = 0;
    while i < tests.len()
        invariant
            i <= tests.len(),
            name_width == longest_name(tests@.take(i as int)),
            kind_width == longest_kind(tests@.take(i as int)),
        decreases tests.len() - i,
    {
        assert(tests@.take(i + 1).drop_last() == tests@.take(i as int));
        let n = tests[i].name.as_str().unicode_len();
        let k = tests[i].kind.as_str().unicode_len();
        if n > name_width {
            name_width = n;
        }
        if k > kind_width {
            kind_width = k;
        }
        i += 1;
    }
    assert(tests@.take(tests@.len() as int) == tests@);
    (name_width, kind_width)
}

impl Printer {
    /// How the report is laid out.
    pub closed spec fn layout(self) -> Layout {
        self.layout
    }

    /// What has been rendered and not yet handed over, in order.
    pub closed spec fn output(self) -> Seq<Span> {
        spans(self.out@)
    }

    /// The renderer for a run of `tests` under `args`, with nothing rendered
    /// yet. A run that asks for the machine-readable format is refused.
    pub fn new<D>(args: &Arguments, tests: &Vec<Test<D>>) -> (r: Result<Printer, ConfigError>)
        ensures
            args.wants_json() <==> r is Err,
            r matches Ok(p) ==> {
                &&& p.layout() == layout_of(*args, tests@)
                &&& p.layout().name_width == longest_name(tests@)
                &&& p.layout().kind_width == longest_kind(tests@)
                &&& p.output() == Seq::<Span>::empty()
            },
    {
        let terse = match args.format {
            Some(FormatSetting::Json) => {
                return Err(ConfigError::UnsupportedFormat);
            },
            Some(FormatSetting::Terse) => true,
            _ => args.quiet,
        };
        let colored = args.uses_color();
        let (name_width, kind_width) = column_widths(tests);
        Ok(Printer { layout: Layout { terse, colored, name_width, kind_width }, out: Vec::new() })
    }

    /// How the report is laid out.
    pub fn get_layout(&self) -> (l: Layout)
        ensures
            l == self.layout(),
    {
        self.layout
    }

    /// Hands over what has been rendered since the last call. The renderer
    /// goes on with nothing pending.
    pub fn take_output(&mut self) -> (pieces: Vec<Piece>)
        ensures
            spans(pieces@) == old(self).output(),
            final(self).output() == Seq::<Span>::empty(),
            final(self).layout() == old(self).layout(),
    {
        let mut pieces: Vec<Piece> = Vec::new();
        std::mem::swap(&mut self.out, &mut pieces);
        pieces
    }

    fn emit(&mut self, text: String, color: Option<Color>)
        ensures
            final(self).output() == old(self).output().push(Span { text: text@, color }),
            final(self).layout() == old(self).layout(),
    {
        let ghost before = self.out@;
        let piece = Piece { text, color };
        self.out.push(piece);
        assert(spans(before.push(piece)) =~= spans(before).push(piece@));
    }

    fn emit_tinted(&mut self, text: &str, color: Color)
        ensures
            final(self).output() == old(self).output().push(
                old(self).layout().tinted(text@, color),
            ),
            final(self).layout() == old(self).layout(),
    {
        let tint = if self.layout.colored {
            Some(color)
        } else {
            None
        };
        self.emit(text.to_owned(), tint);
    }

    /// Renders the first line: how many tests will run.
    pub fn print_title(&mut self, num_tests: u64)
        ensures
            final(self).output() == old(self).output() + old(self).layout().title(num_tests),
            final(self).layout() == old(self).layout(),
    {
        let mut line = String::new();
        line.append("\nrunning ");
        push_decimal(&mut line, num_tests);
        line.append(" test");
        if num_tests == 1 {
            line.append("");
        } else {
            line.append("s");
        }
        line.append("\n");
        assert(line@ =~= "\nrunning "@ + decimal(num_tests as nat) + " test"@ + plural(num_tests)
            + "\n"@);
        self.emit(line, None);
        assert(final(self).output() =~= old(self).output() + old(self).layout().title(num_tests));
    }

    /// Renders the start of a test's line. Nothing in a terse report.
    pub fn print_test(&mut self, name: &str, kind: &str)
        ensures
            final(self).output() == old(self).output() + old(self).layout().announcement(
                name@,
                kind@,
            ),
            final(self).layout() == old(self).layout(),
    {
        if self.layout.terse {
            assert(final(self).output() =~= old(self).output() + old(self).layout().announcement(
                name@,
                kind@,
            ));
            return ;
        }
        let mut line = String::new();
        line.append("test ");
        let ghost head = line@;
        push_label(&mut line, kind);
        let kind_len = kind.unicode_len();
        if self.layout.kind_width > 0 {
            // The column is three wider than the longest kind: two brackets and a space.
            if kind_len == 0 {
                push_spaces(&mut line, self.layout.kind_width);
                push_spaces(&mut line, 3);
                assert(spaces(self.layout.kind_width as nat) + spaces(3) =~= spaces(
                    (self.layout.kind_width + 3) as nat,
                ));
            } else if kind_len < self.layout.kind_width {
                push_spaces(&mut line, self.layout.kind_width - kind_len);
            }
        }
        proof {
            reveal_strlit("[");
            reveal_strlit("] ");
            assert(line@ =~= head + pad_right(label(kind@), self.layout.label_width()));
        }
        push_padded(&mut line, name, self.layout.name_width);
        line.append(" ... ");
        assert(line@ =~= "test "@ + pad_right(label(kind@), self.layout.label_width()) + pad_right(
            name@,
            self.layout.name_width as nat,
        ) + " ... "@);
        self.emit(line, None);
        assert(final(self).output() =~= old(self).output() + old(self).layout().announcement(
            name@,
            kind@,
        ));
    }

    /// Renders the outcome word in its color.
    fn print_outcome_pretty(&mut self, outcome: &Outcome)
        ensures
            final(self).output() == old(self).output() + old(self).layout().word(*outcome),
            final(self).layout() == old(self).layout(),
    {
        let word = match outcome {
            Outcome::Passed => "ok",
            Outcome::Failed { .. } => "FAILED",
            Outcome::Ignored => "ignored",
            Outcome::Measured { .. } => "bench",
        };
        self.emit_tinted(word, color_of_outcome(outcome));
        assert(final(self).output() =~= old(self).output() + old(self).layout().word(*outcome));
    }

    /// Renders the outcome of one test: the rest of its line, or its one
    /// character in a terse report.
    pub fn print_single_outcome(&mut self, outcome: &Outcome)
        ensures
            final(self).output() == old(self).output() + old(self).layout().verdict(*outcome),
            final(self).layout() == old(self).layout(),
    {
        if self.layout.terse {
            let mark = match outcome {
                Outcome::Passed => ".",
                Outcome::Failed { .. } => "F",
                Outcome::Ignored => "i",
                Outcome::Measured { .. } => "b",
            };
            self.emit_tinted(mark, color_of_outcome(outcome));
        } else {
            self.print_outcome_pretty(outcome);
            let mut rest = String::new();
            match outcome {
                Outcome::Measured { avg, variance } => {
                    rest.append(": ");
                    push_decimal(&mut rest, *avg);
                    rest.append(" ns/iter (+/- ");
                    push_decimal(&mut rest, *variance);
                    rest.append(")");
                },
                _ => {},
            }
            assert(rest@ =~= measurement(*outcome));
            rest.append("\n");
            self.emit(rest, None);
        }
        assert(final(self).output() =~= old(self).output() + old(self).layout().verdict(*outcome));
    }

    /// Renders the last line: the overall result and the counts.
    pub fn print_summary(&mut self, conclusion: &Conclusion)
        ensures
            final(self).output() == old(self).output() + old(self).layout().summary(*conclusion),
            final(self).layout() == old(self).layout(),
    {
        self.emit("\ntest result: ".to_owned(), None);
        let outcome = if conclusion.has_failed() {
            Outcome::Failed { msg: None }
        } else {
            Outcome::Passed
        };
        assert(outcome == overall(*conclusion));
        self.print_outcome_pretty(&outcome);
        let mut line = String::new();
        line.append(". ");
        push_decimal(&mut line, conclusion.num_passed);
        line.append(" passed; ");
        push_decimal(&mut line, conclusion.num_failed);
        line.append(" failed; ");
        push_decimal(&mut line, conclusion.num_ignored);
        line.append(" ignored; ");
        push_decimal(&mut line, conclusion.num_measured);
        line.append(" measured; ");
        push_decimal(&mut line, conclusion.num_filtered_out);
        line.append(" filtered out\n\n");
        assert(line@ =~= counts(*conclusion));
        self.emit(line, None);
        assert(final(self).output() =~= old(self).output() + old(self).layout().summary(
            *conclusion,
        ));
    }

    /// Renders the report on the failed tests: the messages, then the names.
    pub fn print_failures<D>(&mut self, fails: &Vec<(Test<D>, Option<String>)>)
        ensures
            final(self).output() == old(self).output() + failures(fails@),
            final(self).layout() == old(self).layout(),
    {
        self.emit("\nfailures:\n\n".to_owned(), None);
        let ghost base = self.output();
        let mut i: usize = 0;
        while i < fails.len()
            invariant
                i <= fails.len(),
                self.layout() == old(self).layout(),
                self.output() == base + failure_details(fails@.take(i as int)),
            decreases fails.len() - i,
        {
            assert(fails@.take(i + 1).drop_last() == fails@.take(i as int));
            assert(fails@.take(i + 1).last() == fails@[i as int]);
            let ghost before = self.output();
            match &fails[i].1 {
                Some(msg) => {
                    let mut block = String::new();
                    block.append("---- ");
                    block.append(fails[i].0.name.as_str());
                    block.append(" ----\n");
                    block.append(msg.as_str());
                    block.append("\n\n");
                    assert(block@ =~= "---- "@ + fails@[i as int].0.name@ + " ----\n"@ + msg@
                        + "\n\n"@);
                    self.emit(block, None);
                },
                None => {},
            }
            assert(self.output() =~= before + failure_detail(fails@[i as int]));
            i += 1;
            assert(self.output() =~= base + failure_details(fails@.take(i as int)));
        }
        assert(fails@.take(fails@.len() as int) == fails@);
        self.emit("\nfailures:\n".to_owned(), None);
        let ghost base2 = self.output();
        let mut j: usize = 0;
        while j < fails.len()
            invariant
                j <= fails.len(),
                self.layout() == old(self).layout(),
                self.output() == base2 + failure_names(fails@.take(j as int)),
            decreases fails.len() - j,
        {
            assert(fails@.take(j + 1).drop_last() == fails@.take(j as int));
            assert(fails@.take(j + 1).last() == fails@[j as int]);
            let mut line = String::new();
            line.append("    ");
            line.append(fails[j].0.name.as_str());
            line.append("\n");
            assert(line@ =~= "    "@ + fails@[j as int].0.name@ + "\n"@);
            self.emit(line, None);
            j += 1;
            assert(self.output() =~= base2 + failure_names(fails@.take(j as int)));
        }
        assert(final(self).output() =~= old(self).output() + failures(fails@));
    }

    /// Renders the listing of `tests`; under `ignored` the tests that are
    /// marked as ignored, and no others.
    pub fn print_list<D>(&mut self, tests: &Vec<Test<D>>, ignored: bool)
        ensures
            final(self).output() == old(self).output() + listing(tests@, ignored),
            final(self).layout() == old(self).layout(),
    {
        let mut i: usize = 0;
        assert(self.output() =~= old(self).output() + listing(tests@.take(0), ignored));
        while i < tests.len()
            invariant
                i <= tests.len(),
                self.layout() == old(self).layout(),
                self.output() == old(self).output() + listing(tests@.take(i as int), ignored),
            decreases tests.len() - i,
        {
            assert(tests@.take(i + 1).drop_last() == tests@.take(i as int));
            assert(tests@.take(i + 1).last() == tests@[i as int]);
            if !ignored || tests[i].is_ignored {
                let mut line = String::new();
                push_label(&mut line, tests[i].kind.as_str());
                line.append(tests[i].name.as_str());
                line.append(": ");
                if tests[i].is_bench {
                    line.append("bench");
                } else {
                    line.append("test");
                }
                line.append("\n");
                assert(line@ =~= listing_line(tests@[i as int]).text);
                self.emit(line, None);
            }
            i += 1;
            assert(self.output() =~= old(self).output() + listing(tests@.take(i as int), ignored));
        }
        assert(tests@.take(tests@.len() as int) == tests@);
    }
}

/// Appends the kind in brackets and a space; nothing for no kind.
fn push_label(out: &mut String, kind: &str)
    ensures
        final(out)@ == old(out)@ + label(kind@),
{
    if !kind.is_empty() {
        out.append("[");
        out.append(kind);
        out.append("] ");
    }
    assert(final(out)@ =~= old(out)@ + label(kind@));
}

} // verus!

