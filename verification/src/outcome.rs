//! Tests, their outcomes, and the tally of a run.

use crate::text::str_eq;
use vstd::prelude::*;

verus! {

/// One test of the catalog.
#[derive(Clone, Debug)]
pub struct Test<D = ()> {
    /// Shown in the report and matched against filter and skip patterns.
    pub name: String,
    /// A short label shown in brackets before the name; empty for none.
    pub kind: String,
    /// Skipped unless the run includes ignored tests.
    pub is_ignored: bool,
    /// A benchmark, not a plain test.
    pub is_bench: bool,
    /// The caller's own data. The engine never looks at it.
    pub data: D,
}

impl<D: Default> Test<D> {
    /// A plain test called `name`: no kind, not ignored, default data.
    pub fn test(name: &str) -> (t: Self)
        ensures
            t.name@ == name@,
            t.kind@ == Seq::<char>::empty(),
            !t.is_ignored,
            !t.is_bench,
    {
        Test {
            name: name.to_owned(),
            kind: String::new(),
            is_ignored: false,
            is_bench: false,
            data: D::default(),
        }
    }

    /// A benchmark called `name`: no kind, not ignored, default data.
    pub fn bench(name: &str) -> (t: Self)
        ensures
            t.name@ == name@,
            t.kind@ == Seq::<char>::empty(),
            !t.is_ignored,
            t.is_bench,
    {
        Test {
            name: name.to_owned(),
            kind: String::new(),
            is_ignored: false,
            is_bench: true,
            data: D::default(),
        }
    }
}

/// What tells one test from another in a report: its name, its kind and
/// its two marks. The caller's data is no part of it.
#[derive(Clone, Debug, PartialEq, Eq)]
pub struct Ticket {
    pub name: String,
    pub kind: String,
    pub is_ignored: bool,
    pub is_bench: bool,
}

/// A `Ticket` with its texts as sequences of characters.
pub struct TicketView {
    pub name: Seq<char>,
    pub kind: Seq<char>,
    pub is_ignored: bool,
    pub is_bench: bool,
}

impl View for Ticket {
    type V = TicketView;

    open spec fn view(&self) -> TicketView {
        TicketView {
            name: self.name@,
            kind: self.kind@,
            is_ignored: self.is_ignored,
            is_bench: self.is_bench,
        }
    }
}

impl<D> Test<D> {
    /// What tells this test from another.
    pub open spec fn ticket(self) -> TicketView {
        TicketView {
            name: self.name@,
            kind: self.kind@,
            is_ignored: self.is_ignored,
            is_bench: self.is_bench,
        }
    }

    /// The ticket of this test.
    pub fn to_ticket(&self) -> (t: Ticket)
        ensures
            t@ == self.ticket(),
    {
        Ticket {
            name: self.name.clone(),
            kind: self.kind.clone(),
            is_ignored: self.is_ignored,
            is_bench: self.is_bench,
        }
    }

    /// Whether `ticket` is the ticket of this test.
    pub fn has_ticket(&self, ticket: &Ticket) -> (b: bool)
        ensures
            b == (ticket@ == self.ticket()),
    {
        let same = self.is_ignored == ticket.is_ignored && self.is_bench == ticket.is_bench
            && str_eq(self.name.as_str(), ticket.name.as_str()) && str_eq(
            self.kind.as_str(),
            ticket.kind.as_str(),
        );
        assert(same == (ticket@ == self.ticket())) by {
            if ticket@ == self.ticket() {
                assert(ticket@.name == self.ticket().name);
            }
            if same {
                assert(ticket@.name =~= self.ticket().name);
                assert(ticket@.kind =~= self.ticket().kind);
            }
        }
        same
    }
}

/// What came of one test.
#[derive(Debug, Clone, PartialEq, Eq)]
pub enum Outcome {
    /// The test passed.
    Passed,
    /// The test or benchmark failed. The message is shown once all tests are done.
    Failed { msg: Option<String> },
    /// The test or benchmark was not run.
    Ignored,
    /// The benchmark ran; both numbers are in nanoseconds.
    Measured { avg: u64, variance: u64 },
}

/// The tally of a run.
#[derive(Clone, Copy, Debug, PartialEq, Eq, Structural)]
#[must_use]
pub struct Conclusion {
    /// Tests left out by the filter or a skip pattern.
    pub num_filtered_out: u64,
    /// Tests that passed.
    pub num_passed: u64,
    /// Tests and benchmarks that failed.
    pub num_failed: u64,
    /// Tests and benchmarks that were not run.
    pub num_ignored: u64,
    /// Benchmarks that ran and were measured.
    pub num_measured: u64,
    /// Benchmarks among the tests that have an outcome, whatever the outcome.
    pub num_benches: u64,
}

impl Conclusion {
    /// The tests that have an outcome.
    pub open spec fn settled(self) -> int {
        self.num_passed + self.num_failed + self.num_ignored + self.num_measured
    }

    /// All the tests that the tally accounts for.
    pub open spec fn total(self) -> int {
        self.num_filtered_out + self.settled()
    }

    /// No more benchmarks were counted than tests have an outcome.
    pub open spec fn wf(self) -> bool {
        self.num_benches <= self.settled()
    }

    /// One more test can be counted without leaving `u64`.
    pub open spec fn has_room(self) -> bool {
        self.total() < u64::MAX
    }

    /// The tally with one more outcome counted: exactly one of the four
    /// outcome counters goes up by one, and so does the benchmark counter
    /// if the test was a benchmark.
    pub open spec fn with(self, outcome: Outcome, is_bench: bool) -> Conclusion {
        Conclusion {
            num_filtered_out: self.num_filtered_out,
            num_passed: if outcome is Passed {
                (self.num_passed + 1) as u64
            } else {
                self.num_passed
            },
            num_failed: if outcome is Failed {
                (self.num_failed + 1) as u64
            } else {
                self.num_failed
            },
            num_ignored: if outcome is Ignored {
                (self.num_ignored + 1) as u64
            } else {
                self.num_ignored
            },
            num_measured: if outcome is Measured {
                (self.num_measured + 1) as u64
            } else {
                self.num_measured
            },
            num_benches: if is_bench {
                (self.num_benches + 1) as u64
            } else {
                self.num_benches
            },
        }
    }

    pub open spec fn zero() -> Conclusion {
        Conclusion {
            num_filtered_out: 0,
            num_passed: 0,
            num_failed: 0,
            num_ignored: 0,
            num_measured: 0,
            num_benches: 0,
        }
    }

    /// The tally of a run in which nothing has happened yet.
    pub fn empty() -> (c: Self)
        ensures
            c == Self::zero(),
    {
        Conclusion {
            num_filtered_out: 0,
            num_passed: 0,
            num_failed: 0,
            num_ignored: 0,
            num_measured: 0,
            num_benches: 0,
        }
    }

    /// Whether any test failed.
    pub fn has_failed(&self) -> (b: bool)
        ensures
            b == (self.num_failed > 0),
    {
        self.num_failed > 0
    }

    /// The exit code that a process reports for this tally: 0 if nothing
    /// failed, 101 otherwise.
    pub fn exit_code(&self) -> (code: i32)
        ensures
            code == if self.num_failed > 0 { 101i32 } else { 0i32 },
    {
        if self.has_failed() {
            101
        } else {
            0
        }
    }

    /// Whether one more outcome can be counted.
    pub fn can_record(&self) -> (b: bool)
        ensures
            b == (self.wf() && self.has_room()),
    {
        let settled: u128 = self.num_passed as u128 + self.num_failed as u128
            + self.num_ignored as u128 + self.num_measured as u128;
        self.num_benches as u128 <= settled && settled + (self.num_filtered_out as u128)
            < u64::MAX as u128
    }

    /// Counts one outcome.
    pub fn record(&mut self, outcome: &Outcome, is_bench: bool)
        requires
            old(self).wf(),
            old(self).has_room(),
        ensures
            *final(self) == old(self).with(*outcome, is_bench),
            final(self).wf(),
            final(self).total() == old(self).total() + 1,
    {
        if is_bench {
            self.num_benches += 1;
        }
        match outcome {
            Outcome::Passed => {
                self.num_passed += 1;
            },
            Outcome::Failed { .. } => {
                self.num_failed += 1;
            },
            Outcome::Ignored => {
                self.num_ignored += 1;
            },
            Outcome::Measured { .. } => {
                self.num_measured += 1;
            },
        }
    }
}

/// Counting does not depend on the order of the outcomes: two outcomes
/// counted one way round give the tally that they give the other way round.
pub proof fn lemma_count_commutes(
    c: Conclusion,
    first: Outcome,
    first_is_bench: bool,
    second: Outcome,
    second_is_bench: bool,
)
    requires
        c.total() + 2 <= u64::MAX,
        c.num_benches + 2 <= u64::MAX,
    ensures
        c.with(first, first_is_bench).with(second, second_is_bench) == c.with(
            second,
            second_is_bench,
        ).with(first, first_is_bench),
{
}

/// Each outcome adds one to the tests that the tally accounts for, and
/// leaves the count of the tests that were left out as it is.
pub proof fn lemma_count_adds_one(c: Conclusion, outcome: Outcome, is_bench: bool)
    requires
        c.wf(),
        c.has_room(),
    ensures
        c.with(outcome, is_bench).wf(),
        c.with(outcome, is_bench).settled() == c.settled() + 1,
        c.with(outcome, is_bench).num_filtered_out == c.num_filtered_out,
{
}

} // verus!
