//! The engine: it takes a catalog through a run, one outcome at a time.
//!
//! A `Run` holds the renderer, the tally and the failed tests. Whoever drives
//! it evaluates the tests, on one thread or on many, and reports each
//! outcome; the run renders and counts it. `run_tests` is the driver that
//! evaluates every test on the calling thread, in the order of the catalog.

use crate::args::Arguments;
use crate::layout::{
    failures, layout_of, listing, longest_kind, longest_name, spans, Layout, Piece, Span,
};
use crate::outcome::{Conclusion, Outcome, Test, Ticket, TicketView};
use crate::printer::{ConfigError, Printer};
use crate::select::Selection;
use vstd::multiset::Multiset;
use vstd::prelude::*;

verus! {

/// What a run leaves behind.
pub struct Report<D> {
    /// The tally.
    pub conclusion: Conclusion,
    /// The failed tests with their messages, in the order of their outcomes.
    pub failures: Vec<(Test<D>, Option<String>)>,
    /// The pieces of the report that have not been handed over before.
    pub output: Vec<Piece>,
}

/// A run between its first line and its last.
pub struct Run<'a, D> {
    args: &'a Arguments,
    printer: Printer,
    conclusion: Conclusion,
    failed: Vec<(Test<D>, Option<String>)>,
    catalog: usize,
    waiting: Vec<Ticket>,
    announced: Option<usize>,
}

/// How a run begins.
pub enum Begin<'a, D> {
    /// A listing was asked for: these are its pieces, and nothing runs.
    Listed(Vec<Piece>),
    /// The run has begun, and these tests take part in it, in this order.
    Started(Run<'a, D>, Vec<Test<D>>),
}

/// The outcome that counts for `test` when its evaluation gave `outcome`:
/// `Ignored` for a test that the run ignores, whatever was reported for it.
pub open spec fn effective<D>(args: Arguments, test: Test<D>, outcome: Outcome) -> Outcome {
    if args.ignores(test.is_ignored, test.is_bench) {
        Outcome::Ignored
    } else {
        outcome
    }
}

/// The entry that `test` adds to the failed tests: itself and its message if
/// it failed, nothing otherwise.
pub open spec fn failure_of<D>(test: Test<D>, outcome: Outcome) -> Seq<(Test<D>, Option<String>)> {
    match outcome {
        Outcome::Failed { msg } => seq![(test, msg)],
        _ => Seq::empty(),
    }
}

/// The tally `start` after the outcomes `outs` of `tests` have been counted.
pub open spec fn tally<D>(
    args: Arguments,
    start: Conclusion,
    tests: Seq<Test<D>>,
    outs: Seq<Outcome>,
) -> Conclusion
    decreases tests.len(),
{
    if tests.len() == 0 {
        start
    } else {
        tally(args, start, tests.drop_last(), outs.drop_last()).with(
            effective(args, tests.last(), outs.last()),
            tests.last().is_bench,
        )
    }
}

/// What the report says of `tests` with the outcomes `outs`: one entry for
/// each test, whole, in the order of `tests`.
pub open spec fn entries<D>(
    args: Arguments,
    layout: Layout,
    tests: Seq<Test<D>>,
    outs: Seq<Outcome>,
) -> Seq<Span>
    decreases tests.len(),
{
    if tests.len() == 0 {
        Seq::empty()
    } else {
        entries(args, layout, tests.drop_last(), outs.drop_last()) + layout.entry(
            tests.last().name@,
            tests.last().kind@,
            effective(args, tests.last(), outs.last()),
        )
    }
}

/// The tests among `tests` that failed, with their messages, in the order of `tests`.
pub open spec fn failed_tests<D>(args: Arguments, tests: Seq<Test<D>>, outs: Seq<Outcome>) -> Seq<
    (Test<D>, Option<String>),
>
    decreases tests.len(),
{
    if tests.len() == 0 {
        Seq::empty()
    } else {
        failed_tests(args, tests.drop_last(), outs.drop_last()) + failure_of(
            tests.last(),
            effective(args, tests.last(), outs.last()),
        )
    }
}

/// The end of a report: the part on the failed tests, if any test failed,
/// then the summary line.
pub open spec fn closing<D>(
    layout: Layout,
    failed: Seq<(Test<D>, Option<String>)>,
    conclusion: Conclusion,
) -> Seq<Span> {
    (if failed.len() > 0 {
        failures(failed)
    } else {
        Seq::empty()
    }) + layout.summary(conclusion)
}

/// The tally of a run before its first outcome: the tests that were left
/// out are counted, and nothing else.
pub open spec fn opening_tally<D>(args: Arguments, tests: Seq<Test<D>>) -> Conclusion {
    Conclusion {
        num_filtered_out: (tests.len() - args.kept(tests).len()) as u64,
        ..Conclusion::zero()
    }
}

/// The tally of a run of `tests` in which the tests that take part had the
/// outcomes `outs`.
pub open spec fn final_tally<D>(args: Arguments, tests: Seq<Test<D>>, outs: Seq<Outcome>)
    -> Conclusion {
    tally(args, opening_tally(args, tests), args.kept(tests), outs)
}

/// The whole report of a run of `tests` in which the tests that take part
/// had the outcomes `outs`, one after the other in the order of the catalog.
pub open spec fn transcript<D>(args: Arguments, tests: Seq<Test<D>>, outs: Seq<Outcome>) -> Seq<
    Span,
> {
    let kept = args.kept(tests);
    let layout = layout_of(args, kept);
    layout.title(kept.len() as u64) + entries(args, layout, kept, outs) + closing(
        layout,
        failed_tests(args, kept, outs),
        final_tally(args, tests, outs),
    )
}

/// `outs` are outcomes that `runner` can have given for `tests`, one for
/// each: for a test that the run ignores the outcome is `Ignored`, for every
/// other test it is one that `runner` returns for that test.
pub open spec fn evaluated<D, F: Fn(&Test<D>) -> Outcome>(
    args: Arguments,
    runner: F,
    tests: Seq<Test<D>>,
    outs: Seq<Outcome>,
) -> bool {
    &&& outs.len() == tests.len()
    &&& forall|i: int|
        0 <= i < tests.len() ==> if args.ignores(tests[i].is_ignored, tests[i].is_bench) {
            #[trigger] outs[i] == Outcome::Ignored
        } else {
            call_ensures(runner, (&tests[i],), #[trigger] outs[i])
        }
}

/// The tally accounts for every test whose outcome was counted, and for
/// nothing else.
pub proof fn lemma_tally_counts_each_once<D>(
    args: Arguments,
    start: Conclusion,
    tests: Seq<Test<D>>,
    outs: Seq<Outcome>,
)
    requires
        start.wf(),
        start.total() + tests.len() <= u64::MAX,
    ensures
        tally(args, start, tests, outs).wf(),
        tally(args, start, tests, outs).settled() == start.settled() + tests.len(),
        tally(args, start, tests, outs).num_filtered_out == start.num_filtered_out,
    decreases tests.len(),
{
    if tests.len() > 0 {
        lemma_tally_counts_each_once(args, start, tests.drop_last(), outs.drop_last());
    }
}

/// After a run, the five counts of the tally add up to the size of the
/// catalog: every test is left out, or has exactly one outcome.
pub proof fn lemma_tally_accounts_for_catalog<D>(
    args: Arguments,
    tests: Seq<Test<D>>,
    outs: Seq<Outcome>,
)
    requires
        tests.len() <= u64::MAX,
    ensures
        ({
            let c = final_tally(args, tests, outs);
            c.num_filtered_out + c.num_passed + c.num_failed + c.num_ignored + c.num_measured
                == tests.len()
        }),
{
    crate::select::lemma_kept_is_selected(args, tests);
    lemma_tally_counts_each_once(args, opening_tally(args, tests), args.kept(tests), outs);
}

/// Counting the outcomes of a catalog in two parts gives the tally of the
/// whole: the second part is counted on top of the tally of the first.
pub proof fn lemma_tally_splits<D>(
    args: Arguments,
    start: Conclusion,
    first: Seq<Test<D>>,
    first_outs: Seq<Outcome>,
    second: Seq<Test<D>>,
    second_outs: Seq<Outcome>,
)
    requires
        first_outs.len() == first.len(),
        second_outs.len() == second.len(),
    ensures
        tally(args, start, first + second, first_outs + second_outs) == tally(
            args,
            tally(args, start, first, first_outs),
            second,
            second_outs,
        ),
    decreases second.len(),
{
    if second.len() == 0 {
        assert(first + second =~= first);
        assert(first_outs + second_outs =~= first_outs);
    } else {
        lemma_tally_splits(
            args,
            start,
            first,
            first_outs,
            second.drop_last(),
            second_outs.drop_last(),
        );
        assert((first + second).drop_last() =~= first + second.drop_last());
        assert((first_outs + second_outs).drop_last() =~= first_outs + second_outs.drop_last());
        assert((first + second).last() == second.last());
        assert((first_outs + second_outs).last() == second_outs.last());
    }
}

/// `runner` gives one outcome for each test: whatever it returns for a test
/// once, it returns for that test always.
pub open spec fn deterministic<D, F: Fn(&Test<D>) -> Outcome>(runner: F) -> bool {
    forall|t: Test<D>, a: Outcome, b: Outcome|
        #![trigger call_ensures(runner, (&t,), a), call_ensures(runner, (&t,), b)]
        call_ensures(runner, (&t,), a) && call_ensures(runner, (&t,), b) ==> a == b
}

/// Two runs of one catalog under one configuration with one deterministic
/// `runner` have the same outcomes, and so the same report, piece for
/// piece, and the same tally.
pub proof fn lemma_rerun_gives_same_report<D, F: Fn(&Test<D>) -> Outcome>(
    args: Arguments,
    runner: F,
    tests: Seq<Test<D>>,
    once: Seq<Outcome>,
    again: Seq<Outcome>,
)
    requires
        deterministic(runner),
        evaluated(args, runner, args.kept(tests), once),
        evaluated(args, runner, args.kept(tests), again),
    ensures
        once == again,
        transcript(args, tests, once) == transcript(args, tests, again),
        final_tally(args, tests, once) == final_tally(args, tests, again),
        failed_tests(args, args.kept(tests), once) == failed_tests(args, args.kept(tests), again),
{
    let kept = args.kept(tests);
    assert forall|i: int| 0 <= i < once.len() implies once[i] == again[i] by {
        if !args.ignores(kept[i].is_ignored, kept[i].is_bench) {
            assert(call_ensures(runner, (&kept[i],), once[i]));
            assert(call_ensures(runner, (&kept[i],), again[i]));
        }
    }
    assert(once =~= again);
}

/// In a run that does not include the ignored tests, a test that is marked
/// as ignored has the outcome `Ignored`, whatever its evaluation would give.
pub proof fn lemma_marked_test_is_ignored<D>(args: Arguments, test: Test<D>, outcome: Outcome)
    requires
        test.is_ignored,
        !args.runs_ignored(),
    ensures
        args.selection(test) != Selection::Runnable,
        effective(args, test, outcome) == Outcome::Ignored,
{
}

/// The tickets of `tests`, in their order.
pub open spec fn tickets<D>(tests: Seq<Test<D>>) -> Seq<TicketView> {
    tests.map_values(|t: Test<D>| t.ticket())
}

spec fn views(waiting: Seq<Ticket>) -> Seq<TicketView> {
    waiting.map_values(|t: Ticket| t@)
}

/// Among the tickets of a catalog is the ticket of its first test, and
/// without it they are the tickets of the rest of the catalog.
pub proof fn lemma_first_ticket<D>(tests: Seq<Test<D>>)
    requires
        tests.len() > 0,
    ensures
        tickets(tests).to_multiset().contains(tests[0].ticket()),
        tickets(tests.drop_first()).to_multiset() == tickets(tests).to_multiset().remove(
            tests[0].ticket(),
        ),
{
    let all = tickets(tests);
    all.to_multiset_ensures();
    assert(all[0] == tests[0].ticket());
    assert(all.contains(all[0]));
    assert(all.remove(0) =~= tickets(tests.drop_first()));
}

impl<'a, D> Run<'a, D> {
    /// The configuration of the run.
    pub closed spec fn args(self) -> Arguments {
        *self.args
    }

    /// How the report is laid out.
    pub closed spec fn layout(self) -> Layout {
        self.printer.layout()
    }

    /// What has been rendered and not yet handed over.
    pub closed spec fn output(self) -> Seq<Span> {
        self.printer.output()
    }

    /// The tally so far.
    pub closed spec fn conclusion(self) -> Conclusion {
        self.conclusion
    }

    /// The failed tests so far, in the order of their outcomes.
    pub closed spec fn failed(self) -> Seq<(Test<D>, Option<String>)> {
        self.failed@
    }

    /// The size of the catalog that the run began with.
    pub closed spec fn catalog_size(self) -> nat {
        self.catalog as nat
    }

    /// The tickets of the tests that take part in the run and have no
    /// outcome yet, each as often as there are such tests with it.
    pub closed spec fn outstanding(self) -> Multiset<TicketView> {
        views(self.waiting@).to_multiset()
    }

    /// The number of tests that take part in the run and have no outcome yet.
    pub open spec fn pending(self) -> nat {
        self.outstanding().len()
    }

    /// The test whose line has been begun and whose outcome is awaited;
    /// none between two tests.
    pub closed spec fn announced(self) -> Option<TicketView> {
        match self.announced {
            Some(i) => Some(self.waiting@[i as int]@),
            None => None,
        }
    }

    /// Every test of the catalog is counted once: as left out, as having an
    /// outcome, or as pending; and the test that is announced is a pending one.
    pub closed spec fn wf(self) -> bool {
        &&& self.conclusion.wf()
        &&& self.conclusion.total() + self.waiting@.len() == self.catalog
        &&& self.announced matches Some(i) ==> i < self.waiting@.len()
    }

    /// The place of a pending test with the ticket of `test`, if there is one.
    fn find(&self, test: &Test<D>) -> (r: Option<usize>)
        ensures
            r is Some == self.outstanding().contains(test.ticket()),
            r matches Some(i) ==> i < self.waiting@.len() && self.waiting@[i as int]@
                == test.ticket(),
    {
        let ghost all = views(self.waiting@);
        proof {
            all.to_multiset_ensures();
        }
        let mut i: usize = self.waiting.len();
        while i > 0
            invariant
                i <= self.waiting@.len(),
                all == views(self.waiting@),
                forall|k: int| i <= k < self.waiting@.len() ==> all[k] != test.ticket(),
                forall|a: TicketView| all.contains(a) <==> #[trigger] all.to_multiset().count(a) > 0,
            decreases i,
        {
            i -= 1;
            if test.has_ticket(&self.waiting[i]) {
                assert(all[i as int] == test.ticket());
                assert(all.contains(test.ticket()));
                return Some(i);
            }
        }
        assert(!all.contains(test.ticket()));
        None
    }

    /// Begins a run of `tests` under `args`.
    ///
    /// A run that asks for the machine-readable format is refused, with
    /// nothing rendered. Otherwise the tests that the filter or a skip
    /// pattern leaves out are removed and counted. Then either the listing
    /// is rendered and that is all, or the first line is rendered and the
    /// run waits for the outcomes of the tests that are left.
    pub fn begin(args: &'a Arguments, tests: Vec<Test<D>>) -> (r: Result<Begin<'a, D>, ConfigError>)
        ensures
            args.wants_json() <==> r is Err,
            r matches Ok(Begin::Listed(pieces)) ==> args.list && spans(pieces@) == listing(
                args.kept(tests@),
                args.ignored,
            ),
            r matches Ok(Begin::Started(run, kept)) ==> {
                &&& !args.list
                &&& kept@ == args.kept(tests@)
                &&& run.wf()
                &&& run.args() == *args
                &&& run.layout() == layout_of(*args, kept@)
                &&& run.layout().name_width == longest_name(kept@)
                &&& run.layout().kind_width == longest_kind(kept@)
                &&& run.output() == run.layout().title(kept@.len() as u64)
                &&& run.conclusion() == opening_tally(*args, tests@)
                &&& run.failed() == Seq::<(Test<D>, Option<String>)>::empty()
                &&& run.catalog_size() == tests@.len()
                &&& run.outstanding() == tickets(kept@).to_multiset()
                &&& run.pending() == kept@.len()
                &&& run.announced() is None
            },
    {
        let catalog = tests.len();
        let ghost all = tests@;
        let kept = args.retain(tests);
        let mut printer = Printer::new(args, &kept)?;
        if args.list {
            printer.print_list(&kept, args.ignored);
            return Ok(Begin::Listed(printer.take_output()));
        }
        printer.print_title(kept.len() as u64);
        let mut conclusion = Conclusion::empty();
        conclusion.num_filtered_out = (catalog - kept.len()) as u64;
        // The tickets stand in reverse, so that the search, which starts at
        // the end, meets the tests in the order of the catalog.
        let mut waiting: Vec<Ticket> = Vec::new();
        let mut i: usize = kept.len();
        proof {
            assert(views(waiting@) =~= tickets(kept@.skip(i as int)));
        }
        while i > 0
            invariant
                i <= kept@.len(),
                waiting@.len() == kept@.len() - i,
                views(waiting@).to_multiset() == tickets(kept@.skip(i as int)).to_multiset(),
            decreases i,
        {
            i -= 1;
            let ghost before = waiting@;
            let ticket = kept[i].to_ticket();
            waiting.push(ticket);
            proof {
                let rest = kept@.skip(i as int);
                lemma_first_ticket(rest);
                assert(rest.drop_first() =~= kept@.skip(i + 1));
                assert(views(before.push(ticket)) =~= views(before).push(ticket@));
                views(before).to_multiset_ensures();
                assert(tickets(rest).to_multiset() =~= tickets(kept@.skip(i + 1)).to_multiset().insert(
                    ticket@,
                ));
            }
        }
        proof {
            assert(kept@.skip(0) =~= kept@);
            tickets(kept@).to_multiset_ensures();
        }
        let run = Run { args, printer, conclusion, failed: Vec::new(), catalog, waiting, announced: None };
        Ok(Begin::Started(run, kept))
    }

    /// The number of tests that have no outcome yet.
    pub fn num_pending(&self) -> (n: usize)
        ensures
            n == self.pending(),
    {
        proof {
            views(self.waiting@).to_multiset_ensures();
        }
        self.waiting.len()
    }

    /// Whether a test with the ticket of `test` takes part in the run and
    /// has no outcome yet.
    pub fn expects(&self, test: &Test<D>) -> (b: bool)
        ensures
            b == self.outstanding().contains(test.ticket()),
    {
        self.find(test).is_some()
    }

    /// Whether every test of the catalog is counted once. It is so for every
    /// run that `begin` gave, at every step.
    pub fn is_consistent(&self) -> (b: bool)
        ensures
            b == self.wf(),
    {
        let c = &self.conclusion;
        let settled: u128 = c.num_passed as u128 + c.num_failed as u128 + c.num_ignored as u128
            + c.num_measured as u128;
        let announced_is_pending = match self.announced {
            Some(i) => i < self.waiting.len(),
            None => true,
        };
        c.num_benches as u128 <= settled && settled + c.num_filtered_out as u128
            + self.waiting.len() as u128 == self.catalog as u128 && announced_is_pending
    }

    /// Whether the outcome of an announced test is awaited.
    pub fn is_announced(&self) -> (b: bool)
        ensures
            b == self.announced() is Some,
    {
        self.announced.is_some()
    }

    /// Whether `test` is the test that was announced and whose outcome is awaited.
    pub fn awaits(&self, test: &Test<D>) -> (b: bool)
        requires
            self.wf(),
        ensures
            b == (self.announced() == Some(test.ticket())),
    {
        match self.announced {
            Some(i) => i < self.waiting.len() && test.has_ticket(&self.waiting[i]),
            None => false,
        }
    }

    /// Whether the run ignores `test`. Such a test is not to be evaluated.
    pub fn ignores(&self, test: &Test<D>) -> (b: bool)
        ensures
            b == self.args().ignores(test.is_ignored, test.is_bench),
    {
        self.args.is_ignored(test)
    }

    /// Hands over what has been rendered since the last call.
    pub fn take_output(&mut self) -> (pieces: Vec<Piece>)
        ensures
            spans(pieces@) == old(self).output(),
            final(self).output() == Seq::<Span>::empty(),
            final(self).wf() == old(self).wf(),
            final(self).args() == old(self).args(),
            final(self).layout() == old(self).layout(),
            final(self).conclusion() == old(self).conclusion(),
            final(self).failed() == old(self).failed(),
            final(self).catalog_size() == old(self).catalog_size(),
            final(self).outstanding() == old(self).outstanding(),
            final(self).announced() == old(self).announced(),
    {
        self.printer.take_output()
    }

    /// Renders the start of the line of `test`, a test that takes part in
    /// the run and has no outcome yet, before its evaluation.
    pub fn announce(&mut self, test: &Test<D>)
        requires
            old(self).announced() is None,
            old(self).outstanding().contains(test.ticket()),
        ensures
            final(self).announced() == Some(test.ticket()),
            final(self).output() == old(self).output() + old(self).layout().announcement(
                test.name@,
                test.kind@,
            ),
            final(self).wf() == old(self).wf(),
            final(self).args() == old(self).args(),
            final(self).layout() == old(self).layout(),
            final(self).conclusion() == old(self).conclusion(),
            final(self).failed() == old(self).failed(),
            final(self).catalog_size() == old(self).catalog_size(),
            final(self).outstanding() == old(self).outstanding(),
    {
        self.printer.print_test(test.name.as_str(), test.kind.as_str());
        self.announced = self.find(test);
    }

    /// Takes the outcome of `test`, the test that was announced: renders it,
    /// counts it, and keeps the test if it failed. For a test that the run
    /// ignores, the outcome is `Ignored` whatever `outcome` says.
    pub fn settle(&mut self, outcome: Outcome, test: Test<D>)
        requires
            old(self).wf(),
            old(self).announced() == Some(test.ticket()),
        ensures
            final(self).wf(),
            final(self).announced() is None,
            final(self).args() == old(self).args(),
            final(self).layout() == old(self).layout(),
            final(self).catalog_size() == old(self).catalog_size(),
            old(self).outstanding().contains(test.ticket()),
            final(self).outstanding() == old(self).outstanding().remove(test.ticket()),
            final(self).pending() == old(self).pending() - 1,
            final(self).output() == old(self).output() + old(self).layout().verdict(
                effective(old(self).args(), test, outcome),
            ),
            final(self).conclusion() == old(self).conclusion().with(
                effective(old(self).args(), test, outcome),
                test.is_bench,
            ),
            final(self).failed() == old(self).failed() + failure_of(
                test,
                effective(old(self).args(), test, outcome),
            ),
    {
        let outcome = if self.args.is_ignored(&test) {
            Outcome::Ignored
        } else {
            outcome
        };
        let ghost before = views(self.waiting@);
        proof {
            before.to_multiset_ensures();
        }
        self.printer.print_single_outcome(&outcome);
        self.conclusion.record(&outcome, test.is_bench);
        if let Some(i) = self.announced {
            let _ = self.waiting.remove(i);
            proof {
                assert(before.contains(before[i as int]));
                assert(views(self.waiting@) =~= before.remove(i as int));
                views(self.waiting@).to_multiset_ensures();
            }
        }
        self.announced = None;
        let ghost before = self.failed@;
        match outcome {
            Outcome::Failed { msg } => {
                self.failed.push((test, msg));
                assert(self.failed@ =~= before + failure_of(test, outcome));
            },
            _ => {
                assert(self.failed@ =~= before + failure_of(test, outcome));
            },
        }
    }

    /// Takes the outcome of `test`, a test that takes part in the run and
    /// has no outcome yet, as it arrives from a worker: renders the whole
    /// entry of the test in one piece of work, then counts the outcome.
    /// Nothing of another test comes between the start of the line and the outcome.
    pub fn complete(&mut self, outcome: Outcome, test: Test<D>)
        requires
            old(self).wf(),
            old(self).announced() is None,
            old(self).outstanding().contains(test.ticket()),
        ensures
            final(self).wf(),
            final(self).announced() is None,
            final(self).args() == old(self).args(),
            final(self).layout() == old(self).layout(),
            final(self).catalog_size() == old(self).catalog_size(),
            final(self).outstanding() == old(self).outstanding().remove(test.ticket()),
            final(self).pending() == old(self).pending() - 1,
            final(self).output() == old(self).output() + old(self).layout().entry(
                test.name@,
                test.kind@,
                effective(old(self).args(), test, outcome),
            ),
            final(self).conclusion() == old(self).conclusion().with(
                effective(old(self).args(), test, outcome),
                test.is_bench,
            ),
            final(self).failed() == old(self).failed() + failure_of(
                test,
                effective(old(self).args(), test, outcome),
            ),
    {
        self.announce(&test);
        self.settle(outcome, test);
        assert(final(self).output() =~= old(self).output() + old(self).layout().entry(
            test.name@,
            test.kind@,
            effective(old(self).args(), test, outcome),
        ));
    }

    /// Ends the run: renders the part on the failed tests, if there are any,
    /// and the summary line. Once every test has its outcome, the tally
    /// accounts for the whole catalog.
    pub fn finish(self) -> (report: Report<D>)
        requires
            self.wf(),
            self.announced() is None,
        ensures
            report.conclusion == self.conclusion(),
            report.failures@ == self.failed(),
            spans(report.output@) == self.output() + closing(
                self.layout(),
                self.failed(),
                self.conclusion(),
            ),
            self.pending() == 0 ==> report.conclusion.total() == self.catalog_size(),
    {
        proof {
            views(self.waiting@).to_multiset_ensures();
        }
        let mut printer = self.printer;
        if self.failed.len() > 0 {
            printer.print_failures(&self.failed);
        }
        printer.print_summary(&self.conclusion);
        let output = printer.take_output();
        assert(spans(output@) =~= self.output() + closing(
            self.layout(),
            self.failed(),
            self.conclusion(),
        ));
        Report { conclusion: self.conclusion, failures: self.failed, output }
    }
}

/// Runs `tests` under `args`, evaluating each test that takes part with
/// `runner`, on the calling thread and in the order of the catalog.
///
/// A run that asks for the machine-readable format is refused before
/// anything is evaluated or rendered. A run that asks for a listing renders
/// the listing, evaluates nothing and returns an empty tally. Any other run
/// evaluates the tests that are neither left out nor ignored, and no others:
/// `runner` need not accept any other test. The report is the one that
/// `transcript` describes for the outcomes that `runner` gave, the tally
/// counts every test of the catalog once, and a failed test does not end the run.
pub fn run_tests<D, F: Fn(&Test<D>) -> Outcome>(args: &Arguments, tests: Vec<Test<D>>, runner: F) -> (r:
    Result<Report<D>, ConfigError>)
    requires
        !args.list && !args.wants_json() ==> forall|i: int|
            0 <= i < tests@.len() && args.selection(#[trigger] tests@[i]) == Selection::Runnable
                ==> call_requires(runner, (&tests@[i],)),
    ensures
        args.wants_json() <==> r is Err,
        args.list ==> (r matches Ok(report) ==> {
            &&& report.conclusion == Conclusion::zero()
            &&& report.failures@.len() == 0
            &&& spans(report.output@) == listing(args.kept(tests@), args.ignored)
        }),
        !args.list ==> (r matches Ok(report) ==> {
            &&& report.conclusion.total() == tests@.len()
            &&& longest_name(args.kept(tests@)) <= usize::MAX
            &&& longest_kind(args.kept(tests@)) <= usize::MAX
            &&& exists|outs: Seq<Outcome>|
                {
                    &&& #[trigger] evaluated(*args, runner, args.kept(tests@), outs)
                    &&& report.conclusion == final_tally(*args, tests@, outs)
                    &&& report.failures@ == failed_tests(*args, args.kept(tests@), outs)
                    &&& spans(report.output@) == transcript(*args, tests@, outs)
                }
        }),
{
    let ghost all = tests@;
    let (mut run, kept) = match Run::begin(args, tests)? {
        Begin::Listed(output) => {
            return Ok(Report { conclusion: Conclusion::empty(), failures: Vec::new(), output });
        },
        Begin::Started(run, kept) => (run, kept),
    };
    let ghost chosen = kept@;
    let ghost layout = run.layout();
    let ghost start = run.conclusion();
    let ghost mut outs: Seq<Outcome> = Seq::empty();
    proof {
        assert(chosen.skip(0) =~= chosen);
        crate::select::lemma_kept_is_selected(*args, all);
        assert forall|j: int|
            0 <= j < chosen.len() && !args.ignores(
                chosen[j].is_ignored,
                chosen[j].is_bench,
            ) implies call_requires(runner, (&#[trigger] chosen[j],)) by {
            let i = choose|i: int| 0 <= i < all.len() && all[i] == chosen[j];
            assert(args.selection(all[i]) == Selection::Runnable);
        }
        assert(run.output() =~= layout.title(chosen.len() as u64) + entries(
            *args,
            layout,
            chosen.take(0),
            outs,
        ));
    }
    for test in it: kept
        invariant
            it.seq() == chosen,
            chosen == args.kept(all),
            forall|j: int|
                0 <= j < chosen.len() && !args.ignores(chosen[j].is_ignored, chosen[j].is_bench)
                    ==> call_requires(runner, (&#[trigger] chosen[j],)),
            run.wf(),
            run.announced() is None,
            run.args() == *args,
            run.layout() == layout,
            run.catalog_size() == all.len(),
            run.outstanding() == tickets(chosen.skip(it.index())).to_multiset(),
            evaluated(*args, runner, chosen.take(it.index()), outs),
            run.conclusion() == tally(*args, start, chosen.take(it.index()), outs),
            run.failed() == failed_tests(*args, chosen.take(it.index()), outs),
            run.output() == layout.title(chosen.len() as u64) + entries(
                *args,
                layout,
                chosen.take(it.index()),
                outs,
            ),
    {
        let ghost before = chosen.take(it.index());
        let ghost after = chosen.take(it.index() + 1);
        proof {
            lemma_first_ticket(chosen.skip(it.index()));
            assert(chosen.skip(it.index()).drop_first() =~= chosen.skip(it.index() + 1));
        }
        run.announce(&test);
        let outcome = if run.ignores(&test) {
            Outcome::Ignored
        } else {
            runner(&test)
        };
        proof {
            assert(after.drop_last() == before);
            assert(after.last() == test);
            assert(outs.push(outcome).drop_last() == outs);
            outs = outs.push(outcome);
            assert forall|i: int| 0 <= i < after.len() implies if args.ignores(
                after[i].is_ignored,
                after[i].is_bench,
            ) {
                #[trigger] outs[i] == Outcome::Ignored
            } else {
                call_ensures(runner, (&after[i],), #[trigger] outs[i])
            } by {
                if i < before.len() {
                    assert(after[i] == before[i]);
                    assert(outs[i] == outs.drop_last()[i]);
                }
            }
        }
        run.settle(outcome, test);
        assert(run.output() =~= layout.title(chosen.len() as u64) + entries(
            *args,
            layout,
            after,
            outs,
        ));
    }
    assert(chosen.take(chosen.len() as int) == chosen);
    proof {
        assert(tickets(chosen.skip(chosen.len() as int)) =~= Seq::<TicketView>::empty());
        Seq::<TicketView>::empty().to_multiset_ensures();
    }
    Ok(run.finish())
}

} // verus!
