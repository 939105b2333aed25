//! Which tests of a catalog take part in a run.

use crate::args::Arguments;
use crate::outcome::Test;
use crate::text::{contains, is_substring, str_eq};
use vstd::prelude::*;

verus! {

/// What a run does with one test.
#[derive(Debug, Clone, Copy, PartialEq, Eq, Structural)]
pub enum Selection {
    /// Left out of the run; counted as filtered out and never reported.
    FilteredOut,
    /// Part of the run, reported as ignored, never evaluated.
    Ignored,
    /// Part of the run and evaluated.
    Runnable,
}

/// Whether `pattern` matches `name`: by equality under `exact`, else by occurring in it.
pub open spec fn name_matches(exact: bool, name: Seq<char>, pattern: Seq<char>) -> bool {
    if exact {
        name == pattern
    } else {
        is_substring(name, pattern)
    }
}

impl Arguments {
    /// The run evaluates tests that are marked as ignored.
    pub open spec fn runs_ignored(self) -> bool {
        self.ignored || self.include_ignored
    }

    /// Some skip pattern matches `name`.
    pub open spec fn skips(self, name: Seq<char>) -> bool {
        exists|i: int|
            0 <= i < self.skip@.len() && name_matches(self.exact, name, #[trigger] self.skip@[i]@)
    }

    /// A test called `name` is left out of the run: there is a filter that
    /// does not match it, or a skip pattern that does.
    pub open spec fn filters_out(self, name: Seq<char>) -> bool {
        ||| self.filter matches Some(f) && !name_matches(self.exact, name, f@)
        ||| self.skips(name)
    }

    /// A test with these two marks is reported as ignored where it is not left out.
    pub open spec fn ignores(self, is_ignored: bool, is_bench: bool) -> bool {
        ||| is_ignored && !self.runs_ignored()
        ||| is_bench && self.test
        ||| !is_bench && self.bench
    }

    /// What the run does with `test`. Being left out comes first: it does
    /// not depend on the marks of the test.
    pub open spec fn selection<D>(self, test: Test<D>) -> Selection {
        if self.filters_out(test.name@) {
            Selection::FilteredOut
        } else if self.ignores(test.is_ignored, test.is_bench) {
            Selection::Ignored
        } else {
            Selection::Runnable
        }
    }

    /// The tests of `tests` that are not left out, in their order.
    pub open spec fn kept<D>(self, tests: Seq<Test<D>>) -> Seq<Test<D>> {
        tests.filter(|t: Test<D>| !self.filters_out(t.name@))
    }

    fn pattern_matches(&self, name: &str, pattern: &str) -> (r: bool)
        ensures
            r == name_matches(self.exact, name@, pattern@),
    {
        if self.exact {
            str_eq(name, pattern)
        } else {
            contains(name, pattern)
        }
    }

    /// Whether `test` is reported as ignored, supposing that it is not left out.
    pub fn is_ignored<D>(&self, test: &Test<D>) -> (r: bool)
        ensures
            r == self.ignores(test.is_ignored, test.is_bench),
    {
        (test.is_ignored && !(self.ignored || self.include_ignored)) || (test.is_bench && self.test)
            || (!test.is_bench && self.bench)
    }

    /// Whether `test` is left out of the run.
    pub fn is_filtered_out<D>(&self, test: &Test<D>) -> (r: bool)
        ensures
            r == self.filters_out(test.name@),
    {
        if let Some(filter) = &self.filter {
            if !self.pattern_matches(test.name.as_str(), filter.as_str()) {
                return true;
            }
        }
        let mut i: usize = 0;
        while i < self.skip.len()
            invariant
                i <= self.skip.len(),
                forall|k: int|
                    0 <= k < i ==> !name_matches(self.exact, test.name@, #[trigger] self.skip@[k]@),
            decreases self.skip.len() - i,
        {
            if self.pattern_matches(test.name.as_str(), self.skip[i].as_str()) {
                return true;
            }
            i += 1;
        }
        false
    }

    /// What the run does with `test`.
    pub fn classify<D>(&self, test: &Test<D>) -> (s: Selection)
        ensures
            s == self.selection(*test),
    {
        if self.is_filtered_out(test) {
            Selection::FilteredOut
        } else if self.is_ignored(test) {
            Selection::Ignored
        } else {
            Selection::Runnable
        }
    }

    /// Removes the tests that are left out. The others stay, in their order.
    pub fn retain<D>(&self, tests: Vec<Test<D>>) -> (kept: Vec<Test<D>>)
        ensures
            kept@ == self.kept(tests@),
            kept@.len() <= tests@.len(),
    {
        let ghost all = tests@;
        let ghost keep = |t: Test<D>| !self.filters_out(t.name@);
        let mut kept: Vec<Test<D>> = Vec::new();
        proof {
            assert(all.take(0).filter(keep) =~= Seq::<Test<D>>::empty()) by {
                reveal(Seq::filter);
            }
        }
        for test in it: tests
            invariant
                it.seq() == all,
                keep == |t: Test<D>| !self.filters_out(t.name@),
                kept@ == all.take(it.index()).filter(keep),
        {
            proof {
                assert(all.take(it.index() + 1) == all.take(it.index()).push(test));
                all.take(it.index()).lemma_filter_push(test, keep);
            }
            if !self.is_filtered_out(&test) {
                kept.push(test);
            }
        }
        proof {
            assert(all.take(all.len() as int) == all);
            all.lemma_filter_len(keep);
        }
        kept
    }
}

/// Every test that is kept is a test of the catalog, and one that the
/// configuration does not leave out.
pub proof fn lemma_kept_is_selected<D>(args: Arguments, tests: Seq<Test<D>>)
    ensures
        args.kept(tests).len() <= tests.len(),
        forall|j: int|
            0 <= j < args.kept(tests).len() ==> tests.contains(#[trigger] args.kept(tests)[j])
                && !args.filters_out(args.kept(tests)[j].name@),
{
    let keep = |t: Test<D>| !args.filters_out(t.name@);
    tests.lemma_filter_len(keep);
    assert forall|j: int| 0 <= j < args.kept(tests).len() implies tests.contains(
        #[trigger] args.kept(tests)[j],
    ) && !args.filters_out(args.kept(tests)[j].name@) by {
        tests.lemma_filter_pred(keep, j);
        assert(tests.filter(keep).contains(tests.filter(keep)[j]));
        tests.lemma_filter_contains_rev(keep, tests.filter(keep)[j]);
    }
}

/// Every test of the catalog that the configuration does not leave out is kept.
pub proof fn lemma_selected_is_kept<D>(args: Arguments, tests: Seq<Test<D>>)
    ensures
        forall|i: int|
            0 <= i < tests.len() && !args.filters_out((#[trigger] tests[i]).name@)
                ==> args.kept(tests).contains(tests[i]),
{
    let keep = |t: Test<D>| !args.filters_out(t.name@);
    assert forall|i: int|
        0 <= i < tests.len() && !args.filters_out(
            (#[trigger] tests[i]).name@,
        ) implies args.kept(tests).contains(tests[i]) by {
        tests.lemma_filter_contains(keep, i);
    }
}

/// Filtering twice is filtering once: what was kept is kept again, whole
/// and in the same order.
pub proof fn lemma_kept_idempotent<D>(args: Arguments, tests: Seq<Test<D>>)
    ensures
        args.kept(args.kept(tests)) == args.kept(tests),
    decreases tests.len(),
{
    let keep = |t: Test<D>| !args.filters_out(t.name@);
    if tests.len() == 0 {
        assert(tests.filter(keep) =~= tests) by {
            reveal(Seq::filter);
        }
    } else {
        let rest = tests.drop_last();
        let last = tests.last();
        lemma_kept_idempotent(args, rest);
        assert(tests =~= rest.push(last));
        rest.lemma_filter_push(last, keep);
        if keep(last) {
            rest.filter(keep).lemma_filter_push(last, keep);
        }
    }
}

/// Whether a test is kept depends on that test alone, not on its place in
/// the catalog or on the tests around it: filtering a catalog in two parts
/// gives the two parts of the filtered catalog.
pub proof fn lemma_kept_distributes<D>(args: Arguments, first: Seq<Test<D>>, second: Seq<Test<D>>)
    ensures
        args.kept(first + second) == args.kept(first) + args.kept(second),
{
    let keep = |t: Test<D>| !args.filters_out(t.name@);
    Seq::filter_distributes_over_add(first, second, keep);
}

/// Some pattern of the list `patterns` reads `pattern`.
pub open spec fn lists_pattern(patterns: Seq<String>, pattern: Seq<char>) -> bool {
    exists|j: int| 0 <= j < patterns.len() && (#[trigger] patterns[j])@ == pattern
}

/// Every pattern of `first` is a pattern of `second` too.
pub open spec fn patterns_among(first: Seq<String>, second: Seq<String>) -> bool {
    forall|i: int| 0 <= i < first.len() ==> lists_pattern(second, (#[trigger] first[i])@)
}

/// The order of the skip patterns does not matter, nor how often one is
/// given: two configurations with the same filter, the same way of matching
/// and the same patterns leave out the same names.
pub proof fn lemma_skip_order_irrelevant(a: Arguments, b: Arguments, name: Seq<char>)
    requires
        a.exact == b.exact,
        a.filter is Some == b.filter is Some,
        a.filter is Some ==> a.filter->0@ == b.filter->0@,
        patterns_among(a.skip@, b.skip@),
        patterns_among(b.skip@, a.skip@),
    ensures
        a.filters_out(name) == b.filters_out(name),
{
    if a.skips(name) {
        let i = choose|i: int|
            0 <= i < a.skip@.len() && name_matches(a.exact, name, #[trigger] a.skip@[i]@);
        assert(lists_pattern(b.skip@, a.skip@[i]@));
        let j = choose|j: int| 0 <= j < b.skip@.len() && (#[trigger] b.skip@[j])@ == a.skip@[i]@;
        assert(name_matches(b.exact, name, b.skip@[j]@));
    }
    if b.skips(name) {
        let j = choose|j: int|
            0 <= j < b.skip@.len() && name_matches(b.exact, name, #[trigger] b.skip@[j]@);
        assert(lists_pattern(a.skip@, b.skip@[j]@));
        let i = choose|i: int| 0 <= i < a.skip@.len() && (#[trigger] a.skip@[i])@ == b.skip@[j]@;
        assert(name_matches(a.exact, name, a.skip@[i]@));
    }
}

/// Under a filter, only matching tests are kept: with exact matching the
/// name of every kept test equals the filter, without it the filter occurs
/// in the name of every kept test.
pub proof fn lemma_filter_keeps_only_matches<D>(args: Arguments, tests: Seq<Test<D>>)
    requires
        args.filter is Some,
    ensures
        forall|j: int|
            0 <= j < args.kept(tests).len() ==> if args.exact {
                (#[trigger] args.kept(tests)[j]).name@ == args.filter->0@
            } else {
                is_substring((#[trigger] args.kept(tests)[j]).name@, args.filter->0@)
            },
{
    lemma_kept_is_selected(args, tests);
}

} // verus!
