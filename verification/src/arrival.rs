//! Outcomes that arrive in another order than that of the catalog: the
//! report follows the order of arrival, and the tally does not depend on it.

use crate::args::Arguments;
use crate::engine::{effective, entries, tally};
use crate::layout::{Layout, Span};
use crate::outcome::{Conclusion, Outcome, Test};
use vstd::prelude::*;

verus! {

/// `order` names each of the places `0 .. n` exactly once: `order[i]` is the
/// place in the catalog of the test whose outcome arrives as number `i`.
pub open spec fn is_arrival_order(order: Seq<int>, n: nat) -> bool {
    &&& order.len() == n
    &&& forall|i: int| 0 <= i < n ==> 0 <= #[trigger] order[i] < n
    &&& forall|i: int, j: int| 0 <= i < n && 0 <= j < n && i != j ==> order[i] != order[j]
    &&& forall|k: int| 0 <= k < n ==> #[trigger] order.contains(k)
}

/// The items of `s` in the order of their arrival.
pub open spec fn arranged<T>(s: Seq<T>, order: Seq<int>) -> Seq<T> {
    Seq::new(order.len(), |i: int| s[order[i]])
}

/// The entries of `tests` with the outcomes `outs`, one item for each test.
pub open spec fn entry_list<D>(
    args: Arguments,
    layout: Layout,
    tests: Seq<Test<D>>,
    outs: Seq<Outcome>,
) -> Seq<Seq<Span>> {
    Seq::new(
        tests.len(),
        |i: int| layout.entry(tests[i].name@, tests[i].kind@, effective(args, tests[i], outs[i])),
    )
}

/// What the report says of a catalog is the entries of its tests, each
/// whole, one after the other.
pub proof fn lemma_entries_are_whole<D>(
    args: Arguments,
    layout: Layout,
    tests: Seq<Test<D>>,
    outs: Seq<Outcome>,
)
    requires
        outs.len() == tests.len(),
    ensures
        entries(args, layout, tests, outs) == entry_list(args, layout, tests, outs).flatten(),
    decreases tests.len(),
{
    let list = entry_list(args, layout, tests, outs);
    list.lemma_flatten_and_flatten_alt_are_equivalent();
    if tests.len() > 0 {
        lemma_entries_are_whole(args, layout, tests.drop_last(), outs.drop_last());
        let shorter = entry_list(args, layout, tests.drop_last(), outs.drop_last());
        shorter.lemma_flatten_and_flatten_alt_are_equivalent();
        assert(list.drop_last() =~= shorter);
    }
}

/// When the outcomes arrive in another order than that of the catalog, the
/// report holds the same entries as in the order of the catalog, each whole,
/// in the order of arrival.
pub proof fn lemma_report_follows_arrival_order<D>(
    args: Arguments,
    layout: Layout,
    tests: Seq<Test<D>>,
    outs: Seq<Outcome>,
    order: Seq<int>,
)
    requires
        outs.len() == tests.len(),
        is_arrival_order(order, tests.len()),
    ensures
        entries(args, layout, arranged(tests, order), arranged(outs, order)) == arranged(
            entry_list(args, layout, tests, outs),
            order,
        ).flatten(),
{
    lemma_entries_are_whole(args, layout, arranged(tests, order), arranged(outs, order));
    assert(entry_list(args, layout, arranged(tests, order), arranged(outs, order)) =~= arranged(
        entry_list(args, layout, tests, outs),
        order,
    ));
}

/// The counters that an outcome can raise.
enum Counter {
    Passed,
    Failed,
    Ignored,
    Measured,
    Benches,
}

spec fn raises(counter: Counter, outcome: Outcome, is_bench: bool) -> bool {
    match counter {
        Counter::Passed => outcome is Passed,
        Counter::Failed => outcome is Failed,
        Counter::Ignored => outcome is Ignored,
        Counter::Measured => outcome is Measured,
        Counter::Benches => is_bench,
    }
}

spec fn reading(c: Conclusion, counter: Counter) -> int {
    match counter {
        Counter::Passed => c.num_passed as int,
        Counter::Failed => c.num_failed as int,
        Counter::Ignored => c.num_ignored as int,
        Counter::Measured => c.num_measured as int,
        Counter::Benches => c.num_benches as int,
    }
}

/// For each test, one if its outcome raises `counter` and zero if not.
spec fn marks<D>(args: Arguments, tests: Seq<Test<D>>, outs: Seq<Outcome>, counter: Counter) -> Seq<
    int,
> {
    Seq::new(
        tests.len(),
        |i: int|
            if raises(counter, effective(args, tests[i], outs[i]), tests[i].is_bench) {
                1int
            } else {
                0int
            },
    )
}

spec fn sum(s: Seq<int>) -> int
    decreases s.len(),
{
    if s.len() == 0 {
        0
    } else {
        sum(s.drop_last()) + s.last()
    }
}

/// Each counter of the tally stands at its start plus the number of
/// outcomes that raise it.
proof fn lemma_tally_is_start_plus_marks<D>(
    args: Arguments,
    start: Conclusion,
    tests: Seq<Test<D>>,
    outs: Seq<Outcome>,
    counter: Counter,
)
    requires
        outs.len() == tests.len(),
        start.wf(),
        start.total() + tests.len() <= u64::MAX,
    ensures
        reading(tally(args, start, tests, outs), counter) == reading(start, counter) + sum(
            marks(args, tests, outs, counter),
        ),
    decreases tests.len(),
{
    if tests.len() > 0 {
        let before = tally(args, start, tests.drop_last(), outs.drop_last());
        lemma_tally_is_start_plus_marks(args, start, tests.drop_last(), outs.drop_last(), counter);
        crate::engine::lemma_tally_counts_each_once(
            args,
            start,
            tests.drop_last(),
            outs.drop_last(),
        );
        assert(marks(args, tests, outs, counter).drop_last() =~= marks(
            args,
            tests.drop_last(),
            outs.drop_last(),
            counter,
        ));
    }
}

proof fn lemma_sum_without_one(s: Seq<int>, j: int)
    requires
        0 <= j < s.len(),
    ensures
        sum(s) == sum(s.remove(j)) + s[j],
    decreases s.len(),
{
    if j == s.len() - 1 {
        assert(s.remove(j) =~= s.drop_last());
    } else {
        lemma_sum_without_one(s.drop_last(), j);
        assert(s.remove(j).drop_last() =~= s.drop_last().remove(j));
        assert(s.remove(j).last() == s.last());
    }
}

proof fn lemma_sum_ignores_order(v: Seq<int>, order: Seq<int>)
    requires
        is_arrival_order(order, v.len()),
    ensures
        sum(arranged(v, order)) == sum(v),
    decreases v.len(),
{
    let n = v.len() as int;
    if n > 0 {
        assert(order.contains(n - 1));
        let j = choose|i: int| 0 <= i < n && #[trigger] order[i] == n - 1;
        let rest = order.remove(j);
        let w = arranged(v, order);
        lemma_sum_without_one(w, j);
        assert forall|i: int| 0 <= i < n - 1 implies 0 <= #[trigger] rest[i] < n - 1 by {
            let at = if i < j {
                i
            } else {
                i + 1
            };
            assert(rest[i] == order[at]);
            assert(at != j);
        }
        assert forall|a: int, b: int| 0 <= a < n - 1 && 0 <= b < n - 1 && a != b implies rest[a]
            != rest[b] by {
            let x = if a < j {
                a
            } else {
                a + 1
            };
            let y = if b < j {
                b
            } else {
                b + 1
            };
            assert(rest[a] == order[x] && rest[b] == order[y]);
        }
        assert forall|k: int| 0 <= k < n - 1 implies #[trigger] rest.contains(k) by {
            assert(order.contains(k));
            let at = choose|i: int| 0 <= i < n && #[trigger] order[i] == k;
            let i = if at < j {
                at
            } else {
                at - 1
            };
            assert(rest[i] == k);
        }
        assert(w.remove(j) =~= arranged(v.drop_last(), rest)) by {
            assert forall|i: int| 0 <= i < n - 1 implies w.remove(j)[i] == arranged(
                v.drop_last(),
                rest,
            )[i] by {
                assert(0 <= rest[i] < n - 1);
            }
        }
        lemma_sum_ignores_order(v.drop_last(), rest);
    }
}

/// The tally is the same in whatever order the outcomes are counted: the
/// outcomes of a catalog, taken in any order of arrival, give the tally that
/// they give in the order of the catalog.
pub proof fn lemma_tally_ignores_arrival_order<D>(
    args: Arguments,
    start: Conclusion,
    tests: Seq<Test<D>>,
    outs: Seq<Outcome>,
    order: Seq<int>,
)
    requires
        outs.len() == tests.len(),
        is_arrival_order(order, tests.len()),
        start.wf(),
        start.total() + tests.len() <= u64::MAX,
    ensures
        tally(args, start, arranged(tests, order), arranged(outs, order)) == tally(
            args,
            start,
            tests,
            outs,
        ),
{
    let there = tally(args, start, arranged(tests, order), arranged(outs, order));
    let here = tally(args, start, tests, outs);
    assert forall|counter: Counter| reading(there, counter) == reading(here, counter) by {
        lemma_tally_is_start_plus_marks(args, start, tests, outs, counter);
        lemma_tally_is_start_plus_marks(
            args,
            start,
            arranged(tests, order),
            arranged(outs, order),
            counter,
        );
        lemma_sum_ignores_order(marks(args, tests, outs, counter), order);
        assert(marks(args, arranged(tests, order), arranged(outs, order), counter) =~= arranged(
            marks(args, tests, outs, counter),
            order,
        ));
    }
    assert(reading(there, Counter::Passed) == reading(here, Counter::Passed));
    assert(reading(there, Counter::Failed) == reading(here, Counter::Failed));
    assert(reading(there, Counter::Ignored) == reading(here, Counter::Ignored));
    assert(reading(there, Counter::Measured) == reading(here, Counter::Measured));
    assert(reading(there, Counter::Benches) == reading(here, Counter::Benches));
    crate::engine::lemma_tally_counts_each_once(args, start, tests, outs);
    crate::engine::lemma_tally_counts_each_once(
        args,
        start,
        arranged(tests, order),
        arranged(outs, order),
    );
}

} // verus!
