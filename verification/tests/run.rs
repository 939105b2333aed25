use libtest_mimic::engine::run_tests;
use libtest_mimic::layout::{Color, Piece};
use libtest_mimic::{
    Arguments, Begin, ColorSetting, Conclusion, ConfigError, FormatSetting, Outcome, Report, Run, Test,
    Ticket,
};
use std::cell::Cell;

fn plain(text: &str) -> Piece {
    Piece { text: text.to_string(), color: None }
}

fn tinted(text: &str, color: Color) -> Piece {
    Piece { text: text.to_string(), color: Some(color) }
}

fn text_of(pieces: &[Piece]) -> String {
    pieces.iter().map(|p| p.text.as_str()).collect()
}

fn abc() -> Vec<Test<()>> {
    let mut b: Test<()> = Test::test("b");
    b.is_ignored = true;
    vec![Test::test("a"), b, Test::test("c")]
}

fn tally(filtered: u64, passed: u64, failed: u64, ignored: u64, measured: u64, benches: u64) -> Conclusion {
    Conclusion {
        num_filtered_out: filtered,
        num_passed: passed,
        num_failed: failed,
        num_ignored: ignored,
        num_measured: measured,
        num_benches: benches,
    }
}

fn by_name(t: &Test<()>) -> Outcome {
    if t.name.starts_with("fail") {
        Outcome::Failed { msg: Some(format!("{} went wrong", t.name)) }
    } else if t.is_bench {
        Outcome::Measured { avg: 500, variance: 20 }
    } else {
        Outcome::Passed
    }
}

fn started<'a>(args: &'a Arguments, tests: Vec<Test<()>>) -> (Run<'a, ()>, Vec<Test<()>>) {
    match Run::begin(args, tests) {
        Ok(Begin::Started(run, kept)) => (run, kept),
        _ => panic!("the run did not start"),
    }
}

#[test]
fn three_tests_one_ignored_all_pass() {
    let args = Arguments::default();
    let report = run_tests(&args, abc(), |_| Outcome::Passed).unwrap();
    assert_eq!(report.conclusion, tally(0, 2, 0, 1, 0, 0));
    assert!(report.failures.is_empty());
    assert_eq!(
        text_of(&report.output),
        "\nrunning 3 tests\n\
         test a ... ok\n\
         test b ... ignored\n\
         test c ... ok\n\
         \ntest result: ok. 2 passed; 0 failed; 1 ignored; 0 measured; 0 filtered out\n\n"
    );
}

#[test]
fn three_tests_one_ignored_terse() {
    let mut args = Arguments::default();
    args.quiet = true;
    let report = run_tests(&args, abc(), |_| Outcome::Passed).unwrap();
    assert_eq!(report.conclusion, tally(0, 2, 0, 1, 0, 0));
    assert_eq!(
        report.output,
        vec![
            plain("\nrunning 3 tests\n"),
            tinted(".", Color::Green),
            tinted("i", Color::Yellow),
            tinted(".", Color::Green),
            plain("\ntest result: "),
            tinted("ok", Color::Green),
            plain(". 2 passed; 0 failed; 1 ignored; 0 measured; 0 filtered out\n\n"),
        ]
    );
    assert_eq!(text_of(&report.output[1..4]), ".i.");
}

#[test]
fn substring_filter_scenario() {
    let mut args = Arguments::default();
    args.filter = Some("a".to_string());
    args.exact = false;
    let seen = Cell::new(Vec::new());
    let tests: Vec<Test<()>> = vec![Test::test("alpha"), Test::test("bet"), Test::test("calpha")];
    let report = run_tests(&args, tests, |t| {
        let mut names = seen.take();
        names.push(t.name.clone());
        seen.set(names);
        Outcome::Passed
    })
    .unwrap();
    assert_eq!(seen.take(), vec!["alpha", "calpha"]);
    assert_eq!(report.conclusion.num_filtered_out, 1);
    assert_eq!(report.conclusion, tally(1, 2, 0, 0, 0, 0));
    assert!(text_of(&report.output).starts_with("\nrunning 2 tests\n"));
}

#[test]
fn substring_filter_over_alpha_beta_calpha() {
    let mut args = Arguments::default();
    args.filter = Some("a".to_string());
    args.exact = false;
    let seen = Cell::new(Vec::new());
    let tests: Vec<Test<()>> = vec![Test::test("alpha"), Test::test("beta"), Test::test("calpha")];
    let report = run_tests(&args, tests, |t| {
        let mut names = seen.take();
        names.push(t.name.clone());
        seen.set(names);
        Outcome::Passed
    })
    .unwrap();
    assert_eq!(seen.take(), vec!["alpha", "beta", "calpha"]);
    assert_eq!(report.conclusion, tally(0, 3, 0, 0, 0, 0));
    assert!(text_of(&report.output).starts_with("\nrunning 3 tests\n"));
}

#[test]
fn run_awaits_the_announced_test_only() {
    let args = Arguments::default();
    let (mut run, mut kept) = started(&args, abc());
    let c = kept.pop().unwrap();
    let b = kept.pop().unwrap();
    assert!(!run.awaits(&c));
    run.announce(&c);
    assert!(run.awaits(&c));
    assert!(!run.awaits(&b));
    let mut other = c.clone();
    other.kind = "x".to_string();
    assert!(!run.awaits(&other));
    let mut marked = c.clone();
    marked.is_ignored = true;
    assert!(!run.awaits(&marked));
    let mut timed = c.clone();
    timed.is_bench = true;
    assert!(!run.awaits(&timed));
    run.settle(Outcome::Passed, c);
    assert!(!run.awaits(&b));
}

#[test]
fn ticket_tells_tests_apart() {
    let mut t: Test<u8> = Test::test("one");
    t.kind = "unit".to_string();
    t.data = 7;
    let ticket = t.to_ticket();
    assert_eq!(
        ticket,
        Ticket { name: "one".to_string(), kind: "unit".to_string(), is_ignored: false, is_bench: false }
    );
    assert!(t.has_ticket(&ticket));
    let mut u = t.clone();
    u.data = 9;
    assert!(u.has_ticket(&ticket));
    u.name = "two".to_string();
    assert!(!u.has_ticket(&ticket));
    let b: Test<u8> = Test::bench("one");
    assert!(!b.has_ticket(&ticket));
}

#[test]
fn json_request_fails_before_anything_runs() {
    let mut args = Arguments::default();
    args.format = Some(FormatSetting::Json);
    let calls = Cell::new(0u32);
    let result = run_tests(&args, abc(), |_| {
        calls.set(calls.get() + 1);
        Outcome::Passed
    });
    assert_eq!(result.err(), Some(ConfigError::UnsupportedFormat));
    assert_eq!(calls.get(), 0);
    assert!(matches!(Run::begin(&args, abc()), Err(ConfigError::UnsupportedFormat)));
    args.list = true;
    assert!(matches!(Run::begin(&args, abc()), Err(ConfigError::UnsupportedFormat)));
}

#[test]
fn ignored_test_is_never_evaluated() {
    let args = Arguments::default();
    let seen = Cell::new(Vec::new());
    let report = run_tests(&args, abc(), |t| {
        let mut names = seen.take();
        names.push(t.name.clone());
        seen.set(names);
        Outcome::Failed { msg: None }
    })
    .unwrap();
    assert_eq!(seen.take(), vec!["a", "c"]);
    assert_eq!(report.conclusion, tally(0, 0, 2, 1, 0, 0));
}

#[test]
fn included_ignored_test_is_evaluated() {
    let mut args = Arguments::default();
    args.include_ignored = true;
    let report = run_tests(&args, abc(), |_| Outcome::Passed).unwrap();
    assert_eq!(report.conclusion, tally(0, 3, 0, 0, 0, 0));
}

#[test]
fn counts_add_up_to_the_catalog() {
    let mut tests: Vec<Test<()>> = Vec::new();
    for i in 0..40 {
        let mut t: Test<()> = if i % 5 == 0 {
            Test::bench(&format!("bench_{}", i))
        } else if i % 7 == 0 {
            Test::test(&format!("fail_{}", i))
        } else {
            Test::test(&format!("test_{}", i))
        };
        t.is_ignored = i % 4 == 1;
        tests.push(t);
    }
    let mut args = Arguments::default();
    args.skip = vec!["3".to_string()];
    let report = run_tests(&args, tests, by_name).unwrap();
    let c = report.conclusion;
    assert_eq!(c.num_filtered_out + c.num_passed + c.num_failed + c.num_ignored + c.num_measured, 40);
    assert_eq!(c, tally(13, 13, 3, 7, 4, 6));
    assert_eq!(report.failures.len(), 3);
}

#[test]
fn failed_tests_are_listed_before_the_summary() {
    let args = Arguments::default();
    let tests: Vec<Test<()>> = vec![Test::test("good"), Test::test("fail_one"), Test::test("fail_two")];
    let report = run_tests(&args, tests, |t| {
        if t.name == "fail_two" {
            Outcome::Failed { msg: None }
        } else {
            by_name(t)
        }
    })
    .unwrap();
    assert_eq!(report.conclusion, tally(0, 1, 2, 0, 0, 0));
    assert_eq!(report.conclusion.exit_code(), 101);
    let failed: Vec<(String, Option<String>)> =
        report.failures.iter().map(|(t, m)| (t.name.clone(), m.clone())).collect();
    assert_eq!(
        failed,
        vec![
            ("fail_one".to_string(), Some("fail_one went wrong".to_string())),
            ("fail_two".to_string(), None),
        ]
    );
    assert_eq!(
        text_of(&report.output),
        "\nrunning 3 tests\n\
         test good     ... ok\n\
         test fail_one ... FAILED\n\
         test fail_two ... FAILED\n\
         \nfailures:\n\n\
         ---- fail_one ----\nfail_one went wrong\n\n\
         \nfailures:\n    fail_one\n    fail_two\n\
         \ntest result: FAILED. 1 passed; 2 failed; 0 ignored; 0 measured; 0 filtered out\n\n"
    );
}

#[test]
fn benchmarks_are_measured() {
    let args = Arguments::default();
    let tests: Vec<Test<()>> = vec![Test::bench("quick"), Test::test("t")];
    let report = run_tests(&args, tests, by_name).unwrap();
    assert_eq!(report.conclusion, tally(0, 1, 0, 0, 1, 1));
    assert_eq!(
        text_of(&report.output),
        "\nrunning 2 tests\n\
         test quick ... bench: 500 ns/iter (+/- 20)\n\
         test t     ... ok\n\
         \ntest result: ok. 1 passed; 0 failed; 0 ignored; 1 measured; 0 filtered out\n\n"
    );
}

#[test]
fn test_only_run_ignores_benchmarks() {
    let mut args = Arguments::default();
    args.test = true;
    let tests: Vec<Test<()>> = vec![Test::bench("quick"), Test::test("t")];
    let report = run_tests(&args, tests, by_name).unwrap();
    assert_eq!(report.conclusion, tally(0, 1, 0, 1, 0, 1));
}

#[test]
fn empty_catalog() {
    let args = Arguments::default();
    let report = run_tests(&args, Vec::<Test<()>>::new(), |_| Outcome::Passed).unwrap();
    assert_eq!(report.conclusion, Conclusion::empty());
    assert_eq!(
        text_of(&report.output),
        "\nrunning 0 tests\n\ntest result: ok. 0 passed; 0 failed; 0 ignored; 0 measured; 0 filtered out\n\n"
    );
}

#[test]
fn everything_filtered_out() {
    let mut args = Arguments::default();
    args.filter = Some("nothing".to_string());
    let report = run_tests(&args, abc(), |_| Outcome::Passed).unwrap();
    assert_eq!(report.conclusion, tally(3, 0, 0, 0, 0, 0));
    assert!(text_of(&report.output).starts_with("\nrunning 0 tests\n"));
}

#[test]
fn listing_runs_nothing() {
    let mut args = Arguments::default();
    args.list = true;
    args.skip = vec!["c".to_string()];
    let calls = Cell::new(0u32);
    let report = run_tests(&args, abc(), |_| {
        calls.set(calls.get() + 1);
        Outcome::Passed
    })
    .unwrap();
    assert_eq!(calls.get(), 0);
    assert_eq!(report.conclusion, Conclusion::empty());
    assert!(report.failures.is_empty());
    assert_eq!(report.output, vec![plain("a: test\n"), plain("b: test\n")]);
}

#[test]
fn listing_of_ignored_tests_only() {
    let mut args = Arguments::default();
    args.list = true;
    args.ignored = true;
    let report = run_tests(&args, abc(), |_| Outcome::Passed).unwrap();
    assert_eq!(report.output, vec![plain("b: test\n")]);
}

#[test]
fn same_run_twice_gives_the_same_report() {
    let mut tests: Vec<Test<()>> = abc();
    tests.push(Test::test("fail_x"));
    tests.push(Test::bench("speed"));
    tests[0].kind = "unit".to_string();
    let args = Arguments::default();
    let first: Report<()> = run_tests(&args, tests.clone(), by_name).unwrap();
    let second: Report<()> = run_tests(&args, tests, by_name).unwrap();
    assert_eq!(first.output, second.output);
    assert_eq!(first.conclusion, second.conclusion);
    assert_eq!(text_of(&first.output).into_bytes(), text_of(&second.output).into_bytes());
}

#[test]
fn output_follows_catalog_order() {
    let args = Arguments::default();
    let names = ["n3", "n1", "n2", "n0"];
    let tests: Vec<Test<()>> = names.iter().map(|n| Test::test(n)).collect();
    let report = run_tests(&args, tests, |_| Outcome::Passed).unwrap();
    let text = text_of(&report.output);
    let lines: Vec<&str> = text.lines().filter(|l| l.starts_with("test n")).collect();
    assert_eq!(lines, vec!["test n3 ... ok", "test n1 ... ok", "test n2 ... ok", "test n0 ... ok"]);
}

#[test]
fn never_colored_run() {
    let mut args = Arguments::default();
    args.color = Some(ColorSetting::Never);
    let report = run_tests(&args, abc(), |_| Outcome::Passed).unwrap();
    assert!(report.output.iter().all(|p| p.color.is_none()));
}

#[test]
fn run_begins_with_the_title() {
    let mut args = Arguments::default();
    args.skip = vec!["c".to_string()];
    let (mut run, kept) = started(&args, abc());
    assert_eq!(kept.len(), 2);
    assert_eq!(run.num_pending(), 2);
    assert_eq!(run.take_output(), vec![plain("\nrunning 2 tests\n")]);
    assert_eq!(run.take_output(), vec![]);
    assert!(!run.ignores(&kept[0]));
    assert!(run.ignores(&kept[1]));
}

#[test]
fn outcomes_may_arrive_in_any_order() {
    let args = Arguments::default();
    let (mut run, mut kept) = started(&args, abc());
    run.take_output();
    let c = kept.pop().unwrap();
    let b = kept.pop().unwrap();
    let a = kept.pop().unwrap();
    run.complete(Outcome::Ignored, b);
    assert_eq!(run.take_output(), vec![plain("test b ... "), tinted("ignored", Color::Yellow), plain("\n")]);
    run.complete(Outcome::Failed { msg: Some("late".to_string()) }, c);
    assert_eq!(run.take_output(), vec![plain("test c ... "), tinted("FAILED", Color::Red), plain("\n")]);
    assert_eq!(run.num_pending(), 1);
    run.complete(Outcome::Passed, a);
    assert_eq!(run.take_output(), vec![plain("test a ... "), tinted("ok", Color::Green), plain("\n")]);
    assert_eq!(run.num_pending(), 0);
    let report = run.finish();
    assert_eq!(report.conclusion, tally(0, 1, 1, 1, 0, 0));
    assert_eq!(report.failures.len(), 1);
    assert_eq!(report.failures[0].0.name, "c");
    assert_eq!(
        text_of(&report.output),
        "\nfailures:\n\n---- c ----\nlate\n\n\nfailures:\n    c\n\
         \ntest result: FAILED. 1 passed; 1 failed; 1 ignored; 0 measured; 0 filtered out\n\n"
    );
}

#[test]
fn ignored_test_stays_ignored_whatever_is_reported() {
    let args = Arguments::default();
    let (mut run, mut kept) = started(&args, abc());
    let _c = kept.pop().unwrap();
    let b = kept.pop().unwrap();
    run.take_output();
    run.complete(Outcome::Failed { msg: Some("no".to_string()) }, b);
    assert_eq!(run.take_output(), vec![plain("test b ... "), tinted("ignored", Color::Yellow), plain("\n")]);
    let report = run.finish();
    assert_eq!(report.conclusion, tally(0, 0, 0, 1, 0, 0));
    assert!(report.failures.is_empty());
}

#[test]
fn announce_then_settle_is_one_line() {
    let args = Arguments::default();
    let (mut run, mut kept) = started(&args, vec![Test::test("solo")]);
    run.take_output();
    let t = kept.pop().unwrap();
    run.announce(&t);
    assert_eq!(run.take_output(), vec![plain("test solo ... ")]);
    run.settle(Outcome::Passed, t);
    assert_eq!(run.take_output(), vec![tinted("ok", Color::Green), plain("\n")]);
}

#[test]
fn begin_with_listing() {
    let mut args = Arguments::default();
    args.list = true;
    match Run::begin(&args, abc()) {
        Ok(Begin::Listed(pieces)) => {
            assert_eq!(pieces, vec![plain("a: test\n"), plain("b: test\n"), plain("c: test\n")]);
        }
        _ => panic!("no listing"),
    }
}

#[test]
fn run_knows_whether_an_outcome_is_awaited() {
    let args = Arguments::default();
    let (mut run, mut kept) = started(&args, abc());
    assert!(!run.is_announced());
    let c = kept.pop().unwrap();
    run.announce(&c);
    assert!(run.is_announced());
    run.settle(Outcome::Passed, c);
    assert!(!run.is_announced());
    let b = kept.pop().unwrap();
    run.complete(Outcome::Ignored, b);
    assert!(!run.is_announced());
    assert_eq!(run.num_pending(), 1);
}

#[test]
fn run_stays_consistent() {
    let mut args = Arguments::default();
    args.skip = vec!["a".to_string()];
    let (mut run, mut kept) = started(&args, abc());
    assert!(run.is_consistent());
    let c = kept.pop().unwrap();
    run.complete(Outcome::Failed { msg: None }, c);
    assert!(run.is_consistent());
    let b = kept.pop().unwrap();
    run.announce(&b);
    assert!(run.is_consistent());
    run.settle(Outcome::Passed, b);
    assert!(run.is_consistent());
    assert_eq!(run.num_pending(), 0);
    let report = run.finish();
    assert_eq!(report.conclusion, tally(1, 0, 1, 1, 0, 0));
}

#[test]
fn run_expects_the_tests_of_its_catalog() {
    let mut args = Arguments::default();
    args.skip = vec!["c".to_string()];
    let (mut run, mut kept) = started(&args, abc());
    let stranger: Test<()> = Test::test("zzz");
    let left_out: Test<()> = Test::test("c");
    assert!(!run.expects(&stranger));
    assert!(!run.expects(&left_out));
    assert!(run.expects(&kept[0]));
    assert!(run.expects(&kept[1]));
    let b = kept.pop().unwrap();
    let again = b.clone();
    run.complete(Outcome::Ignored, b);
    assert!(!run.expects(&again));
    assert!(run.expects(&kept[0]));
    assert_eq!(run.num_pending(), 1);
}

#[test]
fn tests_of_one_name_are_each_expected_once() {
    let args = Arguments::default();
    let twins: Vec<Test<()>> = vec![Test::test("twin"), Test::test("twin"), Test::test("other")];
    let (mut run, mut kept) = started(&args, twins);
    let other = kept.pop().unwrap();
    let second = kept.pop().unwrap();
    let first = kept.pop().unwrap();
    let third: Test<()> = Test::test("twin");
    run.complete(Outcome::Passed, second);
    assert!(run.expects(&first));
    run.complete(Outcome::Passed, first);
    assert!(!run.expects(&third));
    assert!(run.expects(&other));
    run.complete(Outcome::Passed, other);
    assert_eq!(run.num_pending(), 0);
    assert!(run.is_consistent());
    assert_eq!(run.finish().conclusion, tally(0, 3, 0, 0, 0, 0));
}
