use libtest_mimic::text::{chars_of, contains, str_eq};
use libtest_mimic::{Arguments, ColorSetting, Destination, FormatSetting, Selection, Test};

fn named(names: &[&str]) -> Vec<Test<()>> {
    names.iter().map(|n| Test::test(n)).collect()
}

fn names_of(tests: &[Test<()>]) -> Vec<String> {
    tests.iter().map(|t| t.name.clone()).collect()
}

#[test]
fn substring_filter_keeps_names_that_contain_it() {
    let mut args = Arguments::default();
    args.filter = Some("a".to_string());
    let kept = args.retain(named(&["alpha", "beta", "calpha"]));
    assert_eq!(names_of(&kept), vec!["alpha", "beta", "calpha"]);
}

#[test]
fn substring_filter_drops_names_without_it() {
    let mut args = Arguments::default();
    args.filter = Some("al".to_string());
    let kept = args.retain(named(&["alpha", "beta", "calpha"]));
    assert_eq!(names_of(&kept), vec!["alpha", "calpha"]);
}

#[test]
fn exact_filter_keeps_equal_names_only() {
    let mut args = Arguments::default();
    args.filter = Some("alpha".to_string());
    args.exact = true;
    let kept = args.retain(named(&["alpha", "beta", "calpha", "alph", "alpha"]));
    assert_eq!(names_of(&kept), vec!["alpha", "alpha"]);
}

#[test]
fn skip_patterns_remove_matches() {
    let mut args = Arguments::default();
    args.skip = vec!["et".to_string(), "zz".to_string(), "mm".to_string()];
    let kept = args.retain(named(&["alpha", "beta", "gamma", "buzz"]));
    assert_eq!(names_of(&kept), vec!["alpha"]);
}

#[test]
fn exact_skip_needs_the_whole_name() {
    let mut args = Arguments::default();
    args.exact = true;
    args.skip = vec!["bet".to_string(), "gamma".to_string()];
    let kept = args.retain(named(&["alpha", "beta", "gamma"]));
    assert_eq!(names_of(&kept), vec!["alpha", "beta"]);
}

#[test]
fn filter_and_skip_work_together() {
    let mut args = Arguments::default();
    args.filter = Some("a".to_string());
    args.skip = vec!["alp".to_string()];
    let kept = args.retain(named(&["alpha", "beta", "calpha", "xyz"]));
    assert_eq!(names_of(&kept), vec!["beta"]);
}

#[test]
fn filtering_twice_is_filtering_once() {
    let mut args = Arguments::default();
    args.filter = Some("e".to_string());
    args.skip = vec!["ta".to_string()];
    let once = args.retain(named(&["alpha", "beta", "delta", "epsilon", "zeta", "eel"]));
    let expected = names_of(&once);
    let twice = args.retain(once);
    assert_eq!(names_of(&twice), expected);
    assert_eq!(expected, vec!["epsilon", "eel"]);
}

#[test]
fn skip_order_does_not_matter() {
    let mut a = Arguments::default();
    a.skip = vec!["x".to_string(), "y".to_string()];
    let mut b = Arguments::default();
    b.skip = vec!["y".to_string(), "x".to_string(), "y".to_string()];
    for name in ["ax", "by", "cz", "xy", ""] {
        let t: Test<()> = Test::test(name);
        assert_eq!(a.is_filtered_out(&t), b.is_filtered_out(&t));
    }
}

#[test]
fn no_filter_keeps_everything() {
    let args = Arguments::default();
    let kept = args.retain(named(&["a", "b", "c"]));
    assert_eq!(names_of(&kept), vec!["a", "b", "c"]);
}

#[test]
fn empty_filter_matches_every_name() {
    let mut args = Arguments::default();
    args.filter = Some(String::new());
    let t: Test<()> = Test::test("anything");
    assert!(!args.is_filtered_out(&t));
    args.exact = true;
    assert!(args.is_filtered_out(&t));
    let e: Test<()> = Test::test("");
    assert!(!args.is_filtered_out(&e));
}

#[test]
fn marked_test_is_ignored_by_default() {
    let args = Arguments::default();
    let mut t: Test<()> = Test::test("t");
    t.is_ignored = true;
    assert!(args.is_ignored(&t));
    assert_eq!(args.classify(&t), Selection::Ignored);
}

#[test]
fn marked_test_runs_when_ignored_tests_are_included() {
    let mut t: Test<()> = Test::test("t");
    t.is_ignored = true;
    let mut args = Arguments::default();
    args.include_ignored = true;
    assert!(!args.is_ignored(&t));
    assert_eq!(args.classify(&t), Selection::Runnable);
    let mut args = Arguments::default();
    args.ignored = true;
    assert!(!args.is_ignored(&t));
}

#[test]
fn test_only_ignores_benchmarks() {
    let mut args = Arguments::default();
    args.test = true;
    let b: Test<()> = Test::bench("b");
    let t: Test<()> = Test::test("t");
    assert!(args.is_ignored(&b));
    assert!(!args.is_ignored(&t));
}

#[test]
fn bench_only_ignores_plain_tests() {
    let mut args = Arguments::default();
    args.bench = true;
    let b: Test<()> = Test::bench("b");
    let t: Test<()> = Test::test("t");
    assert!(!args.is_ignored(&b));
    assert!(args.is_ignored(&t));
}

#[test]
fn filtering_comes_before_ignoring() {
    let mut args = Arguments::default();
    args.filter = Some("zzz".to_string());
    let mut t: Test<()> = Test::test("t");
    t.is_ignored = true;
    assert_eq!(args.classify(&t), Selection::FilteredOut);
    args.include_ignored = true;
    assert_eq!(args.classify(&t), Selection::FilteredOut);
    args.filter = Some("t".to_string());
    assert_eq!(args.classify(&t), Selection::Runnable);
}

#[test]
fn contains_finds_parts() {
    assert!(contains("hello world", "lo w"));
    assert!(contains("hello", "hello"));
    assert!(contains("hello", ""));
    assert!(contains("", ""));
    assert!(contains("hello", "o"));
    assert!(contains("hello", "h"));
    assert!(!contains("hello", "hello!"));
    assert!(!contains("", "a"));
    assert!(!contains("hello", "lol"));
    assert!(!contains("aab", "abb"));
    assert!(contains("aaab", "aab"));
}

#[test]
fn contains_works_on_characters_not_bytes() {
    assert!(contains("grüße", "üß"));
    assert!(!contains("grüße", "us"));
    assert!(contains("日本語のテスト", "語の"));
}

#[test]
fn str_eq_compares_characters() {
    assert!(str_eq("", ""));
    assert!(str_eq("abc", "abc"));
    assert!(!str_eq("abc", "abd"));
    assert!(!str_eq("abc", "ab"));
    assert!(!str_eq("ab", "abc"));
    assert!(str_eq("é", "é"));
}

#[test]
fn chars_of_gives_the_characters() {
    assert_eq!(chars_of("aé日"), vec!['a', 'é', '日']);
    assert_eq!(chars_of(""), Vec::<char>::new());
}

#[test]
fn color_setting_is_read_from_its_name() {
    assert_eq!(ColorSetting::parse("auto"), Ok(ColorSetting::Auto));
    assert_eq!(ColorSetting::parse("always"), Ok(ColorSetting::Always));
    assert_eq!(ColorSetting::parse("never"), Ok(ColorSetting::Never));
    assert_eq!(ColorSetting::parse("Auto"), Err("invalid color setting"));
    assert_eq!(ColorSetting::parse(""), Err("invalid color setting"));
    assert_eq!("always".parse::<ColorSetting>(), Ok(ColorSetting::Always));
    assert_eq!("sometimes".parse::<ColorSetting>(), Err("invalid color setting"));
    assert_eq!(ColorSetting::default(), ColorSetting::Auto);
}

#[test]
fn format_setting_is_read_from_its_name() {
    assert_eq!(FormatSetting::parse("pretty"), Ok(FormatSetting::Pretty));
    assert_eq!(FormatSetting::parse("terse"), Ok(FormatSetting::Terse));
    assert_eq!(FormatSetting::parse("json"), Err("invalid output format"));
    assert_eq!("json".parse::<FormatSetting>(), Err("invalid output format"));
    assert_eq!(FormatSetting::parse("Pretty"), Err("invalid output format"));
    assert_eq!(FormatSetting::parse("terse "), Err("invalid output format"));
    assert_eq!(FormatSetting::parse("xml"), Err("invalid output format"));
    assert_eq!("terse".parse::<FormatSetting>(), Ok(FormatSetting::Terse));
    assert_eq!("".parse::<FormatSetting>(), Err("invalid output format"));
    assert_eq!(FormatSetting::default(), FormatSetting::Pretty);
}

#[test]
fn default_arguments_ask_for_nothing() {
    let args = Arguments::default();
    assert!(!args.include_ignored && !args.ignored && !args.test && !args.bench);
    assert!(!args.list && !args.nocapture && !args.exact && !args.quiet);
    assert_eq!(args.test_threads, None);
    assert_eq!(args.logfile, None);
    assert!(args.skip.is_empty());
    assert_eq!(args.color, None);
    assert_eq!(args.format, None);
    assert_eq!(args.filter, None);
}

#[test]
fn worker_count_is_never_below_one() {
    let mut args = Arguments::default();
    assert_eq!(args.worker_count(), 1);
    assert!(args.is_sequential());
    args.test_threads = Some(0);
    assert_eq!(args.worker_count(), 1);
    assert!(args.is_sequential());
    args.test_threads = Some(1);
    assert_eq!(args.worker_count(), 1);
    assert!(args.is_sequential());
    args.test_threads = Some(8);
    assert_eq!(args.worker_count(), 8);
    assert!(!args.is_sequential());
}

#[test]
fn destination_follows_logfile_and_color() {
    let mut args = Arguments::default();
    assert_eq!(args.destination(), Destination::Stdout { color: ColorSetting::Auto });
    args.color = Some(ColorSetting::Never);
    assert_eq!(args.destination(), Destination::Stdout { color: ColorSetting::Never });
    args.logfile = Some("out.log".to_string());
    assert_eq!(
        args.destination(),
        Destination::File { path: "out.log".to_string(), ansi: false }
    );
    args.color = Some(ColorSetting::Always);
    assert_eq!(
        args.destination(),
        Destination::File { path: "out.log".to_string(), ansi: true }
    );
    args.color = None;
    assert_eq!(
        args.destination(),
        Destination::File { path: "out.log".to_string(), ansi: false }
    );
}

#[test]
fn test_and_bench_builders() {
    let t: Test<u32> = Test::test("plain");
    assert_eq!(t.name, "plain");
    assert_eq!(t.kind, "");
    assert!(!t.is_ignored);
    assert!(!t.is_bench);
    assert_eq!(t.data, 0);
    let b: Test<String> = Test::bench("timed");
    assert_eq!(b.name, "timed");
    assert_eq!(b.kind, "");
    assert!(!b.is_ignored);
    assert!(b.is_bench);
    assert_eq!(b.data, "");
}
