use puzzle_prep::fetch::LangConfig;
use puzzle_prep::fetch::materialise_config;
use puzzle_prep::fetch::materialise_paths;
use puzzle_prep::fetch::plan_writes;
use puzzle_prep::template::Context;
use puzzle_prep::template::Language;
use puzzle_prep::template::render;

#[test]
fn context_pads_the_day_number() {
    let ctx = Context::new(3, 2024, Language::Rust);
    assert_eq!(ctx.n, "03");
    let ctx = Context::new(25, 2024, Language::Rust);
    assert_eq!(ctx.n, "25");
}

#[test]
fn render_interpolates_every_field() {
    let ctx = Context::new(3, 2024, Language::Rust);
    let out = render("day {day} of {year}: file {n}, lang {language}", &ctx).unwrap();
    assert_eq!(out, "day 3 of 2024: file 03, lang Rust");
}

#[test]
fn render_interpolates_problem_statement() {
    let mut ctx = Context::new(1, 2020, Language::Python);
    ctx.problem_statement = "two sums".to_owned();
    let out = render("# Statement\n\n{problem_statement}\n", &ctx).unwrap();
    assert_eq!(out, "# Statement\n\ntwo sums\n");
}

#[test]
fn render_leaves_plain_text_alone() {
    let ctx = Context::new(1, 2020, Language::JS);
    assert_eq!(render("no placeholders", &ctx).unwrap(), "no placeholders");
    assert_eq!(render("", &ctx).unwrap(), "");
}

#[test]
fn render_escaped_brace_is_literal() {
    let ctx = Context::new(1, 2020, Language::Rust);
    let out = render("fn main() \\{\n    // day {day}\n}\n", &ctx).unwrap();
    assert_eq!(out, "fn main() {\n    // day 1\n}\n");
}

#[test]
fn render_rejects_unknown_field() {
    let ctx = Context::new(1, 2020, Language::JS);
    let err = render("oops {missing} here", &ctx).unwrap_err();
    assert_eq!(err.message(), "unknown template field: missing");
}

#[test]
fn render_rejects_unclosed_placeholder() {
    let ctx = Context::new(1, 2020, Language::JS);
    let err = render("oops {day", &ctx).unwrap_err();
    assert_eq!(err.message(), "unclosed placeholder in template");
}

#[test]
fn materialise_paths_renders_each_template() {
    let ctx = Context::new(7, 2021, Language::Python);
    let paths = vec!["src/{year}/day{n}.py".to_owned(), "inputs/{year}/{day}".to_owned()];
    let out = materialise_paths(&paths, &ctx).unwrap();
    assert_eq!(out, vec!["src/2021/day07.py".to_owned(), "inputs/2021/7".to_owned()]);
}

#[test]
fn materialise_paths_surfaces_the_first_error() {
    let ctx = Context::new(7, 2021, Language::Python);
    let paths = vec!["ok/{n}".to_owned(), "bad/{nope}".to_owned()];
    let err = materialise_paths(&paths, &ctx).unwrap_err();
    assert_eq!(err.message(), "unknown template field: nope");
}

#[test]
fn materialise_config_renders_template_and_paths() {
    let ctx = Context::new(9, 2023, Language::Rust);
    let config = LangConfig {
        exec_file_paths: vec!["src/bin/{n}.rs".to_owned()],
        input_file_paths: vec!["input/{year}/{n}.txt".to_owned()],
        test_input_file_paths: vec!["input/{year}/{n}_test.txt".to_owned()],
        readme_file_paths: vec!["readme/{year}/{n}.md".to_owned()],
    };
    let mc = materialise_config(&config, "// {year} day {day}\n", &ctx).unwrap();
    assert_eq!(mc.template, "// 2023 day 9\n");
    assert_eq!(mc.exec_file_paths, vec!["src/bin/09.rs".to_owned()]);
    assert_eq!(mc.input_file_paths, vec!["input/2023/09.txt".to_owned()]);
    assert_eq!(mc.test_input_file_paths, vec!["input/2023/09_test.txt".to_owned()]);
    assert_eq!(mc.readme_file_paths, vec!["readme/2023/09.md".to_owned()]);
}

#[test]
fn plan_writes_skips_existing_destinations() {
    let paths = vec!["a.txt".to_owned(), "b.txt".to_owned(), "c.txt".to_owned()];
    let existing = vec![true, false, true];
    assert_eq!(plan_writes(&paths, &existing), vec!["b.txt".to_owned()]);
}

#[test]
fn plan_writes_never_overwrites() {
    // A pre-populated destination never appears in the plan.
    let paths = vec!["keep.txt".to_owned()];
    let existing = vec![true];
    assert!(plan_writes(&paths, &existing).is_empty());
    let existing = vec![false];
    assert_eq!(plan_writes(&paths, &existing), vec!["keep.txt".to_owned()]);
}
