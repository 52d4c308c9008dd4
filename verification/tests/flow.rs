use puzzle_prep::client::Method;
use puzzle_prep::client::Request;
use puzzle_prep::client::resolve_request;
use puzzle_prep::client::session_cookie_header;
use puzzle_prep::fetch::FetchAction;
use puzzle_prep::fetch::FetchArgs;
use puzzle_prep::fetch::FetchEvent;
use puzzle_prep::fetch::LangConfig;
use puzzle_prep::fetch::fetch_real_input;
use puzzle_prep::fetch::fetch_start;
use puzzle_prep::fetch::fetch_step;
use puzzle_prep::submit::SubmitArgs;
use puzzle_prep::submit::submit_plan;
use puzzle_prep::submit::submit_response;
use puzzle_prep::submit::validate_part;
use puzzle_prep::template::Context;
use puzzle_prep::template::Language;
use puzzle_prep::time::Instant;

fn instant_of(text: &str) -> Instant {
    let ts = match text.parse::<jiff::Zoned>() {
        Ok(zdt) => zdt.timestamp(),
        Err(_) => text.parse::<jiff::Timestamp>().expect("datetime should parse"),
    };
    Instant::from_parts(ts.as_second(), ts.subsec_nanosecond())
}

fn small_config() -> LangConfig {
    LangConfig {
        exec_file_paths: vec!["sol/{year}/{n}.rs".to_owned()],
        input_file_paths: vec!["in/{year}/{n}.txt".to_owned()],
        test_input_file_paths: vec!["tin/{year}/{n}.txt".to_owned()],
        readme_file_paths: vec!["md/{year}/{n}.md".to_owned()],
    }
}

#[test]
fn resolve_request_builds_the_three_urls() {
    let page = resolve_request(Request::ProblemPage { year: 2024, day: 3 });
    assert!(matches!(page.method, Method::Get));
    assert_eq!(page.url, "https://adventofcode.com/2024/day/3");
    assert!(page.extract_main);

    let input = resolve_request(Request::Input { year: 2015, day: 25 });
    assert!(matches!(input.method, Method::Get));
    assert_eq!(input.url, "https://adventofcode.com/2015/day/25/input");
    assert!(!input.extract_main);

    let answer = resolve_request(Request::Answer {
        year: 2020,
        day: 7,
        form: vec![("level".to_owned(), "1".to_owned())],
    });
    assert!(matches!(answer.method, Method::Post));
    assert_eq!(answer.url, "https://adventofcode.com/2020/day/7/answer");
    assert!(answer.extract_main);
    assert_eq!(answer.form, vec![("level".to_owned(), "1".to_owned())]);
}

#[test]
fn session_cookie_header_prefixes_the_value() {
    assert_eq!(session_cookie_header("abc123"), "session=abc123");
}

#[test]
fn validate_part_accepts_one_and_two() {
    assert_eq!(validate_part("1").unwrap(), "1");
    assert_eq!(validate_part("2").unwrap(), "2");
    let err = validate_part("3").unwrap_err();
    assert_eq!(err.message(), "You must choose part 1 or part 2");
    assert!(validate_part("").is_err());
    assert!(validate_part("12").is_err());
}

#[test]
fn submit_plan_builds_the_answer_request() {
    let args = SubmitArgs {
        day: 1,
        year: 2024,
        part: "2".to_owned(),
        answer: "42".to_owned(),
    };
    let now = instant_of("2024-12-01T05:00:01+00:00");
    let plan = submit_plan(args, now, 2024).unwrap();
    assert!(matches!(plan.method, Method::Post));
    assert_eq!(plan.url, "https://adventofcode.com/2024/day/1/answer");
    assert_eq!(
        plan.form,
        vec![("level".to_owned(), "2".to_owned()), ("answer".to_owned(), "42".to_owned())]
    );
}

#[test]
fn submit_plan_rejects_locked_puzzle() {
    let args = SubmitArgs {
        day: 1,
        year: 2024,
        part: "1".to_owned(),
        answer: "x".to_owned(),
    };
    let now = instant_of("2024-12-01T04:59:58.999999999+00:00");
    let err = submit_plan(args, now, 2024).unwrap_err();
    assert_eq!(err.message(), "Problem hasn't unlocked yet. Try again in 2s");
}

#[test]
fn submit_plan_rejects_bad_part_after_gate() {
    let args = SubmitArgs {
        day: 1,
        year: 2024,
        part: "3".to_owned(),
        answer: "x".to_owned(),
    };
    let now = instant_of("2024-12-01T05:00:01+00:00");
    let err = submit_plan(args, now, 2024).unwrap_err();
    assert_eq!(err.message(), "You must choose part 1 or part 2");
}

#[test]
fn submit_plan_rejects_bad_year_first() {
    let args = SubmitArgs {
        day: 1,
        year: 2014,
        part: "3".to_owned(),
        answer: "x".to_owned(),
    };
    let now = instant_of("2024-12-01T05:00:01+00:00");
    let err = submit_plan(args, now, 2024).unwrap_err();
    assert_eq!(err.message(), "You must choose a year between 2015 and 2024");
}

#[test]
fn submit_response_extracts_and_cleans() {
    let body = "<html><main><p>That&#39;s the right answer!</p></main></html>";
    let shown = submit_response(body.to_owned()).unwrap();
    assert_eq!(shown, "That's the right answer!");
}

#[test]
fn fetch_real_input_targets_the_input_url() {
    let ctx = Context::new(4, 2019, Language::JS);
    let plan = fetch_real_input(&ctx);
    assert!(matches!(plan.method, Method::Get));
    assert_eq!(plan.url, "https://adventofcode.com/2019/day/4/input");
    assert!(!plan.extract_main);
}

#[test]
fn fetch_flow_runs_end_to_end() {
    let args = FetchArgs { day: 1, year: 2024, language: Language::Rust };
    let now = instant_of("2024-12-01T05:00:01+00:00");
    let config = small_config();
    let (st, act) = fetch_start(
        args,
        now,
        2024,
        &config,
        "// day {day} of {year}\n",
        "{problem_statement}",
    )
    .unwrap();
    let plan = match act {
        FetchAction::Http(plan) => plan,
        _ => panic!("expected a request action"),
    };
    assert_eq!(plan.url, "https://adventofcode.com/2024/day/1/input");

    // The input body comes back and is written verbatim.
    let (st, act) = fetch_step(st, FetchEvent::GotResponse("1 2 3\n".to_owned())).unwrap();
    match act {
        FetchAction::Write { content, paths } => {
            assert_eq!(content, "1 2 3\n");
            assert_eq!(paths, vec!["in/2024/01.txt".to_owned()]);
        },
        _ => panic!("expected a write action"),
    }

    // Next the statement page is fetched.
    let (st, act) = fetch_step(st, FetchEvent::Wrote).unwrap();
    match act {
        FetchAction::Http(plan) => {
            assert_eq!(plan.url, "https://adventofcode.com/2024/day/1");
            assert!(plan.extract_main);
        },
        _ => panic!("expected a request action"),
    }

    // The page body is extracted, rendered and cleaned into the readme.
    let page = "<html><body><main><p>hi</p></main></body></html>";
    let (st, act) = fetch_step(st, FetchEvent::GotResponse(page.to_owned())).unwrap();
    match act {
        FetchAction::Write { content, paths } => {
            assert_eq!(content, "hi");
            assert_eq!(paths, vec!["md/2024/01.md".to_owned()]);
        },
        _ => panic!("expected a write action"),
    }

    // No fenced block in the readme: the placeholder is empty.
    let (st, act) = fetch_step(st, FetchEvent::Wrote).unwrap();
    match act {
        FetchAction::Write { content, paths } => {
            assert_eq!(content, "");
            assert_eq!(paths, vec!["tin/2024/01.txt".to_owned()]);
        },
        _ => panic!("expected a write action"),
    }

    // The rendered solution-file template goes to the exec paths.
    let (st, act) = fetch_step(st, FetchEvent::Wrote).unwrap();
    match act {
        FetchAction::Write { content, paths } => {
            assert_eq!(content, "// day 1 of 2024\n");
            assert_eq!(paths, vec!["sol/2024/01.rs".to_owned()]);
        },
        _ => panic!("expected a write action"),
    }

    let (_st, act) = fetch_step(st, FetchEvent::Wrote).unwrap();
    assert!(matches!(act, FetchAction::Done));
}

#[test]
fn fetch_start_refuses_locked_day() {
    let args = FetchArgs { day: 2, year: 2024, language: Language::Rust };
    let now = instant_of("2024-12-01T06:00:00+00:00");
    let err = fetch_start(args, now, 2024, &small_config(), "x", "y").unwrap_err();
    assert!(err.message().starts_with("Problem hasn't unlocked yet."));
}

#[test]
fn fetch_start_surfaces_template_errors() {
    let args = FetchArgs { day: 1, year: 2024, language: Language::Rust };
    let now = instant_of("2024-12-01T05:00:01+00:00");
    let mut config = small_config();
    config.readme_file_paths = vec!["md/{bogus}.md".to_owned()];
    let err = fetch_start(args, now, 2024, &config, "x", "y").unwrap_err();
    assert_eq!(err.message(), "unknown template field: bogus");
}

#[test]
fn fetch_step_fails_on_page_without_main() {
    let args = FetchArgs { day: 1, year: 2024, language: Language::Rust };
    let now = instant_of("2024-12-01T05:00:01+00:00");
    let (st, _) = fetch_start(args, now, 2024, &small_config(), "x", "{problem_statement}")
        .unwrap();
    let (st, _) = fetch_step(st, FetchEvent::GotResponse("input".to_owned())).unwrap();
    let (st, _) = fetch_step(st, FetchEvent::Wrote).unwrap();
    let err = fetch_step(st, FetchEvent::GotResponse("<p>login</p>".to_owned())).unwrap_err();
    assert_eq!(err.message(), "no <main> content region in the page");
}

#[test]
fn fetch_and_write_against_clock_starts_with_the_input_request() {
    // The 2015 day-1 puzzle unlocked long ago on any sane clock.
    let args = FetchArgs { day: 1, year: 2015, language: Language::Rust };
    let (st, act) = puzzle_prep::fetch::fetch_and_write(
        args,
        &small_config(),
        "x",
        "{problem_statement}",
    )
    .unwrap();
    assert!(puzzle_prep::fetch::step_expects(
        &st.stage,
        &FetchEvent::GotResponse(String::new())
    ));
    match act {
        FetchAction::Http(plan) => {
            assert_eq!(plan.url, "https://adventofcode.com/2015/day/1/input");
        },
        _ => panic!("expected a request action"),
    }
}

#[test]
fn submit_answer_against_clock_builds_the_post() {
    let args = SubmitArgs {
        day: 1,
        year: 2015,
        part: "1".to_owned(),
        answer: "42".to_owned(),
    };
    let plan = puzzle_prep::submit::submit_answer(args).unwrap();
    assert!(matches!(plan.method, Method::Post));
    assert_eq!(plan.url, "https://adventofcode.com/2015/day/1/answer");
}

#[test]
fn process_response_passes_input_through_and_extracts_pages() {
    let input_req = Request::Input { year: 2024, day: 1 };
    let body = "raw puzzle input\n".to_owned();
    assert_eq!(
        puzzle_prep::client::process_response(&input_req, body.clone()).unwrap(),
        body
    );

    let page_req = Request::ProblemPage { year: 2024, day: 1 };
    let page = "<html><main><p>CARTHAPHILUS</p></main></html>".to_owned();
    assert_eq!(
        puzzle_prep::client::process_response(&page_req, page).unwrap(),
        "CARTHAPHILUS"
    );
    assert!(puzzle_prep::client::process_response(&page_req, "<p>no</p>".to_owned()).is_err());
}
