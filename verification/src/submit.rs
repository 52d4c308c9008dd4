//! The answer-submission flow: validate the year, check the unlock gate,
//! validate the part selector, and resolve the POST request that submits
//! the answer. The HTTP call itself happens outside the library; the
//! response body comes back through `submit_response` for extraction and
//! cleaning.

use crate::client::Request;
use crate::client::RequestPlan;
use crate::client::clean_response;
use crate::client::markup_of;
use crate::client::parse_main;
use crate::client::resolve_request;
use crate::client::spec_clean;
use crate::client::spec_main_region;
use crate::client::spec_base_url;
use crate::error::Error;
use crate::text::chars_eq;
use crate::text::str_to_chars;
use crate::time::Instant;
use crate::time::error_if_time_before_problem_unlock;
use crate::time::spec_locked_message;
use crate::time::spec_unlock_ns;
use crate::time::spec_validate_year;
use crate::time::spec_year_error_message;
use crate::time::validate_year_with;
use vstd::prelude::*;
use vstd::string::StringExecFns;

verus! {

/// A validated submission request: the day, the requested year (0 for the
/// current one), the part selector and the answer text.
pub struct SubmitArgs {
    pub day: u32,
    pub year: u32,
    pub part: String,
    pub answer: String,
}

pub open spec fn spec_part_valid(part: Seq<char>) -> bool {
    part == "1"@ || part == "2"@
}

/// Accepts exactly the part selectors `"1"` and `"2"`, returning the
/// selector unchanged; anything else is a configuration error.
pub fn validate_part<'a>(part: &'a str) -> (r: Result<&'a str, Error>)
    ensures
        r is Ok <==> spec_part_valid(part@),
        r matches Ok(p) ==> p@ == part@,
        r matches Err(e) ==> e is Configuration && e.spec_message()
            == "You must choose part 1 or part 2"@,
{
    let pv = str_to_chars(part);
    if chars_eq(&pv, &str_to_chars("1")) || chars_eq(&pv, &str_to_chars("2")) {
        return Ok(part);
    }
    Err(Error::Configuration { message: String::from_str("You must choose part 1 or part 2") })
}

/// The submission pipeline up to the network call, as a pure function of
/// the arguments, the current instant and the current year: validates the
/// year, refuses a still-locked puzzle, validates the part, and resolves
/// the POST request with form fields `level` (the part) and `answer`.
pub fn submit_plan(args: SubmitArgs, now: Instant, current_year: u32) -> (r: Result<
    RequestPlan,
    Error,
>)
    requires
        now.wf(),
        1 <= args.day <= 25,
        2015 <= current_year <= 9999,
    ensures
        ({
            let vy = spec_validate_year(args.year as int, current_year as int);
            let y = vy->0;
            &&& (vy is None ==> (r matches Err(e) && e is Configuration && e.spec_message()
                == spec_year_error_message(current_year as int)))
            &&& ((vy is Some && now.total_ns() < spec_unlock_ns(y, args.day as int)) ==> (
            r matches Err(e) && e is Locked && e.spec_message() == spec_locked_message(
                now,
                y,
                args.day as int,
            )))
            &&& ((vy is Some && now.total_ns() >= spec_unlock_ns(y, args.day as int)
                && !spec_part_valid(args.part@)) ==> (r matches Err(e) && e is Configuration
                && e.spec_message() == "You must choose part 1 or part 2"@))
            &&& ((vy is Some && now.total_ns() >= spec_unlock_ns(y, args.day as int)
                && spec_part_valid(args.part@)) ==> (r matches Ok(plan) && plan.method is Post
                && plan.url@ == spec_base_url(y, args.day as int) + "/answer"@
                && plan.extract_main && plan.form@.len() == 2 && plan.form@[0].0@ == "level"@
                && plan.form@[0].1@ == args.part@ && plan.form@[1].0@ == "answer"@
                && plan.form@[1].1@ == args.answer@))
        }),
{
    let year = match validate_year_with(args.year, current_year) {
        Ok(y) => y,
        Err(e) => { return Err(e) },
    };
    match error_if_time_before_problem_unlock(now, year, args.day) {
        Ok(()) => (),
        Err(e) => { return Err(e) },
    }
    let part = match validate_part(args.part.as_str()) {
        Ok(p) => String::from_str(p),
        Err(e) => { return Err(e) },
    };
    let mut form: Vec<(String, String)> = Vec::new();
    form.push((String::from_str("level"), part));
    form.push((String::from_str("answer"), args.answer));
    Ok(resolve_request(Request::Answer { year, day: args.day, form }))
}

/// The submission flow against the system clock: reads the current year
/// and instant once, then plans the request as `submit_plan` does. The
/// guard on the clock's year stands in for the calendar's representation
/// limits; a sane clock never trips it.
pub fn submit_answer(args: SubmitArgs) -> (r: Result<RequestPlan, Error>)
    requires
        1 <= args.day <= 25,
    ensures
        r matches Ok(plan) ==> (plan.method is Post && plan.extract_main && plan.form@.len() == 2
            && plan.form@[0].0@ == "level"@ && plan.form@[0].1@ == args.part@
            && plan.form@[1].0@ == "answer"@ && plan.form@[1].1@ == args.answer@),
        r matches Ok(_) ==> spec_part_valid(args.part@),
{
    let current_year = crate::time::clock_year();
    if current_year < 2015 || current_year > 9999 {
        return Err(
            Error::Configuration {
                message: String::from_str("system clock year out of the supported range"),
            },
        );
    }
    let now = crate::time::now_instant();
    submit_plan(args, now, current_year)
}

/// Post-processes the site's response to a submission: extracts the
/// `<main>` region, converts it to markup and cleans it. This is what the
/// user is shown.
pub fn submit_response(body: String) -> (r: Result<String, Error>)
    ensures
        r matches Ok(t) ==> (spec_main_region(body@) matches Some(region) && t@ == spec_clean(
            markup_of(region),
        )),
        r.is_ok() == (spec_main_region(body@) is Some && crate::client::spec_regex_pattern_ok(
            "You can .*Mastodon.* this puzzle.\\n"@,
        ) && crate::client::spec_regex_pattern_ok(" ?You can .*Mastodon.*this victory or "@)),
        spec_main_region(body@) is None ==> (r matches Err(e) && e is MalformedPage),
        r matches Err(e) ==> e is MalformedPage || e is Template,
{
    let markup = match parse_main(body.as_str()) {
        Ok(m) => m,
        Err(e) => { return Err(e) },
    };
    clean_response(markup)
}

} // verus!
