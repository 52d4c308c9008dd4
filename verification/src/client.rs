//! Resolving the site's HTTP requests and processing their responses:
//! method, URL and form body for each request kind; extraction of the
//! `<main>` content region from a returned page; and normalization of the
//! extracted text (entity un-escaping and boilerplate removal).
//!
//! The network call itself lives outside the library; callers resolve a
//! request here, perform it, and hand the body back for processing.

use crate::error::Error;
use crate::text::chars_to_string;
use crate::text::spec_dec;
use crate::text::spec_find_from;
use crate::text::spec_replace;
use crate::text::find_from;
use crate::text::lemma_find_from_bounds;
use crate::text::replace_chars;
use crate::text::str_to_chars;
use crate::text::subvec;
use crate::text::u64_to_string;
use vstd::prelude::*;
use vstd::string::StringExecFns;

verus! {

/// One of the three authenticated operations the site offers.
#[derive(Debug)]
pub enum Request {
    /// The puzzle statement page for a year and day.
    ProblemPage { year: u32, day: u32 },
    /// The personal puzzle input for a year and day.
    Input { year: u32, day: u32 },
    /// An answer submission with its form fields (expected `level` and
    /// `answer`).
    Answer { year: u32, day: u32, form: Vec<(String, String)> },
}

#[derive(Clone, Copy, Debug, PartialEq, Eq, Structural)]
pub enum Method {
    Get,
    Post,
}

/// A fully resolved request: everything an HTTP client needs, plus whether
/// the response body is a page whose `<main>` region must be extracted
/// (puzzle inputs are plain text and are returned verbatim).
#[derive(Debug)]
pub struct RequestPlan {
    pub method: Method,
    pub url: String,
    pub form: Vec<(String, String)>,
    pub extract_main: bool,
}

pub open spec fn spec_base_url(year: int, day: int) -> Seq<char> {
    "https://adventofcode.com/"@ + spec_dec(year) + "/day/"@ + spec_dec(day)
}

pub open spec fn spec_request_url(req: Request) -> Seq<char> {
    match req {
        Request::ProblemPage { year, day } => spec_base_url(year as int, day as int),
        Request::Input { year, day } => spec_base_url(year as int, day as int) + "/input"@,
        Request::Answer { year, day, .. } => spec_base_url(year as int, day as int) + "/answer"@,
    }
}

pub open spec fn spec_request_method(req: Request) -> Method {
    match req {
        Request::Answer { .. } => Method::Post,
        _ => Method::Get,
    }
}

fn base_url(year: u32, day: u32) -> (r: String)
    ensures
        r@ == spec_base_url(year as int, day as int),
{
    String::from_str("https://adventofcode.com/").concat(
        u64_to_string(year as u64).as_str(),
    ).concat("/day/").concat(u64_to_string(day as u64).as_str())
}

/// Resolves a request to its method, URL and form body. Only an answer
/// submission carries a form and uses POST; a problem page or an answer
/// response is HTML whose `<main>` region the caller must extract, while an
/// input response is returned verbatim.
pub fn resolve_request(req: Request) -> (r: RequestPlan)
    ensures
        r.method == spec_request_method(req),
        r.url@ == spec_request_url(req),
        req matches Request::Answer { form, .. } ==> r.form == form,
        !(req is Answer) ==> r.form@.len() == 0,
        r.extract_main == !(req is Input),
{
    match req {
        Request::ProblemPage { year, day } => RequestPlan {
            method: Method::Get,
            url: base_url(year, day),
            form: Vec::new(),
            extract_main: true,
        },
        Request::Input { year, day } => RequestPlan {
            method: Method::Get,
            url: base_url(year, day).concat("/input"),
            form: Vec::new(),
            extract_main: false,
        },
        Request::Answer { year, day, form } => RequestPlan {
            method: Method::Post,
            url: base_url(year, day).concat("/answer"),
            form,
            extract_main: true,
        },
    }
}

pub open spec fn spec_missing_credential_message() -> Seq<char> {
    "AOC_COOKIE environment variable not set.\nFind the cookie value from your browser and set it as an environment variable.\nexport AOC_COOKIE=<cookie>"@
}

/// The configuration error reported when the session credential is absent
/// from the environment.
pub fn missing_credential_error() -> (r: Error)
    ensures
        r is Configuration,
        r.spec_message() == spec_missing_credential_message(),
{
    Error::Configuration {
        message: String::from_str(
            "AOC_COOKIE environment variable not set.\nFind the cookie value from your browser and set it as an environment variable.\nexport AOC_COOKIE=<cookie>",
        ),
    }
}

/// The `cookie` header value that authenticates a request.
pub fn session_cookie_header(cookie: &str) -> (r: String)
    ensures
        r@ == "session="@ + cookie@,
{
    String::from_str("session=").concat(cookie)
}

/// What `html2md::parse_html` returns for a document: a function of the
/// document alone.
pub uninterp spec fn markup_of(html: Seq<char>) -> Seq<char>;

/// Relies on `html2md::parse_html`: converts an HTML fragment to
/// lightweight markup (headings, paragraphs, code, links in semantic
/// form); the result depends on the fragment alone.
#[verifier::external_body]
fn html_to_markup(html: &str) -> (r: String)
    ensures
        r@ == markup_of(html@),
{
    html2md::parse_html(html)
}

/// What `regex::Regex::replace_all` returns for a pattern, a text and a
/// replacement: a function of the three alone.
pub uninterp spec fn spec_regex_replaced(pat: Seq<char>, text: Seq<char>, rep: Seq<char>) -> Seq<
    char,
>;

/// Whether `regex::Regex::new` accepts a pattern: a function of the
/// pattern alone.
pub uninterp spec fn spec_regex_pattern_ok(pat: Seq<char>) -> bool;

/// Relies on `regex::Regex::new` and `regex::Regex::replace_all`: when the
/// pattern compiles, the result is the text with every non-overlapping
/// match of the pattern, found left to right, replaced by `rep`.
#[verifier::external_body]
fn regex_replace_all(pat: &str, text: &str, rep: &str) -> (r: Option<String>)
    ensures
        r is Some <==> spec_regex_pattern_ok(pat@),
        r matches Some(t) ==> t@ == spec_regex_replaced(pat@, text@, rep@),
{
    match regex::Regex::new(pat) {
        Ok(re) => Some(re.replace_all(text, rep).into_owned()),
        Err(_) => None,
    }
}

/// The four HTML entities the site's responses are known to carry, each
/// un-escaped in turn.
pub open spec fn spec_unescape_entities(s: Seq<char>) -> Seq<char> {
    spec_replace(
        spec_replace(spec_replace(spec_replace(s, "&#39;"@, "'"@), "&gt;"@, ">"@), "&lt;"@, "<"@),
        "&quot;"@,
        "\""@,
    )
}

/// Un-escaped text with the site's two social-share boilerplate shapes
/// removed: the sentence appended after completing a single puzzle, and the
/// phrase embedded mid-sentence in a victory message.
pub open spec fn spec_clean(s: Seq<char>) -> Seq<char> {
    spec_regex_replaced(
        " ?You can .*Mastodon.*this victory or "@,
        spec_regex_replaced(
            "You can .*Mastodon.* this puzzle.\\n"@,
            spec_unescape_entities(s),
            ""@,
        ),
        "\n"@,
    )
}

/// Whether `s` is free of all four entity escapes.
pub open spec fn spec_entity_clean(s: Seq<char>) -> bool {
    &&& !crate::text::spec_contains(s, "&#39;"@)
    &&& !crate::text::spec_contains(s, "&gt;"@)
    &&& !crate::text::spec_contains(s, "&lt;"@)
    &&& !crate::text::spec_contains(s, "&quot;"@)
}

/// Entity un-escaping is the identity on text that carries none of the
/// four escapes; in particular, applying it a second time to such text
/// changes nothing, so un-escaping is idempotent on already-clean text.
pub proof fn lemma_unescape_idempotent_on_clean(s: Seq<char>)
    requires
        spec_entity_clean(s),
    ensures
        spec_unescape_entities(s) == s,
        spec_unescape_entities(spec_unescape_entities(s)) == spec_unescape_entities(s),
{
    reveal_strlit("&#39;");
    reveal_strlit("&gt;");
    reveal_strlit("&lt;");
    reveal_strlit("&quot;");
    crate::text::lemma_replace_absent(s, "&#39;"@, "'"@);
    crate::text::lemma_replace_absent(s, "&gt;"@, ">"@);
    crate::text::lemma_replace_absent(s, "&lt;"@, "<"@);
    crate::text::lemma_replace_absent(s, "&quot;"@, "\""@);
}

/// Normalizes response text: un-escapes the four known entities, then
/// strips the two social-share boilerplate shapes. Fails only if one of
/// the two fixed boilerplate patterns is rejected by the regex engine.
pub fn clean_response(response: String) -> (r: Result<String, Error>)
    ensures
        r matches Ok(t) ==> t@ == spec_clean(response@),
        r.is_ok() == (spec_regex_pattern_ok("You can .*Mastodon.* this puzzle.\\n"@)
            && spec_regex_pattern_ok(" ?You can .*Mastodon.*this victory or "@)),
        r matches Err(e) ==> e is Template && e.spec_message()
            == "invalid boilerplate substitution pattern"@,
{
    proof {
        reveal_strlit("&#39;");
        reveal_strlit("&gt;");
        reveal_strlit("&lt;");
        reveal_strlit("&quot;");
    }
    let chars = str_to_chars(response.as_str());
    let c1 = replace_chars(&chars, &str_to_chars("&#39;"), &str_to_chars("'"));
    let c2 = replace_chars(&c1, &str_to_chars("&gt;"), &str_to_chars(">"));
    let c3 = replace_chars(&c2, &str_to_chars("&lt;"), &str_to_chars("<"));
    let c4 = replace_chars(&c3, &str_to_chars("&quot;"), &str_to_chars("\""));
    let unescaped = chars_to_string(&c4);
    match regex_replace_all(
        "You can .*Mastodon.* this puzzle.\\n",
        unescaped.as_str(),
        "",
    ) {
        None => Err(
            Error::Template {
                message: String::from_str("invalid boilerplate substitution pattern"),
            },
        ),
        Some(t1) => match regex_replace_all(
            " ?You can .*Mastodon.*this victory or ",
            t1.as_str(),
            "\n",
        ) {
            None => Err(
                Error::Template {
                    message: String::from_str("invalid boilerplate substitution pattern"),
                },
            ),
            Some(t2) => Ok(t2),
        },
    }
}

/// The first `<main>...</main>` region of a page: from the first
/// occurrence of the opening tag through the first occurrence of the
/// closing tag after it, both tags included. Absent when the opening tag
/// is missing, or no closing tag follows it.
pub open spec fn spec_main_region(s: Seq<char>) -> Option<Seq<char>> {
    match spec_find_from(s, "<main>"@, 0) {
        None => None,
        Some(i) => match spec_find_from(s, "</main>"@, i + "<main>"@.len()) {
            None => None,
            Some(j) => Some(s.subrange(i, j + "</main>"@.len())),
        },
    }
}

/// Extracts the first `<main>` region of a page and converts it to
/// lightweight markup. Fails with `MalformedPage` exactly when the region
/// is absent — the sign of a changed site layout or an invalid
/// credential.
pub fn parse_main(html: &str) -> (r: Result<String, Error>)
    ensures
        r matches Ok(t) ==> spec_main_region(html@) matches Some(region) && t@ == markup_of(
            region,
        ),
        r is Err <==> spec_main_region(html@) is None,
        r matches Err(e) ==> e is MalformedPage && e.spec_message()
            == "no <main> content region in the page"@,
{
    proof {
        reveal_strlit("<main>");
        reveal_strlit("</main>");
    }
    let chars = str_to_chars(html);
    let open_tag = str_to_chars("<main>");
    let close_tag = str_to_chars("</main>");
    let missing: &str = "no <main> content region in the page";
    let n: usize = chars.len();
    match find_from(&chars, &open_tag, 0) {
        None => Err(Error::MalformedPage { message: String::from_str(missing) }),
        Some(i) => {
            proof {
                lemma_find_from_bounds(html@, "<main>"@, 0);
                assert(chars@.len() == n as int);
                assert(i + 6 <= n);
            }
            match find_from(&chars, &close_tag, i + 6) {
                None => Err(Error::MalformedPage { message: String::from_str(missing) }),
                Some(j) => {
                    proof {
                        lemma_find_from_bounds(html@, "</main>"@, i + 6);
                        assert(j + 7 <= n);
                    }
                    let region = subvec(&chars, i, j + 7);
                    let region_str = chars_to_string(&region);
                    Ok(html_to_markup(region_str.as_str()))
                },
            }
        },
    }
}

/// Post-processes the body an HTTP client returned for a resolved request:
/// a puzzle input is returned verbatim, any other response is a page whose
/// `<main>` region is extracted and converted to markup.
pub fn process_response(req: &Request, body: String) -> (r: Result<String, Error>)
    ensures
        req is Input ==> (r matches Ok(t) && t@ == body@),
        !(req is Input) ==> {
            &&& (r matches Ok(t) ==> spec_main_region(body@) matches Some(region) && t@
                == markup_of(region))
            &&& (r is Err <==> spec_main_region(body@) is None)
            &&& (r matches Err(e) ==> e is MalformedPage)
        },
{
    match req {
        Request::Input { .. } => Ok(body),
        _ => parse_main(body.as_str()),
    }
}

} // verus!
