//! The fetch flow: rendering the per-language configuration, guessing the
//! sample input from a puzzle statement, planning idempotent writes, and
//! the step machine that sequences one fetch-and-write run.
//!
//! Network and file-system work happens outside the library: the machine
//! hands out one action at a time (perform this request, write this
//! content to these paths) and the driver feeds the outcome back in.

use crate::client::Request;
use crate::client::RequestPlan;
use crate::client::resolve_request;
use crate::client::spec_base_url;
use crate::error::Error;
use crate::template::Context;
use crate::template::CtxView;
use crate::template::TemplateFault;
use crate::template::spec_fault_message;
use crate::template::render;
use crate::template::spec_render;
use crate::text::chars_to_string;
use crate::text::spec_find_from;
use crate::text::spec_match_at;
use crate::text::find_from;
use crate::text::lemma_find_from_bounds;
use crate::text::match_at;
use crate::text::str_to_chars;
use crate::text::subvec;
use vstd::prelude::*;
use vstd::string::StringExecFns;

verus! {

/// A validated fetch request: the day, the requested year (0 for the
/// current one), and the language to scaffold for.
#[derive(Debug)]
pub struct FetchArgs {
    pub day: u32,
    pub year: u32,
    pub language: crate::template::Language,
}

/// The per-language configuration: the four lists of path templates.
#[derive(Debug)]
pub struct LangConfig {
    pub exec_file_paths: Vec<String>,
    pub input_file_paths: Vec<String>,
    pub test_input_file_paths: Vec<String>,
    pub readme_file_paths: Vec<String>,
}

/// A configuration rendered against a context: the solution-file body and
/// the four lists of concrete paths.
#[derive(Debug)]
pub struct MaterialisedConfig {
    pub template: String,
    pub exec_file_paths: Vec<String>,
    pub input_file_paths: Vec<String>,
    pub test_input_file_paths: Vec<String>,
    pub readme_file_paths: Vec<String>,
}

/// Every path template in the list rendered in order; the first failure,
/// if any, is the result.
pub open spec fn spec_materialise(paths: Seq<Seq<char>>, ctx: CtxView) -> Result<
    Seq<Seq<char>>,
    TemplateFault,
>
    decreases paths.len(),
{
    if paths.len() == 0 {
        Ok(Seq::empty())
    } else {
        match spec_render(paths[0], ctx) {
            Err(e) => Err(e),
            Ok(first) => match spec_materialise(paths.skip(1), ctx) {
                Err(e) => Err(e),
                Ok(rest) => Ok(seq![first] + rest),
            },
        }
    }
}

/// Renders every path template in a list against the context.
pub fn materialise_paths(paths: &Vec<String>, ctx: &Context) -> (r: Result<Vec<String>, Error>)
    ensures
        r is Ok <==> spec_materialise(paths.deep_view(), ctx@) is Ok,
        r matches Ok(v) ==> spec_materialise(paths.deep_view(), ctx@) == Ok::<
            _,
            TemplateFault,
        >(v.deep_view()),
        r matches Err(e) ==> e is Template && (spec_materialise(
            paths.deep_view(),
            ctx@,
        ) matches Err(f) && e.spec_message() == spec_fault_message(f)),
{
    let ghost dv = paths.deep_view();
    let mut out: Vec<String> = Vec::new();
    let mut k: usize = 0;
    proof {
        assert(dv.skip(0) =~= dv);
        assert(out.deep_view() =~= Seq::<Seq<char>>::empty());
        match spec_materialise(dv, ctx@) {
            Ok(whole) => {
                assert(Seq::<Seq<char>>::empty() + whole =~= whole);
            },
            Err(_) => {},
        }
    }
    while k < paths.len()
        invariant
            k <= paths.len(),
            dv == paths.deep_view(),
            dv.len() == paths.len(),
            spec_materialise(dv, ctx@) == (match spec_materialise(dv.skip(k as int), ctx@) {
                Ok(rest) => Ok::<Seq<Seq<char>>, TemplateFault>(out.deep_view() + rest),
                Err(e) => Err(e),
            }),
        decreases paths.len() - k,
    {
        let ghost old_out = out.deep_view();
        proof {
            assert(dv.skip(k as int).len() > 0);
            assert(dv.skip(k as int)[0] == dv[k as int]);
            assert(dv.skip(k as int).skip(1) =~= dv.skip(k as int + 1));
            assert(paths@[k as int].deep_view() == dv[k as int]);
        }
        match render(paths[k].as_str(), ctx) {
            Err(e) => {
                return Err(e);
            },
            Ok(p) => {
                out.push(p);
                k = k + 1;
                proof {
                    assert(out.deep_view() =~= old_out.push(p@));
                    match spec_materialise(dv.skip(k as int), ctx@) {
                        Ok(rest) => {
                            assert(old_out + (seq![p@] + rest) =~= old_out.push(p@) + rest);
                        },
                        Err(_) => {},
                    }
                }
            },
        }
    }
    proof {
        assert(dv.skip(paths.len() as int) =~= Seq::<Seq<char>>::empty());
        assert(spec_materialise(Seq::<Seq<char>>::empty(), ctx@) == Ok::<
            Seq<Seq<char>>,
            TemplateFault,
        >(Seq::empty()));
        assert(out.deep_view() + Seq::<Seq<char>>::empty() =~= out.deep_view());
    }
    Ok(out)
}

/// The first fault, if any, in rendering a whole configuration: the
/// solution-file template first, then the exec, test-input, input and
/// readme path lists, in the order they are rendered.
pub open spec fn spec_config_fault(
    config: LangConfig,
    exec_template: Seq<char>,
    ctx: CtxView,
) -> Option<TemplateFault> {
    match spec_render(exec_template, ctx) {
        Err(f) => Some(f),
        Ok(_) => match spec_materialise(config.exec_file_paths.deep_view(), ctx) {
            Err(f) => Some(f),
            Ok(_) => match spec_materialise(config.test_input_file_paths.deep_view(), ctx) {
                Err(f) => Some(f),
                Ok(_) => match spec_materialise(config.input_file_paths.deep_view(), ctx) {
                    Err(f) => Some(f),
                    Ok(_) => match spec_materialise(
                        config.readme_file_paths.deep_view(),
                        ctx,
                    ) {
                        Err(f) => Some(f),
                        Ok(_) => None,
                    },
                },
            },
        },
    }
}

/// Renders the whole configuration: the solution-file template body and
/// the four path lists, each against the same context. Succeeds exactly
/// when every template renders; a failure reports the first fault.
pub fn materialise_config(config: &LangConfig, exec_template: &str, ctx: &Context) -> (r: Result<
    MaterialisedConfig,
    Error,
>)
    ensures
        r is Ok <==> (spec_render(exec_template@, ctx@) is Ok && spec_materialise(
            config.exec_file_paths.deep_view(),
            ctx@,
        ) is Ok && spec_materialise(config.test_input_file_paths.deep_view(), ctx@) is Ok
            && spec_materialise(config.input_file_paths.deep_view(), ctx@) is Ok
            && spec_materialise(config.readme_file_paths.deep_view(), ctx@) is Ok),
        r matches Ok(mc) ==> (spec_render(exec_template@, ctx@) == Ok::<_, TemplateFault>(
            mc.template@,
        ) && spec_materialise(config.exec_file_paths.deep_view(), ctx@) == Ok::<
            _,
            TemplateFault,
        >(mc.exec_file_paths.deep_view()) && spec_materialise(
            config.test_input_file_paths.deep_view(),
            ctx@,
        ) == Ok::<_, TemplateFault>(mc.test_input_file_paths.deep_view()) && spec_materialise(
            config.input_file_paths.deep_view(),
            ctx@,
        ) == Ok::<_, TemplateFault>(mc.input_file_paths.deep_view()) && spec_materialise(
            config.readme_file_paths.deep_view(),
            ctx@,
        ) == Ok::<_, TemplateFault>(mc.readme_file_paths.deep_view())),
        r matches Err(e) ==> e is Template && (spec_config_fault(
            *config,
            exec_template@,
            ctx@,
        ) matches Some(f) && e.spec_message() == spec_fault_message(f)),
{
    let template = match render(exec_template, ctx) {
        Ok(t) => t,
        Err(e) => { return Err(e) },
    };
    let exec_file_paths = match materialise_paths(&config.exec_file_paths, ctx) {
        Ok(v) => v,
        Err(e) => { return Err(e) },
    };
    let test_input_file_paths = match materialise_paths(&config.test_input_file_paths, ctx) {
        Ok(v) => v,
        Err(e) => { return Err(e) },
    };
    let input_file_paths = match materialise_paths(&config.input_file_paths, ctx) {
        Ok(v) => v,
        Err(e) => { return Err(e) },
    };
    let readme_file_paths = match materialise_paths(&config.readme_file_paths, ctx) {
        Ok(v) => v,
        Err(e) => { return Err(e) },
    };
    Ok(
        MaterialisedConfig {
            template,
            exec_file_paths,
            input_file_paths,
            test_input_file_paths,
            readme_file_paths,
        },
    )
}

/// An opening fence: three backticks followed by a newline, standing at
/// the start of the document or of a line.
pub open spec fn spec_fence_at(s: Seq<char>, q: int) -> bool {
    spec_match_at(s, "```\n"@, q) && (q == 0 || s[q - 1] == '\n')
}

/// The least position `>= from` of an opening fence, if any.
pub open spec fn spec_find_fence(s: Seq<char>, from: int) -> Option<int>
    decreases s.len() - from + 1,
{
    if from < 0 || from + 4 > s.len() {
        None
    } else if spec_fence_at(s, from) {
        Some(from)
    } else {
        spec_find_fence(s, from + 1)
    }
}

pub proof fn lemma_find_fence_bounds(s: Seq<char>, from: int)
    ensures
        spec_find_fence(s, from) matches Some(q) ==> from <= q && spec_fence_at(s, q),
    decreases s.len() - from + 1,
{
    if !(from < 0 || from + 4 > s.len()) && !spec_fence_at(s, from) {
        lemma_find_fence_bounds(s, from + 1);
    }
}

/// The least position `>= from` of an opening fence, if any.
fn find_fence(s: &Vec<char>, from: usize) -> (r: Option<usize>)
    ensures
        r matches Some(q) ==> spec_find_fence(s@, from as int) == Some(q as int),
        r is None ==> spec_find_fence(s@, from as int) is None,
{
    proof {
        reveal_strlit("```\n");
    }
    let pat = str_to_chars("```\n");
    if s.len() < 4 || from > s.len() - 4 {
        return None;
    }
    let mut q: usize = from;
    while q <= s.len() - 4
        invariant
            from <= q,
            4 <= s@.len(),
            q <= s@.len() - 4 + 1,
            pat@ == "```\n"@,
            "```\n"@.len() == 4,
            spec_find_fence(s@, from as int) == spec_find_fence(s@, q as int),
        decreases s@.len() + 1 - q,
    {
        let tag_here = match_at(s, &pat, q);
        let line_start = q == 0 || s[q - 1] == '\n';
        if tag_here && line_start {
            return Some(q);
        }
        q = q + 1;
    }
    None
}

/// The fenced code blocks of a document, scanning from position `p`: each
/// block opens at the next fence that begins a line and closes at the
/// earliest `` \n``` `` after it; scanning resumes past the closing fence.
/// A dangling opening fence yields no further blocks.
pub open spec fn spec_code_blocks_from(s: Seq<char>, p: int) -> Seq<Seq<char>>
    decreases s.len() - p,
    via spec_code_blocks_from_decreases
{
    match spec_find_fence(s, p) {
        None => Seq::empty(),
        Some(q) => match spec_find_from(s, "\n```"@, q + 4) {
            None => Seq::empty(),
            Some(e) => seq![s.subrange(q + 4, e)] + spec_code_blocks_from(s, e + 4),
        },
    }
}

#[via_fn]
proof fn spec_code_blocks_from_decreases(s: Seq<char>, p: int) {
    reveal_strlit("```\n");
    reveal_strlit("\n```");
    lemma_find_fence_bounds(s, p);
    match spec_find_fence(s, p) {
        Some(q) => lemma_find_from_bounds(s, "\n```"@, q + 4),
        None => (),
    }
}

pub open spec fn spec_code_blocks(s: Seq<char>) -> Seq<Seq<char>> {
    spec_code_blocks_from(s, 0)
}

/// The longest block, later blocks winning ties.
pub open spec fn spec_pick_longest(blocks: Seq<Seq<char>>) -> Option<Seq<char>>
    decreases blocks.len(),
{
    if blocks.len() == 0 {
        None
    } else {
        match spec_pick_longest(blocks.drop_last()) {
            None => Some(blocks.last()),
            Some(b) => if blocks.last().len() >= b.len() {
                Some(blocks.last())
            } else {
                Some(b)
            },
        }
    }
}

/// The pick is one of the blocks, and no block is longer.
pub proof fn lemma_pick_longest_is_max(blocks: Seq<Seq<char>>)
    ensures
        spec_pick_longest(blocks) is Some <==> blocks.len() > 0,
        spec_pick_longest(blocks) matches Some(b) ==> blocks.contains(b) && (forall|i: int|
            0 <= i < blocks.len() ==> blocks[i].len() <= b.len()),
    decreases blocks.len(),
{
    if blocks.len() > 0 {
        lemma_pick_longest_is_max(blocks.drop_last());
        let b = spec_pick_longest(blocks)->0;
        assert(blocks.last() == blocks[blocks.len() - 1]);
        match spec_pick_longest(blocks.drop_last()) {
            None => {
                assert(blocks.len() == 1);
            },
            Some(prev) => {
                assert(blocks.drop_last().contains(prev));
                let wi = choose|i: int|
                    0 <= i < blocks.drop_last().len() && blocks.drop_last()[i] == prev;
                assert(blocks[wi] == prev);
                assert forall|i: int| 0 <= i < blocks.len() implies blocks[i].len()
                    <= b.len() by {
                    if i < blocks.len() - 1 {
                        assert(blocks.drop_last()[i] == blocks[i]);
                    }
                }
            },
        }
    }
}

/// Scans a statement's markup for fenced code blocks and returns the
/// longest one — the presumed worked example — or nothing when the
/// document has no fenced block.
pub fn guess_test_input(markup: &str) -> (r: Option<String>)
    ensures
        r is Some <==> spec_code_blocks(markup@).len() > 0,
        r matches Some(t) ==> spec_pick_longest(spec_code_blocks(markup@)) == Some(t@),
{
    let chars = str_to_chars(markup);
    let close_fence = str_to_chars("\n```");
    proof {
        reveal_strlit("```\n");
        reveal_strlit("\n```");
    }
    let n: usize = chars.len();
    let mut p: usize = 0;
    let mut best: Option<Vec<char>> = None;
    let ghost mut seen: Seq<Seq<char>> = Seq::empty();
    loop
        invariant
            p <= n,
            n == chars@.len(),
            chars@ == markup@,
            close_fence@ == "\n```"@,
            "```\n"@.len() == 4,
            "\n```"@.len() == 4,
            spec_code_blocks(markup@) == seen + spec_code_blocks_from(markup@, p as int),
            best is Some <==> seen.len() > 0,
            best matches Some(b) ==> spec_pick_longest(seen) == Some(b@),
        ensures
            spec_code_blocks(markup@) == seen,
            best is Some <==> seen.len() > 0,
            best matches Some(b) ==> spec_pick_longest(seen) == Some(b@),
        decreases n - p,
    {
        let q = match find_fence(&chars, p) {
            Some(q) => q,
            None => {
                proof {
                    assert(seen + spec_code_blocks_from(markup@, p as int) =~= seen);
                }
                break ;
            },
        };
        proof {
            lemma_find_fence_bounds(markup@, p as int);
        }
        let e = match find_from(&chars, &close_fence, q + 4) {
            Some(e) => e,
            None => {
                proof {
                    assert(seen + spec_code_blocks_from(markup@, p as int) =~= seen);
                }
                break ;
            },
        };
        proof {
            lemma_find_from_bounds(markup@, "\n```"@, q as int + 4);
        }
        let blk = subvec(&chars, q + 4, e);
        let ghost old_seen = seen;
        proof {
            seen = seen.push(markup@.subrange(q as int + 4, e as int));
            assert(seen.drop_last() =~= old_seen);
            assert(seen.last() == blk@);
        }
        let replace = match &best {
            None => true,
            Some(b) => blk.len() >= b.len(),
        };
        if replace {
            best = Some(blk);
        }
        p = e + 4;
        proof {
            assert(seen + spec_code_blocks_from(markup@, p as int) =~= old_seen + (seq![
                markup@.subrange(q as int + 4, e as int),
            ] + spec_code_blocks_from(markup@, p as int)));
        }
    }
    match best {
        None => None,
        Some(b) => Some(chars_to_string(&b)),
    }
}

/// The paths a batch write would create: those whose destination does not
/// yet exist, in order. An existing destination is skipped, never
/// overwritten.
pub open spec fn spec_write_plan(paths: Seq<Seq<char>>, existing: Seq<bool>) -> Seq<Seq<char>>
    decreases paths.len(),
{
    if paths.len() == 0 {
        Seq::empty()
    } else if existing[0] {
        spec_write_plan(paths.skip(1), existing.skip(1))
    } else {
        seq![paths[0]] + spec_write_plan(paths.skip(1), existing.skip(1))
    }
}

/// Plans one batch write: given the destination paths and, for each,
/// whether it already exists on disk, returns exactly the paths to write,
/// in order.
pub fn plan_writes(paths: &Vec<String>, existing: &Vec<bool>) -> (r: Vec<String>)
    requires
        paths@.len() == existing@.len(),
    ensures
        r.deep_view() == spec_write_plan(paths.deep_view(), existing@),
{
    let ghost dv = paths.deep_view();
    let mut out: Vec<String> = Vec::new();
    let mut k: usize = 0;
    proof {
        assert(dv.skip(0) =~= dv);
        assert(existing@.skip(0) =~= existing@);
        assert(out.deep_view() + spec_write_plan(dv, existing@) =~= spec_write_plan(
            dv,
            existing@,
        ));
    }
    while k < paths.len()
        invariant
            k <= paths.len(),
            paths@.len() == existing@.len(),
            dv == paths.deep_view(),
            dv.len() == paths.len(),
            spec_write_plan(dv, existing@) == out.deep_view() + spec_write_plan(
                dv.skip(k as int),
                existing@.skip(k as int),
            ),
        decreases paths.len() - k,
    {
        let ghost old_out = out.deep_view();
        proof {
            assert(dv.skip(k as int)[0] == dv[k as int]);
            assert(existing@.skip(k as int)[0] == existing@[k as int]);
            assert(dv.skip(k as int).skip(1) =~= dv.skip(k as int + 1));
            assert(existing@.skip(k as int).skip(1) =~= existing@.skip(k as int + 1));
            assert(paths@[k as int].deep_view() == dv[k as int]);
        }
        if !existing[k] {
            out.push(paths[k].clone());
            proof {
                assert(out.deep_view() =~= old_out.push(dv[k as int]));
                assert(old_out + (seq![dv[k as int]] + spec_write_plan(
                    dv.skip(k as int + 1),
                    existing@.skip(k as int + 1),
                )) =~= old_out.push(dv[k as int]) + spec_write_plan(
                    dv.skip(k as int + 1),
                    existing@.skip(k as int + 1),
                ));
            }
        }
        k = k + 1;
    }
    proof {
        assert(dv.skip(paths.len() as int) =~= Seq::<Seq<char>>::empty());
        assert(existing@.skip(paths.len() as int) =~= Seq::<bool>::empty());
        assert(out.deep_view() + Seq::<Seq<char>>::empty() =~= out.deep_view());
    }
    out
}

/// A batch write never touches an existing destination: every path in the
/// plan is one of the given paths whose existence flag was false.
pub proof fn lemma_plan_never_overwrites(paths: Seq<Seq<char>>, existing: Seq<bool>)
    requires
        paths.len() == existing.len(),
    ensures
        forall|k: int|
            #![trigger spec_write_plan(paths, existing)[k]]
            0 <= k < spec_write_plan(paths, existing).len() ==> (exists|i: int|
                0 <= i < paths.len() && !existing[i] && spec_write_plan(paths, existing)[k]
                    == #[trigger] paths[i]),
    decreases paths.len(),
{
    if paths.len() > 0 {
        lemma_plan_never_overwrites(paths.skip(1), existing.skip(1));
        let plan = spec_write_plan(paths, existing);
        let rest = spec_write_plan(paths.skip(1), existing.skip(1));
        assert forall|k: int| #![trigger plan[k]] 0 <= k < plan.len() implies (exists|i: int|
            0 <= i < paths.len() && !existing[i] && plan[k] == #[trigger] paths[i]) by {
            if existing[0] {
                assert(plan == rest);
                let i0 = choose|i: int|
                    0 <= i < paths.skip(1).len() && !existing.skip(1)[i] && rest[k] == paths.skip(
                        1,
                    )[i];
                assert(!existing[i0 + 1] && plan[k] == paths[i0 + 1]);
            } else {
                if k == 0 {
                    assert(plan[0] == paths[0] && !existing[0]);
                } else {
                    assert(plan[k] == rest[k - 1]);
                    let i0 = choose|i: int|
                        0 <= i < paths.skip(1).len() && !existing.skip(1)[i] && rest[k - 1]
                            == paths.skip(1)[i];
                    assert(!existing[i0 + 1] && plan[k] == paths[i0 + 1]);
                }
            }
        }
    }
}

/// What the driver must do next: perform an HTTP request, write content
/// to destination paths (skipping those that exist), or stop.
#[derive(Debug)]
pub enum FetchAction {
    Http(RequestPlan),
    Write { content: String, paths: Vec<String> },
    Done,
}

/// What the driver reports back: the body of a completed request, or that
/// a batch write finished.
pub enum FetchEvent {
    GotResponse(String),
    Wrote,
}

/// Where a fetch-and-write run stands: which outcome it is waiting for.
#[derive(Debug)]
pub enum FetchStage {
    AwaitInputResponse,
    AwaitInputWritten,
    AwaitPageResponse,
    AwaitReadmeWritten,
    AwaitTestInputWritten,
    AwaitExecWritten,
    Finished,
}

/// One fetch-and-write run in progress.
#[derive(Debug)]
pub struct FetchState {
    pub ctx: Context,
    pub config: MaterialisedConfig,
    pub readme_template: String,
    pub readme: String,
    pub stage: FetchStage,
}

/// The context a fetch run renders against, before the statement arrives.
pub open spec fn spec_fetch_ctx(day: int, year: int, language: crate::template::Language) -> CtxView {
    CtxView {
        n: crate::template::spec_padded_day(day),
        day,
        year,
        problem_statement: Seq::empty(),
        language,
    }
}

/// Whether a whole configuration renders against a context.
pub open spec fn spec_config_ok(
    config: LangConfig,
    exec_template: Seq<char>,
    ctx: CtxView,
) -> bool {
    &&& spec_render(exec_template, ctx) is Ok
    &&& spec_materialise(config.exec_file_paths.deep_view(), ctx) is Ok
    &&& spec_materialise(config.test_input_file_paths.deep_view(), ctx) is Ok
    &&& spec_materialise(config.input_file_paths.deep_view(), ctx) is Ok
    &&& spec_materialise(config.readme_file_paths.deep_view(), ctx) is Ok
}

/// Which event a stage is waiting for.
pub open spec fn spec_step_expects(stage: FetchStage, ev: FetchEvent) -> bool {
    match (stage, ev) {
        (FetchStage::AwaitInputResponse, FetchEvent::GotResponse(_)) => true,
        (FetchStage::AwaitInputWritten, FetchEvent::Wrote) => true,
        (FetchStage::AwaitPageResponse, FetchEvent::GotResponse(_)) => true,
        (FetchStage::AwaitReadmeWritten, FetchEvent::Wrote) => true,
        (FetchStage::AwaitTestInputWritten, FetchEvent::Wrote) => true,
        (FetchStage::AwaitExecWritten, FetchEvent::Wrote) => true,
        _ => false,
    }
}

/// Whether a stage accepts an event; drivers outside the library test
/// this before stepping the machine.
pub fn step_expects(stage: &FetchStage, ev: &FetchEvent) -> (r: bool)
    ensures
        r == spec_step_expects(*stage, *ev),
{
    match (stage, ev) {
        (FetchStage::AwaitInputResponse, FetchEvent::GotResponse(_)) => true,
        (FetchStage::AwaitInputWritten, FetchEvent::Wrote) => true,
        (FetchStage::AwaitPageResponse, FetchEvent::GotResponse(_)) => true,
        (FetchStage::AwaitReadmeWritten, FetchEvent::Wrote) => true,
        (FetchStage::AwaitTestInputWritten, FetchEvent::Wrote) => true,
        (FetchStage::AwaitExecWritten, FetchEvent::Wrote) => true,
        _ => false,
    }
}

fn clone_string_vec(v: &Vec<String>) -> (r: Vec<String>)
    ensures
        r@ == v@,
{
    let mut r: Vec<String> = Vec::new();
    let mut k: usize = 0;
    while k < v.len()
        invariant
            k <= v.len(),
            r@ == v@.take(k as int),
        decreases v.len() - k,
    {
        r.push(v[k].clone());
        k = k + 1;
        assert(r@ =~= v@.take(k as int));
    }
    assert(v@.take(v.len() as int) =~= v@);
    r
}

/// Starts one fetch-and-write run as a pure function of the arguments,
/// the current instant and the current year: validates the year, checks
/// the unlock gate, renders the configuration, and hands out the first
/// action — fetching the day's real puzzle input. Drive the run by
/// performing each action and feeding the outcome to `fetch_step` until
/// `Done`.
pub fn fetch_start(
    args: FetchArgs,
    now: crate::time::Instant,
    current_year: u32,
    config: &LangConfig,
    exec_template: &str,
    readme_template: &str,
) -> (r: Result<(FetchState, FetchAction), Error>)
    requires
        now.wf(),
        1 <= args.day <= 25,
        2015 <= current_year <= 9999,
    ensures
        ({
            let vy = crate::time::spec_validate_year(args.year as int, current_year as int);
            let y = vy->0;
            let cv = spec_fetch_ctx(args.day as int, y, args.language);
            &&& (vy is None ==> (r matches Err(e) && e is Configuration && e.spec_message()
                == crate::time::spec_year_error_message(current_year as int)))
            &&& ((vy is Some && now.total_ns() < crate::time::spec_unlock_ns(
                y,
                args.day as int,
            )) ==> (r matches Err(e) && e is Locked && e.spec_message()
                == crate::time::spec_locked_message(now, y, args.day as int)))
            &&& ((vy is Some && now.total_ns() >= crate::time::spec_unlock_ns(
                y,
                args.day as int,
            )) ==> {
                &&& (r is Ok <==> spec_config_ok(*config, exec_template@, cv))
                &&& (r matches Err(e) ==> e is Template && (spec_config_fault(
                    *config,
                    exec_template@,
                    cv,
                ) matches Some(f) && e.spec_message() == spec_fault_message(f)))
                &&& (r matches Ok(p) ==> {
                    &&& p.0.ctx@ == cv
                    &&& spec_render(exec_template@, cv) == Ok::<_, TemplateFault>(
                        p.0.config.template@,
                    )
                    &&& spec_materialise(config.exec_file_paths.deep_view(), cv) == Ok::<
                        _,
                        TemplateFault,
                    >(p.0.config.exec_file_paths.deep_view())
                    &&& spec_materialise(config.input_file_paths.deep_view(), cv) == Ok::<
                        _,
                        TemplateFault,
                    >(p.0.config.input_file_paths.deep_view())
                    &&& spec_materialise(config.test_input_file_paths.deep_view(), cv) == Ok::<
                        _,
                        TemplateFault,
                    >(p.0.config.test_input_file_paths.deep_view())
                    &&& spec_materialise(config.readme_file_paths.deep_view(), cv) == Ok::<
                        _,
                        TemplateFault,
                    >(p.0.config.readme_file_paths.deep_view())
                    &&& p.0.readme_template@ == readme_template@
                    &&& p.0.readme@.len() == 0
                    &&& p.0.stage is AwaitInputResponse
                    &&& (p.1 matches FetchAction::Http(plan) && plan.method is Get && plan.url@
                        == spec_base_url(y, args.day as int) + "/input"@ && !plan.extract_main)
                })
            })
        }),
{
    let year = match crate::time::validate_year_with(args.year, current_year) {
        Ok(y) => y,
        Err(e) => { return Err(e) },
    };
    match crate::time::error_if_time_before_problem_unlock(now, year, args.day) {
        Ok(()) => (),
        Err(e) => { return Err(e) },
    }
    let ctx = Context::new(args.day, year, args.language);
    proof {
        assert(ctx@ =~= spec_fetch_ctx(args.day as int, year as int, args.language));
    }
    let mc = match materialise_config(config, exec_template, &ctx) {
        Ok(m) => m,
        Err(e) => { return Err(e) },
    };
    let plan = resolve_request(Request::Input { year, day: args.day });
    let state = FetchState {
        ctx,
        config: mc,
        readme_template: String::from_str(readme_template),
        readme: String::new(),
        stage: FetchStage::AwaitInputResponse,
    };
    Ok((state, FetchAction::Http(plan)))
}

/// Advances a fetch-and-write run by one step, given the outcome of the
/// previous action. The sequence is fixed: write the fetched input, fetch
/// the statement page, extract and clean it into the readme, write the
/// readme, write the guessed sample input (or an empty placeholder), and
/// finally write the rendered solution file.
pub fn fetch_step(st: FetchState, ev: FetchEvent) -> (r: Result<(FetchState, FetchAction), Error>)
    requires
        spec_step_expects(st.stage, ev),
    ensures
        st.stage is AwaitInputResponse ==> (ev matches FetchEvent::GotResponse(body)
            && r matches Ok(p) && p.0.ctx == st.ctx && p.0.config == st.config
            && p.0.readme_template == st.readme_template && p.0.readme == st.readme
            && p.0.stage is AwaitInputWritten && (p.1 matches FetchAction::Write {
            content,
            paths,
        } && content@ == body@ && paths@ == st.config.input_file_paths@)),
        st.stage is AwaitInputWritten ==> (r matches Ok(p) && p.0.ctx == st.ctx && p.0.config
            == st.config && p.0.readme_template == st.readme_template && p.0.readme == st.readme
            && p.0.stage is AwaitPageResponse && (p.1 matches FetchAction::Http(plan)
            && plan.method is Get && plan.url@ == spec_base_url(
            st.ctx@.year,
            st.ctx@.day,
        ) && plan.extract_main)),
        st.stage is AwaitPageResponse ==> (ev matches FetchEvent::GotResponse(body) && ({
            let region = crate::client::spec_main_region(body@);
            let cv2 = CtxView {
                problem_statement: crate::client::markup_of(region->0),
                ..st.ctx@
            };
            let rendered = spec_render(st.readme_template@, cv2);
            &&& (region is None ==> (r matches Err(e) && e is MalformedPage))
            &&& ((region is Some && rendered is Err) ==> (r matches Err(e) && e is Template
                && e.spec_message() == spec_fault_message(rendered->Err_0)))
            &&& ((region is Some && rendered is Ok) ==> {
                let rend = rendered->Ok_0;
                &&& (r is Ok <==> (crate::client::spec_regex_pattern_ok(
                    "You can .*Mastodon.* this puzzle.\\n"@,
                ) && crate::client::spec_regex_pattern_ok(
                    " ?You can .*Mastodon.*this victory or "@,
                )))
                &&& (r matches Err(e) ==> e is Template && e.spec_message()
                    == "invalid boilerplate substitution pattern"@)
                &&& (r matches Ok(p) ==> (p.0.ctx@ == cv2 && p.0.config == st.config
                    && p.0.readme_template == st.readme_template && p.0.readme@
                    == crate::client::spec_clean(rend) && p.0.stage is AwaitReadmeWritten && (
                p.1 matches FetchAction::Write { content, paths } && content@
                    == crate::client::spec_clean(rend) && paths@
                    == st.config.readme_file_paths@)))
            })
        })),
        st.stage is AwaitReadmeWritten ==> (r matches Ok(p) && p.0.ctx == st.ctx && p.0.config
            == st.config && p.0.readme_template == st.readme_template && p.0.readme == st.readme
            && p.0.stage is AwaitTestInputWritten && (p.1 matches FetchAction::Write {
            content,
            paths,
        } && content@ == (match spec_pick_longest(spec_code_blocks(st.readme@)) {
            Some(b) => b,
            None => Seq::<char>::empty(),
        }) && paths@ == st.config.test_input_file_paths@)),
        st.stage is AwaitTestInputWritten ==> (r matches Ok(p) && p.0.ctx == st.ctx && p.0.config
            == st.config && p.0.readme_template == st.readme_template && p.0.readme == st.readme
            && p.0.stage is AwaitExecWritten && (p.1 matches FetchAction::Write {
            content,
            paths,
        } && content@ == st.config.template@ && paths@ == st.config.exec_file_paths@)),
        st.stage is AwaitExecWritten ==> (r matches Ok(p) && p.0.ctx == st.ctx && p.0.config
            == st.config && p.0.readme_template == st.readme_template && p.0.readme == st.readme
            && p.0.stage is Finished && p.1 is Done),
{
    let FetchState { mut ctx, config, readme_template, readme, stage } = st;
    match stage {
        FetchStage::AwaitInputResponse => {
            let body = match ev {
                FetchEvent::GotResponse(b) => b,
                FetchEvent::Wrote => vstd::pervasive::unreached(),
            };
            let paths = clone_string_vec(&config.input_file_paths);
            let state = FetchState {
                ctx,
                config,
                readme_template,
                readme,
                stage: FetchStage::AwaitInputWritten,
            };
            Ok((state, FetchAction::Write { content: body, paths }))
        },
        FetchStage::AwaitInputWritten => {
            let plan = resolve_request(
                Request::ProblemPage { year: ctx.year, day: ctx.day },
            );
            let state = FetchState {
                ctx,
                config,
                readme_template,
                readme,
                stage: FetchStage::AwaitPageResponse,
            };
            Ok((state, FetchAction::Http(plan)))
        },
        FetchStage::AwaitPageResponse => {
            let body = match ev {
                FetchEvent::GotResponse(b) => b,
                FetchEvent::Wrote => vstd::pervasive::unreached(),
            };
            let markup = match crate::client::parse_main(body.as_str()) {
                Ok(m) => m,
                Err(e) => { return Err(e) },
            };
            ctx.problem_statement = markup;
            let rendered = match render(readme_template.as_str(), &ctx) {
                Ok(t) => t,
                Err(e) => { return Err(e) },
            };
            let cleaned = match crate::client::clean_response(rendered) {
                Ok(t) => t,
                Err(e) => { return Err(e) },
            };
            let paths = clone_string_vec(&config.readme_file_paths);
            let content = cleaned.clone();
            let state = FetchState {
                ctx,
                config,
                readme_template,
                readme: cleaned,
                stage: FetchStage::AwaitReadmeWritten,
            };
            Ok((state, FetchAction::Write { content, paths }))
        },
        FetchStage::AwaitReadmeWritten => {
            let content = match guess_test_input(readme.as_str()) {
                Some(t) => t,
                None => String::new(),
            };
            let paths = clone_string_vec(&config.test_input_file_paths);
            let state = FetchState {
                ctx,
                config,
                readme_template,
                readme,
                stage: FetchStage::AwaitTestInputWritten,
            };
            Ok((state, FetchAction::Write { content, paths }))
        },
        FetchStage::AwaitTestInputWritten => {
            let content = config.template.clone();
            let paths = clone_string_vec(&config.exec_file_paths);
            let state = FetchState {
                ctx,
                config,
                readme_template,
                readme,
                stage: FetchStage::AwaitExecWritten,
            };
            Ok((state, FetchAction::Write { content, paths }))
        },
        FetchStage::AwaitExecWritten => {
            let state = FetchState {
                ctx,
                config,
                readme_template,
                readme,
                stage: FetchStage::Finished,
            };
            Ok((state, FetchAction::Done))
        },
        FetchStage::Finished => vstd::pervasive::unreached(),
    }
}

/// The fetch flow against the system clock: reads the current year and
/// instant once, then starts the run as `fetch_start` does. The guard on
/// the clock's year stands in for the calendar's representation limits; a
/// sane clock never trips it.
pub fn fetch_and_write(
    args: FetchArgs,
    config: &LangConfig,
    exec_template: &str,
    readme_template: &str,
) -> (r: Result<(FetchState, FetchAction), Error>)
    requires
        1 <= args.day <= 25,
    ensures
        r matches Ok(p) ==> (p.0.stage is AwaitInputResponse && p.0.readme_template@
            == readme_template@ && (p.1 matches FetchAction::Http(plan) && plan.method is Get
            && !plan.extract_main)),
{
    let current_year = crate::time::clock_year();
    if current_year < 2015 || current_year > 9999 {
        return Err(
            Error::Configuration {
                message: String::from_str("system clock year out of the supported range"),
            },
        );
    }
    let now = crate::time::now_instant();
    fetch_start(args, now, current_year, config, exec_template, readme_template)
}

/// The resolved request whose execution returns the day's real puzzle
/// input, verbatim.
pub fn fetch_real_input(ctx: &Context) -> (r: RequestPlan)
    ensures
        r.method is Get,
        r.url@ == spec_base_url(ctx@.year, ctx@.day) + "/input"@,
        !r.extract_main,
        r.form@.len() == 0,
{
    resolve_request(Request::Input { year: ctx.year, day: ctx.day })
}

} // verus!
