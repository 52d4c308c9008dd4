//! Rendering templates against the per-day context.
//!
//! A template is plain text with placeholders of the form `{name}`, where
//! `name` is one of the context's fields: `day`, `year`, `n` (the
//! zero-padded day number), `problem_statement`, or `language`. Rendering
//! substitutes each placeholder's value; a placeholder that names no field,
//! or an opening brace with no closing brace after it, is a template error
//! reported at render time.

use crate::error::Error;
use crate::text::chars_to_string;
use crate::text::chars_eq;
use crate::text::spec_dec;
use crate::text::spec_find_from;
use crate::text::find_from;
use crate::text::lemma_find_from_bounds;
use crate::text::push_all;
use crate::text::str_to_chars;
use crate::text::subvec;
use crate::text::u64_to_string;
use vstd::prelude::*;
use vstd::string::StringExecFns;

verus! {

/// The language a day's solution file is scaffolded for.
#[derive(Clone, Copy, Debug, PartialEq, Eq, Structural)]
pub enum Language {
    JS,
    Python,
    Rust,
}

pub open spec fn spec_language_name(l: Language) -> Seq<char> {
    match l {
        Language::JS => "JS"@,
        Language::Python => "Python"@,
        Language::Rust => "Rust"@,
    }
}

pub fn language_name(l: Language) -> (r: String)
    ensures
        r@ == spec_language_name(l),
{
    match l {
        Language::JS => String::from_str("JS"),
        Language::Python => String::from_str("Python"),
        Language::Rust => String::from_str("Rust"),
    }
}

/// The per-day rendering context. `n` is the zero-padded day number;
/// `problem_statement` starts empty and is filled once the statement has
/// been fetched and converted.
#[derive(Debug)]
pub struct Context {
    pub n: String,
    pub day: u32,
    pub year: u32,
    pub problem_statement: String,
    pub language: Language,
}

/// The mathematical content of a context: what rendering depends on.
#[verifier::ext_equal]
pub struct CtxView {
    pub n: Seq<char>,
    pub day: int,
    pub year: int,
    pub problem_statement: Seq<char>,
    pub language: Language,
}

impl View for Context {
    type V = CtxView;

    open spec fn view(&self) -> CtxView {
        CtxView {
            n: self.n@,
            day: self.day as int,
            year: self.year as int,
            problem_statement: self.problem_statement@,
            language: self.language,
        }
    }
}

/// The day number padded to two digits.
pub open spec fn spec_padded_day(day: int) -> Seq<char> {
    if day < 10 {
        seq!['0'] + spec_dec(day)
    } else {
        spec_dec(day)
    }
}

impl Context {
    /// A fresh context with an empty problem statement.
    pub fn new(day: u32, year: u32, language: Language) -> (r: Context)
        ensures
            r.day == day,
            r.year == year,
            r.language == language,
            r.n@ == spec_padded_day(day as int),
            r.problem_statement@.len() == 0,
    {
        proof {
            reveal_strlit("0");
            assert("0"@ =~= seq!['0']);
        }
        let n = if day < 10 {
            String::from_str("0").concat(u64_to_string(day as u64).as_str())
        } else {
            u64_to_string(day as u64)
        };
        Context { n, day, year, problem_statement: String::new(), language }
    }
}

/// The value a placeholder name denotes in a context, if any.
pub open spec fn spec_field_value(ctx: CtxView, name: Seq<char>) -> Option<Seq<char>> {
    if name == "day"@ {
        Some(spec_dec(ctx.day))
    } else if name == "year"@ {
        Some(spec_dec(ctx.year))
    } else if name == "n"@ {
        Some(ctx.n)
    } else if name == "problem_statement"@ {
        Some(ctx.problem_statement)
    } else if name == "language"@ {
        Some(spec_language_name(ctx.language))
    } else {
        None
    }
}

/// Why a template failed to render.
pub enum TemplateFault {
    /// An opening brace with no closing brace after it.
    Unclosed,
    /// A placeholder naming no context field.
    Unknown { name: Seq<char> },
}

/// The rendering of the tail of `t` that starts at `pos`: literal text,
/// with each placeholder's value in its place, and `\\{` standing for a
/// literal opening brace.
pub open spec fn spec_render_from(t: Seq<char>, ctx: CtxView, pos: int) -> Result<
    Seq<char>,
    TemplateFault,
>
    decreases t.len() - pos,
    via spec_render_from_decreases
{
    if pos < 0 || pos >= t.len() {
        Ok(Seq::empty())
    } else if t[pos] == '\\' && pos + 1 < t.len() && t[pos + 1] == '{' {
        match spec_render_from(t, ctx, pos + 2) {
            Ok(rest) => Ok(seq!['{'] + rest),
            Err(e) => Err(e),
        }
    } else if t[pos] == '{' {
        match spec_find_from(t, "}"@, pos + 1) {
            None => Err(TemplateFault::Unclosed),
            Some(j) => match spec_field_value(ctx, t.subrange(pos + 1, j)) {
                None => Err(TemplateFault::Unknown { name: t.subrange(pos + 1, j) }),
                Some(v) => match spec_render_from(t, ctx, j + 1) {
                    Ok(rest) => Ok(v + rest),
                    Err(e) => Err(e),
                },
            },
        }
    } else {
        match spec_render_from(t, ctx, pos + 1) {
            Ok(rest) => Ok(seq![t[pos]] + rest),
            Err(e) => Err(e),
        }
    }
}

#[via_fn]
proof fn spec_render_from_decreases(t: Seq<char>, ctx: CtxView, pos: int) {
    reveal_strlit("}");
    if 0 <= pos < t.len() {
        lemma_find_from_bounds(t, "}"@, pos + 1);
    }
}

/// The rendering of a whole template against a context.
pub open spec fn spec_render(t: Seq<char>, ctx: CtxView) -> Result<Seq<char>, TemplateFault> {
    spec_render_from(t, ctx, 0)
}

/// The message a template fault is reported with.
pub open spec fn spec_fault_message(f: TemplateFault) -> Seq<char> {
    match f {
        TemplateFault::Unclosed => "unclosed placeholder in template"@,
        TemplateFault::Unknown { name } => "unknown template field: "@ + name,
    }
}

fn field_value(ctx: &Context, name: &Vec<char>) -> (r: Option<String>)
    ensures
        r matches Some(v) ==> spec_field_value(ctx@, name@) == Some(v@),
        r is None <==> spec_field_value(ctx@, name@) is None,
{
    if chars_eq(name, &str_to_chars("day")) {
        Some(u64_to_string(ctx.day as u64))
    } else if chars_eq(name, &str_to_chars("year")) {
        Some(u64_to_string(ctx.year as u64))
    } else if chars_eq(name, &str_to_chars("n")) {
        Some(ctx.n.clone())
    } else if chars_eq(name, &str_to_chars("problem_statement")) {
        Some(ctx.problem_statement.clone())
    } else if chars_eq(name, &str_to_chars("language")) {
        Some(language_name(ctx.language))
    } else {
        None
    }
}

/// Renders a template against a context. Succeeds exactly when every
/// placeholder is well formed and names a context field; the two failure
/// shapes are reported as template errors, with the offending name where
/// there is one.
pub fn render(template: &str, ctx: &Context) -> (r: Result<String, Error>)
    ensures
        r is Ok <==> spec_render(template@, ctx@) is Ok,
        r matches Ok(out) ==> spec_render(template@, ctx@) == Ok::<_, TemplateFault>(out@),
        r matches Err(e) ==> e is Template && (spec_render(template@, ctx@) matches Err(f)
            && e.spec_message() == spec_fault_message(f)),
{
    let tv = str_to_chars(template);
    let brace_close = str_to_chars("}");
    proof {
        reveal_strlit("}");
    }
    let n: usize = tv.len();
    let mut out: Vec<char> = Vec::new();
    let mut pos: usize = 0;
    while pos < n
        invariant
            pos <= n,
            n == tv@.len(),
            tv@ == template@,
            brace_close@ == "}"@,
            "}"@.len() == 1,
            spec_render(template@, ctx@) == (match spec_render_from(template@, ctx@, pos as int) {
                Ok(rest) => Ok::<Seq<char>, TemplateFault>(out@ + rest),
                Err(e) => Err(e),
            }),
        decreases n - pos,
    {
        let ghost old_out = out@;
        let ghost old_pos = pos as int;
        let c = tv[pos];
        if c == '\\' && pos + 1 < n && tv[pos + 1] == '{' {
            out.push('{');
            pos = pos + 2;
            proof {
                match spec_render_from(template@, ctx@, pos as int) {
                    Ok(rest) => {
                        assert(old_out + (seq!['{'] + rest) =~= out@ + rest);
                    },
                    Err(_) => {},
                }
            }
        } else if c == '{' {
            match find_from(&tv, &brace_close, pos + 1) {
                None => {
                    return Err(
                        Error::Template {
                            message: String::from_str("unclosed placeholder in template"),
                        },
                    );
                },
                Some(j) => {
                    proof {
                        lemma_find_from_bounds(template@, "}"@, old_pos + 1);
                    }
                    let name = subvec(&tv, pos + 1, j);
                    match field_value(ctx, &name) {
                        None => {
                            return Err(
                                Error::Template {
                                    message: String::from_str(
                                        "unknown template field: ",
                                    ).concat(chars_to_string(&name).as_str()),
                                },
                            );
                        },
                        Some(v) => {
                            let vchars = str_to_chars(v.as_str());
                            push_all(&mut out, &vchars);
                            pos = j + 1;
                            proof {
                                match spec_render_from(template@, ctx@, pos as int) {
                                    Ok(rest) => {
                                        assert(old_out + (v@ + rest) =~= out@ + rest);
                                    },
                                    Err(_) => {},
                                }
                            }
                        },
                    }
                },
            }
        } else {
            out.push(c);
            pos = pos + 1;
            proof {
                match spec_render_from(template@, ctx@, pos as int) {
                    Ok(rest) => {
                        assert(old_out + (seq![c] + rest) =~= out@ + rest);
                    },
                    Err(_) => {},
                }
            }
        }
    }
    proof {
        match spec_render_from(template@, ctx@, pos as int) {
            Ok(rest) => {
                assert(out@ + rest =~= out@);
            },
            Err(_) => {},
        }
    }
    Ok(chars_to_string(&out))
}

} // verus!
