//! Parsing helpers for puzzle-input files: trimming, splitting and
//! decimal parsing, specified exactly. Reading the files themselves is
//! I/O and happens outside the library; these functions turn the text
//! that was read into numbers the way the solution helpers expect —
//! lines or comma-separated fields that fail to parse are dropped, not
//! reported.

use crate::text::spec_find_from;
use crate::text::find_from;
use crate::text::lemma_find_from_bounds;
use crate::text::str_to_chars;
use crate::text::subvec;
use vstd::prelude::*;

verus! {

/// What `char::is_whitespace` returns: whether the character has the
/// Unicode whitespace property, a function of the character alone.
pub uninterp spec fn spec_is_space(c: char) -> bool;

/// std's `char::is_whitespace`, which vstd leaves unspecified.
pub assume_specification[ char::is_whitespace ](c: char) -> (r: bool)
    ensures
        r == spec_is_space(c),
;

pub open spec fn spec_trim_start(s: Seq<char>) -> Seq<char>
    decreases s.len(),
{
    if s.len() > 0 && spec_is_space(s[0]) {
        spec_trim_start(s.skip(1))
    } else {
        s
    }
}

pub open spec fn spec_trim_end(s: Seq<char>) -> Seq<char>
    decreases s.len(),
{
    if s.len() > 0 && spec_is_space(s.last()) {
        spec_trim_end(s.drop_last())
    } else {
        s
    }
}

/// `s` without leading and trailing whitespace.
pub open spec fn spec_trim(s: Seq<char>) -> Seq<char> {
    spec_trim_end(spec_trim_start(s))
}

/// Removes leading and trailing whitespace characters.
pub fn trim_chars(v: &Vec<char>) -> (r: Vec<char>)
    ensures
        r@ == spec_trim(v@),
{
    let n: usize = v.len();
    let mut a: usize = 0;
    proof {
        assert(v@.skip(0) =~= v@);
    }
    while a < n && v[a].is_whitespace()
        invariant
            a <= n,
            n == v@.len(),
            spec_trim_start(v@) == spec_trim_start(v@.skip(a as int)),
        decreases n - a,
    {
        proof {
            assert(v@.skip(a as int)[0] == v@[a as int]);
            assert(v@.skip(a as int).skip(1) =~= v@.skip(a as int + 1));
        }
        a = a + 1;
    }
    proof {
        if a < n {
            assert(v@.skip(a as int)[0] == v@[a as int]);
        }
        assert(spec_trim_start(v@.skip(a as int)) == v@.skip(a as int));
    }
    let mut b: usize = n;
    proof {
        assert(v@.skip(a as int) =~= v@.subrange(a as int, n as int));
    }
    while b > a && v[b - 1].is_whitespace()
        invariant
            a <= b <= n,
            n == v@.len(),
            spec_trim_start(v@) == v@.skip(a as int),
            spec_trim_end(v@.skip(a as int)) == spec_trim_end(v@.subrange(a as int, b as int)),
        decreases b,
    {
        proof {
            let piece = v@.subrange(a as int, b as int);
            assert(piece.last() == v@[b as int - 1]);
            assert(piece.drop_last() =~= v@.subrange(a as int, b as int - 1));
        }
        b = b - 1;
    }
    proof {
        let piece = v@.subrange(a as int, b as int);
        if b > a {
            assert(piece.last() == v@[b as int - 1]);
        }
        assert(spec_trim_end(piece) == piece);
    }
    subvec(v, a, b)
}

/// Whether every character is a decimal digit.
pub open spec fn spec_all_digits(s: Seq<char>) -> bool {
    s.len() > 0 && (forall|i: int| 0 <= i < s.len() ==> 48 <= #[trigger] (s[i] as u32) <= 57)
}

/// The value of a string of decimal digits.
pub open spec fn spec_digits_value(s: Seq<char>) -> int
    decreases s.len(),
{
    if s.len() == 0 {
        0
    } else {
        spec_digits_value(s.drop_last()) * 10 + (s.last() as u32 - 48)
    }
}

proof fn lemma_digits_value_nonneg(s: Seq<char>)
    requires
        forall|i: int| 0 <= i < s.len() ==> 48 <= #[trigger] (s[i] as u32) <= 57,
    ensures
        spec_digits_value(s) >= 0,
    decreases s.len(),
{
    if s.len() > 0 {
        lemma_digits_value_nonneg(s.drop_last());
    }
}

proof fn lemma_digits_value_prefix(s: Seq<char>, k: int)
    requires
        0 <= k <= s.len(),
        forall|i: int| 0 <= i < s.len() ==> 48 <= #[trigger] (s[i] as u32) <= 57,
    ensures
        spec_digits_value(s) >= spec_digits_value(s.take(k)),
    decreases s.len() - k,
{
    if k < s.len() {
        lemma_digits_value_prefix(s, k + 1);
        let p = s.take(k + 1);
        assert(p.drop_last() =~= s.take(k));
        assert(p.last() == s[k]);
        lemma_digits_value_nonneg(s.take(k));
        assert(spec_digits_value(p) == spec_digits_value(s.take(k)) * 10 + (s[k] as u32 - 48));
    } else {
        assert(s.take(k) =~= s);
    }
}

/// The number a digit string denotes, with an optional sign, exactly when
/// the rest is one or more digits and the value fits an `i32`: the grammar
/// std's `i32` parsing accepts.
pub open spec fn spec_parse_i32(s: Seq<char>) -> Option<int> {
    let signed = s.len() > 0 && (s[0] == '+' || s[0] == '-');
    let digits = if signed {
        s.skip(1)
    } else {
        s
    };
    let sign: int = if s.len() > 0 && s[0] == '-' {
        -1
    } else {
        1
    };
    if !spec_all_digits(digits) {
        None
    } else if -2147483648 <= sign * spec_digits_value(digits) <= 2147483647 {
        Some(sign * spec_digits_value(digits))
    } else {
        None
    }
}

/// The number an unsigned digit string denotes (an optional `+` allowed),
/// exactly when it fits a `u32`: the grammar std's `u32` parsing accepts.
pub open spec fn spec_parse_u32(s: Seq<char>) -> Option<int> {
    let signed = s.len() > 0 && s[0] == '+';
    let digits = if signed {
        s.skip(1)
    } else {
        s
    };
    if !spec_all_digits(digits) {
        None
    } else if spec_digits_value(digits) <= 4294967295 {
        Some(spec_digits_value(digits))
    } else {
        None
    }
}

/// Accumulates the value of a digit run, or reports that it is not one or
/// does not stay within `cap`.
fn digits_value_capped(digits: &Vec<char>, cap: u64) -> (r: Option<u64>)
    requires
        cap <= 4_294_967_296,
    ensures
        r matches Some(v) ==> spec_all_digits(digits@) && v == spec_digits_value(digits@) && v
            <= cap,
        r is None ==> !spec_all_digits(digits@) || spec_digits_value(digits@) > cap,
{
    if digits.len() == 0 {
        return None;
    }
    let mut acc: u64 = 0;
    let mut j: usize = 0;
    while j < digits.len()
        invariant
            j <= digits@.len(),
            cap <= 4_294_967_296,
            acc as int == spec_digits_value(digits@.take(j as int)),
            acc <= cap,
            forall|i: int| 0 <= i < j ==> 48 <= #[trigger] (digits@[i] as u32) <= 57,
        decreases digits@.len() - j,
    {
        let d = digits[j] as u32;
        if d < 48 || d > 57 {
            return None;
        }
        let next: u64 = acc * 10 + (d - 48) as u64;
        proof {
            assert(digits@.take(j as int + 1).drop_last() =~= digits@.take(j as int));
            assert(digits@.take(j as int + 1).last() == digits@[j as int]);
        }
        if next > cap {
            proof {
                if spec_all_digits(digits@) {
                    lemma_digits_value_prefix(digits@, j as int + 1);
                }
            }
            return None;
        }
        acc = next;
        j = j + 1;
    }
    proof {
        assert(digits@.take(digits@.len() as int) =~= digits@);
    }
    Some(acc)
}

/// Parses a signed decimal number the way std's `i32` parsing does:
/// digits with an optional sign, rejected on any other character or on
/// overflow.
pub fn parse_i32(v: &Vec<char>) -> (r: Option<i32>)
    ensures
        r matches Some(x) ==> spec_parse_i32(v@) == Some(x as int),
        r is None <==> spec_parse_i32(v@) is None,
{
    let negative = v.len() > 0 && v[0] == '-';
    let signed = negative || (v.len() > 0 && v[0] == '+');
    let digits = if signed {
        subvec(v, 1, v.len())
    } else {
        subvec(v, 0, v.len())
    };
    proof {
        if signed {
            assert(digits@ =~= v@.skip(1));
        } else {
            assert(digits@ =~= v@);
        }
    }
    match digits_value_capped(&digits, 2_147_483_648) {
        None => {
            proof {
                if spec_all_digits(digits@) {
                    lemma_digits_value_nonneg(digits@);
                    assert(spec_digits_value(digits@) > 2_147_483_648);
                    if negative {
                        assert(-1 * spec_digits_value(digits@) == -spec_digits_value(digits@));
                    } else {
                        assert(1 * spec_digits_value(digits@) == spec_digits_value(digits@));
                    }
                }
                assert(spec_parse_i32(v@) is None);
            }
            None
        },
        Some(value) => {
            proof {
                lemma_digits_value_nonneg(digits@);
            }
            if negative {
                if value == 2_147_483_648 {
                    proof {
                        assert(spec_parse_i32(v@) == Some(-2147483648int));
                    }
                    Some(i32::MIN)
                } else {
                    proof {
                        assert(spec_parse_i32(v@) == Some(-1 * spec_digits_value(digits@)));
                    }
                    Some(-(value as i32))
                }
            } else if value <= 2_147_483_647 {
                proof {
                    assert(spec_parse_i32(v@) == Some(spec_digits_value(digits@)));
                }
                Some(value as i32)
            } else {
                proof {
                    assert(spec_parse_i32(v@) is None);
                }
                None
            }
        },
    }
}

/// Parses an unsigned decimal number the way std's `u32` parsing does.
pub fn parse_u32(v: &Vec<char>) -> (r: Option<u32>)
    ensures
        r matches Some(x) ==> spec_parse_u32(v@) == Some(x as int),
        r is None <==> spec_parse_u32(v@) is None,
{
    let signed = v.len() > 0 && v[0] == '+';
    let digits = if signed {
        subvec(v, 1, v.len())
    } else {
        subvec(v, 0, v.len())
    };
    proof {
        if signed {
            assert(digits@ =~= v@.skip(1));
        } else {
            assert(digits@ =~= v@);
        }
    }
    match digits_value_capped(&digits, 4_294_967_295) {
        None => None,
        Some(value) => Some(value as u32),
    }
}

/// The numbers denoted by those lines that, once trimmed, parse as `i32`;
/// lines that do not are dropped.
pub open spec fn spec_parsed_lines(lines: Seq<Seq<char>>) -> Seq<int>
    decreases lines.len(),
{
    if lines.len() == 0 {
        Seq::empty()
    } else {
        match spec_parse_i32(spec_trim(lines[0])) {
            Some(x) => seq![x] + spec_parsed_lines(lines.skip(1)),
            None => spec_parsed_lines(lines.skip(1)),
        }
    }
}

/// Parses one number per line, trimming each line first and dropping
/// lines that do not parse.
pub fn parse_numbers(lines: &Vec<String>) -> (r: Vec<i32>)
    ensures
        r@.map_values(|x: i32| x as int) == spec_parsed_lines(lines.deep_view()),
{
    let ghost dv = lines.deep_view();
    let mut out: Vec<i32> = Vec::new();
    let mut k: usize = 0;
    proof {
        assert(dv.skip(0) =~= dv);
        assert(out@.map_values(|x: i32| x as int) + spec_parsed_lines(dv) =~= spec_parsed_lines(
            dv,
        ));
    }
    while k < lines.len()
        invariant
            k <= lines.len(),
            dv == lines.deep_view(),
            dv.len() == lines.len(),
            spec_parsed_lines(dv) == out@.map_values(|x: i32| x as int) + spec_parsed_lines(
                dv.skip(k as int),
            ),
        decreases lines.len() - k,
    {
        let ghost old_out = out@.map_values(|x: i32| x as int);
        proof {
            assert(dv.skip(k as int)[0] == dv[k as int]);
            assert(dv.skip(k as int).skip(1) =~= dv.skip(k as int + 1));
            assert(lines@[k as int].deep_view() == dv[k as int]);
        }
        let chars = str_to_chars(lines[k].as_str());
        let trimmed = trim_chars(&chars);
        match parse_i32(&trimmed) {
            Some(x) => {
                out.push(x);
                proof {
                    assert(out@.map_values(|y: i32| y as int) =~= old_out.push(x as int));
                    assert(old_out + (seq![x as int] + spec_parsed_lines(dv.skip(k as int + 1)))
                        =~= old_out.push(x as int) + spec_parsed_lines(dv.skip(k as int + 1)));
                }
            },
            None => {},
        }
        k = k + 1;
    }
    proof {
        assert(dv.skip(lines.len() as int) =~= Seq::<Seq<char>>::empty());
        assert(out@.map_values(|x: i32| x as int) + Seq::<int>::empty() =~= out@.map_values(
            |x: i32| x as int,
        ));
    }
    out
}

/// The comma-separated fields of `s`, in order; an empty text is one
/// empty field, as std's `split` has it.
pub open spec fn spec_split_commas(s: Seq<char>) -> Seq<Seq<char>>
    decreases s.len(),
    via spec_split_commas_decreases
{
    match spec_find_from(s, ","@, 0) {
        None => seq![s],
        Some(i) => seq![s.subrange(0, i)] + spec_split_commas(s.skip(i + 1)),
    }
}

#[via_fn]
proof fn spec_split_commas_decreases(s: Seq<char>) {
    reveal_strlit(",");
    lemma_find_from_bounds(s, ","@, 0);
}

/// The numbers denoted by those comma-separated fields that parse as
/// `u32` (untrimmed); fields that do not are dropped.
pub open spec fn spec_parsed_fields(fields: Seq<Seq<char>>) -> Seq<int>
    decreases fields.len(),
{
    if fields.len() == 0 {
        Seq::empty()
    } else {
        match spec_parse_u32(fields[0]) {
            Some(x) => seq![x] + spec_parsed_fields(fields.skip(1)),
            None => spec_parsed_fields(fields.skip(1)),
        }
    }
}

/// Splits `text` on commas and parses each field as a `u32`, dropping
/// fields that do not parse (for instance one that carries a trailing
/// newline).
pub fn parse_numbers_one_line(text: &str) -> (r: Vec<u32>)
    ensures
        r@.map_values(|x: u32| x as int) == spec_parsed_fields(spec_split_commas(text@)),
{
    proof {
        reveal_strlit(",");
    }
    let chars = str_to_chars(text);
    let comma = str_to_chars(",");
    let n: usize = chars.len();
    let mut out: Vec<u32> = Vec::new();
    let mut pos: usize = 0;
    proof {
        assert(text@.skip(0) =~= text@);
        assert(out@.map_values(|x: u32| x as int) + spec_parsed_fields(
            spec_split_commas(text@),
        ) =~= spec_parsed_fields(spec_split_commas(text@)));
    }
    loop
        invariant_except_break
            spec_parsed_fields(spec_split_commas(text@)) == out@.map_values(|x: u32| x as int)
                + spec_parsed_fields(spec_split_commas(text@.skip(pos as int))),
        invariant
            pos <= n,
            n == chars@.len(),
            chars@ == text@,
            comma@ == ","@,
            ","@.len() == 1,
        ensures
            spec_parsed_fields(spec_split_commas(text@)) == out@.map_values(
                |x: u32| x as int,
            ),
        decreases n - pos,
    {
        let ghost tail = text@.skip(pos as int);
        let ghost old_parsed = out@.map_values(|x: u32| x as int);
        match find_from(&chars, &comma, pos) {
            None => {
                let field = subvec(&chars, pos, n);
                proof {
                    lemma_split_tail_none(text@, pos as int);
                    assert(spec_split_commas(tail) == seq![tail]);
                    assert(field@ =~= tail);
                    assert(seq![tail].skip(1) =~= Seq::<Seq<char>>::empty());
                }
                match parse_u32(&field) {
                    Some(x) => {
                        out.push(x);
                        proof {
                            assert(spec_parsed_fields(seq![tail]) == seq![x as int]
                                + spec_parsed_fields(Seq::<Seq<char>>::empty()));
                            assert(old_parsed + (seq![x as int] + Seq::<int>::empty())
                                =~= out@.map_values(|y: u32| y as int));
                        }
                    },
                    None => {
                        proof {
                            assert(spec_parsed_fields(seq![tail]) == spec_parsed_fields(
                                Seq::<Seq<char>>::empty(),
                            ));
                            assert(old_parsed + Seq::<int>::empty() =~= old_parsed);
                        }
                    },
                }
                break ;
            },
            Some(i) => {
                proof {
                    lemma_find_from_bounds(text@, ","@, pos as int);
                    lemma_split_tail_step(text@, pos as int, i as int);
                }
                let field = subvec(&chars, pos, i);
                let ghost rest = spec_split_commas(text@.skip(i + 1));
                proof {
                    assert(field@ =~= tail.subrange(0, i - pos as int));
                    assert(spec_split_commas(tail) == seq![field@] + rest);
                    assert((seq![field@] + rest)[0] == field@);
                    assert((seq![field@] + rest).skip(1) =~= rest);
                }
                match parse_u32(&field) {
                    Some(x) => {
                        out.push(x);
                        proof {
                            assert(spec_parsed_fields(seq![field@] + rest) == seq![x as int]
                                + spec_parsed_fields(rest));
                            assert(old_parsed + (seq![x as int] + spec_parsed_fields(rest))
                                =~= out@.map_values(|y: u32| y as int) + spec_parsed_fields(
                                rest,
                            ));
                        }
                    },
                    None => {
                        proof {
                            assert(spec_parsed_fields(seq![field@] + rest)
                                == spec_parsed_fields(rest));
                        }
                    },
                }
                pos = i + 1;
            },
        }
    }
    out
}

/// When the tail of `s` at `pos` holds no comma, its split is itself.
proof fn lemma_split_tail_none(s: Seq<char>, pos: int)
    requires
        0 <= pos <= s.len(),
        spec_find_from(s, ","@, pos) is None,
    ensures
        spec_find_from(s.skip(pos), ","@, 0) is None,
    decreases s.len() - pos,
{
    reveal_strlit(",");
    lemma_find_shift(s, pos, pos);
}

/// A comma found at `i` in `s` scanning from `pos` is the first comma of
/// the tail at `pos`, and the split of that tail starts with the field
/// before it.
proof fn lemma_split_tail_step(s: Seq<char>, pos: int, i: int)
    requires
        0 <= pos <= s.len(),
        spec_find_from(s, ","@, pos) == Some(i),
    ensures
        spec_find_from(s.skip(pos), ","@, 0) == Some(i - pos),
        spec_split_commas(s.skip(pos)) == seq![s.skip(pos).subrange(0, i - pos)]
            + spec_split_commas(s.skip(i + 1)),
{
    reveal_strlit(",");
    lemma_find_shift(s, pos, pos);
    lemma_find_from_bounds(s, ","@, pos);
    assert(s.skip(pos).skip(i - pos + 1) =~= s.skip(i + 1));
    assert(spec_split_commas(s.skip(pos)) == seq![s.skip(pos).subrange(0, i - pos)]
        + spec_split_commas(s.skip(pos).skip(i - pos + 1)));
}

/// Searching in a tail mirrors searching in the whole from that offset.
proof fn lemma_find_shift(s: Seq<char>, base: int, from: int)
    requires
        0 <= base <= from,
        base <= s.len(),
    ensures
        spec_find_from(s.skip(base), ","@, from - base) == (match spec_find_from(
            s,
            ","@,
            from,
        ) {
            Some(i) => Some(i - base),
            None => None::<int>,
        }),
    decreases s.len() + 1 - from,
{
    reveal_strlit(",");
    if from + 1 <= s.len() {
        assert(s.skip(base).subrange(from - base, from - base + 1) =~= s.subrange(
            from,
            from + 1,
        ));
        lemma_find_shift(s, base, from + 1);
    } else {
        assert(spec_find_from(s, ","@, from) is None);
        assert(spec_find_from(s.skip(base), ","@, from - base) is None);
    }
}

} // verus!
