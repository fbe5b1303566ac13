//! Canonical text of patterns and numeric ranges.

use crate::pattern::date_millis_in_range;
use crate::pattern::DatePattern;
use crate::pattern::FilePattern;
use crate::pattern::FilesetExpression;
use crate::pattern::StringExpression;
use crate::pattern::StringPattern;
use crate::text::cow_str;
use crate::text::debug_quoted;
use crate::text::debug_string;
use crate::text::decimal;
use crate::text::decimal_string;
use crate::text::owned_text;
use itertools::Itertools;
use std::borrow::Cow;
use std::ops::Range;
use vstd::prelude::*;
use vstd::string::*;

verus! {

/// The kind prefix a string pattern is written with.
pub open spec fn string_pattern_kind_text(pattern: &StringPattern) -> Seq<char> {
    match pattern {
        StringPattern::Exact(_) => "exact"@,
        StringPattern::ExactI(_) => "exact-i"@,
        StringPattern::Substring(_) => "substring"@,
        StringPattern::SubstringI(_) => "substring-i"@,
        StringPattern::Glob(_) => "glob"@,
        StringPattern::GlobI(_) => "glob-i"@,
        StringPattern::Regex(_) => "regex"@,
        StringPattern::RegexI(_) => "regex-i"@,
    }
}

/// The kind prefix a string pattern is written with.
pub fn string_pattern_kind(pattern: &StringPattern) -> (kind: &'static str)
    ensures
        kind@ == string_pattern_kind_text(pattern),
{
    match pattern {
        StringPattern::Exact(_) => "exact",
        StringPattern::ExactI(_) => "exact-i",
        StringPattern::Substring(_) => "substring",
        StringPattern::SubstringI(_) => "substring-i",
        StringPattern::Glob(_) => "glob",
        StringPattern::GlobI(_) => "glob-i",
        StringPattern::Regex(_) => "regex",
        StringPattern::RegexI(_) => "regex-i",
    }
}

/// The canonical text of a string expression: a leaf is `kind:"literal"`,
/// negation is a `~` prefix, and the binary combinators are parenthesized
/// with `|` and `&`.
pub open spec fn string_expression_text(expr: &StringExpression) -> Seq<char>
    decreases expr,
{
    match expr {
        StringExpression::Pattern(pattern) => string_pattern_kind_text(pattern) + ":"@
            + debug_quoted(pattern.literal()),
        StringExpression::NotIn(inner) => "~"@ + string_expression_text(inner),
        StringExpression::Union(a, b) => "("@ + string_expression_text(a) + " | "@
            + string_expression_text(b) + ")"@,
        StringExpression::Intersection(a, b) => "("@ + string_expression_text(a) + " & "@
            + string_expression_text(b) + ")"@,
    }
}

/// Renders a string expression in its canonical text.
pub fn format_string_expression(expr: &StringExpression) -> (text: String)
    ensures
        text@ == string_expression_text(expr),
    decreases expr,
{
    match expr {
        StringExpression::Pattern(pattern) => {
            let mut text = String::from_str(string_pattern_kind(pattern));
            text.append(":");
            let quoted = debug_string(pattern.as_str());
            text.append(quoted.as_str());
            text
        },
        StringExpression::NotIn(inner) => {
            let mut text = String::from_str("~");
            let inner_text = format_string_expression(inner);
            text.append(inner_text.as_str());
            text
        },
        StringExpression::Union(a, b) => {
            let left = format_string_expression(a);
            let right = format_string_expression(b);
            binary_text(left.as_str(), " | ", right.as_str())
        },
        StringExpression::Intersection(a, b) => {
            let left = format_string_expression(a);
            let right = format_string_expression(b);
            binary_text(left.as_str(), " & ", right.as_str())
        },
    }
}

/// `(left operator right)`, the operator given with its surrounding spaces.
fn binary_text(left: &str, operator: &str, right: &str) -> (text: String)
    ensures
        text@ == "("@ + left@ + operator@ + right@ + ")"@,
{
    let mut text = String::from_str("(");
    text.append(left);
    text.append(operator);
    text.append(right);
    text.append(")");
    text
}

/// The canonical text of a file pattern.
pub open spec fn file_pattern_text(pattern: &FilePattern) -> Seq<char> {
    match pattern {
        FilePattern::FilePath(path) => "file:"@ + debug_quoted(path@),
        FilePattern::PrefixPath(path) => debug_quoted(path@),
        FilePattern::FileGlob { dir, pattern } => "glob:"@ + debug_quoted(dir@ + pattern@),
        FilePattern::PrefixGlob { dir, pattern } => "prefix-glob:"@ + debug_quoted(
            dir@ + pattern@,
        ),
    }
}

/// Renders a file pattern in its canonical text.
pub fn format_file_pattern(pattern: &FilePattern) -> (text: String)
    ensures
        text@ == file_pattern_text(pattern),
{
    match pattern {
        FilePattern::FilePath(path) => {
            let mut text = String::from_str("file:");
            let quoted = debug_string(path.as_str());
            text.append(quoted.as_str());
            text
        },
        FilePattern::PrefixPath(path) => debug_string(path.as_str()),
        FilePattern::FileGlob { dir, pattern } => {
            let mut glob = String::from_str(dir.as_str());
            glob.append(pattern.as_str());
            let mut text = String::from_str("glob:");
            let quoted = debug_string(glob.as_str());
            text.append(quoted.as_str());
            text
        },
        FilePattern::PrefixGlob { dir, pattern } => {
            let mut glob = String::from_str(dir.as_str());
            glob.append(pattern.as_str());
            let mut text = String::from_str("prefix-glob:");
            let quoted = debug_string(glob.as_str());
            text.append(quoted.as_str());
            text
        },
    }
}

/// The texts of a list of strings.
pub open spec fn texts(parts: Seq<String>) -> Seq<Seq<char>> {
    Seq::new(parts.len(), |i: int| parts[i]@)
}

/// The parts in order, with the separator between neighbours.
pub open spec fn separated(parts: Seq<Seq<char>>, separator: Seq<char>) -> Seq<char>
    decreases parts.len(),
{
    if parts.len() == 0 {
        Seq::empty()
    } else if parts.len() == 1 {
        parts[0]
    } else {
        separated(parts.drop_last(), separator) + separator + parts.last()
    }
}

/// `Itertools::join` over the strings of a vector: the strings in order,
/// with `separator` between neighbours and nothing at either end.
#[verifier::external_body]
fn join_texts(parts: &Vec<String>, separator: &str) -> (text: String)
    ensures
        text@ == separated(texts(parts@), separator@),
{
    parts.iter().join(separator)
}

/// The canonical texts of the first `upto` file sets of a list.
pub open spec fn fileset_texts(exprs: Seq<FilesetExpression>, upto: int) -> Seq<Seq<char>>
    decreases exprs, upto,
{
    if 0 < upto <= exprs.len() {
        fileset_texts(exprs, upto - 1).push(fileset_expression_text(&exprs[upto - 1]))
    } else {
        Seq::empty()
    }
}

/// The canonical text of a file set: `none()`, `all()`, a file pattern, a
/// parenthesized union joined by `|`, or a parenthesized intersection (`&`) or
/// difference (`~`).
pub open spec fn fileset_expression_text(expr: &FilesetExpression) -> Seq<char>
    decreases expr, 0int,
{
    match expr {
        FilesetExpression::Nothing => "none()"@,
        FilesetExpression::All => "all()"@,
        FilesetExpression::Pattern(pattern) => file_pattern_text(pattern),
        FilesetExpression::UnionAll(exprs) => "("@ + separated(
            fileset_texts(exprs@, exprs@.len() as int),
            " | "@,
        ) + ")"@,
        FilesetExpression::Intersection(a, b) => "("@ + fileset_expression_text(a) + " & "@
            + fileset_expression_text(b) + ")"@,
        FilesetExpression::Difference(a, b) => "("@ + fileset_expression_text(a) + " ~ "@
            + fileset_expression_text(b) + ")"@,
    }
}

/// Renders a file set in its canonical text.
pub fn format_fileset_expression(expr: &FilesetExpression) -> (text: Cow<'static, str>)
    ensures
        text@ == fileset_expression_text(expr),
    decreases expr,
{
    match expr {
        FilesetExpression::Nothing => Cow::Borrowed("none()"),
        FilesetExpression::All => Cow::Borrowed("all()"),
        FilesetExpression::Pattern(pattern) => Cow::Owned(format_file_pattern(pattern)),
        FilesetExpression::UnionAll(exprs) => {
            let mut parts: Vec<String> = Vec::new();
            let mut i: usize = 0;
            while i < exprs.len()
                invariant
                    i <= exprs.len(),
                    texts(parts@) == fileset_texts(exprs@, i as int),
                    expr is UnionAll,
                    expr->UnionAll_0 == *exprs,
                decreases exprs.len() - i,
            {
                assert(decreases_to!(expr => exprs[i as int])) by {
                    assert(decreases_to!(expr => expr->UnionAll_0));
                    assert(decreases_to!(exprs => exprs[i as int]));
                }
                let part = format_fileset_expression(&exprs[i]);
                parts.push(owned_text(part));
                i += 1;
                assert(texts(parts@) =~= fileset_texts(exprs@, i as int));
            }
            let mut text = String::from_str("(");
            let inner = join_texts(&parts, " | ");
            text.append(inner.as_str());
            text.append(")");
            Cow::Owned(text)
        },
        FilesetExpression::Intersection(a, b) => {
            let left = format_fileset_expression(a);
            let right = format_fileset_expression(b);
            Cow::Owned(binary_text(cow_str(&left), " & ", cow_str(&right)))
        },
        FilesetExpression::Difference(a, b) => {
            let left = format_fileset_expression(a);
            let right = format_fileset_expression(b);
            Cow::Owned(binary_text(cow_str(&left), " ~ ", cow_str(&right)))
        },
    }
}

/// The RFC 3339 text of the instant `millis` milliseconds after the Unix
/// epoch, in UTC: date, `T`, time of day, a fraction where it is not zero,
/// and the offset `+00:00`.
pub uninterp spec fn rfc3339_text(millis: i64) -> Seq<char>;

/// `chrono::DateTime::from_timestamp_millis` followed by
/// `DateTime::to_rfc3339`. The first gives an instant exactly for the
/// milliseconds that fall into the years chrono has dates for; the second
/// writes it out, and the contract gives that text the name `rfc3339_text`.
#[verifier::external_body]
fn rfc3339_string(millis: i64) -> (text: Option<String>)
    ensures
        text is Some <==> date_millis_in_range(millis),
        text matches Some(written) ==> written@ == rfc3339_text(millis),
{
    match chrono::DateTime::from_timestamp_millis(millis) {
        Some(instant) => Some(instant.to_rfc3339()),
        None => None,
    }
}

/// The canonical text of a date pattern: `after:` or `before:` and the
/// instant in RFC 3339.
pub open spec fn date_pattern_text(pattern: &DatePattern) -> Seq<char> {
    match pattern {
        DatePattern::AtOrAfter(instant) => "after:"@ + rfc3339_text(instant.value()),
        DatePattern::Before(instant) => "before:"@ + rfc3339_text(instant.value()),
    }
}

/// Renders a date pattern in its canonical text.
pub fn format_date_pattern(pattern: &DatePattern) -> (text: String)
    ensures
        text@ == date_pattern_text(pattern),
{
    match pattern {
        DatePattern::AtOrAfter(instant) => {
            let mut text = String::from_str("after:");
            let written = rfc3339_string(instant.get());
            match written {
                Some(written) => text.append(written.as_str()),
                None => {},
            }
            text
        },
        DatePattern::Before(instant) => {
            let mut text = String::from_str("before:");
            let written = rfc3339_string(instant.get());
            match written {
                Some(written) => text.append(written.as_str()),
                None => {},
            }
            text
        },
    }
}

/// The text of a half-open range against the widest range of its kind, with
/// the quantity named: `None` for the widest range itself, else whether the
/// range is empty, a single value, open above, open below, or bounded on both
/// sides.
pub open spec fn labeled_range_text(label: Seq<char>, range: Range<u64>, full_range: Range<u64>)
    -> Option<Seq<char>> {
    if range.start == full_range.start && range.end == full_range.end {
        None
    } else if range.start == range.end {
        Some(label + " always out of range"@)
    } else if range.start + 1 == range.end {
        Some(label + " == "@ + decimal(range.start as nat))
    } else if range.end == full_range.end {
        Some(label + " >= "@ + decimal(range.start as nat))
    } else if range.start == full_range.start {
        Some(label + " < "@ + decimal(range.end as nat))
    } else {
        Some(decimal(range.start as nat) + " <= "@ + label + " < "@ + decimal(range.end as nat))
    }
}

/// Describes a half-open range of the quantity `label`, or gives `None` for
/// the widest range.
pub fn format_range_with_label(label: &str, range: &Range<u64>, full_range: Range<u64>) -> (text:
    Option<String>)
    ensures
        match text {
            Some(text) => labeled_range_text(label@, *range, full_range) == Some(text@),
            None => labeled_range_text(label@, *range, full_range) is None,
        },
{
    if range.start == full_range.start && range.end == full_range.end {
        None
    } else if range.start == range.end {
        let mut text = String::from_str(label);
        text.append(" always out of range");
        Some(text)
    } else if range.start < range.end && range.start == range.end - 1 {
        let mut text = String::from_str(label);
        text.append(" == ");
        text.append(decimal_string(range.start).as_str());
        Some(text)
    } else if range.end == full_range.end {
        let mut text = String::from_str(label);
        text.append(" >= ");
        text.append(decimal_string(range.start).as_str());
        Some(text)
    } else if range.start == full_range.start {
        let mut text = String::from_str(label);
        text.append(" < ");
        text.append(decimal_string(range.end).as_str());
        Some(text)
    } else {
        let mut text = decimal_string(range.start);
        text.append(" <= ");
        text.append(label);
        text.append(" < ");
        text.append(decimal_string(range.end).as_str());
        Some(text)
    }
}

/// The text of a half-open range against the widest range of its kind:
/// `None` for the widest range itself, `empty range` where start and end
/// meet, the single value where the range holds one, `start..` where it is
/// open above, and `start..end` otherwise.
pub open spec fn range_text(range: Range<u64>, full_range: Range<u64>) -> Option<Seq<char>> {
    if range.start == full_range.start && range.end == full_range.end {
        None
    } else if range.start == range.end {
        Some("empty range"@)
    } else if range.start + 1 == range.end {
        Some(decimal(range.start as nat))
    } else if range.end == full_range.end {
        Some(decimal(range.start as nat) + ".."@)
    } else {
        Some(decimal(range.start as nat) + ".."@ + decimal(range.end as nat))
    }
}

/// Renders a half-open range, or gives `None` for the widest range.
pub fn format_range(range: &Range<u64>, full_range: Range<u64>) -> (text: Option<String>)
    ensures
        match text {
            Some(text) => range_text(*range, full_range) == Some(text@),
            None => range_text(*range, full_range) is None,
        },
{
    if range.start == full_range.start && range.end == full_range.end {
        None
    } else if range.start == range.end {
        Some(String::from_str("empty range"))
    } else if range.start < range.end && range.start == range.end - 1 {
        Some(decimal_string(range.start))
    } else if range.end == full_range.end {
        let mut text = decimal_string(range.start);
        text.append("..");
        Some(text)
    } else {
        let mut text = decimal_string(range.start);
        text.append("..");
        text.append(decimal_string(range.end).as_str());
        Some(text)
    }
}

/// A range of parent indices, widened to the integers generation ranges use.
pub open spec fn widened(range: Range<u32>) -> Range<u64> {
    Range { start: range.start as u64, end: range.end as u64 }
}

/// Widens a range of parent indices to the integers generation ranges use.
pub fn widen(range: &Range<u32>) -> (wide: Range<u64>)
    ensures
        wide == widened(*range),
{
    Range { start: range.start as u64, end: range.end as u64 }
}

} // verus!
