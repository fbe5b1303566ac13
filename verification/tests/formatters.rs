use revset_explain::analyze::filter_to_string;
use revset_explain::pattern::DatePattern;
use revset_explain::pattern::FilePattern;
use revset_explain::pattern::FilesetExpression;
use revset_explain::pattern::MillisSinceEpoch;
use revset_explain::pattern::RevsetFilterPredicate;
use revset_explain::pattern::StringExpression;
use revset_explain::pattern::StringPattern;
use revset_explain::pattern::MAX_DATE_MILLIS;
use revset_explain::pattern::MIN_DATE_MILLIS;
use revset_explain::print::format_date_pattern;
use revset_explain::print::format_file_pattern;
use revset_explain::print::format_fileset_expression;
use revset_explain::print::format_range;
use revset_explain::print::format_range_with_label;
use revset_explain::print::format_string_expression;
use revset_explain::print::string_pattern_kind;
use revset_explain::print::widen;

fn exact(text: &str) -> StringExpression {
    StringExpression::Pattern(StringPattern::Exact(text.to_string()))
}

fn glob(text: &str) -> StringExpression {
    StringExpression::Pattern(StringPattern::Glob(text.to_string()))
}

fn file(path: &str) -> FilesetExpression {
    FilesetExpression::Pattern(FilePattern::FilePath(path.to_string()))
}

#[test]
fn string_pattern_kinds_have_their_names() {
    let text = || "x".to_string();
    assert_eq!(string_pattern_kind(&StringPattern::Exact(text())), "exact");
    assert_eq!(string_pattern_kind(&StringPattern::ExactI(text())), "exact-i");
    assert_eq!(string_pattern_kind(&StringPattern::Substring(text())), "substring");
    assert_eq!(string_pattern_kind(&StringPattern::SubstringI(text())), "substring-i");
    assert_eq!(string_pattern_kind(&StringPattern::Glob(text())), "glob");
    assert_eq!(string_pattern_kind(&StringPattern::GlobI(text())), "glob-i");
    assert_eq!(string_pattern_kind(&StringPattern::Regex(text())), "regex");
    assert_eq!(string_pattern_kind(&StringPattern::RegexI(text())), "regex-i");
}

#[test]
fn string_pattern_gives_back_its_literal() {
    assert_eq!(StringPattern::RegexI("a.*b".to_string()).as_str(), "a.*b");
    assert_eq!(StringPattern::Exact(String::new()).as_str(), "");
}

#[test]
fn string_pattern_leaf_is_kind_and_quoted_literal() {
    assert_eq!(format_string_expression(&exact("main")), "exact:\"main\"");
    assert_eq!(format_string_expression(&glob("release-*")), "glob:\"release-*\"");
}

#[test]
fn string_pattern_literal_is_escaped() {
    assert_eq!(format_string_expression(&exact("a\"b")), "exact:\"a\\\"b\"");
    assert_eq!(format_string_expression(&exact("a\\b")), "exact:\"a\\\\b\"");
    assert_eq!(format_string_expression(&exact("a\nb")), "exact:\"a\\nb\"");
    assert_eq!(format_string_expression(&exact("")), "exact:\"\"");
}

#[test]
fn string_expression_combinators_nest() {
    let negated = StringExpression::NotIn(Box::new(exact("a")));
    assert_eq!(format_string_expression(&negated), "~exact:\"a\"");
    let union = StringExpression::Union(Box::new(exact("a")), Box::new(glob("b*")));
    assert_eq!(format_string_expression(&union), "(exact:\"a\" | glob:\"b*\")");
    let both = StringExpression::Intersection(
        Box::new(union),
        Box::new(StringExpression::NotIn(Box::new(exact("c")))),
    );
    assert_eq!(
        format_string_expression(&both),
        "((exact:\"a\" | glob:\"b*\") & ~exact:\"c\")"
    );
}

#[test]
fn file_patterns_have_their_forms() {
    assert_eq!(
        format_file_pattern(&FilePattern::FilePath("src/lib.rs".to_string())),
        "file:\"src/lib.rs\""
    );
    assert_eq!(
        format_file_pattern(&FilePattern::PrefixPath("src".to_string())),
        "\"src\""
    );
    assert_eq!(
        format_file_pattern(&FilePattern::FileGlob {
            dir: "src/".to_string(),
            pattern: "*.rs".to_string(),
        }),
        "glob:\"src/*.rs\""
    );
    assert_eq!(
        format_file_pattern(&FilePattern::PrefixGlob {
            dir: String::new(),
            pattern: "doc*".to_string(),
        }),
        "prefix-glob:\"doc*\""
    );
}

#[test]
fn fileset_leaves_have_their_forms() {
    assert_eq!(format_fileset_expression(&FilesetExpression::Nothing), "none()");
    assert_eq!(format_fileset_expression(&FilesetExpression::All), "all()");
    assert_eq!(format_fileset_expression(&file("a")), "file:\"a\"");
}

#[test]
fn fileset_union_joins_with_bars() {
    let three = FilesetExpression::UnionAll(vec![file("a"), file("b"), FilesetExpression::All]);
    assert_eq!(
        format_fileset_expression(&three),
        "(file:\"a\" | file:\"b\" | all())"
    );
    let one = FilesetExpression::UnionAll(vec![file("a")]);
    assert_eq!(format_fileset_expression(&one), "(file:\"a\")");
    let none = FilesetExpression::UnionAll(vec![]);
    assert_eq!(format_fileset_expression(&none), "()");
}

#[test]
fn fileset_binary_operators_nest() {
    let both = FilesetExpression::Intersection(Box::new(file("a")), Box::new(file("b")));
    assert_eq!(format_fileset_expression(&both), "(file:\"a\" & file:\"b\")");
    let without = FilesetExpression::Difference(
        Box::new(FilesetExpression::All),
        Box::new(FilesetExpression::UnionAll(vec![file("a"), file("b")])),
    );
    assert_eq!(
        format_fileset_expression(&without),
        "(all() ~ (file:\"a\" | file:\"b\"))"
    );
}

#[test]
fn date_patterns_are_rfc3339() {
    let epoch = MillisSinceEpoch::new(0).unwrap();
    assert_eq!(
        format_date_pattern(&DatePattern::AtOrAfter(epoch)),
        "after:1970-01-01T00:00:00+00:00"
    );
    let later = MillisSinceEpoch::new(947638923004).unwrap();
    assert_eq!(
        format_date_pattern(&DatePattern::Before(later)),
        "before:2000-01-12T01:02:03.004+00:00"
    );
    let earlier = MillisSinceEpoch::new(-1).unwrap();
    assert_eq!(
        format_date_pattern(&DatePattern::Before(earlier)),
        "before:1969-12-31T23:59:59.999+00:00"
    );
}

#[test]
fn instants_are_accepted_exactly_where_they_have_a_date() {
    assert!(MillisSinceEpoch::new(MIN_DATE_MILLIS).is_some());
    assert!(MillisSinceEpoch::new(MAX_DATE_MILLIS).is_some());
    assert!(MillisSinceEpoch::new(MIN_DATE_MILLIS - 1).is_none());
    assert!(MillisSinceEpoch::new(MAX_DATE_MILLIS + 1).is_none());
    assert!(MillisSinceEpoch::new(i64::MIN).is_none());
    assert!(MillisSinceEpoch::new(i64::MAX).is_none());
    assert_eq!(MillisSinceEpoch::new(42).unwrap().get(), 42);
}

#[test]
fn the_first_and_last_instant_can_be_written() {
    let first = MillisSinceEpoch::new(MIN_DATE_MILLIS).unwrap();
    assert_eq!(
        format_date_pattern(&DatePattern::AtOrAfter(first)),
        "after:-262143-01-01T00:00:00+00:00"
    );
    let last = MillisSinceEpoch::new(MAX_DATE_MILLIS).unwrap();
    assert_eq!(
        format_date_pattern(&DatePattern::Before(last)),
        "before:+262142-12-31T23:59:59.999+00:00"
    );
}

#[test]
fn chrono_has_no_date_outside_the_accepted_instants() {
    assert!(chrono::DateTime::from_timestamp_millis(MIN_DATE_MILLIS).is_some());
    assert!(chrono::DateTime::from_timestamp_millis(MAX_DATE_MILLIS).is_some());
    assert!(chrono::DateTime::from_timestamp_millis(MIN_DATE_MILLIS - 1).is_none());
    assert!(chrono::DateTime::from_timestamp_millis(MAX_DATE_MILLIS + 1).is_none());
}

#[test]
fn range_text_covers_each_shape() {
    assert_eq!(format_range(&(0..u64::MAX), 0..u64::MAX), None);
    assert_eq!(format_range(&(5..5), 0..u64::MAX), Some("empty range".to_string()));
    assert_eq!(format_range(&(0..0), 0..u64::MAX), Some("empty range".to_string()));
    assert_eq!(format_range(&(7..8), 0..u64::MAX), Some("7".to_string()));
    assert_eq!(format_range(&(3..u64::MAX), 0..u64::MAX), Some("3..".to_string()));
    assert_eq!(format_range(&(0..20000), 0..u64::MAX), Some("0..20000".to_string()));
    assert_eq!(format_range(&(12..345), 0..u64::MAX), Some("12..345".to_string()));
}

#[test]
fn range_text_of_a_reversed_range_is_written_out() {
    assert_eq!(format_range(&(9..4), 0..u64::MAX), Some("9..4".to_string()));
    assert_eq!(format_range(&(9..0), 0..u64::MAX), Some("9..0".to_string()));
}

#[test]
fn range_text_writes_large_numbers_in_full() {
    assert_eq!(
        format_range(&(18446744073709551614..18446744073709551615), 0..u64::MAX),
        Some("18446744073709551614".to_string())
    );
    assert_eq!(
        format_range(&(1..18446744073709551614), 0..u64::MAX),
        Some("1..18446744073709551614".to_string())
    );
}

#[test]
fn labeled_range_text_covers_each_shape() {
    let full = || 0..u64::MAX;
    assert_eq!(format_range_with_label("generation", &(0..u64::MAX), full()), None);
    assert_eq!(
        format_range_with_label("generation", &(4..4), full()),
        Some("generation always out of range".to_string())
    );
    assert_eq!(
        format_range_with_label("generation", &(4..5), full()),
        Some("generation == 4".to_string())
    );
    assert_eq!(
        format_range_with_label("generation", &(4..u64::MAX), full()),
        Some("generation >= 4".to_string())
    );
    assert_eq!(
        format_range_with_label("generation", &(0..9), full()),
        Some("generation < 9".to_string())
    );
    assert_eq!(
        format_range_with_label("generation", &(4..9), full()),
        Some("4 <= generation < 9".to_string())
    );
}

#[test]
fn parent_ranges_widen_without_change() {
    assert_eq!(widen(&(0..u32::MAX)), 0..4294967295u64);
    assert_eq!(widen(&(2..7)), 2..7u64);
    assert_eq!(
        format_range(&widen(&(1..u32::MAX)), widen(&(0..u32::MAX))),
        Some("1..".to_string())
    );
}

#[test]
fn merges_is_the_text_of_two_or_more_parents() {
    let merges = RevsetFilterPredicate::ParentCount(2..u32::MAX);
    assert_eq!(filter_to_string(&merges), "merges()");
}

#[test]
fn other_parent_counts_are_written_as_ranges() {
    assert_eq!(
        filter_to_string(&RevsetFilterPredicate::ParentCount(0..1)),
        "parent_count(0)"
    );
    assert_eq!(
        filter_to_string(&RevsetFilterPredicate::ParentCount(1..u32::MAX)),
        "parent_count(1..)"
    );
    assert_eq!(
        filter_to_string(&RevsetFilterPredicate::ParentCount(2..4)),
        "parent_count(2..4)"
    );
    assert_eq!(
        filter_to_string(&RevsetFilterPredicate::ParentCount(2..u32::MAX - 1)),
        "parent_count(2..4294967294)"
    );
    assert_eq!(
        filter_to_string(&RevsetFilterPredicate::ParentCount(0..u32::MAX)),
        "parent_count()"
    );
}

#[test]
fn string_filters_are_calls_on_their_pattern() {
    assert_eq!(
        filter_to_string(&RevsetFilterPredicate::Description(exact("x"))),
        "description(exact:\"x\")"
    );
    assert_eq!(
        filter_to_string(&RevsetFilterPredicate::Subject(exact("x"))),
        "subject(exact:\"x\")"
    );
    assert_eq!(
        filter_to_string(&RevsetFilterPredicate::AuthorName(exact("x"))),
        "author_name(exact:\"x\")"
    );
    assert_eq!(
        filter_to_string(&RevsetFilterPredicate::AuthorEmail(exact("x"))),
        "author_email(exact:\"x\")"
    );
    assert_eq!(
        filter_to_string(&RevsetFilterPredicate::CommitterName(exact("x"))),
        "committer_name(exact:\"x\")"
    );
    assert_eq!(
        filter_to_string(&RevsetFilterPredicate::CommitterEmail(exact("x"))),
        "committer_email(exact:\"x\")"
    );
}

#[test]
fn date_filters_are_calls_on_their_pattern() {
    let epoch = MillisSinceEpoch::new(0).unwrap();
    assert_eq!(
        filter_to_string(&RevsetFilterPredicate::AuthorDate(DatePattern::AtOrAfter(epoch))),
        "author_date(after:1970-01-01T00:00:00+00:00)"
    );
    assert_eq!(
        filter_to_string(&RevsetFilterPredicate::CommitterDate(DatePattern::Before(epoch))),
        "committer_date(before:1970-01-01T00:00:00+00:00)"
    );
}

#[test]
fn file_filters_are_calls_on_their_fileset() {
    assert_eq!(
        filter_to_string(&RevsetFilterPredicate::File(file("a"))),
        "files(file:\"a\")"
    );
    assert_eq!(
        filter_to_string(&RevsetFilterPredicate::File(FilesetExpression::All)),
        "files(all())"
    );
    assert_eq!(
        filter_to_string(&RevsetFilterPredicate::DiffLines {
            text: glob("*fix*"),
            files: FilesetExpression::All,
        }),
        "diff_lines(glob:\"*fix*\", all())"
    );
}

#[test]
fn flag_filters_take_no_argument() {
    assert_eq!(filter_to_string(&RevsetFilterPredicate::HasConflict), "conflicts()");
    assert_eq!(filter_to_string(&RevsetFilterPredicate::Signed), "signed()");
}

#[test]
fn extension_filters_print_their_tag() {
    assert_eq!(
        filter_to_string(&RevsetFilterPredicate::Extension("in_stack()".to_string())),
        "in_stack()"
    );
}
