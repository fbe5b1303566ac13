use revset_explain::expr::Expr;
use revset_explain::expr::Predicate;
use revset_explain::expr::ResolvedReference;
use revset_explain::parse::ReferenceMap;
use revset_explain::pattern::RevsetFilterPredicate;
use revset_explain::resolved::CommitId;
use revset_explain::resolved::ResolvedExpression;
use revset_explain::resolved::ResolvedPredicateExpression;

fn table() -> ReferenceMap {
    let mut table = ReferenceMap::new();
    table.insert(ResolvedReference::root());
    table.insert(ResolvedReference::visible_heads());
    for name in ["a", "b", "c", "d", "e"] {
        table.insert(ResolvedReference::new_owned(name.to_string()));
    }
    table
}

const ROOT: u64 = 0;
const VISIBLE_HEADS: u64 = 1;
const A: u64 = 2;
const B: u64 = 3;
const C: u64 = 4;
const D: u64 = 5;

fn id(index: u64) -> CommitId {
    CommitId::new(index.to_le_bytes().to_vec())
}

fn commits(indices: &[u64]) -> ResolvedExpression {
    ResolvedExpression::Commits(indices.iter().map(|index| id(*index)).collect())
}

fn union(left: ResolvedExpression, right: ResolvedExpression) -> ResolvedExpression {
    ResolvedExpression::Union(Box::new(left), Box::new(right))
}

fn intersection(left: ResolvedExpression, right: ResolvedExpression) -> ResolvedExpression {
    ResolvedExpression::Intersection(Box::new(left), Box::new(right))
}

fn coalesce(left: ResolvedExpression, right: ResolvedExpression) -> ResolvedExpression {
    ResolvedExpression::Coalesce(Box::new(left), Box::new(right))
}

fn heads(inner: ResolvedExpression) -> ResolvedExpression {
    ResolvedExpression::Heads(Box::new(inner))
}

fn shown(expr: &Expr<'_>) -> String {
    match expr {
        Expr::Nothing => "none".to_string(),
        Expr::Reference(reference) => reference.as_str().to_string(),
        Expr::Heads(inner) => format!("heads({})", shown(inner)),
        Expr::Roots(inner) => format!("roots({})", shown(inner)),
        Expr::Union(exprs) => format!("union{:?}", exprs.iter().map(shown).collect::<Vec<_>>()),
        Expr::Intersection(exprs) => {
            format!("intersection{:?}", exprs.iter().map(shown).collect::<Vec<_>>())
        }
        Expr::Coalesce(exprs) => {
            format!("coalesce{:?}", exprs.iter().map(shown).collect::<Vec<_>>())
        }
        Expr::Difference(left, right) => format!("({} ~ {})", shown(left), shown(right)),
        other => format!("{other:?}"),
    }
}

fn shown_predicate(predicate: &Predicate<'_>) -> String {
    match predicate {
        Predicate::InSet(expr) => format!("in({})", shown(expr)),
        Predicate::NotIn(inner) => format!("not({})", shown_predicate(inner)),
        Predicate::Union(predicates) => {
            format!("union{:?}", predicates.iter().map(shown_predicate).collect::<Vec<_>>())
        }
        Predicate::Intersection(predicates) => format!(
            "intersection{:?}",
            predicates.iter().map(shown_predicate).collect::<Vec<_>>()
        ),
        Predicate::Divergent { visible_heads } => format!("divergent({})", shown(visible_heads)),
        Predicate::Filter(filter) => format!("{filter:?}"),
    }
}

fn import(expr: ResolvedExpression) -> String {
    let table = table();
    assert!(expr.refers_only_to(&table));
    shown(&Expr::parse(expr, &table))
}

fn import_predicate(predicate: ResolvedPredicateExpression) -> String {
    let table = table();
    assert!(predicate.refers_only_to(&table));
    shown_predicate(&Predicate::parse(predicate, &table))
}

#[test]
fn an_empty_literal_set_is_nothing() {
    assert_eq!(import(commits(&[])), "none");
}

#[test]
fn a_single_commit_is_its_reference() {
    assert_eq!(import(commits(&[A])), "a");
    assert_eq!(import(commits(&[ROOT])), "root()");
    assert_eq!(import(commits(&[VISIBLE_HEADS])), "visible_heads()");
}

#[test]
fn a_literal_set_with_the_visible_heads_collapses() {
    assert_eq!(
        import(commits(&[A, VISIBLE_HEADS])),
        "visible_heads() and referenced revisions"
    );
    assert_eq!(
        import(commits(&[VISIBLE_HEADS, A, B])),
        "visible_heads() and referenced revisions"
    );
}

#[test]
fn any_other_literal_set_is_a_union_of_references() {
    assert_eq!(import(commits(&[A, B])), "union[\"a\", \"b\"]");
    assert_eq!(import(commits(&[C, A, ROOT])), "union[\"c\", \"a\", \"root()\"]");
    assert_eq!(import(commits(&[A, A])), "union[\"a\", \"a\"]");
}

#[test]
fn unions_flatten_whatever_their_nesting() {
    let leaf = |index| heads(commits(&[index]));
    let expected = "union[\"heads(a)\", \"heads(b)\", \"heads(c)\", \"heads(d)\"]";
    let left_leaning = union(union(union(leaf(A), leaf(B)), leaf(C)), leaf(D));
    let right_leaning = union(leaf(A), union(leaf(B), union(leaf(C), leaf(D))));
    let balanced = union(union(leaf(A), leaf(B)), union(leaf(C), leaf(D)));
    let mixed = union(leaf(A), union(union(leaf(B), leaf(C)), leaf(D)));
    assert_eq!(import(left_leaning), expected);
    assert_eq!(import(right_leaning), expected);
    assert_eq!(import(balanced), expected);
    assert_eq!(import(mixed), expected);
}

#[test]
fn intersections_flatten_whatever_their_nesting() {
    let leaf = |index| commits(&[index]);
    let expected = "intersection[\"a\", \"b\", \"c\"]";
    assert_eq!(import(intersection(intersection(leaf(A), leaf(B)), leaf(C))), expected);
    assert_eq!(import(intersection(leaf(A), intersection(leaf(B), leaf(C)))), expected);
}

#[test]
fn coalesces_flatten_whatever_their_nesting() {
    let leaf = |index| commits(&[index]);
    let expected = "coalesce[\"a\", \"b\", \"c\", \"d\"]";
    assert_eq!(
        import(coalesce(coalesce(leaf(A), leaf(B)), coalesce(leaf(C), leaf(D)))),
        expected
    );
    assert_eq!(
        import(coalesce(leaf(A), coalesce(leaf(B), coalesce(leaf(C), leaf(D))))),
        expected
    );
}

#[test]
fn flattening_stops_at_other_operators() {
    let leaf = |index| commits(&[index]);
    assert_eq!(
        import(union(intersection(leaf(A), leaf(B)), union(leaf(C), leaf(D)))),
        "union[\"intersection[\\\"a\\\", \\\"b\\\"]\", \"c\", \"d\"]"
    );
    assert_eq!(
        import(intersection(union(leaf(A), leaf(B)), leaf(C))),
        "intersection[\"union[\\\"a\\\", \\\"b\\\"]\", \"c\"]"
    );
    assert_eq!(
        import(coalesce(leaf(A), heads(coalesce(leaf(B), leaf(C))))),
        "coalesce[\"a\", \"heads(coalesce[\\\"b\\\", \\\"c\\\"])\"]"
    );
}

#[test]
fn literal_sets_are_spread_into_a_union() {
    assert_eq!(
        import(union(commits(&[A, B]), commits(&[C]))),
        "union[\"a\", \"b\", \"c\"]"
    );
    assert_eq!(
        import(union(heads(commits(&[D])), union(commits(&[]), commits(&[A, B])))),
        "union[\"heads(d)\", \"a\", \"b\"]"
    );
    assert_eq!(import(union(commits(&[]), commits(&[]))), "union[]");
}

#[test]
fn a_literal_set_with_the_visible_heads_stays_whole_in_a_union() {
    assert_eq!(
        import(union(commits(&[A, VISIBLE_HEADS]), commits(&[B]))),
        "union[\"visible_heads() and referenced revisions\", \"b\"]"
    );
    assert_eq!(
        import(union(commits(&[VISIBLE_HEADS]), commits(&[B]))),
        "union[\"visible_heads()\", \"b\"]"
    );
}

#[test]
fn literal_sets_are_not_spread_into_other_lists() {
    assert_eq!(
        import(intersection(commits(&[A, B]), commits(&[C]))),
        "intersection[\"union[\\\"a\\\", \\\"b\\\"]\", \"c\"]"
    );
    assert_eq!(
        import(coalesce(commits(&[]), commits(&[A, B]))),
        "coalesce[\"none\", \"union[\\\"a\\\", \\\"b\\\"]\"]"
    );
}

#[test]
fn a_deeply_nested_union_is_taken_apart() {
    let mut left = commits(&[A]);
    let mut right = commits(&[B]);
    for _ in 0..20_000 {
        left = union(left, commits(&[C]));
        right = union(commits(&[D]), right);
    }
    let table = table();
    let nested = union(left, right);
    assert!(nested.refers_only_to(&table));
    match Expr::parse(nested, &table) {
        Expr::Union(exprs) => {
            assert_eq!(exprs.len(), 40_002);
            assert_eq!(shown(&exprs[0]), "a");
            assert_eq!(shown(&exprs[1]), "c");
            assert_eq!(shown(&exprs[20_000]), "c");
            assert_eq!(shown(&exprs[20_001]), "d");
            assert_eq!(shown(&exprs[40_001]), "b");
        }
        other => panic!("not a union: {other:?}"),
    }
}

#[test]
fn other_nodes_keep_their_shape_and_numbers() {
    let table = table();
    let ancestors = ResolvedExpression::Ancestors {
        heads: Box::new(commits(&[A])),
        generation: 1..5,
        parents_range: 0..1,
    };
    match Expr::parse(ancestors, &table) {
        Expr::Ancestors { heads, generation, parents_range } => {
            assert_eq!(shown(&heads), "a");
            assert_eq!(generation, 1..5);
            assert_eq!(parents_range, 0..1);
        }
        other => panic!("not ancestors: {other:?}"),
    }
    let range = ResolvedExpression::Range {
        roots: Box::new(commits(&[ROOT])),
        heads: Box::new(commits(&[A, B])),
        generation: 0..u64::MAX,
        parents_range: 0..u32::MAX,
    };
    match Expr::parse(range, &table) {
        Expr::Range { roots, heads, generation, parents_range } => {
            assert_eq!(shown(&roots), "root()");
            assert_eq!(shown(&heads), "union[\"a\", \"b\"]");
            assert_eq!(generation, 0..u64::MAX);
            assert_eq!(parents_range, 0..u32::MAX);
        }
        other => panic!("not a range: {other:?}"),
    }
    let dag_range = ResolvedExpression::DagRange {
        roots: Box::new(commits(&[A])),
        heads: Box::new(commits(&[B])),
        generation_from_roots: 1..2,
    };
    match Expr::parse(dag_range, &table) {
        Expr::DagRange { roots, heads, generation_from_roots } => {
            assert_eq!(shown(&roots), "a");
            assert_eq!(shown(&heads), "b");
            assert_eq!(generation_from_roots, 1..2);
        }
        other => panic!("not a dag range: {other:?}"),
    }
    let latest = ResolvedExpression::Latest { candidates: Box::new(commits(&[A])), count: 7 };
    match Expr::parse(latest, &table) {
        Expr::Latest { candidates, count } => {
            assert_eq!(shown(&candidates), "a");
            assert_eq!(count, 7);
        }
        other => panic!("not latest: {other:?}"),
    }
    let has_size = ResolvedExpression::HasSize { candidates: Box::new(commits(&[])), count: 0 };
    match Expr::parse(has_size, &table) {
        Expr::HasSize { candidates, count } => {
            assert_eq!(shown(&candidates), "none");
            assert_eq!(count, 0);
        }
        other => panic!("not has-size: {other:?}"),
    }
}

#[test]
fn single_operand_nodes_import_their_operand() {
    assert_eq!(import(heads(commits(&[A, B]))), "heads(union[\"a\", \"b\"])");
    assert_eq!(import(ResolvedExpression::Roots(Box::new(commits(&[A])))), "roots(a)");
    assert_eq!(
        import(ResolvedExpression::Difference(
            Box::new(commits(&[A])),
            Box::new(union(commits(&[B]), commits(&[C]))),
        )),
        "(a ~ union[\"b\", \"c\"])"
    );
    let table = table();
    assert!(matches!(
        Expr::parse(ResolvedExpression::ForkPoint(Box::new(commits(&[A]))), &table),
        Expr::ForkPoint(_)
    ));
    assert!(matches!(
        Expr::parse(ResolvedExpression::Bisect(Box::new(commits(&[A]))), &table),
        Expr::Bisect(_)
    ));
    assert!(matches!(
        Expr::parse(
            ResolvedExpression::Reachable {
                sources: Box::new(commits(&[A])),
                domain: Box::new(commits(&[B])),
            },
            &table
        ),
        Expr::Reachable { .. }
    ));
}

#[test]
fn filters_pass_through_unchanged() {
    assert_eq!(
        import_predicate(ResolvedPredicateExpression::Filter(RevsetFilterPredicate::Signed)),
        "Signed"
    );
    assert_eq!(
        import_predicate(ResolvedPredicateExpression::NotIn(Box::new(
            ResolvedPredicateExpression::Filter(RevsetFilterPredicate::HasConflict)
        ))),
        "not(HasConflict)"
    );
}

#[test]
fn divergent_imports_its_heads_as_a_literal_set() {
    assert_eq!(
        import_predicate(ResolvedPredicateExpression::Divergent {
            visible_heads: vec![id(VISIBLE_HEADS)]
        }),
        "divergent(visible_heads())"
    );
    assert_eq!(
        import_predicate(ResolvedPredicateExpression::Divergent { visible_heads: vec![] }),
        "divergent(none)"
    );
    assert_eq!(
        import_predicate(ResolvedPredicateExpression::Divergent {
            visible_heads: vec![id(A), id(B)]
        }),
        "divergent(union[\"a\", \"b\"])"
    );
}

fn signed() -> ResolvedPredicateExpression {
    ResolvedPredicateExpression::Filter(RevsetFilterPredicate::Signed)
}

fn conflicted() -> ResolvedPredicateExpression {
    ResolvedPredicateExpression::Filter(RevsetFilterPredicate::HasConflict)
}

fn either(
    left: ResolvedPredicateExpression,
    right: ResolvedPredicateExpression,
) -> ResolvedPredicateExpression {
    ResolvedPredicateExpression::Union(Box::new(left), Box::new(right))
}

fn both(
    left: ResolvedPredicateExpression,
    right: ResolvedPredicateExpression,
) -> ResolvedPredicateExpression {
    ResolvedPredicateExpression::Intersection(Box::new(left), Box::new(right))
}

fn member(set: ResolvedExpression) -> ResolvedPredicateExpression {
    ResolvedPredicateExpression::InSet(Box::new(set))
}

#[test]
fn predicate_lists_flatten_whatever_their_nesting() {
    let expected = "union[\"Signed\", \"HasConflict\", \"Signed\"]";
    assert_eq!(import_predicate(either(either(signed(), conflicted()), signed())), expected);
    assert_eq!(import_predicate(either(signed(), either(conflicted(), signed()))), expected);
    let expected = "intersection[\"Signed\", \"HasConflict\", \"in(a)\"]";
    assert_eq!(
        import_predicate(both(both(signed(), conflicted()), member(commits(&[A])))),
        expected
    );
    assert_eq!(
        import_predicate(both(signed(), both(conflicted(), member(commits(&[A]))))),
        expected
    );
}

#[test]
fn a_union_of_sets_below_a_predicate_union_is_spread() {
    assert_eq!(
        import_predicate(either(signed(), member(commits(&[A, B])))),
        "union[\"Signed\", \"in(a)\", \"in(b)\"]"
    );
    assert_eq!(
        import_predicate(either(
            member(union(heads(commits(&[A])), commits(&[B, C]))),
            conflicted()
        )),
        "union[\"in(heads(a))\", \"in(b)\", \"in(c)\", \"HasConflict\"]"
    );
    assert_eq!(
        import_predicate(either(member(commits(&[A])), member(commits(&[])))),
        "union[\"in(a)\", \"in(none)\"]"
    );
}

#[test]
fn a_union_of_sets_below_a_predicate_intersection_stays_whole() {
    assert_eq!(
        import_predicate(both(signed(), member(commits(&[A, B])))),
        "intersection[\"Signed\", \"in(union[\\\"a\\\", \\\"b\\\"])\"]"
    );
    assert_eq!(
        import_predicate(member(commits(&[A, B]))),
        "in(union[\"a\", \"b\"])"
    );
}

#[test]
fn predicates_below_expressions_are_imported() {
    let table = table();
    let filtered = ResolvedExpression::FilterWithin {
        candidates: Box::new(commits(&[A])),
        predicate: either(signed(), either(conflicted(), member(commits(&[B, C])))),
    };
    match Expr::parse(filtered, &table) {
        Expr::FilterWithin { candidates, predicate } => {
            assert_eq!(shown(&candidates), "a");
            assert_eq!(
                shown_predicate(&predicate),
                "union[\"Signed\", \"HasConflict\", \"in(b)\", \"in(c)\"]"
            );
        }
        other => panic!("not a filter: {other:?}"),
    }
    let heads_range = ResolvedExpression::HeadsRange {
        roots: Box::new(commits(&[ROOT])),
        heads: Box::new(commits(&[VISIBLE_HEADS])),
        parents_range: 0..1,
        filter: Some(signed()),
    };
    match Expr::parse(heads_range, &table) {
        Expr::HeadsRange { roots, heads, parents_range, filter } => {
            assert_eq!(shown(&roots), "root()");
            assert_eq!(shown(&heads), "visible_heads()");
            assert_eq!(parents_range, 0..1);
            assert_eq!(shown_predicate(&filter.unwrap()), "Signed");
        }
        other => panic!("not a range of heads: {other:?}"),
    }
    let unfiltered = ResolvedExpression::HeadsRange {
        roots: Box::new(commits(&[ROOT])),
        heads: Box::new(commits(&[VISIBLE_HEADS])),
        parents_range: 0..u32::MAX,
        filter: None,
    };
    assert!(matches!(
        Expr::parse(unfiltered, &table),
        Expr::HeadsRange { filter: None, .. }
    ));
}

#[test]
fn trees_with_unknown_identifiers_are_told_apart() {
    let table = table();
    assert!(commits(&[A, B]).refers_only_to(&table));
    assert!(!commits(&[A, 7]).refers_only_to(&table));
    assert!(!union(commits(&[A]), heads(commits(&[99]))).refers_only_to(&table));
    assert!(!ResolvedExpression::Commits(vec![CommitId::new(vec![1, 2])]).refers_only_to(&table));
    assert!(!ResolvedExpression::FilterWithin {
        candidates: Box::new(commits(&[A])),
        predicate: member(commits(&[50])),
    }
    .refers_only_to(&table));
    assert!(!ResolvedPredicateExpression::Divergent { visible_heads: vec![id(50)] }
        .refers_only_to(&table));
    assert!(either(signed(), member(commits(&[A]))).refers_only_to(&table));
    assert!(Expr::try_parse(commits(&[A, 7]), &table).is_none());
    assert_eq!(shown(&Expr::try_parse(commits(&[A]), &table).unwrap()), "a");
    assert!(!commits(&[0]).refers_only_to(&ReferenceMap::new()));
    assert!(commits(&[]).refers_only_to(&ReferenceMap::new()));
}
