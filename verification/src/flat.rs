//! The shape that import establishes: no list of operands holds an operand
//! of its own kind.

use crate::expr::ExprView;
use crate::expr::PredicateView;
use crate::import::imported;
use crate::import::imported_commits;
use crate::import::imported_predicate;
use crate::import::items;
use crate::import::memberships;
use crate::import::predicate_items;
use crate::import::references;
use crate::import::Operator;
use crate::resolved::CommitId;
use crate::resolved::ResolvedExpression;
use crate::resolved::ResolvedPredicateExpression;
use vstd::prelude::*;

verus! {

/// Whether an expression is a list of operands of the given operator.
pub open spec fn lists(operator: Operator, expr: ExprView) -> bool {
    match operator {
        Operator::Coalesce => expr is Coalesce,
        Operator::Union => expr is Union,
        Operator::Intersection => expr is Intersection,
    }
}

/// Whether a predicate is a list of operands of the given operator.
pub open spec fn predicate_lists(operator: Operator, predicate: PredicateView) -> bool {
    match operator {
        Operator::Coalesce => false,
        Operator::Union => predicate is Union,
        Operator::Intersection => predicate is Intersection,
    }
}

/// Whether each of the first `upto` operands of a list of the given operator
/// is flat and no list of that operator itself.
pub open spec fn flat_operands(operator: Operator, exprs: Seq<ExprView>, upto: int) -> bool
    decreases exprs, upto,
{
    if 0 < upto <= exprs.len() {
        flat_operands(operator, exprs, upto - 1) && !lists(operator, exprs[upto - 1]) && is_flat(
            exprs[upto - 1],
        )
    } else {
        true
    }
}

/// Whether each of the first `upto` operands of a list of predicates of the
/// given operator is flat and no list of that operator itself.
pub open spec fn flat_predicate_operands(
    operator: Operator,
    predicates: Seq<PredicateView>,
    upto: int,
) -> bool
    decreases predicates, upto,
{
    if 0 < upto <= predicates.len() {
        flat_predicate_operands(operator, predicates, upto - 1) && !predicate_lists(
            operator,
            predicates[upto - 1],
        ) && is_flat_predicate(predicates[upto - 1])
    } else {
        true
    }
}

/// Whether a predicate is flat: no union in it holds a union directly, no
/// intersection an intersection, and the expressions in it are flat.
pub open spec fn is_flat_predicate(predicate: PredicateView) -> bool
    decreases predicate, 0int,
{
    match predicate {
        PredicateView::Filter(_) => true,
        PredicateView::Divergent { visible_heads } => is_flat(*visible_heads),
        PredicateView::InSet(expr) => is_flat(*expr),
        PredicateView::NotIn(inner) => is_flat_predicate(*inner),
        PredicateView::Union(predicates) => flat_predicate_operands(
            Operator::Union,
            predicates,
            predicates.len() as int,
        ),
        PredicateView::Intersection(predicates) => flat_predicate_operands(
            Operator::Intersection,
            predicates,
            predicates.len() as int,
        ),
    }
}

/// Whether an expression is flat: no coalesce in it holds a coalesce
/// directly, no union a union and no intersection an intersection.
pub open spec fn is_flat(expr: ExprView) -> bool
    decreases expr, 0int,
{
    match expr {
        ExprView::Nothing => true,
        ExprView::Reference(_) => true,
        ExprView::Ancestors { heads, generation, parents_range } => is_flat(*heads),
        ExprView::Range { roots, heads, generation, parents_range } => is_flat(*roots) && is_flat(
            *heads,
        ),
        ExprView::DagRange { roots, heads, generation_from_roots } => is_flat(*roots) && is_flat(
            *heads,
        ),
        ExprView::Reachable { sources, domain } => is_flat(*sources) && is_flat(*domain),
        ExprView::Heads(inner) => is_flat(*inner),
        ExprView::HeadsRange { roots, heads, parents_range, filter } => is_flat(*roots) && is_flat(
            *heads,
        ) && match filter {
            Some(predicate) => is_flat_predicate(predicate),
            None => true,
        },
        ExprView::Roots(inner) => is_flat(*inner),
        ExprView::ForkPoint(inner) => is_flat(*inner),
        ExprView::Bisect(inner) => is_flat(*inner),
        ExprView::HasSize { candidates, count } => is_flat(*candidates),
        ExprView::Latest { candidates, count } => is_flat(*candidates),
        ExprView::Coalesce(exprs) => flat_operands(Operator::Coalesce, exprs, exprs.len() as int),
        ExprView::Union(exprs) => flat_operands(Operator::Union, exprs, exprs.len() as int),
        ExprView::FilterWithin { candidates, predicate } => is_flat(*candidates)
            && is_flat_predicate(predicate),
        ExprView::Intersection(exprs) => flat_operands(
            Operator::Intersection,
            exprs,
            exprs.len() as int,
        ),
        ExprView::Difference(left, right) => is_flat(*left) && is_flat(*right),
    }
}

/// The first `upto` operands are flat operands exactly if each of them is.
pub proof fn lemma_flat_operands(operator: Operator, exprs: Seq<ExprView>, upto: int)
    requires
        0 <= upto <= exprs.len(),
    ensures
        flat_operands(operator, exprs, upto) <==> (forall|i: int|
            0 <= i < upto ==> !lists(operator, #[trigger] exprs[i]) && is_flat(exprs[i])),
    decreases upto,
{
    if upto > 0 {
        lemma_flat_operands(operator, exprs, upto - 1);
    }
}

/// The first `upto` predicates are flat operands exactly if each of them is.
pub proof fn lemma_flat_predicate_operands(
    operator: Operator,
    predicates: Seq<PredicateView>,
    upto: int,
)
    requires
        0 <= upto <= predicates.len(),
    ensures
        flat_predicate_operands(operator, predicates, upto) <==> (forall|i: int|
            0 <= i < upto ==> !predicate_lists(operator, #[trigger] predicates[i])
                && is_flat_predicate(predicates[i])),
    decreases upto,
{
    if upto > 0 {
        lemma_flat_predicate_operands(operator, predicates, upto - 1);
    }
}

/// Two lists of flat operands, one behind the other, are a list of flat
/// operands.
proof fn lemma_flat_operands_joined(
    operator: Operator,
    first: Seq<ExprView>,
    second: Seq<ExprView>,
)
    requires
        flat_operands(operator, first, first.len() as int),
        flat_operands(operator, second, second.len() as int),
    ensures
        flat_operands(operator, first + second, (first + second).len() as int),
{
    lemma_flat_operands(operator, first, first.len() as int);
    lemma_flat_operands(operator, second, second.len() as int);
    lemma_flat_operands(operator, first + second, (first + second).len() as int);
    assert forall|i: int| 0 <= i < (first + second).len() implies !lists(
        operator,
        #[trigger] (first + second)[i],
    ) && is_flat((first + second)[i]) by {
        if i < first.len() {
            assert((first + second)[i] == first[i]);
        } else {
            assert((first + second)[i] == second[i - first.len()]);
        }
    }
}

/// Two lists of flat predicates, one behind the other, are a list of flat
/// predicates.
proof fn lemma_flat_predicate_operands_joined(
    operator: Operator,
    first: Seq<PredicateView>,
    second: Seq<PredicateView>,
)
    requires
        flat_predicate_operands(operator, first, first.len() as int),
        flat_predicate_operands(operator, second, second.len() as int),
    ensures
        flat_predicate_operands(operator, first + second, (first + second).len() as int),
{
    lemma_flat_predicate_operands(operator, first, first.len() as int);
    lemma_flat_predicate_operands(operator, second, second.len() as int);
    lemma_flat_predicate_operands(operator, first + second, (first + second).len() as int);
    assert forall|i: int| 0 <= i < (first + second).len() implies !predicate_lists(
        operator,
        #[trigger] (first + second)[i],
    ) && is_flat_predicate((first + second)[i]) by {
        if i < first.len() {
            assert((first + second)[i] == first[i]);
        } else {
            assert((first + second)[i] == second[i - first.len()]);
        }
    }
}

/// A single flat operand that is no list of the operator is a list of flat
/// operands.
proof fn lemma_flat_single(operator: Operator, expr: ExprView)
    requires
        is_flat(expr),
        !lists(operator, expr),
    ensures
        flat_operands(operator, seq![expr], 1),
{
    lemma_flat_operands(operator, seq![expr], 1);
}

/// A single flat predicate that is no list of the operator is a list of flat
/// predicates.
proof fn lemma_flat_predicate_single(operator: Operator, predicate: PredicateView)
    requires
        is_flat_predicate(predicate),
        !predicate_lists(operator, predicate),
    ensures
        flat_predicate_operands(operator, seq![predicate], 1),
{
    lemma_flat_predicate_operands(operator, seq![predicate], 1);
}

/// References are flat operands of any operator.
proof fn lemma_references_flat(operator: Operator, table: Seq<Seq<char>>, ids: Seq<CommitId>)
    ensures
        flat_operands(operator, references(table, ids), references(table, ids).len() as int),
        is_flat(imported_commits(table, ids)),
{
    let all = references(table, ids);
    lemma_flat_operands(operator, all, all.len() as int);
    lemma_flat_operands(Operator::Union, all, all.len() as int);
}

/// Whatever a resolved tree is imported as is flat, and so is what it
/// contributes to a list of operands: import leaves no coalesce directly in a
/// coalesce, no union in a union and no intersection in an intersection.
pub proof fn lemma_import_is_flat(
    operator: Operator,
    expr: &ResolvedExpression,
    table: Seq<Seq<char>>,
)
    ensures
        is_flat(imported(expr, table)),
        flat_operands(
            operator,
            items(operator, expr, table),
            items(operator, expr, table).len() as int,
        ),
    decreases expr,
{
    match expr {
        ResolvedExpression::Commits(ids) => {
            lemma_references_flat(operator, table, ids@);
        },
        ResolvedExpression::Ancestors { heads, generation, parents_range } => {
            lemma_import_is_flat(operator, heads, table);
        },
        ResolvedExpression::Range { roots, heads, generation, parents_range } => {
            lemma_import_is_flat(operator, roots, table);
            lemma_import_is_flat(operator, heads, table);
        },
        ResolvedExpression::DagRange { roots, heads, generation_from_roots } => {
            lemma_import_is_flat(operator, roots, table);
            lemma_import_is_flat(operator, heads, table);
        },
        ResolvedExpression::Reachable { sources, domain } => {
            lemma_import_is_flat(operator, sources, table);
            lemma_import_is_flat(operator, domain, table);
        },
        ResolvedExpression::Heads(inner) => {
            lemma_import_is_flat(operator, inner, table);
        },
        ResolvedExpression::HeadsRange { roots, heads, parents_range, filter } => {
            lemma_import_is_flat(operator, roots, table);
            lemma_import_is_flat(operator, heads, table);
            match filter {
                Some(predicate) => {
                    lemma_predicate_import_is_flat(operator, predicate, table);
                },
                None => {},
            }
        },
        ResolvedExpression::Roots(inner) => {
            lemma_import_is_flat(operator, inner, table);
        },
        ResolvedExpression::ForkPoint(inner) => {
            lemma_import_is_flat(operator, inner, table);
        },
        ResolvedExpression::Bisect(inner) => {
            lemma_import_is_flat(operator, inner, table);
        },
        ResolvedExpression::HasSize { candidates, count } => {
            lemma_import_is_flat(operator, candidates, table);
        },
        ResolvedExpression::Latest { candidates, count } => {
            lemma_import_is_flat(operator, candidates, table);
        },
        ResolvedExpression::Coalesce(a, b) => {
            lemma_import_is_flat(Operator::Coalesce, a, table);
            lemma_import_is_flat(Operator::Coalesce, b, table);
            lemma_flat_operands_joined(
                Operator::Coalesce,
                items(Operator::Coalesce, a, table),
                items(Operator::Coalesce, b, table),
            );
        },
        ResolvedExpression::Union(a, b) => {
            lemma_import_is_flat(Operator::Union, a, table);
            lemma_import_is_flat(Operator::Union, b, table);
            lemma_flat_operands_joined(
                Operator::Union,
                items(Operator::Union, a, table),
                items(Operator::Union, b, table),
            );
        },
        ResolvedExpression::FilterWithin { candidates, predicate } => {
            lemma_import_is_flat(operator, candidates, table);
            lemma_predicate_import_is_flat(operator, predicate, table);
        },
        ResolvedExpression::Intersection(a, b) => {
            lemma_import_is_flat(Operator::Intersection, a, table);
            lemma_import_is_flat(Operator::Intersection, b, table);
            lemma_flat_operands_joined(
                Operator::Intersection,
                items(Operator::Intersection, a, table),
                items(Operator::Intersection, b, table),
            );
        },
        ResolvedExpression::Difference(a, b) => {
            lemma_import_is_flat(operator, a, table);
            lemma_import_is_flat(operator, b, table);
        },
    }
    assert(is_flat(imported(expr, table)));
    if items(operator, expr, table) == seq![imported(expr, table)] {
        if lists(operator, imported(expr, table)) {
            assert(false);
        }
        lemma_flat_single(operator, imported(expr, table));
    }
}

/// Whatever a resolved predicate is imported as is flat, and so is what it
/// contributes to a list of predicates.
pub proof fn lemma_predicate_import_is_flat(
    operator: Operator,
    predicate: &ResolvedPredicateExpression,
    table: Seq<Seq<char>>,
)
    ensures
        is_flat_predicate(imported_predicate(predicate, table)),
        flat_predicate_operands(
            operator,
            predicate_items(operator, predicate, table),
            predicate_items(operator, predicate, table).len() as int,
        ),
    decreases predicate,
{
    match predicate {
        ResolvedPredicateExpression::Filter(filter) => {},
        ResolvedPredicateExpression::Divergent { visible_heads } => {
            lemma_references_flat(operator, table, visible_heads@);
        },
        ResolvedPredicateExpression::InSet(expr) => {
            lemma_import_is_flat(Operator::Union, expr, table);
            match imported(expr, table) {
                ExprView::Union(exprs) => {
                    let wrapped = memberships(exprs);
                    lemma_flat_operands(Operator::Union, exprs, exprs.len() as int);
                    lemma_flat_predicate_operands(operator, wrapped, wrapped.len() as int);
                },
                other => {
                    lemma_flat_predicate_single(operator, PredicateView::InSet(Box::new(other)));
                },
            }
        },
        ResolvedPredicateExpression::NotIn(inner) => {
            lemma_predicate_import_is_flat(operator, inner, table);
        },
        ResolvedPredicateExpression::Union(a, b) => {
            lemma_predicate_import_is_flat(Operator::Union, a, table);
            lemma_predicate_import_is_flat(Operator::Union, b, table);
            lemma_flat_predicate_operands_joined(
                Operator::Union,
                predicate_items(Operator::Union, a, table),
                predicate_items(Operator::Union, b, table),
            );
        },
        ResolvedPredicateExpression::Intersection(a, b) => {
            lemma_predicate_import_is_flat(Operator::Intersection, a, table);
            lemma_predicate_import_is_flat(Operator::Intersection, b, table);
            lemma_flat_predicate_operands_joined(
                Operator::Intersection,
                predicate_items(Operator::Intersection, a, table),
                predicate_items(Operator::Intersection, b, table),
            );
        },
    }
    assert(is_flat_predicate(imported_predicate(predicate, table)));
    if predicate_items(operator, predicate, table) == seq![
        imported_predicate(predicate, table),
    ] {
        if predicate_lists(operator, imported_predicate(predicate, table)) {
            assert(false);
        }
        lemma_flat_predicate_single(operator, imported_predicate(predicate, table));
    }
}

} // verus!
