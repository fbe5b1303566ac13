//! Import of a resolved tree into the expression model: literal sets become
//! references, and nested applications of an associative operator become one
//! flat list of operands.

use crate::expr::expr_views;
use crate::expr::lemma_expr_views;
use crate::expr::lemma_predicate_views;
use crate::expr::predicate_views;
use crate::expr::visible_heads_or_referenced_text;
use crate::expr::visible_heads_text;
use crate::expr::Expr;
use crate::expr::ExprView;
use crate::expr::Predicate;
use crate::expr::PredicateView;
use crate::expr::ResolvedReference;
use crate::flat::is_flat;
use crate::flat::is_flat_predicate;
use crate::flat::lemma_import_is_flat;
use crate::flat::lemma_predicate_import_is_flat;
use crate::parse::index_of_id;
use crate::parse::is_known;
use crate::parse::ReferenceMap;
use crate::resolved::CommitId;
use crate::resolved::ResolvedExpression;
use crate::resolved::ResolvedPredicateExpression;
use vstd::prelude::*;

verus! {

/// The operators whose nested applications are flattened.
#[derive(Debug, Copy, Clone, PartialEq, Eq, Structural)]
pub enum Operator {
    Coalesce,
    Union,
    Intersection,
}

/// The text an identifier stands for.
pub open spec fn reference_text(table: Seq<Seq<char>>, id: CommitId) -> Seq<char> {
    table[index_of_id(id@) as int]
}

/// Whether every identifier of a list stands for an entry of the table.
pub open spec fn all_known(table: Seq<Seq<char>>, ids: Seq<CommitId>) -> bool {
    forall|i: int| 0 <= i < ids.len() ==> is_known(table, (#[trigger] ids[i])@)
}

/// Whether one of the identifiers of a literal set stands for the visible
/// heads.
pub open spec fn holds_visible_heads(table: Seq<Seq<char>>, ids: Seq<CommitId>) -> bool {
    exists|i: int| 0 <= i < ids.len() && reference_text(table, #[trigger] ids[i])
        == visible_heads_text()
}

/// One reference per identifier, in order.
pub open spec fn references(table: Seq<Seq<char>>, ids: Seq<CommitId>) -> Seq<ExprView> {
    Seq::new(ids.len(), |i: int| ExprView::Reference(reference_text(table, ids[i])))
}

/// What a literal set of commits is imported as: nothing where it is empty,
/// the reference itself where it holds one, the collapsed reference where
/// it includes the visible heads, and the union of its references otherwise.
pub open spec fn imported_commits(table: Seq<Seq<char>>, ids: Seq<CommitId>) -> ExprView {
    if ids.len() == 0 {
        ExprView::Nothing
    } else if ids.len() == 1 {
        ExprView::Reference(reference_text(table, ids[0]))
    } else if holds_visible_heads(table, ids) {
        ExprView::Reference(visible_heads_or_referenced_text())
    } else {
        ExprView::Union(references(table, ids))
    }
}

/// Whether every identifier in a resolved predicate stands for an entry of
/// the table.
pub open spec fn predicate_ids_known(
    predicate: &ResolvedPredicateExpression,
    table: Seq<Seq<char>>,
) -> bool
    decreases predicate,
{
    match predicate {
        ResolvedPredicateExpression::Filter(_) => true,
        ResolvedPredicateExpression::Divergent { visible_heads } => all_known(
            table,
            visible_heads@,
        ),
        ResolvedPredicateExpression::InSet(expr) => ids_known(expr, table),
        ResolvedPredicateExpression::NotIn(inner) => predicate_ids_known(inner, table),
        ResolvedPredicateExpression::Union(a, b) => predicate_ids_known(a, table)
            && predicate_ids_known(b, table),
        ResolvedPredicateExpression::Intersection(a, b) => predicate_ids_known(a, table)
            && predicate_ids_known(b, table),
    }
}

/// Whether every identifier in a resolved tree stands for an entry of the
/// table.
pub open spec fn ids_known(expr: &ResolvedExpression, table: Seq<Seq<char>>) -> bool
    decreases expr,
{
    match expr {
        ResolvedExpression::Commits(ids) => all_known(table, ids@),
        ResolvedExpression::Ancestors { heads, generation, parents_range } => ids_known(
            heads,
            table,
        ),
        ResolvedExpression::Range { roots, heads, generation, parents_range } => ids_known(
            roots,
            table,
        ) && ids_known(heads, table),
        ResolvedExpression::DagRange { roots, heads, generation_from_roots } => ids_known(
            roots,
            table,
        ) && ids_known(heads, table),
        ResolvedExpression::Reachable { sources, domain } => ids_known(sources, table)
            && ids_known(domain, table),
        ResolvedExpression::Heads(inner) => ids_known(inner, table),
        ResolvedExpression::HeadsRange { roots, heads, parents_range, filter } => ids_known(
            roots,
            table,
        ) && ids_known(heads, table) && match filter {
            Some(predicate) => predicate_ids_known(predicate, table),
            None => true,
        },
        ResolvedExpression::Roots(inner) => ids_known(inner, table),
        ResolvedExpression::ForkPoint(inner) => ids_known(inner, table),
        ResolvedExpression::Bisect(inner) => ids_known(inner, table),
        ResolvedExpression::HasSize { candidates, count } => ids_known(candidates, table),
        ResolvedExpression::Latest { candidates, count } => ids_known(candidates, table),
        ResolvedExpression::Coalesce(a, b) => ids_known(a, table) && ids_known(b, table),
        ResolvedExpression::Union(a, b) => ids_known(a, table) && ids_known(b, table),
        ResolvedExpression::FilterWithin { candidates, predicate } => ids_known(
            candidates,
            table,
        ) && predicate_ids_known(predicate, table),
        ResolvedExpression::Intersection(a, b) => ids_known(a, table) && ids_known(b, table),
        ResolvedExpression::Difference(a, b) => ids_known(a, table) && ids_known(b, table),
    }
}

/// Membership in each of a list of sets.
pub open spec fn memberships(exprs: Seq<ExprView>) -> Seq<PredicateView> {
    Seq::new(exprs.len(), |i: int| PredicateView::InSet(Box::new(exprs[i])))
}

/// The flat list of operands that a resolved predicate contributes to a
/// union or an intersection of predicates: the operands of both sides where
/// it applies the same operator, the members of the set one by one where it
/// is membership in a union met below a union, and itself otherwise.
pub open spec fn predicate_items(
    operator: Operator,
    predicate: &ResolvedPredicateExpression,
    table: Seq<Seq<char>>,
) -> Seq<PredicateView>
    decreases predicate, 1int,
{
    match predicate {
        ResolvedPredicateExpression::Union(a, b) => if operator == Operator::Union {
            predicate_items(operator, a, table) + predicate_items(operator, b, table)
        } else {
            seq![imported_predicate(predicate, table)]
        },
        ResolvedPredicateExpression::Intersection(a, b) => if operator == Operator::Intersection {
            predicate_items(operator, a, table) + predicate_items(operator, b, table)
        } else {
            seq![imported_predicate(predicate, table)]
        },
        ResolvedPredicateExpression::InSet(expr) => if operator == Operator::Union {
            match imported(expr, table) {
                ExprView::Union(exprs) => memberships(exprs),
                other => seq![PredicateView::InSet(Box::new(other))],
            }
        } else {
            seq![imported_predicate(predicate, table)]
        },
        _ => seq![imported_predicate(predicate, table)],
    }
}

/// What a resolved predicate is imported as.
pub open spec fn imported_predicate(
    predicate: &ResolvedPredicateExpression,
    table: Seq<Seq<char>>,
) -> PredicateView
    decreases predicate, 0int,
{
    match predicate {
        ResolvedPredicateExpression::Filter(filter) => PredicateView::Filter(*filter),
        ResolvedPredicateExpression::Divergent { visible_heads } => PredicateView::Divergent {
            visible_heads: Box::new(imported_commits(table, visible_heads@)),
        },
        ResolvedPredicateExpression::InSet(expr) => PredicateView::InSet(
            Box::new(imported(expr, table)),
        ),
        ResolvedPredicateExpression::NotIn(inner) => PredicateView::NotIn(
            Box::new(imported_predicate(inner, table)),
        ),
        ResolvedPredicateExpression::Union(a, b) => PredicateView::Union(
            predicate_items(Operator::Union, a, table) + predicate_items(
                Operator::Union,
                b,
                table,
            ),
        ),
        ResolvedPredicateExpression::Intersection(a, b) => PredicateView::Intersection(
            predicate_items(Operator::Intersection, a, table) + predicate_items(
                Operator::Intersection,
                b,
                table,
            ),
        ),
    }
}

/// The flat list of operands that a resolved tree contributes to an
/// application of `operator`: the operands of both sides where it applies
/// the same operator, its references one by one where it is a literal set
/// without the visible heads met below a union, and itself otherwise.
pub open spec fn items(operator: Operator, expr: &ResolvedExpression, table: Seq<Seq<char>>) -> Seq<
    ExprView,
>
    decreases expr, 1int,
{
    match expr {
        ResolvedExpression::Coalesce(a, b) => if operator == Operator::Coalesce {
            items(operator, a, table) + items(operator, b, table)
        } else {
            seq![imported(expr, table)]
        },
        ResolvedExpression::Union(a, b) => if operator == Operator::Union {
            items(operator, a, table) + items(operator, b, table)
        } else {
            seq![imported(expr, table)]
        },
        ResolvedExpression::Intersection(a, b) => if operator == Operator::Intersection {
            items(operator, a, table) + items(operator, b, table)
        } else {
            seq![imported(expr, table)]
        },
        ResolvedExpression::Commits(ids) => if operator == Operator::Union && !holds_visible_heads(
            table,
            ids@,
        ) {
            references(table, ids@)
        } else {
            seq![imported(expr, table)]
        },
        _ => seq![imported(expr, table)],
    }
}

/// What a resolved tree is imported as. Literal sets become references; the
/// three associative operators become flat lists; every other node is
/// imported child by child, with its ranges and counts unchanged.
pub open spec fn imported(expr: &ResolvedExpression, table: Seq<Seq<char>>) -> ExprView
    decreases expr, 0int,
{
    match expr {
        ResolvedExpression::Commits(ids) => imported_commits(table, ids@),
        ResolvedExpression::Ancestors { heads, generation, parents_range } => ExprView::Ancestors {
            heads: Box::new(imported(heads, table)),
            generation: *generation,
            parents_range: *parents_range,
        },
        ResolvedExpression::Range { roots, heads, generation, parents_range } => ExprView::Range {
            roots: Box::new(imported(roots, table)),
            heads: Box::new(imported(heads, table)),
            generation: *generation,
            parents_range: *parents_range,
        },
        ResolvedExpression::DagRange { roots, heads, generation_from_roots } => ExprView::DagRange {
            roots: Box::new(imported(roots, table)),
            heads: Box::new(imported(heads, table)),
            generation_from_roots: *generation_from_roots,
        },
        ResolvedExpression::Reachable { sources, domain } => ExprView::Reachable {
            sources: Box::new(imported(sources, table)),
            domain: Box::new(imported(domain, table)),
        },
        ResolvedExpression::Heads(inner) => ExprView::Heads(Box::new(imported(inner, table))),
        ResolvedExpression::HeadsRange { roots, heads, parents_range, filter } => {
            ExprView::HeadsRange {
                roots: Box::new(imported(roots, table)),
                heads: Box::new(imported(heads, table)),
                parents_range: *parents_range,
                filter: match filter {
                    Some(predicate) => Some(imported_predicate(predicate, table)),
                    None => None,
                },
            }
        },
        ResolvedExpression::Roots(inner) => ExprView::Roots(Box::new(imported(inner, table))),
        ResolvedExpression::ForkPoint(inner) => ExprView::ForkPoint(
            Box::new(imported(inner, table)),
        ),
        ResolvedExpression::Bisect(inner) => ExprView::Bisect(Box::new(imported(inner, table))),
        ResolvedExpression::HasSize { candidates, count } => ExprView::HasSize {
            candidates: Box::new(imported(candidates, table)),
            count: *count,
        },
        ResolvedExpression::Latest { candidates, count } => ExprView::Latest {
            candidates: Box::new(imported(candidates, table)),
            count: *count,
        },
        ResolvedExpression::Coalesce(a, b) => ExprView::Coalesce(
            items(Operator::Coalesce, a, table) + items(Operator::Coalesce, b, table),
        ),
        ResolvedExpression::Union(a, b) => ExprView::Union(
            items(Operator::Union, a, table) + items(Operator::Union, b, table),
        ),
        ResolvedExpression::FilterWithin { candidates, predicate } => ExprView::FilterWithin {
            candidates: Box::new(imported(candidates, table)),
            predicate: imported_predicate(predicate, table),
        },
        ResolvedExpression::Intersection(a, b) => ExprView::Intersection(
            items(Operator::Intersection, a, table) + items(Operator::Intersection, b, table),
        ),
        ResolvedExpression::Difference(a, b) => ExprView::Difference(
            Box::new(imported(a, table)),
            Box::new(imported(b, table)),
        ),
    }
}

/// The number of nodes of a resolved predicate, the trees below it included.
pub open spec fn predicate_size(predicate: &ResolvedPredicateExpression) -> nat
    decreases predicate,
{
    match predicate {
        ResolvedPredicateExpression::Filter(_) => 1,
        ResolvedPredicateExpression::Divergent { visible_heads } => 2,
        ResolvedPredicateExpression::InSet(expr) => 1 + size(expr),
        ResolvedPredicateExpression::NotIn(inner) => 1 + predicate_size(inner),
        ResolvedPredicateExpression::Union(a, b) => 1 + predicate_size(a) + predicate_size(b),
        ResolvedPredicateExpression::Intersection(a, b) => 1 + predicate_size(a) + predicate_size(
            b,
        ),
    }
}

/// The number of nodes of a resolved tree.
pub open spec fn size(expr: &ResolvedExpression) -> nat
    decreases expr,
{
    match expr {
        ResolvedExpression::Commits(_) => 1,
        ResolvedExpression::Ancestors { heads, generation, parents_range } => 1 + size(heads),
        ResolvedExpression::Range { roots, heads, generation, parents_range } => 1 + size(roots)
            + size(heads),
        ResolvedExpression::DagRange { roots, heads, generation_from_roots } => 1 + size(roots)
            + size(heads),
        ResolvedExpression::Reachable { sources, domain } => 1 + size(sources) + size(domain),
        ResolvedExpression::Heads(inner) => 1 + size(inner),
        ResolvedExpression::HeadsRange { roots, heads, parents_range, filter } => 1 + size(roots)
            + size(heads) + match filter {
            Some(predicate) => predicate_size(predicate),
            None => 0,
        },
        ResolvedExpression::Roots(inner) => 1 + size(inner),
        ResolvedExpression::ForkPoint(inner) => 1 + size(inner),
        ResolvedExpression::Bisect(inner) => 1 + size(inner),
        ResolvedExpression::HasSize { candidates, count } => 1 + size(candidates),
        ResolvedExpression::Latest { candidates, count } => 1 + size(candidates),
        ResolvedExpression::Coalesce(a, b) => 1 + size(a) + size(b),
        ResolvedExpression::Union(a, b) => 1 + size(a) + size(b),
        ResolvedExpression::FilterWithin { candidates, predicate } => 1 + size(candidates)
            + predicate_size(predicate),
        ResolvedExpression::Intersection(a, b) => 1 + size(a) + size(b),
        ResolvedExpression::Difference(a, b) => 1 + size(a) + size(b),
    }
}

/// The views of a list of expressions.
pub open spec fn views_of(exprs: Seq<Expr<'_>>) -> Seq<ExprView> {
    Seq::new(exprs.len(), |i: int| exprs[i]@)
}

/// The views of a list of predicates.
pub open spec fn predicate_views_of(predicates: Seq<Predicate<'_>>) -> Seq<PredicateView> {
    Seq::new(predicates.len(), |i: int| predicates[i]@)
}

/// What the trees still waiting on a work stack will contribute, the top of
/// the stack first.
pub open spec fn pending_items(
    operator: Operator,
    stack: Seq<ResolvedExpression>,
    table: Seq<Seq<char>>,
) -> Seq<ExprView>
    decreases stack.len(),
{
    if stack.len() == 0 {
        Seq::empty()
    } else {
        items(operator, &stack.last(), table) + pending_items(operator, stack.drop_last(), table)
    }
}

/// The number of nodes still waiting on a work stack.
pub open spec fn pending_size(stack: Seq<ResolvedExpression>) -> nat
    decreases stack.len(),
{
    if stack.len() == 0 {
        0
    } else {
        size(&stack.last()) + pending_size(stack.drop_last())
    }
}

/// What the predicates still waiting on a work stack will contribute, the
/// top of the stack first.
pub open spec fn pending_predicate_items(
    operator: Operator,
    stack: Seq<ResolvedPredicateExpression>,
    table: Seq<Seq<char>>,
) -> Seq<PredicateView>
    decreases stack.len(),
{
    if stack.len() == 0 {
        Seq::empty()
    } else {
        predicate_items(operator, &stack.last(), table) + pending_predicate_items(
            operator,
            stack.drop_last(),
            table,
        )
    }
}

/// The number of nodes still waiting on a work stack of predicates.
pub open spec fn pending_predicate_size(stack: Seq<ResolvedPredicateExpression>) -> nat
    decreases stack.len(),
{
    if stack.len() == 0 {
        0
    } else {
        predicate_size(&stack.last()) + pending_predicate_size(stack.drop_last())
    }
}

/// A tree put on a work stack is the next to contribute.
proof fn lemma_pending_push(
    operator: Operator,
    stack: Seq<ResolvedExpression>,
    top: ResolvedExpression,
    table: Seq<Seq<char>>,
)
    ensures
        pending_items(operator, stack.push(top), table) == items(operator, &top, table)
            + pending_items(operator, stack, table),
        pending_size(stack.push(top)) == size(&top) + pending_size(stack),
{
    assert(stack.push(top).drop_last() =~= stack);
}

/// A predicate put on a work stack is the next to contribute.
proof fn lemma_pending_predicate_push(
    operator: Operator,
    stack: Seq<ResolvedPredicateExpression>,
    top: ResolvedPredicateExpression,
    table: Seq<Seq<char>>,
)
    ensures
        pending_predicate_items(operator, stack.push(top), table) == predicate_items(
            operator,
            &top,
            table,
        ) + pending_predicate_items(operator, stack, table),
        pending_predicate_size(stack.push(top)) == predicate_size(&top) + pending_predicate_size(
            stack,
        ),
{
    assert(stack.push(top).drop_last() =~= stack);
}

/// The views of a list are the views of its members.
proof fn lemma_views_of(exprs: Seq<Expr<'_>>)
    ensures
        expr_views(exprs, exprs.len() as int) == views_of(exprs),
{
    lemma_expr_views(exprs, exprs.len() as int);
    assert(expr_views(exprs, exprs.len() as int) =~= views_of(exprs));
}

/// The views of a list of predicates are the views of its members.
proof fn lemma_predicate_views_of(predicates: Seq<Predicate<'_>>)
    ensures
        predicate_views(predicates, predicates.len() as int) == predicate_views_of(predicates),
{
    lemma_predicate_views(predicates, predicates.len() as int);
    assert(predicate_views(predicates, predicates.len() as int) =~= predicate_views_of(
        predicates,
    ));
}

/// Whether one of the identifiers of a literal set stands for the visible
/// heads.
fn includes_visible_heads(ids: &Vec<CommitId>, reference_map: &ReferenceMap) -> (found: bool)
    requires
        all_known(reference_map@, ids@),
    ensures
        found == holds_visible_heads(reference_map@, ids@),
{
    let mut i: usize = 0;
    while i < ids.len()
        invariant
            i <= ids.len(),
            all_known(reference_map@, ids@),
            forall|k: int|
                0 <= k < i ==> reference_text(reference_map@, #[trigger] ids@[k])
                    != visible_heads_text(),
        decreases ids.len() - i,
    {
        if reference_map.get(&ids[i]).is("visible_heads()") {
            assert(reference_text(reference_map@, ids@[i as int]) == visible_heads_text());
            return true;
        }
        i += 1;
    }
    false
}

/// Appends one reference per identifier.
fn push_references<'a>(
    ids: &Vec<CommitId>,
    reference_map: &'a ReferenceMap,
    result: &mut Vec<Expr<'a>>,
)
    requires
        all_known(reference_map@, ids@),
    ensures
        views_of(final(result)@) == views_of(old(result)@) + references(reference_map@, ids@),
{
    let ghost before = views_of(result@);
    let mut i: usize = 0;
    while i < ids.len()
        invariant
            i <= ids.len(),
            all_known(reference_map@, ids@),
            views_of(result@) == before + references(reference_map@, ids@).take(i as int),
        decreases ids.len() - i,
    {
        let ghost so_far = views_of(result@);
        let ghost all = references(reference_map@, ids@);
        let reference = Expr::Reference(reference_map.get(&ids[i]));
        assert(reference@ == all[i as int]);
        result.push(reference);
        i += 1;
        assert(views_of(result@) =~= so_far.push(all[i - 1]));
        assert(all.take(i as int) =~= all.take(i - 1).push(all[i - 1]));
        assert(views_of(result@) =~= before + all.take(i as int));
    }
    assert(references(reference_map@, ids@).take(ids.len() as int) =~= references(
        reference_map@,
        ids@,
    ));
}

/// Imports a literal set of commits.
fn parse_commits<'a>(ids: &Vec<CommitId>, reference_map: &'a ReferenceMap) -> (expr: Expr<'a>)
    requires
        all_known(reference_map@, ids@),
    ensures
        expr@ == imported_commits(reference_map@, ids@),
{
    if ids.len() == 0 {
        Expr::Nothing
    } else if ids.len() == 1 {
        Expr::Reference(reference_map.get(&ids[0]))
    } else if includes_visible_heads(ids, reference_map) {
        Expr::Reference(ResolvedReference::visible_heads_or_referenced())
    } else {
        let mut exprs: Vec<Expr<'a>> = Vec::new();
        push_references(ids, reference_map, &mut exprs);
        proof {
            lemma_views_of(exprs@);
            assert(views_of(exprs@) =~= references(reference_map@, ids@));
        }
        Expr::Union(exprs)
    }
}

/// Flattens the two sides of an application of `operator` into one list of
/// imported operands. The trees still to be looked at wait on a stack, the
/// leftmost on top, so that nesting of any depth is taken apart without
/// recursion and the operands come out from left to right.
fn flatten<'a>(
    operator: Operator,
    left: ResolvedExpression,
    right: ResolvedExpression,
    reference_map: &'a ReferenceMap,
) -> (result: Vec<Expr<'a>>)
    requires
        ids_known(&left, reference_map@),
        ids_known(&right, reference_map@),
    ensures
        views_of(result@) == items(operator, &left, reference_map@) + items(
            operator,
            &right,
            reference_map@,
        ),
    decreases size(&left) + size(&right), 1int,
{
    let ghost table = reference_map@;
    let ghost total = items(operator, &left, table) + items(operator, &right, table);
    let ghost bound = size(&left) + size(&right);
    let mut result: Vec<Expr<'a>> = Vec::new();
    let mut stack: Vec<ResolvedExpression> = Vec::new();
    proof {
        lemma_pending_push(operator, stack@, right, table);
        lemma_pending_push(operator, stack@.push(right), left, table);
    }
    stack.push(right);
    stack.push(left);
    assert(views_of(result@) + pending_items(operator, stack@, table) =~= total);
    while stack.len() > 0
        invariant
            table == reference_map@,
            views_of(result@) + pending_items(operator, stack@, table) == total,
            pending_size(stack@) <= bound,
            bound == size(&left) + size(&right),
            forall|i: int| 0 <= i < stack@.len() ==> ids_known(&#[trigger] stack@[i], table),
        decreases pending_size(stack@),
    {
        let ghost waiting = stack@;
        let ghost done = views_of(result@);
        let next = stack.pop().unwrap();
        assert(stack@ == waiting.drop_last());
        assert(next == waiting.last());
        assert(ids_known(&next, table));
        match next {
            ResolvedExpression::Coalesce(a, b) => {
                if operator == Operator::Coalesce {
                    proof {
                        lemma_pending_push(operator, stack@, *b, table);
                        lemma_pending_push(operator, stack@.push(*b), *a, table);
                    }
                    stack.push(*b);
                    stack.push(*a);
                } else {
                    result.push(Expr::parse(ResolvedExpression::Coalesce(a, b), reference_map));
                    assert(views_of(result@) =~= done + items(operator, &next, table));
                }
            },
            ResolvedExpression::Union(a, b) => {
                if operator == Operator::Union {
                    proof {
                        lemma_pending_push(operator, stack@, *b, table);
                        lemma_pending_push(operator, stack@.push(*b), *a, table);
                    }
                    stack.push(*b);
                    stack.push(*a);
                } else {
                    result.push(Expr::parse(ResolvedExpression::Union(a, b), reference_map));
                    assert(views_of(result@) =~= done + items(operator, &next, table));
                }
            },
            ResolvedExpression::Intersection(a, b) => {
                if operator == Operator::Intersection {
                    proof {
                        lemma_pending_push(operator, stack@, *b, table);
                        lemma_pending_push(operator, stack@.push(*b), *a, table);
                    }
                    stack.push(*b);
                    stack.push(*a);
                } else {
                    result.push(
                        Expr::parse(ResolvedExpression::Intersection(a, b), reference_map),
                    );
                    assert(views_of(result@) =~= done + items(operator, &next, table));
                }
            },
            ResolvedExpression::Commits(ids) => {
                if operator == Operator::Union && !includes_visible_heads(&ids, reference_map) {
                    push_references(&ids, reference_map, &mut result);
                } else {
                    result.push(parse_commits(&ids, reference_map));
                    assert(views_of(result@) =~= done + items(operator, &next, table));
                }
            },
            other => {
                result.push(Expr::parse(other, reference_map));
                assert(views_of(result@) =~= done + items(operator, &next, table));
            },
        }
        assert(views_of(result@) + pending_items(operator, stack@, table) =~= total);
    }
    assert(views_of(result@) =~= total);
    result
}

impl<'a> Expr<'a> {
    /// Imports a resolved tree. Every identifier in the tree has to stand for
    /// an entry of the table.
    pub fn parse(backend_expr: ResolvedExpression, reference_map: &'a ReferenceMap) -> (expr: Self)
        requires
            ids_known(&backend_expr, reference_map@),
        ensures
            expr@ == imported(&backend_expr, reference_map@),
            is_flat(expr@),
        decreases size(&backend_expr), 0int,
    {
        proof {
            lemma_import_is_flat(Operator::Union, &backend_expr, reference_map@);
        }
        match backend_expr {
            ResolvedExpression::Commits(ids) => parse_commits(&ids, reference_map),
            ResolvedExpression::Ancestors { heads, generation, parents_range } => Expr::Ancestors {
                heads: Box::new(Expr::parse(*heads, reference_map)),
                generation,
                parents_range,
            },
            ResolvedExpression::Range { roots, heads, generation, parents_range } => Expr::Range {
                roots: Box::new(Expr::parse(*roots, reference_map)),
                heads: Box::new(Expr::parse(*heads, reference_map)),
                generation,
                parents_range,
            },
            ResolvedExpression::DagRange { roots, heads, generation_from_roots } => {
                Expr::DagRange {
                    roots: Box::new(Expr::parse(*roots, reference_map)),
                    heads: Box::new(Expr::parse(*heads, reference_map)),
                    generation_from_roots,
                }
            },
            ResolvedExpression::Reachable { sources, domain } => Expr::Reachable {
                sources: Box::new(Expr::parse(*sources, reference_map)),
                domain: Box::new(Expr::parse(*domain, reference_map)),
            },
            ResolvedExpression::Heads(inner) => Expr::Heads(
                Box::new(Expr::parse(*inner, reference_map)),
            ),
            ResolvedExpression::HeadsRange { roots, heads, parents_range, filter } => {
                Expr::HeadsRange {
                    roots: Box::new(Expr::parse(*roots, reference_map)),
                    heads: Box::new(Expr::parse(*heads, reference_map)),
                    parents_range,
                    filter: match filter {
                        Some(predicate) => Some(Predicate::parse(predicate, reference_map)),
                        None => None,
                    },
                }
            },
            ResolvedExpression::Roots(inner) => Expr::Roots(
                Box::new(Expr::parse(*inner, reference_map)),
            ),
            ResolvedExpression::ForkPoint(inner) => Expr::ForkPoint(
                Box::new(Expr::parse(*inner, reference_map)),
            ),
            ResolvedExpression::Bisect(inner) => Expr::Bisect(
                Box::new(Expr::parse(*inner, reference_map)),
            ),
            ResolvedExpression::HasSize { candidates, count } => Expr::HasSize {
                candidates: Box::new(Expr::parse(*candidates, reference_map)),
                count,
            },
            ResolvedExpression::Latest { candidates, count } => Expr::Latest {
                candidates: Box::new(Expr::parse(*candidates, reference_map)),
                count,
            },
            ResolvedExpression::Coalesce(a, b) => {
                let exprs = flatten(Operator::Coalesce, *a, *b, reference_map);
                proof {
                    lemma_views_of(exprs@);
                }
                Expr::Coalesce(exprs)
            },
            ResolvedExpression::Union(a, b) => {
                let exprs = flatten(Operator::Union, *a, *b, reference_map);
                proof {
                    lemma_views_of(exprs@);
                }
                Expr::Union(exprs)
            },
            ResolvedExpression::FilterWithin { candidates, predicate } => Expr::FilterWithin {
                candidates: Box::new(Expr::parse(*candidates, reference_map)),
                predicate: Predicate::parse(predicate, reference_map),
            },
            ResolvedExpression::Intersection(a, b) => {
                let exprs = flatten(Operator::Intersection, *a, *b, reference_map);
                proof {
                    lemma_views_of(exprs@);
                }
                Expr::Intersection(exprs)
            },
            ResolvedExpression::Difference(a, b) => Expr::Difference(
                Box::new(Expr::parse(*a, reference_map)),
                Box::new(Expr::parse(*b, reference_map)),
            ),
        }
    }
}

/// Appends membership in each of a list of sets.
fn push_memberships<'a>(exprs: Vec<Expr<'a>>, result: &mut Vec<Predicate<'a>>)
    ensures
        predicate_views_of(final(result)@) == predicate_views_of(old(result)@) + memberships(
            views_of(exprs@),
        ),
{
    let ghost before = predicate_views_of(result@);
    let ghost all = exprs@;
    for expr in iter: exprs
        invariant
            iter.seq() == all,
            predicate_views_of(result@) == before + memberships(views_of(all)).take(
                iter.index() as int,
            ),
    {
        let ghost so_far = predicate_views_of(result@);
        let ghost wrapped = memberships(views_of(all));
        let ghost at = iter.index() as int;
        let membership = Predicate::InSet(Box::new(expr));
        assert(membership@ == wrapped[at]);
        result.push(membership);
        assert(predicate_views_of(result@) =~= so_far.push(wrapped[at]));
        assert(wrapped.take(at + 1) =~= wrapped.take(at).push(wrapped[at]));
        assert(predicate_views_of(result@) =~= before + wrapped.take(at + 1));
    }
    assert(memberships(views_of(all)).take(all.len() as int) =~= memberships(views_of(all)));
}

/// Flattens the two sides of a union or an intersection of predicates into
/// one list of imported operands, by the same work stack as `flatten`.
fn flatten_predicates<'a>(
    operator: Operator,
    left: ResolvedPredicateExpression,
    right: ResolvedPredicateExpression,
    reference_map: &'a ReferenceMap,
) -> (result: Vec<Predicate<'a>>)
    requires
        predicate_ids_known(&left, reference_map@),
        predicate_ids_known(&right, reference_map@),
    ensures
        predicate_views_of(result@) == predicate_items(operator, &left, reference_map@)
            + predicate_items(operator, &right, reference_map@),
    decreases predicate_size(&left) + predicate_size(&right), 1int,
{
    let ghost table = reference_map@;
    let ghost total = predicate_items(operator, &left, table) + predicate_items(
        operator,
        &right,
        table,
    );
    let ghost bound = predicate_size(&left) + predicate_size(&right);
    let mut result: Vec<Predicate<'a>> = Vec::new();
    let mut stack: Vec<ResolvedPredicateExpression> = Vec::new();
    proof {
        lemma_pending_predicate_push(operator, stack@, right, table);
        lemma_pending_predicate_push(operator, stack@.push(right), left, table);
    }
    stack.push(right);
    stack.push(left);
    assert(predicate_views_of(result@) + pending_predicate_items(operator, stack@, table)
        =~= total);
    while stack.len() > 0
        invariant
            table == reference_map@,
            predicate_views_of(result@) + pending_predicate_items(operator, stack@, table)
                == total,
            pending_predicate_size(stack@) <= bound,
            bound == predicate_size(&left) + predicate_size(&right),
            forall|i: int|
                0 <= i < stack@.len() ==> predicate_ids_known(&#[trigger] stack@[i], table),
        decreases pending_predicate_size(stack@),
    {
        let ghost waiting = stack@;
        let ghost done = predicate_views_of(result@);
        let next = stack.pop().unwrap();
        assert(stack@ == waiting.drop_last());
        assert(next == waiting.last());
        assert(predicate_ids_known(&next, table));
        match next {
            ResolvedPredicateExpression::Union(a, b) => {
                if operator == Operator::Union {
                    proof {
                        lemma_pending_predicate_push(operator, stack@, *b, table);
                        lemma_pending_predicate_push(operator, stack@.push(*b), *a, table);
                    }
                    stack.push(*b);
                    stack.push(*a);
                } else {
                    result.push(
                        Predicate::parse(ResolvedPredicateExpression::Union(a, b), reference_map),
                    );
                    assert(predicate_views_of(result@) =~= done + predicate_items(
                        operator,
                        &next,
                        table,
                    ));
                }
            },
            ResolvedPredicateExpression::Intersection(a, b) => {
                if operator == Operator::Intersection {
                    proof {
                        lemma_pending_predicate_push(operator, stack@, *b, table);
                        lemma_pending_predicate_push(operator, stack@.push(*b), *a, table);
                    }
                    stack.push(*b);
                    stack.push(*a);
                } else {
                    result.push(
                        Predicate::parse(
                            ResolvedPredicateExpression::Intersection(a, b),
                            reference_map,
                        ),
                    );
                    assert(predicate_views_of(result@) =~= done + predicate_items(
                        operator,
                        &next,
                        table,
                    ));
                }
            },
            ResolvedPredicateExpression::InSet(set) => {
                if operator == Operator::Union {
                    match Expr::parse(*set, reference_map) {
                        Expr::Union(exprs) => {
                            proof {
                                lemma_views_of(exprs@);
                            }
                            push_memberships(exprs, &mut result);
                        },
                        parsed => {
                            result.push(Predicate::InSet(Box::new(parsed)));
                            assert(predicate_views_of(result@) =~= done + predicate_items(
                                operator,
                                &next,
                                table,
                            ));
                        },
                    }
                } else {
                    result.push(
                        Predicate::parse(ResolvedPredicateExpression::InSet(set), reference_map),
                    );
                    assert(predicate_views_of(result@) =~= done + predicate_items(
                        operator,
                        &next,
                        table,
                    ));
                }
            },
            other => {
                result.push(Predicate::parse(other, reference_map));
                assert(predicate_views_of(result@) =~= done + predicate_items(
                    operator,
                    &next,
                    table,
                ));
            },
        }
        assert(predicate_views_of(result@) + pending_predicate_items(operator, stack@, table)
            =~= total);
    }
    assert(predicate_views_of(result@) =~= total);
    result
}

impl<'a> Predicate<'a> {
    /// Imports a resolved predicate. Every identifier in it has to stand for
    /// an entry of the table.
    pub fn parse(
        predicate_expression: ResolvedPredicateExpression,
        reference_map: &'a ReferenceMap,
    ) -> (predicate: Self)
        requires
            predicate_ids_known(&predicate_expression, reference_map@),
        ensures
            predicate@ == imported_predicate(&predicate_expression, reference_map@),
            is_flat_predicate(predicate@),
        decreases predicate_size(&predicate_expression), 0int,
    {
        proof {
            lemma_predicate_import_is_flat(Operator::Union, &predicate_expression, reference_map@);
        }
        match predicate_expression {
            ResolvedPredicateExpression::Filter(filter) => Predicate::Filter(filter),
            ResolvedPredicateExpression::Divergent { visible_heads } => Predicate::Divergent {
                visible_heads: Box::new(parse_commits(&visible_heads, reference_map)),
            },
            ResolvedPredicateExpression::InSet(expr) => Predicate::InSet(
                Box::new(Expr::parse(*expr, reference_map)),
            ),
            ResolvedPredicateExpression::NotIn(inner) => Predicate::NotIn(
                Box::new(Predicate::parse(*inner, reference_map)),
            ),
            ResolvedPredicateExpression::Union(a, b) => {
                let predicates = flatten_predicates(Operator::Union, *a, *b, reference_map);
                proof {
                    lemma_predicate_views_of(predicates@);
                }
                Predicate::Union(predicates)
            },
            ResolvedPredicateExpression::Intersection(a, b) => {
                let predicates = flatten_predicates(Operator::Intersection, *a, *b, reference_map);
                proof {
                    lemma_predicate_views_of(predicates@);
                }
                Predicate::Intersection(predicates)
            },
        }
    }
}

/// Whether every identifier of a list stands for an entry of the table.
fn all_ids_known(ids: &Vec<CommitId>, reference_map: &ReferenceMap) -> (known: bool)
    ensures
        known == all_known(reference_map@, ids@),
{
    let mut i: usize = 0;
    while i < ids.len()
        invariant
            i <= ids.len(),
            forall|k: int| 0 <= k < i ==> is_known(reference_map@, (#[trigger] ids@[k])@),
        decreases ids.len() - i,
    {
        if !reference_map.knows(&ids[i]) {
            return false;
        }
        i += 1;
    }
    true
}

impl ResolvedPredicateExpression {
    /// Whether every identifier in the predicate stands for an entry of the
    /// table, so that the predicate can be imported.
    pub fn refers_only_to(&self, reference_map: &ReferenceMap) -> (known: bool)
        ensures
            known == predicate_ids_known(self, reference_map@),
        decreases self,
    {
        match self {
            ResolvedPredicateExpression::Filter(_) => true,
            ResolvedPredicateExpression::Divergent { visible_heads } => all_ids_known(
                visible_heads,
                reference_map,
            ),
            ResolvedPredicateExpression::InSet(expr) => expr.refers_only_to(reference_map),
            ResolvedPredicateExpression::NotIn(inner) => inner.refers_only_to(reference_map),
            ResolvedPredicateExpression::Union(a, b) => a.refers_only_to(reference_map)
                && b.refers_only_to(reference_map),
            ResolvedPredicateExpression::Intersection(a, b) => a.refers_only_to(reference_map)
                && b.refers_only_to(reference_map),
        }
    }
}

impl ResolvedExpression {
    /// Whether every identifier in the tree stands for an entry of the table,
    /// so that the tree can be imported.
    pub fn refers_only_to(&self, reference_map: &ReferenceMap) -> (known: bool)
        ensures
            known == ids_known(self, reference_map@),
        decreases self,
    {
        match self {
            ResolvedExpression::Commits(ids) => all_ids_known(ids, reference_map),
            ResolvedExpression::Ancestors { heads, generation, parents_range } => {
                heads.refers_only_to(reference_map)
            },
            ResolvedExpression::Range { roots, heads, generation, parents_range } => {
                roots.refers_only_to(reference_map) && heads.refers_only_to(reference_map)
            },
            ResolvedExpression::DagRange { roots, heads, generation_from_roots } => {
                roots.refers_only_to(reference_map) && heads.refers_only_to(reference_map)
            },
            ResolvedExpression::Reachable { sources, domain } => sources.refers_only_to(
                reference_map,
            ) && domain.refers_only_to(reference_map),
            ResolvedExpression::Heads(inner) => inner.refers_only_to(reference_map),
            ResolvedExpression::HeadsRange { roots, heads, parents_range, filter } => {
                roots.refers_only_to(reference_map) && heads.refers_only_to(reference_map)
                    && match filter {
                    Some(predicate) => predicate.refers_only_to(reference_map),
                    None => true,
                }
            },
            ResolvedExpression::Roots(inner) => inner.refers_only_to(reference_map),
            ResolvedExpression::ForkPoint(inner) => inner.refers_only_to(reference_map),
            ResolvedExpression::Bisect(inner) => inner.refers_only_to(reference_map),
            ResolvedExpression::HasSize { candidates, count } => candidates.refers_only_to(
                reference_map,
            ),
            ResolvedExpression::Latest { candidates, count } => candidates.refers_only_to(
                reference_map,
            ),
            ResolvedExpression::Coalesce(a, b) => a.refers_only_to(reference_map)
                && b.refers_only_to(reference_map),
            ResolvedExpression::Union(a, b) => a.refers_only_to(reference_map)
                && b.refers_only_to(reference_map),
            ResolvedExpression::FilterWithin { candidates, predicate } => {
                candidates.refers_only_to(reference_map) && predicate.refers_only_to(
                    reference_map,
                )
            },
            ResolvedExpression::Intersection(a, b) => a.refers_only_to(reference_map)
                && b.refers_only_to(reference_map),
            ResolvedExpression::Difference(a, b) => a.refers_only_to(reference_map)
                && b.refers_only_to(reference_map),
        }
    }
}

impl<'a> Expr<'a> {
    /// Imports a resolved tree, or gives `None` where an identifier in the
    /// tree stands for no entry of the table.
    pub fn try_parse(backend_expr: ResolvedExpression, reference_map: &'a ReferenceMap) -> (expr:
        Option<Self>)
        ensures
            expr is Some <==> ids_known(&backend_expr, reference_map@),
            expr matches Some(parsed) ==> parsed@ == imported(&backend_expr, reference_map@)
                && is_flat(parsed@),
    {
        if backend_expr.refers_only_to(reference_map) {
            Some(Expr::parse(backend_expr, reference_map))
        } else {
            None
        }
    }
}

/// Whether a resolved tree applies the given operator at its top.
pub open spec fn applies(operator: Operator, expr: &ResolvedExpression) -> bool {
    match operator {
        Operator::Coalesce => expr is Coalesce,
        Operator::Union => expr is Union,
        Operator::Intersection => expr is Intersection,
    }
}

/// The operands of nested applications of `operator`, from left to right:
/// the subtrees that do not apply `operator` themselves.
pub open spec fn operands(operator: Operator, expr: &ResolvedExpression) -> Seq<
    ResolvedExpression,
>
    decreases expr,
{
    match expr {
        ResolvedExpression::Coalesce(a, b) => if operator == Operator::Coalesce {
            operands(operator, a) + operands(operator, b)
        } else {
            seq![*expr]
        },
        ResolvedExpression::Union(a, b) => if operator == Operator::Union {
            operands(operator, a) + operands(operator, b)
        } else {
            seq![*expr]
        },
        ResolvedExpression::Intersection(a, b) => if operator == Operator::Intersection {
            operands(operator, a) + operands(operator, b)
        } else {
            seq![*expr]
        },
        _ => seq![*expr],
    }
}

/// What a list of operands contributes to an application of `operator`, one
/// operand after the other.
pub open spec fn items_of_all(
    operator: Operator,
    operands: Seq<ResolvedExpression>,
    table: Seq<Seq<char>>,
) -> Seq<ExprView>
    decreases operands.len(),
{
    if operands.len() == 0 {
        Seq::empty()
    } else {
        items_of_all(operator, operands.drop_last(), table) + items(
            operator,
            &operands.last(),
            table,
        )
    }
}

/// Two lists of operands, one behind the other, contribute what the first
/// contributes followed by what the second contributes.
pub proof fn lemma_items_of_all_joined(
    operator: Operator,
    first: Seq<ResolvedExpression>,
    second: Seq<ResolvedExpression>,
    table: Seq<Seq<char>>,
)
    ensures
        items_of_all(operator, first + second, table) == items_of_all(operator, first, table)
            + items_of_all(operator, second, table),
    decreases second.len(),
{
    if second.len() == 0 {
        assert(first + second =~= first);
        assert(items_of_all(operator, first, table) + Seq::<ExprView>::empty()
            =~= items_of_all(operator, first, table));
    } else {
        lemma_items_of_all_joined(operator, first, second.drop_last(), table);
        assert((first + second).drop_last() =~= first + second.drop_last());
        assert((first + second).last() == second.last());
        assert(items_of_all(operator, first + second, table) =~= items_of_all(
            operator,
            first,
            table,
        ) + items_of_all(operator, second, table));
    }
}

/// What a tree contributes to an application of `operator` is what its
/// operands contribute one after the other, however they are nested.
pub proof fn lemma_items_by_operands(
    operator: Operator,
    expr: &ResolvedExpression,
    table: Seq<Seq<char>>,
)
    ensures
        items(operator, expr, table) == items_of_all(operator, operands(operator, expr), table),
    decreases expr,
{
    let nested = match expr {
        ResolvedExpression::Coalesce(a, b) => operator == Operator::Coalesce,
        ResolvedExpression::Union(a, b) => operator == Operator::Union,
        ResolvedExpression::Intersection(a, b) => operator == Operator::Intersection,
        _ => false,
    };
    if nested {
        match expr {
            ResolvedExpression::Coalesce(a, b) => {
                lemma_items_by_operands(operator, a, table);
                lemma_items_by_operands(operator, b, table);
                lemma_items_of_all_joined(
                    operator,
                    operands(operator, a),
                    operands(operator, b),
                    table,
                );
            },
            ResolvedExpression::Union(a, b) => {
                lemma_items_by_operands(operator, a, table);
                lemma_items_by_operands(operator, b, table);
                lemma_items_of_all_joined(
                    operator,
                    operands(operator, a),
                    operands(operator, b),
                    table,
                );
            },
            ResolvedExpression::Intersection(a, b) => {
                lemma_items_by_operands(operator, a, table);
                lemma_items_by_operands(operator, b, table);
                lemma_items_of_all_joined(
                    operator,
                    operands(operator, a),
                    operands(operator, b),
                    table,
                );
            },
            _ => {},
        }
    } else {
        let single = seq![*expr];
        assert(operands(operator, expr) == single);
        assert(single.drop_last() =~= Seq::<ResolvedExpression>::empty());
        assert(items_of_all(operator, single.drop_last(), table) =~= Seq::<ExprView>::empty());
        assert(single.last() == *expr);
        assert(items_of_all(operator, single, table) =~= items(operator, expr, table));
    }
}

/// Flattening is blind to nesting: two trees that apply the same operator
/// to the same operands in the same order are imported as the same flat list,
/// whatever the shape in which the applications are nested.
pub proof fn lemma_flattening_ignores_nesting(
    operator: Operator,
    first: &ResolvedExpression,
    second: &ResolvedExpression,
    table: Seq<Seq<char>>,
)
    requires
        applies(operator, first),
        applies(operator, second),
        operands(operator, first) == operands(operator, second),
    ensures
        imported(first, table) == imported(second, table),
{
    lemma_items_by_operands(operator, first, table);
    lemma_items_by_operands(operator, second, table);
}

/// Whether a resolved predicate applies the given operator at its top.
pub open spec fn predicate_applies(
    operator: Operator,
    predicate: &ResolvedPredicateExpression,
) -> bool {
    match operator {
        Operator::Coalesce => false,
        Operator::Union => predicate is Union,
        Operator::Intersection => predicate is Intersection,
    }
}

/// The operands of nested applications of `operator` to predicates, from
/// left to right.
pub open spec fn predicate_operands(
    operator: Operator,
    predicate: &ResolvedPredicateExpression,
) -> Seq<ResolvedPredicateExpression>
    decreases predicate,
{
    match predicate {
        ResolvedPredicateExpression::Union(a, b) => if operator == Operator::Union {
            predicate_operands(operator, a) + predicate_operands(operator, b)
        } else {
            seq![*predicate]
        },
        ResolvedPredicateExpression::Intersection(a, b) => if operator == Operator::Intersection {
            predicate_operands(operator, a) + predicate_operands(operator, b)
        } else {
            seq![*predicate]
        },
        _ => seq![*predicate],
    }
}

/// What a list of predicates contributes to an application of `operator`,
/// one operand after the other.
pub open spec fn predicate_items_of_all(
    operator: Operator,
    operands: Seq<ResolvedPredicateExpression>,
    table: Seq<Seq<char>>,
) -> Seq<PredicateView>
    decreases operands.len(),
{
    if operands.len() == 0 {
        Seq::empty()
    } else {
        predicate_items_of_all(operator, operands.drop_last(), table) + predicate_items(
            operator,
            &operands.last(),
            table,
        )
    }
}

/// Two lists of predicates, one behind the other, contribute what the first
/// contributes followed by what the second contributes.
pub proof fn lemma_predicate_items_of_all_joined(
    operator: Operator,
    first: Seq<ResolvedPredicateExpression>,
    second: Seq<ResolvedPredicateExpression>,
    table: Seq<Seq<char>>,
)
    ensures
        predicate_items_of_all(operator, first + second, table) == predicate_items_of_all(
            operator,
            first,
            table,
        ) + predicate_items_of_all(operator, second, table),
    decreases second.len(),
{
    if second.len() == 0 {
        assert(first + second =~= first);
        assert(predicate_items_of_all(operator, first, table) + Seq::<PredicateView>::empty()
            =~= predicate_items_of_all(operator, first, table));
    } else {
        lemma_predicate_items_of_all_joined(operator, first, second.drop_last(), table);
        assert((first + second).drop_last() =~= first + second.drop_last());
        assert((first + second).last() == second.last());
        assert(predicate_items_of_all(operator, first + second, table)
            =~= predicate_items_of_all(operator, first, table) + predicate_items_of_all(
            operator,
            second,
            table,
        ));
    }
}

/// What a predicate contributes to an application of `operator` is what its
/// operands contribute one after the other, however they are nested.
pub proof fn lemma_predicate_items_by_operands(
    operator: Operator,
    predicate: &ResolvedPredicateExpression,
    table: Seq<Seq<char>>,
)
    ensures
        predicate_items(operator, predicate, table) == predicate_items_of_all(
            operator,
            predicate_operands(operator, predicate),
            table,
        ),
    decreases predicate,
{
    let nested = match predicate {
        ResolvedPredicateExpression::Union(a, b) => operator == Operator::Union,
        ResolvedPredicateExpression::Intersection(a, b) => operator == Operator::Intersection,
        _ => false,
    };
    if nested {
        match predicate {
            ResolvedPredicateExpression::Union(a, b) => {
                lemma_predicate_items_by_operands(operator, a, table);
                lemma_predicate_items_by_operands(operator, b, table);
                lemma_predicate_items_of_all_joined(
                    operator,
                    predicate_operands(operator, a),
                    predicate_operands(operator, b),
                    table,
                );
            },
            ResolvedPredicateExpression::Intersection(a, b) => {
                lemma_predicate_items_by_operands(operator, a, table);
                lemma_predicate_items_by_operands(operator, b, table);
                lemma_predicate_items_of_all_joined(
                    operator,
                    predicate_operands(operator, a),
                    predicate_operands(operator, b),
                    table,
                );
            },
            _ => {},
        }
    } else {
        let single = seq![*predicate];
        assert(predicate_operands(operator, predicate) == single);
        assert(single.drop_last() =~= Seq::<ResolvedPredicateExpression>::empty());
        assert(predicate_items_of_all(operator, single.drop_last(), table) =~= Seq::<
            PredicateView,
        >::empty());
        assert(single.last() == *predicate);
        assert(predicate_items_of_all(operator, single, table) =~= predicate_items(
            operator,
            predicate,
            table,
        ));
    }
}

/// Flattening of predicates is blind to nesting: two predicates that apply
/// the same operator to the same operands in the same order are imported as
/// the same flat list.
pub proof fn lemma_predicate_flattening_ignores_nesting(
    operator: Operator,
    first: &ResolvedPredicateExpression,
    second: &ResolvedPredicateExpression,
    table: Seq<Seq<char>>,
)
    requires
        predicate_applies(operator, first),
        predicate_applies(operator, second),
        predicate_operands(operator, first) == predicate_operands(operator, second),
    ensures
        imported_predicate(first, table) == imported_predicate(second, table),
{
    lemma_predicate_items_by_operands(operator, first, table);
    lemma_predicate_items_by_operands(operator, second, table);
}

} // verus!
