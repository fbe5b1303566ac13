//! What a plan shows for each node of the expression model, and what it is
//! expected to cost.

use crate::expr::expr_views;
use crate::expr::lemma_expr_views;
use crate::expr::lemma_predicate_views;
use crate::expr::predicate_views;
use crate::expr::root_text;
use crate::expr::Expr;
use crate::expr::ExprView;
use crate::expr::Predicate;
use crate::expr::PredicateView;
use crate::expr::ResolvedReference;
use crate::pattern::FilesetExpression;
use crate::pattern::RevsetFilterPredicate;
use crate::print::date_pattern_text;
use crate::print::fileset_expression_text;
use crate::print::format_date_pattern;
use crate::print::format_fileset_expression;
use crate::print::format_range;
use crate::print::format_string_expression;
use crate::print::range_text;
use crate::print::string_expression_text;
use crate::print::widen;
use crate::print::widened;
use crate::text::cow_str;
use crate::text::decimal;
use crate::text::decimal_string;
use crate::tree::child_views;
use crate::tree::AnalyzeContext;
use crate::tree::AnalyzeCost;
use crate::tree::AnalyzeTree;
use crate::tree::Child;
use crate::tree::ChildView;
use crate::tree::EntryView;
use crate::tree::Node;
use crate::tree::NodeView;
use crate::tree::TreeEntry;
use std::borrow::Cow;
use std::ops::Range;
use vstd::prelude::*;
use vstd::string::*;

verus! {

/// The widest range of generations: every number of edges from the frontier.
pub open spec fn generation_range_full() -> Range<u64> {
    Range { start: 0, end: u64::MAX }
}

/// The widest range of parent indices: every parent edge is followed.
pub open spec fn parents_range_full() -> Range<u32> {
    Range { start: 0, end: u32::MAX }
}

/// The range of parent counts that picks out merge commits.
pub open spec fn merges_range() -> Range<u32> {
    Range { start: 2, end: u32::MAX }
}

/// The text of a range that is shown as a node of its own: empty for the
/// widest range.
pub open spec fn shown_range_text(range: Range<u64>, full_range: Range<u64>) -> Seq<char> {
    match range_text(range, full_range) {
        Some(text) => text,
        None => Seq::empty(),
    }
}

/// The canonical text of an atomic filter.
pub open spec fn filter_text(filter: &RevsetFilterPredicate) -> Seq<char> {
    match filter {
        RevsetFilterPredicate::ParentCount(range) => if *range == merges_range() {
            "merges()"@
        } else {
            "parent_count("@ + shown_range_text(widened(*range), widened(parents_range_full()))
                + ")"@
        },
        RevsetFilterPredicate::Description(pattern) => "description("@ + string_expression_text(
            pattern,
        ) + ")"@,
        RevsetFilterPredicate::Subject(pattern) => "subject("@ + string_expression_text(pattern)
            + ")"@,
        RevsetFilterPredicate::AuthorName(pattern) => "author_name("@ + string_expression_text(
            pattern,
        ) + ")"@,
        RevsetFilterPredicate::AuthorEmail(pattern) => "author_email("@ + string_expression_text(
            pattern,
        ) + ")"@,
        RevsetFilterPredicate::AuthorDate(pattern) => "author_date("@ + date_pattern_text(pattern)
            + ")"@,
        RevsetFilterPredicate::CommitterName(pattern) => "committer_name("@
            + string_expression_text(pattern) + ")"@,
        RevsetFilterPredicate::CommitterEmail(pattern) => "committer_email("@
            + string_expression_text(pattern) + ")"@,
        RevsetFilterPredicate::CommitterDate(pattern) => "committer_date("@ + date_pattern_text(
            pattern,
        ) + ")"@,
        RevsetFilterPredicate::File(files) => "files("@ + fileset_expression_text(files) + ")"@,
        RevsetFilterPredicate::DiffLines { text, files } => "diff_lines("@
            + string_expression_text(text) + ", "@ + fileset_expression_text(files) + ")"@,
        RevsetFilterPredicate::HasConflict => "conflicts()"@,
        RevsetFilterPredicate::Signed => "signed()"@,
        RevsetFilterPredicate::Extension(tag) => tag@,
    }
}

/// Whether a filter tests for a change in any file at all.
pub open spec fn is_any_file(filter: &RevsetFilterPredicate) -> bool {
    filter matches RevsetFilterPredicate::File(FilesetExpression::All)
}

/// An entry without children.
pub open spec fn leaf_entry(name: Seq<char>, context: AnalyzeContext) -> EntryView {
    EntryView { name, context, children: Seq::empty() }
}

/// A child that plays a named role for its parent.
pub open spec fn labeled(label: Seq<char>, context: AnalyzeContext, tree: NodeView) -> ChildView {
    ChildView { label: Some(label), context, tree }
}

/// A child that is one of a list of operands.
pub open spec fn unlabeled(context: AnalyzeContext, tree: NodeView) -> ChildView {
    ChildView { label: None, context, tree }
}

/// The children that are there, in order.
pub open spec fn present(children: Seq<Option<ChildView>>) -> Seq<ChildView>
    decreases children.len(),
{
    if children.len() == 0 {
        Seq::empty()
    } else {
        match children.last() {
            Some(child) => present(children.drop_last()).push(child),
            None => present(children.drop_last()),
        }
    }
}

/// `child`, where `shown` holds.
pub open spec fn child_if(shown: bool, child: ChildView) -> Option<ChildView> {
    if shown {
        Some(child)
    } else {
        None
    }
}

/// The child shown for the filter of a range of heads, where it has one.
pub open spec fn filter_child(filter: Option<PredicateView>) -> Option<ChildView> {
    match filter {
        Some(predicate) => Some(
            labeled("filter"@, AnalyzeContext::Predicate, NodeView::Predicate(predicate)),
        ),
        None => None,
    }
}

/// One unlabeled child per expression, each in the given context.
pub open spec fn expr_operands(exprs: Seq<ExprView>, context: AnalyzeContext) -> Seq<ChildView> {
    Seq::new(exprs.len(), |i: int| unlabeled(context, NodeView::Expr(exprs[i])))
}

/// One unlabeled child per predicate, each in predicate context.
pub open spec fn predicate_operands(predicates: Seq<PredicateView>) -> Seq<ChildView> {
    Seq::new(
        predicates.len(),
        |i: int| unlabeled(AnalyzeContext::Predicate, NodeView::Predicate(predicates[i])),
    )
}

/// What a plan shows for an expression met in the ambient context `context`.
pub open spec fn expr_entry(expr: ExprView, context: AnalyzeContext) -> EntryView {
    match expr {
        ExprView::Nothing => leaf_entry("none()"@, AnalyzeContext::Resolved),
        ExprView::Reference(text) => leaf_entry(text, AnalyzeContext::Resolved),
        ExprView::Ancestors { heads, generation, parents_range } => EntryView {
            name: "Ancestors"@,
            context: context.predicate_to_lazy(),
            children: present(
                seq![
                    child_if(
                        generation != generation_range_full(),
                        labeled("generation"@, context, NodeView::Generation(generation)),
                    ),
                    child_if(
                        parents_range != parents_range_full(),
                        labeled("parent_index"@, context, NodeView::ParentIndex(parents_range)),
                    ),
                    Some(labeled("heads"@, AnalyzeContext::Eager, NodeView::Expr(*heads))),
                ],
            ),
        },
        ExprView::Range { roots, heads, generation, parents_range } => EntryView {
            name: "Range"@,
            context: context.predicate_to_lazy(),
            children: present(
                seq![
                    child_if(
                        generation != generation_range_full(),
                        labeled("generation"@, context, NodeView::Generation(generation)),
                    ),
                    child_if(
                        parents_range != parents_range_full(),
                        labeled("parent_index"@, context, NodeView::ParentIndex(parents_range)),
                    ),
                    Some(labeled("roots"@, AnalyzeContext::Eager, NodeView::Expr(*roots))),
                    Some(labeled("heads"@, AnalyzeContext::Eager, NodeView::Expr(*heads))),
                ],
            ),
        },
        ExprView::DagRange { roots, heads, generation_from_roots } => EntryView {
            name: "DagRange"@,
            context: if generation_from_roots == (Range { start: 1u64, end: 2u64 }) {
                context.predicate_to_lazy()
            } else {
                AnalyzeContext::Eager
            },
            children: present(
                seq![
                    child_if(
                        generation_from_roots != generation_range_full(),
                        labeled(
                            "generation_from_roots"@,
                            context,
                            NodeView::Generation(generation_from_roots),
                        ),
                    ),
                    Some(labeled("roots"@, AnalyzeContext::Eager, NodeView::Expr(*roots))),
                    Some(labeled("heads"@, AnalyzeContext::Eager, NodeView::Expr(*heads))),
                ],
            ),
        },
        ExprView::Reachable { sources, domain } => EntryView {
            name: "Reachable"@,
            context: AnalyzeContext::Eager,
            children: seq![
                labeled("sources"@, AnalyzeContext::Predicate, NodeView::Expr(*sources)),
                labeled("domain"@, AnalyzeContext::Eager, NodeView::Expr(*domain)),
            ],
        },
        ExprView::Heads(inner) => EntryView {
            name: "Heads"@,
            context: AnalyzeContext::Eager,
            children: seq![unlabeled(AnalyzeContext::Eager, NodeView::Expr(*inner))],
        },
        ExprView::HeadsRange { roots, heads, parents_range, filter } => EntryView {
            name: "HeadsRange"@,
            context: AnalyzeContext::Eager,
            children: present(
                seq![
                    child_if(
                        parents_range != parents_range_full(),
                        labeled("parent_index"@, context, NodeView::ParentIndex(parents_range)),
                    ),
                    Some(labeled("roots"@, AnalyzeContext::Eager, NodeView::Expr(*roots))),
                    Some(labeled("heads"@, AnalyzeContext::Eager, NodeView::Expr(*heads))),
                    filter_child(filter),
                ],
            ),
        },
        ExprView::Roots(inner) => EntryView {
            name: "Roots"@,
            context: AnalyzeContext::Eager,
            children: seq![unlabeled(AnalyzeContext::Eager, NodeView::Expr(*inner))],
        },
        ExprView::ForkPoint(inner) => EntryView {
            name: "ForkPoint"@,
            context: AnalyzeContext::Eager,
            children: seq![unlabeled(AnalyzeContext::Eager, NodeView::Expr(*inner))],
        },
        ExprView::Bisect(inner) => EntryView {
            name: "Bisect"@,
            context: AnalyzeContext::Eager,
            children: seq![unlabeled(AnalyzeContext::Eager, NodeView::Expr(*inner))],
        },
        ExprView::HasSize { candidates, count } => EntryView {
            name: "HasSize"@,
            context: AnalyzeContext::Eager,
            children: seq![
                labeled("count"@, AnalyzeContext::Resolved, NodeView::Count(count)),
                labeled("candidates"@, AnalyzeContext::Lazy, NodeView::Expr(*candidates)),
            ],
        },
        ExprView::Latest { candidates, count } => EntryView {
            name: "Latest"@,
            context: AnalyzeContext::Eager,
            children: seq![
                labeled("count"@, AnalyzeContext::Resolved, NodeView::Count(count)),
                labeled("candidates"@, AnalyzeContext::Eager, NodeView::Expr(*candidates)),
            ],
        },
        ExprView::Coalesce(exprs) => EntryView {
            name: "Coalesce"@,
            context,
            children: expr_operands(exprs, context),
        },
        ExprView::Union(exprs) => EntryView {
            name: "Union"@,
            context,
            children: expr_operands(exprs, context),
        },
        ExprView::FilterWithin { candidates, predicate } => EntryView {
            name: "FilterWithin"@,
            context,
            children: seq![
                labeled("candidates"@, context, NodeView::Expr(*candidates)),
                labeled("predicate"@, AnalyzeContext::Predicate, NodeView::Predicate(predicate)),
            ],
        },
        ExprView::Intersection(exprs) => EntryView {
            name: "Intersection"@,
            context,
            children: expr_operands(exprs, context.eager_to_lazy()),
        },
        ExprView::Difference(left, right) => EntryView {
            name: "Difference"@,
            context,
            children: seq![
                labeled("candidates"@, context, NodeView::Expr(*left)),
                labeled("excluded"@, context.eager_to_lazy(), NodeView::Expr(*right)),
            ],
        },
    }
}

/// What a plan shows for a predicate. A predicate is always evaluated as a
/// test, whatever the ambient context; membership in a set shows the set's own
/// entry in predicate context.
pub open spec fn predicate_entry(predicate: PredicateView) -> EntryView {
    match predicate {
        PredicateView::Filter(filter) => if is_any_file(&filter) {
            leaf_entry("~empty()"@, AnalyzeContext::Predicate)
        } else {
            leaf_entry(filter_text(&filter), AnalyzeContext::Predicate)
        },
        PredicateView::Divergent { visible_heads } => EntryView {
            name: "Divergent"@,
            context: AnalyzeContext::Predicate,
            children: seq![
                labeled("visible_heads"@, AnalyzeContext::Eager, NodeView::Expr(*visible_heads)),
            ],
        },
        PredicateView::InSet(expr) => expr_entry(*expr, AnalyzeContext::Predicate),
        PredicateView::NotIn(inner) => match *inner {
            PredicateView::Filter(filter) => if is_any_file(&filter) {
                leaf_entry("empty()"@, AnalyzeContext::Predicate)
            } else {
                leaf_entry("~"@ + filter_text(&filter), AnalyzeContext::Predicate)
            },
            other => EntryView {
                name: "NotIn"@,
                context: AnalyzeContext::Predicate,
                children: seq![unlabeled(AnalyzeContext::Predicate, NodeView::Predicate(other))],
            },
        },
        PredicateView::Union(predicates) => EntryView {
            name: "Union"@,
            context: AnalyzeContext::Predicate,
            children: predicate_operands(predicates),
        },
        PredicateView::Intersection(predicates) => EntryView {
            name: "Intersection"@,
            context: AnalyzeContext::Predicate,
            children: predicate_operands(predicates),
        },
    }
}

/// What a plan shows for a node met in the ambient context `context`.
pub open spec fn entry_of(node: NodeView, context: AnalyzeContext) -> EntryView {
    match node {
        NodeView::Expr(expr) => expr_entry(expr, context),
        NodeView::Predicate(predicate) => predicate_entry(predicate),
        NodeView::Count(count) => leaf_entry(decimal(count as nat), AnalyzeContext::Resolved),
        NodeView::Generation(range) => leaf_entry(
            shown_range_text(range, generation_range_full()),
            AnalyzeContext::Resolved,
        ),
        NodeView::ParentIndex(range) => leaf_entry(
            shown_range_text(widened(range), widened(parents_range_full())),
            AnalyzeContext::Resolved,
        ),
    }
}

/// Whether each of the first `upto` expressions can be seen to hold at most
/// the root commit.
pub open spec fn all_root_or_none(exprs: Seq<ExprView>, upto: int) -> bool
    decreases exprs, upto,
{
    if 0 < upto <= exprs.len() {
        all_root_or_none(exprs, upto - 1) && is_root_or_none(exprs[upto - 1])
    } else {
        true
    }
}

/// Whether one of the first `upto` expressions can be seen to hold at most
/// the root commit.
pub open spec fn any_root_or_none(exprs: Seq<ExprView>, upto: int) -> bool
    decreases exprs, upto,
{
    if 0 < upto <= exprs.len() {
        any_root_or_none(exprs, upto - 1) || is_root_or_none(exprs[upto - 1])
    } else {
        false
    }
}

/// Whether an expression can be seen to hold at most the root commit: it is
/// empty or the root itself, or a coalesce or union of nothing but such
/// expressions, or an intersection with at least one of them.
pub open spec fn is_root_or_none(expr: ExprView) -> bool
    decreases expr, 0int,
{
    match expr {
        ExprView::Nothing => true,
        ExprView::Reference(text) => text == root_text(),
        ExprView::Coalesce(exprs) => all_root_or_none(exprs, exprs.len() as int),
        ExprView::Intersection(exprs) => any_root_or_none(exprs, exprs.len() as int),
        ExprView::Union(exprs) => all_root_or_none(exprs, exprs.len() as int),
        _ => false,
    }
}

/// The first `upto` expressions all pass `is_root_or_none` exactly if each
/// of them does.
pub proof fn lemma_all_root_or_none(exprs: Seq<ExprView>, upto: int)
    requires
        0 <= upto <= exprs.len(),
    ensures
        all_root_or_none(exprs, upto) <==> (forall|i: int|
            0 <= i < upto ==> is_root_or_none(#[trigger] exprs[i])),
    decreases upto,
{
    if upto > 0 {
        lemma_all_root_or_none(exprs, upto - 1);
    }
}

/// One of the first `upto` expressions passes `is_root_or_none` exactly if
/// there is one among them that does.
pub proof fn lemma_any_root_or_none(exprs: Seq<ExprView>, upto: int)
    requires
        0 <= upto <= exprs.len(),
    ensures
        any_root_or_none(exprs, upto) <==> (exists|i: int|
            0 <= i < upto && is_root_or_none(#[trigger] exprs[i])),
    decreases upto,
{
    if upto > 0 {
        lemma_any_root_or_none(exprs, upto - 1);
    }
}

/// A union or a coalesce with a member that may hold more than the root may
/// hold more than the root itself.
pub proof fn lemma_union_needs_every_member(exprs: Seq<ExprView>, at: int)
    requires
        0 <= at < exprs.len(),
        !is_root_or_none(exprs[at]),
    ensures
        !is_root_or_none(ExprView::Union(exprs)),
        !is_root_or_none(ExprView::Coalesce(exprs)),
{
    lemma_all_root_or_none(exprs, exprs.len() as int);
}

/// An intersection with a member that holds at most the root holds at most
/// the root, whatever its other members are.
pub proof fn lemma_intersection_needs_one_member(exprs: Seq<ExprView>, at: int)
    requires
        0 <= at < exprs.len(),
        is_root_or_none(exprs[at]),
    ensures
        is_root_or_none(ExprView::Intersection(exprs)),
{
    lemma_any_root_or_none(exprs, exprs.len() as int);
}

/// Whether a range of generations is wide enough to count as unbounded.
pub open spec fn is_large(range: Range<u64>) -> bool {
    range.end - range.start >= 10_000
}

/// Whether each of the first `upto` expressions is slow in the context
/// `context`.
pub open spec fn all_slow(exprs: Seq<ExprView>, context: AnalyzeContext, upto: int) -> bool
    decreases exprs, upto,
{
    if 0 < upto <= exprs.len() {
        all_slow(exprs, context, upto - 1) && expr_cost(exprs[upto - 1], context)
            == AnalyzeCost::Slow
    } else {
        true
    }
}

/// What an expression is expected to cost in the ambient context `context`.
/// Slow are:
/// - ancestors over a large range of generations, met eagerly, of heads that
///   may be more than the root;
/// - a range over a large range of generations, met eagerly, from roots that
///   are at most the root to heads that may be more;
/// - in any context, a range of descendants over a large range of
///   generations from roots that are at most the root, but not nothing, to
///   heads that may be more;
/// - an intersection whose members are all slow in the same context.
///
/// Everything else is fast.
pub open spec fn expr_cost(expr: ExprView, context: AnalyzeContext) -> AnalyzeCost
    decreases expr, 0int,
{
    match expr {
        ExprView::Ancestors { heads, generation, parents_range } => if context
            == AnalyzeContext::Eager && !is_root_or_none(*heads) && is_large(generation) {
            AnalyzeCost::Slow
        } else {
            AnalyzeCost::Fast
        },
        ExprView::Range { roots, heads, generation, parents_range } => if context
            == AnalyzeContext::Eager && is_root_or_none(*roots) && !is_root_or_none(*heads)
            && is_large(generation) {
            AnalyzeCost::Slow
        } else {
            AnalyzeCost::Fast
        },
        ExprView::DagRange { roots, heads, generation_from_roots } => if !(*roots is Nothing)
            && is_root_or_none(*roots) && !is_root_or_none(*heads) && is_large(
            generation_from_roots,
        ) {
            AnalyzeCost::Slow
        } else {
            AnalyzeCost::Fast
        },
        ExprView::Intersection(exprs) => if all_slow(exprs, context, exprs.len() as int) {
            AnalyzeCost::Slow
        } else {
            AnalyzeCost::Fast
        },
        _ => AnalyzeCost::Fast,
    }
}

/// The first `upto` expressions are all slow exactly if each of them is.
pub proof fn lemma_all_slow(exprs: Seq<ExprView>, context: AnalyzeContext, upto: int)
    requires
        0 <= upto <= exprs.len(),
    ensures
        all_slow(exprs, context, upto) <==> (forall|i: int|
            0 <= i < upto ==> expr_cost(#[trigger] exprs[i], context) == AnalyzeCost::Slow),
    decreases upto,
{
    if upto > 0 {
        lemma_all_slow(exprs, context, upto - 1);
    }
}

/// What a predicate is expected to cost: what the set costs as a test where
/// the predicate is membership in a set, and nothing to speak of otherwise.
pub open spec fn predicate_cost(predicate: PredicateView) -> AnalyzeCost {
    match predicate {
        PredicateView::InSet(expr) => expr_cost(*expr, AnalyzeContext::Predicate),
        _ => AnalyzeCost::Fast,
    }
}

/// What a node is expected to cost in the ambient context `context`.
pub open spec fn cost_of(node: NodeView, context: AnalyzeContext) -> AnalyzeCost {
    match node {
        NodeView::Expr(expr) => expr_cost(expr, context),
        NodeView::Predicate(predicate) => predicate_cost(predicate),
        _ => AnalyzeCost::Fast,
    }
}

/// The views of a list of children of which some may be missing.
pub open spec fn optional_child_views(children: Seq<Option<Child<'_>>>) -> Seq<Option<ChildView>> {
    Seq::new(
        children.len(),
        |i: int|
            match children[i] {
                Some(child) => Some(child@),
                None => None,
            },
    )
}

/// Keeps the children that are there, in order.
pub fn only_present<'a>(children: Vec<Option<Child<'a>>>) -> (kept: Vec<Child<'a>>)
    ensures
        child_views(kept@) == present(optional_child_views(children@)),
{
    let ghost all = children@;
    let mut kept: Vec<Child<'a>> = Vec::new();
    for child in iter: children
        invariant
            iter.seq() == all,
            child_views(kept@) == present(optional_child_views(all.take(iter.index() as int))),
    {
        proof {
            let before = all.take(iter.index() as int);
            let after = all.take(iter.index() + 1);
            assert(optional_child_views(after).drop_last() =~= optional_child_views(before));
        }
        match child {
            Some(child) => {
                kept.push(child);
            },
            None => {},
        }
        assert(child_views(kept@) =~= present(
            optional_child_views(all.take(iter.index() + 1)),
        ));
    }
    assert(all.take(all.len() as int) =~= all);
    kept
}

/// A call written out: the name with its opening bracket, the argument, and
/// the closing bracket.
fn call_text(opening: &str, argument: &str) -> (text: String)
    ensures
        text@ == opening@ + argument@ + ")"@,
{
    let mut text = String::from_str(opening);
    text.append(argument);
    text.append(")");
    text
}

/// Renders an atomic filter in its canonical text.
pub fn filter_to_string(filter: &RevsetFilterPredicate) -> (text: Cow<'static, str>)
    ensures
        text@ == filter_text(filter),
{
    match filter {
        RevsetFilterPredicate::ParentCount(range) => {
            if range.start == 2 && range.end == u32::MAX {
                Cow::Borrowed("merges()")
            } else {
                let full = Range { start: 0u32, end: u32::MAX };
                let shown = shown_range(&widen(range), widen(&full));
                Cow::Owned(call_text("parent_count(", shown.as_str()))
            }
        },
        RevsetFilterPredicate::Description(pattern) => Cow::Owned(
            call_text("description(", format_string_expression(pattern).as_str()),
        ),
        RevsetFilterPredicate::Subject(pattern) => Cow::Owned(
            call_text("subject(", format_string_expression(pattern).as_str()),
        ),
        RevsetFilterPredicate::AuthorName(pattern) => Cow::Owned(
            call_text("author_name(", format_string_expression(pattern).as_str()),
        ),
        RevsetFilterPredicate::AuthorEmail(pattern) => Cow::Owned(
            call_text("author_email(", format_string_expression(pattern).as_str()),
        ),
        RevsetFilterPredicate::AuthorDate(pattern) => Cow::Owned(
            call_text("author_date(", format_date_pattern(pattern).as_str()),
        ),
        RevsetFilterPredicate::CommitterName(pattern) => Cow::Owned(
            call_text("committer_name(", format_string_expression(pattern).as_str()),
        ),
        RevsetFilterPredicate::CommitterEmail(pattern) => Cow::Owned(
            call_text("committer_email(", format_string_expression(pattern).as_str()),
        ),
        RevsetFilterPredicate::CommitterDate(pattern) => Cow::Owned(
            call_text("committer_date(", format_date_pattern(pattern).as_str()),
        ),
        RevsetFilterPredicate::File(files) => {
            let shown = format_fileset_expression(files);
            Cow::Owned(call_text("files(", cow_str(&shown)))
        },
        RevsetFilterPredicate::DiffLines { text, files } => {
            let mut shown = String::from_str("diff_lines(");
            shown.append(format_string_expression(text).as_str());
            shown.append(", ");
            let shown_files = format_fileset_expression(files);
            shown.append(cow_str(&shown_files));
            shown.append(")");
            Cow::Owned(shown)
        },
        RevsetFilterPredicate::HasConflict => Cow::Borrowed("conflicts()"),
        RevsetFilterPredicate::Signed => Cow::Borrowed("signed()"),
        RevsetFilterPredicate::Extension(tag) => Cow::Owned(tag.clone()),
    }
}

/// One unlabeled child per expression of a list, each in the given context.
fn expr_children<'a>(exprs: &'a Vec<Expr<'a>>, context: AnalyzeContext) -> (children: Vec<
    Child<'a>,
>)
    ensures
        child_views(children@) == expr_operands(
            expr_views(exprs@, exprs@.len() as int),
            context,
        ),
{
    proof {
        lemma_expr_views(exprs@, exprs@.len() as int);
    }
    let mut children: Vec<Child<'a>> = Vec::new();
    let mut i: usize = 0;
    while i < exprs.len()
        invariant
            i <= exprs.len(),
            children@.len() == i,
            forall|k: int|
                0 <= k < i ==> (#[trigger] children@[k])@ == unlabeled(
                    context,
                    NodeView::Expr(exprs@[k]@),
                ),
        decreases exprs.len() - i,
    {
        children.push(Child::unlabeled(context, Node::Expr(&exprs[i])));
        i += 1;
    }
    assert(child_views(children@) =~= expr_operands(
        expr_views(exprs@, exprs@.len() as int),
        context,
    ));
    children
}

/// One unlabeled child per predicate of a list, each in predicate context.
fn predicate_children<'a>(predicates: &'a Vec<Predicate<'a>>) -> (children: Vec<Child<'a>>)
    ensures
        child_views(children@) == predicate_operands(
            predicate_views(predicates@, predicates@.len() as int),
        ),
{
    proof {
        lemma_predicate_views(predicates@, predicates@.len() as int);
    }
    let mut children: Vec<Child<'a>> = Vec::new();
    let mut i: usize = 0;
    while i < predicates.len()
        invariant
            i <= predicates.len(),
            children@.len() == i,
            forall|k: int|
                0 <= k < i ==> (#[trigger] children@[k])@ == unlabeled(
                    AnalyzeContext::Predicate,
                    NodeView::Predicate(predicates@[k]@),
                ),
        decreases predicates.len() - i,
    {
        children.push(
            Child::unlabeled(AnalyzeContext::Predicate, Node::Predicate(&predicates[i])),
        );
        i += 1;
    }
    assert(child_views(children@) =~= predicate_operands(
        predicate_views(predicates@, predicates@.len() as int),
    ));
    children
}

/// Whether a range of generations is wide enough to count as unbounded.
pub fn is_large_range(range: &Range<u64>) -> (large: bool)
    ensures
        large == is_large(*range),
{
    range.end >= range.start && range.end - range.start >= 10_000
}

/// Whether a range of generations is the widest there is.
fn is_generation_range_full(range: &Range<u64>) -> (full: bool)
    ensures
        full == (*range == generation_range_full()),
{
    range.start == 0 && range.end == u64::MAX
}

/// Whether a range of parent indices is the widest there is.
fn is_parents_range_full(range: &Range<u32>) -> (full: bool)
    ensures
        full == (*range == parents_range_full()),
{
    range.start == 0 && range.end == u32::MAX
}

/// An entry without children.
fn leaf<'a>(name: Cow<'a, str>, context: AnalyzeContext) -> (entry: TreeEntry<'a>)
    ensures
        entry@ == leaf_entry(name@, context),
{
    let entry = TreeEntry { name, context, children: Vec::new() };
    assert(entry@.children =~= Seq::empty());
    entry
}

/// An entry with the children given.
fn branch<'a>(name: &'a str, context: AnalyzeContext, children: Vec<Child<'a>>) -> (entry:
    TreeEntry<'a>)
    ensures
        entry@ == (EntryView { name: name@, context, children: child_views(children@) }),
{
    TreeEntry { name: Cow::Borrowed(name), context, children }
}

impl AnalyzeTree for ResolvedReference<'_> {
    open spec fn node(&self) -> NodeView {
        NodeView::Expr(ExprView::Reference(self@))
    }

    fn entry(&self, _context: AnalyzeContext) -> (entry: TreeEntry<'_>) {
        leaf(Cow::Borrowed(self.as_str()), AnalyzeContext::Resolved)
    }

    fn cost(&self, _context: AnalyzeContext) -> (cost: AnalyzeCost) {
        AnalyzeCost::Fast
    }
}

/// Whether a filter tests for a change in any file at all.
fn is_any_file_filter(filter: &RevsetFilterPredicate) -> (any: bool)
    ensures
        any == is_any_file(filter),
{
    matches!(filter, RevsetFilterPredicate::File(FilesetExpression::All))
}

/// The list of the one child given.
fn only_child<'a>(child: Child<'a>) -> (children: Vec<Child<'a>>)
    ensures
        child_views(children@) == seq![child@],
{
    let mut children: Vec<Child<'a>> = Vec::new();
    children.push(child);
    assert(child_views(children@) =~= seq![child@]);
    children
}

/// The list of the two children given.
fn two_children<'a>(first: Child<'a>, second: Child<'a>) -> (children: Vec<Child<'a>>)
    ensures
        child_views(children@) == seq![first@, second@],
{
    let mut children: Vec<Child<'a>> = Vec::new();
    children.push(first);
    children.push(second);
    assert(child_views(children@) =~= seq![first@, second@]);
    children
}

/// The entry of the negation of `inner`: the negated text where `inner` is
/// an atomic filter, and a node above `inner` otherwise.
fn negated_entry<'a>(inner: &'a Predicate<'a>) -> (entry: TreeEntry<'a>)
    ensures
        entry@ == predicate_entry(PredicateView::NotIn(Box::new(inner@))),
{
    match inner {
        Predicate::Filter(filter) => {
            if is_any_file_filter(filter) {
                leaf(Cow::Borrowed("empty()"), AnalyzeContext::Predicate)
            } else {
                let mut name = String::from_str("~");
                let shown = filter_to_string(filter);
                name.append(cow_str(&shown));
                leaf(Cow::Owned(name), AnalyzeContext::Predicate)
            }
        },
        other => branch(
            "NotIn",
            AnalyzeContext::Predicate,
            only_child(Child::unlabeled(AnalyzeContext::Predicate, Node::Predicate(other))),
        ),
    }
}

impl AnalyzeTree for Predicate<'_> {
    open spec fn node(&self) -> NodeView {
        NodeView::Predicate(self@)
    }

    fn entry(&self, _context: AnalyzeContext) -> (entry: TreeEntry<'_>) {
        match self {
            Predicate::Filter(filter) => {
                if is_any_file_filter(filter) {
                    leaf(Cow::Borrowed("~empty()"), AnalyzeContext::Predicate)
                } else {
                    leaf(filter_to_string(filter), AnalyzeContext::Predicate)
                }
            },
            Predicate::Divergent { visible_heads } => branch(
                "Divergent",
                AnalyzeContext::Predicate,
                only_child(
                    Child::labeled(
                        "visible_heads",
                        AnalyzeContext::Eager,
                        Node::Expr(&**visible_heads),
                    ),
                ),
            ),
            Predicate::InSet(expr) => expr.entry(AnalyzeContext::Predicate),
            Predicate::NotIn(inner) => negated_entry(&**inner),
            Predicate::Union(predicates) => branch(
                "Union",
                AnalyzeContext::Predicate,
                predicate_children(predicates),
            ),
            Predicate::Intersection(predicates) => branch(
                "Intersection",
                AnalyzeContext::Predicate,
                predicate_children(predicates),
            ),
        }
    }

    fn cost(&self, _context: AnalyzeContext) -> (cost: AnalyzeCost) {
        match self {
            Predicate::InSet(expr) => expr.cost(AnalyzeContext::Predicate),
            _ => AnalyzeCost::Fast,
        }
    }
}

/// Whether every expression of a list is slow in the context `context`.
fn every_slow(exprs: &Vec<Expr<'_>>, context: AnalyzeContext) -> (every: bool)
    ensures
        every == all_slow(expr_views(exprs@, exprs@.len() as int), context, exprs@.len() as int),
    decreases exprs,
{
    let ghost views = expr_views(exprs@, exprs@.len() as int);
    proof {
        lemma_expr_views(exprs@, exprs@.len() as int);
    }
    let mut i: usize = 0;
    while i < exprs.len()
        invariant
            i <= exprs.len(),
            views == expr_views(exprs@, exprs@.len() as int),
            views.len() == exprs.len(),
            forall|k: int| 0 <= k < exprs.len() ==> (#[trigger] views[k]) == exprs[k]@,
            all_slow(views, context, i as int),
        decreases exprs.len() - i,
    {
        if exprs[i].cost(context) != AnalyzeCost::Slow {
            proof {
                lemma_all_slow(views, context, views.len() as int);
                assert(expr_cost(views[i as int], context) != AnalyzeCost::Slow);
            }
            return false;
        }
        i += 1;
    }
    true
}

/// The entry of the ancestors of `heads`.
fn ancestors_entry<'a>(
    heads: &'a Expr<'a>,
    generation: &'a Range<u64>,
    parents_range: &'a Range<u32>,
    context: AnalyzeContext,
) -> (entry: TreeEntry<'a>)
    ensures
        entry@ == expr_entry(
            ExprView::Ancestors {
                heads: Box::new(heads@),
                generation: *generation,
                parents_range: *parents_range,
            },
            context,
        ),
{
    let shown_generation = if !is_generation_range_full(generation) {
        Some(Child::labeled("generation", context, Node::Generation(generation)))
    } else {
        None
    };
    let shown_parents = if !is_parents_range_full(parents_range) {
        Some(Child::labeled("parent_index", context, Node::ParentIndex(parents_range)))
    } else {
        None
    };
    let shown_heads = Some(Child::labeled("heads", AnalyzeContext::Eager, Node::Expr(heads)));
    let all = vec![shown_generation, shown_parents, shown_heads];
    assert(optional_child_views(all@) =~= seq![
        child_if(
            *generation != generation_range_full(),
            labeled("generation"@, context, NodeView::Generation(*generation)),
        ),
        child_if(
            *parents_range != parents_range_full(),
            labeled("parent_index"@, context, NodeView::ParentIndex(*parents_range)),
        ),
        Some(labeled("heads"@, AnalyzeContext::Eager, NodeView::Expr(heads@))),
    ]);
    branch("Ancestors", context.predicate_to_lazy(), only_present(all))
}

/// The entry of the ancestors of `heads` that are no ancestors of `roots`.
fn range_entry<'a>(
    roots: &'a Expr<'a>,
    heads: &'a Expr<'a>,
    generation: &'a Range<u64>,
    parents_range: &'a Range<u32>,
    context: AnalyzeContext,
) -> (entry: TreeEntry<'a>)
    ensures
        entry@ == expr_entry(
            ExprView::Range {
                roots: Box::new(roots@),
                heads: Box::new(heads@),
                generation: *generation,
                parents_range: *parents_range,
            },
            context,
        ),
{
    let shown_generation = if !is_generation_range_full(generation) {
        Some(Child::labeled("generation", context, Node::Generation(generation)))
    } else {
        None
    };
    let shown_parents = if !is_parents_range_full(parents_range) {
        Some(Child::labeled("parent_index", context, Node::ParentIndex(parents_range)))
    } else {
        None
    };
    let shown_roots = Some(Child::labeled("roots", AnalyzeContext::Eager, Node::Expr(roots)));
    let shown_heads = Some(Child::labeled("heads", AnalyzeContext::Eager, Node::Expr(heads)));
    let all = vec![shown_generation, shown_parents, shown_roots, shown_heads];
    assert(optional_child_views(all@) =~= seq![
        child_if(
            *generation != generation_range_full(),
            labeled("generation"@, context, NodeView::Generation(*generation)),
        ),
        child_if(
            *parents_range != parents_range_full(),
            labeled("parent_index"@, context, NodeView::ParentIndex(*parents_range)),
        ),
        Some(labeled("roots"@, AnalyzeContext::Eager, NodeView::Expr(roots@))),
        Some(labeled("heads"@, AnalyzeContext::Eager, NodeView::Expr(heads@))),
    ]);
    branch("Range", context.predicate_to_lazy(), only_present(all))
}

/// The entry of the descendants of `roots` that are ancestors of `heads`.
fn dag_range_entry<'a>(
    roots: &'a Expr<'a>,
    heads: &'a Expr<'a>,
    generation_from_roots: &'a Range<u64>,
    context: AnalyzeContext,
) -> (entry: TreeEntry<'a>)
    ensures
        entry@ == expr_entry(
            ExprView::DagRange {
                roots: Box::new(roots@),
                heads: Box::new(heads@),
                generation_from_roots: *generation_from_roots,
            },
            context,
        ),
{
    let shown_generation = if !is_generation_range_full(generation_from_roots) {
        Some(
            Child::labeled(
                "generation_from_roots",
                context,
                Node::Generation(generation_from_roots),
            ),
        )
    } else {
        None
    };
    let shown_roots = Some(Child::labeled("roots", AnalyzeContext::Eager, Node::Expr(roots)));
    let shown_heads = Some(Child::labeled("heads", AnalyzeContext::Eager, Node::Expr(heads)));
    let all = vec![shown_generation, shown_roots, shown_heads];
    assert(optional_child_views(all@) =~= seq![
        child_if(
            *generation_from_roots != generation_range_full(),
            labeled(
                "generation_from_roots"@,
                context,
                NodeView::Generation(*generation_from_roots),
            ),
        ),
        Some(labeled("roots"@, AnalyzeContext::Eager, NodeView::Expr(roots@))),
        Some(labeled("heads"@, AnalyzeContext::Eager, NodeView::Expr(heads@))),
    ]);
    let effective = if generation_from_roots.start == 1 && generation_from_roots.end == 2 {
        context.predicate_to_lazy()
    } else {
        AnalyzeContext::Eager
    };
    branch("DagRange", effective, only_present(all))
}

/// The view of a filter that may be missing.
pub open spec fn optional_predicate_view(filter: Option<Predicate<'_>>) -> Option<PredicateView> {
    match filter {
        Some(predicate) => Some(predicate@),
        None => None,
    }
}

/// The entry of the heads among the ancestors of `heads` that are no
/// ancestors of `roots` and pass `filter`.
fn heads_range_entry<'a>(
    roots: &'a Expr<'a>,
    heads: &'a Expr<'a>,
    parents_range: &'a Range<u32>,
    filter: &'a Option<Predicate<'a>>,
    context: AnalyzeContext,
) -> (entry: TreeEntry<'a>)
    ensures
        entry@ == expr_entry(
            ExprView::HeadsRange {
                roots: Box::new(roots@),
                heads: Box::new(heads@),
                parents_range: *parents_range,
                filter: optional_predicate_view(*filter),
            },
            context,
        ),
{
    let shown_parents = if !is_parents_range_full(parents_range) {
        Some(Child::labeled("parent_index", context, Node::ParentIndex(parents_range)))
    } else {
        None
    };
    let shown_roots = Some(Child::labeled("roots", AnalyzeContext::Eager, Node::Expr(roots)));
    let shown_heads = Some(Child::labeled("heads", AnalyzeContext::Eager, Node::Expr(heads)));
    let shown_filter = match filter {
        Some(predicate) => Some(
            Child::labeled("filter", AnalyzeContext::Predicate, Node::Predicate(predicate)),
        ),
        None => None,
    };
    let all = vec![shown_parents, shown_roots, shown_heads, shown_filter];
    assert(optional_child_views(all@) =~= seq![
        child_if(
            *parents_range != parents_range_full(),
            labeled("parent_index"@, context, NodeView::ParentIndex(*parents_range)),
        ),
        Some(labeled("roots"@, AnalyzeContext::Eager, NodeView::Expr(roots@))),
        Some(labeled("heads"@, AnalyzeContext::Eager, NodeView::Expr(heads@))),
        filter_child(optional_predicate_view(*filter)),
    ]);
    branch("HeadsRange", AnalyzeContext::Eager, only_present(all))
}

impl AnalyzeTree for Expr<'_> {
    open spec fn node(&self) -> NodeView {
        NodeView::Expr(self@)
    }

    fn entry(&self, context: AnalyzeContext) -> (entry: TreeEntry<'_>) {
        match self {
            Expr::Nothing => leaf(Cow::Borrowed("none()"), AnalyzeContext::Resolved),
            Expr::Reference(reference) => reference.entry(context),
            Expr::Ancestors { heads, generation, parents_range } => ancestors_entry(
                &**heads,
                generation,
                parents_range,
                context,
            ),
            Expr::Range { roots, heads, generation, parents_range } => range_entry(
                &**roots,
                &**heads,
                generation,
                parents_range,
                context,
            ),
            Expr::DagRange { roots, heads, generation_from_roots } => dag_range_entry(
                &**roots,
                &**heads,
                generation_from_roots,
                context,
            ),
            Expr::Reachable { sources, domain } => branch(
                "Reachable",
                AnalyzeContext::Eager,
                two_children(
                    Child::labeled("sources", AnalyzeContext::Predicate, Node::Expr(&**sources)),
                    Child::labeled("domain", AnalyzeContext::Eager, Node::Expr(&**domain)),
                ),
            ),
            Expr::Heads(inner) => branch(
                "Heads",
                AnalyzeContext::Eager,
                only_child(Child::unlabeled(AnalyzeContext::Eager, Node::Expr(&**inner))),
            ),
            Expr::HeadsRange { roots, heads, parents_range, filter } => heads_range_entry(
                &**roots,
                &**heads,
                parents_range,
                filter,
                context,
            ),
            Expr::Roots(inner) => branch(
                "Roots",
                AnalyzeContext::Eager,
                only_child(Child::unlabeled(AnalyzeContext::Eager, Node::Expr(&**inner))),
            ),
            Expr::ForkPoint(inner) => branch(
                "ForkPoint",
                AnalyzeContext::Eager,
                only_child(Child::unlabeled(AnalyzeContext::Eager, Node::Expr(&**inner))),
            ),
            Expr::Bisect(inner) => branch(
                "Bisect",
                AnalyzeContext::Eager,
                only_child(Child::unlabeled(AnalyzeContext::Eager, Node::Expr(&**inner))),
            ),
            Expr::HasSize { candidates, count } => branch(
                "HasSize",
                AnalyzeContext::Eager,
                two_children(
                    Child::labeled("count", AnalyzeContext::Resolved, Node::Count(*count)),
                    Child::labeled("candidates", AnalyzeContext::Lazy, Node::Expr(&**candidates)),
                ),
            ),
            Expr::Latest { candidates, count } => branch(
                "Latest",
                AnalyzeContext::Eager,
                two_children(
                    Child::labeled("count", AnalyzeContext::Resolved, Node::Count(*count)),
                    Child::labeled("candidates", AnalyzeContext::Eager, Node::Expr(&**candidates)),
                ),
            ),
            Expr::Coalesce(exprs) => branch("Coalesce", context, expr_children(exprs, context)),
            Expr::Union(exprs) => branch("Union", context, expr_children(exprs, context)),
            Expr::FilterWithin { candidates, predicate } => branch(
                "FilterWithin",
                context,
                two_children(
                    Child::labeled("candidates", context, Node::Expr(&**candidates)),
                    Child::labeled("predicate", AnalyzeContext::Predicate, Node::Predicate(predicate)),
                ),
            ),
            Expr::Intersection(exprs) => branch(
                "Intersection",
                context,
                expr_children(exprs, context.eager_to_lazy()),
            ),
            Expr::Difference(left, right) => branch(
                "Difference",
                context,
                two_children(
                    Child::labeled("candidates", context, Node::Expr(&**left)),
                    Child::labeled("excluded", context.eager_to_lazy(), Node::Expr(&**right)),
                ),
            ),
        }
    }

    fn cost(&self, context: AnalyzeContext) -> (cost: AnalyzeCost)
        decreases self,
    {
        match self {
            Expr::Ancestors { heads, generation, parents_range } => {
                if context == AnalyzeContext::Eager && !heads.is_root_or_none() && is_large_range(
                    generation,
                ) {
                    AnalyzeCost::Slow
                } else {
                    AnalyzeCost::Fast
                }
            },
            Expr::Range { roots, heads, generation, parents_range } => {
                if context == AnalyzeContext::Eager && roots.is_root_or_none()
                    && !heads.is_root_or_none() && is_large_range(generation) {
                    AnalyzeCost::Slow
                } else {
                    AnalyzeCost::Fast
                }
            },
            Expr::DagRange { roots, heads, generation_from_roots } => {
                if !roots.is_none() && roots.is_root_or_none() && !heads.is_root_or_none()
                    && is_large_range(generation_from_roots) {
                    AnalyzeCost::Slow
                } else {
                    AnalyzeCost::Fast
                }
            },
            Expr::Intersection(exprs) => {
                proof {
                    lemma_expr_views(exprs@, exprs@.len() as int);
                }
                if every_slow(exprs, context) {
                    AnalyzeCost::Slow
                } else {
                    AnalyzeCost::Fast
                }
            },
            _ => AnalyzeCost::Fast,
        }
    }
}

/// The name under which a range is shown as a node of its own.
fn shown_range(range: &Range<u64>, full_range: Range<u64>) -> (name: String)
    ensures
        name@ == shown_range_text(*range, full_range),
{
    match format_range(range, full_range) {
        Some(name) => name,
        None => String::new(),
    }
}

impl AnalyzeTree for usize {
    open spec fn node(&self) -> NodeView {
        NodeView::Count(*self)
    }

    fn entry(&self, _context: AnalyzeContext) -> (entry: TreeEntry<'_>) {
        leaf(Cow::Owned(decimal_string(*self as u64)), AnalyzeContext::Resolved)
    }

    fn cost(&self, _context: AnalyzeContext) -> (cost: AnalyzeCost) {
        AnalyzeCost::Fast
    }
}

impl AnalyzeTree for Range<u64> {
    open spec fn node(&self) -> NodeView {
        NodeView::Generation(*self)
    }

    fn entry(&self, _context: AnalyzeContext) -> (entry: TreeEntry<'_>) {
        let full = Range { start: 0u64, end: u64::MAX };
        leaf(Cow::Owned(shown_range(self, full)), AnalyzeContext::Resolved)
    }

    fn cost(&self, _context: AnalyzeContext) -> (cost: AnalyzeCost) {
        AnalyzeCost::Fast
    }
}

impl AnalyzeTree for Range<u32> {
    open spec fn node(&self) -> NodeView {
        NodeView::ParentIndex(*self)
    }

    fn entry(&self, _context: AnalyzeContext) -> (entry: TreeEntry<'_>) {
        let full = Range { start: 0u32, end: u32::MAX };
        leaf(Cow::Owned(shown_range(&widen(self), widen(&full))), AnalyzeContext::Resolved)
    }

    fn cost(&self, _context: AnalyzeContext) -> (cost: AnalyzeCost) {
        AnalyzeCost::Fast
    }
}

impl AnalyzeTree for Node<'_> {
    open spec fn node(&self) -> NodeView {
        self@
    }

    fn entry(&self, context: AnalyzeContext) -> (entry: TreeEntry<'_>) {
        match self {
            Node::Expr(expr) => expr.entry(context),
            Node::Predicate(predicate) => predicate.entry(context),
            Node::Count(count) => count.entry(context),
            Node::Generation(range) => range.entry(context),
            Node::ParentIndex(range) => range.entry(context),
        }
    }

    fn cost(&self, context: AnalyzeContext) -> (cost: AnalyzeCost) {
        match self {
            Node::Expr(expr) => expr.cost(context),
            Node::Predicate(predicate) => predicate.cost(context),
            Node::Count(count) => count.cost(context),
            Node::Generation(range) => range.cost(context),
            Node::ParentIndex(range) => range.cost(context),
        }
    }
}

} // verus!
