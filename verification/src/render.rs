//! The renderer: walks a plan tree and writes it out as styled text, one
//! node per line, two spaces of indentation per level.

use crate::analyze::cost_of;
use crate::analyze::entry_of;
use crate::analyze::expr_entry;
use crate::analyze::predicate_entry;
use crate::expr::ExprView;
use crate::expr::PredicateView;
use crate::text::cow_str;
use crate::tree::child_views;
use crate::tree::AnalyzeContext;
use crate::tree::AnalyzeCost;
use crate::tree::AnalyzeTree;
use crate::tree::Child;
use crate::tree::ChildView;
use crate::tree::EntryView;
use crate::tree::Node;
use crate::tree::NodeView;
use crate::tree::TreeEntry;
use vstd::prelude::*;
use vstd::string::*;

verus! {

/// The colors a plan is written in.
#[derive(Debug, Copy, Clone, PartialEq, Eq, Structural)]
pub enum Color {
    /// The terminal's own color.
    Normal,
    Blue,
    BrightBlue,
    BrightCyan,
    BrightMagenta,
    BrightRed,
}

/// How a piece of text is to be shown.
#[derive(Debug, Copy, Clone, PartialEq, Eq, Structural)]
pub struct Style {
    pub color: Color,
    pub bold: bool,
    pub dimmed: bool,
}

/// A piece of text with its style.
#[derive(Debug)]
pub struct Segment {
    pub text: String,
    pub style: Style,
}

/// A piece of text with its style, as a mathematical value.
pub struct SegmentView {
    pub text: Seq<char>,
    pub style: Style,
}

impl View for Segment {
    type V = SegmentView;

    open spec fn view(&self) -> SegmentView {
        SegmentView { text: self.text@, style: self.style }
    }
}

/// The views of a list of segments.
pub open spec fn segment_views(segments: Seq<Segment>) -> Seq<SegmentView> {
    Seq::new(segments.len(), |i: int| segments[i]@)
}

/// Text in the terminal's own color and weight.
pub open spec fn plain_style() -> Style {
    Style { color: Color::Normal, bold: false, dimmed: false }
}

/// Dimmed text, for brackets and labels.
pub open spec fn dimmed_style() -> Style {
    Style { color: Color::Normal, bold: false, dimmed: true }
}

/// The style of the marker of an expensive node.
pub open spec fn marker_style() -> Style {
    Style { color: Color::BrightRed, bold: true, dimmed: false }
}

/// The color of a node's name. With analysis on, each context has a color of
/// its own; with analysis off, every node that is no leaf value is blue.
pub open spec fn name_color(context: AnalyzeContext, analyze: bool) -> Color {
    if analyze {
        match context {
            AnalyzeContext::Eager => Color::BrightBlue,
            AnalyzeContext::Lazy => Color::BrightCyan,
            AnalyzeContext::Predicate => Color::BrightMagenta,
            AnalyzeContext::Resolved => Color::Normal,
        }
    } else if context != AnalyzeContext::Resolved {
        Color::Blue
    } else {
        Color::Normal
    }
}

/// Whether one of the children plays a named role.
pub open spec fn any_labeled(children: Seq<ChildView>) -> bool {
    exists|i: int| 0 <= i < children.len() && (#[trigger] children[i]).label is Some
}

/// The bracket that opens the list of children: braces where a child is
/// labeled, round brackets around a single operand, square brackets around
/// several.
pub open spec fn opening_bracket(children: Seq<ChildView>) -> Seq<char> {
    if any_labeled(children) {
        " {"@
    } else if children.len() == 1 {
        "("@
    } else {
        " ["@
    }
}

/// The bracket that closes the list of children.
pub open spec fn closing_bracket(children: Seq<ChildView>) -> Seq<char> {
    if any_labeled(children) {
        "}"@
    } else if children.len() == 1 {
        ")"@
    } else {
        "]"@
    }
}

/// The indentation of a line at the given depth: two spaces per level.
pub open spec fn indentation(depth: nat) -> Seq<char>
    decreases depth,
{
    if depth == 0 {
        Seq::empty()
    } else {
        indentation((depth - 1) as nat) + "  "@
    }
}

/// The end of a line.
pub open spec fn line_end() -> SegmentView {
    SegmentView { text: "\n"@, style: plain_style() }
}

/// The line of a node itself: the marker where the node is expensive, the
/// name, and the opening bracket where the node has children.
pub open spec fn rendered_head(entry: EntryView, slow: bool, analyze: bool) -> Seq<SegmentView> {
    let marker = if slow {
        seq![
            SegmentView { text: "(EXPENSIVE)"@, style: marker_style() },
            SegmentView { text: " "@, style: plain_style() },
        ]
    } else {
        Seq::empty()
    };
    let name = SegmentView {
        text: entry.name,
        style: Style {
            color: name_color(entry.context, analyze),
            bold: entry.children.len() > 0,
            dimmed: false,
        },
    };
    let bracket = if entry.children.len() > 0 {
        seq![SegmentView { text: opening_bracket(entry.children), style: dimmed_style() }]
    } else {
        Seq::empty()
    };
    marker + seq![name] + bracket + seq![line_end()]
}

/// The line that closes the list of children, at the depth of their parent.
/// A node without children has none.
pub open spec fn rendered_tail(entry: EntryView, depth: nat) -> Seq<SegmentView> {
    if entry.children.len() > 0 {
        seq![
            SegmentView { text: indentation(depth), style: plain_style() },
            SegmentView { text: closing_bracket(entry.children), style: dimmed_style() },
            line_end(),
        ]
    } else {
        Seq::empty()
    }
}

/// What stands before a child's own lines: the indentation, and the label
/// with a colon where the child has one.
pub open spec fn rendered_lead(child: ChildView, depth: nat) -> Seq<SegmentView> {
    let indent = seq![SegmentView { text: indentation(depth), style: plain_style() }];
    match child.label {
        Some(label) => indent + seq![
            SegmentView { text: label + ":"@, style: dimmed_style() },
            SegmentView { text: " "@, style: plain_style() },
        ],
        None => indent,
    }
}

/// The larger of two numbers.
pub open spec fn larger(a: nat, b: nat) -> nat {
    if a >= b {
        a
    } else {
        b
    }
}

/// A bound on the height of the first `upto` expressions of a list.
pub open spec fn exprs_height(exprs: Seq<ExprView>, upto: int) -> nat
    decreases exprs, upto,
{
    if 0 < upto <= exprs.len() {
        larger(exprs_height(exprs, upto - 1), expr_height(exprs[upto - 1]))
    } else {
        0
    }
}

/// A bound on the height of the first `upto` predicates of a list.
pub open spec fn predicates_height(predicates: Seq<PredicateView>, upto: int) -> nat
    decreases predicates, upto,
{
    if 0 < upto <= predicates.len() {
        larger(predicates_height(predicates, upto - 1), predicate_height(predicates[upto - 1]))
    } else {
        0
    }
}

/// The height of the plan tree below a predicate.
pub open spec fn predicate_height(predicate: PredicateView) -> nat
    decreases predicate, 0int,
{
    match predicate {
        PredicateView::Filter(_) => 0,
        PredicateView::Divergent { visible_heads } => 1 + expr_height(*visible_heads),
        PredicateView::InSet(expr) => expr_height(*expr),
        PredicateView::NotIn(inner) => 1 + predicate_height(*inner),
        PredicateView::Union(predicates) => 1 + predicates_height(
            predicates,
            predicates.len() as int,
        ),
        PredicateView::Intersection(predicates) => 1 + predicates_height(
            predicates,
            predicates.len() as int,
        ),
    }
}

/// The height of the plan tree below an expression.
pub open spec fn expr_height(expr: ExprView) -> nat
    decreases expr, 0int,
{
    match expr {
        ExprView::Nothing => 0,
        ExprView::Reference(_) => 0,
        ExprView::Ancestors { heads, generation, parents_range } => 1 + expr_height(*heads),
        ExprView::Range { roots, heads, generation, parents_range } => 1 + larger(
            expr_height(*roots),
            expr_height(*heads),
        ),
        ExprView::DagRange { roots, heads, generation_from_roots } => 1 + larger(
            expr_height(*roots),
            expr_height(*heads),
        ),
        ExprView::Reachable { sources, domain } => 1 + larger(
            expr_height(*sources),
            expr_height(*domain),
        ),
        ExprView::Heads(inner) => 1 + expr_height(*inner),
        ExprView::HeadsRange { roots, heads, parents_range, filter } => 1 + larger(
            larger(expr_height(*roots), expr_height(*heads)),
            match filter {
                Some(predicate) => predicate_height(predicate),
                None => 0,
            },
        ),
        ExprView::Roots(inner) => 1 + expr_height(*inner),
        ExprView::ForkPoint(inner) => 1 + expr_height(*inner),
        ExprView::Bisect(inner) => 1 + expr_height(*inner),
        ExprView::HasSize { candidates, count } => 1 + expr_height(*candidates),
        ExprView::Latest { candidates, count } => 1 + expr_height(*candidates),
        ExprView::Coalesce(exprs) => 1 + exprs_height(exprs, exprs.len() as int),
        ExprView::Union(exprs) => 1 + exprs_height(exprs, exprs.len() as int),
        ExprView::FilterWithin { candidates, predicate } => 1 + larger(
            expr_height(*candidates),
            predicate_height(predicate),
        ),
        ExprView::Intersection(exprs) => 1 + exprs_height(exprs, exprs.len() as int),
        ExprView::Difference(left, right) => 1 + larger(expr_height(*left), expr_height(*right)),
    }
}

/// The height of the plan tree below a node.
pub open spec fn node_height(node: NodeView) -> nat {
    match node {
        NodeView::Expr(expr) => expr_height(expr),
        NodeView::Predicate(predicate) => predicate_height(predicate),
        _ => 0,
    }
}

/// How many levels the first `upto` children of a list take up, themselves
/// included.
pub open spec fn children_height(children: Seq<ChildView>, upto: int) -> nat
    decreases upto,
{
    if 0 < upto <= children.len() {
        larger(children_height(children, upto - 1), node_height(children[upto - 1].tree) + 1)
    } else {
        0
    }
}

/// Each of the first `upto` expressions is at most as high as the list.
pub proof fn lemma_exprs_height(exprs: Seq<ExprView>, upto: int)
    requires
        0 <= upto <= exprs.len(),
    ensures
        forall|i: int| 0 <= i < upto ==> expr_height(#[trigger] exprs[i]) <= exprs_height(exprs, upto),
    decreases upto,
{
    if upto > 0 {
        lemma_exprs_height(exprs, upto - 1);
    }
}

/// Each of the first `upto` predicates is at most as high as the list.
pub proof fn lemma_predicates_height(predicates: Seq<PredicateView>, upto: int)
    requires
        0 <= upto <= predicates.len(),
    ensures
        forall|i: int|
            0 <= i < upto ==> predicate_height(#[trigger] predicates[i]) <= predicates_height(
                predicates,
                upto,
            ),
    decreases upto,
{
    if upto > 0 {
        lemma_predicates_height(predicates, upto - 1);
    }
}

/// Children that are all lower than `bound` take up at most `bound` levels.
pub proof fn lemma_children_height(children: Seq<ChildView>, upto: int, bound: nat)
    requires
        0 <= upto <= children.len(),
        forall|i: int| 0 <= i < upto ==> node_height((#[trigger] children[i]).tree) < bound,
    ensures
        children_height(children, upto) <= bound,
    decreases upto,
{
    if upto > 0 {
        lemma_children_height(children, upto - 1, bound);
    }
}

/// What is kept of a list of optional children was in the list.
pub proof fn lemma_present_was_there(children: Seq<Option<ChildView>>)
    ensures
        forall|j: int|
            0 <= j < crate::analyze::present(children).len() ==> children.contains(
                Some(#[trigger] crate::analyze::present(children)[j]),
            ),
    decreases children.len(),
{
    if children.len() > 0 {
        let rest = children.drop_last();
        lemma_present_was_there(rest);
        assert forall|j: int| 0 <= j < crate::analyze::present(children).len() implies children.contains(
            Some(#[trigger] crate::analyze::present(children)[j]),
        ) by {
            let kept = crate::analyze::present(children)[j];
            if j < crate::analyze::present(rest).len() {
                assert(crate::analyze::present(rest)[j] == kept);
                assert(rest.contains(Some(kept)));
                let i = choose|i: int| 0 <= i < rest.len() && rest[i] == Some(kept);
                assert(children[i] == Some(kept));
            } else {
                assert(children[children.len() - 1] == Some(kept));
            }
        }
    }
}

/// Every child of an expression's entry is lower than the expression.
pub proof fn lemma_expr_children_lower(expr: ExprView, context: AnalyzeContext)
    ensures
        forall|i: int|
            0 <= i < expr_entry(expr, context).children.len() ==> node_height(
                (#[trigger] expr_entry(expr, context).children[i]).tree,
            ) < expr_height(expr),
{
    let children = expr_entry(expr, context).children;
    assert forall|i: int| 0 <= i < children.len() implies node_height(
        (#[trigger] children[i]).tree,
    ) < expr_height(expr) by {
        match expr {
            ExprView::Ancestors { heads, generation, parents_range } => {
                let all = seq![
                    crate::analyze::child_if(
                        generation != crate::analyze::generation_range_full(),
                        crate::analyze::labeled(
                            "generation"@,
                            context,
                            NodeView::Generation(generation),
                        ),
                    ),
                    crate::analyze::child_if(
                        parents_range != crate::analyze::parents_range_full(),
                        crate::analyze::labeled(
                            "parent_index"@,
                            context,
                            NodeView::ParentIndex(parents_range),
                        ),
                    ),
                    Some(
                        crate::analyze::labeled(
                            "heads"@,
                            AnalyzeContext::Eager,
                            NodeView::Expr(*heads),
                        ),
                    ),
                ];
                lemma_present_was_there(all);
                assert(all.contains(Some(children[i])));
            },
            ExprView::Range { roots, heads, generation, parents_range } => {
                let all = seq![
                    crate::analyze::child_if(
                        generation != crate::analyze::generation_range_full(),
                        crate::analyze::labeled(
                            "generation"@,
                            context,
                            NodeView::Generation(generation),
                        ),
                    ),
                    crate::analyze::child_if(
                        parents_range != crate::analyze::parents_range_full(),
                        crate::analyze::labeled(
                            "parent_index"@,
                            context,
                            NodeView::ParentIndex(parents_range),
                        ),
                    ),
                    Some(
                        crate::analyze::labeled(
                            "roots"@,
                            AnalyzeContext::Eager,
                            NodeView::Expr(*roots),
                        ),
                    ),
                    Some(
                        crate::analyze::labeled(
                            "heads"@,
                            AnalyzeContext::Eager,
                            NodeView::Expr(*heads),
                        ),
                    ),
                ];
                lemma_present_was_there(all);
                assert(all.contains(Some(children[i])));
            },
            ExprView::DagRange { roots, heads, generation_from_roots } => {
                let all = seq![
                    crate::analyze::child_if(
                        generation_from_roots != crate::analyze::generation_range_full(),
                        crate::analyze::labeled(
                            "generation_from_roots"@,
                            context,
                            NodeView::Generation(generation_from_roots),
                        ),
                    ),
                    Some(
                        crate::analyze::labeled(
                            "roots"@,
                            AnalyzeContext::Eager,
                            NodeView::Expr(*roots),
                        ),
                    ),
                    Some(
                        crate::analyze::labeled(
                            "heads"@,
                            AnalyzeContext::Eager,
                            NodeView::Expr(*heads),
                        ),
                    ),
                ];
                lemma_present_was_there(all);
                assert(all.contains(Some(children[i])));
            },
            ExprView::HeadsRange { roots, heads, parents_range, filter } => {
                let all = seq![
                    crate::analyze::child_if(
                        parents_range != crate::analyze::parents_range_full(),
                        crate::analyze::labeled(
                            "parent_index"@,
                            context,
                            NodeView::ParentIndex(parents_range),
                        ),
                    ),
                    Some(
                        crate::analyze::labeled(
                            "roots"@,
                            AnalyzeContext::Eager,
                            NodeView::Expr(*roots),
                        ),
                    ),
                    Some(
                        crate::analyze::labeled(
                            "heads"@,
                            AnalyzeContext::Eager,
                            NodeView::Expr(*heads),
                        ),
                    ),
                    crate::analyze::filter_child(filter),
                ];
                lemma_present_was_there(all);
                assert(all.contains(Some(children[i])));
            },
            ExprView::Coalesce(exprs) => {
                lemma_exprs_height(exprs, exprs.len() as int);
            },
            ExprView::Union(exprs) => {
                lemma_exprs_height(exprs, exprs.len() as int);
            },
            ExprView::Intersection(exprs) => {
                lemma_exprs_height(exprs, exprs.len() as int);
            },
            _ => {},
        }
    }
}

/// Every child of a node's entry is lower than the node.
pub proof fn lemma_children_lower(node: NodeView, context: AnalyzeContext)
    ensures
        forall|i: int|
            0 <= i < entry_of(node, context).children.len() ==> node_height(
                (#[trigger] entry_of(node, context).children[i]).tree,
            ) < node_height(node),
        children_height(
            entry_of(node, context).children,
            entry_of(node, context).children.len() as int,
        ) <= node_height(node),
{
    match node {
        NodeView::Expr(expr) => {
            lemma_expr_children_lower(expr, context);
        },
        NodeView::Predicate(predicate) => {
            match predicate {
                PredicateView::InSet(expr) => {
                    lemma_expr_children_lower(*expr, AnalyzeContext::Predicate);
                },
                PredicateView::Union(predicates) => {
                    lemma_predicates_height(predicates, predicates.len() as int);
                },
                PredicateView::Intersection(predicates) => {
                    lemma_predicates_height(predicates, predicates.len() as int);
                },
                _ => {},
            }
        },
        _ => {},
    }
    lemma_children_height(
        entry_of(node, context).children,
        entry_of(node, context).children.len() as int,
        node_height(node),
    );
}

/// The lines of the first `upto` children of a list, each child at the given
/// depth.
pub open spec fn rendered_children(
    children: Seq<ChildView>,
    upto: int,
    depth: nat,
    analyze: bool,
) -> Seq<SegmentView>
    decreases children_height(children, upto), 0int, upto,
{
    if 0 < upto <= children.len() {
        let child = children[upto - 1];
        rendered_children(children, upto - 1, depth, analyze) + rendered_lead(child, depth)
            + rendered(child.tree, child.context, depth, analyze)
    } else {
        Seq::empty()
    }
}

/// The plan of a node met in the context `context`, written at the given
/// depth: the node's own line, the lines of its children one level deeper,
/// each in the context its entry declares, and the closing bracket. With
/// `analyze`, names are colored by context and expensive nodes are marked.
pub open spec fn rendered(node: NodeView, context: AnalyzeContext, depth: nat, analyze: bool) -> Seq<
    SegmentView,
>
    decreases node_height(node), 1int, 0int,
{
    let entry = entry_of(node, context);
    let slow = analyze && cost_of(node, context) == AnalyzeCost::Slow;
    proof {
        lemma_children_lower(node, context);
    }
    rendered_head(entry, slow, analyze) + rendered_children(
        entry.children,
        entry.children.len() as int,
        depth + 1,
        analyze,
    ) + rendered_tail(entry, depth)
}

/// Each of the first `upto` children takes up less than the list does.
pub proof fn lemma_child_within(children: Seq<ChildView>, upto: int)
    requires
        0 <= upto <= children.len(),
    ensures
        forall|i: int|
            0 <= i < upto ==> node_height((#[trigger] children[i]).tree) < children_height(
                children,
                upto,
            ),
    decreases upto,
{
    if upto > 0 {
        lemma_child_within(children, upto - 1);
    }
}

/// Appends a piece of text in the given style.
fn emit(out: &mut Vec<Segment>, text: String, style: Style)
    ensures
        segment_views(final(out)@) == segment_views(old(out)@).push(
            SegmentView { text: text@, style },
        ),
{
    let ghost view = SegmentView { text: text@, style };
    out.push(Segment { text, style });
    assert(segment_views(out@) =~= segment_views(old(out)@).push(view));
}

/// Whether one of the children plays a named role.
fn has_label(children: &Vec<Child<'_>>) -> (any: bool)
    ensures
        any == any_labeled(child_views(children@)),
{
    let mut i: usize = 0;
    while i < children.len()
        invariant
            i <= children.len(),
            forall|k: int| 0 <= k < i ==> (#[trigger] child_views(children@)[k]).label is None,
        decreases children.len() - i,
    {
        if children[i].label.is_some() {
            assert(child_views(children@)[i as int].label is Some);
            return true;
        }
        i += 1;
    }
    false
}

/// The color of a node's name.
fn color_of(context: AnalyzeContext, analyze: bool) -> (color: Color)
    ensures
        color == name_color(context, analyze),
{
    if analyze {
        match context {
            AnalyzeContext::Eager => Color::BrightBlue,
            AnalyzeContext::Lazy => Color::BrightCyan,
            AnalyzeContext::Predicate => Color::BrightMagenta,
            AnalyzeContext::Resolved => Color::Normal,
        }
    } else if context != AnalyzeContext::Resolved {
        Color::Blue
    } else {
        Color::Normal
    }
}

/// Writes the line of a node itself.
fn print_head(entry: &TreeEntry<'_>, slow: bool, analyze: bool, out: &mut Vec<Segment>)
    ensures
        segment_views(final(out)@) == segment_views(old(out)@) + rendered_head(
            entry@,
            slow,
            analyze,
        ),
{
    let plain = Style { color: Color::Normal, bold: false, dimmed: false };
    let dimmed = Style { color: Color::Normal, bold: false, dimmed: true };
    if slow {
        emit(
            out,
            String::from_str("(EXPENSIVE)"),
            Style { color: Color::BrightRed, bold: true, dimmed: false },
        );
        emit(out, String::from_str(" "), plain);
    }
    let has_children = entry.children.len() > 0;
    emit(
        out,
        String::from_str(cow_str(&entry.name)),
        Style { color: color_of(entry.context, analyze), bold: has_children, dimmed: false },
    );
    if has_children {
        let bracket = if has_label(&entry.children) {
            " {"
        } else if entry.children.len() == 1 {
            "("
        } else {
            " ["
        };
        emit(out, String::from_str(bracket), dimmed);
    }
    emit(out, String::from_str("\n"), plain);
    assert(segment_views(out@) =~= segment_views(old(out)@) + rendered_head(
        entry@,
        slow,
        analyze,
    ));
}

/// Writes the line that closes the list of children, where there are any.
fn print_tail(entry: &TreeEntry<'_>, indent: &str, out: &mut Vec<Segment>, Ghost(depth): Ghost<nat>)
    requires
        indent@ == indentation(depth),
    ensures
        segment_views(final(out)@) == segment_views(old(out)@) + rendered_tail(entry@, depth),
{
    let plain = Style { color: Color::Normal, bold: false, dimmed: false };
    let dimmed = Style { color: Color::Normal, bold: false, dimmed: true };
    if entry.children.len() > 0 {
        let bracket = if has_label(&entry.children) {
            "}"
        } else if entry.children.len() == 1 {
            ")"
        } else {
            "]"
        };
        emit(out, String::from_str(indent), plain);
        emit(out, String::from_str(bracket), dimmed);
        emit(out, String::from_str("\n"), plain);
    }
    assert(segment_views(out@) =~= segment_views(old(out)@) + rendered_tail(entry@, depth));
}

/// Writes what stands before a child's own lines.
fn print_lead(child: &Child<'_>, indent: &str, out: &mut Vec<Segment>, Ghost(depth): Ghost<nat>)
    requires
        indent@ == indentation(depth),
    ensures
        segment_views(final(out)@) == segment_views(old(out)@) + rendered_lead(child@, depth),
{
    let plain = Style { color: Color::Normal, bold: false, dimmed: false };
    let dimmed = Style { color: Color::Normal, bold: false, dimmed: true };
    emit(out, String::from_str(indent), plain);
    match &child.label {
        Some(label) => {
            let mut text = String::from_str(cow_str(label));
            text.append(":");
            emit(out, text, dimmed);
            emit(out, String::from_str(" "), plain);
        },
        None => {},
    }
    assert(segment_views(out@) =~= segment_views(old(out)@) + rendered_lead(child@, depth));
}

/// Writes a node's entry: its own line, its children one level deeper, and
/// the closing bracket.
fn print_entry(
    entry: &TreeEntry<'_>,
    slow: bool,
    indent: &str,
    analyze: bool,
    out: &mut Vec<Segment>,
    Ghost(depth): Ghost<nat>,
)
    requires
        indent@ == indentation(depth),
    ensures
        segment_views(final(out)@) == segment_views(old(out)@) + rendered_head(
            entry@,
            slow,
            analyze,
        ) + rendered_children(
            entry@.children,
            entry@.children.len() as int,
            depth + 1,
            analyze,
        ) + rendered_tail(entry@, depth),
    decreases children_height(entry@.children, entry@.children.len() as int), 0int,
{
    print_head(entry, slow, analyze, out);
    let mut inner = String::from_str(indent);
    inner.append("  ");
    let ghost before = segment_views(out@);
    let ghost children = entry@.children;
    let mut i: usize = 0;
    while i < entry.children.len()
        invariant
            i <= entry.children.len(),
            children == entry@.children,
            children.len() == entry.children.len(),
            inner@ == indentation(depth + 1),
            segment_views(out@) == before + rendered_children(
                children,
                i as int,
                depth + 1,
                analyze,
            ),
        decreases entry.children.len() - i,
    {
        let child = &entry.children[i];
        assert(child@ == children[i as int]);
        proof {
            lemma_child_within(children, children.len() as int);
        }
        print_lead(child, inner.as_str(), out, Ghost(depth + 1));
        print_helper(&child.tree, child.context, inner.as_str(), analyze, out, Ghost(depth + 1));
        i += 1;
        assert(segment_views(out@) =~= before + rendered_children(
            children,
            i as int,
            depth + 1,
            analyze,
        ));
    }
    print_tail(entry, indent, out, Ghost(depth));
}

/// Writes the plan of a node met in the context `context`.
fn print_helper(
    tree: &Node<'_>,
    context: AnalyzeContext,
    indent: &str,
    analyze: bool,
    out: &mut Vec<Segment>,
    Ghost(depth): Ghost<nat>,
)
    requires
        indent@ == indentation(depth),
    ensures
        segment_views(final(out)@) == segment_views(old(out)@) + rendered(
            tree@,
            context,
            depth,
            analyze,
        ),
    decreases node_height(tree@), 1int,
{
    let entry = tree.entry(context);
    let slow = analyze && tree.cost(context) == AnalyzeCost::Slow;
    proof {
        lemma_children_lower(tree@, context);
    }
    print_entry(&entry, slow, indent, analyze, out, Ghost(depth));
}

/// Renders the plan of `tree`, met in the context `context`, as styled text.
/// With `analyze`, names are colored by the context they are evaluated in and
/// expensive nodes are marked; without it, every node that is no leaf value
/// is blue and nothing is marked.
pub fn pretty_print<T: AnalyzeTree>(tree: &T, context: AnalyzeContext, analyze: bool) -> (segments:
    Vec<Segment>)
    ensures
        segment_views(segments@) == rendered(tree.node(), context, 0, analyze),
{
    let mut segments: Vec<Segment> = Vec::new();
    let entry = tree.entry(context);
    let slow = analyze && tree.cost(context) == AnalyzeCost::Slow;
    let indent = String::new();
    assert(segment_views(segments@) =~= Seq::empty());
    print_entry(&entry, slow, indent.as_str(), analyze, &mut segments, Ghost(0));
    assert(segment_views(segments@) =~= rendered(tree.node(), context, 0, analyze));
    segments
}

/// The text of a list of segments without their styles.
pub open spec fn plain(segments: Seq<SegmentView>) -> Seq<char>
    decreases segments.len(),
{
    if segments.len() == 0 {
        Seq::empty()
    } else {
        plain(segments.drop_last()) + segments.last().text
    }
}

/// The text of a rendered plan as it reads with colors switched off.
pub fn plain_text(segments: &Vec<Segment>) -> (text: String)
    ensures
        text@ == plain(segment_views(segments@)),
{
    let mut text = String::new();
    let mut i: usize = 0;
    while i < segments.len()
        invariant
            i <= segments.len(),
            text@ == plain(segment_views(segments@).take(i as int)),
        decreases segments.len() - i,
    {
        text.append(segments[i].text.as_str());
        i += 1;
        assert(segment_views(segments@).take(i as int).drop_last() =~= segment_views(
            segments@,
        ).take(i - 1));
    }
    assert(segment_views(segments@).take(segments.len() as int) =~= segment_views(segments@));
    text
}

} // verus!
