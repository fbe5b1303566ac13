//! Evaluation contexts, cost classes and the display entries of a plan tree.

use crate::expr::Expr;
use crate::expr::ExprView;
use crate::expr::Predicate;
use crate::expr::PredicateView;
use std::borrow::Cow;
use std::ops::Range;
use vstd::prelude::*;

verus! {

/// How expensive a node is expected to be.
#[derive(Debug, Copy, Clone, PartialEq, Eq, Structural)]
pub enum AnalyzeCost {
    Fast,
    Slow,
}

/// How the result of a node is consumed by its parent.
#[derive(Debug, Copy, Clone, PartialEq, Eq, Structural)]
pub enum AnalyzeContext {
    /// Fully materialized before use.
    Eager,
    /// Consulted through incremental membership tests.
    Lazy,
    /// Used as a boolean test only.
    Predicate,
    /// A leaf value; no further context applies.
    Resolved,
}

impl Default for AnalyzeContext {
    /// A revset is taken to be evaluated lazily unless something else is
    /// asked for.
    fn default() -> (context: Self)
        ensures
            context == AnalyzeContext::Lazy,
    {
        AnalyzeContext::Lazy
    }
}

impl AnalyzeContext {
    /// `Predicate` becomes `Lazy`; every other context is kept.
    pub open spec fn spec_predicate_to_lazy(self) -> Self {
        if self == Self::Predicate {
            Self::Lazy
        } else {
            self
        }
    }

    /// `Eager` becomes `Lazy`; every other context is kept.
    pub open spec fn spec_eager_to_lazy(self) -> Self {
        if self == Self::Eager {
            Self::Lazy
        } else {
            self
        }
    }

    /// The name of a context as it is written in lower case.
    pub open spec fn name(self) -> Seq<char> {
        match self {
            Self::Eager => "eager"@,
            Self::Lazy => "lazy"@,
            Self::Predicate => "predicate"@,
            Self::Resolved => "resolved"@,
        }
    }

    /// The name of the context, in lower case.
    pub fn as_str(self) -> (name: &'static str)
        ensures
            name@ == self.name(),
    {
        match self {
            Self::Eager => "eager",
            Self::Lazy => "lazy",
            Self::Predicate => "predicate",
            Self::Resolved => "resolved",
        }
    }

    /// `Predicate` becomes `Lazy`; every other context is kept.
    #[verifier::when_used_as_spec(spec_predicate_to_lazy)]
    pub fn predicate_to_lazy(self) -> (lowered: Self)
        ensures
            lowered == self.spec_predicate_to_lazy(),
    {
        match self {
            Self::Predicate => Self::Lazy,
            other => other,
        }
    }

    /// `Eager` becomes `Lazy`; every other context is kept.
    #[verifier::when_used_as_spec(spec_eager_to_lazy)]
    pub fn eager_to_lazy(self) -> (lowered: Self)
        ensures
            lowered == self.spec_eager_to_lazy(),
    {
        match self {
            Self::Eager => Self::Lazy,
            other => other,
        }
    }
}

/// A node of a plan tree as a mathematical value: an expression, a
/// predicate, or one of the scalars shown beneath them.
pub enum NodeView {
    Expr(ExprView),
    Predicate(PredicateView),
    Count(usize),
    Generation(Range<u64>),
    ParentIndex(Range<u32>),
}

/// A child of a display entry as a mathematical value.
pub struct ChildView {
    pub label: Option<Seq<char>>,
    pub context: AnalyzeContext,
    pub tree: NodeView,
}

/// A display entry as a mathematical value.
pub struct EntryView {
    pub name: Seq<char>,
    pub context: AnalyzeContext,
    pub children: Seq<ChildView>,
}

/// A node of a plan tree: a borrowed expression or predicate, or one of the
/// scalars shown beneath them.
#[derive(Debug)]
pub enum Node<'a> {
    Expr(&'a Expr<'a>),
    Predicate(&'a Predicate<'a>),
    Count(usize),
    Generation(&'a Range<u64>),
    ParentIndex(&'a Range<u32>),
}

impl<'a> View for Node<'a> {
    type V = NodeView;

    open spec fn view(&self) -> NodeView {
        match self {
            Node::Expr(expr) => NodeView::Expr(expr@),
            Node::Predicate(predicate) => NodeView::Predicate(predicate@),
            Node::Count(count) => NodeView::Count(*count),
            Node::Generation(range) => NodeView::Generation(**range),
            Node::ParentIndex(range) => NodeView::ParentIndex(**range),
        }
    }
}

/// One child of a display entry: the subtree, the context it is evaluated
/// in, and the role it plays for its parent where it has one.
#[derive(Debug)]
pub struct Child<'a> {
    pub label: Option<Cow<'a, str>>,
    pub context: AnalyzeContext,
    pub tree: Node<'a>,
}

impl<'a> View for Child<'a> {
    type V = ChildView;

    open spec fn view(&self) -> ChildView {
        ChildView {
            label: match self.label {
                Some(label) => Some(label@),
                None => None,
            },
            context: self.context,
            tree: self.tree@,
        }
    }
}

/// The views of a list of children.
pub open spec fn child_views(children: Seq<Child<'_>>) -> Seq<ChildView> {
    Seq::new(children.len(), |i: int| children[i]@)
}

/// What a plan shows for one node: its name, the context it is effectively
/// evaluated in, and its children.
#[derive(Debug)]
pub struct TreeEntry<'a> {
    pub name: Cow<'a, str>,
    pub context: AnalyzeContext,
    pub children: Vec<Child<'a>>,
}

impl<'a> View for TreeEntry<'a> {
    type V = EntryView;

    open spec fn view(&self) -> EntryView {
        EntryView {
            name: self.name@,
            context: self.context,
            children: child_views(self.children@),
        }
    }
}

impl<'a> Child<'a> {
    /// A child that plays the role `label` for its parent.
    pub fn labeled(label: &'a str, context: AnalyzeContext, tree: Node<'a>) -> (child: Self)
        ensures
            child@ == (ChildView { label: Some(label@), context, tree: tree@ }),
    {
        Child { label: Some(Cow::Borrowed(label)), context, tree }
    }

    /// A child that is one of a list of operands.
    pub fn unlabeled(context: AnalyzeContext, tree: Node<'a>) -> (child: Self)
        ensures
            child@ == (ChildView { label: None, context, tree: tree@ }),
    {
        Child { label: None, context, tree }
    }
}

/// The capability shared by everything a plan can show: a value stands for a
/// node, and gives that node's display entry and cost in an ambient context.
pub trait AnalyzeTree {
    /// The node this value stands for.
    spec fn node(&self) -> NodeView;

    /// What the plan shows for the node met in the context `context`.
    fn entry(&self, context: AnalyzeContext) -> (entry: TreeEntry<'_>)
        ensures
            entry@ == crate::analyze::entry_of(self.node(), context),
    ;

    /// What the node is expected to cost in the context `context`.
    fn cost(&self, context: AnalyzeContext) -> (cost: AnalyzeCost)
        ensures
            cost == crate::analyze::cost_of(self.node(), context),
    ;
}

} // verus!
