//! The expression model of a resolved revset and what a plan says of it.

use crate::analyze::is_root_or_none;
use crate::analyze::all_root_or_none;
use crate::analyze::any_root_or_none;
use crate::analyze::lemma_all_root_or_none;
use crate::analyze::lemma_any_root_or_none;
use crate::pattern::RevsetFilterPredicate;
use crate::text::cow_str;
use crate::text::same_text;
use std::borrow::Cow;
use std::ops::Range;
use vstd::prelude::*;

verus! {

/// The display text of a symbolic commit set: the root, the visible heads, a
/// named bookmark and the like.
#[derive(Debug)]
pub struct ResolvedReference<'a>(pub Cow<'a, str>);

impl<'a> View for ResolvedReference<'a> {
    type V = Seq<char>;

    open spec fn view(&self) -> Seq<char> {
        self.0@
    }
}

/// The text of the root commit.
pub open spec fn root_text() -> Seq<char> {
    "root()"@
}

/// The text of the visible heads.
pub open spec fn visible_heads_text() -> Seq<char> {
    "visible_heads()"@
}

/// The text a literal set collapses to when it includes the visible heads.
pub open spec fn visible_heads_or_referenced_text() -> Seq<char> {
    "visible_heads() and referenced revisions"@
}

/// The text of the working copy of the default workspace.
pub open spec fn working_copy_text() -> Seq<char> {
    "@"@
}

impl ResolvedReference<'static> {
    /// A reference with a text known at compile time.
    pub fn new_static(reference: &'static str) -> (made: Self)
        ensures
            made@ == reference@,
    {
        Self(Cow::Borrowed(reference))
    }

    /// The root commit.
    pub fn root() -> (made: Self)
        ensures
            made@ == root_text(),
    {
        Self::new_static("root()")
    }

    /// The visible heads.
    pub fn visible_heads() -> (made: Self)
        ensures
            made@ == visible_heads_text(),
    {
        Self::new_static("visible_heads()")
    }

    /// What a literal set that includes the visible heads collapses to.
    pub fn visible_heads_or_referenced() -> (made: Self)
        ensures
            made@ == visible_heads_or_referenced_text(),
    {
        Self::new_static("visible_heads() and referenced revisions")
    }

    /// The working copy of the default workspace.
    pub fn working_copy() -> (made: Self)
        ensures
            made@ == working_copy_text(),
    {
        Self::new_static("@")
    }

    /// A reference with a text built at run time.
    pub fn new_owned(reference: String) -> (made: Self)
        ensures
            made@ == reference@,
    {
        Self(Cow::Owned(reference))
    }
}

impl<'a> ResolvedReference<'a> {
    /// The display text.
    pub fn as_str(&self) -> (text: &str)
        ensures
            text@ == self@,
    {
        cow_str(&self.0)
    }

    /// Whether the reference has the given text.
    pub fn is(&self, text: &str) -> (same: bool)
        ensures
            same == (self@ == text@),
    {
        same_text(cow_str(&self.0), text)
    }
}

/// A test on single commits, built from atomic filters and set membership.
#[derive(Debug)]
pub enum Predicate<'a> {
    /// An atomic filter.
    Filter(RevsetFilterPredicate),
    /// Commits with a divergent change. The visible heads are no operand of
    /// the test; they are kept to be shown.
    Divergent { visible_heads: Box<Expr<'a>> },
    /// Membership in the commits of an expression.
    InSet(Box<Expr<'a>>),
    NotIn(Box<Predicate<'a>>),
    Union(Vec<Predicate<'a>>),
    Intersection(Vec<Predicate<'a>>),
}

/// A set of commits. The operands of `Coalesce`, `Union` and `Intersection`
/// are held as one flat list.
#[derive(Debug)]
pub enum Expr<'a> {
    /// The empty set.
    Nothing,
    Reference(ResolvedReference<'a>),
    Ancestors { heads: Box<Expr<'a>>, generation: Range<u64>, parents_range: Range<u32> },
    Range {
        roots: Box<Expr<'a>>,
        heads: Box<Expr<'a>>,
        generation: Range<u64>,
        parents_range: Range<u32>,
    },
    DagRange { roots: Box<Expr<'a>>, heads: Box<Expr<'a>>, generation_from_roots: Range<u64> },
    Reachable { sources: Box<Expr<'a>>, domain: Box<Expr<'a>> },
    Heads(Box<Expr<'a>>),
    HeadsRange {
        roots: Box<Expr<'a>>,
        heads: Box<Expr<'a>>,
        parents_range: Range<u32>,
        filter: Option<Predicate<'a>>,
    },
    Roots(Box<Expr<'a>>),
    ForkPoint(Box<Expr<'a>>),
    Bisect(Box<Expr<'a>>),
    HasSize { candidates: Box<Expr<'a>>, count: usize },
    Latest { candidates: Box<Expr<'a>>, count: usize },
    Coalesce(Vec<Expr<'a>>),
    Union(Vec<Expr<'a>>),
    FilterWithin { candidates: Box<Expr<'a>>, predicate: Predicate<'a> },
    Intersection(Vec<Expr<'a>>),
    Difference(Box<Expr<'a>>, Box<Expr<'a>>),
}

/// What a predicate is, with texts and lists as mathematical values.
pub enum PredicateView {
    Filter(RevsetFilterPredicate),
    Divergent { visible_heads: Box<ExprView> },
    InSet(Box<ExprView>),
    NotIn(Box<PredicateView>),
    Union(Seq<PredicateView>),
    Intersection(Seq<PredicateView>),
}

/// What an expression is, with texts and lists as mathematical values.
pub enum ExprView {
    Nothing,
    Reference(Seq<char>),
    Ancestors { heads: Box<ExprView>, generation: Range<u64>, parents_range: Range<u32> },
    Range {
        roots: Box<ExprView>,
        heads: Box<ExprView>,
        generation: Range<u64>,
        parents_range: Range<u32>,
    },
    DagRange { roots: Box<ExprView>, heads: Box<ExprView>, generation_from_roots: Range<u64> },
    Reachable { sources: Box<ExprView>, domain: Box<ExprView> },
    Heads(Box<ExprView>),
    HeadsRange {
        roots: Box<ExprView>,
        heads: Box<ExprView>,
        parents_range: Range<u32>,
        filter: Option<PredicateView>,
    },
    Roots(Box<ExprView>),
    ForkPoint(Box<ExprView>),
    Bisect(Box<ExprView>),
    HasSize { candidates: Box<ExprView>, count: usize },
    Latest { candidates: Box<ExprView>, count: usize },
    Coalesce(Seq<ExprView>),
    Union(Seq<ExprView>),
    FilterWithin { candidates: Box<ExprView>, predicate: PredicateView },
    Intersection(Seq<ExprView>),
    Difference(Box<ExprView>, Box<ExprView>),
}

/// The views of the first `upto` expressions of a list.
pub open spec fn expr_views(exprs: Seq<Expr<'_>>, upto: int) -> Seq<ExprView>
    decreases exprs, upto,
{
    if 0 < upto <= exprs.len() {
        expr_views(exprs, upto - 1).push(exprs[upto - 1].model())
    } else {
        Seq::empty()
    }
}

/// The views of the first `upto` predicates of a list.
pub open spec fn predicate_views(predicates: Seq<Predicate<'_>>, upto: int) -> Seq<PredicateView>
    decreases predicates, upto,
{
    if 0 < upto <= predicates.len() {
        predicate_views(predicates, upto - 1).push(predicates[upto - 1].model())
    } else {
        Seq::empty()
    }
}

impl<'a> Predicate<'a> {
    /// The predicate as a mathematical value.
    pub open spec fn model(&self) -> PredicateView
        decreases self, 0int,
    {
        match self {
            Predicate::Filter(filter) => PredicateView::Filter(*filter),
            Predicate::Divergent { visible_heads } => PredicateView::Divergent {
                visible_heads: Box::new(visible_heads.model()),
            },
            Predicate::InSet(expr) => PredicateView::InSet(Box::new(expr.model())),
            Predicate::NotIn(inner) => PredicateView::NotIn(Box::new(inner.model())),
            Predicate::Union(predicates) => PredicateView::Union(
                predicate_views(predicates@, predicates@.len() as int),
            ),
            Predicate::Intersection(predicates) => PredicateView::Intersection(
                predicate_views(predicates@, predicates@.len() as int),
            ),
        }
    }
}

impl<'a> Expr<'a> {
    /// The expression as a mathematical value.
    pub open spec fn model(&self) -> ExprView
        decreases self, 0int,
    {
        match self {
            Expr::Nothing => ExprView::Nothing,
            Expr::Reference(reference) => ExprView::Reference(reference@),
            Expr::Ancestors { heads, generation, parents_range } => ExprView::Ancestors {
                heads: Box::new(heads.model()),
                generation: *generation,
                parents_range: *parents_range,
            },
            Expr::Range { roots, heads, generation, parents_range } => ExprView::Range {
                roots: Box::new(roots.model()),
                heads: Box::new(heads.model()),
                generation: *generation,
                parents_range: *parents_range,
            },
            Expr::DagRange { roots, heads, generation_from_roots } => ExprView::DagRange {
                roots: Box::new(roots.model()),
                heads: Box::new(heads.model()),
                generation_from_roots: *generation_from_roots,
            },
            Expr::Reachable { sources, domain } => ExprView::Reachable {
                sources: Box::new(sources.model()),
                domain: Box::new(domain.model()),
            },
            Expr::Heads(expr) => ExprView::Heads(Box::new(expr.model())),
            Expr::HeadsRange { roots, heads, parents_range, filter } => ExprView::HeadsRange {
                roots: Box::new(roots.model()),
                heads: Box::new(heads.model()),
                parents_range: *parents_range,
                filter: match filter {
                    Some(predicate) => Some(predicate.model()),
                    None => None,
                },
            },
            Expr::Roots(expr) => ExprView::Roots(Box::new(expr.model())),
            Expr::ForkPoint(expr) => ExprView::ForkPoint(Box::new(expr.model())),
            Expr::Bisect(expr) => ExprView::Bisect(Box::new(expr.model())),
            Expr::HasSize { candidates, count } => ExprView::HasSize {
                candidates: Box::new(candidates.model()),
                count: *count,
            },
            Expr::Latest { candidates, count } => ExprView::Latest {
                candidates: Box::new(candidates.model()),
                count: *count,
            },
            Expr::Coalesce(exprs) => ExprView::Coalesce(expr_views(exprs@, exprs@.len() as int)),
            Expr::Union(exprs) => ExprView::Union(expr_views(exprs@, exprs@.len() as int)),
            Expr::FilterWithin { candidates, predicate } => ExprView::FilterWithin {
                candidates: Box::new(candidates.model()),
                predicate: predicate.model(),
            },
            Expr::Intersection(exprs) => ExprView::Intersection(
                expr_views(exprs@, exprs@.len() as int),
            ),
            Expr::Difference(left, right) => ExprView::Difference(
                Box::new(left.model()),
                Box::new(right.model()),
            ),
        }
    }
}

impl<'a> View for Predicate<'a> {
    type V = PredicateView;

    open spec fn view(&self) -> PredicateView {
        self.model()
    }
}

impl<'a> View for Expr<'a> {
    type V = ExprView;

    open spec fn view(&self) -> ExprView {
        self.model()
    }
}

/// The views of a list of expressions are the views of its members, in order.
pub proof fn lemma_expr_views(exprs: Seq<Expr<'_>>, upto: int)
    requires
        0 <= upto <= exprs.len(),
    ensures
        expr_views(exprs, upto).len() == upto,
        forall|i: int| 0 <= i < upto ==> (#[trigger] expr_views(exprs, upto)[i]) == exprs[i]@,
    decreases upto,
{
    if upto > 0 {
        lemma_expr_views(exprs, upto - 1);
    }
}

/// The views of a list of predicates are the views of its members, in order.
pub proof fn lemma_predicate_views(predicates: Seq<Predicate<'_>>, upto: int)
    requires
        0 <= upto <= predicates.len(),
    ensures
        predicate_views(predicates, upto).len() == upto,
        forall|i: int|
            0 <= i < upto ==> (#[trigger] predicate_views(predicates, upto)[i])
                == predicates[i]@,
    decreases upto,
{
    if upto > 0 {
        lemma_predicate_views(predicates, upto - 1);
    }
}

/// Whether every expression of a list can be seen to hold at most the root
/// commit.
fn every_root_or_none(exprs: &Vec<Expr<'_>>) -> (every: bool)
    ensures
        every == all_root_or_none(
            expr_views(exprs@, exprs@.len() as int),
            exprs@.len() as int,
        ),
    decreases exprs,
{
    let ghost views = expr_views(exprs@, exprs@.len() as int);
    proof {
        lemma_expr_views(exprs@, exprs@.len() as int);
    }
    let mut i: usize = 0;
    while i < exprs.len()
        invariant
            i <= exprs.len(),
            views == expr_views(exprs@, exprs@.len() as int),
            views.len() == exprs.len(),
            forall|k: int| 0 <= k < exprs.len() ==> (#[trigger] views[k]) == exprs[k]@,
            all_root_or_none(views, i as int),
        decreases exprs.len() - i,
    {
        if !exprs[i].is_root_or_none() {
            proof {
                lemma_all_root_or_none(views, views.len() as int);
                assert(!is_root_or_none(views[i as int]));
            }
            return false;
        }
        i += 1;
    }
    true
}

/// Whether some expression of a list can be seen to hold at most the root
/// commit.
fn some_root_or_none(exprs: &Vec<Expr<'_>>) -> (some: bool)
    ensures
        some == any_root_or_none(
            expr_views(exprs@, exprs@.len() as int),
            exprs@.len() as int,
        ),
    decreases exprs,
{
    let ghost views = expr_views(exprs@, exprs@.len() as int);
    proof {
        lemma_expr_views(exprs@, exprs@.len() as int);
    }
    let mut i: usize = 0;
    while i < exprs.len()
        invariant
            i <= exprs.len(),
            views == expr_views(exprs@, exprs@.len() as int),
            views.len() == exprs.len(),
            forall|k: int| 0 <= k < exprs.len() ==> (#[trigger] views[k]) == exprs[k]@,
            !any_root_or_none(views, i as int),
        decreases exprs.len() - i,
    {
        if exprs[i].is_root_or_none() {
            proof {
                lemma_any_root_or_none(views, views.len() as int);
                assert(is_root_or_none(views[i as int]));
            }
            return true;
        }
        i += 1;
    }
    false
}

impl<'a> Expr<'a> {
    /// Whether this is the empty set.
    pub fn is_none(&self) -> (none: bool)
        ensures
            none == (self@ is Nothing),
    {
        matches!(self, Expr::Nothing)
    }

    /// Whether the expression can be seen to hold at most the root commit:
    /// it is empty or the root itself, or a coalesce or union of nothing but
    /// such expressions, or an intersection with at least one of them.
    pub fn is_root_or_none(&self) -> (small: bool)
        ensures
            small == is_root_or_none(self@),
        decreases self,
    {
        match self {
            Expr::Nothing => true,
            Expr::Reference(reference) => reference.is("root()"),
            Expr::Coalesce(exprs) => {
                proof {
                    lemma_expr_views(exprs@, exprs@.len() as int);
                }
                every_root_or_none(exprs)
            },
            Expr::Intersection(exprs) => {
                proof {
                    lemma_expr_views(exprs@, exprs@.len() as int);
                }
                some_root_or_none(exprs)
            },
            Expr::Union(exprs) => {
                proof {
                    lemma_expr_views(exprs@, exprs@.len() as int);
                }
                every_root_or_none(exprs)
            },
            _ => false,
        }
    }
}

} // verus!
