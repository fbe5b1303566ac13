//! The resolved expression tree handed over by the query resolver: literal
//! sets of commit identifiers under binary operators.

use crate::pattern::RevsetFilterPredicate;
use std::ops::Range;
use vstd::prelude::*;
use vstd::slice::slice_to_vec;

verus! {

/// An identifier the resolver uses for a commit. In the trees this library
/// takes in, each identifier stands for an entry of a reference table.
#[derive(Debug)]
pub struct CommitId {
    bytes: Vec<u8>,
}

impl View for CommitId {
    type V = Seq<u8>;

    closed spec fn view(&self) -> Seq<u8> {
        self.bytes@
    }
}

impl CommitId {
    /// The identifier made of the given bytes.
    pub fn new(bytes: Vec<u8>) -> (id: Self)
        ensures
            id@ == bytes@,
    {
        CommitId { bytes }
    }

    /// The identifier made of a copy of the given bytes.
    pub fn from_bytes(bytes: &[u8]) -> (id: Self)
        ensures
            id@ == bytes@,
    {
        CommitId { bytes: slice_to_vec(bytes) }
    }

    /// The bytes of the identifier.
    pub fn as_bytes(&self) -> (bytes: &[u8])
        ensures
            bytes@ == self@,
    {
        self.bytes.as_slice()
    }
}

/// A resolved test on single commits.
#[derive(Debug)]
pub enum ResolvedPredicateExpression {
    /// An atomic filter.
    Filter(RevsetFilterPredicate),
    /// Commits with a divergent change, as seen from the given heads.
    Divergent { visible_heads: Vec<CommitId> },
    /// Membership in the commits of an expression.
    InSet(Box<ResolvedExpression>),
    NotIn(Box<ResolvedPredicateExpression>),
    Union(Box<ResolvedPredicateExpression>, Box<ResolvedPredicateExpression>),
    Intersection(Box<ResolvedPredicateExpression>, Box<ResolvedPredicateExpression>),
}

/// A resolved set of commits: the evaluation plan as the resolver states it.
#[derive(Debug)]
pub enum ResolvedExpression {
    /// A literal set of commits.
    Commits(Vec<CommitId>),
    Ancestors { heads: Box<ResolvedExpression>, generation: Range<u64>, parents_range: Range<u32> },
    Range {
        roots: Box<ResolvedExpression>,
        heads: Box<ResolvedExpression>,
        generation: Range<u64>,
        parents_range: Range<u32>,
    },
    DagRange {
        roots: Box<ResolvedExpression>,
        heads: Box<ResolvedExpression>,
        generation_from_roots: Range<u64>,
    },
    Reachable { sources: Box<ResolvedExpression>, domain: Box<ResolvedExpression> },
    Heads(Box<ResolvedExpression>),
    HeadsRange {
        roots: Box<ResolvedExpression>,
        heads: Box<ResolvedExpression>,
        parents_range: Range<u32>,
        filter: Option<ResolvedPredicateExpression>,
    },
    Roots(Box<ResolvedExpression>),
    ForkPoint(Box<ResolvedExpression>),
    Bisect(Box<ResolvedExpression>),
    HasSize { candidates: Box<ResolvedExpression>, count: usize },
    Latest { candidates: Box<ResolvedExpression>, count: usize },
    Coalesce(Box<ResolvedExpression>, Box<ResolvedExpression>),
    Union(Box<ResolvedExpression>, Box<ResolvedExpression>),
    FilterWithin { candidates: Box<ResolvedExpression>, predicate: ResolvedPredicateExpression },
    Intersection(Box<ResolvedExpression>, Box<ResolvedExpression>),
    Difference(Box<ResolvedExpression>, Box<ResolvedExpression>),
}

} // verus!
