//! The patterns carried by atomic filters: string, file and date patterns.

use std::ops::Range;
use vstd::prelude::*;

verus! {

/// A pattern tested against a string property such as a description.
#[derive(Debug)]
pub enum StringPattern {
    Exact(String),
    ExactI(String),
    Substring(String),
    SubstringI(String),
    Glob(String),
    GlobI(String),
    Regex(String),
    RegexI(String),
}

impl StringPattern {
    /// The literal the pattern was written with.
    pub open spec fn literal(&self) -> Seq<char> {
        match self {
            Self::Exact(literal) => literal@,
            Self::ExactI(literal) => literal@,
            Self::Substring(literal) => literal@,
            Self::SubstringI(literal) => literal@,
            Self::Glob(literal) => literal@,
            Self::GlobI(literal) => literal@,
            Self::Regex(literal) => literal@,
            Self::RegexI(literal) => literal@,
        }
    }

    /// The literal the pattern was written with.
    pub fn as_str(&self) -> (literal: &str)
        ensures
            literal@ == self.literal(),
    {
        match self {
            Self::Exact(literal) => literal.as_str(),
            Self::ExactI(literal) => literal.as_str(),
            Self::Substring(literal) => literal.as_str(),
            Self::SubstringI(literal) => literal.as_str(),
            Self::Glob(literal) => literal.as_str(),
            Self::GlobI(literal) => literal.as_str(),
            Self::Regex(literal) => literal.as_str(),
            Self::RegexI(literal) => literal.as_str(),
        }
    }
}

/// String patterns combined by negation, union and intersection.
#[derive(Debug)]
pub enum StringExpression {
    Pattern(StringPattern),
    NotIn(Box<StringExpression>),
    Union(Box<StringExpression>, Box<StringExpression>),
    Intersection(Box<StringExpression>, Box<StringExpression>),
}

/// A basic pattern over repository paths. Paths are held in their internal
/// form, with `/` between components.
#[derive(Debug)]
pub enum FilePattern {
    /// Matches one file path.
    FilePath(String),
    /// Matches every path below a prefix.
    PrefixPath(String),
    /// Matches file paths by a glob evaluated below `dir`. `dir` is empty for
    /// the root and ends in `/` otherwise.
    FileGlob { dir: String, pattern: String },
    /// Matches path prefixes by a glob evaluated below `dir`. `dir` is empty
    /// for the root and ends in `/` otherwise.
    PrefixGlob { dir: String, pattern: String },
}

/// File patterns combined into a set of paths.
#[derive(Debug)]
pub enum FilesetExpression {
    /// Matches no path.
    Nothing,
    /// Matches every path.
    All,
    Pattern(FilePattern),
    UnionAll(Vec<FilesetExpression>),
    Intersection(Box<FilesetExpression>, Box<FilesetExpression>),
    Difference(Box<FilesetExpression>, Box<FilesetExpression>),
}

/// The first instant that has a calendar date: midnight of January 1 of the
/// year -262143, in milliseconds since the Unix epoch.
pub const MIN_DATE_MILLIS: i64 = -8_334_601_228_800_000;

/// The last instant that has a calendar date: the last millisecond of the
/// year 262142, in milliseconds since the Unix epoch.
pub const MAX_DATE_MILLIS: i64 = 8_210_266_876_799_999;

/// Whether an instant, in milliseconds since the Unix epoch, has a calendar
/// date.
pub open spec fn date_millis_in_range(millis: i64) -> bool {
    MIN_DATE_MILLIS <= millis <= MAX_DATE_MILLIS
}

/// An instant in milliseconds since the Unix epoch that has a calendar date.
#[derive(Debug, Clone, Copy)]
pub struct MillisSinceEpoch {
    millis: i64,
}

impl MillisSinceEpoch {
    #[verifier::type_invariant]
    spec fn has_date(self) -> bool {
        date_millis_in_range(self.millis)
    }

    /// The number of milliseconds.
    pub closed spec fn value(self) -> i64 {
        self.millis
    }

    /// The instant `millis` milliseconds after the epoch, or `None` if it lies
    /// outside the years that have a calendar date.
    pub fn new(millis: i64) -> (instant: Option<Self>)
        ensures
            instant is Some <==> date_millis_in_range(millis),
            instant matches Some(at) ==> at.value() == millis,
    {
        if MIN_DATE_MILLIS <= millis && millis <= MAX_DATE_MILLIS {
            Some(Self { millis })
        } else {
            None
        }
    }

    /// The number of milliseconds.
    pub fn get(&self) -> (millis: i64)
        ensures
            millis == self.value(),
            date_millis_in_range(millis),
    {
        proof {
            use_type_invariant(self);
        }
        self.millis
    }
}

/// A range of dates to match against.
#[derive(Debug, Clone, Copy)]
pub enum DatePattern {
    /// Every date at or after the instant.
    AtOrAfter(MillisSinceEpoch),
    /// Every date before the instant.
    Before(MillisSinceEpoch),
}

/// An atomic test on one commit.
#[derive(Debug)]
pub enum RevsetFilterPredicate {
    /// Commits whose number of parents lies in the range.
    ParentCount(Range<u32>),
    Description(StringExpression),
    Subject(StringExpression),
    AuthorName(StringExpression),
    AuthorEmail(StringExpression),
    AuthorDate(DatePattern),
    CommitterName(StringExpression),
    CommitterEmail(StringExpression),
    CommitterDate(DatePattern),
    /// Commits that touch a path of the file set.
    File(FilesetExpression),
    /// Commits with a changed line matching `text` in a path of `files`.
    DiffLines { text: StringExpression, files: FilesetExpression },
    HasConflict,
    Signed,
    /// A test supplied by an extension, known by its tag only.
    Extension(String),
}

} // verus!
