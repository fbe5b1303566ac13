//! The display texts of symbolic commit references: what a reference table
//! holds for a symbol, a bookmark pattern, a working copy and the like.

use crate::expr::ResolvedReference;
use crate::pattern::StringExpression;
use crate::pattern::StringPattern;
use crate::print::format_string_expression;
use crate::print::string_expression_text;
use crate::text::same_text;
use vstd::prelude::*;
use vstd::string::*;

verus! {

/// Whether remote bookmarks are asked for by their tracking state.
#[derive(Debug, Copy, Clone, PartialEq, Eq, Structural)]
pub enum RemoteRefState {
    /// Not merged into a local bookmark.
    Untracked,
    /// Merged into a local bookmark.
    Tracking,
}

/// A symbolic reference to commits, as the query names it.
#[derive(Debug)]
pub enum CommitRef {
    /// The working copy of the workspace of the given name.
    WorkingCopy(String),
    WorkingCopies,
    /// A bare symbol such as a bookmark name or a change id.
    Symbol(String),
    /// A symbol at a remote, already written as `name@remote`.
    RemoteSymbol(String),
    /// A prefix of a change id, in the digits change ids are shown in.
    ChangeId(String),
    /// A prefix of a commit id, in hexadecimal digits.
    CommitId(String),
    Bookmarks(StringExpression),
    RemoteBookmarks {
        bookmark: StringExpression,
        remote: StringExpression,
        remote_ref_state: Option<RemoteRefState>,
    },
    Tags(StringExpression),
    GitRefs,
    GitHead,
}

/// Whether a pattern matches every string: it asks for the empty substring.
pub open spec fn matches_all(pattern: &StringPattern) -> bool {
    pattern matches StringPattern::Substring(needle) && needle@.len() == 0
}

/// Whether a string expression is a single pattern that matches every
/// string.
pub open spec fn selects_all(expr: &StringExpression) -> bool {
    expr matches StringExpression::Pattern(pattern) && matches_all(pattern)
}

/// The name of the function that lists remote bookmarks of a tracking state.
pub open spec fn remote_bookmarks_name(state: Option<RemoteRefState>) -> Seq<char> {
    match state {
        None => "remote_bookmarks("@,
        Some(RemoteRefState::Untracked) => "untracked_remote_bookmarks("@,
        Some(RemoteRefState::Tracking) => "tracked_remote_bookmarks("@,
    }
}

/// The display text of a symbolic reference in the current operation.
pub open spec fn commit_ref_text(reference: &CommitRef) -> Seq<char> {
    match reference {
        CommitRef::WorkingCopy(workspace) => if workspace@ == "default"@ {
            "@"@
        } else {
            workspace@ + "@"@
        },
        CommitRef::WorkingCopies => "working_copies()"@,
        CommitRef::Symbol(symbol) => symbol@,
        CommitRef::RemoteSymbol(symbol) => symbol@,
        CommitRef::ChangeId(prefix) => "change_id("@ + prefix@ + ")"@,
        CommitRef::CommitId(prefix) => "commit_id("@ + prefix@ + ")"@,
        CommitRef::Bookmarks(bookmark) => if selects_all(bookmark) {
            "bookmarks()"@
        } else {
            "bookmarks("@ + string_expression_text(bookmark) + ")"@
        },
        CommitRef::RemoteBookmarks { bookmark, remote, remote_ref_state } => if selects_all(
            bookmark,
        ) && selects_all(remote) {
            remote_bookmarks_name(*remote_ref_state) + ")"@
        } else {
            remote_bookmarks_name(*remote_ref_state) + string_expression_text(bookmark)
                + ", remote="@ + string_expression_text(remote) + ")"@
        },
        CommitRef::Tags(tag) => if selects_all(tag) {
            "tags()"@
        } else {
            "tags("@ + string_expression_text(tag) + ")"@
        },
        CommitRef::GitRefs => "git_refs()"@,
        CommitRef::GitHead => "git_head()"@,
    }
}

/// The display text of a symbolic reference: its text in the current
/// operation, followed by the operation it is looked up at where there is
/// one.
pub open spec fn resolved_text(reference: &CommitRef, operation: Option<Seq<char>>) -> Seq<char> {
    match operation {
        Some(operation) => commit_ref_text(reference) + " at operation "@ + operation,
        None => commit_ref_text(reference),
    }
}

/// The display text of the visible heads at an operation.
pub open spec fn visible_heads_at_text(operation: Seq<char>) -> Seq<char> {
    "visible_heads() at operation "@ + operation
}

/// Whether a pattern matches every string.
fn is_all_pattern(pattern: &StringPattern) -> (all: bool)
    ensures
        all == matches_all(pattern),
{
    match pattern {
        StringPattern::Substring(needle) => needle.as_str().is_empty(),
        _ => false,
    }
}

/// Whether a string expression is a single pattern that matches every
/// string.
fn is_all_expression(expr: &StringExpression) -> (all: bool)
    ensures
        all == selects_all(expr),
{
    match expr {
        StringExpression::Pattern(pattern) => is_all_pattern(pattern),
        _ => false,
    }
}

/// The text of a symbolic reference in the current operation.
fn commit_ref_string(reference: &CommitRef) -> (text: String)
    ensures
        text@ == commit_ref_text(reference),
{
    match reference {
        CommitRef::WorkingCopy(workspace) => {
            if same_text(workspace.as_str(), "default") {
                String::from_str("@")
            } else {
                let mut text = String::from_str(workspace.as_str());
                text.append("@");
                text
            }
        },
        CommitRef::WorkingCopies => String::from_str("working_copies()"),
        CommitRef::Symbol(symbol) => symbol.clone(),
        CommitRef::RemoteSymbol(symbol) => symbol.clone(),
        CommitRef::ChangeId(prefix) => {
            let mut text = String::from_str("change_id(");
            text.append(prefix.as_str());
            text.append(")");
            text
        },
        CommitRef::CommitId(prefix) => {
            let mut text = String::from_str("commit_id(");
            text.append(prefix.as_str());
            text.append(")");
            text
        },
        CommitRef::Bookmarks(bookmark) => {
            if is_all_expression(bookmark) {
                String::from_str("bookmarks()")
            } else {
                let mut text = String::from_str("bookmarks(");
                text.append(format_string_expression(bookmark).as_str());
                text.append(")");
                text
            }
        },
        CommitRef::RemoteBookmarks { bookmark, remote, remote_ref_state } => {
            let name = match remote_ref_state {
                None => "remote_bookmarks(",
                Some(RemoteRefState::Untracked) => "untracked_remote_bookmarks(",
                Some(RemoteRefState::Tracking) => "tracked_remote_bookmarks(",
            };
            let mut text = String::from_str(name);
            if !(is_all_expression(bookmark) && is_all_expression(remote)) {
                text.append(format_string_expression(bookmark).as_str());
                text.append(", remote=");
                text.append(format_string_expression(remote).as_str());
            }
            text.append(")");
            text
        },
        CommitRef::Tags(tag) => {
            if is_all_expression(tag) {
                String::from_str("tags()")
            } else {
                let mut text = String::from_str("tags(");
                text.append(format_string_expression(tag).as_str());
                text.append(")");
                text
            }
        },
        CommitRef::GitRefs => String::from_str("git_refs()"),
        CommitRef::GitHead => String::from_str("git_head()"),
    }
}

impl ResolvedReference<'static> {
    /// The reference that stands in a table for a symbolic reference, looked
    /// up at the given operation or, without one, at the current operation.
    pub fn from_commit_ref(reference: &CommitRef, operation: Option<&str>) -> (made: Self)
        ensures
            made@ == resolved_text(
                reference,
                match operation {
                    Some(operation) => Some(operation@),
                    None => None,
                },
            ),
    {
        let mut text = commit_ref_string(reference);
        match operation {
            Some(operation) => {
                text.append(" at operation ");
                text.append(operation);
            },
            None => {},
        }
        ResolvedReference::new_owned(text)
    }

    /// The reference that stands for the visible heads at an operation.
    pub fn visible_heads_at(operation: &str) -> (made: Self)
        ensures
            made@ == visible_heads_at_text(operation@),
    {
        let mut text = String::from_str("visible_heads() at operation ");
        text.append(operation);
        ResolvedReference::new_owned(text)
    }
}

} // verus!
