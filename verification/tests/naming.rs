use revset_explain::expr::ResolvedReference;
use revset_explain::pattern::StringExpression;
use revset_explain::pattern::StringPattern;
use revset_explain::resolve::CommitRef;
use revset_explain::resolve::RemoteRefState;

fn all() -> StringExpression {
    StringExpression::Pattern(StringPattern::Substring(String::new()))
}

fn glob(text: &str) -> StringExpression {
    StringExpression::Pattern(StringPattern::Glob(text.to_string()))
}

fn named(reference: CommitRef) -> String {
    ResolvedReference::from_commit_ref(&reference, None).0.to_string()
}

#[test]
fn working_copies_are_named_by_their_workspace() {
    assert_eq!(named(CommitRef::WorkingCopy("default".to_string())), "@");
    assert_eq!(named(CommitRef::WorkingCopy("second".to_string())), "second@");
    assert_eq!(named(CommitRef::WorkingCopy(String::new())), "@");
    assert_eq!(named(CommitRef::WorkingCopy("Default".to_string())), "Default@");
    assert_eq!(named(CommitRef::WorkingCopies), "working_copies()");
}

#[test]
fn symbols_are_named_as_written() {
    assert_eq!(named(CommitRef::Symbol("main".to_string())), "main");
    assert_eq!(named(CommitRef::RemoteSymbol("main@origin".to_string())), "main@origin");
    assert_eq!(named(CommitRef::Symbol(String::new())), "");
}

#[test]
fn id_prefixes_are_named_as_calls() {
    assert_eq!(named(CommitRef::ChangeId("kxq".to_string())), "change_id(kxq)");
    assert_eq!(named(CommitRef::CommitId("1f2e".to_string())), "commit_id(1f2e)");
}

#[test]
fn bookmarks_and_tags_show_their_pattern_unless_it_matches_all() {
    assert_eq!(named(CommitRef::Bookmarks(all())), "bookmarks()");
    assert_eq!(named(CommitRef::Bookmarks(glob("rel-*"))), "bookmarks(glob:\"rel-*\")");
    assert_eq!(
        named(CommitRef::Bookmarks(StringExpression::NotIn(Box::new(all())))),
        "bookmarks(~substring:\"\")"
    );
    assert_eq!(
        named(CommitRef::Bookmarks(StringExpression::Pattern(StringPattern::Exact(
            String::new()
        )))),
        "bookmarks(exact:\"\")"
    );
    assert_eq!(
        named(CommitRef::Bookmarks(StringExpression::Pattern(StringPattern::Substring(
            "x".to_string()
        )))),
        "bookmarks(substring:\"x\")"
    );
    assert_eq!(named(CommitRef::Tags(all())), "tags()");
    assert_eq!(named(CommitRef::Tags(glob("v*"))), "tags(glob:\"v*\")");
}

#[test]
fn remote_bookmarks_are_named_by_their_state() {
    let every = |remote_ref_state| CommitRef::RemoteBookmarks {
        bookmark: all(),
        remote: all(),
        remote_ref_state,
    };
    assert_eq!(named(every(None)), "remote_bookmarks()");
    assert_eq!(named(every(Some(RemoteRefState::Untracked))), "untracked_remote_bookmarks()");
    assert_eq!(named(every(Some(RemoteRefState::Tracking))), "tracked_remote_bookmarks()");
}

#[test]
fn remote_bookmarks_show_both_patterns_unless_both_match_all() {
    let some = |bookmark, remote, remote_ref_state| CommitRef::RemoteBookmarks {
        bookmark,
        remote,
        remote_ref_state,
    };
    assert_eq!(
        named(some(glob("a*"), all(), None)),
        "remote_bookmarks(glob:\"a*\", remote=substring:\"\")"
    );
    assert_eq!(
        named(some(all(), glob("origin"), Some(RemoteRefState::Untracked))),
        "untracked_remote_bookmarks(substring:\"\", remote=glob:\"origin\")"
    );
    assert_eq!(
        named(some(glob("a*"), glob("o*"), Some(RemoteRefState::Tracking))),
        "tracked_remote_bookmarks(glob:\"a*\", remote=glob:\"o*\")"
    );
}

#[test]
fn git_references_are_named_as_calls() {
    assert_eq!(named(CommitRef::GitRefs), "git_refs()");
    assert_eq!(named(CommitRef::GitHead), "git_head()");
}

#[test]
fn references_at_an_operation_say_so() {
    let main = CommitRef::Symbol("main".to_string());
    assert_eq!(
        ResolvedReference::from_commit_ref(&main, Some("abc123")).0,
        "main at operation abc123"
    );
    assert_eq!(
        ResolvedReference::from_commit_ref(&CommitRef::Bookmarks(all()), Some("@-")).0,
        "bookmarks() at operation @-"
    );
    assert_eq!(
        ResolvedReference::visible_heads_at("abc123").0,
        "visible_heads() at operation abc123"
    );
}
