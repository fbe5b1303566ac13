use revset_explain::expr::ResolvedReference;
use revset_explain::parse::ReferenceMap;
use revset_explain::resolved::CommitId;

fn owned(text: &str) -> ResolvedReference<'static> {
    ResolvedReference::new_owned(text.to_string())
}

fn id(index: u64) -> CommitId {
    CommitId::new(index.to_le_bytes().to_vec())
}

#[test]
fn a_new_table_knows_no_identifier() {
    let table = ReferenceMap::new();
    assert!(!table.knows(&id(0)));
    assert!(!table.knows(&id(1)));
    assert!(!table.knows(&CommitId::new(vec![])));
}

#[test]
fn the_same_text_gets_the_same_identifier() {
    let mut table = ReferenceMap::new();
    let first = table.insert(owned("main"));
    let second = table.insert(owned("main"));
    assert_eq!(first.as_bytes(), second.as_bytes());
    assert!(!table.knows(&id(1)));
    let third = table.insert(ResolvedReference::new_static("main"));
    assert_eq!(first.as_bytes(), third.as_bytes());
}

#[test]
fn different_texts_get_consecutive_identifiers() {
    let mut table = ReferenceMap::new();
    let root = table.insert(ResolvedReference::root());
    let heads = table.insert(ResolvedReference::visible_heads());
    let main = table.insert(owned("main"));
    assert_eq!(root.as_bytes(), &[0u8, 0, 0, 0, 0, 0, 0, 0][..]);
    assert_eq!(heads.as_bytes(), &[1u8, 0, 0, 0, 0, 0, 0, 0][..]);
    assert_eq!(main.as_bytes(), &[2u8, 0, 0, 0, 0, 0, 0, 0][..]);
    let again = table.insert(ResolvedReference::visible_heads());
    assert_eq!(again.as_bytes(), heads.as_bytes());
    let next = table.insert(owned("dev"));
    assert_eq!(next.as_bytes(), &[3u8, 0, 0, 0, 0, 0, 0, 0][..]);
}

#[test]
fn identifiers_count_on_past_one_byte() {
    let mut table = ReferenceMap::new();
    let mut last = table.insert(owned("0"));
    for number in 1..300u32 {
        last = table.insert(owned(&number.to_string()));
    }
    assert_eq!(last.as_bytes(), &[43u8, 1, 0, 0, 0, 0, 0, 0][..]);
    assert_eq!(table.get(&last).0, "299");
    assert_eq!(table.get(&id(256)).0, "256");
    assert!(table.knows(&id(299)));
    assert!(!table.knows(&id(300)));
}

#[test]
fn an_identifier_gives_back_its_text() {
    let mut table = ReferenceMap::new();
    let root = table.insert(ResolvedReference::root());
    let main = table.insert(owned("main"));
    assert_eq!(table.get(&root).0, "root()");
    assert_eq!(table.get(&main).0, "main");
    assert_eq!(table.get(&id(1)).as_str(), "main");
}

#[test]
fn only_identifiers_of_eight_bytes_in_range_are_known() {
    let mut table = ReferenceMap::new();
    table.insert(owned("a"));
    table.insert(owned("b"));
    assert!(table.knows(&id(0)));
    assert!(table.knows(&id(1)));
    assert!(!table.knows(&id(2)));
    assert!(!table.knows(&id(u64::MAX)));
    assert!(!table.knows(&id(1 << 32)));
    assert!(!table.knows(&CommitId::new(vec![0])));
    assert!(!table.knows(&CommitId::new(vec![0; 7])));
    assert!(!table.knows(&CommitId::new(vec![0; 9])));
    assert!(!table.knows(&CommitId::from_bytes(&[1, 0, 0, 0])));
    assert!(table.knows(&CommitId::from_bytes(&[1, 0, 0, 0, 0, 0, 0, 0])));
}

#[test]
fn commit_ids_hold_their_bytes() {
    assert_eq!(CommitId::new(vec![1, 2, 3]).as_bytes(), &[1u8, 2, 3][..]);
    assert_eq!(CommitId::from_bytes(&[9, 8]).as_bytes(), &[9u8, 8][..]);
    assert!(CommitId::new(vec![]).as_bytes().is_empty());
}
