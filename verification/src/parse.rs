//! The reference table: interns the display texts of symbolic commit sets
//! and hands out the identifiers that stand for them in a resolved tree.

use crate::expr::ResolvedReference;
use crate::resolved::CommitId;
use crate::text::owned_text;
use indexmap::IndexSet;
use std::borrow::Cow;
use vstd::bytes::spec_u64_from_le_bytes;
use vstd::bytes::spec_u64_to_le_bytes;
use vstd::bytes::u64_from_le_bytes;
use vstd::bytes::u64_to_le_bytes;
use vstd::prelude::*;

verus! {

/// indexmap's `IndexSet`: a hash set that keeps its values in the order of
/// their insertion and finds them by index. Its inside is not looked into.
#[verifier::external_type_specification]
#[verifier::external_body]
#[verifier::reject_recursive_types(T)]
#[verifier::reject_recursive_types(S)]
pub struct ExIndexSet<T, S>(IndexSet<T, S>);

/// The strings an index set holds, in the order of their indices.
pub uninterp spec fn index_set_items(set: IndexSet<String>) -> Seq<Seq<char>>;

/// `IndexSet::new`: a set that holds nothing.
#[verifier::external_body]
fn index_set_new() -> (set: IndexSet<String>)
    ensures
        index_set_items(set) == Seq::<Seq<char>>::empty(),
{
    IndexSet::new()
}

/// `IndexSet::len`: the number of values the set holds.
#[verifier::external_body]
fn index_set_len(set: &IndexSet<String>) -> (len: usize)
    ensures
        len == index_set_items(*set).len(),
{
    set.len()
}

/// `IndexSet::get_index_of`: the index at which the set holds the value, or
/// `None` where it does not hold it.
#[verifier::external_body]
fn index_set_get_index_of(set: &IndexSet<String>, value: &str) -> (index: Option<usize>)
    ensures
        match index {
            Some(at) => at < index_set_items(*set).len() && index_set_items(*set)[at as int]
                == value@,
            None => !index_set_items(*set).contains(value@),
        },
{
    set.get_index_of(value)
}

/// `IndexSet::insert_full`: a value the set holds already stays where it is,
/// and its index comes back with `false`; a new value is put behind the
/// last, and its index comes back with `true`.
#[verifier::external_body]
fn index_set_insert_full(set: &mut IndexSet<String>, value: String) -> (placed: (usize, bool))
    ensures
        index_set_items(*old(set)).contains(value@) ==> {
            &&& index_set_items(*final(set)) == index_set_items(*old(set))
            &&& placed.0 < index_set_items(*old(set)).len()
            &&& index_set_items(*old(set))[placed.0 as int] == value@
            &&& !placed.1
        },
        !index_set_items(*old(set)).contains(value@) ==> {
            &&& index_set_items(*final(set)) == index_set_items(*old(set)).push(value@)
            &&& placed.0 == index_set_items(*old(set)).len()
            &&& placed.1
        },
{
    set.insert_full(value)
}

/// `IndexSet::get_index`: the value at an index, or `None` where the index
/// is not below the number of values.
#[verifier::external_body]
fn index_set_get_index(set: &IndexSet<String>, index: usize) -> (value: Option<&String>)
    ensures
        match value {
            Some(found) => index < index_set_items(*set).len() && found@ == index_set_items(
                *set,
            )[index as int],
            None => index >= index_set_items(*set).len(),
        },
{
    set.get_index(index)
}

/// The identifier that stands for the entry at `index`: the index in eight
/// bytes, least significant first.
pub open spec fn id_of(index: nat) -> Seq<u8> {
    spec_u64_to_le_bytes(index as u64)
}

/// The index an identifier stands for.
pub open spec fn index_of_id(id: Seq<u8>) -> nat {
    spec_u64_from_le_bytes(id) as nat
}

/// Whether an identifier stands for an entry of a table: it has eight bytes,
/// and the index they spell is one of the table and of this machine.
pub open spec fn is_known(table: Seq<Seq<char>>, id: Seq<u8>) -> bool {
    id.len() == 8 && index_of_id(id) < table.len() && index_of_id(id) <= usize::MAX
}

/// The index at which a text stands in a table once it has been inserted:
/// where it stands already, or else behind the last entry.
pub open spec fn position(table: Seq<Seq<char>>, text: Seq<char>) -> nat {
    if table.contains(text) {
        table.index_of(text) as nat
    } else {
        table.len()
    }
}

/// A table after the insertion of a text: unchanged where it holds the text
/// already, and with the text behind the last entry otherwise.
pub open spec fn inserted(table: Seq<Seq<char>>, text: Seq<char>) -> Seq<Seq<char>> {
    if table.contains(text) {
        table
    } else {
        table.push(text)
    }
}

/// In a table without duplicates, a text is found only where it stands.
pub proof fn lemma_position_is_unique(table: Seq<Seq<char>>, text: Seq<char>, at: int)
    requires
        table.no_duplicates(),
        0 <= at < table.len(),
        table[at] == text,
    ensures
        table.contains(text),
        position(table, text) == at,
{
    assert(table.contains(text));
    let found = table.index_of(text);
    assert(0 <= found < table.len() && table[found] == text);
}

/// Insertion keeps a table free of duplicates, and the inserted text stands
/// at its position afterwards.
pub proof fn lemma_inserted(table: Seq<Seq<char>>, text: Seq<char>)
    requires
        table.no_duplicates(),
    ensures
        inserted(table, text).no_duplicates(),
        position(table, text) < inserted(table, text).len(),
        inserted(table, text)[position(table, text) as int] == text,
        forall|i: int| 0 <= i < table.len() ==> inserted(table, text)[i] == table[i],
{
    if table.contains(text) {
        let found = table.index_of(text);
        assert(0 <= found < table.len() && table[found] == text);
    }
}

/// Inserting a text a second time changes nothing and gives the identifier
/// it was given the first time.
pub proof fn lemma_insert_again(table: Seq<Seq<char>>, text: Seq<char>)
    requires
        table.no_duplicates(),
    ensures
        inserted(inserted(table, text), text) == inserted(table, text),
        id_of(position(inserted(table, text), text)) == id_of(position(table, text)),
{
    lemma_inserted(table, text);
    lemma_position_is_unique(inserted(table, text), text, position(table, text) as int);
}

/// A text that is new to a table is given the next free index, so that
/// indices are handed out densely and in the order of first insertion; and
/// every text the table held keeps its index.
pub proof fn lemma_insert_new(table: Seq<Seq<char>>, text: Seq<char>, held: Seq<char>)
    requires
        table.no_duplicates(),
        !table.contains(text),
        table.contains(held),
    ensures
        position(table, text) == table.len(),
        inserted(table, text).len() == table.len() + 1,
        position(inserted(table, text), held) == position(table, held),
{
    lemma_inserted(table, text);
    let found = table.index_of(held);
    assert(0 <= found < table.len() && table[found] == held);
    lemma_position_is_unique(inserted(table, text), held, found);
}

/// Identifiers of different indices differ, as long as the indices fit the
/// eight bytes of an identifier.
pub proof fn lemma_ids_differ(first: nat, second: nat)
    requires
        first != second,
        first <= u64::MAX,
        second <= u64::MAX,
    ensures
        id_of(first) != id_of(second),
{
    vstd::bytes::lemma_auto_spec_u64_to_from_le_bytes();
    assert(spec_u64_from_le_bytes(spec_u64_to_le_bytes(first as u64)) == first as u64);
    assert(spec_u64_from_le_bytes(spec_u64_to_le_bytes(second as u64)) == second as u64);
}

/// Two different texts inserted one after the other are given different
/// identifiers, whether the table held them before or not.
pub proof fn lemma_insert_distinct(table: Seq<Seq<char>>, first: Seq<char>, second: Seq<char>)
    requires
        table.no_duplicates(),
        first != second,
        table.len() + 2 <= u64::MAX,
    ensures
        id_of(position(table, first)) != id_of(position(inserted(table, first), second)),
{
    let once = inserted(table, first);
    let twice = inserted(once, second);
    lemma_inserted(table, first);
    lemma_inserted(once, second);
    assert(twice[position(table, first) as int] == first);
    assert(twice[position(once, second) as int] == second);
    lemma_ids_differ(position(table, first), position(once, second));
}

/// The references of one analysis run, in the order of their first
/// insertion and each held once.
pub struct ReferenceMap {
    references: IndexSet<String>,
}

impl View for ReferenceMap {
    type V = Seq<Seq<char>>;

    closed spec fn view(&self) -> Seq<Seq<char>> {
        index_set_items(self.references)
    }
}

impl ReferenceMap {
    /// Whether the table holds each text once. Every table made by `new`
    /// and filled by `insert` does.
    pub open spec fn well_formed(&self) -> bool {
        self@.no_duplicates()
    }

    /// A table without entries.
    pub fn new() -> (table: Self)
        ensures
            table@ == Seq::<Seq<char>>::empty(),
            table.well_formed(),
    {
        ReferenceMap { references: index_set_new() }
    }

    /// Inserts a reference unless the table holds one of the same text, and
    /// gives the identifier that stands for it.
    pub fn insert(&mut self, reference: ResolvedReference<'static>) -> (id: CommitId)
        requires
            old(self).well_formed(),
        ensures
            final(self).well_formed(),
            final(self)@ == inserted(old(self)@, reference@),
            id@ == id_of(position(old(self)@, reference@)),
            is_known(final(self)@, id@),
    {
        proof {
            vstd::bytes::lemma_auto_spec_u64_to_from_le_bytes();
        }
        let ghost table = self@;
        let index = match index_set_get_index_of(&self.references, reference.as_str()) {
            Some(index) => {
                proof {
                    lemma_position_is_unique(table, reference@, index as int);
                }
                index
            },
            None => {
                let placed = index_set_insert_full(&mut self.references, owned_text(reference.0));
                placed.0
            },
        };
        CommitId::new(u64_to_le_bytes(index as u64))
    }

    /// Whether an identifier stands for an entry of the table.
    pub fn knows(&self, commit_id: &CommitId) -> (known: bool)
        ensures
            known == is_known(self@, commit_id@),
    {
        let bytes = commit_id.as_bytes();
        if bytes.len() != 8 {
            return false;
        }
        u64_from_le_bytes(bytes) < index_set_len(&self.references) as u64
    }

    /// The reference an identifier stands for.
    pub fn get(&self, commit_id: &CommitId) -> (reference: ResolvedReference<'_>)
        requires
            is_known(self@, commit_id@),
        ensures
            reference@ == self@[index_of_id(commit_id@) as int],
    {
        let index = u64_from_le_bytes(commit_id.as_bytes());
        match index_set_get_index(&self.references, index as usize) {
            Some(text) => ResolvedReference(Cow::Borrowed(text.as_str())),
            None => ResolvedReference(Cow::Borrowed("")),
        }
    }
}

} // verus!
