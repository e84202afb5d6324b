//! The insertion-ordered maps that hold the store's records.
//!
//! The maps are `indexmap::IndexMap`s, keyed by identifier. What a map holds
//! is spoken of as the sequence of its key-value pairs, in the map's order.
//! The functions that call into the map type are not proved: each states what
//! the map type does, and the store's operations are verified against these
//! statements.

use crate::records::Book;
use crate::records::CheckoutInstance;
use crate::records::User;
use indexmap::IndexMap;
use vstd::prelude::*;

verus! {

/// `indexmap::IndexMap`, a hash map that keeps its pairs in the order of
/// insertion. Nothing is known of a value of this type but what the functions
/// below state.
#[verifier::external_type_specification]
#[verifier::external_body]
#[verifier::reject_recursive_types(K)]
#[verifier::reject_recursive_types(V)]
#[verifier::reject_recursive_types(S)]
pub struct ExIndexMap<K, V, S>(IndexMap<K, V, S>);

/// Some pair of `entries` has this key.
pub open spec fn has_key<V>(entries: Seq<(u32, V)>, key: u32) -> bool {
    exists|i: int| 0 <= i < entries.len() && (#[trigger] entries[i]).0 == key
}

/// No key occurs in two pairs.
pub open spec fn keys_distinct<V>(entries: Seq<(u32, V)>) -> bool {
    forall|i: int, j: int|
        0 <= i < j < entries.len() ==> (#[trigger] entries[i]).0 != (#[trigger] entries[j]).0
}

/// The position of the pair with this key, where a pair has it.
pub open spec fn position<V>(entries: Seq<(u32, V)>, key: u32) -> int {
    choose|i: int| 0 <= i < entries.len() && (#[trigger] entries[i]).0 == key
}

/// Where keys are distinct, the pair with a key stands at one position only.
pub proof fn lemma_position<V>(entries: Seq<(u32, V)>, i: int)
    requires
        keys_distinct(entries),
        0 <= i < entries.len(),
    ensures
        position(entries, entries[i].0) == i,
        has_key(entries, entries[i].0),
{
    let p = position(entries, entries[i].0);
    if p < i {
        assert(entries[p].0 != entries[i].0);
    } else if i < p {
        assert(entries[i].0 != entries[p].0);
    }
}

/// What a lookup by key answers: the position of a pair with that key, or
/// `None` where no pair has it.
pub open spec fn is_lookup<V>(entries: Seq<(u32, V)>, key: u32, found: Option<usize>) -> bool {
    match found {
        Some(i) => i < entries.len() && entries[i as int].0 == key,
        None => !has_key(entries, key),
    }
}

/// What a lookup by position answers: the pair there, or `None` past the end.
pub open spec fn is_pair_at<V>(entries: Seq<(u32, V)>, index: usize, pair: Option<(&u32, &V)>) -> bool {
    match pair {
        Some((key, value)) => index < entries.len() && entries[index as int] == (*key, *value),
        None => index >= entries.len(),
    }
}

/// What an insertion does. Where the key was present, its value is replaced in
/// place and the old value handed back; otherwise the pair is appended and
/// nothing is handed back.
pub open spec fn is_insertion<V>(
    before: Seq<(u32, V)>,
    after: Seq<(u32, V)>,
    key: u32,
    value: V,
    replaced: Option<V>,
) -> bool {
    match replaced {
        Some(v) => exists|i: int|
            0 <= i < before.len() && #[trigger] before[i] == (key, v) && after == before.update(
                i,
                (key, value),
            ),
        None => !has_key(before, key) && after == before.push((key, value)),
    }
}

/// What a removal does. Where the key was present, its pair is taken out,
/// the pairs behind it move up by one place in their order, and its value is
/// handed back; otherwise nothing changes.
pub open spec fn is_shift_removal<V>(
    before: Seq<(u32, V)>,
    after: Seq<(u32, V)>,
    key: u32,
    removed: Option<V>,
) -> bool {
    match removed {
        Some(v) => exists|i: int|
            0 <= i < before.len() && #[trigger] before[i] == (key, v) && after == before.remove(i),
        None => !has_key(before, key) && after == before,
    }
}

/// Appending a pair adds its key to the keys and takes none away.
pub proof fn lemma_push_keys<V>(entries: Seq<(u32, V)>, pair: (u32, V))
    ensures
        forall|key: u32|
            has_key(entries.push(pair), key) <==> (has_key(entries, key) || key == pair.0),
        keys_distinct(entries) && !has_key(entries, pair.0) ==> keys_distinct(entries.push(pair)),
{
    let after = entries.push(pair);
    assert forall|key: u32| has_key(after, key) implies (has_key(entries, key) || key
        == pair.0) by {
        let i = choose|i: int| 0 <= i < after.len() && (#[trigger] after[i]).0 == key;
        if i < entries.len() {
            assert(entries[i].0 == key);
        }
    }
    assert forall|key: u32| (has_key(entries, key) || key == pair.0) implies has_key(
        after,
        key,
    ) by {
        if has_key(entries, key) {
            let i = choose|i: int| 0 <= i < entries.len() && (#[trigger] entries[i]).0 == key;
            assert(after[i].0 == key);
        } else {
            assert(after[entries.len() as int].0 == key);
        }
    }
    if keys_distinct(entries) && !has_key(entries, pair.0) {
        assert forall|i: int, j: int| 0 <= i < j < after.len() implies (#[trigger] after[i]).0 != (
        #[trigger] after[j]).0 by {
            if j == entries.len() {
                assert(entries[i].0 != pair.0);
            } else {
                assert(entries[i].0 != entries[j].0);
            }
        }
    }
}

/// Replacing the value at a position leaves the keys as they are.
pub proof fn lemma_update_keys<V>(entries: Seq<(u32, V)>, i: int, value: V)
    requires
        0 <= i < entries.len(),
    ensures
        forall|key: u32|
            has_key(entries.update(i, (entries[i].0, value)), key) <==> has_key(entries, key),
        keys_distinct(entries) ==> keys_distinct(entries.update(i, (entries[i].0, value))),
{
    let after = entries.update(i, (entries[i].0, value));
    assert forall|key: u32| has_key(after, key) implies has_key(entries, key) by {
        let k = choose|k: int| 0 <= k < after.len() && (#[trigger] after[k]).0 == key;
        assert(entries[k].0 == key);
    }
    assert forall|key: u32| has_key(entries, key) implies has_key(after, key) by {
        let k = choose|k: int| 0 <= k < entries.len() && (#[trigger] entries[k]).0 == key;
        assert(after[k].0 == key);
    }
    if keys_distinct(entries) {
        assert forall|a: int, b: int| 0 <= a < b < after.len() implies (#[trigger] after[a]).0 != (
        #[trigger] after[b]).0 by {
            assert(entries[a].0 != entries[b].0);
        }
    }
}

/// Removing a pair takes its key away and keeps every other key, and the
/// pairs that stay keep their order.
pub proof fn lemma_removed<V>(entries: Seq<(u32, V)>, i: int)
    requires
        0 <= i < entries.len(),
        keys_distinct(entries),
    ensures
        entries.remove(i).len() == entries.len() - 1,
        forall|k: int|
            0 <= k < entries.len() - 1 ==> #[trigger] entries.remove(i)[k] == (if k < i {
                entries[k]
            } else {
                entries[k + 1]
            }),
        forall|key: u32|
            has_key(entries.remove(i), key) <==> (has_key(entries, key) && key != entries[i].0),
        keys_distinct(entries.remove(i)),
{
    let after = entries.remove(i);
    assert forall|key: u32| has_key(after, key) implies (has_key(entries, key) && key
        != entries[i].0) by {
        let k = choose|k: int| 0 <= k < after.len() && (#[trigger] after[k]).0 == key;
        let x = if k < i { k } else { k + 1 };
        assert(entries[x].0 == key);
        if x < i {
            assert(entries[x].0 != entries[i].0);
        } else {
            assert(entries[i].0 != entries[x].0);
        }
    }
    assert forall|key: u32| (has_key(entries, key) && key != entries[i].0) implies has_key(
        after,
        key,
    ) by {
        let k = choose|k: int| 0 <= k < entries.len() && (#[trigger] entries[k]).0 == key;
        if k < i {
            assert(after[k].0 == key);
        } else {
            assert(after[k - 1].0 == key);
        }
    }
    assert forall|a: int, b: int| 0 <= a < b < after.len() implies (#[trigger] after[a]).0 != (
    #[trigger] after[b]).0 by {
        let x = if a < i { a } else { a + 1 };
        let y = if b < i { b } else { b + 1 };
        assert(entries[x].0 != entries[y].0);
    }
}

/// The pairs with the number of copies of the book at position `i` set to
/// `quantity`, and nothing else changed.
pub open spec fn with_quantity(entries: Seq<(u32, Book)>, i: int, quantity: u32) -> Seq<
    (u32, Book),
> {
    entries.update(i, (entries[i].0, (Book { quantity, ..entries[i].1 })))
}

/// The key-value pairs of a map of books, in the map's order.
pub uninterp spec fn book_entries(m: IndexMap<u32, Book>) -> Seq<(u32, Book)>;

/// The key-value pairs of a map of members, in the map's order.
pub uninterp spec fn user_entries(m: IndexMap<u32, User>) -> Seq<(u32, User)>;

/// The key-value pairs of a map of checkouts, in the map's order.
pub uninterp spec fn checkout_entries(m: IndexMap<u32, CheckoutInstance>) -> Seq<
    (u32, CheckoutInstance),
>;

/// `IndexMap::new`: a map without pairs.
#[verifier::external_body]
pub(crate) fn books_new() -> (m: IndexMap<u32, Book>)
    ensures
        book_entries(m) == Seq::<(u32, Book)>::empty(),
{
    IndexMap::new()
}

/// `IndexMap::len`: the number of pairs.
#[verifier::external_body]
pub(crate) fn books_len(m: &IndexMap<u32, Book>) -> (n: usize)
    ensures
        n == book_entries(*m).len(),
{
    m.len()
}

/// `IndexMap::get_index_of`: the position of the pair with this key, if there
/// is one.
#[verifier::external_body]
pub(crate) fn books_index_of(m: &IndexMap<u32, Book>, key: u32) -> (found: Option<usize>)
    ensures
        is_lookup(book_entries(*m), key, found),
{
    m.get_index_of(&key)
}

/// `IndexMap::get_index`: the pair at a position, `None` past the end.
#[verifier::external_body]
pub(crate) fn books_at(m: &IndexMap<u32, Book>, index: usize) -> (pair: Option<(&u32, &Book)>)
    ensures
        is_pair_at(book_entries(*m), index, pair),
{
    m.get_index(index)
}

/// `IndexMap::insert`: a present key keeps its place and gets the new value,
/// the old one is returned; an absent key is appended with its value.
#[verifier::external_body]
pub(crate) fn books_insert(m: &mut IndexMap<u32, Book>, key: u32, value: Book) -> (replaced: Option<
    Book,
>)
    ensures
        is_insertion(book_entries(*old(m)), book_entries(*final(m)), key, value, replaced),
{
    m.insert(key, value)
}

/// `IndexMap::shift_remove`: the pair with this key is removed, the pairs
/// behind it keep their order, and its value is returned; `None`, and no
/// change, where the key is absent.
#[verifier::external_body]
pub(crate) fn books_shift_remove(m: &mut IndexMap<u32, Book>, key: u32) -> (removed: Option<Book>)
    ensures
        is_shift_removal(book_entries(*old(m)), book_entries(*final(m)), key, removed),
{
    m.shift_remove(&key)
}

/// `IndexMap::get_index_mut`, narrowed to the number of copies of the book at
/// a position. Through the reference handed out that number can be written,
/// and nothing else of the map.
#[verifier::external_body]
pub(crate) fn books_quantity_mut(m: &mut IndexMap<u32, Book>, index: usize) -> (quantity: Option<
    &mut u32,
>)
    ensures
        match quantity {
            Some(q) => {
                &&& index < book_entries(*old(m)).len()
                &&& *q == book_entries(*old(m))[index as int].1.quantity
                &&& book_entries(*final(m)) == with_quantity(
                    book_entries(*old(m)),
                    index as int,
                    *final(q),
                )
            },
            None => index >= book_entries(*old(m)).len() && book_entries(*final(m))
                == book_entries(*old(m)),
        },
{
    m.get_index_mut(index).map(|(_, book)| &mut book.quantity)
}

/// `IndexMap::new`: a map without pairs.
#[verifier::external_body]
pub(crate) fn users_new() -> (m: IndexMap<u32, User>)
    ensures
        user_entries(m) == Seq::<(u32, User)>::empty(),
{
    IndexMap::new()
}

/// `IndexMap::len`: the number of pairs.
#[verifier::external_body]
pub(crate) fn users_len(m: &IndexMap<u32, User>) -> (n: usize)
    ensures
        n == user_entries(*m).len(),
{
    m.len()
}

/// `IndexMap::get_index_of`: the position of the pair with this key, if there
/// is one.
#[verifier::external_body]
pub(crate) fn users_index_of(m: &IndexMap<u32, User>, key: u32) -> (found: Option<usize>)
    ensures
        is_lookup(user_entries(*m), key, found),
{
    m.get_index_of(&key)
}

/// `IndexMap::get_index`: the pair at a position, `None` past the end.
#[verifier::external_body]
pub(crate) fn users_at(m: &IndexMap<u32, User>, index: usize) -> (pair: Option<(&u32, &User)>)
    ensures
        is_pair_at(user_entries(*m), index, pair),
{
    m.get_index(index)
}

/// `IndexMap::insert`: a present key keeps its place and gets the new value,
/// the old one is returned; an absent key is appended with its value.
#[verifier::external_body]
pub(crate) fn users_insert(m: &mut IndexMap<u32, User>, key: u32, value: User) -> (replaced: Option<
    User,
>)
    ensures
        is_insertion(user_entries(*old(m)), user_entries(*final(m)), key, value, replaced),
{
    m.insert(key, value)
}

/// `IndexMap::new`: a map without pairs.
#[verifier::external_body]
pub(crate) fn checkouts_new() -> (m: IndexMap<u32, CheckoutInstance>)
    ensures
        checkout_entries(m) == Seq::<(u32, CheckoutInstance)>::empty(),
{
    IndexMap::new()
}

/// `IndexMap::len`: the number of pairs.
#[verifier::external_body]
pub(crate) fn checkouts_len(m: &IndexMap<u32, CheckoutInstance>) -> (n: usize)
    ensures
        n == checkout_entries(*m).len(),
{
    m.len()
}

/// `IndexMap::get_index_of`: the position of the pair with this key, if there
/// is one.
#[verifier::external_body]
pub(crate) fn checkouts_index_of(m: &IndexMap<u32, CheckoutInstance>, key: u32) -> (found: Option<
    usize,
>)
    ensures
        is_lookup(checkout_entries(*m), key, found),
{
    m.get_index_of(&key)
}

/// `IndexMap::get_index`: the pair at a position, `None` past the end.
#[verifier::external_body]
pub(crate) fn checkouts_at(m: &IndexMap<u32, CheckoutInstance>, index: usize) -> (pair: Option<
    (&u32, &CheckoutInstance),
>)
    ensures
        is_pair_at(checkout_entries(*m), index, pair),
{
    m.get_index(index)
}

/// `IndexMap::insert`: a present key keeps its place and gets the new value,
/// the old one is returned; an absent key is appended with its value.
#[verifier::external_body]
pub(crate) fn checkouts_insert(
    m: &mut IndexMap<u32, CheckoutInstance>,
    key: u32,
    value: CheckoutInstance,
) -> (replaced: Option<CheckoutInstance>)
    ensures
        is_insertion(checkout_entries(*old(m)), checkout_entries(*final(m)), key, value, replaced),
{
    m.insert(key, value)
}

} // verus!
