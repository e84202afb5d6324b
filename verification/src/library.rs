//! The store: three insertion-ordered maps of records that share one space of
//! identifiers, and the operations that keep them consistent.

use crate::codec::decode;
use crate::codec::decoded;
use crate::codec::encode;
use crate::codec::encoded_text;
use crate::codec::lemma_decode_encode;
use crate::codec::MIN_UUID;
use crate::ordered::book_entries;
use crate::ordered::books_at;
use crate::ordered::books_index_of;
use crate::ordered::books_insert;
use crate::ordered::books_len;
use crate::ordered::books_new;
use crate::ordered::books_quantity_mut;
use crate::ordered::books_shift_remove;
use crate::ordered::checkout_entries;
use crate::ordered::checkouts_at;
use crate::ordered::checkouts_index_of;
use crate::ordered::checkouts_len;
use crate::ordered::checkouts_new;
use crate::ordered::has_key;
use crate::ordered::keys_distinct;
use crate::ordered::position;
use crate::ordered::lemma_push_keys;
use crate::ordered::lemma_removed;
use crate::ordered::lemma_update_keys;
use crate::ordered::with_quantity;
use crate::ordered::user_entries;
use crate::ordered::users_at;
use crate::ordered::users_index_of;
use crate::ordered::users_insert;
use crate::ordered::users_len;
use crate::ordered::users_new;
use crate::records::Book;
use crate::records::BookUuid;
use crate::records::CheckoutInstance;
use crate::records::CheckoutUuid;
use crate::records::ManipulationError;
use crate::records::ManipulationErrorType;
use crate::records::same_title;
use crate::records::same_work;
use crate::records::User;
use crate::records::UserUuid;
use crate::records::UuidError;
use crate::records::UuidType;
use indexmap::IndexMap;
use rand::Rng;
use vstd::pervasive::unreached;
use vstd::prelude::*;

verus! {

/// The number of identifiers drawn at random before the free ones are searched
/// in ascending order.
pub const MINT_DRAWS: u32 = 1024;

/// The books, checkouts and members of the library. Each map is keyed by the
/// identifier of the record it holds and keeps the order of insertion.
#[derive(Debug)]
pub struct Database {
    pub books: IndexMap<BookUuid, Book>,
    pub checkouts: IndexMap<CheckoutUuid, CheckoutInstance>,
    pub users: IndexMap<UserUuid, User>,
}

/// The error for an identifier that names a record of another kind than the
/// one asked for.
pub open spec fn mismatch(found: UuidType) -> UuidError {
    match found {
        UuidType::User => UuidError::MismatchIsUserUuid,
        UuidType::Book => UuidError::MismatchIsBookUuid,
        UuidType::Checkout => UuidError::MismatchIsCheckoutUuid,
    }
}

/// The identifiers of the checkouts among `entries` that refer to `book`, in
/// the order of `entries`.
pub open spec fn referring(entries: Seq<(u32, CheckoutInstance)>, book: u32) -> Seq<u32>
    decreases entries.len(),
{
    if entries.len() == 0 {
        Seq::empty()
    } else if entries.last().1.book == book {
        referring(entries.drop_last(), book).push(entries.last().0)
    } else {
        referring(entries.drop_last(), book)
    }
}

/// No checkout refers to a book exactly if the list of those that do is empty.
pub proof fn lemma_referring_empty(entries: Seq<(u32, CheckoutInstance)>, book: u32)
    ensures
        referring(entries, book).len() == 0 <==> (forall|i: int|
            0 <= i < entries.len() ==> (#[trigger] entries[i]).1.book != book),
    decreases entries.len(),
{
    if entries.len() > 0 {
        let rest = entries.drop_last();
        lemma_referring_empty(rest, book);
        if referring(entries, book).len() == 0 {
            assert forall|i: int| 0 <= i < entries.len() implies (#[trigger] entries[i]).1.book
                != book by {
                if i < rest.len() {
                    assert(rest[i] == entries[i]);
                }
            }
        } else if entries.last().1.book != book {
            let i = choose|i: int| 0 <= i < rest.len() && (#[trigger] rest[i]).1.book == book;
            assert(entries[i] == rest[i]);
        }
    }
}

/// A change to one of the three maps that keeps its keys distinct, and that
/// gives it no identifier which a record of another kind has, leaves the
/// identifiers of the store unique.
pub proof fn lemma_uuids_stay_unique(before: Database, after: Database)
    requires
        before.uuids_unique(),
        keys_distinct(after.book_seq()),
        keys_distinct(after.user_seq()),
        keys_distinct(after.checkout_seq()),
        forall|id: u32| #[trigger] after.has_book(id) ==> before.has_book(id) || !before.holds(id),
        forall|id: u32| #[trigger] after.has_user(id) ==> before.has_user(id) || !before.holds(id),
        forall|id: u32| #[trigger]
            after.has_checkout(id) ==> before.has_checkout(id) || !before.holds(id),
        ({
            ||| after.user_seq() == before.user_seq() && after.checkout_seq()
                == before.checkout_seq()
            ||| after.book_seq() == before.book_seq() && after.checkout_seq()
                == before.checkout_seq()
            ||| after.book_seq() == before.book_seq() && after.user_seq() == before.user_seq()
        }),
    ensures
        after.uuids_unique(),
{
    assert forall|id: u32|
        #![trigger after.has_book(id)]
        #![trigger after.has_user(id)]
        #![trigger after.has_checkout(id)]
        {
            &&& !(after.has_book(id) && after.has_user(id))
            &&& !(after.has_book(id) && after.has_checkout(id))
            &&& !(after.has_user(id) && after.has_checkout(id))
        } by {
        assert(!(before.has_book(id) && before.has_user(id)));
        assert(!(before.has_book(id) && before.has_checkout(id)));
        assert(!(before.has_user(id) && before.has_checkout(id)));
    }
}

/// Writing a number of copies that is at least one through
/// `get_book_from_input_mut` leaves a consistent store consistent.
pub proof fn lemma_quantity_edit_keeps_wf(before: Database, after: Database, i: int, quantity: u32)
    requires
        before.wf(),
        0 <= i < before.book_seq().len(),
        quantity >= 1,
        after.book_seq() == with_quantity(before.book_seq(), i, quantity),
        after.user_seq() == before.user_seq(),
        after.checkout_seq() == before.checkout_seq(),
    ensures
        after.wf(),
{
    let old_books = before.book_seq();
    let new_books = after.book_seq();
    lemma_update_keys(old_books, i, (Book { quantity, ..old_books[i].1 }));
    assert forall|k: int| 0 <= k < new_books.len() implies (#[trigger] new_books[k]).1.uuid
        == new_books[k].0 && new_books[k].1.quantity >= 1 by {
        assert(old_books[k].1.uuid == old_books[k].0 && old_books[k].1.quantity >= 1);
    }
    assert forall|a: int, b: int| 0 <= a < b < new_books.len() implies !same_work(
        (#[trigger] new_books[a]).1,
        (#[trigger] new_books[b]).1.name@,
        new_books[b].1.author@,
    ) by {
        assert(!same_work(old_books[a].1, old_books[b].1.name@, old_books[b].1.author@));
    }
    assert forall|k: int| 0 <= k < after.checkout_seq().len() implies after.has_book(
        (#[trigger] after.checkout_seq()[k]).1.book,
    ) by {
        assert(before.has_book(before.checkout_seq()[k].1.book));
    }
    lemma_uuids_stay_unique(before, after);
}

/// In a consistent store no two records have the same identifier, whether they
/// are of one kind or of two.
pub proof fn lemma_live_uuids_differ(db: Database)
    requires
        db.wf(),
    ensures
        forall|i: int, j: int|
            0 <= i < j < db.book_seq().len() ==> (#[trigger] db.book_seq()[i]).1.uuid != (
            #[trigger] db.book_seq()[j]).1.uuid,
        forall|i: int, j: int|
            0 <= i < j < db.user_seq().len() ==> (#[trigger] db.user_seq()[i]).1.uuid != (
            #[trigger] db.user_seq()[j]).1.uuid,
        forall|i: int, j: int|
            0 <= i < j < db.checkout_seq().len() ==> (#[trigger] db.checkout_seq()[i]).1.uuid != (
            #[trigger] db.checkout_seq()[j]).1.uuid,
        forall|i: int, j: int|
            0 <= i < db.book_seq().len() && 0 <= j < db.user_seq().len() ==> (
            #[trigger] db.book_seq()[i]).1.uuid != (#[trigger] db.user_seq()[j]).1.uuid,
        forall|i: int, j: int|
            0 <= i < db.book_seq().len() && 0 <= j < db.checkout_seq().len() ==> (
            #[trigger] db.book_seq()[i]).1.uuid != (#[trigger] db.checkout_seq()[j]).1.uuid,
        forall|i: int, j: int|
            0 <= i < db.user_seq().len() && 0 <= j < db.checkout_seq().len() ==> (
            #[trigger] db.user_seq()[i]).1.uuid != (#[trigger] db.checkout_seq()[j]).1.uuid,
{
    assert forall|i: int, j: int|
        0 <= i < db.book_seq().len() && 0 <= j < db.user_seq().len() implies (
    #[trigger] db.book_seq()[i]).1.uuid != (#[trigger] db.user_seq()[j]).1.uuid by {
        let id = db.book_seq()[i].0;
        assert(db.has_book(id));
        if db.user_seq()[j].0 == id {
            assert(db.has_user(id));
        }
    }
    assert forall|i: int, j: int|
        0 <= i < db.book_seq().len() && 0 <= j < db.checkout_seq().len() implies (
    #[trigger] db.book_seq()[i]).1.uuid != (#[trigger] db.checkout_seq()[j]).1.uuid by {
        let id = db.book_seq()[i].0;
        assert(db.has_book(id));
        if db.checkout_seq()[j].0 == id {
            assert(db.has_checkout(id));
        }
    }
    assert forall|i: int, j: int|
        0 <= i < db.user_seq().len() && 0 <= j < db.checkout_seq().len() implies (
    #[trigger] db.user_seq()[i]).1.uuid != (#[trigger] db.checkout_seq()[j]).1.uuid by {
        let id = db.user_seq()[i].0;
        assert(db.has_user(id));
        if db.checkout_seq()[j].0 == id {
            assert(db.has_checkout(id));
        }
    }
}

/// An identifier that `mint` hands out differs from the identifier of every
/// record of the store, and its top five bits are not all zero.
pub proof fn lemma_free_uuid_is_new(db: Database, id: u32)
    requires
        db.is_free(id),
    ensures
        id >= MIN_UUID,
        forall|i: int| 0 <= i < db.book_seq().len() ==> (#[trigger] db.book_seq()[i]).0 != id,
        forall|i: int| 0 <= i < db.user_seq().len() ==> (#[trigger] db.user_seq()[i]).0 != id,
        forall|i: int|
            0 <= i < db.checkout_seq().len() ==> (#[trigger] db.checkout_seq()[i]).0 != id,
{
}

/// The text form of an identifier, read back in any store, gives that
/// identifier and the kind of the record that has it; where no record has it
/// the identifier is reported as not found.
pub proof fn lemma_decode_raw_of_encoded(db: Database, id: u32)
    ensures
        db.decoded_raw(encoded_text(id)) == match db.class_of(id) {
            Some(class) => Ok::<(u32, UuidType), UuidError>((id, class)),
            None => Err::<(u32, UuidType), UuidError>(UuidError::NotFound),
        },
{
    lemma_decode_encode(id);
}

/// `Rng::gen` of rand on the thread-local generator: some 32-bit number.
#[verifier::external_body]
fn random_u32() -> u32 {
    rand::thread_rng().gen()
}

impl Database {
    /// The books with their keys, in listing order.
    pub open spec fn book_seq(&self) -> Seq<(u32, Book)> {
        book_entries(self.books)
    }

    /// The members with their keys, in listing order.
    pub open spec fn user_seq(&self) -> Seq<(u32, User)> {
        user_entries(self.users)
    }

    /// The checkouts with their keys, in listing order.
    pub open spec fn checkout_seq(&self) -> Seq<(u32, CheckoutInstance)> {
        checkout_entries(self.checkouts)
    }

    pub open spec fn has_book(&self, id: u32) -> bool {
        has_key(self.book_seq(), id)
    }

    pub open spec fn has_user(&self, id: u32) -> bool {
        has_key(self.user_seq(), id)
    }

    pub open spec fn has_checkout(&self, id: u32) -> bool {
        has_key(self.checkout_seq(), id)
    }

    /// Some record, of whatever kind, has this identifier.
    pub open spec fn holds(&self, id: u32) -> bool {
        self.has_user(id) || self.has_book(id) || self.has_checkout(id)
    }

    /// The kind of record that has this identifier, if any has.
    pub open spec fn class_of(&self, id: u32) -> Option<UuidType> {
        if self.has_user(id) {
            Some(UuidType::User)
        } else if self.has_book(id) {
            Some(UuidType::Book)
        } else if self.has_checkout(id) {
            Some(UuidType::Checkout)
        } else {
            None
        }
    }

    /// The identifier may be given to a new record: its top five bits are not
    /// all zero and no record has it.
    pub open spec fn is_free(&self, id: u32) -> bool {
        id >= MIN_UUID && !self.holds(id)
    }

    /// Some identifier is still free.
    pub open spec fn has_free_uuid(&self) -> bool {
        exists|id: u32| self.is_free(id)
    }

    /// What a text names in this store: an identifier and the kind of record
    /// that has it.
    pub open spec fn decoded_raw(&self, text: Seq<char>) -> Result<(u32, UuidType), UuidError> {
        match decoded(text) {
            None => Err(UuidError::InvalidEncoding),
            Some(id) => match self.class_of(id) {
                Some(class) => Ok((id, class)),
                None => Err(UuidError::NotFound),
            },
        }
    }

    /// What a text names in this store where a record of the kind `wanted` is
    /// asked for.
    pub open spec fn decoded_as(&self, text: Seq<char>, wanted: UuidType) -> Result<u32, UuidError> {
        match self.decoded_raw(text) {
            Ok((id, class)) => if class == wanted {
                Ok(id)
            } else {
                Err(mismatch(class))
            },
            Err(e) => Err(e),
        }
    }

    /// Each record is kept under its own identifier.
    pub open spec fn keyed_by_uuid(&self) -> bool {
        &&& forall|i: int|
            0 <= i < self.book_seq().len() ==> (#[trigger] self.book_seq()[i]).1.uuid
                == self.book_seq()[i].0
        &&& forall|i: int|
            0 <= i < self.user_seq().len() ==> (#[trigger] self.user_seq()[i]).1.uuid
                == self.user_seq()[i].0
        &&& forall|i: int|
            0 <= i < self.checkout_seq().len() ==> (#[trigger] self.checkout_seq()[i]).1.uuid
                == self.checkout_seq()[i].0
    }

    /// No identifier belongs to two records, of one kind or of two.
    pub open spec fn uuids_unique(&self) -> bool {
        &&& keys_distinct(self.book_seq())
        &&& keys_distinct(self.user_seq())
        &&& keys_distinct(self.checkout_seq())
        &&& forall|id: u32|
            #![trigger self.has_book(id)]
            #![trigger self.has_user(id)]
            #![trigger self.has_checkout(id)]
            {
                &&& !(self.has_book(id) && self.has_user(id))
                &&& !(self.has_book(id) && self.has_checkout(id))
                &&& !(self.has_user(id) && self.has_checkout(id))
            }
    }

    /// The book of every checkout is in the store.
    pub open spec fn checkouts_refer_to_books(&self) -> bool {
        forall|i: int|
            0 <= i < self.checkout_seq().len() ==> self.has_book(
                (#[trigger] self.checkout_seq()[i]).1.book,
            )
    }

    /// No two books are the same work.
    pub open spec fn works_distinct(&self) -> bool {
        forall|i: int, j: int|
            0 <= i < j < self.book_seq().len() ==> !same_work(
                (#[trigger] self.book_seq()[i]).1,
                (#[trigger] self.book_seq()[j]).1.name@,
                self.book_seq()[j].1.author@,
            )
    }

    /// The library owns at least one copy of every book.
    pub open spec fn copies_positive(&self) -> bool {
        forall|i: int|
            0 <= i < self.book_seq().len() ==> (#[trigger] self.book_seq()[i]).1.quantity >= 1
    }

    /// Every checkout says of its approvals and its due date what its stage
    /// implies.
    pub open spec fn checkouts_consistent(&self) -> bool {
        forall|i: int|
            0 <= i < self.checkout_seq().len() ==> (#[trigger] self.checkout_seq()[i]).1.stage_consistent()
    }

    /// The store is consistent.
    pub open spec fn wf(&self) -> bool {
        &&& self.keyed_by_uuid()
        &&& self.uuids_unique()
        &&& self.checkouts_refer_to_books()
        &&& self.checkouts_consistent()
        &&& self.works_distinct()
        &&& self.copies_positive()
    }

    /// The checkout with this identifier, where the store has one.
    pub open spec fn checkout_of(&self, id: u32) -> CheckoutInstance {
        self.checkout_seq()[position(self.checkout_seq(), id)].1
    }

    /// Some book of the store is the work with this title and author.
    pub open spec fn has_work(&self, title: Seq<char>, author: Seq<char>) -> bool {
        exists|i: int|
            0 <= i < self.book_seq().len() && same_work(
                (#[trigger] self.book_seq()[i]).1,
                title,
                author,
            )
    }

    /// The checkouts that refer to a book, in listing order.
    pub open spec fn referring_checkouts(&self, book: u32) -> Seq<u32> {
        referring(self.checkout_seq(), book)
    }

    /// The book at position `i` of the listing is the one that `input` asks
    /// for. Where `input` is the text form of a book's identifier, that is
    /// the book with that identifier; otherwise it is the first book of the
    /// listing whose title is `input`, up to ASCII case.
    pub open spec fn resolves_to(&self, input: Seq<char>, i: int) -> bool {
        &&& 0 <= i < self.book_seq().len()
        &&& match self.decoded_as(input, UuidType::Book) {
            Ok(id) => self.book_seq()[i].0 == id,
            Err(_) => same_title(self.book_seq()[i].1, input) && forall|k: int|
                0 <= k < i ==> !same_title((#[trigger] self.book_seq()[k]).1, input),
        }
    }

    /// Some book of the store is the one that `input` asks for.
    pub open spec fn resolves(&self, input: Seq<char>) -> bool {
        exists|i: int| self.resolves_to(input, i)
    }

    /// Some member is known to the chat platform under this identity.
    pub open spec fn knows(&self, identity: Seq<char>) -> bool {
        exists|i: int|
            0 <= i < self.user_seq().len() && (#[trigger] self.user_seq()[i]).1.discord_id@
                == identity
    }

    /// The member at position `i` is the first of the listing with this
    /// identity.
    pub open spec fn first_known_at(&self, identity: Seq<char>, i: int) -> bool {
        &&& 0 <= i < self.user_seq().len()
        &&& self.user_seq()[i].1.discord_id@ == identity
        &&& forall|k: int| 0 <= k < i ==> (#[trigger] self.user_seq()[k]).1.discord_id@ != identity
    }

    /// A store without records.
    pub fn new() -> (db: Database)
        ensures
            db.book_seq().len() == 0,
            db.user_seq().len() == 0,
            db.checkout_seq().len() == 0,
            db.wf(),
    {
        Database { books: books_new(), checkouts: checkouts_new(), users: users_new() }
    }

    /// Whether some record of the store has this identifier.
    pub fn contains_uuid(&self, id: u32) -> (held: bool)
        ensures
            held == self.holds(id),
    {
        users_index_of(&self.users, id).is_some() || books_index_of(&self.books, id).is_some()
            || checkouts_index_of(&self.checkouts, id).is_some()
    }

    /// The kind of record that has this identifier.
    pub fn uuid_type(&self, id: u32) -> (class: Option<UuidType>)
        ensures
            class == self.class_of(id),
    {
        if users_index_of(&self.users, id).is_some() {
            Some(UuidType::User)
        } else if books_index_of(&self.books, id).is_some() {
            Some(UuidType::Book)
        } else if checkouts_index_of(&self.checkouts, id).is_some() {
            Some(UuidType::Checkout)
        } else {
            None
        }
    }

    /// Whether a candidate may be given to a new record.
    pub fn is_fresh_uuid(&self, candidate: u32) -> (fresh: bool)
        ensures
            fresh == self.is_free(candidate),
    {
        if candidate < MIN_UUID {
            // Identifiers whose top five bits are all zero are never given out.
            return false;
        }
        !self.contains_uuid(candidate)
    }

    /// Finds an identifier for a new record. Candidates are drawn at random
    /// and a candidate that cannot be used is drawn again; after `MINT_DRAWS`
    /// draws without success the smallest free identifier is taken. `None`
    /// means that every identifier is in use.
    pub fn mint(&self) -> (id: Option<u32>)
        ensures
            match id {
                Some(v) => self.is_free(v),
                None => !self.has_free_uuid(),
            },
    {
        let mut draws: u32 = 0;
        while draws < MINT_DRAWS
            invariant
                draws <= MINT_DRAWS,
            decreases MINT_DRAWS - draws,
        {
            let candidate = random_u32();
            if self.is_fresh_uuid(candidate) {
                return Some(candidate);
            }
            draws += 1;
        }
        let mut candidate: u32 = MIN_UUID;
        loop
            invariant
                candidate >= MIN_UUID,
                forall|c: u32| MIN_UUID <= c < candidate ==> !self.is_free(c),
            decreases u32::MAX - candidate,
        {
            if self.is_fresh_uuid(candidate) {
                return Some(candidate);
            }
            if candidate == u32::MAX {
                return None;
            }
            candidate += 1;
        }
    }

    fn new_raw_uuid(&self) -> (id: u32)
        requires
            self.has_free_uuid(),
        ensures
            self.is_free(id),
    {
        match self.mint() {
            Some(id) => id,
            None => unreached(),
        }
    }

    /// An identifier for a new book: one that no record has.
    pub fn new_book_uuid(&self) -> (id: BookUuid)
        requires
            self.has_free_uuid(),
        ensures
            self.is_free(id),
    {
        self.new_raw_uuid()
    }

    /// An identifier for a new member: one that no record has.
    pub fn new_user_uuid(&self) -> (id: UserUuid)
        requires
            self.has_free_uuid(),
        ensures
            self.is_free(id),
    {
        self.new_raw_uuid()
    }

    /// An identifier for a new checkout: one that no record has.
    pub fn new_checkout_uuid(&self) -> (id: CheckoutUuid)
        requires
            self.has_free_uuid(),
        ensures
            self.is_free(id),
    {
        self.new_raw_uuid()
    }

    /// Reads an identifier from its text form and says which kind of record
    /// has it.
    pub fn decode_raw(&self, uuid: &str) -> (r: Result<(u32, UuidType), UuidError>)
        ensures
            r == self.decoded_raw(uuid@),
    {
        let result = match decode(uuid) {
            None => {
                return Err(UuidError::InvalidEncoding);
            },
            Some(id) => id,
        };
        match self.uuid_type(result) {
            Some(uuid_type) => Ok((result, uuid_type)),
            None => Err(UuidError::NotFound),
        }
    }

    fn uuid_type_to_mismatch_error(uuid_type: UuidType) -> (e: UuidError)
        ensures
            e == mismatch(uuid_type),
    {
        match uuid_type {
            UuidType::User => UuidError::MismatchIsUserUuid,
            UuidType::Book => UuidError::MismatchIsBookUuid,
            UuidType::Checkout => UuidError::MismatchIsCheckoutUuid,
        }
    }

    /// Reads the identifier of a member from its text form.
    pub fn decode_user_uuid(&self, uuid: &str) -> (r: Result<UserUuid, UuidError>)
        ensures
            r == self.decoded_as(uuid@, UuidType::User),
    {
        match self.decode_raw(uuid) {
            Err(e) => Err(e),
            Ok((decoded, uuid_type)) => match uuid_type {
                UuidType::User => Ok(decoded),
                _ => Err(Database::uuid_type_to_mismatch_error(uuid_type)),
            },
        }
    }

    /// Reads the identifier of a book from its text form.
    pub fn decode_book_uuid(&self, uuid: &str) -> (r: Result<BookUuid, UuidError>)
        ensures
            r == self.decoded_as(uuid@, UuidType::Book),
    {
        match self.decode_raw(uuid) {
            Err(e) => Err(e),
            Ok((decoded, uuid_type)) => match uuid_type {
                UuidType::Book => Ok(decoded),
                _ => Err(Database::uuid_type_to_mismatch_error(uuid_type)),
            },
        }
    }

    /// Reads the identifier of a checkout from its text form.
    pub fn decode_checkout_uuid(&self, uuid: &str) -> (r: Result<CheckoutUuid, UuidError>)
        ensures
            r == self.decoded_as(uuid@, UuidType::Checkout),
    {
        match self.decode_raw(uuid) {
            Err(e) => Err(e),
            Ok((decoded, uuid_type)) => match uuid_type {
                UuidType::Checkout => Ok(decoded),
                _ => Err(Database::uuid_type_to_mismatch_error(uuid_type)),
            },
        }
    }

    /// Adds a book. The book is refused where some record already has its
    /// identifier, and else where the store already has a book of the same
    /// title and author; the error then carries the identifier's text form,
    /// or the title. A book without a copy is refused too. A book that is
    /// accepted comes last in the listing.
    pub fn add_book(&mut self, book: Book) -> (r: Result<(), ManipulationError>)
        requires
            old(self).wf(),
        ensures
            final(self).wf(),
            match r {
                Ok(()) => {
                    &&& !old(self).holds(book.uuid)
                    &&& !old(self).has_work(book.name@, book.author@)
                    &&& book.quantity >= 1
                    &&& final(self).book_seq() == old(self).book_seq().push((book.uuid, book))
                    &&& final(self).user_seq() == old(self).user_seq()
                    &&& final(self).checkout_seq() == old(self).checkout_seq()
                },
                Err(e) => {
                    &&& *final(self) == *old(self)
                    &&& match e.0 {
                        ManipulationErrorType::AlreadyAdded(what) => if old(self).holds(
                            book.uuid,
                        ) {
                            what@ == encoded_text(book.uuid)
                        } else {
                            old(self).has_work(book.name@, book.author@) && what == book.name
                        },
                        ManipulationErrorType::NoCopies(what) => {
                            &&& !old(self).holds(book.uuid)
                            &&& !old(self).has_work(book.name@, book.author@)
                            &&& book.quantity == 0
                            &&& what == book.name
                        },
                        _ => false,
                    }
                },
            },
    {
        if self.contains_uuid(book.uuid) {
            return Err(
                ManipulationError::new(
                    ManipulationErrorType::AlreadyAdded(Database::encode_uuid(book.uuid)),
                ),
            );
        }
        let count = books_len(&self.books);
        let mut i: usize = 0;
        while i < count
            invariant
                *self == *old(self),
                self.wf(),
                !self.holds(book.uuid),
                count == self.book_seq().len(),
                i <= count,
                forall|k: int|
                    0 <= k < i ==> !same_work(
                        (#[trigger] self.book_seq()[k]).1,
                        book.name@,
                        book.author@,
                    ),
            decreases count - i,
        {
            if let Some((_, existing_book)) = books_at(&self.books, i) {
                if existing_book.is_work(book.name.as_str(), book.author.as_str()) {
                    return Err(
                        ManipulationError::new(ManipulationErrorType::AlreadyAdded(book.name)),
                    );
                }
            }
            i += 1;
        }
        if book.quantity < 1 {
            return Err(ManipulationError::new(ManipulationErrorType::NoCopies(book.name)));
        }
        let ghost before = self.book_seq();
        proof {
            lemma_push_keys(before, (book.uuid, book));
        }
        books_insert(&mut self.books, book.uuid, book);
        proof {
            let after = self.book_seq();
            assert(after == before.push((book.uuid, book)));
            lemma_uuids_stay_unique(*old(self), *self);
            assert forall|i: int| 0 <= i < self.checkout_seq().len() implies self.has_book(
                (#[trigger] self.checkout_seq()[i]).1.book,
            ) by {
                assert(old(self).has_book(old(self).checkout_seq()[i].1.book));
            }
            assert forall|i: int, j: int| 0 <= i < j < after.len() implies !same_work(
                (#[trigger] after[i]).1,
                (#[trigger] after[j]).1.name@,
                after[j].1.author@,
            ) by {
                if j < before.len() {
                    assert(!same_work(before[i].1, before[j].1.name@, before[j].1.author@));
                } else {
                    assert(!same_work(before[i].1, book.name@, book.author@));
                }
            }
            assert forall|i: int| 0 <= i < after.len() implies (#[trigger] after[i]).1.quantity
                >= 1 && after[i].1.uuid == after[i].0 by {
                if i < before.len() {
                    assert(before[i].1.quantity >= 1 && before[i].1.uuid == before[i].0);
                }
            }
        }
        Ok(())
    }

    /// Removes a book and hands it back. While any checkout refers to the
    /// book, whatever its stage, the book stays and the error lists those
    /// checkouts in listing order. The books that stay keep their order.
    pub fn remove_book(&mut self, uuid: BookUuid) -> (r: Result<Book, ManipulationError>)
        requires
            old(self).wf(),
        ensures
            final(self).wf(),
            match r {
                Ok(book) => {
                    &&& old(self).referring_checkouts(uuid).len() == 0
                    &&& exists|i: int|
                        0 <= i < old(self).book_seq().len() && #[trigger] old(self).book_seq()[i]
                            == (uuid, book) && final(self).book_seq() == old(
                            self,
                        ).book_seq().remove(i)
                    &&& final(self).user_seq() == old(self).user_seq()
                    &&& final(self).checkout_seq() == old(self).checkout_seq()
                },
                Err(e) => {
                    &&& *final(self) == *old(self)
                    &&& match e.0 {
                        ManipulationErrorType::OutstandingBooksNonReturned(ids) => ids@.len() > 0
                            && ids@ == old(self).referring_checkouts(uuid),
                        ManipulationErrorType::UnknownBook(what) => {
                            &&& old(self).referring_checkouts(uuid).len() == 0
                            &&& !old(self).has_book(uuid)
                            &&& what@ == encoded_text(uuid)
                        },
                        _ => false,
                    }
                },
            },
    {
        let count = checkouts_len(&self.checkouts);
        let mut error_books: Vec<CheckoutUuid> = Vec::new();
        let mut j: usize = 0;
        while j < count
            invariant
                *self == *old(self),
                self.wf(),
                count == self.checkout_seq().len(),
                j <= count,
                error_books@ == referring(self.checkout_seq().take(j as int), uuid),
            decreases count - j,
        {
            proof {
                let upto = self.checkout_seq().take(j + 1);
                assert(upto.drop_last() == self.checkout_seq().take(j as int));
                assert(upto.last() == self.checkout_seq()[j as int]);
            }
            if let Some((_, checkout)) = checkouts_at(&self.checkouts, j) {
                if checkout.book == uuid {
                    // This checkout still accounts for the book.
                    error_books.push(checkout.uuid);
                }
            }
            j += 1;
        }
        assert(self.checkout_seq().take(count as int) == self.checkout_seq());
        if error_books.len() > 0 {
            return Err(
                ManipulationError::new(
                    ManipulationErrorType::OutstandingBooksNonReturned(error_books),
                ),
            );
        }
        if books_index_of(&self.books, uuid).is_none() {
            return Err(
                ManipulationError::new(
                    ManipulationErrorType::UnknownBook(Database::encode_uuid(uuid)),
                ),
            );
        }
        let ghost before = self.book_seq();
        let opt_book = books_shift_remove(&mut self.books, uuid);
        match opt_book {
            None => Err(
                ManipulationError::new(
                    ManipulationErrorType::UnknownBook(Database::encode_uuid(uuid)),
                ),
            ),
            Some(book) => {
                proof {
                    let i = choose|i: int|
                        0 <= i < before.len() && #[trigger] before[i] == (uuid, book)
                            && self.book_seq() == before.remove(i);
                    let after = self.book_seq();
                    lemma_removed(before, i);
                    lemma_referring_empty(self.checkout_seq(), uuid);
                    lemma_uuids_stay_unique(*old(self), *self);
                    assert forall|k: int| 0 <= k < self.checkout_seq().len() implies self.has_book(
                        (#[trigger] self.checkout_seq()[k]).1.book,
                    ) by {
                        assert(old(self).has_book(old(self).checkout_seq()[k].1.book));
                    }
                    assert forall|a: int, b: int| 0 <= a < b < after.len() implies !same_work(
                        (#[trigger] after[a]).1,
                        (#[trigger] after[b]).1.name@,
                        after[b].1.author@,
                    ) by {
                        let x = if a < i { a } else { a + 1 };
                        let y = if b < i { b } else { b + 1 };
                        assert(after[a] == before[x] && after[b] == before[y]);
                        assert(!same_work(before[x].1, before[y].1.name@, before[y].1.author@));
                    }
                    assert forall|k: int| 0 <= k < after.len() implies (#[trigger] after[k]).1.quantity
                        >= 1 && after[k].1.uuid == after[k].0 by {
                        let x = if k < i { k } else { k + 1 };
                        assert(after[k] == before[x]);
                        assert(before[x].1.quantity >= 1 && before[x].1.uuid == before[x].0);
                    }
                }
                Ok(book)
            },
        }
    }

    /// Adds a member. The member is refused where some record already has
    /// their identifier; the error then carries the identifier's text form.
    /// A member who is accepted comes last in the listing.
    pub fn add_user(&mut self, user: User) -> (r: Result<(), ManipulationError>)
        requires
            old(self).wf(),
        ensures
            final(self).wf(),
            match r {
                Ok(()) => {
                    &&& !old(self).holds(user.uuid)
                    &&& final(self).user_seq() == old(self).user_seq().push((user.uuid, user))
                    &&& final(self).book_seq() == old(self).book_seq()
                    &&& final(self).checkout_seq() == old(self).checkout_seq()
                },
                Err(e) => {
                    &&& *final(self) == *old(self)
                    &&& old(self).holds(user.uuid)
                    &&& match e.0 {
                        ManipulationErrorType::AlreadyAdded(what) => what@ == encoded_text(
                            user.uuid,
                        ),
                        _ => false,
                    }
                },
            },
    {
        if self.contains_uuid(user.uuid) {
            return Err(
                ManipulationError::new(
                    ManipulationErrorType::AlreadyAdded(Database::encode_uuid(user.uuid)),
                ),
            );
        }
        proof {
            lemma_push_keys(self.user_seq(), (user.uuid, user));
        }
        let ghost before = self.user_seq();
        users_insert(&mut self.users, user.uuid, user);
        proof {
            let after = self.user_seq();
            assert(after == before.push((user.uuid, user)));
            assert forall|i: int| 0 <= i < after.len() implies (#[trigger] after[i]).1.uuid
                == after[i].0 by {
                if i < before.len() {
                    assert(before[i].1.uuid == before[i].0);
                }
            }
            lemma_uuids_stay_unique(*old(self), *self);
        }
        Ok(())
    }

    /// The number of books.
    pub fn book_count(&self) -> (n: usize)
        ensures
            n == self.book_seq().len(),
    {
        books_len(&self.books)
    }

    /// The book at a position of the listing, which is in insertion order;
    /// `None` past its end.
    pub fn book_at(&self, index: usize) -> (r: Option<&Book>)
        ensures
            match r {
                Some(book) => index < self.book_seq().len() && *book
                    == self.book_seq()[index as int].1,
                None => index >= self.book_seq().len(),
            },
    {
        match books_at(&self.books, index) {
            Some((_, book)) => Some(book),
            None => None,
        }
    }

    /// The number of members.
    pub fn user_count(&self) -> (n: usize)
        ensures
            n == self.user_seq().len(),
    {
        users_len(&self.users)
    }

    /// The member at a position of the listing, which is in insertion order;
    /// `None` past its end.
    pub fn user_at(&self, index: usize) -> (r: Option<&User>)
        ensures
            match r {
                Some(user) => index < self.user_seq().len() && *user
                    == self.user_seq()[index as int].1,
                None => index >= self.user_seq().len(),
            },
    {
        match users_at(&self.users, index) {
            Some((_, user)) => Some(user),
            None => None,
        }
    }

    /// The number of checkouts.
    pub fn checkout_count(&self) -> (n: usize)
        ensures
            n == self.checkout_seq().len(),
    {
        checkouts_len(&self.checkouts)
    }

    /// The checkout at a position of the listing, which is in insertion
    /// order; `None` past its end.
    pub fn checkout_at(&self, index: usize) -> (r: Option<&CheckoutInstance>)
        ensures
            match r {
                Some(checkout) => index < self.checkout_seq().len() && *checkout
                    == self.checkout_seq()[index as int].1,
                None => index >= self.checkout_seq().len(),
            },
    {
        match checkouts_at(&self.checkouts, index) {
            Some((_, checkout)) => Some(checkout),
            None => None,
        }
    }

    /// The member with this identifier.
    pub fn get_user(&self, uuid: UserUuid) -> (r: Option<&User>)
        ensures
            match r {
                Some(user) => exists|i: int|
                    0 <= i < self.user_seq().len() && #[trigger] self.user_seq()[i] == (
                        uuid,
                        *user,
                    ),
                None => !self.has_user(uuid),
            },
    {
        match users_index_of(&self.users, uuid) {
            None => None,
            Some(i) => match users_at(&self.users, i) {
                Some((_, user)) => {
                    assert(self.user_seq()[i as int] == (uuid, *user));
                    Some(user)
                },
                None => None,
            },
        }
    }

    /// The first member of the listing whom the chat platform knows under
    /// this identity.
    pub fn find_user(&self, discord_id: &String) -> (r: Option<&User>)
        ensures
            match r {
                Some(user) => exists|i: int|
                    #[trigger] self.first_known_at(discord_id@, i) && *user
                        == self.user_seq()[i].1,
                None => !self.knows(discord_id@),
            },
    {
        let count = users_len(&self.users);
        let mut i: usize = 0;
        while i < count
            invariant
                count == self.user_seq().len(),
                i <= count,
                forall|k: int|
                    0 <= k < i ==> (#[trigger] self.user_seq()[k]).1.discord_id@ != discord_id@,
            decreases count - i,
        {
            if let Some((_, user)) = users_at(&self.users, i) {
                if user.discord_id == *discord_id {
                    assert(self.first_known_at(discord_id@, i as int));
                    return Some(user);
                }
            }
            i += 1;
        }
        None
    }

    /// The position in the listing of the book that `input` asks for, by
    /// the text form of its identifier or else by its title.
    pub fn find_book(&self, input: &str) -> (found: Option<usize>)
        ensures
            match found {
                Some(i) => self.resolves_to(input@, i as int),
                None => !self.resolves(input@),
            },
    {
        match self.decode_book_uuid(input) {
            Ok(uuid) => {
                // The input is the identifier of a book: use that.
                books_index_of(&self.books, uuid)
            },
            Err(_) => {
                let count = books_len(&self.books);
                let mut i: usize = 0;
                while i < count
                    invariant
                        self.decoded_as(input@, UuidType::Book) is Err,
                        count == self.book_seq().len(),
                        i <= count,
                        forall|k: int|
                            0 <= k < i ==> !same_title((#[trigger] self.book_seq()[k]).1, input@),
                    decreases count - i,
                {
                    if let Some((_, book)) = books_at(&self.books, i) {
                        if book.is_titled(input) {
                            // The input is the title of this book.
                            return Some(i);
                        }
                    }
                    i += 1;
                }
                None
            },
        }
    }

    /// The book that `input` asks for, by the text form of its identifier or
    /// else by its title; `None` where the store has no such book.
    pub fn get_book_from_input(&self, input: &String) -> (r: Option<&Book>)
        ensures
            match r {
                Some(book) => exists|i: int|
                    self.resolves_to(input@, i) && *book == self.book_seq()[i].1,
                None => !self.resolves(input@),
            },
    {
        match self.find_book(input.as_str()) {
            None => None,
            Some(i) => match books_at(&self.books, i) {
                Some((_, book)) => Some(book),
                None => None,
            },
        }
    }

    /// The number of copies of the book that `input` asks for, to be read or
    /// written in place; `None` where the store has no such book. Nothing but
    /// that number can be changed through the reference: the book keeps its
    /// identifier, title and author, and its place in the listing.
    pub fn get_book_from_input_mut(&mut self, input: &String) -> (r: Option<&mut u32>)
        ensures
            match r {
                Some(quantity) => {
                    &&& exists|i: int|
                        {
                            &&& #[trigger] old(self).resolves_to(input@, i)
                            &&& *quantity == old(self).book_seq()[i].1.quantity
                            &&& final(self).book_seq() == with_quantity(
                                old(self).book_seq(),
                                i,
                                *final(quantity),
                            )
                        }
                    &&& final(self).user_seq() == old(self).user_seq()
                    &&& final(self).checkout_seq() == old(self).checkout_seq()
                },
                None => !old(self).resolves(input@) && *final(self) == *old(self),
            },
    {
        match self.find_book(input.as_str()) {
            None => None,
            Some(i) => books_quantity_mut(&mut self.books, i),
        }
    }

    /// The text form of an identifier.
    pub fn encode_uuid(uuid: u32) -> (text: String)
        ensures
            text@ == encoded_text(uuid),
    {
        encode(uuid)
    }
}

} // verus!
