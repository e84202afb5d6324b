//! The store as a snapshot takes it and gives it back: three lists of
//! records, each in listing order.
//!
//! Writing a snapshot to disk and reading it are not done here. What is
//! decided here is whether records that were read make a consistent store.

use crate::library::lemma_uuids_stay_unique;
use crate::library::Database;
use crate::ordered::books_at;
use crate::ordered::books_index_of;
use crate::ordered::books_len;
use crate::ordered::checkouts_at;
use crate::ordered::checkouts_insert;
use crate::ordered::checkouts_len;
use crate::ordered::lemma_push_keys;
use crate::ordered::users_at;
use crate::ordered::users_len;
use crate::records::Book;
use crate::records::same_work;
use crate::records::CheckoutInstance;
use crate::records::User;
use crate::text::append_hex;
use crate::text::hex_text;
use vstd::prelude::*;
use vstd::string::*;

verus! {

/// What was tried last while saving at shutdown.
#[derive(Debug, Clone, Copy, PartialEq, Eq, Structural)]
pub enum SaveStep {
    /// Writing the snapshot file.
    Snapshot,
    /// Writing the store as text to a file of its own, after the snapshot
    /// could not be written.
    Dump,
}

/// What to do next while saving at shutdown.
#[derive(Debug, Clone, Copy, PartialEq, Eq, Structural)]
pub enum SaveAction {
    /// The store is on disk: nothing is left to do.
    Finish,
    /// Write the store as text to a file of its own.
    WriteDump,
    /// Nothing could be written. Say so and stop: no further attempt is made.
    GiveUp,
}

/// The step to take after an attempt to save. A snapshot that could not be
/// written is followed by one attempt at a text dump, and a failure of that
/// dump ends the saving.
pub fn after_save_step(step: SaveStep, succeeded: bool) -> (action: SaveAction)
    ensures
        action == if succeeded {
            SaveAction::Finish
        } else if step == SaveStep::Snapshot {
            SaveAction::WriteDump
        } else {
            SaveAction::GiveUp
        },
{
    if succeeded {
        return SaveAction::Finish;
    }
    match step {
        SaveStep::Snapshot => SaveAction::WriteDump,
        SaveStep::Dump => SaveAction::GiveUp,
    }
}

/// The name of the file that a text dump goes to: a fixed stem, the suffix in
/// hexadecimal, and the extension.
pub open spec fn dump_file_name_text(suffix: u32) -> Seq<char> {
    "Chess-bot-DB-dump-"@ + hex_text(suffix as nat) + ".json"@
}

/// The name of the file that a text dump goes to. The caller draws the suffix
/// at random, so that a dump does not overwrite an earlier one.
pub fn dump_file_name(suffix: u32) -> (name: String)
    ensures
        name@ == dump_file_name_text(suffix),
{
    let mut name = String::from_str("Chess-bot-DB-dump-");
    append_hex(&mut name, suffix as u64);
    name.append(".json");
    name
}

/// Books under their own identifiers.
pub open spec fn keyed_books(books: Seq<Book>) -> Seq<(u32, Book)> {
    Seq::new(books.len(), |i: int| (books[i].uuid, books[i]))
}

/// Members under their own identifiers.
pub open spec fn keyed_users(users: Seq<User>) -> Seq<(u32, User)> {
    Seq::new(users.len(), |i: int| (users[i].uuid, users[i]))
}

/// Checkouts under their own identifiers.
pub open spec fn keyed_checkouts(checkouts: Seq<CheckoutInstance>) -> Seq<(u32, CheckoutInstance)> {
    Seq::new(checkouts.len(), |i: int| (checkouts[i].uuid, checkouts[i]))
}

/// The store holds exactly these records, each under its own identifier and
/// in this order.
pub open spec fn holds_records(
    db: Database,
    books: Seq<Book>,
    users: Seq<User>,
    checkouts: Seq<CheckoutInstance>,
) -> bool {
    &&& db.book_seq() == keyed_books(books)
    &&& db.user_seq() == keyed_users(users)
    &&& db.checkout_seq() == keyed_checkouts(checkouts)
}

/// What restoring some records gives: a consistent store that holds them, or
/// nothing where no store that holds them is consistent.
pub open spec fn is_restored(
    books: Seq<Book>,
    users: Seq<User>,
    checkouts: Seq<CheckoutInstance>,
    restored: Option<Database>,
) -> bool {
    match restored {
        Some(db) => db.wf() && holds_records(db, books, users, checkouts),
        None => forall|db: Database| #[trigger]
            holds_records(db, books, users, checkouts) ==> !db.wf(),
    }
}

/// The records of a consistent store, given back to `restore`, are accepted
/// and make a store with the same records in the same order.
pub proof fn lemma_restore_accepts_snapshot(db: Database, restored: Option<Database>)
    requires
        db.wf(),
        is_restored(
            db.book_seq().map_values(|e: (u32, Book)| e.1),
            db.user_seq().map_values(|e: (u32, User)| e.1),
            db.checkout_seq().map_values(|e: (u32, CheckoutInstance)| e.1),
            restored,
        ),
    ensures
        restored is Some,
        restored->Some_0.wf(),
        restored->Some_0.book_seq() == db.book_seq(),
        restored->Some_0.user_seq() == db.user_seq(),
        restored->Some_0.checkout_seq() == db.checkout_seq(),
{
    let books = db.book_seq().map_values(|e: (u32, Book)| e.1);
    let users = db.user_seq().map_values(|e: (u32, User)| e.1);
    let checkouts = db.checkout_seq().map_values(|e: (u32, CheckoutInstance)| e.1);
    assert(db.book_seq() =~= keyed_books(books)) by {
        assert forall|i: int| 0 <= i < db.book_seq().len() implies db.book_seq()[i]
            == keyed_books(books)[i] by {
            assert(db.book_seq()[i].1.uuid == db.book_seq()[i].0);
        }
    }
    assert(db.user_seq() =~= keyed_users(users)) by {
        assert forall|i: int| 0 <= i < db.user_seq().len() implies db.user_seq()[i]
            == keyed_users(users)[i] by {
            assert(db.user_seq()[i].1.uuid == db.user_seq()[i].0);
        }
    }
    assert(db.checkout_seq() =~= keyed_checkouts(checkouts)) by {
        assert forall|i: int| 0 <= i < db.checkout_seq().len() implies db.checkout_seq()[i]
            == keyed_checkouts(checkouts)[i] by {
            assert(db.checkout_seq()[i].1.uuid == db.checkout_seq()[i].0);
        }
    }
    assert(holds_records(db, books, users, checkouts));
}

/// A store whose books repeat an identifier or a work, or hold a book without
/// copies, is not consistent.
proof fn lemma_bad_book(db: Database, books: Seq<Book>, j: int, k: int)
    requires
        db.book_seq() == keyed_books(books),
        0 <= j <= k < books.len(),
        books[k].quantity < 1 || (j < k && (books[j].uuid == books[k].uuid || same_work(
            books[j],
            books[k].name@,
            books[k].author@,
        ))),
    ensures
        !db.wf(),
{
    let entries = db.book_seq();
    assert(entries[k] == (books[k].uuid, books[k]));
    assert(entries[j] == (books[j].uuid, books[j]));
    if db.wf() {
        assert(entries[k].1.quantity >= 1);
        assert(entries[j].0 != entries[k].0);
        assert(!same_work(entries[j].1, entries[k].1.name@, entries[k].1.author@));
    }
}

impl Database {
    /// The books in listing order.
    pub fn books_snapshot(&self) -> (books: Vec<Book>)
        ensures
            books@ == self.book_seq().map_values(|e: (u32, Book)| e.1),
    {
        let count = books_len(&self.books);
        let mut books: Vec<Book> = Vec::new();
        let mut i: usize = 0;
        while i < count
            invariant
                count == self.book_seq().len(),
                i <= count,
                books@ == self.book_seq().take(i as int).map_values(|e: (u32, Book)| e.1),
            decreases count - i,
        {
            if let Some((_, book)) = books_at(&self.books, i) {
                books.push(book.duplicate());
            }
            assert(books@ =~= self.book_seq().take(i + 1).map_values(|e: (u32, Book)| e.1));
            i += 1;
        }
        assert(self.book_seq().take(count as int) == self.book_seq());
        books
    }

    /// The members in listing order.
    pub fn users_snapshot(&self) -> (users: Vec<User>)
        ensures
            users@ == self.user_seq().map_values(|e: (u32, User)| e.1),
    {
        let count = users_len(&self.users);
        let mut users: Vec<User> = Vec::new();
        let mut i: usize = 0;
        while i < count
            invariant
                count == self.user_seq().len(),
                i <= count,
                users@ == self.user_seq().take(i as int).map_values(|e: (u32, User)| e.1),
            decreases count - i,
        {
            if let Some((_, user)) = users_at(&self.users, i) {
                users.push(user.duplicate());
            }
            assert(users@ =~= self.user_seq().take(i + 1).map_values(|e: (u32, User)| e.1));
            i += 1;
        }
        assert(self.user_seq().take(count as int) == self.user_seq());
        users
    }

    /// The checkouts in listing order.
    pub fn checkouts_snapshot(&self) -> (checkouts: Vec<CheckoutInstance>)
        ensures
            checkouts@ == self.checkout_seq().map_values(|e: (u32, CheckoutInstance)| e.1),
    {
        let count = checkouts_len(&self.checkouts);
        let mut checkouts: Vec<CheckoutInstance> = Vec::new();
        let mut i: usize = 0;
        while i < count
            invariant
                count == self.checkout_seq().len(),
                i <= count,
                checkouts@ == self.checkout_seq().take(i as int).map_values(
                    |e: (u32, CheckoutInstance)| e.1,
                ),
            decreases count - i,
        {
            if let Some((_, checkout)) = checkouts_at(&self.checkouts, i) {
                checkouts.push(*checkout);
            }
            assert(checkouts@ =~= self.checkout_seq().take(i + 1).map_values(
                |e: (u32, CheckoutInstance)| e.1,
            ));
            i += 1;
        }
        assert(self.checkout_seq().take(count as int) == self.checkout_seq());
        checkouts
    }

    /// Takes a checkout at whatever stage it is, last in the listing. `false`,
    /// and no change, where some record has its identifier, where its book is
    /// not in the store, and where it does not say of its approvals and its
    /// due date what its stage implies.
    fn insert_checkout(&mut self, checkout: CheckoutInstance) -> (taken: bool)
        requires
            old(self).wf(),
        ensures
            final(self).wf(),
            final(self).book_seq() == old(self).book_seq(),
            final(self).user_seq() == old(self).user_seq(),
            taken == (!old(self).holds(checkout.uuid) && old(self).has_book(checkout.book)
                && checkout.stage_consistent()),
            taken ==> final(self).checkout_seq() == old(self).checkout_seq().push(
                (checkout.uuid, checkout),
            ),
            !taken ==> *final(self) == *old(self),
    {
        if self.contains_uuid(checkout.uuid) || books_index_of(&self.books, checkout.book).is_none()
            || !checkout.is_stage_consistent() {
            return false;
        }
        let ghost before = self.checkout_seq();
        proof {
            lemma_push_keys(before, (checkout.uuid, checkout));
        }
        checkouts_insert(&mut self.checkouts, checkout.uuid, checkout);
        proof {
            let after = self.checkout_seq();
            assert(after == before.push((checkout.uuid, checkout)));
            assert forall|k: int| 0 <= k < after.len() implies (#[trigger] after[k]).1.uuid
                == after[k].0 && after[k].1.stage_consistent() && self.has_book(after[k].1.book) by {
                if k < before.len() {
                    assert(before[k].1.uuid == before[k].0 && before[k].1.stage_consistent());
                    assert(old(self).has_book(before[k].1.book));
                }
            }
            lemma_uuids_stay_unique(*old(self), *self);
        }
        true
    }

    /// Makes a store of the records of a snapshot, each list in its order.
    /// `None` where the records do not make a consistent store: an identifier
    /// occurs twice, two books are the same work, a book has no copy, a
    /// checkout refers to a book that is not there or contradicts its stage.
    pub fn restore(books: &Vec<Book>, users: &Vec<User>, checkouts: &Vec<CheckoutInstance>) -> (r:
        Option<Database>)
        ensures
            is_restored(books@, users@, checkouts@, r),
    {
        let mut db = Database::new();
        let mut i: usize = 0;
        while i < books.len()
            invariant
                db.wf(),
                i <= books.len(),
                db.book_seq() == keyed_books(books@.take(i as int)),
                db.user_seq().len() == 0,
                db.checkout_seq().len() == 0,
            decreases books.len() - i,
        {
            let book = books[i].duplicate();
            let ghost before = db;
            if db.add_book(book).is_err() {
                proof {
                    let entries = before.book_seq();
                    let j = if before.holds(book.uuid) {
                        choose|j: int| 0 <= j < entries.len() && (#[trigger] entries[j]).0 == book.uuid
                    } else if before.has_work(book.name@, book.author@) {
                        choose|j: int|
                            0 <= j < entries.len() && same_work(
                                (#[trigger] entries[j]).1,
                                book.name@,
                                book.author@,
                            )
                    } else {
                        i as int
                    };
                    if j < i {
                        assert(entries[j] == (books@[j].uuid, books@[j]));
                    }
                    assert forall|other: Database| #[trigger]
                        holds_records(other, books@, users@, checkouts@) implies !other.wf() by {
                        lemma_bad_book(other, books@, j, i as int);
                    }
                }
                return None;
            }
            assert(db.book_seq() =~= keyed_books(books@.take(i + 1)));
            i += 1;
        }
        assert(books@.take(i as int) == books@);
        let mut i: usize = 0;
        while i < users.len()
            invariant
                db.wf(),
                i <= users.len(),
                db.book_seq() == keyed_books(books@),
                db.user_seq() == keyed_users(users@.take(i as int)),
                db.checkout_seq().len() == 0,
            decreases users.len() - i,
        {
            let user = users[i].duplicate();
            let ghost before = db;
            if db.add_user(user).is_err() {
                proof {
                    assert forall|other: Database| #[trigger]
                        holds_records(other, books@, users@, checkouts@) implies !other.wf() by {
                        assert(other.user_seq()[i as int].0 == user.uuid);
                        assert(other.has_user(user.uuid));
                        if before.has_book(user.uuid) {
                            assert(other.has_book(user.uuid));
                        } else {
                            let entries = before.user_seq();
                            let j = choose|j: int|
                                0 <= j < entries.len() && (#[trigger] entries[j]).0 == user.uuid;
                            assert(entries[j] == (users@[j].uuid, users@[j]));
                            assert(other.user_seq()[j].0 == user.uuid);
                        }
                    }
                }
                return None;
            }
            assert(db.user_seq() =~= keyed_users(users@.take(i + 1)));
            i += 1;
        }
        assert(users@.take(i as int) == users@);
        let mut i: usize = 0;
        while i < checkouts.len()
            invariant
                db.wf(),
                i <= checkouts.len(),
                db.book_seq() == keyed_books(books@),
                db.user_seq() == keyed_users(users@),
                db.checkout_seq() == keyed_checkouts(checkouts@.take(i as int)),
            decreases checkouts.len() - i,
        {
            let checkout = checkouts[i];
            let ghost before = db;
            if !db.insert_checkout(checkout) {
                proof {
                    assert forall|other: Database| #[trigger]
                        holds_records(other, books@, users@, checkouts@) implies !other.wf() by {
                        assert(other.checkout_seq()[i as int] == (checkout.uuid, checkout));
                        assert(other.has_checkout(checkout.uuid));
                        if before.has_book(checkout.uuid) {
                            assert(other.has_book(checkout.uuid));
                        } else if before.has_user(checkout.uuid) {
                            assert(other.has_user(checkout.uuid));
                        } else if before.has_checkout(checkout.uuid) {
                            let entries = before.checkout_seq();
                            let j = choose|j: int|
                                0 <= j < entries.len() && (#[trigger] entries[j]).0
                                    == checkout.uuid;
                            assert(entries[j] == (checkouts@[j].uuid, checkouts@[j]));
                            assert(other.checkout_seq()[j].0 == checkout.uuid);
                        } else if !before.has_book(checkout.book) {
                            assert(!other.has_book(checkout.book));
                        }
                    }
                }
                return None;
            }
            assert(db.checkout_seq() =~= keyed_checkouts(checkouts@.take(i + 1)));
            i += 1;
        }
        assert(checkouts@.take(i as int) == checkouts@);
        Some(db)
    }
}

} // verus!
