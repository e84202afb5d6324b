//! What members ask of the store by name: the listing of the books, a change
//! to the number of copies, the removal of a book, and their own registration.

use crate::codec::encoded_text;
use crate::library::Database;
use crate::ordered::books_at;
use crate::ordered::books_len;
use crate::ordered::books_quantity_mut;
use crate::ordered::lemma_position;
use crate::ordered::with_quantity;
use crate::library::lemma_quantity_edit_keeps_wf;
use crate::records::Book;
use crate::records::BookUuid;
use crate::records::ManipulationError;
use crate::records::ManipulationErrorType;
use crate::records::User;
use crate::records::UserUuid;
use crate::text::append_decimal;
use crate::text::decimal_text;
use vstd::prelude::*;
use vstd::string::*;

verus! {

/// The line of the listing for one book: title, author and identifier, and
/// the number of copies where there is more than one.
pub open spec fn book_line(book: Book) -> Seq<char> {
    "\n  *"@ + book.name@ + "* by "@ + book.author@ + " - "@ + encoded_text(book.uuid) + (
    if book.quantity > 1 {
        " | quantity "@ + decimal_text(book.quantity as nat)
    } else {
        Seq::empty()
    })
}

/// The lines of the listing for some books, in their order.
pub open spec fn book_lines(entries: Seq<(u32, Book)>) -> Seq<char>
    decreases entries.len(),
{
    if entries.len() == 0 {
        Seq::empty()
    } else {
        book_lines(entries.drop_last()) + book_line(entries.last().1)
    }
}

impl Database {
    /// The listing of the books: their number, then a line for each in
    /// insertion order.
    pub open spec fn listing(&self) -> Seq<char> {
        "The library contains "@ + decimal_text(self.book_seq().len()) + " book(s):"@ + book_lines(
            self.book_seq(),
        )
    }

    /// Writes the listing of the books.
    pub fn list_books(&self) -> (text: String)
        ensures
            text@ == self.listing(),
    {
        let count = books_len(&self.books);
        let mut text = String::from_str("The library contains ");
        append_decimal(&mut text, count as u64);
        text.append(" book(s):");
        let ghost head = text@;
        let mut i: usize = 0;
        while i < count
            invariant
                count == self.book_seq().len(),
                i <= count,
                text@ == head + book_lines(self.book_seq().take(i as int)),
            decreases count - i,
        {
            proof {
                let upto = self.book_seq().take(i + 1);
                assert(upto.drop_last() == self.book_seq().take(i as int));
                assert(upto.last() == self.book_seq()[i as int]);
            }
            if let Some((_, book)) = books_at(&self.books, i) {
                let ghost before = text@;
                let code = Database::encode_uuid(book.uuid);
                text.append("\n  *");
                text.append(book.name.as_str());
                text.append("* by ");
                text.append(book.author.as_str());
                text.append(" - ");
                text.append(code.as_str());
                if book.quantity > 1 {
                    text.append(" | quantity ");
                    append_decimal(&mut text, book.quantity as u64);
                }
                assert(text@ =~= before + book_line(*book));
                assert(before + book_line(*book) =~= head + (book_lines(
                    self.book_seq().take(i as int),
                ) + book_line(*book)));
            }
            i += 1;
        }
        assert(self.book_seq().take(count as int) == self.book_seq());
        text
    }

    /// Sets the number of copies of the book that `input` asks for, and says
    /// which book that is. Where the store has no such book, and where the
    /// book would be left without a copy, nothing changes and the error
    /// carries `input`.
    pub fn set_quantity(&mut self, input: &String, new_quantity: u32) -> (r: Result<
        BookUuid,
        ManipulationError,
    >)
        requires
            old(self).wf(),
        ensures
            final(self).wf(),
            match r {
                Ok(uuid) => {
                    &&& new_quantity >= 1
                    &&& exists|i: int|
                        {
                            &&& #[trigger] old(self).resolves_to(input@, i)
                            &&& old(self).book_seq()[i].0 == uuid
                            &&& final(self).book_seq() == with_quantity(
                                old(self).book_seq(),
                                i,
                                new_quantity,
                            )
                        }
                    &&& final(self).user_seq() == old(self).user_seq()
                    &&& final(self).checkout_seq() == old(self).checkout_seq()
                },
                Err(e) => {
                    &&& *final(self) == *old(self)
                    &&& match e.0 {
                        ManipulationErrorType::UnknownBook(what) => !old(self).resolves(input@)
                            && what@ == input@,
                        ManipulationErrorType::NoCopies(what) => old(self).resolves(input@)
                            && new_quantity == 0 && what@ == input@,
                        _ => false,
                    }
                },
            },
    {
        let found = self.find_book(input.as_str());
        let i = match found {
            None => {
                return Err(
                    ManipulationError::new(ManipulationErrorType::UnknownBook(input.clone())),
                );
            },
            Some(i) => i,
        };
        if new_quantity < 1 {
            return Err(ManipulationError::new(ManipulationErrorType::NoCopies(input.clone())));
        }
        let uuid = match books_at(&self.books, i) {
            Some((key, _)) => *key,
            None => 0,
        };
        match books_quantity_mut(&mut self.books, i) {
            Some(quantity) => {
                *quantity = new_quantity;
            },
            None => {},
        }
        proof {
            lemma_quantity_edit_keeps_wf(*old(self), *self, i as int, new_quantity);
        }
        Ok(uuid)
    }

    /// Removes the book that `input` asks for and hands it back. Where the
    /// store has no such book the error carries `input`; while checkouts refer
    /// to the book it stays, and the error lists them.
    pub fn remove_book_from_input(&mut self, input: &String) -> (r: Result<Book, ManipulationError>)
        requires
            old(self).wf(),
        ensures
            final(self).wf(),
            match r {
                Ok(book) => {
                    &&& exists|i: int|
                        {
                            &&& #[trigger] old(self).resolves_to(input@, i)
                            &&& old(self).book_seq()[i] == (book.uuid, book)
                            &&& old(self).referring_checkouts(book.uuid).len() == 0
                            &&& final(self).book_seq() == old(self).book_seq().remove(i)
                        }
                    &&& final(self).user_seq() == old(self).user_seq()
                    &&& final(self).checkout_seq() == old(self).checkout_seq()
                },
                Err(e) => {
                    &&& *final(self) == *old(self)
                    &&& match e.0 {
                        ManipulationErrorType::UnknownBook(what) => !old(self).resolves(input@)
                            && what@ == input@,
                        ManipulationErrorType::OutstandingBooksNonReturned(ids) => ids@.len() > 0
                            && exists|i: int|
                            #[trigger] old(self).resolves_to(input@, i) && ids@
                                == old(self).referring_checkouts(old(self).book_seq()[i].0),
                        _ => false,
                    }
                },
            },
    {
        let found = self.find_book(input.as_str());
        let i = match found {
            None => {
                return Err(
                    ManipulationError::new(ManipulationErrorType::UnknownBook(input.clone())),
                );
            },
            Some(i) => i,
        };
        let uuid = match books_at(&self.books, i) {
            Some((key, _)) => *key,
            None => 0,
        };
        proof {
            lemma_position(self.book_seq(), i as int);
        }
        let removed = self.remove_book(uuid);
        proof {
            if removed is Ok {
                let book = removed->Ok_0;
                let j = choose|j: int|
                    0 <= j < old(self).book_seq().len() && #[trigger] old(self).book_seq()[j] == (
                        uuid,
                        book,
                    ) && self.book_seq() == old(self).book_seq().remove(j);
                lemma_position(old(self).book_seq(), j);
                assert(j == i);
            }
        }
        removed
    }

    /// The identifier of the member whom the chat platform knows under this
    /// identity. Someone who is not yet a member becomes one, under a new
    /// identifier and the given name, and comes last in the listing. `None`,
    /// and no change, where that would take an identifier and none is free.
    pub fn register_user(&mut self, discord_id: String, read_name: String) -> (r: Option<UserUuid>)
        requires
            old(self).wf(),
        ensures
            final(self).wf(),
            final(self).book_seq() == old(self).book_seq(),
            final(self).checkout_seq() == old(self).checkout_seq(),
            match r {
                Some(uuid) => if old(self).knows(discord_id@) {
                    &&& *final(self) == *old(self)
                    &&& exists|i: int|
                        #[trigger] old(self).first_known_at(discord_id@, i) && old(
                            self,
                        ).user_seq()[i].1.uuid == uuid
                } else {
                    &&& old(self).is_free(uuid)
                    &&& final(self).user_seq() == old(self).user_seq().push(
                        (uuid, (User { discord_id, read_name, uuid })),
                    )
                },
                None => {
                    &&& *final(self) == *old(self)
                    &&& !old(self).knows(discord_id@)
                    &&& !old(self).has_free_uuid()
                },
            },
    {
        if let Some(user) = self.find_user(&discord_id) {
            return Some(user.uuid);
        }
        let uuid = match self.mint() {
            None => {
                return None;
            },
            Some(uuid) => uuid,
        };
        let added = self.add_user(User::new(discord_id, read_name, uuid));
        Some(uuid)
    }
}

} // verus!
