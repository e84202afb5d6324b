//! The checkouts of the store: a member's request, and the three steps that
//! take a checkout to its close.

use crate::codec::encoded_text;
use crate::library::lemma_uuids_stay_unique;
use crate::library::Database;
use crate::lifecycle::Actor;
use crate::lifecycle::LOAN_PERIOD_SECS;
use crate::ordered::checkouts_at;
use crate::ordered::checkouts_index_of;
use crate::ordered::checkouts_insert;
use crate::ordered::books_index_of;
use crate::ordered::lemma_position;
use crate::ordered::lemma_push_keys;
use crate::ordered::lemma_update_keys;
use crate::ordered::position;
use crate::records::BookUuid;
use crate::records::CheckoutInstance;
use crate::records::CheckoutUuid;
use crate::records::ManipulationError;
use crate::records::ManipulationErrorType;
use crate::records::TimeType;
use crate::records::UserUuid;
use vstd::prelude::*;

verus! {

impl Database {
    /// `after` is this store with the checkout `uuid` replaced by `next`, in
    /// its place, and nothing else changed.
    pub open spec fn stepped(&self, after: Database, uuid: CheckoutUuid, next: CheckoutInstance) -> bool {
        &&& after.checkout_seq() == self.checkout_seq().update(
            position(self.checkout_seq(), uuid),
            (uuid, next),
        )
        &&& after.book_seq() == self.book_seq()
        &&& after.user_seq() == self.user_seq()
    }

    /// `error` is the report of a step of the checkout `uuid` that was not
    /// taken, and `after` is this store unchanged. The checkout is unknown, or
    /// the step is not `allowed` in its stage or to the one who asked.
    pub open spec fn refused(
        &self,
        after: Database,
        uuid: CheckoutUuid,
        error: ManipulationError,
        allowed: bool,
    ) -> bool {
        &&& after == *self
        &&& match error.0 {
            ManipulationErrorType::UnknownCheckout(what) => !self.has_checkout(uuid) && what@
                == encoded_text(uuid),
            ManipulationErrorType::IllegalTransition(what) => self.has_checkout(uuid) && !allowed
                && what@ == encoded_text(uuid),
            _ => false,
        }
    }

    /// The checkout with this identifier.
    pub fn get_checkout(&self, uuid: CheckoutUuid) -> (r: Option<&CheckoutInstance>)
        ensures
            match r {
                Some(checkout) => exists|i: int|
                    0 <= i < self.checkout_seq().len() && #[trigger] self.checkout_seq()[i] == (
                        uuid,
                        *checkout,
                    ),
                None => !self.has_checkout(uuid),
            },
    {
        match checkouts_index_of(&self.checkouts, uuid) {
            None => None,
            Some(i) => match checkouts_at(&self.checkouts, i) {
                Some((_, checkout)) => {
                    assert(self.checkout_seq()[i as int] == (uuid, *checkout));
                    Some(checkout)
                },
                None => None,
            },
        }
    }

    fn current_checkout(&self, uuid: CheckoutUuid) -> (r: Option<CheckoutInstance>)
        requires
            self.wf(),
        ensures
            match r {
                Some(checkout) => self.has_checkout(uuid) && checkout == self.checkout_of(uuid),
                None => !self.has_checkout(uuid),
            },
    {
        match checkouts_index_of(&self.checkouts, uuid) {
            None => None,
            Some(i) => match checkouts_at(&self.checkouts, i) {
                Some((_, checkout)) => {
                    proof {
                        lemma_position(self.checkout_seq(), i as int);
                    }
                    Some(*checkout)
                },
                None => None,
            },
        }
    }

    fn store_step(&mut self, uuid: CheckoutUuid, next: CheckoutInstance)
        requires
            old(self).wf(),
            old(self).has_checkout(uuid),
            next.uuid == uuid,
            next.book == old(self).checkout_of(uuid).book,
            next.stage_consistent(),
        ensures
            final(self).wf(),
            old(self).stepped(*final(self), uuid, next),
    {
        let ghost before = self.checkout_seq();
        let ghost at = position(before, uuid);
        proof {
            lemma_position(before, at);
            lemma_update_keys(before, at, next);
        }
        let replaced = checkouts_insert(&mut self.checkouts, uuid, next);
        proof {
            let after = self.checkout_seq();
            let old_value = replaced->Some_0;
            let i = choose|i: int|
                0 <= i < before.len() && #[trigger] before[i] == (uuid, old_value) && after
                    == before.update(i, (uuid, next));
            lemma_position(before, i);
            assert(after == before.update(at, (uuid, next)));
            assert forall|k: int| 0 <= k < after.len() implies (#[trigger] after[k]).1.uuid
                == after[k].0 && after[k].1.stage_consistent() && self.has_book(after[k].1.book) by {
                assert(before[k].1.uuid == before[k].0 && before[k].1.stage_consistent());
                assert(old(self).has_book(before[k].1.book));
            }
            lemma_uuids_stay_unique(*old(self), *self);
        }
    }

    /// Opens a checkout of `book` for `rentee` under the identifier `uuid`, in
    /// its first stage. The request is refused where some record already has
    /// `uuid`, and else where the store has no such book.
    pub fn request_checkout(&mut self, uuid: CheckoutUuid, rentee: UserUuid, book: BookUuid) -> (r:
        Result<(), ManipulationError>)
        requires
            old(self).wf(),
        ensures
            final(self).wf(),
            match r {
                Ok(()) => {
                    &&& !old(self).holds(uuid)
                    &&& old(self).has_book(book)
                    &&& final(self).checkout_seq() == old(self).checkout_seq().push(
                        (uuid, CheckoutInstance::requested(uuid, rentee, book)),
                    )
                    &&& final(self).book_seq() == old(self).book_seq()
                    &&& final(self).user_seq() == old(self).user_seq()
                },
                Err(e) => {
                    &&& *final(self) == *old(self)
                    &&& match e.0 {
                        ManipulationErrorType::AlreadyAdded(what) => old(self).holds(uuid) && what@
                            == encoded_text(uuid),
                        ManipulationErrorType::UnknownBook(what) => !old(self).holds(uuid)
                            && !old(self).has_book(book) && what@ == encoded_text(book),
                        _ => false,
                    }
                },
            },
    {
        if self.contains_uuid(uuid) {
            return Err(
                ManipulationError::new(
                    ManipulationErrorType::AlreadyAdded(Database::encode_uuid(uuid)),
                ),
            );
        }
        if books_index_of(&self.books, book).is_none() {
            return Err(
                ManipulationError::new(
                    ManipulationErrorType::UnknownBook(Database::encode_uuid(book)),
                ),
            );
        }
        let checkout = CheckoutInstance::request(uuid, rentee, book);
        let ghost before = self.checkout_seq();
        proof {
            lemma_push_keys(before, (uuid, checkout));
        }
        checkouts_insert(&mut self.checkouts, uuid, checkout);
        proof {
            let after = self.checkout_seq();
            assert(after == before.push((uuid, checkout)));
            assert forall|k: int| 0 <= k < after.len() implies (#[trigger] after[k]).1.uuid
                == after[k].0 && after[k].1.stage_consistent() && self.has_book(after[k].1.book) by {
                if k < before.len() {
                    assert(before[k].1.uuid == before[k].0 && before[k].1.stage_consistent());
                    assert(old(self).has_book(before[k].1.book));
                }
            }
            lemma_uuids_stay_unique(*old(self), *self);
        }
        Ok(())
    }

    /// An officer's confirmation that the book of a requested checkout was
    /// handed out. The loan runs from `now`; the book is due seven days later.
    /// The step is refused unless the checkout is in its first stage and
    /// `approver` is an officer other than the rentee.
    pub fn approve_checkout(&mut self, uuid: CheckoutUuid, approver: Actor, now: TimeType) -> (r:
        Result<(), ManipulationError>)
        requires
            old(self).wf(),
            now.secs + LOAN_PERIOD_SECS <= i64::MAX,
        ensures
            final(self).wf(),
            ({
                let next = old(self).checkout_of(uuid).after_handout(approver, now);
                match r {
                    Ok(()) => old(self).has_checkout(uuid) && next is Some && old(self).stepped(
                        *final(self),
                        uuid,
                        next->Some_0,
                    ),
                    Err(e) => old(self).refused(*final(self), uuid, e, next is Some),
                }
            }),
    {
        let current = match self.current_checkout(uuid) {
            None => {
                return Err(
                    ManipulationError::new(
                        ManipulationErrorType::UnknownCheckout(Database::encode_uuid(uuid)),
                    ),
                );
            },
            Some(checkout) => checkout,
        };
        proof {
            lemma_position(self.checkout_seq(), position(self.checkout_seq(), uuid));
        }
        match current.approve_handout(approver, now) {
            None => Err(
                ManipulationError::new(
                    ManipulationErrorType::IllegalTransition(Database::encode_uuid(uuid)),
                ),
            ),
            Some(next) => {
                self.store_step(uuid, next);
                Ok(())
            },
        }
    }

    /// The rentee's report that the book went back to an officer. The step is
    /// refused unless the book is out on this checkout and `actor` is its
    /// rentee.
    pub fn report_return(&mut self, uuid: CheckoutUuid, actor: UserUuid) -> (r: Result<
        (),
        ManipulationError,
    >)
        requires
            old(self).wf(),
        ensures
            final(self).wf(),
            ({
                let next = old(self).checkout_of(uuid).after_report(actor);
                match r {
                    Ok(()) => old(self).has_checkout(uuid) && next is Some && old(self).stepped(
                        *final(self),
                        uuid,
                        next->Some_0,
                    ),
                    Err(e) => old(self).refused(*final(self), uuid, e, next is Some),
                }
            }),
    {
        let current = match self.current_checkout(uuid) {
            None => {
                return Err(
                    ManipulationError::new(
                        ManipulationErrorType::UnknownCheckout(Database::encode_uuid(uuid)),
                    ),
                );
            },
            Some(checkout) => checkout,
        };
        proof {
            lemma_position(self.checkout_seq(), position(self.checkout_seq(), uuid));
        }
        match current.report_return(actor) {
            None => Err(
                ManipulationError::new(
                    ManipulationErrorType::IllegalTransition(Database::encode_uuid(uuid)),
                ),
            ),
            Some(next) => {
                self.store_step(uuid, next);
                Ok(())
            },
        }
    }

    /// An officer's confirmation that the book came back, which closes the
    /// checkout. The step is refused unless the rentee has reported the return
    /// and `approver` is an officer other than the rentee.
    pub fn approve_checkin(&mut self, uuid: CheckoutUuid, approver: Actor, now: TimeType) -> (r:
        Result<(), ManipulationError>)
        requires
            old(self).wf(),
        ensures
            final(self).wf(),
            ({
                let next = old(self).checkout_of(uuid).after_return(approver, now);
                match r {
                    Ok(()) => old(self).has_checkout(uuid) && next is Some && old(self).stepped(
                        *final(self),
                        uuid,
                        next->Some_0,
                    ),
                    Err(e) => old(self).refused(*final(self), uuid, e, next is Some),
                }
            }),
    {
        let current = match self.current_checkout(uuid) {
            None => {
                return Err(
                    ManipulationError::new(
                        ManipulationErrorType::UnknownCheckout(Database::encode_uuid(uuid)),
                    ),
                );
            },
            Some(checkout) => checkout,
        };
        proof {
            lemma_position(self.checkout_seq(), position(self.checkout_seq(), uuid));
        }
        match current.approve_return(approver, now) {
            None => Err(
                ManipulationError::new(
                    ManipulationErrorType::IllegalTransition(Database::encode_uuid(uuid)),
                ),
            ),
            Some(next) => {
                self.store_step(uuid, next);
                Ok(())
            },
        }
    }
}

} // verus!
