//! The stages of a checkout and the steps between them.
//!
//! A checkout moves forward only, one stage at a time: requested, handed out,
//! reported as returned, closed. The first and the last step are an officer's
//! to confirm; the step between them is the member's own report.

use crate::records::CheckoutInstance;
use crate::records::CheckoutStatus;
use crate::records::CheckoutUuid;
use crate::records::BookUuid;
use crate::records::OfficerApproval;
use crate::records::TimeType;
use crate::records::Timestamp;
use crate::records::UserUuid;
use vstd::prelude::*;

verus! {

/// The length of a loan in seconds: seven days.
pub const LOAN_PERIOD_SECS: i64 = 604_800;

/// What an actor is entitled to do.
#[derive(Debug, Clone, Copy, PartialEq, Eq, Structural)]
pub enum Authority {
    /// A member: may report the return of a book they hold.
    Member,
    /// An officer: may confirm that a book was handed out or came back.
    Officer,
}

/// Someone who asks for a step of a checkout, with what they are entitled to.
#[derive(Debug, Clone, Copy, PartialEq, Eq, Structural)]
pub struct Actor {
    pub user: UserUuid,
    pub authority: Authority,
}

impl Actor {
    pub fn new(user: UserUuid, authority: Authority) -> (actor: Actor)
        ensures
            actor == (Actor { user, authority }),
    {
        Actor { user, authority }
    }
}

/// The place of a stage in the order of stages.
pub open spec fn stage_rank(status: CheckoutStatus) -> int {
    match status {
        CheckoutStatus::PreTransact => 0,
        CheckoutStatus::Reading => 1,
        CheckoutStatus::ReturnVerifyNeeded => 2,
        CheckoutStatus::DONE => 3,
    }
}

/// The time at which a book handed out at `now` is due.
pub open spec fn due_after(now: Timestamp) -> Timestamp {
    Timestamp { secs: (now.secs + LOAN_PERIOD_SECS) as i64, nanos: now.nanos }
}

impl CheckoutInstance {
    /// The record says of its approvals and its due date what its stage
    /// implies: nothing before the book is handed out, the hand-out and the
    /// due date from then on, the return once the checkout is closed.
    pub open spec fn stage_consistent(&self) -> bool {
        match self.status {
            CheckoutStatus::PreTransact => {
                &&& self.due_date is None
                &&& self.checkout_approval is None
                &&& self.checkin_approval is None
            },
            CheckoutStatus::Reading | CheckoutStatus::ReturnVerifyNeeded => {
                &&& self.due_date is Some
                &&& self.checkout_approval is Some
                &&& self.checkin_approval is None
            },
            CheckoutStatus::DONE => {
                &&& self.due_date is Some
                &&& self.checkout_approval is Some
                &&& self.checkin_approval is Some
            },
        }
    }

    /// An officer other than the rentee may confirm a step of this checkout.
    pub open spec fn may_approve(&self, actor: Actor) -> bool {
        actor.authority == Authority::Officer && actor.user != self.rentee
    }

    /// The checkout as a member's request opens it.
    pub open spec fn requested(uuid: CheckoutUuid, rentee: UserUuid, book: BookUuid) -> CheckoutInstance {
        CheckoutInstance {
            uuid,
            rentee,
            book,
            status: CheckoutStatus::PreTransact,
            due_date: None,
            checkout_approval: None,
            checkin_approval: None,
        }
    }

    /// The checkout once `approver` has confirmed at `now` that the book was
    /// handed out.
    pub open spec fn handed_out(&self, approver: UserUuid, now: TimeType) -> CheckoutInstance {
        CheckoutInstance {
            status: CheckoutStatus::Reading,
            due_date: Some(due_after(now)),
            checkout_approval: Some(OfficerApproval { user: approver, time: now }),
            ..*self
        }
    }

    /// The checkout once the rentee has reported the book as returned.
    pub open spec fn reported_returned(&self) -> CheckoutInstance {
        CheckoutInstance { status: CheckoutStatus::ReturnVerifyNeeded, ..*self }
    }

    /// The checkout once `approver` has confirmed at `now` that the book came
    /// back.
    pub open spec fn closed(&self, approver: UserUuid, now: TimeType) -> CheckoutInstance {
        CheckoutInstance {
            status: CheckoutStatus::DONE,
            checkin_approval: Some(OfficerApproval { user: approver, time: now }),
            ..*self
        }
    }

    /// What the confirmation of the hand-out by `approver` at `now` makes of
    /// the checkout: the step is taken from the first stage, by an officer
    /// other than the rentee, and by nobody else and from no other stage.
    pub open spec fn after_handout(&self, approver: Actor, now: TimeType) -> Option<
        CheckoutInstance,
    > {
        if self.status == CheckoutStatus::PreTransact && self.may_approve(approver) {
            Some(self.handed_out(approver.user, now))
        } else {
            None
        }
    }

    /// What the report of the return by `actor` makes of the checkout: the
    /// step is taken while the book is out, by the rentee, and by nobody else
    /// and from no other stage.
    pub open spec fn after_report(&self, actor: UserUuid) -> Option<CheckoutInstance> {
        if self.status == CheckoutStatus::Reading && actor == self.rentee {
            Some(self.reported_returned())
        } else {
            None
        }
    }

    /// What the confirmation of the return by `approver` at `now` makes of the
    /// checkout: the step is taken once the return is reported, by an officer
    /// other than the rentee, and by nobody else and from no other stage.
    pub open spec fn after_return(&self, approver: Actor, now: TimeType) -> Option<
        CheckoutInstance,
    > {
        if self.status == CheckoutStatus::ReturnVerifyNeeded && self.may_approve(approver) {
            Some(self.closed(approver.user, now))
        } else {
            None
        }
    }

    /// Whether the record says of its approvals and its due date what its
    /// stage implies.
    pub fn is_stage_consistent(&self) -> (consistent: bool)
        ensures
            consistent == self.stage_consistent(),
    {
        match self.status {
            CheckoutStatus::PreTransact => self.due_date.is_none()
                && self.checkout_approval.is_none() && self.checkin_approval.is_none(),
            CheckoutStatus::Reading | CheckoutStatus::ReturnVerifyNeeded => self.due_date.is_some()
                && self.checkout_approval.is_some() && self.checkin_approval.is_none(),
            CheckoutStatus::DONE => self.due_date.is_some() && self.checkout_approval.is_some()
                && self.checkin_approval.is_some(),
        }
    }

    /// Opens a checkout: nothing has changed hands, nothing is approved and no
    /// date is set.
    pub fn request(uuid: CheckoutUuid, rentee: UserUuid, book: BookUuid) -> (checkout:
        CheckoutInstance)
        ensures
            checkout == CheckoutInstance::requested(uuid, rentee, book),
    {
        CheckoutInstance {
            uuid,
            rentee,
            book,
            status: CheckoutStatus::PreTransact,
            due_date: None,
            checkout_approval: None,
            checkin_approval: None,
        }
    }

    /// The hand-out of the book, confirmed by `approver` at `now`: the loan
    /// runs from `now` and the book is due seven days later. `None` unless the
    /// checkout is a request that has not been served and `approver` is an
    /// officer other than the rentee.
    pub fn approve_handout(&self, approver: Actor, now: TimeType) -> (next: Option<
        CheckoutInstance,
    >)
        requires
            now.secs + LOAN_PERIOD_SECS <= i64::MAX,
        ensures
            next == self.after_handout(approver, now),
    {
        match self.status {
            CheckoutStatus::PreTransact => {},
            _ => {
                return None;
            },
        }
        match approver.authority {
            Authority::Officer => {},
            Authority::Member => {
                return None;
            },
        }
        if approver.user == self.rentee {
            return None;
        }
        Some(
            CheckoutInstance {
                uuid: self.uuid,
                rentee: self.rentee,
                book: self.book,
                status: CheckoutStatus::Reading,
                due_date: Some(Timestamp { secs: now.secs + LOAN_PERIOD_SECS, nanos: now.nanos }),
                checkout_approval: Some(OfficerApproval { user: approver.user, time: now }),
                checkin_approval: self.checkin_approval,
            },
        )
    }

    /// The rentee's report that the book went back. `None` unless the book is
    /// out on this checkout and it is the rentee who reports.
    pub fn report_return(&self, actor: UserUuid) -> (next: Option<CheckoutInstance>)
        ensures
            next == self.after_report(actor),
    {
        match self.status {
            CheckoutStatus::Reading => {},
            _ => {
                return None;
            },
        }
        if actor != self.rentee {
            return None;
        }
        Some(
            CheckoutInstance {
                uuid: self.uuid,
                rentee: self.rentee,
                book: self.book,
                status: CheckoutStatus::ReturnVerifyNeeded,
                due_date: self.due_date,
                checkout_approval: self.checkout_approval,
                checkin_approval: self.checkin_approval,
            },
        )
    }

    /// The return of the book, confirmed by `approver` at `now`, which closes
    /// the checkout. `None` unless the rentee has reported the return and
    /// `approver` is an officer other than the rentee.
    pub fn approve_return(&self, approver: Actor, now: TimeType) -> (next: Option<
        CheckoutInstance,
    >)
        ensures
            next == self.after_return(approver, now),
    {
        match self.status {
            CheckoutStatus::ReturnVerifyNeeded => {},
            _ => {
                return None;
            },
        }
        match approver.authority {
            Authority::Officer => {},
            Authority::Member => {
                return None;
            },
        }
        if approver.user == self.rentee {
            return None;
        }
        Some(
            CheckoutInstance {
                uuid: self.uuid,
                rentee: self.rentee,
                book: self.book,
                status: CheckoutStatus::DONE,
                due_date: self.due_date,
                checkout_approval: self.checkout_approval,
                checkin_approval: Some(OfficerApproval { user: approver.user, time: now }),
            },
        )
    }
}

/// One step of a checkout leads to `next`.
pub open spec fn is_step(checkout: CheckoutInstance, next: CheckoutInstance) -> bool {
    ||| exists|approver: Actor, now: TimeType| checkout.after_handout(approver, now) == Some(next)
    ||| exists|actor: UserUuid| checkout.after_report(actor) == Some(next)
    ||| exists|approver: Actor, now: TimeType| checkout.after_return(approver, now) == Some(next)
}

/// Every step leads to the next stage and to no other: no stage is skipped,
/// none is gone back to, and a closed checkout takes no step. The step leaves
/// the identifier, the rentee and the book as they were, and what the record
/// says of its approvals and its due date stays in keeping with its stage.
pub proof fn lemma_steps_go_forward(checkout: CheckoutInstance, next: CheckoutInstance)
    requires
        checkout.stage_consistent(),
        is_step(checkout, next),
    ensures
        stage_rank(next.status) == stage_rank(checkout.status) + 1,
        checkout.status != CheckoutStatus::DONE,
        next.stage_consistent(),
        next.uuid == checkout.uuid,
        next.rentee == checkout.rentee,
        next.book == checkout.book,
{
}

/// A requested checkout is in the first stage, and what it says is in keeping
/// with that stage.
pub proof fn lemma_request_starts_first(uuid: CheckoutUuid, rentee: UserUuid, book: BookUuid)
    ensures
        CheckoutInstance::requested(uuid, rentee, book).status == CheckoutStatus::PreTransact,
        CheckoutInstance::requested(uuid, rentee, book).stage_consistent(),
{
}

} // verus!
