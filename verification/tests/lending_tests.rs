use book_lending::library::Database;
use book_lending::lifecycle::{Actor, Authority, LOAN_PERIOD_SECS};
use book_lending::records::{
    Book, CheckoutInstance, CheckoutStatus, ManipulationError, ManipulationErrorType,
    OfficerApproval, Timestamp, User,
};

const BOOK: u32 = 0x1000_0001;
const RENTEE: u32 = 0x2000_0001;
const OFFICER: u32 = 0x2000_0002;
const CHECKOUT: u32 = 0x1234_5678;

fn store() -> Database {
    let mut db = Database::new();
    db.add_book(Book::new(BOOK, "Chess Basics".to_string(), "A. Author".to_string(), 1)).unwrap();
    db.add_user(User::new("1001".to_string(), "Ann".to_string(), RENTEE)).unwrap();
    db.add_user(User::new("1002".to_string(), "Bob".to_string(), OFFICER)).unwrap();
    db
}

fn officer() -> Actor {
    Actor::new(OFFICER, Authority::Officer)
}

fn at(secs: i64) -> Timestamp {
    Timestamp::new(secs, 250)
}

fn is_illegal(result: Result<(), ManipulationError>) -> bool {
    match result {
        Err(ManipulationError(ManipulationErrorType::IllegalTransition(what))) => what == "CI2FM6A",
        _ => false,
    }
}

fn status(db: &Database) -> CheckoutStatus {
    db.get_checkout(CHECKOUT).unwrap().status
}

#[test]
fn request_opens_a_checkout_in_its_first_stage() {
    let mut db = store();
    db.request_checkout(CHECKOUT, RENTEE, BOOK).unwrap();
    assert_eq!(db.checkout_count(), 1);
    let checkout = *db.get_checkout(CHECKOUT).unwrap();
    assert_eq!(
        checkout,
        CheckoutInstance {
            uuid: CHECKOUT,
            rentee: RENTEE,
            book: BOOK,
            status: CheckoutStatus::PreTransact,
            due_date: None,
            checkout_approval: None,
            checkin_approval: None,
        }
    );
    assert_eq!(checkout, CheckoutInstance::request(CHECKOUT, RENTEE, BOOK));
    assert_eq!(db.checkout_at(0), Some(&checkout));
    assert!(db.checkout_at(1).is_none());
}

#[test]
fn request_needs_a_new_identifier_and_a_known_book() {
    let mut db = store();
    match db.request_checkout(BOOK, RENTEE, BOOK) {
        Err(ManipulationError(ManipulationErrorType::AlreadyAdded(what))) => {
            assert_eq!(what, Database::encode_uuid(BOOK))
        }
        other => panic!("expected AlreadyAdded, got {:?}", other),
    }
    match db.request_checkout(CHECKOUT, RENTEE, 0x1000_0009) {
        Err(ManipulationError(ManipulationErrorType::UnknownBook(what))) => {
            assert_eq!(what, Database::encode_uuid(0x1000_0009))
        }
        other => panic!("expected UnknownBook, got {:?}", other),
    }
    assert_eq!(db.checkout_count(), 0);
    db.request_checkout(CHECKOUT, RENTEE, BOOK).unwrap();
    assert!(db.request_checkout(CHECKOUT, RENTEE, BOOK).is_err());
    assert_eq!(db.checkout_count(), 1);
}

#[test]
fn lifecycle_runs_through_its_four_stages() {
    let mut db = store();
    db.request_checkout(CHECKOUT, RENTEE, BOOK).unwrap();
    assert_eq!(status(&db), CheckoutStatus::PreTransact);

    // A return cannot be confirmed before the book was handed out.
    assert!(is_illegal(db.approve_checkin(CHECKOUT, officer(), at(1000))));
    assert!(is_illegal(db.report_return(CHECKOUT, RENTEE)));
    assert_eq!(status(&db), CheckoutStatus::PreTransact);

    db.approve_checkout(CHECKOUT, officer(), at(1_600_000_000)).unwrap();
    let checkout = *db.get_checkout(CHECKOUT).unwrap();
    assert_eq!(checkout.status, CheckoutStatus::Reading);
    assert_eq!(checkout.due_date, Some(Timestamp::new(1_600_000_000 + 7 * 24 * 60 * 60, 250)));
    assert_eq!(checkout.checkout_approval, Some(OfficerApproval::new(OFFICER, at(1_600_000_000))));
    assert_eq!(checkout.checkin_approval, None);
    assert!(is_illegal(db.approve_checkout(CHECKOUT, officer(), at(1_600_000_001))));
    assert!(is_illegal(db.approve_checkin(CHECKOUT, officer(), at(1_600_000_001))));

    db.report_return(CHECKOUT, RENTEE).unwrap();
    let reported = *db.get_checkout(CHECKOUT).unwrap();
    assert_eq!(reported.status, CheckoutStatus::ReturnVerifyNeeded);
    assert_eq!(reported.due_date, checkout.due_date);
    assert_eq!(reported.checkout_approval, checkout.checkout_approval);
    assert!(is_illegal(db.report_return(CHECKOUT, RENTEE)));
    assert!(is_illegal(db.approve_checkout(CHECKOUT, officer(), at(1_600_000_002))));

    db.approve_checkin(CHECKOUT, officer(), at(1_600_500_000)).unwrap();
    let closed = *db.get_checkout(CHECKOUT).unwrap();
    assert_eq!(
        closed,
        CheckoutInstance {
            uuid: CHECKOUT,
            rentee: RENTEE,
            book: BOOK,
            status: CheckoutStatus::DONE,
            due_date: Some(Timestamp::new(1_600_604_800, 250)),
            checkout_approval: Some(OfficerApproval::new(OFFICER, at(1_600_000_000))),
            checkin_approval: Some(OfficerApproval::new(OFFICER, at(1_600_500_000))),
        }
    );

    // A closed checkout takes no further step.
    assert!(is_illegal(db.approve_checkout(CHECKOUT, officer(), at(1_600_600_000))));
    assert!(is_illegal(db.report_return(CHECKOUT, RENTEE)));
    assert!(is_illegal(db.approve_checkin(CHECKOUT, officer(), at(1_600_600_000))));
    assert_eq!(*db.get_checkout(CHECKOUT).unwrap(), closed);
    assert_eq!(db.checkout_count(), 1);
}

#[test]
fn loan_period_is_seven_days() {
    assert_eq!(LOAN_PERIOD_SECS, 604_800);
    let request = CheckoutInstance::request(CHECKOUT, RENTEE, BOOK);
    let out = request.approve_handout(officer(), Timestamp::new(-5, 999_999_999)).unwrap();
    assert_eq!(out.due_date, Some(Timestamp::new(604_795, 999_999_999)));
    let out = request.approve_handout(officer(), Timestamp::new(i64::MAX - 604_800, 0)).unwrap();
    assert_eq!(out.due_date, Some(Timestamp::new(i64::MAX, 0)));
}

#[test]
fn approvals_need_an_officer_who_is_not_the_rentee() {
    let mut db = store();
    db.request_checkout(CHECKOUT, RENTEE, BOOK).unwrap();
    assert!(is_illegal(db.approve_checkout(CHECKOUT, Actor::new(OFFICER, Authority::Member), at(10))));
    assert!(is_illegal(db.approve_checkout(CHECKOUT, Actor::new(RENTEE, Authority::Member), at(10))));
    assert!(is_illegal(db.approve_checkout(CHECKOUT, Actor::new(RENTEE, Authority::Officer), at(10))));
    assert_eq!(*db.get_checkout(CHECKOUT).unwrap(), CheckoutInstance::request(CHECKOUT, RENTEE, BOOK));
    db.approve_checkout(CHECKOUT, officer(), at(10)).unwrap();
    db.report_return(CHECKOUT, RENTEE).unwrap();
    assert!(is_illegal(db.approve_checkin(CHECKOUT, Actor::new(OFFICER, Authority::Member), at(20))));
    assert!(is_illegal(db.approve_checkin(CHECKOUT, Actor::new(RENTEE, Authority::Officer), at(20))));
    assert_eq!(status(&db), CheckoutStatus::ReturnVerifyNeeded);
    db.approve_checkin(CHECKOUT, Actor::new(0x2000_0009, Authority::Officer), at(20)).unwrap();
    assert_eq!(status(&db), CheckoutStatus::DONE);
}

#[test]
fn only_the_rentee_reports_the_return() {
    let mut db = store();
    db.request_checkout(CHECKOUT, RENTEE, BOOK).unwrap();
    db.approve_checkout(CHECKOUT, officer(), at(10)).unwrap();
    assert!(is_illegal(db.report_return(CHECKOUT, OFFICER)));
    assert_eq!(status(&db), CheckoutStatus::Reading);
    assert!(db.report_return(CHECKOUT, RENTEE).is_ok());
}

#[test]
fn steps_of_an_unknown_checkout_fail() {
    let mut db = store();
    let unknown = |result: Result<(), ManipulationError>| match result {
        Err(ManipulationError(ManipulationErrorType::UnknownCheckout(what))) => what == "CI2FM6A",
        _ => false,
    };
    assert!(unknown(db.approve_checkout(CHECKOUT, officer(), at(10))));
    assert!(unknown(db.report_return(CHECKOUT, RENTEE)));
    assert!(unknown(db.approve_checkin(CHECKOUT, officer(), at(10))));
    // The identifier of a book is not that of a checkout.
    assert!(db.approve_checkout(BOOK, officer(), at(10)).is_err());
    assert!(db.get_checkout(BOOK).is_none());
}

#[test]
fn book_on_loan_cannot_be_removed() {
    let mut db = store();
    db.request_checkout(CHECKOUT, RENTEE, BOOK).unwrap();
    db.approve_checkout(CHECKOUT, officer(), at(10)).unwrap();
    assert_eq!(status(&db), CheckoutStatus::Reading);
    match db.remove_book(BOOK) {
        Err(ManipulationError(ManipulationErrorType::OutstandingBooksNonReturned(ids))) => {
            assert_eq!(ids, vec![CHECKOUT])
        }
        other => panic!("expected OutstandingBooksNonReturned, got {:?}", other),
    }
    assert_eq!(db.book_count(), 1);
    assert_eq!(db.get_book_from_input(&"Chess Basics".to_string()).unwrap().uuid, BOOK);
    assert_eq!(db.checkout_count(), 1);
}

#[test]
fn every_checkout_of_the_book_is_listed_in_order() {
    let mut db = store();
    db.add_book(Book::new(0x1000_0002, "Other".to_string(), "B".to_string(), 1)).unwrap();
    db.request_checkout(0x3000_0001, RENTEE, BOOK).unwrap();
    db.request_checkout(0x3000_0002, RENTEE, 0x1000_0002).unwrap();
    db.request_checkout(0x3000_0003, OFFICER, BOOK).unwrap();
    match db.remove_book(BOOK) {
        Err(ManipulationError(ManipulationErrorType::OutstandingBooksNonReturned(ids))) => {
            assert_eq!(ids, vec![0x3000_0001, 0x3000_0003])
        }
        other => panic!("expected OutstandingBooksNonReturned, got {:?}", other),
    }
    match db.remove_book(0x1000_0002) {
        Err(ManipulationError(ManipulationErrorType::OutstandingBooksNonReturned(ids))) => {
            assert_eq!(ids, vec![0x3000_0002])
        }
        other => panic!("expected OutstandingBooksNonReturned, got {:?}", other),
    }
    assert_eq!(db.book_count(), 2);
}

#[test]
fn closed_checkout_is_kept_and_still_holds_its_book() {
    let mut db = store();
    db.request_checkout(CHECKOUT, RENTEE, BOOK).unwrap();
    db.approve_checkout(CHECKOUT, officer(), at(10)).unwrap();
    db.report_return(CHECKOUT, RENTEE).unwrap();
    db.approve_checkin(CHECKOUT, officer(), at(20)).unwrap();
    assert_eq!(status(&db), CheckoutStatus::DONE);
    match db.remove_book(BOOK) {
        Err(ManipulationError(ManipulationErrorType::OutstandingBooksNonReturned(ids))) => {
            assert_eq!(ids, vec![CHECKOUT])
        }
        other => panic!("expected OutstandingBooksNonReturned, got {:?}", other),
    }
    // The book can be lent again.
    assert!(db.request_checkout(0x3000_0009, OFFICER, BOOK).is_ok());
    assert_eq!(db.checkout_count(), 2);
}
