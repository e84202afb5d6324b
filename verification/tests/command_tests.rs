use book_lending::library::Database;
use book_lending::lifecycle::{Actor, Authority};
use book_lending::persistence::{after_save_step, dump_file_name, SaveAction, SaveStep};
use book_lending::records::{
    Book, CheckoutInstance, CheckoutStatus, ManipulationError, ManipulationErrorType,
    OfficerApproval, Timestamp, User,
};
use book_lending::text::{append_decimal, append_hex, digit_str};

fn book(uuid: u32, name: &str, author: &str, quantity: u32) -> Book {
    Book::new(uuid, name.to_string(), author.to_string(), quantity)
}

fn sample() -> Database {
    let mut db = Database::new();
    db.add_book(book(0x1234_5678, "Chess Basics", "A. Author", 1)).unwrap();
    db.add_book(book(0x0800_0000, "Endgames", "B. Writer", 12)).unwrap();
    db.add_user(User::new("1001".to_string(), "Ann".to_string(), 0x2000_0001)).unwrap();
    db.add_user(User::new("1002".to_string(), "Bob".to_string(), 0x2000_0002)).unwrap();
    db.request_checkout(0x3000_0001, 0x2000_0001, 0x1234_5678).unwrap();
    db.request_checkout(0x3000_0002, 0x2000_0002, 0x1234_5678).unwrap();
    db.approve_checkout(0x3000_0002, Actor::new(0x2000_0001, Authority::Officer), Timestamp::new(50, 7))
        .unwrap();
    db
}

fn decimal(n: u64) -> String {
    let mut text = String::new();
    append_decimal(&mut text, n);
    text
}

fn hex(n: u64) -> String {
    let mut text = String::from("x");
    append_hex(&mut text, n);
    text
}

#[test]
fn numbers_are_written_without_leading_zeros() {
    assert_eq!(decimal(0), "0");
    assert_eq!(decimal(7), "7");
    assert_eq!(decimal(10), "10");
    assert_eq!(decimal(4_294_967_295), "4294967295");
    assert_eq!(decimal(u64::MAX), "18446744073709551615");
    assert_eq!(decimal(1_000_000), "1000000");
    assert_eq!(hex(0), "x0");
    assert_eq!(hex(15), "xf");
    assert_eq!(hex(16), "x10");
    assert_eq!(hex(0xdead_beef), "xdeadbeef");
    assert_eq!(hex(0x0a0b_0c0d), "xa0b0c0d");
    for n in [0u64, 9, 99, 12345, 0xffff_ffff] {
        assert_eq!(decimal(n), format!("{}", n));
        assert_eq!(hex(n), format!("x{:x}", n));
    }
    assert_eq!(digit_str(0), "0");
    assert_eq!(digit_str(9), "9");
    assert_eq!(digit_str(10), "a");
    assert_eq!(digit_str(15), "f");
}

#[test]
fn listing_names_every_book_in_order() {
    let db = Database::new();
    assert_eq!(db.list_books(), "The library contains 0 book(s):");
    let db = sample();
    assert_eq!(
        db.list_books(),
        "The library contains 2 book(s):\n  *Chess Basics* by A. Author - CI2FM6A\n  *Endgames* by B. Writer - BAAAAAA | quantity 12"
    );
    assert_eq!(db.list_books(), db.list_books());
}

#[test]
fn listing_shows_the_quantity_from_two_copies_on() {
    let mut db = Database::new();
    db.add_book(book(0x1234_5678, "One", "A", 1)).unwrap();
    db.add_book(book(0x0800_0000, "Two", "B", 2)).unwrap();
    assert_eq!(
        db.list_books(),
        "The library contains 2 book(s):\n  *One* by A - CI2FM6A\n  *Two* by B - BAAAAAA | quantity 2"
    );
}

#[test]
fn set_quantity_changes_one_book() {
    let mut db = sample();
    assert_eq!(db.set_quantity(&"chess basics".to_string(), 3).unwrap(), 0x1234_5678);
    assert_eq!(db.book_at(0).unwrap(), &book(0x1234_5678, "Chess Basics", "A. Author", 3));
    assert_eq!(db.book_at(1).unwrap(), &book(0x0800_0000, "Endgames", "B. Writer", 12));
    assert_eq!(db.set_quantity(&"BAAAAAA".to_string(), 1).unwrap(), 0x0800_0000);
    assert_eq!(db.book_at(1).unwrap().quantity, 1);
    assert_eq!(db.book_count(), 2);
    assert_eq!(db.checkout_count(), 2);
}

#[test]
fn set_quantity_of_an_unknown_book_fails() {
    let mut db = sample();
    match db.set_quantity(&"Middlegames".to_string(), 3) {
        Err(ManipulationError(ManipulationErrorType::UnknownBook(what))) => assert_eq!(what, "Middlegames"),
        other => panic!("expected UnknownBook, got {:?}", other),
    }
    assert_eq!(db.book_at(0).unwrap().quantity, 1);
    assert_eq!(db.book_at(1).unwrap().quantity, 12);
}

#[test]
fn set_quantity_to_nothing_is_refused() {
    let mut db = sample();
    match db.set_quantity(&"Endgames".to_string(), 0) {
        Err(ManipulationError(ManipulationErrorType::NoCopies(what))) => assert_eq!(what, "Endgames"),
        other => panic!("expected NoCopies, got {:?}", other),
    }
    match db.set_quantity(&"CI2FM6A".to_string(), 0) {
        Err(ManipulationError(ManipulationErrorType::NoCopies(what))) => assert_eq!(what, "CI2FM6A"),
        other => panic!("expected NoCopies, got {:?}", other),
    }
    match db.set_quantity(&"Middlegames".to_string(), 0) {
        Err(ManipulationError(ManipulationErrorType::UnknownBook(what))) => assert_eq!(what, "Middlegames"),
        other => panic!("expected UnknownBook, got {:?}", other),
    }
    assert_eq!(db.book_at(0).unwrap(), &book(0x1234_5678, "Chess Basics", "A. Author", 1));
    assert_eq!(db.book_at(1).unwrap(), &book(0x0800_0000, "Endgames", "B. Writer", 12));
    assert_eq!(db.book_count(), 2);
}

#[test]
fn remove_by_title_or_identifier() {
    let mut db = sample();
    let removed = db.remove_book_from_input(&"ENDGAMES".to_string()).unwrap();
    assert_eq!(removed, book(0x0800_0000, "Endgames", "B. Writer", 12));
    assert_eq!(db.book_count(), 1);
    db.add_book(book(0x1000_0007, "Openings", "C", 1)).unwrap();
    db.add_book(book(0x1000_0008, "Tactics", "D", 1)).unwrap();
    assert!(db.remove_book_from_input(&"openings".to_string()).is_ok());
    assert_eq!(db.book_at(0).unwrap().name, "Chess Basics");
    assert_eq!(db.book_at(1).unwrap().name, "Tactics");
    assert!(db.remove_book_from_input(&"Tactics".to_string()).is_ok());
    match db.remove_book_from_input(&"Endgames".to_string()) {
        Err(ManipulationError(ManipulationErrorType::UnknownBook(what))) => assert_eq!(what, "Endgames"),
        other => panic!("expected UnknownBook, got {:?}", other),
    }
    match db.remove_book_from_input(&"CI2FM6A".to_string()) {
        Err(ManipulationError(ManipulationErrorType::OutstandingBooksNonReturned(ids))) => {
            assert_eq!(ids, vec![0x3000_0001, 0x3000_0002])
        }
        other => panic!("expected OutstandingBooksNonReturned, got {:?}", other),
    }
    assert_eq!(db.book_count(), 1);
}

#[test]
fn registration_happens_once() {
    let mut db = sample();
    assert_eq!(db.register_user("1002".to_string(), "Robert".to_string()), Some(0x2000_0002));
    assert_eq!(db.user_count(), 2);
    assert_eq!(db.get_user(0x2000_0002).unwrap().read_name, "Bob");
    let uuid = db.register_user("1003".to_string(), "Cid".to_string()).unwrap();
    assert!(uuid >= (1 << 27));
    assert_eq!(db.user_count(), 3);
    assert_eq!(db.user_at(2).unwrap(), &User::new("1003".to_string(), "Cid".to_string(), uuid));
    assert_eq!(db.register_user("1003".to_string(), "Cid".to_string()), Some(uuid));
    assert_eq!(db.user_count(), 3);
    assert_eq!(db.uuid_type(uuid), Some(book_lending::records::UuidType::User));
}

#[test]
fn snapshot_lists_the_records_in_order() {
    let db = sample();
    assert_eq!(
        db.books_snapshot(),
        vec![book(0x1234_5678, "Chess Basics", "A. Author", 1), book(0x0800_0000, "Endgames", "B. Writer", 12)]
    );
    assert_eq!(
        db.users_snapshot(),
        vec![
            User::new("1001".to_string(), "Ann".to_string(), 0x2000_0001),
            User::new("1002".to_string(), "Bob".to_string(), 0x2000_0002)
        ]
    );
    let checkouts = db.checkouts_snapshot();
    assert_eq!(checkouts.len(), 2);
    assert_eq!(checkouts[0], CheckoutInstance::request(0x3000_0001, 0x2000_0001, 0x1234_5678));
    assert_eq!(checkouts[1].status, CheckoutStatus::Reading);
    assert_eq!(checkouts[1].due_date, Some(Timestamp::new(604_850, 7)));
    assert_eq!(
        checkouts[1].checkout_approval,
        Some(OfficerApproval::new(0x2000_0001, Timestamp::new(50, 7)))
    );
}

#[test]
fn restore_gives_the_store_back() {
    let db = sample();
    let restored =
        Database::restore(&db.books_snapshot(), &db.users_snapshot(), &db.checkouts_snapshot()).unwrap();
    assert_eq!(restored.books_snapshot(), db.books_snapshot());
    assert_eq!(restored.users_snapshot(), db.users_snapshot());
    assert_eq!(restored.checkouts_snapshot(), db.checkouts_snapshot());
    assert_eq!(restored.list_books(), db.list_books());
    assert_eq!(restored.uuid_type(0x3000_0002), db.uuid_type(0x3000_0002));

    let empty = Database::restore(&vec![], &vec![], &vec![]).unwrap();
    assert_eq!(empty.book_count() + empty.user_count() + empty.checkout_count(), 0);
}

#[test]
fn restore_refuses_records_that_contradict_each_other() {
    let books = vec![book(0x1000_0001, "Alpha", "A", 1), book(0x1000_0002, "Beta", "B", 2)];
    let users = vec![User::new("1".to_string(), "Ann".to_string(), 0x2000_0001)];
    let request = CheckoutInstance::request(0x3000_0001, 0x2000_0001, 0x1000_0001);
    assert!(Database::restore(&books, &users, &vec![request]).is_some());

    // An identifier twice, in one list or in two.
    let twice = vec![book(0x1000_0001, "Alpha", "A", 1), book(0x1000_0001, "Beta", "B", 2)];
    assert!(Database::restore(&twice, &users, &vec![]).is_none());
    let shared = vec![User::new("1".to_string(), "Ann".to_string(), 0x1000_0002)];
    assert!(Database::restore(&books, &shared, &vec![]).is_none());
    let clash = CheckoutInstance::request(0x2000_0001, 0x2000_0001, 0x1000_0001);
    assert!(Database::restore(&books, &users, &vec![clash]).is_none());
    assert!(Database::restore(&books, &users, &vec![request, request]).is_none());

    // The same work twice, a book without copies.
    let same = vec![book(0x1000_0001, "Alpha", "A", 1), book(0x1000_0002, "ALPHA", "a", 2)];
    assert!(Database::restore(&same, &users, &vec![]).is_none());
    let none = vec![book(0x1000_0001, "Alpha", "A", 0)];
    assert!(Database::restore(&none, &users, &vec![]).is_none());

    // A checkout of a book that is not there, or at odds with its stage.
    let stray = CheckoutInstance::request(0x3000_0001, 0x2000_0001, 0x1000_0009);
    assert!(Database::restore(&books, &users, &vec![stray]).is_none());
    let mut odd = request;
    odd.status = CheckoutStatus::Reading;
    assert!(Database::restore(&books, &users, &vec![odd]).is_none());
    let mut early = request;
    early.due_date = Some(Timestamp::new(1, 0));
    assert!(Database::restore(&books, &users, &vec![early]).is_none());
}

#[test]
fn stage_consistency_follows_the_stage() {
    let request = CheckoutInstance::request(1 << 27, 2 << 27, 3 << 27);
    assert!(request.is_stage_consistent());
    let officer = Actor::new(4 << 27, Authority::Officer);
    let out = request.approve_handout(officer, Timestamp::new(0, 0)).unwrap();
    assert!(out.is_stage_consistent());
    let back = out.report_return(2 << 27).unwrap();
    assert!(back.is_stage_consistent());
    let done = back.approve_return(officer, Timestamp::new(9, 0)).unwrap();
    assert!(done.is_stage_consistent());
    let mut broken = done;
    broken.checkin_approval = None;
    assert!(!broken.is_stage_consistent());
    let mut broken = out;
    broken.checkin_approval = Some(OfficerApproval::new(1, Timestamp::new(0, 0)));
    assert!(!broken.is_stage_consistent());
}

#[test]
fn save_falls_back_on_a_dump_once() {
    assert_eq!(after_save_step(SaveStep::Snapshot, true), SaveAction::Finish);
    assert_eq!(after_save_step(SaveStep::Snapshot, false), SaveAction::WriteDump);
    assert_eq!(after_save_step(SaveStep::Dump, true), SaveAction::Finish);
    assert_eq!(after_save_step(SaveStep::Dump, false), SaveAction::GiveUp);
}

#[test]
fn dump_file_is_named_by_its_suffix() {
    assert_eq!(dump_file_name(0), "Chess-bot-DB-dump-0.json");
    assert_eq!(dump_file_name(0xdead_beef), "Chess-bot-DB-dump-deadbeef.json");
    assert_eq!(dump_file_name(255), "Chess-bot-DB-dump-ff.json");
    assert_eq!(dump_file_name(u32::MAX), "Chess-bot-DB-dump-ffffffff.json");
    assert_ne!(dump_file_name(1), dump_file_name(2));
}
