//! The records that the store keeps, and the errors its operations report.

use crate::codec::encode;
use crate::codec::encoded_text;
use crate::codec::lemma_text_symbols;
use crate::utils::cmp_ignore_case_ascii;
use crate::utils::same_ignoring_case;
use vstd::prelude::*;
use vstd::string::*;
use vstd::utf8::encode_utf8;

verus! {

pub type UserUuid = u32;

pub type BookUuid = u32;

pub type CheckoutUuid = u32;

/// A point in time: whole seconds since the Unix epoch and the nanoseconds
/// within that second.
#[derive(Debug, Clone, Copy, PartialEq, Eq, Structural)]
pub struct Timestamp {
    pub secs: i64,
    pub nanos: u32,
}

pub type TimeType = Timestamp;

/// A title the library owns, in `quantity` physical copies.
#[derive(Debug, Clone, PartialEq, Eq)]
pub struct Book {
    pub uuid: BookUuid,
    pub name: String,
    pub author: String,
    pub quantity: u32,
}

/// The four stages of a loan, in the order in which a checkout passes
/// through them.
///
/// A member's request opens the checkout in `PreTransact`: no book has changed
/// hands yet. When an officer confirms that the book was handed out the
/// checkout is `Reading` and the loan period runs. The member's own report
/// that the book went back moves it to `ReturnVerifyNeeded`, and an officer's
/// confirmation of that closes it as `DONE`.
#[derive(Debug, Clone, Copy, PartialEq, Eq, Structural)]
pub enum CheckoutStatus {
    PreTransact,
    Reading,
    ReturnVerifyNeeded,
    DONE,
}

/// An officer's confirmation, with the time at which it was given.
#[derive(Debug, Clone, Copy, PartialEq, Eq, Structural)]
pub struct OfficerApproval {
    pub user: UserUuid,
    pub time: TimeType,
}

/// One loan of one book to one member.
#[derive(Debug, Clone, Copy, PartialEq, Eq)]
pub struct CheckoutInstance {
    pub uuid: CheckoutUuid,
    pub rentee: UserUuid,
    pub book: BookUuid,
    pub status: CheckoutStatus,
    pub due_date: Option<TimeType>,
    pub checkout_approval: Option<OfficerApproval>,
    pub checkin_approval: Option<OfficerApproval>,
}

/// A member, known by the identity the chat platform gives them.
#[derive(Debug, Clone, PartialEq, Eq)]
pub struct User {
    pub discord_id: String,
    pub read_name: String,
    pub uuid: UserUuid,
}

/// Why a change to the store was refused.
#[derive(Debug)]
pub enum ManipulationErrorType {
    /// The checkouts that still refer to the book, in the store's order.
    OutstandingBooksNonReturned(Vec<CheckoutUuid>),
    UnknownBook(String),
    /// The identifier, in its text form, or the title that is already there.
    AlreadyAdded(String),
    /// The title, or the text that asked for the book, where a book would be
    /// left without a copy.
    NoCopies(String),
    UnknownCheckout(String),
    /// The checkout, in its text form, that could not take the step asked for.
    IllegalTransition(String),
}

#[derive(Debug)]
pub struct ManipulationError(pub ManipulationErrorType);

/// Why a piece of text does not name the record that was asked for.
#[derive(Debug, Clone, Copy, PartialEq, Eq, Structural)]
pub enum UuidError {
    InvalidEncoding,
    NotFound,
    MismatchIsUserUuid,
    MismatchIsBookUuid,
    MismatchIsCheckoutUuid,
}

/// The kind of record an identifier belongs to.
#[derive(Debug, Clone, Copy, PartialEq, Eq, Structural)]
pub enum UuidType {
    User,
    Book,
    Checkout,
}

impl Timestamp {
    pub fn new(secs: i64, nanos: u32) -> (t: Timestamp)
        ensures
            t == (Timestamp { secs, nanos }),
    {
        Timestamp { secs, nanos }
    }
}

/// The book's title is the given text, up to ASCII case.
pub open spec fn same_title(book: Book, title: Seq<char>) -> bool {
    same_ignoring_case(encode_utf8(book.name@), encode_utf8(title))
}

/// The book has the given title and author, up to ASCII case: it is the same
/// work.
pub open spec fn same_work(book: Book, title: Seq<char>, author: Seq<char>) -> bool {
    same_title(book, title) && same_ignoring_case(encode_utf8(book.author@), encode_utf8(author))
}

impl Book {
    pub fn new(uuid: BookUuid, name: String, author: String, quantity: u32) -> (book: Book)
        ensures
            book == (Book { uuid, name, author, quantity }),
    {
        Book { uuid, name, author, quantity }
    }

    /// A copy of the book.
    pub fn duplicate(&self) -> (copy: Book)
        ensures
            copy == *self,
    {
        Book {
            uuid: self.uuid,
            name: self.name.clone(),
            author: self.author.clone(),
            quantity: self.quantity,
        }
    }

    /// Whether the book's title is the given text, up to ASCII case.
    pub fn is_titled(&self, title: &str) -> (same: bool)
        ensures
            same == same_title(*self, title@),
    {
        cmp_ignore_case_ascii(self.name.as_str(), title)
    }

    /// Whether the book has the given title and author, up to ASCII case.
    pub fn is_work(&self, title: &str, author: &str) -> (same: bool)
        ensures
            same == same_work(*self, title@, author@),
    {
        cmp_ignore_case_ascii(self.name.as_str(), title) && cmp_ignore_case_ascii(
            self.author.as_str(),
            author,
        )
    }
}

impl OfficerApproval {
    pub fn new(user: UserUuid, time: TimeType) -> (approval: OfficerApproval)
        ensures
            approval == (OfficerApproval { user, time }),
    {
        OfficerApproval { user, time }
    }
}

impl User {
    pub fn new(discord_id: String, read_name: String, uuid: UserUuid) -> (user: User)
        ensures
            user == (User { discord_id, read_name, uuid }),
    {
        User { discord_id, read_name, uuid }
    }

    /// A copy of the member.
    pub fn duplicate(&self) -> (copy: User)
        ensures
            copy == *self,
    {
        User {
            discord_id: self.discord_id.clone(),
            read_name: self.read_name.clone(),
            uuid: self.uuid,
        }
    }
}

/// The part of a message that lists checkouts: for each one `ID: `, the text
/// form of its identifier, a comma and a space.
pub open spec fn id_list_text(ids: Seq<u32>) -> Seq<char>
    decreases ids.len(),
{
    if ids.len() == 0 {
        Seq::empty()
    } else {
        id_list_text(ids.drop_last()) + "ID: "@ + encoded_text(ids.last()) + ", "@
    }
}

/// The message that tells a member why a change was refused, on one line.
pub open spec fn message_text(kind: ManipulationErrorType) -> Seq<char> {
    match kind {
        ManipulationErrorType::AlreadyAdded(what) => "Book \""@ + what@
            + "\" already in library. Use !library set-quantity <book> <new quantity> to indicate that the library has 2 or more copies of a book"@,
        ManipulationErrorType::OutstandingBooksNonReturned(ids) =>
            "Book already checked out! Checkout ids:  "@ + id_list_text(ids@)
            + "Use !library list to see more checkout information"@,
        ManipulationErrorType::UnknownBook(what) => "Unknown book: \""@ + what@ + "\""@,
        ManipulationErrorType::NoCopies(what) => "Book \""@ + what@
            + "\" needs at least 1 copy. Use !library remove <book> to take a book out of the library"@,
        ManipulationErrorType::UnknownCheckout(what) => "Unknown checkout: \""@ + what@ + "\""@,
        ManipulationErrorType::IllegalTransition(what) => "Checkout \""@ + what@
            + "\" is not at the stage for this step, or the step is not yours to take"@,
    }
}

/// The text has no line break.
pub open spec fn is_one_line(text: Seq<char>) -> bool {
    forall|i: int| 0 <= i < text.len() ==> #[trigger] text[i] != '\n'
}

/// The list of checkouts in a message has no line break.
pub proof fn lemma_id_list_is_one_line(ids: Seq<u32>)
    ensures
        is_one_line(id_list_text(ids)),
    decreases ids.len(),
{
    if ids.len() > 0 {
        lemma_id_list_is_one_line(ids.drop_last());
        lemma_text_symbols(ids.last());
        reveal_strlit("ID: ");
        reveal_strlit(", ");
        assert(is_one_line("ID: "@));
        assert(is_one_line(", "@));
    }
}

/// What a message quotes: the title or the text that the error carries. The
/// list of checkouts is not quoted but written out by identifier.
pub open spec fn quoted_text(kind: ManipulationErrorType) -> Seq<char> {
    match kind {
        ManipulationErrorType::OutstandingBooksNonReturned(_) => Seq::empty(),
        ManipulationErrorType::UnknownBook(what) => what@,
        ManipulationErrorType::AlreadyAdded(what) => what@,
        ManipulationErrorType::NoCopies(what) => what@,
        ManipulationErrorType::UnknownCheckout(what) => what@,
        ManipulationErrorType::IllegalTransition(what) => what@,
    }
}

/// Every message is one line, as long as what it quotes is: the words of the
/// message bring no line break, however many checkouts it lists.
pub proof fn lemma_message_is_one_line(kind: ManipulationErrorType)
    requires
        is_one_line(quoted_text(kind)),
    ensures
        is_one_line(message_text(kind)),
{
    match kind {
        ManipulationErrorType::OutstandingBooksNonReturned(ids) => {
            lemma_id_list_is_one_line(ids@);
            reveal_strlit("Book already checked out! Checkout ids:  ");
            reveal_strlit("Use !library list to see more checkout information");
            assert(is_one_line("Book already checked out! Checkout ids:  "@));
            assert(is_one_line("Use !library list to see more checkout information"@));
        },
        ManipulationErrorType::UnknownBook(what) => {
            reveal_strlit("Unknown book: \"");
            reveal_strlit("\"");
            assert(is_one_line("Unknown book: \""@));
            assert(is_one_line("\""@));
        },
        ManipulationErrorType::AlreadyAdded(what) => {
            reveal_strlit("Book \"");
            reveal_strlit(
                "\" already in library. Use !library set-quantity <book> <new quantity> to indicate that the library has 2 or more copies of a book",
            );
            assert(is_one_line("Book \""@));
            assert(is_one_line(
                "\" already in library. Use !library set-quantity <book> <new quantity> to indicate that the library has 2 or more copies of a book"@,
            ));
        },
        ManipulationErrorType::NoCopies(what) => {
            reveal_strlit("Book \"");
            reveal_strlit(
                "\" needs at least 1 copy. Use !library remove <book> to take a book out of the library",
            );
            assert(is_one_line("Book \""@));
            assert(is_one_line(
                "\" needs at least 1 copy. Use !library remove <book> to take a book out of the library"@,
            ));
        },
        ManipulationErrorType::UnknownCheckout(what) => {
            reveal_strlit("Unknown checkout: \"");
            reveal_strlit("\"");
            assert(is_one_line("Unknown checkout: \""@));
            assert(is_one_line("\""@));
        },
        ManipulationErrorType::IllegalTransition(what) => {
            reveal_strlit("Checkout \"");
            reveal_strlit(
                "\" is not at the stage for this step, or the step is not yours to take",
            );
            assert(is_one_line("Checkout \""@));
            assert(is_one_line(
                "\" is not at the stage for this step, or the step is not yours to take"@,
            ));
        },
    }
}

impl ManipulationError {
    pub fn new(kind: ManipulationErrorType) -> (error: ManipulationError)
        ensures
            error.0 == kind,
    {
        ManipulationError(kind)
    }

    /// The message for the member who asked for the change.
    pub fn to_string(&self) -> (text: String)
        ensures
            text@ == message_text(self.0),
    {
        match &self.0 {
            ManipulationErrorType::AlreadyAdded(input) => {
                let mut text = String::from_str("Book \"");
                text.append(input.as_str());
                text.append(
                    "\" already in library. Use !library set-quantity <book> <new quantity> to indicate that the library has 2 or more copies of a book",
                );
                text
            },
            ManipulationErrorType::OutstandingBooksNonReturned(vec) => {
                let mut text = String::from_str("Book already checked out! Checkout ids:  ");
                let ghost head = text@;
                let mut i: usize = 0;
                while i < vec.len()
                    invariant
                        i <= vec.len(),
                        text@ == head + id_list_text(vec@.take(i as int)),
                    decreases vec.len() - i,
                {
                    proof {
                        let upto = vec@.take(i + 1);
                        assert(upto.drop_last() == vec@.take(i as int));
                        assert(upto.last() == vec@[i as int]);
                    }
                    let ghost before = text@;
                    let code = encode(vec[i]);
                    text.append("ID: ");
                    text.append(code.as_str());
                    text.append(", ");
                    assert(text@ == head + id_list_text(vec@.take(i + 1))) by {
                        assert(text@ =~= before + "ID: "@ + encoded_text(vec@[i as int]) + ", "@);
                        assert(before + "ID: "@ + encoded_text(vec@[i as int]) + ", "@ =~= head + (
                        id_list_text(vec@.take(i as int)) + "ID: "@ + encoded_text(vec@[i as int])
                            + ", "@));
                    }
                    i += 1;
                }
                assert(vec@.take(i as int) == vec@);
                text.append("Use !library list to see more checkout information");
                text
            },
            ManipulationErrorType::UnknownBook(input) => {
                let mut text = String::from_str("Unknown book: \"");
                text.append(input.as_str());
                text.append("\"");
                text
            },
            ManipulationErrorType::NoCopies(input) => {
                let mut text = String::from_str("Book \"");
                text.append(input.as_str());
                text.append(
                    "\" needs at least 1 copy. Use !library remove <book> to take a book out of the library",
                );
                text
            },
            ManipulationErrorType::UnknownCheckout(input) => {
                let mut text = String::from_str("Unknown checkout: \"");
                text.append(input.as_str());
                text.append("\"");
                text
            },
            ManipulationErrorType::IllegalTransition(input) => {
                let mut text = String::from_str("Checkout \"");
                text.append(input.as_str());
                text.append(
                    "\" is not at the stage for this step, or the step is not yours to take",
                );
                text
            },
        }
    }
}

} // verus!
