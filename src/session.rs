//! The session with the booking service: an unauthenticated client that
//! becomes authenticated by exchanging credentials for a bearer token, and
//! the requests that only an authenticated client can frame.
use vstd::prelude::*;

use vstd::utf8::encode_utf8;

use crate::calendar::{LocalDateTime, Moment};
use crate::decimal::{
    decimal, digits_value, format_i64, format_u64, parse_u64, signed_decimal, u64_text,
    unsigned_digits,
};
use crate::json::{
    elements, json_elements, json_member, json_string_literal, lemma_plain_text_unescaped, member, plain_json_text, quote, text_field, text_member,
};
use crate::token::{claims_of_token, decodable, decode_token, AuthError, UserDetails};
use crate::week::{week_fits, BookingError, WeekBooking};

verus! {

/// Base address of the booking service.
pub const API_BASE: &'static str = "https://www.myairdesk.com/bertrandt/api";

/// The operator's credentials and the workplace to book.
#[derive(Clone, Debug)]
pub struct Credentials {
    pub username: String,
    pub password: String,
    pub workplace_id: u64,
}

impl Credentials {
    /// Gathers the configuration values; fails with `ConfigError` when any
    /// is missing or the workplace identifier is not the text of a `u64`.
    pub fn from_values(
        username: Option<String>,
        password: Option<String>,
        workplace: Option<String>,
    ) -> (r: Result<Credentials, AuthError>)
        ensures
            r is Ok <==> (username is Some && password is Some && workplace is Some && u64_text(
                workplace->0@,
            )),
            r is Err ==> r == Err::<Credentials, AuthError>(AuthError::ConfigError),
            r is Ok ==> r->Ok_0.username@ == username->0@ && r->Ok_0.password@ == password->0@
                && r->Ok_0.workplace_id == digits_value(unsigned_digits(workplace->0@)),
    {
        match (username, password, workplace) {
            (Some(username), Some(password), Some(workplace)) => match parse_u64(workplace.as_str()) {
                Some(workplace_id) => Ok(Credentials { username, password, workplace_id }),
                None => Err(AuthError::ConfigError),
            },
            _ => Err(AuthError::ConfigError),
        }
    }
}

/// The JSON body of the login request.
pub open spec fn login_body_text(username: Seq<char>, password: Seq<char>) -> Seq<char> {
    "{\"username\":"@ + json_string_literal(username) + ",\"password\":"@
        + json_string_literal(password) + ",\"save_credentials\":true}"@
}

/// The JSON body of the request that books one day.
pub open spec fn booking_body_text(user_id: nat, day_ms: int, workplace_id: nat) -> Seq<char> {
    "{\"id\":0,\"userId\":"@ + decimal(user_id) + ",\"date\":\""@ + signed_decimal(day_ms)
        + "\",\"workplaceId\":"@ + decimal(workplace_id) + ",\"bookedById\":"@ + decimal(user_id)
        + "}"@
}

/// The client before authentication.
pub struct Locked;

/// The client after authentication.
pub struct Unlocked;

/// A client of the booking service in state `State`.
pub struct Client<State> {
    credentials: Option<Credentials>,
    user_details: UserDetails,
    user_id: Option<u64>,
    token: String,
    state: State,
}

impl Client<Locked> {
    pub closed spec fn spec_token(&self) -> Seq<char> {
        self.token@
    }

    /// A fresh, unauthenticated client.
    pub fn new() -> (r: Client<Locked>)
        ensures
            r.spec_token().len() == 0,
    {
        Client {
            credentials: None,
            user_details: UserDetails::empty(),
            user_id: None,
            token: String::new(),
            state: Locked,
        }
    }

    /// The body to send to the login endpoint for `credentials`.
    pub fn login_body(&self, credentials: &Credentials) -> (r: String)
        ensures
            r@ == login_body_text(credentials.username@, credentials.password@),
            plain_json_text(credentials.username@) && plain_json_text(credentials.password@) ==> r@
                == "{\"username\":"@ + seq!['"'] + credentials.username@ + seq!['"']
                + ",\"password\":"@ + seq!['"'] + credentials.password@ + seq!['"']
                + ",\"save_credentials\":true}"@,
    {
        proof {
            if plain_json_text(credentials.username@) && plain_json_text(credentials.password@) {
                lemma_plain_text_unescaped(credentials.username@);
                lemma_plain_text_unescaped(credentials.password@);
            }
        }
        let mut body = String::from_str("{\"username\":");
        body.append(quote(credentials.username.as_str()).as_str());
        body.append(",\"password\":");
        body.append(quote(credentials.password.as_str()).as_str());
        body.append(",\"save_credentials\":true}");
        body
    }

    /// Completes authentication with the login endpoint's answer: `None`
    /// when the request could not be sent or the answer not read. The
    /// answer must be a JSON object holding a `message` string and a
    /// `data` object whose `token` string is a decodable bearer token.
    /// The token and its claims are kept together, whatever the user id
    /// holds: a user id that is not a number stops booking, not login.
    pub fn unlock(self, credentials: Credentials, answer: Option<String>) -> (r: Result<
        Client<Unlocked>,
        AuthError,
    >)
        ensures
            answer is None ==> r == Err::<Client<Unlocked>, AuthError>(AuthError::TransportError),
            answer is Some && login_token_of(encode_utf8(answer->0@)) is None ==> r == Err::<
                Client<Unlocked>,
                AuthError,
            >(AuthError::ProtocolError),
            answer is Some && login_token_of(encode_utf8(answer->0@)) is Some ==> (r is Ok
                <==> decodable(login_token_of(encode_utf8(answer->0@))->0)),
            answer is Some && login_token_of(encode_utf8(answer->0@)) is Some && r is Err ==> r
                == Err::<Client<Unlocked>, AuthError>(AuthError::MalformedToken),
            r is Ok ==> answer is Some && login_token_of(encode_utf8(answer->0@)) == Some(
                r->Ok_0.spec_token(),
            ) && claims_of_token(r->Ok_0.spec_user_details(), r->Ok_0.spec_token())
                && decodable(r->Ok_0.spec_token())
                && r->Ok_0.spec_user_id_text() == r->Ok_0.spec_user_details().user_id@
                && r->Ok_0.spec_user_id() == user_id_of(r->Ok_0.spec_user_id_text())
                && r->Ok_0.spec_workplace_id() == credentials.workplace_id
                && r->Ok_0.spec_username() == credentials.username@
                && r->Ok_0.spec_password() == credentials.password@,
    {
        let text = match answer {
            Some(t) => t,
            None => return Err(AuthError::TransportError),
        };
        let token = match login_token(&text) {
            Some(t) => t,
            None => return Err(AuthError::ProtocolError),
        };
        let user_details = match decode_token(token.as_str()) {
            Ok(u) => u,
            Err(e) => return Err(e),
        };
        let user_id = parse_u64(user_details.user_id.as_str());
        Ok(Client { credentials: Some(credentials), user_details, user_id, token, state: Unlocked })
    }
}

/// The number a user id denotes, when it is the text of a `u64`.
pub open spec fn user_id_of(s: Seq<char>) -> Option<u64> {
    if u64_text(s) {
        Some(digits_value(unsigned_digits(s)) as u64)
    } else {
        None
    }
}

/// The token of a login answer `{"data": {"token": ...}, "message": ...}`.
pub open spec fn login_token_of(doc: Seq<u8>) -> Option<Seq<char>> {
    if text_field(doc, "message"@) is Some {
        match json_member(doc, "data"@) {
            Some(data) => text_field(data, "token"@),
            None => None,
        }
    } else {
        None
    }
}

/// The token of a login answer.
fn login_token(text: &String) -> (r: Option<String>)
    ensures
        r is Some <==> login_token_of(encode_utf8(text@)) is Some,
        r is Some ==> r->0@ == login_token_of(encode_utf8(text@))->0,
{
    let doc = text.as_str().as_bytes();
    if text_member(doc, "message").is_none() {
        return None;
    }
    match member(doc, "data") {
        Some(data) => text_member(data.as_slice(), "token"),
        None => None,
    }
}

/// One booking of the user's week as the service lists it.
#[derive(Clone, Debug)]
#[allow(non_snake_case)]
pub struct Book {
    pub date: String,
    pub bookingOfficeSectorName: String,
    pub bookingWorkplaceName: String,
}

/// The user's bookings of one week.
#[derive(Clone, Debug)]
pub struct Bookings {
    pub bookings: Vec<Book>,
}

/// `b` holds the fields of the JSON object `doc`.
pub open spec fn book_of(b: Book, doc: Seq<u8>) -> bool {
    Some(b.date@) == text_field(doc, "date"@) && Some(b.bookingOfficeSectorName@) == text_field(
        doc,
        "bookingOfficeSectorName"@,
    ) && Some(b.bookingWorkplaceName@) == text_field(doc, "bookingWorkplaceName"@)
}

/// The JSON object `doc` holds the three fields of a booking.
pub open spec fn book_valid(doc: Seq<u8>) -> bool {
    text_field(doc, "date"@) is Some && text_field(doc, "bookingOfficeSectorName"@) is Some
        && text_field(doc, "bookingWorkplaceName"@) is Some
}

/// `doc` is a JSON array of bookings.
pub open spec fn books_valid(doc: Seq<u8>) -> bool {
    json_elements(doc) is Some && forall|i: int|
        0 <= i < json_elements(doc)->0.len() ==> book_valid(#[trigger] json_elements(doc)->0[i])
}

/// `b` is what a week-bookings answer `doc` lists: the bookings of a
/// valid array, element by element, and nothing otherwise.
pub open spec fn bookings_of(doc: Seq<u8>, b: Seq<Book>) -> bool {
    if books_valid(doc) {
        b.len() == json_elements(doc)->0.len() && forall|i: int|
            0 <= i < b.len() ==> book_of(#[trigger] b[i], json_elements(doc)->0[i])
    } else {
        b.len() == 0
    }
}

impl Bookings {
    /// Reads the week-bookings answer, a JSON array of bookings. Anything
    /// else, malformed JSON included, gives an empty list, as the list is
    /// for display only.
    pub fn from_answer(text: &str) -> (r: Bookings)
        ensures
            bookings_of(encode_utf8(text@), r.bookings@),
            !books_valid(encode_utf8(text@)) ==> r.bookings@.len() == 0,
    {
        match parse_books(text.as_bytes()) {
            Some(bookings) => Bookings { bookings },
            None => Bookings { bookings: Vec::new() },
        }
    }
}

fn parse_book(doc: &[u8]) -> (r: Option<Book>)
    ensures
        r is Some <==> book_valid(doc@),
        r is Some ==> book_of(r->0, doc@),
{
    let date = text_member(doc, "date")?;
    let sector = text_member(doc, "bookingOfficeSectorName")?;
    let workplace = text_member(doc, "bookingWorkplaceName")?;
    Some(Book { date, bookingOfficeSectorName: sector, bookingWorkplaceName: workplace })
}

fn parse_books(doc: &[u8]) -> (r: Option<Vec<Book>>)
    ensures
        r is Some <==> books_valid(doc@),
        r is Some ==> r->0@.len() == json_elements(doc@)->0.len() && forall|i: int|
            0 <= i < r->0@.len() ==> book_of(#[trigger] r->0@[i], json_elements(doc@)->0[i]),
{
    let items = elements(doc)?;
    let ghost docs = json_elements(doc@)->0;
    let mut books: Vec<Book> = Vec::new();
    let mut i: usize = 0;
    while i < items.len()
        invariant
            i <= items@.len(),
            items@.len() == docs.len(),
            docs == json_elements(doc@)->0,
            forall|k: int| 0 <= k < items@.len() ==> #[trigger] items@[k]@ == docs[k],
            books@.len() == i,
            forall|k: int| 0 <= k < i ==> book_valid(#[trigger] docs[k]),
            forall|k: int| 0 <= k < i ==> book_of(#[trigger] books@[k], docs[k]),
        decreases items@.len() - i,
    {
        match parse_book(items[i].as_slice()) {
            Some(b) => books.push(b),
            None => {
                assert(!book_valid(docs[i as int]));
                return None;
            },
        }
        i = i + 1;
    }
    Some(books)
}

impl Client<Unlocked> {
    pub closed spec fn spec_token(&self) -> Seq<char> {
        self.token@
    }

    pub closed spec fn spec_user_details(&self) -> UserDetails {
        self.user_details
    }

    pub closed spec fn spec_user_id_text(&self) -> Seq<char> {
        self.user_details.user_id@
    }

    pub closed spec fn spec_user_id(&self) -> Option<u64> {
        self.user_id
    }

    /// The operator's user name kept from authentication.
    pub closed spec fn spec_username(&self) -> Seq<char> {
        match self.credentials {
            Some(c) => c.username@,
            None => Seq::empty(),
        }
    }

    /// The operator's password kept from authentication.
    pub closed spec fn spec_password(&self) -> Seq<char> {
        match self.credentials {
            Some(c) => c.password@,
            None => Seq::empty(),
        }
    }

    pub closed spec fn spec_workplace_id(&self) -> nat {
        match self.credentials {
            Some(c) => c.workplace_id as nat,
            None => 0,
        }
    }

    /// Discards the token and the claims.
    pub fn lock(self) -> (r: Client<Locked>)
        ensures
            r.spec_token().len() == 0,
    {
        Client {
            credentials: None,
            user_details: UserDetails::empty(),
            user_id: None,
            token: String::new(),
            state: Locked,
        }
    }

    /// The identity claims read from the token.
    pub fn user_details(&self) -> (r: &UserDetails)
        ensures
            *r == self.spec_user_details(),
    {
        &self.user_details
    }

    /// The value of the `Authorization` header: `Bearer <token>`.
    pub fn bearer(&self) -> (r: String)
        ensures
            r@ == "Bearer "@ + self.spec_token(),
    {
        let mut s = String::from_str("Bearer ");
        s.append(self.token.as_str());
        s
    }

    /// The address that lists the user's bookings of the week of `monday`.
    pub fn week_bookings_url(&self, monday: &Moment) -> (r: String)
        requires
            monday.wf(),
        ensures
            r@ == API_BASE@ + "/Bookings/GetWeekBookingsForUser?userId="@ + self.spec_user_id_text()
                + "&mondayDateUnixStamp="@ + signed_decimal(monday.spec_timestamp_ms()),
    {
        let mut s = String::from_str(API_BASE);
        s.append("/Bookings/GetWeekBookingsForUser?userId=");
        s.append(self.user_details.user_id.as_str());
        s.append("&mondayDateUnixStamp=");
        s.append(format_i64(monday.timestamp_ms()).as_str());
        s
    }

    /// The week's bookings from the listing's answer: `Err` when the
    /// request could not be sent or the answer not read (`None`).
    pub fn week_bookings(&self, answer: Option<String>) -> (r: Result<Bookings, ()>)
        ensures
            answer is None <==> r is Err,
            answer is Some && !books_valid(encode_utf8(answer->0@)) ==> r is Ok
                && r->Ok_0.bookings@.len() == 0,
            answer is Some ==> r is Ok && bookings_of(encode_utf8(answer->0@), r->Ok_0.bookings@),
    {
        match answer {
            Some(text) => Ok(Bookings::from_answer(text.as_str())),
            None => Err(()),
        }
    }

    /// The body of the request that books the day at `day_ms`; `None`
    /// when the user id is not a number, as no booking can then be made.
    pub fn booking_body(&self, day_ms: i64) -> (r: Option<String>)
        ensures
            r is Some <==> self.spec_user_id() is Some,
            r is Some ==> r->0@ == booking_body_text(
                self.spec_user_id()->0 as nat,
                day_ms as int,
                self.spec_workplace_id(),
            ),
    {
        let id = match self.user_id {
            Some(id) => id,
            None => return None,
        };
        let workplace_id = match &self.credentials {
            Some(c) => c.workplace_id,
            None => 0,
        };
        let user = format_u64(id);
        let mut s = String::from_str("{\"id\":0,\"userId\":");
        s.append(user.as_str());
        s.append(",\"date\":\"");
        s.append(format_i64(day_ms).as_str());
        s.append("\",\"workplaceId\":");
        s.append(format_u64(workplace_id).as_str());
        s.append(",\"bookedById\":");
        s.append(user.as_str());
        s.append("}");
        Some(s)
    }

    /// The outcome of booking one day from the HTTP status of the answer, or
    /// `None` when the request could not be sent or answered: any status
    /// outside 200..=299 is a rejection.
    pub fn book_day(&self, status: Option<u16>) -> (r: Result<(), BookingError>)
        ensures
            r == match status {
                None => Err(BookingError::HTTP_ERROR),
                Some(s) => if 200 <= s <= 299 {
                    Ok(())
                } else {
                    Err(BookingError::BOOK_ERROR)
                },
            },
    {
        match status {
            None => Err(BookingError::HTTP_ERROR),
            Some(s) => if 200 <= s && s <= 299 {
                Ok(())
            } else {
                Err(BookingError::BOOK_ERROR)
            },
        }
    }

    /// Starts booking the week that begins on `monday`. When the user id
    /// is not a number the week is aborted before any request, with
    /// `PAYLOAD_ERROR`.
    pub fn book_week(&self, monday: LocalDateTime) -> (r: WeekBooking)
        requires
            monday.wf(),
            week_fits(monday),
        ensures
            r.wf(),
            r.spec_monday() == monday,
            r.progress().attempted == 0,
            r.progress().aborted <==> self.spec_user_id() is None,
            r.spec_refused() <==> self.spec_user_id() is None,
    {
        match self.user_id {
            Some(_) => WeekBooking::new(monday),
            None => WeekBooking::refused(monday),
        }
    }
}

} // verus!
