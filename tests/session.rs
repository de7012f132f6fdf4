use base64::engine::general_purpose::STANDARD_NO_PAD;
use base64::Engine;
use myairdesk::calendar::Moment;
use myairdesk::decimal::{format_i64, format_u64, parse_u64};
use myairdesk::session::{Bookings, Client, Credentials};
use myairdesk::token::{decode_token, split_token, AuthError};
use myairdesk::week::BookingError;

const HEADER: &str = r#"{"alg":"HS256","typ":"JWT"}"#;
const PAYLOAD: &str =
    r#"{"userId":"42","userRoleId":"1","expTime":"2030-01-01","nbf":0,"exp":0,"iat":0}"#;

fn segment(json: &str) -> String {
    STANDARD_NO_PAD.encode(json.as_bytes())
}

fn token(header: &str, payload: &str) -> String {
    format!("{}.{}.c2lnbmF0dXJl", segment(header), segment(payload))
}

fn login_answer(token: &str) -> String {
    format!(r#"{{"data":{{"token":"{}"}},"message":"ok"}}"#, token)
}

fn credentials() -> Credentials {
    Credentials::from_values(Some("ann".to_string()), Some("pw".to_string()), Some("17".to_string()))
        .unwrap()
}

#[test]
fn well_formed_token_yields_user_id() {
    let claims = decode_token(&token(HEADER, PAYLOAD)).unwrap();
    assert_eq!(claims.user_id, "42");
    assert_eq!(claims.user_role_id, "1");
    assert_eq!(claims.exp_time, "2030-01-01");
    assert_eq!((claims.nbf, claims.exp, claims.iat), (0, 0, 0));
}

#[test]
fn token_without_two_dots_is_malformed() {
    let good = token(HEADER, PAYLOAD);
    let parts: Vec<&str> = good.split('.').collect();
    let one_dot = format!("{}.{}", parts[0], parts[1]);
    let three_dots = format!("{}.x", good);
    assert_eq!(decode_token("").unwrap_err(), AuthError::MalformedToken);
    assert_eq!(decode_token(&parts[0]).unwrap_err(), AuthError::MalformedToken);
    assert_eq!(decode_token(&one_dot).unwrap_err(), AuthError::MalformedToken);
    assert_eq!(decode_token(&three_dots).unwrap_err(), AuthError::MalformedToken);
}

#[test]
fn token_with_empty_segment_is_malformed() {
    let good = token(HEADER, PAYLOAD);
    let no_signature = good.rsplit_once('.').unwrap().0.to_string() + ".";
    assert_eq!(decode_token(&no_signature).unwrap_err(), AuthError::MalformedToken);
    assert_eq!(decode_token(&format!(".{}.sig", segment(PAYLOAD))).unwrap_err(), AuthError::MalformedToken);
}

#[test]
fn token_with_bad_base64_is_malformed() {
    let t = format!("{}.!!notbase64!!.sig", segment(HEADER));
    assert_eq!(decode_token(&t).unwrap_err(), AuthError::MalformedToken);
    let padded = format!("{}.{}=.sig", segment(HEADER), segment(PAYLOAD));
    assert_eq!(decode_token(&padded).unwrap_err(), AuthError::MalformedToken);
}

#[test]
fn token_with_non_json_segment_is_malformed() {
    assert_eq!(decode_token(&token("not json", PAYLOAD)).unwrap_err(), AuthError::MalformedToken);
    assert_eq!(decode_token(&token(HEADER, "{userId: 42")).unwrap_err(), AuthError::MalformedToken);
}

#[test]
fn token_missing_a_claim_is_malformed() {
    let payload = r#"{"userRoleId":"1","expTime":"x","nbf":0,"exp":0,"iat":0}"#;
    assert_eq!(decode_token(&token(HEADER, payload)).unwrap_err(), AuthError::MalformedToken);
    assert_eq!(decode_token(&token(r#"{"alg":"HS256"}"#, PAYLOAD)).unwrap_err(), AuthError::MalformedToken);
}

#[test]
fn split_token_gives_the_three_segments() {
    let (h, p, g) = split_token("ab.cd.ef").unwrap();
    assert_eq!((h.as_str(), p.as_str(), g.as_str()), ("ab", "cd", "ef"));
    assert_eq!(split_token("..").map(|(a, b, c)| (a.len(), b.len(), c.len())), Some((0, 0, 0)));
    assert!(split_token("a.b").is_none());
    assert!(split_token("a.b.c.d").is_none());
}

#[test]
fn incomplete_configuration_is_a_config_error() {
    let pw = Some("pw".to_string());
    let user = Some("ann".to_string());
    let wp = Some("17".to_string());
    assert_eq!(Credentials::from_values(user.clone(), pw.clone(), None).unwrap_err(), AuthError::ConfigError);
    assert_eq!(Credentials::from_values(None, pw.clone(), wp.clone()).unwrap_err(), AuthError::ConfigError);
    assert_eq!(Credentials::from_values(user.clone(), None, wp.clone()).unwrap_err(), AuthError::ConfigError);
    assert_eq!(
        Credentials::from_values(user.clone(), pw.clone(), Some("desk 7".to_string())).unwrap_err(),
        AuthError::ConfigError
    );
    let plus = Credentials::from_values(user.clone(), pw.clone(), Some("+17".to_string())).unwrap();
    assert_eq!(plus.workplace_id, 17);
    assert_eq!(
        Credentials::from_values(user.clone(), pw.clone(), Some("+".to_string())).unwrap_err(),
        AuthError::ConfigError
    );
    let c = Credentials::from_values(user, pw, wp).unwrap();
    assert_eq!((c.username.as_str(), c.password.as_str(), c.workplace_id), ("ann", "pw", 17));
}

#[test]
fn login_body_escapes_the_credentials() {
    let c = Credentials::from_values(
        Some("a\"b".to_string()),
        Some("p\\w".to_string()),
        Some("1".to_string()),
    )
    .unwrap();
    let body = Client::new().login_body(&c);
    assert_eq!(body, r#"{"username":"a\"b","password":"p\\w","save_credentials":true}"#);
    let plain = Client::new().login_body(&credentials());
    assert_eq!(plain, r#"{"username":"ann","password":"pw","save_credentials":true}"#);
}

#[test]
fn unlock_reports_each_failure() {
    let t = token(HEADER, PAYLOAD);
    assert_eq!(Client::new().unlock(credentials(), None).err(), Some(AuthError::TransportError));
    assert_eq!(
        Client::new().unlock(credentials(), Some("<html>".to_string())).err(),
        Some(AuthError::ProtocolError)
    );
    let renamed = format!(r#"{{"data":{{"jwt":"{}"}},"message":"ok"}}"#, t);
    assert_eq!(Client::new().unlock(credentials(), Some(renamed)).err(), Some(AuthError::ProtocolError));
    assert_eq!(
        Client::new().unlock(credentials(), Some(login_answer("a.b"))).err(),
        Some(AuthError::MalformedToken)
    );
}

#[test]
fn non_numeric_user_id_logs_in_but_cannot_book() {
    let payload = r#"{"userId":"abc","userRoleId":"1","expTime":"x","nbf":0,"exp":0,"iat":0}"#;
    let t = token(HEADER, payload);
    let client = Client::new().unlock(credentials(), Some(login_answer(&t))).ok().unwrap();
    assert_eq!(client.user_details().user_id, "abc");
    assert_eq!(client.bearer(), format!("Bearer {}", t));
    assert_eq!(client.booking_body(1_704_067_200_000), None);
    let week = client.book_week(Moment::new(19723, 0, 0).unwrap().local());
    assert_eq!(week.next_day(), None);
    assert_eq!(week.result(), Some(Err(BookingError::PAYLOAD_ERROR)));
}

#[test]
fn user_id_with_plus_sign_books() {
    let payload = r#"{"userId":"+42","userRoleId":"1","expTime":"x","nbf":0,"exp":0,"iat":0}"#;
    let client = Client::new()
        .unlock(credentials(), Some(login_answer(&token(HEADER, payload))))
        .ok()
        .unwrap();
    assert_eq!(
        client.booking_body(0).unwrap(),
        r#"{"id":0,"userId":42,"date":"0","workplaceId":17,"bookedById":42}"#
    );
}

#[test]
fn unlocked_client_frames_its_requests() {
    let t = token(HEADER, PAYLOAD);
    let client = Client::new().unlock(credentials(), Some(login_answer(&t))).ok().unwrap();
    assert_eq!(client.user_details().user_id, "42");
    assert_eq!(client.bearer(), format!("Bearer {}", t));
    assert_eq!(
        client.booking_body(1_704_067_200_000).unwrap(),
        r#"{"id":0,"userId":42,"date":"1704067200000","workplaceId":17,"bookedById":42}"#
    );
    let monday = Moment::new(19723, 0, 0).unwrap();
    assert_eq!(
        client.week_bookings_url(&monday),
        "https://www.myairdesk.com/bertrandt/api/Bookings/GetWeekBookingsForUser?userId=42&mondayDateUnixStamp=1704067200000"
    );
    let week = client.book_week(monday.local());
    assert_eq!(week.next_day(), Some(monday.local()));
    let locked = client.lock();
    assert!(locked.login_body(&credentials()).contains("\"ann\""));
}

#[test]
fn week_bookings_are_read_from_the_answer() {
    let answer = r#"[{"date":"2024-01-01","bookingOfficeSectorName":"North","bookingWorkplaceName":"D7"}]"#;
    let b = Bookings::from_answer(answer);
    assert_eq!(b.bookings.len(), 1);
    assert_eq!(b.bookings[0].date, "2024-01-01");
    assert_eq!(b.bookings[0].bookingOfficeSectorName, "North");
    assert_eq!(b.bookings[0].bookingWorkplaceName, "D7");
    assert_eq!(Bookings::from_answer("[]").bookings.len(), 0);
}

#[test]
fn malformed_week_bookings_give_an_empty_list() {
    assert_eq!(Bookings::from_answer("not json").bookings.len(), 0);
    assert_eq!(Bookings::from_answer(r#"{"bookings":[]}"#).bookings.len(), 0);
    assert_eq!(Bookings::from_answer(r#"[{"date":"x"}]"#).bookings.len(), 0);
    let client = Client::new()
        .unlock(credentials(), Some(login_answer(&token(HEADER, PAYLOAD))))
        .ok()
        .unwrap();
    assert_eq!(client.week_bookings(Some("{oops".to_string())).unwrap().bookings.len(), 0);
    assert!(client.week_bookings(None).is_err());
}

#[test]
fn decimal_text_both_ways() {
    assert_eq!(format_u64(0), "0");
    assert_eq!(format_u64(u64::MAX), "18446744073709551615");
    assert_eq!(format_i64(-1_704_067_200_000), "-1704067200000");
    assert_eq!(format_i64(i64::MIN), "-9223372036854775808");
    assert_eq!(parse_u64("18446744073709551615"), Some(u64::MAX));
    assert_eq!(parse_u64("18446744073709551616"), None);
    assert_eq!(parse_u64("007"), Some(7));
    assert_eq!(parse_u64(""), None);
    assert_eq!(parse_u64("-1"), None);
    assert_eq!(parse_u64("1a"), None);
    assert_eq!(parse_u64("+7"), Some(7));
    assert_eq!(parse_u64("+"), None);
    assert_eq!(parse_u64("++7"), None);
    assert_eq!(parse_u64("7+"), None);
}

