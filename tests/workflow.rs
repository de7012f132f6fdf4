use base64::engine::general_purpose::STANDARD_NO_PAD;
use base64::Engine;
use myairdesk::calendar::{next_monday, LocalDateTime, Moment};
use myairdesk::session::{Client, Credentials, Unlocked};
use myairdesk::week::{BookingError, WeekBooking};

const MONDAY_2024_01_01: i32 = 19723;
const MS_2024_01_01: i64 = 1_704_067_200_000;
const DAY_MS: i64 = 86_400_000;

fn client() -> Client<Unlocked> {
    let header = STANDARD_NO_PAD.encode(r#"{"alg":"HS256","typ":"JWT"}"#);
    let payload = STANDARD_NO_PAD
        .encode(r#"{"userId":"42","userRoleId":"1","expTime":"","nbf":0,"exp":0,"iat":0}"#);
    let answer = format!(r#"{{"data":{{"token":"{}.{}.sig"}},"message":""}}"#, header, payload);
    let credentials =
        Credentials::from_values(Some("u".to_string()), Some("p".to_string()), Some("3".to_string()))
            .unwrap();
    Client::new().unlock(credentials, Some(answer)).ok().unwrap()
}

/// Drives a week against the answers in `statuses`, one per request
/// made, in a zone whose offset is `offset_of(day)`; returns the requested
/// instants and the week's result.
fn drive_in(
    monday: LocalDateTime,
    statuses: &[Option<u16>],
    offset_of: impl Fn(i32) -> i32,
) -> (Vec<i64>, Result<(), BookingError>) {
    let client = client();
    let mut week = client.book_week(monday);
    let mut dates = Vec::new();
    let mut answers = statuses.iter();
    while let Some(day) = week.next_day() {
        assert_eq!(day.ms_of_day, monday.ms_of_day);
        dates.push(day.at_offset(offset_of(day.day)).unwrap().timestamp_ms());
        week.record(client.book_day(*answers.next().expect("an answer for every request")));
    }
    (dates, week.result().expect("the week has stopped"))
}

fn drive(monday: LocalDateTime, statuses: &[Option<u16>]) -> (Vec<i64>, Result<(), BookingError>) {
    drive_in(monday, statuses, |_| 0)
}

fn utc(day: i32, ms_of_day: u32) -> LocalDateTime {
    LocalDateTime::new(day, ms_of_day).unwrap()
}

#[test]
fn next_monday_of_monday_is_itself() {
    let m = utc(MONDAY_2024_01_01, 3_600_000);
    assert_eq!(m.weekday(), 0);
    assert_eq!(next_monday(&m), m);
}

#[test]
fn next_monday_of_other_days_is_the_coming_monday() {
    for k in 1..7 {
        let m = utc(MONDAY_2024_01_01 + k, 45_000);
        assert_eq!(m.weekday() as i32, k);
        let r = next_monday(&m);
        assert_eq!(r.day, MONDAY_2024_01_01 + 7);
        assert_eq!(r.weekday(), 0);
        assert_eq!(r.ms_of_day, 45_000);
    }
}

#[test]
fn weekday_before_epoch() {
    // 1969-12-29 was a Monday.
    assert_eq!(utc(-3, 0).weekday(), 0);
    assert_eq!(utc(-4, 0).weekday(), 6);
}

#[test]
fn moment_rejects_out_of_range_values() {
    assert!(Moment::new(0, 86_400_000, 0).is_none());
    assert!(Moment::new(0, 0, 86_400_000).is_none());
    assert!(Moment::new(0, 0, -86_400_000).is_none());
    assert!(Moment::new(0, 86_399_999, -86_399_999).is_some());
    assert!(LocalDateTime::new(0, 86_400_000).is_none());
    assert!(utc(0, 0).at_offset(86_400_000).is_none());
}

#[test]
fn timestamp_uses_the_offset() {
    let m = Moment::new(MONDAY_2024_01_01, 0, 0).unwrap();
    assert_eq!(m.timestamp_ms(), MS_2024_01_01);
    let paris = Moment::new(MONDAY_2024_01_01, 3_600_000, 3_600_000).unwrap();
    assert_eq!(paris.timestamp_ms(), MS_2024_01_01);
    assert_eq!(paris.local(), utc(MONDAY_2024_01_01, 3_600_000));
}

#[test]
fn week_keeps_wall_clock_time_across_an_offset_change() {
    // Summer time (+2 h) ends on the night from Tuesday to Wednesday.
    let monday = utc(MONDAY_2024_01_01, 8 * 3_600_000);
    let offset_of = |day: i32| if day < MONDAY_2024_01_01 + 2 { 7_200_000 } else { 3_600_000 };
    let (dates, result) = drive_in(monday, &[Some(200); 5], offset_of);
    let expected: Vec<i64> = (0..5)
        .map(|i| MS_2024_01_01 + i * DAY_MS + 8 * 3_600_000 - if i < 2 { 7_200_000 } else { 3_600_000 })
        .collect();
    assert_eq!(dates, expected);
    assert_eq!(result, Ok(()));
}

#[test]
fn full_week_books_five_days_in_order() {
    let monday = utc(MONDAY_2024_01_01, 0);
    let (dates, result) = drive(monday, &[Some(200); 5]);
    let expected: Vec<i64> = (0..5).map(|i| MS_2024_01_01 + i * DAY_MS).collect();
    assert_eq!(dates, expected);
    assert_eq!(result, Ok(()));
}

#[test]
fn full_week_keeps_the_time_of_day() {
    let monday = utc(MONDAY_2024_01_01, 30_600_000);
    let (dates, _) = drive(monday, &[Some(201); 5]);
    assert_eq!(dates[0], MS_2024_01_01 + 30_600_000);
    assert_eq!(dates[4], MS_2024_01_01 + 4 * DAY_MS + 30_600_000);
}

#[test]
fn conflict_on_day_three_continues() {
    let monday = utc(MONDAY_2024_01_01, 0);
    let (dates, result) = drive(monday, &[Some(200), Some(200), Some(409), Some(200), Some(200)]);
    assert_eq!(dates.len(), 5);
    assert_eq!(dates[3], MS_2024_01_01 + 3 * DAY_MS);
    assert_eq!(dates[4], MS_2024_01_01 + 4 * DAY_MS);
    assert_eq!(result, Ok(()));
}

#[test]
fn every_day_rejected_still_succeeds() {
    let monday = utc(MONDAY_2024_01_01, 0);
    let (dates, result) = drive(monday, &[Some(409), Some(400), Some(500), Some(302), Some(100)]);
    assert_eq!(dates.len(), 5);
    assert_eq!(result, Ok(()));
}

#[test]
fn connection_failure_on_day_two_aborts() {
    let monday = utc(MONDAY_2024_01_01, 0);
    let (dates, result) = drive(monday, &[Some(200), None]);
    assert_eq!(dates, vec![MS_2024_01_01, MS_2024_01_01 + DAY_MS]);
    assert_eq!(result, Err(BookingError::HTTP_ERROR));
}

#[test]
fn transport_error_on_first_day_stops_at_once() {
    let monday = utc(MONDAY_2024_01_01, 0);
    let (dates, result) = drive(monday, &[None]);
    assert_eq!(dates, vec![MS_2024_01_01]);
    assert_eq!(result, Err(BookingError::HTTP_ERROR));
}

#[test]
fn week_result_pending_until_stopped() {
    let monday = utc(MONDAY_2024_01_01, 0);
    let mut week = WeekBooking::new(monday);
    assert_eq!(week.result(), None);
    week.record(Ok(()));
    assert_eq!(week.result(), None);
    assert_eq!(week.next_day(), Some(utc(MONDAY_2024_01_01 + 1, 0)));
}

#[test]
fn book_day_classifies_answers() {
    let client = client();
    assert_eq!(client.book_day(None), Err(BookingError::HTTP_ERROR));
    assert_eq!(client.book_day(Some(200)), Ok(()));
    assert_eq!(client.book_day(Some(299)), Ok(()));
    assert_eq!(client.book_day(Some(409)), Err(BookingError::BOOK_ERROR));
    assert_eq!(client.book_day(Some(199)), Err(BookingError::BOOK_ERROR));
    assert_eq!(client.book_day(Some(300)), Err(BookingError::BOOK_ERROR));
}
