//! Client-side logic of an unattended desk-booking agent: calendar
//! arithmetic for the work week, bearer-token decoding, the session state
//! machine and the weekly booking workflow. Network I/O is left to the
//! caller, which performs the requests this library frames and hands back
//! what the service answered.
pub mod calendar;
pub mod decimal;
pub mod json;
pub mod session;
pub mod token;
pub mod week;
