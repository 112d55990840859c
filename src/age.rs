//! Ages of pods, written the way `kubectl` does: `42s`, `5m`, `3h`, `7d`.
use vstd::prelude::*;
use crate::text::{decimal, push_char, push_decimal, push_signed_decimal, signed_decimal};

verus! {

broadcast use vstd::string::group_string_axioms;

/// Seconds since the Unix epoch of an RFC 3339 timestamp, where it is one.
pub uninterp spec fn rfc3339_seconds(s: Seq<char>) -> Option<i64>;

/// Relies on `chrono::DateTime::parse_from_rfc3339`, read as whole seconds
/// since the epoch by `DateTime::timestamp`; the result depends on the text
/// alone.
#[verifier::external_body]
fn parse_rfc3339(s: &str) -> (r: Option<i64>)
    ensures
        r == rfc3339_seconds(s@),
{
    match chrono::DateTime::parse_from_rfc3339(s) {
        Ok(t) => Some(t.timestamp()),
        Err(_) => None,
    }
}

/// The age label of `seconds`: seconds below a minute (negative ones too),
/// then whole minutes, hours, or days.
pub open spec fn age_text(seconds: int) -> Seq<char> {
    if seconds < 60 {
        signed_decimal(seconds) + seq!['s']
    } else if seconds < 3600 {
        decimal((seconds / 60) as nat) + seq!['m']
    } else if seconds < 86400 {
        decimal((seconds / 3600) as nat) + seq!['h']
    } else {
        decimal((seconds / 86400) as nat) + seq!['d']
    }
}

/// The age label of an age of `seconds`.
pub fn age_label(seconds: i128) -> (r: String)
    ensures
        r@ == age_text(seconds as int),
{
    let mut s = String::new();
    if seconds < 60 {
        push_signed_decimal(&mut s, seconds);
        push_char(&mut s, 's');
    } else if seconds < 3600 {
        push_decimal(&mut s, (seconds / 60) as u128);
        push_char(&mut s, 'm');
    } else if seconds < 86400 {
        push_decimal(&mut s, (seconds / 3600) as u128);
        push_char(&mut s, 'h');
    } else {
        push_decimal(&mut s, (seconds / 86400) as u128);
        push_char(&mut s, 'd');
    }
    assert(s@ =~= age_text(seconds as int));
    s
}

/// The age label of `timestamp` at time `now` (seconds since the epoch), or
/// `unknown` where `timestamp` is not RFC 3339.
pub open spec fn age_at_text(timestamp: Seq<char>, now: i64) -> Seq<char> {
    match rfc3339_seconds(timestamp) {
        Some(created) => age_text(now - created),
        None => "unknown"@,
    }
}

/// The age of a pod created at `timestamp`, seen at time `now`.
pub fn age_at(timestamp: &str, now: i64) -> (r: String)
    ensures
        r@ == age_at_text(timestamp@, now),
{
    match parse_rfc3339(timestamp) {
        Some(created) => age_label(now as i128 - created as i128),
        None => "unknown".to_string(),
    }
}

/// The age label that the dashboard shows at time `now`: a timestamp that is
/// not RFC 3339 counts as the epoch.
pub open spec fn dashboard_age_text(timestamp: Seq<char>, now: i64) -> Seq<char> {
    match rfc3339_seconds(timestamp) {
        Some(created) => age_text(now - created),
        None => age_text(now as int),
    }
}

/// The dashboard's age of a pod created at `timestamp`, seen at time `now`.
pub fn dashboard_age(timestamp: &str, now: i64) -> (r: String)
    ensures
        r@ == dashboard_age_text(timestamp@, now),
{
    let created: i64 = match parse_rfc3339(timestamp) {
        Some(c) => c,
        None => 0,
    };
    age_label(now as i128 - created as i128)
}

} // verus!
