use vstd::prelude::*;
use vstd::string::*;
use std::time::{Duration, SystemTime, SystemTimeError, UNIX_EPOCH};
use crate::height::{
    all_digits, decimal, decimal_text, height_text, lemma_fixed_digits_are_digits, pad_height,
};

verus! {

#[verifier::external_type_specification]
#[verifier::external_body]
pub struct ExSystemTime(SystemTime);

#[verifier::external_type_specification]
#[verifier::external_body]
pub struct ExSystemTimeError(SystemTimeError);

#[verifier::external_type_specification]
#[verifier::external_body]
pub struct ExJsonError(serde_json::Error);

pub assume_specification[ Duration::as_secs ](d: &Duration) -> u64;

pub assume_specification[ Duration::subsec_millis ](d: &Duration) -> (r: u32)
    ensures
        r < 1000,
;

/// Relies on SystemTime::now: the wall-clock time at the call.
#[verifier::external_body]
fn now() -> SystemTime {
    SystemTime::now()
}

/// Relies on SystemTime::duration_since: the time elapsed since the Unix
/// epoch, or an error where the clock reads earlier than the epoch.
#[verifier::external_body]
fn since_epoch(t: &SystemTime) -> Result<Duration, SystemTimeError> {
    t.duration_since(UNIX_EPOCH)
}

/// No character of `s` needs escaping inside a JSON string literal.
pub open spec fn json_plain(s: Seq<char>) -> bool {
    forall|i: int| 0 <= i < s.len() ==> ' ' <= #[trigger] s[i] && s[i] != '"' && s[i] != '\\'
}

/// Relies on serde_json::to_string on a string: a JSON string literal, which
/// writes a character that needs no escape as it is, between double quotes.
#[verifier::external_body]
fn json_string(s: &String) -> (r: Result<String, serde_json::Error>)
    ensures
        json_plain(s@) ==> r is Ok && r->Ok_0@ == seq!['"'] + s@ + seq!['"'],
{
    serde_json::to_string(s)
}

/// Why the wall clock could not be read as milliseconds since the epoch.
#[derive(Debug, Clone, Copy, PartialEq, Eq, Structural)]
pub enum ClockError {
    /// The clock reads earlier than the Unix epoch.
    BeforeEpoch,
    /// The count of milliseconds does not fit in 64 bits.
    Overflow,
}

/// Renders whole seconds and milliseconds past them as a decimal count of
/// milliseconds.
pub fn millis_text(secs: u64, subsec_millis: u32) -> (r: Result<String, ClockError>)
    ensures
        secs * 1000 + subsec_millis <= u64::MAX ==> r is Ok && r->Ok_0@ == decimal(
            (secs * 1000 + subsec_millis) as nat,
        ),
        secs * 1000 + subsec_millis > u64::MAX ==> r == Err::<String, ClockError>(
            ClockError::Overflow,
        ),
{
    match secs.checked_mul(1000) {
        None => Err(ClockError::Overflow),
        Some(ms) => match ms.checked_add(subsec_millis as u64) {
            None => Err(ClockError::Overflow),
            Some(total) => Ok(decimal_text(total as u128)),
        },
    }
}

/// The wall-clock time as a decimal count of milliseconds since the Unix
/// epoch.
pub fn system_time() -> (r: Result<String, ClockError>)
    ensures
        r is Ok ==> exists|n: nat| n <= u64::MAX && r->Ok_0@ == decimal(n),
{
    let t = now();
    match since_epoch(&t) {
        Err(_) => Err(ClockError::BeforeEpoch),
        Ok(d) => millis_text(d.as_secs(), d.subsec_millis()),
    }
}

/// The JSON object that reports a wall-clock reading and a ledger height.
pub open spec fn timestamp_object(millis: Seq<char>, height: nat) -> Seq<char> {
    "{\"block_height\":\""@ + height_text(height) + "\",\"timestamp\":\""@ + millis + "\"}"@
}

/// Reports a wall-clock reading (decimal milliseconds) together with a
/// ledger height, zero-padded, as a JSON object.
pub fn timestamp_response(millis: &String, height: u128) -> (r: Option<String>)
    ensures
        json_plain(millis@) ==> r is Some && r->0@ == timestamp_object(millis@, height as nat),
{
    let h = pad_height(height);
    proof {
        lemma_fixed_digits_are_digits(height as nat, 12);
        lemma_fixed_digits_are_digits(height as nat, crate::height::digit_count(height as nat));
        assert(json_plain(h@));
    }
    let qh = match json_string(&h) {
        Ok(q) => q,
        Err(_) => return None,
    };
    let qt = match json_string(millis) {
        Ok(q) => q,
        Err(_) => return None,
    };
    let mut out = String::from_str("{\"block_height\":");
    out.append(qh.as_str());
    out.append(",\"timestamp\":");
    out.append(qt.as_str());
    out.append("}");
    proof {
        reveal_strlit("{\"block_height\":");
        reveal_strlit(",\"timestamp\":");
        reveal_strlit("}");
        reveal_strlit("{\"block_height\":\"");
        reveal_strlit("\",\"timestamp\":\"");
        reveal_strlit("\"}");
        let q = seq!['"'];
        assert("{\"block_height\":\""@ =~= "{\"block_height\":"@ + q);
        assert("\",\"timestamp\":\""@ =~= q + ",\"timestamp\":"@ + q);
        assert("\"}"@ =~= q + "}"@);
        if json_plain(millis@) {
            assert(out@ =~= timestamp_object(millis@, height as nat));
        }
    }
    Some(out)
}

} // verus!
