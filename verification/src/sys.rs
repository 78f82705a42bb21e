//! Small trusted shims: the wall clock, identifier drawing, and one string
//! primitive that the standard library offers but vstd does not specify.

use vstd::prelude::*;

verus! {

/// Relies on std's `String::push`: appends exactly one character to the end
/// of the string.
#[verifier::external_body]
pub(crate) fn push_char(s: &mut String, c: char)
    ensures
        final(s)@ == old(s)@.push(c),
{
    s.push(c);
}

/// Relies on `chrono::Utc::now` and `DateTime::timestamp`: the current
/// wall-clock time in whole seconds since the Unix epoch.  Nothing is assumed
/// about the reading; every caller states what holds for an arbitrary value.
/// On a system whose clock is set before 1970 the call itself aborts; that
/// is an environmental failure independent of any input.
#[verifier::external_body]
pub(crate) fn now_ts() -> i64 {
    chrono::Utc::now().timestamp()
}

/// Relies on `uuid::Uuid::new_v4` and `Uuid::as_u128`: a freshly drawn
/// random identifier carried as its 128-bit value.  Nothing is assumed about
/// the value; the store enforces identifier uniqueness itself.  If the
/// operating system's randomness source fails the call itself aborts; that
/// is an environmental failure independent of any input.
#[verifier::external_body]
pub(crate) fn fresh_id() -> u128 {
    uuid::Uuid::new_v4().as_u128()
}

} // verus!
