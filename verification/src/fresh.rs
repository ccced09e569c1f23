//! What differs from call to call: new identifiers and the time.

use vstd::prelude::*;

verus! {

/// A small hexadecimal digit.
pub open spec fn is_small_hex(c: char) -> bool {
    '0' <= c <= '9' || 'a' <= c <= 'f'
}

/// The text of a random UUID: five groups of small hexadecimal digits, of 8, 4,
/// 4, 4 and 12, with hyphens between them, the version 4 and the variant in
/// their places.
pub open spec fn is_random_uuid(id: Seq<char>) -> bool {
    &&& id.len() == 36
    &&& forall|i: int|
        0 <= i < 36 ==> if i == 8 || i == 13 || i == 18 || i == 23 {
            #[trigger] id[i] == '-'
        } else {
            is_small_hex(id[i])
        }
    &&& id[14] == '4'
    &&& id[19] == '8' || id[19] == '9' || id[19] == 'a' || id[19] == 'b'
}

/// `uuid::Uuid::new_v4`, as text: a random UUID of version 4, hyphenated and in
/// small letters, whatever the random bits are. Which one it is rests on chance.
/// The call panics where the operating system has no random bits to give.
#[verifier::external_body]
pub(crate) fn new_session_id() -> (id: String)
    ensures
        is_random_uuid(id@),
{
    uuid::Uuid::new_v4().to_string()
}

/// `chrono::Utc::now`, as whole seconds since the epoch: never negative, for the
/// call panics where the clock stands before the epoch. Which second it is rests
/// on the clock.
#[verifier::external_body]
pub(crate) fn seconds_now() -> (seconds: i64)
    ensures
        seconds >= 0,
{
    chrono::Utc::now().timestamp()
}

} // verus!
