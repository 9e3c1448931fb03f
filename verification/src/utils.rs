//! Identifiers that chance picks.

use rand::Rng;

use vstd::prelude::*;

use crate::text::{
    all_digits, digits_value, lemma_zero_padded, power_of_ten, zero_padded, zero_padded_text,
};

verus! {

/// One more than the largest number of a room.
pub const ROOM_NUMBERS: u64 = 1_000_000_000_000;

/// Whether `c` is a hexadecimal digit in lower case.
pub open spec fn is_lower_hex(c: char) -> bool {
    '0' <= c <= '9' || 'a' <= c <= 'f'
}

/// Whether `s` is a random UUID in its usual form: five groups of lower-case
/// hexadecimal digits, with the marks of version 4 and of the usual variant.
pub open spec fn is_uuid_v4(s: Seq<char>) -> bool {
    &&& s.len() == 36
    &&& forall|i: int|
        0 <= i < 36 ==> if i == 8 || i == 13 || i == 18 || i == 23 {
            #[trigger] s[i] == '-'
        } else {
            is_lower_hex(s[i])
        }
    &&& s[14] == '4'
    &&& s[19] == '8' || s[19] == '9' || s[19] == 'a' || s[19] == 'b'
}

/// A number below `bound`: `random_range` of the generator that `rand::rng`
/// gives, on the range from zero up to `bound`.
///
/// The contract says that the number is below the bound. Which number comes is
/// left open, since chance picks it. An empty range is ruled out: `random_range`
/// panics on one.
#[verifier::external_body]
fn random_below(bound: u64) -> (n: u64)
    requires
        bound > 0,
    ensures
        n < bound,
{
    rand::rng().random_range(0..bound)
}

/// A new random UUID: `uuid::Uuid::new_v4`, written out by its `to_string`.
///
/// The contract gives the form of the text, which is the same for every UUID
/// of version 4. Which one comes is left open, since chance picks it.
#[verifier::external_body]
fn new_uuid_v4() -> (s: String)
    ensures
        is_uuid_v4(s@),
{
    uuid::Uuid::new_v4().to_string()
}

/// A new random UUID as text.
pub fn generate_random_uuid() -> (s: String)
    ensures
        is_uuid_v4(s@),
{
    new_uuid_v4()
}

/// Whether `s` is the number of a room: twelve decimal digits.
pub open spec fn is_room_number(s: Seq<char>) -> bool {
    s.len() == 12 && all_digits(s)
}

/// The number of a room as text: twelve digits, with leading zeros.
pub fn room_number_text(number: u64) -> (s: String)
    requires
        number < ROOM_NUMBERS,
    ensures
        s@ == zero_padded(number as nat, 12),
        is_room_number(s@),
        digits_value(s@) == number,
{
    proof {
        lemma_zero_padded(number as nat, 12);
        reveal_with_fuel(power_of_ten, 13);
    }
    zero_padded_text(number, 12)
}

/// A random number for a room, as text.
pub fn generate_room_id() -> (s: String)
    ensures
        is_room_number(s@),
{
    room_number_text(random_below(ROOM_NUMBERS))
}

} // verus!
