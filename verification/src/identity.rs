//! Identifiers made by chance, and digests.

use vstd::prelude::*;

verus! {

/// Whether a character is a lower-case hexadecimal digit.
pub open spec fn is_lower_hex(c: char) -> bool {
    '0' <= c <= '9' || 'a' <= c <= 'f'
}

/// Whether a text is a random UUID in its hyphenated form.
pub open spec fn is_uuid_v4(value: Seq<char>) -> bool {
    &&& value.len() == 36
    &&& forall|i: int|
        0 <= i < 36 ==> if i == 8 || i == 13 || i == 18 || i == 23 {
            #[trigger] value[i] == '-'
        } else {
            is_lower_hex(value[i])
        }
    &&& value[14] == '4'
    &&& (value[19] == '8' || value[19] == '9' || value[19] == 'a' || value[19] == 'b')
}

/// `uuid::Uuid::new_v4` makes a random UUID: its text has lower-case
/// hexadecimal digits in groups, with the digit of the version and one of the
/// four digits of the variant at their places. Which one it is, is left to chance.
#[verifier::external_body]
pub(crate) fn new_uuid() -> (r: String)
    ensures
        is_uuid_v4(r@),
{
    uuid::Uuid::new_v4().to_string()
}

/// `rand::random` draws eight bytes; which ones is left to chance.
#[verifier::external_body]
pub(crate) fn random_bytes() -> (r: [u8; 8]) {
    rand::random::<[u8; 8]>()
}

/// The MD5 digest of bytes, as `md5::compute` gives it.
pub uninterp spec fn md5_digest(bytes: Seq<u8>) -> Seq<u8>;

/// `md5::compute` digests bytes to sixteen bytes.
#[verifier::external_body]
pub(crate) fn digest(bytes: &[u8]) -> (r: [u8; 16])
    ensures
        r@ == md5_digest(bytes@),
{
    md5::compute(bytes).0
}

/// A random UUID is written in 36 characters: groups of 8, 4, 4, 4 and 12 small
/// hexadecimal digits between hyphens, the version 4 and the variant among them.
pub proof fn law_uuids_are_five_groups_of_digits(value: Seq<char>, i: int)
    requires
        is_uuid_v4(value),
    ensures
        value.len() == 36,
        0 <= i < 36 ==> (value[i] == '-' <==> i == 8 || i == 13 || i == 18 || i == 23),
        0 <= i < 36 && value[i] != '-' ==> '0' <= value[i] <= '9' || 'a' <= value[i] <= 'f',
        value[14] == '4',
        value[19] == '8' || value[19] == '9' || value[19] == 'a' || value[19] == 'b',
{
}

} // verus!
