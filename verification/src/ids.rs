//! Item identifiers: 128-bit UUID values, generated and formatted by the `uuid` crate.

use vstd::prelude::*;
use vstd::arithmetic::power2::{pow2, lemma_pow2_pos};

use crate::validation::{is_hex_digit, is_uuid_hyphen_position, valid_uuid_chars};

verus! {

/// The identifier of an item: the 128-bit value of a UUID.
#[derive(Clone, Copy, Debug, PartialEq, Eq, Structural, Hash)]
pub struct ItemId {
    value: u128,
}

impl View for ItemId {
    type V = u128;

    closed spec fn view(&self) -> u128 {
        self.value
    }
}

/// The lowercase hexadecimal digit for `n` in `0..16`.
pub open spec fn hex_digit(n: int) -> char {
    seq!['0', '1', '2', '3', '4', '5', '6', '7', '8', '9', 'a', 'b', 'c', 'd', 'e', 'f'][n]
}

/// The `k`-th hexadecimal digit of `v`, counting from the most significant (`k` in `0..32`).
pub open spec fn nibble(v: u128, k: int) -> int {
    (v as int / pow2((4 * (31 - k)) as nat) as int) % 16
}

/// How many hyphens precede position `i` of the hyphenated form.
pub open spec fn hyphens_before(i: int) -> int {
    if i < 8 {
        0
    } else if i < 13 {
        1
    } else if i < 18 {
        2
    } else if i < 23 {
        3
    } else {
        4
    }
}

/// The hyphenated lowercase form of a UUID, like `67e55044-10b1-426f-9247-bb680e5fe0c8`:
/// the 32 hexadecimal digits of `v`, most significant first, in groups of 8, 4, 4, 4 and 12.
pub open spec fn uuid_text(v: u128) -> Seq<char> {
    Seq::new(
        36,
        |i: int|
            if is_uuid_hyphen_position(i) {
                '-'
            } else {
                hex_digit(nibble(v, i - hyphens_before(i)))
            },
    )
}

/// The version field (bits 76..80) of a UUID value.
pub open spec fn uuid_version(v: u128) -> int {
    nibble(v, 12)
}

/// The hexadecimal digit that holds the variant field (bits 60..64) of a UUID value.
pub open spec fn uuid_variant_nibble(v: u128) -> int {
    nibble(v, 16)
}

/// `uuid::Uuid::new_v4` (with `Uuid::as_u128`): a random version-4 UUID.
/// Claimed: the version field is 4 and the variant field is that of RFC 4122 (its
/// top two bits are `10`). The other bits are random and nothing is said of them.
#[verifier::external_body]
fn random_uuid_v4() -> (v: u128)
    ensures
        uuid_version(v) == 4,
        8 <= uuid_variant_nibble(v) < 12,
{
    uuid::Uuid::new_v4().as_u128()
}

/// `uuid::Uuid::hyphenated` formatted with `to_string` (after `Uuid::from_u128`).
/// Claimed: the text is the hyphenated lowercase form of the value, as the crate's
/// `format_hyphenated` writes it.
#[verifier::external_body]
fn hyphenated_text(v: u128) -> (s: String)
    ensures
        s@ == uuid_text(v),
{
    uuid::Uuid::from_u128(v).hyphenated().to_string()
}

impl ItemId {
    /// The identifier with the given 128-bit value.
    pub fn from_u128(value: u128) -> (id: ItemId)
        ensures
            id@ == value,
    {
        ItemId { value }
    }

    /// The 128-bit value of this identifier.
    pub fn as_u128(&self) -> (v: u128)
        ensures
            v == self@,
    {
        self.value
    }

    /// A fresh random (version 4) identifier.
    pub fn new_v4() -> (id: ItemId)
        ensures
            uuid_version(id@) == 4,
            8 <= uuid_variant_nibble(id@) < 12,
    {
        ItemId { value: random_uuid_v4() }
    }

    /// The hyphenated lowercase text of this identifier.
    pub fn to_text(&self) -> (s: String)
        ensures
            s@ == uuid_text(self@),
    {
        hyphenated_text(self.value)
    }
}

/// Every hexadecimal digit that `hex_digit` gives is one that validation accepts.
proof fn lemma_hex_digit_is_hex(n: int)
    requires
        0 <= n < 16,
    ensures
        is_hex_digit(hex_digit(n)),
{
    let s = seq!['0', '1', '2', '3', '4', '5', '6', '7', '8', '9', 'a', 'b', 'c', 'd', 'e', 'f'];
    assert(hex_digit(n) == s[n]);
    if n < 8 {
        if n < 4 {
            assert(n == 0 || n == 1 || n == 2 || n == 3);
        } else {
            assert(n == 4 || n == 5 || n == 6 || n == 7);
        }
    } else if n < 12 {
        assert(n == 8 || n == 9 || n == 10 || n == 11);
    } else {
        assert(n == 12 || n == 13 || n == 14 || n == 15);
    }
}

/// `validate_uuid` accepts the text of every identifier.
pub proof fn lemma_uuid_text_is_valid(v: u128)
    ensures
        valid_uuid_chars(uuid_text(v)),
{
    let t = uuid_text(v);
    assert forall|i: int| 0 <= i < 36 implies if is_uuid_hyphen_position(i) {
        #[trigger] t[i] == '-'
    } else {
        is_hex_digit(t[i])
    } by {
        if !is_uuid_hyphen_position(i) {
            let k = i - hyphens_before(i);
            lemma_pow2_pos((4 * (31 - k)) as nat);
            lemma_hex_digit_is_hex(nibble(v, k));
        }
    }
}

} // verus!
