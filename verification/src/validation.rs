//! Structural checks of email addresses and UUID strings.

use vstd::prelude::*;

use crate::text::{chars_of, trim, trim_bounds};

verus! {

/// The domain part of an address: it holds a dot, and neither starts nor ends with one.
pub open spec fn valid_domain(d: Seq<char>) -> bool {
    &&& d.len() > 0
    &&& d.contains('.')
    &&& d[0] != '.'
    &&& d.last() != '.'
}

/// `t` holds exactly one `@`, with a non-empty local part before it and a
/// valid domain after it.
pub open spec fn valid_email_chars(t: Seq<char>) -> bool {
    exists|i: int|
        0 < i < t.len() && #[trigger] t[i] == '@' && (forall|j: int|
            0 <= j < t.len() && j != i ==> t[j] != '@') && valid_domain(
            t.subrange(i + 1, t.len() as int),
        )
}

/// An ASCII hexadecimal digit: `0-9`, `a-f` or `A-F`.
pub open spec fn is_hex_digit(c: char) -> bool {
    ||| '0' <= c <= '9'
    ||| 'a' <= c <= 'f'
    ||| 'A' <= c <= 'F'
}

/// Positions of the four hyphens in a hyphenated UUID.
pub open spec fn is_uuid_hyphen_position(i: int) -> bool {
    i == 8 || i == 13 || i == 18 || i == 23
}

/// `t` is five groups of 8, 4, 4, 4 and 12 hexadecimal digits joined by hyphens.
pub open spec fn valid_uuid_chars(t: Seq<char>) -> bool {
    &&& t.len() == 36
    &&& forall|i: int|
        0 <= i < 36 ==> if is_uuid_hyphen_position(i) {
            #[trigger] t[i] == '-'
        } else {
            is_hex_digit(t[i])
        }
}

/// Whether `email`, once trimmed, has the basic shape of an email address.
pub fn validate_email(email: &str) -> (r: bool)
    ensures
        r == valid_email_chars(trim(email@)),
{
    let v = chars_of(email);
    let (lo, hi) = trim_bounds(&v);
    let ghost t = trim(email@);
    if lo == hi {
        return false;
    }
    // Find the '@' signs.

    let mut at: usize = hi;
    let mut count: usize = 0;
    let mut k: usize = lo;
    while k < hi
        invariant
            v@ == email@,
            lo <= k <= hi <= v.len(),
            t == v@.subrange(lo as int, hi as int),
            count <= 2,
            count == 0 ==> at == hi && forall|j: int| lo <= j < k ==> v@[j] != '@',
            count >= 1 ==> lo <= at < k && v@[at as int] == '@',
            count == 1 ==> forall|j: int| lo <= j < k && j != at ==> v@[j] != '@',
            count == 2 ==> exists|j: int| lo <= j < k && j != at && v@[j] == '@',
        decreases hi - k,
    {
        if v[k] == '@' {
            if count == 0 {
                at = k;
                count = 1;
            } else {
                count = 2;
            }
        }
        k = k + 1;
    }
    if count != 1 {
        proof {
            if count == 0 {
                assert forall|i: int| 0 < i < t.len() && #[trigger] t[i] == '@' implies false by {
                    assert(t[i] == v@[i + lo]);
                }
            } else {
                let j = choose|j: int| lo <= j < hi && j != at && v@[j] == '@';
                assert forall|i: int|
                    0 < i < t.len() && #[trigger] t[i] == '@' implies !(forall|j2: int|
                    0 <= j2 < t.len() && j2 != i ==> t[j2] != '@') by {
                    assert(t[i] == v@[i + lo]);
                    assert(t[at - lo] == v@[at as int]);
                    assert(t[j - lo] == v@[j]);
                }
            }
        }
        return false;
    }
    let ghost i = at - lo;
    assert(t[i] == '@');
    assert forall|j: int| 0 <= j < t.len() && j != i implies t[j] != '@' by {
        assert(t[j] == v@[j + lo]);
    }
    // The local part must not be empty, nor the domain.
    if at == lo || at + 1 == hi {
        return false;
    }
    let ghost d = t.subrange(i + 1, t.len() as int);
    assert(forall|j: int| 0 <= j < d.len() ==> d[j] == #[trigger] v@[j + at + 1]);
    // The domain must contain a dot, and neither start nor end with one.
    let mut has_dot = false;
    let mut m: usize = at + 1;
    while m < hi
        invariant
            v@ == email@,
            lo <= at < hi <= v.len(),
            at + 1 <= m <= hi,
            d.len() == hi - at - 1,
            forall|j: int| 0 <= j < d.len() ==> d[j] == #[trigger] v@[j + at + 1],
            has_dot <==> exists|j: int| at + 1 <= j < m && v@[j] == '.',
        decreases hi - m,
    {
        if v[m] == '.' {
            has_dot = true;
        }
        m = m + 1;
    }
    proof {
        if has_dot {
            let j = choose|j: int| at + 1 <= j < hi && v@[j] == '.';
            assert(d[j - at - 1] == v@[j]);
        } else {
            assert forall|j: int| 0 <= j < d.len() implies d[j] != '.' by {
                assert(d[j] == v@[j + at + 1]);
            }
        }
        assert(d[0] == v@[at + 1]);
        assert(d.last() == v@[hi - 1]);
    }
    let r = has_dot && v[at + 1] != '.' && v[hi - 1] != '.';
    proof {
        if !r {
            assert forall|i2: int|
                0 < i2 < t.len() && #[trigger] t[i2] == '@' && (forall|j: int|
                    0 <= j < t.len() && j != i2 ==> t[j] != '@') implies !valid_domain(
                t.subrange(i2 + 1, t.len() as int),
            ) by {
                assert(i2 == i);
            }
        }
    }
    r
}

/// Whether `c` is an ASCII hexadecimal digit.
pub fn is_ascii_hex_digit(c: char) -> (r: bool)
    ensures
        r == is_hex_digit(c),
{
    ('0' <= c && c <= '9') || ('a' <= c && c <= 'f') || ('A' <= c && c <= 'F')
}

/// Whether `input`, once trimmed, is a hyphenated UUID of hexadecimal digits
/// (groups of 8, 4, 4, 4 and 12).
pub fn validate_uuid(input: &str) -> (r: bool)
    ensures
        r == valid_uuid_chars(trim(input@)),
{
    let v = chars_of(input);
    let (lo, hi) = trim_bounds(&v);
    let ghost t = trim(input@);
    if hi - lo != 36 {
        return false;
    }
    let mut k: usize = 0;
    while k < 36
        invariant
            v@ == input@,
            lo <= hi <= v.len(),
            hi - lo == 36,
            t == trim(input@),
            t == v@.subrange(lo as int, hi as int),
            k <= 36,
            forall|i: int|
                0 <= i < k ==> if is_uuid_hyphen_position(i) {
                    #[trigger] t[i] == '-'
                } else {
                    is_hex_digit(t[i])
                },
        decreases 36 - k,
    {
        let c = v[lo + k];
        assert(t[k as int] == c);
        let ok = if k == 8 || k == 13 || k == 18 || k == 23 {
            c == '-'
        } else {
            is_ascii_hex_digit(c)
        };
        if !ok {
            assert(!valid_uuid_chars(t)) by {
                assert(t[k as int] == c);
            }
            return false;
        }
        k = k + 1;
    }
    true
}

} // verus!
