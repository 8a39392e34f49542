//! Formatting of identifiers and of text for display.

use vstd::prelude::*;
use vstd::string::StringSliceAdditionalSpecFns;
use vstd::utf8::{decode_utf8, encode_utf8, is_char_boundary};

use crate::ids::{uuid_text, ItemId};

verus! {

/// Encoding a concatenation encodes each part in turn.
pub proof fn lemma_encode_concat(a: Seq<char>, b: Seq<char>)
    ensures
        encode_utf8(a + b) == encode_utf8(a) + encode_utf8(b),
    decreases a.len(),
{
    if a.len() == 0 {
        assert(a + b =~= b);
        assert(encode_utf8(a) + encode_utf8(b) =~= encode_utf8(b));
    } else {
        assert((a + b).drop_first() =~= a.drop_first() + b);
        assert((a + b)[0] == a[0]);
        lemma_encode_concat(a.drop_first(), b);
        assert(encode_utf8(a + b) =~= encode_utf8(a) + encode_utf8(b));
    }
}

/// The first `n` characters of the ellipsis `...`, for `n` up to 3.
pub open spec fn dots(n: int) -> Seq<char> {
    "..."@.subrange(0, n)
}

/// Format an identifier for display with a prefix: `prefix-<hyphenated id>`.
pub fn display_id(prefix: &str, id: &ItemId) -> (s: String)
    ensures
        s@ == prefix@ + "-"@ + uuid_text(id@),
{
    let text = id.to_text();
    String::from_str(prefix).concat("-").concat(text.as_str())
}

/// Truncate a string to a maximum length in bytes, appending "..." if truncated.
/// A string that fits is returned whole. A longer one keeps its first
/// `max_len - 3` bytes, then "..."; when `max_len` is under 3 there is no room
/// for any of the string, and the result is as much of "..." as fits.
pub fn truncate(s: &str, max_len: usize) -> (r: String)
    requires
        s.spec_bytes().len() <= usize::MAX,
        s.spec_bytes().len() <= max_len || max_len < 3 || is_char_boundary(
            s.spec_bytes(),
            max_len - 3,
        ),
    ensures
        s.spec_bytes().len() <= max_len ==> r@ == s@,
        s.spec_bytes().len() > max_len && max_len >= 3 ==> r@ == decode_utf8(
            s.spec_bytes().subrange(0, max_len - 3),
        ) + "..."@,
        s.spec_bytes().len() > max_len && max_len < 3 ==> r@ == dots(max_len as int),
        encode_utf8(r@).len() <= max_len,
{
    proof {
        reveal_strlit("...");
        reveal_strlit("..");
        reveal_strlit(".");
        reveal_strlit("");
        vstd::utf8::is_ascii_chars_encode_utf8("..."@);
    }
    if s.len() <= max_len {
        return String::from_str(s);
    }
    if max_len < 3 {
        let short = match max_len {
            0 => "",
            1 => ".",
            _ => "..",
        };
        proof {
            assert(short@ =~= dots(max_len as int));
            vstd::utf8::is_ascii_chars_encode_utf8(short@);
        }
        return String::from_str(short);
    }
    let cut = max_len - 3;
    let (head, _tail) = s.split_at(cut);
    proof {
        vstd::utf8::encode_utf8_decode_utf8(head@);
        lemma_encode_concat(head@, "..."@);
    }
    String::from_str(head).concat("...")
}

} // verus!
