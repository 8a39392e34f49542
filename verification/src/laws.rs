//! Properties that relate the operations of the library to one another.

use vstd::prelude::*;

use crate::config::{
    all_digits, decimal, digit_char, digit_value, digits_value, is_digit, parse_usize_spec,
    unsigned_digits,
};
use crate::metrics::{after_increment, after_reset, count_in, increments_since_reset, no_overflow, replay, CounterOp};
use crate::handler::{described, renamed};
use crate::model::{archived, deleted, ItemStatus, ItemView};
use crate::pagination::page_items;
use crate::store::{keyed_by_id, ItemStore};
use crate::text::{
    lemma_trim_end_at, lemma_trim_end_edges, lemma_trim_start_at, lemma_trim_start_edge, trim,
    trim_end, trim_start,
};
use crate::config::region_spec;
use crate::ids::{hex_digit, hyphens_before, lemma_uuid_text_is_valid, nibble, uuid_text};
use crate::validation::{
    is_hex_digit, is_uuid_hyphen_position, valid_domain, valid_email_chars, valid_uuid_chars,
};
use vstd::arithmetic::power2::lemma_pow2_pos;

verus! {

/// Reading after a write: once `put` has stored `item`, the store holds it
/// under its identifier, so `get` of that identifier gives it back.
pub proof fn law_get_after_put<S: ItemStore>(before: S, after: S, item: ItemView)
    requires
        after.contents() == before.contents().insert(item.id, item),
    ensures
        after.contents().contains_key(item.id),
        after.contents()[item.id] == item,
{
}

/// Once `delete` has removed an identifier, `get` of it finds nothing, and
/// every other item is still there unchanged.
pub proof fn law_get_after_delete<S: ItemStore>(before: S, after: S, id: u128, other: u128)
    requires
        after.contents() == before.contents().remove(id),
        other != id,
    ensures
        !after.contents().contains_key(id),
        after.contents().contains_key(other) == before.contents().contains_key(other),
        before.contents().contains_key(other) ==> after.contents()[other] == before.contents()[other],
{
}

/// After the handler deletes an item, reading it gives the item marked deleted;
/// after it archives one, reading gives it marked archived; after it updates one,
/// reading gives the new name and description. The other items are unchanged.
pub proof fn law_handler_read_after_change(
    m: Map<u128, ItemView>,
    id: u128,
    other: u128,
    name: Option<Seq<char>>,
    description: Option<Seq<char>>,
)
    requires
        m.contains_key(id),
        other != id,
    ensures
        ({
            let after = m.insert(id, deleted(m[id]));
            &&& after[id].status == ItemStatus::Deleted
            &&& after.dom() == m.dom()
            &&& m.contains_key(other) ==> after[other] == m[other]
        }),
        archived(m[id]) matches Some(a) ==> ({
            let after = m.insert(id, a);
            &&& after[id].status == ItemStatus::Archived
            &&& after.dom() == m.dom()
            &&& m.contains_key(other) ==> after[other] == m[other]
        }),
        ({
            let after = m.insert(id, described(renamed(m[id], name), description));
            &&& name matches Some(n) ==> after[id].name == n
            &&& description matches Some(d) ==> after[id].description == Some(d)
            &&& name is None ==> after[id].name == m[id].name
            &&& after[id].status == m[id].status
            &&& after[id].owner_id == m[id].owner_id
            &&& after.dom() == m.dom()
        }),
{
    assert(m.insert(id, deleted(m[id])).dom() =~= m.dom());
    if archived(m[id]) is Some {
        let a = archived(m[id])->0;
        assert(m.insert(id, a).dom() =~= m.dom());
    }
    assert(m.insert(id, described(renamed(m[id], name), description)).dom() =~= m.dom());
}

/// A `put` under an identifier already held replaces the item there; under a
/// new identifier it adds one item.
pub proof fn law_put_counts(m: Map<u128, ItemView>, item: ItemView)
    requires
        m.dom().finite(),
    ensures
        m.contains_key(item.id) ==> m.insert(item.id, item).dom().len() == m.dom().len(),
        !m.contains_key(item.id) ==> m.insert(item.id, item).dom().len() == m.dom().len() + 1,
{
    if m.contains_key(item.id) {
        assert(m.insert(item.id, item).dom() =~= m.dom());
    }
}

/// Every change the store and the handler make keeps each item under its own
/// identifier: storing an item under its identifier, or removing one.
pub proof fn law_keyed_by_id_kept(m: Map<u128, ItemView>, item: ItemView, id: u128)
    requires
        keyed_by_id(m),
    ensures
        keyed_by_id(m.insert(item.id, item)),
        keyed_by_id(m.remove(id)),
{
}

/// A deleted item can no longer be archived.
pub proof fn law_archive_after_delete_refused(v: ItemView)
    ensures
        archived(deleted(v)) is None,
        deleted(v).status == ItemStatus::Deleted,
{
}

/// Archiving twice is archiving once; archiving and deleting change nothing but the status.
pub proof fn law_archive_idempotent(v: ItemView)
    ensures
        archived(v) matches Some(a) ==> archived(a) == Some(a),
        archived(v) matches Some(a) ==> (a.id == v.id && a.name == v.name && a.description
            == v.description && a.owner_id == v.owner_id),
        deleted(v).id == v.id && deleted(v).name == v.name && deleted(v).description
            == v.description && deleted(v).owner_id == v.owner_id,
{
}

/// A page has a next page exactly when the items beyond the offset outnumber the limit.
pub proof fn law_has_next_iff_more_than_limit<T>(all: Seq<T>, offset: int, limit: int)
    requires
        0 <= offset,
        0 <= limit,
    ensures
        (offset + page_items(all, offset, limit).len() < all.len()) <==> (offset + limit
            < all.len()),
{
}

/// Two consecutive pages together hold what one page of both their sizes holds.
pub proof fn law_consecutive_pages<T>(all: Seq<T>, offset: int, first: int, second: int)
    requires
        0 <= offset,
        0 <= first,
        0 <= second,
    ensures
        page_items(all, offset, first) + page_items(all, offset + first, second) == page_items(
            all,
            offset,
            first + second,
        ),
{
    assert(page_items(all, offset, first) + page_items(all, offset + first, second) =~= page_items(
        all,
        offset,
        first + second,
    ));
}

/// After `reset`, every counter reads zero, known or not.
pub proof fn law_reset_reads_zero(counts: Map<Seq<char>, u64>, name: Seq<char>)
    ensures
        count_in(after_reset(counts), name) == 0,
{
}

/// After `increment`, the counter reads one more, and every other counter is unchanged.
pub proof fn law_increment_reads_one_more(
    counts: Map<Seq<char>, u64>,
    name: Seq<char>,
    other: Seq<char>,
)
    requires
        count_in(counts, name) < u64::MAX,
        other != name,
    ensures
        count_in(after_increment(counts, name), name) == count_in(
            counts,
            name,
        ) + 1,
        count_in(after_increment(counts, name), other) == count_in(
            counts,
            other,
        ),
{
}

/// Trimming is idempotent, so whitespace around an address or an identifier
/// never changes what validation says of it.
pub proof fn law_trim_idempotent(s: Seq<char>)
    ensures
        trim(trim(s)) == trim(s),
        valid_email_chars(trim(trim(s))) == valid_email_chars(trim(s)),
        valid_uuid_chars(trim(trim(s))) == valid_uuid_chars(trim(s)),
{
    let u = trim_start(s);
    lemma_trim_start_edge(s);
    let t = trim(s);
    if u.len() == 0 {
        assert(trim_end(u) == u);
        assert(t.len() == 0);
        assert(trim_start(t) == t);
        assert(trim_end(t) == t);
    } else {
        lemma_trim_end_edges(u);
        lemma_trim_start_at(t, 0);
        assert(t.subrange(0, t.len() as int) =~= t);
        lemma_trim_end_at(t, t.len() as int);
    }
}

/// A collector made by `new` and changed by the calls `ops` (with no counter
/// overflowing) reads, for every name, the number of increments of that name
/// since the last reset, or since `new` if there was none: zero for a name never
/// incremented.
pub proof fn law_counts_follow_calls(ops: Seq<CounterOp>)
    requires
        no_overflow(ops),
    ensures
        forall|name: Seq<char>|
            #[trigger] count_in(replay(ops), name) == increments_since_reset(ops, name),
    decreases ops.len(),
{
    if ops.len() > 0 {
        let prefix = ops.drop_last();
        assert(no_overflow(prefix)) by {
            assert forall|i: int| 0 <= i < prefix.len() implies (#[trigger] prefix[i] matches CounterOp::Increment(n)
                ==> increments_since_reset(prefix.take(i), n) < u64::MAX) by {
                assert(prefix[i] == ops[i]);
                assert(prefix.take(i) =~= ops.take(i));
            }
        }
        law_counts_follow_calls(prefix);
        let before = replay(prefix);
        match ops.last() {
            CounterOp::Increment(n) => {
                assert(ops[ops.len() - 1] == ops.last());
                assert(ops.take(ops.len() - 1) =~= prefix);
                assert(count_in(before, n) == increments_since_reset(prefix, n));
                assert forall|name: Seq<char>| #[trigger] count_in(replay(ops), name)
                    == increments_since_reset(ops, name) by {
                    assert(count_in(before, name) == increments_since_reset(prefix, name));
                }
            },
            CounterOp::Reset => {
                assert forall|name: Seq<char>| #[trigger] count_in(replay(ops), name)
                    == increments_since_reset(ops, name) by {
                }
            },
        }
    } else {
        assert forall|name: Seq<char>| #[trigger] count_in(replay(ops), name)
            == increments_since_reset(ops, name) by {
        }
    }
}

/// The digit that `digit_char` gives reads back as its value.
proof fn lemma_digit_char(d: int)
    requires
        0 <= d < 10,
    ensures
        is_digit(digit_char(d)),
        digit_value(digit_char(d)) == d,
{
    let s = seq!['0', '1', '2', '3', '4', '5', '6', '7', '8', '9'];
    assert(digit_char(d) == s[d]);
    if d < 5 {
        assert(d == 0 || d == 1 || d == 2 || d == 3 || d == 4);
    } else {
        assert(d == 5 || d == 6 || d == 7 || d == 8 || d == 9);
    }
}

/// The numeral of `n` is all digits and reads back as `n`.
proof fn lemma_decimal_value(n: nat)
    ensures
        decimal(n).len() > 0,
        all_digits(decimal(n)),
        digits_value(decimal(n)) == n,
    decreases n,
{
    if n < 10 {
        lemma_digit_char(n as int);
        let s = decimal(n);
        assert(s.drop_last() =~= Seq::<char>::empty());
        assert(s.last() == digit_char(n as int));
        assert(digits_value(s) == digits_value(s.drop_last()) * 10 + digit_value(s.last()));
    } else {
        lemma_decimal_value(n / 10);
        lemma_digit_char((n % 10) as int);
        let s = decimal(n);
        assert(s.drop_last() =~= decimal(n / 10));
        assert(s.last() == digit_char((n % 10) as int));
        assert(digits_value(s) == digits_value(s.drop_last()) * 10 + digit_value(s.last()));
        assert((n / 10) * 10 + n % 10 == n);
        assert forall|i: int| 0 <= i < s.len() implies is_digit(#[trigger] s[i]) by {
            if i < s.len() - 1 {
                assert(s[i] == decimal(n / 10)[i]);
            }
        }
    }
}

/// Parsing the decimal text of a number gives the number back.
pub proof fn law_parse_decimal_round_trip(n: usize)
    ensures
        parse_usize_spec(decimal(n as nat)) == Some(n),
{
    lemma_decimal_value(n as nat);
    let s = decimal(n as nat);
    assert(is_digit(s[0]));
    assert(unsigned_digits(s) == s);
}


/// An update changes only what it is given: with no new description the item
/// keeps its description, with one it takes it; with no new name it keeps its
/// name, with one it takes it; the identifier, status and owner never change.
pub proof fn law_update_changes_only_what_is_given(
    v: ItemView,
    name: Option<Seq<char>>,
    description: Option<Seq<char>>,
)
    ensures
        ({
            let after = described(renamed(v, name), description);
            &&& description is None ==> after.description == v.description
            &&& description matches Some(d) ==> after.description == Some(d)
            &&& name is None ==> after.name == v.name
            &&& name matches Some(n) ==> after.name == n
            &&& after.id == v.id
            &&& after.status == v.status
            &&& after.owner_id == v.owner_id
        }),
{
}

/// `AWS_REGION` decides the region whenever it is set, whatever
/// `AWS_DEFAULT_REGION` holds; `AWS_DEFAULT_REGION` decides only when
/// `AWS_REGION` is unset; with neither, the region is `ap-southeast-2`.
pub proof fn law_region_precedence(
    aws_region: Option<String>,
    aws_default_region: Option<String>,
)
    ensures
        aws_region matches Some(r) ==> region_spec(aws_region, aws_default_region) == r@,
        aws_region is None ==> (aws_default_region matches Some(d) ==> region_spec(
            aws_region,
            aws_default_region,
        ) == d@),
        aws_region is None && aws_default_region is None ==> region_spec(
            aws_region,
            aws_default_region,
        ) == "ap-southeast-2"@,
{
}

/// Any non-empty local part without `@`, joined by one `@` to a domain without
/// `@` that holds a dot and neither starts nor ends with one, is a valid
/// address, however long either part is.
pub proof fn law_email_accepts_any_local_part(local: Seq<char>, domain: Seq<char>)
    requires
        local.len() > 0,
        domain.len() > 0,
        !local.contains('@'),
        !domain.contains('@'),
        domain.contains('.'),
        domain[0] != '.',
        domain[domain.len() - 1] != '.',
    ensures
        valid_email_chars(local + seq!['@'] + domain),
{
    let t = local + seq!['@'] + domain;
    let i = local.len() as int;
    assert(t[i] == '@');
    assert forall|j: int| 0 <= j < t.len() && j != i implies t[j] != '@' by {
        if j < i {
            assert(t[j] == local[j]);
        } else {
            assert(t[j] == domain[j - i - 1]);
        }
    }
    assert(t.subrange(i + 1, t.len() as int) =~= domain);
}

/// A valid address is exactly such a join: a non-empty local part without `@`,
/// one `@`, and a domain without `@` that holds a dot and neither starts nor
/// ends with one.
pub proof fn law_email_is_local_at_domain(t: Seq<char>)
    requires
        valid_email_chars(t),
    ensures
        exists|i: int|
            0 < i < t.len() - 1 && #[trigger] t[i] == '@' && !t.subrange(0, i).contains('@')
                && !t.subrange(i + 1, t.len() as int).contains('@') && t.subrange(
                i + 1,
                t.len() as int,
            ).contains('.') && t[i + 1] != '.' && t[t.len() - 1] != '.',
{
    let i = choose|i: int|
        0 < i < t.len() && #[trigger] t[i] == '@' && (forall|j: int|
            0 <= j < t.len() && j != i ==> t[j] != '@') && valid_domain(
            t.subrange(i + 1, t.len() as int),
        );
    let l = t.subrange(0, i);
    let d = t.subrange(i + 1, t.len() as int);
    assert(d[0] == t[i + 1]);
    assert(d[d.len() - 1] == t[t.len() - 1]);
    assert(!l.contains('@')) by {
        assert forall|j: int| 0 <= j < l.len() implies l[j] != '@' by {
            assert(l[j] == t[j]);
        }
    }
    assert(!d.contains('@')) by {
        assert forall|j: int| 0 <= j < d.len() implies d[j] != '@' by {
            assert(d[j] == t[j + i + 1]);
        }
    }
}

/// The uppercase hexadecimal digit for `n` in `0..16`.
pub open spec fn upper_hex_digit(n: int) -> char {
    seq!['0', '1', '2', '3', '4', '5', '6', '7', '8', '9', 'A', 'B', 'C', 'D', 'E', 'F'][n]
}

/// The hyphenated form of a UUID with uppercase letters.
pub open spec fn uuid_text_upper(v: u128) -> Seq<char> {
    Seq::new(
        36,
        |i: int|
            if is_uuid_hyphen_position(i) {
                '-'
            } else {
                upper_hex_digit(nibble(v, i - hyphens_before(i)))
            },
    )
}

/// Every hexadecimal digit, lowercase or uppercase, counts as one, and so does
/// nothing else among letters: `a`..`f` and `A`..`F` are digits, `g` and `G` are not.
pub proof fn law_hex_digits_either_case(n: int)
    requires
        0 <= n < 16,
    ensures
        is_hex_digit(upper_hex_digit(n)),
        is_hex_digit(hex_digit(n)),
        !is_hex_digit('g') && !is_hex_digit('G'),
{
    let s = seq!['0', '1', '2', '3', '4', '5', '6', '7', '8', '9', 'A', 'B', 'C', 'D', 'E', 'F'];
    let l = seq!['0', '1', '2', '3', '4', '5', '6', '7', '8', '9', 'a', 'b', 'c', 'd', 'e', 'f'];
    assert(upper_hex_digit(n) == s[n]);
    assert(hex_digit(n) == l[n]);
    if n < 8 {
        if n < 4 {
            assert(n == 0 || n == 1 || n == 2 || n == 3);
        } else {
            assert(n == 4 || n == 5 || n == 6 || n == 7);
        }
    } else if n < 12 {
        assert(n == 8 || n == 9 || n == 10 || n == 11);
    } else {
        assert(n == 12 || n == 13 || n == 14 || n == 15);
    }
}

/// Validation accepts the hyphenated form of every 128-bit value in uppercase,
/// as it does in lowercase.
pub proof fn law_uuid_text_valid_in_either_case(v: u128)
    ensures
        valid_uuid_chars(uuid_text(v)),
        valid_uuid_chars(uuid_text_upper(v)),
{
    lemma_uuid_text_is_valid(v);
    let t = uuid_text_upper(v);
    assert forall|i: int| 0 <= i < 36 implies if is_uuid_hyphen_position(i) {
        #[trigger] t[i] == '-'
    } else {
        is_hex_digit(t[i])
    } by {
        if !is_uuid_hyphen_position(i) {
            let k = i - hyphens_before(i);
            lemma_pow2_pos((4 * (31 - k)) as nat);
            law_hex_digits_either_case(nibble(v, k));
        }
    }
}

} // verus!
