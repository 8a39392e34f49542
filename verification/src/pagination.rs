//! Paginated views of a result set.

use vstd::prelude::*;

verus! {

/// The smaller of two integers.
pub open spec fn min(a: int, b: int) -> int {
    if a <= b {
        a
    } else {
        b
    }
}

/// Where a page of `limit` items at `offset` starts in a result set of `total` items.
pub open spec fn page_start(total: int, offset: int) -> int {
    min(offset, total)
}

/// How many items a page of `limit` items at `offset` holds, out of `total`.
pub open spec fn page_len(total: int, offset: int, limit: int) -> int {
    min(limit, total - page_start(total, offset))
}

/// The items of `all` that the page at `offset` with `limit` holds: those
/// left after skipping `offset`, at most `limit` of them.
pub open spec fn page_items<T>(all: Seq<T>, offset: int, limit: int) -> Seq<T> {
    let start = page_start(all.len() as int, offset);
    all.subrange(start, start + page_len(all.len() as int, offset, limit))
}

/// A paginated response containing a slice of items.
#[derive(Debug)]
pub struct Page<T> {
    items: Vec<T>,
    offset: usize,
    limit: usize,
    total: usize,
}

impl<T: Clone> Clone for Page<T> {
    /// A copy of the page; each item is copied with its own `clone`.
    fn clone(&self) -> (c: Self)
        ensures
            c.spec_offset() == self.spec_offset(),
            c.spec_limit() == self.spec_limit(),
            c.spec_total() == self.spec_total(),
            c.spec_items().len() == self.spec_items().len(),
            forall|i: int|
                0 <= i < self.spec_items().len() ==> cloned::<T>(
                    self.spec_items()[i],
                    #[trigger] c.spec_items()[i],
                ),
    {
        proof {
            use_type_invariant(self);
        }
        Page { items: self.items.clone(), offset: self.offset, limit: self.limit, total: self.total }
    }
}

impl<T> Page<T> {
    /// The page's items never run past the end of the result set.
    #[verifier::type_invariant]
    closed spec fn well_formed(self) -> bool {
        self.items.len() == page_len(self.total as int, self.offset as int, self.limit as int)
    }

    /// The items of the page.
    pub closed spec fn spec_items(&self) -> Seq<T> {
        self.items@
    }

    /// The number of items skipped.
    pub closed spec fn spec_offset(&self) -> usize {
        self.offset
    }

    /// The largest number of items the page may hold.
    pub closed spec fn spec_limit(&self) -> usize {
        self.limit
    }

    /// The size of the full result set.
    pub closed spec fn spec_total(&self) -> usize {
        self.total
    }

    /// Create a page from a full result set: skip `offset` items, then keep at most `limit`.
    pub fn from_vec(all: Vec<T>, offset: usize, limit: usize) -> (page: Self)
        ensures
            page.spec_items() == page_items(all@, offset as int, limit as int),
            page.spec_offset() == offset,
            page.spec_limit() == limit,
            page.spec_total() == all.len(),
    {
        let total = all.len();
        let mut rest = all;
        let items = if offset <= total {
            let mut tail = rest.split_off(offset);
            tail.truncate(limit);
            tail
        } else {
            Vec::new()
        };
        proof {
            assert(items@ =~= page_items(all@, offset as int, limit as int));
        }
        Page { items, offset, limit, total }
    }

    pub fn items(&self) -> (s: &[T])
        ensures
            s@ == self.spec_items(),
    {
        self.items.as_slice()
    }

    pub fn offset(&self) -> (n: usize)
        ensures
            n == self.spec_offset(),
    {
        self.offset
    }

    pub fn limit(&self) -> (n: usize)
        ensures
            n == self.spec_limit(),
    {
        self.limit
    }

    pub fn total(&self) -> (n: usize)
        ensures
            n == self.spec_total(),
    {
        self.total
    }

    /// Whether items follow this page.
    pub fn has_next(&self) -> (b: bool)
        ensures
            b == (self.spec_offset() + self.spec_items().len() < self.spec_total()),
    {
        proof {
            use_type_invariant(self);
        }
        self.offset + self.items.len() < self.total
    }

    /// Whether items precede this page.
    pub fn has_previous(&self) -> (b: bool)
        ensures
            b == (self.spec_offset() > 0),
    {
        self.offset > 0
    }
}

} // verus!
