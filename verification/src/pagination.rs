//! How many items a page may hold.

use vstd::prelude::*;

verus! {

/// The page size when the caller asks for none.
pub const DEFAULT_PAGE_SIZE: usize = 50;

/// The largest page a caller can get.
pub const MAX_PAGE_SIZE: usize = 100;

/// The size of the page that answers a request for `requested` items: absent
/// and non-positive requests take the default, larger ones the maximum.
pub open spec fn page_size(requested: Option<i32>) -> int {
    match requested {
        Some(size) if size > 0 => if size <= MAX_PAGE_SIZE {
            size as int
        } else {
            MAX_PAGE_SIZE as int
        },
        _ => DEFAULT_PAGE_SIZE as int,
    }
}

/// Resolves a requested page size. The result is never zero and never above
/// the maximum: an oversized request is clamped, not rejected.
pub fn resolve_page_size(requested: Option<i32>) -> (r: usize)
    ensures
        r == page_size(requested),
        1 <= r <= MAX_PAGE_SIZE,
{
    match requested {
        Some(size) => if size > 0 {
            let size: usize = size as usize;
            if size <= MAX_PAGE_SIZE {
                size
            } else {
                MAX_PAGE_SIZE
            }
        } else {
            DEFAULT_PAGE_SIZE
        },
        None => DEFAULT_PAGE_SIZE,
    }
}

/// Where a page starts when `total` items are paged from offset `start`.
pub open spec fn page_start(start: int, total: int) -> int {
    if start < total {
        start
    } else {
        total
    }
}

/// Where the page of at most `size` items that starts at `start` ends.
pub open spec fn page_end(start: int, size: int, total: int) -> int {
    if page_start(start, total) + size < total {
        page_start(start, total) + size
    } else {
        total
    }
}

/// The page of at most `size` items of `all` from offset `start` on.
pub open spec fn page<T>(all: Seq<T>, start: int, size: int) -> Seq<T> {
    all.subrange(
        page_start(start, all.len() as int),
        page_end(start, size, all.len() as int),
    )
}

/// The pages from offset `start` on, in order, until no page follows.
pub open spec fn pages<T>(all: Seq<T>, start: int, size: int) -> Seq<Seq<T>>
    decreases all.len() - start,
{
    let end = page_end(start, size, all.len() as int);
    if 0 <= start < end < all.len() {
        seq![page(all, start, size)] + pages(all, end, size)
    } else {
        seq![page(all, start, size)]
    }
}

/// Everything in `groups`, in order.
pub open spec fn concatenated<T>(groups: Seq<Seq<T>>) -> Seq<T>
    decreases groups.len(),
{
    if groups.len() == 0 {
        Seq::empty()
    } else {
        groups[0] + concatenated(groups.drop_first())
    }
}

/// Following the pages from offset `start` visits every item from there on
/// exactly once, in order, whatever the page size.
pub proof fn pages_cover_everything<T>(all: Seq<T>, start: int, size: int)
    requires
        0 <= start <= all.len(),
        size > 0,
    ensures
        concatenated(pages(all, start, size)) == all.skip(start),
    decreases all.len() - start,
{
    let end = page_end(start, size, all.len() as int);
    let here = page(all, start, size);
    if start < end < all.len() {
        let rest = pages(all, end, size);
        pages_cover_everything(all, end, size);
        assert(pages(all, start, size).drop_first() =~= rest);
        assert(here + all.skip(end) =~= all.skip(start));
    } else {
        assert(pages(all, start, size) =~= seq![here]);
        assert(seq![here].drop_first() =~= Seq::<Seq<T>>::empty());
        assert(concatenated(seq![here].drop_first()) =~= Seq::<T>::empty());
        assert(here + Seq::<T>::empty() =~= here);
        assert(here =~= all.skip(start));
    }
}

/// A page size between 1 and 100 is served as it was asked for; a larger one
/// is served as 100, and an absent, zero or negative one as 50.
pub proof fn page_sizes_are_bounded(requested: Option<i32>, r: usize)
    requires
        call_ensures(resolve_page_size, (requested,), r),
    ensures
        requested is None ==> r == 50,
        requested matches Some(size) ==> {
            &&& size <= 0 ==> r == 50
            &&& 1 <= size <= 100 ==> r == size
            &&& size > 100 ==> r == 100
        },
{
}

/// A page holds the items from its offset on, in order and as many as fit; it
/// is short only where it reaches the end, and empty where it starts there.
pub proof fn pages_hold_what_follows_the_offset<T>(all: Seq<T>, start: int, size: int, i: int)
    requires
        0 <= start,
        size > 0,
    ensures
        ({
            let here = page(all, start, size);
            &&& here.len() <= size
            &&& start >= all.len() ==> here.len() == 0
            &&& start < all.len() ==> {
                &&& here.len() > 0
                &&& start + here.len() <= all.len()
                &&& here.len() < size ==> start + here.len() == all.len()
                &&& 0 <= i < here.len() ==> here[i] == all[start + i]
            }
        }),
{
}

} // verus!
