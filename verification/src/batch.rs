use vstd::prelude::*;

verus! {

/// The smaller of two integers.
pub open spec fn min_int(a: int, b: int) -> int {
    if a <= b {
        a
    } else {
        b
    }
}

/// `r` is how `count` items are handed out in batches of `size`: batch `k`
/// runs from item `k * size` up to item `(k + 1) * size`, or to the end where
/// that comes first, and there are just enough batches to reach the end.
pub open spec fn are_batches(r: Seq<(usize, usize)>, count: int, size: int) -> bool {
    &&& r.len() * size >= count
    &&& r.len() == 0 || (r.len() - 1) * size < count
    &&& forall|k: int|
        0 <= k < r.len() ==> #[trigger] r[k] == (
            (k * size) as usize,
            min_int(k * size + size, count) as usize,
        )
}

/// Splits `count` items into consecutive batches of `size` (the last one
/// shorter where `count` is not a multiple of `size`), each given by its
/// first item and the item past its last.
pub fn work_batches(count: usize, size: usize) -> (r: Vec<(usize, usize)>)
    requires
        size > 0,
    ensures
        are_batches(r@, count as int, size as int),
{
    let mut r: Vec<(usize, usize)> = Vec::new();
    let mut start: usize = 0;
    while start < count
        invariant
            size > 0,
            start <= count,
            start == min_int(r.len() * size, count as int),
            forall|k: int|
                0 <= k < r.len() ==> #[trigger] r@[k] == (
                    (k * size) as usize,
                    min_int(k * size + size, count as int) as usize,
                ),
            r.len() == 0 || (r.len() - 1) * size < count,
        decreases count - start,
    {
        let end: usize = if count - start < size {
            count
        } else {
            start + size
        };
        let ghost n = r.len() as int;
        assert((n + 1) * size == n * size + size) by (nonlinear_arith);
        r.push((start, end));
        start = end;
    }
    r
}

/// The batch that item `i` falls in.
pub open spec fn batch_of(i: int, size: int) -> int {
    i / size
}

/// Work handed out in batches reaches every item once: the batches follow
/// each other without gap or overlap from the first item to the last, none is
/// empty or longer than `size`, and every item lies in one of them (item `i`
/// in batch `i / size`). No work gives no batch.
pub proof fn law_batches_partition(r: Seq<(usize, usize)>, count: int, size: int)
    requires
        0 <= count <= usize::MAX,
        size > 0,
        are_batches(r, count, size),
    ensures
        r.len() == 0 <==> count == 0,
        r.len() > 0 ==> r[0].0 == 0 && r.last().1 == count,
        forall|k: int| 0 <= k < r.len() - 1 ==> #[trigger] r[k].1 == r[k + 1].0,
        forall|k: int| 0 <= k < r.len() ==> r[k].0 < #[trigger] r[k].1 <= r[k].0 + size,
        forall|i: int|
            0 <= i < count ==> 0 <= #[trigger] batch_of(i, size) < r.len() && r[batch_of(i, size)].0
                <= i < r[batch_of(i, size)].1,
{
    assert forall|k: int| 0 <= k < r.len() implies r[k].0 < #[trigger] r[k].1 <= r[k].0 + size by {
        assert(k * size <= (r.len() - 1) * size) by (nonlinear_arith)
            requires
                0 <= k <= r.len() - 1,
                size > 0,
        ;
    }
    assert forall|k: int| 0 <= k < r.len() - 1 implies #[trigger] r[k].1 == r[k + 1].0 by {
        assert((k + 1) * size == k * size + size) by (nonlinear_arith);
        assert((k + 1) * size <= (r.len() - 1) * size) by (nonlinear_arith)
            requires
                0 <= k + 1 <= r.len() - 1,
                size > 0,
        ;
    }
    if r.len() > 0 {
        let n = r.len() - 1;
        assert(r[0] == r[0int]);
        assert(r.last() == r[n]);
        assert(n * size + size == r.len() * size) by (nonlinear_arith)
            requires
                n == r.len() - 1,
        ;
    }
    assert forall|i: int| 0 <= i < count implies 0 <= #[trigger] batch_of(i, size) < r.len()
        && r[batch_of(i, size)].0 <= i < r[batch_of(i, size)].1 by {
        let k = i / size;
        vstd::arithmetic::div_mod::lemma_fundamental_div_mod(i, size);
        assert(0 <= k) by (nonlinear_arith)
            requires
                0 <= i,
                size > 0,
                k == i / size,
        ;
        assert(k < r.len()) by (nonlinear_arith)
            requires
                k == i / size,
                size > 0,
                0 <= i < count,
                r.len() * size >= count,
                i == size * (i / size) + i % size,
                0 <= i % size,
        ;
        assert(k * size <= i < k * size + size) by (nonlinear_arith)
            requires
                k == i / size,
                size > 0,
                i == size * (i / size) + i % size,
                0 <= i % size < size,
        ;
    }
}

} // verus!
