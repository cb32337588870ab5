//! Splitting copied rows into append requests.
use vstd::arithmetic::div_mod::{lemma_fundamental_div_mod, lemma_mod_bound};
use vstd::prelude::*;

verus! {

/// Bytes that one append request may hold.
pub const MAX_BATCH_SIZE_BYTES: usize = 9_437_184;

/// `n / d`, rounded up.
pub open spec fn ceil_div(n: int, d: int) -> int {
    n / d + if n % d > 0 {
        1int
    } else {
        0int
    }
}

/// Returns `n / d`, rounded up.
fn div_ceil(n: usize, d: usize) -> (r: usize)
    requires
        d > 0,
    ensures
        r == ceil_div(n as int, d as int),
        n > 0 ==> 1 <= r <= n,
{
    proof {
        lemma_fundamental_div_mod(n as int, d as int);
        assert(n > 0 ==> n / d + (if n % d > 0 {
            1int
        } else {
            0int
        }) <= n && n / d + (if n % d > 0 {
            1int
        } else {
            0int
        }) >= 1) by (nonlinear_arith)
            requires
                d > 0,
                n == d * (n / d) + n % d,
                0 <= n % d < d,
                n / d >= 0,
        ;
    }
    let q: usize = n / d;
    if n % d > 0 {
        proof {
            assert(n > 0);
        }
        q + 1
    } else {
        q
    }
}

/// How many batches a copy of `total_rows` rows is to be split into, when one row takes
/// `row_size` bytes.
pub open spec fn target_batches(row_size: int, total_rows: int) -> int {
    let per_batch = if row_size > 0 {
        MAX_BATCH_SIZE_BYTES as int / row_size
    } else {
        total_rows
    };
    if total_rows == 0 {
        0
    } else if per_batch > 0 {
        ceil_div(total_rows, per_batch)
    } else {
        1
    }
}

/// Returns how many batches a copy is to be split into, from the encoded size of its first row.
pub fn calculate_target_batches_for_table_copy(
    estimated_row_size: usize,
    total_rows: usize,
) -> (r: usize)
    ensures
        r == target_batches(estimated_row_size as int, total_rows as int),
        total_rows > 0 ==> r >= 1,
{
    if total_rows == 0 {
        return 0;
    }
    let rows_per_batch: usize = if estimated_row_size > 0 {
        MAX_BATCH_SIZE_BYTES / estimated_row_size
    } else {
        total_rows
    };
    if rows_per_batch > 0 {
        div_ceil(total_rows, rows_per_batch)
    } else {
        1
    }
}

/// Number of batches that `n` rows are split into: the target, where there are more rows than that,
/// else one.
pub open spec fn batch_count(n: int, target: int) -> int {
    if n == 0 {
        0
    } else if n <= 1 || n <= target {
        1
    } else {
        target
    }
}

/// Where batch `i` of `k` starts: the first `n % k` batches hold one row more than the others.
pub open spec fn batch_start(n: int, k: int, i: int) -> int {
    i * (n / k) + if i < n % k {
        i
    } else {
        n % k
    }
}

/// Batches start one after the other, the first at zero, and end with the last row; their
/// lengths differ by one at most.
pub proof fn law_batches_are_balanced(n: int, k: int, i: int)
    requires
        0 < k <= n,
        0 <= i < k,
    ensures
        batch_start(n, k, 0) == 0,
        batch_start(n, k, k) == n,
        0 <= batch_start(n, k, i) < batch_start(n, k, i + 1) <= n,
        n / k <= batch_start(n, k, i + 1) - batch_start(n, k, i) <= n / k + 1,
{
    let (q, m) = (n / k, n % k);
    lemma_fundamental_div_mod(n, k);
    lemma_mod_bound(n, k);
    assert(q >= 1) by (nonlinear_arith)
        requires
            n == k * q + m,
            0 <= m < k,
            0 < k <= n,
    ;
    assert((i + 1) * q == i * q + q) by (nonlinear_arith);
    assert(k * q == q * k) by (nonlinear_arith);
    assert(i * q >= 0) by (nonlinear_arith)
        requires
            i >= 0,
            q >= 1,
    ;
    assert((i + 1) * q <= k * q) by (nonlinear_arith)
        requires
            i + 1 <= k,
            q >= 1,
    ;
    assert(0 * q == 0);
}

/// A split has as many batches as asked for, where there are more rows than that; else it has one,
/// or none where there is no row.
pub proof fn law_split_keeps_to_the_target(n: int, target: int)
    requires
        n >= 0,
        target >= 1,
    ensures
        n > target ==> batch_count(n, target) == target,
        0 < n <= target ==> batch_count(n, target) == 1,
        n == 0 ==> batch_count(n, target) == 0,
{
}

/// `ceil_div` is the least number of groups of `d` that hold `n`.
proof fn lemma_ceil(n: int, d: int)
    requires
        n > 0,
        d > 0,
    ensures
        ceil_div(n, d) * d >= n,
        (ceil_div(n, d) - 1) * d < n,
{
    let (q, m) = (n / d, n % d);
    lemma_fundamental_div_mod(n, d);
    lemma_mod_bound(n, d);
    assert((q + 1) * d == q * d + d && (q - 1) * d == q * d - d && d * q == q * d) by (
    nonlinear_arith);
}

/// Splits rows, in order, into `target_batches` batches of nearly the same length. Rows that are no
/// more than the batches asked for stay together.
pub fn split_table_rows<T>(table_rows: Vec<T>, target_batches: usize) -> (r: Vec<Vec<T>>)
    requires
        table_rows@.len() <= 1 || target_batches > 0,
    ensures
        r@.len() == batch_count(table_rows@.len() as int, target_batches as int),
        forall|i: int|
            0 <= i < r@.len() ==> (#[trigger] r@[i])@ == table_rows@.subrange(
                batch_start(table_rows@.len() as int, r@.len() as int, i),
                batch_start(table_rows@.len() as int, r@.len() as int, i + 1),
            ),
{
    let total: usize = table_rows.len();
    let mut batches: Vec<Vec<T>> = Vec::new();
    if total == 0 {
        return batches;
    }
    if total <= 1 || total <= target_batches {
        proof {
            law_batches_are_balanced(total as int, 1, 0);
            assert(table_rows@.subrange(0, total as int) =~= table_rows@);
        }
        batches.push(table_rows);
        return batches;
    }
    let count: usize = target_batches;
    let base: usize = total / count;
    let extra: usize = total % count;
    let ghost all = table_rows@;
    let ghost n = total as int;
    let ghost k = count as int;
    let mut remaining = table_rows;
    let mut i: usize = 0;
    proof {
        law_batches_are_balanced(n, k, 0);
        assert(all.skip(0) =~= all);
    }
    while i < count
        invariant
            i <= count,
            all.len() == n,
            n == total,
            k == count,
            0 < count <= total,
            base == n / k,
            extra == n % k,
            0 <= batch_start(n, k, i as int) <= n,
            remaining@ == all.skip(batch_start(n, k, i as int)),
            batches@.len() == i,
            forall|j: int|
                0 <= j < i ==> (#[trigger] batches@[j])@ == all.subrange(
                    batch_start(n, k, j),
                    batch_start(n, k, j + 1),
                ),
        decreases count - i,
    {
        let ghost start = batch_start(n, k, i as int);
        let ghost end = batch_start(n, k, i + 1);
        proof {
            law_batches_are_balanced(n, k, i as int);
            assert((i + 1) * (n / k) == i * (n / k) + n / k) by (nonlinear_arith);
            assert(end - start == base + (if i < extra {
                1int
            } else {
                0int
            }));
        }
        let size: usize = if i < extra {
            base + 1
        } else {
            base
        };
        let rest = remaining.split_off(size);
        proof {
            assert(remaining@ =~= all.subrange(start, end));
            assert(rest@ =~= all.skip(end));
        }
        batches.push(remaining);
        remaining = rest;
        i = i + 1;
    }
    batches
}

/// All batches of a split, one after the other.
pub open spec fn flattened<T>(batches: Seq<Vec<T>>) -> Seq<T>
    decreases batches.len(),
{
    if batches.len() == 0 {
        Seq::empty()
    } else {
        flattened(batches.drop_last()) + batches.last()@
    }
}

/// A split loses no row, repeats none and keeps the order.
pub proof fn law_split_keeps_all_rows<T>(rows: Seq<T>, batches: Seq<Vec<T>>, target: int)
    requires
        target >= 1,
        batches.len() == batch_count(rows.len() as int, target),
        forall|i: int|
            0 <= i < batches.len() ==> (#[trigger] batches[i])@ == rows.subrange(
                batch_start(rows.len() as int, batches.len() as int, i),
                batch_start(rows.len() as int, batches.len() as int, i + 1),
            ),
    ensures
        flattened(batches) == rows,
{
    let n = rows.len() as int;
    let k = batches.len() as int;
    if n == 0 {
        assert(flattened(batches) =~= rows);
    } else {
        law_split_keeps_to_the_target(n, target);
        lemma_flattened_prefix(rows, batches, k);
        law_batches_are_balanced(n, k, 0);
        assert(batches.take(k) =~= batches);
        assert(rows.take(n) =~= rows);
    }
}

proof fn lemma_flattened_prefix<T>(rows: Seq<T>, batches: Seq<Vec<T>>, i: int)
    requires
        0 < batches.len() <= rows.len(),
        0 <= i <= batches.len(),
        forall|j: int|
            0 <= j < batches.len() ==> (#[trigger] batches[j])@ == rows.subrange(
                batch_start(rows.len() as int, batches.len() as int, j),
                batch_start(rows.len() as int, batches.len() as int, j + 1),
            ),
    ensures
        0 <= batch_start(rows.len() as int, batches.len() as int, i) <= rows.len(),
        flattened(batches.take(i)) == rows.take(
            batch_start(rows.len() as int, batches.len() as int, i),
        ),
    decreases i,
{
    let n = rows.len() as int;
    let k = batches.len() as int;
    if i == 0 {
        law_batches_are_balanced(n, k, 0);
        assert(flattened(batches.take(0)) =~= rows.take(0));
    } else {
        law_batches_are_balanced(n, k, i - 1);
        lemma_flattened_prefix(rows, batches, i - 1);
        assert(batches.take(i).drop_last() =~= batches.take(i - 1));
        assert(batches.take(i).last() == batches[i - 1]);
        assert(flattened(batches.take(i)) =~= rows.take(batch_start(n, k, i)));
    }
}

/// Where at least two rows fit into a request and all rows have the size of the first, every
/// batch of a copy fits into one request.
pub proof fn law_copy_batches_fit(row_size: int, n: int, i: int)
    requires
        0 < row_size,
        2 * row_size <= MAX_BATCH_SIZE_BYTES,
        n > 0,
        0 <= i < batch_count(n, target_batches(row_size, n)),
    ensures
        ({
            let k = batch_count(n, target_batches(row_size, n));
            (batch_start(n, k, i + 1) - batch_start(n, k, i)) * row_size <= MAX_BATCH_SIZE_BYTES
        }),
{
    let max = MAX_BATCH_SIZE_BYTES as int;
    let q = max / row_size;
    lemma_fundamental_div_mod(max, row_size);
    lemma_mod_bound(max, row_size);
    assert(q >= 2) by (nonlinear_arith)
        requires
            max == row_size * q + max % row_size,
            0 <= max % row_size < row_size,
            2 * row_size <= max,
    ;
    let t = target_batches(row_size, n);
    lemma_ceil(n, q);
    assert(t >= 1) by (nonlinear_arith)
        requires
            t * q >= n,
            n > 0,
            q >= 2,
    ;
    let k = batch_count(n, t);
    law_split_keeps_to_the_target(n, t);
    law_batches_are_balanced(n, k, i);
    let len = batch_start(n, k, i + 1) - batch_start(n, k, i);
    if n <= 1 || n <= t {
        if n > 1 {
            assert(false) by (nonlinear_arith)
                requires
                    (t - 1) * q < n,
                    n <= t,
                    q >= 2,
                    n > 1,
            ;
        }
        law_batches_are_balanced(n, 1, 0);
        assert(len == n);
        assert(n <= q) by (nonlinear_arith)
            requires
                n <= 1,
                q >= 2,
        ;
    } else {
        lemma_fundamental_div_mod(n, k);
        lemma_mod_bound(n, k);
        let (b, e) = (n / k, n % k);
        if e == 0 {
            assert(len == b) by {
                assert((i + 1) * b == i * b + b) by (nonlinear_arith);
            }
            assert(b <= q) by (nonlinear_arith)
                requires
                    n == k * b + e,
                    e == 0,
                    k * q >= n,
                    k >= 1,
            ;
        } else {
            assert(b + 1 <= q) by (nonlinear_arith)
                requires
                    n == k * b + e,
                    e > 0,
                    k * q >= n,
                    k >= 1,
            ;
        }
    }
    assert(len <= q);
    assert(len * row_size <= max) by (nonlinear_arith)
        requires
            len <= q,
            row_size > 0,
            max == row_size * q + max % row_size,
            max % row_size >= 0,
    ;
}

/// Copied rows go into as few batches as hold them, each of no more than nine mebibytes by the size of
/// a row; rows without a size, and rows that no batch holds, go into one.
pub proof fn law_batches_are_as_few_as_hold_the_rows(row_size: int, n: int)
    requires
        row_size >= 0,
        n >= 0,
    ensures
        n == 0 ==> target_batches(row_size, n) == 0,
        n > 0 && row_size == 0 ==> target_batches(row_size, n) == 1,
        n > 0 && row_size > 9_437_184 ==> target_batches(row_size, n) == 1,
        n > 0 && 0 < row_size <= 9_437_184 ==> {
            let k = target_batches(row_size, n);
            let per_batch = 9_437_184int / row_size;
            &&& per_batch > 0
            &&& k * per_batch >= n
            &&& (k - 1) * per_batch < n
        },
{
    if n > 0 && row_size == 0 {
        lemma_ceil(n, n);
        assert(n / n == 1 && n % n == 0) by (nonlinear_arith)
            requires
                n > 0,
        ;
    }
    if n > 0 && row_size > 9_437_184 {
        assert(9_437_184int / row_size == 0) by (nonlinear_arith)
            requires
                row_size > 9_437_184,
        ;
    }
    if n > 0 && 0 < row_size <= 9_437_184 {
        let per_batch = 9_437_184int / row_size;
        assert(per_batch > 0) by (nonlinear_arith)
            requires
                0 < row_size <= 9_437_184,
                per_batch == 9_437_184int / row_size,
        ;
        lemma_ceil(n, per_batch);
    }
}

/// Larger batches come first: batch `i` has one row more than a later one, or as many.
pub proof fn law_larger_batches_come_first(n: int, k: int, i: int)
    requires
        0 < k <= n,
        0 <= i,
        i + 1 < k,
    ensures
        batch_start(n, k, i + 1) - batch_start(n, k, i) >= batch_start(n, k, i + 2) - batch_start(
            n,
            k,
            i + 1,
        ),
        batch_start(n, k, i + 1) - batch_start(n, k, i) == if i < n % k {
            n / k + 1
        } else {
            n / k
        },
{
    let q = n / k;
    assert((i + 1) * q == i * q + q) by (nonlinear_arith);
    assert((i + 2) * q == i * q + 2 * q) by (nonlinear_arith);
}

/// Rows are put together again in order.
pub proof fn law_batches_follow_each_other<T>(batches: Seq<Vec<T>>, batch: Vec<T>)
    ensures
        flattened(Seq::<Vec<T>>::empty()).len() == 0,
        flattened(batches.push(batch)) == flattened(batches) + batch@,
{
    assert(batches.push(batch).drop_last() =~= batches);
}

} // verus!
