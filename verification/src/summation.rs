//! Finite sums of integer-valued functions over an index range, with the
//! algebra the rest of the crate needs: congruence, additivity, bounds for
//! non-negative terms, and exchange of the order of a double sum.

use vstd::prelude::*;

verus! {

/// `f(0) + f(1) + ... + f(n - 1)`; zero when `n == 0`.
pub open spec fn sum(n: nat, f: spec_fn(int) -> int) -> int
    decreases n,
{
    if n == 0 {
        0
    } else {
        sum((n - 1) as nat, f) + f(n - 1)
    }
}

/// Every term with an index below `n` is non-negative.
pub open spec fn non_negative(n: nat, f: spec_fn(int) -> int) -> bool {
    forall|i: int| 0 <= i < n ==> #[trigger] f(i) >= 0
}

/// Two functions that agree below `n` have the same sum.
pub proof fn lemma_sum_congruent(n: nat, f: spec_fn(int) -> int, g: spec_fn(int) -> int)
    requires
        forall|i: int| 0 <= i < n ==> #[trigger] f(i) == g(i),
    ensures
        sum(n, f) == sum(n, g),
    decreases n,
{
    if n > 0 {
        lemma_sum_congruent((n - 1) as nat, f, g);
    }
}

/// A sum of zeros is zero.
pub proof fn lemma_sum_zero(n: nat, f: spec_fn(int) -> int)
    requires
        forall|i: int| 0 <= i < n ==> #[trigger] f(i) == 0,
    ensures
        sum(n, f) == 0,
    decreases n,
{
    if n > 0 {
        lemma_sum_zero((n - 1) as nat, f);
    }
}

/// The sum of termwise sums is the sum of the sums.
pub proof fn lemma_sum_add(
    n: nat,
    f: spec_fn(int) -> int,
    g: spec_fn(int) -> int,
    h: spec_fn(int) -> int,
)
    requires
        forall|i: int| 0 <= i < n ==> #[trigger] h(i) == f(i) + g(i),
    ensures
        sum(n, h) == sum(n, f) + sum(n, g),
    decreases n,
{
    if n > 0 {
        lemma_sum_add((n - 1) as nat, f, g, h);
    }
}

/// With non-negative terms a sum is non-negative and grows with its range.
pub proof fn lemma_sum_monotone(n: nat, m: nat, f: spec_fn(int) -> int)
    requires
        n <= m,
        non_negative(m, f),
    ensures
        0 <= sum(n, f) <= sum(m, f),
    decreases m,
{
    if m > 0 {
        if n < m {
            lemma_sum_monotone(n, (m - 1) as nat, f);
        } else {
            lemma_sum_monotone((n - 1) as nat, (m - 1) as nat, f);
        }
    }
}

/// With non-negative terms no single term exceeds the sum.
pub proof fn lemma_sum_covers_term(n: nat, f: spec_fn(int) -> int, k: int)
    requires
        0 <= k < n,
        non_negative(n, f),
    ensures
        f(k) <= sum(n, f),
{
    lemma_sum_monotone(k as nat, (k + 1) as nat, f);
    lemma_sum_monotone((k + 1) as nat, n, f);
}

/// With non-negative terms the sum is positive exactly when some term is.
pub proof fn lemma_sum_positive(n: nat, f: spec_fn(int) -> int)
    requires
        non_negative(n, f),
    ensures
        sum(n, f) > 0 <==> exists|k: int| 0 <= k < n && #[trigger] f(k) > 0,
{
    if exists|k: int| 0 <= k < n && #[trigger] f(k) > 0 {
        let k = choose|k: int| 0 <= k < n && #[trigger] f(k) > 0;
        lemma_sum_covers_term(n, f, k);
    } else {
        lemma_sum_zero(n, f);
    }
}

/// A double sum may be taken row by row or column by column.
///
/// `by_row(i)(j)` and `by_col(j)(i)` both name the cell in row `i` and
/// column `j` of an `n` by `m` table; `rows(i)` is the sum of row `i` and
/// `cols(j)` the sum of column `j`.
pub proof fn lemma_sum_exchange(
    n: nat,
    m: nat,
    by_row: spec_fn(int) -> spec_fn(int) -> int,
    by_col: spec_fn(int) -> spec_fn(int) -> int,
    rows: spec_fn(int) -> int,
    cols: spec_fn(int) -> int,
)
    requires
        forall|i: int, j: int| 0 <= i < n && 0 <= j < m ==> #[trigger] by_row(i)(j) == by_col(j)(i),
        forall|i: int| 0 <= i < n ==> #[trigger] rows(i) == sum(m, by_row(i)),
        forall|j: int| 0 <= j < m ==> #[trigger] cols(j) == sum(n, by_col(j)),
    ensures
        sum(n, rows) == sum(m, cols),
    decreases n,
{
    if n == 0 {
        lemma_sum_zero(m, cols);
    } else {
        let above = (n - 1) as nat;
        let cols_above = |j: int| sum(above, by_col(j));
        lemma_sum_exchange(above, m, by_row, by_col, rows, cols_above);
        assert forall|j: int| 0 <= j < m implies #[trigger] cols(j) == cols_above(j) + by_row(
            n - 1,
        )(j) by {
            assert(by_row(n - 1)(j) == by_col(j)(n - 1));
        }
        lemma_sum_add(m, cols_above, by_row(n - 1), cols);
    }
}

/// If each term of `g` lies within `b` times the matching non-negative
/// weight, the sum of `g` lies within `b` times the sum of the weights.
pub proof fn lemma_sum_scaled_bound(
    n: nat,
    g: spec_fn(int) -> int,
    w: spec_fn(int) -> int,
    b: int,
)
    requires
        forall|i: int| 0 <= i < n ==> -b * #[trigger] w(i) <= g(i) <= b * w(i),
    ensures
        -b * sum(n, w) <= sum(n, g) <= b * sum(n, w),
    decreases n,
{
    if n > 0 {
        let rest = sum((n - 1) as nat, w);
        let last = w(n - 1);
        lemma_sum_scaled_bound((n - 1) as nat, g, w, b);
        assert(b * (rest + last) == b * rest + b * last) by (nonlinear_arith);
        assert(-b * (rest + last) == -b * rest + -b * last) by (nonlinear_arith);
    }
}

} // verus!
