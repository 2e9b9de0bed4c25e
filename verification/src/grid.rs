//! Deterministic enumeration of grid cells.
//!
//! A grid over spatial dimensions of sizes `s_0 .. s_{n-1}` has one cell per
//! combination of coordinates; cells are enumerated with the leftmost
//! dimension varying slowest, so cell `i` has coordinate
//! `(i / stride_j) % s_j` on dimension `j`, where `stride_j` is the product
//! of the sizes to the right of `j`.
use vstd::prelude::*;

use crate::dims::Dimension;
use crate::dims::dim_eq;

verus! {

/// The product of `s[from..]`; one for an empty range.
pub open spec fn prod_suffix(s: Seq<usize>, from: int) -> int
    decreases s.len() - from,
{
    if !(0 <= from < s.len()) {
        1
    } else {
        s[from] * prod_suffix(s, from + 1)
    }
}

/// Suffix products of positive sizes are positive and shrink as the range
/// shrinks.
pub proof fn lemma_prod_suffix_le(s: Seq<usize>, a: int, b: int)
    requires
        forall|j: int| 0 <= j < s.len() ==> s[j] >= 1,
        0 <= a <= b,
    ensures
        1 <= prod_suffix(s, b) <= prod_suffix(s, a),
    decreases s.len() - a,
{
    if a >= s.len() {
        // both ranges are empty
    } else if a == b {
        lemma_prod_suffix_le(s, a + 1, a + 1);
        assert(s[a] * prod_suffix(s, a + 1) >= 1) by (nonlinear_arith)
            requires
                s[a] >= 1,
                prod_suffix(s, a + 1) >= 1,
        ;
    } else {
        lemma_prod_suffix_le(s, a + 1, b);
        assert(s[a] * prod_suffix(s, a + 1) >= prod_suffix(s, a + 1)) by (nonlinear_arith)
            requires
                s[a] >= 1,
                prod_suffix(s, a + 1) >= 1,
        ;
    }
}

/// The strides of a size list: entry `j` is the product of the sizes to the
/// right of `j`.
fn strides_of(sizes: &Vec<usize>) -> (r: Vec<usize>)
    requires
        forall|j: int| 0 <= j < sizes@.len() ==> sizes@[j] >= 1,
        prod_suffix(sizes@, 0) <= usize::MAX,
    ensures
        r@.len() == sizes@.len(),
        forall|j: int| 0 <= j < r@.len() ==> r@[j] == prod_suffix(sizes@, j + 1),
{
    let n = sizes.len();
    let mut strides: Vec<usize> = Vec::new();
    let mut acc: usize = 1;
    let mut k: usize = n;
    while k > 0
        invariant
            k <= n == sizes@.len(),
            forall|j: int| 0 <= j < sizes@.len() ==> sizes@[j] >= 1,
            prod_suffix(sizes@, 0) <= usize::MAX,
            acc == prod_suffix(sizes@, k as int),
            strides@.len() == n - k,
            forall|m: int| 0 <= m < strides@.len() ==> strides@[m] == prod_suffix(sizes@, k + 1 + m),
        decreases k,
    {
        strides.insert(0, acc);
        proof {
            lemma_prod_suffix_le(sizes@, k - 1, k as int);
            lemma_prod_suffix_le(sizes@, 0, k - 1);
            assert(prod_suffix(sizes@, k - 1) == sizes@[k - 1] * prod_suffix(sizes@, k as int));
        }
        acc = sizes[k - 1] * acc;
        k = k - 1;
    }
    strides
}

/// Enumerate every grid cell over the given dimension sizes, leftmost
/// dimension varying slowest: cell `i` has coordinate
/// `(i / prod_suffix(sizes, j + 1)) % sizes[j]` on dimension `j`.
pub fn enumerate_cells(sizes: &Vec<usize>) -> (r: Vec<Vec<usize>>)
    requires
        forall|j: int| 0 <= j < sizes@.len() ==> sizes@[j] >= 1,
        prod_suffix(sizes@, 0) <= usize::MAX,
    ensures
        r@.len() == prod_suffix(sizes@, 0),
        forall|i: int| 0 <= i < r@.len() ==> (#[trigger] r@[i])@.len() == sizes@.len(),
        forall|i: int, j: int|
            0 <= i < r@.len() && 0 <= j < sizes@.len() ==> (#[trigger] r@[i]@[j]) == (i
                / prod_suffix(sizes@, j + 1)) % (sizes@[j] as int),
{
    let n = sizes.len();
    let strides = strides_of(sizes);
    let total_last: usize = if n == 0 {
        1
    } else {
        strides[0] * sizes[0]
    };
    proof {
        if n > 0 {
            assert(prod_suffix(sizes@, 0) == sizes@[0] * prod_suffix(sizes@, 1));
        }
    }
    let total: usize = total_last;
    assert(total == prod_suffix(sizes@, 0)) by (nonlinear_arith)
        requires
            total == if sizes@.len() == 0 {
                1int
            } else {
                prod_suffix(sizes@, 1) * sizes@[0]
            },
            prod_suffix(sizes@, 0) == if sizes@.len() == 0 {
                1int
            } else {
                sizes@[0] * prod_suffix(sizes@, 1)
            },
    ;
    let mut out: Vec<Vec<usize>> = Vec::new();
    let mut i: usize = 0;
    while i < total
        invariant
            n == sizes@.len(),
            total == prod_suffix(sizes@, 0),
            strides@.len() == n,
            forall|j: int| 0 <= j < n ==> strides@[j] == prod_suffix(sizes@, j + 1),
            forall|j: int| 0 <= j < n ==> sizes@[j] >= 1,
            i <= total,
            out@.len() == i,
            forall|m: int| 0 <= m < i ==> (#[trigger] out@[m])@.len() == n,
            forall|m: int, j: int|
                0 <= m < i && 0 <= j < n ==> (#[trigger] out@[m]@[j]) == (m / prod_suffix(
                    sizes@,
                    j + 1,
                )) % (sizes@[j] as int),
        decreases total - i,
    {
        let mut row: Vec<usize> = Vec::new();
        let mut j: usize = 0;
        while j < n
            invariant
                n == sizes@.len(),
                strides@.len() == n,
                forall|jj: int| 0 <= jj < n ==> strides@[jj] == prod_suffix(sizes@, jj + 1),
                forall|jj: int| 0 <= jj < n ==> sizes@[jj] >= 1,
                j <= n,
                row@.len() == j,
                forall|jj: int|
                    0 <= jj < j ==> (#[trigger] row@[jj]) == (i as int / prod_suffix(
                        sizes@,
                        jj + 1,
                    )) % (sizes@[jj] as int),
            decreases n - j,
        {
            proof {
                lemma_prod_suffix_le(sizes@, j + 1, j + 1);
            }
            let c = (i / strides[j]) % sizes[j];
            row.push(c);
            j = j + 1;
        }
        out.push(row);
        i = i + 1;
    }
    out
}

/// The product of `s[..upto]`; one for an empty range.
pub open spec fn prod_prefix(s: Seq<usize>, upto: int) -> int
    decreases upto,
{
    if upto <= 0 || upto > s.len() {
        1
    } else {
        prod_prefix(s, upto - 1) * s[upto - 1]
    }
}

/// Prefix products of positive sizes are positive and grow as the range
/// grows.
pub proof fn lemma_prod_prefix_le(s: Seq<usize>, a: int, b: int)
    requires
        forall|j: int| 0 <= j < s.len() ==> s[j] >= 1,
        0 <= a <= b <= s.len(),
    ensures
        1 <= prod_prefix(s, a) <= prod_prefix(s, b),
    decreases b,
{
    if a == b {
        if a > 0 {
            lemma_prod_prefix_le(s, a - 1, a - 1);
            assert(prod_prefix(s, a - 1) * s[a - 1] >= 1) by (nonlinear_arith)
                requires
                    prod_prefix(s, a - 1) >= 1,
                    s[a - 1] >= 1,
            ;
        }
    } else {
        lemma_prod_prefix_le(s, a, b - 1);
        assert(prod_prefix(s, b - 1) * s[b - 1] >= prod_prefix(s, b - 1)) by (nonlinear_arith)
            requires
                prod_prefix(s, b - 1) >= 1,
                s[b - 1] >= 1,
        ;
    }
}

/// The row-major linear index of the first `upto` coordinates against the
/// first `upto` sizes (Horner form).
pub open spec fn lin_index(sizes: Seq<usize>, coords: Seq<usize>, upto: int) -> int
    decreases upto,
{
    if upto <= 0 {
        0
    } else {
        lin_index(sizes, coords, upto - 1) * sizes[upto - 1] + coords[upto - 1]
    }
}

/// The row-major linear index of a full in-range coordinate tuple; it is
/// always below the product of the sizes.
pub fn lin_index_exec(sizes: &Vec<usize>, coords: &Vec<usize>) -> (r: usize)
    requires
        sizes@.len() == coords@.len(),
        forall|j: int| 0 <= j < sizes@.len() ==> #[trigger] sizes@[j] >= 1,
        forall|j: int| 0 <= j < coords@.len() ==> (#[trigger] coords@[j]) < sizes@[j],
        prod_prefix(sizes@, sizes@.len() as int) <= usize::MAX,
    ensures
        r == lin_index(sizes@, coords@, sizes@.len() as int),
        r < prod_prefix(sizes@, sizes@.len() as int),
{
    let n = sizes.len();
    let mut lin: usize = 0;
    let mut j: usize = 0;
    while j < n
        invariant
            n == sizes@.len() == coords@.len(),
            forall|m: int| 0 <= m < sizes@.len() ==> #[trigger] sizes@[m] >= 1,
            forall|m: int| 0 <= m < coords@.len() ==> (#[trigger] coords@[m]) < sizes@[m],
            prod_prefix(sizes@, sizes@.len() as int) <= usize::MAX,
            j <= n,
            lin == lin_index(sizes@, coords@, j as int),
            lin < prod_prefix(sizes@, j as int),
        decreases n - j,
    {
        proof {
            lemma_prod_prefix_le(sizes@, j + 1, n as int);
            assert(prod_prefix(sizes@, j + 1) == prod_prefix(sizes@, j as int) * sizes@[j as int]);
            assert(lin * sizes@[j as int] + coords@[j as int] < prod_prefix(sizes@, j as int)
                * sizes@[j as int]) by (nonlinear_arith)
                requires
                    lin < prod_prefix(sizes@, j as int),
                    0 <= lin,
                    coords@[j as int] < sizes@[j as int],
                    sizes@[j as int] >= 1,
                    prod_prefix(sizes@, j as int) >= 0,
            ;
        }
        lin = lin * sizes[j] + coords[j];
        j = j + 1;
    }
    lin
}

/// The positions in `dims` whose dimension is not named `temporal`, in
/// order.
pub open spec fn spatial_positions(dims: Seq<Dimension>, temporal: Seq<char>, from: int) -> Seq<
    int,
>
    decreases dims.len() - from,
{
    if !(0 <= from < dims.len()) {
        Seq::empty()
    } else if dims[from].name@ == temporal {
        spatial_positions(dims, temporal, from + 1)
    } else {
        seq![from] + spatial_positions(dims, temporal, from + 1)
    }
}

/// Partition a dimension list: the dimensions not named `temporal` together
/// with their positions, in order.
pub fn spatial_dimensions(dims: &Vec<Dimension>, temporal: &str) -> (r: (Vec<Dimension>, Vec<
    usize,
>))
    ensures
        r.1@.len() == spatial_positions(dims@, temporal@, 0).len(),
        forall|k: int|
            0 <= k < r.1@.len() ==> r.1@[k] == spatial_positions(dims@, temporal@, 0)[k],
        r.0@.len() == r.1@.len(),
        forall|k: int|
            0 <= k < r.0@.len() ==> dim_eq(
                #[trigger] r.0@[k],
                dims@[spatial_positions(dims@, temporal@, 0)[k]],
            ),
{
    let n = dims.len();
    let t: String = temporal.to_owned();
    let mut kept: Vec<Dimension> = Vec::new();
    let mut pos: Vec<usize> = Vec::new();
    let mut i: usize = 0;
    while i < n
        invariant
            n == dims@.len(),
            t@ == temporal@,
            i <= n,
            pos@.len() == kept@.len(),
            spatial_positions(dims@, temporal@, 0) =~= pos@.map_values(|p: usize| p as int)
                + spatial_positions(dims@, temporal@, i as int),
            forall|k: int| 0 <= k < pos@.len() ==> (#[trigger] pos@[k]) < i,
            forall|k: int|
                0 <= k < kept@.len() ==> dim_eq(#[trigger] kept@[k], dims@[pos@[k] as int]),
        decreases n - i,
    {
        let ghost pos0 = pos@;
        let d = &dims[i];
        if !(d.name == t) {
            kept.push(d.clone());
            pos.push(i);
            proof {
                assert(pos@.map_values(|p: usize| p as int) =~= pos0.map_values(
                    |p: usize| p as int,
                ).push(i as int));
                assert(spatial_positions(dims@, temporal@, i as int) == seq![i as int]
                    + spatial_positions(dims@, temporal@, i + 1));
                assert(pos0.map_values(|p: usize| p as int) + (seq![i as int]
                    + spatial_positions(dims@, temporal@, i + 1)) =~= pos@.map_values(
                    |p: usize| p as int,
                ) + spatial_positions(dims@, temporal@, i + 1));
            }
        } else {
            proof {
                assert(spatial_positions(dims@, temporal@, i as int) == spatial_positions(
                    dims@,
                    temporal@,
                    i + 1,
                ));
            }
        }
        i = i + 1;
    }
    proof {
        assert(spatial_positions(dims@, temporal@, 0) =~= pos@.map_values(|p: usize| p as int));
    }
    (kept, pos)
}

} // verus!
