//! Variables with named dimensions, and the dimension-reordering view.
use vstd::prelude::*;

use crate::Error;
use crate::dims::Dimension;
use crate::dims::SliceType;
use crate::dims::dim_eq;
use crate::grid::lin_index;
use crate::grid::lin_index_exec;
use crate::grid::prod_prefix;

verus! {

/// Anything that exposes named, ordered dimensions and can be sliced into a
/// one-dimensional sequence by a full slice specification.
///
/// A slice specification must have exactly one entry per dimension; a
/// specification of any other length is refused with [`Error::InvalidSlice`].
pub trait Variable: Sized {
    /// The provider's values are consistent (its data matches its dimensions).
    spec fn wf(&self) -> bool;

    /// The variable's name.
    spec fn spec_name(&self) -> Seq<char>;

    /// The variable's dimensions, in its native order.
    spec fn spec_dims(&self) -> Seq<Dimension>;

    /// Whether a full-length slice specification selects a valid slice.
    spec fn slice_ok(&self, index: Seq<SliceType>) -> bool;

    /// The sequence a valid slice specification selects.
    spec fn spec_slice(&self, index: Seq<SliceType>) -> Seq<i64>;

    fn name(&self) -> (r: String)
        requires
            self.wf(),
        ensures
            r@ == self.spec_name(),
    ;

    fn get_dimensions(&self) -> (r: Vec<Dimension>)
        requires
            self.wf(),
        ensures
            r@ == self.spec_dims(),
    ;

    fn slice(&self, index: &Vec<SliceType>) -> (r: Result<Vec<i64>, Error>)
        requires
            self.wf(),
        ensures
            r is Ok <==> (index@.len() == self.spec_dims().len() && self.slice_ok(index@)),
            r is Ok ==> r->Ok_0@ == self.spec_slice(index@),
            index@.len() != self.spec_dims().len() ==> r == Err::<Vec<i64>, Error>(
                Error::InvalidSlice,
            ),
    ;
}

/// The sizes of a dimension list.
pub open spec fn dim_sizes(dims: Seq<Dimension>) -> Seq<usize> {
    dims.map_values(|d: Dimension| d.sz)
}

/// The number of `All` entries among the first `upto` entries.
pub open spec fn count_all(index: Seq<SliceType>, upto: int) -> int
    decreases upto,
{
    if upto <= 0 {
        0
    } else {
        count_all(index, upto - 1) + if index[upto - 1] is All {
            1int
        } else {
            0int
        }
    }
}

/// The first position at or after `from` holding `All`, or the length.
pub open spec fn first_all(index: Seq<SliceType>, from: int) -> int
    decreases index.len() - from,
{
    if !(0 <= from < index.len()) {
        index.len() as int
    } else if index[from] is All {
        from
    } else {
        first_all(index, from + 1)
    }
}

proof fn lemma_first_all(index: Seq<SliceType>, from: int, p: int)
    requires
        0 <= from <= p <= index.len(),
        forall|m: int| from <= m < p ==> !((#[trigger] index[m]) is All),
        p == index.len() || index[p] is All,
    ensures
        first_all(index, from) == p,
    decreases p - from,
{
    if from < p {
        lemma_first_all(index, from + 1, p);
    }
}

proof fn lemma_count_all_nonneg(index: Seq<SliceType>, upto: int)
    ensures
        count_all(index, upto) >= 0,
    decreases upto,
{
    if upto > 0 {
        lemma_count_all_nonneg(index, upto - 1);
    }
}

proof fn lemma_count_all_ge_one(index: Seq<SliceType>, p: int, upto: int)
    requires
        0 <= p < upto <= index.len(),
        index[p] is All,
    ensures
        count_all(index, upto) >= 1,
    decreases upto,
{
    if p < upto - 1 {
        lemma_count_all_ge_one(index, p, upto - 1);
    } else {
        lemma_count_all_nonneg(index, upto - 1);
    }
}

proof fn lemma_count_all_ge_two(index: Seq<SliceType>, p: int, q: int, upto: int)
    requires
        0 <= p < q < upto <= index.len(),
        index[p] is All,
        index[q] is All,
    ensures
        count_all(index, upto) >= 2,
    decreases upto,
{
    if q < upto - 1 {
        lemma_count_all_ge_two(index, p, q, upto - 1);
    } else {
        lemma_count_all_ge_one(index, p, upto - 1);
    }
}

/// The coordinate tuple a slice specification selects when its single `All`
/// entry is fixed at `t`.
pub open spec fn coords_at(index: Seq<SliceType>, t: int) -> Seq<usize> {
    Seq::new(
        index.len(),
        |j: int|
            match index[j] {
                SliceType::Index(c) => c,
                SliceType::All => t as usize,
            },
    )
}

/// An in-memory variable: a flat row-major data vector under named
/// dimensions.
#[derive(Debug)]
pub struct InMemoryVariable {
    pub name: String,
    pub dims: Vec<Dimension>,
    pub data: Vec<i64>,
}

impl Variable for InMemoryVariable {
    open spec fn wf(&self) -> bool {
        &&& forall|j: int| 0 <= j < self.dims@.len() ==> (#[trigger] self.dims@[j]).sz >= 1
        &&& prod_prefix(dim_sizes(self.dims@), self.dims@.len() as int) == self.data@.len()
    }

    open spec fn spec_name(&self) -> Seq<char> {
        self.name@
    }

    open spec fn spec_dims(&self) -> Seq<Dimension> {
        self.dims@
    }

    open spec fn slice_ok(&self, index: Seq<SliceType>) -> bool {
        &&& count_all(index, index.len() as int) == 1
        &&& forall|j: int|
            0 <= j < index.len() ==> ((#[trigger] index[j]) is Index ==> index[j]->0
                < self.dims@[j].sz)
    }

    open spec fn spec_slice(&self, index: Seq<SliceType>) -> Seq<i64> {
        let a = first_all(index, 0);
        Seq::new(
            self.dims@[a].sz as nat,
            |t: int|
                self.data@[lin_index(
                    dim_sizes(self.dims@),
                    coords_at(index, t),
                    index.len() as int,
                )],
        )
    }

    fn name(&self) -> (r: String) {
        self.name.clone()
    }

    fn get_dimensions(&self) -> (r: Vec<Dimension>) {
        let mut out: Vec<Dimension> = Vec::new();
        let mut j: usize = 0;
        while j < self.dims.len()
            invariant
                j <= self.dims@.len(),
                out@.len() == j,
                forall|m: int| 0 <= m < j ==> out@[m] == self.dims@[m],
            decreases self.dims@.len() - j,
        {
            out.push(self.dims[j].clone());
            j = j + 1;
        }
        proof {
            assert(out@ =~= self.dims@);
        }
        out
    }

    fn slice(&self, index: &Vec<SliceType>) -> (r: Result<Vec<i64>, Error>) {
        let n = self.dims.len();
        if index.len() != n {
            return Err(Error::InvalidSlice);
        }
        // find the single `All` entry
        let mut cnt: usize = 0;
        let mut pos: usize = 0;
        let mut j: usize = 0;
        while j < n
            invariant
                n == index@.len(),
                j <= n,
                cnt == count_all(index@, j as int),
                cnt <= j,
                cnt >= 1 ==> pos < j && index@[pos as int] is All && (forall|m: int|
                    0 <= m < pos ==> !((#[trigger] index@[m]) is All)),
            decreases n - j,
        {
            if index[j].is_all() {
                if cnt == 0 {
                    pos = j;
                    proof {
                        assert forall|m: int| 0 <= m < j implies !((#[trigger] index@[m]) is All)
                        by {
                            if index@[m] is All {
                                lemma_count_all_ge_one(index@, m, j as int);
                            }
                        }
                    }
                }
                cnt = cnt + 1;
            }
            j = j + 1;
        }
        if cnt != 1 {
            return Err(Error::InvalidSlice);
        }
        proof {
            lemma_first_all(index@, 0, pos as int);
        }
        // every fixed coordinate must lie within its dimension
        let mut k: usize = 0;
        while k < n
            invariant
                n == index@.len() == self.dims@.len(),
                k <= n,
                forall|m: int|
                    0 <= m < k ==> ((#[trigger] index@[m]) is Index ==> index@[m]->0
                        < self.dims@[m].sz),
            decreases n - k,
        {
            match index[k] {
                SliceType::Index(c) => {
                    if c >= self.dims[k].size() {
                        return Err(Error::InvalidSlice);
                    }
                },
                SliceType::All => {},
            }
            k = k + 1;
        }
        // all other entries are fixed: a second `All` would raise the count
        proof {
            assert forall|m: int| 0 <= m < n && m != pos implies !((#[trigger] index@[m]) is All)
            by {
                if index@[m] is All {
                    if m < pos {
                        assert(false);
                    } else {
                        lemma_count_all_ge_two(index@, pos as int, m, n as int);
                    }
                }
            }
        }
        let mut sizes: Vec<usize> = Vec::new();
        let mut j2: usize = 0;
        while j2 < n
            invariant
                n == self.dims@.len(),
                j2 <= n,
                sizes@.len() == j2,
                forall|m: int| 0 <= m < j2 ==> sizes@[m] == self.dims@[m].sz,
            decreases n - j2,
        {
            sizes.push(self.dims[j2].size());
            j2 = j2 + 1;
        }
        proof {
            assert(sizes@ =~= dim_sizes(self.dims@));
        }
        let m_all = self.dims[pos].size();
        let mut out: Vec<i64> = Vec::new();
        let mut t: usize = 0;
        while t < m_all
            invariant
                self.wf(),
                n == index@.len() == self.dims@.len(),
                sizes@ == dim_sizes(self.dims@),
                sizes@.len() == n,
                pos < n,
                m_all == self.dims@[pos as int].sz,
                index@[pos as int] is All,
                forall|m: int| 0 <= m < n && m != pos ==> !((#[trigger] index@[m]) is All),
                forall|m: int|
                    0 <= m < n ==> ((#[trigger] index@[m]) is Index ==> index@[m]->0
                        < self.dims@[m].sz),
                first_all(index@, 0) == pos,
                count_all(index@, n as int) == 1,
                t <= m_all,
                out@.len() == t,
                forall|tt: int|
                    0 <= tt < t ==> (#[trigger] out@[tt]) == self.data@[lin_index(
                        dim_sizes(self.dims@),
                        coords_at(index@, tt),
                        n as int,
                    )],
            decreases m_all - t,
        {
            let mut coords: Vec<usize> = Vec::new();
            let mut j3: usize = 0;
            while j3 < n
                invariant
                    n == index@.len(),
                    j3 <= n,
                    coords@.len() == j3,
                    forall|m: int|
                        0 <= m < j3 ==> coords@[m] == coords_at(index@, t as int)[m],
                decreases n - j3,
            {
                match index[j3] {
                    SliceType::Index(c) => {
                        coords.push(c);
                    },
                    SliceType::All => {
                        coords.push(t);
                    },
                }
                j3 = j3 + 1;
            }
            proof {
                assert(coords@ =~= coords_at(index@, t as int));
                assert(forall|m: int|
                    0 <= m < n ==> #[trigger] sizes@[m] == self.dims@[m].sz && sizes@[m] >= 1);
                assert(forall|m: int|
                    0 <= m < n ==> (#[trigger] coords@[m]) < sizes@[m]) by {
                    assert(forall|m: int|
                        0 <= m < n ==> (#[trigger] coords@[m]) == (match index@[m] {
                            SliceType::Index(c) => c,
                            SliceType::All => t as usize,
                        }));
                }
            }
            let dl = self.data.len();
            proof {
                assert(prod_prefix(sizes@, sizes@.len() as int) == dl);
            }
            let idx = lin_index_exec(&sizes, &coords);
            proof {
                assert(idx == lin_index(dim_sizes(self.dims@), coords_at(index@, t as int), n as int));
            }
            let ghost out0 = out@;
            out.push(self.data[idx]);
            proof {
                assert forall|tt: int| 0 <= tt < t + 1 implies (#[trigger] out@[tt])
                    == self.data@[lin_index(
                    dim_sizes(self.dims@),
                    coords_at(index@, tt),
                    n as int,
                )] by {
                    if tt < t {
                        assert(out@[tt] == out0[tt]);
                    } else {
                        assert(out@[tt] == self.data@[idx as int]);
                    }
                }
            }
            t = t + 1;
        }
        proof {
            assert(out@ =~= self.spec_slice(index@));
        }
        Ok(out)
    }
}

/// The slice specification obtained by reading, for each native position,
/// the caller-order entry the remap table points at.
pub open spec fn remap(index: Seq<SliceType>, map: Seq<usize>) -> Seq<SliceType> {
    Seq::new(map.len(), |i: int| index[map[i] as int])
}

/// A dimension-reordering view: the wrapped variable's data exposed under a
/// caller-chosen dimension order.
///
/// `indice_map` has one entry per native dimension of the wrapped variable,
/// giving that dimension's position in the caller's order. It is computed
/// once at construction.
#[derive(Debug)]
pub struct VarView<T: Variable> {
    pub sv: T,
    pub dim_order: Vec<Dimension>,
    pub indice_map: Vec<usize>,
}

/// The first position at or after `from` in `order` holding a dimension
/// equal to `d`, or the length.
pub open spec fn dim_index(order: Seq<Dimension>, d: Dimension, from: int) -> int
    decreases order.len() - from,
{
    if !(0 <= from < order.len()) {
        order.len() as int
    } else if dim_eq(order[from], d) {
        from
    } else {
        dim_index(order, d, from + 1)
    }
}

/// `order` holds a dimension equal to `d`.
pub open spec fn dim_found(order: Seq<Dimension>, d: Dimension) -> bool {
    dim_index(order, d, 0) < order.len()
}

proof fn lemma_dim_index(order: Seq<Dimension>, d: Dimension, from: int, p: int)
    requires
        0 <= from <= p <= order.len(),
        forall|m: int| from <= m < p ==> !dim_eq(#[trigger] order[m], d),
        p == order.len() || dim_eq(order[p], d),
    ensures
        dim_index(order, d, from) == p,
    decreases p - from,
{
    if from < p {
        lemma_dim_index(order, d, from + 1, p);
    }
}

impl<T: Variable> VarView<T> {
    /// The remap table is consistent with the wrapped variable and the
    /// caller's order.
    pub open spec fn view_wf(self) -> bool {
        &&& self.sv.wf()
        &&& self.indice_map@.len() == self.sv.spec_dims().len()
        &&& forall|i: int|
            0 <= i < self.indice_map@.len() ==> (#[trigger] self.indice_map@[i])
                < self.dim_order@.len() && dim_eq(
                self.dim_order@[self.indice_map@[i] as int],
                self.sv.spec_dims()[i],
            )
    }

    /// Build a view of `sv` under the order `dim_order`: for each native
    /// dimension, record its first position in the caller's order. A native
    /// dimension absent from the caller's order is a configuration error,
    /// refused with [`Error::DimensionMismatch`].
    pub fn try_new(sv: T, dim_order: Vec<Dimension>) -> (r: Result<Self, Error>)
        requires
            sv.wf(),
        ensures
            r is Ok <==> (forall|i: int|
                0 <= i < sv.spec_dims().len() ==> dim_found(
                    dim_order@,
                    #[trigger] sv.spec_dims()[i],
                )),
            r is Err ==> r == Err::<Self, Error>(Error::DimensionMismatch),
            r is Ok ==> {
                let v = r->Ok_0;
                &&& v.view_wf()
                &&& v.dim_order@ == dim_order@
                &&& v.indice_map@.len() == sv.spec_dims().len()
                &&& forall|i: int|
                    0 <= i < v.indice_map@.len() ==> (#[trigger] v.indice_map@[i]) == dim_index(
                        dim_order@,
                        sv.spec_dims()[i],
                        0,
                    )
            },
    {
        let dims = sv.get_dimensions();
        let n = dims.len();
        let mut map: Vec<usize> = Vec::new();
        let mut i: usize = 0;
        while i < n
            invariant
                sv.wf(),
                n == dims@.len(),
                dims@ == sv.spec_dims(),
                i <= n,
                map@.len() == i,
                forall|m: int|
                    0 <= m < i ==> (#[trigger] map@[m]) == dim_index(dim_order@, dims@[m], 0)
                        && map@[m] < dim_order@.len() && dim_eq(
                        dim_order@[map@[m] as int],
                        dims@[m],
                    ),
            decreases n - i,
        {
            let d = &dims[i];
            let mut j: usize = 0;
            let no = dim_order.len();
            while j < no && !(dim_order[j] == *d)
                invariant
                    no == dim_order@.len(),
                    j <= no,
                    i < n == dims@.len(),
                    d == dims@[i as int],
                    forall|m: int| 0 <= m < j ==> !dim_eq(#[trigger] dim_order@[m], dims@[i as int]),
                decreases no - j,
            {
                j = j + 1;
            }
            if j == no {
                proof {
                    lemma_dim_index(dim_order@, dims@[i as int], 0, no as int);
                }
                return Err(Error::DimensionMismatch);
            }
            proof {
                lemma_dim_index(dim_order@, dims@[i as int], 0, j as int);
            }
            map.push(j);
            i = i + 1;
        }
        proof {
            assert forall|ii: int| 0 <= ii < sv.spec_dims().len() implies dim_found(
                dim_order@,
                #[trigger] sv.spec_dims()[ii],
            ) by {
                assert(map@[ii] == dim_index(dim_order@, dims@[ii], 0));
                assert(map@[ii] < dim_order@.len());
            }
        }
        Ok(VarView { sv, dim_order, indice_map: map })
    }
}

/// Reordering law: slicing through a view is slicing the wrapped variable
/// with the caller's specification permuted back into the native order.
pub proof fn lemma_view_slice_is_permuted<T: Variable>(v: VarView<T>, index: Seq<SliceType>)
    ensures
        v.spec_slice(index) == v.sv.spec_slice(remap(index, v.indice_map@)),
        v.slice_ok(index) == v.sv.slice_ok(remap(index, v.indice_map@)),
{
}

impl<T: Variable> Variable for VarView<T> {
    open spec fn wf(&self) -> bool {
        self.view_wf()
    }

    open spec fn spec_name(&self) -> Seq<char> {
        self.sv.spec_name()
    }

    open spec fn spec_dims(&self) -> Seq<Dimension> {
        self.dim_order@
    }

    open spec fn slice_ok(&self, index: Seq<SliceType>) -> bool {
        self.sv.slice_ok(remap(index, self.indice_map@))
    }

    open spec fn spec_slice(&self, index: Seq<SliceType>) -> Seq<i64> {
        self.sv.spec_slice(remap(index, self.indice_map@))
    }

    fn name(&self) -> (r: String) {
        self.sv.name()
    }

    fn get_dimensions(&self) -> (r: Vec<Dimension>) {
        let mut out: Vec<Dimension> = Vec::new();
        let mut j: usize = 0;
        while j < self.dim_order.len()
            invariant
                j <= self.dim_order@.len(),
                out@.len() == j,
                forall|m: int| 0 <= m < j ==> out@[m] == self.dim_order@[m],
            decreases self.dim_order@.len() - j,
        {
            out.push(self.dim_order[j].clone());
            j = j + 1;
        }
        proof {
            assert(out@ =~= self.dim_order@);
        }
        out
    }

    fn slice(&self, index: &Vec<SliceType>) -> (r: Result<Vec<i64>, Error>) {
        if index.len() != self.dim_order.len() {
            return Err(Error::InvalidSlice);
        }
        let mut inner: Vec<SliceType> = Vec::new();
        let mut k: usize = 0;
        let n = self.indice_map.len();
        while k < n
            invariant
                self.view_wf(),
                n == self.indice_map@.len(),
                index@.len() == self.dim_order@.len(),
                k <= n,
                inner@.len() == k,
                forall|m: int|
                    0 <= m < k ==> (#[trigger] inner@[m]) == index@[self.indice_map@[m] as int],
            decreases n - k,
        {
            let p = self.indice_map[k];
            inner.push(index[p]);
            k = k + 1;
        }
        proof {
            assert(inner@ =~= remap(index@, self.indice_map@));
        }
        self.sv.slice(&inner)
    }
}

} // verus!
