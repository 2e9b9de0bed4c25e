//! Named dimensions and per-dimension slice selectors.
use vstd::prelude::*;

verus! {

/// A named axis of a multi-dimensional variable, with a positive size.
/// Immutable once created; two dimensions are equal when both the name and
/// the size agree.
#[derive(Debug)]
pub struct Dimension {
    pub name: String,
    pub sz: usize,
}

impl Clone for Dimension {
    fn clone(&self) -> (r: Self)
        ensures
            r == *self,
    {
        Dimension { name: self.name.clone(), sz: self.sz }
    }
}

/// Equality of dimensions: same name and same size.
pub open spec fn dim_eq(a: Dimension, b: Dimension) -> bool {
    a.name@ == b.name@ && a.sz == b.sz
}

impl Dimension {
    pub fn new(name: &str, sz: usize) -> (r: Self)
        requires
            sz >= 1,
        ensures
            r.name@ == name@,
            r.sz == sz,
    {
        Dimension { name: name.to_owned(), sz }
    }

    pub fn name(&self) -> (r: &str)
        ensures
            r@ == self.name@,
    {
        self.name.as_str()
    }

    pub fn size(&self) -> (r: usize)
        ensures
            r == self.sz,
    {
        self.sz
    }

    /// Every coordinate of this axis, in order: `0, 1, .., size - 1`.
    pub fn iter(&self) -> (r: Vec<usize>)
        ensures
            r@.len() == self.sz,
            forall|i: int| 0 <= i < r@.len() ==> r@[i] == i,
    {
        let mut r: Vec<usize> = Vec::new();
        let mut i: usize = 0;
        while i < self.sz
            invariant
                i <= self.sz,
                r@.len() == i,
                forall|j: int| 0 <= j < i ==> r@[j] == j,
            decreases self.sz - i,
        {
            r.push(i);
            i += 1;
        }
        r
    }
}

impl PartialEq for Dimension {
    fn eq(&self, other: &Dimension) -> (r: bool) {
        self.name == other.name && self.sz == other.sz
    }
}

impl vstd::std_specs::cmp::PartialEqSpecImpl for Dimension {
    open spec fn obeys_eq_spec() -> bool {
        true
    }

    open spec fn eq_spec(&self, other: &Dimension) -> bool {
        dim_eq(*self, *other)
    }
}

/// One entry of a slice specification: either fix the dimension to a single
/// coordinate or keep the whole dimension.
#[derive(Clone, Copy, Debug, PartialEq, Eq, Structural)]
pub enum SliceType {
    Index(usize),
    All,
}

impl SliceType {
    pub fn is_index(&self) -> (r: bool)
        ensures
            r == (self is Index),
    {
        match self {
            SliceType::Index(_) => true,
            SliceType::All => false,
        }
    }

    pub fn is_all(&self) -> (r: bool)
        ensures
            r == (self is All),
    {
        match self {
            SliceType::Index(_) => false,
            SliceType::All => true,
        }
    }
}

impl Default for SliceType {
    fn default() -> (r: Self)
        ensures
            r == SliceType::All,
    {
        SliceType::All
    }
}

} // verus!
