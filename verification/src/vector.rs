use vstd::prelude::*;

verus! {

use crate::error::MatmulError;

/// An owned, contiguous sequence of 64-bit integers: the private row or
/// column copy carried by one task. Its length is fixed at construction.
#[derive(Debug)]
pub struct Vector {
    pub data: Vec<i64>,
}

impl View for Vector {
    type V = Seq<i64>;

    open spec fn view(&self) -> Seq<i64> {
        self.data@
    }
}

impl Vector {
    pub fn new(data: Vec<i64>) -> (r: Vector)
        ensures
            r@ == data@,
    {
        Vector { data }
    }

    /// The elements in iteration order, as a fresh vector.
    pub fn iter(&self) -> (r: Vec<i64>)
        ensures
            r@ == self@,
    {
        let mut out: Vec<i64> = Vec::new();
        let mut i: usize = 0;
        while i < self.data.len()
            invariant
                i <= self@.len(),
                out@.len() == i,
                forall|j: int| 0 <= j < i ==> out@[j] == self@[j],
            decreases self@.len() - i,
        {
            out.push(self.data[i]);
            i = i + 1;
        }
        proof {
            assert(out@ =~= self@);
        }
        out
    }

    pub fn len(&self) -> (r: usize)
        ensures
            r == self@.len(),
    {
        self.data.len()
    }

    /// A fresh vector holding the same elements.
    pub fn duplicate(&self) -> (r: Vector)
        ensures
            r@ == self@,
    {
        Vector { data: self.iter() }
    }
}

/// The first `n` steps of the left-to-right accumulation: each step adds
/// `a[k] * b[k]` to the running sum, both operations wrapping at 64 bits.
pub open spec fn dot_prefix(a: Seq<i64>, b: Seq<i64>, n: int) -> i64
    decreases n,
{
    if n <= 0 {
        0i64
    } else {
        dot_prefix(a, b, n - 1).wrapping_add(a[n - 1].wrapping_mul(b[n - 1]))
    }
}

/// The dot product of two equal-length vectors: the sum of elementwise
/// products, accumulated left to right with wrapping 64-bit arithmetic.
pub open spec fn dot(a: Seq<i64>, b: Seq<i64>) -> i64 {
    dot_prefix(a, b, a.len() as int)
}

/// The compute kernel: one output cell's worth of work.
pub fn dot_product(a: Vector, b: Vector) -> (r: Result<i64, MatmulError>)
    ensures
        r is Ok <==> a@.len() == b@.len(),
        r matches Ok(v) ==> v == dot(a@, b@),
        r matches Err(e) ==> e == MatmulError::DimensionMismatch,
{
    if a.data.len() != b.data.len() {
        return Err(MatmulError::DimensionMismatch);
    }
    let mut acc: i64 = 0;
    let mut i: usize = 0;
    while i < a.data.len()
        invariant
            i <= a@.len(),
            b@.len() == a@.len(),
            acc == dot_prefix(a@, b@, i as int),
        decreases a@.len() - i,
    {
        acc = acc.wrapping_add(a.data[i].wrapping_mul(b.data[i]));
        i = i + 1;
    }
    Ok(acc)
}

} // verus!
