use vstd::prelude::*;

use crate::scalar::Scalar;

verus! {

/// A dense matrix of variable size, stored row by row.
#[derive(Clone, Debug)]
pub struct GlobalMatrix<S> {
    values: Vec<Vec<S>>,
}

impl<S> View for GlobalMatrix<S> {
    type V = Seq<Seq<S>>;

    closed spec fn view(&self) -> Seq<Seq<S>> {
        Seq::new(self.values@.len(), |i: int| self.values@[i]@)
    }
}

/// Whether `m` has `rows` rows of `cols` entries each.
pub open spec fn has_shape<S>(m: Seq<Seq<S>>, rows: nat, cols: nat) -> bool {
    &&& m.len() == rows
    &&& forall|i: int| 0 <= i < rows ==> (#[trigger] m[i]).len() == cols
}

/// A `rows` by `cols` matrix of zeros.
pub open spec fn spec_zeros<S: Scalar>(rows: nat, cols: nat) -> Seq<Seq<S>> {
    Seq::new(rows, |i: int| Seq::new(cols, |j: int| S::spec_zero()))
}

/// The dot product of the first `n` entries of `a` and `b`, summed from zero
/// in index order.
pub open spec fn spec_dot<S: Scalar>(a: Seq<S>, b: Seq<S>, n: nat) -> S
    decreases n,
{
    if n == 0 {
        S::spec_zero()
    } else {
        spec_dot(a, b, (n - 1) as nat).spec_plus(a[n - 1].spec_times(b[n - 1]))
    }
}

impl<S: Scalar> GlobalMatrix<S> {
    /// A `rows` by `cols` matrix whose entries are all the scalar zero.
    pub fn zeros(rows: usize, cols: usize) -> (r: Self)
        ensures
            has_shape(r@, rows as nat, cols as nat),
            r@ == spec_zeros::<S>(rows as nat, cols as nat),
    {
        let z = S::zero();
        let mut values: Vec<Vec<S>> = Vec::new();
        let mut i: usize = 0;
        while i < rows
            invariant
                i <= rows,
                values@.len() == i,
                forall|k: int| 0 <= k < i ==> (#[trigger] values@[k])@.len() == cols,
                forall|k: int, l: int|
                    0 <= k < i && 0 <= l < cols ==> #[trigger] values@[k]@[l] == z,
            decreases rows - i,
        {
            let mut row: Vec<S> = Vec::new();
            let mut j: usize = 0;
            while j < cols
                invariant
                    j <= cols,
                    row@.len() == j,
                    forall|l: int| 0 <= l < j ==> row@[l] == z,
                decreases cols - j,
            {
                row.push(z);
                j = j + 1;
            }
            values.push(row);
            i = i + 1;
        }
        let r = GlobalMatrix { values };
        assert(r@ =~= spec_zeros::<S>(rows as nat, cols as nat)) by {
            assert forall|i: int| 0 <= i < rows implies r@[i] =~= spec_zeros::<S>(
                rows as nat,
                cols as nat,
            )[i] by {};
        };
        r
    }
}

impl<S: Copy> GlobalMatrix<S> {
    pub fn rows(&self) -> (r: usize)
        ensures
            r == self@.len(),
    {
        self.values.len()
    }

    /// The entry at `(row, col)`.
    pub fn get(&self, row: usize, col: usize) -> (r: S)
        requires
            row < self@.len(),
            col < self@[row as int].len(),
        ensures
            r == self@[row as int][col as int],
    {
        self.values[row][col]
    }

    /// Replaces the entry at `(row, col)` by `value`.
    pub fn set(&mut self, row: usize, col: usize, value: S)
        requires
            row < old(self)@.len(),
            col < old(self)@[row as int].len(),
        ensures
            final(self)@ == old(self)@.update(
                row as int,
                old(self)@[row as int].update(col as int, value),
            ),
    {
        self.values[row].set(col, value);
        assert(self@ =~= old(self)@.update(row as int, old(self)@[row as int].update(col as int, value)));
    }
}

/// `k` with `v` added to the entry at `(row, col)`.
pub open spec fn spec_add_at<S: Scalar>(k: Seq<Seq<S>>, row: int, col: int, v: S) -> Seq<Seq<S>> {
    k.update(row, k[row].update(col, k[row][col].spec_plus(v)))
}

impl<S: Scalar> GlobalMatrix<S> {
    /// Adds `value` to the entry at `(row, col)`.
    pub fn add_at(&mut self, row: usize, col: usize, value: S)
        requires
            row < old(self)@.len(),
            col < old(self)@[row as int].len(),
        ensures
            final(self)@ == spec_add_at(old(self)@, row as int, col as int, value),
    {
        let sum = self.get(row, col).plus(value);
        self.set(row, col, sum);
    }

    /// The dot product of row `row` with `u`.
    pub fn row_dot(&self, row: usize, u: &Vec<S>) -> (r: S)
        requires
            row < self@.len(),
            self@[row as int].len() == u.len(),
        ensures
            r == spec_dot(self@[row as int], u@, u@.len()),
    {
        let values = &self.values[row];
        let mut acc = S::zero();
        let mut j: usize = 0;
        while j < u.len()
            invariant
                j <= u.len(),
                values@.len() == u.len(),
                values@ == self@[row as int],
                acc == spec_dot(values@, u@, j as nat),
            decreases u.len() - j,
        {
            acc = acc.plus(values[j].times(u[j]));
            j = j + 1;
        }
        acc
    }
}

} // verus!
