//! Dense row-major tensors of rank two and three, held as nested vectors.

use vstd::prelude::*;

verus! {

/// The mathematical value of nested vectors of rank two.
pub open spec fn nested2<T>(rows: Seq<Vec<T>>) -> Seq<Seq<T>> {
    rows.map_values(|r: Vec<T>| r@)
}

/// The mathematical value of nested vectors of rank three.
pub open spec fn nested3<T>(rows: Seq<Vec<Vec<T>>>) -> Seq<Seq<Seq<T>>> {
    rows.map_values(|r: Vec<Vec<T>>| nested2(r@))
}

/// `x` has exactly `r` rows of exactly `c` entries each.
pub open spec fn is_tensor2<T>(x: Seq<Seq<T>>, r: nat, c: nat) -> bool {
    &&& x.len() == r
    &&& forall|i: int| 0 <= i < r ==> #[trigger] x[i].len() == c
}

/// `x` has shape `(b, l, h)`.
pub open spec fn is_tensor3<T>(x: Seq<Seq<Seq<T>>>, b: nat, l: nat, h: nat) -> bool {
    &&& x.len() == b
    &&& forall|i: int| 0 <= i < b ==> is_tensor2(#[trigger] x[i], l, h)
}

/// A tensor of shape `(rows, cols)`.
pub struct Tensor2<T> {
    rows: usize,
    cols: usize,
    data: Vec<Vec<T>>,
}

impl<T> View for Tensor2<T> {
    type V = Seq<Seq<T>>;

    closed spec fn view(&self) -> Seq<Seq<T>> {
        nested2(self.data@)
    }
}

impl<T> Tensor2<T> {
    pub closed spec fn spec_rows(&self) -> usize {
        self.rows
    }

    pub closed spec fn spec_cols(&self) -> usize {
        self.cols
    }

    /// The entries match the shape.
    pub open spec fn wf(&self) -> bool {
        is_tensor2(self@, self.rows() as nat, self.cols() as nat)
    }

    /// Builds a tensor with `cols` columns from its rows; `None` when some row
    /// does not have `cols` entries.
    pub fn new(cols: usize, rows: Vec<Vec<T>>) -> (r: Option<Self>)
        ensures
            r is Some <==> is_tensor2(nested2(rows@), rows@.len(), cols as nat),
            r matches Some(t) ==> t.wf() && t@ == nested2(rows@) && t.rows() == rows@.len()
                && t.cols() == cols,
    {
        let mut i: usize = 0;
        while i < rows.len()
            invariant
                0 <= i <= rows@.len(),
                forall|k: int| 0 <= k < i ==> (#[trigger] rows@[k])@.len() == cols,
            decreases rows@.len() - i,
        {
            if rows[i].len() != cols {
                assert(nested2(rows@)[i as int].len() != cols);
                return None;
            }
            i = i + 1;
        }
        assert(is_tensor2(nested2(rows@), rows@.len(), cols as nat)) by {
            assert forall|k: int| 0 <= k < rows@.len() implies #[trigger] nested2(rows@)[k].len()
                == cols by {
                assert(rows@[k]@.len() == cols);
            }
        }
        Some(Self::from_checked(cols, rows))
    }

    pub(crate) fn from_checked(cols: usize, rows: Vec<Vec<T>>) -> (r: Self)
        requires
            is_tensor2(nested2(rows@), rows@.len(), cols as nat),
        ensures
            r.wf(),
            r@ == nested2(rows@),
            r.rows() == rows@.len(),
            r.cols() == cols,
    {
        Tensor2 { rows: rows.len(), cols, data: rows }
    }

    #[verifier::when_used_as_spec(spec_rows)]
    pub fn rows(&self) -> (r: usize)
        ensures
            r == self.rows(),
    {
        self.rows
    }

    #[verifier::when_used_as_spec(spec_cols)]
    pub fn cols(&self) -> (r: usize)
        ensures
            r == self.cols(),
    {
        self.cols
    }

    /// The entry at row `r`, column `c`.
    pub fn get(&self, r: usize, c: usize) -> (x: T)
        where
            T: Copy,
        requires
            self.wf(),
            r < self.rows(),
            c < self.cols(),
        ensures
            x == self@[r as int][c as int],
    {
        assert(self.data@[r as int]@ == self@[r as int]);
        self.data[r][c]
    }

    /// The rows, each as a vector of `cols` entries.
    pub fn into_rows(self) -> (v: Vec<Vec<T>>)
        ensures
            nested2(v@) == self@,
    {
        self.data
    }
}

/// A tensor of shape `(batch, seq, hidden)`.
pub struct Tensor3<T> {
    batch: usize,
    seq: usize,
    hidden: usize,
    data: Vec<Vec<Vec<T>>>,
}

impl<T> View for Tensor3<T> {
    type V = Seq<Seq<Seq<T>>>;

    closed spec fn view(&self) -> Seq<Seq<Seq<T>>> {
        nested3(self.data@)
    }
}

impl<T> Tensor3<T> {
    pub closed spec fn spec_batch(&self) -> usize {
        self.batch
    }

    pub closed spec fn spec_seq(&self) -> usize {
        self.seq
    }

    pub closed spec fn spec_hidden(&self) -> usize {
        self.hidden
    }

    /// The entries match the shape.
    pub open spec fn wf(&self) -> bool {
        is_tensor3(self@, self.batch() as nat, self.seq() as nat, self.hidden() as nat)
    }

    /// Builds a tensor of `seq` positions of `hidden` entries per batch element;
    /// `None` when the rows do not have that shape.
    pub fn new(seq: usize, hidden: usize, rows: Vec<Vec<Vec<T>>>) -> (r: Option<Self>)
        ensures
            r is Some <==> is_tensor3(nested3(rows@), rows@.len(), seq as nat, hidden as nat),
            r matches Some(t) ==> t.wf() && t@ == nested3(rows@) && t.batch() == rows@.len()
                && t.seq() == seq && t.hidden() == hidden,
    {
        let mut i: usize = 0;
        while i < rows.len()
            invariant
                0 <= i <= rows@.len(),
                forall|k: int|
                    0 <= k < i ==> is_tensor2(#[trigger] nested3(rows@)[k], seq as nat, hidden as nat),
            decreases rows@.len() - i,
        {
            let row = &rows[i];
            if row.len() != seq {
                assert(nested3(rows@)[i as int].len() != seq);
                return None;
            }
            let mut j: usize = 0;
            while j < row.len()
                invariant
                    0 <= i < rows@.len(),
                    0 <= j <= row@.len(),
                    row == rows@[i as int],
                    forall|k: int| 0 <= k < j ==> (#[trigger] row@[k])@.len() == hidden,
                decreases row@.len() - j,
            {
                if row[j].len() != hidden {
                    assert(nested3(rows@)[i as int][j as int].len() != hidden);
                    return None;
                }
                j = j + 1;
            }
            assert(is_tensor2(nested3(rows@)[i as int], seq as nat, hidden as nat)) by {
                assert forall|k: int| 0 <= k < seq implies #[trigger] nested3(rows@)[i as int][k].len()
                    == hidden by {
                    assert(row@[k]@.len() == hidden);
                }
            }
            i = i + 1;
        }
        Some(Tensor3 { batch: rows.len(), seq, hidden, data: rows })
    }

    #[verifier::when_used_as_spec(spec_batch)]
    pub fn batch(&self) -> (r: usize)
        ensures
            r == self.batch(),
    {
        self.batch
    }

    #[verifier::when_used_as_spec(spec_seq)]
    pub fn seq(&self) -> (r: usize)
        ensures
            r == self.seq(),
    {
        self.seq
    }

    #[verifier::when_used_as_spec(spec_hidden)]
    pub fn hidden(&self) -> (r: usize)
        ensures
            r == self.hidden(),
    {
        self.hidden
    }

    /// The entry of batch element `b` at position `l`, hidden index `h`.
    pub fn get(&self, b: usize, l: usize, h: usize) -> (x: T)
        where
            T: Copy,
        requires
            self.wf(),
            b < self.batch(),
            l < self.seq(),
            h < self.hidden(),
        ensures
            x == self@[b as int][l as int][h as int],
    {
        assert(self.data@[b as int]@[l as int]@ == self@[b as int][l as int]);
        self.data[b][l][h]
    }
}

} // verus!
