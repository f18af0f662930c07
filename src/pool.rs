//! The two pooling strategies: the summary token, and the masked mean.

use vstd::prelude::*;

use crate::tensor::{is_tensor2, nested2, Tensor2, Tensor3};

verus! {

/// Which pooling runs over a batch of token embeddings.
#[derive(Debug, Clone, Copy, PartialEq, Eq, Structural)]
pub enum Pooling {
    /// The embedding of the first token of each sequence.
    Cls,
    /// The mean of the token embeddings that the attention mask keeps.
    Mean,
}

#[derive(Debug, Clone, Copy, PartialEq, Eq, Structural)]
pub enum PoolError {
    /// The mask's batch or sequence length differs from the embeddings'.
    ShapeMismatch,
    /// The sequences hold no token, so there is no first token to take.
    EmptySequence,
}

/// Pools by taking, for each batch element, the embedding at position 0.
pub fn cls<T: Copy>(token_embeddings: &Tensor3<T>) -> (r: Result<Tensor2<T>, PoolError>)
    requires
        token_embeddings.wf(),
    ensures
        r is Err <==> token_embeddings.seq() == 0,
        r matches Err(e) ==> e == PoolError::EmptySequence,
        r matches Ok(p) ==> {
            &&& p.wf()
            &&& p.rows() == token_embeddings.batch()
            &&& p.cols() == token_embeddings.hidden()
            &&& forall|b: int, h: int|
                0 <= b < p.rows() && 0 <= h < p.cols() ==> #[trigger] p@[b][h]
                    == token_embeddings@[b][0][h]
        },
{
    let batch = token_embeddings.batch();
    let hidden = token_embeddings.hidden();
    if token_embeddings.seq() == 0 {
        return Err(PoolError::EmptySequence);
    }
    let mut out: Vec<Vec<T>> = Vec::new();
    let mut b: usize = 0;
    while b < batch
        invariant
            token_embeddings.wf(),
            token_embeddings.seq() > 0,
            batch == token_embeddings.batch(),
            hidden == token_embeddings.hidden(),
            b <= batch,
            out@.len() == b,
            forall|i: int| 0 <= i < b ==> (#[trigger] out@[i])@.len() == hidden,
            forall|i: int, h: int|
                0 <= i < b && 0 <= h < hidden ==> #[trigger] out@[i]@[h]
                    == token_embeddings@[i][0][h],
        decreases batch - b,
    {
        let mut row: Vec<T> = Vec::new();
        let mut h: usize = 0;
        while h < hidden
            invariant
                token_embeddings.wf(),
                token_embeddings.seq() > 0,
                batch == token_embeddings.batch(),
                hidden == token_embeddings.hidden(),
                b < batch,
                h <= hidden,
                row@.len() == h,
                forall|k: int| 0 <= k < h ==> #[trigger] row@[k] == token_embeddings@[b as int][0][k],
            decreases hidden - h,
        {
            row.push(token_embeddings.get(b, 0, h));
            h = h + 1;
        }
        out.push(row);
        b = b + 1;
    }
    assert(is_tensor2(nested2(out@), batch as nat, hidden as nat));
    Ok(Tensor2::from_checked(hidden, out))
}

/// The sum of a row of mask weights.
pub open spec fn weight_sum(row: Seq<i64>) -> int
    decreases row.len(),
{
    if row.len() == 0 {
        0
    } else {
        weight_sum(row.drop_last()) + row.last()
    }
}

/// The divisor of a masked mean: the weight sum, with 0 taken as 1 so that a
/// row that masks every token pools to zero.
pub open spec fn clamp_divisor(s: int) -> int {
    if s == 0 {
        1
    } else {
        s
    }
}

/// The number of positions of a mask row that hold 1.
pub open spec fn valid_count(row: Seq<i64>) -> int
    decreases row.len(),
{
    if row.len() == 0 {
        0
    } else {
        valid_count(row.drop_last()) + if row.last() == 1 {
            1int
        } else {
            0
        }
    }
}

/// Over a mask of zeros and ones, the weight sum of a row is the number of its
/// valid tokens; with at least one valid token that is also the divisor of the
/// mean, so the mean averages exactly over the valid tokens.
pub proof fn lemma_divisor_counts_valid_tokens(row: Seq<i64>)
    requires
        forall|l: int| 0 <= l < row.len() ==> #[trigger] row[l] == 0 || row[l] == 1,
    ensures
        weight_sum(row) == valid_count(row),
        (exists|l: int| 0 <= l < row.len() && #[trigger] row[l] == 1) ==> clamp_divisor(
            weight_sum(row),
        ) == valid_count(row),
    decreases row.len(),
{
    if row.len() > 0 {
        let init = row.drop_last();
        assert forall|l: int| 0 <= l < init.len() implies #[trigger] init[l] == 0 || init[l] == 1 by {
            assert(init[l] == row[l]);
        }
        lemma_divisor_counts_valid_tokens(init);
    }
    if exists|l: int| 0 <= l < row.len() && #[trigger] row[l] == 1 {
        let l = choose|l: int| 0 <= l < row.len() && #[trigger] row[l] == 1;
        lemma_valid_count_positive(row, l);
    }
}

proof fn lemma_valid_count_positive(row: Seq<i64>, l: int)
    requires
        0 <= l < row.len(),
        row[l] == 1,
    ensures
        valid_count(row) >= 1,
    decreases row.len(),
{
    if l < row.len() - 1 {
        assert(row.drop_last()[l] == 1);
        lemma_valid_count_positive(row.drop_last(), l);
    }
    lemma_valid_count_nonneg(row.drop_last());
}

proof fn lemma_valid_count_nonneg(row: Seq<i64>)
    ensures
        valid_count(row) >= 0,
    decreases row.len(),
{
    if row.len() > 0 {
        lemma_valid_count_nonneg(row.drop_last());
    }
}

/// Appending a masked-out token to a sequence leaves its weight sum, and so the
/// divisor of its mean, unchanged; the weights of the other positions are kept.
pub proof fn lemma_masked_token_keeps_divisor(row: Seq<i64>)
    ensures
        weight_sum(row.push(0)) == weight_sum(row),
        clamp_divisor(weight_sum(row.push(0))) == clamp_divisor(weight_sum(row)),
        row.push(0).subrange(0, row.len() as int) == row,
{
    assert(row.push(0).drop_last() == row);
}

/// A mask row of zeros has weight sum 0 and divisor 1: every product
/// `embedding * weight` in it is multiplied by 0, and the sum is divided by 1.
pub proof fn lemma_all_masked_row(row: Seq<i64>)
    requires
        forall|l: int| 0 <= l < row.len() ==> #[trigger] row[l] == 0,
    ensures
        weight_sum(row) == 0,
        clamp_divisor(weight_sum(row)) == 1,
    decreases row.len(),
{
    if row.len() > 0 {
        let init = row.drop_last();
        assert forall|l: int| 0 <= l < init.len() implies #[trigger] init[l] == 0 by {
            assert(init[l] == row[l]);
        }
        lemma_all_masked_row(init);
    }
}

/// A sequence of one valid token has divisor 1, so its mean is that token's
/// embedding, which is also what the summary-token pooling takes.
pub proof fn lemma_single_token_divisor()
    ensures
        clamp_divisor(weight_sum(seq![1i64])) == 1,
{
    let row = seq![1i64];
    assert(row.drop_last() == Seq::<i64>::empty());
    assert(weight_sum(row.drop_last()) == 0);
    assert(row.last() == 1);
}

proof fn lemma_weight_sum_bound(row: Seq<i64>)
    ensures
        -row.len() * 0x8000_0000_0000_0000 <= weight_sum(row) <= row.len() * 0x8000_0000_0000_0000,
    decreases row.len(),
{
    if row.len() > 0 {
        lemma_weight_sum_bound(row.drop_last());
    }
}

/// The sum of one mask row, taken exactly.
fn row_weight_sum(row: &Vec<i64>) -> (s: i128)
    ensures
        s == weight_sum(row@),
{
    let mut s: i128 = 0;
    let mut l: usize = 0;
    while l < row.len()
        invariant
            l <= row@.len(),
            s == weight_sum(row@.subrange(0, l as int)),
        decreases row@.len() - l,
    {
        proof {
            assert(row@.subrange(0, l + 1).drop_last() == row@.subrange(0, l as int));
            lemma_weight_sum_bound(row@.subrange(0, l as int));
        }
        s = s + row[l] as i128;
        l = l + 1;
    }
    assert(row@.subrange(0, row@.len() as int) == row@);
    s
}

/// The divisors of the masked mean over token embeddings with `batch` sequences
/// of `seq` tokens: for each batch element, the sum of its mask row, with a sum
/// of zero replaced by one. The mean at `(b, h)` is the sum over `l` of
/// `embeddings[b][l][h] * mask[b][l]`, divided by the divisor of `b`.
pub fn mean_divisors(batch: usize, seq: usize, attention_mask: &Tensor2<i64>) -> (r: Result<
    Vec<i128>,
    PoolError,
>)
    requires
        attention_mask.wf(),
    ensures
        r is Err <==> attention_mask.rows() != batch || attention_mask.cols() != seq,
        r matches Err(e) ==> e == PoolError::ShapeMismatch,
        r matches Ok(d) ==> {
            &&& d@.len() == batch
            &&& forall|b: int|
                0 <= b < batch ==> #[trigger] d@[b] == clamp_divisor(weight_sum(attention_mask@[b]))
        },
{
    if attention_mask.rows() != batch || attention_mask.cols() != seq {
        return Err(PoolError::ShapeMismatch);
    }
    let mut out: Vec<i128> = Vec::new();
    let mut b: usize = 0;
    while b < batch
        invariant
            attention_mask.wf(),
            attention_mask.rows() == batch,
            attention_mask.cols() == seq,
            b <= batch,
            out@.len() == b,
            forall|i: int|
                0 <= i < b ==> #[trigger] out@[i] == clamp_divisor(weight_sum(attention_mask@[i])),
        decreases batch - b,
    {
        let mut row: Vec<i64> = Vec::new();
        let mut l: usize = 0;
        while l < seq
            invariant
                attention_mask.wf(),
                attention_mask.rows() == batch,
                attention_mask.cols() == seq,
                b < batch,
                l <= seq,
                row@ == attention_mask@[b as int].subrange(0, l as int),
            decreases seq - l,
        {
            row.push(attention_mask.get(b, l));
            l = l + 1;
        }
        assert(row@ == attention_mask@[b as int]);
        let s = row_weight_sum(&row);
        out.push(if s == 0 { 1 } else { s });
        b = b + 1;
    }
    Ok(out)
}

} // verus!
