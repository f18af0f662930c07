use pooling::{cls, mean_divisors, PoolError, Pooling, Tensor2, Tensor3};

fn sample_tokens() -> Tensor3<f32> {
    let rows = vec![vec![vec![1.0f32, 2.0], vec![3.0, 4.0], vec![5.0, 6.0]]];
    Tensor3::new(3, 2, rows).unwrap()
}

fn mask(cols: usize, rows: Vec<Vec<i64>>) -> Tensor2<i64> {
    Tensor2::new(cols, rows).unwrap()
}

fn weighted_mean(tokens: &Tensor3<f32>, mask: &Tensor2<i64>) -> Vec<Vec<f32>> {
    let divisors = mean_divisors(tokens.batch(), tokens.seq(), mask).unwrap();
    let mut out = Vec::new();
    for b in 0..tokens.batch() {
        let mut row = Vec::new();
        for h in 0..tokens.hidden() {
            let mut sum = 0.0f32;
            for l in 0..tokens.seq() {
                sum += tokens.get(b, l, h) * mask.get(b, l) as f32;
            }
            row.push(sum / divisors[b] as f32);
        }
        out.push(row);
    }
    out
}

#[test]
fn cls_takes_first_token() {
    let pooled = cls(&sample_tokens()).unwrap();
    assert_eq!(pooled.rows(), 1);
    assert_eq!(pooled.cols(), 2);
    assert_eq!(pooled.into_rows(), vec![vec![1.0f32, 2.0]]);
}

#[test]
fn cls_over_a_batch() {
    let rows = vec![
        vec![vec![1i32, 2, 3], vec![4, 5, 6]],
        vec![vec![7, 8, 9], vec![10, 11, 12]],
    ];
    let tokens = Tensor3::new(2, 3, rows).unwrap();
    let pooled = cls(&tokens).unwrap();
    assert_eq!(pooled.rows(), 2);
    assert_eq!(pooled.cols(), 3);
    assert_eq!(pooled.get(1, 2), 9);
    assert_eq!(pooled.into_rows(), vec![vec![1, 2, 3], vec![7, 8, 9]]);
}

#[test]
fn cls_empty_sequence_fails() {
    let tokens: Tensor3<f32> = Tensor3::new(0, 4, vec![vec![], vec![]]).unwrap();
    assert_eq!(cls(&tokens).err(), Some(PoolError::EmptySequence));
}

#[test]
fn cls_empty_batch_keeps_hidden() {
    let tokens: Tensor3<f32> = Tensor3::new(2, 5, vec![]).unwrap();
    let pooled = cls(&tokens).unwrap();
    assert_eq!(pooled.rows(), 0);
    assert_eq!(pooled.cols(), 5);
}

#[test]
fn mean_of_two_valid_tokens() {
    let tokens = sample_tokens();
    let m = mask(3, vec![vec![1, 1, 0]]);
    assert_eq!(mean_divisors(1, 3, &m), Ok(vec![2]));
    assert_eq!(weighted_mean(&tokens, &m), vec![vec![2.0f32, 3.0]]);
}

#[test]
fn mean_of_fully_masked_row_is_zero() {
    let tokens = sample_tokens();
    let m = mask(3, vec![vec![0, 0, 0]]);
    assert_eq!(mean_divisors(1, 3, &m), Ok(vec![1]));
    let pooled = weighted_mean(&tokens, &m);
    assert_eq!(pooled, vec![vec![0.0f32, 0.0]]);
    assert!(pooled[0].iter().all(|x| x.is_finite()));
}

#[test]
fn mean_shape_mismatch_fails() {
    let m = mask(5, vec![vec![1; 5], vec![1; 5]]);
    assert_eq!(mean_divisors(2, 3, &m), Err(PoolError::ShapeMismatch));
    assert_eq!(mean_divisors(3, 5, &m), Err(PoolError::ShapeMismatch));
    assert_eq!(mean_divisors(2, 5, &m), Ok(vec![5, 5]));
}

#[test]
fn mean_ignores_appended_padding() {
    let short = mask(2, vec![vec![1, 1]]);
    let long = mask(3, vec![vec![1, 1, 0]]);
    assert_eq!(mean_divisors(1, 2, &short), mean_divisors(1, 3, &long));
    let short_tokens = Tensor3::new(2, 2, vec![vec![vec![1.0f32, 2.0], vec![3.0, 4.0]]]).unwrap();
    assert_eq!(weighted_mean(&short_tokens, &short), weighted_mean(&sample_tokens(), &long));
}

#[test]
fn single_token_mean_equals_cls() {
    let tokens = Tensor3::new(1, 3, vec![vec![vec![0.5f32, -1.5, 7.0]]]).unwrap();
    let m = mask(1, vec![vec![1]]);
    assert_eq!(mean_divisors(1, 1, &m), Ok(vec![1]));
    let first = cls(&tokens).unwrap().into_rows();
    assert_eq!(weighted_mean(&tokens, &m), first);
    assert_eq!(first, vec![vec![0.5f32, -1.5, 7.0]]);
}

#[test]
fn mean_divisors_per_batch_row() {
    let m = mask(4, vec![vec![1, 0, 1, 1], vec![0, 0, 0, 0], vec![1, 0, 0, 0]]);
    assert_eq!(mean_divisors(3, 4, &m), Ok(vec![3, 1, 1]));
}

#[test]
fn mean_divisors_take_weights_exactly() {
    let m = mask(2, vec![vec![2, -2], vec![3, 4], vec![i64::MAX, i64::MAX]]);
    assert_eq!(
        mean_divisors(3, 2, &m),
        Ok(vec![1, 7, 2 * i64::MAX as i128])
    );
}

#[test]
fn ragged_rows_are_refused() {
    assert!(Tensor2::new(2, vec![vec![1i64, 0], vec![1]]).is_none());
    assert!(Tensor3::new(2, 1, vec![vec![vec![1i64], vec![2]], vec![vec![3]]]).is_none());
    assert!(Tensor3::new(2, 1, vec![vec![vec![1i64], vec![2, 3]]]).is_none());
}

#[test]
fn tensor_shapes_are_reported() {
    let tokens = Tensor3::new(2, 1, vec![vec![vec![1i64], vec![2]]; 4]).unwrap();
    assert_eq!((tokens.batch(), tokens.seq(), tokens.hidden()), (4, 2, 1));
    assert_eq!(tokens.get(3, 1, 0), 2);
}

#[test]
fn pooling_variants_compare() {
    assert_eq!(Pooling::Cls, Pooling::Cls);
    assert_ne!(Pooling::Cls, Pooling::Mean);
}
