use vecmath::layout::{embedding_from_slice, flatten};
use vecmath::shape::{batch_shape, ShapeError};
use vecmath::DIM;

fn basis(axis: usize, sign: f32) -> [f32; DIM] {
    let mut e = [0.0f32; DIM];
    e[axis] = sign;
    e
}

#[test]
fn dimension_is_fixed() {
    assert_eq!(DIM, 1536);
}

#[test]
fn flatten_empty_is_empty() {
    let rows: Vec<[f32; DIM]> = Vec::new();
    assert!(flatten(&rows).is_empty());
}

#[test]
fn flatten_places_rows_in_order() {
    let rows = vec![basis(0, 1.0), basis(1, 1.0), basis(0, -1.0)];
    let flat = flatten(&rows);
    assert_eq!(flat.len(), 3 * DIM);
    assert_eq!(flat[0], 1.0);
    assert_eq!(flat[DIM + 1], 1.0);
    assert_eq!(flat[2 * DIM], -1.0);
    for (i, row) in rows.iter().enumerate() {
        assert_eq!(&flat[i * DIM..(i + 1) * DIM], &row[..]);
    }
}

#[test]
fn flatten_follows_a_permutation() {
    let rows: Vec<[u32; DIM]> = (0..4u32).map(|i| [i * 10 + 1; DIM]).collect();
    let perm = [2usize, 0, 3, 1];
    let permuted: Vec<[u32; DIM]> = perm.iter().map(|&p| rows[p]).collect();
    let flat = flatten(&rows);
    let flat_perm = flatten(&permuted);
    for (k, &p) in perm.iter().enumerate() {
        assert_eq!(&flat_perm[k * DIM..(k + 1) * DIM], &flat[p * DIM..(p + 1) * DIM]);
    }
}

#[test]
fn embedding_from_slice_accepts_exact_dimension() {
    let values: Vec<f32> = (0..DIM).map(|i| i as f32).collect();
    let e = embedding_from_slice(&values).unwrap();
    assert_eq!(&e[..], &values[..]);
}

#[test]
fn embedding_from_slice_rejects_short_buffer() {
    let values = vec![1.0f32, 0.0, 0.0, 0.0];
    assert_eq!(
        embedding_from_slice(&values),
        Err(ShapeError::DimensionMismatch { expected: DIM, found: 4 })
    );
}

#[test]
fn embedding_from_slice_rejects_long_buffer() {
    let values = vec![0u8; DIM + 1];
    assert_eq!(
        embedding_from_slice(&values),
        Err(ShapeError::DimensionMismatch { expected: DIM, found: DIM + 1 })
    );
}

#[test]
fn embedding_from_slice_rejects_empty_buffer() {
    let values: Vec<f32> = Vec::new();
    assert_eq!(
        embedding_from_slice(&values),
        Err(ShapeError::DimensionMismatch { expected: DIM, found: 0 })
    );
}

#[test]
fn batch_shape_accepts_matching_buffer() {
    assert_eq!(batch_shape(3, 3 * DIM), Ok((3, DIM)));
}

#[test]
fn batch_shape_accepts_empty_batch() {
    assert_eq!(batch_shape(0, 0), Ok((0, DIM)));
}

#[test]
fn batch_shape_rejects_wrong_length() {
    assert_eq!(
        batch_shape(2, 2 * DIM - 1),
        Err(ShapeError::BufferLength { rows: 2, found: 2 * DIM - 1 })
    );
}

#[test]
fn batch_shape_rejects_overflowing_row_count() {
    assert_eq!(
        batch_shape(usize::MAX, 0),
        Err(ShapeError::BufferLength { rows: usize::MAX, found: 0 })
    );
}
