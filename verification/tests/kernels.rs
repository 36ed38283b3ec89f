use ferricml::dtype::TypeId;
use ferricml::ops::{
    broadcast_index, conv2d_output_shape, grouped_input_channel, matmul_rhs_offset, conv_transpose2d_output_shape, matmul_output_shape,
    max_pool2d_output_shape, nchw_index, normalize_dim, transpose,
};
use ferricml::shape::Shape;
use ferricml::tensor::Tensor;

fn words(v: &[u32]) -> Vec<u8> {
    v.iter().flat_map(|x| x.to_le_bytes()).collect()
}

fn read_words(b: &[u8]) -> Vec<u32> {
    b.chunks(4).map(|c| u32::from_le_bytes([c[0], c[1], c[2], c[3]])).collect()
}

#[test]
fn transpose_of_a_matrix() {
    let t = Tensor::new(words(&[1, 2, 3, 4, 5, 6]), Shape::new(vec![2, 3]), TypeId::Int32);
    let u = transpose(&t, 0, 1);
    assert_eq!(u.shape().dims(), &[3, 2]);
    assert_eq!(u.dtype(), TypeId::Float32);
    assert_eq!(read_words(u.bytes()), vec![1, 4, 2, 5, 3, 6]);
}

#[test]
fn transpose_of_a_cube() {
    let data: Vec<u32> = (0..24).collect();
    let t = Tensor::new(words(&data), Shape::new(vec![2, 3, 4]), TypeId::Float32);
    let u = transpose(&t, 0, 2);
    assert_eq!(u.shape().dims(), &[4, 3, 2]);
    let out = read_words(u.bytes());
    for a in 0..2 {
        for b in 0..3 {
            for c in 0..4 {
                assert_eq!(out[c * 6 + b * 2 + a], (a * 12 + b * 4 + c) as u32);
            }
        }
    }
    let same = transpose(&t, 1, 1);
    assert_eq!(read_words(same.bytes()), data);
}

#[test]
fn transpose_twice_is_identity() {
    let data: Vec<u32> = (100..130).collect();
    let t = Tensor::new(words(&data), Shape::new(vec![5, 2, 3]), TypeId::Float32);
    let u = transpose(&t, 2, 0);
    let v = transpose(&u, 2, 0);
    assert_eq!(v.shape().dims(), &[5, 2, 3]);
    assert_eq!(v.bytes(), t.bytes());
}

#[test]
fn transpose_of_an_empty_tensor() {
    let t = Tensor::new(vec![], Shape::new(vec![0, 3]), TypeId::Float32);
    let u = transpose(&t, 0, 1);
    assert_eq!(u.shape().dims(), &[3, 0]);
    assert!(u.bytes().is_empty());
}

#[test]
fn matmul_shapes() {
    assert_eq!(matmul_output_shape(&[2, 3], &[3, 4]), vec![2, 4]);
    assert_eq!(matmul_output_shape(&[2, 3], &[5, 4]), vec![2, 4]);
    assert_eq!(matmul_output_shape(&[7, 2, 3], &[3, 4]), vec![7, 2, 4]);
    assert_eq!(matmul_output_shape(&[6, 7, 2, 3], &[7, 3, 4]), vec![6, 7, 2, 4]);
}

#[test]
fn convolution_shapes() {
    assert_eq!(conv2d_output_shape(&[1, 16, 8, 8], &[16, 16, 3, 3], (1, 1), (1, 1)), vec![1, 16, 8, 8]);
    assert_eq!(conv2d_output_shape(&[2, 3, 28, 28], &[6, 3, 5, 5], (2, 2), (0, 0)), vec![2, 6, 12, 12]);
    assert_eq!(conv2d_output_shape(&[1, 1, 1, 1], &[1, 1, 3, 3], (1, 1), (1, 1)), vec![1, 1, 1, 1]);
    assert_eq!(max_pool2d_output_shape(&[1, 6, 24, 24], (2, 2), (2, 2)), vec![1, 6, 12, 12]);
    assert_eq!(max_pool2d_output_shape(&[1, 1, 5, 4], (3, 2), (1, 2)), vec![1, 1, 3, 2]);
    assert_eq!(
        conv_transpose2d_output_shape(&[1, 8, 4, 4], &[8, 3, 4, 4], (2, 2), (1, 1)),
        vec![1, 3, 8, 8]
    );
    assert_eq!(conv_transpose2d_output_shape(&[1, 1, 1, 1], &[1, 2, 3, 3], (5, 5), (0, 0)), vec![1, 2, 3, 3]);
}

#[test]
fn nchw_positions_are_row_major() {
    let dims = [2usize, 3, 4, 5];
    let mut pos = 0usize;
    for b in 0..2 {
        for c in 0..3 {
            for h in 0..4 {
                for w in 0..5 {
                    assert_eq!(nchw_index(&dims, b, c, h, w), pos);
                    pos += 1;
                }
            }
        }
    }
}

#[test]
fn add_broadcasts_along_the_last_dimension() {
    assert_eq!(broadcast_index(6, 6, 3, 4), 4);
    assert_eq!(broadcast_index(6, 3, 3, 4), 1);
    assert_eq!(broadcast_index(3, 3, 3, 2), 2);
}

#[test]
fn negative_dims_count_from_the_end() {
    assert_eq!(normalize_dim(3, -1), 2);
    assert_eq!(normalize_dim(3, -3), 0);
    assert_eq!(normalize_dim(3, 1), 1);
}

#[test]
fn matmul_shares_a_single_right_matrix() {
    assert_eq!(matmul_rhs_offset(12, 3, 4, 5), 0);
    assert_eq!(matmul_rhs_offset(24, 3, 4, 1), 12);
    assert_eq!(matmul_rhs_offset(24, 3, 4, 0), 0);
}

#[test]
fn grouped_convolution_reads_its_own_channels() {
    // 8 output and 4 input channels in 2 groups: outputs 0..4 read inputs 0..2, outputs 4..8 read 2..4.
    assert_eq!(grouped_input_channel(0, 0, 8, 4, 2), 0);
    assert_eq!(grouped_input_channel(3, 1, 8, 4, 2), 1);
    assert_eq!(grouped_input_channel(4, 0, 8, 4, 2), 2);
    assert_eq!(grouped_input_channel(7, 1, 8, 4, 2), 3);
    assert_eq!(grouped_input_channel(5, 2, 6, 3, 1), 2);
}
