use ferricml::dtype::TypeId;
use ferricml::gguf::{GGUFValue, GGUFWriter};
use ferricml::shape::Shape;
use ferricml::tensor::Tensor;

fn encode_value(v: &GGUFValue) -> Vec<u8> {
    let mut w = GGUFWriter::new();
    v.write(&mut w);
    w.take_output()
}

#[test]
fn header_is_magic_version_and_counts() {
    let mut w = GGUFWriter::new();
    w.write_header(2, 14);
    let out = w.take_output();
    let mut expected: Vec<u8> = b"GGUF".to_vec();
    expected.extend_from_slice(&3u32.to_le_bytes());
    expected.extend_from_slice(&2u64.to_le_bytes());
    expected.extend_from_slice(&14u64.to_le_bytes());
    assert_eq!(out, expected);
    assert_eq!(out.len(), 24);
}

#[test]
fn scalar_values_are_little_endian() {
    assert_eq!(encode_value(&GGUFValue::Uint8(0xAB)), vec![0xAB]);
    assert_eq!(encode_value(&GGUFValue::Int8(-1)), vec![0xFF]);
    assert_eq!(encode_value(&GGUFValue::Int8(-128)), vec![0x80]);
    assert_eq!(encode_value(&GGUFValue::Uint16(0x1234)), vec![0x34, 0x12]);
    assert_eq!(encode_value(&GGUFValue::Int16(-2)), vec![0xFE, 0xFF]);
    assert_eq!(encode_value(&GGUFValue::Uint32(0x0102_0304)), vec![4, 3, 2, 1]);
    assert_eq!(encode_value(&GGUFValue::Int32(-3)), (-3i32).to_le_bytes().to_vec());
    assert_eq!(encode_value(&GGUFValue::Int32(i32::MIN)), i32::MIN.to_le_bytes().to_vec());
    assert_eq!(encode_value(&GGUFValue::Uint64(u64::MAX)), vec![0xFF; 8]);
    assert_eq!(encode_value(&GGUFValue::Int64(-1)), vec![0xFF; 8]);
    assert_eq!(encode_value(&GGUFValue::Int64(i64::MIN)), i64::MIN.to_le_bytes().to_vec());
    assert_eq!(encode_value(&GGUFValue::Bool(true)), vec![1]);
    assert_eq!(encode_value(&GGUFValue::Bool(false)), vec![0]);
}

#[test]
fn float_values_write_their_bits() {
    let one = 1.0f32.to_bits();
    assert_eq!(encode_value(&GGUFValue::Float32(one)), 1.0f32.to_le_bytes().to_vec());
    let eps = 1e-5f64.to_bits();
    assert_eq!(encode_value(&GGUFValue::Float64(eps)), 1e-5f64.to_le_bytes().to_vec());
}

#[test]
fn strings_are_length_prefixed_utf8() {
    let out = encode_value(&GGUFValue::String("gpt2".to_string()));
    let mut expected = 4u64.to_le_bytes().to_vec();
    expected.extend_from_slice(b"gpt2");
    assert_eq!(out, expected);
    let out = encode_value(&GGUFValue::String("é".to_string()));
    let mut expected = 2u64.to_le_bytes().to_vec();
    expected.extend_from_slice("é".as_bytes());
    assert_eq!(out, expected);
}

#[test]
fn arrays_carry_first_item_type_and_count() {
    let v = GGUFValue::Array(vec![GGUFValue::Int32(1), GGUFValue::Int32(-1)]);
    let mut expected = 5u32.to_le_bytes().to_vec();
    expected.extend_from_slice(&2u64.to_le_bytes());
    expected.extend_from_slice(&1i32.to_le_bytes());
    expected.extend_from_slice(&(-1i32).to_le_bytes());
    assert_eq!(encode_value(&v), expected);

    let empty = GGUFValue::Array(vec![]);
    let mut expected = 0u32.to_le_bytes().to_vec();
    expected.extend_from_slice(&0u64.to_le_bytes());
    assert_eq!(encode_value(&empty), expected);

    let nested = GGUFValue::Array(vec![GGUFValue::Array(vec![GGUFValue::Uint8(7)])]);
    let mut expected = 9u32.to_le_bytes().to_vec();
    expected.extend_from_slice(&1u64.to_le_bytes());
    expected.extend_from_slice(&0u32.to_le_bytes());
    expected.extend_from_slice(&1u64.to_le_bytes());
    expected.push(7);
    assert_eq!(encode_value(&nested), expected);
}

#[test]
fn type_codes_follow_the_format() {
    let values = vec![
        GGUFValue::Uint8(0),
        GGUFValue::Int8(0),
        GGUFValue::Uint16(0),
        GGUFValue::Int16(0),
        GGUFValue::Uint32(0),
        GGUFValue::Int32(0),
        GGUFValue::Float32(0),
        GGUFValue::Bool(false),
        GGUFValue::String(String::new()),
        GGUFValue::Array(vec![]),
        GGUFValue::Uint64(0),
        GGUFValue::Int64(0),
        GGUFValue::Float64(0),
    ];
    for (i, v) in values.iter().enumerate() {
        assert_eq!(v.type_id(), i as u32);
    }
}

#[test]
fn key_value_pair_is_key_code_value() {
    let mut w = GGUFWriter::new();
    w.write_kv("gpt2.block_count", GGUFValue::Uint32(1));
    let out = w.take_output();
    let mut expected = 16u64.to_le_bytes().to_vec();
    expected.extend_from_slice(b"gpt2.block_count");
    expected.extend_from_slice(&4u32.to_le_bytes());
    expected.extend_from_slice(&1u32.to_le_bytes());
    assert_eq!(out, expected);
}

#[test]
fn align_pads_with_zeros_and_is_idempotent() {
    let mut w = GGUFWriter::new();
    w.write_all(&[1, 2, 3, 4, 5]);
    w.align(32);
    let out = w.take_output();
    assert_eq!(out.len(), 32);
    assert_eq!(&out[..5], &[1, 2, 3, 4, 5]);
    assert!(out[5..].iter().all(|&b| b == 0));
    w.align(32);
    assert!(w.take_output().is_empty());
    w.align(1);
    assert!(w.take_output().is_empty());
}

#[test]
fn take_output_keeps_the_position() {
    let mut w = GGUFWriter::new();
    w.write_all(&[9, 9, 9]);
    assert_eq!(w.take_output(), vec![9, 9, 9]);
    w.align(8);
    assert_eq!(w.take_output(), vec![0; 5]);
}

#[test]
fn tensor_info_lists_name_shape_type_and_offset() {
    let t = Tensor::zeros(Shape::new(vec![2, 3]), TypeId::Float32);
    let mut w = GGUFWriter::new();
    w.write_tensor("weight", &t, 64);
    let out = w.take_output();
    let mut expected = 6u64.to_le_bytes().to_vec();
    expected.extend_from_slice(b"weight");
    expected.extend_from_slice(&2u32.to_le_bytes());
    expected.extend_from_slice(&2u64.to_le_bytes());
    expected.extend_from_slice(&3u64.to_le_bytes());
    expected.extend_from_slice(&0u32.to_le_bytes());
    expected.extend_from_slice(&64u64.to_le_bytes());
    assert_eq!(out, expected);

    let h = Tensor::new(vec![0; 4], Shape::new(vec![2]), TypeId::Float16);
    let i = Tensor::new(vec![0; 4], Shape::new(vec![1]), TypeId::Int32);
    let mut w = GGUFWriter::new();
    w.write_tensor("h", &h, 0);
    let out = w.take_output();
    assert_eq!(&out[out.len() - 12..out.len() - 8], &1u32.to_le_bytes());
    w.write_tensor("i", &i, 0);
    let out = w.take_output();
    assert_eq!(&out[out.len() - 12..out.len() - 8], &2u32.to_le_bytes());
}

#[test]
fn tensor_data_is_padded_to_32_bytes() {
    let t = Tensor::new(vec![1, 2, 3, 4, 5, 6, 7, 8, 9, 10, 11, 12], Shape::new(vec![3]), TypeId::Float32);
    let mut w = GGUFWriter::new();
    w.write_tensor_data(&t);
    let out = w.take_output();
    assert_eq!(out.len(), 32);
    assert_eq!(&out[..12], &[1, 2, 3, 4, 5, 6, 7, 8, 9, 10, 11, 12]);
    assert!(out[12..].iter().all(|&b| b == 0));
    let exact = Tensor::zeros(Shape::new(vec![8]), TypeId::Float32);
    w.write_tensor_data(&exact);
    assert_eq!(w.take_output().len(), 32);
}
