use ferricml::device::Device;
use ferricml::dtype::{DType, TypeId};
use ferricml::shape::{Shape, Strides};
use ferricml::storage::{CpuStorage, Storage};
use ferricml::tensor::Tensor;

#[test]
fn shape_counts_elements() {
    let s = Shape::new(vec![2, 3, 4]);
    assert_eq!(s.dims(), &[2, 3, 4]);
    assert_eq!(s.numel(), 24);
    assert_eq!(s.ndim(), 3);
    let scalar = Shape::new(vec![]);
    assert_eq!(scalar.numel(), 1);
    assert_eq!(scalar.ndim(), 0);
    let empty = Shape::from_slice(&[5, 0, 7]);
    assert_eq!(empty.numel(), 0);
    let big = Shape::new(vec![1, 2, 3, 4, 5, 6]);
    assert_eq!(big.numel(), 720);
    assert_eq!(big.clone().dims(), big.dims());
    assert_eq!(Shape::new(vec![2, 3]), Shape::from_slice(&[2, 3]));
    assert_ne!(Shape::new(vec![2, 3]), Shape::new(vec![3, 2]));
}

#[test]
fn contiguous_strides_are_suffix_products() {
    let s = Strides::contiguous(&Shape::new(vec![2, 3, 4]));
    assert_eq!(s.strides(), &[12, 4, 1]);
    assert_eq!(Strides::contiguous(&Shape::new(vec![5])).strides(), &[1]);
    assert!(Strides::contiguous(&Shape::new(vec![])).strides().is_empty());
    assert_eq!(Strides::contiguous(&Shape::new(vec![3, 0, 2])).strides(), &[0, 2, 1]);
    assert_eq!(s.clone().strides(), s.strides());
}

#[test]
fn strides_give_row_major_positions() {
    let dims = [2usize, 3, 4];
    let s = Strides::contiguous(&Shape::new(dims.to_vec()));
    let mut pos = 0isize;
    for a in 0..2isize {
        for b in 0..3isize {
            for c in 0..4isize {
                let off = a * s.strides()[0] + b * s.strides()[1] + c * s.strides()[2];
                assert_eq!(off, pos);
                pos += 1;
            }
        }
    }
}

#[test]
fn new_tensor_keeps_bytes_shape_and_type() {
    let t = Tensor::new(vec![1, 2, 3, 4, 5, 6, 7, 8], Shape::new(vec![2]), TypeId::Int32);
    assert_eq!(t.shape().dims(), &[2]);
    assert_eq!(t.dtype(), TypeId::Int32);
    assert_eq!(t.device(), Device::Cpu);
    assert_eq!(t.bytes(), &[1, 2, 3, 4, 5, 6, 7, 8]);
    assert_eq!(t.strides().strides(), &[1]);
    assert!(t.grad.is_none());
    let st = t.storage();
    match st.as_ref() {
        Storage::Cpu(s) => assert_eq!(s.as_slice(), &[1, 2, 3, 4, 5, 6, 7, 8]),
    }
    assert_eq!(st.device(), Device::Cpu);
}

#[test]
fn zeros_are_four_zero_bytes_per_element() {
    let t = Tensor::zeros(Shape::new(vec![2, 3]), TypeId::Float32);
    assert_eq!(t.bytes().len(), 24);
    assert!(t.bytes().iter().all(|&b| b == 0));
    assert_eq!(t.dtype(), TypeId::Float32);
    assert_eq!(t.strides().strides(), &[3, 1]);
}

#[test]
fn requires_grad_adds_and_drops_a_zero_gradient() {
    let mut t = Tensor::new(vec![0; 12], Shape::new(vec![3]), TypeId::Float32);
    t.set_requires_grad(true);
    let g = t.grad.as_ref().unwrap();
    assert_eq!(g.shape().dims(), &[3]);
    assert_eq!(g.bytes(), &[0; 12]);
    t.grad = Some(Box::new(Tensor::new(vec![1; 12], Shape::new(vec![3]), TypeId::Float32)));
    t.set_requires_grad(true);
    assert_eq!(t.grad.as_ref().unwrap().bytes(), &[1; 12]);
    t.set_requires_grad(false);
    assert!(t.grad.is_none());
    t.set_requires_grad(false);
    assert!(t.grad.is_none());
}

#[test]
fn storage_reports_its_bytes_and_device() {
    let s = CpuStorage::from_vec(vec![7, 8, 9]);
    assert_eq!(s.as_slice(), &[7, 8, 9]);
    assert_eq!(s.len(), 3);
    let st = Storage::Cpu(s);
    assert_eq!(st.device(), Device::Cpu);
}

#[test]
fn default_device_is_cpu() {
    assert_eq!(Device::default(), Device::Cpu);
    assert_ne!(Device::Cuda(0), Device::Cpu);
}

#[test]
fn element_types_have_tags_and_widths() {
    assert_eq!(<i32 as DType>::type_id(), TypeId::Int32);
    assert_eq!(<i32 as DType>::size(), 4);
    assert_eq!(<i64 as DType>::type_id(), TypeId::Int64);
    assert_eq!(<i64 as DType>::size(), 8);
    assert_eq!(<u8 as DType>::type_id(), TypeId::UInt8);
    assert_eq!(<u8 as DType>::size(), 1);
    assert_eq!(<bool as DType>::type_id(), TypeId::Bool);
    assert_eq!(<bool as DType>::size(), 1);
}
