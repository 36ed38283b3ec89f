use ferricml::autograd::{Engine, Tape, TapeOp};
use ferricml::checkpoint::Checkpoint;
use ferricml::dtype::TypeId;
use ferricml::error::Error;
use ferricml::nn::{Conv2d, ConvTranspose2d, Linear};
use ferricml::pgm::BayesianNetwork;
use ferricml::shape::Shape;
use ferricml::tensor::Tensor;
use ferricml::tree::{build_trees, DecisionTree, RandomForest};
use std::sync::Arc;

#[test]
fn linear_has_zero_weight_and_bias() {
    let l = Linear::new(10, 5);
    assert_eq!(l.weight.shape().dims(), &[10, 5]);
    assert_eq!(l.weight.bytes().len(), 200);
    assert!(l.weight.bytes().iter().all(|&b| b == 0));
    assert_eq!(l.weight.dtype(), TypeId::Float32);
    let b = l.bias.as_ref().unwrap();
    assert_eq!(b.shape().dims(), &[5]);
    let p = l.parameters();
    assert_eq!(p.len(), 2);
    assert_eq!(p[0].shape().dims(), &[10, 5]);
    assert_eq!(p[1].shape().dims(), &[5]);
}

#[test]
fn conv_layers_have_their_weight_layout() {
    let c = Conv2d::new(3, 8, (3, 5), (1, 2), (0, 1));
    assert_eq!(c.weight.shape().dims(), &[8, 3, 3, 5]);
    assert_eq!(c.bias.as_ref().unwrap().shape().dims(), &[8]);
    assert_eq!(c.stride, (1, 2));
    assert_eq!(c.padding, (0, 1));
    assert_eq!(c.groups, 1);
    let g = c.with_groups(3);
    assert_eq!(g.groups, 3);
    assert_eq!(g.weight.shape().dims(), &[8, 1, 3, 5]);
    assert_eq!(g.parameters().len(), 2);
    let mut nb = Conv2d::new(2, 2, (1, 1), (1, 1), (0, 0));
    nb.bias = None;
    assert_eq!(nb.parameters().len(), 1);

    let t = ConvTranspose2d::new(4, 2, (2, 2), (2, 2), (0, 0));
    assert_eq!(t.weight.shape().dims(), &[4, 2, 2, 2]);
    assert_eq!(t.bias.as_ref().unwrap().shape().dims(), &[2]);
    assert_eq!(t.parameters().len(), 2);
}

#[test]
fn trees_start_unfitted() {
    let mut t = DecisionTree::new(4);
    assert_eq!(t.max_depth, 4);
    let x = Tensor::zeros(Shape::new(vec![2]), TypeId::Float32);
    t.fit(&x, &x);
    assert_eq!(t, DecisionTree::new(4));
    let mut f = RandomForest::new(3, 2);
    assert_eq!(f.trees, vec![DecisionTree { max_depth: 2 }; 3]);
    f.fit(&x, &x);
    assert_eq!(f.trees.len(), 3);
    assert!(build_trees(0, 9).is_empty());
}

#[test]
fn bayesian_network_starts_empty() {
    let n = BayesianNetwork::new();
    assert_eq!(n.graph.node_count(), 0);
    assert_eq!(n.graph.edge_count(), 0);
}

#[test]
fn tape_records_in_order() {
    let a = Arc::new(Tensor::zeros(Shape::new(vec![1]), TypeId::Float32));
    let mut tape = Tape::new();
    tape.record(TapeOp::Add { lhs: a.clone(), rhs: a.clone(), output: a.clone() });
    tape.record(TapeOp::MatMul { lhs: a.clone(), rhs: a.clone(), output: a.clone() });
    assert_eq!(tape.operations.len(), 2);
    assert!(matches!(tape.operations[0], TapeOp::Add { .. }));
    assert!(matches!(tape.operations[1], TapeOp::MatMul { .. }));
    let mut e = Engine::new();
    assert!(e.tape.operations.is_empty());
    e.tape = tape;
    e.backward(&a);
    assert_eq!(e.tape.operations.len(), 2);
}

#[test]
fn checkpoint_and_errors_hold_their_fields() {
    let c = Checkpoint { version: "1".to_string(), model_name: "net".to_string() };
    assert_eq!(c.version, "1");
    assert_eq!(c.model_name, "net");
    let e = Error::ShapeMismatch { expected: vec![1], found: vec![2] };
    assert!(format!("{:?}", e).contains("ShapeMismatch"));
    let e = Error::Other("x".to_string());
    assert!(format!("{:?}", e).contains("Other"));
}
