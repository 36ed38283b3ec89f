use ferricml::ir::{IRBuilder, Type, ValueId};

#[test]
fn value_numbers_are_fresh() {
    let mut b = IRBuilder::new("m".to_string());
    let a = b.next_value();
    let c = b.next_value();
    let d = b.next_value();
    assert_eq!(a, ValueId(0));
    assert_eq!(c, ValueId(1));
    assert_eq!(d, ValueId(2));
    assert_ne!(a, c);
    let m = b.build();
    assert_eq!(m.name, "m");
    assert!(m.functions.is_empty());
}

#[test]
fn add_function_appends_an_editable_function() {
    let mut b = IRBuilder::new("net".to_string());
    {
        let f = b.add_function("forward".to_string(), vec![Type::float32()], vec![Type::Void]);
        assert_eq!(f.name, "forward");
        assert_eq!(f.blocks.len(), 1);
        assert!(f.blocks[0].operations.is_empty());
        f.name = "main".to_string();
    }
    b.add_function("second".to_string(), vec![], vec![]);
    let id = b.next_value();
    assert_eq!(id, ValueId(0));
    let m = b.build();
    assert_eq!(m.functions.len(), 2);
    assert_eq!(m.functions[0].name, "main");
    assert_eq!(m.functions[0].inputs, vec![Type::Float(32)]);
    assert_eq!(m.functions[1].name, "second");
}

#[test]
fn float32_type_is_float_of_32_bits() {
    assert_eq!(Type::float32(), Type::Float(32));
    assert_ne!(Type::float32(), Type::Integer(32));
}
