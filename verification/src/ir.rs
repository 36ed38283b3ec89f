use vstd::prelude::*;

use std::collections::HashMap;

verus! {

/// A type in the intermediate representation.
#[derive(Debug, PartialEq, Eq, Hash)]
pub enum Type {
    Void,
    Integer(u32),
    Float(u32),
    Tensor(Vec<Option<usize>>, Box<Type>),
    Function(Vec<Type>, Vec<Type>),
}

impl Type {
    /// The 32-bit floating-point type.
    pub fn float32() -> (t: Type)
        ensures
            t == Type::Float(32),
    {
        Type::Float(32)
    }
}

/// An SSA value, named by its number.
#[derive(Debug, Clone, Copy, PartialEq, Eq, Hash, Structural)]
pub struct ValueId(pub usize);

/// A constant attached to an operation. `Float` carries the IEEE-754 bit pattern of the number.
#[derive(Debug, Clone, PartialEq)]
pub enum Attribute {
    Int(i64),
    Float(u64),
    String(String),
    Bool(bool),
}

/// One operation: its name, the values it reads and defines, and its attributes.
#[derive(Debug)]
pub struct Operation {
    pub name: String,
    pub operands: Vec<ValueId>,
    pub results: Vec<ValueId>,
    pub result_types: Vec<Type>,
    pub attributes: HashMap<String, Attribute>,
}

/// A straight-line sequence of operations.
#[derive(Debug)]
pub struct BasicBlock {
    pub operations: Vec<Operation>,
}

/// A function: its name, input and output types, and its blocks.
#[derive(Debug)]
pub struct Function {
    pub name: String,
    pub inputs: Vec<Type>,
    pub outputs: Vec<Type>,
    pub blocks: Vec<BasicBlock>,
}

/// A compilation unit: a named list of functions.
#[derive(Debug)]
pub struct Module {
    pub name: String,
    pub functions: Vec<Function>,
}

/// Builds a module, handing out fresh value numbers.
pub struct IRBuilder {
    module: Module,
    next_value_id: usize,
}

impl IRBuilder {
    /// The module built so far.
    pub closed spec fn spec_module(&self) -> Module {
        self.module
    }

    /// The number the next value will get.
    pub closed spec fn spec_next_id(&self) -> nat {
        self.next_value_id as nat
    }

    /// A builder for an empty module named `name`; value numbers start at 0.
    pub fn new(name: String) -> (b: Self)
        ensures
            b.spec_module().name@ == name@,
            b.spec_module().functions@ == Seq::<Function>::empty(),
            b.spec_next_id() == 0,
    {
        IRBuilder { module: Module { name, functions: Vec::new() }, next_value_id: 0 }
    }

    /// Hands out the next value number and advances the counter.
    pub fn next_value(&mut self) -> (id: ValueId)
        requires
            old(self).spec_next_id() < usize::MAX,
        ensures
            id.0 == old(self).spec_next_id(),
            final(self).spec_next_id() == old(self).spec_next_id() + 1,
            final(self).spec_module() == old(self).spec_module(),
    {
        let id = ValueId(self.next_value_id);
        self.next_value_id = self.next_value_id + 1;
        id
    }

    /// The module built.
    pub fn build(self) -> (m: Module)
        ensures
            m == self.spec_module(),
    {
        self.module
    }

    /// Appends a function with one empty block and hands it out for editing.
    pub fn add_function(&mut self, name: String, inputs: Vec<Type>, outputs: Vec<Type>) -> (f:
        &mut Function)
        ensures
            f.name@ == name@,
            f.inputs@ == inputs@,
            f.outputs@ == outputs@,
            f.blocks@.len() == 1,
            f.blocks@[0].operations@ == Seq::<Operation>::empty(),
            final(self).spec_module().name == old(self).spec_module().name,
            final(self).spec_module().functions@ == old(self).spec_module().functions@.push(
                *final(f),
            ),
            final(self).spec_next_id() == old(self).spec_next_id(),
    {
        let mut blocks: Vec<BasicBlock> = Vec::new();
        blocks.push(BasicBlock { operations: Vec::new() });
        let func = Function { name, inputs, outputs, blocks };
        self.module.functions.push(func);
        let last = self.module.functions.len() - 1;
        &mut self.module.functions[last]
    }
}

/// Value numbers are fresh: a number handed out by `next_value` is below the counter from then
/// on, so a later call, which hands out the counter, never repeats it.
pub proof fn law_values_are_fresh(handed: ValueId, after: IRBuilder, later: IRBuilder, next: ValueId)
    requires
        after.spec_next_id() == handed.0 + 1,
        later.spec_next_id() >= after.spec_next_id(),
        next.0 == later.spec_next_id(),
    ensures
        next.0 > handed.0,
        next != handed,
{
}

} // verus!
