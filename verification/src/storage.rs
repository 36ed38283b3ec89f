use vstd::prelude::*;

use crate::device::Device;

verus! {

/// Where a tensor's bytes live.
pub enum Storage {
    Cpu(CpuStorage),
}

/// Bytes in host memory: the first `len` bytes of `data` are the tensor's elements.
pub struct CpuStorage {
    pub(crate) data: Vec<u8>,
    pub(crate) len: usize,
}

impl CpuStorage {
    /// Every byte of the buffer is in use.
    #[verifier::type_invariant]
    spec fn inv(self) -> bool {
        self.len == self.data@.len()
    }

    /// The bytes in use.
    pub closed spec fn bytes(&self) -> Seq<u8> {
        self.data@
    }

    /// Storage that owns the bytes of `data`.
    pub fn from_vec(data: Vec<u8>) -> (s: Self)
        ensures
            s.bytes() == data@,
    {
        let len = data.len();
        CpuStorage { data, len }
    }

    /// The bytes in use.
    pub fn as_slice(&self) -> (b: &[u8])
        ensures
            b@ == self.bytes(),
    {
        proof {
            use_type_invariant(self);
        }
        self.data.as_slice()
    }

    /// The number of bytes in use.
    pub fn len(&self) -> (n: usize)
        ensures
            n == self.bytes().len(),
    {
        proof {
            use_type_invariant(self);
        }
        self.len
    }
}

impl Storage {
    /// The bytes the storage holds.
    pub open spec fn bytes(&self) -> Seq<u8> {
        match self {
            Storage::Cpu(s) => s.bytes(),
        }
    }

    /// The device the storage lives on: host storage is on the CPU.
    pub fn device(&self) -> (d: Device)
        ensures
            d == Device::Cpu,
    {
        match self {
            Storage::Cpu(_) => Device::Cpu,
        }
    }
}

} // verus!
