use vstd::prelude::*;

verus! {

/// The hardware a tensor's storage lives on.
#[derive(Debug, Clone, PartialEq, Eq, Hash, Structural)]
pub enum Device {
    Cpu,
    Cuda(usize),
    Rocm(usize),
    Tpu(usize),
}

impl Default for Device {
    /// The default device is the CPU.
    fn default() -> (d: Self)
        ensures
            d == Device::Cpu,
    {
        Device::Cpu
    }
}

} // verus!
