//! CPU feature bits, as the boot processor's capability words expose them.

use vstd::prelude::*;

verus! {

/// A CPU feature this library cares about, identified by its position in
/// the capability bit array: a word index times 32 plus a bit index.
#[derive(Clone, Copy, Debug, PartialEq, Eq, Structural)]
pub enum CPUFeature {
    /// Five-level paging (57-bit virtual addresses): word 16, bit 16.
    LA57,
}

impl CPUFeature {
    /// The feature's position in the capability bit array.
    pub open spec fn index_spec(self) -> usize {
        match self {
            CPUFeature::LA57 => 528,
        }
    }

    /// The feature's position in the capability bit array.
    pub fn index(self) -> (r: usize)
        ensures
            r == self.index_spec(),
    {
        match self {
            CPUFeature::LA57 => 528,
        }
    }
}

/// A processor's capability words, as the kernel publishes them for the
/// boot CPU.
pub struct CPUInfo {
    /// The capability bit array, 32 feature bits per word.
    pub capability: Vec<u32>,
}

impl CPUInfo {
    /// The feature's bit is set in its capability word.
    pub open spec fn has_feature(self, f: CPUFeature) -> bool {
        self.capability@[f.index_spec() as int / 32] & (1u32 << (f.index_spec() as u32 % 32)) == (
        1u32 << (f.index_spec() as u32 % 32))
    }

    /// Wraps a processor's capability words, as read from the host kernel's
    /// boot-CPU record.
    pub fn from_capability_words(capability: Vec<u32>) -> (r: CPUInfo)
        ensures
            r.capability@ == capability@,
    {
        CPUInfo { capability }
    }

    /// Whether the processor has the given feature: the feature's bit, in
    /// the feature's word, is set.
    pub fn has_capability(&self, capability: CPUFeature) -> (r: bool)
        requires
            capability.index_spec() / 32 < self.capability@.len(),
        ensures
            r == self.has_feature(capability),
    {
        let index = capability.index();
        let word = self.capability[index / 32];
        let mask = 1u32 << ((index % 32) as u32);
        word & mask == mask
    }
}

} // verus!
