//! Device numbers: the packed major/minor pair the kernel uses to identify a
//! character or block device.

use vstd::prelude::*;
use vstd::std_specs::convert::FromSpec;

verus! {

/// A device number, split into its major and minor halves. The packed kernel
/// encoding keeps the major number in the top 12 bits and the minor number in
/// the low 20 bits.
#[derive(Clone, Copy, Debug, PartialEq, Eq, Structural)]
pub struct DeviceNumber(pub u32, pub u32);

impl DeviceNumber {
    /// The major number: identifies the driver.
    pub fn major(&self) -> (r: u32)
        ensures
            r == self.0,
    {
        self.0
    }

    /// The minor number: identifies the device instance within the driver.
    pub fn minor(&self) -> (r: u32)
        ensures
            r == self.1,
    {
        self.1
    }

    /// Packs the pair back into the kernel's one-word encoding.
    pub fn encode(self) -> (r: u32)
        requires
            self.0 < 0x1000,
            self.1 < 0x100000,
        ensures
            r == self.0 * 0x100000 + self.1,
    {
        proof {
            let (hi, lo) = (self.0, self.1);
            assert(hi < 0x1000 && lo < 0x100000 ==> (hi << 20u32 | lo) == hi * 0x100000 + lo)
                by (bit_vector);
        }
        self.0 << 20u32 | self.1
    }
}

impl From<u32> for DeviceNumber {
    /// Splits the kernel's one-word encoding into major and minor halves.
    fn from(value: u32) -> (r: Self) {
        proof {
            assert(value >> 20u32 == value / 0x100000 && (value & 0xfffff) == value % 0x100000)
                by (bit_vector);
        }
        DeviceNumber(value >> 20u32, value & 0xfffff)
    }
}

impl vstd::std_specs::convert::FromSpecImpl<u32> for DeviceNumber {
    open spec fn obeys_from_spec() -> bool {
        true
    }

    open spec fn from_spec(value: u32) -> Self {
        DeviceNumber(value / 0x100000, value % 0x100000)
    }
}

/// A device number decodes to a major half below 2^12 and a minor half below
/// 2^20, and packing those halves yields the encoding the pair came from.
pub proof fn lemma_device_number_round_trip(value: u32)
    ensures
        DeviceNumber::from_spec(value).0 < 0x1000,
        DeviceNumber::from_spec(value).1 < 0x100000,
        DeviceNumber::from_spec(value).0 * 0x100000 + DeviceNumber::from_spec(value).1 == value,
{
    assert(value / 0x100000 < 0x1000 && value % 0x100000 < 0x100000 && (value / 0x100000) * 0x100000
        + value % 0x100000 == value) by (nonlinear_arith);
}

} // verus!
