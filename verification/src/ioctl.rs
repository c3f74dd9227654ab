//! Decoding of the kernel's packed ioctl request words.
//!
//! A request word packs four fields: the command number (8 bits), the driver
//! type (8 bits), the payload size (14 bits) and the transfer direction
//! (2 bits), from least to most significant.

use vstd::prelude::*;

verus! {

/// Direction field value for a read request.
pub const DIR_READ: u32 = 2;

/// Direction field value for a write request.
pub const DIR_WRITE: u32 = 1;

/// Direction field value for a request that both reads and writes.
pub const DIR_READ_WRITE: u32 = 3;

/// A decoded ioctl request: the transfer direction selects the variant, and
/// each variant carries the driver type, the command number and the payload
/// size, in that order.
#[derive(Clone, Copy, Debug, PartialEq, Eq, Structural)]
pub enum Ioctl {
    /// No data transfer.
    NoData(u32, u32, u32),
    /// The caller reads data from the driver.
    Read(u32, u32, u32),
    /// The caller writes data to the driver.
    Write(u32, u32, u32),
    /// The caller both writes and reads data.
    ReadWrite(u32, u32, u32),
}

/// The command-number field of a request word: its low 8 bits.
pub open spec fn ioctl_num(v: u32) -> u32 {
    v % 0x100
}

/// The driver-type field of a request word: bits 8 to 15.
pub open spec fn ioctl_type(v: u32) -> u32 {
    (v / 0x100) % 0x100
}

/// The payload-size field of a request word: bits 16 to 29.
pub open spec fn ioctl_size_field(v: u32) -> u32 {
    (v / 0x10000) % 0x4000
}

/// The direction field of a request word: its top 2 bits.
pub open spec fn ioctl_dir(v: u32) -> u32 {
    v / 0x40000000
}

impl Ioctl {
    /// How a request word decodes: the direction field picks the variant, and
    /// the type, number and size fields fill it.
    pub open spec fn decode_spec(v: u32) -> Ioctl {
        let fields = (ioctl_type(v), ioctl_num(v), ioctl_size_field(v));
        if ioctl_dir(v) == DIR_READ {
            Ioctl::Read(fields.0, fields.1, fields.2)
        } else if ioctl_dir(v) == DIR_WRITE {
            Ioctl::Write(fields.0, fields.1, fields.2)
        } else if ioctl_dir(v) == DIR_READ_WRITE {
            Ioctl::ReadWrite(fields.0, fields.1, fields.2)
        } else {
            Ioctl::NoData(fields.0, fields.1, fields.2)
        }
    }

    /// The payload size a decoded request carries, whatever its direction.
    pub open spec fn size_spec(self) -> u32 {
        match self {
            Ioctl::NoData(_, _, size) => size,
            Ioctl::Read(_, _, size) => size,
            Ioctl::Write(_, _, size) => size,
            Ioctl::ReadWrite(_, _, size) => size,
        }
    }

    /// The size in bytes of the payload this request transfers.
    pub fn size(self) -> (r: u32)
        ensures
            r == self.size_spec(),
    {
        match self {
            Ioctl::NoData(_, _, size) => size,
            Ioctl::Read(_, _, size) => size,
            Ioctl::Write(_, _, size) => size,
            Ioctl::ReadWrite(_, _, size) => size,
        }
    }
}

impl From<u32> for Ioctl {
    /// Unpacks a request word into its decoded form.
    fn from(ioctl: u32) -> (r: Self) {
        let num = ioctl & 0xff;
        let ty = (ioctl >> 8u32) & 0xff;
        let size = (ioctl >> 16u32) & 0x3fff;
        let dir = (ioctl >> 30u32) & 0x3;
        proof {
            assert((ioctl & 0xff) == ioctl % 0x100 && ((ioctl >> 8u32) & 0xff) == (ioctl / 0x100)
                % 0x100 && ((ioctl >> 16u32) & 0x3fff) == (ioctl / 0x10000) % 0x4000 && ((ioctl
                >> 30u32) & 0x3) == ioctl / 0x40000000) by (bit_vector);
        }
        if dir == DIR_READ {
            Ioctl::Read(ty, num, size)
        } else if dir == DIR_WRITE {
            Ioctl::Write(ty, num, size)
        } else if dir == DIR_READ_WRITE {
            Ioctl::ReadWrite(ty, num, size)
        } else {
            Ioctl::NoData(ty, num, size)
        }
    }
}

impl vstd::std_specs::convert::FromSpecImpl<u32> for Ioctl {
    open spec fn obeys_from_spec() -> bool {
        true
    }

    open spec fn from_spec(v: u32) -> Self {
        Ioctl::decode_spec(v)
    }
}

} // verus!
