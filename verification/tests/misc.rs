//! Ioctl decoding, device numbers, flag words, address translation helpers
//! and CPU feature bits.

use kernel_vm::cpuinfo::CPUFeature;
use kernel_vm::cpuinfo::CPUInfo;
use kernel_vm::device::DeviceNumber;
use kernel_vm::ioctl::Ioctl;
use kernel_vm::page::virt_to_phys;
use kernel_vm::vma::VMFlags;
use kernel_vm::vma::VM_EXEC;
use kernel_vm::vma::VM_READ;
use kernel_vm::vma::VM_WRITE;

#[test]
fn ioctl_decodes_each_direction() {
    // direction 2 (read), size 0x40, type 0x12, number 0x05
    let read = (2u32 << 30) | (0x40 << 16) | (0x12 << 8) | 0x05;
    assert!(matches!(Ioctl::from(read), Ioctl::Read(0x12, 0x05, 0x40)));

    let write = (1u32 << 30) | (0x200 << 16) | (0xab << 8) | 0xcd;
    assert!(matches!(Ioctl::from(write), Ioctl::Write(0xab, 0xcd, 0x200)));

    let both = (3u32 << 30) | (0x1 << 16) | (0x7f << 8) | 0xff;
    assert!(matches!(Ioctl::from(both), Ioctl::ReadWrite(0x7f, 0xff, 0x1)));

    let none = (0x8 << 16) | (0x02 << 8) | 0x03;
    assert!(matches!(Ioctl::from(none), Ioctl::NoData(0x02, 0x03, 0x8)));
}

#[test]
fn ioctl_size_reads_the_size_field() {
    let read = (2u32 << 30) | (0x1234 << 16) | (0x12 << 8) | 0x05;
    assert_eq!(Ioctl::from(read).size(), 0x1234);
    assert_eq!(Ioctl::NoData(1, 2, 77).size(), 77);
    assert_eq!(Ioctl::Write(1, 2, 0).size(), 0);
    assert_eq!(Ioctl::ReadWrite(9, 9, 0x3fff).size(), 0x3fff);
}

#[test]
fn device_number_splits_and_repacks() {
    let dev = DeviceNumber::from((0x123u32 << 20) | 0x456);
    assert_eq!(dev.major(), 0x123);
    assert_eq!(dev.minor(), 0x456);
    assert_eq!(dev.encode(), (0x123u32 << 20) | 0x456);

    let zero = DeviceNumber::from(0);
    assert_eq!(zero.major(), 0);
    assert_eq!(zero.minor(), 0);

    let max = DeviceNumber::from(u32::MAX);
    assert_eq!(max.major(), 0xfff);
    assert_eq!(max.minor(), 0xfffff);
    assert_eq!(max.encode(), u32::MAX);
}

#[test]
fn flag_words_truncate_contain_and_union() {
    let f = VMFlags::from_bits_truncate(VM_READ | VM_WRITE | (1 << 40));
    // Unknown high bits are dropped, known ones kept.
    assert_eq!(f.bits(), VM_READ | VM_WRITE);
    assert!(f.contains(VMFlags::from_bits_truncate(VM_READ)));
    assert!(!f.contains(VMFlags::from_bits_truncate(VM_EXEC)));
    assert!(VMFlags::empty().bits() == 0);
    let g = f.union(VMFlags::from_bits_truncate(VM_EXEC));
    assert_eq!(g.bits(), VM_READ | VM_WRITE | VM_EXEC);
}

#[test]
fn virt_to_phys_covers_both_kernel_mappings() {
    // A direct-map address is offset by the direct map's base.
    assert_eq!(virt_to_phys(0xffff_8880_0000_1000, 0xffff_8880_0000_0000, 0), 0x1000);
    // A kernel-text address is offset by the image's physical base.
    assert_eq!(
        virt_to_phys(0xffff_ffff_8000_2000, 0xffff_8880_0000_0000, 0x100_0000),
        0x100_2000
    );
}

#[test]
fn cpu_feature_bit_is_tested_in_its_word() {
    // Five-level paging sits at word 16, bit 16.
    let mut words = vec![0u32; 22];
    words[16] = 1 << 16;
    let info = CPUInfo::from_capability_words(words);
    assert!(info.has_capability(CPUFeature::LA57));

    let off = CPUInfo::from_capability_words(vec![0u32; 22]);
    assert!(!off.has_capability(CPUFeature::LA57));
}
