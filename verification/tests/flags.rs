use kernel::fs::flags::{
    OpenFlags, ALL_OPEN_FLAGS, O_APPEND, O_CLOEXEC, O_CREAT, O_DIRECTORY, O_EXCL, O_RDONLY, O_RDWR,
    O_TRUNC, O_WRONLY,
};

#[test]
fn flag_bit_values() {
    assert_eq!(O_RDONLY, 0);
    assert_eq!(O_WRONLY, 1);
    assert_eq!(O_RDWR, 2);
    assert_eq!(O_CREAT, 0x40);
    assert_eq!(O_EXCL, 0x80);
    assert_eq!(O_TRUNC, 0x200);
    assert_eq!(O_APPEND, 0x400);
    assert_eq!(O_DIRECTORY, 0x1_0000);
    assert_eq!(O_CLOEXEC, 0x8_0000);
    assert_eq!(ALL_OPEN_FLAGS, 0b1001_1111_0111_1100_0011);
}

#[test]
fn read_write_of_each_mode() {
    assert_eq!(OpenFlags::from_bits_truncate(O_RDONLY).read_write(), (true, false));
    assert_eq!(OpenFlags::from_bits_truncate(O_WRONLY).read_write(), (false, true));
    assert_eq!(OpenFlags::from_bits_truncate(O_RDWR).read_write(), (true, true));
    assert_eq!(OpenFlags::empty().read_write(), (true, false));
}

#[test]
fn read_write_ignores_other_flags() {
    let f = OpenFlags::from_bits_truncate(O_WRONLY | O_CREAT | O_TRUNC | O_CLOEXEC);
    assert_eq!(f.read_write(), (false, true));
    let g = OpenFlags::from_bits_truncate(O_RDWR | O_EXCL);
    assert_eq!(g.read_write(), (true, true));
}

#[test]
fn every_valid_mode_grants_access() {
    for mode in [O_RDONLY, O_WRONLY, O_RDWR] {
        for extra in [0, O_CREAT, O_EXCL | O_TRUNC, O_CLOEXEC | O_APPEND] {
            let (r, w) = OpenFlags::from_bits_truncate(mode | extra).read_write();
            assert!(r || w);
        }
    }
}

#[test]
fn from_bits_truncate_drops_unknown_bits() {
    let f = OpenFlags::from_bits_truncate(O_CREAT | (1 << 31) | (1 << 5) | (1 << 2));
    assert_eq!(f.bits(), O_CREAT);
}

#[test]
fn from_bits_rejects_unknown_bits() {
    assert!(OpenFlags::from_bits(1 << 5).is_none());
    assert!(OpenFlags::from_bits(1 << 17).is_none());
    assert_eq!(OpenFlags::from_bits(O_CREAT | O_RDWR).map(|f| f.bits()), Some(O_CREAT | O_RDWR));
    assert_eq!(OpenFlags::from_bits(0).map(|f| f.bits()), Some(0));
}

#[test]
fn contains_needs_every_flag() {
    let f = OpenFlags::from_bits_truncate(O_CREAT | O_RDWR);
    assert!(f.contains(OpenFlags::from_bits_truncate(O_CREAT)));
    assert!(!f.contains(OpenFlags::from_bits_truncate(O_CREAT | O_EXCL)));
    assert!(f.contains(OpenFlags::empty()));
}

#[test]
fn set_then_contains_and_keeps_mode() {
    let cloexec = OpenFlags::from_bits_truncate(O_CLOEXEC);
    let mut f = OpenFlags::from_bits_truncate(O_WRONLY | O_TRUNC);
    f.set(cloexec, true);
    assert!(f.contains(cloexec));
    assert_eq!(f.bits(), O_WRONLY | O_TRUNC | O_CLOEXEC);
    assert_eq!(f.read_write(), (false, true));
    f.set(cloexec, false);
    assert!(!f.contains(cloexec));
    assert_eq!(f.bits(), O_WRONLY | O_TRUNC);
    assert_eq!(f.read_write(), (false, true));
}
