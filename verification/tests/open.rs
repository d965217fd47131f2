use kernel::error::Errno;
use kernel::fs::flags::{
    OpenFlags, O_CLOEXEC, O_CREAT, O_DIRECTORY, O_EXCL, O_RDONLY, O_RDWR, O_TRUNC, O_WRONLY,
};
use kernel::fs::inode::{open_file, open_osfile, OSFile, OpenTarget, PathWalk, WalkAction, WalkEvent};

const DIR: WalkEvent = WalkEvent::Found { is_dir: true };
const FILE: WalkEvent = WalkEvent::Found { is_dir: false };

fn flags(bits: u32) -> OpenFlags {
    OpenFlags::from_bits_truncate(bits)
}

fn disk(path: &str, bits: u32) -> PathWalk {
    match open_file(path.to_string(), flags(bits)) {
        Ok(OpenTarget::Disk(w)) => w,
        other => panic!("expected a disk walk for {:?}, got {:?}", path, other),
    }
}

fn finds(w: &PathWalk, name: &str) -> bool {
    matches!(w.action(), WalkAction::Find(n) if n == name)
}

fn done(w: &PathWalk) -> Option<Result<(), Errno>> {
    match w.action() {
        WalkAction::Done(r) => Some(*r),
        _ => None,
    }
}

#[test]
fn tty_opens_stdout() {
    assert!(matches!(open_file("/dev/tty".to_string(), flags(O_RDWR)), Ok(OpenTarget::Stdout)));
    // device paths never look at the access mode
    assert!(matches!(open_file("/dev/tty".to_string(), flags(O_WRONLY | O_RDWR)), Ok(OpenTarget::Stdout)));
}

#[test]
fn other_devices_are_missing() {
    assert!(matches!(open_file("/dev/null".to_string(), flags(O_RDONLY)), Err(Errno::ENOENT)));
    assert!(matches!(open_file("/dev".to_string(), flags(O_RDONLY)), Err(Errno::ENOENT)));
    assert!(matches!(open_file("/devices".to_string(), flags(O_CREAT)), Err(Errno::ENOENT)));
    assert!(matches!(open_file("/dev/tty/x".to_string(), flags(O_RDONLY)), Err(Errno::ENOENT)));
}

#[test]
fn existing_file_opens() {
    let mut w = disk("busybox", O_RDONLY);
    assert!(finds(&w, "busybox"));
    w.step(FILE);
    assert_eq!(done(&w), Some(Ok(())));
    let f: OSFile<u32> = w.finish(42);
    assert!(f.readable());
    assert!(!f.writable());
    assert_eq!(f.path(), Some("busybox"));
    assert_eq!(f.status().bits(), 0);
    assert_eq!(*f.entry(), 42);
}

#[test]
fn components_are_looked_up_in_order() {
    let mut w = disk("/usr/bin/lua", O_WRONLY);
    assert!(finds(&w, ""));
    w.step(DIR);
    assert!(finds(&w, "usr"));
    w.step(DIR);
    assert!(finds(&w, "bin"));
    w.step(DIR);
    assert!(finds(&w, "lua"));
    w.step(FILE);
    assert_eq!(done(&w), Some(Ok(())));
    let f = w.finish("entry");
    assert!(!f.readable());
    assert!(f.writable());
    assert_eq!(f.path(), Some("/usr/bin/lua"));
}

#[test]
fn missing_last_component_is_created() {
    let mut w = disk("dir/new", O_CREAT | O_RDWR);
    w.step(DIR);
    assert!(finds(&w, "new"));
    w.step(WalkEvent::Missing);
    assert!(matches!(w.action(), WalkAction::Create(n) if n == "new"));
    w.step(WalkEvent::Created);
    assert_eq!(done(&w), Some(Ok(())));
    let f = w.finish(());
    assert!(f.readable() && f.writable());
}

#[test]
fn missing_last_component_without_creat() {
    let mut w = disk("dir/new", O_RDWR);
    w.step(DIR);
    w.step(WalkEvent::Missing);
    assert_eq!(done(&w), Some(Err(Errno::ENOENT)));
}

#[test]
fn missing_directory_is_enoent_even_with_creat() {
    let mut w = disk("a/b/c", O_CREAT | O_RDWR);
    w.step(DIR);
    w.step(WalkEvent::Missing);
    assert_eq!(done(&w), Some(Err(Errno::ENOENT)));
}

#[test]
fn not_a_directory_is_enotdir() {
    let mut w = disk("file/inside", O_RDONLY);
    w.step(FILE);
    w.step(WalkEvent::NotADirectory);
    assert_eq!(done(&w), Some(Err(Errno::ENOTDIR)));
}

#[test]
fn exclusive_create_of_existing_file_fails() {
    let mut w = disk("a/b", O_CREAT | O_EXCL | O_WRONLY);
    w.step(DIR);
    w.step(FILE);
    assert_eq!(done(&w), Some(Err(Errno::EEXIST)));
}

#[test]
fn exclusive_create_of_missing_file_fails() {
    // under O_EXCL the file must already have existed
    let mut w = disk("a", O_CREAT | O_EXCL | O_WRONLY);
    w.step(WalkEvent::Missing);
    assert_eq!(done(&w), Some(Err(Errno::ENOENT)));
    let mut v = disk("d/a", O_CREAT | O_EXCL | O_RDWR);
    v.step(DIR);
    v.step(WalkEvent::Missing);
    assert_eq!(done(&v), Some(Err(Errno::ENOENT)));
}

#[test]
fn directory_flag_on_a_file_fails() {
    let mut w = disk("etc/passwd", O_DIRECTORY | O_RDONLY);
    w.step(DIR);
    w.step(FILE);
    assert_eq!(done(&w), Some(Err(Errno::ENOTDIR)));
}

#[test]
fn directory_flag_on_a_directory_opens() {
    let mut w = disk("etc", O_DIRECTORY | O_RDONLY);
    w.step(DIR);
    assert_eq!(done(&w), Some(Ok(())));
}

#[test]
fn directory_flag_with_creat_creates_nothing() {
    let mut w = disk("new", O_DIRECTORY | O_CREAT | O_RDWR);
    w.step(WalkEvent::Missing);
    assert_eq!(done(&w), Some(Err(Errno::ENOTDIR)));
}

#[test]
fn exclusive_create_beats_directory_flag() {
    let mut w = disk("x", O_DIRECTORY | O_CREAT | O_EXCL | O_RDWR);
    w.step(FILE);
    assert_eq!(done(&w), Some(Err(Errno::EEXIST)));
}

#[test]
fn directory_is_never_truncated() {
    let mut w = disk("var/log", O_TRUNC | O_RDWR);
    w.step(DIR);
    w.step(DIR);
    assert_eq!(done(&w), Some(Ok(())));
}

#[test]
fn excl_without_creat_opens_existing() {
    let mut w = disk("a", O_EXCL | O_RDONLY);
    w.step(FILE);
    assert_eq!(done(&w), Some(Ok(())));
}

#[test]
fn truncate_when_writable() {
    let mut w = disk("log", O_TRUNC | O_WRONLY);
    w.step(FILE);
    assert!(matches!(w.action(), WalkAction::Clear));
    w.step(WalkEvent::Cleared);
    assert_eq!(done(&w), Some(Ok(())));
}

#[test]
fn no_truncate_when_read_only() {
    let mut w = disk("log", O_TRUNC | O_RDONLY);
    w.step(FILE);
    assert_eq!(done(&w), Some(Ok(())));
}

#[test]
fn created_file_is_not_truncated() {
    let mut w = disk("log", O_CREAT | O_TRUNC | O_RDWR);
    w.step(WalkEvent::Missing);
    w.step(WalkEvent::Created);
    assert_eq!(done(&w), Some(Ok(())));
}

#[test]
fn walk_takes_at_most_components_plus_one_answers() {
    // three components, found, then truncated: 3 + 1 answers
    let mut w = disk("a/b/c", O_TRUNC | O_RDWR);
    let mut answers = 0;
    while done(&w).is_none() {
        let ev = match w.action() {
            WalkAction::Find(n) => if n == "c" { FILE } else { DIR },
            WalkAction::Create(_) => WalkEvent::Created,
            WalkAction::Clear => WalkEvent::Cleared,
            WalkAction::Done(_) => unreachable!(),
        };
        w.step(ev);
        answers += 1;
    }
    assert_eq!(answers, 4);
    assert_eq!(done(&w), Some(Ok(())));
}

#[test]
fn open_osfile_starts_at_first_component() {
    let w = open_osfile("x/y".to_string(), flags(O_RDONLY));
    assert!(finds(&w, "x"));
}

#[test]
fn close_on_exec_changes_only_the_flag() {
    let mut w = disk("f", O_RDWR);
    w.step(FILE);
    let mut f = w.finish(7u8);
    f.set_close_on_exec(true);
    assert_eq!(f.status().bits(), O_CLOEXEC);
    assert!(f.status().contains(OpenFlags::from_bits_truncate(O_CLOEXEC)));
    assert!(f.readable() && f.writable());
    assert_eq!(f.path(), Some("f"));
    assert_eq!(*f.entry(), 7);
    f.set_close_on_exec(false);
    assert_eq!(f.status().bits(), 0);
}

#[test]
fn new_file_has_no_descriptor_flags() {
    let f = OSFile::new("p".to_string(), false, true, 1i64);
    assert_eq!(f.status().bits(), 0);
    assert!(!f.readable());
    assert!(f.writable());
}
