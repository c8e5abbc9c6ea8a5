use myls::permissions::{
    parse_mode, PERMISSION_BITS, S_IRGRP, S_IROTH, S_IRUSR, S_ISGID, S_ISUID, S_ISVTX, S_IWGRP,
    S_IWOTH, S_IWUSR, S_IXGRP, S_IXOTH, S_IXUSR,
};

fn by_hand(mode: u32) -> String {
    let mut perm = String::new();
    perm.push(if mode & libc::S_IRUSR == libc::S_IRUSR { 'r' } else { '-' });
    perm.push(if mode & libc::S_IWUSR == libc::S_IWUSR { 'w' } else { '-' });
    perm.push(match (mode & libc::S_IXUSR == libc::S_IXUSR, mode & libc::S_ISUID == libc::S_ISUID) {
        (true, true) => 's',
        (true, false) => 'x',
        (false, true) => 'S',
        (false, false) => '-',
    });
    perm.push(if mode & libc::S_IRGRP == libc::S_IRGRP { 'r' } else { '-' });
    perm.push(if mode & libc::S_IWGRP == libc::S_IWGRP { 'w' } else { '-' });
    perm.push(match (mode & libc::S_IXGRP == libc::S_IXGRP, mode & libc::S_ISGID == libc::S_ISGID) {
        (true, true) => 's',
        (true, false) => 'x',
        (false, true) => 'S',
        (false, false) => '-',
    });
    perm.push(if mode & libc::S_IROTH == libc::S_IROTH { 'r' } else { '-' });
    perm.push(if mode & libc::S_IWOTH == libc::S_IWOTH { 'w' } else { '-' });
    perm.push(match (mode & libc::S_IXOTH == libc::S_IXOTH, mode & libc::S_ISVTX == libc::S_ISVTX) {
        (true, true) => 't',
        (true, false) => 'x',
        (false, true) => 'T',
        (false, false) => '-',
    });
    perm
}

#[test]
fn the_bits_are_those_of_the_system() {
    assert_eq!(S_IRUSR, libc::S_IRUSR);
    assert_eq!(S_IWUSR, libc::S_IWUSR);
    assert_eq!(S_IXUSR, libc::S_IXUSR);
    assert_eq!(S_IRGRP, libc::S_IRGRP);
    assert_eq!(S_IWGRP, libc::S_IWGRP);
    assert_eq!(S_IXGRP, libc::S_IXGRP);
    assert_eq!(S_IROTH, libc::S_IROTH);
    assert_eq!(S_IWOTH, libc::S_IWOTH);
    assert_eq!(S_IXOTH, libc::S_IXOTH);
    assert_eq!(S_ISUID, libc::S_ISUID);
    assert_eq!(S_ISGID, libc::S_ISGID);
    assert_eq!(S_ISVTX, libc::S_ISVTX);
    assert_eq!(PERMISSION_BITS, 0o7777);
}

#[test]
fn common_modes() {
    assert_eq!(parse_mode(0o644), "rw-r--r--");
    assert_eq!(parse_mode(0o755), "rwxr-xr-x");
    assert_eq!(parse_mode(0o000), "---------");
    assert_eq!(parse_mode(0o777), "rwxrwxrwx");
    assert_eq!(parse_mode(0o100644), "rw-r--r--");
    assert_eq!(parse_mode(0o040755), "rwxr-xr-x");
    assert_eq!(parse_mode(0o120777), "rwxrwxrwx");
}

#[test]
fn special_bits_with_execute_are_lower_case() {
    assert_eq!(parse_mode(0o4755), "rwsr-xr-x");
    assert_eq!(parse_mode(0o2775), "rwxrwsr-x");
    assert_eq!(parse_mode(0o1777), "rwxrwxrwt");
    assert_eq!(parse_mode(0o7777), "rwsrwsrwt");
    // group write, group execute and setgid
    assert_eq!(&parse_mode(S_IWGRP | S_IXGRP | S_ISGID)[3..6], "-ws");
}

#[test]
fn special_bits_without_execute_are_upper_case() {
    assert_eq!(parse_mode(0o4644), "rwSr--r--");
    assert_eq!(parse_mode(0o2664), "rw-rwSr--");
    assert_eq!(parse_mode(0o1666), "rw-rw-rwT");
    assert_eq!(parse_mode(0o7000), "--S--S--T");
    // group write and setgid, no group execute
    assert_eq!(&parse_mode(S_IWGRP | S_ISGID)[3..6], "-wS");
}

#[test]
fn every_mode_of_twelve_bits() {
    for mode in 0..=0o7777u32 {
        let perm = parse_mode(mode);
        assert_eq!(perm.chars().count(), 9, "mode {mode:o}");
        assert_eq!(perm, by_hand(mode), "mode {mode:o}");
        // the bits above the twelve change nothing
        assert_eq!(parse_mode(mode | 0o100000), perm);
        assert_eq!(parse_mode(mode | 0xFFFF_F000), perm);
    }
}
