//! The nine-character permission string of a file mode, with the setuid,
//! setgid and sticky bits overlaid on the three execute positions.

use vstd::prelude::*;
use crate::text::push_char;

verus! {

/// Read permission of the owner.
pub const S_IRUSR: u32 = 0o400;

/// Write permission of the owner.
pub const S_IWUSR: u32 = 0o200;

/// Execute permission of the owner.
pub const S_IXUSR: u32 = 0o100;

/// Read permission of the group.
pub const S_IRGRP: u32 = 0o040;

/// Write permission of the group.
pub const S_IWGRP: u32 = 0o020;

/// Execute permission of the group.
pub const S_IXGRP: u32 = 0o010;

/// Read permission of everybody else.
pub const S_IROTH: u32 = 0o004;

/// Write permission of everybody else.
pub const S_IWOTH: u32 = 0o002;

/// Execute permission of everybody else.
pub const S_IXOTH: u32 = 0o001;

/// Set user id on execution.
pub const S_ISUID: u32 = 0o4000;

/// Set group id on execution.
pub const S_ISGID: u32 = 0o2000;

/// The sticky bit.
pub const S_ISVTX: u32 = 0o1000;

/// The twelve bits that the permission string shows.
pub const PERMISSION_BITS: u32 = 0o7777;

/// Whether every bit of `bit` is set in `mode`.
pub open spec fn has_bit(mode: u32, bit: u32) -> bool {
    mode & bit == bit
}

/// The character of a read or write position: `letter` where the bit is set,
/// a dash where it is not.
pub open spec fn plain_mark(mode: u32, bit: u32, letter: char) -> char {
    if has_bit(mode, bit) {
        letter
    } else {
        '-'
    }
}

/// The character of an execute position. Without the special bit it is `x` or
/// a dash. With the special bit it is `lower` where execute is set too, and
/// `upper` where it is not.
pub open spec fn execute_mark(mode: u32, execute: u32, special: u32, lower: char, upper: char) -> char {
    if has_bit(mode, execute) {
        if has_bit(mode, special) {
            lower
        } else {
            'x'
        }
    } else {
        if has_bit(mode, special) {
            upper
        } else {
            '-'
        }
    }
}

/// The permission string of `mode`: owner, group and others, each as read,
/// write, execute.
pub open spec fn permission_text(mode: u32) -> Seq<char> {
    seq![
        plain_mark(mode, S_IRUSR, 'r'),
        plain_mark(mode, S_IWUSR, 'w'),
        execute_mark(mode, S_IXUSR, S_ISUID, 's', 'S'),
        plain_mark(mode, S_IRGRP, 'r'),
        plain_mark(mode, S_IWGRP, 'w'),
        execute_mark(mode, S_IXGRP, S_ISGID, 's', 'S'),
        plain_mark(mode, S_IROTH, 'r'),
        plain_mark(mode, S_IWOTH, 'w'),
        execute_mark(mode, S_IXOTH, S_ISVTX, 't', 'T'),
    ]
}

/// The three execute positions tell the execute bit and the special bit
/// apart: lower case for both, upper case for the special bit alone, `x` for
/// execute alone, a dash for neither.
pub proof fn lemma_special_follows_execute(mode: u32)
    ensures
        permission_text(mode).len() == 9,
        permission_text(mode)[2] == 's' <==> has_bit(mode, S_IXUSR) && has_bit(mode, S_ISUID),
        permission_text(mode)[2] == 'S' <==> !has_bit(mode, S_IXUSR) && has_bit(mode, S_ISUID),
        permission_text(mode)[2] == 'x' <==> has_bit(mode, S_IXUSR) && !has_bit(mode, S_ISUID),
        permission_text(mode)[2] == '-' <==> !has_bit(mode, S_IXUSR) && !has_bit(mode, S_ISUID),
        permission_text(mode)[5] == 's' <==> has_bit(mode, S_IXGRP) && has_bit(mode, S_ISGID),
        permission_text(mode)[5] == 'S' <==> !has_bit(mode, S_IXGRP) && has_bit(mode, S_ISGID),
        permission_text(mode)[5] == 'x' <==> has_bit(mode, S_IXGRP) && !has_bit(mode, S_ISGID),
        permission_text(mode)[5] == '-' <==> !has_bit(mode, S_IXGRP) && !has_bit(mode, S_ISGID),
        permission_text(mode)[8] == 't' <==> has_bit(mode, S_IXOTH) && has_bit(mode, S_ISVTX),
        permission_text(mode)[8] == 'T' <==> !has_bit(mode, S_IXOTH) && has_bit(mode, S_ISVTX),
        permission_text(mode)[8] == 'x' <==> has_bit(mode, S_IXOTH) && !has_bit(mode, S_ISVTX),
        permission_text(mode)[8] == '-' <==> !has_bit(mode, S_IXOTH) && !has_bit(mode, S_ISVTX),
{
}

/// Only the twelve permission bits count: the file-type bits above them
/// change nothing.
pub proof fn lemma_only_permission_bits_count(mode: u32)
    ensures
        permission_text(mode) == permission_text(mode & PERMISSION_BITS),
{
    let low = mode & PERMISSION_BITS;
    assert(forall|bit: u32| bit & 0o7777 == bit ==> ((mode & bit == bit) <==> ((mode & 0o7777) & bit
        == bit))) by (bit_vector);
    assert(0o400u32 & 0o7777 == 0o400 && 0o200u32 & 0o7777 == 0o200 && 0o100u32 & 0o7777 == 0o100
        && 0o040u32 & 0o7777 == 0o040 && 0o020u32 & 0o7777 == 0o020 && 0o010u32 & 0o7777 == 0o010
        && 0o004u32 & 0o7777 == 0o004 && 0o002u32 & 0o7777 == 0o002 && 0o001u32 & 0o7777 == 0o001
        && 0o4000u32 & 0o7777 == 0o4000 && 0o2000u32 & 0o7777 == 0o2000 && 0o1000u32 & 0o7777
        == 0o1000) by (bit_vector);
    assert(has_bit(mode, S_IRUSR) == has_bit(low, S_IRUSR));
    assert(has_bit(mode, S_IWUSR) == has_bit(low, S_IWUSR));
    assert(has_bit(mode, S_IXUSR) == has_bit(low, S_IXUSR));
    assert(has_bit(mode, S_IRGRP) == has_bit(low, S_IRGRP));
    assert(has_bit(mode, S_IWGRP) == has_bit(low, S_IWGRP));
    assert(has_bit(mode, S_IXGRP) == has_bit(low, S_IXGRP));
    assert(has_bit(mode, S_IROTH) == has_bit(low, S_IROTH));
    assert(has_bit(mode, S_IWOTH) == has_bit(low, S_IWOTH));
    assert(has_bit(mode, S_IXOTH) == has_bit(low, S_IXOTH));
    assert(has_bit(mode, S_ISUID) == has_bit(low, S_ISUID));
    assert(has_bit(mode, S_ISGID) == has_bit(low, S_ISGID));
    assert(has_bit(mode, S_ISVTX) == has_bit(low, S_ISVTX));
}

fn plain(mode: u32, bit: u32, letter: char) -> (c: char)
    ensures
        c == plain_mark(mode, bit, letter),
{
    if mode & bit == bit {
        letter
    } else {
        '-'
    }
}

fn overlaid(mode: u32, execute: u32, special: u32, lower: char, upper: char) -> (c: char)
    ensures
        c == execute_mark(mode, execute, special, lower, upper),
{
    if mode & execute == execute {
        if mode & special == special {
            lower
        } else {
            'x'
        }
    } else {
        if mode & special == special {
            upper
        } else {
            '-'
        }
    }
}

/// Renders the permission bits of `mode` as nine characters.
pub fn parse_mode(mode: u32) -> (perm: String)
    ensures
        perm@ == permission_text(mode),
        perm@.len() == 9,
{
    let mut perm = String::new();
    push_char(&mut perm, plain(mode, S_IRUSR, 'r'));
    push_char(&mut perm, plain(mode, S_IWUSR, 'w'));
    push_char(&mut perm, overlaid(mode, S_IXUSR, S_ISUID, 's', 'S'));
    push_char(&mut perm, plain(mode, S_IRGRP, 'r'));
    push_char(&mut perm, plain(mode, S_IWGRP, 'w'));
    push_char(&mut perm, overlaid(mode, S_IXGRP, S_ISGID, 's', 'S'));
    push_char(&mut perm, plain(mode, S_IROTH, 'r'));
    push_char(&mut perm, plain(mode, S_IWOTH, 'w'));
    push_char(&mut perm, overlaid(mode, S_IXOTH, S_ISVTX, 't', 'T'));
    assert(perm@ =~= permission_text(mode));
    perm
}

} // verus!
