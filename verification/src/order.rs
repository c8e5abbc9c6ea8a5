//! The order of a listing: by name, byte by byte, or by modification time,
//! either way forwards or backwards, with entries of equal rank kept in the
//! order in which they came.

use vstd::prelude::*;
use vstd::utf8::encode_utf8;
use vstd::string::StringSliceAdditionalSpecFns;
use crate::entry::{FileItem, ItemView, ListingFlags};

verus! {

/// Whether `a` comes before `b` in the lexicographic order of byte strings:
/// at the first byte that differs `a` has the smaller one, or `a` ends there
/// and `b` goes on.
pub open spec fn bytes_before(a: Seq<u8>, b: Seq<u8>) -> bool
    decreases a.len(),
{
    if b.len() == 0 {
        false
    } else if a.len() == 0 {
        true
    } else if a[0] != b[0] {
        a[0] < b[0]
    } else {
        bytes_before(a.drop_first(), b.drop_first())
    }
}

/// The bytes by which a name is ordered: its UTF-8 encoding.
pub open spec fn name_bytes(item: ItemView) -> Seq<u8> {
    encode_utf8(item.filename)
}

/// Whether `a` comes strictly before `b` in the order that the flags ask for.
pub open spec fn precedes(a: ItemView, b: ItemView, flags: ListingFlags) -> bool {
    if flags.sort_by_time {
        if flags.reverse_sort {
            b.last_modified.is_before(a.last_modified)
        } else {
            a.last_modified.is_before(b.last_modified)
        }
    } else {
        if flags.reverse_sort {
            bytes_before(name_bytes(b), name_bytes(a))
        } else {
            bytes_before(name_bytes(a), name_bytes(b))
        }
    }
}

/// Whether no entry of `items` comes strictly before an earlier one.
pub open spec fn is_sorted(items: Seq<FileItem>, flags: ListingFlags) -> bool {
    forall|i: int, j: int| 0 <= i < j < items.len() ==> !precedes(#[trigger] items[j]@, #[trigger] items[i]@, flags)
}

/// Whether `after` holds the entries of `before` in another order, the entry
/// at each place `i` being the one that stood at `from[i]`.
pub open spec fn is_rearrangement(before: Seq<FileItem>, after: Seq<FileItem>, from: Seq<int>) -> bool {
    &&& from.len() == before.len()
    &&& after.len() == before.len()
    &&& forall|i: int| 0 <= i < from.len() ==> 0 <= #[trigger] from[i] < before.len() && after[i] == before[from[i]]
    &&& forall|i: int, j: int| 0 <= i < j < from.len() ==> #[trigger] from[i] != #[trigger] from[j]
}

/// Whether the entries at `i` and `j`, the first of them standing earlier,
/// are in order: the later one does not precede the earlier one, and if they
/// are of equal rank the earlier one stood earlier before the sort too.
pub open spec fn in_order(items: Seq<FileItem>, from: Seq<int>, flags: ListingFlags, i: int, j: int) -> bool {
    &&& !precedes(items[j]@, items[i]@, flags)
    &&& precedes(items[i]@, items[j]@, flags) || from[i] < from[j]
}

/// Whether `after` is `before` sorted stably, `from` telling where each
/// entry stood.
pub open spec fn is_stable_sort(
    before: Seq<FileItem>,
    after: Seq<FileItem>,
    from: Seq<int>,
    flags: ListingFlags,
) -> bool {
    &&& is_rearrangement(before, after, from)
    &&& forall|i: int, j: int| 0 <= i < j < after.len() ==> #[trigger] in_order(after, from, flags, i, j)
}

/// No byte string comes before itself.
pub proof fn lemma_bytes_before_irreflexive(a: Seq<u8>)
    ensures
        !bytes_before(a, a),
    decreases a.len(),
{
    if a.len() > 0 {
        lemma_bytes_before_irreflexive(a.drop_first());
    }
}

/// Of two different byte strings exactly one comes before the other.
pub proof fn lemma_bytes_before_total(a: Seq<u8>, b: Seq<u8>)
    ensures
        a != b ==> (bytes_before(a, b) <==> !bytes_before(b, a)),
        a == b ==> !bytes_before(a, b),
    decreases a.len(),
{
    if a == b {
        lemma_bytes_before_irreflexive(a);
    } else if a.len() > 0 && b.len() > 0 && a[0] == b[0] {
        if a.drop_first() == b.drop_first() {
            assert(a =~= seq![a[0]] + a.drop_first());
            assert(b =~= seq![b[0]] + b.drop_first());
        }
        lemma_bytes_before_total(a.drop_first(), b.drop_first());
    } else if a.len() == 0 && b.len() == 0 {
        assert(a =~= b);
    }
}

/// The order of byte strings is transitive.
pub proof fn lemma_bytes_before_transitive(a: Seq<u8>, b: Seq<u8>, c: Seq<u8>)
    requires
        bytes_before(a, b),
        bytes_before(b, c),
    ensures
        bytes_before(a, c),
    decreases a.len(),
{
    if a.len() > 0 && a[0] == b[0] && b[0] == c[0] {
        lemma_bytes_before_transitive(a.drop_first(), b.drop_first(), c.drop_first());
    }
}

/// Not coming after is transitive too: if `b` does not come before `a` and
/// `c` does not come before `b`, then `c` does not come before `a`.
pub proof fn lemma_bytes_not_after_transitive(a: Seq<u8>, b: Seq<u8>, c: Seq<u8>)
    requires
        !bytes_before(b, a),
        !bytes_before(c, b),
    ensures
        !bytes_before(c, a),
{
    lemma_bytes_before_total(a, b);
    lemma_bytes_before_total(b, c);
    lemma_bytes_before_total(a, c);
    if bytes_before(c, a) {
        if a == b {
        } else if b == c {
        } else {
            lemma_bytes_before_transitive(a, b, c);
        }
    }
}

/// Each of the four orders is a strict order in which not coming after is
/// transitive: nothing precedes itself, no two entries precede each other,
/// and precedence carries over a chain.
pub proof fn lemma_precedes_is_strict_order(a: ItemView, b: ItemView, c: ItemView, flags: ListingFlags)
    ensures
        !precedes(a, a, flags),
        precedes(a, b, flags) ==> !precedes(b, a, flags),
        precedes(a, b, flags) && precedes(b, c, flags) ==> precedes(a, c, flags),
        !precedes(b, a, flags) && !precedes(c, b, flags) ==> !precedes(c, a, flags),
{
    let (x, y, z) = (name_bytes(a), name_bytes(b), name_bytes(c));
    lemma_bytes_before_irreflexive(x);
    lemma_bytes_before_total(x, y);
    if bytes_before(x, y) && bytes_before(y, z) {
        lemma_bytes_before_transitive(x, y, z);
    }
    if bytes_before(z, y) && bytes_before(y, x) {
        lemma_bytes_before_transitive(z, y, x);
    }
    if !bytes_before(y, x) && !bytes_before(z, y) {
        lemma_bytes_not_after_transitive(x, y, z);
    }
    if !bytes_before(y, z) && !bytes_before(x, y) {
        lemma_bytes_not_after_transitive(z, y, x);
    }
}

/// Each of the four orders is total on what it orders by: of two entries
/// neither of which precedes the other, the modification times are the same
/// where the order is by time, and the bytes of the names where it is by name.
pub proof fn lemma_precedes_is_total(a: ItemView, b: ItemView, flags: ListingFlags)
    requires
        !precedes(a, b, flags),
        !precedes(b, a, flags),
    ensures
        flags.sort_by_time ==> a.last_modified == b.last_modified,
        !flags.sort_by_time ==> name_bytes(a) == name_bytes(b),
{
    lemma_bytes_before_total(name_bytes(a), name_bytes(b));
}

/// Sorting what is sorted already changes nothing: a stable sort of a
/// sequence that is in order is that sequence.
pub proof fn lemma_sorted_stays(
    before: Seq<FileItem>,
    after: Seq<FileItem>,
    from: Seq<int>,
    flags: ListingFlags,
)
    requires
        is_sorted(before, flags),
        is_stable_sort(before, after, from, flags),
    ensures
        after == before,
{
    assert forall|i: int, j: int| 0 <= i < j < from.len() implies from[i] < from[j] by {
        assert(in_order(after, from, flags, i, j));
        if from[j] < from[i] {
            assert(!precedes(before[from[i]]@, before[from[j]]@, flags));
        }
    }
    lemma_increasing_is_identity(from, from.len() as int);
    assert forall|i: int| 0 <= i < after.len() implies after[i] == before[i] by {
        assert(from[i] == i);
    }
    assert(after =~= before);
}

proof fn lemma_increasing_is_identity(from: Seq<int>, upto: int)
    requires
        0 <= upto <= from.len(),
        forall|i: int| 0 <= i < from.len() ==> 0 <= #[trigger] from[i] < from.len(),
        forall|i: int, j: int| 0 <= i < j < from.len() ==> from[i] < from[j],
    ensures
        forall|i: int| 0 <= i < upto ==> #[trigger] from[i] >= i,
        forall|i: int| from.len() - upto <= i < from.len() ==> #[trigger] from[i] <= i,
    decreases upto,
{
    if upto > 0 {
        lemma_increasing_is_identity(from, upto - 1);
        if upto >= 2 {
            assert(from[upto - 2] < from[upto - 1]);
            assert(from[from.len() - upto] < from[from.len() - upto + 1]);
        }
    }
}

/// Compares two byte strings.
pub fn bytes_less(a: &[u8], b: &[u8]) -> (less: bool)
    ensures
        less == bytes_before(a@, b@),
{
    let mut at: usize = 0;
    assert(a@.subrange(0, a.len() as int) =~= a@);
    assert(b@.subrange(0, b.len() as int) =~= b@);
    while at < a.len() && at < b.len() && a[at] == b[at]
        invariant
            at <= a.len(),
            at <= b.len(),
            bytes_before(a@, b@) == bytes_before(
                a@.subrange(at as int, a.len() as int),
                b@.subrange(at as int, b.len() as int),
            ),
        decreases a.len() - at,
    {
        assert(a@.subrange(at as int, a.len() as int).drop_first() =~= a@.subrange(
            at + 1,
            a.len() as int,
        ));
        assert(b@.subrange(at as int, b.len() as int).drop_first() =~= b@.subrange(
            at + 1,
            b.len() as int,
        ));
        at = at + 1;
    }
    if at >= b.len() {
        false
    } else if at >= a.len() {
        true
    } else {
        a[at] < b[at]
    }
}

/// Whether `a` comes strictly before `b` in the order that the flags ask for.
pub fn item_precedes(a: &FileItem, b: &FileItem, flags: &ListingFlags) -> (first: bool)
    ensures
        first == precedes(a@, b@, *flags),
{
    if flags.sort_by_time {
        if flags.reverse_sort {
            b.last_modified.before(&a.last_modified)
        } else {
            a.last_modified.before(&b.last_modified)
        }
    } else {
        if flags.reverse_sort {
            bytes_less(b.filename.as_str().as_bytes(), a.filename.as_str().as_bytes())
        } else {
            bytes_less(a.filename.as_str().as_bytes(), b.filename.as_str().as_bytes())
        }
    }
}

/// `items` with the element at `from_at` taken out and put back at `to_at`.
pub open spec fn moved<A>(items: Seq<A>, from_at: int, to_at: int) -> Seq<A> {
    items.remove(from_at).insert(to_at, items[from_at])
}

proof fn lemma_moved<A>(items: Seq<A>, from_at: int, to_at: int)
    requires
        0 <= to_at <= from_at < items.len(),
    ensures
        moved(items, from_at, to_at).len() == items.len(),
        forall|i: int| 0 <= i < to_at ==> #[trigger] moved(items, from_at, to_at)[i] == items[i],
        moved(items, from_at, to_at)[to_at] == items[from_at],
        forall|i: int|
            to_at < i <= from_at ==> #[trigger] moved(items, from_at, to_at)[i] == items[i - 1],
        forall|i: int|
            from_at < i < items.len() ==> #[trigger] moved(items, from_at, to_at)[i] == items[i],
{
}

/// Sorts `items` in the order that the flags ask for: by name or by
/// modification time, forwards or backwards. Entries of equal rank stay in
/// the order in which they came, and a vector that is in order already is
/// left as it is.
pub fn sort_items(items: &mut Vec<FileItem>, flags: &ListingFlags)
    ensures
        exists|from: Seq<int>| is_stable_sort(old(items)@, final(items)@, from, *flags),
        is_sorted(final(items)@, *flags),
        is_sorted(old(items)@, *flags) ==> final(items)@ == old(items)@,
{
    let ghost before = items@;
    let ghost mut from: Seq<int> = Seq::new(items.len() as nat, |i: int| i);
    let mut done: usize = 0;
    while done < items.len()
        invariant
            done <= items.len(),
            is_rearrangement(before, items@, from),
            forall|i: int, j: int| 0 <= i < j < done ==> #[trigger] in_order(items@, from, *flags, i, j),
            forall|i: int| 0 <= i < done ==> #[trigger] from[i] < done,
            forall|k: int| done <= k < items.len() ==> #[trigger] from[k] == k,
            is_sorted(before, *flags) ==> items@ == before,
        decreases items.len() - done,
    {
        let ghost start = items@;
        let ghost start_from = from;
        let mut pos: usize = done;
        while pos > 0 && item_precedes(&items[done], &items[pos - 1], flags)
            invariant
                pos <= done < items.len(),
                forall|k: int| pos <= k < done ==> precedes(items[done as int]@, #[trigger] items[k]@, *flags),
            decreases pos,
        {
            pos = pos - 1;
        }
        proof {
            let moving = start[done as int]@;
            assert forall|k: int| 0 <= k < pos implies !precedes(moving, #[trigger] start[k]@, *flags) by {
                if k < pos - 1 {
                    assert(in_order(start, start_from, *flags, k, pos - 1));
                    lemma_precedes_is_strict_order(start[k]@, start[pos - 1]@, moving, *flags);
                }
            }
            assert forall|k: int| pos <= k < done implies !precedes(#[trigger] start[k]@, moving, *flags) by {
                lemma_precedes_is_strict_order(moving, start[k]@, moving, *flags);
            }
            if is_sorted(before, *flags) && pos < done {
                assert(precedes(before[done as int]@, before[pos as int]@, *flags));
            }
        }
        if pos < done {
            let taken = items.remove(done);
            items.insert(pos, taken);
            proof {
                from = moved(start_from, done as int, pos as int);
                lemma_moved(start, done as int, pos as int);
                lemma_moved(start_from, done as int, pos as int);
                assert(items@ == moved(start, done as int, pos as int));
            }
        }
        proof {
            let here = items@;
            assert forall|i: int, j: int| 0 <= i < j < done + 1 implies #[trigger] in_order(
                here,
                from,
                *flags,
                i,
                j,
            ) by {
                if pos < done {
                    if j < pos {
                        assert(in_order(start, start_from, *flags, i, j));
                    } else if j == pos {
                    } else if i < pos {
                        assert(in_order(start, start_from, *flags, i, j - 1));
                    } else if i == pos {
                    } else {
                        assert(in_order(start, start_from, *flags, i - 1, j - 1));
                    }
                } else {
                    if j < done {
                        assert(in_order(start, start_from, *flags, i, j));
                    }
                }
            }
            assert forall|i: int, j: int| 0 <= i < j < from.len() implies #[trigger] from[i]
                != #[trigger] from[j] by {
                if pos < done {
                    let was = |at: int|
                        if at < pos {
                            at
                        } else if at == pos {
                            done as int
                        } else if at <= done {
                            at - 1
                        } else {
                            at
                        };
                    assert(from[i] == start_from[was(i)]);
                    assert(from[j] == start_from[was(j)]);
                    assert(was(i) != was(j));
                    if was(i) < was(j) {
                        assert(start_from[was(i)] != start_from[was(j)]);
                    } else {
                        assert(start_from[was(j)] != start_from[was(i)]);
                    }
                }
            }
        }
        done = done + 1;
    }
    proof {
        assert(is_stable_sort(before, items@, from, *flags));
        assert forall|i: int, j: int| 0 <= i < j < items@.len() implies !precedes(
            #[trigger] items@[j]@,
            #[trigger] items@[i]@,
            *flags,
        ) by {
            assert(in_order(items@, from, *flags, i, j));
        }
    }
}

} // verus!
