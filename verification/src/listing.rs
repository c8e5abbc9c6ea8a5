//! The two listings: the simple one, a coloured glyph and the name for each
//! entry, and the detailed one, a row of aligned columns for each entry.
//! Both leave out the entries whose name starts with a dot unless all are
//! asked for; the columns are as wide as the widest entry that is shown.

use vstd::prelude::*;
use vstd::string::StringExecFns;
use vstd::string::StringSliceAdditionalSpecFns;
use vstd::utf8::{encode_utf8, is_ascii_chars, is_ascii_chars_encode_utf8};
use crate::color::{
    color_reset, color_warning, color_warning_text, display_color, escape_of, start_color,
    stop_color,
};
use crate::entry::{type_char, type_mark, EntryType, FileItem, ItemView, ListingFlags};
use crate::icons::SYMLINK_COLOR;
use crate::order::{is_sorted, is_stable_sort, sort_items};
use crate::permissions::{parse_mode, permission_text};
use crate::text::{
    decimal, get_num_width, lemma_decimal_shape, push_char, push_decimal, push_right_aligned,
    right_aligned, texts,
};

verus! {

/// The widths of the four aligned columns of the detailed listing.
#[derive(Debug, Clone, Copy, PartialEq, Eq, Structural)]
pub struct Widths {
    pub links: usize,
    pub user: usize,
    pub group: usize,
    pub size: usize,
}

/// The entries of `items` as views.
pub open spec fn views(items: Seq<FileItem>) -> Seq<ItemView> {
    items.map_values(|item: FileItem| item@)
}

/// Whether a name marks a hidden entry: it starts with a dot.
pub open spec fn is_hidden(name: Seq<char>) -> bool {
    name.len() > 0 && name[0] == '.'
}

/// Whether an entry is listed: every entry where all are asked for, and
/// otherwise those that are not hidden.
pub open spec fn is_shown(item: ItemView, flags: ListingFlags) -> bool {
    flags.show_all || !is_hidden(item.filename)
}

/// A glyph, a space and a label, between the escape sequence of the colour
/// written in `color` and the reset sequence.
pub open spec fn painted(color: Seq<char>, icon: char, label: Seq<char>) -> Seq<char> {
    escape_of(display_color(encode_utf8(color))) + seq![icon, ' '] + label + color_reset()
}

/// The line of an entry in the simple listing.
pub open spec fn simple_row(item: ItemView) -> Seq<char> {
    painted(item.color, item.icon, item.filename)
}

/// The simple listing: the lines of the shown entries, in the order of
/// `items`.
pub open spec fn simple_rows(items: Seq<ItemView>, flags: ListingFlags) -> Seq<Seq<char>>
    decreases items.len(),
{
    if items.len() == 0 {
        Seq::empty()
    } else {
        let above = simple_rows(items.drop_last(), flags);
        if is_shown(items.last(), flags) {
            above.push(simple_row(items.last()))
        } else {
            above
        }
    }
}

/// The text of the size column for an entry: the size in units where that is
/// asked for, the byte count otherwise.
pub open spec fn size_text(item: ItemView, flags: ListingFlags) -> Seq<char> {
    if flags.human_readable {
        item.human_readable_size
    } else {
        decimal(item.filesize as nat)
    }
}

/// The larger of two widths.
pub open spec fn wider(a: usize, b: nat) -> usize {
    if b > a {
        b as usize
    } else {
        a
    }
}

/// `widths` made wide enough for one more entry. The widths of the texts are
/// counted in bytes.
pub open spec fn widened(widths: Widths, item: ItemView, flags: ListingFlags) -> Widths {
    Widths {
        links: wider(widths.links, decimal(item.links as nat).len()),
        user: wider(widths.user, encode_utf8(item.user).len()),
        group: wider(widths.group, encode_utf8(item.group).len()),
        size: wider(widths.size, encode_utf8(size_text(item, flags)).len()),
    }
}

/// The widths for a listing of `items`: each column as wide as its widest
/// text among the shown entries, and zero where none is shown.
pub open spec fn column_widths(items: Seq<ItemView>, flags: ListingFlags) -> Widths
    decreases items.len(),
{
    if items.len() == 0 {
        Widths { links: 0, user: 0, group: 0, size: 0 }
    } else {
        let above = column_widths(items.drop_last(), flags);
        if is_shown(items.last(), flags) {
            widened(above, items.last(), flags)
        } else {
            above
        }
    }
}

/// The end of a detailed row: the painted name, and for a symbolic link an
/// arrow and the path that the link holds, painted with the glyph and in the
/// colour of what the link leads to.
pub open spec fn name_cell(item: ItemView) -> Seq<char> {
    if item.entry_type == EntryType::Symlink {
        painted(SYMLINK_COLOR@, item.icon, item.filename) + seq![' ', '-', '>', ' '] + painted(
            item.target_color,
            item.target_icon,
            item.symlink_path,
        )
    } else {
        painted(item.color, item.icon, item.filename)
    }
}

/// The row of an entry in the detailed listing: kind and permissions, then
/// links, owner, group and size, each right-aligned in its column, then the
/// modification time and the name. One space follows each column.
pub open spec fn detailed_row(item: ItemView, widths: Widths, flags: ListingFlags) -> Seq<char> {
    seq![type_mark(item.entry_type)] + permission_text(item.mode) + seq![' '] + right_aligned(
        decimal(item.links as nat),
        widths.links as nat,
    ) + seq![' '] + right_aligned(item.user, widths.user as nat) + seq![' '] + right_aligned(
        item.group,
        widths.group as nat,
    ) + seq![' '] + right_aligned(size_text(item, flags), widths.size as nat) + seq![' ']
        + item.modified + seq![' '] + name_cell(item)
}

/// The rows of the shown entries of `items`, in their order, laid out with
/// the given widths.
pub open spec fn rows_with(items: Seq<ItemView>, widths: Widths, flags: ListingFlags) -> Seq<Seq<char>>
    decreases items.len(),
{
    if items.len() == 0 {
        Seq::empty()
    } else {
        let above = rows_with(items.drop_last(), widths, flags);
        if is_shown(items.last(), flags) {
            above.push(detailed_row(items.last(), widths, flags))
        } else {
            above
        }
    }
}

/// The detailed listing: the rows of the shown entries, laid out with the
/// widths that these entries need.
pub open spec fn detailed_rows(items: Seq<ItemView>, flags: ListingFlags) -> Seq<Seq<char>> {
    rows_with(items, column_widths(items, flags), flags)
}

/// The colour string by which an entry is painted beside the fixed ones: in
/// the detailed listing of a symbolic link that of what the link leads to,
/// and the entry's own everywhere else.
pub open spec fn color_in_use(item: ItemView, flags: ListingFlags) -> Seq<char> {
    if flags.show_details && item.entry_type == EntryType::Symlink {
        item.target_color
    } else {
        item.color
    }
}

/// The warnings that a listing of `items` calls for: one for each shown
/// entry whose colour string is malformed, in the order of the entries.
pub open spec fn color_warnings_of(items: Seq<ItemView>, flags: ListingFlags) -> Seq<Seq<char>>
    decreases items.len(),
{
    if items.len() == 0 {
        Seq::empty()
    } else {
        let above = color_warnings_of(items.drop_last(), flags);
        if is_shown(items.last(), flags) {
            match color_warning_text(color_in_use(items.last(), flags)) {
                Some(words) => above.push(words),
                None => above,
            }
        } else {
            above
        }
    }
}

/// The lines that stand before the listing of one of several paths: the
/// path and a colon, and before that an empty line for every path but the
/// first. A single path has no heading.
pub open spec fn heading(path: Seq<char>, position: nat, total: nat) -> Seq<Seq<char>> {
    if total <= 1 {
        Seq::empty()
    } else if position == 0 {
        seq![path.push(':')]
    } else {
        seq![Seq::empty(), path.push(':')]
    }
}

/// The views of the first `at + 1` entries are the views of the first `at`
/// and one more, that of the entry at `at`.
proof fn lemma_one_more(items: Seq<FileItem>, at: int)
    requires
        0 <= at < items.len(),
    ensures
        views(items.take(at + 1)).len() == at + 1,
        views(items.take(at + 1)).drop_last() == views(items.take(at)),
        views(items.take(at + 1)).last() == items[at]@,
{
    assert(views(items.take(at + 1)).drop_last() =~= views(items.take(at)));
}

/// Whether the entry is listed under these flags.
pub fn shown(item: &FileItem, flags: &ListingFlags) -> (listed: bool)
    ensures
        listed == is_shown(item@, *flags),
{
    if flags.show_all {
        true
    } else {
        let name = item.filename.as_str();
        name.is_empty() || name.get_char(0) != '.'
    }
}

fn push_painted(line: &mut String, color: &str, icon: char, label: &str)
    ensures
        final(line)@ == old(line)@ + painted(color@, icon, label@),
{
    let lead = start_color(color);
    line.append(lead.as_str());
    push_char(line, icon);
    push_char(line, ' ');
    line.append(label);
    line.append(stop_color());
    assert(line@ =~= old(line)@ + painted(color@, icon, label@));
}

/// The line of an entry in the simple listing.
pub fn simple_line(item: &FileItem) -> (line: String)
    ensures
        line@ == simple_row(item@),
{
    let mut line = String::new();
    push_painted(&mut line, item.color.as_str(), item.icon, item.filename.as_str());
    assert(line@ =~= simple_row(item@));
    line
}

/// The simple listing of `items`: one line for each shown entry, in order.
pub fn simple_listing(items: &Vec<FileItem>, flags: &ListingFlags) -> (lines: Vec<String>)
    ensures
        texts(lines@) == simple_rows(views(items@), *flags),
{
    let mut lines: Vec<String> = Vec::new();
    let mut at: usize = 0;
    assert(views(items@.take(0)) =~= Seq::<ItemView>::empty());
    assert(texts(lines@) =~= Seq::<Seq<char>>::empty());
    while at < items.len()
        invariant
            at <= items.len(),
            texts(lines@) == simple_rows(views(items@.take(at as int)), *flags),
        decreases items.len() - at,
    {
        proof {
            lemma_one_more(items@, at as int);
        }
        if shown(&items[at], flags) {
            let ghost had = texts(lines@);
            let line = simple_line(&items[at]);
            lines.push(line);
            assert(texts(lines@) =~= had.push(line@));
        }
        at = at + 1;
    }
    assert(items@.take(items.len() as int) =~= items@);
    lines
}

fn widen(widths: &Widths, item: &FileItem, flags: &ListingFlags) -> (out: Widths)
    ensures
        out == widened(*widths, item@, *flags),
{
    let links: usize = get_num_width(item.links);
    let user: usize = item.user.as_str().as_bytes().len();
    let group: usize = item.group.as_str().as_bytes().len();
    let size: usize = if flags.human_readable {
        item.human_readable_size.as_str().as_bytes().len()
    } else {
        proof {
            lemma_digits_are_bytes(item.filesize as nat);
        }
        get_num_width(item.filesize)
    };
    Widths {
        links: if links > widths.links {
            links
        } else {
            widths.links
        },
        user: if user > widths.user {
            user
        } else {
            widths.user
        },
        group: if group > widths.group {
            group
        } else {
            widths.group
        },
        size: if size > widths.size {
            size
        } else {
            widths.size
        },
    }
}

/// A numeral takes one byte for each of its characters.
pub proof fn lemma_digits_are_bytes(n: nat)
    ensures
        encode_utf8(decimal(n)).len() == decimal(n).len(),
{
    lemma_decimal_shape(n);
    assert(is_ascii_chars(decimal(n)));
    is_ascii_chars_encode_utf8(decimal(n));
}

/// The widths that the detailed listing of `items` needs.
pub fn measure(items: &Vec<FileItem>, flags: &ListingFlags) -> (widths: Widths)
    ensures
        widths == column_widths(views(items@), *flags),
{
    let mut widths = Widths { links: 0, user: 0, group: 0, size: 0 };
    let mut at: usize = 0;
    assert(views(items@.take(0)) =~= Seq::<ItemView>::empty());
    while at < items.len()
        invariant
            at <= items.len(),
            widths == column_widths(views(items@.take(at as int)), *flags),
        decreases items.len() - at,
    {
        proof {
            lemma_one_more(items@, at as int);
        }
        if shown(&items[at], flags) {
            widths = widen(&widths, &items[at], flags);
        }
        at = at + 1;
    }
    assert(items@.take(items.len() as int) =~= items@);
    widths
}

/// The row of an entry in the detailed listing, laid out with `widths`.
pub fn detailed_line(item: &FileItem, widths: &Widths, flags: &ListingFlags) -> (line: String)
    ensures
        line@ == detailed_row(item@, *widths, *flags),
{
    let mut line = String::new();
    push_char(&mut line, type_char(item.entry_type));
    let perms = parse_mode(item.mode);
    line.append(perms.as_str());
    push_char(&mut line, ' ');
    let mut links = String::new();
    push_decimal(&mut links, item.links);
    push_right_aligned(&mut line, links.as_str(), widths.links);
    push_char(&mut line, ' ');
    push_right_aligned(&mut line, item.user.as_str(), widths.user);
    push_char(&mut line, ' ');
    push_right_aligned(&mut line, item.group.as_str(), widths.group);
    push_char(&mut line, ' ');
    if flags.human_readable {
        push_right_aligned(&mut line, item.human_readable_size.as_str(), widths.size);
    } else {
        let mut size = String::new();
        push_decimal(&mut size, item.filesize);
        push_right_aligned(&mut line, size.as_str(), widths.size);
    }
    push_char(&mut line, ' ');
    line.append(item.modified.as_str());
    push_char(&mut line, ' ');
    match item.entry_type {
        EntryType::Symlink => {
            push_painted(&mut line, SYMLINK_COLOR, item.icon, item.filename.as_str());
            proof {
                reveal_strlit(" -> ");
            }
            assert(" -> "@ =~= seq![' ', '-', '>', ' ']);
            line.append(" -> ");
            push_painted(
                &mut line,
                item.target_color.as_str(),
                item.target_icon,
                item.symlink_path.as_str(),
            );
        },
        _ => {
            push_painted(&mut line, item.color.as_str(), item.icon, item.filename.as_str());
        },
    }
    assert(line@ =~= detailed_row(item@, *widths, *flags));
    line
}

/// The detailed listing of `items`: one row for each shown entry, in order,
/// the columns as wide as the widest shown entry needs.
pub fn detailed_listing(items: &Vec<FileItem>, flags: &ListingFlags) -> (lines: Vec<String>)
    ensures
        texts(lines@) == detailed_rows(views(items@), *flags),
{
    let widths = measure(items, flags);
    let mut lines: Vec<String> = Vec::new();
    let mut at: usize = 0;
    assert(views(items@.take(0)) =~= Seq::<ItemView>::empty());
    assert(texts(lines@) =~= Seq::<Seq<char>>::empty());
    while at < items.len()
        invariant
            at <= items.len(),
            texts(lines@) == rows_with(views(items@.take(at as int)), widths, *flags),
        decreases items.len() - at,
    {
        proof {
            lemma_one_more(items@, at as int);
        }
        if shown(&items[at], flags) {
            let ghost had = texts(lines@);
            let line = detailed_line(&items[at], &widths, flags);
            lines.push(line);
            assert(texts(lines@) =~= had.push(line@));
        }
        at = at + 1;
    }
    assert(items@.take(items.len() as int) =~= items@);
    lines
}

/// The warnings that go with a listing of `items`: one for each shown entry
/// that is painted white because its colour string is malformed.
pub fn color_warnings(items: &Vec<FileItem>, flags: &ListingFlags) -> (warnings: Vec<String>)
    ensures
        texts(warnings@) == color_warnings_of(views(items@), *flags),
{
    let mut warnings: Vec<String> = Vec::new();
    let mut at: usize = 0;
    assert(views(items@.take(0)) =~= Seq::<ItemView>::empty());
    assert(texts(warnings@) =~= Seq::<Seq<char>>::empty());
    while at < items.len()
        invariant
            at <= items.len(),
            texts(warnings@) == color_warnings_of(views(items@.take(at as int)), *flags),
        decreases items.len() - at,
    {
        proof {
            lemma_one_more(items@, at as int);
        }
        if shown(&items[at], flags) {
            let ghost had = texts(warnings@);
            let item = &items[at];
            let found = match (flags.show_details, item.entry_type) {
                (true, EntryType::Symlink) => color_warning(item.target_color.as_str()),
                _ => color_warning(item.color.as_str()),
            };
            match found {
                Some(words) => {
                    warnings.push(words);
                    assert(texts(warnings@) =~= had.push(words@));
                },
                None => {},
            }
        }
        at = at + 1;
    }
    assert(items@.take(items.len() as int) =~= items@);
    warnings
}

/// The lines that stand before the listing of the path at `position` among
/// `total` paths.
pub fn path_heading(path: &str, position: usize, total: usize) -> (lines: Vec<String>)
    ensures
        texts(lines@) == heading(path@, position as nat, total as nat),
{
    let mut lines: Vec<String> = Vec::new();
    if total > 1 {
        if position > 0 {
            lines.push(String::new());
        }
        let mut title = String::from_str(path);
        push_char(&mut title, ':');
        lines.push(title);
    }
    assert(texts(lines@) =~= heading(path@, position as nat, total as nat));
    lines
}

/// Puts `items` in the order that the flags ask for and lists them, in
/// detail or simply as the flags say.
pub fn list_items(items: &mut Vec<FileItem>, flags: &ListingFlags) -> (lines: Vec<String>)
    ensures
        exists|from: Seq<int>| is_stable_sort(old(items)@, final(items)@, from, *flags),
        is_sorted(final(items)@, *flags),
        texts(lines@) == if flags.show_details {
            detailed_rows(views(final(items)@), *flags)
        } else {
            simple_rows(views(final(items)@), *flags)
        },
{
    sort_items(items, flags);
    if flags.show_details {
        detailed_listing(items, flags)
    } else {
        simple_listing(items, flags)
    }
}

} // verus!
