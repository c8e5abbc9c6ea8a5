//! One entry of a listing: what is known of a path once its metadata has
//! been read, and how that is worked into the fields that the listing shows.

use std::collections::HashMap;
use vstd::prelude::*;
use vstd::string::StringExecFns;
use crate::clock::{epoch, in_calendar, is_shown_time, modified_text, Timestamp};
use crate::color::is_color_text;
use crate::text::{decimal, push_decimal, push_signed_decimal, signed_decimal};
use crate::icons::{choose_icon, chosen_icon, icon_for, lemma_fixed_colors_parse};
use crate::ident::{name_of, names_of, shown_name};
use crate::size::{get_human_readable, human_readable};

verus! {

/// The error for a path whose own metadata could not be read.
pub const ERR_LINK_METADATA: &'static str = "Failed to get syn metadata";

/// The error for a path whose target's metadata could not be read.
pub const ERR_TARGET_METADATA: &'static str = "Failed to get abs metadata";

/// The error for a path without a final component that is valid text.
pub const ERR_FILE_NAME: &'static str = "Failed to parse filename";

/// The start of the warning for a modification time outside the calendar.
pub const WARN_TIME_LEAD: &'static str = "ERROR: Failed to read modified time for item: ";

/// The words between the seconds and the nanoseconds in that warning.
pub const WARN_TIME_AND: &'static str = " seconds and ";

/// The end of that warning.
pub const WARN_TIME_TAIL: &'static str = " nanoseconds lie outside the calendar";

/// The switches of a listing.
#[derive(Debug, Clone, Copy, PartialEq, Eq, Structural)]
pub struct ListingFlags {
    /// Entries whose name starts with a dot are listed too.
    pub show_all: bool,
    /// The detailed listing is wanted, not the simple one.
    pub show_details: bool,
    /// The order is reversed.
    pub reverse_sort: bool,
    /// Entries are ordered by modification time, not by name.
    pub sort_by_time: bool,
    /// Sizes are shown in units, not as byte counts.
    pub human_readable: bool,
}

impl ListingFlags {
    /// Every switch off.
    pub fn new() -> (flags: ListingFlags)
        ensures
            flags == (ListingFlags {
                show_all: false,
                show_details: false,
                reverse_sort: false,
                sort_by_time: false,
                human_readable: false,
            }),
    {
        ListingFlags {
            show_all: false,
            show_details: false,
            reverse_sort: false,
            sort_by_time: false,
            human_readable: false,
        }
    }
}

/// What a run of the lister works with: the names of users and groups by
/// id, and the switches.
pub struct Context {
    pub uid_map: HashMap<u32, String>,
    pub gid_map: HashMap<u32, String>,
    pub flags: ListingFlags,
}

impl Context {
    /// No names known, every switch off.
    pub fn new() -> (ctx: Context)
        ensures
            ctx.uid_map@ == Map::<u32, String>::empty(),
            ctx.gid_map@ == Map::<u32, String>::empty(),
            ctx.flags == (ListingFlags {
                show_all: false,
                show_details: false,
                reverse_sort: false,
                sort_by_time: false,
                human_readable: false,
            }),
    {
        Context { uid_map: HashMap::new(), gid_map: HashMap::new(), flags: ListingFlags::new() }
    }
}

/// The kind of an entry.
#[derive(Debug, Clone, Copy, PartialEq, Eq, Structural)]
pub enum EntryType {
    Regular,
    Directory,
    Symlink,
    CharDevice,
    BlockDevice,
    Other,
}

/// The metadata of one file, as plain values.
#[derive(Debug, Clone, Copy)]
pub struct FileStat {
    pub is_dir: bool,
    pub is_file: bool,
    pub is_symlink: bool,
    pub is_char_device: bool,
    pub is_block_device: bool,
    pub uid: u32,
    pub gid: u32,
    pub mode: u32,
    pub nlink: u64,
    pub len: u64,
    /// The modification time, `None` where it could not be read.
    pub modified: Option<Timestamp>,
}

/// What reading a path gave.
pub struct PathProbe {
    /// The metadata of the path itself, a symbolic link not followed.
    pub link: Option<FileStat>,
    /// The metadata of what the path leads to, symbolic links followed.
    pub target: Option<FileStat>,
    /// The final component of the path, where it has one that is valid text.
    pub file_name: Option<String>,
    /// The path that a symbolic link holds, where it could be read.
    pub link_target: Option<String>,
}

/// One entry, ready to be listed.
#[derive(Debug)]
pub struct FileItem {
    pub filename: String,
    pub entry_type: EntryType,
    pub symlink_path: String,
    pub filesize: u64,
    pub human_readable_size: String,
    pub links: u64,
    pub uid: u32,
    pub gid: u32,
    pub user: String,
    pub group: String,
    pub color: String,
    pub icon: char,
    /// The colour of what a symbolic link leads to; the entry's own colour
    /// for every other kind.
    pub target_color: String,
    /// The glyph of what a symbolic link leads to; the entry's own glyph for
    /// every other kind.
    pub target_icon: char,
    pub modified: String,
    pub last_modified: Timestamp,
    pub mode: u32,
}

/// A `FileItem` with its texts as sequences of characters.
pub struct ItemView {
    pub filename: Seq<char>,
    pub entry_type: EntryType,
    pub symlink_path: Seq<char>,
    pub filesize: u64,
    pub human_readable_size: Seq<char>,
    pub links: u64,
    pub uid: u32,
    pub gid: u32,
    pub user: Seq<char>,
    pub group: Seq<char>,
    pub color: Seq<char>,
    pub icon: char,
    pub target_color: Seq<char>,
    pub target_icon: char,
    pub modified: Seq<char>,
    pub last_modified: Timestamp,
    pub mode: u32,
}

impl View for FileItem {
    type V = ItemView;

    open spec fn view(&self) -> ItemView {
        ItemView {
            filename: self.filename@,
            entry_type: self.entry_type,
            symlink_path: self.symlink_path@,
            filesize: self.filesize,
            human_readable_size: self.human_readable_size@,
            links: self.links,
            uid: self.uid,
            gid: self.gid,
            user: self.user@,
            group: self.group@,
            color: self.color@,
            icon: self.icon,
            target_color: self.target_color@,
            target_icon: self.target_icon,
            modified: self.modified@,
            last_modified: self.last_modified,
            mode: self.mode,
        }
    }
}

/// The kind of an entry, from the metadata of the path itself and of what it
/// leads to. A directory is told first, then a symbolic link, then a
/// character device by the target's metadata, then a block device.
pub open spec fn entry_type_of(link: FileStat, target: FileStat) -> EntryType {
    if link.is_dir {
        EntryType::Directory
    } else if link.is_symlink {
        EntryType::Symlink
    } else if target.is_char_device {
        EntryType::CharDevice
    } else if link.is_block_device {
        EntryType::BlockDevice
    } else if link.is_file {
        EntryType::Regular
    } else {
        EntryType::Other
    }
}

/// The character that starts the row of an entry in the detailed listing.
pub open spec fn type_mark(kind: EntryType) -> char {
    match kind {
        EntryType::Directory => 'd',
        EntryType::Symlink => 'l',
        EntryType::CharDevice => 'c',
        EntryType::BlockDevice => 'b',
        EntryType::Regular => '-',
        EntryType::Other => '-',
    }
}

/// The text of an optional text, empty where there is none.
pub open spec fn text_or_empty(text: Option<String>) -> Seq<char> {
    match text {
        Some(text) => text@,
        None => Seq::empty(),
    }
}

/// The time of an optional time, the start of 1970 where there is none.
pub open spec fn time_or_epoch(time: Option<Timestamp>) -> Timestamp {
    match time {
        Some(time) => time,
        None => epoch(),
    }
}

/// The time by which an entry is listed: its modification time, or the
/// start of 1970 where that could not be read or lies outside the calendar.
pub open spec fn listed_time(link: FileStat) -> Timestamp {
    let read = time_or_epoch(link.modified);
    if in_calendar(read.secs, read.nanos) {
        read
    } else {
        epoch()
    }
}

/// The warning that the metadata of a path calls for: where a modification
/// time was read that lies outside the calendar, so that the start of 1970 is
/// listed in its place, the words that say so. A time that could not be read
/// at all has no warning here: who failed to read it knows why.
pub open spec fn time_warning_text(link: FileStat) -> Option<Seq<char>> {
    match link.modified {
        Some(read) => if in_calendar(read.secs, read.nanos) {
            None
        } else {
            Some(
                WARN_TIME_LEAD@ + signed_decimal(read.secs as int) + WARN_TIME_AND@ + decimal(
                    read.nanos as nat,
                ) + WARN_TIME_TAIL@,
            )
        },
        None => None,
    }
}

/// The size of an entry: nothing for a directory, and the length in the
/// path's own metadata for every other kind.
pub open spec fn listed_size(link: FileStat, target: FileStat) -> u64 {
    if entry_type_of(link, target) == EntryType::Directory {
        0
    } else {
        link.len
    }
}

/// The entry for a path named `name` with the metadata `link` and `target`,
/// given the names of users and groups, what the icon tables say of the path
/// and of the path that a link holds, and the text for the listed time.
pub open spec fn item_of(
    name: Seq<char>,
    link: FileStat,
    target: FileStat,
    link_target: Seq<char>,
    users: Map<u32, Seq<char>>,
    groups: Map<u32, Seq<char>>,
    classified: (char, Seq<char>),
    target_classified: (char, Seq<char>),
    modified: Seq<char>,
) -> ItemView {
    let kind = entry_type_of(link, target);
    let own = chosen_icon(target.is_dir, classified);
    let led_to = if kind == EntryType::Symlink {
        chosen_icon(target.is_dir, target_classified)
    } else {
        own
    };
    ItemView {
        filename: name,
        entry_type: kind,
        symlink_path: if kind == EntryType::Symlink {
            link_target
        } else {
            Seq::empty()
        },
        filesize: listed_size(link, target),
        human_readable_size: human_readable(listed_size(link, target) as nat),
        links: link.nlink,
        uid: link.uid,
        gid: link.gid,
        user: shown_name(users, link.uid),
        group: shown_name(groups, link.gid),
        color: own.1,
        icon: own.0,
        target_color: led_to.1,
        target_icon: led_to.0,
        modified: modified,
        last_modified: listed_time(link),
        mode: link.mode,
    }
}

/// Whether `result` is the failure with this message.
pub open spec fn fails_with(result: Result<FileItem, String>, message: &str) -> bool {
    match result {
        Ok(_) => false,
        Err(text) => text@ == message@,
    }
}

/// Tells the kind of an entry from its metadata.
pub fn classify(link: &FileStat, target: &FileStat) -> (kind: EntryType)
    ensures
        kind == entry_type_of(*link, *target),
{
    if link.is_dir {
        EntryType::Directory
    } else if link.is_symlink {
        EntryType::Symlink
    } else if target.is_char_device {
        EntryType::CharDevice
    } else if link.is_block_device {
        EntryType::BlockDevice
    } else if link.is_file {
        EntryType::Regular
    } else {
        EntryType::Other
    }
}

/// The character that starts the row of an entry of this kind.
pub fn type_char(kind: EntryType) -> (mark: char)
    ensures
        mark == type_mark(kind),
{
    match kind {
        EntryType::Directory => 'd',
        EntryType::Symlink => 'l',
        EntryType::CharDevice => 'c',
        EntryType::BlockDevice => 'b',
        EntryType::Regular => '-',
        EntryType::Other => '-',
    }
}

/// The time by which the entry is listed: the modification time of `link`,
/// or the start of 1970 where it could not be read or lies outside the
/// calendar.
pub fn last_modified_of(link: &FileStat) -> (time: Timestamp)
    ensures
        time == listed_time(*link),
        in_calendar(time.secs, time.nanos),
{
    let read = match link.modified {
        Some(time) => time,
        None => Timestamp::epoch(),
    };
    if read.representable() {
        read
    } else {
        Timestamp::epoch()
    }
}

/// The warning that goes with `last_modified_of`: where the time that was
/// read lies outside the calendar, the words that say so.
pub fn time_warning(link: &FileStat) -> (warning: Option<String>)
    ensures
        match time_warning_text(*link) {
            Some(words) => warning matches Some(got) && got@ == words,
            None => warning is None,
        },
{
    match link.modified {
        Some(read) => if read.representable() {
            None
        } else {
            let mut words = String::from_str(WARN_TIME_LEAD);
            push_signed_decimal(&mut words, read.secs);
            words.append(WARN_TIME_AND);
            push_decimal(&mut words, read.nanos as u64);
            words.append(WARN_TIME_TAIL);
            Some(words)
        },
        None => None,
    }
}

/// Builds the entry for a path from what was read of it, from what the icon
/// tables gave for the path and for the path that a link holds, and from the
/// text that the calendar gave for the listed time.
pub fn build_file_item(
    name: String,
    link: &FileStat,
    target: &FileStat,
    link_target: &Option<String>,
    ctx: &Context,
    classified: (char, String),
    target_classified: (char, String),
    modified: String,
) -> (item: FileItem)
    ensures
        item@ == item_of(
            name@,
            *link,
            *target,
            text_or_empty(*link_target),
            names_of(ctx.uid_map@),
            names_of(ctx.gid_map@),
            (classified.0, classified.1@),
            (target_classified.0, target_classified.1@),
            modified@,
        ),
{
    let kind = classify(link, target);
    let symlink_path = match (kind, link_target) {
        (EntryType::Symlink, Some(path)) => path.clone(),
        _ => String::new(),
    };
    let filesize: u64 = match kind {
        EntryType::Directory => 0,
        _ => link.len,
    };
    let (icon, color) = choose_icon(target.is_dir, classified);
    let (target_icon, target_color) = match kind {
        EntryType::Symlink => choose_icon(target.is_dir, target_classified),
        _ => (icon, color.clone()),
    };
    FileItem {
        filename: name,
        entry_type: kind,
        symlink_path,
        filesize,
        human_readable_size: get_human_readable(filesize),
        links: link.nlink,
        uid: link.uid,
        gid: link.gid,
        user: name_of(&ctx.uid_map, link.uid),
        group: name_of(&ctx.gid_map, link.gid),
        color,
        icon,
        target_color,
        target_icon,
        modified,
        last_modified: last_modified_of(link),
        mode: link.mode,
    }
}

/// Whether what was read of a path is enough for an entry: the metadata of
/// the path itself, that of its target, and a file name that is not empty.
pub open spec fn is_complete(probe: PathProbe) -> bool {
    &&& probe.link is Some
    &&& probe.target is Some
    &&& probe.file_name is Some
    &&& probe.file_name->0@.len() > 0
}

/// Works what was read of `path` into an entry.
///
/// There is no entry without the metadata of the path itself, without the
/// metadata of its target, or without a file name; these are found in this
/// order. Everything else gives an entry, which is as `item_of` says, with
/// the glyphs and colours that the icon tables give for `path` and for the
/// path that a link holds, and with the text that the calendar gives for the
/// listed time. Both colours are colour strings that parse, and the text is
/// that of the listed time in some time zone, seen from some year: which
/// zone and which year, the machine says.
pub fn parse_file_entry(path: &str, probe: &PathProbe, ctx: &Context) -> (result: Result<
    FileItem,
    String,
>)
    ensures
        result is Ok <==> is_complete(*probe),
        probe.link is None ==> fails_with(result, ERR_LINK_METADATA),
        probe.link is Some && probe.target is None ==> fails_with(result, ERR_TARGET_METADATA),
        probe.link is Some && probe.target is Some && !is_complete(*probe) ==> fails_with(
            result,
            ERR_FILE_NAME,
        ),
        match result {
            Ok(item) => item@ == item_of(
                probe.file_name->0@,
                probe.link->0,
                probe.target->0,
                text_or_empty(probe.link_target),
                names_of(ctx.uid_map@),
                names_of(ctx.gid_map@),
                (item.icon, item.color@),
                (item.target_icon, item.target_color@),
                item.modified@,
            ) && item.filename@.len() > 0 && is_color_text(item.color@) && is_color_text(
                item.target_color@,
            ) && is_shown_time(item.modified@, listed_time(probe.link->0)),
            Err(_) => true,
        },
{
    proof {
        lemma_fixed_colors_parse();
    }
    let link = match &probe.link {
        Some(stat) => stat,
        None => return Err(String::from_str(ERR_LINK_METADATA)),
    };
    let target = match &probe.target {
        Some(stat) => stat,
        None => return Err(String::from_str(ERR_TARGET_METADATA)),
    };
    let name = match &probe.file_name {
        Some(name) => name.clone(),
        None => return Err(String::from_str(ERR_FILE_NAME)),
    };
    if name.as_str().is_empty() {
        return Err(String::from_str(ERR_FILE_NAME));
    }
    let classified = icon_for(path, target.is_dir);
    let target_classified = match (classify(link, target), &probe.link_target) {
        (EntryType::Symlink, Some(held)) => icon_for(held.as_str(), target.is_dir),
        _ => (classified.0, classified.1.clone()),
    };
    let modified = match modified_text(last_modified_of(link)) {
        Some(text) => text,
        None => String::new(),
    };
    Ok(build_file_item(name, link, target, &probe.link_target, ctx, classified, target_classified, modified))
}

} // verus!
