use myls::clock::Timestamp;
use myls::entry::{build_file_item, Context, EntryType, FileItem, FileStat, ListingFlags};
use myls::ident::map_ids;
use myls::listing::{
    color_warnings, detailed_line, detailed_listing, list_items, measure, path_heading, shown,
    simple_line, simple_listing, Widths,
};

const WHITE: &str = "\x1B[38;2;255;255;255m";
const STOP: &str = "\x1B[0m";

fn named(name: &str) -> FileItem {
    FileItem {
        filename: name.to_string(),
        entry_type: EntryType::Regular,
        symlink_path: String::new(),
        filesize: 10,
        human_readable_size: "10".to_string(),
        links: 1,
        uid: 0,
        gid: 0,
        user: "root".to_string(),
        group: "wheel".to_string(),
        color: "#ffffff".to_string(),
        icon: '*',
        target_color: "#ffffff".to_string(),
        target_icon: '*',
        modified: "Jan  1  2020".to_string(),
        last_modified: Timestamp { secs: 0, nanos: 0 },
        mode: 0o100644,
    }
}

fn all() -> ListingFlags {
    ListingFlags { show_all: true, ..ListingFlags::new() }
}

#[test]
fn hidden_entries() {
    let flags = ListingFlags::new();
    assert!(shown(&named("a.txt"), &flags));
    assert!(!shown(&named(".git"), &flags));
    assert!(!shown(&named("."), &flags));
    assert!(!shown(&named(".."), &flags));
    assert!(shown(&named(""), &flags));
    assert!(shown(&named("a.b"), &flags));
    assert!(shown(&named("\u{e9}.txt"), &flags));
    assert!(shown(&named(".git"), &all()));
}

#[test]
fn a_simple_line() {
    let mut item = named("a.txt");
    item.color = "#324a20".to_string();
    item.icon = '\u{f15c}';
    assert_eq!(simple_line(&item), "\x1B[38;2;50;74;32m\u{f15c} a.txt\x1B[0m");
    item.color = "nothing".to_string();
    assert_eq!(simple_line(&item), format!("{WHITE}\u{f15c} a.txt{STOP}"));
}

#[test]
fn the_simple_listing_leaves_hidden_entries_out() {
    let items = vec![named(".git"), named("a.txt"), named(".env")];
    let lines = simple_listing(&items, &ListingFlags::new());
    assert_eq!(lines, vec![format!("{WHITE}* a.txt{STOP}")]);
}

#[test]
fn the_simple_listing_of_all_entries() {
    let items = vec![named(".git"), named("a.txt"), named(".env")];
    let lines = simple_listing(&items, &all());
    assert_eq!(
        lines,
        vec![
            format!("{WHITE}* .git{STOP}"),
            format!("{WHITE}* a.txt{STOP}"),
            format!("{WHITE}* .env{STOP}"),
        ]
    );
    assert!(simple_listing(&Vec::new(), &all()).is_empty());
    assert!(simple_listing(&vec![named(".a"), named(".b")], &ListingFlags::new()).is_empty());
}

#[test]
fn widths_of_the_shown_entries() {
    let mut wide = named(".hidden");
    wide.links = 12345;
    wide.user = "a-very-long-name".to_string();
    wide.filesize = 123_456_789;
    let mut plain = named("plain");
    plain.links = 42;
    plain.group = "\u{e9}t\u{e9}".to_string();
    plain.filesize = 1234;
    plain.human_readable_size = "1.2K".to_string();
    let items = vec![wide, plain, named("other")];
    assert_eq!(measure(&items, &ListingFlags::new()), Widths { links: 2, user: 4, group: 5, size: 4 });
    assert_eq!(measure(&items, &all()), Widths { links: 5, user: 16, group: 5, size: 9 });
    let human = ListingFlags { human_readable: true, ..ListingFlags::new() };
    assert_eq!(measure(&items, &human), Widths { links: 2, user: 4, group: 5, size: 4 });
    let human_all = ListingFlags { human_readable: true, show_all: true, ..ListingFlags::new() };
    assert_eq!(measure(&items, &human_all), Widths { links: 5, user: 16, group: 5, size: 4 });
    assert_eq!(measure(&Vec::new(), &all()), Widths { links: 0, user: 0, group: 0, size: 0 });
}

#[test]
fn a_detailed_line() {
    let item = named("a.txt");
    let widths = Widths { links: 3, user: 6, group: 5, size: 7 };
    assert_eq!(
        detailed_line(&item, &widths, &ListingFlags::new()),
        format!("-rw-r--r--   1   root wheel      10 Jan  1  2020 {WHITE}* a.txt{STOP}")
    );
    let narrow = Widths { links: 0, user: 0, group: 0, size: 0 };
    assert_eq!(
        detailed_line(&item, &narrow, &ListingFlags::new()),
        format!("-rw-r--r-- 1 root wheel 10 Jan  1  2020 {WHITE}* a.txt{STOP}")
    );
}

#[test]
fn a_detailed_line_follows_the_formatter_of_the_standard_library() {
    let mut item = named("a.txt");
    item.user = "\u{e9}t\u{e9}".to_string();
    item.links = 7;
    item.filesize = 98765;
    item.human_readable_size = "96.4K".to_string();
    for (w_links, w_user, w_group, w_size) in [(0usize, 0usize, 0usize, 0usize), (1, 3, 5, 5), (4, 5, 9, 12), (2, 4, 6, 4)] {
        let widths = Widths { links: w_links, user: w_user, group: w_group, size: w_size };
        let (links, user, group, size, human) = (item.links, &item.user, &item.group, item.filesize, &item.human_readable_size);
        let tail = format!("Jan  1  2020 {WHITE}* a.txt{STOP}");
        assert_eq!(
            detailed_line(&item, &widths, &ListingFlags::new()),
            format!("-rw-r--r-- {links:>w_links$} {user:>w_user$} {group:>w_group$} {size:>w_size$} {tail}")
        );
        let flags = ListingFlags { human_readable: true, ..ListingFlags::new() };
        assert_eq!(
            detailed_line(&item, &widths, &flags),
            format!("-rw-r--r-- {links:>w_links$} {user:>w_user$} {group:>w_group$} {human:>w_size$} {tail}")
        );
    }
}

#[test]
fn a_detailed_line_for_a_link() {
    let mut item = named("latest");
    item.entry_type = EntryType::Symlink;
    item.mode = 0o120777;
    item.symlink_path = "a.txt".to_string();
    item.color = "#010203".to_string();
    item.target_color = "#324a20".to_string();
    item.target_icon = '\u{f15c}';
    let widths = Widths { links: 1, user: 4, group: 5, size: 2 };
    assert_eq!(
        detailed_line(&item, &widths, &ListingFlags::new()),
        format!("lrwxrwxrwx 1 root wheel 10 Jan  1  2020 \x1B[38;2;9;191;201m* latest{STOP} -> \x1B[38;2;50;74;32m\u{f15c} a.txt{STOP}")
    );
    // in the simple listing a link is painted with its own glyph and colour
    assert_eq!(simple_line(&item), "\x1B[38;2;1;2;3m* latest\x1B[0m");
}

fn stat(len: u64) -> FileStat {
    FileStat {
        is_dir: false,
        is_file: true,
        is_symlink: false,
        is_char_device: false,
        is_block_device: false,
        uid: 1000,
        gid: 100,
        mode: 0o100640,
        nlink: 1,
        len,
        modified: Some(Timestamp { secs: 1_700_000_000, nanos: 0 }),
    }
}

fn one_file_one_directory_one_link() -> Vec<FileItem> {
    let mut ctx = Context::new();
    map_ids("alice:x:1000:1000\n", &mut ctx.uid_map);
    map_ids("users:x:100:\n", &mut ctx.gid_map);
    let file = stat(10);
    let dir = FileStat { is_dir: true, is_file: false, mode: 0o042755, nlink: 12, len: 4096, gid: 7, ..stat(0) };
    let link = FileStat { is_file: false, is_symlink: true, mode: 0o120777, len: 8, ..stat(0) };
    let look = ('\u{f15c}', "#89e051".to_string());
    let link_look = ('\u{f481}', "#7e8ea8".to_string());
    let when = || "Nov 14 22:13".to_string();
    vec![
        build_file_item("file.txt".to_string(), &file, &file, &None, &ctx, look.clone(), look.clone(), when()),
        build_file_item("sub".to_string(), &dir, &dir, &None, &ctx, look.clone(), look.clone(), when()),
        build_file_item(
            "link".to_string(),
            &link,
            &file,
            &Some("file.txt".to_string()),
            &ctx,
            link_look,
            look.clone(),
            when(),
        ),
    ]
}

#[test]
fn one_file_one_directory_one_link_in_detail() {
    let mut items = one_file_one_directory_one_link();
    let flags = ListingFlags { show_details: true, human_readable: true, ..ListingFlags::new() };
    let lines = list_items(&mut items, &flags);
    let green = "\x1B[38;2;137;224;81m";
    let blue = "\x1B[38;2;52;131;235m";
    let cyan = "\x1B[38;2;9;191;201m";
    assert_eq!(
        lines,
        vec![
            format!("-rw-r-----  1 alice users 10 Nov 14 22:13 {green}\u{f15c} file.txt{STOP}"),
            format!("lrwxrwxrwx  1 alice users  8 Nov 14 22:13 {cyan}\u{f481} link{STOP} -> {green}\u{f15c} file.txt{STOP}"),
            format!("drwxr-sr-x 12 alice  ----  0 Nov 14 22:13 {blue}\u{e6ad} sub{STOP}"),
        ]
    );
    // the size column shows 10 for the file, and the link's row ends with the arrow and the target
    assert!(lines[0].contains(" users 10 Nov"));
    assert!(lines[1].contains(" -> "));
    assert!(lines[1].ends_with(&format!("file.txt{STOP}")));
    assert_eq!(lines.len(), 3);
    let kinds: Vec<char> = lines.iter().map(|line| line.chars().next().unwrap()).collect();
    assert_eq!(kinds, vec!['-', 'l', 'd']);
}

#[test]
fn one_file_one_directory_one_link_with_byte_counts() {
    let items = one_file_one_directory_one_link();
    let lines = detailed_listing(&items, &ListingFlags::new());
    assert!(lines[0].starts_with("-rw-r-----  1 alice users 10 Nov 14 22:13 "));
    assert!(lines[1].starts_with("drwxr-sr-x 12 alice  ----  0 Nov 14 22:13 "));
    assert!(lines[2].starts_with("lrwxrwxrwx  1 alice users  8 Nov 14 22:13 "));
}

#[test]
fn the_detailed_listing_leaves_hidden_entries_out_of_the_widths_too() {
    let mut hidden = named(".hidden");
    hidden.user = "a-very-long-name".to_string();
    let items = vec![hidden, named("a.txt")];
    let lines = detailed_listing(&items, &ListingFlags::new());
    assert_eq!(lines, vec![format!("-rw-r--r-- 1 root wheel 10 Jan  1  2020 {WHITE}* a.txt{STOP}")]);
    let every = detailed_listing(&items, &all());
    assert_eq!(
        every,
        vec![
            format!("-rw-r--r-- 1 a-very-long-name wheel 10 Jan  1  2020 {WHITE}* .hidden{STOP}"),
            format!("-rw-r--r-- 1             root wheel 10 Jan  1  2020 {WHITE}* a.txt{STOP}"),
        ]
    );
    assert!(detailed_listing(&Vec::new(), &all()).is_empty());
}

#[test]
fn listing_sorts_first() {
    let mut items = vec![named("b"), named(".z"), named("a"), named("c")];
    let lines = list_items(&mut items, &ListingFlags::new());
    assert_eq!(
        lines,
        vec![format!("{WHITE}* a{STOP}"), format!("{WHITE}* b{STOP}"), format!("{WHITE}* c{STOP}")]
    );
    let names: Vec<&str> = items.iter().map(|item| item.filename.as_str()).collect();
    assert_eq!(names, vec![".z", "a", "b", "c"]);
    let backwards = ListingFlags { reverse_sort: true, show_all: true, ..ListingFlags::new() };
    let lines = list_items(&mut items, &backwards);
    assert_eq!(
        lines,
        vec![
            format!("{WHITE}* c{STOP}"),
            format!("{WHITE}* b{STOP}"),
            format!("{WHITE}* a{STOP}"),
            format!("{WHITE}* .z{STOP}"),
        ]
    );
}

#[test]
fn headings_of_several_paths() {
    assert!(path_heading("/tmp", 0, 1).is_empty());
    assert!(path_heading("/tmp", 0, 0).is_empty());
    assert_eq!(path_heading("/tmp", 0, 2), vec!["/tmp:".to_string()]);
    assert_eq!(path_heading("/var", 1, 2), vec![String::new(), "/var:".to_string()]);
    assert_eq!(path_heading("", 5, 9), vec![String::new(), ":".to_string()]);
}

#[test]
fn warnings_for_the_colours_in_use() {
    let mut bad = named("bad");
    bad.color = "#12".to_string();
    let mut hidden = named(".hidden");
    hidden.color = String::new();
    let mut link = named("link");
    link.entry_type = EntryType::Symlink;
    link.color = "nothing".to_string();
    link.target_color = "#4312FG".to_string();
    let items = vec![named("fine"), bad, hidden, link];
    assert_eq!(
        color_warnings(&items, &ListingFlags::new()),
        vec![
            "ERROR: failed to parse color #12. Error: Invalid format (must be #XXXXXX)".to_string(),
            "ERROR: failed to parse color nothing. Error: Invalid format (must be #XXXXXX)".to_string(),
        ]
    );
    let details = ListingFlags { show_details: true, show_all: true, ..ListingFlags::new() };
    assert_eq!(
        color_warnings(&items, &details),
        vec![
            "ERROR: failed to parse color #12. Error: Invalid format (must be #XXXXXX)".to_string(),
            "ERROR: failed to parse color . Error: Empty Hex String".to_string(),
            "ERROR: failed to parse color #4312FG. Error: Failed Parsing Hex Value".to_string(),
        ]
    );
    assert!(color_warnings(&vec![named("fine")], &details).is_empty());
}
