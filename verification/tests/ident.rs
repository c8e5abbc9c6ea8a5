use myls::ident::{id_warnings, map_ids, name_of};
use std::collections::HashMap;
use std::str::FromStr;

fn by_hand(data: &str, map: &mut HashMap<u32, String>) {
    for line in data.lines() {
        if line.is_empty() {
            continue;
        }
        let cols: Vec<&str> = line.split(':').collect();
        if cols.len() < 3 {
            continue;
        }
        let username = cols[0].to_string();
        let id = match FromStr::from_str(cols[2]) {
            Ok(id) => id,
            Err(_) => continue,
        };
        map.insert(id, username);
    }
}

fn table(data: &str) -> HashMap<u32, String> {
    let mut map = HashMap::new();
    map_ids(data, &mut map);
    map
}

fn check(data: &str) {
    let mut expected = HashMap::new();
    by_hand(data, &mut expected);
    assert_eq!(table(data), expected, "table {data:?}");
}

#[test]
fn a_user_table() {
    let data = "root:x:0:0:root:/root:/bin/bash\ndaemon:x:1:1:daemon:/usr/sbin:/usr/sbin/nologin\nalice:x:1000:1000:Alice,,,:/home/alice:/bin/zsh\n";
    let map = table(data);
    assert_eq!(map.len(), 3);
    assert_eq!(map[&0], "root");
    assert_eq!(map[&1], "daemon");
    assert_eq!(map[&1000], "alice");
    check(data);
}

#[test]
fn a_group_table() {
    let data = "root:x:0:\nadm:x:4:syslog,alice\nusers:x:100:";
    let map = table(data);
    assert_eq!(map.len(), 3);
    assert_eq!(map[&4], "adm");
    assert_eq!(map[&100], "users");
    check(data);
}

#[test]
fn lines_that_say_nothing_are_passed_over() {
    let data = "\n\nnocolons\none:colon\n:x:\nbad:x:abc:rest\nneg:x:-1:\nbig:x:4294967296:\nspace:x: 5:\nok:x:7:\n";
    let map = table(data);
    assert_eq!(map.len(), 1);
    assert_eq!(map[&7], "ok");
    check(data);
}

#[test]
fn the_id_column() {
    assert_eq!(table("a:x:+5:")[&5], "a");
    assert_eq!(table("a:x:007")[&7], "a");
    assert_eq!(table("a:x:4294967295")[&u32::MAX], "a");
    assert_eq!(table("a:x:00000000000000000000000012")[&12], "a");
    assert!(table("a:x:+").is_empty());
    assert!(table("a:x:").is_empty());
    assert!(table("a:x:++5").is_empty());
    assert!(table("a:x:5+").is_empty());
    assert!(table("a:x:4294967296").is_empty());
    assert!(table("a:x:99999999999999999999999").is_empty());
    assert!(table("a:x:\u{661}").is_empty());
    assert_eq!(table(":x:3")[&3], "");
}

#[test]
fn a_later_line_replaces_an_earlier_one() {
    let map = table("first:x:5:\nsecond:x:5:\nother:x:6:\n");
    assert_eq!(map.len(), 2);
    assert_eq!(map[&5], "second");
    assert_eq!(map[&6], "other");
}

#[test]
fn what_the_map_held_stays() {
    let mut map = HashMap::new();
    map.insert(1u32, "one".to_string());
    map.insert(2u32, "two".to_string());
    map_ids("deux:x:2:\ntrois:x:3:", &mut map);
    assert_eq!(map.len(), 3);
    assert_eq!(map[&1], "one");
    assert_eq!(map[&2], "deux");
    assert_eq!(map[&3], "trois");
}

#[test]
fn line_endings() {
    // a carriage return before the line feed belongs to the line ending
    assert_eq!(table("a:x:1\r\nb:x:2\r\n")[&1], "a");
    assert_eq!(table("a:x:1\r\nb:x:2\r\n")[&2], "b");
    // one at the very end of the text does not
    assert!(table("a:x:1\r").is_empty());
    // and neither does one in the middle of a line
    assert!(table("a:x:1\rb:x:2\n").is_empty());
    assert_eq!(table("a:x:1:\r\n")[&1], "a");
    assert_eq!(table("a\r:x:1\n")[&1], "a\r");
    for data in ["", "\n", "\r\n", "\r", "a:x:1", "a:x:1\n", "a:x:1\r\n", "a:x:1\n\r", "a:x:1\r\r\n", "\na:x:1", "a:b:1:c\r\n\r\nd:e:2"] {
        check(data);
    }
}

#[test]
fn agrees_with_the_standard_library_on_scattered_texts() {
    let alphabet = ['a', ':', ':', '\n', '\r', '1', '2', '+', '0', '\u{e9}', ':', '\n'];
    let mut state: u64 = 0x9E37_79B9_7F4A_7C15;
    for _ in 0..20_000 {
        let mut data = String::new();
        state ^= state << 13;
        state ^= state >> 7;
        state ^= state << 17;
        let len = (state % 24) as usize;
        for _ in 0..len {
            state ^= state << 13;
            state ^= state >> 7;
            state ^= state << 17;
            data.push(alphabet[(state % alphabet.len() as u64) as usize]);
        }
        check(&data);
    }
}

#[test]
fn names_and_the_placeholder() {
    let map = table("root:x:0:0\nalice:x:1000:1000\n");
    assert_eq!(name_of(&map, 0), "root");
    assert_eq!(name_of(&map, 1000), "alice");
    assert_eq!(name_of(&map, 1), "----");
    assert_eq!(name_of(&HashMap::new(), 0), "----");
}

fn warnings_by_hand(data: &str) -> Vec<String> {
    let mut warnings = Vec::new();
    for line in data.lines() {
        if line.is_empty() {
            continue;
        }
        let cols: Vec<&str> = line.split(':').collect();
        if cols.len() < 3 {
            continue;
        }
        let parsed: Result<u32, std::num::ParseIntError> = FromStr::from_str(cols[2]);
        if let Err(e) = parsed {
            warnings.push(format!("Failed to covert uid[{}] to number. Reason: {}", cols[2], e));
        }
    }
    warnings
}

#[test]
fn warnings_for_columns_that_are_no_id() {
    assert!(id_warnings("root:x:0:0\nalice:x:1000:1000\n").is_empty());
    assert!(id_warnings("").is_empty());
    assert!(id_warnings("nocolons\none:colon\n\n").is_empty());
    assert_eq!(
        id_warnings("bad:x:abc:rest\nok:x:7:\nnone:x::\nbig:x:4294967296\nplus:x:+"),
        vec![
            "Failed to covert uid[abc] to number. Reason: invalid digit found in string".to_string(),
            "Failed to covert uid[] to number. Reason: cannot parse integer from empty string".to_string(),
            "Failed to covert uid[4294967296] to number. Reason: number too large to fit in target type"
                .to_string(),
            "Failed to covert uid[+] to number. Reason: invalid digit found in string".to_string(),
        ]
    );
}

#[test]
fn warnings_agree_with_the_standard_library() {
    for data in [
        "a:x:-1",
        "a:x:99999999999x",
        "a:x:9x9999999999",
        "a:x:4294967295",
        "a:x:4294967296",
        "a:x:42949672950",
        "a:x:+4294967296",
        "a:x:00000000004294967296",
        "a:x: 5\r\nb:x:5 \r\n",
        "a:x:5\r",
        "a:x:\u{661}",
        "a:x:+-5",
    ] {
        assert_eq!(id_warnings(data), warnings_by_hand(data), "table {data:?}");
    }
    let alphabet = ['a', ':', ':', '\n', '\r', '1', '9', '+', '0', '\u{e9}', ':', '\n', '9', '9'];
    let mut state: u64 = 0x9E37_79B9_7F4A_7C15;
    for _ in 0..20_000 {
        let mut data = String::new();
        state ^= state << 13;
        state ^= state >> 7;
        state ^= state << 17;
        let len = (state % 30) as usize;
        for _ in 0..len {
            state ^= state << 13;
            state ^= state >> 7;
            state ^= state << 17;
            data.push(alphabet[(state % alphabet.len() as u64) as usize]);
        }
        assert_eq!(id_warnings(&data), warnings_by_hand(&data), "table {data:?}");
    }
}
