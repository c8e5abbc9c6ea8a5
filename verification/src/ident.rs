//! Names for numeric user and group ids, read from a colon-delimited table
//! in the layout of the system's user and group databases: the name in the
//! first column, the id in the third.

use std::collections::HashMap;
use vstd::prelude::*;
use vstd::string::StringExecFns;
use crate::text::{chars_of, digit_of, digit_value, is_digit_char, string_of, texts};

verus! {

broadcast use vstd::std_specs::hash::group_hash_axioms;

/// The start of the warning for a third column that is no id.
pub const WARN_ID_LEAD: &'static str = "Failed to covert uid[";

/// The middle of the warning for a third column that is no id.
pub const WARN_ID_REASON: &'static str = "] to number. Reason: ";

/// The reason given for a column that holds nothing.
pub const REASON_EMPTY: &'static str = "cannot parse integer from empty string";

/// The reason given for a column with something else than a digit.
pub const REASON_INVALID_DIGIT: &'static str = "invalid digit found in string";

/// The reason given for a number that does not fit in 32 bits.
pub const REASON_TOO_LARGE: &'static str = "number too large to fit in target type";

/// Why a column is no id.
#[derive(Debug, Clone, Copy, PartialEq, Eq, Structural)]
pub enum IdFault {
    /// The column holds nothing.
    Empty,
    /// The column holds something else than a digit, or a sign alone.
    InvalidDigit,
    /// The number does not fit in 32 bits.
    TooLarge,
}

/// The name shown for an id that the table does not hold: four dashes.
pub open spec fn unknown_name() -> Seq<char> {
    seq!['-', '-', '-', '-']
}

/// The position of the first `mark` in `text`, or the length of `text` where
/// it holds none.
pub open spec fn reach(text: Seq<char>, mark: char) -> int
    decreases text.len(),
{
    if text.len() == 0 || text[0] == mark {
        0
    } else {
        1 + reach(text.drop_first(), mark)
    }
}

/// The number written by a run of decimal digits, `None` where something
/// else than a digit occurs. The empty run writes zero.
pub open spec fn numeral_value(text: Seq<char>) -> Option<nat>
    decreases text.len(),
{
    if text.len() == 0 {
        Some(0)
    } else if !is_digit_char(text.last()) {
        None
    } else {
        match numeral_value(text.drop_last()) {
            Some(value) => Some(value * 10 + digit_value(text.last())),
            None => None,
        }
    }
}

/// The id written in a column: decimal digits, at least one, with one `+`
/// allowed in front, and a value that fits in 32 bits.
pub open spec fn parsed_id(text: Seq<char>) -> Option<u32> {
    let digits = if text.len() > 0 && text[0] == '+' {
        text.drop_first()
    } else {
        text
    };
    if digits.len() == 0 {
        None
    } else {
        match numeral_value(digits) {
            Some(value) => if value <= u32::MAX {
                Some(value as u32)
            } else {
                None
            },
            None => None,
        }
    }
}

/// The first fault met in a run of characters read as digits from the left:
/// a character that is no digit, or a digit with which the number no longer
/// fits in 32 bits.
pub open spec fn digits_fault(text: Seq<char>) -> Option<IdFault>
    decreases text.len(),
{
    if text.len() == 0 {
        None
    } else {
        match digits_fault(text.drop_last()) {
            Some(fault) => Some(fault),
            None => if !is_digit_char(text.last()) {
                Some(IdFault::InvalidDigit)
            } else {
                match numeral_value(text) {
                    Some(value) => if value > u32::MAX {
                        Some(IdFault::TooLarge)
                    } else {
                        None
                    },
                    None => None,
                }
            },
        }
    }
}

/// Why a column is no id, `None` where it is one.
pub open spec fn id_fault(text: Seq<char>) -> Option<IdFault> {
    if text.len() == 0 {
        Some(IdFault::Empty)
    } else {
        let digits = if text[0] == '+' {
            text.drop_first()
        } else {
            text
        };
        if digits.len() == 0 {
            Some(IdFault::InvalidDigit)
        } else {
            digits_fault(digits)
        }
    }
}

/// The third column of a line, `None` where the line has fewer than three.
pub open spec fn third_column(line: Seq<char>) -> Option<Seq<char>> {
    let first = reach(line, ':');
    if first >= line.len() {
        None
    } else {
        let after_name = line.subrange(first + 1, line.len() as int);
        let second = reach(after_name, ':');
        if second >= after_name.len() {
            None
        } else {
            let after_second = after_name.subrange(second + 1, after_name.len() as int);
            Some(after_second.subrange(0, reach(after_second, ':')))
        }
    }
}

/// What one line of the table says: the id of its third column and the name
/// of its first. A line with fewer than three columns says nothing, and
/// neither does one whose third column is no id.
pub open spec fn id_entry(line: Seq<char>) -> Option<(u32, Seq<char>)> {
    match third_column(line) {
        Some(third) => match parsed_id(third) {
            Some(id) => Some((id, line.subrange(0, reach(line, ':')))),
            None => None,
        },
        None => None,
    }
}

/// The words for a fault.
pub open spec fn reason_text(fault: IdFault) -> Seq<char> {
    match fault {
        IdFault::Empty => REASON_EMPTY@,
        IdFault::InvalidDigit => REASON_INVALID_DIGIT@,
        IdFault::TooLarge => REASON_TOO_LARGE@,
    }
}

/// The warning that one line of the table calls for: none for a line with
/// fewer than three columns, which is passed over in silence, and none for a
/// line whose third column is an id.
pub open spec fn line_warning(line: Seq<char>) -> Option<Seq<char>> {
    match third_column(line) {
        Some(third) => match id_fault(third) {
            Some(fault) => Some(WARN_ID_LEAD@ + third + WARN_ID_REASON@ + reason_text(fault)),
            None => None,
        },
        None => None,
    }
}

/// No warning, or the one given.
pub open spec fn warning_lines(warning: Option<Seq<char>>) -> Seq<Seq<char>> {
    match warning {
        Some(text) => seq![text],
        None => Seq::empty(),
    }
}

/// The warnings that reading the whole of `text` calls for, in the order of
/// its lines.
pub open spec fn id_warnings_of(text: Seq<char>) -> Seq<Seq<char>>
    decreases text.len(),
{
    if text.len() == 0 {
        Seq::empty()
    } else {
        let end = reach(text, '\n');
        if 0 <= end < text.len() {
            warning_lines(line_warning(without_carriage_return(text.subrange(0, end))))
                + id_warnings_of(text.subrange(end + 1, text.len() as int))
        } else {
            warning_lines(line_warning(text))
        }
    }
}

/// `names` after one line was read: the line's entry is added, and replaces
/// what the id had before.
pub open spec fn with_line(names: Map<u32, Seq<char>>, line: Seq<char>) -> Map<u32, Seq<char>> {
    match id_entry(line) {
        Some((id, name)) => names.insert(id, name),
        None => names,
    }
}

/// A line without the carriage return that may end it.
pub open spec fn without_carriage_return(line: Seq<char>) -> Seq<char> {
    if line.len() > 0 && line.last() == '\r' {
        line.drop_last()
    } else {
        line
    }
}

/// `names` after the whole of `text` was read, line by line from the top.
/// Lines end at a line feed, or at a carriage return and a line feed; the
/// last line needs no ending.
pub open spec fn id_table(names: Map<u32, Seq<char>>, text: Seq<char>) -> Map<u32, Seq<char>>
    decreases text.len(),
{
    if text.len() == 0 {
        names
    } else {
        let end = reach(text, '\n');
        if 0 <= end < text.len() {
            id_table(
                with_line(names, without_carriage_return(text.subrange(0, end))),
                text.subrange(end + 1, text.len() as int),
            )
        } else {
            with_line(names, text)
        }
    }
}

/// The names of a table as plain texts.
pub open spec fn names_of(table: Map<u32, String>) -> Map<u32, Seq<char>> {
    table.map_values(|name: String| name@)
}

/// The name shown for `id`: the one in the table, or the placeholder.
pub open spec fn shown_name(names: Map<u32, Seq<char>>, id: u32) -> Seq<char> {
    if names.contains_key(id) {
        names[id]
    } else {
        unknown_name()
    }
}

/// `reach` is the first position that holds the mark, if there is one.
pub proof fn lemma_reach_is_first(text: Seq<char>, mark: char, at: int)
    requires
        0 <= at <= text.len(),
        forall|i: int| 0 <= i < at ==> text[i] != mark,
        at == text.len() || text[at] == mark,
    ensures
        reach(text, mark) == at,
    decreases text.len(),
{
    if at > 0 {
        let rest = text.drop_first();
        assert forall|i: int| 0 <= i < at - 1 implies rest[i] != mark by {
            assert(rest[i] == text[i + 1]);
        }
        lemma_reach_is_first(rest, mark, at - 1);
    }
}

/// A run of digits has a value only if each of its beginnings has one, and
/// no beginning has a larger value than the whole.
pub proof fn lemma_numeral_beginning(text: Seq<char>, upto: int)
    requires
        0 <= upto <= text.len(),
        numeral_value(text) is Some,
    ensures
        numeral_value(text.subrange(0, upto)) is Some,
        numeral_value(text.subrange(0, upto))->0 <= numeral_value(text)->0,
    decreases text.len(),
{
    if upto == text.len() {
        assert(text.subrange(0, upto) =~= text);
    } else {
        assert(text.drop_last().subrange(0, upto) =~= text.subrange(0, upto));
        lemma_numeral_beginning(text.drop_last(), upto);
    }
}

/// A fault stays: once a beginning of a run of characters has one, the whole
/// run has the same.
pub proof fn lemma_fault_stays(text: Seq<char>, upto: int)
    requires
        0 <= upto <= text.len(),
        digits_fault(text.subrange(0, upto)) is Some,
    ensures
        digits_fault(text) == digits_fault(text.subrange(0, upto)),
    decreases text.len(),
{
    if upto == text.len() {
        assert(text.subrange(0, upto) =~= text);
    } else {
        assert(text.drop_last().subrange(0, upto) =~= text.subrange(0, upto));
        lemma_fault_stays(text.drop_last(), upto);
    }
}

/// A run of characters is free of faults exactly where it writes a number
/// that fits in 32 bits.
pub proof fn lemma_no_fault_is_a_number(text: Seq<char>)
    ensures
        digits_fault(text) is None <==> (numeral_value(text) is Some && numeral_value(text)->0
            <= u32::MAX),
    decreases text.len(),
{
    if text.len() > 0 {
        lemma_no_fault_is_a_number(text.drop_last());
    }
}

/// A column is an id exactly where it has no fault.
pub proof fn lemma_id_or_fault(text: Seq<char>)
    ensures
        parsed_id(text) is Some <==> id_fault(text) is None,
{
    if text.len() > 0 {
        let digits = if text[0] == '+' {
            text.drop_first()
        } else {
            text
        };
        lemma_no_fault_is_a_number(digits);
    }
}

fn find_mark(text: &Vec<char>, from: usize, to: usize, mark: char) -> (at: usize)
    requires
        from <= to <= text.len(),
    ensures
        from <= at <= to,
        at - from == reach(text@.subrange(from as int, to as int), mark),
        at < to ==> text[at as int] == mark,
{
    let mut at: usize = from;
    while at < to && text[at] != mark
        invariant
            from <= at <= to <= text.len(),
            forall|i: int| from <= i < at ==> text[i] != mark,
        decreases to - at,
    {
        at = at + 1;
    }
    proof {
        lemma_reach_is_first(text@.subrange(from as int, to as int), mark, at - from);
    }
    at
}

fn parse_id(text: &Vec<char>, from: usize, to: usize) -> (id: Result<u32, IdFault>)
    requires
        from <= to <= text.len(),
    ensures
        match id {
            Ok(number) => parsed_id(text@.subrange(from as int, to as int)) == Some(number)
                && id_fault(text@.subrange(from as int, to as int)) is None,
            Err(fault) => parsed_id(text@.subrange(from as int, to as int)) is None && id_fault(
                text@.subrange(from as int, to as int),
            ) == Some(fault),
        },
{
    let ghost column = text@.subrange(from as int, to as int);
    proof {
        lemma_id_or_fault(column);
    }
    if from == to {
        return Err(IdFault::Empty);
    }
    let start: usize = if text[from] == '+' {
        from + 1
    } else {
        from
    };
    let ghost digits = text@.subrange(start as int, to as int);
    assert(digits =~= if column[0] == '+' {
        column.drop_first()
    } else {
        column
    });
    if start == to {
        return Err(IdFault::InvalidDigit);
    }
    let mut value: u64 = 0;
    let mut at: usize = start;
    assert(digits.subrange(0, 0) =~= Seq::<char>::empty());
    while at < to
        invariant
            from <= start <= at <= to <= text.len(),
            start < to,
            digits == text@.subrange(start as int, to as int),
            column == text@.subrange(from as int, to as int),
            id_fault(column) == digits_fault(digits),
            parsed_id(column) is Some <==> id_fault(column) is None,
            parsed_id(column) == match numeral_value(digits) {
                Some(whole) => if whole <= u32::MAX {
                    Some(whole as u32)
                } else {
                    None
                },
                None => None,
            },
            digits_fault(digits.subrange(0, at - start)) is None,
            numeral_value(digits.subrange(0, at - start)) == Some(value as nat),
            value <= u32::MAX,
        decreases to - at,
    {
        let ghost before = digits.subrange(0, at - start);
        let ghost now = digits.subrange(0, at + 1 - start);
        assert(now.drop_last() =~= before);
        assert(now.last() == text[at as int]);
        match digit_of(text[at]) {
            None => {
                proof {
                    assert(digits_fault(now) == Some(IdFault::InvalidDigit));
                    lemma_fault_stays(digits, at + 1 - start);
                }
                return Err(IdFault::InvalidDigit);
            },
            Some(d) => {
                let next: u64 = value * 10 + d as u64;
                if next > u32::MAX as u64 {
                    proof {
                        assert(numeral_value(now) == Some(next as nat));
                        assert(digits_fault(now) == Some(IdFault::TooLarge));
                        lemma_fault_stays(digits, at + 1 - start);
                    }
                    return Err(IdFault::TooLarge);
                }
                value = next;
            },
        }
        at = at + 1;
    }
    assert(digits.subrange(0, to - start) =~= digits);
    Ok(value as u32)
}

fn third_of(text: &Vec<char>, from: usize, to: usize) -> (found: Option<(usize, usize, usize)>)
    requires
        from <= to <= text.len(),
    ensures
        match found {
            Some((name_end, third_from, third_to)) => {
                &&& from <= name_end < third_from <= third_to <= to
                &&& name_end - from == reach(text@.subrange(from as int, to as int), ':')
                &&& third_column(text@.subrange(from as int, to as int)) == Some(
                    text@.subrange(third_from as int, third_to as int),
                )
            },
            None => third_column(text@.subrange(from as int, to as int)) is None,
        },
{
    let ghost line = text@.subrange(from as int, to as int);
    let first: usize = find_mark(text, from, to, ':');
    if first >= to {
        return None;
    }
    let ghost after_name = line.subrange(first - from + 1, line.len() as int);
    assert(after_name =~= text@.subrange(first + 1, to as int));
    let second: usize = find_mark(text, first + 1, to, ':');
    if second >= to {
        return None;
    }
    let ghost after_second = after_name.subrange(second - first, after_name.len() as int);
    assert(after_second =~= text@.subrange(second + 1, to as int));
    let third: usize = find_mark(text, second + 1, to, ':');
    assert(after_second.subrange(0, third - second - 1) =~= text@.subrange(
        second + 1,
        third as int,
    ));
    Some((first, second + 1, third))
}

fn parse_line(text: &Vec<char>, from: usize, to: usize) -> (entry: Option<(u32, String)>)
    requires
        from <= to <= text.len(),
    ensures
        match id_entry(text@.subrange(from as int, to as int)) {
            Some((id, name)) => entry matches Some((got_id, got_name)) && got_id == id && got_name@
                == name,
            None => entry is None,
        },
{
    let ghost line = text@.subrange(from as int, to as int);
    match third_of(text, from, to) {
        Some((name_end, third_from, third_to)) => match parse_id(text, third_from, third_to) {
            Ok(id) => {
                let name = string_of(text, from, name_end);
                assert(line.subrange(0, name_end - from) =~= text@.subrange(
                    from as int,
                    name_end as int,
                ));
                Some((id, name))
            },
            Err(_) => None,
        },
        None => None,
    }
}

fn reason(fault: IdFault) -> (words: &'static str)
    ensures
        words@ == reason_text(fault),
{
    match fault {
        IdFault::Empty => REASON_EMPTY,
        IdFault::InvalidDigit => REASON_INVALID_DIGIT,
        IdFault::TooLarge => REASON_TOO_LARGE,
    }
}

fn warn_line(text: &Vec<char>, from: usize, to: usize) -> (warning: Option<String>)
    requires
        from <= to <= text.len(),
    ensures
        match line_warning(text@.subrange(from as int, to as int)) {
            Some(words) => warning matches Some(got) && got@ == words,
            None => warning is None,
        },
{
    match third_of(text, from, to) {
        Some((_, third_from, third_to)) => match parse_id(text, third_from, third_to) {
            Ok(_) => None,
            Err(fault) => {
                let mut words = String::from_str(WARN_ID_LEAD);
                let third = string_of(text, third_from, third_to);
                words.append(third.as_str());
                words.append(WARN_ID_REASON);
                words.append(reason(fault));
                Some(words)
            },
        },
        None => None,
    }
}

/// Finds the line that starts at `at`: where it stops, its ending left out,
/// and where the text goes on after it.
fn next_line(text: &Vec<char>, at: usize) -> (found: (usize, usize))
    requires
        at < text.len(),
    ensures
        at <= found.0 <= found.1 <= text.len(),
        at < found.1,
        ({
            let rest = text@.subrange(at as int, text.len() as int);
            let end = reach(rest, '\n');
            let line = text@.subrange(at as int, found.0 as int);
            let after = text@.subrange(found.1 as int, text.len() as int);
            if 0 <= end < rest.len() {
                line == without_carriage_return(rest.subrange(0, end)) && after == rest.subrange(
                    end + 1,
                    rest.len() as int,
                )
            } else {
                line == rest && after.len() == 0
            }
        }),
{
    let ghost rest = text@.subrange(at as int, text.len() as int);
    let end: usize = find_mark(text, at, text.len(), '\n');
    if end < text.len() {
        let stop: usize = if end > at && text[end - 1] == '\r' {
            (end - 1) as usize
        } else {
            end
        };
        assert(text@.subrange(at as int, stop as int) =~= without_carriage_return(
            rest.subrange(0, end - at),
        ));
        assert(text@.subrange(end + 1, text.len() as int) =~= rest.subrange(
            end - at + 1,
            rest.len() as int,
        ));
        (stop, end + 1)
    } else {
        assert(text@.subrange(at as int, end as int) =~= rest);
        (end, end)
    }
}

/// Reads an id table from `data` into `map`. Lines are read from the top, so
/// that of two lines with the same id the later one stays; what `map` held
/// for other ids stays too. Lines that say nothing are passed over.
pub fn map_ids(data: &str, map: &mut HashMap<u32, String>)
    ensures
        names_of(final(map)@) == id_table(names_of(old(map)@), data@),
{
    let text = chars_of(data);
    let mut at: usize = 0;
    assert(text@.subrange(0, text.len() as int) =~= text@);
    while at < text.len()
        invariant
            at <= text.len(),
            id_table(names_of(map@), text@.subrange(at as int, text.len() as int)) == id_table(
                names_of(old(map)@),
                text@,
            ),
        decreases text.len() - at,
    {
        let ghost names = names_of(map@);
        let (stop, next) = next_line(&text, at);
        match parse_line(&text, at, stop) {
            Some((id, name)) => {
                map.insert(id, name);
                assert(names_of(map@) =~= names.insert(id, name@));
            },
            None => {},
        }
        at = next;
    }
}

/// The warnings that reading an id table from `data` calls for: one for each
/// line that has a third column which is no id, in the order of the lines.
/// `map_ids` passes such lines over; lines with fewer than three columns are
/// passed over without a warning.
pub fn id_warnings(data: &str) -> (warnings: Vec<String>)
    ensures
        texts(warnings@) == id_warnings_of(data@),
{
    let text = chars_of(data);
    let mut warnings: Vec<String> = Vec::new();
    let mut at: usize = 0;
    assert(text@.subrange(0, text.len() as int) =~= text@);
    assert(texts(warnings@) =~= Seq::<Seq<char>>::empty());
    while at < text.len()
        invariant
            at <= text.len(),
            texts(warnings@) + id_warnings_of(text@.subrange(at as int, text.len() as int))
                == id_warnings_of(text@),
        decreases text.len() - at,
    {
        let ghost rest = text@.subrange(at as int, text.len() as int);
        let ghost had = texts(warnings@);
        let (stop, next) = next_line(&text, at);
        let ghost found = warning_lines(line_warning(text@.subrange(at as int, stop as int)));
        match warn_line(&text, at, stop) {
            Some(words) => {
                warnings.push(words);
            },
            None => {},
        }
        assert(texts(warnings@) =~= had + found);
        at = next;
        assert(had + found + id_warnings_of(text@.subrange(at as int, text.len() as int)) =~= had
            + id_warnings_of(rest));
    }
    assert(texts(warnings@) =~= id_warnings_of(text@));
    warnings
}

/// The name that `table` gives to `id`, or four dashes where it gives none.
pub fn name_of(table: &HashMap<u32, String>, id: u32) -> (name: String)
    ensures
        name@ == shown_name(names_of(table@), id),
{
    match table.get(&id) {
        Some(name) => name.clone(),
        None => {
            proof {
                reveal_strlit("----");
            }
            assert("----"@ =~= unknown_name());
            String::from_str("----")
        },
    }
}

} // verus!
