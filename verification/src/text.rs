//! Text primitives shared by the formatters: growing a `String` one
//! character at a time, decimal rendering of numbers and padding.

use vstd::prelude::*;
use vstd::string::StringExecFns;
use vstd::string::StringSliceAdditionalSpecFns;

verus! {

/// `String::push` of the standard library: the character is appended at the
/// end and nothing else changes.
#[verifier::external_body]
pub(crate) fn push_char(text: &mut String, c: char)
    ensures
        final(text)@ == old(text)@.push(c),
{
    text.push(c);
}

/// The characters of `text`, in order, as a vector that can be indexed.
pub fn chars_of(text: &str) -> (out: Vec<char>)
    ensures
        out@ == text@,
{
    let mut out: Vec<char> = Vec::new();
    for c in it: text.chars()
        invariant
            out@ == it.seq().take(it.index() as int),
            it.seq() == text@,
    {
        out.push(c);
    }
    out
}

/// The lines of `lines` as texts.
pub open spec fn texts(lines: Seq<String>) -> Seq<Seq<char>> {
    lines.map_values(|line: String| line@)
}

/// The character that stands for one decimal digit.
pub open spec fn digit_char(d: nat) -> char {
    if d == 0 {
        '0'
    } else if d == 1 {
        '1'
    } else if d == 2 {
        '2'
    } else if d == 3 {
        '3'
    } else if d == 4 {
        '4'
    } else if d == 5 {
        '5'
    } else if d == 6 {
        '6'
    } else if d == 7 {
        '7'
    } else if d == 8 {
        '8'
    } else {
        '9'
    }
}

/// The number that a decimal digit stands for.
pub open spec fn digit_value(c: char) -> nat {
    if c == '1' {
        1
    } else if c == '2' {
        2
    } else if c == '3' {
        3
    } else if c == '4' {
        4
    } else if c == '5' {
        5
    } else if c == '6' {
        6
    } else if c == '7' {
        7
    } else if c == '8' {
        8
    } else if c == '9' {
        9
    } else {
        0
    }
}

/// Whether `c` is one of the ten decimal digits.
pub open spec fn is_digit_char(c: char) -> bool {
    '0' <= c && c <= '9'
}

/// The decimal numeral of `n`: no sign, no leading zero, `"0"` for zero.
pub open spec fn decimal(n: nat) -> Seq<char>
    decreases n,
{
    if n < 10 {
        seq![digit_char(n)]
    } else {
        decimal(n / 10).push(digit_char(n % 10))
    }
}

/// The decimal numeral of a signed number: a minus sign before the numeral of
/// the magnitude where the number is negative.
pub open spec fn signed_decimal(n: int) -> Seq<char> {
    if n < 0 {
        seq!['-'] + decimal((-n) as nat)
    } else {
        decimal(n as nat)
    }
}

/// `count` spaces.
pub open spec fn spaces(count: nat) -> Seq<char> {
    Seq::new(count, |i: int| ' ')
}

/// `field` pushed to the right edge of a column of `width` characters; a
/// field that is already as wide as the column, or wider, is left untouched.
pub open spec fn right_aligned(field: Seq<char>, width: nat) -> Seq<char> {
    if field.len() < width {
        spaces((width - field.len()) as nat) + field
    } else {
        field
    }
}

/// `text` in the middle of a column of `width`, widths counted as `len` says.
/// A text that fills the column is left as it is. Otherwise half of the room,
/// rounded down, goes to each side, and one more space follows the text
/// unless the padding of one side divides the length of the text.
pub open spec fn centered(text: Seq<char>, len: nat, width: nat) -> Seq<char> {
    if len >= width {
        text
    } else {
        let pad = (width - len) / 2;
        if len % (pad as nat) == 0 {
            spaces(pad as nat) + text + spaces(pad as nat)
        } else {
            spaces(pad as nat) + text + seq![' '] + spaces(pad as nat)
        }
    }
}

/// A numeral is never empty, holds digits only, and has no leading zero
/// unless it is the numeral of zero.
pub proof fn lemma_decimal_shape(n: nat)
    ensures
        decimal(n).len() >= 1,
        forall|i: int| 0 <= i < decimal(n).len() ==> is_digit_char(#[trigger] decimal(n)[i]),
        decimal(n)[0] == '0' <==> n == 0,
        n < 10 <==> decimal(n).len() == 1,
    decreases n,
{
    if n >= 10 {
        lemma_decimal_shape(n / 10);
    }
}

/// A larger number never has a shorter numeral.
pub proof fn lemma_decimal_len_monotonic(a: nat, b: nat)
    requires
        a <= b,
    ensures
        decimal(a).len() <= decimal(b).len(),
    decreases b,
{
    if a >= 10 {
        lemma_decimal_len_monotonic(a / 10, b / 10);
    } else if b >= 10 {
        lemma_decimal_shape(b / 10);
    }
}

/// Different numbers have different numerals.
pub proof fn lemma_decimal_injective(a: nat, b: nat)
    requires
        decimal(a) == decimal(b),
    ensures
        a == b,
    decreases a,
{
    lemma_decimal_shape(a);
    lemma_decimal_shape(b);
    if a >= 10 {
        assert(decimal(a).drop_last() =~= decimal(a / 10));
        assert(decimal(b).drop_last() =~= decimal(b / 10));
        assert(decimal(a).last() == digit_char(a % 10));
        assert(decimal(b).last() == digit_char(b % 10));
        lemma_decimal_injective(a / 10, b / 10);
    } else {
        assert(decimal(a)[0] == digit_char(a));
        assert(decimal(b)[0] == digit_char(b));
    }
}

fn digit(d: u8) -> (c: char)
    requires
        d < 10,
    ensures
        c == digit_char(d as nat),
{
    match d {
        0 => '0',
        1 => '1',
        2 => '2',
        3 => '3',
        4 => '4',
        5 => '5',
        6 => '6',
        7 => '7',
        8 => '8',
        _ => '9',
    }
}

/// The number that `c` stands for if it is a decimal digit.
pub fn digit_of(c: char) -> (d: Option<u8>)
    ensures
        d is Some <==> is_digit_char(c),
        d matches Some(v) ==> v == digit_value(c) && v < 10,
{
    match c {
        '0' => Some(0),
        '1' => Some(1),
        '2' => Some(2),
        '3' => Some(3),
        '4' => Some(4),
        '5' => Some(5),
        '6' => Some(6),
        '7' => Some(7),
        '8' => Some(8),
        '9' => Some(9),
        _ => None,
    }
}

/// The text that `chars` holds from `from` up to `to`.
pub fn string_of(chars: &Vec<char>, from: usize, to: usize) -> (text: String)
    requires
        from <= to <= chars.len(),
    ensures
        text@ == chars@.subrange(from as int, to as int),
{
    let mut text = String::new();
    let mut at: usize = from;
    while at < to
        invariant
            from <= at <= to <= chars.len(),
            text@ == chars@.subrange(from as int, at as int),
        decreases to - at,
    {
        push_char(&mut text, chars[at]);
        at = at + 1;
        assert(text@ =~= chars@.subrange(from as int, at as int));
    }
    text
}

/// Appends the decimal numeral of `n` to `text`.
pub fn push_decimal(text: &mut String, n: u64)
    ensures
        final(text)@ == old(text)@ + decimal(n as nat),
    decreases n,
{
    if n >= 10 {
        push_decimal(text, n / 10);
    }
    push_char(text, digit((n % 10) as u8));
    assert(text@ =~= old(text)@ + decimal(n as nat));
}

/// Appends the decimal numeral of the signed number `n` to `text`.
pub fn push_signed_decimal(text: &mut String, n: i64)
    ensures
        final(text)@ == old(text)@ + signed_decimal(n as int),
{
    if n < 0 {
        push_char(text, '-');
        let magnitude: u64 = if n == i64::MIN {
            0x8000_0000_0000_0000u64
        } else {
            (-n) as u64
        };
        push_decimal(text, magnitude);
        assert(text@ =~= old(text)@ + signed_decimal(n as int));
    } else {
        push_decimal(text, n as u64);
    }
}

/// Appends `count` spaces to `text`.
pub fn push_spaces(text: &mut String, count: usize)
    ensures
        final(text)@ == old(text)@ + spaces(count as nat),
{
    let mut done: usize = 0;
    while done < count
        invariant
            done <= count,
            text@ == old(text)@ + spaces(done as nat),
        decreases count - done,
    {
        push_char(text, ' ');
        done = done + 1;
        assert(text@ =~= old(text)@ + spaces(done as nat));
    }
}

/// Appends `field` to `text`, right-aligned in a column of `width` characters.
/// The width counts characters, not bytes.
pub fn push_right_aligned(text: &mut String, field: &str, width: usize)
    ensures
        final(text)@ == old(text)@ + right_aligned(field@, width as nat),
{
    let have: usize = field.unicode_len();
    if have < width {
        push_spaces(text, width - have);
    }
    text.append(field);
    assert(text@ =~= old(text)@ + right_aligned(field@, width as nat));
}

/// Puts `val` in the middle of a column of `width` bytes. The column must
/// leave room for padding on both sides: it is at most as wide as `val`, or
/// wider by two or more.
pub fn center_string(val: &str, width: usize) -> (out: String)
    requires
        val.spec_bytes().len() >= width || width - val.spec_bytes().len() >= 2,
    ensures
        out@ == centered(val@, val.spec_bytes().len(), width as nat),
{
    let len: usize = val.as_bytes().len();
    if len >= width {
        return String::from_str(val);
    }
    let pad_size: usize = (width - len) / 2;
    let mut out = String::new();
    push_spaces(&mut out, pad_size);
    out.append(val);
    if len % pad_size != 0 {
        push_char(&mut out, ' ');
    }
    push_spaces(&mut out, pad_size);
    assert(out@ =~= centered(val@, len as nat, width as nat));
    out
}

/// No 64-bit number has a numeral of more than twenty characters.
pub proof fn lemma_decimal_len_u64(n: nat)
    requires
        n <= u64::MAX,
    ensures
        decimal(n).len() <= 20,
{
    lemma_decimal_len_monotonic(n, u64::MAX as nat);
    reveal_with_fuel(decimal, 21);
    assert(decimal(u64::MAX as nat).len() == 20);
}

/// The number of characters that the decimal numeral of `val` takes.
pub fn get_num_width(val: u64) -> (width: usize)
    ensures
        width == decimal(val as nat).len(),
        1 <= width <= 20,
{
    let mut width: usize = 0;
    let mut my_val: u64 = val;
    proof {
        lemma_decimal_len_u64(val as nat);
    }
    loop
        invariant_except_break
            decimal(val as nat).len() == width + decimal(my_val as nat).len(),
            decimal(val as nat).len() <= 20,
        ensures
            width == decimal(val as nat).len(),
            1 <= width <= 20,
        decreases my_val,
    {
        proof {
            lemma_decimal_shape(my_val as nat);
            lemma_decimal_shape((my_val / 10) as nat);
        }
        width += 1;
        my_val /= 10;
        if my_val == 0 {
            break;
        }
    }
    width
}

/// The number of characters that the decimal numeral of `val` takes.
pub fn get_width(val: u32) -> (width: u32)
    ensures
        width == decimal(val as nat).len(),
        1 <= width <= 10,
{
    let wide: usize = get_num_width(val as u64);
    proof {
        lemma_decimal_len_monotonic(val as nat, u32::MAX as nat);
        reveal_with_fuel(decimal, 11);
        assert(decimal(u32::MAX as nat).len() == 10);
    }
    wide as u32
}

} // verus!
