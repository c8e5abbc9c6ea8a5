//! Colours: parsing `#RRGGBB`, and the terminal escape sequences that switch
//! the foreground colour on and off.

use vstd::prelude::*;
use vstd::string::StringExecFns;
use vstd::string::StringSliceAdditionalSpecFns;
use vstd::utf8::encode_utf8;
use crate::text::{
    decimal, is_digit_char, lemma_decimal_injective, lemma_decimal_shape, push_char, push_decimal,
    push_signed_decimal, signed_decimal,
};

verus! {

/// The error for a colour string that holds nothing.
pub const ERR_EMPTY_STRING: &'static str = "Empty Hex String";

/// The error for a colour string that is not seven bytes long or does not
/// start with `#`.
pub const ERR_INVALID_FORMAT: &'static str = "Invalid format (must be #XXXXXX)";

/// The error for a colour string with something else than a hexadecimal
/// digit after the `#`.
pub const ERR_PARSE_ERROR: &'static str = "Failed Parsing Hex Value";

/// The start of the warning for a colour string that cannot be parsed.
pub const WARN_COLOR_LEAD: &'static str = "ERROR: failed to parse color ";

/// The middle of the warning for a colour string that cannot be parsed.
pub const WARN_COLOR_REASON: &'static str = ". Error: ";

/// A colour as three byte components.
#[derive(Debug, Clone, Copy, PartialEq, Eq, Structural)]
pub struct Rgb {
    pub red: u8,
    pub green: u8,
    pub blue: u8,
}

/// White, the colour used where none can be read.
pub open spec fn white() -> Rgb {
    Rgb { red: 255, green: 255, blue: 255 }
}

impl Rgb {
    /// White.
    pub fn new() -> (rgb: Rgb)
        ensures
            rgb == white(),
    {
        Rgb { red: 255, green: 255, blue: 255 }
    }
}

/// The value of one hexadecimal digit, upper or lower case; `None` for any
/// other byte.
pub open spec fn hex_value(b: u8) -> Option<u8> {
    if 0x30 <= b <= 0x39 {
        Some((b - 0x30) as u8)
    } else if 0x61 <= b <= 0x66 {
        Some((b - 0x61 + 10) as u8)
    } else if 0x41 <= b <= 0x46 {
        Some((b - 0x41 + 10) as u8)
    } else {
        None
    }
}

/// The byte written by two hexadecimal digits, the high one first.
pub open spec fn hex_pair(high: u8, low: u8) -> Option<u8> {
    match (hex_value(high), hex_value(low)) {
        (Some(h), Some(l)) => Some((16 * h + l) as u8),
        _ => None,
    }
}

/// `#` followed by exactly six hexadecimal digits.
pub open spec fn well_formed_color(bytes: Seq<u8>) -> bool {
    &&& bytes.len() == 7
    &&& bytes[0] == 0x23
    &&& forall|i: int| 1 <= i < 7 ==> hex_value(#[trigger] bytes[i]) is Some
}

/// Whether a text is a colour string that parses: `#` and six hexadecimal
/// digits.
pub open spec fn is_color_text(color: Seq<char>) -> bool {
    well_formed_color(encode_utf8(color))
}

/// What parsing the bytes of a colour string gives: the three components of
/// a well-formed `#RRGGBB`, and otherwise the first complaint that applies.
pub open spec fn parsed_color(bytes: Seq<u8>) -> Result<Rgb, &'static str> {
    if bytes.len() == 0 {
        Err(ERR_EMPTY_STRING)
    } else if bytes.len() != 7 || bytes[0] != 0x23 {
        Err(ERR_INVALID_FORMAT)
    } else {
        match (
            hex_pair(bytes[1], bytes[2]),
            hex_pair(bytes[3], bytes[4]),
            hex_pair(bytes[5], bytes[6]),
        ) {
            (Some(red), Some(green), Some(blue)) => Ok(Rgb { red, green, blue }),
            _ => Err(ERR_PARSE_ERROR),
        }
    }
}

/// The colour a string stands for when it is used for display: the parsed
/// one, or white where the string is malformed.
pub open spec fn display_color(bytes: Seq<u8>) -> Rgb {
    match parsed_color(bytes) {
        Ok(rgb) => rgb,
        Err(_) => white(),
    }
}

/// The warning that a colour string calls for when it is used for display:
/// none for a well-formed one, and otherwise the string and the complaint.
pub open spec fn color_warning_text(color: Seq<char>) -> Option<Seq<char>> {
    match parsed_color(encode_utf8(color)) {
        Ok(_) => None,
        Err(complaint) => Some(WARN_COLOR_LEAD@ + color + WARN_COLOR_REASON@ + complaint@),
    }
}

/// The start of every foreground-colour escape sequence: `ESC [ 3 8 ; 2 ;`.
pub open spec fn color_lead() -> Seq<char> {
    seq!['\x1B', '[', '3', '8', ';', '2', ';']
}

/// The escape sequence that resets the terminal's colours: `ESC [ 0 m`.
pub open spec fn color_reset() -> Seq<char> {
    seq!['\x1B', '[', '0', 'm']
}

/// The escape sequence that selects 24-bit foreground colour from three
/// components given as numerals.
pub open spec fn escape_of_numerals(red: Seq<char>, green: Seq<char>, blue: Seq<char>) -> Seq<char> {
    color_lead() + red + seq![';'] + green + seq![';'] + blue + seq!['m']
}

/// The escape sequence that selects `rgb` as foreground colour.
pub open spec fn escape_of(rgb: Rgb) -> Seq<char> {
    escape_of_numerals(
        decimal(rgb.red as nat),
        decimal(rgb.green as nat),
        decimal(rgb.blue as nat),
    )
}

/// Two numerals that are each followed by the same character, which is no
/// digit, start two equal texts only if they are the same numeral.
proof fn lemma_numeral_ends_at_mark(x: Seq<char>, y: Seq<char>, mark: char, a: Seq<char>, b: Seq<char>, at: int)
    requires
        !is_digit_char(mark),
        forall|i: int| 0 <= i < x.len() ==> is_digit_char(#[trigger] x[i]),
        forall|i: int| 0 <= i < y.len() ==> is_digit_char(#[trigger] y[i]),
        a == b,
        0 <= at,
        at + x.len() < a.len(),
        at + y.len() < b.len(),
        forall|i: int| 0 <= i < x.len() ==> a[at + i] == #[trigger] x[i],
        forall|i: int| 0 <= i < y.len() ==> b[at + i] == #[trigger] y[i],
        a[at + x.len()] == mark,
        b[at + y.len()] == mark,
    ensures
        x == y,
{
    if x.len() < y.len() {
        assert(is_digit_char(y[x.len() as int]));
    }
    if y.len() < x.len() {
        assert(is_digit_char(x[y.len() as int]));
    }
    assert(x =~= y);
}

/// The escape sequence shows the colour: two colours with the same escape
/// sequence are the same colour.
pub proof fn lemma_escape_determines_color(a: Rgb, b: Rgb)
    requires
        escape_of(a) == escape_of(b),
    ensures
        a == b,
{
    let (ra, ga, ba) = (decimal(a.red as nat), decimal(a.green as nat), decimal(a.blue as nat));
    let (rb, gb, bb) = (decimal(b.red as nat), decimal(b.green as nat), decimal(b.blue as nat));
    lemma_decimal_shape(a.red as nat);
    lemma_decimal_shape(a.green as nat);
    lemma_decimal_shape(a.blue as nat);
    lemma_decimal_shape(b.red as nat);
    lemma_decimal_shape(b.green as nat);
    lemma_decimal_shape(b.blue as nat);
    let sa = escape_of(a);
    let sb = escape_of(b);
    lemma_numeral_ends_at_mark(ra, rb, ';', sa, sb, 7);
    let at_green: int = 7int + ra.len() + 1;
    lemma_numeral_ends_at_mark(ga, gb, ';', sa, sb, at_green);
    let at_blue: int = at_green + ga.len() + 1;
    lemma_numeral_ends_at_mark(ba, bb, 'm', sa, sb, at_blue);
    lemma_decimal_injective(a.red as nat, b.red as nat);
    lemma_decimal_injective(a.green as nat, b.green as nat);
    lemma_decimal_injective(a.blue as nat, b.blue as nat);
}

/// Round trip: a well-formed `#RRGGBB` parses to the three bytes that its
/// digit pairs write, and the escape sequence rendered for it is that of no
/// other colour, so the three bytes can be read back from it.
pub proof fn lemma_color_round_trip(bytes: Seq<u8>, shown: Rgb)
    requires
        well_formed_color(bytes),
        escape_of(shown) == escape_of(display_color(bytes)),
    ensures
        parsed_color(bytes) == Ok::<Rgb, &'static str>(shown),
        hex_pair(bytes[1], bytes[2]) == Some(shown.red),
        hex_pair(bytes[3], bytes[4]) == Some(shown.green),
        hex_pair(bytes[5], bytes[6]) == Some(shown.blue),
{
    assert(hex_value(bytes[1]) is Some);
    assert(hex_value(bytes[2]) is Some);
    assert(hex_value(bytes[3]) is Some);
    assert(hex_value(bytes[4]) is Some);
    assert(hex_value(bytes[5]) is Some);
    assert(hex_value(bytes[6]) is Some);
    lemma_escape_determines_color(shown, display_color(bytes));
}

/// Parsing succeeds on the well-formed strings and on no others, and every
/// other string is displayed in white.
pub proof fn lemma_malformed_color_is_white(bytes: Seq<u8>)
    ensures
        parsed_color(bytes) is Ok <==> well_formed_color(bytes),
        !well_formed_color(bytes) ==> display_color(bytes) == white(),
{
    if well_formed_color(bytes) {
        assert(hex_value(bytes[1]) is Some);
        assert(hex_value(bytes[2]) is Some);
        assert(hex_value(bytes[3]) is Some);
        assert(hex_value(bytes[4]) is Some);
        assert(hex_value(bytes[5]) is Some);
        assert(hex_value(bytes[6]) is Some);
    }
}

fn hex_digit(b: u8) -> (v: Option<u8>)
    ensures
        v == hex_value(b),
{
    if 0x30 <= b && b <= 0x39 {
        Some(b - 0x30)
    } else if 0x61 <= b && b <= 0x66 {
        Some(b - 0x61 + 10)
    } else if 0x41 <= b && b <= 0x46 {
        Some(b - 0x41 + 10)
    } else {
        None
    }
}

fn hex_byte(high: u8, low: u8) -> (v: Option<u8>)
    ensures
        v == hex_pair(high, low),
{
    match (hex_digit(high), hex_digit(low)) {
        (Some(h), Some(l)) => Some(16 * h + l),
        _ => None,
    }
}

/// Parses `#RRGGBB`. The string is read byte by byte: it must be seven bytes
/// long, start with `#`, and go on with six hexadecimal digits of either case.
pub fn extract_rgb(value: &str) -> (result: Result<Rgb, &'static str>)
    ensures
        result == parsed_color(value.spec_bytes()),
{
    let bytes = value.as_bytes();
    if bytes.len() == 0 {
        return Err(ERR_EMPTY_STRING);
    }
    if bytes.len() != 7 || bytes[0] != 0x23 {
        return Err(ERR_INVALID_FORMAT);
    }
    let red = match hex_byte(bytes[1], bytes[2]) {
        Some(number) => number,
        None => return Err(ERR_PARSE_ERROR),
    };
    let green = match hex_byte(bytes[3], bytes[4]) {
        Some(number) => number,
        None => return Err(ERR_PARSE_ERROR),
    };
    let blue = match hex_byte(bytes[5], bytes[6]) {
        Some(number) => number,
        None => return Err(ERR_PARSE_ERROR),
    };
    Ok(Rgb { red, green, blue })
}

/// The escape sequence that switches the foreground to the colour written in
/// `color`, or to white where `color` is malformed.
pub fn start_color(color: &str) -> (sequence: String)
    ensures
        sequence@ == escape_of(display_color(color.spec_bytes())),
{
    let rgb = match extract_rgb(color) {
        Ok(rgb) => rgb,
        Err(_) => Rgb::new(),
    };
    let mut sequence = String::new();
    proof {
        reveal_strlit("\x1B[38;2;");
    }
    sequence.append("\x1B[38;2;");
    assert(sequence@ =~= color_lead());
    push_decimal(&mut sequence, rgb.red as u64);
    push_char(&mut sequence, ';');
    push_decimal(&mut sequence, rgb.green as u64);
    push_char(&mut sequence, ';');
    push_decimal(&mut sequence, rgb.blue as u64);
    push_char(&mut sequence, 'm');
    sequence
}

/// The warning that goes with `start_color`: where `color` is malformed and
/// white is used in its place, the words that say so.
pub fn color_warning(color: &str) -> (warning: Option<String>)
    ensures
        match color_warning_text(color@) {
            Some(words) => warning matches Some(got) && got@ == words,
            None => warning is None,
        },
{
    match extract_rgb(color) {
        Ok(_) => None,
        Err(complaint) => {
            let mut words = String::from_str(WARN_COLOR_LEAD);
            words.append(color);
            words.append(WARN_COLOR_REASON);
            words.append(complaint);
            Some(words)
        },
    }
}

/// The escape sequence that resets the terminal's colours.
pub fn stop_color() -> (sequence: &'static str)
    ensures
        sequence@ == color_reset(),
{
    proof {
        reveal_strlit("\x1B[0m");
    }
    assert("\x1B[0m"@ =~= color_reset());
    "\x1B[0m"
}

/// `text` between the escape sequence for the given components and the reset
/// sequence. The components are written as they are given, in range or not.
pub fn colored(r: i32, g: i32, b: i32, text: &str) -> (out: String)
    ensures
        out@ == escape_of_numerals(
            signed_decimal(r as int),
            signed_decimal(g as int),
            signed_decimal(b as int),
        ) + text@ + color_reset(),
{
    let mut out = String::new();
    proof {
        reveal_strlit("\x1B[38;2;");
    }
    out.append("\x1B[38;2;");
    assert(out@ =~= color_lead());
    push_signed_decimal(&mut out, r as i64);
    push_char(&mut out, ';');
    push_signed_decimal(&mut out, g as i64);
    push_char(&mut out, ';');
    push_signed_decimal(&mut out, b as i64);
    push_char(&mut out, 'm');
    out.append(text);
    out.append(stop_color());
    out
}

} // verus!
