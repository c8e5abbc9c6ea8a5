//! The glyph and the colour that stand for an entry. Directories have a
//! glyph and a colour of their own; everything else is looked up by name in
//! the icon tables of the `devicons` crate.

use vstd::prelude::*;
use vstd::string::StringExecFns;
use vstd::utf8::{encode_utf8, is_ascii_chars, is_ascii_chars_encode_utf8};
use crate::color::{hex_value, is_color_text};

verus! {

/// The glyph of every directory.
pub const DIRECTORY_ICON: char = '\u{e6ad}';

/// The colour of every directory.
pub const DIRECTORY_COLOR: &'static str = "#3483eb";

/// The colour in which the name of a symbolic link is written in the
/// detailed listing.
pub const SYMLINK_COLOR: &'static str = "#09bfc9";

/// `devicons::icon_for_file` with the dark theme: the glyph and the colour
/// that the crate's tables give for `path`. The colour is `#` and six
/// hexadecimal digits: every entry of the dark table and both defaults are
/// written so. Nothing is claimed of which entry it is: the crate looks at
/// the name and the extension, and it also asks the file system whether the
/// path is a directory.
#[verifier::external_body]
pub(crate) fn classified_icon(path: &str) -> (found: (char, String))
    ensures
        is_color_text(found.1@),
{
    let found = devicons::icon_for_file(std::path::Path::new(path), &Some(devicons::Theme::Dark));
    (found.icon, found.color.to_string())
}

/// The glyph and colour of an entry, given what the icon tables say of it:
/// a directory has its own, whatever the tables say.
pub open spec fn chosen_icon(is_dir: bool, classified: (char, Seq<char>)) -> (char, Seq<char>) {
    if is_dir {
        (DIRECTORY_ICON, DIRECTORY_COLOR@)
    } else {
        classified
    }
}

/// The two colours that the library fixes itself are colour strings that
/// parse.
pub proof fn lemma_fixed_colors_parse()
    ensures
        is_color_text(DIRECTORY_COLOR@),
        is_color_text(SYMLINK_COLOR@),
{
    reveal_strlit("#3483eb");
    reveal_strlit("#09bfc9");
    let directory = DIRECTORY_COLOR@;
    let symlink = SYMLINK_COLOR@;
    assert(is_ascii_chars(directory));
    assert(is_ascii_chars(symlink));
    is_ascii_chars_encode_utf8(directory);
    is_ascii_chars_encode_utf8(symlink);
    let directory_bytes = encode_utf8(directory);
    let symlink_bytes = encode_utf8(symlink);
    assert forall|i: int| 1 <= i < 7 implies hex_value(#[trigger] directory_bytes[i]) is Some by {
        assert(directory_bytes[i] == directory[i] as u8);
    }
    assert forall|i: int| 1 <= i < 7 implies hex_value(#[trigger] symlink_bytes[i]) is Some by {
        assert(symlink_bytes[i] == symlink[i] as u8);
    }
    assert(directory_bytes[0] == directory[0] as u8);
    assert(symlink_bytes[0] == symlink[0] as u8);
}

/// Chooses between the directory's glyph and colour and the classified ones.
pub fn choose_icon(is_dir: bool, classified: (char, String)) -> (chosen: (char, String))
    ensures
        (chosen.0, chosen.1@) == chosen_icon(is_dir, (classified.0, classified.1@)),
{
    if is_dir {
        (DIRECTORY_ICON, String::from_str(DIRECTORY_COLOR))
    } else {
        classified
    }
}

/// The glyph and colour for the entry at `path`. For a directory they are
/// fixed and the icon tables are not asked. The colour is a colour string
/// that parses, whichever it is.
pub fn icon_for(path: &str, is_dir: bool) -> (chosen: (char, String))
    ensures
        is_dir ==> chosen.0 == DIRECTORY_ICON && chosen.1@ == DIRECTORY_COLOR@,
        is_color_text(chosen.1@),
{
    proof {
        lemma_fixed_colors_parse();
    }
    if is_dir {
        (DIRECTORY_ICON, String::from_str(DIRECTORY_COLOR))
    } else {
        choose_icon(false, classified_icon(path))
    }
}

} // verus!
