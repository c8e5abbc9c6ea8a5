//! A word game with two right answers.

use vstd::prelude::*;
use vstd::string::StringExecFns;
use crate::text::chars_of;

verus! {

/// The error for a word that is neither of the two.
pub const ERR_INVALID_ARGUMENT: &'static str = "Invalid Argument";

/// The number that goes with a word: 46 with `foo`, 678 with `bar`, none with
/// any other word.
pub open spec fn number_of(word: Seq<char>) -> Option<u32> {
    if word == seq!['f', 'o', 'o'] {
        Some(46u32)
    } else if word == seq!['b', 'a', 'r'] {
        Some(678u32)
    } else {
        None
    }
}

/// Tells the number that goes with `val`, and fails for a word that has none.
pub fn guess_who(val: &str) -> (result: Result<u32, String>)
    ensures
        match number_of(val@) {
            Some(number) => result == Ok::<u32, String>(number),
            None => result matches Err(words) && words@ == ERR_INVALID_ARGUMENT@,
        },
{
    let word = chars_of(val);
    if word.len() == 3 && word[0] == 'f' && word[1] == 'o' && word[2] == 'o' {
        assert(word@ =~= seq!['f', 'o', 'o']);
        Ok(46)
    } else if word.len() == 3 && word[0] == 'b' && word[1] == 'a' && word[2] == 'r' {
        assert(word@ =~= seq!['b', 'a', 'r']);
        Ok(678)
    } else {
        Err(String::from_str(ERR_INVALID_ARGUMENT))
    }
}

} // verus!
