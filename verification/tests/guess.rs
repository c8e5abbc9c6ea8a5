use myls::guess::{guess_who, ERR_INVALID_ARGUMENT};

#[test]
fn the_two_words() {
    assert_eq!(guess_who("foo"), Ok(46));
    assert_eq!(guess_who("bar"), Ok(678));
}

#[test]
fn any_other_word() {
    for word in ["", "fo", "fooo", "Foo", "baz", "foo ", " bar", "f\u{f6}o", "foobar"] {
        assert_eq!(guess_who(word), Err("Invalid Argument".to_string()), "word {word:?}");
    }
    assert_eq!(ERR_INVALID_ARGUMENT, "Invalid Argument");
}
