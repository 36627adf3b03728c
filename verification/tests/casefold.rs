use miau::casefold::equals_irc_case_insensitive;

#[test]
fn folds_brackets_and_backslash() {
    assert!(equals_irc_case_insensitive("[MIAU]\\", "{miau}|"));
}

#[test]
fn different_lengths_never_equal() {
    assert!(!equals_irc_case_insensitive("miau", "miau_"));
    assert!(!equals_irc_case_insensitive("", "a"));
}

#[test]
fn folds_ascii_letters() {
    assert!(equals_irc_case_insensitive("MiAu", "mIaU"));
    assert!(equals_irc_case_insensitive("", ""));
    assert!(!equals_irc_case_insensitive("miau", "miaw"));
}

#[test]
fn digits_and_punctuation_unchanged() {
    assert!(equals_irc_case_insensitive("a1-2", "A1-2"));
    assert!(equals_irc_case_insensitive("[", "{"));
    assert!(equals_irc_case_insensitive("{", "["));
    assert!(!equals_irc_case_insensitive("a.b", "a_b"));
}
