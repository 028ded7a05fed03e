use typing_core::normalize::{normalize_key, KeyCommand, RawKey};

#[test]
fn named_keys_follow_the_policy() {
    assert_eq!(normalize_key(RawKey::Escape, false), KeyCommand::Ignore);
    assert_eq!(normalize_key(RawKey::Escape, true), KeyCommand::Ignore);
    assert_eq!(normalize_key(RawKey::Enter, false), KeyCommand::Press('\n'));
    assert_eq!(normalize_key(RawKey::Tab, false), KeyCommand::Press('\t'));
    assert_eq!(normalize_key(RawKey::Other, false), KeyCommand::Ignore);
}

#[test]
fn backspace_only_acts_on_pending_mistakes() {
    assert_eq!(normalize_key(RawKey::Backspace, true), KeyCommand::EraseMistake);
    assert_eq!(normalize_key(RawKey::Backspace, false), KeyCommand::Ignore);
}

#[test]
fn characters_pass_the_filter_or_are_dropped() {
    assert_eq!(normalize_key(RawKey::Char('a'), false), KeyCommand::Press('a'));
    assert_eq!(normalize_key(RawKey::Char('Z'), false), KeyCommand::Press('Z'));
    assert_eq!(normalize_key(RawKey::Char('7'), false), KeyCommand::Press('7'));
    assert_eq!(normalize_key(RawKey::Char(' '), false), KeyCommand::Press(' '));
    assert_eq!(normalize_key(RawKey::Char('{'), false), KeyCommand::Press('{'));
    assert_eq!(normalize_key(RawKey::Char(';'), false), KeyCommand::Press(';'));
    // A letter outside ASCII is still alphanumeric.
    assert_eq!(normalize_key(RawKey::Char('é'), false), KeyCommand::Press('é'));
    // A control character is none of alphanumeric, whitespace, punctuation.
    assert_eq!(normalize_key(RawKey::Char('\u{7}'), false), KeyCommand::Ignore);
    // A symbol that is not ASCII punctuation either.
    assert_eq!(normalize_key(RawKey::Char('©'), false), KeyCommand::Ignore);
}
