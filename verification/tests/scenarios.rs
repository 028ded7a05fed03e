use typing_core::state::{Action, GameState, MistakeEntry, Snippet, Status};

fn load(code: &str, language: &str) -> GameState {
    let mut state = GameState::reset();
    let action = Action::NewSnippet(Snippet {
        code: code.chars().collect(),
        language: String::from(language),
    });
    action.apply(&mut state);
    state
}

fn press(state: &mut GameState, key: char) {
    Action::KeyPress(key).apply(state);
}

#[test]
fn tab_is_skipped_on_the_correct_path() {
    let mut state = load("ab\tc", "Rust");

    press(&mut state, 'a');
    assert_eq!(state.code.correct, vec!['a']);
    assert_eq!(state.code.cursor, Some('b'));

    press(&mut state, 'b');
    assert_eq!(state.code.correct, vec!['a', 'b', '\t']);
    assert_eq!(state.code.cursor, Some('c'));

    press(&mut state, 'c');
    assert_eq!(state.code.correct, vec!['a', 'b', '\t', 'c']);
    assert_eq!(state.code.cursor, None);
    assert_eq!(state.status, Status::Passed);
    assert_eq!(state.stats.progress, 100);
}

#[test]
fn mistakes_are_buffered_and_backspaced() {
    let mut state = load("hi", "Rust");

    press(&mut state, 'x');
    assert_eq!(state.stats.mistakes, 1);
    assert_eq!(state.code.wrong, vec![MistakeEntry::Glyph('h')]);
    assert_eq!(state.code.cursor, Some('i'));

    press(&mut state, 'i');
    // With a mistake pending every key is buffered, and each buffered key
    // counts as a further mistake.
    assert_eq!(
        state.code.wrong,
        vec![MistakeEntry::Glyph('h'), MistakeEntry::Glyph('i')]
    );
    assert_eq!(state.code.cursor, None);
    assert_eq!(state.stats.mistakes, 2);

    Action::BackSpace.apply(&mut state);
    assert_eq!(state.code.wrong, vec![MistakeEntry::Glyph('h')]);
    assert_eq!(state.code.cursor, Some('i'));

    Action::BackSpace.apply(&mut state);
    assert_eq!(state.code.wrong, vec![]);
    assert_eq!(state.code.cursor, Some('h'));
    assert_eq!(state.code.remaining, vec!['i']);
    // Backspacing never refunds the mistake count.
    assert_eq!(state.stats.mistakes, 2);
}

#[test]
fn empty_snippet_is_an_exhausted_idle_session() {
    let state = load("", "Rust");
    assert_eq!(state.code.cursor, None);
    assert_eq!(state.code.remaining, vec![]);
    assert_eq!(state.stats.progress, 0);
    assert_eq!(state.status, Status::Idle);
}

#[test]
fn eleventh_mistake_is_dropped_at_capacity() {
    let mut state = load("abcdefghijkl", "Rust");

    for _ in 0..10 {
        press(&mut state, 'z');
    }
    assert_eq!(state.code.wrong.len(), 10);
    assert_eq!(state.stats.mistakes, 10);
    let cursor_before = state.code.cursor;
    let remaining_before = state.code.remaining.clone();
    let wrong_before = state.code.wrong.clone();

    press(&mut state, 'z');
    assert_eq!(state.code.wrong, wrong_before);
    assert_eq!(state.stats.mistakes, 10);
    assert_eq!(state.code.cursor, cursor_before);
    assert_eq!(state.code.remaining, remaining_before);
}
