use typing_core::state::{Action, GameState, MistakeEntry, Snippet, Status};

fn load(code: &str, language: &str) -> GameState {
    let mut state = GameState::reset();
    let action = Action::NewSnippet(Snippet {
        code: code.chars().collect(),
        language: String::from(language),
    });
    action.apply(&mut state);
    state
}

fn press(state: &mut GameState, key: char) {
    Action::KeyPress(key).apply(state);
}

#[test]
fn completing_a_snippet_passes_with_full_accuracy() {
    let mut state = load("abc", "Rust");
    assert_eq!(state.status, Status::Idle);

    press(&mut state, 'a');
    assert_eq!(state.status, Status::Playing);
    // The progress denominator is typed plus remaining; the cursor ('b')
    // stands outside both.
    assert_eq!(state.stats.progress, 50);

    press(&mut state, 'b');
    press(&mut state, 'c');
    assert_eq!(state.status, Status::Passed);
    assert_eq!(state.stats.progress, 100);
    assert_eq!(state.stats.accuracy, 100);
}

#[test]
fn accuracy_counts_earlier_corrected_mistakes() {
    let mut state = load("ab", "Rust");
    press(&mut state, 'x');
    Action::BackSpace.apply(&mut state);
    press(&mut state, 'a');
    press(&mut state, 'b');
    assert_eq!(state.status, Status::Passed);
    // 2 correct against 1 mistake: 66.7%, rounded to 67.
    assert_eq!(state.stats.accuracy, 67);
    assert_eq!(state.stats.mistakes, 1);
}

#[test]
fn tick_drives_time_and_wpm() {
    let mut state = load("hello", "Rust");
    press(&mut state, 'h');
    Action::Tick.apply(&mut state);
    assert_eq!(state.stats.time, 1);
    // 1 character in 1 second: 12 words per minute.
    assert_eq!(state.stats.wpm, 12);
    Action::Tick.apply(&mut state);
    assert_eq!(state.stats.time, 2);
    assert_eq!(state.stats.wpm, 6);
}

#[test]
fn backspace_without_mistakes_does_nothing() {
    let mut state = load("hi", "Rust");
    press(&mut state, 'h');
    let before_cursor = state.code.cursor;
    let before_correct = state.code.correct.clone();
    Action::BackSpace.apply(&mut state);
    assert_eq!(state.code.cursor, before_cursor);
    assert_eq!(state.code.correct, before_correct);
    assert_eq!(state.code.wrong, vec![]);
}

#[test]
fn backspace_unwinds_a_mistake_tab_chain() {
    let mut state = load("a\tb", "Rust");
    press(&mut state, 'x');
    // The expected 'a' lands in the mistake buffer and the tab follows it in.
    assert_eq!(
        state.code.wrong,
        vec![MistakeEntry::Glyph('a'), MistakeEntry::Glyph('\t')]
    );
    assert_eq!(state.code.cursor, Some('b'));

    Action::BackSpace.apply(&mut state);
    assert_eq!(state.code.wrong, vec![]);
    assert_eq!(state.code.cursor, Some('a'));
    assert_eq!(state.code.remaining, vec!['\t', 'b']);
}

#[test]
fn a_mistyped_space_is_kept_as_the_space_marker() {
    let mut state = load(" x", "Rust");
    press(&mut state, 'q');
    assert_eq!(state.code.wrong, vec![MistakeEntry::Space]);
    assert_eq!(state.stats.mistakes, 1);

    Action::BackSpace.apply(&mut state);
    assert_eq!(state.code.wrong, vec![]);
    assert_eq!(state.code.cursor, Some(' '));
}

#[test]
fn keys_after_passing_change_nothing_but_status_stays_passed() {
    let mut state = load("a", "Rust");
    press(&mut state, 'a');
    assert_eq!(state.status, Status::Passed);
    let correct_before = state.code.correct.clone();
    press(&mut state, 'z');
    assert_eq!(state.status, Status::Passed);
    assert_eq!(state.code.correct, correct_before);
    assert_eq!(state.code.cursor, None);
    assert_eq!(state.stats.mistakes, 0);
}

#[test]
fn a_key_on_an_empty_snippet_only_starts_play() {
    let mut state = load("", "Rust");
    press(&mut state, 'a');
    assert_eq!(state.status, Status::Playing);
    assert_eq!(state.code.correct, vec![]);
    assert_eq!(state.code.wrong, vec![]);
    assert_eq!(state.stats.progress, 0);
}

#[test]
fn a_trailing_tab_is_skipped_without_passing() {
    // The final match never happens when the snippet ends in a tab: the
    // auto-skip exhausts the cursor outside the completion check.
    let mut state = load("a\t", "Rust");
    press(&mut state, 'a');
    assert_eq!(state.code.correct, vec!['a', '\t']);
    assert_eq!(state.code.cursor, None);
    assert_eq!(state.status, Status::Playing);
}

#[test]
fn a_leading_tab_must_be_typed() {
    let mut state = load("\tx", "Rust");
    assert_eq!(state.code.cursor, Some('\t'));
    press(&mut state, '\t');
    assert_eq!(state.code.correct, vec!['\t']);
    assert_eq!(state.code.cursor, Some('x'));
}

#[test]
fn line_count_is_breaks_less_one_clamped() {
    assert_eq!(load("", "Rust").code.lines, 0);
    assert_eq!(load("no breaks", "Rust").code.lines, 0);
    // One break without a trailing break still displays as zero extra lines.
    assert_eq!(load("a\nb", "Rust").code.lines, 0);
    // A trailing break closes the last line: two breaks give line count 1.
    assert_eq!(load("a\nb\n", "Rust").code.lines, 1);
    assert_eq!(load("a\nb\nc\n", "Rust").code.lines, 2);
}

#[test]
fn newlines_are_typed_like_any_character() {
    let mut state = load("a\nb", "Rust");
    press(&mut state, 'a');
    press(&mut state, '\n');
    press(&mut state, 'b');
    assert_eq!(state.status, Status::Passed);
    assert_eq!(state.code.correct, vec!['a', '\n', 'b']);
}

#[test]
fn reset_returns_to_the_default_shape() {
    let mut state = load("hi", "Rust");
    press(&mut state, 'x');
    Action::Tick.apply(&mut state);
    Action::Reset.apply(&mut state);
    assert_eq!(state.status, Status::Idle);
    assert_eq!(state.code.cursor, None);
    assert_eq!(state.code.remaining, vec![]);
    assert_eq!(state.code.correct, vec![]);
    assert_eq!(state.code.wrong, vec![]);
    assert_eq!(state.stats.mistakes, 0);
    assert_eq!(state.stats.time, 0);
    assert_eq!(state.language, String::new());
}

#[test]
fn language_label_is_kept_from_the_snippet() {
    let state = load("fn x() {}", "Rust");
    assert_eq!(state.language, String::from("Rust"));
}

#[test]
fn a_wrong_key_after_mistakes_buffers_even_when_it_matches() {
    // With a pending mistake the matching path is gated: a key equal to the
    // cursor still lands in the mistake buffer.
    let mut state = load("hi", "Rust");
    press(&mut state, 'x');
    assert_eq!(state.code.correct, vec![]);
    press(&mut state, 'i');
    assert_eq!(state.code.correct, vec![]);
    assert_eq!(state.stats.mistakes, 2);
    assert_eq!(
        state.code.wrong,
        vec![MistakeEntry::Glyph('h'), MistakeEntry::Glyph('i')]
    );
}
