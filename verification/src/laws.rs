//! The session's laws, stated over the model transitions of [`crate::state`]
//! and proved once and for all.
//!
//! The reference text is not stored in the session; it is recoverable at any
//! time as the concatenation of the correct buffer, the decoded mistake
//! buffer, the cursor and the remaining text ([`reference_view`]). The key
//! laws say that every in-session action preserves that reconstruction, that
//! the mistake window stays within its bound, that mistakes gate progress,
//! that a backspace undoes a mistaken key press, and that typing a snippet
//! through completes the session.

use crate::state::{
    decode_mistake, encode_mistake, next_cursor, pop_tabs, skip_tabs_correct, skip_tabs_wrong,
    spec_back_space, spec_key_press, spec_new_snippet, spec_reset, spec_tick, GameModel,
    MistakeEntry, Status,
};
use crate::stats::{sat64, spec_progress};
use vstd::arithmetic::div_mod::lemma_div_by_multiple;
use vstd::prelude::*;

verus! {

/// The reference characters a mistake buffer stands for.
pub open spec fn decoded_mistakes(wrong: Seq<MistakeEntry>) -> Seq<char> {
    wrong.map_values(|e: MistakeEntry| decode_mistake(e))
}

/// The cursor as a sequence: one character, or empty when absent.
pub open spec fn cursor_chars(c: Option<char>) -> Seq<char> {
    match c {
        Some(x) => seq![x],
        None => Seq::empty(),
    }
}

/// The reference text reconstructed from a session: what was typed
/// correctly, then the pending mistakes, then the cursor, then the rest.
pub open spec fn reference_view(m: GameModel) -> Seq<char> {
    m.code.correct + decoded_mistakes(m.code.wrong) + cursor_chars(m.code.cursor)
        + m.code.remaining
}

/// The reference characters still in front of the cursor, cursor included.
pub open spec fn chars_left(m: GameModel) -> nat {
    cursor_chars(m.code.cursor).len() + m.code.remaining.len()
}

/// The correct-path tab skip moves characters, never invents or loses any.
proof fn lemma_skip_tabs_correct_chars(cursor: Option<char>, remaining: Seq<char>, correct: Seq<char>)
    ensures
        ({
            let r = skip_tabs_correct(cursor, remaining, correct);
            r.2 + cursor_chars(r.0) + r.1 == correct + cursor_chars(cursor) + remaining
        }),
    decreases remaining.len(),
{
    if cursor == Some('\t') {
        if remaining.len() == 0 {
            assert(correct.push('\t') + cursor_chars(None) + remaining =~= correct + cursor_chars(
                cursor,
            ) + remaining);
        } else {
            lemma_skip_tabs_correct_chars(
                Some(remaining[0]),
                remaining.drop_first(),
                correct.push('\t'),
            );
            assert(correct.push('\t') + cursor_chars(Some(remaining[0]))
                + remaining.drop_first() =~= correct + cursor_chars(cursor) + remaining);
        }
    }
}

/// The mistake-path tab skip moves characters, never invents or loses any.
proof fn lemma_skip_tabs_wrong_chars(
    cursor: Option<char>,
    remaining: Seq<char>,
    wrong: Seq<MistakeEntry>,
)
    ensures
        ({
            let r = skip_tabs_wrong(cursor, remaining, wrong);
            decoded_mistakes(r.2) + cursor_chars(r.0) + r.1 == decoded_mistakes(wrong)
                + cursor_chars(cursor) + remaining
        }),
    decreases remaining.len(),
{
    assert forall|w: Seq<MistakeEntry>, e: MistakeEntry|
        decoded_mistakes(w.push(e)) == decoded_mistakes(w).push(decode_mistake(e)) by {
        assert(decoded_mistakes(w.push(e)) =~= decoded_mistakes(w).push(decode_mistake(e)));
    }
    if cursor == Some('\t') {
        let wrong1 = wrong.push(MistakeEntry::Glyph('\t'));
        if remaining.len() == 0 {
            assert(decoded_mistakes(wrong1) + cursor_chars(None) + remaining =~= decoded_mistakes(
                wrong,
            ) + cursor_chars(cursor) + remaining);
        } else {
            lemma_skip_tabs_wrong_chars(Some(remaining[0]), remaining.drop_first(), wrong1);
            assert(decoded_mistakes(wrong1) + cursor_chars(Some(remaining[0]))
                + remaining.drop_first() =~= decoded_mistakes(wrong) + cursor_chars(cursor)
                + remaining);
        }
    }
}

/// The backspace tab undo chain moves characters, never invents or loses any.
proof fn lemma_pop_tabs_chars(wrong: Seq<MistakeEntry>, cursor: Option<char>, remaining: Seq<char>)
    ensures
        ({
            let r = pop_tabs(wrong, cursor, remaining);
            decoded_mistakes(r.0) + cursor_chars(r.1) + r.2 == decoded_mistakes(wrong)
                + cursor_chars(cursor) + remaining
        }),
    decreases wrong.len(),
{
    if cursor == Some('\t') {
        if wrong.len() == 0 {
            assert(decoded_mistakes(wrong) + cursor_chars(None) + (seq!['\t']
                + remaining) =~= decoded_mistakes(wrong) + cursor_chars(cursor) + remaining);
        } else {
            lemma_pop_tabs_chars(
                wrong.drop_last(),
                Some(decode_mistake(wrong.last())),
                seq!['\t'] + remaining,
            );
            assert(decoded_mistakes(wrong.drop_last()) + cursor_chars(
                Some(decode_mistake(wrong.last())),
            ) + (seq!['\t'] + remaining) =~= decoded_mistakes(wrong) + cursor_chars(cursor)
                + remaining) by {
                assert(decoded_mistakes(wrong) =~= decoded_mistakes(wrong.drop_last()).push(
                    decode_mistake(wrong.last()),
                ));
            }
        }
    }
}

/// Law: a key press never changes the reference text a session stands for.
pub proof fn lemma_key_press_preserves_reference(m: GameModel, k: char)
    ensures
        reference_view(spec_key_press(m, k)) == reference_view(m),
{
    let m1 = spec_key_press(m, k);
    match m.code.cursor {
        None => {
            assert(reference_view(m1) =~= reference_view(m));
        },
        Some(c) => {
            let step = next_cursor(m.code.remaining);
            assert(cursor_chars(step.0) + step.1 =~= m.code.remaining);
            if m.code.wrong.len() == 0 && c == k {
                lemma_skip_tabs_correct_chars(step.0, step.1, m.code.correct.push(c));
                let r = skip_tabs_correct(step.0, step.1, m.code.correct.push(c));
                assert(decoded_mistakes(m.code.wrong) =~= Seq::<char>::empty());
                assert(reference_view(m1) =~= r.2 + cursor_chars(r.0) + r.1);
                assert(m.code.correct.push(c) + cursor_chars(step.0) + step.1 =~= reference_view(
                    m,
                ));
            } else if m.code.wrong.len() < 10 {
                let wrong1 = m.code.wrong.push(encode_mistake(c));
                lemma_skip_tabs_wrong_chars(step.0, step.1, wrong1);
                let r = skip_tabs_wrong(step.0, step.1, wrong1);
                assert(decoded_mistakes(wrong1) =~= decoded_mistakes(m.code.wrong).push(c)) by {
                    assert(decode_mistake(encode_mistake(c)) == c);
                    assert(decoded_mistakes(wrong1) =~= decoded_mistakes(m.code.wrong).push(
                        decode_mistake(encode_mistake(c)),
                    ));
                }
                assert(reference_view(m1) =~= m.code.correct + (decoded_mistakes(r.2)
                    + cursor_chars(r.0) + r.1));
                assert(m.code.correct + (decoded_mistakes(wrong1) + cursor_chars(step.0)
                    + step.1) =~= reference_view(m));
            } else {
                assert(reference_view(m1) =~= reference_view(m));
            }
        },
    }
}

/// Law: a backspace never changes the reference text a session stands for.
pub proof fn lemma_back_space_preserves_reference(m: GameModel)
    ensures
        reference_view(spec_back_space(m)) == reference_view(m),
{
    if m.code.wrong.len() > 0 {
        let m1 = spec_back_space(m);
        let rem0 = match m.code.cursor {
            Some(c) => seq![c] + m.code.remaining,
            None => m.code.remaining,
        };
        assert(cursor_chars(m.code.cursor) + m.code.remaining =~= rem0);
        let w1 = m.code.wrong.drop_last();
        let cur1 = Some(decode_mistake(m.code.wrong.last()));
        lemma_pop_tabs_chars(w1, cur1, rem0);
        let r = pop_tabs(w1, cur1, rem0);
        assert(decoded_mistakes(m.code.wrong) =~= decoded_mistakes(w1).push(
            decode_mistake(m.code.wrong.last()),
        ));
        assert(reference_view(m1) =~= m.code.correct + (decoded_mistakes(r.0) + cursor_chars(r.1)
            + r.2));
        assert(m.code.correct + (decoded_mistakes(w1) + cursor_chars(cur1) + rem0)
            =~= reference_view(m));
    }
}

/// Law: a tick never changes the reference text a session stands for.
pub proof fn lemma_tick_preserves_reference(m: GameModel)
    ensures
        reference_view(spec_tick(m)) == reference_view(m),
{
}

/// Law: loading a snippet makes the session stand for exactly its body.
pub proof fn lemma_new_snippet_reference(code: Seq<char>, language: Seq<char>)
    ensures
        reference_view(spec_new_snippet(code, language)) == code,
{
    let m = spec_new_snippet(code, language);
    assert(decoded_mistakes(m.code.wrong) =~= Seq::<char>::empty());
    if code.len() == 0 {
        assert(reference_view(m) =~= code);
    } else {
        assert(reference_view(m) =~= code);
    }
}

/// Length conservation: the four parts of a session always add up to the
/// reconstructed reference text, so no action gains or loses characters.
pub proof fn lemma_length_conservation(m: GameModel)
    ensures
        reference_view(m).len() == m.code.correct.len() + m.code.wrong.len() + cursor_chars(
            m.code.cursor,
        ).len() + m.code.remaining.len(),
{
}

/// Length conservation in its plain form: while no mistake is pending, the
/// typed, cursor and remaining characters make up the whole reference text.
pub proof fn lemma_length_conservation_clean(m: GameModel)
    requires
        m.code.wrong.len() == 0,
    ensures
        m.code.correct.len() + cursor_chars(m.code.cursor).len() + m.code.remaining.len()
            == reference_view(m).len(),
{
}

/// Law: while a mistake is pending, no key press grows the correct buffer;
/// the player must backspace through the mistakes first.
pub proof fn lemma_gated_progress(m: GameModel, k: char)
    requires
        m.code.wrong.len() > 0,
    ensures
        spec_key_press(m, k).code.correct == m.code.correct,
{
}

/// Law: a key press that lands in the mistake buffer without touching a tab
/// is exactly undone by the following backspace — the buffers return to their
/// previous value, while the mistake count keeps the mistake.
pub proof fn lemma_mistake_round_trip(m: GameModel, k: char)
    requires
        m.code.cursor is Some,
        m.code.cursor != Some('\t'),
        !(m.code.wrong.len() == 0 && m.code.cursor == Some(k)),
        m.code.wrong.len() < 10,
        m.code.remaining.len() > 0 ==> m.code.remaining[0] != '\t',
    ensures
        spec_back_space(spec_key_press(m, k)).code == m.code,
        spec_back_space(spec_key_press(m, k)).stats.mistakes == sat64(m.stats.mistakes + 1),
        spec_back_space(spec_key_press(m, k)).code.correct == m.code.correct,
{
    let c = m.code.cursor->Some_0;
    let m1 = spec_key_press(m, k);
    let step = next_cursor(m.code.remaining);
    let wrong1 = m.code.wrong.push(encode_mistake(c));
    assert(step.0 != Some('\t'));
    assert(skip_tabs_wrong(step.0, step.1, wrong1) == (step.0, step.1, wrong1));
    let m2 = spec_back_space(m1);
    let rem0 = match m1.code.cursor {
        Some(x) => seq![x] + m1.code.remaining,
        None => m1.code.remaining,
    };
    assert(rem0 =~= m.code.remaining);
    assert(decode_mistake(encode_mistake(c)) == c);
    assert(wrong1.last() == encode_mistake(c));
    assert(pop_tabs(wrong1.drop_last(), Some(c), rem0) == (wrong1.drop_last(), Some(c), rem0));
    assert(wrong1.drop_last() =~= m.code.wrong);
    assert(m2.code =~= m.code);
}

/// Law: a key press completes the session exactly when it correctly matches
/// the last reference character; no other press reaches `Passed`.
pub proof fn lemma_passes_exactly_on_last_match(m: GameModel, k: char)
    ensures
        spec_key_press(m, k).status == Status::Passed <==> (m.status == Status::Passed || (
        m.code.cursor is Some && m.code.wrong.len() == 0 && m.code.cursor == Some(k)
            && m.code.remaining.len() == 0)),
{
}

/// Law: backspace and tick never change the session status, and backspace
/// leaves every statistic untouched.
pub proof fn lemma_back_space_and_tick_keep_status(m: GameModel)
    ensures
        spec_back_space(m).status == m.status,
        spec_tick(m).status == m.status,
        spec_back_space(m).stats == m.stats,
{
}

/// Law: the mistake count never decreases within a session — a key press can
/// only grow it, and backspace and tick leave it alone.
pub proof fn lemma_mistake_count_monotone(m: GameModel, k: char)
    requires
        m.stats.mistakes <= u64::MAX,
    ensures
        spec_key_press(m, k).stats.mistakes >= m.stats.mistakes,
        spec_back_space(m).stats.mistakes == m.stats.mistakes,
        spec_tick(m).stats.mistakes == m.stats.mistakes,
{
}

/// No tab anywhere ahead of or behind the cursor, and none recorded as a
/// mistake. Loading a tab-free snippet establishes this, and every action
/// keeps it.
pub open spec fn tab_free(m: GameModel) -> bool {
    &&& m.code.cursor != Some('\t')
    &&& (forall|i: int| 0 <= i < m.code.remaining.len() ==> m.code.remaining[i] != '\t')
    &&& (forall|i: int|
        0 <= i < m.code.wrong.len() ==> m.code.wrong[i] != MistakeEntry::Glyph('\t'))
}

/// Law: for tab-free snippets the mistake window never exceeds ten entries.
/// (Its length is a count and so never negative.) A snippet with a tab right
/// after the tenth pending mistake can push the window past ten through the
/// auto-skip, which is why the bound is stated for tab-free sessions.
pub proof fn lemma_mistake_bound_key_press(m: GameModel, k: char)
    requires
        tab_free(m),
        m.code.wrong.len() <= 10,
    ensures
        tab_free(spec_key_press(m, k)),
        spec_key_press(m, k).code.wrong.len() <= 10,
{
    let m1 = spec_key_press(m, k);
    if m.code.cursor is Some {
        let c = m.code.cursor->Some_0;
        let step = next_cursor(m.code.remaining);
        assert(step.0 != Some('\t'));
        assert(forall|i: int| 0 <= i < step.1.len() ==> step.1[i] != '\t') by {
            if m.code.remaining.len() > 0 {
                assert(forall|i: int|
                    0 <= i < m.code.remaining.drop_first().len()
                        ==> m.code.remaining.drop_first()[i] == m.code.remaining[i + 1]);
            }
        }
        if m.code.wrong.len() == 0 && c == k {
            assert(skip_tabs_correct(step.0, step.1, m.code.correct.push(c)) == (
                step.0,
                step.1,
                m.code.correct.push(c),
            ));
        } else if m.code.wrong.len() < 10 {
            let wrong1 = m.code.wrong.push(encode_mistake(c));
            assert(encode_mistake(c) != MistakeEntry::Glyph('\t'));
            assert(forall|i: int| 0 <= i < wrong1.len() ==> wrong1[i] != MistakeEntry::Glyph('\t'));
            assert(skip_tabs_wrong(step.0, step.1, wrong1) == (step.0, step.1, wrong1));
        }
    }
}

/// Law: a backspace keeps the session tab-free and only shrinks the mistake
/// window.
pub proof fn lemma_mistake_bound_back_space(m: GameModel)
    requires
        tab_free(m),
        m.code.wrong.len() <= 10,
    ensures
        tab_free(spec_back_space(m)),
        spec_back_space(m).code.wrong.len() <= m.code.wrong.len(),
{
    if m.code.wrong.len() > 0 {
        let rem0 = match m.code.cursor {
            Some(c) => seq![c] + m.code.remaining,
            None => m.code.remaining,
        };
        assert(forall|i: int| 0 <= i < rem0.len() ==> rem0[i] != '\t');
        let cur1 = Some(decode_mistake(m.code.wrong.last()));
        assert(cur1 != Some('\t'));
        let w1 = m.code.wrong.drop_last();
        assert(pop_tabs(w1, cur1, rem0) == (w1, cur1, rem0));
        assert(forall|i: int| 0 <= i < w1.len() ==> w1[i] != MistakeEntry::Glyph('\t'));
    }
}

/// Law: loading a tab-free snippet yields a tab-free session with an empty
/// mistake window; a tick changes neither.
pub proof fn lemma_mistake_bound_base(m: GameModel, code: Seq<char>, language: Seq<char>)
    requires
        forall|i: int| 0 <= i < code.len() ==> code[i] != '\t',
    ensures
        tab_free(spec_new_snippet(code, language)),
        spec_new_snippet(code, language).code.wrong.len() == 0,
        tab_free(spec_reset()),
        spec_reset().code.wrong.len() == 0,
        tab_free(m) ==> tab_free(spec_tick(m)),
        spec_tick(m).code.wrong.len() == m.code.wrong.len(),
{
    if code.len() > 0 {
        assert(forall|i: int|
            0 <= i < code.drop_first().len() ==> code.drop_first()[i] == code[i + 1]);
    }
}

/// The cursor and remaining text never grow under the correct-path tab skip.
proof fn lemma_skip_tabs_correct_left(
    cursor: Option<char>,
    remaining: Seq<char>,
    correct: Seq<char>,
)
    ensures
        ({
            let r = skip_tabs_correct(cursor, remaining, correct);
            cursor_chars(r.0).len() + r.1.len() <= cursor_chars(cursor).len() + remaining.len()
        }),
    decreases remaining.len(),
{
    if cursor == Some('\t') && remaining.len() > 0 {
        lemma_skip_tabs_correct_left(Some(remaining[0]), remaining.drop_first(), correct.push('\t'));
    }
}

/// When the last character ahead is no tab, the correct-path skip always
/// lands the cursor on a character (never exhausts), and what it leaves
/// still ends in no tab.
proof fn lemma_skip_tabs_correct_tail(
    cursor: Option<char>,
    remaining: Seq<char>,
    correct: Seq<char>,
)
    requires
        cursor is Some,
        remaining.len() > 0 ==> remaining.last() != '\t',
        remaining.len() == 0 ==> cursor != Some('\t'),
    ensures
        ({
            let r = skip_tabs_correct(cursor, remaining, correct);
            &&& r.0 is Some
            &&& r.0 != Some('\t')
            &&& (r.1.len() > 0 ==> r.1.last() != '\t')
            &&& (r.1.len() == 0 ==> r.0 != Some('\t'))
        }),
    decreases remaining.len(),
{
    if cursor == Some('\t') {
        assert(remaining.len() > 0);
        if remaining.len() > 1 {
            assert(remaining.drop_first().last() == remaining.last());
        }
        lemma_skip_tabs_correct_tail(Some(remaining[0]), remaining.drop_first(), correct.push('\t'));
    }
}

/// One correct key press with no pending mistake: the mistake window stays
/// empty and the characters left to type strictly shrink.
proof fn lemma_correct_press_shape(m: GameModel, c: char)
    requires
        m.code.wrong.len() == 0,
        m.code.cursor == Some(c),
    ensures
        spec_key_press(m, c).code.wrong.len() == 0,
        chars_left(spec_key_press(m, c)) < chars_left(m),
{
    let step = next_cursor(m.code.remaining);
    lemma_skip_tabs_correct_left(step.0, step.1, m.code.correct.push(c));
}

/// The session reached by typing, one by one, exactly the character under
/// the cursor until the snippet is exhausted.
pub open spec fn type_all(m: GameModel) -> GameModel
    decreases chars_left(m),
        when m.code.wrong.len() == 0
        via type_all_decreases
{
    match m.code.cursor {
        None => m,
        Some(c) => type_all(spec_key_press(m, c)),
    }
}

#[via_fn]
proof fn type_all_decreases(m: GameModel) {
    if m.code.cursor is Some {
        lemma_correct_press_shape(m, m.code.cursor->Some_0);
    }
}

/// Law (completion): from a session with no pending mistake, a cursor on a
/// character, and no tab as the last character ahead, typing every character
/// correctly in order ends with status `Passed`, the cursor absent, nothing
/// remaining, progress 100, and the whole reference text in the correct
/// buffer. (With a trailing tab the auto-skip exhausts the snippet without a
/// final match, so the session stays `Playing`: the snippet `a` followed by
/// a tab is such an input.)
pub proof fn lemma_completion(m: GameModel)
    requires
        m.code.wrong.len() == 0,
        m.code.cursor is Some,
        m.code.remaining.len() > 0 ==> m.code.remaining.last() != '\t',
    ensures
        type_all(m).status == Status::Passed,
        type_all(m).code.cursor is None,
        type_all(m).code.remaining.len() == 0,
        type_all(m).code.wrong.len() == 0,
        type_all(m).stats.progress == 100,
        type_all(m).code.correct == reference_view(m),
    decreases chars_left(m),
{
    let c = m.code.cursor->Some_0;
    let m1 = spec_key_press(m, c);
    lemma_correct_press_shape(m, c);
    lemma_key_press_preserves_reference(m, c);
    let step = next_cursor(m.code.remaining);
    let correct1 = m.code.correct.push(c);
    if m.code.remaining.len() == 0 {
        assert(skip_tabs_correct(step.0, step.1, correct1) == (step.0, step.1, correct1));
        lemma_progress_full(correct1.len());
        assert(type_all(m1) == m1);
        assert(reference_view(m1) =~= m1.code.correct);
    } else {
        assert(step.1.len() > 0 ==> step.1.last() == m.code.remaining.last());
        assert(step.1.len() == 0 ==> step.0 == Some(m.code.remaining.last()));
        lemma_skip_tabs_correct_tail(step.0, step.1, correct1);
        lemma_completion(m1);
    }
    assert(type_all(m) == type_all(m1));
}

/// A session with typed characters and nothing left is at full progress.
proof fn lemma_progress_full(n: nat)
    requires
        n > 0,
    ensures
        spec_progress(n, 0) == 100,
{
    assert(n * 100 == 100 * (n as int));
    lemma_div_by_multiple(100, n as int);
}

/// Bounded statistics: progress and accuracy stay within 0 to 100 under
/// every action (words per minute is unsigned by type).
pub open spec fn stats_bounded(m: GameModel) -> bool {
    m.stats.progress <= 100 && m.stats.accuracy <= 100
}

/// Law: the bounds on progress and accuracy hold initially and are kept by
/// every transition.
pub proof fn lemma_bounded_outputs(m: GameModel, k: char, code: Seq<char>, language: Seq<char>)
    ensures
        stats_bounded(spec_reset()),
        stats_bounded(spec_new_snippet(code, language)),
        stats_bounded(m) ==> stats_bounded(spec_key_press(m, k)),
        stats_bounded(m) ==> stats_bounded(spec_back_space(m)),
        stats_bounded(m) ==> stats_bounded(spec_tick(m)),
{
    crate::stats::lemma_progress_le_100(
        spec_key_press(m, k).code.correct.len(),
        spec_key_press(m, k).code.remaining.len(),
    );
    if m.code.cursor is Some {
        let c = m.code.cursor->Some_0;
        if m.code.wrong.len() == 0 && c == k {
            crate::stats::lemma_accuracy_le_100(m.code.correct.push(c).len(), m.stats.mistakes);
        }
        crate::stats::lemma_progress_le_100(
            m.code.correct.len(),
            spec_key_press(m, k).code.remaining.len(),
        );
    }
    crate::stats::lemma_progress_le_100(m.code.correct.len(), m.code.remaining.len());
}

} // verus!
