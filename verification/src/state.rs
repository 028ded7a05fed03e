//! The keystroke state machine: a session over a fixed reference snippet,
//! driven by load, key-press, backspace, tick and reset actions.
//!
//! Buffers are sequences of Unicode scalar values. A mistyped position stores
//! the *reference* character that was expected; a mistyped space is kept as a
//! structured marker so that it stays distinguishable when rendered. Tab
//! characters are never typed: the cursor skips them automatically, on the
//! correct path and on the mistake path alike, and backspacing undoes the
//! skip chain in order.

use crate::stats::{
    calculate_accuracy, calculate_progress, calculate_wpm, sat64, spec_accuracy, spec_progress,
    spec_wpm,
};
use vstd::prelude::*;

verus! {

/// Lifecycle of one session: `Idle` until the first accepted key, `Playing`
/// while typing, `Passed` once the whole snippet has been matched.
#[derive(Clone, Copy, PartialEq, Eq, Structural, Debug)]
pub enum Status {
    Idle,
    Playing,
    Passed,
}

/// One pending mistake: the reference character that was expected. A space
/// is stored as its own variant so a rendered mistake stays visible without
/// reserving any real glyph for it.
#[derive(Clone, Copy, PartialEq, Eq, Structural, Debug)]
pub enum MistakeEntry {
    Space,
    Glyph(char),
}

/// How a reference character is stored in the mistake buffer.
pub open spec fn encode_mistake(c: char) -> MistakeEntry {
    if c == ' ' {
        MistakeEntry::Space
    } else {
        MistakeEntry::Glyph(c)
    }
}

/// The reference character a mistake entry stands for.
pub open spec fn decode_mistake(e: MistakeEntry) -> char {
    match e {
        MistakeEntry::Space => ' ',
        MistakeEntry::Glyph(c) => c,
    }
}

/// Exec form of [`encode_mistake`].
pub fn encode_entry(c: char) -> (e: MistakeEntry)
    ensures
        e == encode_mistake(c),
{
    if c == ' ' {
        MistakeEntry::Space
    } else {
        MistakeEntry::Glyph(c)
    }
}

/// Exec form of [`decode_mistake`].
pub fn decode_entry(e: MistakeEntry) -> (c: char)
    ensures
        c == decode_mistake(e),
{
    match e {
        MistakeEntry::Space => ' ',
        MistakeEntry::Glyph(c) => c,
    }
}

/// The text buffers of a session.
#[derive(Clone)]
pub struct Code {
    /// Displayed line count of the snippet, derived at load time.
    pub lines: usize,
    /// The character to type next, absent once the snippet is exhausted.
    pub cursor: Option<char>,
    /// Reference characters not yet reached by the cursor.
    pub remaining: Vec<char>,
    /// Characters matched so far, auto-skipped tabs included.
    pub correct: Vec<char>,
    /// Pending mistakes, in the order they were made.
    pub wrong: Vec<MistakeEntry>,
}

/// Derived statistics of a session.
#[derive(Clone, Copy)]
pub struct Stats {
    /// Share of the snippet typed correctly, 0 to 100.
    pub progress: u8,
    /// Mistakes made since load; never decreases within a session.
    pub mistakes: u64,
    /// Words per minute, recomputed on every tick.
    pub wpm: u64,
    /// Accuracy 0 to 100, computed once on completion.
    pub accuracy: u8,
    /// Elapsed whole time units.
    pub time: u64,
    /// Reserved; no action updates it.
    pub combos: u8,
}

/// A whole session: buffers, statistics, lifecycle status and the language
/// label of the loaded snippet.
#[derive(Clone)]
pub struct GameState {
    pub code: Code,
    pub stats: Stats,
    pub status: Status,
    pub language: String,
}

/// A snippet to practice on: its body as a sequence of characters, and a
/// language label.
#[derive(Clone)]
pub struct Snippet {
    pub code: Vec<char>,
    pub language: String,
}

/// The action vocabulary of the state machine.
pub enum Action {
    NewSnippet(Snippet),
    KeyPress(char),
    BackSpace,
    Tick,
    Reset,
}

/// Mathematical model of [`Code`].
#[verifier::ext_equal]
pub struct CodeModel {
    pub lines: nat,
    pub cursor: Option<char>,
    pub remaining: Seq<char>,
    pub correct: Seq<char>,
    pub wrong: Seq<MistakeEntry>,
}

/// Mathematical model of [`Stats`].
#[verifier::ext_equal]
pub struct StatsModel {
    pub progress: nat,
    pub mistakes: nat,
    pub wpm: nat,
    pub accuracy: nat,
    pub time: nat,
    pub combos: nat,
}

/// Mathematical model of [`GameState`].
#[verifier::ext_equal]
pub struct GameModel {
    pub code: CodeModel,
    pub stats: StatsModel,
    pub status: Status,
    pub language: Seq<char>,
}

impl View for Code {
    type V = CodeModel;

    open spec fn view(&self) -> CodeModel {
        CodeModel {
            lines: self.lines as nat,
            cursor: self.cursor,
            remaining: self.remaining@,
            correct: self.correct@,
            wrong: self.wrong@,
        }
    }
}

impl View for Stats {
    type V = StatsModel;

    open spec fn view(&self) -> StatsModel {
        StatsModel {
            progress: self.progress as nat,
            mistakes: self.mistakes as nat,
            wpm: self.wpm as nat,
            accuracy: self.accuracy as nat,
            time: self.time as nat,
            combos: self.combos as nat,
        }
    }
}

impl View for GameState {
    type V = GameModel;

    open spec fn view(&self) -> GameModel {
        GameModel {
            code: self.code@,
            stats: self.stats@,
            status: self.status,
            language: self.language@,
        }
    }
}

/// The freshly reset session: everything empty, statistics zero, `Idle`.
pub open spec fn spec_reset() -> GameModel {
    GameModel {
        code: CodeModel {
            lines: 0,
            cursor: None,
            remaining: Seq::empty(),
            correct: Seq::empty(),
            wrong: Seq::empty(),
        },
        stats: StatsModel { progress: 0, mistakes: 0, wpm: 0, accuracy: 0, time: 0, combos: 0 },
        status: Status::Idle,
        language: Seq::empty(),
    }
}

/// Number of line-break characters in a snippet body.
pub open spec fn count_newlines(s: Seq<char>) -> nat
    decreases s.len(),
{
    if s.len() == 0 {
        0
    } else {
        count_newlines(s.drop_last()) + if s.last() == '\n' {
            1nat
        } else {
            0nat
        }
    }
}

/// The session produced by loading a snippet: buffers reset, the cursor on
/// the first character (absent for an empty body), the rest as remaining
/// text, and the displayed line count as the line-break count less one,
/// clamped to zero.
pub open spec fn spec_new_snippet(code: Seq<char>, language: Seq<char>) -> GameModel {
    let base = spec_reset();
    GameModel {
        code: CodeModel {
            lines: if count_newlines(code) >= 1 {
                (count_newlines(code) - 1) as nat
            } else {
                0
            },
            cursor: if code.len() == 0 {
                None
            } else {
                Some(code[0])
            },
            remaining: if code.len() == 0 {
                Seq::empty()
            } else {
                code.drop_first()
            },
            ..base.code
        },
        language,
        ..base
    }
}

/// One clock tick: elapsed time grows by one unit (saturating at the machine
/// bound) and the words-per-minute figure is recomputed.
pub open spec fn spec_tick(m: GameModel) -> GameModel {
    let time = sat64(m.stats.time + 1);
    GameModel {
        stats: StatsModel {
            time,
            wpm: sat64(spec_wpm(time, m.code.correct.len())),
            ..m.stats
        },
        ..m
    }
}

impl Default for Code {
    fn default() -> (r: Code)
        ensures
            r@ == spec_reset().code,
    {
        let r = Code {
            lines: 0,
            cursor: None,
            remaining: Vec::new(),
            correct: Vec::new(),
            wrong: Vec::new(),
        };
        proof {
            assert(r@ =~= spec_reset().code);
        }
        r
    }
}

impl Default for Stats {
    fn default() -> (r: Stats)
        ensures
            r@ == spec_reset().stats,
    {
        Stats { progress: 0, mistakes: 0, wpm: 0, accuracy: 0, time: 0, combos: 0 }
    }
}

impl Default for Status {
    fn default() -> (r: Status)
        ensures
            r == Status::Idle,
    {
        Status::Idle
    }
}

impl Default for GameState {
    fn default() -> (r: GameState)
        ensures
            r@ == spec_reset(),
    {
        let r = GameState {
            code: Code::default(),
            stats: Stats::default(),
            status: Status::default(),
            language: String::new(),
        };
        proof {
            assert(r@ =~= spec_reset());
        }
        r
    }
}

impl GameState {
    /// A fresh session in its default, idle shape.
    pub fn reset() -> (r: GameState)
        ensures
            r@ == spec_reset(),
    {
        GameState::default()
    }
}

/// Taking the next reference character: the new cursor and what is left of
/// the remaining text.
pub open spec fn next_cursor(remaining: Seq<char>) -> (Option<char>, Seq<char>) {
    if remaining.len() == 0 {
        (None::<char>, remaining)
    } else {
        (Some(remaining[0]), remaining.drop_first())
    }
}

/// The auto-skip chain on the correct path: while the cursor sits on a tab,
/// the tab moves into the correct buffer and the cursor advances.
pub open spec fn skip_tabs_correct(cursor: Option<char>, remaining: Seq<char>, correct: Seq<char>) -> (
    Option<char>,
    Seq<char>,
    Seq<char>,
)
    decreases remaining.len(),
{
    if cursor == Some('\t') {
        if remaining.len() == 0 {
            (None::<char>, remaining, correct.push('\t'))
        } else {
            skip_tabs_correct(Some(remaining[0]), remaining.drop_first(), correct.push('\t'))
        }
    } else {
        (cursor, remaining, correct)
    }
}

/// The auto-skip chain on the mistake path: as [`skip_tabs_correct`], but the
/// tabs land in the mistake buffer.
pub open spec fn skip_tabs_wrong(
    cursor: Option<char>,
    remaining: Seq<char>,
    wrong: Seq<MistakeEntry>,
) -> (Option<char>, Seq<char>, Seq<MistakeEntry>)
    decreases remaining.len(),
{
    if cursor == Some('\t') {
        if remaining.len() == 0 {
            (None::<char>, remaining, wrong.push(MistakeEntry::Glyph('\t')))
        } else {
            skip_tabs_wrong(
                Some(remaining[0]),
                remaining.drop_first(),
                wrong.push(MistakeEntry::Glyph('\t')),
            )
        }
    } else {
        (cursor, remaining, wrong)
    }
}

/// The undo chain of a backspace: while the restored cursor is a tab, the tab
/// goes back to the front of the remaining text and the next mistake entry is
/// popped into the cursor, decoding a space marker back to a literal space.
pub open spec fn pop_tabs(wrong: Seq<MistakeEntry>, cursor: Option<char>, remaining: Seq<char>) -> (
    Seq<MistakeEntry>,
    Option<char>,
    Seq<char>,
)
    decreases wrong.len(),
{
    if cursor == Some('\t') {
        if wrong.len() == 0 {
            (wrong, None::<char>, seq!['\t'] + remaining)
        } else {
            pop_tabs(wrong.drop_last(), Some(decode_mistake(wrong.last())), seq!['\t'] + remaining)
        }
    } else {
        (wrong, cursor, remaining)
    }
}

/// One key press against the current session.
///
/// Any press while not yet `Passed` sets the status to `Playing`. With the
/// cursor on a character: a match with an empty mistake buffer appends to the
/// correct buffer and advances (auto-skipping tabs into the correct buffer),
/// and completes the session when the last character was matched; otherwise,
/// with the mistake buffer under its bound of ten, the expected character is
/// recorded as a mistake and the cursor advances (auto-skipping tabs into the
/// mistake buffer); at the bound the key is dropped. Progress is recomputed
/// in every case.
pub open spec fn spec_key_press(m: GameModel, k: char) -> GameModel {
    let status0 = if m.status == Status::Passed {
        Status::Passed
    } else {
        Status::Playing
    };
    match m.code.cursor {
        None => GameModel {
            status: status0,
            stats: StatsModel {
                progress: spec_progress(m.code.correct.len(), m.code.remaining.len()),
                ..m.stats
            },
            ..m
        },
        Some(c) => if m.code.wrong.len() == 0 && c == k {
            let correct1 = m.code.correct.push(c);
            let finished = m.code.remaining.len() == 0;
            let step = next_cursor(m.code.remaining);
            let skipped = skip_tabs_correct(step.0, step.1, correct1);
            GameModel {
                code: CodeModel {
                    cursor: skipped.0,
                    remaining: skipped.1,
                    correct: skipped.2,
                    ..m.code
                },
                stats: StatsModel {
                    progress: spec_progress(skipped.2.len(), skipped.1.len()),
                    accuracy: if finished {
                        spec_accuracy(correct1.len(), m.stats.mistakes)
                    } else {
                        m.stats.accuracy
                    },
                    ..m.stats
                },
                status: if finished {
                    Status::Passed
                } else {
                    status0
                },
                ..m
            }
        } else if m.code.wrong.len() < 10 {
            let wrong1 = m.code.wrong.push(encode_mistake(c));
            let step = next_cursor(m.code.remaining);
            let skipped = skip_tabs_wrong(step.0, step.1, wrong1);
            GameModel {
                code: CodeModel {
                    cursor: skipped.0,
                    remaining: skipped.1,
                    wrong: skipped.2,
                    ..m.code
                },
                stats: StatsModel {
                    progress: spec_progress(m.code.correct.len(), skipped.1.len()),
                    mistakes: sat64(m.stats.mistakes + 1),
                    ..m.stats
                },
                status: status0,
                ..m
            }
        } else {
            GameModel {
                status: status0,
                stats: StatsModel {
                    progress: spec_progress(m.code.correct.len(), m.code.remaining.len()),
                    ..m.stats
                },
                ..m
            }
        },
    }
}

/// One backspace. With no pending mistake nothing happens. Otherwise the
/// cursor (if present) returns to the front of the remaining text, the last
/// mistake entry is popped into the cursor, and the tab undo chain of
/// [`pop_tabs`] runs. Statistics and status are untouched; in particular the
/// mistake count keeps every mistake ever made.
pub open spec fn spec_back_space(m: GameModel) -> GameModel {
    if m.code.wrong.len() == 0 {
        m
    } else {
        let rem0 = match m.code.cursor {
            Some(c) => seq![c] + m.code.remaining,
            None => m.code.remaining,
        };
        let popped = pop_tabs(
            m.code.wrong.drop_last(),
            Some(decode_mistake(m.code.wrong.last())),
            rem0,
        );
        GameModel {
            code: CodeModel { wrong: popped.0, cursor: popped.1, remaining: popped.2, ..m.code },
            ..m
        }
    }
}

impl Code {
    /// Move the first remaining character (if any) into the cursor.
    fn advance_cursor(&mut self)
        ensures
            (final(self).cursor, final(self).remaining@) == next_cursor(old(self).remaining@),
            final(self).correct@ == old(self).correct@,
            final(self).wrong@ == old(self).wrong@,
            final(self).lines == old(self).lines,
    {
        if self.remaining.len() > 0 {
            let c = self.remaining.remove(0);
            self.cursor = Some(c);
            proof {
                assert(self.remaining@ =~= old(self).remaining@.drop_first());
            }
        } else {
            self.cursor = None;
        }
    }

    /// Run the correct-path tab auto-skip chain.
    fn skip_tabs_into_correct(&mut self)
        ensures
            (final(self).cursor, final(self).remaining@, final(self).correct@) == skip_tabs_correct(
                old(self).cursor,
                old(self).remaining@,
                old(self).correct@,
            ),
            final(self).wrong@ == old(self).wrong@,
            final(self).lines == old(self).lines,
    {
        let ghost target = skip_tabs_correct(self.cursor, self.remaining@, self.correct@);
        let ghost wrong0 = self.wrong@;
        let ghost lines0 = self.lines;
        loop
            invariant
                skip_tabs_correct(self.cursor, self.remaining@, self.correct@) == target,
                self.wrong@ == wrong0,
                self.lines == lines0,
            ensures
                self.cursor != Some('\t'),
                skip_tabs_correct(self.cursor, self.remaining@, self.correct@) == target,
                self.wrong@ == wrong0,
                self.lines == lines0,
            decreases self.remaining@.len() + (if self.cursor == Some('\t') {
                1int
            } else {
                0int
            }),
        {
            let is_tab = match self.cursor {
                Some(c) => c == '\t',
                None => false,
            };
            if !is_tab {
                break ;
            }
            self.correct.push('\t');
            self.advance_cursor();
        }
    }

    /// Run the mistake-path tab auto-skip chain.
    fn skip_tabs_into_wrong(&mut self)
        ensures
            (final(self).cursor, final(self).remaining@, final(self).wrong@) == skip_tabs_wrong(
                old(self).cursor,
                old(self).remaining@,
                old(self).wrong@,
            ),
            final(self).correct@ == old(self).correct@,
            final(self).lines == old(self).lines,
    {
        let ghost target = skip_tabs_wrong(self.cursor, self.remaining@, self.wrong@);
        let ghost correct0 = self.correct@;
        let ghost lines0 = self.lines;
        loop
            invariant
                skip_tabs_wrong(self.cursor, self.remaining@, self.wrong@) == target,
                self.correct@ == correct0,
                self.lines == lines0,
            ensures
                self.cursor != Some('\t'),
                skip_tabs_wrong(self.cursor, self.remaining@, self.wrong@) == target,
                self.correct@ == correct0,
                self.lines == lines0,
            decreases self.remaining@.len() + (if self.cursor == Some('\t') {
                1int
            } else {
                0int
            }),
        {
            let is_tab = match self.cursor {
                Some(c) => c == '\t',
                None => false,
            };
            if !is_tab {
                break ;
            }
            self.wrong.push(MistakeEntry::Glyph('\t'));
            self.advance_cursor();
        }
    }

    /// Run the backspace tab undo chain.
    fn pop_mistakes_through_tabs(&mut self)
        ensures
            (final(self).wrong@, final(self).cursor, final(self).remaining@) == pop_tabs(
                old(self).wrong@,
                old(self).cursor,
                old(self).remaining@,
            ),
            final(self).correct@ == old(self).correct@,
            final(self).lines == old(self).lines,
    {
        let ghost target = pop_tabs(self.wrong@, self.cursor, self.remaining@);
        let ghost correct0 = self.correct@;
        let ghost lines0 = self.lines;
        loop
            invariant
                pop_tabs(self.wrong@, self.cursor, self.remaining@) == target,
                self.correct@ == correct0,
                self.lines == lines0,
            ensures
                self.cursor != Some('\t'),
                pop_tabs(self.wrong@, self.cursor, self.remaining@) == target,
                self.correct@ == correct0,
                self.lines == lines0,
            decreases self.wrong@.len() + (if self.cursor == Some('\t') {
                1int
            } else {
                0int
            }),
        {
            let is_tab = match self.cursor {
                Some(c) => c == '\t',
                None => false,
            };
            if !is_tab {
                break ;
            }
            let ghost rem_before = self.remaining@;
            self.remaining.insert(0, '\t');
            proof {
                assert(self.remaining@ =~= seq!['\t'] + rem_before);
            }
            match self.wrong.pop() {
                Some(e) => {
                    self.cursor = Some(decode_entry(e));
                },
                None => {
                    self.cursor = None;
                },
            }
        }
    }
}

/// Count the line-break characters of a snippet body.
fn count_line_breaks(v: &Vec<char>) -> (n: usize)
    ensures
        n as nat == count_newlines(v@),
{
    let mut n: usize = 0;
    let mut i: usize = 0;
    while i < v.len()
        invariant
            i <= v.len(),
            n <= i,
            n as nat == count_newlines(v@.subrange(0, i as int)),
        decreases v.len() - i,
    {
        let ghost prefix = v@.subrange(0, i as int);
        if v[i] == '\n' {
            n = n + 1;
        }
        i = i + 1;
        proof {
            assert(v@.subrange(0, i as int).drop_last() =~= prefix);
        }
    }
    proof {
        assert(v@.subrange(0, v@.len() as int) =~= v@);
    }
    n
}

impl Action {
    /// Apply this action to the session, as the reducer of the game loop.
    /// Each arm realizes exactly the corresponding model transition.
    pub fn apply(&self, state: &mut GameState)
        ensures
            (self matches Action::NewSnippet(s) ==> final(state)@ == spec_new_snippet(
                s.code@,
                s.language@,
            )),
            (self matches Action::KeyPress(k) ==> final(state)@ == spec_key_press(
                old(state)@,
                *k,
            )),
            (self matches Action::BackSpace ==> final(state)@ == spec_back_space(old(state)@)),
            (self matches Action::Tick ==> final(state)@ == spec_tick(old(state)@)),
            (self matches Action::Reset ==> final(state)@ == spec_reset()),
    {
        match self {
            Action::NewSnippet(snippet) => {
                *state = GameState::reset();
                let nl = count_line_breaks(&snippet.code);
                state.code.lines = if nl >= 1 {
                    nl - 1
                } else {
                    0
                };
                if snippet.code.len() > 0 {
                    state.code.cursor = Some(snippet.code[0]);
                    let mut rem: Vec<char> = Vec::new();
                    let mut i: usize = 1;
                    while i < snippet.code.len()
                        invariant
                            1 <= i <= snippet.code.len(),
                            rem@ == snippet.code@.subrange(1, i as int),
                        decreases snippet.code.len() - i,
                    {
                        rem.push(snippet.code[i]);
                        i = i + 1;
                        proof {
                            assert(rem@ =~= snippet.code@.subrange(1, i as int));
                        }
                    }
                    state.code.remaining = rem;
                    proof {
                        assert(state.code.remaining@ =~= snippet.code@.drop_first());
                    }
                }
                state.language = snippet.language.clone();
                proof {
                    assert(state@ =~= spec_new_snippet(snippet.code@, snippet.language@));
                }
            },
            Action::Tick => {
                state.stats.time = if state.stats.time < u64::MAX {
                    state.stats.time + 1
                } else {
                    u64::MAX
                };
                state.stats.wpm = calculate_wpm(state.stats.time, &state.code.correct);
                proof {
                    assert(state@ =~= spec_tick(old(state)@));
                }
            },
            Action::BackSpace => {
                if state.code.wrong.len() > 0 {
                    if let Some(c) = state.code.cursor {
                        let ghost rem_before = state.code.remaining@;
                        state.code.remaining.insert(0, c);
                        proof {
                            assert(state.code.remaining@ =~= seq![c] + rem_before);
                        }
                    }
                    let ghost wrong_before = state.code.wrong@;
                    let e = state.code.wrong.pop().unwrap();
                    proof {
                        assert(state.code.wrong@ =~= wrong_before.drop_last());
                    }
                    state.code.cursor = Some(decode_entry(e));
                    state.code.pop_mistakes_through_tabs();
                    proof {
                        assert(state@ =~= spec_back_space(old(state)@));
                    }
                }
            },
            Action::KeyPress(key) => {
                if state.status != Status::Passed {
                    state.status = Status::Playing;
                }
                if let Some(cursor) = state.code.cursor {
                    if state.code.wrong.len() == 0 && cursor == *key {
                        state.code.correct.push(cursor);
                        let finished = state.code.remaining.len() == 0;
                        state.code.advance_cursor();
                        if finished {
                            state.stats.accuracy = calculate_accuracy(
                                &state.code.correct,
                                &state.code.remaining,
                                state.stats.mistakes,
                            );
                            state.status = Status::Passed;
                        }
                        state.code.skip_tabs_into_correct();
                    } else if state.code.wrong.len() < 10 {
                        state.stats.mistakes = if state.stats.mistakes < u64::MAX {
                            state.stats.mistakes + 1
                        } else {
                            u64::MAX
                        };
                        state.code.wrong.push(encode_entry(cursor));
                        state.code.advance_cursor();
                        state.code.skip_tabs_into_wrong();
                    }
                }
                state.stats.progress = calculate_progress(
                    &state.code.correct,
                    &state.code.remaining,
                );
                proof {
                    assert(state@ =~= spec_key_press(old(state)@, *key));
                }
            },
            Action::Reset => {
                *state = GameState::reset();
            },
        }
    }
}

} // verus!

