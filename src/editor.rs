use vstd::prelude::*;
use crate::text::{TextState, lines_view, all_wf, insert_spec, backspace_spec, enter_spec, left_spec, right_spec, up_spec, down_spec, scroll_spec, copy_lines, copy_line, split_lines, join_lines, buffer_of, join_spec};
use crate::frame::{display_line, display_spec, status_line, status_spec, search_prompt, prompt_spec};
use crate::tokenizer::{Token, tokenize, tokens_view, tokens_spec};
use crate::ColorClass;
use crate::search::{search_spec, search_lines, pairs_view, lemma_matches_upto, lemma_empty_query, lemma_search_order, before};
use crate::keys::{Key, KeyKind, KeyEvent, Command, Action, command_of, classify, is_search_key, ALT};

verus! {

/// A saved copy of the buffer and cursor, held by the undo and redo stacks.
pub struct Snapshot {
    lines: Vec<Vec<char>>,
    row: usize,
    col: usize,
}

impl Snapshot {
    pub closed spec fn view(&self) -> TextState {
        TextState { lines: lines_view(self.lines@), row: self.row as int, col: self.col as int }
    }
}

pub open spec fn states_of(s: Seq<Snapshot>) -> Seq<TextState> {
    s.map_values(|x: Snapshot| x.view())
}

/// The interval, in milliseconds, within which a repeat of the previous key
/// is dropped.
pub const DEBOUNCE_MS: u64 = 50;

/// The state of one editing session: buffer, cursor, viewport, history,
/// search and the bookkeeping of the key dispatcher.
pub struct Editor {
    rows: Vec<Vec<char>>,
    cursor_x: usize,
    cursor_y: usize,
    screen_rows: u16,
    screen_cols: u16,
    filename: Option<Vec<char>>,
    dirty: bool,
    last_key_time: u64,
    last_key: Option<KeyEvent>,
    debounce_ms: u64,
    col_offset: usize,
    undo_stack: Vec<Snapshot>,
    redo_stack: Vec<Snapshot>,
    search_mode: bool,
    search_query: Vec<char>,
    search_results: Vec<(usize, usize)>,
    current_match: usize,
}

/// Time from `last` to `now`; zero if the clock went back.
pub open spec fn elapsed(last: u64, now: u64) -> int {
    if now >= last {
        now - last
    } else {
        0
    }
}

impl Editor {
    /// Buffer and cursor.
    pub closed spec fn state(&self) -> TextState {
        TextState {
            lines: lines_view(self.rows@),
            row: self.cursor_y as int,
            col: self.cursor_x as int,
        }
    }

    pub closed spec fn undo_states(&self) -> Seq<TextState> {
        states_of(self.undo_stack@)
    }

    pub closed spec fn redo_states(&self) -> Seq<TextState> {
        states_of(self.redo_stack@)
    }

    pub closed spec fn is_dirty_spec(&self) -> bool {
        self.dirty
    }

    pub closed spec fn offset(&self) -> int {
        self.col_offset as int
    }

    pub closed spec fn cols(&self) -> int {
        self.screen_cols as int
    }

    pub closed spec fn screen_height(&self) -> int {
        self.screen_rows as int
    }

    pub closed spec fn file_name(&self) -> Option<Seq<char>> {
        match self.filename {
            Some(f) => Some(f@),
            None => None,
        }
    }

    pub closed spec fn in_search(&self) -> bool {
        self.search_mode
    }

    pub closed spec fn query(&self) -> Seq<char> {
        self.search_query@
    }

    pub closed spec fn results(&self) -> Seq<(int, int)> {
        pairs_view(self.search_results@)
    }

    pub closed spec fn current(&self) -> int {
        self.current_match as int
    }

    pub closed spec fn last_key_spec(&self) -> Option<KeyEvent> {
        self.last_key
    }

    pub closed spec fn last_time(&self) -> u64 {
        self.last_key_time
    }

    pub closed spec fn debounce(&self) -> u64 {
        self.debounce_ms
    }

    /// The invariant every operation keeps.
    pub closed spec fn wf(&self) -> bool {
        &&& self.state().wf()
        &&& self.screen_cols >= 1
        &&& self.screen_rows >= 1
        &&& self.col_offset <= self.cursor_x < self.col_offset + self.screen_cols
        &&& all_wf(self.undo_states())
        &&& all_wf(self.redo_states())
        &&& forall|i: int|
            0 <= i < self.search_results@.len() ==> (#[trigger] self.search_results@[i]).0
                < self.rows@.len() && self.search_results@[i].1 <= self.rows@[self.search_results@[i].0 as int]@.len()
        &&& self.search_results@.len() > 0 ==> self.current_match < self.search_results@.len()
    }

    /// The parts that editing, moving and searching leave alone.
    pub open spec fn same_setup(&self, other: &Editor) -> bool {
        &&& self.cols() == other.cols()
        &&& self.screen_height() == other.screen_height()
        &&& self.file_name() == other.file_name()
        &&& self.debounce() == other.debounce()
    }

    /// Search state unchanged.
    pub open spec fn same_search(&self, other: &Editor) -> bool {
        &&& self.in_search() == other.in_search()
        &&& self.query() == other.query()
        &&& self.results() == other.results()
        &&& self.current() == other.current()
    }

    /// Buffer, cursor, viewport, history and dirty flag unchanged.
    pub open spec fn same_text(&self, other: &Editor) -> bool {
        &&& self.state() == other.state()
        &&& self.offset() == other.offset()
        &&& self.undo_states() == other.undo_states()
        &&& self.redo_states() == other.redo_states()
        &&& self.is_dirty_spec() == other.is_dirty_spec()
    }

    /// `b` is `a` after an edit that led to `s`: the old state is recorded for
    /// undo, redo is forgotten, stale search results are dropped and the view
    /// follows the cursor.
    pub open spec fn edited(a: Editor, b: Editor, s: TextState) -> bool {
        &&& b.state() == s
        &&& b.undo_states() == a.undo_states().push(a.state())
        &&& b.redo_states().len() == 0
        &&& b.offset() == scroll_spec(a.offset(), s.col, a.cols())
        &&& b.results().len() == 0
        &&& b.in_search() == a.in_search()
        &&& b.query() == a.query()
        &&& b.same_setup(&a)
    }

    pub open spec fn insert_post(a: Editor, b: Editor, c: char) -> bool {
        &&& Self::edited(a, b, insert_spec(a.state(), c))
        &&& b.is_dirty_spec()
    }

    pub open spec fn backspace_post(a: Editor, b: Editor) -> bool {
        &&& Self::edited(a, b, backspace_spec(a.state()))
        &&& b.is_dirty_spec() == (a.is_dirty_spec() || a.state().col > 0 || a.state().row > 0)
    }

    pub open spec fn enter_post(a: Editor, b: Editor) -> bool {
        &&& Self::edited(a, b, enter_spec(a.state()))
        &&& b.is_dirty_spec()
    }

    /// `b` is `a` with the cursor moved to that of `s` and the view following it.
    pub open spec fn moved(a: Editor, b: Editor, s: TextState) -> bool {
        &&& b.state() == s
        &&& b.undo_states() == a.undo_states()
        &&& b.redo_states() == a.redo_states()
        &&& b.is_dirty_spec() == a.is_dirty_spec()
        &&& b.offset() == scroll_spec(a.offset(), s.col, a.cols())
        &&& b.same_search(&a)
        &&& b.same_setup(&a)
    }

    /// Undo: with a recorded state, the current one goes to the redo stack and
    /// the most recent recorded one comes back; with none, nothing changes.
    pub open spec fn undo_post(a: Editor, b: Editor) -> bool {
        if a.undo_states().len() == 0 {
            b.same_text(&a) && b.same_search(&a) && b.same_setup(&a)
        } else {
            &&& b.state() == a.undo_states().last()
            &&& b.undo_states() == a.undo_states().drop_last()
            &&& b.redo_states() == a.redo_states().push(a.state())
            &&& b.is_dirty_spec()
            &&& b.offset() == scroll_spec(a.offset(), b.state().col, a.cols())
            &&& b.results().len() == 0
            &&& b.in_search() == a.in_search()
            &&& b.query() == a.query()
            &&& b.same_setup(&a)
        }
    }

    /// Redo: the mirror of undo.
    pub open spec fn redo_post(a: Editor, b: Editor) -> bool {
        if a.redo_states().len() == 0 {
            b.same_text(&a) && b.same_search(&a) && b.same_setup(&a)
        } else {
            &&& b.state() == a.redo_states().last()
            &&& b.redo_states() == a.redo_states().drop_last()
            &&& b.undo_states() == a.undo_states().push(a.state())
            &&& b.is_dirty_spec()
            &&& b.offset() == scroll_spec(a.offset(), b.state().col, a.cols())
            &&& b.results().len() == 0
            &&& b.in_search() == a.in_search()
            &&& b.query() == a.query()
            &&& b.same_setup(&a)
        }
    }

    /// `b` is `a` with query `q`, the matches of `q` over the buffer, and the
    /// cursor on the first of them if there is one.
    pub open spec fn searched(a: Editor, b: Editor, q: Seq<char>) -> bool {
        let res = search_spec(a.state().lines, q);
        &&& b.query() == q
        &&& b.results() == res
        &&& b.current() == 0
        &&& b.in_search() == a.in_search()
        &&& b.undo_states() == a.undo_states()
        &&& b.redo_states() == a.redo_states()
        &&& b.is_dirty_spec() == a.is_dirty_spec()
        &&& if res.len() > 0 {
            &&& b.state() == a.state().at(res[0].0, res[0].1)
            &&& b.offset() == scroll_spec(a.offset(), res[0].1, a.cols())
        } else {
            &&& b.state() == a.state()
            &&& b.offset() == a.offset()
        }
        &&& b.same_setup(&a)
    }

    /// Next match: the index advances, wrapping after the last match, and the
    /// cursor jumps there; with no matches nothing changes.
    pub open spec fn next_match_post(a: Editor, b: Editor) -> bool {
        if a.results().len() == 0 {
            b.same_text(&a) && b.same_search(&a) && b.same_setup(&a)
        } else {
            let i = (a.current() + 1) % (a.results().len() as int);
            &&& b.current() == i
            &&& b.state() == a.state().at(a.results()[i].0, a.results()[i].1)
            &&& b.offset() == scroll_spec(a.offset(), a.results()[i].1, a.cols())
            &&& b.undo_states() == a.undo_states()
            &&& b.redo_states() == a.redo_states()
            &&& b.is_dirty_spec() == a.is_dirty_spec()
            &&& b.in_search() == a.in_search()
            &&& b.query() == a.query()
            &&& b.results() == a.results()
            &&& b.same_setup(&a)
        }
    }

    /// Entering search mode with an empty query and no matches.
    pub open spec fn start_search_post(a: Editor, b: Editor) -> bool {
        &&& b.in_search()
        &&& b.query().len() == 0
        &&& b.results().len() == 0
        &&& b.current() == 0
        &&& b.same_text(&a)
        &&& b.same_setup(&a)
    }

    /// Leaving search mode, with the query and matches dropped.
    pub open spec fn exit_search_post(a: Editor, b: Editor) -> bool {
        &&& !b.in_search()
        &&& b.query().len() == 0
        &&& b.results().len() == 0
        &&& b.same_text(&a)
        &&& b.same_setup(&a)
    }

    pub open spec fn unchanged(a: Editor, b: Editor) -> bool {
        b.same_text(&a) && b.same_search(&a) && b.same_setup(&a)
    }

    /// A key in search mode: Escape leaves, Enter goes to the next match,
    /// Backspace and characters edit the query and search again.
    pub open spec fn search_key_post(a: Editor, b: Editor, ev: KeyEvent) -> bool {
        if ev.kind != KeyKind::Press {
            Self::unchanged(a, b)
        } else {
            match ev.code {
                Key::Esc => Self::exit_search_post(a, b),
                Key::Enter => Self::next_match_post(a, b),
                Key::Backspace => Self::searched(
                    a,
                    b,
                    if a.query().len() > 0 {
                        a.query().drop_last()
                    } else {
                        a.query()
                    },
                ),
                Key::Char(c) => Self::searched(a, b, a.query().push(c)),
                _ => Self::unchanged(a, b),
            }
        }
    }

    /// A press that is not a repeat, within the debounce interval, of the
    /// previous accepted key with the same modifiers.
    pub open spec fn accepts(a: Editor, ev: KeyEvent, now: u64) -> bool {
        &&& ev.kind == KeyKind::Press
        &&& !(match a.last_key_spec() {
            Some(k) => elapsed(a.last_time(), now) < a.debounce() && k.code == ev.code
                && k.modifiers == ev.modifiers,
            None => false,
        })
    }

    /// A key in normal mode.
    pub open spec fn normal_key_post(a: Editor, b: Editor, ev: KeyEvent, now: u64, r: Action) -> bool {
        if !Self::accepts(a, ev, now) {
            r == Action::Continue && b == a
        } else {
            &&& b.last_key_spec() == Some(ev)
            &&& b.last_time() == now
            &&& match command_of(ev) {
                Command::Quit => r == Action::Quit && Self::unchanged(a, b),
                Command::Save => r == Action::Save && Self::unchanged(a, b),
                Command::Undo => r == Action::Continue && Self::undo_post(a, b),
                Command::Redo => r == Action::Continue && Self::redo_post(a, b),
                Command::Insert(c) => r == Action::Continue && Self::insert_post(a, b, c),
                Command::Backspace => r == Action::Continue && Self::backspace_post(a, b),
                Command::Enter => r == Action::Continue && Self::enter_post(a, b),
                Command::Left => r == Action::Continue && Self::moved(a, b, left_spec(a.state())),
                Command::Right => r == Action::Continue && Self::moved(a, b, right_spec(a.state())),
                Command::Up => r == Action::Continue && Self::moved(a, b, up_spec(a.state())),
                Command::Down => r == Action::Continue && Self::moved(a, b, down_spec(a.state())),
                Command::Ignore => r == Action::Continue && Self::unchanged(a, b),
            }
        }
    }

    /// A session of the given terminal size, with one empty line, the cursor
    /// at the origin, nothing to undo and no file name.
    pub fn new(screen_rows: u16, screen_cols: u16) -> (r: Editor)
        requires
            screen_rows >= 1,
            screen_cols >= 1,
        ensures
            r.wf(),
            r.state() == (TextState { lines: seq![Seq::<char>::empty()], row: 0, col: 0 }),
            r.undo_states().len() == 0,
            r.redo_states().len() == 0,
            !r.is_dirty_spec(),
            r.offset() == 0,
            r.cols() == screen_cols,
            r.screen_height() == screen_rows,
            r.file_name() == None::<Seq<char>>,
            !r.in_search(),
            r.query().len() == 0,
            r.results().len() == 0,
            r.last_key_spec() == None::<KeyEvent>,
            r.debounce() == DEBOUNCE_MS,
    {
        let mut rows: Vec<Vec<char>> = Vec::new();
        rows.push(Vec::new());
        let r = Editor {
            rows,
            cursor_x: 0,
            cursor_y: 0,
            screen_rows,
            screen_cols,
            filename: None,
            dirty: false,
            last_key_time: 0,
            last_key: None,
            debounce_ms: DEBOUNCE_MS,
            col_offset: 0,
            undo_stack: Vec::new(),
            redo_stack: Vec::new(),
            search_mode: false,
            search_query: Vec::new(),
            search_results: Vec::new(),
            current_match: 0,
        };
        assert(r.state().lines =~= seq![Seq::<char>::empty()]);
        assert(r.undo_states() =~= Seq::<TextState>::empty());
        assert(r.redo_states() =~= Seq::<TextState>::empty());
        assert(r.results() =~= Seq::<(int, int)>::empty());
        r
    }

    /// A copy of the buffer and cursor.
    pub fn snapshot(&self) -> (r: Snapshot)
        ensures
            r.view() == self.state(),
    {
        Snapshot { lines: copy_lines(&self.rows), row: self.cursor_y, col: self.cursor_x }
    }

    /// Puts the buffer and cursor of `s` in place and drops the search results,
    /// which spoke of the old buffer.
    fn restore(&mut self, s: Snapshot)
        requires
            s.view().wf(),
        ensures
            final(self).state() == s.view(),
            final(self).search_results@.len() == 0,
            (Editor {
                rows: final(self).rows,
                cursor_x: final(self).cursor_x,
                cursor_y: final(self).cursor_y,
                search_results: final(self).search_results,
                ..*old(self)
            }) == *final(self),
    {
        self.rows = s.lines;
        self.cursor_x = s.col;
        self.cursor_y = s.row;
        self.search_results.clear();
    }

    /// Records the current state for undo, forgets what could be redone and
    /// drops the search results.
    pub fn push_undo(&mut self)
        requires
            old(self).wf(),
        ensures
            final(self).wf(),
            final(self).undo_states() == old(self).undo_states().push(old(self).state()),
            final(self).redo_states().len() == 0,
            final(self).results().len() == 0,
            final(self).state() == old(self).state(),
            final(self).offset() == old(self).offset(),
            final(self).is_dirty_spec() == old(self).is_dirty_spec(),
            final(self).in_search() == old(self).in_search(),
            final(self).query() == old(self).query(),
            final(self).current() == old(self).current(),
            final(self).same_setup(old(self)),
            final(self).last_key_spec() == old(self).last_key_spec(),
            final(self).last_time() == old(self).last_time(),
    {
        let s = self.snapshot();
        self.undo_stack.push(s);
        self.redo_stack.clear();
        self.search_results.clear();
        assert(self.results() =~= Seq::<(int, int)>::empty());
        assert(self.undo_states() =~= old(self).undo_states().push(old(self).state()));
        assert(self.redo_states() =~= Seq::<TextState>::empty());
    }

    /// Moves the viewport the least amount that shows the cursor column.
    fn scroll_to_cursor(&mut self)
        requires
            old(self).screen_cols >= 1,
        ensures
            final(self).col_offset == scroll_spec(
                old(self).col_offset as int,
                old(self).cursor_x as int,
                old(self).screen_cols as int,
            ),
            final(self).col_offset <= final(self).cursor_x < final(self).col_offset
                + final(self).screen_cols,
            (Editor { col_offset: final(self).col_offset, ..*old(self) }) == *final(self),
    {
        let cols = self.screen_cols as usize;
        if self.cursor_x < self.col_offset {
            self.col_offset = self.cursor_x;
        } else if self.cursor_x - self.col_offset >= cols {
            self.col_offset = self.cursor_x - cols + 1;
        }
    }

    /// Types `c` at the cursor, recording the previous state for undo.
    pub fn insert_char(&mut self, c: char)
        requires
            old(self).wf(),
        ensures
            final(self).wf(),
            Self::insert_post(*old(self), *final(self), c),
            final(self).last_key_spec() == old(self).last_key_spec(),
            final(self).last_time() == old(self).last_time(),
    {
        self.push_undo();
        let y = self.cursor_y;
        let x = self.cursor_x;
        let ghost before = self.state();
        self.rows[y].insert(x, c);
        let n = self.rows[y].len();
        assert(x < n);
        self.cursor_x = x + 1;
        self.dirty = true;
        assert(self.state().lines =~= insert_spec(before, c).lines);
        self.scroll_to_cursor();
    }

    /// Backspace at the cursor, recording the previous state for undo.
    pub fn backspace(&mut self)
        requires
            old(self).wf(),
        ensures
            final(self).wf(),
            Self::backspace_post(*old(self), *final(self)),
            final(self).last_key_spec() == old(self).last_key_spec(),
            final(self).last_time() == old(self).last_time(),
    {
        self.push_undo();
        let y = self.cursor_y;
        let x = self.cursor_x;
        let ghost before = self.state();
        if x > 0 {
            self.rows[y].remove(x - 1);
            self.cursor_x = x - 1;
            self.dirty = true;
            assert(self.state().lines =~= backspace_spec(before).lines);
        } else if y > 0 {
            let mut cur = self.rows.remove(y);
            let py = y - 1;
            let plen = self.rows[py].len();
            self.rows[py].append(&mut cur);
            self.cursor_y = py;
            self.cursor_x = plen;
            self.dirty = true;
            assert(self.state().lines =~= backspace_spec(before).lines);
        }
        self.scroll_to_cursor();
    }

    /// Enter at the cursor: splits the line, recording the previous state for undo.
    pub fn enter(&mut self)
        requires
            old(self).wf(),
        ensures
            final(self).wf(),
            Self::enter_post(*old(self), *final(self)),
            final(self).last_key_spec() == old(self).last_key_spec(),
            final(self).last_time() == old(self).last_time(),
    {
        self.push_undo();
        let y = self.cursor_y;
        let x = self.cursor_x;
        let ghost before = self.state();
        let n = self.rows.len();
        assert(y < n);
        let tail = self.rows[y].split_off(x);
        self.rows.insert(y + 1, tail);
        self.cursor_y = y + 1;
        self.cursor_x = 0;
        self.dirty = true;
        assert(self.state().lines =~= enter_spec(before).lines);
        self.scroll_to_cursor();
    }

    /// Left arrow.
    pub fn move_left(&mut self)
        requires
            old(self).wf(),
        ensures
            final(self).wf(),
            Self::moved(*old(self), *final(self), left_spec(old(self).state())),
            final(self).last_key_spec() == old(self).last_key_spec(),
            final(self).last_time() == old(self).last_time(),
    {
        if self.cursor_x > 0 {
            self.cursor_x = self.cursor_x - 1;
        } else if self.cursor_y > 0 {
            self.cursor_y = self.cursor_y - 1;
            self.cursor_x = self.rows[self.cursor_y].len();
        }
        self.scroll_to_cursor();
    }

    /// Right arrow.
    pub fn move_right(&mut self)
        requires
            old(self).wf(),
        ensures
            final(self).wf(),
            Self::moved(*old(self), *final(self), right_spec(old(self).state())),
            final(self).last_key_spec() == old(self).last_key_spec(),
            final(self).last_time() == old(self).last_time(),
    {
        if self.cursor_x < self.rows[self.cursor_y].len() {
            self.cursor_x = self.cursor_x + 1;
        } else if self.cursor_y < self.rows.len() - 1 {
            self.cursor_y = self.cursor_y + 1;
            self.cursor_x = 0;
        }
        self.scroll_to_cursor();
    }

    /// Up arrow.
    pub fn move_up(&mut self)
        requires
            old(self).wf(),
        ensures
            final(self).wf(),
            Self::moved(*old(self), *final(self), up_spec(old(self).state())),
            final(self).last_key_spec() == old(self).last_key_spec(),
            final(self).last_time() == old(self).last_time(),
    {
        if self.cursor_y > 0 {
            self.cursor_y = self.cursor_y - 1;
            let len = self.rows[self.cursor_y].len();
            if len < self.cursor_x {
                self.cursor_x = len;
            }
        }
        self.scroll_to_cursor();
    }

    /// Down arrow.
    pub fn move_down(&mut self)
        requires
            old(self).wf(),
        ensures
            final(self).wf(),
            Self::moved(*old(self), *final(self), down_spec(old(self).state())),
            final(self).last_key_spec() == old(self).last_key_spec(),
            final(self).last_time() == old(self).last_time(),
    {
        if self.cursor_y < self.rows.len() - 1 {
            self.cursor_y = self.cursor_y + 1;
            let len = self.rows[self.cursor_y].len();
            if len < self.cursor_x {
                self.cursor_x = len;
            }
        }
        self.scroll_to_cursor();
    }

    /// Undo: with a recorded state, saves the current one for redo and puts the
    /// most recent recorded one back; with none, changes nothing.
    pub fn undo(&mut self)
        requires
            old(self).wf(),
        ensures
            final(self).wf(),
            Self::undo_post(*old(self), *final(self)),
            final(self).last_key_spec() == old(self).last_key_spec(),
            final(self).last_time() == old(self).last_time(),
    {
        let ghost before = self.state();
        let ghost undo0 = self.undo_states();
        let ghost redo0 = self.redo_states();
        if let Some(prev) = self.undo_stack.pop() {
            assert(self.undo_states() =~= undo0.drop_last());
            assert(undo0[undo0.len() - 1] == prev.view());
            let cur = self.snapshot();
            self.redo_stack.push(cur);
            assert(self.redo_states() =~= redo0.push(before));
            self.restore(prev);
            self.dirty = true;
            assert(self.results() =~= Seq::<(int, int)>::empty());
        } else {
            assert(self.undo_states() =~= undo0);
        }
        self.scroll_to_cursor();
    }

    /// Redo: the mirror of undo, moving a state from the redo stack back and
    /// saving the current one for undo.
    pub fn redo(&mut self)
        requires
            old(self).wf(),
        ensures
            final(self).wf(),
            Self::redo_post(*old(self), *final(self)),
            final(self).last_key_spec() == old(self).last_key_spec(),
            final(self).last_time() == old(self).last_time(),
    {
        let ghost before = self.state();
        let ghost undo0 = self.undo_states();
        let ghost redo0 = self.redo_states();
        if let Some(next) = self.redo_stack.pop() {
            assert(self.redo_states() =~= redo0.drop_last());
            assert(redo0[redo0.len() - 1] == next.view());
            let cur = self.snapshot();
            self.undo_stack.push(cur);
            assert(self.undo_states() =~= undo0.push(before));
            self.restore(next);
            self.dirty = true;
            assert(self.results() =~= Seq::<(int, int)>::empty());
        } else {
            assert(self.redo_states() =~= redo0);
        }
        self.scroll_to_cursor();
    }

    /// Jumps the cursor to match `i` and brings it into view.
    fn jump_to_match(&mut self, i: usize)
        requires
            old(self).wf(),
            i < old(self).search_results@.len(),
        ensures
            final(self).wf(),
            final(self).state() == old(self).state().at(old(self).results()[i as int].0, old(self).results()[i as int].1),
            final(self).offset() == scroll_spec(old(self).offset(), old(self).results()[i as int].1, old(self).cols()),
            (Editor {
                cursor_x: final(self).cursor_x,
                cursor_y: final(self).cursor_y,
                col_offset: final(self).col_offset,
                ..*old(self)
            }) == *final(self),
    {
        let (row, col) = self.search_results[i];
        self.cursor_y = row;
        self.cursor_x = col;
        assert(self.state().lines == old(self).state().lines);
        self.scroll_to_cursor();
    }

    /// Recomputes the matches of the current query and moves the cursor to the
    /// first of them.
    fn perform_search(&mut self)
        requires
            old(self).wf(),
        ensures
            final(self).wf(),
            Self::searched(*old(self), *final(self), old(self).query()),
            old(self).query().len() == 0 ==> final(self).results().len() == 0
                && final(self).state() == old(self).state() && final(self).offset() == old(self).offset(),
            forall|i: int, j: int|
                0 <= i < j < final(self).results().len() ==> before(
                    #[trigger] final(self).results()[i],
                    #[trigger] final(self).results()[j],
                ),
            final(self).last_key_spec() == old(self).last_key_spec(),
            final(self).last_time() == old(self).last_time(),
    {
        let res = search_lines(&self.rows, &self.search_query);
        proof {
            lemma_search_order(self.state().lines, self.query());
            if self.query().len() == 0 {
                assert(self.query() =~= Seq::<char>::empty());
                lemma_empty_query(self.state().lines);
            }
            lemma_matches_upto(self.state().lines, self.query(), self.state().lines.len() as int);
            assert forall|i: int| 0 <= i < res@.len() implies (#[trigger] res@[i]).0
                < self.rows@.len() && res@[i].1 <= self.rows@[res@[i].0 as int]@.len() by {
                assert(pairs_view(res@)[i] == (res@[i].0 as int, res@[i].1 as int));
            }
        }
        self.search_results = res;
        self.current_match = 0;
        if self.search_results.len() > 0 {
            self.jump_to_match(0);
        }
    }

    /// Sets the query and searches the buffer for it.
    pub fn set_query(&mut self, q: Vec<char>)
        requires
            old(self).wf(),
        ensures
            final(self).wf(),
            Self::searched(*old(self), *final(self), q@),
            q@.len() == 0 ==> final(self).results().len() == 0
                && final(self).state() == old(self).state() && final(self).offset() == old(self).offset(),
            forall|i: int, j: int|
                0 <= i < j < final(self).results().len() ==> before(
                    #[trigger] final(self).results()[i],
                    #[trigger] final(self).results()[j],
                ),
            final(self).last_key_spec() == old(self).last_key_spec(),
            final(self).last_time() == old(self).last_time(),
    {
        self.search_query = q;
        self.perform_search();
    }

    /// Moves to the next match, wrapping after the last one.
    pub fn next_match(&mut self)
        requires
            old(self).wf(),
        ensures
            final(self).wf(),
            Self::next_match_post(*old(self), *final(self)),
            final(self).last_key_spec() == old(self).last_key_spec(),
            final(self).last_time() == old(self).last_time(),
    {
        let n = self.search_results.len();
        if n == 0 {
            return;
        }
        self.current_match = (self.current_match + 1) % n;
        self.jump_to_match(self.current_match);
    }

    /// Enters search mode with an empty query.
    pub fn start_search(&mut self)
        requires
            old(self).wf(),
        ensures
            final(self).wf(),
            Self::start_search_post(*old(self), *final(self)),
            final(self).last_key_spec() == old(self).last_key_spec(),
            final(self).last_time() == old(self).last_time(),
    {
        self.search_mode = true;
        self.search_query.clear();
        self.search_results.clear();
        self.current_match = 0;
        assert(self.results() =~= Seq::<(int, int)>::empty());
    }

    /// Leaves search mode, dropping the query and its matches.
    pub fn exit_search(&mut self)
        requires
            old(self).wf(),
        ensures
            final(self).wf(),
            Self::exit_search_post(*old(self), *final(self)),
            final(self).last_key_spec() == old(self).last_key_spec(),
            final(self).last_time() == old(self).last_time(),
    {
        self.search_mode = false;
        self.search_query.clear();
        self.search_results.clear();
        assert(self.results() =~= Seq::<(int, int)>::empty());
    }

    /// Handles a key while the search prompt is open.
    pub fn process_search_keypress(&mut self, ev: KeyEvent)
        requires
            old(self).wf(),
        ensures
            final(self).wf(),
            Self::search_key_post(*old(self), *final(self), ev),
            final(self).last_key_spec() == old(self).last_key_spec(),
            final(self).last_time() == old(self).last_time(),
    {
        if ev.kind != KeyKind::Press {
            return;
        }
        match ev.code {
            Key::Esc => self.exit_search(),
            Key::Enter => self.next_match(),
            Key::Backspace => {
                self.search_query.pop();
                self.perform_search();
            },
            Key::Char(c) => {
                self.search_query.push(c);
                self.perform_search();
            },
            _ => {},
        }
    }

    /// Handles a key in normal mode at time `now` (milliseconds on a clock
    /// that does not go back), and says whether to go on, quit or save.
    pub fn process_keypress(&mut self, ev: KeyEvent, now: u64) -> (r: Action)
        requires
            old(self).wf(),
        ensures
            final(self).wf(),
            Self::normal_key_post(*old(self), *final(self), ev, now, r),
    {
        if ev.kind != KeyKind::Press {
            return Action::Continue;
        }
        if let Some(k) = self.last_key {
            let since = if now >= self.last_key_time {
                now - self.last_key_time
            } else {
                0
            };
            if since < self.debounce_ms && k.code == ev.code && k.modifiers == ev.modifiers {
                return Action::Continue;
            }
        }
        self.last_key_time = now;
        self.last_key = Some(ev);
        proof {
            assert(self.state() == old(self).state());
            assert(self.undo_states() == old(self).undo_states());
            assert(self.redo_states() == old(self).redo_states());
            assert(self.results() == old(self).results());
            assert(self.same_setup(old(self)));
        }
        match classify(&ev) {
            Command::Quit => Action::Quit,
            Command::Save => Action::Save,
            Command::Undo => {
                self.undo();
                Action::Continue
            },
            Command::Redo => {
                self.redo();
                Action::Continue
            },
            Command::Insert(c) => {
                self.insert_char(c);
                Action::Continue
            },
            Command::Backspace => {
                self.backspace();
                Action::Continue
            },
            Command::Enter => {
                self.enter();
                Action::Continue
            },
            Command::Left => {
                self.move_left();
                Action::Continue
            },
            Command::Right => {
                self.move_right();
                Action::Continue
            },
            Command::Up => {
                self.move_up();
                Action::Continue
            },
            Command::Down => {
                self.move_down();
                Action::Continue
            },
            Command::Ignore => Action::Continue,
        }
    }

    /// Routes a key: to the search prompt when it is open, Alt+f opens it,
    /// and anything else goes to normal mode.
    pub fn handle_key(&mut self, ev: KeyEvent, now: u64) -> (r: Action)
        requires
            old(self).wf(),
        ensures
            final(self).wf(),
            old(self).in_search() ==> r == Action::Continue && Self::search_key_post(*old(self), *final(self), ev),
            !old(self).in_search() && is_search_key(ev) ==> r == Action::Continue
                && Self::start_search_post(*old(self), *final(self)),
            !old(self).in_search() && !is_search_key(ev) ==> Self::normal_key_post(*old(self), *final(self), ev, now, r),
    {
        if self.search_mode {
            self.process_search_keypress(ev);
            Action::Continue
        } else if ev.code == Key::Char('f') && ev.modifiers & ALT != 0 {
            self.start_search();
            Action::Continue
        } else {
            self.process_keypress(ev, now)
        }
    }

    /// Replaces the buffer with the lines of a loaded text and names the file;
    /// the cursor and view go to the origin, the buffer is clean and search
    /// results are dropped. The history stays.
    pub fn load(&mut self, text: &Vec<char>, name: Vec<char>)
        requires
            old(self).wf(),
        ensures
            final(self).wf(),
            final(self).state() == (TextState { lines: buffer_of(text@), row: 0, col: 0 }),
            final(self).file_name() == Some(name@),
            !final(self).is_dirty_spec(),
            final(self).offset() == 0,
            final(self).results().len() == 0,
            final(self).undo_states() == old(self).undo_states(),
            final(self).redo_states() == old(self).redo_states(),
            final(self).cols() == old(self).cols(),
            final(self).screen_height() == old(self).screen_height(),
            final(self).in_search() == old(self).in_search(),
            final(self).query() == old(self).query(),
    {
        self.rows = split_lines(text);
        self.filename = Some(name);
        self.dirty = false;
        self.cursor_x = 0;
        self.cursor_y = 0;
        self.col_offset = 0;
        self.search_results.clear();
        assert(self.results() =~= Seq::<(int, int)>::empty());
    }

    /// Names the file the buffer is saved to.
    pub fn set_filename(&mut self, name: Vec<char>)
        requires
            old(self).wf(),
        ensures
            final(self).wf(),
            final(self).file_name() == Some(name@),
            final(self).same_text(old(self)),
            final(self).same_search(old(self)),
            final(self).cols() == old(self).cols(),
            final(self).screen_height() == old(self).screen_height(),
    {
        self.filename = Some(name);
    }

    /// What saving writes: the file name and the lines joined by newlines;
    /// nothing when the buffer has no file name.
    pub fn save_request(&self) -> (r: Option<(Vec<char>, Vec<char>)>)
        ensures
            self.file_name() is None <==> r is None,
            r matches Some(p) ==> Some(p.0@) == self.file_name() && p.1@ == join_spec(self.state().lines),
    {
        match &self.filename {
            Some(name) => Some((copy_line(name), join_lines(&self.rows))),
            None => None,
        }
    }

    /// Records that the buffer was written out.
    pub fn mark_saved(&mut self)
        requires
            old(self).wf(),
        ensures
            final(self).wf(),
            !final(self).is_dirty_spec(),
            final(self).state() == old(self).state(),
            final(self).undo_states() == old(self).undo_states(),
            final(self).redo_states() == old(self).redo_states(),
            final(self).offset() == old(self).offset(),
            final(self).same_search(old(self)),
            final(self).same_setup(old(self)),
    {
        self.dirty = false;
    }

    /// A copy of the buffer's lines.
    pub fn lines(&self) -> (r: Vec<Vec<char>>)
        ensures
            lines_view(r@) == self.state().lines,
    {
        copy_lines(&self.rows)
    }

    /// The cursor as `(row, col)`.
    pub fn cursor(&self) -> (r: (usize, usize))
        ensures
            r.0 == self.state().row,
            r.1 == self.state().col,
    {
        (self.cursor_y, self.cursor_x)
    }

    pub fn is_dirty(&self) -> (r: bool)
        ensures
            r == self.is_dirty_spec(),
    {
        self.dirty
    }

    pub fn col_offset(&self) -> (r: usize)
        ensures
            r == self.offset(),
    {
        self.col_offset
    }

    pub fn screen_rows(&self) -> (r: u16)
        ensures
            r == self.screen_height(),
    {
        self.screen_rows
    }

    pub fn filename(&self) -> (r: Option<Vec<char>>)
        ensures
            r is None <==> self.file_name() is None,
            r is Some ==> Some(r->0@) == self.file_name(),
    {
        match &self.filename {
            Some(n) => Some(copy_line(n)),
            None => None,
        }
    }

    pub fn is_searching(&self) -> (r: bool)
        ensures
            r == self.in_search(),
    {
        self.search_mode
    }

    /// The matches of the current query, in order.
    pub fn search_results(&self) -> (r: Vec<(usize, usize)>)
        ensures
            pairs_view(r@) == self.results(),
    {
        let mut r: Vec<(usize, usize)> = Vec::new();
        let mut i: usize = 0;
        while i < self.search_results.len()
            invariant
                i <= self.search_results.len(),
                r@ == self.search_results@.subrange(0, i as int),
            decreases self.search_results.len() - i,
        {
            r.push(self.search_results[i]);
            i += 1;
            assert(r@ =~= self.search_results@.subrange(0, i as int));
        }
        assert(r@ =~= self.search_results@);
        r
    }

    pub fn current_match(&self) -> (r: usize)
        ensures
            r == self.current(),
    {
        self.current_match
    }

    pub fn undo_depth(&self) -> (r: usize)
        ensures
            r == self.undo_states().len(),
    {
        self.undo_stack.len()
    }

    pub fn redo_depth(&self) -> (r: usize)
        ensures
            r == self.redo_states().len(),
    {
        self.redo_stack.len()
    }

    /// Sets the interval within which a repeat of the previous key is dropped.
    pub fn set_debounce_ms(&mut self, ms: u64)
        requires
            old(self).wf(),
        ensures
            final(self).wf(),
            final(self).debounce() == ms,
            final(self).same_text(old(self)),
            final(self).same_search(old(self)),
    {
        self.debounce_ms = ms;
    }

    /// The tokens screen row `i` shows: the visible part of buffer line `i`,
    /// or a filler `~` below the end of the buffer.
    pub fn row_tokens(&self, i: usize) -> (r: Vec<Token>)
        requires
            self.wf(),
        ensures
            i < self.state().lines.len() ==> tokens_view(r@) == tokens_spec(
                display_spec(self.state().lines[i as int], self.offset(), self.cols()),
            ),
            i >= self.state().lines.len() ==> tokens_view(r@) == seq![(seq!['~'], ColorClass::Plain)],
    {
        if i < self.rows.len() {
            let line = display_line(&self.rows[i], self.col_offset, self.screen_cols as usize);
            tokenize(&line)
        } else {
            let mut r: Vec<Token> = Vec::new();
            let filler = Token { text: vec!['~'], class: ColorClass::Plain };
            assert(filler.text@ =~= seq!['~']);
            r.push(filler);
            assert(tokens_view(r@) =~= seq![(seq!['~'], ColorClass::Plain)]);
            r
        }
    }

    /// The status bar text.
    pub fn status_text(&self) -> (r: Vec<char>)
        requires
            self.wf(),
        ensures
            r@ == status_spec(
                self.file_name(),
                self.is_dirty_spec(),
                self.state().row as nat,
                self.state().col as nat,
                self.cols(),
            ),
    {
        status_line(&self.filename, self.dirty, self.cursor_y, self.cursor_x, self.screen_cols as usize)
    }

    /// The search prompt text.
    pub fn prompt_text(&self) -> (r: Vec<char>)
        ensures
            r@ == prompt_spec(self.query()),
    {
        search_prompt(&self.search_query)
    }

    /// Where the terminal cursor goes: the cursor column relative to the view,
    /// and the cursor row kept on the screen.
    pub fn screen_cursor(&self) -> (r: (usize, usize))
        requires
            self.wf(),
        ensures
            r.0 == self.state().col - self.offset(),
            r.1 == if self.state().row < self.screen_height() - 1 {
                self.state().row
            } else {
                self.screen_height() - 1
            },
    {
        let last = self.screen_rows as usize - 1;
        let y = if self.cursor_y < last {
            self.cursor_y
        } else {
            last
        };
        (self.cursor_x - self.col_offset, y)
    }

    /// A well-formed session has at least one line and a cursor on a line,
    /// at most at its end, inside the view.
    pub proof fn lemma_wf_cursor(e: &Editor)
        requires
            e.wf(),
        ensures
            e.state().wf(),
            e.offset() <= e.state().col < e.offset() + e.cols(),
            all_wf(e.undo_states()),
            all_wf(e.redo_states()),
    {
    }
}

} // verus!
