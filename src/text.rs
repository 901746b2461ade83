use vstd::prelude::*;

verus! {

/// The buffer and cursor as mathematical values: lines of characters and a
/// `(row, col)` position.
pub struct TextState {
    pub lines: Seq<Seq<char>>,
    pub row: int,
    pub col: int,
}

impl TextState {
    /// At least one line; the row names a line and the column is an insertion
    /// point of it (at most its length).
    pub open spec fn wf(self) -> bool {
        &&& self.lines.len() >= 1
        &&& 0 <= self.row < self.lines.len()
        &&& 0 <= self.col <= self.lines[self.row].len()
    }

    pub open spec fn line(self) -> Seq<char> {
        self.lines[self.row]
    }

    pub open spec fn at(self, row: int, col: int) -> TextState {
        TextState { lines: self.lines, row, col }
    }
}

pub open spec fn lines_view(v: Seq<Vec<char>>) -> Seq<Seq<char>> {
    v.map_values(|l: Vec<char>| l@)
}

pub open spec fn all_wf(s: Seq<TextState>) -> bool {
    forall|i: int| 0 <= i < s.len() ==> #[trigger] s[i].wf()
}

/// Typing `c`: it is inserted at the cursor, which moves one column right.
pub open spec fn insert_spec(s: TextState, c: char) -> TextState {
    TextState { lines: s.lines.update(s.row, s.line().insert(s.col, c)), row: s.row, col: s.col + 1 }
}

/// Backspace: removes the character left of the cursor, or joins the line to
/// the previous one at column 0, or does nothing at the origin.
pub open spec fn backspace_spec(s: TextState) -> TextState {
    if s.col > 0 {
        TextState {
            lines: s.lines.update(s.row, s.line().remove(s.col - 1)),
            row: s.row,
            col: s.col - 1,
        }
    } else if s.row > 0 {
        TextState {
            lines: s.lines.update(s.row - 1, s.lines[s.row - 1] + s.line()).remove(s.row),
            row: s.row - 1,
            col: s.lines[s.row - 1].len() as int,
        }
    } else {
        s
    }
}

/// Enter: the text from the cursor on moves to a new line below, and the
/// cursor to its start.
pub open spec fn enter_spec(s: TextState) -> TextState {
    TextState {
        lines: s.lines.update(s.row, s.line().subrange(0, s.col)).insert(
            s.row + 1,
            s.line().subrange(s.col, s.line().len() as int),
        ),
        row: s.row + 1,
        col: 0,
    }
}

pub open spec fn min(a: int, b: int) -> int {
    if a <= b {
        a
    } else {
        b
    }
}

/// Left: one column back, or to the end of the previous line from column 0.
pub open spec fn left_spec(s: TextState) -> TextState {
    if s.col > 0 {
        s.at(s.row, s.col - 1)
    } else if s.row > 0 {
        s.at(s.row - 1, s.lines[s.row - 1].len() as int)
    } else {
        s
    }
}

/// Right: one column on, or to the start of the next line from the end of a line.
pub open spec fn right_spec(s: TextState) -> TextState {
    if s.col < s.line().len() {
        s.at(s.row, s.col + 1)
    } else if s.row + 1 < s.lines.len() {
        s.at(s.row + 1, 0)
    } else {
        s
    }
}

/// Up: the previous line, with the column clamped to its length.
pub open spec fn up_spec(s: TextState) -> TextState {
    if s.row > 0 {
        s.at(s.row - 1, min(s.col, s.lines[s.row - 1].len() as int))
    } else {
        s
    }
}

/// Down: the next line, with the column clamped to its length.
pub open spec fn down_spec(s: TextState) -> TextState {
    if s.row + 1 < s.lines.len() {
        s.at(s.row + 1, min(s.col, s.lines[s.row + 1].len() as int))
    } else {
        s
    }
}

/// The horizontal offset after the least shift that brings column `x` into
/// `[off, off + cols)`.
pub open spec fn scroll_spec(off: int, x: int, cols: int) -> int {
    if x < off {
        x
    } else if x >= off + cols {
        x - cols + 1
    } else {
        off
    }
}

/// Whether two character sequences are equal.
pub fn chars_eq(a: &Vec<char>, b: &Vec<char>) -> (r: bool)
    ensures
        r == (a@ == b@),
{
    if a.len() != b.len() {
        return false;
    }
    let mut i: usize = 0;
    while i < a.len()
        invariant
            a.len() == b.len(),
            i <= a.len(),
            forall|k: int| 0 <= k < i ==> a@[k] == b@[k],
        decreases a.len() - i,
    {
        if a[i] != b[i] {
            return false;
        }
        i += 1;
    }
    assert(a@ =~= b@);
    true
}

/// The pieces of `t` between newlines, from position `i` on, where `cur`
/// holds what the current piece already has.
pub open spec fn pieces(t: Seq<char>, i: int, cur: Seq<char>) -> Seq<Seq<char>>
    decreases t.len() - i,
{
    if i < 0 || i >= t.len() {
        seq![cur]
    } else if t[i] == '\n' {
        seq![cur] + pieces(t, i + 1, Seq::empty())
    } else {
        pieces(t, i + 1, cur.push(t[i]))
    }
}

/// A line without the carriage return of a `\r\n` ending.
pub open spec fn strip_cr(l: Seq<char>) -> Seq<char> {
    if l.len() > 0 && l.last() == '\r' {
        l.drop_last()
    } else {
        l
    }
}

/// The lines of a text as `str::lines` gives them: split at `\n`, a `\r`
/// before it dropped, and no empty line after a final newline.
pub open spec fn split_lines_spec(t: Seq<char>) -> Seq<Seq<char>> {
    let ps = pieces(t, 0, Seq::empty());
    let body = ps.drop_last().map_values(|l: Seq<char>| strip_cr(l));
    if ps.last().len() == 0 {
        body
    } else {
        body.push(ps.last())
    }
}

/// The buffer a loaded text gives: its lines, or one empty line for a text
/// that has none.
pub open spec fn buffer_of(t: Seq<char>) -> Seq<Seq<char>> {
    if split_lines_spec(t).len() == 0 {
        seq![Seq::<char>::empty()]
    } else {
        split_lines_spec(t)
    }
}

/// The lines joined with `\n` between them.
pub open spec fn join_spec(ls: Seq<Seq<char>>) -> Seq<char>
    decreases ls.len(),
{
    if ls.len() == 0 {
        Seq::empty()
    } else if ls.len() == 1 {
        ls[0]
    } else {
        join_spec(ls.drop_last()) + seq!['\n'] + ls.last()
    }
}

/// A line holds no newline.
pub open spec fn no_newline(l: Seq<char>) -> bool {
    forall|k: int| 0 <= k < l.len() ==> l[k] != '\n'
}

proof fn lemma_pieces_shift(w: Seq<char>, v: Seq<char>, m: int, cur: Seq<char>)
    requires
        0 <= m <= v.len(),
    ensures
        pieces(w + v, w.len() + m, cur) == pieces(v, m, cur),
    decreases v.len() - m,
{
    let t = w + v;
    if m < v.len() {
        assert(t[w.len() + m] == v[m]);
        if v[m] == '\n' {
            lemma_pieces_shift(w, v, m + 1, Seq::empty());
        } else {
            lemma_pieces_shift(w, v, m + 1, cur.push(v[m]));
        }
    }
}

proof fn lemma_pieces_run(t: Seq<char>, i: int, j: int, cur: Seq<char>)
    requires
        0 <= i <= j <= t.len(),
        forall|k: int| i <= k < j ==> t[k] != '\n',
    ensures
        pieces(t, i, cur) == pieces(t, j, cur + t.subrange(i, j)),
    decreases j - i,
{
    if i == j {
        assert(cur + t.subrange(i, j) =~= cur);
    } else {
        lemma_pieces_run(t, i + 1, j, cur.push(t[i]));
        assert(cur.push(t[i]) + t.subrange(i + 1, j) =~= cur + t.subrange(i, j));
    }
}

proof fn lemma_join_front(ls: Seq<Seq<char>>)
    requires
        ls.len() >= 2,
    ensures
        join_spec(ls) == ls[0] + seq!['\n'] + join_spec(ls.drop_first()),
    decreases ls.len(),
{
    let rest = ls.drop_first();
    if ls.len() == 2 {
        assert(ls.drop_last() =~= seq![ls[0]]);
        assert(rest =~= seq![ls[1]]);
        assert(join_spec(ls.drop_last()) == ls[0]);
        assert(join_spec(rest) == ls[1]);
        assert(join_spec(ls) == join_spec(ls.drop_last()) + seq!['\n'] + ls.last());
    } else {
        lemma_join_front(ls.drop_last());
        assert(ls.drop_last().drop_first() =~= rest.drop_last());
        assert(ls.drop_last()[0] == ls[0]);
        assert(rest.last() == ls.last());
        assert(join_spec(rest) == join_spec(rest.drop_last()) + seq!['\n'] + rest.last());
        assert(join_spec(ls) == join_spec(ls.drop_last()) + seq!['\n'] + ls.last());
        assert(join_spec(ls) =~= ls[0] + seq!['\n'] + join_spec(rest));
    }
}

proof fn lemma_pieces_of_join(ls: Seq<Seq<char>>)
    requires
        ls.len() >= 1,
        forall|i: int| 0 <= i < ls.len() ==> no_newline(#[trigger] ls[i]),
    ensures
        pieces(join_spec(ls), 0, Seq::empty()) == ls,
    decreases ls.len(),
{
    let l0 = ls[0];
    if ls.len() == 1 {
        assert(no_newline(l0));
        lemma_pieces_run(l0, 0, l0.len() as int, Seq::empty());
        assert(Seq::<char>::empty() + l0.subrange(0, l0.len() as int) =~= l0);
        assert(ls =~= seq![l0]);
    } else {
        let rest = ls.drop_first();
        assert forall|i: int| 0 <= i < rest.len() implies no_newline(#[trigger] rest[i]) by {
            assert(rest[i] == ls[i + 1]);
        }
        lemma_pieces_of_join(rest);
        lemma_join_front(ls);
        let w = l0 + seq!['\n'];
        let t = w + join_spec(rest);
        assert(join_spec(ls) =~= t);
        assert(no_newline(l0));
        assert forall|k: int| 0 <= k < l0.len() implies t[k] != '\n' by {
            assert(t[k] == l0[k]);
        }
        lemma_pieces_run(t, 0, l0.len() as int, Seq::empty());
        assert(Seq::<char>::empty() + t.subrange(0, l0.len() as int) =~= l0);
        assert(t[l0.len() as int] == '\n');
        lemma_pieces_shift(w, join_spec(rest), 0, Seq::empty());
        assert(pieces(t, l0.len() as int + 1, Seq::empty()) == rest);
        assert(seq![l0] + rest =~= ls);
    }
}

/// Loading the text that saving writes gives back the same lines, provided
/// no line holds a newline, no line but the last ends in a carriage return,
/// and the last line is not empty unless it is the only one.
pub proof fn lemma_load_after_save(ls: Seq<Seq<char>>)
    requires
        ls.len() >= 1,
        forall|i: int| 0 <= i < ls.len() ==> no_newline(#[trigger] ls[i]),
        forall|i: int| 0 <= i < ls.len() - 1 ==> strip_cr(#[trigger] ls[i]) == ls[i],
        ls.len() == 1 || ls.last().len() > 0,
    ensures
        buffer_of(join_spec(ls)) == ls,
{
    lemma_pieces_of_join(ls);
    let ps = pieces(join_spec(ls), 0, Seq::empty());
    let body = ps.drop_last().map_values(|l: Seq<char>| strip_cr(l));
    assert(body =~= ls.drop_last()) by {
        assert forall|i: int| 0 <= i < body.len() implies body[i] == ls.drop_last()[i] by {
            assert(strip_cr(ls[i]) == ls[i]);
        }
    }
    if ls.last().len() == 0 {
        assert(ls =~= seq![Seq::<char>::empty()]);
    } else {
        assert(body.push(ls.last()) =~= ls);
    }
}

proof fn lemma_pieces_len(t: Seq<char>, i: int, cur: Seq<char>)
    ensures
        pieces(t, i, cur).len() >= 1,
    decreases t.len() - i,
{
    if 0 <= i < t.len() {
        if t[i] == '\n' {
            lemma_pieces_len(t, i + 1, Seq::empty());
        } else {
            lemma_pieces_len(t, i + 1, cur.push(t[i]));
        }
    }
}

/// Splits a text into the lines of a buffer.
pub fn split_lines(t: &Vec<char>) -> (r: Vec<Vec<char>>)
    ensures
        lines_view(r@) == buffer_of(t@),
{
    let ghost s = t@;
    let mut r: Vec<Vec<char>> = Vec::new();
    let mut cur: Vec<char> = Vec::new();
    let ghost mut done: Seq<Seq<char>> = Seq::empty();
    let mut i: usize = 0;
    assert(lines_view(r@) =~= done.map_values(|l: Seq<char>| strip_cr(l)));
    while i < t.len()
        invariant
            i <= t.len(),
            s == t@,
            done + pieces(s, i as int, cur@) == pieces(s, 0, Seq::empty()),
            lines_view(r@) == done.map_values(|l: Seq<char>| strip_cr(l)),
        decreases t.len() - i,
    {
        let c = t[i];
        if c == '\n' {
            let ghost raw = cur@;
            let n = cur.len();
            if n > 0 && cur[n - 1] == '\r' {
                cur.pop();
            }
            assert(cur@ == strip_cr(raw));
            let ghost prev = r@;
            let ghost done0 = done;
            r.push(cur);
            cur = Vec::new();
            proof {
                done = done0.push(raw);
                assert(pieces(s, i as int, raw) == seq![raw] + pieces(s, i + 1, Seq::empty()));
                assert(done0 + (seq![raw] + pieces(s, i + 1, Seq::empty())) =~= done + pieces(
                    s,
                    i + 1,
                    cur@,
                ));
                assert(lines_view(r@) =~= lines_view(prev).push(strip_cr(raw)));
                assert(done.map_values(|l: Seq<char>| strip_cr(l)) =~= done0.map_values(
                    |l: Seq<char>| strip_cr(l),
                ).push(strip_cr(raw)));
            }
            i += 1;
        } else {
            let ghost raw = cur@;
            cur.push(c);
            assert(pieces(s, i as int, raw) == pieces(s, i + 1, cur@));
            i += 1;
        }
    }
    let ghost all = pieces(s, 0, Seq::empty());
    assert(pieces(s, i as int, cur@) == seq![cur@]);
    assert(all.drop_last() =~= done);
    assert(all.last() == cur@);
    if cur.len() > 0 {
        let ghost prev = r@;
        r.push(cur);
        assert(lines_view(r@) =~= lines_view(prev).push(all.last()));
    }
    assert(lines_view(r@) == split_lines_spec(s));
    if r.len() == 0 {
        r.push(Vec::new());
        assert(lines_view(r@) =~= seq![Seq::<char>::empty()]);
    }
    r
}

/// The lines joined with newlines, as a file holds them.
pub fn join_lines(ls: &Vec<Vec<char>>) -> (r: Vec<char>)
    ensures
        r@ == join_spec(lines_view(ls@)),
{
    let ghost lv = lines_view(ls@);
    let mut r: Vec<char> = Vec::new();
    let mut i: usize = 0;
    while i < ls.len()
        invariant
            i <= ls.len(),
            lv == lines_view(ls@),
            r@ == join_spec(lv.subrange(0, i as int)),
        decreases ls.len() - i,
    {
        let ghost prev = r@;
        if i > 0 {
            r.push('\n');
        }
        let line = &ls[i];
        let mut k: usize = 0;
        let ghost mid = r@;
        while k < line.len()
            invariant
                k <= line.len(),
                r@ == mid + line@.subrange(0, k as int),
            decreases line.len() - k,
        {
            r.push(line[k]);
            k += 1;
            assert(r@ =~= mid + line@.subrange(0, k as int));
        }
        assert(line@.subrange(0, k as int) =~= line@);
        let ghost sub = lv.subrange(0, i + 1);
        assert(sub.drop_last() =~= lv.subrange(0, i as int));
        assert(sub.last() == line@);
        assert(r@ =~= join_spec(sub));
        i += 1;
    }
    assert(lv.subrange(0, i as int) =~= lv);
    r
}

/// A fresh copy of a line.
pub fn copy_line(l: &Vec<char>) -> (r: Vec<char>)
    ensures
        r@ == l@,
{
    let mut r: Vec<char> = Vec::new();
    let mut i: usize = 0;
    while i < l.len()
        invariant
            i <= l.len(),
            r@ == l@.subrange(0, i as int),
        decreases l.len() - i,
    {
        r.push(l[i]);
        i += 1;
        assert(r@ =~= l@.subrange(0, i as int));
    }
    assert(r@ =~= l@);
    r
}

/// A fresh copy of a sequence of lines.
pub fn copy_lines(ls: &Vec<Vec<char>>) -> (r: Vec<Vec<char>>)
    ensures
        lines_view(r@) == lines_view(ls@),
{
    let mut r: Vec<Vec<char>> = Vec::new();
    let mut i: usize = 0;
    while i < ls.len()
        invariant
            i <= ls.len(),
            lines_view(r@) == lines_view(ls@).subrange(0, i as int),
        decreases ls.len() - i,
    {
        let l = copy_line(&ls[i]);
        let ghost prev = r@;
        r.push(l);
        assert(lines_view(r@) =~= lines_view(prev).push(ls@[i as int]@));
        i += 1;
        assert(lines_view(r@) =~= lines_view(ls@).subrange(0, i as int));
    }
    assert(lines_view(r@) =~= lines_view(ls@));
    r
}

} // verus!
