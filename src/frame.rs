use vstd::prelude::*;

verus! {

/// The first `n` characters of `s`, or all of them if it is shorter.
pub open spec fn take(s: Seq<char>, n: int) -> Seq<char> {
    if n < s.len() {
        s.subrange(0, n)
    } else {
        s
    }
}

/// What a screen row shows of `line` with the view scrolled to column `off`
/// on a screen `cols` wide: the characters from column `off` on, cut to
/// `cols`, so that screen column `j` shows `line[off + j]`.
pub open spec fn display_spec(line: Seq<char>, off: int, cols: int) -> Seq<char> {
    let start = if off < line.len() {
        off
    } else {
        line.len() as int
    };
    take(line.subrange(start, line.len() as int), cols)
}

/// The screen text of a buffer line.
pub fn display_line(line: &Vec<char>, off: usize, cols: usize) -> (r: Vec<char>)
    ensures
        r@ == display_spec(line@, off as int, cols as int),
{
    let mut r: Vec<char> = Vec::new();
    let n = line.len();
    let start = if off < n {
        off
    } else {
        n
    };
    let mut k: usize = start;
    while k < n && k - start < cols
        invariant
            n == line.len(),
            start <= k <= n,
            k - start <= cols,
            r@ == line@.subrange(start as int, k as int),
        decreases n - k,
    {
        r.push(line[k]);
        k += 1;
        assert(r@ =~= line@.subrange(start as int, k as int));
    }
    assert(r@ =~= display_spec(line@, off as int, cols as int));
    r
}

pub open spec fn digit_char(d: int) -> char {
    ((d + 48) as u8) as char
}

/// The decimal digits of `n`.
pub open spec fn decimal(n: nat) -> Seq<char>
    decreases n,
{
    if n < 10 {
        seq![digit_char(n as int)]
    } else {
        decimal(n / 10).push(digit_char((n % 10) as int))
    }
}

/// Appends the decimal digits of `n`.
pub fn push_decimal(out: &mut Vec<char>, n: u128)
    ensures
        final(out)@ == old(out)@ + decimal(n as nat),
    decreases n,
{
    if n >= 10 {
        push_decimal(out, n / 10);
    }
    let d = (n % 10) as u8;
    out.push((d + 48) as char);
    assert(final(out)@ =~= old(out)@ + decimal(n as nat)) by {
        if n >= 10 {
            assert(decimal(n as nat) == decimal((n / 10) as nat).push(digit_char((n % 10) as int)));
        }
    }
}

pub open spec fn no_name() -> Seq<char> {
    seq!['[', 'N', 'o', ' ', 'N', 'a', 'm', 'e', ']']
}

pub open spec fn modified_mark() -> Seq<char> {
    seq!['[', 'M', 'o', 'd', 'i', 'f', 'i', 'e', 'd', ']']
}

pub open spec fn line_label() -> Seq<char> {
    seq!['L', 'n', ' ']
}

pub open spec fn col_label() -> Seq<char> {
    seq![',', ' ', 'C', 'o', 'l', ' ']
}

pub open spec fn search_label() -> Seq<char> {
    seq!['S', 'e', 'a', 'r', 'c', 'h', ':', ' ']
}

pub open spec fn spaces(n: int) -> Seq<char> {
    Seq::new(if n > 0 { n as nat } else { 0 }, |i: int| ' ')
}

/// The status bar: file name (or a placeholder) and the modified mark on the
/// left, the 1-based line and column on the right, padded and cut to `cols`.
pub open spec fn status_spec(name: Option<Seq<char>>, dirty: bool, row: nat, col: nat, cols: int) -> Seq<char> {
    let info = (match name {
        Some(n) => n,
        None => no_name(),
    }) + seq![' '] + (if dirty {
        modified_mark()
    } else {
        Seq::empty()
    });
    let pos = line_label() + decimal(row + 1) + col_label() + decimal(col + 1);
    take(info + spaces(cols - info.len() - pos.len()) + pos, cols)
}

/// Appends the characters of `s`.
fn push_all(out: &mut Vec<char>, s: &Vec<char>)
    ensures
        final(out)@ == old(out)@ + s@,
{
    let mut k: usize = 0;
    while k < s.len()
        invariant
            k <= s.len(),
            out@ == old(out)@ + s@.subrange(0, k as int),
        decreases s.len() - k,
    {
        out.push(s[k]);
        k += 1;
        assert(out@ =~= old(out)@ + s@.subrange(0, k as int));
    }
    assert(s@.subrange(0, k as int) =~= s@);
}

/// The status bar text.
pub fn status_line(name: &Option<Vec<char>>, dirty: bool, row: usize, col: usize, cols: usize) -> (r: Vec<char>)
    ensures
        r@ == status_spec(
            match name {
                Some(n) => Some(n@),
                None => None,
            },
            dirty,
            row as nat,
            col as nat,
            cols as int,
        ),
{
    let mut info: Vec<char> = Vec::new();
    match name {
        Some(n) => push_all(&mut info, n),
        None => push_all(&mut info, &vec!['[', 'N', 'o', ' ', 'N', 'a', 'm', 'e', ']']),
    }
    info.push(' ');
    if dirty {
        push_all(&mut info, &vec!['[', 'M', 'o', 'd', 'i', 'f', 'i', 'e', 'd', ']']);
    }
    let mut pos: Vec<char> = Vec::new();
    push_all(&mut pos, &vec!['L', 'n', ' ']);
    push_decimal(&mut pos, row as u128 + 1);
    push_all(&mut pos, &vec![',', ' ', 'C', 'o', 'l', ' ']);
    push_decimal(&mut pos, col as u128 + 1);
    let ghost info_v = info@;
    let ghost pos_v = pos@;
    let mut line = info;
    let used = line.len() as u128 + pos.len() as u128;
    let mut pad: u128 = 0;
    let ghost before_pad = line@;
    while used + pad < cols as u128
        invariant
            line@ == before_pad + Seq::new(pad as nat, |i: int| ' '),
            used + pad <= cols as u128 || pad == 0,
            used == info_v.len() + pos_v.len(),
        decreases cols as u128 - used - pad,
    {
        line.push(' ');
        pad += 1;
        assert(line@ =~= before_pad + Seq::new(pad as nat, |i: int| ' '));
    }
    assert(Seq::new(pad as nat, |i: int| ' ') =~= spaces(cols - info_v.len() - pos_v.len()));
    push_all(&mut line, &pos);
    line.truncate(cols);
    proof {
        let full = info_v + spaces(cols - info_v.len() - pos_v.len()) + pos_v;
        assert(before_pad == info_v);
        if cols < full.len() {
            assert(line@ =~= full.subrange(0, cols as int));
        } else {
            assert(line@ =~= full);
        }
    }
    line
}

/// The search prompt with the live query.
pub open spec fn prompt_spec(query: Seq<char>) -> Seq<char> {
    search_label() + query
}

pub fn search_prompt(query: &Vec<char>) -> (r: Vec<char>)
    ensures
        r@ == prompt_spec(query@),
{
    let mut r: Vec<char> = Vec::new();
    push_all(&mut r, &vec!['S', 'e', 'a', 'r', 'c', 'h', ':', ' ']);
    push_all(&mut r, query);
    r
}

} // verus!
