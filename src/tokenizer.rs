use vstd::prelude::*;
use crate::text::{lines_view, chars_eq};
use crate::ColorClass;

verus! {

/// A run of a line's characters with the color class it is drawn in.
pub struct Token {
    pub text: Vec<char>,
    pub class: ColorClass,
}

impl Token {
    pub open spec fn view(&self) -> (Seq<char>, ColorClass) {
        (self.text@, self.class)
    }
}

pub open spec fn tokens_view(ts: Seq<Token>) -> Seq<(Seq<char>, ColorClass)> {
    ts.map_values(|t: Token| t@)
}

/// What `char::is_alphanumeric` answers for a character.
pub uninterp spec fn is_alnum(c: char) -> bool;

/// Relies on `char::is_alphanumeric`: whether a character is alphabetic or
/// numeric in Unicode's tables, which depends on the character alone.
#[verifier::external_body]
fn alphanumeric(c: char) -> (r: bool)
    ensures
        r == is_alnum(c),
{
    c.is_alphanumeric()
}

pub open spec fn is_digit(c: char) -> bool {
    '0' <= c <= '9'
}

/// Whether the character at `j` belongs to a word, where `a[j]` says whether
/// it is alphanumeric (a missing answer counts as no).
pub open spec fn word_at(s: Seq<char>, a: Seq<bool>, j: int) -> bool {
    (j < a.len() && a[j]) || s[j] == '_'
}

/// The alphanumeric answer for each character of `s`.
pub open spec fn alnum_flags(s: Seq<char>) -> Seq<bool> {
    s.map_values(|c: char| is_alnum(c))
}

/// Reserved words, drawn as keywords.
pub open spec fn keywords() -> Seq<Seq<char>> {
    seq![
        seq!['f', 'n'],
        seq!['l', 'e', 't'],
        seq!['m', 'u', 't'],
        seq!['i', 'f'],
        seq!['e', 'l', 's', 'e'],
        seq!['m', 'a', 't', 'c', 'h'],
        seq!['w', 'h', 'i', 'l', 'e'],
        seq!['l', 'o', 'o', 'p'],
        seq!['f', 'o', 'r'],
        seq!['i', 'n'],
        seq!['r', 'e', 't', 'u', 'r', 'n'],
        seq!['s', 't', 'r', 'u', 'c', 't'],
        seq!['i', 'm', 'p', 'l'],
        seq!['e', 'n', 'u', 'm'],
        seq!['u', 's', 'e'],
        seq!['m', 'o', 'd'],
        seq!['p', 'u', 'b'],
        seq!['c', 'r', 'a', 't', 'e'],
        seq!['c', 'o', 'n', 's', 't'],
        seq!['s', 't', 'a', 't', 'i', 'c'],
        seq!['a', 's'],
        seq!['b', 'r', 'e', 'a', 'k'],
        seq!['c', 'o', 'n', 't', 'i', 'n', 'u', 'e'],
        seq!['t', 'r', 'a', 'i', 't'],
        seq!['w', 'h', 'e', 'r', 'e'],
        seq!['r', 'e', 'f'],
        seq!['t', 'y', 'p', 'e'],
    ]
}

/// Built-in type names, drawn as types.
pub open spec fn type_names() -> Seq<Seq<char>> {
    seq![
        seq!['u', 's', 'i', 'z', 'e'],
        seq!['S', 't', 'r', 'i', 'n', 'g'],
        seq!['R', 'e', 's', 'u', 'l', 't'],
        seq!['O', 'p', 't', 'i', 'o', 'n'],
        seq!['V', 'e', 'c'],
        seq!['i', '3', '2'],
        seq!['u', '3', '2'],
        seq!['b', 'o', 'o', 'l'],
    ]
}

/// The end of the run of ASCII digits that starts at `j`.
pub open spec fn digit_end(s: Seq<char>, j: int) -> int
    decreases s.len() - j,
{
    if j < 0 || j >= s.len() || !is_digit(s[j]) {
        j
    } else {
        digit_end(s, j + 1)
    }
}

/// The end of the run of word characters that starts at `j`.
pub open spec fn word_end(s: Seq<char>, a: Seq<bool>, j: int) -> int
    decreases s.len() - j,
{
    if j < 0 || j >= s.len() || !word_at(s, a, j) {
        j
    } else {
        word_end(s, a, j + 1)
    }
}

/// Just past the first `"` at or after `j`, or the end of the line.
pub open spec fn quote_end(s: Seq<char>, j: int) -> int
    decreases s.len() - j,
{
    if j < 0 || j >= s.len() {
        j
    } else if s[j] == '"' {
        j + 1
    } else {
        quote_end(s, j + 1)
    }
}

pub open spec fn starts_comment(s: Seq<char>, i: int) -> bool {
    s[i] == '/' && i + 1 < s.len() && s[i + 1] == '/'
}

/// Where the token that starts at `i` ends.
pub open spec fn token_end(s: Seq<char>, a: Seq<bool>, i: int) -> int {
    if starts_comment(s, i) {
        s.len() as int
    } else if s[i] == '"' {
        quote_end(s, i + 1)
    } else if is_digit(s[i]) {
        digit_end(s, i)
    } else if word_at(s, a, i) {
        word_end(s, a, i)
    } else {
        i + 1
    }
}

pub open spec fn word_class(w: Seq<char>) -> ColorClass {
    if keywords().contains(w) {
        ColorClass::Keyword
    } else if type_names().contains(w) {
        ColorClass::Type
    } else {
        ColorClass::Plain
    }
}

/// The class of the token that starts at `i`.
pub open spec fn token_class(s: Seq<char>, a: Seq<bool>, i: int) -> ColorClass {
    if starts_comment(s, i) {
        ColorClass::Comment
    } else if s[i] == '"' {
        ColorClass::Str
    } else if is_digit(s[i]) {
        ColorClass::Number
    } else if word_at(s, a, i) {
        word_class(s.subrange(i, word_end(s, a, i)))
    } else {
        ColorClass::Plain
    }
}

pub proof fn lemma_run_ends(s: Seq<char>, a: Seq<bool>, j: int)
    requires
        0 <= j <= s.len(),
    ensures
        j <= digit_end(s, j) <= s.len(),
        j <= word_end(s, a, j) <= s.len(),
        j <= quote_end(s, j) <= s.len(),
    decreases s.len() - j,
{
    if j < s.len() {
        lemma_run_ends(s, a, j + 1);
    }
}

/// Every token is non-empty and stays within the line.
pub proof fn lemma_token_end(s: Seq<char>, a: Seq<bool>, i: int)
    requires
        0 <= i < s.len(),
    ensures
        i < token_end(s, a, i) <= s.len(),
{
    lemma_run_ends(s, a, i);
    lemma_run_ends(s, a, i + 1);
}

/// The tokens of `s` from position `i` on, with `a` the alphanumeric answers.
pub open spec fn tokens_from(s: Seq<char>, a: Seq<bool>, i: int) -> Seq<(Seq<char>, ColorClass)>
    decreases s.len() - i,
    via tokens_from_decreases
{
    if i < 0 || i >= s.len() {
        Seq::empty()
    } else {
        seq![(s.subrange(i, token_end(s, a, i)), token_class(s, a, i))] + tokens_from(s, a, token_end(s, a, i))
    }
}

#[via_fn]
proof fn tokens_from_decreases(s: Seq<char>, a: Seq<bool>, i: int) {
    if 0 <= i < s.len() {
        lemma_token_end(s, a, i);
    }
}

/// The tokens of a whole line, given whether each character is alphanumeric.
pub open spec fn tokens_with_spec(s: Seq<char>, a: Seq<bool>) -> Seq<(Seq<char>, ColorClass)> {
    tokens_from(s, a, 0)
}

/// The tokens of a whole line.
pub open spec fn tokens_spec(s: Seq<char>) -> Seq<(Seq<char>, ColorClass)> {
    tokens_with_spec(s, alnum_flags(s))
}

/// The texts of `ts`, one after another.
pub open spec fn concat(ts: Seq<(Seq<char>, ColorClass)>) -> Seq<char>
    decreases ts.len(),
{
    if ts.len() == 0 {
        Seq::empty()
    } else {
        ts[0].0 + concat(ts.drop_first())
    }
}

/// The tokens of a line, put back together, give the line: nothing is dropped
/// or repeated.
pub proof fn lemma_tokens_cover(s: Seq<char>)
    ensures
        concat(tokens_spec(s)) == s,
{
    lemma_tokens_with_cover(s, alnum_flags(s));
}

/// The same holds whatever the alphanumeric answers are.
pub proof fn lemma_tokens_with_cover(s: Seq<char>, a: Seq<bool>)
    ensures
        concat(tokens_with_spec(s, a)) == s,
{
    lemma_tokens_from_cover(s, a, 0);
    assert(s.subrange(0, s.len() as int) =~= s);
}

proof fn lemma_tokens_from_cover(s: Seq<char>, a: Seq<bool>, i: int)
    requires
        0 <= i <= s.len(),
    ensures
        concat(tokens_from(s, a, i)) == s.subrange(i, s.len() as int),
    decreases s.len() - i,
{
    if i < s.len() {
        let e = token_end(s, a, i);
        lemma_token_end(s, a, i);
        lemma_tokens_from_cover(s, a, e);
        let ts = tokens_from(s, a, i);
        assert(ts.drop_first() =~= tokens_from(s, a, e));
        assert(s.subrange(i, e) + s.subrange(e, s.len() as int) =~= s.subrange(i, s.len() as int));
    } else {
        assert(s.subrange(i, s.len() as int) =~= Seq::<char>::empty());
    }
}

fn keyword_list() -> (r: Vec<Vec<char>>)
    ensures
        lines_view(r@) == keywords(),
{
    let mut r: Vec<Vec<char>> = Vec::new();
    r.push(vec!['f', 'n']);
    r.push(vec!['l', 'e', 't']);
    r.push(vec!['m', 'u', 't']);
    r.push(vec!['i', 'f']);
    r.push(vec!['e', 'l', 's', 'e']);
    r.push(vec!['m', 'a', 't', 'c', 'h']);
    r.push(vec!['w', 'h', 'i', 'l', 'e']);
    r.push(vec!['l', 'o', 'o', 'p']);
    r.push(vec!['f', 'o', 'r']);
    r.push(vec!['i', 'n']);
    r.push(vec!['r', 'e', 't', 'u', 'r', 'n']);
    r.push(vec!['s', 't', 'r', 'u', 'c', 't']);
    r.push(vec!['i', 'm', 'p', 'l']);
    r.push(vec!['e', 'n', 'u', 'm']);
    r.push(vec!['u', 's', 'e']);
    r.push(vec!['m', 'o', 'd']);
    r.push(vec!['p', 'u', 'b']);
    r.push(vec!['c', 'r', 'a', 't', 'e']);
    r.push(vec!['c', 'o', 'n', 's', 't']);
    r.push(vec!['s', 't', 'a', 't', 'i', 'c']);
    r.push(vec!['a', 's']);
    r.push(vec!['b', 'r', 'e', 'a', 'k']);
    r.push(vec!['c', 'o', 'n', 't', 'i', 'n', 'u', 'e']);
    r.push(vec!['t', 'r', 'a', 'i', 't']);
    r.push(vec!['w', 'h', 'e', 'r', 'e']);
    r.push(vec!['r', 'e', 'f']);
    r.push(vec!['t', 'y', 'p', 'e']);
    assert(lines_view(r@) =~= keywords());
    r
}

fn type_list() -> (r: Vec<Vec<char>>)
    ensures
        lines_view(r@) == type_names(),
{
    let mut r: Vec<Vec<char>> = Vec::new();
    r.push(vec!['u', 's', 'i', 'z', 'e']);
    r.push(vec!['S', 't', 'r', 'i', 'n', 'g']);
    r.push(vec!['R', 'e', 's', 'u', 'l', 't']);
    r.push(vec!['O', 'p', 't', 'i', 'o', 'n']);
    r.push(vec!['V', 'e', 'c']);
    r.push(vec!['i', '3', '2']);
    r.push(vec!['u', '3', '2']);
    r.push(vec!['b', 'o', 'o', 'l']);
    assert(lines_view(r@) =~= type_names());
    r
}

/// Whether `w` is one of `list`.
fn contains_word(list: &Vec<Vec<char>>, w: &Vec<char>) -> (r: bool)
    ensures
        r == lines_view(list@).contains(w@),
{
    let mut i: usize = 0;
    while i < list.len()
        invariant
            i <= list.len(),
            forall|k: int| 0 <= k < i ==> list@[k]@ != w@,
        decreases list.len() - i,
    {
        if chars_eq(&list[i], w) {
            assert(lines_view(list@)[i as int] == w@);
            return true;
        }
        i += 1;
    }
    assert forall|k: int| 0 <= k < lines_view(list@).len() implies lines_view(list@)[k] != w@ by {
        assert(lines_view(list@)[k] == list@[k]@);
    }
    false
}

/// The characters of `s` from `i` to `j`.
fn slice(s: &Vec<char>, i: usize, j: usize) -> (r: Vec<char>)
    requires
        i <= j <= s.len(),
    ensures
        r@ == s@.subrange(i as int, j as int),
{
    let mut r: Vec<char> = Vec::new();
    let mut k: usize = i;
    while k < j
        invariant
            i <= k <= j <= s.len(),
            r@ == s@.subrange(i as int, k as int),
        decreases j - k,
    {
        r.push(s[k]);
        k += 1;
        assert(r@ =~= s@.subrange(i as int, k as int));
    }
    r
}

/// The end and class of the token that starts at `i`.
fn next_token(s: &Vec<char>, alnum: &Vec<bool>, i: usize) -> (r: (usize, ColorClass))
    requires
        i < s.len(),
    ensures
        r.0 == token_end(s@, alnum@, i as int),
        r.1 == token_class(s@, alnum@, i as int),
{
    let n = s.len();
    let c = s[i];
    if c == '/' && i + 1 < n && s[i + 1] == '/' {
        return (n, ColorClass::Comment);
    }
    if c == '"' {
        let mut j: usize = i + 1;
        while j < n && s[j] != '"'
            invariant
                i < j <= n,
                n == s.len(),
                quote_end(s@, j as int) == quote_end(s@, i + 1),
            decreases n - j,
        {
            j += 1;
        }
        if j < n {
            j += 1;
        }
        return (j, ColorClass::Str);
    }
    if '0' <= c && c <= '9' {
        let mut j: usize = i;
        while j < n && '0' <= s[j] && s[j] <= '9'
            invariant
                i <= j <= n,
                n == s.len(),
                digit_end(s@, j as int) == digit_end(s@, i as int),
            decreases n - j,
        {
            j += 1;
        }
        return (j, ColorClass::Number);
    }
    if (i < alnum.len() && alnum[i]) || c == '_' {
        let mut j: usize = i;
        while j < n && ((j < alnum.len() && alnum[j]) || s[j] == '_')
            invariant
                i <= j <= n,
                n == s.len(),
                word_end(s@, alnum@, j as int) == word_end(s@, alnum@, i as int),
            decreases n - j,
        {
            j += 1;
        }
        let w = slice(s, i, j);
        let class = if contains_word(&keyword_list(), &w) {
            ColorClass::Keyword
        } else if contains_word(&type_list(), &w) {
            ColorClass::Type
        } else {
            ColorClass::Plain
        };
        return (j, class);
    }
    (i + 1, ColorClass::Plain)
}

/// Splits a line into colored tokens, where `alnum[j]` says whether
/// character `j` is alphanumeric: `//` comments to the end of the line,
/// string literals through the closing quote, digit runs, words (keywords,
/// type names or plain) and single other characters.
pub fn tokenize_with(line: &Vec<char>, alnum: &Vec<bool>) -> (r: Vec<Token>)
    ensures
        tokens_view(r@) == tokens_with_spec(line@, alnum@),
{
    let ghost s = line@;
    let ghost a = alnum@;
    let mut r: Vec<Token> = Vec::new();
    let mut i: usize = 0;
    while i < line.len()
        invariant
            i <= line.len(),
            s == line@,
            a == alnum@,
            tokens_view(r@) + tokens_from(s, a, i as int) == tokens_with_spec(s, a),
        decreases line.len() - i,
    {
        let (e, class) = next_token(line, alnum, i);
        proof {
            lemma_token_end(s, a, i as int);
        }
        let text = slice(line, i, e);
        let ghost prev = r@;
        r.push(Token { text, class });
        assert(tokens_view(r@) =~= tokens_view(prev).push((s.subrange(i as int, e as int), class)));
        assert(tokens_from(s, a, i as int) == seq![(s.subrange(i as int, e as int), class)] + tokens_from(s, a, e as int));
        assert(tokens_view(r@) + tokens_from(s, a, e as int) =~= tokens_view(prev) + tokens_from(s, a, i as int));
        i = e;
    }
    assert(tokens_view(r@) =~= tokens_with_spec(s, a));
    r
}

/// Splits a line into colored tokens, asking `char::is_alphanumeric` about
/// each character.
pub fn tokenize(line: &Vec<char>) -> (r: Vec<Token>)
    ensures
        tokens_view(r@) == tokens_spec(line@),
{
    let mut alnum: Vec<bool> = Vec::new();
    let mut i: usize = 0;
    while i < line.len()
        invariant
            i <= line.len(),
            alnum@ == alnum_flags(line@).subrange(0, i as int),
        decreases line.len() - i,
    {
        alnum.push(alphanumeric(line[i]));
        i += 1;
        assert(alnum@ =~= alnum_flags(line@).subrange(0, i as int));
    }
    assert(alnum@ =~= alnum_flags(line@));
    tokenize_with(line, &alnum)
}

} // verus!
