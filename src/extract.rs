use vstd::prelude::*;
use vstd::string::*;

use crate::text::{chars_of, has_prefix, prefix_at};

verus! {

/// Unicode White_Space, the property that `char::is_whitespace` follows.
pub open spec fn is_white(c: char) -> bool {
    let u = c as u32;
    ||| 9 <= u <= 13
    ||| u == 32
    ||| u == 0x85
    ||| u == 0xA0
    ||| u == 0x1680
    ||| 0x2000 <= u <= 0x200A
    ||| u == 0x2028
    ||| u == 0x2029
    ||| u == 0x202F
    ||| u == 0x205F
    ||| u == 0x3000
}

/// Whether `c` is white space.
pub fn white(c: char) -> (r: bool)
    ensures
        r == is_white(c),
{
    let u = c as u32;
    (9 <= u && u <= 13) || u == 32 || u == 0x85 || u == 0xA0 || u == 0x1680 || (0x2000 <= u && u
        <= 0x200A) || u == 0x2028 || u == 0x2029 || u == 0x202F || u == 0x205F || u == 0x3000
}

/// `s` without its leading white space.
pub open spec fn trim_start(s: Seq<char>) -> Seq<char>
    decreases s.len(),
{
    if s.len() > 0 && is_white(s[0]) {
        trim_start(s.drop_first())
    } else {
        s
    }
}

/// `s` without its trailing white space.
pub open spec fn trim_end(s: Seq<char>) -> Seq<char>
    decreases s.len(),
{
    if s.len() > 0 && is_white(s.last()) {
        trim_end(s.drop_last())
    } else {
        s
    }
}

/// `s` without leading and trailing white space.
pub open spec fn trim(s: Seq<char>) -> Seq<char> {
    trim_end(trim_start(s))
}

/// The first index at or after `i` where `s` holds `c`, or the length of `s`.
pub open spec fn find_from(s: Seq<char>, c: char, i: int) -> int
    decreases s.len() - i,
{
    if i >= s.len() {
        s.len() as int
    } else if s[i] == c {
        i
    } else {
        find_from(s, c, i + 1)
    }
}

/// The first index at or after `i` where `s` holds a character that is not
/// white space (`white == false`) or that is (`white == true`), or the length.
pub open spec fn find_kind_from(s: Seq<char>, white: bool, i: int) -> int
    decreases s.len() - i,
{
    if i >= s.len() {
        s.len() as int
    } else if is_white(s[i]) == white {
        i
    } else {
        find_kind_from(s, white, i + 1)
    }
}

proof fn lemma_find_from_bounds(s: Seq<char>, c: char, i: int)
    requires
        0 <= i,
    ensures
        i <= s.len() ==> i <= find_from(s, c, i) <= s.len(),
    decreases s.len() - i,
{
    if i < s.len() && s[i] != c {
        lemma_find_from_bounds(s, c, i + 1);
    }
}

proof fn lemma_find_kind_from_bounds(s: Seq<char>, white: bool, i: int)
    requires
        0 <= i,
    ensures
        i <= s.len() ==> i <= find_kind_from(s, white, i) <= s.len(),
        i <= s.len() && find_kind_from(s, white, i) < s.len() ==> is_white(
            s[find_kind_from(s, white, i)],
        ) == white,
    decreases s.len() - i,
{
    if i < s.len() && is_white(s[i]) != white {
        lemma_find_kind_from_bounds(s, white, i + 1);
    }
}

/// The text of the line that starts at `i`: up to the next `\n`, without a
/// `\r` just before that `\n`.
pub open spec fn line_at(s: Seq<char>, i: int) -> Seq<char> {
    let e = find_from(s, '\n', i);
    if e < s.len() && e > i && s[e - 1] == '\r' {
        s.subrange(i, e - 1)
    } else {
        s.subrange(i, e)
    }
}

/// The lines of `s` from index `i` on, as `str::lines` gives them.
pub open spec fn lines_from(s: Seq<char>, i: int) -> Seq<Seq<char>>
    decreases s.len() + 1 - i,
    via lines_from_decreases
{
    if i < 0 || i >= s.len() {
        Seq::empty()
    } else {
        seq![line_at(s, i)] + lines_from(s, find_from(s, '\n', i) + 1)
    }
}

#[via_fn]
proof fn lines_from_decreases(s: Seq<char>, i: int) {
    if 0 <= i < s.len() {
        lemma_find_from_bounds(s, '\n', i);
    }
}

/// The lines of `s`.
pub open spec fn lines_of(s: Seq<char>) -> Seq<Seq<char>> {
    lines_from(s, 0)
}

/// The whitespace-separated words of `s` from index `i` on, as
/// `str::split_whitespace` gives them.
pub open spec fn words_from(s: Seq<char>, i: int) -> Seq<Seq<char>>
    decreases s.len() - i,
    via words_from_decreases
{
    let a = find_kind_from(s, false, i);
    if i < 0 || a >= s.len() {
        Seq::empty()
    } else {
        let b = find_kind_from(s, true, a);
        seq![s.subrange(a, b)] + words_from(s, b)
    }
}

#[via_fn]
proof fn words_from_decreases(s: Seq<char>, i: int) {
    if 0 <= i <= s.len() {
        lemma_find_kind_from_bounds(s, false, i);
        let a = find_kind_from(s, false, i);
        if a < s.len() {
            lemma_find_kind_from_bounds(s, true, a);
            if find_kind_from(s, true, a) == a {
                assert(is_white(s[a]));
            }
        }
    } else if i > s.len() {
        assert(find_kind_from(s, false, i) == s.len());
    }
}

/// The whitespace-separated words of `s`.
pub open spec fn words_of(s: Seq<char>) -> Seq<Seq<char>> {
    words_from(s, 0)
}

/// Whether `p` occurs in `s`.
pub open spec fn contains_text(s: Seq<char>, p: Seq<char>) -> bool {
    exists|k: int| 0 <= k && k + p.len() <= s.len() && #[trigger] s.subrange(k, k + p.len()) == p
}

/// Which line of a text an attribute is read from.
#[derive(Clone, Debug)]
pub enum LineSelect {
    /// The whole text, as one piece.
    Whole,
    /// The line with this index, counting from zero.
    Nth(usize),
    /// The first line that begins with this text.
    StartingWith(String),
    /// The first line that holds this text.
    Containing(String),
}

/// A line selection as plain values.
pub enum SelectView {
    Whole,
    Nth(nat),
    StartingWith(Seq<char>),
    Containing(Seq<char>),
}

impl View for LineSelect {
    type V = SelectView;

    open spec fn view(&self) -> SelectView {
        match self {
            LineSelect::Whole => SelectView::Whole,
            LineSelect::Nth(n) => SelectView::Nth(*n as nat),
            LineSelect::StartingWith(p) => SelectView::StartingWith(p@),
            LineSelect::Containing(p) => SelectView::Containing(p@),
        }
    }
}

/// Whether line `l` is one that `sel` looks for.
pub open spec fn line_matches(l: Seq<char>, sel: LineSelect) -> bool {
    match sel {
        LineSelect::StartingWith(p) => has_prefix(l, p@),
        LineSelect::Containing(p) => contains_text(l, p@),
        _ => false,
    }
}

/// The first of `ls` that `sel` looks for, or the empty text.
pub open spec fn first_matching(ls: Seq<Seq<char>>, sel: LineSelect) -> Seq<char>
    decreases ls.len(),
{
    if ls.len() == 0 {
        Seq::empty()
    } else if line_matches(ls[0], sel) {
        ls[0]
    } else {
        first_matching(ls.drop_first(), sel)
    }
}

/// The piece of `text` that `sel` selects; the empty text when there is none.
pub open spec fn selected(text: Seq<char>, sel: LineSelect) -> Seq<char> {
    match sel {
        LineSelect::Whole => text,
        LineSelect::Nth(n) => if n < lines_of(text).len() {
            lines_of(text)[n as int]
        } else {
            Seq::empty()
        },
        _ => first_matching(lines_of(text), sel),
    }
}

/// The second piece of `l` split at `d`: what stands between the first and
/// the second `d`, or after the first when there is no second; empty when `l`
/// holds no `d`.
pub open spec fn second_field(l: Seq<char>, d: char) -> Seq<char> {
    let a = find_from(l, d, 0);
    if a >= l.len() {
        Seq::empty()
    } else {
        l.subrange(a + 1, find_from(l, d, a + 1))
    }
}

/// How an attribute is read out of a probe's text.
#[derive(Clone, Debug)]
pub enum Extraction {
    /// The selected piece, trimmed.
    Trimmed(LineSelect),
    /// The second piece of the selected line split at `delimiter`, trimmed
    /// when `trimmed` is set.
    Field { line: LineSelect, delimiter: char, trimmed: bool },
    /// The word with this index in the selected line.
    Word { line: LineSelect, index: usize },
}

/// An extraction rule as plain values.
pub enum RuleView {
    Trimmed(SelectView),
    Field { line: SelectView, delimiter: char, trimmed: bool },
    Word { line: SelectView, index: nat },
}

impl View for Extraction {
    type V = RuleView;

    open spec fn view(&self) -> RuleView {
        match self {
            Extraction::Trimmed(sel) => RuleView::Trimmed(sel@),
            Extraction::Field { line, delimiter, trimmed } => RuleView::Field {
                line: line@,
                delimiter: *delimiter,
                trimmed: *trimmed,
            },
            Extraction::Word { line, index } => RuleView::Word { line: line@, index: *index as nat },
        }
    }
}

/// The attribute that `rule` reads out of `text`.
pub open spec fn extracted(text: Seq<char>, rule: Extraction) -> Seq<char> {
    match rule {
        Extraction::Trimmed(sel) => trim(selected(text, sel)),
        Extraction::Field { line, delimiter, trimmed } => {
            let f = second_field(selected(text, line), delimiter);
            if trimmed {
                trim(f)
            } else {
                f
            }
        },
        Extraction::Word { line, index } => {
            let ws = words_of(selected(text, line));
            if index < ws.len() {
                ws[index as int]
            } else {
                Seq::empty()
            }
        },
    }
}

/// The first index at or after `i` where `s` holds `c`, or the length.
fn find_char(s: &Vec<char>, c: char, i: usize) -> (r: usize)
    requires
        i <= s@.len(),
    ensures
        r == find_from(s@, c, i as int),
        i <= r <= s@.len(),
{
    let mut j = i;
    while j < s.len() && s[j] != c
        invariant
            i <= j <= s@.len(),
            find_from(s@, c, i as int) == find_from(s@, c, j as int),
        decreases s@.len() - j,
    {
        j = j + 1;
    }
    j
}

/// The first index at or after `i` where `s` holds a white space character
/// (`want_white`) or one that is not (`!want_white`), or the length.
fn find_kind(s: &Vec<char>, want_white: bool, i: usize) -> (r: usize)
    requires
        i <= s@.len(),
    ensures
        r == find_kind_from(s@, want_white, i as int),
        i <= r <= s@.len(),
        r < s@.len() ==> is_white(s@[r as int]) == want_white,
{
    let mut j = i;
    while j < s.len() && white(s[j]) != want_white
        invariant
            i <= j <= s@.len(),
            find_kind_from(s@, want_white, i as int) == find_kind_from(s@, want_white, j as int),
        decreases s@.len() - j,
    {
        j = j + 1;
    }
    j
}

/// The characters of `s` from `a` up to `b`.
fn copy_range(s: &Vec<char>, a: usize, b: usize) -> (r: Vec<char>)
    requires
        a <= b <= s@.len(),
    ensures
        r@ == s@.subrange(a as int, b as int),
{
    let mut r: Vec<char> = Vec::new();
    let mut i = a;
    while i < b
        invariant
            a <= i <= b <= s@.len(),
            r@ == s@.subrange(a as int, i as int),
        decreases b - i,
    {
        r.push(s[i]);
        i = i + 1;
        assert(r@ =~= s@.subrange(a as int, i as int));
    }
    r
}

/// The bounds of what is left of `s[a..b]` once trimmed.
fn trim_bounds(s: &Vec<char>, a: usize, b: usize) -> (r: (usize, usize))
    requires
        a <= b <= s@.len(),
    ensures
        a <= r.0 <= r.1 <= b,
        s@.subrange(r.0 as int, r.1 as int) == trim(s@.subrange(a as int, b as int)),
{
    let mut x = a;
    while x < b && white(s[x])
        invariant
            a <= x <= b <= s@.len(),
            trim_start(s@.subrange(a as int, b as int)) == trim_start(s@.subrange(x as int, b as int)),
        decreases b - x,
    {
        assert(s@.subrange(x as int, b as int).drop_first() =~= s@.subrange(x + 1, b as int));
        x = x + 1;
    }
    let mut y = b;
    while y > x && white(s[y - 1])
        invariant
            a <= x <= y <= b <= s@.len(),
            trim(s@.subrange(a as int, b as int)) == trim_end(s@.subrange(x as int, y as int)),
        decreases y - x,
    {
        assert(s@.subrange(x as int, y as int).drop_last() =~= s@.subrange(x as int, y - 1));
        y = y - 1;
    }
    (x, y)
}

/// For the line that starts at `i`: where its text ends, and where the next
/// line starts (the length when there is none).
fn line_end(s: &Vec<char>, i: usize) -> (r: (usize, usize))
    requires
        i < s@.len(),
    ensures
        i <= r.0 <= s@.len(),
        i < r.1 <= s@.len(),
        s@.subrange(i as int, r.0 as int) == line_at(s@, i as int),
        lines_from(s@, i as int) == seq![line_at(s@, i as int)] + lines_from(s@, r.1 as int),
{
    let e = find_char(s, '\n', i);
    let hi = if e < s.len() && e > i && s[e - 1] == '\r' {
        e - 1
    } else {
        e
    };
    let next = if e < s.len() {
        e + 1
    } else {
        e
    };
    proof {
        assert(lines_from(s@, i as int) == seq![line_at(s@, i as int)] + lines_from(
            s@,
            e + 1,
        ));
        if e >= s.len() {
            assert(lines_from(s@, e + 1) == Seq::<Seq<char>>::empty());
            assert(lines_from(s@, e as int) == Seq::<Seq<char>>::empty());
        }
    }
    (hi, next)
}

/// Whether `l` holds `p`.
fn contains(l: &Vec<char>, p: &str) -> (r: bool)
    ensures
        r == contains_text(l@, p@),
{
    let m = p.unicode_len();
    if m > l.len() {
        return false;
    }
    if m == 0 {
        let ghost k0: int = 0;
        assert(l@.subrange(k0, k0 + p@.len()) =~= p@);
        return true;
    }
    let mut k: usize = 0;
    while k <= l.len() - m
        invariant
            m == p@.len(),
            1 <= m <= l@.len(),
            forall|j: int| 0 <= j < k ==> #[trigger] l@.subrange(j, j + m) != p@,
        decreases l@.len() - k,
    {
        assert(l@.skip(k as int).subrange(0, m as int) =~= l@.subrange(k as int, k + m));
        if prefix_at(l, k, p) {
            return true;
        }
        k = k + 1;
    }
    false
}

/// Whether line `l` is one that `sel` looks for.
fn line_is_match(l: &Vec<char>, sel: &LineSelect) -> (r: bool)
    ensures
        r == line_matches(l@, *sel),
{
    match sel {
        LineSelect::StartingWith(p) => {
            assert(l@.skip(0) =~= l@);
            prefix_at(l, 0, p.as_str())
        },
        LineSelect::Containing(p) => contains(l, p.as_str()),
        _ => false,
    }
}

/// The bounds of the piece of `s` that `sel` selects; `(0, 0)` when there is
/// none.
fn select_bounds(s: &Vec<char>, sel: &LineSelect) -> (r: (usize, usize))
    ensures
        r.0 <= r.1 <= s@.len(),
        s@.subrange(r.0 as int, r.1 as int) == selected(s@, *sel),
{
    match sel {
        LineSelect::Whole => {
            assert(s@.subrange(0, s@.len() as int) =~= s@);
            (0, s.len())
        },
        LineSelect::Nth(n) => {
            let n = *n;
            let mut i: usize = 0;
            let mut k: usize = 0;
            assert(lines_of(s@).skip(0) =~= lines_of(s@));
            while i < s.len()
                invariant
                    i <= s@.len(),
                    k <= n,
                    k <= lines_of(s@).len(),
                    lines_of(s@).skip(k as int) == lines_from(s@, i as int),
                    *sel == LineSelect::Nth(n),
                decreases s@.len() - i,
            {
                let (hi, next) = line_end(s, i);
                if k == n {
                    assert(lines_of(s@).skip(k as int)[0] == lines_of(s@)[k as int]);
                    return (i, hi);
                }
                assert(lines_of(s@).skip(k + 1) =~= lines_of(s@).skip(k as int).drop_first());
                i = next;
                k = k + 1;
            }
            assert(lines_from(s@, i as int) =~= Seq::<Seq<char>>::empty());
            assert(lines_of(s@).skip(k as int).len() == 0);
            assert(s@.subrange(0, 0) =~= Seq::<char>::empty());
            (0, 0)
        },
        _ => {
            let mut i: usize = 0;
            while i < s.len()
                invariant
                    i <= s@.len(),
                    selected(s@, *sel) == first_matching(lines_from(s@, i as int), *sel),
                    !(*sel is Whole) && !(*sel is Nth),
                decreases s@.len() - i,
            {
                let (hi, next) = line_end(s, i);
                let l = copy_range(s, i, hi);
                if line_is_match(&l, sel) {
                    assert(lines_from(s@, i as int)[0] == line_at(s@, i as int));
                    return (i, hi);
                }
                assert((seq![line_at(s@, i as int)] + lines_from(s@, next as int)).drop_first()
                    =~= lines_from(s@, next as int));
                i = next;
            }
            assert(lines_from(s@, i as int) =~= Seq::<Seq<char>>::empty());
            assert(s@.subrange(0, 0) =~= Seq::<char>::empty());
            (0, 0)
        },
    }
}

/// The bounds of the second piece of `l` split at `d`; `(0, 0)` when `l`
/// holds no `d`.
fn field_bounds(l: &Vec<char>, d: char) -> (r: (usize, usize))
    ensures
        r.0 <= r.1 <= l@.len(),
        l@.subrange(r.0 as int, r.1 as int) == second_field(l@, d),
{
    let a = find_char(l, d, 0);
    if a >= l.len() {
        assert(l@.subrange(0, 0) =~= Seq::<char>::empty());
        return (0, 0);
    }
    let b = find_char(l, d, a + 1);
    (a + 1, b)
}

/// The bounds of the word of `l` with this index; `(0, 0)` when there are
/// fewer words.
fn word_bounds(l: &Vec<char>, index: usize) -> (r: (usize, usize))
    ensures
        r.0 <= r.1 <= l@.len(),
        l@.subrange(r.0 as int, r.1 as int) == if index < words_of(l@).len() {
            words_of(l@)[index as int]
        } else {
            Seq::empty()
        },
{
    let mut i: usize = 0;
    let mut k: usize = 0;
    assert(words_of(l@).skip(0) =~= words_of(l@));
    loop
        invariant
            i <= l@.len(),
            k <= index,
            k <= words_of(l@).len(),
            words_of(l@).skip(k as int) == words_from(l@, i as int),
        decreases l@.len() - i,
    {
        let a = find_kind(l, false, i);
        if a >= l.len() {
            assert(words_from(l@, i as int) =~= Seq::<Seq<char>>::empty());
            assert(words_of(l@).skip(k as int).len() == 0);
            assert(l@.subrange(0, 0) =~= Seq::<char>::empty());
            return (0, 0);
        }
        let b = find_kind(l, true, a);
        assert(words_from(l@, i as int) == seq![l@.subrange(a as int, b as int)] + words_from(
            l@,
            b as int,
        ));
        if k == index {
            assert(words_of(l@).skip(k as int)[0] == words_of(l@)[k as int]);
            return (a, b);
        }
        assert(words_of(l@).skip(k + 1) =~= words_of(l@).skip(k as int).drop_first());
        i = b;
        k = k + 1;
    }
}

/// The characters of `text` from `a` up to `b`, as a string.
fn slice_text(text: &str, a: usize, b: usize) -> (r: String)
    requires
        a <= b <= text@.len(),
    ensures
        r@ == text@.subrange(a as int, b as int),
{
    String::from_str(text.substring_char(a, b))
}

/// Reads an attribute out of a probe's text by `rule`.
pub fn extract(text: &str, rule: &Extraction) -> (r: String)
    ensures
        r@ == extracted(text@, *rule),
{
    let s = chars_of(text);
    match rule {
        Extraction::Trimmed(sel) => {
            let (lo, hi) = select_bounds(&s, sel);
            let (a, b) = trim_bounds(&s, lo, hi);
            slice_text(text, a, b)
        },
        Extraction::Field { line, delimiter, trimmed } => {
            let (lo, hi) = select_bounds(&s, line);
            let l = copy_range(&s, lo, hi);
            let (a, b) = field_bounds(&l, *delimiter);
            let (x, y) = if *trimmed {
                trim_bounds(&l, a, b)
            } else {
                (a, b)
            };
            assert(s@.subrange(lo + x, lo + y) =~= l@.subrange(x as int, y as int));
            slice_text(text, lo + x, lo + y)
        },
        Extraction::Word { line, index } => {
            let (lo, hi) = select_bounds(&s, line);
            let l = copy_range(&s, lo, hi);
            let (a, b) = word_bounds(&l, *index);
            assert(s@.subrange(lo + a, lo + b) =~= l@.subrange(a as int, b as int));
            slice_text(text, lo + a, lo + b)
        },
    }
}

} // verus!
