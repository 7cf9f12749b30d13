use vstd::prelude::*;

use crate::text::{
    chars_of, line_ranges, push_char, ranges_view, split_char, split_ranges, std_lines,
    string_from_chars,
};

verus! {

/// Whether character index `i` starts a new chunk when the first chunk holds
/// `first` characters and every later chunk `size` characters. A `size` of
/// zero means the rest of the string after the first chunk is one chunk.
pub open spec fn is_chunk_start(i: int, first: int, size: int) -> bool {
    if i > first {
        size > 0 && (i - first) % size == 0
    } else {
        i == 0 || i == first
    }
}

/// The chunk starts below `k`, in increasing order.
pub open spec fn chunk_starts_below(k: int, first: int, size: int) -> Seq<int>
    decreases k,
{
    if k <= 0 {
        Seq::empty()
    } else if is_chunk_start(k - 1, first, size) {
        chunk_starts_below(k - 1, first, size).push(k - 1)
    } else {
        chunk_starts_below(k - 1, first, size)
    }
}

/// Where the chunks of a string of `n` characters start; an empty string is
/// one empty chunk starting at 0.
pub open spec fn chunk_starts(n: int, first: int, size: int) -> Seq<int> {
    let p = chunk_starts_below(n, first, size);
    if p.len() == 0 {
        seq![0int]
    } else {
        p
    }
}

/// The end of chunk `k` given its start positions: the next start, or the
/// end of the string for the last chunk.
pub open spec fn chunk_end(p: Seq<int>, k: int, n: int) -> int {
    if k + 1 < p.len() {
        p[k + 1]
    } else {
        n
    }
}

/// `s` cut into a first chunk of `first` characters followed by chunks of
/// `size` characters (the last one may be shorter).
pub open spec fn chunks(s: Seq<char>, first: int, size: int) -> Seq<Seq<char>> {
    pieces(s, chunk_starts(s.len() as int, first, size))
}

/// `s` cut at the positions `p`: piece `k` runs from `p[k]` to `p[k + 1]`,
/// the last piece to the end of `s`.
pub open spec fn pieces(s: Seq<char>, p: Seq<int>) -> Seq<Seq<char>> {
    Seq::new(p.len(), |k: int| s.subrange(p[k], chunk_end(p, k, s.len() as int)))
}

proof fn lemma_pieces_prefix(s: Seq<char>, p: Seq<int>, m: int)
    requires
        p.len() > 0,
        p[0] == 0,
        forall|a: int, b: int| 0 <= a < b < p.len() ==> p[a] < p[b],
        forall|a: int| 0 <= a < p.len() ==> 0 <= #[trigger] p[a] <= s.len(),
        1 <= m <= p.len(),
    ensures
        pieces(s, p).take(m).flatten() == s.subrange(0, chunk_end(p, m - 1, s.len() as int)),
    decreases m,
{
    let n = s.len() as int;
    let ps = pieces(s, p);
    if m == 1 {
        assert(ps.take(1) =~= seq![ps[0]]);
        ps.take(1).lemma_flatten_one_element();
    } else {
        lemma_pieces_prefix(s, p, m - 1);
        assert(ps.take(m) =~= ps.take(m - 1).push(ps[m - 1]));
        ps.take(m - 1).lemma_flatten_push(ps[m - 1]);
        assert(chunk_end(p, m - 2, n) == p[m - 1]);
        if m < p.len() {
            assert(p[m - 1] < p[m]);
        }
        assert(s.subrange(0, p[m - 1]) + s.subrange(p[m - 1], chunk_end(p, m - 1, n))
            =~= s.subrange(0, chunk_end(p, m - 1, n)));
    }
}

/// Joining the chunks of a string, in order, gives the string back.
pub proof fn lemma_chunks_concatenate(s: Seq<char>, first: nat, size: nat)
    ensures
        chunks(s, first as int, size as int).flatten() == s,
{
    let p = chunk_starts(s.len() as int, first as int, size as int);
    lemma_chunk_starts_sorted(s.len() as int, first as int, size as int);
    lemma_pieces_prefix(s, p, p.len() as int);
    assert(pieces(s, p).take(p.len() as int) =~= pieces(s, p));
    assert(s.subrange(0, s.len() as int) =~= s);
}

proof fn lemma_chunk_starts_below_sorted(k: int, first: int, size: int)
    requires
        k >= 0,
        first >= 0,
    ensures
        forall|a: int, b: int|
            0 <= a < b < chunk_starts_below(k, first, size).len() ==> chunk_starts_below(
                k,
                first,
                size,
            )[a] < chunk_starts_below(k, first, size)[b],
        forall|a: int|
            0 <= a < chunk_starts_below(k, first, size).len() ==> 0 <= #[trigger] chunk_starts_below(
                k,
                first,
                size,
            )[a] < k,
        k > 0 ==> chunk_starts_below(k, first, size).len() > 0 && chunk_starts_below(
            k,
            first,
            size,
        )[0] == 0,
    decreases k,
{
    if k > 0 {
        lemma_chunk_starts_below_sorted(k - 1, first, size);
        let prev = chunk_starts_below(k - 1, first, size);
        if is_chunk_start(k - 1, first, size) {
            let cur = prev.push(k - 1);
            assert(cur == chunk_starts_below(k, first, size));
            assert forall|a: int, b: int| 0 <= a < b < cur.len() implies cur[a] < cur[b] by {
                if b == cur.len() - 1 {
                    assert(cur[a] == prev[a]);
                }
            }
        }
        if k == 1 {
            assert(is_chunk_start(0, first, size));
        }
    }
}

proof fn lemma_chunk_starts_sorted(n: int, first: int, size: int)
    requires
        n >= 0,
        first >= 0,
    ensures
        chunk_starts(n, first, size).len() > 0,
        chunk_starts(n, first, size)[0] == 0,
        forall|a: int, b: int|
            0 <= a < b < chunk_starts(n, first, size).len() ==> chunk_starts(n, first, size)[a]
                < chunk_starts(n, first, size)[b],
        forall|a: int|
            0 <= a < chunk_starts(n, first, size).len() ==> 0 <= #[trigger] chunk_starts(n, first, size)[a]
                <= n,
        n > 0 ==> forall|a: int|
            0 <= a < chunk_starts(n, first, size).len() ==> #[trigger] chunk_starts(n, first, size)[a] < n,
{
    lemma_chunk_starts_below_sorted(n, first, size);
}

/// The character positions where the chunks of a string of `n` characters
/// start (see `chunk_starts`).
pub fn chunk_bounds(n: usize, first_chunk_size: usize, chunk_size: usize) -> (starts: Vec<usize>)
    ensures
        starts@.map_values(|x: usize| x as int) == chunk_starts(
            n as int,
            first_chunk_size as int,
            chunk_size as int,
        ),
        starts@.len() > 0,
        starts@[0] == 0,
        forall|a: int, b: int| 0 <= a < b < starts@.len() ==> starts@[a] < starts@[b],
        forall|a: int| 0 <= a < starts@.len() ==> #[trigger] starts@[a] <= n,
{
    let mut starts: Vec<usize> = Vec::new();
    let mut i: usize = 0;
    while i < n
        invariant
            i <= n,
            starts@.map_values(|x: usize| x as int) == chunk_starts_below(
                i as int,
                first_chunk_size as int,
                chunk_size as int,
            ),
        decreases n - i,
    {
        let start = if i > first_chunk_size {
            chunk_size > 0 && (i - first_chunk_size) % chunk_size == 0
        } else {
            i == 0 || i == first_chunk_size
        };
        if start {
            starts.push(i);
        }
        proof {
            assert(starts@.map_values(|x: usize| x as int) =~= chunk_starts_below(
                i + 1,
                first_chunk_size as int,
                chunk_size as int,
            ));
        }
        i = i + 1;
    }
    if starts.len() == 0 {
        starts.push(0);
    }
    proof {
        let p = chunk_starts(n as int, first_chunk_size as int, chunk_size as int);
        assert(starts@.map_values(|x: usize| x as int) =~= p);
        lemma_chunk_starts_sorted(n as int, first_chunk_size as int, chunk_size as int);
        assert forall|a: int| 0 <= a < starts@.len() implies #[trigger] starts@[a] <= n by {
            assert(starts@.map_values(|x: usize| x as int)[a] == starts@[a] as int);
        }
        assert forall|a: int, b: int| 0 <= a < b < starts@.len() implies starts@[a] < starts@[b] by {
            assert(starts@.map_values(|x: usize| x as int)[a] == starts@[a] as int);
            assert(starts@.map_values(|x: usize| x as int)[b] == starts@[b] as int);
        }
        assert(starts@.map_values(|x: usize| x as int)[0] == starts@[0] as int);
    }
    starts
}

/// Splits `s` into a first chunk of `first_chunk_size` characters and then
/// chunks of `chunk_size` characters; the last chunk holds what is left. A
/// `chunk_size` of zero keeps everything after the first chunk together, and
/// an empty string gives one empty chunk.
pub fn chunked_string(s: &str, first_chunk_size: usize, chunk_size: usize) -> (r: Vec<&str>)
    ensures
        r@.map_values(|p: &str| p@) == chunks(s@, first_chunk_size as int, chunk_size as int),
{
    let n = s.unicode_len();
    let starts = chunk_bounds(n, first_chunk_size, chunk_size);
    let ghost p = chunk_starts(n as int, first_chunk_size as int, chunk_size as int);
    let mut r: Vec<&str> = Vec::new();
    let mut k: usize = 0;
    while k < starts.len()
        invariant
            k <= starts.len(),
            n == s@.len(),
            starts@.map_values(|x: usize| x as int) == p,
            starts@.len() > 0,
            forall|a: int, b: int| 0 <= a < b < starts@.len() ==> starts@[a] < starts@[b],
            forall|a: int| 0 <= a < starts@.len() ==> #[trigger] starts@[a] <= n,
            r@.len() == k,
            forall|j: int|
                0 <= j < k ==> (#[trigger] r@[j])@ == s@.subrange(p[j], chunk_end(p, j, n as int)),
        decreases starts.len() - k,
    {
        let from = starts[k];
        let to = if k + 1 < starts.len() {
            starts[k + 1]
        } else {
            n
        };
        proof {
            assert(starts@.map_values(|x: usize| x as int)[k as int] == from as int);
            if k + 1 < starts.len() {
                assert(starts@.map_values(|x: usize| x as int)[k + 1] == to as int);
            }
        }
        r.push(s.substring_char(from, to));
        k = k + 1;
    }
    proof {
        assert(r@.map_values(|q: &str| q@) =~= chunks(
            s@,
            first_chunk_size as int,
            chunk_size as int,
        ));
    }
    r
}

/// Which end of the text a view stays attached to while scrolling.
#[derive(Clone, Copy, PartialEq, Eq, Structural, Debug)]
pub enum ScrollAnchor {
    Top,
    Bottom,
}

/// A run of text on a screen line; dimmed runs mark decorations (wrap and
/// truncation markers) rather than content.
pub struct TextSpan {
    pub text: String,
    pub dim: bool,
}

impl View for TextSpan {
    type V = (Seq<char>, bool);

    open spec fn view(&self) -> (Seq<char>, bool) {
        (self.text@, self.dim)
    }
}

/// One screen line, made of spans.
pub struct TextLine {
    pub spans: Vec<TextSpan>,
}

impl View for TextLine {
    type V = Seq<(Seq<char>, bool)>;

    open spec fn view(&self) -> Seq<(Seq<char>, bool)> {
        self.spans@.map_values(|sp: TextSpan| sp@)
    }
}

/// The views of a sequence of screen lines.
pub open spec fn lines_view(v: Seq<TextLine>) -> Seq<Seq<(Seq<char>, bool)>> {
    v.map_values(|l: TextLine| l@)
}

/// The first `n` elements of `s`, or all of `s` when it is shorter.
pub open spec fn prefix<A>(s: Seq<A>, n: int) -> Seq<A> {
    if 0 <= n < s.len() {
        s.take(n)
    } else {
        s
    }
}

/// `s` without its first `n` elements (empty when `n` reaches past the end).
pub open spec fn suffix_from<A>(s: Seq<A>, n: int) -> Seq<A> {
    if n < s.len() {
        s.skip(n)
    } else {
        Seq::empty()
    }
}

/// `a - b`, or 0 when `b` is larger.
pub open spec fn sat_sub(a: nat, b: nat) -> nat {
    if a >= b {
        (a - b) as nat
    } else {
        0
    }
}

/// The marker that opens a wrapped continuation line.
pub open spec fn continuation_mark() -> Seq<char> {
    seq!['\u{21aa}', ' ']
}

/// The marker that ends a cut-off line.
pub open spec fn ellipsis_mark() -> Seq<char> {
    seq!['\u{2026}']
}

/// A screen line of plain text `t` (which holds no line breaks): one span,
/// or no span at all when `t` is empty.
pub open spec fn plain_line(t: Seq<char>) -> Seq<(Seq<char>, bool)> {
    if t.len() == 0 {
        Seq::empty()
    } else {
        seq![(t, false)]
    }
}

pub open spec fn continuation_line(t: Seq<char>) -> Seq<(Seq<char>, bool)> {
    seq![(continuation_mark(), true), (t, false)]
}

pub open spec fn truncated_line(t: Seq<char>) -> Seq<(Seq<char>, bool)> {
    seq![(t, false), (ellipsis_mark(), true)]
}

/// How one line of text shows in `cols` columns: wrapped into a first line
/// of `cols` characters and continuation lines of `cols - 2` characters after
/// a marker, or, unwrapped, cut to `cols - 1` characters and an ellipsis when
/// it does not fit.
pub open spec fn render_line(l: Seq<char>, cols: nat, wrap: bool) -> Seq<Seq<(Seq<char>, bool)>> {
    if wrap {
        let ch = chunks(l, cols as int, sat_sub(cols, 2) as int);
        Seq::new(
            ch.len(),
            |k: int|
                if k == 0 {
                    plain_line(prefix(ch[k], cols as int))
                } else {
                    continuation_line(prefix(ch[k], sat_sub(cols, 2) as int))
                },
        )
    } else if l.len() > cols {
        seq![truncated_line(l.take(sat_sub(cols, 1) as int))]
    } else {
        seq![plain_line(l)]
    }
}

fn text_span(text: String, dim: bool) -> (r: TextSpan)
    ensures
        r@ == (text@, dim),
{
    TextSpan { text, dim }
}

fn continuation_mark_string() -> (r: String)
    ensures
        r@ == continuation_mark(),
{
    let mut t = String::new();
    push_char(&mut t, '\u{21aa}');
    push_char(&mut t, ' ');
    proof {
        assert(t@ =~= continuation_mark());
    }
    t
}

fn ellipsis_string() -> (r: String)
    ensures
        r@ == ellipsis_mark(),
{
    let mut t = String::new();
    push_char(&mut t, '\u{2026}');
    proof {
        assert(t@ =~= ellipsis_mark());
    }
    t
}

fn raw_line(text: String) -> (r: TextLine)
    ensures
        r@ == plain_line(text@),
{
    let mut spans: Vec<TextSpan> = Vec::new();
    if text.as_str().unicode_len() > 0 {
        spans.push(text_span(text, false));
    }
    let r = TextLine { spans };
    proof {
        assert(r@ =~= plain_line(text@));
    }
    r
}

/// The screen lines of `cs[a..b]` (see `render_line`).
fn render_range(cs: &Vec<char>, a: usize, b: usize, cols: usize, wrap: bool) -> (r: Vec<TextLine>)
    requires
        a <= b <= cs@.len(),
    ensures
        lines_view(r@) == render_line(cs@.subrange(a as int, b as int), cols as nat, wrap),
{
    let ghost l = cs@.subrange(a as int, b as int);
    let mut r: Vec<TextLine> = Vec::new();
    if wrap {
        let rest = if cols >= 2 {
            cols - 2
        } else {
            0
        };
        let starts = chunk_bounds(b - a, cols, rest);
        let ghost p = chunk_starts((b - a) as int, cols as int, rest as int);
        let ghost ch = chunks(l, cols as int, rest as int);
        let mut k: usize = 0;
        while k < starts.len()
            invariant
                k <= starts.len(),
                a <= b <= cs@.len(),
                l == cs@.subrange(a as int, b as int),
                rest as nat == sat_sub(cols as nat, 2),
                starts@.map_values(|x: usize| x as int) == p,
                p == chunk_starts(l.len() as int, cols as int, rest as int),
                ch == chunks(l, cols as int, rest as int),
                starts@.len() > 0,
                forall|x: int, y: int| 0 <= x < y < starts@.len() ==> starts@[x] < starts@[y],
                forall|x: int| 0 <= x < starts@.len() ==> #[trigger] starts@[x] <= b - a,
                lines_view(r@) == Seq::new(
                    k as nat,
                    |j: int|
                        if j == 0 {
                            plain_line(prefix(ch[j], cols as int))
                        } else {
                            continuation_line(prefix(ch[j], rest as int))
                        },
                ),
            decreases starts.len() - k,
        {
            let from = starts[k];
            let to = if k + 1 < starts.len() {
                starts[k + 1]
            } else {
                b - a
            };
            let limit = if k == 0 {
                cols
            } else {
                rest
            };
            let len = if to - from < limit {
                to - from
            } else {
                limit
            };
            proof {
                assert(starts@.map_values(|x: usize| x as int)[k as int] == from as int);
                if k + 1 < starts.len() {
                    assert(starts@.map_values(|x: usize| x as int)[k + 1] == to as int);
                }
                assert(ch[k as int] == l.subrange(from as int, to as int));
                assert(prefix(ch[k as int], limit as int) =~= cs@.subrange(
                    a + from,
                    a + from + len,
                ));
            }
            let text = string_from_chars(cs, a + from, a + from + len);
            let ghost old_r = lines_view(r@);
            if k == 0 {
                r.push(raw_line(text));
            } else {
                let mut spans: Vec<TextSpan> = Vec::new();
                spans.push(text_span(continuation_mark_string(), true));
                spans.push(text_span(text, false));
                let line = TextLine { spans };
                proof {
                    assert(line@ =~= continuation_line(text@));
                }
                r.push(line);
            }
            proof {
                assert(lines_view(r@) =~= old_r.push(
                    if k == 0 {
                        plain_line(prefix(ch[k as int], cols as int))
                    } else {
                        continuation_line(prefix(ch[k as int], rest as int))
                    },
                ));
                assert(lines_view(r@) =~= Seq::new(
                    (k + 1) as nat,
                    |j: int|
                        if j == 0 {
                            plain_line(prefix(ch[j], cols as int))
                        } else {
                            continuation_line(prefix(ch[j], rest as int))
                        },
                ));
            }
            k = k + 1;
        }
        proof {
            assert(lines_view(r@) =~= render_line(l, cols as nat, wrap));
        }
    } else if b - a > cols {
        let keep = if cols >= 1 {
            cols - 1
        } else {
            0
        };
        let text = string_from_chars(cs, a, a + keep);
        let mut spans: Vec<TextSpan> = Vec::new();
        spans.push(text_span(text, false));
        spans.push(text_span(ellipsis_string(), true));
        let line = TextLine { spans };
        r.push(line);
        proof {
            assert(cs@.subrange(a as int, a + keep) =~= l.take(keep as int));
            assert(line@ =~= truncated_line(l.take(keep as int)));
            assert(lines_view(r@) =~= render_line(l, cols as nat, wrap));
        }
    } else {
        let text = string_from_chars(cs, a, b);
        r.push(raw_line(text));
        proof {
            assert(lines_view(r@) =~= render_line(l, cols as nat, wrap));
        }
    }
    r
}

pub open spec fn is_line_break(c: char) -> bool {
    c == '\r' || c == '\n'
}

/// `i` is the position of the last line break (`\r` or `\n`) in `s`.
pub open spec fn is_last_line_break(s: Seq<char>, i: int) -> bool {
    &&& 0 <= i < s.len()
    &&& is_line_break(s[i])
    &&& forall|j: int| i < j < s.len() ==> !is_line_break(#[trigger] s[j])
}

/// `s` up to (not including) its last line break; all of `s` when it has
/// none. What follows the last break is a line still being written.
pub open spec fn before_last_line_break(s: Seq<char>) -> Seq<char> {
    if exists|i: int| is_last_line_break(s, i) {
        s.take(choose|i: int| is_last_line_break(s, i))
    } else {
        s
    }
}

/// The lines shown for a text: its lines up to the last line break, each
/// further split at carriage returns (which terminals use to redraw a line).
pub open spec fn display_lines(s: Seq<char>) -> Seq<Seq<char>> {
    std_lines(before_last_line_break(s)).map_values(|l: Seq<char>| split_char(l, '\r')).flatten()
}

/// The screen lines of `s` in a view of `lines` lines and `cols` columns,
/// attached to the top or the bottom of the text and scrolled `offset` text
/// lines away from that end.
pub open spec fn fitted_text(
    s: Seq<char>,
    lines: nat,
    cols: nat,
    anchor: ScrollAnchor,
    offset: nat,
    wrap: bool,
) -> Seq<Seq<(Seq<char>, bool)>> {
    let dl = display_lines(s);
    match anchor {
        ScrollAnchor::Top => prefix(
            suffix_from(dl, offset as int).map_values(
                |l: Seq<char>| render_line(l, cols, wrap),
            ).flatten(),
            lines as int,
        ),
        ScrollAnchor::Bottom => prefix(
            suffix_from(dl.reverse(), offset as int).map_values(
                |l: Seq<char>| render_line(l, cols, wrap).reverse(),
            ).flatten(),
            lines as int,
        ).reverse(),
    }
}

/// The length of `before_last_line_break(cs)`.
fn last_line_break_cut(cs: &Vec<char>) -> (k: usize)
    ensures
        k <= cs@.len(),
        cs@.take(k as int) == before_last_line_break(cs@),
{
    let n = cs.len();
    let mut i = n;
    while i > 0
        invariant
            i <= n == cs@.len(),
            forall|j: int| i <= j < n ==> !is_line_break(#[trigger] cs@[j]),
        decreases i,
    {
        if cs[i - 1] == '\r' || cs[i - 1] == '\n' {
            proof {
                assert(is_last_line_break(cs@, i - 1));
                assert forall|x: int| is_last_line_break(cs@, x) implies x == i - 1 by {
                    if x < i - 1 {
                        assert(!is_line_break(cs@[i - 1]));
                    }
                }
            }
            return i - 1;
        }
        i = i - 1;
    }
    proof {
        assert(!exists|x: int| is_last_line_break(cs@, x));
        assert(cs@.take(n as int) =~= cs@);
    }
    n
}

/// The display lines of `cs` (see `display_lines`), as index pairs.
fn display_line_ranges(cs: &Vec<char>) -> (r: Vec<(usize, usize)>)
    ensures
        ranges_view(cs@, r@) == display_lines(cs@),
        forall|k: int| 0 <= k < r@.len() ==> (#[trigger] r@[k]).0 <= r@[k].1 <= cs@.len(),
{
    let cut = last_line_break_cut(cs);
    let lines = line_ranges(cs, 0, cut);
    let ghost ls = std_lines(cs@.subrange(0, cut as int));
    let ghost split_ls = ls.map_values(|l: Seq<char>| split_char(l, '\r'));
    proof {
        assert(cs@.subrange(0, cut as int) =~= cs@.take(cut as int));
    }
    let mut r: Vec<(usize, usize)> = Vec::new();
    let mut k: usize = 0;
    while k < lines.len()
        invariant
            k <= lines@.len(),
            ranges_view(cs@, lines@) == ls,
            split_ls == ls.map_values(|l: Seq<char>| split_char(l, '\r')),
            forall|j: int| 0 <= j < lines@.len() ==> 0 <= (#[trigger] lines@[j]).0 <= lines@[j].1 <= cut,
            cut <= cs@.len(),
            ranges_view(cs@, r@) == split_ls.take(k as int).flatten(),
            forall|j: int| 0 <= j < r@.len() ==> (#[trigger] r@[j]).0 <= r@[j].1 <= cs@.len(),
        decreases lines@.len() - k,
    {
        let (a, b) = lines[k];
        let mut pieces = split_ranges(cs, a, b, '\r');
        let ghost old_view = ranges_view(cs@, r@);
        let ghost piece_view = ranges_view(cs@, pieces@);
        proof {
            assert(ranges_view(cs@, lines@)[k as int] == cs@.subrange(a as int, b as int));
            assert(piece_view == split_ls[k as int]);
        }
        r.append(&mut pieces);
        proof {
            assert(ranges_view(cs@, r@) =~= old_view + piece_view);
            assert(split_ls.take(k + 1) =~= split_ls.take(k as int).push(split_ls[k as int]));
            split_ls.take(k as int).lemma_flatten_push(split_ls[k as int]);
        }
        k = k + 1;
    }
    proof {
        assert(split_ls.take(k as int) =~= split_ls);
    }
    r
}

/// `v` in reverse order.
fn reverse_lines(v: Vec<TextLine>) -> (r: Vec<TextLine>)
    ensures
        lines_view(r@) == lines_view(v@).reverse(),
{
    let mut v = v;
    let ghost orig = lines_view(v@);
    let mut r: Vec<TextLine> = Vec::new();
    while v.len() > 0
        invariant
            orig.len() == v@.len() + r@.len(),
            lines_view(v@) == orig.take(v@.len() as int),
            lines_view(r@) == orig.reverse().take(r@.len() as int),
        decreases v@.len(),
    {
        let ghost before = v@;
        let x = v.pop().unwrap();
        proof {
            assert(x == before[before.len() - 1]);
            assert(lines_view(before)[before.len() - 1] == x@);
            assert(orig.take(before.len() as int)[before.len() - 1] == orig[before.len() - 1]);
            assert(orig[before.len() - 1] == x@);
            assert(lines_view(v@) =~= orig.take(v@.len() as int));
        }
        let ghost rb = lines_view(r@);
        r.push(x);
        proof {
            assert(orig.reverse()[rb.len() as int] == orig[orig.len() - 1 - rb.len()]);
            assert(lines_view(r@) =~= orig.reverse().take(r@.len() as int));
        }
    }
    proof {
        assert(orig.reverse().take(r@.len() as int) =~= orig.reverse());
    }
    r
}

proof fn lemma_prefix_of_longer<A>(a: Seq<A>, b: Seq<A>, n: int)
    requires
        0 <= n <= a.len(),
    ensures
        prefix(a + b, n) == prefix(a, n),
{
    assert((a + b).take(n) =~= a.take(n));
    if n == a.len() {
        assert(a.take(n) =~= a);
    }
}

/// Lays `s` out for a view of `lines` screen lines and `cols` columns:
/// only the text up to its last line break is shown; with a `Top` anchor the
/// first `offset` text lines are skipped and the view is filled from the
/// top, with a `Bottom` anchor the last `offset` text lines are skipped and
/// the view ends with the text that comes before them. Lines are wrapped or
/// cut to fit (see `render_line`).
pub fn fit_text(
    s: &str,
    lines: usize,
    cols: usize,
    anchor: ScrollAnchor,
    offset: usize,
    wrap: bool,
) -> (r: Vec<TextLine>)
    ensures
        lines_view(r@) == fitted_text(
            s@,
            lines as nat,
            cols as nat,
            anchor,
            offset as nat,
            wrap,
        ),
{
    let cs = chars_of(s);
    let dl = display_line_ranges(&cs);
    let ghost dlv = display_lines(s@);
    let n = dl.len();
    let mut out: Vec<TextLine> = Vec::new();
    match anchor {
        ScrollAnchor::Top => {
            let ghost rendered = dlv.map_values(|l: Seq<char>| render_line(l, cols as nat, wrap));
            if offset >= n {
                proof {
                    assert(lines_view(out@) =~= fitted_text(
                        s@,
                        lines as nat,
                        cols as nat,
                        anchor,
                        offset as nat,
                        wrap,
                    ));
                }
                return out;
            }
            let mut i = offset;
            proof {
                assert(rendered.subrange(offset as int, offset as int) =~= Seq::<
                    Seq<Seq<(Seq<char>, bool)>>,
                >::empty());
                assert(lines_view(out@) =~= rendered.subrange(offset as int, i as int).flatten());
            }
            while i < n && out.len() < lines
                invariant
                    offset <= i <= n == dl@.len(),
                    ranges_view(cs@, dl@) == dlv,
                    forall|k: int| 0 <= k < dl@.len() ==> (#[trigger] dl@[k]).0 <= dl@[k].1 <= cs@.len(),
                    rendered == dlv.map_values(|l: Seq<char>| render_line(l, cols as nat, wrap)),
                    lines_view(out@) == rendered.subrange(offset as int, i as int).flatten(),
                decreases n - i,
            {
                let (a, b) = dl[i];
                let mut more = render_range(&cs, a, b, cols, wrap);
                let ghost before = lines_view(out@);
                let ghost added = lines_view(more@);
                proof {
                    assert(ranges_view(cs@, dl@)[i as int] == cs@.subrange(a as int, b as int));
                    assert(added == rendered[i as int]);
                }
                out.append(&mut more);
                proof {
                    assert(lines_view(out@) =~= before + added);
                    assert(rendered.subrange(offset as int, i + 1) =~= rendered.subrange(
                        offset as int,
                        i as int,
                    ).push(rendered[i as int]));
                    rendered.subrange(offset as int, i as int).lemma_flatten_push(
                        rendered[i as int],
                    );
                }
                i = i + 1;
            }
            let ghost shown = lines_view(out@);
            out.truncate(lines);
            proof {
                let all = suffix_from(dlv, offset as int).map_values(
                    |l: Seq<char>| render_line(l, cols as nat, wrap),
                );
                assert(all =~= rendered.subrange(offset as int, i as int) + rendered.subrange(
                    i as int,
                    n as int,
                ));
                vstd::seq_lib::lemma_flatten_concat(
                    rendered.subrange(offset as int, i as int),
                    rendered.subrange(i as int, n as int),
                );
                if i < n {
                    lemma_prefix_of_longer(
                        shown,
                        rendered.subrange(i as int, n as int).flatten(),
                        lines as int,
                    );
                } else {
                    assert(rendered.subrange(i as int, n as int) =~= Seq::<
                        Seq<Seq<(Seq<char>, bool)>>,
                    >::empty());
                    assert(shown + Seq::<Seq<(Seq<char>, bool)>>::empty() =~= shown);
                }
                assert(lines_view(out@) =~= prefix(shown, lines as int));
            }
            out
        },
        ScrollAnchor::Bottom => {
            let ghost rev = dlv.reverse();
            let ghost rendered = rev.map_values(
                |l: Seq<char>| render_line(l, cols as nat, wrap).reverse(),
            );
            if offset >= n {
                proof {
                    assert(lines_view(out@) =~= Seq::<Seq<(Seq<char>, bool)>>::empty());
                    assert(lines_view(out@) =~= fitted_text(
                        s@,
                        lines as nat,
                        cols as nat,
                        anchor,
                        offset as nat,
                        wrap,
                    ));
                }
                return out;
            }
            let mut m = offset;
            proof {
                assert(rendered.subrange(offset as int, offset as int) =~= Seq::<
                    Seq<Seq<(Seq<char>, bool)>>,
                >::empty());
                assert(lines_view(out@) =~= rendered.subrange(offset as int, m as int).flatten());
            }
            while m < n && out.len() < lines
                invariant
                    offset <= m <= n == dl@.len(),
                    dlv.len() == n,
                    ranges_view(cs@, dl@) == dlv,
                    forall|k: int| 0 <= k < dl@.len() ==> (#[trigger] dl@[k]).0 <= dl@[k].1 <= cs@.len(),
                    rev == dlv.reverse(),
                    rendered == rev.map_values(
                        |l: Seq<char>| render_line(l, cols as nat, wrap).reverse(),
                    ),
                    lines_view(out@) == rendered.subrange(offset as int, m as int).flatten(),
                decreases n - m,
            {
                let (a, b) = dl[n - 1 - m];
                let rendered_line = render_range(&cs, a, b, cols, wrap);
                let mut more = reverse_lines(rendered_line);
                let ghost before = lines_view(out@);
                let ghost added = lines_view(more@);
                proof {
                    assert(ranges_view(cs@, dl@)[n - 1 - m] == cs@.subrange(a as int, b as int));
                    assert(rev[m as int] == dlv[n - 1 - m]);
                    assert(added == rendered[m as int]);
                }
                out.append(&mut more);
                proof {
                    assert(lines_view(out@) =~= before + added);
                    assert(rendered.subrange(offset as int, m + 1) =~= rendered.subrange(
                        offset as int,
                        m as int,
                    ).push(rendered[m as int]));
                    rendered.subrange(offset as int, m as int).lemma_flatten_push(
                        rendered[m as int],
                    );
                }
                m = m + 1;
            }
            let ghost shown = lines_view(out@);
            out.truncate(lines);
            proof {
                let all = suffix_from(rev, offset as int).map_values(
                    |l: Seq<char>| render_line(l, cols as nat, wrap).reverse(),
                );
                assert(all =~= rendered.subrange(offset as int, m as int) + rendered.subrange(
                    m as int,
                    n as int,
                ));
                vstd::seq_lib::lemma_flatten_concat(
                    rendered.subrange(offset as int, m as int),
                    rendered.subrange(m as int, n as int),
                );
                if m < n {
                    lemma_prefix_of_longer(
                        shown,
                        rendered.subrange(m as int, n as int).flatten(),
                        lines as int,
                    );
                } else {
                    assert(rendered.subrange(m as int, n as int) =~= Seq::<
                        Seq<Seq<(Seq<char>, bool)>>,
                    >::empty());
                    assert(shown + Seq::<Seq<(Seq<char>, bool)>>::empty() =~= shown);
                }
                assert(lines_view(out@) =~= prefix(shown, lines as int));
            }
            reverse_lines(out)
        },
    }
}

/// How many columns a screen line takes: the characters of its spans.
pub open spec fn line_width(l: Seq<(Seq<char>, bool)>) -> nat
    decreases l.len(),
{
    if l.len() == 0 {
        0
    } else {
        line_width(l.drop_last()) + l.last().0.len()
    }
}

proof fn lemma_render_line_fits(l: Seq<char>, cols: nat, wrap: bool)
    requires
        cols >= 2,
    ensures
        forall|k: int|
            0 <= k < render_line(l, cols, wrap).len() ==> line_width(
                #[trigger] render_line(l, cols, wrap)[k],
            ) <= cols,
{
    let r = render_line(l, cols, wrap);
    assert forall|k: int| 0 <= k < r.len() implies line_width(#[trigger] r[k]) <= cols by {
        let x = r[k];
        assert(x.len() <= 2);
        if x.len() == 2 {
            assert(x.drop_last().drop_last() =~= Seq::<(Seq<char>, bool)>::empty());
            assert(line_width(x) == line_width(x.drop_last()) + x[1].0.len());
            assert(line_width(x.drop_last()) == line_width(x.drop_last().drop_last()) + x[0].0.len());
        } else if x.len() == 1 {
            assert(x.drop_last() =~= Seq::<(Seq<char>, bool)>::empty());
            assert(line_width(x) == line_width(x.drop_last()) + x[0].0.len());
        }
    }
}

proof fn lemma_flatten_all<A>(ss: Seq<Seq<A>>, p: spec_fn(A) -> bool)
    requires
        forall|i: int, j: int| 0 <= i < ss.len() && 0 <= j < ss[i].len() ==> p(#[trigger] ss[i][j]),
    ensures
        forall|j: int| 0 <= j < ss.flatten().len() ==> p(#[trigger] ss.flatten()[j]),
    decreases ss.len(),
{
    if ss.len() > 0 {
        let rest = ss.drop_first();
        assert forall|i: int, j: int| 0 <= i < rest.len() && 0 <= j < rest[i].len() implies p(
            #[trigger] rest[i][j],
        ) by {
            assert(rest[i] == ss[i + 1]);
        }
        lemma_flatten_all(rest, p);
        assert forall|j: int| 0 <= j < ss.flatten().len() implies p(#[trigger] ss.flatten()[j]) by {
            if j < ss[0].len() {
                assert(ss.flatten()[j] == ss[0][j]);
            } else {
                assert(ss.flatten()[j] == rest.flatten()[j - ss[0].len()]);
            }
        }
    }
}

/// The laid-out text never has more lines than the view, and when the view
/// is at least two columns wide no screen line is wider than the view.
pub proof fn lemma_fitted_text_fits_view(
    s: Seq<char>,
    lines: nat,
    cols: nat,
    anchor: ScrollAnchor,
    offset: nat,
    wrap: bool,
)
    ensures
        fitted_text(s, lines, cols, anchor, offset, wrap).len() <= lines,
        cols >= 2 ==> forall|k: int|
            0 <= k < fitted_text(s, lines, cols, anchor, offset, wrap).len() ==> line_width(
                #[trigger] fitted_text(s, lines, cols, anchor, offset, wrap)[k],
            ) <= cols,
{
    let dl = display_lines(s);
    let fits = |x: Seq<(Seq<char>, bool)>| line_width(x) <= cols;
    if cols >= 2 {
        match anchor {
            ScrollAnchor::Top => {
                let ss = suffix_from(dl, offset as int).map_values(
                    |l: Seq<char>| render_line(l, cols, wrap),
                );
                assert forall|i: int, j: int| 0 <= i < ss.len() && 0 <= j < ss[i].len() implies fits(
                    #[trigger] ss[i][j],
                ) by {
                    lemma_render_line_fits(suffix_from(dl, offset as int)[i], cols, wrap);
                }
                lemma_flatten_all(ss, fits);
            },
            ScrollAnchor::Bottom => {
                let ss = suffix_from(dl.reverse(), offset as int).map_values(
                    |l: Seq<char>| render_line(l, cols, wrap).reverse(),
                );
                assert forall|i: int, j: int| 0 <= i < ss.len() && 0 <= j < ss[i].len() implies fits(
                    #[trigger] ss[i][j],
                ) by {
                    let l = suffix_from(dl.reverse(), offset as int)[i];
                    lemma_render_line_fits(l, cols, wrap);
                    assert(ss[i][j] == render_line(l, cols, wrap)[render_line(l, cols, wrap).len()
                        - 1 - j]);
                }
                lemma_flatten_all(ss, fits);
                let f = ss.flatten();
                let pf = prefix(f, lines as int);
                assert forall|k: int| 0 <= k < pf.reverse().len() implies fits(
                    #[trigger] pf.reverse()[k],
                ) by {
                    assert(pf.reverse()[k] == pf[pf.len() - 1 - k]);
                    assert(pf[pf.len() - 1 - k] == f[pf.len() - 1 - k]);
                }
            },
        }
    }
}

proof fn lemma_render_line_nonempty(l: Seq<char>, cols: nat, wrap: bool)
    ensures
        render_line(l, cols, wrap).len() >= 1,
{
    if wrap {
        assert(chunk_starts(l.len() as int, cols as int, sat_sub(cols, 2) as int).len() >= 1);
    }
}

proof fn lemma_flatten_first<A>(ss: Seq<Seq<A>>)
    requires
        ss.len() > 0,
        ss[0].len() > 0,
    ensures
        ss.flatten().len() > 0,
        ss.flatten()[0] == ss[0][0],
{
    assert(ss.flatten() == ss.first().add(ss.drop_first().flatten()));
}

/// Scrolling moves the view by whole text lines. With `k` below the number
/// of display lines `n` and room for at least one screen line: anchored at
/// the top and scrolled `k` lines, the first screen line is the first screen
/// line of display line `k`; anchored at the bottom and scrolled `k` lines,
/// the last screen line is the last screen line of display line `n - 1 - k`
/// (so the last `k` lines are out of view).
pub proof fn lemma_scroll_offset_moves_view(
    s: Seq<char>,
    lines: nat,
    cols: nat,
    k: nat,
    wrap: bool,
)
    requires
        lines > 0,
        k < display_lines(s).len(),
    ensures
        fitted_text(s, lines, cols, ScrollAnchor::Top, k, wrap).len() > 0,
        fitted_text(s, lines, cols, ScrollAnchor::Top, k, wrap)[0] == render_line(
            display_lines(s)[k as int],
            cols,
            wrap,
        )[0],
        fitted_text(s, lines, cols, ScrollAnchor::Bottom, k, wrap).len() > 0,
        fitted_text(s, lines, cols, ScrollAnchor::Bottom, k, wrap).last() == render_line(
            display_lines(s)[display_lines(s).len() - 1 - k],
            cols,
            wrap,
        ).last(),
{
    let dl = display_lines(s);
    let n = dl.len();
    // Top
    let top = suffix_from(dl, k as int);
    let ts = top.map_values(|l: Seq<char>| render_line(l, cols, wrap));
    assert(top[0] == dl[k as int]);
    lemma_render_line_nonempty(dl[k as int], cols, wrap);
    assert(ts[0] == render_line(dl[k as int], cols, wrap));
    lemma_flatten_first(ts);
    let tf = ts.flatten();
    assert(prefix(tf, lines as int)[0] == tf[0]);
    // Bottom
    let bot = suffix_from(dl.reverse(), k as int);
    let bs = bot.map_values(|l: Seq<char>| render_line(l, cols, wrap).reverse());
    let line = dl[n - 1 - k];
    assert(bot[0] == dl.reverse()[k as int]);
    assert(dl.reverse()[k as int] == line);
    lemma_render_line_nonempty(line, cols, wrap);
    let rl = render_line(line, cols, wrap);
    assert(bs[0] == rl.reverse());
    assert(rl.reverse()[0] == rl.last());
    lemma_flatten_first(bs);
    let bf = bs.flatten();
    let pf = prefix(bf, lines as int);
    assert(pf[0] == bf[0]);
    assert(pf.reverse().last() == pf[0]);
}

proof fn lemma_chunk_start_member(k: int, first: int, size: int, x: int)
    requires
        k >= 0,
        first >= 0,
    ensures
        chunk_starts_below(k, first, size).contains(x) <==> (0 <= x < k && is_chunk_start(
            x,
            first,
            size,
        )),
    decreases k,
{
    if k > 0 {
        lemma_chunk_start_member(k - 1, first, size, x);
        let prev = chunk_starts_below(k - 1, first, size);
        let cur = chunk_starts_below(k, first, size);
        if is_chunk_start(k - 1, first, size) {
            assert(cur == prev.push(k - 1));
            if x == k - 1 {
                assert(cur[prev.len() as int] == k - 1);
            } else {
                if cur.contains(x) {
                    let m = choose|m: int| 0 <= m < cur.len() && #[trigger] cur[m] == x;
                    if m < prev.len() {
                        assert(prev[m] == x);
                    }
                }
                if prev.contains(x) {
                    let m = choose|m: int| 0 <= m < prev.len() && #[trigger] prev[m] == x;
                    assert(cur[m] == x);
                }
            }
        } else {
            assert(cur == prev);
        }
    }
}

proof fn lemma_chunk_starts_below_facts(k: int, first: int, size: int)
    requires
        k >= 0,
        first >= 0,
    ensures
        forall|x: int|
            #[trigger] chunk_starts_below(k, first, size).contains(x) <==> (0 <= x < k
                && is_chunk_start(x, first, size)),
{
    assert forall|x: int|
        #[trigger] chunk_starts_below(k, first, size).contains(x) <==> (0 <= x < k && is_chunk_start(
            x,
            first,
            size,
        )) by {
        lemma_chunk_start_member(k, first, size, x);
    }
}

/// With a positive chunk size, the chunks after the first hold at most
/// `size` characters each.
pub proof fn lemma_chunk_sizes(s: Seq<char>, first: nat, size: nat)
    requires
        size > 0,
    ensures
        forall|k: int|
            1 <= k < chunks(s, first as int, size as int).len() ==> (#[trigger] chunks(
                s,
                first as int,
                size as int,
            )[k]).len() <= size,
{
    let n = s.len() as int;
    let p = chunk_starts(n, first as int, size as int);
    lemma_chunk_starts_sorted(n, first as int, size as int);
    lemma_chunk_starts_below_facts(n, first as int, size as int);
    let below = chunk_starts_below(n, first as int, size as int);
    assert forall|k: int| 1 <= k < chunks(s, first as int, size as int).len() implies (
    #[trigger] chunks(s, first as int, size as int)[k]).len() <= size by {
        assert(p == below);
        assert(p[0] < p[k]);
        assert(below.contains(p[k]));
        assert(is_chunk_start(p[k], first as int, size as int));
        assert(p[k] >= first);
        let nxt = p[k] + size;
        if p[k] > first {
            assert((p[k] - first) % (size as int) == 0);
            assert((nxt - first) % (size as int) == 0) by (nonlinear_arith)
                requires
                    (p[k] - first) % (size as int) == 0,
                    nxt == p[k] + size,
                    size > 0,
            ;
        } else {
            assert((nxt - first) % (size as int) == 0) by (nonlinear_arith)
                requires
                    nxt - first == size,
                    size > 0,
            ;
        }
        assert(is_chunk_start(nxt, first as int, size as int));
        if nxt < n {
            assert(below.contains(nxt));
            let m = choose|m: int| 0 <= m < below.len() && #[trigger] below[m] == nxt;
            assert(m > k);
            if k + 1 < p.len() {
                assert(p[k + 1] <= p[m]);
            }
        }
        if k + 1 < p.len() {
            assert(p[k + 1] <= nxt);
        } else {
            assert(n <= nxt);
        }
    }
}

} // verus!
