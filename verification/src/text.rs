//! Character-level text helpers shared by the parsers and the text layout.
use vstd::prelude::*;

verus! {

/// The characters of an optional string.
pub open spec fn opt_view(o: Option<String>) -> Option<Seq<char>> {
    match o {
        Some(s) => Some(s@),
        None => None,
    }
}

/// The characters of each string in `v`.
pub open spec fn strings_view(v: Seq<String>) -> Seq<Seq<char>> {
    v.map_values(|s: String| s@)
}

/// Collects the characters of `s`, in order.
pub fn chars_of(s: &str) -> (r: Vec<char>)
    ensures
        r@ == s@,
{
    let mut r: Vec<char> = Vec::new();
    for c in it: s.chars()
        invariant
            r@ == it.seq().take(it.index() as int),
            it.seq() == s@,
    {
        r.push(c);
    }
    r
}

/// Appends one character to a string (std's `String::push`).
#[verifier::external_body]
pub(crate) fn push_char(s: &mut String, c: char)
    ensures
        final(s)@ == old(s)@.push(c),
{
    s.push(c);
}

/// The characters `cs[lo..hi]` as a new string.
pub fn string_from_chars(cs: &Vec<char>, lo: usize, hi: usize) -> (r: String)
    requires
        lo <= hi <= cs@.len(),
    ensures
        r@ == cs@.subrange(lo as int, hi as int),
{
    let mut r = String::new();
    let mut i = lo;
    while i < hi
        invariant
            lo <= i <= hi <= cs@.len(),
            r@ == cs@.subrange(lo as int, i as int),
        decreases hi - i,
    {
        push_char(&mut r, cs[i]);
        proof {
            assert(r@ =~= cs@.subrange(lo as int, i + 1));
        }
        i = i + 1;
    }
    r
}

/// Appends `t` to `s`.
pub fn append_str(s: &mut String, t: &str)
    ensures
        final(s)@ == old(s)@ + t@,
{
    s.append(t);
}

/// The pieces of `cs` that the index pairs in `r` delimit.
pub open spec fn ranges_view(cs: Seq<char>, r: Seq<(usize, usize)>) -> Seq<Seq<char>> {
    r.map_values(|p: (usize, usize)| cs.subrange(p.0 as int, p.1 as int))
}

/// `s` split at every occurrence of `c` (as std's `str::split` with a `char`
/// pattern): always at least one piece, and the separators are dropped.
pub open spec fn split_char(s: Seq<char>, c: char) -> Seq<Seq<char>>
    decreases s.len(),
{
    if s.len() == 0 {
        seq![Seq::empty()]
    } else {
        let r = split_char(s.drop_last(), c);
        if s.last() == c {
            r.push(Seq::empty())
        } else {
            r.update(r.len() - 1, r.last().push(s.last()))
        }
    }
}

/// The piece boundaries of `cs[lo..hi]` split at `c`, as index pairs into `cs`.
pub fn split_ranges(cs: &Vec<char>, lo: usize, hi: usize, c: char) -> (r: Vec<(usize, usize)>)
    requires
        lo <= hi <= cs@.len(),
    ensures
        ranges_view(cs@, r@) == split_char(cs@.subrange(lo as int, hi as int), c),
        forall|k: int|
            0 <= k < r@.len() ==> lo <= (#[trigger] r@[k]).0 <= r@[k].1 <= hi,
{
    let mut r: Vec<(usize, usize)> = Vec::new();
    let mut start = lo;
    let mut i = lo;
    proof {
        assert(cs@.subrange(lo as int, lo as int) =~= Seq::<char>::empty());
        assert(ranges_view(cs@, r@).push(cs@.subrange(start as int, i as int)) =~= seq![
            Seq::<char>::empty(),
        ]);
    }
    while i < hi
        invariant
            lo <= start <= i <= hi <= cs@.len(),
            ranges_view(cs@, r@).push(cs@.subrange(start as int, i as int)) == split_char(
                cs@.subrange(lo as int, i as int),
                c,
            ),
            forall|k: int| 0 <= k < r@.len() ==> lo <= (#[trigger] r@[k]).0 <= r@[k].1 <= start,
        decreases hi - i,
    {
        let ghost prev = cs@.subrange(lo as int, i as int);
        let ghost next = cs@.subrange(lo as int, i + 1);
        proof {
            assert(next.drop_last() =~= prev);
            assert(next.last() == cs@[i as int]);
        }
        if cs[i] == c {
            r.push((start, i));
            start = i + 1;
            proof {
                assert(cs@.subrange(start as int, i + 1) =~= Seq::<char>::empty());
                assert(ranges_view(cs@, r@).push(cs@.subrange(start as int, i + 1)) =~= split_char(
                    next,
                    c,
                ));
            }
        } else {
            proof {
                assert(cs@.subrange(start as int, i + 1) =~= cs@.subrange(
                    start as int,
                    i as int,
                ).push(cs@[i as int]));
                assert(ranges_view(cs@, r@).push(cs@.subrange(start as int, i + 1)) =~= split_char(
                    next,
                    c,
                ));
            }
        }
        i = i + 1;
    }
    r.push((start, hi));
    proof {
        assert(ranges_view(cs@, r@) =~= split_char(cs@.subrange(lo as int, hi as int), c));
    }
    r
}

/// Splitting at a character always gives at least one piece (an empty text
/// gives one empty piece).
pub proof fn lemma_split_char_nonempty(s: Seq<char>, c: char)
    ensures
        split_char(s, c).len() >= 1,
    decreases s.len(),
{
    if s.len() > 0 {
        lemma_split_char_nonempty(s.drop_last(), c);
    }
}

/// `l` without one trailing carriage return.
pub open spec fn strip_cr(l: Seq<char>) -> Seq<char> {
    if l.len() > 0 && l.last() == '\r' {
        l.drop_last()
    } else {
        l
    }
}

/// The lines of `s` as std's `str::lines` gives them: split at `\n`, a
/// `\r` right before a `\n` dropped, a final `\n` ending the last line
/// rather than starting an empty one, and no lines at all for "".
pub open spec fn std_lines(s: Seq<char>) -> Seq<Seq<char>> {
    if s.len() == 0 {
        Seq::empty()
    } else {
        let p = split_char(s, '\n');
        let ended = Seq::new((p.len() - 1) as nat, |k: int| strip_cr(p[k]));
        if s.last() == '\n' {
            ended
        } else {
            ended.push(p.last())
        }
    }
}

/// The lines of `cs[lo..hi]` (see `std_lines`), as index pairs into `cs`.
pub fn line_ranges(cs: &Vec<char>, lo: usize, hi: usize) -> (r: Vec<(usize, usize)>)
    requires
        lo <= hi <= cs@.len(),
    ensures
        ranges_view(cs@, r@) == std_lines(cs@.subrange(lo as int, hi as int)),
        forall|k: int| 0 <= k < r@.len() ==> lo <= (#[trigger] r@[k]).0 <= r@[k].1 <= hi,
{
    let mut r: Vec<(usize, usize)> = Vec::new();
    if lo == hi {
        proof {
            assert(ranges_view(cs@, r@) =~= std_lines(cs@.subrange(lo as int, hi as int)));
        }
        return r;
    }
    let ghost s = cs@.subrange(lo as int, hi as int);
    let parts = split_ranges(cs, lo, hi, '\n');
    let ghost p = split_char(s, '\n');
    proof {
        lemma_split_char_nonempty(s, '\n');
    }
    let mut k: usize = 0;
    while k < parts.len() - 1
        invariant
            0 <= k < parts@.len(),
            parts@.len() == p.len(),
            ranges_view(cs@, parts@) == p,
            forall|j: int| 0 <= j < parts@.len() ==> lo <= (#[trigger] parts@[j]).0 <= parts@[j].1 <= hi,
            hi <= cs@.len(),
            r@.len() == k,
            forall|j: int| 0 <= j < r@.len() ==> lo <= (#[trigger] r@[j]).0 <= r@[j].1 <= hi,
            ranges_view(cs@, r@) == Seq::new(k as nat, |j: int| strip_cr(p[j])),
        decreases parts@.len() - k,
    {
        let (a, b) = parts[k];
        let ghost piece = cs@.subrange(a as int, b as int);
        proof {
            assert(ranges_view(cs@, parts@)[k as int] == piece);
        }
        let ghost old_view = ranges_view(cs@, r@);
        if b > a && cs[b - 1] == '\r' {
            r.push((a, b - 1));
            proof {
                assert(cs@.subrange(a as int, b - 1) =~= piece.drop_last());
                assert(piece.last() == cs@[b - 1]);
                assert(ranges_view(cs@, r@) =~= old_view.push(strip_cr(piece)));
            }
        } else {
            r.push((a, b));
            proof {
                if b > a {
                    assert(piece.last() == cs@[b - 1]);
                }
                assert(ranges_view(cs@, r@) =~= old_view.push(strip_cr(piece)));
            }
        }
        proof {
            assert(ranges_view(cs@, r@) =~= Seq::new((k + 1) as nat, |j: int| strip_cr(p[j])));
        }
        k = k + 1;
    }
    if cs[hi - 1] != '\n' {
        let last = parts[k];
        r.push(last);
        proof {
            assert(ranges_view(cs@, parts@)[k as int] == p.last());
        }
    }
    proof {
        assert(s.last() == cs@[hi - 1]);
        assert(ranges_view(cs@, r@) =~= std_lines(s));
    }
    r
}

/// Unicode `White_Space` characters: what std's `char::is_whitespace`
/// accepts.
pub open spec fn is_white_space(c: char) -> bool {
    ||| '\u{9}' <= c <= '\u{d}'
    ||| c == ' '
    ||| c == '\u{85}'
    ||| c == '\u{a0}'
    ||| c == '\u{1680}'
    ||| '\u{2000}' <= c <= '\u{200a}'
    ||| c == '\u{2028}'
    ||| c == '\u{2029}'
    ||| c == '\u{202f}'
    ||| c == '\u{205f}'
    ||| c == '\u{3000}'
}

pub fn is_white_space_char(c: char) -> (r: bool)
    ensures
        r == is_white_space(c),
{
    ('\u{9}' <= c && c <= '\u{d}') || c == ' ' || c == '\u{85}' || c == '\u{a0}' || c
        == '\u{1680}' || ('\u{2000}' <= c && c <= '\u{200a}') || c == '\u{2028}' || c
        == '\u{2029}' || c == '\u{202f}' || c == '\u{205f}' || c == '\u{3000}'
}

/// `s` without leading white space.
pub open spec fn trim_start(s: Seq<char>) -> Seq<char>
    decreases s.len(),
{
    if s.len() > 0 && is_white_space(s[0]) {
        trim_start(s.drop_first())
    } else {
        s
    }
}

/// `s` without trailing white space.
pub open spec fn trim_end(s: Seq<char>) -> Seq<char>
    decreases s.len(),
{
    if s.len() > 0 && is_white_space(s.last()) {
        trim_end(s.drop_last())
    } else {
        s
    }
}

/// `s` without leading and trailing white space.
pub open spec fn trim(s: Seq<char>) -> Seq<char> {
    trim_end(trim_start(s))
}

/// The part of `cs[lo..hi]` that is left after trimming white space at the
/// end, as the end index.
pub fn trim_end_index(cs: &Vec<char>, lo: usize, hi: usize) -> (b: usize)
    requires
        lo <= hi <= cs@.len(),
    ensures
        lo <= b <= hi,
        cs@.subrange(lo as int, b as int) == trim_end(cs@.subrange(lo as int, hi as int)),
{
    let mut b = hi;
    while b > lo && is_white_space_char(cs[b - 1])
        invariant
            lo <= b <= hi <= cs@.len(),
            trim_end(cs@.subrange(lo as int, b as int)) == trim_end(
                cs@.subrange(lo as int, hi as int),
            ),
        decreases b,
    {
        proof {
            let t = cs@.subrange(lo as int, b as int);
            assert(t.last() == cs@[b - 1]);
            assert(t.drop_last() =~= cs@.subrange(lo as int, b - 1));
        }
        b = b - 1;
    }
    proof {
        let t = cs@.subrange(lo as int, b as int);
        if b > lo {
            assert(t.last() == cs@[b - 1]);
        }
    }
    b
}

/// The part of `cs[lo..hi]` that is left after trimming white space at
/// both ends, as an index pair.
pub fn trim_range(cs: &Vec<char>, lo: usize, hi: usize) -> (r: (usize, usize))
    requires
        lo <= hi <= cs@.len(),
    ensures
        lo <= r.0 <= r.1 <= hi,
        cs@.subrange(r.0 as int, r.1 as int) == trim(cs@.subrange(lo as int, hi as int)),
{
    let mut a = lo;
    while a < hi && is_white_space_char(cs[a])
        invariant
            lo <= a <= hi <= cs@.len(),
            trim_start(cs@.subrange(a as int, hi as int)) == trim_start(
                cs@.subrange(lo as int, hi as int),
            ),
        decreases hi - a,
    {
        proof {
            let t = cs@.subrange(a as int, hi as int);
            assert(t[0] == cs@[a as int]);
            assert(t.drop_first() =~= cs@.subrange(a + 1, hi as int));
        }
        a = a + 1;
    }
    proof {
        let t = cs@.subrange(a as int, hi as int);
        if a < hi {
            assert(t[0] == cs@[a as int]);
        }
        assert(trim_start(t) == t);
    }
    let b = trim_end_index(cs, a, hi);
    (a, b)
}

/// `s` with white space removed from both ends.
pub fn trim_str(s: &str) -> (r: String)
    ensures
        r@ == trim(s@),
{
    let cs = chars_of(s);
    let (a, b) = trim_range(&cs, 0, cs.len());
    proof {
        assert(cs@.subrange(0, cs@.len() as int) =~= s@);
    }
    string_from_chars(&cs, a, b)
}

/// `s` with white space removed from its end.
pub fn trim_end_str(s: &str) -> (r: String)
    ensures
        r@ == trim_end(s@),
{
    let cs = chars_of(s);
    let b = trim_end_index(&cs, 0, cs.len());
    proof {
        assert(cs@.subrange(0, cs@.len() as int) =~= s@);
    }
    string_from_chars(&cs, 0, b)
}

proof fn lemma_trim_start_shape(s: Seq<char>)
    ensures
        trim_start(s).len() == 0 || !is_white_space(trim_start(s)[0]),
        exists|k: int| 0 <= k <= s.len() && trim_start(s) == s.skip(k),
    decreases s.len(),
{
    if s.len() > 0 && is_white_space(s[0]) {
        lemma_trim_start_shape(s.drop_first());
        let k = choose|k: int| 0 <= k <= s.drop_first().len() && trim_start(s.drop_first())
            == s.drop_first().skip(k);
        assert(s.drop_first().skip(k) =~= s.skip(k + 1));
    } else {
        assert(s.skip(0) =~= s);
    }
}

proof fn lemma_trim_end_shape(s: Seq<char>)
    ensures
        trim_end(s).len() == 0 || !is_white_space(trim_end(s).last()),
        trim_end(s).len() <= s.len(),
        trim_end(s) == s.take(trim_end(s).len() as int),
    decreases s.len(),
{
    if s.len() > 0 && is_white_space(s.last()) {
        lemma_trim_end_shape(s.drop_last());
        assert(s.drop_last().take(trim_end(s).len() as int) =~= s.take(trim_end(s).len() as int));
    } else {
        assert(s.take(s.len() as int) =~= s);
    }
}

/// Trimming trimmed text changes nothing.
pub proof fn lemma_trim_idempotent(s: Seq<char>)
    ensures
        trim(trim(s)) == trim(s),
{
    let u = trim_start(s);
    lemma_trim_start_shape(s);
    let t = trim_end(u);
    lemma_trim_end_shape(u);
    if t.len() > 0 {
        assert(t[0] == u[0]);
    }
    assert(trim_start(t) == t);
    assert(trim_end(t) == t);
}

/// The decimal digit for `d`.
pub open spec fn digit_char(d: nat) -> char {
    if d == 0 {
        '0'
    } else if d == 1 {
        '1'
    } else if d == 2 {
        '2'
    } else if d == 3 {
        '3'
    } else if d == 4 {
        '4'
    } else if d == 5 {
        '5'
    } else if d == 6 {
        '6'
    } else if d == 7 {
        '7'
    } else if d == 8 {
        '8'
    } else {
        '9'
    }
}

/// The decimal representation of `n`, without leading zeros.
pub open spec fn decimal(n: nat) -> Seq<char>
    decreases n,
{
    if n < 10 {
        seq![digit_char(n)]
    } else {
        decimal(n / 10).push(digit_char(n % 10))
    }
}

/// The decimal representation of `x`, with a leading `-` when negative.
pub open spec fn signed_decimal(x: int) -> Seq<char> {
    if x < 0 {
        seq!['-'] + decimal((-x) as nat)
    } else {
        decimal(x as nat)
    }
}

fn digit(d: u64) -> (c: char)
    requires
        d < 10,
    ensures
        c == digit_char(d as nat),
{
    if d == 0 {
        '0'
    } else if d == 1 {
        '1'
    } else if d == 2 {
        '2'
    } else if d == 3 {
        '3'
    } else if d == 4 {
        '4'
    } else if d == 5 {
        '5'
    } else if d == 6 {
        '6'
    } else if d == 7 {
        '7'
    } else if d == 8 {
        '8'
    } else {
        '9'
    }
}

/// Appends the decimal representation of `n` to `s`.
pub fn push_decimal(s: &mut String, n: u64)
    ensures
        final(s)@ == old(s)@ + decimal(n as nat),
    decreases n,
{
    if n >= 10 {
        push_decimal(s, n / 10);
    }
    push_char(s, digit(n % 10));
    proof {
        if n >= 10 {
            assert(final(s)@ =~= old(s)@ + decimal(n as nat));
        } else {
            assert(final(s)@ =~= old(s)@ + decimal(n as nat));
        }
    }
}

/// Appends the decimal representation of `x` (with a `-` when negative) to `s`.
pub fn push_signed_decimal(s: &mut String, x: i64)
    ensures
        final(s)@ == old(s)@ + signed_decimal(x as int),
{
    if x < 0 {
        push_char(s, '-');
        let m: u64 = if x == i64::MIN {
            9223372036854775808u64
        } else {
            (-x) as u64
        };
        push_decimal(s, m);
        proof {
            assert(final(s)@ =~= old(s)@ + signed_decimal(x as int));
        }
    } else {
        push_decimal(s, x as u64);
    }
}

/// The pieces of `parts` joined with `sep` between neighbours.
pub open spec fn join(parts: Seq<Seq<char>>, sep: Seq<char>) -> Seq<char>
    decreases parts.len(),
{
    if parts.len() == 0 {
        Seq::empty()
    } else if parts.len() == 1 {
        parts[0]
    } else {
        join(parts.drop_last(), sep) + sep + parts.last()
    }
}

/// The strings of `parts` joined with `sep` between neighbours.
pub fn join_strings(parts: &Vec<String>, sep: &str) -> (r: String)
    ensures
        r@ == join(parts@.map_values(|p: String| p@), sep@),
{
    let ghost pv = parts@.map_values(|p: String| p@);
    let mut r = String::new();
    let mut i: usize = 0;
    while i < parts.len()
        invariant
            i <= parts@.len(),
            pv == parts@.map_values(|p: String| p@),
            r@ == join(pv.take(i as int), sep@),
        decreases parts@.len() - i,
    {
        if i > 0 {
            append_str(&mut r, sep);
        }
        append_str(&mut r, parts[i].as_str());
        proof {
            assert(pv.take(i + 1).drop_last() =~= pv.take(i as int));
            if i == 0 {
                assert(pv.take(0) =~= Seq::<Seq<char>>::empty());
                assert(r@ =~= join(pv.take(1), sep@));
            }
        }
        i = i + 1;
    }
    proof {
        assert(pv.take(i as int) =~= pv);
    }
    r
}

/// `pat` occurs in `s` at position `i`.
pub open spec fn occurs_at(s: Seq<char>, pat: Seq<char>, i: int) -> bool {
    0 <= i && i + pat.len() <= s.len() && s.subrange(i, i + pat.len()) == pat
}

/// `s` split at the non-overlapping occurrences of the non-empty `pat`,
/// searching from the left (as std's `str::split` with a `&str` pattern).
pub open spec fn split_str(s: Seq<char>, pat: Seq<char>) -> Seq<Seq<char>>
    decreases s.len(),
{
    if pat.len() == 0 || s.len() < pat.len() {
        seq![s]
    } else if occurs_at(s, pat, 0) {
        seq![Seq::<char>::empty()] + split_str(s.skip(pat.len() as int), pat)
    } else {
        let r = split_str(s.drop_first(), pat);
        r.update(0, seq![s[0]] + r[0])
    }
}

/// `r` with `p` put in front of its first piece.
pub open spec fn glue_front(p: Seq<char>, r: Seq<Seq<char>>) -> Seq<Seq<char>> {
    r.update(0, p + r[0])
}

/// Splitting at a separator always gives at least one piece.
pub proof fn lemma_split_str_nonempty(s: Seq<char>, pat: Seq<char>)
    ensures
        split_str(s, pat).len() >= 1,
    decreases s.len(),
{
    if pat.len() == 0 || s.len() < pat.len() {
    } else if occurs_at(s, pat, 0) {
        lemma_split_str_nonempty(s.skip(pat.len() as int), pat);
    } else {
        lemma_split_str_nonempty(s.drop_first(), pat);
    }
}

/// Whether `pat` occurs in `cs` at `i`.
fn occurs_at_exec(cs: &Vec<char>, pat: &Vec<char>, i: usize, hi: usize) -> (r: bool)
    requires
        i <= hi <= cs@.len(),
    ensures
        r == occurs_at(cs@.subrange(i as int, hi as int), pat@, 0),
{
    if pat.len() > hi - i {
        return false;
    }
    let mut k: usize = 0;
    while k < pat.len()
        invariant
            k <= pat@.len(),
            i + pat@.len() <= hi <= cs@.len(),
            forall|j: int| 0 <= j < k ==> cs@[i + j] == pat@[j],
        decreases pat@.len() - k,
    {
        if cs[i + k] != pat[k] {
            proof {
                let t = cs@.subrange(i as int, hi as int);
                assert(t.subrange(0, pat@.len() as int)[k as int] != pat@[k as int]);
            }
            return false;
        }
        k = k + 1;
    }
    proof {
        let t = cs@.subrange(i as int, hi as int);
        assert(t.subrange(0, pat@.len() as int) =~= pat@);
    }
    true
}

/// The pieces of `cs[lo..hi]` split at `pat` (see `split_str`), as index pairs.
pub fn split_str_ranges(cs: &Vec<char>, lo: usize, hi: usize, pat: &Vec<char>) -> (r: Vec<
    (usize, usize),
>)
    requires
        lo <= hi <= cs@.len(),
        pat@.len() > 0,
    ensures
        ranges_view(cs@, r@) == split_str(cs@.subrange(lo as int, hi as int), pat@),
        forall|k: int| 0 <= k < r@.len() ==> lo <= (#[trigger] r@[k]).0 <= r@[k].1 <= hi,
{
    let mut r: Vec<(usize, usize)> = Vec::new();
    let mut start = lo;
    let mut i = lo;
    proof {
        lemma_split_str_nonempty(cs@.subrange(lo as int, hi as int), pat@);
        let sp = split_str(cs@.subrange(lo as int, hi as int), pat@);
        assert(cs@.subrange(lo as int, lo as int) =~= Seq::<char>::empty());
        assert(glue_front(Seq::<char>::empty(), sp) =~= sp);
        assert(ranges_view(cs@, r@) + glue_front(cs@.subrange(start as int, i as int), sp) =~= sp);
    }
    while i < hi && pat.len() <= hi - i
        invariant
            lo <= start <= i <= hi <= cs@.len(),
            pat@.len() > 0,
            ranges_view(cs@, r@) + glue_front(
                cs@.subrange(start as int, i as int),
                split_str(cs@.subrange(i as int, hi as int), pat@),
            ) == split_str(cs@.subrange(lo as int, hi as int), pat@),
            forall|k: int| 0 <= k < r@.len() ==> lo <= (#[trigger] r@[k]).0 <= r@[k].1 <= start,
        decreases hi - i,
    {
        let ghost t = cs@.subrange(i as int, hi as int);
        let ghost p = cs@.subrange(start as int, i as int);
        let ghost before = ranges_view(cs@, r@);
        if occurs_at_exec(cs, pat, i, hi) {
            let k = i + pat.len();
            proof {
                assert(t.skip(pat@.len() as int) =~= cs@.subrange(k as int, hi as int));
                lemma_split_str_nonempty(cs@.subrange(k as int, hi as int), pat@);
            }
            r.push((start, i));
            start = k;
            i = k;
            proof {
                let rest = split_str(cs@.subrange(k as int, hi as int), pat@);
                assert(cs@.subrange(start as int, i as int) =~= Seq::<char>::empty());
                assert(glue_front(Seq::<char>::empty(), rest) =~= rest);
                assert(glue_front(p, split_str(t, pat@)) =~= seq![p] + rest);
                assert(ranges_view(cs@, r@) =~= before.push(p));
                assert(ranges_view(cs@, r@) + glue_front(
                    cs@.subrange(start as int, i as int),
                    rest,
                ) =~= before + glue_front(p, split_str(t, pat@)));
            }
        } else {
            proof {
                assert(t.drop_first() =~= cs@.subrange(i + 1, hi as int));
                assert(t[0] == cs@[i as int]);
                let rest = split_str(cs@.subrange(i + 1, hi as int), pat@);
                lemma_split_str_nonempty(cs@.subrange(i + 1, hi as int), pat@);
                assert(cs@.subrange(start as int, i + 1) =~= p.push(cs@[i as int]));
                assert(t.len() >= pat@.len());
                assert(split_str(t, pat@) == rest.update(0, seq![t[0]] + rest[0]));
                assert(p + (seq![t[0]] + rest[0]) =~= p.push(cs@[i as int]) + rest[0]);
                assert(glue_front(p, split_str(t, pat@)) =~= glue_front(
                    cs@.subrange(start as int, i + 1),
                    rest,
                ));
            }
            i = i + 1;
        }
    }
    r.push((start, hi));
    proof {
        let t = cs@.subrange(i as int, hi as int);
        assert(split_str(t, pat@) == seq![t]);
        assert(cs@.subrange(start as int, i as int) + t =~= cs@.subrange(start as int, hi as int));
        assert(ranges_view(cs@, r@) =~= split_str(cs@.subrange(lo as int, hi as int), pat@));
    }
    r
}

/// Whether `a` and `b` hold the same characters.
pub fn same_text(a: &str, b: &str) -> (r: bool)
    ensures
        r == (a@ == b@),
{
    let x = chars_of(a);
    let y = chars_of(b);
    if x.len() != y.len() {
        return false;
    }
    let mut i: usize = 0;
    while i < x.len()
        invariant
            i <= x@.len() == y@.len(),
            x@ == a@,
            y@ == b@,
            forall|j: int| 0 <= j < i ==> x@[j] == y@[j],
        decreases x@.len() - i,
    {
        if x[i] != y[i] {
            proof {
                assert(x@[i as int] != y@[i as int]);
                assert(a@[i as int] != b@[i as int]);
                assert(a@ != b@);
            }
            return false;
        }
        i = i + 1;
    }
    proof {
        assert(x@ =~= y@);
    }
    true
}

} // verus!
