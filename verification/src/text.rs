//! Text primitives over sequences of characters: whitespace, trimming,
//! splitting into lines, joining, searching and replacing.
//!
//! Every function here is specified over `Seq<char>`, the view of `str` and
//! `String`; the executable versions work on vectors of characters.

use vstd::prelude::*;

verus! {

/// `String::push` appends exactly one character to the end of the string.
pub assume_specification[ String::push ](s: &mut String, ch: char)
    ensures
        final(s)@ == old(s)@.push(ch),
;

/// The characters of `s`, in order.
pub fn chars_of(s: &str) -> (r: Vec<char>)
    ensures
        r@ == s@,
{
    let mut r: Vec<char> = Vec::new();
    for c in it: s.chars()
        invariant
            r@ == it.seq().take(it.index()),
            it.seq() == s@,
    {
        r.push(c);
    }
    r
}

/// The string made of the characters `v[from..to]`.
pub(crate) fn string_of_range(v: &Vec<char>, from: usize, to: usize) -> (r: String)
    requires
        from <= to <= v.len(),
    ensures
        r@ == v@.subrange(from as int, to as int),
{
    let mut r = String::new();
    let mut i: usize = from;
    while i < to
        invariant
            from <= i <= to <= v.len(),
            r@ == v@.subrange(from as int, i as int),
        decreases to - i,
    {
        r.push(v[i]);
        i += 1;
        assert(v@.subrange(from as int, i as int) == v@.subrange(from as int, i - 1).push(
            v@[i - 1],
        ));
    }
    r
}

/// The string made of the characters of `v`.
pub fn string_of(v: &Vec<char>) -> (r: String)
    ensures
        r@ == v@,
{
    let r = string_of_range(v, 0, v.len());
    assert(v@.subrange(0, v.len() as int) == v@);
    r
}

/// Whether `c` has the Unicode property White_Space.
pub open spec fn is_whitespace(c: char) -> bool {
    let u = c as int;
    ||| 0x09 <= u <= 0x0D
    ||| u == 0x20
    ||| u == 0x85
    ||| u == 0xA0
    ||| u == 0x1680
    ||| 0x2000 <= u <= 0x200A
    ||| u == 0x2028
    ||| u == 0x2029
    ||| u == 0x202F
    ||| u == 0x205F
    ||| u == 0x3000
}

/// Whether `c` has the Unicode property White_Space.
pub fn char_is_whitespace(c: char) -> (r: bool)
    ensures
        r == is_whitespace(c),
{
    let u: u32 = c as u32;
    (0x09 <= u && u <= 0x0D) || u == 0x20 || u == 0x85 || u == 0xA0 || u == 0x1680 || (0x2000 <= u
        && u <= 0x200A) || u == 0x2028 || u == 0x2029 || u == 0x202F || u == 0x205F || u == 0x3000
}

/// How many whitespace characters `s` begins with.
pub open spec fn leading_whitespace(s: Seq<char>) -> nat
    decreases s.len(),
{
    if s.len() > 0 && is_whitespace(s[0]) {
        1 + leading_whitespace(s.skip(1))
    } else {
        0
    }
}

/// How many whitespace characters `s` ends with.
pub open spec fn trailing_whitespace(s: Seq<char>) -> nat
    decreases s.len(),
{
    if s.len() > 0 && is_whitespace(s.last()) {
        1 + trailing_whitespace(s.drop_last())
    } else {
        0
    }
}

/// `s` without the whitespace at its two ends.
pub open spec fn trimmed(s: Seq<char>) -> Seq<char> {
    let rest = s.skip(leading_whitespace(s) as int);
    rest.take(rest.len() - trailing_whitespace(rest))
}

/// `s` begins with `n` whitespace characters where its first `n` characters
/// are whitespace and the next one, if there is one, is not.
pub proof fn lemma_leading_whitespace(s: Seq<char>, n: int)
    requires
        0 <= n <= s.len(),
        forall|i: int| 0 <= i < n ==> is_whitespace(#[trigger] s[i]),
        n == s.len() || !is_whitespace(s[n]),
    ensures
        leading_whitespace(s) == n,
    decreases n,
{
    if n > 0 {
        assert(is_whitespace(s[0]));
        let t = s.skip(1);
        assert forall|i: int| 0 <= i < n - 1 implies is_whitespace(#[trigger] t[i]) by {
            assert(t[i] == s[i + 1]);
        }
        lemma_leading_whitespace(t, n - 1);
    }
}

/// `s` ends with `n` whitespace characters where its last `n` characters
/// are whitespace and the one before them, if there is one, is not.
pub proof fn lemma_trailing_whitespace(s: Seq<char>, n: int)
    requires
        0 <= n <= s.len(),
        forall|i: int| s.len() - n <= i < s.len() ==> is_whitespace(#[trigger] s[i]),
        n == s.len() || !is_whitespace(s[s.len() - n - 1]),
    ensures
        trailing_whitespace(s) == n,
    decreases n,
{
    if n > 0 {
        assert(is_whitespace(s[s.len() - 1]));
        let t = s.drop_last();
        assert forall|i: int| t.len() - (n - 1) <= i < t.len() implies is_whitespace(
            #[trigger] t[i],
        ) by {
            assert(t[i] == s[i]);
        }
        lemma_trailing_whitespace(t, n - 1);
    }
}

/// The number of whitespace characters at the start of `v[from..to]`.
pub(crate) fn count_leading_whitespace(v: &Vec<char>, from: usize, to: usize) -> (n: usize)
    requires
        from <= to <= v.len(),
    ensures
        n == leading_whitespace(v@.subrange(from as int, to as int)),
        from + n <= to,
{
    let mut i: usize = from;
    while i < to && char_is_whitespace(v[i])
        invariant
            from <= i <= to <= v.len(),
            forall|k: int| from <= k < i ==> is_whitespace(#[trigger] v@[k]),
        decreases to - i,
    {
        i += 1;
    }
    proof {
        lemma_leading_whitespace(v@.subrange(from as int, to as int), i - from);
    }
    i - from
}

/// The number of whitespace characters at the end of `v[from..to]`.
pub(crate) fn count_trailing_whitespace(v: &Vec<char>, from: usize, to: usize) -> (n: usize)
    requires
        from <= to <= v.len(),
    ensures
        n == trailing_whitespace(v@.subrange(from as int, to as int)),
        from + n <= to,
{
    let mut i: usize = to;
    while i > from && char_is_whitespace(v[i - 1])
        invariant
            from <= i <= to <= v.len(),
            forall|k: int| i <= k < to ==> is_whitespace(#[trigger] v@[k]),
        decreases i,
    {
        i -= 1;
    }
    proof {
        lemma_trailing_whitespace(v@.subrange(from as int, to as int), to - i);
    }
    to - i
}

/// `v[from..to]` without the whitespace at its two ends.
pub(crate) fn trim_range(v: &Vec<char>, from: usize, to: usize) -> (r: Vec<char>)
    requires
        from <= to <= v.len(),
    ensures
        r@ == trimmed(v@.subrange(from as int, to as int)),
{
    let lead = count_leading_whitespace(v, from, to);
    let start = from + lead;
    let trail = count_trailing_whitespace(v, start, to);
    let r = copy_range(v, start, to - trail);
    proof {
        let s = v@.subrange(from as int, to as int);
        let rest = s.skip(lead as int);
        assert(rest == v@.subrange(start as int, to as int));
        assert(rest.take(rest.len() - trail) == v@.subrange(start as int, to - trail));
    }
    r
}

/// `s` without the whitespace at its two ends.
pub fn trim(s: &str) -> (r: String)
    ensures
        r@ == trimmed(s@),
{
    let v = chars_of(s);
    assert(v@.subrange(0, v.len() as int) == v@);
    let t = trim_range(&v, 0, v.len());
    string_of(&t)
}

/// The views of the items of `s`, in order.
pub open spec fn views_of<T: View>(s: Seq<T>) -> Seq<T::V> {
    s.map_values(|x: T| x@)
}

/// A copy of `v[from..to]`.
pub(crate) fn copy_range(v: &Vec<char>, from: usize, to: usize) -> (r: Vec<char>)
    requires
        from <= to <= v.len(),
    ensures
        r@ == v@.subrange(from as int, to as int),
{
    let mut r: Vec<char> = Vec::new();
    let mut i: usize = from;
    while i < to
        invariant
            from <= i <= to <= v.len(),
            r@ == v@.subrange(from as int, i as int),
        decreases to - i,
    {
        r.push(v[i]);
        i += 1;
        assert(v@.subrange(from as int, i as int) == v@.subrange(from as int, i - 1).push(
            v@[i - 1],
        ));
    }
    r
}

/// Appends the characters of `tail` to `v`.
pub fn extend_chars(v: &mut Vec<char>, tail: &Vec<char>)
    ensures
        final(v)@ == old(v)@ + tail@,
{
    let mut i: usize = 0;
    while i < tail.len()
        invariant
            i <= tail.len(),
            v@ == old(v)@ + tail@.take(i as int),
        decreases tail.len() - i,
    {
        v.push(tail[i]);
        i += 1;
        assert(tail@.take(i as int) == tail@.take(i - 1).push(tail@[i - 1]));
    }
    assert(tail@.take(tail.len() as int) == tail@);
}

/// Where the first line of `s` ends: the index of its first line feed, or
/// its length where it has none.
pub open spec fn line_end(s: Seq<char>) -> nat
    decreases s.len(),
{
    if s.len() == 0 || s[0] == '\n' {
        0
    } else {
        1 + line_end(s.skip(1))
    }
}

/// `s` without one carriage return at its end.
pub open spec fn without_cr(s: Seq<char>) -> Seq<char> {
    if s.len() > 0 && s.last() == '\r' {
        s.drop_last()
    } else {
        s
    }
}

/// The lines of `s`. A line ends at a line feed, or at a carriage return
/// directly before one; neither belongs to the line. What follows the last
/// line feed is a line of its own unless it is empty.
pub open spec fn lines_of(s: Seq<char>) -> Seq<Seq<char>>
    decreases s.len(),
{
    if s.len() == 0 {
        Seq::empty()
    } else {
        let k = line_end(s) as int;
        if k >= s.len() {
            seq![s]
        } else {
            seq![without_cr(s.take(k))] + lines_of(s.skip(k + 1))
        }
    }
}

/// The first line of `s` ends at `k` where no line feed stands before `k`
/// and one stands at `k`, or `s` ends there.
pub proof fn lemma_line_end(s: Seq<char>, k: int)
    requires
        0 <= k <= s.len(),
        forall|i: int| 0 <= i < k ==> #[trigger] s[i] != '\n',
        k == s.len() || s[k] == '\n',
    ensures
        line_end(s) == k,
    decreases k,
{
    if k > 0 {
        assert(s[0] != '\n');
        let t = s.skip(1);
        assert forall|i: int| 0 <= i < k - 1 implies #[trigger] t[i] != '\n' by {
            assert(t[i] == s[i + 1]);
        }
        lemma_line_end(t, k - 1);
    }
}

/// The lines of `v`, each as a vector of its own.
pub fn split_lines(v: &Vec<char>) -> (r: Vec<Vec<char>>)
    ensures
        views_of(r@) == lines_of(v@),
{
    let mut r: Vec<Vec<char>> = Vec::new();
    let mut pos: usize = 0;
    assert(v@.skip(0) == v@);
    assert(views_of(r@) + lines_of(v@) == lines_of(v@));
    while pos < v.len()
        invariant
            pos <= v.len(),
            lines_of(v@) == views_of(r@) + lines_of(v@.skip(pos as int)),
        decreases v.len() - pos,
    {
        let mut end: usize = pos;
        while end < v.len() && v[end] != '\n'
            invariant
                pos <= end <= v.len(),
                forall|k: int| pos <= k < end ==> #[trigger] v@[k] != '\n',
            decreases v.len() - end,
        {
            end += 1;
        }
        let ghost rest = v@.skip(pos as int);
        let ghost before = views_of(r@);
        proof {
            lemma_line_end(rest, end - pos);
        }
        if end == v.len() {
            let line = copy_range(v, pos, end);
            assert(line@ == rest);
            r.push(line);
            assert(views_of(r@) == before + seq![rest]);
            pos = end;
            assert(lines_of(v@.skip(pos as int)) == Seq::<Seq<char>>::empty());
            assert(views_of(r@) + lines_of(v@.skip(pos as int)) == views_of(r@));
        } else {
            let stop: usize = if end > pos && v[end - 1] == '\r' {
                end - 1
            } else {
                end
            };
            let line = copy_range(v, pos, stop);
            assert(rest.take(end - pos) == v@.subrange(pos as int, end as int));
            assert(line@ == without_cr(rest.take(end - pos)));
            r.push(line);
            assert(views_of(r@) == before + seq![line@]);
            assert(rest.skip(end - pos + 1) == v@.skip(end + 1));
            pos = end + 1;
            assert(before + (seq![line@] + lines_of(v@.skip(pos as int))) == (before
                + seq![line@]) + lines_of(v@.skip(pos as int)));
        }
    }
    assert(lines_of(v@.skip(pos as int)) == Seq::<Seq<char>>::empty());
    assert(views_of(r@) + Seq::<Seq<char>>::empty() == views_of(r@));
    r
}

/// The items of `parts` in order, with `sep` between each two neighbours.
pub open spec fn joined(parts: Seq<Seq<char>>, sep: Seq<char>) -> Seq<char>
    decreases parts.len(),
{
    if parts.len() == 0 {
        Seq::empty()
    } else if parts.len() == 1 {
        parts[0]
    } else {
        joined(parts.drop_last(), sep) + sep + parts.last()
    }
}

/// The items of `parts` in order, with `sep` between each two neighbours.
pub fn join_chars(parts: &Vec<Vec<char>>, sep: &Vec<char>) -> (r: Vec<char>)
    ensures
        r@ == joined(views_of(parts@), sep@),
{
    let mut r: Vec<char> = Vec::new();
    let mut i: usize = 0;
    let ghost all = views_of(parts@);
    assert(all.take(0) == Seq::<Seq<char>>::empty());
    while i < parts.len()
        invariant
            i <= parts.len(),
            all == views_of(parts@),
            r@ == joined(all.take(i as int), sep@),
        decreases parts.len() - i,
    {
        if i > 0 {
            extend_chars(&mut r, sep);
        }
        extend_chars(&mut r, &parts[i]);
        i += 1;
        proof {
            let now = all.take(i as int);
            assert(now.drop_last() == all.take(i - 1));
            assert(now.last() == parts@[i - 1]@);
            if i == 1 {
                assert(r@ == now[0]);
            }
        }
    }
    assert(all.take(parts.len() as int) == all);
    r
}

/// Where `pat` first occurs in `s`, if it does.
pub open spec fn find_sub(s: Seq<char>, pat: Seq<char>) -> Option<int>
    decreases s.len(),
{
    if s.len() < pat.len() {
        None
    } else if s.take(pat.len() as int) == pat {
        Some(0)
    } else if s.len() == 0 {
        None
    } else {
        match find_sub(s.skip(1), pat) {
            Some(k) => Some(k + 1),
            None => None,
        }
    }
}

/// Whether `pat` stands in `v` at index `at`.
pub(crate) fn matches_at(v: &Vec<char>, at: usize, pat: &Vec<char>) -> (r: bool)
    requires
        at <= v.len(),
    ensures
        r == (at + pat.len() <= v.len() && v@.subrange(at as int, at + pat.len()) == pat@),
{
    if pat.len() > v.len() - at {
        return false;
    }
    let mut i: usize = 0;
    while i < pat.len()
        invariant
            i <= pat.len(),
            at + pat.len() <= v.len(),
            forall|k: int| 0 <= k < i ==> v@[at + k] == #[trigger] pat@[k],
        decreases pat.len() - i,
    {
        if v[at + i] != pat[i] {
            assert(v@.subrange(at as int, at + pat.len())[i as int] != pat@[i as int]);
            return false;
        }
        i += 1;
    }
    assert(v@.subrange(at as int, at + pat.len()) =~= pat@);
    true
}

/// Where `pat` first occurs in `v[from..to]`, counted from `from`.
pub(crate) fn find_in_range(v: &Vec<char>, from: usize, to: usize, pat: &Vec<char>) -> (r: Option<usize>)
    requires
        from <= to <= v.len(),
    ensures
        match r {
            Some(k) => find_sub(v@.subrange(from as int, to as int), pat@) == Some(k as int)
                && from + k + pat.len() <= to,
            None => find_sub(v@.subrange(from as int, to as int), pat@) is None,
        },
{
    let ghost s = v@.subrange(from as int, to as int);
    let mut i: usize = from;
    assert(s.skip(0) == s);
    while to - i >= pat.len()
        invariant
            from <= i <= to <= v.len(),
            s == v@.subrange(from as int, to as int),
            match find_sub(s.skip(i - from), pat@) {
                Some(k) => find_sub(s, pat@) == Some(k + (i - from)),
                None => find_sub(s, pat@) is None,
            },
        decreases to - i,
    {
        let ghost rest = s.skip(i - from);
        let mut same = true;
        let mut j: usize = 0;
        while j < pat.len() && same
            invariant
                j <= pat.len(),
                from <= i <= to <= v.len(),
                to - i >= pat.len(),
                same ==> forall|k: int| 0 <= k < j ==> v@[i + k] == #[trigger] pat@[k],
                !same ==> exists|k: int| 0 <= k < pat.len() && v@[i + k] != pat@[k],
            decreases pat.len() - j + if same { 1int } else { 0int },
        {
            if v[i + j] != pat[j] {
                same = false;
            } else {
                j += 1;
            }
        }
        if same {
            assert(rest.take(pat.len() as int) =~= pat@) by {
                assert forall|k: int| 0 <= k < pat.len() implies rest.take(pat.len() as int)[k]
                    == pat@[k] by {
                    assert(rest[k] == v@[i + k]);
                }
            }
            return Some(i - from);
        }
        proof {
            let k = choose|k: int| 0 <= k < pat.len() && v@[i + k] != pat@[k];
            assert(rest.take(pat.len() as int)[k] == v@[i + k]);
            assert(rest.skip(1) == s.skip(i + 1 - from));
        }
        i += 1;
    }
    None
}

/// Where `pattern` first occurs in `text`, counted in characters.
pub fn find(text: &str, pattern: &str) -> (r: Option<usize>)
    ensures
        match r {
            Some(at) => find_sub(text@, pattern@) == Some(at as int),
            None => find_sub(text@, pattern@) is None,
        },
{
    let content = chars_of(text);
    let wanted = chars_of(pattern);
    assert(content@.subrange(0, content.len() as int) == content@);
    find_in_range(&content, 0, content.len(), &wanted)
}

/// `s` with every occurrence of `pat` replaced by `to`, reading from the
/// left; an occurrence that overlaps an earlier one is not counted. An empty
/// pattern occurs nowhere.
pub open spec fn replaced(s: Seq<char>, pat: Seq<char>, to: Seq<char>) -> Seq<char>
    decreases s.len(),
{
    if pat.len() == 0 || s.len() < pat.len() {
        s
    } else if s.take(pat.len() as int) == pat {
        to + replaced(s.skip(pat.len() as int), pat, to)
    } else {
        seq![s[0]] + replaced(s.skip(1), pat, to)
    }
}

/// `v` with every occurrence of `pat` replaced by `to`.
pub fn replace_chars(v: &Vec<char>, pat: &Vec<char>, to: &Vec<char>) -> (r: Vec<char>)
    ensures
        r@ == replaced(v@, pat@, to@),
{
    let mut r: Vec<char> = Vec::new();
    let mut pos: usize = 0;
    assert(v@.skip(0) == v@);
    assert(r@ + replaced(v@, pat@, to@) == replaced(v@, pat@, to@));
    if pat.len() == 0 {
        extend_chars(&mut r, v);
        return r;
    }
    while pos < v.len()
        invariant
            pos <= v.len(),
            pat.len() > 0,
            replaced(v@, pat@, to@) == r@ + replaced(v@.skip(pos as int), pat@, to@),
        decreases v.len() - pos,
    {
        let ghost rest = v@.skip(pos as int);
        let ghost before = r@;
        if matches_at(v, pos, pat) {
            assert(rest.take(pat.len() as int) == v@.subrange(pos as int, pos + pat.len()));
            extend_chars(&mut r, to);
            assert(rest.skip(pat.len() as int) == v@.skip(pos + pat.len()));
            pos += pat.len();
            assert(before + (to@ + replaced(v@.skip(pos as int), pat@, to@)) == (before + to@)
                + replaced(v@.skip(pos as int), pat@, to@));
        } else {
            assert(rest.take(pat.len() as int) == v@.subrange(pos as int, pos + pat.len())
                || rest.len() < pat.len());
            r.push(v[pos]);
            assert(rest.skip(1) == v@.skip(pos + 1));
            proof {
                if rest.len() < pat@.len() {
                    assert(replaced(rest, pat@, to@) == rest);
                    assert(rest == seq![rest[0]] + rest.skip(1));
                    assert(replaced(rest.skip(1), pat@, to@) == rest.skip(1));
                }
            }
            pos += 1;
            assert(before + (seq![rest[0]] + replaced(v@.skip(pos as int), pat@, to@)) == (
            before + seq![rest[0]]) + replaced(v@.skip(pos as int), pat@, to@));
        }
    }
    assert(v@.skip(pos as int) == Seq::<char>::empty());
    assert(r@ + Seq::<char>::empty() == r@);
    r
}

/// The order of names: by the first character in which two names differ,
/// characters taken by their code points; a name comes before every longer
/// name that begins with it.
pub open spec fn lex_le(a: Seq<char>, b: Seq<char>) -> bool
    decreases a.len(),
{
    if a.len() == 0 {
        true
    } else if b.len() == 0 {
        false
    } else if a[0] == b[0] {
        lex_le(a.skip(1), b.skip(1))
    } else {
        (a[0] as int) < (b[0] as int)
    }
}

/// The code point of `c`.
pub fn code_point(c: char) -> (r: u32)
    ensures
        r == c as int,
{
    c as u32
}

/// Whether `a` comes before `b` in the order of names, or equals it.
pub fn chars_le(a: &Vec<char>, b: &Vec<char>) -> (r: bool)
    ensures
        r == lex_le(a@, b@),
{
    let mut i: usize = 0;
    assert(a@.skip(0) == a@ && b@.skip(0) == b@);
    while i < a.len() && i < b.len() && a[i] == b[i]
        invariant
            i <= a.len(),
            i <= b.len(),
            lex_le(a@, b@) == lex_le(a@.skip(i as int), b@.skip(i as int)),
        decreases a.len() - i,
    {
        assert(a@.skip(i as int).skip(1) == a@.skip(i + 1));
        assert(b@.skip(i as int).skip(1) == b@.skip(i + 1));
        i += 1;
    }
    if i == a.len() {
        true
    } else if i == b.len() {
        false
    } else {
        code_point(a[i]) < code_point(b[i])
    }
}

/// Whether `a` comes before `b` in the order of names, or equals it.
pub fn str_le(a: &str, b: &str) -> (r: bool)
    ensures
        r == lex_le(a@, b@),
{
    let x = chars_of(a);
    let y = chars_of(b);
    chars_le(&x, &y)
}

/// Every name is ordered before or equal to itself.
pub proof fn lemma_lex_le_reflexive(a: Seq<char>)
    ensures
        lex_le(a, a),
    decreases a.len(),
{
    if a.len() > 0 {
        lemma_lex_le_reflexive(a.skip(1));
    }
}

/// Of two names, one is ordered before or equal to the other.
pub proof fn lemma_lex_le_total(a: Seq<char>, b: Seq<char>)
    ensures
        lex_le(a, b) || lex_le(b, a),
    decreases a.len(),
{
    if a.len() > 0 && b.len() > 0 {
        if a[0] == b[0] {
            lemma_lex_le_total(a.skip(1), b.skip(1));
        }
    }
}

/// Two names ordered each before or equal to the other are the same name.
pub proof fn lemma_lex_le_antisymmetric(a: Seq<char>, b: Seq<char>)
    requires
        lex_le(a, b),
        lex_le(b, a),
    ensures
        a == b,
    decreases a.len(),
{
    if a.len() > 0 && b.len() > 0 {
        if a[0] == b[0] {
            lemma_lex_le_antisymmetric(a.skip(1), b.skip(1));
            assert(a =~= seq![a[0]] + a.skip(1));
            assert(b =~= seq![b[0]] + b.skip(1));
        }
    } else {
        assert(a =~= b);
    }
}

/// The order of names is transitive.
pub proof fn lemma_lex_le_transitive(a: Seq<char>, b: Seq<char>, c: Seq<char>)
    requires
        lex_le(a, b),
        lex_le(b, c),
    ensures
        lex_le(a, c),
    decreases a.len(),
{
    if a.len() > 0 && b.len() > 0 && c.len() > 0 {
        if a[0] == b[0] && b[0] == c[0] {
            lemma_lex_le_transitive(a.skip(1), b.skip(1), c.skip(1));
        }
    }
}

/// Whether `a` and `b` hold the same characters.
pub fn str_eq(a: &str, b: &str) -> (r: bool)
    ensures
        r == (a@ == b@),
{
    let x = a.to_owned();
    let y = b.to_owned();
    x == y
}

/// Whether `pat` stands in `s` at index `at`.
pub open spec fn occurs_at(s: Seq<char>, pat: Seq<char>, at: int) -> bool {
    0 <= at && at + pat.len() <= s.len() && s.subrange(at, at + pat.len()) == pat
}

proof fn lemma_occurs_behind_first(s: Seq<char>, pat: Seq<char>, at: int)
    requires
        at >= 1,
        s.len() > 0,
    ensures
        occurs_at(s, pat, at) == occurs_at(s.skip(1), pat, at - 1),
{
    if at + pat.len() <= s.len() {
        assert(s.subrange(at, at + pat.len()) =~= s.skip(1).subrange(at - 1, at - 1 + pat.len()));
    }
}

/// What `find_sub` returns is the least index at which the pattern stands;
/// it returns nothing only where the pattern stands nowhere.
pub proof fn lemma_find_sub_is_first(s: Seq<char>, pat: Seq<char>)
    ensures
        match find_sub(s, pat) {
            Some(k) => occurs_at(s, pat, k) && forall|j: int| 0 <= j < k ==> !occurs_at(s, pat, j),
            None => forall|j: int| !occurs_at(s, pat, j),
        },
    decreases s.len(),
{
    if s.len() < pat.len() {
    } else if s.take(pat.len() as int) == pat {
        assert(s.subrange(0int, 0int + pat.len()) =~= s.take(pat.len() as int));
    } else if s.len() == 0 {
        assert(s.take(pat.len() as int) =~= pat);
    } else {
        let t = s.skip(1);
        lemma_find_sub_is_first(t, pat);
        assert(s.subrange(0int, 0int + pat.len()) =~= s.take(pat.len() as int));
        match find_sub(t, pat) {
            Some(k) => {
                lemma_occurs_behind_first(s, pat, k + 1);
                assert forall|j: int| 0 <= j < k + 1 implies !occurs_at(s, pat, j) by {
                    if j > 0 {
                        lemma_occurs_behind_first(s, pat, j);
                        assert(!occurs_at(t, pat, j - 1));
                    }
                }
            },
            None => {
                assert forall|j: int| !occurs_at(s, pat, j) by {
                    if j > 0 {
                        lemma_occurs_behind_first(s, pat, j);
                        assert(!occurs_at(t, pat, j - 1));
                    }
                }
            },
        }
    }
}

/// Replacing leaves a text in which the pattern does not occur as it is.
pub proof fn lemma_replaced_without_occurrence(s: Seq<char>, pat: Seq<char>, to: Seq<char>)
    requires
        find_sub(s, pat) is None,
    ensures
        replaced(s, pat, to) == s,
    decreases s.len(),
{
    if pat.len() == 0 || s.len() < pat.len() {
    } else {
        assert(s.take(pat.len() as int) != pat);
        lemma_replaced_without_occurrence(s.skip(1), pat, to);
        assert(seq![s[0]] + s.skip(1) =~= s);
    }
}

/// Replacing puts the new text in the place of the first occurrence of the
/// pattern, keeps what stands before it, and goes on in the same way behind
/// it: so every occurrence that does not overlap an earlier one is replaced.
pub proof fn lemma_replaced_first_occurrence(
    s: Seq<char>,
    pat: Seq<char>,
    to: Seq<char>,
    at: int,
)
    requires
        pat.len() > 0,
        find_sub(s, pat) == Some(at),
    ensures
        0 <= at && at + pat.len() <= s.len(),
        replaced(s, pat, to) == s.take(at) + to + replaced(s.skip(at + pat.len()), pat, to),
    decreases s.len(),
{
    if s.take(pat.len() as int) == pat {
        assert(s.take(0) + to + replaced(s.skip(pat.len() as int), pat, to) =~= to + replaced(
            s.skip(pat.len() as int),
            pat,
            to,
        ));
    } else {
        let t = s.skip(1);
        lemma_replaced_first_occurrence(t, pat, to, at - 1);
        assert(t.skip(at - 1 + pat.len()) =~= s.skip(at + pat.len()));
        assert(seq![s[0]] + t.take(at - 1) =~= s.take(at));
        assert(seq![s[0]] + (t.take(at - 1) + to + replaced(s.skip(at + pat.len()), pat, to))
            =~= s.take(at) + to + replaced(s.skip(at + pat.len()), pat, to));
    }
}

/// How many times `c` stands at the start of `s` without a break.
pub open spec fn leading_run(s: Seq<char>, c: char) -> nat
    decreases s.len(),
{
    if s.len() > 0 && s[0] == c {
        1 + leading_run(s.skip(1), c)
    } else {
        0
    }
}

/// `s` begins with `n` times `c` where its first `n` characters are `c` and
/// the next one, if there is one, is not.
pub proof fn lemma_leading_run(s: Seq<char>, c: char, n: int)
    requires
        0 <= n <= s.len(),
        forall|i: int| 0 <= i < n ==> #[trigger] s[i] == c,
        n == s.len() || s[n] != c,
    ensures
        leading_run(s, c) == n,
    decreases n,
{
    if n > 0 {
        assert(s[0] == c);
        let t = s.skip(1);
        assert forall|i: int| 0 <= i < n - 1 implies #[trigger] t[i] == c by {
            assert(t[i] == s[i + 1]);
        }
        lemma_leading_run(t, c, n - 1);
    }
}

/// How many times `c` stands at the start of `v[from..to]` without a break.
pub(crate) fn count_leading(v: &Vec<char>, from: usize, to: usize, c: char) -> (n: usize)
    requires
        from <= to <= v.len(),
    ensures
        n == leading_run(v@.subrange(from as int, to as int), c),
        from + n <= to,
{
    let mut i: usize = from;
    while i < to && v[i] == c
        invariant
            from <= i <= to <= v.len(),
            forall|k: int| from <= k < i ==> #[trigger] v@[k] == c,
        decreases to - i,
    {
        i += 1;
    }
    proof {
        lemma_leading_run(v@.subrange(from as int, to as int), c, i - from);
    }
    i - from
}

/// Whether `s` ends with `suffix`.
pub open spec fn ends_with(s: Seq<char>, suffix: Seq<char>) -> bool {
    s.len() >= suffix.len() && s.skip(s.len() - suffix.len()) == suffix
}

/// Whether `v` ends with `suffix`.
pub fn chars_end_with(v: &Vec<char>, suffix: &Vec<char>) -> (r: bool)
    ensures
        r == ends_with(v@, suffix@),
{
    if v.len() < suffix.len() {
        return false;
    }
    let at = v.len() - suffix.len();
    assert(v@.skip(at as int) == v@.subrange(at as int, at + suffix.len()));
    matches_at(v, at, suffix)
}

/// The first `i + 1` items are the first `i` items and the item at `i`.
pub proof fn lemma_prefix_step<T>(items: Seq<T>, i: int)
    requires
        0 <= i < items.len(),
    ensures
        items.take(i + 1).drop_last() == items.take(i),
        items.take(i + 1).last() == items[i],
        items.take(i + 1).len() == i + 1,
{
    assert(items.take(i + 1).drop_last() =~= items.take(i));
}

} // verus!
