//! Character-level text tools shared by the parsers and formatters of the crate.
//!
//! Text is handled as sequences of `char`; a `String` is viewed as its `Seq<char>`.
use vstd::prelude::*;

verus! {

// ---------------------------------------------------------------------------
// Whitespace, as `char::is_whitespace` defines it (the Unicode White_Space set)
// ---------------------------------------------------------------------------

/// The Unicode `White_Space` property, which `char::is_whitespace` tests.
pub open spec fn is_whitespace(c: char) -> bool {
    let n = c as u32;
    ||| 0x09 <= n <= 0x0d
    ||| n == 0x20
    ||| n == 0x85
    ||| n == 0xa0
    ||| n == 0x1680
    ||| 0x2000 <= n <= 0x200a
    ||| n == 0x2028
    ||| n == 0x2029
    ||| n == 0x202f
    ||| n == 0x205f
    ||| n == 0x3000
}

pub fn is_whitespace_char(c: char) -> (b: bool)
    ensures
        b == is_whitespace(c),
{
    let n = c as u32;
    (0x09 <= n && n <= 0x0d) || n == 0x20 || n == 0x85 || n == 0xa0 || n == 0x1680 || (0x2000
        <= n && n <= 0x200a) || n == 0x2028 || n == 0x2029 || n == 0x202f || n == 0x205f || n
        == 0x3000
}

/// `s` without its leading whitespace (`str::trim_start`).
pub open spec fn trim_start(s: Seq<char>) -> Seq<char>
    decreases s.len(),
{
    if s.len() > 0 && is_whitespace(s[0]) {
        trim_start(s.drop_first())
    } else {
        s
    }
}

/// `s` without its trailing whitespace (`str::trim_end`).
pub open spec fn trim_end(s: Seq<char>) -> Seq<char>
    decreases s.len(),
{
    if s.len() > 0 && is_whitespace(s.last()) {
        trim_end(s.drop_last())
    } else {
        s
    }
}

/// `s` without leading and trailing whitespace (`str::trim`).
pub open spec fn trim(s: Seq<char>) -> Seq<char> {
    trim_end(trim_start(s))
}

pub proof fn lemma_trim_start_skip(s: Seq<char>, i: int)
    requires
        0 <= i <= s.len(),
        forall|k: int| 0 <= k < i ==> is_whitespace(#[trigger] s[k]),
    ensures
        trim_start(s) == trim_start(s.subrange(i, s.len() as int)),
    decreases i,
{
    if i > 0 {
        assert(s.drop_first().subrange(i - 1, s.drop_first().len() as int) =~= s.subrange(
            i,
            s.len() as int,
        ));
        assert forall|k: int| 0 <= k < i - 1 implies is_whitespace(#[trigger] s.drop_first()[k]) by {
            assert(s.drop_first()[k] == s[k + 1]);
        }
        lemma_trim_start_skip(s.drop_first(), i - 1);
    } else {
        assert(s.subrange(0, s.len() as int) =~= s);
    }
}

proof fn lemma_trim_end_skip(s: Seq<char>, j: int)
    requires
        0 <= j <= s.len(),
        forall|k: int| j <= k < s.len() ==> is_whitespace(#[trigger] s[k]),
    ensures
        trim_end(s) == trim_end(s.subrange(0, j)),
    decreases s.len() - j,
{
    if j < s.len() {
        assert(s.drop_last().subrange(0, j) =~= s.subrange(0, j));
        lemma_trim_end_skip(s.drop_last(), j);
    } else {
        assert(s.subrange(0, j) =~= s);
    }
}

proof fn lemma_trim_start_stops(s: Seq<char>)
    requires
        s.len() == 0 || !is_whitespace(s[0]),
    ensures
        trim_start(s) == s,
{
}

proof fn lemma_trim_end_stops(s: Seq<char>)
    requires
        s.len() == 0 || !is_whitespace(s.last()),
    ensures
        trim_end(s) == s,
{
}

/// The characters of `s`, in order.
pub fn chars_of(s: &str) -> (out: Vec<char>)
    ensures
        out@ == s@,
{
    let mut out: Vec<char> = Vec::new();
    for c in it: s.chars()
        invariant
            out@ == it.seq().take(it.index() as int),
            it.seq() == s@,
    {
        out.push(c);
    }
    out
}

/// Appends one character to a string by calling `String::push`, which vstd gives no
/// contract; the contract claims what its documentation says: the character is added
/// at the end and nothing else changes.
#[verifier::external_body]
pub(crate) fn push_char(s: &mut String, c: char)
    ensures
        final(s)@ == old(s)@.push(c),
{
    s.push(c);
}

/// Appends the characters `v[from..to]` to `s`.
pub fn push_chars(s: &mut String, v: &Vec<char>, from: usize, to: usize)
    requires
        from <= to <= v@.len(),
    ensures
        final(s)@ == old(s)@ + v@.subrange(from as int, to as int),
{
    let mut i: usize = from;
    while i < to
        invariant
            from <= i <= to <= v@.len(),
            s@ == old(s)@ + v@.subrange(from as int, i as int),
        decreases to - i,
    {
        push_char(s, v[i]);
        i = i + 1;
        assert(v@.subrange(from as int, i as int) =~= v@.subrange(from as int, i - 1).push(
            v@[i - 1],
        ));
    }
}

/// Appends all of `t` to `s`.
pub fn push_str(s: &mut String, t: &str)
    ensures
        final(s)@ == old(s)@ + t@,
{
    let v = chars_of(t);
    push_chars(s, &v, 0, v.len());
    assert(v@.subrange(0, v@.len() as int) =~= v@);
}

/// A string holding the characters `v[from..to]`.
pub fn string_of(v: &Vec<char>, from: usize, to: usize) -> (s: String)
    requires
        from <= to <= v@.len(),
    ensures
        s@ == v@.subrange(from as int, to as int),
{
    let mut s = String::new();
    push_chars(&mut s, v, from, to);
    s
}

/// A copy of `v[from..to]`.
pub fn slice_of(v: &Vec<char>, from: usize, to: usize) -> (out: Vec<char>)
    requires
        from <= to <= v@.len(),
    ensures
        out@ == v@.subrange(from as int, to as int),
{
    let mut out: Vec<char> = Vec::new();
    let mut i: usize = from;
    while i < to
        invariant
            from <= i <= to <= v@.len(),
            out@ == v@.subrange(from as int, i as int),
        decreases to - i,
    {
        out.push(v[i]);
        i = i + 1;
        assert(out@ =~= v@.subrange(from as int, i as int));
    }
    out
}

pub proof fn lemma_trim_start_first(s: Seq<char>)
    ensures
        trim_start(s).len() == 0 || !is_whitespace(trim_start(s)[0]),
    decreases s.len(),
{
    if s.len() > 0 && is_whitespace(s[0]) {
        lemma_trim_start_first(s.drop_first());
    }
}

pub proof fn lemma_trim_end_prefix(s: Seq<char>)
    ensures
        trim_end(s).len() <= s.len(),
        trim_end(s) =~= s.subrange(0, trim_end(s).len() as int),
        trim_end(s).len() == 0 || !is_whitespace(trim_end(s).last()),
    decreases s.len(),
{
    if s.len() > 0 && is_whitespace(s.last()) {
        lemma_trim_end_prefix(s.drop_last());
        assert(s.drop_last().subrange(0, trim_end(s).len() as int) =~= s.subrange(
            0,
            trim_end(s).len() as int,
        ));
    } else {
        assert(s.subrange(0, s.len() as int) =~= s);
    }
}

/// Trimming twice is trimming once.
pub proof fn lemma_trim_idempotent(s: Seq<char>)
    ensures
        trim(trim(s)) == trim(s),
{
    let u = trim_start(s);
    let t = trim_end(u);
    lemma_trim_start_first(s);
    lemma_trim_end_prefix(u);
    if t.len() > 0 {
        assert(t[0] == u[0]);
        lemma_trim_start_stops(t);
    }
    lemma_trim_end_stops(t);
}

/// The bounds `(a, b)` of `trim(v[from..to])` inside `v`.
pub fn trim_bounds(v: &Vec<char>, from: usize, to: usize) -> (r: (usize, usize))
    requires
        from <= to <= v@.len(),
    ensures
        from <= r.0 <= r.1 <= to,
        v@.subrange(r.0 as int, r.1 as int) == trim(v@.subrange(from as int, to as int)),
{
    let ghost s = v@.subrange(from as int, to as int);
    let mut a: usize = from;
    while a < to && is_whitespace_char(v[a])
        invariant
            from <= a <= to <= v@.len(),
            forall|k: int| from <= k < a ==> is_whitespace(#[trigger] v@[k]),
        decreases to - a,
    {
        a = a + 1;
    }
    proof {
        assert forall|k: int| 0 <= k < a - from implies is_whitespace(#[trigger] s[k]) by {
            assert(s[k] == v@[k + from]);
        }
        lemma_trim_start_skip(s, a - from);
        assert(s.subrange(a - from, s.len() as int) =~= v@.subrange(a as int, to as int));
        lemma_trim_start_stops(v@.subrange(a as int, to as int));
    }
    let mut b: usize = to;
    while b > a && is_whitespace_char(v[b - 1])
        invariant
            from <= a <= b <= to <= v@.len(),
            forall|k: int| b <= k < to ==> is_whitespace(#[trigger] v@[k]),
        decreases b - a,
    {
        b = b - 1;
    }
    proof {
        let t = v@.subrange(a as int, to as int);
        assert forall|k: int| b - a <= k < t.len() implies is_whitespace(#[trigger] t[k]) by {
            assert(t[k] == v@[k + a]);
        }
        lemma_trim_end_skip(t, b - a);
        assert(t.subrange(0, b - a) =~= v@.subrange(a as int, b as int));
        lemma_trim_end_stops(v@.subrange(a as int, b as int));
    }
    (a, b)
}

/// `trim(v)` as a new vector.
pub fn trimmed(v: &Vec<char>) -> (out: Vec<char>)
    ensures
        out@ == trim(v@),
{
    let (a, b) = trim_bounds(v, 0, v.len());
    assert(v@.subrange(0, v@.len() as int) =~= v@);
    slice_of(v, a, b)
}

/// Whether two character sequences are equal.
pub fn chars_eq(a: &Vec<char>, b: &Vec<char>) -> (eq: bool)
    ensures
        eq == (a@ == b@),
{
    if a.len() != b.len() {
        return false;
    }
    let mut i: usize = 0;
    while i < a.len()
        invariant
            a@.len() == b@.len(),
            0 <= i <= a@.len(),
            forall|k: int| 0 <= k < i ==> a@[k] == b@[k],
        decreases a.len() - i,
    {
        if a[i] != b[i] {
            return false;
        }
        i = i + 1;
    }
    assert(a@ =~= b@);
    true
}

/// Whether `v` equals the literal `lit`.
pub fn chars_eq_str(v: &Vec<char>, lit: &str) -> (eq: bool)
    ensures
        eq == (v@ == lit@),
{
    let l = chars_of(lit);
    chars_eq(v, &l)
}

/// The index of the first `c` in `s`, or `s.len()`.
pub open spec fn spec_index_of(s: Seq<char>, c: char) -> int
    decreases s.len(),
{
    if s.len() == 0 {
        0
    } else if s[0] == c {
        0
    } else {
        1 + spec_index_of(s.drop_first(), c)
    }
}

pub fn index_of_char(v: &Vec<char>, c: char) -> (i: usize)
    ensures
        i as int == spec_index_of(v@, c),
        i <= v@.len(),
{
    let mut i: usize = 0;
    assert(v@.skip(0) =~= v@);
    while i < v.len() && v[i] != c
        invariant
            0 <= i <= v@.len(),
            spec_index_of(v@, c) == i + spec_index_of(v@.skip(i as int), c),
        decreases v.len() - i,
    {
        assert(v@.skip(i as int).drop_first() =~= v@.skip(i + 1));
        i = i + 1;
    }
    proof {
        if i < v@.len() {
            assert(v@.skip(i as int)[0] == v@[i as int]);
        } else {
            assert(v@.skip(i as int).len() == 0);
        }
    }
    i
}

// ---------------------------------------------------------------------------
// Splitting
// ---------------------------------------------------------------------------

/// The pieces of `s` between occurrences of `sep` (`str::split` with one character);
/// `n` separators give `n + 1` pieces.
pub open spec fn split_on(s: Seq<char>, sep: char) -> Seq<Seq<char>>
    decreases s.len(),
{
    if s.len() == 0 {
        seq![Seq::<char>::empty()]
    } else {
        let prev = split_on(s.drop_last(), sep);
        if s.last() == sep {
            prev.push(Seq::<char>::empty())
        } else {
            prev.update(prev.len() - 1, prev.last().push(s.last()))
        }
    }
}

pub proof fn lemma_split_on_len(s: Seq<char>, sep: char)
    ensures
        split_on(s, sep).len() >= 1,
    decreases s.len(),
{
    if s.len() > 0 {
        lemma_split_on_len(s.drop_last(), sep);
    }
}

/// The pieces of `s[0..to]` between occurrences of `sep`, as `(start, end)` bounds in `s`.
pub fn split_bounds(s: &Vec<char>, sep: char) -> (out: Vec<(usize, usize)>)
    ensures
        out@.len() == split_on(s@, sep).len(),
        forall|k: int|
            0 <= k < out@.len() ==> {
                &&& (#[trigger] out@[k]).0 <= out@[k].1 <= s@.len()
                &&& s@.subrange(out@[k].0 as int, out@[k].1 as int) == split_on(s@, sep)[k]
            },
{
    let mut out: Vec<(usize, usize)> = Vec::new();
    let mut start: usize = 0;
    let mut i: usize = 0;
    while i < s.len()
        invariant
            0 <= start <= i <= s@.len(),
            out@.len() + 1 == split_on(s@.subrange(0, i as int), sep).len(),
            forall|k: int|
                0 <= k < out@.len() ==> {
                    &&& (#[trigger] out@[k]).0 <= out@[k].1 <= s@.len()
                    &&& s@.subrange(out@[k].0 as int, out@[k].1 as int) == split_on(
                        s@.subrange(0, i as int),
                        sep,
                    )[k]
                },
            s@.subrange(start as int, i as int) == split_on(s@.subrange(0, i as int), sep).last(),
        decreases s.len() - i,
    {
        let ghost pre = s@.subrange(0, i as int);
        let ghost next = s@.subrange(0, i + 1);
        proof {
            assert(next.drop_last() =~= pre);
            assert(next.last() == s@[i as int]);
            lemma_split_on_len(pre, sep);
        }
        if s[i] == sep {
            out.push((start, i));
            start = i + 1;
            i = i + 1;
            proof {
                assert(split_on(next, sep) == split_on(pre, sep).push(Seq::<char>::empty()));
                assert(s@.subrange(start as int, i as int) =~= Seq::<char>::empty());
            }
        } else {
            i = i + 1;
            proof {
                let p = split_on(pre, sep);
                assert(split_on(next, sep) == p.update(p.len() - 1, p.last().push(s@[i - 1])));
                assert(s@.subrange(start as int, i as int) =~= s@.subrange(
                    start as int,
                    i - 1,
                ).push(s@[i - 1]));
            }
        }
    }
    proof {
        assert(s@.subrange(0, s@.len() as int) =~= s@);
        lemma_split_on_len(s@, sep);
    }
    out.push((start, s.len()));
    out
}

/// `l` without one trailing carriage return.
pub open spec fn strip_cr(l: Seq<char>) -> Seq<char> {
    if l.len() > 0 && l.last() == '\r' {
        l.drop_last()
    } else {
        l
    }
}

/// The lines of `s` as `str::lines` yields them: pieces ended by `\n` lose the `\n` and
/// one `\r` before it; a last piece without `\n` is kept as it is unless empty.
pub open spec fn lines(s: Seq<char>) -> Seq<Seq<char>> {
    let p = split_on(s, '\n');
    let body = p.drop_last().map_values(|l: Seq<char>| strip_cr(l));
    if p.last().len() == 0 {
        body
    } else {
        body.push(p.last())
    }
}

/// The bounds of each line of `v` (see `lines`).
pub fn line_bounds(v: &Vec<char>) -> (out: Vec<(usize, usize)>)
    ensures
        out@.len() == lines(v@).len(),
        forall|k: int|
            0 <= k < out@.len() ==> {
                &&& (#[trigger] out@[k]).0 <= out@[k].1 <= v@.len()
                &&& v@.subrange(out@[k].0 as int, out@[k].1 as int) == lines(v@)[k]
            },
{
    let pieces = split_bounds(v, '\n');
    let ghost p = split_on(v@, '\n');
    proof {
        lemma_split_on_len(v@, '\n');
    }
    let mut out: Vec<(usize, usize)> = Vec::new();
    let n = pieces.len();
    let mut k: usize = 0;
    while k + 1 < n
        invariant
            n == pieces@.len() == p.len() >= 1,
            0 <= k <= n - 1,
            out@.len() == k,
            forall|j: int|
                0 <= j < pieces@.len() ==> {
                    &&& (#[trigger] pieces@[j]).0 <= pieces@[j].1 <= v@.len()
                    &&& v@.subrange(pieces@[j].0 as int, pieces@[j].1 as int) == p[j]
                },
            forall|j: int|
                0 <= j < k ==> {
                    &&& (#[trigger] out@[j]).0 <= out@[j].1 <= v@.len()
                    &&& v@.subrange(out@[j].0 as int, out@[j].1 as int) == strip_cr(p[j])
                },
        decreases n - k,
    {
        let (a, b) = pieces[k];
        assert(v@.subrange(a as int, b as int) == p[k as int]);
        if b > a && v[b - 1] == '\r' {
            assert(v@.subrange(a as int, b - 1) =~= p[k as int].drop_last());
            out.push((a, b - 1));
        } else {
            out.push((a, b));
        }
        k = k + 1;
    }
    let (a, b) = pieces[n - 1];
    assert(v@.subrange(a as int, b as int) == p.last());
    let ghost body = p.drop_last().map_values(|l: Seq<char>| strip_cr(l));
    assert(out@.len() == body.len());
    if b > a {
        out.push((a, b));
        assert(lines(v@) == body.push(p.last()));
    } else {
        assert(lines(v@) == body);
    }
    out
}

/// The whitespace-separated words of `s` (`str::split_whitespace`).
pub open spec fn words(s: Seq<char>) -> Seq<Seq<char>>
    decreases s.len(),
{
    if s.len() == 0 {
        Seq::empty()
    } else {
        let w = words(s.drop_last());
        let c = s.last();
        if is_whitespace(c) {
            w
        } else if s.len() >= 2 && !is_whitespace(s[s.len() - 2]) {
            w.update(w.len() - 1, w.last().push(c))
        } else {
            w.push(seq![c])
        }
    }
}

/// The words of `v`, each as a new vector.
pub fn split_words(v: &Vec<char>) -> (out: Vec<Vec<char>>)
    ensures
        out@.len() == words(v@).len(),
        forall|k: int| 0 <= k < out@.len() ==> (#[trigger] out@[k])@ == words(v@)[k],
{
    let mut out: Vec<Vec<char>> = Vec::new();
    let mut current: Vec<char> = Vec::new();
    let mut in_word = false;
    let mut i: usize = 0;
    while i < v.len()
        invariant
            0 <= i <= v@.len(),
            in_word == (i > 0 && !is_whitespace(v@[i - 1])),
            in_word ==> current@.len() > 0,
            ({
                let w = words(v@.take(i as int));
                let done = out@.map_values(|x: Vec<char>| x@);
                if in_word {
                    w == done.push(current@)
                } else {
                    w == done
                }
            }),
        decreases v.len() - i,
    {
        let c = v[i];
        let ghost pre = v@.take(i as int);
        let ghost next = v@.take(i + 1);
        let ghost done = out@.map_values(|x: Vec<char>| x@);
        assert(next.drop_last() =~= pre);
        assert(next.last() == c);
        if is_whitespace_char(c) {
            if in_word {
                out.push(current);
                current = Vec::new();
                assert(out@.map_values(|x: Vec<char>| x@) =~= done.push(old_current_view(&out)));
            }
            in_word = false;
        } else {
            if in_word {
                assert(next[next.len() - 2] == v@[i - 1]);
                current.push(c);
            } else {
                current = Vec::new();
                current.push(c);
                assert(current@ =~= seq![c]);
            }
            in_word = true;
        }
        i = i + 1;
    }
    if in_word {
        out.push(current);
    }
    assert(v@.take(v@.len() as int) =~= v@);
    out
}

spec fn old_current_view(out: &Vec<Vec<char>>) -> Seq<char> {
    out@.last()@
}

/// The pieces of `ws` joined with `sep` between neighbours (`[S]::join(sep)`).
pub open spec fn join_words(ws: Seq<Seq<char>>, sep: Seq<char>) -> Seq<char>
    decreases ws.len(),
{
    if ws.len() == 0 {
        Seq::empty()
    } else if ws.len() == 1 {
        ws[0]
    } else {
        join_words(ws.drop_last(), sep) + sep + ws.last()
    }
}

/// `v[from..to]` joined with `sep`.
pub fn join_strings(v: &Vec<String>, from: usize, to: usize, sep: &str) -> (s: String)
    requires
        from <= to <= v@.len(),
    ensures
        s@ == join_words(v@.map_values(|x: String| x@).subrange(from as int, to as int), sep@),
{
    let ghost vv = v@.map_values(|x: String| x@);
    let mut s = String::new();
    let mut i: usize = from;
    assert(vv.subrange(from as int, from as int) =~= Seq::<Seq<char>>::empty());
    while i < to
        invariant
            from <= i <= to <= v@.len(),
            vv == v@.map_values(|x: String| x@),
            s@ == join_words(vv.subrange(from as int, i as int), sep@),
        decreases to - i,
    {
        let ghost pre = vv.subrange(from as int, i as int);
        let ghost next = vv.subrange(from as int, i + 1);
        assert(next.drop_last() =~= pre);
        assert(next.last() == v@[i as int]@);
        if i > from {
            push_str(&mut s, sep);
        }
        push_str(&mut s, v[i].as_str());
        proof {
            if i > from {
                assert(s@ =~= join_words(pre, sep@) + sep@ + next.last());
            } else {
                assert(next.len() == 1);
                assert(s@ =~= next[0]);
            }
        }
        i = i + 1;
    }
    s
}

// ---------------------------------------------------------------------------
// Decimal numbers
// ---------------------------------------------------------------------------

pub open spec fn digit_char(d: nat) -> char
    recommends
        d < 10,
{
    ((d + 48) as u8) as char
}

pub open spec fn is_digit(c: char) -> bool {
    '0' <= c <= '9'
}

pub open spec fn digit_value(c: char) -> nat {
    ((c as u32) - 48) as nat
}

/// The decimal representation of `n` without leading zeros (`"0"` for zero), as
/// `Display` writes an unsigned integer.
pub open spec fn decimal(n: nat) -> Seq<char>
    decreases n,
{
    if n < 10 {
        seq![digit_char(n)]
    } else {
        decimal(n / 10).push(digit_char(n % 10))
    }
}

/// The value of a non-empty run of decimal digits.
pub open spec fn digits_value(s: Seq<char>) -> nat
    decreases s.len(),
{
    if s.len() == 0 {
        0
    } else {
        digits_value(s.drop_last()) * 10 + digit_value(s.last())
    }
}

pub open spec fn all_digits(s: Seq<char>) -> bool {
    forall|k: int| 0 <= k < s.len() ==> is_digit(#[trigger] s[k])
}

/// The digits that `from_str` reads for an unsigned integer: one leading `+` is skipped.
pub open spec fn unsigned_digits(s: Seq<char>) -> Seq<char> {
    if s.len() > 0 && s[0] == '+' {
        s.drop_first()
    } else {
        s
    }
}

/// Why an unsigned integer could not be read (the kinds of `ParseIntError` that an
/// unsigned type can give).
#[derive(Clone, Copy, Debug, PartialEq, Eq, Structural)]
pub enum IntErrorKind {
    Empty,
    InvalidDigit,
    PosOverflow,
}

/// What `s.parse::<uN>()` gives, for a type whose largest value is `max`.
pub open spec fn parse_unsigned(s: Seq<char>, max: nat) -> Result<nat, IntErrorKind> {
    let d = unsigned_digits(s);
    if s.len() == 0 {
        Err(IntErrorKind::Empty)
    } else if d.len() == 0 || !all_digits(d) {
        Err(IntErrorKind::InvalidDigit)
    } else if digits_value(d) > max {
        Err(IntErrorKind::PosOverflow)
    } else {
        Ok(digits_value(d))
    }
}

pub open spec fn int_error_message(k: IntErrorKind) -> Seq<char> {
    match k {
        IntErrorKind::Empty => "cannot parse integer from empty string"@,
        IntErrorKind::InvalidDigit => "invalid digit found in string"@,
        IntErrorKind::PosOverflow => "number too large to fit in target type"@,
    }
}

impl IntErrorKind {
    /// The message that `ParseIntError` displays for this kind.
    pub fn message(&self) -> (m: &'static str)
        ensures
            m@ == int_error_message(*self),
    {
        match self {
            IntErrorKind::Empty => "cannot parse integer from empty string",
            IntErrorKind::InvalidDigit => "invalid digit found in string",
            IntErrorKind::PosOverflow => "number too large to fit in target type",
        }
    }
}

proof fn lemma_digits_value_monotone(s: Seq<char>, i: int)
    requires
        0 <= i <= s.len(),
        all_digits(s),
    ensures
        digits_value(s.subrange(0, i)) <= digits_value(s),
    decreases s.len() - i,
{
    if i < s.len() {
        let t = s.drop_last();
        assert(t.subrange(0, i) =~= s.subrange(0, i));
        assert forall|k: int| 0 <= k < t.len() implies is_digit(#[trigger] t[k]) by {
            assert(t[k] == s[k]);
        }
        lemma_digits_value_monotone(t, i);
    } else {
        assert(s.subrange(0, i) =~= s);
    }
}

/// Reads an unsigned decimal number of at most `max` as `str::parse` for an unsigned
/// integer type does.
pub fn parse_unsigned_chars(v: &Vec<char>, max: u64) -> (r: Result<u64, IntErrorKind>)
    ensures
        match r {
            Ok(n) => parse_unsigned(v@, max as nat) == Ok::<nat, IntErrorKind>(n as nat),
            Err(e) => parse_unsigned(v@, max as nat) == Err::<nat, IntErrorKind>(e),
        },
{
    if v.len() == 0 {
        return Err(IntErrorKind::Empty);
    }
    let start: usize = if v[0] == '+' {
        1
    } else {
        0
    };
    let ghost d = unsigned_digits(v@);
    assert(d =~= v@.subrange(start as int, v@.len() as int));
    if start == v.len() {
        return Err(IntErrorKind::InvalidDigit);
    }
    // First pass: every character must be a digit.
    let mut i: usize = start;
    while i < v.len()
        invariant
            start <= i <= v@.len(),
            d =~= v@.subrange(start as int, v@.len() as int),
            d == unsigned_digits(v@),
            v@.len() > 0,
            forall|k: int| start <= k < i ==> is_digit(#[trigger] v@[k]),
        decreases v.len() - i,
    {
        if !(v[i] >= '0' && v[i] <= '9') {
            assert(d[i - start] == v@[i as int]);
            assert(!is_digit(d[i - start]));
            assert(!all_digits(d));
            return Err(IntErrorKind::InvalidDigit);
        }
        i = i + 1;
    }
    assert(all_digits(d)) by {
        assert forall|k: int| 0 <= k < d.len() implies is_digit(#[trigger] d[k]) by {
            assert(d[k] == v@[k + start]);
        }
    }
    // Second pass: accumulate, stopping once the value passes `max`.
    let mut acc: u64 = 0;
    let mut j: usize = start;
    while j < v.len()
        invariant
            start <= j <= v@.len(),
            d =~= v@.subrange(start as int, v@.len() as int),
            d == unsigned_digits(v@),
            v@.len() > 0,
            d.len() > 0,
            all_digits(d),
            acc as nat == digits_value(v@.subrange(start as int, j as int)),
            acc <= max,
        decreases v.len() - j,
    {
        let ghost pre = v@.subrange(start as int, j as int);
        let ghost next = v@.subrange(start as int, j + 1);
        assert(next.drop_last() =~= pre);
        assert(next.last() == v@[j as int]);
        let digit: u64 = (v[j] as u32 - 48) as u64;
        assert(digit as nat == digit_value(v@[j as int]));
        if digit > max || acc > (max - digit) / 10 {
            proof {
                assert(digits_value(next) == acc * 10 + digit);
                if digit <= max {
                    assert(acc * 10 + digit > max) by (nonlinear_arith)
                        requires
                            acc > (max - digit) / 10,
                            digit <= max,
                    ;
                }
                assert(next =~= d.subrange(0, j + 1 - start));
                lemma_digits_value_monotone(d, j + 1 - start);
            }
            return Err(IntErrorKind::PosOverflow);
        }
        proof {
            assert(acc * 10 + digit <= max) by (nonlinear_arith)
                requires
                    acc <= (max - digit) / 10,
                    digit <= max,
            ;
        }
        acc = acc * 10 + digit;
        j = j + 1;
    }
    assert(v@.subrange(start as int, v@.len() as int) =~= d);
    Ok(acc)
}

/// Writes `n` in decimal.
pub fn decimal_string(n: u64) -> (s: String)
    ensures
        s@ == decimal(n as nat),
{
    let mut digits: Vec<char> = Vec::new();
    let mut m: u64 = n;
    // digits holds the low-order digits of n, least significant first
    while m >= 10
        invariant
            decimal(n as nat) == decimal(m as nat) + digits@.reverse(),
        decreases m,
    {
        let d: u64 = m % 10;
        let c = ((d + 48) as u8) as char;
        proof {
            assert(decimal(m as nat) == decimal((m / 10) as nat).push(digit_char((m % 10) as nat)));
            assert(c == digit_char((m % 10) as nat));
            assert(digits@.push(c).reverse() =~= seq![c] + digits@.reverse());
            assert(decimal((m / 10) as nat).push(c) + digits@.reverse() =~= decimal(
                (m / 10) as nat,
            ) + (seq![c] + digits@.reverse()));
        }
        digits.push(c);
        m = m / 10;
    }
    let c = ((m + 48) as u8) as char;
    assert(decimal(m as nat) == seq![c]);
    let mut s = String::new();
    push_char(&mut s, c);
    let mut i: usize = digits.len();
    while i > 0
        invariant
            0 <= i <= digits@.len(),
            decimal(n as nat) == seq![c] + digits@.reverse(),
            s@ == seq![c] + digits@.subrange(i as int, digits@.len() as int).reverse(),
        decreases i,
    {
        i = i - 1;
        push_char(&mut s, digits[i]);
        assert(digits@.subrange(i as int, digits@.len() as int).reverse() =~= digits@.subrange(
            i + 1,
            digits@.len() as int,
        ).reverse().push(digits@[i as int]));
    }
    assert(digits@.subrange(0, digits@.len() as int) =~= digits@);
    s
}


proof fn lemma_digit_char(d: nat)
    requires
        d < 10,
    ensures
        is_digit(digit_char(d)),
        digit_value(digit_char(d)) == d,
        digit_char(d) != '+',
{
    assert(((d + 48) as u8) as char as u32 == d + 48);
}

proof fn lemma_decimal_digits(n: nat)
    ensures
        decimal(n).len() > 0,
        all_digits(decimal(n)),
        digits_value(decimal(n)) == n,
        decimal(n)[0] != '+',
    decreases n,
{
    if n < 10 {
        lemma_digit_char(n);
        assert(decimal(n).drop_last() =~= Seq::<char>::empty());
        assert(digits_value(Seq::<char>::empty()) == 0);
        assert(digits_value(decimal(n)) == digits_value(decimal(n).drop_last()) * 10 + digit_value(decimal(n).last()));
    } else {
        lemma_decimal_digits(n / 10);
        lemma_digit_char(n % 10);
        let d = decimal(n);
        assert(d.drop_last() =~= decimal(n / 10));
        assert forall|k: int| 0 <= k < d.len() implies is_digit(#[trigger] d[k]) by {
            if k < d.len() - 1 {
                assert(d[k] == decimal(n / 10)[k]);
            }
        }
        assert(d[0] == decimal(n / 10)[0]);
        assert(d.last() == digit_char(n % 10));
        assert((n / 10) * 10 + n % 10 == n);
        assert(digits_value(d) == digits_value(d.drop_last()) * 10 + digit_value(d.last()));
    }
}

/// Reading back a written number gives the number: `parse_unsigned(decimal(n))` is `n`
/// for every `n` within the limit.
pub proof fn lemma_decimal_parses_back(n: nat, max: nat)
    requires
        n <= max,
    ensures
        parse_unsigned(decimal(n), max) == Ok::<nat, IntErrorKind>(n),
{
    lemma_decimal_digits(n);
    assert(unsigned_digits(decimal(n)) == decimal(n));
}

} // verus!
