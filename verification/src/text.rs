//! Character-level text model shared by the transcript and translation code.
//!
//! Strings are reasoned about through their `Seq<char>` views. The executable
//! helpers here work on `Vec<char>` and are proved against the spec functions
//! below, which mirror the behaviour of the corresponding `str` methods
//! (`trim`, `split_whitespace`, `lines`, `split`, `find`, `replace`, ...).
use vstd::prelude::*;

verus! {

// ── Character classes ─────────────────────────────────────────────────────────

/// Unicode `White_Space` property, the set that `char::is_whitespace` tests.
pub open spec fn is_ws(c: char) -> bool {
    ||| ('\u{9}' <= c && c <= '\u{D}')
    ||| c == ' '
    ||| c == '\u{85}'
    ||| c == '\u{A0}'
    ||| c == '\u{1680}'
    ||| ('\u{2000}' <= c && c <= '\u{200A}')
    ||| c == '\u{2028}'
    ||| c == '\u{2029}'
    ||| c == '\u{202F}'
    ||| c == '\u{205F}'
    ||| c == '\u{3000}'
}

/// Executable test for [`is_ws`].
pub fn is_whitespace(c: char) -> (r: bool)
    ensures
        r == is_ws(c),
{
    ('\u{9}' <= c && c <= '\u{D}') || c == ' ' || c == '\u{85}' || c == '\u{A0}' || c == '\u{1680}'
        || ('\u{2000}' <= c && c <= '\u{200A}') || c == '\u{2028}' || c == '\u{2029}' || c
        == '\u{202F}' || c == '\u{205F}' || c == '\u{3000}'
}

/// General category `Cc`, the set that `char::is_control` tests.
pub open spec fn is_ctrl(c: char) -> bool {
    c <= '\u{1F}' || ('\u{7F}' <= c && c <= '\u{9F}')
}

/// Executable test for [`is_ctrl`].
pub fn is_control(c: char) -> (r: bool)
    ensures
        r == is_ctrl(c),
{
    c <= '\u{1F}' || ('\u{7F}' <= c && c <= '\u{9F}')
}

/// ASCII decimal digit, the set that `char::is_ascii_digit` tests.
pub open spec fn is_digit(c: char) -> bool {
    '0' <= c && c <= '9'
}

/// What `char::is_alphanumeric` answers for `c`.
pub uninterp spec fn char_alphanumeric(c: char) -> bool;

/// What `char::to_lowercase` yields for `c`, as a sequence of characters.
pub uninterp spec fn char_lowercase(c: char) -> Seq<char>;

/// Calls `char::is_alphanumeric`; the result is named [`char_alphanumeric`].
#[verifier::external_body]
pub(crate) fn is_alphanumeric(c: char) -> (r: bool)
    ensures
        r == char_alphanumeric(c),
{
    c.is_alphanumeric()
}

/// Calls `char::to_lowercase` and collects the characters it yields; the
/// result is named [`char_lowercase`].
#[verifier::external_body]
pub(crate) fn lowercase_of(c: char) -> (r: Vec<char>)
    ensures
        r@ == char_lowercase(c),
{
    c.to_lowercase().collect()
}

/// What `str::to_lowercase` yields for `s`.
pub uninterp spec fn str_lowercase(s: Seq<char>) -> Seq<char>;

/// Calls `str::to_lowercase`; the result is named [`str_lowercase`].
#[verifier::external_body]
pub(crate) fn lowercase_str(s: &str) -> (r: String)
    ensures
        r@ == str_lowercase(s@),
{
    s.to_lowercase()
}

/// Appends one character with `String::push`.
#[verifier::external_body]
fn push_char(s: &mut String, c: char)
    ensures
        final(s)@ == old(s)@.push(c),
{
    s.push(c);
}

// ── Conversions between `str`/`String` and `Vec<char>` ───────────────────────

/// The characters of `s`, in order.
pub fn chars_of(s: &str) -> (v: Vec<char>)
    ensures
        v@ == s@,
{
    let mut v: Vec<char> = Vec::new();
    for c in it: s.chars()
        invariant
            v@ == it.seq().take(it.index() as int),
    {
        v.push(c);
    }
    v
}

/// A `String` holding exactly the characters of `v`.
pub fn string_of(v: &Vec<char>) -> (s: String)
    ensures
        s@ == v@,
{
    let mut s = String::new();
    let n = v.len();
    for i in 0..n
        invariant
            n == v@.len(),
            s@ == v@.take(i as int),
    {
        push_char(&mut s, v[i]);
        assert(v@.take(i + 1) == v@.take(i as int).push(v@[i as int]));
    }
    assert(v@.take(n as int) == v@);
    s
}

/// Appends the characters of `s` to `out`.
pub fn push_str(out: &mut Vec<char>, s: &str)
    ensures
        final(out)@ == old(out)@ + s@,
{
    let v = chars_of(s);
    push_all(out, &v);
}

/// Appends the characters of `v` to `out`.
pub fn push_all(out: &mut Vec<char>, v: &Vec<char>)
    ensures
        final(out)@ == old(out)@ + v@,
{
    push_range(out, v, 0, v.len());
}

/// Appends `v[from..to]` to `out`.
pub fn push_range(out: &mut Vec<char>, v: &Vec<char>, from: usize, to: usize)
    requires
        from <= to <= v@.len(),
    ensures
        final(out)@ == old(out)@ + v@.subrange(from as int, to as int),
{
    let ghost start = out@;
    let mut i = from;
    while i < to
        invariant
            from <= i <= to <= v@.len(),
            out@ == start + v@.subrange(from as int, i as int),
        decreases to - i,
    {
        out.push(v[i]);
        assert(v@.subrange(from as int, i + 1) == v@.subrange(from as int, i as int).push(v@[i as int]));
        i += 1;
    }
}

/// `v[from..to]` as a new vector.
pub fn slice_of(v: &Vec<char>, from: usize, to: usize) -> (r: Vec<char>)
    requires
        from <= to <= v@.len(),
    ensures
        r@ == v@.subrange(from as int, to as int),
{
    let mut r = Vec::new();
    push_range(&mut r, v, from, to);
    r
}

/// Character-wise equality of two vectors.
pub fn vec_eq(a: &Vec<char>, b: &Vec<char>) -> (r: bool)
    ensures
        r == (a@ == b@),
{
    let r = range_eq(a, 0, a.len(), b, 0, b.len());
    assert(a@.subrange(0, a@.len() as int) == a@);
    assert(b@.subrange(0, b@.len() as int) == b@);
    r
}

/// Whether `a[af..at] == b[bf..bt]`.
pub fn range_eq(a: &Vec<char>, af: usize, at: usize, b: &Vec<char>, bf: usize, bt: usize) -> (r: bool)
    requires
        af <= at <= a@.len(),
        bf <= bt <= b@.len(),
    ensures
        r == (a@.subrange(af as int, at as int) == b@.subrange(bf as int, bt as int)),
{
    if at - af != bt - bf {
        assert(a@.subrange(af as int, at as int).len() != b@.subrange(bf as int, bt as int).len());
        return false;
    }
    let n = at - af;
    let ghost sa = a@.subrange(af as int, at as int);
    let ghost sb = b@.subrange(bf as int, bt as int);
    let mut k: usize = 0;
    while k < n
        invariant
            n == at - af == bt - bf,
            af <= at <= a@.len(),
            bf <= bt <= b@.len(),
            sa == a@.subrange(af as int, at as int),
            sb == b@.subrange(bf as int, bt as int),
            k <= n,
            forall|j: int| 0 <= j < k ==> #[trigger] sa[j] == sb[j],
        decreases n - k,
    {
        if a[af + k] != b[bf + k] {
            assert(sa[k as int] != sb[k as int]);
            return false;
        }
        k += 1;
    }
    assert(sa =~= sb);
    true
}

/// Whether `s` equals the characters of `v`.
pub fn str_eq_vec(s: &str, v: &Vec<char>) -> (r: bool)
    ensures
        r == (s@ == v@),
{
    let w = chars_of(s);
    vec_eq(&w, v)
}

/// Character-wise equality of two string slices.
pub fn str_eq(a: &str, b: &str) -> (r: bool)
    ensures
        r == (a@ == b@),
{
    let w = chars_of(b);
    str_eq_vec(a, &w)
}

// ── Prefixes, suffixes, substrings ───────────────────────────────────────────

/// `p` is a prefix of `s`.
pub open spec fn starts_with(s: Seq<char>, p: Seq<char>) -> bool {
    p.len() <= s.len() && s.take(p.len() as int) == p
}

/// `p` is a suffix of `s`.
pub open spec fn ends_with(s: Seq<char>, p: Seq<char>) -> bool {
    p.len() <= s.len() && s.skip(s.len() - p.len()) == p
}

/// `p` occurs in `s` at position `i`.
pub open spec fn occurs_at(s: Seq<char>, p: Seq<char>, i: int) -> bool {
    0 <= i && i + p.len() <= s.len() && s.subrange(i, i + p.len()) == p
}

/// `p` occurs somewhere in `s`.
pub open spec fn contains(s: Seq<char>, p: Seq<char>) -> bool {
    exists|i: int| occurs_at(s, p, i)
}

/// Whether `v[at..]` starts with `p`.
pub fn starts_with_at(v: &Vec<char>, at: usize, p: &Vec<char>) -> (r: bool)
    requires
        at <= v@.len(),
    ensures
        r == starts_with(v@.skip(at as int), p@),
        r == occurs_at(v@, p@, at as int),
{
    if p.len() > v.len() - at {
        return false;
    }
    let r = range_eq(v, at, at + p.len(), p, 0, p.len());
    assert(p@.subrange(0, p@.len() as int) == p@);
    assert(v@.skip(at as int).take(p@.len() as int) == v@.subrange(at as int, at + p@.len()));
    r
}

/// Whether `v` starts with the characters of `p`.
pub fn vec_starts_with(v: &Vec<char>, p: &str) -> (r: bool)
    ensures
        r == starts_with(v@, p@),
{
    let pv = chars_of(p);
    let r = starts_with_at(v, 0, &pv);
    assert(v@.skip(0) == v@);
    r
}

/// Whether `v` ends with the characters of `p`.
pub fn vec_ends_with(v: &Vec<char>, p: &str) -> (r: bool)
    ensures
        r == ends_with(v@, p@),
{
    let pv = chars_of(p);
    if pv.len() > v.len() {
        return false;
    }
    let r = range_eq(v, v.len() - pv.len(), v.len(), &pv, 0, pv.len());
    assert(pv@.subrange(0, pv@.len() as int) == pv@);
    assert(v@.skip(v@.len() - pv@.len()) == v@.subrange(v@.len() - pv@.len(), v@.len() as int));
    r
}

/// Whether the characters of `p` occur in `v`.
pub fn vec_contains(v: &Vec<char>, p: &str) -> (r: bool)
    ensures
        r == contains(v@, p@),
{
    let pv = chars_of(p);
    match find_from(v, &pv, 0) {
        Some(i) => true,
        None => {
            assert forall|i: int| !occurs_at(v@, pv@, i) by {
                if 0 <= i && i + pv@.len() <= v@.len() {
                    assert(v@.skip(0) == v@);
                }
            }
            false
        },
    }
}

/// Position of the first occurrence of `p` in `v` at or after `from`.
pub fn find_from(v: &Vec<char>, p: &Vec<char>, from: usize) -> (r: Option<usize>)
    requires
        from <= v@.len(),
    ensures
        match r {
            Some(i) => from <= i && occurs_at(v@, p@, i as int) && (forall|j: int|
                from <= j < i ==> !occurs_at(v@, p@, j)),
            None => forall|j: int| from <= j ==> !occurs_at(v@, p@, j),
        },
{
    if p.len() > v.len() {
        return None;
    }
    let last = v.len() - p.len();
    if from > last {
        return None;
    }
    let mut i = from;
    loop
        invariant_except_break
            from <= i <= last,
            last == v@.len() - p@.len(),
            forall|j: int| from <= j < i ==> !occurs_at(v@, p@, j),
        ensures
            last == v@.len() - p@.len(),
            forall|j: int| from <= j <= last ==> !occurs_at(v@, p@, j),
        decreases last - i,
    {
        if starts_with_at(v, i, p) {
            return Some(i);
        }
        if i == last {
            break;
        }
        i += 1;
    }
    None
}

// ── Trimming ──────────────────────────────────────────────────────────────────

/// `s` without its leading whitespace (`str::trim_start`).
pub open spec fn trim_start(s: Seq<char>) -> Seq<char>
    decreases s.len(),
{
    if s.len() > 0 && is_ws(s[0]) {
        trim_start(s.drop_first())
    } else {
        s
    }
}

/// `s` without its trailing whitespace (`str::trim_end`).
pub open spec fn trim_end(s: Seq<char>) -> Seq<char>
    decreases s.len(),
{
    if s.len() > 0 && is_ws(s.last()) {
        trim_end(s.drop_last())
    } else {
        s
    }
}

/// `s` without leading and trailing whitespace (`str::trim`).
pub open spec fn trim(s: Seq<char>) -> Seq<char> {
    trim_end(trim_start(s))
}

/// Skipping a run of leading whitespace does not change `trim_start`.
pub proof fn lemma_trim_start_skip(s: Seq<char>, i: int)
    requires
        0 <= i <= s.len(),
        forall|j: int| 0 <= j < i ==> is_ws(s[j]),
    ensures
        trim_start(s) == trim_start(s.skip(i)),
    decreases i,
{
    if i > 0 {
        assert(s.skip(1) == s.drop_first());
        lemma_trim_start_skip(s.drop_first(), i - 1);
        assert(s.drop_first().skip(i - 1) == s.skip(i));
    } else {
        assert(s.skip(0) == s);
    }
}

/// Trimming never lengthens a string.
pub proof fn lemma_trim_len(s: Seq<char>)
    ensures
        trim_start(s).len() <= s.len(),
        trim_end(s).len() <= s.len(),
        trim(s).len() <= s.len(),
    decreases s.len(),
{
    if s.len() > 0 {
        lemma_trim_len(s.drop_first());
        lemma_trim_len(s.drop_last());
    }
    lemma_trim_len_end(trim_start(s));
}

proof fn lemma_trim_len_end(s: Seq<char>)
    ensures
        trim_end(s).len() <= s.len(),
    decreases s.len(),
{
    if s.len() > 0 {
        lemma_trim_len_end(s.drop_last());
    }
}

/// Dropping a run of trailing whitespace does not change `trim_end`.
pub proof fn lemma_trim_end_take(s: Seq<char>, i: int)
    requires
        0 <= i <= s.len(),
        forall|j: int| i <= j < s.len() ==> is_ws(s[j]),
    ensures
        trim_end(s) == trim_end(s.take(i)),
    decreases s.len() - i,
{
    if i < s.len() {
        lemma_trim_end_take(s.drop_last(), i);
        assert(s.drop_last().take(i) == s.take(i));
    } else {
        assert(s.take(i) == s);
    }
}

/// Bounds `(a, b)` such that `v[a..b]` is `v` trimmed at the ends selected.
pub fn trim_bounds(v: &Vec<char>, start: bool, end: bool) -> (r: (usize, usize))
    ensures
        r.0 <= r.1 <= v@.len(),
        start && end ==> v@.subrange(r.0 as int, r.1 as int) == trim(v@),
        start && !end ==> v@.subrange(r.0 as int, r.1 as int) == trim_start(v@),
        !start && end ==> v@.subrange(r.0 as int, r.1 as int) == trim_end(v@),
        !start && !end ==> v@.subrange(r.0 as int, r.1 as int) == v@,
{
    let n = v.len();
    let mut a: usize = 0;
    if start {
        while a < n && is_whitespace(v[a])
            invariant
                a <= n == v@.len(),
                forall|j: int| 0 <= j < a ==> is_ws(v@[j]),
            decreases n - a,
        {
            a += 1;
        }
        proof {
            lemma_trim_start_skip(v@, a as int);
            assert(trim_start(v@.skip(a as int)) == v@.skip(a as int));
        }
    }
    let mut b: usize = n;
    if end {
        while b > a && is_whitespace(v[b - 1])
            invariant
                a <= b <= n == v@.len(),
                forall|j: int| b <= j < n ==> is_ws(v@[j]),
            decreases b,
        {
            b -= 1;
        }
        proof {
            let t = v@.subrange(a as int, n as int);
            lemma_trim_end_take(t, (b - a) as int);
            assert(t.take((b - a) as int) == v@.subrange(a as int, b as int));
        }
    }
    proof {
        assert(v@.skip(a as int) == v@.subrange(a as int, n as int));
        if !start {
            assert(v@.skip(0) == v@);
        }
        assert(v@.subrange(0, n as int) == v@);
    }
    (a, b)
}

/// `trim` of `v` as a new vector.
pub fn trimmed(v: &Vec<char>) -> (r: Vec<char>)
    ensures
        r@ == trim(v@),
{
    let (a, b) = trim_bounds(v, true, true);
    slice_of(v, a, b)
}

/// `trim_start` of `v` as a new vector.
pub fn trimmed_start(v: &Vec<char>) -> (r: Vec<char>)
    ensures
        r@ == trim_start(v@),
{
    let (a, b) = trim_bounds(v, true, false);
    slice_of(v, a, b)
}

/// `trim_end` of `v` as a new vector.
pub fn trimmed_end(v: &Vec<char>) -> (r: Vec<char>)
    ensures
        r@ == trim_end(v@),
{
    let (a, b) = trim_bounds(v, false, true);
    slice_of(v, a, b)
}

/// Whether `v` is empty after trimming.
pub fn is_blank(v: &Vec<char>) -> (r: bool)
    ensures
        r == (trim(v@).len() == 0),
{
    let (a, b) = trim_bounds(v, true, true);
    a == b
}

// ── Searching ─────────────────────────────────────────────────────────────────

/// First position at or after `from` where `p` occurs in `s` (`str::find`
/// applied to `s[from..]`, counted from the start of `s`).
pub open spec fn find_spec(s: Seq<char>, p: Seq<char>, from: int) -> Option<int>
    decreases s.len() + 1 - from,
{
    if from < 0 || from + p.len() > s.len() {
        None
    } else if occurs_at(s, p, from) {
        Some(from)
    } else {
        find_spec(s, p, from + 1)
    }
}

/// `find_spec` is the least occurrence at or after `from`.
pub proof fn lemma_find_spec(s: Seq<char>, p: Seq<char>, from: int)
    requires
        0 <= from,
    ensures
        match find_spec(s, p, from) {
            Some(i) => from <= i && occurs_at(s, p, i) && forall|j: int| from <= j < i ==> !occurs_at(s, p, j),
            None => forall|j: int| from <= j ==> !occurs_at(s, p, j),
        },
    decreases s.len() + 1 - from,
{
    if from + p.len() > s.len() {
    } else if occurs_at(s, p, from) {
    } else {
        lemma_find_spec(s, p, from + 1);
    }
}

/// The least-occurrence characterisation determines `find_spec`.
pub proof fn lemma_find_spec_unique(s: Seq<char>, p: Seq<char>, from: int, r: Option<int>)
    requires
        0 <= from,
        match r {
            Some(i) => from <= i && occurs_at(s, p, i) && forall|j: int| from <= j < i ==> !occurs_at(s, p, j),
            None => forall|j: int| from <= j ==> !occurs_at(s, p, j),
        },
    ensures
        find_spec(s, p, from) == r,
{
    lemma_find_spec(s, p, from);
    match (find_spec(s, p, from), r) {
        (Some(a), Some(b)) => {
            if a < b {
                assert(!occurs_at(s, p, a));
            } else if b < a {
                assert(!occurs_at(s, p, b));
            }
        },
        (Some(a), None) => {
            assert(!occurs_at(s, p, a));
        },
        (None, Some(b)) => {
            assert(!occurs_at(s, p, b));
        },
        (None, None) => {},
    }
}

/// Exact `find_spec` of `p` in `v` from `from`.
pub fn find(v: &Vec<char>, p: &Vec<char>, from: usize) -> (r: Option<usize>)
    requires
        from <= v@.len(),
    ensures
        match r {
            Some(i) => find_spec(v@, p@, from as int) == Some(i as int),
            None => find_spec(v@, p@, from as int) is None,
        },
{
    let r = find_from(v, p, from);
    proof {
        match r {
            Some(i) => lemma_find_spec_unique(v@, p@, from as int, Some(i as int)),
            None => lemma_find_spec_unique(v@, p@, from as int, None),
        }
    }
    r
}

// ── Splitting on whitespace ───────────────────────────────────────────────────

/// The whitespace-separated words of `s` (`str::split_whitespace`).
pub open spec fn words(s: Seq<char>) -> Seq<Seq<char>>
    decreases s.len(),
{
    if s.len() == 0 {
        seq![]
    } else {
        let w = words(s.drop_last());
        let c = s.last();
        if is_ws(c) {
            w
        } else if s.len() >= 2 && !is_ws(s[s.len() - 2]) {
            w.update(w.len() - 1, w.last().push(c))
        } else {
            w.push(seq![c])
        }
    }
}

/// A string ending in a non-whitespace character has at least one word.
pub proof fn lemma_words_nonempty(s: Seq<char>)
    requires
        s.len() > 0,
        !is_ws(s.last()),
    ensures
        words(s).len() > 0,
    decreases s.len(),
{
    if s.len() >= 2 && !is_ws(s[s.len() - 2]) {
        lemma_words_nonempty(s.drop_last());
    }
}

/// A word as `split_whitespace` yields it: non-empty, without whitespace.
pub open spec fn is_word(w: Seq<char>) -> bool {
    w.len() > 0 && forall|i: int| 0 <= i < w.len() ==> !is_ws(#[trigger] w[i])
}

/// Every word of `s` is non-empty and free of whitespace.
pub proof fn lemma_words_are_words(s: Seq<char>)
    ensures
        forall|i: int| 0 <= i < words(s).len() ==> is_word(#[trigger] words(s)[i]),
    decreases s.len(),
{
    if s.len() > 0 {
        let d = s.drop_last();
        lemma_words_are_words(d);
        let w = words(d);
        let c = s.last();
        if !is_ws(c) && s.len() >= 2 && !is_ws(s[s.len() - 2]) {
            assert(d.last() == s[s.len() - 2]);
            lemma_words_nonempty(d);
            let lw = w.last();
            assert(is_word(w[w.len() - 1]));
            let nw = lw.push(c);
            assert forall|j: int| 0 <= j < nw.len() implies !is_ws(#[trigger] nw[j]) by {
                if j < lw.len() {
                    assert(nw[j] == lw[j]);
                }
            }
            assert(is_word(nw));
            let u = w.update(w.len() - 1, nw);
            assert forall|i: int| 0 <= i < u.len() implies is_word(#[trigger] u[i]) by {
                if i < w.len() - 1 {
                    assert(u[i] == w[i]);
                }
            }
        } else if !is_ws(c) {
            let u = w.push(seq![c]);
            assert(is_word(seq![c]));
            assert forall|i: int| 0 <= i < u.len() implies is_word(#[trigger] u[i]) by {
                if i < w.len() {
                    assert(u[i] == w[i]);
                }
            }
        }
    }
}

/// A single word splits into itself.
pub proof fn lemma_words_single(w: Seq<char>)
    requires
        is_word(w),
    ensures
        words(w) == seq![w],
    decreases w.len(),
{
    if w.len() > 1 {
        let d = w.drop_last();
        assert(is_word(d)) by {
            assert forall|i: int| 0 <= i < d.len() implies !is_ws(#[trigger] d[i]) by {
                assert(d[i] == w[i]);
            }
        }
        lemma_words_single(d);
        assert(!is_ws(w[w.len() - 2]));
        assert(!is_ws(w.last()));
        assert(d.push(w.last()) =~= w);
        let wd = words(d);
        assert(wd == seq![d]);
        assert(words(w) == wd.update(wd.len() - 1, wd.last().push(w.last())));
        assert(wd.update(wd.len() - 1, wd.last().push(w.last())) =~= seq![w]);
    } else {
        assert(w.drop_last() =~= Seq::<char>::empty());
        assert(!is_ws(w.last()));
        assert(seq![w.last()] =~= w);
        assert(words(w.drop_last()) =~= Seq::<Seq<char>>::empty());
        assert(words(w) == words(w.drop_last()).push(seq![w.last()]));
        assert(Seq::<Seq<char>>::empty().push(w) =~= seq![w]);
    }
}

/// Appending a space and a word to a string adds that word to its words.
pub proof fn lemma_words_push_word(s: Seq<char>, w: Seq<char>)
    requires
        is_word(w),
    ensures
        words(s + seq![' '] + w) == words(s).push(w),
    decreases w.len(),
{
    let u = s + seq![' '] + w;
    assert(!is_ws(w.last()));
    if w.len() == 1 {
        let sp = s + seq![' '];
        assert(u.drop_last() =~= sp);
        assert(sp.drop_last() =~= s);
        assert(sp.last() == ' ');
        assert(u[u.len() - 2] == ' ');
        assert(seq![u.last()] =~= w);
        assert(words(sp) == words(s));
        assert(words(u) == words(sp).push(seq![u.last()]));
    } else {
        let d = w.drop_last();
        assert(is_word(d)) by {
            assert forall|i: int| 0 <= i < d.len() implies !is_ws(#[trigger] d[i]) by {
                assert(d[i] == w[i]);
            }
        }
        lemma_words_push_word(s, d);
        assert(u.drop_last() =~= s + seq![' '] + d);
        assert(u[u.len() - 2] == w[w.len() - 2]);
        assert(!is_ws(w[w.len() - 2]));
        assert(d.push(w.last()) =~= w);
        let ws = words(s);
        let wu = words(u.drop_last());
        assert(wu == ws.push(d));
        assert(words(u) == wu.update(wu.len() - 1, wu.last().push(u.last())));
        assert(ws.push(d).update(ws.len() as int, d.push(w.last())) =~= ws.push(w));
    }
}

/// Words joined by single spaces split back into those words.
pub proof fn lemma_words_join(ws: Seq<Seq<char>>)
    requires
        forall|i: int| 0 <= i < ws.len() ==> is_word(#[trigger] ws[i]),
    ensures
        words(join(ws, seq![' '])) == ws,
    decreases ws.len(),
{
    if ws.len() == 0 {
        assert(join(ws, seq![' ']) =~= Seq::<char>::empty());
        assert(ws =~= Seq::<Seq<char>>::empty());
    } else if ws.len() == 1 {
        assert(is_word(ws[0]));
        lemma_words_single(ws[0]);
        assert(seq![ws[0]] =~= ws);
    } else {
        let d = ws.drop_last();
        assert forall|i: int| 0 <= i < d.len() implies is_word(#[trigger] d[i]) by {
            assert(d[i] == ws[i]);
        }
        lemma_words_join(d);
        assert(is_word(ws[ws.len() - 1]));
        lemma_words_push_word(join(d, seq![' ']), ws.last());
        assert(d.push(ws.last()) =~= ws);
    }
}

/// Words joined by single spaces begin with the first word's first
/// character and end with the last word's last one.
pub proof fn lemma_join_ends(ws: Seq<Seq<char>>)
    requires
        ws.len() > 0,
        forall|i: int| 0 <= i < ws.len() ==> is_word(#[trigger] ws[i]),
    ensures
        join(ws, seq![' ']).len() > 0,
        join(ws, seq![' '])[0] == ws[0][0],
        join(ws, seq![' ']).last() == ws.last().last(),
    decreases ws.len(),
{
    assert(is_word(ws[0]));
    assert(is_word(ws[ws.len() - 1]));
    if ws.len() > 1 {
        let d = ws.drop_last();
        assert forall|i: int| 0 <= i < d.len() implies is_word(#[trigger] d[i]) by {
            assert(d[i] == ws[i]);
        }
        lemma_join_ends(d);
        assert(d[0] == ws[0]);
    }
}

/// Words joined by single spaces are their own trimmed form.
pub proof fn lemma_join_trimmed(ws: Seq<Seq<char>>)
    requires
        forall|i: int| 0 <= i < ws.len() ==> is_word(#[trigger] ws[i]),
    ensures
        trim(join(ws, seq![' '])) == join(ws, seq![' ']),
{
    let j = join(ws, seq![' ']);
    if ws.len() == 0 {
        assert(j =~= Seq::<char>::empty());
    } else {
        lemma_join_ends(ws);
        assert(is_word(ws[0]));
        assert(is_word(ws[ws.len() - 1]));
        assert(!is_ws(ws[0][0]));
        assert(!is_ws(ws.last().last()));
        assert(trim_start(j) == j);
        assert(trim_end(j) == j);
    }
}

/// A leading whitespace character does not change the words.
proof fn lemma_words_ws_prefix(c: char, s: Seq<char>)
    requires
        is_ws(c),
    ensures
        words(seq![c] + s) == words(s),
    decreases s.len(),
{
    let u = seq![c] + s;
    if s.len() == 0 {
        assert(u.drop_last() =~= Seq::<char>::empty());
        assert(u.last() == c);
        assert(words(u) == words(u.drop_last()));
        assert(s =~= Seq::<char>::empty());
    } else {
        lemma_words_ws_prefix(c, s.drop_last());
        assert(u.drop_last() =~= seq![c] + s.drop_last());
        assert(u.last() == s.last());
        let l = s.last();
        if s.len() >= 2 {
            assert(u[u.len() - 2] == s[s.len() - 2]);
        } else {
            assert(u[u.len() - 2] == c);
        }
        let wu = words(u.drop_last());
        let w = words(s.drop_last());
        assert(wu == w);
        if is_ws(l) {
            assert(words(u) == wu);
            assert(words(s) == w);
        } else if s.len() >= 2 && !is_ws(s[s.len() - 2]) {
            assert(words(u) == wu.update(wu.len() - 1, wu.last().push(l)));
            assert(words(s) == w.update(w.len() - 1, w.last().push(l)));
        } else {
            assert(words(u) == wu.push(seq![l]));
            assert(words(s) == w.push(seq![l]));
        }
    }
}

proof fn lemma_words_trim_start(s: Seq<char>)
    ensures
        words(trim_start(s)) == words(s),
    decreases s.len(),
{
    if s.len() > 0 && is_ws(s[0]) {
        lemma_words_trim_start(s.drop_first());
        lemma_words_ws_prefix(s[0], s.drop_first());
        assert(seq![s[0]] + s.drop_first() =~= s);
    }
}

proof fn lemma_words_trim_end(s: Seq<char>)
    ensures
        words(trim_end(s)) == words(s),
    decreases s.len(),
{
    if s.len() > 0 && is_ws(s.last()) {
        lemma_words_trim_end(s.drop_last());
    }
}

/// Trimming keeps the words.
pub proof fn lemma_words_trim(s: Seq<char>)
    ensures
        words(trim(s)) == words(s),
{
    lemma_words_trim_start(s);
    lemma_words_trim_end(trim_start(s));
}

proof fn lemma_trim_start_shape(s: Seq<char>)
    ensures
        trim_start(s).len() == 0 || !is_ws(trim_start(s)[0]),
    decreases s.len(),
{
    if s.len() > 0 && is_ws(s[0]) {
        lemma_trim_start_shape(s.drop_first());
    }
}

proof fn lemma_trim_end_shape(s: Seq<char>)
    ensures
        trim_end(s).len() <= s.len(),
        trim_end(s) == s.take(trim_end(s).len() as int),
        trim_end(s).len() == 0 || !is_ws(trim_end(s).last()),
    decreases s.len(),
{
    if s.len() > 0 && is_ws(s.last()) {
        lemma_trim_end_shape(s.drop_last());
        assert(s.drop_last().take(trim_end(s).len() as int) =~= s.take(trim_end(s).len() as int));
    } else {
        assert(s.take(s.len() as int) =~= s);
    }
}

/// Trimming a trimmed string changes nothing.
pub proof fn lemma_trim_idempotent(s: Seq<char>)
    ensures
        trim(trim(s)) == trim(s),
{
    let y = trim_start(s);
    lemma_trim_start_shape(s);
    lemma_trim_end_shape(y);
    let z = trim_end(y);
    if z.len() > 0 {
        assert(z[0] == y[0]);
    }
    assert(trim_start(z) == z);
    assert(trim_end(z) == z);
}

/// Each word of `v` as a half-open range of positions of `v`.
pub fn word_ranges(v: &Vec<char>) -> (r: Vec<(usize, usize)>)
    ensures
        ranges_within(r@, v@.len() as int),
        pieces(v@, r@) == words(v@),
{
    let n = v.len();
    let mut r: Vec<(usize, usize)> = Vec::new();
    let mut i: usize = 0;
    assert(pieces(v@, r@) =~= words(v@.take(0)));
    while i < n
        invariant
            i <= n == v@.len(),
            ranges_within(r@, i as int),
            pieces(v@, r@) == words(v@.take(i as int)),
            i > 0 && !is_ws(v@[i - 1]) ==> r@.len() > 0 && r@[r@.len() - 1].1 == i,
        decreases n - i,
    {
        let ghost pre = v@.take(i as int);
        let ghost cur = v@.take(i + 1);
        let ghost old_r = r@;
        assert(cur.drop_last() == pre);
        let c = v[i];
        if is_whitespace(c) {
            assert(words(cur) == words(pre));
            proof { lemma_ranges_within(old_r, i as int, i + 1, (0, 0), -1); }
        } else if i >= 1 && !is_whitespace(v[i - 1]) {
            let last = r.len() - 1;
            let (a, b) = r[last];
            r.set(last, (a, i + 1));
            proof {
                assert(cur[cur.len() - 2] == v@[i - 1]);
                assert(v@.subrange(a as int, i + 1) == v@.subrange(a as int, i as int).push(c));
                assert(pieces(v@, old_r)[last as int] == v@.subrange(a as int, i as int));
                lemma_pieces_update(v@, old_r, last as int, (a, (i + 1) as usize));
                lemma_ranges_within(old_r, i as int, i + 1, (a, (i + 1) as usize), last as int);
            }
        } else {
            r.push((i, i + 1));
            proof {
                lemma_ranges_within(old_r, i as int, i + 1, (i, (i + 1) as usize), -1);
                assert(v@.subrange(i as int, i + 1) == seq![c]);
                lemma_pieces_push(v@, old_r, (i, (i + 1) as usize));
            }
        }
        i += 1;
    }
    assert(v@.take(n as int) == v@);
    r
}

/// Number of whitespace-separated words in `v`.
pub fn word_count(v: &Vec<char>) -> (r: usize)
    ensures
        r == words(v@).len(),
{
    word_ranges(v).len()
}

// ── Counting ──────────────────────────────────────────────────────────────────

/// Number of non-whitespace characters in `s`.
pub open spec fn count_non_ws(s: Seq<char>) -> nat
    decreases s.len(),
{
    if s.len() == 0 {
        0
    } else {
        count_non_ws(s.drop_last()) + if is_ws(s.last()) {
            0nat
        } else {
            1nat
        }
    }
}

/// `count_non_ws` never exceeds the length.
pub proof fn lemma_count_non_ws_le(s: Seq<char>)
    ensures
        count_non_ws(s) <= s.len(),
    decreases s.len(),
{
    if s.len() > 0 {
        lemma_count_non_ws_le(s.drop_last());
    }
}

/// Number of non-whitespace characters in `v`.
pub fn non_ws_count(v: &Vec<char>) -> (r: usize)
    ensures
        r == count_non_ws(v@),
{
    let n = v.len();
    let mut c: usize = 0;
    let mut i: usize = 0;
    while i < n
        invariant
            i <= n == v@.len(),
            c == count_non_ws(v@.take(i as int)),
            c <= i,
        decreases n - i,
    {
        assert(v@.take(i + 1).drop_last() == v@.take(i as int));
        if !is_whitespace(v[i]) {
            c += 1;
        }
        i += 1;
    }
    assert(v@.take(n as int) == v@);
    c
}

// ── Splitting on a character and into lines ──────────────────────────────────

/// The pieces of `s` between occurrences of `sep` (`str::split` with a char).
pub open spec fn split_char(s: Seq<char>, sep: char) -> Seq<Seq<char>>
    decreases s.len(),
{
    if s.len() == 0 {
        seq![seq![]]
    } else {
        let p = split_char(s.drop_last(), sep);
        let c = s.last();
        if c == sep {
            p.push(seq![])
        } else {
            p.update(p.len() - 1, p.last().push(c))
        }
    }
}

/// Splitting always yields at least one piece.
pub proof fn lemma_split_char_nonempty(s: Seq<char>, sep: char)
    ensures
        split_char(s, sep).len() >= 1,
    decreases s.len(),
{
    if s.len() > 0 {
        lemma_split_char_nonempty(s.drop_last(), sep);
    }
}

/// The substrings of `s` named by a list of ranges.
pub open spec fn pieces(s: Seq<char>, rs: Seq<(usize, usize)>) -> Seq<Seq<char>> {
    Seq::new(rs.len(), |k: int| s.subrange(rs[k].0 as int, rs[k].1 as int))
}

/// Widening the bound keeps ranges within it; so does pushing or updating a
/// range that lies within it.
pub proof fn lemma_ranges_within(rs: Seq<(usize, usize)>, a: int, b: int, x: (usize, usize), k: int)
    requires
        ranges_within(rs, a),
        a <= b,
        x.0 <= x.1 <= b,
    ensures
        ranges_within(rs, b),
        ranges_within(rs.push(x), b),
        0 <= k < rs.len() ==> ranges_within(rs.update(k, x), b),
{
    assert forall|j: int| 0 <= j < rs.push(x).len() implies #[trigger] rs.push(x)[j].0 <= rs.push(x)[j].1 <= b by {
        if j < rs.len() {
            assert(rs.push(x)[j] == rs[j]);
        }
    }
    if 0 <= k < rs.len() {
        assert forall|j: int| 0 <= j < rs.update(k, x).len() implies #[trigger] rs.update(k, x)[j].0 <= rs.update(k, x)[j].1 <= b by {
            if j != k {
                assert(rs.update(k, x)[j] == rs[j]);
            }
        }
    }
}

/// Pushing a range pushes its piece.
pub proof fn lemma_pieces_push(s: Seq<char>, rs: Seq<(usize, usize)>, x: (usize, usize))
    ensures
        pieces(s, rs.push(x)) == pieces(s, rs).push(s.subrange(x.0 as int, x.1 as int)),
{
    assert(pieces(s, rs.push(x)) =~= pieces(s, rs).push(s.subrange(x.0 as int, x.1 as int)));
}

/// Updating a range updates its piece.
pub proof fn lemma_pieces_update(s: Seq<char>, rs: Seq<(usize, usize)>, k: int, x: (usize, usize))
    requires
        0 <= k < rs.len(),
    ensures
        pieces(s, rs.update(k, x)) == pieces(s, rs).update(k, s.subrange(x.0 as int, x.1 as int)),
{
    assert(pieces(s, rs.update(k, x)) =~= pieces(s, rs).update(k, s.subrange(x.0 as int, x.1 as int)));
}

/// Every range lies within `0..=n` and is ordered.
pub open spec fn ranges_within(rs: Seq<(usize, usize)>, n: int) -> bool {
    forall|k: int| 0 <= k < rs.len() ==> #[trigger] rs[k].0 <= rs[k].1 <= n
}

/// Ranges of the pieces of `v` between occurrences of `sep`.
pub fn split_char_ranges(v: &Vec<char>, sep: char) -> (r: Vec<(usize, usize)>)
    ensures
        ranges_within(r@, v@.len() as int),
        pieces(v@, r@) == split_char(v@, sep),
{
    let n = v.len();
    let mut r: Vec<(usize, usize)> = Vec::new();
    r.push((0, 0));
    let mut i: usize = 0;
    proof {
        assert(v@.take(0) == Seq::<char>::empty());
        assert(pieces(v@, r@) =~= split_char(v@.take(0), sep));
    }
    while i < n
        invariant
            i <= n == v@.len(),
            r@.len() >= 1,
            ranges_within(r@, i as int),
            r@[r@.len() - 1].1 == i,
            pieces(v@, r@) == split_char(v@.take(i as int), sep),
        decreases n - i,
    {
        let ghost pre = v@.take(i as int);
        let ghost cur = v@.take(i + 1);
        let ghost old_r = r@;
        assert(cur.drop_last() == pre);
        let c = v[i];
        if c == sep {
            r.push((i + 1, i + 1));
            proof {
                lemma_pieces_push(v@, old_r, ((i + 1) as usize, (i + 1) as usize));
                lemma_ranges_within(old_r, i as int, i + 1, ((i + 1) as usize, (i + 1) as usize), -1);
                assert(v@.subrange(i + 1, i + 1) =~= Seq::<char>::empty());
            }
        } else {
            let last = r.len() - 1;
            let (a, b) = r[last];
            r.set(last, (a, i + 1));
            proof {
                assert(v@.subrange(a as int, i + 1) == v@.subrange(a as int, i as int).push(c));
                assert(pieces(v@, old_r)[last as int] == v@.subrange(a as int, i as int));
                lemma_pieces_update(v@, old_r, last as int, (a, (i + 1) as usize));
                lemma_ranges_within(old_r, i as int, i + 1, (a, (i + 1) as usize), last as int);
            }
        }
        i += 1;
    }
    assert(v@.take(n as int) == v@);
    r
}

/// A line with one trailing carriage return removed.
pub open spec fn strip_cr(l: Seq<char>) -> Seq<char> {
    if l.len() > 0 && l.last() == '\r' {
        l.drop_last()
    } else {
        l
    }
}

/// The lines of `s` (`str::lines`): split at `\n`, drop a `\r` before each
/// `\n`, and drop the empty piece after a final line ending.
pub open spec fn lines(s: Seq<char>) -> Seq<Seq<char>> {
    let p = split_char(s, '\n');
    let init = Seq::new((p.len() - 1) as nat, |k: int| strip_cr(p[k]));
    if p.last().len() == 0 {
        init
    } else {
        init.push(p.last())
    }
}

/// Ranges of the lines of `v`.
pub fn line_ranges(v: &Vec<char>) -> (r: Vec<(usize, usize)>)
    ensures
        ranges_within(r@, v@.len() as int),
        pieces(v@, r@) == lines(v@),
{
    let sp = split_char_ranges(v, '\n');
    let ghost p = split_char(v@, '\n');
    proof {
        lemma_split_char_nonempty(v@, '\n');
    }
    let m = sp.len();
    let mut r: Vec<(usize, usize)> = Vec::new();
    let mut k: usize = 0;
    while k + 1 < m
        invariant
            m == sp@.len() == p.len() >= 1,
            p == pieces(v@, sp@),
            ranges_within(sp@, v@.len() as int),
            k + 1 <= m,
            r@.len() == k,
            ranges_within(r@, v@.len() as int),
            forall|j: int| 0 <= j < k ==> #[trigger] pieces(v@, r@)[j] == strip_cr(p[j]),
        decreases m - k,
    {
        let (a, b) = sp[k];
        let ghost old_r = r@;
        assert(p[k as int] == v@.subrange(a as int, b as int));
        if b > a && v[b - 1] == '\r' {
            r.push((a, b - 1));
            assert(v@.subrange(a as int, b - 1) == v@.subrange(a as int, b as int).drop_last());
            proof {
                lemma_pieces_push(v@, old_r, (a, (b - 1) as usize));
                lemma_ranges_within(old_r, v@.len() as int, v@.len() as int, (a, (b - 1) as usize), -1);
            }
        } else {
            r.push((a, b));
            proof {
                lemma_pieces_push(v@, old_r, (a, b));
                lemma_ranges_within(old_r, v@.len() as int, v@.len() as int, (a, b), -1);
            }
        }
        assert forall|j: int| 0 <= j < k + 1 implies #[trigger] pieces(v@, r@)[j] == strip_cr(p[j]) by {
            if j < k {
                assert(pieces(v@, r@)[j] == pieces(v@, old_r)[j]);
            }
        }
        k += 1;
    }
    let (a, b) = sp[m - 1];
    let ghost old_r = r@;
    assert(p.last() == v@.subrange(a as int, b as int));
    let ghost init = Seq::new((p.len() - 1) as nat, |j: int| strip_cr(p[j]));
    assert(pieces(v@, old_r) =~= init);
    if b > a {
        r.push((a, b));
        proof {
            lemma_pieces_push(v@, old_r, (a, b));
            lemma_ranges_within(old_r, v@.len() as int, v@.len() as int, (a, b), -1);
        }
    }
    r
}

// ── Joining ───────────────────────────────────────────────────────────────────

/// `parts` joined with `sep` between consecutive parts (`[T]::join`).
pub open spec fn join(parts: Seq<Seq<char>>, sep: Seq<char>) -> Seq<char>
    decreases parts.len(),
{
    if parts.len() == 0 {
        seq![]
    } else if parts.len() == 1 {
        parts[0]
    } else {
        join(parts.drop_last(), sep) + sep + parts.last()
    }
}

/// The pieces of `v` named by `rs`, joined with `sep`.
pub fn join_ranges(v: &Vec<char>, rs: &Vec<(usize, usize)>, sep: &str) -> (r: Vec<char>)
    requires
        ranges_within(rs@, v@.len() as int),
    ensures
        r@ == join(pieces(v@, rs@), sep@),
{
    let sepv = chars_of(sep);
    let mut out: Vec<char> = Vec::new();
    let m = rs.len();
    let mut k: usize = 0;
    while k < m
        invariant
            m == rs@.len(),
            k <= m,
            ranges_within(rs@, v@.len() as int),
            sepv@ == sep@,
            out@ == join(pieces(v@, rs@).take(k as int), sep@),
        decreases m - k,
    {
        let ghost ps = pieces(v@, rs@);
        assert(ps.take(k + 1).drop_last() == ps.take(k as int));
        let (a, b) = rs[k];
        assert(rs@[k as int].0 <= rs@[k as int].1 <= v@.len());
        if k > 0 {
            push_all(&mut out, &sepv);
        }
        push_range(&mut out, v, a, b);
        proof {
            if k == 0 {
                assert(ps.take(1) =~= seq![ps[0]]);
            }
        }
        k += 1;
    }
    assert(pieces(v@, rs@).take(m as int) == pieces(v@, rs@));
    out
}

// ── Splitting on a string pattern and replacing ─────────────────────────────

/// The pieces of `s` between non-overlapping, leftmost occurrences of `pat`
/// (`str::split` with a non-empty string pattern).
pub open spec fn split_str(s: Seq<char>, pat: Seq<char>) -> Seq<Seq<char>>
    decreases s.len(),
{
    if pat.len() > 0 && starts_with(s, pat) {
        seq![seq![]] + split_str(s.skip(pat.len() as int), pat)
    } else if s.len() == 0 {
        seq![seq![]]
    } else {
        let r = split_str(s.drop_first(), pat);
        r.update(0, seq![s[0]] + r[0])
    }
}

/// Splitting on a pattern always yields at least one piece.
pub proof fn lemma_split_str_nonempty(s: Seq<char>, pat: Seq<char>)
    ensures
        split_str(s, pat).len() >= 1,
    decreases s.len(),
{
    if pat.len() > 0 && starts_with(s, pat) {
        lemma_split_str_nonempty(s.skip(pat.len() as int), pat);
    } else if s.len() > 0 {
        lemma_split_str_nonempty(s.drop_first(), pat);
    }
}

/// Ranges of the pieces of `v` between occurrences of the non-empty `pat`.
pub fn split_str_ranges(v: &Vec<char>, pat: &str) -> (r: Vec<(usize, usize)>)
    requires
        pat@.len() > 0,
    ensures
        ranges_within(r@, v@.len() as int),
        pieces(v@, r@) == split_str(v@, pat@),
{
    let pv = chars_of(pat);
    let n = v.len();
    let mut done: Vec<(usize, usize)> = Vec::new();
    let mut start: usize = 0;
    let mut i: usize = 0;
    proof {
        assert(v@.skip(0) == v@);
        lemma_split_str_nonempty(v@, pat@);
        assert(v@.subrange(0, 0) + split_str(v@, pat@)[0] == split_str(v@, pat@)[0]);
        assert(split_str(v@, pat@) =~= seq![split_str(v@, pat@)[0]] + split_str(v@, pat@).drop_first());
    }
    while i < n
        invariant
            i <= n == v@.len(),
            start <= i,
            pv@ == pat@,
            pat@.len() > 0,
            ranges_within(done@, start as int),
            split_str(v@.skip(i as int), pat@).len() >= 1,
            split_str(v@, pat@) == pieces(v@, done@) + seq![
                v@.subrange(start as int, i as int) + split_str(v@.skip(i as int), pat@)[0],
            ] + split_str(v@.skip(i as int), pat@).drop_first(),
        decreases n - i,
    {
        let ghost rest = v@.skip(i as int);
        let ghost old_done = done@;
        if starts_with_at(v, i, &pv) {
            let ghost r2 = split_str(rest.skip(pat@.len() as int), pat@);
            proof {
                lemma_split_str_nonempty(rest.skip(pat@.len() as int), pat@);
                assert(rest.skip(pat@.len() as int) == v@.skip(i + pat@.len()));
                assert(split_str(rest, pat@) == seq![seq![]] + r2);
            }
            done.push((start, i));
            start = i + pv.len();
            i = start;
            proof {
                assert(pieces(v@, done@) =~= pieces(v@, old_done).push(v@.subrange(done@.last().0 as int, done@.last().1 as int)));
                assert(v@.subrange(start as int, start as int) + r2[0] == r2[0]);
                assert(r2 =~= seq![r2[0]] + r2.drop_first());
                assert(split_str(v@, pat@) =~= pieces(v@, done@) + seq![
                    v@.subrange(start as int, i as int) + split_str(v@.skip(i as int), pat@)[0],
                ] + split_str(v@.skip(i as int), pat@).drop_first());
            }
        } else {
            let ghost r1 = split_str(rest.drop_first(), pat@);
            proof {
                assert(rest.drop_first() == v@.skip(i + 1));
                lemma_split_str_nonempty(rest.drop_first(), pat@);
                assert(split_str(rest, pat@) == r1.update(0, seq![v@[i as int]] + r1[0]));
                assert(v@.subrange(start as int, i + 1) == v@.subrange(start as int, i as int).push(v@[i as int]));
                assert(r1.update(0, seq![v@[i as int]] + r1[0]).drop_first() =~= r1.drop_first());
                assert(v@.subrange(start as int, i as int) + (seq![v@[i as int]] + r1[0]) =~= v@.subrange(start as int, i + 1) + r1[0]);
            }
            i += 1;
        }
    }
    proof {
        assert(v@.skip(n as int) == Seq::<char>::empty());
        assert(split_str(Seq::<char>::empty(), pat@) == seq![Seq::<char>::empty()]);
        assert(v@.subrange(start as int, n as int) + Seq::<char>::empty() == v@.subrange(start as int, n as int));
    }
    done.push((start, n));
    assert(pieces(v@, done@) =~= split_str(v@, pat@));
    done
}

/// `s` with every non-overlapping, leftmost occurrence of the non-empty
/// `from` replaced by `to` (`str::replace`).
pub open spec fn replace_all(s: Seq<char>, from: Seq<char>, to: Seq<char>) -> Seq<char>
    decreases s.len(),
{
    if from.len() > 0 && starts_with(s, from) {
        to + replace_all(s.skip(from.len() as int), from, to)
    } else if s.len() == 0 {
        s
    } else {
        seq![s[0]] + replace_all(s.drop_first(), from, to)
    }
}

/// Replacing the empty text leaves the text as it is.
pub proof fn lemma_replace_all_empty(s: Seq<char>)
    ensures
        replace_all(s, Seq::empty(), Seq::empty()) == s,
    decreases s.len(),
{
    if s.len() > 0 {
        lemma_replace_all_empty(s.drop_first());
        assert(seq![s[0]] + s.drop_first() =~= s);
    }
}

/// [`replace_all`] on vectors.
pub fn replace_vec(v: &Vec<char>, from: &str, to: &str) -> (r: Vec<char>)
    requires
        from@.len() > 0,
    ensures
        r@ == replace_all(v@, from@, to@),
{
    let fv = chars_of(from);
    let tv = chars_of(to);
    let n = v.len();
    let mut out: Vec<char> = Vec::new();
    let mut i: usize = 0;
    assert(v@.skip(0) == v@);
    while i < n
        invariant
            i <= n == v@.len(),
            fv@ == from@,
            tv@ == to@,
            from@.len() > 0,
            replace_all(v@, from@, to@) == out@ + replace_all(v@.skip(i as int), from@, to@),
        decreases n - i,
    {
        let ghost rest = v@.skip(i as int);
        if starts_with_at(v, i, &fv) {
            assert(rest.skip(from@.len() as int) == v@.skip(i + from@.len()));
            push_all(&mut out, &tv);
            i = i + fv.len();
        } else {
            assert(rest.drop_first() == v@.skip(i + 1));
            out.push(v[i]);
            i += 1;
        }
    }
    assert(v@.skip(n as int) == Seq::<char>::empty());
    out
}

// ── Normalisation for comparisons ─────────────────────────────────────────────

/// The alphanumeric characters of `s` (and, when `apostrophes` is set, also
/// `'` and `’`), each replaced by its lowercase form.
pub open spec fn folded(s: Seq<char>, apostrophes: bool) -> Seq<char>
    decreases s.len(),
{
    if s.len() == 0 {
        seq![]
    } else {
        let c = s.last();
        folded(s.drop_last(), apostrophes) + if char_alphanumeric(c) || (apostrophes && (c == '\''
            || c == '\u{2019}')) {
            char_lowercase(c)
        } else {
            seq![]
        }
    }
}

/// [`folded`] of `v[from..to]`.
pub fn fold_range(v: &Vec<char>, from: usize, to: usize, apostrophes: bool) -> (r: Vec<char>)
    requires
        from <= to <= v@.len(),
    ensures
        r@ == folded(v@.subrange(from as int, to as int), apostrophes),
{
    let mut out: Vec<char> = Vec::new();
    let mut i = from;
    assert(v@.subrange(from as int, from as int) == Seq::<char>::empty());
    while i < to
        invariant
            from <= i <= to <= v@.len(),
            out@ == folded(v@.subrange(from as int, i as int), apostrophes),
        decreases to - i,
    {
        let c = v[i];
        assert(v@.subrange(from as int, i + 1).drop_last() == v@.subrange(from as int, i as int));
        if is_alphanumeric(c) || (apostrophes && (c == '\'' || c == '\u{2019}')) {
            let low = lowercase_of(c);
            push_all(&mut out, &low);
        } else {
            assert(out@ + Seq::<char>::empty() == out@);
        }
        i += 1;
    }
    out
}

// ── Decimal numbers ───────────────────────────────────────────────────────────

/// The ASCII digit for `d < 10`.
pub open spec fn digit_char(d: nat) -> char {
    if d == 0 { '0' } else if d == 1 { '1' } else if d == 2 { '2' } else if d == 3 { '3' }
    else if d == 4 { '4' } else if d == 5 { '5' } else if d == 6 { '6' } else if d == 7 { '7' }
    else if d == 8 { '8' } else { '9' }
}

/// Decimal representation of `n` without leading zeros (`{}`).
pub open spec fn decimal(n: nat) -> Seq<char>
    decreases n,
{
    if n < 10 {
        seq![digit_char(n)]
    } else {
        decimal(n / 10).push(digit_char(n % 10))
    }
}

/// Decimal representation of `n`, left-padded with `0` to at least `w`
/// characters (`{:0w}`).
pub open spec fn padded(n: nat, w: nat) -> Seq<char> {
    let d = decimal(n);
    if d.len() >= w {
        d
    } else {
        Seq::new((w - d.len()) as nat, |i: int| '0') + d
    }
}

fn digit_of(d: u64) -> (c: char)
    requires
        d < 10,
    ensures
        c == digit_char(d as nat),
{
    if d == 0 { '0' } else if d == 1 { '1' } else if d == 2 { '2' } else if d == 3 { '3' }
    else if d == 4 { '4' } else if d == 5 { '5' } else if d == 6 { '6' } else if d == 7 { '7' }
    else if d == 8 { '8' } else { '9' }
}

/// The characters of [`decimal`]`(n)`.
pub fn decimal_of(n: u64) -> (r: Vec<char>)
    ensures
        r@ == decimal(n as nat),
    decreases n,
{
    if n < 10 {
        let mut v = Vec::new();
        v.push(digit_of(n));
        v
    } else {
        let mut v = decimal_of(n / 10);
        v.push(digit_of(n % 10));
        v
    }
}

/// Appends [`padded`]`(n, w)` to `out`.
pub fn push_padded(out: &mut Vec<char>, n: u64, w: usize)
    ensures
        final(out)@ == old(out)@ + padded(n as nat, w as nat),
{
    let d = decimal_of(n);
    let ghost start = out@;
    if d.len() < w {
        let k = w - d.len();
        let mut i: usize = 0;
        while i < k
            invariant
                i <= k,
                out@ == start + Seq::new(i as nat, |j: int| '0'),
            decreases k - i,
        {
            out.push('0');
            assert(Seq::new((i + 1) as nat, |j: int| '0') =~= Seq::new(i as nat, |j: int| '0').push('0'));
            i += 1;
        }
    }
    push_all(out, &d);
    assert(out@ =~= start + padded(n as nat, w as nat));
}

} // verus!
