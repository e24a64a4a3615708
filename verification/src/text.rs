//! Character-level text predicates and the executable routines that decide them.
//!
//! Every routine here works on the characters of a string (`Seq<char>`), which is
//! how Verus sees `str` and `String`. For valid UTF-8 the byte-level `str` methods
//! of std (`starts_with`, `ends_with`, `contains`, `trim`, `eq_ignore_ascii_case`)
//! agree with these character-level definitions.
use vstd::prelude::*;

verus! {

broadcast use vstd::string::group_string_axioms;

/// Unicode `White_Space`, the property that `char::is_whitespace` tests.
pub open spec fn is_ws(c: char) -> bool {
    let n = c as u32;
    ||| 0x09 <= n <= 0x0d
    ||| n == 0x20
    ||| n == 0x85
    ||| n == 0xa0
    ||| n == 0x1680
    ||| 0x2000 <= n <= 0x200a
    ||| n == 0x2028
    ||| n == 0x2029
    ||| n == 0x202f
    ||| n == 0x205f
    ||| n == 0x3000
}

/// `s` with its leading white space removed.
pub open spec fn trim_start(s: Seq<char>) -> Seq<char>
    decreases s.len(),
{
    if s.len() > 0 && is_ws(s[0]) {
        trim_start(s.drop_first())
    } else {
        s
    }
}

/// `s` with its trailing white space removed.
pub open spec fn trim_end(s: Seq<char>) -> Seq<char>
    decreases s.len(),
{
    if s.len() > 0 && is_ws(s.last()) {
        trim_end(s.drop_last())
    } else {
        s
    }
}

/// `s` with white space removed at both ends, as `str::trim` does.
pub open spec fn trim(s: Seq<char>) -> Seq<char> {
    trim_end(trim_start(s))
}

/// `s` with every leading occurrence of `c` removed, as `str::trim_start_matches` does.
pub open spec fn strip_leading(s: Seq<char>, c: char) -> Seq<char>
    decreases s.len(),
{
    if s.len() > 0 && s[0] == c {
        strip_leading(s.drop_first(), c)
    } else {
        s
    }
}

/// Removing the leading `c`s leaves the rest of `s` after its longest run of
/// leading `c`s: `s` is that run followed by the result, which does not start
/// with `c`.
pub proof fn law_strip_leading(s: Seq<char>, c: char)
    ensures
        exists|k: int|
            0 <= k <= s.len() && strip_leading(s, c) == s.skip(k) && (forall|j: int|
                0 <= j < k ==> #[trigger] s[j] == c),
        strip_leading(s, c).len() == 0 || strip_leading(s, c)[0] != c,
    decreases s.len(),
{
    if s.len() > 0 && s[0] == c {
        law_strip_leading(s.drop_first(), c);
        let k = choose|k: int|
            0 <= k <= s.drop_first().len() && strip_leading(s.drop_first(), c) == s.drop_first().skip(k)
                && (forall|j: int| 0 <= j < k ==> #[trigger] s.drop_first()[j] == c);
        assert(s.drop_first().skip(k) =~= s.skip(k + 1));
        assert forall|j: int| 0 <= j < k + 1 implies #[trigger] s[j] == c by {
            if j > 0 {
                assert(s[j] == s.drop_first()[j - 1]);
            }
        }
    } else {
        assert(s.skip(0) =~= s);
    }
}

pub open spec fn starts_with(s: Seq<char>, p: Seq<char>) -> bool {
    p.len() <= s.len() && s.subrange(0, p.len() as int) == p
}

pub open spec fn ends_with(s: Seq<char>, p: Seq<char>) -> bool {
    p.len() <= s.len() && s.subrange(s.len() - p.len(), s.len() as int) == p
}

pub open spec fn occurs_at(s: Seq<char>, p: Seq<char>, i: int) -> bool {
    0 <= i && i + p.len() <= s.len() && s.subrange(i, i + p.len()) == p
}

pub open spec fn contains(s: Seq<char>, p: Seq<char>) -> bool {
    exists|i: int| occurs_at(s, p, i)
}

/// The ASCII lower-case form of `c`; other characters are unchanged.
pub open spec fn ascii_lower(c: char) -> char {
    if 'A' <= c <= 'Z' {
        ((c as u32) + 32) as char
    } else {
        c
    }
}

pub open spec fn eq_ignore_ascii_case(a: Seq<char>, b: Seq<char>) -> bool {
    a.len() == b.len() && forall|i: int| 0 <= i < a.len() ==> ascii_lower(a[i]) == ascii_lower(b[i])
}

/// Index of the first occurrence of `c` in `s` at or after `from`, if any.
pub open spec fn first_index_from(s: Seq<char>, c: char, from: int) -> Option<int>
    decreases s.len() - from,
{
    if from < 0 || from >= s.len() {
        None
    } else if s[from] == c {
        Some(from)
    } else {
        first_index_from(s, c, from + 1)
    }
}

/// Index of the first occurrence of `c` in `s`, if any.
pub open spec fn first_index(s: Seq<char>, c: char) -> Option<int> {
    first_index_from(s, c, 0)
}

/// Copies the characters of `s` into a vector.
pub fn chars_of(s: &str) -> (v: Vec<char>)
    ensures
        v@ == s@,
{
    let mut v: Vec<char> = Vec::new();
    for c in it: s.chars()
        invariant
            v@ == it.seq().take(it.index()),
            it.seq() == s@,
    {
        v.push(c);
    }
    v
}

/// Decides `is_ws`.
pub fn is_whitespace(c: char) -> (r: bool)
    ensures
        r == is_ws(c),
{
    let n = c as u32;
    (0x09 <= n && n <= 0x0d) || n == 0x20 || n == 0x85 || n == 0xa0 || n == 0x1680 || (0x2000
        <= n && n <= 0x200a) || n == 0x2028 || n == 0x2029 || n == 0x202f || n == 0x205f || n
        == 0x3000
}

pub proof fn lemma_trim_start_step(s: Seq<char>, i: int)
    requires
        0 <= i < s.len(),
        is_ws(s[i]),
    ensures
        trim_start(s.subrange(i, s.len() as int)) == trim_start(s.subrange(i + 1, s.len() as int)),
{
    assert(s.subrange(i, s.len() as int).drop_first() =~= s.subrange(i + 1, s.len() as int));
}

pub proof fn lemma_trim_end_step(s: Seq<char>, j: int)
    requires
        0 < j <= s.len(),
        is_ws(s[j - 1]),
    ensures
        trim_end(s.subrange(0, j)) == trim_end(s.subrange(0, j - 1)),
{
    assert(s.subrange(0, j).drop_last() =~= s.subrange(0, j - 1));
}

/// Bounds of `trim(s[from..to])` within `s`.
pub fn trim_bounds(s: &Vec<char>, from: usize, to: usize) -> (r: (usize, usize))
    requires
        from <= to <= s.len(),
    ensures
        from <= r.0 <= r.1 <= to,
        s@.subrange(r.0 as int, r.1 as int) == trim(s@.subrange(from as int, to as int)),
{
    let ghost t = s@.subrange(from as int, to as int);
    assert(t.subrange(0, t.len() as int) =~= t);
    let mut i = from;
    while i < to && is_whitespace(s[i])
        invariant
            from <= i <= to <= s.len(),
            t == s@.subrange(from as int, to as int),
            trim_start(t) == trim_start(t.subrange(i - from, t.len() as int)),
        decreases to - i,
    {
        proof {
            lemma_trim_start_step(t, i - from);
            assert(t.subrange(i - from + 1, t.len() as int) == t.subrange(
                i + 1 - from,
                t.len() as int,
            ));
        }
        i = i + 1;
    }
    let ghost u = s@.subrange(i as int, to as int);
    assert(u =~= t.subrange(i - from, t.len() as int));
    assert(trim_start(u) == u);
    assert(u.subrange(0, u.len() as int) =~= u);
    let mut j = to;
    while j > i && is_whitespace(s[j - 1])
        invariant
            i <= j <= to <= s.len(),
            u == s@.subrange(i as int, to as int),
            trim_end(u) == trim_end(u.subrange(0, j - i)),
        decreases j - i,
    {
        proof {
            lemma_trim_end_step(u, j - i);
        }
        j = j - 1;
    }
    assert(u.subrange(0, j - i) =~= s@.subrange(i as int, j as int));
    (i, j)
}

/// Decides whether `p` occurs in `s` starting at index `i`.
pub fn matches_at(s: &Vec<char>, p: &Vec<char>, i: usize) -> (r: bool)
    ensures
        r == occurs_at(s@, p@, i as int),
{
    if p.len() > s.len() || i > s.len() - p.len() {
        return false;
    }
    let mut k: usize = 0;
    while k < p.len()
        invariant
            i + p.len() <= s.len(),
            k <= p.len(),
            forall|m: int| 0 <= m < k ==> s@[i + m] == p@[m],
        decreases p.len() - k,
    {
        if s[i + k] != p[k] {
            assert(s@.subrange(i as int, i + p.len())[k as int] != p@[k as int]);
            return false;
        }
        k = k + 1;
    }
    assert(s@.subrange(i as int, i + p.len()) =~= p@);
    true
}

/// Decides `starts_with`.
pub fn has_prefix(s: &Vec<char>, p: &Vec<char>) -> (r: bool)
    ensures
        r == starts_with(s@, p@),
{
    matches_at(s, p, 0)
}

/// Decides `ends_with`.
pub fn has_suffix(s: &Vec<char>, p: &Vec<char>) -> (r: bool)
    ensures
        r == ends_with(s@, p@),
{
    if p.len() > s.len() {
        return false;
    }
    matches_at(s, p, s.len() - p.len())
}

/// Decides `contains`.
pub fn has_infix(s: &Vec<char>, p: &Vec<char>) -> (r: bool)
    ensures
        r == contains(s@, p@),
{
    if p.len() > s.len() {
        assert forall|i: int| !occurs_at(s@, p@, i) by {}
        return false;
    }
    let last = s.len() - p.len();
    let mut i: usize = 0;
    loop
        invariant
            last + p.len() == s.len(),
            i <= last,
            forall|k: int| 0 <= k < i ==> !occurs_at(s@, p@, k),
        ensures
            forall|k: int| 0 <= k <= last ==> !occurs_at(s@, p@, k),
        decreases last - i,
    {
        if matches_at(s, p, i) {
            return true;
        }
        if i == last {
            break;
        }
        i = i + 1;
    }
    assert forall|k: int| !occurs_at(s@, p@, k) by {
        if 0 <= k <= last {
        }
    }
    false
}

/// Decides `ascii_lower(a) == ascii_lower(b)`.
fn same_ignoring_ascii_case(a: char, b: char) -> (r: bool)
    ensures
        r == (ascii_lower(a) == ascii_lower(b)),
{
    let x = a as u32;
    let y = b as u32;
    let lx = if 0x41 <= x && x <= 0x5a { x + 32 } else { x };
    let ly = if 0x41 <= y && y <= 0x5a { y + 32 } else { y };
    assert(ascii_lower(a) as u32 == lx);
    assert(ascii_lower(b) as u32 == ly);
    lx == ly
}

/// Decides whether two strings are equal.
pub fn same_text(a: &str, b: &str) -> (r: bool)
    ensures
        r == (a@ == b@),
{
    let x = chars_of(a);
    let y = chars_of(b);
    if x.len() != y.len() {
        assert(x@.len() != y@.len());
        return false;
    }
    let mut i: usize = 0;
    while i < x.len()
        invariant
            x@ == a@,
            y@ == b@,
            x.len() == y.len(),
            i <= x.len(),
            forall|k: int| 0 <= k < i ==> x@[k] == y@[k],
        decreases x.len() - i,
    {
        if x[i] != y[i] {
            assert(x@[i as int] != y@[i as int]);
            assert(x@ != y@);
            return false;
        }
        i = i + 1;
    }
    assert(x@ =~= y@);
    true
}

/// Decides `eq_ignore_ascii_case`.
pub fn equal_ignoring_ascii_case(a: &Vec<char>, b: &Vec<char>) -> (r: bool)
    ensures
        r == eq_ignore_ascii_case(a@, b@),
{
    if a.len() != b.len() {
        return false;
    }
    let mut i: usize = 0;
    while i < a.len()
        invariant
            a.len() == b.len(),
            i <= a.len(),
            forall|k: int| 0 <= k < i ==> ascii_lower(a@[k]) == ascii_lower(b@[k]),
        decreases a.len() - i,
    {
        if !same_ignoring_ascii_case(a[i], b[i]) {
            return false;
        }
        i = i + 1;
    }
    true
}

/// Index at which `strip_leading(s[from..], c)` begins.
pub fn strip_leading_from(s: &Vec<char>, c: char) -> (r: usize)
    ensures
        r <= s.len(),
        s@.subrange(r as int, s.len() as int) == strip_leading(s@, c),
{
    let mut i: usize = 0;
    assert(s@.subrange(0, s.len() as int) =~= s@);
    while i < s.len() && s[i] == c
        invariant
            i <= s.len(),
            strip_leading(s@, c) == strip_leading(s@.subrange(i as int, s.len() as int), c),
        decreases s.len() - i,
    {
        assert(s@.subrange(i as int, s.len() as int).drop_first() =~= s@.subrange(
            i + 1,
            s.len() as int,
        ));
        i = i + 1;
    }
    i
}

pub proof fn lemma_first_index_is(s: Seq<char>, c: char, i: int)
    requires
        0 <= i < s.len(),
        s[i] == c,
        forall|k: int| 0 <= k < i ==> s[k] != c,
    ensures
        first_index(s, c) == Some(i),
{
    lemma_first_index_from_is(s, c, 0, i);
}

proof fn lemma_first_index_from_is(s: Seq<char>, c: char, from: int, i: int)
    requires
        0 <= from <= i < s.len(),
        s[i] == c,
        forall|k: int| from <= k < i ==> s[k] != c,
    ensures
        first_index_from(s, c, from) == Some(i),
    decreases i - from,
{
    if from < i {
        lemma_first_index_from_is(s, c, from + 1, i);
    }
}

pub proof fn lemma_first_index_none(s: Seq<char>, c: char)
    requires
        forall|k: int| 0 <= k < s.len() ==> s[k] != c,
    ensures
        first_index(s, c) is None,
{
    lemma_first_index_from_none(s, c, 0);
}

proof fn lemma_first_index_from_none(s: Seq<char>, c: char, from: int)
    requires
        0 <= from,
        forall|k: int| from <= k < s.len() ==> s[k] != c,
    ensures
        first_index_from(s, c, from) is None,
    decreases s.len() - from,
{
    if from < s.len() {
        lemma_first_index_from_none(s, c, from + 1);
    }
}

/// First index of `c` in `s[from..to]`, in the coordinates of `s`.
pub fn find_between(s: &Vec<char>, c: char, from: usize, to: usize) -> (r: Option<usize>)
    requires
        from <= to <= s.len(),
    ensures
        match r {
            Some(i) => from <= i < to && first_index(s@.subrange(from as int, to as int), c)
                == Some(i - from),
            None => first_index(s@.subrange(from as int, to as int), c) is None,
        },
{
    let ghost sub = s@.subrange(from as int, to as int);
    let mut i = from;
    while i < to
        invariant
            from <= i <= to <= s.len(),
            sub == s@.subrange(from as int, to as int),
            forall|k: int| from <= k < i ==> s@[k] != c,
        decreases to - i,
    {
        if s[i] == c {
            proof {
                assert forall|k: int| 0 <= k < i - from implies sub[k] != c by {
                    assert(sub[k] == s@[from + k]);
                }
                lemma_first_index_is(sub, c, i - from);
            }
            return Some(i);
        }
        i = i + 1;
    }
    proof {
        assert forall|k: int| 0 <= k < sub.len() implies sub[k] != c by {
            assert(sub[k] == s@[from + k]);
        }
        lemma_first_index_none(sub, c);
    }
    None
}

} // verus!
