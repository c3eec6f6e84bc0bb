//! Character-sequence helpers shared by the header, token and signature parsers.
//!
//! Every helper is stated over `Seq<char>` (the view of `&str` and `String`), so that the
//! parsers above can be specified in terms of the same small vocabulary: finding the first
//! occurrence of a pattern, trimming Unicode white space, splitting on a separator.
use vstd::prelude::*;

verus! {

// ---------------------------------------------------------------------------------------------
// Specifications
// ---------------------------------------------------------------------------------------------

/// Unicode `White_Space` characters (the set `char::is_whitespace` accepts).
pub open spec fn is_ws(c: char) -> bool {
    let n = c as u32;
    ||| (9 <= n && n <= 13)
    ||| n == 32
    ||| n == 0x85
    ||| n == 0xa0
    ||| n == 0x1680
    ||| (0x2000 <= n && n <= 0x200a)
    ||| n == 0x2028
    ||| n == 0x2029
    ||| n == 0x202f
    ||| n == 0x205f
    ||| n == 0x3000
}

/// `s` with leading white space removed.
pub open spec fn trim_start(s: Seq<char>) -> Seq<char>
    decreases s.len(),
{
    if s.len() > 0 && is_ws(s[0]) {
        trim_start(s.subrange(1, s.len() as int))
    } else {
        s
    }
}

/// `s` with trailing white space removed.
pub open spec fn trim_end(s: Seq<char>) -> Seq<char>
    decreases s.len(),
{
    if s.len() > 0 && is_ws(s[s.len() - 1]) {
        trim_end(s.subrange(0, s.len() - 1))
    } else {
        s
    }
}

/// `s` with leading and trailing white space removed (`str::trim`).
pub open spec fn trim(s: Seq<char>) -> Seq<char> {
    trim_end(trim_start(s))
}

/// `s` with every leading and trailing `c` removed (`str::trim_matches` on one char).
pub open spec fn trim_char_start(s: Seq<char>, c: char) -> Seq<char>
    decreases s.len(),
{
    if s.len() > 0 && s[0] == c {
        trim_char_start(s.subrange(1, s.len() as int), c)
    } else {
        s
    }
}

/// `s` with every trailing `c` removed (`str::trim_end_matches` on one char).
pub open spec fn trim_char_end(s: Seq<char>, c: char) -> Seq<char>
    decreases s.len(),
{
    if s.len() > 0 && s[s.len() - 1] == c {
        trim_char_end(s.subrange(0, s.len() - 1), c)
    } else {
        s
    }
}

/// `s` with every leading and trailing `c` removed.
pub open spec fn trim_char(s: Seq<char>, c: char) -> Seq<char> {
    trim_char_end(trim_char_start(s, c), c)
}

/// `p` occurs in `h` starting at index `i`.
pub open spec fn matches_at(h: Seq<char>, p: Seq<char>, i: int) -> bool {
    0 <= i && i + p.len() <= h.len() && h.subrange(i, i + p.len()) == p
}

/// Index of the first occurrence of `p` in `h` at or after `i`.
pub open spec fn find_from(h: Seq<char>, p: Seq<char>, i: int) -> Option<int>
    decreases h.len() + 1 - i,
{
    if i < 0 || i + p.len() > h.len() {
        None
    } else if matches_at(h, p, i) {
        Some(i)
    } else {
        find_from(h, p, i + 1)
    }
}

/// Index of the first occurrence of `p` in `h` (`str::find`).
pub open spec fn find(h: Seq<char>, p: Seq<char>) -> Option<int> {
    find_from(h, p, 0)
}

/// Index of the first occurrence of the character `c` in `h`.
pub open spec fn find_char(h: Seq<char>, c: char) -> Option<int> {
    find(h, seq![c])
}

/// `p` occurs somewhere in `h` (`str::contains`).
pub open spec fn contains(h: Seq<char>, p: Seq<char>) -> bool {
    find(h, p) is Some
}

/// `h` begins with `p` (`str::starts_with`).
pub open spec fn starts_with(h: Seq<char>, p: Seq<char>) -> bool {
    p.len() <= h.len() && h.subrange(0, p.len() as int) == p
}

/// `h` ends with `p` (`str::ends_with`).
pub open spec fn ends_with(h: Seq<char>, p: Seq<char>) -> bool {
    p.len() <= h.len() && h.subrange(h.len() - p.len(), h.len() as int) == p
}

/// `h` with the prefix `p` removed, when `h` begins with `p` (`str::strip_prefix`).
pub open spec fn strip_prefix(h: Seq<char>, p: Seq<char>) -> Option<Seq<char>> {
    if starts_with(h, p) {
        Some(h.subrange(p.len() as int, h.len() as int))
    } else {
        None
    }
}

/// The pieces of `s` between occurrences of `sep` (`str::split` on one char).
pub open spec fn split(s: Seq<char>, sep: char) -> Seq<Seq<char>>
    decreases s.len(),
{
    match find_char(s, sep) {
        None => seq![s],
        Some(i) => if 0 <= i < s.len() {
            seq![s.subrange(0, i)] + split(s.subrange(i + 1, s.len() as int), sep)
        } else {
            seq![s]
        },
    }
}

/// The first piece of `s` before `sep` (`str::split(sep).next()`).
pub open spec fn split_first(s: Seq<char>, sep: char) -> Seq<char> {
    match find_char(s, sep) {
        None => s,
        Some(i) => s.subrange(0, i),
    }
}

/// Index of the first white-space character of `s`, or `s.len()`.
pub open spec fn first_ws(s: Seq<char>) -> int
    decreases s.len(),
{
    if s.len() == 0 {
        0
    } else if is_ws(s[0]) {
        0
    } else {
        1 + first_ws(s.subrange(1, s.len() as int))
    }
}

/// Maximal runs of non-white-space characters of `s` (`str::split_whitespace`).
pub open spec fn split_ws(s: Seq<char>) -> Seq<Seq<char>>
    decreases s.len(),
{
    let t = trim_start(s);
    if t.len() == 0 {
        seq![]
    } else {
        let i = first_ws(t);
        if 0 < i <= t.len() && t.len() <= s.len() {
            seq![t.subrange(0, i)] + split_ws(t.subrange(i, t.len() as int))
        } else {
            seq![t]
        }
    }
}

// ---------------------------------------------------------------------------------------------
// Lemmas
// ---------------------------------------------------------------------------------------------

pub proof fn lemma_trim_start_suffix(s: Seq<char>)
    ensures
        trim_start(s).len() <= s.len(),
        trim_start(s) == s.subrange(s.len() - trim_start(s).len(), s.len() as int),
        forall|j: int| 0 <= j < s.len() - trim_start(s).len() ==> is_ws(#[trigger] s[j]),
        trim_start(s).len() > 0 ==> !is_ws(trim_start(s)[0]),
    decreases s.len(),
{
    if s.len() > 0 && is_ws(s[0]) {
        let r = s.subrange(1, s.len() as int);
        lemma_trim_start_suffix(r);
        assert forall|j: int| 0 <= j < s.len() - trim_start(s).len() implies is_ws(#[trigger] s[j]) by {
            if j > 0 {
                assert(s[j] == r[j - 1]);
            }
        }
    } else {
        assert(s == s.subrange(0, s.len() as int));
    }
}

pub proof fn lemma_trim_end_prefix(s: Seq<char>)
    ensures
        trim_end(s).len() <= s.len(),
        trim_end(s) == s.subrange(0, trim_end(s).len() as int),
        forall|j: int| trim_end(s).len() <= j < s.len() ==> is_ws(#[trigger] s[j]),
        trim_end(s).len() > 0 ==> !is_ws(trim_end(s)[trim_end(s).len() - 1]),
    decreases s.len(),
{
    if s.len() > 0 && is_ws(s[s.len() - 1]) {
        let r = s.subrange(0, s.len() - 1);
        lemma_trim_end_prefix(r);
        assert forall|j: int| trim_end(s).len() <= j < s.len() implies is_ws(#[trigger] s[j]) by {
            if j < s.len() - 1 {
                assert(s[j] == r[j]);
            }
        }
    } else {
        assert(s == s.subrange(0, s.len() as int));
    }
}

pub proof fn lemma_trim_char_end_prefix(s: Seq<char>, c: char)
    ensures
        trim_char_end(s, c).len() <= s.len(),
        trim_char_end(s, c) == s.subrange(0, trim_char_end(s, c).len() as int),
        forall|j: int| trim_char_end(s, c).len() <= j < s.len() ==> #[trigger] s[j] == c,
        trim_char_end(s, c).len() > 0 ==> trim_char_end(s, c)[trim_char_end(s, c).len() - 1]
            != c,
    decreases s.len(),
{
    if s.len() > 0 && s[s.len() - 1] == c {
        let r = s.subrange(0, s.len() - 1);
        lemma_trim_char_end_prefix(r, c);
        assert forall|j: int| trim_char_end(s, c).len() <= j < s.len() implies #[trigger] s[j]
            == c by {
            if j < s.len() - 1 {
                assert(s[j] == r[j]);
            }
        }
    } else {
        assert(s == s.subrange(0, s.len() as int));
    }
}

/// Trimming a sequence whose ends are not white space leaves it unchanged.
pub proof fn lemma_trim_noop(s: Seq<char>)
    requires
        s.len() > 0 ==> !is_ws(s[0]) && !is_ws(s[s.len() - 1]),
    ensures
        trim(s) == s,
{
}

/// What `find_from` returns: the least matching index at or after `i`.
pub proof fn lemma_find_from(h: Seq<char>, p: Seq<char>, i: int)
    requires
        0 <= i,
    ensures
        match find_from(h, p, i) {
            Some(k) => i <= k && matches_at(h, p, k) && forall|j: int|
                i <= j < k ==> !#[trigger] matches_at(h, p, j),
            None => forall|j: int| i <= j ==> !#[trigger] matches_at(h, p, j),
        },
    decreases h.len() + 1 - i,
{
    if i + p.len() > h.len() {
    } else if matches_at(h, p, i) {
    } else {
        lemma_find_from(h, p, i + 1);
    }
}

/// A least matching index is what `find` returns.
pub proof fn lemma_find_is(h: Seq<char>, p: Seq<char>, k: int)
    requires
        matches_at(h, p, k),
        forall|j: int| 0 <= j < k ==> !#[trigger] matches_at(h, p, j),
    ensures
        find(h, p) == Some(k),
{
    lemma_find_from(h, p, 0);
    match find(h, p) {
        Some(m) => {
            if m < k {
                assert(!matches_at(h, p, m));
            } else if m > k {
                assert(!matches_at(h, p, k));
            }
        },
        None => {
            assert(!matches_at(h, p, k));
        },
    }
}

/// No matching index means `find` returns `None`.
pub proof fn lemma_find_none(h: Seq<char>, p: Seq<char>)
    requires
        forall|j: int| 0 <= j ==> !#[trigger] matches_at(h, p, j),
    ensures
        find(h, p) is None,
{
    lemma_find_from(h, p, 0);
    if let Some(m) = find(h, p) {
        assert(matches_at(h, p, m));
    }
}

/// A character occurs at index `j` of `h` exactly when `seq![c]` matches there.
pub proof fn lemma_matches_char(h: Seq<char>, c: char, j: int)
    ensures
        matches_at(h, seq![c], j) <==> (0 <= j < h.len() && h[j] == c),
{
    if 0 <= j < h.len() {
        if h[j] == c {
            assert(h.subrange(j, j + 1) =~= seq![c]);
        } else {
            assert(h.subrange(j, j + 1)[0] == h[j]);
        }
    }
}

/// `find_char` returns the first index holding `c`.
pub proof fn lemma_find_char(h: Seq<char>, c: char)
    ensures
        match find_char(h, c) {
            Some(k) => 0 <= k < h.len() && h[k] == c && forall|j: int|
                0 <= j < k ==> #[trigger] h[j] != c,
            None => forall|j: int| 0 <= j < h.len() ==> #[trigger] h[j] != c,
        },
{
    lemma_find_from(h, seq![c], 0);
    match find_char(h, c) {
        Some(k) => {
            lemma_matches_char(h, c, k);
            assert forall|j: int| 0 <= j < k implies #[trigger] h[j] != c by {
                lemma_matches_char(h, c, j);
            }
        },
        None => {
            assert forall|j: int| 0 <= j < h.len() implies #[trigger] h[j] != c by {
                lemma_matches_char(h, c, j);
            }
        },
    }
}

/// A first index holding `c` is what `find_char` returns.
pub proof fn lemma_find_char_is(h: Seq<char>, c: char, k: int)
    requires
        0 <= k < h.len(),
        h[k] == c,
        forall|j: int| 0 <= j < k ==> #[trigger] h[j] != c,
    ensures
        find_char(h, c) == Some(k),
{
    lemma_find_char(h, c);
    match find_char(h, c) {
        Some(m) => {
            if m < k {
                assert(h[m] != c);
            } else if m > k {
                assert(h[k] != c);
            }
        },
        None => {
            assert(h[k] != c);
        },
    }
}

/// `c` not occurring in `h` means `find_char` returns `None`.
pub proof fn lemma_find_char_none(h: Seq<char>, c: char)
    requires
        forall|j: int| 0 <= j < h.len() ==> #[trigger] h[j] != c,
    ensures
        find_char(h, c) is None,
{
    lemma_find_char(h, c);
}

/// `c` does not occur in `s` (stated recursively, so that literals can be checked by unfolding).
pub open spec fn no_char(s: Seq<char>, c: char) -> bool
    decreases s.len(),
{
    s.len() == 0 || (s[0] != c && no_char(s.drop_first(), c))
}

pub proof fn lemma_no_char(s: Seq<char>, c: char)
    requires
        no_char(s, c),
    ensures
        forall|k: int| 0 <= k < s.len() ==> #[trigger] s[k] != c,
    decreases s.len(),
{
    if s.len() > 0 {
        lemma_no_char(s.drop_first(), c);
        assert forall|k: int| 0 <= k < s.len() implies #[trigger] s[k] != c by {
            if k > 0 {
                assert(s[k] == s.drop_first()[k - 1]);
            }
        }
    }
}

pub proof fn lemma_no_char_concat(a: Seq<char>, b: Seq<char>, c: char)
    requires
        no_char(a, c),
        no_char(b, c),
    ensures
        no_char(a + b, c),
    decreases a.len(),
{
    if a.len() > 0 {
        lemma_no_char_concat(a.drop_first(), b, c);
        assert((a + b).drop_first() =~= a.drop_first() + b);
    } else {
        assert(a + b =~= b);
    }
}

/// Splitting `x + sep + y` on `sep` splits `x` and `y` separately.
pub proof fn lemma_split_concat(x: Seq<char>, y: Seq<char>, sep: char)
    ensures
        split(x + seq![sep] + y, sep) == split(x, sep) + split(y, sep),
    decreases x.len(),
{
    let s = x + seq![sep] + y;
    lemma_find_char(x, sep);
    match find_char(x, sep) {
        None => {
            assert(s[x.len() as int] == sep);
            assert forall|j: int| 0 <= j < x.len() implies #[trigger] s[j] != sep by {
                assert(s[j] == x[j]);
            }
            lemma_find_char_is(s, sep, x.len() as int);
            assert(s.subrange(0, x.len() as int) =~= x);
            assert(s.subrange(x.len() as int + 1, s.len() as int) =~= y);
            assert(split(x, sep) == seq![x]);
        },
        Some(k) => {
            assert(s[k] == sep);
            assert forall|j: int| 0 <= j < k implies #[trigger] s[j] != sep by {
                assert(s[j] == x[j]);
            }
            lemma_find_char_is(s, sep, k);
            let x2 = x.subrange(k + 1, x.len() as int);
            lemma_split_concat(x2, y, sep);
            assert(s.subrange(0, k) =~= x.subrange(0, k));
            assert(s.subrange(k + 1, s.len() as int) =~= x2 + seq![sep] + y);
            assert(split(x, sep) == seq![x.subrange(0, k)] + split(x2, sep));
            assert(seq![x.subrange(0, k)] + split(x2, sep) + split(y, sep) =~= seq![
                x.subrange(0, k),
            ] + (split(x2, sep) + split(y, sep)));
        },
    }
}

/// A sequence without `sep` splits into itself.
pub proof fn lemma_split_single(s: Seq<char>, sep: char)
    requires
        forall|k: int| 0 <= k < s.len() ==> #[trigger] s[k] != sep,
    ensures
        split(s, sep) == seq![s],
{
    lemma_find_char_none(s, sep);
}

// ---------------------------------------------------------------------------------------------
// Executable helpers
// ---------------------------------------------------------------------------------------------

/// Whether `c` is Unicode white space (`char::is_whitespace`).
pub(crate) fn char_is_whitespace(c: char) -> (b: bool)
    ensures
        b == is_ws(c),
{
    let n = c as u32;
    (9 <= n && n <= 13) || n == 32 || n == 0x85 || n == 0xa0 || n == 0x1680 || (0x2000 <= n && n
        <= 0x200a) || n == 0x2028 || n == 0x2029 || n == 0x202f || n == 0x205f || n == 0x3000
}

/// `s.push(c)`.
#[verifier::external_body]
pub(crate) fn push_char(s: &mut String, c: char)
    ensures
        final(s)@ == old(s)@.push(c),
{
    s.push(c)
}

/// The characters of `s`, in order.
pub fn chars_of(s: &str) -> (v: Vec<char>)
    ensures
        v@ == s@,
{
    let mut v: Vec<char> = Vec::new();
    for c in it: s.chars()
        invariant
            v@ == it.seq().take(it.index() as int),
    {
        v.push(c);
    }
    v
}

/// A `String` holding `v[from..to]`.
pub fn string_of(v: &Vec<char>, from: usize, to: usize) -> (s: String)
    requires
        from <= to <= v.len(),
    ensures
        s@ == v@.subrange(from as int, to as int),
{
    let mut s = String::new();
    let mut i = from;
    while i < to
        invariant
            from <= i <= to <= v.len(),
            s@ == v@.subrange(from as int, i as int),
        decreases to - i,
    {
        push_char(&mut s, v[i]);
        assert(v@.subrange(from as int, i + 1) == v@.subrange(from as int, i as int).push(v@[i as int]));
        i = i + 1;
    }
    s
}

/// `p` occurs in `h` at index `i`.
pub fn matches_at_exec(h: &Vec<char>, p: &Vec<char>, i: usize) -> (b: bool)
    ensures
        b == matches_at(h@, p@, i as int),
{
    if p.len() > h.len() || i > h.len() - p.len() {
        return false;
    }
    let mut k: usize = 0;
    while k < p.len()
        invariant
            i + p.len() <= h.len(),
            k <= p.len(),
            forall|j: int| 0 <= j < k ==> h@[i + j] == p@[j],
        decreases p.len() - k,
    {
        if h[i + k] != p[k] {
            assert(h@.subrange(i as int, i + p.len())[k as int] != p@[k as int]);
            return false;
        }
        k = k + 1;
    }
    assert(h@.subrange(i as int, i + p.len()) =~= p@);
    true
}

/// Index of the first occurrence of `p` in `h` at or after `from`.
pub fn find_from_exec(h: &Vec<char>, p: &Vec<char>, from: usize) -> (r: Option<usize>)
    ensures
        r matches Some(k) ==> find_from(h@, p@, from as int) == Some(k as int),
        r is None ==> find_from(h@, p@, from as int) is None,
{
    if p.len() > h.len() {
        return None;
    }
    let last = h.len() - p.len();
    let mut i = from;
    while i <= last
        invariant
            last == h.len() - p.len(),
            from <= i,
            find_from(h@, p@, from as int) == find_from(h@, p@, i as int),
        decreases last + 1 - i,
    {
        if matches_at_exec(h, p, i) {
            return Some(i);
        }
        if i == last {
            assert(find_from(h@, p@, i + 1) is None);
            return None;
        }
        i = i + 1;
    }
    None
}

/// Index of the first occurrence of `p` in `h`.
pub fn find_exec(h: &Vec<char>, p: &Vec<char>) -> (r: Option<usize>)
    ensures
        r matches Some(k) ==> find(h@, p@) == Some(k as int),
        r is None ==> find(h@, p@) is None,
{
    find_from_exec(h, p, 0)
}

/// Index of the first `c` in `h[from..]`, counted from the start of `h`.
pub fn find_char_from(h: &Vec<char>, c: char, from: usize) -> (r: Option<usize>)
    requires
        from <= h.len(),
    ensures
        r matches Some(k) ==> from <= k < h.len() && h@[k as int] == c && forall|j: int|
            from <= j < k ==> #[trigger] h@[j] != c,
        r is None ==> forall|j: int| from <= j < h.len() ==> #[trigger] h@[j] != c,
{
    let mut i = from;
    while i < h.len()
        invariant
            from <= i <= h.len(),
            forall|j: int| from <= j < i ==> #[trigger] h@[j] != c,
        decreases h.len() - i,
    {
        if h[i] == c {
            return Some(i);
        }
        i = i + 1;
    }
    None
}

/// Index of the first `c` in `h`.
pub fn find_char_exec(h: &Vec<char>, c: char) -> (r: Option<usize>)
    ensures
        r matches Some(k) ==> find_char(h@, c) == Some(k as int),
        r is None ==> find_char(h@, c) is None,
{
    let r = find_char_from(h, c, 0);
    proof {
        match r {
            Some(k) => lemma_find_char_is(h@, c, k as int),
            None => lemma_find_char_none(h@, c),
        }
    }
    r
}

/// Start and end indices of `trim(v[from..to])` within `v`.
pub fn trim_range(v: &Vec<char>, from: usize, to: usize) -> (r: (usize, usize))
    requires
        from <= to <= v.len(),
    ensures
        from <= r.0 <= r.1 <= to,
        v@.subrange(r.0 as int, r.1 as int) == trim(v@.subrange(from as int, to as int)),
{
    let ghost s = v@.subrange(from as int, to as int);
    let mut a = from;
    while a < to && char_is_whitespace(v[a])
        invariant
            from <= a <= to <= v.len(),
            s == v@.subrange(from as int, to as int),
            trim_start(s) == trim_start(v@.subrange(a as int, to as int)),
        decreases to - a,
    {
        assert(v@.subrange(a as int, to as int).subrange(1, to - a) =~= v@.subrange(a + 1, to as int));
        a = a + 1;
    }
    proof {
        let t = v@.subrange(a as int, to as int);
        if a < to {
            assert(t[0] == v@[a as int]);
        }
        assert(trim_start(t) == t);
    }
    let mut b = to;
    while b > a && char_is_whitespace(v[b - 1])
        invariant
            from <= a <= b <= to <= v.len(),
            trim(s) == trim_end(v@.subrange(a as int, b as int)),
        decreases b - a,
    {
        assert(v@.subrange(a as int, b as int).subrange(0, b - 1 - a) =~= v@.subrange(a as int, b - 1));
        b = b - 1;
    }
    proof {
        let t = v@.subrange(a as int, b as int);
        if a < b {
            assert(t[t.len() - 1] == v@[b - 1]);
        }
    }
    (a, b)
}

/// Index ranges of the pieces of `v` between occurrences of `sep`, in order.
pub fn split_ranges(v: &Vec<char>, sep: char) -> (r: Vec<(usize, usize)>)
    ensures
        r@.len() == split(v@, sep).len(),
        forall|k: int|
            #![trigger r@[k]]
            0 <= k < r@.len() ==> r@[k].0 <= r@[k].1 <= v@.len() && v@.subrange(
                r@[k].0 as int,
                r@[k].1 as int,
            ) == split(v@, sep)[k],
{
    let mut r: Vec<(usize, usize)> = Vec::new();
    let mut start: usize = 0;
    let ghost mut done: Seq<Seq<char>> = Seq::empty();
    proof {
        assert(v@.subrange(0, v@.len() as int) =~= v@);
        assert(done + split(v@, sep) =~= split(v@, sep));
    }
    loop
        invariant
            start <= v.len(),
            split(v@, sep) == done + split(v@.subrange(start as int, v@.len() as int), sep),
            r@.len() == done.len(),
            forall|k: int|
                #![trigger r@[k]]
                0 <= k < r@.len() ==> r@[k].0 <= r@[k].1 <= v@.len() && v@.subrange(
                    r@[k].0 as int,
                    r@[k].1 as int,
                ) == done[k],
        decreases v.len() - start,
    {
        let ghost tail = v@.subrange(start as int, v@.len() as int);
        let end = match find_char_from(v, sep, start) {
            Some(e) => e,
            None => v.len(),
        };
        proof {
            if end < v.len() {
                assert forall|j: int| 0 <= j < end - start implies #[trigger] tail[j] != sep by {
                    assert(tail[j] == v@[start + j]);
                }
                lemma_find_char_is(tail, sep, end - start);
            } else {
                assert forall|j: int| 0 <= j < tail.len() implies #[trigger] tail[j] != sep by {
                    assert(tail[j] == v@[start + j]);
                }
                lemma_find_char_none(tail, sep);
            }
        }
        let ghost p = v@.subrange(start as int, end as int);
        proof {
            assert(tail.subrange(0, end - start) =~= p);
        }
        let ghost old_r = r@;
        let ghost old_done = done;
        r.push((start, end));
        proof {
            done = done.push(p);
            assert forall|k: int| #![trigger r@[k]] 0 <= k < r@.len() implies r@[k].0 <= r@[k].1 <= v@.len()
                && v@.subrange(r@[k].0 as int, r@[k].1 as int) == done[k] by {
                if k < old_r.len() {
                    assert(r@[k] == old_r[k]);
                    assert(done[k] == old_done[k]);
                }
            }
        }
        if end == v.len() {
            proof {
                assert(p =~= tail);
                assert(split(v@, sep) =~= done);
            }
            return r;
        }
        proof {
            assert(tail.subrange(end - start + 1, tail.len() as int) =~= v@.subrange(
                end + 1,
                v@.len() as int,
            ));
            assert(done.drop_last() + seq![p] =~= done);
        }
        start = end + 1;
    }
}

/// `trim_start` stops at the first non-white-space character.
pub proof fn lemma_trim_start_at(s: Seq<char>, k: int)
    requires
        0 <= k <= s.len(),
        forall|j: int| 0 <= j < k ==> is_ws(#[trigger] s[j]),
        k == s.len() || !is_ws(s[k]),
    ensures
        trim_start(s) == s.subrange(k, s.len() as int),
    decreases k,
{
    if k == 0 {
        assert(s.subrange(0, s.len() as int) =~= s);
    } else {
        assert(is_ws(s[0]));
        let t = s.subrange(1, s.len() as int);
        assert forall|j: int| 0 <= j < k - 1 implies is_ws(#[trigger] t[j]) by {
            assert(t[j] == s[j + 1]);
        }
        if k < s.len() {
            assert(t[k - 1] == s[k]);
        }
        lemma_trim_start_at(t, k - 1);
        assert(t.subrange(k - 1, t.len() as int) =~= s.subrange(k, s.len() as int));
    }
}

/// `first_ws` finds the first white-space character.
pub proof fn lemma_first_ws_at(s: Seq<char>, k: int)
    requires
        0 <= k <= s.len(),
        forall|j: int| 0 <= j < k ==> !is_ws(#[trigger] s[j]),
        k == s.len() || is_ws(s[k]),
    ensures
        first_ws(s) == k,
    decreases k,
{
    if k > 0 {
        assert(!is_ws(s[0]));
        let t = s.subrange(1, s.len() as int);
        assert forall|j: int| 0 <= j < k - 1 implies !is_ws(#[trigger] t[j]) by {
            assert(t[j] == s[j + 1]);
        }
        if k < s.len() {
            assert(t[k - 1] == s[k]);
        }
        lemma_first_ws_at(t, k - 1);
    }
}

/// `trim_char_start` stops at the first character other than `c`.
pub proof fn lemma_trim_char_start_at(s: Seq<char>, c: char, k: int)
    requires
        0 <= k <= s.len(),
        forall|j: int| 0 <= j < k ==> #[trigger] s[j] == c,
        k == s.len() || s[k] != c,
    ensures
        trim_char_start(s, c) == s.subrange(k, s.len() as int),
    decreases k,
{
    if k == 0 {
        assert(s.subrange(0, s.len() as int) =~= s);
    } else {
        assert(s[0] == c);
        let t = s.subrange(1, s.len() as int);
        assert forall|j: int| 0 <= j < k - 1 implies #[trigger] t[j] == c by {
            assert(t[j] == s[j + 1]);
        }
        if k < s.len() {
            assert(t[k - 1] == s[k]);
        }
        lemma_trim_char_start_at(t, c, k - 1);
        assert(t.subrange(k - 1, t.len() as int) =~= s.subrange(k, s.len() as int));
    }
}

/// `trim_char_end` stops at the last character other than `c`.
pub proof fn lemma_trim_char_end_at(s: Seq<char>, c: char, k: int)
    requires
        0 <= k <= s.len(),
        forall|j: int| k <= j < s.len() ==> #[trigger] s[j] == c,
        k == 0 || s[k - 1] != c,
    ensures
        trim_char_end(s, c) == s.subrange(0, k),
    decreases s.len() - k,
{
    if k == s.len() {
        assert(s.subrange(0, k) =~= s);
    } else {
        assert(s[s.len() - 1] == c);
        let t = s.subrange(0, s.len() - 1);
        assert forall|j: int| k <= j < t.len() implies #[trigger] t[j] == c by {
            assert(t[j] == s[j]);
        }
        if k > 0 {
            assert(t[k - 1] == s[k - 1]);
        }
        lemma_trim_char_end_at(t, c, k);
        assert(t.subrange(0, k) =~= s.subrange(0, k));
    }
}

/// Bounds of `trim_char(v[from..to], c)` within `v`.
pub fn trim_char_range(v: &Vec<char>, from: usize, to: usize, c: char) -> (r: (usize, usize))
    requires
        from <= to <= v.len(),
    ensures
        from <= r.0 <= r.1 <= to,
        v@.subrange(r.0 as int, r.1 as int) == trim_char(v@.subrange(from as int, to as int), c),
{
    let ghost s = v@.subrange(from as int, to as int);
    let mut a = from;
    while a < to && v[a] == c
        invariant
            from <= a <= to <= v.len(),
            s == v@.subrange(from as int, to as int),
            forall|j: int| 0 <= j < a - from ==> #[trigger] s[j] == c,
        decreases to - a,
    {
        proof {
            assert(s[a - from] == v@[a as int]);
        }
        a = a + 1;
    }
    proof {
        if a < to {
            assert(s[a - from] == v@[a as int]);
        }
        lemma_trim_char_start_at(s, c, a - from);
        assert(s.subrange(a - from, s.len() as int) =~= v@.subrange(a as int, to as int));
    }
    let ghost t = v@.subrange(a as int, to as int);
    let mut b = to;
    while b > a && v[b - 1] == c
        invariant
            from <= a <= b <= to <= v.len(),
            t == v@.subrange(a as int, to as int),
            forall|j: int| b - a <= j < t.len() ==> #[trigger] t[j] == c,
        decreases b - a,
    {
        proof {
            assert(t[b - 1 - a] == v@[b - 1]);
        }
        b = b - 1;
    }
    proof {
        if b > a {
            assert(t[b - 1 - a] == v@[b - 1]);
        }
        lemma_trim_char_end_at(t, c, b - a);
        assert(t.subrange(0, b - a) =~= v@.subrange(a as int, b as int));
    }
    (a, b)
}

/// Index ranges of the white-space separated words of `v[from..to]`, in order.
pub fn split_ws_ranges(v: &Vec<char>, from: usize, to: usize) -> (r: Vec<(usize, usize)>)
    requires
        from <= to <= v.len(),
    ensures
        r@.len() == split_ws(v@.subrange(from as int, to as int)).len(),
        forall|k: int|
            #![trigger r@[k]]
            0 <= k < r@.len() ==> from <= r@[k].0 <= r@[k].1 <= to && v@.subrange(
                r@[k].0 as int,
                r@[k].1 as int,
            ) == split_ws(v@.subrange(from as int, to as int))[k],
{
    let ghost whole = split_ws(v@.subrange(from as int, to as int));
    let mut r: Vec<(usize, usize)> = Vec::new();
    let mut i = from;
    let ghost mut done: Seq<Seq<char>> = Seq::empty();
    proof {
        assert(done + whole =~= whole);
    }
    loop
        invariant
            from <= i <= to <= v.len(),
            whole == split_ws(v@.subrange(from as int, to as int)),
            whole == done + split_ws(v@.subrange(i as int, to as int)),
            r@.len() == done.len(),
            forall|k: int|
                #![trigger r@[k]]
                0 <= k < r@.len() ==> from <= r@[k].0 <= r@[k].1 <= to && v@.subrange(
                    r@[k].0 as int,
                    r@[k].1 as int,
                ) == done[k],
        decreases to - i,
    {
        let ghost si = v@.subrange(i as int, to as int);
        let mut a = i;
        while a < to && char_is_whitespace(v[a])
            invariant
                i <= a <= to <= v.len(),
                si == v@.subrange(i as int, to as int),
                forall|j: int| 0 <= j < a - i ==> is_ws(#[trigger] si[j]),
            decreases to - a,
        {
            proof {
                assert(si[a - i] == v@[a as int]);
            }
            a = a + 1;
        }
        proof {
            if a < to {
                assert(si[a - i] == v@[a as int]);
            }
            lemma_trim_start_at(si, a - i);
            assert(si.subrange(a - i, si.len() as int) =~= v@.subrange(a as int, to as int));
        }
        let ghost t = v@.subrange(a as int, to as int);
        if a == to {
            proof {
                assert(split_ws(si) =~= Seq::<Seq<char>>::empty());
                assert(whole =~= done);
            }
            return r;
        }
        let mut b = a;
        while b < to && !char_is_whitespace(v[b])
            invariant
                a <= b <= to <= v.len(),
                t == v@.subrange(a as int, to as int),
                forall|j: int| 0 <= j < b - a ==> !is_ws(#[trigger] t[j]),
            decreases to - b,
        {
            proof {
                assert(t[b - a] == v@[b as int]);
            }
            b = b + 1;
        }
        proof {
            if b < to {
                assert(t[b - a] == v@[b as int]);
            }
            lemma_first_ws_at(t, b - a);
            assert(t.subrange(0, b - a) =~= v@.subrange(a as int, b as int));
            assert(t.subrange(b - a, t.len() as int) =~= v@.subrange(b as int, to as int));
            assert(split_ws(si) == seq![v@.subrange(a as int, b as int)] + split_ws(
                v@.subrange(b as int, to as int),
            ));
        }
        let ghost old_r = r@;
        let ghost old_done = done;
        r.push((a, b));
        proof {
            done = done.push(v@.subrange(a as int, b as int));
            assert(whole =~= done + split_ws(v@.subrange(b as int, to as int)));
            assert forall|k: int| #![trigger r@[k]] 0 <= k < r@.len() implies from <= r@[k].0
                <= r@[k].1 <= to && v@.subrange(r@[k].0 as int, r@[k].1 as int) == done[k] by {
                if k < old_r.len() {
                    assert(r@[k] == old_r[k]);
                    assert(done[k] == old_done[k]);
                }
            }
        }
        i = b;
    }
}

/// `trim_start` of a concatenation.
pub proof fn lemma_trim_start_concat(a: Seq<char>, b: Seq<char>)
    ensures
        trim_start(a).len() > 0 ==> trim_start(a + b) == trim_start(a) + b,
        trim_start(a).len() == 0 ==> trim_start(a + b) == trim_start(b),
    decreases a.len(),
{
    if a.len() == 0 {
        assert(a + b =~= b);
    } else if is_ws(a[0]) {
        let a1 = a.subrange(1, a.len() as int);
        lemma_trim_start_concat(a1, b);
        assert((a + b).subrange(1, (a + b).len() as int) =~= a1 + b);
    } else {
        assert((a + b)[0] == a[0]);
    }
}

/// `trim_start` leaves nothing more to trim.
pub proof fn lemma_trim_start_idempotent(s: Seq<char>)
    ensures
        trim_start(trim_start(s)) == trim_start(s),
    decreases s.len(),
{
    if s.len() > 0 && is_ws(s[0]) {
        lemma_trim_start_idempotent(s.subrange(1, s.len() as int));
    }
}

/// The words of `s` are those of `s` without its leading white space.
pub proof fn lemma_split_ws_trim(s: Seq<char>)
    ensures
        split_ws(s) == split_ws(trim_start(s)),
{
    lemma_trim_start_idempotent(s);
    lemma_trim_start_suffix(s);
}

/// `first_ws` of a concatenation whose second part begins with white space.
pub proof fn lemma_first_ws_concat(a: Seq<char>, b: Seq<char>)
    requires
        b.len() > 0,
        is_ws(b[0]),
    ensures
        first_ws(a + b) == first_ws(a),
        0 <= first_ws(a) <= a.len(),
    decreases a.len(),
{
    if a.len() == 0 {
        assert(a + b =~= b);
    } else if is_ws(a[0]) {
        assert((a + b)[0] == a[0]);
    } else {
        let a1 = a.subrange(1, a.len() as int);
        lemma_first_ws_concat(a1, b);
        assert((a + b).subrange(1, (a + b).len() as int) =~= a1 + b);
        assert((a + b)[0] == a[0]);
    }
}

/// A space separates words: the words of `x + " " + y` are those of `x`, then those of `y`.
pub proof fn lemma_split_ws_space(x: Seq<char>, y: Seq<char>)
    ensures
        split_ws(x + seq![' '] + y) == split_ws(x) + split_ws(y),
    decreases x.len(),
{
    let sp = seq![' '] + y;
    assert(x + seq![' '] + y =~= x + sp);
    assert(is_ws(' ')) by {
        assert((' ' as u32) == 32);
    }
    let t = trim_start(x);
    lemma_trim_start_concat(x, sp);
    lemma_trim_start_suffix(x);
    if t.len() == 0 {
        lemma_trim_start_concat(seq![' '], y);
        assert(trim_start(seq![' ']).len() == 0) by {
            lemma_trim_start_at(seq![' '], 1);
        }
        assert(seq![' '] + y =~= sp);
        lemma_split_ws_trim(x + sp);
        lemma_split_ws_trim(y);
        assert(split_ws(x) =~= Seq::<Seq<char>>::empty());
        assert(split_ws(x) + split_ws(y) =~= split_ws(y));
    } else {
        let i = first_ws(t);
        lemma_first_ws_concat(t, sp);
        assert(trim_start(x + sp) == t + sp);
        assert(i > 0) by {
            lemma_trim_start_suffix(x);
            lemma_first_ws_concat(t.subrange(1, t.len() as int), sp);
        }
        let rest = t.subrange(i, t.len() as int);
        assert((t + sp).subrange(0, i) =~= t.subrange(0, i));
        assert((t + sp).subrange(i, (t + sp).len() as int) =~= rest + sp);
        assert(rest + sp =~= rest + seq![' '] + y);
        lemma_split_ws_space(rest, y);
        assert(split_ws(x + sp) == seq![t.subrange(0, i)] + split_ws(rest + sp));
        assert(split_ws(x) == seq![t.subrange(0, i)] + split_ws(rest));
        assert(split_ws(x + sp) =~= split_ws(x) + split_ws(y));
    }
}

/// A word without white space is its own only word.
pub proof fn lemma_split_ws_word(w: Seq<char>)
    requires
        w.len() > 0,
        forall|i: int| 0 <= i < w.len() ==> !is_ws(#[trigger] w[i]),
    ensures
        split_ws(w) == seq![w],
{
    lemma_trim_start_at(w, 0);
    assert(w.subrange(0, w.len() as int) =~= w);
    lemma_first_ws_at(w, w.len() as int);
    let e = w.subrange(w.len() as int, w.len() as int);
    assert(e =~= Seq::<char>::empty());
    lemma_trim_start_at(e, 0);
    assert(e.subrange(0, 0) =~= e);
    assert(split_ws(e) =~= Seq::<Seq<char>>::empty());
    assert(split_ws(w) =~= seq![w]);
}

} // verus!
