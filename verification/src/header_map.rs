//! Reading and writing request headers held in an `http::HeaderMap`.
use vstd::prelude::*;

use crate::text::push_char;
use vstd::string::StringSliceAdditionalSpecFns;

verus! {

#[verifier::external_type_specification]
#[verifier::external_body]
#[verifier::reject_recursive_types(T)]
pub struct ExHeaderMap<T>(http::HeaderMap<T>);

#[verifier::external_type_specification]
#[verifier::external_body]
pub struct ExHeaderValue(http::header::HeaderValue);

#[verifier::external_type_specification]
#[verifier::external_body]
pub struct ExInvalidHeaderValue(http::header::InvalidHeaderValue);

/// The `(name, value bytes)` pairs of a header map, in the order its iterator
/// yields them (every value of a name, the first one first).
pub uninterp spec fn header_entries(h: http::HeaderMap) -> Seq<(Seq<char>, Seq<u8>)>;

pub open spec fn ascii_lower(c: char) -> char {
    if 'A' <= c && c <= 'Z' {
        ((c as u32) + 32) as char
    } else {
        c
    }
}

/// `a` and `b` are equal up to ASCII case (`str::eq_ignore_ascii_case`).
pub open spec fn names_match(a: Seq<char>, b: Seq<char>) -> bool {
    a.len() == b.len() && forall|i: int| 0 <= i < a.len() ==> ascii_lower(#[trigger] a[i])
        == ascii_lower(b[i])
}

/// A byte `HeaderValue::to_str` accepts.
pub open spec fn is_visible_ascii(b: u8) -> bool {
    (32 <= b && b < 127) || b == 9
}

pub open spec fn visible_ascii(v: Seq<u8>) -> bool {
    forall|i: int| 0 <= i < v.len() ==> is_visible_ascii(#[trigger] v[i])
}

/// The characters of an ASCII byte string.
pub open spec fn ascii_chars(v: Seq<u8>) -> Seq<char> {
    v.map_values(|b: u8| b as char)
}

/// Index of the first entry named `name` (up to ASCII case).
pub open spec fn first_named(entries: Seq<(Seq<char>, Seq<u8>)>, name: Seq<char>) -> Option<int>
    decreases entries.len(),
{
    if entries.len() == 0 {
        None
    } else if names_match(entries[0].0, name) {
        Some(0)
    } else {
        match first_named(entries.drop_first(), name) {
            Some(i) => Some(i + 1),
            None => None,
        }
    }
}

/// The first value named `name` (up to ASCII case) that is visible ASCII, as text.
pub open spec fn header_text(entries: Seq<(Seq<char>, Seq<u8>)>, name: Seq<char>) -> Option<
    Seq<char>,
>
    decreases entries.len(),
{
    if entries.len() == 0 {
        None
    } else if names_match(entries[0].0, name) && visible_ascii(entries[0].1) {
        Some(ascii_chars(entries[0].1))
    } else {
        header_text(entries.drop_first(), name)
    }
}

/// The entries without those named `name`.
pub open spec fn without_named(entries: Seq<(Seq<char>, Seq<u8>)>, name: Seq<char>) -> Seq<
    (Seq<char>, Seq<u8>),
> {
    entries.filter(|e: (Seq<char>, Seq<u8>)| !names_match(e.0, name))
}

/// The entries after `HeaderMap::insert(name, value)`: the first entry of that
/// name takes the new value and the others of that name go; a name not yet present
/// is appended.
pub open spec fn inserted(entries: Seq<(Seq<char>, Seq<u8>)>, name: Seq<char>, value: Seq<u8>) -> Seq<
    (Seq<char>, Seq<u8>),
> {
    match first_named(entries, name) {
        None => entries.push((name, value)),
        Some(i) => entries.subrange(0, i).push((name, value)) + without_named(
            entries.subrange(i + 1, entries.len() as int),
            name,
        ),
    }
}

/// A name `HeaderName::from_static` accepts: lowercase letters, digits and `-`.
pub open spec fn static_header_name(name: Seq<char>) -> bool {
    &&& 0 < name.len() < 256
    &&& forall|i: int|
        0 <= i < name.len() ==> ('a' <= #[trigger] name[i] && name[i] <= 'z') || ('0' <= name[i]
            && name[i] <= '9') || name[i] == '-'
}

/// A character `HeaderValue::from_str` accepts (non-ASCII characters encode to
/// bytes at or above 128, which it accepts too).
pub open spec fn header_value_char(c: char) -> bool {
    (32 <= (c as u32) && (c as u32) != 127) || c == '\t'
}

pub open spec fn header_value_text(s: Seq<char>) -> bool {
    forall|i: int| 0 <= i < s.len() ==> header_value_char(#[trigger] s[i])
}

pub open spec fn entry_views(v: Seq<(String, Vec<u8>)>) -> Seq<(Seq<char>, Seq<u8>)> {
    v.map_values(|e: (String, Vec<u8>)| (e.0@, e.1@))
}

/// `HeaderMap::iter`, each name as its `&str` and each value as its bytes.
#[verifier::external_body]
pub(crate) fn header_map_entries(h: &http::HeaderMap) -> (r: Vec<(String, Vec<u8>)>)
    ensures
        entry_views(r@) == header_entries(*h),
{
    h.iter().map(|(k, v)| (k.as_str().to_string(), v.as_bytes().to_vec())).collect()
}

/// `HeaderMap::get` with a `&str` name, the value as its bytes. The map looks
/// names up without regard to ASCII case and gives the first value of the name,
/// which is also the first one its iterator yields; for a valid lowercase name it
/// finds a value exactly when the map holds one. (For a name that is not a valid
/// header name it finds none; which names those are is not restated here.)
#[verifier::external_body]
pub(crate) fn header_map_get(h: &http::HeaderMap, name: &str) -> (r: Option<Vec<u8>>)
    ensures
        r matches Some(v) ==> first_named(header_entries(*h), name@) matches Some(i)
            && header_entries(*h)[i].1 == v@,
        static_header_name(name@) ==> (r is None <==> first_named(header_entries(*h), name@) is None),
{
    h.get(name).map(|v| v.as_bytes().to_vec())
}

/// `HeaderMap::insert(HeaderName::from_static(name), HeaderValue::from_str(value)?)`.
/// The value is refused, and the map left as it was, exactly when it holds a
/// control character other than tab.
///
/// `insert` panics when its index table would have to grow beyond 32768 slots.
/// At that size the table grows again only once five times its distinct names
/// reach the slot count, or once it is full (24576 names). A map with at most
/// 6553 values (so at most 6553 distinct names) therefore never reaches either.
#[verifier::external_body]
pub(crate) fn header_map_insert(h: &mut http::HeaderMap, name: &'static str, value: &str) -> (r: Result<
    (),
    http::header::InvalidHeaderValue,
>)
    requires
        static_header_name(name@),
        header_entries(*old(h)).len() <= 6553,
    ensures
        r is Ok <==> header_value_text(value@),
        r is Ok ==> header_entries(*final(h)) == inserted(
            header_entries(*old(h)),
            name@,
            value.spec_bytes(),
        ),
        r is Err ==> header_entries(*final(h)) == header_entries(*old(h)),
{
    let v = http::header::HeaderValue::from_str(value)?;
    h.insert(http::header::HeaderName::from_static(name), v);
    Ok(())
}

proof fn lemma_header_text_skip(entries: Seq<(Seq<char>, Seq<u8>)>, name: Seq<char>, k: int)
    requires
        0 <= k <= entries.len(),
        forall|j: int|
            0 <= j < k ==> !(names_match(#[trigger] entries[j].0, name) && visible_ascii(
                entries[j].1,
            )),
    ensures
        header_text(entries, name) == header_text(entries.subrange(k, entries.len() as int), name),
    decreases k,
{
    if k > 0 {
        let t = entries.drop_first();
        assert forall|j: int| 0 <= j < k - 1 implies !(names_match(#[trigger] t[j].0, name)
            && visible_ascii(t[j].1)) by {
            assert(t[j] == entries[j + 1]);
        }
        lemma_header_text_skip(t, name, k - 1);
        assert(t.subrange(k - 1, t.len() as int) =~= entries.subrange(k, entries.len() as int));
        assert(!(names_match(entries[0].0, name) && visible_ascii(entries[0].1)));
    } else {
        assert(entries.subrange(0, entries.len() as int) =~= entries);
    }
}

pub proof fn lemma_first_named(entries: Seq<(Seq<char>, Seq<u8>)>, name: Seq<char>)
    ensures
        first_named(entries, name) matches Some(i) ==> 0 <= i < entries.len() && names_match(
            entries[i].0,
            name,
        ) && forall|j: int| 0 <= j < i ==> !names_match(#[trigger] entries[j].0, name),
    decreases entries.len(),
{
    if entries.len() > 0 {
        lemma_first_named(entries.drop_first(), name);
        if let Some(i) = first_named(entries, name) {
            if i > 0 {
                assert forall|j: int| 0 <= j < i implies !names_match(
                    #[trigger] entries[j].0,
                    name,
                ) by {
                    if j > 0 {
                        assert(entries[j] == entries.drop_first()[j - 1]);
                    }
                }
            }
        }
    }
}

fn ascii_lower_exec(c: char) -> (r: char)
    ensures
        r == ascii_lower(c),
{
    if 'A' <= c && c <= 'Z' {
        ((c as u8) + 32) as char
    } else {
        c
    }
}

/// `str::eq_ignore_ascii_case`.
fn names_match_exec(a: &str, b: &str) -> (r: bool)
    ensures
        r == names_match(a@, b@),
{
    let av = crate::text::chars_of(a);
    let bv = crate::text::chars_of(b);
    if av.len() != bv.len() {
        return false;
    }
    let mut i: usize = 0;
    while i < av.len()
        invariant
            i <= av.len() == bv.len(),
            av@ == a@,
            bv@ == b@,
            forall|j: int| 0 <= j < i ==> ascii_lower(#[trigger] av@[j]) == ascii_lower(bv@[j]),
        decreases av.len() - i,
    {
        if ascii_lower_exec(av[i]) != ascii_lower_exec(bv[i]) {
            return false;
        }
        i = i + 1;
    }
    true
}

/// `HeaderValue::to_str`: the value as text when every byte is visible ASCII.
fn visible_ascii_text(v: &Vec<u8>) -> (r: Option<String>)
    ensures
        r is Some <==> visible_ascii(v@),
        r matches Some(s) ==> s@ == ascii_chars(v@),
{
    let mut s = String::new();
    let mut i: usize = 0;
    while i < v.len()
        invariant
            i <= v.len(),
            forall|j: int| 0 <= j < i ==> is_visible_ascii(#[trigger] v@[j]),
            s@ == ascii_chars(v@.subrange(0, i as int)),
        decreases v.len() - i,
    {
        let b = v[i];
        if !((32 <= b && b < 127) || b == 9) {
            return None;
        }
        push_char(&mut s, b as char);
        proof {
            assert(ascii_chars(v@.subrange(0, i + 1)) =~= ascii_chars(v@.subrange(0, i as int)).push(
                b as char,
            ));
        }
        i = i + 1;
    }
    proof {
        assert(v@.subrange(0, v@.len() as int) =~= v@);
    }
    Some(s)
}

/// The first value of the header `name` (up to ASCII case) that is visible ASCII.
pub fn header_value(h: &http::HeaderMap, name: &str) -> (r: Option<String>)
    ensures
        r is Some <==> header_text(header_entries(*h), name@) is Some,
        r matches Some(s) ==> header_text(header_entries(*h), name@) == Some(s@),
{
    let ghost entries = header_entries(*h);
    if let Some(v) = header_map_get(h, name) {
        if let Some(s) = visible_ascii_text(&v) {
            proof {
                lemma_first_named(entries, name@);
                let i = first_named(entries, name@)->0;
                lemma_header_text_skip(entries, name@, i);
                let t = entries.subrange(i, entries.len() as int);
                assert(t[0] == entries[i]);
            }
            return Some(s);
        }
    }
    let all = header_map_entries(h);
    let mut i: usize = 0;
    while i < all.len()
        invariant
            i <= all.len(),
            entry_views(all@) == entries,
            entries == header_entries(*h),
            forall|j: int|
                0 <= j < i ==> !(names_match(#[trigger] entries[j].0, name@) && visible_ascii(
                    entries[j].1,
                )),
        decreases all.len() - i,
    {
        let ghost e = entries[i as int];
        proof {
            assert(e == (all@[i as int].0@, all@[i as int].1@));
        }
        if names_match_exec(all[i].0.as_str(), name) {
            if let Some(s) = visible_ascii_text(&all[i].1) {
                proof {
                    lemma_header_text_skip(entries, name@, i as int);
                    let t = entries.subrange(i as int, entries.len() as int);
                    assert(t[0] == entries[i as int]);
                }
                return Some(s);
            }
        }
        i = i + 1;
    }
    proof {
        lemma_header_text_skip(entries, name@, i as int);
        assert(entries.subrange(i as int, entries.len() as int).len() == 0);
    }
    None
}

/// An insertion adds at most one entry.
pub proof fn lemma_inserted_len(entries: Seq<(Seq<char>, Seq<u8>)>, name: Seq<char>, value: Seq<u8>)
    ensures
        inserted(entries, name, value).len() <= entries.len() + 1,
{
    lemma_first_named(entries, name);
    if let Some(i) = first_named(entries, name) {
        let rest = entries.subrange(i + 1, entries.len() as int);
        rest.lemma_filter_len(|e: (Seq<char>, Seq<u8>)| !names_match(e.0, name));
    }
}

/// The names the signature headers are written under are valid static header names.
pub proof fn lemma_signature_header_names()
    ensures
        static_header_name("signature-key"@),
        static_header_name("signature-input"@),
        static_header_name("signature"@),
{
    reveal_strlit("signature-key");
    reveal_strlit("signature-input");
    reveal_strlit("signature");
    assert("signature-key"@ =~= seq!['s', 'i', 'g', 'n', 'a', 't', 'u', 'r', 'e', '-', 'k', 'e', 'y']);
    assert("signature-input"@ =~= seq![
        's', 'i', 'g', 'n', 'a', 't', 'u', 'r', 'e', '-', 'i', 'n', 'p', 'u', 't',
    ]);
    assert("signature"@ =~= seq!['s', 'i', 'g', 'n', 'a', 't', 'u', 'r', 'e']);
}

// ---------------------------------------------------------------------------------------------
// Reading back what was written
// ---------------------------------------------------------------------------------------------

proof fn lemma_names_match_trans(a: Seq<char>, b: Seq<char>, c: Seq<char>)
    ensures
        names_match(a, a),
        names_match(a, b) ==> names_match(b, a),
        names_match(a, b) && names_match(b, c) ==> names_match(a, c),
        names_match(a, b) && !names_match(b, c) ==> !names_match(a, c),
{
    if names_match(a, b) && names_match(b, c) {
        assert forall|i: int| 0 <= i < a.len() implies ascii_lower(#[trigger] a[i]) == ascii_lower(
            c[i],
        ) by {
            assert(ascii_lower(a[i]) == ascii_lower(b[i]));
            assert(ascii_lower(b[i]) == ascii_lower(c[i]));
        }
    }
    if names_match(a, b) && names_match(a, c) {
        assert forall|i: int| 0 <= i < b.len() implies ascii_lower(#[trigger] b[i]) == ascii_lower(
            c[i],
        ) by {
            assert(ascii_lower(a[i]) == ascii_lower(b[i]));
            assert(ascii_lower(a[i]) == ascii_lower(c[i]));
        }
    }
}

/// Looking a name up in two lists one after the other.
proof fn lemma_header_text_concat(
    a: Seq<(Seq<char>, Seq<u8>)>,
    b: Seq<(Seq<char>, Seq<u8>)>,
    name: Seq<char>,
)
    ensures
        header_text(a + b, name) == match header_text(a, name) {
            Some(t) => Some(t),
            None => header_text(b, name),
        },
    decreases a.len(),
{
    if a.len() == 0 {
        assert(a + b =~= b);
    } else {
        lemma_header_text_concat(a.drop_first(), b, name);
        assert((a + b).drop_first() =~= a.drop_first() + b);
        assert((a + b)[0] == a[0]);
    }
}

/// Entries of another name do not change a lookup.
proof fn lemma_header_text_without(
    s: Seq<(Seq<char>, Seq<u8>)>,
    n: Seq<char>,
    name: Seq<char>,
)
    requires
        !names_match(n, name),
    ensures
        header_text(without_named(s, n), name) == header_text(s, name),
    decreases s.len(),
{
    let pred = |e: (Seq<char>, Seq<u8>)| !names_match(e.0, n);
    if s.len() > 0 {
        let init = s.drop_last();
        let last = s.last();
        lemma_header_text_without(init, n, name);
        assert(s =~= init + seq![last]);
        lemma_header_text_concat(init, seq![last], name);
        reveal(Seq::filter);
        assert(s.filter(pred) == if pred(last) {
            init.filter(pred).push(last)
        } else {
            init.filter(pred)
        });
        if pred(last) {
            assert(init.filter(pred).push(last) =~= init.filter(pred) + seq![last]);
            lemma_header_text_concat(init.filter(pred), seq![last], name);
        } else {
            lemma_names_match_trans(last.0, n, name);
            assert(!names_match(last.0, name));
            assert(seq![last][0] == last);
            assert(seq![last].drop_first() =~= Seq::<(Seq<char>, Seq<u8>)>::empty());
            assert(header_text(Seq::<(Seq<char>, Seq<u8>)>::empty(), name) is None);
            assert(header_text(seq![last], name) is None);
        }
    } else {
        reveal(Seq::filter);
        assert(s.filter(pred) =~= s);
    }
}

proof fn lemma_header_text_none(s: Seq<(Seq<char>, Seq<u8>)>, name: Seq<char>)
    requires
        forall|j: int| 0 <= j < s.len() ==> !names_match(#[trigger] s[j].0, name),
    ensures
        header_text(s, name) is None,
    decreases s.len(),
{
    if s.len() > 0 {
        let t = s.drop_first();
        assert forall|j: int| 0 <= j < t.len() implies !names_match(#[trigger] t[j].0, name) by {
            assert(t[j] == s[j + 1]);
        }
        lemma_header_text_none(t, name);
        assert(!names_match(s[0].0, name));
    }
}

/// A value just written under a name is what a lookup of that name reads.
pub proof fn lemma_header_text_inserted(
    entries: Seq<(Seq<char>, Seq<u8>)>,
    n: Seq<char>,
    value: Seq<u8>,
    name: Seq<char>,
)
    requires
        visible_ascii(value),
    ensures
        names_match(n, name) ==> header_text(inserted(entries, n, value), name) == Some(
            ascii_chars(value),
        ),
        !names_match(n, name) ==> header_text(inserted(entries, n, value), name) == header_text(
            entries,
            name,
        ),
{
    lemma_first_named(entries, n);
    lemma_names_match_trans(n, name, n);
    let one = seq![(n, value)];
    assert(one.drop_first() =~= Seq::<(Seq<char>, Seq<u8>)>::empty());
    assert(header_text(Seq::<(Seq<char>, Seq<u8>)>::empty(), name) is None);
    match first_named(entries, n) {
        None => {
            assert(entries.push((n, value)) =~= entries + one);
            lemma_header_text_concat(entries, one, name);
            if names_match(n, name) {
                assert forall|j: int| 0 <= j < entries.len() implies !names_match(
                    #[trigger] entries[j].0,
                    name,
                ) by {
                    lemma_names_match_trans(entries[j].0, name, n);
                    lemma_names_match_trans(name, n, n);
                    if names_match(entries[j].0, name) {
                        lemma_first_named_none(entries, n, j);
                    }
                }
                lemma_header_text_none(entries, name);
            }
        },
        Some(i) => {
            let pre = entries.subrange(0, i);
            let post = entries.subrange(i + 1, entries.len() as int);
            let ins = pre.push((n, value)) + without_named(post, n);
            assert(pre.push((n, value)) + without_named(post, n) =~= pre + (one + without_named(
                post,
                n,
            )));
            lemma_header_text_concat(pre, one + without_named(post, n), name);
            lemma_header_text_concat(one, without_named(post, n), name);
            assert forall|j: int| 0 <= j < pre.len() implies !names_match(#[trigger] pre[j].0, name)
                || !names_match(n, name) by {
                assert(pre[j] == entries[j]);
                if names_match(n, name) && names_match(pre[j].0, name) {
                    lemma_names_match_trans(pre[j].0, name, n);
                    lemma_names_match_trans(name, n, n);
                }
            }
            if names_match(n, name) {
                lemma_header_text_none(pre, name);
            } else {
                lemma_header_text_without(post, n, name);
                assert(entries =~= pre + (seq![entries[i]] + post));
                lemma_header_text_concat(pre, seq![entries[i]] + post, name);
                lemma_header_text_concat(seq![entries[i]], post, name);
                lemma_names_match_trans(entries[i].0, n, name);
                assert(seq![entries[i]].drop_first() =~= Seq::<(Seq<char>, Seq<u8>)>::empty());
            }
        },
    }
}

proof fn lemma_first_named_none(entries: Seq<(Seq<char>, Seq<u8>)>, n: Seq<char>, j: int)
    requires
        first_named(entries, n) is None,
        0 <= j < entries.len(),
    ensures
        !names_match(entries[j].0, n),
    decreases entries.len(),
{
    if j > 0 {
        lemma_first_named_none(entries.drop_first(), n, j - 1);
        assert(entries.drop_first()[j - 1] == entries[j]);
    }
}

} // verus!
