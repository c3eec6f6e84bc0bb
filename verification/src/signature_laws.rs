//! What a signer writes in `Signature-Input` is what a verifier reads back.
use vstd::prelude::*;

use crate::codec::{base64url_decoded, base64url_encoded, is_base64url_char};
use crate::header_map::{
    ascii_chars, ascii_lower, header_text, header_value_text, inserted, lemma_header_text_inserted,
    names_match, visible_ascii,
};
use crate::keys::{ed25519_signature_of, ed25519_signature_valid};
use crate::signature::{
    authorization_extras, base_component_names, covered_components, covered_list, covered_names,
    decimal, digit_char, digit_value, digits_value, first_missing_component, has_component,
    is_digit, join, joined_names, jwk_public_key, jwk_secret_key, key_jwt_text,
    lemma_digits_value_push, options_usable, outbound_entries, outbound_extras,
    outbound_input_text, outbound_key_text, outbound_result, outbound_signature,
    outbound_signature_text, outbound_signed, outbound_signed_by_clock, parens_in_order,
    parses_as_u64, public_x_of, quote, quoted_names, request_signature, request_signature_by_clock,
    signature_base, signature_check, signature_created,
    signature_encoding, signature_params, signature_value, signature_value_text, unsigned_digits,
    SignatureError, SignatureVerifyOptions,
};
use vstd::utf8::{encode_utf8, is_ascii_chars, is_ascii_chars_encode_utf8};
use crate::text::{
    find, find_char, is_ws, lemma_find_char_is, lemma_find_is, lemma_find_none,
    lemma_find_char_none, lemma_split_ws_space, lemma_split_ws_word, lemma_trim_char_end_at,
    lemma_trim_char_start_at, lemma_trim_noop, matches_at, split_first, split_ws, trim, trim_char,
};

verus! {

/// A component identifier that the covered-components list gives back:
/// non-empty, not quoted at either end, and free of white space and parentheses.
pub open spec fn component_name_ok(n: Seq<char>) -> bool {
    &&& n.len() > 0
    &&& n[0] != '"'
    &&& n[n.len() - 1] != '"'
    &&& forall|i: int| 0 <= i < n.len() ==> !is_ws(#[trigger] n[i]) && n[i] != '(' && n[i] != ')'
}

/// A component identifier that does not hide the creation time: it holds no
/// `created=`.
pub open spec fn created_name_ok(n: Seq<char>) -> bool {
    find(n, "created="@) is None
}

/// A printable ASCII character (space to tilde).
pub open spec fn printable(c: char) -> bool {
    ' ' <= c && c <= '~'
}

/// Text of printable ASCII characters.
pub open spec fn printable_text(t: Seq<char>) -> bool {
    forall|i: int| 0 <= i < t.len() ==> printable(#[trigger] t[i])
}

proof fn lemma_decimal(n: nat)
    ensures
        decimal(n).len() > 0,
        forall|i: int| 0 <= i < decimal(n).len() ==> is_digit(#[trigger] decimal(n)[i]),
        digits_value(decimal(n)) == n,
    decreases n,
{
    let c = digit_char(n % 10);
    assert(digit_value(c) == n % 10);
    if n >= 10 {
        lemma_decimal(n / 10);
        let d = decimal(n / 10);
        assert(decimal(n) == d.push(c));
        lemma_digits_value_push(d, c);
        assert(digits_value(decimal(n)) == (n / 10) * 10 + n % 10);
        assert(forall|i: int| 0 <= i < d.len() ==> #[trigger] decimal(n)[i] == d[i]);
    } else {
        assert(decimal(n) == seq![c]);
        lemma_digits_value_push(Seq::<char>::empty(), c);
        assert(Seq::<char>::empty().push(c) =~= seq![c]);
    }
}

proof fn lemma_digit_char_facts(c: char)
    requires
        is_digit(c),
    ensures
        !is_ws(c),
        c != '+',
        c != ';',
        c != '=',
        c != '(',
        c != ')',
{
}

proof fn lemma_quoted_word(n: Seq<char>)
    requires
        component_name_ok(n),
    ensures
        quote(n).len() > 0,
        forall|i: int| 0 <= i < quote(n).len() ==> !is_ws(#[trigger] quote(n)[i]),
        forall|i: int|
            0 <= i < quote(n).len() ==> #[trigger] quote(n)[i] != '(' && quote(n)[i] != ')',
        trim_char(quote(n), '"') == n,
{
    let q = quote(n);
    assert forall|i: int| 0 <= i < q.len() implies !is_ws(#[trigger] q[i]) && q[i] != '(' && q[i]
        != ')' by {
        if 0 < i < q.len() - 1 {
            assert(q[i] == n[i - 1]);
        }
        assert(!is_ws('"')) by {
            assert(('"' as u32) == 34);
        }
    }
    lemma_trim_char_start_at(q, '"', 1);
    let s = q.subrange(1, q.len() as int);
    assert(s[s.len() - 1] == '"');
    assert(s[s.len() - 2] == n[n.len() - 1]);
    lemma_trim_char_end_at(s, '"', s.len() - 1);
    assert(s.subrange(0, s.len() - 1) =~= n);
}

/// The quoted names joined by spaces split back into the quoted names.
proof fn lemma_split_quoted(names: Seq<Seq<char>>)
    requires
        forall|k: int| 0 <= k < names.len() ==> component_name_ok(#[trigger] names[k]),
    ensures
        split_ws(joined_names(names)) == names.map_values(
            |n: Seq<char>| quote(n),
        ),
        covered_list(quoted_names(names)) == names,
    decreases names.len(),
{
    let q = quoted_names(names);
    if names.len() == 0 {
        lemma_trim_noop_empty();
        assert(q =~= Seq::<Seq<char>>::empty());
        assert(covered_list(q) =~= names);
    } else {
        let init = names.drop_last();
        let last = names.last();
        assert(component_name_ok(names[names.len() - 1]));
        lemma_quoted_word(last);
        lemma_split_quoted(init);
        let qi = quoted_names(init);
        assert(q.drop_last() =~= qi);
        assert(q.last() == quote(last));
        lemma_split_ws_word(quote(last));
        if names.len() == 1 {
            assert(join(q, seq![' ']) == q[0]);
            assert(split_ws(join(q, seq![' '])) =~= q);
        } else {
            assert(join(q, seq![' ']) == join(qi, seq![' ']) + seq![' '] + quote(last));
            lemma_split_ws_space(join(qi, seq![' ']), quote(last));
            assert(split_ws(join(q, seq![' '])) =~= q);
        }
        assert(covered_list(q) == covered_list(qi).push(last));
        assert(covered_list(q) =~= names);
    }
}

proof fn lemma_trim_noop_empty()
    ensures
        split_ws(Seq::<char>::empty()) == Seq::<Seq<char>>::empty(),
{
    crate::text::lemma_trim_start_at(Seq::<char>::empty(), 0);
    assert(Seq::<char>::empty().subrange(0, 0) =~= Seq::<char>::empty());
}

/// The joined quoted names hold no parenthesis.
proof fn lemma_joined_chars(names: Seq<Seq<char>>)
    requires
        forall|k: int| 0 <= k < names.len() ==> component_name_ok(#[trigger] names[k]),
    ensures
        forall|i: int|
            0 <= i < joined_names(names).len() ==> #[trigger] joined_names(names)[i] != '('
                && joined_names(names)[i] != ')',
    decreases names.len(),
{
    let q = quoted_names(names);
    if names.len() > 0 {
        let init = names.drop_last();
        let last = names.last();
        assert(component_name_ok(names[names.len() - 1]));
        lemma_quoted_word(last);
        lemma_joined_chars(init);
        let qi = quoted_names(init);
        assert(q.drop_last() =~= qi);
        if names.len() == 1 {
            assert(join(q, seq![' ']) == q[0]);
        } else {
            let j = joined_names(names);
            let ji = joined_names(init);
            assert(j == ji + seq![' '] + quote(last));
            assert forall|i: int| 0 <= i < j.len() implies #[trigger] j[i] != '(' && j[i] != ')' by {
                if i < ji.len() {
                    assert(j[i] == ji[i]);
                } else if i > ji.len() {
                    assert(j[i] == quote(last)[i - ji.len() - 1]);
                } else {
                    assert(j[i] == ' ');
                }
            }
        }
    }
}

/// The literal pieces of a `Signature-Input` value.
proof fn lemma_input_literals()
    ensures
        "sig="@ =~= seq!['s', 'i', 'g', '='],
        ";created="@ =~= seq![';', 'c', 'r', 'e', 'a', 't', 'e', 'd', '='],
        "created="@ =~= seq!['c', 'r', 'e', 'a', 't', 'e', 'd', '='],
{
    reveal_strlit("sig=");
    reveal_strlit(";created=");
    reveal_strlit("created=");
}

/// The covered components of `sig=<params>` are the names.
proof fn lemma_params_components(names: Seq<Seq<char>>, created: u64)
    requires
        forall|k: int| 0 <= k < names.len() ==> component_name_ok(#[trigger] names[k]),
    ensures
        parens_in_order("sig="@ + signature_params(names, created)),
        covered_components("sig="@ + signature_params(names, created)) == Ok::<
            Seq<Seq<char>>,
            crate::signature::SignatureError,
        >(names),
{
    lemma_input_literals();
    let j = joined_names(names);
    let d = decimal(created as nat);
    lemma_joined_chars(names);
    lemma_split_quoted(names);
    let input = "sig="@ + signature_params(names, created);
    let a = 4int;
    let b: int = 5 + j.len() as int;
    assert(input =~= seq!['s', 'i', 'g', '=', '('] + j + seq![')'] + ";created="@ + d);
    assert(input[a] == '(');
    assert forall|i: int| 0 <= i < a implies #[trigger] input[i] != '(' by {}
    lemma_find_char_is(input, '(', a);
    assert(input[b] == ')');
    assert forall|i: int| 0 <= i < b implies #[trigger] input[i] != ')' by {
        if 5 <= i {
            assert(input[i] == j[i - 5]);
        }
    }
    lemma_find_char_is(input, ')', b);
    assert(input.subrange(a + 1, b) =~= j);
}

proof fn lemma_match_char(h: Seq<char>, pat: Seq<char>, p: int, k: int)
    requires
        matches_at(h, pat, p),
        0 <= k < pat.len(),
    ensures
        h[p + k] == pat[k],
{
    assert(h.subrange(p, p + pat.len())[k] == h[p + k]);
}

/// No occurrence of `pat` in `x`, the character `c`, then `y`, when none is in
/// `x` or `y` and `c` is not in `pat`.
proof fn lemma_no_match_join(x: Seq<char>, c: char, y: Seq<char>, pat: Seq<char>)
    requires
        forall|p: int| !#[trigger] matches_at(x, pat, p),
        forall|p: int| !#[trigger] matches_at(y, pat, p),
        forall|k: int| 0 <= k < pat.len() ==> #[trigger] pat[k] != c,
    ensures
        forall|p: int| !#[trigger] matches_at(x + seq![c] + y, pat, p),
{
    let s = x + seq![c] + y;
    assert forall|p: int| !#[trigger] matches_at(s, pat, p) by {
        if matches_at(s, pat, p) {
            let n = pat.len() as int;
            if p + n <= x.len() {
                assert(x.subrange(p, p + n) =~= s.subrange(p, p + n));
                assert(matches_at(x, pat, p));
            } else if p > x.len() {
                let q = p - x.len() - 1;
                assert(y.subrange(q, q + n) =~= s.subrange(p, p + n));
                assert(matches_at(y, pat, q));
            } else {
                lemma_match_char(s, pat, p, x.len() - p);
                assert(s[x.len() as int] == c);
            }
        }
    }
}

/// The characters of `created=`, none of which separates or quotes names.
proof fn lemma_created_pattern_chars()
    ensures
        forall|k: int|
            0 <= k < "created="@.len() ==> #[trigger] "created="@[k] != '"' && "created="@[k]
                != ' ' && "created="@[k] != '(' && "created="@[k] != ')' && "created="@[k] != ';',
        "created="@.len() == 8,
{
    lemma_input_literals();
}

/// Text shorter than `pat` holds no occurrence of it.
proof fn lemma_no_match_short(x: Seq<char>, pat: Seq<char>)
    requires
        x.len() < pat.len(),
    ensures
        forall|p: int| !#[trigger] matches_at(x, pat, p),
{
}

/// A name without `created=` keeps none when quoted, and neither do the quoted
/// names joined by spaces.
proof fn lemma_joined_no_created(names: Seq<Seq<char>>)
    requires
        forall|k: int| 0 <= k < names.len() ==> created_name_ok(#[trigger] names[k]),
    ensures
        forall|p: int| !#[trigger] matches_at(joined_names(names), "created="@, p),
    decreases names.len(),
{
    let pat = "created="@;
    lemma_created_pattern_chars();
    let q = quoted_names(names);
    if names.len() == 0 {
        assert(joined_names(names) == Seq::<char>::empty());
        lemma_no_match_short(Seq::<char>::empty(), pat);
    } else {
        let init = names.drop_last();
        let last = names.last();
        assert(created_name_ok(names[names.len() - 1]));
        crate::text::lemma_find_from(last, pat, 0);
        lemma_no_match_short(Seq::<char>::empty(), pat);
        lemma_no_match_join(Seq::<char>::empty(), '"', last, pat);
        assert(seq!['"'] + last =~= Seq::<char>::empty() + seq!['"'] + last);
        lemma_no_match_join(seq!['"'] + last, '"', Seq::<char>::empty(), pat);
        assert(quote(last) =~= (seq!['"'] + last) + seq!['"'] + Seq::<char>::empty());
        let ql = quote(last);
        assert forall|p: int| !#[trigger] matches_at(ql, pat, p) by {
            assert(!matches_at((seq!['"'] + last) + seq!['"'] + Seq::<char>::empty(), pat, p));
        }
        assert(q.drop_last() =~= quoted_names(init));
        assert(q.last() == ql);
        if names.len() == 1 {
            assert(joined_names(names) == q[0]);
        } else {
            assert forall|k: int| 0 <= k < init.len() implies created_name_ok(#[trigger] init[k]) by {
                assert(init[k] == names[k]);
            }
            lemma_joined_no_created(init);
            let ji = joined_names(init);
            assert(joined_names(names) == ji + seq![' '] + ql);
            lemma_no_match_join(ji, ' ', ql, pat);
        }
    }
}

/// The first `created=` of a parameter list is the one before the time.
#[verifier::spinoff_prover]
#[verifier::rlimit(80)]
proof fn lemma_created_position(j: Seq<char>, d: Seq<char>)
    requires
        forall|p: int| !#[trigger] matches_at(j, "created="@, p),
        "created="@ =~= seq!['c', 'r', 'e', 'a', 't', 'e', 'd', '='],
    ensures
        find(seq!['s', 'i', 'g', '=', '('] + j + seq![')', ';'] + "created="@ + d, "created="@)
            == Some(7 + j.len() as int),
{
    let pat = "created="@;
    lemma_created_pattern_chars();
    let sig = seq!['s', 'i', 'g', '='];
    lemma_no_match_short(sig, pat);
    lemma_no_match_join(sig, '(', j, pat);
    let h1 = sig + seq!['('] + j;
    lemma_no_match_short(Seq::<char>::empty(), pat);
    lemma_no_match_join(h1, ')', Seq::<char>::empty(), pat);
    let h2 = h1 + seq![')'] + Seq::<char>::empty();
    lemma_no_match_join(h2, ';', Seq::<char>::empty(), pat);
    let head = seq!['s', 'i', 'g', '=', '('] + j + seq![')', ';'];
    assert(head =~= h2 + seq![';'] + Seq::<char>::empty());
    let input = head + pat + d;
    let r: int = 7 + j.len() as int;
    assert(head.len() == r);
    assert(input.subrange(r, r + 8) =~= pat);
    assert forall|p: int| 0 <= p < r implies !#[trigger] matches_at(input, pat, p) by {
        if matches_at(input, pat, p) {
            if p + 8 <= r {
                assert(head.subrange(p, p + 8) =~= input.subrange(p, p + 8));
                assert(!matches_at(h2 + seq![';'] + Seq::<char>::empty(), pat, p));
                assert(matches_at(head, pat, p));
            } else {
                lemma_match_char(input, pat, p, r - 1 - p);
                assert(input[r - 1] == ';');
            }
        }
    }
    lemma_find_is(input, pat, r);
}

/// A decimal time reads back as itself.
proof fn lemma_decimal_text(created: u64)
    requires
        "created="@ =~= seq!['c', 'r', 'e', 'a', 't', 'e', 'd', '='],
    ensures
        find(decimal(created as nat), "created="@) is None,
        trim(split_first(decimal(created as nat), ';')) == decimal(created as nat),
        parses_as_u64(decimal(created as nat)),
        digits_value(unsigned_digits(decimal(created as nat))) == created,
{
    let d = decimal(created as nat);
    lemma_decimal(created as nat);
    assert forall|p: int| 0 <= p implies !#[trigger] matches_at(d, "created="@, p) by {
        if matches_at(d, "created="@, p) {
            lemma_match_char(d, "created="@, p, 7);
            lemma_digit_char_facts(d[p + 7]);
        }
    }
    lemma_find_none(d, "created="@);
    assert forall|i: int| 0 <= i < d.len() implies #[trigger] d[i] != ';' by {
        lemma_digit_char_facts(d[i]);
    }
    lemma_find_char_none(d, ';');
    assert(split_first(d, ';') == d);
    lemma_digit_char_facts(d[0]);
    lemma_digit_char_facts(d[d.len() - 1]);
    lemma_trim_noop(d);
    assert(unsigned_digits(d) == d);
}

/// The creation time of `sig=<params>` is `created`.
proof fn lemma_params_created(names: Seq<Seq<char>>, created: u64)
    requires
        forall|k: int| 0 <= k < names.len() ==> created_name_ok(#[trigger] names[k]),
    ensures
        signature_created("sig="@ + signature_params(names, created)) == Ok::<
            u64,
            crate::signature::SignatureError,
        >(created),
{
    lemma_input_literals();
    let j = joined_names(names);
    let d = decimal(created as nat);
    lemma_joined_no_created(names);
    let input = "sig="@ + signature_params(names, created);
    assert(input =~= seq!['s', 'i', 'g', '=', '('] + j + seq![')', ';'] + "created="@ + d);
    lemma_created_position(j, d);
    let r: int = 7 + j.len() as int;
    assert(input.subrange(r + 8, input.len() as int) =~= d);
    lemma_decimal_text(created);
}

/// What a signer writes as `sig=<params>`, a verifier reads back as the covered
/// components: the names, in order, for any names that are non-empty, not quoted
/// at either end, and free of white space and parentheses.
pub proof fn lemma_covered_components_round_trip(names: Seq<Seq<char>>, created: u64)
    requires
        forall|k: int| 0 <= k < names.len() ==> component_name_ok(#[trigger] names[k]),
    ensures
        parens_in_order("sig="@ + signature_params(names, created)),
        covered_components("sig="@ + signature_params(names, created)) == Ok::<
            Seq<Seq<char>>,
            crate::signature::SignatureError,
        >(names),
{
    lemma_params_components(names, created);
}

/// What a signer writes as `sig=<params>`, a verifier reads back as the creation
/// time, for any names that hold no `created=`.
pub proof fn lemma_created_round_trip(names: Seq<Seq<char>>, created: u64)
    requires
        forall|k: int| 0 <= k < names.len() ==> created_name_ok(#[trigger] names[k]),
    ensures
        signature_created("sig="@ + signature_params(names, created)) == Ok::<
            u64,
            crate::signature::SignatureError,
        >(created),
{
    lemma_params_created(names, created);
}

/// What a signer writes as `sig=<params>` for these component names, a verifier
/// reads back: the names, in order, and the creation time.
pub proof fn lemma_signature_params_round_trip(names: Seq<Seq<char>>, created: u64)
    requires
        forall|k: int| 0 <= k < names.len() ==> component_name_ok(#[trigger] names[k]),
        forall|k: int| 0 <= k < names.len() ==> created_name_ok(#[trigger] names[k]),
    ensures
        parens_in_order("sig="@ + signature_params(names, created)),
        covered_components("sig="@ + signature_params(names, created)) == Ok::<
            Seq<Seq<char>>,
            crate::signature::SignatureError,
        >(names),
        signature_created("sig="@ + signature_params(names, created)) == Ok::<
            u64,
            crate::signature::SignatureError,
        >(created),
{
    lemma_params_components(names, created);
    lemma_params_created(names, created);
}

/// The components every AAuth signature covers, and `authorization`, survive the
/// trip through `Signature-Input`.
proof fn lemma_covered_names_ok(authorization: Option<Seq<char>>)
    ensures
        forall|k: int|
            0 <= k < covered_names(outbound_extras(authorization)).len() ==> component_name_ok(
                #[trigger] covered_names(outbound_extras(authorization))[k],
            ),
        forall|k: int|
            0 <= k < covered_names(outbound_extras(authorization)).len() ==> created_name_ok(
                #[trigger] covered_names(outbound_extras(authorization))[k],
            ),
{
    reveal_strlit("@method");
    reveal_strlit("@authority");
    reveal_strlit("@path");
    reveal_strlit("signature-key");
    reveal_strlit("authorization");
    assert("@method"@ =~= seq!['@', 'm', 'e', 't', 'h', 'o', 'd']);
    assert("@authority"@ =~= seq!['@', 'a', 'u', 't', 'h', 'o', 'r', 'i', 't', 'y']);
    assert("@path"@ =~= seq!['@', 'p', 'a', 't', 'h']);
    assert("signature-key"@ =~= seq!['s', 'i', 'g', 'n', 'a', 't', 'u', 'r', 'e', '-', 'k', 'e', 'y']);
    assert("authorization"@ =~= seq![
        'a', 'u', 't', 'h', 'o', 'r', 'i', 'z', 'a', 't', 'i', 'o', 'n',
    ]);
    let names = covered_names(outbound_extras(authorization));
    assert forall|k: int| 0 <= k < names.len() implies component_name_ok(#[trigger] names[k]) by {
        let n = names[k];
        assert forall|i: int| 0 <= i < n.len() implies !is_ws(#[trigger] n[i]) && n[i] != '('
            && n[i] != ')' && n[i] != '=' by {
            let c = n[i];
            assert(('a' <= c && c <= 'z') || c == '@' || c == '-');
        }
    }
    assert forall|k: int| 0 <= k < names.len() implies created_name_ok(#[trigger] names[k]) by {
        let n = names[k];
        assert forall|i: int| 0 <= i < n.len() implies #[trigger] n[i] != '=' by {
            let c = n[i];
            assert(('a' <= c && c <= 'z') || c == '@' || c == '-');
        }
        lemma_no_eq_created_ok(n);
    }
}

/// A name without `=` holds no `created=`.
proof fn lemma_no_eq_created_ok(n: Seq<char>)
    requires
        forall|i: int| 0 <= i < n.len() ==> #[trigger] n[i] != '=',
    ensures
        created_name_ok(n),
{
    lemma_input_literals();
    assert forall|p: int| 0 <= p implies !#[trigger] matches_at(n, "created="@, p) by {
        if matches_at(n, "created="@, p) {
            lemma_match_char(n, "created="@, p, 7);
        }
    }
    lemma_find_none(n, "created="@);
}

/// What an outbound request's `Signature-Input` says, the verifier reads back:
/// the covered components (`@method`, `@authority`, `@path`, `signature-key`, and
/// `authorization` when the request carries one), in order, and the creation time.
pub proof fn lemma_outbound_signature_input_round_trip(authorization: Option<Seq<char>>, created: u64)
    ensures
        parens_in_order(outbound_input_text(authorization, created)),
        covered_components(outbound_input_text(authorization, created)) == Ok::<
            Seq<Seq<char>>,
            crate::signature::SignatureError,
        >(covered_names(outbound_extras(authorization))),
        signature_created(outbound_input_text(authorization, created)) == Ok::<
            u64,
            crate::signature::SignatureError,
        >(created),
{
    lemma_covered_names_ok(authorization);
    lemma_signature_params_round_trip(covered_names(outbound_extras(authorization)), created);
}

// ---------------------------------------------------------------------------------------------
// A signed request verifies
// ---------------------------------------------------------------------------------------------

/// Printable ASCII text is stored as its own bytes and read back as itself.
proof fn lemma_printable_text(t: Seq<char>)
    requires
        forall|i: int| 0 <= i < t.len() ==> printable(#[trigger] t[i]),
    ensures
        header_value_text(t),
        visible_ascii(encode_utf8(t)),
        ascii_chars(encode_utf8(t)) == t,
{
    assert(is_ascii_chars(t));
    is_ascii_chars_encode_utf8(t);
    let b = encode_utf8(t);
    assert forall|i: int| 0 <= i < b.len() implies crate::header_map::is_visible_ascii(#[trigger] b[i]) by {
        assert(t[i] as u8 == b[i]);
        assert(printable(t[i]));
    }
    assert(ascii_chars(b) =~= t) by {
        assert forall|i: int| 0 <= i < t.len() implies #[trigger] ascii_chars(b)[i] == t[i] by {
            assert(t[i] as u8 == b[i]);
        }
    }
}

proof fn lemma_literals()
    ensures
        "sig=jwt;jwt=\""@ =~= seq!['s', 'i', 'g', '=', 'j', 'w', 't', ';', 'j', 'w', 't', '=', '"'],
        "jwt=\""@ =~= seq!['j', 'w', 't', '=', '"'],
        "sig=:"@ =~= seq!['s', 'i', 'g', '=', ':'],
        "signature-key"@ =~= seq!['s', 'i', 'g', 'n', 'a', 't', 'u', 'r', 'e', '-', 'k', 'e', 'y'],
        "signature-input"@ =~= seq![
            's', 'i', 'g', 'n', 'a', 't', 'u', 'r', 'e', '-', 'i', 'n', 'p', 'u', 't',
        ],
        "signature"@ =~= seq!['s', 'i', 'g', 'n', 'a', 't', 'u', 'r', 'e'],
        "authorization"@ =~= seq![
            'a', 'u', 't', 'h', 'o', 'r', 'i', 'z', 'a', 't', 'i', 'o', 'n',
        ],
        "@method"@ =~= seq!['@', 'm', 'e', 't', 'h', 'o', 'd'],
        "@authority"@ =~= seq!['@', 'a', 'u', 't', 'h', 'o', 'r', 'i', 't', 'y'],
        "@path"@ =~= seq!['@', 'p', 'a', 't', 'h'],
{
    reveal_strlit("sig=jwt;jwt=\"");
    reveal_strlit("jwt=\"");
    reveal_strlit("sig=:");
    reveal_strlit("signature-key");
    reveal_strlit("signature-input");
    reveal_strlit("signature");
    reveal_strlit("authorization");
    reveal_strlit("@method");
    reveal_strlit("@authority");
    reveal_strlit("@path");
}

/// The three signature header names and `authorization` are pairwise distinct, up to case.
proof fn lemma_header_names_distinct()
    ensures
        names_match("signature-key"@, "signature-key"@),
        names_match("signature-input"@, "signature-input"@),
        names_match("signature"@, "signature"@),
        !names_match("signature-key"@, "signature-input"@),
        !names_match("signature-key"@, "signature"@),
        !names_match("signature-key"@, "authorization"@),
        !names_match("signature-input"@, "signature-key"@),
        !names_match("signature-input"@, "signature"@),
        !names_match("signature-input"@, "authorization"@),
        !names_match("signature"@, "signature-key"@),
        !names_match("signature"@, "signature-input"@),
        !names_match("signature"@, "authorization"@),
{
    lemma_literals();
    assert(ascii_lower('s') != ascii_lower('a'));
}

/// The `Signature-Key` value of a JWT without quotes reads back as the JWT.
proof fn lemma_key_text(jwt: Seq<char>)
    requires
        forall|i: int| 0 <= i < jwt.len() ==> printable(#[trigger] jwt[i]) && jwt[i] != '"',
    ensures
        key_jwt_text(outbound_key_text(jwt)) == Ok::<Seq<char>, SignatureError>(jwt),
        forall|i: int|
            0 <= i < outbound_key_text(jwt).len() ==> printable(#[trigger] outbound_key_text(jwt)[i]),
{
    lemma_literals();
    let k = outbound_key_text(jwt);
    let pat = "jwt=\""@;
    assert(k =~= seq!['s', 'i', 'g', '=', 'j', 'w', 't', ';', 'j', 'w', 't', '=', '"'] + jwt + seq!['"']);
    assert forall|i: int| 0 <= i < k.len() implies printable(#[trigger] k[i]) by {
        if 13 <= i < 13 + jwt.len() {
            assert(k[i] == jwt[i - 13]);
        }
    }
    assert(k.subrange(8, 13) =~= pat);
    assert(matches_at(k, pat, 8));
    assert forall|p: int| 0 <= p < 8 implies !#[trigger] matches_at(k, pat, p) by {
        if matches_at(k, pat, p) {
            lemma_match_char(k, pat, p, 4);
        }
    }
    lemma_find_is(k, pat, 8);
    let rest = k.subrange(13, k.len() as int);
    assert(rest =~= jwt + seq!['"']);
    assert forall|i: int| 0 <= i < jwt.len() implies #[trigger] rest[i] != '"' by {
        assert(rest[i] == jwt[i]);
    }
    lemma_find_char_is(rest, '"', jwt.len() as int);
    assert(rest.subrange(0, jwt.len() as int) =~= jwt);
}

/// The `Signature` value of encoded signature bytes reads back as the bytes.
proof fn lemma_signature_text(sig: Seq<u8>)
    requires
        signature_encoding(sig),
    ensures
        signature_value(outbound_signature_text(sig)) == Ok::<Seq<u8>, SignatureError>(sig),
        forall|i: int|
            0 <= i < outbound_signature_text(sig).len() ==> printable(
                #[trigger] outbound_signature_text(sig)[i],
            ),
{
    lemma_literals();
    let e = base64url_encoded(sig);
    let t = outbound_signature_text(sig);
    assert(t =~= seq!['s', 'i', 'g', '=', ':'] + e + seq![':']);
    assert forall|i: int| 0 <= i < t.len() implies printable(#[trigger] t[i]) by {
        if 5 <= i < 5 + e.len() {
            assert(t[i] == e[i - 5]);
            assert(is_base64url_char(e[i - 5]));
        }
    }
    assert(t.subrange(0, 5) =~= "sig=:"@);
    let rest = t.subrange(5, t.len() as int);
    assert(rest =~= e + seq![':']);
    assert(rest.drop_last() =~= e);
    assert(signature_value_text(t) == Some(e));
}

/// The quoted, space-joined printable names are printable.
proof fn lemma_joined_printable(names: Seq<Seq<char>>)
    requires
        forall|k: int| 0 <= k < names.len() ==> printable_text(#[trigger] names[k]),
    ensures
        printable_text(joined_names(names)),
    decreases names.len(),
{
    if names.len() > 0 {
        let init = names.drop_last();
        let last = names.last();
        assert forall|k: int| 0 <= k < init.len() implies printable_text(#[trigger] init[k]) by {
            assert(init[k] == names[k]);
        }
        lemma_joined_printable(init);
        let q = quoted_names(names);
        let qi = quoted_names(init);
        assert(q.drop_last() =~= qi);
        let ql = quote(last);
        assert(printable_text(names[names.len() - 1]));
        assert forall|i: int| 0 <= i < ql.len() implies printable(#[trigger] ql[i]) by {
            if 0 < i < ql.len() - 1 {
                assert(ql[i] == last[i - 1]);
            }
        }
        if names.len() == 1 {
            assert(join(q, seq![' ']) == q[0]);
        } else {
            let j = joined_names(names);
            let ji = joined_names(init);
            assert(j == ji + seq![' '] + ql);
            assert forall|i: int| 0 <= i < j.len() implies printable(#[trigger] j[i]) by {
                if i < ji.len() {
                    assert(j[i] == ji[i]);
                } else if i > ji.len() {
                    assert(j[i] == ql[i - ji.len() - 1]);
                } else {
                    assert(j[i] == ' ');
                }
            }
        }
    }
}

/// The `Signature-Input` value of an outbound request is printable.
proof fn lemma_input_printable(authorization: Option<Seq<char>>, created: u64)
    ensures
        forall|i: int|
            0 <= i < outbound_input_text(authorization, created).len() ==> printable(
                #[trigger] outbound_input_text(authorization, created)[i],
            ),
{
    lemma_literals();
    lemma_input_literals();
    let names = covered_names(outbound_extras(authorization));
    assert forall|k: int| 0 <= k < names.len() implies printable_text(#[trigger] names[k]) by {
        let n = names[k];
        assert forall|i: int| 0 <= i < n.len() implies printable(#[trigger] n[i]) by {
            let c = n[i];
            assert(('a' <= c && c <= 'z') || c == '@' || c == '-');
        }
    }
    lemma_joined_printable(names);
    let j = joined_names(names);
    let d = decimal(created as nat);
    lemma_decimal(created as nat);
    let t = outbound_input_text(authorization, created);
    assert(t =~= seq!['s', 'i', 'g', '=', '('] + j + seq![')'] + seq![
        ';',
        'c',
        'r',
        'e',
        'a',
        't',
        'e',
        'd',
        '=',
    ] + d);
    assert forall|i: int| 0 <= i < t.len() implies printable(#[trigger] t[i]) by {
        let b = 5 + j.len();
        if 5 <= i < b {
            assert(t[i] == j[i - 5]);
        } else if i >= b + 10 {
            assert(t[i] == d[i - b - 10]);
            assert(is_digit(d[i - b - 10]));
        }
    }
}

/// Which components an outbound request covers.
proof fn lemma_covered_outbound(authorization: Option<Seq<char>>)
    ensures
        first_missing_component(covered_names(outbound_extras(authorization))) is None,
        has_component(covered_names(outbound_extras(authorization)), "authorization"@)
            <==> authorization is Some,
{
    lemma_literals();
    let c = covered_names(outbound_extras(authorization));
    assert(c[0] == "@method"@);
    assert(c[1] == "@authority"@);
    assert(c[2] == "@path"@);
    assert(c[3] == "signature-key"@);
    match authorization {
        Some(a) => {
            assert(c[4] == "authorization"@);
        },
        None => {
            assert(c.len() == 4);
            assert forall|i: int| 0 <= i < c.len() implies c[i] != "authorization"@ by {
                if i == 3 {
                    assert(c[3][0] != "authorization"@[0]);
                }
            }
        },
    }
}

/// A request signed by [`crate::signature::apply_outbound_signature_at`] with a
/// private JWK verifies under the public key of that JWK: the verifier reads back
/// the JWT it presents, when the JWT is printable ASCII without quotes, the
/// request's `authorization` header (when it signs one) is the one the request
/// carries, and the verification time lies within the freshness window.
pub proof fn lemma_signed_request_verifies(
    before: Seq<(Seq<char>, Seq<u8>)>,
    after: Seq<(Seq<char>, Seq<u8>)>,
    r: Result<(), SignatureError>,
    method: Seq<char>,
    authority: Seq<char>,
    path: Seq<char>,
    jwt: Seq<char>,
    d: Seq<char>,
    authorization: Option<Seq<char>>,
    created: u64,
    x: Seq<char>,
    thumbprint: Seq<char>,
    options: SignatureVerifyOptions,
    now: u64,
)
    requires
        outbound_signed(before, after, r, method, authority, path, jwt, d, authorization, created),
        jwk_secret_key(d) matches Ok(sk) && public_x_of(sk, x),
        forall|i: int| 0 <= i < jwt.len() ==> printable(#[trigger] jwt[i]) && jwt[i] != '"',
        match authorization {
            Some(a) => header_text(before, "authorization"@) == Some(a),
            None => !options.require_authorization,
        },
        options_usable(options),
        created <= now + options.clock_skew_secs,
        now - created <= options.max_age_secs + options.clock_skew_secs,
    ensures
        r is Ok,
        request_signature(method, authority, path, after, options, now, Some((x, thumbprint)))
            == Ok::<(Seq<char>, Seq<char>), SignatureError>((jwt, thumbprint)),
{
    let sk = jwk_secret_key(d)->Ok_0;
    let key = outbound_key_text(jwt);
    let input = outbound_input_text(authorization, created);
    let sig = outbound_signature(sk, method, authority, path, jwt, authorization, created);
    let sig_text = outbound_signature_text(sig);
    lemma_key_text(jwt);
    lemma_input_printable(authorization, created);
    lemma_signature_text(sig);
    lemma_printable_text(key);
    lemma_printable_text(input);
    lemma_printable_text(sig_text);
    assert(r == outbound_result(key, input, sig_text));
    let e1 = inserted(before, "signature-key"@, encode_utf8(key));
    let e2 = inserted(e1, "signature-input"@, encode_utf8(input));
    assert(after == inserted(e2, "signature"@, encode_utf8(sig_text)));
    lemma_header_names_distinct();
    // What the verifier reads from the headers.
    lemma_header_text_inserted(before, "signature-key"@, encode_utf8(key), "signature-key"@);
    lemma_header_text_inserted(e1, "signature-input"@, encode_utf8(input), "signature-key"@);
    lemma_header_text_inserted(e2, "signature"@, encode_utf8(sig_text), "signature-key"@);
    assert(header_text(after, "signature-key"@) == Some(key));
    lemma_header_text_inserted(e1, "signature-input"@, encode_utf8(input), "signature-input"@);
    lemma_header_text_inserted(e2, "signature"@, encode_utf8(sig_text), "signature-input"@);
    assert(header_text(after, "signature-input"@) == Some(input));
    lemma_header_text_inserted(e2, "signature"@, encode_utf8(sig_text), "signature"@);
    assert(header_text(after, "signature"@) == Some(sig_text));
    lemma_header_text_inserted(before, "signature-key"@, encode_utf8(key), "authorization"@);
    lemma_header_text_inserted(e1, "signature-input"@, encode_utf8(input), "authorization"@);
    lemma_header_text_inserted(e2, "signature"@, encode_utf8(sig_text), "authorization"@);
    assert(header_text(after, "authorization"@) == header_text(before, "authorization"@));
    // What the verifier makes of them.
    crate::signature_laws::lemma_outbound_signature_input_round_trip(authorization, created);
    let covered = covered_names(outbound_extras(authorization));
    lemma_covered_outbound(authorization);
    assert(authorization_extras(covered, header_text(after, "authorization"@)) == outbound_extras(
        authorization,
    ));
    let base = signature_base(method, authority, path, key, created, outbound_extras(authorization));
    assert(sig == ed25519_signature_of(sk, encode_utf8(base)));
    assert(jwk_public_key(x) == Ok::<Seq<u8>, SignatureError>(crate::keys::ed25519_public_of(sk)));
    assert(ed25519_signature_valid(crate::keys::ed25519_public_of(sk), encode_utf8(base), sig));
    assert(signature_check(method, authority, path, after, key, sig_text, covered, created, x) == Ok::<
        (),
        SignatureError,
    >(()));
}

/// A request signed by [`crate::signature::apply_outbound_signature`] when the
/// clock read `sign_clock` verifies by
/// [`crate::signature::verify_request_signature_with_options`] when the clock reads
/// `verify_clock`, under the public key of the signing JWK: the verifier reads back
/// the JWT, when both clocks read times after the Unix epoch, the later lies
/// within the freshness window of the earlier, the JWT is printable ASCII without
/// quotes, and the request's `authorization` header (when it signs one) is the one
/// the request carries.
pub proof fn lemma_signed_now_verifies_later(
    before: Seq<(Seq<char>, Seq<u8>)>,
    after: Seq<(Seq<char>, Seq<u8>)>,
    r: Result<(), SignatureError>,
    method: Seq<char>,
    authority: Seq<char>,
    path: Seq<char>,
    jwt: Seq<char>,
    d: Seq<char>,
    authorization: Option<Seq<char>>,
    sign_clock: Option<u64>,
    x: Seq<char>,
    thumbprint: Seq<char>,
    options: SignatureVerifyOptions,
    verify_clock: Option<u64>,
)
    requires
        outbound_signed_by_clock(before, after, r, method, authority, path, jwt, d, authorization, sign_clock),
        jwk_secret_key(d) matches Ok(sk) && public_x_of(sk, x),
        forall|i: int| 0 <= i < jwt.len() ==> printable(#[trigger] jwt[i]) && jwt[i] != '"',
        match authorization {
            Some(a) => header_text(before, "authorization"@) == Some(a),
            None => !options.require_authorization,
        },
        options_usable(options),
        sign_clock matches Some(created) && verify_clock matches Some(now) && created <= now
            + options.clock_skew_secs && now - created <= options.max_age_secs
            + options.clock_skew_secs,
    ensures
        r is Ok,
        request_signature_by_clock(method, authority, path, after, options, verify_clock, Some((x, thumbprint)))
            == Ok::<(Seq<char>, Seq<char>), SignatureError>((jwt, thumbprint)),
{
    let created = sign_clock->0;
    let now = verify_clock->0;
    lemma_signed_request_verifies(
        before,
        after,
        r,
        method,
        authority,
        path,
        jwt,
        d,
        authorization,
        created,
        x,
        thumbprint,
        options,
        now,
    );
}

/// A request is only ever verified when its `Signature-Input` covers `@method`,
/// `@authority`, `@path` and `signature-key`: whatever the clock reads, an `Ok`
/// verification has a readable `Signature-Input` whose covered components hold
/// each of the four.
pub proof fn lemma_verified_covers_required_components(
    method: Seq<char>,
    authority: Seq<char>,
    path: Seq<char>,
    entries: Seq<(Seq<char>, Seq<u8>)>,
    options: SignatureVerifyOptions,
    now: u64,
    confirmation: Option<(Seq<char>, Seq<char>)>,
)
    requires
        request_signature(method, authority, path, entries, options, now, confirmation) is Ok,
    ensures
        header_text(entries, "signature-input"@) matches Some(input) && covered_components(input)
            matches Ok(covered) && {
            &&& exists|i: int| 0 <= i < covered.len() && covered[i] == "@method"@
            &&& exists|i: int| 0 <= i < covered.len() && covered[i] == "@authority"@
            &&& exists|i: int| 0 <= i < covered.len() && covered[i] == "@path"@
            &&& exists|i: int| 0 <= i < covered.len() && covered[i] == "signature-key"@
        },
{
}

/// The same of verification against the system clock: an `Ok` answer, whatever
/// the clock read, comes from a `Signature-Input` covering the four required
/// components.
pub proof fn lemma_verified_by_clock_covers_required_components(
    method: Seq<char>,
    authority: Seq<char>,
    path: Seq<char>,
    entries: Seq<(Seq<char>, Seq<u8>)>,
    options: SignatureVerifyOptions,
    clock: Option<u64>,
    confirmation: Option<(Seq<char>, Seq<char>)>,
)
    requires
        request_signature_by_clock(method, authority, path, entries, options, clock, confirmation)
            is Ok,
    ensures
        header_text(entries, "signature-input"@) matches Some(input) && covered_components(input)
            matches Ok(covered) && {
            &&& exists|i: int| 0 <= i < covered.len() && covered[i] == "@method"@
            &&& exists|i: int| 0 <= i < covered.len() && covered[i] == "@authority"@
            &&& exists|i: int| 0 <= i < covered.len() && covered[i] == "@path"@
            &&& exists|i: int| 0 <= i < covered.len() && covered[i] == "signature-key"@
        },
{
    lemma_verified_covers_required_components(
        method,
        authority,
        path,
        entries,
        options,
        clock->0,
        confirmation,
    );
}

} // verus!
