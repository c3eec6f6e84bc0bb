//! Opaque access tokens that a resource issues after its own consent flow.
use vstd::prelude::*;

use crate::codec::{base64url_encode, base64url_encoded, is_base64url_char, unpadded_encoded_len};
use crate::common::str_eq;
use crate::text::trim_char_end;
use crate::token68::is_token68_spec;

verus! {

/// One random byte from the thread-local generator (`rand::random::<u8>`).
/// Nothing is stated of the value: it is chance.
#[verifier::external_body]
fn random_byte() -> (b: u8) {
    rand::random::<u8>()
}

pub open spec fn hex_digit(d: nat) -> char {
    if d < 10 {
        (48 + d) as char
    } else {
        (87 + d) as char
    }
}

/// Two lowercase hex digits of a byte (`format!("{:02x}", b)`).
pub open spec fn hex_byte(b: u8) -> Seq<char> {
    seq![hex_digit((b / 16) as nat), hex_digit((b % 16) as nat)]
}

/// Lowercase hex spelling of a byte string.
pub open spec fn hex(bytes: Seq<u8>) -> Seq<char>
    decreases bytes.len(),
{
    if bytes.len() == 0 {
        Seq::empty()
    } else {
        hex(bytes.drop_last()) + hex_byte(bytes.last())
    }
}

/// The bytes of an ASCII string.
pub open spec fn ascii_bytes(s: Seq<char>) -> Seq<u8> {
    s.map_values(|c: char| c as u8)
}

/// The token issued for the random bytes `nonce`: the base64url encoding of their
/// lowercase hex spelling.
pub open spec fn opaque_token(nonce: Seq<u8>) -> Seq<char> {
    base64url_encoded(ascii_bytes(hex(nonce)))
}

fn hex_digit_exec(d: u8) -> (c: char)
    requires
        d < 16,
    ensures
        c == hex_digit(d as nat),
{
    if d < 10 {
        (48u8 + d) as char
    } else {
        (87u8 + d) as char
    }
}

/// Issues, checks and revokes opaque access tokens bound to an agent.
pub trait OpaqueAccessStore {
    fn issue(&mut self, agent_id: &str) -> String;

    fn validate(&self, token: &str, agent_id: &str) -> bool;

    fn revoke(&mut self, token: &str);
}

/// No token appears twice.
pub open spec fn unique_tokens(v: Seq<(String, String)>) -> bool {
    forall|i: int, j: int|
        0 <= i < v.len() && 0 <= j < v.len() && i != j ==> #[trigger] v[i].0@ != #[trigger] v[j].0@
}

/// The token -> agent map held by a list of unique pairs.
pub open spec fn tokens_map(v: Seq<(String, String)>) -> Map<Seq<char>, Seq<char>> {
    Map::new(
        |t: Seq<char>| exists|i: int| 0 <= i < v.len() && v[i].0@ == t,
        |t: Seq<char>| v[choose|i: int| 0 <= i < v.len() && v[i].0@ == t].1@,
    )
}

proof fn lemma_map_at(v: Seq<(String, String)>, i: int)
    requires
        unique_tokens(v),
        0 <= i < v.len(),
    ensures
        tokens_map(v).contains_key(v[i].0@),
        tokens_map(v)[v[i].0@] == v[i].1@,
{
    let t = v[i].0@;
    let k = choose|k: int| 0 <= k < v.len() && v[k].0@ == t;
    assert(0 <= k < v.len() && v[k].0@ == t);
    assert(k == i);
}

fn position(v: &Vec<(String, String)>, token: &str) -> (r: Option<usize>)
    ensures
        match r {
            Some(i) => i < v@.len() && v@[i as int].0@ == token@,
            None => !tokens_map(v@).contains_key(token@),
        },
{
    let mut i: usize = 0;
    while i < v.len()
        invariant
            i <= v@.len(),
            forall|j: int| 0 <= j < i ==> v@[j].0@ != token@,
        decreases v.len() - i,
    {
        if str_eq(v[i].0.as_str(), token) {
            return Some(i);
        }
        i = i + 1;
    }
    None
}

/// Binds `token` to `agent` in the list.
fn bind(v: &mut Vec<(String, String)>, token: &String, agent: &str)
    requires
        unique_tokens(old(v)@),
    ensures
        unique_tokens(final(v)@),
        tokens_map(final(v)@) == tokens_map(old(v)@).insert(token@, agent@),
{
    let ghost before = v@;
    match position(v, token.as_str()) {
        Some(i) => {
            v.set(i, (token.clone(), String::from_str(agent)));
            proof {
                assert forall|a: int, b: int|
                    0 <= a < v@.len() && 0 <= b < v@.len() && a != b
                        implies #[trigger] v@[a].0@ != #[trigger] v@[b].0@ by {
                    assert(before[a].0@ != before[b].0@);
                }
                assert forall|t: Seq<char>| #[trigger] tokens_map(v@).contains_key(t)
                    == tokens_map(before).insert(token@, agent@).contains_key(t) by {
                    if tokens_map(before).contains_key(t) {
                        let j = choose|j: int| 0 <= j < before.len() && before[j].0@ == t;
                        assert(v@[j].0@ == t);
                    }
                    if tokens_map(v@).contains_key(t) {
                        let j = choose|j: int| 0 <= j < v@.len() && v@[j].0@ == t;
                        if j != i {
                            assert(before[j] == v@[j]);
                        }
                    }
                    assert(v@[i as int].0@ == token@);
                }
                assert forall|t: Seq<char>| #[trigger] tokens_map(v@).contains_key(t) implies tokens_map(
                    v@,
                )[t] == tokens_map(before).insert(token@, agent@)[t] by {
                    let j = choose|j: int| 0 <= j < v@.len() && v@[j].0@ == t;
                    lemma_map_at(v@, j);
                    if j != i {
                        assert(before[j] == v@[j]);
                        lemma_map_at(before, j);
                    }
                }
                assert(tokens_map(v@) =~= tokens_map(before).insert(token@, agent@));
            }
        },
        None => {
            v.push((token.clone(), String::from_str(agent)));
            proof {
                let n = before.len() as int;
                assert forall|a: int, b: int|
                    0 <= a < v@.len() && 0 <= b < v@.len() && a != b
                        implies #[trigger] v@[a].0@ != #[trigger] v@[b].0@ by {
                    if a < n && b < n {
                        assert(before[a].0@ != before[b].0@);
                    } else if a == n {
                        assert(v@[b] == before[b]);
                        if before[b].0@ == token@ {
                            lemma_map_at(before, b);
                        }
                    } else {
                        assert(v@[a] == before[a]);
                        if before[a].0@ == token@ {
                            lemma_map_at(before, a);
                        }
                    }
                }
                assert forall|t: Seq<char>| #[trigger] tokens_map(v@).contains_key(t)
                    == tokens_map(before).insert(token@, agent@).contains_key(t) by {
                    if tokens_map(before).contains_key(t) {
                        let j = choose|j: int| 0 <= j < before.len() && before[j].0@ == t;
                        assert(v@[j] == before[j]);
                    }
                    if tokens_map(v@).contains_key(t) {
                        let j = choose|j: int| 0 <= j < v@.len() && v@[j].0@ == t;
                        if j < n {
                            assert(v@[j] == before[j]);
                        }
                    }
                    assert(v@[n].0@ == token@);
                }
                assert forall|t: Seq<char>| #[trigger] tokens_map(v@).contains_key(t) implies tokens_map(
                    v@,
                )[t] == tokens_map(before).insert(token@, agent@)[t] by {
                    let j = choose|j: int| 0 <= j < v@.len() && v@[j].0@ == t;
                    lemma_map_at(v@, j);
                    if j < n {
                        assert(v@[j] == before[j]);
                        lemma_map_at(before, j);
                    }
                }
                assert(tokens_map(v@) =~= tokens_map(before).insert(token@, agent@));
            }
        },
    }
}

/// Removes `token` from the list.
fn unbind(v: &mut Vec<(String, String)>, token: &str)
    requires
        unique_tokens(old(v)@),
    ensures
        unique_tokens(final(v)@),
        tokens_map(final(v)@) == tokens_map(old(v)@).remove(token@),
{
    let ghost before = v@;
    match position(v, token) {
        Some(i) => {
            v.remove(i);
            proof {
                assert forall|a: int, b: int|
                    0 <= a < v@.len() && 0 <= b < v@.len() && a != b
                        implies #[trigger] v@[a].0@ != #[trigger] v@[b].0@ by {
                    let a2 = if a < i { a } else { a + 1 };
                    let b2 = if b < i { b } else { b + 1 };
                    assert(v@[a] == before[a2]);
                    assert(v@[b] == before[b2]);
                }
                assert forall|t: Seq<char>| #[trigger] tokens_map(v@).contains_key(t)
                    == tokens_map(before).remove(token@).contains_key(t) by {
                    if tokens_map(before).contains_key(t) && t != token@ {
                        let j = choose|j: int| 0 <= j < before.len() && before[j].0@ == t;
                        assert(j != i);
                        let j2 = if j < i { j } else { j - 1 };
                        assert(v@[j2] == before[j]);
                    }
                    if tokens_map(v@).contains_key(t) {
                        let j = choose|j: int| 0 <= j < v@.len() && v@[j].0@ == t;
                        let j2 = if j < i { j } else { j + 1 };
                        assert(v@[j] == before[j2]);
                        assert(j2 != i);
                    }
                }
                assert forall|t: Seq<char>| #[trigger] tokens_map(v@).contains_key(t) implies tokens_map(
                    v@,
                )[t] == tokens_map(before).remove(token@)[t] by {
                    let j = choose|j: int| 0 <= j < v@.len() && v@[j].0@ == t;
                    lemma_map_at(v@, j);
                    let j2 = if j < i { j } else { j + 1 };
                    assert(v@[j] == before[j2]);
                    lemma_map_at(before, j2);
                }
                assert(tokens_map(v@) =~= tokens_map(before).remove(token@));
            }
        },
        None => {
            proof {
                assert(tokens_map(v@) =~= tokens_map(before).remove(token@));
            }
        },
    }
}

/// A fresh token: 32 random bytes, spelled in lowercase hex, then base64url-encoded.
/// Non-empty text in the URL-safe base64 alphabet is a `token68`.
pub proof fn lemma_base64url_text_is_token68(s: Seq<char>)
    requires
        s.len() > 0,
        forall|i: int| 0 <= i < s.len() ==> is_base64url_char(#[trigger] s[i]),
    ensures
        is_token68_spec(s),
{
    assert(s[s.len() - 1] != '=') by {
        assert(is_base64url_char(s[s.len() - 1]));
    }
    assert(trim_char_end(s, '=') == s);
}

fn fresh_token() -> (token: String)
    ensures
        exists|nonce: Seq<u8>| nonce.len() == 32 && token@ == #[trigger] opaque_token(nonce),
        token@.len() == 86,
        forall|i: int| 0 <= i < token@.len() ==> is_base64url_char(#[trigger] token@[i]),
{
    let mut ascii: Vec<u8> = Vec::new();
    let ghost mut nonce: Seq<u8> = Seq::empty();
    let mut k: usize = 0;
    while k < 32
        invariant
            k <= 32,
            nonce.len() == k,
            ascii@ == ascii_bytes(hex(nonce)),
            ascii@.len() == 2 * k,
        decreases 32 - k,
    {
        let b = random_byte();
        let hi = hex_digit_exec(b / 16);
        let lo = hex_digit_exec(b % 16);
        ascii.push(hi as u8);
        ascii.push(lo as u8);
        proof {
            let n2 = nonce.push(b);
            assert(n2.drop_last() =~= nonce);
            assert(hex(n2) == hex(nonce) + hex_byte(b));
            nonce = n2;
            assert(ascii@ =~= ascii_bytes(hex(nonce)));
        }
        k = k + 1;
    }
    let encoded = base64url_encode(ascii.as_slice());
    proof {
        assert(encoded@ == opaque_token(nonce));
        assert(unpadded_encoded_len(64) == 86);
    }
    encoded
}

/// Opaque access tokens held in memory: each token maps to the agent it was issued to.
#[derive(Debug)]
pub struct InMemoryOpaqueAccessStore {
    tokens: Vec<(String, String)>,
}

impl View for InMemoryOpaqueAccessStore {
    type V = Map<Seq<char>, Seq<char>>;

    closed spec fn view(&self) -> Map<Seq<char>, Seq<char>> {
        tokens_map(self.tokens@)
    }
}

impl InMemoryOpaqueAccessStore {
    #[verifier::type_invariant]
    closed spec fn inv(self) -> bool {
        unique_tokens(self.tokens@)
    }

    /// An empty store.
    pub fn new() -> (s: InMemoryOpaqueAccessStore)
        ensures
            s@ == Map::<Seq<char>, Seq<char>>::empty(),
    {
        let s = InMemoryOpaqueAccessStore { tokens: Vec::new() };
        proof {
            assert(s@ =~= Map::<Seq<char>, Seq<char>>::empty());
        }
        s
    }

    /// Issues a fresh token for `agent_id`: 32 random bytes, spelled in lowercase
    /// hex, then base64url-encoded. A token already held is rebound to `agent_id`.
    pub fn issue(&mut self, agent_id: &str) -> (token: String)
        ensures
            final(self)@ == old(self)@.insert(token@, agent_id@),
            exists|nonce: Seq<u8>| nonce.len() == 32 && token@ == #[trigger] opaque_token(nonce),
            token@.len() == 86,
            forall|i: int| 0 <= i < token@.len() ==> is_base64url_char(#[trigger] token@[i]),
            is_token68_spec(token@),
    {
        proof {
            use_type_invariant(&*self);
        }
        let token = fresh_token();
        let mut tokens: Vec<(String, String)> = Vec::new();
        std::mem::swap(&mut tokens, &mut self.tokens);
        bind(&mut tokens, &token, agent_id);
        self.tokens = tokens;
        proof {
            lemma_base64url_text_is_token68(token@);
        }
        token
    }

    /// Whether `token` was issued to `agent_id` and not revoked since.
    pub fn validate(&self, token: &str, agent_id: &str) -> (b: bool)
        ensures
            b == (self@.contains_key(token@) && self@[token@] == agent_id@),
    {
        proof {
            use_type_invariant(self);
        }
        match position(&self.tokens, token) {
            Some(i) => {
                proof {
                    lemma_map_at(self.tokens@, i as int);
                }
                str_eq(self.tokens[i].1.as_str(), agent_id)
            },
            None => false,
        }
    }

    /// Forgets `token`.
    pub fn revoke(&mut self, token: &str)
        ensures
            final(self)@ == old(self)@.remove(token@),
    {
        proof {
            use_type_invariant(&*self);
        }
        let mut tokens: Vec<(String, String)> = Vec::new();
        std::mem::swap(&mut tokens, &mut self.tokens);
        unbind(&mut tokens, token);
        self.tokens = tokens;
    }
}

impl Default for InMemoryOpaqueAccessStore {
    fn default() -> (s: InMemoryOpaqueAccessStore)
        ensures
            s@ == Map::<Seq<char>, Seq<char>>::empty(),
    {
        InMemoryOpaqueAccessStore::new()
    }
}

impl OpaqueAccessStore for InMemoryOpaqueAccessStore {
    fn issue(&mut self, agent_id: &str) -> (token: String)
        ensures
            final(self)@ == old(self)@.insert(token@, agent_id@),
    {
        InMemoryOpaqueAccessStore::issue(self, agent_id)
    }

    fn validate(&self, token: &str, agent_id: &str) -> (b: bool)
        ensures
            b == (self@.contains_key(token@) && self@[token@] == agent_id@),
    {
        InMemoryOpaqueAccessStore::validate(self, token, agent_id)
    }

    fn revoke(&mut self, token: &str)
        ensures
            final(self)@ == old(self)@.remove(token@),
    {
        InMemoryOpaqueAccessStore::revoke(self, token)
    }
}

/// A token just issued to an agent validates for that agent and for no other,
/// and every other token keeps its agent.
pub proof fn lemma_issued_token_validates(
    before: InMemoryOpaqueAccessStore,
    after: InMemoryOpaqueAccessStore,
    token: Seq<char>,
    agent: Seq<char>,
    other_agent: Seq<char>,
    other_token: Seq<char>,
)
    requires
        after@ == before@.insert(token, agent),
    ensures
        after@.contains_key(token) && after@[token] == agent,
        other_agent != agent ==> !(after@.contains_key(token) && after@[token] == other_agent),
        other_token != token ==> (after@.contains_key(other_token) == before@.contains_key(
            other_token,
        ) && (before@.contains_key(other_token) ==> after@[other_token] == before@[other_token])),
{
}

/// A revoked token no longer validates for any agent, and every other token
/// keeps its agent.
pub proof fn lemma_revoked_token_rejected(
    before: InMemoryOpaqueAccessStore,
    after: InMemoryOpaqueAccessStore,
    token: Seq<char>,
    agent: Seq<char>,
    other_token: Seq<char>,
)
    requires
        after@ == before@.remove(token),
    ensures
        !(after@.contains_key(token) && after@[token] == agent),
        other_token != token ==> (after@.contains_key(other_token) == before@.contains_key(
            other_token,
        ) && (before@.contains_key(other_token) ==> after@[other_token] == before@[other_token])),
{
}

} // verus!
