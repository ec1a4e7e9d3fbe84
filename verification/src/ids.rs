//! Random identifiers and the tokens drawn from them.
//!
//! Clients and Brew calls are identified by UUIDs, held as 128-bit integers.
use crate::text::{hex, hex_char, is_hex};
use vstd::prelude::*;
use vstd::string::*;

verus! {

/// Whether `id` carries the version (4) and the variant (binary 10) of a random UUID.
pub open spec fn is_v4(id: u128) -> bool {
    &&& (id / 0x1000_0000_0000_0000_0000) % 16 == 4
    &&& (id / 0x4000_0000_0000_0000) % 4 == 2
}

/// `Uuid::new_v4` of the uuid crate, as the integer of `Uuid::as_u128`: a random UUID. Only its
/// version and variant bits are claimed. (The call panics where the system has no randomness.)
#[verifier::external_body]
pub(crate) fn new_v4() -> (r: u128)
    ensures
        is_v4(r),
{
    uuid::Uuid::new_v4().as_u128()
}

/// `Uuid::simple` of the uuid crate, formatted: the thirty-two lower-case hexadecimal digits of the
/// UUID with the value `id`, without hyphens.
#[verifier::external_body]
pub(crate) fn simple(id: u128) -> (r: String)
    ensures
        r@ == hex(id as nat, 32),
{
    uuid::Uuid::from_u128(id).simple().to_string()
}

/// The simple forms of `ids`, one after the other.
pub open spec fn hex_stream(ids: Seq<u128>) -> Seq<char>
    decreases ids.len(),
{
    if ids.len() == 0 {
        Seq::empty()
    } else {
        hex_stream(ids.drop_last()) + hex(ids.last() as nat, 32)
    }
}

/// `s` is the first `n` characters of the simple forms of some random UUIDs.
pub open spec fn is_token(s: Seq<char>, n: nat) -> bool {
    exists|ids: Seq<u128>| #[trigger] token_of(s, n, ids)
}

/// `s` is the first `n` characters of the simple forms of `ids`, all of them random UUIDs.
pub open spec fn token_of(s: Seq<char>, n: nat, ids: Seq<u128>) -> bool {
    &&& forall|i: int| 0 <= i < ids.len() ==> is_v4(#[trigger] ids[i])
    &&& n <= hex_stream(ids).len()
    &&& s == hex_stream(ids).take(n as int)
}

proof fn lemma_hex(n: nat, width: nat)
    ensures
        hex(n, width).len() == width,
        forall|i: int| 0 <= i < width ==> is_hex(#[trigger] hex(n, width)[i]),
    decreases width,
{
    if width > 0 {
        lemma_hex(n / 16, (width - 1) as nat);
        let s = hex(n, width);
        assert forall|i: int| 0 <= i < width implies is_hex(#[trigger] s[i]) by {
            if i < width - 1 {
                assert(s[i] == hex(n / 16, (width - 1) as nat)[i]);
            } else {
                assert(s[i] == hex_char(n % 16));
            }
        }
    }
}

proof fn lemma_hex_stream(ids: Seq<u128>)
    ensures
        hex_stream(ids).len() == 32 * ids.len(),
        forall|i: int| 0 <= i < hex_stream(ids).len() ==> is_hex(#[trigger] hex_stream(ids)[i]),
    decreases ids.len(),
{
    if ids.len() > 0 {
        lemma_hex_stream(ids.drop_last());
        lemma_hex(ids.last() as nat, 32);
        let s = hex_stream(ids);
        let a = hex_stream(ids.drop_last());
        let b = hex(ids.last() as nat, 32);
        assert forall|i: int| 0 <= i < s.len() implies is_hex(#[trigger] s[i]) by {
            if i < a.len() {
                assert(s[i] == a[i]);
            } else {
                assert(s[i] == b[i - a.len()]);
            }
        }
    }
}

/// A token of `n` characters holds `n` hexadecimal digits.
pub proof fn token_is_hex(s: Seq<char>, n: nat)
    requires
        is_token(s, n),
    ensures
        s.len() == n,
        forall|i: int| 0 <= i < n ==> is_hex(#[trigger] s[i]),
{
    let ids = choose|ids: Seq<u128>| #[trigger] token_of(s, n, ids);
    lemma_hex_stream(ids);
    assert forall|i: int| 0 <= i < n implies is_hex(#[trigger] s[i]) by {
        assert(s[i] == hex_stream(ids)[i]);
    }
}

/// A fresh token of `n` hexadecimal digits, for a branch, a nonce or a tag.
pub fn rand_hex(n: usize) -> (r: String)
    ensures
        is_token(r@, n as nat),
        r@.len() == n,
        forall|i: int| 0 <= i < n ==> is_hex(#[trigger] r@[i]),
{
    let mut v: Vec<char> = Vec::new();
    let ghost mut ids: Seq<u128> = Seq::empty();
    while v.len() < n
        invariant
            forall|i: int| 0 <= i < ids.len() ==> is_v4(#[trigger] ids[i]),
            v@ == hex_stream(ids),
            v@.len() <= n + 32,
        decreases n + 32 - v@.len(),
    {
        let id = new_v4();
        let mut more = crate::text::chars_of(simple(id).as_str());
        proof {
            assert(ids.push(id).drop_last() =~= ids);
            lemma_hex(id as nat, 32);
            ids = ids.push(id);
        }
        v.append(&mut more);
    }
    v.truncate(n);
    let r = crate::text::string_of(v.as_slice());
    proof {
        assert(token_of(r@, n as nat, ids));
        token_is_hex(r@, n as nat);
    }
    r
}

} // verus!
