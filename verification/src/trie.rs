//! Account decoding and Merkle proof checks, done by `alloy-trie` and `alloy-rlp`.

use vstd::prelude::*;
use crate::hash::B256;
use crate::messages::byte_lists;
use alloy_rlp::Decodable;

verus! {

/// A 256-bit unsigned integer as 32 big-endian bytes.
pub type U256 = [u8; 32];

/// An account as committed to in the state trie.
#[derive(Debug, Clone, Copy, PartialEq, Eq)]
pub struct TrieAccount {
    pub nonce: u64,
    pub balance: U256,
    pub storage_root: B256,
    pub code_hash: B256,
}

/// What `alloy_trie::TrieAccount`'s RLP decoding makes of a byte string: the account it
/// decodes, or `None` where decoding fails.
pub uninterp spec fn spec_decode_trie_account(body: Seq<u8>) -> Option<TrieAccount>;

/// Whether `alloy_trie::proof::verify_proof` accepts `proof` as showing that the trie with
/// root `root` maps the key `key` (unpacked into nibbles) to `value`.
pub uninterp spec fn spec_inclusion_proof_verifies(
    root: Seq<u8>,
    key: Seq<u8>,
    value: Seq<u8>,
    proof: Seq<Seq<u8>>,
) -> bool;

/// What `<alloy_primitives::U256 as alloy_rlp::Decodable>::decode` makes of a byte string: the
/// value it decodes as 32 big-endian bytes, or `None` where decoding fails.
pub uninterp spec fn spec_decode_storage_value(data: Seq<u8>) -> Option<U256>;

/// Decodes an RLP storage value with `<alloy_primitives::U256 as alloy_rlp::Decodable>::decode`,
/// reading from the front of `data`. The contract claims only that the result is the
/// decoder's answer on these bytes, written as 32 big-endian bytes; decoding never panics.
#[verifier::external_body]
pub(crate) fn decode_storage_value(data: &Vec<u8>) -> (r: Option<U256>)
    ensures
        r == spec_decode_storage_value(data@),
{
    let mut buf: &[u8] = data.as_slice();
    match alloy_primitives::U256::decode(&mut buf) {
        Ok(v) => Some(v.to_be_bytes::<32>()),
        Err(_) => None,
    }
}

/// Decodes an RLP account body with `<alloy_trie::TrieAccount as alloy_rlp::Decodable>::decode`,
/// reading from the front of `body` (bytes after the account's list are left unread). The
/// contract claims only that the result is the decoder's answer on these bytes, with the
/// balance written as 32 big-endian bytes; decoding never panics.
#[verifier::external_body]
pub(crate) fn decode_trie_account(body: &Vec<u8>) -> (r: Option<TrieAccount>)
    ensures
        r == spec_decode_trie_account(body@),
{
    let mut buf: &[u8] = body.as_slice();
    match alloy_trie::TrieAccount::decode(&mut buf) {
        Ok(a) => Some(TrieAccount {
            nonce: a.nonce,
            balance: a.balance.to_be_bytes::<32>(),
            storage_root: a.storage_root.0,
            code_hash: a.code_hash.0,
        }),
        Err(_) => None,
    }
}

/// The big-endian value of the `n` bytes of `s` from `p`.
pub open spec fn be_len(s: Seq<u8>, p: int, n: int) -> int
    decreases n,
{
    if n <= 0 { 0 } else { be_len(s, p, n - 1) * 256 + s[p + n - 1] }
}

/// The RLP item that starts at `p` and ends by `end`: whether it is a list, where its payload
/// starts and how long it is. `None` when the header does not fit, uses more than four length
/// bytes, or the payload passes `end`.
pub open spec fn rlp_item(s: Seq<u8>, p: int, end: int) -> Option<(bool, int, int)> {
    if !(0 <= p < end && end <= s.len()) {
        None
    } else {
        let b = s[p] as int;
        let lol = if 0xb8 <= b <= 0xbf { b - 0xb7 } else if b >= 0xf8 { b - 0xf7 } else { 0 };
        if lol > 4 || p + 1 + lol > end {
            None
        } else {
            let item = if b < 0x80 {
                (false, p, 1)
            } else if b <= 0xb7 {
                (false, p + 1, b - 0x80)
            } else if b <= 0xbf {
                (false, p + 1 + lol, be_len(s, p + 1, lol))
            } else if b <= 0xf7 {
                (true, p + 1, b - 0xc0)
            } else {
                (true, p + 1 + lol, be_len(s, p + 1, lol))
            };
            if item.1 + item.2 <= end { Some(item) } else { None }
        }
    }
}

/// What a walk over the items of a list records: the number of items, the nibbles of the
/// first read as a compact (hex-prefix) key, the encoded length of the second when it is a list
/// (else zero), and the greatest encoded length of an item that is a list (zero when there is
/// none).
struct ListSummary {
    pub count: usize,
    pub first_nibbles: usize,
    pub second_list_len: usize,
    pub max_list_len: usize,
}

/// The nibbles of a compact (hex-prefix) key of `payload` bytes whose first byte is `first`:
/// two per byte after the first, and one more when the flag nibble marks an odd length; 65
/// for a key longer than 40 bytes.
pub open spec fn compact_key_nibbles(payload: int, first: u8) -> int {
    if payload <= 0 {
        0
    } else if payload > 40 {
        65
    } else {
        2 * (payload - 1) + (first as int / 16) % 2
    }
}

/// `w` after one more item, a list exactly when `is_list`, with payload length `payload`
/// (whose first byte is `first`) and encoded length `total`.
pub open spec fn summary_step(w: (nat, int, int, int), is_list: bool, payload: int, first: u8, total: int) -> (nat, int, int, int) {
    let list_total = if is_list { total } else { 0 };
    (
        w.0 + 1,
        if w.0 == 0 { compact_key_nibbles(payload, first) } else { w.1 },
        if w.0 == 1 { list_total } else { w.2 },
        if list_total > w.3 { list_total } else { w.3 },
    )
}

/// The summary `w` extended by the items of `s` from `p` to `end`; `None` when an item does
/// not parse.
pub open spec fn list_walk(s: Seq<u8>, p: int, end: int, w: (nat, int, int, int)) -> Option<(nat, int, int, int)>
    decreases end - p,
{
    if p >= end {
        Some(w)
    } else {
        match rlp_item(s, p, end) {
            None => None,
            Some(item) => if item.1 + item.2 <= p {
                None
            } else {
                list_walk(s, item.1 + item.2, end, summary_step(w, item.0, item.2, s[item.1], item.1 + item.2 - p))
            },
        }
    }
}

/// An upper bound on the nibbles that checking a proof through node `s` adds to the walked
/// path: for a node of two items, the nibbles of its key and twice the length of the second
/// item when it is an embedded node; for a branch of seventeen items, one nibble and twice the
/// length of its longest embedded node; otherwise twice the node's length. An embedded key of
/// `n` nibbles takes at least `n / 2` bytes, and an embedded branch at least seventeen.
pub open spec fn node_walk_bound(s: Seq<u8>) -> int {
    match rlp_item(s, 0, s.len() as int) {
        Some((true, st, ln)) => match list_walk(s, st, st + ln, (0, 0, 0, 0)) {
            Some(w) => if w.0 == 2 {
                w.1 + 2 * w.2
            } else if w.0 == 17 {
                1 + 2 * w.3
            } else {
                2 * (s.len() as int)
            },
            None => 2 * (s.len() as int),
        },
        _ => 2 * (s.len() as int),
    }
}

/// The sum of [`node_walk_bound`] over the nodes of a proof.
pub open spec fn proof_walk_bound(proof: Seq<Seq<u8>>) -> int
    decreases proof.len(),
{
    if proof.len() == 0 { 0 } else { proof_walk_bound(proof.drop_last()) + node_walk_bound(proof.last()) }
}

/// The RLP item header at `p` within `s[..end]` (see [`rlp_item`]).
fn rlp_item_at(s: &Vec<u8>, p: usize, end: usize) -> (r: Option<(bool, usize, usize)>)
    requires
        end <= s@.len(),
    ensures
        match (r, rlp_item(s@, p as int, end as int)) {
            (Some(a), Some(b)) => a.0 == b.0 && a.1 == b.1 && a.2 == b.2,
            (None, None) => true,
            _ => false,
        },
{
    if p >= end {
        return None;
    }
    let b = s[p];
    let lol: usize = if 0xb8 <= b && b <= 0xbf { (b - 0xb7) as usize } else if b >= 0xf8 { (b - 0xf7) as usize } else { 0 };
    if lol > 4 || end - p - 1 < lol {
        return None;
    }
    let mut len: u64 = 0;
    let mut k: usize = 0;
    while k < lol
        invariant
            0 <= k <= lol <= 4,
            p + 1 + lol <= end <= s@.len(),
            len == be_len(s@, p + 1, k as int),
            len < pow256_small(k as int),
        decreases lol - k,
    {
        proof {
            assert(pow256_small(k as int) <= 0x100_0000) by {
                reveal_with_fuel(pow256_small, 5);
            }
            assert(be_len(s@, p + 1, k + 1) == be_len(s@, p + 1, k as int) * 256 + s@[p + 1 + k]);
            assert(pow256_small(k + 1) == pow256_small(k as int) * 256);
            assert(len * 256 + s@[p + 1 + k] < pow256_small(k + 1)) by (nonlinear_arith)
                requires
                    len < pow256_small(k as int),
                    s@[p + 1 + k] < 256,
                    pow256_small(k + 1) == pow256_small(k as int) * 256,
            ;
        }
        len = len * 256 + s[p + 1 + k] as u64;
        k += 1;
    }
    let (is_list, start, plen): (bool, usize, u64) = if b < 0x80 {
        (false, p, 1)
    } else if b <= 0xb7 {
        (false, p + 1, (b - 0x80) as u64)
    } else if b <= 0xbf {
        (false, p + 1 + lol, len)
    } else if b <= 0xf7 {
        (true, p + 1, (b - 0xc0) as u64)
    } else {
        (true, p + 1 + lol, len)
    };
    if plen > (end - start) as u64 {
        return None;
    }
    Some((is_list, start, plen as usize))
}

/// `256^k` for the few length bytes of an RLP header.
pub open spec fn pow256_small(k: int) -> int
    decreases k,
{
    if k <= 0 { 1 } else { 256 * pow256_small(k - 1) }
}

/// Walks the items of `s` from `p` to `end` (see [`list_walk`]).
fn walk_list(s: &Vec<u8>, p: usize, end: usize) -> (r: Option<ListSummary>)
    requires
        end <= s@.len(),
        p <= end,
    ensures
        match (r, list_walk(s@, p as int, end as int, (0, 0, 0, 0))) {
            (Some(a), Some(b)) => a.count == b.0 && a.first_nibbles == b.1 && a.second_list_len == b.2 && a.max_list_len == b.3,
            (None, None) => true,
            _ => false,
        },
{
    let mut w = ListSummary { count: 0, first_nibbles: 0, second_list_len: 0, max_list_len: 0 };
    let mut q: usize = p;
    while q < end
        invariant
            p <= q <= end <= s@.len(),
            w.count <= q - p,
            list_walk(s@, q as int, end as int, (w.count as nat, w.first_nibbles as int, w.second_list_len as int, w.max_list_len as int))
                == list_walk(s@, p as int, end as int, (0, 0, 0, 0)),
        decreases end - q,
    {
        match rlp_item_at(s, q, end) {
            None => {
                return None;
            },
            Some((is_list, start, plen)) => {
                let next = start + plen;
                if next <= q {
                    return None;
                }
                let total = next - q;
                let list_total = if is_list { total } else { 0 };
                let nibbles: usize = if plen == 0 {
                    0
                } else if plen > 40 {
                    65
                } else {
                    2 * (plen - 1) + ((s[start] / 16) % 2) as usize
                };
                w = ListSummary {
                    count: w.count + 1,
                    first_nibbles: if w.count == 0 { nibbles } else { w.first_nibbles },
                    second_list_len: if w.count == 1 { list_total } else { w.second_list_len },
                    max_list_len: if list_total > w.max_list_len { list_total } else { w.max_list_len },
                };
                q = next;
            },
        }
    }
    Some(w)
}

/// [`node_walk_bound`] of `s`, capped at 65.
fn node_bound_of(s: &Vec<u8>) -> (b: usize)
    ensures
        b == if node_walk_bound(s@) < 65 { node_walk_bound(s@) } else { 65 },
{
    let fallback: usize = if s.len() < 33 { 2 * s.len() } else { 65 };
    match rlp_item_at(s, 0, s.len()) {
        Some((true, st, ln)) => match walk_list(s, st, st + ln) {
            Some(w) => {
                if w.count == 2 {
                    if w.first_nibbles < 65 && w.second_list_len < 33 {
                        let v = w.first_nibbles + 2 * w.second_list_len;
                        if v < 65 { v } else { 65 }
                    } else {
                        65
                    }
                } else if w.count == 17 {
                    if w.max_list_len < 32 { 1 + 2 * w.max_list_len } else { 65 }
                } else {
                    fallback
                }
            },
            None => fallback,
        },
        _ => fallback,
    }
}

/// Whether checking `proof` walks at most the 64 nibbles of a key, by [`proof_walk_bound`].
pub fn proof_walk_within_key(proof: &Vec<Vec<u8>>) -> (r: bool)
    ensures
        r == (proof_walk_bound(byte_lists(proof@)) <= 64),
{
    let mut total: usize = 0;
    let mut i: usize = 0;
    while i < proof.len()
        invariant
            0 <= i <= proof@.len(),
            total == proof_walk_bound(byte_lists(proof@).take(i as int)),
            total <= 64,
        decreases proof@.len() - i,
    {
        proof {
            assert(byte_lists(proof@).take(i + 1).drop_last() =~= byte_lists(proof@).take(i as int));
            assert(byte_lists(proof@).take(i + 1).last() == proof@[i as int]@);
            lemma_walk_bound_nonneg(proof@[i as int]@);
        }
        let b = node_bound_of(&proof[i]);
        if total + b > 64 {
            proof {
                lemma_proof_walk_prefix(byte_lists(proof@), i + 1);
            }
            return false;
        }
        total = total + b;
        i += 1;
    }
    proof {
        assert(byte_lists(proof@).take(proof@.len() as int) =~= byte_lists(proof@));
    }
    true
}

/// A node's bound is never negative.
proof fn lemma_walk_bound_nonneg(s: Seq<u8>)
    ensures
        node_walk_bound(s) >= 0,
{
    match rlp_item(s, 0, s.len() as int) {
        Some((true, st, ln)) => {
            lemma_list_walk_nonneg(s, st, st + ln, (0, 0, 0, 0));
        },
        _ => {},
    }
}

/// A walk keeps its lengths non-negative.
proof fn lemma_list_walk_nonneg(s: Seq<u8>, p: int, end: int, w: (nat, int, int, int))
    requires
        w.1 >= 0 && w.2 >= 0 && w.3 >= 0,
    ensures
        list_walk(s, p, end, w) matches Some(v) ==> v.1 >= 0 && v.2 >= 0 && v.3 >= 0,
    decreases end - p,
{
    if p < end {
        match rlp_item(s, p, end) {
            None => {},
            Some(item) => {
                if item.1 + item.2 > p {
                    lemma_rlp_item_bounds(s, p, end);
                    lemma_list_walk_nonneg(s, item.1 + item.2, end, summary_step(w, item.0, item.2, s[item.1], item.1 + item.2 - p));
                }
            },
        }
    }
}

/// A parsed item lies within `s[p..end]`.
proof fn lemma_rlp_item_bounds(s: Seq<u8>, p: int, end: int)
    ensures
        rlp_item(s, p, end) matches Some(item) ==> p <= item.1 && item.2 >= 0 && item.1 + item.2 <= end,
{
    if 0 <= p < end && end <= s.len() {
        let b = s[p] as int;
        let lol = if 0xb8 <= b <= 0xbf { b - 0xb7 } else if b >= 0xf8 { b - 0xf7 } else { 0 };
        lemma_be_len_nonneg(s, p + 1, lol);
    }
}

/// A big-endian value is never negative.
proof fn lemma_be_len_nonneg(s: Seq<u8>, p: int, n: int)
    ensures
        be_len(s, p, n) >= 0,
    decreases n,
{
    if n > 0 {
        lemma_be_len_nonneg(s, p, n - 1);
    }
}

/// Bounds of proof prefixes never exceed the bound of a longer prefix.
proof fn lemma_proof_walk_prefix(proof: Seq<Seq<u8>>, i: int)
    requires
        0 <= i <= proof.len(),
    ensures
        proof_walk_bound(proof.take(i)) <= proof_walk_bound(proof),
    decreases proof.len(),
{
    if proof.len() > 0 {
        lemma_walk_bound_nonneg(proof.last());
        if i == proof.len() {
            assert(proof.take(i) =~= proof);
        } else {
            assert(proof.drop_last().take(i) =~= proof.take(i));
            lemma_proof_walk_prefix(proof.drop_last(), i);
        }
    }
}

/// Calls `alloy_trie::proof::verify_proof(root, Nibbles::unpack(key), Some(value), proof)` and
/// reports whether it returned `Ok`. The contract claims only that the answer is a function of
/// these four arguments; the 32-byte key never makes the unpacking panic. `verify_proof`
/// panics when the path it walks passes the 64 nibbles of a key (each extension and leaf key
/// and each branch step lengthens it), so proofs whose [`proof_walk_bound`] passes 64 are
/// left out.
#[verifier::external_body]
pub(crate) fn verify_inclusion_proof(root: &B256, key: &B256, value: &Vec<u8>, proof: &Vec<Vec<u8>>) -> (r:
    bool)
    requires
        proof_walk_bound(byte_lists(proof@)) <= 64,
    ensures
        r == spec_inclusion_proof_verifies(root@, key@, value@, proof.deep_view()),
{
    let nodes: Vec<alloy_primitives::Bytes> =
        proof.iter().map(|p| alloy_primitives::Bytes::copy_from_slice(p)).collect();
    alloy_trie::proof::verify_proof(
        alloy_primitives::B256::from(*root),
        alloy_trie::Nibbles::unpack(key),
        Some(value.clone()),
        nodes.iter(),
    ).is_ok()
}

} // verus!
