//! Peer management for snap sync: per peer request metrics, availability after failures,
//! and selection of the peer to ask next.

use vstd::prelude::*;
use std::time::{Duration, Instant};
use crate::clock::{instant_now, duration_between, duration_longer, duration_from_secs};
use crate::hash::B256;

verus! {

/// Performance metrics for a peer.
#[derive(Debug, Clone, Copy)]
pub struct PeerMetrics {
    /// Total requests made to this peer
    pub total_requests: u64,
    /// Successful requests
    pub successful_requests: u64,
    /// Failed requests
    pub failed_requests: u64,
    /// Average response time in milliseconds
    pub avg_response_time_ms: u64,
    /// Total bytes downloaded
    pub total_bytes_downloaded: u64,
    /// Last request time
    pub last_request_time: Option<Instant>,
}

/// Whether every request of these metrics is counted once, as a success or a failure.
pub open spec fn requests_balanced(m: PeerMetrics) -> bool {
    m.total_requests == m.successful_requests + m.failed_requests
}

/// Recording a success or a failure, as `record_success` and `record_failure` do, keeps every
/// request counted once; so the successes never pass the requests and the success rate stays
/// between zero and one.
pub proof fn lemma_records_keep_requests_balanced(m: PeerMetrics, n: PeerMetrics)
    requires
        requests_balanced(m),
        n.total_requests == m.total_requests + 1,
        (n.successful_requests == m.successful_requests + 1 && n.failed_requests == m.failed_requests)
            || (n.successful_requests == m.successful_requests && n.failed_requests == m.failed_requests + 1),
    ensures
        requests_balanced(n),
        n.successful_requests <= n.total_requests,
{
}

/// Whether a peer with these metrics reaches a success rate of `min_permille` thousandths:
/// `successful / total >= min_permille / 1000`, the rate of a peer without requests being zero.
pub open spec fn rate_at_least(m: PeerMetrics, min_permille: u64) -> bool {
    if m.total_requests == 0 {
        min_permille == 0
    } else {
        m.successful_requests * 1000 >= min_permille * m.total_requests
    }
}

/// Whether the success rate of `a` is below that of `b` (a peer without requests has rate zero).
pub open spec fn rate_lt(a: PeerMetrics, b: PeerMetrics) -> bool {
    let ra = if a.total_requests == 0 { 0 } else { a.successful_requests as int };
    let ta = if a.total_requests == 0 { 1 } else { a.total_requests as int };
    let rb = if b.total_requests == 0 { 0 } else { b.successful_requests as int };
    let tb = if b.total_requests == 0 { 1 } else { b.total_requests as int };
    ra * tb < rb * ta
}

/// The average response time after a success that took `response_time_ms`: the sample itself
/// when no average is recorded yet, else the mean of average and sample, rounded down.
pub open spec fn next_avg_ms(avg: u64, response_time_ms: u64) -> u64 {
    if avg == 0 {
        response_time_ms
    } else {
        ((avg + response_time_ms) / 2) as u64
    }
}

impl Default for PeerMetrics {
    /// Metrics of a peer not asked yet.
    fn default() -> (m: Self)
        ensures
            m.total_requests == 0,
            m.successful_requests == 0,
            m.failed_requests == 0,
            m.avg_response_time_ms == 0,
            m.total_bytes_downloaded == 0,
            m.last_request_time is None,
    {
        PeerMetrics {
            total_requests: 0,
            successful_requests: 0,
            failed_requests: 0,
            avg_response_time_ms: 0,
            total_bytes_downloaded: 0,
            last_request_time: None,
        }
    }
}

impl PeerMetrics {
    /// Update metrics after a successful request that took `response_time_ms` milliseconds
    /// and downloaded `bytes_downloaded` bytes.
    pub fn record_success(&mut self, response_time_ms: u64, bytes_downloaded: u64)
        requires
            old(self).total_requests < u64::MAX,
            old(self).successful_requests < u64::MAX,
            old(self).total_bytes_downloaded + bytes_downloaded <= u64::MAX,
        ensures
            final(self).total_requests == old(self).total_requests + 1,
            final(self).successful_requests == old(self).successful_requests + 1,
            final(self).failed_requests == old(self).failed_requests,
            final(self).total_bytes_downloaded == old(self).total_bytes_downloaded + bytes_downloaded,
            final(self).avg_response_time_ms == next_avg_ms(old(self).avg_response_time_ms, response_time_ms),
            final(self).last_request_time is Some,
    {
        self.total_requests = self.total_requests + 1;
        self.successful_requests = self.successful_requests + 1;
        self.total_bytes_downloaded = self.total_bytes_downloaded + bytes_downloaded;
        self.last_request_time = Some(instant_now());
        if self.avg_response_time_ms == 0 {
            self.avg_response_time_ms = response_time_ms;
        } else {
            let sum: u128 = self.avg_response_time_ms as u128 + response_time_ms as u128;
            self.avg_response_time_ms = (sum / 2) as u64;
        }
    }

    /// Update metrics after a failed request.
    pub fn record_failure(&mut self)
        requires
            old(self).total_requests < u64::MAX,
            old(self).failed_requests < u64::MAX,
        ensures
            final(self).total_requests == old(self).total_requests + 1,
            final(self).successful_requests == old(self).successful_requests,
            final(self).failed_requests == old(self).failed_requests + 1,
            final(self).total_bytes_downloaded == old(self).total_bytes_downloaded,
            final(self).avg_response_time_ms == old(self).avg_response_time_ms,
            final(self).last_request_time is Some,
    {
        self.total_requests = self.total_requests + 1;
        self.failed_requests = self.failed_requests + 1;
        self.last_request_time = Some(instant_now());
    }

    /// Whether the success rate reaches `min_permille` thousandths.
    pub fn meets_success_rate(&self, min_permille: u64) -> (r: bool)
        ensures
            r == rate_at_least(*self, min_permille),
    {
        if self.total_requests == 0 {
            min_permille == 0
        } else {
            let m = min_permille as u128;
            let t = self.total_requests as u128;
            proof {
                assert(m * t <= 0xffff_ffff_ffff_ffff * 0xffff_ffff_ffff_ffff) by (nonlinear_arith)
                    requires m <= 0xffff_ffff_ffff_ffff, t <= 0xffff_ffff_ffff_ffff;
            }
            (self.successful_requests as u128) * 1000 >= (min_permille as u128) * (self.total_requests as u128)
        }
    }

    /// Whether the success rate of `self` is below that of `other`.
    pub fn success_rate_below(&self, other: &PeerMetrics) -> (r: bool)
        ensures
            r == rate_lt(*self, *other),
    {
        let ra: u128 = if self.total_requests == 0 { 0 } else { self.successful_requests as u128 };
        let ta: u128 = if self.total_requests == 0 { 1 } else { self.total_requests as u128 };
        let rb: u128 = if other.total_requests == 0 { 0 } else { other.successful_requests as u128 };
        let tb: u128 = if other.total_requests == 0 { 1 } else { other.total_requests as u128 };
        proof {
            assert(ra * tb <= 0xffff_ffff_ffff_ffff * 0xffff_ffff_ffff_ffff) by (nonlinear_arith)
                requires ra <= 0xffff_ffff_ffff_ffff, tb <= 0xffff_ffff_ffff_ffff;
            assert(rb * ta <= 0xffff_ffff_ffff_ffff * 0xffff_ffff_ffff_ffff) by (nonlinear_arith)
                requires rb <= 0xffff_ffff_ffff_ffff, ta <= 0xffff_ffff_ffff_ffff;
        }
        ra * tb < rb * ta
    }
}

/// Information about a snap sync peer.
#[derive(Debug, Clone)]
pub struct SnapSyncPeer {
    /// Peer ID
    pub peer_id: String,
    /// Whether the peer supports snap sync
    pub supports_snap_sync: bool,
    /// Peer's current state root
    pub state_root: Option<B256>,
    /// Peer's block number
    pub block_number: Option<u64>,
    /// Peer's performance metrics
    pub metrics: PeerMetrics,
    /// Last successful request time
    pub last_success: Option<Instant>,
    /// Last failure time
    pub last_failure: Option<Instant>,
    /// Number of consecutive failures
    pub consecutive_failures: u32,
    /// Whether the peer is currently available
    pub is_available: bool,
}

/// Strategy for selecting peers.
#[derive(Debug, Clone, Copy, PartialEq, Eq, Structural)]
pub enum PeerSelectionStrategy {
    /// Select peer with highest success rate
    BestPerformance,
    /// Select peer with lowest response time
    FastestResponse,
    /// Select the peer with the least peer id
    RoundRobin,
    /// Select the first eligible peer
    Random,
}

/// Lexicographic order of byte strings, a proper prefix coming first.
pub open spec fn bytes_lt(a: Seq<u8>, b: Seq<u8>) -> bool
    decreases a.len(),
{
    if a.len() == 0 {
        b.len() > 0
    } else if b.len() == 0 {
        false
    } else if a[0] != b[0] {
        a[0] < b[0]
    } else {
        bytes_lt(a.drop_first(), b.drop_first())
    }
}

/// The order of peer ids: the order of their UTF-8 bytes, as `String`'s order.
pub open spec fn id_lt(a: String, b: String) -> bool {
    bytes_lt(vstd::utf8::encode_utf8(a@), vstd::utf8::encode_utf8(b@))
}

/// Whether `a < b` as strings.
pub fn string_lt(a: &String, b: &String) -> (r: bool)
    ensures
        r == id_lt(*a, *b),
{
    let x = a.as_str().as_bytes();
    let y = b.as_str().as_bytes();
    let mut i: usize = 0;
    proof {
        assert(x@.subrange(0, x@.len() as int) =~= x@);
        assert(y@.subrange(0, y@.len() as int) =~= y@);
    }
    while i < x.len() && i < y.len()
        invariant
            0 <= i <= x@.len(),
            i <= y@.len(),
            x@ == vstd::utf8::encode_utf8(a@),
            y@ == vstd::utf8::encode_utf8(b@),
            bytes_lt(x@, y@) == bytes_lt(x@.subrange(i as int, x@.len() as int), y@.subrange(i as int, y@.len() as int)),
        decreases x@.len() - i,
    {
        if x[i] != y[i] {
            proof {
                let xs = x@.subrange(i as int, x@.len() as int);
                let ys = y@.subrange(i as int, y@.len() as int);
                assert(xs[0] == x@[i as int]);
                assert(ys[0] == y@[i as int]);
            }
            return x[i] < y[i];
        }
        proof {
            let xs = x@.subrange(i as int, x@.len() as int);
            let ys = y@.subrange(i as int, y@.len() as int);
            assert(xs.drop_first() =~= x@.subrange(i + 1, x@.len() as int));
            assert(ys.drop_first() =~= y@.subrange(i + 1, y@.len() as int));
        }
        i += 1;
    }
    proof {
        let xs = x@.subrange(i as int, x@.len() as int);
        let ys = y@.subrange(i as int, y@.len() as int);
        assert(xs.len() == x@.len() - i);
        assert(ys.len() == y@.len() - i);
    }
    x.len() - i == 0 && y.len() - i > 0
}


pub proof fn lemma_bytes_lt_irreflexive(a: Seq<u8>)
    ensures
        !bytes_lt(a, a),
    decreases a.len(),
{
    if a.len() > 0 {
        lemma_bytes_lt_irreflexive(a.drop_first());
    }
}

pub proof fn lemma_bytes_lt_transitive(a: Seq<u8>, b: Seq<u8>, c: Seq<u8>)
    requires
        bytes_lt(a, b),
        bytes_lt(b, c),
    ensures
        bytes_lt(a, c),
    decreases a.len(),
{
    if a.len() > 0 && b.len() > 0 && c.len() > 0 {
        if a[0] == b[0] && b[0] == c[0] {
            lemma_bytes_lt_transitive(a.drop_first(), b.drop_first(), c.drop_first());
        }
    }
}

pub proof fn lemma_bytes_lt_total(a: Seq<u8>, b: Seq<u8>)
    requires
        a != b,
    ensures
        bytes_lt(a, b) || bytes_lt(b, a),
    decreases a.len(),
{
    if a.len() == 0 {
        if b.len() == 0 {
            assert(a =~= b);
        }
    } else if b.len() > 0 && a[0] == b[0] {
        if a.drop_first() =~= b.drop_first() {
            assert(a.len() == b.len());
            assert forall|i: int| 0 <= i < a.len() implies a[i] == b[i] by {
                if i > 0 {
                    assert(a[i] == a.drop_first()[i - 1]);
                    assert(b[i] == b.drop_first()[i - 1]);
                }
            }
            assert(a =~= b);
        }
        lemma_bytes_lt_total(a.drop_first(), b.drop_first());
    }
}

/// Distinct strings have distinct UTF-8 encodings.
pub proof fn lemma_encode_injective(a: Seq<char>, b: Seq<char>)
    requires
        a != b,
    ensures
        vstd::utf8::encode_utf8(a) != vstd::utf8::encode_utf8(b),
{
    vstd::utf8::encode_utf8_decode_utf8(a);
    vstd::utf8::encode_utf8_decode_utf8(b);
}

/// `a <= b` by success rate, given a and b are each no worse than the next.
pub proof fn lemma_rate_le_transitive(a: PeerMetrics, b: PeerMetrics, c: PeerMetrics)
    requires
        !rate_lt(a, b),
        !rate_lt(b, c),
    ensures
        !rate_lt(a, c),
{
    let ra = if a.total_requests == 0 { 0 } else { a.successful_requests as int };
    let ta = if a.total_requests == 0 { 1 } else { a.total_requests as int };
    let rb = if b.total_requests == 0 { 0 } else { b.successful_requests as int };
    let tb = if b.total_requests == 0 { 1 } else { b.total_requests as int };
    let rc = if c.total_requests == 0 { 0 } else { c.successful_requests as int };
    let tc = if c.total_requests == 0 { 1 } else { c.total_requests as int };
    assert(rc * ta <= ra * tc) by (nonlinear_arith)
        requires
            rb * ta <= ra * tb,
            rc * tb <= rb * tc,
            ta > 0,
            tb > 0,
            tc > 0,
            ra >= 0,
            rb >= 0,
            rc >= 0,
    {
        assert(rb * ta * tc <= ra * tb * tc);
        assert(rc * tb * ta <= rb * tc * ta);
        assert(rc * ta * tb <= ra * tc * tb);
    }
}

/// Whether a peer may be selected: available, supporting snap sync, and reaching the minimum
/// success rate.
pub open spec fn eligible(p: SnapSyncPeer, min_permille: u64) -> bool {
    p.is_available && p.supports_snap_sync && rate_at_least(p.metrics, min_permille)
}

/// Whether peer `i` is the one `strategy` selects among the eligible peers of the first `n`
/// peers of `s`, scanning in order. On ties the best success rate keeps the last of equal
/// peers, the fastest response the first, and round robin takes the least peer id.
pub open spec fn selected_within(
    s: Seq<SnapSyncPeer>,
    min_permille: u64,
    strategy: PeerSelectionStrategy,
    i: int,
    n: int,
) -> bool {
    &&& 0 <= i < n <= s.len()
    &&& eligible(s[i], min_permille)
    &&& match strategy {
        PeerSelectionStrategy::BestPerformance => {
            &&& forall|j: int| 0 <= j < n && eligible(s[j], min_permille) ==> !rate_lt(s[i].metrics, #[trigger] s[j].metrics)
            &&& forall|j: int| i < j < n && eligible(s[j], min_permille) ==> rate_lt(#[trigger] s[j].metrics, s[i].metrics)
        },
        PeerSelectionStrategy::FastestResponse => {
            &&& forall|j: int| 0 <= j < n && eligible(s[j], min_permille) ==> s[i].metrics.avg_response_time_ms <= (#[trigger] s[j].metrics).avg_response_time_ms
            &&& forall|j: int| 0 <= j < i && eligible(s[j], min_permille) ==> s[i].metrics.avg_response_time_ms < (#[trigger] s[j].metrics).avg_response_time_ms
        },
        PeerSelectionStrategy::RoundRobin => {
            forall|j: int| 0 <= j < n && j != i && eligible(s[j], min_permille) ==> id_lt(s[i].peer_id, #[trigger] s[j].peer_id)
        },
        PeerSelectionStrategy::Random => {
            forall|j: int| 0 <= j < i ==> !eligible(#[trigger] s[j], min_permille)
        },
    }
}

/// Whether peer `i` is the one `strategy` selects among the eligible peers of `s`.
pub open spec fn selected_by(s: Seq<SnapSyncPeer>, min_permille: u64, strategy: PeerSelectionStrategy, i: int) -> bool {
    selected_within(s, min_permille, strategy, i, s.len() as int)
}

/// The first eligible peer is selected among the peers up to it, whatever the strategy.
proof fn lemma_select_first(s: Seq<SnapSyncPeer>, min_permille: u64, strategy: PeerSelectionStrategy, i: int)
    requires
        0 <= i < s.len(),
        eligible(s[i], min_permille),
        forall|j: int| 0 <= j < i ==> !eligible(#[trigger] s[j], min_permille),
    ensures
        selected_within(s, min_permille, strategy, i, i + 1),
{
}

/// A peer that is not eligible leaves the selection as it was.
proof fn lemma_select_skip(s: Seq<SnapSyncPeer>, min_permille: u64, strategy: PeerSelectionStrategy, b: int, i: int)
    requires
        selected_within(s, min_permille, strategy, b, i),
        i < s.len(),
        !eligible(s[i], min_permille),
    ensures
        selected_within(s, min_permille, strategy, b, i + 1),
{
}

/// One step of selection: the peer at `i` replaces the peer selected so far exactly when
/// `take`, as the strategy compares them.
proof fn lemma_select_step(
    s: Seq<SnapSyncPeer>,
    min_permille: u64,
    strategy: PeerSelectionStrategy,
    b: int,
    i: int,
    take: bool,
)
    requires
        ids_distinct(s),
        selected_within(s, min_permille, strategy, b, i),
        i < s.len(),
        eligible(s[i], min_permille),
        take == match strategy {
            PeerSelectionStrategy::BestPerformance => !rate_lt(s[i].metrics, s[b].metrics),
            PeerSelectionStrategy::FastestResponse => s[i].metrics.avg_response_time_ms < s[b].metrics.avg_response_time_ms,
            PeerSelectionStrategy::RoundRobin => id_lt(s[i].peer_id, s[b].peer_id),
            PeerSelectionStrategy::Random => false,
        },
    ensures
        take ==> selected_within(s, min_permille, strategy, i, i + 1),
        !take ==> selected_within(s, min_permille, strategy, b, i + 1),
{
    match strategy {
        PeerSelectionStrategy::BestPerformance => {
            if take {
                assert forall|j: int| 0 <= j < i + 1 && eligible(s[j], min_permille) implies !rate_lt(s[i].metrics, #[trigger] s[j].metrics) by {
                    if j < i {
                        lemma_rate_le_transitive(s[i].metrics, s[b].metrics, s[j].metrics);
                    }
                }
            } else {
                assert forall|j: int| 0 <= j < i + 1 && eligible(s[j], min_permille) implies !rate_lt(s[b].metrics, #[trigger] s[j].metrics) by {
                }
                assert forall|j: int| b < j < i + 1 && eligible(s[j], min_permille) implies rate_lt(#[trigger] s[j].metrics, s[b].metrics) by {
                }
            }
        },
        PeerSelectionStrategy::FastestResponse => {
            if take {
                assert forall|j: int| 0 <= j < i + 1 && eligible(s[j], min_permille) implies s[i].metrics.avg_response_time_ms <= (#[trigger] s[j].metrics).avg_response_time_ms by {
                }
                assert forall|j: int| 0 <= j < i && eligible(s[j], min_permille) implies s[i].metrics.avg_response_time_ms < (#[trigger] s[j].metrics).avg_response_time_ms by {
                }
            } else {
                assert forall|j: int| 0 <= j < i + 1 && eligible(s[j], min_permille) implies s[b].metrics.avg_response_time_ms <= (#[trigger] s[j].metrics).avg_response_time_ms by {
                }
            }
        },
        PeerSelectionStrategy::RoundRobin => {
            if take {
                assert forall|j: int| 0 <= j < i + 1 && j != i && eligible(s[j], min_permille) implies id_lt(s[i].peer_id, #[trigger] s[j].peer_id) by {
                    if j != b {
                        lemma_bytes_lt_transitive(
                            vstd::utf8::encode_utf8(s[i].peer_id@),
                            vstd::utf8::encode_utf8(s[b].peer_id@),
                            vstd::utf8::encode_utf8(s[j].peer_id@),
                        );
                    }
                }
            } else {
                assert(s[b].peer_id@ != s[i].peer_id@);
                lemma_encode_injective(s[b].peer_id@, s[i].peer_id@);
                lemma_bytes_lt_total(vstd::utf8::encode_utf8(s[b].peer_id@), vstd::utf8::encode_utf8(s[i].peer_id@));
                assert forall|j: int| 0 <= j < i + 1 && j != b && eligible(s[j], min_permille) implies id_lt(s[b].peer_id, #[trigger] s[j].peer_id) by {
                }
            }
        },
        PeerSelectionStrategy::Random => {},
    }
}

/// Whether the peers of `s` have pairwise distinct ids.
pub open spec fn ids_distinct(s: Seq<SnapSyncPeer>) -> bool {
    forall|i: int, j: int| 0 <= i < s.len() && 0 <= j < s.len() && i != j ==> (#[trigger] s[i]).peer_id@ != (#[trigger] s[j]).peer_id@
}

/// The position of the peer with id `id` in `s`, if any.
pub open spec fn position_of(s: Seq<SnapSyncPeer>, id: Seq<char>) -> Option<int> {
    if exists|i: int| 0 <= i < s.len() && (#[trigger] s[i]).peer_id@ == id {
        Some(choose|i: int| 0 <= i < s.len() && (#[trigger] s[i]).peer_id@ == id)
    } else {
        None
    }
}

/// Whether `p` is a newly added peer with id `id`.
pub open spec fn fresh_peer(p: SnapSyncPeer, id: Seq<char>, supports_snap_sync: bool) -> bool {
    &&& p.peer_id@ == id
    &&& p.supports_snap_sync == supports_snap_sync
    &&& p.state_root is None
    &&& p.block_number is None
    &&& p.metrics.total_requests == 0
    &&& p.metrics.successful_requests == 0
    &&& p.metrics.failed_requests == 0
    &&& p.metrics.avg_response_time_ms == 0
    &&& p.metrics.total_bytes_downloaded == 0
    &&& p.metrics.last_request_time is None
    &&& p.last_success is None
    &&& p.last_failure is None
    &&& p.consecutive_failures == 0
    &&& p.is_available
}

/// Whether `t` is `s` after adding a fresh peer with id `id`: a known peer of that id is
/// replaced in place, else the new peer comes last.
pub open spec fn peer_added(s: Seq<SnapSyncPeer>, t: Seq<SnapSyncPeer>, id: Seq<char>, supports_snap_sync: bool) -> bool {
    match position_of(s, id) {
        Some(i) => t.len() == s.len()
            && fresh_peer(t[i], id, supports_snap_sync)
            && forall|j: int| 0 <= j < s.len() && j != i ==> t[j] == s[j],
        None => t.len() == s.len() + 1
            && t.drop_last() == s
            && fresh_peer(t.last(), id, supports_snap_sync),
    }
}

/// Whether `t` is `s` without its peer of id `id`, the others kept in order.
pub open spec fn peer_removed(s: Seq<SnapSyncPeer>, t: Seq<SnapSyncPeer>, id: Seq<char>) -> bool {
    match position_of(s, id) {
        Some(i) => t == s.remove(i),
        None => t == s,
    }
}

/// The ids of the peers that are available and support snap sync, in order.
pub open spec fn available_ids(s: Seq<SnapSyncPeer>) -> Seq<Seq<char>>
    decreases s.len(),
{
    if s.len() == 0 {
        Seq::empty()
    } else {
        let p = available_ids(s.drop_last());
        if s.last().is_available && s.last().supports_snap_sync {
            p.push(s.last().peer_id@)
        } else {
            p
        }
    }
}

/// The sum of a per peer figure `f` over `s`.
pub open spec fn sum_of(s: Seq<SnapSyncPeer>, f: spec_fn(SnapSyncPeer) -> int) -> int
    decreases s.len(),
{
    if s.len() == 0 { 0 } else { sum_of(s.drop_last(), f) + f(s.last()) }
}

/// Requests made to a peer.
pub open spec fn requests_of(p: SnapSyncPeer) -> int {
    p.metrics.total_requests as int
}

/// Successful requests made to a peer.
pub open spec fn successes_of(p: SnapSyncPeer) -> int {
    p.metrics.successful_requests as int
}

/// Bytes downloaded from a peer.
pub open spec fn bytes_of(p: SnapSyncPeer) -> int {
    p.metrics.total_bytes_downloaded as int
}

/// One for an available peer, else zero.
pub open spec fn one_if_available(p: SnapSyncPeer) -> int {
    if p.is_available { 1 } else { 0 }
}

/// One for a peer supporting snap sync, else zero.
pub open spec fn one_if_snap(p: SnapSyncPeer) -> int {
    if p.supports_snap_sync { 1 } else { 0 }
}

/// A sum over a prefix never exceeds the sum over the whole sequence, for a figure that is
/// never negative.
pub proof fn lemma_sum_of_prefix_le(s: Seq<SnapSyncPeer>, f: spec_fn(SnapSyncPeer) -> int, i: int)
    requires
        0 <= i <= s.len(),
        forall|p: SnapSyncPeer| #[trigger] f(p) >= 0,
    ensures
        0 <= sum_of(s.take(i), f) <= sum_of(s, f),
    decreases s.len(),
{
    if s.len() > 0 {
        if i == s.len() {
            assert(s.take(i) =~= s);
            lemma_sum_of_prefix_le(s.drop_last(), f, i - 1);
            assert(s.drop_last().take(i - 1) =~= s.drop_last());
        } else {
            lemma_sum_of_prefix_le(s.drop_last(), f, i);
            assert(s.drop_last().take(i) =~= s.take(i));
        }
    }
}

/// Extending a prefix by one peer adds that peer's figure to the sum.
pub proof fn lemma_sum_of_take_next(s: Seq<SnapSyncPeer>, f: spec_fn(SnapSyncPeer) -> int, i: int)
    requires
        0 <= i < s.len(),
    ensures
        sum_of(s.take(i + 1), f) == sum_of(s.take(i), f) + f(s[i]),
{
    assert(s.take(i + 1).drop_last() =~= s.take(i));
}

/// `p` with a new state root and block number.
pub open spec fn with_peer_info(p: SnapSyncPeer, state_root: Option<B256>, block_number: Option<u64>) -> SnapSyncPeer {
    SnapSyncPeer { state_root: state_root, block_number: block_number, ..p }
}

/// Whether `q` is peer `p` after a successful request that took `response_time_ms`
/// milliseconds and downloaded `bytes` bytes.
pub open spec fn after_success(p: SnapSyncPeer, q: SnapSyncPeer, response_time_ms: u64, bytes: u64) -> bool {
    &&& q.peer_id == p.peer_id
    &&& q.supports_snap_sync == p.supports_snap_sync
    &&& q.state_root == p.state_root
    &&& q.block_number == p.block_number
    &&& q.metrics.total_requests == p.metrics.total_requests + 1
    &&& q.metrics.successful_requests == p.metrics.successful_requests + 1
    &&& q.metrics.failed_requests == p.metrics.failed_requests
    &&& q.metrics.total_bytes_downloaded == p.metrics.total_bytes_downloaded + bytes
    &&& q.metrics.avg_response_time_ms == next_avg_ms(p.metrics.avg_response_time_ms, response_time_ms)
    &&& q.metrics.last_request_time is Some
    &&& q.last_success is Some
    &&& q.last_failure == p.last_failure
    &&& q.consecutive_failures == 0
    &&& q.is_available
}

/// Whether `q` is peer `p` after a failed request, with the peer marked unavailable once its
/// consecutive failures reach `max_consecutive_failures`.
pub open spec fn after_failure(p: SnapSyncPeer, q: SnapSyncPeer, max_consecutive_failures: u32) -> bool {
    &&& q.peer_id == p.peer_id
    &&& q.supports_snap_sync == p.supports_snap_sync
    &&& q.state_root == p.state_root
    &&& q.block_number == p.block_number
    &&& q.metrics.total_requests == p.metrics.total_requests + 1
    &&& q.metrics.successful_requests == p.metrics.successful_requests
    &&& q.metrics.failed_requests == p.metrics.failed_requests + 1
    &&& q.metrics.total_bytes_downloaded == p.metrics.total_bytes_downloaded
    &&& q.metrics.avg_response_time_ms == p.metrics.avg_response_time_ms
    &&& q.metrics.last_request_time is Some
    &&& q.last_success == p.last_success
    &&& q.last_failure is Some
    &&& q.consecutive_failures == p.consecutive_failures + 1
    &&& q.is_available == (p.is_available && q.consecutive_failures < max_consecutive_failures)
}

/// `p` made available again, its consecutive failures forgotten.
pub open spec fn reset_peer(p: SnapSyncPeer) -> SnapSyncPeer {
    SnapSyncPeer { is_available: true, consecutive_failures: 0, ..p }
}

/// Whether a peer may be made available again once its last failure is over a minute old.
pub open spec fn resettable(p: SnapSyncPeer) -> bool {
    !p.is_available && p.consecutive_failures > 0 && p.last_failure is Some
}

/// Whether `t` is `s` with each peer of id `id` changed as `step` allows and all others kept.
pub open spec fn peer_updated(
    s: Seq<SnapSyncPeer>,
    t: Seq<SnapSyncPeer>,
    id: Seq<char>,
    step: spec_fn(SnapSyncPeer, SnapSyncPeer) -> bool,
) -> bool {
    &&& t.len() == s.len()
    &&& forall|j: int| 0 <= j < s.len() && s[j].peer_id@ != id ==> #[trigger] t[j] == s[j]
    &&& forall|j: int| 0 <= j < s.len() && s[j].peer_id@ == id ==> step(s[j], #[trigger] t[j])
}

/// The peers of `s` whose flag in `drop` is false, in order.
pub open spec fn kept_peers(s: Seq<SnapSyncPeer>, drop: Seq<bool>) -> Seq<SnapSyncPeer>
    decreases s.len(),
{
    if s.len() == 0 {
        Seq::empty()
    } else {
        let rest = kept_peers(s.drop_last(), drop);
        if drop[s.len() - 1] { rest } else { rest.push(s.last()) }
    }
}

/// Peers keep distinct ids when no id changes.
proof fn lemma_same_ids_distinct(s: Seq<SnapSyncPeer>, t: Seq<SnapSyncPeer>)
    requires
        ids_distinct(s),
        t.len() == s.len(),
        forall|j: int| 0 <= j < s.len() ==> (#[trigger] t[j]).peer_id == s[j].peer_id,
    ensures
        ids_distinct(t),
{
    assert forall|a: int, b: int| 0 <= a < t.len() && 0 <= b < t.len() && a != b implies
        (#[trigger] t[a]).peer_id@ != (#[trigger] t[b]).peer_id@ by {
        assert(t[a].peer_id == s[a].peer_id);
        assert(t[b].peer_id == s[b].peer_id);
        assert(s[a].peer_id@ != s[b].peer_id@);
    }
}

/// Removing a peer keeps the ids of the others distinct.
proof fn lemma_remove_distinct(s: Seq<SnapSyncPeer>, i: int)
    requires
        ids_distinct(s),
        0 <= i < s.len(),
    ensures
        ids_distinct(s.remove(i)),
{
    let t = s.remove(i);
    assert forall|a: int, b: int| 0 <= a < t.len() && 0 <= b < t.len() && a != b implies
        (#[trigger] t[a]).peer_id@ != (#[trigger] t[b]).peer_id@ by {
        let oa = if a < i { a } else { a + 1 };
        let ob = if b < i { b } else { b + 1 };
        assert(t[a] == s[oa]);
        assert(t[b] == s[ob]);
    }
}

/// Statistics for all peers.
#[derive(Debug, Clone, Copy, PartialEq, Eq)]
pub struct PeerStats {
    /// Total number of peers
    pub total_peers: usize,
    /// Number of available peers
    pub available_peers: usize,
    /// Number of peers supporting snap sync
    pub snap_sync_peers: usize,
    /// Total requests made
    pub total_requests: u64,
    /// Total successful requests
    pub successful_requests: u64,
    /// Total bytes downloaded
    pub total_bytes_downloaded: u64,
}

/// Manages snap sync peers.
pub struct SnapSyncPeerManager {
    /// Known peers, with pairwise distinct ids
    pub peers: Vec<SnapSyncPeer>,
    /// Peer selection strategy
    pub selection_strategy: PeerSelectionStrategy,
    /// Maximum number of peers to use
    pub max_peers: usize,
    /// Minimum success rate for peer selection, in thousandths
    pub min_success_rate_permille: u64,
    /// Maximum consecutive failures before marking peer as unavailable
    pub max_consecutive_failures: u32,
    /// Timeout for peer availability
    pub peer_timeout: Duration,
}

impl SnapSyncPeerManager {
    /// The manager's invariant: no two peers share an id.
    pub open spec fn wf(&self) -> bool {
        ids_distinct(self.peers@)
    }

    /// Whether only the peer list may differ between two managers.
    pub open spec fn same_settings(&self, other: &Self) -> bool {
        &&& self.selection_strategy == other.selection_strategy
        &&& self.max_peers == other.max_peers
        &&& self.min_success_rate_permille == other.min_success_rate_permille
        &&& self.max_consecutive_failures == other.max_consecutive_failures
        &&& self.peer_timeout == other.peer_timeout
    }

    /// Create a new peer manager with no peers.
    pub fn new(
        selection_strategy: PeerSelectionStrategy,
        max_peers: usize,
        min_success_rate_permille: u64,
        max_consecutive_failures: u32,
        peer_timeout: Duration,
    ) -> (m: Self)
        ensures
            m.wf(),
            m.peers@.len() == 0,
            m.selection_strategy == selection_strategy,
            m.max_peers == max_peers,
            m.min_success_rate_permille == min_success_rate_permille,
            m.max_consecutive_failures == max_consecutive_failures,
            m.peer_timeout == peer_timeout,
    {
        SnapSyncPeerManager {
            peers: Vec::new(),
            selection_strategy,
            max_peers,
            min_success_rate_permille,
            max_consecutive_failures,
            peer_timeout,
        }
    }

    /// The position of the peer with id `peer_id`, if any.
    pub fn find_peer(&self, peer_id: &String) -> (r: Option<usize>)
        requires
            self.wf(),
        ensures
            r matches Some(i) ==> i < self.peers@.len() && self.peers@[i as int].peer_id@ == peer_id@,
            r is None ==> forall|i: int| 0 <= i < self.peers@.len() ==> (#[trigger] self.peers@[i]).peer_id@ != peer_id@,
            r == (match position_of(self.peers@, peer_id@) { Some(i) => Some(i as usize), None => None::<usize> }),
    {
        let mut i: usize = 0;
        while i < self.peers.len()
            invariant
                0 <= i <= self.peers@.len(),
                self.wf(),
                forall|j: int| 0 <= j < i ==> (#[trigger] self.peers@[j]).peer_id@ != peer_id@,
            decreases self.peers@.len() - i,
        {
            if self.peers[i].peer_id == *peer_id {
                proof {
                    let k = choose|k: int| 0 <= k < self.peers@.len() && (#[trigger] self.peers@[k]).peer_id@ == peer_id@;
                    assert(self.peers@[k].peer_id@ == self.peers@[i as int].peer_id@);
                    assert(k == i);
                }
                return Some(i);
            }
            i += 1;
        }
        None
    }

    /// Add a new peer; a peer already known under this id is replaced by the new one.
    pub fn add_peer(&mut self, peer_id: String, supports_snap_sync: bool)
        requires
            old(self).wf(),
        ensures
            final(self).wf(),
            final(self).same_settings(&*old(self)),
            peer_added(old(self).peers@, final(self).peers@, peer_id@, supports_snap_sync),
    {
        let found = self.find_peer(&peer_id);
        let peer = SnapSyncPeer {
            peer_id,
            supports_snap_sync,
            state_root: None,
            block_number: None,
            metrics: PeerMetrics::default(),
            last_success: None,
            last_failure: None,
            consecutive_failures: 0,
            is_available: true,
        };
        match found {
            Some(i) => {
                self.peers.set(i, peer);
            },
            None => {
                self.peers.push(peer);
                proof {
                    assert(self.peers@.drop_last() =~= old(self).peers@);
                }
            },
        }
    }

    /// Remove a peer.
    pub fn remove_peer(&mut self, peer_id: &str)
        requires
            old(self).wf(),
        ensures
            final(self).wf(),
            final(self).same_settings(&*old(self)),
            peer_removed(old(self).peers@, final(self).peers@, peer_id@),
            forall|i: int| 0 <= i < final(self).peers@.len() ==> (#[trigger] final(self).peers@[i]).peer_id@ != peer_id@,
    {
        let id = peer_id.to_owned();
        match self.find_peer(&id) {
            Some(i) => {
                self.peers.remove(i);
                proof {
                    assert forall|a: int, b: int| 0 <= a < self.peers@.len() && 0 <= b < self.peers@.len() && a != b implies
                        (#[trigger] self.peers@[a]).peer_id@ != (#[trigger] self.peers@[b]).peer_id@ by {
                        let oa = if a < i { a } else { a + 1 };
                        let ob = if b < i { b } else { b + 1 };
                        assert(self.peers@[a] == old(self).peers@[oa]);
                        assert(self.peers@[b] == old(self).peers@[ob]);
                    }
                    assert forall|k: int| 0 <= k < self.peers@.len() implies (#[trigger] self.peers@[k]).peer_id@ != peer_id@ by {
                        let ok = if k < i { k } else { k + 1 };
                        assert(self.peers@[k] == old(self).peers@[ok]);
                    }
                }
            },
            None => {},
        }
    }

    /// Set the state root and block number of the peer with id `peer_id`, if it is known.
    pub fn update_peer_info(&mut self, peer_id: &str, state_root: Option<B256>, block_number: Option<u64>)
        requires
            old(self).wf(),
        ensures
            final(self).wf(),
            final(self).same_settings(&*old(self)),
            peer_updated(old(self).peers@, final(self).peers@, peer_id@,
                |p: SnapSyncPeer, q: SnapSyncPeer| q == with_peer_info(p, state_root, block_number)),
    {
        let id = peer_id.to_owned();
        match self.find_peer(&id) {
            Some(i) => {
                self.peers[i].state_root = state_root;
                self.peers[i].block_number = block_number;
                proof {
                    assert(self.peers@[i as int] == with_peer_info(old(self).peers@[i as int], state_root, block_number));
                    self.lemma_only_index_changed(old(self).peers@, i as int, peer_id@);
                }
            },
            None => {},
        }
    }

    /// Facts shared by the updates of one peer: where only position `i`, the position of the
    /// peer with id `id`, changed and kept its id, the ids stay distinct and every other peer
    /// is the one that was there.
    proof fn lemma_only_index_changed(&self, before: Seq<SnapSyncPeer>, i: int, id: Seq<char>)
        requires
            ids_distinct(before),
            0 <= i < before.len(),
            before[i].peer_id@ == id,
            self.peers@.len() == before.len(),
            self.peers@[i].peer_id == before[i].peer_id,
            forall|j: int| 0 <= j < before.len() && j != i ==> self.peers@[j] == before[j],
        ensures
            self.wf(),
            forall|j: int| 0 <= j < before.len() && before[j].peer_id@ == id ==> j == i,
    {
        lemma_same_ids_distinct(before, self.peers@);
        assert forall|j: int| 0 <= j < before.len() && before[j].peer_id@ == id implies j == i by {
            if j != i {
                assert(before[j].peer_id@ != before[i].peer_id@);
            }
        }
    }

    /// Record a successful request to the peer with id `peer_id`, if it is known: its metrics
    /// count the request, its consecutive failures are forgotten and it is available again.
    pub fn record_success(&mut self, peer_id: &str, response_time_ms: u64, bytes_downloaded: u64)
        requires
            old(self).wf(),
            forall|j: int| 0 <= j < old(self).peers@.len() && (#[trigger] old(self).peers@[j]).peer_id@ == peer_id@ ==> {
                &&& old(self).peers@[j].metrics.total_requests < u64::MAX
                &&& old(self).peers@[j].metrics.successful_requests < u64::MAX
                &&& old(self).peers@[j].metrics.total_bytes_downloaded + bytes_downloaded <= u64::MAX
            },
        ensures
            final(self).wf(),
            final(self).same_settings(&*old(self)),
            peer_updated(old(self).peers@, final(self).peers@, peer_id@,
                |p: SnapSyncPeer, q: SnapSyncPeer| after_success(p, q, response_time_ms, bytes_downloaded)),
    {
        let id = peer_id.to_owned();
        match self.find_peer(&id) {
            Some(i) => {
                assert(old(self).peers@[i as int].peer_id@ == peer_id@);
                self.peers[i].metrics.record_success(response_time_ms, bytes_downloaded);
                self.peers[i].last_success = Some(instant_now());
                self.peers[i].consecutive_failures = 0;
                self.peers[i].is_available = true;
                proof {
                    self.lemma_only_index_changed(old(self).peers@, i as int, peer_id@);
                }
            },
            None => {},
        }
    }

    /// Record a failed request to the peer with id `peer_id`, if it is known: its metrics count
    /// the request, and once its consecutive failures reach the maximum it is unavailable.
    pub fn record_failure(&mut self, peer_id: &str)
        requires
            old(self).wf(),
            forall|j: int| 0 <= j < old(self).peers@.len() && (#[trigger] old(self).peers@[j]).peer_id@ == peer_id@ ==> {
                &&& old(self).peers@[j].metrics.total_requests < u64::MAX
                &&& old(self).peers@[j].metrics.failed_requests < u64::MAX
                &&& old(self).peers@[j].consecutive_failures < u32::MAX
            },
        ensures
            final(self).wf(),
            final(self).same_settings(&*old(self)),
            peer_updated(old(self).peers@, final(self).peers@, peer_id@,
                |p: SnapSyncPeer, q: SnapSyncPeer| after_failure(p, q, old(self).max_consecutive_failures)),
    {
        let id = peer_id.to_owned();
        match self.find_peer(&id) {
            Some(i) => {
                assert(old(self).peers@[i as int].peer_id@ == peer_id@);
                self.peers[i].metrics.record_failure();
                self.peers[i].last_failure = Some(instant_now());
                self.peers[i].consecutive_failures = self.peers[i].consecutive_failures + 1;
                if self.peers[i].consecutive_failures >= self.max_consecutive_failures {
                    self.peers[i].is_available = false;
                }
                proof {
                    self.lemma_only_index_changed(old(self).peers@, i as int, peer_id@);
                }
            },
            None => {},
        }
    }

    /// Whether `self.peers@[i]` may be selected.
    fn is_eligible(&self, i: usize) -> (r: bool)
        requires
            i < self.peers@.len(),
        ensures
            r == eligible(self.peers@[i as int], self.min_success_rate_permille),
    {
        let p = &self.peers[i];
        p.is_available && p.supports_snap_sync && p.metrics.meets_success_rate(self.min_success_rate_permille)
    }

    /// Select the peer to ask next: among the available peers that support snap sync and reach
    /// the minimum success rate, the one the selection strategy prefers. `None` when there is
    /// no such peer.
    pub fn select_peer(&self) -> (r: Option<String>)
        requires
            self.wf(),
        ensures
            r is None <==> forall|i: int| 0 <= i < self.peers@.len() ==> !eligible(#[trigger] self.peers@[i], self.min_success_rate_permille),
            r matches Some(id) ==> exists|i: int| #[trigger] selected_by(self.peers@, self.min_success_rate_permille, self.selection_strategy, i)
                && self.peers@[i].peer_id@ == id@,
    {
        let ghost s = self.peers@;
        let ghost min = self.min_success_rate_permille;
        let strategy = self.selection_strategy;
        let n = self.peers.len();
        let mut best: Option<usize> = None;
        let mut i: usize = 0;
        while i < n
            invariant
                n == s.len(),
                s == self.peers@,
                min == self.min_success_rate_permille,
                strategy == self.selection_strategy,
                self.wf(),
                0 <= i <= n,
                best is None ==> forall|j: int| 0 <= j < i ==> !eligible(#[trigger] s[j], min),
                best matches Some(b) ==> selected_within(s, min, strategy, b as int, i as int),
            decreases n - i,
        {
            if self.is_eligible(i) {
                match best {
                    None => {
                        proof {
                            lemma_select_first(s, min, strategy, i as int);
                        }
                        best = Some(i);
                    },
                    Some(b) => {
                        let cur = &self.peers[i];
                        let other = &self.peers[b];
                        let take = match strategy {
                            PeerSelectionStrategy::BestPerformance => !cur.metrics.success_rate_below(&other.metrics),
                            PeerSelectionStrategy::FastestResponse => cur.metrics.avg_response_time_ms < other.metrics.avg_response_time_ms,
                            PeerSelectionStrategy::RoundRobin => string_lt(&cur.peer_id, &other.peer_id),
                            PeerSelectionStrategy::Random => false,
                        };
                        proof {
                            lemma_select_step(s, min, strategy, b as int, i as int, take);
                        }
                        if take {
                            best = Some(i);
                        }
                    },
                }
            } else {
                proof {
                    match best {
                        Some(b) => lemma_select_skip(s, min, strategy, b as int, i as int),
                        None => {},
                    }
                }
            }
            i += 1;
        }
        match best {
            Some(b) => {
                assert(selected_by(s, min, strategy, b as int));
                Some(self.peers[b].peer_id.clone())
            },
            None => None,
        }
    }

    /// The ids of the available peers that support snap sync, in order.
    pub fn available_peers(&self) -> (r: Vec<String>)
        ensures
            r@.map_values(|id: String| id@) == available_ids(self.peers@),
    {
        let mut r: Vec<String> = Vec::new();
        let mut i: usize = 0;
        while i < self.peers.len()
            invariant
                0 <= i <= self.peers@.len(),
                r@.map_values(|id: String| id@) == available_ids(self.peers@.take(i as int)),
            decreases self.peers@.len() - i,
        {
            proof {
                assert(self.peers@.take(i + 1).drop_last() =~= self.peers@.take(i as int));
            }
            let p = &self.peers[i];
            if p.is_available && p.supports_snap_sync {
                r.push(p.peer_id.clone());
            }
            proof {
                assert(r@.map_values(|id: String| id@) =~= available_ids(self.peers@.take(i + 1)));
            }
            i += 1;
        }
        proof {
            assert(self.peers@.take(self.peers@.len() as int) =~= self.peers@);
        }
        r
    }

    /// The peer with id `peer_id`, if it is known.
    pub fn get_peer_info(&self, peer_id: &str) -> (r: Option<&SnapSyncPeer>)
        requires
            self.wf(),
        ensures
            match position_of(self.peers@, peer_id@) {
                Some(i) => r == Some(&self.peers@[i]),
                None => r is None,
            },
    {
        let id = peer_id.to_owned();
        match self.find_peer(&id) {
            Some(i) => Some(&self.peers[i]),
            None => None,
        }
    }

    /// Counts and totals over all peers.
    pub fn get_peer_stats(&self) -> (r: PeerStats)
        requires
            sum_of(self.peers@, |p: SnapSyncPeer| requests_of(p)) <= u64::MAX,
            sum_of(self.peers@, |p: SnapSyncPeer| successes_of(p)) <= u64::MAX,
            sum_of(self.peers@, |p: SnapSyncPeer| bytes_of(p)) <= u64::MAX,
        ensures
            r.total_peers == self.peers@.len(),
            r.available_peers == sum_of(self.peers@, |p: SnapSyncPeer| one_if_available(p)),
            r.snap_sync_peers == sum_of(self.peers@, |p: SnapSyncPeer| one_if_snap(p)),
            r.total_requests == sum_of(self.peers@, |p: SnapSyncPeer| requests_of(p)),
            r.successful_requests == sum_of(self.peers@, |p: SnapSyncPeer| successes_of(p)),
            r.total_bytes_downloaded == sum_of(self.peers@, |p: SnapSyncPeer| bytes_of(p)),
    {
        let ghost s = self.peers@;
        let ghost fa = |p: SnapSyncPeer| one_if_available(p);
        let ghost fs = |p: SnapSyncPeer| one_if_snap(p);
        let ghost fr = |p: SnapSyncPeer| requests_of(p);
        let ghost fo = |p: SnapSyncPeer| successes_of(p);
        let ghost fb = |p: SnapSyncPeer| bytes_of(p);
        let n = self.peers.len();
        let mut available: usize = 0;
        let mut snap: usize = 0;
        let mut requests: u64 = 0;
        let mut successes: u64 = 0;
        let mut bytes: u64 = 0;
        let mut i: usize = 0;
        while i < n
            invariant
                n == s.len(),
                s == self.peers@,
                0 <= i <= n,
                fa == (|p: SnapSyncPeer| one_if_available(p)),
                fs == (|p: SnapSyncPeer| one_if_snap(p)),
                fr == (|p: SnapSyncPeer| requests_of(p)),
                fo == (|p: SnapSyncPeer| successes_of(p)),
                fb == (|p: SnapSyncPeer| bytes_of(p)),
                sum_of(s, fr) <= u64::MAX,
                sum_of(s, fo) <= u64::MAX,
                sum_of(s, fb) <= u64::MAX,
                available <= i,
                snap <= i,
                available == sum_of(s.take(i as int), fa),
                snap == sum_of(s.take(i as int), fs),
                requests == sum_of(s.take(i as int), fr),
                successes == sum_of(s.take(i as int), fo),
                bytes == sum_of(s.take(i as int), fb),
            decreases n - i,
        {
            proof {
                lemma_sum_of_take_next(s, fa, i as int);
                lemma_sum_of_take_next(s, fs, i as int);
                lemma_sum_of_take_next(s, fr, i as int);
                lemma_sum_of_take_next(s, fo, i as int);
                lemma_sum_of_take_next(s, fb, i as int);
                lemma_sum_of_prefix_le(s, fr, i + 1);
                lemma_sum_of_prefix_le(s, fo, i + 1);
                lemma_sum_of_prefix_le(s, fb, i + 1);
            }
            let p = &self.peers[i];
            if p.is_available {
                available = available + 1;
            }
            if p.supports_snap_sync {
                snap = snap + 1;
            }
            requests = requests + p.metrics.total_requests;
            successes = successes + p.metrics.successful_requests;
            bytes = bytes + p.metrics.total_bytes_downloaded;
            i += 1;
        }
        proof {
            assert(s.take(n as int) =~= s);
        }
        PeerStats {
            total_peers: n,
            available_peers: available,
            snap_sync_peers: snap,
            total_requests: requests,
            successful_requests: successes,
            total_bytes_downloaded: bytes,
        }
    }

    /// Remove the peers whose flag in `expired` is set, keeping the others in order.
    pub fn remove_flagged(&mut self, expired: &Vec<bool>)
        requires
            old(self).wf(),
            expired@.len() == old(self).peers@.len(),
        ensures
            final(self).wf(),
            final(self).same_settings(&*old(self)),
            final(self).peers@ == kept_peers(old(self).peers@, expired@),
    {
        let ghost s = self.peers@;
        let n = expired.len();
        let mut i: usize = 0;
        let mut j: usize = 0;
        while i < n
            invariant
                n == s.len(),
                n == expired@.len(),
                0 <= i <= n,
                self.wf(),
                self.same_settings(&*old(self)),
                j <= i,
                j == kept_peers(s.take(i as int), expired@).len(),
                self.peers@ == kept_peers(s.take(i as int), expired@) + s.skip(i as int),
            decreases n - i,
        {
            let ghost k = kept_peers(s.take(i as int), expired@);
            proof {
                assert(s.take(i + 1).drop_last() =~= s.take(i as int));
                assert(self.peers@[j as int] == s[i as int]);
            }
            if expired[i] {
                proof {
                    lemma_remove_distinct(self.peers@, j as int);
                }
                self.peers.remove(j);
                proof {
                    assert(self.peers@ =~= k + s.skip(i + 1));
                }
            } else {
                proof {
                    assert(self.peers@ =~= k.push(s[i as int]) + s.skip(i + 1));
                }
                j += 1;
            }
            i += 1;
        }
        proof {
            assert(s.take(n as int) =~= s);
            assert(s.skip(n as int) =~= Seq::<SnapSyncPeer>::empty());
            assert(self.peers@ =~= kept_peers(s, expired@));
        }
    }

    /// Remove the peers whose last request is older than the peer timeout, by the clock read
    /// now. Which peers that is depends on the moment of the call; what holds whatever the
    /// clock says is that only peers that have been asked at all can go.
    pub fn cleanup(&mut self)
        requires
            old(self).wf(),
        ensures
            final(self).wf(),
            final(self).same_settings(&*old(self)),
            exists|expired: Seq<bool>| {
                &&& expired.len() == old(self).peers@.len()
                &&& forall|i: int| 0 <= i < expired.len() && #[trigger] expired[i] ==> old(self).peers@[i].metrics.last_request_time is Some
                &&& final(self).peers@ == kept_peers(old(self).peers@, expired)
            },
    {
        let now = instant_now();
        let mut expired: Vec<bool> = Vec::new();
        let mut i: usize = 0;
        while i < self.peers.len()
            invariant
                0 <= i <= self.peers@.len(),
                expired@.len() == i,
                forall|k: int| 0 <= k < i && #[trigger] expired@[k] ==> self.peers@[k].metrics.last_request_time is Some,
            decreases self.peers@.len() - i,
        {
            let flag = match &self.peers[i].metrics.last_request_time {
                Some(t) => duration_longer(&duration_between(t, &now), &self.peer_timeout),
                None => false,
            };
            expired.push(flag);
            i += 1;
        }
        self.remove_flagged(&expired);
    }

    /// Make available again each peer whose flag in `long_ago` is set and that is unavailable
    /// after failures with a recorded last failure; its consecutive failures are forgotten.
    pub fn reset_flagged(&mut self, long_ago: &Vec<bool>)
        requires
            old(self).wf(),
            long_ago@.len() == old(self).peers@.len(),
        ensures
            final(self).wf(),
            final(self).same_settings(&*old(self)),
            final(self).peers@.len() == old(self).peers@.len(),
            forall|i: int| 0 <= i < old(self).peers@.len() ==> #[trigger] final(self).peers@[i] == if resettable(old(self).peers@[i]) && long_ago@[i] {
                reset_peer(old(self).peers@[i])
            } else {
                old(self).peers@[i]
            },
    {
        let n = long_ago.len();
        let mut i: usize = 0;
        while i < n
            invariant
                n == long_ago@.len(),
                n == old(self).peers@.len(),
                self.peers@.len() == n,
                0 <= i <= n,
                ids_distinct(old(self).peers@),
                self.same_settings(&*old(self)),
                forall|k: int| 0 <= k < i ==> #[trigger] self.peers@[k] == if resettable(old(self).peers@[k]) && long_ago@[k] {
                    reset_peer(old(self).peers@[k])
                } else {
                    old(self).peers@[k]
                },
                forall|k: int| i <= k < n ==> #[trigger] self.peers@[k] == old(self).peers@[k],
            decreases n - i,
        {
            let p = &self.peers[i];
            if !p.is_available && p.consecutive_failures > 0 && p.last_failure.is_some() && long_ago[i] {
                self.peers[i].is_available = true;
                self.peers[i].consecutive_failures = 0;
                proof {
                    assert(self.peers@[i as int] == reset_peer(old(self).peers@[i as int]));
                }
            }
            i += 1;
        }
        proof {
            lemma_same_ids_distinct(old(self).peers@, self.peers@);
        }
    }

    /// Make available again the peers that became unavailable after failures and whose last
    /// failure is over a minute old by the clock read now. Which peers that is depends on the
    /// moment of the call; whatever the clock says, every peer is either unchanged or was such
    /// a peer and is now reset.
    pub fn reset_peer_availability(&mut self)
        requires
            old(self).wf(),
        ensures
            final(self).wf(),
            final(self).same_settings(&*old(self)),
            final(self).peers@.len() == old(self).peers@.len(),
            forall|i: int| 0 <= i < old(self).peers@.len() ==> #[trigger] final(self).peers@[i] == old(self).peers@[i]
                || (resettable(old(self).peers@[i]) && final(self).peers@[i] == reset_peer(old(self).peers@[i])),
    {
        let minute = duration_from_secs(60);
        let mut long_ago: Vec<bool> = Vec::new();
        let mut i: usize = 0;
        while i < self.peers.len()
            invariant
                0 <= i <= self.peers@.len(),
                long_ago@.len() == i,
            decreases self.peers@.len() - i,
        {
            let flag = match &self.peers[i].last_failure {
                Some(t) => duration_longer(&duration_between(t, &instant_now()), &minute),
                None => false,
            };
            long_ago.push(flag);
            i += 1;
        }
        self.reset_flagged(&long_ago);
    }
}

} // verus!

verus! {

/// Adding a peer under a new id and then removing that id gives back the peers as they were.
pub proof fn lemma_add_then_remove(
    s: Seq<SnapSyncPeer>,
    t: Seq<SnapSyncPeer>,
    u: Seq<SnapSyncPeer>,
    id: Seq<char>,
    supports_snap_sync: bool,
)
    requires
        position_of(s, id) is None,
        peer_added(s, t, id, supports_snap_sync),
        peer_removed(t, u, id),
    ensures
        u == s,
{
    let n = s.len() as int;
    assert(t[n].peer_id@ == id);
    match position_of(t, id) {
        Some(k) => {
            if k < n {
                assert(t.drop_last()[k] == t[k]);
                assert(s[k].peer_id@ == id);
            }
            assert(t.remove(n) =~= s) by {
                assert(t.drop_last() == s);
            }
        },
        None => {},
    }
}

/// After a peer is added, looking its id up finds a fresh, available peer of that id.
pub proof fn lemma_added_peer_found(s: Seq<SnapSyncPeer>, t: Seq<SnapSyncPeer>, id: Seq<char>, supports_snap_sync: bool)
    requires
        ids_distinct(s),
        peer_added(s, t, id, supports_snap_sync),
    ensures
        position_of(t, id) matches Some(i) && fresh_peer(t[i], id, supports_snap_sync),
        position_of(t, id) matches Some(i) && t[i].is_available,
{
    match position_of(s, id) {
        Some(i) => {
            assert(t[i].peer_id@ == id);
            match position_of(t, id) {
                Some(k) => {
                    if k != i {
                        assert(t[k] == s[k]);
                        assert(s[k].peer_id@ != s[i].peer_id@);
                    }
                },
                None => {},
            }
        },
        None => {
            let n = s.len() as int;
            assert(t[n].peer_id@ == id);
            match position_of(t, id) {
                Some(k) => {
                    if k < n {
                        assert(t.drop_last()[k] == t[k]);
                        assert(s[k].peer_id@ == id);
                    }
                },
                None => {},
            }
        },
    }
}

/// Among peers with distinct ids, each strategy selects at most one peer.
pub proof fn lemma_selection_unique(
    s: Seq<SnapSyncPeer>,
    min_permille: u64,
    strategy: PeerSelectionStrategy,
    i: int,
    j: int,
)
    requires
        ids_distinct(s),
        selected_by(s, min_permille, strategy, i),
        selected_by(s, min_permille, strategy, j),
    ensures
        i == j,
{
    if i != j {
        match strategy {
            PeerSelectionStrategy::BestPerformance => {
                if i < j {
                    assert(rate_lt(s[j].metrics, s[i].metrics));
                    assert(!rate_lt(s[j].metrics, s[i].metrics));
                } else {
                    assert(rate_lt(s[i].metrics, s[j].metrics));
                    assert(!rate_lt(s[i].metrics, s[j].metrics));
                }
            },
            PeerSelectionStrategy::FastestResponse => {
                assert(s[i].metrics.avg_response_time_ms <= s[j].metrics.avg_response_time_ms);
                assert(s[j].metrics.avg_response_time_ms <= s[i].metrics.avg_response_time_ms);
            },
            PeerSelectionStrategy::RoundRobin => {
                assert(id_lt(s[i].peer_id, s[j].peer_id));
                assert(id_lt(s[j].peer_id, s[i].peer_id));
                lemma_bytes_lt_transitive(
                    vstd::utf8::encode_utf8(s[i].peer_id@),
                    vstd::utf8::encode_utf8(s[j].peer_id@),
                    vstd::utf8::encode_utf8(s[i].peer_id@),
                );
                lemma_bytes_lt_irreflexive(vstd::utf8::encode_utf8(s[i].peer_id@));
            },
            PeerSelectionStrategy::Random => {
                if i < j {
                    assert(!eligible(s[i], min_permille));
                } else {
                    assert(!eligible(s[j], min_permille));
                }
            },
        }
    }
}

/// A failure that brings a peer's consecutive failures to the maximum leaves it unavailable,
/// so no strategy selects it; a success always leaves it available.
pub proof fn lemma_failures_make_unavailable(
    p: SnapSyncPeer,
    q: SnapSyncPeer,
    max_consecutive_failures: u32,
    min_permille: u64,
)
    requires
        after_failure(p, q, max_consecutive_failures),
        q.consecutive_failures >= max_consecutive_failures,
    ensures
        !q.is_available,
        !eligible(q, min_permille),
{
}

/// A success always leaves a peer available with no consecutive failures.
pub proof fn lemma_success_makes_available(p: SnapSyncPeer, q: SnapSyncPeer, response_time_ms: u64, bytes: u64)
    requires
        after_success(p, q, response_time_ms, bytes),
    ensures
        q.is_available,
        q.consecutive_failures == 0,
{
}

} // verus!
