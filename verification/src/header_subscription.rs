//! Following the head header announced by the consensus engine: which events carry a new
//! head, and when subscribers are to be told of it.

use vstd::prelude::*;
use crate::hash::{B256, hash_eq};

verus! {

/// A block header with its hash, as far as snap sync reads it.
#[derive(Debug, Clone, Copy, PartialEq, Eq)]
pub struct SealedHeader {
    /// Block hash
    pub hash: B256,
    /// Block number
    pub number: u64,
    /// State root after the block
    pub state_root: B256,
}

/// An event of the consensus engine.
#[derive(Debug, Clone, Copy, PartialEq, Eq)]
pub enum ConsensusEngineEvent {
    /// A block was committed to the canonical chain
    CanonicalChainCommitted(SealedHeader),
    /// The fork choice changed to a new head
    ForkchoiceUpdated { head_block_hash: B256 },
    /// Any other event
    Other,
}

/// Keeps the latest head header announced by the consensus engine.
pub struct HeaderSubscriptionService {
    /// Current head header
    pub current_header: Option<SealedHeader>,
}

impl HeaderSubscriptionService {
    /// A service that has seen no head header yet.
    pub fn new() -> (s: Self)
        ensures
            s.current_header is None,
    {
        HeaderSubscriptionService { current_header: None }
    }

    /// The head header an event carries: only a canonical chain commit carries one.
    pub fn handle_consensus_event(&mut self, event: ConsensusEngineEvent) -> (r: Option<SealedHeader>)
        ensures
            r == match event {
                ConsensusEngineEvent::CanonicalChainCommitted(h) => Some(h),
                _ => None,
            },
            final(self).current_header == old(self).current_header,
    {
        match event {
            ConsensusEngineEvent::CanonicalChainCommitted(header) => Some(header),
            _ => None,
        }
    }

    /// Takes `header` as the head, unless it has the hash of the current head. Returns
    /// whether the head changed, that is whether subscribers are to be told.
    pub fn update_head_header(&mut self, header: SealedHeader) -> (changed: bool)
        ensures
            (final(self).current_header, changed) == updated_head(old(self).current_header, header),
    {
        if let Some(current) = self.current_header {
            if hash_eq(&current.hash, &header.hash) {
                return false;
            }
        }
        self.current_header = Some(header);
        true
    }

    /// The current head header.
    pub fn get_head_header(&self) -> (r: Option<SealedHeader>)
        ensures
            r == self.current_header,
    {
        self.current_header
    }
}

/// The head after `header` is announced while `current` is the head, and whether it changed:
/// a header with the hash of the current head changes nothing.
pub open spec fn updated_head(current: Option<SealedHeader>, header: SealedHeader) -> (Option<SealedHeader>, bool) {
    if current matches Some(c) && c.hash@ == header.hash@ {
        (current, false)
    } else {
        (Some(header), true)
    }
}

/// An announced head is taken once: after a header is announced, the head has its hash, and
/// announcing it again changes nothing and tells no subscriber.
pub proof fn lemma_duplicate_header_ignored(current: Option<SealedHeader>, header: SealedHeader)
    ensures
        updated_head(current, header).0 matches Some(h) && h.hash@ == header.hash@,
        updated_head(updated_head(current, header).0, header) == (updated_head(current, header).0, false),
{
}

} // verus!
