//! The inputs and outputs of a pipeline stage, held as plain values.

use vstd::prelude::*;

verus! {

/// How far a stage has progressed.
#[derive(Debug, Clone, Copy, PartialEq, Eq, Default)]
pub struct StageCheckpoint {
    pub block_number: u64,
}

/// The stage's execution input: the block to reach and the checkpoint reached so far.
#[derive(Debug, Clone, Copy, PartialEq, Eq)]
pub struct ExecInput {
    pub target: Option<u64>,
    pub checkpoint: Option<StageCheckpoint>,
}

/// The result of one execution of a stage.
#[derive(Debug, Clone, Copy, PartialEq, Eq)]
pub struct ExecOutput {
    pub checkpoint: StageCheckpoint,
    pub done: bool,
}

/// The stage's unwind input.
#[derive(Debug, Clone, Copy, PartialEq, Eq)]
pub struct UnwindInput {
    pub unwind_to: u64,
    pub bad_block: Option<u64>,
    pub checkpoint: StageCheckpoint,
}

/// The result of unwinding a stage.
#[derive(Debug, Clone, Copy, PartialEq, Eq)]
pub struct UnwindOutput {
    pub checkpoint: StageCheckpoint,
}

impl StageCheckpoint {
    /// A checkpoint at `block_number`.
    pub fn new(block_number: u64) -> (c: Self)
        ensures
            c.block_number == block_number,
    {
        StageCheckpoint { block_number }
    }
}

impl ExecInput {
    /// The checkpoint reached so far, block zero when there is none.
    pub open spec fn spec_checkpoint(&self) -> u64 {
        match self.checkpoint {
            Some(c) => c.block_number,
            None => 0,
        }
    }

    /// The target block, zero when there is none.
    pub open spec fn spec_target(&self) -> u64 {
        match self.target {
            Some(t) => t,
            None => 0,
        }
    }

    /// The checkpoint reached so far, block zero when there is none.
    pub fn checkpoint(&self) -> (c: StageCheckpoint)
        ensures
            c.block_number == self.spec_checkpoint(),
    {
        match self.checkpoint {
            Some(c) => StageCheckpoint { block_number: c.block_number },
            None => StageCheckpoint { block_number: 0 },
        }
    }

    /// The target block, zero when there is none.
    pub fn target(&self) -> (t: u64)
        ensures
            t == self.spec_target(),
    {
        match self.target {
            Some(t) => t,
            None => 0,
        }
    }

    /// Whether the checkpoint has reached the target.
    pub fn target_reached(&self) -> (r: bool)
        ensures
            r == (self.spec_checkpoint() >= self.spec_target()),
    {
        self.checkpoint().block_number >= self.target()
    }
}

impl ExecOutput {
    /// A finished execution at `checkpoint`.
    pub fn done(checkpoint: StageCheckpoint) -> (o: Self)
        ensures
            o.checkpoint == checkpoint,
            o.done,
    {
        ExecOutput { checkpoint, done: true }
    }
}

} // verus!
