//! Core of a dual-path BFT state-machine-replication engine.
//!
//! An optimistic chained path (pipelined quorum voting with a 2-chain commit
//! rule) races a pessimistic asynchronous path (a multi-valued Byzantine
//! agreement built from a strong provable broadcast and a common coin). A
//! per-height arbitration phase selects which path commits.
//!
//! The crate is a deterministic state machine: every handler takes the
//! replica's state and one input and yields the next state together with the
//! list of actions that the surrounding runtime has to perform.

pub mod aggregator;
pub mod config;
pub mod encoding;
pub mod error;
pub mod idempotence;
pub mod laws;
pub mod leader;
pub mod messages;
pub mod mvba;
pub mod opt;
pub mod prepare;
pub mod quorum;
pub mod replica;
pub mod spb;
pub mod state;
pub mod synchronizer;
pub mod table;
pub mod threshold;
pub mod types;
pub mod validation;

pub use crate::aggregator::Aggregator;
pub use crate::config::{Authority, Committee, Parameters};
pub use crate::error::{ConsensusError, Disposition};
pub use crate::leader::LeaderElector;
pub use crate::messages::{
    Block, Broadcast, ConsensusMessage, HVote, MDoneAndShare, MHalt, MPreVote, MVote, MVoteTag,
    PrePare, PrePareProof, PreVoteTag, RandomCoin, RandomnessShare, SPBProof, SPBValue, SPBVote,
    Signed, QC,
};
pub use crate::replica::Input;
pub use crate::state::{Action, Core, Output};
pub use crate::synchronizer::{SyncAction, Synchronizer};
pub use crate::types::{
    Digest, PublicKey, SeqNumber, Signature, SignatureShare, Stake, FIN_PHASE, INIT_PHASE,
    LOCK_PHASE, OPT, PES,
};
