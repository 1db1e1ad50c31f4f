use vstd::prelude::*;

verus! {

/// A quorum certificate: proof that a supermajority voted for the leaf with
/// commitment `leaf_commit` in view `view_number`.
#[derive(Clone, Copy, Debug, PartialEq, Eq, Structural)]
pub struct Qc {
    pub view_number: u64,
    pub leaf_commit: u64,
}

/// The header of a block: its height and the commitment to its payload.
#[derive(Clone, Copy, Debug, PartialEq, Eq, Structural)]
pub struct Header {
    pub block_number: u64,
    pub payload_commitment: u64,
}

/// A leaf of the finalized chain.
///
/// `commit` is the leaf's own commitment, `justify_qc` the certificate of its
/// parent, and `payload` the block's transaction data when it has been received.
#[derive(Clone, Debug, PartialEq, Eq)]
pub struct Leaf {
    pub view_number: u64,
    pub commit: u64,
    pub parent_commit: u64,
    pub header: Header,
    pub justify_qc: Qc,
    pub payload: Option<Vec<u8>>,
}

/// The dispersal data that consensus hands over with a leaf: the parameters
/// shared by all participants and this node's share.
#[derive(Clone, Debug, PartialEq, Eq)]
pub struct VidShare {
    pub common: Vec<u8>,
    pub share: Vec<u8>,
}

/// A leaf of a decide notification with its dispersal data, if any.
#[derive(Clone, Debug, PartialEq, Eq)]
pub struct LeafInfo {
    pub leaf: Leaf,
    pub vid_share: Option<VidShare>,
}

/// A decide notification: `qc` justifies the newest leaf, and `leaf_chain`
/// lists the newly finalized leaves newest first.
#[derive(Clone, Debug, PartialEq, Eq)]
pub struct Decide {
    pub qc: Qc,
    pub leaf_chain: Vec<LeafInfo>,
}

/// The events that consensus emits. Only `Decide` changes stored state.
#[derive(Clone, Debug)]
pub enum Event {
    Decide(Decide),
    ViewFinished { view_number: u64 },
    ViewTimeout { view_number: u64 },
    ReplicaViewTimeout { view_number: u64 },
    Error { message: String },
}

/// The result of dispersing a payload with an erasure code: the commitment,
/// the shared parameters and one share per storage node.
#[derive(Clone, Debug, PartialEq, Eq)]
pub struct VidDisperse {
    pub commit: u64,
    pub common: Vec<u8>,
    pub shares: Vec<Vec<u8>>,
}

/// A failure of the erasure-coding capability.
#[derive(Clone, Debug, PartialEq, Eq)]
pub struct VidError {
    pub message: String,
}

impl Leaf {
    /// The leaf as the store keeps it: without its payload, which is stored
    /// in a block record of its own.
    pub open spec fn stripped(self) -> Leaf {
        Leaf { payload: None, ..self }
    }
}

impl Decide {
    pub open spec fn len(self) -> nat {
        self.leaf_chain@.len()
    }

    /// The `i`-th leaf in chronological order (oldest first).
    pub open spec fn chrono_info(self, i: int) -> LeafInfo {
        self.leaf_chain@[self.len() - 1 - i]
    }
}

} // verus!

verus! {

/// A condition that is reported but does not stop the processing of a
/// notification.
#[derive(Clone, Copy, Debug, PartialEq, Eq, Structural)]
pub enum Anomaly {
    /// No dispersal data arrived with a leaf that is not the genesis leaf.
    MissingVid { block_number: u64 },
    /// The payload of a block was not available at decide.
    MissingBlock { block_number: u64 },
    /// The dispersal recomputed for the genesis block does not match the
    /// commitment in its header.
    GenesisCommitMismatch { computed: u64, header: u64 },
    /// The erasure-coding capability failed on the genesis payload.
    GenesisDisperseFailed { block_number: u64 },
    /// The genesis leaf needed a dispersal and none was supplied.
    GenesisDispersalUnavailable { block_number: u64 },
}

} // verus!
