use vstd::prelude::*;
use crate::types::{Header, Leaf, Qc};

verus! {

/// A leaf together with the certificate that justifies it.
#[derive(Clone, Debug, PartialEq, Eq)]
pub struct LeafQueryData {
    pub leaf: Leaf,
    pub qc: Qc,
}

/// A leaf and a certificate that do not belong together.
#[derive(Clone, Copy, Debug, PartialEq, Eq, Structural)]
pub struct InconsistentLeaf {
    pub leaf: u64,
    pub qc_leaf: u64,
}

/// The dispersal parameters shared by all participants, for one block.
#[derive(Clone, Debug, PartialEq, Eq)]
pub struct VidCommonQueryData {
    pub header: Header,
    pub common: Vec<u8>,
}

/// A block: its header and its payload.
#[derive(Clone, Debug, PartialEq, Eq)]
pub struct BlockQueryData {
    pub header: Header,
    pub payload: Vec<u8>,
}

/// A failure of the storage behind a data source.
#[derive(Clone, Debug, PartialEq, Eq)]
pub struct StorageError {
    pub message: String,
}

/// One write issued against a data source.
#[derive(Clone, Debug, PartialEq, Eq)]
pub enum Write {
    Leaf(LeafQueryData),
    Vid(VidCommonQueryData, Option<Vec<u8>>),
    Block(BlockQueryData),
}

/// Whether `qc` is the certificate of `leaf`: it names the leaf's commitment
/// and was formed in the leaf's view.
pub open spec fn justifies(qc: Qc, leaf: Leaf) -> bool {
    qc.leaf_commit == leaf.commit && qc.view_number == leaf.view_number
}

impl LeafQueryData {
    /// Pairs `leaf` with `qc`, keeping the leaf without its payload; fails
    /// exactly when `qc` does not justify `leaf`.
    pub fn new(leaf: Leaf, qc: Qc) -> (r: Result<LeafQueryData, InconsistentLeaf>)
        ensures
            justifies(qc, leaf) <==> r is Ok,
            r is Ok ==> r->Ok_0 == (LeafQueryData { leaf: leaf.stripped(), qc }),
            r is Err ==> r->Err_0 == (InconsistentLeaf { leaf: leaf.commit, qc_leaf: qc.leaf_commit }),
    {
        if qc.leaf_commit != leaf.commit || qc.view_number != leaf.view_number {
            return Err(InconsistentLeaf { leaf: leaf.commit, qc_leaf: qc.leaf_commit });
        }
        let mut leaf = leaf;
        leaf.payload = None;
        Ok(LeafQueryData { leaf, qc })
    }

    pub fn height(&self) -> (r: u64)
        ensures
            r == self.leaf.header.block_number,
    {
        self.leaf.header.block_number
    }
}

/// The write capability of a data source.
///
/// `writes` is the sequence of writes that the source has accepted and
/// `errors` the sequence of errors its inserts have returned. An insert that
/// succeeds appends exactly its own write; one that fails leaves the writes as
/// they were and appends exactly the error it returns. A source that
/// `accepts_all` writes accepts every insert and keeps doing so.
pub trait UpdateAvailabilityData: Sized {
    spec fn writes(&self) -> Seq<Write>;

    spec fn errors(&self) -> Seq<StorageError>;

    spec fn accepts_all(&self) -> bool;

    fn insert_leaf(&mut self, leaf: LeafQueryData) -> (r: Result<(), StorageError>)
        ensures
            r is Ok ==> final(self).writes() == old(self).writes().push(Write::Leaf(leaf))
                && final(self).errors() == old(self).errors(),
            r is Err ==> final(self).writes() == old(self).writes() && final(self).errors() == old(
                self,
            ).errors().push(r->Err_0),
            old(self).accepts_all() ==> r is Ok && final(self).accepts_all(),
    ;

    fn insert_vid(&mut self, common: VidCommonQueryData, share: Option<Vec<u8>>) -> (r: Result<
        (),
        StorageError,
    >)
        ensures
            r is Ok ==> final(self).writes() == old(self).writes().push(Write::Vid(common, share))
                && final(self).errors() == old(self).errors(),
            r is Err ==> final(self).writes() == old(self).writes() && final(self).errors() == old(
                self,
            ).errors().push(r->Err_0),
            old(self).accepts_all() ==> r is Ok && final(self).accepts_all(),
    ;

    fn insert_block(&mut self, block: BlockQueryData) -> (r: Result<(), StorageError>)
        ensures
            r is Ok ==> final(self).writes() == old(self).writes().push(Write::Block(block))
                && final(self).errors() == old(self).errors(),
            r is Err ==> final(self).writes() == old(self).writes() && final(self).errors() == old(
                self,
            ).errors().push(r->Err_0),
            old(self).accepts_all() ==> r is Ok && final(self).accepts_all(),
    ;
}

} // verus!
