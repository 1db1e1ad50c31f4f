use vstd::prelude::*;
use crate::query_data::{StorageError, UpdateAvailabilityData, VidCommonQueryData, Write};
use crate::types::{Anomaly, Header, VidDisperse, VidError};

verus! {

/// The encoding of the empty payload that the genesis block always carries.
pub fn genesis_payload() -> (r: Vec<u8>)
    ensures
        r@ == Seq::<u8>::empty(),
{
    Vec::new()
}

/// The first share of a dispersal, which is the one this node keeps.
pub open spec fn first_share(d: VidDisperse) -> Option<Vec<u8>> {
    if d.shares@.len() > 0 {
        Some(d.shares@[0])
    } else {
        None
    }
}

/// Whether the recomputed dispersal `g` may be stored for the genesis block
/// with header `header`: it was computed and its commitment is the header's.
pub open spec fn genesis_matches(header: Header, g: Option<Result<VidDisperse, VidError>>) -> bool {
    match g {
        Some(Ok(d)) => d.commit == header.payload_commitment,
        _ => false,
    }
}

/// What is stored for the genesis block given the recomputed dispersal `g`.
pub open spec fn genesis_writes(header: Header, g: Option<Result<VidDisperse, VidError>>) -> Seq<
    Write,
> {
    match g {
        Some(Ok(d)) => if d.commit == header.payload_commitment {
            seq![Write::Vid(VidCommonQueryData { header, common: d.common }, first_share(d))]
        } else {
            Seq::empty()
        },
        _ => Seq::empty(),
    }
}

/// What is reported for the genesis block given the recomputed dispersal `g`.
pub open spec fn genesis_anomaly(header: Header, g: Option<Result<VidDisperse, VidError>>) -> Option<
    Anomaly,
> {
    match g {
        None => Some(Anomaly::GenesisDispersalUnavailable { block_number: header.block_number }),
        Some(Err(_)) => Some(Anomaly::GenesisDisperseFailed { block_number: header.block_number }),
        Some(Ok(d)) => if d.commit == header.payload_commitment {
            None
        } else {
            Some(
                Anomaly::GenesisCommitMismatch {
                    computed: d.commit,
                    header: header.payload_commitment,
                },
            )
        },
    }
}

/// Stores the dispersal recomputed for the genesis block, whose header is
/// `header`, when its commitment matches the header; otherwise stores nothing
/// and reports why. It fails only with the error of a failed insert.
pub fn store_genesis_vid<S: UpdateAvailabilityData>(
    storage: &mut S,
    header: Header,
    disperse: Option<Result<VidDisperse, VidError>>,
) -> (r: Result<Option<Anomaly>, StorageError>)
    ensures
        r is Ok ==> final(storage).writes() == old(storage).writes() + genesis_writes(header, disperse)
            && r->Ok_0 == genesis_anomaly(header, disperse),
        r is Ok ==> final(storage).errors() == old(storage).errors(),
        r is Err ==> genesis_matches(header, disperse) && final(storage).writes() == old(
            storage,
        ).writes() && final(storage).errors() == old(storage).errors().push(r->Err_0),
        old(storage).accepts_all() ==> r is Ok && final(storage).accepts_all(),
{
    match disperse {
        None => Ok(Some(Anomaly::GenesisDispersalUnavailable { block_number: header.block_number })),
        Some(Err(_)) => Ok(Some(Anomaly::GenesisDisperseFailed { block_number: header.block_number })),
        Some(Ok(d)) => {
            if d.commit != header.payload_commitment {
                return Ok(
                    Some(
                        Anomaly::GenesisCommitMismatch {
                            computed: d.commit,
                            header: header.payload_commitment,
                        },
                    ),
                );
            }
            let VidDisperse { commit: _, common, shares } = d;
            let mut shares = shares;
            let share = if shares.len() > 0 {
                Some(shares.remove(0))
            } else {
                None
            };
            let res = storage.insert_vid(VidCommonQueryData { header, common }, share);
            match res {
                Ok(()) => {
                    assert(old(storage).writes().push(
                        Write::Vid(VidCommonQueryData { header, common }, share),
                    ) =~= old(storage).writes() + genesis_writes(header, disperse));
                    Ok(None)
                },
                Err(e) => Err(e),
            }
        },
    }
}

/// A recomputed genesis dispersal whose commitment differs from the header's
/// is never stored: nothing is written and the mismatch is reported.
pub proof fn lemma_genesis_mismatch_stores_nothing(header: Header, d: VidDisperse)
    requires
        d.commit != header.payload_commitment,
    ensures
        genesis_writes(header, Some(Ok(d))) == Seq::<Write>::empty(),
        genesis_anomaly(header, Some(Ok(d))) == Some(
            Anomaly::GenesisCommitMismatch { computed: d.commit, header: header.payload_commitment },
        ),
{
}

} // verus!
