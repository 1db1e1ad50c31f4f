use vstd::prelude::*;
use crate::genesis::{genesis_anomaly, genesis_writes, store_genesis_vid};
use crate::query_data::{
    justifies, BlockQueryData, InconsistentLeaf, LeafQueryData, StorageError,
    UpdateAvailabilityData, VidCommonQueryData, Write,
};
use crate::reconstruct::{all_justified, chrono_cert, chronological_certificates};
use crate::types::{Anomaly, Decide, Event, LeafInfo, Qc, VidDisperse, VidError};

verus! {

/// Why an update failed.
#[derive(Clone, Debug)]
pub enum UpdateError {
    /// A leaf and the certificate paired with it do not belong together.
    Inconsistent(InconsistentLeaf),
    /// The storage refused a write.
    Storage(StorageError),
}

/// A leaf that arrived without dispersal data and is the genesis leaf, so its
/// dispersal is recomputed.
pub open spec fn is_genesis_gap(info: LeafInfo) -> bool {
    info.vid_share is None && info.leaf.view_number == 0
}

/// The dispersal writes for one leaf, given the recomputed genesis dispersal `g`.
pub open spec fn vid_writes(info: LeafInfo, g: Option<Result<VidDisperse, VidError>>) -> Seq<Write> {
    match info.vid_share {
        Some(s) => seq![
            Write::Vid(VidCommonQueryData { header: info.leaf.header, common: s.common }, Some(s.share)),
        ],
        None => if info.leaf.view_number == 0 {
            genesis_writes(info.leaf.header, g)
        } else {
            Seq::empty()
        },
    }
}

/// The block write for one leaf: present when its payload is.
pub open spec fn block_writes(info: LeafInfo) -> Seq<Write> {
    match info.leaf.payload {
        Some(p) => seq![Write::Block(BlockQueryData { header: info.leaf.header, payload: p })],
        None => Seq::empty(),
    }
}

/// All writes for one leaf justified by `qc`: the leaf record, then its
/// dispersal, then its block.
pub open spec fn leaf_writes(info: LeafInfo, qc: Qc, g: Option<Result<VidDisperse, VidError>>) -> Seq<
    Write,
> {
    seq![Write::Leaf(LeafQueryData { leaf: info.leaf.stripped(), qc })] + vid_writes(info, g)
        + block_writes(info)
}

/// What is reported for one leaf: missing dispersal data, then a missing payload.
pub open spec fn leaf_anomalies(info: LeafInfo, g: Option<Result<VidDisperse, VidError>>) -> Seq<
    Anomaly,
> {
    let bn = info.leaf.header.block_number;
    let vid = if info.vid_share is Some {
        Seq::empty()
    } else if info.leaf.view_number == 0 {
        match genesis_anomaly(info.leaf.header, g) {
            Some(a) => seq![a],
            None => Seq::empty(),
        }
    } else {
        seq![Anomaly::MissingVid { block_number: bn }]
    };
    let block = if info.leaf.payload is Some {
        Seq::empty()
    } else {
        seq![Anomaly::MissingBlock { block_number: bn }]
    };
    vid + block
}

/// The recomputed genesis dispersal still unused once the `m` oldest leaves
/// have been processed: the first genesis leaf lacking dispersal data uses it.
pub open spec fn genesis_left(d: Decide, g: Option<Result<VidDisperse, VidError>>, m: nat) -> Option<
    Result<VidDisperse, VidError>,
>
    decreases m,
{
    if m == 0 {
        g
    } else if is_genesis_gap(d.chrono_info(m - 1)) {
        None
    } else {
        genesis_left(d, g, (m - 1) as nat)
    }
}

/// The writes for the `m` oldest leaves of `d`, oldest first.
pub open spec fn planned_writes(d: Decide, g: Option<Result<VidDisperse, VidError>>, m: nat) -> Seq<
    Write,
>
    decreases m,
{
    if m == 0 {
        Seq::empty()
    } else {
        planned_writes(d, g, (m - 1) as nat) + leaf_writes(
            d.chrono_info(m - 1),
            chrono_cert(d, m - 1),
            genesis_left(d, g, (m - 1) as nat),
        )
    }
}

/// What is reported for the `m` oldest leaves of `d`, oldest first.
pub open spec fn planned_anomalies(
    d: Decide,
    g: Option<Result<VidDisperse, VidError>>,
    m: nat,
) -> Seq<Anomaly>
    decreases m,
{
    if m == 0 {
        Seq::empty()
    } else {
        planned_anomalies(d, g, (m - 1) as nat) + leaf_anomalies(
            d.chrono_info(m - 1),
            genesis_left(d, g, (m - 1) as nat),
        )
    }
}

/// `after` is `before` followed by a prefix of `plan`.
pub open spec fn wrote_prefix(before: Seq<Write>, after: Seq<Write>, plan: Seq<Write>) -> bool {
    exists|p: Seq<Write>| #[trigger] p.is_prefix_of(plan) && after == before + p
}

/// `m` is the oldest position whose leaf is not justified by its certificate.
pub open spec fn first_unjustified(d: Decide, m: int) -> bool {
    &&& 0 <= m < d.len()
    &&& !justifies(chrono_cert(d, m), d.chrono_info(m).leaf)
    &&& forall|i: int| 0 <= i < m ==> justifies(#[trigger] chrono_cert(d, i), d.chrono_info(i).leaf)
}

proof fn lemma_prefix_extend(p: Seq<Write>, q: Seq<Write>, r: Seq<Write>)
    requires
        q.is_prefix_of(r),
    ensures
        (p + q).is_prefix_of(p + r),
{
    assert((p + q) =~= (p + r).subrange(0, (p + q).len() as int));
}

proof fn lemma_prefix_trans(p: Seq<Write>, q: Seq<Write>, r: Seq<Write>)
    requires
        p.is_prefix_of(q),
        q.is_prefix_of(r),
    ensures
        p.is_prefix_of(r),
{
    assert(p =~= r.subrange(0, p.len() as int));
}

proof fn lemma_planned_prefix(d: Decide, g: Option<Result<VidDisperse, VidError>>, m: nat, n: nat)
    requires
        m <= n,
    ensures
        planned_writes(d, g, m).is_prefix_of(planned_writes(d, g, n)),
    decreases n,
{
    if m < n {
        lemma_planned_prefix(d, g, m, (n - 1) as nat);
        let a = planned_writes(d, g, (n - 1) as nat);
        let b = planned_writes(d, g, n);
        assert(a =~= b.subrange(0, a.len() as int));
        lemma_prefix_trans(planned_writes(d, g, m), a, b);
    } else {
        assert(planned_writes(d, g, m) =~= planned_writes(d, g, n).subrange(
            0,
            planned_writes(d, g, m).len() as int,
        ));
    }
}

/// Writes the records of one leaf justified, if it is, by `qc`.
fn insert_leaf_info<S: UpdateAvailabilityData>(
    storage: &mut S,
    info: LeafInfo,
    qc: Qc,
    genesis: Option<Result<VidDisperse, VidError>>,
) -> (r: Result<Vec<Anomaly>, UpdateError>)
    ensures
        r is Ok ==> justifies(qc, info.leaf) && final(storage).writes() == old(storage).writes()
            + leaf_writes(info, qc, genesis) && r->Ok_0@ == leaf_anomalies(info, genesis),
        !justifies(qc, info.leaf) ==> r is Err && r->Err_0 == UpdateError::Inconsistent(
            InconsistentLeaf { leaf: info.leaf.commit, qc_leaf: qc.leaf_commit },
        ) && final(storage).writes() == old(storage).writes(),
        justifies(qc, info.leaf) && r is Err ==> r->Err_0 is Storage,
        r is Ok || r->Err_0 is Inconsistent ==> final(storage).errors() == old(storage).errors(),
        r is Err && r->Err_0 is Storage ==> final(storage).errors() == old(storage).errors().push(
            r->Err_0->Storage_0,
        ),
        old(storage).accepts_all() ==> final(storage).accepts_all() && (justifies(qc, info.leaf)
            ==> r is Ok),
        r is Err ==> wrote_prefix(
            old(storage).writes(),
            final(storage).writes(),
            leaf_writes(info, qc, genesis),
        ),
{
    let ghost w0 = storage.writes();
    let ghost plan = leaf_writes(info, qc, genesis);
    let LeafInfo { leaf, vid_share } = info;
    let header = leaf.header;
    let bn = header.block_number;
    let view_number = leaf.view_number;
    let mut leaf = leaf;
    let payload = leaf.payload.take();
    assert(leaf == info.leaf.stripped());
    let record = match LeafQueryData::new(leaf, qc) {
        Ok(record) => record,
        Err(e) => {
            proof {
                assert(Seq::<Write>::empty().is_prefix_of(plan));
                assert(w0 =~= w0 + Seq::<Write>::empty());
            }
            return Err(UpdateError::Inconsistent(e));
        },
    };
    let ghost lw = seq![Write::Leaf(record)];
    match storage.insert_leaf(record) {
        Ok(()) => {},
        Err(e) => {
            proof {
                assert(Seq::<Write>::empty().is_prefix_of(plan));
                assert(w0 =~= w0 + Seq::<Write>::empty());
            }
            return Err(UpdateError::Storage(e));
        },
    }
    assert(storage.writes() =~= w0 + lw);
    let ghost vw = vid_writes(info, genesis);
    let mut anomalies: Vec<Anomaly> = Vec::new();
    match vid_share {
        Some(s) => {
            match storage.insert_vid(VidCommonQueryData { header, common: s.common }, Some(s.share)) {
                Ok(()) => {},
                Err(e) => {
                    proof {
                        assert(lw.is_prefix_of(plan));
                    }
                    return Err(UpdateError::Storage(e));
                },
            }
        },
        None => {
            if view_number == 0 {
                match store_genesis_vid(storage, header, genesis) {
                    Ok(Some(a)) => {
                        anomalies.push(a);
                    },
                    Ok(None) => {},
                    Err(e) => {
                        proof {
                            assert(lw.is_prefix_of(plan));
                        }
                        return Err(UpdateError::Storage(e));
                    },
                }
            } else {
                anomalies.push(Anomaly::MissingVid { block_number: bn });
            }
        },
    }
    assert(storage.writes() =~= w0 + (lw + vw));
    match payload {
        Some(p) => {
            match storage.insert_block(BlockQueryData { header, payload: p }) {
                Ok(()) => {},
                Err(e) => {
                    proof {
                        assert((lw + vw).is_prefix_of(plan));
                    }
                    return Err(UpdateError::Storage(e));
                },
            }
        },
        None => {
            anomalies.push(Anomaly::MissingBlock { block_number: bn });
        },
    }
    assert(storage.writes() =~= w0 + plan);
    assert(anomalies@ =~= leaf_anomalies(info, genesis));
    Ok(anomalies)
}

/// What an update with `event` and recomputed genesis dispersal `g` does to
/// a data source that goes from `before` to `after`, returning `r`.
///
/// Events other than a decide change nothing. For a decide, success means
/// every leaf was justified and the planned writes and reports of all leaves
/// were made, oldest leaf first; an empty chain always succeeds. An
/// unjustified leaf always fails the update: the failure names the oldest
/// such leaf, after exactly the writes of the leaves before it, and nothing
/// is ever written for that leaf or a newer one. Any other failure is the
/// error of the one insert that failed, handed back as it came. On a source
/// that accepts all writes, the update succeeds exactly when every leaf is
/// justified.
pub open spec fn update_post<S: UpdateAvailabilityData>(
    event: Event,
    g: Option<Result<VidDisperse, VidError>>,
    before: S,
    after: S,
    r: Result<Vec<Anomaly>, UpdateError>,
) -> bool {
    match event {
        Event::Decide(d) => {
            let wb = before.writes();
            let wa = after.writes();
            &&& r is Ok ==> all_justified(d) && wa == wb + planned_writes(d, g, d.len())
                && r->Ok_0@ == planned_anomalies(d, g, d.len()) && after.errors() == before.errors()
            &&& !all_justified(d) ==> r is Err
            &&& all_justified(d) && r is Err ==> r->Err_0 is Storage
            &&& (r is Err && r->Err_0 is Inconsistent) ==> after.errors() == before.errors()
                && exists|m: int|
                #[trigger] first_unjustified(d, m) && wa == wb + planned_writes(d, g, m as nat)
                    && r->Err_0 == UpdateError::Inconsistent(
                    InconsistentLeaf {
                        leaf: d.chrono_info(m).leaf.commit,
                        qc_leaf: chrono_cert(d, m).leaf_commit,
                    },
                )
            &&& (r is Err && r->Err_0 is Storage) ==> after.errors() == before.errors().push(
                r->Err_0->Storage_0,
            )
            &&& r is Err ==> wrote_prefix(wb, wa, planned_writes(d, g, d.len()))
            &&& forall|m: int| #[trigger]
                first_unjustified(d, m) ==> wrote_prefix(wb, wa, planned_writes(d, g, m as nat))
            &&& d.len() == 0 ==> r is Ok && r->Ok_0@.len() == 0 && wa == wb
            &&& first_unjustified(d, 0) ==> wa == wb && r == Err::<Vec<Anomaly>, UpdateError>(
                UpdateError::Inconsistent(
                    InconsistentLeaf {
                        leaf: d.chrono_info(0).leaf.commit,
                        qc_leaf: chrono_cert(d, 0).leaf_commit,
                    },
                ),
            )
            &&& before.accepts_all() ==> after.accepts_all() && (r is Ok <==> all_justified(d)) && (
            r is Err ==> r->Err_0 is Inconsistent)
        },
        _ => r is Ok && r->Ok_0@.len() == 0 && after == before,
    }
}

/// Processes one consensus event against `storage`; see `update_post`.
fn apply_event<S: UpdateAvailabilityData>(
    storage: &mut S,
    event: Event,
    genesis: Option<Result<VidDisperse, VidError>>,
) -> (r: Result<Vec<Anomaly>, UpdateError>)
    ensures
        update_post(event, genesis, *old(storage), *final(storage), r),
{
    let ghost w0 = storage.writes();
    let ghost g0 = genesis;
    match event {
        Event::Decide(d) => {
            let ghost d0 = d;
            assert(event == Event::Decide(d0));
            let certs = chronological_certificates(&d);
            let n = d.leaf_chain.len();
            let Decide { qc: _, leaf_chain } = d;
            let mut chain = leaf_chain;
            let mut left = genesis;
            let mut anomalies: Vec<Anomaly> = Vec::new();
            let mut i: usize = 0;
            assert(chain@ =~= d0.leaf_chain@.take(n as int));
            while i < n
                invariant
                    event == Event::Decide(d0),
                    n == d0.len(),
                    i <= n,
                    certs@.len() == n,
                    forall|j: int| 0 <= j < n ==> certs@[j] == chrono_cert(d0, j),
                    chain@ == d0.leaf_chain@.take(n - i),
                    g0 == genesis,
                    w0 == old(storage).writes(),
                    storage.errors() == old(storage).errors(),
                    old(storage).accepts_all() ==> storage.accepts_all(),
                    left == genesis_left(d0, g0, i as nat),
                    storage.writes() == w0 + planned_writes(d0, g0, i as nat),
                    anomalies@ == planned_anomalies(d0, g0, i as nat),
                    forall|j: int|
                        0 <= j < i ==> justifies(#[trigger] chrono_cert(d0, j), d0.chrono_info(j).leaf),
                decreases n - i,
            {
                let ghost before = storage.writes();
                let ghost gi = left;
                let info = chain.pop().unwrap();
                assert(info == d0.chrono_info(i as int));
                assert(chain@ =~= d0.leaf_chain@.take(n - i - 1));
                let qc = certs[i];
                let gap = info.vid_share.is_none() && info.leaf.view_number == 0;
                let g = if gap {
                    left.take()
                } else {
                    None
                };
                let ghost lw = leaf_writes(info, qc, gi);
                assert(leaf_writes(info, qc, g) == lw);
                assert(leaf_anomalies(info, g) == leaf_anomalies(info, gi));
                let step = insert_leaf_info(storage, info, qc, g);
                match step {
                    Ok(found) => {
                        let mut found = found;
                        anomalies.append(&mut found);
                        proof {
                            assert(storage.writes() =~= w0 + planned_writes(d0, g0, (i + 1) as nat));
                            assert(anomalies@ =~= planned_anomalies(d0, g0, (i + 1) as nat));
                        }
                    },
                    Err(e) => {
                        proof {
                            let p = choose|p: Seq<Write>|
                                #[trigger] p.is_prefix_of(lw) && storage.writes() == before + p;
                            let pw = planned_writes(d0, g0, i as nat);
                            lemma_prefix_extend(pw, p, lw);
                            assert(pw + lw == planned_writes(d0, g0, (i + 1) as nat));
                            lemma_planned_prefix(d0, g0, (i + 1) as nat, n as nat);
                            lemma_prefix_trans(pw + p, pw + lw, planned_writes(d0, g0, n as nat));
                            assert(storage.writes() =~= w0 + (pw + p));
                            assert(wrote_prefix(w0, storage.writes(), planned_writes(d0, g0, n as nat)));
                            if all_justified(d0) {
                                assert(justifies(chrono_cert(d0, i as int), d0.chrono_info(i as int).leaf));
                            }
                            if e is Inconsistent {
                                assert(first_unjustified(d0, i as int));
                            }
                            assert forall|m: int| #[trigger] first_unjustified(d0, m) implies wrote_prefix(
                                w0,
                                storage.writes(),
                                planned_writes(d0, g0, m as nat),
                            ) by {
                                assert(m >= i) by {
                                    if m < i {
                                        assert(justifies(chrono_cert(d0, m), d0.chrono_info(m).leaf));
                                    }
                                }
                                if m == i {
                                    lemma_planned_prefix(d0, g0, i as nat, m as nat);
                                    assert(storage.writes() == w0 + pw);
                                } else {
                                    lemma_planned_prefix(d0, g0, (i + 1) as nat, m as nat);
                                    lemma_prefix_trans(pw + p, pw + lw, planned_writes(d0, g0, m as nat));
                                }
                            }
                        }
                        return Err(e);
                    },
                }
                i += 1;
            }
            assert(storage.writes() =~= w0 + planned_writes(d0, g0, n as nat));
            Ok(anomalies)
        },
        _ => Ok(Vec::new()),
    }
}

/// Whether some leaf of `d` is a genesis leaf without dispersal data.
pub open spec fn has_genesis_gap(d: Decide) -> bool {
    exists|k: int| 0 <= k < d.len() && is_genesis_gap(#[trigger] d.leaf_chain@[k])
}

fn chain_has_genesis_gap(d: &Decide) -> (r: bool)
    ensures
        r == has_genesis_gap(*d),
{
    let mut k: usize = 0;
    while k < d.leaf_chain.len()
        invariant
            k <= d.len(),
            forall|j: int| 0 <= j < k ==> !is_genesis_gap(#[trigger] d.leaf_chain@[j]),
        decreases d.len() - k,
    {
        let info = &d.leaf_chain[k];
        if info.vid_share.is_none() && info.leaf.view_number == 0 {
            assert(is_genesis_gap(d.leaf_chain@[k as int]));
            return true;
        }
        k += 1;
    }
    false
}

/// Whether `event` is a decide whose chain holds a genesis leaf without
/// dispersal data, for which the caller recomputes the genesis dispersal.
pub fn needs_genesis_dispersal(event: &Event) -> (r: bool)
    ensures
        r == match *event {
            Event::Decide(d) => has_genesis_gap(d),
            _ => false,
        },
{
    match event {
        Event::Decide(d) => chain_has_genesis_gap(d),
        _ => false,
    }
}

/// A data source that can be kept up to date from consensus events.
///
/// The caller authenticates each event; nothing here checks that it follows
/// from the state already stored.
pub trait UpdateDataSource: UpdateAvailabilityData {
    /// Updates the stored state from `event`. `genesis` is the dispersal of
    /// the genesis payload, used only for a genesis leaf that arrives without
    /// dispersal data.
    fn update(&mut self, event: Event, genesis: Option<Result<VidDisperse, VidError>>) -> (r: Result<
        Vec<Anomaly>,
        UpdateError,
    >)
        ensures
            update_post(event, genesis, *old(self), *final(self), r),
    ;
}

impl<T: UpdateAvailabilityData> UpdateDataSource for T {
    fn update(&mut self, event: Event, genesis: Option<Result<VidDisperse, VidError>>) -> (r: Result<
        Vec<Anomaly>,
        UpdateError,
    >) {
        apply_event(self, event, genesis)
    }
}

} // verus!
