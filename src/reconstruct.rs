use vstd::prelude::*;
use crate::query_data::justifies;
use crate::types::{Decide, Qc};

verus! {

/// The certificate that justifies the `k`-th leaf of the chain, newest first:
/// the notification's own certificate for the newest leaf, and for every
/// other leaf the `justify_qc` carried by its child, one position newer.
pub open spec fn cert_for(d: Decide, k: int) -> Qc {
    if k == 0 {
        d.qc
    } else {
        d.leaf_chain@[k - 1].leaf.justify_qc
    }
}

/// The certificate of the `i`-th leaf in chronological order.
pub open spec fn chrono_cert(d: Decide, i: int) -> Qc {
    cert_for(d, d.len() - 1 - i)
}

/// The chain lists its leaves with strictly decreasing view numbers.
pub open spec fn chain_ordered(d: Decide) -> bool {
    forall|a: int, b: int|
        0 <= a < b < d.len() ==> #[trigger] d.leaf_chain@[b].leaf.view_number
            < #[trigger] d.leaf_chain@[a].leaf.view_number
}

/// Every leaf of the notification is justified by the certificate paired with it.
pub open spec fn all_justified(d: Decide) -> bool {
    forall|i: int| 0 <= i < d.len() ==> justifies(#[trigger] chrono_cert(d, i), d.chrono_info(i).leaf)
}

/// The certificates of the notification's leaves, in chronological order:
/// entry `i` is the certificate of the `i`-th oldest leaf. The `justify_qc` of
/// the oldest leaf justifies a leaf outside the batch and is left out.
pub fn chronological_certificates(d: &Decide) -> (r: Vec<Qc>)
    ensures
        r@.len() == d.len(),
        forall|i: int| 0 <= i < r@.len() ==> r@[i] == chrono_cert(*d, i),
{
    let n = d.leaf_chain.len();
    let mut r: Vec<Qc> = Vec::new();
    let mut i: usize = 0;
    while i < n
        invariant
            n == d.len(),
            i <= n,
            r@.len() == i,
            forall|j: int| 0 <= j < i ==> r@[j] == chrono_cert(*d, j),
        decreases n - i,
    {
        let k = n - 1 - i;
        let qc = if k == 0 {
            d.qc
        } else {
            d.leaf_chain[k - 1].leaf.justify_qc
        };
        r.push(qc);
        i += 1;
    }
    r
}

/// The reconstruction yields one certificate per leaf, and on a chain that is
/// ordered newest first the pairs come out in strictly increasing view order:
/// both the leaves and, where each pair is consistent, their certificates.
pub proof fn lemma_pairs_in_view_order(d: Decide)
    requires
        chain_ordered(d),
    ensures
        forall|i: int, j: int|
            0 <= i < j < d.len() ==> (#[trigger] d.chrono_info(i)).leaf.view_number < (
            #[trigger] d.chrono_info(j)).leaf.view_number,
        all_justified(d) ==> forall|i: int, j: int|
            0 <= i < j < d.len() ==> (#[trigger] chrono_cert(d, i)).view_number < (
            #[trigger] chrono_cert(d, j)).view_number,
{
    assert forall|i: int, j: int| 0 <= i < j < d.len() implies (
    #[trigger] d.chrono_info(i)).leaf.view_number < (
    #[trigger] d.chrono_info(j)).leaf.view_number by {
        let a = d.len() - 1 - j;
        let b = d.len() - 1 - i;
        assert(d.leaf_chain@[b].leaf.view_number < d.leaf_chain@[a].leaf.view_number);
    }
    if all_justified(d) {
        assert forall|i: int, j: int| 0 <= i < j < d.len() implies (#[trigger] chrono_cert(
            d,
            i,
        )).view_number < (#[trigger] chrono_cert(d, j)).view_number by {
            assert(justifies(chrono_cert(d, i), d.chrono_info(i).leaf));
            assert(justifies(chrono_cert(d, j), d.chrono_info(j).leaf));
            assert(d.chrono_info(i).leaf.view_number < d.chrono_info(j).leaf.view_number);
        }
    }
}

/// A notification whose certificate names none of its leaves is never fully
/// justified, so no reconstruction of it succeeds.
pub proof fn lemma_tampered_certificate_rejected(d: Decide)
    requires
        d.len() > 0,
        forall|k: int| 0 <= k < d.len() ==> d.qc.leaf_commit != (#[trigger] d.leaf_chain@[k]).leaf.commit,
    ensures
        !all_justified(d),
{
    let i = d.len() - 1;
    assert(chrono_cert(d, i) == d.qc);
    assert(d.leaf_chain@[0].leaf.commit != d.qc.leaf_commit);
    assert(!justifies(chrono_cert(d, i), d.chrono_info(i).leaf));
}

} // verus!
