use vstd::prelude::*;
use crate::query_data::{
    BlockQueryData, LeafQueryData, StorageError, UpdateAvailabilityData, VidCommonQueryData, Write,
};

verus! {

/// The kinds of record a data source keeps, each keyed by block height.
#[derive(Clone, Copy, Debug, PartialEq, Eq, Structural)]
pub enum RecordKind {
    Leaf,
    Vid,
    Block,
}

/// The kind and height of the record that a write stores.
pub open spec fn key_of(w: Write) -> (RecordKind, u64) {
    match w {
        Write::Leaf(l) => (RecordKind::Leaf, l.leaf.header.block_number),
        Write::Vid(c, _) => (RecordKind::Vid, c.header.block_number),
        Write::Block(b) => (RecordKind::Block, b.header.block_number),
    }
}

/// The record of kind `kind` at `height` that `log` shows: the last write
/// to that key, if any.
pub open spec fn latest(log: Seq<Write>, kind: RecordKind, height: u64) -> Option<Write>
    decreases log.len(),
{
    if log.len() == 0 {
        None
    } else if key_of(log.last()) == (kind, height) {
        Some(log.last())
    } else {
        latest(log.drop_last(), kind, height)
    }
}

/// The record that a lookup found, if any.
pub open spec fn deref_found(r: Option<&Write>) -> Option<Write> {
    match r {
        Some(w) => Some(*w),
        None => None,
    }
}

impl Write {
    pub fn key(&self) -> (r: (RecordKind, u64))
        ensures
            r == key_of(*self),
    {
        match self {
            Write::Leaf(l) => (RecordKind::Leaf, l.leaf.header.block_number),
            Write::Vid(c, _) => (RecordKind::Vid, c.header.block_number),
            Write::Block(b) => (RecordKind::Block, b.header.block_number),
        }
    }
}

/// The last write to the key among the first `upto` writes of `log`.
fn find_latest(log: &Vec<Write>, upto: usize, kind: RecordKind, height: u64) -> (r: Option<&Write>)
    requires
        upto <= log@.len(),
    ensures
        deref_found(r) == latest(log@.take(upto as int), kind, height),
{
    let mut i: usize = upto;
    while i > 0
        invariant
            i <= upto <= log@.len(),
            latest(log@.take(upto as int), kind, height) == latest(log@.take(i as int), kind, height),
        decreases i,
    {
        let w = &log[i - 1];
        let k = w.key();
        assert(log@.take(i as int).drop_last() =~= log@.take(i - 1));
        if k.0 == kind && k.1 == height {
            return Some(w);
        }
        i -= 1;
    }
    None
}

/// A data source in memory: the sequence of committed writes.
pub struct MemStore {
    log: Vec<Write>,
}

/// A read-only transaction: the number of committed writes it sees.
pub struct ReadTransaction {
    snapshot: usize,
    seen: Ghost<Seq<Write>>,
}

/// The committed writes that a write transaction started from, and their number.
struct Origin {
    len: usize,
    contents: Ghost<Seq<Write>>,
}

impl Origin {
    #[verifier::type_invariant]
    spec fn inv(self) -> bool {
        self.contents@.len() == self.len
    }
}

/// A write transaction: the number of committed writes it started from and
/// the writes staged in it.
pub struct WriteTransaction {
    origin: Origin,
    pending: Vec<Write>,
}

impl View for MemStore {
    type V = Seq<Write>;

    closed spec fn view(&self) -> Seq<Write> {
        self.log@
    }
}

impl ReadTransaction {
    pub closed spec fn snapshot(self) -> nat {
        self.snapshot as nat
    }

    /// The committed writes this transaction reads: those at its opening.
    pub closed spec fn seen(self) -> Seq<Write> {
        self.seen@
    }

    #[verifier::type_invariant]
    spec fn inv(self) -> bool {
        self.seen@.len() == self.snapshot
    }
}

impl WriteTransaction {
    pub closed spec fn base(self) -> nat {
        self.origin.len as nat
    }

    /// The committed writes this transaction started from.
    pub closed spec fn started(self) -> Seq<Write> {
        self.origin.contents@
    }

    pub closed spec fn staged(self) -> Seq<Write> {
        self.pending@
    }

    /// What reads through this transaction show: the committed writes it
    /// started from, then its own.
    pub open spec fn visible(self, committed: Seq<Write>) -> Seq<Write> {
        committed.take(vstd::math::min(self.base() as int, committed.len() as int)) + self.staged()
    }

    /// The record of kind `kind` at `height`, as this transaction sees it,
    /// against the data source `source` it was opened on.
    pub fn get<'a>(&'a self, source: &'a MemStore, kind: RecordKind, height: u64) -> (r: Option<
        &'a Write,
    >)
        ensures
            deref_found(r) == latest(self.visible(source@), kind, height),
            self.started().is_prefix_of(source@) ==> deref_found(r) == latest(
                self.started() + self.staged(),
                kind,
                height,
            ),
    {
        proof {
            use_type_invariant(&self.origin);
            if self.started().is_prefix_of(source@) {
                assert(source@.take(self.base() as int) =~= self.started());
            }
        }
        proof {
            lemma_latest_append(
                source@.take(vstd::math::min(self.base() as int, source@.len() as int)),
                self.staged(),
                kind,
                height,
            );
        }
        match find_latest(&self.pending, self.pending.len(), kind, height) {
            Some(w) => {
                assert(self.pending@.take(self.pending@.len() as int) =~= self.pending@);
                Some(w)
            },
            None => {
                assert(self.pending@.take(self.pending@.len() as int) =~= self.pending@);
                let upto = if self.origin.len < source.log.len() {
                    self.origin.len
                } else {
                    source.log.len()
                };
                find_latest(&source.log, upto, kind, height)
            },
        }
    }
}

impl MemStore {
    /// An empty data source.
    pub fn new() -> (r: MemStore)
        ensures
            r@ == Seq::<Write>::empty(),
    {
        MemStore { log: Vec::new() }
    }

    /// The number of committed writes.
    pub fn committed_len(&self) -> (r: usize)
        ensures
            r == self@.len(),
    {
        self.log.len()
    }

    /// The record of kind `kind` at `height` in the snapshot of `txn`.
    pub fn get<'a>(&'a self, txn: &ReadTransaction, kind: RecordKind, height: u64) -> (r: Option<
        &'a Write,
    >)
        ensures
            deref_found(r) == latest(
                self@.take(vstd::math::min(txn.snapshot() as int, self@.len() as int)),
                kind,
                height,
            ),
            txn.seen().is_prefix_of(self@) ==> deref_found(r) == latest(txn.seen(), kind, height),
    {
        proof {
            use_type_invariant(txn);
            if txn.seen().is_prefix_of(self@) {
                assert(self@.take(txn.snapshot() as int) =~= txn.seen());
            }
        }
        let upto = if txn.snapshot < self.log.len() {
            txn.snapshot
        } else {
            self.log.len()
        };
        find_latest(&self.log, upto, kind, height)
    }
}

proof fn lemma_latest_append(a: Seq<Write>, b: Seq<Write>, kind: RecordKind, height: u64)
    ensures
        latest(a + b, kind, height) == (match latest(b, kind, height) {
            Some(w) => Some(w),
            None => latest(a, kind, height),
        }),
    decreases b.len(),
{
    if b.len() == 0 {
        assert(a + b =~= a);
    } else {
        assert((a + b).drop_last() =~= a + b.drop_last());
        lemma_latest_append(a, b.drop_last(), kind, height);
    }
}

/// A data source seen as the sequence of writes committed to it.
pub trait CommittedWrites {
    spec fn contents(&self) -> Seq<Write>;
}

/// A data source whose changes go through transactions.
///
/// Opening a transaction changes nothing. A transaction shows the committed
/// writes as they stood when it was opened, then its own staged writes, of
/// which a new one has none. What it shows is fixed by the transaction
/// itself, so a commit made after a read-only transaction was opened is not
/// seen through it; one made before is.
pub trait VersionedDataSource: CommittedWrites + Sized {
    type Transaction: Transaction<Self>;
    type ReadOnly: Transaction<Self>;

    /// Starts a transaction that can read and modify the data source.
    fn write(&self) -> (t: Self::Transaction)
        ensures
            t.staged() == Seq::<Write>::empty(),
            t.shows() == self.contents(),
    ;

    /// Starts a read-only transaction on a snapshot of the data source.
    fn read(&self) -> (t: Self::ReadOnly)
        ensures
            t.staged() == Seq::<Write>::empty(),
            t.shows() == self.contents(),
    ;
}

/// A unit of atomicity on a data source `D`.
///
/// Committing appends all staged writes to the committed ones at once, or on
/// failure none of them; reverting leaves the data source as it was.
pub trait Transaction<D: CommittedWrites>: Sized {
    spec fn staged(&self) -> Seq<Write>;

    /// What reads through this transaction show: the committed writes at its
    /// opening, then its staged writes.
    spec fn shows(&self) -> Seq<Write>;

    fn commit(self, source: &mut D) -> (r: Result<(), StorageError>)
        ensures
            r is Ok ==> final(source).contents() == old(source).contents() + self.staged(),
            r is Err ==> final(source).contents() == old(source).contents(),
    ;

    fn revert(self, source: &mut D)
        ensures
            final(source).contents() == old(source).contents(),
    ;
}

impl CommittedWrites for MemStore {
    open spec fn contents(&self) -> Seq<Write> {
        self@
    }
}

impl VersionedDataSource for MemStore {
    type Transaction = WriteTransaction;
    type ReadOnly = ReadTransaction;

    fn write(&self) -> (t: WriteTransaction)
        ensures
            t.base() == self@.len(),
    {
        WriteTransaction {
            origin: Origin { len: self.log.len(), contents: Ghost(self@) },
            pending: Vec::new(),
        }
    }

    fn read(&self) -> (t: ReadTransaction)
        ensures
            t.snapshot() == self@.len(),
    {
        ReadTransaction { snapshot: self.log.len(), seen: Ghost(self@) }
    }
}

impl Transaction<MemStore> for WriteTransaction {
    open spec fn staged(&self) -> Seq<Write> {
        WriteTransaction::staged(*self)
    }

    open spec fn shows(&self) -> Seq<Write> {
        self.started() + WriteTransaction::staged(*self)
    }

    fn commit(self, source: &mut MemStore) -> (r: Result<(), StorageError>)
        ensures
            r is Ok,
    {
        let mut pending = self.pending;
        source.log.append(&mut pending);
        Ok(())
    }

    fn revert(self, source: &mut MemStore) {
    }
}

impl Transaction<MemStore> for ReadTransaction {
    open spec fn staged(&self) -> Seq<Write> {
        Seq::empty()
    }

    open spec fn shows(&self) -> Seq<Write> {
        self.seen()
    }

    fn commit(self, source: &mut MemStore) -> (r: Result<(), StorageError>)
        ensures
            r is Ok,
    {
        Ok(())
    }

    fn revert(self, source: &mut MemStore) {
    }
}

impl UpdateAvailabilityData for WriteTransaction {
    open spec fn writes(&self) -> Seq<Write> {
        WriteTransaction::staged(*self)
    }

    open spec fn errors(&self) -> Seq<StorageError> {
        Seq::empty()
    }

    open spec fn accepts_all(&self) -> bool {
        true
    }

    fn insert_leaf(&mut self, leaf: LeafQueryData) -> (r: Result<(), StorageError>)
        ensures
            final(self).base() == old(self).base(),
            final(self).started() == old(self).started(),
            r is Ok,
    {
        self.pending.push(Write::Leaf(leaf));
        Ok(())
    }

    fn insert_vid(&mut self, common: VidCommonQueryData, share: Option<Vec<u8>>) -> (r: Result<
        (),
        StorageError,
    >)
        ensures
            final(self).base() == old(self).base(),
            final(self).started() == old(self).started(),
            r is Ok,
    {
        self.pending.push(Write::Vid(common, share));
        Ok(())
    }

    fn insert_block(&mut self, block: BlockQueryData) -> (r: Result<(), StorageError>)
        ensures
            final(self).base() == old(self).base(),
            final(self).started() == old(self).started(),
            r is Ok,
    {
        self.pending.push(Write::Block(block));
        Ok(())
    }
}

/// Snapshot isolation. Committing `staged` onto `before` does not change what
/// a read transaction opened earlier sees (its snapshot, `snapshot` writes,
/// was taken before the commit), while a read transaction opened after the
/// commit sees each committed record in place of the older one.
pub proof fn lemma_commit_visibility(
    before: Seq<Write>,
    staged: Seq<Write>,
    snapshot: nat,
    kind: RecordKind,
    height: u64,
)
    requires
        snapshot <= before.len(),
    ensures
        latest((before + staged).take(snapshot as int), kind, height) == latest(
            before.take(snapshot as int),
            kind,
            height,
        ),
        latest(before + staged, kind, height) == (match latest(staged, kind, height) {
            Some(w) => Some(w),
            None => latest(before, kind, height),
        }),
{
    assert((before + staged).take(snapshot as int) =~= before.take(snapshot as int));
    lemma_latest_append(before, staged, kind, height);
}

/// A write staged in a transaction is what reads through that same
/// transaction return for its key, before any commit.
pub proof fn lemma_read_own_write(
    prior: WriteTransaction,
    after: WriteTransaction,
    committed: Seq<Write>,
    w: Write,
)
    requires
        after.base() == prior.base(),
        after.staged() == prior.staged().push(w),
    ensures
        latest(after.visible(committed), key_of(w).0, key_of(w).1) == Some(w),
{
    let v = after.visible(committed);
    assert(v.last() == w);
}

} // verus!
