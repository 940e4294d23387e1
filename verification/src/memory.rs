use vstd::prelude::*;
use crate::backend::{payload_at, Content, StorageBackend, StoreView};
use crate::coord::BlockCoordinate;
use crate::error::MigrationError;
use crate::metadata::WorldMetadata;
use crate::record::BlockRecord;
use crate::table::{lemma_content_dom, BlockTable};

verus! {

/// A backend that keeps every block in memory.
///
/// It holds the durable content and the content that reads see side by side,
/// so that an open transaction can be given up without a trace.
pub struct MemoryBackend {
    pub durable: BlockTable,
    pub current: BlockTable,
    pub open: bool,
    pub commits: usize,
}

impl MemoryBackend {
    /// An empty store with no transaction open.
    pub fn new() -> (b: Self)
        ensures
            b.wf(),
            b@.durable == Content::empty(),
            b@.current == Content::empty(),
            !b@.in_transaction,
            b.commits == 0,
    {
        MemoryBackend {
            durable: BlockTable::new(),
            current: BlockTable::new(),
            open: false,
            commits: 0,
        }
    }

    /// Number of transactions committed so far; it stops counting at `usize::MAX`.
    pub fn commit_count(&self) -> (n: usize)
        ensures
            n == self.commits,
    {
        self.commits
    }

    /// Whether a transaction is open.
    pub fn in_transaction(&self) -> (b: bool)
        ensures
            b == self@.in_transaction,
    {
        self.open
    }

    /// The durable payload under `coord`; empty where none is held.
    pub fn load_durable(&self, coord: BlockCoordinate) -> (record: BlockRecord)
        requires
            self.wf(),
        ensures
            record@ == payload_at(self@.durable, coord),
    {
        self.durable.get(coord)
    }

    /// The coordinates that are durably held, each once.
    pub fn durable_keys(&self) -> (keys: Vec<BlockCoordinate>)
        requires
            self.wf(),
        ensures
            keys@.no_duplicates(),
            keys@.to_set() == self@.durable.dom(),
    {
        self.durable.keys()
    }
}

impl StorageBackend for MemoryBackend {
    open spec fn view(&self) -> StoreView {
        StoreView { durable: self.durable@, current: self.current@, in_transaction: self.open }
    }

    open spec fn wf(&self) -> bool {
        &&& self.durable.wf()
        &&& self.current.wf()
        &&& !self.open ==> self.current@ == self.durable@
    }

    proof fn lemma_wf_valid(&self) {
        lemma_content_dom(self.durable.entries@);
        lemma_content_dom(self.current.entries@);
    }

    /// Never fails: there is nothing to open, and the store starts out empty
    /// wherever the world lies.
    fn open(location: &str, metadata: &WorldMetadata) -> (handle: Result<Self, MigrationError>)
        ensures
            handle is Ok,
            handle->Ok_0@.current == Content::empty(),
            handle->Ok_0@.durable == Content::empty(),
            handle->Ok_0.commits == 0,
    {
        Ok(MemoryBackend::new())
    }

    fn list_all_loadable_keys(&self) -> (keys: Vec<BlockCoordinate>)
        ensures
            keys@ == crate::table::coords(self.current.entries@),
    {
        self.current.keys()
    }

    fn load(&self, coord: BlockCoordinate) -> (record: BlockRecord) {
        self.current.get(coord)
    }

    fn save(&mut self, coord: BlockCoordinate, record: &BlockRecord)
        ensures
            final(self).commits == old(self).commits,
    {
        self.current.put(coord, record.as_bytes());
        if !self.open {
            self.durable.put(coord, record.as_bytes());
        }
    }

    fn begin_transaction(&mut self)
        ensures
            final(self).commits == old(self).commits,
    {
        self.open = true;
    }

    fn release(&mut self)
        ensures
            final(self).commits == old(self).commits,
    {
        if self.open {
            self.current = self.durable.duplicate();
            self.open = false;
        }
    }

    fn end_transaction(&mut self)
        ensures
            final(self).commits == if old(self).commits < usize::MAX {
                old(self).commits + 1
            } else {
                old(self).commits as int
            },
    {
        self.durable = self.current.duplicate();
        self.open = false;
        if self.commits < usize::MAX {
            self.commits = self.commits + 1;
        }
    }
}

} // verus!
