use vstd::prelude::*;
use crate::backend::{payload_at, Content};
use crate::coord::BlockCoordinate;
use crate::record::{copy_bytes, BlockRecord};

verus! {

/// One stored block.
pub struct Entry {
    pub coord: BlockCoordinate,
    pub payload: Vec<u8>,
}

/// Whether some entry of `entries` is kept under `coord`.
pub open spec fn holds(entries: Seq<Entry>, coord: BlockCoordinate) -> bool {
    exists|i: int| 0 <= i < entries.len() && #[trigger] entries[i].coord == coord
}

/// Position of the entry kept under `coord`.
pub open spec fn position(entries: Seq<Entry>, coord: BlockCoordinate) -> int {
    choose|i: int| 0 <= i < entries.len() && #[trigger] entries[i].coord == coord
}

/// No coordinate occurs twice.
pub open spec fn distinct(entries: Seq<Entry>) -> bool {
    forall|i: int, j: int|
        0 <= i < entries.len() && 0 <= j < entries.len() && i != j ==> #[trigger] entries[i].coord
            != #[trigger] entries[j].coord
}

/// The coordinates of `entries`, in their order.
pub open spec fn coords(entries: Seq<Entry>) -> Seq<BlockCoordinate> {
    Seq::new(entries.len(), |i: int| entries[i].coord)
}

/// The content that `entries` stand for.
pub open spec fn content_of(entries: Seq<Entry>) -> Content {
    Map::new(
        |c: BlockCoordinate| holds(entries, c),
        |c: BlockCoordinate| entries[position(entries, c)].payload@,
    )
}

/// Each entry of a list without repetition is found under its coordinate.
pub proof fn lemma_content_at(entries: Seq<Entry>, i: int)
    requires
        distinct(entries),
        0 <= i < entries.len(),
    ensures
        content_of(entries).contains_key(entries[i].coord),
        content_of(entries)[entries[i].coord] == entries[i].payload@,
        position(entries, entries[i].coord) == i,
{
    let c = entries[i].coord;
    assert(holds(entries, c));
    let p = position(entries, c);
    assert(0 <= p < entries.len() && entries[p].coord == c);
    assert(p == i);
}

/// The coordinates held are exactly those listed, and they are finitely many.
pub proof fn lemma_content_dom(entries: Seq<Entry>)
    ensures
        content_of(entries).dom() == coords(entries).to_set(),
        content_of(entries).dom().finite(),
        distinct(entries) ==> coords(entries).no_duplicates(),
{
    let cs = coords(entries);
    assert forall|c: BlockCoordinate| content_of(entries).dom().contains(c) == cs.to_set().contains(
        c,
    ) by {
        if holds(entries, c) {
            let i = position(entries, c);
            assert(cs[i] == c);
            assert(cs.contains(c));
        }
        if cs.contains(c) {
            let i = choose|i: int| 0 <= i < cs.len() && cs[i] == c;
            assert(entries[i].coord == c);
        }
    }
    assert(content_of(entries).dom() =~= cs.to_set());
    vstd::seq_lib::seq_to_set_is_finite(cs);
}

/// Replacing the payload at position `i` writes under the coordinate there.
pub proof fn lemma_content_update(before: Seq<Entry>, after: Seq<Entry>, i: int)
    requires
        distinct(before),
        0 <= i < before.len(),
        after.len() == before.len(),
        after[i].coord == before[i].coord,
        forall|j: int| 0 <= j < before.len() && j != i ==> after[j] == before[j],
    ensures
        distinct(after),
        content_of(after) == content_of(before).insert(before[i].coord, after[i].payload@),
{
    assert forall|j: int| 0 <= j < before.len() implies #[trigger] after[j].coord
        == before[j].coord by {}
    assert(distinct(after)) by {
        assert forall|a: int, b: int|
            0 <= a < after.len() && 0 <= b < after.len() && a != b implies #[trigger] after[a].coord
            != #[trigger] after[b].coord by {
            assert(before[a].coord != before[b].coord);
        }
    }
    let want = content_of(before).insert(before[i].coord, after[i].payload@);
    assert forall|c: BlockCoordinate| content_of(after).contains_key(c) == want.contains_key(
        c,
    ) by {
        if holds(after, c) {
            let j = position(after, c);
            assert(before[j].coord == c);
        }
        if holds(before, c) {
            let j = position(before, c);
            assert(after[j].coord == c);
        }
        if c == before[i].coord {
            assert(after[i].coord == c);
        }
    }
    assert forall|c: BlockCoordinate| content_of(after).contains_key(c) implies content_of(
        after,
    )[c] == want[c] by {
        let j = position(after, c);
        lemma_content_at(after, j);
        if j != i {
            assert(before[j].coord == c);
            lemma_content_at(before, j);
        }
    }
    assert(content_of(after) =~= want);
}

/// Appending an entry under a coordinate not yet held writes under it.
pub proof fn lemma_content_push(before: Seq<Entry>, entry: Entry)
    requires
        distinct(before),
        !holds(before, entry.coord),
    ensures
        distinct(before.push(entry)),
        content_of(before.push(entry)) == content_of(before).insert(entry.coord, entry.payload@),
{
    let after = before.push(entry);
    let n = before.len() as int;
    assert(distinct(after)) by {
        assert forall|a: int, b: int|
            0 <= a < after.len() && 0 <= b < after.len() && a != b implies #[trigger] after[a].coord
            != #[trigger] after[b].coord by {
            if a < n && b < n {
                assert(before[a].coord != before[b].coord);
            } else if a < n {
                assert(before[a].coord != entry.coord);
            } else {
                assert(before[b].coord != entry.coord);
            }
        }
    }
    let want = content_of(before).insert(entry.coord, entry.payload@);
    assert forall|c: BlockCoordinate| content_of(after).contains_key(c) == want.contains_key(
        c,
    ) by {
        if holds(after, c) {
            let j = position(after, c);
            if j < n {
                assert(before[j].coord == c);
            }
        }
        if holds(before, c) {
            let j = position(before, c);
            assert(after[j].coord == c);
        }
        if c == entry.coord {
            assert(after[n].coord == c);
        }
    }
    assert forall|c: BlockCoordinate| content_of(after).contains_key(c) implies content_of(
        after,
    )[c] == want[c] by {
        let j = position(after, c);
        lemma_content_at(after, j);
        if j < n {
            assert(before[j].coord == c);
            lemma_content_at(before, j);
        }
    }
    assert(content_of(after) =~= want);
}

/// Blocks kept in memory, one entry for each coordinate held.
pub struct BlockTable {
    pub entries: Vec<Entry>,
}

impl View for BlockTable {
    type V = Content;

    open spec fn view(&self) -> Content {
        content_of(self.entries@)
    }
}

impl BlockTable {
    /// No coordinate is kept twice.
    pub open spec fn wf(&self) -> bool {
        distinct(self.entries@)
    }

    /// A table without entries.
    pub fn new() -> (t: Self)
        ensures
            t.wf(),
            t@ == Content::empty(),
    {
        let t = BlockTable { entries: Vec::new() };
        proof {
            assert(t@ =~= Content::empty());
        }
        t
    }

    /// Number of coordinates held.
    pub fn len(&self) -> (n: usize)
        requires
            self.wf(),
        ensures
            n == self@.dom().len(),
    {
        proof {
            lemma_content_dom(self.entries@);
            coords(self.entries@).unique_seq_to_set();
        }
        self.entries.len()
    }

    /// Where `coord` is kept, if it is held.
    pub fn find(&self, coord: BlockCoordinate) -> (at: Option<usize>)
        ensures
            at is Some <==> holds(self.entries@, coord),
            at matches Some(i) ==> i < self.entries.len() && self.entries[i as int].coord == coord,
    {
        let mut i: usize = 0;
        while i < self.entries.len()
            invariant
                i <= self.entries.len(),
                forall|j: int| 0 <= j < i ==> (#[trigger] self.entries[j]).coord != coord,
            decreases self.entries.len() - i,
        {
            if self.entries[i].coord == coord {
                return Some(i);
            }
            i += 1;
        }
        None
    }

    /// Whether a block is kept under `coord`.
    pub fn contains(&self, coord: BlockCoordinate) -> (b: bool)
        ensures
            b == self@.contains_key(coord),
    {
        self.find(coord).is_some()
    }

    /// The payload under `coord`; empty where none is held.
    pub fn get(&self, coord: BlockCoordinate) -> (record: BlockRecord)
        requires
            self.wf(),
        ensures
            record@ == payload_at(self@, coord),
    {
        match self.find(coord) {
            Some(i) => {
                proof {
                    lemma_content_at(self.entries@, i as int);
                }
                BlockRecord::new(copy_bytes(self.entries[i].payload.as_slice()))
            },
            None => BlockRecord::empty(),
        }
    }

    /// Writes `payload` under `coord`, over what was kept there.
    pub fn put(&mut self, coord: BlockCoordinate, payload: &[u8])
        requires
            old(self).wf(),
        ensures
            final(self).wf(),
            final(self)@ == old(self)@.insert(coord, payload@),
    {
        let entry = Entry { coord, payload: copy_bytes(payload) };
        match self.find(coord) {
            Some(i) => {
                let ghost before = self.entries@;
                self.entries.set(i, entry);
                proof {
                    lemma_content_update(before, self.entries@, i as int);
                }
            },
            None => {
                let ghost before = self.entries@;
                self.entries.push(entry);
                proof {
                    lemma_content_push(before, entry);
                }
            },
        }
    }

    /// The coordinates held, in the order in which they were first written.
    pub fn keys(&self) -> (keys: Vec<BlockCoordinate>)
        requires
            self.wf(),
        ensures
            keys@ == coords(self.entries@),
            keys@.no_duplicates(),
            keys@.to_set() == self@.dom(),
    {
        let mut keys: Vec<BlockCoordinate> = Vec::new();
        let mut i: usize = 0;
        while i < self.entries.len()
            invariant
                i <= self.entries.len(),
                keys@.len() == i,
                forall|j: int| 0 <= j < i ==> keys@[j] == (#[trigger] self.entries[j]).coord,
            decreases self.entries.len() - i,
        {
            keys.push(self.entries[i].coord);
            i += 1;
        }
        proof {
            assert(keys@ =~= coords(self.entries@));
            lemma_content_dom(self.entries@);
        }
        keys
    }

    /// A table of its own with the same entries.
    pub fn duplicate(&self) -> (t: Self)
        requires
            self.wf(),
        ensures
            t.wf(),
            t@ == self@,
            coords(t.entries@) == coords(self.entries@),
    {
        let mut entries: Vec<Entry> = Vec::new();
        let mut i: usize = 0;
        while i < self.entries.len()
            invariant
                i <= self.entries.len(),
                entries@.len() == i,
                forall|j: int|
                    0 <= j < i ==> (#[trigger] entries@[j]).coord == self.entries[j].coord
                        && entries@[j].payload@ == self.entries[j].payload@,
            decreases self.entries.len() - i,
        {
            let e = &self.entries[i];
            entries.push(Entry { coord: e.coord, payload: copy_bytes(e.payload.as_slice()) });
            i += 1;
        }
        let t = BlockTable { entries };
        proof {
            lemma_same_entries(self.entries@, t.entries@);
        }
        t
    }
}

/// Lists that agree entry by entry stand for the same content.
pub proof fn lemma_same_entries(a: Seq<Entry>, b: Seq<Entry>)
    requires
        distinct(a),
        a.len() == b.len(),
        forall|j: int|
            0 <= j < a.len() ==> (#[trigger] b[j]).coord == a[j].coord && b[j].payload@
                == a[j].payload@,
    ensures
        distinct(b),
        content_of(b) == content_of(a),
        coords(b) == coords(a),
{
    assert(distinct(b)) by {
        assert forall|x: int, y: int|
            0 <= x < b.len() && 0 <= y < b.len() && x != y implies #[trigger] b[x].coord
            != #[trigger] b[y].coord by {
            assert(a[x].coord != a[y].coord);
        }
    }
    assert forall|c: BlockCoordinate| content_of(a).contains_key(c) == content_of(b).contains_key(
        c,
    ) by {
        if holds(a, c) {
            let j = position(a, c);
            assert(b[j].coord == c);
        }
        if holds(b, c) {
            let j = position(b, c);
            assert(a[j].coord == c);
        }
    }
    assert forall|c: BlockCoordinate| content_of(a).contains_key(c) implies content_of(a)[c]
        == content_of(b)[c] by {
        let j = position(a, c);
        lemma_content_at(a, j);
        assert(b[j].coord == c);
        lemma_content_at(b, j);
    }
    assert(content_of(b) =~= content_of(a));
    assert(coords(b) =~= coords(a));
}

} // verus!
