//! An append-only stream of job entries with named consumer groups: each
//! group keeps a cursor over the stream and the set of entries handed to
//! its consumers but not yet acknowledged.

use vstd::prelude::*;
use crate::job::fields_view;

verus! {

/// A consumer group as its name, cursor (the id of the last entry handed
/// out in this group) and pending entries (id and consumer) in id order.
pub struct GroupView {
    pub name: Seq<char>,
    pub cursor: nat,
    pub pending: Seq<(nat, Seq<char>)>,
}

/// The stream: entry `k` (counting from 0) has id `k + 1`.
pub struct StreamView {
    pub entries: Seq<Seq<(Seq<char>, Seq<char>)>>,
    pub groups: Seq<GroupView>,
}

/// A group's cursor is within a stream of `len` entries, and its pending
/// ids are distinct, in increasing order, and at most the cursor.
pub open spec fn group_wf(g: GroupView, len: nat) -> bool {
    &&& g.cursor <= len
    &&& forall|i: int| 0 <= i < g.pending.len() ==> 1 <= #[trigger] g.pending[i].0 <= g.cursor
    &&& forall|i: int, j: int| 0 <= i < j < g.pending.len() ==> g.pending[i].0 < g.pending[j].0
}

/// Keeps the pending entries whose id is not among `ids`.
pub open spec fn unacked(ids: Seq<nat>) -> spec_fn((nat, Seq<char>)) -> bool {
    |p: (nat, Seq<char>)| !ids.contains(p.0)
}

/// Entry ids as numbers.
pub open spec fn ids_view(ids: Seq<u64>) -> Seq<nat> {
    ids.map_values(|x: u64| x as nat)
}

/// Filtering a prefix one element longer keeps or drops that element.
pub(crate) proof fn lemma_filter_step<A>(s: Seq<A>, pred: spec_fn(A) -> bool, j: int)
    requires
        0 <= j < s.len(),
    ensures
        s.subrange(0, j + 1).filter(pred) == if pred(s[j]) {
            s.subrange(0, j).filter(pred).push(s[j])
        } else {
            s.subrange(0, j).filter(pred)
        },
{
    reveal(Seq::filter);
    assert(s.subrange(0, j + 1).drop_last() =~= s.subrange(0, j));
}

impl StreamView {
    /// Group names are unique; each group's cursor stays within the stream,
    /// and each pending entry is held by exactly one consumer of its group.
    pub open spec fn wf(self) -> bool {
        &&& forall|i: int, j: int| 0 <= i < j < self.groups.len() ==> self.groups[i].name != self.groups[j].name
        &&& forall|i: int| 0 <= i < self.groups.len() ==> group_wf(#[trigger] self.groups[i], self.entries.len())
    }

    /// Group `name` stands at position `i`.
    pub open spec fn is_group_at(self, name: Seq<char>, i: int) -> bool {
        0 <= i < self.groups.len() && self.groups[i].name == name
    }

    /// Group `name` exists.
    pub open spec fn has_group(self, name: Seq<char>) -> bool {
        exists|i: int| self.is_group_at(name, i)
    }

    /// Where group `name` stands; meaningful when it exists.
    pub open spec fn group_pos(self, name: Seq<char>) -> int {
        choose|i: int| self.is_group_at(name, i)
    }

    /// Group `name`; meaningful when it exists.
    pub open spec fn group(self, name: Seq<char>) -> GroupView {
        self.groups[self.group_pos(name)]
    }

    /// The stream after appending one entry with fields `f`.
    pub open spec fn appended(self, f: Seq<(Seq<char>, Seq<char>)>) -> StreamView {
        StreamView { entries: self.entries.push(f), ..self }
    }

    /// What a read in group `name` hands out: every entry past the group's cursor.
    pub open spec fn delivered(self, name: Seq<char>) -> Seq<(nat, Seq<(Seq<char>, Seq<char>)>)> {
        let c = self.group(name).cursor;
        Seq::new(
            (self.entries.len() - c) as nat,
            |k: int| ((c + k + 1) as nat, self.entries[c + k]),
        )
    }

    /// The stream after consumer `consumer` has read in group `name`: the
    /// cursor is at the tail and the entries handed out are pending for it.
    pub open spec fn after_read(self, name: Seq<char>, consumer: Seq<char>) -> StreamView {
        let g = self.group(name);
        let fresh = Seq::new(
            (self.entries.len() - g.cursor) as nat,
            |k: int| ((g.cursor + k + 1) as nat, consumer),
        );
        StreamView {
            groups: self.groups.update(
                self.group_pos(name),
                GroupView { name: g.name, cursor: self.entries.len(), pending: g.pending + fresh },
            ),
            ..self
        }
    }

    /// The stream after acknowledging `ids` in group `name`: those entries
    /// leave the group's pending set; others are untouched.
    pub open spec fn after_ack(self, name: Seq<char>, ids: Seq<nat>) -> StreamView {
        if self.has_group(name) {
            let g = self.group(name);
            StreamView {
                groups: self.groups.update(
                    self.group_pos(name),
                    GroupView { pending: g.pending.filter(unacked(ids)), ..g },
                ),
                ..self
            }
        } else {
            self
        }
    }

    /// How many of `ids` an acknowledgement in group `name` takes out of its pending set.
    pub open spec fn ack_count(self, name: Seq<char>, ids: Seq<nat>) -> nat {
        if self.has_group(name) {
            let p = self.group(name).pending;
            (p.len() - p.filter(unacked(ids)).len()) as nat
        } else {
            0
        }
    }

    /// The stream after creating group `name` at the tail, where it is absent.
    pub open spec fn after_create(self, name: Seq<char>) -> StreamView {
        if self.has_group(name) {
            self
        } else {
            StreamView {
                groups: self.groups.push(
                    GroupView { name, cursor: self.entries.len(), pending: Seq::empty() },
                ),
                ..self
            }
        }
    }

    /// The stream after group `name` is deleted, where it exists.
    pub open spec fn after_delete(self, name: Seq<char>) -> StreamView {
        if self.has_group(name) {
            StreamView { groups: self.groups.remove(self.group_pos(name)), ..self }
        } else {
            self
        }
    }
}

/// One entry handed out by a read: its id and its fields.
pub struct StreamEntry {
    pub id: u64,
    pub fields: Vec<(String, String)>,
}

/// Entries handed out, as id and fields.
pub open spec fn entries_view(v: Seq<StreamEntry>) -> Seq<(nat, Seq<(Seq<char>, Seq<char>)>)> {
    v.map_values(|e: StreamEntry| (e.id as nat, fields_view(e.fields@)))
}

/// An entry handed to `consumer` and not yet acknowledged.
pub struct PendingEntry {
    pub id: u64,
    pub consumer: String,
}

pub struct ConsumerGroup {
    pub name: String,
    pub cursor: u64,
    pub pending: Vec<PendingEntry>,
}

impl View for ConsumerGroup {
    type V = GroupView;

    open spec fn view(&self) -> GroupView {
        GroupView {
            name: self.name@,
            cursor: self.cursor as nat,
            pending: self.pending@.map_values(|p: PendingEntry| (p.id as nat, p.consumer@)),
        }
    }
}

/// Why a read in a consumer group failed.
#[derive(PartialEq, Eq, Structural, Clone, Copy, Debug)]
pub enum ReadError {
    GroupMissing,
}

/// Why creating a consumer group failed.
#[derive(PartialEq, Eq, Structural, Clone, Copy, Debug)]
pub enum CreateGroupError {
    AlreadyExists,
    Connection,
}

/// The outcome of group bootstrap, given the outcome of creating the group:
/// a group that already exists counts as success; any other failure stays.
pub fn settle_group_creation(created: Result<(), CreateGroupError>) -> (r: Result<(), CreateGroupError>)
    ensures
        r is Ok <==> (created is Ok || created == Err::<(), _>(CreateGroupError::AlreadyExists)),
        r is Err ==> r == created,
{
    match created {
        Ok(()) => Ok(()),
        Err(CreateGroupError::AlreadyExists) => Ok(()),
        Err(e) => Err(e),
    }
}

/// An in-memory stream with consumer groups.
pub struct StreamLog {
    entries: Vec<Vec<(String, String)>>,
    groups: Vec<ConsumerGroup>,
}

impl View for StreamLog {
    type V = StreamView;

    closed spec fn view(&self) -> StreamView {
        StreamView {
            entries: self.entries@.map_values(|f: Vec<(String, String)>| fields_view(f@)),
            groups: self.groups@.map_values(|g: ConsumerGroup| g@),
        }
    }
}

fn holds_id(ids: &Vec<u64>, id: u64) -> (r: bool)
    ensures
        r == ids_view(ids@).contains(id as nat),
{
    let mut i: usize = 0;
    while i < ids.len()
        invariant
            i <= ids.len(),
            forall|j: int| 0 <= j < i ==> ids@[j] != id,
        decreases ids.len() - i,
    {
        if ids[i] == id {
            assert(ids_view(ids@)[i as int] == id as nat);
            return true;
        }
        i = i + 1;
    }
    assert forall|j: int| 0 <= j < ids_view(ids@).len() implies ids_view(ids@)[j] != id as nat by {
        assert(ids@[j] != id);
    }
    false
}

fn clone_fields(f: &Vec<(String, String)>) -> (r: Vec<(String, String)>)
    ensures
        fields_view(r@) == fields_view(f@),
{
    let mut r: Vec<(String, String)> = Vec::new();
    let mut i: usize = 0;
    while i < f.len()
        invariant
            i <= f.len(),
            r.len() == i,
            fields_view(r@) =~= fields_view(f@.subrange(0, i as int)),
        decreases f.len() - i,
    {
        let name = f[i].0.clone();
        let value = f[i].1.clone();
        assert(name@ == f@[i as int].0@ && value@ == f@[i as int].1@);
        let ghost prev = r@;
        r.push((name, value));
        i = i + 1;
        assert forall|k: int| 0 <= k < i implies #[trigger] fields_view(r@)[k] == fields_view(f@.subrange(0, i as int))[k] by {
            if k < i - 1 {
                assert(fields_view(prev)[k] == fields_view(f@.subrange(0, i - 1))[k]);
            }
        }
        assert(fields_view(r@) =~= fields_view(f@.subrange(0, i as int)));
    }
    assert(f@.subrange(0, f.len() as int) =~= f@);
    r
}

impl StreamLog {
    /// The stream is well formed and its ids fit in `u64`.
    pub open spec fn wf(&self) -> bool {
        &&& self@.wf()
        &&& self@.entries.len() < u64::MAX
    }

    /// An empty stream with no groups.
    pub fn new() -> (r: StreamLog)
        ensures
            r.wf(),
            r@.entries.len() == 0,
            r@.groups.len() == 0,
    {
        let r = StreamLog { entries: Vec::new(), groups: Vec::new() };
        assert(r@.groups =~= Seq::<GroupView>::empty());
        r
    }

    /// Number of entries, which is also the id of the newest one.
    pub fn len(&self) -> (r: u64)
        requires
            self.wf(),
        ensures
            r == self@.entries.len(),
    {
        self.entries.len() as u64
    }

    /// Position of the group called `name`.
    fn find_group(&self, name: &String) -> (r: Option<usize>)
        requires
            self.wf(),
        ensures
            r is None ==> !self@.has_group(name@),
            r matches Some(i) ==> self@.has_group(name@) && self@.group_pos(name@) == i
                && i < self.groups.len(),
    {
        let mut i: usize = 0;
        while i < self.groups.len()
            invariant
                self.wf(),
                i <= self.groups.len(),
                forall|j: int| 0 <= j < i ==> self.groups@[j].name@ != name@,
            decreases self.groups.len() - i,
        {
            if self.groups[i].name == *name {
                assert(self@.is_group_at(name@, i as int));
                proof {
                    let k = self@.group_pos(name@);
                    assert(self@.is_group_at(name@, k));
                    assert(self@.groups[k].name == self@.groups[i as int].name);
                }
                return Some(i);
            }
            i = i + 1;
        }
        assert forall|k: int| !self@.is_group_at(name@, k) by {
            if 0 <= k < self.groups.len() {
                assert(self@.groups[k] == self.groups@[k]@);
            }
        }
        None
    }
}


impl StreamLog {
    /// Appends one entry; its id is one more than the newest id before.
    pub fn append(&mut self, fields: Vec<(String, String)>) -> (id: u64)
        requires
            old(self).wf(),
            old(self)@.entries.len() + 1 < u64::MAX,
        ensures
            final(self).wf(),
            final(self)@ == old(self)@.appended(fields_view(fields@)),
            id == final(self)@.entries.len(),
    {
        let ghost before = self@;
        self.entries.push(fields);
        let id = self.entries.len() as u64;
        assert(self@.entries =~= before.entries.push(fields_view(fields@)));
        assert(self@.groups =~= before.groups);
        id
    }

    /// Creates group `name` positioned at the tail of the stream, so that it
    /// sees only entries appended afterwards; fails if it already exists.
    pub fn create_group(&mut self, name: &String) -> (r: Result<(), CreateGroupError>)
        requires
            old(self).wf(),
        ensures
            final(self).wf(),
            final(self)@ == old(self)@.after_create(name@),
            r is Ok <==> !old(self)@.has_group(name@),
            r is Err ==> r == Err::<(), _>(CreateGroupError::AlreadyExists),
    {
        let ghost before = self@;
        match self.find_group(name) {
            Some(_) => Err(CreateGroupError::AlreadyExists),
            None => {
                let g = ConsumerGroup { name: name.clone(), cursor: self.entries.len() as u64, pending: Vec::new() };
                assert(g@.pending =~= Seq::<(nat, Seq<char>)>::empty());
                self.groups.push(g);
                assert(self@.groups =~= before.groups.push(
                    GroupView { name: name@, cursor: before.entries.len(), pending: Seq::empty() },
                ));
                assert forall|i: int, j: int| 0 <= i < j < self@.groups.len() implies self@.groups[i].name != self@.groups[j].name by {
                    if j == self@.groups.len() - 1 {
                        assert(!before.is_group_at(name@, i));
                    }
                }
                Ok(())
            },
        }
    }

    /// Ensures group `name` exists: creates it at the tail where it is
    /// absent, and treats an existing group as success.
    pub fn ensure_group(&mut self, name: &String) -> (r: Result<(), CreateGroupError>)
        requires
            old(self).wf(),
        ensures
            final(self).wf(),
            final(self)@ == old(self)@.after_create(name@),
            final(self)@.has_group(name@),
            r is Ok,
    {
        let created = self.create_group(name);
        proof {
            if !old(self)@.has_group(name@) {
                assert(self@.is_group_at(name@, self@.groups.len() - 1));
            }
        }
        settle_group_creation(created)
    }

    /// Hands consumer `consumer` of group `name` every entry that no consumer
    /// of that group has received yet, oldest first, and records them as
    /// pending for it; fails if the group does not exist.
    pub fn read_group(&mut self, name: &String, consumer: &String) -> (r: Result<Vec<StreamEntry>, ReadError>)
        requires
            old(self).wf(),
        ensures
            final(self).wf(),
            r is Ok <==> old(self)@.has_group(name@),
            r matches Ok(v) ==> final(self)@ == old(self)@.after_read(name@, consumer@)
                && entries_view(v@) == old(self)@.delivered(name@),
            r matches Err(e) ==> e == ReadError::GroupMissing && final(self)@ == old(self)@,
    {
        let ghost before = self@;
        let i = match self.find_group(name) {
            None => { return Err(ReadError::GroupMissing); },
            Some(i) => i,
        };
        let ghost gv = before.groups[i as int];
        let g = self.groups.remove(i);
        assert(g@ == gv);
        let ConsumerGroup { name: gname, cursor, mut pending } = g;
        let ghost old_pending = pending@;
        let n = self.entries.len() as u64;
        let mut out: Vec<StreamEntry> = Vec::new();
        let mut k: u64 = cursor;
        while k < n
            invariant
                self.entries@ == old(self).entries@,
                self@.entries == before.entries,
                n == before.entries.len(),
                n == self.entries.len(),
                n < u64::MAX,
                group_wf(gv, n as nat),
                cursor == gv.cursor,
                cursor <= k <= n,
                out.len() == k - cursor,
                forall|j: int| 0 <= j < out.len() ==> (#[trigger] out@[j]).id == cursor + j + 1
                    && fields_view(out@[j].fields@) == before.entries[cursor + j],
                pending.len() == old_pending.len() + (k - cursor),
                forall|j: int| 0 <= j < old_pending.len() ==> #[trigger] pending@[j] == old_pending[j],
                forall|j: int| old_pending.len() <= j < pending.len() ==> (#[trigger] pending@[j]).id
                    == cursor + (j - old_pending.len()) + 1 && pending@[j].consumer@ == consumer@,
            decreases n - k,
        {
            assert(self@.entries[k as int] == fields_view(self.entries@[k as int]@));
            let fields = clone_fields(&self.entries[k as usize]);
            let ghost prev_out = out@;
            out.push(StreamEntry { id: k + 1, fields });
            pending.push(PendingEntry { id: k + 1, consumer: consumer.clone() });
            assert(out@ == prev_out.push(out@[out.len() - 1]));
            k = k + 1;
        }
        let ng = ConsumerGroup { name: gname, cursor: n, pending };
        let ghost fresh = Seq::new((n - cursor) as nat, |j: int| ((cursor + j + 1) as nat, consumer@));
        assert(ng@.pending =~= gv.pending + fresh);
        self.groups.insert(i, ng);
        let ghost after = before.after_read(name@, consumer@);
        assert(self@.groups =~= after.groups);
        assert(self@ == after);
        assert(entries_view(out@) =~= before.delivered(name@));
        assert forall|a: int| 0 <= a < self@.groups.len() implies group_wf(#[trigger] self@.groups[a], self@.entries.len()) by {
            if a == i {
                let p = self@.groups[a].pending;
                assert forall|x: int, y: int| 0 <= x < y < p.len() implies p[x].0 < p[y].0 by {
                    if y >= gv.pending.len() && x < gv.pending.len() {
                        assert(p[x].0 <= gv.cursor);
                    }
                }
                assert forall|x: int| 0 <= x < p.len() implies 1 <= #[trigger] p[x].0 <= n by {
                    if x < gv.pending.len() {
                        assert(p[x] == gv.pending[x]);
                    }
                }
            }
        }
        assert forall|a: int, b: int| 0 <= a < b < self@.groups.len() implies self@.groups[a].name != self@.groups[b].name by {
            assert(before.groups[a].name != before.groups[b].name);
        }
        Ok(out)
    }

    /// Acknowledges `ids` in group `name`: they leave its pending set for
    /// good. Returns how many of them were pending; ids that were not, and a
    /// missing group, are ignored.
    pub fn ack(&mut self, name: &String, ids: &Vec<u64>) -> (r: usize)
        requires
            old(self).wf(),
        ensures
            final(self).wf(),
            final(self)@ == old(self)@.after_ack(name@, ids_view(ids@)),
            r == old(self)@.ack_count(name@, ids_view(ids@)),
    {
        let ghost before = self@;
        let ghost idv = ids_view(ids@);
        let i = match self.find_group(name) {
            None => { return 0; },
            Some(i) => i,
        };
        let ghost gv = before.groups[i as int];
        let g = self.groups.remove(i);
        assert(g@ == gv);
        let ConsumerGroup { name: gname, cursor, pending } = g;
        let mut kept: Vec<PendingEntry> = Vec::new();
        let mut j: usize = 0;
        while j < pending.len()
            invariant
                j <= pending.len(),
                gv.pending == pending@.map_values(|p: PendingEntry| (p.id as nat, p.consumer@)),
                group_wf(gv, before.entries.len()),
                cursor == gv.cursor,
                idv == ids_view(ids@),
                kept@.map_values(|p: PendingEntry| (p.id as nat, p.consumer@))
                    == gv.pending.subrange(0, j as int).filter(unacked(idv)),
                kept.len() <= j,
                forall|x: int, y: int| 0 <= x < y < kept.len() ==> kept@[x].id < kept@[y].id,
                forall|x: int| 0 <= x < kept.len() ==> 1 <= #[trigger] kept@[x].id <= cursor,
                kept.len() > 0 ==> j > 0 && kept@[kept.len() - 1].id <= pending@[j - 1].id,
            decreases pending.len() - j,
        {
            proof {
                lemma_filter_step(gv.pending, unacked(idv), j as int);
            }
            let ghost prev = kept@;
            if !holds_id(ids, pending[j].id) {
                assert(gv.pending[j as int].0 == pending@[j as int].id);
                if j > 0 {
                    assert(gv.pending[j - 1].0 < gv.pending[j as int].0);
                }
                kept.push(PendingEntry { id: pending[j].id, consumer: pending[j].consumer.clone() });
                assert(kept@.map_values(|p: PendingEntry| (p.id as nat, p.consumer@))
                    =~= prev.map_values(|p: PendingEntry| (p.id as nat, p.consumer@)).push(gv.pending[j as int]));
            } else {
                assert(idv.contains(gv.pending[j as int].0));
                if j > 0 {
                    assert(gv.pending[j - 1].0 < gv.pending[j as int].0);
                }
            }
            j = j + 1;
        }
        assert(gv.pending.subrange(0, pending.len() as int) =~= gv.pending);
        let removed = pending.len() - kept.len();
        let ng = ConsumerGroup { name: gname, cursor, pending: kept };
        self.groups.insert(i, ng);
        let ghost after = before.after_ack(name@, idv);
        assert(self@.groups =~= after.groups);
        assert(self@ == after);
        assert forall|a: int, b: int| 0 <= a < b < self@.groups.len() implies self@.groups[a].name != self@.groups[b].name by {
            assert(before.groups[a].name != before.groups[b].name);
        }
        removed
    }

    /// Deletes group `name` with its cursor and pending entries; returns
    /// whether it existed.
    pub fn delete_group(&mut self, name: &String) -> (r: bool)
        requires
            old(self).wf(),
        ensures
            final(self).wf(),
            final(self)@ == old(self)@.after_delete(name@),
            r == old(self)@.has_group(name@),
    {
        let ghost before = self@;
        match self.find_group(name) {
            None => false,
            Some(i) => {
                let _ = self.groups.remove(i);
                assert(self@.groups =~= before.groups.remove(i as int));
                assert forall|a: int| 0 <= a < self@.groups.len() implies group_wf(#[trigger] self@.groups[a], self@.entries.len()) by {
                    if a >= i {
                        assert(self@.groups[a] == before.groups[a + 1]);
                    }
                }
                assert forall|a: int, b: int| 0 <= a < b < self@.groups.len() implies self@.groups[a].name != self@.groups[b].name by {
                    let a1 = if a < i { a } else { a + 1 };
                    let b1 = if b < i { b } else { b + 1 };
                    assert(self@.groups[a] == before.groups[a1]);
                    assert(self@.groups[b] == before.groups[b1]);
                }
                true
            },
        }
    }
}

} // verus!

