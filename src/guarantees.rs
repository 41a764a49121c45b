//! What the stream and the worker guarantee across several operations.

use vstd::prelude::*;
use crate::job::{spec_job_fields, spec_parse_job, field_value, is_first_field};
use crate::stream::{CreateGroupError, StreamView};
use crate::worker::{spec_worker_step, ReadOutcome, WorkerAction, WorkerEvent, WorkerPhase};

verus! {

/// One operation on the stream, by the producer, a worker, or from outside.
pub enum StreamOp {
    Append { fields: Seq<(Seq<char>, Seq<char>)> },
    Read { group: Seq<char>, consumer: Seq<char> },
    Ack { group: Seq<char>, ids: Seq<nat> },
    Ensure { group: Seq<char> },
    Delete { group: Seq<char> },
}

/// The stream after one operation; a read in a missing group changes nothing.
pub open spec fn apply_op(s: StreamView, op: StreamOp) -> StreamView {
    match op {
        StreamOp::Append { fields } => s.appended(fields),
        StreamOp::Read { group, consumer } => if s.has_group(group) {
            s.after_read(group, consumer)
        } else {
            s
        },
        StreamOp::Ack { group, ids } => s.after_ack(group, ids),
        StreamOp::Ensure { group } => s.after_create(group),
        StreamOp::Delete { group } => s.after_delete(group),
    }
}

/// The stream after a sequence of operations.
pub open spec fn run_ops(s: StreamView, ops: Seq<StreamOp>) -> StreamView
    decreases ops.len(),
{
    if ops.len() == 0 {
        s
    } else {
        apply_op(run_ops(s, ops.drop_last()), ops.last())
    }
}

/// Whether `op`, done on `s`, is a read in `group` that hands out entry `id`.
pub open spec fn hands_out(s: StreamView, op: StreamOp, group: Seq<char>, id: nat) -> bool {
    &&& op matches StreamOp::Read { group: g, .. } && g == group
    &&& s.has_group(group)
    &&& exists|k: int| 0 <= k < s.delivered(group).len() && (#[trigger] s.delivered(group)[k]).0 == id
}

/// Entry `id` exists and every group called `group` is past it.
spec fn passed(s: StreamView, group: Seq<char>, id: nat) -> bool {
    &&& id <= s.entries.len()
    &&& forall|i: int| 0 <= i < s.groups.len() && (#[trigger] s.groups[i]).name == group ==> s.groups[i].cursor >= id
}

proof fn lemma_op_keeps_passed(s: StreamView, op: StreamOp, group: Seq<char>, id: nat)
    requires
        passed(s, group, id),
    ensures
        passed(apply_op(s, op), group, id),
{
    let t = apply_op(s, op);
    match op {
        StreamOp::Append { fields } => {},
        StreamOp::Read { group: g, consumer } => {
            if s.has_group(g) {
                let p = s.group_pos(g);
                assert(s.is_group_at(g, p));
            }
        },
        StreamOp::Ack { group: g, ids } => {
            if s.has_group(g) {
                let p = s.group_pos(g);
                assert(s.is_group_at(g, p));
            }
        },
        StreamOp::Ensure { group: g } => {},
        StreamOp::Delete { group: g } => {
            if s.has_group(g) {
                let p = s.group_pos(g);
                assert(s.is_group_at(g, p));
                assert forall|i: int| 0 <= i < t.groups.len() && (#[trigger] t.groups[i]).name == group implies t.groups[i].cursor >= id by {
                    let j = if i < p { i } else { i + 1 };
                    assert(t.groups[i] == s.groups[j]);
                }
            }
        },
    }
}

proof fn lemma_run_keeps_passed(s: StreamView, ops: Seq<StreamOp>, group: Seq<char>, id: nat)
    requires
        passed(s, group, id),
    ensures
        passed(run_ops(s, ops), group, id),
    decreases ops.len(),
{
    if ops.len() > 0 {
        lemma_run_keeps_passed(s, ops.drop_last(), group, id);
        lemma_op_keeps_passed(run_ops(s, ops.drop_last()), ops.last(), group, id);
    }
}

/// Once a consumer of `group` has read an entry and acknowledged it, no later
/// read in that group, by that consumer or any other, hands the entry out
/// again, whatever operations follow: appends, reads, acknowledgements, and
/// the group being deleted and created again.
pub proof fn lemma_acked_entry_never_redelivered(
    s: StreamView,
    group: Seq<char>,
    consumer: Seq<char>,
    id: nat,
    ops: Seq<StreamOp>,
)
    requires
        s.wf(),
        s.has_group(group),
        exists|k: int| 0 <= k < s.delivered(group).len() && (#[trigger] s.delivered(group)[k]).0 == id,
    ensures
        forall|k: int| 0 <= k < ops.len() ==> !hands_out(
            #[trigger] run_ops(s.after_read(group, consumer).after_ack(group, seq![id]), ops.take(k)),
            ops[k],
            group,
            id,
        ),
{
    let p = s.group_pos(group);
    assert(s.is_group_at(group, p));
    let r = s.after_read(group, consumer);
    assert forall|i: int| 0 <= i < r.groups.len() && (#[trigger] r.groups[i]).name == group implies r.groups[i].cursor >= id by {
        if i != p {
            assert(s.groups[i].name != s.groups[p].name);
        }
    }
    assert(passed(r, group, id));
    let start = r.after_ack(group, seq![id]);
    lemma_op_keeps_passed(r, StreamOp::Ack { group, ids: seq![id] }, group, id);
    assert forall|k: int| 0 <= k < ops.len() implies !hands_out(
        #[trigger] run_ops(start, ops.take(k)),
        ops[k],
        group,
        id,
    ) by {
        let t = run_ops(start, ops.take(k));
        lemma_run_keeps_passed(start, ops.take(k), group, id);
        if t.has_group(group) {
            let q = t.group_pos(group);
            assert(t.is_group_at(group, q));
            assert forall|m: int| 0 <= m < t.delivered(group).len() implies (#[trigger] t.delivered(group)[m]).0 != id by {
                assert(t.groups[q].cursor >= id);
            }
        }
    }
}

/// A group's cursor only moves forward: no operation but deleting the group
/// moves it back, and the group, once there, stays.
pub proof fn lemma_cursor_moves_forward(s: StreamView, op: StreamOp, group: Seq<char>)
    requires
        s.wf(),
        s.has_group(group),
        !(op matches StreamOp::Delete { group: g } && g == group),
    ensures
        apply_op(s, op).has_group(group),
        apply_op(s, op).group(group).cursor >= s.group(group).cursor,
{
    let t = apply_op(s, op);
    let p = s.group_pos(group);
    assert(s.is_group_at(group, p));
    // where the group stands after the operation
    let np: int = match op {
        StreamOp::Delete { group: g } => if s.has_group(g) && s.group_pos(g) < p { p - 1 } else { p },
        _ => p,
    };
    match op {
        StreamOp::Append { fields } => {
            assert(t.groups == s.groups);
        },
        StreamOp::Read { group: g, consumer } => {
            if s.has_group(g) {
                assert(s.is_group_at(g, s.group_pos(g)));
            }
        },
        StreamOp::Ack { group: g, ids } => {
            if s.has_group(g) {
                assert(s.is_group_at(g, s.group_pos(g)));
            }
        },
        StreamOp::Ensure { group: g } => {
            if !s.has_group(g) {
                assert(g != group);
            }
        },
        StreamOp::Delete { group: g } => {
            if s.has_group(g) {
                let d = s.group_pos(g);
                assert(s.is_group_at(g, d));
                assert(d != p);
                assert(t.groups[np] == s.groups[p]);
            }
        },
    }
    assert(t.is_group_at(group, np));
    let q = t.group_pos(group);
    assert(t.is_group_at(group, q));
    assert(q == np) by {
        match op {
            StreamOp::Delete { group: g } => {
                if s.has_group(g) {
                    let d = s.group_pos(g);
                    let j = if q < d { q } else { q + 1 };
                    assert(t.groups[q] == s.groups[j]);
                    assert(s.is_group_at(group, j));
                    if j != p {
                        assert(s.groups[j].name != s.groups[p].name);
                    }
                } else {
                    if q != p {
                        assert(s.groups[q].name != s.groups[p].name);
                    }
                }
            },
            StreamOp::Ensure { group: g } => {
                if q < s.groups.len() && q != p {
                    assert(s.groups[q].name != s.groups[p].name);
                }
            },
            _ => {
                if q != p {
                    assert(s.groups[q].name == t.groups[q].name);
                    assert(s.groups[q].name != s.groups[p].name);
                }
            },
        }
    }
}

/// Bootstrapping a group that already exists changes nothing: ensuring a
/// group twice leaves the stream as ensuring it once, and the group exists
/// after either.
pub proof fn lemma_group_bootstrap_idempotent(s: StreamView, group: Seq<char>)
    ensures
        s.after_create(group).has_group(group),
        s.after_create(group).after_create(group) == s.after_create(group),
{
    let t = s.after_create(group);
    if !s.has_group(group) {
        assert(t.is_group_at(group, t.groups.len() - 1));
    }
}

/// A group deleted from outside is recovered: the next read in it finds it
/// missing, on which the worker bootstraps it again instead of stopping;
/// the group is then back, at the tail of the stream, and the worker goes
/// on reading, also where another worker re-created it first.
pub proof fn lemma_deleted_group_recovered(s: StreamView, group: Seq<char>)
    requires
        s.wf(),
    ensures
        !s.after_delete(group).has_group(group),
        spec_worker_step(WorkerPhase::Reading, WorkerEvent::ReadDone(ReadOutcome::GroupMissing))
            == (WorkerPhase::Bootstrapping, WorkerAction::EnsureGroup),
        s.after_delete(group).after_create(group).has_group(group),
        s.after_delete(group).after_create(group).group(group).cursor == s.entries.len(),
        s.after_delete(group).after_create(group).delivered(group).len() == 0,
        spec_worker_step(WorkerPhase::Bootstrapping, WorkerEvent::GroupCreation(Ok(())))
            == (WorkerPhase::Reading, WorkerAction::ReadGroup),
        spec_worker_step(
            WorkerPhase::Bootstrapping,
            WorkerEvent::GroupCreation(Err(CreateGroupError::AlreadyExists)),
        ) == (WorkerPhase::Reading, WorkerAction::ReadGroup),
{
    let gone = s.after_delete(group);
    if s.has_group(group) {
        let p = s.group_pos(group);
        assert(s.is_group_at(group, p));
        assert forall|i: int| !gone.is_group_at(group, i) by {
            if 0 <= i < gone.groups.len() {
                let j = if i < p { i } else { i + 1 };
                assert(gone.groups[i] == s.groups[j]);
                assert(s.groups[j].name != s.groups[p].name);
            }
        }
    }
    let back = gone.after_create(group);
    assert(back.is_group_at(group, back.groups.len() - 1));
    let q = back.group_pos(group);
    assert(back.is_group_at(group, q));
    if q < back.groups.len() - 1 {
        assert(back.groups[q] == gone.groups[q]);
        assert(gone.is_group_at(group, q));
    }
    assert(q == back.groups.len() - 1);
}

/// A job's fields read back as the same job.
pub proof fn lemma_job_fields_round_trip(url: Seq<char>, id: Seq<char>)
    ensures
        spec_parse_job(spec_job_fields(url, id)) == Ok::<_, crate::job::EntryError>((url, id)),
{
    reveal_strlit("url");
    reveal_strlit("id");
    let fs = spec_job_fields(url, id);
    assert("url"@ != "id"@) by {
        assert("url"@.len() != "id"@.len());
    }
    assert(is_first_field(fs, "url"@, 0));
    assert(is_first_field(fs, "id"@, 1));
    let a = choose|i: int| is_first_field(fs, "url"@, i);
    let b = choose|i: int| is_first_field(fs, "id"@, i);
    assert(a == 0);
    assert(b == 1);
    assert(field_value(fs, "url"@) == Some(url));
    assert(field_value(fs, "id"@) == Some(id));
}

/// The same site published twice makes two entries with distinct ids; the
/// next read of any group hands out both, and each reads back as the same job.
pub proof fn lemma_duplicate_jobs_both_delivered(s: StreamView, url: Seq<char>, id: Seq<char>, group: Seq<char>)
    requires
        s.wf(),
        s.has_group(group),
    ensures
        ({
            let f = spec_job_fields(url, id);
            let d = s.appended(f).appended(f).delivered(group);
            let n = s.delivered(group).len() as int;
            &&& d.len() == n + 2
            &&& d[n].1 == f && d[n + 1].1 == f
            &&& d[n].0 != d[n + 1].0
            &&& d.subrange(0, n) == s.delivered(group)
            &&& spec_parse_job(d[n].1) == Ok::<_, crate::job::EntryError>((url, id))
            &&& spec_parse_job(d[n + 1].1) == Ok::<_, crate::job::EntryError>((url, id))
        }),
{
    let f = spec_job_fields(url, id);
    let t = s.appended(f).appended(f);
    let p = s.group_pos(group);
    assert(s.is_group_at(group, p));
    assert(t.is_group_at(group, p));
    assert(t.group_pos(group) == p) by {
        let q = t.group_pos(group);
        assert(t.is_group_at(group, q));
        if q != p {
            assert(s.groups[q].name != s.groups[p].name);
        }
    }
    let n = s.delivered(group).len() as int;
    assert(t.delivered(group).subrange(0, n) =~= s.delivered(group));
    lemma_job_fields_round_trip(url, id);
}

} // verus!
