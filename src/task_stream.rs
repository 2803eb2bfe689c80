use crate::scheduler::tasks_view;
use crate::task::{Task, TaskModel};
use crate::text::str_eq;
use vstd::prelude::*;

verus! {

/// The ids in a list of strings.
pub open spec fn id_set(v: Seq<String>) -> Set<Seq<char>> {
    Set::new(|id: Seq<char>| exists|i: int| 0 <= i < v.len() && (#[trigger] v[i])@ == id)
}

/// Offering `ts` in order to a stream that has sent `sent`: each task whose
/// id has not been sent yet goes out and its id counts as sent from then on.
/// The ids sent afterwards, and the tasks that go out.
pub open spec fn offered(sent: Set<Seq<char>>, ts: Seq<TaskModel>) -> (Set<Seq<char>>, Seq<TaskModel>)
    decreases ts.len(),
{
    if ts.len() == 0 {
        (sent, Seq::empty())
    } else {
        let (s, out) = offered(sent, ts.drop_last());
        let t = ts.last();
        if s.contains(t.task_id) {
            (s, out)
        } else {
            (s.insert(t.task_id), out.push(t))
        }
    }
}

/// The session of one worker's task stream: which task ids were sent and not
/// yet acknowledged, so that a task polled again is not sent twice.
pub struct TaskStream {
    sent: Vec<String>,
}

impl TaskStream {
    /// The ids sent and not acknowledged.
    pub closed spec fn sent_ids(&self) -> Set<Seq<char>> {
        id_set(self.sent@)
    }

    /// A session that has sent nothing.
    pub fn new() -> (r: TaskStream)
        ensures
            r.sent_ids() == Set::<Seq<char>>::empty(),
    {
        let r = TaskStream { sent: Vec::new() };
        assert(r.sent_ids() =~= Set::<Seq<char>>::empty());
        r
    }

    /// The id was sent and not acknowledged.
    pub fn was_sent(&self, task_id: &str) -> (r: bool)
        ensures
            r == self.sent_ids().contains(task_id@),
    {
        let mut i: usize = 0;
        while i < self.sent.len()
            invariant
                i <= self.sent@.len(),
                forall|k: int| 0 <= k < i ==> self.sent@[k]@ != task_id@,
            decreases self.sent@.len() - i,
        {
            if str_eq(self.sent[i].as_str(), task_id) {
                return true;
            }
            i = i + 1;
        }
        false
    }

    /// Of the tasks just polled, those to send now, in order: the ones whose
    /// id was not sent yet. Their ids count as sent from now on.
    pub fn offer(&mut self, tasks: Vec<Task>) -> (r: Vec<Task>)
        ensures
            (final(self).sent_ids(), tasks_view(r@)) == offered(old(self).sent_ids(), tasks_view(tasks@)),
    {
        let ghost tv = tasks_view(tasks@);
        let ghost s0 = self.sent_ids();
        let mut out: Vec<Task> = Vec::new();
        let mut i: usize = 0;
        while i < tasks.len()
            invariant
                i <= tasks@.len(),
                tv == tasks_view(tasks@),
                (self.sent_ids(), tasks_view(out@)) == offered(s0, tv.take(i as int)),
            decreases tasks@.len() - i,
        {
            let t = &tasks[i];
            proof {
                assert(tv.take(i + 1).drop_last() =~= tv.take(i as int));
                assert(tv.take(i + 1).last() == t@);
            }
            if !self.was_sent(t.task_id.as_str()) {
                let ghost before = self.sent_ids();
                let ghost old_sent = self.sent@;
                let ghost out_before = tasks_view(out@);
                out.push(t.clone());
                self.sent.push(t.task_id.clone());
                assert(self.sent_ids() =~= before.insert(t@.task_id)) by {
                    let n = self.sent@.len() - 1;
                    assert(self.sent@[n]@ == t@.task_id);
                    assert forall|id: Seq<char>| before.contains(id) implies self.sent_ids().contains(id) by {
                        let k = choose|k: int| 0 <= k < old_sent.len() && (#[trigger] old_sent[k])@ == id;
                        assert(self.sent@[k]@ == id);
                    }
                }
                assert(tasks_view(out@) =~= out_before.push(t@));
            }
            i = i + 1;
        }
        assert(tv.take(i as int) =~= tv);
        out
    }

    /// The worker acknowledged `task_id`: it no longer counts as sent.
    pub fn ack(&mut self, task_id: &str)
        ensures
            final(self).sent_ids() == old(self).sent_ids().remove(task_id@),
    {
        let ghost s0 = self.sent@;
        let mut kept: Vec<String> = Vec::new();
        let mut i: usize = 0;
        while i < self.sent.len()
            invariant
                i <= self.sent@.len(),
                s0 == self.sent@,
                id_set(kept@) == id_set(s0.take(i as int)).remove(task_id@),
            decreases self.sent@.len() - i,
        {
            let ghost before = kept@;
            proof {
                assert(id_set(s0.take(i + 1)) =~= id_set(s0.take(i as int)).insert(s0[i as int]@)) by {
                    assert forall|id: Seq<char>| id_set(s0.take(i + 1)).contains(id) implies id_set(
                        s0.take(i as int),
                    ).insert(s0[i as int]@).contains(id) by {
                        let k = choose|k: int| 0 <= k < i + 1 && (#[trigger] s0.take(i + 1)[k])@ == id;
                        if k < i {
                            assert(s0.take(i as int)[k]@ == id);
                        }
                    }
                    assert forall|id: Seq<char>| id_set(s0.take(i as int)).insert(
                        s0[i as int]@,
                    ).contains(id) implies id_set(s0.take(i + 1)).contains(id) by {
                        if id == s0[i as int]@ {
                            assert(s0.take(i + 1)[i as int]@ == id);
                        } else {
                            let k = choose|k: int| 0 <= k < i && (#[trigger] s0.take(i as int)[k])@ == id;
                            assert(s0.take(i + 1)[k]@ == id);
                        }
                    }
                }
            }
            if !str_eq(self.sent[i].as_str(), task_id) {
                kept.push(self.sent[i].clone());
                assert(id_set(kept@) =~= id_set(before).insert(s0[i as int]@)) by {
                    let n = kept@.len() - 1;
                    assert(kept@[n]@ == s0[i as int]@);
                    assert forall|id: Seq<char>| id_set(before).contains(id) implies id_set(kept@).contains(id) by {
                        let k = choose|k: int| 0 <= k < before.len() && (#[trigger] before[k])@ == id;
                        assert(kept@[k]@ == id);
                    }
                    assert forall|id: Seq<char>| id_set(kept@).contains(id) implies id_set(before).insert(
                        s0[i as int]@,
                    ).contains(id) by {
                        let k = choose|k: int| 0 <= k < kept@.len() && (#[trigger] kept@[k])@ == id;
                        if k < n {
                            assert(before[k]@ == id);
                        }
                    }
                }
            }
            i = i + 1;
        }
        assert(s0.take(i as int) =~= s0);
        self.sent = kept;
    }
}

} // verus!
