//! How the task views combine the cached tasks that their queries return.

use vstd::prelude::*;
use crate::entities::task::Model;

verus! {

/// The task views of the local cache.
pub struct TaskRepository;

/// Whether some task of the list has the UUID.
pub open spec fn has_uuid(s: Seq<Model>, uuid: u128) -> bool {
    exists|i: int| 0 <= i < s.len() && (#[trigger] s[i]).uuid == uuid
}

/// The list with each extra task appended, in order, unless a task with its UUID is
/// already there.
pub open spec fn add_missing(acc: Seq<Model>, extra: Seq<Model>) -> Seq<Model>
    decreases extra.len(),
{
    if extra.len() == 0 {
        acc
    } else {
        let a = add_missing(acc, extra.drop_last());
        if has_uuid(a, extra.last().uuid) { a } else { a.push(extra.last()) }
    }
}

/// Whether a future task stays in the upcoming view: it is not due on the given day
/// (those are already listed as today's).
pub open spec fn not_due_on(t: Model, today: Seq<char>) -> bool {
    match t.due_date {
        Some(d) => d@ != today,
        None => true,
    }
}

/// The future tasks that are not due on the given day, in order.
pub open spec fn later_tasks(s: Seq<Model>, today: Seq<char>) -> Seq<Model>
    decreases s.len(),
{
    if s.len() == 0 {
        s
    } else if not_due_on(s.last(), today) {
        later_tasks(s.drop_last(), today).push(s.last())
    } else {
        later_tasks(s.drop_last(), today)
    }
}

/// Adding tasks keeps what was there and leaves every extra task's UUID present.
proof fn lemma_add_missing(acc: Seq<Model>, extra: Seq<Model>)
    ensures
        add_missing(acc, extra).len() >= acc.len(),
        add_missing(acc, extra).take(acc.len() as int) == acc,
        forall|k: int| 0 <= k < extra.len() ==> has_uuid(add_missing(acc, extra), #[trigger] extra[k].uuid),
    decreases extra.len(),
{
    if extra.len() > 0 {
        let rest = extra.drop_last();
        lemma_add_missing(acc, rest);
        let a = add_missing(acc, rest);
        let r = add_missing(acc, extra);
        assert forall|k: int| 0 <= k < extra.len() implies has_uuid(r, #[trigger] extra[k].uuid) by {
            if k < rest.len() {
                assert(rest[k] == extra[k]);
                assert(has_uuid(a, rest[k].uuid));
                let i = choose|i: int| 0 <= i < a.len() && (#[trigger] a[i]).uuid == rest[k].uuid;
                if !has_uuid(a, extra.last().uuid) {
                    assert(r[i] == a[i]);
                }
            } else if !has_uuid(a, extra.last().uuid) {
                assert(r[a.len() as int] == extra.last());
            }
        }
        if !has_uuid(a, extra.last().uuid) {
            assert(r.take(acc.len() as int) =~= a.take(acc.len() as int));
        }
    } else {
        assert(acc.take(acc.len() as int) =~= acc);
    }
}

/// Whether a task of the list has the UUID.
fn contains_uuid(list: &Vec<Model>, uuid: u128) -> (b: bool)
    ensures
        b == has_uuid(list@, uuid),
{
    let mut i: usize = 0;
    while i < list.len()
        invariant
            i <= list@.len(),
            forall|j: int| 0 <= j < i ==> (#[trigger] list@[j]).uuid != uuid,
        decreases list@.len() - i,
    {
        if list[i].uuid == uuid {
            return true;
        }
        i = i + 1;
    }
    false
}

impl TaskRepository {
    /// The Today view: the overdue tasks, then today's, then the tasks completed today
    /// that are not listed yet, each group in its query's order.
    pub fn merge_for_today(overdue: Vec<Model>, due_today: Vec<Model>, completed: &Vec<Model>) -> (r: Vec<Model>)
        ensures
            r@ == add_missing(overdue@ + due_today@, completed@),
            r@.take((overdue@.len() + due_today@.len()) as int) == overdue@ + due_today@,
            forall|k: int| 0 <= k < completed@.len() ==> has_uuid(r@, #[trigger] completed@[k].uuid),
    {
        let ghost start = overdue@ + due_today@;
        let mut result = overdue;
        let mut rest = due_today;
        result.append(&mut rest);
        let mut i: usize = 0;
        while i < completed.len()
            invariant
                i <= completed@.len(),
                result@ == add_missing(start, completed@.take(i as int)),
            decreases completed@.len() - i,
        {
            proof {
                assert(completed@.take(i + 1).drop_last() =~= completed@.take(i as int));
            }
            if !contains_uuid(&result, completed[i].uuid) {
                result.push(completed[i].duplicate());
            }
            i = i + 1;
        }
        proof {
            assert(completed@.take(completed@.len() as int) =~= completed@);
            lemma_add_missing(start, completed@);
        }
        result
    }

    /// The Upcoming view: the overdue tasks, then today's, then the future tasks that
    /// are not due today, each group in its query's order.
    pub fn merge_for_upcoming(overdue: Vec<Model>, due_today: Vec<Model>, future: &Vec<Model>, today: &str) -> (r: Vec<Model>)
        ensures
            r@ == overdue@ + due_today@ + later_tasks(future@, today@),
    {
        let ghost start = overdue@ + due_today@;
        let mut result = overdue;
        let mut rest = due_today;
        result.append(&mut rest);
        let mut i: usize = 0;
        while i < future.len()
            invariant
                i <= future@.len(),
                result@ == start + later_tasks(future@.take(i as int), today@),
            decreases future@.len() - i,
        {
            proof {
                assert(future@.take(i + 1).drop_last() =~= future@.take(i as int));
            }
            let keep = match &future[i].due_date {
                Some(d) => !(*d == String::from_str(today)),
                None => true,
            };
            if keep {
                result.push(future[i].duplicate());
                proof {
                    assert(result@ =~= start + later_tasks(future@.take(i + 1), today@));
                }
            }
            i = i + 1;
        }
        proof {
            assert(future@.take(future@.len() as int) =~= future@);
        }
        result
    }
}

} // verus!
