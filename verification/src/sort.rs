//! Sort policies and grouping, separate from classification: the by-due-date
//! sort puts dateless tasks after all dated ones and breaks ties by manual
//! ordering index; the by-priority sort is descending by rank; grouping by
//! date collects tasks under their exact due date in ascending key order,
//! the "no date" group first.

use vstd::prelude::*;
use vstd::multiset::Multiset;
use vstd::relations::sorted_by;

use crate::model::{opt_int, priority_value, Task, TaskV};
use crate::reconcile::clone_tasks;

verus! {

/// The by-due-date order: dated before dateless, dates ascending, dateless
/// tasks by ascending ordering index.
pub open spec fn due_le(a: TaskV, b: TaskV) -> bool {
    match (a.due_date, b.due_date) {
        (Some(x), Some(y)) => x <= y,
        (Some(_), None) => true,
        (None, Some(_)) => false,
        (None, None) => a.order_index <= b.order_index,
    }
}

/// The by-priority order: descending by priority rank.
pub open spec fn priority_ge(a: TaskV, b: TaskV) -> bool {
    a.priority.spec_rank() >= b.priority.spec_rank()
}

/// Selection sort on tasks under a total preorder handed in as a closure:
/// the result is ordered and holds exactly the input rows.
fn sort_tasks_by<F: Fn(&Task, &Task) -> bool>(
    tasks: &Vec<Task>,
    leq: Ghost<spec_fn(TaskV, TaskV) -> bool>,
    f: F,
) -> (r: Vec<Task>)
    requires
        forall|a: &Task, b: &Task| #[trigger] call_requires(f, (a, b)),
        forall|a: &Task, b: &Task, res: bool|
            #[trigger] call_ensures(f, (a, b), res) ==> res == leq@(a@, b@),
        forall|x: TaskV, y: TaskV| #[trigger] leq@(x, y) || #[trigger] leq@(y, x),
        forall|x: TaskV, y: TaskV, z: TaskV|
            #[trigger] leq@(x, y) && #[trigger] leq@(y, z) ==> leq@(x, z),
    ensures
        sorted_by(r.deep_view(), leq@),
        r.deep_view().to_multiset() == tasks.deep_view().to_multiset(),
{
    broadcast use vstd::seq_lib::group_to_multiset_ensures;

    let mut rest = clone_tasks(tasks);
    let mut out: Vec<Task> = Vec::new();
    proof {
        assert(out.deep_view() =~~= Seq::<TaskV>::empty());
        assert(out.deep_view().to_multiset().add(rest.deep_view().to_multiset())
            =~= tasks.deep_view().to_multiset());
    }
    while rest.len() > 0
        invariant
            forall|a: &Task, b: &Task| #[trigger] call_requires(f, (a, b)),
            forall|a: &Task, b: &Task, res: bool|
                #[trigger] call_ensures(f, (a, b), res) ==> res == leq@(a@, b@),
            forall|x: TaskV, y: TaskV| #[trigger] leq@(x, y) || #[trigger] leq@(y, x),
            forall|x: TaskV, y: TaskV, z: TaskV|
                #[trigger] leq@(x, y) && #[trigger] leq@(y, z) ==> leq@(x, z),
            out.deep_view().to_multiset().add(rest.deep_view().to_multiset())
                == tasks.deep_view().to_multiset(),
            sorted_by(out.deep_view(), leq@),
            forall|i: int, j: int|
                0 <= i < out.deep_view().len() && 0 <= j < rest.deep_view().len() ==> leq@(
                    #[trigger] out.deep_view()[i],
                    #[trigger] rest.deep_view()[j],
                ),
        decreases rest.len(),
    {
        let ghost restv = rest.deep_view();
        let mut m: usize = 0;
        let mut k: usize = 1;
        while k < rest.len()
            invariant
                restv == rest.deep_view(),
                rest.len() > 0,
                0 <= m < rest.len(),
                1 <= k <= rest.len(),
                forall|a: &Task, b: &Task| #[trigger] call_requires(f, (a, b)),
                forall|a: &Task, b: &Task, res: bool|
                    #[trigger] call_ensures(f, (a, b), res) ==> res == leq@(a@, b@),
                forall|x: TaskV, y: TaskV| #[trigger] leq@(x, y) || #[trigger] leq@(y, x),
                forall|x: TaskV, y: TaskV, z: TaskV|
                    #[trigger] leq@(x, y) && #[trigger] leq@(y, z) ==> leq@(x, z),
                forall|j: int| 0 <= j < k ==> leq@(restv[m as int], #[trigger] restv[j]),
            decreases rest.len() - k,
        {
            if !f(&rest[m], &rest[k]) {
                proof {
                    assert(leq@(restv[k as int], restv[m as int]));
                }
                m = k;
            }
            k += 1;
        }
        let ghost prev_out = out.deep_view();
        let ghost picked = restv[m as int];
        let x = rest.remove(m);
        out.push(x);
        proof {
            restv.to_multiset_ensures();
            prev_out.to_multiset_ensures();
            assert(x@ == picked);
            assert(rest.deep_view() =~~= restv.remove(m as int));
            assert(out.deep_view() =~~= prev_out.push(picked));
            assert(restv.remove(m as int).to_multiset() =~= restv.to_multiset().remove(picked));
            assert(prev_out.push(picked).to_multiset() =~= prev_out.to_multiset().insert(picked));
            assert(restv.to_multiset().count(picked) > 0) by {
                assert(restv.contains(picked));
            }
            assert(prev_out.to_multiset().insert(picked).add(
                restv.to_multiset().remove(picked),
            ) =~= prev_out.to_multiset().add(restv.to_multiset()));
            assert(sorted_by(out.deep_view(), leq@)) by {
                assert(forall|i: int|
                    0 <= i < prev_out.len() ==> leq@(#[trigger] prev_out[i], picked));
            }
            assert forall|i: int, j: int|
                0 <= i < out.deep_view().len() && 0 <= j < rest.deep_view().len() implies leq@(
                #[trigger] out.deep_view()[i],
                #[trigger] rest.deep_view()[j],
            ) by {
                let rj = rest.deep_view()[j];
                assert(rj == if j < m {
                    restv[j]
                } else {
                    restv[j + 1]
                });
                assert(restv.contains(rj));
                if i < prev_out.len() {
                    assert(leq@(out.deep_view()[i], rj));
                } else {
                    assert(out.deep_view()[i] == picked);
                    assert(leq@(picked, rj));
                }
            }
        }
    }
    proof {
        rest.deep_view().to_multiset_ensures();
        assert(rest.deep_view().to_multiset() =~= Multiset::<TaskV>::empty());
        assert(out.deep_view().to_multiset().add(Multiset::<TaskV>::empty())
            =~= out.deep_view().to_multiset());
    }
    out
}

/// Sort by due date ascending, dateless tasks last, ties on the manual
/// ordering index; the rows themselves are kept exactly.
pub fn sort_by_due_date(tasks: &mut Vec<Task>)
    ensures
        final(tasks).deep_view().to_multiset() == old(tasks).deep_view().to_multiset(),
        forall|i: int, j: int|
            0 <= i < j < final(tasks).deep_view().len() ==> due_le(
                #[trigger] final(tasks).deep_view()[i],
                #[trigger] final(tasks).deep_view()[j],
            ),
{
    let ghost leq: spec_fn(TaskV, TaskV) -> bool = |a: TaskV, b: TaskV| due_le(a, b);
    let sorted = sort_tasks_by(
        &*tasks,
        Ghost(leq),
        (|a: &Task, b: &Task| -> (res: bool)
            ensures
                res == due_le(a@, b@),
            {
                match (a.due_date, b.due_date) {
                    (Some(x), Some(y)) => x <= y,
                    (Some(_), None) => true,
                    (None, Some(_)) => false,
                    (None, None) => a.order_index <= b.order_index,
                }
            }),
    );
    proof {
        assert forall|i: int, j: int|
            0 <= i < j < sorted.deep_view().len() implies due_le(
            #[trigger] sorted.deep_view()[i],
            #[trigger] sorted.deep_view()[j],
        ) by {
            assert(leq(sorted.deep_view()[i], sorted.deep_view()[j]));
        }
    }
    *tasks = sorted;
}

/// Sort by priority descending; equal ranks keep no promised order.
pub fn sort_by_priority(tasks: &mut Vec<Task>)
    ensures
        final(tasks).deep_view().to_multiset() == old(tasks).deep_view().to_multiset(),
        forall|i: int, j: int|
            0 <= i < j < final(tasks).deep_view().len() ==> priority_ge(
                #[trigger] final(tasks).deep_view()[i],
                #[trigger] final(tasks).deep_view()[j],
            ),
{
    let ghost leq: spec_fn(TaskV, TaskV) -> bool = |a: TaskV, b: TaskV| priority_ge(a, b);
    let sorted = sort_tasks_by(
        &*tasks,
        Ghost(leq),
        (|a: &Task, b: &Task| -> (res: bool)
            ensures
                res == priority_ge(a@, b@),
            { priority_value(&a.priority) >= priority_value(&b.priority) }),
    );
    proof {
        assert forall|i: int, j: int|
            0 <= i < j < sorted.deep_view().len() implies priority_ge(
            #[trigger] sorted.deep_view()[i],
            #[trigger] sorted.deep_view()[j],
        ) by {
            assert(leq(sorted.deep_view()[i], sorted.deep_view()[j]));
        }
    }
    *tasks = sorted;
}

/// The strict order on date keys: the "no date" key first, then dates
/// ascending.
pub open spec fn date_key_lt(a: Option<int>, b: Option<int>) -> bool {
    match (a, b) {
        (None, None) => false,
        (None, Some(_)) => true,
        (Some(_), None) => false,
        (Some(x), Some(y)) => x < y,
    }
}

/// The tasks carrying exactly this due date, in input order.
pub open spec fn tasks_with_due(tasks: Seq<TaskV>, key: Option<int>) -> Seq<TaskV>
    decreases tasks.len(),
{
    if tasks.len() == 0 {
        Seq::empty()
    } else {
        let prev = tasks_with_due(tasks.drop_last(), key);
        if tasks.last().due_date == key {
            prev.push(tasks.last())
        } else {
            prev
        }
    }
}

/// When no task of the collection carries the key, the selection is empty.
proof fn lemma_tasks_with_due_empty(tasks: Seq<TaskV>, key: Option<int>)
    requires
        forall|i: int| 0 <= i < tasks.len() ==> (#[trigger] tasks[i]).due_date != key,
    ensures
        tasks_with_due(tasks, key) == Seq::<TaskV>::empty(),
    decreases tasks.len(),
{
    if tasks.len() > 0 {
        assert(forall|i: int| 0 <= i < tasks.drop_last().len() ==> tasks.drop_last()[i] == tasks[i]);
        lemma_tasks_with_due_empty(tasks.drop_last(), key);
        assert(tasks[tasks.len() - 1].due_date != key);
    }
}

/// Group tasks by their exact due date: keys strictly ascending with the
/// dateless group first, each group holding exactly the tasks with that
/// date in input order, and a group for every date that occurs.
/// The inclusive key order.
pub open spec fn date_key_le(a: Option<int>, b: Option<int>) -> bool {
    date_key_lt(a, b) || a == b
}

/// Group tasks by their exact due date: keys strictly ascending with the
/// dateless group first, each group holding exactly the tasks with that
/// date in input order, a group for every date that occurs and none for a
/// date that does not.
#[verifier::rlimit(60)]
pub fn group_by_date(tasks: &Vec<Task>) -> (groups: Vec<(Option<i64>, Vec<Task>)>)
    ensures
        forall|g1: int, g2: int|
            0 <= g1 < g2 < groups@.len() ==> date_key_lt(
                opt_int(#[trigger] groups@[g1].0),
                opt_int(#[trigger] groups@[g2].0),
            ),
        forall|g: int|
            0 <= g < groups@.len() ==> (#[trigger] groups@[g]).1.deep_view() == tasks_with_due(
                tasks.deep_view(),
                opt_int(groups@[g].0),
            ),
        forall|i: int|
            0 <= i < tasks@.len() ==> exists|g: int|
                0 <= g < groups@.len() && (#[trigger] groups@[g]).0 == (
                #[trigger] tasks@[i]).due_date,
        forall|g: int|
            0 <= g < groups@.len() ==> Seq::new(
                tasks@.len(),
                |i: int| tasks@[i].due_date,
            ).contains((#[trigger] groups@[g]).0),
{
    let ghost tv = tasks.deep_view();
    let ghost duesv = Seq::new(tasks@.len(), |i: int| tasks@[i].due_date);
    // collect the distinct date keys, in order of first appearance
    let mut keys: Vec<Option<i64>> = Vec::new();
    let mut i: usize = 0;
    while i < tasks.len()
        invariant
            tv == tasks.deep_view(),
            duesv == Seq::new(tasks@.len(), |i: int| tasks@[i].due_date),
            0 <= i <= tasks.len(),
            forall|k1: int, k2: int|
                0 <= k1 < k2 < keys@.len() ==> opt_int(#[trigger] keys@[k1]) != opt_int(
                    #[trigger] keys@[k2],
                ),
            forall|ii: int| 0 <= ii < i ==> keys@.contains(#[trigger] tasks@[ii].due_date),
            forall|k: int| 0 <= k < keys@.len() ==> duesv.contains(#[trigger] keys@[k]),
        decreases tasks.len() - i,
    {
        let key = tasks[i].due_date;
        let ghost prev = keys@;
        let found = find_date_key(&keys, &key);
        if found.is_none() {
            keys.push(key);
            proof {
                assert(keys@ =~= prev.push(key));
                assert(forall|k: int| 0 <= k < prev.len() ==> keys@[k] == prev[k]);
                assert(duesv[i as int] == key);
                assert(duesv.contains(keys@[prev.len() as int]));
                assert forall|ii: int| 0 <= ii < i + 1 implies keys@.contains(
                    #[trigger] tasks@[ii].due_date,
                ) by {
                    if ii < i {
                        let k = choose|k: int| 0 <= k < prev.len() && prev[k] == tasks@[ii].due_date;
                        assert(keys@[k] == tasks@[ii].due_date);
                    } else {
                        assert(keys@[prev.len() as int] == tasks@[ii].due_date);
                    }
                }
            }
        } else {
            proof {
                let k = found->Some_0 as int;
                // an equal key under `opt_int` is the same option value
                assert(opt_int(keys@[k]) == opt_int(key));
                assert(keys@[k] == key);
                assert(keys@.contains(tasks@[i as int].due_date));
            }
        }
        i += 1;
    }
    // order the keys: the dateless key first, then dates ascending
    let keys = sort_date_keys(keys);
    // one group per key, holding exactly the tasks dated with it
    let mut groups: Vec<(Option<i64>, Vec<Task>)> = Vec::new();
    let mut g: usize = 0;
    while g < keys.len()
        invariant
            tv == tasks.deep_view(),
            0 <= g <= keys@.len(),
            groups@.len() == g,
            forall|h: int| 0 <= h < g ==> (#[trigger] groups@[h]).0 == keys@[h],
            forall|h: int|
                0 <= h < g ==> (#[trigger] groups@[h]).1.deep_view() == tasks_with_due(
                    tv,
                    opt_int(groups@[h].0),
                ),
        decreases keys.len() - g,
    {
        let key = keys[g];
        let members = collect_with_due(tasks, &key);
        let ghost prev = groups@;
        groups.push((key, members));
        proof {
            assert(groups@ =~= prev.push(groups@[g as int]));
            assert(forall|h: int| 0 <= h < g ==> groups@[h] == prev[h]);
        }
        g += 1;
    }
    proof {
        assert forall|g1: int, g2: int|
            0 <= g1 < g2 < groups@.len() implies date_key_lt(
            opt_int(#[trigger] groups@[g1].0),
            opt_int(#[trigger] groups@[g2].0),
        ) by {
            assert(date_key_le(opt_int(keys@[g1]), opt_int(keys@[g2])));
            assert(opt_int(keys@[g1]) != opt_int(keys@[g2]));
        }
        assert forall|i: int|
            0 <= i < tasks@.len() implies exists|g: int|
            0 <= g < groups@.len() && (#[trigger] groups@[g]).0 == (
            #[trigger] tasks@[i]).due_date by {
            assert(keys@.contains(tasks@[i as int].due_date));
            let k = choose|k: int| 0 <= k < keys@.len() && keys@[k] == tasks@[i as int].due_date;
            assert(groups@[k].0 == tasks@[i as int].due_date);
        }
        assert forall|g: int| 0 <= g < groups@.len() implies duesv.contains(
            (#[trigger] groups@[g]).0,
        ) by {
            assert(keys@.contains(keys@[g]));
        }
    }
    groups
}

/// Position of a key in the key list, if present.
fn find_date_key(keys: &Vec<Option<i64>>, key: &Option<i64>) -> (r: Option<usize>)
    ensures
        match r {
            Some(k) => k < keys@.len() && opt_int(keys@[k as int]) == opt_int(*key),
            None => forall|h: int|
                0 <= h < keys@.len() ==> opt_int(#[trigger] keys@[h]) != opt_int(*key),
        },
{
    let mut k: usize = 0;
    while k < keys.len()
        invariant
            0 <= k <= keys@.len(),
            forall|h: int| 0 <= h < k ==> opt_int(#[trigger] keys@[h]) != opt_int(*key),
        decreases keys@.len() - k,
    {
        let hit = match (&keys[k], key) {
            (None, None) => true,
            (Some(a), Some(b)) => *a == *b,
            _ => false,
        };
        if hit {
            return Some(k);
        }
        k += 1;
    }
    None
}

/// Selection sort of the date keys under the inclusive order; distinctness
/// and the key set itself are kept.
#[verifier::rlimit(60)]
fn sort_date_keys(keys: Vec<Option<i64>>) -> (r: Vec<Option<i64>>)
    requires
        forall|k1: int, k2: int|
            0 <= k1 < k2 < keys@.len() ==> opt_int(#[trigger] keys@[k1]) != opt_int(
                #[trigger] keys@[k2],
            ),
    ensures
        r@.len() == keys@.len(),
        forall|k1: int, k2: int|
            0 <= k1 < k2 < r@.len() ==> date_key_le(opt_int(#[trigger] r@[k1]), opt_int(
                #[trigger] r@[k2],
            )) && opt_int(r@[k1]) != opt_int(r@[k2]),
        forall|k: int| 0 <= k < r@.len() ==> keys@.contains(#[trigger] r@[k]),
        forall|h: int| 0 <= h < keys@.len() ==> r@.contains(#[trigger] keys@[h]),
{
    let mut rest = keys;
    let mut out: Vec<Option<i64>> = Vec::new();
    let ghost keysv = rest@;
    proof {
        assert forall|k: int| 0 <= k < rest@.len() implies keysv.contains(#[trigger] rest@[k]) by {
            assert(rest@[k] == keysv[k]);
        }
        assert forall|h: int| 0 <= h < keysv.len() implies out@.contains(#[trigger] keysv[h])
            || rest@.contains(keysv[h]) by {
            assert(rest@[h] == keysv[h]);
        }
    }
    while rest.len() > 0
        invariant
            out@.len() + rest@.len() == keysv.len(),
            forall|k: int| 0 <= k < out@.len() ==> keysv.contains(#[trigger] out@[k]),
            forall|k: int| 0 <= k < rest@.len() ==> keysv.contains(#[trigger] rest@[k]),
            forall|h: int|
                0 <= h < keysv.len() ==> out@.contains(#[trigger] keysv[h]) || rest@.contains(
                    keysv[h],
                ),
            forall|k1: int, k2: int|
                0 <= k1 < k2 < keysv.len() ==> opt_int(#[trigger] keysv[k1]) != opt_int(
                    #[trigger] keysv[k2],
                ),
            forall|k1: int, k2: int|
                0 <= k1 < k2 < out@.len() ==> opt_int(#[trigger] out@[k1]) != opt_int(
                    #[trigger] out@[k2],
                ),
            forall|k1: int, k2: int|
                0 <= k1 < k2 < rest@.len() ==> opt_int(#[trigger] rest@[k1]) != opt_int(
                    #[trigger] rest@[k2],
                ),
            forall|k1: int, k2: int|
                0 <= k1 < out@.len() && 0 <= k2 < rest@.len() ==> opt_int(#[trigger] out@[k1])
                    != opt_int(#[trigger] rest@[k2]),
            forall|k1: int, k2: int|
                0 <= k1 < k2 < out@.len() ==> date_key_le(opt_int(#[trigger] out@[k1]), opt_int(
                    #[trigger] out@[k2],
                )),
            forall|k1: int, k2: int|
                0 <= k1 < out@.len() && 0 <= k2 < rest@.len() ==> date_key_le(
                    opt_int(#[trigger] out@[k1]),
                    opt_int(#[trigger] rest@[k2]),
                ),
        decreases rest.len(),
    {
        let ghost restv = rest@;
        let mut m: usize = 0;
        let mut k: usize = 1;
        while k < rest.len()
            invariant
                restv == rest@,
                rest@.len() > 0,
                0 <= m < rest@.len(),
                1 <= k <= rest@.len(),
                forall|k1: int, k2: int|
                    0 <= k1 < k2 < rest@.len() ==> opt_int(#[trigger] rest@[k1]) != opt_int(
                        #[trigger] rest@[k2],
                    ),
                forall|j: int|
                    0 <= j < k ==> date_key_le(opt_int(restv[m as int]), opt_int(
                        #[trigger] restv[j],
                    )),
            decreases rest@.len() - k,
        {
            if date_key_lt_exec(&rest[k], &rest[m]) {
                m = k;
            } else {
                proof {
                    if opt_int(restv[k as int]) != opt_int(restv[m as int]) {
                        lemma_date_key_total(opt_int(restv[m as int]), opt_int(restv[k as int]));
                    }
                }
            }
            k += 1;
        }
        let ghost prev_out = out@;
        let picked = rest.remove(m);
        out.push(picked);
        proof {
            assert(rest@ =~= restv.remove(m as int));
            assert(out@ =~= prev_out.push(restv[m as int]));
            assert(forall|k2: int|
                0 <= k2 < rest@.len() ==> #[trigger] rest@[k2] == (if k2 < m {
                    restv[k2]
                } else {
                    restv[k2 + 1]
                }));
            assert forall|h: int| 0 <= h < keysv.len() implies out@.contains(#[trigger] keysv[h])
                || rest@.contains(keysv[h]) by {
                if prev_out.contains(keysv[h]) {
                    let k2 = choose|k2: int| 0 <= k2 < prev_out.len() && prev_out[k2] == keysv[h];
                    assert(out@[k2] == keysv[h]);
                } else {
                    let k2 = choose|k2: int| 0 <= k2 < restv.len() && restv[k2] == keysv[h];
                    if k2 == m {
                        assert(out@[out@.len() - 1] == keysv[h]);
                    } else if k2 < m {
                        assert(rest@[k2] == keysv[h]);
                    } else {
                        assert(rest@[k2 - 1] == keysv[h]);
                    }
                }
            }
        }
    }
    proof {
        assert forall|h: int| 0 <= h < keysv.len() implies out@.contains(#[trigger] keysv[h]) by {
            assert(!rest@.contains(keysv[h]));
        }
    }
    out
}

/// The tasks carrying exactly the given due date, in input order.
fn collect_with_due(tasks: &Vec<Task>, key: &Option<i64>) -> (r: Vec<Task>)
    ensures
        r.deep_view() == tasks_with_due(tasks.deep_view(), opt_int(*key)),
{
    let ghost tv = tasks.deep_view();
    let mut r: Vec<Task> = Vec::new();
    let mut i: usize = 0;
    proof {
        assert(tv.take(0) =~= Seq::<TaskV>::empty());
        assert(r.deep_view() =~~= tasks_with_due(tv.take(0), opt_int(*key)));
    }
    while i < tasks.len()
        invariant
            tv == tasks.deep_view(),
            0 <= i <= tasks.len(),
            r.deep_view() == tasks_with_due(tv.take(i as int), opt_int(*key)),
        decreases tasks.len() - i,
    {
        proof {
            assert(tv.take(i + 1).drop_last() =~= tv.take(i as int));
            assert(tv.take(i + 1).last() == tv[i as int]);
        }
        let hit = match (&tasks[i].due_date, key) {
            (None, None) => true,
            (Some(a), Some(b)) => *a == *b,
            _ => false,
        };
        if hit {
            let ghost prev = r.deep_view();
            r.push(tasks[i].clone());
            proof {
                assert(r.deep_view() =~~= prev.push(tv[i as int]));
            }
        }
        i += 1;
    }
    proof {
        assert(tv.take(tasks@.len() as int) =~= tv);
    }
    r
}

/// The strict key order is total on distinct keys.
proof fn lemma_date_key_total(a: Option<int>, b: Option<int>)
    requires
        a != b,
        !date_key_lt(b, a),
    ensures
        date_key_lt(a, b),
{
}

/// The strict key order is transitive.
proof fn lemma_date_key_trans(a: Option<int>, b: Option<int>, c: Option<int>)
    requires
        date_key_lt(a, b),
        date_key_lt(b, c),
    ensures
        date_key_lt(a, c),
{
}

/// Position of the group holding the key, if one exists.
fn find_key_pos(groups: &Vec<(Option<i64>, Vec<Task>)>, key: &Option<i64>) -> (r: Option<usize>)
    ensures
        match r {
            Some(g) => g < groups@.len() && opt_int(groups@[g as int].0) == opt_int(*key),
            None => forall|h: int|
                0 <= h < groups@.len() ==> opt_int((#[trigger] groups@[h]).0) != opt_int(*key),
        },
{
    let mut g: usize = 0;
    while g < groups.len()
        invariant
            0 <= g <= groups@.len(),
            forall|h: int| 0 <= h < g ==> opt_int((#[trigger] groups@[h]).0) != opt_int(*key),
        decreases groups@.len() - g,
    {
        let hit = match (&groups[g].0, key) {
            (None, None) => true,
            (Some(a), Some(b)) => *a == *b,
            _ => false,
        };
        if hit {
            return Some(g);
        }
        g += 1;
    }
    None
}

/// The sorted position a fresh key belongs at: past every smaller key,
/// before the first key not below it.
fn find_insert_pos(groups: &Vec<(Option<i64>, Vec<Task>)>, key: &Option<i64>) -> (p: usize)
    ensures
        p <= groups@.len(),
        forall|h: int| 0 <= h < p ==> date_key_lt(opt_int((#[trigger] groups@[h]).0), opt_int(*key)),
        p < groups@.len() ==> !date_key_lt(opt_int(groups@[p as int].0), opt_int(*key)),
{
    let mut p: usize = 0;
    while p < groups.len()
        invariant
            0 <= p <= groups@.len(),
            forall|h: int| 0 <= h < p ==> date_key_lt(opt_int((#[trigger] groups@[h]).0), opt_int(*key)),
        decreases groups@.len() - p,
    {
        if !date_key_lt_exec(&groups[p].0, &key) {
            return p;
        }
        p += 1;
    }
    p
}

/// Decide the strict key order.
fn date_key_lt_exec(a: &Option<i64>, b: &Option<i64>) -> (r: bool)
    ensures
        r == date_key_lt(opt_int(*a), opt_int(*b)),
{
    match (a, b) {
        (None, None) => false,
        (None, Some(_)) => true,
        (Some(_), None) => false,
        (Some(x), Some(y)) => *x < *y,
    }
}

} // verus!
