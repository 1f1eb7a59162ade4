//! The Agenda schedule: the open tasks of a day in time order, each at its real local
//! time where it has one, and otherwise at the next free whole hour.

use vstd::prelude::*;
use crate::entities::task;
use crate::ext::{
    format_hour_label, format_hour_minute_label, hour_label_text, hour_minute_label_text, parse_naive_local,
    parse_rfc3339_local, naive_datetime_secs, rfc3339_utc_secs,
};

verus! {

/// An Agenda entry: a local time in seconds, whether the time is a suggestion, the task.
pub type Entry = (int, bool, task::Model);

/// The same entry as the program holds it.
pub type EntryExec = (i128, bool, task::Model);

/// The hour that a local time falls in, counted from 1970-01-01 00:00.
pub open spec fn hour_slot(t: int) -> int {
    t / 3600
}

/// Whether a task is neither completed nor deleted.
pub open spec fn is_open(t: task::Model) -> bool {
    !t.is_completed && !t.is_deleted
}

/// Each task beside its parsed local due time.
pub open spec fn timed(tasks: Seq<task::Model>, times: Seq<Option<i64>>) -> Seq<(task::Model, Option<i64>)> {
    Seq::new(tasks.len(), |i: int| (tasks[i], times[i]))
}

/// The open tasks beside their parsed local due times, in list order.
pub open spec fn open_timed(tasks: Seq<task::Model>, times: Seq<Option<i64>>) -> Seq<(task::Model, Option<i64>)> {
    timed(tasks, times).filter(|p: (task::Model, Option<i64>)| is_open(p.0))
}

/// The entries of the tasks that have a parsed time, at that time, in list order.
pub open spec fn fixed_entries(pairs: Seq<(task::Model, Option<i64>)>) -> Seq<Entry>
    decreases pairs.len(),
{
    if pairs.len() == 0 {
        Seq::empty()
    } else {
        let rest = fixed_entries(pairs.drop_last());
        match pairs.last().1 {
            Some(t) => rest.push((t as int, false, pairs.last().0)),
            None => rest,
        }
    }
}

/// The hours taken by entries.
pub open spec fn slots_of(entries: Seq<Entry>) -> Seq<int> {
    entries.map_values(|e: Entry| hour_slot(e.0))
}

/// Whether `s` is the first hour from `from` on that `taken` does not hold.
pub open spec fn is_first_free(taken: Seq<int>, from: int, s: int) -> bool {
    &&& from <= s
    &&& !taken.contains(s)
    &&& forall|k: int| from <= k < s ==> #[trigger] taken.contains(k)
}

/// The first hour from `from` on that `taken` does not hold.
pub open spec fn first_free(taken: Seq<int>, from: int) -> int {
    choose|s: int| is_first_free(taken, from, s)
}

/// Suggested entries for the tasks without a due time, in list order: each takes the
/// first free hour after the previous suggestion, starting from the hour `from`.
pub open spec fn suggestions(pairs: Seq<(task::Model, Option<i64>)>, taken: Seq<int>, from: int) -> Seq<Entry>
    decreases pairs.len(),
{
    if pairs.len() == 0 {
        Seq::empty()
    } else if pairs[0].0.due_datetime is None {
        let s = first_free(taken, from);
        seq![(s * 3600, true, pairs[0].0)] + suggestions(pairs.drop_first(), taken.push(s), s + 1)
    } else {
        suggestions(pairs.drop_first(), taken, from)
    }
}

/// Entry order: by time, and at equal times real times before suggestions.
pub open spec fn entry_le(a: Entry, b: Entry) -> bool {
    a.0 < b.0 || (a.0 == b.0 && (!a.1 || b.1))
}

/// Inserts an entry after every entry that is not later than it.
pub open spec fn insert_sorted(s: Seq<Entry>, e: Entry) -> Seq<Entry>
    decreases s.len(),
{
    if s.len() == 0 {
        seq![e]
    } else if entry_le(s.last(), e) {
        s.push(e)
    } else {
        insert_sorted(s.drop_last(), e).push(s.last())
    }
}

/// The entries in entry order; entries in the same place of the order keep their
/// relative order (a stable sort).
pub open spec fn sort_entries(s: Seq<Entry>) -> Seq<Entry>
    decreases s.len(),
{
    if s.len() == 0 {
        Seq::empty()
    } else {
        insert_sorted(sort_entries(s.drop_last()), s.last())
    }
}

/// The Agenda at the local time `now`: the real-time entries, then the suggestions
/// starting at the next whole hour, sorted.
pub open spec fn agenda_entries(tasks: Seq<task::Model>, times: Seq<Option<i64>>, now: int) -> Seq<Entry> {
    let pairs = open_timed(tasks, times);
    let fixed = fixed_entries(pairs);
    sort_entries(fixed + suggestions(pairs, slots_of(fixed), hour_slot(now) + 1))
}

/// The label of an entry's time: `9am` on the hour, `9:05am` otherwise.
pub open spec fn agenda_label(t: int) -> Seq<char> {
    let of_day = t % 86400;
    let hour = of_day / 3600;
    let minute = (of_day % 3600) / 60;
    if minute == 0 { hour_label_text(hour) } else { hour_minute_label_text(hour, minute) }
}

/// Whether entries are in entry order.
pub open spec fn entries_sorted(s: Seq<Entry>) -> bool {
    forall|i: int, j: int| 0 <= i < j < s.len() ==> entry_le(s[i], s[j])
}

/// The entries as the specification reads them.
pub open spec fn entries_view(v: Seq<EntryExec>) -> Seq<Entry> {
    v.map_values(|e: EntryExec| (e.0 as int, e.1, e.2))
}

/// Where an hour is not taken, the first free hour from any earlier start exists.
proof fn lemma_first_free_exists(taken: Seq<int>, from: int, x: int)
    requires
        from <= x,
        !taken.contains(x),
    ensures
        is_first_free(taken, from, first_free(taken, from)),
    decreases x - from,
{
    if !taken.contains(from) {
        assert(is_first_free(taken, from, from));
    } else {
        lemma_first_free_exists(taken, from + 1, x);
        let s = first_free(taken, from + 1);
        assert forall|k: int| from <= k < s implies #[trigger] taken.contains(k) by {
            if k > from {
                assert(from + 1 <= k < s);
            }
        }
        assert(is_first_free(taken, from, s));
    }
}

/// The first free hour is unique.
proof fn lemma_first_free_unique(taken: Seq<int>, from: int, s: int)
    requires
        is_first_free(taken, from, s),
    ensures
        first_free(taken, from) == s,
{
    let t = first_free(taken, from);
    assert(is_first_free(taken, from, t));
    if t < s {
        assert(taken.contains(t));
    } else if s < t {
        assert(taken.contains(s));
    }
}

/// The greatest hour taken, or `from` when it is larger.
pub open spec fn top_of(taken: Seq<int>, from: int) -> int
    decreases taken.len(),
{
    if taken.len() == 0 {
        from
    } else {
        let rest = top_of(taken.drop_last(), from);
        if taken.last() > rest { taken.last() } else { rest }
    }
}

proof fn lemma_top_bounds(taken: Seq<int>, from: int)
    ensures
        from <= top_of(taken, from),
        forall|k: int| 0 <= k < taken.len() ==> taken[k] <= top_of(taken, from),
    decreases taken.len(),
{
    if taken.len() > 0 {
        lemma_top_bounds(taken.drop_last(), from);
        assert forall|k: int| 0 <= k < taken.len() implies taken[k] <= top_of(taken, from) by {
            if k < taken.len() - 1 {
                assert(taken.drop_last()[k] == taken[k]);
            }
        }
    }
}

/// The first free hour always exists.
pub proof fn lemma_first_free(taken: Seq<int>, from: int)
    ensures
        is_first_free(taken, from, first_free(taken, from)),
{
    lemma_top_bounds(taken, from);
    let x = top_of(taken, from) + 1;
    if taken.contains(x) {
        let k = choose|k: int| 0 <= k < taken.len() && taken[k] == x;
        assert(taken[k] <= top_of(taken, from));
    }
    lemma_first_free_exists(taken, from, x);
}

/// Every suggested hour is free: it is not among the hours taken at the start, the
/// suggestions come in strictly increasing time, each on a whole hour from `from` on.
pub proof fn lemma_suggestions_free(pairs: Seq<(task::Model, Option<i64>)>, taken: Seq<int>, from: int)
    ensures
        forall|i: int| 0 <= i < suggestions(pairs, taken, from).len() ==> {
            let e = #[trigger] suggestions(pairs, taken, from)[i];
            &&& e.1
            &&& e.0 % 3600 == 0
            &&& from * 3600 <= e.0
            &&& !taken.contains(hour_slot(e.0))
        },
        forall|i: int, j: int| 0 <= i < j < suggestions(pairs, taken, from).len()
            ==> #[trigger] suggestions(pairs, taken, from)[i].0 < #[trigger] suggestions(pairs, taken, from)[j].0,
    decreases pairs.len(),
{
    if pairs.len() > 0 {
        if pairs[0].0.due_datetime is None {
            let f = first_free(taken, from);
            lemma_first_free(taken, from);
            lemma_suggestions_free(pairs.drop_first(), taken.push(f), f + 1);
            let rest = suggestions(pairs.drop_first(), taken.push(f), f + 1);
            let s = suggestions(pairs, taken, from);
            assert(s == seq![(f * 3600, true, pairs[0].0)] + rest);
            assert(hour_slot(f * 3600) == f);
            assert forall|i: int| 0 <= i < s.len() implies {
                let e = #[trigger] s[i];
                &&& e.1
                &&& e.0 % 3600 == 0
                &&& from * 3600 <= e.0
                &&& !taken.contains(hour_slot(e.0))
            } by {
                if i > 0 {
                    assert(s[i] == rest[i - 1]);
                    assert(!taken.push(f).contains(hour_slot(rest[i - 1].0)));
                    assert((f + 1) * 3600 <= rest[i - 1].0);
                    if taken.contains(hour_slot(s[i].0)) {
                        let k = choose|k: int| 0 <= k < taken.len() && taken[k] == hour_slot(s[i].0);
                        assert(taken.push(f)[k] == taken[k]);
                    }
                }
            }
            assert forall|i: int, j: int| 0 <= i < j < s.len() implies #[trigger] s[i].0 < #[trigger] s[j].0 by {
                assert(s[j] == rest[j - 1]);
                assert((f + 1) * 3600 <= rest[j - 1].0);
                if i > 0 {
                    assert(s[i] == rest[i - 1]);
                }
            }
        } else {
            lemma_suggestions_free(pairs.drop_first(), taken, from);
            assert(suggestions(pairs, taken, from) == suggestions(pairs.drop_first(), taken, from));
        }
    }
}

proof fn lemma_entry_le_total(a: Entry, b: Entry)
    ensures
        entry_le(a, b) || entry_le(b, a),
{
}

/// Inserting into sorted entries keeps them sorted, and adds exactly that entry.
proof fn lemma_insert_sorted(s: Seq<Entry>, e: Entry)
    requires
        entries_sorted(s),
    ensures
        entries_sorted(insert_sorted(s, e)),
        insert_sorted(s, e).len() == s.len() + 1,
        forall|x: Entry| #[trigger] insert_sorted(s, e).contains(x) ==> x == e || s.contains(x),
    decreases s.len(),
{
    let r = insert_sorted(s, e);
    if s.len() == 0 {
    } else if entry_le(s.last(), e) {
        assert forall|i: int, j: int| 0 <= i < j < r.len() implies entry_le(r[i], r[j]) by {
            if j == s.len() {
                assert(entry_le(s[i], s.last()) || i == s.len() - 1);
            }
        }
        assert forall|x: Entry| #[trigger] r.contains(x) implies x == e || s.contains(x) by {
            let k = choose|k: int| 0 <= k < r.len() && r[k] == x;
            if k < s.len() {
                assert(s[k] == x);
            }
        }
    } else {
        let d = s.drop_last();
        assert(entries_sorted(d)) by {
            assert forall|i: int, j: int| 0 <= i < j < d.len() implies entry_le(d[i], d[j]) by {
                assert(d[i] == s[i] && d[j] == s[j]);
            }
        }
        lemma_insert_sorted(d, e);
        let m = insert_sorted(d, e);
        lemma_entry_le_total(s.last(), e);
        assert forall|i: int| 0 <= i < m.len() implies entry_le(#[trigger] m[i], s.last()) by {
            assert(m.contains(m[i]));
            if m[i] != e {
                assert(d.contains(m[i]));
                let k = choose|k: int| 0 <= k < d.len() && d[k] == m[i];
                assert(s[k] == d[k]);
                assert(entry_le(s[k], s[s.len() - 1]));
            }
        }
        assert forall|i: int, j: int| 0 <= i < j < r.len() implies entry_le(r[i], r[j]) by {
            if j == r.len() - 1 {
                assert(r[i] == m[i]);
            } else {
                assert(r[i] == m[i] && r[j] == m[j]);
            }
        }
        assert forall|x: Entry| #[trigger] r.contains(x) implies x == e || s.contains(x) by {
            let k = choose|k: int| 0 <= k < r.len() && r[k] == x;
            if k < m.len() {
                assert(m.contains(m[k]));
                if m[k] != e {
                    let q = choose|q: int| 0 <= q < d.len() && d[q] == m[k];
                    assert(s[q] == d[q]);
                }
            } else {
                assert(s[s.len() - 1] == x);
            }
        }
    }
}

/// The Agenda comes out in time order, real times before suggestions at equal times.
pub proof fn lemma_sort_entries_sorted(s: Seq<Entry>)
    ensures
        entries_sorted(sort_entries(s)),
        sort_entries(s).len() == s.len(),
    decreases s.len(),
{
    if s.len() > 0 {
        lemma_sort_entries_sorted(s.drop_last());
        lemma_insert_sorted(sort_entries(s.drop_last()), s.last());
    }
}

/// Where `j` is the place after the last entry not later than `e`, inserting there is
/// `insert_sorted`.
proof fn lemma_insert_sorted_at(s: Seq<Entry>, e: Entry, j: int)
    requires
        0 <= j <= s.len(),
        forall|k: int| j <= k < s.len() ==> !entry_le(#[trigger] s[k], e),
        j > 0 ==> entry_le(s[j - 1], e),
    ensures
        insert_sorted(s, e) == s.insert(j, e),
    decreases s.len(),
{
    if s.len() == 0 {
        assert(seq![e] =~= s.insert(0, e));
    } else if j == s.len() {
        assert(s.push(e) =~= s.insert(j, e));
    } else {
        assert(!entry_le(s[s.len() - 1], e));
        let d = s.drop_last();
        assert forall|k: int| j <= k < d.len() implies !entry_le(#[trigger] d[k], e) by {
            assert(d[k] == s[k]);
        }
        if j > 0 {
            assert(d[j - 1] == s[j - 1]);
        }
        lemma_insert_sorted_at(d, e, j);
        assert(d.insert(j, e).push(s.last()) =~= s.insert(j, e));
    }
}

/// Whether the program's entry `a` comes no later than `b`.
fn entry_le_exec(a: &EntryExec, b: &EntryExec) -> (r: bool)
    ensures
        r == entry_le((a.0 as int, a.1, a.2), (b.0 as int, b.1, b.2)),
{
    a.0 < b.0 || (a.0 == b.0 && (!a.1 || b.1))
}

/// Sorts entries stably by time, real times first at equal times.
pub fn sort_entries_exec(input: Vec<EntryExec>) -> (r: Vec<EntryExec>)
    requires
        forall|k: int| 0 <= k < input@.len() ==> -TIME_BOUND < #[trigger] input@[k].0 < TIME_BOUND,
    ensures
        entries_view(r@) == sort_entries(entries_view(input@)),
        forall|k: int| 0 <= k < r@.len() ==> -TIME_BOUND < #[trigger] r@[k].0 < TIME_BOUND,
{
    let mut out: Vec<EntryExec> = Vec::new();
    let mut i: usize = 0;
    proof {
        assert(entries_view(input@).take(0) =~= Seq::<Entry>::empty());
        assert(entries_view(out@) =~= Seq::<Entry>::empty());
    }
    while i < input.len()
        invariant
            i <= input@.len(),
            entries_view(out@) == sort_entries(entries_view(input@).take(i as int)),
            forall|k: int| 0 <= k < input@.len() ==> -TIME_BOUND < #[trigger] input@[k].0 < TIME_BOUND,
            forall|k: int| 0 <= k < out@.len() ==> -TIME_BOUND < #[trigger] out@[k].0 < TIME_BOUND,
        decreases input@.len() - i,
    {
        let e = &input[i];
        let mut j: usize = out.len();
        while j > 0 && !entry_le_exec(&out[j - 1], e)
            invariant
                j <= out@.len(),
                e == input@[i as int],
                forall|k: int| j <= k < out@.len() ==> !entry_le(#[trigger] entries_view(out@)[k], (e.0 as int, e.1, e.2)),
            decreases j,
        {
            j = j - 1;
        }
        let ghost before = entries_view(out@);
        let ghost ev: Entry = (e.0 as int, e.1, e.2);
        proof {
            lemma_insert_sorted_at(before, ev, j as int);
            assert(entries_view(input@).take(i + 1).drop_last() =~= entries_view(input@).take(i as int));
            assert(entries_view(input@).take(i + 1).last() == ev);
        }
        out.insert(j, (e.0, e.1, e.2.duplicate()));
        proof {
            assert(entries_view(out@) =~= before.insert(j as int, ev));
        }
        i = i + 1;
    }
    proof {
        assert(entries_view(input@).take(i as int) =~= entries_view(input@));
    }
    out
}

/// Reads a task's due time as a local wall-clock time: RFC 3339 first, then the
/// offset-free `YYYY-MM-DDTHH:MM:SS` form taken as local time.
pub fn parse_task_datetime(value: &str) -> (r: Option<i64>)
    ensures
        r matches Some(v) ==> -0x1000_0000_0000 < v < 0x1000_0000_0000,
        rfc3339_utc_secs(value@) matches Some(u) ==> (r matches Some(v) && -86400 < v - u < 86400),
        rfc3339_utc_secs(value@) is None ==> (r matches Some(v) ==> naive_datetime_secs(value@) == Some(v as int)),
        rfc3339_utc_secs(value@) is None && naive_datetime_secs(value@) is None ==> r is None,
{
    match parse_rfc3339_local(value) {
        Some(t) => Some(t),
        None => parse_naive_local(value),
    }
}

/// A bound on the local times the Agenda computes with (2^80 seconds).
pub const TIME_BOUND: i128 = 0x1_0000_0000_0000_0000_0000;

/// The hour of a local time, counted from 1970-01-01 00:00.
pub fn hour_slot_exec(t: i128) -> (s: i128)
    requires
        -TIME_BOUND < t < TIME_BOUND,
    ensures
        s == hour_slot(t as int),
        -TIME_BOUND < s < TIME_BOUND,
        -0x1000_0000_0000 < t < 0x1000_0000_0000 ==> -0x2_0000_0000 < s < 0x2_0000_0000,
{
    let shifted: u128 = (t + 3600 * 0x1_0000_0000_0000_0000_0000) as u128;
    let q: u128 = shifted / 3600;
    let s: i128 = q as i128 - 0x1_0000_0000_0000_0000_0000;
    assert(s == hour_slot(t as int)) by (nonlinear_arith)
        requires
            shifted == t + 3600 * 0x1_0000_0000_0000_0000_0000,
            q == shifted / 3600,
            s == q - 0x1_0000_0000_0000_0000_0000,
            shifted >= 0,
    ;
    s
}

/// The label of an entry's time.
pub fn agenda_time_label(t: i128) -> (s: String)
    requires
        -TIME_BOUND < t < TIME_BOUND,
    ensures
        s@ == agenda_label(t as int),
{
    let shifted: u128 = (t + 86400 * 0x1_0000_0000_0000_0000_0000) as u128;
    let of_day: u128 = shifted % 86400;
    assert(of_day == (t as int) % 86400) by (nonlinear_arith)
        requires
            shifted == t + 86400 * 0x1_0000_0000_0000_0000_0000,
            of_day == shifted % 86400,
            shifted >= 0,
    ;
    let hour: u32 = (of_day / 3600) as u32;
    let minute: u32 = ((of_day % 3600) / 60) as u32;
    if minute == 0 {
        format_hour_label(hour)
    } else {
        format_hour_minute_label(hour, minute)
    }
}

/// The label of a time of day in the `9:05am` form.
pub fn time_of_day_label(t: i128) -> (s: String)
    requires
        -TIME_BOUND < t < TIME_BOUND,
    ensures
        s@ == ({
            let of_day = (t as int) % 86400;
            hour_minute_label_text(of_day / 3600, (of_day % 3600) / 60)
        }),
{
    let shifted: u128 = (t + 86400 * 0x1_0000_0000_0000_0000_0000) as u128;
    let of_day: u128 = shifted % 86400;
    assert(of_day == (t as int) % 86400) by (nonlinear_arith)
        requires
            shifted == t + 86400 * 0x1_0000_0000_0000_0000_0000,
            of_day == shifted % 86400,
            shifted >= 0,
    ;
    format_hour_minute_label((of_day / 3600) as u32, ((of_day % 3600) / 60) as u32)
}

/// The hours as the specification reads them.
pub open spec fn slots_view(v: Seq<i128>) -> Seq<int> {
    v.map_values(|x: i128| x as int)
}

fn contains_slot(taken: &Vec<i128>, s: i128) -> (b: bool)
    ensures
        b == slots_view(taken@).contains(s as int),
{
    let mut i: usize = 0;
    while i < taken.len()
        invariant
            i <= taken@.len(),
            forall|k: int| 0 <= k < i ==> taken@[k] != s,
        decreases taken@.len() - i,
    {
        if taken[i] == s {
            assert(slots_view(taken@)[i as int] == s as int);
            return true;
        }
        i = i + 1;
    }
    proof {
        if slots_view(taken@).contains(s as int) {
            let k = choose|k: int| 0 <= k < slots_view(taken@).len() && slots_view(taken@)[k] == s as int;
            assert(taken@[k] == s);
        }
    }
    false
}

/// The first hour from `from` on that is not taken.
fn first_free_exec(taken: &Vec<i128>, from: i128, bound: i128) -> (s: i128)
    requires
        -TIME_BOUND < from <= bound < TIME_BOUND - 2,
        forall|k: int| 0 <= k < taken@.len() ==> #[trigger] taken@[k] <= bound,
    ensures
        s == first_free(slots_view(taken@), from as int),
        from <= s <= bound + 1,
{
    let mut cand: i128 = from;
    while contains_slot(taken, cand)
        invariant
            from <= cand <= bound + 1,
            -TIME_BOUND < from <= bound < TIME_BOUND - 2,
            forall|k: int| 0 <= k < taken@.len() ==> #[trigger] taken@[k] <= bound,
            forall|k: int| from <= k < cand ==> #[trigger] slots_view(taken@).contains(k),
        decreases bound + 1 - cand,
    {
        proof {
            let k = choose|k: int| 0 <= k < slots_view(taken@).len() && slots_view(taken@)[k] == cand as int;
            assert(taken@[k] <= bound);
        }
        cand = cand + 1;
    }
    proof {
        assert(is_first_free(slots_view(taken@), from as int, cand as int));
        lemma_first_free_unique(slots_view(taken@), from as int, cand as int);
    }
    cand
}

/// The open tasks beside their parsed times.
fn open_pairs(tasks: &Vec<task::Model>, times: &Vec<Option<i64>>) -> (r: Vec<(task::Model, Option<i64>)>)
    requires
        times@.len() == tasks@.len(),
    ensures
        r@ == open_timed(tasks@, times@),
{
    let mut out: Vec<(task::Model, Option<i64>)> = Vec::new();
    let mut i: usize = 0;
    let ghost all = timed(tasks@, times@);
    while i < tasks.len()
        invariant
            times@.len() == tasks@.len(),
            all == timed(tasks@, times@),
            i <= tasks@.len(),
            out@ == all.take(i as int).filter(|p: (task::Model, Option<i64>)| is_open(p.0)),
        decreases tasks@.len() - i,
    {
        proof {
            assert(all.take(i + 1) =~= all.take(i as int).push(all[i as int]));
            all.take(i as int).lemma_filter_push(all[i as int], |p: (task::Model, Option<i64>)| is_open(p.0));
        }
        if !tasks[i].is_completed && !tasks[i].is_deleted {
            out.push((tasks[i].duplicate(), times[i]));
        }
        i = i + 1;
    }
    proof {
        assert(all.take(i as int) =~= all);
    }
    out
}

/// The Agenda entries at the local time `now`, sorted, for the tasks beside their
/// parsed due times.
pub fn agenda_entries_exec(tasks: &Vec<task::Model>, times: &Vec<Option<i64>>, now: i64) -> (r: Vec<EntryExec>)
    requires
        times@.len() == tasks@.len(),
        -0x1000_0000_0000 < now < 0x1000_0000_0000,
        forall|k: int| 0 <= k < times@.len() ==> (#[trigger] times@[k] matches Some(v)
            ==> -0x1000_0000_0000 < v < 0x1000_0000_0000),
    ensures
        entries_view(r@) == agenda_entries(tasks@, times@, now as int),
        forall|k: int| 0 <= k < r@.len() ==> -TIME_BOUND < #[trigger] r@[k].0 < TIME_BOUND,
{
    let pairs = open_pairs(tasks, times);
    proof {
        assert forall|k: int| 0 <= k < pairs@.len() implies (#[trigger] pairs@[k].1 matches Some(v)
            ==> -0x1000_0000_0000 < v < 0x1000_0000_0000) by {
            let all = timed(tasks@, times@);
            all.filter_lemma(|p: (task::Model, Option<i64>)| is_open(p.0));
            assert(pairs@.contains(pairs@[k]));
            all.lemma_filter_contains_rev(|p: (task::Model, Option<i64>)| is_open(p.0), pairs@[k]);
            let q = choose|q: int| 0 <= q < all.len() && all[q] == pairs@[k];
            assert(times@[q] == pairs@[k].1);
        }
    }
    // The tasks at their real times, and the hours they take.
    let mut entries: Vec<EntryExec> = Vec::new();
    let mut taken: Vec<i128> = Vec::new();
    let mut j: usize = 0;
    while j < pairs.len()
        invariant
            j <= pairs@.len(),
            forall|k: int| 0 <= k < pairs@.len() ==> (#[trigger] pairs@[k].1 matches Some(v)
                ==> -0x1000_0000_0000 < v < 0x1000_0000_0000),
            entries_view(entries@) == fixed_entries(pairs@.take(j as int)),
            slots_view(taken@) == slots_of(fixed_entries(pairs@.take(j as int))),
            forall|k: int| 0 <= k < entries@.len() ==> -0x1000_0000_0000 < #[trigger] entries@[k].0 < 0x1000_0000_0000,
            forall|k: int| 0 <= k < taken@.len() ==> -0x2_0000_0000 < #[trigger] taken@[k] < 0x2_0000_0000,
        decreases pairs@.len() - j,
    {
        proof {
            assert(pairs@.take(j + 1).drop_last() =~= pairs@.take(j as int));
            assert(pairs@.take(j + 1).last() == pairs@[j as int]);
        }
        match pairs[j].1 {
            Some(t) => {
                let ghost before_e = entries_view(entries@);
                let ghost before_t = slots_view(taken@);
                entries.push((t as i128, false, pairs[j].0.duplicate()));
                let slot = hour_slot_exec(t as i128);
                taken.push(slot);
                proof {
                    assert(entries_view(entries@) =~= before_e.push((t as int, false, pairs@[j as int].0)));
                    assert(slots_view(taken@) =~= before_t.push(slot as int));
                    assert(slots_of(before_e.push((t as int, false, pairs@[j as int].0))) =~= slots_of(before_e).push(hour_slot(t as int)));
                }
            },
            None => {},
        }
        j = j + 1;
    }
    proof {
        assert(pairs@.take(j as int) =~= pairs@);
    }
    let ghost fixed = entries_view(entries@);
    let ghost taken0 = slots_view(taken@);
    // The tasks without a time, each at the next free hour.
    let mut from: i128 = hour_slot_exec(now as i128) + 1;
    let ghost from0 = from as int;
    let mut suggested: Vec<EntryExec> = Vec::new();
    let mut bound: i128 = 0x2_0000_0000;
    j = 0;
    proof {
        assert(pairs@.skip(0) =~= pairs@);
        assert(entries_view(suggested@) =~= Seq::<Entry>::empty());
    }
    while j < pairs.len()
        invariant
            j <= pairs@.len(),
            -0x2_0000_0000 < from <= bound,
            bound == 0x2_0000_0000 + 2 * j,
            j <= usize::MAX,
            forall|k: int| 0 <= k < taken@.len() ==> -0x2_0000_0000 < #[trigger] taken@[k] <= bound,
            forall|k: int| 0 <= k < suggested@.len() ==> -TIME_BOUND < #[trigger] suggested@[k].0 < TIME_BOUND,
            entries_view(suggested@) + suggestions(pairs@.skip(j as int), slots_view(taken@), from as int)
                == suggestions(pairs@, taken0, from0),
        decreases pairs@.len() - j,
    {
        let ghost rest = pairs@.skip(j as int);
        proof {
            assert(rest[0] == pairs@[j as int]);
            assert(rest.drop_first() =~= pairs@.skip(j + 1));
        }
        if pairs[j].0.due_datetime.is_none() {
            let s = first_free_exec(&taken, from, bound);
            let ghost before_s = entries_view(suggested@);
            let ghost before_t = slots_view(taken@);
            suggested.push((s * 3600, true, pairs[j].0.duplicate()));
            taken.push(s);
            proof {
                assert(entries_view(suggested@) =~= before_s.push((s * 3600, true, pairs@[j as int].0)));
                assert(slots_view(taken@) =~= before_t.push(s as int));
                assert(suggestions(rest, before_t, from as int) == seq![(s * 3600, true, pairs@[j as int].0)]
                    + suggestions(pairs@.skip(j + 1), before_t.push(s as int), s + 1));
                assert(before_s.push((s * 3600, true, pairs@[j as int].0)) + suggestions(pairs@.skip(j + 1), before_t.push(s as int), s + 1)
                    =~= before_s + (seq![(s * 3600, true, pairs@[j as int].0)] + suggestions(pairs@.skip(j + 1), before_t.push(s as int), s + 1)));
            }
            from = s + 1;
        } else {
            proof {
                assert(suggestions(rest, slots_view(taken@), from as int) == suggestions(pairs@.skip(j + 1), slots_view(taken@), from as int));
            }
        }
        bound = bound + 2;
        j = j + 1;
    }
    proof {
        assert(pairs@.skip(j as int).len() == 0);
        assert(entries_view(suggested@) + Seq::<Entry>::empty() =~= entries_view(suggested@));
    }
    let ghost sugg = entries_view(suggested@);
    let ghost fixed_exec = entries@;
    let mut k: usize = 0;
    while k < suggested.len()
        invariant
            k <= suggested@.len(),
            forall|q: int| 0 <= q < suggested@.len() ==> -TIME_BOUND < #[trigger] suggested@[q].0 < TIME_BOUND,
            forall|q: int| 0 <= q < entries@.len() ==> -TIME_BOUND < #[trigger] entries@[q].0 < TIME_BOUND,
            entries_view(entries@) == fixed + entries_view(suggested@).take(k as int),
        decreases suggested@.len() - k,
    {
        let ghost before = entries_view(entries@);
        entries.push((suggested[k].0, suggested[k].1, suggested[k].2.duplicate()));
        proof {
            assert(entries_view(suggested@).take(k + 1) =~= entries_view(suggested@).take(k as int).push(entries_view(suggested@)[k as int]));
            assert(entries_view(entries@) =~= before.push(entries_view(suggested@)[k as int]));
        }
        k = k + 1;
    }
    proof {
        assert(entries_view(suggested@).take(k as int) =~= entries_view(suggested@));
        assert(slots_of(fixed) == taken0);
    }
    sort_entries_exec(entries)
}

} // verus!
