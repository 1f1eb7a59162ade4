//! The read-only tools that the AI provider may call while it prepares a proposal, and
//! the bounded loop of tool rounds.
//!
//! The caller reads a call's JSON arguments into a [`ToolRequest`] and writes the
//! [`ToolResult`] back as JSON; what the tools select is decided here.

use vstd::prelude::*;
use crate::entities::{project, task};
use crate::ext::{lowercase_text, to_lowercase};
use crate::ui::components::dialogs::common::chars_of;

verus! {

/// The most items a tool returns.
pub const MAX_TOOL_RESULTS: usize = 50;

/// The most rounds of tool calls before the provider must answer.
pub const MAX_TOOL_ROUNDS: usize = 4;

/// A tool call, its arguments read.
#[derive(Debug, Clone)]
pub enum ToolRequest {
    /// Projects whose name holds the query, case-insensitively (all without one).
    ListProjects { query: Option<String> },
    /// Tasks that are not deleted, open unless completed ones are asked for, of one
    /// project or of all.
    ListTasks { project_uuid: Option<u128>, include_completed: bool },
    /// As `ListTasks`, with the title or description holding the query.
    SearchTasks { query: String, project_uuid: Option<u128>, include_completed: bool },
    /// A tool that does not exist.
    Unknown,
}

/// What a tool returns.
#[derive(Debug, Clone, PartialEq, Eq)]
pub enum ToolResult {
    /// Positions of the selected projects, and whether the limit cut the list.
    Projects { indices: Vec<usize>, truncated: bool },
    /// Positions of the selected tasks, and whether the limit cut the list.
    Tasks { indices: Vec<usize>, truncated: bool },
    /// The reason the call was refused.
    Error(String),
}

/// Whether the text holds the pattern (an empty pattern is in every text).
pub open spec fn text_contains(text: Seq<char>, pattern: Seq<char>) -> bool {
    exists|i: int| 0 <= i <= text.len() - pattern.len() && #[trigger] text.subrange(i, i + pattern.len()) == pattern
}

/// The positions `k < n` whose flag is set, in order.
pub open spec fn hits(flags: Seq<bool>, n: int) -> Seq<usize>
    decreases n,
{
    if n <= 0 || n > flags.len() {
        Seq::empty()
    } else if flags[n - 1] {
        hits(flags, n - 1).push((n - 1) as usize)
    } else {
        hits(flags, n - 1)
    }
}

/// The first positions whose flag is set, at most `limit` of them.
pub open spec fn first_hits(flags: Seq<bool>, limit: nat) -> Seq<usize> {
    let h = hits(flags, flags.len() as int);
    if h.len() <= limit { h } else { h.take(limit as int) }
}

/// Whether a project is listed for the (lowercased) query.
pub open spec fn project_matches(p: project::Model, query: Seq<char>) -> bool {
    query.len() == 0 || text_contains(lowercase_text(p.name@), query)
}

/// Whether a task is listed: not deleted, open unless completed ones are asked for, and
/// in the project where one is given.
pub open spec fn task_listed(t: task::Model, project_uuid: Option<u128>, include_completed: bool) -> bool {
    &&& !t.is_deleted
    &&& include_completed || !t.is_completed
    &&& match project_uuid {
        Some(u) => t.project_uuid == u,
        None => true,
    }
}

/// Whether a task's title or description holds the (lowercased) query.
pub open spec fn task_found(t: task::Model, query: Seq<char>) -> bool {
    text_contains(lowercase_text(t.content@), query)
        || (t.description matches Some(d) && text_contains(lowercase_text(d@), query))
}

/// Whether a cached project has the UUID.
pub open spec fn known_project(projects: Seq<project::Model>, uuid: u128) -> bool {
    exists|i: int| 0 <= i < projects.len() && (#[trigger] projects[i]).uuid == uuid
}

/// The flags of the projects listed for a query.
pub open spec fn project_flags(projects: Seq<project::Model>, query: Seq<char>) -> Seq<bool> {
    Seq::new(projects.len(), |i: int| project_matches(projects[i], query))
}

/// The flags of the tasks listed, and found where there is a query.
pub open spec fn task_flags(tasks: Seq<task::Model>, project_uuid: Option<u128>, include_completed: bool, query: Option<Seq<char>>) -> Seq<bool> {
    Seq::new(tasks.len(), |i: int| task_listed(tasks[i], project_uuid, include_completed) && match query {
        Some(q) => task_found(tasks[i], q),
        None => true,
    })
}

/// What a tool returns for a request over the cached projects and tasks: the first
/// matching items up to the limit and whether the limit was reached, or the refusal
/// of an unknown project or tool.  Queries are compared in lowercase.
pub open spec fn tool_result_spec(request: ToolRequest, projects: Seq<project::Model>, tasks: Seq<task::Model>) -> (Seq<usize>, bool, int, Seq<char>) {
    match request {
        ToolRequest::ListProjects { query } => {
            let q = match query { Some(s) => lowercase_text(s@), None => lowercase_text(Seq::empty()) };
            let sel = first_hits(project_flags(projects, q), MAX_TOOL_RESULTS as nat);
            (sel, sel.len() == MAX_TOOL_RESULTS, 0, Seq::empty())
        },
        ToolRequest::ListTasks { project_uuid, include_completed } => {
            if project_uuid matches Some(u) && !known_project(projects, u) {
                (Seq::empty(), false, 2, "Unknown project UUID"@)
            } else {
                let sel = first_hits(task_flags(tasks, project_uuid, include_completed, None), MAX_TOOL_RESULTS as nat);
                (sel, sel.len() == MAX_TOOL_RESULTS, 1, Seq::empty())
            }
        },
        ToolRequest::SearchTasks { query, project_uuid, include_completed } => {
            if project_uuid matches Some(u) && !known_project(projects, u) {
                (Seq::empty(), false, 2, "Unknown project UUID"@)
            } else {
                let sel = first_hits(task_flags(tasks, project_uuid, include_completed, Some(lowercase_text(query@))), MAX_TOOL_RESULTS as nat);
                (sel, sel.len() == MAX_TOOL_RESULTS, 1, Seq::empty())
            }
        },
        ToolRequest::Unknown => (Seq::empty(), false, 2, "Unknown read-only tool"@),
    }
}

/// The view of a tool result: the selected positions, whether the limit cut them, its
/// kind (projects 0, tasks 1, error 2) and the error text.
pub open spec fn tool_result_view(r: ToolResult) -> (Seq<usize>, bool, int, Seq<char>) {
    match r {
        ToolResult::Projects { indices, truncated } => (indices@, truncated, 0, Seq::empty()),
        ToolResult::Tasks { indices, truncated } => (indices@, truncated, 1, Seq::empty()),
        ToolResult::Error(e) => (Seq::empty(), false, 2, e@),
    }
}

/// A tool never returns more than the limit of items, and says it was cut exactly when
/// it returns that many; every returned position is a matching item, in increasing order.
pub proof fn lemma_tool_results_bounded(flags: Seq<bool>, limit: nat)
    requires
        flags.len() <= usize::MAX,
    ensures
        first_hits(flags, limit).len() <= limit,
        forall|k: int| 0 <= k < first_hits(flags, limit).len() ==> {
            let i = #[trigger] first_hits(flags, limit)[k] as int;
            0 <= i < flags.len() && flags[i]
        },
        forall|k: int, m: int| 0 <= k < m < first_hits(flags, limit).len()
            ==> first_hits(flags, limit)[k] < first_hits(flags, limit)[m],
{
    lemma_hits_members(flags, flags.len() as int);
    let h = hits(flags, flags.len() as int);
    if h.len() > limit {
        assert forall|k: int| 0 <= k < h.take(limit as int).len() implies {
            let i = #[trigger] h.take(limit as int)[k] as int;
            0 <= i < flags.len() && flags[i]
        } by {
            assert(h.take(limit as int)[k] == h[k]);
        }
        assert forall|k: int, m: int| 0 <= k < m < h.take(limit as int).len() implies h.take(limit as int)[k] < h.take(limit as int)[m] by {
            assert(h.take(limit as int)[k] == h[k]);
            assert(h.take(limit as int)[m] == h[m]);
        }
    }
}

/// The hits of a prefix are matching positions inside it, in increasing order.
proof fn lemma_hits_members(flags: Seq<bool>, n: int)
    requires
        0 <= n <= flags.len(),
        flags.len() <= usize::MAX,
    ensures
        forall|k: int| 0 <= k < hits(flags, n).len() ==> {
            let i = #[trigger] hits(flags, n)[k] as int;
            0 <= i < n && flags[i]
        },
        forall|k: int, m: int| 0 <= k < m < hits(flags, n).len() ==> hits(flags, n)[k] < hits(flags, n)[m],
    decreases n,
{
    if n > 0 {
        lemma_hits_members(flags, n - 1);
        let h = hits(flags, n - 1);
        if flags[n - 1] {
            let h2 = h.push((n - 1) as usize);
            assert(hits(flags, n) == h2);
            assert forall|k: int| 0 <= k < h2.len() implies {
                let i = #[trigger] h2[k] as int;
                0 <= i < n && flags[i]
            } by {
                if k < h.len() {
                    assert(h2[k] == h[k]);
                } else {
                    assert(h2[k] == (n - 1) as usize);
                }
            }
            assert forall|k: int, m: int| 0 <= k < m < h2.len() implies h2[k] < h2[m] by {
                assert(h2[k] == h[k]);
                let i = h[k] as int;
                assert(0 <= i < n - 1);
                if m < h.len() {
                    assert(h2[m] == h[m]);
                } else {
                    assert(h2[m] == (n - 1) as usize);
                }
            }
        }
    }
}

/// Whether the text holds the pattern.
pub fn contains_text(text: &str, pattern: &str) -> (b: bool)
    ensures
        b == text_contains(text@, pattern@),
{
    let t = chars_of(text);
    let p = chars_of(pattern);
    if p.len() > t.len() {
        return false;
    }
    if p.len() == 0 {
        assert(text@.subrange(0int, 0int + pattern@.len()) =~= pattern@);
        return true;
    }
    let tl = t.len();
    let last = tl - p.len();
    let mut i: usize = 0;
    while i <= last
        invariant
            t@ == text@,
            p@ == pattern@,
            tl == t@.len(),
            last + p@.len() == tl,
            0 < p@.len() <= t@.len(),
            i <= last + 1,
            forall|k: int| 0 <= k < i ==> #[trigger] t@.subrange(k, k + p@.len()) != p@,
        decreases last + 1 - i,
    {
        let mut j: usize = 0;
        while j < p.len() && t[i + j] == p[j]
            invariant
                i <= last,
                tl == t@.len(),
                last + p@.len() == tl,
                j <= p@.len(),
                forall|m: int| 0 <= m < j ==> t@[i + m] == p@[m],
            decreases p@.len() - j,
        {
            j = j + 1;
        }
        if j == p.len() {
            assert(t@.subrange(i as int, i + p@.len()) =~= p@);
            return true;
        }
        assert(t@.subrange(i as int, i + p@.len())[j as int] != p@[j as int]);
        i = i + 1;
    }
    proof {
        assert forall|k: int| 0 <= k <= text@.len() - pattern@.len() implies #[trigger] text@.subrange(k, k + pattern@.len()) != pattern@ by {
            assert(k < i);
        }
    }
    false
}

/// The hits of a longer prefix extend those of a shorter one.
proof fn lemma_hits_extend(flags: Seq<bool>, i: int, j: int)
    requires
        0 <= i <= j <= flags.len(),
    ensures
        hits(flags, j).len() >= hits(flags, i).len(),
        hits(flags, j).take(hits(flags, i).len() as int) == hits(flags, i),
    decreases j - i,
{
    if i < j {
        lemma_hits_extend(flags, i, j - 1);
        let a = hits(flags, j - 1);
        if flags[j - 1] {
            assert(hits(flags, j).take(hits(flags, i).len() as int) =~= a.take(hits(flags, i).len() as int));
        }
    } else {
        assert(hits(flags, j).take(hits(flags, j).len() as int) =~= hits(flags, j));
    }
}

/// The first positions whose flag is set, at most the limit of them.
fn select_first(flags: &Vec<bool>, limit: usize) -> (r: Vec<usize>)
    ensures
        r@ == first_hits(flags@, limit as nat),
{
    let mut r: Vec<usize> = Vec::new();
    let mut i: usize = 0;
    while i < flags.len()
        invariant
            i <= flags@.len(),
            r@ == (if hits(flags@, i as int).len() <= limit { hits(flags@, i as int) } else { hits(flags@, i as int).take(limit as int) }),
        decreases flags@.len() - i,
    {
        proof {
            lemma_hits_extend(flags@, i as int, i + 1);
        }
        if flags[i] && r.len() < limit {
            r.push(i);
        }
        proof {
            let h = hits(flags@, i as int);
            let h2 = hits(flags@, i + 1);
            if h.len() >= limit {
                assert(h2.take(limit as int) =~= h.take(limit as int));
            }
        }
        i = i + 1;
    }
    r
}

/// Whether a cached project has the UUID.
fn has_project(projects: &Vec<project::Model>, uuid: u128) -> (b: bool)
    ensures
        b == known_project(projects@, uuid),
{
    let mut i: usize = 0;
    while i < projects.len()
        invariant
            i <= projects@.len(),
            forall|j: int| 0 <= j < i ==> (#[trigger] projects@[j]).uuid != uuid,
        decreases projects@.len() - i,
    {
        if projects[i].uuid == uuid {
            return true;
        }
        i = i + 1;
    }
    false
}

/// Whether a task's title or description holds the lowercased query.
fn task_holds(t: &task::Model, query: &String) -> (b: bool)
    ensures
        b == task_found(*t, query@),
{
    let content = to_lowercase(t.content.as_str());
    if contains_text(content.as_str(), query.as_str()) {
        return true;
    }
    match &t.description {
        Some(d) => {
            let dl = to_lowercase(d.as_str());
            contains_text(dl.as_str(), query.as_str())
        },
        None => false,
    }
}

/// The flags of the tasks listed, and found where there is a query.
fn tasks_selected(tasks: &Vec<task::Model>, project_uuid: Option<u128>, include_completed: bool, query: Option<&String>) -> (r: Vec<bool>)
    ensures
        r@ == task_flags(tasks@, project_uuid, include_completed, match query { Some(q) => Some(q@), None => None }),
{
    let ghost q = match query { Some(q) => Some(q@), None => None::<Seq<char>> };
    let mut r: Vec<bool> = Vec::new();
    let mut i: usize = 0;
    while i < tasks.len()
        invariant
            i <= tasks@.len(),
            q == (match query { Some(q) => Some(q@), None => None::<Seq<char>> }),
            r@ =~= task_flags(tasks@, project_uuid, include_completed, q).take(i as int),
        decreases tasks@.len() - i,
    {
        let t = &tasks[i];
        let listed = !t.is_deleted && (include_completed || !t.is_completed) && match project_uuid {
            Some(u) => t.project_uuid == u,
            None => true,
        };
        let found = match query {
            Some(qs) => listed && task_holds(t, qs),
            None => listed,
        };
        r.push(found);
        proof {
            assert(r@ =~= task_flags(tasks@, project_uuid, include_completed, q).take(i + 1));
        }
        i = i + 1;
    }
    r
}

/// Runs a read-only tool over the cached projects and tasks.
pub fn run_tool(request: &ToolRequest, projects: &Vec<project::Model>, tasks: &Vec<task::Model>) -> (r: ToolResult)
    ensures
        tool_result_view(r) == tool_result_spec(*request, projects@, tasks@),
{
    match request {
        ToolRequest::ListProjects { query } => {
            let q = match query {
                Some(s) => to_lowercase(s.as_str()),
                None => to_lowercase(""),
            };
            let mut flags: Vec<bool> = Vec::new();
            let mut i: usize = 0;
            while i < projects.len()
                invariant
                    i <= projects@.len(),
                    flags@ =~= project_flags(projects@, q@).take(i as int),
                decreases projects@.len() - i,
            {
                let hit = if q.as_str().unicode_len() == 0 {
                    true
                } else {
                    let name = to_lowercase(projects[i].name.as_str());
                    contains_text(name.as_str(), q.as_str())
                };
                flags.push(hit);
                proof {
                    assert(flags@ =~= project_flags(projects@, q@).take(i + 1));
                }
                i = i + 1;
            }
            assert(project_flags(projects@, q@).take(i as int) =~= project_flags(projects@, q@));
            let indices = select_first(&flags, MAX_TOOL_RESULTS);
            let truncated = indices.len() == MAX_TOOL_RESULTS;
            proof {
                if let Some(s) = query {
                } else {
                    reveal_strlit("");
                    assert(""@ =~= Seq::<char>::empty());
                }
            }
            ToolResult::Projects { indices, truncated }
        },
        ToolRequest::ListTasks { project_uuid, include_completed } => {
            if let Some(u) = project_uuid {
                if !has_project(projects, *u) {
                    return ToolResult::Error(String::from_str("Unknown project UUID"));
                }
            }
            let flags = tasks_selected(tasks, *project_uuid, *include_completed, None);
            assert(flags@ =~= task_flags(tasks@, *project_uuid, *include_completed, None));
            let indices = select_first(&flags, MAX_TOOL_RESULTS);
            let truncated = indices.len() == MAX_TOOL_RESULTS;
            ToolResult::Tasks { indices, truncated }
        },
        ToolRequest::SearchTasks { query, project_uuid, include_completed } => {
            if let Some(u) = project_uuid {
                if !has_project(projects, *u) {
                    return ToolResult::Error(String::from_str("Unknown project UUID"));
                }
            }
            let q = to_lowercase(query.as_str());
            let flags = tasks_selected(tasks, *project_uuid, *include_completed, Some(&q));
            let indices = select_first(&flags, MAX_TOOL_RESULTS);
            let truncated = indices.len() == MAX_TOOL_RESULTS;
            ToolResult::Tasks { indices, truncated }
        },
        ToolRequest::Unknown => ToolResult::Error(String::from_str("Unknown read-only tool")),
    }
}

/// The calls already made in a proposal's tool loop, each as `name:arguments`.
pub struct ToolCallLedger {
    pub seen: Vec<String>,
}

/// The signature of a call: its name, a colon and its arguments.
pub open spec fn call_signature(name: Seq<char>, arguments: Seq<char>) -> Seq<char> {
    name + ":"@ + arguments
}

/// The texts of the calls already made.
pub open spec fn seen_texts(seen: Seq<String>) -> Set<Seq<char>> {
    Set::new(|t: Seq<char>| exists|i: int| 0 <= i < seen.len() && (#[trigger] seen[i])@ == t)
}

impl ToolCallLedger {
    /// A ledger with no calls.
    pub fn new() -> (r: Self)
        ensures
            r.seen@.len() == 0,
            seen_texts(r.seen@) == Set::<Seq<char>>::empty(),
    {
        let r = ToolCallLedger { seen: Vec::new() };
        assert(seen_texts(r.seen@) =~= Set::<Seq<char>>::empty());
        r
    }

    /// Records a call; true where it is new, false where an identical call was made
    /// before (it is then answered with an error instead of run again).
    pub fn record(&mut self, name: &str, arguments: &str) -> (fresh: bool)
        ensures
            fresh == !seen_texts(old(self).seen@).contains(call_signature(name@, arguments@)),
            seen_texts(final(self).seen@) == seen_texts(old(self).seen@).insert(call_signature(name@, arguments@)),
    {
        let mut sig = String::from_str(name);
        sig.append(":");
        sig.append(arguments);
        let ghost before = self.seen@;
        let mut i: usize = 0;
        while i < self.seen.len()
            invariant
                i <= self.seen@.len(),
                self.seen@ == before,
                sig@ == call_signature(name@, arguments@),
                forall|j: int| 0 <= j < i ==> (#[trigger] self.seen@[j])@ != sig@,
            decreases self.seen@.len() - i,
        {
            if self.seen[i] == sig {
                assert(seen_texts(before).contains(sig@));
                assert(seen_texts(before).insert(sig@) =~= seen_texts(before));
                return false;
            }
            i = i + 1;
        }
        let ghost s = sig@;
        self.seen.push(sig);
        proof {
            assert(!seen_texts(before).contains(s));
            assert forall|t: Seq<char>| seen_texts(self.seen@).contains(t) <==> seen_texts(before).insert(s).contains(t) by {
                if seen_texts(self.seen@).contains(t) {
                    let j = choose|j: int| 0 <= j < self.seen@.len() && (#[trigger] self.seen@[j])@ == t;
                    if j < before.len() {
                        assert(self.seen@[j] == before[j]);
                    }
                }
                if seen_texts(before).contains(t) {
                    let j = choose|j: int| 0 <= j < before.len() && (#[trigger] before[j])@ == t;
                    assert(self.seen@[j] == before[j]);
                }
                if t == s {
                    assert(self.seen@[before.len() as int]@ == s);
                }
            }
            assert(seen_texts(self.seen@) =~= seen_texts(before).insert(s));
        }
        true
    }
}

/// What the tool loop does after a reply: parse the proposal where the reply makes no
/// calls, else run them and ask again, unless the rounds are used up.
#[derive(Debug, Clone, Copy, PartialEq, Eq)]
pub enum ToolLoopStep {
    ParseProposal,
    RunToolsAndContinue,
    ExceededRounds,
}

/// The next step of the tool loop after the reply of round `round` (counted from 0).
pub fn tool_loop_step(round: usize, has_calls: bool) -> (r: ToolLoopStep)
    ensures
        !has_calls ==> r == ToolLoopStep::ParseProposal,
        has_calls && round < MAX_TOOL_ROUNDS ==> r == ToolLoopStep::RunToolsAndContinue,
        has_calls && round >= MAX_TOOL_ROUNDS ==> r == ToolLoopStep::ExceededRounds,
{
    if !has_calls {
        ToolLoopStep::ParseProposal
    } else if round < MAX_TOOL_ROUNDS {
        ToolLoopStep::RunToolsAndContinue
    } else {
        ToolLoopStep::ExceededRounds
    }
}

} // verus!
