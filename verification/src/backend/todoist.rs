//! The Todoist backend: how Todoist's records and sync replies become backend data,
//! and how backend requests become Todoist arguments.

use vstd::prelude::*;
use super::{BackendError, BackendLabel, BackendProject, BackendSection, BackendSyncData, BackendTask, CreateTaskArgs, UpdateTaskArgs};
use crate::decimal::{decimal, push_decimal};
use crate::ext::{char_is_whitespace, is_white_space, parse_u32, push_char, trim_start_spec, u32_from_str};
use crate::ui::components::dialogs::common::chars_of;

verus! {

/// A due date as Todoist gives it: a date, or a date-time written into `date`, and
/// optionally a separate date-time.
#[derive(Clone, Debug)]
pub struct TodoistDue {
    pub date: String,
    pub datetime: Option<String>,
    pub is_recurring: bool,
}

/// A duration as Todoist gives it.
#[derive(Clone, Debug)]
pub struct TodoistDuration {
    pub amount: u32,
    pub unit: String,
}

/// A deadline as Todoist gives it.
#[derive(Clone, Debug)]
pub struct TodoistDeadline {
    pub date: String,
}

/// A task as Todoist's REST API returns it.
#[derive(Clone, Debug)]
pub struct TodoistTask {
    pub id: String,
    pub content: String,
    pub description: String,
    pub project_id: String,
    pub section_id: Option<String>,
    pub parent_id: Option<String>,
    pub priority: i32,
    pub due: Option<TodoistDue>,
    pub duration: Option<TodoistDuration>,
    pub checked: bool,
    pub completed_at: Option<String>,
    pub labels: Vec<String>,
}

/// A project as Todoist's REST API returns it.
#[derive(Clone, Debug)]
pub struct TodoistProject {
    pub id: String,
    pub name: String,
    pub is_favorite: bool,
    pub inbox_project: bool,
    pub parent_id: Option<String>,
}

/// A label as Todoist's REST API returns it.
#[derive(Clone, Debug)]
pub struct TodoistLabel {
    pub id: String,
    pub name: String,
    pub order: Option<i32>,
    pub is_favorite: bool,
}

/// A section as Todoist's REST API returns it.
#[derive(Clone, Debug)]
pub struct TodoistSection {
    pub id: String,
    pub name: String,
    pub project_id: String,
    pub section_order: i32,
}

/// The arguments of Todoist's task creation.
#[derive(Clone, Debug)]
pub struct TodoistCreateTaskArgs {
    pub content: String,
    pub description: Option<String>,
    pub project_id: Option<String>,
    pub section_id: Option<String>,
    pub parent_id: Option<String>,
    pub priority: Option<i32>,
    pub due_date: Option<String>,
    pub due_datetime: Option<String>,
    pub labels: Option<Vec<String>>,
    pub duration: Option<u32>,
}

/// The arguments of Todoist's task update; a field left `None` is not sent.
#[derive(Clone, Debug)]
pub struct TodoistUpdateTaskArgs {
    pub content: Option<String>,
    pub description: Option<String>,
    pub priority: Option<i32>,
    pub due_string: Option<String>,
    pub due_date: Option<String>,
    pub due_datetime: Option<String>,
    pub labels: Option<Vec<String>>,
    pub duration: Option<u32>,
}

/// The Todoist backend, which talks to the service with an API token.
pub struct TodoistBackend {
    pub api_token: String,
}

/// A project in a sync reply; a deleted one is a tombstone that carries its id.
#[derive(Clone, Debug)]
pub struct SyncProject {
    pub id: String,
    pub name: String,
    pub is_favorite: bool,
    pub inbox_project: bool,
    pub child_order: i32,
    pub parent_id: Option<String>,
    pub is_deleted: bool,
}

/// A task in a sync reply.
#[derive(Clone, Debug)]
pub struct SyncTask {
    pub id: String,
    pub content: String,
    pub description: Option<String>,
    pub project_id: Option<String>,
    pub section_id: Option<String>,
    pub parent_id: Option<String>,
    pub priority: i32,
    pub child_order: i32,
    pub due: Option<TodoistDue>,
    pub deadline: Option<TodoistDeadline>,
    pub duration: Option<TodoistDuration>,
    pub checked: bool,
    pub completed_at: Option<String>,
    pub labels: Vec<String>,
    pub is_deleted: bool,
}

/// A label in a sync reply.
#[derive(Clone, Debug)]
pub struct SyncLabel {
    pub id: String,
    pub name: String,
    pub order: Option<i32>,
    pub is_favorite: bool,
    pub is_deleted: bool,
}

/// A section in a sync reply.
#[derive(Clone, Debug)]
pub struct SyncSection {
    pub id: String,
    pub name: String,
    pub project_id: Option<String>,
    pub section_order: i32,
    pub is_deleted: bool,
}

/// A reply of Todoist's sync endpoint.
#[derive(Clone, Debug)]
pub struct SyncResponse {
    pub sync_token: String,
    pub full_sync: bool,
    pub projects: Vec<SyncProject>,
    pub items: Vec<SyncTask>,
    pub labels: Vec<SyncLabel>,
    pub sections: Vec<SyncSection>,
}

/// The text of an optional string.
pub open spec fn opt_text(o: Option<String>) -> Option<Seq<char>> {
    match o {
        Some(s) => Some(s@),
        None => None,
    }
}

/// The labels of an optional label list.
pub open spec fn opt_labels(o: Option<Vec<String>>) -> Option<Seq<String>> {
    match o {
        Some(v) => Some(v@),
        None => None,
    }
}

/// The characters before the first one at which `stop` holds (all of them when there
/// is none).
pub open spec fn prefix_before(s: Seq<char>, stop: spec_fn(char) -> bool) -> Seq<char>
    decreases s.len(),
{
    if s.len() == 0 || stop(s[0]) {
        Seq::empty()
    } else {
        seq![s[0]] + prefix_before(s.drop_first(), stop)
    }
}

/// The calendar date of a due date: what comes before the first `T`.
pub open spec fn date_part(s: Seq<char>) -> Seq<char> {
    prefix_before(s, |c: char| c == 'T')
}

/// The first whitespace-separated word of a text, as std's `split_whitespace` gives it.
pub open spec fn first_word(s: Seq<char>) -> Option<Seq<char>> {
    let t = trim_start_spec(s);
    if t.len() == 0 {
        None
    } else {
        Some(prefix_before(t, |c: char| is_white_space(c)))
    }
}

/// The amount of a duration text such as `30 minute`: its first word read as a `u32`.
pub open spec fn duration_amount_of(d: Option<String>) -> Option<u32> {
    match d {
        Some(s) => match first_word(s@) {
            Some(w) => u32_from_str(w),
            None => None,
        },
        None => None,
    }
}

/// The date-time of a due date: its own date-time, else the date where it holds a time.
pub open spec fn due_datetime_spec(due: TodoistDue) -> Option<String> {
    match due.datetime {
        Some(dt) => Some(dt),
        None => if due.date@.contains('T') { Some(due.date) } else { None },
    }
}

/// The text of a duration: the amount, a space and the unit.
pub open spec fn duration_text(d: TodoistDuration) -> Seq<char> {
    decimal(d.amount as nat) + seq![' '] + d.unit@
}

/// The calendar date of an optional due date.
pub open spec fn due_date_spec(due: Option<TodoistDue>) -> Option<Seq<char>> {
    match due {
        Some(d) => Some(date_part(d.date@)),
        None => None,
    }
}

/// The date-time of an optional due date.
pub open spec fn opt_due_datetime_spec(due: Option<TodoistDue>) -> Option<String> {
    match due {
        Some(d) => due_datetime_spec(d),
        None => None,
    }
}

/// The duration text of an optional duration.
pub open spec fn opt_duration_text(d: Option<TodoistDuration>) -> Option<Seq<char>> {
    match d {
        Some(x) => Some(duration_text(x)),
        None => None,
    }
}

/// Whether a due date repeats; no due date does not.
pub open spec fn due_is_recurring(due: Option<TodoistDue>) -> bool {
    match due {
        Some(d) => d.is_recurring,
        None => false,
    }
}

/// The backend project of a Todoist project; Todoist gives no order.
pub open spec fn project_spec(p: TodoistProject) -> BackendProject {
    BackendProject {
        remote_id: p.id,
        name: p.name,
        is_favorite: p.is_favorite,
        is_inbox: p.inbox_project,
        order_index: 0,
        parent_remote_id: p.parent_id,
    }
}

/// The backend label of a Todoist label; a missing order is 0.
pub open spec fn label_spec(l: TodoistLabel) -> BackendLabel {
    BackendLabel {
        remote_id: l.id,
        name: l.name,
        order_index: match l.order {
            Some(o) => o,
            None => 0,
        },
        is_favorite: l.is_favorite,
    }
}

/// The backend section of a Todoist section.
pub open spec fn section_spec(s: TodoistSection) -> BackendSection {
    BackendSection {
        remote_id: s.id,
        name: s.name,
        project_remote_id: s.project_id,
        order_index: s.section_order,
    }
}

/// Whether `b` is the backend task of the Todoist task `t`: the fields carried over,
/// the due date split into its date and date-time, the duration written out, and the
/// task completed where Todoist marks it checked or gives a completion time.
pub open spec fn task_converted(t: TodoistTask, b: BackendTask) -> bool {
    &&& b.remote_id == t.id
    &&& b.content == t.content
    &&& b.description == Some(t.description)
    &&& b.project_remote_id == t.project_id
    &&& b.section_remote_id == t.section_id
    &&& b.parent_remote_id == t.parent_id
    &&& b.priority == t.priority
    &&& b.order_index == 0
    &&& opt_text(b.due_date) == due_date_spec(t.due)
    &&& b.due_datetime == opt_due_datetime_spec(t.due)
    &&& b.is_recurring == due_is_recurring(t.due)
    &&& b.deadline is None
    &&& opt_text(b.duration) == opt_duration_text(t.duration)
    &&& b.is_completed == (t.checked || t.completed_at is Some)
    &&& b.completed_at == t.completed_at
    &&& b.labels@ == t.labels@
}

/// The deadline date of an optional deadline.
pub open spec fn deadline_date(d: Option<TodoistDeadline>) -> Option<String> {
    match d {
        Some(x) => Some(x.date),
        None => None,
    }
}

/// Whether `b` is the backend task of the sync task `t`, whose project is known: as
/// for a REST task, but with the description, order and deadline that sync gives.
pub open spec fn sync_task_converted(t: SyncTask, b: BackendTask) -> bool {
    &&& t.project_id is Some
    &&& b.remote_id == t.id
    &&& b.content == t.content
    &&& b.description == t.description
    &&& b.project_remote_id == t.project_id->0
    &&& b.section_remote_id == t.section_id
    &&& b.parent_remote_id == t.parent_id
    &&& b.priority == t.priority
    &&& b.order_index == t.child_order
    &&& opt_text(b.due_date) == due_date_spec(t.due)
    &&& b.due_datetime == opt_due_datetime_spec(t.due)
    &&& b.is_recurring == due_is_recurring(t.due)
    &&& b.deadline == deadline_date(t.deadline)
    &&& opt_text(b.duration) == opt_duration_text(t.duration)
    &&& b.is_completed == (t.checked || t.completed_at is Some)
    &&& b.completed_at == t.completed_at
    &&& b.labels@ == t.labels@
}

/// The text of the error for a task without a project.
pub open spec fn task_without_project_text(id: Seq<char>) -> Seq<char> {
    "Task "@ + id + " has no project_id"@
}

/// The text of the error for a section without a project.
pub open spec fn section_without_project_text(id: Seq<char>) -> Seq<char> {
    "Section "@ + id + " has no project_id"@
}

/// Whether an error is invalid data with the given text.
pub open spec fn invalid_data_with(e: BackendError, text: Seq<char>) -> bool {
    e matches BackendError::InvalidData(m) && m@ == text
}

/// A live task that names no project.
pub open spec fn orphan_task(t: SyncTask) -> bool {
    !t.is_deleted && t.project_id is None
}

/// A live section that names no project.
pub open spec fn orphan_section(s: SyncSection) -> bool {
    !s.is_deleted && s.project_id is None
}

/// Whether `i` is the first position in the list of a live task without a project.
pub open spec fn first_orphan_task(items: Seq<SyncTask>, i: int) -> bool {
    &&& 0 <= i < items.len()
    &&& orphan_task(items[i])
    &&& forall|j: int| 0 <= j < i ==> !orphan_task(#[trigger] items[j])
}

/// Whether `i` is the first position in the list of a live section without a project.
pub open spec fn first_orphan_section(sections: Seq<SyncSection>, i: int) -> bool {
    &&& 0 <= i < sections.len()
    &&& orphan_section(sections[i])
    &&& forall|j: int| 0 <= j < i ==> !orphan_section(#[trigger] sections[j])
}

/// The ids of the deleted projects, in order.
pub open spec fn deleted_project_ids(s: Seq<SyncProject>) -> Seq<String>
    decreases s.len(),
{
    if s.len() == 0 {
        Seq::empty()
    } else if s.last().is_deleted {
        deleted_project_ids(s.drop_last()).push(s.last().id)
    } else {
        deleted_project_ids(s.drop_last())
    }
}

/// The backend projects of the live projects, in order.
pub open spec fn live_projects(s: Seq<SyncProject>) -> Seq<BackendProject>
    decreases s.len(),
{
    if s.len() == 0 {
        Seq::empty()
    } else if s.last().is_deleted {
        live_projects(s.drop_last())
    } else {
        live_projects(s.drop_last()).push(sync_project_spec(s.last()))
    }
}

/// The ids of the deleted tasks, in order.
pub open spec fn deleted_task_ids(s: Seq<SyncTask>) -> Seq<String>
    decreases s.len(),
{
    if s.len() == 0 {
        Seq::empty()
    } else if s.last().is_deleted {
        deleted_task_ids(s.drop_last()).push(s.last().id)
    } else {
        deleted_task_ids(s.drop_last())
    }
}

/// The live tasks, in order.
pub open spec fn live_tasks(s: Seq<SyncTask>) -> Seq<SyncTask>
    decreases s.len(),
{
    if s.len() == 0 {
        Seq::empty()
    } else if s.last().is_deleted {
        live_tasks(s.drop_last())
    } else {
        live_tasks(s.drop_last()).push(s.last())
    }
}

/// The ids of the deleted labels, in order.
pub open spec fn deleted_label_ids(s: Seq<SyncLabel>) -> Seq<String>
    decreases s.len(),
{
    if s.len() == 0 {
        Seq::empty()
    } else if s.last().is_deleted {
        deleted_label_ids(s.drop_last()).push(s.last().id)
    } else {
        deleted_label_ids(s.drop_last())
    }
}

/// The backend labels of the live labels, in order.
pub open spec fn live_labels(s: Seq<SyncLabel>) -> Seq<BackendLabel>
    decreases s.len(),
{
    if s.len() == 0 {
        Seq::empty()
    } else if s.last().is_deleted {
        live_labels(s.drop_last())
    } else {
        live_labels(s.drop_last()).push(sync_label_spec(s.last()))
    }
}

/// The ids of the deleted sections, in order.
pub open spec fn deleted_section_ids(s: Seq<SyncSection>) -> Seq<String>
    decreases s.len(),
{
    if s.len() == 0 {
        Seq::empty()
    } else if s.last().is_deleted {
        deleted_section_ids(s.drop_last()).push(s.last().id)
    } else {
        deleted_section_ids(s.drop_last())
    }
}

/// The live sections, in order.
pub open spec fn live_sections(s: Seq<SyncSection>) -> Seq<SyncSection>
    decreases s.len(),
{
    if s.len() == 0 {
        Seq::empty()
    } else if s.last().is_deleted {
        live_sections(s.drop_last())
    } else {
        live_sections(s.drop_last()).push(s.last())
    }
}

/// The backend project of a live sync project.
pub open spec fn sync_project_spec(p: SyncProject) -> BackendProject {
    BackendProject {
        remote_id: p.id,
        name: p.name,
        is_favorite: p.is_favorite,
        is_inbox: p.inbox_project,
        order_index: p.child_order,
        parent_remote_id: p.parent_id,
    }
}

/// The backend label of a live sync label; a missing order is 0.
pub open spec fn sync_label_spec(l: SyncLabel) -> BackendLabel {
    BackendLabel {
        remote_id: l.id,
        name: l.name,
        order_index: match l.order {
            Some(o) => o,
            None => 0,
        },
        is_favorite: l.is_favorite,
    }
}

/// Whether `b` is the backend section of the live sync section `s`, whose project is known.
pub open spec fn sync_section_converted(s: SyncSection, b: BackendSection) -> bool {
    &&& s.project_id is Some
    &&& b.remote_id == s.id
    &&& b.name == s.name
    &&& b.project_remote_id == s.project_id->0
    &&& b.order_index == s.section_order
}

/// Whether the backend data is what a sync reply without orphans gives: its token and
/// kind, the live records converted and the deleted ones listed by id, each in the
/// reply's order.
pub open spec fn sync_data_of(r: SyncResponse, d: BackendSyncData) -> bool {
    &&& d.full_sync == r.full_sync
    &&& d.sync_token == Some(r.sync_token)
    &&& d.projects@ == live_projects(r.projects@)
    &&& d.deleted_project_ids@ == deleted_project_ids(r.projects@)
    &&& d.tasks@.len() == live_tasks(r.items@).len()
    &&& forall|i: int| 0 <= i < d.tasks@.len() ==> sync_task_converted(#[trigger] live_tasks(r.items@)[i], d.tasks@[i])
    &&& d.deleted_task_ids@ == deleted_task_ids(r.items@)
    &&& d.labels@ == live_labels(r.labels@)
    &&& d.deleted_label_ids@ == deleted_label_ids(r.labels@)
    &&& d.sections@.len() == live_sections(r.sections@).len()
    &&& forall|i: int| 0 <= i < d.sections@.len() ==> sync_section_converted(#[trigger] live_sections(r.sections@)[i], d.sections@[i])
    &&& d.deleted_section_ids@ == deleted_section_ids(r.sections@)
}

/// Stopping at the first character where `stop` holds gives the characters before it.
proof fn lemma_prefix_before(s: Seq<char>, stop: spec_fn(char) -> bool, k: int)
    requires
        0 <= k <= s.len(),
        forall|j: int| 0 <= j < k ==> !stop(#[trigger] s[j]),
        k == s.len() || stop(s[k]),
    ensures
        prefix_before(s, stop) == s.take(k),
    decreases k,
{
    if k > 0 {
        let r = s.drop_first();
        assert forall|j: int| 0 <= j < k - 1 implies !stop(#[trigger] r[j]) by {
            assert(r[j] == s[j + 1]);
        }
        if k < s.len() {
            assert(r[k - 1] == s[k]);
        }
        lemma_prefix_before(r, stop, k - 1);
        assert(seq![s[0]] + r.take(k - 1) =~= s.take(k));
    } else {
        assert(s.take(0) =~= Seq::<char>::empty());
    }
}

/// A due date without a time is its own calendar date, and gives no date-time of its own.
pub proof fn lemma_plain_date(due: TodoistDue)
    requires
        !due.date@.contains('T'),
        due.datetime is None,
    ensures
        date_part(due.date@) == due.date@,
        due_datetime_spec(due) is None,
{
    let s = due.date@;
    assert forall|j: int| 0 <= j < s.len() implies !((|c: char| c == 'T')(#[trigger] s[j])) by {
        if s[j] == 'T' {
            assert(s.contains('T'));
        }
    }
    lemma_prefix_before(s, |c: char| c == 'T', s.len() as int);
    assert(s.take(s.len() as int) =~= s);
}

/// Skipping the leading whitespace characters gives the rest of the text.
proof fn lemma_trim_start(s: Seq<char>, k: int)
    requires
        0 <= k <= s.len(),
        forall|j: int| 0 <= j < k ==> is_white_space(#[trigger] s[j]),
        k == s.len() || !is_white_space(s[k]),
    ensures
        trim_start_spec(s) == s.skip(k),
    decreases k,
{
    if k > 0 {
        let r = s.drop_first();
        assert forall|j: int| 0 <= j < k - 1 implies is_white_space(#[trigger] r[j]) by {
            assert(r[j] == s[j + 1]);
        }
        if k < s.len() {
            assert(r[k - 1] == s[k]);
        }
        lemma_trim_start(r, k - 1);
        assert(r.skip(k - 1) =~= s.skip(k));
    } else {
        assert(s.skip(0) =~= s);
    }
}

/// The text of the characters `chars[from..to]`.
fn text_of_range(chars: &Vec<char>, from: usize, to: usize) -> (s: String)
    requires
        from <= to <= chars@.len(),
    ensures
        s@ == chars@.subrange(from as int, to as int),
{
    let mut s = String::new();
    let mut i = from;
    while i < to
        invariant
            from <= i <= to <= chars@.len(),
            s@ == chars@.subrange(from as int, i as int),
        decreases to - i,
    {
        push_char(&mut s, chars[i]);
        proof {
            assert(chars@.subrange(from as int, i + 1) =~= chars@.subrange(from as int, i as int).push(chars@[i as int]));
        }
        i = i + 1;
    }
    s
}

/// The position of the first `T` at or after `from`, or the length where there is none.
fn find_t(chars: &Vec<char>, from: usize) -> (k: usize)
    requires
        from <= chars@.len(),
    ensures
        from <= k <= chars@.len(),
        forall|j: int| from <= j < k ==> chars@[j] != 'T',
        k == chars@.len() || chars@[k as int] == 'T',
{
    let mut k = from;
    while k < chars.len() && chars[k] != 'T'
        invariant
            from <= k <= chars@.len(),
            forall|j: int| from <= j < k ==> chars@[j] != 'T',
        decreases chars@.len() - k,
    {
        k = k + 1;
    }
    k
}

/// The calendar date of a due date: the text before its first `T`.
pub fn date_part_text(date: &str) -> (r: String)
    ensures
        r@ == date_part(date@),
{
    let chars = chars_of(date);
    let k = find_t(&chars, 0);
    proof {
        lemma_prefix_before(chars@, |c: char| c == 'T', k as int);
        assert(chars@.subrange(0, k as int) =~= chars@.take(k as int));
    }
    text_of_range(&chars, 0, k)
}

/// Whether a text holds the character `T`.
fn has_t(text: &str) -> (b: bool)
    ensures
        b == text@.contains('T'),
{
    let chars = chars_of(text);
    let k = find_t(&chars, 0);
    if k < chars.len() {
        assert(text@[k as int] == 'T');
        true
    } else {
        false
    }
}

/// The first whitespace-separated word of a text, as std's `split_whitespace` gives it.
pub fn first_word_text(text: &str) -> (r: Option<String>)
    ensures
        opt_text(r) == first_word(text@),
{
    let chars = chars_of(text);
    let mut a: usize = 0;
    while a < chars.len() && char_is_whitespace(chars[a])
        invariant
            a <= chars@.len(),
            forall|j: int| 0 <= j < a ==> is_white_space(#[trigger] chars@[j]),
        decreases chars@.len() - a,
    {
        a = a + 1;
    }
    proof {
        lemma_trim_start(chars@, a as int);
    }
    if a == chars.len() {
        return None;
    }
    let mut b: usize = a;
    while b < chars.len() && !char_is_whitespace(chars[b])
        invariant
            a <= b <= chars@.len(),
            forall|j: int| a <= j < b ==> !is_white_space(#[trigger] chars@[j]),
        decreases chars@.len() - b,
    {
        b = b + 1;
    }
    proof {
        let t = chars@.skip(a as int);
        assert forall|j: int| 0 <= j < b - a implies !is_white_space(#[trigger] t[j]) by {
            assert(t[j] == chars@[a + j]);
        }
        if b < chars.len() {
            assert(t[b - a] == chars@[b as int]);
        }
        lemma_prefix_before(t, |c: char| is_white_space(c), (b - a) as int);
        assert(t.take((b - a) as int) =~= chars@.subrange(a as int, b as int));
    }
    Some(text_of_range(&chars, a, b))
}

/// The amount of a duration text such as `30 minute`: its first word read as a `u32`;
/// `None` where there is no text, no word, or the word is no such number.
pub fn duration_amount(duration: &Option<String>) -> (r: Option<u32>)
    ensures
        r == duration_amount_of(*duration),
{
    match duration {
        Some(d) => match first_word_text(d.as_str()) {
            Some(w) => parse_u32(w.as_str()),
            None => None,
        },
        None => None,
    }
}

/// The date-time of a due date: its own date-time, else the date where it holds a `T`.
pub fn due_datetime_of(due: &TodoistDue) -> (r: Option<String>)
    ensures
        r == due_datetime_spec(*due),
{
    match &due.datetime {
        Some(dt) => Some(dt.clone()),
        None => if has_t(due.date.as_str()) { Some(due.date.clone()) } else { None },
    }
}

/// The text of a duration: the amount, a space and the unit.
pub fn duration_text_of(d: &TodoistDuration) -> (s: String)
    ensures
        s@ == duration_text(*d),
{
    let mut s = String::new();
    push_decimal(&mut s, d.amount as u64);
    push_char(&mut s, ' ');
    s.append(d.unit.as_str());
    assert(s@ =~= duration_text(*d));
    s
}

/// A copy of a list of strings.
pub fn copy_strings(v: &Vec<String>) -> (r: Vec<String>)
    ensures
        r@ == v@,
{
    let mut out: Vec<String> = Vec::new();
    let mut i: usize = 0;
    while i < v.len()
        invariant
            i <= v@.len(),
            out@ == v@.take(i as int),
        decreases v@.len() - i,
    {
        out.push(v[i].clone());
        proof {
            assert(v@.take(i + 1) =~= v@.take(i as int).push(v@[i as int]));
        }
        i = i + 1;
    }
    assert(v@.take(i as int) =~= v@);
    out
}

/// A copy of an optional string.
fn copy_text(o: &Option<String>) -> (r: Option<String>)
    ensures
        r == *o,
{
    match o {
        Some(s) => Some(s.clone()),
        None => None,
    }
}

impl TodoistBackend {
    /// A backend that talks to Todoist with the API token.
    pub fn new(api_token: String) -> (r: Self)
        ensures
            r.api_token == api_token,
    {
        TodoistBackend { api_token }
    }

    /// The backend project of a Todoist project.
    pub fn project_to_backend(api_project: &TodoistProject) -> (r: BackendProject)
        ensures
            r == project_spec(*api_project),
    {
        BackendProject {
            remote_id: api_project.id.clone(),
            name: api_project.name.clone(),
            is_favorite: api_project.is_favorite,
            is_inbox: api_project.inbox_project,
            order_index: 0,
            parent_remote_id: copy_text(&api_project.parent_id),
        }
    }

    /// The backend task of a Todoist task.
    pub fn task_to_backend(api_task: &TodoistTask) -> (r: BackendTask)
        ensures
            task_converted(*api_task, r),
    {
        let (due_date, due_datetime, is_recurring) = match &api_task.due {
            Some(due) => (Some(date_part_text(due.date.as_str())), due_datetime_of(due), due.is_recurring),
            None => (None, None, false),
        };
        let duration = match &api_task.duration {
            Some(d) => Some(duration_text_of(d)),
            None => None,
        };
        BackendTask {
            remote_id: api_task.id.clone(),
            content: api_task.content.clone(),
            description: Some(api_task.description.clone()),
            project_remote_id: api_task.project_id.clone(),
            section_remote_id: copy_text(&api_task.section_id),
            parent_remote_id: copy_text(&api_task.parent_id),
            priority: api_task.priority,
            order_index: 0,
            due_date,
            due_datetime,
            is_recurring,
            deadline: None,
            duration,
            is_completed: api_task.checked || api_task.completed_at.is_some(),
            completed_at: copy_text(&api_task.completed_at),
            labels: copy_strings(&api_task.labels),
        }
    }

    /// The backend label of a Todoist label.
    pub fn label_to_backend(api_label: &TodoistLabel) -> (r: BackendLabel)
        ensures
            r == label_spec(*api_label),
    {
        BackendLabel {
            remote_id: api_label.id.clone(),
            name: api_label.name.clone(),
            order_index: match api_label.order {
                Some(o) => o,
                None => 0,
            },
            is_favorite: api_label.is_favorite,
        }
    }

    /// The backend section of a Todoist section.
    pub fn section_to_backend(api_section: &TodoistSection) -> (r: BackendSection)
        ensures
            r == section_spec(*api_section),
    {
        BackendSection {
            remote_id: api_section.id.clone(),
            name: api_section.name.clone(),
            project_remote_id: api_section.project_id.clone(),
            order_index: api_section.section_order,
        }
    }

    /// Todoist's creation arguments for a task: the fields carried over, the labels
    /// always sent, and the duration sent as the amount of its text.  A task for the
    /// inbox has no project.
    pub fn task_create_args_to_todoist(args: CreateTaskArgs) -> (r: TodoistCreateTaskArgs)
        ensures
            r.content == args.content,
            r.description == args.description,
            r.project_id == args.project_remote_id,
            r.section_id == args.section_remote_id,
            r.parent_id == args.parent_remote_id,
            r.priority == args.priority,
            r.due_date == args.due_date,
            r.due_datetime == args.due_datetime,
            r.labels == Some(args.labels),
            r.duration == duration_amount_of(args.duration),
    {
        let duration = duration_amount(&args.duration);
        TodoistCreateTaskArgs {
            content: args.content,
            description: args.description,
            project_id: args.project_remote_id,
            section_id: args.section_remote_id,
            parent_id: args.parent_remote_id,
            priority: args.priority,
            due_date: args.due_date,
            due_datetime: args.due_datetime,
            labels: Some(args.labels),
            duration,
        }
    }
}

impl TodoistUpdateTaskArgs {
    /// Whether the arguments change anything: some field is set.
    pub fn has_updates(&self) -> (b: bool)
        ensures
            b == (self.content is Some || self.description is Some || self.priority is Some
                || self.due_string is Some || self.due_date is Some || self.due_datetime is Some
                || self.labels is Some || self.duration is Some),
    {
        self.content.is_some() || self.description.is_some() || self.priority.is_some()
            || self.due_string.is_some() || self.due_date.is_some() || self.due_datetime.is_some()
            || self.labels.is_some() || self.duration.is_some()
    }
}

/// A copy of an optional list of strings.
fn copy_opt_strings(o: &Option<Vec<String>>) -> (r: Option<Vec<String>>)
    ensures
        opt_labels(r) == opt_labels(*o),
{
    match o {
        Some(v) => Some(copy_strings(v)),
        None => None,
    }
}

/// The text `prefix`, then `id`, then `suffix`.
fn framed_text(prefix: &str, id: &str, suffix: &str) -> (s: String)
    ensures
        s@ == prefix@ + id@ + suffix@,
{
    let mut s = String::from_str(prefix);
    s.append(id);
    s.append(suffix);
    s
}

/// The backend task of a sync task, or invalid data where the task names no project.
fn convert_sync_task(task: &SyncTask) -> (r: Result<BackendTask, BackendError>)
    ensures
        r is Err <==> task.project_id is None,
        r matches Ok(b) ==> sync_task_converted(*task, b),
        r matches Err(e) ==> invalid_data_with(e, task_without_project_text(task.id@)),
{
    let project_remote_id = match &task.project_id {
        Some(p) => p.clone(),
        None => {
            return Err(BackendError::InvalidData(framed_text("Task ", task.id.as_str(), " has no project_id")));
        },
    };
    let (due_date, due_datetime, is_recurring) = match &task.due {
        Some(due) => (Some(date_part_text(due.date.as_str())), due_datetime_of(due), due.is_recurring),
        None => (None, None, false),
    };
    let duration = match &task.duration {
        Some(d) => Some(duration_text_of(d)),
        None => None,
    };
    let deadline = match &task.deadline {
        Some(d) => Some(d.date.clone()),
        None => None,
    };
    Ok(BackendTask {
        remote_id: task.id.clone(),
        content: task.content.clone(),
        description: copy_text(&task.description),
        project_remote_id,
        section_remote_id: copy_text(&task.section_id),
        parent_remote_id: copy_text(&task.parent_id),
        priority: task.priority,
        order_index: task.child_order,
        due_date,
        due_datetime,
        is_recurring,
        deadline,
        duration,
        is_completed: task.checked || task.completed_at.is_some(),
        completed_at: copy_text(&task.completed_at),
        labels: copy_strings(&task.labels),
    })
}

impl TodoistBackend {
    /// Todoist's update arguments for a task: the fields carried over, a cleared due date
    /// sent as the due string `no date`, and the duration sent as the amount of its text.
    pub fn task_update_args_to_todoist(args: &UpdateTaskArgs) -> (r: TodoistUpdateTaskArgs)
        ensures
            r.content == args.content,
            r.description == args.description,
            r.priority == args.priority,
            args.clear_due_date ==> opt_text(r.due_string) == Some("no date"@),
            !args.clear_due_date ==> r.due_string is None,
            r.due_date == args.due_date,
            r.due_datetime == args.due_datetime,
            opt_labels(r.labels) == opt_labels(args.labels),
            r.duration == duration_amount_of(args.duration),
    {
        TodoistUpdateTaskArgs {
            content: copy_text(&args.content),
            description: copy_text(&args.description),
            priority: args.priority,
            due_string: if args.clear_due_date { Some(String::from_str("no date")) } else { None },
            due_date: copy_text(&args.due_date),
            due_datetime: copy_text(&args.due_datetime),
            labels: copy_opt_strings(&args.labels),
            duration: duration_amount(&args.duration),
        }
    }

    /// The backend task of a sync task; a task that names no project is invalid data.
    pub fn sync_task_to_backend(task: SyncTask) -> (r: Result<BackendTask, BackendError>)
        ensures
            r is Err <==> task.project_id is None,
            r matches Ok(b) ==> sync_task_converted(task, b),
            r matches Err(e) ==> invalid_data_with(e, task_without_project_text(task.id@)),
    {
        convert_sync_task(&task)
    }
}

/// The backend changes of a sync reply: live records converted and deleted ones listed
/// by id, in the reply's order.  The first live task without a project, else the first
/// live section without one, makes the whole reply invalid data.
pub fn sync_data_from_response(response: &SyncResponse) -> (r: Result<BackendSyncData, BackendError>)
    ensures
        r is Ok <==> (forall|i: int| 0 <= i < response.items@.len() ==> !orphan_task(#[trigger] response.items@[i]))
            && (forall|i: int| 0 <= i < response.sections@.len() ==> !orphan_section(#[trigger] response.sections@[i])),
        r matches Ok(d) ==> sync_data_of(*response, d),
        r matches Err(e) ==> (exists|i: int| first_orphan_task(response.items@, i)
            && invalid_data_with(e, task_without_project_text(#[trigger] response.items@[i].id@)))
            || ((forall|i: int| 0 <= i < response.items@.len() ==> !orphan_task(#[trigger] response.items@[i]))
                && exists|i: int| first_orphan_section(response.sections@, i)
                && invalid_data_with(e, section_without_project_text(#[trigger] response.sections@[i].id@))),
{
    let ghost ps = response.projects@;
    let mut projects: Vec<BackendProject> = Vec::new();
    let mut deleted_projects: Vec<String> = Vec::new();
    let mut i: usize = 0;
    while i < response.projects.len()
        invariant
            ps == response.projects@,
            i <= ps.len(),
            projects@ == live_projects(ps.take(i as int)),
            deleted_projects@ == deleted_project_ids(ps.take(i as int)),
        decreases ps.len() - i,
    {
        let p = &response.projects[i];
        proof {
            assert(ps.take(i + 1).drop_last() =~= ps.take(i as int));
        }
        if p.is_deleted {
            deleted_projects.push(p.id.clone());
        } else {
            projects.push(BackendProject {
                remote_id: p.id.clone(),
                name: p.name.clone(),
                is_favorite: p.is_favorite,
                is_inbox: p.inbox_project,
                order_index: p.child_order,
                parent_remote_id: copy_text(&p.parent_id),
            });
        }
        i = i + 1;
    }
    assert(ps.take(ps.len() as int) =~= ps);

    let ghost ts = response.items@;
    let mut tasks: Vec<BackendTask> = Vec::new();
    let mut deleted_tasks: Vec<String> = Vec::new();
    let mut i: usize = 0;
    while i < response.items.len()
        invariant
            ts == response.items@,
            i <= ts.len(),
            tasks@.len() == live_tasks(ts.take(i as int)).len(),
            forall|k: int| 0 <= k < tasks@.len() ==> sync_task_converted(#[trigger] live_tasks(ts.take(i as int))[k], tasks@[k]),
            deleted_tasks@ == deleted_task_ids(ts.take(i as int)),
            forall|j: int| 0 <= j < i ==> !orphan_task(#[trigger] ts[j]),
        decreases ts.len() - i,
    {
        let t = &response.items[i];
        proof {
            assert(ts.take(i + 1).drop_last() =~= ts.take(i as int));
        }
        if t.is_deleted {
            deleted_tasks.push(t.id.clone());
        } else {
            match convert_sync_task(t) {
                Ok(b) => {
                    let ghost before = tasks@;
                    tasks.push(b);
                    proof {
                        let lt = live_tasks(ts.take(i + 1));
                        assert(lt == live_tasks(ts.take(i as int)).push(ts[i as int]));
                        assert forall|k: int| 0 <= k < tasks@.len() implies sync_task_converted(#[trigger] lt[k], tasks@[k]) by {
                            if k < before.len() {
                                assert(tasks@[k] == before[k]);
                            }
                        }
                    }
                },
                Err(e) => {
                    proof {
                        assert(first_orphan_task(ts, i as int));
                    }
                    return Err(e);
                },
            }
        }
        i = i + 1;
    }
    assert(ts.take(ts.len() as int) =~= ts);

    let ghost ls = response.labels@;
    let mut labels: Vec<BackendLabel> = Vec::new();
    let mut deleted_labels: Vec<String> = Vec::new();
    let mut i: usize = 0;
    while i < response.labels.len()
        invariant
            ls == response.labels@,
            i <= ls.len(),
            labels@ == live_labels(ls.take(i as int)),
            deleted_labels@ == deleted_label_ids(ls.take(i as int)),
        decreases ls.len() - i,
    {
        let l = &response.labels[i];
        proof {
            assert(ls.take(i + 1).drop_last() =~= ls.take(i as int));
        }
        if l.is_deleted {
            deleted_labels.push(l.id.clone());
        } else {
            labels.push(BackendLabel {
                remote_id: l.id.clone(),
                name: l.name.clone(),
                order_index: match l.order {
                    Some(o) => o,
                    None => 0,
                },
                is_favorite: l.is_favorite,
            });
        }
        i = i + 1;
    }
    assert(ls.take(ls.len() as int) =~= ls);

    let ghost ss = response.sections@;
    let mut sections: Vec<BackendSection> = Vec::new();
    let mut deleted_sections: Vec<String> = Vec::new();
    let mut i: usize = 0;
    while i < response.sections.len()
        invariant
            ss == response.sections@,
            ts == response.items@,
            forall|j: int| 0 <= j < ts.len() ==> !orphan_task(#[trigger] ts[j]),
            i <= ss.len(),
            sections@.len() == live_sections(ss.take(i as int)).len(),
            forall|k: int| 0 <= k < sections@.len() ==> sync_section_converted(#[trigger] live_sections(ss.take(i as int))[k], sections@[k]),
            deleted_sections@ == deleted_section_ids(ss.take(i as int)),
            forall|j: int| 0 <= j < i ==> !orphan_section(#[trigger] ss[j]),
        decreases ss.len() - i,
    {
        let s = &response.sections[i];
        proof {
            assert(ss.take(i + 1).drop_last() =~= ss.take(i as int));
        }
        if s.is_deleted {
            deleted_sections.push(s.id.clone());
        } else {
            match &s.project_id {
                Some(pid) => {
                    let ghost before = sections@;
                    sections.push(BackendSection {
                        remote_id: s.id.clone(),
                        name: s.name.clone(),
                        project_remote_id: pid.clone(),
                        order_index: s.section_order,
                    });
                    proof {
                        let lsec = live_sections(ss.take(i + 1));
                        assert(lsec == live_sections(ss.take(i as int)).push(ss[i as int]));
                        assert forall|k: int| 0 <= k < sections@.len() implies sync_section_converted(#[trigger] lsec[k], sections@[k]) by {
                            if k < before.len() {
                                assert(sections@[k] == before[k]);
                            }
                        }
                    }
                },
                None => {
                    let e = BackendError::InvalidData(framed_text("Section ", s.id.as_str(), " has no project_id"));
                    proof {
                        assert(first_orphan_section(ss, i as int));
                    }
                    return Err(e);
                },
            }
        }
        i = i + 1;
    }
    assert(ss.take(ss.len() as int) =~= ss);

    Ok(BackendSyncData {
        full_sync: response.full_sync,
        sync_token: Some(response.sync_token.clone()),
        projects,
        tasks,
        labels,
        sections,
        deleted_project_ids: deleted_projects,
        deleted_task_ids: deleted_tasks,
        deleted_label_ids: deleted_labels,
        deleted_section_ids: deleted_sections,
    })
}

/// The changes of a full sync with today's completed tasks put before the open ones;
/// everything else is kept.
pub fn with_completed_tasks(completed: Vec<BackendTask>, data: BackendSyncData) -> (r: BackendSyncData)
    ensures
        r.tasks@ == completed@ + data.tasks@,
        r.full_sync == data.full_sync,
        r.sync_token == data.sync_token,
        r.projects == data.projects,
        r.labels == data.labels,
        r.sections == data.sections,
        r.deleted_project_ids == data.deleted_project_ids,
        r.deleted_task_ids == data.deleted_task_ids,
        r.deleted_label_ids == data.deleted_label_ids,
        r.deleted_section_ids == data.deleted_section_ids,
{
    let mut data = data;
    let mut tasks = completed;
    tasks.append(&mut data.tasks);
    data.tasks = tasks;
    data
}

} // verus!
