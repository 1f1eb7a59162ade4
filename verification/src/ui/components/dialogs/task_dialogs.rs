//! What the task-management dialog shows, apart from drawing it: the wrapped action
//! list and how far it scrolls, and the texts of its notices and report.

use vstd::prelude::*;
use crate::decimal::{decimal, push_decimal};
use crate::ui::app_core::actions::{action_description, count_enabled, enabled_count, AiExecutionReport, AiProposedAction, AiTaskProposal};
use crate::ui::components::dialogs::common::{chars_of, input_layout_spec, multiline_input_layout};
use crate::entities::task;
use crate::priority::{priority_label, priority_of, TaskPriority};

verus! {

/// An action as the list shows it: a check box, then its description.
pub open spec fn marked_action_text(a: AiProposedAction) -> Seq<char> {
    (if a.enabled { "[x] "@ } else { "[ ] "@ }) + action_description(a.kind)
}

/// The number of line breaks in a text.
pub open spec fn newline_count(s: Seq<char>) -> nat
    decreases s.len(),
{
    if s.len() == 0 {
        0
    } else {
        newline_count(s.drop_last()) + (if s.last() == '\n' { 1nat } else { 0nat })
    }
}

/// The number of rows of a text: one more than its line breaks.
pub open spec fn row_count(s: Seq<char>) -> nat {
    newline_count(s) + 1
}

/// An action's text wrapped to the list's width.
pub open spec fn wrapped_action(a: AiProposedAction, width: int) -> Seq<char> {
    input_layout_spec(marked_action_text(a), marked_action_text(a).len() as int, width).0
}

/// The rows taken by the first `k` actions of the list.
pub open spec fn rows_before(actions: Seq<AiProposedAction>, width: int, k: int) -> nat
    decreases k,
{
    if k <= 0 || k > actions.len() {
        0
    } else {
        rows_before(actions, width, k - 1) + row_count(wrapped_action(actions[k - 1], width))
    }
}

/// The first row shown of the action list: enough to show the whole selected action
/// (its first row where it is taller than the view), never past the end.
pub open spec fn row_scroll_spec(start: int, height: int, viewport: int, total: int) -> int {
    let max_scroll = if total > viewport { total - viewport } else { 0 };
    let end = start + height;
    let wanted = if height >= viewport { start } else if end > viewport { end - viewport } else { 0 };
    if wanted < max_scroll { wanted } else { max_scroll }
}

/// The layout of the proposed-action list.
pub struct ActionListView {
    /// Each action's wrapped text, in order.
    pub blocks: Vec<String>,
    /// The first row of the selected action.
    pub selected_start: usize,
    /// The rows of the selected action.
    pub selected_height: usize,
    /// The rows of the whole list.
    pub total_rows: usize,
    /// The first row shown.
    pub row_scroll: usize,
}

/// The rows of the first actions never exceed those of more actions.
proof fn lemma_rows_before_monotone(actions: Seq<AiProposedAction>, width: int, j: int, k: int)
    requires
        0 <= j <= k <= actions.len(),
    ensures
        rows_before(actions, width, j) <= rows_before(actions, width, k),
    decreases k - j,
{
    if j < k {
        lemma_rows_before_monotone(actions, width, j, k - 1);
    }
}

/// A prefix of a text has no more line breaks than the text.
proof fn lemma_newline_count_prefix(s: Seq<char>, j: int)
    requires
        0 <= j <= s.len(),
    ensures
        newline_count(s.take(j)) <= newline_count(s),
    decreases s.len(),
{
    if j == s.len() {
        assert(s.take(j) =~= s);
    } else {
        lemma_newline_count_prefix(s.drop_last(), j);
        assert(s.drop_last().take(j) =~= s.take(j));
    }
}

/// The number of rows of a text: one more than its line breaks.
pub fn rows_of(text: &str) -> (n: usize)
    requires
        row_count(text@) <= usize::MAX,
    ensures
        n == row_count(text@),
{
    let chars = chars_of(text);
    let mut n: usize = 1;
    let mut i: usize = 0;
    while i < chars.len()
        invariant
            i <= chars@.len(),
            chars@ == text@,
            row_count(text@) <= usize::MAX,
            n == newline_count(chars@.take(i as int)) + 1,
        decreases chars@.len() - i,
    {
        proof {
            assert(chars@.take(i + 1).drop_last() =~= chars@.take(i as int));
            lemma_newline_count_prefix(chars@, i + 1);
        }
        if chars[i] == '\n' {
            n = n + 1;
        }
        i = i + 1;
    }
    assert(chars@.take(i as int) =~= chars@);
    n
}

/// An action's text with its check box.
pub fn marked_action(a: &AiProposedAction) -> (s: String)
    ensures
        s@ == marked_action_text(*a),
{
    let mut s = if a.enabled { String::from_str("[x] ") } else { String::from_str("[ ] ") };
    let d = a.description();
    s.append(d.as_str());
    s
}

/// The first row shown of the action list: enough to show the whole selected action
/// (its first row where it is taller than the view), never past the end.
pub fn action_list_scroll(selected_start: usize, selected_height: usize, viewport_height: usize, total_rows: usize) -> (r: usize)
    ensures
        selected_start + selected_height <= usize::MAX ==> r == row_scroll_spec(selected_start as int, selected_height as int, viewport_height as int, total_rows as int),
{
    let max_scroll = total_rows.saturating_sub(viewport_height);
    let selected_end = selected_start.saturating_add(selected_height);
    let wanted = if selected_height >= viewport_height {
        selected_start
    } else {
        selected_end.saturating_sub(viewport_height)
    };
    if wanted < max_scroll { wanted } else { max_scroll }
}

/// The layout of the proposed-action list at the given width and view height: each
/// action wrapped, the rows of the selected action (the last one where the selection
/// is past the end), and how far the list scrolls to show it.
pub fn action_list_view(proposal: &AiTaskProposal, item_width: u16, selected_action_index: usize, viewport_height: usize) -> (v: ActionListView)
    requires
        forall|i: int| 0 <= i < proposal.actions@.len() ==> (#[trigger] marked_action_text(proposal.actions@[i])).len() <= usize::MAX / 4,
        rows_before(proposal.actions@, item_width as int, proposal.actions@.len() as int) <= usize::MAX,
    ensures
        v.blocks@.len() == proposal.actions@.len(),
        forall|i: int| 0 <= i < v.blocks@.len() ==> (#[trigger] v.blocks@[i])@ == wrapped_action(proposal.actions@[i], item_width as int),
        v.total_rows == rows_before(proposal.actions@, item_width as int, proposal.actions@.len() as int),
        proposal.actions@.len() == 0 ==> v.selected_start == 0 && v.selected_height == 0,
        proposal.actions@.len() > 0 ==> {
            let sel = if selected_action_index < proposal.actions@.len() { selected_action_index as int } else { proposal.actions@.len() - 1 };
            &&& v.selected_start == rows_before(proposal.actions@, item_width as int, sel)
            &&& v.selected_height == row_count(wrapped_action(proposal.actions@[sel], item_width as int))
        },
        v.row_scroll == row_scroll_spec(v.selected_start as int, v.selected_height as int, viewport_height as int, v.total_rows as int),
{
    let n = proposal.actions.len();
    let ghost acts = proposal.actions@;
    let ghost w = item_width as int;
    let selected_index: usize = if n == 0 { 0 } else if selected_action_index < n { selected_action_index } else { n - 1 };
    let mut blocks: Vec<String> = Vec::new();
    let mut total: usize = 0;
    let mut selected_start: usize = 0;
    let mut selected_height: usize = 0;
    let mut i: usize = 0;
    while i < n
        invariant
            n == acts.len(),
            acts == proposal.actions@,
            w == item_width as int,
            i <= n,
            n == 0 || selected_index < n,
            forall|k: int| 0 <= k < n ==> (#[trigger] marked_action_text(acts[k])).len() <= usize::MAX / 4,
            rows_before(acts, w, n as int) <= usize::MAX,
            blocks@.len() == i,
            forall|k: int| 0 <= k < i ==> (#[trigger] blocks@[k])@ == wrapped_action(acts[k], w),
            total == rows_before(acts, w, i as int),
            i <= selected_index ==> selected_start == 0 && selected_height == 0,
            selected_index < i ==> selected_start == rows_before(acts, w, selected_index as int)
                && selected_height == row_count(wrapped_action(acts[selected_index as int], w)),
        decreases n - i,
    {
        let text = marked_action(&proposal.actions[i]);
        assert(text@ == marked_action_text(acts[i as int]));
        let (wrapped, _, _) = multiline_input_layout(text.as_str(), text.as_str().unicode_len(), item_width);
        proof {
            lemma_rows_before_monotone(acts, w, i + 1, n as int);
        }
        assert(wrapped@ == wrapped_action(acts[i as int], w));
        assert(rows_before(acts, w, i + 1) == total + row_count(wrapped@));
        let rows = rows_of(wrapped.as_str());
        if i == selected_index {
            selected_start = total;
            selected_height = rows;
        }
        total = total + rows;
        blocks.push(wrapped);
        i = i + 1;
    }
    proof {
        if n > 0 {
            lemma_rows_before_monotone(acts, w, selected_index as int + 1, n as int);
        }
    }
    let row_scroll = action_list_scroll(selected_start, selected_height, viewport_height, total);
    ActionListView { blocks, selected_start, selected_height, total_rows: total, row_scroll }
}

/// How far the recommendation can scroll: the rows of the summary wrapped to the given
/// width, less those the view shows.
pub open spec fn recommendation_max_scroll_spec(summary: Seq<char>, width: int, height: int) -> int {
    let rows = input_layout_spec(summary, summary.len() as int, width).1 + 1;
    if rows > height { rows - height } else { 0 }
}

/// How far the recommendation can scroll at the given content width and height.
pub fn recommendation_max_scroll(summary: &str, content_width: u16, content_height: u16) -> (r: usize)
    requires
        summary@.len() <= usize::MAX / 4,
    ensures
        r == recommendation_max_scroll_spec(summary@, content_width as int, content_height as int),
{
    let (_, last_row, _) = multiline_input_layout(summary, summary.unicode_len(), content_width);
    let rows = last_row as usize + 1;
    rows.saturating_sub(content_height as usize)
}

/// The first row shown of an input field: enough to show the cursor's row.
pub fn input_vertical_scroll(cursor_row: u16, input_height: u16) -> (r: u16)
    ensures
        r == (if cursor_row as int > input_height as int - 1 && input_height > 0 { cursor_row - (input_height - 1) }
            else if input_height == 0 { cursor_row as int } else { 0 }),
{
    cursor_row.saturating_sub(input_height.saturating_sub(1))
}

/// The notice under the action list: where it stands in the list.
pub open spec fn progress_notice_text(count: nat, selected: nat) -> Seq<char> {
    if count == 0 {
        "No proposed actions."@
    } else if selected + 1 < count {
        "Action "@ + decimal(selected + 1) + " of "@ + decimal(count) + " · ↓ More actions below"@
    } else {
        "Action "@ + decimal(count) + " of "@ + decimal(count) + " · End of actions"@
    }
}

/// The notice under the action list: where the selection stands in the list.
pub fn progress_notice(count: usize, selected: usize) -> (s: String)
    requires
        selected < usize::MAX,
    ensures
        s@ == progress_notice_text(count as nat, selected as nat),
{
    if count == 0 {
        return String::from_str("No proposed actions.");
    }
    let mut s = String::from_str("Action ");
    if selected + 1 < count {
        push_decimal(&mut s, (selected + 1) as u64);
        s.append(" of ");
        push_decimal(&mut s, count as u64);
        s.append(" · ↓ More actions below");
    } else {
        push_decimal(&mut s, count as u64);
        s.append(" of ");
        push_decimal(&mut s, count as u64);
        s.append(" · End of actions");
    }
    s
}

/// The notice under the action list: an error where there is one, else where the
/// selection stands, else a reminder to review.
pub fn action_notice(error_message: Option<&str>, proposal: Option<&AiTaskProposal>, selected: usize) -> (r: (String, bool))
    requires
        selected < usize::MAX,
    ensures
        r.1 == (error_message is Some),
        match error_message {
            Some(e) => r.0@ == e@,
            None => match proposal {
                Some(p) => r.0@ == progress_notice_text(p.actions@.len(), selected as nat),
                None => r.0@ == "Review each action before continuing."@,
            },
        },
{
    match error_message {
        Some(e) => (String::from_str(e), true),
        None => match proposal {
            Some(p) => (progress_notice(p.actions.len(), selected), false),
            None => (String::from_str("Review each action before continuing."), false),
        },
    }
}

/// The question asked before applying a proposal.
pub open spec fn apply_confirmation_spec(enabled: nat) -> Seq<char> {
    "Apply "@ + decimal(enabled) + " approved action(s) to Todoist?\n\nActions run in safety order: preserve context, create successors, then complete the original task. Execution stops on the first failure."@
}

/// The question asked before applying a proposal, with the number of enabled actions
/// (none without a proposal).
pub fn apply_confirmation_text(proposal: Option<&AiTaskProposal>) -> (s: String)
    ensures
        s@ == apply_confirmation_spec(match proposal {
            Some(p) => enabled_count(p.actions@),
            None => 0,
        }),
{
    let n = match proposal {
        Some(p) => count_enabled(&p.actions),
        None => 0,
    };
    let mut s = String::from_str("Apply ");
    push_decimal(&mut s, n as u64);
    s.append(" approved action(s) to Todoist?\n\nActions run in safety order: preserve context, create successors, then complete the original task. Execution stops on the first failure.");
    s
}

/// The lines of the result page, for an applied or stopped proposal: the outcome, a
/// blank line, the completed actions as bullets (or `• None`), and the failure.
pub open spec fn report_lines_spec(report: AiExecutionReport) -> Seq<Seq<char>> {
    let head = if report.failure is Some {
        "Proposal stopped before all actions completed."@
    } else {
        "Proposal applied successfully."@
    };
    let done = if report.completed_actions@.len() == 0 {
        seq!["• None"@]
    } else {
        report.completed_actions@.map_values(|a: String| "• "@ + a@)
    };
    let tail = match report.failure {
        Some(f) => seq![""@, "Stopped: "@ + f@],
        None => Seq::empty(),
    };
    seq![head, ""@, "Completed actions:"@] + done + tail
}

/// The lines of the result page; without a report, a single line says so.
pub fn report_lines(report: Option<&AiExecutionReport>) -> (r: Vec<String>)
    ensures
        match report {
            Some(rep) => r@.map_values(|s: String| s@) == report_lines_spec(*rep),
            None => r@.map_values(|s: String| s@) == seq!["No execution report available."@],
        },
{
    let mut r: Vec<String> = Vec::new();
    match report {
        None => {
            r.push(String::from_str("No execution report available."));
            assert(r@.map_values(|s: String| s@) =~= seq!["No execution report available."@]);
            r
        },
        Some(rep) => {
            if rep.failure.is_some() {
                r.push(String::from_str("Proposal stopped before all actions completed."));
            } else {
                r.push(String::from_str("Proposal applied successfully."));
            }
            r.push(String::from_str(""));
            r.push(String::from_str("Completed actions:"));
            let ghost head = r@.map_values(|s: String| s@);
            let ghost done = if rep.completed_actions@.len() == 0 {
                seq!["• None"@]
            } else {
                rep.completed_actions@.map_values(|a: String| "• "@ + a@)
            };
            if rep.completed_actions.len() == 0 {
                r.push(String::from_str("• None"));
                assert(r@.map_values(|s: String| s@) =~= head + done);
            } else {
                let mut i: usize = 0;
                while i < rep.completed_actions.len()
                    invariant
                        i <= rep.completed_actions@.len(),
                        rep.completed_actions@.len() > 0,
                        done == rep.completed_actions@.map_values(|a: String| "• "@ + a@),
                        r@.map_values(|s: String| s@) == head + done.take(i as int),
                    decreases rep.completed_actions@.len() - i,
                {
                    let mut line = String::from_str("• ");
                    line.append(rep.completed_actions[i].as_str());
                    let ghost prev = r@;
                    r.push(line);
                    assert(done[i as int] == "• "@ + rep.completed_actions@[i as int]@);
                    assert(done.take(i + 1) =~= done.take(i as int).push(done[i as int]));
                    assert(r@.map_values(|s: String| s@) =~= prev.map_values(|s: String| s@).push(line@));
                    assert(r@.map_values(|s: String| s@) =~= head + done.take(i + 1));
                    i = i + 1;
                }
                assert(done.take(i as int) =~= done);
            }
            let ghost before = r@.map_values(|s: String| s@);
            match &rep.failure {
                Some(f) => {
                    r.push(String::from_str(""));
                    let mut line = String::from_str("Stopped: ");
                    line.append(f.as_str());
                    r.push(line);
                    assert(r@.map_values(|s: String| s@) =~= before + seq![""@, "Stopped: "@ + f@]);
                },
                None => {},
            }
            assert(r@.map_values(|s: String| s@) =~= report_lines_spec(*rep));
            r
        },
    }
}

/// The state a task is in, as the details show it.
pub open spec fn status_text(t: task::Model) -> Seq<char> {
    if t.is_deleted { "Deleted"@ } else if t.is_completed { "Completed"@ } else { "Active"@ }
}

/// An optional text, or `None` where it is absent.
pub open spec fn or_none(o: Option<String>) -> Seq<char> {
    match o {
        Some(s) => s@,
        None => "None"@,
    }
}

/// The due text of a task: its due time, else its due date, else `None`.
pub open spec fn due_text(t: task::Model) -> Seq<char> {
    match t.due_datetime {
        Some(d) => d@,
        None => or_none(t.due_date),
    }
}

/// The labelled fields that the task details list, in order.
pub open spec fn detail_fields_spec(t: task::Model, project_name: Seq<char>) -> Seq<(Seq<char>, Seq<char>)> {
    seq![
        ("Status"@, status_text(t)),
        ("Project"@, project_name),
        ("Priority"@, priority_label(priority_of(t.priority as int))),
        ("Due"@, due_text(t)),
        ("Deadline"@, or_none(t.deadline)),
        ("Duration"@, or_none(t.duration)),
        ("Recurring"@, if t.is_recurring { "Yes"@ } else { "No"@ }),
    ]
}

/// The view of a list of labelled fields.
pub open spec fn fields_view(v: Seq<(&str, String)>) -> Seq<(Seq<char>, Seq<char>)> {
    v.map_values(|f: (&str, String)| (f.0@, f.1@))
}

/// A copy of an optional text, or `None` where it is absent.
fn text_or_none(o: &Option<String>) -> (s: String)
    ensures
        s@ == or_none(*o),
{
    match o {
        Some(v) => v.clone(),
        None => String::from_str("None"),
    }
}

/// The labelled fields that the task details list: status, project, priority, due,
/// deadline, duration and whether it repeats.
pub fn task_detail_fields(t: &task::Model, project_name: &str) -> (v: Vec<(&'static str, String)>)
    ensures
        fields_view(v@) == detail_fields_spec(*t, project_name@),
{
    let status = if t.is_deleted {
        String::from_str("Deleted")
    } else if t.is_completed {
        String::from_str("Completed")
    } else {
        String::from_str("Active")
    };
    let due = match &t.due_datetime {
        Some(d) => d.clone(),
        None => text_or_none(&t.due_date),
    };
    let mut v: Vec<(&'static str, String)> = Vec::new();
    v.push(("Status", status));
    v.push(("Project", String::from_str(project_name)));
    v.push(("Priority", String::from_str(TaskPriority::from_todoist(t.priority).label())));
    v.push(("Due", due));
    v.push(("Deadline", text_or_none(&t.deadline)));
    v.push(("Duration", text_or_none(&t.duration)));
    v.push(("Recurring", if t.is_recurring { String::from_str("Yes") } else { String::from_str("No") }));
    assert(fields_view(v@) =~= detail_fields_spec(*t, project_name@));
    v
}

/// The description that the task details show: the task's, or `None` where it has none
/// or it is empty.
pub fn detail_description(t: &task::Model) -> (s: String)
    ensures
        s@ == (match t.description {
            Some(d) => if d@.len() > 0 { d@ } else { "None"@ },
            None => "None"@,
        }),
{
    match &t.description {
        Some(d) => if d.as_str().unicode_len() > 0 { d.clone() } else { String::from_str("None") },
        None => String::from_str("None"),
    }
}

/// How far a text of `content_rows` rows scrolls in a view of `visible_rows`: the offset
/// asked for, at most to the last full view.
pub fn clamped_scroll(offset: usize, content_rows: usize, visible_rows: usize) -> (r: usize)
    ensures
        r == (if offset as int <= content_rows - visible_rows { offset as int }
            else if content_rows > visible_rows { content_rows - visible_rows } else { 0 }),
{
    let max_scroll = content_rows.saturating_sub(visible_rows);
    if offset < max_scroll { offset } else { max_scroll }
}

/// The title of the search results: a prompt before anything is typed, a notice when
/// nothing matches, else the number of tasks found.
pub open spec fn search_title_spec(query: Seq<char>, found: nat) -> Seq<char> {
    if found == 0 {
        if query.len() == 0 { "Start typing to search tasks…"@ } else { "No tasks found."@ }
    } else {
        decimal(found) + " tasks found"@
    }
}

/// The title of the search results.
pub fn search_results_title(query: &str, found: usize) -> (s: String)
    ensures
        s@ == search_title_spec(query@, found as nat),
{
    if found == 0 {
        if query.unicode_len() == 0 {
            String::from_str("Start typing to search tasks…")
        } else {
            String::from_str("No tasks found.")
        }
    } else {
        let mut s = String::new();
        push_decimal(&mut s, found as u64);
        s.append(" tasks found");
        assert(s@ =~= search_title_spec(query@, found as nat));
        s
    }
}

} // verus!
