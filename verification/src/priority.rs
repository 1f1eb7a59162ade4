//! Human-readable task priorities and their Todoist wire values.

use vstd::prelude::*;

verus! {

/// A task priority as the user names it.
#[derive(Debug, Clone, Copy, PartialEq, Eq, Structural)]
pub enum TaskPriority {
    Low,
    Medium,
    High,
    Urgent,
}

/// The Todoist value (1..=4) of a named priority.
pub open spec fn todoist_value_of(p: TaskPriority) -> int {
    match p {
        TaskPriority::Low => 1,
        TaskPriority::Medium => 2,
        TaskPriority::High => 3,
        TaskPriority::Urgent => 4,
    }
}

/// The named priority that a Todoist value stands for; anything unknown is `Low`.
pub open spec fn priority_of(value: int) -> TaskPriority {
    if value == 4 {
        TaskPriority::Urgent
    } else if value == 3 {
        TaskPriority::High
    } else if value == 2 {
        TaskPriority::Medium
    } else {
        TaskPriority::Low
    }
}

/// The lowercase name of a priority.
pub open spec fn priority_label(p: TaskPriority) -> Seq<char> {
    match p {
        TaskPriority::Low => seq!['l', 'o', 'w'],
        TaskPriority::Medium => seq!['m', 'e', 'd', 'i', 'u', 'm'],
        TaskPriority::High => seq!['h', 'i', 'g', 'h'],
        TaskPriority::Urgent => seq!['u', 'r', 'g', 'e', 'n', 't'],
    }
}

impl TaskPriority {
    /// Reads a Todoist priority value; values other than 2, 3 and 4 count as `Low`.
    pub fn from_todoist(value: i32) -> (p: Self)
        ensures
            p == priority_of(value as int),
    {
        match value {
            4 => TaskPriority::Urgent,
            3 => TaskPriority::High,
            2 => TaskPriority::Medium,
            _ => TaskPriority::Low,
        }
    }

    /// The Todoist wire value of this priority.
    pub fn todoist_value(self) -> (v: i32)
        ensures
            v as int == todoist_value_of(self),
            1 <= v <= 4,
    {
        match self {
            TaskPriority::Low => 1,
            TaskPriority::Medium => 2,
            TaskPriority::High => 3,
            TaskPriority::Urgent => 4,
        }
    }

    /// The lowercase name of this priority.
    pub fn label(self) -> (s: &'static str)
        ensures
            s@ == priority_label(self),
    {
        proof {
            reveal_strlit("low");
            reveal_strlit("medium");
            reveal_strlit("high");
            reveal_strlit("urgent");
        }
        match self {
            TaskPriority::Low => "low",
            TaskPriority::Medium => "medium",
            TaskPriority::High => "high",
            TaskPriority::Urgent => "urgent",
        }
    }
}

/// Reading back the Todoist value of a named priority gives the same priority.
pub proof fn lemma_priority_round_trip(p: TaskPriority)
    ensures
        priority_of(todoist_value_of(p)) == p,
{
}

/// A Todoist value in 1..=4 survives reading it as a priority and writing it back;
/// every other value is read as `Low`.
pub proof fn lemma_value_round_trip(value: int)
    ensures
        1 <= value <= 4 ==> todoist_value_of(priority_of(value)) == value,
        !(2 <= value <= 4) ==> priority_of(value) == TaskPriority::Low,
{
}

/// Distinct priorities have distinct Todoist values and distinct names.
pub proof fn lemma_priority_injective(p: TaskPriority, q: TaskPriority)
    ensures
        todoist_value_of(p) == todoist_value_of(q) ==> p == q,
        priority_label(p) == priority_label(q) ==> p == q,
{
    if priority_label(p) == priority_label(q) && p != q {
        assert(priority_label(p).len() != priority_label(q).len() || priority_label(p)[0] != priority_label(q)[0]);
    }
}

} // verus!
