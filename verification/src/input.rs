use vstd::prelude::*;

verus! {

/// The modal state of the input state machine. Exactly one mode is active at
/// a time; the payload of a mode names the position, in the current filtered
/// view, of the task the mode is working on.
#[derive(Clone, Copy, Debug, PartialEq, Eq, Structural)]
pub enum InputMode {
    Normal,
    AddingTitle,
    AddingContent,
    AddingPriority,
    AddingDeadline,
    ViewingDetails(usize),
    ViewingSubtaskDetails(usize, usize),
    Searching,
    EditingTitle(usize),
    EditingContent(usize),
    EditingPriority(usize),
    EditingDeadline(usize),
    AddingSubtask(usize),
}

/// The priority a user is choosing while adding or editing a task. It is an
/// in-progress buffer, distinct from the priority text stored on a task.
#[derive(Clone, Copy, Debug, PartialEq, Eq, Structural)]
pub enum PrioritySelection {
    Low,
    Medium,
    High,
}

/// The priority text stored on a task for a selection.
pub open spec fn prio_text(p: PrioritySelection) -> Seq<char> {
    match p {
        PrioritySelection::Low => "low"@,
        PrioritySelection::Medium => "medium"@,
        PrioritySelection::High => "high"@,
    }
}

/// The selection a stored priority text pre-populates the priority buffer
/// with; unrecognized text falls back to Low.
pub open spec fn prio_of_text(p: Seq<char>) -> PrioritySelection {
    if p == "low"@ {
        PrioritySelection::Low
    } else if p == "medium"@ {
        PrioritySelection::Medium
    } else if p == "high"@ {
        PrioritySelection::High
    } else {
        PrioritySelection::Low
    }
}

/// The selection a stored priority text pre-populates the priority buffer
/// with.
pub fn prio_of(p: &str) -> (r: PrioritySelection)
    ensures
        r == prio_of_text(p@),
{
    if crate::sort::str_eq_str(p, "low") {
        PrioritySelection::Low
    } else if crate::sort::str_eq_str(p, "medium") {
        PrioritySelection::Medium
    } else if crate::sort::str_eq_str(p, "high") {
        PrioritySelection::High
    } else {
        PrioritySelection::Low
    }
}

impl PrioritySelection {
    /// Cycle forward through Low -> Medium -> High -> Low.
    pub fn next(&self) -> (r: Self)
        ensures
            r == (match *self {
                PrioritySelection::Low => PrioritySelection::Medium,
                PrioritySelection::Medium => PrioritySelection::High,
                PrioritySelection::High => PrioritySelection::Low,
            }),
    {
        match *self {
            PrioritySelection::Low => PrioritySelection::Medium,
            PrioritySelection::Medium => PrioritySelection::High,
            PrioritySelection::High => PrioritySelection::Low,
        }
    }

    /// Cycle backward through Low -> High -> Medium -> Low.
    pub fn prev(&self) -> (r: Self)
        ensures
            r == (match *self {
                PrioritySelection::Low => PrioritySelection::High,
                PrioritySelection::Medium => PrioritySelection::Low,
                PrioritySelection::High => PrioritySelection::Medium,
            }),
    {
        match *self {
            PrioritySelection::Low => PrioritySelection::High,
            PrioritySelection::Medium => PrioritySelection::Low,
            PrioritySelection::High => PrioritySelection::Medium,
        }
    }

    /// The priority text stored on a task for this selection.
    pub fn to_str(&self) -> (r: &'static str)
        ensures
            r@ == prio_text(*self),
    {
        match *self {
            PrioritySelection::Low => "low",
            PrioritySelection::Medium => "medium",
            PrioritySelection::High => "high",
        }
    }
}

} // verus!
