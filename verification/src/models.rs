use vstd::prelude::*;
use vstd::string::StringExecFns;

verus! {

/// Lifecycle state of a task, as stored and displayed.
#[derive(Clone, Copy, Debug)]
pub enum TaskStatus {
    Pending,
    InProgress,
    Completed,
    Archived,
}

impl TaskStatus {
    /// The status's display name.
    pub fn to_string(&self) -> (r: String)
        ensures
            r@ == match *self {
                TaskStatus::Pending => "Pending"@,
                TaskStatus::InProgress => "InProgress"@,
                TaskStatus::Completed => "Completed"@,
                TaskStatus::Archived => "Archived"@,
            },
    {
        match self {
            TaskStatus::Pending => String::from_str("Pending"),
            TaskStatus::InProgress => String::from_str("InProgress"),
            TaskStatus::Completed => String::from_str("Completed"),
            TaskStatus::Archived => String::from_str("Archived"),
        }
    }
}

/// Priority of a task, as stored and displayed.
#[derive(Clone, Copy, Debug)]
pub enum TaskPriority {
    Low,
    Medium,
    High,
    Urgent,
}

impl TaskPriority {
    /// The priority's display name.
    pub fn to_string(&self) -> (r: String)
        ensures
            r@ == match *self {
                TaskPriority::Low => "Low"@,
                TaskPriority::Medium => "Medium"@,
                TaskPriority::High => "High"@,
                TaskPriority::Urgent => "Urgent"@,
            },
    {
        match self {
            TaskPriority::Low => String::from_str("Low"),
            TaskPriority::Medium => String::from_str("Medium"),
            TaskPriority::High => String::from_str("High"),
            TaskPriority::Urgent => String::from_str("Urgent"),
        }
    }
}

} // verus!
