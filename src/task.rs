use vstd::prelude::*;

use crate::timestamp::{padded, padded_decimal, timestamp_text, Timestamp};

verus! {

/// Where a task stands.
#[derive(Clone, Copy, Debug, PartialEq, Eq, Structural)]
pub enum Status {
    Todo,
    InProgress,
    Done,
}

/// The lowercase word that the tracker prints for a status.
pub open spec fn status_word(s: Status) -> Seq<char> {
    match s {
        Status::Todo => "todo"@,
        Status::InProgress => "in progress"@,
        Status::Done => "done"@,
    }
}

impl Status {
    /// The lowercase word printed for this status.
    pub fn word(&self) -> (r: &'static str)
        ensures
            r@ == status_word(*self),
    {
        match self {
            Status::Todo => "todo",
            Status::InProgress => "in progress",
            Status::Done => "done",
        }
    }
}

/// One tracked piece of work.
#[derive(Debug)]
pub struct Task {
    pub id: u32,
    pub description: String,
    pub status: Status,
    pub created_at: Timestamp,
    pub updated_at: Option<Timestamp>,
}

/// `n` in decimal, without leading zeros.
pub open spec fn decimal_text(n: nat) -> Seq<char> {
    padded(n, 1)
}

/// The text of the last-update line: the time, or `-` before any change.
pub open spec fn updated_text(u: Option<Timestamp>) -> Seq<char> {
    match u {
        Some(t) => timestamp_text(t),
        None => "-"@,
    }
}

/// The block of lines that the tracker prints for one task.
pub open spec fn task_text(t: Task) -> Seq<char> {
    "------------\nid: "@ + decimal_text(t.id as nat) + " ["@ + status_word(t.status)
        + "]\nTask: "@ + t.description@ + "\nCreated at: "@ + timestamp_text(t.created_at)
        + "\nLast Update: "@ + updated_text(t.updated_at)
}

/// The id that the next added task gets: one more than the id of the last
/// task, or 0 for an empty list.
pub open spec fn next_id_of(tasks: Seq<Task>) -> int {
    if tasks.len() == 0 {
        0
    } else {
        tasks.last().id + 1
    }
}

impl Task {
    /// Timestamps that name real dates and times.
    pub open spec fn wf(self) -> bool {
        &&& self.created_at.wf()
        &&& (self.updated_at matches Some(u) ==> u.wf())
    }

    /// A new task to do, created now and not yet changed.
    pub fn new(id: u32, description: String) -> (r: Task)
        ensures
            r.id == id,
            r.description == description,
            r.status == Status::Todo,
            r.updated_at is None,
            r.wf(),
    {
        Task {
            id,
            description,
            status: Status::Todo,
            created_at: Timestamp::now(),
            updated_at: None,
        }
    }

    /// Sets the status and stamps the change with the current time.
    pub fn update_status(&mut self, status: Status)
        requires
            old(self).wf(),
        ensures
            final(self).status == status,
            final(self).updated_at is Some,
            final(self).wf(),
            final(self).id == old(self).id,
            final(self).description == old(self).description,
            final(self).created_at == old(self).created_at,
    {
        self.status = status;
        self.updated_at = Some(Timestamp::now());
    }

    /// Sets the description and stamps the change with the current time.
    pub fn update_description(&mut self, description: String)
        requires
            old(self).wf(),
        ensures
            final(self).description == description,
            final(self).updated_at is Some,
            final(self).wf(),
            final(self).id == old(self).id,
            final(self).status == old(self).status,
            final(self).created_at == old(self).created_at,
    {
        self.description = description;
        self.updated_at = Some(Timestamp::now());
    }

    /// The id for a task appended to `tasks`: one more than the last id, or 0
    /// for an empty list. The last id must leave room for one more.
    pub fn next_id(tasks: &[Task]) -> (r: u32)
        requires
            next_id_of(tasks@) <= u32::MAX,
        ensures
            r == next_id_of(tasks@),
    {
        if tasks.len() == 0 {
            0
        } else {
            tasks[tasks.len() - 1].id + 1
        }
    }

    /// Renders the fields, one to a line, under a rule of dashes.
    pub fn display(&self) -> (r: String)
        ensures
            r@ == task_text(*self),
    {
        let mut s = String::from_str("------------\nid: ");
        let id = padded_decimal(self.id as u64, 1);
        s.append(id.as_str());
        s.append(" [");
        s.append(self.status.word());
        s.append("]\nTask: ");
        s.append(self.description.as_str());
        s.append("\nCreated at: ");
        let created = self.created_at.to_text();
        s.append(created.as_str());
        s.append("\nLast Update: ");
        match &self.updated_at {
            Some(u) => {
                let updated = u.to_text();
                s.append(updated.as_str());
            },
            None => {
                s.append("-");
            },
        }
        s
    }
}

/// The first task added to an empty list gets id 0.
pub proof fn lemma_first_id_is_zero(tasks: Seq<Task>)
    requires
        tasks.len() == 0,
    ensures
        next_id_of(tasks) == 0,
{
}

/// Appending a task after a list whose last id is `n` gives it id `n + 1`.
pub proof fn lemma_next_id_follows_last(tasks: Seq<Task>)
    requires
        tasks.len() > 0,
    ensures
        next_id_of(tasks) == tasks[tasks.len() - 1].id + 1,
{
}

} // verus!
