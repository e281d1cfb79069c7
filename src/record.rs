use vstd::prelude::*;

use crate::task::{Status, Task};
use crate::timestamp::{parse_timestamp_text, timestamp_text, Timestamp};

verus! {

/// A task as the store holds it: its timestamps in the text form
/// `YYYY-MM-DD HH:MM:SS`.
pub struct TaskRecord {
    pub id: u32,
    pub description: String,
    pub status: Status,
    pub created_at: String,
    pub updated_at: Option<String>,
}

/// `rec` is the stored form of `t`.
pub open spec fn stored_as(t: Task, rec: TaskRecord) -> bool {
    &&& rec.id == t.id
    &&& rec.description == t.description
    &&& rec.status == t.status
    &&& rec.created_at@ == timestamp_text(t.created_at)
    &&& match (t.updated_at, rec.updated_at) {
        (None, None) => true,
        (Some(u), Some(s)) => s@ == timestamp_text(u),
        _ => false,
    }
}

/// Both timestamps of the record read as real dates and times.
pub open spec fn readable(rec: TaskRecord) -> bool {
    &&& parse_timestamp_text(rec.created_at@) is Some
    &&& (rec.updated_at matches Some(s) ==> parse_timestamp_text(s@) is Some)
}

/// `t` is what the record `rec` reads as.
pub open spec fn read_as(rec: TaskRecord, t: Task) -> bool {
    &&& t.id == rec.id
    &&& t.description == rec.description
    &&& t.status == rec.status
    &&& parse_timestamp_text(rec.created_at@) == Some(t.created_at)
    &&& match (rec.updated_at, t.updated_at) {
        (None, None) => true,
        (Some(s), Some(u)) => parse_timestamp_text(s@) == Some(u),
        _ => false,
    }
}

impl Task {
    /// The stored form of the task.
    pub fn to_record(&self) -> (r: TaskRecord)
        ensures
            stored_as(*self, r),
    {
        let updated_at = match &self.updated_at {
            Some(u) => Some(u.to_text()),
            None => None,
        };
        TaskRecord {
            id: self.id,
            description: self.description.clone(),
            status: self.status,
            created_at: self.created_at.to_text(),
            updated_at,
        }
    }

    /// The task that a stored record holds; `None` when one of its
    /// timestamps does not read as a real date and time.
    pub fn from_record(rec: TaskRecord) -> (r: Option<Task>)
        ensures
            r is Some <==> readable(rec),
            r matches Some(t) ==> read_as(rec, t) && t.wf(),
    {
        let created_at = match Timestamp::parse(rec.created_at.as_str()) {
            Some(c) => c,
            None => return None,
        };
        let updated_at = match &rec.updated_at {
            Some(s) => match Timestamp::parse(s.as_str()) {
                Some(u) => Some(u),
                None => return None,
            },
            None => None,
        };
        Some(
            Task {
                id: rec.id,
                description: rec.description,
                status: rec.status,
                created_at,
                updated_at,
            },
        )
    }
}

/// Whether both years of the task have four digits, the form the store reads.
pub open spec fn four_digit_years(t: Task) -> bool {
    &&& 0 <= t.created_at.year <= 9999
    &&& (t.updated_at matches Some(u) ==> 0 <= u.year <= 9999)
}

/// A task written to its stored form and read back is the same task: same id,
/// description, status and timestamps to the second.
pub proof fn lemma_record_round_trip(t: Task, rec: TaskRecord, back: Task)
    requires
        t.wf(),
        four_digit_years(t),
        stored_as(t, rec),
    ensures
        readable(rec),
        read_as(rec, back) ==> back == t,
{
    crate::timestamp::lemma_timestamp_text_round_trip(t.created_at);
    if let Some(u) = t.updated_at {
        crate::timestamp::lemma_timestamp_text_round_trip(u);
    }
}

} // verus!
