use vstd::prelude::*;

use crate::command::Command;
use crate::task::{decimal_text, next_id_of, status_word, task_text, Status, Task};
use crate::timestamp::padded_decimal;

verus! {

/// What one command leaves to do once the list in memory has changed:
/// whether to write the list back to the store, and the lines to print.
pub struct Outcome {
    pub save: bool,
    pub lines: Vec<String>,
}

/// The texts of a list of strings.
pub open spec fn line_texts(lines: Seq<String>) -> Seq<Seq<char>> {
    lines.map_values(|l: String| l@)
}

/// Every task of the list has well-formed timestamps.
pub open spec fn all_wf(tasks: Seq<Task>) -> bool {
    forall|i: int| 0 <= i < tasks.len() ==> (#[trigger] tasks[i]).wf()
}

/// `i` is the first position of a task with this id.
pub open spec fn is_first(tasks: Seq<Task>, id: u32, i: int) -> bool {
    &&& 0 <= i < tasks.len()
    &&& tasks[i].id == id
    &&& forall|j: int| 0 <= j < i ==> (#[trigger] tasks[j]).id != id
}

/// No task of the list has this id.
pub open spec fn absent(tasks: Seq<Task>, id: u32) -> bool {
    forall|j: int| 0 <= j < tasks.len() ==> (#[trigger] tasks[j]).id != id
}

/// The tasks with this status, in list order.
pub open spec fn with_status(tasks: Seq<Task>, s: Status) -> Seq<Task>
    decreases tasks.len(),
{
    if tasks.len() == 0 {
        Seq::empty()
    } else {
        let rest = with_status(tasks.drop_last(), s);
        if tasks.last().status == s {
            rest.push(tasks.last())
        } else {
            rest
        }
    }
}

/// The printed blocks of a list of tasks.
pub open spec fn task_texts(tasks: Seq<Task>) -> Seq<Seq<char>> {
    tasks.map_values(|t: Task| task_text(t))
}

/// What `list` prints: every task, or those with the status asked for, or a
/// notice when no task has it.
pub open spec fn list_texts(filter: Option<Status>, tasks: Seq<Task>) -> Seq<Seq<char>> {
    match filter {
        None => task_texts(tasks),
        Some(s) => if with_status(tasks, s).len() == 0 {
            seq!["No tasks with the status "@ + status_word(s)]
        } else {
            task_texts(with_status(tasks, s))
        },
    }
}

pub open spec fn updated_message(id: u32) -> Seq<char> {
    "Successfully updated task "@ + decimal_text(id as nat) + "."@
}

pub open spec fn deleted_message(id: u32) -> Seq<char> {
    "Successfully deleted task "@ + decimal_text(id as nat) + "."@
}

/// The task at `i` of `after` is the one at `i` of `before` with a new
/// description, stamped as changed; every other task is the same.
pub open spec fn described_at(before: Seq<Task>, after: Seq<Task>, i: int, d: Seq<char>) -> bool {
    &&& after.len() == before.len()
    &&& forall|j: int| 0 <= j < before.len() && j != i ==> after[j] == before[j]
    &&& after[i].description@ == d
    &&& after[i].id == before[i].id
    &&& after[i].status == before[i].status
    &&& after[i].created_at == before[i].created_at
    &&& after[i].updated_at is Some
}

/// The task at `i` of `after` is the one at `i` of `before` with a new
/// status, stamped as changed; every other task is the same.
pub open spec fn marked_at(before: Seq<Task>, after: Seq<Task>, i: int, s: Status) -> bool {
    &&& after.len() == before.len()
    &&& forall|j: int| 0 <= j < before.len() && j != i ==> after[j] == before[j]
    &&& after[i].status == s
    &&& after[i].id == before[i].id
    &&& after[i].description == before[i].description
    &&& after[i].created_at == before[i].created_at
    &&& after[i].updated_at is Some
}

/// Nothing changed, nothing to write, these lines to print.
pub open spec fn untouched(
    before: Seq<Task>,
    after: Seq<Task>,
    r: Result<Outcome, String>,
    lines: Seq<Seq<char>>,
) -> bool {
    &&& after == before
    &&& (r matches Ok(o) && !o.save && line_texts(o.lines@) == lines)
}

/// The list changed, to be written back, with one line to print.
pub open spec fn saved_with(r: Result<Outcome, String>, line: Seq<char>) -> bool {
    r matches Ok(o) && o.save && line_texts(o.lines@) == seq![line]
}

/// The message when no id is left for a new task.
pub open spec fn ids_exhausted_message() -> Seq<char> {
    "No id is left for a new task"@
}

/// The position of the first task with this id, if any.
pub fn find_task(tasks: &Vec<Task>, id: u32) -> (r: Option<usize>)
    ensures
        r matches Some(i) ==> is_first(tasks@, id, i as int),
        r is None ==> absent(tasks@, id),
{
    let mut i: usize = 0;
    while i < tasks.len()
        invariant
            i <= tasks@.len(),
            forall|j: int| 0 <= j < i ==> (#[trigger] tasks@[j]).id != id,
        decreases tasks@.len() - i,
    {
        if tasks[i].id == id {
            return Some(i);
        }
        i = i + 1;
    }
    None
}

/// The lines that `list` prints for these tasks.
pub fn list_tasks(status: Option<Status>, tasks: &Vec<Task>) -> (r: Vec<String>)
    ensures
        line_texts(r@) == list_texts(status, tasks@),
{
    match status {
        None => {
            let mut lines: Vec<String> = Vec::new();
            let mut i: usize = 0;
            while i < tasks.len()
                invariant
                    i <= tasks@.len(),
                    line_texts(lines@) == task_texts(tasks@.subrange(0, i as int)),
                decreases tasks@.len() - i,
            {
                let ghost before = lines@;
                lines.push(tasks[i].display());
                proof {
                    assert(line_texts(lines@) =~= line_texts(before).push(lines@.last()@));
                    assert(task_texts(tasks@.subrange(0, i + 1)) =~= task_texts(
                        tasks@.subrange(0, i as int),
                    ).push(task_text(tasks@[i as int])));
                }
                i = i + 1;
            }
            assert(tasks@.subrange(0, tasks@.len() as int) =~= tasks@);
            lines
        },
        Some(s) => {
            let mut lines: Vec<String> = Vec::new();
            let mut i: usize = 0;
            while i < tasks.len()
                invariant
                    i <= tasks@.len(),
                    line_texts(lines@) == task_texts(with_status(tasks@.subrange(0, i as int), s)),
                decreases tasks@.len() - i,
            {
                let ghost before = lines@;
                let ghost next = tasks@.subrange(0, i + 1);
                assert(next.drop_last() =~= tasks@.subrange(0, i as int));
                if tasks[i].status == s {
                    lines.push(tasks[i].display());
                    proof {
                        assert(line_texts(lines@) =~= line_texts(before).push(lines@.last()@));
                        assert(task_texts(with_status(next, s)) =~= task_texts(
                            with_status(tasks@.subrange(0, i as int), s),
                        ).push(task_text(tasks@[i as int])));
                    }
                }
                i = i + 1;
            }
            assert(tasks@.subrange(0, tasks@.len() as int) =~= tasks@);
            if lines.len() == 0 {
                let mut m = String::from_str("No tasks with the status ");
                m.append(s.word());
                let mut notice: Vec<String> = Vec::new();
                notice.push(m);
                assert(line_texts(notice@) =~= seq![notice@[0]@]);
                notice
            } else {
                lines
            }
        },
    }
}

fn one_line(first: &str, id: u32) -> (r: Vec<String>)
    ensures
        line_texts(r@) == seq![first@ + decimal_text(id as nat) + "."@],
{
    let mut m = String::from_str(first);
    let digits = padded_decimal(id as u64, 1);
    m.append(digits.as_str());
    m.append(".");
    let mut lines: Vec<String> = Vec::new();
    lines.push(m);
    assert(line_texts(lines@) =~= seq![lines@[0]@]);
    lines
}

fn text_line(text: &str) -> (r: Vec<String>)
    ensures
        line_texts(r@) == seq![text@],
{
    let mut lines: Vec<String> = Vec::new();
    lines.push(String::from_str(text));
    assert(line_texts(lines@) =~= seq![lines@[0]@]);
    lines
}

/// Carries out one command on the list in memory. The result says whether
/// the list is to be written back and what to print; an error aborts the run
/// with the list unchanged.
pub fn execute(tasks: &mut Vec<Task>, command: Command) -> (r: Result<Outcome, String>)
    requires
        all_wf(old(tasks)@),
    ensures
        all_wf(final(tasks)@),
        match command {
            Command::Add(d) => if next_id_of(old(tasks)@) > u32::MAX {
                final(tasks)@ == old(tasks)@ && (r matches Err(e) && e@ == ids_exhausted_message())
            } else {
                &&& final(tasks)@.len() == old(tasks)@.len() + 1
                &&& final(tasks)@.drop_last() == old(tasks)@
                &&& final(tasks)@.last().id == next_id_of(old(tasks)@)
                &&& final(tasks)@.last().description == d
                &&& final(tasks)@.last().status == Status::Todo
                &&& final(tasks)@.last().updated_at is None
                &&& saved_with(r, "Successfully added task."@)
            },
            Command::Update(d, id) => {
                &&& absent(old(tasks)@, id) ==> untouched(
                    old(tasks)@,
                    final(tasks)@,
                    r,
                    seq!["Error: ID not found."@],
                )
                &&& forall|i: int|
                    is_first(old(tasks)@, id, i) ==> (described_at(
                        old(tasks)@,
                        final(tasks)@,
                        i,
                        d@,
                    ) && saved_with(r, updated_message(id)))
            },
            Command::Delete(id) => {
                &&& absent(old(tasks)@, id) ==> untouched(
                    old(tasks)@,
                    final(tasks)@,
                    r,
                    Seq::empty(),
                )
                &&& forall|i: int|
                    is_first(old(tasks)@, id, i) ==> (final(tasks)@ == old(tasks)@.remove(i)
                        && saved_with(r, deleted_message(id)))
            },
            Command::Mark(s, id) => {
                &&& absent(old(tasks)@, id) ==> untouched(
                    old(tasks)@,
                    final(tasks)@,
                    r,
                    seq!["Error: ID not found."@],
                )
                &&& forall|i: int|
                    is_first(old(tasks)@, id, i) ==> (marked_at(old(tasks)@, final(tasks)@, i, s)
                        && saved_with(r, updated_message(id)))
            },
            Command::List(filter) => untouched(
                old(tasks)@,
                final(tasks)@,
                r,
                list_texts(filter, old(tasks)@),
            ),
        },
{
    match command {
        Command::Add(description) => {
            if tasks.len() > 0 && tasks[tasks.len() - 1].id == u32::MAX {
                return Err(String::from_str("No id is left for a new task"));
            }
            let id = Task::next_id(tasks.as_slice());
            let task = Task::new(id, description);
            tasks.push(task);
            assert(tasks@.drop_last() =~= old(tasks)@);
            Ok(Outcome { save: true, lines: text_line("Successfully added task.") })
        },
        Command::Update(description, id) => {
            match find_task(tasks, id) {
                Some(i) => {
                    let mut task = tasks.remove(i);
                    task.update_description(description);
                    tasks.insert(i, task);
                    assert(forall|j: int| 0 <= j < i ==> #[trigger] tasks@[j] == old(tasks)@[j]);
                    Ok(Outcome { save: true, lines: one_line("Successfully updated task ", id) })
                },
                None => Ok(Outcome { save: false, lines: text_line("Error: ID not found.") }),
            }
        },
        Command::Delete(id) => {
            match find_task(tasks, id) {
                Some(i) => {
                    tasks.remove(i);
                    Ok(Outcome { save: true, lines: one_line("Successfully deleted task ", id) })
                },
                None => {
                    let lines: Vec<String> = Vec::new();
                    assert(line_texts(lines@) =~= Seq::empty());
                    Ok(Outcome { save: false, lines })
                },
            }
        },
        Command::Mark(status, id) => {
            match find_task(tasks, id) {
                Some(i) => {
                    let mut task = tasks.remove(i);
                    task.update_status(status);
                    tasks.insert(i, task);
                    Ok(Outcome { save: true, lines: one_line("Successfully updated task ", id) })
                },
                None => Ok(Outcome { save: false, lines: text_line("Error: ID not found.") }),
            }
        },
        Command::List(filter) => {
            let lines = list_tasks(filter, tasks);
            Ok(Outcome { save: false, lines })
        },
    }
}

/// Deleting by the id of the only task present leaves an empty list: that
/// task is the first with the id, and removing it leaves nothing.
pub proof fn lemma_delete_only_task(tasks: Seq<Task>, id: u32)
    requires
        tasks.len() == 1,
        tasks[0].id == id,
    ensures
        is_first(tasks, id, 0),
        !absent(tasks, id),
        tasks.remove(0).len() == 0,
{
}

/// Filtering by a status that no task holds selects nothing, and `list`
/// then prints only the notice naming that status.
pub proof fn lemma_list_by_missing_status(tasks: Seq<Task>, s: Status)
    requires
        forall|i: int| 0 <= i < tasks.len() ==> (#[trigger] tasks[i]).status != s,
    ensures
        with_status(tasks, s).len() == 0,
        list_texts(Some(s), tasks) == seq!["No tasks with the status "@ + status_word(s)],
    decreases tasks.len(),
{
    if tasks.len() > 0 {
        let rest = tasks.drop_last();
        assert forall|i: int| 0 <= i < rest.len() implies (#[trigger] rest[i]).status != s by {
            assert(rest[i] == tasks[i]);
        }
        lemma_list_by_missing_status(rest, s);
        assert(tasks.last() == tasks[tasks.len() - 1]);
    }
}

} // verus!
