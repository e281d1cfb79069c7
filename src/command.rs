use vstd::prelude::*;

use crate::task::Status;
use crate::timestamp::{all_digits, decimal_value};

verus! {

/// One request of the user, read from the command line.
#[derive(Debug)]
pub enum Command {
    /// Add a task with this description.
    Add(String),
    /// Give the task with this id a new description.
    Update(String, u32),
    /// Remove the task with this id.
    Delete(u32),
    /// Give the task with this id a new status.
    Mark(Status, u32),
    /// Print the tasks, all of them or those with one status.
    List(Option<Status>),
}

/// A command with its texts seen as character sequences.
pub enum CommandModel {
    Add(Seq<char>),
    Update(Seq<char>, u32),
    Delete(u32),
    Mark(Status, u32),
    List(Option<Status>),
}

impl View for Command {
    type V = CommandModel;

    open spec fn view(&self) -> CommandModel {
        match self {
            Command::Add(d) => CommandModel::Add(d@),
            Command::Update(d, id) => CommandModel::Update(d@, *id),
            Command::Delete(id) => CommandModel::Delete(*id),
            Command::Mark(s, id) => CommandModel::Mark(*s, *id),
            Command::List(s) => CommandModel::List(*s),
        }
    }
}

/// The message of the error that `str::parse::<u32>` gives on `s`.
pub uninterp spec fn u32_parse_error(s: Seq<char>) -> Seq<char>;

/// The digits of an unsigned decimal, after an optional leading `+`.
pub open spec fn unsigned_digits(s: Seq<char>) -> Seq<char> {
    if s.len() > 0 && s[0] == '+' {
        s.drop_first()
    } else {
        s
    }
}

/// Whether `s` is an optional `+` followed by decimal digits whose value fits
/// in a `u32`.
pub open spec fn is_u32_text(s: Seq<char>) -> bool {
    let d = unsigned_digits(s);
    d.len() > 0 && all_digits(d) && decimal_value(d) <= u32::MAX
}

/// Relies on `str::parse::<u32>` (`u32::from_str_radix` in base 10): it
/// accepts exactly an optional `+` followed by decimal digits whose value fits,
/// and returns that value; otherwise the `ParseIntError`, kept as its message.
#[verifier::external_body]
fn parse_u32(s: &str) -> (r: Result<u32, String>)
    ensures
        r is Ok <==> is_u32_text(s@),
        r matches Ok(n) ==> n as nat == decimal_value(unsigned_digits(s@)),
        r matches Err(e) ==> e@ == u32_parse_error(s@),
{
    match s.parse::<u32>() {
        Ok(n) => Ok(n),
        Err(e) => Err(e.to_string()),
    }
}

/// The words that name a command acting on one task id.
pub open spec fn takes_id(w: Seq<char>) -> bool {
    w == "update"@ || w == "delete"@ || w == "mark-todo"@ || w == "mark-done"@ || w
        == "mark-in-progress"@
}

/// What the argument list `args` (the program name first) asks for, or the
/// message that says why it asks for nothing.
pub open spec fn parse_model(args: Seq<Seq<char>>) -> Result<CommandModel, Seq<char>> {
    if args.len() < 2 {
        Err("Not enough arguments"@)
    } else if args.len() > 4 {
        Err("Too many arguments"@)
    } else {
        let cmd = args[1];
        if takes_id(cmd) {
            if args.len() < 3 {
                Err("Not enough arguments"@)
            } else if !is_u32_text(args[2]) {
                Err(u32_parse_error(args[2]))
            } else {
                let id = decimal_value(unsigned_digits(args[2])) as u32;
                if cmd == "update"@ {
                    if args.len() < 4 {
                        Err("Not enough arguments"@)
                    } else {
                        Ok(CommandModel::Update(args[3], id))
                    }
                } else if cmd == "delete"@ {
                    Ok(CommandModel::Delete(id))
                } else if cmd == "mark-todo"@ {
                    Ok(CommandModel::Mark(Status::Todo, id))
                } else if cmd == "mark-done"@ {
                    Ok(CommandModel::Mark(Status::Done, id))
                } else {
                    Ok(CommandModel::Mark(Status::InProgress, id))
                }
            }
        } else if cmd == "add"@ {
            if args.len() < 3 {
                Err("Not enough arguments"@)
            } else {
                Ok(CommandModel::Add(args[2]))
            }
        } else if cmd == "list"@ {
            if args.len() < 3 {
                Ok(CommandModel::List(None))
            } else if args[2] == "done"@ {
                Ok(CommandModel::List(Some(Status::Done)))
            } else if args[2] == "todo"@ {
                Ok(CommandModel::List(Some(Status::Todo)))
            } else if args[2] == "in-progress"@ {
                Ok(CommandModel::List(Some(Status::InProgress)))
            } else {
                Err("Invalid option"@)
            }
        } else {
            Err("Invalid argument"@)
        }
    }
}

/// The texts of a list of strings.
pub open spec fn texts(args: Seq<String>) -> Seq<Seq<char>> {
    args.map_values(|a: String| a@)
}

/// A parse result with its texts seen as character sequences.
pub open spec fn parse_result_model(r: Result<Command, String>) -> Result<CommandModel, Seq<char>> {
    match r {
        Ok(c) => Ok(c@),
        Err(e) => Err(e@),
    }
}

fn is_word(s: &String, w: &str) -> (r: bool)
    ensures
        r == (s@ == w@),
{
    *s == String::from_str(w)
}

fn message(m: &str) -> (r: Result<Command, String>)
    ensures
        r matches Err(e) && e@ == m@,
{
    Err(String::from_str(m))
}

/// Reads the command that the argument list asks for; `args[0]` is the
/// program name.
pub fn parse_args(args: Vec<String>) -> (r: Result<Command, String>)
    ensures
        parse_result_model(r) == parse_model(texts(args@)),
{
    let ghost a = texts(args@);
    assert(a.len() == args@.len());
    assert(forall|i: int| 0 <= i < args@.len() ==> a[i] == (#[trigger] args@[i])@);
    if args.len() < 2 {
        return message("Not enough arguments");
    }
    if args.len() > 4 {
        return message("Too many arguments");
    }
    let cmd = &args[1];
    if is_word(cmd, "update") || is_word(cmd, "delete") || is_word(cmd, "mark-todo") || is_word(
        cmd,
        "mark-done",
    ) || is_word(cmd, "mark-in-progress") {
        if args.len() < 3 {
            return message("Not enough arguments");
        }
        let id = match parse_u32(args[2].as_str()) {
            Ok(n) => n,
            Err(e) => return Err(e),
        };
        if is_word(cmd, "update") {
            if args.len() < 4 {
                return message("Not enough arguments");
            }
            let description = args[3].clone();
            Ok(Command::Update(description, id))
        } else if is_word(cmd, "delete") {
            Ok(Command::Delete(id))
        } else if is_word(cmd, "mark-todo") {
            Ok(Command::Mark(Status::Todo, id))
        } else if is_word(cmd, "mark-done") {
            Ok(Command::Mark(Status::Done, id))
        } else {
            Ok(Command::Mark(Status::InProgress, id))
        }
    } else if is_word(cmd, "add") {
        if args.len() < 3 {
            return message("Not enough arguments");
        }
        let description = args[2].clone();
        Ok(Command::Add(description))
    } else if is_word(cmd, "list") {
        if args.len() < 3 {
            Ok(Command::List(None))
        } else if is_word(&args[2], "done") {
            Ok(Command::List(Some(Status::Done)))
        } else if is_word(&args[2], "todo") {
            Ok(Command::List(Some(Status::Todo)))
        } else if is_word(&args[2], "in-progress") {
            Ok(Command::List(Some(Status::InProgress)))
        } else {
            message("Invalid option")
        }
    } else {
        message("Invalid argument")
    }
}

/// An argument list of fewer than two tokens is refused as too short, and
/// one of more than four as too long, whatever the tokens are.
pub proof fn lemma_argument_count_limits(args: Seq<Seq<char>>)
    ensures
        args.len() < 2 ==> parse_model(args) == Err::<CommandModel, Seq<char>>(
            "Not enough arguments"@,
        ),
        args.len() > 4 ==> parse_model(args) == Err::<CommandModel, Seq<char>>(
            "Too many arguments"@,
        ),
{
}

} // verus!
