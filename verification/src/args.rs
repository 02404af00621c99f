//! The command-line surface, as bare data: what each subcommand carries.
//! The argument parsing itself is outside glue.

use vstd::prelude::*;

verus! {

/// The whole command line: one subcommand.
#[derive(Debug)]
pub struct ReminderArgs {
    pub subcommand: ReminderSubcommands,
}

/// Every subcommand the tool answers to.
#[derive(Debug)]
pub enum ReminderSubcommands {
    Interactive(InteractiveCommand),
    Calendars(CalendarsCommand),
    New(NewCommand),
    Edit(EditCommand),
    Copy(CopyCommand),
    Import(ImportCommand),
    List(ListCommand),
    Search(SearchCommand),
    Move(MoveCommand),
    Cancel(ActionCommand),
    Delete(ActionCommand),
    Done(ActionCommand),
    Info(ActionCommand),
    Test(TestCommand),
}

/// Lists the calendars.
#[derive(Debug)]
pub struct CalendarsCommand {}

/// A scratch command kept for experiments.
#[derive(Debug)]
pub struct TestCommand {
    pub pong: Option<i32>,
}

/// A command acting on reminders by number.
#[derive(Debug)]
pub struct ActionCommand {
    pub reminders: Vec<i32>,
}

/// Edits one reminder.
#[derive(Debug)]
pub struct EditCommand {
    pub reminder: i32,
}

/// Moves reminders to another calendar.
#[derive(Debug)]
pub struct MoveCommand {
    pub calendar: String,
    pub reminders: Vec<i32>,
}

/// Creates a reminder.
#[derive(Debug)]
pub struct NewCommand {
    pub calendar: Option<String>,
    pub start: Option<String>,
    pub due: Option<String>,
    pub location: Option<String>,
    pub priority: Option<i32>,
    pub category: Option<String>,
    pub description: Option<String>,
    pub summary: Option<String>,
    pub tui: bool,
}

/// Imports a calendar file.
#[derive(Debug)]
pub struct ImportCommand {
    pub calendar: String,
}

/// Copies a reminder.
#[derive(Debug)]
pub struct CopyCommand {}

/// Searches reminders by a term.
#[derive(Debug)]
pub struct SearchCommand {
    pub calendar: Option<String>,
    pub term: String,
}

/// Prints the incomplete reminders.
#[derive(Debug)]
pub struct ListCommand {
    pub calendar: Option<String>,
}

/// Opens the interactive screen.
#[derive(Debug)]
pub struct InteractiveCommand {}

} // verus!
