//! The interactive screen's state, as bare data; drawing and input are
//! outside glue.

use vstd::prelude::*;

verus! {

/// Which screen is showing.  Calendars are referred to by their index in
/// the client's calendar list.
#[derive(Debug)]
pub enum CurrentScreen {
    Home(HomeState),
    List(ListType),
    View(usize, SelectedTodo),
    Edit(usize, SelectedTodo),
    New,
}

/// The home screen's cursor.
#[derive(Debug)]
pub struct HomeState {
    pub selection: usize,
}

/// Which list is showing.
#[derive(Debug)]
pub enum ListType {
    Today,
    All,
    Past,
    Calendar(String),
}

/// The todo the cursor points at.
#[derive(Debug)]
pub struct SelectedTodo {}

} // verus!
