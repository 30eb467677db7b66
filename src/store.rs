use vstd::prelude::*;
use crate::model::{App, AppView, InputMode, Todo, TodoView};

verus! {

/// What the store holds for an empty list.
pub const EMPTY_LIST: &'static str = "[]";

/// Why the stored list could not be had.
#[derive(PartialEq, Eq, Structural, Clone, Copy, Debug)]
pub enum StoreError {
    /// The store cannot be opened or created.
    StoreUnavailable,
    /// The stored value is not a valid task list.
    CorruptData,
}

/// What startup reads: the stored text, or the empty list when nothing is
/// stored yet, with whether that empty list must be written to the store.
pub fn stored_or_seed(stored: Option<String>) -> (r: (String, bool))
    ensures
        stored is None ==> r.0@ == EMPTY_LIST@ && r.1,
        stored is Some ==> r.0 == stored->Some_0 && !r.1,
{
    match stored {
        Some(s) => (s, false),
        None => (EMPTY_LIST.to_owned(), true),
    }
}

/// The tasks as loaded: each entry kept, none being edited.
pub open spec fn loaded_todos(todos: Seq<Todo>) -> Seq<TodoView> {
    todos.map_values(|t: Todo| TodoView { editing: false, ..t@ })
}

/// Whether each entry's id is its position.
pub open spec fn ids_match_positions(todos: Seq<Todo>) -> bool {
    forall|i: int| 0 <= i < todos.len() ==> #[trigger] todos[i].id == i
}

/// The state at startup, with `todos` as the list.
pub open spec fn startup_view(todos: Seq<TodoView>) -> AppView {
    AppView { input: Seq::empty(), cursor: 0, mode: InputMode::Normal, todos }
}

impl App {
    /// The startup state over a decoded list. A list whose ids are not its
    /// positions is corrupt.
    pub fn from_loaded(todos: Vec<Todo>) -> (r: Result<App, StoreError>)
        ensures
            r is Ok <==> ids_match_positions(todos@),
            r is Ok ==> r->Ok_0@ == startup_view(loaded_todos(todos@)) && r->Ok_0@.wf(),
            r is Err ==> r->Err_0 == StoreError::CorruptData,
    {
        let ghost all = todos@;
        let mut rest = todos;
        let mut out: Vec<Todo> = Vec::new();
        while rest.len() > 0
            invariant
                all == todos@,
                out@.len() + rest@.len() == all.len(),
                rest@ == all.subrange(out@.len() as int, all.len() as int),
                forall|i: int| 0 <= i < out@.len() ==> all[i].id == i,
                out@.map_values(|t: Todo| t@) == loaded_todos(all).subrange(0, out@.len() as int),
            decreases rest@.len(),
        {
            let ghost done_before = out@.map_values(|t: Todo| t@);
            let mut t = rest.remove(0);
            assert(t == all[out@.len() as int]);
            if t.id != out.len() {
                assert(all[out@.len() as int].id != out@.len());
                return Err(StoreError::CorruptData);
            }
            t.editing = false;
            out.push(t);
            assert(out@.map_values(|t: Todo| t@) =~= loaded_todos(all).subrange(0, out@.len() as int));
            assert(rest@ =~= all.subrange(out@.len() as int, all.len() as int));
        }
        let app = App { input: Vec::new(), cursor_position: 0, input_mode: InputMode::Normal, todos: out };
        assert(app@.todos =~= loaded_todos(all));
        assert(app@.input =~= Seq::<char>::empty());
        Ok(app)
    }
}

} // verus!
