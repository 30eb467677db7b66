use vstd::prelude::*;

verus! {

/// Which class of input the router currently interprets.
#[derive(PartialEq, Eq, Structural, Clone, Copy, Debug)]
pub enum InputMode {
    /// Navigation and commands.
    Normal,
    /// Composing a new task in the input buffer.
    Editing,
    /// Character edits go straight into the task being edited.
    Updating,
}

/// One entry of the list. `id` is the entry's position in the list.
#[derive(Debug)]
pub struct Todo {
    pub id: usize,
    pub text: Vec<char>,
    pub done: bool,
    /// Marks the task that receives typed characters in `Updating` mode.
    pub editing: bool,
}

/// The mathematical value of a task.
pub ghost struct TodoView {
    pub id: int,
    pub text: Seq<char>,
    pub done: bool,
    pub editing: bool,
}

impl View for Todo {
    type V = TodoView;

    open spec fn view(&self) -> TodoView {
        TodoView { id: self.id as int, text: self.text@, done: self.done, editing: self.editing }
    }
}

/// What the store keeps of a task: its id, text and completion flag.
pub type Record = (int, Seq<char>, bool);

pub open spec fn record_of(t: TodoView) -> Record {
    (t.id, t.text, t.done)
}

/// The mathematical value of the whole application state.
pub ghost struct AppView {
    pub input: Seq<char>,
    pub cursor: int,
    pub mode: InputMode,
    pub todos: Seq<TodoView>,
}

pub open spec fn clamp(x: int, lo: int, hi: int) -> int {
    if x < lo {
        lo
    } else if x > hi {
        hi
    } else {
        x
    }
}

impl AppView {
    /// Every task's id is its position.
    pub open spec fn ids_positional(self) -> bool {
        forall|i: int| 0 <= i < self.todos.len() ==> #[trigger] self.todos[i].id == i
    }

    /// At most one task is being edited, and only in `Updating` mode.
    pub open spec fn edit_flags_ok(self) -> bool {
        &&& forall|i: int, j: int|
            0 <= i < self.todos.len() && 0 <= j < self.todos.len() && #[trigger] self.todos[i].editing
                && #[trigger] self.todos[j].editing ==> i == j
        &&& forall|i: int| 0 <= i < self.todos.len() && #[trigger] self.todos[i].editing ==> self.mode
            == InputMode::Updating
    }

    pub open spec fn wf(self) -> bool {
        &&& 0 <= self.cursor <= self.input.len()
        &&& self.ids_positional()
        &&& self.edit_flags_ok()
    }

    /// What the store keeps of the list.
    pub open spec fn records(self) -> Seq<Record> {
        self.todos.map_values(|t: TodoView| record_of(t))
    }

    /// The task that the input buffer becomes when submitted.
    pub open spec fn submitted(self) -> TodoView {
        TodoView { id: self.todos.len() as int, text: self.input, done: false, editing: false }
    }

    pub open spec fn add_task(self) -> AppView {
        AppView { input: Seq::empty(), cursor: 0, todos: self.todos.push(self.submitted()), ..self }
    }

    /// The list without task `i`, the later tasks renumbered to their new positions.
    pub open spec fn delete_task(self, i: int) -> AppView {
        AppView {
            todos: self.todos.remove(i).map(|j: int, t: TodoView| TodoView { id: j, ..t }),
            ..self
        }
    }

    pub open spec fn toggle_done(self, i: int) -> AppView {
        AppView {
            todos: self.todos.update(i, TodoView { done: !self.todos[i].done, ..self.todos[i] }),
            ..self
        }
    }

    pub open spec fn begin_edit(self, i: int) -> AppView {
        AppView {
            mode: InputMode::Updating,
            todos: self.todos.map(|j: int, t: TodoView| TodoView { editing: j == i, ..t }),
            ..self
        }
    }

    pub open spec fn end_edit(self) -> AppView {
        AppView {
            mode: InputMode::Normal,
            todos: self.todos.map_values(|t: TodoView| TodoView { editing: false, ..t }),
            ..self
        }
    }

    pub open spec fn apply_edit_char(self, c: char) -> AppView {
        AppView {
            todos: self.todos.map_values(
                |t: TodoView|
                    if t.editing {
                        TodoView { text: t.text.push(c), ..t }
                    } else {
                        t
                    },
            ),
            ..self
        }
    }

    pub open spec fn apply_edit_backspace(self) -> AppView {
        AppView {
            todos: self.todos.map_values(
                |t: TodoView|
                    if t.editing && t.text.len() > 0 {
                        TodoView { text: t.text.drop_last(), ..t }
                    } else {
                        t
                    },
            ),
            ..self
        }
    }

    pub open spec fn insert_char(self, c: char) -> AppView {
        AppView { input: self.input.insert(self.cursor, c), cursor: self.cursor + 1, ..self }
    }

    pub open spec fn delete_char_before_cursor(self) -> AppView {
        if self.cursor == 0 {
            self
        } else {
            AppView { input: self.input.remove(self.cursor - 1), cursor: self.cursor - 1, ..self }
        }
    }

    pub open spec fn move_cursor(self, delta: int) -> AppView {
        AppView { cursor: clamp(self.cursor + delta, 0, self.input.len() as int), ..self }
    }

    pub open spec fn with_mode(self, mode: InputMode) -> AppView {
        AppView { mode, ..self }
    }
}

/// An index that names no task.
#[derive(PartialEq, Eq, Structural, Clone, Copy, Debug)]
pub enum TodoError {
    OutOfRange,
}

/// The application state: the task list, the input buffer with its cursor
/// (a character index), and the interaction mode.
pub struct App {
    pub input: Vec<char>,
    pub cursor_position: usize,
    pub input_mode: InputMode,
    pub todos: Vec<Todo>,
}

impl View for App {
    type V = AppView;

    open spec fn view(&self) -> AppView {
        AppView {
            input: self.input@,
            cursor: self.cursor_position as int,
            mode: self.input_mode,
            todos: self.todos@.map_values(|t: Todo| t@),
        }
    }
}

impl App {
    /// An empty list, an empty input buffer, `Normal` mode.
    pub fn new() -> (r: App)
        ensures
            r@.wf(),
            r@.todos.len() == 0,
            r@.input.len() == 0,
            r@.cursor == 0,
            r@.mode == InputMode::Normal,
    {
        let r = App { input: Vec::new(), cursor_position: 0, input_mode: InputMode::Normal, todos: Vec::new() };
        assert(r@.todos =~= Seq::<TodoView>::empty());
        r
    }

    /// Appends the input buffer as a new pending task and clears the buffer.
    pub fn add_task(&mut self)
        requires
            old(self)@.wf(),
        ensures
            final(self)@ == old(self)@.add_task(),
            final(self)@.wf(),
    {
        let mut text: Vec<char> = Vec::new();
        core::mem::swap(&mut text, &mut self.input);
        let id = self.todos.len();
        self.todos.push(Todo { id, text, done: false, editing: false });
        self.cursor_position = 0;
        assert(self@.todos =~= old(self)@.add_task().todos);
        assert(self@.input =~= Seq::<char>::empty());
    }

    /// Puts `t` at position `j` of the list, in place of what stood there.
    fn replace_todo(&mut self, j: usize, t: Todo)
        requires
            j < old(self).todos.len(),
        ensures
            final(self).todos@ == old(self).todos@.update(j as int, t),
            final(self).input == old(self).input,
            final(self).cursor_position == old(self).cursor_position,
            final(self).input_mode == old(self).input_mode,
    {
        self.todos.remove(j);
        self.todos.insert(j, t);
        assert(self.todos@ =~= old(self).todos@.update(j as int, t));
    }

    /// Removes task `index` and renumbers the later tasks to their new positions.
    pub fn delete_task(&mut self, index: usize) -> (r: Result<(), TodoError>)
        requires
            old(self)@.wf(),
        ensures
            index >= old(self)@.todos.len() ==> r == Err::<(), TodoError>(TodoError::OutOfRange)
                && final(self)@ == old(self)@,
            index < old(self)@.todos.len() ==> r == Ok::<(), TodoError>(()) && final(self)@
                == old(self)@.delete_task(index as int),
            final(self)@.wf(),
    {
        if index >= self.todos.len() {
            return Err(TodoError::OutOfRange);
        }
        let ghost target = old(self)@.delete_task(index as int);
        self.todos.remove(index);
        assert(self@.todos =~= old(self)@.todos.remove(index as int));
        assert forall|k: int| 0 <= k < index implies #[trigger] self@.todos[k] == target.todos[k] by {
            assert(old(self)@.todos[k].id == k);
        }
        let mut j: usize = index;
        while j < self.todos.len()
            invariant
                index <= j <= self.todos.len(),
                self.todos.len() == old(self).todos.len() - 1,
                self.input == old(self).input,
                self.cursor_position == old(self).cursor_position,
                self.input_mode == old(self).input_mode,
                target == old(self)@.delete_task(index as int),
                old(self)@.wf(),
                index < old(self)@.todos.len(),
                forall|k: int| 0 <= k < j ==> #[trigger] self@.todos[k] == target.todos[k],
                forall|k: int|
                    j <= k < self.todos.len() ==> #[trigger] self@.todos[k] == old(self)@.todos.remove(
                        index as int,
                    )[k],
            decreases self.todos.len() - j,
        {
            let ghost prev = self@.todos;
            assert(prev[j as int] == old(self)@.todos.remove(index as int)[j as int]);
            let mut t = self.todos.remove(j);
            t.id = j;
            self.todos.insert(j, t);
            proof {
                assert(self@.todos =~= prev.update(j as int, t@));
                assert forall|k: int| 0 <= k < j + 1 implies #[trigger] self@.todos[k] == target.todos[k] by {
                    if k < j {
                        assert(prev[k] == target.todos[k]);
                    }
                }
            }
            j += 1;
        }
        proof {
            assert(self@.todos =~= target.todos);
            assert forall|k: int| 0 <= k < self@.todos.len() implies #[trigger] self@.todos[k].id == k by {
                assert(self@.todos[k] == target.todos[k]);
            }
        }
        Ok(())
    }

    /// Flips the completion flag of task `index`.
    pub fn toggle_done(&mut self, index: usize) -> (r: Result<(), TodoError>)
        requires
            old(self)@.wf(),
        ensures
            index >= old(self)@.todos.len() ==> r == Err::<(), TodoError>(TodoError::OutOfRange)
                && final(self)@ == old(self)@,
            index < old(self)@.todos.len() ==> r == Ok::<(), TodoError>(()) && final(self)@
                == old(self)@.toggle_done(index as int),
            final(self)@.wf(),
    {
        if index >= self.todos.len() {
            return Err(TodoError::OutOfRange);
        }
        let mut t = self.todos.remove(index);
        t.done = !t.done;
        self.todos.insert(index, t);
        assert(self@.todos =~= old(self)@.toggle_done(index as int).todos);
        Ok(())
    }

    /// Makes task `index` the only one being edited and switches to `Updating`.
    pub fn begin_edit(&mut self, index: usize) -> (r: Result<(), TodoError>)
        requires
            old(self)@.wf(),
        ensures
            index >= old(self)@.todos.len() ==> r == Err::<(), TodoError>(TodoError::OutOfRange)
                && final(self)@ == old(self)@,
            index < old(self)@.todos.len() ==> r == Ok::<(), TodoError>(()) && final(self)@
                == old(self)@.begin_edit(index as int),
            final(self)@.wf(),
    {
        if index >= self.todos.len() {
            return Err(TodoError::OutOfRange);
        }
        let ghost target = old(self)@.begin_edit(index as int).todos;
        let mut j: usize = 0;
        while j < self.todos.len()
            invariant
                j <= self.todos.len(),
                self.todos.len() == old(self).todos.len(),
                self.input == old(self).input,
                self.cursor_position == old(self).cursor_position,
                self.input_mode == old(self).input_mode,
                target == old(self)@.begin_edit(index as int).todos,
                forall|k: int| 0 <= k < j ==> #[trigger] self@.todos[k] == target[k],
                forall|k: int| j <= k < self.todos.len() ==> #[trigger] self@.todos[k] == old(self)@.todos[k],
            decreases self.todos.len() - j,
        {
            let ghost prev = self@.todos;
            assert(prev[j as int] == old(self)@.todos[j as int]);
            let mut t = self.todos.remove(j);
            t.editing = j == index;
            self.todos.insert(j, t);
            proof {
                assert(self@.todos =~= prev.update(j as int, t@));
                assert forall|k: int| 0 <= k < j + 1 implies #[trigger] self@.todos[k] == target[k] by {
                    if k < j {
                        assert(prev[k] == target[k]);
                    }
                }
            }
            j += 1;
        }
        assert(self@.todos =~= target);
        self.input_mode = InputMode::Updating;
        Ok(())
    }

    /// Clears every edit flag and switches to `Normal`.
    pub fn end_edit(&mut self)
        requires
            old(self)@.wf(),
        ensures
            final(self)@ == old(self)@.end_edit(),
            final(self)@.wf(),
    {
        let ghost target = old(self)@.end_edit().todos;
        let mut j: usize = 0;
        while j < self.todos.len()
            invariant
                j <= self.todos.len(),
                self.todos.len() == old(self).todos.len(),
                self.input == old(self).input,
                self.cursor_position == old(self).cursor_position,
                self.input_mode == old(self).input_mode,
                target == old(self)@.end_edit().todos,
                forall|k: int| 0 <= k < j ==> #[trigger] self@.todos[k] == target[k],
                forall|k: int| j <= k < self.todos.len() ==> #[trigger] self@.todos[k] == old(self)@.todos[k],
            decreases self.todos.len() - j,
        {
            let ghost prev = self@.todos;
            assert(prev[j as int] == old(self)@.todos[j as int]);
            let mut t = self.todos.remove(j);
            t.editing = false;
            self.todos.insert(j, t);
            proof {
                assert(self@.todos =~= prev.update(j as int, t@));
                assert forall|k: int| 0 <= k < j + 1 implies #[trigger] self@.todos[k] == target[k] by {
                    if k < j {
                        assert(prev[k] == target[k]);
                    }
                }
            }
            j += 1;
        }
        assert(self@.todos =~= target);
        self.input_mode = InputMode::Normal;
    }

    /// Appends `c` to the text of the task being edited, if there is one.
    pub fn apply_edit_char(&mut self, c: char) -> (changed: bool)
        requires
            old(self)@.wf(),
        ensures
            final(self)@ == old(self)@.apply_edit_char(c),
            changed == exists|k: int| 0 <= k < old(self)@.todos.len() && #[trigger] old(self)@.todos[k].editing,
            final(self)@.wf(),
    {
        let ghost target = old(self)@.apply_edit_char(c).todos;
        let mut changed = false;
        let mut j: usize = 0;
        while j < self.todos.len()
            invariant
                j <= self.todos.len(),
                self.todos.len() == old(self).todos.len(),
                self.input == old(self).input,
                self.cursor_position == old(self).cursor_position,
                self.input_mode == old(self).input_mode,
                target == old(self)@.apply_edit_char(c).todos,
                changed == exists|k: int| 0 <= k < j && #[trigger] old(self)@.todos[k].editing,
                forall|k: int| 0 <= k < j ==> #[trigger] self@.todos[k] == target[k],
                forall|k: int| j <= k < self.todos.len() ==> #[trigger] self@.todos[k] == old(self)@.todos[k],
            decreases self.todos.len() - j,
        {
            let ghost prev = self@.todos;
            assert(prev[j as int] == old(self)@.todos[j as int]);
            let mut t = self.todos.remove(j);
            assert(t@ == old(self)@.todos[j as int]);
            assert(old(self)@.todos[j as int].editing == t.editing);
            changed = changed || (t.editing);
            if t.editing {
                t.text.push(c);
            }
            self.todos.insert(j, t);
            proof {
                assert(self@.todos =~= prev.update(j as int, t@));
                assert forall|k: int| 0 <= k < j + 1 implies #[trigger] self@.todos[k] == target[k] by {
                    if k < j {
                        assert(prev[k] == target[k]);
                    }
                }
            }
            j += 1;
        }
        assert(self@.todos =~= target);
        changed
    }

    /// Removes the last character of the text of the task being edited, if
    /// there is one and its text is not empty.
    pub fn apply_edit_backspace(&mut self) -> (changed: bool)
        requires
            old(self)@.wf(),
        ensures
            final(self)@ == old(self)@.apply_edit_backspace(),
            changed == exists|k: int| 0 <= k < old(self)@.todos.len() && #[trigger] old(self)@.todos[k].editing && old(self)@.todos[k].text.len() > 0,
            final(self)@.wf(),
    {
        let ghost target = old(self)@.apply_edit_backspace().todos;
        let mut changed = false;
        let mut j: usize = 0;
        while j < self.todos.len()
            invariant
                j <= self.todos.len(),
                self.todos.len() == old(self).todos.len(),
                self.input == old(self).input,
                self.cursor_position == old(self).cursor_position,
                self.input_mode == old(self).input_mode,
                target == old(self)@.apply_edit_backspace().todos,
                changed == exists|k: int| 0 <= k < j && #[trigger] old(self)@.todos[k].editing && old(self)@.todos[k].text.len() > 0,
                forall|k: int| 0 <= k < j ==> #[trigger] self@.todos[k] == target[k],
                forall|k: int| j <= k < self.todos.len() ==> #[trigger] self@.todos[k] == old(self)@.todos[k],
            decreases self.todos.len() - j,
        {
            let ghost prev = self@.todos;
            assert(prev[j as int] == old(self)@.todos[j as int]);
            let mut t = self.todos.remove(j);
            assert(t@ == old(self)@.todos[j as int]);
            assert(old(self)@.todos[j as int].editing == t.editing);
            changed = changed || (t.editing && t.text.len() > 0);
            if t.editing && t.text.len() > 0 {
                t.text.pop();
            }
            self.todos.insert(j, t);
            proof {
                assert(self@.todos =~= prev.update(j as int, t@));
                assert forall|k: int| 0 <= k < j + 1 implies #[trigger] self@.todos[k] == target[k] by {
                    if k < j {
                        assert(prev[k] == target[k]);
                    }
                }
            }
            j += 1;
        }
        assert(self@.todos =~= target);
        changed
    }

    /// Inserts `c` at the cursor and moves the cursor past it.
    pub fn insert_char(&mut self, c: char)
        requires
            old(self)@.wf(),
        ensures
            final(self)@ == old(self)@.insert_char(c),
            final(self)@.wf(),
    {
        self.input.insert(self.cursor_position, c);
        let new_len = self.input.len();
        assert(self.cursor_position < new_len);
        self.cursor_position = self.cursor_position + 1;
    }

    /// Removes the character left of the cursor and moves the cursor back;
    /// nothing happens at the start of the buffer.
    pub fn delete_char_before_cursor(&mut self)
        requires
            old(self)@.wf(),
        ensures
            final(self)@ == old(self)@.delete_char_before_cursor(),
            final(self)@.wf(),
    {
        if self.cursor_position > 0 {
            self.input.remove(self.cursor_position - 1);
            self.cursor_position = self.cursor_position - 1;
        }
    }

    /// Moves the cursor by `delta` characters, clamped to the buffer.
    pub fn move_cursor(&mut self, delta: isize)
        requires
            old(self)@.wf(),
        ensures
            final(self)@ == old(self)@.move_cursor(delta as int),
            final(self)@.wf(),
    {
        let len = self.input.len();
        if delta >= 0 {
            let d = delta as usize;
            if d >= len - self.cursor_position {
                self.cursor_position = len;
            } else {
                self.cursor_position = self.cursor_position + d;
            }
        } else {
            let d = (-(delta + 1)) as usize + 1;
            if d >= self.cursor_position {
                self.cursor_position = 0;
            } else {
                self.cursor_position = self.cursor_position - d;
            }
        }
    }

    /// Ends any in-place edit and switches to `mode`, which is not `Updating`.
    pub fn leave_edit(&mut self, mode: InputMode)
        requires
            old(self)@.wf(),
            mode != InputMode::Updating,
        ensures
            final(self)@ == old(self)@.end_edit().with_mode(mode),
            final(self)@.wf(),
    {
        self.end_edit();
        self.input_mode = mode;
    }
}

} // verus!
