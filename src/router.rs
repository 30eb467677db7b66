use vstd::prelude::*;
use crate::model::{App, AppView, InputMode};

verus! {

/// The screen row of the text line of the first task.
pub const FIRST_TASK_ROW: u16 = 5;

/// The height of one task's box, in rows.
pub const TASK_ROW_HEIGHT: u16 = 3;

/// The column of a task's delete glyph.
pub const DELETE_COLUMN: u16 = 56;

/// A key press, as the router tells keys apart.
#[derive(PartialEq, Eq, Structural, Clone, Copy, Debug)]
pub enum Key {
    Char(char),
    Enter,
    Backspace,
    Left,
    Right,
    Esc,
    Other,
}

/// One input event: a key press, or a press of the left mouse button at a
/// screen cell.
#[derive(PartialEq, Eq, Structural, Clone, Copy, Debug)]
pub enum Event {
    Key(Key),
    Click { column: u16, row: u16 },
}

/// What the run loop does after an event: stop, and write the list back to
/// the store.
#[derive(PartialEq, Eq, Structural, Clone, Copy, Debug)]
pub struct Step {
    pub exit: bool,
    pub persist: bool,
}

/// The part of the screen that a click lands on.
#[derive(PartialEq, Eq, Structural, Clone, Copy, Debug)]
pub enum ClickTarget {
    /// The input box of a new task.
    InputBox,
    /// The checkbox of task `i`.
    Checkbox(usize),
    /// The delete glyph of task `i`.
    Delete(usize),
    /// The text of task `i`.
    Text(usize),
    /// Anything else.
    Elsewhere,
}

pub open spec fn click_target_of(column: int, row: int, n: int) -> ClickTarget {
    if (column >= 1 && row == 3) || row == 2 || row == 1 {
        ClickTarget::InputBox
    } else if row >= FIRST_TASK_ROW && (row - FIRST_TASK_ROW) % (TASK_ROW_HEIGHT as int) == 0 && (row
        - FIRST_TASK_ROW) / (TASK_ROW_HEIGHT as int) < n {
        let i = ((row - FIRST_TASK_ROW) / (TASK_ROW_HEIGHT as int)) as usize;
        if column == 3 || column == 4 {
            ClickTarget::Checkbox(i)
        } else if column == DELETE_COLUMN {
            ClickTarget::Delete(i)
        } else if 5 < column < DELETE_COLUMN {
            ClickTarget::Text(i)
        } else {
            ClickTarget::Elsewhere
        }
    } else {
        ClickTarget::Elsewhere
    }
}

/// Which part of the screen the cell at `column`, `row` belongs to, with `n`
/// tasks listed.
pub fn click_target(column: u16, row: u16, n: usize) -> (r: ClickTarget)
    ensures
        r == click_target_of(column as int, row as int, n as int),
{
    if (column >= 1 && row == 3) || row == 2 || row == 1 {
        ClickTarget::InputBox
    } else if row >= FIRST_TASK_ROW && (row - FIRST_TASK_ROW) % TASK_ROW_HEIGHT == 0 && (((row
        - FIRST_TASK_ROW) / TASK_ROW_HEIGHT) as usize) < n {
        let i = ((row - FIRST_TASK_ROW) / TASK_ROW_HEIGHT) as usize;
        if column == 3 || column == 4 {
            ClickTarget::Checkbox(i)
        } else if column == DELETE_COLUMN {
            ClickTarget::Delete(i)
        } else if 5 < column && column < DELETE_COLUMN {
            ClickTarget::Text(i)
        } else {
            ClickTarget::Elsewhere
        }
    } else {
        ClickTarget::Elsewhere
    }
}

impl AppView {
    pub open spec fn on_key(self, k: Key) -> AppView {
        match self.mode {
            InputMode::Normal => self,
            InputMode::Editing => match k {
                Key::Enter => self.add_task(),
                Key::Char(c) => self.insert_char(c),
                Key::Backspace => self.delete_char_before_cursor(),
                Key::Left => self.move_cursor(-1),
                Key::Right => self.move_cursor(1),
                Key::Esc => self.with_mode(InputMode::Normal),
                Key::Other => self,
            },
            InputMode::Updating => match k {
                Key::Char(c) => self.apply_edit_char(c),
                Key::Backspace => self.apply_edit_backspace(),
                Key::Enter => self.end_edit(),
                _ => self,
            },
        }
    }

    pub open spec fn on_click(self, column: u16, row: u16) -> AppView {
        match click_target_of(column as int, row as int, self.todos.len() as int) {
            ClickTarget::InputBox => self.end_edit().with_mode(InputMode::Editing),
            ClickTarget::Checkbox(i) => self.end_edit().toggle_done(i as int),
            ClickTarget::Delete(i) => self.end_edit().delete_task(i as int),
            ClickTarget::Text(i) => self.begin_edit(i as int),
            ClickTarget::Elsewhere => self.end_edit(),
        }
    }

    /// The state after event `e`.
    pub open spec fn on_event(self, e: Event) -> AppView {
        match e {
            Event::Key(k) => self.on_key(k),
            Event::Click { column, row } => self.on_click(column, row),
        }
    }

    /// Whether event `e` ends the run.
    pub open spec fn exits(self, e: Event) -> bool {
        self.mode == InputMode::Normal && e == Event::Key(Key::Esc)
    }
}

proof fn lemma_edit_flags_leave_records(a: AppView, i: int)
    ensures
        a.end_edit().records() == a.records(),
        a.begin_edit(i).records() == a.records(),
{
    assert(a.end_edit().records() =~= a.records());
    assert(a.begin_edit(i).records() =~= a.records());
}

proof fn lemma_edit_char_records(a: AppView, c: char)
    ensures
        (a.apply_edit_char(c).records() != a.records()) == exists|k: int|
            0 <= k < a.todos.len() && #[trigger] a.todos[k].editing,
{
    if exists|k: int| 0 <= k < a.todos.len() && #[trigger] a.todos[k].editing {
        let k = choose|k: int| 0 <= k < a.todos.len() && #[trigger] a.todos[k].editing;
        assert(a.apply_edit_char(c).records()[k].1.len() != a.records()[k].1.len());
    } else {
        assert(a.apply_edit_char(c).records() =~= a.records());
    }
}

proof fn lemma_edit_backspace_records(a: AppView)
    ensures
        (a.apply_edit_backspace().records() != a.records()) == exists|k: int|
            0 <= k < a.todos.len() && #[trigger] a.todos[k].editing && a.todos[k].text.len() > 0,
{
    if exists|k: int| 0 <= k < a.todos.len() && #[trigger] a.todos[k].editing && a.todos[k].text.len() > 0 {
        let k = choose|k: int|
            0 <= k < a.todos.len() && #[trigger] a.todos[k].editing && a.todos[k].text.len() > 0;
        assert(a.apply_edit_backspace().records()[k].1.len() != a.records()[k].1.len());
    } else {
        assert(a.apply_edit_backspace().records() =~= a.records());
    }
}

impl App {
    fn handle_key(&mut self, k: Key) -> (r: Step)
        requires
            old(self)@.wf(),
        ensures
            final(self)@ == old(self)@.on_key(k),
            final(self)@.wf(),
            r.exit == (old(self)@.mode == InputMode::Normal && k == Key::Esc),
            r.persist == (final(self)@.records() != old(self)@.records()),
    {
        match self.input_mode {
            InputMode::Normal => Step { exit: k == Key::Esc, persist: false },
            InputMode::Editing => match k {
                Key::Enter => {
                    self.add_task();
                    assert(self@.records().len() != old(self)@.records().len());
                    Step { exit: false, persist: true }
                },
                Key::Char(c) => {
                    self.insert_char(c);
                    Step { exit: false, persist: false }
                },
                Key::Backspace => {
                    self.delete_char_before_cursor();
                    Step { exit: false, persist: false }
                },
                Key::Left => {
                    self.move_cursor(-1);
                    Step { exit: false, persist: false }
                },
                Key::Right => {
                    self.move_cursor(1);
                    Step { exit: false, persist: false }
                },
                Key::Esc => {
                    self.input_mode = InputMode::Normal;
                    Step { exit: false, persist: false }
                },
                Key::Other => Step { exit: false, persist: false },
            },
            InputMode::Updating => match k {
                Key::Char(c) => {
                    let changed = self.apply_edit_char(c);
                    proof {
                        lemma_edit_char_records(old(self)@, c);
                    }
                    Step { exit: false, persist: changed }
                },
                Key::Backspace => {
                    let changed = self.apply_edit_backspace();
                    proof {
                        lemma_edit_backspace_records(old(self)@);
                    }
                    Step { exit: false, persist: changed }
                },
                Key::Enter => {
                    self.end_edit();
                    proof {
                        lemma_edit_flags_leave_records(old(self)@, 0);
                    }
                    Step { exit: false, persist: false }
                },
                _ => Step { exit: false, persist: false },
            },
        }
    }

    fn handle_click(&mut self, column: u16, row: u16) -> (r: Step)
        requires
            old(self)@.wf(),
        ensures
            final(self)@ == old(self)@.on_click(column, row),
            final(self)@.wf(),
            r.persist == (final(self)@.records() != old(self)@.records()),
    {
        let target = click_target(column, row, self.todos.len());
        proof {
            lemma_edit_flags_leave_records(old(self)@, 0);
        }
        match target {
            ClickTarget::InputBox => {
                self.leave_edit(InputMode::Editing);
                Step { exit: false, persist: false }
            },
            ClickTarget::Checkbox(i) => {
                self.end_edit();
                let _ = self.toggle_done(i);
                assert(self@.records()[i as int] != old(self)@.records()[i as int]);
                Step { exit: false, persist: true }
            },
            ClickTarget::Delete(i) => {
                self.end_edit();
                let _ = self.delete_task(i);
                assert(self@.records().len() != old(self)@.records().len());
                Step { exit: false, persist: true }
            },
            ClickTarget::Text(i) => {
                let _ = self.begin_edit(i);
                proof {
                    lemma_edit_flags_leave_records(old(self)@, i as int);
                }
                Step { exit: false, persist: false }
            },
            ClickTarget::Elsewhere => {
                self.end_edit();
                Step { exit: false, persist: false }
            },
        }
    }

    /// Routes one event to the operation that the current mode gives it.
    /// `persist` is set exactly when what the store keeps of the list changed.
    pub fn handle_event(&mut self, e: Event) -> (r: Step)
        requires
            old(self)@.wf(),
        ensures
            final(self)@ == old(self)@.on_event(e),
            final(self)@.wf(),
            r.exit == old(self)@.exits(e),
            r.persist == (final(self)@.records() != old(self)@.records()),
    {
        match e {
            Event::Key(k) => self.handle_key(k),
            Event::Click { column, row } => {
                let r = self.handle_click(column, row);
                Step { exit: false, persist: r.persist }
            },
        }
    }
}

} // verus!
