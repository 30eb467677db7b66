use vstd::prelude::*;
use crate::model::{App, AppView, InputMode, Todo, TodoView};

verus! {

/// The width, in characters, that a task's text is padded to.
pub const TEXT_WIDTH: usize = 48;

/// How many task boxes the screen layout holds.
pub const VISIBLE_TASKS: usize = 17;

/// The column, inside the input box, of the buffer's first character.
pub const INPUT_TEXT_COLUMN: u16 = 2;

/// The column, inside a task's box, of the task text's first character.
pub const TASK_TEXT_COLUMN: u16 = 7;

pub open spec fn checkbox_glyph(done: bool) -> Seq<char> {
    if done {
        seq!['[', '.', '/', ']', ' ']
    } else {
        seq!['[', ' ', ' ', ']', ' ']
    }
}

pub open spec fn delete_glyph() -> Seq<char> {
    seq!['[', 'x', ']', ' ']
}

/// The spaces that pad a text of `len` characters to the text width.
pub open spec fn padding(len: int) -> Seq<char> {
    Seq::new(if len < TEXT_WIDTH { (TEXT_WIDTH - len) as nat } else { 0 }, |_i: int| ' ')
}

/// The line drawn for a task: its checkbox, its text, the padding and the
/// delete glyph.
pub open spec fn row_text_of(t: TodoView) -> Seq<char> {
    checkbox_glyph(t.done) + t.text + padding(t.text.len() as int) + delete_glyph()
}

/// The line drawn for task `t`.
pub fn row_text(t: &Todo) -> (r: Vec<char>)
    ensures
        r@ == row_text_of(t@),
{
    let mut r: Vec<char> = if t.done {
        vec!['[', '.', '/', ']', ' ']
    } else {
        vec!['[', ' ', ' ', ']', ' ']
    };
    let mut i: usize = 0;
    while i < t.text.len()
        invariant
            i <= t.text.len(),
            r@ == checkbox_glyph(t.done) + t.text@.subrange(0, i as int),
        decreases t.text.len() - i,
    {
        r.push(t.text[i]);
        i += 1;
        assert(r@ =~= checkbox_glyph(t.done) + t.text@.subrange(0, i as int));
    }
    assert(t.text@.subrange(0, i as int) =~= t.text@);
    let ghost head = r@;
    let mut n: usize = t.text.len();
    while n < TEXT_WIDTH
        invariant
            t.text.len() <= n <= TEXT_WIDTH || n == t.text.len(),
            head == checkbox_glyph(t.done) + t.text@,
            r@ == head + Seq::new((n - t.text.len()) as nat, |_i: int| ' '),
        decreases TEXT_WIDTH - n,
    {
        r.push(' ');
        n += 1;
        assert(r@ =~= head + Seq::new((n - t.text.len()) as nat, |_i: int| ' '));
    }
    assert(Seq::new((n - t.text.len()) as nat, |_i: int| ' ') =~= padding(t.text.len() as int));
    r.push('[');
    r.push('x');
    r.push(']');
    r.push(' ');
    assert(r@ =~= row_text_of(t@));
    r
}

/// Where the terminal's text cursor goes.
#[derive(PartialEq, Eq, Structural, Clone, Copy, Debug)]
pub enum CursorSpot {
    /// No cursor is shown.
    Hidden,
    /// In the input box, `offset` characters into the buffer.
    InputBox { offset: usize },
    /// In the box of task `index`, `offset` characters into its text.
    Task { index: usize, offset: usize },
}

/// The cursor: in the input box at the buffer's cursor in `Editing` mode, at
/// the end of the edited task's text in `Updating` mode, hidden otherwise.
pub open spec fn cursor_spot_of(a: AppView, r: CursorSpot) -> bool {
    match a.mode {
        InputMode::Normal => r == CursorSpot::Hidden,
        InputMode::Editing => r == CursorSpot::InputBox { offset: a.cursor as usize },
        InputMode::Updating => match r {
            CursorSpot::Task { index, offset } => index < a.todos.len() && a.todos[index as int].editing
                && offset == a.todos[index as int].text.len(),
            CursorSpot::Hidden => forall|k: int| 0 <= k < a.todos.len() ==> !(#[trigger] a.todos[k].editing),
            _ => false,
        },
    }
}

impl App {
    /// Where the text cursor is drawn.
    pub fn cursor_spot(&self) -> (r: CursorSpot)
        requires
            self@.wf(),
        ensures
            cursor_spot_of(self@, r),
    {
        match self.input_mode {
            InputMode::Normal => CursorSpot::Hidden,
            InputMode::Editing => CursorSpot::InputBox { offset: self.cursor_position },
            InputMode::Updating => {
                let mut k: usize = 0;
                while k < self.todos.len()
                    invariant
                        k <= self.todos.len(),
                        self.input_mode == InputMode::Updating,
                        forall|j: int| 0 <= j < k ==> !(#[trigger] self@.todos[j].editing),
                    decreases self.todos.len() - k,
                {
                    if self.todos[k].editing {
                        assert(self@.todos[k as int] == self.todos@[k as int]@);
                        let r = CursorSpot::Task { index: k, offset: self.todos[k].text.len() };
                        return r;
                    }
                    k += 1;
                }
                CursorSpot::Hidden
            },
        }
    }
}

} // verus!
