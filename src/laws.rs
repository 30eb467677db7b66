use vstd::prelude::*;
use crate::model::{AppView, Todo, TodoView, record_of};
use crate::router::{ClickTarget, click_target_of, FIRST_TASK_ROW, TASK_ROW_HEIGHT};
use crate::store::{ids_match_positions, loaded_todos};

verus! {

/// The state after typing each text of `texts` into the input buffer and
/// submitting it, one after the other.
pub open spec fn add_all(a: AppView, texts: Seq<Seq<char>>) -> AppView
    decreases texts.len(),
{
    if texts.len() == 0 {
        a
    } else {
        add_all(AppView { input: texts[0], cursor: 0, ..a }.add_task(), texts.drop_first())
    }
}

/// Submitting any number of tasks keeps every id equal to its position: the
/// ids stay exactly `0..n-1`, and the new tasks come last, in order.
pub proof fn lemma_adds_keep_ids_dense(a: AppView, texts: Seq<Seq<char>>)
    requires
        a.ids_positional(),
    ensures
        add_all(a, texts).ids_positional(),
        add_all(a, texts).todos.len() == a.todos.len() + texts.len(),
        forall|k: int| 0 <= k < a.todos.len() ==> #[trigger] add_all(a, texts).todos[k] == a.todos[k],
        forall|k: int|
            0 <= k < texts.len() ==> #[trigger] add_all(a, texts).todos[a.todos.len() + k].text
                == texts[k],
    decreases texts.len(),
{
    if texts.len() > 0 {
        let b = AppView { input: texts[0], cursor: 0, ..a }.add_task();
        assert(b.ids_positional());
        lemma_adds_keep_ids_dense(b, texts.drop_first());
        let r = add_all(a, texts);
        assert forall|k: int| 0 <= k < texts.len() implies #[trigger] r.todos[a.todos.len() + k].text
            == texts[k] by {
            if k > 0 {
                assert(r.todos[b.todos.len() + (k - 1)].text == texts.drop_first()[k - 1]);
            } else {
                assert(r.todos[a.todos.len() as int] == b.todos[a.todos.len() as int]);
            }
        }
        assert forall|k: int| 0 <= k < a.todos.len() implies #[trigger] r.todos[k] == a.todos[k] by {
            assert(r.todos[k] == b.todos[k]);
        }
    }
}

/// Task `t` with `id` as its id.
pub open spec fn with_id(t: TodoView, id: int) -> TodoView {
    TodoView { id, ..t }
}

/// Deleting task `i` leaves the tasks before it as they were, and moves each
/// later task up by one place, its id falling by exactly one.
pub proof fn lemma_delete_renumbers(a: AppView, i: int)
    requires
        a.wf(),
        0 <= i < a.todos.len(),
    ensures
        a.delete_task(i).todos.len() == a.todos.len() - 1,
        forall|k: int| 0 <= k < i ==> #[trigger] a.delete_task(i).todos[k] == a.todos[k],
        forall|k: int|
            i < k < a.todos.len() ==> #[trigger] a.delete_task(i).todos[k - 1] == with_id(
                a.todos[k],
                a.todos[k].id - 1,
            ),
{
    assert forall|k: int| 0 <= k < i implies #[trigger] a.delete_task(i).todos[k] == a.todos[k] by {
        assert(a.todos[k].id == k);
    }
    assert forall|k: int| i < k < a.todos.len() implies #[trigger] a.delete_task(i).todos[k - 1]
        == with_id(a.todos[k], a.todos[k].id - 1) by {
        assert(a.todos[k].id == k);
    }
}

/// Toggling a task twice gives back the state it started from.
pub proof fn lemma_toggle_twice(a: AppView, i: int)
    requires
        0 <= i < a.todos.len(),
    ensures
        a.toggle_done(i).toggle_done(i) == a,
{
    assert(a.toggle_done(i).toggle_done(i).todos =~= a.todos);
}

/// Whatever the shift, moving the cursor leaves it within the buffer.
pub proof fn lemma_cursor_stays_in_buffer(a: AppView, delta: int)
    requires
        a.wf(),
    ensures
        0 <= a.move_cursor(delta).cursor <= a.input.len(),
        a.move_cursor(delta).input == a.input,
{
}

/// In-place edits work on whole characters: a typed character adds exactly
/// one character to the edited text, and a backspace removes exactly its last
/// character, keeping the rest as it was.
pub proof fn lemma_edits_keep_whole_chars(a: AppView, c: char, k: int)
    requires
        0 <= k < a.todos.len(),
        a.todos[k].editing,
    ensures
        a.apply_edit_char(c).todos[k].text == a.todos[k].text.push(c),
        a.todos[k].text.len() > 0 ==> a.apply_edit_backspace().todos[k].text.len() == a.todos[k].text.len()
            - 1,
        a.todos[k].text.len() > 0 ==> a.apply_edit_backspace().todos[k].text + seq![a.todos[k].text.last()]
            == a.todos[k].text,
{
    let t = a.todos[k].text;
    if t.len() > 0 {
        assert(t.drop_last() + seq![t.last()] =~= t);
    }
}

/// A list that was saved from a well-formed state loads back: its ids match
/// their positions, and the loaded tasks carry the same ids, texts and flags.
pub proof fn lemma_saved_list_reloads(a: AppView, saved: Seq<Todo>)
    requires
        a.wf(),
        saved.map_values(|t: Todo| record_of(t@)) == a.records(),
    ensures
        ids_match_positions(saved),
        loaded_todos(saved).map_values(|t: TodoView| record_of(t)) == a.records(),
{
    assert(saved.len() == a.todos.len()) by {
        assert(saved.map_values(|t: Todo| record_of(t@)).len() == a.records().len());
    }
    assert forall|i: int| 0 <= i < saved.len() implies #[trigger] saved[i].id == i by {
        assert(saved.map_values(|t: Todo| record_of(t@))[i] == a.records()[i]);
        assert(a.records()[i] == record_of(a.todos[i]));
        assert(a.todos[i].id == i);
    }
    let l = loaded_todos(saved).map_values(|t: TodoView| record_of(t));
    assert forall|i: int| 0 <= i < saved.len() implies #[trigger] l[i] == a.records()[i] by {
        assert(saved.map_values(|t: Todo| record_of(t@))[i] == a.records()[i]);
        assert(l[i] == record_of(loaded_todos(saved)[i]));
    }
    assert(l =~= a.records());
}

/// A click on the checkbox of task `i` flips that task's flag and keeps what
/// the store holds of every other task.
pub proof fn lemma_checkbox_click_toggles_one(a: AppView, i: int)
    requires
        a.wf(),
        0 <= i < a.todos.len(),
        FIRST_TASK_ROW + TASK_ROW_HEIGHT * i <= u16::MAX,
    ensures
        ({
            let b = a.on_click(3, (FIRST_TASK_ROW + TASK_ROW_HEIGHT * i) as u16);
            &&& b.records().len() == a.records().len()
            &&& b.todos[i].done == !a.todos[i].done
            &&& b.todos[i].text == a.todos[i].text
            &&& forall|k: int| 0 <= k < a.todos.len() && k != i ==> #[trigger] b.records()[k] == a.records()[k]
        }),
{
    let row = (FIRST_TASK_ROW + TASK_ROW_HEIGHT * i) as u16;
    assert((row as int - FIRST_TASK_ROW) % (TASK_ROW_HEIGHT as int) == 0);
    assert((row as int - FIRST_TASK_ROW) / (TASK_ROW_HEIGHT as int) == i);
    assert(click_target_of(3, row as int, a.todos.len() as int) == ClickTarget::Checkbox(i as usize));
    let b = a.on_click(3, row);
    assert forall|k: int| 0 <= k < a.todos.len() && k != i implies #[trigger] b.records()[k] == a.records()[k] by {
    }
}

} // verus!
