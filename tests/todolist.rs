use todolist::model::{App, InputMode, Todo, TodoError};
use todolist::render::{row_text, CursorSpot};
use todolist::router::{click_target, ClickTarget, Event, Key, Step};
use todolist::store::{stored_or_seed, StoreError, EMPTY_LIST};

fn chars(s: &str) -> Vec<char> {
    s.chars().collect()
}

fn text(t: &Todo) -> String {
    t.text.iter().collect()
}

fn key(app: &mut App, k: Key) -> Step {
    app.handle_event(Event::Key(k))
}

fn click(app: &mut App, column: u16, row: u16) -> Step {
    app.handle_event(Event::Click { column, row })
}

fn type_text(app: &mut App, s: &str) {
    for c in s.chars() {
        key(app, Key::Char(c));
    }
}

/// Focuses the input box, types each text and submits it.
fn app_with(texts: &[&str]) -> App {
    let mut app = App::new();
    click(&mut app, 10, 2);
    for t in texts {
        type_text(&mut app, t);
        assert!(key(&mut app, Key::Enter).persist);
    }
    app
}

fn snapshot(app: &App) -> Vec<(usize, String, bool)> {
    app.todos.iter().map(|t| (t.id, text(t), t.done)).collect()
}

#[test]
fn empty_store_loads_empty_list_and_seeds_it() {
    let (stored, seed) = stored_or_seed(None);
    assert_eq!(stored, "[]");
    assert_eq!(stored, EMPTY_LIST);
    assert!(seed);
    let decoded: serde_json::Value = serde_json::from_str(&stored).unwrap();
    assert_eq!(decoded.as_array().map(|a| a.len()), Some(0));
    let app = App::from_loaded(Vec::new()).unwrap();
    assert!(app.todos.is_empty());
    assert_eq!(app.input_mode, InputMode::Normal);
}

#[test]
fn stored_value_is_kept() {
    let (stored, seed) = stored_or_seed(Some("[{\"id\":0}]".to_string()));
    assert_eq!(stored, "[{\"id\":0}]");
    assert!(!seed);
}

#[test]
fn add_milk() {
    let app = app_with(&["milk"]);
    assert_eq!(snapshot(&app), vec![(0, "milk".to_string(), false)]);
    assert!(app.input.is_empty());
    assert_eq!(app.cursor_position, 0);
    assert_eq!(app.input_mode, InputMode::Editing);
}

#[test]
fn saved_list_loads_back() {
    let app = app_with(&["milk", "eggs"]);
    let saved: Vec<Todo> = app
        .todos
        .iter()
        .map(|t| Todo { id: t.id, text: t.text.clone(), done: t.done, editing: false })
        .collect();
    let loaded = App::from_loaded(saved).unwrap();
    assert_eq!(snapshot(&loaded), snapshot(&app));
}

#[test]
fn misnumbered_list_is_corrupt() {
    let todos = vec![
        Todo { id: 0, text: chars("a"), done: false, editing: false },
        Todo { id: 2, text: chars("b"), done: true, editing: false },
    ];
    assert_eq!(App::from_loaded(todos).err(), Some(StoreError::CorruptData));
}

#[test]
fn loading_clears_edit_flags() {
    let todos = vec![Todo { id: 0, text: chars("a"), done: true, editing: true }];
    let app = App::from_loaded(todos).unwrap();
    assert!(!app.todos[0].editing);
    assert!(app.todos[0].done);
}

#[test]
fn add_two_delete_first() {
    let mut app = app_with(&["milk", "eggs"]);
    assert_eq!(app.delete_task(0), Ok(()));
    assert_eq!(snapshot(&app), vec![(0, "eggs".to_string(), false)]);
}

#[test]
fn ids_stay_dense_after_adds() {
    let app = app_with(&["a", "", "c", "d"]);
    let ids: Vec<usize> = app.todos.iter().map(|t| t.id).collect();
    assert_eq!(ids, vec![0, 1, 2, 3]);
    assert_eq!(text(&app.todos[1]), "");
}

#[test]
fn delete_renumbers_later_tasks() {
    let mut app = app_with(&["a", "b", "c", "d"]);
    assert_eq!(app.delete_task(1), Ok(()));
    assert_eq!(
        snapshot(&app),
        vec![(0, "a".to_string(), false), (1, "c".to_string(), false), (2, "d".to_string(), false)]
    );
}

#[test]
fn out_of_range_indices_are_refused() {
    let mut app = app_with(&["a"]);
    assert_eq!(app.delete_task(1), Err(TodoError::OutOfRange));
    assert_eq!(app.toggle_done(5), Err(TodoError::OutOfRange));
    assert_eq!(app.begin_edit(1), Err(TodoError::OutOfRange));
    assert_eq!(snapshot(&app), vec![(0, "a".to_string(), false)]);
}

#[test]
fn toggle_twice_restores() {
    let mut app = app_with(&["milk"]);
    assert_eq!(app.toggle_done(0), Ok(()));
    assert!(app.todos[0].done);
    assert_eq!(app.toggle_done(0), Ok(()));
    assert!(!app.todos[0].done);
}

#[test]
fn checkbox_click_toggles_only_that_task() {
    let mut app = app_with(&["a", "b", "c"]);
    let before = snapshot(&app);
    let step = click(&mut app, 3, 8);
    assert!(step.persist);
    assert!(!step.exit);
    assert!(app.todos[1].done);
    assert_eq!(snapshot(&app)[0], before[0]);
    assert_eq!(snapshot(&app)[2], before[2]);
    assert_eq!(app.input_mode, InputMode::Normal);
    click(&mut app, 4, 8);
    assert_eq!(snapshot(&app), before);
}

#[test]
fn delete_click_removes_task() {
    let mut app = app_with(&["a", "b", "c"]);
    assert!(click(&mut app, 56, 5).persist);
    assert_eq!(snapshot(&app), vec![(0, "b".to_string(), false), (1, "c".to_string(), false)]);
}

#[test]
fn click_targets() {
    assert_eq!(click_target(0, 1, 0), ClickTarget::InputBox);
    assert_eq!(click_target(30, 2, 3), ClickTarget::InputBox);
    assert_eq!(click_target(1, 3, 3), ClickTarget::InputBox);
    assert_eq!(click_target(0, 3, 3), ClickTarget::Elsewhere);
    assert_eq!(click_target(3, 5, 1), ClickTarget::Checkbox(0));
    assert_eq!(click_target(4, 11, 3), ClickTarget::Checkbox(2));
    assert_eq!(click_target(56, 8, 2), ClickTarget::Delete(1));
    assert_eq!(click_target(6, 8, 2), ClickTarget::Text(1));
    assert_eq!(click_target(55, 8, 2), ClickTarget::Text(1));
    assert_eq!(click_target(5, 8, 2), ClickTarget::Elsewhere);
    assert_eq!(click_target(3, 9, 3), ClickTarget::Elsewhere);
    assert_eq!(click_target(3, 11, 2), ClickTarget::Elsewhere);
    assert_eq!(click_target(3, 0, 2), ClickTarget::Elsewhere);
}

#[test]
fn cursor_stays_in_buffer() {
    let mut app = App::new();
    click(&mut app, 10, 1);
    type_text(&mut app, "abc");
    assert_eq!(app.cursor_position, 3);
    app.move_cursor(isize::MAX);
    assert_eq!(app.cursor_position, 3);
    app.move_cursor(isize::MIN);
    assert_eq!(app.cursor_position, 0);
    app.move_cursor(2);
    assert_eq!(app.cursor_position, 2);
    app.move_cursor(-1);
    assert_eq!(app.cursor_position, 1);
    key(&mut app, Key::Right);
    key(&mut app, Key::Right);
    key(&mut app, Key::Right);
    assert_eq!(app.cursor_position, 3);
    key(&mut app, Key::Left);
    assert_eq!(app.cursor_position, 2);
}

#[test]
fn typing_inserts_at_cursor() {
    let mut app = App::new();
    click(&mut app, 10, 2);
    type_text(&mut app, "ac");
    key(&mut app, Key::Left);
    type_text(&mut app, "b");
    assert_eq!(app.input.iter().collect::<String>(), "abc");
    assert_eq!(app.cursor_position, 2);
    key(&mut app, Key::Backspace);
    assert_eq!(app.input.iter().collect::<String>(), "ac");
    assert_eq!(app.cursor_position, 1);
    key(&mut app, Key::Left);
    key(&mut app, Key::Backspace);
    assert_eq!(app.input.iter().collect::<String>(), "ac");
    assert_eq!(app.cursor_position, 0);
    key(&mut app, Key::Esc);
    assert_eq!(app.input_mode, InputMode::Normal);
}

#[test]
fn multibyte_in_place_edits_keep_whole_chars() {
    let mut app = app_with(&["héllo"]);
    let step = click(&mut app, 20, 5);
    assert!(!step.persist);
    assert_eq!(app.input_mode, InputMode::Updating);
    assert!(app.todos[0].editing);
    assert!(key(&mut app, Key::Char('→')).persist);
    assert_eq!(text(&app.todos[0]), "héllo→");
    assert!(key(&mut app, Key::Backspace).persist);
    assert_eq!(text(&app.todos[0]), "héllo");
    for _ in 0..4 {
        key(&mut app, Key::Backspace);
    }
    assert_eq!(text(&app.todos[0]), "h");
    key(&mut app, Key::Backspace);
    assert_eq!(text(&app.todos[0]), "");
    assert!(!key(&mut app, Key::Backspace).persist);
    key(&mut app, Key::Enter);
    assert_eq!(app.input_mode, InputMode::Normal);
    assert!(!app.todos[0].editing);
}

#[test]
fn begin_edit_keeps_one_flag() {
    let mut app = app_with(&["a", "b"]);
    assert_eq!(app.begin_edit(0), Ok(()));
    assert_eq!(app.begin_edit(1), Ok(()));
    assert!(!app.todos[0].editing);
    assert!(app.todos[1].editing);
    app.end_edit();
    assert!(!app.todos[1].editing);
    assert_eq!(app.input_mode, InputMode::Normal);
}

#[test]
fn edit_char_without_edited_task_changes_nothing() {
    let mut app = app_with(&["a"]);
    assert!(!app.apply_edit_char('x'));
    assert!(!app.apply_edit_backspace());
    assert_eq!(snapshot(&app), vec![(0, "a".to_string(), false)]);
}

#[test]
fn escape_exits_only_in_normal_mode() {
    let mut app = App::new();
    assert!(key(&mut app, Key::Esc).exit);
    click(&mut app, 10, 2);
    assert!(!key(&mut app, Key::Esc).exit);
    assert_eq!(app.input_mode, InputMode::Normal);
    assert!(!key(&mut app, Key::Char('q')).exit);
    assert!(app.input.is_empty());
}

#[test]
fn click_below_rows_returns_to_normal() {
    let mut app = app_with(&["a"]);
    click(&mut app, 20, 5);
    assert_eq!(app.input_mode, InputMode::Updating);
    let step = click(&mut app, 20, 30);
    assert!(!step.persist);
    assert_eq!(app.input_mode, InputMode::Normal);
    assert!(!app.todos[0].editing);
}

#[test]
fn row_text_pads_to_width() {
    let pending = Todo { id: 0, text: chars("milk"), done: false, editing: false };
    let expected = format!("[  ] milk{}[x] ", " ".repeat(44));
    assert_eq!(row_text(&pending).iter().collect::<String>(), expected);
    let done = Todo { id: 0, text: chars("milk"), done: true, editing: false };
    let expected = format!("[./] milk{}[x] ", " ".repeat(44));
    assert_eq!(row_text(&done).iter().collect::<String>(), expected);
    let long: String = "x".repeat(50);
    let wide = Todo { id: 0, text: chars(&long), done: false, editing: false };
    assert_eq!(row_text(&wide).iter().collect::<String>(), format!("[  ] {}[x] ", long));
}

#[test]
fn cursor_spot_follows_mode() {
    let mut app = app_with(&["ab", "héllo"]);
    assert_eq!(app.cursor_spot(), CursorSpot::InputBox { offset: 0 });
    type_text(&mut app, "xy");
    assert_eq!(app.cursor_spot(), CursorSpot::InputBox { offset: 2 });
    click(&mut app, 20, 8);
    assert_eq!(app.cursor_spot(), CursorSpot::Task { index: 1, offset: 5 });
    key(&mut app, Key::Enter);
    assert_eq!(app.cursor_spot(), CursorSpot::Hidden);
}
