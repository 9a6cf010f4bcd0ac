use scrapnote::editor;
use scrapnote::item::{Item, ItemType};
use scrapnote::selector;
use scrapnote::shell;

fn item(name: &str) -> Item {
    Item { name: name.to_string(), item_type: ItemType::File }
}

fn query_token(act: &selector::Action) -> u64 {
    match act {
        selector::Action::Query { token, .. } => *token,
        _ => panic!("expected a query action"),
    }
}

#[test]
fn fresh_start_lists_empty_directory() {
    let mut sel = selector::Selector::new();
    assert_eq!(sel.list_index, 0);
    assert!(sel.items.is_empty());
    // On first render the selector queries with an empty key.
    let act = sel.refresh();
    match &act {
        selector::Action::Query { key, .. } => assert_eq!(key, ""),
        _ => panic!("expected a query action"),
    }
    let token = query_token(&act);
    let (_, rerender) = sel.update(selector::Msg::UpdateFiles(token, Vec::new()));
    assert!(rerender);
    assert!(sel.items.is_empty());
    assert_eq!(sel.list_index, 0);
}

#[test]
fn create_new_note_by_typing_and_enter() {
    let mut sel = selector::Selector::new();
    let (act, _) = sel.update(selector::Msg::Input("hello".to_string()));
    let token = query_token(&act);
    match &act {
        selector::Action::Query { key, .. } => assert_eq!(key, "hello"),
        _ => panic!("expected a query action"),
    }
    // The store has no matching notes.
    sel.update(selector::Msg::UpdateFiles(token, Vec::new()));
    // Enter commits the raw input, since the list is empty.
    let (act, _) = sel.update(selector::Msg::Enter);
    let name = match act {
        selector::Action::Commit { name } => name,
        _ => panic!("expected a commit action"),
    };
    assert_eq!(name, "hello");

    let mut sh = shell::Shell::new();
    assert!(matches!(sh.editing, None));
    sh.update(shell::Msg::FileSelect(name));
    assert!(matches!(sh.focus, shell::Focus::Editor));
    assert_eq!(sh.editing.as_deref(), Some("hello"));

    let mut ed = editor::Editor::new();
    ed.set_focus(true);
    let act = ed.bind("hello".to_string());
    let fetch_token = match &act {
        editor::Action::Fetch { token, name } => {
            assert_eq!(name, "hello");
            *token
        },
        _ => panic!("expected a fetch action"),
    };
    assert!(!ed.editable);
    // The store creates the note empty and returns no content.
    let act = ed.update(
        editor::Msg::ContentLoaded(fetch_token, String::new()),
        &String::new(),
    );
    match act {
        editor::Action::Install { content, focus } => {
            assert_eq!(content, "");
            assert!(focus);
        },
        _ => panic!("expected an install action"),
    }
    assert!(ed.editable);
}

#[test]
fn edit_and_commit() {
    let mut ed = editor::Editor::new();
    let act = ed.bind("hello".to_string());
    let fetch_token = match act {
        editor::Action::Fetch { token, .. } => token,
        _ => panic!("expected a fetch action"),
    };
    ed.update(
        editor::Msg::ContentLoaded(fetch_token, String::new()),
        &String::new(),
    );
    // Escape with the buffer holding the typed text issues a save.
    let msg = editor::key_to_msg("Escape");
    let act = ed.update(msg, &"world".to_string());
    let save_token = match act {
        editor::Action::Store { token, name, content } => {
            assert_eq!(name, "hello");
            assert_eq!(content, "world");
            token
        },
        _ => panic!("expected a store action"),
    };
    // The save outcome releases focus.
    let act = ed.on_save_result(save_token);
    assert!(matches!(act, editor::Action::Release));
    let mut sh = shell::Shell::new();
    sh.update(shell::Msg::FileSelect("hello".to_string()));
    sh.update(shell::Msg::FocusCommand);
    assert!(matches!(sh.focus, shell::Focus::Command));
    // The binding survives the release.
    assert_eq!(sh.editing.as_deref(), Some("hello"));
}

#[test]
fn filter_narrows_list_and_clamps_highlight() {
    let mut sel = selector::Selector::new();
    let act = sel.refresh();
    let token = query_token(&act);
    sel.update(selector::Msg::UpdateFiles(
        token,
        vec![item("apple"), item("banana"), item("grape")],
    ));
    sel.update(selector::Msg::MoveSelectionDown);
    sel.update(selector::Msg::MoveSelectionDown);
    assert_eq!(sel.list_index, 2);
    let (act, _) = sel.update(selector::Msg::Input("an".to_string()));
    let token = query_token(&act);
    sel.update(selector::Msg::UpdateFiles(token, vec![item("banana")]));
    assert_eq!(sel.items.len(), 1);
    assert_eq!(sel.items[0].name, "banana");
    assert_eq!(sel.list_index, 0);
}

#[test]
fn ctrl_n_ctrl_p_navigation_saturates() {
    let mut sel = selector::Selector::new();
    let act = sel.refresh();
    let token = query_token(&act);
    sel.update(selector::Msg::UpdateFiles(
        token,
        vec![item("a"), item("b"), item("c")],
    ));
    sel.update(selector::Msg::MoveSelectionDown);
    sel.update(selector::Msg::MoveSelectionDown);
    assert_eq!(sel.list_index, 2);
    let (msg, prevent) = selector::key_to_msg(true, "n", false);
    assert!(prevent);
    sel.update(msg);
    assert_eq!(sel.list_index, 2);
    let (msg, _) = selector::key_to_msg(true, "p", false);
    sel.update(msg);
    assert_eq!(sel.list_index, 1);
    let (msg, _) = selector::key_to_msg(true, "p", false);
    sel.update(msg);
    assert_eq!(sel.list_index, 0);
    let (msg, _) = selector::key_to_msg(true, "p", false);
    sel.update(msg);
    assert_eq!(sel.list_index, 0);
}

#[test]
fn superseded_filter_response_is_discarded() {
    let mut sel = selector::Selector::new();
    let (act, _) = sel.update(selector::Msg::Input("a".to_string()));
    let t1 = query_token(&act);
    let (act, _) = sel.update(selector::Msg::Input("ap".to_string()));
    let _t2 = query_token(&act);
    let (act, _) = sel.update(selector::Msg::Input("app".to_string()));
    let t3 = query_token(&act);
    // The response for the latest query arrives first and is applied.
    let (_, rerender) = sel.update(selector::Msg::UpdateFiles(t3, vec![item("apple")]));
    assert!(rerender);
    // The response for the first query arrives last and is discarded.
    let (_, rerender) = sel.update(selector::Msg::UpdateFiles(t1, vec![item("avocado")]));
    assert!(!rerender);
    assert_eq!(sel.items.len(), 1);
    assert_eq!(sel.items[0].name, "apple");
    assert_eq!(sel.input, "app");
}

#[test]
fn composition_guard_ignores_empty_input() {
    let mut sel = selector::Selector::new();
    sel.update(selector::Msg::Input("k".to_string()));
    // A composition session begins; the transient empty value is ignored.
    sel.update(selector::Msg::Idle(true));
    let (act, _) = sel.update(selector::Msg::Input(String::new()));
    assert!(matches!(act, selector::Action::Idle));
    assert_eq!(sel.input, "k");
    // Once composition ends, an empty value is applied normally.
    sel.update(selector::Msg::Idle(false));
    let (act, _) = sel.update(selector::Msg::Input(String::new()));
    assert!(matches!(act, selector::Action::Query { .. }));
    assert_eq!(sel.input, "");
}

#[test]
fn caret_chords_move_to_ends() {
    let mut sel = selector::Selector::new();
    sel.update(selector::Msg::Input("abcd".to_string()));
    let (msg, prevent) = selector::key_to_msg(true, "a", false);
    assert!(prevent);
    let (act, _) = sel.update(msg);
    assert!(matches!(act, selector::Action::Caret { pos: 0 }));
    let (msg, prevent) = selector::key_to_msg(true, "e", false);
    assert!(prevent);
    let (act, _) = sel.update(msg);
    assert!(matches!(act, selector::Action::Caret { pos: 4 }));
}

#[test]
fn enter_commits_highlighted_name() {
    let mut sel = selector::Selector::new();
    let act = sel.refresh();
    let token = query_token(&act);
    sel.update(selector::Msg::UpdateFiles(
        token,
        vec![item("apple"), item("banana")],
    ));
    sel.update(selector::Msg::MoveSelectionDown);
    let (msg, prevent) = selector::key_to_msg(false, "Enter", false);
    assert!(!prevent);
    let (act, _) = sel.update(msg);
    match act {
        selector::Action::Commit { name } => assert_eq!(name, "banana"),
        _ => panic!("expected a commit action"),
    }
}

#[test]
fn stale_editor_fetch_is_discarded() {
    let mut ed = editor::Editor::new();
    let act = ed.bind("one".to_string());
    let t1 = match act {
        editor::Action::Fetch { token, .. } => token,
        _ => panic!("expected a fetch action"),
    };
    let act = ed.bind("two".to_string());
    let t2 = match act {
        editor::Action::Fetch { token, .. } => token,
        _ => panic!("expected a fetch action"),
    };
    let act = ed.update(editor::Msg::ContentLoaded(t1, "old".to_string()), &String::new());
    assert!(matches!(act, editor::Action::Idle));
    assert!(!ed.editable);
    let act = ed.update(editor::Msg::ContentLoaded(t2, "new".to_string()), &String::new());
    assert!(matches!(act, editor::Action::Install { .. }));
    assert!(ed.editable);
}

#[test]
fn escape_without_binding_releases_immediately() {
    let mut ed = editor::Editor::new();
    let act = ed.update(editor::Msg::Save, &"text".to_string());
    assert!(matches!(act, editor::Action::Release));
}

#[test]
fn other_keys_do_nothing_in_editor() {
    let msg = editor::key_to_msg("x");
    assert!(matches!(msg, editor::Msg::Idle));
}

#[test]
fn shell_starts_unbound_and_selector_focused() {
    let sh = shell::Shell::new();
    assert!(matches!(sh.focus, shell::Focus::Command));
    assert!(sh.editing.is_none());
}

#[test]
fn focus_change_places_caret_and_keeps_state() {
    let mut sel = selector::Selector::new();
    sel.update(selector::Msg::Input("keep".to_string()));
    let act = sel.on_focus_change(false);
    assert!(matches!(act, selector::Action::Idle));
    assert_eq!(sel.input, "keep");
    let act = sel.on_focus_change(true);
    assert!(matches!(act, selector::Action::FocusInput));
    assert_eq!(sel.input, "keep");
}

#[test]
fn config_default_directory() {
    let c = scrapnote::Config::default();
    assert_eq!(c.file_directory, "/home/inab/tmp/note");
}
