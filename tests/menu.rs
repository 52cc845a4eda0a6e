use ego_tree::{NodeId, Tree};
use linutil_menu::{
    dispatch, matching_leaves, name_matches, Command, CustomList, KeyAction, KeyCode, KeyEvent,
    KeyEventKind, KeyOutcome, MenuEntry, PreviewWindowState,
};

fn raw(s: &str) -> Command {
    Command::Raw(s.to_string())
}

fn entry(name: &str, command: Command) -> MenuEntry {
    MenuEntry { name: name.to_string(), command }
}

/// root: group "A" (leaves "x", "y") and leaf "z"; also the ids of root and "A".
fn sample() -> (Tree<MenuEntry>, NodeId, NodeId) {
    let mut t = Tree::new(entry("root", Command::Placeholder));
    let root = t.root().id();
    let a = {
        let mut r = t.root_mut();
        let mut a = r.append(entry("A", Command::Placeholder));
        a.append(entry("x", raw("echo x")));
        a.append(entry("y", raw("echo y")));
        a.id()
    };
    t.root_mut().append(entry("z", Command::LocalFile("z.sh".to_string())));
    (t, root, a)
}

fn sample_tree() -> Tree<MenuEntry> {
    sample().0
}

fn row_names(list: &CustomList) -> Vec<String> {
    list.visible_rows().into_iter().map(|r| r.name).collect()
}

fn press(code: KeyCode) -> KeyEvent {
    KeyEvent { code, kind: KeyEventKind::Press }
}

#[test]
fn preview_state_starts_at_top() {
    let p = PreviewWindowState::new(vec!["a".to_string(), "b".to_string()]);
    assert_eq!(p.scroll, 0);
    assert_eq!(p.text, vec!["a".to_string(), "b".to_string()]);
}

#[test]
fn enter_on_group_descends() {
    let (t, root, a) = sample();
    let mut list = CustomList::new(t);
    assert_eq!(row_names(&list), vec!["A", "z"]);
    assert_eq!(list.selected, Some(0));
    assert_eq!(list.handle_enter(), None);
    assert_eq!(list.selected, Some(0));
    assert_eq!(list.visit_stack, vec![root, a]);
    assert_eq!(row_names(&list), vec!["..", "x", "y"]);
    let rows = list.visible_rows();
    assert!(rows[0].is_group);
    assert!(!rows[1].is_group);
}

#[test]
fn enter_on_leaf_returns_its_command() {
    let (t, root, a) = sample();
    let mut list = CustomList::new(t);
    list.handle_enter();
    list.try_scroll_down();
    list.try_scroll_down();
    assert_eq!(list.selected, Some(2));
    assert_eq!(list.handle_enter(), Some(raw("echo y")));
    assert_eq!(list.visit_stack, vec![root, a]);
}

#[test]
fn filter_inside_group_then_enter() {
    let (t, root, a) = sample();
    let mut list = CustomList::new(t);
    list.handle_enter();
    list.filter("x".to_string());
    assert_eq!(row_names(&list), vec!["x"]);
    list.reset_selection();
    assert_eq!(list.selected, Some(0));
    assert_eq!(list.handle_enter(), Some(raw("echo x")));
    assert_eq!(list.visit_stack, vec![root, a]);
}

#[test]
fn toggle_preview_on_group_does_nothing() {
    let (t, root, _a) = sample();
    let mut list = CustomList::new(t);
    let out = list.handle_key(press(KeyCode::Char('p')));
    assert_eq!(out, KeyOutcome::Nothing);
    assert!(list.preview_window_state.is_none());
    assert_eq!(list.selected, Some(0));
    assert_eq!(list.visit_stack, vec![root]);
}

#[test]
fn enter_on_up_row_ascends() {
    let (t, root, _a) = sample();
    let mut list = CustomList::new(t);
    list.handle_enter();
    list.try_scroll_down();
    list.try_scroll_up();
    assert_eq!(list.selected, Some(0));
    assert_eq!(list.handle_enter(), None);
    assert_eq!(list.visit_stack, vec![root]);
    assert_eq!(list.selected, Some(0));
    assert_eq!(row_names(&list), vec!["A", "z"]);
}

#[test]
fn moves_stay_in_bounds() {
    let mut list = CustomList::new(sample_tree());
    for _ in 0..5 {
        list.try_scroll_down();
    }
    assert_eq!(list.selected, Some(1));
    for _ in 0..5 {
        list.try_scroll_up();
    }
    assert_eq!(list.selected, Some(0));
    list.handle_enter();
    for _ in 0..5 {
        list.try_scroll_down();
    }
    assert_eq!(list.selected, Some(2));
}

#[test]
fn empty_root_has_no_selection() {
    let mut list = CustomList::new(Tree::new(entry("root", Command::Placeholder)));
    assert_eq!(list.selected, None);
    list.try_scroll_down();
    list.try_scroll_up();
    assert_eq!(list.selected, None);
    assert_eq!(list.handle_enter(), None);
    assert!(list.visible_rows().is_empty());
}

#[test]
fn filter_is_case_insensitive_sorted_and_skips_groups() {
    let mut t = Tree::new(entry("root", Command::Placeholder));
    {
        let mut r = t.root_mut();
        let mut g = r.append(entry("Setup", Command::Placeholder));
        g.append(entry("Kitty Setup", raw("k")));
        g.append(entry("Alacritty Setup", raw("a")));
    }
    t.root_mut().append(entry("Full System Update", raw("u")));
    let mut list = CustomList::new(t);
    list.filter("SETUP".to_string());
    assert_eq!(row_names(&list), vec!["Alacritty Setup", "Kitty Setup"]);
    assert!(list.visible_rows().iter().all(|r| !r.is_group));
    list.filter("zzz".to_string());
    assert!(row_names(&list).is_empty());
    assert_eq!(list.selected, None);
}

#[test]
fn empty_query_restores_navigation() {
    let (t, root, a) = sample();
    let mut list = CustomList::new(t);
    list.handle_enter();
    list.filter("y".to_string());
    assert_eq!(row_names(&list), vec!["y"]);
    list.filter(String::new());
    assert!(list.filtered_items.is_empty());
    assert_eq!(row_names(&list), vec!["..", "x", "y"]);
    assert_eq!(list.visit_stack, vec![root, a]);
}

#[test]
fn preview_round_trip_restores_state() {
    let (t, root, a) = sample();
    let mut list = CustomList::new(t);
    list.handle_enter();
    list.try_scroll_down();
    let before_sel = list.selected;
    let out = list.handle_key(press(KeyCode::Char('p')));
    assert_eq!(out, KeyOutcome::Nothing);
    let p = list.preview_window_state.as_ref().unwrap();
    assert_eq!(p.text, vec!["echo x".to_string()]);
    assert_eq!(p.scroll, 0);
    list.handle_key(press(KeyCode::Char('p')));
    assert!(list.preview_window_state.is_none());
    assert_eq!(list.selected, before_sel);
    assert_eq!(list.visit_stack, vec![root, a]);
}

#[test]
fn preview_of_file_asks_for_its_text() {
    let mut list = CustomList::new(sample_tree());
    list.try_scroll_down();
    let out = list.toggle_preview_window();
    assert_eq!(out, Some("z.sh".to_string()));
    assert!(list.preview_window_state.is_none());
    list.open_preview_text("line one\nline two\r\nline three");
    let p = list.preview_window_state.as_ref().unwrap();
    assert_eq!(p.text, vec!["line one", "line two", "line three"]);
}

#[test]
fn preview_scrolls_within_text() {
    let (t, root, _a) = sample();
    let mut list = CustomList::new(t);
    list.open_preview(vec!["a".to_string(), "b".to_string(), "c".to_string()]);
    list.handle_key(press(KeyCode::Down));
    list.handle_key(press(KeyCode::Char('j')));
    list.handle_key(press(KeyCode::Down));
    assert_eq!(list.preview_window_state.as_ref().unwrap().scroll, 2);
    assert_eq!(list.selected, Some(0));
    list.handle_key(press(KeyCode::Up));
    list.handle_key(press(KeyCode::Char('k')));
    list.handle_key(press(KeyCode::Up));
    assert_eq!(list.preview_window_state.as_ref().unwrap().scroll, 0);
    let out = list.handle_key(press(KeyCode::Enter));
    assert_eq!(out, KeyOutcome::Nothing);
    assert_eq!(list.visit_stack, vec![root]);
    list.close_preview();
    assert!(list.preview_window_state.is_none());
}

#[test]
fn key_enter_runs_command() {
    let mut list = CustomList::new(sample_tree());
    list.handle_key(press(KeyCode::Enter));
    list.handle_key(press(KeyCode::Down));
    let out = list.handle_key(press(KeyCode::Enter));
    assert_eq!(out, KeyOutcome::Run(raw("echo x")));
    let released = KeyEvent { code: KeyCode::Enter, kind: KeyEventKind::Release };
    assert_eq!(list.handle_key(released), KeyOutcome::Nothing);
}

#[test]
fn dispatch_table() {
    let rep = |code| KeyEvent { code, kind: KeyEventKind::Repeat };
    assert_eq!(dispatch(press(KeyCode::Down), false), KeyAction::MoveDown);
    assert_eq!(dispatch(press(KeyCode::Char('j')), true), KeyAction::ScrollPreviewDown);
    assert_eq!(dispatch(rep(KeyCode::Up), false), KeyAction::MoveUp);
    assert_eq!(dispatch(press(KeyCode::Char('k')), true), KeyAction::ScrollPreviewUp);
    assert_eq!(dispatch(press(KeyCode::Char('p')), false), KeyAction::TogglePreview);
    assert_eq!(dispatch(press(KeyCode::Char('p')), true), KeyAction::TogglePreview);
    assert_eq!(dispatch(press(KeyCode::Enter), false), KeyAction::ResolveEnter);
    assert_eq!(dispatch(press(KeyCode::Enter), true), KeyAction::NoOp);
    assert_eq!(dispatch(press(KeyCode::Char('q')), false), KeyAction::NoOp);
    assert_eq!(dispatch(press(KeyCode::Other), false), KeyAction::NoOp);
    let rel = KeyEvent { code: KeyCode::Down, kind: KeyEventKind::Release };
    assert_eq!(dispatch(rel, false), KeyAction::NoOp);
}

#[test]
fn name_matching() {
    assert!(name_matches("kitty setup", "tty"));
    assert!(name_matches("kitty setup", ""));
    assert!(!name_matches("kitty", "kitty setup"));
}

#[test]
fn matching_leaves_by_lowercased_query() {
    let (t, _, _) = sample();
    let found: Vec<String> = matching_leaves(&t, "")
        .into_iter()
        .map(|id| t.get(id).unwrap().value().name.clone())
        .collect();
    assert_eq!(found, vec!["x", "y", "z"]);
    let root_only = Tree::new(entry("root", Command::Placeholder));
    assert_eq!(matching_leaves(&root_only, "ro").len(), 1);
    assert!(matching_leaves(&t, "a").is_empty());
}

#[test]
fn duplicate_keeps_command() {
    let c = raw("echo hi");
    assert_eq!(c.duplicate(), c);
    assert_eq!(Command::Placeholder.duplicate(), Command::Placeholder);
}
