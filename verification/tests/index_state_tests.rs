use panel_client::index::ListItem;
use panel_client::navigation::{create_full_path, create_vector, AlertView, AppIndexState, StateAlert};

fn item(name: &str, dir: bool) -> ListItem {
    ListItem { name: name.to_string(), dir, prirority: 1 }
}

fn sample_list() -> Vec<ListItem> {
    vec![item("docs", true), item("a.txt", false), item("b.txt", false)]
}

#[test]
fn new_state_is_at_the_root() {
    let state = AppIndexState::new();
    assert!(state.dir.is_empty());
    assert_eq!(state.file, None);
    assert!(!state.alert.is_visible());
    assert!(state.tabs_url.is_empty());
    assert_eq!(state.tabs_active, None);
}

#[test]
fn current_item_defaults_to_the_first_row() {
    let mut state = AppIndexState::new();
    let list = sample_list();
    assert_eq!(state.list_current_item(&list), Some("docs".to_string()));
    assert_eq!(state.list_current_item(&Vec::new()), None);
    state.file = Some("b.txt".to_string());
    assert_eq!(state.list_current_item(&list), Some("b.txt".to_string()));
    assert_eq!(state.current_full_path(&list), create_vector(["b.txt"]));
}

#[test]
fn pointer_moves_and_wraps() {
    let mut state = AppIndexState::new();
    let list = sample_list();
    state.pointer_down(&list);
    assert_eq!(state.file, Some("a.txt".to_string()));
    state.pointer_down(&list);
    assert_eq!(state.file, Some("b.txt".to_string()));
    state.pointer_down(&list);
    assert_eq!(state.file, Some("docs".to_string()));
    state.pointer_up(&list);
    assert_eq!(state.file, Some("b.txt".to_string()));
    state.pointer_up(&list);
    assert_eq!(state.file, Some("a.txt".to_string()));
}

#[test]
fn pointer_up_undoes_pointer_down() {
    let mut state = AppIndexState::new();
    let list = sample_list();
    state.file = Some("a.txt".to_string());
    state.pointer_down(&list);
    state.pointer_up(&list);
    assert_eq!(state.file, Some("a.txt".to_string()));
}

#[test]
fn pointer_on_an_empty_list_does_nothing() {
    let mut state = AppIndexState::new();
    state.pointer_down(&Vec::new());
    assert_eq!(state.file, None);
    state.pointer_up(&Vec::new());
    assert_eq!(state.file, None);
}

#[test]
fn entering_a_directory_and_going_back() {
    let mut state = AppIndexState::new();
    let list = sample_list();
    state.pointer_enter(&list);
    assert_eq!(state.dir, create_vector(["docs"]));
    assert_eq!(state.file, None);
    state.backspace();
    assert!(state.dir.is_empty());
    assert_eq!(state.file, Some("docs".to_string()));
}

#[test]
fn clicking_a_file_selects_it() {
    let mut state = AppIndexState::new();
    let list = sample_list();
    state.click_list_item("b.txt".to_string(), &list);
    assert!(state.dir.is_empty());
    assert_eq!(state.file, Some("b.txt".to_string()));
    state.click_list_item("missing".to_string(), &list);
    assert_eq!(state.file, Some("b.txt".to_string()));
}

#[test]
fn set_path_to_the_same_directory_keeps_the_selection() {
    let mut state = AppIndexState::new();
    state.set_path(create_vector(["x", "y"]));
    state.file = Some("z".to_string());
    state.set_path(create_vector(["x", "y"]));
    assert_eq!(state.file, Some("z".to_string()));
    state.set_path(create_vector(["x"]));
    assert_eq!(state.dir, create_vector(["x"]));
    assert_eq!(state.file, Some("y".to_string()));
}

#[test]
fn backspace_at_the_root() {
    let mut state = AppIndexState::new();
    state.file = Some("a.txt".to_string());
    state.backspace();
    assert!(state.dir.is_empty());
    assert_eq!(state.file, Some("a.txt".to_string()));
}

#[test]
fn keydown_navigates() {
    let mut state = AppIndexState::new();
    let list = sample_list();
    assert!(state.keydown("ArrowDown".to_string(), &list));
    assert_eq!(state.file, Some("a.txt".to_string()));
    assert!(state.keydown("ArrowUp".to_string(), &list));
    assert_eq!(state.file, Some("docs".to_string()));
    assert!(state.keydown("Enter".to_string(), &list));
    assert_eq!(state.dir, create_vector(["docs"]));
    assert!(state.keydown("ArrowLeft".to_string(), &list));
    assert!(state.dir.is_empty());
    assert_eq!(state.file, Some("docs".to_string()));
    assert!(state.keydown("Escape".to_string(), &list));
    assert_eq!(state.file, None);
    assert!(!state.keydown("KeyQ".to_string(), &list));
}

#[test]
fn keydown_with_an_alert_open() {
    let mut state = AppIndexState::new();
    let list = sample_list();
    state.alert.redirect_to_search();
    assert!(!state.keydown("ArrowDown".to_string(), &list));
    assert_eq!(state.file, None);
    assert!(state.alert.is_visible());
    assert!(state.keydown("Escape".to_string(), &list));
    assert!(!state.alert.is_visible());
}

#[test]
fn alert_opens_only_when_closed() {
    let mut alert = StateAlert::new();
    assert!(!alert.is_visible());
    alert.delete(create_vector(["a.txt"]));
    assert!(alert.is_visible());
    alert.move_current(create_vector(["b.txt"]));
    alert.redirect_to_search();
    match alert.view() {
        AlertView::DeleteFile { path } => assert_eq!(path, &create_vector(["a.txt"])),
        _ => panic!("the first alert must stay"),
    }
    alert.close_modal();
    assert!(!alert.is_visible());
    alert.move_current(create_vector(["b.txt"]));
    assert!(matches!(alert.view(), AlertView::MoveItem { .. }));
}

#[test]
fn tabs_add_remove_and_activate() {
    let mut state = AppIndexState::new();
    state.tabs_add("https://a".to_string());
    state.tabs_add("https://b".to_string());
    state.tabs_add("https://a".to_string());
    assert_eq!(state.tabs_url, create_vector(["https://a", "https://b"]));
    assert!(state.tabs_has(&"https://b".to_string()));
    assert!(!state.tabs_has(&"https://c".to_string()));

    state.tabs_set("https://c".to_string());
    assert_eq!(state.tabs_active, None);
    state.tabs_set("https://b".to_string());
    assert_eq!(state.tabs_active, Some("https://b".to_string()));

    state.tabs_remove("https://a".to_string());
    assert_eq!(state.tabs_url, create_vector(["https://b"]));
    assert_eq!(state.tabs_active, Some("https://b".to_string()));

    state.tabs_remove("https://b".to_string());
    assert!(state.tabs_url.is_empty());
    assert_eq!(state.tabs_active, None);
}

#[test]
fn tabs_add_then_remove_restores() {
    let mut state = AppIndexState::new();
    state.tabs_add("https://a".to_string());
    state.tabs_set("https://a".to_string());
    state.tabs_add("https://new".to_string());
    state.tabs_remove("https://new".to_string());
    assert_eq!(state.tabs_url, create_vector(["https://a"]));
    assert_eq!(state.tabs_active, Some("https://a".to_string()));
    state.tabs_default();
    assert_eq!(state.tabs_active, None);
}

#[test]
fn full_path_of_a_selection() {
    assert_eq!(create_full_path(&create_vector(["a"]), &Some("b".to_string())), create_vector(["a", "b"]));
    assert_eq!(create_full_path(&create_vector(["a"]), &None), create_vector(["a"]));
    let state = AppIndexState::new();
    assert!(state.current_path_dir().is_empty());
}
