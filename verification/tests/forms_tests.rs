use panel_client::forms::{
    is_blank, EditContent, EditContentForm, NewContentForm, NewDirForm, NewName, RenameForm,
};
use panel_client::index::ListItem;
use panel_client::messages::MessageKind;
use panel_client::outcome::ButtonMode;
use panel_client::navigation::create_vector;

fn list() -> Vec<ListItem> {
    vec![
        ListItem { name: "notes".to_string(), dir: true, prirority: 1 },
        ListItem { name: "todo.txt".to_string(), dir: false, prirority: 1 },
    ]
}

#[test]
fn new_name_validity() {
    let mut name = NewName::new();
    assert!(!name.is_valid(&list()));
    assert!(name.on_input_name("todo.txt".to_string(), false));
    assert!(name.name_exists(&list()));
    assert!(!name.is_valid(&list()));
    assert!(name.on_input_name("fresh.txt".to_string(), false));
    assert!(name.is_valid(&list()));
    assert!(!name.on_input_name("other".to_string(), true));
    assert_eq!(name.name, "fresh.txt".to_string());
}

#[test]
fn new_name_checks_the_first_subdirectory() {
    let mut name = NewName::new();
    name.on_input_name("notes".to_string(), false);
    assert!(name.on_add_dir());
    assert_eq!(name.relative_path, create_vector(["notes"]));
    assert_eq!(name.name, "".to_string());
    name.on_input_name("todo.txt".to_string(), false);
    // the first subdirectory exists already in the directory shown
    assert!(name.name_exists(&list()));
    assert!(!name.is_valid(&list()));
    assert_eq!(name.full_relative_new_path(), create_vector(["notes", "todo.txt"]));
}

#[test]
fn add_dir_then_remove_last_restores() {
    let mut name = NewName::new();
    name.on_input_name("a".to_string(), false);
    name.on_add_dir();
    name.on_input_name("b".to_string(), false);
    assert!(name.on_add_dir());
    name.on_remove_last();
    assert_eq!(name.relative_path, create_vector(["a"]));
    assert!(!name.on_add_dir());
    name.on_remove_last();
    name.on_remove_last();
    assert!(name.relative_path.is_empty());
}

#[test]
fn blank_names() {
    assert!(is_blank(""));
    assert!(is_blank(" \t\n\u{2009}"));
    assert!(!is_blank(" x "));
}

#[test]
fn rename_form_rules() {
    let mut form = RenameForm::new(create_vector(["dir"]), "old.txt".to_string(), "h1".to_string());
    assert_eq!(form.new_name, "old.txt".to_string());
    assert!(!form.save_enable());
    assert!(form.on_input("   ".to_string()));
    assert!(!form.save_enable());
    assert!(form.on_input("new.txt".to_string()));
    assert!(form.save_enable());
    assert_eq!(form.get_full_path(), "dir/old.txt".to_string());

    let request = form.begin_save().unwrap();
    assert_eq!(request.path, create_vector(["dir"]));
    assert_eq!(request.prev_name, "old.txt".to_string());
    assert_eq!(request.prev_hash, "h1".to_string());
    assert_eq!(request.new_name, "new.txt".to_string());
    assert!(form.action_save);
    assert!(form.begin_save().is_none());
    assert!(!form.on_input("late".to_string()));
    assert_eq!(form.redirect_after_save(), (create_vector(["dir"]), Some("new.txt".to_string())));
    assert_eq!(form.button_state(), ButtonMode::Process);

    let failed = form.end_save(Err("taken".to_string()));
    assert!(!form.action_save);
    assert!(matches!(failed.message, Some((MessageKind::Error, ref m, 10000)) if m == "taken"));
    assert_eq!(form.button_state(), ButtonMode::Active);
    form.begin_save().unwrap();
    let done = form.end_save(Ok(()));
    assert!(done.refresh_root && done.back_to_index);
    assert_eq!(done.select, Some((create_vector(["dir"]), Some("new.txt".to_string()))));
}

#[test]
fn rename_is_refused_when_not_offered() {
    let mut form = RenameForm::new(create_vector(["dir"]), "same".to_string(), "h".to_string());
    assert_eq!(form.button_state(), ButtonMode::Disabled);
    assert!(form.begin_save().is_none());
    assert!(!form.action_save);
    form.on_input(" \t ".to_string());
    assert!(form.begin_save().is_none());
}

#[test]
fn edit_content_form_rules() {
    let mut form = EditContentForm::new(create_vector(["a.txt"]));
    assert!(!form.save_enable());
    assert!(form.begin_save().is_none());
    assert!(!form.action_save);
    let loaded = form.content_view(Some(EditContent { content: "old".to_string(), hash: "h0".to_string() })).unwrap();
    assert_eq!(loaded.content, "old".to_string());
    assert!(form.on_input("new".to_string(), "h0".to_string()));
    assert!(form.save_enable());
    let shown = form.content_view(None).unwrap();
    assert_eq!((shown.content, shown.hash), ("new".to_string(), "h0".to_string()));

    let request = form.begin_save().unwrap();
    assert_eq!(request.path, create_vector(["a.txt"]));
    assert_eq!(request.prev_hash, "h0".to_string());
    assert_eq!(request.new_content, "new".to_string());
    assert!(form.begin_save().is_none());
    assert!(!form.on_input("ignored".to_string(), "h9".to_string()));

    let failed = form.end_save(Err("conflict".to_string()), false);
    assert!(!form.action_save);
    assert!(form.save_enable());
    assert!(!failed.refresh_root && !failed.back_to_index);
    assert!(matches!(failed.message, Some((MessageKind::Error, ref m, 2000)) if m == "conflict"));

    form.begin_save().unwrap();
    let stay = form.end_save(Ok(()), false);
    assert!(!form.save_enable());
    assert!(form.content_view(None).is_none());
    assert!(stay.refresh_root && !stay.back_to_index);
    assert!(matches!(stay.message, Some((MessageKind::Info, ref m, 5000)) if m == "Zapis udany"));

    form.on_input("again".to_string(), "h1".to_string());
    form.begin_save().unwrap();
    let back = form.end_save(Ok(()), true);
    assert!(back.refresh_root && back.back_to_index && back.message.is_none());
}

#[test]
fn new_content_form_rules() {
    let mut form = NewContentForm::new(create_vector(["base"]));
    assert!(!form.save_enable(&list()));
    form.on_input_name("sub".to_string());
    form.new_name.on_add_dir();
    form.on_input_name("file.txt".to_string());
    assert!(!form.save_enable(&list()));
    assert!(form.on_input_content("hello".to_string()));
    assert!(form.save_enable(&list()));

    let (request, dir, item) = form.begin_save().unwrap();
    assert_eq!(request.path, create_vector(["base"]));
    assert_eq!(request.new_path, create_vector(["sub", "file.txt"]));
    assert_eq!(request.new_content, "hello".to_string());
    assert_eq!(dir, create_vector(["base", "sub"]));
    assert_eq!(item, Some("file.txt".to_string()));
    assert!(form.begin_save().is_none());
    assert!(!form.on_input_content("late".to_string()));
    assert!(!form.on_input_name("late".to_string()));
    let done = form.end_save(Ok(()));
    assert!(!form.action_save);
    assert_eq!(done.select, Some((create_vector(["base", "sub"]), Some("file.txt".to_string()))));
    assert!(done.refresh_root && done.back_to_index);
}

#[test]
fn new_dir_form_rules() {
    let mut form = NewDirForm::new(create_vector(["base"]));
    assert!(!form.save_enable(&list()));
    form.on_input_name("notes".to_string());
    assert!(!form.save_enable(&list()));
    form.on_input_name("photos".to_string());
    assert!(form.save_enable(&list()));
    let (request, dir, item) = form.begin_save().unwrap();
    assert_eq!(request.path, create_vector(["base"]));
    assert_eq!(request.dir, "photos".to_string());
    assert_eq!(dir, create_vector(["base"]));
    assert_eq!(item, Some("photos".to_string()));
    assert!(form.begin_save().is_none());
    let failed = form.end_save(Err("exists".to_string()));
    assert!(!form.action_save);
    assert!(matches!(failed.message, Some((MessageKind::Error, ref m, 10000)) if m == "exists"));
    form.begin_save().unwrap();
    let done = form.end_save(Ok(()));
    assert_eq!(done.select, Some((create_vector(["base"]), Some("photos".to_string()))));
}
