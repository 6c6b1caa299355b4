use panel_client::alerts::{
    create_avaible_delete_current, menu_buttons, CurrentContent, DeleteAlert, MoveItemAlert, MoveMessage, SelectedEntry,
};
use panel_client::index::ListItem;
use panel_client::messages::MessageKind;
use panel_client::navigation::create_vector;
use panel_client::resource::Resource;

fn file_content() -> CurrentContent {
    CurrentContent::File { file_name: "a".to_string(), file_hash: "h".to_string(), content: "text".to_string() }
}

fn one_row() -> Vec<ListItem> {
    vec![ListItem { name: "x".to_string(), dir: false, prirority: 1 }]
}

#[test]
fn delete_is_offered_for_files_and_empty_directories() {
    assert!(!create_avaible_delete_current(&Resource::Loading));
    assert!(!create_avaible_delete_current(&Resource::Failed("e".to_string())));
    assert!(!create_avaible_delete_current(&Resource::Ready(CurrentContent::NotFound)));
    assert!(create_avaible_delete_current(&Resource::Ready(file_content())));
    assert!(create_avaible_delete_current(&Resource::Ready(CurrentContent::Dir { list: Resource::Ready(Vec::new()) })));
    assert!(create_avaible_delete_current(&Resource::Ready(CurrentContent::Dir { list: Resource::Loading })));
    assert!(!create_avaible_delete_current(&Resource::Ready(CurrentContent::Dir { list: Resource::Ready(one_row()) })));
}

#[test]
fn menu_buttons_follow_the_selection() {
    let none = menu_buttons(&None);
    assert!(!none.edit_file && !none.delete && !none.move_item);

    let file = menu_buttons(&Some(SelectedEntry { content: Resource::Ready(file_content()), hash: Resource::Loading }));
    assert!(file.edit_file && file.delete && !file.move_item);

    let full_dir = menu_buttons(&Some(SelectedEntry {
        content: Resource::Ready(CurrentContent::Dir { list: Resource::Ready(one_row()) }),
        hash: Resource::Ready("h".to_string()),
    }));
    assert!(!full_dir.edit_file && !full_dir.delete && full_dir.move_item);
}

#[test]
fn delete_alert_flow() {
    let mut alert = DeleteAlert::new(create_vector(["a", "b.txt"]));
    assert!(!alert.yes_enabled(&Resource::Loading));
    assert!(alert.yes_enabled(&Resource::Ready("h".to_string())));
    assert!(alert.delete_yes(&Resource::Loading).is_none());
    assert!(!alert.progress);
    let request = alert.delete_yes(&Resource::Ready("h".to_string())).unwrap();
    assert_eq!(request.path, create_vector(["a", "b.txt"]));
    assert_eq!(request.hash, "h".to_string());
    assert!(alert.delete_yes(&Resource::Ready("h".to_string())).is_none());
    assert!(!alert.delete_no());

    let failed = alert.delete_done(Err("denied".to_string()));
    assert!(!failed.close_alert && !failed.refresh_root && !failed.reselect);
    assert!(matches!(failed.message, Some((MessageKind::Error, ref m, 10000)) if m == "denied"));
    assert!(alert.delete_no());

    alert.delete_yes(&Resource::Ready("h".to_string())).unwrap();
    let done = alert.delete_done(Ok(()));
    assert!(done.close_alert && done.refresh_root && done.reselect && done.message.is_none());
}

#[test]
fn move_alert_flow() {
    let mut alert = MoveItemAlert::new(create_vector(["a", "b", "c.txt"]), "h".to_string());
    assert_eq!(alert.target_dir, create_vector(["a", "b"]));
    assert_eq!(alert.new_path(), create_vector(["a", "b", "c.txt"]));
    assert!(matches!(alert.message(&Resource::Ready("id".to_string())), MoveMessage::ChooseTarget));
    // the entry's own directory: no move, whatever the lookup says
    assert!(!alert.move_enabled(&Resource::Failed("not found".to_string())));
    assert!(alert.begin_move(&Resource::Failed("not found".to_string())).is_none());
    assert!(!alert.progress);

    alert.target_up();
    assert_eq!(alert.new_path(), create_vector(["a", "c.txt"]));
    match alert.message(&Resource::Ready("id".to_string())) {
        MoveMessage::AlreadyExists { name } => assert_eq!(name, "c.txt".to_string()),
        _ => panic!("the name is taken in the target"),
    }
    assert!(matches!(alert.message(&Resource::Loading), MoveMessage::Nothing));
    assert!(!alert.move_enabled(&Resource::Ready("id".to_string())));
    assert!(!alert.move_enabled(&Resource::Loading));
    assert!(alert.move_enabled(&Resource::Failed("not found".to_string())));

    alert.target_up();
    assert!(alert.target_is_root());
    alert.target_up();
    assert!(alert.target_is_root());
    alert.set_target(create_vector(["x"]));
    let request = alert.begin_move(&Resource::Failed("not found".to_string())).unwrap();
    assert_eq!(request.path, create_vector(["a", "b", "c.txt"]));
    assert_eq!(request.hash, "h".to_string());
    assert_eq!(request.new_path, create_vector(["x", "c.txt"]));
    assert!(alert.begin_move(&Resource::Failed("not found".to_string())).is_none());

    let failed = alert.move_done(Err("conflict".to_string()));
    assert!(!alert.progress);
    assert!(!failed.close_alert && !failed.refresh_root);
    assert!(matches!(failed.message, Some((MessageKind::Error, ref m, 10000)) if m == "nie udane przenoszenie conflict"));

    alert.begin_move(&Resource::Failed("not found".to_string())).unwrap();
    let done = alert.move_done(Ok(()));
    assert!(done.close_alert && done.refresh_root && done.reselect);
    assert!(matches!(done.message, Some((MessageKind::Info, ref m, 1000)) if m == "Udane przenoszenie"));
}
