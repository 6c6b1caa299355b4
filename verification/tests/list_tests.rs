use panel_client::alerts::list_calculate;
use panel_client::index::{
    create_list, css_active, label_css, scroll_correction, get_list_item_prirority, is_exist_in_list, remove_first, remove_prefix, ListItem,
};
use panel_client::resource::Resource;
use panel_client::tree::TreeEntry;

fn entry(name: &str, dir: bool) -> TreeEntry {
    TreeEntry { name: name.to_string(), dir, children: Resource::Loading }
}

fn item(name: &str, dir: bool, prirority: u8) -> ListItem {
    ListItem { name: name.to_string(), dir, prirority }
}

#[test]
fn priority_of_names() {
    assert_eq!(get_list_item_prirority(&"__old".to_string()), 0);
    assert_eq!(get_list_item_prirority(&"_pinned".to_string()), 2);
    assert_eq!(get_list_item_prirority(&"_".to_string()), 2);
    assert_eq!(get_list_item_prirority(&"plain".to_string()), 1);
    assert_eq!(get_list_item_prirority(&"".to_string()), 1);
    assert_eq!(get_list_item_prirority(&"a_b".to_string()), 1);
}

#[test]
fn create_list_orders_rows() {
    let listing = Resource::Ready(vec![
        entry("zebra", false),
        entry("__archive", true),
        entry("_todo.txt", false),
        entry("Apple", false),
        entry("_Projects", true),
        entry("banana", true),
        entry("__Old.txt", false),
        entry("_ideas", true),
    ]);
    assert_eq!(
        create_list(&listing),
        vec![
            item("_ideas", true, 2),
            item("_Projects", true, 2),
            item("_todo.txt", false, 2),
            item("Apple", false, 1),
            item("banana", true, 1),
            item("zebra", false, 1),
            item("__archive", true, 0),
            item("__Old.txt", false, 0),
        ]
    );
}

#[test]
fn create_list_of_a_listing_not_loaded_is_empty() {
    assert!(create_list(&Resource::Loading).is_empty());
    assert!(create_list(&Resource::Failed("error".to_string())).is_empty());
    assert!(create_list(&Resource::Ready(Vec::new())).is_empty());
}

#[test]
fn remove_prefix_drops_up_to_two_underscores() {
    assert_eq!(remove_prefix(&"___x".to_string()), "_x".to_string());
    assert_eq!(remove_prefix(&"__x".to_string()), "x".to_string());
    assert_eq!(remove_prefix(&"_x".to_string()), "x".to_string());
    assert_eq!(remove_prefix(&"x_".to_string()), "x_".to_string());
    assert_eq!(remove_prefix(&"".to_string()), "".to_string());
    assert_eq!(remove_prefix(&"_żółw".to_string()), "żółw".to_string());
}

#[test]
fn remove_first_drops_one_underscore() {
    assert_eq!(remove_first(&['_', '_', 'a']), &['_', 'a']);
    assert_eq!(remove_first(&['a']), &['a']);
    assert_eq!(remove_first(&[]), &[] as &[char]);
}

#[test]
fn is_exist_in_list_finds_names() {
    let list = vec![item("a", false, 1), item("b", true, 1)];
    assert!(is_exist_in_list(&"b".to_string(), &list));
    assert!(!is_exist_in_list(&"c".to_string(), &list));
    assert!(!is_exist_in_list(&"a".to_string(), &Vec::new()));
}

#[test]
fn css_active_styles() {
    assert_eq!(css_active(false), "cursor: pointer;");
    assert!(css_active(true).contains("text-decoration: underline;"));
}

#[test]
fn label_css_by_priority() {
    assert_eq!(label_css(2), "padding-left: 3px; color: green;");
    assert_eq!(label_css(1), "padding-left: 3px;");
    assert_eq!(label_css(0), "padding-left: 3px; opacity: 0.5; text-decoration: line-through;");
}

#[test]
fn move_targets_are_the_directories() {
    let list = vec![item("a", true, 1), item("b.txt", false, 1), item("_c", true, 2)];
    assert_eq!(list_calculate(&list), vec![item("a", true, 1), item("_c", true, 2)]);
    assert!(list_calculate(&Vec::new()).is_empty());
}

#[test]
fn scroll_correction_brings_the_row_into_view() {
    // above the list: scroll up by the overlap
    assert_eq!(scroll_correction(90, 20, 100, 200, 50), Some(40));
    // below the list: scroll down by the overlap
    assert_eq!(scroll_correction(290, 20, 100, 200, 50), Some(60));
    // inside: nothing
    assert_eq!(scroll_correction(150, 20, 100, 200, 50), None);
    assert_eq!(scroll_correction(i32::MIN, 0, i32::MAX, 0, i32::MIN), Some(i32::MIN as i64 - (i32::MAX as i64 - i32::MIN as i64)));
}
