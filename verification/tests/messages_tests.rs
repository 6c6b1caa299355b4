use panel_client::messages::{MessageKind, Messages};

fn shown(m: &Messages) -> Vec<(u32, MessageKind, String)> {
    m.list().iter().map(|x| (x.id, x.info, x.message.clone())).collect()
}

#[test]
fn messages_get_increasing_ids_from_one() {
    let mut m = Messages::new();
    assert!(m.list().is_empty());
    assert_eq!(m.message_add(MessageKind::Error, "first".to_string()), 1);
    assert_eq!(m.message_add(MessageKind::Info, "second".to_string()), 2);
    assert_eq!(
        shown(&m),
        vec![(1, MessageKind::Error, "first".to_string()), (2, MessageKind::Info, "second".to_string())]
    );
}

#[test]
fn show_message_returns_the_removal_to_schedule() {
    let mut m = Messages::new();
    assert_eq!(m.show_message_error("bad".to_string(), Some(2000)), Some((1, 2000)));
    assert_eq!(m.show_message_info("fine".to_string(), None), None);
    assert_eq!(
        shown(&m),
        vec![(1, MessageKind::Error, "bad".to_string()), (2, MessageKind::Info, "fine".to_string())]
    );
}

#[test]
fn remove_message_keeps_the_others() {
    let mut m = Messages::new();
    m.message_add(MessageKind::Info, "a".to_string());
    m.message_add(MessageKind::Info, "b".to_string());
    m.message_add(MessageKind::Error, "c".to_string());
    m.remove_message(2);
    assert_eq!(
        shown(&m),
        vec![(1, MessageKind::Info, "a".to_string()), (3, MessageKind::Error, "c".to_string())]
    );
    m.remove_message(7);
    assert_eq!(shown(&m).len(), 2);
    // ids are not handed out again
    assert_eq!(m.message_add(MessageKind::Info, "d".to_string()), 4);
}

#[test]
fn removing_a_new_message_restores() {
    let mut m = Messages::new();
    m.message_add(MessageKind::Info, "a".to_string());
    let before = shown(&m);
    let id = m.message_add(MessageKind::Error, "temporary".to_string());
    m.remove_message(id);
    assert_eq!(shown(&m), before);
}
