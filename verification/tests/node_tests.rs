use panel_client::node::{NodeState, RefreshOutcome};
use panel_client::resource::Resource;

#[test]
fn refresh_keeps_only_newer_data() {
    let mut node = NodeState::new(10, "v10".to_string());
    assert!(matches!(node.refresh_with(Ok((12, "v12".to_string()))), RefreshOutcome::Updated));
    assert_eq!((node.timestamp, node.data.clone()), (12, "v12".to_string()));
    assert!(matches!(node.refresh_with(Ok((11, "v11".to_string()))), RefreshOutcome::Stale));
    assert!(matches!(node.refresh_with(Ok((12, "again".to_string()))), RefreshOutcome::Stale));
    assert_eq!((node.timestamp, node.data.clone()), (12, "v12".to_string()));
    match node.refresh_with(Err("offline".to_string())) {
        RefreshOutcome::Failed { error } => assert_eq!(error, "offline".to_string()),
        _ => panic!("a failed fetch is reported"),
    }
    assert_eq!((node.timestamp, node.data), (12, "v12".to_string()));
}

#[test]
fn resource_map_keeps_the_state() {
    assert!(Resource::Ready(2).map(|x: i32| x * 10) == Resource::Ready(20));
    assert!(Resource::<i32>::Loading.map(|x: i32| x * 10) == Resource::Loading);
    assert!(Resource::<i32>::Failed("e".to_string()).map(|x: i32| x * 10) == Resource::Failed("e".to_string()));
}

#[test]
fn resource_map_composes() {
    let f = |x: i32| x + 1;
    let g = |x: i32| x * 3;
    assert!(Resource::Ready(4).map(f).map(g) == Resource::Ready(4).map(|x: i32| g(f(x))));
    assert!(Resource::<i32>::Loading.map(f).map(g) == Resource::<i32>::Loading.map(|x: i32| g(f(x))));
}
