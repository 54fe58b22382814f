use makepad_widgets::ids::{ApplyFrom, LiveId, LivePtr, WidgetActionItem, WidgetUid};
use makepad_widgets::list_view::ListView;
use makepad_widgets::list_view_ref::{ListViewRef, ListViewSet};

type List = ListView<String, u32>;

fn list_with_items(uids: &[(u64, u64)]) -> List {
    let mut l: List = ListView::new();
    l.apply_value_instance(
        ApplyFrom::NewFromDoc { file_id: 1 },
        LiveId(7),
        true,
        LivePtr { file_id: 1, index: 0, generation: 0 },
    );
    for &(entry, uid) in uids {
        l.item(entry, LiveId(7), move |_p: LivePtr| (WidgetUid(uid), format!("item{}", entry)));
    }
    l
}

fn action(container: u64, item: u64) -> WidgetActionItem {
    WidgetActionItem { container_uid: WidgetUid(container), item_uid: WidgetUid(item) }
}

#[test]
fn ref_first_id_roundtrip() {
    let mut r = ListViewRef::new(WidgetUid(1), list_with_items(&[]));
    assert_eq!(r.first_id(), 0);
    r.set_first_id(42);
    assert_eq!(r.first_id(), 42);
}

#[test]
fn empty_ref_reports_zero() {
    let mut r: ListViewRef<String, u32> = ListViewRef::empty();
    r.set_first_id(42);
    assert_eq!(r.first_id(), 0);
    assert_eq!(r.widget_uid(), WidgetUid(0));
    assert!(r.item(1, LiveId(7), |_p: LivePtr| (WidgetUid(5), String::new())).is_none());
    assert!(r.items_with_actions(&vec![action(0, 5)]).is_empty());
}

#[test]
fn ref_item_goes_to_list() {
    let mut r = ListViewRef::new(WidgetUid(1), list_with_items(&[]));
    let w = r.item(3, LiveId(7), |_p: LivePtr| (WidgetUid(30), "three".to_string()));
    assert_eq!(w, Some("three".to_string()));
    assert_eq!(r.widget_uid(), WidgetUid(1));
    assert_eq!(r.borrow().unwrap().item_count(), 1);
}

#[test]
fn items_with_actions_matches_container_and_item() {
    let r = ListViewRef::new(WidgetUid(1), list_with_items(&[(10, 100), (11, 101), (12, 102)]));
    let actions = vec![action(1, 101), action(2, 100), action(1, 102), action(1, 999)];
    let hits = r.items_with_actions(&actions);
    assert_eq!(hits, vec![(11, "item11".to_string()), (12, "item12".to_string())]);
}

#[test]
fn items_with_actions_vec_appends() {
    let r = ListViewRef::new(WidgetUid(1), list_with_items(&[(10, 100)]));
    let mut set = vec![(0u64, "before".to_string())];
    r.items_with_actions_vec(&vec![action(1, 100), action(1, 100)], &mut set);
    assert_eq!(
        set,
        vec![(0, "before".to_string()), (10, "item10".to_string()), (10, "item10".to_string())]
    );
}

#[test]
fn set_first_id_on_every_list() {
    let mut s = ListViewSet::new(vec![
        ListViewRef::new(WidgetUid(1), list_with_items(&[])),
        ListViewRef::empty(),
        ListViewRef::new(WidgetUid(2), list_with_items(&[])),
    ]);
    s.set_first_id(9);
    assert_eq!(s.len(), 3);
    assert_eq!(s.get(0).first_id(), 9);
    assert_eq!(s.get(1).first_id(), 0);
    assert_eq!(s.get(2).first_id(), 9);
}

#[test]
fn set_items_with_actions_list_by_list() {
    let s = ListViewSet::new(vec![
        ListViewRef::new(WidgetUid(1), list_with_items(&[(10, 100)])),
        ListViewRef::new(WidgetUid(2), list_with_items(&[(20, 200), (21, 100)])),
    ]);
    let hits = s.items_with_actions(&vec![action(2, 100), action(1, 100)]);
    assert_eq!(hits, vec![(10, "item10".to_string()), (21, "item21".to_string())]);
}

#[test]
fn defaults_are_empty() {
    let r: ListViewRef<String, u32> = ListViewRef::default();
    assert_eq!(r.first_id(), 0);
    assert!(r.borrow().is_none());
    let s: ListViewSet<String, u32> = ListViewSet::default();
    assert_eq!(s.len(), 0);
    assert!(s.items_with_actions(&vec![action(1, 1)]).is_empty());
}

#[test]
fn forwarded_item_action_is_found_again() {
    let r = ListViewRef::new(WidgetUid(4), list_with_items(&[(10, 100), (11, 101)]));
    let a = r.item_action(WidgetUid(101));
    assert_eq!(a, action(4, 101));
    assert_eq!(r.items_with_actions(&vec![a]), vec![(11, "item11".to_string())]);
    let empty: ListViewRef<String, u32> = ListViewRef::empty();
    assert_eq!(empty.item_action(WidgetUid(7)), action(0, 7));
}
