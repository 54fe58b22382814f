use makepad_widgets::align::AlignItem;
use makepad_widgets::ids::{ApplyFrom, LiveId, LivePtr, Vec2Index, WidgetActionItem, WidgetUid};
use makepad_widgets::list_view::{
    DragPhase, DrawWalk, DrawnItem, EndLayout, InstanceApply, ListDrawState, ListView, ScrollPhase,
};

type List = ListView<String, u32>;

fn ptr(index: u32) -> LivePtr {
    LivePtr { file_id: 1, index, generation: 0 }
}

fn with_template(id: u64, index: u32) -> List {
    let mut l: List = ListView::new();
    match l.apply_value_instance(ApplyFrom::NewFromDoc { file_id: 1 }, LiveId(id), true, ptr(index)) {
        InstanceApply::Registered { items } => assert!(items.is_empty()),
        _ => panic!("template not registered"),
    }
    l
}

fn make(uid: u64) -> impl FnOnce(LivePtr) -> (WidgetUid, String) {
    move |p: LivePtr| (WidgetUid(uid), format!("widget{}", p.index))
}

fn drawn(layout: u32, stop: bool) -> Option<DrawnItem<u32>> {
    Some(DrawnItem { layout, stop })
}

#[test]
fn new_list_defaults() {
    let l: List = ListView::new();
    let s = l.state();
    assert_eq!(s.range_start, 0);
    assert_eq!(s.range_end, u64::MAX);
    assert_eq!(s.view_window, 10);
    assert_eq!(s.first_id, 0);
    assert_eq!(s.vec_index, Vec2Index::X);
    assert_eq!(s.draw_state, None);
    assert_eq!(s.scroll_phase, ScrollPhase::Stopped);
    assert_eq!(s.drag_phase, DragPhase::Idle);
    assert_eq!(l.item_count(), 0);
}

#[test]
fn set_item_range_sets_all_three() {
    let mut l: List = ListView::new();
    l.set_item_range(5, 50, 7);
    let s = l.state();
    assert_eq!((s.range_start, s.range_end, s.view_window), (5, 50, 7));
    assert_eq!(l.range_len(), 45);
}

#[test]
fn after_apply_picks_axis() {
    let mut l: List = ListView::new();
    l.after_apply(true);
    assert_eq!(l.state().vec_index, Vec2Index::Y);
    l.after_apply(false);
    assert_eq!(l.state().vec_index, Vec2Index::X);
}

#[test]
fn draw_pass_walks_down_then_up() {
    let mut l: List = ListView::new();
    l.set_item_range(0, 100, 10);
    l.set_first_id(5);
    assert_eq!(l.draw_walk_widget(1), DrawWalk::HookAbove);
    assert_eq!(l.state().draw_state, Some(ListDrawState::Begin));
    assert_eq!(l.next_visible_item(None), Some(5));
    assert_eq!(l.next_visible_item(drawn(50, false)), Some(6));
    assert_eq!(l.next_visible_item(drawn(60, false)), Some(7));
    // item 7 reaches past the viewport: turn up, above the top item
    assert_eq!(l.next_visible_item(drawn(70, true)), Some(4));
    // item 4 reaches past the top: done
    assert_eq!(l.next_visible_item(drawn(40, true)), None);
    assert_eq!(l.state().draw_state, Some(ListDrawState::End));
    let idx: Vec<u64> = l.drawn_items().iter().map(|a| a.index).collect();
    assert_eq!(idx, vec![5, 6, 7, 4]);
    // the end of the pass sorts the drawn items and finds the top item
    assert_eq!(l.draw_walk_widget(1), DrawWalk::Finished(EndLayout::Arrange { first_index: 1 }));
    let sorted: Vec<(u64, u32)> = l.drawn_items().iter().map(|a| (a.index, a.layout)).collect();
    assert_eq!(sorted, vec![(4, 40), (5, 50), (6, 60), (7, 70)]);
    assert_eq!(l.state().draw_state, None);
    assert_eq!(l.draw_walk_widget(1), DrawWalk::Done);
}

#[test]
fn draw_pass_at_item_zero_ends_without_walking_up() {
    let mut l: List = ListView::new();
    assert_eq!(l.draw_walk_widget(3), DrawWalk::HookAbove);
    assert_eq!(l.next_visible_item(None), Some(0));
    assert_eq!(l.next_visible_item(drawn(1, true)), None);
    assert_eq!(l.state().draw_state, Some(ListDrawState::End));
}

#[test]
fn walk_up_stops_at_range_start() {
    let mut l: List = ListView::new();
    l.set_item_range(4, 100, 10);
    l.set_first_id(5);
    l.draw_walk_widget(1);
    assert_eq!(l.next_visible_item(None), Some(5));
    assert_eq!(l.next_visible_item(drawn(0, true)), Some(4));
    // item 4 is the first of the range: the walk up ends there
    assert_eq!(l.next_visible_item(drawn(0, false)), None);
}

#[test]
fn walk_up_repeats_the_item_above_the_top() {
    let mut l: List = ListView::new();
    l.set_first_id(5);
    l.draw_walk_widget(1);
    l.next_visible_item(None);
    assert_eq!(l.next_visible_item(drawn(0, true)), Some(4));
    // the walk up hands out the item above the top item again
    assert_eq!(l.next_visible_item(drawn(0, false)), Some(4));
}

#[test]
fn unfinished_pass_is_not_arranged() {
    let mut l: List = ListView::new();
    l.draw_walk_widget(1);
    l.next_visible_item(None);
    assert_eq!(l.draw_walk_widget(1), DrawWalk::Finished(EndLayout::NotFinished));
}

#[test]
fn pass_ended_before_any_item_is_nothing_drawn() {
    let mut l: List = ListView::new();
    l.draw_walk_widget(1);
    // end the pass while still at Begin
    assert_eq!(l.draw_walk_widget(1), DrawWalk::Finished(EndLayout::NotFinished));
    // a fresh redraw begins again and clears the drawn items
    assert_eq!(l.draw_walk_widget(2), DrawWalk::HookAbove);
    assert!(l.drawn_items().is_empty());
}

#[test]
fn next_visible_item_outside_a_pass_is_none() {
    let mut l: List = ListView::new();
    assert_eq!(l.next_visible_item(None), None);
    assert_eq!(l.state().draw_state, None);
}

#[test]
fn item_creates_once_and_reuses() {
    let mut l = with_template(7, 3);
    let w = l.item(1, LiveId(7), make(100));
    assert_eq!(w, Some("widget3".to_string()));
    assert_eq!(l.item_count(), 1);
    let again = l.item(1, LiveId(7), |_p: LivePtr| -> (WidgetUid, String) { panic!("must not create twice") });
    assert_eq!(again, Some("widget3".to_string()));
    assert_eq!(l.item_count(), 1);
    assert_eq!(l.item_entry(0).uid, WidgetUid(100));
}

#[test]
fn item_of_unknown_template_is_none() {
    let mut l = with_template(7, 3);
    assert_eq!(l.item(1, LiveId(8), make(100)), None);
    assert_eq!(l.item_count(), 0);
}

#[test]
fn unused_items_dropped_at_end_of_pass() {
    let mut l = with_template(7, 3);
    l.item(1, LiveId(7), make(100));
    l.item(2, LiveId(7), make(200));
    // first pass: both used
    l.draw_walk_widget(1);
    l.draw_walk_widget(1);
    assert_eq!(l.item_count(), 2);
    assert!(!l.item_entry(0).visible);
    // second pass: only item 2 used
    l.draw_walk_widget(2);
    l.item(2, LiveId(7), make(300));
    l.draw_walk_widget(2);
    assert_eq!(l.item_count(), 1);
    assert_eq!(l.item_entry(0).entry_id, 2);
    assert_eq!(l.item_entry(0).uid, WidgetUid(200));
}

#[test]
fn templates_replaced_and_cleared() {
    let mut l = with_template(7, 3);
    assert_eq!(l.template(LiveId(7)), Some(ptr(3)));
    l.apply_value_instance(ApplyFrom::UpdateFromDoc { file_id: 1 }, LiveId(7), true, ptr(9));
    assert_eq!(l.template(LiveId(7)), Some(ptr(9)));
    l.before_apply(ApplyFrom::NewFromDoc { file_id: 1 });
    assert_eq!(l.template(LiveId(7)), Some(ptr(9)));
    l.before_apply(ApplyFrom::UpdateFromDoc { file_id: 1 });
    assert_eq!(l.template(LiveId(7)), None);
}

#[test]
fn apply_value_instance_hands_back_items_of_template() {
    let mut l = with_template(7, 3);
    l.apply_value_instance(ApplyFrom::NewFromDoc { file_id: 1 }, LiveId(8), true, ptr(4));
    l.item(1, LiveId(7), make(100));
    l.item(2, LiveId(8), make(200));
    l.item(3, LiveId(7), make(300));
    match l.apply_value_instance(ApplyFrom::UpdateFromDoc { file_id: 1 }, LiveId(7), true, ptr(5)) {
        InstanceApply::Registered { items } => assert_eq!(items, vec!["widget3".to_string(), "widget3".to_string()]),
        _ => panic!("expected Registered"),
    }
    assert!(matches!(
        l.apply_value_instance(ApplyFrom::NewFromDoc { file_id: 1 }, LiveId(9), false, ptr(5)),
        InstanceApply::NoMatchingField
    ));
    assert!(matches!(l.apply_value_instance(ApplyFrom::Other, LiveId(9), true, ptr(5)), InstanceApply::Skipped));
    assert_eq!(l.template(LiveId(9)), None);
}

#[test]
fn arrow_down_moves_and_clamps() {
    let mut l: List = ListView::new();
    l.set_item_range(0, 10, 5);
    l.set_first_id(3);
    l.key_arrow_down();
    assert_eq!(l.first_id(), 4);
    l.set_first_id(9);
    l.key_arrow_down();
    assert_eq!(l.first_id(), 9);
}

#[test]
fn arrow_up_moves_and_clamps() {
    let mut l: List = ListView::new();
    l.set_item_range(3, 10, 5);
    l.set_first_id(5);
    assert!(l.key_arrow_up());
    assert_eq!(l.first_id(), 4);
    l.set_first_id(3);
    assert!(l.key_arrow_up());
    assert_eq!(l.first_id(), 3);
    l.set_first_id(0);
    assert!(!l.key_arrow_up());
    assert_eq!(l.first_id(), 0);
}

#[test]
fn arrow_up_then_down_returns() {
    let mut l: List = ListView::new();
    l.set_item_range(2, 20, 5);
    l.set_first_id(8);
    l.key_arrow_up();
    l.key_arrow_down();
    assert_eq!(l.first_id(), 8);
}

#[test]
fn scroll_ratio_parts_exact() {
    let mut l: List = ListView::new();
    l.set_item_range(10, 110, 20);
    l.set_first_id(35);
    assert_eq!(l.scroll_ratio_parts(), (25, 80));
    assert!(!l.at_range_start());
    l.set_first_id(10);
    assert!(l.at_range_start());
    assert!(l.in_range(109));
    assert!(!l.in_range(110));
}

#[test]
fn swipe_then_flick_then_stop() {
    let mut l: List = ListView::new();
    l.set_first_id(5);
    l.on_finger_down();
    assert_eq!(l.state().drag_phase, DragPhase::Swipe);
    assert!(l.on_finger_move(true));
    assert_eq!(l.state().drag_phase, DragPhase::Swipe);
    assert_eq!(l.on_finger_up(true, false), Some(ScrollPhase::Flick));
    assert_eq!(l.state().scroll_phase, ScrollPhase::Flick);
    assert_eq!(l.state().drag_phase, DragPhase::Idle);
    assert!(l.on_flick_frame(true));
    assert!(!l.on_flick_frame(false));
    assert_eq!(l.state().scroll_phase, ScrollPhase::Stopped);
}

#[test]
fn old_swipe_becomes_drag_and_does_not_flick() {
    let mut l: List = ListView::new();
    l.set_first_id(5);
    l.on_finger_down();
    assert!(l.on_finger_move(false));
    assert_eq!(l.state().drag_phase, DragPhase::Normal);
    assert_eq!(l.on_finger_up(true, false), None);
    assert_eq!(l.state().scroll_phase, ScrollPhase::Stopped);
}

#[test]
fn move_without_drag_does_not_scroll() {
    let mut l: List = ListView::new();
    assert!(!l.on_finger_move(true));
}

#[test]
fn pull_past_top_springs_back() {
    let mut l: List = ListView::new();
    l.on_finger_down();
    assert_eq!(l.on_finger_up(true, true), Some(ScrollPhase::Pulldown));
    assert_eq!(l.state().scroll_phase, ScrollPhase::Pulldown);
    assert!(l.on_pulldown_frame(true));
    assert!(!l.on_pulldown_frame(false));
    assert_eq!(l.state().scroll_phase, ScrollPhase::Stopped);
}

#[test]
fn finger_down_stops_spring_back_and_scroll_stops_flick() {
    let mut l: List = ListView::new();
    l.on_finger_down();
    l.on_finger_up(false, true);
    assert_eq!(l.state().scroll_phase, ScrollPhase::Pulldown);
    l.on_finger_down();
    assert_eq!(l.state().scroll_phase, ScrollPhase::Stopped);
    l.on_finger_up(true, false);
    assert_eq!(l.state().scroll_phase, ScrollPhase::Flick);
    l.on_finger_scroll();
    assert_eq!(l.state().scroll_phase, ScrollPhase::Stopped);
}

#[test]
fn action_item_fields() {
    let a = WidgetActionItem { container_uid: WidgetUid(1), item_uid: WidgetUid(2) };
    assert_eq!(a.container_uid, WidgetUid(1));
    let _ = AlignItem { index: 3u64, layout: 0u8 };
}

#[test]
fn anchor_drawn_puts_drawn_item_on_top() {
    let mut l: List = ListView::new();
    l.set_first_id(5);
    l.draw_walk_widget(1);
    l.next_visible_item(None);
    l.next_visible_item(drawn(50, false));
    l.next_visible_item(drawn(60, true));
    l.next_visible_item(drawn(40, true));
    l.draw_walk_widget(1);
    // drawn items sorted: 4, 5, 6
    l.anchor_drawn(2);
    assert_eq!(l.first_id(), 6);
    l.anchor_drawn(0);
    assert_eq!(l.first_id(), 4);
}

#[test]
fn handed_out_index_matches_state() {
    let mut l: List = ListView::new();
    l.set_first_id(2);
    l.draw_walk_widget(1);
    assert_eq!(l.next_visible_item(None), Some(2));
    assert_eq!(l.state().draw_state, Some(ListDrawState::Down { index: 2 }));
    assert_eq!(l.next_visible_item(drawn(0, true)), Some(1));
    assert_eq!(l.state().draw_state, Some(ListDrawState::Up { index: 1 }));
    assert_eq!(l.next_visible_item(drawn(0, true)), None);
    assert_eq!(l.state().draw_state, Some(ListDrawState::End));
}
