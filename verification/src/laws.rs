//! Properties that span several operations of a list view.

use vstd::prelude::*;
use crate::ids::{LiveId, LivePtr, WidgetActionItem, WidgetUid};
use crate::item_map::{contains_key, has_key_at, keys_unique, retained, unmarked, ItemEntry};
use crate::align::AlignItem;
use crate::list_view::{arrow_down_spec, arrow_up_spec, draw_inv, draw_step, draw_step_in_bounds, holds_index, item_outcome, uid_hits, appends_clones, finger_up_phase, positions_with_template, DragPhase, ListDrawState, ListState, ListView, ScrollPhase};
use crate::list_view_ref::{action_hits, ref_first_id, ref_first_id_set, ref_hits, set_hits, ListViewRef};

verus! {

/// A draw pass begins in a consistent state: nothing drawn yet.
pub proof fn law_pass_begins_consistent<A>(first_id: u64)
    ensures
        draw_inv(Some(ListDrawState::Begin), first_id, Seq::<AlignItem<A>>::empty()),
{
}

/// A pass that has drawn every visible item has drawn the top item first,
/// then the items below it in order, then at most the item above it; so the
/// end of the pass always finds the top item among the drawn items.
pub proof fn law_finished_pass_holds_top_item<A>(first_id: u64, list: Seq<AlignItem<A>>)
    requires
        draw_inv(Some(ListDrawState::End), first_id, list),
    ensures
        list.len() > 0,
        list[0].index == first_id,
        holds_index(list, first_id),
        forall|k: int| 0 <= k < list.len() ==> #[trigger] list[k].index == first_id + k || list[k].index == first_id - 1,
{
    assert(list[0].index == first_id);
}

/// Walking down from the top item hands out the items in order: the item
/// handed out after `index` is `index + 1`, and the drawn items are then
/// exactly `first_id ..= index`.
pub proof fn law_walk_down_is_consecutive<A>(first_id: u64, range_start: u64, index: u64, list: Seq<AlignItem<A>>, layout: A)
    requires
        draw_inv(Some(ListDrawState::Down { index }), first_id, list),
        index < u64::MAX,
    ensures
        draw_step(Some(ListDrawState::Down { index }), first_id, range_start, false)
            == (Some(ListDrawState::Down { index: (index + 1) as u64 }), Some((index + 1) as u64)),
        draw_inv(Some(ListDrawState::Down { index: (index + 1) as u64 }), first_id, list.push(AlignItem { index, layout })),
{
    let l = list.push(AlignItem { index, layout });
    assert forall|k: int| 0 <= k < l.len() implies #[trigger] l[k].index == first_id + k by {
        if k < list.len() {
            assert(l[k] == list[k]);
        }
    }
}

/// The down arrow never moves the top item past the last item of the range.
pub proof fn law_arrow_down_stays_in_range(first_id: u64, range_end: u64)
    requires
        first_id < u64::MAX,
        range_end >= 1,
    ensures
        arrow_down_spec(first_id, range_end) < range_end,
{
}

/// The up arrow never moves the top item before the first item of the range.
pub proof fn law_arrow_up_stays_in_range(first_id: u64, range_start: u64)
    requires
        first_id > 0,
    ensures
        arrow_up_spec(first_id, range_start) >= range_start,
{
}

/// Inside the range, the down arrow undoes the up arrow.
pub proof fn law_arrow_up_then_down(first_id: u64, range_start: u64, range_end: u64)
    requires
        range_start < first_id,
        first_id < range_end,
    ensures
        arrow_down_spec(arrow_up_spec(first_id, range_start), range_end) == first_id,
{
}

/// Asking twice for the same item of a known template gives clones of one
/// widget: the second call finds the first call's widget and makes none.
pub proof fn law_item_twice_same_widget<W: Clone, A, F: FnOnce(LivePtr) -> (WidgetUid, W), G: FnOnce(LivePtr) -> (WidgetUid, W)>(
    l0: ListView<W, A>,
    l1: ListView<W, A>,
    l2: ListView<W, A>,
    entry_id: u64,
    template: LiveId,
    create1: F,
    create2: G,
    r1: Option<W>,
    r2: Option<W>,
)
    requires
        l0.templates().contains_key(template),
        item_outcome(l0, l1, entry_id, template, create1, r1),
        item_outcome(l1, l2, entry_id, template, create2, r2),
    ensures
        l2.items().len() == l1.items().len(),
        exists|i: int| {
            &&& #[trigger] has_key_at(l2.items(), i, entry_id, template)
            &&& l2.items()[i].widget == l1.items()[i].widget
            &&& r1 matches Some(w1) && cloned(l1.items()[i].widget, w1)
            &&& r2 matches Some(w2) && cloned(l1.items()[i].widget, w2)
        },
{
    let i = choose|i: int| {
        &&& #[trigger] has_key_at(l1.items(), i, entry_id, template)
        &&& l1.items()[i].visible
        &&& r1 matches Some(w) && cloned(l1.items()[i].widget, w)
        &&& contains_key(l0.items(), entry_id, template) ==> {
            &&& has_key_at(l0.items(), i, entry_id, template)
            &&& l1.items() == l0.items().update(i, ItemEntry { visible: true, ..l0.items()[i] })
        }
        &&& !contains_key(l0.items(), entry_id, template) ==> {
            &&& i == l0.items().len()
            &&& l1.items().drop_last() == l0.items()
            &&& create1.ensures((l0.templates()[template],), (l1.items()[i].uid, l1.items()[i].widget))
        }
    };
    assert(contains_key(l1.items(), entry_id, template));
    let j = choose|j: int| {
        &&& #[trigger] has_key_at(l2.items(), j, entry_id, template)
        &&& l2.items()[j].visible
        &&& r2 matches Some(w) && cloned(l2.items()[j].widget, w)
        &&& contains_key(l1.items(), entry_id, template) ==> {
            &&& has_key_at(l1.items(), j, entry_id, template)
            &&& l2.items() == l1.items().update(j, ItemEntry { visible: true, ..l1.items()[j] })
        }
        &&& !contains_key(l1.items(), entry_id, template) ==> {
            &&& j == l1.items().len()
            &&& l2.items().drop_last() == l1.items()
            &&& create2.ensures((l1.templates()[template],), (l2.items()[j].uid, l2.items()[j].widget))
        }
    };
    assert(keys_unique(l1.items())) by {
        assert(l1.wf());
        crate::list_view::lemma_wf_items_unique(l1);
    }
    if i != j {
        if i < j {
            assert(!(l1.items()[i].entry_id == l1.items()[j].entry_id && l1.items()[i].template == l1.items()[j].template));
        } else {
            assert(!(l1.items()[j].entry_id == l1.items()[i].entry_id && l1.items()[j].template == l1.items()[i].template));
        }
    }
    assert(l2.items()[j].widget == l1.items()[j].widget);
    assert(has_key_at(l2.items(), j, entry_id, template));
}

/// Dropping the unused items keeps exactly the items used since the last
/// drop: an item marked visible stays (unmarked), any other is gone.
pub proof fn law_retained_keeps_used_items<W>(s: Seq<ItemEntry<W>>, i: int)
    requires
        keys_unique(s),
        0 <= i < s.len(),
    ensures
        s[i].visible ==> retained(s).contains(unmarked(s[i])),
        !s[i].visible ==> !contains_key(retained(s), s[i].entry_id, s[i].template),
    decreases s.len(),
{
    lemma_retained_from(s);
    if i == s.len() - 1 {
        if !s[i].visible {
            let t = s.drop_last();
            assert(retained(s) == retained(t));
            lemma_retained_from(t);
            if contains_key(retained(s), s[i].entry_id, s[i].template) {
                let k = choose|k: int| has_key_at(retained(s), k, s[i].entry_id, s[i].template);
                let q = choose|q: int| 0 <= q < t.len() && #[trigger] retained(t)[k] == unmarked(t[q]);
                assert(t[q] == s[q]);
                assert(!(s[q].entry_id == s[i].entry_id && s[q].template == s[i].template));
            }
        } else {
            assert(retained(s).last() == unmarked(s[i]));
        }
    } else {
        let t = s.drop_last();
        assert(t[i] == s[i]);
        assert forall|a: int, b: int| 0 <= a < b < t.len() implies !(#[trigger] t[a].entry_id == #[trigger] t[b].entry_id
            && t[a].template == t[b].template) by {
            assert(t[a] == s[a] && t[b] == s[b]);
        }
        law_retained_keeps_used_items(t, i);
        if s[i].visible {
            let k = choose|k: int| 0 <= k < retained(t).len() && retained(t)[k] == unmarked(s[i]);
            if s.last().visible {
                assert(retained(s)[k] == retained(t)[k]);
            }
        } else {
            if contains_key(retained(s), s[i].entry_id, s[i].template) {
                let k = choose|k: int| has_key_at(retained(s), k, s[i].entry_id, s[i].template);
                if s.last().visible && k == retained(t).len() {
                    assert(retained(s)[k] == unmarked(s.last()));
                    assert(!(s[i].entry_id == s[s.len() - 1].entry_id && s[i].template == s[s.len() - 1].template));
                } else {
                    assert(retained(s)[k] == retained(t)[k]);
                    assert(has_key_at(retained(t), k, s[i].entry_id, s[i].template));
                }
            }
        }
    }
}

/// Every retained item is an unmarked earlier item.
proof fn lemma_retained_from<W>(s: Seq<ItemEntry<W>>)
    ensures
        forall|k: int| 0 <= k < retained(s).len() ==> exists|q: int| 0 <= q < s.len() && #[trigger] retained(s)[k] == unmarked(s[q]),
    decreases s.len(),
{
    if s.len() > 0 {
        let t = s.drop_last();
        lemma_retained_from(t);
        assert forall|k: int| 0 <= k < retained(s).len() implies exists|q: int| 0 <= q < s.len() && #[trigger] retained(s)[k] == unmarked(s[q]) by {
            if k < retained(t).len() {
                let q = choose|q: int| 0 <= q < t.len() && #[trigger] retained(t)[k] == unmarked(t[q]);
                assert(retained(s)[k] == retained(t)[k]);
                assert(t[q] == s[q]);
            } else {
                assert(retained(s)[k] == unmarked(s[s.len() - 1]));
            }
        }
    }
}

/// After the top item of a handle is set, the handle reports it (or 0 if
/// it holds no list).
pub proof fn law_set_then_read_first_id<W, A>(old: ListViewRef<W, A>, new: ListViewRef<W, A>, id: u64)
    requires
        ref_first_id_set(old, new, id),
    ensures
        ref_first_id(new) == (if old.list_view() is Some { id } else { 0 }),
{
}

/// Actions that did not come through a list hit none of its items.
pub proof fn law_foreign_actions_hit_nothing<W, A>(list_uid: WidgetUid, list: ListView<W, A>, actions: Seq<WidgetActionItem>)
    requires
        forall|k: int| 0 <= k < actions.len() ==> #[trigger] actions[k].container_uid != list_uid,
    ensures
        action_hits(list_uid, list, actions) == Seq::<(u64, W)>::empty(),
    decreases actions.len(),
{
    if actions.len() > 0 {
        law_foreign_actions_hit_nothing(list_uid, list, actions.drop_last());
        assert(actions.last().container_uid != list_uid);
    }
}

/// Every index the draw protocol hands out is the item the new state is
/// drawing, walking down or up; it hands out nothing only at the end of a
/// pass or outside one.
pub proof fn law_handed_out_index_matches_state(state: Option<ListDrawState>, first_id: u64, range_start: u64, stop: bool)
    requires
        draw_step_in_bounds(state, first_id, range_start, stop),
    ensures
        ({
            let (next, out) = draw_step(state, first_id, range_start, stop);
            match out {
                Some(id) => next == Some(ListDrawState::Down { index: id }) || next == Some(ListDrawState::Up { index: id }),
                None => next is None || next == Some(ListDrawState::End),
            }
        }),
{
}

/// Where cloning a widget handle gives the same handle (as for a shared
/// handle), asking twice for the same item of a known template gives the
/// same widget both times.
pub proof fn law_item_twice_same_handle<W: Clone, A, F: FnOnce(LivePtr) -> (WidgetUid, W), G: FnOnce(LivePtr) -> (WidgetUid, W)>(
    l0: ListView<W, A>,
    l1: ListView<W, A>,
    l2: ListView<W, A>,
    entry_id: u64,
    template: LiveId,
    create1: F,
    create2: G,
    r1: Option<W>,
    r2: Option<W>,
)
    requires
        forall|x: W, y: W| #[trigger] cloned(x, y) ==> x == y,
        l0.templates().contains_key(template),
        item_outcome(l0, l1, entry_id, template, create1, r1),
        item_outcome(l1, l2, entry_id, template, create2, r2),
    ensures
        r1 is Some,
        r2 == r1,
        l2.items().len() == l1.items().len(),
{
    law_item_twice_same_widget(l0, l1, l2, entry_id, template, create1, create2, r1, r2);
    let i = choose|i: int| {
        &&& #[trigger] has_key_at(l2.items(), i, entry_id, template)
        &&& l2.items()[i].widget == l1.items()[i].widget
        &&& r1 matches Some(w1) && cloned(l1.items()[i].widget, w1)
        &&& r2 matches Some(w2) && cloned(l1.items()[i].widget, w2)
    };
    assert(cloned(l1.items()[i].widget, r1->0));
    assert(cloned(l1.items()[i].widget, r2->0));
}

/// Where cloning a widget handle gives the same handle, the items a set of
/// lists finds for `actions` are those each list finds, list by list, in
/// the same order.
pub proof fn law_set_hits_concatenate<W: Clone, A>(
    lists: Seq<ListViewRef<W, A>>,
    actions: Seq<WidgetActionItem>,
    set_result: Seq<(u64, W)>,
    list_results: Seq<Seq<(u64, W)>>,
)
    requires
        forall|x: W, y: W| #[trigger] cloned(x, y) ==> x == y,
        appends_clones(Seq::empty(), set_result, set_hits(lists, actions)),
        list_results.len() == lists.len(),
        forall|k: int| 0 <= k < lists.len() ==> appends_clones(Seq::empty(), #[trigger] list_results[k], ref_hits(lists[k], actions)),
    ensures
        set_result == list_results.flatten(),
    decreases lists.len(),
{
    lemma_exact_clones(set_result, set_hits(lists, actions));
    lemma_set_hits_flatten(lists, actions, list_results);
}

/// With exact clones, a result that clones `src` is `src` itself.
proof fn lemma_exact_clones<W: Clone>(res: Seq<(u64, W)>, src: Seq<(u64, W)>)
    requires
        forall|x: W, y: W| #[trigger] cloned(x, y) ==> x == y,
        appends_clones(Seq::empty(), res, src),
    ensures
        res == src,
{
    assert forall|k: int| 0 <= k < res.len() implies res[k] == src[k] by {
        assert((res[0 + k]).0 == src[k].0 && cloned(src[k].1, res[0 + k].1));
    }
    assert(res =~= src);
}

proof fn lemma_set_hits_flatten<W: Clone, A>(
    lists: Seq<ListViewRef<W, A>>,
    actions: Seq<WidgetActionItem>,
    list_results: Seq<Seq<(u64, W)>>,
)
    requires
        forall|x: W, y: W| #[trigger] cloned(x, y) ==> x == y,
        list_results.len() == lists.len(),
        forall|k: int| 0 <= k < lists.len() ==> appends_clones(Seq::empty(), #[trigger] list_results[k], ref_hits(lists[k], actions)),
    ensures
        set_hits(lists, actions) == list_results.flatten(),
    decreases lists.len(),
{
    if lists.len() > 0 {
        let n = lists.len() - 1;
        assert(appends_clones(Seq::empty(), list_results[n as int], ref_hits(lists[n as int], actions)));
        lemma_exact_clones(list_results[n as int], ref_hits(lists[n as int], actions));
        assert forall|k: int| 0 <= k < lists.drop_last().len() implies appends_clones(
            Seq::empty(),
            #[trigger] list_results.drop_last()[k],
            ref_hits(lists.drop_last()[k], actions),
        ) by {
            assert(appends_clones(Seq::empty(), list_results[k], ref_hits(lists[k], actions)));
        }
        lemma_set_hits_flatten(lists.drop_last(), actions, list_results.drop_last());
        list_results.drop_last().lemma_flatten_push(list_results.last());
        assert(list_results.drop_last().push(list_results.last()) =~= list_results);
    }
}

/// An action an item raises, passed on by its list (tagged with the list and
/// the item), is found again by `items_with_actions`: the list's hits for it
/// are exactly the items with that uid, among them the item that raised it.
pub proof fn law_forwarded_action_finds_item<W, A>(r: ListViewRef<W, A>, k: int)
    requires
        r.list_view() is Some,
        0 <= k < r.list_view()->0.items().len(),
    ensures
        ({
            let l = r.list_view()->0;
            let e = l.items()[k];
            let a = WidgetActionItem { container_uid: r.uid(), item_uid: e.uid };
            &&& ref_hits(r, seq![a]) == uid_hits(l.items(), e.uid)
            &&& uid_hits(l.items(), e.uid).contains((e.entry_id, e.widget))
        }),
{
    let l = r.list_view()->0;
    let e = l.items()[k];
    let a = WidgetActionItem { container_uid: r.uid(), item_uid: e.uid };
    let acts = seq![a];
    assert(acts.drop_last() =~= Seq::<WidgetActionItem>::empty());
    assert(acts.last() == a);
    assert(action_hits(r.uid(), l, acts.drop_last()) == Seq::<(u64, W)>::empty());
    assert(action_hits(r.uid(), l, acts) == Seq::<(u64, W)>::empty() + uid_hits(l.items(), e.uid));
    assert(action_hits(r.uid(), l, seq![a]) =~= uid_hits(l.items(), e.uid));
    lemma_uid_hits_contains(l.items(), k);
}

proof fn lemma_uid_hits_contains<W>(s: Seq<crate::item_map::ItemEntry<W>>, k: int)
    requires
        0 <= k < s.len(),
    ensures
        uid_hits(s, s[k].uid).contains((s[k].entry_id, s[k].widget)),
    decreases s.len(),
{
    let t = s.drop_last();
    if k == s.len() - 1 {
        let h = uid_hits(s, s[k].uid);
        assert(h[h.len() - 1] == (s[k].entry_id, s[k].widget));
    } else {
        assert(t[k] == s[k]);
        lemma_uid_hits_contains(t, k);
        let h = uid_hits(t, s[k].uid);
        let j = choose|j: int| 0 <= j < h.len() && h[j] == (s[k].entry_id, s[k].widget);
        if s.last().uid == s[k].uid {
            assert(uid_hits(s, s[k].uid)[j] == h[j]);
        }
    }
}

/// Applying a template hands back every item widget made from that
/// template, whether or not it was used in the current pass, and no other:
/// position `k` is handed back exactly when entry `k` was made from `id`,
/// each position once, in order.
pub proof fn law_template_items_handed_back<W>(s: Seq<ItemEntry<W>>, id: LiveId)
    ensures
        forall|k: int| 0 <= k < s.len() ==> (positions_with_template(s, id).contains(k) <==> #[trigger] s[k].template == id),
        forall|j: int| 0 <= j < positions_with_template(s, id).len() ==> {
            let p = #[trigger] positions_with_template(s, id)[j];
            0 <= p < s.len() && s[p].template == id
        },
        forall|a: int, b: int| 0 <= a < b < positions_with_template(s, id).len() ==>
            #[trigger] positions_with_template(s, id)[a] < #[trigger] positions_with_template(s, id)[b],
    decreases s.len(),
{
    if s.len() > 0 {
        let t = s.drop_last();
        law_template_items_handed_back(t, id);
        let pt = positions_with_template(t, id);
        let ps = positions_with_template(s, id);
        assert forall|k: int| 0 <= k < t.len() implies t[k] == s[k] by {}
        assert forall|j: int| 0 <= j < pt.len() implies pt[j] < t.len() by {
            let p = pt[j];
        }
        assert forall|k: int| 0 <= k < s.len() implies (ps.contains(k) <==> #[trigger] s[k].template == id) by {
            if k < t.len() {
                assert(t[k] == s[k]);
                if ps.contains(k) {
                    let j = choose|j: int| 0 <= j < ps.len() && ps[j] == k;
                    if j < pt.len() {
                        assert(ps[j] == pt[j]);
                    }
                }
                if s[k].template == id {
                    assert(pt.contains(k));
                    let j = choose|j: int| 0 <= j < pt.len() && pt[j] == k;
                    assert(ps[j] == pt[j]);
                }
            } else {
                if s[k].template == id {
                    assert(ps[ps.len() - 1] == k);
                } else {
                    if ps.contains(k) {
                        let j = choose|j: int| 0 <= j < ps.len() && ps[j] == k;
                        assert(ps[j] == pt[j]);
                        let p = pt[j];
                    }
                }
            }
        }
        assert forall|j: int| 0 <= j < ps.len() implies {
            let p = #[trigger] ps[j];
            0 <= p < s.len() && s[p].template == id
        } by {
            if j < pt.len() {
                assert(ps[j] == pt[j]);
                let p = pt[j];
                assert(t[p] == s[p]);
            }
        }
        assert forall|a: int, b: int| 0 <= a < b < ps.len() implies #[trigger] ps[a] < #[trigger] ps[b] by {
            if b < pt.len() {
                assert(ps[a] == pt[a] && ps[b] == pt[b]);
            } else {
                assert(ps[a] == pt[a]);
                let p = pt[a];
            }
        }
    }
}

/// The draw protocol, step by step: a pass hands out the top item first;
/// while items fit, the walk down hands out the next item; once the walk
/// down stops, it hands out the item above the top item (unless the top
/// item is item 0, when the pass ends); the walk up goes on handing out the
/// item above the top item until an item stops it or it reaches the start
/// of the range; an ended pass, or no pass, hands out nothing.
pub proof fn law_draw_protocol(first_id: u64, range_start: u64, index: u64, stop: bool)
    ensures
        draw_step(Some(ListDrawState::Begin), first_id, range_start, stop)
            == (Some(ListDrawState::Down { index: first_id }), Some(first_id)),
        index < u64::MAX ==> draw_step(Some(ListDrawState::Down { index }), first_id, range_start, false)
            == (Some(ListDrawState::Down { index: (index + 1) as u64 }), Some((index + 1) as u64)),
        first_id > 0 ==> draw_step(Some(ListDrawState::Down { index }), first_id, range_start, true)
            == (Some(ListDrawState::Up { index: (first_id - 1) as u64 }), Some((first_id - 1) as u64)),
        first_id == 0 ==> draw_step(Some(ListDrawState::Down { index }), first_id, range_start, true)
            == (Some(ListDrawState::End), None::<u64>),
        draw_step(Some(ListDrawState::Up { index }), first_id, range_start, true) == (Some(ListDrawState::End), None::<u64>),
        draw_step(Some(ListDrawState::Up { index: range_start }), first_id, range_start, stop)
            == (Some(ListDrawState::End), None::<u64>),
        index != range_start && first_id > 0 ==> draw_step(Some(ListDrawState::Up { index }), first_id, range_start, false)
            == (Some(ListDrawState::Up { index: (first_id - 1) as u64 }), Some((first_id - 1) as u64)),
        draw_step(Some(ListDrawState::End), first_id, range_start, stop) == (Some(ListDrawState::End), None::<u64>),
        draw_step(None, first_id, range_start, stop) == (None::<ListDrawState>, None::<u64>),
{
}

/// A finger lifting starts a spring-back when the list is at its first item
/// and pulled past its top; otherwise a flick when the drag was a fast
/// swipe; otherwise it leaves the momentum as it was (a running flick or
/// spring-back goes on, a stopped list stays stopped). It never stops
/// running momentum.
pub proof fn law_finger_up_phase(s: ListState, fast_swipe: bool, past_top: bool)
    ensures
        s.first_id == s.range_start && past_top ==> finger_up_phase(s, fast_swipe, past_top) == ScrollPhase::Pulldown,
        !(s.first_id == s.range_start && past_top) && s.drag_phase == DragPhase::Swipe && fast_swipe
            ==> finger_up_phase(s, fast_swipe, past_top) == ScrollPhase::Flick,
        !(s.first_id == s.range_start && past_top) && !(s.drag_phase == DragPhase::Swipe && fast_swipe)
            ==> finger_up_phase(s, fast_swipe, past_top) == s.scroll_phase,
        finger_up_phase(s, fast_swipe, past_top) == ScrollPhase::Stopped ==> s.scroll_phase == ScrollPhase::Stopped,
{
}

/// The arrow keys move the top item by one, clamped to the range: down
/// goes to the next item unless that is past the last item of the range
/// (then to the last item); up goes to the item before unless that is
/// before the first item of the range (then to the first); up at item 0
/// does nothing.
pub proof fn law_arrow_keys(first_id: u64, range_start: u64, range_end: u64)
    ensures
        range_end >= 1 && first_id + 1 < range_end ==> arrow_down_spec(first_id, range_end) == first_id + 1,
        range_end >= 1 && first_id + 1 >= range_end ==> arrow_down_spec(first_id, range_end) == range_end - 1,
        first_id > 0 && first_id - 1 >= range_start ==> arrow_up_spec(first_id, range_start) == first_id - 1,
        first_id > 0 && first_id - 1 < range_start ==> arrow_up_spec(first_id, range_start) == range_start,
        first_id == 0 ==> arrow_up_spec(first_id, range_start) == 0,
{
}

/// The items an action hits are exactly the item widgets whose uid is the
/// action's item: each such widget once, in order, and nothing else.
pub proof fn law_uid_hits_exact<W>(s: Seq<ItemEntry<W>>, u: WidgetUid)
    ensures
        forall|k: int| 0 <= k < s.len() && #[trigger] s[k].uid == u ==> uid_hits(s, u).contains((s[k].entry_id, s[k].widget)),
        forall|j: int| 0 <= j < uid_hits(s, u).len() ==> hit_from_entry(s, u, #[trigger] uid_hits(s, u)[j]),
        uid_hits(s, u).len() == s.filter(|e: ItemEntry<W>| e.uid == u).len(),
    decreases s.len(),
{
    assert forall|k: int| 0 <= k < s.len() && #[trigger] s[k].uid == u implies uid_hits(s, u).contains((s[k].entry_id, s[k].widget)) by {
        lemma_uid_hits_contains(s, k);
    }
    assert forall|j: int| 0 <= j < uid_hits(s, u).len() implies hit_from_entry(s, u, #[trigger] uid_hits(s, u)[j]) by {
        let q = lemma_uid_hit_source(s, u, j);
        assert(s[q].uid == u);
    }
    lemma_uid_hits_len(s, u);
}

proof fn lemma_uid_hits_len<W>(s: Seq<ItemEntry<W>>, u: WidgetUid)
    ensures
        uid_hits(s, u).len() == s.filter(|e: ItemEntry<W>| e.uid == u).len(),
    decreases s.len(),
{
    reveal_with_fuel(Seq::filter, 1);
    if s.len() > 0 {
        lemma_uid_hits_len(s.drop_last(), u);
    }
}

/// `x` is the entry id and widget of an item widget with uid `u`.
pub open spec fn hit_from_entry<W>(s: Seq<ItemEntry<W>>, u: WidgetUid, x: (u64, W)) -> bool {
    exists|q: int| 0 <= q < s.len() && #[trigger] s[q].uid == u && x == (s[q].entry_id, s[q].widget)
}

/// Where the `j`-th hit of uid `u` comes from.
proof fn lemma_uid_hit_source<W>(s: Seq<ItemEntry<W>>, u: WidgetUid, j: int) -> (q: int)
    requires
        0 <= j < uid_hits(s, u).len(),
    ensures
        0 <= q < s.len(),
        s[q].uid == u,
        uid_hits(s, u)[j] == (s[q].entry_id, s[q].widget),
    decreases s.len(),
{
    let t = s.drop_last();
    let ht = uid_hits(t, u);
    if j < ht.len() {
        let q = lemma_uid_hit_source(t, u, j);
        assert(t[q] == s[q]);
        q
    } else {
        (s.len() - 1) as int
    }
}

} // verus!
