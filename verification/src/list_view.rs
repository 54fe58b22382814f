//! The list view's state and its decisions: the drawing protocol that hands
//! out item indices, the item widgets made from templates, keyboard
//! navigation, and the scroll and drag phases.

use vstd::prelude::*;
use crate::ids::{ApplyFrom, LiveId, LivePtr, Vec2Index, WidgetUid};
use crate::item_map::{contains_key, has_key_at, retained, ItemEntry, ItemMap, TemplateMap};
use crate::align::{is_stable_sort_of, lemma_stable_sort_keeps_index, position_of_index, sort_by_index, AlignItem};

verus! {

/// Where a draw pass is: which item is being drawn and in which direction.
#[derive(Clone, Copy, Debug, PartialEq, Eq, Structural)]
pub enum ListDrawState {
    /// The pass has begun; the first item is handed out next.
    Begin,
    /// Item `index` is being drawn, walking down from the top item.
    Down { index: u64 },
    /// Item `index` is being drawn, walking up from the top item.
    Up { index: u64 },
    /// Every visible item is drawn.
    End,
}

/// What the caller reports about the item it just finished drawing.
pub struct DrawnItem<A> {
    /// The caller's layout data for the item.
    pub layout: A,
    /// The item drew nothing, or it reaches past the edge of the viewport
    /// in the direction of the walk.
    pub stop: bool,
}

/// The momentum phase of scrolling.
#[derive(Clone, Copy, Debug, PartialEq, Eq, Structural)]
pub enum ScrollPhase {
    Stopped,
    /// Scrolling on after a quick swipe.
    Flick,
    /// Springing back after being pulled past the first item.
    Pulldown,
}

/// The phase of a finger drag.
#[derive(Clone, Copy, Debug, PartialEq, Eq, Structural)]
pub enum DragPhase {
    Idle,
    /// A drag young enough to turn into a flick.
    Swipe,
    /// A plain drag.
    Normal,
}

/// What the end of a draw pass leaves for the caller to arrange.
#[derive(Clone, Copy, Debug, PartialEq, Eq, Structural)]
pub enum EndLayout {
    /// The drawn items are sorted by index; the top item is at `first_index`.
    Arrange { first_index: usize },
    /// The pass ended without drawing an item.
    NothingDrawn,
    /// The pass was cut short before every visible item was drawn.
    NotFinished,
}

/// The outcome of one call of `draw_walk_widget`.
#[derive(Clone, Copy, Debug, PartialEq, Eq, Structural)]
pub enum DrawWalk {
    /// A new pass began: the caller draws the items it is handed, then calls again.
    HookAbove,
    /// The pass ended.
    Finished(EndLayout),
    /// There was no pass to begin or end.
    Done,
}

/// The outcome of applying one instance node of a live design.
pub enum InstanceApply<W> {
    /// The node was recorded as a template; these existing items were made
    /// from it and take the new design too.
    Registered { items: Vec<W> },
    /// The node is not an instance: no field of the list matches it.
    NoMatchingField,
    /// The apply does not come from a document: nothing to do.
    Skipped,
}

/// One step of the draw protocol: the next state and the index handed out.
pub open spec fn draw_step(state: Option<ListDrawState>, first_id: u64, range_start: u64, stop: bool) -> (
    Option<ListDrawState>,
    Option<u64>,
) {
    match state {
        Some(ListDrawState::Begin) => (Some(ListDrawState::Down { index: first_id }), Some(first_id)),
        Some(ListDrawState::Down { index }) => if stop {
            if first_id > 0 {
                (
                    Some(ListDrawState::Up { index: (first_id - 1) as u64 }),
                    Some((first_id - 1) as u64),
                )
            } else {
                (Some(ListDrawState::End), None)
            }
        } else {
            (Some(ListDrawState::Down { index: (index + 1) as u64 }), Some((index + 1) as u64))
        },
        Some(ListDrawState::Up { index }) => if stop || index == range_start {
            (Some(ListDrawState::End), None)
        } else {
            (Some(ListDrawState::Up { index: (first_id - 1) as u64 }), Some((first_id - 1) as u64))
        },
        _ => (state, None),
    }
}

/// The item that a step draws (and records) before it decides, if any.
pub open spec fn drawn_index(state: Option<ListDrawState>) -> Option<u64> {
    match state {
        Some(ListDrawState::Down { index }) => Some(index),
        Some(ListDrawState::Up { index }) => Some(index),
        _ => None,
    }
}

/// The step can be taken without an index leaving `u64`.
pub open spec fn draw_step_in_bounds(state: Option<ListDrawState>, first_id: u64, range_start: u64, stop: bool) -> bool {
    &&& (state matches Some(ListDrawState::Down { index }) ==> (!stop ==> index < u64::MAX))
    &&& (state matches Some(ListDrawState::Up { index }) ==> (!stop && index != range_start ==> first_id > 0))
}

/// The items of a pass once the walk down has stopped: the top item first,
/// then the items below it in order, then only the item above the top item.
pub open spec fn walk_shape<A>(list: Seq<AlignItem<A>>, first_id: u64) -> bool {
    &&& list.len() >= 1
    &&& list[0].index == first_id
    &&& forall|k: int| 0 <= k < list.len() ==> #[trigger] list[k].index == first_id + k || list[k].index == first_id - 1
    &&& forall|a: int, b: int|
        0 <= a < b < list.len() && #[trigger] list[a].index == first_id - 1 ==> #[trigger] list[b].index == first_id - 1
}

/// How the items recorded so far relate to the draw state: walking down
/// from the top item records `first_id, first_id + 1, ...`; once the walk
/// turns up it records only the item above the top item.
pub open spec fn draw_inv<A>(state: Option<ListDrawState>, first_id: u64, list: Seq<AlignItem<A>>) -> bool {
    match state {
        None => true,
        Some(ListDrawState::Begin) => list.len() == 0,
        Some(ListDrawState::Down { index }) => {
            &&& first_id <= index
            &&& list.len() == index - first_id
            &&& forall|k: int| 0 <= k < list.len() ==> #[trigger] list[k].index == first_id + k
        },
        Some(ListDrawState::Up { index }) => {
            &&& first_id >= 1
            &&& index == first_id - 1
            &&& walk_shape(list, first_id)
        },
        Some(ListDrawState::End) => walk_shape(list, first_id),
    }
}

/// The top item after the down arrow key.
pub open spec fn arrow_down_spec(first_id: u64, range_end: u64) -> u64 {
    let next = first_id + 1;
    let limit = if range_end >= 1 { range_end as int } else { 1 };
    if next >= limit { (range_end - 1) as u64 } else { next as u64 }
}

/// The top item after the up arrow key.
pub open spec fn arrow_up_spec(first_id: u64, range_start: u64) -> u64 {
    if first_id > 0 {
        if first_id - 1 < range_start { range_start } else { (first_id - 1) as u64 }
    } else {
        first_id
    }
}

/// The positions of the entries made from template `id`, in order.
pub open spec fn positions_with_template<W>(s: Seq<ItemEntry<W>>, id: LiveId) -> Seq<int>
    decreases s.len(),
{
    if s.len() == 0 {
        Seq::empty()
    } else {
        let rest = positions_with_template(s.drop_last(), id);
        if s.last().template == id {
            rest.push(s.len() - 1)
        } else {
            rest
        }
    }
}

/// The plain state of a list view: a window onto the items
/// `range_start .. range_end`, drawn from the top item `first_id` on.
#[derive(Clone, Copy, Debug, PartialEq, Eq, Structural)]
pub struct ListState {
    /// The first item of the range.
    pub range_start: u64,
    /// One past the last item of the range.
    pub range_end: u64,
    /// How many items one view of the list shows, for the scroll bar.
    pub view_window: u64,
    /// The item at the top of the view.
    pub first_id: u64,
    /// The axis the list scrolls along.
    pub vec_index: Vec2Index,
    /// The draw pass in progress, if any.
    pub draw_state: Option<ListDrawState>,
    /// The redraw in which the last draw pass began.
    pub redraw_id: u64,
    /// The momentum phase.
    pub scroll_phase: ScrollPhase,
    /// The drag phase.
    pub drag_phase: DragPhase,
}

/// A list view: its plain state, its templates, its item widgets (`W` is
/// the widget handle) and the items drawn in the current pass (`A` is the
/// caller's layout data for one drawn item).
pub struct ListView<W, A> {
    state: ListState,
    templates: TemplateMap,
    items: ItemMap<W>,
    align_list: Vec<AlignItem<A>>,
}

impl<W, A> ListView<W, A> {
    /// The plain state.
    pub closed spec fn view(&self) -> ListState {
        self.state
    }

    /// The templates by id.
    pub closed spec fn templates(&self) -> Map<LiveId, LivePtr> {
        self.templates@
    }

    /// The item widgets.
    pub closed spec fn items(&self) -> Seq<ItemEntry<W>> {
        self.items.entries()
    }

    /// The items drawn in the current pass.
    pub closed spec fn align_list(&self) -> Seq<AlignItem<A>> {
        self.align_list@
    }

    /// The maps keep their keys distinct.
    pub closed spec fn wf(&self) -> bool {
        self.templates.wf() && self.items.wf()
    }

    /// The draw state agrees with the items recorded in the pass.
    pub open spec fn draw_ok(&self) -> bool {
        draw_inv(self@.draw_state, self@.first_id, self.align_list())
    }

    /// A list with no templates and no items, showing the whole `u64` range
    /// from item 0, ten items to a view.
    pub fn new() -> (l: Self)
        ensures
            l.wf(),
            l.draw_ok(),
            l@ == (ListState {
                range_start: 0,
                range_end: u64::MAX,
                view_window: 10,
                first_id: 0,
                vec_index: Vec2Index::X,
                draw_state: None,
                redraw_id: 0,
                scroll_phase: ScrollPhase::Stopped,
                drag_phase: DragPhase::Idle,
            }),
            l.templates() == Map::<LiveId, LivePtr>::empty(),
            l.items() == Seq::<ItemEntry<W>>::empty(),
            l.align_list() == Seq::<AlignItem<A>>::empty(),
    {
        ListView {
            state: ListState {
                range_start: 0,
                range_end: u64::MAX,
                view_window: 10,
                first_id: 0,
                vec_index: Vec2Index::X,
                draw_state: None,
                redraw_id: 0,
                scroll_phase: ScrollPhase::Stopped,
                drag_phase: DragPhase::Idle,
            },
            templates: TemplateMap::new(),
            items: ItemMap::new(),
            align_list: Vec::new(),
        }
    }

    /// The items drawn in the current pass, in the order recorded (sorted by
    /// index once the pass has ended).
    pub fn drawn_items(&self) -> (r: &Vec<AlignItem<A>>)
        ensures
            r@ == self.align_list(),
    {
        &self.align_list
    }

    /// The number of item widgets.
    pub fn item_count(&self) -> (n: usize)
        ensures
            n == self.items().len(),
    {
        self.items.len()
    }

    /// The item widget at position `i`.
    pub fn item_entry(&self, i: usize) -> (e: &ItemEntry<W>)
        requires
            i < self.items().len(),
        ensures
            *e == self.items()[i as int],
    {
        self.items.entry(i)
    }

    /// The pointer of template `id`, if there is one.
    pub fn template(&self, id: LiveId) -> (r: Option<LivePtr>)
        requires
            self.wf(),
        ensures
            r == (if self.templates().contains_key(id) { Some(self.templates()[id]) } else { None::<LivePtr> }),
    {
        self.templates.get(id)
    }

    /// Before live properties are applied: an update from an edited document
    /// drops every template, so that the document's own come back.
    pub fn before_apply(&mut self, from: ApplyFrom)
        requires
            old(self).wf(),
        ensures
            final(self).wf(),
            final(self).templates() == (if from matches ApplyFrom::UpdateFromDoc { .. } {
                Map::<LiveId, LivePtr>::empty()
            } else {
                old(self).templates()
            }),
            final(self).items() == old(self).items(),
            final(self).align_list() == old(self).align_list(),
            final(self)@ == old(self)@,
    {
        if let ApplyFrom::UpdateFromDoc { .. } = from {
            self.templates.clear();
        }
    }

    /// Applies one instance node `id` of a live design, whose pointer in the
    /// document being applied is `ptr`: an instance node from a document
    /// becomes the template `id`, and the items made from `id` are handed
    /// back so that the caller applies the node to them too.
    pub fn apply_value_instance(&mut self, from: ApplyFrom, id: LiveId, is_instance: bool, ptr: LivePtr) -> (r: InstanceApply<W>)
        where W: Clone,
        requires
            old(self).wf(),
        ensures
            final(self).wf(),
            final(self).items() == old(self).items(),
            final(self).align_list() == old(self).align_list(),
            final(self)@ == old(self)@,
            from matches ApplyFrom::Other ==> r is Skipped && final(self).templates() == old(self).templates(),
            !(from matches ApplyFrom::Other) && !is_instance ==> r is NoMatchingField && final(self).templates()
                == old(self).templates(),
            !(from matches ApplyFrom::Other) && is_instance ==> {
                &&& final(self).templates() == old(self).templates().insert(id, ptr)
                &&& r matches InstanceApply::Registered { items } && {
                    let pos = positions_with_template(old(self).items(), id);
                    &&& items@.len() == pos.len()
                    &&& forall|k: int| 0 <= k < pos.len() ==> cloned(
                        old(self).items()[#[trigger] pos[k]].widget,
                        items@[k],
                    )
                }
            },
    {
        match from {
            ApplyFrom::NewFromDoc { .. } | ApplyFrom::UpdateFromDoc { .. } => {
                if is_instance {
                    self.templates.insert(id, ptr);
                    let mut items: Vec<W> = Vec::new();
                    let n = self.items.len();
                    let mut i: usize = 0;
                    while i < n
                        invariant
                            n == self.items.entries().len(),
                            i <= n,
                            items@.len() == positions_with_template(self.items.entries().take(i as int), id).len(),
                            forall|k: int|
                                0 <= k < items@.len() ==> cloned(
                                    self.items.entries()[#[trigger] positions_with_template(self.items.entries().take(i as int), id)[k]].widget,
                                    items@[k],
                                ),
                        decreases n - i,
                    {
                        let ghost s = self.items.entries();
                        assert(s.take(i + 1).drop_last() =~= s.take(i as int));
                        let e = self.items.entry(i);
                        if e.template == id {
                            let w = e.widget.clone();
                            items.push(w);
                        }
                        i = i + 1;
                    }
                    assert(self.items.entries().take(n as int) =~= self.items.entries());
                    InstanceApply::Registered { items }
                } else {
                    InstanceApply::NoMatchingField
                }
            },
            ApplyFrom::Other => InstanceApply::Skipped,
        }
    }

    /// After live properties are applied: a list that flows down scrolls
    /// along y, any other along x.
    pub fn after_apply(&mut self, flow_down: bool)
        ensures
            final(self)@ == (ListState {
                vec_index: if flow_down { Vec2Index::Y } else { Vec2Index::X },
                ..old(self)@
            }),
            final(self).templates() == old(self).templates(),
            final(self).items() == old(self).items(),
            final(self).align_list() == old(self).align_list(),
    {
        if flow_down {
            self.state.vec_index = Vec2Index::Y;
        } else {
            self.state.vec_index = Vec2Index::X;
        }
    }
}

} // verus!

verus! {

/// Whether the caller reports the drawn item as the last in its direction.
pub open spec fn stop_of<A>(drawn: Option<DrawnItem<A>>) -> bool {
    match drawn {
        Some(d) => d.stop,
        None => false,
    }
}

/// The drawn items record the top item, so the end of a pass can find it.
pub open spec fn holds_index<A>(list: Seq<AlignItem<A>>, index: u64) -> bool {
    exists|k: int| 0 <= k < list.len() && #[trigger] list[k].index == index
}

impl<W, A> ListView<W, A> {
    /// One step of drawing the visible items. At the start of a pass it
    /// hands out the top item; after each item (which the caller reports in
    /// `drawn`) it hands out the next one below, and once an item stops the
    /// walk down, the one above the top item, until the walk up stops too or
    /// reaches `range_start`. `None` means the pass has drawn every visible item.
    pub fn next_visible_item(&mut self, drawn: Option<DrawnItem<A>>) -> (r: Option<u64>)
        requires
            drawn_index(old(self)@.draw_state) is Some ==> drawn is Some,
            draw_step_in_bounds(old(self)@.draw_state, old(self)@.first_id, old(self)@.range_start, stop_of(drawn)),
        ensures
            ({
                let (next, out) = draw_step(
                    old(self)@.draw_state,
                    old(self)@.first_id,
                    old(self)@.range_start,
                    stop_of(drawn),
                );
                &&& final(self)@ == (ListState { draw_state: next, ..old(self)@ })
                &&& r == out
            }),
            final(self).align_list() == (match drawn_index(old(self)@.draw_state) {
                Some(index) => old(self).align_list().push(AlignItem { index, layout: drawn.unwrap().layout }),
                None => old(self).align_list(),
            }),
            final(self).templates() == old(self).templates(),
            final(self).items() == old(self).items(),
            final(self).wf() == old(self).wf(),
            old(self).draw_ok() ==> final(self).draw_ok(),
            match r {
                Some(id) => final(self)@.draw_state == Some(ListDrawState::Down { index: id })
                    || final(self)@.draw_state == Some(ListDrawState::Up { index: id }),
                None => final(self)@.draw_state is None || final(self)@.draw_state == Some(ListDrawState::End),
            },
    {
        let first_id = self.state.first_id;
        let ghost before = self.align_list@;
        match self.state.draw_state {
            Some(ListDrawState::Begin) => {
                self.state.draw_state = Some(ListDrawState::Down { index: first_id });
                Some(first_id)
            },
            Some(ListDrawState::Down { index }) => {
                match drawn {
                    Some(d) => {
                        let stop = d.stop;
                        self.align_list.push(AlignItem { index, layout: d.layout });
                        proof {
                            if draw_inv(old(self)@.draw_state, first_id, before) {
                                let l = self.align_list@;
                                assert forall|k: int| 0 <= k < l.len() implies #[trigger] l[k].index == first_id + k by {
                                    if k < before.len() {
                                        assert(l[k] == before[k]);
                                    }
                                }
                                if before.len() > 0 {
                                    assert(l[0] == before[0]);
                                }
                                assert forall|a: int, b: int|
                                    0 <= a < b < l.len() && #[trigger] l[a].index == first_id - 1 implies #[trigger] l[b].index
                                        == first_id - 1 by {
                                    assert(l[a].index == first_id + a);
                                }
                            }
                        }
                        if stop {
                            if first_id > 0 {
                                self.state.draw_state = Some(ListDrawState::Up { index: first_id - 1 });
                                Some(first_id - 1)
                            } else {
                                self.state.draw_state = Some(ListDrawState::End);
                                None
                            }
                        } else {
                            self.state.draw_state = Some(ListDrawState::Down { index: index + 1 });
                            Some(index + 1)
                        }
                    },
                    None => None,
                }
            },
            Some(ListDrawState::Up { index }) => {
                match drawn {
                    Some(d) => {
                        let stop = d.stop;
                        self.align_list.push(AlignItem { index, layout: d.layout });
                        proof {
                            if draw_inv(old(self)@.draw_state, first_id, before) {
                                let l = self.align_list@;
                                assert(l[0] == before[0]);
                                assert forall|k: int| 0 <= k < l.len() implies #[trigger] l[k].index == first_id + k
                                    || l[k].index == first_id - 1 by {
                                    if k < before.len() {
                                        assert(l[k] == before[k]);
                                    }
                                }
                                assert forall|a: int, b: int|
                                    0 <= a < b < l.len() && #[trigger] l[a].index == first_id - 1 implies #[trigger] l[b].index
                                        == first_id - 1 by {
                                    if b < before.len() {
                                        assert(l[a] == before[a] && l[b] == before[b]);
                                    }
                                }
                            }
                        }
                        if stop || index == self.state.range_start {
                            self.state.draw_state = Some(ListDrawState::End);
                            None
                        } else {
                            self.state.draw_state = Some(ListDrawState::Up { index: first_id - 1 });
                            Some(first_id - 1)
                        }
                    },
                    None => None,
                }
            },
            _ => None,
        }
    }

    /// The end of a draw pass: once every visible item is drawn, sorts the
    /// drawn items by index and finds the top item among them; in any case
    /// drops the item widgets that were not used in this pass.
    fn end(&mut self) -> (r: EndLayout)
        requires
            old(self).wf(),
            old(self)@.draw_state == Some(ListDrawState::End) && old(self).align_list().len() > 0
                ==> holds_index(old(self).align_list(), old(self)@.first_id),
        ensures
            final(self).wf(),
            final(self)@ == old(self)@,
            final(self).templates() == old(self).templates(),
            final(self).items() == retained(old(self).items()),
            old(self)@.draw_state == Some(ListDrawState::End) && old(self).align_list().len() > 0 ==> {
                &&& is_stable_sort_of(final(self).align_list(), old(self).align_list())
                &&& r matches EndLayout::Arrange { first_index } && {
                    &&& first_index < final(self).align_list().len()
                    &&& final(self).align_list()[first_index as int].index == old(self)@.first_id
                    &&& forall|q: int| 0 <= q < first_index ==> #[trigger] final(self).align_list()[q].index != old(self)@.first_id
                }
            },
            old(self)@.draw_state == Some(ListDrawState::End) && old(self).align_list().len() == 0 ==> {
                &&& r == EndLayout::NothingDrawn
                &&& final(self).align_list() == old(self).align_list()
            },
            old(self)@.draw_state != Some(ListDrawState::End) ==> {
                &&& r == EndLayout::NotFinished
                &&& final(self).align_list() == old(self).align_list()
            },
    {
        let r = match self.state.draw_state {
            Some(ListDrawState::End) => {
                if self.align_list.len() > 0 {
                    let ghost before = self.align_list@;
                    sort_by_index(&mut self.align_list);
                    proof {
                        let k = choose|k: int| 0 <= k < before.len() && #[trigger] before[k].index == self.state.first_id;
                        lemma_stable_sort_keeps_index(self.align_list@, before, k);
                    }
                    match position_of_index(&self.align_list, self.state.first_id) {
                        Some(first_index) => EndLayout::Arrange { first_index },
                        None => EndLayout::NothingDrawn,
                    }
                } else {
                    EndLayout::NothingDrawn
                }
            },
            _ => EndLayout::NotFinished,
        };
        self.items.retain_visible();
        r
    }

    /// Drawing the list within redraw `redraw_id`. The first call of a redraw
    /// begins a pass (clearing the drawn items) and asks the caller to draw
    /// the items that `next_visible_item` hands out; the next call ends it.
    pub fn draw_walk_widget(&mut self, redraw_id: u64) -> (r: DrawWalk)
        requires
            old(self).wf(),
            old(self)@.redraw_id == redraw_id && old(self)@.draw_state == Some(ListDrawState::End)
                && old(self).align_list().len() > 0 ==> holds_index(old(self).align_list(), old(self)@.first_id),
        ensures
            final(self).wf(),
            final(self).draw_ok(),
            final(self).templates() == old(self).templates(),
            old(self)@.redraw_id != redraw_id ==> {
                &&& r == DrawWalk::HookAbove
                &&& final(self)@ == (ListState {
                    redraw_id,
                    draw_state: Some(ListDrawState::Begin),
                    ..old(self)@
                })
                &&& final(self).align_list() == Seq::<AlignItem<A>>::empty()
                &&& final(self).items() == old(self).items()
            },
            old(self)@.redraw_id == redraw_id && old(self)@.draw_state is None ==> {
                &&& r == DrawWalk::Done
                &&& final(self)@ == old(self)@
                &&& final(self).align_list() == old(self).align_list()
                &&& final(self).items() == old(self).items()
            },
            old(self)@.redraw_id == redraw_id && old(self)@.draw_state is Some ==> {
                &&& final(self)@ == (ListState { draw_state: None, ..old(self)@ })
                &&& final(self).items() == retained(old(self).items())
                &&& old(self)@.draw_state == Some(ListDrawState::End) && old(self).align_list().len() > 0 ==> {
                    &&& is_stable_sort_of(final(self).align_list(), old(self).align_list())
                    &&& r matches DrawWalk::Finished(EndLayout::Arrange { first_index }) && {
                        &&& first_index < final(self).align_list().len()
                        &&& final(self).align_list()[first_index as int].index == old(self)@.first_id
                        &&& forall|q: int| 0 <= q < first_index ==> #[trigger] final(self).align_list()[q].index != old(self)@.first_id
                    }
                }
                &&& old(self)@.draw_state == Some(ListDrawState::End) && old(self).align_list().len() == 0 ==> {
                    &&& r == DrawWalk::Finished(EndLayout::NothingDrawn)
                    &&& final(self).align_list() == old(self).align_list()
                }
                &&& old(self)@.draw_state != Some(ListDrawState::End) ==> {
                    &&& r == DrawWalk::Finished(EndLayout::NotFinished)
                    &&& final(self).align_list() == old(self).align_list()
                }
            },
    {
        if self.state.redraw_id != redraw_id {
            self.state.redraw_id = redraw_id;
            self.state.draw_state = Some(ListDrawState::Begin);
            self.align_list.clear();
            DrawWalk::HookAbove
        } else if self.state.draw_state.is_some() {
            let e = self.end();
            self.state.draw_state = None;
            DrawWalk::Finished(e)
        } else {
            DrawWalk::Done
        }
    }

    /// The widget for item `entry_id` made from template `template`: an
    /// existing one, or a new one that `create` makes from the template's
    /// pointer. `None` when there is no such template. Either way the item
    /// counts as used in this pass.
    pub fn item<F: FnOnce(LivePtr) -> (WidgetUid, W)>(&mut self, entry_id: u64, template: LiveId, create: F) -> (r: Option<W>)
        where W: Clone,
        requires
            old(self).wf(),
            forall|p: LivePtr| create.requires((p,)),
        ensures
            item_outcome(*old(self), *final(self), entry_id, template, create, r),
    {
        match self.templates.get(template) {
            Some(ptr) => {
                let i = self.items.get_or_insert(entry_id, template, ptr, create);
                let w = self.items.entry(i).widget.clone();
                let ghost ii = i as int;
                assert(has_key_at(self.items(), ii, entry_id, template));
                Some(w)
            },
            None => None,
        }
    }

    /// Sets the range of items and how many of them one view shows.
    pub fn set_item_range(&mut self, range_start: u64, range_end: u64, view_window: u64)
        ensures
            final(self)@ == (ListState { range_start, range_end, view_window, ..old(self)@ }),
            final(self).templates() == old(self).templates(),
            final(self).items() == old(self).items(),
            final(self).align_list() == old(self).align_list(),
            final(self).wf() == old(self).wf(),
    {
        self.state.range_start = range_start;
        self.state.range_end = range_end;
        self.state.view_window = view_window;
    }

    /// The item at the top of the view.
    pub fn first_id(&self) -> (r: u64)
        ensures
            r == self@.first_id,
    {
        self.state.first_id
    }

    /// Puts item `id` at the top of the view.
    pub fn set_first_id(&mut self, id: u64)
        ensures
            final(self)@ == (ListState { first_id: id, ..old(self)@ }),
            final(self).templates() == old(self).templates(),
            final(self).items() == old(self).items(),
            final(self).align_list() == old(self).align_list(),
            final(self).wf() == old(self).wf(),
    {
        self.state.first_id = id;
    }

    /// Puts the drawn item at position `k` at the top of the view (the end
    /// of a pass re-anchors the view on an item it drew).
    pub fn anchor_drawn(&mut self, k: usize)
        requires
            k < old(self).align_list().len(),
        ensures
            final(self)@ == (ListState { first_id: old(self).align_list()[k as int].index, ..old(self)@ }),
            final(self).templates() == old(self).templates(),
            final(self).items() == old(self).items(),
            final(self).align_list() == old(self).align_list(),
            final(self).wf() == old(self).wf(),
            holds_index(final(self).align_list(), final(self)@.first_id),
    {
        self.state.first_id = self.align_list[k].index;
    }

    /// The plain state.
    pub fn state(&self) -> (r: ListState)
        ensures
            r == self@,
    {
        self.state
    }
}

} // verus!

verus! {

/// The scroll phase after a finger lifts: a quick swipe flicks on; a list
/// pulled past its first item springs back (which wins over a flick).
pub open spec fn finger_up_phase(s: ListState, fast_swipe: bool, past_top: bool) -> ScrollPhase {
    if s.first_id == s.range_start && past_top {
        ScrollPhase::Pulldown
    } else if s.drag_phase == DragPhase::Swipe && fast_swipe {
        ScrollPhase::Flick
    } else {
        s.scroll_phase
    }
}

impl<W, A> ListView<W, A> {
    /// Whether the top item is the first of the range.
    pub fn at_range_start(&self) -> (r: bool)
        ensures
            r == (self@.first_id == self@.range_start),
    {
        self.state.first_id == self.state.range_start
    }

    /// Whether `index` lies before the end of the range.
    pub fn in_range(&self, index: u64) -> (r: bool)
        ensures
            r == (index < self@.range_end),
    {
        index < self.state.range_end
    }

    /// The number of items in the range, for sizing the scroll bar.
    pub fn range_len(&self) -> (r: u64)
        requires
            self@.range_start <= self@.range_end,
        ensures
            r == self@.range_end - self@.range_start,
    {
        self.state.range_end - self.state.range_start
    }

    /// How far the top item is into the range, and how far it can go: the
    /// scroll bar sits at the ratio of the two.
    pub fn scroll_ratio_parts(&self) -> (r: (u64, u64))
        requires
            self@.range_start <= self@.first_id,
            self@.range_start + self@.view_window <= self@.range_end,
        ensures
            r.0 == self@.first_id - self@.range_start,
            r.1 == self@.range_end - self@.range_start - self@.view_window,
    {
        (self.state.first_id - self.state.range_start, self.state.range_end - self.state.range_start - self.state.view_window)
    }

    /// The down arrow key: moves the top item one down, but not past the
    /// last item of the range.
    pub fn key_arrow_down(&mut self)
        requires
            old(self)@.first_id < u64::MAX,
            old(self)@.range_end >= 1,
        ensures
            final(self)@ == (ListState { first_id: arrow_down_spec(old(self)@.first_id, old(self)@.range_end), ..old(self)@ }),
            final(self).templates() == old(self).templates(),
            final(self).items() == old(self).items(),
            final(self).align_list() == old(self).align_list(),
            final(self).wf() == old(self).wf(),
    {
        self.state.first_id = self.state.first_id + 1;
        let limit = if self.state.range_end >= 1 { self.state.range_end } else { 1 };
        if self.state.first_id >= limit {
            self.state.first_id = self.state.range_end - 1;
        }
    }

    /// The up arrow key: moves the top item one up, but not before the first
    /// item of the range; returns whether the key applied (the top item was
    /// not item 0).
    pub fn key_arrow_up(&mut self) -> (moved: bool)
        ensures
            moved == (old(self)@.first_id > 0),
            final(self)@ == (ListState { first_id: arrow_up_spec(old(self)@.first_id, old(self)@.range_start), ..old(self)@ }),
            final(self).templates() == old(self).templates(),
            final(self).items() == old(self).items(),
            final(self).align_list() == old(self).align_list(),
            final(self).wf() == old(self).wf(),
    {
        if self.state.first_id > 0 {
            self.state.first_id = self.state.first_id - 1;
            if self.state.first_id < self.state.range_start {
                self.state.first_id = self.state.range_start;
            }
            true
        } else {
            false
        }
    }

    /// A scroll wheel or trackpad scroll: stops any momentum.
    pub fn on_finger_scroll(&mut self)
        ensures
            final(self)@ == (ListState { scroll_phase: ScrollPhase::Stopped, ..old(self)@ }),
            final(self).templates() == old(self).templates(),
            final(self).items() == old(self).items(),
            final(self).align_list() == old(self).align_list(),
            final(self).wf() == old(self).wf(),
    {
        self.state.scroll_phase = ScrollPhase::Stopped;
    }

    /// A finger touches down: stops a spring-back and starts a swipe.
    pub fn on_finger_down(&mut self)
        ensures
            final(self)@ == (ListState {
                scroll_phase: if old(self)@.scroll_phase == ScrollPhase::Pulldown {
                    ScrollPhase::Stopped
                } else {
                    old(self)@.scroll_phase
                },
                drag_phase: DragPhase::Swipe,
                ..old(self)@
            }),
            final(self).templates() == old(self).templates(),
            final(self).items() == old(self).items(),
            final(self).align_list() == old(self).align_list(),
            final(self).wf() == old(self).wf(),
    {
        if self.state.scroll_phase == ScrollPhase::Pulldown {
            self.state.scroll_phase = ScrollPhase::Stopped;
        }
        self.state.drag_phase = DragPhase::Swipe;
    }

    /// A finger moves; `within_swipe_time` says the drag is still young
    /// enough to be a swipe. A swipe that has grown old becomes a plain drag
    /// and stops any momentum. Returns whether the list follows the finger.
    pub fn on_finger_move(&mut self, within_swipe_time: bool) -> (follows: bool)
        ensures
            follows == (old(self)@.drag_phase != DragPhase::Idle),
            final(self)@ == (if old(self)@.drag_phase == DragPhase::Swipe && !within_swipe_time {
                ListState { scroll_phase: ScrollPhase::Stopped, drag_phase: DragPhase::Normal, ..old(self)@ }
            } else {
                old(self)@
            }),
            final(self).templates() == old(self).templates(),
            final(self).items() == old(self).items(),
            final(self).align_list() == old(self).align_list(),
            final(self).wf() == old(self).wf(),
    {
        match self.state.drag_phase {
            DragPhase::Swipe => {
                if !within_swipe_time {
                    self.state.scroll_phase = ScrollPhase::Stopped;
                    self.state.drag_phase = DragPhase::Normal;
                }
                true
            },
            DragPhase::Normal => true,
            DragPhase::Idle => false,
        }
    }

    /// A finger lifts; `fast_swipe` says the last swipe step was fast
    /// enough to flick, `past_top` that the list is pulled down past its
    /// top. Returns the momentum phase started, if any (the caller then asks
    /// for the next frame).
    pub fn on_finger_up(&mut self, fast_swipe: bool, past_top: bool) -> (started: Option<ScrollPhase>)
        ensures
            final(self)@ == (ListState {
                scroll_phase: finger_up_phase(old(self)@, fast_swipe, past_top),
                drag_phase: DragPhase::Idle,
                ..old(self)@
            }),
            started == (if old(self)@.first_id == old(self)@.range_start && past_top {
                Some(ScrollPhase::Pulldown)
            } else if old(self)@.drag_phase == DragPhase::Swipe && fast_swipe {
                Some(ScrollPhase::Flick)
            } else {
                None::<ScrollPhase>
            }),
            final(self).templates() == old(self).templates(),
            final(self).items() == old(self).items(),
            final(self).align_list() == old(self).align_list(),
            final(self).wf() == old(self).wf(),
    {
        let mut started: Option<ScrollPhase> = None;
        if self.state.drag_phase == DragPhase::Swipe && fast_swipe {
            self.state.scroll_phase = ScrollPhase::Flick;
            started = Some(ScrollPhase::Flick);
        }
        if self.state.first_id == self.state.range_start && past_top {
            self.state.scroll_phase = ScrollPhase::Pulldown;
            started = Some(ScrollPhase::Pulldown);
        }
        self.state.drag_phase = DragPhase::Idle;
        started
    }

    /// A frame of a flick; `still_fast` says the decayed speed is still above
    /// the minimum. Returns whether the flick goes on (the list scrolls and
    /// the caller asks for the next frame); otherwise the flick stops.
    pub fn on_flick_frame(&mut self, still_fast: bool) -> (goes_on: bool)
        ensures
            goes_on == (old(self)@.scroll_phase == ScrollPhase::Flick && still_fast),
            final(self)@ == (if old(self)@.scroll_phase == ScrollPhase::Flick && !still_fast {
                ListState { scroll_phase: ScrollPhase::Stopped, ..old(self)@ }
            } else {
                old(self)@
            }),
            final(self).templates() == old(self).templates(),
            final(self).items() == old(self).items(),
            final(self).align_list() == old(self).align_list(),
            final(self).wf() == old(self).wf(),
    {
        if self.state.scroll_phase == ScrollPhase::Flick {
            if still_fast {
                true
            } else {
                self.state.scroll_phase = ScrollPhase::Stopped;
                false
            }
        } else {
            false
        }
    }

    /// A frame of a spring-back; `past_top` says the list is still pulled
    /// down past its top. Returns whether the spring-back goes on (the
    /// caller eases the list back); it stops once the top item is no longer
    /// the first of the range or the list is back in place.
    pub fn on_pulldown_frame(&mut self, past_top: bool) -> (goes_on: bool)
        ensures
            goes_on == (old(self)@.scroll_phase == ScrollPhase::Pulldown && old(self)@.first_id
                == old(self)@.range_start && past_top),
            final(self)@ == (if old(self)@.scroll_phase == ScrollPhase::Pulldown && !goes_on {
                ListState { scroll_phase: ScrollPhase::Stopped, ..old(self)@ }
            } else {
                old(self)@
            }),
            final(self).templates() == old(self).templates(),
            final(self).items() == old(self).items(),
            final(self).align_list() == old(self).align_list(),
            final(self).wf() == old(self).wf(),
    {
        if self.state.scroll_phase == ScrollPhase::Pulldown {
            if self.state.first_id == self.state.range_start && past_top {
                true
            } else {
                self.state.scroll_phase = ScrollPhase::Stopped;
                false
            }
        } else {
            false
        }
    }
}

} // verus!

verus! {

/// The item widgets with uid `item_uid`, as `(entry id, widget)`, in order.
pub open spec fn uid_hits<W>(entries: Seq<ItemEntry<W>>, item_uid: WidgetUid) -> Seq<(u64, W)>
    decreases entries.len(),
{
    if entries.len() == 0 {
        Seq::empty()
    } else {
        let rest = uid_hits(entries.drop_last(), item_uid);
        if entries.last().uid == item_uid {
            rest.push((entries.last().entry_id, entries.last().widget))
        } else {
            rest
        }
    }
}

/// `new` is `old` followed by clones of `src`, entry ids kept.
pub open spec fn appends_clones<W: Clone>(old: Seq<(u64, W)>, new: Seq<(u64, W)>, src: Seq<(u64, W)>) -> bool {
    &&& new.len() == old.len() + src.len()
    &&& forall|k: int| 0 <= k < old.len() ==> #[trigger] new[k] == old[k]
    &&& forall|k: int|
        0 <= k < src.len() ==> (#[trigger] new[old.len() + k]).0 == src[k].0 && cloned(src[k].1, new[old.len() + k].1)
}

/// What `item` does to a list: see `ListView::item`.
pub open spec fn item_outcome<W: Clone, A, F: FnOnce(LivePtr) -> (WidgetUid, W)>(
    old: ListView<W, A>,
    new: ListView<W, A>,
    entry_id: u64,
    template: LiveId,
    create: F,
    r: Option<W>,
) -> bool {
    &&& new.wf()
    &&& new@ == old@
    &&& new.templates() == old.templates()
    &&& new.align_list() == old.align_list()
    &&& !old.templates().contains_key(template) ==> r is None && new.items() == old.items()
    &&& old.templates().contains_key(template) ==> exists|i: int| {
        &&& #[trigger] has_key_at(new.items(), i, entry_id, template)
        &&& new.items()[i].visible
        &&& r matches Some(w) && cloned(new.items()[i].widget, w)
        &&& contains_key(old.items(), entry_id, template) ==> {
            &&& has_key_at(old.items(), i, entry_id, template)
            &&& new.items() == old.items().update(i, ItemEntry { visible: true, ..old.items()[i] })
        }
        &&& !contains_key(old.items(), entry_id, template) ==> {
            &&& i == old.items().len()
            &&& new.items().drop_last() == old.items()
            &&& create.ensures((old.templates()[template],), (new.items()[i].uid, new.items()[i].widget))
        }
    }
}

impl<W, A> ListView<W, A> {
    /// Appends to `set` a clone of each item widget whose uid is `item_uid`,
    /// with its entry id.
    pub(crate) fn push_items_with_uid(&self, item_uid: WidgetUid, set: &mut Vec<(u64, W)>)
        where W: Clone,
        ensures
            appends_clones(old(set)@, final(set)@, uid_hits(self.items(), item_uid)),
    {
        let ghost start = set@;
        let n = self.items.len();
        let mut j: usize = 0;
        while j < n
            invariant
                n == self.items().len(),
                j <= n,
                appends_clones(start, set@, uid_hits(self.items().take(j as int), item_uid)),
            decreases n - j,
        {
            let ghost s = self.items();
            assert(s.take(j + 1).drop_last() =~= s.take(j as int));
            let e = self.items.entry(j);
            if e.uid == item_uid {
                let w = e.widget.clone();
                set.push((e.entry_id, w));
            }
            j = j + 1;
        }
        assert(self.items().take(n as int) =~= self.items());
    }
}

} // verus!

verus! {

/// A well-formed list keeps its item keys distinct.
pub proof fn lemma_wf_items_unique<W, A>(l: ListView<W, A>)
    requires
        l.wf(),
    ensures
        crate::item_map::keys_unique(l.items()),
{
}

} // verus!
