//! Handles to list views as a container sees them: a handle that may or may
//! not hold a list view, and a set of such handles.

use vstd::prelude::*;
use crate::ids::{LiveId, LivePtr, WidgetActionItem, WidgetUid};
use crate::list_view::{appends_clones, item_outcome, uid_hits, ListState, ListView};

verus! {

/// The list views' items hit by `actions`: for each action that came
/// through the list `list_uid`, the items whose uid is the action's item,
/// as `(entry id, widget)`.
pub open spec fn action_hits<W, A>(list_uid: WidgetUid, list: ListView<W, A>, actions: Seq<WidgetActionItem>) -> Seq<(u64, W)>
    decreases actions.len(),
{
    if actions.len() == 0 {
        Seq::empty()
    } else {
        let rest = action_hits(list_uid, list, actions.drop_last());
        if actions.last().container_uid == list_uid {
            rest + uid_hits(list.items(), actions.last().item_uid)
        } else {
            rest
        }
    }
}

/// `new` is `old` with item `id` at the top, nothing else changed.
pub open spec fn first_id_set<W, A>(old: ListView<W, A>, new: ListView<W, A>, id: u64) -> bool {
    &&& new@ == (ListState { first_id: id, ..old@ })
    &&& new.templates() == old.templates()
    &&& new.items() == old.items()
    &&& new.align_list() == old.align_list()
    &&& new.wf() == old.wf()
}

/// A handle to a widget that may be a list view.
pub struct ListViewRef<W, A> {
    uid: WidgetUid,
    list: Option<ListView<W, A>>,
}

/// The items of the handle `r` hit by `actions`.
pub open spec fn ref_hits<W, A>(r: ListViewRef<W, A>, actions: Seq<WidgetActionItem>) -> Seq<(u64, W)> {
    match r.list_view() {
        Some(l) => action_hits(r.uid(), l, actions),
        None => Seq::empty(),
    }
}

/// The top item a handle reports: its list's, or 0 without a list.
pub open spec fn ref_first_id<W, A>(r: ListViewRef<W, A>) -> u64 {
    match r.list_view() {
        Some(l) => l@.first_id,
        None => 0,
    }
}

/// `new` is the handle `old` with its list's top item set to `id`.
pub open spec fn ref_first_id_set<W, A>(old: ListViewRef<W, A>, new: ListViewRef<W, A>, id: u64) -> bool {
    &&& new.uid() == old.uid()
    &&& match (old.list_view(), new.list_view()) {
        (Some(a), Some(b)) => first_id_set(a, b, id),
        (None, None) => true,
        _ => false,
    }
}

impl<W, A> ListViewRef<W, A> {
    /// The uid of the widget the handle names.
    pub closed spec fn uid(&self) -> WidgetUid {
        self.uid
    }

    /// The list view behind the handle, if the widget is one.
    pub closed spec fn list_view(&self) -> Option<ListView<W, A>> {
        self.list
    }

    /// A handle to the list view `list`, whose widget uid is `uid`.
    pub fn new(uid: WidgetUid, list: ListView<W, A>) -> (r: Self)
        ensures
            r.uid() == uid,
            r.list_view() == Some(list),
    {
        ListViewRef { uid, list: Some(list) }
    }

    /// A handle that names no list view.
    pub fn empty() -> (r: Self)
        ensures
            r.uid() == WidgetUid(0),
            r.list_view() is None,
    {
        ListViewRef { uid: WidgetUid(0), list: None }
    }

    /// The uid of the widget: the list's, or 0 for a handle without a list.
    pub fn widget_uid(&self) -> (r: WidgetUid)
        ensures
            r == (if self.list_view() is Some { self.uid() } else { WidgetUid(0) }),
    {
        if self.list.is_some() {
            self.uid
        } else {
            WidgetUid(0)
        }
    }

    /// An action raised by the item widget `item_uid`, passed on by this
    /// list: tagged with the list as its container and the item as its source.
    pub fn item_action(&self, item_uid: WidgetUid) -> (a: WidgetActionItem)
        ensures
            a == (WidgetActionItem {
                container_uid: if self.list_view() is Some { self.uid() } else { WidgetUid(0) },
                item_uid,
            }),
    {
        WidgetActionItem { container_uid: self.widget_uid(), item_uid }
    }

    /// The list view behind the handle, if any.
    pub fn borrow(&self) -> (r: Option<&ListView<W, A>>)
        ensures
            match r {
                Some(l) => self.list_view() == Some(*l),
                None => self.list_view() is None,
            },
    {
        match &self.list {
            Some(l) => Some(l),
            None => None,
        }
    }

    /// Puts item `id` at the top of the list, if the handle holds one.
    pub fn set_first_id(&mut self, id: u64)
        ensures
            ref_first_id_set(*old(self), *final(self), id),
    {
        match &mut self.list {
            Some(l) => l.set_first_id(id),
            None => {},
        }
    }

    /// The item at the top of the list; 0 if the handle holds no list.
    pub fn first_id(&self) -> (r: u64)
        ensures
            r == ref_first_id(*self),
    {
        match &self.list {
            Some(l) => l.first_id(),
            None => 0,
        }
    }

    /// The widget for item `entry_id` made from template `template` (see
    /// `ListView::item`); `None` if the handle holds no list.
    pub fn item<F: FnOnce(LivePtr) -> (WidgetUid, W)>(&mut self, entry_id: u64, template: LiveId, create: F) -> (r: Option<W>)
        where W: Clone,
        requires
            old(self).list_view() matches Some(l) ==> l.wf(),
            forall|p: LivePtr| create.requires((p,)),
        ensures
            final(self).uid() == old(self).uid(),
            match (old(self).list_view(), final(self).list_view()) {
                (Some(a), Some(b)) => item_outcome(a, b, entry_id, template, create, r),
                (None, None) => r is None,
                _ => false,
            },
    {
        match &mut self.list {
            Some(l) => l.item(entry_id, template, create),
            None => None,
        }
    }

    /// The items of the list that raised `actions`, with their entry ids.
    pub fn items_with_actions(&self, actions: &Vec<WidgetActionItem>) -> (r: Vec<(u64, W)>)
        where W: Clone,
        ensures
            appends_clones(Seq::empty(), r@, ref_hits(*self, actions@)),
    {
        let mut set: Vec<(u64, W)> = Vec::new();
        self.items_with_actions_vec(actions, &mut set);
        set
    }

    /// Appends to `set` the items of the list that raised `actions`: for each
    /// action that came through this list, each item widget that raised it.
    pub fn items_with_actions_vec(&self, actions: &Vec<WidgetActionItem>, set: &mut Vec<(u64, W)>)
        where W: Clone,
        ensures
            appends_clones(old(set)@, final(set)@, ref_hits(*self, actions@)),
    {
        let uid = self.widget_uid();
        let ghost start = set@;
        let n = actions.len();
        let mut i: usize = 0;
        while i < n
            invariant
                n == actions@.len(),
                i <= n,
                uid == (if self.list_view() is Some { self.uid() } else { WidgetUid(0) }),
                appends_clones(start, set@, ref_hits(*self, actions@.take(i as int))),
            decreases n - i,
        {
            let ghost before = set@;
            assert(actions@.take(i + 1).drop_last() =~= actions@.take(i as int));
            let action = actions[i];
            if action.container_uid == uid {
                match self.borrow() {
                    Some(inner) => {
                        inner.push_items_with_uid(action.item_uid, set);
                        proof {
                            let prev = ref_hits(*self, actions@.take(i as int));
                            let hits = uid_hits(inner.items(), action.item_uid);
                            assert(ref_hits(*self, actions@.take(i + 1)) == prev + hits);
                            assert forall|k: int| 0 <= k < prev.len() + hits.len() implies
                                (#[trigger] set@[start.len() + k]).0 == (prev + hits)[k].0
                                && cloned((prev + hits)[k].1, set@[start.len() + k].1) by {
                                if k < prev.len() {
                                    assert(set@[start.len() + k] == before[start.len() + k]);
                                } else {
                                    let kk = k - prev.len();
                                    assert(set@[before.len() + kk] == set@[start.len() + k]);
                                }
                            }
                        }
                    },
                    None => {},
                }
            }
            i = i + 1;
        }
        assert(actions@.take(n as int) =~= actions@);
    }
}

/// A set of widget handles, each of which may be a list view.
pub struct ListViewSet<W, A> {
    lists: Vec<ListViewRef<W, A>>,
}

/// The items hit by `actions` in each handle of `lists`, in turn.
pub open spec fn set_hits<W, A>(lists: Seq<ListViewRef<W, A>>, actions: Seq<WidgetActionItem>) -> Seq<(u64, W)>
    decreases lists.len(),
{
    if lists.len() == 0 {
        Seq::empty()
    } else {
        set_hits(lists.drop_last(), actions) + ref_hits(lists.last(), actions)
    }
}

impl<W, A> ListViewSet<W, A> {
    /// The handles, in order.
    pub closed spec fn lists(&self) -> Seq<ListViewRef<W, A>> {
        self.lists@
    }

    /// A set of the given handles.
    pub fn new(lists: Vec<ListViewRef<W, A>>) -> (s: Self)
        ensures
            s.lists() == lists@,
    {
        ListViewSet { lists }
    }

    /// The number of handles.
    pub fn len(&self) -> (n: usize)
        ensures
            n == self.lists().len(),
    {
        self.lists.len()
    }

    /// The handle at position `i`.
    pub fn get(&self, i: usize) -> (r: &ListViewRef<W, A>)
        requires
            i < self.lists().len(),
        ensures
            *r == self.lists()[i as int],
    {
        &self.lists[i]
    }

    /// Puts item `id` at the top of every list in the set.
    pub fn set_first_id(&mut self, id: u64)
        ensures
            final(self).lists().len() == old(self).lists().len(),
            forall|k: int| 0 <= k < old(self).lists().len() ==> ref_first_id_set(
                #[trigger] old(self).lists()[k],
                final(self).lists()[k],
                id,
            ),
    {
        let n = self.lists.len();
        let mut i: usize = 0;
        while i < n
            invariant
                n == self.lists@.len(),
                n == old(self).lists@.len(),
                i <= n,
                forall|k: int| 0 <= k < i ==> ref_first_id_set(#[trigger] old(self).lists@[k], self.lists@[k], id),
                forall|k: int| i <= k < n ==> #[trigger] self.lists@[k] == old(self).lists@[k],
            decreases n - i,
        {
            self.lists[i].set_first_id(id);
            i = i + 1;
        }
    }

    /// The items of the lists in the set that raised `actions`, list by list.
    pub fn items_with_actions(&self, actions: &Vec<WidgetActionItem>) -> (r: Vec<(u64, W)>)
        where W: Clone,
        ensures
            appends_clones(Seq::empty(), r@, set_hits(self.lists(), actions@)),
    {
        let mut set: Vec<(u64, W)> = Vec::new();
        let n = self.lists.len();
        let mut i: usize = 0;
        while i < n
            invariant
                n == self.lists@.len(),
                i <= n,
                appends_clones(Seq::empty(), set@, set_hits(self.lists@.take(i as int), actions@)),
            decreases n - i,
        {
            let ghost before = set@;
            assert(self.lists@.take(i + 1).drop_last() =~= self.lists@.take(i as int));
            self.lists[i].items_with_actions_vec(actions, &mut set);
            proof {
                let prev = set_hits(self.lists@.take(i as int), actions@);
                let hits = ref_hits(self.lists@[i as int], actions@);
                assert(set_hits(self.lists@.take(i + 1), actions@) == prev + hits);
                assert forall|k: int| 0 <= k < prev.len() + hits.len() implies
                    (#[trigger] set@[0 + k]).0 == (prev + hits)[k].0 && cloned((prev + hits)[k].1, set@[0 + k].1) by {
                    if k < prev.len() {
                        assert(set@[k] == before[k]);
                    } else {
                        let kk = k - prev.len();
                        assert(set@[before.len() + kk] == set@[k]);
                    }
                }
            }
            i = i + 1;
        }
        assert(self.lists@.take(n as int) =~= self.lists@);
        set
    }
}

} // verus!

verus! {

impl<W, A> Default for ListViewRef<W, A> {
    /// A handle that names no list view.
    fn default() -> (r: Self)
        ensures
            r.uid() == WidgetUid(0),
            r.list_view() is None,
    {
        ListViewRef::empty()
    }
}

impl<W, A> Default for ListViewSet<W, A> {
    /// An empty set.
    fn default() -> (s: Self)
        ensures
            s.lists() == Seq::<ListViewRef<W, A>>::empty(),
    {
        ListViewSet { lists: Vec::new() }
    }
}

} // verus!
