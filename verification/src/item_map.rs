//! The maps a list view keeps: templates by id, and item widgets by
//! `(entry id, template id)`, each item carrying a "visible in this frame" flag.

use vstd::prelude::*;
use crate::ids::{LiveId, LivePtr, WidgetUid};

verus! {

/// One item widget of a list view.
pub struct ItemEntry<W> {
    pub entry_id: u64,
    pub template: LiveId,
    pub uid: WidgetUid,
    pub widget: W,
    pub visible: bool,
}

/// Keys of the entries are pairwise distinct.
pub open spec fn keys_unique<W>(s: Seq<ItemEntry<W>>) -> bool {
    forall|a: int, b: int|
        0 <= a < b < s.len() ==> !(#[trigger] s[a].entry_id == #[trigger] s[b].entry_id && s[a].template == s[b].template)
}

/// The entry at `i` has key `(entry_id, template)`.
pub open spec fn has_key_at<W>(s: Seq<ItemEntry<W>>, i: int, entry_id: u64, template: LiveId) -> bool {
    0 <= i < s.len() && s[i].entry_id == entry_id && s[i].template == template
}

/// Some entry has key `(entry_id, template)`.
pub open spec fn contains_key<W>(s: Seq<ItemEntry<W>>, entry_id: u64, template: LiveId) -> bool {
    exists|i: int| has_key_at(s, i, entry_id, template)
}

/// The same entry, no longer marked visible.
pub open spec fn unmarked<W>(e: ItemEntry<W>) -> ItemEntry<W> {
    ItemEntry { visible: false, ..e }
}

/// The entries that were marked visible, in their order, each unmarked.
pub open spec fn retained<W>(s: Seq<ItemEntry<W>>) -> Seq<ItemEntry<W>>
    decreases s.len(),
{
    if s.len() == 0 {
        Seq::empty()
    } else {
        let rest = retained(s.drop_last());
        if s.last().visible {
            rest.push(unmarked(s.last()))
        } else {
            rest
        }
    }
}

/// Item widgets keyed by `(entry id, template id)`.
pub struct ItemMap<W> {
    entries: Vec<ItemEntry<W>>,
}

impl<W> ItemMap<W> {
    /// The entries, in the order they were inserted.
    pub closed spec fn entries(&self) -> Seq<ItemEntry<W>> {
        self.entries@
    }

    /// No key occurs twice.
    pub open spec fn wf(&self) -> bool {
        keys_unique(self.entries())
    }

    /// An empty map.
    pub fn new() -> (m: Self)
        ensures
            m.entries() == Seq::<ItemEntry<W>>::empty(),
            m.wf(),
    {
        ItemMap { entries: Vec::new() }
    }

    /// The number of items.
    pub fn len(&self) -> (n: usize)
        ensures
            n == self.entries().len(),
    {
        self.entries.len()
    }

    /// The item at position `i`.
    pub fn entry(&self, i: usize) -> (e: &ItemEntry<W>)
        requires
            i < self.entries().len(),
        ensures
            *e == self.entries()[i as int],
    {
        &self.entries[i]
    }

    /// The position of the item with key `(entry_id, template)`, if any.
    pub fn find(&self, entry_id: u64, template: LiveId) -> (r: Option<usize>)
        ensures
            match r {
                Some(i) => has_key_at(self.entries(), i as int, entry_id, template),
                None => !contains_key(self.entries(), entry_id, template),
            },
    {
        let n = self.entries.len();
        let mut i: usize = 0;
        while i < n
            invariant
                n == self.entries().len(),
                i <= n,
                forall|k: int| 0 <= k < i ==> !has_key_at(self.entries(), k, entry_id, template),
            decreases n - i,
        {
            if self.entries[i].entry_id == entry_id && self.entries[i].template == template {
                return Some(i);
            }
            i = i + 1;
        }
        None
    }

    /// Marks the item with key `(entry_id, template)` visible, inserting the
    /// widget that `create` makes from `ptr` when there is no such item yet;
    /// returns its position. `create` is called only when the key is absent.
    pub fn get_or_insert<F: FnOnce(LivePtr) -> (WidgetUid, W)>(
        &mut self,
        entry_id: u64,
        template: LiveId,
        ptr: LivePtr,
        create: F,
    ) -> (i: usize)
        requires
            old(self).wf(),
            create.requires((ptr,)),
        ensures
            final(self).wf(),
            has_key_at(final(self).entries(), i as int, entry_id, template),
            final(self).entries()[i as int].visible,
            contains_key(old(self).entries(), entry_id, template) ==> {
                &&& final(self).entries().len() == old(self).entries().len()
                &&& has_key_at(old(self).entries(), i as int, entry_id, template)
                &&& final(self).entries() == old(self).entries().update(
                    i as int,
                    ItemEntry { visible: true, ..old(self).entries()[i as int] },
                )
            },
            !contains_key(old(self).entries(), entry_id, template) ==> {
                &&& i == old(self).entries().len()
                &&& final(self).entries().drop_last() == old(self).entries()
                &&& create.ensures(
                    (ptr,),
                    (final(self).entries()[i as int].uid, final(self).entries()[i as int].widget),
                )
            },
    {
        match self.find(entry_id, template) {
            Some(i) => {
                let ghost before = self.entries@;
                self.entries[i].visible = true;
                assert forall|a: int, b: int| 0 <= a < b < self.entries@.len() implies !(
                #[trigger] self.entries@[a].entry_id == #[trigger] self.entries@[b].entry_id
                    && self.entries@[a].template == self.entries@[b].template) by {
                    assert(!(before[a].entry_id == before[b].entry_id && before[a].template
                        == before[b].template));
                }
                i
            },
            None => {
                let (uid, widget) = create(ptr);
                let ghost before = self.entries@;
                self.entries.push(ItemEntry { entry_id, template, uid, widget, visible: true });
                assert(self.entries@.drop_last() =~= before);
                assert forall|a: int, b: int| 0 <= a < b < self.entries@.len() implies !(
                #[trigger] self.entries@[a].entry_id == #[trigger] self.entries@[b].entry_id
                    && self.entries@[a].template == self.entries@[b].template) by {
                    if b == before.len() {
                        assert(!has_key_at(before, a, entry_id, template));
                    } else {
                        assert(!(before[a].entry_id == before[b].entry_id && before[a].template
                            == before[b].template));
                    }
                }
                self.entries.len() - 1
            },
        }
    }

    /// Drops the items that were not marked visible since the last call, and
    /// clears the mark on the others.
    pub fn retain_visible(&mut self)
        requires
            old(self).wf(),
        ensures
            final(self).wf(),
            final(self).entries() == retained(old(self).entries()),
    {
        let ghost orig = self.entries@;
        let mut rest: Vec<ItemEntry<W>> = Vec::new();
        std::mem::swap(&mut rest, &mut self.entries);
        let mut kept: Vec<ItemEntry<W>> = Vec::new();
        let n = rest.len();
        let mut j: usize = 0;
        while j < n
            invariant
                n == orig.len(),
                j <= n,
                keys_unique(orig),
                rest@ == orig.subrange(j as int, n as int),
                kept@ == retained(orig.take(j as int)),
                forall|k: int| 0 <= k < kept@.len() ==> exists|i: int|
                    0 <= i < j && #[trigger] kept@[k].entry_id == orig[i].entry_id
                        && kept@[k].template == orig[i].template,
                keys_unique(kept@),
            decreases n - j,
        {
            let e = rest.remove(0);
            assert(orig.take(j + 1).drop_last() =~= orig.take(j as int));
            assert(orig.take(j + 1).last() == orig[j as int]);
            if e.visible {
                let ghost before = kept@;
                assert forall|k: int| 0 <= k < before.len() implies !(#[trigger] before[k].entry_id
                    == e.entry_id && before[k].template == e.template) by {
                    let i = choose|i: int|
                        0 <= i < j && #[trigger] before[k].entry_id == orig[i].entry_id
                            && before[k].template == orig[i].template;
                    assert(orig[i].entry_id != orig[j as int].entry_id || orig[i].template
                        != orig[j as int].template);
                }
                kept.push(ItemEntry { visible: false, ..e });
                assert forall|k: int| 0 <= k < kept@.len() implies exists|i: int|
                    0 <= i < j + 1 && #[trigger] kept@[k].entry_id == orig[i].entry_id
                        && kept@[k].template == orig[i].template by {
                    if k < before.len() {
                        let i = choose|i: int|
                            0 <= i < j && #[trigger] before[k].entry_id == orig[i].entry_id
                                && before[k].template == orig[i].template;
                        assert(kept@[k] == before[k]);
                    } else {
                        assert(kept@[k].entry_id == orig[j as int].entry_id);
                    }
                }
            }
            assert(rest@ =~= orig.subrange(j + 1, n as int));
            j = j + 1;
        }
        assert(orig.take(n as int) =~= orig);
        self.entries = kept;
    }
}

/// Templates by id; inserting an id that is present replaces its pointer.
pub struct TemplateMap {
    entries: Vec<(LiveId, LivePtr)>,
}

/// Ids of the templates are pairwise distinct.
pub open spec fn template_ids_unique(s: Seq<(LiveId, LivePtr)>) -> bool {
    forall|a: int, b: int| 0 <= a < b < s.len() ==> #[trigger] s[a].0 != #[trigger] s[b].0
}

/// The map view of a template list with distinct ids.
pub open spec fn template_map_of(s: Seq<(LiveId, LivePtr)>) -> Map<LiveId, LivePtr>
    decreases s.len(),
{
    if s.len() == 0 {
        Map::empty()
    } else {
        template_map_of(s.drop_last()).insert(s.last().0, s.last().1)
    }
}

impl TemplateMap {
    /// The templates as a map from id to pointer.
    pub closed spec fn view(&self) -> Map<LiveId, LivePtr> {
        template_map_of(self.entries@)
    }

    /// No id occurs twice.
    pub closed spec fn wf(&self) -> bool {
        template_ids_unique(self.entries@)
    }

    /// An empty map.
    pub fn new() -> (m: Self)
        ensures
            m.wf(),
            m@ == Map::<LiveId, LivePtr>::empty(),
    {
        TemplateMap { entries: Vec::new() }
    }

    /// Removes every template.
    pub fn clear(&mut self)
        ensures
            final(self).wf(),
            final(self)@ == Map::<LiveId, LivePtr>::empty(),
    {
        self.entries = Vec::new();
    }

    /// The pointer of template `id`, if there is one.
    pub fn get(&self, id: LiveId) -> (r: Option<LivePtr>)
        requires
            self.wf(),
        ensures
            r == (if self@.contains_key(id) { Some(self@[id]) } else { None::<LivePtr> }),
    {
        let n = self.entries.len();
        let mut i: usize = 0;
        while i < n
            invariant
                n == self.entries@.len(),
                i <= n,
                template_ids_unique(self.entries@),
                forall|k: int| 0 <= k < i ==> self.entries@[k].0 != id,
            decreases n - i,
        {
            if self.entries[i].0 == id {
                proof { lemma_template_lookup(self.entries@, i as int); }
                return Some(self.entries[i].1);
            }
            i = i + 1;
        }
        proof { lemma_template_absent(self.entries@, id); }
        None
    }

    /// Sets the pointer of template `id`.
    pub fn insert(&mut self, id: LiveId, ptr: LivePtr)
        requires
            old(self).wf(),
        ensures
            final(self).wf(),
            final(self)@ == old(self)@.insert(id, ptr),
    {
        let ghost before = self.entries@;
        let n = self.entries.len();
        let mut i: usize = 0;
        while i < n
            invariant
                n == self.entries@.len(),
                self.entries@ == before,
                old(self).entries@ == before,
                template_ids_unique(before),
                i <= n,
                forall|k: int| 0 <= k < i ==> self.entries@[k].0 != id,
            decreases n - i,
        {
            if self.entries[i].0 == id {
                self.entries.set(i, (id, ptr));
                proof {
                    lemma_template_update(before, i as int, ptr);
                    assert(self.entries@ =~= before.update(i as int, (before[i as int].0, ptr)));
                }
                return;
            }
            i = i + 1;
        }
        proof { lemma_template_absent(before, id); }
        self.entries.push((id, ptr));
        assert(self.entries@.drop_last() =~= before);
    }
}

proof fn lemma_template_absent(s: Seq<(LiveId, LivePtr)>, id: LiveId)
    requires
        forall|k: int| 0 <= k < s.len() ==> s[k].0 != id,
    ensures
        !template_map_of(s).contains_key(id),
    decreases s.len(),
{
    if s.len() > 0 {
        lemma_template_absent(s.drop_last(), id);
    }
}

proof fn lemma_template_lookup(s: Seq<(LiveId, LivePtr)>, i: int)
    requires
        template_ids_unique(s),
        0 <= i < s.len(),
    ensures
        template_map_of(s).contains_key(s[i].0),
        template_map_of(s)[s[i].0] == s[i].1,
    decreases s.len(),
{
    if i < s.len() - 1 {
        lemma_template_lookup(s.drop_last(), i);
        assert(s[i].0 != s.last().0);
    }
}

proof fn lemma_template_update(s: Seq<(LiveId, LivePtr)>, i: int, ptr: LivePtr)
    requires
        template_ids_unique(s),
        0 <= i < s.len(),
    ensures
        template_ids_unique(s.update(i, (s[i].0, ptr))),
        template_map_of(s.update(i, (s[i].0, ptr))) == template_map_of(s).insert(s[i].0, ptr),
    decreases s.len(),
{
    let t = s.update(i, (s[i].0, ptr));
    assert forall|a: int, b: int| 0 <= a < b < t.len() implies #[trigger] t[a].0 != #[trigger] t[b].0 by {
        assert(s[a].0 != s[b].0);
    }
    if i == s.len() - 1 {
        assert(t.drop_last() =~= s.drop_last());
        assert(template_map_of(s.drop_last()).insert(s[i].0, s[i].1).insert(s[i].0, ptr)
            =~= template_map_of(s.drop_last()).insert(s[i].0, ptr));
    } else {
        lemma_template_update(s.drop_last(), i, ptr);
        assert(t.drop_last() =~= s.drop_last().update(i, (s[i].0, ptr)));
        assert(s[i].0 != s.last().0);
        assert(template_map_of(s.drop_last()).insert(s[i].0, ptr).insert(s.last().0, s.last().1)
            =~= template_map_of(s.drop_last()).insert(s.last().0, s.last().1).insert(s[i].0, ptr));
    }
}

} // verus!
