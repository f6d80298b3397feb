//! The item store: an ordered, newest-first collection of todo items with an
//! auto-incrementing id counter.

use std::time::SystemTime;
use std::time::UNIX_EPOCH;
use vstd::prelude::*;
use vstd::string::StringExecFns;

use crate::item::{ItemView, TodoError, TodoItem};
use crate::title::{normalize_title, title_error, trimmed};

verus! {

/// Whether some item in `items` carries `id`.
pub open spec fn contains_id(items: Seq<ItemView>, id: u32) -> bool {
    exists|i: int| 0 <= i < items.len() && items[i].id == id
}

/// The position of the first item carrying `id`, or `items.len()` when no
/// item does.
pub open spec fn first_idx(items: Seq<ItemView>, id: u32) -> int
    decreases items.len(),
{
    if items.len() == 0 {
        0
    } else if items[0].id == id {
        0
    } else {
        1 + first_idx(items.drop_first(), id)
    }
}

/// `it` with its completion flag flipped and its update time set to `now`.
pub open spec fn flipped(it: ItemView, now: u64) -> ItemView {
    ItemView { completed: !it.completed, updated_at: Some(now), ..it }
}

/// `items` after toggling the first item carrying `id` at time `now`;
/// unchanged when no item carries `id`.
pub open spec fn spec_toggle(items: Seq<ItemView>, id: u32, now: u64) -> Seq<ItemView> {
    if contains_id(items, id) {
        items.update(first_idx(items, id), flipped(items[first_idx(items, id)], now))
    } else {
        items
    }
}

/// `items` after removing the first item carrying `id`; unchanged when no
/// item carries `id`.
pub open spec fn spec_remove(items: Seq<ItemView>, id: u32) -> Seq<ItemView> {
    if contains_id(items, id) {
        items.remove(first_idx(items, id))
    } else {
        items
    }
}

/// The largest id carried by any item, or 0 when `items` is empty.
pub open spec fn max_id(items: Seq<ItemView>) -> u32
    decreases items.len(),
{
    if items.len() == 0 {
        0u32
    } else if items.last().id >= max_id(items.drop_last()) {
        items.last().id
    } else {
        max_id(items.drop_last())
    }
}

/// [`first_idx`] finds the first match: everything before it carries another
/// id, it lies within `items` exactly when some item matches, and the item
/// there matches.
pub proof fn lemma_first_idx(items: Seq<ItemView>, id: u32)
    ensures
        0 <= first_idx(items, id) <= items.len(),
        contains_id(items, id) <==> first_idx(items, id) < items.len(),
        forall|j: int| 0 <= j < first_idx(items, id) ==> items[j].id != id,
        first_idx(items, id) < items.len() ==> items[first_idx(items, id)].id == id,
    decreases items.len(),
{
    if items.len() == 0 {
    } else if items[0].id == id {
    } else {
        let t = items.drop_first();
        lemma_first_idx(t, id);
        assert(forall|j: int| 1 <= j < items.len() ==> items[j] == t[j - 1]);
        if contains_id(items, id) {
            let w = choose|i: int| 0 <= i < items.len() && items[i].id == id;
            assert(t[w - 1].id == id);
            assert(contains_id(t, id));
        }
        if contains_id(t, id) {
            let w = choose|i: int| 0 <= i < t.len() && t[i].id == id;
            assert(items[w + 1].id == id);
            assert(contains_id(items, id));
        }
    }
}

/// [`first_idx`] looks only at ids: two sequences that agree on ids agree on
/// the first match position.
proof fn lemma_first_idx_same_ids(a: Seq<ItemView>, b: Seq<ItemView>, id: u32)
    requires
        a.len() == b.len(),
        forall|j: int| 0 <= j < a.len() ==> a[j].id == b[j].id,
    ensures
        first_idx(a, id) == first_idx(b, id),
    decreases a.len(),
{
    if a.len() == 0 {
    } else if a[0].id == id {
    } else {
        let ta = a.drop_first();
        let tb = b.drop_first();
        assert(forall|j: int| 0 <= j < ta.len() ==> ta[j].id == tb[j].id);
        lemma_first_idx_same_ids(ta, tb, id);
    }
}

/// Every id in `items` is bounded by [`max_id`].
pub proof fn lemma_max_id_bound(items: Seq<ItemView>)
    ensures
        forall|i: int| 0 <= i < items.len() ==> items[i].id <= max_id(items),
    decreases items.len(),
{
    if items.len() > 0 {
        lemma_max_id_bound(items.drop_last());
        assert(forall|i: int| 0 <= i < items.len() - 1 ==> items[i] == items.drop_last()[i]);
    }
}

/// Toggling the same item twice restores its completion flag to the original
/// value; the update time reflects the second toggle, every other field and
/// every other item is untouched.
pub proof fn toggle_twice_restores_completed(items: Seq<ItemView>, id: u32, t1: u64, t2: u64)
    requires
        contains_id(items, id),
    ensures
        ({
            let once = spec_toggle(items, id, t1);
            let twice = spec_toggle(once, id, t2);
            let i = first_idx(items, id);
            &&& contains_id(once, id)
            &&& twice.len() == items.len()
            &&& twice[i].completed == items[i].completed
            &&& twice[i].updated_at == Some(t2)
            &&& twice[i].id == items[i].id
            &&& twice[i].title == items[i].title
            &&& twice[i].created_at == items[i].created_at
            &&& forall|j: int| 0 <= j < items.len() && j != i ==> twice[j] == items[j]
        }),
{
    lemma_first_idx(items, id);
    let i = first_idx(items, id);
    let once = spec_toggle(items, id, t1);
    assert(once[i].id == id);
    assert(contains_id(once, id));
    assert(forall|j: int| 0 <= j < items.len() ==> once[j].id == items[j].id);
    lemma_first_idx_same_ids(once, items, id);
    lemma_first_idx(once, id);
}

/// The item store: an ordered sequence of items, newest first, and the next
/// id to assign.
///
/// Well-formedness ([`TodoList::wf`]) says the counter starts at 1 and stays
/// strictly above every id present, so a freshly assigned id is never a
/// duplicate. Hydration trusts its snapshot verbatim, so id uniqueness
/// ([`TodoList::ids_unique`]) is tracked separately: it holds for every store
/// built by `new` and mutated through `add_item`, `toggle` and `remove`, and
/// after hydration exactly when the snapshot itself was duplicate-free.
pub struct TodoList {
    pub next_id: u32,
    pub items: Vec<TodoItem>,
}

impl TodoList {
    /// The mathematical value of the collection, newest first.
    pub open spec fn models(self) -> Seq<ItemView> {
        self.items.deep_view()
    }

    /// The id counter sits at or above its initial value and strictly above
    /// every id present.
    pub open spec fn wf(self) -> bool {
        &&& 1 <= self.next_id
        &&& forall|i: int| 0 <= i < self.models().len() ==> self.models()[i].id < self.next_id
    }

    /// No two items carry the same id.
    pub open spec fn ids_unique(self) -> bool {
        forall|i: int, j: int|
            0 <= i < j < self.models().len() ==> self.models()[i].id != self.models()[j].id
    }

    /// A new, empty store: the counter starts at 1 and no items are present.
    pub fn new() -> (r: TodoList)
        ensures
            r.next_id == 1,
            r.models() == Seq::<ItemView>::empty(),
            r.wf(),
            r.ids_unique(),
    {
        let r = TodoList { next_id: 1, items: Vec::new() };
        proof {
            assert(r.models() =~= Seq::<ItemView>::empty());
        }
        r
    }

    /// Validates `title` and, on success, prepends a new item carrying the
    /// next id, an unset completion flag, `now` as its creation time and no
    /// update time yet. On failure the store is untouched.
    pub fn add_item_at(&mut self, title: &str, now: u64) -> (r: Result<TodoItem, TodoError>)
        requires
            title_error(title@) is None ==> old(self).next_id < u32::MAX,
        ensures
            match r {
                Ok(item) => {
                    &&& title_error(title@) is None
                    &&& item@ == (ItemView {
                        id: old(self).next_id,
                        title: trimmed(title@),
                        completed: false,
                        created_at: now,
                        updated_at: None,
                    })
                    &&& final(self).next_id == old(self).next_id + 1
                    &&& final(self).models() == seq![item@] + old(self).models()
                },
                Err(e) => title_error(title@) == Some(e) && *final(self) == *old(self),
            },
            old(self).wf() ==> final(self).wf(),
            old(self).wf() && old(self).ids_unique() ==> final(self).ids_unique(),
    {
        let normalized = match normalize_title(title) {
            Ok(t) => t,
            Err(e) => {
                return Err(e);
            },
        };
        let item = TodoItem {
            id: self.next_id,
            title: normalized,
            completed: false,
            created_at: now,
            updated_at: None,
        };
        let returned = item.duplicate();
        self.next_id = self.next_id + 1;
        self.items.insert(0, item);
        proof {
            assert(self.models() =~= seq![returned@] + old(self).models());
            if old(self).wf() {
                assert(forall|i: int|
                    0 <= i < self.models().len() ==> self.models()[i].id < self.next_id);
                if old(self).ids_unique() {
                    assert(forall|i: int, j: int|
                        0 <= i < j < self.models().len() ==> self.models()[i].id
                            != self.models()[j].id);
                }
            }
        }
        Ok(returned)
    }

    /// Validates `title` and prepends a new item stamped with the current
    /// wall-clock time; see [`TodoList::add_item_at`]. The store is untouched
    /// on failure.
    pub fn add_item(&mut self, title: &str) -> (r: Result<TodoItem, TodoError>)
        requires
            title_error(title@) is None ==> old(self).next_id < u32::MAX,
        ensures
            match r {
                Ok(item) => {
                    &&& title_error(title@) is None
                    &&& item@.id == old(self).next_id
                    &&& item@.title == trimmed(title@)
                    &&& item@.completed == false
                    &&& item@.updated_at is None
                    &&& final(self).next_id == old(self).next_id + 1
                    &&& final(self).models() == seq![item@] + old(self).models()
                },
                Err(e) => title_error(title@) == Some(e) && *final(self) == *old(self),
            },
            old(self).wf() ==> final(self).wf(),
            old(self).wf() && old(self).ids_unique() ==> final(self).ids_unique(),
    {
        let now = now_millis();
        self.add_item_at(title, now)
    }

    /// Flips the completion flag of the item carrying `id` and records `now`
    /// as its update time; reports whether such an item was present. An
    /// unknown id is a normal outcome: the store is untouched and the result
    /// is `false`.
    pub fn toggle_at(&mut self, id: u32, now: u64) -> (r: bool)
        ensures
            r == contains_id(old(self).models(), id),
            final(self).next_id == old(self).next_id,
            final(self).models() == spec_toggle(old(self).models(), id, now),
            !r ==> *final(self) == *old(self),
            old(self).wf() ==> final(self).wf(),
            old(self).ids_unique() ==> final(self).ids_unique(),
    {
        proof {
            lemma_first_idx(old(self).models(), id);
        }
        let n = self.items.len();
        let mut i: usize = 0;
        while i < n
            invariant
                0 <= i <= n,
                n == self.items.len(),
                *self == *old(self),
                forall|j: int| 0 <= j < i ==> old(self).models()[j].id != id,
            decreases n - i,
        {
            if self.items[i].id == id {
                let cur = &self.items[i];
                let updated = TodoItem {
                    id: cur.id,
                    title: String::from_str(cur.title.as_str()),
                    completed: !cur.completed,
                    created_at: cur.created_at,
                    updated_at: Some(now),
                };
                proof {
                    let m0 = old(self).models();
                    assert(m0[i as int] == old(self).items@[i as int]@);
                    assert(m0[i as int].id == id);
                    assert(contains_id(m0, id));
                    assert(first_idx(m0, id) == i as int) by {
                        lemma_first_idx(m0, id);
                        let f = first_idx(m0, id);
                        if f < i as int {
                            assert(m0[f].id != id);
                        }
                    }
                }
                self.items[i] = updated;
                proof {
                    let m0 = old(self).models();
                    assert(self.models() =~= m0.update(i as int, flipped(m0[i as int], now)));
                }
                return true;
            }
            i = i + 1;
        }
        proof {
            if contains_id(old(self).models(), id) {
                let w = choose|k: int|
                    0 <= k < old(self).models().len() && old(self).models()[k].id == id;
                assert(old(self).models()[w].id != id);
            }
        }
        false
    }

    /// Flips the completion flag of the item carrying `id`, stamping the
    /// update with the current wall-clock time; see [`TodoList::toggle_at`].
    pub fn toggle(&mut self, id: u32) -> (r: bool)
        ensures
            r == contains_id(old(self).models(), id),
            final(self).next_id == old(self).next_id,
            exists|t: u64| final(self).models() == spec_toggle(old(self).models(), id, t),
            !r ==> *final(self) == *old(self),
            old(self).wf() ==> final(self).wf(),
            old(self).ids_unique() ==> final(self).ids_unique(),
    {
        let now = now_millis();
        let r = self.toggle_at(id, now);
        proof {
            assert(self.models() == spec_toggle(old(self).models(), id, now));
        }
        r
    }

    /// Deletes the item carrying `id`, keeping the relative order of the
    /// rest; reports whether such an item was present. An unknown id is a
    /// normal outcome: the store is untouched and the result is `false`.
    pub fn remove(&mut self, id: u32) -> (r: bool)
        ensures
            r == contains_id(old(self).models(), id),
            final(self).next_id == old(self).next_id,
            final(self).models() == spec_remove(old(self).models(), id),
            !r ==> *final(self) == *old(self),
            old(self).wf() ==> final(self).wf(),
            old(self).ids_unique() ==> final(self).ids_unique(),
    {
        proof {
            lemma_first_idx(old(self).models(), id);
        }
        let n = self.items.len();
        let mut i: usize = 0;
        while i < n
            invariant
                0 <= i <= n,
                n == self.items.len(),
                *self == *old(self),
                forall|j: int| 0 <= j < i ==> old(self).models()[j].id != id,
            decreases n - i,
        {
            if self.items[i].id == id {
                proof {
                    let m0 = old(self).models();
                    assert(m0[i as int] == old(self).items@[i as int]@);
                    assert(m0[i as int].id == id);
                    assert(contains_id(m0, id));
                    assert(first_idx(m0, id) == i as int) by {
                        lemma_first_idx(m0, id);
                        let f = first_idx(m0, id);
                        if f < i as int {
                            assert(m0[f].id != id);
                        }
                    }
                }
                self.items.remove(i);
                proof {
                    let m0 = old(self).models();
                    assert(self.models() =~= m0.remove(i as int));
                    if old(self).ids_unique() {
                        assert(forall|a: int, b: int|
                            0 <= a < b < self.models().len() ==> self.models()[a].id
                                != self.models()[b].id);
                    }
                }
                return true;
            }
            i = i + 1;
        }
        proof {
            if contains_id(old(self).models(), id) {
                let w = choose|k: int|
                    0 <= k < old(self).models().len() && old(self).models()[k].id == id;
                assert(old(self).models()[w].id != id);
            }
        }
        false
    }

    /// Replaces the whole collection with `items` verbatim — no validation,
    /// no de-duplication — and recomputes the counter as one past the largest
    /// id present, or 1 for an empty snapshot.
    pub fn hydrate_items(&mut self, items: Vec<TodoItem>)
        requires
            max_id(items.deep_view()) < u32::MAX,
        ensures
            final(self).models() == items.deep_view(),
            final(self).next_id == max_id(items.deep_view()) + 1,
            final(self).wf(),
    {
        let dv = Ghost(items.deep_view());
        let n = items.len();
        let mut m: u32 = 0;
        let mut i: usize = 0;
        while i < n
            invariant
                0 <= i <= n,
                n == items.len(),
                dv@ == items.deep_view(),
                m == max_id(dv@.subrange(0, i as int)),
            decreases n - i,
        {
            proof {
                let pre = dv@.subrange(0, i as int);
                let post = dv@.subrange(0, i + 1);
                assert(post.drop_last() =~= pre);
                assert(post.last() == dv@[i as int]);
            }
            if items[i].id > m {
                m = items[i].id;
            }
            i = i + 1;
        }
        proof {
            assert(dv@.subrange(0, n as int) =~= dv@);
            lemma_max_id_bound(dv@);
        }
        self.next_id = m + 1;
        self.items = items;
    }

    /// The current collection, newest first, as independent copies of the
    /// items.
    pub fn snapshot(&self) -> (r: Vec<TodoItem>)
        ensures
            r.deep_view() == self.models(),
    {
        let mut out: Vec<TodoItem> = Vec::new();
        let n = self.items.len();
        let mut i: usize = 0;
        while i < n
            invariant
                0 <= i <= n,
                n == self.items.len(),
                out.deep_view() =~= self.models().subrange(0, i as int),
            decreases n - i,
        {
            let ghost prev = out.deep_view();
            let copy = self.items[i].duplicate();
            proof {
                assert(copy@ == self.models()[i as int]);
            }
            out.push(copy);
            proof {
                assert(out.deep_view().len() == prev.len() + 1);
                assert(forall|k: int| 0 <= k < prev.len() ==> out.deep_view()[k] == prev[k]);
                assert(out.deep_view()[prev.len() as int] == copy@);
                assert(out.deep_view() =~= self.models().subrange(0, i + 1));
            }
            i = i + 1;
        }
        proof {
            assert(self.models().subrange(0, n as int) =~= self.models());
        }
        out
    }
}

/// Relies on `std::time::SystemTime::now`: the wall clock read as
/// milliseconds since the Unix epoch, or 0 when the clock reads earlier than
/// the epoch. Nothing is assumed of the value: callers state what holds of
/// every timestamp.
#[verifier::external_body]
fn now_millis() -> u64 {
    SystemTime::now().duration_since(UNIX_EPOCH).unwrap_or_default().as_millis() as u64
}

} // verus!
