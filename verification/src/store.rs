//! The entry store: a deduplicated, newest-first collection of clipboard
//! entries with retention cleanup, targeted partial updates, search and
//! statistics.  The store itself is the in-memory system of record that the
//! surrounding application mirrors to disk; every operation here carries an
//! exact contract over the sequence of entry models.

use vstd::prelude::*;
use vstd::pervasive::VecAdditionalExecFns;
use crate::model::ClipboardItem;
use crate::model::ItemModel;
use crate::model::StoreError;
use crate::model::valid_item;
use crate::sys::now_ts;

verus! {

broadcast use vstd::seq_lib::group_filter_ensures;

/// No two entries share an identifier.
pub open spec fn ids_unique(s: Seq<ItemModel>) -> bool {
    forall|i: int, j: int| 0 <= i < j < s.len() ==> s[i].id != s[j].id
}

/// Entries are ordered newest-first by capture time.
pub open spec fn sorted_newest_first(s: Seq<ItemModel>) -> bool {
    forall|i: int, j: int| 0 <= i <= j < s.len() ==> s[i].timestamp >= s[j].timestamp
}

pub open spec fn all_valid(s: Seq<ItemModel>) -> bool {
    forall|i: int| 0 <= i < s.len() ==> valid_item(#[trigger] s[i])
}

/// Some entry already carries this identifier.
pub open spec fn contains_id(s: Seq<ItemModel>, id: u128) -> bool {
    exists|i: int| 0 <= i < s.len() && s[i].id == id
}

/// The index of the entry carrying `id` (meaningful when `contains_id`
/// holds; with unique identifiers it is the only one).
pub open spec fn idx_of(s: Seq<ItemModel>, id: u128) -> int {
    choose|i: int| 0 <= i < s.len() && s[i].id == id
}

/// An entry whose preview equals `preview` was captured within the
/// five-second deduplication window before `now`.
pub open spec fn has_near_dup(s: Seq<ItemModel>, preview: Seq<char>, now: i64) -> bool {
    exists|i: int|
        0 <= i < s.len() && s[i].preview_text == preview && s[i].timestamp > now - 5
}

/// Where a new entry with capture time `ts` lands in a newest-first
/// sequence: before the first entry that is not newer than it.
pub open spec fn insert_pos(s: Seq<ItemModel>, ts: i64) -> int
    decreases s.len(),
{
    if s.len() == 0 {
        0
    } else if s[0].timestamp <= ts {
        0
    } else {
        1 + insert_pos(s.drop_first(), ts)
    }
}

pub open spec fn insert_sorted(s: Seq<ItemModel>, m: ItemModel) -> Seq<ItemModel> {
    let p = insert_pos(s, m.timestamp);
    s.take(p) + seq![m] + s.skip(p)
}

pub open spec fn keep_other(id: u128) -> spec_fn(ItemModel) -> bool {
    |m: ItemModel| m.id != id
}

/// The sequence with the entry carrying `id` removed (unchanged when no
/// entry carries it).
pub open spec fn remove_id(s: Seq<ItemModel>, id: u128) -> Seq<ItemModel> {
    s.filter(keep_other(id))
}

/// What one save leaves behind: nothing new inside the deduplication
/// window; otherwise the entry replaces any entry with its identifier and
/// lands at its newest-first position.
pub open spec fn saved(s: Seq<ItemModel>, m: ItemModel, now: i64) -> Seq<ItemModel> {
    if has_near_dup(s, m.preview_text, now) {
        s
    } else {
        insert_sorted(remove_id(s, m.id), m)
    }
}

pub proof fn lemma_insert_pos_props(s: Seq<ItemModel>, ts: i64)
    ensures
        0 <= insert_pos(s, ts) <= s.len(),
        forall|i: int| 0 <= i < insert_pos(s, ts) ==> s[i].timestamp > ts,
        insert_pos(s, ts) < s.len() ==> s[insert_pos(s, ts)].timestamp <= ts,
    decreases s.len(),
{
    if s.len() > 0 && s[0].timestamp > ts {
        lemma_insert_pos_props(s.drop_first(), ts);
        assert(forall|i: int|
            0 < i < insert_pos(s, ts) ==> s[i].timestamp == s.drop_first()[i - 1].timestamp);
    }
}

pub proof fn lemma_remove_id_absent(s: Seq<ItemModel>, id: u128)
    requires
        forall|i: int| 0 <= i < s.len() ==> s[i].id != id,
    ensures
        remove_id(s, id) == s,
    decreases s.len(),
{
    if s.len() == 0 {
        assert(remove_id(s, id) =~= s);
    } else {
        lemma_remove_id_absent(s.drop_last(), id);
        assert(keep_other(id)(s.last()));
        assert(s.filter(keep_other(id)) == s.drop_last().filter(keep_other(id)).push(s.last()))
            by {
            reveal_with_fuel(Seq::filter, 2);
        }
        assert(remove_id(s, id) =~= s);
    }
}

pub proof fn lemma_remove_id_present(s: Seq<ItemModel>, id: u128, k: int)
    requires
        ids_unique(s),
        0 <= k < s.len(),
        s[k].id == id,
    ensures
        remove_id(s, id) == s.remove(k),
{
    let pred = keep_other(id);
    let left = s.take(k);
    let mid = seq![s[k]];
    let right = s.skip(k + 1);
    assert(s =~= (left + mid) + right);
    Seq::filter_distributes_over_add(left + mid, right, pred);
    Seq::filter_distributes_over_add(left, mid, pred);
    assert(forall|i: int| 0 <= i < left.len() ==> left[i].id != id);
    lemma_remove_id_absent(left, id);
    assert(forall|i: int| 0 <= i < right.len() ==> right[i].id != id);
    lemma_remove_id_absent(right, id);
    assert(mid.filter(pred) =~= Seq::<ItemModel>::empty()) by {
        reveal_with_fuel(Seq::filter, 2);
        assert(mid.drop_last() =~= Seq::<ItemModel>::empty());
    }
    assert(s.filter(pred) == left.filter(pred) + mid.filter(pred) + right.filter(pred));
    assert(remove_id(s, id) =~= s.remove(k));
}

/// Removing one entry keeps the order, the uniqueness of identifiers and
/// the well-formedness of what remains.
pub proof fn lemma_remove_entry(s: Seq<ItemModel>, k: int)
    requires
        0 <= k < s.len(),
        sorted_newest_first(s),
        ids_unique(s),
        all_valid(s),
    ensures
        sorted_newest_first(s.remove(k)),
        ids_unique(s.remove(k)),
        all_valid(s.remove(k)),
{
    s.remove_ensures(k);
    let r = s.remove(k);
    assert(forall|j: int| 0 <= j < k ==> r[j] == s[j]);
    assert(forall|j: int| k <= j < r.len() ==> r[j] == s[j + 1]);
    assert forall|a: int, b: int| 0 <= a <= b < r.len() implies r[a].timestamp
        >= r[b].timestamp by {
        let a0 = if a < k {
            a
        } else {
            a + 1
        };
        let b0 = if b < k {
            b
        } else {
            b + 1
        };
        assert(r[a] == s[a0] && r[b] == s[b0]);
    }
    assert forall|a: int, b: int| 0 <= a < b < r.len() implies r[a].id != r[b].id by {
        let a0 = if a < k {
            a
        } else {
            a + 1
        };
        let b0 = if b < k {
            b
        } else {
            b + 1
        };
        assert(r[a] == s[a0] && r[b] == s[b0]);
    }
    assert forall|a: int| 0 <= a < r.len() implies valid_item(r[a]) by {
        let a0 = if a < k {
            a
        } else {
            a + 1
        };
        assert(r[a] == s[a0]);
        assert(valid_item(s[a0]));
    }
}

/// The store of clipboard entries.  The name `Database` is kept from the
/// role it plays: the durable mirror in the application layer follows
/// whatever this structure holds.
pub struct Database {
    items: Vec<ClipboardItem>,
}

impl View for Database {
    type V = Seq<ItemModel>;

    closed spec fn view(&self) -> Seq<ItemModel> {
        self.items.deep_view()
    }
}

impl Database {
    /// The store invariant: unique identifiers, newest-first order,
    /// well-formed entries, and a count that fits the statistics counters.
    pub open spec fn inv(&self) -> bool {
        &&& ids_unique(self@)
        &&& sorted_newest_first(self@)
        &&& all_valid(self@)
        &&& self@.len() <= 0xFFFF_FFFF
    }

    pub fn new() -> (r: Database)
        ensures
            r.inv(),
            r@ == Seq::<ItemModel>::empty(),
    {
        let r = Database { items: Vec::new() };
        proof {
            assert(r@ =~= Seq::<ItemModel>::empty());
        }
        r
    }

    /// The number of stored entries.
    pub fn len(&self) -> (r: usize)
        ensures
            r == self@.len(),
    {
        proof {
            assert(self.items.deep_view().len() == self.items@.len());
        }
        self.items.len()
    }

    /// The index of the entry carrying `id`, if any.
    fn find_index(&self, id: u128) -> (r: Option<usize>)
        ensures
            r is Some ==> 0 <= r->0 < self@.len() && self@[r->0 as int].id == id,
            r is None ==> !contains_id(self@, id),
    {
        let ghost s = self@;
        let mut i: usize = 0;
        while i < self.items.len()
            invariant
                0 <= i <= s.len(),
                s == self@,
                s.len() == self.items@.len(),
                forall|j: int| 0 <= j < i ==> s[j].id != id,
            decreases s.len() - i,
        {
            proof {
                assert(s[i as int] == self.items@[i as int].deep_view());
            }
            if self.items[i].id == id {
                return Some(i);
            }
            i = i + 1;
        }
        None
    }

    /// Whether an entry with this preview was captured inside the
    /// deduplication window ending at `now`.
    fn near_dup_exists(&self, preview: &String, now: i64) -> (r: bool)
        ensures
            r == has_near_dup(self@, preview@, now),
    {
        let ghost s = self@;
        let mut i: usize = 0;
        while i < self.items.len()
            invariant
                0 <= i <= s.len(),
                s == self@,
                s.len() == self.items@.len(),
                forall|j: int|
                    0 <= j < i ==> !(s[j].preview_text == preview@ && s[j].timestamp > now - 5),
            decreases s.len() - i,
        {
            proof {
                assert(s[i as int] == self.items@[i as int].deep_view());
            }
            let same_preview = self.items[i].preview_text == *preview;
            let in_window = (self.items[i].timestamp as i128) > (now as i128) - 5;
            if same_preview && in_window {
                return true;
            }
            i = i + 1;
        }
        false
    }

    /// Inserts a well-formed entry whose identifier is fresh at its
    /// newest-first position.
    fn insert_at_position(&mut self, item: ClipboardItem)
        requires
            old(self).inv(),
            valid_item(item@),
            !contains_id(old(self)@, item@.id),
            old(self)@.len() < 0xFFFF_FFFF,
        ensures
            final(self).inv(),
            final(self)@ == insert_sorted(old(self)@, item@),
    {
        let ghost s = self@;
        let ghost m = item@;
        let mut i: usize = 0;
        while i < self.items.len() && self.items[i].timestamp > item.timestamp
            invariant
                0 <= i <= s.len(),
                s == self@,
                s.len() == self.items@.len(),
                forall|j: int| 0 <= j < i ==> s[j].timestamp > m.timestamp,
            decreases s.len() - i,
        {
            proof {
                assert(s[i as int] == self.items@[i as int].deep_view());
            }
            i = i + 1;
        }
        proof {
            lemma_insert_pos_props(s, m.timestamp);
            if i < s.len() {
                assert(s[i as int] == self.items@[i as int].deep_view());
            }
            assert(i as int == insert_pos(s, m.timestamp));
        }
        self.items.insert(i, item);
        proof {
            let p = i as int;
            assert(self.items@ == old(self).items@.insert(p, item));
            assert(self@ =~= s.take(p) + seq![m] + s.skip(p)) by {
                assert(forall|j: int|
                    0 <= j < self.items@.len() ==> self@[j] == self.items@[j].deep_view());
            }
            assert(final(self)@ == insert_sorted(s, m));
            assert(ids_unique(self@)) by {
                assert(forall|j: int|
                    0 <= j < s.len() ==> s[j].id != m.id);
            }
            assert(sorted_newest_first(self@));
            assert(all_valid(self@));
        }
    }

    /// Saves one entry with an explicit clock reading: a no-op inside the
    /// deduplication window, otherwise an insert-or-replace at the entry's
    /// newest-first position.  Fails only when the store is at capacity.
    pub fn save_item_at(&mut self, item: ClipboardItem, now: i64) -> (r: Result<(), StoreError>)
        requires
            old(self).inv(),
            valid_item(item@),
        ensures
            final(self).inv(),
            has_near_dup(old(self)@, item@.preview_text, now) ==> r is Ok && final(self)@ == old(
                self,
            )@,
            !has_near_dup(old(self)@, item@.preview_text, now) && old(self)@.len() < 0xFFFF_FFFF
                ==> r is Ok && final(self)@ == saved(old(self)@, item@, now),
            !has_near_dup(old(self)@, item@.preview_text, now) && old(self)@.len() == 0xFFFF_FFFF
                && !contains_id(old(self)@, item@.id) ==> r == Err::<(), StoreError>(
                StoreError::Full,
            ) && final(self)@ == old(self)@,
            !has_near_dup(old(self)@, item@.preview_text, now) && contains_id(old(self)@, item@.id)
                ==> r is Ok && final(self)@ == saved(old(self)@, item@, now),
    {
        let ghost s = self@;
        if self.near_dup_exists(&item.preview_text, now) {
            return Ok(());
        }
        match self.find_index(item.id) {
            Some(k) => {
                self.items.remove(k);
                proof {
                    assert(self@ =~= s.remove(k as int)) by {
                        assert(forall|j: int|
                            0 <= j < self.items@.len() ==> self@[j] == self.items@[j].deep_view());
                    }
                    lemma_remove_id_present(s, item@.id, k as int);
                    assert(self@ == remove_id(s, item@.id));
                    lemma_remove_entry(s, k as int);
                    assert(ids_unique(self@));
                    assert(all_valid(self@));
                    assert(!contains_id(self@, item@.id));
                }
                self.insert_at_position(item);
                Ok(())
            },
            None => {
                if self.items.len() >= 0xFFFF_FFFFusize {
                    proof {
                        lemma_remove_id_absent(s, item@.id);
                    }
                    return Err(StoreError::Full);
                }
                proof {
                    lemma_remove_id_absent(s, item@.id);
                }
                self.insert_at_position(item);
                Ok(())
            },
        }
    }

    /// Saves one entry against the wall clock.  The clock reading is
    /// arbitrary; the stated effect holds for whatever it was.
    pub fn save_item(&mut self, item: ClipboardItem) -> (r: Result<(), StoreError>)
        requires
            old(self).inv(),
            valid_item(item@),
        ensures
            final(self).inv(),
            old(self)@.len() < 0xFFFF_FFFF ==> r is Ok,
            r is Ok ==> exists|t: i64| final(self)@ == #[trigger] saved(old(self)@, item@, t),
            r is Err ==> final(self)@ == old(self)@ && r == Err::<(), StoreError>(StoreError::Full),
    {
        let t = now_ts();
        let ghost s = self@;
        let r = self.save_item_at(item, t);
        proof {
            if r is Ok {
                assert(self@ == saved(s, item@, t));
            }
        }
        r
    }

    /// Returns a copy of the entry carrying `id`, if one is stored.
    pub fn get_item(&self, id: u128) -> (r: Option<ClipboardItem>)
        requires
            self.inv(),
        ensures
            r is Some <==> contains_id(self@, id),
            r is Some ==> r->0@ == self@[idx_of(self@, id)] && r->0@.id == id,
    {
        match self.find_index(id) {
            Some(k) => {
                let it = self.items[k].clone();
                proof {
                    assert(self@[k as int] == self.items@[k as int].deep_view());
                    let ghost j = idx_of(self@, id);
                    assert(self@[j].id == id);
                    assert(j == k as int);
                }
                Some(it)
            },
            None => None,
        }
    }

    /// The `limit` newest entries, newest first.
    pub fn get_recent_items(&self, limit: u32) -> (r: Vec<ClipboardItem>)
        requires
            self.inv(),
        ensures
            r.deep_view() == if limit as int <= self@.len() {
                self@.take(limit as int)
            } else {
                self@
            },
    {
        let n = if (limit as usize) <= self.items.len() {
            limit as usize
        } else {
            self.items.len()
        };
        let mut r: Vec<ClipboardItem> = Vec::new();
        let mut i: usize = 0;
        while i < n
            invariant
                0 <= i <= n <= self@.len(),
                self@.len() == self.items@.len(),
                r.deep_view() =~= self@.take(i as int),
            decreases n - i,
        {
            proof {
                assert(self@[i as int] == self.items@[i as int].deep_view());
            }
            r.push(self.items[i].clone());
            proof {
                assert(r.deep_view() =~= self@.take(i + 1));
            }
            i = i + 1;
        }
        proof {
            if limit as int > self@.len() {
                assert(self@.take(self@.len() as int) =~= self@);
            }
        }
        r
    }

    /// Removes the entry carrying `id`; removing an absent identifier is a
    /// no-op.  The derived tag and metadata rows of the mirror follow the
    /// entry they belong to.
    pub fn delete_item(&mut self, id: u128) -> (r: Result<(), StoreError>)
        requires
            old(self).inv(),
        ensures
            final(self).inv(),
            r is Ok,
            final(self)@ == remove_id(old(self)@, id),
    {
        let ghost s = self@;
        match self.find_index(id) {
            Some(k) => {
                self.items.remove(k);
                proof {
                    assert(self@ =~= s.remove(k as int)) by {
                        assert(forall|j: int|
                            0 <= j < self.items@.len() ==> self@[j] == self.items@[j].deep_view());
                    }
                    lemma_remove_id_present(s, id, k as int);
                    lemma_remove_entry(s, k as int);
                }
                Ok(())
            },
            None => {
                proof {
                    lemma_remove_id_absent(s, id);
                }
                Ok(())
            },
        }
    }

    /// Replaces the stored entry that shares the new entry's identifier;
    /// the replacement lands at the position its own capture time orders it
    /// to.  Fails exactly when no entry carries that identifier.
    pub fn update_item(&mut self, item: ClipboardItem) -> (r: Result<(), StoreError>)
        requires
            old(self).inv(),
            valid_item(item@),
        ensures
            final(self).inv(),
            contains_id(old(self)@, item@.id) ==> r is Ok && final(self)@ == insert_sorted(
                remove_id(old(self)@, item@.id),
                item@,
            ),
            !contains_id(old(self)@, item@.id) ==> r == Err::<(), StoreError>(StoreError::NotFound)
                && final(self)@ == old(self)@,
    {
        let ghost s = self@;
        match self.find_index(item.id) {
            Some(k) => {
                self.items.remove(k);
                proof {
                    assert(self@ =~= s.remove(k as int)) by {
                        assert(forall|j: int|
                            0 <= j < self.items@.len() ==> self@[j] == self.items@[j].deep_view());
                    }
                    lemma_remove_id_present(s, item@.id, k as int);
                    lemma_remove_entry(s, k as int);
                    assert(!contains_id(self@, item@.id));
                }
                self.insert_at_position(item);
                Ok(())
            },
            None => Err(StoreError::NotFound),
        }
    }
}

} // verus!

verus! {

// ---------------------------------------------------------------------------
// Targeted partial updates: protection flags and tags.
// ---------------------------------------------------------------------------

/// The sequence with the `favorite` flag of the entry carrying `id` set to
/// `b` (unchanged when no entry carries it).
pub open spec fn with_favorite(s: Seq<ItemModel>, id: u128, b: bool) -> Seq<ItemModel> {
    Seq::new(
        s.len(),
        |i: int|
            if s[i].id == id {
                ItemModel { favorite: b, ..s[i] }
            } else {
                s[i]
            },
    )
}

/// The sequence with the `pinned` flag of the entry carrying `id` set to
/// `b`.
pub open spec fn with_pinned(s: Seq<ItemModel>, id: u128, b: bool) -> Seq<ItemModel> {
    Seq::new(
        s.len(),
        |i: int|
            if s[i].id == id {
                ItemModel { pinned: b, ..s[i] }
            } else {
                s[i]
            },
    )
}

/// The sequence with the tags of the entry carrying `id` replaced by
/// `tags`.
pub open spec fn with_tags(s: Seq<ItemModel>, id: u128, tags: Seq<Seq<char>>) -> Seq<ItemModel> {
    Seq::new(
        s.len(),
        |i: int|
            if s[i].id == id {
                ItemModel { tags: tags, ..s[i] }
            } else {
                s[i]
            },
    )
}

/// Tags after adding each element of `add` in order, skipping those already
/// present: adding an existing tag is a no-op, and no duplicate is ever
/// created.
pub open spec fn merge_tags(t: Seq<Seq<char>>, add: Seq<Seq<char>>) -> Seq<Seq<char>>
    decreases add.len(),
{
    if add.len() == 0 {
        t
    } else {
        merge_tags(
            if t.contains(add[0]) {
                t
            } else {
                t.push(add[0])
            },
            add.drop_first(),
        )
    }
}

pub open spec fn tag_keeper(rem: Seq<Seq<char>>) -> spec_fn(Seq<char>) -> bool {
    |x: Seq<char>| !rem.contains(x)
}

/// Tags after removing every element of `rem`: removing an absent tag is a
/// no-op.
pub open spec fn drop_tags(t: Seq<Seq<char>>, rem: Seq<Seq<char>>) -> Seq<Seq<char>> {
    t.filter(tag_keeper(rem))
}

/// Filtering keeps identifiers unique, and every element of the result came
/// from the original.
pub proof fn lemma_ids_unique_filter(s: Seq<ItemModel>, pred: spec_fn(ItemModel) -> bool)
    requires
        ids_unique(s),
    ensures
        ids_unique(s.filter(pred)),
        forall|x: ItemModel| s.filter(pred).contains(x) ==> s.contains(x),
    decreases s.len(),
{
    reveal_with_fuel(Seq::filter, 1);
    if s.len() == 0 {
        assert(s.filter(pred) =~= Seq::<ItemModel>::empty());
    } else {
        let head = s.drop_last();
        let f0 = head.filter(pred);
        lemma_ids_unique_filter(head, pred);
        assert(forall|j: int| 0 <= j < head.len() ==> head[j] == s[j]);
        if pred(s.last()) {
            assert(s.filter(pred) == f0.push(s.last()));
            assert forall|a: int, b: int|
                0 <= a < b < f0.push(s.last()).len() implies f0.push(s.last())[a].id != f0.push(
                s.last(),
            )[b].id by {
                if b < f0.len() {
                    assert(f0.push(s.last())[a] == f0[a] && f0.push(s.last())[b] == f0[b]);
                } else {
                    assert(f0.push(s.last())[b] == s.last());
                    assert(f0.contains(f0[a]));
                    assert(head.contains(f0[a]));
                    let w = choose|w: int| 0 <= w < head.len() && head[w] == f0[a];
                    assert(s[w] == f0[a]);
                    assert(s[w].id != s[s.len() - 1].id);
                }
            }
            assert forall|x: ItemModel| s.filter(pred).contains(x) implies s.contains(x) by {
                let w = choose|w: int| 0 <= w < s.filter(pred).len() && s.filter(pred)[w] == x;
                if w < f0.len() {
                    assert(f0.contains(x));
                    assert(head.contains(x));
                    let v = choose|v: int| 0 <= v < head.len() && head[v] == x;
                    assert(s[v] == x);
                } else {
                    assert(x == s.last());
                    assert(s[s.len() - 1] == x);
                }
            }
        } else {
            assert(s.filter(pred) == f0);
            assert forall|x: ItemModel| s.filter(pred).contains(x) implies s.contains(x) by {
                assert(head.contains(x));
                let v = choose|v: int| 0 <= v < head.len() && head[v] == x;
                assert(s[v] == x);
            }
        }
    }
}

/// Filtering preserves the store invariant: newest-first order, unique
/// identifiers and well-formed entries all survive.
pub proof fn lemma_filter_store_props(s: Seq<ItemModel>, pred: spec_fn(ItemModel) -> bool)
    requires
        sorted_newest_first(s),
        ids_unique(s),
        all_valid(s),
    ensures
        sorted_newest_first(s.filter(pred)),
        ids_unique(s.filter(pred)),
        all_valid(s.filter(pred)),
    decreases s.len(),
{
    reveal_with_fuel(Seq::filter, 1);
    lemma_ids_unique_filter(s, pred);
    if s.len() == 0 {
        assert(s.filter(pred) =~= Seq::<ItemModel>::empty());
    } else {
        let head = s.drop_last();
        let f0 = head.filter(pred);
        assert(forall|j: int| 0 <= j < head.len() ==> head[j] == s[j]);
        lemma_filter_store_props(head, pred);
        lemma_ids_unique_filter(head, pred);
        if pred(s.last()) {
            assert(s.filter(pred) == f0.push(s.last()));
            let f = f0.push(s.last());
            assert forall|a: int, b: int| 0 <= a <= b < f.len() implies f[a].timestamp
                >= f[b].timestamp by {
                if b < f0.len() {
                    assert(f[a] == f0[a] && f[b] == f0[b]);
                } else if a < f0.len() {
                    assert(f[b] == s.last());
                    assert(f[a] == f0[a]);
                    assert(f0.contains(f0[a]));
                    assert(head.contains(f0[a]));
                    let w = choose|w: int| 0 <= w < head.len() && head[w] == f0[a];
                    assert(s[w] == f0[a]);
                    assert(s[w].timestamp >= s[s.len() - 1].timestamp);
                }
            }
            assert forall|a: int| 0 <= a < f.len() implies valid_item(f[a]) by {
                if a < f0.len() {
                    assert(f[a] == f0[a]);
                } else {
                    assert(f[a] == s.last());
                    assert(valid_item(s[s.len() - 1]));
                }
            }
        } else {
            assert(s.filter(pred) == f0);
        }
    }
}

/// Filtering a sequence extended by one element: the element stays exactly
/// when the predicate holds of it.
pub proof fn lemma_filter_push<A>(s: Seq<A>, x: A, pred: spec_fn(A) -> bool)
    ensures
        (s.push(x)).filter(pred) == s.filter(pred) + if pred(x) {
            seq![x]
        } else {
            Seq::<A>::empty()
        },
{
    assert(s.push(x).drop_last() =~= s);
    assert(s.push(x).last() == x);
    reveal_with_fuel(Seq::filter, 1);
    if pred(x) {
        assert((s.push(x)).filter(pred) =~= s.filter(pred) + seq![x]);
    } else {
        assert((s.push(x)).filter(pred) =~= s.filter(pred) + Seq::<A>::empty());
    }
}

impl Database {
    /// Marks or unmarks the entry carrying `id` as a favorite.  Fails
    /// exactly when no entry carries that identifier.
    pub fn set_favorite(&mut self, id: u128, favorite: bool) -> (r: Result<(), StoreError>)
        requires
            old(self).inv(),
        ensures
            final(self).inv(),
            contains_id(old(self)@, id) ==> r is Ok && final(self)@ == with_favorite(
                old(self)@,
                id,
                favorite,
            ),
            !contains_id(old(self)@, id) ==> r == Err::<(), StoreError>(StoreError::NotFound)
                && final(self)@ == old(self)@,
    {
        let ghost s = self@;
        match self.find_index(id) {
            Some(k) => {
                let mut c = self.items[k].clone();
                proof {
                    assert(s[k as int] == self.items@[k as int].deep_view());
                }
                c.favorite = favorite;
                self.items.set(k, c);
                proof {
                    assert(self@ =~= with_favorite(s, id, favorite)) by {
                        assert(forall|j: int|
                            0 <= j < self.items@.len() ==> self@[j] == self.items@[j].deep_view());
                    }
                }
                Ok(())
            },
            None => Err(StoreError::NotFound),
        }
    }

    /// Pins or unpins the entry carrying `id`.  Fails exactly when no entry
    /// carries that identifier.
    pub fn set_pinned(&mut self, id: u128, pinned: bool) -> (r: Result<(), StoreError>)
        requires
            old(self).inv(),
        ensures
            final(self).inv(),
            contains_id(old(self)@, id) ==> r is Ok && final(self)@ == with_pinned(
                old(self)@,
                id,
                pinned,
            ),
            !contains_id(old(self)@, id) ==> r == Err::<(), StoreError>(StoreError::NotFound)
                && final(self)@ == old(self)@,
    {
        let ghost s = self@;
        match self.find_index(id) {
            Some(k) => {
                let mut c = self.items[k].clone();
                proof {
                    assert(s[k as int] == self.items@[k as int].deep_view());
                }
                c.pinned = pinned;
                self.items.set(k, c);
                proof {
                    assert(self@ =~= with_pinned(s, id, pinned)) by {
                        assert(forall|j: int|
                            0 <= j < self.items@.len() ==> self@[j] == self.items@[j].deep_view());
                    }
                }
                Ok(())
            },
            None => Err(StoreError::NotFound),
        }
    }

    /// Adds each given tag to the entry carrying `id`, in order, skipping
    /// tags the entry already has; idempotent on existing tags.  Fails
    /// exactly when no entry carries that identifier.
    pub fn add_tags(&mut self, id: u128, tags: Vec<String>) -> (r: Result<(), StoreError>)
        requires
            old(self).inv(),
        ensures
            final(self).inv(),
            contains_id(old(self)@, id) ==> r is Ok && final(self)@ == with_tags(
                old(self)@,
                id,
                merge_tags(old(self)@[idx_of(old(self)@, id)].tags, tags.deep_view()),
            ),
            !contains_id(old(self)@, id) ==> r == Err::<(), StoreError>(StoreError::NotFound)
                && final(self)@ == old(self)@,
    {
        let ghost s = self@;
        match self.find_index(id) {
            Some(k) => {
                proof {
                    assert(s[k as int] == self.items@[k as int].deep_view());
                    assert(s[idx_of(s, id)].id == id);
                    assert(idx_of(s, id) == k as int);
                }
                let mut c = self.items[k].clone();
                let ghost t0 = c.tags.deep_view();
                let ghost a = tags.deep_view();
                proof {
                    assert(a.skip(0) =~= a);
                }
                let mut j: usize = 0;
                while j < tags.len()
                    invariant
                        0 <= j <= tags.len(),
                        a == tags.deep_view(),
                        a.len() == tags@.len(),
                        merge_tags(t0, a) == merge_tags(c.tags.deep_view(), a.skip(j as int)),
                        crate::model::no_dup_strings(c.tags.deep_view()),
                        c@ == (ItemModel { tags: c.tags.deep_view(), ..s[k as int] }),
                    decreases tags.len() - j,
                {
                    let ghost cur = c.tags.deep_view();
                    proof {
                        assert(a[j as int] == tags@[j as int].deep_view());
                        assert(a.skip(j as int)[0] == a[j as int]);
                        assert(a.skip(j as int).drop_first() =~= a.skip(j + 1));
                    }
                    if !contains_string(&c.tags, &tags[j]) {
                        c.tags.push(tags[j].clone());
                        proof {
                            assert(c.tags.deep_view() =~= cur.push(a[j as int]));
                            assert(crate::model::no_dup_strings(c.tags.deep_view()));
                        }
                    }
                    j = j + 1;
                }
                proof {
                    assert(a.skip(a.len() as int) =~= Seq::<Seq<char>>::empty());
                    assert(merge_tags(c.tags.deep_view(), Seq::<Seq<char>>::empty())
                        == c.tags.deep_view());
                    assert(c.tags.deep_view() == merge_tags(t0, a));
                }
                self.items.set(k, c);
                proof {
                    assert(self@ =~= with_tags(s, id, merge_tags(t0, a))) by {
                        assert(forall|j2: int|
                            0 <= j2 < self.items@.len() ==> self@[j2] == self.items@[
                                j2
                            ].deep_view());
                    }
                }
                Ok(())
            },
            None => Err(StoreError::NotFound),
        }
    }

    /// Removes each given tag from the entry carrying `id`; removing an
    /// absent tag is a no-op.  Fails exactly when no entry carries that
    /// identifier.
    pub fn remove_tags(&mut self, id: u128, tags: Vec<String>) -> (r: Result<(), StoreError>)
        requires
            old(self).inv(),
        ensures
            final(self).inv(),
            contains_id(old(self)@, id) ==> r is Ok && final(self)@ == with_tags(
                old(self)@,
                id,
                drop_tags(old(self)@[idx_of(old(self)@, id)].tags, tags.deep_view()),
            ),
            !contains_id(old(self)@, id) ==> r == Err::<(), StoreError>(StoreError::NotFound)
                && final(self)@ == old(self)@,
    {
        let ghost s = self@;
        match self.find_index(id) {
            Some(k) => {
                proof {
                    assert(s[k as int] == self.items@[k as int].deep_view());
                    assert(s[idx_of(s, id)].id == id);
                    assert(idx_of(s, id) == k as int);
                }
                let mut c = self.items[k].clone();
                let ghost t0 = c.tags.deep_view();
                let ghost a = tags.deep_view();
                let mut kept: Vec<String> = Vec::new();
                let mut j: usize = 0;
                while j < c.tags.len()
                    invariant
                        0 <= j <= c.tags.len(),
                        a == tags.deep_view(),
                        t0 == c.tags.deep_view(),
                        t0.len() == c.tags@.len(),
                        kept.deep_view() =~= t0.take(j as int).filter(tag_keeper(a)),
                    decreases c.tags.len() - j,
                {
                    proof {
                        assert(t0[j as int] == c.tags@[j as int].deep_view());
                        assert(t0.take(j + 1).drop_last() =~= t0.take(j as int));
                        assert(t0.take(j + 1) =~= t0.take(j as int).push(t0[j as int]));
                        lemma_filter_push(t0.take(j as int), t0[j as int], tag_keeper(a));
                    }
                    if !contains_string(&tags, &c.tags[j]) {
                        kept.push(c.tags[j].clone());
                    }
                    j = j + 1;
                }
                proof {
                    assert(t0.take(t0.len() as int) =~= t0);
                    assert(kept.deep_view() == drop_tags(t0, a));
                    crate::model::lemma_no_dup_filter(t0, tag_keeper(a));
                }
                c.tags = kept;
                self.items.set(k, c);
                proof {
                    assert(self@ =~= with_tags(s, id, drop_tags(t0, a))) by {
                        assert(forall|j2: int|
                            0 <= j2 < self.items@.len() ==> self@[j2] == self.items@[
                                j2
                            ].deep_view());
                    }
                }
                Ok(())
            },
            None => Err(StoreError::NotFound),
        }
    }
}

/// Whether one of the strings in `v` reads `x`.
pub fn contains_string(v: &Vec<String>, x: &String) -> (r: bool)
    ensures
        r == v.deep_view().contains(x@),
{
    let mut i: usize = 0;
    while i < v.len()
        invariant
            0 <= i <= v@.len(),
            forall|j: int| 0 <= j < i ==> v.deep_view()[j] != x@,
        decreases v@.len() - i,
    {
        proof {
            assert(v.deep_view()[i as int] == v@[i as int].deep_view());
        }
        if v[i] == *x {
            proof {
                assert(v.deep_view()[i as int] == x@);
            }
            return true;
        }
        i = i + 1;
    }
    false
}

} // verus!

verus! {

// ---------------------------------------------------------------------------
// Retention cleanup and statistics.
// ---------------------------------------------------------------------------

/// The moment before which unprotected entries are removed.
pub open spec fn cleanup_cutoff(now: i64, keep_days: u32) -> int {
    now - keep_days * 86400
}

/// What survives a cleanup with this cutoff: favorites, pinned entries,
/// and anything captured at or after the cutoff.
pub open spec fn retained(cutoff: int) -> spec_fn(ItemModel) -> bool {
    |m: ItemModel| m.favorite || m.pinned || m.timestamp >= cutoff
}

pub open spec fn cleaned(s: Seq<ItemModel>, now: i64, keep_days: u32) -> Seq<ItemModel> {
    s.filter(retained(cleanup_cutoff(now, keep_days)))
}

pub open spec fn count_where(s: Seq<ItemModel>, pred: spec_fn(ItemModel) -> bool) -> int {
    s.filter(pred).len() as int
}

pub open spec fn type_pred(ct: crate::model::ContentType) -> spec_fn(ItemModel) -> bool {
    |m: ItemModel| crate::model::content_type_of(m.content) == ct
}

pub open spec fn fav_pred() -> spec_fn(ItemModel) -> bool {
    |m: ItemModel| m.favorite
}

pub open spec fn pin_pred() -> spec_fn(ItemModel) -> bool {
    |m: ItemModel| m.pinned
}

/// The summed payload size of a sequence of entries.
pub open spec fn sizes_sum(s: Seq<ItemModel>) -> int
    decreases s.len(),
{
    if s.len() == 0 {
        0
    } else {
        sizes_sum(s.drop_last()) + crate::model::item_size(s.last())
    }
}

pub proof fn lemma_item_size_nonneg(m: ItemModel)
    ensures
        crate::model::item_size(m) >= 0,
{
    if m.content is FileList {
        crate::model::lemma_files_size_nonneg(m.content->FileList_0);
    }
}

pub proof fn lemma_sizes_sum_nonneg(s: Seq<ItemModel>)
    ensures
        sizes_sum(s) >= 0,
    decreases s.len(),
{
    if s.len() > 0 {
        lemma_sizes_sum_nonneg(s.drop_last());
        lemma_item_size_nonneg(s.last());
    }
}

pub proof fn lemma_sizes_sum_push(s: Seq<ItemModel>, x: ItemModel)
    ensures
        sizes_sum(s.push(x)) == sizes_sum(s) + crate::model::item_size(x),
{
    assert(s.push(x).drop_last() =~= s);
    assert(s.push(x).last() == x);
}

impl Database {
    /// Removes every entry that is neither favorite nor pinned and was
    /// captured before `now` minus `keep_days` days; returns how many were
    /// removed.  Protected entries stay whatever their age.
    pub fn cleanup_at(&mut self, keep_days: u32, now: i64) -> (r: u32)
        requires
            old(self).inv(),
        ensures
            final(self).inv(),
            final(self)@ == cleaned(old(self)@, now, keep_days),
            r == old(self)@.len() - final(self)@.len(),
    {
        let ghost s = self@;
        let ghost cutoff = cleanup_cutoff(now, keep_days);
        let cut: i128 = now as i128 - (keep_days as i128) * 86400;
        proof {
            assert(cut == cutoff);
        }
        let mut kept: Vec<ClipboardItem> = Vec::new();
        let mut i: usize = 0;
        while i < self.items.len()
            invariant
                0 <= i <= s.len(),
                s == self@,
                s.len() == self.items@.len(),
                cut == cutoff,
                kept.deep_view() =~= s.take(i as int).filter(retained(cutoff)),
            decreases s.len() - i,
        {
            proof {
                assert(s[i as int] == self.items@[i as int].deep_view());
                assert(s.take(i + 1) =~= s.take(i as int).push(s[i as int]));
                lemma_filter_push(s.take(i as int), s[i as int], retained(cutoff));
            }
            let it = &self.items[i];
            let keep = it.favorite || it.pinned || (it.timestamp as i128) >= cut;
            proof {
                assert(keep == retained(cutoff)(s[i as int]));
            }
            if keep {
                let ghost prev = kept.deep_view();
                kept.push(self.items[i].clone());
                proof {
                    assert(kept.deep_view() =~= prev.push(s[i as int]));
                }
            }
            i = i + 1;
        }
        proof {
            assert(s.take(s.len() as int) =~= s);
            assert(kept.deep_view() == cleaned(s, now, keep_days));
            assert(kept.deep_view().len() <= s.len()) by {
                s.lemma_filter_len(retained(cutoff));
            }
            assert(kept@.len() == kept.deep_view().len());
        }
        let removed = self.items.len() - kept.len();
        self.items = kept;
        proof {
            lemma_filter_store_props(s, retained(cutoff));
        }
        removed as u32
    }

    /// Retention cleanup against the wall clock; the stated effect holds
    /// for whatever the clock read.
    pub fn cleanup_old_items(&mut self, keep_days: u32) -> (r: u32)
        requires
            old(self).inv(),
        ensures
            final(self).inv(),
            exists|t: i64|
                final(self)@ == #[trigger] cleaned(old(self)@, t, keep_days) && r == old(
                    self,
                )@.len() - final(self)@.len(),
    {
        let t = now_ts();
        let ghost s = self@;
        let r = self.cleanup_at(keep_days, t);
        proof {
            assert(self@ == cleaned(s, t, keep_days));
        }
        r
    }

    /// Full-table aggregate counts.  The on-disk sizes are supplied by the
    /// persistence layer that mirrors this store and are passed through
    /// unchanged.
    pub fn get_statistics(&self, database_size_bytes: u64, cache_size_bytes: u64) -> (st:
        crate::model::Statistics)
        requires
            self.inv(),
        ensures
            st.total_items == self@.len(),
            st.text_items == count_where(self@, type_pred(crate::model::ContentType::Text)),
            st.image_items == count_where(self@, type_pred(crate::model::ContentType::Image)),
            st.file_items == count_where(self@, type_pred(crate::model::ContentType::File)),
            st.html_items == count_where(self@, type_pred(crate::model::ContentType::Html)),
            st.favorite_items == count_where(self@, fav_pred()),
            st.pinned_items == count_where(self@, pin_pred()),
            st.total_size_bytes as int == if sizes_sum(self@) <= u64::MAX {
                sizes_sum(self@)
            } else {
                u64::MAX as int
            },
            st.database_size_bytes == database_size_bytes,
            st.cache_size_bytes == cache_size_bytes,
    {
        let ghost s = self@;
        let mut text_items: u32 = 0;
        let mut image_items: u32 = 0;
        let mut file_items: u32 = 0;
        let mut html_items: u32 = 0;
        let mut favorite_items: u32 = 0;
        let mut pinned_items: u32 = 0;
        let mut total_size: u64 = 0;
        let mut i: usize = 0;
        while i < self.items.len()
            invariant
                0 <= i <= s.len(),
                s == self@,
                s.len() == self.items@.len(),
                s.len() <= 0xFFFF_FFFF,
                text_items == count_where(s.take(i as int), type_pred(crate::model::ContentType::Text)),
                image_items == count_where(s.take(i as int), type_pred(crate::model::ContentType::Image)),
                file_items == count_where(s.take(i as int), type_pred(crate::model::ContentType::File)),
                html_items == count_where(s.take(i as int), type_pred(crate::model::ContentType::Html)),
                favorite_items == count_where(s.take(i as int), fav_pred()),
                pinned_items == count_where(s.take(i as int), pin_pred()),
                text_items <= i && image_items <= i && file_items <= i && html_items <= i
                    && favorite_items <= i && pinned_items <= i,
                total_size as int == if sizes_sum(s.take(i as int)) <= u64::MAX {
                    sizes_sum(s.take(i as int))
                } else {
                    u64::MAX as int
                },
            decreases s.len() - i,
        {
            proof {
                assert(s[i as int] == self.items@[i as int].deep_view());
                assert(s.take(i + 1) =~= s.take(i as int).push(s[i as int]));
                lemma_filter_push(s.take(i as int), s[i as int], type_pred(crate::model::ContentType::Text));
                lemma_filter_push(s.take(i as int), s[i as int], type_pred(crate::model::ContentType::Image));
                lemma_filter_push(s.take(i as int), s[i as int], type_pred(crate::model::ContentType::File));
                lemma_filter_push(s.take(i as int), s[i as int], type_pred(crate::model::ContentType::Html));
                lemma_filter_push(s.take(i as int), s[i as int], fav_pred());
                lemma_filter_push(s.take(i as int), s[i as int], pin_pred());
                lemma_sizes_sum_push(s.take(i as int), s[i as int]);
                lemma_sizes_sum_nonneg(s.take(i as int));
                lemma_item_size_nonneg(s[i as int]);
                s.take(i + 1).lemma_filter_len(type_pred(crate::model::ContentType::Text));
                s.take(i + 1).lemma_filter_len(type_pred(crate::model::ContentType::Image));
                s.take(i + 1).lemma_filter_len(type_pred(crate::model::ContentType::File));
                s.take(i + 1).lemma_filter_len(type_pred(crate::model::ContentType::Html));
                s.take(i + 1).lemma_filter_len(fav_pred());
                s.take(i + 1).lemma_filter_len(pin_pred());
            }
            match crate::model::content_type_exec(&self.items[i].content) {
                crate::model::ContentType::Text => {
                    text_items = text_items + 1;
                },
                crate::model::ContentType::Image => {
                    image_items = image_items + 1;
                },
                crate::model::ContentType::File => {
                    file_items = file_items + 1;
                },
                crate::model::ContentType::Html => {
                    html_items = html_items + 1;
                },
                _ => {},
            }
            if self.items[i].favorite {
                favorite_items = favorite_items + 1;
            }
            if self.items[i].pinned {
                pinned_items = pinned_items + 1;
            }
            let m = crate::model::measure_item(&self.items[i]);
            total_size = crate::model::sat_add_u64(total_size, m);
            i = i + 1;
        }
        proof {
            assert(s.take(s.len() as int) =~= s);
            assert(s.len() == self.items@.len());
        }
        let total = self.items.len();
        crate::model::Statistics {
            total_items: total as u32,
            text_items,
            image_items,
            file_items,
            html_items,
            favorite_items,
            pinned_items,
            total_size_bytes: total_size,
            database_size_bytes,
            cache_size_bytes,
        }
    }
}

} // verus!

verus! {

// ---------------------------------------------------------------------------
// Laws: the properties the store guarantees, proved once and for all.
// ---------------------------------------------------------------------------

/// Inserting a fresh, well-formed entry into a well-formed store keeps the
/// store well-formed, grows it by one, keeps every old entry, and stores
/// the new entry itself.
pub proof fn lemma_insert_sorted_props(s: Seq<ItemModel>, m: ItemModel)
    requires
        sorted_newest_first(s),
        ids_unique(s),
        all_valid(s),
        valid_item(m),
        !contains_id(s, m.id),
    ensures
        insert_sorted(s, m).len() == s.len() + 1,
        insert_sorted(s, m).contains(m),
        sorted_newest_first(insert_sorted(s, m)),
        ids_unique(insert_sorted(s, m)),
        all_valid(insert_sorted(s, m)),
        forall|x: ItemModel| s.contains(x) ==> insert_sorted(s, m).contains(x),
{
    lemma_insert_pos_props(s, m.timestamp);
    let p = insert_pos(s, m.timestamp);
    let r = insert_sorted(s, m);
    assert(forall|j: int| 0 <= j < p ==> r[j] == s[j]);
    assert(r[p] == m);
    assert(forall|j: int| p < j < r.len() ==> r[j] == s[j - 1]);
    assert(r.contains(m));
    assert forall|a: int, b: int| 0 <= a <= b < r.len() implies r[a].timestamp
        >= r[b].timestamp by {
        if a < p && b == p {
            assert(r[a] == s[a]);
        } else if a == p && b > p {
            assert(r[b] == s[b - 1]);
            assert(s[b - 1].timestamp <= m.timestamp) by {
                if b - 1 >= p && p < s.len() {
                    assert(s[p].timestamp <= m.timestamp);
                    assert(s[p].timestamp >= s[b - 1].timestamp);
                }
            }
        }
    }
    assert forall|a: int, b: int| 0 <= a < b < r.len() implies r[a].id != r[b].id by {
        let a0 = if a < p {
            a
        } else {
            a - 1
        };
        let b0 = if b < p {
            b
        } else {
            b - 1
        };
        if a == p {
            assert(r[b] == s[b0] && s[b0].id != m.id);
        } else if b == p {
            assert(r[a] == s[a0] && s[a0].id != m.id);
        } else {
            assert(r[a] == s[a0] && r[b] == s[b0]);
        }
    }
    assert forall|a: int| 0 <= a < r.len() implies valid_item(r[a]) by {
        if a < p {
            assert(r[a] == s[a]);
        } else if a > p {
            assert(r[a] == s[a - 1]);
        }
    }
    assert forall|x: ItemModel| s.contains(x) implies r.contains(x) by {
        let w = choose|w: int| 0 <= w < s.len() && s[w] == x;
        if w < p {
            assert(r[w] == x);
        } else {
            assert(r[w + 1] == x);
        }
    }
}

/// Two captures sharing a preview within the five-second window: the
/// second save is absorbed, and exactly the first entry stands.
pub proof fn lemma_near_dup_save_absorbed(
    s: Seq<ItemModel>,
    m1: ItemModel,
    m2: ItemModel,
    t1: i64,
    t2: i64,
)
    requires
        sorted_newest_first(s),
        ids_unique(s),
        all_valid(s),
        valid_item(m1),
        !contains_id(s, m1.id),
        !has_near_dup(s, m1.preview_text, t1),
        m2.preview_text == m1.preview_text,
        m1.timestamp > t2 - 5,
    ensures
        saved(saved(s, m1, t1), m2, t2) == saved(s, m1, t1),
        saved(s, m1, t1).len() == s.len() + 1,
{
    lemma_remove_id_absent(s, m1.id);
    let s1 = saved(s, m1, t1);
    lemma_insert_sorted_props(s, m1);
    let w = choose|w: int| 0 <= w < s1.len() && s1[w] == m1;
    assert(s1[w].preview_text == m2.preview_text && s1[w].timestamp > t2 - 5);
    assert(has_near_dup(s1, m2.preview_text, t2));
}

/// Two captures sharing a preview but more than five seconds apart, into
/// an empty store: both entries stand.
pub proof fn lemma_spaced_saves_kept(m1: ItemModel, m2: ItemModel, t1: i64, t2: i64)
    requires
        valid_item(m1),
        valid_item(m2),
        m1.id != m2.id,
        m2.preview_text == m1.preview_text,
        m1.timestamp <= t2 - 5,
    ensures
        saved(saved(Seq::<ItemModel>::empty(), m1, t1), m2, t2).len() == 2,
{
    let e = Seq::<ItemModel>::empty();
    lemma_remove_id_absent(e, m1.id);
    lemma_insert_sorted_props(e, m1);
    let s1 = saved(e, m1, t1);
    assert(s1.len() == 1);
    assert(s1.contains(m1));
    let w = choose|w: int| 0 <= w < s1.len() && s1[w] == m1;
    assert(w == 0);
    assert(s1[0] == m1);
    assert(!has_near_dup(s1, m2.preview_text, t2)) by {
        assert(forall|i: int| 0 <= i < s1.len() ==> s1[i] == m1);
        assert(!(m1.timestamp > t2 - 5));
    }
    assert(forall|i: int| 0 <= i < s1.len() ==> s1[i].id != m2.id);
    lemma_remove_id_absent(s1, m2.id);
    assert(sorted_newest_first(s1) && ids_unique(s1) && all_valid(s1));
    lemma_insert_sorted_props(s1, m2);
}

/// Round trip: a freshly saved entry is read back by its identifier
/// unchanged in every field.
pub proof fn lemma_save_then_get(s: Seq<ItemModel>, m: ItemModel, now: i64)
    requires
        sorted_newest_first(s),
        ids_unique(s),
        all_valid(s),
        valid_item(m),
        !contains_id(s, m.id),
        !has_near_dup(s, m.preview_text, now),
    ensures
        contains_id(saved(s, m, now), m.id),
        saved(s, m, now)[idx_of(saved(s, m, now), m.id)] == m,
{
    lemma_remove_id_absent(s, m.id);
    lemma_insert_sorted_props(s, m);
    let r = saved(s, m, now);
    let j = choose|j: int| 0 <= j < r.len() && r[j] == m;
    assert(r[j].id == m.id);
    assert(contains_id(r, m.id));
    let k = idx_of(r, m.id);
    assert(0 <= k < r.len() && r[k].id == m.id);
    assert(j == k);
}

/// Every stored entry shows a non-empty preview: the preview is derived
/// from the content, and no content derives an empty one.
pub proof fn lemma_stored_previews_nonempty(s: Seq<ItemModel>)
    requires
        all_valid(s),
    ensures
        forall|i: int| 0 <= i < s.len() ==> (#[trigger] s[i]).preview_text.len() > 0,
{
    assert forall|i: int| 0 <= i < s.len() implies (#[trigger] s[i]).preview_text.len() > 0 by {
        assert(valid_item(s[i]));
        crate::model::lemma_preview_nonempty(s[i].content);
    }
}

/// Removing tags, none of which are present, changes nothing.
pub proof fn lemma_drop_tags_disjoint(t: Seq<Seq<char>>, rem: Seq<Seq<char>>)
    requires
        forall|i: int| 0 <= i < t.len() ==> !rem.contains(#[trigger] t[i]),
    ensures
        drop_tags(t, rem) == t,
    decreases t.len(),
{
    reveal_with_fuel(Seq::filter, 1);
    if t.len() == 0 {
        assert(drop_tags(t, rem) =~= t);
    } else {
        let head = t.drop_last();
        assert(forall|j: int| 0 <= j < head.len() ==> head[j] == t[j]);
        lemma_drop_tags_disjoint(head, rem);
        assert(tag_keeper(rem)(t.last()));
        assert(t.filter(tag_keeper(rem)) == head.filter(tag_keeper(rem)).push(t.last()));
        assert(drop_tags(t, rem) =~= t);
    }
}

/// Removing a set that covers everything just added undoes the addition.
pub proof fn lemma_drop_merge(t: Seq<Seq<char>>, add: Seq<Seq<char>>, rem: Seq<Seq<char>>)
    requires
        forall|i: int| 0 <= i < add.len() ==> rem.contains(#[trigger] add[i]),
    ensures
        drop_tags(merge_tags(t, add), rem) == drop_tags(t, rem),
    decreases add.len(),
{
    if add.len() > 0 {
        let t1 = if t.contains(add[0]) {
            t
        } else {
            t.push(add[0])
        };
        assert(forall|i: int|
            0 <= i < add.drop_first().len() ==> rem.contains(#[trigger] add.drop_first()[i]))
            by {
            assert(forall|i: int|
                0 <= i < add.drop_first().len() ==> add.drop_first()[i] == add[i + 1]);
        }
        lemma_drop_merge(t1, add.drop_first(), rem);
        if !t.contains(add[0]) {
            lemma_filter_push(t, add[0], tag_keeper(rem));
            assert(rem.contains(add[0]));
            assert(!tag_keeper(rem)(add[0]));
            assert(drop_tags(t1, rem) =~= drop_tags(t, rem));
        }
        assert(merge_tags(t, add) == merge_tags(t1, add.drop_first()));
    }
}

/// `add_tags` then `remove_tags` with the same tag set returns the tags to
/// their original value.  A tag both originally present and in the set
/// would be removed by the second step, so the set must be previously
/// absent.
pub proof fn lemma_add_then_remove_tags(t: Seq<Seq<char>>, tag_set: Seq<Seq<char>>)
    requires
        forall|i: int| 0 <= i < t.len() ==> !tag_set.contains(#[trigger] t[i]),
    ensures
        drop_tags(merge_tags(t, tag_set), tag_set) == t,
{
    assert(forall|i: int| 0 <= i < tag_set.len() ==> tag_set.contains(#[trigger] tag_set[i]));
    lemma_drop_merge(t, tag_set, tag_set);
    lemma_drop_tags_disjoint(t, tag_set);
}

/// Merging never creates a duplicate tag.
pub proof fn lemma_merge_no_dup(t: Seq<Seq<char>>, add: Seq<Seq<char>>)
    requires
        crate::model::no_dup_strings(t),
    ensures
        crate::model::no_dup_strings(merge_tags(t, add)),
    decreases add.len(),
{
    if add.len() > 0 {
        let t1 = if t.contains(add[0]) {
            t
        } else {
            t.push(add[0])
        };
        assert(crate::model::no_dup_strings(t1)) by {
            if !t.contains(add[0]) {
                assert(forall|j: int| 0 <= j < t.len() ==> t1[j] == t[j]);
                assert(forall|j: int| 0 <= j < t.len() ==> t[j] != add[0]);
            }
        }
        lemma_merge_no_dup(t1, add.drop_first());
    }
}

/// Applying `add_tags` twice, with any overlap between the two sets,
/// still leaves the tags duplicate-free.
pub proof fn lemma_add_twice_no_dup(t: Seq<Seq<char>>, s1: Seq<Seq<char>>, s2: Seq<Seq<char>>)
    requires
        crate::model::no_dup_strings(t),
    ensures
        crate::model::no_dup_strings(merge_tags(merge_tags(t, s1), s2)),
{
    lemma_merge_no_dup(t, s1);
    lemma_merge_no_dup(merge_tags(t, s1), s2);
}

/// Retention never removes a protected entry: everything old that remains
/// is favorite or pinned, everything protected or recent remains, and
/// everything removed was unprotected and old.
pub proof fn lemma_cleanup_protects(s: Seq<ItemModel>, now: i64, keep_days: u32)
    ensures
        forall|i: int|
            0 <= i < cleaned(s, now, keep_days).len() ==> ((#[trigger] cleaned(
                s,
                now,
                keep_days,
            )[i]).timestamp < cleanup_cutoff(now, keep_days) ==> (cleaned(s, now, keep_days)[i].favorite
                || cleaned(s, now, keep_days)[i].pinned)),
        forall|i: int|
            0 <= i < s.len() && ((#[trigger] s[i]).favorite || s[i].pinned || s[i].timestamp
                >= cleanup_cutoff(now, keep_days)) ==> cleaned(s, now, keep_days).contains(s[i]),
        forall|i: int|
            0 <= i < s.len() && !(#[trigger] s[i]).favorite && !s[i].pinned && s[i].timestamp
                < cleanup_cutoff(now, keep_days) ==> !cleaned(s, now, keep_days).contains(s[i]),
{
    let cutoff = cleanup_cutoff(now, keep_days);
    let pred = retained(cutoff);
    let f = s.filter(pred);
    assert forall|i: int|
        0 <= i < f.len() && (#[trigger] f[i]).timestamp < cutoff implies f[i].favorite
        || f[i].pinned by {
        s.lemma_filter_pred(pred, i);
        assert(pred(f[i]));
    }
    assert forall|i: int|
        0 <= i < s.len() && ((#[trigger] s[i]).favorite || s[i].pinned || s[i].timestamp
            >= cutoff) implies f.contains(s[i]) by {
        assert(pred(s[i]));
        s.lemma_filter_contains(pred, i);
    }
    assert forall|i: int|
        0 <= i < s.len() && !(#[trigger] s[i]).favorite && !s[i].pinned && s[i].timestamp
            < cutoff implies !f.contains(s[i]) by {
        if f.contains(s[i]) {
            let w = choose|w: int| 0 <= w < f.len() && f[w] == s[i];
            s.lemma_filter_pred(pred, w);
            assert(pred(s[i]));
        }
    }
}

/// The statistics counters partition the store: the per-type counts of the
/// four named types plus the remaining types sum to the total, and no
/// protection count exceeds the total.
pub proof fn lemma_statistics_partition(s: Seq<ItemModel>)
    ensures
        s.len() == count_where(s, type_pred(crate::model::ContentType::Text)) + count_where(
            s,
            type_pred(crate::model::ContentType::Image),
        ) + count_where(s, type_pred(crate::model::ContentType::File)) + count_where(
            s,
            type_pred(crate::model::ContentType::Html),
        ) + count_where(s, type_pred(crate::model::ContentType::RichText)) + count_where(
            s,
            type_pred(crate::model::ContentType::Custom),
        ),
        count_where(s, fav_pred()) <= s.len(),
        count_where(s, pin_pred()) <= s.len(),
    decreases s.len(),
{
    s.lemma_filter_len(fav_pred());
    s.lemma_filter_len(pin_pred());
    if s.len() == 0 {
        reveal_with_fuel(Seq::filter, 1);
        assert(count_where(s, type_pred(crate::model::ContentType::Text)) == 0);
        assert(count_where(s, type_pred(crate::model::ContentType::Image)) == 0);
        assert(count_where(s, type_pred(crate::model::ContentType::File)) == 0);
        assert(count_where(s, type_pred(crate::model::ContentType::Html)) == 0);
        assert(count_where(s, type_pred(crate::model::ContentType::RichText)) == 0);
        assert(count_where(s, type_pred(crate::model::ContentType::Custom)) == 0);
    } else {
        let head = s.drop_last();
        lemma_statistics_partition(head);
        assert(s =~= head.push(s.last()));
        lemma_filter_push(head, s.last(), type_pred(crate::model::ContentType::Text));
        lemma_filter_push(head, s.last(), type_pred(crate::model::ContentType::Image));
        lemma_filter_push(head, s.last(), type_pred(crate::model::ContentType::File));
        lemma_filter_push(head, s.last(), type_pred(crate::model::ContentType::Html));
        lemma_filter_push(head, s.last(), type_pred(crate::model::ContentType::RichText));
        lemma_filter_push(head, s.last(), type_pred(crate::model::ContentType::Custom));
    }
}

} // verus!

verus! {

// ---------------------------------------------------------------------------
// Search: free-text, tag, date-range, type and flag filters with
// newest-first results and pagination.
// ---------------------------------------------------------------------------

/// `needle` occurs contiguously somewhere in `hay`.
pub open spec fn contains_sub(hay: Seq<char>, needle: Seq<char>) -> bool {
    exists|k: int|
        0 <= k <= hay.len() - needle.len() && #[trigger] hay.subrange(k, k + needle.len())
            == needle
}

pub open spec fn content_text_match(c: crate::model::ContentModel, t: Seq<char>) -> bool {
    match c {
        crate::model::ContentModel::Text(s) => contains_sub(s, t),
        crate::model::ContentModel::Html(s) => contains_sub(s, t),
        crate::model::ContentModel::RichText(s) => contains_sub(s, t),
        _ => false,
    }
}

/// When an entry satisfies a query: free text occurs in its preview or its
/// textual content, it carries every queried tag, its capture time lies in
/// the queried range, its type is among the queried types, and it honors
/// the favorite-only and pinned-only restrictions.
/// The entry carries every queried tag.
pub open spec fn tags_superset(item_tags: Seq<Seq<char>>, queried: Seq<Seq<char>>) -> bool {
    forall|i: int| 0 <= i < queried.len() ==> item_tags.contains(#[trigger] queried[i])
}

pub open spec fn matches_query(m: ItemModel, q: crate::model::QueryModel) -> bool {
    &&& match q.text {
        Some(t) => contains_sub(m.preview_text, t) || content_text_match(m.content, t),
        None => true,
    }
    &&& tags_superset(m.tags, q.tags)
    &&& match q.date_from {
        Some(d) => m.timestamp >= d,
        None => true,
    }
    &&& match q.date_to {
        Some(d) => m.timestamp <= d,
        None => true,
    }
    &&& (q.content_types.len() > 0 ==> q.content_types.contains(
        crate::model::content_type_of(m.content),
    ))
    &&& (q.favorite_only ==> m.favorite)
    &&& (q.pinned_only ==> m.pinned)
}

pub open spec fn query_pred(q: crate::model::QueryModel) -> spec_fn(ItemModel) -> bool {
    |m: ItemModel| matches_query(m, q)
}

/// Pagination: drop `offset` leading results, then keep at most `limit`.
pub open spec fn page(s: Seq<ItemModel>, offset: int, limit: Option<u32>) -> Seq<ItemModel> {
    let dropped = if offset <= s.len() {
        s.skip(offset)
    } else {
        Seq::<ItemModel>::empty()
    };
    match limit {
        Some(l) => if (l as int) <= dropped.len() {
            dropped.take(l as int)
        } else {
            dropped
        },
        None => dropped,
    }
}

pub open spec fn offset_of(q: crate::model::QueryModel) -> int {
    match q.offset {
        Some(o) => o as int,
        None => 0,
    }
}

/// The full meaning of a search: the matching entries in stored
/// (newest-first) order, paginated.
pub open spec fn query_results(s: Seq<ItemModel>, q: crate::model::QueryModel) -> Seq<
    ItemModel,
> {
    page(s.filter(query_pred(q)), offset_of(q), q.limit)
}

/// Whether `needle` occurs contiguously in `hay`.
pub fn contains_str(hay: &str, needle: &str) -> (r: bool)
    ensures
        r == contains_sub(hay@, needle@),
{
    let n = hay.unicode_len();
    let m = needle.unicode_len();
    if m > n {
        proof {
            assert(!contains_sub(hay@, needle@));
        }
        return false;
    }
    let mut k: usize = 0;
    while k <= n - m
        invariant
            m <= n,
            n == hay@.len(),
            m == needle@.len(),
            0 <= k <= n - m + 1,
            forall|k2: int| 0 <= k2 < k ==> #[trigger] hay@.subrange(k2, k2 + m) != needle@,
        decreases n - m - k + 1,
    {
        let mut j: usize = 0;
        while j < m && hay.get_char(k + j) == needle.get_char(j)
            invariant
                0 <= j <= m,
                k + m <= n,
                n == hay@.len(),
                m == needle@.len(),
                forall|j2: int| 0 <= j2 < j ==> hay@[k + j2] == needle@[j2],
            decreases m - j,
        {
            j = j + 1;
        }
        if j == m {
            proof {
                assert(hay@.subrange(k as int, k + m) =~= needle@);
            }
            return true;
        }
        proof {
            assert(hay@[k + j] != needle@[j as int]);
            assert(hay@.subrange(k as int, k + m) != needle@) by {
                assert(hay@.subrange(k as int, k + m)[j as int] == hay@[k + j]);
            }
        }
        k = k + 1;
    }
    proof {
        assert forall|k2: int| 0 <= k2 <= n - m implies #[trigger] hay@.subrange(k2, k2 + m)
            != needle@ by {
            assert(k2 < k);
        }
    }
    false
}

/// Whether the entry carries every one of the queried tags.
pub fn has_all_tags(item_tags: &Vec<String>, queried: &Vec<String>) -> (r: bool)
    ensures
        r == tags_superset(item_tags.deep_view(), queried.deep_view()),
{
    let mut i: usize = 0;
    while i < queried.len()
        invariant
            0 <= i <= queried@.len(),
            queried.deep_view().len() == queried@.len(),
            forall|j: int|
                0 <= j < i ==> item_tags.deep_view().contains(#[trigger] queried.deep_view()[j]),
        decreases queried@.len() - i,
    {
        proof {
            assert(queried.deep_view()[i as int] == queried@[i as int].deep_view());
        }
        if !contains_string(item_tags, &queried[i]) {
            return false;
        }
        i = i + 1;
    }
    true
}

fn types_contain(v: &Vec<crate::model::ContentType>, ct: crate::model::ContentType) -> (r: bool)
    ensures
        r == v.deep_view().contains(ct),
{
    let mut i: usize = 0;
    while i < v.len()
        invariant
            0 <= i <= v@.len(),
            v.deep_view().len() == v@.len(),
            forall|j: int| 0 <= j < i ==> v.deep_view()[j] != ct,
        decreases v@.len() - i,
    {
        proof {
            assert(v.deep_view()[i as int] == v@[i as int]);
        }
        if v[i] == ct {
            return true;
        }
        i = i + 1;
    }
    false
}

/// Whether one entry satisfies one query; executable side of
/// `matches_query`.
pub fn item_matches(it: &ClipboardItem, q: &crate::model::SearchQuery) -> (r: bool)
    ensures
        r == matches_query(it@, q@),
{
    let text_ok = match &q.text {
        Some(t) => {
            let in_preview = contains_str(it.preview_text.as_str(), t.as_str());
            let in_content = match &it.content {
                crate::model::ClipboardContent::Text(s) => contains_str(s.as_str(), t.as_str()),
                crate::model::ClipboardContent::Html(s) => contains_str(s.as_str(), t.as_str()),
                crate::model::ClipboardContent::RichText(s) => contains_str(
                    s.as_str(),
                    t.as_str(),
                ),
                _ => false,
            };
            proof {
                assert(q@.text == Some(t@));
                assert(in_preview == contains_sub(it@.preview_text, t@));
                assert(in_content == content_text_match(it@.content, t@));
            }
            in_preview || in_content
        },
        None => true,
    };
    let tags_ok = has_all_tags(&it.tags, &q.tags);
    let from_ok = match q.date_from {
        Some(d) => it.timestamp >= d,
        None => true,
    };
    let to_ok = match q.date_to {
        Some(d) => it.timestamp <= d,
        None => true,
    };
    let type_ok = if q.content_types.len() > 0 {
        proof {
            assert(q.content_types.deep_view().len() == q.content_types@.len());
        }
        types_contain(&q.content_types, crate::model::content_type_exec(&it.content))
    } else {
        proof {
            assert(q.content_types.deep_view().len() == q.content_types@.len());
        }
        true
    };
    let fav_ok = !q.favorite_only || it.favorite;
    let pin_ok = !q.pinned_only || it.pinned;
    text_ok && tags_ok && from_ok && to_ok && type_ok && fav_ok && pin_ok
}

pub proof fn lemma_skip_push(t: Seq<ItemModel>, x: ItemModel, off: int)
    requires
        0 <= off <= t.len(),
    ensures
        (t.push(x)).skip(off) == t.skip(off).push(x),
{
    assert((t.push(x)).skip(off) =~= t.skip(off).push(x));
}

impl Database {
    /// Runs one query: composes the text, tag, date, type and flag filters
    /// over the stored (newest-first) entries and applies pagination.
    pub fn search_items(&self, query: &crate::model::SearchQuery) -> (r: Vec<ClipboardItem>)
        requires
            self.inv(),
        ensures
            r.deep_view() == query_results(self@, query@),
    {
        let ghost s = self@;
        let ghost q = query@;
        let ghost pred = query_pred(q);
        let off: usize = match query.offset {
            Some(o) => o as usize,
            None => 0,
        };
        proof {
            assert(off as int == offset_of(q));
        }
        let mut out: Vec<ClipboardItem> = Vec::new();
        let mut matched: usize = 0;
        let mut i: usize = 0;
        while i < self.items.len()
            invariant
                0 <= i <= s.len(),
                s == self@,
                q == query@,
                pred == query_pred(q),
                off as int == offset_of(q),
                s.len() == self.items@.len(),
                matched == s.take(i as int).filter(pred).len(),
                out.deep_view() =~= page(s.take(i as int).filter(pred), off as int, q.limit),
            decreases s.len() - i,
        {
            let ghost f0 = s.take(i as int).filter(pred);
            proof {
                assert(s[i as int] == self.items@[i as int].deep_view());
                assert(s.take(i + 1) =~= s.take(i as int).push(s[i as int]));
                lemma_filter_push(s.take(i as int), s[i as int], pred);
            }
            if item_matches(&self.items[i], query) {
                proof {
                    assert(pred(s[i as int]));
                    assert(s.take(i + 1).filter(pred) == f0.push(s[i as int]));
                }
                let within_limit = match query.limit {
                    Some(l) => out.len() < l as usize,
                    None => true,
                };
                if matched >= off && within_limit {
                    let ghost prev = out.deep_view();
                    out.push(self.items[i].clone());
                    proof {
                        assert(out.deep_view() =~= prev.push(s[i as int]));
                        lemma_skip_push(f0, s[i as int], off as int);
                        assert(page(f0.push(s[i as int]), off as int, q.limit) =~= out.deep_view())
                            by {
                            let d0 = f0.skip(off as int);
                            let d1 = f0.push(s[i as int]).skip(off as int);
                            assert(d1 == d0.push(s[i as int]));
                            match q.limit {
                                Some(l) => {
                                    assert(prev.len() < l as int);
                                },
                                None => {},
                            }
                        }
                    }
                } else {
                    proof {
                        if matched < off {
                            let f1 = f0.push(s[i as int]);
                            assert(f1.len() <= off as int);
                            assert(page(f1, off as int, q.limit) =~= out.deep_view()) by {
                                if off as int <= f1.len() {
                                    assert(f1.skip(off as int) =~= Seq::<ItemModel>::empty());
                                }
                                if off as int <= f0.len() {
                                    assert(f0.skip(off as int) =~= Seq::<ItemModel>::empty());
                                }
                            }
                        } else {
                            let l = q.limit->0;
                            let f1 = f0.push(s[i as int]);
                            lemma_skip_push(f0, s[i as int], off as int);
                            let d0 = f0.skip(off as int);
                            let d1 = f1.skip(off as int);
                            assert(d1 == d0.push(s[i as int]));
                            assert(out.deep_view().len() == l as int);
                            assert(l as int <= d0.len());
                            assert(d1.take(l as int) =~= d0.take(l as int));
                            assert(page(f1, off as int, q.limit) =~= out.deep_view());
                        }
                    }
                }
                matched = matched + 1;
            }
            i = i + 1;
        }
        proof {
            assert(s.take(s.len() as int) =~= s);
            assert(out.deep_view() == query_results(s, q));
        }
        out
    }
}

} // verus!

verus! {

// ---------------------------------------------------------------------------
// Import and export of the whole entry set.
// ---------------------------------------------------------------------------

/// What a sequence of saves leaves behind, front to back, each one under
/// the near-duplicate rule.
pub open spec fn saved_all(s: Seq<ItemModel>, entries: Seq<ItemModel>, now: i64) -> Seq<
    ItemModel,
>
    decreases entries.len(),
{
    if entries.len() == 0 {
        s
    } else {
        saved_all(saved(s, entries[0], now), entries.drop_first(), now)
    }
}

pub proof fn lemma_saved_all_push(s: Seq<ItemModel>, t: Seq<ItemModel>, x: ItemModel, now: i64)
    ensures
        saved_all(s, t.push(x), now) == saved(saved_all(s, t, now), x, now),
    decreases t.len(),
{
    if t.len() == 0 {
        assert(t.push(x)[0] == x);
        assert(t.push(x).drop_first() =~= Seq::<ItemModel>::empty());
        assert(saved_all(s, t, now) == s);
        assert(saved_all(s, t.push(x), now) == saved_all(
            saved(s, x, now),
            Seq::<ItemModel>::empty(),
            now,
        ));
        assert(saved_all(saved(s, x, now), Seq::<ItemModel>::empty(), now) == saved(s, x, now));
    } else {
        assert(t.push(x)[0] == t[0]);
        assert(t.push(x).drop_first() =~= t.drop_first().push(x));
        lemma_saved_all_push(saved(s, t[0], now), t.drop_first(), x, now);
        assert(saved_all(s, t.push(x), now) == saved_all(
            saved(s, t[0], now),
            t.drop_first().push(x),
            now,
        ));
        assert(saved_all(s, t, now) == saved_all(saved(s, t[0], now), t.drop_first(), now));
    }
}

/// One save changes the count by at most one, and never shrinks it.
pub proof fn lemma_saved_len(s: Seq<ItemModel>, m: ItemModel, now: i64)
    requires
        ids_unique(s),
    ensures
        s.len() <= saved(s, m, now).len() <= s.len() + 1,
{
    if !has_near_dup(s, m.preview_text, now) {
        let s2 = remove_id(s, m.id);
        if contains_id(s, m.id) {
            let k = choose|k: int| 0 <= k < s.len() && s[k].id == m.id;
            lemma_remove_id_present(s, m.id, k);
        } else {
            assert(forall|i: int| 0 <= i < s.len() ==> s[i].id != m.id);
            lemma_remove_id_absent(s, m.id);
        }
        lemma_insert_pos_props(s2, m.timestamp);
        assert(insert_sorted(s2, m).len() == s2.len() + 1);
    }
}

impl Database {
    /// Saves each given entry in order under the near-duplicate rule;
    /// returns how many entries the store grew by.
    pub fn import_entries(&mut self, entries: Vec<ClipboardItem>, now: i64) -> (r: u32)
        requires
            old(self).inv(),
            forall|i: int|
                0 <= i < entries.deep_view().len() ==> valid_item(
                    #[trigger] entries.deep_view()[i],
                ),
            old(self)@.len() + entries@.len() <= 0xFFFF_FFFF,
        ensures
            final(self).inv(),
            final(self)@ == saved_all(old(self)@, entries.deep_view(), now),
            r == final(self)@.len() - old(self)@.len(),
    {
        let ghost s0 = self@;
        let ghost ev = entries.deep_view();
        proof {
            assert(ev.len() == entries@.len());
            assert(ev.take(0) =~= Seq::<ItemModel>::empty());
        }
        let before = self.len();
        let mut i: usize = 0;
        while i < entries.len()
            invariant
                0 <= i <= entries@.len(),
                ev == entries.deep_view(),
                ev.len() == entries@.len(),
                self.inv(),
                self@ == saved_all(s0, ev.take(i as int), now),
                s0.len() <= self@.len() <= s0.len() + i,
                s0.len() + ev.len() <= 0xFFFF_FFFF,
                forall|j: int| 0 <= j < ev.len() ==> valid_item(#[trigger] ev[j]),
            decreases entries@.len() - i,
        {
            proof {
                assert(ev[i as int] == entries@[i as int].deep_view());
                assert(ev.take(i + 1) =~= ev.take(i as int).push(ev[i as int]));
                lemma_saved_all_push(s0, ev.take(i as int), ev[i as int], now);
                lemma_saved_len(self@, ev[i as int], now);
            }
            let item = entries[i].clone();
            let res = self.save_item_at(item, now);
            proof {
                assert(self@ == saved_all(s0, ev.take(i + 1), now));
            }
            i = i + 1;
        }
        proof {
            assert(ev.take(ev.len() as int) =~= ev);
        }
        let after = self.len();
        (after - before) as u32
    }

    /// Reads a structured-data document of entries and saves each of them
    /// under the near-duplicate rule; fresh identifiers are drawn only for
    /// rows that lack one.  Returns how many entries the store grew by.
    /// Fails with `Malformed` exactly on a document that is not a JSON
    /// array, and with `Full` when the rows cannot fit; either failure
    /// leaves the store unchanged.
    pub fn import_items(&mut self, doc: &str) -> (r: Result<u32, StoreError>)
        requires
            old(self).inv(),
        ensures
            final(self).inv(),
            r == Err::<u32, StoreError>(StoreError::Malformed) <==> !crate::json::json_doc_is_array(
                doc@,
            ),
            crate::json::json_doc_is_array(doc@) ==> r is Ok || r == Err::<u32, StoreError>(
                StoreError::Full,
            ),
            r is Err ==> final(self)@ == old(self)@,
            r is Ok ==> r->Ok_0 as int == final(self)@.len() - old(self)@.len(),
            r is Ok ==> exists|ids: Seq<u128>, t: i64|
                ids.len() == crate::export::doc_rows(doc@).len() && final(self)@ == #[trigger] saved_all(
                    old(self)@,
                    crate::export::items_from_rows(crate::export::doc_rows(doc@), ids),
                    t,
                ),
    {
        let ghost s0 = self@;
        match crate::export::parse_items(doc) {
            None => Err(StoreError::Malformed),
            Some(entries) => {
                if entries.len() > 0xFFFF_FFFFusize - self.len() {
                    return Err(StoreError::Full);
                }
                let ghost ev = entries.deep_view();
                let t = now_ts();
                let n = self.import_entries(entries, t);
                proof {
                    let ids = choose|ids: Seq<u128>|
                        ids.len() == crate::export::doc_rows(doc@).len() && ev
                            == crate::export::items_from_rows(crate::export::doc_rows(doc@), ids);
                    assert(self@ == saved_all(
                        s0,
                        crate::export::items_from_rows(crate::export::doc_rows(doc@), ids),
                        t,
                    ));
                }
                Ok(n)
            },
        }
    }

    /// Serializes the full entry set, newest first, in the requested
    /// mapping: full-fidelity JSON, or the lossy tabular, plain-document
    /// and markup-document mappings.
    pub fn export_items(&self, format: crate::model::ExportFormat) -> (r: String)
        requires
            self.inv(),
        ensures
            r@ == match format {
                crate::model::ExportFormat::Json => crate::export::json_of_items(self@),
                crate::model::ExportFormat::Csv => crate::export::csv_of_items(self@),
                crate::model::ExportFormat::Html => crate::export::html_of_items(self@),
                crate::model::ExportFormat::Markdown => crate::export::md_of_items(self@),
            },
    {
        match format {
            crate::model::ExportFormat::Json => crate::export::items_to_json(&self.items),
            crate::model::ExportFormat::Csv => crate::export::items_to_csv(&self.items),
            crate::model::ExportFormat::Html => crate::export::items_to_html(&self.items),
            crate::model::ExportFormat::Markdown => crate::export::items_to_markdown(&self.items),
        }
    }
}

} // verus!

verus! {

/// A save with a fresh identifier and no same-preview entry inside the
/// deduplication window inserts: the store grows by one, keeps every
/// earlier entry, and now holds the new entry.
pub proof fn lemma_fresh_save_inserts(s: Seq<ItemModel>, m: ItemModel, now: i64)
    requires
        sorted_newest_first(s),
        ids_unique(s),
        all_valid(s),
        valid_item(m),
        !contains_id(s, m.id),
        !has_near_dup(s, m.preview_text, now),
    ensures
        saved(s, m, now).len() == s.len() + 1,
        saved(s, m, now).contains(m),
        forall|x: ItemModel| s.contains(x) ==> saved(s, m, now).contains(x),
        contains_id(saved(s, m, now), m.id),
{
    lemma_remove_id_absent(s, m.id);
    lemma_insert_sorted_props(s, m);
    let r = saved(s, m, now);
    let j = choose|j: int| 0 <= j < r.len() && r[j] == m;
    assert(r[j].id == m.id);
}

} // verus!
