//! The player's inventory: a collection of collected items with their counts,
//! in a stable iteration order used for display and for cyclic selection.
//!
//! The model of an inventory is the sequence of its entries, an item paired
//! with its count, in iteration order. Every held entry has a positive count
//! and no item appears twice.

use vstd::prelude::*;

use crate::items::Item;

verus! {

/// The inventory: items the player has gathered, each with its count.
pub struct Inventory {
    items: Vec<(Item, usize)>,
}

/// The error of removing an item the inventory has none of.
#[derive(Clone, Copy, Debug)]
pub struct HasNone;

/// Well-formedness of an inventory model: no item appears twice, and every
/// entry's count is positive.
pub open spec fn inv_wf(inv: Seq<(Item, nat)>) -> bool {
    &&& forall|i: int, j: int| 0 <= i < j < inv.len() ==> inv[i].0 != inv[j].0
    &&& forall|i: int| 0 <= i < inv.len() ==> inv[i].1 > 0
}

/// Whether the inventory holds an entry for `it`.
pub open spec fn inv_has(inv: Seq<(Item, nat)>, it: Item) -> bool {
    exists|i: int| 0 <= i < inv.len() && inv[i].0 == it
}

/// The position of `it` in iteration order. Meaningful only where the
/// inventory holds `it`; under `inv_wf` that position is unique.
pub open spec fn inv_idx(inv: Seq<(Item, nat)>, it: Item) -> int
    recommends
        inv_has(inv, it),
{
    choose|i: int| 0 <= i < inv.len() && inv[i].0 == it
}

/// The count held of `it`; zero where the inventory has no entry for it.
pub open spec fn inv_count(inv: Seq<(Item, nat)>, it: Item) -> nat {
    if inv_has(inv, it) {
        inv[inv_idx(inv, it)].1
    } else {
        0
    }
}

/// Inserting one unit of `it`: increments its count, creating an entry at one
/// where none was held.
pub open spec fn inv_insert(inv: Seq<(Item, nat)>, it: Item) -> Seq<(Item, nat)> {
    if inv_has(inv, it) {
        inv.update(inv_idx(inv, it), (it, (inv[inv_idx(inv, it)].1 + 1) as nat))
    } else {
        inv.push((it, 1nat))
    }
}

/// Removing one unit of `it`: decrements its count, deleting the entry when
/// the count reaches zero. Meaningful only where the inventory holds `it`.
pub open spec fn inv_remove(inv: Seq<(Item, nat)>, it: Item) -> Seq<(Item, nat)>
    recommends
        inv_has(inv, it),
{
    let i = inv_idx(inv, it);
    if inv[i].1 == 1 {
        inv.remove(i)
    } else {
        inv.update(i, (it, (inv[i].1 - 1) as nat))
    }
}

/// The first entry's item in iteration order, or none on an empty inventory.
pub open spec fn inv_first(inv: Seq<(Item, nat)>) -> Option<Item> {
    if inv.len() == 0 {
        None
    } else {
        Some(inv[0].0)
    }
}

/// The cyclic successor of `it` in iteration order.
pub open spec fn inv_next(inv: Seq<(Item, nat)>, it: Item) -> Item
    recommends
        inv_has(inv, it),
{
    let i = inv_idx(inv, it);
    if i + 1 == inv.len() {
        inv[0].0
    } else {
        inv[i + 1].0
    }
}

/// The cyclic predecessor of `it` in iteration order.
pub open spec fn inv_prev(inv: Seq<(Item, nat)>, it: Item) -> Item
    recommends
        inv_has(inv, it),
{
    let i = inv_idx(inv, it);
    if i == 0 {
        inv[inv.len() - 1].0
    } else {
        inv[i - 1].0
    }
}

/// The model an entry list rebuilds to: the first entry for each item is
/// kept; zero counts and later duplicates are dropped.
pub open spec fn inv_from_entries(entries: Seq<(Item, usize)>) -> Seq<(Item, nat)>
    decreases entries.len(),
{
    if entries.len() == 0 {
        Seq::empty()
    } else {
        let rest = inv_from_entries(entries.drop_last());
        let e = entries.last();
        if e.1 == 0 || inv_has(rest, e.0) {
            rest
        } else {
            rest.push((e.0, e.1 as nat))
        }
    }
}

/// In a well-formed inventory, an entry's position is the position `inv_idx`
/// names for its item.
pub proof fn lemma_inv_idx_unique(inv: Seq<(Item, nat)>, j: int)
    requires
        inv_wf(inv),
        0 <= j < inv.len(),
    ensures
        inv_has(inv, inv[j].0),
        inv_idx(inv, inv[j].0) == j,
{
    assert(inv_has(inv, inv[j].0));
    let k = inv_idx(inv, inv[j].0);
    assert(0 <= k < inv.len() && inv[k].0 == inv[j].0);
    if k < j {
        assert(inv[k].0 != inv[j].0);
    } else if j < k {
        assert(inv[j].0 != inv[k].0);
    }
}

/// Inserting one unit of `it` leaves an item held exactly where it was held
/// before or is `it` itself, and keeps the model well-formed.
pub proof fn lemma_inv_insert_has(inv: Seq<(Item, nat)>, it: Item, x: Item)
    requires
        inv_wf(inv),
    ensures
        inv_wf(inv_insert(inv, it)),
        inv_has(inv_insert(inv, it), x) <==> (inv_has(inv, x) || x == it),
{
    let r = inv_insert(inv, it);
    if inv_has(inv, it) {
        let i = inv_idx(inv, it);
        assert(0 <= i < inv.len() && inv[i].0 == it);
        assert(forall|j: int| 0 <= j < r.len() ==> r[j].0 == inv[j].0);
        if inv_has(inv, x) {
            let j = choose|j: int| 0 <= j < inv.len() && inv[j].0 == x;
            assert(r[j].0 == x);
        }
        if x == it {
            assert(r[i].0 == x);
        }
        if inv_has(r, x) {
            let j = choose|j: int| 0 <= j < r.len() && r[j].0 == x;
            assert(inv[j].0 == x);
        }
    } else {
        assert(r[inv.len() as int].0 == it);
        if inv_has(inv, x) {
            let j = choose|j: int| 0 <= j < inv.len() && inv[j].0 == x;
            assert(r[j].0 == x);
        }
        if inv_has(r, x) && x != it {
            let j = choose|j: int| 0 <= j < r.len() && r[j].0 == x;
            assert(j < inv.len());
            assert(inv[j].0 == x);
        }
        assert forall|a: int, b: int| 0 <= a < b < r.len() implies r[a].0 != r[b].0 by {
            if b == r.len() - 1 {
                assert(r[a].0 == inv[a].0);
            }
        }
    }
}

/// Removing one unit of a held item `it` leaves an item held exactly where it
/// was held before and is not `it` with its last unit removed, and keeps the
/// model well-formed.
pub proof fn lemma_inv_remove_has(inv: Seq<(Item, nat)>, it: Item, x: Item)
    requires
        inv_wf(inv),
        inv_has(inv, it),
    ensures
        inv_wf(inv_remove(inv, it)),
        inv_has(inv_remove(inv, it), x) <==> (inv_has(inv, x) && !(x == it && inv_count(inv, it)
            == 1)),
{
    let i = inv_idx(inv, it);
    assert(0 <= i < inv.len() && inv[i].0 == it);
    let r = inv_remove(inv, it);
    if inv[i].1 == 1 {
        assert(r =~= inv.remove(i));
        assert forall|a: int, b: int| 0 <= a < b < r.len() implies r[a].0 != r[b].0 by {
            if b < i {
            } else if a < i {
                assert(r[b] == inv[b + 1]);
            } else {
                assert(r[a] == inv[a + 1]);
                assert(r[b] == inv[b + 1]);
            }
        }
        if inv_has(r, x) {
            let j = choose|j: int| 0 <= j < r.len() && r[j].0 == x;
            if j < i {
                assert(inv[j].0 == x);
                assert(x != it);
            } else {
                assert(inv[j + 1].0 == x);
                assert(x != it);
            }
        }
        if inv_has(inv, x) && x != it {
            let j = choose|j: int| 0 <= j < inv.len() && inv[j].0 == x;
            assert(j != i);
            if j < i {
                assert(r[j].0 == x);
            } else {
                assert(r[j - 1] == inv[j]);
            }
        }
    } else {
        assert(forall|j: int| 0 <= j < r.len() ==> r[j].0 == inv[j].0);
        if inv_has(inv, x) {
            let j = choose|j: int| 0 <= j < inv.len() && inv[j].0 == x;
            assert(r[j].0 == x);
        }
        if inv_has(r, x) {
            let j = choose|j: int| 0 <= j < r.len() && r[j].0 == x;
            assert(inv[j].0 == x);
        }
    }
}

/// The first entry's item, the cyclic successor and the cyclic predecessor of
/// a held item are all held.
pub proof fn lemma_inv_nav_has(inv: Seq<(Item, nat)>, it: Item)
    requires
        inv_wf(inv),
        inv_has(inv, it),
    ensures
        inv_has(inv, inv_next(inv, it)),
        inv_has(inv, inv_prev(inv, it)),
        inv_first(inv) matches Some(f) ==> inv_has(inv, f),
{
    let i = inv_idx(inv, it);
    assert(0 <= i < inv.len() && inv[i].0 == it);
}

impl View for Inventory {
    type V = Seq<(Item, nat)>;

    closed spec fn view(&self) -> Seq<(Item, nat)> {
        self.items@.map_values(|e: (Item, usize)| (e.0, e.1 as nat))
    }
}

impl Inventory {
    /// Well-formedness: the model of this inventory is well-formed.
    pub open spec fn wf(&self) -> bool {
        inv_wf(self@)
    }

    /// An empty inventory.
    pub fn new() -> (r: Inventory)
        ensures
            r@ == Seq::<(Item, nat)>::empty(),
            r.wf(),
    {
        let r = Inventory { items: Vec::new() };
        proof {
            assert(r@ =~= Seq::<(Item, nat)>::empty());
        }
        r
    }

    /// The position of the entry for `item`, or none where no entry is held.
    fn find_idx(&self, item: &Item) -> (r: Option<usize>)
        requires
            self.wf(),
        ensures
            match r {
                Some(i) => inv_has(self@, *item) && i as int == inv_idx(self@, *item),
                None => !inv_has(self@, *item),
            },
    {
        let n = self.items.len();
        let mut i: usize = 0;
        while i < n
            invariant
                n == self.items@.len(),
                i <= n,
                self.wf(),
                forall|j: int| 0 <= j < i ==> self.items@[j].0 != *item,
            decreases n - i,
        {
            if self.items[i].0 == *item {
                proof {
                    assert(self@[i as int].0 == *item);
                    let k = inv_idx(self@, *item);
                    assert(0 <= k < self@.len() && self@[k].0 == *item);
                    assert(k == i as int);
                }
                return Some(i);
            }
            i += 1;
        }
        proof {
            assert(forall|j: int| 0 <= j < self@.len() ==> self@[j].0 != *item);
        }
        None
    }

    /// The count held of `item`; zero where no entry is held.
    pub fn count_of(&self, item: &Item) -> (c: usize)
        requires
            self.wf(),
        ensures
            c as nat == inv_count(self@, *item),
    {
        match self.find_idx(item) {
            Some(i) => self.items[i].1,
            None => 0,
        }
    }

    /// Adds one unit of `item`, creating an entry at one where none was held.
    pub fn insert(&mut self, item: Item)
        requires
            old(self).wf(),
            inv_count(old(self)@, item) < usize::MAX,
        ensures
            final(self)@ == inv_insert(old(self)@, item),
            final(self).wf(),
    {
        match self.find_idx(&item) {
            Some(i) => {
                let c = self.items[i].1;
                self.items[i] = (item, c + 1);
                proof {
                    assert(final(self)@ =~= inv_insert(old(self)@, item));
                }
            },
            None => {
                self.items.push((item, 1));
                proof {
                    assert(final(self)@ =~= inv_insert(old(self)@, item));
                    assert forall|a: int, b: int|
                        0 <= a < b < final(self)@.len() implies final(self)@[a].0
                        != final(self)@[b].0 by {
                        if b == final(self)@.len() - 1 {
                            assert(!inv_has(old(self)@, item));
                        }
                    }
                }
            },
        }
    }

    /// Removes one unit of `item`, deleting its entry when the count reaches
    /// zero; fails, changing nothing, where no unit is held.
    pub fn remove(&mut self, item: &Item) -> (r: Result<(), HasNone>)
        requires
            old(self).wf(),
        ensures
            final(self).wf(),
            match r {
                Ok(()) => inv_has(old(self)@, *item) && final(self)@ == inv_remove(
                    old(self)@,
                    *item,
                ),
                Err(HasNone) => inv_count(old(self)@, *item) == 0 && final(self)@ == old(self)@,
            },
            r is Err <==> inv_count(old(self)@, *item) == 0,
    {
        match self.find_idx(item) {
            Some(i) => {
                let c = self.items[i].1;
                if c == 1 {
                    self.items.remove(i);
                    proof {
                        assert(final(self)@ =~= inv_remove(old(self)@, *item));
                    }
                } else {
                    self.items[i] = (*item, c - 1);
                    proof {
                        assert(final(self)@ =~= inv_remove(old(self)@, *item));
                    }
                }
                proof {
                    assert(inv_count(old(self)@, *item) > 0);
                }
                Ok(())
            },
            None => Err(HasNone),
        }
    }

    /// The entries in iteration order, each an item with its count.
    pub fn iter(&self) -> (r: Vec<(Item, usize)>)
        ensures
            r@.map_values(|e: (Item, usize)| (e.0, e.1 as nat)) == self@,
    {
        let n = self.items.len();
        let mut r: Vec<(Item, usize)> = Vec::new();
        let mut i: usize = 0;
        while i < n
            invariant
                n == self.items@.len(),
                i <= n,
                r@ == self.items@.subrange(0, i as int),
            decreases n - i,
        {
            r.push(self.items[i]);
            proof {
                assert(r@ =~= self.items@.subrange(0, i + 1 as int));
            }
            i += 1;
        }
        proof {
            assert(r@ =~= self.items@);
        }
        r
    }

    /// The first entry's item in iteration order, or none on an empty
    /// inventory.
    pub fn first(&self) -> (r: Option<Item>)
        ensures
            r == inv_first(self@),
    {
        if self.items.len() == 0 {
            None
        } else {
            Some(self.items[0].0)
        }
    }

    /// The cyclic successor of `item` in iteration order: the entry after its
    /// own, wrapping past the last entry to the first.
    pub fn next(&self, item: &Item) -> (r: Item)
        requires
            self.wf(),
            inv_has(self@, *item),
        ensures
            r == inv_next(self@, *item),
    {
        let n = self.items.len();
        let i = self.find_idx(item).unwrap();
        proof {
            assert(0 <= inv_idx(self@, *item) < self@.len());
        }
        if i + 1 == n {
            self.items[0].0
        } else {
            self.items[i + 1].0
        }
    }

    /// The cyclic predecessor of `item` in iteration order: the entry before
    /// its own, wrapping past the first entry to the last.
    pub fn prev(&self, item: &Item) -> (r: Item)
        requires
            self.wf(),
            inv_has(self@, *item),
        ensures
            r == inv_prev(self@, *item),
    {
        let n = self.items.len();
        let i = self.find_idx(item).unwrap();
        proof {
            assert(0 <= inv_idx(self@, *item) < self@.len());
        }
        if i == 0 {
            self.items[n - 1].0
        } else {
            self.items[i - 1].0
        }
    }

    /// Rebuilds an inventory from persisted entries: keeps the first entry
    /// for each item, dropping zero counts and later duplicates.
    pub fn from_entries(entries: &Vec<(Item, usize)>) -> (r: Inventory)
        ensures
            r.wf(),
            r@ == inv_from_entries(entries@),
    {
        let n = entries.len();
        let mut r = Inventory { items: Vec::new() };
        proof {
            assert(r@ =~= Seq::<(Item, nat)>::empty());
            assert(entries@.subrange(0, 0) =~= Seq::<(Item, usize)>::empty());
        }
        let mut i: usize = 0;
        while i < n
            invariant
                n == entries@.len(),
                i <= n,
                r.wf(),
                r@ == inv_from_entries(entries@.subrange(0, i as int)),
            decreases n - i,
        {
            let e = entries[i];
            let dup = r.find_idx(&e.0);
            proof {
                assert(entries@.subrange(0, i + 1).drop_last() =~= entries@.subrange(0, i as int));
                assert(entries@.subrange(0, i + 1).last() == entries@[i as int]);
            }
            if e.1 > 0 && dup.is_none() {
                let ghost before = r@;
                r.items.push((e.0, e.1));
                proof {
                    assert(r@ =~= before.push((e.0, e.1 as nat)));
                    assert forall|a: int, b: int| 0 <= a < b < r@.len() implies r@[a].0
                        != r@[b].0 by {
                        if b == r@.len() - 1 {
                            assert(r@[a].0 == before[a].0);
                            assert(inv_has(before, r@[b].0) == false);
                        }
                    }
                }
            }
            i += 1;
        }
        proof {
            assert(entries@.subrange(0, n as int) =~= entries@);
        }
        r
    }
}

} // verus!
