//! A fixed list of items handed out one after another, round and round.

use vstd::prelude::*;
use crate::content::ContentItem;

verus! {

/// The items and the position of the next one to hand out.
pub struct Rotation {
    items: Vec<ContentItem>,
    index: usize,
}

/// The position after `index` in a rotation over `len` items.
pub open spec fn next_index(index: nat, len: nat) -> nat {
    if len == 0 { index } else { (index + 1) % len }
}

/// The position reached after `k` items have been handed out from `index`.
pub open spec fn index_after(index: nat, len: nat, k: nat) -> nat
    decreases k,
{
    if k == 0 { index } else { next_index(index_after(index, len, (k - 1) as nat), len) }
}

/// Round and round: starting from the first of `len > 0` items, the
/// position after `k` items have been handed out is `k mod len`, so the
/// items come out in list order and start again after the last.
pub proof fn lemma_rotation_cycles(len: nat, k: nat)
    requires
        len > 0,
    ensures
        index_after(0, len, k) == k % len,
{
    lemma_index_after_shift(0, len, k);
}

/// After a full round of `len` items the rotation is back where it began.
pub proof fn lemma_rotation_full_round(index: nat, len: nat)
    requires
        0 < len,
        index < len,
    ensures
        index_after(index, len, len) == index,
{
    lemma_index_after_shift(index, len, len);
    vstd::arithmetic::div_mod::lemma_mod_add_multiples_vanish(index as int, len as int);
    vstd::arithmetic::div_mod::lemma_small_mod(index, len);
}

/// From any position below `len`, `k` steps lead to `(index + k) mod len`.
pub proof fn lemma_index_after_shift(index: nat, len: nat, k: nat)
    requires
        0 < len,
        index < len,
    ensures
        index_after(index, len, k) == ((index + k) as nat) % len,
    decreases k,
{
    if k > 0 {
        lemma_index_after_shift(index, len, (k - 1) as nat);
        let a = (index + k - 1) as int;
        vstd::arithmetic::div_mod::lemma_add_mod_noop(a, 1, len as int);
        if len == 1 {
            vstd::arithmetic::div_mod::lemma_mod_bound(a, 1);
            vstd::arithmetic::div_mod::lemma_mod_bound(a + 1, 1);
            vstd::arithmetic::div_mod::lemma_mod_bound(a % 1 + 1, 1);
        } else {
            vstd::arithmetic::div_mod::lemma_small_mod(1, len);
        }
    } else {
        vstd::arithmetic::div_mod::lemma_small_mod(index, len);
    }
}

impl Rotation {
    /// The position of the next item lies inside a non-empty list, and is
    /// zero for an empty one.
    #[verifier::type_invariant]
    spec fn index_in_range(&self) -> bool {
        if self.items@.len() > 0 { self.index < self.items@.len() } else { self.index == 0 }
    }

    /// The items, in order.
    pub closed spec fn items_view(&self) -> Seq<ContentItem> {
        self.items@
    }

    /// The position of the next item.
    pub closed spec fn index_view(&self) -> nat {
        self.index as nat
    }

    /// A rotation over `items` that starts at the first.
    pub fn new(items: Vec<ContentItem>) -> (r: Self)
        ensures
            r.items_view() == items@,
            r.index_view() == 0,
    {
        Rotation { items, index: 0 }
    }

    /// The item at the current position, moving on to the next position
    /// (back to the first after the last); `None` when there are no items.
    pub fn next(&mut self) -> (r: Option<&ContentItem>)
        ensures
            final(self).items_view() == old(self).items_view(),
            final(self).index_view() == next_index(old(self).index_view(), old(self).items_view().len()),
            old(self).items_view().len() == 0 ==> r is None,
            old(self).items_view().len() > 0 ==> r == Some(&old(self).items_view()[old(self).index_view() as int]),
    {
        proof {
            use_type_invariant(&*self);
        }
        if self.items.len() == 0 {
            return None;
        }
        let i = self.index;
        self.index = (self.index + 1) % self.items.len();
        Some(&self.items[i])
    }

    /// Replaces the items and starts again from the first.
    pub fn update_items(&mut self, items: Vec<ContentItem>)
        ensures
            final(self).items_view() == items@,
            final(self).index_view() == 0,
    {
        self.index = 0;
        self.items = items;
    }

    /// The number of items.
    pub fn len(&self) -> (r: usize)
        ensures
            r == self.items_view().len(),
    {
        self.items.len()
    }

    /// Whether there are no items.
    pub fn is_empty(&self) -> (r: bool)
        ensures
            r == (self.items_view().len() == 0),
    {
        self.items.len() == 0
    }
}

} // verus!
