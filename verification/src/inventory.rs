use vstd::prelude::*;

use crate::item::{ItemStack, ItemType, MAX_STACK};
use crate::voxel::BlockType;

verus! {

/// Number of slots: 0..9 form the hotbar, 9..36 the storage.
pub const INVENTORY_SLOTS: usize = 36;

/// The player's slots.
pub struct Inventory {
    pub slots: [Option<ItemStack>; 36],
}

/// Smaller of two naturals.
pub open spec fn min_nat(a: nat, b: nat) -> nat {
    if a <= b { a } else { b }
}

/// Room left in one stack before it reaches the stack limit (none for a
/// stack already over it).
pub open spec fn stack_room(st: ItemStack) -> nat {
    if st.count <= MAX_STACK { (MAX_STACK - st.count) as nat } else { 0 }
}

/// Result of offering `r` items of `item` to one slot during the merge pass:
/// a stack of the same item takes as many as it has room for.
pub open spec fn merge_into(slot: Option<ItemStack>, item: ItemType, r: nat) -> (Option<ItemStack>, nat) {
    match slot {
        Some(s) => if s.item == item {
            let t = min_nat(r, stack_room(s));
            (Some(ItemStack { item: s.item, count: (s.count + t) as u32 }), (r - t) as nat)
        } else {
            (slot, r)
        },
        None => (slot, r),
    }
}

/// Result of offering `r` items of `item` to one slot during the fill pass:
/// an empty slot takes up to a full stack.
pub open spec fn fill_into(slot: Option<ItemStack>, item: ItemType, r: nat) -> (Option<ItemStack>, nat) {
    if slot is None && r > 0 {
        let t = min_nat(r, MAX_STACK as nat);
        (Some(ItemStack { item, count: t as u32 }), (r - t) as nat)
    } else {
        (slot, r)
    }
}

/// Merge pass over the slots in order: top up the stacks of `item`.
pub open spec fn merge_pass(s: Seq<Option<ItemStack>>, item: ItemType, r: nat) -> (Seq<Option<ItemStack>>, nat)
    decreases s.len(),
{
    if s.len() == 0 {
        (s, r)
    } else {
        let p = merge_pass(s.drop_last(), item, r);
        let h = merge_into(s.last(), item, p.1);
        (p.0.push(h.0), h.1)
    }
}

/// Fill pass over the slots in order: put what is left into empty slots.
pub open spec fn fill_pass(s: Seq<Option<ItemStack>>, item: ItemType, r: nat) -> (Seq<Option<ItemStack>>, nat)
    decreases s.len(),
{
    if s.len() == 0 {
        (s, r)
    } else {
        let p = fill_pass(s.drop_last(), item, r);
        let h = fill_into(s.last(), item, p.1);
        (p.0.push(h.0), h.1)
    }
}

/// Number of items of `item` held in the slots.
pub open spec fn count_of(s: Seq<Option<ItemStack>>, item: ItemType) -> nat
    decreases s.len(),
{
    if s.len() == 0 {
        0
    } else {
        count_of(s.drop_last(), item) + match s.last() {
            Some(st) => if st.item == item { st.count as nat } else { 0 },
            None => 0,
        }
    }
}

/// Room left in the stacks of `item` that are already present.
pub open spec fn merge_room(s: Seq<Option<ItemStack>>, item: ItemType) -> nat
    decreases s.len(),
{
    if s.len() == 0 {
        0
    } else {
        merge_room(s.drop_last(), item) + match s.last() {
            Some(st) => if st.item == item { stack_room(st) } else { 0 },
            None => 0,
        }
    }
}

/// Number of empty slots.
pub open spec fn empty_slots(s: Seq<Option<ItemStack>>) -> nat
    decreases s.len(),
{
    if s.len() == 0 {
        0
    } else {
        empty_slots(s.drop_last()) + if s.last() is None { 1nat } else { 0 }
    }
}

/// How many more items of `item` the slots can take.
pub open spec fn room_for(s: Seq<Option<ItemStack>>, item: ItemType) -> nat {
    merge_room(s, item) + empty_slots(s) * (MAX_STACK as nat)
}

/// No stack of `item` is over the stack limit.
pub open spec fn stacks_within_limit(s: Seq<Option<ItemStack>>, item: ItemType) -> bool {
    forall|i: int| 0 <= i < s.len() && (#[trigger] s[i]) is Some && s[i]->0.item == item
        ==> s[i]->0.count <= MAX_STACK
}

/// Adding `count` items of `item` offers none of them to a stack of `item`
/// that is already over the limit: every such stack comes after the point
/// where the merge pass has placed all the items.
pub open spec fn merge_safe(s: Seq<Option<ItemStack>>, item: ItemType, count: nat) -> bool {
    forall|i: int| 0 <= i < s.len() && (#[trigger] s[i]) is Some && s[i]->0.item == item
        && s[i]->0.count > MAX_STACK ==> merge_pass(s.take(i), item, count).1 == 0
}

/// No stack in the slots is over the stack limit.
pub open spec fn all_within_limit(s: Seq<Option<ItemStack>>) -> bool {
    forall|i: int| 0 <= i < s.len() && (#[trigger] s[i]) is Some ==> s[i]->0.count <= MAX_STACK
}

/// The slots after adding `count` items of `item`, and the number left over.
pub open spec fn spec_try_add(s: Seq<Option<ItemStack>>, item: ItemType, count: nat) -> (Seq<Option<ItemStack>>, nat) {
    let m = merge_pass(s, item, count);
    fill_pass(m.0, item, m.1)
}

proof fn lemma_merge_pass(s: Seq<Option<ItemStack>>, item: ItemType, r: nat)
    ensures
        merge_pass(s, item, r).0.len() == s.len(),
        count_of(merge_pass(s, item, r).0, item) + merge_pass(s, item, r).1 == count_of(s, item) + r,
        merge_pass(s, item, r).1 == (if r >= merge_room(s, item) { (r - merge_room(s, item)) as nat } else { 0nat }),
        empty_slots(merge_pass(s, item, r).0) == empty_slots(s),
        stacks_within_limit(s, item) ==> stacks_within_limit(merge_pass(s, item, r).0, item),
        forall|i: int| 0 <= i < s.len() ==> {
            let n = #[trigger] merge_pass(s, item, r).0[i];
            &&& (s[i] is None ==> n is None)
            &&& (s[i] matches Some(st) && st.item != item ==> n == s[i])
            &&& (s[i] matches Some(st) && st.item == item ==> (n matches Some(nst) && nst.item == item && nst.count >= s[i]->0.count))
            &&& (all_within_limit(s) ==> (n matches Some(nst) ==> nst.count <= MAX_STACK))
        },
    decreases s.len(),
{
    if s.len() > 0 {
        let d = s.drop_last();
        if stacks_within_limit(s, item) {
            assert(stacks_within_limit(d, item)) by {
                assert forall|i: int| 0 <= i < d.len() && (#[trigger] d[i]) is Some && d[i]->0.item == item
                    implies d[i]->0.count <= MAX_STACK by {
                    assert(d[i] == s[i]);
                }
            }
        }
        lemma_merge_pass(d, item, r);
        let p = merge_pass(d, item, r);
        let h = merge_into(s.last(), item, p.1);
        assert(p.0.push(h.0).drop_last() =~= p.0);
        assert(s.last() == s[s.len() - 1]);
        if all_within_limit(s) {
            assert(all_within_limit(d)) by {
                assert forall|i: int| 0 <= i < d.len() && (#[trigger] d[i]) is Some implies d[i]->0.count <= MAX_STACK by {
                    assert(d[i] == s[i]);
                }
            }
        }
        let n = p.0.push(h.0);
        if stacks_within_limit(s, item) {
            assert forall|i: int| 0 <= i < n.len() && (#[trigger] n[i]) is Some && n[i]->0.item == item
                implies n[i]->0.count <= MAX_STACK by {
                if i < d.len() {
                    assert(n[i] == p.0[i]);
                }
            }
        }
        assert forall|i: int| 0 <= i < s.len() implies {
            let nn = #[trigger] merge_pass(s, item, r).0[i];
            &&& (s[i] is None ==> nn is None)
            &&& (s[i] matches Some(st) && st.item != item ==> nn == s[i])
            &&& (s[i] matches Some(st) && st.item == item ==> (nn matches Some(nst) && nst.item == item && nst.count >= s[i]->0.count))
            &&& (all_within_limit(s) ==> (nn matches Some(nst) ==> nst.count <= MAX_STACK))
        } by {
            if i < d.len() {
                assert(n[i] == p.0[i]);
                assert(d[i] == s[i]);
            }
        }
    }
}

proof fn lemma_fill_pass(s: Seq<Option<ItemStack>>, item: ItemType, r: nat)
    ensures
        fill_pass(s, item, r).0.len() == s.len(),
        count_of(fill_pass(s, item, r).0, item) + fill_pass(s, item, r).1 == count_of(s, item) + r,
        fill_pass(s, item, r).1 == (if r >= empty_slots(s) * (MAX_STACK as nat) {
            (r - empty_slots(s) * (MAX_STACK as nat)) as nat
        } else {
            0nat
        }),
        fill_pass(s, item, r).1 > 0 ==> empty_slots(fill_pass(s, item, r).0) == 0,
        forall|i: int| 0 <= i < s.len() ==> {
            let n = #[trigger] fill_pass(s, item, r).0[i];
            &&& (s[i] is Some ==> n == s[i])
            &&& (s[i] is None ==> (n is None || (n matches Some(nst) && nst.item == item && 0 < nst.count <= MAX_STACK)))
        },
    decreases s.len(),
{
    if s.len() > 0 {
        let d = s.drop_last();
        lemma_fill_pass(d, item, r);
        let p = fill_pass(d, item, r);
        let h = fill_into(s.last(), item, p.1);
        let n = p.0.push(h.0);
        assert(n.drop_last() =~= p.0);
        assert(s.last() == s[s.len() - 1]);
        assert forall|i: int| 0 <= i < s.len() implies {
            let nn = #[trigger] fill_pass(s, item, r).0[i];
            &&& (s[i] is Some ==> nn == s[i])
            &&& (s[i] is None ==> (nn is None || (nn matches Some(nst) && nst.item == item && 0 < nst.count <= MAX_STACK)))
        } by {
            if i < d.len() {
                assert(n[i] == p.0[i]);
                assert(d[i] == s[i]);
            }
        }
    }
}

/// Every filled slot holds between one item and a full stack.
pub open spec fn slots_valid(s: Seq<Option<ItemStack>>) -> bool {
    forall|i: int| 0 <= i < s.len() && (#[trigger] s[i]) is Some ==> 1 <= s[i]->0.count <= MAX_STACK
}

proof fn lemma_merge_full(s: Seq<Option<ItemStack>>, item: ItemType, r: nat)
    requires
        stacks_within_limit(s, item),
    ensures
        merge_pass(s, item, r).1 <= r,
        merge_pass(s, item, r).1 > 0 ==> forall|i: int| 0 <= i < s.len() && (#[trigger] s[i]) is Some
            && s[i]->0.item == item ==> merge_pass(s, item, r).0[i] == Some(ItemStack { item, count: MAX_STACK }),
    decreases s.len(),
{
    if s.len() > 0 {
        let d = s.drop_last();
        assert(stacks_within_limit(d, item)) by {
            assert forall|i: int| 0 <= i < d.len() && (#[trigger] d[i]) is Some && d[i]->0.item == item
                implies d[i]->0.count <= MAX_STACK by {
                assert(d[i] == s[i]);
            }
        }
        lemma_merge_full(d, item, r);
        lemma_merge_pass(d, item, r);
        let p = merge_pass(d, item, r);
        let h = merge_into(s.last(), item, p.1);
        let n = p.0.push(h.0);
        assert(s.last() == s[s.len() - 1]);
        if h.1 > 0 {
            assert forall|i: int| 0 <= i < s.len() && (#[trigger] s[i]) is Some && s[i]->0.item == item
                implies n[i] == Some(ItemStack { item, count: MAX_STACK }) by {
                if i < d.len() {
                    assert(d[i] == s[i]);
                    assert(n[i] == p.0[i]);
                }
            }
        }
    }
}

proof fn lemma_fill_nothing(s: Seq<Option<ItemStack>>, item: ItemType)
    ensures
        fill_pass(s, item, 0) == (s, 0nat),
    decreases s.len(),
{
    if s.len() > 0 {
        lemma_fill_nothing(s.drop_last(), item);
        assert(s.drop_last().push(s.last()) =~= s);
    }
}

proof fn lemma_fill_order(s: Seq<Option<ItemStack>>, item: ItemType, r: nat)
    ensures
        fill_pass(s, item, r).1 <= r,
        fill_pass(s, item, r).1 > 0 ==> forall|i: int| 0 <= i < s.len() ==> {
            let n = #[trigger] fill_pass(s, item, r).0[i];
            &&& n is Some
            &&& s[i] is None ==> n == Some(ItemStack { item, count: MAX_STACK })
        },
        forall|i: int, j: int| 0 <= j < i < s.len() && s[i] is None && (#[trigger] fill_pass(s, item, r).0[i]) is Some
            && s[j] is None ==> (#[trigger] fill_pass(s, item, r).0[j]) is Some,
    decreases s.len(),
{
    if s.len() > 0 {
        let d = s.drop_last();
        lemma_fill_order(d, item, r);
        lemma_fill_pass(d, item, r);
        let p = fill_pass(d, item, r);
        let h = fill_into(s.last(), item, p.1);
        let n = p.0.push(h.0);
        assert(s.last() == s[s.len() - 1]);
        if h.1 > 0 {
            assert forall|i: int| 0 <= i < s.len() implies {
                let nn = #[trigger] n[i];
                &&& nn is Some
                &&& s[i] is None ==> nn == Some(ItemStack { item, count: MAX_STACK })
            } by {
                if i < d.len() {
                    assert(d[i] == s[i]);
                    assert(n[i] == p.0[i]);
                }
            }
        }
        assert forall|i: int, j: int| 0 <= j < i < s.len() && s[i] is None && (#[trigger] n[i]) is Some
            && s[j] is None implies (#[trigger] n[j]) is Some by {
            assert(d[j] == s[j]);
            assert(n[j] == p.0[j]);
            if i < d.len() {
                assert(d[i] == s[i]);
                assert(n[i] == p.0[i]);
            } else {
                assert(p.1 > 0);
                assert(p.0[j] is Some);
            }
        }
    }
}

/// What adding to an inventory keeps and guarantees, for slots that each hold
/// between one item and a full stack: the slots stay so; when something is
/// left over, every slot is filled and every stack of the item is full; an
/// empty slot is used only once every stack of the item that was already
/// there is full; and empty slots are used in slot order.
pub proof fn lemma_try_add_laws(s: Seq<Option<ItemStack>>, item: ItemType, count: nat)
    requires
        slots_valid(s),
    ensures
        ({
            let t = spec_try_add(s, item, count).0;
            let rest = spec_try_add(s, item, count).1;
            &&& t.len() == s.len()
            &&& slots_valid(t)
            &&& rest > 0 ==> forall|i: int| 0 <= i < t.len() ==> (#[trigger] t[i]) is Some
                && (t[i]->0.item == item ==> t[i]->0.count == MAX_STACK)
            &&& forall|i: int, j: int| 0 <= i < s.len() && 0 <= j < s.len() && s[i] is None && (#[trigger] t[i]) is Some
                && (#[trigger] s[j]) is Some && s[j]->0.item == item ==> t[j] == Some(ItemStack { item, count: MAX_STACK })
            &&& forall|i: int, j: int| 0 <= j < i < s.len() && s[i] is None && (#[trigger] t[i]) is Some
                && s[j] is None ==> (#[trigger] t[j]) is Some
        }),
{
    assert(all_within_limit(s));
    assert(stacks_within_limit(s, item));
    lemma_merge_pass(s, item, count);
    lemma_merge_full(s, item, count);
    let m = merge_pass(s, item, count);
    lemma_fill_pass(m.0, item, m.1);
    lemma_fill_order(m.0, item, m.1);
    let t = fill_pass(m.0, item, m.1).0;
    let rest = fill_pass(m.0, item, m.1).1;
    assert forall|i: int| 0 <= i < t.len() && (#[trigger] t[i]) is Some implies 1 <= t[i]->0.count <= MAX_STACK by {
        let mi = m.0[i];
        if s[i] is Some {
            assert(mi is Some && mi->0.count >= s[i]->0.count);
        }
    }
    if rest > 0 {
        assert forall|i: int| 0 <= i < t.len() implies (#[trigger] t[i]) is Some
            && (t[i]->0.item == item ==> t[i]->0.count == MAX_STACK) by {
            let mi = m.0[i];
            assert(t[i] is Some);
            if mi is Some {
                assert(t[i] == mi);
                if mi->0.item == item {
                    if s[i] is Some {
                        assert(s[i]->0.item == item);
                    }
                }
            }
        }
    }
    assert forall|i: int, j: int| 0 <= i < s.len() && 0 <= j < s.len() && s[i] is None && (#[trigger] t[i]) is Some
        && (#[trigger] s[j]) is Some && s[j]->0.item == item implies t[j] == Some(ItemStack { item, count: MAX_STACK }) by {
        let mi = m.0[i];
        assert(mi is None);
        if m.1 == 0 {
            lemma_fill_nothing(m.0, item);
            assert(t[i] == mi);
        }
        assert(m.0[j] == Some(ItemStack { item, count: MAX_STACK }));
    }
    assert forall|i: int, j: int| 0 <= j < i < s.len() && s[i] is None && (#[trigger] t[i]) is Some
        && s[j] is None implies (#[trigger] t[j]) is Some by {
        assert(m.0[i] is None);
        assert(m.0[j] is None);
    }
}

/// Adding `n` items of `item` neither loses nor makes items: what ends up in
/// the slots plus what is left over is what was there plus `n`, and nothing is
/// left over exactly when the slots had room for all `n`.
pub proof fn lemma_add_conserves(s: Seq<Option<ItemStack>>, item: ItemType, n: nat)
    ensures
        count_of(spec_try_add(s, item, n).0, item) + spec_try_add(s, item, n).1 == count_of(s, item) + n,
        spec_try_add(s, item, n).1 == 0 <==> n <= room_for(s, item),
{
    lemma_merge_pass(s, item, n);
    let m = merge_pass(s, item, n);
    lemma_fill_pass(m.0, item, m.1);
}

impl Default for Inventory {
    /// An inventory with every slot empty.
    fn default() -> (inv: Inventory)
        ensures
            forall|i: int| 0 <= i < INVENTORY_SLOTS ==> (#[trigger] inv.slots@[i]) is None,
    {
        Inventory { slots: [None; 36] }
    }
}

impl Inventory {
    /// Add a stack: first top up existing stacks of the same item, in slot
    /// order, then fill empty slots in order. Returns what did not fit.
    pub fn try_add(&mut self, stack: ItemStack) -> (rest: Option<ItemStack>)
        requires
            merge_safe(old(self).slots@, stack.item, stack.count as nat),
        ensures
            ({
                let r = spec_try_add(old(self).slots@, stack.item, stack.count as nat);
                &&& final(self).slots@ == r.0
                &&& rest == (if r.1 > 0 { Some(ItemStack { item: stack.item, count: r.1 as u32 }) } else { None })
            }),
            count_of(final(self).slots@, stack.item) + (match rest { Some(s) => s.count as nat, None => 0nat })
                == count_of(old(self).slots@, stack.item) + stack.count,
            rest is None <==> stack.count <= room_for(old(self).slots@, stack.item),
            rest matches Some(s) ==> s.item == stack.item
                && s.count == stack.count - room_for(old(self).slots@, stack.item),
            forall|i: int| 0 <= i < INVENTORY_SLOTS ==> ((#[trigger] old(self).slots@[i]) matches Some(st)
                && st.item != stack.item ==> final(self).slots@[i] == old(self).slots@[i]),
            all_within_limit(old(self).slots@) ==> all_within_limit(final(self).slots@),
    {
        let ghost s0 = self.slots@;
        let item = stack.item;
        let mut remaining: u32 = stack.count;
        let mut i: usize = 0;
        while i < INVENTORY_SLOTS
            invariant
                s0 == old(self).slots@,
                merge_safe(s0, item, stack.count as nat),
                0 <= i <= INVENTORY_SLOTS,
                self.slots@.len() == INVENTORY_SLOTS,
                self.slots@.take(i as int) == merge_pass(s0.take(i as int), item, stack.count as nat).0,
                remaining as nat == merge_pass(s0.take(i as int), item, stack.count as nat).1,
                forall|j: int| i <= j < INVENTORY_SLOTS ==> self.slots@[j] == s0[j],
            decreases INVENTORY_SLOTS - i,
        {
            let ghost before = self.slots@;
            assert(s0.take(i + 1).drop_last() =~= s0.take(i as int));
            assert(s0.take(i + 1).last() == s0[i as int]);
            if let Some(existing) = self.slots[i] {
                if existing.item == item && remaining > 0 {
                    let space = existing.max_stack_size() - existing.count;
                    let transfer = if remaining < space { remaining } else { space };
                    self.slots[i] = Some(ItemStack { item: existing.item, count: existing.count + transfer });
                    remaining = remaining - transfer;
                }
            }
            assert(self.slots@.take(i + 1) =~= before.take(i as int).push(self.slots@[i as int]));
            i += 1;
        }
        assert(s0.take(INVENTORY_SLOTS as int) =~= s0);
        assert(self.slots@.take(INVENTORY_SLOTS as int) =~= self.slots@);
        let ghost s1 = self.slots@;
        let ghost r1 = remaining as nat;
        let mut i: usize = 0;
        while i < INVENTORY_SLOTS
            invariant
                0 <= i <= INVENTORY_SLOTS,
                s1.len() == INVENTORY_SLOTS,
                self.slots@.len() == INVENTORY_SLOTS,
                self.slots@.take(i as int) == fill_pass(s1.take(i as int), item, r1).0,
                remaining as nat == fill_pass(s1.take(i as int), item, r1).1,
                forall|j: int| i <= j < INVENTORY_SLOTS ==> self.slots@[j] == s1[j],
            decreases INVENTORY_SLOTS - i,
        {
            let ghost before = self.slots@;
            assert(s1.take(i + 1).drop_last() =~= s1.take(i as int));
            assert(s1.take(i + 1).last() == s1[i as int]);
            if self.slots[i].is_none() && remaining > 0 {
                let transfer = if remaining < MAX_STACK { remaining } else { MAX_STACK };
                self.slots[i] = Some(ItemStack { item, count: transfer });
                remaining = remaining - transfer;
            }
            assert(self.slots@.take(i + 1) =~= before.take(i as int).push(self.slots@[i as int]));
            i += 1;
        }
        assert(s1.take(INVENTORY_SLOTS as int) =~= s1);
        assert(self.slots@.take(INVENTORY_SLOTS as int) =~= self.slots@);
        proof {
            lemma_merge_pass(s0, item, stack.count as nat);
            lemma_fill_pass(s1, item, r1);
            assert forall|i: int| 0 <= i < INVENTORY_SLOTS && ((#[trigger] s0[i]) matches Some(st)
                && st.item != item) implies self.slots@[i] == s0[i] by {
                assert(merge_pass(s0, item, stack.count as nat).0[i] == s1[i]);
                assert(fill_pass(s1, item, r1).0[i] == self.slots@[i]);
            }
            if all_within_limit(s0) {
                assert forall|i: int| 0 <= i < self.slots@.len() && (#[trigger] self.slots@[i]) is Some
                    implies self.slots@[i]->0.count <= MAX_STACK by {
                    assert(merge_pass(s0, item, stack.count as nat).0[i] == s1[i]);
                    assert(fill_pass(s1, item, r1).0[i] == self.slots@[i]);
                }
            }
        }
        if remaining > 0 {
            Some(ItemStack { item, count: remaining })
        } else {
            None
        }
    }
}


impl Inventory {
    /// Whether `try_add(stack)` may be called: adding the stack never offers
    /// items to a stack of the same item that is already over the limit.
    pub fn can_add_safely(&self, stack: ItemStack) -> (r: bool)
        ensures
            r == merge_safe(self.slots@, stack.item, stack.count as nat),
    {
        let ghost s = self.slots@;
        let item = stack.item;
        let mut remaining: u32 = stack.count;
        let mut i: usize = 0;
        while i < INVENTORY_SLOTS
            invariant
                s == self.slots@,
                item == stack.item,
                s.len() == INVENTORY_SLOTS,
                0 <= i <= INVENTORY_SLOTS,
                remaining as nat == merge_pass(s.take(i as int), item, stack.count as nat).1,
                forall|j: int| 0 <= j < i && (#[trigger] s[j]) is Some && s[j]->0.item == item
                    && s[j]->0.count > MAX_STACK ==> merge_pass(s.take(j), item, stack.count as nat).1 == 0,
            decreases INVENTORY_SLOTS - i,
        {
            assert(s.take(i + 1).drop_last() =~= s.take(i as int));
            assert(s.take(i + 1).last() == s[i as int]);
            if let Some(existing) = self.slots[i] {
                if existing.item == item {
                    if existing.count > MAX_STACK {
                        if remaining > 0 {
                            proof {
                                let k = i as int;
                                assert(s[k] == Some(existing));
                                assert(merge_pass(s.take(k), item, stack.count as nat).1 > 0);
                                assert(!merge_safe(s, item, stack.count as nat));
                            }
                            return false;
                        }
                    } else {
                        let space = MAX_STACK - existing.count;
                        let transfer = if remaining < space { remaining } else { space };
                        remaining = remaining - transfer;
                    }
                }
            }
            i += 1;
        }
        true
    }
}

impl Inventory {
    /// Take up to `count` items out of one slot; the slot empties when nothing
    /// is left in it. Returns the items taken, or `None` for a slot number
    /// past the end or an empty slot.
    pub fn remove_from_slot(&mut self, slot: usize, count: u32) -> (taken: Option<ItemStack>)
        ensures
            slot >= INVENTORY_SLOTS || old(self).slots@[slot as int] is None ==> {
                &&& taken is None
                &&& final(self).slots@ == old(self).slots@
            },
            slot < INVENTORY_SLOTS && old(self).slots@[slot as int] is Some ==> {
                let st = old(self).slots@[slot as int]->0;
                let take = if count <= st.count { count } else { st.count };
                &&& taken == Some(ItemStack { item: st.item, count: take })
                &&& final(self).slots@ == old(self).slots@.update(
                    slot as int,
                    if st.count - take == 0 { None } else { Some(ItemStack { item: st.item, count: (st.count - take) as u32 }) },
                )
            },
    {
        if slot >= INVENTORY_SLOTS {
            return None;
        }
        let existing = match self.slots[slot] {
            Some(e) => e,
            None => return None,
        };
        let take = if count < existing.count { count } else { existing.count };
        let result = ItemStack { item: existing.item, count: take };
        let left = existing.count - take;
        if left == 0 {
            self.slots[slot] = None;
        } else {
            self.slots[slot] = Some(ItemStack { item: existing.item, count: left });
        }
        Some(result)
    }

    /// Exchange the contents of two slots; slot numbers past the end change nothing.
    pub fn swap_slots(&mut self, a: usize, b: usize)
        ensures
            a < INVENTORY_SLOTS && b < INVENTORY_SLOTS ==> final(self).slots@ == old(self).slots@.update(
                a as int,
                old(self).slots@[b as int],
            ).update(b as int, old(self).slots@[a as int]),
            !(a < INVENTORY_SLOTS && b < INVENTORY_SLOTS) ==> final(self).slots@ == old(self).slots@,
    {
        if a < INVENTORY_SLOTS && b < INVENTORY_SLOTS {
            let sa = self.slots[a];
            let sb = self.slots[b];
            self.slots[a] = sb;
            self.slots[b] = sa;
        }
    }
}

impl Inventory {
    /// Clicking a slot on the inventory screen swaps its contents with the
    /// stack held by the cursor.
    pub fn click_slot(&mut self, slot: usize, cursor: &mut Option<ItemStack>)
        requires
            slot < INVENTORY_SLOTS,
        ensures
            final(self).slots@ == old(self).slots@.update(slot as int, *old(cursor)),
            *final(cursor) == old(self).slots@[slot as int],
    {
        let temp = self.slots[slot];
        self.slots[slot] = *cursor;
        *cursor = temp;
    }
}

/// The inventory a new player starts with: 64 cobblestone, 64 dirt, 32 wood
/// and 32 sand in the first four hotbar slots.
pub fn starter_inventory() -> (inv: Inventory)
    ensures
        inv.slots@[0] == Some(ItemStack { item: ItemType::Block(BlockType::Cobblestone), count: 64 }),
        inv.slots@[1] == Some(ItemStack { item: ItemType::Block(BlockType::Dirt), count: 64 }),
        inv.slots@[2] == Some(ItemStack { item: ItemType::Block(BlockType::Wood), count: 32 }),
        inv.slots@[3] == Some(ItemStack { item: ItemType::Block(BlockType::Sand), count: 32 }),
        forall|i: int| 4 <= i < INVENTORY_SLOTS ==> (#[trigger] inv.slots@[i]) is None,
        all_within_limit(inv.slots@),
{
    let mut inv = Inventory::default();
    inv.slots[0] = Some(ItemStack::block(BlockType::Cobblestone, 64));
    inv.slots[1] = Some(ItemStack::block(BlockType::Dirt, 64));
    inv.slots[2] = Some(ItemStack::block(BlockType::Wood, 32));
    inv.slots[3] = Some(ItemStack::block(BlockType::Sand, 32));
    inv
}

/// Swapping two slots twice gives back the original slots.
pub proof fn lemma_swap_twice(s: Seq<Option<ItemStack>>, a: int, b: int)
    requires
        0 <= a < s.len(),
        0 <= b < s.len(),
    ensures
        ({
            let once = s.update(a, s[b]).update(b, s[a]);
            once.update(a, once[b]).update(b, once[a]) == s
        }),
{
    let once = s.update(a, s[b]).update(b, s[a]);
    assert(once.update(a, once[b]).update(b, once[a]) =~= s);
}

/// Clicking the same slot twice puts the slot's stack and the cursor's stack
/// back where they were.
pub proof fn lemma_click_twice(s: Seq<Option<ItemStack>>, slot: int, cursor: Option<ItemStack>)
    requires
        0 <= slot < s.len(),
    ensures
        ({
            let (s1, c1) = (s.update(slot, cursor), s[slot]);
            let (s2, c2) = (s1.update(slot, c1), s1[slot]);
            s2 == s && c2 == cursor
        }),
{
    assert(s.update(slot, cursor).update(slot, s[slot]) =~= s);
}

} // verus!
