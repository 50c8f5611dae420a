//! What can be done with an inventory: adding, counting and taking items,
//! finding the best tool or rod, and exchanging slots in a trade. Quantities
//! are 32-bit numbers and wrap around.

use vstd::prelude::*;
use crate::defs::{
    armor_def, fish_def_by_rod, fish_defs, fish_min_level, item_value, sword_def, tool_def, FishDef,
    ToolDef,
};
use crate::defs::{
    armor_of, fish_by_rod, fish_table, item_price, lemma_item_price, min_level, sword_of, tool_of,
};
use crate::search::{first_at, lemma_first_is};
use crate::text::{decimal, int_text, join5, same_text};
use crate::types::{copy_slots, free_slot, slots_of, EquipV, SlotV};
use crate::types::{Equipment, InvSlot, Skills, INV_SIZE};

verus! {

/// Picks a slot that holds some of the item.
pub open spec fn slot_with(item: Seq<char>) -> spec_fn(SlotV) -> bool {
    |s: SlotV| s.item == item && s.qty > 0
}

/// Picks a free slot.
pub open spec fn slot_free() -> spec_fn(SlotV) -> bool {
    |s: SlotV| s.item.len() == 0
}

/// Whether an inventory holds some of the item.
pub open spec fn has_item(inv: Seq<SlotV>, item: Seq<char>) -> bool {
    first_at(inv, slot_with(item), 0) < inv.len()
}

/// Whether there is room for the item: a slot that holds some of it, or a free one.
pub open spec fn fits(inv: Seq<SlotV>, item: Seq<char>) -> bool {
    has_item(inv, item) || first_at(inv, slot_free(), 0) < inv.len()
}

/// The inventory with more of an item: on the first slot that holds some of it,
/// else on the first free slot; unchanged where there is no room.
pub open spec fn added(inv: Seq<SlotV>, item: Seq<char>, qty: i32) -> Seq<SlotV> {
    let k = first_at(inv, slot_with(item), 0);
    let n = first_at(inv, slot_free(), 0);
    if k < inv.len() {
        inv.update(k, SlotV { item, qty: inv[k].qty.wrapping_add(qty) })
    } else if n < inv.len() {
        inv.update(n, SlotV { item, qty })
    } else {
        inv
    }
}

/// The slot with another quantity; a free slot where nothing is left.
pub open spec fn slot_left(s: SlotV, qty: i32) -> SlotV {
    if qty == 0 {
        free_slot()
    } else {
        SlotV { item: s.item, qty }
    }
}

/// Adds items to an inventory and tells whether there was room.
pub fn add_inv_into(inv: &mut Vec<InvSlot>, item: &str, qty: i32) -> (r: bool)
    ensures
        slots_of(final(inv)@) == added(slots_of(old(inv)@), item@, qty),
        final(inv)@.len() == old(inv)@.len(),
        r == fits(slots_of(old(inv)@), item@),
{
    let ghost v = slots_of(inv@);
    let mut i: usize = 0;
    while i < inv.len()
        invariant
            i <= inv.len(),
            inv@ == old(inv)@,
            v == slots_of(inv@),
            forall|j: int| 0 <= j < i ==> !slot_with(item@)(#[trigger] v[j]),
        decreases inv.len() - i,
    {
        if same_text(inv[i].item.as_str(), item) && inv[i].qty > 0 {
            proof {
                lemma_first_is(v, slot_with(item@), 0, i as int);
            }
            let q: i32 = inv[i].qty;
            inv[i].qty = q.wrapping_add(qty);
            assert(slots_of(inv@) =~= added(v, item@, qty));
            return true;
        }
        i = i + 1;
    }
    proof {
        lemma_first_is(v, slot_with(item@), 0, v.len() as int);
    }
    let mut k: usize = 0;
    while k < inv.len()
        invariant
            k <= inv.len(),
            inv@ == old(inv)@,
            v == slots_of(inv@),
            first_at(v, slot_with(item@), 0) == v.len(),
            forall|j: int| 0 <= j < k ==> !slot_free()(#[trigger] v[j]),
        decreases inv.len() - k,
    {
        if inv[k].item.as_str().is_empty() {
            proof {
                lemma_first_is(v, slot_free(), 0, k as int);
            }
            inv[k] = InvSlot { item: item.to_owned(), qty };
            assert(slots_of(inv@) =~= added(v, item@, qty));
            return true;
        }
        k = k + 1;
    }
    proof {
        lemma_first_is(v, slot_free(), 0, v.len() as int);
    }
    false
}

/// Adds items to an inventory and tells whether there was room.
pub fn add_inv_to_slots(inv: &mut Vec<InvSlot>, item: &str, qty: i32) -> (r: bool)
    ensures
        slots_of(final(inv)@) == added(slots_of(old(inv)@), item@, qty),
        final(inv)@.len() == old(inv)@.len(),
        r == fits(slots_of(old(inv)@), item@),
{
    add_inv_into(inv, item, qty)
}

/// How much of an item the slots hold together, wrapping around.
pub open spec fn count_of(inv: Seq<SlotV>, item: Seq<char>) -> i32
    decreases inv.len(),
{
    if inv.len() == 0 {
        0
    } else if inv.last().item == item {
        count_of(inv.drop_last(), item).wrapping_add(inv.last().qty)
    } else {
        count_of(inv.drop_last(), item)
    }
}

/// How much of an item an inventory holds.
pub fn count_item_in(inv: &[InvSlot], item: &str) -> (r: i32)
    ensures
        r == count_of(slots_of(inv@), item@),
{
    let ghost v = slots_of(inv@);
    let mut sum: i32 = 0;
    let mut i: usize = 0;
    while i < inv.len()
        invariant
            i <= inv.len(),
            v == slots_of(inv@),
            sum == count_of(v.take(i as int), item@),
        decreases inv.len() - i,
    {
        if same_text(inv[i].item.as_str(), item) {
            sum = sum.wrapping_add(inv[i].qty);
        }
        assert(v.take(i + 1).drop_last() =~= v.take(i as int));
        assert(v.take(i + 1).last() == v[i as int]);
        i = i + 1;
    }
    assert(v.take(i as int) =~= v);
    sum
}

/// The smaller of two numbers.
pub open spec fn smaller(a: i32, b: i32) -> i32 {
    if a <= b {
        a
    } else {
        b
    }
}

fn min_of(a: i32, b: i32) -> (r: i32)
    ensures
        r == smaller(a, b),
{
    if a <= b {
        a
    } else {
        b
    }
}

/// The inventory after `amt` of the item were taken from the slots from `k` on,
/// slot by slot from those that hold some.
pub open spec fn taken(inv: Seq<SlotV>, item: Seq<char>, amt: i32, k: int) -> Seq<SlotV>
    decreases inv.len() - k,
{
    if k < 0 || k >= inv.len() {
        inv
    } else if slot_with(item)(inv[k]) {
        let take = smaller(amt, inv[k].qty);
        let rest = inv.update(k, slot_left(inv[k], inv[k].qty.wrapping_sub(take)));
        if amt.wrapping_sub(take) == 0 {
            rest
        } else {
            taken(rest, item, amt.wrapping_sub(take), k + 1)
        }
    } else {
        taken(inv, item, amt, k + 1)
    }
}

/// How much is still owed after taking from the slots from `k` on.
pub open spec fn owed(inv: Seq<SlotV>, item: Seq<char>, amt: i32, k: int) -> i32
    decreases inv.len() - k,
{
    if k >= inv.len() {
        amt
    } else if slot_with(item)(inv[k]) {
        let take = smaller(amt, inv[k].qty);
        if amt.wrapping_sub(take) == 0 {
            0
        } else {
            owed(inv, item, amt.wrapping_sub(take), k + 1)
        }
    } else {
        owed(inv, item, amt, k + 1)
    }
}

/// What is owed does not depend on the slots before `k`.
proof fn lemma_owed_from(a: Seq<SlotV>, b: Seq<SlotV>, item: Seq<char>, amt: i32, k: int)
    requires
        0 <= k,
        a.len() == b.len(),
        forall|j: int| k <= j < a.len() ==> a[j] == b[j],
    ensures
        owed(a, item, amt, k) == owed(b, item, amt, k),
    decreases a.len() - k,
{
    if k < a.len() {
        if slot_with(item)(a[k]) {
            lemma_owed_from(a, b, item, amt.wrapping_sub(smaller(amt, a[k].qty)), k + 1);
        } else {
            lemma_owed_from(a, b, item, amt, k + 1);
        }
    }
}

/// The inventory after `amt` of an item were taken; unchanged where it holds less.
pub open spec fn deducted(inv: Seq<SlotV>, item: Seq<char>, amt: i32) -> Seq<SlotV> {
    if count_of(inv, item) < amt {
        inv
    } else {
        taken(inv, item, amt, 0)
    }
}

/// Takes `amt` of an item and tells whether all of it was there. Where the
/// inventory holds less, nothing is taken.
pub fn deduct_item_from(inv: &mut Vec<InvSlot>, item: &str, amt: i32) -> (r: bool)
    ensures
        slots_of(final(inv)@) == deducted(slots_of(old(inv)@), item@, amt),
        final(inv)@.len() == old(inv)@.len(),
        r == (count_of(slots_of(old(inv)@), item@) >= amt && owed(
            slots_of(old(inv)@),
            item@,
            amt,
            0,
        ) == 0),
{
    let ghost v = slots_of(inv@);
    if count_item_in(inv.as_slice(), item) < amt {
        return false;
    }
    let mut left: i32 = amt;
    let mut i: usize = 0;
    while i < inv.len()
        invariant
            i <= inv.len(),
            inv@.len() == old(inv)@.len(),
            v == slots_of(old(inv)@),
            count_of(v, item@) >= amt,
            taken(v, item@, amt, 0) == taken(slots_of(inv@), item@, left, i as int),
            owed(v, item@, amt, 0) == owed(slots_of(inv@), item@, left, i as int),
        decreases inv.len() - i,
    {
        let ghost now = slots_of(inv@);
        if same_text(inv[i].item.as_str(), item) && inv[i].qty > 0 {
            let q: i32 = inv[i].qty;
            let take: i32 = min_of(left, q);
            let rest: i32 = q.wrapping_sub(take);
            inv[i].qty = rest;
            if rest == 0 {
                inv[i] = InvSlot::default();
            }
            assert(slots_of(inv@) =~= now.update(i as int, slot_left(now[i as int], rest)));
            assert(slot_with(item@)(now[i as int]));
            left = left.wrapping_sub(take);
            if left == 0 {
                return true;
            }
            proof {
                lemma_owed_from(now, slots_of(inv@), item@, left, i + 1);
            }
        } else {
            assert(!slot_with(item@)(now[i as int]));
        }
        i = i + 1;
    }
    left == 0
}

/// Whether an inventory holds some of the item.
pub fn has_item_in(inv: &[InvSlot], item: &str) -> (r: bool)
    ensures
        r == has_item(slots_of(inv@), item@),
{
    let ghost v = slots_of(inv@);
    let mut i: usize = 0;
    while i < inv.len()
        invariant
            i <= inv.len(),
            v == slots_of(inv@),
            forall|j: int| 0 <= j < i ==> !slot_with(item@)(#[trigger] v[j]),
        decreases inv.len() - i,
    {
        if same_text(inv[i].item.as_str(), item) && inv[i].qty > 0 {
            proof {
                lemma_first_is(v, slot_with(item@), 0, i as int);
            }
            return true;
        }
        i = i + 1;
    }
    proof {
        lemma_first_is(v, slot_with(item@), 0, v.len() as int);
    }
    false
}

/// How many coins an inventory holds.
pub fn coin_count(inv: &[InvSlot]) -> (r: i32)
    ensures
        r == count_of(slots_of(inv@), "coins"@),
{
    count_item_in(inv, "coins")
}

/// The inventory after `amt` coins were paid from the coin slots from `k` on.
pub open spec fn paid(inv: Seq<SlotV>, amt: i32, k: int) -> Seq<SlotV>
    decreases inv.len() - k,
{
    if k < 0 || k >= inv.len() {
        inv
    } else if inv[k].item == "coins"@ {
        let take = smaller(amt, inv[k].qty);
        let rest = inv.update(k, slot_left(inv[k], inv[k].qty.wrapping_sub(take)));
        if amt.wrapping_sub(take) == 0 {
            rest
        } else {
            paid(rest, amt.wrapping_sub(take), k + 1)
        }
    } else {
        paid(inv, amt, k + 1)
    }
}

/// Pays `amt` coins, if there are that many; tells whether there were.
pub fn deduct_coins(inv: &mut Vec<InvSlot>, amt: i32) -> (r: bool)
    ensures
        r == (count_of(slots_of(old(inv)@), "coins"@) >= amt),
        slots_of(final(inv)@) == if r {
            paid(slots_of(old(inv)@), amt, 0)
        } else {
            slots_of(old(inv)@)
        },
        final(inv)@.len() == old(inv)@.len(),
{
    let ghost v = slots_of(inv@);
    if coin_count(inv.as_slice()) < amt {
        return false;
    }
    let mut left: i32 = amt;
    let mut i: usize = 0;
    while i < inv.len()
        invariant
            i <= inv.len(),
            inv@.len() == old(inv)@.len(),
            v == slots_of(old(inv)@),
            count_of(v, "coins"@) >= amt,
            paid(v, amt, 0) == paid(slots_of(inv@), left, i as int),
        decreases inv.len() - i,
    {
        let ghost now = slots_of(inv@);
        if same_text(inv[i].item.as_str(), "coins") {
            let q: i32 = inv[i].qty;
            let take: i32 = min_of(left, q);
            let rest: i32 = q.wrapping_sub(take);
            inv[i].qty = rest;
            if rest == 0 {
                inv[i] = InvSlot::default();
            }
            assert(slots_of(inv@) =~= now.update(i as int, slot_left(now[i as int], rest)));
            left = left.wrapping_sub(take);
            if left == 0 {
                return true;
            }
        }
        i = i + 1;
    }
    true
}

/// The best tool of a kind among the slots: the highest tier, the later slot of two alike.
pub open spec fn best_tool_of(inv: Seq<SlotV>, kind: Seq<char>) -> Option<ToolDef>
    decreases inv.len(),
{
    if inv.len() == 0 {
        None
    } else {
        let best = best_tool_of(inv.drop_last(), kind);
        let s = inv.last();
        match tool_of(s.item) {
            Some(t) => if s.qty > 0 && t.kind@ == kind && (best is None || t.tier
                >= best.unwrap().tier) {
                Some(t)
            } else {
                best
            },
            None => best,
        }
    }
}

/// The best tool of a kind in an inventory.
pub fn best_tool(inv: &[InvSlot], kind: &str) -> (r: Option<ToolDef>)
    ensures
        r == best_tool_of(slots_of(inv@), kind@),
        r matches Some(t) ==> 1 <= t.tier <= 4 && 1 <= t.power <= 8,
{
    let ghost v = slots_of(inv@);
    let mut best: Option<ToolDef> = None;
    let mut i: usize = 0;
    while i < inv.len()
        invariant
            i <= inv.len(),
            v == slots_of(inv@),
            best == best_tool_of(v.take(i as int), kind@),
            best matches Some(t) ==> 1 <= t.tier <= 4 && 1 <= t.power <= 8,
        decreases inv.len() - i,
    {
        assert(v.take(i + 1).drop_last() =~= v.take(i as int));
        assert(v.take(i + 1).last() == v[i as int]);
        if inv[i].qty > 0 {
            if let Some(t) = tool_def(inv[i].item.as_str()) {
                if same_text(t.kind, kind) {
                    let better: bool = match best {
                        Some(b) => t.tier >= b.tier,
                        None => true,
                    };
                    if better {
                        best = Some(t);
                    }
                }
            }
        }
        i = i + 1;
    }
    assert(v.take(i as int) =~= v);
    best
}

/// What one slot is worth in coins.
pub open spec fn slot_worth(s: SlotV) -> int {
    if s.qty <= 0 || s.item.len() == 0 {
        0
    } else if s.item == "coins"@ {
        s.qty as int
    } else {
        match item_price(s.item) {
            Some(unit) => unit * s.qty,
            None => 0,
        }
    }
}

/// What an inventory is worth in coins.
pub open spec fn worth(inv: Seq<SlotV>) -> int
    decreases inv.len(),
{
    if inv.len() == 0 {
        0
    } else {
        worth(inv.drop_last()) + slot_worth(inv.last())
    }
}

/// Fewer slots are worth no more.
proof fn lemma_worth_below(inv: Seq<SlotV>, k: int)
    requires
        0 <= k <= inv.len(),
    ensures
        0 <= worth(inv.take(k)) <= worth(inv),
    decreases inv.len(),
{
    if k < inv.len() {
        lemma_worth_below(inv.drop_last(), k);
        lemma_slot_worth(inv.last());
        assert(inv.drop_last().take(k) =~= inv.take(k));
    } else {
        assert(inv.take(k) =~= inv);
        if inv.len() > 0 {
            lemma_worth_below(inv.drop_last(), inv.len() - 1);
            lemma_slot_worth(inv.last());
            assert(inv.drop_last().take(inv.len() - 1) =~= inv.drop_last());
        }
    }
}

/// What a slot is worth is not negative and fits in 50 bits.
proof fn lemma_slot_worth(s: SlotV)
    ensures
        0 <= slot_worth(s) <= 0x5_0000_0000_0000,
{
    if let Some(unit) = item_price(s.item) {
        lemma_item_price(s.item);
        if s.qty > 0 {
            assert(0 <= unit * s.qty <= 0x5_0000_0000_0000) by (nonlinear_arith)
                requires
                    0 <= unit <= 600000,
                    0 < s.qty <= 0x7fff_ffff,
            ;
        }
    }
}

/// A small inventory is worth something that fits in 64 bits.
pub proof fn lemma_worth_fits(inv: Seq<SlotV>)
    ensures
        0 <= worth(inv) <= inv.len() * 0x5_0000_0000_0000,
    decreases inv.len(),
{
    if inv.len() > 0 {
        lemma_worth_fits(inv.drop_last());
        lemma_slot_worth(inv.last());
    }
}

/// What an inventory is worth in coins.
pub fn inventory_gp_value(inv: &[InvSlot]) -> (r: i64)
    requires
        worth(slots_of(inv@)) <= i64::MAX,
    ensures
        r == worth(slots_of(inv@)),
        r >= 0,
{
    let ghost v = slots_of(inv@);
    let mut sum: i64 = 0;
    let mut i: usize = 0;
    while i < inv.len()
        invariant
            i <= inv.len(),
            v == slots_of(inv@),
            worth(v) <= i64::MAX,
            sum == worth(v.take(i as int)),
            0 <= sum,
        decreases inv.len() - i,
    {
        assert(v.take(i + 1).drop_last() =~= v.take(i as int));
        assert(v.take(i + 1).last() == v[i as int]);
        proof {
            lemma_worth_below(v, i + 1);
            lemma_slot_worth(v[i as int]);
        }
        if inv[i].qty > 0 && !inv[i].item.as_str().is_empty() {
            let unit: i64 = if same_text(inv[i].item.as_str(), "coins") {
                1
            } else {
                match item_value(inv[i].item.as_str()) {
                    Some(u) => u as i64,
                    None => 0,
                }
            };
            let q: i64 = inv[i].qty as i64;
            assert(0 <= unit * q <= 0x5_0000_0000_0000) by (nonlinear_arith)
                requires
                    0 <= unit <= 600000,
                    0 < q <= 0x7fff_ffff,
            ;
            assert(unit == 1 ==> unit * q == q);
            assert(unit == 0 ==> unit * q == 0);
            sum = sum + unit * q;
        }
        i = i + 1;
    }
    proof {
        lemma_worth_below(v, 0);
    }
    assert(v.take(i as int) =~= v);
    sum
}

/// Whether a player has the rod, in the inventory or in the right hand.
pub open spec fn owns_rod(inv: Seq<SlotV>, e: EquipV, rod: Seq<char>) -> bool {
    has_item(inv, rod) || e.right_hand == rod
}

fn has_rod(inv: &[InvSlot], equipment: &Equipment, rod: &str) -> (r: bool)
    ensures
        r == owns_rod(slots_of(inv@), equipment@, rod@),
{
    has_item_in(inv, rod) || same_text(equipment.right_hand.as_str(), rod)
}

/// The highest owned rod among the first `n` that the fishing level allows.
pub open spec fn usable_rod_below(fishing: i32, inv: Seq<SlotV>, e: EquipV, n: int) -> Option<
    FishDef,
>
    decreases n,
{
    if n <= 0 {
        None
    } else if fishing >= min_level(fish_table()[n - 1].tier) && owns_rod(
        inv,
        e,
        fish_table()[n - 1].rod@,
    ) {
        Some(fish_table()[n - 1])
    } else {
        usable_rod_below(fishing, inv, e, n - 1)
    }
}

/// The highest owned rod that the fishing level allows.
pub open spec fn usable_rod(fishing: i32, inv: Seq<SlotV>, e: EquipV) -> Option<FishDef> {
    usable_rod_below(fishing, inv, e, 4)
}

/// The highest owned rod.
pub open spec fn owned_rod(inv: Seq<SlotV>, e: EquipV) -> Option<FishDef> {
    usable_rod(i32::MAX, inv, e)
}

fn rod_for(fishing: i32, inv: &[InvSlot], equipment: &Equipment) -> (r: Option<FishDef>)
    ensures
        r == usable_rod(fishing, slots_of(inv@), equipment@),
        r matches Some(f) ==> 0 <= f.tier <= 3 && 8 <= f.xp <= 512,
{
    let t: [FishDef; 4] = fish_defs();
    let mut n: usize = 4;
    while n > 0
        invariant
            n <= 4,
            t@ == fish_table(),
            usable_rod(fishing, slots_of(inv@), equipment@) == usable_rod_below(
                fishing,
                slots_of(inv@),
                equipment@,
                n as int,
            ),
        decreases n,
    {
        let f: FishDef = t[n - 1];
        if fishing >= fish_min_level(f.tier) && has_rod(inv, equipment, f.rod) {
            return Some(f);
        }
        n = n - 1;
    }
    None
}

/// The rod in the right hand.
pub fn equipped_rod_def(equipment: &Equipment) -> (r: Option<FishDef>)
    ensures
        r == fish_by_rod(equipment@.right_hand),
        r matches Some(f) ==> 0 <= f.tier <= 3 && 8 <= f.xp <= 512,
{
    fish_def_by_rod(equipment.right_hand.as_str())
}

/// The highest owned rod that the player's fishing level allows.
pub fn best_usable_rod(skills: &Skills, inv: &[InvSlot], equipment: &Equipment) -> (r: Option<
    FishDef,
>)
    ensures
        r == usable_rod(skills.fishing, slots_of(inv@), equipment@),
        r matches Some(f) ==> 0 <= f.tier <= 3 && 8 <= f.xp <= 512,
{
    rod_for(skills.fishing, inv, equipment)
}

/// The highest owned rod.
pub fn highest_owned_rod(inv: &[InvSlot], equipment: &Equipment) -> (r: Option<FishDef>)
    ensures
        r == owned_rod(slots_of(inv@), equipment@),
        r matches Some(f) ==> 0 <= f.tier <= 3 && 8 <= f.xp <= 512,
{
    rod_for(i32::MAX, inv, equipment)
}

/// Whether the player owns any rod.
pub fn player_any_rod_available(inv: &[InvSlot], equipment: &Equipment) -> (r: bool)
    ensures
        r == (owned_rod(slots_of(inv@), equipment@) is Some),
{
    highest_owned_rod(inv, equipment).is_some()
}

/// What a player hears whose fishing level is too low for a rod.
pub open spec fn level_too_low(f: FishDef) -> Seq<char> {
    "Your fishing level is too low for the "@ + f.rod_name@ + " (need "@ + decimal(
        min_level(f.tier) as int,
    ) + ")."@
}

/// What a player hears whose fishing level is too low for a rod.
pub fn level_too_low_text(f: &FishDef) -> (r: String)
    ensures
        r@ == level_too_low(*f),
{
    join5(
        "Your fishing level is too low for the ",
        f.rod_name,
        " (need ",
        int_text(fish_min_level(f.tier) as i64).as_str(),
        ").",
    )
}

/// The rod that a player fishes with: the one in hand, else the best that the
/// level allows; without one, what the player hears.
pub open spec fn active_rod(fishing: i32, inv: Seq<SlotV>, e: EquipV) -> Result<
    FishDef,
    Seq<char>,
> {
    match fish_by_rod(e.right_hand) {
        Some(f) => Ok(f),
        None => match usable_rod(fishing, inv, e) {
            Some(f) => Ok(f),
            None => match owned_rod(inv, e) {
                Some(f) => Err(level_too_low(f)),
                None => Err("You need a fishing rod."@),
            },
        },
    }
}

/// Chooses the rod that a player fishes with.
pub fn choose_active_rod(skills: &Skills, inv: &[InvSlot], equipment: &Equipment) -> (r: Result<
    FishDef,
    String,
>)
    ensures
        match (r, active_rod(skills.fishing, slots_of(inv@), equipment@)) {
            (Ok(f), Ok(g)) => f == g && 0 <= f.tier <= 3 && 8 <= f.xp <= 512,
            (Err(m), Err(t)) => m@ == t,
            _ => false,
        },
{
    if let Some(f) = equipped_rod_def(equipment) {
        return Ok(f);
    }
    if let Some(f) = best_usable_rod(skills, inv, equipment) {
        return Ok(f);
    }
    if let Some(f) = highest_owned_rod(inv, equipment) {
        return Err(level_too_low_text(&f));
    }
    Err("You need a fishing rod.".to_owned())
}

/// What the blacksmith makes: the item, its name, the ore and how much of it.
pub open spec fn recipe_of(item: Seq<char>) -> Option<
    (&'static str, &'static str, &'static str, i32),
> {
    match armor_of(item) {
        Some(a) => Some((a.item, a.name, a.ore, a.ore_qty)),
        None => match sword_of(item) {
            Some(s) => Some((s.item, s.name, s.ore, s.ore_qty)),
            None => None,
        },
    }
}

/// The recipe for an item of the blacksmith.
pub fn forge_recipe(item: &str) -> (r: Option<(&'static str, &'static str, &'static str, i32)>)
    ensures
        r == recipe_of(item@),
        r matches Some(t) ==> 5 <= t.3 <= 10,
{
    if let Some(a) = armor_def(item) {
        return Some((a.item, a.name, a.ore, a.ore_qty));
    }
    if let Some(s) = sword_def(item) {
        return Some((s.item, s.name, s.ore, s.ore_qty));
    }
    None
}

/// Whether a slot can be offered in a trade: it exists and holds something.
pub open spec fn offerable(inv: Seq<SlotV>, slot: usize) -> bool {
    slot < INV_SIZE && slot < inv.len() && inv[slot as int].item.len() > 0 && inv[slot as int].qty > 0
}

/// Whether the slots can be offered together: each can be, and none twice.
pub open spec fn offer_ok(inv: Seq<SlotV>, slots: Seq<usize>) -> bool {
    &&& forall|k: int| 0 <= k < slots.len() ==> offerable(inv, #[trigger] slots[k])
    &&& forall|j: int, k: int| 0 <= j < k < slots.len() ==> slots[j] != slots[k]
}

/// What the slots hold.
pub open spec fn offered(inv: Seq<SlotV>, slots: Seq<usize>) -> Seq<SlotV> {
    Seq::new(slots.len(), |k: int| inv[slots[k] as int])
}

/// The offered slots with what they hold; nothing if one of them cannot be offered
/// or stands twice in the list.
pub fn offer_items_from_slots(inv: &[InvSlot], slots: &[usize]) -> (r: Option<
    Vec<(usize, InvSlot)>,
>)
    ensures
        r is Some == offer_ok(slots_of(inv@), slots@),
        r matches Some(v) ==> v@.len() == slots@.len() && forall|k: int|
            0 <= k < v@.len() ==> (#[trigger] v@[k]).0 == slots@[k] && v@[k].1@ == slots_of(
                inv@,
            )[slots@[k] as int],
{
    let ghost g = slots_of(inv@);
    let mut out: Vec<(usize, InvSlot)> = Vec::new();
    let mut i: usize = 0;
    while i < slots.len()
        invariant
            i <= slots.len(),
            g == slots_of(inv@),
            out@.len() == i,
            forall|k: int| 0 <= k < i ==> (#[trigger] out@[k]).0 == slots@[k] && out@[k].1@
                == g[slots@[k] as int],
            forall|k: int| 0 <= k < i ==> offerable(g, #[trigger] slots@[k]),
            forall|j: int, k: int| 0 <= j < k < i ==> slots@[j] != slots@[k],
        decreases slots.len() - i,
    {
        let slot: usize = slots[i];
        if slot >= INV_SIZE || slot >= inv.len() {
            assert(!offerable(g, slots@[i as int]));
            return None;
        }
        let mut j: usize = 0;
        while j < out.len()
            invariant
                j <= out.len(),
                out@.len() == i,
                i < slots.len(),
                slot == slots@[i as int],
                forall|k: int| 0 <= k < i ==> (#[trigger] out@[k]).0 == slots@[k],
                forall|k: int| 0 <= k < j ==> slots@[k] != slot,
            decreases out.len() - j,
        {
            if out[j].0 == slot {
                assert(slots@[j as int] == slots@[i as int]);
                return None;
            }
            j = j + 1;
        }
        if inv[slot].item.as_str().is_empty() || inv[slot].qty <= 0 {
            assert(!offerable(g, slots@[i as int]));
            return None;
        }
        out.push((slot, inv[slot].clone()));
        i = i + 1;
    }
    Some(out)
}

/// The inventory with the given slots emptied.
pub open spec fn emptied(inv: Seq<SlotV>, slots: Seq<usize>) -> Seq<SlotV>
    decreases slots.len(),
{
    if slots.len() == 0 {
        inv
    } else {
        emptied(inv, slots.drop_last()).update(slots.last() as int, free_slot())
    }
}

/// The inventory after the given stacks were added, one after the other.
pub open spec fn received(inv: Seq<SlotV>, items: Seq<SlotV>) -> Seq<SlotV>
    decreases items.len(),
{
    if items.len() == 0 {
        inv
    } else {
        added(received(inv, items.drop_last()), items.last().item, items.last().qty)
    }
}

/// Whether there is room for all of the given stacks, added one after the other.
pub open spec fn receives(inv: Seq<SlotV>, items: Seq<SlotV>) -> bool
    decreases items.len(),
{
    items.len() == 0 || (receives(inv, items.drop_last()) && fits(
        received(inv, items.drop_last()),
        items.last().item,
    ))
}

/// Room for a longer list is room for each shorter one.
proof fn lemma_receives_prefix(inv: Seq<SlotV>, items: Seq<SlotV>, n: int)
    requires
        0 <= n <= items.len(),
        receives(inv, items),
    ensures
        receives(inv, items.take(n)),
    decreases items.len(),
{
    if n < items.len() {
        lemma_receives_prefix(inv, items.drop_last(), n);
        assert(items.drop_last().take(n) =~= items.take(n));
    } else {
        assert(items.take(n) =~= items);
    }
}

/// Empties the given slots.
pub fn empty_slots(inv: &mut Vec<InvSlot>, slots: &[usize])
    requires
        forall|k: int| 0 <= k < slots@.len() ==> (#[trigger] slots@[k]) < old(inv)@.len(),
    ensures
        slots_of(final(inv)@) == emptied(slots_of(old(inv)@), slots@),
        final(inv)@.len() == old(inv)@.len(),
{
    let ghost v = slots_of(inv@);
    let mut i: usize = 0;
    while i < slots.len()
        invariant
            i <= slots.len(),
            v == slots_of(old(inv)@),
            inv@.len() == old(inv)@.len(),
            forall|k: int| 0 <= k < slots@.len() ==> (#[trigger] slots@[k]) < inv@.len(),
            slots_of(inv@) == emptied(v, slots@.take(i as int)),
        decreases slots.len() - i,
    {
        let ghost before = slots_of(inv@);
        let slot: usize = slots[i];
        inv[slot] = InvSlot::default();
        assert(slots_of(inv@) =~= before.update(slot as int, free_slot()));
        assert(slots@.take(i + 1).drop_last() =~= slots@.take(i as int));
        i = i + 1;
    }
    assert(slots@.take(i as int) =~= slots@);
}

/// Adds the given stacks, one after the other; what finds no room is lost.
pub fn receive_items(inv: &mut Vec<InvSlot>, items: &[InvSlot])
    ensures
        slots_of(final(inv)@) == received(slots_of(old(inv)@), slots_of(items@)),
        final(inv)@.len() == old(inv)@.len(),
{
    let ghost v = slots_of(inv@);
    let ghost t = slots_of(items@);
    let mut i: usize = 0;
    while i < items.len()
        invariant
            i <= items.len(),
            v == slots_of(old(inv)@),
            t == slots_of(items@),
            inv@.len() == old(inv)@.len(),
            slots_of(inv@) == received(v, t.take(i as int)),
        decreases items.len() - i,
    {
        add_inv_into(inv, items[i].item.as_str(), items[i].qty);
        assert(t.take(i + 1).drop_last() =~= t.take(i as int));
        i = i + 1;
    }
    assert(t.take(i as int) =~= t);
}

/// Whether an inventory has room for what comes in once the given slots are emptied.
pub open spec fn can_receive(inv: Seq<SlotV>, incoming: Seq<SlotV>, slots: Seq<usize>) -> bool {
    offer_ok(inv, slots) && receives(emptied(inv, slots), incoming)
}

/// Whether an inventory has room for what comes in once the offered slots are emptied.
pub fn can_receive_trade_items(
    inv: &[InvSlot],
    incoming: &[InvSlot],
    outgoing_slots: &[usize],
) -> (r: bool)
    ensures
        r == can_receive(slots_of(inv@), slots_of(incoming@), outgoing_slots@),
{
    if offer_items_from_slots(inv, outgoing_slots).is_none() {
        return false;
    }
    let ghost t = slots_of(incoming@);
    let mut room: Vec<InvSlot> = copy_slots(inv);
    assert forall|k: int| 0 <= k < outgoing_slots@.len() implies (#[trigger] outgoing_slots@[k])
        < room@.len() by {
        assert(offerable(slots_of(inv@), outgoing_slots@[k]));
    }
    empty_slots(&mut room, outgoing_slots);
    let ghost v = slots_of(room@);
    let mut i: usize = 0;
    while i < incoming.len()
        invariant
            i <= incoming.len(),
            t == slots_of(incoming@),
            v == emptied(slots_of(inv@), outgoing_slots@),
            offer_ok(slots_of(inv@), outgoing_slots@),
            slots_of(room@) == received(v, t.take(i as int)),
            receives(v, t.take(i as int)),
        decreases incoming.len() - i,
    {
        assert(t.take(i + 1).drop_last() =~= t.take(i as int));
        if !add_inv_to_slots(&mut room, incoming[i].item.as_str(), incoming[i].qty) {
            proof {
                if receives(v, t) {
                    lemma_receives_prefix(v, t, i + 1);
                }
            }
            return false;
        }
        i = i + 1;
    }
    assert(t.take(i as int) =~= t);
    true
}

/// A slot with an old fishing rod becomes one with an oak rod.
pub open spec fn renamed_rod(s: SlotV) -> SlotV {
    if s.item == "fishing_rod"@ && s.qty > 0 {
        SlotV { item: "oakrod"@, qty: s.qty }
    } else {
        s
    }
}

/// The equipment with an old fishing rod in hand replaced by an oak rod.
pub open spec fn renamed_hand(e: EquipV) -> EquipV {
    if e.right_hand == "fishing_rod"@ {
        EquipV { right_hand: "oakrod"@, ..e }
    } else {
        e
    }
}

/// Turns old fishing rods, in the inventory and in the right hand, into oak rods.
pub fn migrate_legacy_fishing_rod(inv: &mut Vec<InvSlot>, equipment: &mut Equipment)
    ensures
        slots_of(final(inv)@) == Seq::new(
            old(inv)@.len(),
            |k: int| renamed_rod(slots_of(old(inv)@)[k]),
        ),
        final(inv)@.len() == old(inv)@.len(),
        final(equipment)@ == renamed_hand(old(equipment)@),
{
    let mut i: usize = 0;
    while i < inv.len()
        invariant
            i <= inv.len(),
            inv@.len() == old(inv)@.len(),
            *equipment == *old(equipment),
            forall|k: int| 0 <= k < i ==> (#[trigger] inv@[k])@ == renamed_rod(old(inv)@[k]@),
            forall|k: int| i <= k < inv@.len() ==> #[trigger] inv@[k] == old(inv)@[k],
        decreases inv.len() - i,
    {
        if same_text(inv[i].item.as_str(), "fishing_rod") && inv[i].qty > 0 {
            inv[i].item = "oakrod".to_owned();
        }
        i = i + 1;
    }
    assert(slots_of(inv@) =~= Seq::new(
        old(inv)@.len(),
        |k: int| renamed_rod(slots_of(old(inv)@)[k]),
    ));
    if same_text(equipment.right_hand.as_str(), "fishing_rod") {
        equipment.right_hand = "oakrod".to_owned();
    }
}

} // verus!
