//! What becomes of the items: nothing is lost or made out of nothing where items change
//! hands, are spent, are worn or are dropped.

use vstd::prelude::*;
use crate::defs::tool_of;
use crate::inventory::{
    added, best_tool_of, can_receive, count_of, deducted, emptied, fits, has_item, offer_ok,
    offerable, offered, owed, paid, received, receives, slot_free, slot_left, slot_with, smaller,
    taken,
};
use crate::search::{first_at, lemma_first_at};
use crate::types::{free_slot, SlotV};

verus! {

/// What a slot holds of an item.
pub open spec fn held(s: SlotV, item: Seq<char>) -> int {
    if s.item == item {
        s.qty as int
    } else {
        0
    }
}

/// How much of an item there is in a list of slots.
pub open spec fn total(inv: Seq<SlotV>, item: Seq<char>) -> int
    decreases inv.len(),
{
    if inv.len() == 0 {
        0
    } else {
        total(inv.drop_last(), item) + held(inv.last(), item)
    }
}

/// No slot holds less than nothing.
pub open spec fn sound(inv: Seq<SlotV>) -> bool {
    forall|k: int| 0 <= k < inv.len() ==> (#[trigger] inv[k]).qty >= 0
}

/// Each item of a list, other than one and other than none, is there as often as in
/// another.
pub open spec fn others_kept(a: Seq<SlotV>, b: Seq<SlotV>, item: Seq<char>) -> bool {
    forall|other: Seq<char>| other.len() > 0 && other != item ==> #[trigger] total(b, other) == total(a, other)
}

pub proof fn lemma_total_update(inv: Seq<SlotV>, k: int, s: SlotV, item: Seq<char>)
    requires
        0 <= k < inv.len(),
    ensures
        total(inv.update(k, s), item) == total(inv, item) - held(inv[k], item) + held(s, item),
    decreases inv.len(),
{
    let u = inv.update(k, s);
    if k == inv.len() - 1 {
        assert(u.drop_last() =~= inv.drop_last());
    } else {
        lemma_total_update(inv.drop_last(), k, s, item);
        assert(u.drop_last() =~= inv.drop_last().update(k, s));
    }
}

pub proof fn lemma_total_sound(inv: Seq<SlotV>, item: Seq<char>)
    requires
        sound(inv),
    ensures
        total(inv, item) >= 0,
        forall|k: int| 0 <= k < inv.len() ==> held(#[trigger] inv[k], item) <= total(inv, item),
    decreases inv.len(),
{
    if inv.len() > 0 {
        let d = inv.drop_last();
        assert(sound(d)) by {
            assert forall|k: int| 0 <= k < d.len() implies (#[trigger] d[k]).qty >= 0 by {
                assert(inv[k].qty >= 0);
            }
        }
        lemma_total_sound(d, item);
        assert(inv.last().qty >= 0);
        assert forall|k: int| 0 <= k < inv.len() implies held(#[trigger] inv[k], item) <= total(
            inv,
            item,
        ) by {
            if k < d.len() {
                assert(held(d[k], item) <= total(d, item));
            }
        }
    }
}

/// The count of an item is how much of it there is, as long as that fits in 32 bits.
pub proof fn law_count_is_total(inv: Seq<SlotV>, item: Seq<char>)
    requires
        sound(inv),
        total(inv, item) <= i32::MAX,
    ensures
        count_of(inv, item) == total(inv, item),
    decreases inv.len(),
{
    if inv.len() > 0 {
        let d = inv.drop_last();
        assert forall|k: int| 0 <= k < d.len() implies (#[trigger] d[k]).qty >= 0 by {
            assert(inv[k].qty >= 0);
        }
        assert(inv.last().qty >= 0);
        lemma_total_sound(d, item);
        law_count_is_total(d, item);
    }
}

/// Adding an item adds just that much of it and leaves every other item as it was;
/// where there is no room nothing changes.
pub proof fn law_add_adds(inv: Seq<SlotV>, item: Seq<char>, qty: i32)
    requires
        sound(inv),
        0 <= qty,
        total(inv, item) + qty <= i32::MAX,
    ensures
        fits(inv, item) ==> total(added(inv, item, qty), item) == total(inv, item) + qty,
        !fits(inv, item) ==> added(inv, item, qty) == inv,
        others_kept(inv, added(inv, item, qty), item),
        sound(added(inv, item, qty)),
        added(inv, item, qty).len() == inv.len(),
{
    lemma_first_at(inv, slot_with(item), 0);
    lemma_first_at(inv, slot_free(), 0);
    lemma_total_sound(inv, item);
    let k = first_at(inv, slot_with(item), 0);
    let n = first_at(inv, slot_free(), 0);
    let r = added(inv, item, qty);
    if k < inv.len() {
        let s = SlotV { item, qty: inv[k].qty.wrapping_add(qty) };
        assert(slot_with(item)(inv[k]));
        assert(held(inv[k], item) <= total(inv, item));
        assert forall|other: Seq<char>| #[trigger] total(r, other) == total(inv, other) - held(
            inv[k],
            other,
        ) + held(s, other) by {
            lemma_total_update(inv, k, s, other);
        }
    } else if n < inv.len() {
        let s = SlotV { item, qty };
        assert(slot_free()(inv[n]));
        assert forall|other: Seq<char>| #[trigger] total(r, other) == total(inv, other) - held(
            inv[n],
            other,
        ) + held(s, other) by {
            lemma_total_update(inv, n, s, other);
        }
    }
}

/// How much of an item there is in the slots from one on.
pub open spec fn total_from(inv: Seq<SlotV>, item: Seq<char>, k: int) -> int
    decreases inv.len() - k,
{
    if k < 0 || k >= inv.len() {
        0
    } else {
        held(inv[k], item) + total_from(inv, item, k + 1)
    }
}

proof fn lemma_total_from(inv: Seq<SlotV>, item: Seq<char>, k: int)
    requires
        0 <= k <= inv.len(),
    ensures
        total(inv, item) == total(inv.take(k), item) + total_from(inv, item, k),
    decreases inv.len() - k,
{
    if k < inv.len() {
        lemma_total_from(inv, item, k + 1);
        assert(inv.take(k + 1).drop_last() =~= inv.take(k));
    } else {
        assert(inv.take(k) =~= inv);
    }
}

proof fn lemma_from_update(inv: Seq<SlotV>, item: Seq<char>, j: int, s: SlotV, k: int)
    requires
        0 <= j < k <= inv.len(),
    ensures
        total_from(inv.update(j, s), item, k) == total_from(inv, item, k),
    decreases inv.len() - k,
{
    if k < inv.len() {
        lemma_from_update(inv, item, j, s, k + 1);
    }
}

proof fn lemma_left(inv: Seq<SlotV>, item: Seq<char>, k: int, take: i32)
    requires
        0 <= k < inv.len(),
        sound(inv),
        item.len() > 0,
        inv[k].item == item,
        0 <= take <= inv[k].qty,
    ensures
        ({
            let r = inv.update(k, slot_left(inv[k], inv[k].qty.wrapping_sub(take)));
            &&& total(r, item) == total(inv, item) - take
            &&& others_kept(inv, r, item)
            &&& sound(r)
        }),
{
    let s = slot_left(inv[k], inv[k].qty.wrapping_sub(take));
    let r = inv.update(k, s);
    assert forall|other: Seq<char>| #[trigger] total(r, other) == total(inv, other) - held(
        inv[k],
        other,
    ) + held(s, other) by {
        lemma_total_update(inv, k, s, other);
    }
}

/// There is room for an item where a slot is free or holds some of it.
pub proof fn lemma_room(inv: Seq<SlotV>, item: Seq<char>, k: int)
    requires
        0 <= k < inv.len(),
        slot_with(item)(inv[k]) || slot_free()(inv[k]),
    ensures
        fits(inv, item),
{
    lemma_first_at(inv, slot_with(item), 0);
    lemma_first_at(inv, slot_free(), 0);
    if first_at(inv, slot_with(item), 0) >= inv.len() {
        assert(!slot_with(item)(inv[k]));
    }
    if first_at(inv, slot_free(), 0) >= inv.len() {
        assert(!slot_free()(inv[k]));
    }
}

/// Where no slot holds some of an item there is none of it.
pub proof fn lemma_not_held(inv: Seq<SlotV>, item: Seq<char>)
    requires
        sound(inv),
        !has_item(inv, item),
    ensures
        total(inv, item) == 0,
{
    lemma_first_at(inv, slot_with(item), 0);
    assert forall|k: int| 0 <= k < inv.len() implies held(#[trigger] inv[k], item) == 0 by {
        assert(!slot_with(item)(inv[k]));
        assert(inv[k].qty >= 0);
    }
    lemma_held_nowhere(inv, item);
}

proof fn lemma_held_nowhere(inv: Seq<SlotV>, item: Seq<char>)
    requires
        forall|k: int| 0 <= k < inv.len() ==> held(#[trigger] inv[k], item) == 0,
    ensures
        total(inv, item) == 0,
    decreases inv.len(),
{
    if inv.len() > 0 {
        let d = inv.drop_last();
        assert forall|k: int| 0 <= k < d.len() implies held(#[trigger] d[k], item) == 0 by {
            assert(held(inv[k], item) == 0);
        }
        lemma_held_nowhere(d, item);
        assert(held(inv[inv.len() - 1], item) == 0);
    }
}

proof fn lemma_taken(inv: Seq<SlotV>, item: Seq<char>, amt: i32, k: int)
    requires
        0 <= k <= inv.len(),
        sound(inv),
        item.len() > 0,
        0 < amt <= total_from(inv, item, k),
    ensures
        total(taken(inv, item, amt, k), item) == total(inv, item) - amt,
        others_kept(inv, taken(inv, item, amt, k), item),
        sound(taken(inv, item, amt, k)),
        taken(inv, item, amt, k).len() == inv.len(),
        owed(inv, item, amt, k) == 0,
        fits(taken(inv, item, amt, k), item),
    decreases inv.len() - k,
{
    assert(k < inv.len());
    assert(inv[k].qty >= 0);
    if slot_with(item)(inv[k]) {
        let take = smaller(amt, inv[k].qty);
        lemma_left(inv, item, k, take);
        let s = slot_left(inv[k], inv[k].qty.wrapping_sub(take));
        let rest = inv.update(k, s);
        if amt.wrapping_sub(take) != 0 {
            lemma_from_update(inv, item, k, s, k + 1);
            lemma_taken(rest, item, amt.wrapping_sub(take), k + 1);
            lemma_owed_skip(inv, rest, item, amt.wrapping_sub(take), k + 1);
        } else {
            lemma_room(rest, item, k);
        }
    } else {
        lemma_taken(inv, item, amt, k + 1);
    }
}

proof fn lemma_owed_skip(a: Seq<SlotV>, b: Seq<SlotV>, item: Seq<char>, amt: i32, k: int)
    requires
        0 <= k,
        a.len() == b.len(),
        forall|j: int| k <= j < a.len() ==> a[j] == b[j],
    ensures
        owed(a, item, amt, k) == owed(b, item, amt, k),
    decreases a.len() - k,
{
    if k < a.len() {
        assert(a[k] == b[k]);
        if slot_with(item)(a[k]) {
            lemma_owed_skip(a, b, item, amt.wrapping_sub(smaller(amt, a[k].qty)), k + 1);
        } else {
            lemma_owed_skip(a, b, item, amt, k + 1);
        }
    }
}

/// Taking an item takes just that much of it, if there is so much, and nothing else.
pub proof fn law_deduct_takes(inv: Seq<SlotV>, item: Seq<char>, amt: i32)
    requires
        sound(inv),
        item.len() > 0,
        0 < amt,
        total(inv, item) <= i32::MAX,
    ensures
        total(deducted(inv, item, amt), item) == total(inv, item) - if amt <= total(inv, item) {
            amt as int
        } else {
            0
        },
        amt <= total(inv, item) ==> owed(inv, item, amt, 0) == 0,
        amt <= total(inv, item) ==> fits(deducted(inv, item, amt), item),
        others_kept(inv, deducted(inv, item, amt), item),
        sound(deducted(inv, item, amt)),
{
    law_count_is_total(inv, item);
    lemma_total_from(inv, item, 0);
    assert(inv.take(0) =~= Seq::<SlotV>::empty());
    if amt <= total(inv, item) {
        lemma_taken(inv, item, amt, 0);
    }
}

/// What was taken finds room again, and once it is added there is as much as before.
pub proof fn law_deduct_then_add(inv: Seq<SlotV>, item: Seq<char>, amt: i32)
    requires
        sound(inv),
        item.len() > 0,
        0 < amt <= total(inv, item) <= i32::MAX,
    ensures
        total(added(deducted(inv, item, amt), item, amt), item) == total(inv, item),
        others_kept(inv, added(deducted(inv, item, amt), item, amt), item),
{
    law_deduct_takes(inv, item, amt);
    let d = deducted(inv, item, amt);
    law_add_adds(d, item, amt);
    let r = added(d, item, amt);
    assert forall|other: Seq<char>| other.len() > 0 && other != item implies #[trigger] total(
        r,
        other,
    ) == total(inv, other) by {
        assert(total(d, other) == total(inv, other));
    }
}

proof fn lemma_paid(inv: Seq<SlotV>, amt: i32, k: int)
    requires
        0 <= k <= inv.len(),
        sound(inv),
        0 < amt <= total_from(inv, "coins"@, k),
    ensures
        total(paid(inv, amt, k), "coins"@) == total(inv, "coins"@) - amt,
        others_kept(inv, paid(inv, amt, k), "coins"@),
        sound(paid(inv, amt, k)),
        paid(inv, amt, k).len() == inv.len(),
        fits(paid(inv, amt, k), "coins"@),
    decreases inv.len() - k,
{
    reveal_strlit("coins");
    assert(k < inv.len());
    assert(inv[k].qty >= 0);
    if inv[k].item == "coins"@ {
        let take = smaller(amt, inv[k].qty);
        lemma_left(inv, "coins"@, k, take);
        let s = slot_left(inv[k], inv[k].qty.wrapping_sub(take));
        let rest = inv.update(k, s);
        if amt.wrapping_sub(take) != 0 {
            lemma_from_update(inv, "coins"@, k, s, k + 1);
            lemma_paid(rest, amt.wrapping_sub(take), k + 1);
        } else {
            lemma_room(rest, "coins"@, k);
        }
    } else {
        lemma_paid(inv, amt, k + 1);
    }
}

/// Paying takes just that many coins, and nothing else.
pub proof fn law_payment_takes_coins(inv: Seq<SlotV>, amt: i32)
    requires
        sound(inv),
        0 < amt <= total(inv, "coins"@),
    ensures
        total(paid(inv, amt, 0), "coins"@) == total(inv, "coins"@) - amt,
        others_kept(inv, paid(inv, amt, 0), "coins"@),
        sound(paid(inv, amt, 0)),
        paid(inv, amt, 0).len() == inv.len(),
        fits(paid(inv, amt, 0), "coins"@),
{
    lemma_total_from(inv, "coins"@, 0);
    assert(inv.take(0) =~= Seq::<SlotV>::empty());
    lemma_paid(inv, amt, 0);
}

/// Whether a slot is among those of a list.
pub open spec fn among(slots: Seq<usize>, k: int) -> bool {
    exists|j: int| 0 <= j < slots.len() && #[trigger] slots[j] == k
}

proof fn lemma_emptied(inv: Seq<SlotV>, slots: Seq<usize>)
    requires
        offer_ok(inv, slots),
    ensures
        emptied(inv, slots).len() == inv.len(),
        forall|k: int|
            0 <= k < inv.len() ==> #[trigger] emptied(inv, slots)[k] == if among(slots, k) {
                free_slot()
            } else {
                inv[k]
            },
        forall|item: Seq<char>|
            item.len() > 0 ==> #[trigger] total(emptied(inv, slots), item) == total(inv, item)
                - total(offered(inv, slots), item),
    decreases slots.len(),
{
    if slots.len() > 0 {
        let d = slots.drop_last();
        assert(offer_ok(inv, d)) by {
            assert forall|k: int| 0 <= k < d.len() implies offerable(inv, #[trigger] d[k]) by {
                assert(offerable(inv, slots[k]));
            }
        }
        lemma_emptied(inv, d);
        let last = slots.last();
        assert(offerable(inv, slots[slots.len() - 1]));
        let e = emptied(inv, d);
        let r = emptied(inv, slots);
        assert(!among(d, last as int)) by {
            if among(d, last as int) {
                let j = choose|j: int| 0 <= j < d.len() && #[trigger] d[j] == last as int;
                assert(slots[j] == slots[slots.len() - 1]);
            }
        }
        assert(e[last as int] == inv[last as int]);
        assert(offered(inv, slots).drop_last() =~= offered(inv, d));
        assert forall|item: Seq<char>| item.len() > 0 implies #[trigger] total(r, item) == total(
            inv,
            item,
        ) - total(offered(inv, slots), item) by {
            lemma_total_update(e, last as int, free_slot(), item);
            assert(total(e, item) == total(inv, item) - total(offered(inv, d), item));
        }
        assert forall|k: int| 0 <= k < inv.len() implies #[trigger] r[k] == if among(slots, k) {
            free_slot()
        } else {
            inv[k]
        } by {
            if k == last {
                assert(slots[slots.len() - 1] == k);
            } else if among(d, k) {
                let j = choose|j: int| 0 <= j < d.len() && #[trigger] d[j] == k;
                assert(slots[j] == k);
            } else if among(slots, k) {
                let j = choose|j: int| 0 <= j < slots.len() && #[trigger] slots[j] == k;
                assert(d[j] == k);
            }
        }
    } else {
        assert(offered(inv, slots) =~= Seq::<SlotV>::empty());
    }
}

proof fn lemma_received(inv: Seq<SlotV>, items: Seq<SlotV>)
    requires
        sound(inv),
        receives(inv, items),
        forall|k: int| 0 <= k < items.len() ==> (#[trigger] items[k]).item.len() > 0 && items[k].qty > 0,
        forall|item: Seq<char>| #[trigger] total(inv, item) + total(items, item) <= i32::MAX,
    ensures
        sound(received(inv, items)),
        forall|item: Seq<char>|
            item.len() > 0 ==> #[trigger] total(received(inv, items), item) == total(inv, item)
                + total(items, item),
    decreases items.len(),
{
    if items.len() > 0 {
        let d = items.drop_last();
        let s = items.last();
        assert(items[items.len() - 1] == s);
        assert forall|item: Seq<char>| #[trigger] total(inv, item) + total(d, item) <= i32::MAX by {
            assert(total(inv, item) + total(items, item) <= i32::MAX);
        }
        assert forall|k: int| 0 <= k < d.len() implies (#[trigger] d[k]).item.len() > 0 && d[k].qty
            > 0 by {
            assert(items[k].qty > 0);
        }
        lemma_received(inv, d);
        let m = received(inv, d);
        assert(total(m, s.item) == total(inv, s.item) + total(d, s.item));
        assert(total(inv, s.item) + total(items, s.item) <= i32::MAX);
        law_add_adds(m, s.item, s.qty);
        assert forall|item: Seq<char>| item.len() > 0 implies #[trigger] total(
            received(inv, items),
            item,
        ) == total(inv, item) + total(items, item) by {
            assert(total(m, item) == total(inv, item) + total(d, item));
        }
    }
}

/// Where two inventories exchange what is offered, there is of every item as much in both
/// together as before.
pub proof fn law_exchange_conserves(
    a: Seq<SlotV>,
    b: Seq<SlotV>,
    from_a: Seq<usize>,
    from_b: Seq<usize>,
    item: Seq<char>,
)
    requires
        sound(a),
        sound(b),
        can_receive(a, offered(b, from_b), from_a),
        can_receive(b, offered(a, from_a), from_b),
        forall|i: Seq<char>| #[trigger] total(a, i) + total(b, i) <= i32::MAX,
        item.len() > 0,
    ensures
        total(received(emptied(a, from_a), offered(b, from_b)), item) + total(
            received(emptied(b, from_b), offered(a, from_a)),
            item,
        ) == total(a, item) + total(b, item),
        total(received(emptied(a, from_a), offered(b, from_b)), item) == total(a, item) - total(
            offered(a, from_a),
            item,
        ) + total(offered(b, from_b), item),
{
    lemma_emptied(a, from_a);
    lemma_emptied(b, from_b);
    lemma_exchange_side(a, b, from_a, from_b);
    lemma_exchange_side(b, a, from_b, from_a);
    assert(total(emptied(a, from_a), item) == total(a, item) - total(offered(a, from_a), item));
    assert(total(emptied(b, from_b), item) == total(b, item) - total(offered(b, from_b), item));
}

proof fn lemma_offered_at_most(inv: Seq<SlotV>, slots: Seq<usize>, item: Seq<char>)
    requires
        sound(inv),
        offer_ok(inv, slots),
    ensures
        0 <= total(offered(inv, slots), item) <= total(inv, item) || item.len() == 0,
        item.len() == 0 ==> total(offered(inv, slots), item) == 0,
{
    lemma_emptied(inv, slots);
    let e = emptied(inv, slots);
    assert(sound(e)) by {
        assert forall|k: int| 0 <= k < e.len() implies (#[trigger] e[k]).qty >= 0 by {
            assert(inv[k].qty >= 0);
        }
    }
    lemma_total_sound(e, item);
    let o = offered(inv, slots);
    assert(sound(o)) by {
        assert forall|k: int| 0 <= k < o.len() implies (#[trigger] o[k]).qty >= 0 by {
            assert(offerable(inv, slots[k]));
        }
    }
    lemma_total_sound(o, item);
    if item.len() == 0 {
        lemma_none_of(o, item);
    }
}

proof fn lemma_none_of(v: Seq<SlotV>, item: Seq<char>)
    requires
        forall|k: int| 0 <= k < v.len() ==> (#[trigger] v[k]).item != item,
    ensures
        total(v, item) == 0,
    decreases v.len(),
{
    if v.len() > 0 {
        let d = v.drop_last();
        assert forall|k: int| 0 <= k < d.len() implies (#[trigger] d[k]).item != item by {
            assert(v[k].item != item);
        }
        lemma_none_of(d, item);
    }
}

proof fn lemma_exchange_side(
    a: Seq<SlotV>,
    b: Seq<SlotV>,
    from_a: Seq<usize>,
    from_b: Seq<usize>,
)
    requires
        sound(a),
        sound(b),
        can_receive(a, offered(b, from_b), from_a),
        offer_ok(b, from_b),
        forall|i: Seq<char>| #[trigger] total(a, i) + total(b, i) <= i32::MAX,
    ensures
        forall|item: Seq<char>|
            item.len() > 0 ==> #[trigger] total(
                received(emptied(a, from_a), offered(b, from_b)),
                item,
            ) == total(emptied(a, from_a), item) + total(offered(b, from_b), item),
{
    lemma_emptied(a, from_a);
    let e = emptied(a, from_a);
    let items = offered(b, from_b);
    assert(sound(e)) by {
        assert forall|k: int| 0 <= k < e.len() implies (#[trigger] e[k]).qty >= 0 by {
            assert(a[k].qty >= 0);
        }
    }
    assert forall|k: int| 0 <= k < items.len() implies (#[trigger] items[k]).item.len() > 0
        && items[k].qty > 0 by {
        assert(offerable(b, from_b[k]));
    }
    assert forall|item: Seq<char>| #[trigger] total(e, item) + total(items, item) <= i32::MAX by {
        lemma_offered_at_most(b, from_b, item);
        assert(total(a, item) + total(b, item) <= i32::MAX);
        if item.len() > 0 {
            lemma_offered_at_most(a, from_a, item);
            assert(total(e, item) == total(a, item) - total(offered(a, from_a), item));
        } else {
            lemma_emptied_blank(a, from_a, item);
            lemma_total_sound(b, item);
        }
    }
    lemma_received(e, items);
}

proof fn lemma_emptied_blank(inv: Seq<SlotV>, slots: Seq<usize>, item: Seq<char>)
    requires
        offer_ok(inv, slots),
        item.len() == 0,
    ensures
        total(emptied(inv, slots), item) == total(inv, item),
    decreases slots.len(),
{
    if slots.len() > 0 {
        let d = slots.drop_last();
        assert(offer_ok(inv, d)) by {
            assert forall|k: int| 0 <= k < d.len() implies offerable(inv, #[trigger] d[k]) by {
                assert(offerable(inv, slots[k]));
            }
        }
        lemma_emptied_blank(inv, d, item);
        lemma_emptied(inv, d);
        let last = slots.last();
        assert(offerable(inv, slots[slots.len() - 1]));
        assert(!among(d, last as int)) by {
            if among(d, last as int) {
                let j = choose|j: int| 0 <= j < d.len() && #[trigger] d[j] == last as int;
                assert(slots[j] == slots[slots.len() - 1]);
            }
        }
        lemma_total_update(emptied(inv, d), last as int, free_slot(), item);
    }
}

/// The best tool of a kind is one that is there, and no better one is there; without a best
/// one there is none.
pub proof fn law_best_tool_is_best(inv: Seq<SlotV>, kind: Seq<char>)
    ensures
        best_tool_of(inv, kind) matches Some(t) ==> t.kind@ == kind && exists|k: int|
            0 <= k < inv.len() && (#[trigger] inv[k]).qty > 0 && tool_of(inv[k].item) == Some(t),
        forall|k: int|
            0 <= k < inv.len() && (#[trigger] inv[k]).qty > 0 && tool_of(inv[k].item) is Some
                && tool_of(inv[k].item).unwrap().kind@ == kind ==> best_tool_of(inv, kind) is Some
                && tool_of(inv[k].item).unwrap().tier <= best_tool_of(inv, kind).unwrap().tier,
    decreases inv.len(),
{
    if inv.len() > 0 {
        let d = inv.drop_last();
        law_best_tool_is_best(d, kind);
        assert(inv[inv.len() - 1] == inv.last());
        if best_tool_of(d, kind) is Some && best_tool_of(inv, kind) == best_tool_of(d, kind) {
            let t = best_tool_of(d, kind).unwrap();
            let k = choose|k: int|
                0 <= k < d.len() && (#[trigger] d[k]).qty > 0 && tool_of(d[k].item) == Some(t);
            assert(inv[k] == d[k]);
        }
        assert forall|k: int|
            0 <= k < inv.len() && (#[trigger] inv[k]).qty > 0 && tool_of(inv[k].item) is Some
                && tool_of(inv[k].item).unwrap().kind@ == kind implies best_tool_of(inv, kind) is Some
            && tool_of(inv[k].item).unwrap().tier <= best_tool_of(inv, kind).unwrap().tier by {
            if k < d.len() {
                assert(d[k] == inv[k]);
            }
        }
    }
}

} // verus!
