//! The slots of the pools and the handles that refer to them: a spawn disturbs nobody,
//! and a slot that is used again gets another handle.

use vstd::prelude::*;
use crate::handle::{law_handle_round_trip, Handle};
use crate::pools::{free_ok, GroundV, GroundsV, MobV, MobsV, PlayerV, PlayersV};

verus! {

/// A player that spawns takes a slot that no live one has, and every other slot stays as
/// it was.
pub proof fn law_player_spawn_disturbs_nobody(v: PlayersV, e: PlayerV)
    requires
        free_ok(v.free, v.alive()),
        v.slots.len() < 0x1_0000,
    ensures
        ({
            let r = v.spawn_entity(e);
            let k = v.next_slot() as int;
            &&& k < r.slots.len()
            &&& r.slots[k] == e
            &&& k < v.slots.len() ==> !v.slots[k].alive
            &&& forall|j: int|
                0 <= j < v.slots.len() && j != k ==> #[trigger] r.slots[j] == v.slots[j]
            &&& free_ok(r.free, r.alive())
        }),
{
    let r = v.spawn_entity(e);
    let n = v.free.len() - 1;
    if v.free.len() > 0 {
        assert(v.free[n] < v.alive().len());
        assert(!v.alive()[v.free[n] as int]);
        assert forall|j: int| 0 <= j < r.free.len() implies !r.alive()[#[trigger] r.free[j] as int] by {
            assert(v.free[j] != v.free[n]);
            assert(!v.alive()[v.free[j] as int]);
        }
    }
}

/// The slot of a player that was removed is the next that is used, and the handle of the
/// new one differs from that of the old.
pub proof fn law_player_slot_is_reused(v: PlayersV, idx: u16)
    requires
        free_ok(v.free, v.alive()),
        idx < v.slots.len(),
        v.slots[idx as int].alive,
    ensures
        ({
            let r = v.remove_entity(idx);
            &&& r.next_slot() == idx
            &&& r.next_gen() == v.slots[idx as int].gen.wrapping_add(1)
            &&& Handle::of(idx, r.next_gen()) != Handle::of(idx, v.slots[idx as int].gen)
            &&& free_ok(r.free, r.alive())
        }),
{
    let r = v.remove_entity(idx);
    let n = v.free.len() as int;
    assert(r.free[n] == idx);
    law_handle_round_trip(idx, r.next_gen());
    law_handle_round_trip(idx, v.slots[idx as int].gen);
    assert forall|j: int| 0 <= j < r.free.len() implies !r.alive()[#[trigger] r.free[j] as int] by {
        if j < n {
            assert(!v.alive()[v.free[j] as int]);
        }
    }
    assert forall|j: int, k: int| 0 <= j < k < r.free.len() implies r.free[j] != r.free[k] by {
        if k == n {
            assert(!v.alive()[v.free[j] as int]);
            assert(v.alive()[idx as int]);
        }
    }
}

/// A creature that spawns takes a slot that no live one has, and every other slot stays as
/// it was.
pub proof fn law_mob_spawn_disturbs_nobody(v: MobsV, e: MobV)
    requires
        free_ok(v.free, v.alive()),
        v.slots.len() < 0x1_0000,
    ensures
        ({
            let r = v.spawn_entity(e);
            let k = v.next_slot() as int;
            &&& k < r.slots.len()
            &&& r.slots[k] == e
            &&& k < v.slots.len() ==> !v.slots[k].alive
            &&& forall|j: int|
                0 <= j < v.slots.len() && j != k ==> #[trigger] r.slots[j] == v.slots[j]
            &&& free_ok(r.free, r.alive())
        }),
{
    let r = v.spawn_entity(e);
    let n = v.free.len() - 1;
    if v.free.len() > 0 {
        assert(v.free[n] < v.alive().len());
        assert(!v.alive()[v.free[n] as int]);
        assert forall|j: int| 0 <= j < r.free.len() implies !r.alive()[#[trigger] r.free[j] as int] by {
            assert(v.free[j] != v.free[n]);
            assert(!v.alive()[v.free[j] as int]);
        }
    }
}

/// The slot of a creature that was removed is the next that is used, and the handle of the
/// new one differs from that of the old.
pub proof fn law_mob_slot_is_reused(v: MobsV, idx: u16)
    requires
        free_ok(v.free, v.alive()),
        idx < v.slots.len(),
        v.slots[idx as int].alive,
    ensures
        ({
            let r = v.remove_entity(idx);
            &&& r.next_slot() == idx
            &&& r.next_gen() == v.slots[idx as int].gen.wrapping_add(1)
            &&& Handle::of(idx, r.next_gen()) != Handle::of(idx, v.slots[idx as int].gen)
            &&& free_ok(r.free, r.alive())
        }),
{
    let r = v.remove_entity(idx);
    let n = v.free.len() as int;
    assert(r.free[n] == idx);
    law_handle_round_trip(idx, r.next_gen());
    law_handle_round_trip(idx, v.slots[idx as int].gen);
    assert forall|j: int| 0 <= j < r.free.len() implies !r.alive()[#[trigger] r.free[j] as int] by {
        if j < n {
            assert(!v.alive()[v.free[j] as int]);
        }
    }
    assert forall|j: int, k: int| 0 <= j < k < r.free.len() implies r.free[j] != r.free[k] by {
        if k == n {
            assert(!v.alive()[v.free[j] as int]);
            assert(v.alive()[idx as int]);
        }
    }
}

/// A stack on the ground that spawns takes a slot that no live one has, and every other slot stays as
/// it was.
pub proof fn law_ground_spawn_disturbs_nobody(v: GroundsV, e: GroundV)
    requires
        free_ok(v.free, v.alive()),
        v.slots.len() < 0x1_0000,
    ensures
        ({
            let r = v.spawn_entity(e);
            let k = v.next_slot() as int;
            &&& k < r.slots.len()
            &&& r.slots[k] == e
            &&& k < v.slots.len() ==> !v.slots[k].alive
            &&& forall|j: int|
                0 <= j < v.slots.len() && j != k ==> #[trigger] r.slots[j] == v.slots[j]
            &&& free_ok(r.free, r.alive())
        }),
{
    let r = v.spawn_entity(e);
    let n = v.free.len() - 1;
    if v.free.len() > 0 {
        assert(v.free[n] < v.alive().len());
        assert(!v.alive()[v.free[n] as int]);
        assert forall|j: int| 0 <= j < r.free.len() implies !r.alive()[#[trigger] r.free[j] as int] by {
            assert(v.free[j] != v.free[n]);
            assert(!v.alive()[v.free[j] as int]);
        }
    }
}

/// The slot of a stack on the ground that was removed is the next that is used, and the handle of the
/// new one differs from that of the old.
pub proof fn law_ground_slot_is_reused(v: GroundsV, idx: u16)
    requires
        free_ok(v.free, v.alive()),
        idx < v.slots.len(),
        v.slots[idx as int].alive,
    ensures
        ({
            let r = v.remove_entity(idx);
            &&& r.next_slot() == idx
            &&& r.next_gen() == v.slots[idx as int].gen.wrapping_add(1)
            &&& Handle::of(idx, r.next_gen()) != Handle::of(idx, v.slots[idx as int].gen)
            &&& free_ok(r.free, r.alive())
        }),
{
    let r = v.remove_entity(idx);
    let n = v.free.len() as int;
    assert(r.free[n] == idx);
    law_handle_round_trip(idx, r.next_gen());
    law_handle_round_trip(idx, v.slots[idx as int].gen);
    assert forall|j: int| 0 <= j < r.free.len() implies !r.alive()[#[trigger] r.free[j] as int] by {
        if j < n {
            assert(!v.alive()[v.free[j] as int]);
        }
    }
    assert forall|j: int, k: int| 0 <= j < k < r.free.len() implies r.free[j] != r.free[k] by {
        if k == n {
            assert(!v.alive()[v.free[j] as int]);
            assert(v.alive()[idx as int]);
        }
    }
}

} // verus!
