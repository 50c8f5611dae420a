//! What a client knows after it was told of the world: laws of the baseline and of
//! the changes.

use vstd::prelude::*;
use crate::cells::listed;
use crate::json::obj_json;
use crate::pools::{GroundV, MobV, PlayerV};
use crate::sim::{cells_ok, SimV};
use crate::types::Obj;
use crate::wire::{
    baseline, delta, ground_base, ground_delta, ground_diff, ground_known, ground_told, mob_base,
    mob_delta, mob_diff, mob_known, mob_told, object_base, object_delta, or_if, player_base,
    player_delta, player_diff, player_known, player_news, player_told, GroundMirrorV, MobMirrorV,
    PlayerMirrorV, WireV,
};

verus! {

proof fn lemma_mask(
    b0: bool,
    b1: bool,
    b2: bool,
    b3: bool,
    b4: bool,
    b5: bool,
    b6: bool,
    b7: bool,
    b8: bool,
    b9: bool,
    b10: bool,
) -> (mask: u16)
    ensures
        mask == or_if(
            or_if(
                or_if(
                    or_if(
                        or_if(
                            or_if(
                                or_if(
                                    or_if(or_if(or_if(or_if(0, b0, 1), b1, 2), b2, 4), b3, 8),
                                    b4,
                                    16,
                                ),
                                b5,
                                32,
                            ),
                            b6,
                            64,
                        ),
                        b7,
                        128,
                    ),
                    b8,
                    256,
                ),
                b9,
                512,
            ),
            b10,
            1024,
        ),
        mask & 1 != 0 <==> b0,
        mask & 2 != 0 <==> b1,
        mask & 4 != 0 <==> b2,
        mask & 8 != 0 <==> b3,
        mask & 16 != 0 <==> b4,
        mask & 32 != 0 <==> b5,
        mask & 64 != 0 <==> b6,
        mask & 128 != 0 <==> b7,
        mask & 256 != 0 <==> b8,
        mask & 512 != 0 <==> b9,
        mask & 1024 != 0 <==> b10,
        mask != 0 <==> b0 || b1 || b2 || b3 || b4 || b5 || b6 || b7 || b8 || b9 || b10,
{
    let m0 = or_if(0, b0, 1);
    let m1 = or_if(m0, b1, 2);
    let m2 = or_if(m1, b2, 4);
    let m3 = or_if(m2, b3, 8);
    let m4 = or_if(m3, b4, 16);
    let m5 = or_if(m4, b5, 32);
    let m6 = or_if(m5, b6, 64);
    let m7 = or_if(m6, b7, 128);
    let m8 = or_if(m7, b8, 256);
    let m9 = or_if(m8, b9, 512);
    let mask = or_if(m9, b10, 1024);
    assert((mask & 1 != 0 <==> b0) && (mask & 2 != 0 <==> b1) && (mask & 4 != 0 <==> b2) && (
    mask & 8 != 0 <==> b3) && (mask & 16 != 0 <==> b4) && (mask & 32 != 0 <==> b5) && (mask & 64
        != 0 <==> b6) && (mask & 128 != 0 <==> b7) && (mask & 256 != 0 <==> b8) && (mask & 512 != 0
        <==> b9) && (mask & 1024 != 0 <==> b10) && (mask != 0 <==> b0 || b1 || b2 || b3 || b4 || b5
        || b6 || b7 || b8 || b9 || b10)) by (bit_vector)
        requires
            m0 == (if b0 {
                0u16 | 1u16
            } else {
                0u16
            }),
            m1 == (if b1 {
                m0 | 2u16
            } else {
                m0
            }),
            m2 == (if b2 {
                m1 | 4u16
            } else {
                m1
            }),
            m3 == (if b3 {
                m2 | 8u16
            } else {
                m2
            }),
            m4 == (if b4 {
                m3 | 16u16
            } else {
                m3
            }),
            m5 == (if b5 {
                m4 | 32u16
            } else {
                m4
            }),
            m6 == (if b6 {
                m5 | 64u16
            } else {
                m5
            }),
            m7 == (if b7 {
                m6 | 128u16
            } else {
                m6
            }),
            m8 == (if b8 {
                m7 | 256u16
            } else {
                m7
            }),
            m9 == (if b9 {
                m8 | 512u16
            } else {
                m8
            }),
            mask == (if b10 {
                m9 | 1024u16
            } else {
                m9
            }),
    ;
    mask
}

/// A client knows a player as it is: everything of one that is there, and that one
/// that is not there is gone.
pub open spec fn knows_player(p: PlayerV, m: PlayerMirrorV) -> bool {
    if p.alive {
        m == player_known(p)
    } else {
        !m.seen
    }
}

/// A client knows the first `n` of a list as they are.
pub open spec fn knows_all_players(slots: Seq<PlayerV>, ms: Seq<PlayerMirrorV>, n: int) -> bool {
    forall|k: int| 0 <= k < n ==> knows_player(slots[k], #[trigger] ms[k])
}

proof fn lemma_player_told(p: PlayerV, m: PlayerMirrorV)
    requires
        m.seen,
    ensures
        player_diff(p, m) == 0 <==> m == player_known(p),
        player_told(p, m, player_diff(p, m)) == player_known(p),
{
    let k = player_known(p);
    let mask = lemma_mask(
        k.x != m.x,
        k.y != m.y,
        k.hp_cur != m.hp_cur,
        k.hp_max != m.hp_max,
        k.name != m.name,
        k.skills_json != m.skills_json,
        k.inv_json != m.inv_json,
        k.equipment_json != m.equipment_json,
        k.intent_json != m.intent_json,
        k.target_json != m.target_json,
        k.ui_json != m.ui_json,
    );
    assert(mask == player_diff(p, m));
    assert(player_told(p, m, mask) =~= k);
    if mask == 0 {
        assert(m =~= k);
    }
}

proof fn lemma_player_news(slots: Seq<PlayerV>, m: Seq<PlayerMirrorV>, i: int)
    requires
        0 <= i < slots.len() <= m.len(),
        slots.len() <= 65536,
    ensures
        player_news(slots, m, i).1.len() == m.len(),
        knows_player(slots[i], player_news(slots, m, i).1[i]),
        forall|k: int|
            0 <= k < m.len() && k != i ==> #[trigger] player_news(slots, m, i).1[k] == m[k],
        knows_player(slots[i], m[i]) ==> player_news(slots, m, i) == (Seq::<u8>::empty(), m),
{
    reveal(player_news);
    assert(i as u16 == i);
    if m[i].seen {
        lemma_player_told(slots[i], m[i]);
    }
}

/// The records of the first `n` entities leave what the client knows of the others as
/// it was, and afterwards it knows those first ones as they are.
pub proof fn law_player_delta_informs(slots: Seq<PlayerV>, ms: Seq<PlayerMirrorV>, n: int)
    requires
        0 <= n <= slots.len() <= ms.len(),
        slots.len() <= 65536,
    ensures
        player_delta(slots, ms, n).1.len() == ms.len(),
        knows_all_players(slots, player_delta(slots, ms, n).1, n),
        forall|k: int|
            n <= k < ms.len() ==> #[trigger] player_delta(slots, ms, n).1[k] == ms[k],
    decreases n,
{
    if n > 0 {
        law_player_delta_informs(slots, ms, n - 1);
        let m = player_delta(slots, ms, n - 1).1;
        lemma_player_news(slots, m, n - 1);
        let r = player_delta(slots, ms, n).1;
        assert forall|k: int| 0 <= k < n implies knows_player(slots[k], #[trigger] r[k]) by {
            if k < n - 1 {
                assert(r[k] == m[k]);
            }
        }
    }
}

/// An entity that a client knows as it is has no record among the changes.
pub proof fn law_known_player_is_left_out(slots: Seq<PlayerV>, ms: Seq<PlayerMirrorV>, n: int)
    requires
        0 < n <= slots.len() <= ms.len(),
        slots.len() <= 65536,
        knows_player(slots[n - 1], ms[n - 1]),
    ensures
        player_delta(slots, ms, n) == player_delta(slots, ms, n - 1),
{
    law_player_delta_informs(slots, ms, n - 1);
    let (b, m) = player_delta(slots, ms, n - 1);
    assert(m[n - 1] == ms[n - 1]);
    lemma_player_news(slots, m, n - 1);
    assert(b + Seq::<u8>::empty() =~= b);
}

proof fn lemma_player_delta_quiet(slots: Seq<PlayerV>, ms: Seq<PlayerMirrorV>, n: int)
    requires
        0 <= n <= slots.len() <= ms.len(),
        slots.len() <= 65536,
        knows_all_players(slots, ms, n),
    ensures
        player_delta(slots, ms, n) == (Seq::<u8>::empty(), ms),
    decreases n,
{
    if n > 0 {
        lemma_player_delta_quiet(slots, ms, n - 1);
        assert(knows_player(slots[n - 1], ms[n - 1]));
        law_known_player_is_left_out(slots, ms, n);
    }
}

proof fn lemma_player_base_informs(slots: Seq<PlayerV>, ms: Seq<PlayerMirrorV>, n: int)
    requires
        0 <= n <= slots.len() <= ms.len(),
        slots.len() <= 65536,
        forall|k: int| 0 <= k < ms.len() ==> !(#[trigger] ms[k]).seen,
    ensures
        player_base(slots, ms, n).1.len() == ms.len(),
        knows_all_players(slots, player_base(slots, ms, n).1, n),
        forall|k: int|
            n <= k < ms.len() ==> #[trigger] player_base(slots, ms, n).1[k] == ms[k],
    decreases n,
{
    if n > 0 {
        lemma_player_base_informs(slots, ms, n - 1);
        let m = player_base(slots, ms, n - 1).1;
        let h = (n - 1) as u16;
        assert(h == n - 1);
        assert(m[n - 1] == ms[n - 1]);
        let r = player_base(slots, ms, n).1;
        assert forall|k: int| 0 <= k < n implies knows_player(slots[k], #[trigger] r[k]) by {
            if k < n - 1 {
                assert(r[k] == m[k]);
            }
        }
    }
}

/// A client knows a creature as it is: everything of one that is there, and that one
/// that is not there is gone.
pub open spec fn knows_mob(p: MobV, m: MobMirrorV) -> bool {
    if p.alive && p.respawn_at == 0 {
        m == mob_known(p)
    } else {
        !m.seen
    }
}

/// A client knows the first `n` of a list as they are.
pub open spec fn knows_all_mobs(slots: Seq<MobV>, ms: Seq<MobMirrorV>, n: int) -> bool {
    forall|k: int| 0 <= k < n ==> knows_mob(slots[k], #[trigger] ms[k])
}

proof fn lemma_mob_told(p: MobV, m: MobMirrorV)
    requires
        m.seen,
    ensures
        mob_diff(p, m) == 0 <==> m == mob_known(p),
        mob_told(p, m, mob_diff(p, m)) == mob_known(p),
{
    let k = mob_known(p);
    let mask = lemma_mask(
        k.x != m.x,
        k.y != m.y,
        k.hp_cur != m.hp_cur,
        k.hp_max != m.hp_max,
        k.kind_id != m.kind_id,
        false,
        false,
        false,
        false,
        false,
        false,
    );
    assert(mask == mob_diff(p, m));
    assert(mob_told(p, m, mask) =~= k);
    if mask == 0 {
        assert(m =~= k);
    }
}

/// The records of the first `n` entities leave what the client knows of the others as
/// it was, and afterwards it knows those first ones as they are.
pub proof fn law_mob_delta_informs(slots: Seq<MobV>, ms: Seq<MobMirrorV>, n: int)
    requires
        0 <= n <= slots.len() <= ms.len(),
        slots.len() <= 65536,
    ensures
        mob_delta(slots, ms, n).1.len() == ms.len(),
        knows_all_mobs(slots, mob_delta(slots, ms, n).1, n),
        forall|k: int|
            n <= k < ms.len() ==> #[trigger] mob_delta(slots, ms, n).1[k] == ms[k],
    decreases n,
{
    if n > 0 {
        law_mob_delta_informs(slots, ms, n - 1);
        let m = mob_delta(slots, ms, n - 1).1;
        let h = (n - 1) as u16;
        assert(h == n - 1);
        if m[n - 1].seen {
            lemma_mob_told(slots[n - 1], m[n - 1]);
        }
        let r = mob_delta(slots, ms, n).1;
        assert forall|k: int| 0 <= k < n implies knows_mob(slots[k], #[trigger] r[k]) by {
            if k < n - 1 {
                assert(r[k] == m[k]);
            }
        }
    }
}

/// An entity that a client knows as it is has no record among the changes.
pub proof fn law_known_mob_is_left_out(slots: Seq<MobV>, ms: Seq<MobMirrorV>, n: int)
    requires
        0 < n <= slots.len() <= ms.len(),
        slots.len() <= 65536,
        knows_mob(slots[n - 1], ms[n - 1]),
    ensures
        mob_delta(slots, ms, n) == mob_delta(slots, ms, n - 1),
{
    law_mob_delta_informs(slots, ms, n - 1);
    let m = mob_delta(slots, ms, n - 1).1;
    assert(m[n - 1] == ms[n - 1]);
    if m[n - 1].seen {
        lemma_mob_told(slots[n - 1], m[n - 1]);
    }
}

proof fn lemma_mob_delta_quiet(slots: Seq<MobV>, ms: Seq<MobMirrorV>, n: int)
    requires
        0 <= n <= slots.len() <= ms.len(),
        slots.len() <= 65536,
        knows_all_mobs(slots, ms, n),
    ensures
        mob_delta(slots, ms, n) == (Seq::<u8>::empty(), ms),
    decreases n,
{
    if n > 0 {
        lemma_mob_delta_quiet(slots, ms, n - 1);
        assert(knows_mob(slots[n - 1], ms[n - 1]));
        law_known_mob_is_left_out(slots, ms, n);
    }
}

proof fn lemma_mob_base_informs(slots: Seq<MobV>, ms: Seq<MobMirrorV>, n: int)
    requires
        0 <= n <= slots.len() <= ms.len(),
        slots.len() <= 65536,
        forall|k: int| 0 <= k < ms.len() ==> !(#[trigger] ms[k]).seen,
    ensures
        mob_base(slots, ms, n).1.len() == ms.len(),
        knows_all_mobs(slots, mob_base(slots, ms, n).1, n),
        forall|k: int|
            n <= k < ms.len() ==> #[trigger] mob_base(slots, ms, n).1[k] == ms[k],
    decreases n,
{
    if n > 0 {
        lemma_mob_base_informs(slots, ms, n - 1);
        let m = mob_base(slots, ms, n - 1).1;
        let h = (n - 1) as u16;
        assert(h == n - 1);
        assert(m[n - 1] == ms[n - 1]);
        let r = mob_base(slots, ms, n).1;
        assert forall|k: int| 0 <= k < n implies knows_mob(slots[k], #[trigger] r[k]) by {
            if k < n - 1 {
                assert(r[k] == m[k]);
            }
        }
    }
}

/// A client knows a stack on the ground as it is: everything of one that is there, and that one
/// that is not there is gone.
pub open spec fn knows_ground(p: GroundV, m: GroundMirrorV) -> bool {
    if p.alive {
        m == ground_known(p)
    } else {
        !m.seen
    }
}

/// A client knows the first `n` of a list as they are.
pub open spec fn knows_all_ground(slots: Seq<GroundV>, ms: Seq<GroundMirrorV>, n: int) -> bool {
    forall|k: int| 0 <= k < n ==> knows_ground(slots[k], #[trigger] ms[k])
}

proof fn lemma_ground_told(p: GroundV, m: GroundMirrorV)
    requires
        m.seen,
    ensures
        ground_diff(p, m) == 0 <==> m == ground_known(p),
        ground_told(p, m, ground_diff(p, m)) == ground_known(p),
{
    let k = ground_known(p);
    let mask = lemma_mask(
        k.x != m.x,
        k.y != m.y,
        k.item != m.item,
        k.qty != m.qty,
        false,
        false,
        false,
        false,
        false,
        false,
        false,
    );
    assert(mask == ground_diff(p, m));
    assert(ground_told(p, m, mask) =~= k);
    if mask == 0 {
        assert(m =~= k);
    }
}

/// The records of the first `n` entities leave what the client knows of the others as
/// it was, and afterwards it knows those first ones as they are.
pub proof fn law_ground_delta_informs(slots: Seq<GroundV>, ms: Seq<GroundMirrorV>, n: int)
    requires
        0 <= n <= slots.len() <= ms.len(),
        slots.len() <= 65536,
    ensures
        ground_delta(slots, ms, n).1.len() == ms.len(),
        knows_all_ground(slots, ground_delta(slots, ms, n).1, n),
        forall|k: int|
            n <= k < ms.len() ==> #[trigger] ground_delta(slots, ms, n).1[k] == ms[k],
    decreases n,
{
    if n > 0 {
        law_ground_delta_informs(slots, ms, n - 1);
        let m = ground_delta(slots, ms, n - 1).1;
        let h = (n - 1) as u16;
        assert(h == n - 1);
        if m[n - 1].seen {
            lemma_ground_told(slots[n - 1], m[n - 1]);
        }
        let r = ground_delta(slots, ms, n).1;
        assert forall|k: int| 0 <= k < n implies knows_ground(slots[k], #[trigger] r[k]) by {
            if k < n - 1 {
                assert(r[k] == m[k]);
            }
        }
    }
}

/// An entity that a client knows as it is has no record among the changes.
pub proof fn law_known_ground_is_left_out(slots: Seq<GroundV>, ms: Seq<GroundMirrorV>, n: int)
    requires
        0 < n <= slots.len() <= ms.len(),
        slots.len() <= 65536,
        knows_ground(slots[n - 1], ms[n - 1]),
    ensures
        ground_delta(slots, ms, n) == ground_delta(slots, ms, n - 1),
{
    law_ground_delta_informs(slots, ms, n - 1);
    let m = ground_delta(slots, ms, n - 1).1;
    assert(m[n - 1] == ms[n - 1]);
    if m[n - 1].seen {
        lemma_ground_told(slots[n - 1], m[n - 1]);
    }
}

proof fn lemma_ground_delta_quiet(slots: Seq<GroundV>, ms: Seq<GroundMirrorV>, n: int)
    requires
        0 <= n <= slots.len() <= ms.len(),
        slots.len() <= 65536,
        knows_all_ground(slots, ms, n),
    ensures
        ground_delta(slots, ms, n) == (Seq::<u8>::empty(), ms),
    decreases n,
{
    if n > 0 {
        lemma_ground_delta_quiet(slots, ms, n - 1);
        assert(knows_ground(slots[n - 1], ms[n - 1]));
        law_known_ground_is_left_out(slots, ms, n);
    }
}

proof fn lemma_ground_base_informs(slots: Seq<GroundV>, ms: Seq<GroundMirrorV>, n: int)
    requires
        0 <= n <= slots.len() <= ms.len(),
        slots.len() <= 65536,
        forall|k: int| 0 <= k < ms.len() ==> !(#[trigger] ms[k]).seen,
    ensures
        ground_base(slots, ms, n).1.len() == ms.len(),
        knows_all_ground(slots, ground_base(slots, ms, n).1, n),
        forall|k: int|
            n <= k < ms.len() ==> #[trigger] ground_base(slots, ms, n).1[k] == ms[k],
    decreases n,
{
    if n > 0 {
        lemma_ground_base_informs(slots, ms, n - 1);
        let m = ground_base(slots, ms, n - 1).1;
        let h = (n - 1) as u16;
        assert(h == n - 1);
        assert(m[n - 1] == ms[n - 1]);
        let r = ground_base(slots, ms, n).1;
        assert forall|k: int| 0 <= k < n implies knows_ground(slots[k], #[trigger] r[k]) by {
            if k < n - 1 {
                assert(r[k] == m[k]);
            }
        }
    }
}

/// A client knows the first `n` objects as they are.
pub open spec fn knows_objects(objects: Seq<Obj>, ms: Seq<Seq<char>>, n: int) -> bool {
    forall|k: int| 0 <= k < n ==> #[trigger] ms[k] == obj_json(objects[k])
}

/// Whether a cell is among the first `n` of a list.
pub open spec fn listed_below(dirty: Seq<u32>, k: int, n: int) -> bool {
    exists|j: int| 0 <= j < n && #[trigger] dirty[j] == k
}

/// After the records of the first `n` listed objects the client knows these as they are,
/// and what it knows of the others is as it was.
pub proof fn law_object_delta_informs(
    objects: Seq<Obj>,
    dirty: Seq<u32>,
    ms: Seq<Seq<char>>,
    n: int,
)
    requires
        0 <= n <= dirty.len(),
        objects.len() <= ms.len(),
        forall|j: int| 0 <= j < dirty.len() ==> (#[trigger] dirty[j]) < objects.len(),
    ensures
        object_delta(objects, dirty, ms, n).1.len() == ms.len(),
        forall|k: int|
            0 <= k < ms.len() ==> #[trigger] object_delta(objects, dirty, ms, n).1[k] == if listed_below(
                dirty,
                k,
                n,
            ) {
                obj_json(objects[k])
            } else {
                ms[k]
            },
    decreases n,
{
    if n > 0 {
        law_object_delta_informs(objects, dirty, ms, n - 1);
        let m = object_delta(objects, dirty, ms, n - 1).1;
        let r = object_delta(objects, dirty, ms, n).1;
        let i = dirty[n - 1] as int;
        assert forall|k: int| 0 <= k < ms.len() implies #[trigger] r[k] == if listed_below(dirty, k, n) {
            obj_json(objects[k])
        } else {
            ms[k]
        } by {
            assert(m[k] == if listed_below(dirty, k, n - 1) {
                obj_json(objects[k])
            } else {
                ms[k]
            });
            if k == i {
                assert(listed_below(dirty, k, n)) by {
                    assert(dirty[n - 1] == k);
                }
            } else if listed_below(dirty, k, n) {
                let j = choose|j: int| 0 <= j < n && #[trigger] dirty[j] == k;
                assert(dirty[j] == k && j < n - 1);
                assert(listed_below(dirty, k, n - 1));
            } else {
                if listed_below(dirty, k, n - 1) {
                    let j = choose|j: int| 0 <= j < n - 1 && #[trigger] dirty[j] == k;
                    assert(dirty[j] == k);
                }
            }
        }
    } else {
        assert forall|k: int| 0 <= k < ms.len() implies !listed_below(dirty, k, n) by {}
    }
}

/// A client knows the cells that are listed as changed as they are.
pub open spec fn knows_listed(objects: Seq<Obj>, dirty: Seq<u32>, ms: Seq<Seq<char>>) -> bool {
    forall|j: int|
        0 <= j < dirty.len() ==> ms[#[trigger] dirty[j] as int] == obj_json(
            objects[dirty[j] as int],
        )
}

proof fn lemma_object_delta_quiet(
    objects: Seq<Obj>,
    dirty: Seq<u32>,
    ms: Seq<Seq<char>>,
    n: int,
)
    requires
        0 <= n <= dirty.len(),
        objects.len() <= ms.len(),
        forall|j: int| 0 <= j < dirty.len() ==> (#[trigger] dirty[j]) < objects.len(),
        knows_listed(objects, dirty, ms),
    ensures
        object_delta(objects, dirty, ms, n) == (Seq::<u8>::empty(), ms),
    decreases n,
{
    if n > 0 {
        lemma_object_delta_quiet(objects, dirty, ms, n - 1);
        assert(ms[dirty[n - 1] as int] == obj_json(objects[dirty[n - 1] as int]));
    }
}

/// After the records of the first `n` objects the client knows these as they are.
pub proof fn law_object_base_informs(objects: Seq<Obj>, ms: Seq<Seq<char>>, n: int)
    requires
        0 <= n <= objects.len() <= ms.len(),
    ensures
        object_base(objects, ms, n).1.len() == ms.len(),
        knows_objects(objects, object_base(objects, ms, n).1, n),
    decreases n,
{
    if n > 0 {
        law_object_base_informs(objects, ms, n - 1);
    }
}

/// A client knows a world as it is.
pub open spec fn knows_world(s: SimV, c: WireV) -> bool {
    &&& s.players.slots.len() <= c.players.len()
    &&& s.mobs.slots.len() <= c.mobs.len()
    &&& s.ground.slots.len() <= c.ground.len()
    &&& s.objects.len() <= c.objects.len()
    &&& knows_all_players(s.players.slots, c.players, s.players.slots.len() as int)
    &&& knows_all_mobs(s.mobs.slots, c.mobs, s.mobs.slots.len() as int)
    &&& knows_all_ground(s.ground.slots, c.ground, s.ground.slots.len() as int)
    &&& knows_objects(s.objects, c.objects, s.objects.len() as int)
}

/// The entities of each kind can be told apart by two bytes, and the changed cells are
/// cells of the map.
pub open spec fn numbered(s: SimV) -> bool {
    &&& s.players.slots.len() <= 65536
    &&& s.mobs.slots.len() <= 65536
    &&& s.ground.slots.len() <= 65536
    &&& forall|j: int|
        0 <= j < s.objects_dirty.len() ==> (#[trigger] s.objects_dirty[j]) < s.objects.len()
}

/// A client that knew the cells of a world knows those of a later one that are not listed
/// as changed.
pub proof fn law_unlisted_stay_known(before: SimV, s: SimV, c: WireV)
    requires
        s.lists_changes(before),
        knows_objects(before.objects, c.objects, before.objects.len() as int),
    ensures
        knows_the_rest(s, c),
{
}

/// Cells that are not listed as changed are known as they are.
pub open spec fn knows_the_rest(s: SimV, c: WireV) -> bool {
    forall|k: int|
        0 <= k < s.objects.len() && !listed(s.objects_dirty, k)
            ==> #[trigger] c.objects[k] == obj_json(s.objects[k])
}

/// A client that has just joined knows the world as it is.
pub proof fn law_baseline_informs(s: SimV)
    requires
        numbered(s),
    ensures
        knows_world(s, baseline(s, crate::wire::knows_nothing()).1),
{
    reveal(baseline);
    let r = crate::wire::knows_nothing().with_room(s);
    lemma_player_base_informs(s.players.slots, r.players, s.players.slots.len() as int);
    lemma_mob_base_informs(s.mobs.slots, r.mobs, s.mobs.slots.len() as int);
    lemma_ground_base_informs(s.ground.slots, r.ground, s.ground.slots.len() as int);
    law_object_base_informs(s.objects, r.objects, s.objects.len() as int);
}

/// After the changes a client knows the world as it is, whatever it knew of the players,
/// the creatures and the stacks before, where it knew the cells that are not listed as
/// changed.
pub proof fn law_delta_informs(s: SimV, c: WireV, acked: u32)
    requires
        numbered(s),
        s.objects.len() <= c.objects.len(),
        knows_the_rest(s, c),
    ensures
        knows_world(s, delta(s, c, acked).1),
{
    reveal(delta);
    let r = c.with_room(s);
    law_player_delta_informs(s.players.slots, r.players, s.players.slots.len() as int);
    law_mob_delta_informs(s.mobs.slots, r.mobs, s.mobs.slots.len() as int);
    law_ground_delta_informs(s.ground.slots, r.ground, s.ground.slots.len() as int);
    law_object_delta_informs(
        s.objects,
        s.objects_dirty,
        r.objects,
        s.objects_dirty.len() as int,
    );
    let om = object_delta(s.objects, s.objects_dirty, r.objects, s.objects_dirty.len() as int).1;
    assert forall|k: int| 0 <= k < s.objects.len() implies #[trigger] om[k] == obj_json(
        s.objects[k],
    ) by {
        assert(r.objects[k] == c.objects[k]);
        if listed(s.objects_dirty, k) {
            assert(listed_below(s.objects_dirty, k, s.objects_dirty.len() as int));
        }
    }
}

/// A client knows everything that a message of changes can speak of: the players, the
/// creatures, the stacks, and the cells that are listed as changed.
pub open spec fn knows_changes(s: SimV, c: WireV) -> bool {
    &&& s.players.slots.len() <= c.players.len()
    &&& s.mobs.slots.len() <= c.mobs.len()
    &&& s.ground.slots.len() <= c.ground.len()
    &&& s.objects.len() <= c.objects.len()
    &&& knows_all_players(s.players.slots, c.players, s.players.slots.len() as int)
    &&& knows_all_mobs(s.mobs.slots, c.mobs, s.mobs.slots.len() as int)
    &&& knows_all_ground(s.ground.slots, c.ground, s.ground.slots.len() as int)
    &&& knows_listed(s.objects, s.objects_dirty, c.objects)
}

/// After the changes a client knows what they can speak of, whatever it knew before.
pub proof fn law_delta_tells_changes(s: SimV, c: WireV, acked: u32)
    requires
        numbered(s),
    ensures
        knows_changes(s, delta(s, c, acked).1),
{
    reveal(delta);
    let r = c.with_room(s);
    law_player_delta_informs(s.players.slots, r.players, s.players.slots.len() as int);
    law_mob_delta_informs(s.mobs.slots, r.mobs, s.mobs.slots.len() as int);
    law_ground_delta_informs(s.ground.slots, r.ground, s.ground.slots.len() as int);
    let dirty = s.objects_dirty;
    let d = dirty.len() as int;
    law_object_delta_informs(s.objects, dirty, r.objects, d);
    let om = object_delta(s.objects, dirty, r.objects, d).1;
    assert forall|j: int| 0 <= j < d implies om[#[trigger] dirty[j] as int] == obj_json(
        s.objects[dirty[j] as int],
    ) by {
        assert(listed_below(dirty, dirty[j] as int, d));
    }
}

/// A client that knows what the changes can speak of gets no record, and goes on knowing it.
pub proof fn law_delta_of_the_told_is_empty(s: SimV, c: WireV, acked: u32)
    requires
        numbered(s),
        knows_changes(s, c),
    ensures
        delta(s, c, acked).0 == seq![crate::wire::MSG_SERVER_DELTA] + crate::codec::le32(
            s.tick as u32,
        ) + crate::codec::le32(acked) + seq![crate::wire::POOL_TERMINATOR],
        delta(s, c, acked).1 == (WireV { last_sent_tick: s.tick as u32, ..c }),
{
    reveal(delta);
    let r = c.with_room(s);
    assert(r.players =~= c.players);
    assert(r.mobs =~= c.mobs);
    assert(r.ground =~= c.ground);
    assert(r.objects =~= c.objects);
    lemma_player_delta_quiet(s.players.slots, r.players, s.players.slots.len() as int);
    lemma_mob_delta_quiet(s.mobs.slots, r.mobs, s.mobs.slots.len() as int);
    lemma_ground_delta_quiet(s.ground.slots, r.ground, s.ground.slots.len() as int);
    lemma_object_delta_quiet(
        s.objects,
        s.objects_dirty,
        r.objects,
        s.objects_dirty.len() as int,
    );
    let top = seq![crate::wire::MSG_SERVER_DELTA] + crate::codec::le32(s.tick as u32)
        + crate::codec::le32(acked);
    let none = Seq::<u8>::empty();
    assert(top + none =~= top);
}

/// A client that knows the world as it is gets no record, and goes on knowing it.
pub proof fn law_delta_of_the_known_is_empty(s: SimV, c: WireV, acked: u32)
    requires
        numbered(s),
        knows_world(s, c),
    ensures
        delta(s, c, acked).0 == seq![crate::wire::MSG_SERVER_DELTA] + crate::codec::le32(
            s.tick as u32,
        ) + crate::codec::le32(acked) + seq![crate::wire::POOL_TERMINATOR],
        delta(s, c, acked).1 == (WireV { last_sent_tick: s.tick as u32, ..c }),
{
    assert(knows_listed(s.objects, s.objects_dirty, c.objects));
    law_delta_of_the_told_is_empty(s, c, acked);
}

/// A client that has just joined knows the objects of the world.
pub proof fn law_baseline_tells_objects(s: SimV)
    ensures
        s.objects.len() <= baseline(s, crate::wire::knows_nothing()).1.objects.len(),
        knows_objects(
            s.objects,
            baseline(s, crate::wire::knows_nothing()).1.objects,
            s.objects.len() as int,
        ),
{
    reveal(baseline);
    let r = crate::wire::knows_nothing().with_room(s);
    law_object_base_informs(s.objects, r.objects, s.objects.len() as int);
}

/// After the changes a client knows the objects of the world, where it knew those that are
/// not listed as changed.
pub proof fn law_delta_tells_objects(s: SimV, c: WireV, acked: u32)
    requires
        cells_ok(s.objects_dirty, s.objects.len()),
        s.objects.len() <= c.objects.len(),
        knows_the_rest(s, c),
    ensures
        s.objects.len() <= delta(s, c, acked).1.objects.len(),
        knows_objects(s.objects, delta(s, c, acked).1.objects, s.objects.len() as int),
{
    reveal(delta);
    let r = c.with_room(s);
    let d = s.objects_dirty.len() as int;
    law_object_delta_informs(s.objects, s.objects_dirty, r.objects, d);
    let om = object_delta(s.objects, s.objects_dirty, r.objects, d).1;
    assert forall|k: int| 0 <= k < s.objects.len() implies #[trigger] om[k] == obj_json(
        s.objects[k],
    ) by {
        assert(r.objects[k] == c.objects[k]);
        if listed(s.objects_dirty, k) {
            assert(listed_below(s.objects_dirty, k, d));
        }
    }
}

/// Whether two worlds look the same to every client.
pub open spec fn looks_like(s: SimV, t: SimV) -> bool {
    &&& s.players.slots.len() == t.players.slots.len()
    &&& forall|k: int|
        0 <= k < s.players.slots.len() ==> (#[trigger] s.players.slots[k]).alive
            == t.players.slots[k].alive && player_known(s.players.slots[k]) == player_known(
            t.players.slots[k],
        )
    &&& s.mobs == t.mobs
    &&& s.ground == t.ground
    &&& s.objects == t.objects
    &&& s.objects_dirty == t.objects_dirty
}

/// A client that knows a world knows every world that looks the same.
pub proof fn law_looks_suffice(s: SimV, t: SimV, c: WireV)
    requires
        looks_like(s, t),
        knows_world(s, c),
    ensures
        knows_world(t, c),
{
    assert forall|k: int| 0 <= k < t.players.slots.len() implies knows_player(
        t.players.slots[k],
        #[trigger] c.players[k],
    ) by {
        assert(knows_player(s.players.slots[k], c.players[k]));
        assert(s.players.slots[k].alive == t.players.slots[k].alive);
    }
}

/// Changes that were told once are not told again, whatever the client knew before.
pub proof fn law_delta_twice(s: SimV, c: WireV, acked: u32, acked_later: u32)
    requires
        numbered(s),
    ensures
        delta(s, delta(s, c, acked).1, acked_later).0 == seq![crate::wire::MSG_SERVER_DELTA]
            + crate::codec::le32(s.tick as u32) + crate::codec::le32(acked_later)
            + seq![crate::wire::POOL_TERMINATOR],
        delta(s, delta(s, c, acked).1, acked_later).1 == delta(s, c, acked).1,
{
    assert(delta(s, c, acked).1.last_sent_tick == s.tick as u32) by {
        reveal(delta);
    }
    law_delta_tells_changes(s, c, acked);
    law_delta_of_the_told_is_empty(s, delta(s, c, acked).1, acked_later);
}

} // verus!
