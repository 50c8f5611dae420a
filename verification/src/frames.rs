//! How a client reads the frames of the world: record by record, and that it then knows what it
//! was told.

use vstd::prelude::*;
use crate::codec::{
    from_le16, from_le32, law_long_text_round_trip, law_u16_round_trip, law_u32_round_trip, le16,
    le32, long_text, long_text_at,
};
use crate::json::{
    equipment_json, intent_json, inv_json, obj_json, skills_json, target_json, ui_json,
};
use crate::pools::{GroundV, MobV, PlayerV};
use crate::sim::SimV;
use crate::sync::{
    law_ground_delta_informs, law_mob_delta_informs, law_player_delta_informs, numbered,
};
use crate::talk::{lemma_long_text_length, sendable};
use crate::types::Obj;
use crate::wire::{
    baseline, delta, gone, ground_base, ground_delta, ground_known, ground_record, ground_told,
    knows_nothing, mob_base, mob_delta, mob_known, mob_record, mob_told, obj_record, object_base,
    object_delta, part, player_base, player_delta, player_known, player_news, player_parts,
    player_record, player_told, record_head, GroundMirrorV, MobMirrorV, PlayerMirrorV, WireV,
    GC_ALL, MC_ALL, OP_DESPAWN, OP_SPAWN, OP_UPDATE, PC_ALL,
};

verus! {

/// A signed number of two bytes where its bit is set, else the one known before; and where it ends.
#[verifier::opaque]
pub open spec fn short_part(b: Seq<u8>, at: int, mask: u16, bit: u16, known: i16) -> (i16, int) {
    if mask & bit != 0 {
        (from_le16(b, at) as i16, at + 2)
    } else {
        (known, at)
    }
}

/// A signed number of four bytes where its bit is set, else the one known before; and where it
/// ends.
#[verifier::opaque]
pub open spec fn wide_part(b: Seq<u8>, at: int, mask: u16, bit: u16, known: i32) -> (i32, int) {
    if mask & bit != 0 {
        (from_le32(b, at) as i32, at + 4)
    } else {
        (known, at)
    }
}

/// A byte where its bit is set, else the one known before; and where it ends.
#[verifier::opaque]
pub open spec fn byte_part(b: Seq<u8>, at: int, mask: u16, bit: u16, known: u8) -> (u8, int) {
    if mask & bit != 0 {
        (b[at], at + 1)
    } else {
        (known, at)
    }
}

/// A text behind its length where its bit is set, else the one known before; and where it ends.
#[verifier::opaque]
pub open spec fn text_part(
    b: Seq<u8>,
    at: int,
    mask: u16,
    bit: u16,
    known: Seq<char>,
) -> (Seq<char>, int) {
    if mask & bit != 0 {
        (long_text_at(b, at).unwrap(), at + 2 + from_le16(b, at))
    } else {
        (known, at)
    }
}

/// What a client knows of a player once it read the components of a record that begin at a place
/// and stand in the order of their bits; and where they end.
#[verifier::opaque]
pub open spec fn read_player(
    b: Seq<u8>,
    at: int,
    mask: u16,
    m: PlayerMirrorV,
) -> (PlayerMirrorV, int) {
    let (x, e0) = short_part(b, at, mask, 1, m.x);
    let (y, e1) = short_part(b, e0, mask, 2, m.y);
    let (hp_cur, e2) = short_part(b, e1, mask, 4, m.hp_cur);
    let (hp_max, e3) = short_part(b, e2, mask, 8, m.hp_max);
    let (name, e4) = text_part(b, e3, mask, 16, m.name);
    let (skills_json, e5) = text_part(b, e4, mask, 32, m.skills_json);
    let (inv_json, e6) = text_part(b, e5, mask, 64, m.inv_json);
    let (equipment_json, e7) = text_part(b, e6, mask, 128, m.equipment_json);
    let (intent_json, e8) = text_part(b, e7, mask, 256, m.intent_json);
    let (target_json, e9) = text_part(b, e8, mask, 512, m.target_json);
    let (ui_json, e10) = text_part(b, e9, mask, 1024, m.ui_json);
    (
        PlayerMirrorV {
            seen: true,
            x,
            y,
            hp_cur,
            hp_max,
            name,
            skills_json,
            inv_json,
            equipment_json,
            intent_json,
            target_json,
            ui_json,
        },
        e10,
    )
}

/// What a client knows of a creature once it read the components of a record that begin at a
/// place and stand in the order of their bits; and where they end.
#[verifier::opaque]
pub open spec fn read_mob(b: Seq<u8>, at: int, mask: u16, m: MobMirrorV) -> (MobMirrorV, int) {
    let (x, e0) = short_part(b, at, mask, 1, m.x);
    let (y, e1) = short_part(b, e0, mask, 2, m.y);
    let (hp_cur, e2) = short_part(b, e1, mask, 4, m.hp_cur);
    let (hp_max, e3) = short_part(b, e2, mask, 8, m.hp_max);
    let (kind_id, e4) = byte_part(b, e3, mask, 16, m.kind_id);
    (MobMirrorV { seen: true, x, y, hp_cur, hp_max, kind_id }, e4)
}

/// What a client knows of a stack on the ground once it read the components of a record that
/// begin at a place and stand in the order of their bits; and where they end.
#[verifier::opaque]
pub open spec fn read_ground(
    b: Seq<u8>,
    at: int,
    mask: u16,
    m: GroundMirrorV,
) -> (GroundMirrorV, int) {
    let (x, e0) = short_part(b, at, mask, 1, m.x);
    let (y, e1) = short_part(b, e0, mask, 2, m.y);
    let (item, e2) = text_part(b, e1, mask, 4, m.item);
    let (qty, e3) = wide_part(b, e2, mask, 8, m.qty);
    (GroundMirrorV { seen: true, x, y, item, qty }, e3)
}

/// What a client knows once it read the record at a place, and where the record ends. The first
/// byte tells the pool by its upper three bits and by the next two what happened: 0 for a change,
/// 1 for one that is new, 2 for one that is gone. Then comes the number.
#[verifier::opaque]
pub open spec fn read_record(b: Seq<u8>, at: int, c: WireV) -> (WireV, int) {
    let pool = b[at] / 32;
    let op = b[at] / 8 % 4;
    let idx = from_le16(b, at + 1) as int;
    let mask = from_le16(b, at + 3);
    if pool == 3 {
        (
            WireV {
                objects: c.objects.update(
                    from_le32(b, at + 1) as int,
                    long_text_at(b, at + 7).unwrap(),
                ),
                ..c
            },
            at + 9 + from_le16(b, at + 7),
        )
    } else if pool == 0 {
        if op == 2 {
            (
                WireV {
                    players: c.players.update(idx, PlayerMirrorV { seen: false, ..c.players[idx] }),
                    ..c
                },
                at + 3,
            )
        } else {
            let (m, end) = read_player(b, at + 5, mask, c.players[idx]);
            (WireV { players: c.players.update(idx, m), ..c }, end)
        }
    } else if pool == 1 {
        if op == 2 {
            (
                WireV {
                    mobs: c.mobs.update(idx, MobMirrorV { seen: false, ..c.mobs[idx] }),
                    ..c
                },
                at + 3,
            )
        } else {
            let (m, end) = read_mob(b, at + 5, mask, c.mobs[idx]);
            (WireV { mobs: c.mobs.update(idx, m), ..c }, end)
        }
    } else if pool == 2 {
        if op == 2 {
            (
                WireV {
                    ground: c.ground.update(idx, GroundMirrorV { seen: false, ..c.ground[idx] }),
                    ..c
                },
                at + 3,
            )
        } else {
            let (m, end) = read_ground(b, at + 5, mask, c.ground[idx]);
            (WireV { ground: c.ground.update(idx, m), ..c }, end)
        }
    } else {
        (c, at)
    }
}

/// What a client knows once it read all records from a place on, up to the byte that ends them.
#[verifier::opaque]
pub open spec fn read_records(b: Seq<u8>, at: int, c: WireV) -> WireV
    decreases b.len() - at,
{
    if at < 0 || at >= b.len() || b[at] == 0xff {
        c
    } else {
        let (next, end) = read_record(b, at, c);
        if end <= at || end > b.len() {
            c
        } else {
            read_records(b, end, next)
        }
    }
}

proof fn lemma_assoc(a: Seq<u8>, b: Seq<u8>, c: Seq<u8>)
    ensures
        a + (b + c) == a + b + c,
{
    assert(a + (b + c) =~= a + b + c);
}

proof fn lemma_read_one(b: Seq<u8>, at: int, c: WireV)
    requires
        0 <= at < b.len(),
        b[at] != 0xff,
        at < read_record(b, at, c).1 <= b.len(),
    ensures
        read_records(b, at, c) == read_records(
            b,
            read_record(b, at, c).1,
            read_record(b, at, c).0,
        ),
{
    reveal_with_fuel(read_records, 1);
}

/// The head, the number and the mask of a record.
spec fn opening(head: u8, h: u16, mask: u16) -> Seq<u8> {
    seq![head] + le16(h) + le16(mask)
}

proof fn lemma_opening(b: Seq<u8>, x: Seq<u8>, head: u8, h: u16, mask: u16, rest: Seq<u8>)
    requires
        b == x + opening(head, h, mask) + rest,
    ensures
        b[x.len() as int] == head,
        from_le16(b, x.len() as int + 1) == h,
        from_le16(b, x.len() as int + 3) == mask,
        opening(head, h, mask).len() == 5,
{
    let k = seq![head];
    assert(b =~= (x + k) + le16(h) + (le16(mask) + rest));
    law_u16_round_trip(x + k, h, le16(mask) + rest);
    assert(b =~= (x + k + le16(h)) + le16(mask) + rest);
    law_u16_round_trip(x + k + le16(h), mask, rest);
    assert(b[x.len() as int] == k[0]);
}

proof fn lemma_signs(x: i16, q: i32)
    ensures
        (x as u16) as i16 == x,
        (q as u32) as i32 == q,
{
    assert((x as u16) as i16 == x) by (bit_vector);
    assert((q as u32) as i32 == q) by (bit_vector);
}

proof fn lemma_heads(pool: u8, op: u8)
    requires
        pool <= 3,
        op <= 2,
    ensures
        record_head(pool, op) == 32 * pool + 8 * op,
        record_head(pool, op) | 1u8 == 32 * pool + 8 * op + 1,
{
    assert((pool << 5u8) | (op << 3u8) == 32 * pool + 8 * op) by (bit_vector)
        requires
            pool <= 3,
            op <= 2,
    ;
    assert(((pool << 5u8) | (op << 3u8)) | 1u8 == 32 * pool + 8 * op + 1) by (bit_vector)
        requires
            pool <= 3,
            op <= 2,
    ;
}

proof fn lemma_short_part(b: Seq<u8>, x: Seq<u8>, mask: u16, bit: u16, v: i16, rest: Seq<u8>)
    requires
        b == x + part(mask, bit, le16(v as u16)) + rest,
    ensures
        b == x + (part(mask, bit, le16(v as u16)) + rest),
        forall|known: i16| #[trigger]
            short_part(b, x.len() as int, mask, bit, known) == (
                if mask & bit != 0 {
                    v
                } else {
                    known
                },
                (x + part(mask, bit, le16(v as u16))).len() as int,
            ),
{
    reveal(short_part);
    lemma_signs(v, 0);
    lemma_assoc(x, part(mask, bit, le16(v as u16)), rest);
    if mask & bit != 0 {
        law_u16_round_trip(x, v as u16, rest);
    }
}

proof fn lemma_wide_part(b: Seq<u8>, x: Seq<u8>, mask: u16, bit: u16, v: i32, rest: Seq<u8>)
    requires
        b == x + part(mask, bit, le32(v as u32)) + rest,
    ensures
        b == x + (part(mask, bit, le32(v as u32)) + rest),
        forall|known: i32| #[trigger]
            wide_part(b, x.len() as int, mask, bit, known) == (
                if mask & bit != 0 {
                    v
                } else {
                    known
                },
                (x + part(mask, bit, le32(v as u32))).len() as int,
            ),
{
    reveal(wide_part);
    lemma_signs(0, v);
    lemma_assoc(x, part(mask, bit, le32(v as u32)), rest);
    if mask & bit != 0 {
        law_u32_round_trip(x, v as u32, rest);
    }
}

proof fn lemma_byte_part(b: Seq<u8>, x: Seq<u8>, mask: u16, bit: u16, v: u8, rest: Seq<u8>)
    requires
        b == x + part(mask, bit, seq![v]) + rest,
    ensures
        b == x + (part(mask, bit, seq![v]) + rest),
        forall|known: u8| #[trigger]
            byte_part(b, x.len() as int, mask, bit, known) == (
                if mask & bit != 0 {
                    v
                } else {
                    known
                },
                (x + part(mask, bit, seq![v])).len() as int,
            ),
{
    reveal(byte_part);
    assert(b =~= x + (part(mask, bit, seq![v]) + rest));
}

proof fn lemma_text_part(b: Seq<u8>, x: Seq<u8>, mask: u16, bit: u16, v: Seq<char>, rest: Seq<u8>)
    requires
        b == x + part(mask, bit, long_text(v)) + rest,
        sendable(v),
    ensures
        b == x + (part(mask, bit, long_text(v)) + rest),
        forall|known: Seq<char>| #[trigger]
            text_part(b, x.len() as int, mask, bit, known) == (
                if mask & bit != 0 {
                    v
                } else {
                    known
                },
                (x + part(mask, bit, long_text(v))).len() as int,
            ),
{
    reveal(text_part);
    lemma_assoc(x, part(mask, bit, long_text(v)), rest);
    if mask & bit != 0 {
        law_long_text_round_trip(x, v, rest);
        lemma_long_text_length(v, x, rest);
    }
}

/// Whether the texts of a player are short enough to be sent whole.
pub open spec fn player_fits(p: PlayerV) -> bool {
    &&& sendable(p.name)
    &&& sendable(skills_json(p.skills))
    &&& sendable(inv_json(p.inv))
    &&& sendable(equipment_json(p.equipment))
    &&& sendable(intent_json(p.intent))
    &&& sendable(target_json(p.target))
    &&& sendable(ui_json(p.ui))
}

/// Every creature can be sent whole.
pub open spec fn mob_fits(p: MobV) -> bool {
    true
}

/// Whether the item of a stack is short enough to be sent whole.
pub open spec fn ground_fits(p: GroundV) -> bool {
    sendable(p.item)
}

/// The components of a record, in the order of their bits.
spec fn player_bytes(k: PlayerMirrorV, mask: u16) -> Seq<u8> {
    (part(mask, 1, le16(k.x as u16))
        + part(mask, 2, le16(k.y as u16))
        + part(mask, 4, le16(k.hp_cur as u16))
        + part(mask, 8, le16(k.hp_max as u16))
        + part(mask, 16, long_text(k.name))) + (part(mask, 32, long_text(k.skills_json))
        + part(mask, 64, long_text(k.inv_json))
        + part(mask, 128, long_text(k.equipment_json))
        + part(mask, 256, long_text(k.intent_json))
        + part(mask, 512, long_text(k.target_json))
        + part(mask, 1024, long_text(k.ui_json)))
}

/// What a client knows after the components whose bits are set.
#[verifier::opaque]
spec fn player_after(k: PlayerMirrorV, m: PlayerMirrorV, mask: u16) -> PlayerMirrorV {
    PlayerMirrorV {
        seen: true,
        x: if mask & 1 != 0 {
            k.x
        } else {
            m.x
        },
        y: if mask & 2 != 0 {
            k.y
        } else {
            m.y
        },
        hp_cur: if mask & 4 != 0 {
            k.hp_cur
        } else {
            m.hp_cur
        },
        hp_max: if mask & 8 != 0 {
            k.hp_max
        } else {
            m.hp_max
        },
        name: if mask & 16 != 0 {
            k.name
        } else {
            m.name
        },
        skills_json: if mask & 32 != 0 {
            k.skills_json
        } else {
            m.skills_json
        },
        inv_json: if mask & 64 != 0 {
            k.inv_json
        } else {
            m.inv_json
        },
        equipment_json: if mask & 128 != 0 {
            k.equipment_json
        } else {
            m.equipment_json
        },
        intent_json: if mask & 256 != 0 {
            k.intent_json
        } else {
            m.intent_json
        },
        target_json: if mask & 512 != 0 {
            k.target_json
        } else {
            m.target_json
        },
        ui_json: if mask & 1024 != 0 {
            k.ui_json
        } else {
            m.ui_json
        },
    }
}

proof fn lemma_player_parts(
    b: Seq<u8>,
    x: Seq<u8>,
    k: PlayerMirrorV,
    mask: u16,
    rest: Seq<u8>,
    m: PlayerMirrorV,
)
    requires
        b == x + player_bytes(k, mask) + rest,
        sendable(k.name) && sendable(k.skills_json) && sendable(k.inv_json)
            && sendable(k.equipment_json) && sendable(k.intent_json) && sendable(k.target_json)
            && sendable(k.ui_json),
    ensures
        read_player(b, x.len() as int, mask, m) == (
            player_after(k, m, mask),
            (x + player_bytes(k, mask)).len() as int,
        ),
{
    reveal(read_player);
    reveal(player_after);
    let d0 = part(mask, 1, le16(k.x as u16));
    let d1 = part(mask, 2, le16(k.y as u16));
    let d2 = part(mask, 4, le16(k.hp_cur as u16));
    let d3 = part(mask, 8, le16(k.hp_max as u16));
    let d4 = part(mask, 16, long_text(k.name));
    let d5 = part(mask, 32, long_text(k.skills_json));
    let d6 = part(mask, 64, long_text(k.inv_json));
    let d7 = part(mask, 128, long_text(k.equipment_json));
    let d8 = part(mask, 256, long_text(k.intent_json));
    let d9 = part(mask, 512, long_text(k.target_json));
    let d10 = part(mask, 1024, long_text(k.ui_json));
    let x0 = x + d0;
    let x1 = x0 + d1;
    let x2 = x1 + d2;
    let x3 = x2 + d3;
    let x4 = x3 + d4;
    let x5 = x4 + d5;
    let x6 = x5 + d6;
    let x7 = x6 + d7;
    let x8 = x7 + d8;
    let x9 = x8 + d9;
    let x10 = x9 + d10;
    let s1 = d0 + d1;
    let s2 = s1 + d2;
    let s3 = s2 + d3;
    let s4 = s3 + d4;
    let s6 = d5 + d6;
    let s7 = s6 + d7;
    let s8 = s7 + d8;
    let s9 = s8 + d9;
    let s10 = s9 + d10;
    lemma_assoc(x, d0, d1);
    lemma_assoc(x, s1, d2);
    lemma_assoc(x, s2, d3);
    lemma_assoc(x, s3, d4);
    assert(x4 == x + s4);
    lemma_assoc(x4, d5, d6);
    lemma_assoc(x4, s6, d7);
    lemma_assoc(x4, s7, d8);
    lemma_assoc(x4, s8, d9);
    lemma_assoc(x4, s9, d10);
    assert(x10 == x4 + s10);
    lemma_assoc(x, s4, s10);
    assert(x10 == x + player_bytes(k, mask));
    let r10 = rest;
    lemma_text_part(b, x9, mask, 1024, k.ui_json, r10);
    let r9 = d10 + r10;
    lemma_text_part(b, x8, mask, 512, k.target_json, r9);
    let r8 = d9 + r9;
    lemma_text_part(b, x7, mask, 256, k.intent_json, r8);
    let r7 = d8 + r8;
    lemma_text_part(b, x6, mask, 128, k.equipment_json, r7);
    let r6 = d7 + r7;
    lemma_text_part(b, x5, mask, 64, k.inv_json, r6);
    let r5 = d6 + r6;
    lemma_text_part(b, x4, mask, 32, k.skills_json, r5);
    let r4 = d5 + r5;
    lemma_text_part(b, x3, mask, 16, k.name, r4);
    let r3 = d4 + r4;
    lemma_short_part(b, x2, mask, 8, k.hp_max, r3);
    let r2 = d3 + r3;
    lemma_short_part(b, x1, mask, 4, k.hp_cur, r2);
    let r1 = d2 + r2;
    lemma_short_part(b, x0, mask, 2, k.y, r1);
    let r0 = d1 + r1;
    lemma_short_part(b, x, mask, 1, k.x, r0);
}

proof fn lemma_player_bytes(p: PlayerV, h: u16, op: u8, mask: u16, m: PlayerMirrorV)
    ensures
        player_record(p, h, op, mask) == opening(record_head(0, op), h, mask) + player_bytes(
            player_known(p),
            mask,
        ),
        (PlayerMirrorV { seen: true, ..player_told(p, m, mask) }) == player_after(player_known(p), m, mask),
        player_after(player_known(p), m, PC_ALL) == player_known(p),
{
    reveal(player_record);
    reveal(player_parts);
    reveal(player_after);
    assert(0x7ffu16 & 1u16 != 0 && 0x7ffu16 & 2u16 != 0 && 0x7ffu16 & 4u16 != 0
        && 0x7ffu16 & 8u16 != 0 && 0x7ffu16 & 16u16 != 0 && 0x7ffu16 & 32u16 != 0
        && 0x7ffu16 & 64u16 != 0 && 0x7ffu16 & 128u16 != 0 && 0x7ffu16 & 256u16 != 0
        && 0x7ffu16 & 512u16 != 0 && 0x7ffu16 & 1024u16 != 0) by (bit_vector);
}

proof fn lemma_player_record(
    b: Seq<u8>,
    x: Seq<u8>,
    p: PlayerV,
    h: u16,
    op: u8,
    mask: u16,
    rest: Seq<u8>,
    c: WireV,
)
    requires
        b == x + player_record(p, h, op, mask) + rest,
        op == OP_SPAWN || op == OP_UPDATE,
        player_fits(p),
    ensures
        read_records(b, x.len() as int, c) == read_records(
            b,
            (x + player_record(p, h, op, mask)).len() as int,
            WireV {
                players: c.players.update(
                    h as int,
                    player_after(player_known(p), c.players[h as int], mask),
                ),
                ..c
            },
        ),
{
    let k = player_known(p);
    lemma_player_bytes(p, h, op, mask, c.players[h as int]);
    lemma_player_keyed(b, x, k, h, op, mask, rest, c);
}

proof fn lemma_player_keyed(
    b: Seq<u8>,
    x: Seq<u8>,
    k: PlayerMirrorV,
    h: u16,
    op: u8,
    mask: u16,
    rest: Seq<u8>,
    c: WireV,
)
    requires
        b == x + (opening(record_head(0, op), h, mask) + player_bytes(k, mask)) + rest,
        op == OP_SPAWN || op == OP_UPDATE,
        sendable(k.name) && sendable(k.skills_json) && sendable(k.inv_json)
            && sendable(k.equipment_json) && sendable(k.intent_json) && sendable(k.target_json)
            && sendable(k.ui_json),
    ensures
        read_records(b, x.len() as int, c) == read_records(
            b,
            (x + (opening(record_head(0, op), h, mask) + player_bytes(k, mask))).len() as int,
            WireV {
                players: c.players.update(
                    h as int,
                    player_after(k, c.players[h as int], mask),
                ),
                ..c
            },
        ),
{
    lemma_heads(0, op);
    let head = record_head(0, op);
    let top = opening(head, h, mask);
    let parts = player_bytes(k, mask);
    lemma_assoc(x, top, parts);
    lemma_assoc(x + top, parts, rest);
    lemma_opening(b, x, head, h, mask, parts + rest);
    lemma_player_parts(b, x + top, k, mask, rest, c.players[h as int]);
    reveal(read_record);
    lemma_read_one(b, x.len() as int, c);
}

proof fn lemma_player_gone(b: Seq<u8>, x: Seq<u8>, h: u16, rest: Seq<u8>, c: WireV)
    requires
        b == x + gone(0, h) + rest,
    ensures
        read_records(b, x.len() as int, c) == read_records(
            b,
            (x + gone(0, h)).len() as int,
            WireV {
                players: c.players.update(
                    h as int,
                    PlayerMirrorV { seen: false, ..c.players[h as int] },
                ),
                ..c
            },
        ),
{
    lemma_heads(0, OP_DESPAWN);
    let head = seq![record_head(0, OP_DESPAWN)];
    assert(b =~= (x + head) + le16(h) + rest);
    law_u16_round_trip(x + head, h, rest);
    assert(b[x.len() as int] == head[0]);
    reveal(read_record);
    lemma_read_one(b, x.len() as int, c);
}

proof fn lemma_player_delta(
    b: Seq<u8>,
    x: Seq<u8>,
    slots: Seq<PlayerV>,
    c: WireV,
    n: int,
    rest: Seq<u8>,
)
    requires
        0 <= n <= slots.len() <= c.players.len(),
        slots.len() <= 65536,
        forall|k: int| 0 <= k < slots.len() ==> player_fits(#[trigger] slots[k]),
        b == x + player_delta(slots, c.players, n).0 + rest,
    ensures
        read_records(b, x.len() as int, c) == read_records(
            b,
            (x + player_delta(slots, c.players, n).0).len() as int,
            WireV { players: player_delta(slots, c.players, n).1, ..c },
        ),
    decreases n,
{
    if n > 0 {
        let (bytes, m) = player_delta(slots, c.players, n - 1);
        law_player_delta_informs(slots, c.players, n - 1);
        let (all, next) = player_delta(slots, c.players, n);
        let h = (n - 1) as u16;
        let p = slots[n - 1];
        let d = WireV { players: m, ..c };
        let y = x + bytes;
        assert(player_fits(p));
        reveal(player_news);
        let live = slots[n - 1].alive;
        let mask = crate::wire::player_diff(p, m[n - 1]);
        let record = if live && !m[n - 1].seen {
            player_record(p, h, OP_SPAWN, PC_ALL)
        } else if !live && m[n - 1].seen {
            gone(0, h)
        } else if live && mask != 0 {
            player_record(p, h, OP_UPDATE, mask)
        } else {
            Seq::<u8>::empty()
        };
        if record.len() == 0 {
            assert(bytes + record =~= bytes);
        }
        assert(all == bytes + record);
        lemma_assoc(x, bytes, record);
        lemma_assoc(x + bytes, record, rest);
        lemma_player_delta(b, x, slots, c, n - 1, record + rest);
        if live && !m[n - 1].seen {
            lemma_player_record(b, y, p, h, OP_SPAWN, PC_ALL, rest, d);
            lemma_player_bytes(p, h, OP_SPAWN, PC_ALL, m[n - 1]);
        } else if !live && m[n - 1].seen {
            lemma_player_gone(b, y, h, rest, d);
        } else if live && mask != 0 {
            lemma_player_record(b, y, p, h, OP_UPDATE, mask, rest, d);
            lemma_player_bytes(p, h, OP_UPDATE, mask, m[n - 1]);
        } else {
            assert(x + all == y);
        }
    } else {
        assert(x + player_delta(slots, c.players, n).0 =~= x);
    }
}

proof fn lemma_player_base(
    b: Seq<u8>,
    x: Seq<u8>,
    slots: Seq<PlayerV>,
    c: WireV,
    n: int,
    rest: Seq<u8>,
)
    requires
        0 <= n <= slots.len() <= c.players.len(),
        slots.len() <= 65536,
        forall|k: int| 0 <= k < slots.len() ==> player_fits(#[trigger] slots[k]),
        b == x + player_base(slots, c.players, n).0 + rest,
    ensures
        player_base(slots, c.players, n).1.len() == c.players.len(),
        read_records(b, x.len() as int, c) == read_records(
            b,
            (x + player_base(slots, c.players, n).0).len() as int,
            WireV { players: player_base(slots, c.players, n).1, ..c },
        ),
    decreases n,
{
    if n > 0 {
        let (bytes, m) = player_base(slots, c.players, n - 1);
        let (all, next) = player_base(slots, c.players, n);
        let h = (n - 1) as u16;
        let p = slots[n - 1];
        let d = WireV { players: m, ..c };
        let y = x + bytes;
        assert(player_fits(p));
        let live = slots[n - 1].alive;
        let record = if live {
            player_record(p, h, OP_SPAWN, PC_ALL)
        } else {
            Seq::<u8>::empty()
        };
        if record.len() == 0 {
            assert(bytes + record =~= bytes);
        }
        assert(all == bytes + record);
        lemma_assoc(x, bytes, record);
        lemma_assoc(x + bytes, record, rest);
        lemma_player_base(b, x, slots, c, n - 1, record + rest);
        if live {
            lemma_player_record(b, y, p, h, OP_SPAWN, PC_ALL, rest, d);
            lemma_player_bytes(p, h, OP_SPAWN, PC_ALL, m[n - 1]);
        } else {
            assert(x + all == y);
        }
    } else {
        assert(x + player_base(slots, c.players, n).0 =~= x);
    }
}

/// The components of a record, in the order of their bits.
spec fn mob_bytes(k: MobMirrorV, mask: u16) -> Seq<u8> {
    part(mask, 1, le16(k.x as u16))
        + part(mask, 2, le16(k.y as u16))
        + part(mask, 4, le16(k.hp_cur as u16))
        + part(mask, 8, le16(k.hp_max as u16))
        + part(mask, 16, seq![k.kind_id])
}

/// What a client knows after the components whose bits are set.
#[verifier::opaque]
spec fn mob_after(k: MobMirrorV, m: MobMirrorV, mask: u16) -> MobMirrorV {
    MobMirrorV {
        seen: true,
        x: if mask & 1 != 0 {
            k.x
        } else {
            m.x
        },
        y: if mask & 2 != 0 {
            k.y
        } else {
            m.y
        },
        hp_cur: if mask & 4 != 0 {
            k.hp_cur
        } else {
            m.hp_cur
        },
        hp_max: if mask & 8 != 0 {
            k.hp_max
        } else {
            m.hp_max
        },
        kind_id: if mask & 16 != 0 {
            k.kind_id
        } else {
            m.kind_id
        },
    }
}

proof fn lemma_mob_parts(
    b: Seq<u8>,
    x: Seq<u8>,
    k: MobMirrorV,
    mask: u16,
    rest: Seq<u8>,
    m: MobMirrorV,
)
    requires
        b == x + mob_bytes(k, mask) + rest,
        true,
    ensures
        read_mob(b, x.len() as int, mask, m) == (
            mob_after(k, m, mask),
            (x + mob_bytes(k, mask)).len() as int,
        ),
{
    reveal(read_mob);
    reveal(mob_after);
    let d0 = part(mask, 1, le16(k.x as u16));
    let d1 = part(mask, 2, le16(k.y as u16));
    let d2 = part(mask, 4, le16(k.hp_cur as u16));
    let d3 = part(mask, 8, le16(k.hp_max as u16));
    let d4 = part(mask, 16, seq![k.kind_id]);
    let x0 = x + d0;
    let x1 = x0 + d1;
    let x2 = x1 + d2;
    let x3 = x2 + d3;
    let x4 = x3 + d4;
    let s1 = d0 + d1;
    lemma_assoc(x, d0, d1);
    lemma_assoc(x, s1, d2);
    let s2 = s1 + d2;
    lemma_assoc(x, s2, d3);
    let s3 = s2 + d3;
    lemma_assoc(x, s3, d4);
    let s4 = s3 + d4;
    assert(x4 == x + mob_bytes(k, mask));
    let r4 = rest;
    lemma_byte_part(b, x3, mask, 16, k.kind_id, r4);
    let r3 = d4 + r4;
    lemma_short_part(b, x2, mask, 8, k.hp_max, r3);
    let r2 = d3 + r3;
    lemma_short_part(b, x1, mask, 4, k.hp_cur, r2);
    let r1 = d2 + r2;
    lemma_short_part(b, x0, mask, 2, k.y, r1);
    let r0 = d1 + r1;
    lemma_short_part(b, x, mask, 1, k.x, r0);
}

proof fn lemma_mob_bytes(p: MobV, h: u16, op: u8, mask: u16, m: MobMirrorV)
    ensures
        mob_record(p, h, op, mask) == opening(record_head(1, op), h, mask) + mob_bytes(
            mob_known(p),
            mask,
        ),
        (MobMirrorV { seen: true, ..mob_told(p, m, mask) }) == mob_after(mob_known(p), m, mask),
        mob_after(mob_known(p), m, MC_ALL) == mob_known(p),
{
    reveal(mob_after);
    assert(0x1fu16 & 1u16 != 0 && 0x1fu16 & 2u16 != 0 && 0x1fu16 & 4u16 != 0
        && 0x1fu16 & 8u16 != 0 && 0x1fu16 & 16u16 != 0) by (bit_vector);
}

proof fn lemma_mob_record(
    b: Seq<u8>,
    x: Seq<u8>,
    p: MobV,
    h: u16,
    op: u8,
    mask: u16,
    rest: Seq<u8>,
    c: WireV,
)
    requires
        b == x + mob_record(p, h, op, mask) + rest,
        op == OP_SPAWN || op == OP_UPDATE,
        mob_fits(p),
    ensures
        read_records(b, x.len() as int, c) == read_records(
            b,
            (x + mob_record(p, h, op, mask)).len() as int,
            WireV {
                mobs: c.mobs.update(
                    h as int,
                    mob_after(mob_known(p), c.mobs[h as int], mask),
                ),
                ..c
            },
        ),
{
    let k = mob_known(p);
    lemma_mob_bytes(p, h, op, mask, c.mobs[h as int]);
    lemma_mob_keyed(b, x, k, h, op, mask, rest, c);
}

proof fn lemma_mob_keyed(
    b: Seq<u8>,
    x: Seq<u8>,
    k: MobMirrorV,
    h: u16,
    op: u8,
    mask: u16,
    rest: Seq<u8>,
    c: WireV,
)
    requires
        b == x + (opening(record_head(1, op), h, mask) + mob_bytes(k, mask)) + rest,
        op == OP_SPAWN || op == OP_UPDATE,
        true,
    ensures
        read_records(b, x.len() as int, c) == read_records(
            b,
            (x + (opening(record_head(1, op), h, mask) + mob_bytes(k, mask))).len() as int,
            WireV {
                mobs: c.mobs.update(
                    h as int,
                    mob_after(k, c.mobs[h as int], mask),
                ),
                ..c
            },
        ),
{
    lemma_heads(1, op);
    let head = record_head(1, op);
    let top = opening(head, h, mask);
    let parts = mob_bytes(k, mask);
    lemma_assoc(x, top, parts);
    lemma_assoc(x + top, parts, rest);
    lemma_opening(b, x, head, h, mask, parts + rest);
    lemma_mob_parts(b, x + top, k, mask, rest, c.mobs[h as int]);
    reveal(read_record);
    lemma_read_one(b, x.len() as int, c);
}

proof fn lemma_mob_gone(b: Seq<u8>, x: Seq<u8>, h: u16, rest: Seq<u8>, c: WireV)
    requires
        b == x + gone(1, h) + rest,
    ensures
        read_records(b, x.len() as int, c) == read_records(
            b,
            (x + gone(1, h)).len() as int,
            WireV {
                mobs: c.mobs.update(
                    h as int,
                    MobMirrorV { seen: false, ..c.mobs[h as int] },
                ),
                ..c
            },
        ),
{
    lemma_heads(1, OP_DESPAWN);
    let head = seq![record_head(1, OP_DESPAWN)];
    assert(b =~= (x + head) + le16(h) + rest);
    law_u16_round_trip(x + head, h, rest);
    assert(b[x.len() as int] == head[0]);
    reveal(read_record);
    lemma_read_one(b, x.len() as int, c);
}

proof fn lemma_mob_delta(b: Seq<u8>, x: Seq<u8>, slots: Seq<MobV>, c: WireV, n: int, rest: Seq<u8>)
    requires
        0 <= n <= slots.len() <= c.mobs.len(),
        slots.len() <= 65536,
        forall|k: int| 0 <= k < slots.len() ==> mob_fits(#[trigger] slots[k]),
        b == x + mob_delta(slots, c.mobs, n).0 + rest,
    ensures
        read_records(b, x.len() as int, c) == read_records(
            b,
            (x + mob_delta(slots, c.mobs, n).0).len() as int,
            WireV { mobs: mob_delta(slots, c.mobs, n).1, ..c },
        ),
    decreases n,
{
    if n > 0 {
        let (bytes, m) = mob_delta(slots, c.mobs, n - 1);
        law_mob_delta_informs(slots, c.mobs, n - 1);
        let (all, next) = mob_delta(slots, c.mobs, n);
        let h = (n - 1) as u16;
        let p = slots[n - 1];
        let d = WireV { mobs: m, ..c };
        let y = x + bytes;
        assert(mob_fits(p));
        let live = (slots[n - 1].alive && slots[n - 1].respawn_at == 0);
        let mask = crate::wire::mob_diff(p, m[n - 1]);
        let record = if live && !m[n - 1].seen {
            mob_record(p, h, OP_SPAWN, MC_ALL)
        } else if !live && m[n - 1].seen {
            gone(1, h)
        } else if live && mask != 0 {
            mob_record(p, h, OP_UPDATE, mask)
        } else {
            Seq::<u8>::empty()
        };
        if record.len() == 0 {
            assert(bytes + record =~= bytes);
        }
        assert(all == bytes + record);
        lemma_assoc(x, bytes, record);
        lemma_assoc(x + bytes, record, rest);
        lemma_mob_delta(b, x, slots, c, n - 1, record + rest);
        if live && !m[n - 1].seen {
            lemma_mob_record(b, y, p, h, OP_SPAWN, MC_ALL, rest, d);
            lemma_mob_bytes(p, h, OP_SPAWN, MC_ALL, m[n - 1]);
        } else if !live && m[n - 1].seen {
            lemma_mob_gone(b, y, h, rest, d);
        } else if live && mask != 0 {
            lemma_mob_record(b, y, p, h, OP_UPDATE, mask, rest, d);
            lemma_mob_bytes(p, h, OP_UPDATE, mask, m[n - 1]);
        } else {
            assert(x + all == y);
        }
    } else {
        assert(x + mob_delta(slots, c.mobs, n).0 =~= x);
    }
}

proof fn lemma_mob_base(b: Seq<u8>, x: Seq<u8>, slots: Seq<MobV>, c: WireV, n: int, rest: Seq<u8>)
    requires
        0 <= n <= slots.len() <= c.mobs.len(),
        slots.len() <= 65536,
        forall|k: int| 0 <= k < slots.len() ==> mob_fits(#[trigger] slots[k]),
        b == x + mob_base(slots, c.mobs, n).0 + rest,
    ensures
        mob_base(slots, c.mobs, n).1.len() == c.mobs.len(),
        read_records(b, x.len() as int, c) == read_records(
            b,
            (x + mob_base(slots, c.mobs, n).0).len() as int,
            WireV { mobs: mob_base(slots, c.mobs, n).1, ..c },
        ),
    decreases n,
{
    if n > 0 {
        let (bytes, m) = mob_base(slots, c.mobs, n - 1);
        let (all, next) = mob_base(slots, c.mobs, n);
        let h = (n - 1) as u16;
        let p = slots[n - 1];
        let d = WireV { mobs: m, ..c };
        let y = x + bytes;
        assert(mob_fits(p));
        let live = (slots[n - 1].alive && slots[n - 1].respawn_at == 0);
        let record = if live {
            mob_record(p, h, OP_SPAWN, MC_ALL)
        } else {
            Seq::<u8>::empty()
        };
        if record.len() == 0 {
            assert(bytes + record =~= bytes);
        }
        assert(all == bytes + record);
        lemma_assoc(x, bytes, record);
        lemma_assoc(x + bytes, record, rest);
        lemma_mob_base(b, x, slots, c, n - 1, record + rest);
        if live {
            lemma_mob_record(b, y, p, h, OP_SPAWN, MC_ALL, rest, d);
            lemma_mob_bytes(p, h, OP_SPAWN, MC_ALL, m[n - 1]);
        } else {
            assert(x + all == y);
        }
    } else {
        assert(x + mob_base(slots, c.mobs, n).0 =~= x);
    }
}

/// The components of a record, in the order of their bits.
spec fn ground_bytes(k: GroundMirrorV, mask: u16) -> Seq<u8> {
    part(mask, 1, le16(k.x as u16))
        + part(mask, 2, le16(k.y as u16))
        + part(mask, 4, long_text(k.item))
        + part(mask, 8, le32(k.qty as u32))
}

/// What a client knows after the components whose bits are set.
#[verifier::opaque]
spec fn ground_after(k: GroundMirrorV, m: GroundMirrorV, mask: u16) -> GroundMirrorV {
    GroundMirrorV {
        seen: true,
        x: if mask & 1 != 0 {
            k.x
        } else {
            m.x
        },
        y: if mask & 2 != 0 {
            k.y
        } else {
            m.y
        },
        item: if mask & 4 != 0 {
            k.item
        } else {
            m.item
        },
        qty: if mask & 8 != 0 {
            k.qty
        } else {
            m.qty
        },
    }
}

proof fn lemma_ground_parts(
    b: Seq<u8>,
    x: Seq<u8>,
    k: GroundMirrorV,
    mask: u16,
    rest: Seq<u8>,
    m: GroundMirrorV,
)
    requires
        b == x + ground_bytes(k, mask) + rest,
        sendable(k.item),
    ensures
        read_ground(b, x.len() as int, mask, m) == (
            ground_after(k, m, mask),
            (x + ground_bytes(k, mask)).len() as int,
        ),
{
    reveal(read_ground);
    reveal(ground_after);
    let d0 = part(mask, 1, le16(k.x as u16));
    let d1 = part(mask, 2, le16(k.y as u16));
    let d2 = part(mask, 4, long_text(k.item));
    let d3 = part(mask, 8, le32(k.qty as u32));
    let x0 = x + d0;
    let x1 = x0 + d1;
    let x2 = x1 + d2;
    let x3 = x2 + d3;
    let s1 = d0 + d1;
    lemma_assoc(x, d0, d1);
    lemma_assoc(x, s1, d2);
    let s2 = s1 + d2;
    lemma_assoc(x, s2, d3);
    let s3 = s2 + d3;
    assert(x3 == x + ground_bytes(k, mask));
    let r3 = rest;
    lemma_wide_part(b, x2, mask, 8, k.qty, r3);
    let r2 = d3 + r3;
    lemma_text_part(b, x1, mask, 4, k.item, r2);
    let r1 = d2 + r2;
    lemma_short_part(b, x0, mask, 2, k.y, r1);
    let r0 = d1 + r1;
    lemma_short_part(b, x, mask, 1, k.x, r0);
}

proof fn lemma_ground_bytes(p: GroundV, h: u16, op: u8, mask: u16, m: GroundMirrorV)
    ensures
        ground_record(p, h, op, mask) == opening(record_head(2, op), h, mask) + ground_bytes(
            ground_known(p),
            mask,
        ),
        (GroundMirrorV { seen: true, ..ground_told(p, m, mask) }) == ground_after(ground_known(p), m, mask),
        ground_after(ground_known(p), m, GC_ALL) == ground_known(p),
{
    reveal(ground_after);
    assert(0xfu16 & 1u16 != 0 && 0xfu16 & 2u16 != 0 && 0xfu16 & 4u16 != 0
        && 0xfu16 & 8u16 != 0) by (bit_vector);
}

proof fn lemma_ground_record(
    b: Seq<u8>,
    x: Seq<u8>,
    p: GroundV,
    h: u16,
    op: u8,
    mask: u16,
    rest: Seq<u8>,
    c: WireV,
)
    requires
        b == x + ground_record(p, h, op, mask) + rest,
        op == OP_SPAWN || op == OP_UPDATE,
        ground_fits(p),
    ensures
        read_records(b, x.len() as int, c) == read_records(
            b,
            (x + ground_record(p, h, op, mask)).len() as int,
            WireV {
                ground: c.ground.update(
                    h as int,
                    ground_after(ground_known(p), c.ground[h as int], mask),
                ),
                ..c
            },
        ),
{
    let k = ground_known(p);
    lemma_ground_bytes(p, h, op, mask, c.ground[h as int]);
    lemma_ground_keyed(b, x, k, h, op, mask, rest, c);
}

proof fn lemma_ground_keyed(
    b: Seq<u8>,
    x: Seq<u8>,
    k: GroundMirrorV,
    h: u16,
    op: u8,
    mask: u16,
    rest: Seq<u8>,
    c: WireV,
)
    requires
        b == x + (opening(record_head(2, op), h, mask) + ground_bytes(k, mask)) + rest,
        op == OP_SPAWN || op == OP_UPDATE,
        sendable(k.item),
    ensures
        read_records(b, x.len() as int, c) == read_records(
            b,
            (x + (opening(record_head(2, op), h, mask) + ground_bytes(k, mask))).len() as int,
            WireV {
                ground: c.ground.update(
                    h as int,
                    ground_after(k, c.ground[h as int], mask),
                ),
                ..c
            },
        ),
{
    lemma_heads(2, op);
    let head = record_head(2, op);
    let top = opening(head, h, mask);
    let parts = ground_bytes(k, mask);
    lemma_assoc(x, top, parts);
    lemma_assoc(x + top, parts, rest);
    lemma_opening(b, x, head, h, mask, parts + rest);
    lemma_ground_parts(b, x + top, k, mask, rest, c.ground[h as int]);
    reveal(read_record);
    lemma_read_one(b, x.len() as int, c);
}

proof fn lemma_ground_gone(b: Seq<u8>, x: Seq<u8>, h: u16, rest: Seq<u8>, c: WireV)
    requires
        b == x + gone(2, h) + rest,
    ensures
        read_records(b, x.len() as int, c) == read_records(
            b,
            (x + gone(2, h)).len() as int,
            WireV {
                ground: c.ground.update(
                    h as int,
                    GroundMirrorV { seen: false, ..c.ground[h as int] },
                ),
                ..c
            },
        ),
{
    lemma_heads(2, OP_DESPAWN);
    let head = seq![record_head(2, OP_DESPAWN)];
    assert(b =~= (x + head) + le16(h) + rest);
    law_u16_round_trip(x + head, h, rest);
    assert(b[x.len() as int] == head[0]);
    reveal(read_record);
    lemma_read_one(b, x.len() as int, c);
}

proof fn lemma_ground_delta(
    b: Seq<u8>,
    x: Seq<u8>,
    slots: Seq<GroundV>,
    c: WireV,
    n: int,
    rest: Seq<u8>,
)
    requires
        0 <= n <= slots.len() <= c.ground.len(),
        slots.len() <= 65536,
        forall|k: int| 0 <= k < slots.len() ==> ground_fits(#[trigger] slots[k]),
        b == x + ground_delta(slots, c.ground, n).0 + rest,
    ensures
        read_records(b, x.len() as int, c) == read_records(
            b,
            (x + ground_delta(slots, c.ground, n).0).len() as int,
            WireV { ground: ground_delta(slots, c.ground, n).1, ..c },
        ),
    decreases n,
{
    if n > 0 {
        let (bytes, m) = ground_delta(slots, c.ground, n - 1);
        law_ground_delta_informs(slots, c.ground, n - 1);
        let (all, next) = ground_delta(slots, c.ground, n);
        let h = (n - 1) as u16;
        let p = slots[n - 1];
        let d = WireV { ground: m, ..c };
        let y = x + bytes;
        assert(ground_fits(p));
        let live = slots[n - 1].alive;
        let mask = crate::wire::ground_diff(p, m[n - 1]);
        let record = if live && !m[n - 1].seen {
            ground_record(p, h, OP_SPAWN, GC_ALL)
        } else if !live && m[n - 1].seen {
            gone(2, h)
        } else if live && mask != 0 {
            ground_record(p, h, OP_UPDATE, mask)
        } else {
            Seq::<u8>::empty()
        };
        if record.len() == 0 {
            assert(bytes + record =~= bytes);
        }
        assert(all == bytes + record);
        lemma_assoc(x, bytes, record);
        lemma_assoc(x + bytes, record, rest);
        lemma_ground_delta(b, x, slots, c, n - 1, record + rest);
        if live && !m[n - 1].seen {
            lemma_ground_record(b, y, p, h, OP_SPAWN, GC_ALL, rest, d);
            lemma_ground_bytes(p, h, OP_SPAWN, GC_ALL, m[n - 1]);
        } else if !live && m[n - 1].seen {
            lemma_ground_gone(b, y, h, rest, d);
        } else if live && mask != 0 {
            lemma_ground_record(b, y, p, h, OP_UPDATE, mask, rest, d);
            lemma_ground_bytes(p, h, OP_UPDATE, mask, m[n - 1]);
        } else {
            assert(x + all == y);
        }
    } else {
        assert(x + ground_delta(slots, c.ground, n).0 =~= x);
    }
}

proof fn lemma_ground_base(
    b: Seq<u8>,
    x: Seq<u8>,
    slots: Seq<GroundV>,
    c: WireV,
    n: int,
    rest: Seq<u8>,
)
    requires
        0 <= n <= slots.len() <= c.ground.len(),
        slots.len() <= 65536,
        forall|k: int| 0 <= k < slots.len() ==> ground_fits(#[trigger] slots[k]),
        b == x + ground_base(slots, c.ground, n).0 + rest,
    ensures
        ground_base(slots, c.ground, n).1.len() == c.ground.len(),
        read_records(b, x.len() as int, c) == read_records(
            b,
            (x + ground_base(slots, c.ground, n).0).len() as int,
            WireV { ground: ground_base(slots, c.ground, n).1, ..c },
        ),
    decreases n,
{
    if n > 0 {
        let (bytes, m) = ground_base(slots, c.ground, n - 1);
        let (all, next) = ground_base(slots, c.ground, n);
        let h = (n - 1) as u16;
        let p = slots[n - 1];
        let d = WireV { ground: m, ..c };
        let y = x + bytes;
        assert(ground_fits(p));
        let live = slots[n - 1].alive;
        let record = if live {
            ground_record(p, h, OP_SPAWN, GC_ALL)
        } else {
            Seq::<u8>::empty()
        };
        if record.len() == 0 {
            assert(bytes + record =~= bytes);
        }
        assert(all == bytes + record);
        lemma_assoc(x, bytes, record);
        lemma_assoc(x + bytes, record, rest);
        lemma_ground_base(b, x, slots, c, n - 1, record + rest);
        if live {
            lemma_ground_record(b, y, p, h, OP_SPAWN, GC_ALL, rest, d);
            lemma_ground_bytes(p, h, OP_SPAWN, GC_ALL, m[n - 1]);
        } else {
            assert(x + all == y);
        }
    } else {
        assert(x + ground_base(slots, c.ground, n).0 =~= x);
    }
}

proof fn lemma_obj_record(
    b: Seq<u8>,
    x: Seq<u8>,
    idx: u32,
    json: Seq<char>,
    rest: Seq<u8>,
    c: WireV,
)
    requires
        b == x + obj_record(idx, json) + rest,
        sendable(json),
    ensures
        read_records(b, x.len() as int, c) == read_records(
            b,
            (x + obj_record(idx, json)).len() as int,
            WireV { objects: c.objects.update(idx as int, json), ..c },
        ),
{
    lemma_heads(3, OP_UPDATE);
    let head = seq![record_head(3, OP_UPDATE) | 1u8];
    let one = le16(crate::wire::OC_OBJ);
    let text = long_text(json);
    let top = head + le32(idx) + one;
    lemma_assoc(x, top, text);
    lemma_assoc(x + top, text, rest);
    lemma_obj_opening(b, x, idx, text + rest);
    law_long_text_round_trip(x + top, json, rest);
    lemma_long_text_length(json, x + top, rest);
    reveal(read_record);
    lemma_read_one(b, x.len() as int, c);
}

proof fn lemma_obj_opening(b: Seq<u8>, x: Seq<u8>, idx: u32, rest: Seq<u8>)
    requires
        b == x + (seq![record_head(3, OP_UPDATE) | 1u8] + le32(idx) + le16(crate::wire::OC_OBJ)) + rest,
    ensures
        b[x.len() as int] == record_head(3, OP_UPDATE) | 1u8,
        from_le32(b, x.len() as int + 1) == idx,
{
    let head = seq![record_head(3, OP_UPDATE) | 1u8];
    let one = le16(crate::wire::OC_OBJ);
    assert(b =~= (x + head) + le32(idx) + (one + rest));
    law_u32_round_trip(x + head, idx, one + rest);
    assert(b[x.len() as int] == head[0]);
}

/// Whether the texts of all objects are short enough to be sent whole.
pub open spec fn objects_fit(objects: Seq<Obj>) -> bool {
    forall|k: int| 0 <= k < objects.len() ==> sendable(obj_json(#[trigger] objects[k]))
}

proof fn lemma_object_delta(
    b: Seq<u8>,
    x: Seq<u8>,
    objects: Seq<Obj>,
    dirty: Seq<u32>,
    c: WireV,
    n: int,
    rest: Seq<u8>,
)
    requires
        0 <= n <= dirty.len(),
        objects.len() <= c.objects.len(),
        objects_fit(objects),
        forall|j: int| 0 <= j < dirty.len() ==> (#[trigger] dirty[j]) < objects.len(),
        b == x + object_delta(objects, dirty, c.objects, n).0 + rest,
    ensures
        read_records(b, x.len() as int, c) == read_records(
            b,
            (x + object_delta(objects, dirty, c.objects, n).0).len() as int,
            WireV { objects: object_delta(objects, dirty, c.objects, n).1, ..c },
        ),
    decreases n,
{
    if n > 0 {
        let (bytes, m) = object_delta(objects, dirty, c.objects, n - 1);
        let (all, next) = object_delta(objects, dirty, c.objects, n);
        let i = dirty[n - 1];
        let json = obj_json(objects[i as int]);
        let d = WireV { objects: m, ..c };
        let y = x + bytes;
        let record = if m[i as int] == json {
            Seq::<u8>::empty()
        } else {
            obj_record(i, json)
        };
        if record.len() == 0 {
            assert(bytes + record =~= bytes);
        }
        assert(all == bytes + record);
        lemma_assoc(x, bytes, record);
        lemma_assoc(x + bytes, record, rest);
        lemma_object_delta(b, x, objects, dirty, c, n - 1, record + rest);
        if m[i as int] != json {
            lemma_obj_record(b, y, i, json, rest, d);
        } else {
            assert(x + all == y);
        }
    } else {
        assert(x + object_delta(objects, dirty, c.objects, n).0 =~= x);
    }
}

/// Whether a client takes the cells from one on for empty that are.
spec fn takes_for_empty(objects: Seq<Obj>, ms: Seq<Seq<char>>) -> bool {
    forall|k: int|
        0 <= k < objects.len() && (#[trigger] objects[k]) is Empty ==> ms[k] == obj_json(Obj::Empty)
}

proof fn lemma_object_base(
    b: Seq<u8>,
    x: Seq<u8>,
    objects: Seq<Obj>,
    c: WireV,
    n: int,
    rest: Seq<u8>,
)
    requires
        0 <= n <= objects.len() <= c.objects.len(),
        objects.len() <= 0x1_0000_0000,
        objects_fit(objects),
        takes_for_empty(objects, c.objects),
        b == x + object_base(objects, c.objects, n).0 + rest,
    ensures
        object_base(objects, c.objects, n).1.len() == c.objects.len(),
        takes_for_empty(objects, object_base(objects, c.objects, n).1),
        read_records(b, x.len() as int, c) == read_records(
            b,
            (x + object_base(objects, c.objects, n).0).len() as int,
            WireV { objects: object_base(objects, c.objects, n).1, ..c },
        ),
    decreases n,
{
    if n > 0 {
        let (bytes, m) = object_base(objects, c.objects, n - 1);
        let (all, next) = object_base(objects, c.objects, n);
        let o = objects[n - 1];
        let json = obj_json(o);
        let d = WireV { objects: m, ..c };
        let y = x + bytes;
        let record = if o is Empty {
            Seq::<u8>::empty()
        } else {
            obj_record((n - 1) as u32, json)
        };
        if record.len() == 0 {
            assert(bytes + record =~= bytes);
        }
        assert(all == bytes + record);
        lemma_assoc(x, bytes, record);
        lemma_assoc(x + bytes, record, rest);
        lemma_object_base(b, x, objects, c, n - 1, record + rest);
        if o is Empty {
            assert(x + all == y);
            assert(m[n - 1] == json);
            assert(next =~= m);
        } else {
            lemma_obj_record(b, y, (n - 1) as u32, json, rest, d);
        }
    } else {
        assert(x + object_base(objects, c.objects, n).0 =~= x);
    }
}

/// Whether everything in a world can be sent whole.
pub open spec fn world_fits(s: SimV) -> bool {
    &&& forall|k: int| 0 <= k < s.players.slots.len() ==> player_fits(#[trigger] s.players.slots[k])
    &&& forall|k: int| 0 <= k < s.ground.slots.len() ==> ground_fits(#[trigger] s.ground.slots[k])
    &&& objects_fit(s.objects)
}

/// The frame of changes begins with its kind, the tick and the tick that the client has seen. A
/// client that reads its records knows afterwards just what the server takes it to know.
pub proof fn law_changes_read_back(s: SimV, c: WireV, acked: u32)
    requires
        numbered(s),
        world_fits(s),
    ensures
        ({
            let (f, known) = delta(s, c, acked);
            &&& f[0] == 4
            &&& from_le32(f, 1) == s.tick as u32
            &&& from_le32(f, 5) == acked
            &&& f.last() == 0xff
            &&& read_records(f, 9, c.with_room(s)) == (WireV {
                last_sent_tick: c.last_sent_tick,
                ..known
            })
        }),
{
    reveal(delta);
    let r = c.with_room(s);
    let (ps, ms, gs) = (s.players.slots, s.mobs.slots, s.ground.slots);
    let (pb, pm) = player_delta(ps, r.players, ps.len() as int);
    let (mb, mm) = mob_delta(ms, r.mobs, ms.len() as int);
    let (gb, gm) = ground_delta(gs, r.ground, gs.len() as int);
    let (ob, om) = object_delta(
        s.objects,
        s.objects_dirty,
        r.objects,
        s.objects_dirty.len() as int,
    );
    let kind = seq![crate::wire::MSG_SERVER_DELTA];
    let (t, a) = (le32(s.tick as u32), le32(acked));
    let end = seq![crate::wire::POOL_TERMINATOR];
    let f = delta(s, c, acked).0;
    let x = kind + t + a;
    let (x1, x2, x3) = (x + pb, x + pb + mb, x + pb + mb + gb);
    let z = x3 + ob;
    let e3 = ob + end;
    let e2 = gb + e3;
    let e1 = mb + e2;
    lemma_assoc(x3, ob, end);
    lemma_assoc(x2, gb, e3);
    lemma_assoc(x1, mb, e2);
    lemma_assoc(x, pb, e1);
    lemma_top(f, s.tick as u32, acked, pb + e1);
    lemma_player_delta(f, x, ps, r, ps.len() as int, e1);
    let r1 = WireV { players: pm, ..r };
    lemma_mob_delta(f, x1, ms, r1, ms.len() as int, e2);
    let r2 = WireV { mobs: mm, ..r1 };
    lemma_ground_delta(f, x2, gs, r2, gs.len() as int, e3);
    let r3 = WireV { ground: gm, ..r2 };
    lemma_object_delta(
        f,
        x3,
        s.objects,
        s.objects_dirty,
        r3,
        s.objects_dirty.len() as int,
        end,
    );
    assert(f[z.len() as int] == 0xff);
    lemma_read_none(f, z.len() as int, WireV { objects: om, ..r3 });
}

proof fn lemma_read_none(b: Seq<u8>, at: int, c: WireV)
    requires
        0 <= at < b.len(),
        b[at] == 0xff,
    ensures
        read_records(b, at, c) == c,
{
    reveal_with_fuel(read_records, 1);
}

proof fn lemma_top(f: Seq<u8>, tick: u32, acked: u32, rest: Seq<u8>)
    requires
        f == seq![crate::wire::MSG_SERVER_DELTA] + le32(tick) + le32(acked) + rest,
    ensures
        f[0] == 4,
        from_le32(f, 1) == tick,
        from_le32(f, 5) == acked,
        f.len() == 9 + rest.len(),
{
    let kind = seq![crate::wire::MSG_SERVER_DELTA];
    let (t, a) = (le32(tick), le32(acked));
    assert(f =~= kind + t + (a + rest));
    law_u32_round_trip(kind, tick, a + rest);
    law_u32_round_trip(kind + t, acked, rest);
}

/// What a client knows that has just joined: nobody, and no object on any cell.
pub open spec fn blank(s: SimV) -> WireV {
    WireV {
        objects: Seq::new(s.objects.len(), |k: int| obj_json(Obj::Empty)),
        ..knows_nothing().with_room(s)
    }
}

/// The full picture begins with its kind and the tick. A client that has just joined and reads
/// its records knows afterwards just what the server takes it to know.
pub proof fn law_pictures_read_back(s: SimV)
    requires
        numbered(s),
        world_fits(s),
        s.objects.len() <= i32::MAX,
    ensures
        ({
            let (f, known) = baseline(s, knows_nothing());
            &&& f[0] == 3
            &&& from_le32(f, 1) == s.tick as u32
            &&& f.last() == 0xff
            &&& read_records(f, 5, blank(s)) == (WireV { last_sent_tick: 0, ..known })
        }),
{
    reveal(baseline);
    let r = blank(s);
    let n = s.objects.len() as int;
    let (ps, ms, gs) = (s.players.slots, s.mobs.slots, s.ground.slots);
    let (pb, pm) = player_base(ps, r.players, ps.len() as int);
    let (mb, mm) = mob_base(ms, r.mobs, ms.len() as int);
    let (gb, gm) = ground_base(gs, r.ground, gs.len() as int);
    let (ob, om) = object_base(s.objects, r.objects, n);
    lemma_base_is_told(s.objects, knows_nothing().with_room(s).objects, r.objects, n);
    assert(om =~= object_base(s.objects, knows_nothing().with_room(s).objects, n).1);
    let (f, known) = baseline(s, knows_nothing());
    let t = seq![crate::wire::MSG_SERVER_BASELINE] + le32(s.tick as u32);
    let end = seq![crate::wire::POOL_TERMINATOR];
    assert(f == t + pb + mb + gb + ob + end);
    lemma_picture(f, t, s, r);
    let rest = pb + (mb + (gb + (ob + end)));
    lemma_assoc(t + pb + mb + gb, ob, end);
    lemma_assoc(t + pb + mb, gb, ob + end);
    lemma_assoc(t + pb, mb, gb + (ob + end));
    lemma_assoc(t, pb, mb + (gb + (ob + end)));
    law_u32_round_trip(seq![crate::wire::MSG_SERVER_BASELINE], s.tick as u32, rest);
}

proof fn lemma_picture(f: Seq<u8>, x: Seq<u8>, s: SimV, r: WireV)
    requires
        numbered(s),
        world_fits(s),
        s.objects.len() <= i32::MAX,
        s.players.slots.len() <= r.players.len(),
        s.mobs.slots.len() <= r.mobs.len(),
        s.ground.slots.len() <= r.ground.len(),
        s.objects.len() <= r.objects.len(),
        takes_for_empty(s.objects, r.objects),
        f == x + player_base(s.players.slots, r.players, s.players.slots.len() as int).0 + mob_base(
            s.mobs.slots,
            r.mobs,
            s.mobs.slots.len() as int,
        ).0 + ground_base(s.ground.slots, r.ground, s.ground.slots.len() as int).0 + object_base(
            s.objects,
            r.objects,
            s.objects.len() as int,
        ).0 + seq![crate::wire::POOL_TERMINATOR],
    ensures
        f.last() == 0xff,
        read_records(f, x.len() as int, r) == (WireV {
            players: player_base(s.players.slots, r.players, s.players.slots.len() as int).1,
            mobs: mob_base(s.mobs.slots, r.mobs, s.mobs.slots.len() as int).1,
            ground: ground_base(s.ground.slots, r.ground, s.ground.slots.len() as int).1,
            objects: object_base(s.objects, r.objects, s.objects.len() as int).1,
            last_sent_tick: r.last_sent_tick,
        }),
{
    let (ps, ms, gs) = (s.players.slots, s.mobs.slots, s.ground.slots);
    let n = s.objects.len() as int;
    let (pb, pm) = player_base(ps, r.players, ps.len() as int);
    let (mb, mm) = mob_base(ms, r.mobs, ms.len() as int);
    let (gb, gm) = ground_base(gs, r.ground, gs.len() as int);
    let (ob, om) = object_base(s.objects, r.objects, n);
    let end = seq![crate::wire::POOL_TERMINATOR];
    let (x1, x2, x3) = (x + pb, x + pb + mb, x + pb + mb + gb);
    let z = x3 + ob;
    let e3 = ob + end;
    let e2 = gb + e3;
    let e1 = mb + e2;
    lemma_assoc(x3, ob, end);
    lemma_assoc(x2, gb, e3);
    lemma_assoc(x1, mb, e2);
    lemma_player_base(f, x, ps, r, ps.len() as int, e1);
    let r1 = WireV { players: pm, ..r };
    lemma_mob_base(f, x1, ms, r1, ms.len() as int, e2);
    let r2 = WireV { mobs: mm, ..r1 };
    lemma_ground_base(f, x2, gs, r2, gs.len() as int, e3);
    let r3 = WireV { ground: gm, ..r2 };
    lemma_object_base(f, x3, s.objects, r3, n, end);
    assert(f[z.len() as int] == 0xff);
    lemma_read_none(f, z.len() as int, WireV { objects: om, ..r3 });
}

/// The records of objects do not depend on what the client knew, nor does what it knows of those
/// that it was told of.
proof fn lemma_base_is_told(objects: Seq<Obj>, a: Seq<Seq<char>>, b: Seq<Seq<char>>, n: int)
    requires
        0 <= n <= objects.len(),
        a.len() == objects.len(),
        b.len() == objects.len(),
    ensures
        object_base(objects, a, n).0 == object_base(objects, b, n).0,
        object_base(objects, a, n).1.len() == a.len(),
        object_base(objects, b, n).1.len() == b.len(),
        forall|k: int|
            0 <= k < n ==> #[trigger] object_base(objects, a, n).1[k] == object_base(
                objects,
                b,
                n,
            ).1[k],
    decreases n,
{
    if n > 0 {
        lemma_base_is_told(objects, a, b, n - 1);
    }
}

} // verus!
