//! How players come and go: what a newcomer has, who is stored, and who is connected.

use vstd::prelude::*;
use crate::chat::name_for;
use crate::pools::{free_ok, law_live_ids_are_live, lemma_live_below, PlayerV};
use crate::save::{hyphenated, uuid_text, SaveV};
use crate::search::{first_at, lemma_first_at};
use crate::session::{client_is, ServerV};
use crate::sim::SimV;
use crate::text::lower_text;
use crate::types::Intent;

verus! {

/// A newcomer starts at the start with 50 coins and nothing else, at level 1 in everything and
/// with 10 hit points.
pub proof fn law_newcomers(s: SimV, uuid: Seq<char>, name: Seq<char>, today: i32)
    requires
        s.players.slots.len() < 0x1_0000,
        free_ok(s.players.free, s.players.alive()),
    ensures
        ({
            let t = s.joined(uuid, name, None, today);
            let q = t.p(s.players.next_slot());
            &&& q.alive
            &&& (q.uuid, q.name) == (uuid, name)
            &&& (q.x, q.y) == (s.player_spawn.0 as i16, s.player_spawn.1 as i16)
            &&& q.hp_cur == 10 && q.hp_max == 10 && q.skills.hp == 10
            &&& q.skills.woodcutting == 1 && q.skills.mining == 1 && q.skills.fishing == 1
            &&& q.skills.attack == 1 && q.skills.strength == 1 && q.skills.defence == 1
            &&& q.skills.woodcutting_xp == 0 && q.skills.mining_xp == 0 && q.skills.fishing_xp == 0
            &&& q.skills.attack_xp == 0 && q.skills.strength_xp == 0 && q.skills.defence_xp == 0
            &&& q.skills.hp_xp == 0 && q.skills.angel_points == 0
            &&& q.inv.len() == 28
            &&& q.inv[0].item == "coins"@ && q.inv[0].qty == 50
            &&& forall|k: int| 1 <= k < 28 ==> (#[trigger] q.inv[k]).item.len() == 0
            &&& q.equipment.helmet.len() == 0 && q.equipment.chest.len() == 0
            &&& q.equipment.legs.len() == 0 && q.equipment.left_hand.len() == 0
            &&& q.equipment.right_hand.len() == 0
            &&& q.intent == Intent::Idle && q.target is None && q.trade.partner is None
        }),
{
    reveal(SimV::joined);
    let n = s.players.free.len() - 1;
    if s.players.free.len() > 0 {
        assert(s.players.free[n] < s.players.alive().len());
    }
}

/// Who joins counts as a visitor of the day, and everybody else is as before.
pub proof fn law_joining_leaves_the_others(
    s: SimV,
    uuid: Seq<char>,
    name: Seq<char>,
    saved: Option<SaveV>,
    today: i32,
    other: int,
)
    requires
        s.players.slots.len() < 0x1_0000,
        free_ok(s.players.free, s.players.alive()),
        0 <= other < s.players.slots.len(),
        s.players.slots[other].alive,
    ensures
        s.joined(uuid, name, saved, today).players.slots[other] == s.players.slots[other],
        s.joined(uuid, name, saved, today).visitors.contains(uuid),
        s.joined(uuid, name, saved, today).day == today,
        s.joined(uuid, name, saved, today).mobs == s.mobs,
        s.joined(uuid, name, saved, today).ground == s.ground,
        s.joined(uuid, name, saved, today).chat == s.chat,
{
    reveal(SimV::joined);
    let n = s.players.free.len() - 1;
    if s.players.free.len() > 0 {
        assert(s.players.free[n] < s.players.alive().len());
        assert(!s.players.alive()[s.players.free[n] as int]);
    }
    let v = s.on_day(today).visitors;
    if !v.contains(uuid) {
        assert(v.push(uuid)[v.len() as int] == uuid);
    }
}

/// Whether a record says of a player what there is to store: who it is, where it is, how it is,
/// and what it has.
pub open spec fn record_of(r: SaveV, p: PlayerV) -> bool {
    &&& (r.uuid, r.name) == (p.uuid, p.name)
    &&& (r.x, r.y, r.hp_cur) == (p.x as i32, p.y as i32, p.hp_cur as i32)
    &&& r.skills == p.skills
    &&& (r.inv, r.equipment) == (p.inv, p.equipment)
}

/// Whether a record is that of one of the listed players that is there.
spec fn among(s: SimV, ids: Seq<u16>, r: SaveV) -> bool {
    exists|k: int| 0 <= k < ids.len() && s.p(#[trigger] ids[k]).alive && r == s.save_of(ids[k])
}

proof fn lemma_saves(s: SimV, ids: Seq<u16>)
    ensures
        forall|k: int|
            0 <= k < ids.len() && s.p(#[trigger] ids[k]).alive ==> s.saves(ids).contains(
                s.save_of(ids[k]),
            ),
        forall|j: int| 0 <= j < s.saves(ids).len() ==> among(s, ids, #[trigger] s.saves(ids)[j]),
    decreases ids.len(),
{
    if ids.len() > 0 {
        let d = ids.drop_last();
        lemma_saves(s, d);
        let (r, q) = (s.saves(ids), s.saves(d));
        assert forall|k: int| 0 <= k < ids.len() && s.p(#[trigger] ids[k]).alive implies r.contains(
            s.save_of(ids[k]),
        ) by {
            if k < d.len() {
                assert(d[k] == ids[k]);
                assert(q.contains(s.save_of(d[k])));
                let j = choose|j: int| 0 <= j < q.len() && q[j] == s.save_of(d[k]);
                assert(r[j] == s.save_of(ids[k]));
            } else {
                assert(r[q.len() as int] == s.save_of(ids[k]));
            }
        }
        assert forall|j: int| 0 <= j < r.len() implies among(s, ids, #[trigger] r[j]) by {
            if j < q.len() {
                assert(r[j] == q[j]);
                assert(among(s, d, q[j]));
                let k = choose|k: int|
                    0 <= k < d.len() && s.p(#[trigger] d[k]).alive && q[j] == s.save_of(d[k]);
                assert(ids[k] == d[k]);
            } else {
                assert(s.p(ids[ids.len() - 1]).alive);
                assert(r[j] == s.save_of(ids[ids.len() - 1]));
            }
        }
    }
}

/// Everybody who is there is stored, as it is, and nobody else.
pub proof fn law_everybody_is_stored(s: SimV, pid: u16)
    requires
        s.players.slots.len() <= 0x1_0000,
        s.has(pid),
        s.p(pid).alive,
    ensures
        exists|j: int|
            0 <= j < s.saves(s.players.live()).len() && record_of(
                #[trigger] s.saves(s.players.live())[j],
                s.p(pid),
            ),
        forall|j: int|
            0 <= j < s.saves(s.players.live()).len() ==> exists|k: int|
                0 <= k < s.players.slots.len() && (#[trigger] s.players.slots[k]).alive
                    && s.players.slots[k].uuid == (#[trigger] s.saves(s.players.live())[j]).uuid,
{
    let ids = s.players.live();
    let n = s.players.slots.len() as int;
    law_live_ids_are_live(s.players.alive(), n);
    lemma_live_below(s.players.alive(), n);
    lemma_saves(s, ids);
    assert(s.players.alive()[pid as int]);
    assert(ids.contains(pid));
    let k = choose|k: int| 0 <= k < ids.len() && ids[k] == pid;
    assert(s.saves(ids).contains(s.save_of(ids[k])));
    let all = s.saves(ids);
    let j = choose|j: int| 0 <= j < all.len() && all[j] == s.save_of(ids[k]);
    assert(record_of(all[j], s.p(pid)));
    assert forall|j: int| 0 <= j < all.len() implies exists|k: int|
        0 <= k < n && (#[trigger] s.players.slots[k]).alive && s.players.slots[k].uuid == (
        #[trigger] all[j]).uuid by {
        assert(among(s, ids, all[j]));
        let k = choose|k: int|
            0 <= k < ids.len() && s.p(#[trigger] ids[k]).alive && all[j] == s.save_of(ids[k]);
        assert(s.players.slots[ids[k] as int].alive);
    }
}

/// A client that leaves is gone and so is its player, the trade that it was in is over, and the
/// clients of all others stay.
pub proof fn law_leaving(v: ServerV, k: int)
    requires
        0 <= k < v.clients.len(),
        v.sim.players.slots.len() <= 0x1_0000,
        v.sim.has(v.clients[k].pid),
        v.sim.p(v.clients[k].pid).alive,
        forall|i: int, j: int|
            0 <= i < j < v.clients.len() ==> (#[trigger] v.clients[i]).pid != (
            #[trigger] v.clients[j]).pid,
    ensures
        ({
            let pid = v.clients[k].pid;
            let u = v.after_leave(pid);
            &&& !u.sim.p(pid).alive
            &&& u.clients.len() == v.clients.len() - 1
            &&& forall|j: int| 0 <= j < u.clients.len() ==> (#[trigger] u.clients[j]).pid != pid
            &&& forall|j: int|
                0 <= j < v.clients.len() && j != k ==> u.clients.contains(#[trigger] v.clients[j])
            &&& v.sim.p(pid).trade.partner matches Some(o) ==> (v.sim.players.is_live(o as int)
                && v.sim.p(o as u16).trade.partner == Some(pid as u32) && o != pid ==> u.sim.p(
                o as u16,
            ).trade.partner is None)
        }),
{
    let pid = v.clients[k].pid;
    lemma_first_at(v.clients, client_is(pid), 0);
    assert(client_is(pid)(v.clients[k]));
    let n = first_at(v.clients, client_is(pid), 0);
    assert(client_is(pid)(v.clients[n]));
    assert(n == k);
    let u = v.after_leave(pid);
    let last = v.clients.len() - 1;
    assert forall|j: int| 0 <= j < u.clients.len() implies (#[trigger] u.clients[j]).pid != pid by {
        if j == k {
            assert(u.clients[j] == v.clients[last]);
        } else {
            assert(u.clients[j] == v.clients[j]);
        }
    }
    assert forall|j: int| 0 <= j < v.clients.len() && j != k implies u.clients.contains(
        #[trigger] v.clients[j],
    ) by {
        if j == last {
            assert(u.clients[k] == v.clients[j]);
        } else {
            assert(u.clients[j] == v.clients[j]);
        }
    }
}

/// A client that joins is connected last, as the player that it plays, under the name that it
/// asked for, cleaned, where nothing is stored of it; all others stay connected.
pub proof fn law_joining(v: ServerV, uuid: Seq<char>, name: Seq<char>, today: i32)
    requires
        v.sim.players.slots.len() < 0x1_0000,
        free_ok(v.sim.players.free, v.sim.players.alive()),
    ensures
        ({
            let u = v.after_join(uuid, name, None, today);
            let c = u.clients.last();
            &&& u.clients.len() == v.clients.len() + 1
            &&& u.clients.drop_last() == v.clients
            &&& c.uuid == uuid
            &&& u.sim.p(c.pid).alive
            &&& u.sim.p(c.pid).uuid == uuid
            &&& u.sim.p(c.pid).name == name_for(name)
            &&& c.last_ack == v.sim.tick as u32
        }),
{
    law_newcomers(v.sim, uuid, name_for(name), today);
    crate::save::lemma_joined_keeps(v.sim, uuid, name_for(name), None, today);
    let u = v.after_join(uuid, name, None, today);
    assert(u.clients.drop_last() =~= v.clients);
}

/// An acknowledgement is noted for its client alone.
pub proof fn law_acknowledgements(v: ServerV, k: int, tick: u32)
    requires
        0 <= k < v.clients.len(),
        forall|i: int, j: int|
            0 <= i < j < v.clients.len() ==> (#[trigger] v.clients[i]).pid != (
            #[trigger] v.clients[j]).pid,
    ensures
        ({
            let u = v.after_ack(v.clients[k].pid, tick);
            &&& u.sim == v.sim
            &&& u.clients.len() == v.clients.len()
            &&& u.clients[k].last_ack == tick
            &&& u.clients[k].pid == v.clients[k].pid && u.clients[k].wire == v.clients[k].wire
            &&& forall|j: int|
                0 <= j < v.clients.len() && j != k ==> #[trigger] u.clients[j] == v.clients[j]
        }),
{
    let pid = v.clients[k].pid;
    lemma_first_at(v.clients, client_is(pid), 0);
    assert(client_is(pid)(v.clients[k]));
    let n = first_at(v.clients, client_is(pid), 0);
    assert(client_is(pid)(v.clients[n]));
    assert(n == k);
}

/// An identity in lower case and with hyphens is kept as it is; one in capitals, or in braces, is
/// the same one.
pub proof fn law_identities_are_kept(s: Seq<char>)
    requires
        hyphenated(s),
    ensures
        lower_text(s) == s ==> uuid_text(s) == Some(s),
        uuid_text(s) == Some(lower_text(s)),
        uuid_text(seq!['{'] + s + seq!['}']) == Some(lower_text(s)),
{
    let b = seq!['{'] + s + seq!['}'];
    assert(b.subrange(1, 37) =~= s);
}

/// A stored player comes back with its hit points, but with at least one and at most all of them.
pub proof fn law_returning_alive(s: SimV, uuid: Seq<char>, asked: Seq<char>, r: SaveV, today: i32)
    requires
        s.players.slots.len() < 0x1_0000,
        free_ok(s.players.free, s.players.alive()),
        1 <= r.skills.hp <= 108,
    ensures
        ({
            let q = s.joined(uuid, asked, Some(r), today).p(s.players.next_slot());
            &&& q.hp_cur == (if r.hp_cur < 1 {
                1
            } else if r.hp_cur > r.skills.hp {
                r.skills.hp as int
            } else {
                r.hp_cur as int
            })
            &&& q.hp_max == r.skills.hp
            &&& q.name == name_for(r.name)
            &&& (q.x, q.y) == (r.x as i16, r.y as i16)
            &&& (q.inv, q.equipment, q.skills) == (r.inv, r.equipment, r.skills)
        }),
{
    reveal(SimV::joined);
    let n = s.players.free.len() - 1;
    if s.players.free.len() > 0 {
        assert(s.players.free[n] < s.players.alive().len());
    }
}

} // verus!
