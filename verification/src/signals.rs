//! That what clients send is understood as it was meant, and that they are sent everything.

use vstd::prelude::*;
use vstd::utf8::encode_utf8;
use crate::codec::{law_short_text_round_trip, law_u32_round_trip, le32, short_text};
use crate::command::{command_bytes, law_command_round_trip, sendable, CmdV};
use crate::json::{
    equipment_json, intent_json, inv_json, obj_json, skills_json, target_json, ui_json,
};
use crate::pools::PlayerV;
use crate::session::{ack_of, cmd_of, hex_text, join_parts, name_place, ServerV};
use crate::sim::SimV;
use crate::sync::knows_world;
use crate::types::SlotV;
use crate::views::{offer_item_json, offer_rows, trade_json};
use crate::wire::{delta, events_frame, init_frame, WireV};

verus! {

/// What a client sends to join, with who it is and its name, is understood.
pub proof fn law_joins_are_understood(uuid: Seq<char>, name: Seq<char>)
    requires
        encode_utf8(uuid).len() <= 0xff,
        encode_utf8(name).len() <= 0xff,
    ensures
        join_parts(seq![1u8] + short_text(uuid) + short_text(name)) == Some((uuid, name)),
{
    let kind = seq![1u8];
    let (a, b) = (short_text(uuid), short_text(name));
    let t = kind + a + b;
    let none = Seq::<u8>::empty();
    law_short_text_round_trip(kind, uuid, b);
    law_short_text_round_trip(kind + a, name, none);
    assert(kind + a + b + none =~= t);
    let e = encode_utf8(uuid);
    assert(e.take(e.len() as int) =~= e);
    assert(t[1] == a[0]);
    assert(name_place(t) == (kind + a).len());
}

/// What no client that joins sends is not taken for it.
pub proof fn law_only_joins_join(b: Seq<u8>)
    ensures
        join_parts(b) is Some <==> b.len() > 0 && b[0] == 1,
{
}

/// An acknowledgement of a tick is understood, and is no command.
pub proof fn law_acknowledgements_are_understood(tick: u32)
    ensures
        ack_of(seq![5u8] + le32(tick)) == Some(tick),
        cmd_of(seq![5u8] + le32(tick)) is None,
{
    let kind = seq![5u8];
    let none = Seq::<u8>::empty();
    law_u32_round_trip(kind, tick, none);
    assert(kind + le32(tick) + none =~= kind + le32(tick));
}

/// A command that is sent is understood, and is no acknowledgement.
pub proof fn law_commands_are_understood(c: CmdV)
    requires
        sendable(c),
    ensures
        cmd_of(seq![6u8] + command_bytes(c)) == Some(c),
        ack_of(seq![6u8] + command_bytes(c)) is None,
{
    let none = Seq::<u8>::empty();
    law_command_round_trip(c, none);
    assert(command_bytes(c) + none =~= command_bytes(c));
    assert((seq![6u8] + command_bytes(c)).skip(1) =~= command_bytes(c));
}

/// The number by which a command is known to clients.
pub open spec fn command_number(c: CmdV) -> u8 {
    match c {
        CmdV::Click { .. } => 1,
        CmdV::Attack { .. } => 2,
        CmdV::TradePlayer { .. } => 3,
        CmdV::Stop => 4,
        CmdV::Eat { .. } => 5,
        CmdV::Drop { .. } => 6,
        CmdV::Equip { .. } => 7,
        CmdV::Unequip { .. } => 8,
        CmdV::Buy { .. } => 9,
        CmdV::Sell { .. } => 10,
        CmdV::CloseTrade => 11,
        CmdV::CloseForge => 12,
        CmdV::CloseAngler => 13,
        CmdV::AnglerBuy { .. } => 14,
        CmdV::Forge { .. } => 15,
        CmdV::ClosePlayerTrade => 16,
        CmdV::TradeOfferSlot { .. } => 17,
        CmdV::TradeAccept => 18,
        CmdV::TradeConfirm => 19,
        CmdV::AngelConfirm => 20,
        CmdV::AngelDecline => 21,
        CmdV::Chat { .. } => 22,
    }
}

/// A command is sent behind its number, and the column of a click stands before its row.
pub proof fn law_commands_are_numbered(c: CmdV)
    ensures
        command_bytes(c).len() > 0,
        command_bytes(c)[0] == command_number(c),
        c matches CmdV::Click { x, y } ==> command_bytes(c) == seq![1u8] + le32(x as u32) + le32(
            y as u32,
        ),
{
}

/// The value of a digit in hexadecimal.
pub open spec fn digit_value(c: char) -> int {
    if '0' <= c <= '9' {
        c as int - '0' as int
    } else {
        c as int - 'a' as int + 10
    }
}

/// The hash that clients compare is read back byte by byte, two digits each.
pub proof fn law_hashes_read_back(b: Seq<u8>, k: int)
    requires
        0 <= k < b.len(),
    ensures
        hex_text(b).len() == 2 * b.len(),
        16 * digit_value(hex_text(b)[2 * k]) + digit_value(hex_text(b)[2 * k + 1]) == b[k],
    decreases b.len(),
{
    let d = b.drop_last();
    if k < d.len() {
        law_hashes_read_back(d, k);
        assert(d[k] == b[k]);
    } else if d.len() > 0 {
        law_hashes_read_back(d, 0);
    }
    if d.len() == 0 {
        assert(hex_text(d).len() == 0);
    }
}

/// Who joins is sent four frames: the map, the catalogues, the world, and itself.
pub proof fn law_welcome(v: ServerV, pid: u16, uuid: Seq<char>)
    ensures
        ({
            let w = ServerV::welcome(v.sim, pid, uuid);
            &&& w.len() == 4
            &&& w[0] == init_frame(v.sim, pid, uuid) && w[0][0] == 2
            &&& w[1][0] == 10
            &&& w[2][0] == 3
            &&& w[3] == v.sim.you_frame(pid) && w[3][0] == 11
        }),
{
    reveal(init_frame);
    reveal(crate::wire::baseline);
    reveal(SimV::you_frame);
    let w = ServerV::welcome(v.sim, pid, uuid);
    assert(w[0][0] == 2);
    assert(w[1][0] == 10);
    assert(w[2][0] == 3);
    assert(w[3][0] == 11);
}

/// Whether a client is sent, in this order, what has changed since it was last told, how things
/// stand with itself, and what was seen in the tick if there was anything.
pub open spec fn told_of_the_tick(v: ServerV, k: int, frames: Seq<Seq<u8>>) -> bool {
    let c = v.clients[k];
    &&& frames.len() >= 2
    &&& exists|s: SimV|
        #[trigger] same_but_lines(v.sim, s) && frames[0] == delta(s, c.wire, c.last_ack).0
            && frames[1] == s.you_frame(c.pid)
    &&& (events_frame(v.sim.tick, v.sim.events) matches Some(e) ==> frames.len() >= 3 && frames[2]
        == e)
}

/// Whether two worlds differ at most in the lines that wait for players.
pub open spec fn same_but_lines(a: SimV, b: SimV) -> bool {
    &&& b.players.slots.len() == a.players.slots.len()
    &&& forall|k: int|
        0 <= k < a.players.slots.len() ==> (#[trigger] b.players.slots[k]) == (
        PlayerV {
            log: b.players.slots[k].log,
            private_chat: b.players.slots[k].private_chat,
            ..a.players.slots[k]
        })
    &&& b == (SimV { players: b.players, ..a })
}

proof fn lemma_told(v: ServerV, n: int)
    requires
        0 <= n <= v.clients.len(),
        forall|j: int| 0 <= j < v.clients.len() ==> v.sim.has((#[trigger] v.clients[j]).pid),
    ensures
        same_but_lines(v.sim, v.served(n).0.sim),
        v.served(n).0.clients.len() == v.clients.len(),
        forall|j: int|
            n <= j < v.clients.len() ==> #[trigger] v.served(n).0.clients[j] == v.clients[j],
        v.served(n).1.len() == n,
        forall|j: int| 0 <= j < n ==> told_of_the_tick(v, j, #[trigger] v.served(n).1[j]),
    decreases n,
{
    if n > 0 {
        lemma_told(v, n - 1);
        let (u, out) = v.served(n - 1);
        let c = v.clients[n - 1];
        assert(u.clients[n - 1] == c);
        assert(v.sim.has(c.pid));
        assert(same_but_lines(v.sim, u.sim));
        let now = v.served(n);
        assert(told_of_the_tick(v, n - 1, now.1[n - 1]));
        assert forall|j: int| 0 <= j < n implies told_of_the_tick(v, j, #[trigger] now.1[j]) by {
            if j < n - 1 {
                assert(now.1[j] == out[j]);
            }
        }
        if u.sim.players.is_live(c.pid as int) {
            let s = u.sim.lines_sent(c.pid);
            assert forall|k: int| 0 <= k < v.sim.players.slots.len() implies (
            #[trigger] s.players.slots[k]) == (PlayerV {
                log: s.players.slots[k].log,
                private_chat: s.players.slots[k].private_chat,
                ..v.sim.players.slots[k]
            }) by {
                assert(u.sim.players.slots[k] == u.sim.players.slots[k]);
            }
        }
    } else {
        assert(same_but_lines(v.sim, v.sim));
    }
}

/// After a tick every client is told what it brought.
pub proof fn law_everybody_is_told(v: ServerV, k: int)
    requires
        0 <= k < v.clients.len(),
        forall|j: int| 0 <= j < v.clients.len() ==> v.sim.has((#[trigger] v.clients[j]).pid),
        v.sim.ticked().players.slots.len() == v.sim.players.slots.len(),
    ensures
        v.after_tick().1.len() == v.clients.len(),
        told_of_the_tick(ServerV { sim: v.sim.ticked(), ..v }, k, v.after_tick().1[k]),
{
    let u = ServerV { sim: v.sim.ticked(), ..v };
    assert forall|j: int| 0 <= j < u.clients.len() implies u.sim.has(
        (#[trigger] u.clients[j]).pid,
    ) by {
        assert(v.sim.has(v.clients[j].pid));
    }
    lemma_told(u, v.clients.len() as int);
}

/// What a client that is there was sent is not sent again.
pub proof fn law_lines_are_sent_once(v: ServerV, n: int, k: int)
    requires
        0 <= k < n <= v.clients.len(),
        forall|j: int| 0 <= j < v.clients.len() ==> v.sim.has((#[trigger] v.clients[j]).pid),
        v.sim.p(v.clients[k].pid).alive,
    ensures
        ({
            let p = v.served(n).0.sim.p(v.clients[k].pid);
            p.log.len() == 0 && p.private_chat.len() == 0
        }),
    decreases n,
{
    lemma_told(v, n - 1);
    let u = v.served(n - 1).0;
    let pid = v.clients[k].pid;
    assert(v.sim.has(pid));
    assert(v.sim.has(v.clients[n - 1].pid));
    assert(u.clients[n - 1] == v.clients[n - 1]);
    assert(u.sim.players.slots[pid as int].alive);
    if k < n - 1 {
        law_lines_are_sent_once(v, n - 1, k);
    }
}

/// A client that knows the world knows of every live player, every creature and every stack where
/// it is and how it is, and of every cell what is on it.
pub proof fn law_clients_know_how_things_are(s: SimV, c: WireV, k: int)
    requires
        knows_world(s, c),
        k >= 0,
    ensures
        k < s.players.slots.len() && s.players.slots[k].alive ==> {
            let (p, m) = (s.players.slots[k], c.players[k]);
            &&& m.seen
            &&& (m.x, m.y, m.hp_cur, m.hp_max, m.name) == (p.x, p.y, p.hp_cur, p.hp_max, p.name)
            &&& m.skills_json == skills_json(p.skills) && m.inv_json == inv_json(p.inv)
            &&& m.equipment_json == equipment_json(p.equipment)
            &&& m.intent_json == intent_json(p.intent) && m.target_json == target_json(p.target)
            &&& m.ui_json == ui_json(p.ui)
        },
        k < s.mobs.slots.len() && s.mobs.slots[k].alive && s.mobs.slots[k].respawn_at == 0 ==> {
            let (p, m) = (s.mobs.slots[k], c.mobs[k]);
            &&& m.seen
            &&& (m.x, m.y, m.hp_cur, m.hp_max, m.kind_id) == (
            p.x, p.y, p.hp_cur, p.hp_max, p.kind_id)
        },
        k < s.ground.slots.len() && s.ground.slots[k].alive ==> {
            let (p, m) = (s.ground.slots[k], c.ground[k]);
            m.seen && (m.x, m.y, m.item, m.qty) == (p.x, p.y, p.item, p.qty)
        },
        k < s.objects.len() ==> c.objects[k] == obj_json(s.objects[k]),
{
}

/// Both sides of a trade see it, and nobody else sees one.
pub proof fn law_trades_are_seen(s: SimV, pid: u16, other: u16)
    requires
        s.players.is_live(pid as int),
        s.players.is_live(other as int),
        s.p(pid).trade.partner == Some(other as u32),
    ensures
        s.p(other).trade.partner == Some(pid as u32) ==> s.trade_view(pid) == trade_json(
            s.p(pid),
            other as u32,
            s.p(other),
        ) && s.trade_view(other) == trade_json(s.p(other), pid as u32, s.p(pid)),
        s.p(other).trade.partner != Some(pid as u32) ==> s.trade_view(pid) == "null"@,
        s.p(other).trade.partner is None ==> s.trade_view(other) == "null"@,
{
}

/// Every slot that is offered and holds something is shown, in the order of the offer.
pub proof fn law_offers_are_shown(inv: Seq<SlotV>, slots: Seq<usize>)
    requires
        forall|k: int|
            0 <= k < slots.len() ==> (#[trigger] slots[k]) < inv.len()
                && inv[slots[k] as int].item.len() > 0 && inv[slots[k] as int].qty > 0,
    ensures
        offer_rows(inv, slots).len() == slots.len(),
        forall|k: int|
            0 <= k < slots.len() ==> #[trigger] offer_rows(inv, slots)[k] == offer_item_json(
                inv,
                slots[k],
            ),
    decreases slots.len(),
{
    if slots.len() > 0 {
        law_offers_are_shown(inv, slots.drop_last());
        assert(slots[slots.len() - 1] < inv.len());
        assert forall|k: int| 0 <= k < slots.len() implies #[trigger] offer_rows(inv, slots)[k]
            == offer_item_json(inv, slots[k]) by {
            if k < slots.len() - 1 {
                assert(slots.drop_last()[k] == slots[k]);
                assert(offer_rows(inv, slots.drop_last())[k] == offer_item_json(inv, slots[k]));
            }
        }
    }
}

} // verus!
