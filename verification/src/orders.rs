//! What players order and what they are told of each other: every command does what its name
//! says, and visitors are counted by the day.

use vstd::prelude::*;
use crate::chat::chat_line;
use crate::command::CmdV;
use crate::pools::{law_live_ids_are_live, lemma_live_below};
use crate::sim::SimV;
use crate::text::{decimal, in_order, law_in_order, ordered};
use crate::types::Intent;

verus! {

/// Every command is carried out as what its name says, on the slot or the item that it names.
pub proof fn law_commands(
    s: SimV,
    pid: u16,
    x: i32,
    y: i32,
    slot: u8,
    item: Seq<char>,
    today: i32,
)
    ensures
        s.obeyed(pid, CmdV::Click { x, y }, today) == s.click(pid, x, y),
        s.obeyed(pid, CmdV::Stop, today) == s.stop(pid),
        s.obeyed(pid, CmdV::Eat { slot }, today) == s.eat(pid, slot as usize),
        s.obeyed(pid, CmdV::Drop { slot }, today) == s.drop_one(pid, slot as usize),
        s.obeyed(pid, CmdV::Equip { slot }, today) == s.equip(pid, slot as usize),
        s.obeyed(pid, CmdV::Unequip { slot: item }, today) == s.unequip(pid, item),
        s.obeyed(pid, CmdV::Buy { item }, today) == s.buy(pid, item),
        s.obeyed(pid, CmdV::Sell { slot }, today) == s.sell(pid, slot as usize),
        s.obeyed(pid, CmdV::CloseTrade, today) == s.close(pid, "trade"@),
        s.obeyed(pid, CmdV::CloseForge, today) == s.close(pid, "forge"@),
        s.obeyed(pid, CmdV::CloseAngler, today) == s.close(pid, "angler"@),
        s.obeyed(pid, CmdV::AnglerBuy { item }, today) == s.angler_buy(pid, item),
        s.obeyed(pid, CmdV::Forge { item }, today) == s.forge(pid, item),
        s.obeyed(pid, CmdV::ClosePlayerTrade, today) == s.cancel_trade(pid, "Trade declined."@),
        s.obeyed(pid, CmdV::TradeOfferSlot { slot }, today) == s.offer_slot(pid, slot as usize),
        s.obeyed(pid, CmdV::TradeAccept, today) == s.accept_trade(pid),
        s.obeyed(pid, CmdV::TradeConfirm, today) == s.confirm_trade(pid),
        s.obeyed(pid, CmdV::AngelConfirm, today) == s.sacrifice(pid),
        s.obeyed(pid, CmdV::AngelDecline, today) == s.decline(pid),
        s.obeyed(pid, CmdV::Chat { text: item }, today) == s.typed(pid, item, today),
{
}

/// Who is ordered to attack a creature that is up, or to trade with another live player, sets out
/// for the cell where that one stands; else nothing changes.
pub proof fn law_setting_out(s: SimV, pid: u16, other: u16, today: i32)
    requires
        s.players.is_live(pid as int),
    ensures
        ({
            let t = s.obeyed(pid, CmdV::Attack { mid: other as u32 }, today);
            let m = s.m(other);
            if other < s.mobs.slots.len() && m.alive && m.respawn_at == 0 {
                &&& t.p(pid).intent == (Intent::Attack { mid: other as u32 })
                &&& t.p(pid).target == Some((m.x as i32, m.y as i32))
                &&& t.mobs == s.mobs
            } else {
                t == s
            }
        }),
        ({
            let t = s.obeyed(pid, CmdV::TradePlayer { pid: other as u32 }, today);
            let o = s.p(other);
            if other < s.players.slots.len() && o.alive && other != pid {
                &&& t.p(pid).intent == (Intent::Trade { pid: other as u32 })
                &&& t.p(pid).target == Some((o.x as i32, o.y as i32))
            } else {
                t == s
            }
        }),
{
}

/// A day's visitors are those who came on that day: another day starts with none of them, and the
/// one who comes is among them.
pub proof fn law_visitors(s: SimV, uuid: Seq<char>, other: Seq<char>, today: i32)
    requires
        other != uuid,
    ensures
        s.visited(uuid, today).day == today,
        s.visited(uuid, today).visitors.contains(uuid),
        s.day != today ==> !s.visited(uuid, today).visitors.contains(other),
        s.day != today ==> s.visited(uuid, today).visitors.len() == 1,
        s.day == today ==> (s.visited(uuid, today).visitors.contains(other)
            <==> s.visitors.contains(other)),
        s.day == today ==> s.visited(uuid, today).visitors.len() == s.visitors.len() + (
        if s.visitors.contains(uuid) {
            0int
        } else {
            1
        }),
        s.visited(uuid, today).players == s.players,
{
    let t = s.visited(uuid, today);
    let v = s.on_day(today).visitors;
    if !v.contains(uuid) {
        assert(v.push(uuid)[v.len() as int] == uuid);
        if v.contains(other) {
            let k = choose|k: int| 0 <= k < v.len() && v[k] == other;
            assert(v.push(uuid)[k] == other);
        }
        if v.push(uuid).contains(other) {
            let k = choose|k: int| 0 <= k < v.push(uuid).len() && v.push(uuid)[k] == other;
            assert(v[k] == other);
        }
    }
}

/// Who asks who is online is told how many players there are, how many came on the day, and the
/// names.
pub proof fn law_online(s: SimV, pid: u16, text: Seq<char>, today: i32)
    requires
        s.players.is_live(pid as int),
        chat_line(text) == "/online"@,
    ensures
        ({
            let t = s.typed(pid, text, today);
            let (p, q) = (s.p(pid).private_chat, t.p(pid).private_chat);
            let visitors = if s.day == today {
                s.visitors.len() as int
            } else {
                0
            };
            &&& q.len() == p.len() + 2
            &&& q[p.len() as int].text == "Online now: "@ + decimal(s.players.live().len() as int)
                + " | Unique players today: "@ + decimal(visitors)
            &&& q[p.len() as int + 1].text == "Players: "@ + s.name_list()
        }),
{
    reveal(SimV::typed);
    reveal_strlit("/help");
    reveal_strlit("/online");
    assert("/help"@.len() == 5 && "/online"@.len() == 7);
    let d = s.on_day(today);
    assert(d.live_names() =~= s.live_names());
    let first = "Online now: "@ + decimal(s.players.live().len() as int)
        + " | Unique players today: "@ + decimal(d.visitors.len() as int);
    let u = d.private_chat(pid, first);
    assert(s.typed(pid, text, today) == u.private_chat(pid, "Players: "@ + d.name_list()));
}

/// The names that are listed are those of the live players, each as often as it is worn, in order.
pub proof fn law_listed_names(s: SimV, pid: u16)
    requires
        s.players.slots.len() <= 0x1_0000,
        s.players.is_live(pid as int),
    ensures
        s.live_names().contains(s.p(pid).name),
        forall|k: int|
            0 <= k < s.live_names().len() ==> exists|i: int|
                0 <= i < s.players.slots.len() && (#[trigger] s.players.slots[i]).alive
                    && s.players.slots[i].name == #[trigger] s.live_names()[k],
        ordered(in_order(s.live_names())),
        in_order(s.live_names()).to_multiset() == s.live_names().to_multiset(),
        s.name_list() == crate::text::joined(in_order(s.live_names()), ", "@),
{
    let ids = s.players.live();
    let n = s.players.slots.len() as int;
    law_in_order(s.live_names());
    law_live_ids_are_live(s.players.alive(), n);
    lemma_live_below(s.players.alive(), n);
    assert(s.players.alive()[pid as int]);
    assert(ids.contains(pid));
    let k = choose|k: int| 0 <= k < ids.len() && ids[k] == pid;
    assert(s.live_names()[k] == s.p(pid).name);
    assert forall|k: int| 0 <= k < s.live_names().len() implies exists|i: int|
        0 <= i < n && (#[trigger] s.players.slots[i]).alive && s.players.slots[i].name
            == #[trigger] s.live_names()[k] by {
        let i = ids[k] as int;
        assert(s.players.alive()[i]);
        assert(s.players.slots[i].name == s.live_names()[k]);
    }
}

} // verus!
