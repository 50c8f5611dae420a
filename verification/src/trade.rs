//! Trades between players: asking, offering, accepting, confirming, cancelling.

use vstd::prelude::*;
use crate::inventory::{can_receive_trade_items, offer_items_from_slots};
use crate::inventory::{can_receive, emptied, offer_ok, offerable, offered, received};
use crate::pools::PlayerV;
use crate::sim::{lemma_update_twice, Sim, SimV};
use crate::text::{join2, join3};
use crate::types::{closed_ui, slots_of, ChatV, TradeV};
use crate::types::{ChatMsg, InvSlot, Intent, TradeStage, TradeState, UiState, INV_SIZE};

verus! {

broadcast use lemma_update_twice;

/// The list without a number.
pub open spec fn without(s: Seq<usize>, x: usize) -> Seq<usize>
    decreases s.len(),
{
    if s.len() == 0 {
        s
    } else if s.last() == x {
        without(s.drop_last(), x)
    } else {
        without(s.drop_last(), x).push(s.last())
    }
}

/// The list with a number taken out where it stands in it, else added at the end.
pub open spec fn toggled(s: Seq<usize>, x: usize) -> Seq<usize> {
    if s.contains(x) {
        without(s, x)
    } else {
        s.push(x)
    }
}

fn toggle(v: &Vec<usize>, x: usize) -> (r: Vec<usize>)
    ensures
        r@ == toggled(v@, x),
{
    let mut out: Vec<usize> = Vec::new();
    let mut found: bool = false;
    let mut i: usize = 0;
    assert(v@.take(0) =~= Seq::<usize>::empty());
    while i < v.len()
        invariant
            i <= v.len(),
            out@ == without(v@.take(i as int), x),
            found == exists|k: int| 0 <= k < i && v@[k] == x,
            !found ==> out@ == v@.take(i as int),
        decreases v.len() - i,
    {
        assert(v@.take(i + 1).drop_last() =~= v@.take(i as int));
        if v[i] == x {
            found = true;
        } else {
            out.push(v[i]);
            assert(v@.take(i + 1) =~= v@.take(i as int).push(v@[i as int]));
        }
        i = i + 1;
    }
    assert(v@.take(i as int) =~= v@);
    if !found {
        out.push(x);
    }
    out
}

impl SimV {
    /// The world with one player out of any trade.
    pub open spec fn reset_trade(self, pid: u16) -> SimV {
        self.put(pid, PlayerV { trade: self.p(pid).trade.reset(), ..self.p(pid) })
    }

    /// The world after a player left a trade. Its partner, if still in the trade,
    /// leaves it too and hears why.
    pub open spec fn cancel_trade(self, pid: u16, other_msg: Seq<char>) -> SimV {
        let s = self.reset_trade(pid);
        match self.p(pid).trade.partner {
            Some(o) => if s.players.is_live(o as int) && s.p(o as u16).trade.partner == Some(
                pid as u32,
            ) {
                s.reset_trade(o as u16).tell(o as u16, other_msg)
            } else {
                s
            },
            None => s,
        }
    }

    /// The world with a player in a trade that begins.
    pub open spec fn enter_trade(self, pid: u16, partner: u16, partner_name: Seq<char>) -> SimV {
        let p = self.p(pid);
        self.put(
            pid,
            PlayerV {
                trade: TradeV {
                    partner: Some(partner as u32),
                    request_from: None,
                    ..p.trade.reset()
                },
                ui: closed_ui(),
                ..p
            }.idle().said("Trading with "@ + partner_name + "."@),
        )
    }

    /// The world after two live players began to trade; trades they were in end.
    pub open spec fn begin_trade(self, a: u16, b: u16) -> SimV {
        if self.players.is_live(a as int) && self.players.is_live(b as int) {
            let s = self.cancel_trade(a, "Trade cancelled."@).cancel_trade(b, "Trade cancelled."@);
            s.enter_trade(a, b, s.p(b).name).enter_trade(b, a, s.p(a).name)
        } else {
            self
        }
    }

    /// The world after a system line went to one player.
    pub open spec fn private_chat(self, pid: u16, text: Seq<char>) -> SimV {
        let seq = self.chat_seq.wrapping_add(1);
        let s = SimV { chat_seq: seq, ..self };
        if self.players.is_live(pid as int) {
            let msg = ChatV { id: seq, tick: self.tick, pid: 0, name: "System"@, text };
            s.put(pid, PlayerV { private_chat: self.p(pid).private_chat.push(msg), ..self.p(pid) })
        } else {
            s
        }
    }

    /// The world after a player asked another for a trade. Where the other asked
    /// first, the trade begins.
    pub open spec fn request_trade(self, pid: u16, other: u16) -> SimV {
        if pid == other || !self.players.is_live(pid as int) || !self.players.is_live(
            other as int,
        ) {
            self
        } else if self.p(pid).trade.request_from == Some(other as u32) {
            self.begin_trade(pid, other)
        } else {
            let o = self.p(other);
            self.put(
                other,
                PlayerV { trade: TradeV { request_from: Some(pid as u32), ..o.trade }, ..o },
            ).tell(pid, "Sending trade offer to "@ + o.name + "..."@).private_chat(
                other,
                self.p(pid).name + " wishes to trade with you."@,
            )
        }
    }

    /// The world with a live player's trade back at the offer stage.
    pub open spec fn reopen_trade(self, pid: u16) -> SimV {
        if self.players.is_live(pid as int) {
            self.put(pid, PlayerV { trade: self.p(pid).trade.reopened(), ..self.p(pid) })
        } else {
            self
        }
    }

    /// The world with a trade back at the offer stage, for both sides.
    pub open spec fn reset_accepts(self, pid: u16) -> SimV {
        let s = self.reopen_trade(pid);
        match self.p(pid).trade.partner {
            Some(o) => s.reopen_trade(o as u16),
            None => s,
        }
    }

    /// The world after a player put a slot into its offer or took it out. Without
    /// a trade, or with an empty slot, nothing happens.
    pub open spec fn offer_slot(self, pid: u16, slot: usize) -> SimV {
        let p = self.p(pid);
        if slot >= INV_SIZE || p.trade.partner is None || p.inv[slot as int].item.len() == 0 {
            self
        } else {
            let trade = TradeV { offer: toggled(p.trade.offer, slot), ..p.trade };
            self.put(pid, PlayerV { trade, ..p }).reset_accepts(pid)
        }
    }

    /// The world with a player's trade at the confirm stage, not confirmed.
    pub open spec fn to_confirm(self, pid: u16) -> SimV {
        let p = self.p(pid);
        self.put(
            pid,
            PlayerV {
                trade: TradeV { stage: TradeStage::Confirm, confirmed: false, ..p.trade },
                ..p
            },
        )
    }

    /// The world after a player accepted the offers. Once both did, the trade is
    /// at the confirm stage.
    pub open spec fn accept_trade(self, pid: u16) -> SimV {
        let p = self.p(pid);
        match p.trade.partner {
            None => self,
            Some(o) => {
                let q = o as u16;
                if self.p(q).trade.partner != Some(pid as u32) {
                    self.cancel_trade(pid, "Trade cancelled."@)
                } else {
                    let s = self.put(
                        pid,
                        PlayerV { trade: TradeV { accepted: true, ..p.trade }, ..p },
                    );
                    if s.p(q).trade.accepted {
                        s.to_confirm(pid).to_confirm(q)
                    } else {
                        s
                    }
                }
            },
        }
    }

    /// The world after a player confirmed the trade. Once both did, it is carried out.
    pub open spec fn confirm_trade(self, pid: u16) -> SimV {
        let p = self.p(pid);
        match p.trade.partner {
            None => self,
            Some(o) => {
                let q = o as u16;
                if p.trade.stage != TradeStage::Confirm || self.p(q).trade.stage
                    != TradeStage::Confirm {
                    self
                } else {
                    let s = self.put(
                        pid,
                        PlayerV { trade: TradeV { confirmed: true, ..p.trade }, ..p },
                    );
                    if s.p(q).trade.confirmed {
                        s.complete_trade(pid, q)
                    } else {
                        s
                    }
                }
            },
        }
    }

    /// The world with a player's offered slots emptied, what comes in added, and
    /// the trade over.
    pub open spec fn exchange(self, pid: u16, slots: Seq<usize>, items: Seq<crate::types::SlotV>) -> SimV {
        let p = self.p(pid);
        self.put(
            pid,
            PlayerV {
                inv: received(emptied(p.inv, slots), items),
                trade: p.trade.reset(),
                ..p
            }.said("Accepted trade."@),
        )
    }

    /// The world after two partners exchanged their offers. Where an offer no
    /// longer stands, or the items find no room, the trade is cancelled instead.
    #[verifier::opaque]
    pub open spec fn complete_trade(self, a: u16, b: u16) -> SimV {
        let (p, q) = (self.p(a), self.p(b));
        if p.trade.partner != Some(b as u32) || q.trade.partner != Some(a as u32) {
            self
        } else if !offer_ok(p.inv, p.trade.offer) {
            self.cancel_trade(a, "Trade cancelled."@)
        } else if !offer_ok(q.inv, q.trade.offer) {
            self.cancel_trade(b, "Trade cancelled."@)
        } else {
            let a_items = offered(p.inv, p.trade.offer);
            let b_items = offered(q.inv, q.trade.offer);
            if !can_receive(p.inv, b_items, p.trade.offer) || !can_receive(
                q.inv,
                a_items,
                q.trade.offer,
            ) {
                self.cancel_trade(a, "Trade cancelled."@).tell(
                    a,
                    "Trade cancelled: not enough inventory space."@,
                )
            } else {
                self.exchange(a, p.trade.offer, b_items).exchange(b, q.trade.offer, a_items)
            }
        }
    }
}

fn items_of(offer: &Vec<(usize, InvSlot)>) -> (r: Vec<InvSlot>)
    ensures
        slots_of(r@) == Seq::new(offer@.len(), |k: int| offer@[k].1@),
{
    let mut out: Vec<InvSlot> = Vec::new();
    let mut i: usize = 0;
    while i < offer.len()
        invariant
            i <= offer.len(),
            out@.len() == i,
            forall|k: int| 0 <= k < i ==> (#[trigger] out@[k])@ == offer@[k].1@,
        decreases offer.len() - i,
    {
        out.push(offer[i].1.clone());
        i = i + 1;
    }
    assert(slots_of(out@) =~= Seq::new(offer@.len(), |k: int| offer@[k].1@));
    out
}

impl Sim {
    fn reset_trade_fields(&mut self, pid: u16)
        requires
            old(self).wf(),
            old(self)@.has(pid),
        ensures
            final(self).wf(),
            final(self)@.as_many_players(old(self)@),
            final(self)@ == old(self)@.reset_trade(pid),
    {
        let i: usize = pid as usize;
        let from: Option<u32> = self.players.trade[i].request_from;
        self.players.set_trade(
            i,
            TradeState {
                request_from: from,
                partner: None,
                stage: TradeStage::Offer,
                offer: Vec::new(),
                accepted: false,
                confirmed: false,
            },
        );
        assert(self@.p(pid).trade =~= old(self)@.p(pid).trade.reset());
        assert(self@ =~= old(self)@.reset_trade(pid));
    }

    /// Takes a player out of its trade. Its partner, if still in the trade, leaves
    /// it too and hears why.
    pub fn cancel_player_trade(&mut self, pid: u16, other_msg: &str)
        requires
            old(self).wf(),
            old(self)@.has(pid),
        ensures
            final(self).wf(),
            final(self)@.as_many_players(old(self)@),
            final(self)@ == old(self)@.cancel_trade(pid, other_msg@),
    {
        let partner: Option<u32> = self.players.trade[pid as usize].partner;
        assert(old(self)@.p(pid).ok(old(self)@.w, old(self)@.h, old(self)@.players.slots.len()));
        self.reset_trade_fields(pid);
        if let Some(o) = partner {
            if (o as usize) < self.players.alive.len() && self.players.alive[o as usize]
                && self.players.trade[o as usize].partner == Some(pid as u32) {
                self.reset_trade_fields(o as u16);
                self.players.push_log(o as usize, other_msg.to_owned());
            }
        }
    }

    fn enter_trade(&mut self, pid: u16, partner: u16, partner_name: &str)
        requires
            old(self).wf(),
            old(self)@.has(pid),
            old(self)@.has(partner),
        ensures
            final(self).wf(),
            final(self)@.as_many_players(old(self)@),
            final(self)@ == old(self)@.enter_trade(pid, partner, partner_name@),
    {
        let i: usize = pid as usize;
        self.players.set_trade(
            i,
            TradeState {
                request_from: None,
                partner: Some(partner as u32),
                stage: TradeStage::Offer,
                offer: Vec::new(),
                accepted: false,
                confirmed: false,
            },
        );
        self.players.set_ui(i, UiState::default());
        self.players.aim(i, Intent::Idle, None);
        self.players.push_log(i, join3("Trading with ", partner_name, "."));
        assert(self@.p(pid).trade =~= (TradeV {
            partner: Some(partner as u32),
            request_from: None,
            ..old(self)@.p(pid).trade.reset()
        }));
    }

    /// Begins a trade between two live players; trades they were in end.
    pub fn begin_player_trade(&mut self, a: u16, b: u16)
        requires
            old(self).wf(),
        ensures
            final(self).wf(),
            final(self)@.as_many_players(old(self)@),
            final(self)@ == old(self)@.begin_trade(a, b),
    {
        if !self.players.is_alive(a) || !self.players.is_alive(b) {
            return;
        }
        self.cancel_player_trade(a, "Trade cancelled.");
        self.cancel_player_trade(b, "Trade cancelled.");
        assert(self@.has(a) && self@.has(b));
        let a_name: String = self.players.name[a as usize].clone();
        let b_name: String = self.players.name[b as usize].clone();
        self.enter_trade(a, b, b_name.as_str());
        self.enter_trade(b, a, a_name.as_str());
    }

    /// Sends a system line to one player.
    pub fn push_private_chat(&mut self, pid: u16, text: String)
        requires
            old(self).wf(),
        ensures
            final(self).wf(),
            final(self)@.as_many_players(old(self)@),
            final(self)@ == old(self)@.private_chat(pid, text@),
    {
        self.chat_seq = self.chat_seq.wrapping_add(1);
        let msg = ChatMsg {
            id: self.chat_seq,
            tick: self.tick,
            pid: 0,
            name: "System".to_owned(),
            text,
        };
        let i: usize = pid as usize;
        if i < self.players.alive.len() && self.players.alive[i] {
            self.players.push_private(i, msg);
        }
    }

    /// Asks another player for a trade; where the other asked first, it begins.
    pub fn request_player_trade(&mut self, pid: u16, other_pid: u16)
        requires
            old(self).wf(),
        ensures
            final(self).wf(),
            final(self)@.as_many_players(old(self)@),
            final(self)@ == old(self)@.request_trade(pid, other_pid),
    {
        if pid == other_pid || !self.players.is_alive(pid) || !self.players.is_alive(other_pid) {
            return;
        }
        if self.players.trade[pid as usize].request_from == Some(other_pid as u32) {
            self.begin_player_trade(pid, other_pid);
            return;
        }
        let name: String = self.players.name[pid as usize].clone();
        let other_name: String = self.players.name[other_pid as usize].clone();
        self.players.set_request(other_pid as usize, Some(pid as u32));
        self.players.push_log(
            pid as usize,
            join3("Sending trade offer to ", other_name.as_str(), "..."),
        );
        self.push_private_chat(other_pid, join2(name.as_str(), " wishes to trade with you."));
    }

    fn reopen_trade(&mut self, pid: u16)
        requires
            old(self).wf(),
        ensures
            final(self).wf(),
            final(self)@.as_many_players(old(self)@),
            final(self)@ == old(self)@.reopen_trade(pid),
    {
        if self.players.is_alive(pid) {
            let i: usize = pid as usize;
            let mut t: TradeState = self.players.trade[i].clone();
            t.stage = TradeStage::Offer;
            t.accepted = false;
            t.confirmed = false;
            self.players.set_trade(i, t);
        }
    }

    /// Puts a trade back at the offer stage, for both sides.
    pub fn reset_trade_accepts(&mut self, pid: u16)
        requires
            old(self).wf(),
            old(self)@.has(pid),
        ensures
            final(self).wf(),
            final(self)@.as_many_players(old(self)@),
            final(self)@ == old(self)@.reset_accepts(pid),
    {
        let partner: Option<u32> = self.players.trade[pid as usize].partner;
        self.reopen_trade(pid);
        if let Some(o) = partner {
            self.reopen_trade(o as u16);
        }
    }

    /// Puts a slot into a player's offer, or takes it out again.
    pub fn trade_offer_slot(&mut self, pid: u16, slot: usize)
        requires
            old(self).wf(),
            old(self)@.has(pid),
        ensures
            final(self).wf(),
            final(self)@.as_many_players(old(self)@),
            final(self)@ == old(self)@.offer_slot(pid, slot),
    {
        if slot >= INV_SIZE {
            return;
        }
        let i: usize = pid as usize;
        if self.players.trade[i].partner.is_none() {
            return;
        }
        assert(self@.p(pid).ok(self@.w, self@.h, self@.players.slots.len()));
        if self.players.inv[i][slot].item.as_str().is_empty() {
            return;
        }
        let mut t: TradeState = self.players.trade[i].clone();
        t.offer = toggle(&t.offer, slot);
        self.players.set_trade(i, t);
        self.reset_trade_accepts(pid);
    }

    fn to_confirm(&mut self, pid: u16)
        requires
            old(self).wf(),
            old(self)@.has(pid),
        ensures
            final(self).wf(),
            final(self)@.as_many_players(old(self)@),
            final(self)@ == old(self)@.to_confirm(pid),
    {
        let i: usize = pid as usize;
        let mut t: TradeState = self.players.trade[i].clone();
        t.stage = TradeStage::Confirm;
        t.confirmed = false;
        self.players.set_trade(i, t);
    }

    /// Accepts the offers of a trade; once both sides did, it can be confirmed.
    pub fn trade_accept(&mut self, pid: u16)
        requires
            old(self).wf(),
            old(self)@.has(pid),
        ensures
            final(self).wf(),
            final(self)@.as_many_players(old(self)@),
            final(self)@ == old(self)@.accept_trade(pid),
    {
        let i: usize = pid as usize;
        assert(self@.p(pid).ok(self@.w, self@.h, self@.players.slots.len()));
        let o: u32 = match self.players.trade[i].partner {
            Some(o) => o,
            None => {
                return;
            },
        };
        if self.players.trade[o as usize].partner != Some(pid as u32) {
            self.cancel_player_trade(pid, "Trade cancelled.");
            return;
        }
        let mut t: TradeState = self.players.trade[i].clone();
        t.accepted = true;
        self.players.set_trade(i, t);
        assert(self@.has(o as u16));
        if self.players.trade[o as usize].accepted {
            self.to_confirm(pid);
            self.to_confirm(o as u16);
        }
    }

    /// Confirms a trade; once both sides did, it is carried out.
    pub fn trade_confirm(&mut self, pid: u16)
        requires
            old(self).wf(),
            old(self)@.has(pid),
        ensures
            final(self).wf(),
            final(self)@.as_many_players(old(self)@),
            final(self)@ == old(self)@.confirm_trade(pid),
    {
        let i: usize = pid as usize;
        assert(self@.p(pid).ok(self@.w, self@.h, self@.players.slots.len()));
        let o: u32 = match self.players.trade[i].partner {
            Some(o) => o,
            None => {
                return;
            },
        };
        if self.players.trade[i].stage != TradeStage::Confirm || self.players.trade[o as usize].stage
            != TradeStage::Confirm {
            return;
        }
        let mut t: TradeState = self.players.trade[i].clone();
        t.confirmed = true;
        self.players.set_trade(i, t);
        assert(self@.has(o as u16));
        if self.players.trade[o as usize].confirmed {
            self.complete_player_trade(pid, o as u16);
        }
    }

    fn exchange(&mut self, pid: u16, slots: &Vec<usize>, items: &Vec<InvSlot>)
        requires
            old(self).wf(),
            old(self)@.has(pid),
            forall|k: int| 0 <= k < slots@.len() ==> (#[trigger] slots@[k]) < INV_SIZE,
        ensures
            final(self).wf(),
            final(self)@.as_many_players(old(self)@),
            final(self)@ == old(self)@.exchange(pid, slots@, slots_of(items@)),
    {
        let i: usize = pid as usize;
        assert(self@.p(pid).ok(self@.w, self@.h, self@.players.slots.len()));
        self.players.empty_slots(i, slots.as_slice());
        self.players.receive(i, items.as_slice());
        self.reset_trade_fields(pid);
        self.players.push_log(i, "Accepted trade.".to_owned());
    }

    /// Carries a trade out: both sides get what the other offered. Where an offer
    /// no longer stands, or the items find no room, the trade is cancelled instead.
    pub fn complete_player_trade(&mut self, a: u16, b: u16)
        requires
            old(self).wf(),
            old(self)@.has(a),
            old(self)@.has(b),
        ensures
            final(self).wf(),
            final(self)@.as_many_players(old(self)@),
            final(self)@ == old(self)@.complete_trade(a, b),
    {
        reveal(SimV::complete_trade);
        let ai: usize = a as usize;
        let bi: usize = b as usize;
        if self.players.trade[ai].partner != Some(b as u32) || self.players.trade[bi].partner
            != Some(a as u32) {
            return;
        }
        let a_slots: Vec<usize> = self.players.trade[ai].clone().offer;
        let b_slots: Vec<usize> = self.players.trade[bi].clone().offer;
        let a_offer: Vec<(usize, InvSlot)> = match offer_items_from_slots(
            self.players.inv[ai].as_slice(),
            a_slots.as_slice(),
        ) {
            Some(v) => v,
            None => {
                self.cancel_player_trade(a, "Trade cancelled.");
                return;
            },
        };
        let b_offer: Vec<(usize, InvSlot)> = match offer_items_from_slots(
            self.players.inv[bi].as_slice(),
            b_slots.as_slice(),
        ) {
            Some(v) => v,
            None => {
                self.cancel_player_trade(b, "Trade cancelled.");
                return;
            },
        };
        let a_items: Vec<InvSlot> = items_of(&a_offer);
        let b_items: Vec<InvSlot> = items_of(&b_offer);
        assert(slots_of(a_items@) =~= offered(self@.p(a).inv, a_slots@));
        assert(slots_of(b_items@) =~= offered(self@.p(b).inv, b_slots@));
        if !can_receive_trade_items(
            self.players.inv[ai].as_slice(),
            b_items.as_slice(),
            a_slots.as_slice(),
        ) || !can_receive_trade_items(
            self.players.inv[bi].as_slice(),
            a_items.as_slice(),
            b_slots.as_slice(),
        ) {
            self.cancel_player_trade(a, "Trade cancelled.");
            self.players.push_log(
                ai,
                "Trade cancelled: not enough inventory space.".to_owned(),
            );
            return;
        }
        assert forall|k: int| 0 <= k < a_slots@.len() implies (#[trigger] a_slots@[k]) < INV_SIZE by {
            assert(offerable(self@.p(a).inv, a_slots@[k]));
        }
        assert forall|k: int| 0 <= k < b_slots@.len() implies (#[trigger] b_slots@[k]) < INV_SIZE by {
            assert(offerable(self@.p(b).inv, b_slots@[k]));
        }
        self.exchange(a, &a_slots, &b_items);
        self.exchange(b, &b_slots, &a_items);
    }
}

} // verus!
