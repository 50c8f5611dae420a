//! What clients ask for: reading a command from bytes and carrying it out.

use vstd::prelude::*;
use vstd::utf8::*;
use crate::codec::{
    from_le32, from_le_i32, law_i32_round_trip, law_long_text_round_trip, law_short_text_round_trip,
    law_u32_round_trip, le32, long_text, long_text_at, short_text, short_text_at, BufReader,
};
use crate::sim::{Sim, SimV};

verus! {

pub const CMD_CLICK: u8 = 1;
pub const CMD_ATTACK: u8 = 2;
pub const CMD_TRADE_PLAYER: u8 = 3;
pub const CMD_STOP: u8 = 4;
pub const CMD_EAT: u8 = 5;
pub const CMD_DROP: u8 = 6;
pub const CMD_EQUIP: u8 = 7;
pub const CMD_UNEQUIP: u8 = 8;
pub const CMD_BUY: u8 = 9;
pub const CMD_SELL: u8 = 10;
pub const CMD_CLOSE_TRADE: u8 = 11;
pub const CMD_CLOSE_FORGE: u8 = 12;
pub const CMD_CLOSE_ANGLER: u8 = 13;
pub const CMD_ANGLER_BUY: u8 = 14;
pub const CMD_FORGE: u8 = 15;
pub const CMD_CLOSE_PLAYER_TRADE: u8 = 16;
pub const CMD_TRADE_OFFER_SLOT: u8 = 17;
pub const CMD_TRADE_ACCEPT: u8 = 18;
pub const CMD_TRADE_CONFIRM: u8 = 19;
pub const CMD_ANGEL_CONFIRM: u8 = 20;
pub const CMD_ANGEL_DECLINE: u8 = 21;
pub const CMD_CHAT: u8 = 22;

/// What a client asks for.
#[derive(Debug)]
pub enum ClientCmd {
    Click { x: i32, y: i32 },
    Attack { mid: u32 },
    TradePlayer { pid: u32 },
    Stop,
    Eat { slot: u8 },
    Drop { slot: u8 },
    Equip { slot: u8 },
    Unequip { slot: String },
    Buy { item: String },
    Sell { slot: u8 },
    CloseTrade,
    CloseForge,
    CloseAngler,
    AnglerBuy { item: String },
    Forge { item: String },
    ClosePlayerTrade,
    TradeOfferSlot { slot: u8 },
    TradeAccept,
    TradeConfirm,
    AngelConfirm,
    AngelDecline,
    Chat { text: String },
}

/// What a client asks for.
pub enum CmdV {
    Click { x: i32, y: i32 },
    Attack { mid: u32 },
    TradePlayer { pid: u32 },
    Stop,
    Eat { slot: u8 },
    Drop { slot: u8 },
    Equip { slot: u8 },
    Unequip { slot: Seq<char> },
    Buy { item: Seq<char> },
    Sell { slot: u8 },
    CloseTrade,
    CloseForge,
    CloseAngler,
    AnglerBuy { item: Seq<char> },
    Forge { item: Seq<char> },
    ClosePlayerTrade,
    TradeOfferSlot { slot: u8 },
    TradeAccept,
    TradeConfirm,
    AngelConfirm,
    AngelDecline,
    Chat { text: Seq<char> },
}

impl View for ClientCmd {
    type V = CmdV;

    open spec fn view(&self) -> CmdV {
        match self {
            ClientCmd::Click { x, y } => CmdV::Click { x: *x, y: *y },
            ClientCmd::Attack { mid } => CmdV::Attack { mid: *mid },
            ClientCmd::TradePlayer { pid } => CmdV::TradePlayer { pid: *pid },
            ClientCmd::Stop => CmdV::Stop,
            ClientCmd::Eat { slot } => CmdV::Eat { slot: *slot },
            ClientCmd::Drop { slot } => CmdV::Drop { slot: *slot },
            ClientCmd::Equip { slot } => CmdV::Equip { slot: *slot },
            ClientCmd::Unequip { slot } => CmdV::Unequip { slot: slot@ },
            ClientCmd::Buy { item } => CmdV::Buy { item: item@ },
            ClientCmd::Sell { slot } => CmdV::Sell { slot: *slot },
            ClientCmd::CloseTrade => CmdV::CloseTrade,
            ClientCmd::CloseForge => CmdV::CloseForge,
            ClientCmd::CloseAngler => CmdV::CloseAngler,
            ClientCmd::AnglerBuy { item } => CmdV::AnglerBuy { item: item@ },
            ClientCmd::Forge { item } => CmdV::Forge { item: item@ },
            ClientCmd::ClosePlayerTrade => CmdV::ClosePlayerTrade,
            ClientCmd::TradeOfferSlot { slot } => CmdV::TradeOfferSlot { slot: *slot },
            ClientCmd::TradeAccept => CmdV::TradeAccept,
            ClientCmd::TradeConfirm => CmdV::TradeConfirm,
            ClientCmd::AngelConfirm => CmdV::AngelConfirm,
            ClientCmd::AngelDecline => CmdV::AngelDecline,
            ClientCmd::Chat { text } => CmdV::Chat { text: text@ },
        }
    }
}

/// The command that bytes stand for: a byte for its kind, then what belongs to it. Bytes
/// behind the command are ignored.
pub open spec fn command_of(b: Seq<u8>) -> Option<CmdV> {
    if b.len() == 0 {
        None
    } else if b[0] == CMD_CLICK {
        if b.len() >= 9 {
            Some(CmdV::Click { x: from_le_i32(b, 1), y: from_le_i32(b, 5) })
        } else {
            None
        }
    } else if b[0] == CMD_ATTACK {
        if b.len() >= 5 {
            Some(CmdV::Attack { mid: from_le32(b, 1) })
        } else {
            None
        }
    } else if b[0] == CMD_TRADE_PLAYER {
        if b.len() >= 5 {
            Some(CmdV::TradePlayer { pid: from_le32(b, 1) })
        } else {
            None
        }
    } else if b[0] == CMD_STOP {
        Some(CmdV::Stop)
    } else if b[0] == CMD_EAT {
        if b.len() >= 2 {
            Some(CmdV::Eat { slot: b[1] })
        } else {
            None
        }
    } else if b[0] == CMD_DROP {
        if b.len() >= 2 {
            Some(CmdV::Drop { slot: b[1] })
        } else {
            None
        }
    } else if b[0] == CMD_EQUIP {
        if b.len() >= 2 {
            Some(CmdV::Equip { slot: b[1] })
        } else {
            None
        }
    } else if b[0] == CMD_UNEQUIP {
        match short_text_at(b, 1) {
            Some(slot) => Some(CmdV::Unequip { slot }),
            None => None,
        }
    } else if b[0] == CMD_BUY {
        match short_text_at(b, 1) {
            Some(item) => Some(CmdV::Buy { item }),
            None => None,
        }
    } else if b[0] == CMD_SELL {
        if b.len() >= 2 {
            Some(CmdV::Sell { slot: b[1] })
        } else {
            None
        }
    } else if b[0] == CMD_CLOSE_TRADE {
        Some(CmdV::CloseTrade)
    } else if b[0] == CMD_CLOSE_FORGE {
        Some(CmdV::CloseForge)
    } else if b[0] == CMD_CLOSE_ANGLER {
        Some(CmdV::CloseAngler)
    } else if b[0] == CMD_ANGLER_BUY {
        match short_text_at(b, 1) {
            Some(item) => Some(CmdV::AnglerBuy { item }),
            None => None,
        }
    } else if b[0] == CMD_FORGE {
        match short_text_at(b, 1) {
            Some(item) => Some(CmdV::Forge { item }),
            None => None,
        }
    } else if b[0] == CMD_CLOSE_PLAYER_TRADE {
        Some(CmdV::ClosePlayerTrade)
    } else if b[0] == CMD_TRADE_OFFER_SLOT {
        if b.len() >= 2 {
            Some(CmdV::TradeOfferSlot { slot: b[1] })
        } else {
            None
        }
    } else if b[0] == CMD_TRADE_ACCEPT {
        Some(CmdV::TradeAccept)
    } else if b[0] == CMD_TRADE_CONFIRM {
        Some(CmdV::TradeConfirm)
    } else if b[0] == CMD_ANGEL_CONFIRM {
        Some(CmdV::AngelConfirm)
    } else if b[0] == CMD_ANGEL_DECLINE {
        Some(CmdV::AngelDecline)
    } else if b[0] == CMD_CHAT {
        match long_text_at(b, 1) {
            Some(text) => Some(CmdV::Chat { text }),
            None => None,
        }
    } else {
        None
    }
}

/// Reads a command; nothing where the kind is unknown or the bytes end too soon.
pub fn decode_command(payload: &[u8]) -> (r: Option<ClientCmd>)
    ensures
        r is Some == command_of(payload@) is Some,
        r matches Some(c) ==> command_of(payload@) == Some(c@),
{
    let mut r = BufReader::new(payload);
    let kind: u8 = match r.u8() {
        Some(k) => k,
        None => {
            return None;
        },
    };
    if kind == CMD_CLICK {
        match r.i32() {
            Some(x) => match r.i32() {
                Some(y) => Some(ClientCmd::Click { x, y }),
                None => None,
            },
            None => None,
        }
    } else if kind == CMD_ATTACK {
        match r.u32() {
            Some(mid) => Some(ClientCmd::Attack { mid }),
            None => None,
        }
    } else if kind == CMD_TRADE_PLAYER {
        match r.u32() {
            Some(pid) => Some(ClientCmd::TradePlayer { pid }),
            None => None,
        }
    } else if kind == CMD_STOP {
        Some(ClientCmd::Stop)
    } else if kind == CMD_EAT {
        match r.u8() {
            Some(slot) => Some(ClientCmd::Eat { slot }),
            None => None,
        }
    } else if kind == CMD_DROP {
        match r.u8() {
            Some(slot) => Some(ClientCmd::Drop { slot }),
            None => None,
        }
    } else if kind == CMD_EQUIP {
        match r.u8() {
            Some(slot) => Some(ClientCmd::Equip { slot }),
            None => None,
        }
    } else if kind == CMD_UNEQUIP {
        match r.str_u8() {
            Some(slot) => Some(ClientCmd::Unequip { slot }),
            None => None,
        }
    } else if kind == CMD_BUY {
        match r.str_u8() {
            Some(item) => Some(ClientCmd::Buy { item }),
            None => None,
        }
    } else if kind == CMD_SELL {
        match r.u8() {
            Some(slot) => Some(ClientCmd::Sell { slot }),
            None => None,
        }
    } else if kind == CMD_CLOSE_TRADE {
        Some(ClientCmd::CloseTrade)
    } else if kind == CMD_CLOSE_FORGE {
        Some(ClientCmd::CloseForge)
    } else if kind == CMD_CLOSE_ANGLER {
        Some(ClientCmd::CloseAngler)
    } else if kind == CMD_ANGLER_BUY {
        match r.str_u8() {
            Some(item) => Some(ClientCmd::AnglerBuy { item }),
            None => None,
        }
    } else if kind == CMD_FORGE {
        match r.str_u8() {
            Some(item) => Some(ClientCmd::Forge { item }),
            None => None,
        }
    } else if kind == CMD_CLOSE_PLAYER_TRADE {
        Some(ClientCmd::ClosePlayerTrade)
    } else if kind == CMD_TRADE_OFFER_SLOT {
        match r.u8() {
            Some(slot) => Some(ClientCmd::TradeOfferSlot { slot }),
            None => None,
        }
    } else if kind == CMD_TRADE_ACCEPT {
        Some(ClientCmd::TradeAccept)
    } else if kind == CMD_TRADE_CONFIRM {
        Some(ClientCmd::TradeConfirm)
    } else if kind == CMD_ANGEL_CONFIRM {
        Some(ClientCmd::AngelConfirm)
    } else if kind == CMD_ANGEL_DECLINE {
        Some(ClientCmd::AngelDecline)
    } else if kind == CMD_CHAT {
        match r.str_u16() {
            Some(text) => Some(ClientCmd::Chat { text }),
            None => None,
        }
    } else {
        None
    }
}

/// A command in bytes.
pub open spec fn command_bytes(c: CmdV) -> Seq<u8> {
    match c {
        CmdV::Click { x, y } => seq![CMD_CLICK] + le32(x as u32) + le32(y as u32),
        CmdV::Attack { mid } => seq![CMD_ATTACK] + le32(mid),
        CmdV::TradePlayer { pid } => seq![CMD_TRADE_PLAYER] + le32(pid),
        CmdV::Stop => seq![CMD_STOP],
        CmdV::Eat { slot } => seq![CMD_EAT] + seq![slot],
        CmdV::Drop { slot } => seq![CMD_DROP] + seq![slot],
        CmdV::Equip { slot } => seq![CMD_EQUIP] + seq![slot],
        CmdV::Unequip { slot } => seq![CMD_UNEQUIP] + short_text(slot),
        CmdV::Buy { item } => seq![CMD_BUY] + short_text(item),
        CmdV::Sell { slot } => seq![CMD_SELL] + seq![slot],
        CmdV::CloseTrade => seq![CMD_CLOSE_TRADE],
        CmdV::CloseForge => seq![CMD_CLOSE_FORGE],
        CmdV::CloseAngler => seq![CMD_CLOSE_ANGLER],
        CmdV::AnglerBuy { item } => seq![CMD_ANGLER_BUY] + short_text(item),
        CmdV::Forge { item } => seq![CMD_FORGE] + short_text(item),
        CmdV::ClosePlayerTrade => seq![CMD_CLOSE_PLAYER_TRADE],
        CmdV::TradeOfferSlot { slot } => seq![CMD_TRADE_OFFER_SLOT] + seq![slot],
        CmdV::TradeAccept => seq![CMD_TRADE_ACCEPT],
        CmdV::TradeConfirm => seq![CMD_TRADE_CONFIRM],
        CmdV::AngelConfirm => seq![CMD_ANGEL_CONFIRM],
        CmdV::AngelDecline => seq![CMD_ANGEL_DECLINE],
        CmdV::Chat { text } => seq![CMD_CHAT] + long_text(text),
    }
}

/// Whether the text of a command is short enough to be sent whole.
pub open spec fn sendable(c: CmdV) -> bool {
    match c {
        CmdV::Unequip { slot } => encode_utf8(slot).len() <= 0xff,
        CmdV::Buy { item } => encode_utf8(item).len() <= 0xff,
        CmdV::AnglerBuy { item } => encode_utf8(item).len() <= 0xff,
        CmdV::Forge { item } => encode_utf8(item).len() <= 0xff,
        CmdV::Chat { text } => encode_utf8(text).len() <= 0xffff,
        _ => true,
    }
}

/// A command in bytes is read as the command that it is, whatever follows it.
pub proof fn law_command_round_trip(c: CmdV, after: Seq<u8>)
    requires
        sendable(c),
    ensures
        command_of(command_bytes(c) + after) == Some(c),
{
    let b = command_bytes(c) + after;
    match c {
        CmdV::Click { x, y } => {
            let k = seq![CMD_CLICK];
            assert(b[0] == CMD_CLICK);
            assert(b =~= k + le32(x as u32) + (le32(y as u32) + after));
            law_i32_round_trip(k, x, le32(y as u32) + after);
            law_i32_round_trip(k + le32(x as u32), y, after);
            assert((k + le32(x as u32)).len() == 5);
        },
        CmdV::Attack { mid } => {
            assert(b[0] == CMD_ATTACK);
            law_u32_round_trip(seq![CMD_ATTACK], mid, after);
        },
        CmdV::TradePlayer { pid } => {
            assert(b[0] == CMD_TRADE_PLAYER);
            law_u32_round_trip(seq![CMD_TRADE_PLAYER], pid, after);
        },
        CmdV::Stop => {
            assert(b[0] == CMD_STOP);
        },
        CmdV::Eat { slot } => {
            assert(b[0] == CMD_EAT);
            assert(b[1] == slot);
        },
        CmdV::Drop { slot } => {
            assert(b[0] == CMD_DROP);
            assert(b[1] == slot);
        },
        CmdV::Equip { slot } => {
            assert(b[0] == CMD_EQUIP);
            assert(b[1] == slot);
        },
        CmdV::Unequip { slot } => {
            assert(b[0] == CMD_UNEQUIP);
            law_short_text_round_trip(seq![CMD_UNEQUIP], slot, after);
        },
        CmdV::Buy { item } => {
            assert(b[0] == CMD_BUY);
            law_short_text_round_trip(seq![CMD_BUY], item, after);
        },
        CmdV::Sell { slot } => {
            assert(b[0] == CMD_SELL);
            assert(b[1] == slot);
        },
        CmdV::CloseTrade => {
            assert(b[0] == CMD_CLOSE_TRADE);
        },
        CmdV::CloseForge => {
            assert(b[0] == CMD_CLOSE_FORGE);
        },
        CmdV::CloseAngler => {
            assert(b[0] == CMD_CLOSE_ANGLER);
        },
        CmdV::AnglerBuy { item } => {
            assert(b[0] == CMD_ANGLER_BUY);
            law_short_text_round_trip(seq![CMD_ANGLER_BUY], item, after);
        },
        CmdV::Forge { item } => {
            assert(b[0] == CMD_FORGE);
            law_short_text_round_trip(seq![CMD_FORGE], item, after);
        },
        CmdV::ClosePlayerTrade => {
            assert(b[0] == CMD_CLOSE_PLAYER_TRADE);
        },
        CmdV::TradeOfferSlot { slot } => {
            assert(b[0] == CMD_TRADE_OFFER_SLOT);
            assert(b[1] == slot);
        },
        CmdV::TradeAccept => {
            assert(b[0] == CMD_TRADE_ACCEPT);
        },
        CmdV::TradeConfirm => {
            assert(b[0] == CMD_TRADE_CONFIRM);
        },
        CmdV::AngelConfirm => {
            assert(b[0] == CMD_ANGEL_CONFIRM);
        },
        CmdV::AngelDecline => {
            assert(b[0] == CMD_ANGEL_DECLINE);
        },
        CmdV::Chat { text } => {
            assert(b[0] == CMD_CHAT);
            law_long_text_round_trip(seq![CMD_CHAT], text, after);
        },
    }
}

impl SimV {
    /// The world after a player's command.
    pub open spec fn obeyed(self, pid: u16, c: CmdV, today: i32) -> SimV {
        match c {
            CmdV::Click { x, y } => self.click(pid, x, y),
            CmdV::Attack { mid } => self.order_attack(pid, mid as u16),
            CmdV::TradePlayer { pid: other } => self.order_trade(pid, other as u16),
            CmdV::Stop => self.stop(pid),
            CmdV::Eat { slot } => self.eat(pid, slot as usize),
            CmdV::Drop { slot } => self.drop_one(pid, slot as usize),
            CmdV::Equip { slot } => self.equip(pid, slot as usize),
            CmdV::Unequip { slot } => self.unequip(pid, slot),
            CmdV::Buy { item } => self.buy(pid, item),
            CmdV::Sell { slot } => self.sell(pid, slot as usize),
            CmdV::CloseTrade => self.close(pid, "trade"@),
            CmdV::CloseForge => self.close(pid, "forge"@),
            CmdV::CloseAngler => self.close(pid, "angler"@),
            CmdV::AnglerBuy { item } => self.angler_buy(pid, item),
            CmdV::Forge { item } => self.forge(pid, item),
            CmdV::ClosePlayerTrade => self.cancel_trade(pid, "Trade declined."@),
            CmdV::TradeOfferSlot { slot } => self.offer_slot(pid, slot as usize),
            CmdV::TradeAccept => self.accept_trade(pid),
            CmdV::TradeConfirm => self.confirm_trade(pid),
            CmdV::AngelConfirm => self.sacrifice(pid),
            CmdV::AngelDecline => self.decline(pid),
            CmdV::Chat { text } => self.typed(pid, text, today),
        }
    }
}

impl Sim {
    /// Carries a player's command out.
    #[verifier::spinoff_prover]
    pub fn handle_cmd(&mut self, pid: u16, cmd: ClientCmd, today: i32)
        requires
            old(self).wf(),
            old(self)@.has(pid),
        ensures
            final(self).wf(),
            final(self)@.as_many_players(old(self)@),
            final(self)@ == old(self)@.obeyed(pid, cmd@, today),
    {
        match cmd {
            ClientCmd::Click { x, y } => self.click(pid, x, y),
            ClientCmd::Attack { mid } => self.cmd_attack(pid, mid as u16),
            ClientCmd::TradePlayer { pid: other } => self.cmd_trade(pid, other as u16),
            ClientCmd::Stop => self.stop(pid),
            ClientCmd::Eat { slot } => self.eat(pid, slot as usize),
            ClientCmd::Drop { slot } => self.drop_one(pid, slot as usize),
            ClientCmd::Equip { slot } => self.equip_from_inv(pid, slot as usize),
            ClientCmd::Unequip { slot } => self.unequip_slot(pid, slot.as_str()),
            ClientCmd::Buy { item } => self.buy(pid, item.as_str()),
            ClientCmd::Sell { slot } => self.sell(pid, slot as usize),
            ClientCmd::CloseTrade => self.close_ui(pid, "trade"),
            ClientCmd::CloseForge => self.close_ui(pid, "forge"),
            ClientCmd::CloseAngler => self.close_ui(pid, "angler"),
            ClientCmd::AnglerBuy { item } => self.angler_buy(pid, item.as_str()),
            ClientCmd::Forge { item } => self.forge(pid, item.as_str()),
            ClientCmd::ClosePlayerTrade => self.close_player_trade(pid),
            ClientCmd::TradeOfferSlot { slot } => self.trade_offer_slot(pid, slot as usize),
            ClientCmd::TradeAccept => self.trade_accept(pid),
            ClientCmd::TradeConfirm => self.trade_confirm(pid),
            ClientCmd::AngelConfirm => self.angel_sacrifice(pid),
            ClientCmd::AngelDecline => self.angel_decline(pid),
            ClientCmd::Chat { text } => {
                let _ = self.add_chat(pid, text.as_str(), today);
            },
        }
    }
}

} // verus!
